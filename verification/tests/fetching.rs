use git_notes::annotate::{match_notes_to_lines, note_for_line};
use git_notes::blame::{commits_touching, parse_blame_porcelain};
use git_notes::fetch::{
    blame_args, fetch_all_notes, fetch_blame, finish_notes, notes_list_args, NotesFetch,
};
use git_notes::git::{git, run_git, GitOutput, GitReply};
use git_notes::notes::{
    parse_batch, parse_cat_file_batch, parse_notes_list, Notes, MAX_NOTE_BLOB_SIZE,
};

const A: &str = "aaaa1111aaaa1111aaaa1111aaaa1111aaaa1111";
const B: &str = "bbbb2222bbbb2222bbbb2222bbbb2222bbbb2222";
const ZERO: &str = "0000000000000000000000000000000000000000";

fn exited(success: bool, stdout: &[u8]) -> GitReply {
    GitReply::Exited(GitOutput { success, stdout: stdout.to_vec(), stderr: Vec::new() })
}

fn pair(blob: &str, object: &str) -> (String, String) {
    (blob.to_string(), object.to_string())
}

#[test]
fn git_is_asked_in_the_repository() {
    assert_eq!(notes_list_args("/r"), ["-C", "/r", "notes", "list"]);
    assert_eq!(blame_args("/r", "a b"), ["-C", "/r", "blame", "--porcelain", "--", "a b"]);
}

#[test]
fn what_git_prints_is_decoded() {
    assert_eq!(run_git(&exited(true, b" a\xffb\n")).as_deref(), Some(" a\u{fffd}b\n"));
    assert_eq!(git(&exited(true, b" a\xffb\n")).as_deref(), Some("a\u{fffd}b"));
    assert_eq!(git(&exited(true, "\u{e9}".as_bytes())).as_deref(), Some("\u{e9}"));
    assert_eq!(run_git(&exited(false, b"x")), None);
    assert_eq!(git(&GitReply::NotStarted("x".to_string())), None);
}

#[test]
fn notes_are_shown_from_what_git_writes() {
    let list = format!("b1 {A}\nb2 {B}\n");
    let request = match fetch_all_notes("/r", &exited(true, list.as_bytes())) {
        NotesFetch::Read(request) => request,
        NotesFetch::Done(_) => panic!("nothing to read"),
    };
    assert_eq!(request.args, ["-C", "/r", "cat-file", "--batch"]);
    assert_eq!(request.input, "b1\nb2\n");
    assert_eq!(request.blob_to_object, vec![pair("b1", A), pair("b2", B)]);

    let batch = b"b1 blob 20\nThis is a test note\n\nb2 blob 1\n \n";
    let notes = finish_notes(&request.blob_to_object, &exited(true, batch));
    assert_eq!(notes.len(), 1);
    assert_eq!(notes.get(A).unwrap(), "This is a test note");

    let blame = format!("{B} 1 1 1\nauthor X\n\tone\n{A} 2 2 2\n\ttwo\n{A} 3 3\n\tthree\n");
    let blame = fetch_blame(&exited(true, blame.as_bytes()));
    assert_eq!(blame, [B, A, A]);

    let shown = match_notes_to_lines(&notes, &blame);
    assert_eq!(shown.len(), 1);
    assert_eq!(shown[0].0, 1);
    assert_eq!(shown[0].1.commit, A);
    assert_eq!(shown[0].1.note, "This is a test note");
}

#[test]
fn without_notes_nothing_more_is_read() {
    for reply in [
        exited(true, b""),
        exited(true, b" \n"),
        exited(true, b"lonely\n"),
        exited(false, b"b1 o1\n"),
        GitReply::NotStarted("x".to_string()),
    ] {
        match fetch_all_notes("/r", &reply) {
            NotesFetch::Done(notes) => assert!(notes.is_empty()),
            NotesFetch::Read(_) => panic!("something to read"),
        }
    }
}

#[test]
fn without_contents_there_are_no_notes() {
    let pairs = vec![pair("b", "o")];
    assert!(finish_notes(&pairs, &exited(false, b"b blob 1\nx\n")).is_empty());
    assert!(finish_notes(&pairs, &GitReply::NotStarted("x".to_string())).is_empty());
}

#[test]
fn blank_last_lines_have_their_commit() {
    let blame = format!("{A} 1 1 2\nfilename f\n\tx\n{A} 2 2\n\t\n");
    let commits = fetch_blame(&exited(true, blame.as_bytes()));
    assert_eq!(commits, [A, A]);
    let mut notes = Notes::new();
    notes.insert(A.to_string(), "n".to_string());
    let found = note_for_line(&notes, &commits, 1).unwrap();
    assert_eq!(found.commit, A);
    assert_eq!(found.note, "n");
    assert!(fetch_blame(&exited(false, blame.as_bytes())).is_empty());
}

#[test]
fn lists_read_back() {
    let pairs = parse_notes_list("b1 o1\n  b2\to2 more\r\n\nb3\nb4 o4");
    assert_eq!(pairs, vec![pair("b1", "o1"), pair("b2", "o2"), pair("b4", "o4")]);
}

#[test]
fn batches_read_back() {
    let pairs = vec![pair("b1", "o1"), pair("b2", "o2"), pair("b3", "o1")];
    let text = "b1 blob 4\n\u{e9}\u{e9}\nb2 blob 7\n a\n\nb\n\nb3 blob 1\nz\n";
    let notes = parse_cat_file_batch(text, &pairs);
    assert_eq!(notes.len(), 2);
    assert_eq!(notes.get("o1").unwrap(), "z");
    assert_eq!(notes.get("o2").unwrap(), "a\n\nb");
}

#[test]
fn batches_that_break_off_are_read_so_far() {
    let pairs = vec![pair("b1", "o1"), pair("b2", "o2")];
    for rest in ["b2 blob 3\nab", "b2 blob x\nabc\n", "b2 missing\n", "b2 blob 3", "b2 blob -1\n"] {
        let notes = parse_cat_file_batch(&format!("b1 blob 1\na\n{rest}"), &pairs);
        assert_eq!(notes.len(), 1, "{:?}", rest);
        assert_eq!(notes.get("o1").unwrap(), "a");
    }
}

#[test]
fn sizes_count_the_bytes_that_git_wrote() {
    let pairs = vec![pair("b1", "o1"), pair("b2", "o2"), pair("b3", "o3")];
    let batch = b"b1 blob 3\na\xffb\nb2 blob 2\n\xff\xfe\nb3 blob 5\nlast\n\n";
    let notes = finish_notes(&pairs, &exited(true, batch));
    assert_eq!(notes.len(), 3);
    assert_eq!(notes.get("o1").unwrap(), "a\u{fffd}b");
    assert_eq!(notes.get("o2").unwrap(), "\u{fffd}\u{fffd}");
    assert_eq!(notes.get("o3").unwrap(), "last");
    let cut = parse_batch(b"b1 blob 1\n\xc3\xa9\n", &pairs);
    assert_eq!(cut.get("o1").unwrap(), "\u{fffd}");
}

#[test]
fn the_last_kept_note_on_an_object_wins() {
    let pairs = vec![pair("b1", "o"), pair("b2", "o"), pair("b3", "o")];
    let notes = parse_cat_file_batch("b1 blob 1\na\nb2 blob 1\nb\nb3 blob 1\n \n", &pairs);
    assert_eq!(notes.len(), 1);
    assert_eq!(notes.get("o").unwrap(), "b");
}

#[test]
fn blobs_of_the_largest_size_are_kept() {
    let pairs = vec![pair("b1", "o1")];
    let content = "x".repeat(MAX_NOTE_BLOB_SIZE);
    let notes = parse_cat_file_batch(&format!("b1 blob {}\n{content}\n", content.len()), &pairs);
    assert_eq!(notes.get("o1").unwrap(), &content);
}

#[test]
fn touching_commits_are_distinct() {
    let blame = format!(
        "{A} 1 1 1\n\tone\n{ZERO} 2 2 1\n\ttwo\n{B} 3 3 1\n\tthree\n{A} 4 4\n\tfour\nabc 1 1\n"
    );
    assert_eq!(commits_touching(&blame), [A, B]);
    assert!(commits_touching("").is_empty());
    let long = format!("{A}ff 1 1");
    assert!(commits_touching(&long).is_empty());
    assert_eq!(parse_blame_porcelain(&format!("{long}\n\tx\n")), [""]);
    let sha256 = "ab".repeat(32);
    let zero256 = "0".repeat(64);
    let blame = format!("{sha256} 1 1 1\n\tone\n{zero256} 2 2 1\n\ttwo\n");
    assert_eq!(commits_touching(&blame), [sha256.as_str()]);
}

#[test]
fn touching_commits_are_those_of_the_file() {
    let blame = format!("{B} 1 1 2\nauthor Bo\n\tone\n{B} 2 2\n\ttwo\n{A} 3 3 1\nauthor Al\n\tthree\n");
    assert_eq!(commits_touching(&blame), [B, A]);
    let long_author = format!("{B} 1 1 1\nauthor {} Lastname\n\tone\n", "F".repeat(40));
    assert_eq!(commits_touching(&long_author), [B]);
    assert_eq!(parse_blame_porcelain(&long_author), [B]);
}

#[test]
fn kept_notes_are_presentable() {
    let pairs = vec![pair("b1", "o1"), pair("b2", "o2")];
    let notes = parse_cat_file_batch("b1 blob 6\n\t x \n\n\nb2 blob 2\n\u{a0}\n", &pairs);
    assert_eq!(notes.len(), 1);
    assert_eq!(notes.get("o1").unwrap(), "x");
}
