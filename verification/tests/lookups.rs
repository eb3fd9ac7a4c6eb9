use git_notes::cache::{BlameCache, NotesCache};
use git_notes::git::{GitOutput, GitReply};
use git_notes::lookup::{
    blame_file, get_all_notes, keep_blame, keep_listed_notes, keep_notes, BlameStep, NotesStep,
};

const SECOND: u64 = 1_000_000_000;
const A: &str = "aaaa1111aaaa1111aaaa1111aaaa1111aaaa1111";

fn exited(stdout: &str) -> GitReply {
    GitReply::Exited(GitOutput {
        success: true,
        stdout: stdout.as_bytes().to_vec(),
        stderr: Vec::new(),
    })
}

#[test]
fn notes_are_fetched_once() {
    let mut cache = NotesCache::new();
    match get_all_notes(&cache, "/r", 0) {
        NotesStep::List(args) => assert_eq!(args, ["-C", "/r", "notes", "list"]),
        _ => panic!("not listed"),
    }
    let request = match keep_listed_notes(&mut cache, "/r", &exited("b o\n"), 1) {
        NotesStep::Read(request) => request,
        _ => panic!("not read"),
    };
    assert!(matches!(get_all_notes(&cache, "/r", 1), NotesStep::List(_)));
    assert_eq!(request.args, ["-C", "/r", "cat-file", "--batch"]);
    assert_eq!(request.input, "b\n");
    let reply = exited("b blob 4\nnote\n");
    let notes = keep_notes(&mut cache, "/r", &request.blob_to_object, &reply, 2);
    assert_eq!(notes.get("o").unwrap(), "note");
    match get_all_notes(&cache, "/r", 1 + 10 * SECOND) {
        NotesStep::Ready(notes) => assert_eq!(notes.get("o").unwrap(), "note"),
        _ => panic!("not kept"),
    }
    assert!(matches!(get_all_notes(&cache, "/r", 2 + 10 * SECOND), NotesStep::List(_)));
    assert!(matches!(get_all_notes(&cache, "/s", 2), NotesStep::List(_)));
}

#[test]
fn that_there_are_no_notes_is_kept() {
    let mut cache = NotesCache::new();
    match keep_listed_notes(&mut cache, "/r", &exited(""), 5) {
        NotesStep::Ready(notes) => assert!(notes.is_empty()),
        _ => panic!("something to read"),
    }
    match get_all_notes(&cache, "/r", 6) {
        NotesStep::Ready(notes) => assert!(notes.is_empty()),
        _ => panic!("not kept"),
    }
}

#[test]
fn blames_are_fetched_once() {
    let mut cache = BlameCache::new();
    match blame_file(&cache, "/r", "f", 0) {
        BlameStep::Run(args) => {
            assert_eq!(args, ["-C", "/r", "blame", "--porcelain", "--", "f"])
        }
        BlameStep::Ready(_) => panic!("not blamed"),
    }
    let reply = exited(&format!("{A} 1 1 1\n\tx\n"));
    assert_eq!(keep_blame(&mut cache, "/r", "f", &reply, 1), [A]);
    match blame_file(&cache, "/r", "f", 5 * SECOND) {
        BlameStep::Ready(commits) => assert_eq!(commits, [A]),
        BlameStep::Run(_) => panic!("not kept"),
    }
    assert!(matches!(blame_file(&cache, "/r", "f", 1 + 5 * SECOND), BlameStep::Run(_)));
    assert!(matches!(blame_file(&cache, "/r", "g", 1), BlameStep::Run(_)));
}
