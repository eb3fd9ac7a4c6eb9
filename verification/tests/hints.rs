use git_notes::annotate::{match_notes_to_lines, note_for_line, LineNote};
use git_notes::git::{GitOutput, GitReply};
use git_notes::hints::{begin_hover, hover, inlay_hint};
use git_notes::notes::Notes;

const A: &str = "aaaa1111aaaa1111aaaa1111aaaa1111aaaa1111";

fn exited(stdout: &str) -> GitReply {
    GitReply::Exited(GitOutput {
        success: true,
        stdout: stdout.as_bytes().to_vec(),
        stderr: Vec::new(),
    })
}

fn entry(line: u32, commit: &str, note: &str) -> (u32, LineNote) {
    (line, LineNote { commit: commit.to_string(), note: note.to_string() })
}

#[test]
fn hints_show_the_first_line() {
    let hints = inlay_hint(&vec![entry(3, A, "first\nsecond")]);
    assert_eq!(hints.len(), 1);
    assert_eq!(hints[0].line, 3);
    assert_eq!(hints[0].character, u32::MAX);
    assert_eq!(hints[0].label, "\u{26a1} [aaaa1111] first");
    assert_eq!(hints[0].tooltip, "**Git Note** (`aaaa1111`)\n\n---\n\nfirst\nsecond");
    assert!(hints[0].padding_left);
    assert!(inlay_hint(&Vec::new()).is_empty());
}

#[test]
fn long_previews_are_cut() {
    let sixty = "x".repeat(60);
    let hints = inlay_hint(&vec![entry(0, A, &sixty), entry(1, A, &format!("{sixty}y"))]);
    assert_eq!(hints[0].label, format!("\u{26a1} [aaaa1111] {sixty}"));
    assert_eq!(hints[1].label, format!("\u{26a1} [aaaa1111] {}...", "x".repeat(57)));
}

#[test]
fn previews_are_cut_between_characters() {
    let note = format!("{}\u{e9}bbbb", "a".repeat(56));
    let hints = inlay_hint(&vec![entry(0, A, &note)]);
    assert_eq!(hints.len(), 1);
    assert_eq!(hints[0].label, format!("\u{26a1} [aaaa1111] {}...", "a".repeat(56)));
    let note = format!("{}\u{1f600}bbbb", "a".repeat(54));
    let hints = inlay_hint(&vec![entry(0, A, &note)]);
    assert_eq!(hints[0].label, format!("\u{26a1} [aaaa1111] {}...", "a".repeat(54)));
    let note = format!("{}\u{e9}yz", "x".repeat(56));
    assert_eq!(
        inlay_hint(&vec![entry(0, A, &note)])[0].label,
        format!("\u{26a1} [aaaa1111] {note}")
    );
    let note = format!("{}\u{e9}xyz", "x".repeat(57));
    assert_eq!(
        inlay_hint(&vec![entry(0, A, &note)])[0].label,
        format!("\u{26a1} [aaaa1111] {}...", "x".repeat(57))
    );
}

#[test]
fn every_note_has_a_hint() {
    let notes: Vec<(u32, LineNote)> = ["", "\u{e9}", "x\ny", "\u{1f600}\u{1f600}"]
        .iter()
        .enumerate()
        .map(|(i, n)| entry(i as u32, A, &n.repeat(40)))
        .collect();
    let hints = inlay_hint(&notes);
    assert_eq!(hints.len(), 4);
    for (hint, (line, note)) in hints.iter().zip(&notes) {
        assert_eq!(hint.line, *line);
        assert!(hint.tooltip.ends_with(&note.note));
    }
}

#[test]
fn short_forms_are_whole_characters() {
    let odd = LineNote { commit: "abcdefg\u{e9}".to_string(), note: "n".to_string() };
    assert_eq!(odd.short_sha(), "abcdefg");
    let even = LineNote { commit: "abcdef\u{e9}z".to_string(), note: "n".to_string() };
    assert_eq!(even.short_sha(), "abcdef\u{e9}");
}

#[test]
fn shown_notes_are_found_again() {
    let mut notes = Notes::new();
    notes.insert(A.to_string(), "n".to_string());
    let commits = vec!["x".to_string(), A.to_string(), A.to_string()];
    let shown = match_notes_to_lines(&notes, &commits);
    assert_eq!(shown.len(), 1);
    assert_eq!(shown[0].0, 1);
    for line in [1, 2] {
        let found = note_for_line(&notes, &commits, line).unwrap();
        assert_eq!(found.commit, shown[0].1.commit);
        assert_eq!(found.note, "n");
    }
    assert!(note_for_line(&notes, &commits, 0).is_none());
    assert!(note_for_line(&notes, &commits, 3).is_none());
}

#[test]
fn cards_show_the_whole_note() {
    let mut notes = Notes::new();
    notes.insert(A.to_string(), "one\ntwo".to_string());
    let commits = vec![A.to_string(), "short".to_string()];
    let query = begin_hover("/r", &notes, &commits, 0).unwrap();
    assert_eq!(query.args, ["-C", "/r", "log", "--format=%h %an <%ae>%n%s", "-1", A]);
    let card = hover(&query, &exited("abc X <x@y>\nSubject\n"));
    assert_eq!(
        card.markdown,
        "### Git Note\n\n**Commit:** `aaaa1111`\n\nabc X <x@y>\nSubject\n\n\n---\n\none\ntwo"
    );
    assert_eq!((card.line, card.start, card.end), (0, 0, u32::MAX));
    let card = hover(&query, &GitReply::NotStarted("x".to_string()));
    assert_eq!(card.markdown, "### Git Note\n\n**Commit:** `aaaa1111`\n\n\n---\n\none\ntwo");
}

#[test]
fn cards_need_a_full_commit() {
    let mut notes = Notes::new();
    notes.insert("short".to_string(), "n".to_string());
    let commits = vec!["short".to_string(), A.to_string()];
    assert!(begin_hover("/r", &notes, &commits, 0).is_none());
    assert!(begin_hover("/r", &notes, &commits, 1).is_none());
    assert!(begin_hover("/r", &notes, &commits, 2).is_none());
}
