//! Putting notes on the lines of a file.

use crate::bytes::{byte_len, fit, fit_in, law_fit_is_longest};
use crate::notes::Notes;
use crate::sha::{is_hex, is_sha, lemma_hex_byte_len};
use crate::text::{chars_of, texts};
use vstd::hash_set::StringHashSet;
use vstd::prelude::*;
use vstd::string::*;

verus! {

/// A note, with the commit that it is on.
#[derive(Debug)]
pub struct LineNote {
    pub commit: String,
    pub note: String,
}

impl View for LineNote {
    type V = (Seq<char>, Seq<char>);

    open spec fn view(&self) -> (Seq<char>, Seq<char>) {
        (self.commit@, self.note@)
    }
}

impl Clone for LineNote {
    fn clone(&self) -> (r: LineNote)
        ensures
            r@ == self@,
    {
        LineNote { commit: self.commit.clone(), note: self.note.clone() }
    }
}

/// The start of a commit identifier, for display: as many whole characters as fit into eight
/// bytes.
pub open spec fn short_form(commit: Seq<char>) -> Seq<char> {
    commit.take(fit(commit, 8) as int)
}

impl LineNote {
    /// The start of the commit identifier, for display.
    pub fn short_sha(&self) -> (r: &str)
        ensures
            r@ == short_form(self.commit@),
    {
        let chars = chars_of(self.commit.as_str());
        let end: usize = fit_in(&chars, 8);
        proof {
            law_fit_is_longest(self.commit@, 8);
        }
        assert(self.commit@.subrange(0, end as int) == self.commit@.take(end as int));
        self.commit.as_str().substring_char(0, end)
    }
}

/// The short form of a full commit identifier is its first eight digits.
pub proof fn law_short_form_of_sha(commit: Seq<char>)
    requires
        is_sha(commit),
    ensures
        short_form(commit) == commit.take(8),
{
    law_fit_is_longest(commit, 8);
    let k = fit(commit, 8) as int;
    lemma_start_of_sha(commit, 8);
    lemma_start_of_sha(commit, k);
}

proof fn lemma_start_of_sha(commit: Seq<char>, k: int)
    requires
        is_sha(commit),
        0 <= k <= commit.len(),
    ensures
        byte_len(commit.take(k)) == k,
{
    let head = commit.take(k);
    assert forall|i: int| 0 <= i < head.len() implies is_hex(#[trigger] head[i]) by {
        assert(head[i] == commit[i]);
    }
    lemma_hex_byte_len(head);
}

/// The short form of a commit is the start of it, of at most eight bytes, and all of it where it
/// takes no more.
pub proof fn law_short_form_is_prefix(commit: Seq<char>)
    ensures
        short_form(commit).is_prefix_of(commit),
        byte_len(short_form(commit)) <= 8,
        byte_len(commit) <= 8 ==> short_form(commit) == commit,
{
    law_fit_is_longest(commit, 8);
    assert(commit.take(commit.len() as int) == commit);
}

/// Whether line `i` shows a note: its commit has one, and no line before it is of that commit.
pub open spec fn shows_note(
    notes: Map<Seq<char>, Seq<char>>,
    commits: Seq<Seq<char>>,
    i: int,
) -> bool {
    notes.contains_key(commits[i]) && !commits.take(i).contains(commits[i])
}

/// The notes that the first `n` lines show, with the number of the line, counted from zero.
pub open spec fn shown_notes(
    notes: Map<Seq<char>, Seq<char>>,
    commits: Seq<Seq<char>>,
    n: nat,
) -> Seq<(u32, (Seq<char>, Seq<char>))>
    decreases n,
{
    if n == 0 {
        Seq::empty()
    } else {
        let before = shown_notes(notes, commits, (n - 1) as nat);
        if shows_note(notes, commits, n - 1) {
            let commit = commits[n - 1];
            before.push(((n - 1) as u32, (commit, notes[commit])))
        } else {
            before
        }
    }
}

/// The mathematical reading of notes on lines.
pub open spec fn line_notes(v: Seq<(u32, LineNote)>) -> Seq<(u32, (Seq<char>, Seq<char>))> {
    Seq::new(v.len(), |i: int| (v[i].0, v[i].1@))
}

/// Finds the lines that show a note: for each commit with a note, the first of its lines.
pub fn match_notes_to_lines(notes: &Notes, line_commits: &[String]) -> (r: Vec<(u32, LineNote)>)
    ensures
        line_notes(r@) == shown_notes(notes@, texts(line_commits@), line_commits@.len()),
{
    let mut r: Vec<(u32, LineNote)> = Vec::new();
    let mut seen = StringHashSet::new();
    let mut i: usize = 0;
    let ghost commits = texts(line_commits@);
    while i < line_commits.len()
        invariant
            i <= line_commits@.len(),
            commits == texts(line_commits@),
            line_notes(r@) == shown_notes(notes@, commits, i as nat),
            forall|c: Seq<char>|
                #[trigger] seen@.contains(c) <==> notes@.contains_key(c) && commits.take(
                    i as int,
                ).contains(c),
        decreases line_commits@.len() - i,
    {
        let ghost before = line_notes(r@);
        let ghost seen_before = seen@;
        let commit = &line_commits[i];
        let ghost c = commit@;
        proof {
            assert(commits[i as int] == c);
            assert(commits.take(i + 1) == commits.take(i as int).push(c));
            assert forall|d: Seq<char>| #[trigger]
                commits.take(i + 1).contains(d) <==> commits.take(i as int).contains(d) || d
                    == c by {
                if commits.take(i as int).contains(d) {
                    let k = commits.take(i as int).index_of(d);
                    assert(commits.take(i + 1)[k] == d);
                }
                if d == c {
                    assert(commits.take(i + 1)[i as int] == d);
                }
                if commits.take(i + 1).contains(d) && d != c {
                    let k = commits.take(i + 1).index_of(d);
                    assert(commits.take(i as int)[k] == d);
                }
            }
        }
        match notes.get(commit.as_str()) {
            Some(note) => {
                if seen.insert(commit.clone()) {
                    r.push((i as u32, LineNote { commit: commit.clone(), note: note.clone() }));
                    assert(line_notes(r@) == before.push((i as u32, (c, notes@[c]))));
                }
            },
            None => {},
        }
        assert forall|d: Seq<char>| #[trigger]
            seen@.contains(d) <==> notes@.contains_key(d) && commits.take(i + 1).contains(d) by {
            assert(seen_before.contains(d) <==> notes@.contains_key(d) && commits.take(
                i as int,
            ).contains(d));
            assert(commits.take(i + 1).contains(d) <==> commits.take(i as int).contains(d) || d
                == c);
        }
        i += 1;
    }
    r
}

/// The note that belongs to a line: that of its commit, on whichever of its lines it is.
pub open spec fn note_at(
    notes: Map<Seq<char>, Seq<char>>,
    commits: Seq<Seq<char>>,
    line: int,
) -> Option<(Seq<char>, Seq<char>)> {
    if 0 <= line < commits.len() && notes.contains_key(commits[line]) {
        Some((commits[line], notes[commits[line]]))
    } else {
        None
    }
}

/// The mathematical reading of an optional note.
pub open spec fn opt_note(n: Option<LineNote>) -> Option<(Seq<char>, Seq<char>)> {
    match n {
        Some(n) => Some(n@),
        None => None,
    }
}

/// Looks up the note that belongs to a line.
pub fn note_for_line(notes: &Notes, line_commits: &[String], line: u32) -> (r: Option<LineNote>)
    ensures
        opt_note(r) == note_at(notes@, texts(line_commits@), line as int),
{
    let i: usize = line as usize;
    if i >= line_commits.len() {
        return None;
    }
    let commit = &line_commits[i];
    assert(texts(line_commits@)[i as int] == commit@);
    match notes.get(commit.as_str()) {
        Some(note) => Some(LineNote { commit: commit.clone(), note: note.clone() }),
        None => None,
    }
}

/// Whether an entry is what line `i` shows.
pub open spec fn is_shown_by(
    entry: (u32, (Seq<char>, Seq<char>)),
    notes: Map<Seq<char>, Seq<char>>,
    commits: Seq<Seq<char>>,
    i: int,
) -> bool {
    shows_note(notes, commits, i) && entry == (i as u32, (commits[i], notes[commits[i]]))
}

/// Whether an entry is what one of the first `n` lines shows.
pub open spec fn is_shown(
    entry: (u32, (Seq<char>, Seq<char>)),
    notes: Map<Seq<char>, Seq<char>>,
    commits: Seq<Seq<char>>,
    n: nat,
) -> bool {
    exists|i: int| 0 <= i < n && #[trigger] is_shown_by(entry, notes, commits, i)
}

/// A line that shows a note is the first line of its commit: it is shown with its own number and
/// the note of its commit. Every line that is to show a note does.
pub proof fn law_first_lines_show_notes(
    notes: Map<Seq<char>, Seq<char>>,
    commits: Seq<Seq<char>>,
    n: nat,
)
    requires
        n <= commits.len(),
    ensures
        forall|k: int|
            0 <= k < shown_notes(notes, commits, n).len() ==> is_shown(
                #[trigger] shown_notes(notes, commits, n)[k],
                notes,
                commits,
                n,
            ),
        forall|i: int|
            0 <= i < n && #[trigger] shows_note(notes, commits, i) ==> shown_notes(
                notes,
                commits,
                n,
            ).contains((i as u32, (commits[i], notes[commits[i]]))),
    decreases n,
{
    if n > 0 {
        let m = (n - 1) as nat;
        let before = shown_notes(notes, commits, m);
        let after = shown_notes(notes, commits, n);
        law_first_lines_show_notes(notes, commits, m);
        assert forall|k: int| 0 <= k < after.len() implies is_shown(
            #[trigger] after[k],
            notes,
            commits,
            n,
        ) by {
            if k < before.len() {
                assert(after[k] == before[k]);
                assert(is_shown(before[k], notes, commits, m));
                let i = choose|i: int|
                    0 <= i < m && #[trigger] is_shown_by(before[k], notes, commits, i);
                assert(is_shown_by(after[k], notes, commits, i));
            } else {
                assert(is_shown_by(after[k], notes, commits, m as int));
            }
        }
        assert forall|i: int| 0 <= i < n && #[trigger] shows_note(
            notes,
            commits,
            i,
        ) implies after.contains((i as u32, (commits[i], notes[commits[i]]))) by {
            let e = (i as u32, (commits[i], notes[commits[i]]));
            if i < m {
                let k = before.index_of(e);
                assert(after[k] == e);
            } else {
                assert(after[before.len() as int] == e);
            }
        }
    }
}

/// No commit is shown on two lines.
pub proof fn law_each_commit_shown_once(
    notes: Map<Seq<char>, Seq<char>>,
    commits: Seq<Seq<char>>,
    n: nat,
)
    requires
        n <= commits.len(),
    ensures
        forall|j: int, k: int|
            0 <= j < k < shown_notes(notes, commits, n).len() ==> (#[trigger] shown_notes(
                notes,
                commits,
                n,
            )[j]).1.0 != (#[trigger] shown_notes(notes, commits, n)[k]).1.0,
        forall|k: int|
            0 <= k < shown_notes(notes, commits, n).len() ==> commits.take(n as int).contains(
                (#[trigger] shown_notes(notes, commits, n)[k]).1.0,
            ),
    decreases n,
{
    if n > 0 {
        let m = (n - 1) as nat;
        let before = shown_notes(notes, commits, m);
        let after = shown_notes(notes, commits, n);
        law_each_commit_shown_once(notes, commits, m);
        assert forall|k: int| 0 <= k < after.len() implies commits.take(n as int).contains(
            (#[trigger] after[k]).1.0,
        ) by {
            if k < before.len() {
                assert(after[k] == before[k]);
                let i = commits.take(m as int).index_of(before[k].1.0);
                assert(commits.take(n as int)[i] == before[k].1.0);
            } else {
                assert(commits.take(n as int)[m as int] == after[k].1.0);
            }
        }
        assert forall|j: int, k: int| 0 <= j < k < after.len() implies (#[trigger] after[j]).1.0
            != (#[trigger] after[k]).1.0 by {
            assert(after[j] == before[j]);
            if k < before.len() {
                assert(after[k] == before[k]);
            } else {
                assert(commits.take(m as int).contains(before[j].1.0));
            }
        }
    }
}

/// Pointing at a line that shows a note finds that note.
pub proof fn law_shown_notes_are_found(
    notes: Map<Seq<char>, Seq<char>>,
    commits: Seq<Seq<char>>,
    k: int,
)
    requires
        commits.len() <= u32::MAX + 1,
        0 <= k < shown_notes(notes, commits, commits.len()).len(),
    ensures
        note_at(
            notes,
            commits,
            shown_notes(notes, commits, commits.len())[k].0 as int,
        ) == Some(shown_notes(notes, commits, commits.len())[k].1),
{
    law_first_lines_show_notes(notes, commits, commits.len());
    let shown = shown_notes(notes, commits, commits.len());
    assert(is_shown(shown[k], notes, commits, commits.len()));
    let i = choose|i: int|
        0 <= i < commits.len() && #[trigger] is_shown_by(shown[k], notes, commits, i);
    assert(is_shown_by(shown[k], notes, commits, i));
}

} // verus!
