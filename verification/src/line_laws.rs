//! What is shown on the lines of a file, said of the notes and the blame alone.

use crate::annotate::{
    is_shown, is_shown_by, law_first_lines_show_notes, law_short_form_of_sha, note_at, short_form,
    shown_notes, shows_note,
};
use crate::bytes::{fit, law_fit_is_longest, lemma_encode_concat};
use crate::git::{or_empty, printed_trimmed, Reply};
use crate::hints::{card_note, card_text, hint_for, hints_for, preview};
use crate::notes::lemma_decoded_encoding;
use crate::reply_laws::law_replies_are_read;
use crate::sha::is_sha;
use crate::text_laws::{
    is_blank, is_tidy, law_blank_texts_are_trimmed_away, law_first_line_ends_at_the_first_newline,
    law_identifiers_are_hexadecimal,
};
use vstd::prelude::*;
use vstd::utf8::encode_utf8;

verus! {

/// Any line of a file, not only the first one of its commit, has the note on its commit, if there
/// is one; there is none beyond the last line.
pub proof fn law_every_line_has_the_note_on_its_commit(
    notes: Map<Seq<char>, Seq<char>>,
    commits: Seq<Seq<char>>,
    line: int,
)
    ensures
        0 <= line < commits.len() && notes.contains_key(commits[line]) ==> note_at(
            notes,
            commits,
            line,
        ) == Some((commits[line], notes[commits[line]])),
        0 <= line < commits.len() && !notes.contains_key(commits[line]) ==> note_at(
            notes,
            commits,
            line,
        ) is None,
        !(0 <= line < commits.len()) ==> note_at(notes, commits, line) is None,
{
}

/// Two lines of the same commit have the same note, wherever they stand and in whatever file.
pub proof fn law_lines_of_a_commit_have_the_same_note(
    notes: Map<Seq<char>, Seq<char>>,
    commits: Seq<Seq<char>>,
    line: int,
    others: Seq<Seq<char>>,
    other: int,
)
    requires
        0 <= line < commits.len(),
        0 <= other < others.len(),
        commits[line] == others[other],
    ensures
        note_at(notes, commits, line) == note_at(notes, others, other),
{
}

/// A line is shown a note exactly where its commit has one and no line above it is of that commit.
/// What is shown is the line's number, its commit, and the note as it is.
pub proof fn law_first_lines_and_no_others_are_shown(
    notes: Map<Seq<char>, Seq<char>>,
    commits: Seq<Seq<char>>,
    i: int,
)
    requires
        0 <= i < commits.len() <= u32::MAX + 1,
    ensures
        shown_notes(notes, commits, commits.len()).contains(
            (i as u32, (commits[i], notes[commits[i]])),
        ) <==> notes.contains_key(commits[i]) && forall|k: int|
            0 <= k < i ==> #[trigger] commits[k] != commits[i],
        forall|e: int|
            0 <= e < shown_notes(notes, commits, commits.len()).len() ==> {
                let entry = #[trigger] shown_notes(notes, commits, commits.len())[e];
                &&& entry.0 < commits.len()
                &&& entry.1.0 == commits[entry.0 as int]
                &&& notes.contains_pair(entry.1.0, entry.1.1)
            },
{
    let n = commits.len();
    law_first_lines_show_notes(notes, commits, n);
    let shown = shown_notes(notes, commits, n);
    let entry = (i as u32, (commits[i], notes[commits[i]]));
    if shown.contains(entry) {
        let e = shown.index_of(entry);
        assert(is_shown(shown[e], notes, commits, n));
        let j = choose|j: int| 0 <= j < n && #[trigger] is_shown_by(entry, notes, commits, j);
        assert(j == i);
        assert forall|k: int| 0 <= k < i implies #[trigger] commits[k] != commits[i] by {
            assert(commits.take(i)[k] == commits[k]);
        }
    }
    if notes.contains_key(commits[i]) && forall|k: int|
        0 <= k < i ==> #[trigger] commits[k] != commits[i] {
        if commits.take(i).contains(commits[i]) {
            let k = commits.take(i).index_of(commits[i]);
            assert(commits[k] == commits[i]);
        }
        assert(shows_note(notes, commits, i));
    }
    assert forall|e: int| 0 <= e < shown.len() implies {
        let entry = #[trigger] shown[e];
        &&& entry.0 < commits.len()
        &&& entry.1.0 == commits[entry.0 as int]
        &&& notes.contains_pair(entry.1.0, entry.1.1)
    } by {
        assert(is_shown(shown[e], notes, commits, n));
        let j = choose|j: int| 0 <= j < n && #[trigger] is_shown_by(shown[e], notes, commits, j);
    }
}

proof fn lemma_shown_below(notes: Map<Seq<char>, Seq<char>>, commits: Seq<Seq<char>>, n: nat)
    requires
        n <= commits.len() <= u32::MAX + 1,
    ensures
        forall|e: int|
            0 <= e < shown_notes(notes, commits, n).len() ==> (#[trigger] shown_notes(
                notes,
                commits,
                n,
            )[e]).0 < n,
        forall|e: int, f: int|
            0 <= e < f < shown_notes(notes, commits, n).len() ==> (#[trigger] shown_notes(
                notes,
                commits,
                n,
            )[e]).0 < (#[trigger] shown_notes(notes, commits, n)[f]).0,
    decreases n,
{
    if n > 0 {
        let m = (n - 1) as nat;
        lemma_shown_below(notes, commits, m);
        let before = shown_notes(notes, commits, m);
        let after = shown_notes(notes, commits, n);
        assert(forall|e: int| 0 <= e < before.len() ==> after[e] == #[trigger] before[e]);
        assert forall|e: int| 0 <= e < after.len() implies (#[trigger] after[e]).0 < n by {
            if e < before.len() {
                assert(before[e].0 < m);
            }
        }
        assert forall|e: int, f: int| 0 <= e < f < after.len() implies (#[trigger] after[e]).0 < (
        #[trigger] after[f]).0 by {
            assert(before[e].0 < m);
            if f < before.len() {
                assert(before[e].0 < before[f].0);
            }
        }
    }
}

/// What is shown is in the order of the lines.
pub proof fn law_shown_notes_are_in_order(
    notes: Map<Seq<char>, Seq<char>>,
    commits: Seq<Seq<char>>,
    e: int,
    f: int,
)
    requires
        commits.len() <= u32::MAX + 1,
        0 <= e < f < shown_notes(notes, commits, commits.len()).len(),
    ensures
        shown_notes(notes, commits, commits.len())[e].0 < shown_notes(
            notes,
            commits,
            commits.len(),
        )[f].0,
{
    lemma_shown_below(notes, commits, commits.len());
}

/// The short form of a commit is the longest start of it that is encoded in eight bytes.
pub proof fn law_short_forms_are_as_long_as_fits(commit: Seq<char>, k: int)
    requires
        0 <= k <= commit.len(),
    ensures
        short_form(commit) == commit.take(short_form(commit).len() as int),
        encode_utf8(short_form(commit)).len() <= 8,
        encode_utf8(commit.take(k)).len() <= 8 ==> k <= short_form(commit).len(),
{
    law_fit_is_longest(commit, 8);
}

/// Whether a note starts with this line: it holds nothing else, or goes on after a newline.
pub open spec fn starts_with_line(note: Seq<char>, line: Seq<char>, rest: Seq<char>) -> bool {
    &&& forall|i: int| 0 <= i < line.len() ==> #[trigger] line[i] != '\n'
    &&& note == line || note == line + seq!['\r', '\n'] + rest || (note == line + seq!['\n'] + rest
        && (line.len() == 0 || line[line.len() - 1] != '\r'))
}

/// A hint shows the first line of a note whole where that is encoded in at most sixty bytes.
pub proof fn law_short_lines_are_previewed_whole(
    note: Seq<char>,
    line: Seq<char>,
    rest: Seq<char>,
)
    requires
        starts_with_line(note, line, rest),
        encode_utf8(line).len() <= 60,
    ensures
        preview(note) == line,
{
    law_first_line_ends_at_the_first_newline(line, rest);
}

/// Of a longer first line a hint shows the longest start that is encoded in at most 57 bytes, and
/// three dots.
pub proof fn law_long_lines_are_previewed_in_part(
    note: Seq<char>,
    line: Seq<char>,
    rest: Seq<char>,
    k: int,
)
    requires
        starts_with_line(note, line, rest),
        encode_utf8(line).len() > 60,
        0 <= k < line.len(),
        encode_utf8(line.take(k)).len() <= 57,
        encode_utf8(line.take(k + 1)).len() > 57,
    ensures
        preview(note) == line.take(k) + seq!['.', '.', '.'],
{
    law_first_line_ends_at_the_first_newline(line, rest);
    law_fit_is_longest(line, 57);
    reveal_strlit("...");
    assert("..."@ == seq!['.', '.', '.']);
    let m = fit(line, 57) as int;
    if m > k {
        lemma_longer_takes_more(line, k + 1, m);
    }
}

proof fn lemma_longer_takes_more(t: Seq<char>, i: int, j: int)
    requires
        0 <= i <= j <= t.len(),
    ensures
        encode_utf8(t.take(i)).len() <= encode_utf8(t.take(j)).len(),
{
    let a = t.take(i);
    let b = t.subrange(i, j);
    assert(a + b == t.take(j));
    lemma_encode_concat(a, b);
}

/// A hint stands at the end of its line, names the commit by its first eight characters, and
/// previews the note; pointing at it shows the note as it is. There is one hint for each note.
pub proof fn law_hints_name_the_commit_and_show_the_note(
    entries: Seq<(u32, (Seq<char>, Seq<char>))>,
    i: int,
)
    requires
        0 <= i < entries.len(),
        entries[i].1.0.len() == 40,
        forall|j: int|
            0 <= j < 40 ==> (48 <= #[trigger] entries[i].1.0[j] as int <= 57 || 65
                <= entries[i].1.0[j] as int <= 70 || 97 <= entries[i].1.0[j] as int <= 102),
    ensures
        hints_for(entries).len() == entries.len(),
        hints_for(entries)[i].line == entries[i].0,
        hints_for(entries)[i].character == 0xffff_ffff,
        hints_for(entries)[i].padding_left,
        hints_for(entries)[i].label == "⚡ ["@ + entries[i].1.0.subrange(0, 8) + seq![']', ' ']
            + preview(entries[i].1.1),
        hints_for(entries)[i].tooltip == "**Git Note** (`"@ + entries[i].1.0.subrange(0, 8)
            + "`)\n\n---\n\n"@ + entries[i].1.1,
{
    let commit = entries[i].1.0;
    law_identifiers_are_hexadecimal(commit);
    assert(is_sha(commit));
    law_short_form_of_sha(commit);
    assert(commit.take(8) == commit.subrange(0, 8));
    reveal_strlit("] ");
    assert("] "@ == seq![']', ' ']);
    assert(hints_for(entries)[i] == hint_for(entries[i]));
}

/// A hint names any commit by its short form, and previews any note.
pub proof fn law_hints_name_any_commit(entry: (u32, (Seq<char>, Seq<char>)))
    ensures
        hint_for(entry).line == entry.0,
        hint_for(entry).label == "⚡ ["@ + short_form(entry.1.0) + seq![']', ' '] + preview(
            entry.1.1,
        ),
        hint_for(entry).tooltip == "**Git Note** (`"@ + short_form(entry.1.0) + "`)\n\n---\n\n"@
            + entry.1.1,
{
    reveal_strlit("] ");
    assert("] "@ == seq![']', ' ']);
}

/// A line has a card exactly where its commit has a note and is a full commit identifier. The card
/// is about that commit and that note.
pub proof fn law_cards_are_for_full_commits(
    notes: Map<Seq<char>, Seq<char>>,
    commits: Seq<Seq<char>>,
    line: int,
)
    requires
        0 <= line < commits.len(),
    ensures
        card_note(notes, commits, line) == if notes.contains_key(commits[line])
            && commits[line].len() == 40 && forall|i: int|
            0 <= i < 40 ==> (48 <= #[trigger] commits[line][i] as int <= 57 || 65
                <= commits[line][i] as int <= 70 || 97 <= commits[line][i] as int <= 102) {
            Some((commits[line], notes[commits[line]]))
        } else {
            None
        },
{
    law_identifiers_are_hexadecimal(commits[line]);
}

/// A card holds the first eight characters of the commit, what git told about it, without the white
/// space around that, and the note as it is, in this order.
pub proof fn law_cards_tell_about_the_commit_and_the_note(
    commit: Seq<char>,
    note: Seq<char>,
    a: Seq<char>,
    info: Seq<char>,
    b: Seq<char>,
    stderr: Seq<u8>,
)
    requires
        is_sha(commit),
        is_blank(a),
        is_blank(b),
        is_tidy(info),
    ensures
        card_text(
            short_form(commit),
            or_empty(
                printed_trimmed(
                    (Reply::Exited { success: true, stdout: encode_utf8(a + info + b), stderr }),
                ),
            ),
            note,
        ) == "### Git Note\n\n**Commit:** `"@ + commit.subrange(0, 8) + "`\n"@ + seq!['\n'] + info
            + seq!['\n'] + "\n\n---\n\n"@ + note,
{
    law_replies_are_read(a, info, b, stderr);
    law_short_form_of_sha(commit);
    assert(commit.take(8) == commit.subrange(0, 8));
    reveal_strlit("\n");
    assert("\n"@ == seq!['\n']);
    let head = "### Git Note\n\n**Commit:** `"@ + commit.subrange(0, 8) + "`\n"@;
    assert(head + (seq!['\n'] + info + seq!['\n']) == head + seq!['\n'] + info + seq!['\n']);
}

/// A card without anything from git, because it failed or said nothing, still holds the commit and
/// the note.
pub proof fn law_cards_do_without_git(commit: Seq<char>, note: Seq<char>, reply: Reply)
    requires
        is_sha(commit),
        match reply {
            Reply::NotStarted(_) => true,
            Reply::Exited { success, stdout, .. } => !success || stdout == encode_utf8(
                Seq::<char>::empty(),
            ),
        },
    ensures
        card_text(short_form(commit), or_empty(printed_trimmed(reply)), note)
            == "### Git Note\n\n**Commit:** `"@ + commit.subrange(0, 8) + "`\n"@
            + "\n\n---\n\n"@ + note,
{
    let none = Seq::<char>::empty();
    law_short_form_of_sha(commit);
    assert(commit.take(8) == commit.subrange(0, 8));
    lemma_decoded_encoding(none);
    law_blank_texts_are_trimmed_away(none);
    let head = "### Git Note\n\n**Commit:** `"@ + commit.subrange(0, 8) + "`\n"@;
    assert(head + none == head);
}

} // verus!
