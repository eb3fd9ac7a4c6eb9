//! What the tools answer, said of what git writes.

use crate::blame::touching_commits;
use crate::bytes::lemma_encode_first;
use crate::git::{decoded, Reply};
use crate::git_formats::{law_notes_list_reads_back, list_text};
use crate::lines::{lemma_upto, lines, upto};
use crate::notes::{lemma_decoded_encoding, listed_pair, listed_pairs};
use crate::reply_laws::law_commands_are_these;
use crate::text_laws::{
    is_blank, is_tidy, law_blank_texts_are_trimmed_away, law_trimming_keeps_the_middle,
};
use crate::tool_laws::{answer, object_section, sections};
use crate::tools::{listed_objects, section, Call};
use crate::words::{is_white, is_word, trim, words};
use vstd::prelude::*;
use vstd::utf8::encode_utf8;

verus! {

/// Whether a run of git succeeded and wrote this text.
pub open spec fn wrote(reply: Reply, t: Seq<char>) -> bool {
    match reply {
        Reply::Exited { success, stdout, .. } => success && stdout == encode_utf8(t),
        Reply::NotStarted(_) => false,
    }
}

/// Whether git failed, or was never started.
pub open spec fn failed(reply: Reply) -> bool {
    match reply {
        Reply::Exited { success, .. } => !success,
        Reply::NotStarted(_) => true,
    }
}

/// What git tells about an object: the note on it, with the white space around it, if it can be
/// read, and the object's subject, if that can.
pub struct Told {
    pub object: Seq<char>,
    pub has_note: bool,
    pub before: Seq<char>,
    pub note: Seq<char>,
    pub after: Seq<char>,
    pub has_subject: bool,
    pub subject: Seq<char>,
}

impl Told {
    /// Whether the note is what is left without the white space around it.
    pub open spec fn wf(self) -> bool {
        &&& is_blank(self.before)
        &&& is_blank(self.after)
        &&& self.note.len() == 0 || is_tidy(self.note)
    }

    /// Whether git tells this in a repository.
    pub open spec fn is_told(
        self,
        repo: Seq<char>,
        git: spec_fn(Seq<Seq<char>>) -> Reply,
    ) -> bool {
        let note = git(seq!["-C"@, repo, "notes"@, "show"@, self.object]);
        let subject = git(
            seq!["-C"@, repo, "log"@, "--format=%h %an: %s"@, "-1"@, self.object],
        );
        &&& self.wf()
        &&& if self.has_note {
            wrote(note, self.before + self.note + self.after)
        } else {
            failed(note)
        }
        &&& if self.has_subject {
            wrote(subject, self.subject)
        } else {
            failed(subject)
        }
    }

    /// What a report says about the object: its subject as a heading, the whole note, and a rule.
    pub open spec fn part(self) -> Seq<char> {
        let subject = if self.has_subject {
            self.subject
        } else {
            Seq::empty()
        };
        let note = if self.has_note {
            self.note
        } else {
            Seq::empty()
        };
        seq!['#', '#', '#', ' '] + subject + seq!['\n', '\n'] + note + seq![
            '\n',
            '\n',
            '-',
            '-',
            '-',
            '\n',
            '\n',
        ]
    }
}

/// The parts about some objects, one after the other. Where only objects with a note are wanted,
/// the others have none.
pub open spec fn parts(told: Seq<Told>, only_with_note: bool) -> Seq<char>
    decreases told.len(),
{
    if told.len() == 0 {
        Seq::empty()
    } else if only_with_note && !told[0].has_note {
        parts(told.drop_first(), only_with_note)
    } else {
        told[0].part() + parts(told.drop_first(), only_with_note)
    }
}

proof fn lemma_trimmed_note(told: Told)
    requires
        told.wf(),
    ensures
        trim(told.before + told.note + told.after) == told.note,
{
    if told.note.len() == 0 {
        let whole = told.before + told.note + told.after;
        assert forall|i: int| 0 <= i < whole.len() implies is_white(
            #[trigger] whole[i],
        ) by {
            if i < told.before.len() {
                assert(whole[i] == told.before[i]);
            } else {
                assert(whole[i] == told.after[i - told.before.len()]);
            }
        }
        law_blank_texts_are_trimmed_away(whole);
        assert(told.note == Seq::<char>::empty());
    } else {
        law_trimming_keeps_the_middle(told.before, told.note, told.after);
    }
}

proof fn lemma_section(subject: Seq<char>, note: Seq<char>)
    ensures
        section(subject, note) == seq!['#', '#', '#', ' '] + subject + seq!['\n', '\n'] + trim(note)
            + seq!['\n', '\n', '-', '-', '-', '\n', '\n'],
{
    reveal_strlit("### ");
    reveal_strlit("\n\n");
    reveal_strlit("\n\n---\n\n");
    assert("### "@ == seq!['#', '#', '#', ' ']);
    assert("\n\n"@ == seq!['\n', '\n']);
    assert("\n\n---\n\n"@ == seq!['\n', '\n', '-', '-', '-', '\n', '\n']);
}

proof fn lemma_object_section(
    repo: Seq<char>,
    told: Told,
    about_file: bool,
    git: spec_fn(Seq<Seq<char>>) -> Reply,
)
    requires
        told.is_told(repo, git),
    ensures
        object_section(repo, told.object, about_file, git) == if about_file && !told.has_note {
            Seq::empty()
        } else {
            told.part()
        },
{
    law_commands_are_these(repo, told.object);
    let whole = told.before + told.note + told.after;
    lemma_decoded_encoding(whole);
    lemma_decoded_encoding(told.subject);
    lemma_trimmed_note(told);
    let none = Seq::<char>::empty();
    law_blank_texts_are_trimmed_away(none);
    lemma_section(
        if told.has_subject {
            told.subject
        } else {
            none
        },
        if told.has_note {
            whole
        } else {
            none
        },
    );
}

/// The objects that are told about.
pub open spec fn objects_told(told: Seq<Told>) -> Seq<Seq<char>> {
    Seq::new(told.len(), |i: int| told[i].object)
}

proof fn lemma_sections(
    repo: Seq<char>,
    told: Seq<Told>,
    about_file: bool,
    git: spec_fn(Seq<Seq<char>>) -> Reply,
)
    requires
        forall|i: int| 0 <= i < told.len() ==> (#[trigger] told[i]).is_told(repo, git),
    ensures
        sections(repo, objects_told(told), about_file, git) == parts(told, about_file),
    decreases told.len(),
{
    if told.len() > 0 {
        let rest = told.drop_first();
        assert(told[0].is_told(repo, git));
        assert forall|i: int| 0 <= i < rest.len() implies (#[trigger] rest[i]).is_told(
            repo,
            git,
        ) by {
            assert(rest[i] == told[i + 1]);
        }
        lemma_sections(repo, rest, about_file, git);
        lemma_object_section(repo, told[0], about_file, git);
        assert(objects_told(told).drop_first() == objects_told(rest));
        assert(objects_told(told)[0] == told[0].object);
        assert(Seq::<char>::empty() + parts(rest, about_file) == parts(rest, about_file));
    }
}

/// The report on a repository holds, for every listed object and in the order of the list, its
/// subject and the whole note on it, from the first to the last character that is not white space.
pub proof fn law_all_notes_are_reported_whole(
    repo: Seq<char>,
    pairs: Seq<(Seq<char>, Seq<char>)>,
    told: Seq<Told>,
    git: spec_fn(Seq<Seq<char>>) -> Reply,
)
    requires
        pairs.len() > 0,
        told.len() == pairs.len(),
        forall|i: int|
            0 <= i < pairs.len() ==> is_word(#[trigger] pairs[i].0) && is_word(pairs[i].1),
        wrote(git(seq!["-C"@, repo, "notes"@, "list"@]), list_text(pairs)),
        forall|i: int| 0 <= i < told.len() ==> (#[trigger] told[i]).is_told(repo, git),
        forall|i: int| 0 <= i < told.len() ==> (#[trigger] told[i]).object == pairs[i].1,
    ensures
        answer(Call::List { repo }, git) == Ok::<Seq<char>, Seq<char>>(parts(told, false)),
{
    law_commands_are_these(repo, repo);
    lemma_decoded_encoding(list_text(pairs));
    law_notes_list_reads_back(pairs);
    assert(is_word(pairs[0].0));
    let text = list_text(pairs);
    lemma_encode_first(text);
    assert(listed_objects(text) =~= objects_told(told));
    lemma_sections(repo, told, false, git);
    assert(parts(told, false).len() > 0);
}

/// The part about an object stands in the report as one stretch.
pub proof fn law_each_note_stands_in_the_report(told: Seq<Told>, i: int) -> (at: int)
    requires
        0 <= i < told.len(),
    ensures
        0 <= at <= at + told[i].part().len() <= parts(told, false).len(),
        parts(told, false).subrange(at, at + told[i].part().len()) == told[i].part(),
    decreases told.len(),
{
    let rest = told.drop_first();
    let first = told[0].part();
    if i == 0 {
        assert(parts(told, false).subrange(0, first.len() as int) == first);
        0
    } else {
        let at = law_each_note_stands_in_the_report(rest, i - 1);
        assert(rest[i - 1] == told[i]);
        let part = told[i].part();
        let here = at + first.len();
        assert(parts(told, false).subrange(here as int, here + part.len()) == parts(
            rest,
            false,
        ).subrange(at, at + part.len()));
        here as int
    }
}

/// The report on a file holds, for every commit that touched it and has a note, its subject and the
/// whole note on it. Where there is none, it says so.
pub proof fn law_notes_for_a_file_are_reported_whole(
    repo: Seq<char>,
    file: Seq<char>,
    blame: Seq<char>,
    told: Seq<Told>,
    git: spec_fn(Seq<Seq<char>>) -> Reply,
)
    requires
        wrote(git(seq!["-C"@, repo, "blame"@, "--porcelain"@, "--"@, file]), blame),
        told.len() == touching_commits(blame).len(),
        forall|i: int| 0 <= i < told.len() ==> (#[trigger] told[i]).is_told(repo, git),
        forall|i: int|
            0 <= i < told.len() ==> (#[trigger] told[i]).object == touching_commits(blame)[i],
    ensures
        (exists|i: int| 0 <= i < told.len() && (#[trigger] told[i]).has_note) ==> answer(
            Call::ForFile { repo, file },
            git,
        ) == Ok::<Seq<char>, Seq<char>>(parts(told, true)),
        (forall|i: int| 0 <= i < told.len() ==> !(#[trigger] told[i]).has_note) ==> answer(
            Call::ForFile { repo, file },
            git,
        ) == Ok::<Seq<char>, Seq<char>>(
            "No git notes found for commits touching "@ + file + seq!['.'],
        ),
{
    law_commands_are_these(repo, file);
    lemma_decoded_encoding(blame);
    assert(touching_commits(blame) =~= objects_told(told));
    lemma_sections(repo, told, true, git);
    reveal_strlit(".");
    assert("."@ == seq!['.']);
    lemma_parts_are_empty(told);
}

proof fn lemma_parts_are_empty(told: Seq<Told>)
    ensures
        (forall|i: int| 0 <= i < told.len() ==> !(#[trigger] told[i]).has_note) ==> parts(
            told,
            true,
        ).len() == 0,
        (exists|i: int| 0 <= i < told.len() && (#[trigger] told[i]).has_note) ==> parts(
            told,
            true,
        ).len() > 0,
    decreases told.len(),
{
    if told.len() > 0 {
        let rest = told.drop_first();
        lemma_parts_are_empty(rest);
        assert(forall|i: int| 0 <= i < rest.len() ==> #[trigger] rest[i] == told[i + 1]);
        if exists|i: int| 0 <= i < told.len() && (#[trigger] told[i]).has_note {
            let i = choose|i: int| 0 <= i < told.len() && (#[trigger] told[i]).has_note;
            if i > 0 {
                assert(rest[i - 1].has_note);
            }
        } else {
            assert(!told[0].has_note);
            assert forall|i: int| 0 <= i < rest.len() implies !(#[trigger] rest[i]).has_note by {
                assert(!told[i + 1].has_note);
            }
        }
    }
}

/// The answer about one commit holds what git tells about it and the whole note on it.
pub proof fn law_one_note_is_shown_whole(
    repo: Seq<char>,
    commit: Seq<char>,
    a: Seq<char>,
    note: Seq<char>,
    b: Seq<char>,
    details: Seq<char>,
    git: spec_fn(Seq<Seq<char>>) -> Reply,
)
    requires
        is_blank(a),
        is_blank(b),
        note.len() == 0 || is_tidy(note),
        wrote(git(seq!["-C"@, repo, "notes"@, "show"@, commit]), a + note + b),
        ({
            let reply = git(
                seq!["-C"@, repo, "log"@, "--format=%h %an <%ae>%n%s"@, "-1"@, commit],
            );
            wrote(reply, details) || (failed(reply) && details.len() == 0)
        }),
    ensures
        answer(Call::Show { repo, commit }, git) == Ok::<Seq<char>, Seq<char>>(
            "**Commit:** "@ + details + seq!['\n', '\n', '-', '-', '-', '\n', '\n'] + note,
        ),
{
    law_commands_are_these(repo, commit);
    lemma_decoded_encoding(a + note + b);
    lemma_decoded_encoding(details);
    lemma_trimmed_note(
        Told {
            object: commit,
            has_note: true,
            before: a,
            note,
            after: b,
            has_subject: true,
            subject: details,
        },
    );
    reveal_strlit("\n\n---\n\n");
    assert("\n\n---\n\n"@ == seq!['\n', '\n', '-', '-', '-', '\n', '\n']);
    assert(details.len() == 0 ==> details == Seq::<char>::empty());
}

proof fn lemma_blank_lines_list_nothing(t: Seq<char>)
    requires
        is_blank(t),
    ensures
        listed_objects(t) == Seq::<Seq<char>>::empty(),
    decreases t.len(),
{
    if t.len() > 0 {
        let n = upto(t, '\n') as int;
        lemma_upto(t, '\n');
        let line = lines(t)[0];
        assert forall|i: int| 0 <= i < line.len() implies is_white(
            #[trigger] line[i],
        ) by {
            assert(line[i] == t[i]);
        }
        lemma_blank_texts_hold_no_words(line);
        if n < t.len() {
            let rest = t.skip(n + 1);
            assert forall|i: int| 0 <= i < rest.len() implies is_white(
                #[trigger] rest[i],
            ) by {
                assert(rest[i] == t[n + 1 + i]);
            }
            lemma_blank_lines_list_nothing(rest);
            assert(listed_objects(rest).len() == listed_pairs(lines(rest)).len());
            assert(lines(t).drop_first() == lines(rest));
        } else {
            assert(lines(t).drop_first() == Seq::<Seq<char>>::empty());
        }
        assert(listed_pairs(lines(t).drop_first()).len() == 0);
        assert(words(lines(t)[0]).len() == 0);
        assert(listed_pair(lines(t)[0]) is None);
        assert(listed_pairs(lines(t)) == listed_pairs(lines(t).drop_first()));
    }
    assert(listed_objects(t) =~= Seq::<Seq<char>>::empty());
}

proof fn lemma_blank_texts_hold_no_words(t: Seq<char>)
    requires
        is_blank(t),
    ensures
        words(t).len() == 0,
    decreases t.len(),
{
    if t.len() > 0 {
        let rest = t.drop_first();
        assert(is_white(t[0]));
        assert(forall|i: int| 0 <= i < rest.len() ==> #[trigger] rest[i] == t[i + 1]);
        lemma_blank_texts_hold_no_words(rest);
    }
}

/// What a tool answers where git cannot be run or tells of nothing.
pub proof fn law_failures_are_told(
    repo: Seq<char>,
    x: Seq<char>,
    git: spec_fn(Seq<Seq<char>>) -> Reply,
    reason: Seq<char>,
    message: Seq<char>,
    stdout: Seq<u8>,
)
    ensures
        git(seq!["-C"@, repo, "notes"@, "list"@]) == Reply::NotStarted(reason) ==> answer(
            Call::List { repo },
            git,
        ) == Err::<Seq<char>, Seq<char>>("Failed to run git: "@ + reason),
        failed(git(seq!["-C"@, repo, "notes"@, "list"@])) && !(git(
            seq!["-C"@, repo, "notes"@, "list"@],
        ) is NotStarted) ==> answer(Call::List { repo }, git) == Ok::<Seq<char>, Seq<char>>(
            "No git notes found in this repository."@,
        ),
        wrote(git(seq!["-C"@, repo, "notes"@, "list"@]), Seq::empty()) ==> answer(
            Call::List { repo },
            git,
        ) == Ok::<Seq<char>, Seq<char>>("No git notes found in this repository."@),
        message.len() > 0 && is_blank(message) && wrote(
            git(seq!["-C"@, repo, "notes"@, "list"@]),
            message,
        ) ==> answer(Call::List { repo }, git) == Ok::<Seq<char>, Seq<char>>(
            "No git notes found."@,
        ),
        git(seq!["-C"@, repo, "blame"@, "--porcelain"@, "--"@, x]) == Reply::NotStarted(reason)
            ==> answer(Call::ForFile { repo, file: x }, git) == Err::<Seq<char>, Seq<char>>(
            "Failed to run git blame: "@ + reason,
        ),
        git(seq!["-C"@, repo, "blame"@, "--porcelain"@, "--"@, x]) == (Reply::Exited {
            success: false,
            stdout,
            stderr: encode_utf8(message),
        }) ==> answer(Call::ForFile { repo, file: x }, git) == Err::<Seq<char>, Seq<char>>(
            "git blame failed: "@ + message,
        ),
        git(seq!["-C"@, repo, "blame"@, "--porcelain"@, "--"@, x]) == (Reply::Exited {
            success: false,
            stdout,
            stderr: stdout,
        }) ==> answer(Call::ForFile { repo, file: x }, git) == Err::<Seq<char>, Seq<char>>(
            "git blame failed: "@ + decoded(stdout),
        ),
        failed(git(seq!["-C"@, repo, "notes"@, "show"@, x])) ==> answer(
            Call::Show { repo, commit: x },
            git,
        ) == Err::<Seq<char>, Seq<char>>("No note found for "@ + x),
        answer(Call::Unknown { name: x }, git) == Err::<Seq<char>, Seq<char>>(
            "Unknown tool: "@ + x,
        ),
{
    law_commands_are_these(repo, x);
    lemma_decoded_encoding(message);
    assert(encode_utf8(Seq::<char>::empty()).len() == 0);
    if message.len() > 0 && is_blank(message) {
        lemma_encode_first(message);
        lemma_blank_lines_list_nothing(message);
    }
}

} // verus!
