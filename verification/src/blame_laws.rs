//! What git writes when it blames a file, and that it reads back.

use crate::blame::{
    blamed, blamed_lines, commit_after, commit_named, is_not_committed, is_source_line, seen_after,
    seen_in, touching_commits,
};
use crate::bytes::lemma_byte_len_concat;
use crate::lines::{chomp, lemma_lines_concat, lemma_lines_cons, lines};
use crate::sha::{is_hex, is_object_name, is_sha, law_shas_are_plain, lemma_hex_byte_len};
use crate::text_laws::law_identifiers_are_hexadecimal;
use crate::words::{is_white, is_word, lemma_words_cons, lemma_words_skip_white, words};
use vstd::prelude::*;

verus! {

/// One line of a file, as git blames it: its commit, where it stands, what else is told about
/// the commit, and the line itself.
pub struct BlamedLine {
    pub commit: Seq<char>,
    pub place: Seq<char>,
    pub details: Seq<Seq<char>>,
    pub source: Seq<char>,
}

/// A line about a commit that does not name one.
pub open spec fn is_detail(line: Seq<char>) -> bool {
    &&& !line.contains('\n')
    &&& !is_source_line(line)
    &&& words(chomp(line)).len() > 0 ==> !is_object_name(words(chomp(line))[0])
}

impl BlamedLine {
    /// Whether git can have written the line: a full commit identifier, at least two numbers
    /// after it, and no newline anywhere.
    pub open spec fn wf(self) -> bool {
        &&& is_sha(self.commit)
        &&& !self.place.contains('\n')
        &&& self.place.len() > 0
        &&& self.place.last() != '\r'
        &&& words(self.place).len() >= 2
        &&& forall|i: int| 0 <= i < self.details.len() ==> is_detail(#[trigger] self.details[i])
        &&& !self.source.contains('\n')
    }
}

/// Lines about a commit, as git writes them.
pub open spec fn details_text(details: Seq<Seq<char>>) -> Seq<char>
    decreases details.len(),
{
    if details.len() == 0 {
        Seq::empty()
    } else {
        details_text(details.drop_last()) + (details.last() + seq!['\n'])
    }
}

/// What git writes before a line of the file.
pub open spec fn about_text(line: BlamedLine) -> Seq<char> {
    (line.commit + seq![' '] + line.place + seq!['\n']) + details_text(line.details)
}

/// The text in which git blames a file.
pub open spec fn porcelain_text(file: Seq<BlamedLine>) -> Seq<char>
    decreases file.len(),
{
    if file.len() == 0 {
        Seq::empty()
    } else {
        porcelain_text(file.drop_last()) + (about_text(file.last()) + (seq!['\t']
            + file.last().source + seq!['\n']))
    }
}

/// The commits of the lines of a file.
pub open spec fn commits_of(file: Seq<BlamedLine>) -> Seq<Seq<char>> {
    Seq::new(file.len(), |i: int| file[i].commit)
}

/// The commit that is current after some lines of a blame.
pub open spec fn commit_after_lines(ls: Seq<Seq<char>>, current: Seq<char>) -> Seq<char>
    decreases ls.len(),
{
    if ls.len() == 0 {
        current
    } else {
        commit_after_lines(ls.drop_first(), commit_after(current, ls[0]))
    }
}

/// A line of the file names no commit.
proof fn lemma_source_line_names_none(line: Seq<char>)
    requires
        is_source_line(line),
    ensures
        commit_named(line) is None,
{
}

proof fn lemma_blamed_concat(a: Seq<Seq<char>>, b: Seq<Seq<char>>, current: Seq<char>)
    ensures
        blamed(a + b, current) == blamed(a, current) + blamed(b, commit_after_lines(a, current)),
        commit_after_lines(a + b, current) == commit_after_lines(b, commit_after_lines(a, current)),
    decreases a.len(),
{
    if a.len() == 0 {
        assert(a + b == b);
        assert(blamed(a, current) + blamed(b, current) == blamed(b, current));
    } else {
        assert((a + b).drop_first() == a.drop_first() + b);
        let next = commit_after(current, a[0]);
        lemma_blamed_concat(a.drop_first(), b, next);
        if is_source_line(a[0]) {
            lemma_source_line_names_none(a[0]);
            let rest = blamed(a.drop_first(), current);
            let after = blamed(b, commit_after_lines(a.drop_first(), current));
            assert(seq![current] + (rest + after) == seq![current] + rest + after);
        }
    }
}

proof fn lemma_single(line: Seq<char>, current: Seq<char>)
    ensures
        blamed(seq![line], current) == if is_source_line(line) {
            seq![current]
        } else {
            Seq::empty()
        },
        commit_after_lines(seq![line], current) == commit_after(current, line),
{
    let none = Seq::<Seq<char>>::empty();
    assert(seq![line].drop_first() == none);
    assert(seq![current] + none == seq![current]);
    assert(blamed(none, current) == none);
    assert(blamed(none, commit_after(current, line)) == none);
    assert(commit_after_lines(none, commit_after(current, line)) == commit_after(current, line));
}

proof fn lemma_line_with_newline(line: Seq<char>)
    requires
        !line.contains('\n'),
    ensures
        lines(line + seq!['\n']) == seq![chomp(line)],
{
    lemma_lines_cons(line, Seq::empty());
    assert(line + seq!['\n'] + Seq::<char>::empty() == line + seq!['\n']);
    assert(seq![chomp(line)] + lines(Seq::empty()) == seq![chomp(line)]);
}

proof fn lemma_details(details: Seq<Seq<char>>, current: Seq<char>)
    requires
        forall|i: int| 0 <= i < details.len() ==> is_detail(#[trigger] details[i]),
    ensures
        details_text(details).len() > 0 ==> details_text(details).last() == '\n',
        blamed(lines(details_text(details)), current) == Seq::<Seq<char>>::empty(),
        commit_after_lines(lines(details_text(details)), current) == current,
    decreases details.len(),
{
    if details.len() > 0 {
        let before = details.drop_last();
        let line = details.last();
        assert(is_detail(details[details.len() - 1]));
        assert(forall|i: int| 0 <= i < before.len() ==> #[trigger] before[i] == details[i]);
        lemma_details(before, current);
        lemma_lines_concat(details_text(before), line + seq!['\n']);
        lemma_line_with_newline(line);
        lemma_blamed_concat(lines(details_text(before)), seq![chomp(line)], current);
        lemma_single(chomp(line), current);
    }
}

/// The first of the lines that git writes before a line of the file.
spec fn head_text(line: BlamedLine) -> Seq<char> {
    line.commit + seq![' '] + line.place
}

proof fn lemma_head(line: BlamedLine)
    requires
        line.wf(),
    ensures
        commit_named(head_text(line)) == Some(line.commit),
        !is_source_line(head_text(line)),
        lines(head_text(line) + seq!['\n']) == seq![head_text(line)],
        about_text(line) == (head_text(line) + seq!['\n']) + details_text(line.details),
{
    let head = head_text(line);
    law_shas_are_plain(line.commit);
    lemma_words_skip_white(' ', line.place);
    lemma_words_cons(line.commit, seq![' '] + line.place);
    assert(line.commit + (seq![' '] + line.place) == head);
    lemma_byte_len_concat(line.commit, seq![' '] + line.place);
    assert(is_hex(line.commit[0]));
    assert(head[0] == line.commit[0]);
    assert(words(head)[0] == line.commit);
    assert(!head.contains('\n')) by {
        if head.contains('\n') {
            let i = head.index_of('\n');
            if i < line.commit.len() {
                assert(line.commit[i] == '\n');
            } else if i > line.commit.len() {
                assert(line.place[i - line.commit.len() - 1] == '\n');
            }
        }
    }
    assert(head.last() == line.place.last());
    assert(chomp(head) == head);
    lemma_line_with_newline(head);
}

proof fn lemma_about(line: BlamedLine, current: Seq<char>)
    requires
        line.wf(),
    ensures
        about_text(line).last() == '\n',
        blamed(lines(about_text(line)), current) == Seq::<Seq<char>>::empty(),
        commit_after_lines(lines(about_text(line)), current) == line.commit,
{
    let head = head_text(line);
    lemma_head(line);
    lemma_single(head, current);
    let details = details_text(line.details);
    lemma_lines_concat(head + seq!['\n'], details);
    lemma_details(line.details, line.commit);
    lemma_blamed_concat(seq![head], lines(details), current);
    let none = Seq::<Seq<char>>::empty();
    assert(none + none == none);
}

proof fn lemma_porcelain_but_last(file: Seq<BlamedLine>, end: Seq<char>)
    requires
        file.len() > 0,
        forall|i: int| 0 <= i < file.len() ==> (#[trigger] file[i]).wf(),
        blamed_lines(porcelain_text(file.drop_last())) == commits_of(file.drop_last()),
        porcelain_text(file.drop_last()).len() > 0 ==> porcelain_text(file.drop_last()).last()
            == '\n',
        lines(end).len() == 1,
        is_source_line(lines(end)[0]),
    ensures
        blamed_lines(porcelain_text(file.drop_last()) + (about_text(file.last()) + end))
            == commits_of(file),
{
    let before = porcelain_text(file.drop_last());
    let line = file.last();
    let about = about_text(line);
    assert(file[file.len() - 1].wf());
    let current = commit_after_lines(lines(before), Seq::empty());
    lemma_about(line, current);
    lemma_lines_concat(about, end);
    lemma_lines_concat(before, about + end);
    lemma_blamed_concat(lines(before), lines(about) + lines(end), Seq::empty());
    lemma_blamed_concat(lines(about), lines(end), current);
    assert(lines(end) == seq![lines(end)[0]]);
    lemma_single(lines(end)[0], line.commit);
    let none = Seq::<Seq<char>>::empty();
    assert(none + seq![line.commit] == seq![line.commit]);
    assert(commits_of(file.drop_last()) + seq![line.commit] == commits_of(file));
}

/// Reading the blame that git writes of a file gives back the commit of each of its lines.
pub proof fn law_blame_reads_back(file: Seq<BlamedLine>)
    requires
        forall|i: int| 0 <= i < file.len() ==> (#[trigger] file[i]).wf(),
    ensures
        blamed_lines(porcelain_text(file)) == commits_of(file),
        porcelain_text(file).len() > 0 ==> porcelain_text(file).last() == '\n',
    decreases file.len(),
{
    if file.len() > 0 {
        let before = file.drop_last();
        assert(forall|i: int| 0 <= i < before.len() ==> #[trigger] before[i] == file[i]);
        law_blame_reads_back(before);
        let source = file.last().source;
        assert(file[file.len() - 1].wf());
        lemma_source_holds_no_newline(source);
        lemma_line_with_newline(seq!['\t'] + source);
        assert((seq!['\t'] + source)[0] == '\t');
        assert(is_source_line(chomp(seq!['\t'] + source)));
        lemma_porcelain_but_last(file, seq!['\t'] + source + seq!['\n']);
    } else {
        assert(commits_of(file) == Seq::<Seq<char>>::empty());
        assert(lines(Seq::empty()) == Seq::<Seq<char>>::empty());
    }
}

proof fn lemma_source_holds_no_newline(source: Seq<char>)
    requires
        !source.contains('\n'),
    ensures
        !(seq!['\t'] + source).contains('\n'),
{
    if (seq!['\t'] + source).contains('\n') {
        let i = (seq!['\t'] + source).index_of('\n');
        assert(source[i - 1] == '\n');
    }
}

/// Every line is blamed on a full commit identifier, or on nothing.
pub proof fn law_blamed_commits_are_full(output: Seq<char>)
    ensures
        forall|i: int|
            0 <= i < blamed_lines(output).len() ==> (#[trigger] blamed_lines(output)[i]).len() == 0
                || is_sha(blamed_lines(output)[i]),
{
    lemma_blamed_commits_are_full(lines(output), Seq::empty());
}

proof fn lemma_blamed_commits_are_full(ls: Seq<Seq<char>>, current: Seq<char>)
    requires
        current.len() == 0 || is_sha(current),
    ensures
        forall|i: int|
            0 <= i < blamed(ls, current).len() ==> (#[trigger] blamed(ls, current)[i]).len() == 0
                || is_sha(blamed(ls, current)[i]),
    decreases ls.len(),
{
    if ls.len() > 0 {
        let rest = ls.drop_first();
        if is_source_line(ls[0]) {
            lemma_blamed_commits_are_full(rest, current);
            assert forall|i: int| 0 <= i < blamed(ls, current).len() implies (#[trigger] blamed(
                ls,
                current,
            )[i]).len() == 0 || is_sha(blamed(ls, current)[i]) by {
                if i > 0 {
                    assert(blamed(ls, current)[i] == blamed(rest, current)[i - 1]);
                }
            }
        } else {
            lemma_blamed_commits_are_full(rest, commit_after(current, ls[0]));
            assert(blamed(ls, current) == blamed(rest, commit_after(current, ls[0])));
        }
    }
}

/// As many lines are blamed as lines of the file stand in the blame.
pub proof fn law_each_source_line_is_blamed(ls: Seq<Seq<char>>, current: Seq<char>)
    ensures
        blamed(ls, current).len() == ls.filter(|l: Seq<char>| is_source_line(l)).len(),
    decreases ls.len(),
{
    let pred = |l: Seq<char>| is_source_line(l);
    reveal(Seq::filter);
    if ls.len() > 0 {
        let rest = ls.drop_first();
        assert(seq![ls[0]] + rest == ls);
        Seq::filter_distributes_over_add(seq![ls[0]], rest, pred);
        assert(seq![ls[0]].drop_last() == Seq::<Seq<char>>::empty());
        assert(Seq::<Seq<char>>::empty().filter(pred) == Seq::<Seq<char>>::empty());
        assert(seq![ls[0]].filter(pred) == if pred(ls[0]) {
            seq![ls[0]]
        } else {
            Seq::empty()
        });
        if is_source_line(ls[0]) {
            law_each_source_line_is_blamed(rest, current);
        } else {
            law_each_source_line_is_blamed(rest, commit_after(current, ls[0]));
        }
    }
}

/// Whether all of these are commits: full object identifiers, none of which stands for lines that
/// are not committed.
pub open spec fn all_commits(commits: Seq<Seq<char>>) -> bool {
    forall|i: int|
        0 <= i < commits.len() ==> is_object_name(#[trigger] commits[i]) && !is_not_committed(
            commits[i],
        )
}

/// Whatever a blame holds, only commits are taken from it, and each of them once.
pub proof fn law_touching_commits_are_distinct(output: Seq<char>)
    ensures
        touching_commits(output).no_duplicates(),
        all_commits(touching_commits(output)),
{
    lemma_seen_are_distinct(lines(output), Seq::empty());
}

proof fn lemma_seen_are_distinct(ls: Seq<Seq<char>>, seen: Seq<Seq<char>>)
    requires
        seen.no_duplicates(),
        all_commits(seen),
    ensures
        seen_in(ls, seen).no_duplicates(),
        all_commits(seen_in(ls, seen)),
    decreases ls.len(),
{
    if ls.len() > 0 {
        let next = seen_after(seen, ls[0]);
        assert(next.no_duplicates() && all_commits(next)) by {
            if next != seen {
                let commit = commit_named(ls[0])->Some_0;
                assert(next == seen.push(commit));
                assert forall|i: int, j: int|
                    0 <= i < next.len() && 0 <= j < next.len() && i != j implies next[i]
                    != next[j] by {
                    if i == seen.len() {
                        assert(seen.contains(seen[j]));
                    } else if j == seen.len() {
                        assert(seen.contains(seen[i]));
                    }
                }
            }
        }
        lemma_seen_are_distinct(ls.drop_first(), next);
    }
}

/// The commits among some, each where it is mentioned first, but for lines that are not committed.
pub open spec fn first_mentions(commits: Seq<Seq<char>>) -> Seq<Seq<char>>
    decreases commits.len(),
{
    if commits.len() == 0 {
        Seq::empty()
    } else {
        let before = first_mentions(commits.drop_last());
        if before.contains(commits.last()) || is_not_committed(commits.last()) {
            before
        } else {
            before.push(commits.last())
        }
    }
}

proof fn lemma_seen_concat(a: Seq<Seq<char>>, b: Seq<Seq<char>>, seen: Seq<Seq<char>>)
    ensures
        seen_in(a + b, seen) == seen_in(b, seen_in(a, seen)),
    decreases a.len(),
{
    if a.len() == 0 {
        assert(a + b == b);
    } else {
        assert((a + b).drop_first() == a.drop_first() + b);
        lemma_seen_concat(a.drop_first(), b, seen_after(seen, a[0]));
    }
}

proof fn lemma_seen_single(line: Seq<char>, seen: Seq<Seq<char>>)
    ensures
        seen_in(seq![line], seen) == seen_after(seen, line),
{
    let none = Seq::<Seq<char>>::empty();
    assert(seq![line].drop_first() == none);
    assert(seen_in(none, seen_after(seen, line)) == seen_after(seen, line));
}

proof fn lemma_seen_in_details(details: Seq<Seq<char>>, seen: Seq<Seq<char>>)
    requires
        forall|i: int| 0 <= i < details.len() ==> is_detail(#[trigger] details[i]),
    ensures
        seen_in(lines(details_text(details)), seen) == seen,
    decreases details.len(),
{
    if details.len() > 0 {
        let before = details.drop_last();
        let line = details.last();
        assert(is_detail(details[details.len() - 1]));
        assert(forall|i: int| 0 <= i < before.len() ==> #[trigger] before[i] == details[i]);
        lemma_seen_in_details(before, seen);
        lemma_details(before, Seq::empty());
        lemma_lines_concat(details_text(before), line + seq!['\n']);
        lemma_line_with_newline(line);
        lemma_seen_concat(lines(details_text(before)), seq![chomp(line)], seen);
        lemma_seen_single(chomp(line), seen);
    }
}

/// Reading the blame that git writes of a file gives the commits that touched it, each once, in the
/// order of their first lines.
pub proof fn law_touching_commits_are_those_of_the_file(file: Seq<BlamedLine>)
    requires
        forall|i: int| 0 <= i < file.len() ==> (#[trigger] file[i]).wf(),
    ensures
        touching_commits(porcelain_text(file)) == first_mentions(commits_of(file)),
    decreases file.len(),
{
    let none = Seq::<Seq<char>>::empty();
    if file.len() > 0 {
        let before = file.drop_last();
        let line = file.last();
        assert(forall|i: int| 0 <= i < before.len() ==> #[trigger] before[i] == file[i]);
        assert(file[file.len() - 1].wf());
        law_touching_commits_are_those_of_the_file(before);
        law_blame_reads_back(before);
        let text = porcelain_text(before);
        let about = about_text(line);
        let details = details_text(line.details);
        let source = seq!['\t'] + line.source;
        lemma_head(line);
        lemma_details(line.details, Seq::empty());
        lemma_source_holds_no_newline(line.source);
        lemma_line_with_newline(source);
        assert(source[0] == '\t');
        lemma_source_line_names_none(chomp(source));
        lemma_lines_concat(head_text(line) + seq!['\n'], details);
        lemma_lines_concat(about, source + seq!['\n']);
        lemma_lines_concat(text, about + (source + seq!['\n']));
        let seen = seen_in(lines(text), none);
        let seen2 = seen_after(seen, head_text(line));
        lemma_seen_concat(lines(text), lines(about) + seq![chomp(source)], none);
        lemma_seen_concat(lines(about), seq![chomp(source)], seen);
        lemma_seen_concat(seq![head_text(line)], lines(details), seen);
        lemma_seen_single(head_text(line), seen);
        lemma_seen_in_details(line.details, seen2);
        lemma_seen_single(chomp(source), seen2);
        assert(commits_of(file).drop_last() == commits_of(before));
        assert(commits_of(file).last() == line.commit);
    } else {
        assert(lines(porcelain_text(file)) == none);
        assert(commits_of(file) == none);
    }
}

/// A line that starts with a full object identifier and goes on with two words more names that
/// object, whatever follows.
pub proof fn law_lines_name_their_commit(
    name: Seq<char>,
    first: Seq<char>,
    second: Seq<char>,
    rest: Seq<char>,
)
    requires
        name.len() == 40 || name.len() == 64,
        forall|i: int|
            0 <= i < name.len() ==> (48 <= #[trigger] name[i] as int <= 57 || 65 <= name[i] as int
                <= 70 || 97 <= name[i] as int <= 102),
        is_word(first),
        is_word(second),
        rest.len() > 0 ==> is_white(rest[0]),
    ensures
        commit_named(name + seq![' '] + first + seq![' '] + second + rest) == Some(name),
{
    let tail = seq![' '] + second + rest;
    let line = name + seq![' '] + first + seq![' '] + second + rest;
    law_identifiers_are_hexadecimal(name);
    assert(is_object_name(name));
    assert(is_word(name)) by {
        assert forall|i: int| 0 <= i < name.len() implies !is_white(#[trigger] name[i]) by {
            assert(is_hex(name[i]));
        }
    }
    lemma_words_cons(second, rest);
    lemma_words_skip_white(' ', second + rest);
    assert(seq![' '] + (second + rest) == tail);
    lemma_words_cons(first, tail);
    lemma_words_skip_white(' ', first + tail);
    lemma_words_cons(name, seq![' '] + (first + tail));
    assert(name + (seq![' '] + (first + tail)) == line);
    assert(words(line) == seq![name] + (seq![first] + (seq![second] + words(rest))));
    assert(words(line)[0] == name);
    assert(is_hex(name[0]));
    assert(line[0] == name[0]);
    lemma_hex_byte_len(name);
    lemma_byte_len_concat(name, seq![' '] + (first + tail));
}

/// A line of the file is one that starts with a tab, and a line that names a commit starts with a
/// digit or one of the letters up to `f`; so no line is both.
pub proof fn law_kinds_of_lines(line: Seq<char>)
    ensures
        is_source_line(line) <==> line.len() > 0 && line[0] as int == 9,
        commit_named(line) is Some ==> line.len() > 0 && (48 <= line[0] as int <= 57 || 65
            <= line[0] as int <= 70 || 97 <= line[0] as int <= 102),
{
    if commit_named(line) is Some {
        assert(is_hex(line[0]));
    }
}

proof fn lemma_first_mentions_hold(commits: Seq<Seq<char>>, i: int)
    requires
        0 <= i < commits.len(),
        !is_not_committed(commits[i]),
    ensures
        first_mentions(commits).contains(commits[i]),
    decreases commits.len(),
{
    let before = first_mentions(commits.drop_last());
    let all = first_mentions(commits);
    if i < commits.len() - 1 {
        lemma_first_mentions_hold(commits.drop_last(), i);
        let k = before.index_of(commits[i]);
        assert(all[k] == commits[i]);
    } else if before.contains(commits.last()) {
        let k = before.index_of(commits.last());
        assert(all[k] == commits[i]);
    } else {
        assert(all[before.len() as int] == commits[i]);
    }
}

proof fn lemma_first_mentions_are_mentioned(commits: Seq<Seq<char>>, a: int) -> (i: int)
    requires
        0 <= a < first_mentions(commits).len(),
    ensures
        0 <= i < commits.len(),
        commits[i] == first_mentions(commits)[a],
        !is_not_committed(commits[i]),
    decreases commits.len(),
{
    let before = first_mentions(commits.drop_last());
    if a < before.len() {
        assert(first_mentions(commits)[a] == before[a]);
        lemma_first_mentions_are_mentioned(commits.drop_last(), a)
    } else {
        commits.len() - 1
    }
}

proof fn lemma_first_mentions_in_order(commits: Seq<Seq<char>>, a: int, b: int) -> (i: int)
    requires
        0 <= a < b < first_mentions(commits).len(),
    ensures
        0 <= i < commits.len(),
        commits[i] == first_mentions(commits)[a],
        forall|k: int| 0 <= k <= i ==> #[trigger] commits[k] != first_mentions(commits)[b],
    decreases commits.len(),
{
    let rest = commits.drop_last();
    let before = first_mentions(rest);
    let all = first_mentions(commits);
    assert(all[a] == before[a]);
    if b < before.len() {
        assert(all[b] == before[b]);
        let i = lemma_first_mentions_in_order(rest, a, b);
        assert forall|k: int| 0 <= k <= i implies #[trigger] commits[k] != all[b] by {
            assert(rest[k] == commits[k]);
        }
        i
    } else {
        let i = lemma_first_mentions_are_mentioned(rest, a);
        assert forall|k: int| 0 <= k <= i implies #[trigger] commits[k] != all[b] by {
            if rest[k] == commits.last() {
                lemma_first_mentions_hold(rest, k);
            }
        }
        i
    }
}

/// Every commit that a line of the file is blamed on is among those that touched it, unless its
/// identifier is all zeros.
pub proof fn law_every_commit_of_the_file_touched_it(file: Seq<BlamedLine>, i: int, k: int)
    requires
        forall|j: int| 0 <= j < file.len() ==> (#[trigger] file[j]).wf(),
        0 <= i < file.len(),
        0 <= k < file[i].commit.len(),
        file[i].commit[k] as int != 48,
    ensures
        touching_commits(porcelain_text(file)).contains(file[i].commit),
{
    law_touching_commits_are_those_of_the_file(file);
    assert(commits_of(file)[i] == file[i].commit);
    assert(!is_not_committed(file[i].commit));
    lemma_first_mentions_hold(commits_of(file), i);
}

/// Whether line `i` of a file is of this commit, and digit `k` of it is not zero.
pub open spec fn is_blamed_on(
    file: Seq<BlamedLine>,
    commit: Seq<char>,
    i: int,
    k: int,
) -> bool {
    &&& 0 <= i < file.len()
    &&& file[i].commit == commit
    &&& 0 <= k < commit.len()
    &&& commit[k] as int != 48
}

/// Only commits that a line of the file is blamed on touched it.
pub proof fn law_only_commits_of_the_file_touched_it(file: Seq<BlamedLine>, a: int)
    requires
        forall|j: int| 0 <= j < file.len() ==> (#[trigger] file[j]).wf(),
        0 <= a < touching_commits(porcelain_text(file)).len(),
    ensures
        exists|i: int, k: int|
            is_blamed_on(file, touching_commits(porcelain_text(file))[a], i, k),
{
    law_touching_commits_are_those_of_the_file(file);
    let i = lemma_first_mentions_are_mentioned(commits_of(file), a);
    let commit = file[i].commit;
    assert(commits_of(file)[i] == commit);
    let k = choose|k: int| 0 <= k < commit.len() && #[trigger] commit[k] != '0';
    assert(is_blamed_on(file, commit, i, k));
}

/// Whether a commit has a line of the file before any line of another.
pub open spec fn comes_before(
    file: Seq<BlamedLine>,
    commit: Seq<char>,
    other: Seq<char>,
    i: int,
) -> bool {
    &&& 0 <= i < file.len()
    &&& file[i].commit == commit
    &&& forall|k: int| 0 <= k <= i ==> (#[trigger] file[k]).commit != other
}

/// The commits that touched a file stand in the order of their first lines.
pub proof fn law_touching_commits_are_in_order(file: Seq<BlamedLine>, a: int, b: int)
    requires
        forall|j: int| 0 <= j < file.len() ==> (#[trigger] file[j]).wf(),
        0 <= a < b < touching_commits(porcelain_text(file)).len(),
    ensures
        exists|i: int|
            comes_before(
                file,
                touching_commits(porcelain_text(file))[a],
                touching_commits(porcelain_text(file))[b],
                i,
            ),
{
    law_touching_commits_are_those_of_the_file(file);
    let i = lemma_first_mentions_in_order(commits_of(file), a, b);
    let found = touching_commits(porcelain_text(file));
    assert forall|k: int| 0 <= k <= i implies (#[trigger] file[k]).commit != found[b] by {
        assert(commits_of(file)[k] == file[k].commit);
    }
    assert(comes_before(file, found[a], found[b], i));
}

} // verus!
