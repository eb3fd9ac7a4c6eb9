//! Reading `git blame --porcelain`.

use crate::bytes::{byte_len, fit_in, law_fit_is_longest};
use crate::git::opt_text;
use crate::lines::{lines, lines_of};
use crate::sha::{
    hex, is_hex, is_object_name, is_sha, is_valid_object_name, is_valid_sha,
};
use crate::text::{chars_of, same_text, texts};
use crate::words::{words, words_of};
use vstd::prelude::*;

verus! {

/// A line that may name a commit: at least forty bytes long, and starting with a hexadecimal
/// digit.
pub open spec fn is_commit_line(line: Seq<char>) -> bool {
    byte_len(line) >= 40 && line.len() > 0 && is_hex(line[0])
}

/// A line of the blamed file, which git writes after a tab.
pub open spec fn is_source_line(line: Seq<char>) -> bool {
    line.len() > 0 && line[0] == '\t'
}

/// The commit that a line names: a full object identifier, with two numbers after it. Lines that
/// tell about a commit, such as that of its author, name none.
pub open spec fn commit_named(line: Seq<char>) -> Option<Seq<char>> {
    if is_commit_line(line) && words(line).len() >= 3 && is_object_name(words(line)[0]) {
        Some(words(line)[0])
    } else {
        None
    }
}

/// The commit that is current after a line: the one it names, if that is a full commit
/// identifier, else the one before it.
pub open spec fn commit_after(current: Seq<char>, line: Seq<char>) -> Seq<char> {
    match commit_named(line) {
        Some(commit) if is_sha(commit) => commit,
        _ => current,
    }
}

/// The commits of the source lines among some lines of a blame, where `current` is the commit
/// named before them.
pub open spec fn blamed(ls: Seq<Seq<char>>, current: Seq<char>) -> Seq<Seq<char>>
    decreases ls.len(),
{
    if ls.len() == 0 {
        Seq::empty()
    } else if is_source_line(ls[0]) {
        seq![current] + blamed(ls.drop_first(), current)
    } else {
        blamed(ls.drop_first(), commit_after(current, ls[0]))
    }
}

/// The commit of each line of the blamed file; an empty text where none was named before it.
pub open spec fn blamed_lines(output: Seq<char>) -> Seq<Seq<char>> {
    blamed(lines(output), Seq::empty())
}

/// Whether git blames lines that are not committed yet on this: all zeros.
pub open spec fn is_not_committed(commit: Seq<char>) -> bool {
    forall|i: int| 0 <= i < commit.len() ==> #[trigger] commit[i] == '0'
}

/// The commits seen after one more line: the commit that it names joins them, unless it has been
/// seen or stands for lines that are not committed.
pub open spec fn seen_after(seen: Seq<Seq<char>>, line: Seq<char>) -> Seq<Seq<char>> {
    match commit_named(line) {
        Some(commit) if !seen.contains(commit) && !is_not_committed(commit) => seen.push(commit),
        _ => seen,
    }
}

/// The commits seen after some lines of a blame.
pub open spec fn seen_in(ls: Seq<Seq<char>>, seen: Seq<Seq<char>>) -> Seq<Seq<char>>
    decreases ls.len(),
{
    if ls.len() == 0 {
        seen
    } else {
        seen_in(ls.drop_first(), seen_after(seen, ls[0]))
    }
}

/// The commits that a blame names, each once, in the order of their first mention.
pub open spec fn touching_commits(output: Seq<char>) -> Seq<Seq<char>> {
    seen_in(lines(output), Seq::empty())
}

/// The commit that a line names.
fn read_commit(line: &str) -> (r: Option<String>)
    ensures
        opt_text(r) == commit_named(line@),
{
    let chars = chars_of(line);
    proof {
        law_fit_is_longest(line@, 39);
    }
    let long = fit_in(&chars, 39) < chars.len();
    if !long || !hex(chars[0]) {
        return None;
    }
    let parts = words_of(line);
    if parts.len() < 3 {
        return None;
    }
    assert(texts(parts@)[0] == parts@[0]@);
    if !is_valid_object_name(parts[0].as_str()) {
        return None;
    }
    Some(parts[0].clone())
}

/// Whether a line is a line of the blamed file.
fn source_line(line: &str) -> (r: bool)
    ensures
        r == is_source_line(line@),
{
    let chars = chars_of(line);
    chars.len() > 0 && chars[0] == '\t'
}

/// Reads a blame into the commit of each line of the file: index 0 is the first line.
pub fn parse_blame_porcelain(output: &str) -> (r: Vec<String>)
    ensures
        texts(r@) == blamed_lines(output@),
{
    let ls = lines_of(output);
    let mut r: Vec<String> = Vec::new();
    let mut current: String = String::new();
    let mut i: usize = 0;
    let ghost all = lines(output@);
    assert(all.skip(0) == all);
    assert(texts(r@) + blamed(all, current@) == blamed(all, Seq::empty()));
    while i < ls.len()
        invariant
            i <= ls@.len(),
            all == lines(output@),
            texts(ls@) == all,
            texts(r@) + blamed(all.skip(i as int), current@) == blamed(all, Seq::empty()),
        decreases ls@.len() - i,
    {
        let ghost before = texts(r@);
        let ghost rest = all.skip(i + 1);
        let line = ls[i].as_str();
        assert(all[i as int] == line@);
        assert(all.skip(i as int).drop_first() == rest);
        if source_line(line) {
            r.push(current.clone());
            assert(texts(r@) == before.push(current@));
            assert(before.push(current@) + blamed(rest, current@) == before + (seq![current@]
                + blamed(rest, current@)));
        } else {
            match read_commit(line) {
                Some(commit) => {
                    if is_valid_sha(commit.as_str()) {
                        current = commit;
                    }
                },
                None => {},
            }
        }
        i += 1;
    }
    assert(all.skip(i as int) == Seq::<Seq<char>>::empty());
    assert(texts(r@) + Seq::<Seq<char>>::empty() == texts(r@));
    r
}

/// Whether git blames lines that are not committed yet on this.
fn not_committed(commit: &str) -> (r: bool)
    ensures
        r == is_not_committed(commit@),
{
    let chars = chars_of(commit);
    let mut i: usize = 0;
    while i < chars.len()
        invariant
            i <= chars@.len(),
            chars@ == commit@,
            forall|k: int| 0 <= k < i ==> #[trigger] chars@[k] == '0',
        decreases chars@.len() - i,
    {
        if chars[i] != '0' {
            return false;
        }
        i += 1;
    }
    true
}

/// Whether a text is among some strings.
fn is_among(v: &Vec<String>, s: &str) -> (r: bool)
    ensures
        r == texts(v@).contains(s@),
{
    let mut i: usize = 0;
    while i < v.len()
        invariant
            i <= v@.len(),
            forall|k: int| 0 <= k < i ==> #[trigger] texts(v@)[k] != s@,
        decreases v@.len() - i,
    {
        assert(texts(v@)[i as int] == v@[i as int]@);
        if same_text(v[i].as_str(), s) {
            return true;
        }
        i += 1;
    }
    false
}

/// Reads a blame into the commits that touched the file, each once.
pub fn commits_touching(output: &str) -> (r: Vec<String>)
    ensures
        texts(r@) == touching_commits(output@),
{
    let ls = lines_of(output);
    let mut r: Vec<String> = Vec::new();
    let mut i: usize = 0;
    let ghost all = lines(output@);
    assert(all.skip(0) == all);
    assert(texts(r@) == Seq::<Seq<char>>::empty());
    while i < ls.len()
        invariant
            i <= ls@.len(),
            all == lines(output@),
            texts(ls@) == all,
            seen_in(all.skip(i as int), texts(r@)) == touching_commits(output@),
        decreases ls@.len() - i,
    {
        let ghost before = texts(r@);
        let line = ls[i].as_str();
        assert(all[i as int] == line@);
        assert(all.skip(i as int).drop_first() == all.skip(i + 1));
        match read_commit(line) {
            Some(commit) => {
                if !is_among(&r, commit.as_str()) && !not_committed(commit.as_str()) {
                    let ghost sha = commit@;
                    r.push(commit);
                    assert(texts(r@) == before.push(sha));
                }
            },
            None => {},
        }
        i += 1;
    }
    assert(all.skip(i as int) == Seq::<Seq<char>>::empty());
    r
}

} // verus!
