//! Splitting a text into lines.

use crate::text::{chars_of, string_of, texts};
use vstd::prelude::*;

verus! {

/// The number of items before the first `c`, or of all of them where there is none.
pub open spec fn upto<A>(t: Seq<A>, c: A) -> nat
    decreases t.len(),
{
    if t.len() == 0 || t[0] == c {
        0
    } else {
        1 + upto(t.drop_first(), c)
    }
}

/// A line without the carriage return that stands before its newline.
pub open spec fn chomp(line: Seq<char>) -> Seq<char> {
    if line.len() > 0 && line.last() == '\r' {
        line.drop_last()
    } else {
        line
    }
}

/// The lines of a text. A line ends with a newline or with a carriage return and a newline,
/// neither of which belongs to it; the last line need not end with either.
pub open spec fn lines(t: Seq<char>) -> Seq<Seq<char>>
    decreases t.len(),
{
    if t.len() == 0 {
        Seq::empty()
    } else if upto(t, '\n') >= t.len() {
        seq![t]
    } else {
        seq![chomp(t.take(upto(t, '\n') as int))] + lines(t.skip(upto(t, '\n') as int + 1))
    }
}

/// The first line of a text, or an empty one where there is none.
pub open spec fn first_line(t: Seq<char>) -> Seq<char> {
    if lines(t).len() > 0 {
        lines(t)[0]
    } else {
        Seq::empty()
    }
}

pub proof fn lemma_upto<A>(t: Seq<A>, c: A)
    ensures
        upto(t, c) <= t.len(),
        forall|i: int| 0 <= i < upto(t, c) ==> #[trigger] t[i] != c,
        upto(t, c) < t.len() ==> t[upto(t, c) as int] == c,
    decreases t.len(),
{
    if t.len() > 0 && t[0] != c {
        let rest = t.drop_first();
        lemma_upto(rest, c);
        assert forall|i: int| 0 <= i < upto(t, c) implies #[trigger] t[i] != c by {
            if i > 0 {
                assert(t[i] == rest[i - 1]);
            }
        }
    }
}

pub proof fn lemma_upto_at<A>(t: Seq<A>, c: A, n: int)
    requires
        0 <= n <= t.len(),
        forall|i: int| 0 <= i < n ==> #[trigger] t[i] != c,
        n < t.len() ==> t[n] == c,
    ensures
        upto(t, c) == n,
{
    lemma_upto(t, c);
    if upto(t, c) < n {
        assert(t[upto(t, c) as int] != c);
    } else if n < upto(t, c) {
        assert(t[n] != c);
    }
}

/// A text that starts with a line and its newline has that line first, and the lines of the
/// rest after it.
pub proof fn lemma_lines_cons(line: Seq<char>, rest: Seq<char>)
    requires
        !line.contains('\n'),
    ensures
        upto(line + seq!['\n'] + rest, '\n') == line.len(),
        lines(line + seq!['\n'] + rest) == seq![chomp(line)] + lines(rest),
{
    let t = line + seq!['\n'] + rest;
    assert forall|i: int| 0 <= i < line.len() implies #[trigger] t[i] != '\n' by {
        assert(t[i] == line[i]);
        assert(line.contains(line[i]));
    }
    assert(t[line.len() as int] == '\n');
    lemma_upto_at(t, '\n', line.len() as int);
    assert(t.take(line.len() as int) == line);
    assert(t.skip(line.len() as int + 1) == rest);
}

/// The lines of two texts in a row are those of the first and those of the second, where the
/// first ends with a newline.
pub proof fn lemma_lines_concat(a: Seq<char>, b: Seq<char>)
    requires
        a.len() > 0 ==> a.last() == '\n',
    ensures
        lines(a + b) == lines(a) + lines(b),
    decreases a.len(),
{
    if a.len() == 0 {
        assert(a + b == b);
        assert(lines(a) + lines(b) == lines(b));
    } else {
        lemma_upto(a, '\n');
        let n = upto(a, '\n') as int;
        if n == a.len() {
            assert(a[a.len() - 1] != '\n');
        }
        assert forall|i: int| 0 <= i < n implies #[trigger] (a + b)[i] != '\n' by {
            assert((a + b)[i] == a[i]);
        }
        lemma_upto_at(a + b, '\n', n);
        let rest = a.skip(n + 1);
        assert((a + b).take(n) == a.take(n));
        assert((a + b).skip(n + 1) == rest + b);
        assert(rest.len() > 0 ==> rest.last() == a.last());
        lemma_lines_concat(rest, b);
        assert(seq![chomp(a.take(n))] + (lines(rest) + lines(b)) == seq![chomp(a.take(n))] + lines(
            rest,
        ) + lines(b));
    }
}

/// A text that is not empty and holds no newline is one line.
pub proof fn lemma_lines_single(line: Seq<char>)
    requires
        line.len() > 0,
        !line.contains('\n'),
    ensures
        lines(line) == seq![line],
{
    assert forall|i: int| 0 <= i < line.len() implies #[trigger] line[i] != '\n' by {
        assert(line.contains(line[i]));
    }
    lemma_upto_at(line, '\n', line.len() as int);
}

/// No line of a text contains a newline.
pub proof fn law_lines_hold_no_newline(t: Seq<char>)
    ensures
        forall|i: int| 0 <= i < lines(t).len() ==> !(#[trigger] lines(t)[i]).contains('\n'),
    decreases t.len(),
{
    if t.len() > 0 {
        lemma_upto(t, '\n');
        let n = upto(t, '\n') as int;
        if n < t.len() {
            law_lines_hold_no_newline(t.skip(n + 1));
            assert(lines(t) == seq![chomp(t.take(n))] + lines(t.skip(n + 1)));
            assert forall|i: int| 0 <= i < lines(t).len() implies !(#[trigger] lines(
                t,
            )[i]).contains('\n') by {
                if i > 0 {
                    assert(lines(t)[i] == lines(t.skip(n + 1))[i - 1]);
                } else {
                    assert(forall|k: int|
                        0 <= k < lines(t)[0].len() ==> #[trigger] lines(t)[0][k] == t[k]);
                }
            }
        } else {
            assert(lines(t) == seq![t]);
        }
    }
}

/// Finds the first `c` from character `from` on, or the end where there is none.
pub fn find_char(chars: &Vec<char>, from: usize, c: char) -> (i: usize)
    requires
        from <= chars@.len(),
    ensures
        from <= i <= chars@.len(),
        i - from == upto(chars@.skip(from as int), c),
{
    let ghost t = chars@.skip(from as int);
    let mut i: usize = from;
    while i < chars.len() && chars[i] != c
        invariant
            from <= i <= chars@.len(),
            t == chars@.skip(from as int),
            forall|k: int| 0 <= k < i - from ==> #[trigger] t[k] != c,
        decreases chars@.len() - i,
    {
        assert(t[i - from] == chars@[i as int]);
        i += 1;
    }
    proof {
        assert(i < chars@.len() ==> t[i - from] == chars@[i as int]);
        lemma_upto_at(t, c, i - from);
    }
    i
}

/// The lines of a text.
pub fn lines_of(s: &str) -> (v: Vec<String>)
    ensures
        texts(v@) == lines(s@),
{
    let chars = chars_of(s);
    let mut v: Vec<String> = Vec::new();
    let mut i: usize = 0;
    assert(chars@.skip(0) == s@);
    assert(texts(v@) + lines(s@) == lines(s@));
    while i < chars.len()
        invariant
            i <= chars@.len(),
            chars@ == s@,
            texts(v@) + lines(chars@.skip(i as int)) == lines(s@),
        decreases chars@.len() - i,
    {
        let ghost rest = chars@.skip(i as int);
        let ghost before = texts(v@);
        let end: usize = find_char(&chars, i, '\n');
        if end == chars.len() {
            v.push(string_of(&chars, i, end));
            proof {
                assert(chars@.subrange(i as int, end as int) == rest);
                assert(texts(v@) == before + lines(rest));
                assert(chars@.skip(end as int) == Seq::<char>::empty());
                assert(texts(v@) + Seq::<Seq<char>>::empty() == texts(v@));
            }
            i = end;
        } else {
            let stop: usize = if end > i && chars[end - 1] == '\r' {
                end - 1
            } else {
                end
            };
            v.push(string_of(&chars, i, stop));
            proof {
                let n = end - i;
                assert(rest.take(n) == chars@.subrange(i as int, end as int));
                assert(chars@.subrange(i as int, stop as int) == chomp(rest.take(n)));
                assert(rest.skip(n + 1) == chars@.skip(end + 1));
                assert(texts(v@) == before.push(chomp(rest.take(n))));
                assert(before.push(chomp(rest.take(n))) + lines(rest.skip(n + 1)) == before + (seq![
                    chomp(rest.take(n)),
                ] + lines(rest.skip(n + 1))));
            }
            i = end + 1;
        }
    }
    proof {
        assert(chars@.skip(i as int).len() == 0);
        assert(texts(v@) + Seq::<Seq<char>>::empty() == texts(v@));
    }
    v
}

/// The first line of a text, or an empty one where there is none.
pub fn first_line_of(s: &str) -> (r: String)
    ensures
        r@ == first_line(s@),
{
    let chars = chars_of(s);
    assert(chars@.skip(0) == s@);
    let end: usize = find_char(&chars, 0, '\n');
    if end < chars.len() && end > 0 && chars[end - 1] == '\r' {
        assert(chars@.subrange(0, end - 1) == chomp(s@.take(end as int)));
        string_of(&chars, 0, end - 1)
    } else {
        assert(chars@.subrange(0, end as int) == s@.take(end as int));
        assert(end == s@.len() ==> s@.take(end as int) == s@);
        string_of(&chars, 0, end)
    }
}

} // verus!
