//! White space: trimming a text and splitting it into words.

use crate::text::{string_of, texts};
use vstd::prelude::*;

verus! {

/// The characters with the Unicode property `White_Space`.
pub open spec fn is_white(c: char) -> bool {
    let v = c as u32;
    ||| 0x9 <= v <= 0xd
    ||| v == 0x20
    ||| v == 0x85
    ||| v == 0xa0
    ||| v == 0x1680
    ||| 0x2000 <= v <= 0x200a
    ||| v == 0x2028
    ||| v == 0x2029
    ||| v == 0x202f
    ||| v == 0x205f
    ||| v == 0x3000
}

/// A text without the white space at its start.
pub open spec fn trim_start(t: Seq<char>) -> Seq<char>
    decreases t.len(),
{
    if t.len() > 0 && is_white(t[0]) {
        trim_start(t.drop_first())
    } else {
        t
    }
}

/// A text without the white space at its end.
pub open spec fn trim_end(t: Seq<char>) -> Seq<char>
    decreases t.len(),
{
    if t.len() > 0 && is_white(t.last()) {
        trim_end(t.drop_last())
    } else {
        t
    }
}

/// A text without the white space at both ends.
pub open spec fn trim(t: Seq<char>) -> Seq<char> {
    trim_end(trim_start(t))
}

/// The number of characters before the first white space.
pub open spec fn word_len(t: Seq<char>) -> nat
    decreases t.len(),
{
    if t.len() == 0 || is_white(t[0]) {
        0
    } else {
        1 + word_len(t.drop_first())
    }
}

/// The longest stretches of a text without white space, in order.
pub open spec fn words(t: Seq<char>) -> Seq<Seq<char>>
    decreases t.len(),
{
    if t.len() == 0 {
        Seq::empty()
    } else if is_white(t[0]) {
        words(t.drop_first())
    } else {
        proof {
            lemma_word_len(t);
        }
        seq![t.take(word_len(t) as int)] + words(t.skip(word_len(t) as int))
    }
}

/// A text that is one word: not empty, and without white space.
pub open spec fn is_word(t: Seq<char>) -> bool {
    &&& t.len() > 0
    &&& forall|i: int| 0 <= i < t.len() ==> !is_white(#[trigger] t[i])
}

/// Whether a character has the Unicode property `White_Space`.
pub fn white(c: char) -> (r: bool)
    ensures
        r == is_white(c),
{
    let v: u32 = c as u32;
    (0x9 <= v && v <= 0xd) || v == 0x20 || v == 0x85 || v == 0xa0 || v == 0x1680 || (0x2000 <= v
        && v <= 0x200a) || v == 0x2028 || v == 0x2029 || v == 0x202f || v == 0x205f || v == 0x3000
}

pub proof fn lemma_word_len(t: Seq<char>)
    ensures
        word_len(t) <= t.len(),
        forall|i: int| 0 <= i < word_len(t) ==> !is_white(#[trigger] t[i]),
        word_len(t) < t.len() ==> is_white(t[word_len(t) as int]),
    decreases t.len(),
{
    if t.len() > 0 && !is_white(t[0]) {
        let rest = t.drop_first();
        lemma_word_len(rest);
        assert forall|i: int| 0 <= i < word_len(t) implies !is_white(#[trigger] t[i]) by {
            if i > 0 {
                assert(t[i] == rest[i - 1]);
            }
        }
    }
}

pub proof fn lemma_word_len_at(t: Seq<char>, n: int)
    requires
        0 <= n <= t.len(),
        forall|i: int| 0 <= i < n ==> !is_white(#[trigger] t[i]),
        n < t.len() ==> is_white(t[n]),
    ensures
        word_len(t) == n,
{
    lemma_word_len(t);
    if word_len(t) < n {
        assert(!is_white(t[word_len(t) as int]));
    } else if n < word_len(t) {
        assert(!is_white(t[n]));
    }
}

/// Every word of a text is a word.
pub proof fn law_words_are_words(t: Seq<char>)
    ensures
        forall|i: int| 0 <= i < words(t).len() ==> is_word(#[trigger] words(t)[i]),
    decreases t.len(),
{
    if t.len() > 0 {
        if is_white(t[0]) {
            law_words_are_words(t.drop_first());
            assert(words(t) == words(t.drop_first()));
        } else {
            lemma_word_len(t);
            let n = word_len(t) as int;
            law_words_are_words(t.skip(n));
            assert forall|i: int| 0 <= i < words(t).len() implies is_word(
                #[trigger] words(t)[i],
            ) by {
                if i > 0 {
                    assert(words(t)[i] == words(t.skip(n))[i - 1]);
                } else {
                    assert(words(t)[0] == t.take(n));
                    assert(!is_white(t[0]));
                }
            }
        }
    }
}

/// A word before a white character is the first word, and the words after it follow.
pub proof fn lemma_words_cons(w: Seq<char>, rest: Seq<char>)
    requires
        is_word(w),
        rest.len() > 0 ==> is_white(rest[0]),
    ensures
        words(w + rest) == seq![w] + words(rest),
{
    let t = w + rest;
    assert forall|i: int| 0 <= i < w.len() implies !is_white(#[trigger] t[i]) by {
        assert(t[i] == w[i]);
    }
    assert(t.len() > w.len() ==> t[w.len() as int] == rest[0]);
    lemma_word_len_at(t, w.len() as int);
    assert(t[0] == w[0]);
    assert(t.take(w.len() as int) == w);
    assert(t.skip(w.len() as int) == rest);
}

/// White space at the start does not change the words of a text.
pub proof fn lemma_words_skip_white(c: char, rest: Seq<char>)
    requires
        is_white(c),
    ensures
        words(seq![c] + rest) == words(rest),
{
    assert((seq![c] + rest).drop_first() == rest);
}

/// A trimmed text neither starts nor ends with white space.
pub proof fn lemma_trimmed(t: Seq<char>)
    ensures
        trim(t).len() > 0 ==> !is_white(trim(t)[0]) && !is_white(trim(t).last()),
        exists|i: int, j: int| 0 <= i <= j <= t.len() && trim(t) == #[trigger] t.subrange(i, j),
{
    let i = lemma_trim_start(t);
    let j = lemma_trim_end(trim_start(t));
    assert(trim(t) == t.subrange(i, i + j));
    if trim(t).len() > 0 {
        assert(trim(t)[0] == trim_start(t)[0]);
    }
}

/// Trimming a trimmed text changes nothing.
pub proof fn lemma_trim_idempotent(t: Seq<char>)
    ensures
        trim(trim(t)) == trim(t),
{
    lemma_trimmed(t);
}

/// A text that starts with a character that is not white has nothing to trim at its start.
pub proof fn lemma_trim_at_end(t: Seq<char>)
    requires
        t.len() > 0,
        !is_white(t[0]),
    ensures
        trim(t) == trim_end(t),
{
}

proof fn lemma_trim_start(t: Seq<char>) -> (i: int)
    ensures
        0 <= i <= t.len(),
        trim_start(t) == t.skip(i),
        i < t.len() ==> !is_white(t[i]),
    decreases t.len(),
{
    if t.len() > 0 && is_white(t[0]) {
        let j = lemma_trim_start(t.drop_first());
        assert(t.drop_first().skip(j) == t.skip(j + 1));
        j + 1
    } else {
        assert(t.skip(0) == t);
        0
    }
}

proof fn lemma_trim_end(t: Seq<char>) -> (j: int)
    ensures
        0 <= j <= t.len(),
        trim_end(t) == t.take(j),
        j > 0 ==> !is_white(t[j - 1]),
    decreases t.len(),
{
    if t.len() > 0 && is_white(t.last()) {
        let j = lemma_trim_end(t.drop_last());
        assert(t.drop_last().take(j) == t.take(j));
        j
    } else {
        assert(t.take(t.len() as int) == t);
        t.len() as int
    }
}

/// The characters from `from` up to `to`, trimmed.
pub fn trimmed_range(chars: &Vec<char>, from: usize, to: usize) -> (s: String)
    requires
        from <= to <= chars@.len(),
    ensures
        s@ == trim(chars@.subrange(from as int, to as int)),
{
    let ghost t = chars@.subrange(from as int, to as int);
    let mut i: usize = from;
    while i < to && white(chars[i])
        invariant
            from <= i <= to <= chars@.len(),
            t == chars@.subrange(from as int, to as int),
            trim_start(t) == trim_start(chars@.subrange(i as int, to as int)),
        decreases to - i,
    {
        assert(chars@.subrange(i as int, to as int).drop_first() == chars@.subrange(
            i + 1,
            to as int,
        ));
        i += 1;
    }
    let mut j: usize = to;
    while i < j && white(chars[j - 1])
        invariant
            from <= i <= j <= to <= chars@.len(),
            t == chars@.subrange(from as int, to as int),
            trim(t) == trim_end(chars@.subrange(i as int, j as int)),
        decreases j - i,
    {
        assert(chars@.subrange(i as int, j as int).drop_last() == chars@.subrange(
            i as int,
            j - 1,
        ));
        j -= 1;
    }
    string_of(chars, i, j)
}

/// A text without the white space at both ends.
pub fn trimmed(s: &str) -> (r: String)
    ensures
        r@ == trim(s@),
{
    let chars = crate::text::chars_of(s);
    assert(chars@.subrange(0, chars@.len() as int) == s@);
    trimmed_range(&chars, 0, chars.len())
}

/// The words among the characters from `from` up to `to`.
pub fn words_in(chars: &Vec<char>, from: usize, to: usize) -> (v: Vec<String>)
    requires
        from <= to <= chars@.len(),
    ensures
        texts(v@) == words(chars@.subrange(from as int, to as int)),
{
    let ghost t = chars@.subrange(from as int, to as int);
    let mut v: Vec<String> = Vec::new();
    let mut i: usize = from;
    assert(texts(v@) + words(t) == words(t));
    while i < to
        invariant
            from <= i <= to <= chars@.len(),
            t == chars@.subrange(from as int, to as int),
            texts(v@) + words(chars@.subrange(i as int, to as int)) == words(t),
        decreases to - i,
    {
        let ghost rest = chars@.subrange(i as int, to as int);
        if white(chars[i]) {
            assert(rest.drop_first() == chars@.subrange(i + 1, to as int));
            i += 1;
        } else {
            let start: usize = i;
            while i < to && !white(chars[i])
                invariant
                    start <= i <= to <= chars@.len(),
                    rest == chars@.subrange(start as int, to as int),
                    forall|k: int| 0 <= k < i - start ==> !is_white(#[trigger] rest[k]),
                decreases to - i,
            {
                assert(rest[i - start] == chars@[i as int]);
                i += 1;
            }
            let ghost n = i - start;
            proof {
                assert(n < rest.len() ==> rest[n] == chars@[i as int]);
                lemma_word_len_at(rest, n);
                assert(rest.take(n) == chars@.subrange(start as int, i as int));
                assert(rest.skip(n) == chars@.subrange(i as int, to as int));
                assert(!is_white(rest[0]));
                assert(n > 0);
            }
            let w = string_of(chars, start, i);
            let ghost before = texts(v@);
            v.push(w);
            proof {
                assert(texts(v@) == before.push(rest.take(n)));
                assert(before.push(rest.take(n)) + words(rest.skip(n)) == before + (seq![
                    rest.take(n),
                ] + words(rest.skip(n))));
            }
        }
    }
    proof {
        assert(chars@.subrange(i as int, to as int).len() == 0);
        assert(texts(v@) + Seq::<Seq<char>>::empty() == texts(v@));
    }
    v
}

/// The words of a text.
pub fn words_of(s: &str) -> (v: Vec<String>)
    ensures
        texts(v@) == words(s@),
{
    let chars = crate::text::chars_of(s);
    assert(chars@.subrange(0, chars@.len() as int) == s@);
    words_in(&chars, 0, chars.len())
}

} // verus!
