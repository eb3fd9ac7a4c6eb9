//! What lines, words, trimming and sizes are, said of texts that are put together from parts.

use crate::bytes::{byte_len, fit, law_fit_is_longest};
use crate::decimal::{digits_value, is_digit, is_digits, size_in, unsigned_part};
use crate::lines::{chomp, first_line, lemma_lines_cons, lemma_lines_single, lines};
use crate::sha::{is_hex, is_object_name, is_sha};
use crate::words::{
    is_white, is_word, lemma_words_cons, lemma_words_skip_white, trim, trim_end, trim_start, words,
};
use vstd::prelude::*;
use vstd::utf8::encode_utf8;

verus! {

/// Whether a text is white space and nothing else.
pub open spec fn is_blank(t: Seq<char>) -> bool {
    forall|i: int| 0 <= i < t.len() ==> is_white(#[trigger] t[i])
}

/// Whether a text has something at both of its ends that is not white space.
pub open spec fn is_tidy(t: Seq<char>) -> bool {
    t.len() > 0 && !is_white(t[0]) && !is_white(t[t.len() - 1])
}

proof fn lemma_trim_start_blank(a: Seq<char>, t: Seq<char>)
    requires
        is_blank(a),
    ensures
        trim_start(a + t) == trim_start(t),
    decreases a.len(),
{
    if a.len() > 0 {
        assert(is_white(a[0]));
        assert((a + t)[0] == a[0]);
        assert((a + t).drop_first() == a.drop_first() + t);
        assert forall|i: int| 0 <= i < a.drop_first().len() implies is_white(
            #[trigger] a.drop_first()[i],
        ) by {
            assert(is_white(a[i + 1]));
        }
        lemma_trim_start_blank(a.drop_first(), t);
    } else {
        assert(a + t == t);
    }
}

proof fn lemma_trim_end_blank(t: Seq<char>, b: Seq<char>)
    requires
        is_blank(b),
    ensures
        trim_end(t + b) == trim_end(t),
    decreases b.len(),
{
    if b.len() > 0 {
        assert(is_white(b[b.len() - 1]));
        assert((t + b).last() == b.last());
        assert((t + b).drop_last() == t + b.drop_last());
        assert forall|i: int| 0 <= i < b.drop_last().len() implies is_white(
            #[trigger] b.drop_last()[i],
        ) by {
            assert(is_white(b[i]));
        }
        lemma_trim_end_blank(t, b.drop_last());
    } else {
        assert(t + b == t);
    }
}

/// Trimming takes away the white space around a text, and nothing of what stands between it.
pub proof fn law_trimming_keeps_the_middle(a: Seq<char>, t: Seq<char>, b: Seq<char>)
    requires
        is_blank(a),
        is_blank(b),
        is_tidy(t),
    ensures
        trim(a + t + b) == t,
{
    assert(a + t + b == a + (t + b));
    lemma_trim_start_blank(a, t + b);
    assert((t + b)[0] == t[0]);
    assert(trim_start(t + b) == t + b);
    lemma_trim_end_blank(t, b);
}

/// Nothing is left of white space.
pub proof fn law_blank_texts_are_trimmed_away(a: Seq<char>)
    requires
        is_blank(a),
    ensures
        trim(a) == Seq::<char>::empty(),
{
    let none = Seq::<char>::empty();
    assert(a + none == a);
    lemma_trim_start_blank(a, none);
    assert(trim_start(none) == none);
    assert(trim_end(none) == none);
}

/// The words of a text are its parts between white space: a word before white space is the first,
/// and what follows the white space has the others.
pub proof fn law_words_stand_between_white_space(w: Seq<char>, c: char, rest: Seq<char>)
    requires
        w.len() > 0,
        forall|i: int| 0 <= i < w.len() ==> !is_white(#[trigger] w[i]),
        is_white(c),
    ensures
        words(w) == seq![w],
        words(w + seq![c] + rest) == seq![w] + words(rest),
        words(seq![c] + rest) == words(rest),
        words(Seq::empty()) == Seq::<Seq<char>>::empty(),
{
    let none = Seq::<char>::empty();
    assert(is_word(w));
    lemma_words_cons(w, none);
    assert(w + none == w);
    assert(words(none) == Seq::<Seq<char>>::empty());
    assert(seq![w] + words(none) == seq![w]);
    lemma_words_skip_white(c, rest);
    lemma_words_cons(w, seq![c] + rest);
    assert(w + (seq![c] + rest) == w + seq![c] + rest);
}

/// The lines of a text are what stands before its newlines, each without the carriage return right
/// before the newline, and what follows the last newline, if anything does.
pub proof fn law_lines_end_with_newlines(line: Seq<char>, rest: Seq<char>)
    requires
        forall|i: int| 0 <= i < line.len() ==> #[trigger] line[i] != '\n',
    ensures
        lines(line + seq!['\r', '\n'] + rest) == seq![line] + lines(rest),
        line.len() == 0 || line[line.len() - 1] != '\r' ==> lines(line + seq!['\n'] + rest)
            == seq![line] + lines(rest),
        line.len() > 0 ==> lines(line) == seq![line],
        lines(Seq::empty()) == Seq::<Seq<char>>::empty(),
{
    assert(!line.contains('\n'));
    lemma_lines_cons(line, rest);
    let returned = line.push('\r');
    assert(!returned.contains('\n'));
    lemma_lines_cons(returned, rest);
    assert(returned + seq!['\n'] + rest == line + seq!['\r', '\n'] + rest);
    assert(chomp(returned) == line);
    if line.len() > 0 {
        lemma_lines_single(line);
    }
}

/// The first line of a text is all that stands before its first newline, without the carriage
/// return right before it, and all of a text without newlines.
pub proof fn law_first_line_ends_at_the_first_newline(line: Seq<char>, rest: Seq<char>)
    requires
        forall|i: int| 0 <= i < line.len() ==> #[trigger] line[i] != '\n',
    ensures
        first_line(line) == line,
        first_line(line + seq!['\r', '\n'] + rest) == line,
        line.len() == 0 || line[line.len() - 1] != '\r' ==> first_line(line + seq!['\n'] + rest)
            == line,
{
    law_lines_end_with_newlines(line, rest);
    assert((seq![line] + lines(rest))[0] == line);
    if line.len() == 0 {
        assert(line == Seq::<char>::empty());
    }
}

/// A size is read digit by digit, each worth ten times the next, as long as it fits.
pub proof fn law_sizes_are_decimal(t: Seq<char>, c: char)
    requires
        t.len() > 0,
        forall|i: int| 0 <= i < t.len() ==> 48 <= #[trigger] t[i] as int <= 57,
        48 <= c as int <= 57,
    ensures
        size_in(seq![c]) == Some((c as int - 48) as nat),
        size_in(t.push(c)) == match size_in(t) {
            Some(v) => if 10 * v + (c as int - 48) <= usize::MAX {
                Some((10 * v + (c as int - 48)) as nat)
            } else {
                None
            },
            None => None,
        },
        size_in(seq!['+'] + t) == size_in(t),
{
    assert(is_digits(t));
    assert(t[0] != '+');
    let none = Seq::<char>::empty();
    assert(seq![c].drop_last() == none);
    assert(digits_value(none) == 0);
    assert(is_digits(seq![c]));
    assert(t.push(c).drop_last() == t);
    assert(t.push(c)[0] == t[0]);
    assert(is_digits(t.push(c))) by {
        assert forall|i: int| 0 <= i < t.push(c).len() implies is_digit(#[trigger] t.push(c)[i]) by {
            if i < t.len() {
                assert(t.push(c)[i] == t[i]);
            }
        }
    }
    assert((seq!['+'] + t).drop_first() == t);
}

/// A text with anything in it but digits, and a plus sign before them, is no size.
pub proof fn law_other_texts_are_no_sizes(t: Seq<char>, i: int)
    requires
        0 <= i < t.len(),
        !(48 <= t[i] as int <= 57),
        i > 0 || t[0] != '+',
    ensures
        size_in(t) is None,
        size_in(Seq::empty()) is None,
        size_in(seq!['+']) is None,
{
    let digits = unsigned_part(t);
    if t[0] == '+' {
        assert(digits[i - 1] == t[i]);
    } else {
        assert(digits[i] == t[i]);
    }
    assert(!is_digits(digits));
    assert(seq!['+'].drop_first() == Seq::<char>::empty());
}

/// A full commit identifier is forty characters, each a digit or one of the letters up to `f`,
/// small or capital; a full object identifier may have sixty-four.
pub proof fn law_identifiers_are_hexadecimal(t: Seq<char>)
    ensures
        is_sha(t) <==> t.len() == 40 && forall|i: int|
            0 <= i < t.len() ==> (48 <= #[trigger] t[i] as int <= 57 || 65 <= t[i] as int <= 70
                || 97 <= t[i] as int <= 102),
        is_object_name(t) <==> (t.len() == 40 || t.len() == 64) && forall|i: int|
            0 <= i < t.len() ==> (48 <= #[trigger] t[i] as int <= 57 || 65 <= t[i] as int <= 70
                || 97 <= t[i] as int <= 102),
{
    assert forall|c: char| #[trigger] is_hex(c) <==> (48 <= c as int <= 57 || 65 <= c as int <= 70
        || 97 <= c as int <= 102) by {}
    assert(forall|i: int|
        0 <= i < t.len() ==> (is_hex(#[trigger] t[i]) <==> (48 <= t[i] as int <= 57 || 65
            <= t[i] as int <= 70 || 97 <= t[i] as int <= 102)));
}

/// The size of a text is the number of bytes that it is encoded in, and what fits into a number of
/// bytes is the longest start that is encoded in no more.
pub proof fn law_sizes_are_those_of_the_encoding(t: Seq<char>, n: nat, k: int)
    requires
        0 <= k <= t.len(),
    ensures
        byte_len(t) == encode_utf8(t).len(),
        encode_utf8(t.take(fit(t, n) as int)).len() <= n,
        encode_utf8(t.take(k)).len() <= n ==> k <= fit(t, n) <= t.len(),
{
    law_fit_is_longest(t, n);
}

} // verus!
