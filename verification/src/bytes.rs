//! The number of UTF-8 bytes that a text takes, and where a count of bytes falls in it.

use vstd::prelude::*;
use vstd::utf8::*;

verus! {

/// The number of bytes that one character takes in UTF-8.
pub open spec fn width(c: char) -> nat {
    encode_scalar(c as u32).len()
}

/// The number of bytes that a text takes in UTF-8.
pub open spec fn byte_len(t: Seq<char>) -> nat {
    encode_utf8(t).len()
}

/// The number of leading characters of `t` that take exactly `n` bytes, or nothing where
/// the text is shorter than that or byte `n` lies inside a character.
pub open spec fn cut_at(t: Seq<char>, n: nat) -> Option<nat>
    decreases t.len(),
{
    if n == 0 {
        Some(0)
    } else if t.len() == 0 || n < width(t[0]) {
        None
    } else {
        match cut_at(t.drop_first(), (n - width(t[0])) as nat) {
            Some(k) => Some(k + 1),
            None => None,
        }
    }
}

/// The number of leading characters of `t` that fit into `n` bytes, whole characters only.
pub open spec fn fit(t: Seq<char>, n: nat) -> nat
    decreases t.len(),
{
    if t.len() == 0 || n < width(t[0]) {
        0
    } else {
        1 + fit(t.drop_first(), (n - width(t[0])) as nat)
    }
}

pub proof fn lemma_width_positive(c: char)
    ensures
        1 <= width(c) <= 4,
{
}

pub proof fn lemma_byte_len_empty()
    ensures
        byte_len(Seq::empty()) == 0,
{
}

/// A text takes as many bytes as its first character and the rest together.
pub proof fn lemma_byte_len_first(t: Seq<char>)
    requires
        t.len() > 0,
    ensures
        byte_len(t) == width(t[0]) + byte_len(t.drop_first()),
{
}

/// The bytes of two texts in a row add up.
pub proof fn lemma_byte_len_concat(a: Seq<char>, b: Seq<char>)
    ensures
        byte_len(a + b) == byte_len(a) + byte_len(b),
    decreases a.len(),
{
    if a.len() == 0 {
        assert(a + b == b);
    } else {
        assert((a + b).drop_first() == a.drop_first() + b);
        lemma_byte_len_concat(a.drop_first(), b);
        lemma_byte_len_first(a + b);
        lemma_byte_len_first(a);
    }
}

/// `cut_at` finds a prefix exactly where one takes `n` bytes.
pub proof fn lemma_cut_at(t: Seq<char>, n: nat)
    ensures
        cut_at(t, n) matches Some(k) ==> k <= t.len() && byte_len(t.take(k as int)) == n,
        cut_at(t, n) is None ==> forall|k: int|
            0 <= k <= t.len() ==> byte_len(#[trigger] t.take(k)) != n,
    decreases t.len(),
{
    assert(t.take(0) == Seq::<char>::empty());
    lemma_byte_len_empty();
    if n > 0 {
        if t.len() > 0 {
            lemma_width_positive(t[0]);
            assert forall|k: int| 0 < k <= t.len() implies byte_len(#[trigger] t.take(k)) == width(
                t[0],
            ) + byte_len(t.drop_first().take(k - 1)) by {
                assert(t.take(k).drop_first() == t.drop_first().take(k - 1));
                lemma_byte_len_first(t.take(k));
            }
            if n >= width(t[0]) {
                lemma_cut_at(t.drop_first(), (n - width(t[0])) as nat);
            }
        }
    }
}

/// A count of bytes cuts a text between two characters exactly where it is a character
/// boundary of the text's UTF-8 encoding.
pub proof fn law_cuts_are_char_boundaries(t: Seq<char>, n: nat)
    ensures
        cut_at(t, n) is Some <==> is_char_boundary(encode_utf8(t), n as int),
    decreases t.len(),
{
    encode_utf8_valid_utf8(t);
    if n > 0 && t.len() > 0 {
        encode_utf8_first_scalar(t);
        let bytes = encode_utf8(t);
        assert(pop_first_scalar(bytes) == encode_utf8(t.drop_first()));
        lemma_width_positive(t[0]);
        encode_utf8_valid_utf8(t.drop_first());
        if n >= width(t[0]) {
            law_cuts_are_char_boundaries(t.drop_first(), (n - width(t[0])) as nat);
            lemma_cut_at(t, n);
            if cut_at(t, n) is Some {
                let k = cut_at(t, n)->Some_0 as int;
                assert(t == t.take(k) + t.skip(k));
                lemma_byte_len_concat(t.take(k), t.skip(k));
            }
        } else {
            reveal_with_fuel(is_char_boundary, 2);
        }
    }
}

/// What fits is the longest start of the text that takes no more than `n` bytes.
pub proof fn law_fit_is_longest(t: Seq<char>, n: nat)
    ensures
        fit(t, n) <= t.len(),
        byte_len(t.take(fit(t, n) as int)) <= n,
        forall|k: int|
            0 <= k <= t.len() && byte_len(#[trigger] t.take(k)) <= n ==> k <= fit(t, n),
        byte_len(t) <= n <==> fit(t, n) == t.len(),
    decreases t.len(),
{
    assert(t.take(t.len() as int) == t);
    if t.len() == 0 || n < width(t[0]) {
        assert(t.take(0) == Seq::<char>::empty());
        assert forall|k: int| 0 <= k <= t.len() && byte_len(#[trigger] t.take(k)) <= n implies k
            <= 0 by {
            if k > 0 {
                lemma_byte_len_first(t.take(k));
            }
        }
    } else {
        let rest = t.drop_first();
        let m = (n - width(t[0])) as nat;
        law_fit_is_longest(rest, m);
        assert forall|k: int| 0 < k <= t.len() implies byte_len(#[trigger] t.take(k)) == width(t[0])
            + byte_len(rest.take(k - 1)) by {
            assert(t.take(k).drop_first() == rest.take(k - 1));
            lemma_byte_len_first(t.take(k));
        }
        assert forall|k: int| 0 <= k <= t.len() && byte_len(#[trigger] t.take(k)) <= n implies k
            <= fit(t, n) by {
            if k > 0 {
                assert(byte_len(rest.take(k - 1)) <= m);
            }
        }
    }
}

/// The number of bytes that a character takes in UTF-8.
pub fn char_width(c: char) -> (n: usize)
    ensures
        n == width(c),
{
    let v: u32 = c as u32;
    if v <= 0x7f {
        1
    } else if v <= 0x7ff {
        2
    } else if v <= 0xffff {
        3
    } else {
        4
    }
}

/// The number of leading characters that fit into `n` bytes.
pub fn fit_in(chars: &Vec<char>, n: usize) -> (k: usize)
    ensures
        k == fit(chars@, n as nat),
{
    let mut i: usize = 0;
    let mut left: usize = n;
    assert(chars@.skip(0) == chars@);
    while i < chars.len()
        invariant
            i <= chars@.len(),
            fit(chars@, n as nat) == i + fit(chars@.skip(i as int), left as nat),
        decreases chars@.len() - i,
    {
        let w: usize = char_width(chars[i]);
        assert(chars@.skip(i as int).drop_first() == chars@.skip(i + 1));
        if left < w {
            return i;
        }
        left = left - w;
        i += 1;
    }
    i
}

/// A copy of the bytes from `from` up to `to`.
pub(crate) fn copy_range(p: &[u8], from: usize, to: usize) -> (r: Vec<u8>)
    requires
        from <= to <= p@.len(),
    ensures
        r@ == p@.subrange(from as int, to as int),
{
    let mut r: Vec<u8> = Vec::new();
    let mut i: usize = from;
    while i < to
        invariant
            from <= i <= to <= p@.len(),
            r@ == p@.subrange(from as int, i as int),
        decreases to - i,
    {
        r.push(p[i]);
        i += 1;
    }
    r
}

/// The byte that encodes a newline.
pub const NEWLINE: u8 = 10;

/// Texts in a row are encoded one after the other.
pub proof fn lemma_encode_concat(a: Seq<char>, b: Seq<char>)
    ensures
        encode_utf8(a + b) == encode_utf8(a) + encode_utf8(b),
    decreases a.len(),
{
    if a.len() == 0 {
        assert(a + b == b);
        assert(encode_utf8(a) + encode_utf8(b) == encode_utf8(b));
    } else {
        assert((a + b).drop_first() == a.drop_first() + b);
        lemma_encode_concat(a.drop_first(), b);
        let first = encode_scalar(a[0] as u32);
        assert(first + (encode_utf8(a.drop_first()) + encode_utf8(b)) == first + encode_utf8(
            a.drop_first(),
        ) + encode_utf8(b));
    }
}

proof fn lemma_scalar_newline(c: char)
    ensures
        c == '\n' ==> encode_scalar(c as u32) == seq![NEWLINE],
        c != '\n' ==> !encode_scalar(c as u32).contains(NEWLINE),
{
    let v: u32 = c as u32;
    assert((10u32 & 0x7f) as u8 == 10u8) by (bit_vector);
    assert(v <= 0x7f && v != 10 ==> (v & 0x7f) as u8 != 10u8) by (bit_vector);
    let x2: u8 = ((v >> 6) & 0x1F) as u8;
    let x3: u8 = ((v >> 12) & 0x0F) as u8;
    let x4: u8 = ((v >> 18) & 0x7) as u8;
    let y1: u8 = (v & 0x3F) as u8;
    let y2: u8 = ((v >> 6) & 0x3F) as u8;
    let y3: u8 = ((v >> 12) & 0x3F) as u8;
    assert(0xC0u8 | x2 != 10u8) by (bit_vector);
    assert(0xE0u8 | x3 != 10u8) by (bit_vector);
    assert(0xF0u8 | x4 != 10u8) by (bit_vector);
    assert(0x80u8 | y1 != 10u8) by (bit_vector);
    assert(0x80u8 | y2 != 10u8) by (bit_vector);
    assert(0x80u8 | y3 != 10u8) by (bit_vector);
}

/// A text without newlines is encoded without newlines.
pub proof fn lemma_encode_holds_no_newline(t: Seq<char>)
    requires
        !t.contains('\n'),
    ensures
        !encode_utf8(t).contains(NEWLINE),
    decreases t.len(),
{
    if t.len() > 0 {
        let first = encode_scalar(t[0] as u32);
        let rest = t.drop_first();
        assert(t.contains(t[0]));
        lemma_scalar_newline(t[0]);
        assert(!rest.contains('\n')) by {
            if rest.contains('\n') {
                assert(t[rest.index_of('\n') + 1] == '\n');
            }
        }
        lemma_encode_holds_no_newline(rest);
        if encode_utf8(t).contains(NEWLINE) {
            let i = encode_utf8(t).index_of(NEWLINE);
            if i < first.len() {
                assert(first[i] == NEWLINE);
            } else {
                assert(encode_utf8(rest)[i - first.len()] == NEWLINE);
            }
        }
    }
}

/// A newline is encoded as one byte, and no other text is encoded with that byte first.
pub proof fn lemma_encode_first(t: Seq<char>)
    requires
        t.len() > 0,
    ensures
        encode_utf8(t).len() > 0,
        t[0] == '\n' <==> encode_utf8(t)[0] == NEWLINE,
        t[0] == '\n' ==> encode_utf8(t) == seq![NEWLINE] + encode_utf8(t.drop_first()),
{
    let first = encode_scalar(t[0] as u32);
    lemma_width_positive(t[0]);
    lemma_scalar_newline(t[0]);
    assert(encode_utf8(t)[0] == first[0]);
    if t[0] != '\n' {
        assert(first.contains(first[0]));
    }
}

} // verus!
