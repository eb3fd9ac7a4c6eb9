//! Commit identifiers.

use crate::bytes::{byte_len, lemma_byte_len_first, width};
use crate::text::chars_of;
use crate::words::{is_white, is_word};
use vstd::prelude::*;

verus! {

/// A hexadecimal digit, in either case.
pub open spec fn is_hex(c: char) -> bool {
    ||| '0' <= c <= '9'
    ||| 'a' <= c <= 'f'
    ||| 'A' <= c <= 'F'
}

/// A full commit identifier: forty hexadecimal digits.
pub open spec fn is_sha(t: Seq<char>) -> bool {
    &&& t.len() == 40
    &&& forall|i: int| 0 <= i < t.len() ==> is_hex(#[trigger] t[i])
}

/// A full object identifier, as git writes it: forty hexadecimal digits, or sixty-four where the
/// repository names its objects by SHA-256.
pub open spec fn is_object_name(t: Seq<char>) -> bool {
    &&& t.len() == 40 || t.len() == 64
    &&& forall|i: int| 0 <= i < t.len() ==> is_hex(#[trigger] t[i])
}

/// Whether a character is a hexadecimal digit.
pub fn hex(c: char) -> (r: bool)
    ensures
        r == is_hex(c),
{
    ('0' <= c && c <= '9') || ('a' <= c && c <= 'f') || ('A' <= c && c <= 'F')
}

/// Whether all characters are hexadecimal digits.
fn all_hex(chars: &Vec<char>) -> (r: bool)
    ensures
        r == forall|i: int| 0 <= i < chars@.len() ==> is_hex(#[trigger] chars@[i]),
{
    let mut i: usize = 0;
    while i < chars.len()
        invariant
            i <= chars@.len(),
            forall|k: int| 0 <= k < i ==> is_hex(#[trigger] chars@[k]),
        decreases chars@.len() - i,
    {
        if !hex(chars[i]) {
            return false;
        }
        i += 1;
    }
    true
}

/// Whether a text is a full commit identifier. Nothing else is ever handed to git in the place
/// of a commit that a user chose by pointing at a line.
pub fn is_valid_sha(s: &str) -> (r: bool)
    ensures
        r == is_sha(s@),
{
    let chars = chars_of(s);
    chars.len() == 40 && all_hex(&chars)
}

/// Whether a text is a full object identifier.
pub fn is_valid_object_name(s: &str) -> (r: bool)
    ensures
        r == is_object_name(s@),
{
    let chars = chars_of(s);
    (chars.len() == 40 || chars.len() == 64) && all_hex(&chars)
}

/// A text of hexadecimal digits takes one byte for each of them.
pub proof fn lemma_hex_byte_len(t: Seq<char>)
    requires
        forall|i: int| 0 <= i < t.len() ==> is_hex(#[trigger] t[i]),
    ensures
        byte_len(t) == t.len(),
    decreases t.len(),
{
    if t.len() > 0 {
        lemma_byte_len_first(t);
        assert(is_hex(t[0]));
        assert(width(t[0]) == 1);
        let rest = t.drop_first();
        assert forall|i: int| 0 <= i < rest.len() implies is_hex(#[trigger] rest[i]) by {
            assert(rest[i] == t[i + 1]);
        }
        lemma_hex_byte_len(rest);
    }
}

/// A commit identifier is a word, and takes forty bytes. It cannot be mistaken for an option
/// of a command.
pub proof fn law_shas_are_plain(t: Seq<char>)
    requires
        is_sha(t),
    ensures
        is_word(t),
        byte_len(t) == 40,
        t[0] != '-',
        !t.contains('\n'),
{
    lemma_hex_byte_len(t);
    assert forall|i: int| 0 <= i < t.len() implies !is_white(#[trigger] t[i]) by {
        assert(is_hex(t[i]));
    }
    assert(is_hex(t[0]));
}

} // verus!
