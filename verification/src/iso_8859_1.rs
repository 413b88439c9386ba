//! ISO 8859-1 (Latin-1) text: one byte per character, code points 0 to 255.

use vstd::prelude::*;

verus! {

/// Whether `c` has a code point that fits in one byte.
pub open spec fn is_latin_1_char(c: char) -> bool {
    (c as int) < 0x100
}

/// Whether every character of `s` fits in one byte.
pub open spec fn is_latin_1(s: Seq<char>) -> bool {
    forall|i: int| 0 <= i < s.len() ==> is_latin_1_char(#[trigger] s[i])
}

/// The bytes of a Latin-1 string: each character's code point.
pub open spec fn latin_1_bytes(s: Seq<char>) -> Seq<u8> {
    Seq::new(s.len(), |i: int| s[i] as u8)
}

/// The string that Latin-1 bytes stand for: each byte's code point as a character.
pub open spec fn latin_1_chars(b: Seq<u8>) -> Seq<char> {
    Seq::new(b.len(), |i: int| b[i] as char)
}

/// The byte of one character, or `None` when its code point is 256 or more.
pub fn latin_1_byte(c: char) -> (r: Option<u8>)
    ensures
        r == (if is_latin_1_char(c) {
            Some(c as u8)
        } else {
            None
        }),
{
    let code: u32 = c as u32;
    if code >= 0x100 {
        None
    } else {
        Some(code as u8)
    }
}

/// Encodes `s` as Latin-1, or gives `None` when a character does not fit.
pub fn encode_latin_1(s: &str) -> (r: Option<Vec<u8>>)
    ensures
        r is Some <==> is_latin_1(s@),
        r matches Some(bytes) ==> bytes@ == latin_1_bytes(s@),
{
    broadcast use vstd::string::group_string_axioms;

    let mut out: Vec<u8> = Vec::new();
    let chars = s.chars();
    for c in it: chars
        invariant
            it.seq() == s@,
            out@ == latin_1_bytes(s@.take(it.index())),
            is_latin_1(s@.take(it.index())),
    {
        match latin_1_byte(c) {
            None => {
                return None;
            },
            Some(b) => {
                out.push(b);
            },
        }
        assert(s@.take(it.index() + 1) == s@.take(it.index()).push(c));
    }
    assert(s@.take(s@.len() as int) == s@);
    Some(out)
}

/// A character that fits one byte and its byte stand for each other.
pub proof fn lemma_latin_1_char(c: char)
    requires
        is_latin_1_char(c),
    ensures
        (c as u8) as int == c as int,
        (c as u8) as char == c,
{
}

/// Decoding the bytes of a Latin-1 string gives the string back.
pub proof fn lemma_latin_1_round_trip(s: Seq<char>)
    requires
        is_latin_1(s),
    ensures
        latin_1_chars(latin_1_bytes(s)) == s,
{
    assert forall|i: int| 0 <= i < s.len() implies latin_1_chars(latin_1_bytes(s))[i] == s[i] by {
        lemma_latin_1_char(s[i]);
    }
}

} // verus!
