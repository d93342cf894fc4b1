//! Conversions between raw wire bytes and owned text values.

use vstd::prelude::*;
use vstd::string::StrSliceExecFns;
use vstd::utf8::decode_utf8;
use vstd::utf8::encode_utf8;
use vstd::utf8::encode_utf8_decode_utf8;
use vstd::utf8::encode_utf8_valid_utf8;
use vstd::utf8::is_ascii_chars;
use vstd::utf8::is_ascii_chars_encode_utf8;
use vstd::utf8::valid_utf8;

verus! {

/// The characters a byte sequence yields when it is read as UTF-8 text,
/// with invalid input giving the empty string.
pub open spec fn value_chars(bytes: Seq<u8>) -> Seq<char> {
    if valid_utf8(bytes) {
        decode_utf8(bytes)
    } else {
        Seq::<char>::empty()
    }
}

/// What `String::from_utf8_lossy` yields on a given byte sequence.
pub uninterp spec fn lossy_decode(bytes: Seq<u8>) -> Seq<char>;

/// Relies on `String::from_utf8_lossy`: the result depends on the bytes
/// alone, and valid UTF-8 input decodes unchanged.
#[verifier::external_body]
pub fn utf8_lossy(bytes: &[u8]) -> (r: String)
    ensures
        r@ == lossy_decode(bytes@),
        valid_utf8(bytes@) ==> r@ == decode_utf8(bytes@),
{
    String::from_utf8_lossy(bytes).into_owned()
}

/// Relies on `core::str::from_utf8`: it returns `Ok` exactly on valid
/// UTF-8 input, which it decodes; invalid input is replaced here by the
/// empty string.
#[verifier::external_body]
pub fn utf8_or_empty(bytes: &[u8]) -> (r: String)
    ensures
        r@ == value_chars(bytes@),
{
    match core::str::from_utf8(bytes) {
        Ok(s) => s.to_string(),
        Err(_) => String::new(),
    }
}

/// Whether a string is exactly the single character `c`.
pub fn str_is_char(s: &str, c: char) -> (r: bool)
    ensures
        r == (s@ == seq![c]),
{
    let len = s.unicode_len();
    if len == 1 {
        let eq = s.get_char(0) == c;
        proof {
            if eq {
                assert(s@ =~= seq![c]);
            } else {
                assert(s@ != seq![c]);
            }
        }
        eq
    } else {
        proof {
            assert(s@.len() != seq![c].len());
        }
        false
    }
}

/// A sequence of bytes below 128 is valid UTF-8 and decodes to the same
/// values read as characters.
pub proof fn lemma_ascii_bytes_decode(s: Seq<u8>)
    requires
        forall|i: int| 0 <= i < s.len() ==> #[trigger] s[i] < 128,
    ensures
        valid_utf8(s),
        value_chars(s) == s.map_values(|b: u8| b as char),
{
    let chars = s.map_values(|b: u8| b as char);
    assert(is_ascii_chars(chars)) by {
        assert forall|i: int| 0 <= i < chars.len() implies '\0' <= #[trigger] chars[i]
            <= '\u{7f}' by {
            assert(chars[i] == s[i] as char);
            assert(s[i] < 128);
        }
    }
    is_ascii_chars_encode_utf8(chars);
    assert(encode_utf8(chars) =~= s);
    encode_utf8_valid_utf8(chars);
    encode_utf8_decode_utf8(chars);
}

/// The UTF-8 encoding of characters below 128 is those characters read as
/// bytes, and decoding it gives them back.
pub proof fn lemma_ascii_chars_encode(c: Seq<char>)
    requires
        is_ascii_chars(c),
    ensures
        encode_utf8(c) == c.map_values(|ch: char| ch as u8),
        encode_utf8(c).len() == c.len(),
        valid_utf8(encode_utf8(c)),
        value_chars(encode_utf8(c)) == c,
{
    is_ascii_chars_encode_utf8(c);
    assert(encode_utf8(c) =~= c.map_values(|ch: char| ch as u8));
    encode_utf8_valid_utf8(c);
    encode_utf8_decode_utf8(c);
}

} // verus!
