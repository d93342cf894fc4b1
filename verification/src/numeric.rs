//! Decimal digit strings: rendering integers to ASCII digits and parsing
//! ASCII digits back, with exact specifications.

use vstd::prelude::*;
use vstd::string::StrSliceExecFns;

use crate::text::lemma_ascii_bytes_decode;
use crate::text::utf8_or_empty;

verus! {

/// Whether `b` is an ASCII decimal digit.
pub open spec fn is_digit_byte(b: u8) -> bool {
    48 <= b <= 57
}

/// Whether every byte of `s` is an ASCII decimal digit.
pub open spec fn all_digits(s: Seq<u8>) -> bool {
    forall|i: int| 0 <= i < s.len() ==> is_digit_byte(#[trigger] s[i])
}

/// The numeric value of a string of ASCII digits, most significant first.
pub open spec fn digits_value(s: Seq<u8>) -> nat
    decreases s.len(),
{
    if s.len() == 0 {
        0
    } else {
        digits_value(s.drop_last()) * 10 + (if s.last() >= 48 {
            (s.last() - 48) as nat
        } else {
            0
        })
    }
}

/// The canonical decimal rendering of `n`: no leading zeros, except that
/// zero itself is rendered as the single digit `0`.
pub open spec fn dec_digits(n: nat) -> Seq<u8>
    decreases n,
{
    if n < 10 {
        seq![(48 + n) as u8]
    } else {
        dec_digits(n / 10).push((48 + n % 10) as u8)
    }
}

/// The decimal rendering as characters instead of bytes.
pub open spec fn dec_chars(n: nat) -> Seq<char> {
    dec_digits(n).map_values(|b: u8| b as char)
}

/// The decimal rendering consists of digits and is never empty.
pub proof fn lemma_dec_digits_wf(n: nat)
    ensures
        dec_digits(n).len() >= 1,
        all_digits(dec_digits(n)),
    decreases n,
{
    if n >= 10 {
        lemma_dec_digits_wf(n / 10);
    }
}

/// Rendering and then reading back a decimal value is the identity.
pub proof fn lemma_dec_digits_value(n: nat)
    ensures
        digits_value(dec_digits(n)) == n,
    decreases n,
{
    if n < 10 {
        let s = dec_digits(n);
        assert(s =~= seq![(48 + n) as u8]);
        assert(s.drop_last() =~= Seq::<u8>::empty());
        assert(s.last() == (48 + n) as u8);
        assert(digits_value(s) == digits_value(s.drop_last()) * 10 + (s.last() - 48));
    } else {
        lemma_dec_digits_value(n / 10);
        let s = dec_digits(n);
        assert(s == dec_digits(n / 10).push((48 + n % 10) as u8));
        assert(s.drop_last() =~= dec_digits(n / 10));
        assert(s.last() == (48 + n % 10) as u8);
        assert(digits_value(s) == digits_value(s.drop_last()) * 10 + (s.last() - 48));
        assert(digits_value(s) == (n / 10) * 10 + n % 10);
        vstd::arithmetic::div_mod::lemma_fundamental_div_mod(n as int, 10);
    }
}

/// The value of a prefix of a digit string never exceeds the whole.
pub proof fn lemma_digits_value_prefix(s: Seq<u8>, i: int)
    requires
        0 <= i <= s.len(),
    ensures
        digits_value(s.take(i)) <= digits_value(s),
    decreases s.len(),
{
    if i < s.len() {
        assert(s.drop_last().take(i) =~= s.take(i));
        lemma_digits_value_prefix(s.drop_last(), i);
        assert(digits_value(s) >= digits_value(s.drop_last()) * 10);
    } else {
        assert(s.take(i) =~= s);
    }
}

/// One step of reading a digit string from the front.
pub proof fn lemma_digits_value_take_step(s: Seq<u8>, i: int)
    requires
        0 <= i < s.len(),
        s[i] >= 48,
    ensures
        digits_value(s.take(i + 1)) == digits_value(s.take(i)) * 10 + (s[i] - 48),
{
    assert(s.take(i + 1).drop_last() =~= s.take(i));
    assert(s.take(i + 1).last() == s[i]);
}

/// Parse a decimal `u32` from a byte slice of ASCII digits.
///
/// Returns `None` if the slice is empty, contains a non-digit byte, or
/// encodes a value that does not fit in `u32`.
pub fn parse_tag_number(bytes: &[u8]) -> (r: Option<u32>)
    ensures
        r is Some <==> bytes@.len() > 0 && all_digits(bytes@) && digits_value(bytes@) <= u32::MAX,
        r is Some ==> r->0 == digits_value(bytes@),
{
    let len = bytes.len();
    if len == 0 {
        return None;
    }
    let mut n: u32 = 0;
    let mut i: usize = 0;
    proof {
        assert(bytes@.take(0) =~= Seq::<u8>::empty());
    }
    while i < len
        invariant
            len == bytes@.len(),
            0 <= i <= len,
            all_digits(bytes@.take(i as int)),
            n == digits_value(bytes@.take(i as int)),
        decreases len - i,
    {
        let b = bytes[i];
        if b < 48 || b > 57 {
            return None;
        }
        let d = (b - 48) as u32;
        proof {
            lemma_digits_value_take_step(bytes@, i as int);
        }
        if n > (u32::MAX - d) / 10 {
            proof {
                lemma_digits_value_prefix(bytes@, i as int + 1);
            }
            return None;
        }
        n = n * 10 + d;
        i = i + 1;
        proof {
            assert(all_digits(bytes@.take(i as int)));
        }
    }
    proof {
        assert(bytes@.take(len as int) =~= bytes@);
    }
    Some(n)
}

/// Parse a decimal `usize` from ASCII digit bytes (used for the declared
/// body length).
pub fn parse_body_length(bytes: &[u8]) -> (r: Option<usize>)
    ensures
        r is Some <==> bytes@.len() > 0 && all_digits(bytes@) && digits_value(bytes@) <= usize::MAX,
        r is Some ==> r->0 == digits_value(bytes@),
{
    let len = bytes.len();
    if len == 0 {
        return None;
    }
    let mut n: usize = 0;
    let mut i: usize = 0;
    proof {
        assert(bytes@.take(0) =~= Seq::<u8>::empty());
    }
    while i < len
        invariant
            len == bytes@.len(),
            0 <= i <= len,
            all_digits(bytes@.take(i as int)),
            n == digits_value(bytes@.take(i as int)),
        decreases len - i,
    {
        let b = bytes[i];
        if b < 48 || b > 57 {
            return None;
        }
        let d = (b - 48) as usize;
        proof {
            lemma_digits_value_take_step(bytes@, i as int);
        }
        if n > (usize::MAX - d) / 10 {
            proof {
                lemma_digits_value_prefix(bytes@, i as int + 1);
            }
            return None;
        }
        n = n * 10 + d;
        i = i + 1;
        proof {
            assert(all_digits(bytes@.take(i as int)));
        }
    }
    proof {
        assert(bytes@.take(len as int) =~= bytes@);
    }
    Some(n)
}

/// Parse a declared checksum value (e.g. `b"127"`) as a `u8`, folding
/// values above 255 modulo 256 as the wire format tolerates.
pub fn parse_checksum_value(bytes: &[u8]) -> (r: Option<u8>)
    ensures
        r is Some <==> bytes@.len() > 0 && all_digits(bytes@) && digits_value(bytes@) <= u16::MAX,
        r is Some ==> r->0 == digits_value(bytes@) % 256,
{
    let len = bytes.len();
    if len == 0 {
        return None;
    }
    let mut n: u16 = 0;
    let mut i: usize = 0;
    proof {
        assert(bytes@.take(0) =~= Seq::<u8>::empty());
    }
    while i < len
        invariant
            len == bytes@.len(),
            0 <= i <= len,
            all_digits(bytes@.take(i as int)),
            n == digits_value(bytes@.take(i as int)),
        decreases len - i,
    {
        let b = bytes[i];
        if b < 48 || b > 57 {
            return None;
        }
        let d = (b - 48) as u16;
        proof {
            lemma_digits_value_take_step(bytes@, i as int);
        }
        if n > (u16::MAX - d) / 10 {
            proof {
                lemma_digits_value_prefix(bytes@, i as int + 1);
            }
            return None;
        }
        n = n * 10 + d;
        i = i + 1;
        proof {
            assert(all_digits(bytes@.take(i as int)));
        }
    }
    proof {
        assert(bytes@.take(len as int) =~= bytes@);
    }
    Some((n % 256) as u8)
}

/// Append the decimal rendering of `n` to `buf`.
pub fn push_dec_u64(buf: &mut Vec<u8>, n: u64)
    ensures
        final(buf)@ == old(buf)@ + dec_digits(n as nat),
{
    let mut tmp: Vec<u8> = Vec::new();
    let mut m: u64 = n;
    loop
        invariant_except_break
            dec_digits(n as nat) == dec_digits(m as nat) + tmp@.reverse(),
        ensures
            dec_digits(n as nat) == tmp@.reverse(),
        decreases m,
    {
        let ghost m0 = m as nat;
        let d = (48 + (m % 10) as u8) as u8;
        let ghost old_tmp = tmp@;
        tmp.push(d);
        m = m / 10;
        proof {
            assert(tmp@.reverse() =~= seq![d] + old_tmp.reverse());
            if m0 >= 10 {
                assert(dec_digits(m0) == dec_digits(m0 / 10).push(d));
                assert(dec_digits(m0 / 10).push(d) + old_tmp.reverse() =~= dec_digits(m0 / 10)
                    + tmp@.reverse());
                assert(m as nat == m0 / 10);
            } else {
                assert(dec_digits(m0) =~= seq![d]);
                assert(dec_digits(m0) + old_tmp.reverse() =~= tmp@.reverse());
            }
        }
        if m == 0 {
            break;
        }
    }
    let mut i: usize = tmp.len();
    let ghost digits = dec_digits(n as nat);
    proof {
        assert(digits =~= tmp@.reverse());
        assert(buf@ + digits.take(0) =~= buf@);
    }
    while i > 0
        invariant
            i <= tmp@.len(),
            digits == tmp@.reverse(),
            digits.len() == tmp@.len(),
            buf@ == old(buf)@ + digits.take(digits.len() - i),
        decreases i,
    {
        i = i - 1;
        let b = tmp[i];
        buf.push(b);
        proof {
            assert(digits[digits.len() - 1 - i] == tmp@[i as int]);
            assert(buf@ =~= old(buf)@ + digits.take(digits.len() - i));
        }
    }
    proof {
        assert(digits.take(digits.len() as int) =~= digits);
    }
}

/// Whether `c` is an ASCII decimal digit.
pub open spec fn char_is_digit(c: char) -> bool {
    48 <= c as int <= 57
}

/// Whether every character of `s` is an ASCII decimal digit.
pub open spec fn all_digit_chars(s: Seq<char>) -> bool {
    forall|i: int| 0 <= i < s.len() ==> char_is_digit(#[trigger] s[i])
}

/// The numeric value of a string of ASCII digit characters.
pub open spec fn char_digits_value(s: Seq<char>) -> nat
    decreases s.len(),
{
    if s.len() == 0 {
        0
    } else {
        char_digits_value(s.drop_last()) * 10 + (if s.last() as int >= 48 {
            (s.last() as int - 48) as nat
        } else {
            0
        })
    }
}

/// The value of a prefix of a digit-character string never exceeds the
/// whole.
pub proof fn lemma_char_digits_value_prefix(s: Seq<char>, i: int)
    requires
        0 <= i <= s.len(),
    ensures
        char_digits_value(s.take(i)) <= char_digits_value(s),
    decreases s.len(),
{
    if i < s.len() {
        assert(s.drop_last().take(i) =~= s.take(i));
        lemma_char_digits_value_prefix(s.drop_last(), i);
        assert(char_digits_value(s) >= char_digits_value(s.drop_last()) * 10);
    } else {
        assert(s.take(i) =~= s);
    }
}

/// One step of reading a digit-character string from the front.
pub proof fn lemma_char_digits_value_take_step(s: Seq<char>, i: int)
    requires
        0 <= i < s.len(),
        s[i] as int >= 48,
    ensures
        char_digits_value(s.take(i + 1)) == char_digits_value(s.take(i)) * 10 + (s[i] as int - 48),
{
    assert(s.take(i + 1).drop_last() =~= s.take(i));
    assert(s.take(i + 1).last() == s[i]);
}

/// How a string parses as a `u64`: an optional leading `+`, then one or
/// more decimal digits whose value fits in the type.
pub open spec fn parse_u64_chars(s: Seq<char>) -> Option<u64> {
    let body = if s.len() > 0 && s[0] == '+' {
        s.skip(1)
    } else {
        s
    };
    if body.len() > 0 && all_digit_chars(body) && char_digits_value(body) <= u64::MAX {
        Some(char_digits_value(body) as u64)
    } else {
        None
    }
}

/// How a string parses as an `i64`: an optional leading `+` or `-`, then
/// one or more decimal digits whose signed value fits in the type.
pub open spec fn parse_i64_chars(s: Seq<char>) -> Option<i64> {
    if s.len() > 0 && s[0] == '-' {
        let body = s.skip(1);
        if body.len() > 0 && all_digit_chars(body) && char_digits_value(body)
            <= 0x8000_0000_0000_0000 {
            Some((0 - char_digits_value(body) as int) as i64)
        } else {
            None
        }
    } else {
        let body = if s.len() > 0 && s[0] == '+' {
            s.skip(1)
        } else {
            s
        };
        if body.len() > 0 && all_digit_chars(body) && char_digits_value(body) <= i64::MAX {
            Some(char_digits_value(body) as i64)
        } else {
            None
        }
    }
}

/// Accumulate the decimal digits of `s` starting at `start`, bounded by
/// `limit`; `None` when a non-digit appears, nothing follows `start`, or
/// the value would exceed `limit`.
fn parse_digits_str(s: &str, start: usize, limit: u64) -> (r: Option<u64>)
    requires
        start <= s@.len(),
        limit >= 9,
    ensures
        ({
            let body = s@.skip(start as int);
            match r {
                Some(v) => body.len() > 0 && all_digit_chars(body) && char_digits_value(body)
                    <= limit && v == char_digits_value(body),
                None => !(body.len() > 0 && all_digit_chars(body) && char_digits_value(body)
                    <= limit),
            }
        }),
{
    let ghost body = s@.skip(start as int);
    let len = s.unicode_len();
    if start >= len {
        return None;
    }
    let mut n: u64 = 0;
    let mut i: usize = start;
    proof {
        assert(body.take(0) =~= Seq::<char>::empty());
    }
    while i < len
        invariant
            len == s@.len(),
            start <= i <= len,
            body == s@.skip(start as int),
            body.len() == len - start,
            limit >= 9,
            all_digit_chars(body.take(i - start)),
            n == char_digits_value(body.take(i - start)),
            n <= limit,
        decreases len - i,
    {
        let c = s.get_char(i);
        let code = c as u32;
        proof {
            assert(body[i - start] == s@[i as int]);
        }
        if code < 48 || code > 57 {
            return None;
        }
        let d = (code - 48) as u64;
        proof {
            lemma_char_digits_value_take_step(body, i - start);
        }
        if n > (limit - d) / 10 {
            proof {
                lemma_char_digits_value_prefix(body, i - start + 1);
            }
            return None;
        }
        n = n * 10 + d;
        i = i + 1;
        proof {
            assert(all_digit_chars(body.take(i - start)));
        }
    }
    proof {
        assert(body.take(len - start) =~= body);
    }
    Some(n)
}

/// Parse a string as Rust's `u64` grammar does: an optional `+` sign and
/// decimal digits, rejecting overflow.
pub fn parse_u64_str(s: &str) -> (r: Option<u64>)
    ensures
        r == parse_u64_chars(s@),
{
    let len = s.unicode_len();
    let start: usize = if len > 0 && s.get_char(0) == '+' {
        1
    } else {
        0
    };
    proof {
        assert(s@.skip(0) =~= s@);
    }
    parse_digits_str(s, start, u64::MAX)
}

/// Parse a string as Rust's `i64` grammar does: an optional sign and
/// decimal digits, rejecting overflow in either direction.
pub fn parse_i64_str(s: &str) -> (r: Option<i64>)
    ensures
        r == parse_i64_chars(s@),
{
    let len = s.unicode_len();
    if len > 0 && s.get_char(0) == '-' {
        match parse_digits_str(s, 1, 0x8000_0000_0000_0000) {
            Some(v) => {
                if v == 0x8000_0000_0000_0000 {
                    Some(i64::MIN)
                } else {
                    Some(-(v as i64))
                }
            },
            None => None,
        }
    } else {
        let start: usize = if len > 0 && s.get_char(0) == '+' {
            1
        } else {
            0
        };
        proof {
            assert(s@.skip(0) =~= s@);
        }
        match parse_digits_str(s, start, i64::MAX as u64) {
            Some(v) => Some(v as i64),
            None => None,
        }
    }
}

/// The three zero-padded decimal digits of a checksum value.
pub open spec fn dec3_digits(n: nat) -> Seq<u8> {
    seq![(48 + (n / 100) % 10) as u8, (48 + (n / 10) % 10) as u8, (48 + n % 10) as u8]
}

/// Reading the three zero-padded digits back gives the value, for values
/// below 1000.
pub proof fn lemma_dec3_value(n: nat)
    requires
        n < 1000,
    ensures
        digits_value(dec3_digits(n)) == n,
        all_digits(dec3_digits(n)),
        dec3_digits(n).len() == 3,
{
    let a = (n / 100) % 10;
    let b = (n / 10) % 10;
    let c = n % 10;
    let s = dec3_digits(n);
    let s1 = seq![(48 + a) as u8];
    let s2 = seq![(48 + a) as u8, (48 + b) as u8];
    assert(s =~= seq![(48 + a) as u8, (48 + b) as u8, (48 + c) as u8]);
    assert(s.drop_last() =~= s2);
    assert(s2.drop_last() =~= s1);
    assert(s1.drop_last() =~= Seq::<u8>::empty());
    assert(digits_value(Seq::<u8>::empty()) == 0);
    assert(0 <= a < 10 && 0 <= b < 10 && 0 <= c < 10);
    assert(s1.last() == (48 + a) as u8);
    assert(digits_value(s1) == a);
    assert(digits_value(s2) == a * 10 + b);
    assert(digits_value(s) == (a * 10 + b) * 10 + c);
    vstd::arithmetic::div_mod::lemma_fundamental_div_mod(n as int, 10);
    vstd::arithmetic::div_mod::lemma_fundamental_div_mod(n as int / 10, 10);
    vstd::arithmetic::div_mod::lemma_div_denominator(n as int, 10, 10);
    assert((n / 100) % 10 == n / 100);
}

/// Append the three zero-padded checksum digits of `n` to `buf`.
pub fn push_dec3(buf: &mut Vec<u8>, n: u8)
    ensures
        final(buf)@ == old(buf)@ + dec3_digits(n as nat),
{
    buf.push(48 + n / 100);
    buf.push(48 + (n / 10) % 10);
    buf.push(48 + n % 10);
    proof {
        assert((n as nat / 100) % 10 == n as nat / 100);
        assert(buf@ =~= old(buf)@ + dec3_digits(n as nat));
    }
}

/// Render `n` in decimal as an owned string.
pub fn u64_to_string(n: u64) -> (r: String)
    ensures
        r@ == dec_chars(n as nat),
{
    let mut buf: Vec<u8> = Vec::new();
    push_dec_u64(&mut buf, n);
    proof {
        lemma_dec_digits_wf(n as nat);
        assert(forall|i: int| 0 <= i < buf@.len() ==> #[trigger] buf@[i] < 128);
        lemma_ascii_bytes_decode(buf@);
        assert(buf@.map_values(|b: u8| b as char) =~= dec_chars(n as nat));
    }
    utf8_or_empty(buf.as_slice())
}

/// The decimal rendering of a signed value as characters.
pub open spec fn dec_chars_i64(v: int) -> Seq<char> {
    if v < 0 {
        seq!['-'] + dec_chars((0 - v) as nat)
    } else {
        dec_chars(v as nat)
    }
}

/// Render a signed value in decimal as an owned string.
pub fn i64_to_string(n: i64) -> (r: String)
    ensures
        r@ == dec_chars_i64(n as int),
{
    if n >= 0 {
        u64_to_string(n as u64)
    } else {
        let m: u64 = if n == i64::MIN {
            9223372036854775808u64
        } else {
            (-n) as u64
        };
        let mut buf: Vec<u8> = Vec::new();
        buf.push(45);
        push_dec_u64(&mut buf, m);
        proof {
            lemma_dec_digits_wf(m as nat);
            assert(forall|i: int| 0 <= i < buf@.len() ==> #[trigger] buf@[i] < 128);
            lemma_ascii_bytes_decode(buf@);
            assert(buf@ =~= seq![45u8] + dec_digits(m as nat));
            assert(buf@.map_values(|b: u8| b as char) =~= seq!['-'] + dec_chars(m as nat));
        }
        utf8_or_empty(buf.as_slice())
    }
}

} // verus!
