//! The framing laws: encoding round-trips through the decoder, a declared
//! length that disagrees with the body is rejected, and a corrupted
//! checksum digit is detected.

use vstd::prelude::*;
use vstd::utf8::encode_utf8;
use vstd::utf8::is_ascii_chars;

use crate::builder::body_bytes;
use crate::builder::field_seg;
use crate::builder::field_seg_bytes;
use crate::builder::pre_trailer_bytes;
use crate::builder::spec_encode;
use crate::builder::staged_bytes;
use crate::builder::trailer_bytes;
use crate::builder::BuilderModel;
use crate::checksum::checksum_of;
use crate::checksum::lemma_byte_sum_nonneg;
use crate::message::MessageModel;
use crate::numeric::all_digits;
use crate::numeric::dec3_digits;
use crate::numeric::dec_digits;
use crate::numeric::digits_value;
use crate::numeric::is_digit_byte;
use crate::numeric::lemma_dec3_value;
use crate::numeric::lemma_dec_digits_value;
use crate::numeric::lemma_dec_digits_wf;
use crate::parser::body_end_of;
use crate::parser::first_pos;
use crate::parser::spec_collect;
use crate::parser::spec_parse;
use crate::parser::spec_parse_header;
use crate::parser::spec_split_field;
use crate::parser::split_soh;
use crate::parser::ErrorModel;
use crate::parser::EQUALS;
use crate::parser::SOH;
use crate::tag;
use crate::text::lemma_ascii_chars_encode;
use crate::text::value_chars;

verus! {

/// A text value that survives framing: ASCII characters, free of the
/// separator and of `=`.
pub open spec fn clean_value(s: Seq<char>) -> bool {
    is_ascii_chars(s) && (forall|i: int|
        0 <= i < s.len() ==> (#[trigger] s[i]) as int != SOH as int && s[i] as int
            != EQUALS as int)
}

/// A builder whose contents round-trip: version, type and every staged
/// value are clean, and no staged pair claims the message-type tag.
pub open spec fn encodable(b: BuilderModel) -> bool {
    &&& clean_value(b.begin)
    &&& clean_value(b.msg_type)
    &&& (forall|i: int| 0 <= i < b.fields.len() ==> clean_value((#[trigger] b.fields[i]).1))
    &&& (forall|i: int| 0 <= i < b.fields.len() ==> (#[trigger] b.fields[i]).0 != tag::MSG_TYPE)
}

/// The field mapping a staged sequence denotes, folded into `acc`:
/// later pairs overwrite earlier ones.
pub open spec fn staged_map_from(
    fields: Seq<(u32, Seq<char>)>,
    acc: Map<u32, Seq<char>>,
) -> Map<u32, Seq<char>>
    decreases fields.len(),
{
    if fields.len() == 0 {
        acc
    } else {
        staged_map_from(fields.skip(1), acc.insert(fields[0].0, fields[0].1))
    }
}

/// The field mapping a staged sequence denotes.
pub open spec fn staged_map(fields: Seq<(u32, Seq<char>)>) -> Map<u32, Seq<char>> {
    staged_map_from(fields, Map::<u32, Seq<char>>::empty())
}

/// One field's bytes without its trailing separator.
pub open spec fn content_of(t: u32, vb: Seq<u8>) -> Seq<u8> {
    dec_digits(t as nat) + seq![EQUALS] + vb
}

/// The segment each staged pair becomes on the wire.
pub open spec fn staged_contents(fields: Seq<(u32, Seq<char>)>) -> Seq<Seq<u8>> {
    fields.map_values(|p: (u32, Seq<char>)| content_of(p.0, encode_utf8(p.1)))
}

/// The bytes of a clean value: its characters one-for-one, none of them
/// the separator or `=`.
proof fn lemma_clean_bytes(v: Seq<char>)
    requires
        clean_value(v),
    ensures
        encode_utf8(v).len() == v.len(),
        forall|i: int|
            0 <= i < encode_utf8(v).len() ==> (#[trigger] encode_utf8(v)[i]) != SOH && encode_utf8(
                v,
            )[i] != EQUALS,
        value_chars(encode_utf8(v)) == v,
{
    lemma_ascii_chars_encode(v);
    assert forall|i: int| 0 <= i < encode_utf8(v).len() implies (#[trigger] encode_utf8(v)[i])
        != SOH && encode_utf8(v)[i] != EQUALS by {
        assert(encode_utf8(v)[i] == v[i] as u8);
        assert(v[i] as int != SOH as int && v[i] as int != EQUALS as int);
        vstd::utf8::is_ascii_chars_nat_bound(v);
        assert((v[i] as nat) < 128);
    }
}

/// The shape of one wire segment: it is non-empty, free of the
/// separator, and splits at its first `=` into the tag digits and the
/// value bytes.
proof fn lemma_content_split(t: u32, vb: Seq<u8>)
    requires
        forall|i: int| 0 <= i < vb.len() ==> (#[trigger] vb[i]) != SOH && vb[i] != EQUALS,
    ensures
        content_of(t, vb).len() > 0,
        forall|i: int| 0 <= i < content_of(t, vb).len() ==> (#[trigger] content_of(t, vb)[i])
            != SOH,
        spec_split_field(content_of(t, vb)) == Ok::<(u32, Seq<u8>), ErrorModel>((t, vb)),
{
    let dec = dec_digits(t as nat);
    let c = content_of(t, vb);
    lemma_dec_digits_wf(t as nat);
    assert forall|i: int| 0 <= i < c.len() implies (#[trigger] c[i]) != SOH by {
        if i < dec.len() {
            assert(c[i] == dec[i]);
            assert(is_digit_byte(dec[i]));
        } else if i == dec.len() {
            assert(c[i] == EQUALS);
        } else {
            assert(c[i] == vb[i - dec.len() - 1]);
        }
    }
    // The first '=' sits right after the tag digits.
    assert(c =~= dec + seq![EQUALS] + vb);
    lemma_first_pos_concat(dec, vb, EQUALS);
    assert(first_pos(c, EQUALS) == dec.len());
    assert(c.take(dec.len() as int) =~= dec);
    assert(c.skip(dec.len() as int + 1) =~= vb);
    lemma_dec_digits_value(t as nat);
    assert(digits_value(dec) == t as nat);
}

/// If no byte of `c` is `b`, the first `b` of `c + [b] + rest` sits right
/// after `c`.
proof fn lemma_first_pos_concat(c: Seq<u8>, rest: Seq<u8>, b: u8)
    requires
        forall|i: int| 0 <= i < c.len() ==> (#[trigger] c[i]) != b,
    ensures
        first_pos(c + seq![b] + rest, b) == c.len(),
    decreases c.len(),
{
    let s = c + seq![b] + rest;
    if c.len() == 0 {
        assert(s[0] == b);
    } else {
        assert(s[0] == c[0]);
        assert(s.skip(1) =~= c.skip(1) + seq![b] + rest);
        lemma_first_pos_concat(c.skip(1), rest, b);
    }
}

/// Splitting a non-empty separator-free segment followed by a separator
/// peels that one segment off.
proof fn lemma_split_soh_prepend(c: Seq<u8>, rest: Seq<u8>)
    requires
        c.len() > 0,
        forall|i: int| 0 <= i < c.len() ==> (#[trigger] c[i]) != SOH,
    ensures
        split_soh(c + seq![SOH] + rest) == seq![c] + split_soh(rest),
{
    let s = c + seq![SOH] + rest;
    lemma_first_pos_concat(c, rest, SOH);
    let i = first_pos(s, SOH);
    assert(i == c.len());
    assert(i < s.len());
    assert(s.take(i as int) =~= c);
    assert(s.skip(i as int + 1) =~= rest);
}

/// Splitting the staged fields' bytes followed by anything yields their
/// segments followed by the split of the rest.
proof fn lemma_split_staged(fields: Seq<(u32, Seq<char>)>, rest: Seq<u8>)
    requires
        forall|i: int| 0 <= i < fields.len() ==> clean_value((#[trigger] fields[i]).1),
    ensures
        split_soh(staged_bytes(fields) + rest) == staged_contents(fields) + split_soh(rest),
    decreases fields.len(),
{
    if fields.len() == 0 {
        assert(staged_bytes(fields) + rest =~= rest);
        assert(staged_contents(fields) + split_soh(rest) =~= split_soh(rest));
    } else {
        let p = fields[0];
        let c = content_of(p.0, encode_utf8(p.1));
        lemma_clean_bytes(p.1);
        lemma_content_split(p.0, encode_utf8(p.1));
        assert(field_seg(p.0, p.1) =~= c + seq![SOH]);
        assert(staged_bytes(fields) + rest =~= c + seq![SOH] + (staged_bytes(fields.skip(1))
            + rest));
        lemma_split_soh_prepend(c, staged_bytes(fields.skip(1)) + rest);
        lemma_split_staged(fields.skip(1), rest);
        assert(staged_contents(fields) =~= seq![c] + staged_contents(fields.skip(1)));
        assert(seq![c] + (staged_contents(fields.skip(1)) + split_soh(rest)) =~= staged_contents(
            fields,
        ) + split_soh(rest));
    }
}

/// Collecting the staged segments folds them into the accumulator, since
/// none of them carries the message-type tag.
proof fn lemma_collect_staged(
    fields: Seq<(u32, Seq<char>)>,
    mt: Seq<char>,
    fs: Map<u32, Seq<char>>,
)
    requires
        forall|i: int| 0 <= i < fields.len() ==> clean_value((#[trigger] fields[i]).1),
        forall|i: int| 0 <= i < fields.len() ==> (#[trigger] fields[i]).0 != tag::MSG_TYPE,
    ensures
        spec_collect(staged_contents(fields), mt, fs) == Ok::<
            (Seq<char>, Map<u32, Seq<char>>),
            ErrorModel,
        >((mt, staged_map_from(fields, fs))),
    decreases fields.len(),
{
    if fields.len() == 0 {
        assert(staged_contents(fields).len() == 0);
    } else {
        let p = fields[0];
        lemma_clean_bytes(p.1);
        lemma_content_split(p.0, encode_utf8(p.1));
        assert(staged_contents(fields)[0] == content_of(p.0, encode_utf8(p.1)));
        assert(staged_contents(fields).skip(1) =~= staged_contents(fields.skip(1)));
        assert(value_chars(encode_utf8(p.1)) == p.1);
        lemma_collect_staged(fields.skip(1), mt, fs.insert(p.0, p.1));
    }
}

/// The digits of the fixed-width checksum trailer.
pub open spec fn trailer_digits(b: BuilderModel) -> Seq<u8> {
    dec3_digits(checksum_of(pre_trailer_bytes(b)) as nat)
}

/// The segments of the body and header followed by a checksum field
/// holding the given three digits: the version field, the length field,
/// the message-type field, each staged field, and the checksum field.
proof fn lemma_encode_segments(b: BuilderModel, tdigits: Seq<u8>)
    requires
        encodable(b),
        tdigits.len() == 3,
        all_digits(tdigits),
    ensures
        split_soh(pre_trailer_bytes(b) + field_seg_bytes(tag::CHECKSUM, tdigits)) == seq![
            content_of(tag::BEGIN_STRING, encode_utf8(b.begin)),
            content_of(tag::BODY_LENGTH, dec_digits(body_bytes(b).len() as nat)),
            content_of(tag::MSG_TYPE, encode_utf8(b.msg_type)),
        ] + staged_contents(b.fields) + seq![content_of(tag::CHECKSUM, tdigits)],
{
    let c8 = content_of(tag::BEGIN_STRING, encode_utf8(b.begin));
    let c9 = content_of(tag::BODY_LENGTH, dec_digits(body_bytes(b).len() as nat));
    let c35 = content_of(tag::MSG_TYPE, encode_utf8(b.msg_type));
    let c10 = content_of(tag::CHECKSUM, tdigits);
    let trailer = field_seg_bytes(tag::CHECKSUM, tdigits);
    let input = pre_trailer_bytes(b) + trailer;

    lemma_clean_bytes(b.begin);
    lemma_clean_bytes(b.msg_type);
    lemma_content_split(tag::BEGIN_STRING, encode_utf8(b.begin));
    lemma_dec_digits_wf(body_bytes(b).len() as nat);
    assert forall|i: int| 0 <= i < dec_digits(body_bytes(b).len() as nat).len() implies (
    #[trigger] dec_digits(body_bytes(b).len() as nat)[i]) != SOH && dec_digits(
        body_bytes(b).len() as nat,
    )[i] != EQUALS by {
        assert(is_digit_byte(dec_digits(body_bytes(b).len() as nat)[i]));
    }
    lemma_content_split(tag::BODY_LENGTH, dec_digits(body_bytes(b).len() as nat));
    lemma_content_split(tag::MSG_TYPE, encode_utf8(b.msg_type));
    assert forall|i: int| 0 <= i < tdigits.len() implies (#[trigger] tdigits[i]) != SOH
        && tdigits[i] != EQUALS by {
        assert(is_digit_byte(tdigits[i]));
    }
    lemma_content_split(tag::CHECKSUM, tdigits);

    let rest2 = body_bytes(b) + trailer;
    let rest3 = staged_bytes(b.fields) + trailer;
    assert(input =~= c8 + seq![SOH] + (c9 + seq![SOH] + rest2));
    lemma_split_soh_prepend(c8, c9 + seq![SOH] + rest2);
    lemma_split_soh_prepend(c9, rest2);
    assert(rest2 =~= c35 + seq![SOH] + rest3);
    lemma_split_soh_prepend(c35, rest3);
    lemma_split_staged(b.fields, trailer);
    assert(trailer =~= c10 + seq![SOH] + Seq::<u8>::empty());
    lemma_split_soh_prepend(c10, Seq::<u8>::empty());
    assert(split_soh(Seq::<u8>::empty()) =~= Seq::<Seq<u8>>::empty());
    assert(split_soh(trailer) =~= seq![c10]);
    assert(split_soh(input) =~= seq![c8, c9, c35] + staged_contents(b.fields) + seq![c10]);
}

/// The value a three-digit string denotes, digit by digit.
proof fn lemma_digits3_value(s: Seq<u8>)
    requires
        s.len() == 3,
        all_digits(s),
    ensures
        digits_value(s) == (s[0] - 48) * 100 + (s[1] - 48) * 10 + (s[2] - 48),
        digits_value(s) <= 999,
{
    assert(s.drop_last() =~= seq![s[0], s[1]]);
    assert(seq![s[0], s[1]].drop_last() =~= seq![s[0]]);
    assert(seq![s[0]].drop_last() =~= Seq::<u8>::empty());
    assert(digits_value(Seq::<u8>::empty()) == 0);
    assert(digits_value(seq![s[0]]) == s[0] - 48);
    assert(digits_value(seq![s[0], s[1]]) == (s[0] - 48) * 10 + (s[1] - 48));
}

/// What decoding the header, body and staged fields followed by an
/// arbitrary three-digit checksum field yields: the staged message when
/// the digits match the checksum of everything before them, and the
/// checksum error carrying both values when they do not.
proof fn lemma_parse_with_trailer(b: BuilderModel, tdigits: Seq<u8>)
    requires
        encodable(b),
        body_bytes(b).len() <= usize::MAX,
        tdigits.len() == 3,
        all_digits(tdigits),
    ensures
        ({
            let input = pre_trailer_bytes(b) + field_seg_bytes(tag::CHECKSUM, tdigits);
            let chk = checksum_of(pre_trailer_bytes(b));
            if digits_value(tdigits) % 256 == chk {
                spec_parse(input) == Ok::<MessageModel, ErrorModel>(
                    MessageModel {
                        begin: b.begin,
                        msg_type: b.msg_type,
                        fields: staged_map(b.fields),
                    },
                )
            } else {
                spec_parse(input) == Err::<MessageModel, ErrorModel>(
                    ErrorModel::InvalidChecksum {
                        expected: (digits_value(tdigits) % 256) as u8,
                        actual: chk as u8,
                    },
                )
            }
        }),
{
    let input = pre_trailer_bytes(b) + field_seg_bytes(tag::CHECKSUM, tdigits);
    let c8 = content_of(tag::BEGIN_STRING, encode_utf8(b.begin));
    let c9 = content_of(tag::BODY_LENGTH, dec_digits(body_bytes(b).len() as nat));
    let c35 = content_of(tag::MSG_TYPE, encode_utf8(b.msg_type));
    let c10 = content_of(tag::CHECKSUM, tdigits);
    let bodylen = body_bytes(b).len() as nat;
    let pre = pre_trailer_bytes(b);
    let chk = checksum_of(pre);

    lemma_encode_segments(b, tdigits);
    let segs = split_soh(input);
    let k = b.fields.len() as int;
    assert(segs.len() == 4 + k);
    assert(segs[0] == c8);
    assert(segs[1] == c9);
    assert(segs[2] == c35);
    assert(segs[segs.len() - 1] == c10);

    lemma_clean_bytes(b.begin);
    lemma_clean_bytes(b.msg_type);
    lemma_content_split(tag::BEGIN_STRING, encode_utf8(b.begin));
    lemma_dec_digits_wf(bodylen);
    assert forall|i: int| 0 <= i < dec_digits(bodylen).len() implies (#[trigger] dec_digits(
        bodylen,
    )[i]) != SOH && dec_digits(bodylen)[i] != EQUALS by {
        assert(is_digit_byte(dec_digits(bodylen)[i]));
    }
    lemma_content_split(tag::BODY_LENGTH, dec_digits(bodylen));
    lemma_content_split(tag::MSG_TYPE, encode_utf8(b.msg_type));
    assert forall|i: int| 0 <= i < tdigits.len() implies (#[trigger] tdigits[i]) != SOH
        && tdigits[i] != EQUALS by {
        assert(is_digit_byte(tdigits[i]));
    }
    lemma_content_split(tag::CHECKSUM, tdigits);
    lemma_dec_digits_value(bodylen);
    lemma_byte_sum_nonneg(pre);
    lemma_digits3_value(tdigits);

    // Header: the first two segments parse and carry tags 8 and 9.
    assert(input.len() > 0);
    assert(spec_split_field(c8) == Ok::<(u32, Seq<u8>), ErrorModel>((
        tag::BEGIN_STRING,
        encode_utf8(b.begin),
    )));
    assert(spec_split_field(c9) == Ok::<(u32, Seq<u8>), ErrorModel>((
        tag::BODY_LENGTH,
        dec_digits(bodylen),
    )));
    let body_start: int = c8.len() as int + 1 + c9.len() as int + 1;
    assert(spec_parse_header(input) == Ok::<(Seq<u8>, int, int), ErrorModel>((
        encode_utf8(b.begin),
        body_start,
        bodylen as int,
    )));

    // Lengths: the trailer is exactly seven bytes, so the measured body
    // length equals the declared one.
    assert(dec_digits(10) =~= seq![49u8, 48u8]) by {
        assert(dec_digits(10nat) == dec_digits(1nat).push(48u8));
        assert(dec_digits(1nat) =~= seq![49u8]);
    }
    assert(c10.len() == 6);
    assert(field_seg_bytes(tag::CHECKSUM, tdigits).len() == 7);
    assert(input.len() == pre.len() + 7);
    assert(pre.len() == body_start + body_bytes(b).len());
    assert(body_end_of(input) == pre.len());
    assert(body_end_of(input) - body_start == bodylen as int);

    // Checksum: the bytes before the trailer are exactly `pre`, and the
    // trailer segment parses as tag 10 with the given digits.
    assert(input.take(pre.len() as int) =~= pre);
    assert(0 <= chk < 256);
    assert(spec_split_field(c10) == Ok::<(u32, Seq<u8>), ErrorModel>((tag::CHECKSUM, tdigits)));
    assert(digits_value(tdigits) <= u16::MAX);

    if digits_value(tdigits) % 256 == chk {
        // Body fields: the message-type segment sets the type, and the
        // staged segments fold into the staged mapping.
        let body_segs = segs.subrange(2, segs.len() - 1);
        assert(body_segs =~= seq![c35] + staged_contents(b.fields));
        assert(spec_split_field(c35) == Ok::<(u32, Seq<u8>), ErrorModel>((
            tag::MSG_TYPE,
            encode_utf8(b.msg_type),
        )));
        assert(body_segs[0] == c35);
        assert(body_segs.skip(1) =~= staged_contents(b.fields));
        assert(value_chars(encode_utf8(b.msg_type)) == b.msg_type);
        lemma_collect_staged(b.fields, b.msg_type, Map::<u32, Seq<char>>::empty());
        assert(spec_collect(body_segs, Seq::<char>::empty(), Map::<u32, Seq<char>>::empty())
            == Ok::<(Seq<char>, Map<u32, Seq<char>>), ErrorModel>((
            b.msg_type,
            staged_map(b.fields),
        )));
        assert(value_chars(encode_utf8(b.begin)) == b.begin);
    }
}

/// Round-trip law: decoding an encoded message yields exactly the
/// version, message type, and field mapping that were staged, provided
/// every text value is ASCII and free of the separator and `=` bytes,
/// and no staged pair uses the message-type tag.
pub proof fn lemma_round_trip(b: BuilderModel)
    requires
        encodable(b),
        body_bytes(b).len() <= usize::MAX,
    ensures
        spec_parse(spec_encode(b)) == Ok::<MessageModel, ErrorModel>(
            MessageModel { begin: b.begin, msg_type: b.msg_type, fields: staged_map(b.fields) },
        ),
{
    let pre = pre_trailer_bytes(b);
    let chk = checksum_of(pre);
    lemma_byte_sum_nonneg(pre);
    lemma_dec3_value(chk as nat);
    lemma_parse_with_trailer(b, trailer_digits(b));
    assert(spec_encode(b) == pre + field_seg_bytes(tag::CHECKSUM, trailer_digits(b)));
    assert(digits_value(trailer_digits(b)) % 256 == chk);
}

/// Length-integrity law: whenever the framing prefix parses but the
/// measured body length disagrees with the declared one — as any
/// corruption that changes either length brings about — decoding fails
/// with the length-mismatch error.
pub proof fn lemma_length_integrity(
    input: Seq<u8>,
    beginb: Seq<u8>,
    body_start: int,
    declared: int,
)
    requires
        input.len() > 0,
        spec_parse_header(input) == Ok::<(Seq<u8>, int, int), ErrorModel>((
            beginb,
            body_start,
            declared,
        )),
        body_end_of(input) < body_start || body_end_of(input) - body_start != declared,
    ensures
        spec_parse(input) == Err::<MessageModel, ErrorModel>(ErrorModel::MissingBodyLength),
{
}

/// Checksum-integrity law: replacing exactly one digit of the trailing
/// checksum field of an encoded message makes decoding fail with the
/// checksum error, whose `actual` is the checksum computed over the
/// unmodified bytes and whose `expected` is the corrupted declared
/// value.
pub proof fn lemma_checksum_integrity(b: BuilderModel, pos: int, d: u8)
    requires
        encodable(b),
        body_bytes(b).len() <= usize::MAX,
        0 <= pos < 3,
        is_digit_byte(d),
        d != trailer_digits(b)[pos],
    ensures
        ({
            let corrupted = spec_encode(b).update(spec_encode(b).len() - 4 + pos, d);
            spec_parse(corrupted) == Err::<MessageModel, ErrorModel>(
                ErrorModel::InvalidChecksum {
                    expected: (digits_value(trailer_digits(b).update(pos, d)) % 256) as u8,
                    actual: checksum_of(pre_trailer_bytes(b)) as u8,
                },
            )
        }),
{
    let pre = pre_trailer_bytes(b);
    let chk = checksum_of(pre);
    lemma_byte_sum_nonneg(pre);
    lemma_dec3_value(chk as nat);
    let dec3 = trailer_digits(b);
    let dec3x = dec3.update(pos, d);
    let input = spec_encode(b);
    let corrupted = input.update(input.len() - 4 + pos, d);

    assert(all_digits(dec3x)) by {
        assert forall|i: int| 0 <= i < dec3x.len() implies is_digit_byte(#[trigger] dec3x[i]) by {
            if i != pos {
                assert(dec3x[i] == dec3[i]);
            }
        }
    }

    // The corrupted input is the same message with the new digits in the
    // trailer.
    assert(dec_digits(10) =~= seq![49u8, 48u8]) by {
        assert(dec_digits(10nat) == dec_digits(1nat).push(48u8));
        assert(dec_digits(1nat) =~= seq![49u8]);
    }
    assert(input == pre + field_seg_bytes(tag::CHECKSUM, dec3));
    assert(corrupted =~= pre + field_seg_bytes(tag::CHECKSUM, dec3x));

    lemma_parse_with_trailer(b, dec3x);

    // The corrupted digits denote a different residue: a change of
    // delta in one decimal digit shifts the value by delta, 10*delta or
    // 100*delta, none of which is a non-zero multiple of 256 in range.
    lemma_digits3_value(dec3);
    lemma_digits3_value(dec3x);
    let v = digits_value(dec3) as int;
    let vx = digits_value(dec3x) as int;
    assert(v == chk);
    assert(v < 256);
    assert(vx <= 999);
    if vx % 256 == chk {
        vstd::arithmetic::div_mod::lemma_fundamental_div_mod(vx, 256);
        let q = vx / 256;
        assert(0 <= q <= 3);
        assert(vx == 256 * q + v);
        if pos == 0 {
            assert(dec3x[1] == dec3[1] && dec3x[2] == dec3[2] && dec3x[0] == d);
            assert(vx - v == (d - dec3[0]) * 100);
        } else if pos == 1 {
            assert(dec3x[0] == dec3[0] && dec3x[2] == dec3[2] && dec3x[1] == d);
            assert(vx - v == (d - dec3[1]) * 10);
        } else {
            assert(dec3x[0] == dec3[0] && dec3x[1] == dec3[1] && dec3x[2] == d);
            assert(vx - v == d - dec3[2]);
        }
        assert(false);
    }
}

} // verus!
