//! Wire-format parser: decodes a raw byte sequence into a [`FixMessage`],
//! validating the version field, the declared body length, and the
//! checksum trailer.

use std::collections::HashMap;
use vstd::prelude::*;
use vstd::slice::slice_to_vec;
use vstd::string::StringExecFns;

use crate::checksum::checksum_of;
use crate::checksum::compute_checksum;
use crate::message::fields_view;
use crate::message::FixMessage;
use crate::message::MessageModel;
use crate::numeric::all_digits;
use crate::numeric::dec3_digits;
use crate::numeric::digits_value;
use crate::numeric::parse_body_length;
use crate::numeric::parse_checksum_value;
use crate::numeric::parse_tag_number;
use crate::numeric::push_dec3;
use crate::tag;
use crate::text::lemma_ascii_bytes_decode;
use crate::text::lossy_decode;
use crate::text::utf8_lossy;
use crate::text::utf8_or_empty;
use crate::text::value_chars;

verus! {

/// The field delimiter byte (ASCII SOH, 0x01).
pub const SOH: u8 = 0x01;

/// The byte separating a tag number from its value (ASCII `=`).
pub const EQUALS: u8 = 0x3d;

/// The mathematical content of a decode failure.
pub enum ErrorModel {
    EmptyInput,
    MissingBeginString,
    MissingBodyLength,
    MissingChecksum,
    InvalidChecksum { expected: u8, actual: u8 },
    MalformedField(Seq<char>),
    InvalidTag(Seq<char>),
}

/// Errors that can occur while decoding a message.
#[derive(Debug, Clone, PartialEq, Eq)]
pub enum ParseError {
    /// The input slice is empty.
    EmptyInput,
    /// Tag 8 (BeginString) is not the first field.
    MissingBeginString,
    /// Tag 9 (BodyLength) is not the second field, its value does not
    /// parse, or the declared length disagrees with the body.
    MissingBodyLength,
    /// Tag 10 (Checksum) is absent or not the final field.
    MissingChecksum,
    /// The computed checksum does not match the declared value.
    InvalidChecksum {
        /// Checksum declared in the message.
        expected: u8,
        /// Checksum computed over the message bytes.
        actual: u8,
    },
    /// A field does not contain the `=` separator.
    MalformedField(String),
    /// A tag number string cannot be parsed as a `u32`.
    InvalidTag(String),
}

impl View for ParseError {
    type V = ErrorModel;

    open spec fn view(&self) -> ErrorModel {
        match self {
            ParseError::EmptyInput => ErrorModel::EmptyInput,
            ParseError::MissingBeginString => ErrorModel::MissingBeginString,
            ParseError::MissingBodyLength => ErrorModel::MissingBodyLength,
            ParseError::MissingChecksum => ErrorModel::MissingChecksum,
            ParseError::InvalidChecksum { expected, actual } => ErrorModel::InvalidChecksum {
                expected: *expected,
                actual: *actual,
            },
            ParseError::MalformedField(s) => ErrorModel::MalformedField(s@),
            ParseError::InvalidTag(s) => ErrorModel::InvalidTag(s@),
        }
    }
}

/// The three zero-padded checksum digits as characters.
pub open spec fn dec3_chars(n: nat) -> Seq<char> {
    dec3_digits(n).map_values(|b: u8| b as char)
}

/// The textual rendering of a decode failure.
pub open spec fn spec_describe(e: ErrorModel) -> Seq<char> {
    match e {
        ErrorModel::EmptyInput => "empty input"@,
        ErrorModel::MissingBeginString => "missing BeginString (tag 8)"@,
        ErrorModel::MissingBodyLength => "missing BodyLength (tag 9)"@,
        ErrorModel::MissingChecksum => "missing or misplaced Checksum (tag 10)"@,
        ErrorModel::InvalidChecksum { expected, actual } => "invalid checksum: expected "@
            + dec3_chars(expected as nat) + ", actual "@ + dec3_chars(actual as nat),
        ErrorModel::MalformedField(s) => "malformed field: "@ + s,
        ErrorModel::InvalidTag(s) => "invalid tag number: "@ + s,
    }
}

/// Render a checksum value as its three zero-padded digits.
fn pad3_string(n: u8) -> (r: String)
    ensures
        r@ == dec3_chars(n as nat),
{
    let mut buf: Vec<u8> = Vec::new();
    push_dec3(&mut buf, n);
    proof {
        assert(forall|i: int| 0 <= i < buf@.len() ==> #[trigger] buf@[i] < 128);
        lemma_ascii_bytes_decode(buf@);
        assert(buf@.map_values(|b: u8| b as char) =~= dec3_chars(n as nat));
    }
    utf8_or_empty(buf.as_slice())
}

/// The position of the first occurrence of `b` in `s`, or `s.len()` when
/// `b` does not occur.
pub open spec fn first_pos(s: Seq<u8>, b: u8) -> nat
    decreases s.len(),
{
    if s.len() == 0 {
        0
    } else if s[0] == b {
        0
    } else {
        1 + first_pos(s.skip(1), b)
    }
}

/// Peeling one byte other than `b` off the front moves the first
/// occurrence by one.
pub proof fn lemma_first_pos_peel(s: Seq<u8>, pos: int, b: u8)
    requires
        0 <= pos < s.len(),
        s[pos] != b,
    ensures
        first_pos(s.skip(pos), b) == 1 + first_pos(s.skip(pos + 1), b),
{
    assert(s.skip(pos)[0] == s[pos]);
    assert(s.skip(pos).skip(1) =~= s.skip(pos + 1));
}

/// The input split at each separator byte, with empty segments dropped.
pub open spec fn split_soh(s: Seq<u8>) -> Seq<Seq<u8>>
    decreases s.len(),
{
    if s.len() == 0 {
        Seq::<Seq<u8>>::empty()
    } else {
        let i = first_pos(s, SOH);
        let head = s.take(i as int);
        if i < s.len() {
            if head.len() == 0 {
                split_soh(s.skip(i as int + 1))
            } else {
                seq![head] + split_soh(s.skip(i as int + 1))
            }
        } else {
            if head.len() == 0 {
                Seq::<Seq<u8>>::empty()
            } else {
                seq![head]
            }
        }
    }
}

/// One step of splitting: the segment between `pos` and the next
/// separator, then the rest.
pub proof fn lemma_split_soh_step(s: Seq<u8>, pos: int, end: int)
    requires
        0 <= pos <= s.len(),
        pos <= end <= s.len(),
        end - pos == first_pos(s.skip(pos), SOH),
    ensures
        split_soh(s.skip(pos)) == {
            let head = s.subrange(pos, end);
            let rest = if end < s.len() {
                split_soh(s.skip(end + 1))
            } else {
                Seq::<Seq<u8>>::empty()
            };
            if head.len() == 0 {
                rest
            } else {
                seq![head] + rest
            }
        },
{
    let r = s.skip(pos);
    if r.len() == 0 {
        assert(pos == s.len() && end == pos);
        assert(s.subrange(pos, end) =~= Seq::<u8>::empty());
    } else {
        let i = first_pos(r, SOH);
        assert(i == end - pos);
        assert(r.take(i as int) =~= s.subrange(pos, end));
        if i < r.len() {
            assert(end < s.len());
            assert(r.skip(i as int + 1) =~= s.skip(end + 1));
        } else {
            assert(end == s.len());
        }
    }
}

/// How one segment decomposes into a tag number and value bytes, or the
/// error it yields.
pub open spec fn spec_split_field(seg: Seq<u8>) -> Result<(u32, Seq<u8>), ErrorModel> {
    let e = first_pos(seg, EQUALS);
    if e == seg.len() {
        Err(ErrorModel::MalformedField(lossy_decode(seg)))
    } else {
        let tagb = seg.take(e as int);
        let valb = seg.skip(e as int + 1);
        if tagb.len() > 0 && all_digits(tagb) && digits_value(tagb) <= u32::MAX {
            Ok((digits_value(tagb) as u32, valb))
        } else {
            Err(ErrorModel::InvalidTag(lossy_decode(tagb)))
        }
    }
}

/// Collecting the body segments left to right: tag 35 captures the
/// message type (last occurrence wins); every other tag is inserted into
/// the field map, overwriting duplicates.
pub open spec fn spec_collect(
    segs: Seq<Seq<u8>>,
    mt: Seq<char>,
    fs: Map<u32, Seq<char>>,
) -> Result<(Seq<char>, Map<u32, Seq<char>>), ErrorModel>
    decreases segs.len(),
{
    if segs.len() == 0 {
        Ok((mt, fs))
    } else {
        match spec_split_field(segs[0]) {
            Err(e) => Err(e),
            Ok((t, vb)) => if t == tag::MSG_TYPE {
                spec_collect(segs.skip(1), value_chars(vb), fs)
            } else {
                spec_collect(segs.skip(1), mt, fs.insert(t, value_chars(vb)))
            },
        }
    }
}

/// The first two segments: the version field's value bytes, the byte
/// offset at which the body starts, and the declared body length — or
/// the error this stage yields.
pub open spec fn spec_parse_header(input: Seq<u8>) -> Result<(Seq<u8>, int, int), ErrorModel> {
    let segs = split_soh(input);
    if segs.len() == 0 {
        Err(ErrorModel::EmptyInput)
    } else {
        match spec_split_field(segs[0]) {
            Err(e) => Err(e),
            Ok((t0, beginb)) => if t0 != tag::BEGIN_STRING {
                Err(ErrorModel::MissingBeginString)
            } else if segs.len() < 2 {
                Err(ErrorModel::MissingBodyLength)
            } else {
                match spec_split_field(segs[1]) {
                    Err(e) => Err(e),
                    Ok((t1, lenb)) => if t1 != tag::BODY_LENGTH {
                        Err(ErrorModel::MissingBodyLength)
                    } else if !(lenb.len() > 0 && all_digits(lenb) && digits_value(lenb)
                        <= usize::MAX) {
                        Err(ErrorModel::MissingBodyLength)
                    } else {
                        Ok(
                            (
                                beginb,
                                segs[0].len() as int + 1 + segs[1].len() as int + 1,
                                digits_value(lenb) as int,
                            ),
                        )
                    },
                }
            },
        }
    }
}

/// Where the body ends: seven bytes — the fixed-width checksum field —
/// before the end of the input.
pub open spec fn body_end_of(input: Seq<u8>) -> int {
    if input.len() >= 7 {
        input.len() - 7
    } else {
        0
    }
}

/// The whole decode, as a function of the input bytes.
pub open spec fn spec_parse(input: Seq<u8>) -> Result<MessageModel, ErrorModel> {
    if input.len() == 0 {
        Err(ErrorModel::EmptyInput)
    } else {
        match spec_parse_header(input) {
            Err(e) => Err(e),
            Ok((beginb, body_start, declared)) => {
                let body_end = body_end_of(input);
                if body_end < body_start || body_end - body_start != declared {
                    Err(ErrorModel::MissingBodyLength)
                } else {
                    let actual = checksum_of(input.take(body_end));
                    let segs = split_soh(input);
                    match spec_split_field(segs.last()) {
                        Err(_) => Err(ErrorModel::MissingChecksum),
                        Ok((tl, chkb)) => if tl != tag::CHECKSUM {
                            Err(ErrorModel::MissingChecksum)
                        } else if !(chkb.len() > 0 && all_digits(chkb) && digits_value(chkb)
                            <= u16::MAX) {
                            Err(ErrorModel::InvalidChecksum { expected: 0, actual: actual as u8 })
                        } else if digits_value(chkb) % 256 != actual {
                            Err(
                                ErrorModel::InvalidChecksum {
                                    expected: (digits_value(chkb) % 256) as u8,
                                    actual: actual as u8,
                                },
                            )
                        } else {
                            let body_segs = if segs.len() >= 3 {
                                segs.subrange(2, segs.len() - 1)
                            } else {
                                Seq::<Seq<u8>>::empty()
                            };
                            match spec_collect(
                                body_segs,
                                Seq::<char>::empty(),
                                Map::<u32, Seq<char>>::empty(),
                            ) {
                                Err(e) => Err(e),
                                Ok((mt, fs)) => Ok(
                                    MessageModel {
                                        begin: value_chars(beginb),
                                        msg_type: mt,
                                        fields: fs,
                                    },
                                ),
                            }
                        },
                    }
                }
            },
        }
    }
}

/// Whether an executable decode outcome carries exactly the content the
/// model outcome prescribes.
pub open spec fn decode_result_matches(
    r: Result<FixMessage, ParseError>,
    s: Result<MessageModel, ErrorModel>,
) -> bool {
    match r {
        Ok(m) => s is Ok && (match s {
            Ok(mm) => m@ == mm,
            Err(_) => false,
        }),
        Err(e) => s is Err && (match s {
            Ok(_) => false,
            Err(ee) => e@ == ee,
        }),
    }
}

/// Find the first occurrence of `b` in `s` at or after `from`, returning
/// `s.len()` when there is none.
fn find_byte(s: &[u8], from: usize, b: u8) -> (r: usize)
    requires
        from <= s@.len(),
    ensures
        from <= r <= s@.len(),
        r - from == first_pos(s@.skip(from as int), b),
{
    let len = s.len();
    let mut j = from;
    while j < len
        invariant
            from <= j <= len,
            len == s@.len(),
            first_pos(s@.skip(from as int), b) == (j - from) + first_pos(s@.skip(j as int), b),
        decreases len - j,
    {
        if s[j] == b {
            proof {
                assert(s@.skip(j as int)[0] == b);
            }
            return j;
        }
        proof {
            lemma_first_pos_peel(s@, j as int, b);
        }
        j = j + 1;
    }
    proof {
        assert(s@.skip(len as int) =~= Seq::<u8>::empty());
    }
    j
}

/// Split one `tag=value` segment, reporting the two malformed shapes.
pub fn split_field<'a>(field: &'a [u8]) -> (r: Result<(u32, &'a [u8]), ParseError>)
    ensures
        match (r, spec_split_field(field@)) {
            (Ok((t, v)), Ok((ts, vs))) => t == ts && v@ == vs,
            (Err(e), Err(es)) => e@ == es,
            _ => false,
        },
{
    let eq = find_byte(field, 0, EQUALS);
    proof {
        assert(field@.skip(0) =~= field@);
    }
    if eq == field.len() {
        return Err(ParseError::MalformedField(utf8_lossy(field)));
    }
    let tag_bytes = &field[0..eq];
    let value_bytes = &field[eq + 1..field.len()];
    proof {
        assert(tag_bytes@ =~= field@.take(eq as int));
        assert(value_bytes@ =~= field@.skip(eq as int + 1));
    }
    match parse_tag_number(tag_bytes) {
        Some(t) => Ok((t, value_bytes)),
        None => Err(ParseError::InvalidTag(utf8_lossy(tag_bytes))),
    }
}

/// Collect the separator-delimited segments of the input, dropping empty
/// ones.
fn split_segments(input: &[u8]) -> (segs: Vec<Vec<u8>>)
    ensures
        segs@.map_values(|v: Vec<u8>| v@) == split_soh(input@),
{
    let len = input.len();
    let mut segs: Vec<Vec<u8>> = Vec::new();
    let mut pos: usize = 0;
    proof {
        assert(input@.skip(0) =~= input@);
        assert(segs@.map_values(|v: Vec<u8>| v@) =~= Seq::<Seq<u8>>::empty());
    }
    while pos < len
        invariant
            pos <= len,
            len == input@.len(),
            split_soh(input@) == segs@.map_values(|v: Vec<u8>| v@) + split_soh(
                input@.skip(pos as int),
            ),
        decreases len - pos,
    {
        let ghost segs0 = segs@;
        let end = find_byte(input, pos, SOH);
        proof {
            lemma_split_soh_step(input@, pos as int, end as int);
        }
        if end > pos {
            let seg = slice_to_vec(&input[pos..end]);
            proof {
                assert(seg@ =~= input@.subrange(pos as int, end as int));
            }
            segs.push(seg);
            proof {
                assert(segs@.map_values(|v: Vec<u8>| v@) =~= segs0.map_values(|v: Vec<u8>| v@)
                    + seq![input@.subrange(pos as int, end as int)]);
            }
        }
        let next = if end < len {
            end + 1
        } else {
            len
        };
        proof {
            if end == len {
                assert(input@.skip(len as int) =~= Seq::<u8>::empty());
            }
            assert(segs0.map_values(|v: Vec<u8>| v@) + split_soh(input@.skip(pos as int))
                =~= segs@.map_values(|v: Vec<u8>| v@) + split_soh(input@.skip(next as int)));
        }
        pos = next;
    }
    proof {
        assert(input@.skip(len as int) =~= Seq::<u8>::empty());
        assert(segs@.map_values(|v: Vec<u8>| v@) + split_soh(Seq::<u8>::empty()) =~= segs@.map_values(
            |v: Vec<u8>| v@,
        ));
    }
    segs
}

/// Decode a raw wire-format byte sequence into a [`FixMessage`].
///
/// Validates the BeginString, BodyLength, and Checksum framing; all
/// remaining fields are collected into the returned message.
pub fn parse(input: &[u8]) -> (r: Result<FixMessage, ParseError>)
    ensures
        decode_result_matches(r, spec_parse(input@)),
{
    broadcast use vstd::std_specs::hash::group_hash_axioms;

    if input.len() == 0 {
        return Err(ParseError::EmptyInput);
    }
    let segs = split_segments(input);
    let ghost segsv = segs@.map_values(|v: Vec<u8>| v@);
    let nsegs = segs.len();
    if nsegs == 0 {
        return Err(ParseError::EmptyInput);
    }
    // --- Segment 0: must be tag 8 (BeginString) ---
    let begin_bytes = match split_field(segs[0].as_slice()) {
        Ok((t0, vb)) => {
            if t0 != tag::BEGIN_STRING {
                return Err(ParseError::MissingBeginString);
            }
            vb
        },
        Err(e) => {
            return Err(e);
        },
    };
    if nsegs < 2 {
        return Err(ParseError::MissingBodyLength);
    }
    // --- Segment 1: must be tag 9 (BodyLength) ---
    let len_bytes = match split_field(segs[1].as_slice()) {
        Ok((t1, vb)) => {
            if t1 != tag::BODY_LENGTH {
                return Err(ParseError::MissingBodyLength);
            }
            vb
        },
        Err(e) => {
            return Err(e);
        },
    };
    let declared = match parse_body_length(len_bytes) {
        Some(d) => d,
        None => {
            return Err(ParseError::MissingBodyLength);
        },
    };
    // --- Declared length must equal the measured body length ---
    let body_start: u128 = segs[0].len() as u128 + 1 + segs[1].len() as u128 + 1;
    let body_end: usize = if input.len() >= 7 {
        input.len() - 7
    } else {
        0
    };
    if (body_end as u128) < body_start || body_end as u128 - body_start != declared as u128 {
        return Err(ParseError::MissingBodyLength);
    }
    // --- Checksum over all bytes before the fixed-width trailer ---
    let actual = compute_checksum(&input[0..body_end]);
    // --- The final segment must be tag 10 (Checksum) ---
    match split_field(segs[nsegs - 1].as_slice()) {
        Err(_) => {
            return Err(ParseError::MissingChecksum);
        },
        Ok((tl, chkb)) => {
            if tl != tag::CHECKSUM {
                return Err(ParseError::MissingChecksum);
            }
            match parse_checksum_value(chkb) {
                None => {
                    return Err(ParseError::InvalidChecksum { expected: 0, actual });
                },
                Some(declared_chk) => {
                    if declared_chk != actual {
                        return Err(
                            ParseError::InvalidChecksum { expected: declared_chk, actual },
                        );
                    }
                },
            }
        },
    }
    // --- Collect the body fields between the length and the checksum ---
    proof {
        // The final segment carries tag 10 while the second carries tag 9,
        // so they are distinct segments: there are at least three.
        if nsegs < 3 {
            assert(segsv[nsegs - 1] == segsv[1]);
        }
    }
    let ghost body_segs = segsv.subrange(2, segsv.len() - 1);
    proof {
        assert(split_soh(input@) == segsv);
        assert(segsv[0] == segs@[0]@ && segsv[1] == segs@[1]@ && segsv[nsegs - 1] == segs@[nsegs
            - 1]@);
        assert(spec_parse_header(input@) == Ok::<(Seq<u8>, int, int), ErrorModel>((
            begin_bytes@,
            segsv[0].len() as int + 1 + segsv[1].len() as int + 1,
            declared as int,
        )));
        assert(input@.subrange(0, body_end as int) =~= input@.take(body_end as int));
        assert(actual == checksum_of(input@.take(body_end_of(input@))));
        assert(spec_parse(input@) == (match spec_collect(
            body_segs,
            Seq::<char>::empty(),
            Map::<u32, Seq<char>>::empty(),
        ) {
            Err(e) => Err::<MessageModel, ErrorModel>(e),
            Ok((mt, fs)) => Ok(
                MessageModel { begin: value_chars(begin_bytes@), msg_type: mt, fields: fs },
            ),
        }));
    }
    let mut msg_type = String::new();
    let mut fields: HashMap<u32, String> = HashMap::with_capacity(16);
    let mut i: usize = 2;
    proof {
        assert(fields_view(fields) =~= Map::<u32, Seq<char>>::empty());
        assert(body_segs.skip(0) =~= body_segs);
    }
    while i < nsegs - 1
        invariant
            2 <= i <= nsegs - 1,
            3 <= nsegs == segs@.len(),
            segsv == segs@.map_values(|v: Vec<u8>| v@),
            body_segs == segsv.subrange(2, segsv.len() - 1),
            spec_collect(body_segs, Seq::<char>::empty(), Map::<u32, Seq<char>>::empty())
                == spec_collect(body_segs.skip(i - 2), msg_type@, fields_view(fields)),
            spec_parse(input@) == (match spec_collect(
                body_segs,
                Seq::<char>::empty(),
                Map::<u32, Seq<char>>::empty(),
            ) {
                Err(e) => Err::<MessageModel, ErrorModel>(e),
                Ok((mt, fs)) => Ok(
                    MessageModel { begin: value_chars(begin_bytes@), msg_type: mt, fields: fs },
                ),
            }),
        decreases nsegs - i,
    {
        let ghost mt0 = msg_type@;
        let ghost fv0 = fields_view(fields);
        proof {
            assert(body_segs.skip(i - 2)[0] == body_segs[i - 2]);
            assert(body_segs[i - 2] == segsv[i as int]);
            assert(segsv[i as int] == segs@[i as int]@);
        }
        match split_field(segs[i].as_slice()) {
            Err(e) => {
                proof {
                    assert(spec_collect(body_segs.skip(i - 2), mt0, fv0) == Err::<(
                        Seq<char>,
                        Map<u32, Seq<char>>,
                    ), ErrorModel>(e@));
                }
                return Err(e);
            },
            Ok((t, vb)) => {
                let ghost vbv = vb@;
                let val = utf8_or_empty(vb);
                if t == tag::MSG_TYPE {
                    msg_type = val;
                    proof {
                        assert(body_segs.skip(i - 2).skip(1) =~= body_segs.skip(i - 2 + 1));
                        assert(spec_collect(body_segs.skip(i - 2), mt0, fv0) == spec_collect(
                            body_segs.skip(i - 2 + 1),
                            msg_type@,
                            fields_view(fields),
                        ));
                    }
                } else {
                    fields.insert(t, val);
                    proof {
                        assert(fields_view(fields) =~= fv0.insert(t, value_chars(vbv)));
                        assert(body_segs.skip(i - 2).skip(1) =~= body_segs.skip(i - 2 + 1));
                        assert(spec_collect(body_segs.skip(i - 2), mt0, fv0) == spec_collect(
                            body_segs.skip(i - 2 + 1),
                            msg_type@,
                            fields_view(fields),
                        ));
                    }
                }
            },
        }
        i = i + 1;
    }
    proof {
        assert(body_segs.skip(nsegs - 1 - 2) =~= Seq::<Seq<u8>>::empty());
        assert(spec_collect(body_segs, Seq::<char>::empty(), Map::<u32, Seq<char>>::empty())
            == Ok::<(Seq<char>, Map<u32, Seq<char>>), ErrorModel>((
            msg_type@,
            fields_view(fields),
        )));
    }
    let begin_string = utf8_or_empty(begin_bytes);
    let r = FixMessage { begin_string, msg_type, fields };
    proof {
        assert(r@ == (match spec_parse(input@) {
            Ok(mm) => mm,
            Err(_) => r@,
        }));
    }
    Ok(r)
}

impl ParseError {
    /// A human-readable description of the failure.
    pub fn describe(&self) -> (r: String)
        ensures
            r@ == spec_describe(self@),
    {
        match self {
            ParseError::EmptyInput => "empty input".to_owned(),
            ParseError::MissingBeginString => "missing BeginString (tag 8)".to_owned(),
            ParseError::MissingBodyLength => "missing BodyLength (tag 9)".to_owned(),
            ParseError::MissingChecksum => "missing or misplaced Checksum (tag 10)".to_owned(),
            ParseError::InvalidChecksum { expected, actual } => {
                let mut out = "invalid checksum: expected ".to_owned();
                out.append(pad3_string(*expected).as_str());
                out.append(", actual ");
                out.append(pad3_string(*actual).as_str());
                out
            },
            ParseError::MalformedField(s) => {
                let mut out = "malformed field: ".to_owned();
                out.append(s.as_str());
                out
            },
            ParseError::InvalidTag(s) => {
                let mut out = "invalid tag number: ".to_owned();
                out.append(s.as_str());
                out
            },
        }
    }
}

} // verus!
