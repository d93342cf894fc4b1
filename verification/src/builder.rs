//! Message builder / serializer.
//!
//! [`FixBuilder`] accumulates tag/value pairs and serializes them to a
//! complete wire-format byte vector, including the auto-computed
//! BodyLength (tag 9) and Checksum (tag 10) fields.

use vstd::prelude::*;
use vstd::utf8::encode_utf8;

use crate::checksum::checksum_of;
use crate::checksum::compute_checksum;
use crate::numeric::dec3_digits;
use crate::numeric::dec_chars;
use crate::numeric::dec_chars_i64;
use crate::numeric::dec_digits;
use crate::numeric::i64_to_string;
use crate::numeric::push_dec3;
use crate::numeric::push_dec_u64;
use crate::numeric::u64_to_string;
use crate::parser::EQUALS;
use crate::parser::SOH;
use crate::tag;

verus! {

/// The mathematical content of a builder: the version, the message type,
/// and the staged tag/value pairs in insertion order.
pub struct BuilderModel {
    pub begin: Seq<char>,
    pub msg_type: Seq<char>,
    pub fields: Seq<(u32, Seq<char>)>,
}

/// One wire field from raw value bytes: tag digits, `=`, the value, and
/// the trailing separator.
pub open spec fn field_seg_bytes(tag: u32, value: Seq<u8>) -> Seq<u8> {
    dec_digits(tag as nat) + seq![EQUALS] + value + seq![SOH]
}

/// One wire field from a character value, encoded as UTF-8.
pub open spec fn field_seg(tag: u32, value: Seq<char>) -> Seq<u8> {
    field_seg_bytes(tag, encode_utf8(value))
}

/// The wire bytes of the staged fields, in order.
pub open spec fn staged_bytes(fields: Seq<(u32, Seq<char>)>) -> Seq<u8>
    decreases fields.len(),
{
    if fields.len() == 0 {
        Seq::<u8>::empty()
    } else {
        field_seg(fields[0].0, fields[0].1) + staged_bytes(fields.skip(1))
    }
}

/// The message body: the message-type field followed by the staged fields.
pub open spec fn body_bytes(b: BuilderModel) -> Seq<u8> {
    field_seg(tag::MSG_TYPE, b.msg_type) + staged_bytes(b.fields)
}

/// Everything before the checksum trailer: version field, declared-length
/// field, and the body.
pub open spec fn pre_trailer_bytes(b: BuilderModel) -> Seq<u8> {
    field_seg(tag::BEGIN_STRING, b.begin) + field_seg_bytes(
        tag::BODY_LENGTH,
        dec_digits(body_bytes(b).len() as nat),
    ) + body_bytes(b)
}

/// The checksum trailer over the preceding bytes.
pub open spec fn trailer_bytes(pre: Seq<u8>) -> Seq<u8> {
    field_seg_bytes(tag::CHECKSUM, dec3_digits(checksum_of(pre) as nat))
}

/// The full wire encoding of a builder's contents.
pub open spec fn spec_encode(b: BuilderModel) -> Seq<u8> {
    pre_trailer_bytes(b) + trailer_bytes(pre_trailer_bytes(b))
}

/// Appending one staged field extends the staged bytes by one field
/// segment.
pub proof fn lemma_staged_bytes_push(fields: Seq<(u32, Seq<char>)>, p: (u32, Seq<char>))
    ensures
        staged_bytes(fields.push(p)) == staged_bytes(fields) + field_seg(p.0, p.1),
    decreases fields.len(),
{
    if fields.len() == 0 {
        assert(fields.push(p)[0] == p);
        assert(fields.push(p).skip(1) =~= Seq::<(u32, Seq<char>)>::empty());
        assert(staged_bytes(Seq::<(u32, Seq<char>)>::empty()) == Seq::<u8>::empty());
        assert(staged_bytes(fields.push(p)) == field_seg(p.0, p.1) + staged_bytes(
            fields.push(p).skip(1),
        ));
        assert(staged_bytes(fields.push(p)) =~= staged_bytes(fields) + field_seg(p.0, p.1));
    } else {
        assert(fields.push(p)[0] == fields[0]);
        assert(fields.push(p).skip(1) =~= fields.skip(1).push(p));
        lemma_staged_bytes_push(fields.skip(1), p);
        assert(field_seg(fields[0].0, fields[0].1) + (staged_bytes(fields.skip(1)) + field_seg(
            p.0,
            p.1,
        )) =~= (field_seg(fields[0].0, fields[0].1) + staged_bytes(fields.skip(1))) + field_seg(
            p.0,
            p.1,
        ));
    }
}

/// Message serializer.
///
/// Fields appear on the wire in the order [`Self::field`] is called.
/// Tag 8 (BeginString), tag 9 (BodyLength), tag 35 (MsgType), and
/// tag 10 (Checksum) are managed automatically.
pub struct FixBuilder {
    begin_string: String,
    msg_type: String,
    /// User-supplied body fields, in insertion order.
    fields: Vec<(u32, String)>,
}

impl View for FixBuilder {
    type V = BuilderModel;

    closed spec fn view(&self) -> BuilderModel {
        BuilderModel {
            begin: self.begin_string@,
            msg_type: self.msg_type@,
            fields: self.fields@.map_values(|p: (u32, String)| (p.0, p.1@)),
        }
    }
}

/// Append `"<tag>=<value><SOH>"` to `buf`.
fn append_field(buf: &mut Vec<u8>, tag: u32, value: &str)
    ensures
        final(buf)@ == old(buf)@ + field_seg(tag, value@),
{
    push_dec_u64(buf, tag as u64);
    buf.push(EQUALS);
    buf.extend_from_slice(value.as_bytes());
    buf.push(SOH);
    proof {
        assert(buf@ =~= old(buf)@ + field_seg(tag, value@));
    }
}

/// Append `"<tag>=<digits><SOH>"` for an unsigned numeric value.
fn append_uint_field(buf: &mut Vec<u8>, tag: u32, value: u64)
    ensures
        final(buf)@ == old(buf)@ + field_seg_bytes(tag, dec_digits(value as nat)),
{
    push_dec_u64(buf, tag as u64);
    buf.push(EQUALS);
    push_dec_u64(buf, value);
    buf.push(SOH);
    proof {
        assert(buf@ =~= old(buf)@ + field_seg_bytes(tag, dec_digits(value as nat)));
    }
}

impl FixBuilder {
    /// Create a new builder for a message of the given version and type.
    pub fn new(begin_string: &str, msg_type: &str) -> (r: Self)
        ensures
            r@.begin == begin_string@,
            r@.msg_type == msg_type@,
            r@.fields =~= Seq::<(u32, Seq<char>)>::empty(),
    {
        let r = Self {
            begin_string: begin_string.to_owned(),
            msg_type: msg_type.to_owned(),
            fields: Vec::new(),
        };
        proof {
            assert(r@.fields =~= Seq::<(u32, Seq<char>)>::empty());
        }
        r
    }

    /// Append a string tag/value pair to the message body.
    ///
    /// Returns `&mut self` for method chaining.
    pub fn field(&mut self, tag: u32, value: &str) -> (r: &mut Self)
        ensures
            r@.begin == old(self)@.begin,
            r@.msg_type == old(self)@.msg_type,
            r@.fields =~= old(self)@.fields.push((tag, value@)),
            *final(self) == *final(r),
    {
        self.fields.push((tag, value.to_owned()));
        proof {
            assert(self@.fields =~= old(self)@.fields.push((tag, value@)));
        }
        self
    }

    /// Append an `i64` value for the given tag.
    ///
    /// Returns `&mut self` for method chaining.
    pub fn field_i64(&mut self, tag: u32, value: i64) -> (r: &mut Self)
        ensures
            r@.begin == old(self)@.begin,
            r@.msg_type == old(self)@.msg_type,
            r@.fields =~= old(self)@.fields.push((tag, dec_chars_i64(value as int))),
            *final(self) == *final(r),
    {
        let s = i64_to_string(value);
        self.fields.push((tag, s));
        proof {
            assert(self@.fields =~= old(self)@.fields.push((tag, dec_chars_i64(value as int))));
        }
        self
    }

    /// Append a `u64` value for the given tag.
    ///
    /// Returns `&mut self` for method chaining.
    pub fn field_u64(&mut self, tag: u32, value: u64) -> (r: &mut Self)
        ensures
            r@.begin == old(self)@.begin,
            r@.msg_type == old(self)@.msg_type,
            r@.fields =~= old(self)@.fields.push((tag, dec_chars(value as nat))),
            *final(self) == *final(r),
    {
        let s = u64_to_string(value);
        self.fields.push((tag, s));
        proof {
            assert(self@.fields =~= old(self)@.fields.push((tag, dec_chars(value as nat))));
        }
        self
    }

    /// Serialize the message to wire format.
    ///
    /// The returned bytes include the leading "8=..." and trailing
    /// "10=..." fields with correctly computed BodyLength and Checksum.
    pub fn build(&self) -> (out: Vec<u8>)
        ensures
            out@ == spec_encode(self@),
    {
        let ghost bm = self@;
        let mut body: Vec<u8> = Vec::new();
        append_field(&mut body, tag::MSG_TYPE, self.msg_type.as_str());
        proof {
            assert(bm.fields.take(0) =~= Seq::<(u32, Seq<char>)>::empty());
            assert(body@ =~= field_seg(tag::MSG_TYPE, bm.msg_type) + staged_bytes(
                bm.fields.take(0),
            ));
        }
        let n = self.fields.len();
        let mut i: usize = 0;
        while i < n
            invariant
                n == self.fields.len(),
                0 <= i <= n,
                bm == self@,
                body@ == field_seg(tag::MSG_TYPE, bm.msg_type) + staged_bytes(
                    bm.fields.take(i as int),
                ),
            decreases n - i,
        {
            let pair = &self.fields[i];
            append_field(&mut body, pair.0, pair.1.as_str());
            proof {
                let ghost j = i as int;
                assert(bm.fields[j] == (self.fields@[j].0, self.fields@[j].1@));
                assert(bm.fields.take(i as int).push(bm.fields[i as int]) =~= bm.fields.take(
                    i as int + 1,
                ));
                lemma_staged_bytes_push(bm.fields.take(i as int), bm.fields[i as int]);
                assert(body@ =~= field_seg(tag::MSG_TYPE, bm.msg_type) + staged_bytes(
                    bm.fields.take(i as int + 1),
                ));
            }
            i = i + 1;
        }
        proof {
            assert(bm.fields.take(n as int) =~= bm.fields);
            assert(body@ == body_bytes(bm));
        }
        let mut out: Vec<u8> = Vec::new();
        append_field(&mut out, tag::BEGIN_STRING, self.begin_string.as_str());
        append_uint_field(&mut out, tag::BODY_LENGTH, body.len() as u64);
        out.extend_from_slice(body.as_slice());
        proof {
            assert(out@ =~= pre_trailer_bytes(bm));
        }
        let chk = compute_checksum(out.as_slice());
        push_dec_u64(&mut out, tag::CHECKSUM as u64);
        out.push(EQUALS);
        push_dec3(&mut out, chk);
        out.push(SOH);
        proof {
            assert(out@ =~= spec_encode(bm));
        }
        out
    }
}

} // verus!
