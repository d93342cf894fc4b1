//! The structured message: a protocol version, a message-type code, and a
//! mapping from field number to string value.
//!
//! The structural framing tags — 8 (BeginString), 9 (BodyLength) and
//! 10 (Checksum) — are never stored in [`FixMessage::fields`]; the parser
//! and builder layers handle them.

use std::collections::HashMap;
use vstd::prelude::*;

use crate::numeric::parse_i64_chars;
use crate::numeric::parse_i64_str;
use crate::numeric::parse_u64_chars;
use crate::numeric::parse_u64_str;

verus! {

broadcast use vstd::std_specs::hash::group_hash_axioms;

/// The mathematical content of a message: the version tag value, the
/// message-type code, and the field mapping.
pub struct MessageModel {
    pub begin: Seq<char>,
    pub msg_type: Seq<char>,
    pub fields: Map<u32, Seq<char>>,
}

/// The field map a `HashMap` of string values represents: the same keys,
/// with each value read as its character sequence.
pub open spec fn fields_view(fields: HashMap<u32, String>) -> Map<u32, Seq<char>> {
    Map::new(|t: u32| fields@.contains_key(t), |t: u32| fields@[t]@)
}

/// A parsed message.
///
/// Tags are stored in a [`HashMap`] for constant-time lookup; iteration
/// order is not meaningful.
#[derive(Debug, Clone, PartialEq, Eq)]
pub struct FixMessage {
    /// Version string from tag 8 (e.g. "FIX.4.4" or "FIXT.1.1").
    pub begin_string: String,
    /// Message type from tag 35 (e.g. "D" for NewOrderSingle).
    pub msg_type: String,
    /// All non-structural tag/value pairs keyed by tag number.
    pub fields: HashMap<u32, String>,
}

impl View for FixMessage {
    type V = MessageModel;

    open spec fn view(&self) -> MessageModel {
        MessageModel {
            begin: self.begin_string@,
            msg_type: self.msg_type@,
            fields: fields_view(self.fields),
        }
    }
}

/// How looking a field up as a `u64` reads the model: the tag must be
/// present and its value must parse.
pub open spec fn spec_get_u64(m: MessageModel, tag: u32) -> Option<u64> {
    if m.fields.contains_key(tag) {
        parse_u64_chars(m.fields[tag])
    } else {
        None
    }
}

/// How looking a field up as an `i64` reads the model.
pub open spec fn spec_get_i64(m: MessageModel, tag: u32) -> Option<i64> {
    if m.fields.contains_key(tag) {
        parse_i64_chars(m.fields[tag])
    } else {
        None
    }
}

impl FixMessage {
    /// Create a new, empty message with the given version and type.
    pub fn new(begin_string: &str, msg_type: &str) -> (r: Self)
        ensures
            r@.begin == begin_string@,
            r@.msg_type == msg_type@,
            r@.fields =~= Map::<u32, Seq<char>>::empty(),
    {
        Self {
            begin_string: begin_string.to_owned(),
            msg_type: msg_type.to_owned(),
            fields: HashMap::new(),
        }
    }

    /// Set (or overwrite) a tag/value field.
    ///
    /// Returns `&mut self` for method chaining.
    pub fn set(&mut self, tag: u32, value: &str) -> (r: &mut Self)
        ensures
            r@.begin == old(self)@.begin,
            r@.msg_type == old(self)@.msg_type,
            r@.fields =~= old(self)@.fields.insert(tag, value@),
            *final(self) == *final(r),
    {
        self.fields.insert(tag, value.to_owned());
        self
    }

    /// Retrieve the string value for a tag, or `None` if absent.
    pub fn get(&self, tag: u32) -> (r: Option<&str>)
        ensures
            match r {
                Some(s) => self@.fields.contains_key(tag) && s@ == self@.fields[tag],
                None => !self@.fields.contains_key(tag),
            },
    {
        match self.fields.get(&tag) {
            Some(v) => Some(v.as_str()),
            None => None,
        }
    }

    /// Parse the value of a tag as an `i64`.
    ///
    /// Returns `None` if the tag is absent or the value cannot be parsed.
    pub fn get_i64(&self, tag: u32) -> (r: Option<i64>)
        ensures
            r == spec_get_i64(self@, tag),
    {
        match self.fields.get(&tag) {
            Some(v) => parse_i64_str(v.as_str()),
            None => None,
        }
    }

    /// Parse the value of a tag as a `u64`.
    ///
    /// Returns `None` if the tag is absent or the value cannot be parsed.
    pub fn get_u64(&self, tag: u32) -> (r: Option<u64>)
        ensures
            r == spec_get_u64(self@, tag),
    {
        match self.fields.get(&tag) {
            Some(v) => parse_u64_str(v.as_str()),
            None => None,
        }
    }
}

} // verus!
