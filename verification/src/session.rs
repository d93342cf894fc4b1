//! Session state machine: monotonic outbound numbering, strict inbound
//! gap detection, and construction of the administrative messages that
//! drive the handshake.
//!
//! ## Session states
//!
//! ```text
//! Disconnected -> (send Logon) -> LogonSent -> (counterparty Logon) -> Active
//! Active -> (send Logout) -> LogoutSent -> (counterparty Logout) -> Disconnected
//! ```
//!
//! Only local outbound build calls move the state; no inbound-driven
//! transition exists in this design.

use vstd::prelude::*;

use crate::builder::spec_encode;
use crate::builder::BuilderModel;
use crate::builder::FixBuilder;
use crate::convert::ord_type_code;
use crate::convert::side_code;
use crate::convert::tif_code;
use crate::convert::Order;
use crate::convert::alice_ord_type_to_fix;
use crate::convert::alice_side_to_fix;
use crate::convert::alice_tif_to_fix;
use crate::numeric::dec_chars;
use crate::numeric::dec_chars_i64;
use crate::tag;

verus! {

/// Operational state of a session.
#[derive(Debug, Clone, Copy, PartialEq, Eq)]
pub enum SessionState {
    /// No connection established; no messages exchanged.
    Disconnected,
    /// Logon has been sent; waiting for the counterparty's Logon.
    LogonSent,
    /// Session is fully established and messages may be exchanged.
    Active,
    /// Logout has been sent; waiting for the counterparty's Logout.
    LogoutSent,
}

/// The mathematical content of a session: its identity strings, the two
/// sequence counters, and the handshake state.
pub struct SessionModel {
    pub sender: Seq<char>,
    pub target: Seq<char>,
    pub begin: Seq<char>,
    pub outgoing: u64,
    pub incoming: u64,
    pub state: SessionState,
}

/// The builder contents of an administrative message: standard header
/// fields and nothing else.
pub open spec fn admin_model(s: SessionModel, msg_type: Seq<char>, seqno: u64) -> BuilderModel {
    BuilderModel {
        begin: s.begin,
        msg_type: msg_type,
        fields: seq![
            (tag::SENDER_COMP_ID, s.sender),
            (tag::TARGET_COMP_ID, s.target),
            (tag::MSG_SEQ_NUM, dec_chars(seqno as nat)),
        ],
    }
}

/// The builder contents of a new-order message built from a domain order
/// record and an instrument symbol.
pub open spec fn new_order_model(
    s: SessionModel,
    seqno: u64,
    order: Order,
    symbol: Seq<char>,
) -> BuilderModel {
    BuilderModel {
        begin: s.begin,
        msg_type: "D"@,
        fields: seq![
            (tag::SENDER_COMP_ID, s.sender),
            (tag::TARGET_COMP_ID, s.target),
            (tag::MSG_SEQ_NUM, dec_chars(seqno as nat)),
            (tag::CL_ORD_ID, dec_chars(order.id.0 as nat)),
            (tag::SYMBOL, symbol),
            (tag::SIDE, side_code(order.side)),
            (tag::ORD_TYPE, ord_type_code(order.order_type)),
            (tag::PRICE, dec_chars_i64(order.price as int)),
            (tag::ORDER_QTY, dec_chars(order.quantity as nat)),
            (tag::TIME_IN_FORCE, tif_code(order.time_in_force)),
        ],
    }
}

/// Session context tracking sequence numbers and administrative state.
pub struct FixSession {
    sender_comp_id: String,
    target_comp_id: String,
    begin_string: String,
    /// Next sequence number to assign to an outgoing message.
    outgoing_seq: u64,
    /// Next sequence number expected from the counterparty.
    incoming_seq: u64,
    state: SessionState,
}

impl View for FixSession {
    type V = SessionModel;

    closed spec fn view(&self) -> SessionModel {
        SessionModel {
            sender: self.sender_comp_id@,
            target: self.target_comp_id@,
            begin: self.begin_string@,
            outgoing: self.outgoing_seq,
            incoming: self.incoming_seq,
            state: self.state,
        }
    }
}

impl FixSession {
    /// Create a new session in the [`SessionState::Disconnected`] state.
    ///
    /// Both sequence counters start at 1.
    pub fn new(sender: &str, target: &str, begin_string: &str) -> (r: Self)
        ensures
            r@ == (SessionModel {
                sender: sender@,
                target: target@,
                begin: begin_string@,
                outgoing: 1,
                incoming: 1,
                state: SessionState::Disconnected,
            }),
    {
        Self {
            sender_comp_id: sender.to_owned(),
            target_comp_id: target.to_owned(),
            begin_string: begin_string.to_owned(),
            outgoing_seq: 1,
            incoming_seq: 1,
            state: SessionState::Disconnected,
        }
    }

    /// Return the current session state.
    pub fn state(&self) -> (r: &SessionState)
        ensures
            *r == self@.state,
    {
        &self.state
    }

    /// Consume and return the next outgoing sequence number.
    ///
    /// The counter starts at 1; the first call returns 1.
    pub fn next_outgoing_seq(&mut self) -> (r: u64)
        requires
            old(self)@.outgoing < u64::MAX,
        ensures
            r == old(self)@.outgoing,
            final(self)@ == (SessionModel { outgoing: (old(self)@.outgoing + 1) as u64, ..old(
                self,
            )@ }),
    {
        let seq = self.outgoing_seq;
        self.outgoing_seq = self.outgoing_seq + 1;
        seq
    }

    /// Validate that an incoming message has the expected sequence number.
    ///
    /// Returns `true` and advances the expected counter exactly when the
    /// presented number matches; on a mismatch the counter is left
    /// unchanged and `false` reports the gap to the caller, who owns
    /// recovery policy.
    pub fn validate_incoming_seq(&mut self, seq: u64) -> (ok: bool)
        requires
            seq == old(self)@.incoming ==> old(self)@.incoming < u64::MAX,
        ensures
            ok == (seq == old(self)@.incoming),
            ok ==> final(self)@ == (SessionModel {
                incoming: (old(self)@.incoming + 1) as u64,
                ..old(self)@
            }),
            !ok ==> *final(self) == *old(self),
    {
        if seq == self.incoming_seq {
            self.incoming_seq = self.incoming_seq + 1;
            true
        } else {
            false
        }
    }

    /// Build a Logon message (MsgType "A") and transition to
    /// [`SessionState::LogonSent`].
    pub fn build_logon(&mut self) -> (r: Vec<u8>)
        requires
            old(self)@.outgoing < u64::MAX,
        ensures
            r@ == spec_encode(admin_model(old(self)@, "A"@, old(self)@.outgoing)),
            final(self)@ == (SessionModel {
                outgoing: (old(self)@.outgoing + 1) as u64,
                state: SessionState::LogonSent,
                ..old(self)@
            }),
    {
        let seq = self.next_outgoing_seq();
        self.state = SessionState::LogonSent;
        self.build_admin("A", seq)
    }

    /// Build a Logout message (MsgType "5") and transition to
    /// [`SessionState::LogoutSent`].
    pub fn build_logout(&mut self) -> (r: Vec<u8>)
        requires
            old(self)@.outgoing < u64::MAX,
        ensures
            r@ == spec_encode(admin_model(old(self)@, "5"@, old(self)@.outgoing)),
            final(self)@ == (SessionModel {
                outgoing: (old(self)@.outgoing + 1) as u64,
                state: SessionState::LogoutSent,
                ..old(self)@
            }),
    {
        let seq = self.next_outgoing_seq();
        self.state = SessionState::LogoutSent;
        self.build_admin("5", seq)
    }

    /// Build a Heartbeat message (MsgType "0") without changing session
    /// state.
    pub fn build_heartbeat(&mut self) -> (r: Vec<u8>)
        requires
            old(self)@.outgoing < u64::MAX,
        ensures
            r@ == spec_encode(admin_model(old(self)@, "0"@, old(self)@.outgoing)),
            final(self)@ == (SessionModel {
                outgoing: (old(self)@.outgoing + 1) as u64,
                ..old(self)@
            }),
    {
        let seq = self.next_outgoing_seq();
        self.build_admin("0", seq)
    }

    /// Build a NewOrderSingle (MsgType "D") from a domain [`Order`].
    ///
    /// The `symbol` parameter provides the instrument identifier
    /// (tag 55), since the order record does not carry a symbol string.
    pub fn build_new_order(&mut self, order: &Order, symbol: &str) -> (r: Vec<u8>)
        requires
            old(self)@.outgoing < u64::MAX,
        ensures
            r@ == spec_encode(new_order_model(old(self)@, old(self)@.outgoing, *order, symbol@)),
            final(self)@ == (SessionModel {
                outgoing: (old(self)@.outgoing + 1) as u64,
                ..old(self)@
            }),
    {
        let seq = self.next_outgoing_seq();
        let mut b = FixBuilder::new(self.begin_string.as_str(), "D");
        b.field(tag::SENDER_COMP_ID, self.sender_comp_id.as_str());
        b.field(tag::TARGET_COMP_ID, self.target_comp_id.as_str());
        b.field_u64(tag::MSG_SEQ_NUM, seq);
        b.field_u64(tag::CL_ORD_ID, order.id.0);
        b.field(tag::SYMBOL, symbol);
        b.field(tag::SIDE, alice_side_to_fix(order.side));
        b.field(tag::ORD_TYPE, alice_ord_type_to_fix(order.order_type));
        b.field_i64(tag::PRICE, order.price);
        b.field_u64(tag::ORDER_QTY, order.quantity);
        b.field(tag::TIME_IN_FORCE, alice_tif_to_fix(order.time_in_force));
        proof {
            assert(b@.fields =~= new_order_model(
                old(self)@,
                old(self)@.outgoing,
                *order,
                symbol@,
            ).fields);
        }
        b.build()
    }

    /// Construct a minimal administrative message with the standard
    /// header fields.
    fn build_admin(&self, msg_type: &str, seqno: u64) -> (r: Vec<u8>)
        ensures
            r@ == spec_encode(admin_model(self@, msg_type@, seqno)),
    {
        let mut b = FixBuilder::new(self.begin_string.as_str(), msg_type);
        b.field(tag::SENDER_COMP_ID, self.sender_comp_id.as_str());
        b.field(tag::TARGET_COMP_ID, self.target_comp_id.as_str());
        b.field_u64(tag::MSG_SEQ_NUM, seqno);
        proof {
            assert(b@.fields =~= admin_model(self@, msg_type@, seqno).fields);
        }
        b.build()
    }
}

} // verus!
