//! Conversions between wire tag values and the trading domain's order and
//! fill records.
//!
//! The domain records hold plain values: identifiers, tick prices and
//! quantities. All wire codes follow the FIX 4.4 specification.

use vstd::prelude::*;

use crate::message::spec_get_i64;
use crate::message::spec_get_u64;
use crate::message::FixMessage;
use crate::message::MessageModel;
use crate::text::str_is_char;
use crate::tag;

verus! {

/// Which side of the book an order rests on.
#[derive(Debug, Clone, Copy, PartialEq, Eq)]
pub enum Side {
    /// A buy order.
    Bid,
    /// A sell order.
    Ask,
}

/// How an order is priced.
#[derive(Debug, Clone, Copy, PartialEq, Eq)]
pub enum OrderType {
    /// Execute at the best available price.
    Market,
    /// Execute at the limit price or better.
    Limit,
    /// A stop order that becomes a limit order once triggered.
    StopLimit {
        /// The trigger price, in ticks.
        stop_price: i64,
    },
}

/// How long an order remains active.
#[derive(Debug, Clone, Copy, PartialEq, Eq)]
pub enum TimeInForce {
    /// Good till cancelled.
    GTC,
    /// Immediate or cancel.
    IOC,
    /// Fill or kill.
    FOK,
    /// Good till date.
    GTD {
        /// Expiry timestamp in nanoseconds.
        expiry_ns: u64,
    },
}

/// An order identifier.
#[derive(Debug, Clone, Copy, PartialEq, Eq)]
pub struct OrderId(pub u64);

/// A domain order record, as the session layer consumes it.
#[derive(Debug, Clone, Copy, PartialEq, Eq)]
pub struct Order {
    /// Client-assigned order identifier.
    pub id: OrderId,
    /// Which side of the book the order is for.
    pub side: Side,
    /// How the order is priced.
    pub order_type: OrderType,
    /// Limit price in ticks.
    pub price: i64,
    /// Quantity to buy or sell.
    pub quantity: u64,
    /// Quantity already filled.
    pub filled_quantity: u64,
    /// Creation timestamp in nanoseconds.
    pub timestamp_ns: u64,
    /// How long the order remains active.
    pub time_in_force: TimeInForce,
}

/// A domain fill record, as an execution report yields it.
#[derive(Debug, Clone, Copy, PartialEq, Eq)]
pub struct Fill {
    /// The resting order that was hit.
    pub maker_id: OrderId,
    /// The incoming order that hit it.
    pub taker_id: OrderId,
    /// Fill price in ticks.
    pub price: i64,
    /// Fill quantity.
    pub quantity: u64,
    /// Fill timestamp in nanoseconds.
    pub timestamp_ns: u64,
}

/// The wire code of a side (tag 54).
pub open spec fn side_code(side: Side) -> Seq<char> {
    match side {
        Side::Bid => seq!['1'],
        Side::Ask => seq!['2'],
    }
}

/// The wire code of an order type (tag 40); a stop-limit maps to the
/// closest FIX equivalent, Limit.
pub open spec fn ord_type_code(order_type: OrderType) -> Seq<char> {
    match order_type {
        OrderType::Market => seq!['1'],
        OrderType::Limit => seq!['2'],
        OrderType::StopLimit { .. } => seq!['2'],
    }
}

/// The wire code of a time-in-force (tag 59).
pub open spec fn tif_code(tif: TimeInForce) -> Seq<char> {
    match tif {
        TimeInForce::GTC => seq!['1'],
        TimeInForce::IOC => seq!['3'],
        TimeInForce::FOK => seq!['4'],
        TimeInForce::GTD { .. } => seq!['6'],
    }
}

/// Which side a wire code (tag 54) denotes: "1" is a buy, "2" a sell,
/// anything else is unknown.
pub open spec fn spec_side_of(s: Seq<char>) -> Option<Side> {
    if s == seq!['1'] {
        Some(Side::Bid)
    } else if s == seq!['2'] {
        Some(Side::Ask)
    } else {
        None
    }
}

/// Which order type a wire code (tag 40) denotes.
pub open spec fn spec_ord_type_of(s: Seq<char>) -> Option<OrderType> {
    if s == seq!['1'] {
        Some(OrderType::Market)
    } else if s == seq!['2'] {
        Some(OrderType::Limit)
    } else {
        None
    }
}

/// Which time-in-force a wire code (tag 59) denotes. Day ("0") and
/// good-till-date ("6") both map to GTC, the closest domain value.
pub open spec fn spec_tif_of(s: Seq<char>) -> Option<TimeInForce> {
    if s == seq!['0'] || s == seq!['1'] || s == seq!['6'] {
        Some(TimeInForce::GTC)
    } else if s == seq!['3'] {
        Some(TimeInForce::IOC)
    } else if s == seq!['4'] {
        Some(TimeInForce::FOK)
    } else {
        None
    }
}

/// Convert a Side value (tag 54) from the wire to the domain.
///
/// - `"1"` maps to [`Side::Bid`] (buy)
/// - `"2"` maps to [`Side::Ask`] (sell)
/// - anything else to `None`
pub fn fix_side_to_alice(fix_side: &str) -> (r: Option<Side>)
    ensures
        r == spec_side_of(fix_side@),
{
    if str_is_char(fix_side, '1') {
        Some(Side::Bid)
    } else if str_is_char(fix_side, '2') {
        Some(Side::Ask)
    } else {
        None
    }
}

/// Convert a domain [`Side`] to the wire value for tag 54.
pub fn alice_side_to_fix(side: Side) -> (r: &'static str)
    ensures
        r@ == side_code(side),
{
    proof {
        reveal_strlit("1");
        reveal_strlit("2");
    }
    match side {
        Side::Bid => "1",
        Side::Ask => "2",
    }
}

/// Convert an OrdType value (tag 40) from the wire to the domain.
///
/// - `"1"` maps to [`OrderType::Market`]
/// - `"2"` maps to [`OrderType::Limit`]
/// - anything else to `None`
pub fn fix_ord_type_to_alice(fix_type: &str) -> (r: Option<OrderType>)
    ensures
        r == spec_ord_type_of(fix_type@),
{
    if str_is_char(fix_type, '1') {
        Some(OrderType::Market)
    } else if str_is_char(fix_type, '2') {
        Some(OrderType::Limit)
    } else {
        None
    }
}

/// Convert a domain [`OrderType`] to the wire value for tag 40; a
/// stop-limit is rendered as Limit, the closest FIX equivalent.
pub fn alice_ord_type_to_fix(order_type: OrderType) -> (r: &'static str)
    ensures
        r@ == ord_type_code(order_type),
{
    proof {
        reveal_strlit("1");
        reveal_strlit("2");
    }
    match order_type {
        OrderType::Market => "1",
        OrderType::Limit => "2",
        OrderType::StopLimit { .. } => "2",
    }
}

/// Convert a TimeInForce value (tag 59) from the wire to the domain.
///
/// - `"0"` (Day), `"1"` (GTC) and `"6"` (GTD) all map to
///   [`TimeInForce::GTC`], the closest semantic match
/// - `"3"` maps to [`TimeInForce::IOC`]
/// - `"4"` maps to [`TimeInForce::FOK`]
/// - anything else to `None`
pub fn fix_tif_to_alice(fix_tif: &str) -> (r: Option<TimeInForce>)
    ensures
        r == spec_tif_of(fix_tif@),
{
    if str_is_char(fix_tif, '0') || str_is_char(fix_tif, '1') || str_is_char(fix_tif, '6') {
        Some(TimeInForce::GTC)
    } else if str_is_char(fix_tif, '3') {
        Some(TimeInForce::IOC)
    } else if str_is_char(fix_tif, '4') {
        Some(TimeInForce::FOK)
    } else {
        None
    }
}

/// Convert a domain [`TimeInForce`] to the wire value for tag 59.
pub fn alice_tif_to_fix(tif: TimeInForce) -> (r: &'static str)
    ensures
        r@ == tif_code(tif),
{
    proof {
        reveal_strlit("1");
        reveal_strlit("3");
        reveal_strlit("4");
        reveal_strlit("6");
    }
    match tif {
        TimeInForce::GTC => "1",
        TimeInForce::IOC => "3",
        TimeInForce::FOK => "4",
        TimeInForce::GTD { .. } => "6",
    }
}

/// What an execution report yields: a fill exactly when the execution id
/// (17), order id (37), client order id (11), last price (31) and last
/// quantity (32) are all present and parse; the timestamp (60) defaults
/// to zero when absent or unparseable.
pub open spec fn spec_parse_execution_report(m: MessageModel) -> Option<Fill> {
    match (
        spec_get_u64(m, tag::EXEC_ID),
        spec_get_u64(m, tag::ORDER_ID),
        spec_get_u64(m, tag::CL_ORD_ID),
        spec_get_i64(m, tag::LAST_PX),
        spec_get_u64(m, tag::LAST_QTY),
    ) {
        (Some(_exec_id), Some(order_id), Some(cl_ord_id), Some(last_px), Some(last_qty)) => Some(
            Fill {
                maker_id: OrderId(order_id),
                taker_id: OrderId(cl_ord_id),
                price: last_px,
                quantity: last_qty,
                timestamp_ns: match spec_get_u64(m, tag::TRANSACT_TIME) {
                    Some(t) => t,
                    None => 0,
                },
            },
        ),
        _ => None,
    }
}

/// Parse an ExecutionReport message (MsgType "8") into a domain [`Fill`].
///
/// Required tags: 17 (ExecID), 37 (OrderID), 11 (ClOrdID), 31 (LastPx),
/// 32 (LastQty); tag 60 (TransactTime) defaults to zero.
///
/// Returns `None` if any required tag is absent or cannot be parsed.
pub fn parse_execution_report(msg: &FixMessage) -> (r: Option<Fill>)
    ensures
        r == spec_parse_execution_report(msg@),
{
    let _exec_id = match msg.get_u64(tag::EXEC_ID) {
        Some(v) => v,
        None => {
            return None;
        },
    };
    let order_id = match msg.get_u64(tag::ORDER_ID) {
        Some(v) => v,
        None => {
            return None;
        },
    };
    let cl_ord_id = match msg.get_u64(tag::CL_ORD_ID) {
        Some(v) => v,
        None => {
            return None;
        },
    };
    let last_px = match msg.get_i64(tag::LAST_PX) {
        Some(v) => v,
        None => {
            return None;
        },
    };
    let last_qty = match msg.get_u64(tag::LAST_QTY) {
        Some(v) => v,
        None => {
            return None;
        },
    };
    let transact_time = match msg.get_u64(tag::TRANSACT_TIME) {
        Some(t) => t,
        None => 0,
    };
    Some(
        Fill {
            maker_id: OrderId(order_id),
            taker_id: OrderId(cl_ord_id),
            price: last_px,
            quantity: last_qty,
            timestamp_ns: transact_time,
        },
    )
}

} // verus!
