//! FIX protocol message parser, builder, and session management.
//!
//! The wire codec converts between a structured tag/value message and its
//! exact byte representation, enforcing the framing invariants of the
//! protocol: field ordering, declared body length, and the modulo-256
//! checksum trailer. The session layer tracks outbound and inbound
//! sequence numbers and the administrative handshake state.

pub mod builder;
pub mod checksum;
pub mod convert;
pub mod message;
pub mod numeric;
pub mod parser;
pub mod roundtrip;
pub mod session;
pub mod tag;
pub mod text;

pub use builder::FixBuilder;
pub use checksum::compute_checksum;
pub use parser::ParseError;
pub use message::FixMessage;
pub use session::FixSession;
pub use session::SessionState;
