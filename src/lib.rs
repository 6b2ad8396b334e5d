//! A length-prefixed, type-tagged binary protocol between a client and a server: codecs for
//! fields and messages, framing, and the session logic of authentication and keep-alive.
use vstd::prelude::*;

pub mod bytes;
pub mod decoder;
pub mod encoder;
pub mod errors;
pub mod frame;
pub mod heartbeat;
pub mod messages;
pub mod outbox;
pub mod packets;
pub mod session;
pub mod types;

verus! {

/// Address the server listens on by default.
pub const ADDR: &'static str = "127.0.0.1";

/// Port the server listens on by default.
pub const PORT: u16 = 7776;

} // verus!
