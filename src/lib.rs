//! A three-step `HELLO` handshake over a byte stream: the message codec, the
//! decoding of received frames, and the client and server sides of the
//! exchange as state machines that a transport drives.
use vstd::prelude::*;

pub mod decimal;
pub mod error;
pub mod protocol;
pub mod session;
pub mod text;
pub mod utils;

pub use error::HandshakeError;
pub use protocol::{
    format_hello_message, frame_text, frame_text_trimmed, parse_hello_message,
    CLIENT_CONNECTION_TIMEOUT_SECS, CONNECTION_TIMEOUT_SECS, READ_TIMEOUT_SECS,
};
pub use session::{Action, ClientHandshake, ClientPhase, Event, ServerHandshake, ServerPhase};
pub use utils::{
    calculate_optimal_thread_count, format_server_address, parse_client_args, parse_server_args,
};

verus! {

/// Capacity in bytes of one frame: the most that a single read or write carries.
pub const MSG_SIZE: usize = 64;

} // verus!
