use vstd::prelude::*;

verus! {

/// Every way in which a handshake, or the configuration around it, can fail.
#[derive(Debug, Clone, PartialEq, Eq)]
pub enum HandshakeError {
    /// The transport reported a failure; the text describes it.
    Io(String),
    /// The text was not `HELLO <number>`; `message` is the text received.
    InvalidMessageFormat { message: String },
    /// The second token was not a decimal `i32`; it is carried as received.
    InvalidSequenceNumber(String),
    /// The peer answered with a sequence number other than the one owed.
    SequenceMismatch { expected: i32, received: i32 },
    /// The peer closed the connection before sending a byte.
    ClientDisconnected,
    /// A read or the whole session ran past its deadline.
    Timeout,
    /// A port argument that is not a decimal `u16`.
    InvalidPort(String),
    /// The argument list has the wrong shape; the text is a usage line.
    InvalidArguments(String),
}

} // verus!
