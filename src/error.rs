use vstd::prelude::*;

verus! {

/// What made a frame or a reply unusable.
#[derive(Clone, Copy, Debug, PartialEq, Eq, Structural)]
pub enum ProtocolFault {
    /// A header line holds no colon.
    BadHeaderLine,
    /// A frame carries no `Content-Type` header.
    MissingContentType,
    /// A body-bearing frame carries no `Content-Length` header.
    MissingContentLength,
    /// `Content-Length` is not a decimal number that fits in memory.
    BadContentLength,
    /// The `Content-Type` is not one this client understands.
    UnknownContentType,
    /// A status line has no whitespace after its status token.
    MissingStatus,
    /// A status line carries a token other than `+OK` or `-ERR`.
    UnknownStatus,
    /// A command reply carries no `Reply-Text` header.
    MissingReplyText,
    /// A reply that must carry a body carries none.
    MissingBody,
    /// The session snapshot names no `Channel-Unique-ID`.
    MissingCallUuid,
    /// A frame arrived that the current handshake step does not expect.
    UnexpectedFrame,
}

/// The errors of the client.
#[derive(Clone, Debug, PartialEq, Eq)]
pub enum EslError {
    /// Reading from or writing to the transport failed.
    TransportError,
    /// The peer sent something that breaks the protocol.
    ProtocolError(ProtocolFault),
    /// The server answered the password with an error status.
    AuthFailed,
    /// The server refused the connection outright.
    RejectedError,
    /// The server answered a command with an error status and this message.
    ApiError(String),
    /// The connection ended while a caller still awaited its reply.
    ConnectionClosed,
}

} // verus!
