//! Error taxonomy of the protocol engine.

use vstd::prelude::*;

verus! {

/// Errors of the protocol engine.
#[derive(Debug, Clone, PartialEq, Eq)]
pub enum EslError {
    /// Failure of the underlying transport.
    Io { message: String },
    /// Operation attempted while not connected.
    NotConnected,
    /// The authentication handshake was rejected.
    AuthenticationFailed { reason: String },
    /// Malformed framing or an unexpected message.
    ProtocolError { message: String },
    /// The peer answered with a negative acknowledgment.
    CommandFailed { reply_text: String },
    /// The reply followed neither acknowledgment convention.
    UnexpectedReply { reply_text: String },
    /// No reply arrived within the configured window.
    Timeout { timeout_ms: u64 },
    /// Unknown event format selector.
    InvalidEventFormat { format: String },
    /// A JSON event body could not be parsed.
    JsonError { message: String },
    /// Bytes that are not UTF-8 where text is expected.
    Utf8Error,
    /// Too many bytes accumulated without a complete message.
    BufferOverflow { size: usize, limit: usize },
    /// A header line that does not parse.
    InvalidHeader { header: String },
    /// A header that the operation needs is absent.
    MissingHeader { header: String },
    /// The peer closed the connection.
    ConnectionClosed,
    /// Malformed channel identifier.
    InvalidUuid { uuid: String },
    /// The event queue is full.
    QueueFull,
    /// No traffic arrived within the liveness window.
    HeartbeatExpired,
    /// Any other failure.
    Generic { message: String },
}

/// Whether an error leaves the connection usable.
pub open spec fn recoverable(e: EslError) -> bool {
    match e {
        EslError::Timeout { .. } | EslError::CommandFailed { .. } | EslError::UnexpectedReply { .. }
        | EslError::QueueFull => true,
        _ => false,
    }
}

/// Whether an error means the connection is gone.
pub open spec fn connection_error(e: EslError) -> bool {
    match e {
        EslError::Io { .. } | EslError::NotConnected | EslError::ConnectionClosed
        | EslError::HeartbeatExpired => true,
        _ => false,
    }
}

/// An owned copy of the text.
pub(crate) fn owned(s: &str) -> (r: String)
    ensures
        r@ == s@,
{
    s.to_owned()
}

impl EslError {
    /// A generic error with the given message.
    pub fn generic(message: &str) -> (r: Self)
        ensures
            r matches EslError::Generic { message: m } && m@ == message@,
    {
        EslError::Generic { message: owned(message) }
    }

    /// A protocol error with the given message.
    pub fn protocol_error(message: &str) -> (r: Self)
        ensures
            r matches EslError::ProtocolError { message: m } && m@ == message@,
    {
        EslError::ProtocolError { message: owned(message) }
    }

    /// An authentication failure with the given reason.
    pub fn auth_failed(reason: &str) -> (r: Self)
        ensures
            r matches EslError::AuthenticationFailed { reason: m } && m@ == reason@,
    {
        EslError::AuthenticationFailed { reason: owned(reason) }
    }

    /// Whether the connection stays usable after this error.
    pub fn is_recoverable(&self) -> (r: bool)
        ensures
            r == recoverable(*self),
    {
        match self {
            EslError::Timeout { .. } | EslError::CommandFailed { .. } | EslError::UnexpectedReply { .. }
            | EslError::QueueFull => true,
            _ => false,
        }
    }

    /// Whether this error means the connection is gone.
    pub fn is_connection_error(&self) -> (r: bool)
        ensures
            r == connection_error(*self),
    {
        match self {
            EslError::Io { .. } | EslError::NotConnected | EslError::ConnectionClosed
            | EslError::HeartbeatExpired => true,
            _ => false,
        }
    }
}

/// Result of engine operations.
pub type EslResult<T> = Result<T, EslError>;

} // verus!
