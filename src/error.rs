//! Error kinds of the proxy pipeline and the control session.
use vstd::prelude::*;

verus! {

/// What went wrong; each kind ends the connection (or marks the control
/// session down) after any wire-level reply.
#[derive(Debug, Clone, Copy, PartialEq, Eq, Structural)]
pub enum RgError {
    /// The client closed before sending a request.
    EmptyRequest,
    InvalidRequest,
    /// A `Proxy-Authorization` value that is not `user:pass`.
    InvalidAuthHeader,
    NoAuthFound,
    AuthFailed,
    /// Refused by the ACL.
    ForbiddenRequest,
    UnsupportedCommand,
    UnsupportedAddrType,
    ResolveDnsError,
    ConnectTimeout,
    ConnectServerError,
    IoError,
    /// A request line, URI, UTF-8 text, base64 value, integer or JSON document
    /// that does not parse.
    ParseError,
    WebsocketSendError,
}

} // verus!
