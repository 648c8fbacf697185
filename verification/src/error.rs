//! Error type shared by the socket and X11 protocol implementations.

use vstd::prelude::*;

verus! {

/// The standard library's I/O error, carried through unchanged.
#[verifier::external_type_specification]
#[verifier::external_body]
pub struct ExIoError(std::io::Error);

/// x11rb's error for a failed request that also allocates a resource id.
#[verifier::external_type_specification]
#[verifier::external_body]
pub struct ExReplyOrIdError(x11rb::errors::ReplyOrIdError);

/// x11rb's error for a broken X11 connection.
#[verifier::external_type_specification]
#[verifier::external_body]
pub struct ExConnectionError(x11rb::errors::ConnectionError);

/// x11rb's error for a request whose reply failed.
#[verifier::external_type_specification]
#[verifier::external_body]
pub struct ExReplyError(x11rb::errors::ReplyError);

/// Errors that can occur when talking to the spacenav daemon, over its UNIX
/// socket or over the X11 Magellan protocol.
#[derive(Debug)]
pub enum Error {
    /// I/O error (socket read/write failure).
    Io(std::io::Error),
    /// Connection is already open (cannot open twice).
    AlreadyOpen,
    /// Connection is not open (cannot send request).
    NotOpen,
    /// Protocol-level error (invalid response, unexpected data).
    Protocol(String),
    /// Request timed out waiting for daemon response.
    Timeout,
    /// Daemon returned a failure status code.
    DaemonFailure,
    /// spacenavd socket not found (daemon may not be running).
    SocketNotFound,
    /// X11 resource ID error.
    X11(x11rb::errors::ReplyOrIdError),
    /// X11 connection error.
    X11Conn(x11rb::errors::ConnectionError),
    /// X11 reply error.
    X11Reply(x11rb::errors::ReplyError),
}

/// `std::io::Error::new(ErrorKind::BrokenPipe, "connection closed")`: the error
/// that a request receives when the daemon's socket fails under it.
#[verifier::external_body]
pub(crate) fn connection_closed() -> (e: std::io::Error) {
    std::io::Error::new(std::io::ErrorKind::BrokenPipe, "connection closed")
}

} // verus!
