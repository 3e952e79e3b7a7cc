use vstd::prelude::*;

verus! {

/// Why the pool could not hand out a connection. Failures of the connector
/// and of the HTTP/2 handshake pass through the pool untouched and are not
/// listed here.
#[derive(Clone, Copy, Debug, PartialEq, Eq, Structural)]
pub enum ConnectError {
    /// The target is a secure one and no secure pool is configured.
    SslIsNotSupported,
    /// Opening the connection took longer than the connector is given.
    Timeout,
    /// The reply to a waiting caller was dropped before it was sent.
    Disconnected,
    /// The target has no authority to connect to.
    Unresolved,
}

} // verus!
