use vstd::prelude::*;

verus! {

/// The error kinds of the proxy. Each connection is handled independently:
/// an error aborts only the connection it arose on, except `BindError`,
/// which is fatal to the whole listener.
#[derive(Clone, Copy, Debug, PartialEq, Eq, Structural)]
pub enum ProxyError {
    /// The request line did not split into exactly three tokens, a header
    /// line carried no colon, the `Host` header was absent, or its port
    /// was not a valid integer.
    MalformedRequest,
    /// The destination (or the upstream proxy) could not be reached.
    RemoteConnectError,
    /// A read or write failed while relaying.
    RelayIoError,
    /// The listening socket could not be bound.
    BindError,
    /// Accepting a connection failed.
    AcceptError,
}

} // verus!
