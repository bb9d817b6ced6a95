use vstd::prelude::*;

verus! {

/// Every failure the library can report.
///
/// All errors are returned to the immediate caller; nothing is swallowed and
/// nothing is retried, since a resubmitted statement may repeat a side effect.
#[derive(Debug, Clone, PartialEq, Eq)]
pub enum SqlError {
    /// A connection string misses the server entry or breaks the grammar.
    MalformedConnectionString,
    /// The transport could not reach the resolved address.
    NetworkUnreachable,
    /// The transport gave up waiting for the connection to open.
    ConnectTimeout,
    /// The browser service knows no instance under the requested name.
    InstanceNotFound,
    /// The server rejected the credentials or the authentication mode.
    AuthenticationFailed,
    /// The server speaks a protocol version the client cannot negotiate.
    ProtocolVersionMismatch,
    /// A command was started while the previous row stream was undrained.
    SessionBusy,
    /// The bound parameters do not cover the placeholders in the text.
    ParameterCountMismatch,
    /// A bound parameter cannot be encoded for the wire.
    UnsupportedParameterType,
    /// A column was decoded with a type other than its wire type.
    TypeMismatch,
    /// The server reported a statement-execution fault, passed on verbatim.
    ServerError { code: u32, message: String },
}

} // verus!
