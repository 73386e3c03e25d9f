use vstd::prelude::*;

verus! {

/// Errors that the driver itself raises, before or instead of a server error.
#[derive(Debug, Clone, PartialEq, Eq)]
pub enum DriverError {
    /// The server speaks a handshake protocol other than version 10.
    UnsupportedProtocol(u8),
    /// The server does not announce `CLIENT_PROTOCOL_41`.
    Protocol41NotSet,
    /// TLS was requested but the server does not offer it.
    TlsNotSupported,
    /// The server asked for an authentication plugin that the driver lacks.
    UnknownAuthPlugin(Vec<u8>),
    /// A packet arrived that the current protocol state does not allow.
    UnexpectedPacket,
    /// `max_allowed_packet` could not be established after the handshake.
    SetupError,
    /// A read-only transaction was asked of a server that cannot start one.
    ReadOnlyTransNotSupported,
    /// A statement with the first count of parameters got the second count.
    MismatchedStmtParams(u16, usize),
    /// Named parameters were given to a statement written with `?`.
    NamedParamsForPositionalQuery,
    /// The named parameter is missing from the supplied set.
    MissingNamedParameter(String),
    /// A query mixes `:name` parameters with `?` placeholders.
    MixedParams,
    /// No candidate address accepted a connection within the timeout.
    ConnectTimeout,
}

/// An error that the server reported in an ERR packet.
#[derive(Debug, Clone, PartialEq, Eq)]
pub struct ServerError {
    pub code: u16,
    /// The five-character SQLSTATE.
    pub state: Vec<u8>,
    pub message: Vec<u8>,
}

} // verus!
