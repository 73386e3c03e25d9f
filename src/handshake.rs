use vstd::prelude::*;

use crate::consts::{
    CLIENT_COMPRESS, CLIENT_CONNECT_ATTRS, CLIENT_CONNECT_WITH_DB, CLIENT_LOCAL_FILES,
    CLIENT_LONG_FLAG, CLIENT_LONG_PASSWORD, CLIENT_MULTI_RESULTS, CLIENT_MULTI_STATEMENTS,
    CLIENT_PLUGIN_AUTH, CLIENT_PROTOCOL_41, CLIENT_PS_MULTI_RESULTS, CLIENT_SECURE_CONNECTION,
    CLIENT_SSL, CLIENT_TRANSACTIONS, has_flag,
};
use crate::error::DriverError;

verus! {

/// What the driver reads out of the server's initial handshake packet.
#[derive(Debug, Clone, PartialEq, Eq)]
pub struct HandshakeInfo {
    pub protocol_version: u8,
    pub capabilities: u32,
    pub status_flags: u16,
    pub connection_id: u32,
    pub collation: u8,
    pub server_version: Option<(u16, u16, u16)>,
    pub mariadb_version: Option<(u16, u16, u16)>,
    /// The authentication nonce (both scramble parts, concatenated).
    pub nonce: Vec<u8>,
    /// The authentication plugin that the server names, if any.
    pub auth_plugin: Option<Vec<u8>>,
}

/// The connection options that take part in capability negotiation.
#[derive(Debug, Clone, Copy, PartialEq, Eq, Structural)]
pub struct HandshakeOptions {
    /// Compression was requested.
    pub compress: bool,
    /// A default schema is configured and is not empty.
    pub has_db_name: bool,
    /// TLS was requested.
    pub tls: bool,
    /// Extra capability bits supplied by the caller.
    pub additional_capabilities: u32,
}

/// The two authentication plugins the driver implements.
#[derive(Debug, Clone, Copy, PartialEq, Eq, Structural)]
pub enum AuthPlugin {
    MysqlNativePassword,
    CachingSha2Password,
}

/// What the handshake settles before the response is written.
#[derive(Debug, Clone, Copy, PartialEq, Eq, Structural)]
pub struct HandshakePlan {
    /// Capabilities in effect for the session: the client's bits that the server shares.
    pub capabilities: u32,
    /// An SSL request must be written and the transport upgraded before the response.
    pub ssl_request: bool,
    /// The plugin that computes the scramble and runs the completion protocol.
    pub plugin: AuthPlugin,
}

/// The capability bits that every client handshake asks for.
pub open spec fn base_client_flags() -> u32 {
    CLIENT_PROTOCOL_41 | CLIENT_SECURE_CONNECTION | CLIENT_LONG_PASSWORD | CLIENT_TRANSACTIONS
        | CLIENT_LOCAL_FILES | CLIENT_MULTI_STATEMENTS | CLIENT_MULTI_RESULTS
        | CLIENT_PS_MULTI_RESULTS | CLIENT_PLUGIN_AUTH | CLIENT_CONNECT_ATTRS
}

/// The capability word the client announces.
pub open spec fn client_flags_spec(server_caps: u32, opts: HandshakeOptions, insecure: bool) -> u32 {
    base_client_flags() | (server_caps & CLIENT_LONG_FLAG) | (if opts.compress {
        CLIENT_COMPRESS
    } else {
        0u32
    }) | (if opts.has_db_name {
        CLIENT_CONNECT_WITH_DB
    } else {
        0u32
    }) | (if opts.tls && insecure {
        CLIENT_SSL
    } else {
        0u32
    }) | opts.additional_capabilities
}

/// Computes the capability word the client announces to a server that offers `server_caps`.
pub fn client_flags(server_caps: u32, opts: &HandshakeOptions, insecure: bool) -> (r: u32)
    ensures
        r == client_flags_spec(server_caps, *opts, insecure),
{
    let compress: u32 = if opts.compress {
        CLIENT_COMPRESS
    } else {
        0u32
    };
    let with_db: u32 = if opts.has_db_name {
        CLIENT_CONNECT_WITH_DB
    } else {
        0u32
    };
    let ssl: u32 = if opts.tls && insecure {
        CLIENT_SSL
    } else {
        0u32
    };
    let base: u32 = CLIENT_PROTOCOL_41 | CLIENT_SECURE_CONNECTION | CLIENT_LONG_PASSWORD
        | CLIENT_TRANSACTIONS | CLIENT_LOCAL_FILES | CLIENT_MULTI_STATEMENTS
        | CLIENT_MULTI_RESULTS | CLIENT_PS_MULTI_RESULTS | CLIENT_PLUGIN_AUTH
        | CLIENT_CONNECT_ATTRS;
    base | (server_caps & CLIENT_LONG_FLAG) | compress | with_db | ssl
        | opts.additional_capabilities
}

pub open spec fn native_plugin_name() -> Seq<u8> {
    seq![
        109u8, 121, 115, 113, 108, 95, 110, 97, 116, 105, 118, 101, 95, 112, 97, 115, 115, 119,
        111, 114, 100,
    ]
}

pub open spec fn sha2_plugin_name() -> Seq<u8> {
    seq![
        99u8, 97, 99, 104, 105, 110, 103, 95, 115, 104, 97, 50, 95, 112, 97, 115, 115, 119, 111,
        114, 100,
    ]
}

/// The view of an optional byte string.
pub open spec fn bytes_view(o: Option<Vec<u8>>) -> Option<Seq<u8>> {
    match o {
        Some(v) => Some(v@),
        None => None,
    }
}

/// The plugin a server-side plugin name selects; no name selects the native plugin.
pub open spec fn plugin_of(name: Option<Seq<u8>>) -> Option<AuthPlugin> {
    match name {
        None => Some(AuthPlugin::MysqlNativePassword),
        Some(n) => if n == native_plugin_name() {
            Some(AuthPlugin::MysqlNativePassword)
        } else if n == sha2_plugin_name() {
            Some(AuthPlugin::CachingSha2Password)
        } else {
            None
        },
    }
}

/// The name a plugin is known by on the wire.
pub fn plugin_name(plugin: AuthPlugin) -> (r: Vec<u8>)
    ensures
        r@ == (match plugin {
            AuthPlugin::MysqlNativePassword => native_plugin_name(),
            AuthPlugin::CachingSha2Password => sha2_plugin_name(),
        }),
{
    let r = match plugin {
        AuthPlugin::MysqlNativePassword => vec![
            109u8, 121, 115, 113, 108, 95, 110, 97, 116, 105, 118, 101, 95, 112, 97, 115, 115,
            119, 111, 114, 100,
        ],
        AuthPlugin::CachingSha2Password => vec![
            99u8, 97, 99, 104, 105, 110, 103, 95, 115, 104, 97, 50, 95, 112, 97, 115, 115, 119,
            111, 114, 100,
        ],
    };
    proof {
        assert(r@ =~= (match plugin {
            AuthPlugin::MysqlNativePassword => native_plugin_name(),
            AuthPlugin::CachingSha2Password => sha2_plugin_name(),
        }));
    }
    r
}

/// Returns true when the two byte strings are equal.
pub fn bytes_eq(a: &Vec<u8>, b: &Vec<u8>) -> (r: bool)
    ensures
        r == (a@ == b@),
{
    if a.len() != b.len() {
        return false;
    }
    let mut i: usize = 0;
    while i < a.len()
        invariant
            a@.len() == b@.len(),
            i <= a@.len(),
            forall|k: int| 0 <= k < i ==> a@[k] == b@[k],
        decreases a@.len() - i,
    {
        if a[i] != b[i] {
            return false;
        }
        i = i + 1;
    }
    proof {
        assert(a@ =~= b@);
    }
    true
}

/// Selects the authentication plugin that the server names.
pub fn select_plugin(name: &Option<Vec<u8>>) -> (r: Result<AuthPlugin, DriverError>)
    ensures
        match plugin_of(bytes_view(*name)) {
            Some(p) => r == Ok::<AuthPlugin, DriverError>(p),
            None => match r {
                Err(DriverError::UnknownAuthPlugin(v)) => v@ == name.unwrap()@,
                _ => false,
            },
        },
{
    match name {
        None => Ok(AuthPlugin::MysqlNativePassword),
        Some(n) => {
            let native = plugin_name(AuthPlugin::MysqlNativePassword);
            let sha2 = plugin_name(AuthPlugin::CachingSha2Password);
            if bytes_eq(n, &native) {
                Ok(AuthPlugin::MysqlNativePassword)
            } else if bytes_eq(n, &sha2) {
                Ok(AuthPlugin::CachingSha2Password)
            } else {
                Err(DriverError::UnknownAuthPlugin(n.clone()))
            }
        },
    }
}

/// The outcome of the checks on a server handshake, in the order the driver makes them.
pub open spec fn handshake_outcome(
    info: HandshakeInfo,
    opts: HandshakeOptions,
    insecure: bool,
) -> Result<HandshakePlan, DriverError> {
    if info.protocol_version != 10 {
        Err(DriverError::UnsupportedProtocol(info.protocol_version))
    } else if info.capabilities & CLIENT_PROTOCOL_41 != CLIENT_PROTOCOL_41 {
        Err(DriverError::Protocol41NotSet)
    } else if opts.tls && insecure && info.capabilities & CLIENT_SSL != CLIENT_SSL {
        Err(DriverError::TlsNotSupported)
    } else {
        match plugin_of(bytes_view(info.auth_plugin)) {
            Some(p) => Ok(
                HandshakePlan {
                    capabilities: info.capabilities & client_flags_spec(
                        info.capabilities,
                        opts,
                        insecure,
                    ),
                    ssl_request: opts.tls && insecure,
                    plugin: p,
                },
            ),
            None => Err(DriverError::UnknownAuthPlugin(info.auth_plugin.unwrap())),
        }
    }
}

/// Checks a server handshake and settles capabilities, the TLS upgrade and the plugin.
///
/// `insecure` tells whether the transport is still a plain socket.
pub fn plan_handshake(info: &HandshakeInfo, opts: &HandshakeOptions, insecure: bool) -> (r: Result<
    HandshakePlan,
    DriverError,
>)
    ensures
        match handshake_outcome(*info, *opts, insecure) {
            Err(DriverError::UnknownAuthPlugin(name)) => match r {
                Err(DriverError::UnknownAuthPlugin(v)) => v@ == name@,
                _ => false,
            },
            other => r == other,
        },
{
    if info.protocol_version != 10 {
        return Err(DriverError::UnsupportedProtocol(info.protocol_version));
    }
    if !has_flag(info.capabilities, CLIENT_PROTOCOL_41) {
        return Err(DriverError::Protocol41NotSet);
    }
    if opts.tls && insecure && !has_flag(info.capabilities, CLIENT_SSL) {
        return Err(DriverError::TlsNotSupported);
    }
    let plugin = select_plugin(&info.auth_plugin)?;
    let flags = client_flags(info.capabilities, opts, insecure);
    Ok(HandshakePlan { capabilities: info.capabilities & flags, ssl_request: opts.tls && insecure, plugin })
}

/// What the client does with a packet received while authenticating.
#[derive(Debug, Clone, Copy, PartialEq, Eq, Structural)]
pub enum AuthStep {
    /// The packet is the final OK packet: parse it and finish.
    AcceptOk,
    /// Authentication succeeded without an OK packet to parse.
    Finished,
    /// The packet is an auth-switch request: parse it and restart with the new plugin.
    Switch,
    /// Read the next packet and parse it as the final OK packet.
    ReadOk,
    /// Send the null-terminated cleartext password, then read the final OK.
    SendPassword,
    /// Send a single 0x02 byte to ask for the server's RSA public key.
    RequestPublicKey,
}

/// The step for a packet, or `None` where the packet is unexpected.
///
/// `secure` tells whether the channel is TLS or a Unix socket.
pub open spec fn auth_step_spec(
    plugin: AuthPlugin,
    switched: bool,
    payload: Seq<u8>,
    secure: bool,
) -> Option<AuthStep> {
    if payload.len() == 0 {
        None
    } else if payload[0] == 0xfe {
        if switched {
            None
        } else {
            Some(AuthStep::Switch)
        }
    } else {
        match plugin {
            AuthPlugin::MysqlNativePassword => if payload[0] == 0x00 {
                Some(AuthStep::AcceptOk)
            } else {
                None
            },
            AuthPlugin::CachingSha2Password => if payload[0] == 0x00 {
                Some(AuthStep::Finished)
            } else if payload[0] == 0x01 && payload.len() >= 2 && payload[1] == 0x03 {
                Some(AuthStep::ReadOk)
            } else if payload[0] == 0x01 && payload.len() >= 2 && payload[1] == 0x04 {
                if secure {
                    Some(AuthStep::SendPassword)
                } else {
                    Some(AuthStep::RequestPublicKey)
                }
            } else {
                None
            },
        }
    }
}

/// Decides what to do with a packet received while authenticating with `plugin`.
///
/// `switched` tells whether an auth switch has already happened; a second one is refused.
pub fn auth_step(
    plugin: AuthPlugin,
    switched: bool,
    payload: &Vec<u8>,
    secure: bool,
) -> (r: Result<AuthStep, DriverError>)
    ensures
        match auth_step_spec(plugin, switched, payload@, secure) {
            None => r == Err::<AuthStep, DriverError>(DriverError::UnexpectedPacket),
            Some(step) => r == Ok::<AuthStep, DriverError>(step),
        },
{
    if payload.len() == 0 {
        return Err(DriverError::UnexpectedPacket);
    }
    if payload[0] == 0xfe {
        if switched {
            return Err(DriverError::UnexpectedPacket);
        }
        return Ok(AuthStep::Switch);
    }
    match plugin {
        AuthPlugin::MysqlNativePassword => {
            if payload[0] == 0x00 {
                Ok(AuthStep::AcceptOk)
            } else {
                Err(DriverError::UnexpectedPacket)
            }
        },
        AuthPlugin::CachingSha2Password => {
            if payload[0] == 0x00 {
                Ok(AuthStep::Finished)
            } else if payload[0] == 0x01 && payload.len() >= 2 && payload[1] == 0x03 {
                Ok(AuthStep::ReadOk)
            } else if payload[0] == 0x01 && payload.len() >= 2 && payload[1] == 0x04 {
                if secure {
                    Ok(AuthStep::SendPassword)
                } else {
                    Ok(AuthStep::RequestPublicKey)
                }
            } else {
                Err(DriverError::UnexpectedPacket)
            }
        },
    }
}

/// The password as sent in the clear over a secure channel: null-terminated.
pub fn cleartext_password(pass: &Vec<u8>) -> (r: Vec<u8>)
    ensures
        r@ == pass@.push(0u8),
{
    let mut bytes = pass.clone();
    bytes.push(0u8);
    bytes
}

/// The null-terminated password XOR-ed with the nonce, repeated cyclically.
pub open spec fn scrambled_password(pass: Seq<u8>, nonce: Seq<u8>) -> Seq<u8>
    recommends
        nonce.len() > 0,
{
    Seq::new(
        pass.len() + 1,
        |i: int| (pass.push(0u8)[i] ^ nonce[i % (nonce.len() as int)]) as u8,
    )
}

/// XORs the null-terminated password with the nonce before RSA encryption.
pub fn scramble_password(pass: &Vec<u8>, nonce: &Vec<u8>) -> (r: Vec<u8>)
    requires
        nonce@.len() > 0,
        pass@.len() < usize::MAX,
    ensures
        r@ == scrambled_password(pass@, nonce@),
{
    let mut buf = pass.clone();
    buf.push(0u8);
    let ghost full = buf@;
    let n = nonce.len();
    let mut i: usize = 0;
    while i < buf.len()
        invariant
            full == pass@.push(0u8),
            buf@.len() == full.len(),
            n == nonce@.len(),
            n > 0,
            i <= buf@.len(),
            forall|k: int| 0 <= k < i ==> buf@[k] == (full[k] ^ nonce@[k % (n as int)]) as u8,
            forall|k: int| i <= k < buf@.len() ==> buf@[k] == full[k],
        decreases buf@.len() - i,
    {
        let x = buf[i] ^ nonce[i % n];
        buf.set(i, x);
        i = i + 1;
    }
    proof {
        assert(buf@ =~= scrambled_password(pass@, nonce@));
    }
    buf
}

} // verus!
