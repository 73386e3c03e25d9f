use vstd::prelude::*;

use crate::command::le32;
use crate::conn::version_gt;
use crate::consts::CLIENT_CONNECT_WITH_DB;
use crate::error::DriverError;
use crate::handshake::{
    AuthPlugin, HandshakeInfo, HandshakeOptions, client_flags, client_flags_spec, plugin_of,
    select_plugin,
};

verus! {

/// The capability bits that mysql_common knows; it drops the others.
pub open spec fn known_caps(caps: u32) -> u32 {
    caps & 0xE1FF_FFFFu32
}

/// Where the server version of a handshake packet ends: at its terminating zero, or
/// right after the protocol version where there is none.
pub open spec fn version_end(p: Seq<u8>) -> int {
    if exists|i: int| 1 <= i < p.len() && p[i] == 0 {
        choose|i: int| 1 <= i < p.len() && p[i] == 0 && forall|k: int| 1 <= k < i ==> p[k] != 0
    } else {
        1
    }
}

/// Where the scramble length byte of a handshake packet lies: after the protocol
/// version, the null-terminated server version and the fixed fields that follow it.
pub open spec fn scramble_len_offset(p: Seq<u8>) -> int {
    version_end(p) + 21
}

/// The server version is plain ASCII. mysql_common reads the version numbers with a
/// pattern whose digits include non-ASCII ones, then parses them as ASCII and unwraps,
/// so a version with bytes from 0x80 up could make it panic.
pub open spec fn version_is_ascii(p: Seq<u8>) -> bool {
    forall|k: int| 1 <= k < version_end(p) ==> p[k] < 0x80
}

/// mysql_common's handshake parser overflows on these packets: the server offers
/// `CLIENT_SECURE_CONNECTION` and gives a scramble length from 128 to 136.
pub open spec fn handshake_overflows(p: Seq<u8>) -> bool {
    let o = scramble_len_offset(p);
    &&& o < p.len()
    &&& p[o - 6] & 0x80 == 0x80
    &&& 128 <= p[o] <= 136
}

/// What mysql_common's handshake parser reads from a packet: protocol version,
/// capabilities, status, connection id, collation, MySQL version, MariaDB version, nonce
/// and plugin name; `None` where it fails.
pub uninterp spec fn handshake_of(p: Seq<u8>) -> Option<
    (u8, u32, u16, u32, u8, Option<(u16, u16, u16)>, Option<(u16, u16, u16)>, Seq<u8>, Option<Seq<u8>>),
>;

pub open spec fn handshake_fields(h: HandshakeInfo) -> (
    u8,
    u32,
    u16,
    u32,
    u8,
    Option<(u16, u16, u16)>,
    Option<(u16, u16, u16)>,
    Seq<u8>,
    Option<Seq<u8>>,
) {
    (
        h.protocol_version,
        h.capabilities,
        h.status_flags,
        h.connection_id,
        h.collation,
        h.server_version,
        h.mariadb_version,
        h.nonce@,
        crate::handshake::bytes_view(h.auth_plugin),
    )
}

/// Relies on `mysql_common::packets::parse_handshake_packet`: the protocol version is the
/// first byte and the nonce holds at least the eight bytes of the first scramble part.
#[verifier::external_body]
fn parse_handshake(p: &Vec<u8>) -> (r: Option<HandshakeInfo>)
    requires
        !handshake_overflows(p@),
        version_is_ascii(p@),
    ensures
        match r {
            Some(h) => handshake_of(p@) == Some(handshake_fields(h)),
            None => handshake_of(p@).is_none(),
        },
        r.is_some() ==> p@.len() > 0 && r.unwrap().protocol_version == p@[0] && r.unwrap().nonce@.len()
            >= 8,
{
    let hp = mysql_common::packets::parse_handshake_packet(p).ok()?;
    Some(HandshakeInfo {
        protocol_version: hp.protocol_version(),
        capabilities: hp.capabilities().bits(),
        status_flags: hp.status_flags().bits(),
        connection_id: hp.connection_id(),
        collation: hp.default_collation(),
        server_version: hp.server_version_parsed(),
        mariadb_version: hp.maria_db_server_version_parsed(),
        nonce: hp.nonce(),
        auth_plugin: hp.auth_plugin_name_ref().map(|n| n.to_vec()),
    })
}

fn version_end_exec(p: &Vec<u8>) -> (r: usize)
    requires
        p@.len() < usize::MAX - 22,
    ensures
        r == version_end(p@),
        r >= 1,
        r <= p@.len() || r == 1,
{
    let mut i: usize = 1;
    while i < p.len() && p[i] != 0
        invariant
            1 <= i,
            i <= p@.len() || p@.len() == 0,
            forall|k: int| 1 <= k < i ==> p@[k] != 0,
        decreases p@.len() - i,
    {
        i = i + 1;
    }
    proof {
        if i < p@.len() {
            let c = choose|j: int| 1 <= j < p@.len() && p@[j] == 0 && forall|k: int|
                1 <= k < j ==> p@[k] != 0;
            assert(p@[i as int] == 0);
            if c < i {
                assert(p@[c] != 0);
            }
            if i < c {
                assert(p@[i as int] != 0);
            }
        } else {
            assert(!(exists|j: int| 1 <= j < p@.len() && p@[j] == 0));
        }
    }
    if i < p.len() {
        i
    } else {
        1
    }
}

fn version_ascii_exec(p: &Vec<u8>, end: usize) -> (r: bool)
    requires
        end == version_end(p@),
        end >= 1,
        end <= p@.len() || end == 1,
    ensures
        r == version_is_ascii(p@),
{
    let mut k: usize = 1;
    while k < end
        invariant
            1 <= k <= end,
            end <= p@.len() || end == 1,
            end == version_end(p@),
            forall|j: int| 1 <= j < k ==> p@[j] < 0x80,
        decreases end - k,
    {
        if p[k] >= 0x80 {
            return false;
        }
        k = k + 1;
    }
    true
}

/// Reads the server's initial handshake packet. A server version with bytes from 0x80 up
/// is refused as unexpected.
pub fn read_handshake(p: &Vec<u8>) -> (r: Result<HandshakeInfo, DriverError>)
    requires
        p@.len() < usize::MAX - 22,
    ensures
        handshake_overflows(p@) || !version_is_ascii(p@) ==> r == Err::<HandshakeInfo, DriverError>(
            DriverError::UnexpectedPacket,
        ),
        !handshake_overflows(p@) && version_is_ascii(p@) ==> match handshake_of(p@) {
            Some(f) => r.is_ok() && handshake_fields(r.unwrap()) == f,
            None => r == Err::<HandshakeInfo, DriverError>(DriverError::UnexpectedPacket),
        },
{
    let end = version_end_exec(p);
    if !version_ascii_exec(p, end) {
        return Err(DriverError::UnexpectedPacket);
    }
    let o = end + 21;
    if o < p.len() && p[o - 6] & 0x80 == 0x80 && 128 <= p[o] && p[o] <= 136 {
        return Err(DriverError::UnexpectedPacket);
    }
    match parse_handshake(p) {
        Some(h) => Ok(h),
        None => Err(DriverError::UnexpectedPacket),
    }
}

/// The scramble that a plugin computes from a non-empty password and a nonce (SHA-1 based
/// for the native plugin, SHA-256 based for the caching one).
pub uninterp spec fn scramble_of(sha2: bool, pass: Seq<char>, nonce: Seq<u8>) -> Seq<u8>;

/// Relies on `mysql_common::packets::AuthPlugin::gen_data`: nothing without a password or
/// with an empty one; otherwise a scramble of 20 bytes (native) or 32 bytes (caching).
#[verifier::external_body]
pub(crate) fn auth_data(plugin: AuthPlugin, pass: Option<&str>, nonce: &[u8]) -> (r: Option<Vec<u8>>)
    ensures
        match pass {
            None => r.is_none(),
            Some(s) => if s@.len() == 0 {
                r.is_none()
            } else {
                r.is_some() && r.unwrap()@ == scramble_of(
                    plugin == AuthPlugin::CachingSha2Password,
                    s@,
                    nonce@,
                ) && r.unwrap()@.len() == if plugin == AuthPlugin::CachingSha2Password {
                    32nat
                } else {
                    20nat
                }
            },
        },
{
    let p = match plugin {
        AuthPlugin::MysqlNativePassword => mysql_common::packets::AuthPlugin::MysqlNativePassword,
        AuthPlugin::CachingSha2Password => mysql_common::packets::AuthPlugin::CachingSha2Password,
    };
    p.gen_data(pass, nonce)
}

/// The SSL request: capabilities, a maximum packet size of 1 MiB, the utf8 collation and
/// 23 reserved zero bytes.
pub open spec fn ssl_request_body(caps: u32) -> Seq<u8> {
    le32(known_caps(caps)) + le32(1048576) + seq![33u8] + Seq::new(23, |i: int| 0u8)
}

/// Relies on `mysql_common::packets::SslRequest::new`, which writes the fields above.
#[verifier::external_body]
pub(crate) fn ssl_request(caps: u32) -> (r: Vec<u8>)
    ensures
        r@ == ssl_request_body(caps),
{
    let flags = mysql_common::constants::CapabilityFlags::from_bits_truncate(caps);
    mysql_common::packets::SslRequest::new(flags).into()
}

/// The collation a handshake response asks for: utf8mb4 from server 5.5.3 on, else utf8.
pub open spec fn response_collation(server_version: (u16, u16, u16)) -> u8 {
    if version_gt((5, 5, 3), server_version) {
        33
    } else {
        45
    }
}

/// Relies on `mysql_common::packets::HandshakeResponse::new`: the response starts with the
/// capabilities (plus `CLIENT_CONNECT_WITH_DB` when a schema is named), a maximum packet
/// size of 16 MiB, the collation and 23 zero bytes; the attributes follow in the map's own
/// order.
#[verifier::external_body]
pub(crate) fn handshake_response(
    scramble: &Option<Vec<u8>>,
    server_version: (u16, u16, u16),
    user: Option<&str>,
    db_name: Option<&str>,
    plugin: AuthPlugin,
    caps: u32,
    attrs: &Vec<(String, String)>,
) -> (r: Vec<u8>)
    ensures
        r@.len() >= 32,
        r@.subrange(0, 4) == le32(
            known_caps(
                if db_name.is_some() {
                    caps | CLIENT_CONNECT_WITH_DB
                } else {
                    caps
                },
            ),
        ),
        r@.subrange(4, 8) == seq![0u8, 0u8, 0u8, 1u8],
        r@[8] == response_collation(server_version),
        r@.subrange(9, 32) == Seq::new(23, |i: int| 0u8),
{
    let p = match plugin {
        AuthPlugin::MysqlNativePassword => mysql_common::packets::AuthPlugin::MysqlNativePassword,
        AuthPlugin::CachingSha2Password => mysql_common::packets::AuthPlugin::CachingSha2Password,
    };
    let flags = mysql_common::constants::CapabilityFlags::from_bits_truncate(caps);
    let map: std::collections::HashMap<String, String> = attrs.iter().cloned().collect();
    mysql_common::packets::HandshakeResponse::new(scramble, server_version, user, db_name, &p, flags, &map).into()
}

/// mysql_common's auth-switch parser indexes past the end of these packets: the plugin
/// name's terminating zero is the last byte.
pub open spec fn auth_switch_overflows(p: Seq<u8>) -> bool {
    &&& p.len() >= 2
    &&& p[0] == 0xfe
    &&& p[p.len() - 1] == 0
    &&& forall|k: int| 1 <= k < p.len() - 1 ==> p[k] != 0
}

/// What mysql_common's auth-switch parser reads: the plugin name and the plugin data;
/// `None` where it fails.
pub uninterp spec fn auth_switch_of(p: Seq<u8>) -> Option<(Seq<u8>, Seq<u8>)>;

/// Relies on `mysql_common::packets::parse_auth_switch_request`, which needs the 0xfe
/// header.
#[verifier::external_body]
fn parse_auth_switch(p: &Vec<u8>) -> (r: Option<(Vec<u8>, Vec<u8>)>)
    requires
        !auth_switch_overflows(p@),
    ensures
        match r {
            Some((name, data)) => auth_switch_of(p@) == Some((name@, data@)),
            None => auth_switch_of(p@).is_none(),
        },
        r.is_some() ==> p@.len() > 0 && p@[0] == 0xfe,
{
    let req = mysql_common::packets::parse_auth_switch_request(p).ok()?;
    Some((req.auth_plugin().as_bytes().to_vec(), req.plugin_data().to_vec()))
}

/// Reads an auth-switch request: the plugin to continue with and its nonce.
pub fn read_auth_switch(p: &Vec<u8>) -> (r: Result<(AuthPlugin, Vec<u8>), DriverError>)
    ensures
        auth_switch_overflows(p@) ==> r == Err::<(AuthPlugin, Vec<u8>), DriverError>(
            DriverError::UnexpectedPacket,
        ),
        !auth_switch_overflows(p@) ==> match auth_switch_of(p@) {
            None => r == Err::<(AuthPlugin, Vec<u8>), DriverError>(DriverError::UnexpectedPacket),
            Some((name, data)) => match plugin_of(Some(name)) {
                Some(pl) => r.is_ok() && r.unwrap().0 == pl && r.unwrap().1@ == data,
                None => match r {
                    Err(DriverError::UnknownAuthPlugin(v)) => v@ == name,
                    _ => false,
                },
            },
        },
{
    let n = p.len();
    if n >= 2 && p[0] == 0xfe && p[n - 1] == 0 {
        let mut k: usize = 1;
        while k < n - 1 && p[k] != 0
            invariant
                n == p@.len(),
                n >= 2,
                1 <= k <= n - 1,
                forall|j: int| 1 <= j < k ==> p@[j] != 0,
            decreases n - k,
        {
            k = k + 1;
        }
        if k == n - 1 {
            return Err(DriverError::UnexpectedPacket);
        }
    }
    match parse_auth_switch(p) {
        None => Err(DriverError::UnexpectedPacket),
        Some((name, data)) => {
            let plugin = select_plugin(&Some(name))?;
            Ok((plugin, data))
        },
    }
}

/// The SSL request written before the TLS upgrade: it announces the client's capabilities.
pub fn ssl_request_packet(server_caps: u32, opts: &HandshakeOptions, insecure: bool) -> (r: Vec<u8>)
    ensures
        r@ == ssl_request_body(client_flags_spec(server_caps, *opts, insecure)),
{
    ssl_request(client_flags(server_caps, opts, insecure))
}

/// The handshake response: capabilities in effect, the plugin's scramble of the password
/// over the nonce, the identity, the plugin name and the connection attributes.
pub fn handshake_response_packet(
    plugin: AuthPlugin,
    pass: Option<&str>,
    nonce: &[u8],
    server_version: Option<(u16, u16, u16)>,
    user: Option<&str>,
    db_name: Option<&str>,
    caps: u32,
    attrs: &Vec<(String, String)>,
) -> (r: Vec<u8>)
    ensures
        r@.len() >= 32,
        r@.subrange(0, 4) == le32(
            known_caps(
                if db_name.is_some() {
                    caps | CLIENT_CONNECT_WITH_DB
                } else {
                    caps
                },
            ),
        ),
        r@[8] == response_collation(
            match server_version {
                Some(v) => v,
                None => (0, 0, 0),
            },
        ),
{
    let scramble = auth_data(plugin, pass, nonce);
    let version = match server_version {
        Some(v) => v,
        None => (0, 0, 0),
    };
    handshake_response(&scramble, version, user, db_name, plugin, caps, attrs)
}

/// The reply to an auth-switch request: the new plugin's scramble of the password over the
/// new nonce, empty without a password.
pub fn auth_switch_reply(plugin: AuthPlugin, pass: Option<&str>, nonce: &[u8]) -> (r: Vec<u8>)
    ensures
        match pass {
            Some(s) => if s@.len() == 0 {
                r@.len() == 0
            } else {
                r@ == scramble_of(plugin == AuthPlugin::CachingSha2Password, s@, nonce@)
            },
            None => r@.len() == 0,
        },
{
    match auth_data(plugin, pass, nonce) {
        Some(d) => d,
        None => Vec::new(),
    }
}

} // verus!
