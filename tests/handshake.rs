use mysql_conn::auth::{read_auth_switch, read_handshake};
use mysql_conn::error::DriverError;
use mysql_conn::handshake::{
    auth_step, cleartext_password, client_flags, plan_handshake, scramble_password, select_plugin,
    AuthPlugin, AuthStep, HandshakeOptions,
};

const BASE_FLAGS: u32 = 0x001F_A281;

fn handshake_packet(protocol: u8, caps: u32, plugin: &[u8]) -> Vec<u8> {
    let mut p = vec![protocol];
    p.extend_from_slice(b"8.0.19\0");
    p.extend_from_slice(&7u32.to_le_bytes());
    p.extend_from_slice(b"abcdefgh");
    p.push(0);
    p.extend_from_slice(&((caps & 0xffff) as u16).to_le_bytes());
    p.push(45);
    p.extend_from_slice(&2u16.to_le_bytes());
    p.extend_from_slice(&((caps >> 16) as u16).to_le_bytes());
    p.push(21);
    p.extend_from_slice(&[0u8; 10]);
    p.extend_from_slice(b"ijklmnopqrst");
    p.push(0);
    p.extend_from_slice(plugin);
    p.push(0);
    p
}

fn opts(tls: bool) -> HandshakeOptions {
    HandshakeOptions { compress: false, has_db_name: false, tls, additional_capabilities: 0 }
}

#[test]
fn reads_a_handshake_packet() {
    let caps = 0x0008_A200;
    let info = read_handshake(&handshake_packet(10, caps, b"caching_sha2_password")).unwrap();
    assert_eq!(info.protocol_version, 10);
    assert_eq!(info.capabilities, caps);
    assert_eq!(info.connection_id, 7);
    assert_eq!(info.collation, 45);
    assert_eq!(info.status_flags, 2);
    assert_eq!(info.server_version, Some((8, 0, 19)));
    assert_eq!(info.mariadb_version, None);
    assert_eq!(info.nonce, b"abcdefghijklmnopqrst".to_vec());
    assert_eq!(info.auth_plugin, Some(b"caching_sha2_password".to_vec()));
}

#[test]
fn refuses_a_scramble_length_that_overflows() {
    let mut p = handshake_packet(10, 0x0008_A200, b"mysql_native_password");
    let offset = 1 + 7 + 4 + 8 + 1 + 2 + 1 + 2 + 2;
    assert_eq!(p[offset], 21);
    p[offset] = 130;
    assert_eq!(read_handshake(&p), Err(DriverError::UnexpectedPacket));
}

#[test]
fn client_flags_combine_options() {
    assert_eq!(client_flags(0, &opts(false), true), BASE_FLAGS);
    let o = HandshakeOptions {
        compress: true,
        has_db_name: true,
        tls: true,
        additional_capabilities: 0x2,
    };
    assert_eq!(client_flags(0x4, &o, true), BASE_FLAGS | 0x4 | 0x20 | 0x8 | 0x800 | 0x2);
    assert_eq!(client_flags(0, &o, false), BASE_FLAGS | 0x20 | 0x8 | 0x2);
}

#[test]
fn plan_intersects_capabilities() {
    let info = read_handshake(&handshake_packet(10, 0x0008_A200, b"mysql_native_password")).unwrap();
    let plan = plan_handshake(&info, &opts(false), true).unwrap();
    assert_eq!(plan.capabilities, 0x0008_A200 & BASE_FLAGS);
    assert!(!plan.ssl_request);
    assert_eq!(plan.plugin, AuthPlugin::MysqlNativePassword);
}

#[test]
fn plan_rejects_bad_handshakes() {
    let v9 = read_handshake(&handshake_packet(9, 0x0008_A200, b"mysql_native_password")).unwrap();
    assert_eq!(plan_handshake(&v9, &opts(false), true), Err(DriverError::UnsupportedProtocol(9)));
    let no41 = read_handshake(&handshake_packet(10, 0x0008_8000, b"mysql_native_password")).unwrap();
    assert_eq!(plan_handshake(&no41, &opts(false), true), Err(DriverError::Protocol41NotSet));
    let plain = read_handshake(&handshake_packet(10, 0x0008_A200, b"mysql_native_password")).unwrap();
    assert_eq!(plan_handshake(&plain, &opts(true), true), Err(DriverError::TlsNotSupported));
    let tls = read_handshake(&handshake_packet(10, 0x0008_AA00, b"mysql_native_password")).unwrap();
    assert!(plan_handshake(&tls, &opts(true), true).unwrap().ssl_request);
    assert!(!plan_handshake(&tls, &opts(true), false).unwrap().ssl_request);
    let other = read_handshake(&handshake_packet(10, 0x0008_A200, b"sha256_password")).unwrap();
    assert_eq!(
        plan_handshake(&other, &opts(false), true),
        Err(DriverError::UnknownAuthPlugin(b"sha256_password".to_vec()))
    );
}

#[test]
fn plugin_defaults_to_native() {
    assert_eq!(select_plugin(&None), Ok(AuthPlugin::MysqlNativePassword));
    assert_eq!(
        select_plugin(&Some(b"caching_sha2_password".to_vec())),
        Ok(AuthPlugin::CachingSha2Password)
    );
}

#[test]
fn native_auth_steps() {
    let p = AuthPlugin::MysqlNativePassword;
    assert_eq!(auth_step(p, false, &vec![0, 0, 0, 2, 0, 0, 0], false), Ok(AuthStep::AcceptOk));
    assert_eq!(auth_step(p, false, &vec![0xfe, b'x', 0], false), Ok(AuthStep::Switch));
    assert_eq!(auth_step(p, true, &vec![0xfe, b'x', 0], false), Err(DriverError::UnexpectedPacket));
    assert_eq!(auth_step(p, false, &vec![0x01, 0x03], false), Err(DriverError::UnexpectedPacket));
    assert_eq!(auth_step(p, false, &Vec::new(), false), Err(DriverError::UnexpectedPacket));
}

#[test]
fn caching_sha2_auth_steps() {
    let p = AuthPlugin::CachingSha2Password;
    assert_eq!(auth_step(p, false, &vec![0], false), Ok(AuthStep::Finished));
    assert_eq!(auth_step(p, false, &vec![1, 3], false), Ok(AuthStep::ReadOk));
    assert_eq!(auth_step(p, false, &vec![1, 4], true), Ok(AuthStep::SendPassword));
    assert_eq!(auth_step(p, false, &vec![1, 4], false), Ok(AuthStep::RequestPublicKey));
    assert_eq!(auth_step(p, false, &vec![1, 5], false), Err(DriverError::UnexpectedPacket));
    assert_eq!(auth_step(p, false, &vec![1], false), Err(DriverError::UnexpectedPacket));
    assert_eq!(auth_step(p, true, &vec![0xfe], false), Err(DriverError::UnexpectedPacket));
}

#[test]
fn password_forms() {
    assert_eq!(cleartext_password(&b"pw".to_vec()), b"pw\0".to_vec());
    let x = scramble_password(&vec![1u8, 2, 3], &vec![0xffu8, 0x0f]);
    assert_eq!(x, vec![1 ^ 0xff, 2 ^ 0x0f, 3 ^ 0xff, 0 ^ 0x0f]);
}

#[test]
fn reads_an_auth_switch() {
    let mut p = vec![0xfeu8];
    p.extend_from_slice(b"mysql_native_password\0");
    p.extend_from_slice(b"0123456789abcdefghij\0");
    let (plugin, nonce) = read_auth_switch(&p).unwrap();
    assert_eq!(plugin, AuthPlugin::MysqlNativePassword);
    assert_eq!(nonce, b"0123456789abcdefghij".to_vec());
    let mut short = vec![0xfeu8];
    short.extend_from_slice(b"mysql_native_password\0");
    assert_eq!(read_auth_switch(&short), Err(DriverError::UnexpectedPacket));
    let mut other = vec![0xfeu8];
    other.extend_from_slice(b"dialog\0xy");
    assert_eq!(read_auth_switch(&other), Err(DriverError::UnknownAuthPlugin(b"dialog".to_vec())));
}

#[test]
fn refuses_a_non_ascii_server_version() {
    let mut p = handshake_packet(10, 0x0008_A200, b"mysql_native_password");
    p[1] = 0xd9;
    p.insert(2, 0xa1);
    assert_eq!(read_handshake(&p), Err(DriverError::UnexpectedPacket));
}
