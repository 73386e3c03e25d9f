use mysql_conn::attrs::merge_attrs;
use mysql_conn::auth::{auth_switch_reply, handshake_response_packet, ssl_request_packet};
use mysql_conn::conn::{improved_socket, should_query_socket, Conn, ResetKind};
use mysql_conn::error::DriverError;
use mysql_conn::handshake::{AuthPlugin, HandshakeOptions};
use mysql_conn::result_set::{
    classify_response, infile_chunk_size, is_err_packet, is_rows_terminator, local_infile_name, read_ok,
    OkInfo, ResponseKind,
};
use mysql_common::value::convert::from_value;
use mysql_common::value::Value;
use mysql_conn::rows::{read_column, RowOutcome};
use mysql_conn::stmt_cache::StmtInfo;
use mysql_conn::transaction::{plan_transaction, AccessMode, IsolationLevel, TxOpts, TxStep};

fn ok_with(affected: u64, insert_id: Option<u64>, status: u16, warnings: u16, info: Option<&[u8]>) -> OkInfo {
    OkInfo {
        affected_rows: affected,
        last_insert_id: insert_id,
        status_flags: status,
        warnings,
        info: info.map(|i| i.to_vec()),
    }
}

#[test]
fn parses_ok_packets() {
    let ok = read_ok(&vec![0x00, 0x01, 0x05, 0x02, 0x00, 0x03, 0x00], 0x200, false).unwrap();
    assert_eq!(ok, ok_with(1, Some(5), 2, 3, None));
    let with_info = read_ok(&vec![0x00, 0x00, 0x00, 0x02, 0x00, 0x00, 0x00, 0x03, b'a', b'b', b'c'], 0x200, false).unwrap();
    assert_eq!(with_info, ok_with(0, None, 2, 0, Some(b"abc")));
    let eof = read_ok(&vec![0xfe, 0x01, 0x00, 0x22, 0x00], 0x200, true).unwrap();
    assert_eq!(eof, ok_with(0, None, 0x22, 1, None));
    assert_eq!(read_ok(&vec![0x01, 0x00], 0x200, false), Err(DriverError::UnexpectedPacket));
    assert_eq!(read_ok(&vec![0x00, 0x00, 0x00, 0x02, 0x00, 0x00, 0x00], 0x0080_0200, false), Err(DriverError::UnexpectedPacket));
}

#[test]
fn classifies_responses() {
    assert_eq!(classify_response(&vec![0x00, 0, 0, 2, 0, 0, 0]), Ok(ResponseKind::OkPacket));
    assert_eq!(classify_response(&vec![0xfb, b'x']), Ok(ResponseKind::LocalInfile));
    assert_eq!(classify_response(&vec![0x03]), Ok(ResponseKind::Columns(3)));
    assert_eq!(classify_response(&vec![0xfc, 0x00, 0x01]), Ok(ResponseKind::Columns(256)));
    assert_eq!(classify_response(&Vec::new()), Err(DriverError::UnexpectedPacket));
    assert!(is_err_packet(&vec![0xff, 0x15, 0x04]));
    assert!(is_rows_terminator(&vec![0xfe, 0, 0, 2, 0]));
    assert!(!is_rows_terminator(&vec![0xfeu8; 0xfe]));
    assert_eq!(local_infile_name(&vec![0xfb, b'f', b'o', b'o']), b"foo".to_vec());
}

#[test]
fn infile_chunks_follow_max_allowed_packet() {
    assert_eq!(infile_chunk_size(1024), 1020);
    assert_eq!(infile_chunk_size(64 * 1024 * 1024), 16_777_211);
}

#[test]
fn getters_read_the_last_ok() {
    let mut conn = Conn::empty(2);
    assert_eq!(conn.affected_rows(), 0);
    assert_eq!(conn.last_insert_id(), 0);
    assert_eq!(conn.warnings(), 0);
    assert_eq!(conn.info_ref(), &[] as &[u8]);
    assert_eq!(conn.info_str(), "");
    conn.handle_ok(ok_with(3, Some(9), 0x0200, 1, Some(b"Rows matched: 3")));
    assert_eq!(conn.affected_rows(), 3);
    assert_eq!(conn.last_insert_id(), 9);
    assert_eq!(conn.warnings(), 1);
    assert_eq!(conn.info_ref(), b"Rows matched: 3");
    assert_eq!(conn.info_str(), "Rows matched: 3");
    assert!(conn.no_backslash_escape());
    assert!(!conn.more_results_exists());
    conn.handle_err();
    assert_eq!(conn.affected_rows(), 0);
}

#[test]
fn commands_forget_the_last_ok() {
    let mut conn = Conn::empty(0);
    conn.handle_ok(ok_with(1, None, 0, 0, None));
    let body = conn.write_command(0x03, b"SELECT 1");
    assert_eq!(body, b"\x03SELECT 1".to_vec());
    assert_eq!(conn.affected_rows(), 0);
}

#[test]
fn max_allowed_packet_must_be_positive() {
    let mut conn = Conn::empty(0);
    assert_eq!(conn.handle_max_allowed_packet(Some(0)), Err(DriverError::SetupError));
    assert_eq!(conn.handle_max_allowed_packet(None), Err(DriverError::SetupError));
    assert!(!conn.is_connected());
    assert_eq!(conn.handle_max_allowed_packet(Some(4 * 1024 * 1024)), Ok(()));
    assert!(conn.is_connected());
    assert_eq!(conn.max_allowed_packet(), 4 * 1024 * 1024);
}

#[test]
fn text_rows_then_terminator() {
    let mut conn = Conn::empty(0);
    conn.handle_columns(1);
    assert!(conn.has_results());
    match conn.next_text_row(&vec![0x01, b'a'], 1).unwrap() {
        RowOutcome::Row(v) => assert_eq!(v, vec![Value::Bytes(b"a".to_vec())]),
        RowOutcome::Done => panic!("expected a row"),
    }
    assert!(matches!(conn.next_text_row(&vec![0xfe, 0, 0, 0x0a, 0], 1).unwrap(), RowOutcome::Done));
    assert!(!conn.has_results());
    assert!(conn.more_results_exists());
}

#[test]
fn binary_row_needs_its_null_bitmap() {
    let mut conn = Conn::empty(0);
    conn.handle_columns(1);
    let columns = Vec::new();
    assert!(matches!(conn.next_binary_row(&vec![0x00], &columns), Err(DriverError::UnexpectedPacket)));
    assert!(matches!(conn.next_binary_row(&vec![0x00, 0x00], &columns).unwrap(), RowOutcome::Row(v) if v.is_empty()));
}

#[test]
fn err_packet_clears_results() {
    let mut conn = Conn::empty(0);
    conn.handle_columns(2);
    let mut pld = vec![0xff, 0x7a, 0x04, b'#'];
    pld.extend_from_slice(b"42S02Table missing");
    let err = conn.handle_err_packet(&pld).unwrap();
    assert_eq!(err.code, 1146);
    assert_eq!(err.state, b"42S02".to_vec());
    assert_eq!(err.message, b"Table missing".to_vec());
    assert!(!conn.has_results());
}

#[test]
fn reset_kind_follows_server_version() {
    assert_eq!(Conn::empty(0).reset_kind(), ResetKind::Hard);
    let mut conn = Conn::empty(0);
    let hs = mysql_conn::handshake::HandshakeInfo {
        protocol_version: 10,
        capabilities: 0,
        status_flags: 0,
        connection_id: 5,
        collation: 45,
        server_version: Some((5, 7, 4)),
        mariadb_version: None,
        nonce: vec![1; 20],
        auth_plugin: None,
    };
    let plan = mysql_conn::handshake::HandshakePlan {
        capabilities: 0x200,
        ssl_request: false,
        plugin: AuthPlugin::MysqlNativePassword,
    };
    conn.handle_handshake(&hs, &plan);
    assert_eq!(conn.connection_id(), 5);
    assert_eq!(conn.reset_kind(), ResetKind::Soft);
    let older = mysql_conn::handshake::HandshakeInfo { server_version: Some((5, 7, 3)), ..hs.clone() };
    conn.handle_handshake(&older, &plan);
    assert_eq!(conn.reset_kind(), ResetKind::Hard);
    let maria = mysql_conn::handshake::HandshakeInfo {
        server_version: Some((5, 5, 5)),
        mariadb_version: Some((10, 2, 7)),
        ..hs
    };
    conn.handle_handshake(&maria, &plan);
    assert_eq!(conn.reset_kind(), ResetKind::Soft);
}

#[test]
fn soft_reset_clears_affected_rows_and_cache() {
    let mut conn = Conn::empty(2);
    conn.handle_ok(ok_with(7, None, 0, 0, None));
    conn.cache_stmt("DO 1".to_string(), StmtInfo { id: 1, num_columns: 0, num_params: 0, connection_id: 0 });
    conn.handle_soft_reset(ok_with(0, None, 2, 0, None));
    assert_eq!(conn.affected_rows(), 0);
    assert!(!conn.has_stmt(&"DO 1".to_string()));
    conn.clear_session();
    assert_eq!(conn.connection_id(), 0);
}

#[test]
fn prepare_answer_becomes_a_statement() {
    let conn = Conn::empty(0);
    let pld = vec![0x00, 0x04, 0x03, 0x02, 0x01, 0x02, 0x00, 0x01, 0x00, 0x00, 0x00, 0x00];
    let st = conn.stmt_from_prepare_ok(&pld).unwrap();
    assert_eq!(st, StmtInfo { id: 0x0102_0304, num_columns: 2, num_params: 1, connection_id: 0 });
    assert_eq!(conn.stmt_from_prepare_ok(&pld[..11].to_vec()), Err(DriverError::UnexpectedPacket));
}

#[test]
fn transaction_plans() {
    let opts = TxOpts {
        with_consistent_snapshot: true,
        isolation_level: Some(IsolationLevel::ReadCommitted),
        access_mode: Some(AccessMode::ReadOnly),
    };
    let steps = plan_transaction(opts, Some((5, 6, 5)), None).unwrap();
    let sql: Vec<&str> = steps.iter().map(|s| s.sql()).collect();
    assert_eq!(
        sql,
        vec![
            "SET TRANSACTION ISOLATION LEVEL READ COMMITTED",
            "SET TRANSACTION READ ONLY",
            "START TRANSACTION WITH CONSISTENT SNAPSHOT"
        ]
    );
    assert_eq!(plan_transaction(opts, Some((5, 6, 4)), None), Err(DriverError::ReadOnlyTransNotSupported));
    assert!(plan_transaction(opts, None, Some((10, 0, 0))).is_ok());
    let plain = TxOpts { with_consistent_snapshot: false, isolation_level: None, access_mode: None };
    assert_eq!(plan_transaction(plain, None, None), Ok(vec![TxStep::Start]));
}

#[test]
fn socket_upgrade_decisions() {
    assert!(should_query_socket(true, true));
    assert!(!should_query_socket(true, false));
    assert_eq!(improved_socket(&None, Some("/tmp/mysql.sock".into())), Some("/tmp/mysql.sock".to_string()));
    assert_eq!(improved_socket(&None, Some(String::new())), None);
    assert_eq!(improved_socket(&Some("/a".into()), Some("/b".into())), None);
    assert_eq!(improved_socket(&None, None), None);
}

#[test]
fn user_attributes_override_defaults() {
    let defaults = vec![
        ("_client_name".to_string(), "rust-mysql-simple".to_string()),
        ("program_name".to_string(), "prog".to_string()),
    ];
    let user = vec![
        ("program_name".to_string(), "my program name".to_string()),
        ("foo".to_string(), "foo val".to_string()),
    ];
    let merged = merge_attrs(&defaults, &user);
    assert_eq!(
        merged,
        vec![
            ("_client_name".to_string(), "rust-mysql-simple".to_string()),
            ("program_name".to_string(), "my program name".to_string()),
            ("foo".to_string(), "foo val".to_string()),
        ]
    );
}

#[test]
fn ssl_request_announces_client_flags() {
    let opts = HandshakeOptions { compress: false, has_db_name: false, tls: true, additional_capabilities: 0 };
    let r = ssl_request_packet(0, &opts, true);
    assert_eq!(r.len(), 32);
    assert_eq!(&r[0..4], &(0x001F_A281u32 | 0x800).to_le_bytes()[..]);
    assert_eq!(&r[4..9], &[0, 0, 0x10, 0, 33][..]);
}

#[test]
fn handshake_response_starts_with_capabilities() {
    let r = handshake_response_packet(
        AuthPlugin::MysqlNativePassword,
        Some("secret"),
        b"abcdefghijklmnopqrst",
        Some((8, 0, 19)),
        Some("root"),
        Some("mysql"),
        0x000F_A281,
        &vec![("_client_name".to_string(), "x".to_string())],
    );
    assert_eq!(&r[0..4], &(0x000F_A281u32 | 0x8).to_le_bytes()[..]);
    assert_eq!(&r[4..8], &[0, 0, 0, 1][..]);
    assert_eq!(r[8], 45);
    assert_eq!(&r[32..37], b"root\0");
    assert_eq!(r[37], 20);
}

#[test]
fn auth_switch_reply_scrambles() {
    let native = auth_switch_reply(AuthPlugin::MysqlNativePassword, Some("pw"), b"01234567890123456789");
    assert_eq!(native.len(), 20);
    let sha2 = auth_switch_reply(AuthPlugin::CachingSha2Password, Some("pw"), b"01234567890123456789");
    assert_eq!(sha2.len(), 32);
    assert_ne!(native, b"pw".to_vec());
    assert!(auth_switch_reply(AuthPlugin::MysqlNativePassword, Some(""), b"0123").is_empty());
    assert!(auth_switch_reply(AuthPlugin::MysqlNativePassword, None, b"0123").is_empty());
}

fn column_definition(name: &[u8], charset: u16, column_type: u8, flags: u16) -> Vec<u8> {
    let mut p = Vec::new();
    for part in [&b"def"[..], b"db", b"t", b"t", name, name] {
        p.push(part.len() as u8);
        p.extend_from_slice(part);
    }
    p.push(0x0c);
    p.extend_from_slice(&charset.to_le_bytes());
    p.extend_from_slice(&255u32.to_le_bytes());
    p.push(column_type);
    p.extend_from_slice(&flags.to_le_bytes());
    p.push(0);
    p.extend_from_slice(&[0, 0]);
    p
}

#[test]
fn text_and_binary_rows_agree() {
    let columns = vec![
        read_column(column_definition(b"vb", 63, 0xfd, 0x0080)).unwrap(),
        read_column(column_definition(b"b", 63, 0xfe, 0x0080)).unwrap(),
        read_column(column_definition(b"u", 63, 0x08, 0x0020)).unwrap(),
    ];
    let bytes = vec![0x00u8, 0xff, 0x10];
    let fixed = vec![0x41u8, 0x00];
    let max = u64::MAX.to_string().into_bytes();

    let mut text = Vec::new();
    for v in [&bytes, &fixed, &max] {
        text.push(v.len() as u8);
        text.extend_from_slice(v);
    }
    let mut binary = vec![0x00u8, 0x00];
    for v in [&bytes, &fixed] {
        binary.push(v.len() as u8);
        binary.extend_from_slice(v);
    }
    binary.extend_from_slice(&u64::MAX.to_le_bytes());

    let mut conn = Conn::empty(0);
    conn.handle_columns(3);
    let text_row = match conn.next_text_row(&text, 3).unwrap() {
        RowOutcome::Row(v) => v,
        RowOutcome::Done => panic!("expected a row"),
    };
    let bin_row = match conn.next_binary_row(&binary, &columns).unwrap() {
        RowOutcome::Row(v) => v,
        RowOutcome::Done => panic!("expected a row"),
    };
    assert_eq!(text_row[0], Value::Bytes(bytes.clone()));
    assert_eq!(bin_row[0], Value::Bytes(bytes));
    assert_eq!(text_row[1], bin_row[1]);
    assert_eq!(bin_row[2], Value::UInt(u64::MAX));
    assert_eq!(from_value::<u64>(text_row[2].clone()), u64::MAX);
}

#[test]
fn column_type_fourteen_is_refused() {
    assert_eq!(read_column(column_definition(b"d", 63, 0x0e, 0)).unwrap_err(), DriverError::UnexpectedPacket);
    assert_eq!(read_column(column_definition(b"d", 63, 0x20, 0)).unwrap_err(), DriverError::UnexpectedPacket);
    assert_eq!(read_column(vec![3, b'd', b'e']).unwrap_err(), DriverError::UnexpectedPacket);
    assert_eq!(read_column(column_definition(b"d", 63, 0x0f, 0)).unwrap().column_type(), 0x0f);
}

#[test]
fn text_row_with_wrong_field_count_is_refused() {
    let mut conn = Conn::empty(0);
    conn.handle_columns(2);
    assert!(matches!(conn.next_text_row(&vec![0x01, b'a'], 2), Err(DriverError::UnexpectedPacket)));
    assert!(matches!(conn.next_text_row(&vec![0xfb, 0x01, b'a'], 2).unwrap(), RowOutcome::Row(v) if v[0] == Value::NULL));
}
