use mysql_common::value::Value;
use mysql_conn::command::{command, long_data_packets};
use mysql_conn::error::DriverError;
use mysql_conn::params::{execute_request, execute_values, positional_order, split_named_params, Params, Statement};
use mysql_conn::stmt_cache::StmtInfo;

fn stmt(num_params: u16, names: Option<Vec<&str>>) -> Statement {
    Statement {
        info: StmtInfo { id: 0x0102_0304, num_columns: 1, num_params, connection_id: 1 },
        named_params: names.map(|n| n.into_iter().map(String::from).collect()),
    }
}

fn named(pairs: &[(&str, i64)]) -> Params {
    Params::Named(pairs.iter().map(|(n, v)| (n.to_string(), Value::Int(*v))).collect())
}

#[test]
fn should_work_with_named_params() {
    let (names, query) = split_named_params("SELECT :a, :b, :a, :c").unwrap();
    assert_eq!(query, "SELECT ?, ?, ?, ?");
    let names = names.unwrap();
    assert_eq!(names, vec!["a", "b", "a", "c"]);
    let st = Statement {
        info: StmtInfo { id: 1, num_columns: 4, num_params: 4, connection_id: 1 },
        named_params: Some(names),
    };
    let values = execute_values(&st, named(&[("a", 1), ("b", 2), ("c", 3)])).unwrap();
    assert_eq!(values, vec![Value::Int(1), Value::Int(2), Value::Int(1), Value::Int(3)]);

    let (names, query) = split_named_params("SELECT :a, :b, :a + :b, :c").unwrap();
    assert_eq!(query, "SELECT ?, ?, ? + ?, ?");
    let st = Statement {
        info: StmtInfo { id: 2, num_columns: 4, num_params: 5, connection_id: 1 },
        named_params: names,
    };
    let values = execute_values(&st, named(&[("a", 1), ("b", 2), ("c", 3)])).unwrap();
    assert_eq!(
        values,
        vec![Value::Int(1), Value::Int(2), Value::Int(1), Value::Int(2), Value::Int(3)]
    );
}

#[test]
fn should_return_error_on_missing_named_parameter() {
    let (names, _) = split_named_params("SELECT :a, :b, :a, :c, :d").unwrap();
    let st = Statement {
        info: StmtInfo { id: 1, num_columns: 5, num_params: 5, connection_id: 1 },
        named_params: names,
    };
    let err = execute_values(&st, named(&[("a", 1), ("b", 2), ("c", 3)])).unwrap_err();
    assert_eq!(err, DriverError::MissingNamedParameter("d".to_string()));
}

#[test]
fn should_return_error_on_named_params_for_positional_statement() {
    let (names, query) = split_named_params("SELECT ?, ?, ?, ?, ?").unwrap();
    assert!(names.is_none());
    assert_eq!(query, "SELECT ?, ?, ?, ?, ?");
    let st = Statement {
        info: StmtInfo { id: 1, num_columns: 5, num_params: 5, connection_id: 1 },
        named_params: names,
    };
    let err = execute_values(&st, named(&[("a", 1), ("b", 2), ("c", 3), ("d", 4), ("e", 5)]));
    assert_eq!(err.unwrap_err(), DriverError::NamedParamsForPositionalQuery);
}

#[test]
fn mixed_parameters_are_refused() {
    assert_eq!(split_named_params("SELECT :a, ?").unwrap_err(), DriverError::MixedParams);
}

#[test]
fn positional_order_follows_names() {
    let names: Vec<String> = vec!["b".into(), "a".into(), "b".into()];
    let supplied: Vec<String> = vec!["a".into(), "b".into()];
    assert_eq!(positional_order(&names, &supplied), Ok(vec![1, 0, 1]));
    let missing: Vec<String> = vec!["a".into(), "z".into()];
    assert_eq!(
        positional_order(&missing, &supplied),
        Err(DriverError::MissingNamedParameter("z".into()))
    );
}

#[test]
fn parameter_count_must_match() {
    assert_eq!(
        execute_values(&stmt(2, None), Params::Empty).unwrap_err(),
        DriverError::MismatchedStmtParams(2, 0)
    );
    assert_eq!(
        execute_values(&stmt(2, None), Params::Positional(vec![Value::Int(1)])).unwrap_err(),
        DriverError::MismatchedStmtParams(2, 1)
    );
    assert_eq!(
        execute_values(&stmt(1, Some(vec!["a", "b"])), named(&[("a", 1), ("b", 2)])).unwrap_err(),
        DriverError::MismatchedStmtParams(1, 2)
    );
    assert!(execute_request(&stmt(2, None), Params::Positional(vec![Value::Int(1)])).is_err());
}

#[test]
fn execute_request_without_parameters() {
    let req = execute_request(&stmt(0, None), Params::Empty).unwrap();
    assert_eq!(req.body, vec![0x17, 4, 3, 2, 1, 0, 1, 0, 0, 0]);
    assert!(req.long_data.is_empty());
    assert!(req.values.is_empty());
    assert!(!req.as_long_data);
}

#[test]
fn execute_request_carries_every_value() {
    let req = execute_request(
        &stmt(2, None),
        Params::Positional(vec![Value::Int(42), Value::Bytes(b"x".to_vec())]),
    )
    .unwrap();
    assert_eq!(&req.body[..10], &[0x17, 4, 3, 2, 1, 0, 1, 0, 0, 0][..]);
    assert!(req.body.len() > 10);
    assert!(req.long_data.is_empty());
    assert_eq!(req.values, vec![Value::Int(42), Value::Bytes(b"x".to_vec())]);
    assert_eq!(req.body[10], 0);
    assert_eq!(req.body[11], 1);
}

#[test]
fn large_values_go_as_long_data() {
    let big = vec![7u8; 16_777_209 + 5];
    let req = execute_request(
        &stmt(2, None),
        Params::Positional(vec![Value::Int(1), Value::Bytes(big)]),
    )
    .unwrap();
    assert!(req.as_long_data);
    assert_eq!(req.long_data.len(), 2);
    assert_eq!(&req.long_data[0][..7], &[0x18, 4, 3, 2, 1, 1, 0][..]);
    assert_eq!(req.long_data[0].len(), 7 + 16_777_209);
    assert_eq!(req.long_data[1].len(), 7 + 5);
}

#[test]
fn empty_bytes_take_one_empty_long_data_packet() {
    assert_eq!(long_data_packets(1, 2, &Vec::new()), vec![vec![0x18u8, 1, 0, 0, 0, 2, 0]]);
    let two = long_data_packets(1, 0, &vec![5u8; 16_777_209 * 2]);
    assert_eq!(two.len(), 2);
    assert_eq!(two[1].len(), 7 + 16_777_209);
}

#[test]
fn command_prefixes_the_command_byte() {
    assert_eq!(command(0x02, b"db"), vec![0x02u8, b'd', b'b']);
    assert_eq!(command(0x0e, b""), vec![0x0eu8]);
}

#[test]
fn execute_command_records_the_command() {
    let mut conn = mysql_conn::conn::Conn::empty(0);
    assert!(conn.execute_command(&stmt(1, None), Params::Empty).is_err());
    let req = conn.execute_command(&stmt(1, None), Params::Positional(vec![Value::UInt(7)])).unwrap();
    assert_eq!(req.values, vec![Value::UInt(7)]);
    assert_eq!(req.body[0], 0x17);
}
