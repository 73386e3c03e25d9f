use mysql_conn::conn::Conn;
use mysql_conn::stmt_cache::{StmtCache, StmtInfo};

fn info(id: u32) -> StmtInfo {
    StmtInfo { id, num_columns: 0, num_params: 0, connection_id: 1 }
}

/// Prepares each query through the cache the way a connection does and counts the
/// `COM_STMT_CLOSE` packets that evictions produce.
fn prepare_all(conn: &mut Conn, queries: &[&str]) -> usize {
    let mut closes = 0;
    let mut next_id = 1;
    for q in queries {
        let q = q.to_string();
        if conn.cached_stmt(&q).is_none() {
            if let Some(close) = conn.cache_stmt(q, info(next_id)) {
                assert_eq!(close[0], 0x19);
                closes += 1;
            }
            next_id += 1;
        }
    }
    closes
}

#[test]
fn should_hold_stmt_cache_size_bounds() {
    let mut conn = Conn::empty(3);
    let closes = prepare_all(
        &mut conn,
        &["DO 1", "DO 2", "DO 3", "DO 1", "DO 4", "DO 3", "DO 5", "DO 6"],
    );
    assert_eq!(closes, 3);
    let mut cached = conn.cached_queries();
    cached.sort();
    assert_eq!(cached, vec!["DO 3".to_string(), "DO 5".into(), "DO 6".into()]);
}

#[test]
fn should_not_cache_statements_if_stmt_cache_size_is_zero() {
    let mut conn = Conn::empty(0);
    let mut closes = 0;
    for (id, q) in ["DO 1", "DO 2", "DO 3"].iter().enumerate() {
        let q = q.to_string();
        assert!(conn.cached_stmt(&q).is_none());
        assert!(conn.cache_stmt(q, info(id as u32 + 1)).is_none());
        let close = conn.close_stmt(id as u32 + 1);
        assert_eq!(close, vec![0x19, id as u8 + 1, 0, 0, 0]);
        closes += 1;
    }
    assert_eq!(closes, 3);
    assert!(conn.cached_queries().is_empty());
}

#[test]
fn distinct_prepares_keep_the_last_ones_in_mru_order() {
    let mut conn = Conn::empty(2);
    let closes = prepare_all(&mut conn, &["A", "B", "C", "D", "E"]);
    assert_eq!(closes, 3);
    assert_eq!(conn.cached_queries(), vec!["E".to_string(), "D".into()]);
}

#[test]
fn hit_moves_entry_to_most_recent() {
    let mut cache = StmtCache::new(2);
    assert!(cache.put("a".to_string(), info(1)).is_none());
    assert!(cache.put("b".to_string(), info(2)).is_none());
    assert_eq!(cache.by_query(&"a".to_string()), Some(info(1)));
    let evicted = cache.put("c".to_string(), info(3)).unwrap();
    assert_eq!(evicted.0, "b");
    assert_eq!(evicted.1, info(2));
    assert_eq!(cache.queries_mru(), vec!["c".to_string(), "a".into()]);
    assert!(cache.contains_query(&"a".to_string()));
    assert!(!cache.contains_query(&"b".to_string()));
}

#[test]
fn remove_by_id_and_clear() {
    let mut cache = StmtCache::new(3);
    cache.put("a".to_string(), info(1));
    cache.put("b".to_string(), info(2));
    cache.remove(1);
    assert_eq!(cache.queries_mru(), vec!["b".to_string()]);
    cache.clear();
    assert_eq!(cache.len(), 0);
    assert_eq!(cache.capacity(), 3);
}

#[test]
fn shutdown_closes_every_cached_statement_then_quits() {
    let mut conn = Conn::empty(4);
    prepare_all(&mut conn, &["x", "y"]);
    let cmds = conn.shutdown_commands();
    assert_eq!(cmds, vec![vec![0x19u8, 1, 0, 0, 0], vec![0x19u8, 2, 0, 0, 0], vec![0x01u8]]);
    assert!(conn.cached_queries().is_empty());
}
