use router2::catalog::MemCatalog;
use router2::dml::DmlWrite;
use router2::dml_handlers::WriteRouter;
use router2::error::RouterError;
use router2::sequencer::ShardedWriteBuffer;
use router2::sharder::TableNamespaceSharder;
use router2::types::{ColumnType, Field, FieldValue, QueryPoolId, Row, ShardId, TopicId};

fn router_with_shards(values: &[u32]) -> WriteRouter {
    let ids: Vec<ShardId> = values.iter().map(|v| ShardId { value: *v }).collect();
    let sharder = TableNamespaceSharder::new(ids).expect("registry must not be empty");
    let buffer = ShardedWriteBuffer::new(sharder);
    WriteRouter::new(
        MemCatalog::new(),
        buffer,
        TopicId { value: 1 },
        QueryPoolId { value: 1 },
        "inf".to_owned(),
    )
}

fn write_of(namespace: &str, table: &str, fields: Vec<(&str, FieldValue)>) -> DmlWrite {
    let row = Row {
        time: 42,
        fields: fields
            .into_iter()
            .map(|(n, v)| Field { name: n.to_owned(), value: v })
            .collect(),
    };
    DmlWrite { namespace: namespace.to_owned(), table: table.to_owned(), rows: vec![row] }
}

#[test]
fn writes_for_one_key_always_resolve_to_one_shard() {
    let mut router = router_with_shards(&[0, 1, 2]);
    let mut seen: Option<ShardId> = None;
    for _ in 0..1000 {
        let w = write_of("db1", "cpu", vec![("usage", FieldValue::Float(0x3ff0000000000000))]);
        let (shard, _) = router.handle(w).expect("write must be accepted");
        match seen {
            None => seen = Some(shard),
            Some(s) => assert_eq!(shard, s),
        }
    }
}

#[test]
fn schema_conflict_is_rejected_and_recovery_works() {
    // Writes for ("cpu", "db1"): a new column arrives as a signed
    // integer; a later write claiming a string for the same column is
    // rejected with a schema conflict; claiming the integer again
    // succeeds.
    let mut router = router_with_shards(&[0, 1, 2]);
    let w1 = write_of("db1", "cpu", vec![("extra", FieldValue::Int(7))]);
    assert!(router.handle(w1).is_ok());
    let w2 = write_of("db1", "cpu", vec![("extra", FieldValue::Text("x".to_owned()))]);
    match router.handle(w2) {
        Err(RouterError::SchemaConflict { column, existing, requested }) => {
            assert_eq!(column, "extra");
            assert_eq!(existing, ColumnType::Int);
            assert_eq!(requested, ColumnType::Text);
        }
        _ => panic!("a conflicting type must be rejected"),
    }
    let w3 = write_of("db1", "cpu", vec![("extra", FieldValue::Int(8))]);
    assert!(router.handle(w3).is_ok());
}

#[test]
fn rejected_batch_enqueues_no_rows() {
    let mut router = router_with_shards(&[0, 1, 2]);
    let ok = write_of("db1", "cpu", vec![("host", FieldValue::Tag("a".to_owned()))]);
    assert!(router.handle(ok).is_ok());
    let logged_before: usize = router.buffer.producers.iter().map(|p| p.log.len()).sum();
    assert_eq!(logged_before, 1);
    // One batch whose second row conflicts with its first: the whole
    // batch is rejected, none of its rows is enqueued.
    let row1 = Row {
        time: 1,
        fields: vec![Field { name: "v".to_owned(), value: FieldValue::Int(1) }],
    };
    let row2 = Row {
        time: 2,
        fields: vec![Field { name: "v".to_owned(), value: FieldValue::Bool(true) }],
    };
    let bad = DmlWrite {
        namespace: "db1".to_owned(),
        table: "cpu".to_owned(),
        rows: vec![row1, row2],
    };
    match router.handle(bad) {
        Err(RouterError::SchemaConflict { .. }) => {}
        _ => panic!("an internally conflicting batch must be rejected"),
    }
    let logged_after: usize = router.buffer.producers.iter().map(|p| p.log.len()).sum();
    assert_eq!(logged_after, logged_before);
}

#[test]
fn per_shard_order_is_preserved() {
    let mut router = router_with_shards(&[0, 1, 2]);
    let w1 = write_of("db1", "cpu", vec![("v", FieldValue::Int(1))]);
    let w2 = write_of("db1", "cpu", vec![("v", FieldValue::Int(2))]);
    let (s1, q1) = router.handle(w1).expect("first write");
    let (s2, q2) = router.handle(w2).expect("second write");
    assert_eq!(s1, s2);
    assert!(q1.value < q2.value);
    // The one shard's log holds both writes in enqueue order.
    let producer = router.buffer.producers.iter().find(|p| p.shard == s1).unwrap();
    assert_eq!(producer.log.len(), 2);
    assert_eq!(producer.log[q1.value as usize].rows[0].fields[0].name, "v");
}

#[test]
fn writes_to_different_namespaces_do_not_interfere() {
    let mut router = router_with_shards(&[0, 1, 2]);
    let w1 = write_of("db1", "cpu", vec![("extra", FieldValue::Int(1))]);
    assert!(router.handle(w1).is_ok());
    // The same table and column name in another namespace may carry
    // another type: tables are owned by their namespace.
    let w2 = write_of("db2", "cpu", vec![("extra", FieldValue::Text("t".to_owned()))]);
    assert!(router.handle(w2).is_ok());
}

#[test]
fn cached_and_uncached_validation_agree() {
    let mut router = router_with_shards(&[5]);
    let w1 = write_of("db1", "cpu", vec![("a", FieldValue::Int(1))]);
    assert!(router.handle(w1).is_ok());
    // Second write of the same shape validates from the cache alone.
    let w2 = write_of("db1", "cpu", vec![("a", FieldValue::Int(2))]);
    assert!(router.handle(w2).is_ok());
    // A new column takes the catalog round trip and is then cached.
    let w3 = write_of("db1", "cpu", vec![("a", FieldValue::Int(3)), ("b", FieldValue::Bool(true))]);
    assert!(router.handle(w3).is_ok());
    let w4 = write_of("db1", "cpu", vec![("b", FieldValue::Bool(false))]);
    assert!(router.handle(w4).is_ok());
    // The established types survive all of it.
    let bad = write_of("db1", "cpu", vec![("b", FieldValue::Int(0))]);
    assert!(matches!(bad_result(&mut router, bad), RouterError::SchemaConflict { .. }));
}

fn bad_result(router: &mut WriteRouter, w: DmlWrite) -> RouterError {
    router.handle(w).unwrap_err()
}

#[test]
fn stage_methods_compose_like_handle() {
    let mut router = router_with_shards(&[0, 1]);
    let w = write_of("db1", "cpu", vec![("v", FieldValue::UInt(9))]);
    let (ns, table) = router.namespace_autocreation(&w);
    assert!(router.schema_validation(&w, ns, table).is_ok());
    let (shard, seq) = router.shard_and_enqueue(w).expect("enqueue");
    assert!(shard.value < 2);
    assert_eq!(seq.value, 0);
}
