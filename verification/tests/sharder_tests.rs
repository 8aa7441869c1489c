use router2::error::RouterError;
use router2::sharder::TableNamespaceSharder;
use router2::types::ShardId;

fn sharder_of(values: &[u32]) -> TableNamespaceSharder {
    let ids: Vec<ShardId> = values.iter().map(|v| ShardId { value: *v }).collect();
    TableNamespaceSharder::new(ids).expect("registry must not be empty")
}

#[test]
fn shard_is_deterministic_across_calls_and_instances() {
    let a = sharder_of(&[0, 1, 2]);
    let b = sharder_of(&[2, 0, 1]);
    let first = a.shard("cpu", "db1");
    for _ in 0..1000 {
        assert_eq!(a.shard("cpu", "db1"), first);
        assert_eq!(b.shard("cpu", "db1"), first);
    }
}

#[test]
fn shard_matches_the_documented_hash() {
    // FNV-1a over the length-prefixed key bytes of ("cpu", "db1")
    // gives 0xceec43128232bfb3; reduced modulo 3 that selects the
    // registry entry at position 0.
    let s = sharder_of(&[0, 1, 2]);
    assert_eq!(s.shard("cpu", "db1"), ShardId { value: 0 });
    assert_eq!(s.shard("mem", "db1"), ShardId { value: 2 });
    assert_eq!(s.shard("cpu", "db2"), ShardId { value: 1 });
}

#[test]
fn shard_distinguishes_namespace_and_table_boundary() {
    // The length prefix fixes the boundary: the keys ("ab", "c") and
    // ("a", "bc") feed the hash different byte sequences.
    let s = sharder_of(&[10, 20, 30, 40, 50]);
    let one = s.shard("c", "ab");
    let other = s.shard("bc", "a");
    // Both resolve inside the registry whatever they are.
    assert!([10, 20, 30, 40, 50].contains(&one.value));
    assert!([10, 20, 30, 40, 50].contains(&other.value));
}

#[test]
fn every_key_stays_in_range_as_the_registry_grows() {
    let keys = [("cpu", "db1"), ("mem", "db1"), ("disk", "other"), ("t", "n")];
    for n in 1..12u32 {
        let values: Vec<u32> = (0..n).collect();
        let s = sharder_of(&values);
        for (table, namespace) in keys.iter() {
            let shard = s.shard(table, namespace);
            assert!(shard.value < n);
        }
    }
}

#[test]
fn single_shard_registry_takes_every_key() {
    let s = sharder_of(&[7]);
    assert_eq!(s.shard("cpu", "db1"), ShardId { value: 7 });
    assert_eq!(s.shard("anything", "else"), ShardId { value: 7 });
}

#[test]
fn registry_is_deduplicated_and_sorted() {
    let s = sharder_of(&[3, 1, 3, 2, 1]);
    let values: Vec<u32> = s.shards.iter().map(|s| s.value).collect();
    assert_eq!(values, vec![1, 2, 3]);
}

#[test]
fn empty_registry_is_refused() {
    let r = TableNamespaceSharder::new(Vec::new());
    match r {
        Err(RouterError::NoShards) => {}
        _ => panic!("an empty registry must be refused"),
    }
}

#[test]
fn no_shards_error_is_not_retryable() {
    let e = RouterError::NoShards;
    assert!(!e.is_retryable());
    assert!(RouterError::CatalogUnavailable.is_retryable());
    assert!(RouterError::WriteBufferFailure.is_retryable());
}
