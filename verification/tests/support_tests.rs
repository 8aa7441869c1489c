use router2::catalog_dsn::{CatalogBackend, CatalogDsnConfig};
use router2::flight::{check_handshake, handshake_response, FlightError, GrpcDelegate, HandshakeRequest, HandshakeResponse};
use router2::namespace_cache::MemoryNamespaceCache;
use router2::types::{Column, ColumnType, NamespaceId};
use std::sync::Arc;

#[test]
fn handshake_is_echoed_unchanged() {
    let request = HandshakeRequest { protocol_version: 0, payload: vec![1, 2, 3, 4] };
    let response = handshake_response(request);
    assert_eq!(response.protocol_version, 0);
    assert_eq!(response.payload, vec![1, 2, 3, 4]);
}

#[test]
fn handshake_accepts_an_intact_payload() {
    let payload: Vec<u8> = rand::random::<[u8; 16]>().to_vec();
    let sent = HandshakeRequest { protocol_version: 0, payload: payload.clone() };
    let response = Some(HandshakeResponse { protocol_version: 0, payload });
    assert!(check_handshake(&sent, response).is_ok());
}

#[test]
fn handshake_rejects_a_mangled_or_missing_payload() {
    let sent = HandshakeRequest { protocol_version: 0, payload: vec![1, 2, 3] };
    let mangled = Some(HandshakeResponse { protocol_version: 0, payload: vec![1, 2, 4] });
    assert_eq!(check_handshake(&sent, mangled), Err(FlightError::HandshakeFailed));
    assert_eq!(check_handshake(&sent, None), Err(FlightError::HandshakeFailed));
}

#[test]
fn grpc_delegate_holds_the_handler() {
    let handler = Arc::new(7u32);
    let delegate = GrpcDelegate::new(Arc::clone(&handler));
    assert_eq!(*delegate.ingest_handler, 7);
}

#[test]
fn memory_dsn_selects_the_memory_backend() {
    let mem = CatalogDsnConfig::new("mem".to_owned());
    assert_eq!(mem.backend(), CatalogBackend::Memory);
    let pg = CatalogDsnConfig::new("postgres://localhost/iox".to_owned());
    assert_eq!(pg.backend(), CatalogBackend::Postgres);
}

fn columns(pairs: &[(&str, ColumnType)]) -> Vec<Column> {
    pairs
        .iter()
        .map(|(n, t)| Column { name: (*n).to_owned(), column_type: *t })
        .collect()
}

#[test]
fn cache_read_path_misses_until_a_merge() {
    let mut cache = MemoryNamespaceCache::new();
    assert!(cache.get("db1").is_none());
    cache.merge("db1", NamespaceId { value: 1 }, "cpu", &columns(&[("host", ColumnType::Tag)]));
    let schema = cache.get("db1").expect("cached after merge");
    assert_eq!(schema.namespace_id, NamespaceId { value: 1 });
    assert_eq!(schema.columns.len(), 1);
    assert_eq!(schema.columns[0].table, "cpu");
    assert_eq!(schema.columns[0].column, "host");
}

#[test]
fn cache_merges_of_disjoint_columns_union() {
    let mut cache = MemoryNamespaceCache::new();
    let ns = NamespaceId { value: 1 };
    cache.merge("db1", ns, "cpu", &columns(&[("a", ColumnType::Int)]));
    cache.merge("db1", ns, "cpu", &columns(&[("b", ColumnType::Bool)]));
    let schema = cache.get("db1").unwrap();
    assert_eq!(schema.columns.len(), 2);
}

#[test]
fn cache_keeps_the_first_type_for_a_column() {
    let mut cache = MemoryNamespaceCache::new();
    let ns = NamespaceId { value: 1 };
    cache.merge("db1", ns, "cpu", &columns(&[("a", ColumnType::Int)]));
    // A later merge proposing another type does not overwrite: the
    // catalog is the tie-breaker, and it would have rejected this.
    cache.merge("db1", ns, "cpu", &columns(&[("a", ColumnType::Text)]));
    let schema = cache.get("db1").unwrap();
    assert_eq!(schema.columns.len(), 1);
    assert_eq!(schema.columns[0].column_type, ColumnType::Int);
}

#[test]
fn cache_keys_columns_by_table() {
    let mut cache = MemoryNamespaceCache::new();
    let ns = NamespaceId { value: 1 };
    cache.merge("db1", ns, "cpu", &columns(&[("v", ColumnType::Int)]));
    cache.merge("db1", ns, "mem", &columns(&[("v", ColumnType::Text)]));
    let schema = cache.get("db1").unwrap();
    assert_eq!(schema.columns.len(), 2);
}
