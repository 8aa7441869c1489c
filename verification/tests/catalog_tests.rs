use router2::catalog::MemCatalog;
use router2::error::RouterError;
use router2::types::{Column, ColumnType, QueryPoolId, TableId, TopicId};

fn fresh() -> MemCatalog {
    MemCatalog::new()
}

#[test]
fn topic_create_then_get_returns_same_identity() {
    let mut cat = fresh();
    let a = cat.get_or_create_topic("iox-shared");
    let b = cat.get_or_create_topic("iox-shared");
    assert_eq!(a.id, b.id);
    assert_eq!(cat.topics.len(), 1);
}

#[test]
fn namespace_autocreation_is_idempotent() {
    let mut cat = fresh();
    let topic = cat.get_or_create_topic("iox-shared");
    let a = cat.get_or_create_namespace("db1", "inf", topic.id, QueryPoolId { value: 1 });
    let b = cat.get_or_create_namespace("db1", "inf", topic.id, QueryPoolId { value: 1 });
    assert_eq!(a.id, b.id);
    assert_eq!(cat.namespaces.len(), 1);
    let other = cat.get_or_create_namespace("db2", "inf", topic.id, QueryPoolId { value: 1 });
    assert_ne!(other.id, a.id);
    assert_eq!(cat.namespaces.len(), 2);
}

#[test]
fn table_autocreation_is_idempotent_per_namespace() {
    let mut cat = fresh();
    let topic = cat.get_or_create_topic("iox-shared");
    let ns1 = cat.get_or_create_namespace("db1", "inf", topic.id, QueryPoolId { value: 1 });
    let ns2 = cat.get_or_create_namespace("db2", "inf", topic.id, QueryPoolId { value: 1 });
    let a = cat.get_or_create_table("cpu", ns1.id);
    let b = cat.get_or_create_table("cpu", ns1.id);
    assert_eq!(a.id, b.id);
    // The same table name in another namespace is another table.
    let c = cat.get_or_create_table("cpu", ns2.id);
    assert_ne!(c.id, a.id);
    assert_eq!(cat.tables.len(), 2);
}

fn columns(pairs: &[(&str, ColumnType)]) -> Vec<Column> {
    pairs
        .iter()
        .map(|(n, t)| Column { name: (*n).to_owned(), column_type: *t })
        .collect()
}

fn table_of(cat: &mut MemCatalog) -> TableId {
    let topic = cat.get_or_create_topic("iox-shared");
    let ns = cat.get_or_create_namespace("db1", "inf", topic.id, QueryPoolId { value: 1 });
    cat.get_or_create_table("cpu", ns.id).id
}

#[test]
fn columns_are_created_once_and_kept() {
    let mut cat = fresh();
    let tid = table_of(&mut cat);
    let want = columns(&[("host", ColumnType::Tag), ("usage", ColumnType::Float)]);
    assert!(cat.get_or_create_columns(tid, &want).is_ok());
    assert_eq!(cat.columns.len(), 2);
    // Repeating the same request creates nothing new.
    assert!(cat.get_or_create_columns(tid, &want).is_ok());
    assert_eq!(cat.columns.len(), 2);
}

#[test]
fn conflicting_column_type_rejects_the_whole_request() {
    let mut cat = fresh();
    let tid = table_of(&mut cat);
    let first = columns(&[("extra", ColumnType::Int)]);
    assert!(cat.get_or_create_columns(tid, &first).is_ok());
    // A later request claiming another type for the name, plus a new
    // column, fails whole: the new column is not created either.
    let bad = columns(&[("fresh", ColumnType::Bool), ("extra", ColumnType::Text)]);
    let err = cat.get_or_create_columns(tid, &bad).unwrap_err();
    match err {
        RouterError::SchemaConflict { column, existing, requested } => {
            assert_eq!(column, "extra");
            assert_eq!(existing, ColumnType::Int);
            assert_eq!(requested, ColumnType::Text);
        }
        _ => panic!("expected a schema conflict"),
    }
    assert_eq!(cat.columns.len(), 1);
    // The first accepted type still stands and still works.
    assert!(cat.get_or_create_columns(tid, &columns(&[("extra", ColumnType::Int)])).is_ok());
    assert_eq!(cat.columns.len(), 1);
}

#[test]
fn same_column_name_in_two_tables_is_independent() {
    let mut cat = fresh();
    let topic = cat.get_or_create_topic("iox-shared");
    let ns = cat.get_or_create_namespace("db1", "inf", topic.id, QueryPoolId { value: 1 });
    let t1 = cat.get_or_create_table("cpu", ns.id);
    let t2 = cat.get_or_create_table("mem", ns.id);
    assert!(cat.get_or_create_columns(t1.id, &columns(&[("v", ColumnType::Int)])).is_ok());
    // The same name with another type in another table is no conflict.
    assert!(cat.get_or_create_columns(t2.id, &columns(&[("v", ColumnType::Text)])).is_ok());
    assert_eq!(cat.columns.len(), 2);
}

#[test]
fn identifiers_are_dense_and_start_at_one() {
    let mut cat = fresh();
    let t1 = cat.get_or_create_topic("a");
    let t2 = cat.get_or_create_topic("b");
    assert_eq!(t1.id, TopicId { value: 1 });
    assert_eq!(t2.id, TopicId { value: 2 });
}
