use router2::query::{
    chunks_have_stats, compute_sort_key, compute_sort_key_for_chunks, delete_predicate_columns,
    ChunkMeta, ColumnSummary, DeleteExpr, DeletePredicate, InfluxDbType, QueryCompletedToken,
    TableSummary,
};

fn tag(name: &str, distinct: u64) -> ColumnSummary {
    ColumnSummary {
        name: name.to_owned(),
        influxdb_type: Some(InfluxDbType::Tag),
        distinct_count: Some(distinct),
    }
}

fn field(name: &str) -> ColumnSummary {
    ColumnSummary {
        name: name.to_owned(),
        influxdb_type: Some(InfluxDbType::Field),
        distinct_count: Some(1000),
    }
}

#[test]
fn sort_key_orders_low_cardinality_tags_first() {
    let summaries = vec![
        TableSummary { columns: vec![tag("host", 40), tag("region", 3), field("usage")] },
        TableSummary { columns: vec![tag("host", 20)] },
    ];
    // region totals 3, host totals 60; fields are ignored; the
    // timestamp column comes last.
    let key = compute_sort_key(&summaries);
    assert_eq!(key, vec!["region".to_owned(), "host".to_owned(), "time".to_owned()]);
}

#[test]
fn sort_key_breaks_ties_by_name() {
    let summaries = vec![
        TableSummary { columns: vec![tag("b", 5), tag("a", 5), tag("c", 1)] },
    ];
    let key = compute_sort_key(&summaries);
    assert_eq!(
        key,
        vec!["c".to_owned(), "a".to_owned(), "b".to_owned(), "time".to_owned()]
    );
}

#[test]
fn sort_key_counts_unknown_distincts_as_zero() {
    let summaries = vec![
        TableSummary {
            columns: vec![ColumnSummary {
                name: "host".to_owned(),
                influxdb_type: Some(InfluxDbType::Tag),
                distinct_count: None,
            }, tag("region", 1)],
        },
    ];
    let key = compute_sort_key(&summaries);
    assert_eq!(key, vec!["host".to_owned(), "region".to_owned(), "time".to_owned()]);
}

#[test]
fn chunks_without_stats_are_detected() {
    let with = ChunkMeta { summary: Some(TableSummary { columns: vec![tag("host", 1)] }) };
    let without = ChunkMeta { summary: None };
    assert!(chunks_have_stats(&vec![]));
    let both = vec![with, without];
    assert!(!chunks_have_stats(&both));
    assert!(chunks_have_stats(&vec![both.into_iter().next().unwrap()]));
}

#[test]
fn sort_key_for_chunks_falls_back_to_the_primary_key() {
    let pk = vec!["region".to_owned(), "host".to_owned(), "time".to_owned()];
    let chunks = vec![ChunkMeta { summary: None }];
    let key = compute_sort_key_for_chunks(&pk, &chunks);
    assert_eq!(key, pk);
}

#[test]
fn sort_key_for_chunks_uses_the_summaries_when_present() {
    let pk = vec!["host".to_owned(), "region".to_owned(), "time".to_owned()];
    let chunks = vec![
        ChunkMeta { summary: Some(TableSummary { columns: vec![tag("host", 40), tag("region", 2)] }) },
        ChunkMeta { summary: Some(TableSummary { columns: vec![tag("region", 1)] }) },
    ];
    let key = compute_sort_key_for_chunks(&pk, &chunks);
    assert_eq!(key, vec!["region".to_owned(), "host".to_owned(), "time".to_owned()]);
}

fn predicate(columns: &[&str]) -> DeletePredicate {
    DeletePredicate {
        exprs: columns.iter().map(|c| DeleteExpr { column: (*c).to_owned() }).collect(),
    }
}

#[test]
fn delete_predicate_columns_are_sorted_with_time_last() {
    let preds = vec![
        predicate(&["state", "time", "city"]),
        predicate(&["city", "county"]),
    ];
    let cols = delete_predicate_columns(&preds);
    assert_eq!(
        cols,
        vec!["city".to_owned(), "county".to_owned(), "state".to_owned(), "time".to_owned()]
    );
}

#[test]
fn delete_predicate_columns_of_nothing_is_time_alone() {
    let cols = delete_predicate_columns(&vec![]);
    assert_eq!(cols, vec!["time".to_owned()]);
}

#[test]
fn query_completed_token_records_completion() {
    let mut token = QueryCompletedToken::new("read_filter".to_owned(), "cpu".to_owned());
    assert!(!token.completed);
    assert_eq!(token.query_type, "read_filter");
    assert_eq!(token.query_text, "cpu");
    token.complete();
    assert!(token.completed);
    token.complete();
    assert!(token.completed);
}
