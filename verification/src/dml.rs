//! Write requests: a batch of rows for one (namespace, table) pair.
//!
//! A write is immutable once constructed. Chain stages may annotate
//! it but never rewrite its data; validation rejects the whole batch,
//! never single rows. This module computes the set of (column name,
//! inferred type) pairs implied by a batch, rejecting a batch whose
//! own rows already disagree on a column's type.

use vstd::prelude::*;
use crate::catalog::{column_pairs, distinct_column_names};
use crate::error::RouterError;
use crate::text::str_eq;
use crate::types::{Column, ColumnType, Field, FieldValue, Row};

verus! {

/// A write request: all rows belong to one table of one namespace.
#[derive(Clone, Debug)]
pub struct DmlWrite {
    pub namespace: String,
    pub table: String,
    pub rows: Vec<Row>,
}

/// Type recorded for a column name in an accumulated column set.
pub open spec fn spec_pairs_find(pairs: Seq<(Seq<char>, ColumnType)>, name: Seq<char>) -> Option<
    ColumnType,
>
    decreases pairs.len(),
{
    if pairs.len() == 0 {
        None
    } else if pairs[0].0 == name {
        Some(pairs[0].1)
    } else {
        spec_pairs_find(pairs.skip(1), name)
    }
}

/// Add one field's (name, type) to the accumulated column set; a
/// name already recorded with another type poisons the whole batch.
pub open spec fn spec_add_column(
    acc: Option<Seq<(Seq<char>, ColumnType)>>,
    name: Seq<char>,
    t: ColumnType,
) -> Option<Seq<(Seq<char>, ColumnType)>> {
    match acc {
        None => None,
        Some(pairs) => match spec_pairs_find(pairs, name) {
            Some(prior) => if prior == t {
                acc
            } else {
                None
            },
            None => Some(pairs.push((name, t))),
        },
    }
}

/// Fold one row's fields into the accumulated column set.
pub open spec fn spec_collect_fields(
    acc: Option<Seq<(Seq<char>, ColumnType)>>,
    fields: Seq<Field>,
) -> Option<Seq<(Seq<char>, ColumnType)>>
    decreases fields.len(),
{
    if fields.len() == 0 {
        acc
    } else {
        spec_collect_fields(
            spec_add_column(acc, fields[0].name@, fields[0].value.spec_column_type()),
            fields.skip(1),
        )
    }
}

/// Fold all rows into the accumulated column set.
pub open spec fn spec_collect_rows(
    acc: Option<Seq<(Seq<char>, ColumnType)>>,
    rows: Seq<Row>,
) -> Option<Seq<(Seq<char>, ColumnType)>>
    decreases rows.len(),
{
    if rows.len() == 0 {
        acc
    } else {
        spec_collect_rows(spec_collect_fields(acc, rows[0].fields@), rows.skip(1))
    }
}

/// The set of (column name, inferred type) pairs implied by a write,
/// in first-appearance order; nothing when two of the write's own
/// fields disagree on a type.
pub open spec fn spec_write_columns(w: &DmlWrite) -> Option<Seq<(Seq<char>, ColumnType)>> {
    spec_collect_rows(Some(Seq::<(Seq<char>, ColumnType)>::empty()), w.rows@)
}

/// How many distinct columns a write implies; nothing to count when
/// the batch conflicts with itself.
pub open spec fn spec_write_column_count(w: &DmlWrite) -> nat {
    match spec_write_columns(w) {
        Some(pairs) => pairs.len(),
        None => 0,
    }
}

/// A poisoned accumulator never recovers.
proof fn lemma_collect_fields_none(fields: Seq<Field>)
    ensures
        spec_collect_fields(None, fields) is None,
    decreases fields.len(),
{
    if fields.len() > 0 {
        lemma_collect_fields_none(fields.skip(1));
    }
}

/// A poisoned accumulator never recovers.
proof fn lemma_collect_rows_none(rows: Seq<Row>)
    ensures
        spec_collect_rows(None, rows) is None,
    decreases rows.len(),
{
    if rows.len() > 0 {
        lemma_collect_fields_none(rows[0].fields@);
        lemma_collect_rows_none(rows.skip(1));
    }
}

/// An absent name stays absent under find.
proof fn lemma_pairs_find_push(pairs: Seq<(Seq<char>, ColumnType)>, name: Seq<char>, p: (Seq<char>, ColumnType))
    ensures
        spec_pairs_find(pairs.push(p), name) == (match spec_pairs_find(pairs, name) {
            Some(t) => Some(t),
            None => if p.0 == name {
                Some(p.1)
            } else {
                None
            },
        }),
    decreases pairs.len(),
{
    if pairs.len() == 0 {
        assert(pairs.push(p)[0] == p);
        assert(pairs.push(p).skip(1) =~= Seq::<(Seq<char>, ColumnType)>::empty());
        assert(spec_pairs_find(Seq::<(Seq<char>, ColumnType)>::empty(), name) is None);
    } else {
        assert(pairs.push(p)[0] == pairs[0]);
        assert(pairs.push(p).skip(1) =~= pairs.skip(1).push(p));
        lemma_pairs_find_push(pairs.skip(1), name, p);
    }
}

/// A failed find means no pair carries the name.
proof fn lemma_pairs_find_none(pairs: Seq<(Seq<char>, ColumnType)>, name: Seq<char>)
    requires
        spec_pairs_find(pairs, name) is None,
    ensures
        forall|i: int| 0 <= i < pairs.len() ==> (#[trigger] pairs[i]).0 != name,
    decreases pairs.len(),
{
    if pairs.len() > 0 {
        lemma_pairs_find_none(pairs.skip(1), name);
        assert forall|i: int| 0 <= i < pairs.len() implies (#[trigger] pairs[i]).0 != name by {
            if i > 0 {
                assert(pairs.skip(1)[i - 1] == pairs[i]);
            }
        }
    }
}

/// Index of the first collected column with the given name.
fn find_column_by_name(cols: &Vec<Column>, name: &str) -> (r: Option<usize>)
    ensures
        match r {
            Some(i) => i < cols@.len() && spec_pairs_find(column_pairs(cols@), name@) == Some(
                cols@[i as int].column_type,
            ),
            None => spec_pairs_find(column_pairs(cols@), name@) is None,
        },
{
    let ghost m = column_pairs(cols@);
    let mut i: usize = 0;
    proof {
        assert(m.skip(0) =~= m);
    }
    while i < cols.len()
        invariant
            i <= cols@.len(),
            m == column_pairs(cols@),
            spec_pairs_find(m.skip(i as int), name@) == spec_pairs_find(m, name@),
        decreases cols@.len() - i,
    {
        proof {
            assert(m.skip(i as int)[0] == m[i as int]);
            assert(m.skip(i as int).skip(1) =~= m.skip(i as int + 1));
        }
        if str_eq(cols[i].name.as_str(), name) {
            proof {
                assert(spec_pairs_find(m, name@) == Some(m[i as int].1));
            }
            return Some(i);
        }
        i = i + 1;
    }
    proof {
        assert(m.skip(i as int) =~= Seq::<(Seq<char>, ColumnType)>::empty());
    }
    None
}

/// Compute the column set implied by a write's rows, in
/// first-appearance order. The whole batch is rejected when two of
/// its fields claim different types for one column name: no partial
/// row application.
pub fn write_columns(write: &DmlWrite) -> (r: Result<Vec<Column>, RouterError>)
    ensures
        match r {
            Ok(cols) => {
                &&& spec_write_columns(write) == Some(column_pairs(cols@))
                &&& distinct_column_names(column_pairs(cols@))
            },
            Err(e) => {
                &&& spec_write_columns(write) is None
                &&& e is SchemaConflict
            },
        },
{
    let mut cols: Vec<Column> = Vec::new();
    let ghost goal = spec_write_columns(write);
    let mut i: usize = 0;
    proof {
        assert(column_pairs(cols@) =~= Seq::<(Seq<char>, ColumnType)>::empty());
        assert(write.rows@.skip(0) =~= write.rows@);
    }
    while i < write.rows.len()
        invariant
            i <= write.rows@.len(),
            goal == spec_write_columns(write),
            spec_collect_rows(Some(column_pairs(cols@)), write.rows@.skip(i as int)) == goal,
            distinct_column_names(column_pairs(cols@)),
        decreases write.rows@.len() - i,
    {
        proof {
            assert(write.rows@.skip(i as int)[0] == write.rows@[i as int]);
            assert(write.rows@.skip(i as int).skip(1) =~= write.rows@.skip(i as int + 1));
        }
        let row = &write.rows[i];
        let mut j: usize = 0;
        proof {
            assert(row.fields@.skip(0) =~= row.fields@);
        }
        while j < row.fields.len()
            invariant
                j <= row.fields@.len(),
                goal == spec_write_columns(write),
                row == &write.rows@[i as int],
                spec_collect_rows(
                    spec_collect_fields(Some(column_pairs(cols@)), row.fields@.skip(j as int)),
                    write.rows@.skip(i as int).skip(1),
                ) == goal,
                distinct_column_names(column_pairs(cols@)),
            decreases row.fields@.len() - j,
        {
            proof {
                assert(row.fields@.skip(j as int)[0] == row.fields@[j as int]);
                assert(row.fields@.skip(j as int).skip(1) =~= row.fields@.skip(j as int + 1));
            }
            let field = &row.fields[j];
            let t = field.value.column_type();
            let ghost before = column_pairs(cols@);
            match find_column_by_name(&cols, field.name.as_str()) {
                Some(k) => {
                    if cols[k].column_type != t {
                        proof {
                            assert(spec_add_column(Some(before), field.name@, t) is None);
                            lemma_collect_fields_none(row.fields@.skip(j as int + 1));
                            lemma_collect_rows_none(write.rows@.skip(i as int).skip(1));
                        }
                        return Err(
                            RouterError::SchemaConflict {
                                column: field.name.clone(),
                                existing: cols[k].column_type,
                                requested: t,
                            },
                        );
                    }
                    proof {
                        assert(spec_add_column(Some(before), field.name@, t) == Some(before));
                    }
                },
                None => {
                    cols.push(Column { name: field.name.clone(), column_type: t });
                    proof {
                        assert(column_pairs(cols@) =~= before.push((field.name@, t)));
                        lemma_pairs_find_none(before, field.name@);
                        assert(distinct_column_names(column_pairs(cols@)));
                        assert(spec_add_column(Some(before), field.name@, t) == Some(
                            column_pairs(cols@),
                        ));
                    }
                },
            }
            j = j + 1;
        }
        proof {
            assert(row.fields@.skip(j as int) =~= Seq::<Field>::empty());
        }
        i = i + 1;
    }
    proof {
        assert(write.rows@.skip(i as int) =~= Seq::<Row>::empty());
    }
    Ok(cols)
}

} // verus!
