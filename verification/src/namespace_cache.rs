//! In-memory, read-mostly cache of each namespace's known schema.
//!
//! The cache keeps the write path off the catalog: a write whose
//! columns are all cached validates without any catalog round trip.
//! It may lag behind columns created by another node; every
//! unknown-column path re-validates against the catalog, which stays
//! the tie-breaker of record. Merges only add columns: a cached
//! column never changes its type, so the first merged type survives
//! later conflicting proposals.

use vstd::prelude::*;
use crate::catalog::column_pairs;
use crate::text::str_eq;
use crate::types::{Column, ColumnType, NamespaceId};

verus! {

/// One cached column: a (table, column, type) triple of a namespace.
#[derive(Clone, Debug)]
pub struct SchemaColumn {
    pub table: String,
    pub column: String,
    pub column_type: ColumnType,
}

/// The known schema of one namespace: the set of columns accepted so
/// far, over all its tables.
#[derive(Clone, Debug)]
pub struct NamespaceSchema {
    pub namespace_id: NamespaceId,
    pub columns: Vec<SchemaColumn>,
}

/// One cache slot: a namespace name and its known schema.
#[derive(Clone, Debug)]
pub struct CacheEntry {
    pub namespace: String,
    pub schema: NamespaceSchema,
}

/// Mathematical image of a [`SchemaColumn`].
#[verifier::ext_equal]
pub struct SchemaColumnModel {
    pub table: Seq<char>,
    pub column: Seq<char>,
    pub column_type: ColumnType,
}

/// Mathematical image of a [`NamespaceSchema`].
#[verifier::ext_equal]
pub struct NamespaceSchemaModel {
    pub namespace_id: i64,
    pub columns: Seq<SchemaColumnModel>,
}

/// Mathematical image of a [`CacheEntry`].
#[verifier::ext_equal]
pub struct CacheEntryModel {
    pub namespace: Seq<char>,
    pub schema: NamespaceSchemaModel,
}

impl View for SchemaColumn {
    type V = SchemaColumnModel;

    open spec fn view(&self) -> SchemaColumnModel {
        SchemaColumnModel {
            table: self.table@,
            column: self.column@,
            column_type: self.column_type,
        }
    }
}

impl View for NamespaceSchema {
    type V = NamespaceSchemaModel;

    open spec fn view(&self) -> NamespaceSchemaModel {
        NamespaceSchemaModel {
            namespace_id: self.namespace_id.value,
            columns: self.columns@.map_values(|c: SchemaColumn| c@),
        }
    }
}

impl View for CacheEntry {
    type V = CacheEntryModel;

    open spec fn view(&self) -> CacheEntryModel {
        CacheEntryModel { namespace: self.namespace@, schema: self.schema@ }
    }
}

/// First cached column with the given table and name.
pub open spec fn spec_find_schema_column(
    columns: Seq<SchemaColumnModel>,
    table: Seq<char>,
    column: Seq<char>,
) -> Option<SchemaColumnModel>
    decreases columns.len(),
{
    if columns.len() == 0 {
        None
    } else if columns[0].table == table && columns[0].column == column {
        Some(columns[0])
    } else {
        spec_find_schema_column(columns.skip(1), table, column)
    }
}

/// Index of the cache slot of the given namespace.
pub open spec fn spec_find_cache_index(entries: Seq<CacheEntryModel>, namespace: Seq<char>) -> Option<
    int,
>
    decreases entries.len(),
{
    if entries.len() == 0 {
        None
    } else if entries[0].namespace == namespace {
        Some(0)
    } else {
        match spec_find_cache_index(entries.skip(1), namespace) {
            Some(j) => Some(j + 1),
            None => None,
        }
    }
}

/// Merge transition on one namespace's columns: append each requested
/// (name, type) pair absent for its table, in request order; pairs
/// already present keep their cached type.
pub open spec fn spec_schema_column_merge(
    columns: Seq<SchemaColumnModel>,
    table: Seq<char>,
    pairs: Seq<(Seq<char>, ColumnType)>,
) -> Seq<SchemaColumnModel>
    decreases pairs.len(),
{
    if pairs.len() == 0 {
        columns
    } else {
        let next = match spec_find_schema_column(columns, table, pairs[0].0) {
            Some(_) => columns,
            None => columns.push(
                SchemaColumnModel { table, column: pairs[0].0, column_type: pairs[0].1 },
            ),
        };
        spec_schema_column_merge(next, table, pairs.skip(1))
    }
}

/// Merge transition on the whole cache: update the namespace's slot,
/// creating it first when the namespace is not yet cached.
pub open spec fn spec_cache_merge(
    entries: Seq<CacheEntryModel>,
    namespace: Seq<char>,
    namespace_id: i64,
    table: Seq<char>,
    pairs: Seq<(Seq<char>, ColumnType)>,
) -> Seq<CacheEntryModel> {
    match spec_find_cache_index(entries, namespace) {
        Some(i) => entries.update(
            i,
            CacheEntryModel {
                namespace,
                schema: NamespaceSchemaModel {
                    namespace_id: entries[i].schema.namespace_id,
                    columns: spec_schema_column_merge(entries[i].schema.columns, table, pairs),
                },
            },
        ),
        None => entries.push(
            CacheEntryModel {
                namespace,
                schema: NamespaceSchemaModel {
                    namespace_id,
                    columns: spec_schema_column_merge(
                        Seq::<SchemaColumnModel>::empty(),
                        table,
                        pairs,
                    ),
                },
            },
        ),
    }
}

/// The namespace schema cache: one slot per namespace seen by this
/// router, shared by every chain stage.
#[derive(Debug)]
pub struct MemoryNamespaceCache {
    pub entries: Vec<CacheEntry>,
}

impl View for MemoryNamespaceCache {
    type V = Seq<CacheEntryModel>;

    open spec fn view(&self) -> Seq<CacheEntryModel> {
        self.entries@.map_values(|e: CacheEntry| e@)
    }
}

impl MemoryNamespaceCache {
    /// An empty cache.
    pub fn new() -> (r: MemoryNamespaceCache)
        ensures
            r@.len() == 0,
    {
        let r = MemoryNamespaceCache { entries: Vec::new() };
        proof {
            assert(r@ =~= Seq::<CacheEntryModel>::empty());
        }
        r
    }

    /// Read the known schema of a namespace. In memory and
    /// non-blocking: the read path never consults the catalog.
    pub fn get(&self, namespace: &str) -> (r: Option<&NamespaceSchema>)
        ensures
            match r {
                Some(s) => spec_find_cache_index(self@, namespace@) matches Some(i) && s@
                    == self@[i].schema,
                None => spec_find_cache_index(self@, namespace@) is None,
            },
    {
        match find_cache_index(&self.entries, namespace) {
            Some(i) => Some(&self.entries[i].schema),
            None => None,
        }
    }

    /// Merge newly accepted columns of one table into the namespace's
    /// slot. Only successful catalog merges feed this: a cached column
    /// keeps its type, so merges of disjoint columns commute and the
    /// union is cached.
    pub fn merge(
        &mut self,
        namespace: &str,
        namespace_id: NamespaceId,
        table: &str,
        new_columns: &Vec<Column>,
    )
        ensures
            final(self)@ == spec_cache_merge(
                old(self)@,
                namespace@,
                namespace_id.value,
                table@,
                column_pairs(new_columns@),
            ),
    {
        let ghost m = self@;
        let ghost pairs = column_pairs(new_columns@);
        let idx: usize;
        let ghost pre: Seq<CacheEntryModel>;
        let ghost base: Seq<SchemaColumnModel>;
        match find_cache_index(&self.entries, namespace) {
            Some(i) => {
                idx = i;
                proof {
                    pre = m;
                    base = m[i as int].schema.columns;
                }
            },
            None => {
                idx = self.entries.len();
                let entry = CacheEntry {
                    namespace: namespace.to_owned(),
                    schema: NamespaceSchema { namespace_id, columns: Vec::new() },
                };
                self.entries.push(entry);
                proof {
                    pre = self@;
                    base = Seq::<SchemaColumnModel>::empty();
                    assert(self@ =~~= m.push(
                        CacheEntryModel {
                            namespace: namespace@,
                            schema: NamespaceSchemaModel {
                                namespace_id: namespace_id.value,
                                columns: Seq::<SchemaColumnModel>::empty(),
                            },
                        },
                    ));
                    assert(self@[idx as int].schema.columns =~= base);
                }
            },
        }
        proof {
            assert(pre.update(idx as int, pre[idx as int]) =~~= pre);
            assert(pairs.skip(0) =~= pairs);
        }
        let mut k: usize = 0;
        while k < new_columns.len()
            invariant
                k <= new_columns@.len(),
                (idx as int) < pre.len(),
                pairs == column_pairs(new_columns@),
                self.entries@.len() == pre.len(),
                self@ == pre.update(
                    idx as int,
                    CacheEntryModel {
                        namespace: pre[idx as int].namespace,
                        schema: NamespaceSchemaModel {
                            namespace_id: pre[idx as int].schema.namespace_id,
                            columns: self@[idx as int].schema.columns,
                        },
                    },
                ),
                spec_schema_column_merge(base, table@, pairs) == spec_schema_column_merge(
                    self@[idx as int].schema.columns,
                    table@,
                    pairs.skip(k as int),
                ),
            decreases new_columns@.len() - k,
        {
            let ghost cur = self@[idx as int].schema.columns;
            proof {
                assert(pairs.skip(k as int)[0] == pairs[k as int]);
                assert(pairs.skip(k as int).skip(1) =~= pairs.skip(k as int + 1));
                assert(pairs[k as int].0 == new_columns@[k as int].name@);
            }
            let present = find_schema_column_index(
                &self.entries[idx].schema.columns,
                table,
                new_columns[k].name.as_str(),
            ).is_some();
            if !present {
                let col = SchemaColumn {
                    table: table.to_owned(),
                    column: new_columns[k].name.clone(),
                    column_type: new_columns[k].column_type,
                };
                let ghost cm = col@;
                let ghost prev = self@;
                let ghost prev_raw = self.entries@;
                self.entries[idx].schema.columns.push(col);
                proof {
                    assert(self@[idx as int].schema.columns =~= cur.push(cm));
                    assert(self@.len() == pre.len());
                    assert forall|t: int| 0 <= t < pre.len() && t != idx as int implies self@[t]
                        == pre[t] by {
                        assert(self.entries@[t] == prev_raw[t]);
                        assert(self@[t] == self.entries@[t]@);
                        assert(prev[t] == prev_raw[t]@);
                        assert(prev[t] == pre[t]);
                    }
                    assert(self@[idx as int].namespace == pre[idx as int].namespace);
                    assert(self@[idx as int].schema.namespace_id == pre[
                        idx as int
                    ].schema.namespace_id);
                    assert(self@ =~~= pre.update(
                        idx as int,
                        CacheEntryModel {
                            namespace: pre[idx as int].namespace,
                            schema: NamespaceSchemaModel {
                                namespace_id: pre[idx as int].schema.namespace_id,
                                columns: cur.push(cm),
                            },
                        },
                    ));
                }
            }
            k = k + 1;
        }
        proof {
            assert(pairs.skip(k as int) =~= Seq::<(Seq<char>, ColumnType)>::empty());
            let merged = spec_schema_column_merge(base, table@, pairs);
            assert(merged == self@[idx as int].schema.columns);
            match spec_find_cache_index(m, namespace@) {
                Some(i) => {
                    assert(pre == m);
                    lemma_find_cache_index_bounds(m, namespace@);
                    assert(self@ =~= spec_cache_merge(
                        m,
                        namespace@,
                        namespace_id.value,
                        table@,
                        pairs,
                    ));
                },
                None => {
                    assert(self@ =~= spec_cache_merge(
                        m,
                        namespace@,
                        namespace_id.value,
                        table@,
                        pairs,
                    ));
                },
            }
        }
    }
}

/// A found cache index is in bounds and names the namespace.
pub proof fn lemma_find_cache_index_bounds(entries: Seq<CacheEntryModel>, namespace: Seq<char>)
    ensures
        match spec_find_cache_index(entries, namespace) {
            Some(i) => 0 <= i < entries.len() && entries[i].namespace == namespace,
            None => true,
        },
    decreases entries.len(),
{
    if entries.len() > 0 && entries[0].namespace != namespace {
        lemma_find_cache_index_bounds(entries.skip(1), namespace);
        match spec_find_cache_index(entries.skip(1), namespace) {
            Some(j) => {
                assert(entries.skip(1)[j] == entries[j + 1]);
            },
            None => {},
        }
    }
}

/// Index of the cache slot of the given namespace.
fn find_cache_index(entries: &Vec<CacheEntry>, namespace: &str) -> (r: Option<usize>)
    ensures
        match r {
            Some(i) => i < entries@.len() && spec_find_cache_index(
                entries@.map_values(|e: CacheEntry| e@),
                namespace@,
            ) == Some(i as int),
            None => spec_find_cache_index(
                entries@.map_values(|e: CacheEntry| e@),
                namespace@,
            ) is None,
        },
{
    let ghost m = entries@.map_values(|e: CacheEntry| e@);
    let mut i: usize = 0;
    while i < entries.len()
        invariant
            i <= entries@.len(),
            m == entries@.map_values(|e: CacheEntry| e@),
            forall|k: int| 0 <= k < i ==> (#[trigger] m[k]).namespace != namespace@,
        decreases entries@.len() - i,
    {
        if str_eq(entries[i].namespace.as_str(), namespace) {
            proof {
                lemma_cache_index_at(m, namespace@, i as int);
            }
            return Some(i);
        }
        i = i + 1;
    }
    proof {
        lemma_cache_index_at(m, namespace@, i as int);
    }
    None
}

/// The first matching slot determines the cache index: with no match
/// before `i`, a match at `i` puts the index there, and no match at
/// all leaves the namespace uncached.
proof fn lemma_cache_index_at(entries: Seq<CacheEntryModel>, namespace: Seq<char>, i: int)
    requires
        0 <= i <= entries.len(),
        forall|k: int| 0 <= k < i ==> (#[trigger] entries[k]).namespace != namespace,
        i < entries.len() ==> entries[i].namespace == namespace,
    ensures
        i < entries.len() ==> spec_find_cache_index(entries, namespace) == Some(i),
        i == entries.len() ==> spec_find_cache_index(entries, namespace) is None,
    decreases entries.len(),
{
    if entries.len() > 0 && entries[0].namespace != namespace {
        assert(i >= 1);
        lemma_cache_index_at(entries.skip(1), namespace, i - 1);
        assert forall|k: int| 0 <= k < i - 1 implies (#[trigger] entries.skip(1)[k]).namespace
            != namespace by {
            assert(entries.skip(1)[k] == entries[k + 1]);
        }
        if i < entries.len() {
            assert(entries.skip(1)[i - 1] == entries[i]);
        }
    }
}

/// Index of the first cached column with the given table and name.
fn find_schema_column_index(columns: &Vec<SchemaColumn>, table: &str, column: &str) -> (r: Option<
    usize,
>)
    ensures
        match r {
            Some(i) => i < columns@.len() && spec_find_schema_column(
                columns@.map_values(|c: SchemaColumn| c@),
                table@,
                column@,
            ) == Some(columns@[i as int]@),
            None => spec_find_schema_column(
                columns@.map_values(|c: SchemaColumn| c@),
                table@,
                column@,
            ) is None,
        },
{
    let ghost m = columns@.map_values(|c: SchemaColumn| c@);
    let mut i: usize = 0;
    proof {
        assert(m.skip(0) =~= m);
    }
    while i < columns.len()
        invariant
            i <= columns@.len(),
            m == columns@.map_values(|c: SchemaColumn| c@),
            spec_find_schema_column(m.skip(i as int), table@, column@) == spec_find_schema_column(
                m,
                table@,
                column@,
            ),
        decreases columns@.len() - i,
    {
        proof {
            assert(m.skip(i as int)[0] == m[i as int]);
            assert(m.skip(i as int).skip(1) =~= m.skip(i as int + 1));
        }
        if str_eq(columns[i].table.as_str(), table) && str_eq(columns[i].column.as_str(), column) {
            proof {
                assert(spec_find_schema_column(m, table@, column@) == Some(m[i as int]));
            }
            return Some(i);
        }
        i = i + 1;
    }
    proof {
        assert(m.skip(i as int) =~= Seq::<SchemaColumnModel>::empty());
    }
    None
}

/// Look up the cached type of one column of one table.
pub fn schema_column_type(schema: &NamespaceSchema, table: &str, column: &str) -> (r: Option<
    ColumnType,
>)
    ensures
        match r {
            Some(t) => spec_find_schema_column(schema@.columns, table@, column@) matches Some(c)
                && c.column_type == t,
            None => spec_find_schema_column(schema@.columns, table@, column@) is None,
        },
{
    match find_schema_column_index(&schema.columns, table, column) {
        Some(i) => Some(schema.columns[i].column_type),
        None => None,
    }
}

/// Merging never changes a cached column: a column present before a
/// merge is present after it, with the same type.
pub proof fn lemma_schema_merge_preserves(
    columns: Seq<SchemaColumnModel>,
    merge_table: Seq<char>,
    pairs: Seq<(Seq<char>, ColumnType)>,
    table: Seq<char>,
    column: Seq<char>,
    c: SchemaColumnModel,
)
    requires
        spec_find_schema_column(columns, table, column) == Some(c),
    ensures
        spec_find_schema_column(spec_schema_column_merge(columns, merge_table, pairs), table, column)
            == Some(c),
    decreases pairs.len(),
{
    if pairs.len() > 0 {
        let next = match spec_find_schema_column(columns, merge_table, pairs[0].0) {
            Some(_) => columns,
            None => columns.push(
                SchemaColumnModel { table: merge_table, column: pairs[0].0, column_type: pairs[0].1 },
            ),
        };
        if spec_find_schema_column(columns, merge_table, pairs[0].0) is None {
            lemma_find_schema_column_push(
                columns,
                SchemaColumnModel { table: merge_table, column: pairs[0].0, column_type: pairs[0].1 },
                table,
                column,
            );
        }
        lemma_schema_merge_preserves(next, merge_table, pairs.skip(1), table, column, c);
    }
}

/// A merge leaves columns it does not name unchanged, and afterwards
/// every named column is cached: with the type it already had, or
/// with the requested type if it was absent. Merges of disjoint
/// column sets therefore both succeed and the union is cached.
pub proof fn lemma_schema_merge_present(
    columns: Seq<SchemaColumnModel>,
    table: Seq<char>,
    pairs: Seq<(Seq<char>, ColumnType)>,
    k: int,
)
    requires
        0 <= k < pairs.len(),
        forall|i: int, j: int| 0 <= i < j < pairs.len() ==> pairs[i].0 != pairs[j].0,
    ensures
        match spec_find_schema_column(spec_schema_column_merge(columns, table, pairs), table, pairs[k].0) {
            Some(c) => c.column_type == (match spec_find_schema_column(columns, table, pairs[k].0) {
                Some(prior) => prior.column_type,
                None => pairs[k].1,
            }),
            None => false,
        },
    decreases pairs.len(),
{
    let new0 = SchemaColumnModel { table, column: pairs[0].0, column_type: pairs[0].1 };
    let next = match spec_find_schema_column(columns, table, pairs[0].0) {
        Some(_) => columns,
        None => columns.push(new0),
    };
    if k == 0 {
        match spec_find_schema_column(columns, table, pairs[0].0) {
            Some(prior) => {
                lemma_schema_merge_preserves(columns, table, pairs.skip(1), table, pairs[0].0, prior);
            },
            None => {
                lemma_find_schema_column_push(columns, new0, table, pairs[0].0);
                lemma_schema_merge_preserves(next, table, pairs.skip(1), table, pairs[0].0, new0);
            },
        }
    } else {
        assert(pairs.skip(1)[k - 1] == pairs[k]);
        lemma_schema_merge_present(next, table, pairs.skip(1), k - 1);
        if spec_find_schema_column(columns, table, pairs[0].0) is None {
            lemma_find_schema_column_push(columns, new0, table, pairs[k].0);
            assert(pairs[0].0 != pairs[k].0);
        }
    }
}

/// When every named column is already cached, a merge changes
/// nothing.
pub proof fn lemma_schema_merge_identity(
    columns: Seq<SchemaColumnModel>,
    table: Seq<char>,
    pairs: Seq<(Seq<char>, ColumnType)>,
)
    requires
        forall|k: int|
            0 <= k < pairs.len() ==> spec_find_schema_column(
                columns,
                table,
                (#[trigger] pairs[k]).0,
            ) is Some,
    ensures
        spec_schema_column_merge(columns, table, pairs) == columns,
    decreases pairs.len(),
{
    if pairs.len() > 0 {
        assert(spec_find_schema_column(columns, table, pairs[0].0) is Some);
        assert forall|k: int| 0 <= k < pairs.skip(1).len() implies spec_find_schema_column(
            columns,
            table,
            (#[trigger] pairs.skip(1)[k]).0,
        ) is Some by {
            assert(pairs.skip(1)[k] == pairs[k + 1]);
        }
        lemma_schema_merge_identity(columns, table, pairs.skip(1));
    }
}

/// What a merge produces: the prior columns stand unchanged in
/// place, and everything appended is one of the requested pairs, for
/// the merged table.
pub proof fn lemma_schema_merge_members(
    columns: Seq<SchemaColumnModel>,
    table: Seq<char>,
    pairs: Seq<(Seq<char>, ColumnType)>,
)
    ensures
        ({
            let merged = spec_schema_column_merge(columns, table, pairs);
            &&& merged.len() >= columns.len()
            &&& forall|j: int| 0 <= j < columns.len() ==> merged[j] == columns[j]
            &&& forall|j: int|
                columns.len() <= j < merged.len() ==> ((#[trigger] merged[j]).table == table
                    && exists|k: int|
                    0 <= k < pairs.len() && merged[j].column == (#[trigger] pairs[k]).0
                        && merged[j].column_type == pairs[k].1)
        }),
    decreases pairs.len(),
{
    if pairs.len() > 0 {
        let next = match spec_find_schema_column(columns, table, pairs[0].0) {
            Some(_) => columns,
            None => columns.push(
                SchemaColumnModel { table, column: pairs[0].0, column_type: pairs[0].1 },
            ),
        };
        lemma_schema_merge_members(next, table, pairs.skip(1));
        let merged = spec_schema_column_merge(columns, table, pairs);
        assert forall|j: int|
            columns.len() <= j < merged.len() implies ((#[trigger] merged[j]).table == table
            && exists|k: int|
            0 <= k < pairs.len() && merged[j].column == (#[trigger] pairs[k]).0
                && merged[j].column_type == pairs[k].1) by {
            if j < next.len() {
                assert(next[j] == merged[j]);
                assert(merged[j].column == pairs[0].0 && merged[j].column_type == pairs[0].1);
            } else {
                let k = choose|k: int|
                    0 <= k < pairs.skip(1).len() && merged[j].column == (#[trigger] pairs.skip(
                        1,
                    )[k]).0 && merged[j].column_type == pairs.skip(1)[k].1;
                assert(pairs.skip(1)[k] == pairs[k + 1]);
            }
        }
    }
}

/// A found cached column stands at some index, and carries the key
/// it was looked up by.
pub proof fn lemma_find_schema_column_mem(
    columns: Seq<SchemaColumnModel>,
    table: Seq<char>,
    column: Seq<char>,
)
    ensures
        match spec_find_schema_column(columns, table, column) {
            Some(c) => c.table == table && c.column == column && exists|j: int|
                0 <= j < columns.len() && columns[j] == c,
            None => true,
        },
    decreases columns.len(),
{
    if columns.len() > 0 {
        if columns[0].table == table && columns[0].column == column {
            assert(columns[0] == columns[0]);
        } else {
            lemma_find_schema_column_mem(columns.skip(1), table, column);
            match spec_find_schema_column(columns.skip(1), table, column) {
                Some(c) => {
                    let j = choose|j: int| 0 <= j < columns.skip(1).len() && columns.skip(1)[j] == c;
                    assert(columns[j + 1] == c);
                },
                None => {},
            }
        }
    }
}

/// Effect of appending one cached column on a column lookup.
pub proof fn lemma_find_schema_column_push(
    columns: Seq<SchemaColumnModel>,
    c: SchemaColumnModel,
    table: Seq<char>,
    column: Seq<char>,
)
    ensures
        spec_find_schema_column(columns.push(c), table, column) == (match spec_find_schema_column(
            columns,
            table,
            column,
        ) {
            Some(x) => Some(x),
            None => if c.table == table && c.column == column {
                Some(c)
            } else {
                None
            },
        }),
    decreases columns.len(),
{
    if columns.len() == 0 {
        assert(columns.push(c)[0] == c);
        assert(columns.push(c).skip(1) =~= Seq::<SchemaColumnModel>::empty());
        assert(spec_find_schema_column(Seq::<SchemaColumnModel>::empty(), table, column) is None);
    } else {
        assert(columns.push(c)[0] == columns[0]);
        assert(columns.push(c).skip(1) =~= columns.skip(1).push(c));
        lemma_find_schema_column_push(columns.skip(1), c, table, column);
    }
}

} // verus!
