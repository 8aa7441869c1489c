//! In-memory catalog: the transactional metadata store of the router.
//!
//! The catalog arbitrates all metadata races: its get-or-create
//! operations are atomic and idempotent as observed by callers, so two
//! writes racing to create the same namespace both succeed and observe
//! the same identity. Every operation's contract equates the new state
//! with a pure transition function over [`CatalogModel`], and the
//! idempotency and schema-monotonicity laws are proved over those
//! transitions.

use vstd::prelude::*;
use crate::error::RouterError;
use crate::text::str_eq;
use crate::types::{Column, ColumnId, ColumnType, NamespaceId, QueryPoolId, TableId, TopicId};

verus! {

/// Catalog identifiers fit in a signed 64-bit integer.
pub const MAX_CATALOG_ID: i64 = 0x7fff_ffff_ffff_ffff;

/// A log topic known to the catalog.
#[derive(Clone, Debug)]
pub struct Topic {
    pub id: TopicId,
    pub name: String,
}

/// A namespace: a logical tenant grouping tables. Identity is
/// immutable after creation.
#[derive(Clone, Debug)]
pub struct Namespace {
    pub id: NamespaceId,
    pub name: String,
    /// Retention period description, e.g. unbounded.
    pub retention: String,
    pub topic_id: TopicId,
    pub query_pool_id: QueryPoolId,
}

/// A table, owned by exactly one namespace, created lazily on first
/// write referencing it.
#[derive(Clone, Debug)]
pub struct Table {
    pub id: TableId,
    pub name: String,
    pub namespace_id: NamespaceId,
}

/// A column accepted into a table's schema. The set of column records
/// for a table is its schema; it only grows, and a column never
/// changes its type.
#[derive(Clone, Debug)]
pub struct ColumnRecord {
    pub id: ColumnId,
    pub table_id: TableId,
    pub name: String,
    pub column_type: ColumnType,
}

/// Mathematical image of a [`Topic`].
pub struct TopicModel {
    pub id: i64,
    pub name: Seq<char>,
}

/// Mathematical image of a [`Namespace`].
pub struct NamespaceModel {
    pub id: i64,
    pub name: Seq<char>,
    pub retention: Seq<char>,
    pub topic_id: i64,
    pub query_pool_id: i64,
}

/// Mathematical image of a [`Table`].
pub struct TableModel {
    pub id: i64,
    pub name: Seq<char>,
    pub namespace_id: i64,
}

/// Mathematical image of a [`ColumnRecord`].
pub struct ColumnModel {
    pub id: i64,
    pub table_id: i64,
    pub name: Seq<char>,
    pub column_type: ColumnType,
}

/// Mathematical image of the whole catalog.
pub struct CatalogModel {
    pub topics: Seq<TopicModel>,
    pub namespaces: Seq<NamespaceModel>,
    pub tables: Seq<TableModel>,
    pub columns: Seq<ColumnModel>,
}

impl View for Topic {
    type V = TopicModel;

    open spec fn view(&self) -> TopicModel {
        TopicModel { id: self.id.value, name: self.name@ }
    }
}

impl View for Namespace {
    type V = NamespaceModel;

    open spec fn view(&self) -> NamespaceModel {
        NamespaceModel {
            id: self.id.value,
            name: self.name@,
            retention: self.retention@,
            topic_id: self.topic_id.value,
            query_pool_id: self.query_pool_id.value,
        }
    }
}

impl View for Table {
    type V = TableModel;

    open spec fn view(&self) -> TableModel {
        TableModel { id: self.id.value, name: self.name@, namespace_id: self.namespace_id.value }
    }
}

impl View for ColumnRecord {
    type V = ColumnModel;

    open spec fn view(&self) -> ColumnModel {
        ColumnModel {
            id: self.id.value,
            table_id: self.table_id.value,
            name: self.name@,
            column_type: self.column_type,
        }
    }
}

/// The (name, type) pairs named by a column request.
pub open spec fn column_pairs(cols: Seq<Column>) -> Seq<(Seq<char>, ColumnType)> {
    cols.map_values(|c: Column| (c.name@, c.column_type))
}

/// The request names each column at most once.
pub open spec fn distinct_column_names(want: Seq<(Seq<char>, ColumnType)>) -> bool {
    forall|i: int, j: int| 0 <= i < j < want.len() ==> want[i].0 != want[j].0
}

/// First topic with the given name.
pub open spec fn spec_find_topic(topics: Seq<TopicModel>, name: Seq<char>) -> Option<TopicModel>
    decreases topics.len(),
{
    if topics.len() == 0 {
        None
    } else if topics[0].name == name {
        Some(topics[0])
    } else {
        spec_find_topic(topics.skip(1), name)
    }
}

/// First namespace with the given name.
pub open spec fn spec_find_namespace(
    namespaces: Seq<NamespaceModel>,
    name: Seq<char>,
) -> Option<NamespaceModel>
    decreases namespaces.len(),
{
    if namespaces.len() == 0 {
        None
    } else if namespaces[0].name == name {
        Some(namespaces[0])
    } else {
        spec_find_namespace(namespaces.skip(1), name)
    }
}

/// First table with the given name in the given namespace.
pub open spec fn spec_find_table(
    tables: Seq<TableModel>,
    namespace_id: i64,
    name: Seq<char>,
) -> Option<TableModel>
    decreases tables.len(),
{
    if tables.len() == 0 {
        None
    } else if tables[0].namespace_id == namespace_id && tables[0].name == name {
        Some(tables[0])
    } else {
        spec_find_table(tables.skip(1), namespace_id, name)
    }
}

/// First column with the given name in the given table.
pub open spec fn spec_find_column(
    columns: Seq<ColumnModel>,
    table_id: i64,
    name: Seq<char>,
) -> Option<ColumnModel>
    decreases columns.len(),
{
    if columns.len() == 0 {
        None
    } else if columns[0].table_id == table_id && columns[0].name == name {
        Some(columns[0])
    } else {
        spec_find_column(columns.skip(1), table_id, name)
    }
}

/// Transition of `get_or_create_topic`: return the existing topic, or
/// append one with the next identifier.
pub open spec fn spec_topic_create_or_get(m: CatalogModel, name: Seq<char>) -> (
    CatalogModel,
    TopicModel,
) {
    match spec_find_topic(m.topics, name) {
        Some(t) => (m, t),
        None => {
            let t = TopicModel { id: (m.topics.len() + 1) as i64, name };
            (
                CatalogModel {
                    topics: m.topics.push(t),
                    namespaces: m.namespaces,
                    tables: m.tables,
                    columns: m.columns,
                },
                t,
            )
        },
    }
}

/// Transition of `get_or_create_namespace`.
pub open spec fn spec_namespace_create_or_get(
    m: CatalogModel,
    name: Seq<char>,
    retention: Seq<char>,
    topic_id: i64,
    query_pool_id: i64,
) -> (CatalogModel, NamespaceModel) {
    match spec_find_namespace(m.namespaces, name) {
        Some(ns) => (m, ns),
        None => {
            let ns = NamespaceModel {
                id: (m.namespaces.len() + 1) as i64,
                name,
                retention,
                topic_id,
                query_pool_id,
            };
            (
                CatalogModel {
                    topics: m.topics,
                    namespaces: m.namespaces.push(ns),
                    tables: m.tables,
                    columns: m.columns,
                },
                ns,
            )
        },
    }
}

/// Transition of `get_or_create_table`.
pub open spec fn spec_table_create_or_get(
    m: CatalogModel,
    namespace_id: i64,
    name: Seq<char>,
) -> (CatalogModel, TableModel) {
    match spec_find_table(m.tables, namespace_id, name) {
        Some(t) => (m, t),
        None => {
            let t = TableModel { id: (m.tables.len() + 1) as i64, name, namespace_id };
            (
                CatalogModel {
                    topics: m.topics,
                    namespaces: m.namespaces,
                    tables: m.tables.push(t),
                    columns: m.columns,
                },
                t,
            )
        },
    }
}

/// A requested column disagrees with the type already established for
/// its name.
pub open spec fn spec_columns_conflict(
    columns: Seq<ColumnModel>,
    table_id: i64,
    want: Seq<(Seq<char>, ColumnType)>,
) -> bool {
    exists|k: int|
        0 <= k < want.len() && (match spec_find_column(columns, table_id, (#[trigger] want[k]).0) {
            Some(c) => c.column_type != want[k].1,
            None => false,
        })
}

/// Transition of a conflict-free `get_or_create_columns`: append a
/// record for every requested column not yet present, in request
/// order.
pub open spec fn spec_columns_apply(
    columns: Seq<ColumnModel>,
    table_id: i64,
    want: Seq<(Seq<char>, ColumnType)>,
) -> Seq<ColumnModel>
    decreases want.len(),
{
    if want.len() == 0 {
        columns
    } else {
        let next = match spec_find_column(columns, table_id, want[0].0) {
            Some(_) => columns,
            None => columns.push(
                ColumnModel {
                    id: (columns.len() + 1) as i64,
                    table_id,
                    name: want[0].0,
                    column_type: want[0].1,
                },
            ),
        };
        spec_columns_apply(next, table_id, want.skip(1))
    }
}

/// The shared metadata store, in memory. The production deployment
/// puts the same contract over a networked, transactional backend;
/// the two are never mixed at runtime.
#[derive(Debug)]
pub struct MemCatalog {
    pub topics: Vec<Topic>,
    pub namespaces: Vec<Namespace>,
    pub tables: Vec<Table>,
    pub columns: Vec<ColumnRecord>,
}

impl View for MemCatalog {
    type V = CatalogModel;

    open spec fn view(&self) -> CatalogModel {
        CatalogModel {
            topics: self.topics@.map_values(|t: Topic| t@),
            namespaces: self.namespaces@.map_values(|n: Namespace| n@),
            tables: self.tables@.map_values(|t: Table| t@),
            columns: self.columns@.map_values(|c: ColumnRecord| c@),
        }
    }
}

/// Well-formedness of a catalog state: identifiers are dense and
/// unique per kind, and no two records share a key.
pub open spec fn catalog_wf(m: CatalogModel) -> bool {
    &&& m.topics.len() < MAX_CATALOG_ID
    &&& m.namespaces.len() < MAX_CATALOG_ID
    &&& m.tables.len() < MAX_CATALOG_ID
    &&& m.columns.len() < MAX_CATALOG_ID
    &&& forall|i: int| 0 <= i < m.topics.len() ==> #[trigger] m.topics[i].id == i + 1
    &&& forall|i: int| 0 <= i < m.namespaces.len() ==> #[trigger] m.namespaces[i].id == i + 1
    &&& forall|i: int| 0 <= i < m.tables.len() ==> #[trigger] m.tables[i].id == i + 1
    &&& forall|i: int| 0 <= i < m.columns.len() ==> #[trigger] m.columns[i].id == i + 1
    &&& forall|i: int, j: int|
        0 <= i < j < m.topics.len() ==> m.topics[i].name != m.topics[j].name
    &&& forall|i: int, j: int|
        0 <= i < j < m.namespaces.len() ==> m.namespaces[i].name != m.namespaces[j].name
    &&& forall|i: int, j: int|
        0 <= i < j < m.tables.len() ==> !(m.tables[i].name == m.tables[j].name
            && m.tables[i].namespace_id == m.tables[j].namespace_id)
    &&& forall|i: int, j: int|
        0 <= i < j < m.columns.len() ==> !(m.columns[i].name == m.columns[j].name
            && m.columns[i].table_id == m.columns[j].table_id)
}

impl MemCatalog {
    /// The catalog state is well formed.
    pub open spec fn wf(&self) -> bool {
        catalog_wf(self@)
    }

    /// An empty catalog.
    pub fn new() -> (r: MemCatalog)
        ensures
            r.wf(),
            r@.topics.len() == 0,
            r@.namespaces.len() == 0,
            r@.tables.len() == 0,
            r@.columns.len() == 0,
    {
        let r = MemCatalog {
            topics: Vec::new(),
            namespaces: Vec::new(),
            tables: Vec::new(),
            columns: Vec::new(),
        };
        proof {
            assert(r@.topics =~= Seq::<TopicModel>::empty());
            assert(r@.namespaces =~= Seq::<NamespaceModel>::empty());
            assert(r@.tables =~= Seq::<TableModel>::empty());
            assert(r@.columns =~= Seq::<ColumnModel>::empty());
        }
        r
    }

    /// Return the topic with this name, creating it if absent.
    /// Atomic and idempotent: repeated and racing calls observe the
    /// same identity.
    pub fn get_or_create_topic(&mut self, name: &str) -> (t: Topic)
        requires
            old(self).wf(),
            old(self)@.topics.len() + 1 < MAX_CATALOG_ID,
        ensures
            final(self).wf(),
            t@ == spec_topic_create_or_get(old(self)@, name@).1,
            final(self)@ == spec_topic_create_or_get(old(self)@, name@).0,
    {
        let ghost m = self@;
        let mut i: usize = 0;
        proof {
            assert(m.topics.skip(0) =~= m.topics);
        }
        while i < self.topics.len()
            invariant
                i <= self.topics@.len(),
                m == self@,
                catalog_wf(m),
                spec_find_topic(m.topics.skip(i as int), name@) == spec_find_topic(
                    m.topics,
                    name@,
                ),
                forall|k: int| 0 <= k < i ==> m.topics[k].name != name@,
            decreases self.topics@.len() - i,
        {
            proof {
                assert(m.topics.skip(i as int)[0] == m.topics[i as int]);
                assert(m.topics.skip(i as int).skip(1) =~= m.topics.skip(i as int + 1));
            }
            if str_eq(self.topics[i].name.as_str(), name) {
                let found = Topic { id: self.topics[i].id, name: self.topics[i].name.clone() };
                proof {
                    assert(spec_find_topic(m.topics, name@) == Some(m.topics[i as int]));
                }
                return found;
            }
            i = i + 1;
        }
        proof {
            assert(m.topics.skip(i as int) =~= Seq::<TopicModel>::empty());
            assert(spec_find_topic(m.topics, name@) is None);
        }
        let id: i64 = (self.topics.len() as i64) + 1;
        let created = Topic { id: TopicId { value: id }, name: name.to_owned() };
        let out = Topic { id: created.id, name: created.name.clone() };
        self.topics.push(created);
        proof {
            assert(self@.topics =~= m.topics.push(out@));
            assert(self@.namespaces =~= m.namespaces);
            assert(self@.tables =~= m.tables);
            assert(self@.columns =~= m.columns);
            assert(self@ == spec_topic_create_or_get(m, name@).0);
        }
        out
    }

    /// Return the namespace with this name, creating it with the
    /// given retention, topic and query pool if absent. Atomic and
    /// idempotent.
    pub fn get_or_create_namespace(
        &mut self,
        name: &str,
        retention: &str,
        topic_id: TopicId,
        query_pool_id: QueryPoolId,
    ) -> (ns: Namespace)
        requires
            old(self).wf(),
            old(self)@.namespaces.len() + 1 < MAX_CATALOG_ID,
        ensures
            final(self).wf(),
            ns@ == spec_namespace_create_or_get(
                old(self)@,
                name@,
                retention@,
                topic_id.value,
                query_pool_id.value,
            ).1,
            final(self)@ == spec_namespace_create_or_get(
                old(self)@,
                name@,
                retention@,
                topic_id.value,
                query_pool_id.value,
            ).0,
    {
        let ghost m = self@;
        let mut i: usize = 0;
        proof {
            assert(m.namespaces.skip(0) =~= m.namespaces);
        }
        while i < self.namespaces.len()
            invariant
                i <= self.namespaces@.len(),
                m == self@,
                catalog_wf(m),
                spec_find_namespace(m.namespaces.skip(i as int), name@) == spec_find_namespace(
                    m.namespaces,
                    name@,
                ),
                forall|k: int| 0 <= k < i ==> m.namespaces[k].name != name@,
            decreases self.namespaces@.len() - i,
        {
            proof {
                assert(m.namespaces.skip(i as int)[0] == m.namespaces[i as int]);
                assert(m.namespaces.skip(i as int).skip(1) =~= m.namespaces.skip(i as int + 1));
            }
            if str_eq(self.namespaces[i].name.as_str(), name) {
                let found = Namespace {
                    id: self.namespaces[i].id,
                    name: self.namespaces[i].name.clone(),
                    retention: self.namespaces[i].retention.clone(),
                    topic_id: self.namespaces[i].topic_id,
                    query_pool_id: self.namespaces[i].query_pool_id,
                };
                proof {
                    assert(spec_find_namespace(m.namespaces, name@) == Some(
                        m.namespaces[i as int],
                    ));
                }
                return found;
            }
            i = i + 1;
        }
        proof {
            assert(m.namespaces.skip(i as int) =~= Seq::<NamespaceModel>::empty());
            assert(spec_find_namespace(m.namespaces, name@) is None);
        }
        let id: i64 = (self.namespaces.len() as i64) + 1;
        let created = Namespace {
            id: NamespaceId { value: id },
            name: name.to_owned(),
            retention: retention.to_owned(),
            topic_id,
            query_pool_id,
        };
        let out = Namespace {
            id: created.id,
            name: created.name.clone(),
            retention: created.retention.clone(),
            topic_id: created.topic_id,
            query_pool_id: created.query_pool_id,
        };
        self.namespaces.push(created);
        proof {
            assert(self@.namespaces =~= m.namespaces.push(out@));
            assert(self@.topics =~= m.topics);
            assert(self@.tables =~= m.tables);
            assert(self@.columns =~= m.columns);
            assert(self@ == spec_namespace_create_or_get(
                m,
                name@,
                retention@,
                topic_id.value,
                query_pool_id.value,
            ).0);
        }
        out
    }

    /// Return the table with this name in this namespace, creating it
    /// if absent. Atomic and idempotent.
    pub fn get_or_create_table(&mut self, name: &str, namespace_id: NamespaceId) -> (t: Table)
        requires
            old(self).wf(),
            old(self)@.tables.len() + 1 < MAX_CATALOG_ID,
        ensures
            final(self).wf(),
            t@ == spec_table_create_or_get(old(self)@, namespace_id.value, name@).1,
            final(self)@ == spec_table_create_or_get(old(self)@, namespace_id.value, name@).0,
    {
        let ghost m = self@;
        let mut i: usize = 0;
        proof {
            assert(m.tables.skip(0) =~= m.tables);
        }
        while i < self.tables.len()
            invariant
                i <= self.tables@.len(),
                m == self@,
                catalog_wf(m),
                spec_find_table(m.tables.skip(i as int), namespace_id.value, name@)
                    == spec_find_table(m.tables, namespace_id.value, name@),
                forall|k: int|
                    0 <= k < i ==> !(m.tables[k].name == name@ && m.tables[k].namespace_id
                        == namespace_id.value),
            decreases self.tables@.len() - i,
        {
            proof {
                assert(m.tables.skip(i as int)[0] == m.tables[i as int]);
                assert(m.tables.skip(i as int).skip(1) =~= m.tables.skip(i as int + 1));
            }
            if self.tables[i].namespace_id.value == namespace_id.value && str_eq(
                self.tables[i].name.as_str(),
                name,
            ) {
                let found = Table {
                    id: self.tables[i].id,
                    name: self.tables[i].name.clone(),
                    namespace_id: self.tables[i].namespace_id,
                };
                proof {
                    assert(spec_find_table(m.tables, namespace_id.value, name@) == Some(
                        m.tables[i as int],
                    ));
                }
                return found;
            }
            i = i + 1;
        }
        proof {
            assert(m.tables.skip(i as int) =~= Seq::<TableModel>::empty());
            assert(spec_find_table(m.tables, namespace_id.value, name@) is None);
        }
        let id: i64 = (self.tables.len() as i64) + 1;
        let created = Table { id: TableId { value: id }, name: name.to_owned(), namespace_id };
        let out = Table { id: created.id, name: created.name.clone(), namespace_id: created.namespace_id };
        self.tables.push(created);
        proof {
            assert(self@.tables =~= m.tables.push(out@));
            assert(self@.topics =~= m.topics);
            assert(self@.namespaces =~= m.namespaces);
            assert(self@.columns =~= m.columns);
            assert(self@ == spec_table_create_or_get(m, namespace_id.value, name@).0);
        }
        out
    }

    /// Establish every requested (name, type) column for the table,
    /// creating the absent ones. Atomic: when any requested column
    /// disagrees with the type already established for its name, the
    /// whole request is rejected and nothing changes.
    pub fn get_or_create_columns(&mut self, table_id: TableId, want: &Vec<Column>) -> (r: Result<
        (),
        RouterError,
    >)
        requires
            old(self).wf(),
            distinct_column_names(column_pairs(want@)),
            old(self)@.columns.len() + want@.len() < MAX_CATALOG_ID,
        ensures
            final(self).wf(),
            match r {
                Ok(_) => {
                    &&& !spec_columns_conflict(
                        old(self)@.columns,
                        table_id.value,
                        column_pairs(want@),
                    )
                    &&& final(self)@ == CatalogModel {
                        topics: old(self)@.topics,
                        namespaces: old(self)@.namespaces,
                        tables: old(self)@.tables,
                        columns: spec_columns_apply(
                            old(self)@.columns,
                            table_id.value,
                            column_pairs(want@),
                        ),
                    }
                    &&& forall|k: int|
                        0 <= k < want@.len() ==> (match spec_find_column(
                            final(self)@.columns,
                            table_id.value,
                            (#[trigger] column_pairs(want@)[k]).0,
                        ) {
                            Some(c) => c.column_type == column_pairs(want@)[k].1,
                            None => false,
                        })
                },
                Err(e) => {
                    &&& spec_columns_conflict(
                        old(self)@.columns,
                        table_id.value,
                        column_pairs(want@),
                    )
                    &&& final(self)@ == old(self)@
                    &&& e matches RouterError::SchemaConflict { column, existing, requested }
                        && (spec_find_column(old(self)@.columns, table_id.value, column@)
                        matches Some(c) && c.column_type == existing && existing != requested)
                },
            },
    {
        let ghost m = self@;
        let ghost pairs = column_pairs(want@);
        // First pass: hold every requested column against the schema
        // already established; reject the whole request on the first
        // disagreement, before anything is created.
        let mut k: usize = 0;
        while k < want.len()
            invariant
                k <= want@.len(),
                m == self@,
                catalog_wf(m),
                pairs == column_pairs(want@),
                forall|j: int|
                    0 <= j < k ==> (match spec_find_column(
                        m.columns,
                        table_id.value,
                        (#[trigger] pairs[j]).0,
                    ) {
                        Some(c) => c.column_type == pairs[j].1,
                        None => true,
                    }),
            decreases want@.len() - k,
        {
            proof {
                assert(pairs[k as int].0 == want@[k as int].name@);
                assert(pairs[k as int].1 == want@[k as int].column_type);
            }
            match find_column_index(&self.columns, table_id, want[k].name.as_str()) {
                Some(i) => {
                    if self.columns[i].column_type != want[k].column_type {
                        return Err(
                            RouterError::SchemaConflict {
                                column: want[k].name.clone(),
                                existing: self.columns[i].column_type,
                                requested: want[k].column_type,
                            },
                        );
                    }
                },
                None => {},
            }
            k = k + 1;
        }
        proof {
            assert(!spec_columns_conflict(m.columns, table_id.value, pairs));
        }
        // Second pass: create what is absent, in request order.
        let mut k: usize = 0;
        proof {
            assert(pairs.skip(0) =~= pairs);
            assert(self@.columns =~= m.columns);
        }
        while k < want.len()
            invariant
                k <= want@.len(),
                catalog_wf(self@),
                self@.topics == m.topics,
                self@.namespaces == m.namespaces,
                self@.tables == m.tables,
                pairs == column_pairs(want@),
                distinct_column_names(pairs),
                self@.columns.len() <= m.columns.len() + k,
                m.columns.len() + want@.len() < MAX_CATALOG_ID,
                spec_columns_apply(m.columns, table_id.value, pairs) == spec_columns_apply(
                    self@.columns,
                    table_id.value,
                    pairs.skip(k as int),
                ),
                forall|j: int|
                    k <= j < pairs.len() ==> spec_find_column(
                        self@.columns,
                        table_id.value,
                        (#[trigger] pairs[j]).0,
                    ) == spec_find_column(m.columns, table_id.value, pairs[j].0),
                forall|j: int|
                    0 <= j < k ==> (match spec_find_column(
                        self@.columns,
                        table_id.value,
                        (#[trigger] pairs[j]).0,
                    ) {
                        Some(c) => c.column_type == pairs[j].1,
                        None => false,
                    }),
                forall|j: int|
                    0 <= j < pairs.len() ==> (match spec_find_column(
                        m.columns,
                        table_id.value,
                        (#[trigger] pairs[j]).0,
                    ) {
                        Some(c) => c.column_type == pairs[j].1,
                        None => true,
                    }),
            decreases want@.len() - k,
        {
            let ghost cur = self@.columns;
            proof {
                assert(pairs.skip(k as int)[0] == pairs[k as int]);
                assert(pairs.skip(k as int).skip(1) =~= pairs.skip(k as int + 1));
                assert(pairs[k as int].0 == want@[k as int].name@);
            }
            match find_column_index(&self.columns, table_id, want[k].name.as_str()) {
                Some(_) => {
                    proof {
                        assert(spec_find_column(cur, table_id.value, pairs[k as int].0) is Some);
                    }
                },
                None => {
                    let id: i64 = (self.columns.len() as i64) + 1;
                    let created = ColumnRecord {
                        id: ColumnId { value: id },
                        table_id,
                        name: want[k].name.clone(),
                        column_type: want[k].column_type,
                    };
                    let ghost cm = created@;
                    self.columns.push(created);
                    proof {
                        assert(self@.columns =~= cur.push(cm));
                        lemma_find_column_none(cur, table_id.value, pairs[k as int].0);
                        assert forall|j: int| 0 <= j < pairs.len() && j != k implies
                            spec_find_column(cur.push(cm), table_id.value, (#[trigger] pairs[j]).0)
                            == spec_find_column(cur, table_id.value, pairs[j].0) by {
                            lemma_find_column_push(cur, cm, table_id.value, pairs[j].0);
                            if j < k {
                                assert(spec_find_column(cur, table_id.value, pairs[j].0) is Some);
                            } else {
                                if cm.name == pairs[j].0 {
                                    assert(pairs[k as int].0 == pairs[j].0);
                                    assert(false);
                                }
                            }
                        }
                        lemma_find_column_push(cur, cm, table_id.value, pairs[k as int].0);
                        assert(spec_find_column(cur.push(cm), table_id.value, pairs[k as int].0)
                            == Some(cm));
                        // Uniqueness of the new (table, name) key.
                        assert forall|a: int, b: int|
                            0 <= a < b < cur.push(cm).len() implies !(cur.push(cm)[a].name == cur.push(
                            cm,
                        )[b].name && cur.push(cm)[a].table_id == cur.push(cm)[b].table_id) by {
                            if b == cur.len() as int {
                                assert(cur.push(cm)[a] == cur[a]);
                            }
                        }
                    }
                },
            }
            k = k + 1;
        }
        proof {
            assert(pairs.skip(k as int) =~= Seq::<(Seq<char>, ColumnType)>::empty());
            assert(spec_columns_apply(self@.columns, table_id.value, pairs.skip(k as int))
                == self@.columns);
        }
        Ok(())
    }
}

/// Index of the first column record matching the key, if any.
fn find_column_index(columns: &Vec<ColumnRecord>, table_id: TableId, name: &str) -> (r: Option<
    usize,
>)
    ensures
        match r {
            Some(i) => i < columns@.len() && spec_find_column(
                columns@.map_values(|c: ColumnRecord| c@),
                table_id.value,
                name@,
            ) == Some(columns@[i as int]@),
            None => spec_find_column(
                columns@.map_values(|c: ColumnRecord| c@),
                table_id.value,
                name@,
            ) is None,
        },
{
    let ghost m = columns@.map_values(|c: ColumnRecord| c@);
    let mut i: usize = 0;
    proof {
        assert(m.skip(0) =~= m);
    }
    while i < columns.len()
        invariant
            i <= columns@.len(),
            m == columns@.map_values(|c: ColumnRecord| c@),
            spec_find_column(m.skip(i as int), table_id.value, name@) == spec_find_column(
                m,
                table_id.value,
                name@,
            ),
        decreases columns@.len() - i,
    {
        proof {
            assert(m.skip(i as int)[0] == m[i as int]);
            assert(m.skip(i as int).skip(1) =~= m.skip(i as int + 1));
        }
        if columns[i].table_id.value == table_id.value && str_eq(columns[i].name.as_str(), name) {
            proof {
                assert(spec_find_column(m, table_id.value, name@) == Some(m[i as int]));
            }
            return Some(i);
        }
        i = i + 1;
    }
    proof {
        assert(m.skip(i as int) =~= Seq::<ColumnModel>::empty());
    }
    None
}

/// Effect of appending one column record on a column lookup.
pub proof fn lemma_find_column_push(
    columns: Seq<ColumnModel>,
    c: ColumnModel,
    table_id: i64,
    name: Seq<char>,
)
    ensures
        spec_find_column(columns.push(c), table_id, name) == (match spec_find_column(
            columns,
            table_id,
            name,
        ) {
            Some(x) => Some(x),
            None => if c.table_id == table_id && c.name == name {
                Some(c)
            } else {
                None
            },
        }),
    decreases columns.len(),
{
    if columns.len() == 0 {
        assert(columns.push(c)[0] == c);
        assert(columns.push(c).skip(1) =~= Seq::<ColumnModel>::empty());
        assert(spec_find_column(Seq::<ColumnModel>::empty(), table_id, name) is None);
    } else {
        assert(columns.push(c)[0] == columns[0]);
        assert(columns.push(c).skip(1) =~= columns.skip(1).push(c));
        lemma_find_column_push(columns.skip(1), c, table_id, name);
    }
}

/// A failed column lookup means no record carries the key.
pub proof fn lemma_find_column_none(columns: Seq<ColumnModel>, table_id: i64, name: Seq<char>)
    requires
        spec_find_column(columns, table_id, name) is None,
    ensures
        forall|i: int|
            0 <= i < columns.len() ==> !((#[trigger] columns[i]).table_id == table_id
                && columns[i].name == name),
    decreases columns.len(),
{
    if columns.len() > 0 {
        lemma_find_column_none(columns.skip(1), table_id, name);
        assert forall|i: int|
            0 <= i < columns.len() implies !((#[trigger] columns[i]).table_id == table_id
            && columns[i].name == name) by {
            if i > 0 {
                assert(columns.skip(1)[i - 1] == columns[i]);
            }
        }
    }
}

/// Effect of appending one namespace on a namespace lookup.
pub proof fn lemma_find_namespace_push(
    namespaces: Seq<NamespaceModel>,
    ns: NamespaceModel,
    name: Seq<char>,
)
    ensures
        spec_find_namespace(namespaces.push(ns), name) == (match spec_find_namespace(
            namespaces,
            name,
        ) {
            Some(x) => Some(x),
            None => if ns.name == name {
                Some(ns)
            } else {
                None
            },
        }),
    decreases namespaces.len(),
{
    if namespaces.len() == 0 {
        assert(namespaces.push(ns)[0] == ns);
        assert(namespaces.push(ns).skip(1) =~= Seq::<NamespaceModel>::empty());
        assert(spec_find_namespace(Seq::<NamespaceModel>::empty(), name) is None);
    } else {
        assert(namespaces.push(ns)[0] == namespaces[0]);
        assert(namespaces.push(ns).skip(1) =~= namespaces.skip(1).push(ns));
        lemma_find_namespace_push(namespaces.skip(1), ns, name);
    }
}

/// Effect of appending one table on a table lookup.
pub proof fn lemma_find_table_push(
    tables: Seq<TableModel>,
    t: TableModel,
    namespace_id: i64,
    name: Seq<char>,
)
    ensures
        spec_find_table(tables.push(t), namespace_id, name) == (match spec_find_table(
            tables,
            namespace_id,
            name,
        ) {
            Some(x) => Some(x),
            None => if t.namespace_id == namespace_id && t.name == name {
                Some(t)
            } else {
                None
            },
        }),
    decreases tables.len(),
{
    if tables.len() == 0 {
        assert(tables.push(t)[0] == t);
        assert(tables.push(t).skip(1) =~= Seq::<TableModel>::empty());
        assert(spec_find_table(Seq::<TableModel>::empty(), namespace_id, name) is None);
    } else {
        assert(tables.push(t)[0] == tables[0]);
        assert(tables.push(t).skip(1) =~= tables.skip(1).push(t));
        lemma_find_table_push(tables.skip(1), t, namespace_id, name);
    }
}

/// Idempotent namespace auto-creation: a second get-or-create with
/// the same name returns the same identity and leaves the catalog
/// unchanged, however the two calls interleave with each other.
pub proof fn lemma_namespace_autocreation_idempotent(
    m: CatalogModel,
    name: Seq<char>,
    retention: Seq<char>,
    topic_id: i64,
    query_pool_id: i64,
)
    ensures
        ({
            let (m1, ns1) = spec_namespace_create_or_get(m, name, retention, topic_id, query_pool_id);
            let (m2, ns2) = spec_namespace_create_or_get(
                m1,
                name,
                retention,
                topic_id,
                query_pool_id,
            );
            m2 == m1 && ns2 == ns1
        }),
{
    let (m1, ns1) = spec_namespace_create_or_get(m, name, retention, topic_id, query_pool_id);
    if spec_find_namespace(m.namespaces, name) is None {
        lemma_find_namespace_push(m.namespaces, ns1, name);
    }
}

/// Idempotent table auto-creation: a second get-or-create with the
/// same name and namespace returns the same identity and leaves the
/// catalog unchanged.
pub proof fn lemma_table_autocreation_idempotent(
    m: CatalogModel,
    namespace_id: i64,
    name: Seq<char>,
)
    ensures
        ({
            let (m1, t1) = spec_table_create_or_get(m, namespace_id, name);
            let (m2, t2) = spec_table_create_or_get(m1, namespace_id, name);
            m2 == m1 && t2 == t1
        }),
{
    let (m1, t1) = spec_table_create_or_get(m, namespace_id, name);
    if spec_find_table(m.tables, namespace_id, name) is None {
        lemma_find_table_push(m.tables, t1, namespace_id, name);
    }
}

/// Schema monotonicity, growth half: a column established before a
/// column merge is still established after it, with the same type,
/// whatever the merge requested and for whichever table.
pub proof fn lemma_columns_apply_preserves(
    columns: Seq<ColumnModel>,
    merge_table_id: i64,
    want: Seq<(Seq<char>, ColumnType)>,
    table_id: i64,
    name: Seq<char>,
    c: ColumnModel,
)
    requires
        spec_find_column(columns, table_id, name) == Some(c),
    ensures
        spec_find_column(spec_columns_apply(columns, merge_table_id, want), table_id, name)
            == Some(c),
    decreases want.len(),
{
    if want.len() > 0 {
        let next = match spec_find_column(columns, merge_table_id, want[0].0) {
            Some(_) => columns,
            None => columns.push(
                ColumnModel {
                    id: (columns.len() + 1) as i64,
                    table_id: merge_table_id,
                    name: want[0].0,
                    column_type: want[0].1,
                },
            ),
        };
        if spec_find_column(columns, merge_table_id, want[0].0) is None {
            lemma_find_column_push(
                columns,
                ColumnModel {
                    id: (columns.len() + 1) as i64,
                    table_id: merge_table_id,
                    name: want[0].0,
                    column_type: want[0].1,
                },
                table_id,
                name,
            );
        }
        lemma_columns_apply_preserves(next, merge_table_id, want.skip(1), table_id, name, c);
    }
}

/// When every requested column is already established, a merge
/// creates nothing and the catalog is unchanged.
pub proof fn lemma_columns_apply_identity(
    columns: Seq<ColumnModel>,
    table_id: i64,
    want: Seq<(Seq<char>, ColumnType)>,
)
    requires
        forall|k: int|
            0 <= k < want.len() ==> spec_find_column(
                columns,
                table_id,
                (#[trigger] want[k]).0,
            ) is Some,
    ensures
        spec_columns_apply(columns, table_id, want) == columns,
    decreases want.len(),
{
    if want.len() > 0 {
        assert(spec_find_column(columns, table_id, want[0].0) is Some);
        assert forall|k: int| 0 <= k < want.skip(1).len() implies spec_find_column(
            columns,
            table_id,
            (#[trigger] want.skip(1)[k]).0,
        ) is Some by {
            assert(want.skip(1)[k] == want[k + 1]);
        }
        lemma_columns_apply_identity(columns, table_id, want.skip(1));
    }
}

/// Schema monotonicity, rejection half: once a (name, type) column is
/// established for a table, any request claiming a different type for
/// that name conflicts and is rejected whole.
pub proof fn lemma_conflicting_request_rejected(
    columns: Seq<ColumnModel>,
    table_id: i64,
    want: Seq<(Seq<char>, ColumnType)>,
    k: int,
    c: ColumnModel,
)
    requires
        0 <= k < want.len(),
        spec_find_column(columns, table_id, want[k].0) == Some(c),
        c.column_type != want[k].1,
    ensures
        spec_columns_conflict(columns, table_id, want),
{
    assert(0 <= k < want.len() && (match spec_find_column(columns, table_id, (#[trigger] want[k]).0) {
        Some(x) => x.column_type != want[k].1,
        None => false,
    }));
}

} // verus!
