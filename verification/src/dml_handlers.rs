//! The DML handler chain: the ordered pipeline every write runs
//! through before it is durably queued.
//!
//! The stages, in required order: namespace and table auto-creation,
//! schema validation and merge, shard resolution and enqueue. Each
//! stage transforms or rejects the write; the chain composes them by
//! sequential application and stops at the first error. Side effects
//! are cumulative, not transactional: a write may create metadata and
//! still be rejected later, which is safe because metadata creation
//! is idempotent. A rejected write enqueues nothing: no partial row
//! application.

use vstd::prelude::*;
use crate::catalog::{
    catalog_wf, column_pairs, spec_columns_apply, spec_columns_conflict,
    spec_find_column, spec_find_namespace, spec_find_table, spec_namespace_create_or_get,
    spec_table_create_or_get, CatalogModel, MemCatalog, NamespaceModel, TableModel,
    MAX_CATALOG_ID,
};
use crate::dml::{spec_write_column_count, spec_write_columns, write_columns, DmlWrite};
use crate::error::RouterError;
use crate::namespace_cache::{
    schema_column_type, spec_cache_merge, spec_find_cache_index, spec_find_schema_column,
    spec_schema_column_merge, CacheEntryModel, MemoryNamespaceCache, SchemaColumnModel,
};
use crate::sequencer::{ShardedWriteBuffer, MAX_SEQUENCE};
use crate::types::{ColumnType, NamespaceId, QueryPoolId, SequenceNumber, ShardId, TableId, TopicId};

verus! {

/// Every column the cache holds is backed by the catalog: the entry's
/// namespace exists under the recorded identifier, the column's table
/// exists in that namespace, and the catalog holds the column with
/// the cached type. The cache may lag behind the catalog but never
/// contradicts it; the catalog stays the tie-breaker of record.
pub open spec fn cache_coherent(cache: Seq<CacheEntryModel>, m: CatalogModel) -> bool {
    &&& forall|e: int|
        0 <= e < cache.len() ==> (match spec_find_namespace(
            m.namespaces,
            (#[trigger] cache[e]).namespace,
        ) {
            Some(ns) => ns.id == cache[e].schema.namespace_id,
            None => false,
        })
    &&& forall|e: int, c: int|
        0 <= e < cache.len() && 0 <= c < cache[e].schema.columns.len() ==> {
            let entry = cache[e];
            let col = #[trigger] cache[e].schema.columns[c];
            match spec_find_table(m.tables, entry.schema.namespace_id, col.table) {
                Some(t) => match spec_find_column(m.columns, t.id, col.column) {
                    Some(cc) => cc.column_type == col.column_type,
                    None => false,
                },
                None => false,
            }
        }
}

/// Transition of the auto-creation stage: get or create the write's
/// namespace, then its table.
pub open spec fn spec_autocreate(
    m: CatalogModel,
    namespace: Seq<char>,
    table: Seq<char>,
    retention: Seq<char>,
    topic_id: i64,
    query_pool_id: i64,
) -> (CatalogModel, NamespaceModel, TableModel) {
    let (m1, ns) = spec_namespace_create_or_get(m, namespace, retention, topic_id, query_pool_id);
    let (m2, t) = spec_table_create_or_get(m1, ns.id, table);
    (m2, ns, t)
}

/// The router: the shared catalog, schema cache and write buffer,
/// with the configuration every namespace is auto-created with.
/// Constructed once at startup and handed to every request task; the
/// registry inside the buffer never changes afterwards.
#[derive(Debug)]
pub struct WriteRouter {
    pub catalog: MemCatalog,
    pub cache: MemoryNamespaceCache,
    pub buffer: ShardedWriteBuffer,
    /// Topic reference supplied to namespace auto-creation.
    pub topic_id: TopicId,
    /// Query pool reference supplied to namespace auto-creation.
    pub query_pool_id: QueryPoolId,
    /// Retention supplied to namespace auto-creation.
    pub retention: String,
}

impl WriteRouter {
    /// The catalog and buffer are well formed and the cache never
    /// contradicts the catalog.
    pub open spec fn wf(&self) -> bool {
        &&& self.catalog.wf()
        &&& self.buffer.wf()
        &&& cache_coherent(self.cache@, self.catalog@)
    }

    /// Assemble a router over a catalog and a write buffer, with an
    /// empty schema cache.
    pub fn new(
        catalog: MemCatalog,
        buffer: ShardedWriteBuffer,
        topic_id: TopicId,
        query_pool_id: QueryPoolId,
        retention: String,
    ) -> (r: WriteRouter)
        requires
            catalog.wf(),
            buffer.wf(),
        ensures
            r.wf(),
            r.catalog == catalog,
            r.buffer == buffer,
            r.cache@.len() == 0,
            r.topic_id == topic_id,
            r.query_pool_id == query_pool_id,
            r.retention == retention,
    {
        let r = WriteRouter {
            catalog,
            cache: MemoryNamespaceCache::new(),
            buffer,
            topic_id,
            query_pool_id,
            retention,
        };
        r
    }

    /// Chain stage one: create the write's namespace and table in the
    /// catalog if they are not yet known, and resolve their
    /// identifiers. Idempotent: the catalog's get-or-create
    /// arbitrates races, so repeated and concurrent calls observe the
    /// same identities.
    pub fn namespace_autocreation(&mut self, write: &DmlWrite) -> (r: (NamespaceId, TableId))
        requires
            old(self).wf(),
            old(self).catalog@.namespaces.len() + 1 < MAX_CATALOG_ID,
            old(self).catalog@.tables.len() + 1 < MAX_CATALOG_ID,
        ensures
            final(self).wf(),
            final(self).cache == old(self).cache,
            final(self).buffer == old(self).buffer,
            final(self).topic_id == old(self).topic_id,
            final(self).query_pool_id == old(self).query_pool_id,
            final(self).retention == old(self).retention,
            ({
                let (m2, ns, t) = spec_autocreate(
                    old(self).catalog@,
                    write.namespace@,
                    write.table@,
                    old(self).retention@,
                    old(self).topic_id.value,
                    old(self).query_pool_id.value,
                );
                &&& final(self).catalog@ == m2
                &&& r.0.value == ns.id
                &&& r.1.value == t.id
                &&& m2.columns == old(self).catalog@.columns
                &&& (match spec_find_namespace(m2.namespaces, write.namespace@) {
                    Some(n2) => n2 == ns,
                    None => false,
                })
                &&& (match spec_find_table(m2.tables, ns.id, write.table@) {
                    Some(t2) => t2 == t,
                    None => false,
                })
            }),
    {
        let ghost m0 = self.catalog@;
        let ghost cache0 = self.cache@;
        let retention = self.retention.clone();
        let ns = self.catalog.get_or_create_namespace(
            write.namespace.as_str(),
            retention.as_str(),
            self.topic_id,
            self.query_pool_id,
        );
        let ghost m1 = self.catalog@;
        let t = self.catalog.get_or_create_table(write.table.as_str(), ns.id);
        let ghost m2 = self.catalog@;
        proof {
            if spec_find_namespace(m0.namespaces, write.namespace@) is None {
                crate::catalog::lemma_find_namespace_push(m0.namespaces, ns@, write.namespace@);
            }
            if spec_find_table(m1.tables, ns.id.value, write.table@) is None {
                crate::catalog::lemma_find_table_push(m1.tables, t@, ns.id.value, write.table@);
            }
            // The cache stays coherent: both catalog operations only
            // append, so every witness a cached column had persists.
            assert forall|e: int|
                0 <= e < cache0.len() implies (match spec_find_namespace(
                m2.namespaces,
                (#[trigger] cache0[e]).namespace,
            ) {
                Some(n2) => n2.id == cache0[e].schema.namespace_id,
                None => false,
            }) by {
                if spec_find_namespace(m0.namespaces, write.namespace@) is None {
                    crate::catalog::lemma_find_namespace_push(
                        m0.namespaces,
                        ns@,
                        cache0[e].namespace,
                    );
                }
            }
            assert forall|e: int, c: int|
                0 <= e < cache0.len() && 0 <= c < cache0[e].schema.columns.len() implies {
                let entry = cache0[e];
                let col = #[trigger] cache0[e].schema.columns[c];
                match spec_find_table(m2.tables, entry.schema.namespace_id, col.table) {
                    Some(t2) => match spec_find_column(m2.columns, t2.id, col.column) {
                        Some(cc) => cc.column_type == col.column_type,
                        None => false,
                    },
                    None => false,
                }
            } by {
                let entry = cache0[e];
                let col = cache0[e].schema.columns[c];
                if spec_find_table(m1.tables, ns.id.value, write.table@) is None {
                    crate::catalog::lemma_find_table_push(
                        m1.tables,
                        t@,
                        entry.schema.namespace_id,
                        col.table,
                    );
                }
            }
        }
        (ns.id, t.id)
    }

    /// Chain stage two: validate the write's columns against the
    /// namespace's known schema and merge what is new.
    ///
    /// A column already known keeps its type: a write claiming a
    /// different type for it is rejected whole, with a schema
    /// conflict, and nothing is recorded — no partial row
    /// application. Columns unknown to the cache are re-checked
    /// against the catalog, created there if still absent, and then
    /// cached; a write whose columns are all cached with matching
    /// types validates without any catalog round trip.
    pub fn schema_validation(
        &mut self,
        write: &DmlWrite,
        namespace_id: NamespaceId,
        table_id: TableId,
    ) -> (r: Result<(), RouterError>)
        requires
            old(self).wf(),
            (match spec_find_namespace(old(self).catalog@.namespaces, write.namespace@) {
                Some(ns) => ns.id == namespace_id.value,
                None => false,
            }),
            (match spec_find_table(old(self).catalog@.tables, namespace_id.value, write.table@) {
                Some(t) => t.id == table_id.value,
                None => false,
            }),
            old(self).catalog@.columns.len() + spec_write_column_count(write) < MAX_CATALOG_ID,
        ensures
            final(self).wf(),
            final(self).buffer == old(self).buffer,
            final(self).topic_id == old(self).topic_id,
            final(self).query_pool_id == old(self).query_pool_id,
            final(self).retention == old(self).retention,
            match r {
                Ok(_) => ({
                    let pairs = spec_write_columns(write)->Some_0;
                    &&& spec_write_columns(write) is Some
                    &&& !spec_columns_conflict(old(self).catalog@.columns, table_id.value, pairs)
                    &&& final(self).catalog@ == CatalogModel {
                        topics: old(self).catalog@.topics,
                        namespaces: old(self).catalog@.namespaces,
                        tables: old(self).catalog@.tables,
                        columns: spec_columns_apply(
                            old(self).catalog@.columns,
                            table_id.value,
                            pairs,
                        ),
                    }
                    &&& final(self).cache@ == spec_cache_merge(
                        old(self).cache@,
                        write.namespace@,
                        namespace_id.value,
                        write.table@,
                        pairs,
                    )
                }),
                Err(e) => {
                    &&& e is SchemaConflict
                    &&& (spec_write_columns(write) is None || spec_columns_conflict(
                        old(self).catalog@.columns,
                        table_id.value,
                        spec_write_columns(write)->Some_0,
                    ))
                    &&& final(self).catalog@ == old(self).catalog@
                    &&& final(self).cache@ == old(self).cache@
                },
            },
    {
        let ghost m0 = self.catalog@;
        let ghost cache0 = self.cache@;
        // The batch's own column set; two fields of the batch that
        // disagree on a type reject the whole batch here.
        let cols = match write_columns(write) {
            Ok(c) => c,
            Err(e) => {
                return Err(e);
            },
        };
        let ghost pairs = column_pairs(cols@);
        // Hold the batch against the cached schema. The read path
        // stays in memory: a fully cached, conflict-free batch takes
        // no catalog round trip.
        let mut slow: bool = false;
        match self.cache.get(write.namespace.as_str()) {
            None => {
                slow = true;
            },
            Some(schema) => {
                let ghost sm = schema@;
                let ghost ei = spec_find_cache_index(cache0, write.namespace@)->Some_0;
                proof {
                    crate::namespace_cache::lemma_find_cache_index_bounds(
                        cache0,
                        write.namespace@,
                    );
                }
                let mut k: usize = 0;
                while k < cols.len()
                    invariant
                        k <= cols@.len(),
                        old(self).wf(),
                        self.catalog == old(self).catalog,
                        self.cache == old(self).cache,
                        self.buffer == old(self).buffer,
                        self.topic_id == old(self).topic_id,
                        self.query_pool_id == old(self).query_pool_id,
                        self.retention == old(self).retention,
                        m0 == old(self).catalog@,
                        cache0 == old(self).cache@,
                        pairs == column_pairs(cols@),
                        spec_write_columns(write) == Some(pairs),
                        schema@ == sm,
                        catalog_wf(m0),
                        cache_coherent(cache0, m0),
                        spec_find_cache_index(cache0, write.namespace@) == Some(ei),
                        0 <= ei < cache0.len(),
                        cache0[ei].namespace == write.namespace@,
                        cache0[ei].schema == sm,
                        (match spec_find_namespace(m0.namespaces, write.namespace@) {
                            Some(ns) => ns.id == namespace_id.value,
                            None => false,
                        }),
                        (match spec_find_table(m0.tables, namespace_id.value, write.table@) {
                            Some(t) => t.id == table_id.value,
                            None => false,
                        }),
                        !slow ==> forall|j: int|
                            0 <= j < k ==> (match spec_find_schema_column(
                                sm.columns,
                                write.table@,
                                (#[trigger] pairs[j]).0,
                            ) {
                                Some(c) => c.column_type == pairs[j].1,
                                None => false,
                            }),
                    decreases cols@.len() - k,
                {
                    proof {
                        assert(pairs[k as int].0 == cols@[k as int].name@);
                        assert(pairs[k as int].1 == cols@[k as int].column_type);
                    }
                    match schema_column_type(schema, write.table.as_str(), cols[k].name.as_str()) {
                        Some(t) => {
                            if !(t == cols[k].column_type) {
                                proof {
                                    lemma_cached_conflict_is_catalog_conflict(
                                        cache0,
                                        m0,
                                        ei,
                                        write.namespace@,
                                        write.table@,
                                        namespace_id.value,
                                        table_id.value,
                                        pairs,
                                        k as int,
                                    );
                                }
                                return Err(
                                    RouterError::SchemaConflict {
                                        column: cols[k].name.clone(),
                                        existing: t,
                                        requested: cols[k].column_type,
                                    },
                                );
                            }
                        },
                        None => {
                            slow = true;
                        },
                    }
                    k = k + 1;
                }
                if !slow {
                    // Fast path: every column of the batch is cached
                    // with a matching type. The cache never
                    // contradicts the catalog, so the catalog holds
                    // the same columns and a merge would change
                    // nothing, there or here.
                    proof {
                        assert forall|j: int| 0 <= j < pairs.len() implies (match spec_find_column(
                            m0.columns,
                            table_id.value,
                            (#[trigger] pairs[j]).0,
                        ) {
                            Some(cc) => cc.column_type == pairs[j].1,
                            None => false,
                        }) by {
                            lemma_cached_column_in_catalog(
                                cache0,
                                m0,
                                ei,
                                write.namespace@,
                                write.table@,
                                namespace_id.value,
                                table_id.value,
                                pairs[j].0,
                            );
                        }
                        assert(!spec_columns_conflict(m0.columns, table_id.value, pairs));
                        crate::catalog::lemma_columns_apply_identity(
                            m0.columns,
                            table_id.value,
                            pairs,
                        );
                        assert(m0 == CatalogModel {
                            topics: m0.topics,
                            namespaces: m0.namespaces,
                            tables: m0.tables,
                            columns: spec_columns_apply(m0.columns, table_id.value, pairs),
                        });
                        assert forall|j: int| 0 <= j < pairs.len() implies spec_find_schema_column(
                            sm.columns,
                            write.table@,
                            (#[trigger] pairs[j]).0,
                        ) is Some by {}
                        crate::namespace_cache::lemma_schema_merge_identity(
                            sm.columns,
                            write.table@,
                            pairs,
                        );
                        assert(spec_cache_merge(
                            cache0,
                            write.namespace@,
                            namespace_id.value,
                            write.table@,
                            pairs,
                        ) =~~= cache0);
                    }
                    return Ok(());
                }
            },
        }
        // Slow path: the namespace is uncached or some column is
        // unknown to the cache. Re-validate the whole batch against
        // the catalog — another node may have created the columns —
        // creating what is still absent, then cache the outcome.
        match self.catalog.get_or_create_columns(table_id, &cols) {
            Err(e) => {
                return Err(e);
            },
            Ok(_) => {},
        }
        let ghost m3 = self.catalog@;
        self.cache.merge(write.namespace.as_str(), namespace_id, write.table.as_str(), &cols);
        proof {
            let c1 = self.cache@;
            crate::namespace_cache::lemma_find_cache_index_bounds(cache0, write.namespace@);
            // Entry-level coherence: slot namespaces still resolve to
            // their recorded namespace identifiers.
            assert forall|e: int|
                0 <= e < c1.len() implies (match spec_find_namespace(
                m3.namespaces,
                (#[trigger] c1[e]).namespace,
            ) {
                Some(ns) => ns.id == c1[e].schema.namespace_id,
                None => false,
            }) by {
                match spec_find_cache_index(cache0, write.namespace@) {
                    Some(i) => {
                        assert(c1[e] == (if e == i {
                            c1[e]
                        } else {
                            cache0[e]
                        }));
                        if e == i {
                            assert(c1[e].namespace == write.namespace@);
                            assert(c1[e].schema.namespace_id == cache0[i].schema.namespace_id);
                        }
                    },
                    None => {
                        if e < cache0.len() {
                            assert(c1[e] == cache0[e]);
                        } else {
                            assert(c1[e].namespace == write.namespace@);
                            assert(c1[e].schema.namespace_id == namespace_id.value);
                        }
                    },
                }
            }
            // Column-level coherence: every cached column, old or
            // newly merged, is backed by the catalog.
            assert forall|e: int, c: int|
                0 <= e < c1.len() && 0 <= c < c1[e].schema.columns.len() implies {
                let entry = c1[e];
                let col = #[trigger] c1[e].schema.columns[c];
                match spec_find_table(m3.tables, entry.schema.namespace_id, col.table) {
                    Some(t) => match spec_find_column(m3.columns, t.id, col.column) {
                        Some(cc) => cc.column_type == col.column_type,
                        None => false,
                    },
                    None => false,
                }
            } by {
                lemma_merged_column_coherent(
                    cache0,
                    m0,
                    m3,
                    write.namespace@,
                    write.table@,
                    namespace_id.value,
                    table_id.value,
                    pairs,
                    e,
                    c,
                );
            }
        }
        Ok(())
    }

    /// Chain stage three: resolve the shard for the write's (table,
    /// namespace) key and hand the write to that shard's producer,
    /// which assigns the next sequence position. The in-memory
    /// producer cannot fail; a networked broker reports a transient,
    /// retryable error here instead, and the write is not retried
    /// internally.
    pub fn shard_and_enqueue(&mut self, write: DmlWrite) -> (r: Result<
        (ShardId, SequenceNumber),
        RouterError,
    >)
        requires
            old(self).wf(),
            forall|i: int|
                0 <= i < old(self).buffer.producers@.len()
                    ==> (#[trigger] old(self).buffer.producers@[i]).log@.len() < MAX_SEQUENCE,
        ensures
            final(self).wf(),
            final(self).catalog == old(self).catalog,
            final(self).cache == old(self).cache,
            final(self).buffer.sharder == old(self).buffer.sharder,
            final(self).topic_id == old(self).topic_id,
            final(self).query_pool_id == old(self).query_pool_id,
            final(self).retention == old(self).retention,
            r is Ok,
            ({
                let idx = old(self).buffer.sharder.spec_shard_index(
                    write.table@,
                    write.namespace@,
                );
                &&& r->Ok_0.0 == old(self).buffer.sharder.spec_shard(
                    write.table@,
                    write.namespace@,
                )
                &&& r->Ok_0.1.value == old(self).buffer.producers@[idx].log@.len()
                &&& final(self).buffer.producers@[idx].log@ == old(
                    self,
                ).buffer.producers@[idx].log@.push(write)
                &&& final(self).buffer.producers@[idx].shard == old(
                    self,
                ).buffer.producers@[idx].shard
                &&& forall|i: int|
                    0 <= i < old(self).buffer.producers@.len() && i != idx
                        ==> (#[trigger] final(self).buffer.producers@[i]) == old(
                        self,
                    ).buffer.producers@[i]
            }),
    {
        let (shard, seq) = self.buffer.enqueue(write);
        Ok((shard, seq))
    }

    /// Run the whole handler chain on one write: auto-create its
    /// namespace and table, validate and merge its schema, then shard
    /// and enqueue it, stopping at the first error.
    ///
    /// On success the write stands appended, whole, on the one shard
    /// its (table, namespace) key deterministically resolves to. On a
    /// schema conflict the write is rejected whole and no row is
    /// enqueued; metadata already created stays, which is safe to
    /// repeat because creation is idempotent.
    pub fn handle(&mut self, write: DmlWrite) -> (r: Result<
        (ShardId, SequenceNumber),
        RouterError,
    >)
        requires
            old(self).wf(),
            old(self).catalog@.namespaces.len() + 1 < MAX_CATALOG_ID,
            old(self).catalog@.tables.len() + 1 < MAX_CATALOG_ID,
            old(self).catalog@.columns.len() + spec_write_column_count(&write) < MAX_CATALOG_ID,
            forall|i: int|
                0 <= i < old(self).buffer.producers@.len()
                    ==> (#[trigger] old(self).buffer.producers@[i]).log@.len() < MAX_SEQUENCE,
        ensures
            final(self).wf(),
            final(self).buffer.sharder == old(self).buffer.sharder,
            final(self).topic_id == old(self).topic_id,
            final(self).query_pool_id == old(self).query_pool_id,
            final(self).retention == old(self).retention,
            ({
                let (m2, ns, t) = spec_autocreate(
                    old(self).catalog@,
                    write.namespace@,
                    write.table@,
                    old(self).retention@,
                    old(self).topic_id.value,
                    old(self).query_pool_id.value,
                );
                match r {
                    Ok(ok) => ({
                        let pairs = spec_write_columns(&write)->Some_0;
                        let idx = old(self).buffer.sharder.spec_shard_index(
                            write.table@,
                            write.namespace@,
                        );
                        &&& spec_write_columns(&write) is Some
                        &&& !spec_columns_conflict(old(self).catalog@.columns, t.id, pairs)
                        &&& final(self).catalog@ == CatalogModel {
                            topics: m2.topics,
                            namespaces: m2.namespaces,
                            tables: m2.tables,
                            columns: spec_columns_apply(old(self).catalog@.columns, t.id, pairs),
                        }
                        &&& final(self).cache@ == spec_cache_merge(
                            old(self).cache@,
                            write.namespace@,
                            ns.id,
                            write.table@,
                            pairs,
                        )
                        &&& ok.0 == old(self).buffer.sharder.spec_shard(
                            write.table@,
                            write.namespace@,
                        )
                        &&& ok.1.value == old(self).buffer.producers@[idx].log@.len()
                        &&& final(self).buffer.producers@[idx].log@ == old(
                            self,
                        ).buffer.producers@[idx].log@.push(write)
                        &&& forall|i: int|
                            0 <= i < old(self).buffer.producers@.len() && i != idx
                                ==> (#[trigger] final(self).buffer.producers@[i]) == old(
                                self,
                            ).buffer.producers@[i]
                    }),
                    Err(e) => {
                        &&& e is SchemaConflict
                        &&& (spec_write_columns(&write) is None || spec_columns_conflict(
                            old(self).catalog@.columns,
                            t.id,
                            spec_write_columns(&write)->Some_0,
                        ))
                        &&& final(self).buffer == old(self).buffer
                        &&& final(self).catalog@ == m2
                        &&& final(self).cache@ == old(self).cache@
                    },
                }
            }),
    {
        let (namespace_id, table_id) = self.namespace_autocreation(&write);
        match self.schema_validation(&write, namespace_id, table_id) {
            Err(e) => Err(e),
            Ok(_) => self.shard_and_enqueue(write),
        }
    }
}

/// A column cached with one type while the batch claims another is a
/// catalog conflict too: the cache never contradicts the catalog.
proof fn lemma_cached_conflict_is_catalog_conflict(
    cache: Seq<CacheEntryModel>,
    m: CatalogModel,
    ei: int,
    namespace: Seq<char>,
    table: Seq<char>,
    namespace_id: i64,
    table_id: i64,
    pairs: Seq<(Seq<char>, ColumnType)>,
    k: int,
)
    requires
        cache_coherent(cache, m),
        0 <= ei < cache.len(),
        cache[ei].namespace == namespace,
        (match spec_find_namespace(m.namespaces, namespace) {
            Some(ns) => ns.id == namespace_id,
            None => false,
        }),
        (match spec_find_table(m.tables, namespace_id, table) {
            Some(t) => t.id == table_id,
            None => false,
        }),
        0 <= k < pairs.len(),
        (match spec_find_schema_column(cache[ei].schema.columns, table, pairs[k].0) {
            Some(c) => c.column_type != pairs[k].1,
            None => false,
        }),
    ensures
        spec_columns_conflict(m.columns, table_id, pairs),
{
    let cached = spec_find_schema_column(cache[ei].schema.columns, table, pairs[k].0)->Some_0;
    crate::namespace_cache::lemma_find_schema_column_mem(cache[ei].schema.columns, table, pairs[k].0);
    let j = choose|j: int|
        0 <= j < cache[ei].schema.columns.len() && cache[ei].schema.columns[j] == cached;
    assert(cache[ei].schema.namespace_id == namespace_id);
    let cc = spec_find_column(m.columns, table_id, pairs[k].0)->Some_0;
    crate::catalog::lemma_conflicting_request_rejected(m.columns, table_id, pairs, k, cc);
}

/// A column cached with a type is established in the catalog with
/// that type.
proof fn lemma_cached_column_in_catalog(
    cache: Seq<CacheEntryModel>,
    m: CatalogModel,
    ei: int,
    namespace: Seq<char>,
    table: Seq<char>,
    namespace_id: i64,
    table_id: i64,
    name: Seq<char>,
)
    requires
        cache_coherent(cache, m),
        0 <= ei < cache.len(),
        cache[ei].namespace == namespace,
        (match spec_find_namespace(m.namespaces, namespace) {
            Some(ns) => ns.id == namespace_id,
            None => false,
        }),
        (match spec_find_table(m.tables, namespace_id, table) {
            Some(t) => t.id == table_id,
            None => false,
        }),
        spec_find_schema_column(cache[ei].schema.columns, table, name) is Some,
    ensures
        (match spec_find_column(m.columns, table_id, name) {
            Some(cc) => cc.column_type == spec_find_schema_column(
                cache[ei].schema.columns,
                table,
                name,
            )->Some_0.column_type,
            None => false,
        }),
{
    let cached = spec_find_schema_column(cache[ei].schema.columns, table, name)->Some_0;
    crate::namespace_cache::lemma_find_schema_column_mem(cache[ei].schema.columns, table, name);
    let j = choose|j: int|
        0 <= j < cache[ei].schema.columns.len() && cache[ei].schema.columns[j] == cached;
    assert(cache[ei].schema.namespace_id == namespace_id);
}

/// After a conflict-free catalog merge and the matching cache merge,
/// every cached column is still backed by the catalog.
proof fn lemma_merged_column_coherent(
    cache0: Seq<CacheEntryModel>,
    m0: CatalogModel,
    m3: CatalogModel,
    namespace: Seq<char>,
    table: Seq<char>,
    namespace_id: i64,
    table_id: i64,
    pairs: Seq<(Seq<char>, ColumnType)>,
    e: int,
    c: int,
)
    requires
        cache_coherent(cache0, m0),
        m3.namespaces == m0.namespaces,
        m3.tables == m0.tables,
        m3.columns == spec_columns_apply(m0.columns, table_id, pairs),
        (match spec_find_namespace(m0.namespaces, namespace) {
            Some(ns) => ns.id == namespace_id,
            None => false,
        }),
        (match spec_find_table(m0.tables, namespace_id, table) {
            Some(t) => t.id == table_id,
            None => false,
        }),
        forall|k: int|
            0 <= k < pairs.len() ==> (match spec_find_column(
                m3.columns,
                table_id,
                (#[trigger] pairs[k]).0,
            ) {
                Some(cc) => cc.column_type == pairs[k].1,
                None => false,
            }),
        ({
            let c1 = spec_cache_merge(cache0, namespace, namespace_id, table, pairs);
            0 <= e < c1.len() && 0 <= c < c1[e].schema.columns.len()
        }),
    ensures
        ({
            let c1 = spec_cache_merge(cache0, namespace, namespace_id, table, pairs);
            let entry = c1[e];
            let col = c1[e].schema.columns[c];
            match spec_find_table(m3.tables, entry.schema.namespace_id, col.table) {
                Some(t) => match spec_find_column(m3.columns, t.id, col.column) {
                    Some(cc) => cc.column_type == col.column_type,
                    None => false,
                },
                None => false,
            }
        }),
{
    let c1 = spec_cache_merge(cache0, namespace, namespace_id, table, pairs);
    crate::namespace_cache::lemma_find_cache_index_bounds(cache0, namespace);
    let old_cols = match spec_find_cache_index(cache0, namespace) {
        Some(i) => cache0[i].schema.columns,
        None => Seq::<SchemaColumnModel>::empty(),
    };
    let merged_at = match spec_find_cache_index(cache0, namespace) {
        Some(i) => i,
        None => cache0.len() as int,
    };
    if e != merged_at {
        // Untouched slot: the old witnesses persist; the catalog's
        // columns only grew.
        assert(c1[e] == cache0[e]);
        let col = cache0[e].schema.columns[c];
        match spec_find_table(m0.tables, cache0[e].schema.namespace_id, col.table) {
            Some(t) => {
                let cc = spec_find_column(m0.columns, t.id, col.column)->Some_0;
                crate::catalog::lemma_columns_apply_preserves(
                    m0.columns,
                    table_id,
                    pairs,
                    t.id,
                    col.column,
                    cc,
                );
            },
            None => {},
        }
    } else {
        crate::namespace_cache::lemma_schema_merge_members(old_cols, table, pairs);
        assert(c1[e].schema.columns == spec_schema_column_merge(old_cols, table, pairs));
        assert(c1[e].schema.namespace_id == namespace_id);
        let col = c1[e].schema.columns[c];
        if c < old_cols.len() {
            // A column cached before the merge: its old witnesses
            // persist.
            assert(col == old_cols[c]);
            match spec_find_cache_index(cache0, namespace) {
                Some(i) => {
                    assert(cache0[i].schema.namespace_id == namespace_id);
                    match spec_find_table(m0.tables, namespace_id, col.table) {
                        Some(t) => {
                            let cc = spec_find_column(m0.columns, t.id, col.column)->Some_0;
                            crate::catalog::lemma_columns_apply_preserves(
                                m0.columns,
                                table_id,
                                pairs,
                                t.id,
                                col.column,
                                cc,
                            );
                        },
                        None => {},
                    }
                },
                None => {},
            }
        } else {
            // A newly merged column: one of the requested pairs, just
            // established in the catalog for the write's table.
            let k = choose|k: int|
                0 <= k < pairs.len() && col.column == (#[trigger] pairs[k]).0 && col.column_type
                    == pairs[k].1;
            assert(col.table == table);
        }
    }
}

} // verus!
