//! Per-shard producers and the sharded write buffer.
//!
//! A producer binds one shard identifier to one partition of the
//! append-only log and hands out the sequence position of each
//! enqueued write. The buffer owns one producer per registry entry,
//! in registry order, fixed for the life of the process; it forwards
//! each write to the producer of the shard the sharder resolves.

use vstd::prelude::*;
use crate::dml::DmlWrite;
use crate::sharder::TableNamespaceSharder;
use crate::types::{SequenceNumber, ShardId};

verus! {

/// Largest sequence position a shard log can reach.
pub const MAX_SEQUENCE: u64 = 0xffff_ffff_ffff_ffff;

/// One shard's producer: the handle that appends writes to that
/// shard's partition of the log, in the order the enqueue calls are
/// issued.
#[derive(Debug)]
pub struct ShardProducer {
    pub shard: ShardId,
    /// The writes enqueued to this shard, in enqueue order.
    pub log: Vec<DmlWrite>,
}

impl ShardProducer {
    /// Append one write and return its sequence position. Positions
    /// are the log offsets: consecutive enqueues get consecutive,
    /// increasing positions, so a downstream consumer of this shard
    /// sees the writes in enqueue order.
    pub fn enqueue(&mut self, write: DmlWrite) -> (s: SequenceNumber)
        requires
            old(self).log@.len() < MAX_SEQUENCE,
        ensures
            final(self).shard == old(self).shard,
            final(self).log@ == old(self).log@.push(write),
            s.value == old(self).log@.len(),
    {
        let s = SequenceNumber { value: self.log.len() as u64 };
        self.log.push(write);
        s
    }
}

/// The write buffer: one producer per shard of the registry, in
/// ascending registry order, resolved through the sharder.
#[derive(Debug)]
pub struct ShardedWriteBuffer {
    pub sharder: TableNamespaceSharder,
    pub producers: Vec<ShardProducer>,
}

impl ShardedWriteBuffer {
    /// One producer per registry entry, in registry order.
    pub open spec fn wf(&self) -> bool {
        &&& self.sharder.wf()
        &&& self.producers@.len() == self.sharder.shards@.len()
        &&& forall|i: int|
            0 <= i < self.producers@.len() ==> (#[trigger] self.producers@[i]).shard
                == self.sharder.shards@[i]
    }

    /// Build the buffer over a sharder, with every shard log empty.
    pub fn new(sharder: TableNamespaceSharder) -> (r: ShardedWriteBuffer)
        requires
            sharder.wf(),
        ensures
            r.wf(),
            r.sharder == sharder,
            forall|i: int| 0 <= i < r.producers@.len() ==> (#[trigger] r.producers@[i]).log@.len() == 0,
    {
        let mut producers: Vec<ShardProducer> = Vec::new();
        let mut i: usize = 0;
        while i < sharder.shards.len()
            invariant
                i <= sharder.shards@.len(),
                producers@.len() == i,
                forall|k: int|
                    0 <= k < i ==> (#[trigger] producers@[k]).shard == sharder.shards@[k],
                forall|k: int| 0 <= k < i ==> (#[trigger] producers@[k]).log@.len() == 0,
            decreases sharder.shards@.len() - i,
        {
            producers.push(ShardProducer { shard: sharder.shards[i], log: Vec::new() });
            i = i + 1;
        }
        ShardedWriteBuffer { sharder, producers }
    }

    /// Resolve the shard for the write's (table, namespace) key and
    /// enqueue the write on that shard's producer.
    pub fn enqueue(&mut self, write: DmlWrite) -> (r: (ShardId, SequenceNumber))
        requires
            old(self).wf(),
            forall|i: int|
                0 <= i < old(self).producers@.len() ==> (#[trigger] old(self).producers@[i]).log@.len()
                    < MAX_SEQUENCE,
        ensures
            final(self).wf(),
            final(self).sharder == old(self).sharder,
            ({
                let idx = old(self).sharder.spec_shard_index(write.table@, write.namespace@);
                &&& r.0 == old(self).sharder.spec_shard(write.table@, write.namespace@)
                &&& r.1.value == old(self).producers@[idx].log@.len()
                &&& final(self).producers@ == old(self).producers@.update(
                    idx,
                    final(self).producers@[idx],
                )
                &&& final(self).producers@[idx].log@ == old(self).producers@[idx].log@.push(write)
                &&& final(self).producers@[idx].shard == old(self).producers@[idx].shard
                &&& forall|i: int|
                    0 <= i < old(self).producers@.len() && i != idx
                        ==> (#[trigger] final(self).producers@[i]) == old(self).producers@[i]
            }),
    {
        let idx = self.sharder.shard_index(write.table.as_str(), write.namespace.as_str());
        let shard = self.producers[idx].shard;
        let ghost prev = self.producers@;
        let seq = self.producers[idx].enqueue(write);
        proof {
            assert(self.producers@ == prev.update(idx as int, self.producers@[idx as int]));
            assert(prev.update(idx as int, prev[idx as int]) =~= prev);
            assert forall|i: int|
                0 <= i < prev.len() && i != idx as int implies (#[trigger] self.producers@[i])
                == prev[i] by {}
        }
        (shard, seq)
    }
}

/// Per-shard order preservation: two writes for the same (table,
/// namespace) key resolve to the same shard, and when one is enqueued
/// after the other its sequence position is strictly greater, with
/// both writes standing in the shard's log in enqueue order.
pub proof fn lemma_per_shard_order(
    sharder: TableNamespaceSharder,
    log0: Seq<DmlWrite>,
    w1: DmlWrite,
    w2: DmlWrite,
    log1: Seq<DmlWrite>,
    log2: Seq<DmlWrite>,
    s1: int,
    s2: int,
)
    requires
        w1.table@ == w2.table@,
        w1.namespace@ == w2.namespace@,
        log1 == log0.push(w1),
        s1 == log0.len(),
        log2 == log1.push(w2),
        s2 == log1.len(),
    ensures
        sharder.spec_shard_index(w1.table@, w1.namespace@) == sharder.spec_shard_index(
            w2.table@,
            w2.namespace@,
        ),
        sharder.spec_shard(w1.table@, w1.namespace@) == sharder.spec_shard(
            w2.table@,
            w2.namespace@,
        ),
        s1 < s2,
        log2[s1] == w1,
        log2[s2] == w2,
{
    assert(log2[s1] == log1[s1]);
}

} // verus!
