//! Deterministic assignment of (table, namespace) keys to shards.
//!
//! Every router node holding the same shard registry must resolve the
//! same key to the same shard, across processes and restarts and with
//! no coordination. The sharder therefore hashes the key with a fixed,
//! process-independent function (64-bit FNV-1a), reduces the hash
//! modulo the registry size, and indexes into the registry in
//! ascending shard-identifier order.
//!
//! The hashed byte sequence is the namespace's UTF-8 byte length as
//! eight little-endian bytes, then the namespace bytes, then the table
//! bytes. The length prefix fixes the namespace/table boundary, so
//! distinct keys such as ("ab", "c") and ("a", "bc") never feed the
//! hash the same bytes.

use vstd::prelude::*;
use crate::error::RouterError;
use crate::types::ShardId;

verus! {

/// FNV-1a 64-bit offset basis.
pub const FNV_OFFSET_BASIS: u64 = 0xcbf2_9ce4_8422_2325;

/// FNV-1a 64-bit prime.
pub const FNV_PRIME: u64 = 0x0000_0100_0000_01b3;

/// One FNV-1a round: fold one byte into the running hash.
pub open spec fn fnv1a_step(h: u64, b: u8) -> u64 {
    vstd::wrapping::u64_specs::wrapping_mul(h ^ (b as u64), FNV_PRIME)
}

/// FNV-1a over `s`, continuing from the running hash `h`.
pub open spec fn fnv1a_hash(s: Seq<u8>, h: u64) -> u64
    decreases s.len(),
{
    if s.len() == 0 {
        h
    } else {
        fnv1a_hash(s.skip(1), fnv1a_step(h, s[0]))
    }
}

/// The eight little-endian bytes of a byte length `n`.
pub open spec fn spec_len_prefix(n: nat) -> Seq<u8> {
    seq![
        ((n / 0x1) % 0x100) as u8,
        ((n / 0x100) % 0x100) as u8,
        ((n / 0x10000) % 0x100) as u8,
        ((n / 0x1000000) % 0x100) as u8,
        ((n / 0x100000000) % 0x100) as u8,
        ((n / 0x10000000000) % 0x100) as u8,
        ((n / 0x1000000000000) % 0x100) as u8,
        ((n / 0x100000000000000) % 0x100) as u8,
    ]
}

/// Hash of one (table, namespace) key: FNV-1a over the length-prefixed
/// UTF-8 bytes of the namespace followed by the bytes of the table.
pub open spec fn shard_key_hash(table: Seq<char>, namespace: Seq<char>) -> u64 {
    let ns_bytes = vstd::utf8::encode_utf8(namespace);
    let table_bytes = vstd::utf8::encode_utf8(table);
    fnv1a_hash(
        table_bytes,
        fnv1a_hash(ns_bytes, fnv1a_hash(spec_len_prefix(ns_bytes.len()), FNV_OFFSET_BASIS)),
    )
}

/// Fold a byte slice into the running hash.
fn fnv1a_absorb(h0: u64, bytes: &[u8]) -> (h: u64)
    ensures
        h == fnv1a_hash(bytes@, h0),
{
    let mut h = h0;
    let mut i: usize = 0;
    proof {
        assert(bytes@.skip(0) =~= bytes@);
    }
    while i < bytes.len()
        invariant
            i <= bytes@.len(),
            fnv1a_hash(bytes@.skip(i as int), h) == fnv1a_hash(bytes@, h0),
        decreases bytes@.len() - i,
    {
        proof {
            assert(bytes@.skip(i as int).len() > 0);
            assert(bytes@.skip(i as int)[0] == bytes@[i as int]);
            assert(bytes@.skip(i as int).skip(1) =~= bytes@.skip(i as int + 1));
        }
        h = (h ^ (bytes[i] as u64)).wrapping_mul(FNV_PRIME);
        i = i + 1;
    }
    proof {
        assert(bytes@.skip(i as int) =~= Seq::<u8>::empty());
    }
    h
}

/// Fold the eight little-endian bytes of `n` into the running hash.
fn fnv1a_absorb_len(h0: u64, n: u64) -> (h: u64)
    ensures
        h == fnv1a_hash(spec_len_prefix(n as nat), h0),
{
    let mut bytes: Vec<u8> = Vec::new();
    bytes.push(((n / 0x1) % 0x100) as u8);
    bytes.push(((n / 0x100) % 0x100) as u8);
    bytes.push(((n / 0x10000) % 0x100) as u8);
    bytes.push(((n / 0x1000000) % 0x100) as u8);
    bytes.push(((n / 0x100000000) % 0x100) as u8);
    bytes.push(((n / 0x10000000000) % 0x100) as u8);
    bytes.push(((n / 0x1000000000000) % 0x100) as u8);
    bytes.push(((n / 0x100000000000000) % 0x100) as u8);
    proof {
        assert(bytes@ =~= spec_len_prefix(n as nat));
    }
    fnv1a_absorb(h0, bytes.as_slice())
}

/// A shard registry is well formed when it is non-empty and strictly
/// ascending, so that every node enumerates the same shards in the
/// same order.
pub open spec fn registry_well_formed(shards: Seq<ShardId>) -> bool {
    &&& shards.len() >= 1
    &&& forall|i: int, j: int|
        0 <= i < j < shards.len() ==> shards[i].value < shards[j].value
}

/// Pure function from a (table, namespace) key to one shard of a
/// fixed, ordered, immutable registry.
#[derive(Clone, Debug)]
pub struct TableNamespaceSharder {
    /// The registry: all shard identifiers known to this router
    /// instance, in strictly ascending order. Fixed for the life of
    /// the process; topology changes require a restart.
    pub shards: Vec<ShardId>,
}

impl TableNamespaceSharder {
    /// The registry is non-empty and strictly ascending.
    pub open spec fn wf(&self) -> bool {
        registry_well_formed(self.shards@)
    }

    /// The registry position this sharder resolves a key to: the key
    /// hash reduced modulo the registry size.
    pub open spec fn spec_shard_index(&self, table: Seq<char>, namespace: Seq<char>) -> int {
        shard_key_hash(table, namespace) as int % self.shards@.len() as int
    }

    /// The shard this sharder resolves a key to: the registry entry
    /// at the key's position.
    pub open spec fn spec_shard(&self, table: Seq<char>, namespace: Seq<char>) -> ShardId {
        self.shards@[self.spec_shard_index(table, namespace)]
    }

    /// Build a sharder over the given shard identifiers, deduplicated
    /// and sorted ascending. Fails fast when no shard exists: a router
    /// with an undefined registry must not serve traffic.
    pub fn new(ids: Vec<ShardId>) -> (r: Result<Self, RouterError>)
        ensures
            match r {
                Ok(s) => {
                    &&& s.wf()
                    &&& forall|v: ShardId| s.shards@.contains(v) <==> ids@.contains(v)
                },
                Err(e) => e is NoShards && ids@.len() == 0,
            },
    {
        if ids.len() == 0 {
            return Err(RouterError::NoShards);
        }
        let mut shards: Vec<ShardId> = Vec::new();
        let mut i: usize = 0;
        while i < ids.len()
            invariant
                i <= ids@.len(),
                forall|a: int, b: int|
                    0 <= a < b < shards@.len() ==> shards@[a].value < shards@[b].value,
                forall|v: ShardId| shards@.contains(v) <==> ids@.take(i as int).contains(v),
            decreases ids@.len() - i,
        {
            proof {
                assert(ids@.take(i as int + 1) =~= ids@.take(i as int).push(ids@[i as int]));
            }
            sorted_insert(&mut shards, ids[i]);
            proof {
                let s = ids@.take(i as int).push(ids@[i as int]);
                assert(s[i as int] == ids@[i as int]);
                assert(s.contains(ids@[i as int]));
                assert forall|v: ShardId| s.contains(v) implies ids@.take(i as int).contains(v)
                    || v == ids@[i as int] by {
                    let k = choose|k: int| 0 <= k < s.len() && s[k] == v;
                    if k < s.len() - 1 {
                        assert(ids@.take(i as int)[k] == v);
                    }
                }
                assert forall|v: ShardId| ids@.take(i as int).contains(v) implies s.contains(
                    v,
                ) by {
                    let k = choose|k: int| 0 <= k < i && ids@.take(i as int)[k] == v;
                    assert(s[k] == v);
                }
            }
            i = i + 1;
        }
        proof {
            assert(i as int == ids@.len());
            assert(ids@.take(i as int) =~= ids@);
            assert(ids@.take(i as int).contains(ids@[0]));
            assert(shards@.contains(ids@[0]));
            assert(shards@.len() >= 1);
        }
        Ok(TableNamespaceSharder { shards })
    }

    /// Resolve the registry position for one (table, namespace) key.
    pub fn shard_index(&self, table: &str, namespace: &str) -> (i: usize)
        requires
            self.wf(),
        ensures
            i as int == self.spec_shard_index(table@, namespace@),
            i < self.shards@.len(),
    {
        let ns_bytes = namespace.as_bytes();
        let h0 = fnv1a_absorb_len(FNV_OFFSET_BASIS, ns_bytes.len() as u64);
        let h1 = fnv1a_absorb(h0, ns_bytes);
        let h2 = fnv1a_absorb(h1, table.as_bytes());
        let n = self.shards.len();
        let idx: usize = (h2 % (n as u64)) as usize;
        proof {
            assert((h2 as int % n as int) < n as int);
        }
        idx
    }

    /// Resolve the shard for one (table, namespace) key.
    ///
    /// Total over a well-formed registry: it never fails and never
    /// returns an identifier outside the registry, and it depends on
    /// nothing but the key and the registry contents.
    pub fn shard(&self, table: &str, namespace: &str) -> (r: ShardId)
        requires
            self.wf(),
        ensures
            r == self.spec_shard(table@, namespace@),
            self.shards@.contains(r),
    {
        let idx = self.shard_index(table, namespace);
        proof {
            assert(self.shards@.contains(self.shards@[idx as int]));
        }
        self.shards[idx]
    }
}

/// Insert `id` into a strictly ascending vector, keeping it strictly
/// ascending; a duplicate identifier is dropped.
fn sorted_insert(out: &mut Vec<ShardId>, id: ShardId)
    requires
        forall|a: int, b: int|
            0 <= a < b < old(out)@.len() ==> old(out)@[a].value < old(out)@[b].value,
    ensures
        forall|a: int, b: int|
            0 <= a < b < final(out)@.len() ==> final(out)@[a].value < final(out)@[b].value,
        forall|v: ShardId| final(out)@.contains(v) <==> old(out)@.contains(v) || v == id,
{
    let ghost orig = out@;
    let mut i: usize = 0;
    while i < out.len() && out[i].value < id.value
        invariant
            i <= out@.len(),
            out@ == orig,
            forall|k: int| 0 <= k < i ==> out@[k].value < id.value,
        decreases out@.len() - i,
    {
        i = i + 1;
    }
    if i < out.len() && out[i].value == id.value {
        proof {
            assert(out@[i as int].value == id.value);
            // The registry holds plain identifiers, so equal values
            // mean equal entries.
            assert(out@[i as int] == id);
            assert(out@.contains(out@[i as int]));
        }
        return;
    }
    out.insert(i, id);
    proof {
        let new = orig.insert(i as int, id);
        assert(out@ == new);
        assert forall|a: int, b: int|
            0 <= a < b < new.len() implies new[a].value < new[b].value by {
            if a < i && b > i {
                assert(new[a] == orig[a]);
                assert(new[b] == orig[b - 1]);
                assert(orig[a].value < id.value);
                assert(orig[b - 1].value >= id.value);
                if orig[b - 1].value == id.value {
                    assert(false);
                }
            }
        }
        assert forall|v: ShardId| new.contains(v) implies orig.contains(v) || v == id by {
            let k = choose|k: int| 0 <= k < new.len() && new[k] == v;
            if k < i {
                assert(orig[k] == v);
            } else if k > i {
                assert(orig[k - 1] == v);
            }
        }
        assert forall|v: ShardId| orig.contains(v) || v == id implies new.contains(v) by {
            if v == id {
                assert(new[i as int] == v);
            } else if orig.contains(v) {
                let k = choose|k: int| 0 <= k < orig.len() && orig[k] == v;
                if k < i {
                    assert(new[k] == v);
                } else {
                    assert(new[k + 1] == v);
                }
            }
        }
    }
}

/// Determinism across instances: two sharders holding the same
/// registry resolve every key to the same shard, on every call.
pub proof fn lemma_shard_deterministic(
    a: TableNamespaceSharder,
    b: TableNamespaceSharder,
    table: Seq<char>,
    namespace: Seq<char>,
)
    requires
        a.shards@ == b.shards@,
    ensures
        a.spec_shard(table, namespace) == b.spec_shard(table, namespace),
{
}

/// Totality: over any well-formed registry, of any size, every key
/// resolves to exactly one shard, and that shard is a registry member.
pub proof fn lemma_shard_in_registry(
    s: TableNamespaceSharder,
    table: Seq<char>,
    namespace: Seq<char>,
)
    requires
        s.wf(),
    ensures
        s.shards@.contains(s.spec_shard(table, namespace)),
{
    let h = shard_key_hash(table, namespace) as int;
    let n = s.shards@.len() as int;
    assert(0 <= h % n < n);
}

} // verus!
