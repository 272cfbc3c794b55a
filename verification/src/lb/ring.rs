//! The hash ring of consistent hashing: every healthy backend appears once
//! per replica (its weight times the replica count), at the FNV-1a hash of
//! its address followed by the replica number, and the ring is sorted.
use vstd::prelude::*;
use vstd::relations::{sorted_by, total_ordering};
use vstd::string::StringSliceAdditionalSpecFns;
use vstd::utf8::encode_utf8;

use crate::hash::{spec_fnv1a, stable_hash64};
use crate::lb::pool::{BackendPool, BackendPoolView, BackendState, lemma_healthy_indices};

verus! {

broadcast use vstd::seq_lib::group_to_multiset_ensures;

/// The bytes hashed for one replica: the address, then the replica number
/// in little-endian order.
pub open spec fn replica_key_bytes(address: Seq<char>, replica: u32) -> Seq<u8> {
    encode_utf8(address) + seq![
        (replica & 0xff) as u8,
        ((replica >> 8u32) & 0xff) as u8,
        ((replica >> 16u32) & 0xff) as u8,
        ((replica >> 24u32) & 0xff) as u8,
    ]
}

pub open spec fn spec_hash_backend_replica(address: Seq<char>, replica: u32) -> u64 {
    spec_fnv1a(replica_key_bytes(address, replica))
}

pub open spec fn spec_hash_key(key: Seq<u8>) -> u64 {
    spec_fnv1a(key)
}

/// Replicas of a backend: the configured count times its weight, saturating.
pub open spec fn replica_count(replicas: u32, weight: u32) -> u32 {
    if replicas * weight > u32::MAX {
        u32::MAX
    } else {
        (replicas * weight) as u32
    }
}

/// The ring entries of one backend.
pub open spec fn backend_entries(b: BackendState, idx: usize, replicas: u32) -> Seq<(u64, usize)> {
    Seq::new(
        replica_count(replicas, b.weight) as nat,
        |r: int| (spec_hash_backend_replica(b.address@, r as u32), idx),
    )
}

/// The ring entries of the listed backends, in list order.
pub open spec fn ring_entries(
    backends: Seq<BackendState>,
    listed: Seq<usize>,
    replicas: u32,
) -> Seq<(u64, usize)>
    decreases listed.len(),
{
    if listed.len() == 0 {
        Seq::empty()
    } else {
        ring_entries(backends, listed.drop_last(), replicas) + backend_entries(
            backends[listed.last() as int],
            listed.last(),
            replicas,
        )
    }
}

/// Ring order: by hash, then by backend index.
pub open spec fn entry_leq(a: (u64, usize), b: (u64, usize)) -> bool {
    a.0 < b.0 || (a.0 == b.0 && a.1 <= b.1)
}

pub open spec fn entry_order() -> spec_fn((u64, usize), (u64, usize)) -> bool {
    |a: (u64, usize), b: (u64, usize)| entry_leq(a, b)
}

/// The ring of a pool: the entries of its healthy backends, sorted.
pub open spec fn spec_ring(pool: BackendPoolView, replicas: u32) -> Seq<(u64, usize)> {
    ring_entries(pool.backends, pool.healthy(), replicas).sort_by(entry_order())
}

/// Whether `j` is the first ring position whose hash is at least `h`.
pub open spec fn first_at_least(ring: Seq<(u64, usize)>, h: u64, j: int) -> bool {
    0 <= j < ring.len() && ring[j].0 >= h && forall|k: int| 0 <= k < j ==> #[trigger] ring[k].0 < h
}

/// The ring position for hash `h`: the first entry whose hash is at least
/// `h`, wrapping to the first entry when there is none.
pub open spec fn spec_lookup_pos(ring: Seq<(u64, usize)>, h: u64) -> int {
    if exists|j: int| first_at_least(ring, h, j) {
        choose|j: int| first_at_least(ring, h, j)
    } else {
        0
    }
}

pub open spec fn spec_ring_lookup(ring: Seq<(u64, usize)>, h: u64) -> usize {
    ring[spec_lookup_pos(ring, h)].1
}

/// The hash of one backend replica.
pub fn hash_backend_replica(address: &str, replica: u32) -> (h: u64)
    ensures
        h == spec_hash_backend_replica(address@, replica),
{
    let bytes = address.as_bytes();
    let mut buf: Vec<u8> = Vec::new();
    let mut i: usize = 0;
    while i < bytes.len()
        invariant
            0 <= i <= bytes.len(),
            bytes@ == encode_utf8(address@),
            buf@ == bytes@.take(i as int),
        decreases bytes.len() - i,
    {
        buf.push(bytes[i]);
        proof {
            assert(bytes@.take(i as int).push(bytes@[i as int]) =~= bytes@.take(i + 1));
        }
        i += 1;
    }
    proof {
        assert(bytes@.take(bytes.len() as int) =~= bytes@);
    }
    buf.push((replica & 0xff) as u8);
    buf.push(((replica >> 8u32) & 0xff) as u8);
    buf.push(((replica >> 16u32) & 0xff) as u8);
    buf.push(((replica >> 24u32) & 0xff) as u8);
    proof {
        assert(buf@ =~= replica_key_bytes(address@, replica));
    }
    stable_hash64(buf.as_slice())
}

/// The hash of a request key.
pub fn hash_key(key: &str) -> (h: u64)
    ensures
        h == spec_hash_key(key.spec_bytes()),
{
    stable_hash64(key.as_bytes())
}

proof fn lemma_entry_order_total()
    ensures
        total_ordering(entry_order()),
{
    let leq = entry_order();
    assert forall|a: (u64, usize)| #[trigger] leq(a, a) by {}
    assert forall|a: (u64, usize), b: (u64, usize)| #[trigger] leq(a, b) && #[trigger] leq(b, a) implies a == b by {}
    assert forall|a: (u64, usize), b: (u64, usize), c: (u64, usize)|
        #[trigger] leq(a, b) && #[trigger] leq(b, c) implies leq(a, c) by {}
    assert forall|a: (u64, usize), b: (u64, usize)| #[trigger] leq(a, b) || leq(b, a) by {}
}

/// Sorts ring entries by insertion.
fn sort_entries(v: &Vec<(u64, usize)>) -> (r: Vec<(u64, usize)>)
    ensures
        sorted_by(r@, entry_order()),
        r@.to_multiset() == v@.to_multiset(),
{
    let mut r: Vec<(u64, usize)> = Vec::new();
    let mut i: usize = 0;
    while i < v.len()
        invariant
            0 <= i <= v.len(),
            forall|a: int, b: int| 0 <= a < b < r@.len() ==> entry_leq(#[trigger] r@[a], #[trigger] r@[b]),
            r@.to_multiset() == v@.take(i as int).to_multiset(),
        decreases v.len() - i,
    {
        let x = v[i];
        let mut pos: usize = 0;
        while pos < r.len() && (r[pos].0 < x.0 || (r[pos].0 == x.0 && r[pos].1 <= x.1))
            invariant
                0 <= pos <= r@.len(),
                forall|a: int| 0 <= a < pos ==> entry_leq(#[trigger] r@[a], x),
            decreases r@.len() - pos,
        {
            pos += 1;
        }
        let ghost old_r = r@;
        r.insert(pos, x);
        proof {
            assert(v@.take(i + 1) =~= v@.take(i as int).push(x));
            assert(r@.to_multiset() == old_r.to_multiset().insert(x));
            assert forall|a: int, b: int| 0 <= a < b < r@.len() implies entry_leq(
                #[trigger] r@[a],
                #[trigger] r@[b],
            ) by {
                if b < pos {
                    assert(r@[a] == old_r[a] && r@[b] == old_r[b]);
                } else if b == pos {
                    assert(r@[a] == old_r[a]);
                } else if a == pos {
                    assert(r@[b] == old_r[b - 1]);
                    assert(!entry_leq(old_r[pos as int], x));
                    if pos < b - 1 {
                        assert(entry_leq(old_r[pos as int], old_r[b - 1]));
                    }
                } else if a < pos {
                    assert(r@[a] == old_r[a] && r@[b] == old_r[b - 1]);
                } else {
                    assert(r@[a] == old_r[a - 1] && r@[b] == old_r[b - 1]);
                }
            }
        }
        i += 1;
    }
    proof {
        assert(v@.take(v.len() as int) =~= v@);
        assert forall|a: int, b: int| 0 <= a < b < r@.len() implies #[trigger] entry_order()(
            r@[a],
            r@[b],
        ) by {
            assert(entry_leq(r@[a], r@[b]));
        }
    }
    r
}

/// Builds the ring of a pool's healthy backends.
pub fn build_ring(pool: &BackendPool, replicas: u32) -> (ring: Vec<(u64, usize)>)
    requires
        pool.wf(),
    ensures
        ring@ == spec_ring(pool@, replicas),
{
    let healthy = pool.healthy();
    let ghost b = pool@.backends;
    proof {
        lemma_healthy_indices(b);
    }
    let mut entries: Vec<(u64, usize)> = Vec::new();
    let mut k: usize = 0;
    while k < healthy.len()
        invariant
            healthy@ == pool@.healthy(),
            b == pool@.backends,
            0 <= k <= healthy.len(),
            forall|j: int| 0 <= j < healthy@.len() ==> #[trigger] healthy@[j] < b.len(),
            entries@ == ring_entries(b, healthy@.take(k as int), replicas),
        decreases healthy.len() - k,
    {
        let idx = healthy[k];
        let backend = pool.backend(idx);
        let reps: u32 = match replicas.checked_mul(backend.weight) {
            Some(n) => n,
            None => u32::MAX,
        };
        let ghost prefix = entries@;
        let ghost be = backend_entries(b[idx as int], idx, replicas);
        let mut replica: u32 = 0;
        while replica < reps
            invariant
                0 <= replica <= reps,
                reps == replica_count(replicas, backend.weight),
                *backend == b[idx as int],
                be == backend_entries(b[idx as int], idx, replicas),
                entries@ == prefix + be.take(replica as int),
            decreases reps - replica,
        {
            let h = hash_backend_replica(backend.address.as_str(), replica);
            entries.push((h, idx));
            proof {
                assert(be.take(replica + 1) =~= be.take(replica as int).push((h, idx)));
            }
            replica += 1;
        }
        proof {
            assert(be.take(reps as int) =~= be);
            assert(healthy@.take(k + 1).drop_last() =~= healthy@.take(k as int));
            assert(healthy@.take(k + 1).last() == idx);
        }
        k += 1;
    }
    proof {
        assert(healthy@.take(healthy.len() as int) =~= healthy@);
    }
    let ring = sort_entries(&entries);
    proof {
        lemma_entry_order_total();
        entries@.lemma_sort_by_ensures(entry_order());
        vstd::seq_lib::lemma_sorted_unique(ring@, entries@.sort_by(entry_order()), entry_order());
    }
    ring
}

/// The backend at the ring position for the hash of `key`.
pub fn ring_lookup(ring: &Vec<(u64, usize)>, key: &str) -> (idx: usize)
    requires
        ring@.len() > 0,
    ensures
        idx == spec_ring_lookup(ring@, spec_hash_key(key.spec_bytes())),
{
    let h = hash_key(key);
    let mut j: usize = 0;
    while j < ring.len()
        invariant
            0 <= j <= ring@.len(),
            h == spec_hash_key(key.spec_bytes()),
            forall|k: int| 0 <= k < j ==> #[trigger] ring@[k].0 < h,
        decreases ring@.len() - j,
    {
        if ring[j].0 >= h {
            proof {
                assert(first_at_least(ring@, h, j as int));
                let c = choose|c: int| first_at_least(ring@, h, c);
                if c < j {
                    assert(ring@[c].0 < h);
                }
                if j < c {
                    assert(ring@[j as int].0 < h);
                }
                assert(c == j);
                assert(spec_lookup_pos(ring@, h) == j);
            }
            return ring[j].1;
        }
        j += 1;
    }
    proof {
        if exists|c: int| first_at_least(ring@, h, c) {
            let c = choose|c: int| first_at_least(ring@, h, c);
            assert(ring@[c].0 < h);
        }
    }
    ring[0].1
}

/// The lookup lands on an entry of a non-empty ring.
pub proof fn lemma_ring_lookup_in_ring(ring: Seq<(u64, usize)>, h: u64)
    requires
        ring.len() > 0,
    ensures
        0 <= spec_lookup_pos(ring, h) < ring.len(),
        ring.contains(ring[spec_lookup_pos(ring, h)]),
{
}

proof fn lemma_ring_entries_listed(backends: Seq<BackendState>, listed: Seq<usize>, replicas: u32)
    ensures
        forall|j: int|
            0 <= j < ring_entries(backends, listed, replicas).len() ==> listed.contains(
                (#[trigger] ring_entries(backends, listed, replicas)[j]).1,
            ),
    decreases listed.len(),
{
    if listed.len() > 0 {
        let prev = listed.drop_last();
        lemma_ring_entries_listed(backends, prev, replicas);
        let e = ring_entries(backends, listed, replicas);
        let pe = ring_entries(backends, prev, replicas);
        assert forall|j: int| 0 <= j < e.len() implies listed.contains((#[trigger] e[j]).1) by {
            if j < pe.len() {
                assert(e[j] == pe[j]);
                let k = choose|k: int| 0 <= k < prev.len() && prev[k] == pe[j].1;
                assert(listed[k] == prev[k]);
            } else {
                assert(e[j].1 == listed.last());
                assert(listed[listed.len() - 1] == listed.last());
            }
        }
    }
}

/// Every ring entry names a healthy backend of the pool.
pub proof fn lemma_spec_ring_healthy(pool: BackendPoolView, replicas: u32)
    ensures
        forall|j: int|
            0 <= j < spec_ring(pool, replicas).len() ==> pool.healthy().contains(
                (#[trigger] spec_ring(pool, replicas)[j]).1,
            ),
{
    let e = ring_entries(pool.backends, pool.healthy(), replicas);
    lemma_ring_entries_listed(pool.backends, pool.healthy(), replicas);
    lemma_entry_order_total();
    e.lemma_sort_by_ensures(entry_order());
    let s = spec_ring(pool, replicas);
    assert forall|j: int| 0 <= j < s.len() implies pool.healthy().contains((#[trigger] s[j]).1) by {
        assert(s.contains(s[j]));
        assert(e.contains(s[j]));
        let k = choose|k: int| 0 <= k < e.len() && e[k] == s[j];
        assert(pool.healthy().contains(e[k].1));
    }
}

/// Some healthy backend of the pool has a weight above zero.
pub open spec fn has_weighted_healthy(pool: BackendPoolView) -> bool {
    exists|j: int|
        0 <= j < pool.healthy().len() && (#[trigger] pool.backends[pool.healthy()[j] as int]).weight > 0
}

proof fn lemma_ring_entries_empty(backends: Seq<BackendState>, listed: Seq<usize>, replicas: u32)
    requires
        replicas >= 1,
    ensures
        (ring_entries(backends, listed, replicas).len() == 0) <==> (forall|j: int|
            0 <= j < listed.len() ==> (#[trigger] backends[listed[j] as int]).weight == 0),
    decreases listed.len(),
{
    if listed.len() > 0 {
        let prev = listed.drop_last();
        lemma_ring_entries_empty(backends, prev, replicas);
        let w = backends[listed.last() as int].weight;
        assert(replica_count(replicas, w) == 0 <==> w == 0) by {
            assert((replicas * w == 0) <==> (w == 0)) by (nonlinear_arith)
                requires
                    replicas >= 1,
            ;
        }
        assert(listed[listed.len() - 1] == listed.last());
        assert forall|j: int| 0 <= j < prev.len() implies #[trigger] prev[j] == listed[j] by {}
        if forall|j: int| 0 <= j < listed.len() ==> (#[trigger] backends[listed[j] as int]).weight == 0 {
            assert forall|j: int| 0 <= j < prev.len() implies (#[trigger] backends[prev[j] as int]).weight
                == 0 by {
                assert(prev[j] == listed[j]);
            }
        } else {
            let j = choose|j: int|
                0 <= j < listed.len() && (#[trigger] backends[listed[j] as int]).weight != 0;
            if j < prev.len() {
                assert(prev[j] == listed[j]);
            }
        }
    }
}

/// With at least one replica per unit of weight, the ring is empty exactly
/// when no healthy backend has a weight above zero.
pub proof fn lemma_spec_ring_empty(pool: BackendPoolView, replicas: u32)
    requires
        replicas >= 1,
    ensures
        (spec_ring(pool, replicas).len() == 0) <==> !has_weighted_healthy(pool),
{
    let e = ring_entries(pool.backends, pool.healthy(), replicas);
    lemma_ring_entries_empty(pool.backends, pool.healthy(), replicas);
    lemma_entry_order_total();
    e.lemma_sort_by_ensures(entry_order());
    vstd::seq_lib::to_multiset_len(e);
    vstd::seq_lib::to_multiset_len(spec_ring(pool, replicas));
}

/// The number of ring entries that name backend `i`.
pub open spec fn entries_naming(ring: Seq<(u64, usize)>, i: usize) -> nat
    decreases ring.len(),
{
    if ring.len() == 0 {
        0
    } else {
        entries_naming(ring.drop_last(), i) + if ring.last().1 == i {
            1nat
        } else {
            0nat
        }
    }
}

proof fn lemma_naming_concat(a: Seq<(u64, usize)>, b: Seq<(u64, usize)>, i: usize)
    ensures
        entries_naming(a + b, i) == entries_naming(a, i) + entries_naming(b, i),
    decreases b.len(),
{
    if b.len() == 0 {
        assert(a + b =~= a);
    } else {
        lemma_naming_concat(a, b.drop_last(), i);
        assert((a + b).drop_last() =~= a + b.drop_last());
        assert((a + b).last() == b.last());
    }
}

proof fn lemma_naming_uniform(s: Seq<(u64, usize)>, idx: usize, i: usize)
    requires
        forall|j: int| 0 <= j < s.len() ==> (#[trigger] s[j]).1 == idx,
    ensures
        entries_naming(s, i) == if idx == i {
            s.len()
        } else {
            0
        },
    decreases s.len(),
{
    if s.len() > 0 {
        let p = s.drop_last();
        assert forall|j: int| 0 <= j < p.len() implies (#[trigger] p[j]).1 == idx by {
            assert(p[j] == s[j]);
        }
        lemma_naming_uniform(p, idx, i);
        assert(s.last() == s[s.len() - 1]);
    }
}

proof fn lemma_naming_remove(s: Seq<(u64, usize)>, k: int, i: usize)
    requires
        0 <= k < s.len(),
    ensures
        entries_naming(s, i) == entries_naming(s.remove(k), i) + if s[k].1 == i {
            1nat
        } else {
            0nat
        },
    decreases s.len(),
{
    if k == s.len() - 1 {
        assert(s.remove(k) =~= s.drop_last());
    } else {
        let p = s.drop_last();
        lemma_naming_remove(p, k, i);
        assert(s.remove(k).drop_last() =~= p.remove(k));
        assert(s.remove(k).last() == s.last());
        assert(p[k] == s[k]);
    }
}

proof fn lemma_naming_permutation(s1: Seq<(u64, usize)>, s2: Seq<(u64, usize)>, i: usize)
    requires
        s1.to_multiset() == s2.to_multiset(),
    ensures
        entries_naming(s1, i) == entries_naming(s2, i),
    decreases s1.len(),
{
    if s1.len() == 0 {
        assert(s2.len() == s2.to_multiset().len());
        assert(s1.len() == s1.to_multiset().len());
    } else {
        let x = s1.last();
        let p1 = s1.drop_last();
        assert(p1.push(x) =~= s1);
        assert(s1.to_multiset() =~= p1.to_multiset().insert(x));
        assert(s1.contains(x)) by {
            assert(s1[s1.len() - 1] == x);
        }
        assert(s1.to_multiset().count(x) > 0);
        assert(s2.contains(x));
        let k = choose|k: int| 0 <= k < s2.len() && s2[k] == x;
        let p2 = s2.remove(k);
        assert(p2.to_multiset() =~= s2.to_multiset().remove(x));
        assert(p1.to_multiset() =~= s1.to_multiset().remove(x));
        lemma_naming_permutation(p1, p2, i);
        lemma_naming_remove(s2, k, i);
    }
}

proof fn lemma_ring_entries_naming(
    backends: Seq<BackendState>,
    listed: Seq<usize>,
    replicas: u32,
    i: usize,
)
    requires
        forall|a: int, b: int| 0 <= a < b < listed.len() ==> listed[a] != listed[b],
    ensures
        entries_naming(ring_entries(backends, listed, replicas), i) == if listed.contains(i) {
            replica_count(replicas, backends[i as int].weight) as nat
        } else {
            0
        },
    decreases listed.len(),
{
    if listed.len() > 0 {
        let prev = listed.drop_last();
        let last = listed.last();
        assert forall|a: int, b: int| 0 <= a < b < prev.len() implies prev[a] != prev[b] by {
            assert(prev[a] == listed[a] && prev[b] == listed[b]);
        }
        lemma_ring_entries_naming(backends, prev, replicas, i);
        let be = backend_entries(backends[last as int], last, replicas);
        lemma_naming_concat(ring_entries(backends, prev, replicas), be, i);
        lemma_naming_uniform(be, last, i);
        assert(listed[listed.len() - 1] == last);
        if last == i {
            assert(listed.contains(i));
            if prev.contains(i) {
                let j = choose|j: int| 0 <= j < prev.len() && prev[j] == i;
                assert(listed[j] == i);
            }
        } else {
            if listed.contains(i) {
                let j = choose|j: int| 0 <= j < listed.len() && listed[j] == i;
                assert(j < prev.len());
                assert(prev[j] == i);
            }
            if prev.contains(i) {
                let j = choose|j: int| 0 <= j < prev.len() && prev[j] == i;
                assert(listed[j] == i);
            }
        }
    }
}

/// Consistent hashing weighs backends by their weight: the ring holds, for
/// each healthy backend, the replica count times its weight entries naming
/// it (at most `u32::MAX`), and none for a backend that is not healthy.
pub proof fn lemma_ring_replicas_by_weight(pool: BackendPoolView, replicas: u32, i: usize)
    requires
        pool.backends.len() <= usize::MAX,
    ensures
        entries_naming(spec_ring(pool, replicas), i) == if i < pool.backends.len()
            && pool.backends[i as int].healthy {
            if replicas * pool.backends[i as int].weight > u32::MAX {
                u32::MAX as int
            } else {
                replicas * pool.backends[i as int].weight
            }
        } else {
            0
        },
{
    let h = pool.healthy();
    lemma_healthy_indices(pool.backends);
    let e = ring_entries(pool.backends, h, replicas);
    lemma_ring_entries_naming(pool.backends, h, replicas, i);
    lemma_entry_order_total();
    e.lemma_sort_by_ensures(entry_order());
    lemma_naming_permutation(spec_ring(pool, replicas), e, i);
    if h.contains(i) {
        let j = choose|j: int| 0 <= j < h.len() && h[j] == i;
        assert(h[j] < pool.backends.len() && pool.backends[h[j] as int].healthy);
    }
    if i < pool.backends.len() && pool.backends[i as int].healthy {
        assert(h.contains(i as usize));
    }
}

} // verus!
