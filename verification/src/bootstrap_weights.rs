//! The predefined representative weights a node starts from: a block count followed by
//! (representative, weight) records, all numbers big-endian.
//!
//! Layout: 16 bytes holding the block count, then records of 48 bytes each: the
//! representative's 32-byte public key and its 16-byte weight. Reading stops at the
//! first incomplete record.

use vstd::prelude::*;
use crate::numbers::{Hash256, PublicKey};

verus! {

/// Bytes of the block count at the front.
pub const COUNT_BYTES: usize = 16;

/// Bytes of one (representative, weight) record.
pub const RECORD_BYTES: usize = 48;

/// The voting weight of each representative; a representative not listed has none.
pub struct RepWeights {
    entries: Vec<(PublicKey, u128)>,
}

/// The weights read from the predefined table.
pub struct BootstrapWeights {
    /// The block count up to which the predefined weights are used.
    pub max_blocks: u64,
    pub weights: RepWeights,
}

/// The weight of a representative in a table: zero when it is not listed.
pub open spec fn rep_weight(w: Map<PublicKey, u128>, rep: PublicKey) -> nat {
    if w.contains_key(rep) { w[rep] as nat } else { 0 }
}

/// Powers of 256.
pub open spec fn pow256(n: nat) -> nat
    decreases n,
{
    if n == 0 { 1 } else { 256 * pow256((n - 1) as nat) }
}

/// The big-endian number the bytes spell.
pub open spec fn be_value(s: Seq<u8>) -> nat
    decreases s.len(),
{
    if s.len() == 0 { 0 } else { be_value(s.drop_last()) * 256 + s.last() as nat }
}

/// The number held in the 16 bytes at `at`.
pub open spec fn be_u128_at(b: Seq<u8>, at: int) -> nat {
    be_value(b.subrange(at, at + 16))
}

/// The number of complete records.
pub open spec fn record_count(b: Seq<u8>) -> nat {
    if b.len() < 16 { 0 } else { ((b.len() - 16) / 48) as nat }
}

/// The i-th record: the key's two halves and the weight.
pub open spec fn record_at(b: Seq<u8>, i: int) -> (PublicKey, u128) {
    let o = 16 + 48 * i;
    (Hash256 { hi: be_u128_at(b, o) as u128, lo: be_u128_at(b, o + 16) as u128 }, be_u128_at(b, o + 32) as u128)
}

pub open spec fn records(b: Seq<u8>) -> Seq<(PublicKey, u128)> {
    Seq::new(record_count(b), |i: int| record_at(b, i))
}

/// Reading records in order into a map: a representative read again takes the later weight.
pub open spec fn weights_of(recs: Seq<(PublicKey, u128)>) -> Map<PublicKey, u128>
    decreases recs.len(),
{
    if recs.len() == 0 {
        Map::empty()
    } else {
        weights_of(recs.drop_last()).insert(recs.last().0, recs.last().1)
    }
}

/// The block count: the first 16 bytes as a number cut to its low 64 bits, or 0 when
/// there are fewer than 16 bytes.
pub open spec fn max_blocks_of(b: Seq<u8>) -> u64 {
    if b.len() < 16 { 0 } else { (be_u128_at(b, 0) % 0x1_0000_0000_0000_0000) as u64 }
}

pub open spec fn has_weight(s: Seq<(PublicKey, u128)>, k: PublicKey) -> bool {
    exists|i: int| 0 <= i < s.len() && s[i].0 == k
}

pub open spec fn weight_position(s: Seq<(PublicKey, u128)>, k: PublicKey) -> int {
    choose|i: int| 0 <= i < s.len() && s[i].0 == k
}

/// A list of distinct representatives as a map.
pub open spec fn weights_map(s: Seq<(PublicKey, u128)>) -> Map<PublicKey, u128> {
    Map::new(|k: PublicKey| has_weight(s, k), |k: PublicKey| s[weight_position(s, k)].1)
}

pub open spec fn distinct_reps(s: Seq<(PublicKey, u128)>) -> bool {
    forall|i: int, j: int| 0 <= i < j < s.len() ==> s[i].0 != s[j].0
}

proof fn lemma_pow256_16()
    ensures
        pow256(16) == 0x1_0000_0000_0000_0000_0000_0000_0000_0000nat,
{
    reveal_with_fuel(pow256, 17);
}

proof fn lemma_be_value_bound(s: Seq<u8>)
    ensures
        be_value(s) < pow256(s.len()),
    decreases s.len(),
{
    if s.len() > 0 {
        lemma_be_value_bound(s.drop_last());
    }
}

proof fn lemma_weight_position(s: Seq<(PublicKey, u128)>, k: PublicKey, i: int)
    requires
        distinct_reps(s),
        0 <= i < s.len(),
        s[i].0 == k,
    ensures
        has_weight(s, k),
        weight_position(s, k) == i,
{
    let q = weight_position(s, k);
    if q != i {
        if q < i { assert(s[q].0 != s[i].0); } else { assert(s[i].0 != s[q].0); }
    }
}

/// Reads the 16 bytes at `at` as a big-endian number.
fn read_u128_be(b: &[u8], at: usize) -> (r: u128)
    requires
        at + 16 <= b@.len(),
    ensures
        r == be_u128_at(b@, at as int),
{
    let ghost s = b@.subrange(at as int, at + 16);
    let len = b.len();
    let mut v: u128 = 0;
    let mut i: usize = 0;
    while i < 16
        invariant
            len == b@.len(),
            i <= 16,
            at + 16 <= b@.len(),
            s == b@.subrange(at as int, at + 16),
            v == be_value(s.subrange(0, i as int)),
        decreases 16 - i,
    {
        proof {
            lemma_be_value_bound(s.subrange(0, i as int));
            assert(s.subrange(0, i + 1).drop_last() =~= s.subrange(0, i as int));
            lemma_pow256_16();
            lemma_pow256_monotone((i + 1) as nat, 16);
            assert(pow256((i + 1) as nat) == 256 * pow256(i as nat));
        }
        v = v * 256 + b[at + i] as u128;
        i = i + 1;
    }
    assert(s.subrange(0, 16) =~= s);
    v
}

proof fn lemma_pow256_monotone(a: nat, b: nat)
    requires
        a <= b,
    ensures
        pow256(a) <= pow256(b),
    decreases b - a,
{
    if a < b {
        lemma_pow256_monotone(a, (b - 1) as nat);
    }
}

/// Records the weight, replacing an earlier one of the same representative.
fn insert_weight(weights: &mut Vec<(PublicKey, u128)>, rep: PublicKey, weight: u128)
    requires
        distinct_reps(old(weights)@),
    ensures
        distinct_reps(final(weights)@),
        weights_map(final(weights)@) == weights_map(old(weights)@).insert(rep, weight),
{
    let ghost before = weights@;
    let mut i: usize = 0;
    while i < weights.len()
        invariant
            weights@ == before,
            old(weights)@ == before,
            distinct_reps(before),
            i <= before.len(),
            forall|j: int| 0 <= j < i ==> (#[trigger] before[j]).0 != rep,
        decreases before.len() - i,
    {
        if weights[i].0.equals(&rep) {
            weights.set(i, (rep, weight));
            proof {
                let after = weights@;
                assert(distinct_reps(after)) by {
                    assert forall|a: int, b: int| 0 <= a < b < after.len() implies after[a].0 != after[b].0 by {
                        assert(before[i as int].0 == rep);
                    }
                }
                assert forall|k: PublicKey| #[trigger] weights_map(after).contains_key(k)
                    == weights_map(before).insert(rep, weight).contains_key(k) by {
                    if k == rep {
                        assert(after[i as int].0 == rep);
                    } else if has_weight(before, k) {
                        let w = choose|w: int| 0 <= w < before.len() && before[w].0 == k;
                        assert(after[w] == before[w]);
                    } else if has_weight(after, k) {
                        let w = choose|w: int| 0 <= w < after.len() && after[w].0 == k;
                        assert(after[w] == before[w]);
                    }
                }
                assert forall|k: PublicKey| #[trigger] weights_map(after).contains_key(k) implies
                    weights_map(after)[k] == weights_map(before).insert(rep, weight)[k] by {
                    if k == rep {
                        lemma_weight_position(after, rep, i as int);
                    } else {
                        let w = choose|w: int| 0 <= w < after.len() && after[w].0 == k;
                        lemma_weight_position(after, k, w);
                        lemma_weight_position(before, k, w);
                    }
                }
                assert(weights_map(after) =~= weights_map(before).insert(rep, weight));
            }
            return;
        }
        i = i + 1;
    }
    weights.push((rep, weight));
    proof {
        let after = weights@;
        let n = before.len() as int;
        assert(distinct_reps(after)) by {
            assert forall|a: int, b: int| 0 <= a < b < after.len() implies after[a].0 != after[b].0 by {
                if b == n { assert(after[a] == before[a]); }
            }
        }
        assert forall|k: PublicKey| #[trigger] weights_map(after).contains_key(k)
            == weights_map(before).insert(rep, weight).contains_key(k) by {
            if k == rep {
                assert(after[n].0 == rep);
            } else if has_weight(before, k) {
                let w = choose|w: int| 0 <= w < before.len() && before[w].0 == k;
                assert(after[w] == before[w]);
            } else if has_weight(after, k) {
                let w = choose|w: int| 0 <= w < after.len() && after[w].0 == k;
                assert(w != n);
                assert(after[w] == before[w]);
            }
        }
        assert forall|k: PublicKey| #[trigger] weights_map(after).contains_key(k) implies
            weights_map(after)[k] == weights_map(before).insert(rep, weight)[k] by {
            if k == rep {
                lemma_weight_position(after, rep, n);
            } else {
                let w = choose|w: int| 0 <= w < after.len() && after[w].0 == k;
                assert(w != n);
                assert(after[w] == before[w]);
                lemma_weight_position(after, k, w);
                lemma_weight_position(before, k, w);
            }
        }
        assert(weights_map(after) =~= weights_map(before).insert(rep, weight));
    }
}

impl RepWeights {
    pub closed spec fn view(&self) -> Map<PublicKey, u128> {
        weights_map(self.entries@)
    }

    pub closed spec fn wf(&self) -> bool {
        distinct_reps(self.entries@)
    }

    pub fn new() -> (r: Self)
        ensures
            r.wf(),
            r@ == Map::<PublicKey, u128>::empty(),
    {
        let r = RepWeights { entries: Vec::new() };
        assert(weights_map(r.entries@) =~= Map::empty());
        r
    }

    /// Sets the representative's weight, replacing an earlier one.
    pub fn insert(&mut self, rep: PublicKey, weight: u128)
        requires
            old(self).wf(),
        ensures
            final(self).wf(),
            final(self)@ == old(self)@.insert(rep, weight),
    {
        insert_weight(&mut self.entries, rep, weight);
    }

    /// The number of representatives listed.
    pub fn len(&self) -> (r: usize)
        requires
            self.wf(),
        ensures
            r == self@.len(),
    {
        proof { lemma_weights_map_len(self.entries@); }
        self.entries.len()
    }

    /// The representative's weight; zero when it is not listed.
    pub fn weight(&self, rep: &PublicKey) -> (r: u128)
        requires
            self.wf(),
        ensures
            r == rep_weight(self@, *rep),
    {
        let mut i: usize = 0;
        while i < self.entries.len()
            invariant
                distinct_reps(self.entries@),
                i <= self.entries@.len(),
                forall|j: int| 0 <= j < i ==> (#[trigger] self.entries@[j]).0 != *rep,
            decreases self.entries@.len() - i,
        {
            if self.entries[i].0.equals(rep) {
                proof { lemma_weight_position(self.entries@, *rep, i as int); }
                return self.entries[i].1;
            }
            i = i + 1;
        }
        0
    }
}

/// A list of distinct representatives has as many entries as its map.
proof fn lemma_weights_map_len(s: Seq<(PublicKey, u128)>)
    requires
        distinct_reps(s),
    ensures
        weights_map(s).dom().finite(),
        weights_map(s).len() == s.len(),
    decreases s.len(),
{
    let m = weights_map(s);
    if s.len() == 0 {
        assert(m.dom() =~= Set::empty());
    } else {
        let t = s.drop_last();
        assert(distinct_reps(t)) by {
            assert forall|a: int, b: int| 0 <= a < b < t.len() implies t[a].0 != t[b].0 by {
                assert(t[a] == s[a] && t[b] == s[b]);
            }
        }
        lemma_weights_map_len(t);
        let k = s.last().0;
        assert(!weights_map(t).dom().contains(k)) by {
            if has_weight(t, k) {
                let w = choose|w: int| 0 <= w < t.len() && t[w].0 == k;
                assert(s[w].0 != s[s.len() - 1].0);
            }
        }
        assert forall|x: PublicKey| #[trigger] m.dom().contains(x) == weights_map(t).dom().insert(k).contains(x) by {
            if has_weight(s, x) && x != k {
                let w = choose|w: int| 0 <= w < s.len() && s[w].0 == x;
                assert(w < t.len());
                assert(t[w] == s[w]);
            }
            if has_weight(t, x) {
                let w = choose|w: int| 0 <= w < t.len() && t[w].0 == x;
                assert(s[w] == t[w]);
            }
            if x == k {
                assert(s[s.len() - 1].0 == k);
            }
        }
        assert(m.dom() =~= weights_map(t).dom().insert(k));
    }
}

/// Reads the predefined weights: the block count, then every complete record in order.
pub fn deserialize_bootstrap_weights(buffer: &[u8]) -> (r: BootstrapWeights)
    ensures
        r.max_blocks == max_blocks_of(buffer@),
        r.weights.wf(),
        r.weights@ == weights_of(records(buffer@)),
{
    let mut weights: Vec<(PublicKey, u128)> = Vec::new();
    let mut max_blocks: u64 = 0;
    proof {
        assert(weights_map(weights@) =~= Map::empty());
    }
    if buffer.len() >= COUNT_BYTES {
        let count = read_u128_be(buffer, 0);
        max_blocks = (count % 0x1_0000_0000_0000_0000) as u64;
        let blen = buffer.len();
        let n = (blen - COUNT_BYTES) / RECORD_BYTES;
        let ghost recs = records(buffer@);
        let mut i: usize = 0;
        while i < n
            invariant
                blen == buffer@.len(),
                buffer@.len() >= 16,
                n == record_count(buffer@),
                recs == records(buffer@),
                i <= n,
                distinct_reps(weights@),
                weights_map(weights@) == weights_of(recs.take(i as int)),
            decreases n - i,
        {
            assert(16 + 48 * i + 48 <= buffer@.len()) by (nonlinear_arith)
                requires i < n, n == (buffer@.len() - 16) / 48, buffer@.len() >= 16;
            let at = COUNT_BYTES + RECORD_BYTES * i;
            let hi = read_u128_be(buffer, at);
            let lo = read_u128_be(buffer, at + 16);
            let weight = read_u128_be(buffer, at + 32);
            let rep = Hash256::new(hi, lo);
            proof {
                assert(recs[i as int] == (rep, weight));
                assert(recs.take(i + 1).drop_last() =~= recs.take(i as int));
                assert(recs.take(i + 1).last() == recs[i as int]);
            }
            insert_weight(&mut weights, rep, weight);
            i = i + 1;
        }
        assert(recs.take(n as int) =~= recs);
    } else {
        assert(records(buffer@) =~= Seq::<(PublicKey, u128)>::empty());
    }
    BootstrapWeights { max_blocks, weights: RepWeights { entries: weights } }
}

} // verus!
