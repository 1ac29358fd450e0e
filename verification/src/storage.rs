//! The rolling observation window and its signed aggregate.
//!
//! Observations are stored deduplicated by timestamp (last write wins) in
//! strictly increasing timestamp order. Eviction removes exactly the
//! observations at or before a cutoff and nothing else. The aggregation
//! computes the fixed-point time-weighted average price over the survivors
//! and replaces the cached aggregate and its signature together, never one
//! without the other.

use vstd::prelude::*;
use crate::bignum::{
    be_bytes_of, big_add, big_div_u64, big_from_u64, big_mul_u128_u64, big_shl_64,
    big_to_bytes_be, big_val,
};
use crate::events::SpotEntryEvent;
use crate::signing::{
    ecdsa_signature, ecdsa_verifies, new_context, pk_of, sha256_digest, sha256_of, sign_digest,
    sk_bytes, SigningContext,
};

verus! {

/// Observations in strictly increasing timestamp order: the storage
/// invariant that both keeps keys unique and keeps the aggregation's
/// single pass in time order.
pub open spec fn sorted_by_ts(s: Seq<SpotEntryEvent>) -> bool {
    forall|i: int, j: int| 0 <= i < j < s.len() ==> s[i].timestamp < s[j].timestamp
}

/// The mapping timestamp -> observation that a stored sequence represents;
/// a later entry with the same timestamp wins.
pub open spec fn stored_map(s: Seq<SpotEntryEvent>) -> Map<u64, SpotEntryEvent>
    decreases s.len(),
{
    if s.len() == 0 {
        Map::empty()
    } else {
        stored_map(s.drop_last()).insert(s.last().timestamp, s.last())
    }
}

/// A timestamp is stored exactly when some observation carries it.
proof fn lemma_stored_map_contains(s: Seq<SpotEntryEvent>, t: u64)
    ensures
        stored_map(s).contains_key(t) <==> exists|i: int|
            0 <= i < s.len() && s[i].timestamp == t,
    decreases s.len(),
{
    if s.len() > 0 {
        lemma_stored_map_contains(s.drop_last(), t);
        if s.last().timestamp == t {
            assert(s[s.len() - 1].timestamp == t);
        } else {
            if stored_map(s).contains_key(t) {
                let i = choose|i: int| 0 <= i < s.len() - 1 && s.drop_last()[i].timestamp == t;
                assert(s[i].timestamp == t);
            }
            if exists|i: int| 0 <= i < s.len() && s[i].timestamp == t {
                let i = choose|i: int| 0 <= i < s.len() && s[i].timestamp == t;
                assert(i < s.len() - 1);
                assert(s.drop_last()[i].timestamp == t);
            }
        }
    }
}

/// In a strictly sorted sequence, each observation is the one its
/// timestamp maps to.
proof fn lemma_stored_map_index(s: Seq<SpotEntryEvent>, i: int)
    requires
        sorted_by_ts(s),
        0 <= i < s.len(),
    ensures
        stored_map(s).contains_key(s[i].timestamp),
        stored_map(s)[s[i].timestamp] == s[i],
    decreases s.len(),
{
    if i == s.len() - 1 {
    } else {
        assert(sorted_by_ts(s.drop_last())) by {
            assert(forall|a: int, b: int|
                0 <= a < b < s.len() - 1 ==> #[trigger] s.drop_last()[a].timestamp
                    < #[trigger] s.drop_last()[b].timestamp) by {
                assert(forall|a: int| 0 <= a < s.len() - 1 ==> s.drop_last()[a] == s[a]);
            }
        }
        lemma_stored_map_index(s.drop_last(), i);
        assert(s.drop_last()[i] == s[i]);
        assert(s[i].timestamp < s.last().timestamp);
    }
}

/// In a strictly sorted sequence, equal timestamps mean equal indices.
proof fn lemma_sorted_unique(s: Seq<SpotEntryEvent>, i: int, j: int)
    requires
        sorted_by_ts(s),
        0 <= i < s.len(),
        0 <= j < s.len(),
        s[i].timestamp == s[j].timestamp,
    ensures
        i == j,
{
    if i < j {
        assert(s[i].timestamp < s[j].timestamp);
    }
    if j < i {
        assert(s[j].timestamp < s[i].timestamp);
    }
}

/// The weighted sum of the aggregation: every observation after the first
/// contributes its price times the gap to its predecessor.
pub open spec fn weighted_sum(s: Seq<SpotEntryEvent>) -> int
    decreases s.len(),
{
    if s.len() <= 1 {
        0
    } else {
        weighted_sum(s.drop_last()) + s[s.len() - 1].price * (s[s.len() - 1].timestamp
            - s[s.len() - 2].timestamp)
    }
}

/// The total weight: the time the window spans, which the pairwise gaps
/// telescope to.
pub open spec fn total_gap(s: Seq<SpotEntryEvent>) -> int {
    if s.len() <= 1 {
        0
    } else {
        s[s.len() - 1].timestamp - s[0].timestamp
    }
}

/// The fixed-point aggregate: the weighted sum scaled by 2^64 first, then
/// divided, so precision is truncated only once.
pub open spec fn twap_of(s: Seq<SpotEntryEvent>) -> int {
    (weighted_sum(s) * 0x1_0000_0000_0000_0000) / total_gap(s)
}

/// Under strict timestamp order every gap is positive, so the weighted sum
/// cannot be negative.
proof fn lemma_weighted_sum_nonneg(s: Seq<SpotEntryEvent>)
    requires
        sorted_by_ts(s),
    ensures
        weighted_sum(s) >= 0,
    decreases s.len(),
{
    if s.len() > 1 {
        assert(sorted_by_ts(s.drop_last())) by {
            assert(forall|a: int| 0 <= a < s.len() - 1 ==> s.drop_last()[a] == s[a]);
        }
        lemma_weighted_sum_nonneg(s.drop_last());
        assert(s[s.len() - 2].timestamp < s[s.len() - 1].timestamp);
        assert(s[s.len() - 1].price * (s[s.len() - 1].timestamp - s[s.len() - 2].timestamp) >= 0)
            by (nonlinear_arith)
            requires
                s[s.len() - 1].price >= 0,
                s[s.len() - 1].timestamp - s[s.len() - 2].timestamp >= 0;
    }
}

/// Holds the deduplicated observation window together with the latest
/// signed aggregate; the aggregate and its signature are only ever
/// replaced as one pair.
pub struct SpotEntryStorage {
    secp: SigningContext,
    data: Vec<SpotEntryEvent>,
    /// The cached fixed-point aggregate, `None` until the first recompute.
    pub twap: Option<num_bigint::BigUint>,
    /// The compact signature over the digest of the aggregate's canonical
    /// big-endian bytes, `None` until the first recompute.
    pub signature: Option<Vec<u8>>,
}

impl SpotEntryStorage {
    /// The stored observations, in strictly increasing timestamp order.
    pub closed spec fn obs_seq(self) -> Seq<SpotEntryEvent> {
        self.data@
    }

    /// The stored observations as the mapping timestamp -> observation.
    pub open spec fn entries(self) -> Map<u64, SpotEntryEvent> {
        stored_map(self.obs_seq())
    }

    /// The cached aggregate as a number.
    pub closed spec fn twap_val(self) -> Option<nat> {
        match self.twap {
            Some(b) => Some(big_val(b)),
            None => None,
        }
    }

    /// The cached signature as bytes.
    pub closed spec fn sig_val(self) -> Option<Seq<u8>> {
        match self.signature {
            Some(v) => Some(v@),
            None => None,
        }
    }

    /// Well-formedness: strict timestamp order (hence unique keys), and the
    /// aggregate and its signature present or absent together.
    pub open spec fn wf(self) -> bool {
        &&& sorted_by_ts(self.obs_seq())
        &&& (self.twap_val() is Some <==> self.sig_val() is Some)
    }

    /// An empty window with nothing cached.
    pub fn new() -> (r: SpotEntryStorage)
        ensures
            r.wf(),
            r.obs_seq() == Seq::<SpotEntryEvent>::empty(),
            r.twap_val() is None,
            r.sig_val() is None,
    {
        SpotEntryStorage {
            secp: new_context(),
            data: Vec::new(),
            twap: None,
            signature: None,
        }
    }

    /// How many observations the window holds.
    pub fn len(&self) -> (r: usize)
        ensures
            r == self.obs_seq().len(),
    {
        self.data.len()
    }

    /// A consistent snapshot of the published attestation for the serving
    /// layer: the aggregate's canonical big-endian bytes together with the
    /// signature over their digest, `None` until the first recompute. The
    /// two halves always come from the same computation cycle.
    pub fn read_latest(&self) -> (r: Option<(Vec<u8>, Vec<u8>)>)
        requires
            self.wf(),
        ensures
            r is Some <==> self.twap_val() is Some,
            r matches Some(p) ==> self.twap_val() matches Some(v) && p.0@ == be_bytes_of(v)
                && self.sig_val() == Some(p.1@),
    {
        match (&self.twap, &self.signature) {
            (Some(t), Some(s)) => Some((big_to_bytes_be(t), vstd::slice::slice_to_vec(s.as_slice()))),
            _ => None,
        }
    }

    /// Inserts an observation by timestamp; an observation already stored
    /// under the same timestamp is overwritten (last write wins). The
    /// cached aggregate and signature are untouched.
    pub fn append(&mut self, event: SpotEntryEvent)
        requires
            old(self).wf(),
        ensures
            final(self).wf(),
            final(self).entries() == old(self).entries().insert(event.timestamp, event),
            final(self).twap_val() == old(self).twap_val(),
            final(self).sig_val() == old(self).sig_val(),
    {
        let ghost s = self.data@;
        let n = self.data.len();
        let mut i: usize = 0;
        while i < n && self.data[i].timestamp < event.timestamp
            invariant
                0 <= i <= n == self.data@.len(),
                self.data@ == s,
                forall|j: int| 0 <= j < i ==> s[j].timestamp < event.timestamp,
            decreases n - i,
        {
            i = i + 1;
        }
        if i < n && self.data[i].timestamp == event.timestamp {
            self.data.set(i, event);
            proof {
                lemma_stored_replace(s, i as int, event);
            }
        } else {
            self.data.insert(i, event);
            proof {
                assert(forall|j: int| i <= j < s.len() ==> s[j].timestamp > event.timestamp) by {
                    assert forall|j: int| i <= j < s.len() implies s[j].timestamp
                        > event.timestamp by {
                        if i < s.len() {
                            if j > i {
                                assert(s[i as int].timestamp < s[j].timestamp);
                            }
                        }
                    }
                }
                lemma_stored_insert(s, i as int, event);
            }
        }
    }

    /// Evicts exactly the observations with `timestamp <= cutoff` and
    /// preserves all others; the cached aggregate and signature are
    /// untouched.
    pub fn clean_older_than(&mut self, cutoff: u64)
        requires
            old(self).wf(),
        ensures
            final(self).wf(),
            forall|t: u64| final(self).entries().contains_key(t) <==> (
                old(self).entries().contains_key(t) && t > cutoff),
            forall|t: u64| final(self).entries().contains_key(t)
                ==> final(self).entries()[t] == old(self).entries()[t],
            final(self).twap_val() == old(self).twap_val(),
            final(self).sig_val() == old(self).sig_val(),
    {
        let ghost s = self.data@;
        let n = self.data.len();
        let mut k: usize = 0;
        while k < n && self.data[k].timestamp <= cutoff
            invariant
                0 <= k <= n == self.data@.len(),
                self.data@ == s,
                forall|j: int| 0 <= j < k ==> s[j].timestamp <= cutoff,
            decreases n - k,
        {
            k = k + 1;
        }
        proof {
            assert forall|j: int| k <= j < s.len() implies s[j].timestamp > cutoff by {
                if k < s.len() {
                    if j > k {
                        assert(s[k as int].timestamp < s[j].timestamp);
                    }
                }
            }
        }
        let kept = self.data.split_off(k);
        self.data = kept;
        proof {
            assert(self.data@ =~= s.skip(k as int));
            lemma_stored_evict(s, k as int, cutoff);
        }
    }

    /// Recomputes the aggregate over the surviving observations and signs
    /// it. With fewer than two observations (so with no time gap to weight
    /// by) the cached pair is left exactly as it was. Otherwise the earliest
    /// observation serves as the initial time reference, every later one
    /// contributes price times gap, and the cached pair is replaced by the
    /// scaled quotient and the signature of its canonical bytes' digest —
    /// a signature that verifies against the node's public key (the one
    /// derived from the signing key) over that digest.
    pub fn calculate_and_sign_twap(&mut self, secret_key: secp256k1::SecretKey)
        requires
            old(self).wf(),
        ensures
            final(self).wf(),
            final(self).obs_seq() == old(self).obs_seq(),
            old(self).obs_seq().len() < 2 ==> final(self).twap_val() == old(self).twap_val()
                && final(self).sig_val() == old(self).sig_val(),
            old(self).obs_seq().len() >= 2 ==> {
                &&& final(self).twap_val() == Some(twap_of(old(self).obs_seq()) as nat)
                &&& final(self).sig_val() == Some(
                    ecdsa_signature(
                        sha256_of(be_bytes_of(twap_of(old(self).obs_seq()) as nat)),
                        sk_bytes(secret_key),
                    ),
                )
                &&& ecdsa_verifies(
                    sha256_of(be_bytes_of(twap_of(old(self).obs_seq()) as nat)),
                    final(self).sig_val().unwrap(),
                    pk_of(sk_bytes(secret_key)),
                )
            },
    {
        let ghost s = self.data@;
        let n = self.data.len();
        if n < 2 {
            return ;
        }
        let mut num = big_from_u64(0);
        let mut div: u64 = 0;
        let mut last_ts: u64 = self.data[0].timestamp;
        let mut i: usize = 1;
        proof {
            assert(s.take(1).len() == 1);
        }
        while i < n
            invariant
                1 <= i <= n == s.len(),
                self.data@ == s,
                sorted_by_ts(s),
                last_ts == s[i - 1].timestamp,
                big_val(num) == weighted_sum(s.take(i as int)),
                div == total_gap(s.take(i as int)),
                div <= last_ts,
            decreases n - i,
        {
            let e = self.data[i];
            proof {
                assert(s[i - 1].timestamp < s[i as int].timestamp);
                if i >= 2 {
                    assert(s[0].timestamp < s[i - 1].timestamp);
                }
                assert(s.take(i as int)[0] == s[0]);
            }
            let delta = e.timestamp - last_ts;
            let term = big_mul_u128_u64(e.price, delta);
            num = big_add(&num, &term);
            div = div + delta;
            proof {
                let tk1 = s.take(i + 1);
                assert(tk1.drop_last() =~= s.take(i as int));
                assert(tk1.last() == s[i as int]);
                assert(tk1[i - 1] == s[i - 1]);
                assert(tk1[0] == s[0]);
            }
            last_ts = e.timestamp;
            i = i + 1;
        }
        proof {
            assert(s.take(n as int) =~= s);
            assert(s[0].timestamp < s[n - 1].timestamp);
        }
        if div == 0 {
            // Guard demanded by the aggregation contract: a zero total gap
            // leaves the cached pair unchanged. Strict timestamp order makes
            // this branch unreachable.
            return ;
        }
        let shifted = big_shl_64(&num);
        let twap = big_div_u64(&shifted, div);
        proof {
            lemma_weighted_sum_nonneg(s);
        }
        let bytes = big_to_bytes_be(&twap);
        let digest = sha256_digest(bytes.as_slice());
        let signature = sign_digest(&self.secp, digest.as_slice(), &secret_key);
        self.twap = Some(twap);
        self.signature = Some(signature);
    }
}

/// Overwriting the observation whose timestamp the new one shares updates
/// the represented mapping exactly at that key.
proof fn lemma_stored_replace(s: Seq<SpotEntryEvent>, i: int, e: SpotEntryEvent)
    requires
        sorted_by_ts(s),
        0 <= i < s.len(),
        s[i].timestamp == e.timestamp,
    ensures
        sorted_by_ts(s.update(i, e)),
        stored_map(s.update(i, e)) == stored_map(s).insert(e.timestamp, e),
{
    let s2 = s.update(i, e);
    let m2 = stored_map(s2);
    let m1 = stored_map(s).insert(e.timestamp, e);
    assert(sorted_by_ts(s2));
    assert forall|t: u64| m2.contains_key(t) <==> m1.contains_key(t) by {
        lemma_stored_map_contains(s2, t);
        lemma_stored_map_contains(s, t);
        if t == e.timestamp {
            assert(s2[i].timestamp == t);
        } else {
            if exists|k: int| 0 <= k < s2.len() && s2[k].timestamp == t {
                let k = choose|k: int| 0 <= k < s2.len() && s2[k].timestamp == t;
                assert(s[k].timestamp == t);
            }
            if exists|k: int| 0 <= k < s.len() && s[k].timestamp == t {
                let k = choose|k: int| 0 <= k < s.len() && s[k].timestamp == t;
                assert(k != i);
                assert(s2[k].timestamp == t);
            }
        }
    }
    assert forall|t: u64| #[trigger] m2.contains_key(t) implies m2[t] == m1[t] by {
        lemma_stored_map_contains(s2, t);
        let k = choose|k: int| 0 <= k < s2.len() && s2[k].timestamp == t;
        lemma_stored_map_index(s2, k);
        if t == e.timestamp {
            lemma_sorted_unique(s2, k, i);
            assert(m2[t] == e);
        } else {
            assert(k != i);
            assert(s[k] == s2[k]);
            lemma_stored_map_index(s, k);
        }
    }
    assert(m2 =~= m1);
}

/// Inserting an observation between its strict neighbours updates the
/// represented mapping exactly at the new key.
proof fn lemma_stored_insert(s: Seq<SpotEntryEvent>, i: int, e: SpotEntryEvent)
    requires
        sorted_by_ts(s),
        0 <= i <= s.len(),
        forall|j: int| 0 <= j < i ==> s[j].timestamp < e.timestamp,
        forall|j: int| i <= j < s.len() ==> s[j].timestamp > e.timestamp,
    ensures
        sorted_by_ts(s.insert(i, e)),
        stored_map(s.insert(i, e)) == stored_map(s).insert(e.timestamp, e),
{
    let s2 = s.insert(i, e);
    let m2 = stored_map(s2);
    let m1 = stored_map(s).insert(e.timestamp, e);
    s.insert_ensures(i, e);
    assert(sorted_by_ts(s2)) by {
        assert forall|a: int, b: int| 0 <= a < b < s2.len() implies s2[a].timestamp
            < s2[b].timestamp by {
            if a < i && b < i {
                assert(s2[a] == s[a] && s2[b] == s[b]);
            } else if a < i && b == i {
                assert(s2[a] == s[a]);
            } else if a < i && b > i {
                assert(s2[a] == s[a] && s2[b] == s[b - 1]);
                assert(s[a].timestamp < e.timestamp);
                assert(s[b - 1].timestamp > e.timestamp);
            } else if a == i && b > i {
                assert(s2[b] == s[b - 1]);
            } else {
                assert(s2[a] == s[a - 1] && s2[b] == s[b - 1]);
            }
        }
    }
    assert forall|t: u64| m2.contains_key(t) <==> m1.contains_key(t) by {
        lemma_stored_map_contains(s2, t);
        lemma_stored_map_contains(s, t);
        if t == e.timestamp {
            assert(s2[i].timestamp == t);
        } else {
            if exists|k: int| 0 <= k < s2.len() && s2[k].timestamp == t {
                let k = choose|k: int| 0 <= k < s2.len() && s2[k].timestamp == t;
                assert(k != i);
                if k < i {
                    assert(s[k].timestamp == t);
                } else {
                    assert(s[k - 1].timestamp == t);
                }
            }
            if exists|k: int| 0 <= k < s.len() && s[k].timestamp == t {
                let k = choose|k: int| 0 <= k < s.len() && s[k].timestamp == t;
                if k < i {
                    assert(s2[k].timestamp == t);
                } else {
                    assert(s2[k + 1].timestamp == t);
                }
            }
        }
    }
    assert forall|t: u64| #[trigger] m2.contains_key(t) implies m2[t] == m1[t] by {
        lemma_stored_map_contains(s2, t);
        let k = choose|k: int| 0 <= k < s2.len() && s2[k].timestamp == t;
        lemma_stored_map_index(s2, k);
        if t == e.timestamp {
            lemma_sorted_unique(s2, k, i);
            assert(m2[t] == e);
        } else {
            assert(k != i);
            if k < i {
                assert(s2[k] == s[k]);
                lemma_stored_map_index(s, k);
            } else {
                assert(s2[k] == s[k - 1]);
                lemma_stored_map_index(s, k - 1);
            }
        }
    }
    assert(m2 =~= m1);
}

/// Law: inserting two observations that share a timestamp leaves exactly
/// one stored observation under that timestamp, the second one; composed
/// with `append`'s contract this covers two same-timestamp appends.
pub proof fn lemma_same_timestamp_overwrites(
    m: Map<u64, SpotEntryEvent>,
    e1: SpotEntryEvent,
    e2: SpotEntryEvent,
)
    requires
        e1.timestamp == e2.timestamp,
    ensures
        m.insert(e1.timestamp, e1).insert(e2.timestamp, e2) == m.insert(e2.timestamp, e2),
        m.insert(e1.timestamp, e1).insert(e2.timestamp, e2)[e2.timestamp] == e2,
{
    assert(m.insert(e1.timestamp, e1).insert(e2.timestamp, e2) =~= m.insert(e2.timestamp, e2));
}

/// Dropping the prefix at or before the cutoff removes exactly the keys at
/// or before it and moves no surviving entry.
proof fn lemma_stored_evict(s: Seq<SpotEntryEvent>, k: int, cutoff: u64)
    requires
        sorted_by_ts(s),
        0 <= k <= s.len(),
        forall|j: int| 0 <= j < k ==> s[j].timestamp <= cutoff,
        forall|j: int| k <= j < s.len() ==> s[j].timestamp > cutoff,
    ensures
        sorted_by_ts(s.skip(k)),
        forall|t: u64| stored_map(s.skip(k)).contains_key(t) <==> (
            stored_map(s).contains_key(t) && t > cutoff),
        forall|t: u64| #[trigger] stored_map(s.skip(k)).contains_key(t)
            ==> stored_map(s.skip(k))[t] == stored_map(s)[t],
{
    let s2 = s.skip(k);
    assert(sorted_by_ts(s2)) by {
        assert(forall|a: int| 0 <= a < s2.len() ==> s2[a] == s[a + k]);
    }
    assert forall|t: u64| stored_map(s2).contains_key(t) <==> (stored_map(s).contains_key(t)
        && t > cutoff) by {
        lemma_stored_map_contains(s2, t);
        lemma_stored_map_contains(s, t);
        if exists|j: int| 0 <= j < s2.len() && s2[j].timestamp == t {
            let j = choose|j: int| 0 <= j < s2.len() && s2[j].timestamp == t;
            assert(s[j + k].timestamp == t);
            assert(t > cutoff);
        }
        if exists|j: int| 0 <= j < s.len() && s[j].timestamp == t {
            let j = choose|j: int| 0 <= j < s.len() && s[j].timestamp == t;
            if t > cutoff {
                assert(j >= k);
                assert(s2[j - k].timestamp == t);
            }
        }
    }
    assert forall|t: u64| #[trigger] stored_map(s2).contains_key(t) implies stored_map(s2)[t]
        == stored_map(s)[t] by {
        lemma_stored_map_contains(s2, t);
        let j = choose|j: int| 0 <= j < s2.len() && s2[j].timestamp == t;
        lemma_stored_map_index(s2, j);
        assert(s2[j] == s[j + k]);
        lemma_stored_map_index(s, j + k);
    }
}

} // verus!
