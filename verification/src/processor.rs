//! One processing cycle: apply a batch, evict, recompute and re-sign.
//!
//! The surrounding loop computes the cutoff (now minus one hour), blocks on
//! the channel for the next batch, takes the exclusive section of the
//! shared storage and runs `process_batch` inside it; nothing else ever
//! mutates the storage.

use vstd::prelude::*;
use crate::bignum::be_bytes_of;
use crate::events::SpotEntryEvent;
use crate::signing::{ecdsa_signature, ecdsa_verifies, pk_of, sha256_of, sk_bytes};
use crate::storage::{twap_of, SpotEntryStorage};

verus! {

/// How long an observation stays in the window, in seconds.
pub const ONE_HOUR_SECS: u64 = 3600;

/// The mapping after a batch is applied in order: each observation
/// inserted by its timestamp, a later entry with the same timestamp
/// winning.
pub open spec fn apply_batch(
    m: Map<u64, SpotEntryEvent>,
    events: Seq<SpotEntryEvent>,
) -> Map<u64, SpotEntryEvent>
    decreases events.len(),
{
    if events.len() == 0 {
        m
    } else {
        apply_batch(m, events.drop_last()).insert(events.last().timestamp, events.last())
    }
}

/// One processor cycle: insert-or-overwrite every observation of the
/// batch, evict everything at or before the cutoff, then recompute and
/// re-sign the aggregate over the survivors (which leaves the cached pair
/// untouched when fewer than two survive).
pub fn process_batch(
    storage: &mut SpotEntryStorage,
    events: &Vec<SpotEntryEvent>,
    cutoff: u64,
    secret_key: secp256k1::SecretKey,
)
    requires
        old(storage).wf(),
    ensures
        final(storage).wf(),
        forall|t: u64| final(storage).entries().contains_key(t) <==> (
            apply_batch(old(storage).entries(), events@).contains_key(t) && t > cutoff),
        forall|t: u64| #[trigger] final(storage).entries().contains_key(t)
            ==> final(storage).entries()[t] == apply_batch(old(storage).entries(), events@)[t],
        final(storage).obs_seq().len() < 2 ==> final(storage).twap_val() == old(
            storage,
        ).twap_val() && final(storage).sig_val() == old(storage).sig_val(),
        final(storage).obs_seq().len() >= 2 ==> {
            &&& final(storage).twap_val() == Some(twap_of(final(storage).obs_seq()) as nat)
            &&& final(storage).sig_val() == Some(
                ecdsa_signature(
                    sha256_of(be_bytes_of(twap_of(final(storage).obs_seq()) as nat)),
                    sk_bytes(secret_key),
                ),
            )
            &&& ecdsa_verifies(
                sha256_of(be_bytes_of(twap_of(final(storage).obs_seq()) as nat)),
                final(storage).sig_val().unwrap(),
                pk_of(sk_bytes(secret_key)),
            )
        },
{
    let ghost entries0 = storage.entries();
    let ghost twap0 = storage.twap_val();
    let ghost sig0 = storage.sig_val();
    let n = events.len();
    let mut i: usize = 0;
    proof {
        assert(events@.take(0) =~= Seq::<SpotEntryEvent>::empty());
    }
    while i < n
        invariant
            i <= n == events@.len(),
            storage.wf(),
            storage.entries() == apply_batch(entries0, events@.take(i as int)),
            storage.twap_val() == twap0,
            storage.sig_val() == sig0,
        decreases n - i,
    {
        let e = events[i];
        storage.append(e);
        proof {
            assert(events@.take(i + 1).drop_last() =~= events@.take(i as int));
            assert(events@.take(i + 1).last() == events@[i as int]);
        }
        i = i + 1;
    }
    proof {
        assert(events@.take(n as int) =~= events@);
    }
    storage.clean_older_than(cutoff);
    storage.calculate_and_sign_twap(secret_key);
}

} // verus!
