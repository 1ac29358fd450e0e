//! Ledger events and their conversion into price observations.
//!
//! An event's payload is an ordered list of 256-bit ledger words. The
//! observation fields are extracted from fixed positions in that list: the
//! timestamp from position 0, the price from position 3 and the pair
//! identifier from position 4. A word that does not fit the target width
//! makes the whole event malformed, and malformed events are dropped rather
//! than reported.

use vstd::prelude::*;
use vstd::arithmetic::div_mod::lemma_fundamental_div_mod;

verus! {

/// One 256-bit word of a ledger event's payload, as the pair of its
/// high and low 128-bit halves.
#[derive(Clone, Copy, PartialEq, Eq, Structural, Debug)]
pub struct FieldElement {
    pub hi: u128,
    pub lo: u128,
}

/// The integer carried by a big-endian byte string:
/// each byte is one base-256 digit.
pub open spec fn be_val(s: Seq<u8>) -> nat
    decreases s.len(),
{
    if s.len() == 0 {
        0
    } else {
        (be_val(s.drop_last()) * 256 + s.last()) as nat
    }
}

/// 256 raised to the given power: the number of byte strings of that length.
pub open spec fn pow256(n: nat) -> nat
    decreases n,
{
    if n == 0 {
        1
    } else {
        256 * pow256((n - 1) as nat)
    }
}

proof fn lemma_pow256_mono(a: nat, b: nat)
    requires
        a <= b,
    ensures
        pow256(a) <= pow256(b),
    decreases b - a,
{
    if a < b {
        lemma_pow256_mono(a, (b - 1) as nat);
        assert(pow256(b) == 256 * pow256((b - 1) as nat));
    }
}

proof fn lemma_pow256_30_value()
    ensures
        pow256(30) == 0x1_0000_0000_0000_0000_0000_0000_0000_0000_0000_0000_0000_0000_0000_0000_0000,
{
    reveal_with_fuel(pow256, 31);
}

impl FieldElement {
    /// The integer this word carries.
    pub open spec fn value(self) -> nat {
        (self.hi * 0x1_0000_0000_0000_0000_0000_0000_0000_0000 + self.lo) as nat
    }

    /// Reads a word from up to 31 big-endian bytes; that length bound keeps
    /// the value inside the 252-bit ledger field, so no modular reduction
    /// takes place and the value is exactly the big-endian integer.
    pub fn from_be_bytes(bytes: &[u8]) -> (r: FieldElement)
        requires
            bytes@.len() <= 31,
        ensures
            r.value() == be_val(bytes@),
    {
        let n = bytes.len();
        let mut hi: u128 = 0;
        let mut lo: u128 = 0;
        let mut i: usize = 0;
        proof {
            assert(bytes@.take(0) =~= Seq::<u8>::empty());
        }
        while i < n
            invariant
                i <= n == bytes@.len() <= 31,
                hi * 0x1_0000_0000_0000_0000_0000_0000_0000_0000 + lo == be_val(bytes@.take(i as int)),
                hi * 0x1_0000_0000_0000_0000_0000_0000_0000_0000 + lo < pow256(i as nat),
            decreases n - i,
        {
            let b = bytes[i];
            let ghost v: nat = be_val(bytes@.take(i as int));
            proof {
                lemma_pow256_mono(i as nat, 30);
                lemma_pow256_30_value();
                assert(hi < 0x1_0000_0000_0000_0000_0000_0000_0000);
                lemma_fundamental_div_mod(lo as int, 0x1_0000_0000_0000_0000_0000_0000_0000_00 as int);
            }
            let carry: u128 = lo / 0x1_0000_0000_0000_0000_0000_0000_0000_00u128;
            let rem: u128 = lo % 0x1_0000_0000_0000_0000_0000_0000_0000_00u128;
            proof {
                assert((hi * 256 + carry) * 0x1_0000_0000_0000_0000_0000_0000_0000_0000 + (rem * 256 + b)
                    == (hi * 0x1_0000_0000_0000_0000_0000_0000_0000_0000 + lo) * 256 + b)
                    by (nonlinear_arith)
                    requires
                        lo == 0x1_0000_0000_0000_0000_0000_0000_0000_00 * carry + rem;
                assert(bytes@.take(i + 1).drop_last() =~= bytes@.take(i as int));
                assert(bytes@.take(i + 1).last() == bytes@[i as int]);
                assert(v * 256 + b < pow256((i + 1) as nat)) by (nonlinear_arith)
                    requires
                        v < pow256(i as nat),
                        b < 256,
                        pow256((i + 1) as nat) == 256 * pow256(i as nat);
            }
            hi = hi * 256 + carry;
            lo = rem * 256 + (b as u128);
            i = i + 1;
        }
        proof {
            assert(bytes@.take(n as int) =~= bytes@);
        }
        FieldElement { hi, lo }
    }
}

/// Why an event's payload could not be read as an observation.
#[derive(Clone, Copy, PartialEq, Eq, Structural, Debug)]
pub enum DecodeError {
    /// Fewer payload words than the highest field position needs.
    ShortPayload,
    /// The timestamp word does not fit 64 bits.
    TimestampOverflow,
    /// The price word does not fit 128 bits.
    PriceOverflow,
}

/// A price submission for one trading pair, read off a ledger event.
/// Immutable once created.
#[derive(Clone, Copy, PartialEq, Eq, Structural, Debug)]
pub struct SpotEntryEvent {
    /// Submission time, in seconds since the epoch.
    pub timestamp: u64,
    /// Fixed-point price as the ledger reports it.
    pub price: u128,
    /// Identifier of the trading pair the price belongs to.
    pub pair_id: FieldElement,
}

/// What reading an observation out of a payload yields: the exact success
/// and failure conditions of `SpotEntryEvent::try_from`.
pub open spec fn decode_event_spec(data: Seq<FieldElement>) -> Result<SpotEntryEvent, DecodeError> {
    if data.len() < 5 {
        Err(DecodeError::ShortPayload)
    } else if data[0].value() >= 0x1_0000_0000_0000_0000 {
        Err(DecodeError::TimestampOverflow)
    } else if data[3].value() >= 0x1_0000_0000_0000_0000_0000_0000_0000_0000 {
        Err(DecodeError::PriceOverflow)
    } else {
        Ok(SpotEntryEvent {
            timestamp: data[0].lo as u64,
            price: data[3].lo,
            pair_id: data[4],
        })
    }
}

impl SpotEntryEvent {
    /// Reads an observation from an event's payload words: timestamp from
    /// position 0, price from position 3, pair identifier from position 4.
    pub fn try_from(data: &[FieldElement]) -> (r: Result<SpotEntryEvent, DecodeError>)
        ensures
            r == decode_event_spec(data@),
    {
        if data.len() < 5 {
            return Err(DecodeError::ShortPayload);
        }
        let f0 = data[0];
        if !(f0.hi == 0 && f0.lo < 0x1_0000_0000_0000_0000u128) {
            proof {
                if f0.hi != 0 {
                    assert(f0.value() >= 0x1_0000_0000_0000_0000_0000_0000_0000_0000)
                        by (nonlinear_arith)
                        requires
                            f0.hi >= 1,
                            f0.value() == f0.hi * 0x1_0000_0000_0000_0000_0000_0000_0000_0000 + f0.lo;
                }
            }
            return Err(DecodeError::TimestampOverflow);
        }
        let f3 = data[3];
        if f3.hi != 0 {
            proof {
                assert(f3.value() >= 0x1_0000_0000_0000_0000_0000_0000_0000_0000)
                    by (nonlinear_arith)
                    requires
                        f3.hi >= 1,
                        f3.value() == f3.hi * 0x1_0000_0000_0000_0000_0000_0000_0000_0000 + f3.lo;
            }
            return Err(DecodeError::PriceOverflow);
        }
        Ok(SpotEntryEvent { timestamp: f0.lo as u64, price: f3.lo, pair_id: data[4] })
    }
}

/// The observations a batch of raw payloads yields: each payload decoded,
/// malformed ones dropped, and only the tracked pair kept, in order.
pub open spec fn decode_batch_spec(raw: Seq<Seq<FieldElement>>, pair: FieldElement) -> Seq<SpotEntryEvent>
    decreases raw.len(),
{
    if raw.len() == 0 {
        Seq::empty()
    } else {
        let rest = decode_batch_spec(raw.drop_last(), pair);
        match decode_event_spec(raw.last()) {
            Ok(e) => if e.pair_id == pair {
                rest.push(e)
            } else {
                rest
            },
            Err(_) => rest,
        }
    }
}

/// Converts a batch of raw event payloads into the observations for the
/// tracked pair, silently dropping malformed events.
pub fn decode_batch(raw: &Vec<Vec<FieldElement>>, pair: FieldElement) -> (out: Vec<SpotEntryEvent>)
    ensures
        out@ == decode_batch_spec(raw@.map_values(|v: Vec<FieldElement>| v@), pair),
{
    let ghost mapped = raw@.map_values(|v: Vec<FieldElement>| v@);
    let mut out: Vec<SpotEntryEvent> = Vec::new();
    let n = raw.len();
    proof {
        assert(mapped.take(0) =~= Seq::<Seq<FieldElement>>::empty());
    }
    let mut i: usize = 0;
    while i < n
        invariant
            i <= n == raw@.len(),
            mapped == raw@.map_values(|v: Vec<FieldElement>| v@),
            out@ == decode_batch_spec(mapped.take(i as int), pair),
        decreases n - i,
    {
        proof {
            assert(mapped.take(i + 1).drop_last() =~= mapped.take(i as int));
            assert(mapped.take(i + 1).last() == raw@[i as int]@);
        }
        match SpotEntryEvent::try_from(raw[i].as_slice()) {
            Ok(e) => {
                if e.pair_id == pair {
                    out.push(e);
                }
            },
            Err(_) => {},
        }
        i = i + 1;
    }
    proof {
        assert(mapped.take(n as int) =~= mapped);
    }
    out
}

} // verus!
