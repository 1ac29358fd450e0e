//! Arbitrary-precision unsigned arithmetic for the aggregation step.
//!
//! The weighted sum of prices can exceed 256 bits of headroom only in
//! degenerate inputs, but the aggregate is specified over unbounded
//! integers, so the computation runs on `num_bigint::BigUint`. Every
//! operation the aggregation needs is wrapped here with a contract over
//! `big_val`, the natural number a `BigUint` holds.

use vstd::prelude::*;

verus! {

#[verifier::external_type_specification]
#[verifier::external_body]
pub struct ExBigUint(num_bigint::BigUint);

/// The natural number a `BigUint` holds (its base-2^64 digit vector, read as
/// one unbounded integer).
pub uninterp spec fn big_val(b: num_bigint::BigUint) -> nat;

/// The big-endian digits of `n`, most significant first, with no leading
/// zero digit.
pub open spec fn be_digits(n: nat) -> Seq<u8>
    decreases n,
{
    if n == 0 {
        Seq::empty()
    } else {
        be_digits(n / 256).push((n % 256) as u8)
    }
}

/// The canonical big-endian byte serialization of `n`: its digits, except
/// that zero is one zero byte rather than the empty string.
pub open spec fn be_bytes_of(n: nat) -> Seq<u8> {
    if n == 0 {
        seq![0u8]
    } else {
        be_digits(n)
    }
}

/// Relies on `BigUint: From<u64>`: the new value is the given integer.
#[verifier::external_body]
pub fn big_from_u64(v: u64) -> (r: num_bigint::BigUint)
    ensures
        big_val(r) == v,
{
    num_bigint::BigUint::from(v)
}

/// Relies on `Mul for BigUint` (and `BigUint: From<u128> + From<u64>`):
/// the result is the full-width product of the two factors.
#[verifier::external_body]
pub fn big_mul_u128_u64(a: u128, b: u64) -> (r: num_bigint::BigUint)
    ensures
        big_val(r) == a * b,
{
    num_bigint::BigUint::from(a) * num_bigint::BigUint::from(b)
}

/// Relies on `Add<&BigUint> for &BigUint`: the result is the sum.
#[verifier::external_body]
pub fn big_add(a: &num_bigint::BigUint, b: &num_bigint::BigUint) -> (r: num_bigint::BigUint)
    ensures
        big_val(r) == big_val(*a) + big_val(*b),
{
    a + b
}

/// Relies on `Shl<u32> for &BigUint`: shifting left by 64 multiplies the
/// value by 2^64.
#[verifier::external_body]
pub fn big_shl_64(a: &num_bigint::BigUint) -> (r: num_bigint::BigUint)
    ensures
        big_val(r) == big_val(*a) * 0x1_0000_0000_0000_0000,
{
    a << 64u32
}

/// Relies on `Div<u64> for &BigUint`: truncating division by a non-zero
/// scalar (division by zero panics, so zero is excluded here).
#[verifier::external_body]
pub fn big_div_u64(a: &num_bigint::BigUint, d: u64) -> (r: num_bigint::BigUint)
    requires
        d != 0,
    ensures
        big_val(r) == big_val(*a) / (d as nat),
{
    a / d
}

/// Relies on `BigUint::to_bytes_be`: the value in big-endian byte order,
/// without leading zero bytes, and one zero byte for the value zero.
#[verifier::external_body]
pub fn big_to_bytes_be(a: &num_bigint::BigUint) -> (r: Vec<u8>)
    ensures
        r@ == be_bytes_of(big_val(*a)),
{
    a.to_bytes_be()
}

} // verus!
