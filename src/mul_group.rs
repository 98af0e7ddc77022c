//! Membership in the multiplicative group `Z*_n`, on big-endian unsigned
//! integers.
use vstd::prelude::*;
use libpaillier::unknown_order::BigNumber;

verus! {

/// The value of a big-endian unsigned integer.
pub open spec fn be_value(s: Seq<u8>) -> nat
    decreases s.len(),
{
    if s.len() == 0 {
        0
    } else {
        be_value(s.drop_last()) * 256 + s.last() as nat
    }
}

/// The greatest common divisor, with `gcd(a, 0) == a`.
pub open spec fn gcd(a: nat, b: nat) -> nat
    decreases b,
{
    if b == 0 {
        a
    } else {
        gcd(b, a % b)
    }
}

/// Whether `x` lies in `Z*_n`: `1 <= x < n` and `x` is coprime to `n`.
pub open spec fn in_mul_group(x: nat, n: nat) -> bool {
    1 <= x < n && gcd(x, n) == 1
}

/// Relies on libpaillier's `BigNumber` ordering (`from_slice` reads big-endian bytes).
#[verifier::external_body]
fn bn_less(a: &[u8], b: &[u8]) -> (r: bool)
    ensures
        r == (be_value(a@) < be_value(b@)),
{
    BigNumber::from_slice(a) < BigNumber::from_slice(b)
}

/// Relies on libpaillier's `BigNumber::gcd`; `to_bytes` writes big-endian bytes.
#[verifier::external_body]
fn bn_gcd(a: &[u8], b: &[u8]) -> (r: Vec<u8>)
    ensures
        be_value(r@) == gcd(be_value(a@), be_value(b@)),
{
    BigNumber::from_slice(a).gcd(&BigNumber::from_slice(b)).to_bytes()
}

/// Relies on libpaillier's `BigNumber::is_one`.
#[verifier::external_body]
fn bn_is_one(a: &[u8]) -> (r: bool)
    ensures
        r == (be_value(a@) == 1),
{
    BigNumber::from_slice(a).is_one()
}

/// Checks whether `x` is a member of the multiplicative group `Z*_n`, both
/// given as big-endian unsigned integers.
pub fn member_of_mul_group(x: &[u8], n: &[u8]) -> (r: bool)
    ensures
        r == in_mul_group(be_value(x@), be_value(n@)),
{
    let one: [u8; 1] = [1u8];
    proof {
        assert(one@.drop_last() =~= Seq::<u8>::empty());
        assert(be_value(one@) == 1) by {
            reveal_with_fuel(be_value, 2);
        }
    }
    if bn_less(x, one.as_slice()) || !bn_less(x, n) {
        return false;
    }
    let g = bn_gcd(x, n);
    if !bn_is_one(g.as_slice()) {
        return false;
    }
    true
}

} // verus!
