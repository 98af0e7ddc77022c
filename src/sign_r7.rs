//! Sign round seven: check that the shares `S_i = R * sigma_i` sum to the
//! public key, attribute faults, and compute this party's signature summand
//! `s_i = m * k_i + r * sigma_i` with `r` the x-coordinate of `R` mod `q`.
//! Scalars are 32-byte big-endian values below `q`; points are SEC1 encoded.
use vstd::prelude::*;
use crate::mul_group::be_value;
use k256::elliptic_curve::ops::Reduce;
use k256::elliptic_curve::sec1::{FromEncodedPoint, ToEncodedPoint};
use k256::elliptic_curve::PrimeField;
use k256::{AffinePoint, EncodedPoint, FieldBytes, ProjectivePoint, Scalar, U256};

verus! {

/// The order of the secp256k1 group.
pub open spec fn q() -> nat {
    115792089237316195423570985008687907852837564279074904382605163141518161494337nat
}

/// A canonical scalar: 32 bytes whose value is below `q`.
pub open spec fn is_scalar(s: Seq<u8>) -> bool {
    s.len() == 32 && be_value(s) < q()
}

/// Whether the bytes are the SEC1 encoding of a secp256k1 point.
pub uninterp spec fn point_decodes(p: Seq<u8>) -> bool;

/// The compressed SEC1 encoding of the sum of two points.
pub uninterp spec fn point_add(a: Seq<u8>, b: Seq<u8>) -> Seq<u8>;

/// Relies on k256's `Scalar::from_repr`: it accepts exactly the values below `q`.
#[verifier::external_body]
pub(crate) fn scalar_is_canonical(a: &[u8; 32]) -> (r: bool)
    ensures
        r == is_scalar(a@),
{
    bool::from(Scalar::from_repr(FieldBytes::from(*a)).is_some())
}

/// Relies on k256's `Scalar::from_repr`, `*` and `to_bytes`: the product mod `q`.
#[verifier::external_body]
fn scalar_mul(a: &[u8; 32], b: &[u8; 32]) -> (r: [u8; 32])
    requires
        is_scalar(a@),
        is_scalar(b@),
    ensures
        be_value(r@) == (be_value(a@) * be_value(b@)) % q(),
{
    let x = Scalar::from_repr(FieldBytes::from(*a)).unwrap();
    let y = Scalar::from_repr(FieldBytes::from(*b)).unwrap();
    (x * y).to_bytes().into()
}

/// Relies on k256's `Scalar::from_repr`, `+` and `to_bytes`: the sum mod `q`.
#[verifier::external_body]
fn scalar_add(a: &[u8; 32], b: &[u8; 32]) -> (r: [u8; 32])
    requires
        is_scalar(a@),
        is_scalar(b@),
    ensures
        be_value(r@) == (be_value(a@) + be_value(b@)) % q(),
{
    let x = Scalar::from_repr(FieldBytes::from(*a)).unwrap();
    let y = Scalar::from_repr(FieldBytes::from(*b)).unwrap();
    (x + y).to_bytes().into()
}

/// Relies on k256's `Reduce::<U256>::reduce_bytes` for `Scalar`: the value mod `q`.
#[verifier::external_body]
fn scalar_reduce(a: &[u8; 32]) -> (r: [u8; 32])
    ensures
        be_value(r@) == be_value(a@) % q(),
{
    <Scalar as Reduce<U256>>::reduce_bytes(&FieldBytes::from(*a)).to_bytes().into()
}

/// Relies on k256's `AffinePoint::from_encoded_point`: whether the bytes decode.
#[verifier::external_body]
fn point_is_valid(p: &[u8]) -> (r: bool)
    ensures
        r == point_decodes(p@),
{
    match EncodedPoint::from_bytes(p) {
        Ok(e) => bool::from(AffinePoint::from_encoded_point(&e).is_some()),
        Err(_) => false,
    }
}

/// Relies on k256's `ProjectivePoint` addition, encoded compressed.
#[verifier::external_body]
fn point_sum(a: &[u8], b: &[u8]) -> (r: Vec<u8>)
    requires
        point_decodes(a@),
        point_decodes(b@),
    ensures
        r@ == point_add(a@, b@),
        point_decodes(r@),
{
    let x = AffinePoint::from_encoded_point(&EncodedPoint::from_bytes(a).unwrap()).unwrap();
    let y = AffinePoint::from_encoded_point(&EncodedPoint::from_bytes(b).unwrap()).unwrap();
    let s = ProjectivePoint::from(x) + ProjectivePoint::from(y);
    s.to_affine().to_encoded_point(true).as_bytes().to_vec()
}

/// The round-six broadcast of a signer: its share `S_i` of the public key.
#[derive(Clone, Debug, PartialEq, Eq)]
pub struct R6Bcast {
    pub ecdsa_public_key_check: Vec<u8>,
}

/// The round-seven broadcast: this party's signature summand.
#[derive(Clone, Copy, Debug, PartialEq, Eq)]
pub struct Bcast {
    pub ecdsa_sig_summand: [u8; 32],
}

/// What round seven keeps for round eight.
#[derive(Clone, Copy, Debug, PartialEq, Eq)]
pub struct State {
    pub r: [u8; 32],
    pub my_ecdsa_sig_summand: [u8; 32],
}

/// How round seven ends.
#[derive(Clone, Debug, PartialEq, Eq)]
pub enum R7Outcome {
    /// The signers at fault, in increasing order.
    Faulters(Vec<usize>),
    /// The shares do not sum to the public key: blame is settled by the type-7 round.
    TypeSeven,
    /// This party's state and broadcast.
    Proceed(State, Bcast),
}

/// Whether signer `j` is at fault: its share does not decode, or (for a
/// peer) its proof failed.
pub open spec fn is_faulter(ok: Seq<bool>, checks: Seq<Seq<u8>>, me: nat, j: nat) -> bool {
    !point_decodes(checks[j as int]) || (j != me && !ok[j as int])
}

/// The signers below `end` that are at fault, in increasing order.
pub open spec fn faulters_below(ok: Seq<bool>, checks: Seq<Seq<u8>>, me: nat, end: nat) -> Seq<usize>
    decreases end,
{
    if end == 0 {
        Seq::empty()
    } else {
        let j = (end - 1) as nat;
        let prev = faulters_below(ok, checks, me, j);
        if is_faulter(ok, checks, me, j) {
            prev.push(j as usize)
        } else {
            prev
        }
    }
}

proof fn lemma_no_faulters(ok: Seq<bool>, checks: Seq<Seq<u8>>, me: nat, end: nat)
    requires
        faulters_below(ok, checks, me, end).len() == 0,
    ensures
        forall|j: nat| j < end ==> !is_faulter(ok, checks, me, j),
    decreases end,
{
    if end > 0 {
        let j = (end - 1) as nat;
        if is_faulter(ok, checks, me, j) {
            assert(faulters_below(ok, checks, me, end).len() > 0);
        }
        lemma_no_faulters(ok, checks, me, j);
    }
}

/// The faulter list names exactly the signers at fault, each once, in
/// increasing order, whatever the other signers did.
pub proof fn lemma_faulters_exact(ok: Seq<bool>, checks: Seq<Seq<u8>>, me: nat, end: nat)
    requires
        end <= usize::MAX + 1,
    ensures
        forall|j: nat| j < end ==> (faulters_below(ok, checks, me, end).contains(j as usize)
            <==> is_faulter(ok, checks, me, j)),
        forall|k: int| 0 <= k < faulters_below(ok, checks, me, end).len() ==> (
            faulters_below(ok, checks, me, end)[k] as nat) < end,
        forall|a: int, b: int| 0 <= a < b < faulters_below(ok, checks, me, end).len() ==>
            faulters_below(ok, checks, me, end)[a] < faulters_below(ok, checks, me, end)[b],
    decreases end,
{
    if end > 0 {
        let j = (end - 1) as nat;
        lemma_faulters_exact(ok, checks, me, j);
        let prev = faulters_below(ok, checks, me, j);
        let cur = faulters_below(ok, checks, me, end);
        assert forall|i: nat| i < end implies (cur.contains(i as usize) <==> is_faulter(
            ok,
            checks,
            me,
            i,
        )) by {
            if is_faulter(ok, checks, me, j) {
                assert(cur == prev.push(j as usize));
                if i < j {
                    if cur.contains(i as usize) {
                        let k = choose|k: int| 0 <= k < cur.len() && cur[k] == i as usize;
                        if k == prev.len() {
                            assert(cur[k] == j as usize);
                        } else {
                            assert(prev[k] == i as usize);
                        }
                    }
                    if prev.contains(i as usize) {
                        let k = choose|k: int| 0 <= k < prev.len() && prev[k] == i as usize;
                        assert(cur[k] == i as usize);
                    }
                } else {
                    assert(cur[prev.len() as int] == j as usize);
                }
            } else {
                if i == j && cur.contains(i as usize) {
                    let k = choose|k: int| 0 <= k < prev.len() && prev[k] == i as usize;
                }
            }
        }
    }
}

/// `S_me`, then each other share below `end` added in order.
pub open spec fn key_check_sum(checks: Seq<Seq<u8>>, me: nat, end: nat) -> Seq<u8>
    decreases end,
{
    if end == 0 {
        checks[me as int]
    } else {
        let j = (end - 1) as nat;
        let prev = key_check_sum(checks, me, j);
        if j != me {
            point_add(prev, checks[j as int])
        } else {
            prev
        }
    }
}

/// `r`: the x-coordinate of the compressed randomizer, mod `q`.
pub open spec fn randomizer_r(randomizer: Seq<u8>) -> nat {
    be_value(randomizer.subrange(1, 33)) % q()
}

/// `s_i = m * k_i + r * sigma_i mod q`, with `m` the digest mod `q`.
pub open spec fn sig_summand(digest: Seq<u8>, k: Seq<u8>, r: nat, sigma: Seq<u8>) -> nat {
    ((be_value(digest) % q()) * be_value(k) % q() + r * be_value(sigma) % q()) % q()
}

/// What round seven yields, as a value of the model.
pub open spec fn r7_result(
    me: nat,
    ok: Seq<bool>,
    checks: Seq<Seq<u8>>,
    public_key: Seq<u8>,
    randomizer: Seq<u8>,
    digest: Seq<u8>,
    k: Seq<u8>,
    sigma: Seq<u8>,
) -> Option<Option<(nat, nat)>> {
    if faulters_below(ok, checks, me, checks.len()).len() > 0 {
        None
    } else if key_check_sum(checks, me, checks.len()) != public_key {
        Some(None)
    } else {
        let r = randomizer_r(randomizer);
        Some(Some((r, sig_summand(digest, k, r, sigma))))
    }
}

fn same_bytes(a: &Vec<u8>, b: &Vec<u8>) -> (r: bool)
    ensures
        r == (a@ == b@),
{
    if a.len() != b.len() {
        return false;
    }
    let mut i: usize = 0;
    while i < a.len()
        invariant
            i <= a@.len(),
            a@.len() == b@.len(),
            forall|j: int| 0 <= j < i ==> a@[j] == b@[j],
        decreases a@.len() - i,
    {
        if a[i] != b[i] {
            return false;
        }
        i = i + 1;
    }
    assert(a@ =~= b@);
    true
}

/// Round seven for signer `me`. `r6bcasts[j]` is signer `j`'s share of the
/// public key (`me`'s own included) and `wc_proof_ok[j]` says whether its
/// Pedersen proof with check verified (`me`'s entry is not read). A signer
/// whose share does not decode, or a peer whose proof failed, is a faulter.
pub fn r7(
    me: usize,
    r6bcasts: &Vec<R6Bcast>,
    wc_proof_ok: &Vec<bool>,
    ecdsa_public_key: &Vec<u8>,
    ecdsa_randomizer: &Vec<u8>,
    msg_to_sign: &[u8; 32],
    my_ecdsa_nonce_summand: &[u8; 32],
    my_nonce_x_keyshare_summand: &[u8; 32],
) -> (out: R7Outcome)
    requires
        me < r6bcasts@.len(),
        wc_proof_ok@.len() == r6bcasts@.len(),
        ecdsa_randomizer@.len() == 33,
        is_scalar(my_ecdsa_nonce_summand@),
        is_scalar(my_nonce_x_keyshare_summand@),
    ensures
        ({
            let checks = r6bcasts@.map_values(|b: R6Bcast| b.ecdsa_public_key_check@);
            let res = r7_result(me as nat, wc_proof_ok@, checks, ecdsa_public_key@,
                ecdsa_randomizer@, msg_to_sign@, my_ecdsa_nonce_summand@,
                my_nonce_x_keyshare_summand@);
            match out {
                R7Outcome::Faulters(f) => res is None && f@ == faulters_below(
                    wc_proof_ok@, checks, me as nat, checks.len()),
                R7Outcome::TypeSeven => res == Some(None::<(nat, nat)>),
                R7Outcome::Proceed(state, bcast) => res == Some(Some((be_value(state.r@),
                    be_value(state.my_ecdsa_sig_summand@))))
                    && bcast.ecdsa_sig_summand == state.my_ecdsa_sig_summand
                    && is_scalar(state.r@),
            }
        }),
{
    let ghost checks = r6bcasts@.map_values(|b: R6Bcast| b.ecdsa_public_key_check@);
    let n = r6bcasts.len();
    let mut faulters: Vec<usize> = Vec::new();
    let mut i: usize = 0;
    while i < n
        invariant
            n == r6bcasts@.len(),
            wc_proof_ok@.len() == n,
            checks == r6bcasts@.map_values(|b: R6Bcast| b.ecdsa_public_key_check@),
            i <= n,
            faulters@ == faulters_below(wc_proof_ok@, checks, me as nat, i as nat),
        decreases n - i,
    {
        let valid = point_is_valid(r6bcasts[i].ecdsa_public_key_check.as_slice());
        if !valid || (i != me && !wc_proof_ok[i]) {
            faulters.push(i);
        }
        i = i + 1;
    }
    if faulters.len() > 0 {
        return R7Outcome::Faulters(faulters);
    }
    proof {
        lemma_no_faulters(wc_proof_ok@, checks, me as nat, n as nat);
        assert(!is_faulter(wc_proof_ok@, checks, me as nat, me as nat));
    }
    let mut sum: Vec<u8> = r6bcasts[me].ecdsa_public_key_check.clone();
    i = 0;
    while i < n
        invariant
            n == r6bcasts@.len(),
            me < n,
            wc_proof_ok@.len() == n,
            checks == r6bcasts@.map_values(|b: R6Bcast| b.ecdsa_public_key_check@),
            forall|j: nat| j < n ==> !is_faulter(wc_proof_ok@, checks, me as nat, j),
            i <= n,
            sum@ == key_check_sum(checks, me as nat, i as nat),
            point_decodes(sum@),
        decreases n - i,
    {
        if i != me {
            assert(!is_faulter(wc_proof_ok@, checks, me as nat, i as nat));
            sum = point_sum(sum.as_slice(), r6bcasts[i].ecdsa_public_key_check.as_slice());
        }
        i = i + 1;
    }
    if !same_bytes(&sum, ecdsa_public_key) {
        return R7Outcome::TypeSeven;
    }
    let mut x = [0u8; 32];
    let mut t: usize = 0;
    while t < 32
        invariant
            t <= 32,
            ecdsa_randomizer@.len() == 33,
            forall|j: int| 0 <= j < t ==> x@[j] == ecdsa_randomizer@[j + 1],
        decreases 32 - t,
    {
        x.set(t, ecdsa_randomizer[t + 1]);
        t = t + 1;
    }
    assert(x@ =~= ecdsa_randomizer@.subrange(1, 33));
    let r = scalar_reduce(&x);
    let m = scalar_reduce(msg_to_sign);
    proof {
        assert(is_scalar(r@) && is_scalar(m@));
    }
    let mk = scalar_mul(&m, my_ecdsa_nonce_summand);
    let rs = scalar_mul(&r, my_nonce_x_keyshare_summand);
    proof {
        assert(is_scalar(mk@) && is_scalar(rs@));
    }
    let s = scalar_add(&mk, &rs);
    R7Outcome::Proceed(
        State { r, my_ecdsa_sig_summand: s },
        Bcast { ecdsa_sig_summand: s },
    )
}

} // verus!
