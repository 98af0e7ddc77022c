use k256::elliptic_curve::ops::Reduce;
use k256::elliptic_curve::sec1::ToEncodedPoint;
use k256::{ProjectivePoint, Scalar, U256};
use tofn::sign_r7::{r7, R6Bcast, R7Outcome};

fn scalar(v: u64) -> Scalar {
    Scalar::from(v)
}

fn enc(p: ProjectivePoint) -> Vec<u8> {
    p.to_affine().to_encoded_point(true).as_bytes().to_vec()
}

fn bytes(s: &Scalar) -> [u8; 32] {
    s.to_bytes().into()
}

struct Setup {
    r6: Vec<R6Bcast>,
    y: Vec<u8>,
    randomizer: Vec<u8>,
    sigmas: Vec<Scalar>,
    k: Scalar,
}

fn setup() -> Setup {
    let g = ProjectivePoint::GENERATOR;
    let big_r = g * scalar(11);
    let sigmas = vec![scalar(5), scalar(7), scalar(13)];
    let r6 = sigmas
        .iter()
        .map(|s| R6Bcast { ecdsa_public_key_check: enc(big_r * s) })
        .collect();
    let y = enc(big_r * (sigmas[0] + sigmas[1] + sigmas[2]));
    Setup { r6, y, randomizer: enc(big_r), sigmas, k: scalar(3) }
}

#[test]
fn r7_computes_signature_summand() {
    let s = setup();
    let msg = [42u8; 32];
    let out = r7(
        1,
        &s.r6,
        &vec![true, true, true],
        &s.y,
        &s.randomizer,
        &msg,
        &bytes(&s.k),
        &bytes(&s.sigmas[1]),
    );
    let x: [u8; 32] = s.randomizer[1..33].try_into().unwrap();
    let r = <Scalar as Reduce<U256>>::reduce_bytes(&x.into());
    let m = <Scalar as Reduce<U256>>::reduce_bytes(&msg.into());
    let expected = m * s.k + r * s.sigmas[1];
    match out {
        R7Outcome::Proceed(state, bcast) => {
            assert_eq!(state.r, bytes(&r));
            assert_eq!(state.my_ecdsa_sig_summand, bytes(&expected));
            assert_eq!(bcast.ecdsa_sig_summand, bytes(&expected));
        }
        other => panic!("unexpected outcome {:?}", other),
    }
}

#[test]
fn r7_names_proof_faulters() {
    let s = setup();
    let out = r7(
        0,
        &s.r6,
        &vec![false, false, true],
        &s.y,
        &s.randomizer,
        &[1u8; 32],
        &bytes(&s.k),
        &bytes(&s.sigmas[0]),
    );
    // our own entry is never read
    assert_eq!(out, R7Outcome::Faulters(vec![1]));
}

#[test]
fn r7_enters_type_seven_on_wrong_sum() {
    let mut s = setup();
    s.r6[2].ecdsa_public_key_check = enc(ProjectivePoint::GENERATOR);
    let out = r7(
        0,
        &s.r6,
        &vec![true, true, true],
        &s.y,
        &s.randomizer,
        &[1u8; 32],
        &bytes(&s.k),
        &bytes(&s.sigmas[0]),
    );
    assert_eq!(out, R7Outcome::TypeSeven);
}
