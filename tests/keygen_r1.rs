use sha2::Digest;
use tofn::keygen_r1::{
    corrupt_commit, corrupt_ek_proof, corrupt_zkp_proof, start, Behaviour, EncryptionKeyProof,
    Output, ZkSetupProof, Y_I_COMMIT_TAG,
};

#[test]
fn bad_commit_corrupts_only_the_commit() {
    let c = Output([0xff; 32]);
    let r = corrupt_commit(1, &Behaviour::R1BadCommit, c);
    assert_eq!(r.0[0], 0);
    assert_eq!(&r.0[1..], &c.0[1..]);
    assert_eq!(corrupt_commit(1, &Behaviour::Honest, c), c);
    assert_eq!(corrupt_commit(1, &Behaviour::R1BadEncryptionKeyProof, c), c);
}

#[test]
fn bad_ek_proof_corrupts_only_the_ek_proof() {
    let p = EncryptionKeyProof { bytes: vec![1, 2, 3] };
    let r = corrupt_ek_proof(2, &Behaviour::R1BadEncryptionKeyProof, p.clone());
    assert_eq!(r.bytes, vec![2, 2, 3]);
    assert_eq!(corrupt_ek_proof(2, &Behaviour::R1BadCommit, p.clone()), p);
    let e = corrupt_ek_proof(2, &Behaviour::R1BadEncryptionKeyProof, EncryptionKeyProof { bytes: vec![] });
    assert_eq!(e.bytes, vec![0]);
}

#[test]
fn bad_zkp_proof_corrupts_only_the_zkp_proof() {
    let p = ZkSetupProof { bytes: vec![9, 9] };
    let r = corrupt_zkp_proof(0, &Behaviour::R1BadZkSetupProof, p.clone());
    assert_eq!(r.bytes, vec![10, 9]);
    assert_eq!(corrupt_zkp_proof(0, &Behaviour::R2BadShare { victim: 1 }, p.clone()), p);
}

fn commit_of(id: usize, u: &[u8; 32], reveal: &[u8; 32]) -> [u8; 32] {

    let s = <k256::Scalar as k256::elliptic_curve::PrimeField>::from_repr((*u).into()).unwrap();
    let y = (k256::ProjectivePoint::GENERATOR * s).to_affine();
    let enc = k256::elliptic_curve::sec1::ToEncodedPoint::to_encoded_point(&y, true);
    let mut h = sha2::Sha256::new();
    h.update([Y_I_COMMIT_TAG]);
    h.update((id as u64).to_be_bytes());
    h.update(enc.as_bytes());
    h.update(reveal);
    h.finalize().into()
}

#[test]
fn start_commits_to_y_i() {
    let u = [3u8; 32];
    let reveal = [9u8; 32];
    let b = start(
        2,
        &Behaviour::Honest,
        &u,
        &reveal,
        vec![1, 2],
        EncryptionKeyProof { bytes: vec![5] },
        vec![3],
        ZkSetupProof { bytes: vec![6] },
    )
    .unwrap();
    assert_eq!(b.y_i_commit.0, commit_of(2, &u, &reveal));
    assert_eq!(b.ek, vec![1, 2]);
    assert_eq!(b.ek_proof.bytes, vec![5]);
    assert_eq!(b.zkp, vec![3]);
    assert_eq!(b.zkp_proof.bytes, vec![6]);
}

#[test]
fn start_with_bad_commit_changes_only_the_commit() {
    let u = [3u8; 32];
    let reveal = [9u8; 32];
    let b = start(
        1,
        &Behaviour::R1BadCommit,
        &u,
        &reveal,
        vec![1],
        EncryptionKeyProof { bytes: vec![5] },
        vec![3],
        ZkSetupProof { bytes: vec![6] },
    )
    .unwrap();
    let honest = commit_of(1, &u, &reveal);
    assert_ne!(b.y_i_commit.0, honest);
    assert_eq!(b.y_i_commit.0[0], honest[0].wrapping_add(1));
    assert_eq!(b.ek_proof.bytes, vec![5]);
}

#[test]
fn start_rejects_non_canonical_secret() {
    let b = start(
        0,
        &Behaviour::Honest,
        &[0xff; 32],
        &[0; 32],
        vec![],
        EncryptionKeyProof { bytes: vec![] },
        vec![],
        ZkSetupProof { bytes: vec![] },
    );
    assert!(b.is_none());
}
