use k256::elliptic_curve::sec1::ToEncodedPoint;
use k256::elliptic_curve::PrimeField;
use k256::{ProjectivePoint, Scalar};
use tofn::keygen_r1::{start, Behaviour, EncryptionKeyProof, ZkSetupProof};
use tofn::keygen_r3::verify_y_i_commits;

fn y_of(u: &[u8; 32]) -> Vec<u8> {
    let s = Scalar::from_repr((*u).into()).unwrap();
    (ProjectivePoint::GENERATOR * s)
        .to_affine()
        .to_encoded_point(true)
        .as_bytes()
        .to_vec()
}

fn run(behaviours: &[Behaviour]) -> Vec<usize> {
    let mut commits = Vec::new();
    let mut ys = Vec::new();
    let mut reveals = Vec::new();
    for (i, b) in behaviours.iter().enumerate() {
        let u = [(i as u8) + 1; 32];
        let reveal = [(i as u8) + 100; 32];
        let bcast = start(
            i,
            b,
            &u,
            &reveal,
            vec![i as u8],
            EncryptionKeyProof { bytes: vec![1] },
            vec![2],
            ZkSetupProof { bytes: vec![3] },
        )
        .unwrap();
        commits.push(bcast.y_i_commit);
        ys.push(y_of(&u));
        reveals.push(reveal);
    }
    verify_y_i_commits(&commits, &ys, &reveals)
}

#[test]
fn honest_commits_open() {
    assert!(run(&[Behaviour::Honest; 4]).is_empty());
}

#[test]
fn bad_commit_names_its_share() {
    let mut bs = [Behaviour::Honest; 4];
    bs[1] = Behaviour::R1BadCommit;
    assert_eq!(run(&bs), vec![1]);
}

#[test]
fn other_behaviours_leave_commits_intact() {
    let mut bs = [Behaviour::Honest; 4];
    bs[2] = Behaviour::R1BadEncryptionKeyProof;
    bs[3] = Behaviour::R1BadZkSetupProof;
    assert!(run(&bs).is_empty());
}

#[test]
fn two_bad_commits_are_both_named() {
    let mut bs = [Behaviour::Honest; 4];
    bs[0] = Behaviour::R1BadCommit;
    bs[3] = Behaviour::R1BadCommit;
    assert_eq!(run(&bs), vec![0, 3]);
}
