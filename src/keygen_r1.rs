//! Keygen round one: the broadcast a share sends, and the hooks that let a
//! test party corrupt the fields of that broadcast.
use vstd::prelude::*;
use crate::der_sig::push_all;
use crate::sign_r7::{is_scalar, scalar_is_canonical};
use k256::elliptic_curve::sec1::ToEncodedPoint;
use k256::elliptic_curve::PrimeField;
use k256::{FieldBytes, ProjectivePoint, Scalar};
use sha2::{Digest, Sha256};

verus! {

/// A behaviour injected into a keygen party, for testing fault attribution.
#[derive(Clone, Copy, Debug, PartialEq, Eq, Structural)]
pub enum Behaviour {
    Honest,
    R1BadCommit,
    R1BadEncryptionKeyProof,
    R1BadZkSetupProof,
    R2BadShare { victim: usize },
    R2BadEncryption { victim: usize },
    R3FalseAccusation { victim: usize },
    R3BadXIWitness,
}

/// A 32-byte hash output, such as the commitment to `g * u_i`.
#[derive(Clone, Copy, Debug, PartialEq, Eq)]
pub struct Output(pub [u8; 32]);

/// The encoded proof that a Paillier encryption key is a product of two safe primes.
#[derive(Clone, Debug, PartialEq, Eq)]
pub struct EncryptionKeyProof {
    pub bytes: Vec<u8>,
}

/// The encoded proof that a ZK setup was honestly generated.
#[derive(Clone, Debug, PartialEq, Eq)]
pub struct ZkSetupProof {
    pub bytes: Vec<u8>,
}

/// The bytes of `b` with the first one incremented (wrapping); an empty
/// sequence becomes a single zero byte.
pub open spec fn corrupted(b: Seq<u8>) -> Seq<u8> {
    if b.len() == 0 {
        seq![0u8]
    } else {
        b.update(0, ((b[0] + 1) % 256) as u8)
    }
}

/// Corruption always changes the value.
pub proof fn lemma_corrupted_differs(b: Seq<u8>)
    ensures
        corrupted(b) != b,
{
    if b.len() > 0 {
        assert(corrupted(b)[0] != b[0]);
    } else {
        assert(corrupted(b).len() != b.len());
    }
}

fn corrupt_bytes(b: &mut Vec<u8>)
    ensures
        final(b)@ == corrupted(old(b)@),
{
    if b.len() == 0 {
        b.push(0u8);
        assert(b@ =~= seq![0u8]);
    } else {
        let x = b[0];
        b.set(0, x.wrapping_add(1));
    }
}

impl Output {
    pub open spec fn view(&self) -> Seq<u8> {
        self.0@
    }

    /// Returns the output with its first byte incremented (wrapping).
    pub fn corrupt(self) -> (r: Output)
        ensures
            r.view() == corrupted(self.view()),
    {
        let mut a = self.0;
        let x = a[0];
        a.set(0, x.wrapping_add(1));
        assert(a@ =~= corrupted(self.view()));
        Output(a)
    }
}

/// Corrupts the hash commitment when the party behaves as `R1BadCommit`.
pub fn corrupt_commit(my_keygen_id: usize, behaviour: &Behaviour, commit: Output) -> (r: Output)
    ensures
        *behaviour == Behaviour::R1BadCommit ==> r.view() == corrupted(commit.view()),
        *behaviour != Behaviour::R1BadCommit ==> r == commit,
{
    if let Behaviour::R1BadCommit = behaviour {
        commit.corrupt()
    } else {
        commit
    }
}

/// Corrupts the encryption-key proof when the party behaves as `R1BadEncryptionKeyProof`.
pub fn corrupt_ek_proof(
    my_keygen_id: usize,
    behaviour: &Behaviour,
    ek_proof: EncryptionKeyProof,
) -> (r: EncryptionKeyProof)
    ensures
        *behaviour == Behaviour::R1BadEncryptionKeyProof ==> r.bytes@ == corrupted(ek_proof.bytes@),
        *behaviour != Behaviour::R1BadEncryptionKeyProof ==> r == ek_proof,
{
    if let Behaviour::R1BadEncryptionKeyProof = behaviour {
        let mut p = ek_proof;
        corrupt_bytes(&mut p.bytes);
        p
    } else {
        ek_proof
    }
}

/// Corrupts the ZK-setup proof when the party behaves as `R1BadZkSetupProof`.
pub fn corrupt_zkp_proof(
    my_keygen_id: usize,
    behaviour: &Behaviour,
    zkp_proof: ZkSetupProof,
) -> (r: ZkSetupProof)
    ensures
        *behaviour == Behaviour::R1BadZkSetupProof ==> r.bytes@ == corrupted(zkp_proof.bytes@),
        *behaviour != Behaviour::R1BadZkSetupProof ==> r == zkp_proof,
{
    if let Behaviour::R1BadZkSetupProof = behaviour {
        let mut p = zkp_proof;
        corrupt_bytes(&mut p.bytes);
        p
    } else {
        zkp_proof
    }
}

/// Domain separation tag of the commitment to `g * u_i`.
pub const Y_I_COMMIT_TAG: u8 = 0x00;

/// SHA-256 of the bytes.
pub uninterp spec fn sha256(data: Seq<u8>) -> Seq<u8>;

/// The compressed SEC1 encoding of `g * u` on secp256k1.
pub uninterp spec fn base_mul(u: Seq<u8>) -> Seq<u8>;

/// Relies on sha2's `Sha256::digest`.
#[verifier::external_body]
fn sha256_of(data: &[u8]) -> (r: [u8; 32])
    ensures
        r@ == sha256(data@),
{
    Sha256::digest(data).into()
}

/// Relies on k256's `ProjectivePoint::GENERATOR * Scalar`, encoded compressed.
#[verifier::external_body]
fn base_mul_of(u: &[u8; 32]) -> (r: Vec<u8>)
    requires
        is_scalar(u@),
    ensures
        r@ == base_mul(u@),
{
    let s = Scalar::from_repr(FieldBytes::from(*u)).unwrap();
    (ProjectivePoint::GENERATOR * s).to_affine().to_encoded_point(true).as_bytes().to_vec()
}

/// The eight big-endian bytes of `v`.
pub open spec fn be_u64(v: u64) -> Seq<u8> {
    Seq::new(8, |i: int| ((v >> (56 - 8 * i) as u64) & 0xffu64) as u8)
}

fn push_be_u64(out: &mut Vec<u8>, v: u64)
    ensures
        final(out)@ == old(out)@ + be_u64(v),
{
    let mut i: usize = 0;
    while i < 8
        invariant
            i <= 8,
            out@ == old(out)@ + be_u64(v).subrange(0, i as int),
        decreases 8 - i,
    {
        let shift: u64 = (56 - 8 * i) as u64;
        out.push(((v >> shift) & 0xffu64) as u8);
        i = i + 1;
        assert(out@ =~= old(out)@ + be_u64(v).subrange(0, i as int));
    }
    assert(be_u64(v).subrange(0, 8) =~= be_u64(v));
}

/// What a hash commitment covers: the tag, the share id, the payload and the reveal.
pub open spec fn commit_preimage(tag: u8, id: u64, payload: Seq<u8>, reveal: Seq<u8>) -> Seq<u8> {
    seq![tag] + be_u64(id) + payload + reveal
}

/// The hash commitment to `payload` by share `id` with randomness `reveal`.
pub fn commit_with_randomness(tag: u8, id: usize, payload: &[u8], reveal: &[u8; 32]) -> (r: Output)
    ensures
        r.view() == sha256(commit_preimage(tag, id as u64, payload@, reveal@)),
{
    let mut data: Vec<u8> = Vec::new();
    data.push(tag);
    push_be_u64(&mut data, id as u64);
    push_all(&mut data, payload);
    push_all(&mut data, reveal.as_slice());
    assert(data@ =~= commit_preimage(tag, id as u64, payload@, reveal@));
    Output(sha256_of(data.as_slice()))
}

/// The round-one broadcast of a keygen share.
#[derive(Clone, Debug, PartialEq, Eq)]
pub struct Bcast {
    pub y_i_commit: Output,
    pub ek: Vec<u8>,
    pub ek_proof: EncryptionKeyProof,
    pub zkp: Vec<u8>,
    pub zkp_proof: ZkSetupProof,
}

/// The honest commitment of share `id` to `g * u_i`.
pub open spec fn y_i_commitment(id: u64, u_i: Seq<u8>, reveal: Seq<u8>) -> Seq<u8> {
    sha256(commit_preimage(Y_I_COMMIT_TAG, id, base_mul(u_i), reveal))
}

/// Round one of keygen for share `my_keygen_id`: commit to `g * u_i`, where
/// `u_i` is the secret of the share's VSS polynomial and `y_i_reveal` the
/// commitment randomness, and broadcast the commitment with the Paillier key
/// `ek`, the ZK setup `zkp` and their proofs. A misbehaving party corrupts the
/// field its behaviour names.
pub fn start(
    my_keygen_id: usize,
    behaviour: &Behaviour,
    u_i: &[u8; 32],
    y_i_reveal: &[u8; 32],
    ek: Vec<u8>,
    ek_proof: EncryptionKeyProof,
    zkp: Vec<u8>,
    zkp_proof: ZkSetupProof,
) -> (r: Option<Bcast>)
    ensures
        r is Some <==> is_scalar(u_i@),
        r matches Some(b) ==> {
            &&& b.ek == ek
            &&& b.zkp == zkp
            &&& b.y_i_commit.view() == if *behaviour == Behaviour::R1BadCommit {
                corrupted(y_i_commitment(my_keygen_id as u64, u_i@, y_i_reveal@))
            } else {
                y_i_commitment(my_keygen_id as u64, u_i@, y_i_reveal@)
            }
            &&& b.ek_proof.bytes@ == if *behaviour == Behaviour::R1BadEncryptionKeyProof {
                corrupted(ek_proof.bytes@)
            } else {
                ek_proof.bytes@
            }
            &&& b.zkp_proof.bytes@ == if *behaviour == Behaviour::R1BadZkSetupProof {
                corrupted(zkp_proof.bytes@)
            } else {
                zkp_proof.bytes@
            }
        },
{
    if !scalar_is_canonical(u_i) {
        return None;
    }
    let y_i = base_mul_of(u_i);
    let y_i_commit = commit_with_randomness(Y_I_COMMIT_TAG, my_keygen_id, y_i.as_slice(), y_i_reveal);
    let y_i_commit = corrupt_commit(my_keygen_id, behaviour, y_i_commit);
    let ek_proof = corrupt_ek_proof(my_keygen_id, behaviour, ek_proof);
    let zkp_proof = corrupt_zkp_proof(my_keygen_id, behaviour, zkp_proof);
    Some(Bcast { y_i_commit, ek, ek_proof, zkp, zkp_proof })
}

} // verus!
