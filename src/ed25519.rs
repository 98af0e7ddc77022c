//! A single-party Ed25519 signer whose key is derived deterministically from
//! a secret recovery key and a session nonce, and whose signatures travel
//! DER-framed.
use vstd::prelude::*;
use crate::api::{TofnFatal, TofnResult};
use crate::der_sig::{Asn1Signature, asn1_signature_der, parse_asn1_signature, lemma_der_round_trip};
use ed25519_dalek::{Signer, SigningKey, Signature, VerifyingKey};
use hmac::{Hmac, Mac};
use rand_chacha::ChaCha20Rng;
use rand_chacha::rand_core::{RngCore, SeedableRng};
use sha2::Sha256;

verus! {

/// Domain separation for seeding the RNG: the Ed25519 protocol.
pub const ED25519_TAG: u8 = 0x01;

/// Domain separation for seeding the RNG: key generation.
pub const KEYGEN_TAG: u8 = 0x00;

/// A 64-byte secret from which session keys are derived.
#[derive(Clone, Copy, Debug)]
pub struct SecretRecoveryKey(pub [u8; 64]);

/// Byte `i` of the recovery key made from `index`: its eight big-endian
/// bytes, then zeros.
pub open spec fn dummy_key_byte(index: u64, i: int) -> u8 {
    if i < 8 {
        ((index >> (56 - 8 * i) as u64) & 0xffu64) as u8
    } else {
        0u8
    }
}

/// A recovery key for tests: `index` in big-endian bytes, padded with zeros.
pub fn dummy_secret_recovery_key(index: usize) -> (r: SecretRecoveryKey)
    ensures
        forall|i: int| 0 <= i < 64 ==> r.0@[i] == dummy_key_byte(index as u64, i),
{
    let v: u64 = index as u64;
    let mut result = [0u8; 64];
    let mut i: usize = 0;
    while i < 8
        invariant
            i <= 8,
            result@.len() == 64,
            forall|j: int| 0 <= j < i ==> result@[j] == dummy_key_byte(v, j),
            forall|j: int| i <= j < 64 ==> result@[j] == 0u8,
        decreases 8 - i,
    {
        let shift: u64 = (56 - 8 * i) as u64;
        result.set(i, ((v >> shift) & 0xffu64) as u8);
        i = i + 1;
    }
    SecretRecoveryKey(result)
}

/// A 32-byte message digest.
#[derive(Clone, Copy, Debug, PartialEq, Eq)]
pub struct MessageDigest(pub [u8; 32]);

impl MessageDigest {
    pub open spec fn view(&self) -> Seq<u8> {
        self.0@
    }

    pub fn as_bytes(&self) -> (r: &[u8])
        ensures
            r@ == self.view(),
    {
        self.0.as_slice()
    }
}

impl From<[u8; 32]> for MessageDigest {
    fn from(bytes: [u8; 32]) -> (r: MessageDigest)
        ensures
            r.0 == bytes,
    {
        MessageDigest(bytes)
    }
}

impl vstd::std_specs::convert::FromSpecImpl<[u8; 32]> for MessageDigest {
    open spec fn obeys_from_spec() -> bool {
        true
    }

    open spec fn from_spec(v: [u8; 32]) -> MessageDigest {
        MessageDigest(v)
    }
}

/// An Ed25519 key pair, held as its 32-byte secret key.
#[derive(Clone, Debug)]
pub struct KeyPair {
    secret: [u8; 32],
}

/// HMAC-SHA256 of `data` under `key`.
pub uninterp spec fn hmac_sha256(key: Seq<u8>, data: Seq<u8>) -> Seq<u8>;

/// The first 32 bytes of the ChaCha20 generator seeded with `seed`.
pub uninterp spec fn chacha20_first_32(seed: Seq<u8>) -> Seq<u8>;

/// The encoded Ed25519 verifying key of a secret key.
pub uninterp spec fn ed25519_verifying_key(secret: Seq<u8>) -> Seq<u8>;

/// The Ed25519 signature of `msg` under a secret key.
pub uninterp spec fn ed25519_signature(secret: Seq<u8>, msg: Seq<u8>) -> Seq<u8>;

/// Whether 32 bytes decompress to a curve point.
pub uninterp spec fn ed25519_key_decodes(vk: Seq<u8>) -> bool;

/// Whether strict Ed25519 verification accepts `sig` on `msg` under `vk`.
pub uninterp spec fn ed25519_verify_strict(vk: Seq<u8>, msg: Seq<u8>, sig: Seq<u8>) -> bool;

/// Relies on hmac's `Hmac<Sha256>`: `new`, `update` and `finalize` give the MAC of `data`.
#[verifier::external_body]
fn hmac_sha256_of(key: &[u8; 64], data: &[u8]) -> (r: [u8; 32])
    ensures
        r@ == hmac_sha256(key@, data@),
{
    let mut prf = <Hmac<Sha256> as Mac>::new(key.into());
    prf.update(data);
    prf.finalize().into_bytes().into()
}

/// Relies on rand_chacha's `ChaCha20Rng::from_seed` and `fill_bytes`: the
/// stream depends on the seed alone.
#[verifier::external_body]
fn chacha20_first_32_of(seed: &[u8; 32]) -> (r: [u8; 32])
    ensures
        r@ == chacha20_first_32(seed@),
{
    let mut rng = ChaCha20Rng::from_seed(*seed);
    let mut out = [0u8; 32];
    rng.fill_bytes(&mut out);
    out
}

/// Relies on ed25519_dalek's `SigningKey::verifying_key`.
#[verifier::external_body]
fn verifying_key_of(secret: &[u8; 32]) -> (r: [u8; 32])
    ensures
        r@ == ed25519_verifying_key(secret@),
{
    SigningKey::from_bytes(secret).verifying_key().to_bytes()
}

/// Relies on ed25519_dalek's `Signer::sign` for `SigningKey`, which cannot fail.
#[verifier::external_body]
fn signature_of(secret: &[u8; 32], msg: &[u8]) -> (r: [u8; 64])
    ensures
        r@ == ed25519_signature(secret@, msg@),
{
    SigningKey::from_bytes(secret).sign(msg).to_bytes()
}

/// Relies on ed25519_dalek's `VerifyingKey::from_bytes`: whether the bytes decompress.
#[verifier::external_body]
fn key_decodes(vk: &[u8; 32]) -> (r: bool)
    ensures
        r == ed25519_key_decodes(vk@),
{
    VerifyingKey::from_bytes(vk).is_ok()
}

/// Relies on ed25519_dalek's `VerifyingKey::verify_strict` on a key that decodes.
#[verifier::external_body]
fn verify_strict_of(vk: &[u8; 32], msg: &[u8], sig: &[u8; 64]) -> (r: bool)
    requires
        ed25519_key_decodes(vk@),
    ensures
        r == ed25519_verify_strict(vk@, msg@, sig@),
{
    match VerifyingKey::from_bytes(vk) {
        Ok(key) => key.verify_strict(msg, &Signature::from_bytes(sig)).is_ok(),
        Err(_) => false,
    }
}

/// The content octets of the Ed25519 object identifier 1.3.101.112.
pub open spec fn ed25519_oid() -> Seq<u8> {
    seq![0x2bu8, 0x65u8, 0x70u8]
}

fn ed25519_oid_vec() -> (r: Vec<u8>)
    ensures
        r@ == ed25519_oid(),
{
    let r: Vec<u8> = vec![0x2bu8, 0x65u8, 0x70u8];
    assert(r@ =~= ed25519_oid());
    r
}

/// What the RNG is seeded with: HMAC under the recovery key of the two tags and the nonce.
pub open spec fn keygen_seed(srk: Seq<u8>, nonce: Seq<u8>) -> Seq<u8> {
    hmac_sha256(srk, seq![ED25519_TAG, KEYGEN_TAG] + nonce)
}

/// The raw 64-byte signature inside a DER encoding, where it is an Ed25519 one.
pub open spec fn ed25519_raw_signature(b: Seq<u8>) -> Option<Seq<u8>> {
    match parse_asn1_signature(b) {
        Some((oid, sig)) => if oid == ed25519_oid() && sig.len() == 64 {
            Some(sig)
        } else {
            None
        },
        None => None,
    }
}

/// The bytes that `sign` returns for a secret key and a digest.
pub open spec fn ed25519_der_signature(secret: Seq<u8>, digest: Seq<u8>) -> Seq<u8> {
    asn1_signature_der(ed25519_oid(), ed25519_signature(secret, digest))
}

impl KeyPair {
    /// The 32-byte secret key.
    pub closed spec fn view(&self) -> Seq<u8> {
        self.secret@
    }

    /// The encoded verifying key.
    pub fn encoded_verifying_key(&self) -> (r: [u8; 32])
        ensures
            r@ == ed25519_verifying_key(self.view()),
    {
        verifying_key_of(&self.secret)
    }

    /// The encoded signing (secret) key.
    pub fn encoded_signing_key(&self) -> (r: [u8; 32])
        ensures
            r@ == self.view(),
    {
        self.secret
    }
}

/// Derives the key pair for a session: the secret key is the first 32 bytes
/// of a ChaCha20 stream seeded as `keygen_seed` says.
pub fn keygen(secret_recovery_key: &SecretRecoveryKey, session_nonce: &[u8]) -> (r: TofnResult<KeyPair>)
    ensures
        r matches Ok(kp) && kp.view() == chacha20_first_32(
            keygen_seed(secret_recovery_key.0@, session_nonce@),
        ),
{
    let mut data: Vec<u8> = Vec::new();
    data.push(ED25519_TAG);
    data.push(KEYGEN_TAG);
    let mut i: usize = 0;
    while i < session_nonce.len()
        invariant
            i <= session_nonce@.len(),
            data@ == seq![ED25519_TAG, KEYGEN_TAG] + session_nonce@.subrange(0, i as int),
        decreases session_nonce@.len() - i,
    {
        data.push(session_nonce[i]);
        i = i + 1;
        assert(data@ =~= seq![ED25519_TAG, KEYGEN_TAG] + session_nonce@.subrange(0, i as int));
    }
    assert(session_nonce@.subrange(0, session_nonce@.len() as int) =~= session_nonce@);
    let seed = hmac_sha256_of(&secret_recovery_key.0, data.as_slice());
    let secret = chacha20_first_32_of(&seed);
    Ok(KeyPair { secret })
}

/// Signs a digest and returns the DER-encoded signature.
pub fn sign(signing_key: &KeyPair, message_digest: &MessageDigest) -> (r: TofnResult<Vec<u8>>)
    ensures
        r matches Ok(v) && v@ == ed25519_der_signature(signing_key.view(), message_digest.view()),
{
    let raw = signature_of(&signing_key.secret, message_digest.as_bytes());
    let sig = Asn1Signature { signature_algorithm: ed25519_oid_vec(), signature: raw_vec(&raw) };
    Ok(sig.to_der())
}

fn raw_vec(raw: &[u8; 64]) -> (r: Vec<u8>)
    ensures
        r@ == raw@,
{
    let mut r: Vec<u8> = Vec::new();
    let mut i: usize = 0;
    while i < 64
        invariant
            i <= 64,
            r@ == raw@.subrange(0, i as int),
        decreases 64 - i,
    {
        r.push(raw[i]);
        i = i + 1;
        assert(r@ =~= raw@.subrange(0, i as int));
    }
    assert(raw@.subrange(0, 64) =~= raw@);
    r
}

fn raw_array(v: &Vec<u8>) -> (r: [u8; 64])
    requires
        v@.len() == 64,
    ensures
        r@ == v@,
{
    let mut r = [0u8; 64];
    let mut i: usize = 0;
    while i < 64
        invariant
            i <= 64,
            v@.len() == 64,
            r@.len() == 64,
            forall|j: int| 0 <= j < i ==> r@[j] == v@[j],
        decreases 64 - i,
    {
        r.set(i, v[i]);
        i = i + 1;
    }
    assert(r@ =~= v@);
    r
}

/// Verifies a DER-encoded signature on a digest. Fails where the verifying
/// key does not decode or the bytes are not a DER Ed25519 signature;
/// otherwise says whether strict verification accepts.
pub fn verify(
    encoded_verifying_key: &[u8; 32],
    message_digest: &MessageDigest,
    encoded_signature: &[u8],
) -> (r: TofnResult<bool>)
    ensures
        r is Ok <==> ed25519_key_decodes(encoded_verifying_key@) && ed25519_raw_signature(
            encoded_signature@,
        ) is Some,
        r matches Ok(ok) ==> ok == ed25519_verify_strict(
            encoded_verifying_key@,
            message_digest.view(),
            ed25519_raw_signature(encoded_signature@)->0,
        ),
{
    if !key_decodes(encoded_verifying_key) {
        return Err(TofnFatal);
    }
    let asn = match Asn1Signature::from_der(encoded_signature) {
        Some(a) => a,
        None => return Err(TofnFatal),
    };
    let oid = ed25519_oid_vec();
    if asn.signature_algorithm.len() != 3 || asn.signature_algorithm[0] != oid[0]
        || asn.signature_algorithm[1] != oid[1] || asn.signature_algorithm[2] != oid[2] {
        assert(asn.signature_algorithm@ != ed25519_oid());
        return Err(TofnFatal);
    }
    assert(asn.signature_algorithm@ =~= ed25519_oid());
    if asn.signature.len() != 64 {
        return Err(TofnFatal);
    }
    let sig = raw_array(&asn.signature);
    Ok(verify_strict_of(encoded_verifying_key, message_digest.as_bytes(), &sig))
}

/// Key generation depends on its inputs alone: equal recovery keys and
/// nonces give the same secret key, and so the same signature on any digest.
pub proof fn lemma_keygen_deterministic(
    srk1: Seq<u8>,
    nonce1: Seq<u8>,
    srk2: Seq<u8>,
    nonce2: Seq<u8>,
    digest: Seq<u8>,
)
    requires
        srk1 == srk2,
        nonce1 == nonce2,
    ensures
        chacha20_first_32(keygen_seed(srk1, nonce1)) == chacha20_first_32(keygen_seed(srk2, nonce2)),
        ed25519_der_signature(chacha20_first_32(keygen_seed(srk1, nonce1)), digest)
            == ed25519_der_signature(chacha20_first_32(keygen_seed(srk2, nonce2)), digest),
{
}

/// Changing any of the twelve framing bytes in front of the raw signature
/// leaves no Ed25519 signature to verify, so `verify` fails.
pub proof fn lemma_framing_tamper_rejected(sig: Seq<u8>, i: int, x: u8)
    requires
        sig.len() == 64,
        0 <= i < 12,
        x != asn1_signature_der(ed25519_oid(), sig)[i],
    ensures
        ed25519_raw_signature(asn1_signature_der(ed25519_oid(), sig).update(i, x)) is None,
{
    let d = asn1_signature_der(ed25519_oid(), sig);
    let b = d.update(i, x);
    assert(d[0] == 0x30 && d[1] == 74 && d[2] == 0x30 && d[3] == 5 && d[4] == 6 && d[5] == 3);
    assert(d[6] == 0x2b && d[7] == 0x65 && d[8] == 0x70 && d[9] == 3 && d[10] == 65 && d[11] == 0);
    assert(b.len() == 76);
    if parse_asn1_signature(b) is Some {
        let (oid, s) = parse_asn1_signature(b)->0;
        if oid == ed25519_oid() && s.len() == 64 {
            assert(b[3] == 5);
            assert(oid.len() == 3);
            assert(oid[0] == b[6] && oid[1] == b[7] && oid[2] == b[8]);
            assert(b[9] == 3);
            assert(false);
        }
    }
}

/// What `sign` returns decodes to the raw signature it framed.
pub proof fn lemma_sign_decodes(secret: Seq<u8>, digest: Seq<u8>)
    requires
        ed25519_signature(secret, digest).len() == 64,
    ensures
        ed25519_raw_signature(ed25519_der_signature(secret, digest)) == Some(
            ed25519_signature(secret, digest),
        ),
{
    lemma_der_round_trip(ed25519_oid(), ed25519_signature(secret, digest));
}

} // verus!
