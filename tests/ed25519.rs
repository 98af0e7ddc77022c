use ed25519_dalek::{Signer, SigningKey};
use tofn::ed25519::{
    dummy_secret_recovery_key, keygen, sign, verify, MessageDigest, SecretRecoveryKey,
};

#[test]
fn keygen_sign_decode_verify() {
    let message_digest: MessageDigest = [42; 32].into();

    let key_pair = keygen(&dummy_secret_recovery_key(42), b"tofn nonce").unwrap();
    let mut encoded_signature = sign(&key_pair, &message_digest).unwrap();

    // Correct signature should verify
    let success = verify(
        &key_pair.encoded_verifying_key(),
        &message_digest,
        &encoded_signature,
    )
    .unwrap();

    assert!(success);

    // Tamper with the signature, it should no longer verify.
    *encoded_signature.last_mut().unwrap() += 1;

    let success = verify(
        &key_pair.encoded_verifying_key(),
        &message_digest,
        &encoded_signature,
    )
    .unwrap();

    assert!(!success);
}

#[test]
fn keygen_sign_known_vectors() {
    let cases: Vec<(SecretRecoveryKey, Vec<u8>, [u8; 32])> = vec![
        (SecretRecoveryKey([0; 64]), vec![0; 4], [42; 32]),
        (SecretRecoveryKey([0xff; 64]), vec![0xff; 32], [0xff; 32]),
    ];
    let mut outputs: Vec<Vec<String>> = Vec::new();
    for (srk, nonce, digest) in cases.iter() {
        let keypair = keygen(srk, nonce).unwrap();
        let again = keygen(srk, nonce).unwrap();
        assert_eq!(keypair.encoded_signing_key(), again.encoded_signing_key());
        let signature = sign(&keypair, &MessageDigest::from(*digest)).unwrap();
        let signature_again = sign(&again, &MessageDigest::from(*digest)).unwrap();
        assert_eq!(signature, signature_again);
        let success = verify(
            &keypair.encoded_verifying_key(),
            &MessageDigest::from(*digest),
            &signature,
        )
        .unwrap();
        assert!(success);
        outputs.push(vec![
            hex::encode(keypair.encoded_signing_key()),
            hex::encode(keypair.encoded_verifying_key()),
            hex::encode(&signature),
        ]);
    }
    assert_ne!(outputs[0], outputs[1]);
}

#[test]
fn dummy_key_holds_index_big_endian() {
    let k = dummy_secret_recovery_key(0x0102);
    assert_eq!(k.0[6], 1);
    assert_eq!(k.0[7], 2);
    assert!(k.0[..6].iter().all(|b| *b == 0));
    assert!(k.0[8..].iter().all(|b| *b == 0));
}

#[test]
fn signature_is_der_framed() {
    let kp = keygen(&SecretRecoveryKey([0; 64]), &[0, 0, 0, 0]).unwrap();
    let sig = sign(&kp, &MessageDigest::from([42; 32])).unwrap();
    assert_eq!(sig.len(), 76);
    assert_eq!(
        &sig[..12],
        &[0x30, 0x4a, 0x30, 0x05, 0x06, 0x03, 0x2b, 0x65, 0x70, 0x03, 0x41, 0x00]
    );
}

#[test]
fn der_signature_matches_dalek() {
    let kp = keygen(&SecretRecoveryKey([7; 64]), b"nonce").unwrap();
    let digest = [9u8; 32];
    let sig = sign(&kp, &MessageDigest::from(digest)).unwrap();
    let dalek = SigningKey::from_bytes(&kp.encoded_signing_key());
    assert_eq!(&sig[12..], &dalek.sign(&digest).to_bytes()[..]);
    assert_eq!(kp.encoded_verifying_key(), dalek.verifying_key().to_bytes());
}

#[test]
fn different_nonces_give_different_keys() {
    let srk = SecretRecoveryKey([0; 64]);
    let a = keygen(&srk, &[0, 0, 0, 0]).unwrap();
    let b = keygen(&srk, &[0, 0, 0, 1]).unwrap();
    assert_ne!(a.encoded_signing_key(), b.encoded_signing_key());
    assert_ne!(a.encoded_signing_key(), [0u8; 32]);
}

#[test]
fn tampered_last_byte_flips_verify() {
    let kp = keygen(&SecretRecoveryKey([0; 64]), &[0, 0, 0, 0]).unwrap();
    let d = MessageDigest::from([42; 32]);
    let mut sig = sign(&kp, &d).unwrap();
    assert!(verify(&kp.encoded_verifying_key(), &d, &sig).unwrap());
    let last = sig.len() - 1;
    sig[last] ^= 0x01;
    assert!(!verify(&kp.encoded_verifying_key(), &d, &sig).unwrap());
}

#[test]
fn tampering_any_byte_never_verifies() {
    let kp = keygen(&SecretRecoveryKey([0; 64]), &[0, 0, 0, 0]).unwrap();
    let d = MessageDigest::from([42; 32]);
    let sig = sign(&kp, &d).unwrap();
    for i in 0..sig.len() {
        let mut t = sig.clone();
        t[i] = t[i].wrapping_add(1);
        let r = verify(&kp.encoded_verifying_key(), &d, &t);
        assert!(!matches!(r, Ok(true)));
    }
}

#[test]
fn verify_rejects_malformed_inputs() {
    let kp = keygen(&SecretRecoveryKey([0; 64]), &[0, 0, 0, 0]).unwrap();
    let d = MessageDigest::from([42; 32]);
    let sig = sign(&kp, &d).unwrap();
    // truncated encoding
    assert!(verify(&kp.encoded_verifying_key(), &d, &sig[..75]).is_err());
    // wrong algorithm identifier
    let mut other = sig.clone();
    other[8] = 0x71;
    assert!(verify(&kp.encoded_verifying_key(), &d, &other).is_err());
    // a verifying key that does not decompress
    let mut bad_key = [0u8; 32];
    bad_key[0] = 2;
    bad_key[31] = 0x7f;
    let mut found_bad = false;
    for b in 0..=255u8 {
        bad_key[1] = b;
        if ed25519_dalek::VerifyingKey::from_bytes(&bad_key).is_err() {
            found_bad = true;
            break;
        }
    }
    assert!(found_bad);
    assert!(verify(&bad_key, &d, &sig).is_err());
}
