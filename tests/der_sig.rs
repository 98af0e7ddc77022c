use der::Encode;
use tofn::der_sig::Asn1Signature;

#[test]
fn der_round_trip() {
    let s = Asn1Signature {
        signature_algorithm: vec![0x2b, 0x65, 0x70],
        signature: vec![5; 64],
    };
    let der = s.to_der();
    assert_eq!(der.len(), 76);
    assert_eq!(Asn1Signature::from_der(&der), Some(s));
}

#[test]
fn der_matches_pkcs8_algorithm_identifier() {
    let alg = ed25519::pkcs8::ALGORITHM_ID.to_der().unwrap();
    let s = Asn1Signature {
        signature_algorithm: vec![0x2b, 0x65, 0x70],
        signature: vec![1; 64],
    };
    let der = s.to_der();
    assert_eq!(&der[2..2 + alg.len()], &alg[..]);
}

#[test]
fn der_rejects_noncanonical() {
    let s = Asn1Signature {
        signature_algorithm: vec![1, 2],
        signature: vec![3; 4],
    };
    let mut der = s.to_der();
    assert_eq!(der, vec![0x30, 0x0d, 0x30, 0x04, 0x06, 0x02, 1, 2, 0x03, 0x05, 0x00, 3, 3, 3, 3]);
    assert_eq!(Asn1Signature::from_der(&der), Some(s));
    der[10] = 1; // unused bits
    assert_eq!(Asn1Signature::from_der(&der), None);
    der[10] = 0;
    der.push(0); // trailing byte
    assert_eq!(Asn1Signature::from_der(&der), None);
    assert_eq!(Asn1Signature::from_der(&[]), None);
}
