//! DER framing of a signature: `SEQUENCE { AlgorithmIdentifier, BIT STRING }`,
//! with an algorithm identifier that holds an object identifier and no
//! parameters, a bit string with no unused bits, and short-form lengths.
use vstd::prelude::*;

verus! {

/// A signature together with the algorithm it was made with.
#[derive(Clone, Debug, PartialEq, Eq)]
pub struct Asn1Signature {
    /// The content octets of the algorithm's object identifier.
    pub signature_algorithm: Vec<u8>,
    /// The signature bits, a whole number of bytes.
    pub signature: Vec<u8>,
}

/// A tag, a short-form length and the content.
pub open spec fn tlv(tag: u8, content: Seq<u8>) -> Seq<u8> {
    seq![tag, content.len() as u8] + content
}

/// The DER encoding of a signature with algorithm `oid` and bits `sig`.
pub open spec fn asn1_signature_der(oid: Seq<u8>, sig: Seq<u8>) -> Seq<u8> {
    tlv(0x30, tlv(0x30, tlv(0x06, oid)) + tlv(0x03, seq![0u8] + sig))
}

/// Every length fits the short form.
pub open spec fn short_form(oid: Seq<u8>, sig: Seq<u8>) -> bool {
    oid.len() + sig.len() + 7 < 128
}

/// What a byte string decodes to: the object identifier and the signature bits.
pub open spec fn parse_asn1_signature(b: Seq<u8>) -> Option<(Seq<u8>, Seq<u8>)> {
    if b.len() >= 9 && b.len() < 130 && b[0] == 0x30 && b[1] as int == b.len() - 2
        && b[2] == 0x30 && b[4] == 0x06 && b[5] as int + 2 == b[3] as int
        && 4 + b[3] + 3 <= b.len() && b[4 + b[3]] == 0x03
        && b[5 + b[3]] as int == b.len() - (6 + b[3]) && b[6 + b[3]] == 0 {
        Some((b.subrange(6, 4 + b[3]), b.subrange(7 + b[3], b.len() as int)))
    } else {
        None
    }
}

/// Decoding an encoding gives back its parts.
pub proof fn lemma_der_round_trip(oid: Seq<u8>, sig: Seq<u8>)
    requires
        short_form(oid, sig),
    ensures
        parse_asn1_signature(asn1_signature_der(oid, sig)) == Some((oid, sig)),
{
    let b = asn1_signature_der(oid, sig);
    assert(b[3] as int == oid.len() + 2);
    assert(b.subrange(6, 4 + b[3]) =~= oid);
    assert(b.subrange(7 + b[3], b.len() as int) =~= sig);
}

/// Only canonical encodings decode: what decodes is the encoding of its parts.
pub proof fn lemma_der_canonical(b: Seq<u8>)
    requires
        parse_asn1_signature(b) is Some,
    ensures
        ({
            let (oid, sig) = parse_asn1_signature(b)->0;
            short_form(oid, sig) && b == asn1_signature_der(oid, sig)
        }),
{
    let (oid, sig) = parse_asn1_signature(b)->0;
    assert(b =~= asn1_signature_der(oid, sig));
}

pub(crate) fn push_all(out: &mut Vec<u8>, b: &[u8])
    ensures
        final(out)@ == old(out)@ + b@,
{
    let mut i: usize = 0;
    while i < b.len()
        invariant
            i <= b@.len(),
            out@ == old(out)@ + b@.subrange(0, i as int),
        decreases b@.len() - i,
    {
        out.push(b[i]);
        i = i + 1;
        assert(out@ =~= old(out)@ + b@.subrange(0, i as int));
    }
    assert(b@.subrange(0, b@.len() as int) =~= b@);
}

fn copy_range(b: &[u8], lo: usize, hi: usize) -> (r: Vec<u8>)
    requires
        lo <= hi <= b@.len(),
    ensures
        r@ == b@.subrange(lo as int, hi as int),
{
    let mut r: Vec<u8> = Vec::new();
    let mut i: usize = lo;
    while i < hi
        invariant
            lo <= i <= hi,
            hi <= b@.len(),
            r@ == b@.subrange(lo as int, i as int),
        decreases hi - i,
    {
        r.push(b[i]);
        i = i + 1;
        assert(r@ =~= b@.subrange(lo as int, i as int));
    }
    r
}

impl Asn1Signature {
    /// The DER encoding.
    pub fn to_der(&self) -> (r: Vec<u8>)
        requires
            short_form(self.signature_algorithm@, self.signature@),
        ensures
            r@ == asn1_signature_der(self.signature_algorithm@, self.signature@),
    {
        let oid_len = self.signature_algorithm.len() as u8;
        let sig_len = self.signature.len() as u8;
        let mut r: Vec<u8> = Vec::new();
        r.push(0x30u8);
        r.push(oid_len + sig_len + 7);
        r.push(0x30u8);
        r.push(oid_len + 2);
        r.push(0x06u8);
        r.push(oid_len);
        push_all(&mut r, self.signature_algorithm.as_slice());
        r.push(0x03u8);
        r.push(sig_len + 1);
        r.push(0u8);
        push_all(&mut r, self.signature.as_slice());
        assert(r@ =~= asn1_signature_der(self.signature_algorithm@, self.signature@));
        r
    }

    /// Decodes a DER encoding; `None` where `b` is not one.
    pub fn from_der(b: &[u8]) -> (r: Option<Asn1Signature>)
        ensures
            match parse_asn1_signature(b@) {
                Some((oid, sig)) => r matches Some(s) && s.signature_algorithm@ == oid
                    && s.signature@ == sig,
                None => r is None,
            },
    {
        let n = b.len();
        if n < 9 || n >= 130 || b[0] != 0x30u8 || b[1] as usize != n - 2 || b[2] != 0x30u8
            || b[4] != 0x06u8 {
            return None;
        }
        let a = b[3] as usize;
        if b[5] as usize + 2 != a || 4 + a + 3 > n || b[4 + a] != 0x03u8 || b[5 + a] as usize
            != n - (6 + a) || b[6 + a] != 0u8 {
            return None;
        }
        let oid = copy_range(b, 6, 4 + a);
        let sig = copy_range(b, 7 + a, n);
        Some(Asn1Signature { signature_algorithm: oid, signature: sig })
    }
}

} // verus!
