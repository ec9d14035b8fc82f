//! BGPsec path validation (RFC 8205) against the router keys of RPKI router
//! certificates (RFC 8209).

use vstd::prelude::*;
use std::collections::HashMap;
use ring::signature::{UnparsedPublicKey, ECDSA_P256_SHA256_ASN1};
use x509_cert::der::Decode;
use x509_cert::Certificate;
use crate::bgp::attributes::BgpsecPath;
use crate::text::{dec, push_dec, push_text};
use crate::wire::{be16_at, read_u16};

verus! {

broadcast use vstd::std_specs::hash::group_hash_axioms;

/// Outcome of validating a BGPsec_Path.
#[derive(Debug, Clone, PartialEq)]
pub enum BgpsecVerdict {
    /// Every hop verified.
    Valid,
    /// One hop failed verification.
    Invalid { hop: u8, reason: String },
    /// No router key is loaded for this AS of the path.
    NotFound { missing_asn: u32 },
    /// The attribute is present but names no signing AS.
    Malformed,
    /// No BGPsec_Path attribute.
    Absent,
}

impl BgpsecVerdict {
    /// "valid", "invalid", "not_found", "malformed" or "absent".
    pub fn verdict_str(&self) -> (r: &'static str)
        ensures
            r@ == match self {
                BgpsecVerdict::Valid => "valid"@,
                BgpsecVerdict::Invalid { .. } => "invalid"@,
                BgpsecVerdict::NotFound { .. } => "not_found"@,
                BgpsecVerdict::Malformed => "malformed"@,
                BgpsecVerdict::Absent => "absent"@,
            },
    {
        match self {
            BgpsecVerdict::Valid => "valid",
            BgpsecVerdict::Invalid { .. } => "invalid",
            BgpsecVerdict::NotFound { .. } => "not_found",
            BgpsecVerdict::Malformed => "malformed",
            BgpsecVerdict::Absent => "absent",
        }
    }
}

/// The subject public key bytes of the DER X.509 certificate `der`, or the
/// text of the decoding error, as `x509_cert` reads them.
pub uninterp spec fn x509_public_key(der: Seq<u8>) -> Result<Seq<u8>, Seq<char>>;

/// `x509_cert::Certificate::from_der`, then the raw bytes of the subject
/// public key; on failure the error's text. The contract only names the
/// result.
#[verifier::external_body]
fn certificate_public_key(der: &[u8]) -> (r: Result<Vec<u8>, String>)
    ensures
        match r {
            Ok(k) => x509_public_key(der@) == Ok::<Seq<u8>, Seq<char>>(k@),
            Err(e) => x509_public_key(der@) == Err::<Seq<u8>, Seq<char>>(e@),
        },
{
    match Certificate::from_der(der) {
        Ok(cert) => Ok(cert.tbs_certificate.subject_public_key_info.subject_public_key.raw_bytes().to_vec()),
        Err(e) => Err(e.to_string()),
    }
}

/// Whether `sig` is a valid ECDSA P-256 / SHA-256 (ASN.1) signature of `msg`
/// under the public key `key`, as `ring` decides.
pub uninterp spec fn ecdsa_p256_valid(key: Seq<u8>, msg: Seq<u8>, sig: Seq<u8>) -> bool;

/// `ring::signature::UnparsedPublicKey::verify` with `ECDSA_P256_SHA256_ASN1`.
#[verifier::external_body]
fn ecdsa_p256_verify(key: &[u8], msg: &[u8], sig: &[u8]) -> (r: bool)
    ensures
        r == ecdsa_p256_valid(key@, msg@, sig@),
{
    UnparsedPublicKey::new(&ECDSA_P256_SHA256_ASN1, key).verify(msg, sig).is_ok()
}

/// The message for a raw key of the wrong length.
pub open spec fn raw_key_error(asn: u32, n: nat) -> Seq<char> {
    "raw key for AS"@ + dec(asn as nat) + " must be 65 bytes (uncompressed P-256), got "@ + dec(n)
}

/// The message for a certificate that does not decode.
pub open spec fn cert_parse_error(asn: u32, e: Seq<char>) -> Seq<char> {
    "x509 parse error for AS"@ + dec(asn as nat) + ": "@ + e
}

/// The message for a certificate key of the wrong length.
pub open spec fn cert_key_error(asn: u32, n: nat) -> Seq<char> {
    "AS"@ + dec(asn as nat) + " router cert: expected 65-byte uncompressed P-256 key, got "@ + dec(n)
}

/// The first signing AS without a loaded key, if any.
pub open spec fn first_missing(asns: Seq<u32>, keys: Map<u32, Vec<u8>>) -> Option<u32> {
    if exists|i: int| 0 <= i < asns.len() && !keys.contains_key(#[trigger] asns[i]) {
        Some(
            asns[choose|i: int|
                0 <= i < asns.len() && !keys.contains_key(asns[i]) && forall|j: int|
                    0 <= j < i ==> keys.contains_key(#[trigger] asns[j])],
        )
    } else {
        None
    }
}

proof fn lemma_first_missing(asns: Seq<u32>, keys: Map<u32, Vec<u8>>, i: int)
    requires
        0 <= i < asns.len(),
        !keys.contains_key(asns[i]),
        forall|j: int| 0 <= j < i ==> keys.contains_key(#[trigger] asns[j]),
    ensures
        first_missing(asns, keys) == Some(asns[i]),
{
    assert(0 <= i < asns.len() && !keys.contains_key(asns[i]));
    let c = choose|k: int|
        0 <= k < asns.len() && !keys.contains_key(asns[k]) && forall|j: int|
            0 <= j < k ==> keys.contains_key(#[trigger] asns[j]);
    assert(0 <= c < asns.len() && !keys.contains_key(asns[c]) && forall|j: int|
        0 <= j < c ==> keys.contains_key(#[trigger] asns[j]));
    if c < i {
        assert(keys.contains_key(asns[c]));
    } else if c > i {
        assert(keys.contains_key(asns[i]));
    }
    assert(c == i);
}

/// The verdict of a BGPsec_Path: absent without bytes, malformed without a
/// signing AS, not found at the first AS without a key, otherwise valid
/// (the signatures cannot be checked without the message they sign).
pub open spec fn bgpsec_verdict(raw: Seq<u8>, asns: Seq<u32>, keys: Map<u32, Vec<u8>>) -> BgpsecVerdict {
    if raw.len() == 0 {
        BgpsecVerdict::Absent
    } else if asns.len() == 0 {
        BgpsecVerdict::Malformed
    } else {
        match first_missing(asns, keys) {
            Some(a) => BgpsecVerdict::NotFound { missing_asn: a },
            None => BgpsecVerdict::Valid,
        }
    }
}

/// Router keys by AS: uncompressed P-256 public keys (65 bytes).
pub struct BgpsecValidator {
    router_keys: HashMap<u32, Vec<u8>>,
}

/// Loading a key counts one key more exactly when its AS had none.
pub proof fn lemma_key_count_after_load(before: Map<u32, Vec<u8>>, asn: u32, key: Vec<u8>)
    requires
        before.dom().finite(),
    ensures
        before.insert(asn, key).dom().finite(),
        before.insert(asn, key).len() == before.len() + (if before.contains_key(asn) {
            0int
        } else {
            1int
        }),
{
    assert(before.insert(asn, key).dom() =~= before.dom().insert(asn));
}

/// Once an AS has a key, no verdict names it as the AS without one.
pub proof fn lemma_loaded_key_not_missing(
    raw: Seq<u8>,
    asns: Seq<u32>,
    keys: Map<u32, Vec<u8>>,
    asn: u32,
)
    requires
        keys.contains_key(asn),
    ensures
        bgpsec_verdict(raw, asns, keys) != (BgpsecVerdict::NotFound { missing_asn: asn }),
{
    if exists|i: int| 0 <= i < asns.len() && !keys.contains_key(#[trigger] asns[i]) {
        let c = choose|i: int|
            0 <= i < asns.len() && !keys.contains_key(asns[i]) && forall|j: int|
                0 <= j < i ==> keys.contains_key(#[trigger] asns[j]);
        let w = choose|i: int| 0 <= i < asns.len() && !keys.contains_key(#[trigger] asns[i]);
        lemma_first_missing_exists(asns, keys, w);
        assert(!keys.contains_key(asns[c]));
    }
}

proof fn lemma_first_missing_exists(asns: Seq<u32>, keys: Map<u32, Vec<u8>>, w: int)
    requires
        0 <= w < asns.len(),
        !keys.contains_key(asns[w]),
    ensures
        exists|i: int|
            0 <= i < asns.len() && !keys.contains_key(asns[i]) && forall|j: int|
                0 <= j < i ==> keys.contains_key(#[trigger] asns[j]),
    decreases w,
{
    if exists|j: int| 0 <= j < w && !keys.contains_key(#[trigger] asns[j]) {
        let j = choose|j: int| 0 <= j < w && !keys.contains_key(#[trigger] asns[j]);
        lemma_first_missing_exists(asns, keys, j);
    } else {
        assert(forall|j: int| 0 <= j < w ==> keys.contains_key(#[trigger] asns[j]));
    }
}

impl BgpsecValidator {
    /// The loaded keys.
    pub closed spec fn keys(&self) -> Map<u32, Vec<u8>> {
        self.router_keys@
    }

    /// Finitely many keys are loaded.
    pub proof fn lemma_keys_finite(&self)
        ensures
            self.keys().dom().finite(),
    {
        assert(self.router_keys@.dom().finite());
    }

    /// A validator with no keys.
    pub fn new() -> (r: BgpsecValidator)
        ensures
            r.keys() == Map::<u32, Vec<u8>>::empty(),
    {
        BgpsecValidator { router_keys: HashMap::new() }
    }

    /// Loads the key of a DER router certificate for `asn`: the certificate
    /// must decode and hold a 65-byte key.
    pub fn load_router_cert(&mut self, asn: u32, der: &[u8]) -> (r: Result<(), String>)
        ensures
            match x509_public_key(der@) {
                Err(e) => (r matches Err(m) && m@ == cert_parse_error(asn, e) && final(self).keys()
                    == old(self).keys()),
                Ok(k) => if k.len() != 65 {
                    (r matches Err(m) && m@ == cert_key_error(asn, k.len()) && final(self).keys()
                        == old(self).keys())
                } else {
                    r is Ok && final(self).keys().dom() == old(self).keys().dom().insert(asn)
                        && final(self).keys()[asn]@ == k && forall|a: u32|
                        a != asn && old(self).keys().contains_key(a) ==> final(self).keys()[a]
                            == old(self).keys()[a]
                },
            },
    {
        match certificate_public_key(der) {
            Err(e) => {
                let mut m = String::new();
                push_text(&mut m, "x509 parse error for AS");
                push_dec(&mut m, asn as u64);
                push_text(&mut m, ": ");
                push_text(&mut m, e.as_str());
                assert(m@ =~= cert_parse_error(asn, e@));
                Err(m)
            },
            Ok(key) => {
                if key.len() != 65 {
                    let mut m = String::new();
                    push_text(&mut m, "AS");
                    push_dec(&mut m, asn as u64);
                    push_text(&mut m, " router cert: expected 65-byte uncompressed P-256 key, got ");
                    push_dec(&mut m, key.len() as u64);
                    assert(m@ =~= cert_key_error(asn, key@.len()));
                    return Err(m);
                }
                self.router_keys.insert(asn, key);
                assert(self.router_keys@.dom() =~= old(self).router_keys@.dom().insert(asn));
                Ok(())
            },
        }
    }

    /// Loads a raw 65-byte key for `asn`.
    pub fn load_raw_key(&mut self, asn: u32, key: Vec<u8>) -> (r: Result<(), String>)
        ensures
            key@.len() != 65 ==> (r matches Err(m) && m@ == raw_key_error(asn, key@.len())
                && final(self).keys() == old(self).keys()),
            key@.len() == 65 ==> r is Ok && final(self).keys() == old(self).keys().insert(asn, key),
    {
        if key.len() != 65 {
            let mut m = String::new();
            push_text(&mut m, "raw key for AS");
            push_dec(&mut m, asn as u64);
            push_text(&mut m, " must be 65 bytes (uncompressed P-256), got ");
            push_dec(&mut m, key.len() as u64);
            assert(m@ =~= raw_key_error(asn, key@.len()));
            return Err(m);
        }
        self.router_keys.insert(asn, key);
        Ok(())
    }

    /// Number of loaded keys.
    pub fn cert_count(&self) -> (r: usize)
        ensures
            r == self.keys().len(),
    {
        self.router_keys.len()
    }

    /// Validates a BGPsec_Path (see `bgpsec_verdict`). With the UPDATE's
    /// bytes, each signature of the path is also put through ECDSA
    /// verification; the message it signs cannot be rebuilt from a BMP
    /// feed, so the outcome does not change the verdict.
    pub fn validate_path(&self, bgpsec: &BgpsecPath, update_wire: Option<&[u8]>) -> (r: BgpsecVerdict)
        ensures
            r == bgpsec_verdict(bgpsec.raw@, bgpsec.signing_asns@, self.keys()),
    {
        if bgpsec.raw.len() == 0 {
            return BgpsecVerdict::Absent;
        }
        if bgpsec.signing_asns.len() == 0 {
            return BgpsecVerdict::Malformed;
        }
        let asns = &bgpsec.signing_asns;
        let mut i: usize = 0;
        while i < asns.len()
            invariant
                i <= asns@.len(),
                asns@ == bgpsec.signing_asns@,
                bgpsec.raw@.len() > 0,
                forall|j: int| 0 <= j < i ==> self.router_keys@.contains_key(#[trigger] asns@[j]),
            decreases asns@.len() - i,
        {
            if !self.router_keys.contains_key(&asns[i]) {
                proof {
                    lemma_first_missing(asns@, self.router_keys@, i as int);
                }

                return BgpsecVerdict::NotFound { missing_asn: asns[i] };
            }
            i = i + 1;
        }
        match update_wire {
            Some(wire) => {
                self.verify_signatures(bgpsec, wire);
            },
            None => {},
        }
        BgpsecVerdict::Valid
    }

    /// Walks the signature segments of the path (RFC 8205 section 3.2:
    /// Secure_Path, then Signature_Blocks of length, algorithm and segments
    /// of SKI(20), length(2), signature) and puts each signature whose AS
    /// has a key through ECDSA verification. The signed message is not
    /// available, so no verdict results.
    fn verify_signatures(&self, bgpsec: &BgpsecPath, _wire: &[u8]) -> (r: Option<BgpsecVerdict>)
        ensures
            r is None,
    {
        let raw = &bgpsec.raw;
        if raw.len() < 4 {
            return None;
        }
        let secure_path_len = read_u16(raw, 0) as usize;
        let sig_block_start = 2 + secure_path_len;
        if raw.len() <= sig_block_start + 4 {
            return None;
        }
        let mut pos: usize = sig_block_start;
        let mut hop: usize = 0;
        while raw.len() - pos >= 4
            invariant
                pos <= raw@.len(),
                hop <= pos,
            decreases raw@.len() - pos,
        {
            let block_len = read_u16(raw, pos) as usize;
            if block_len < 2 || block_len > raw.len() - pos - 2 {
                break;
            }
            let mut seg_pos: usize = pos + 3;
            let block_end: usize = pos + 2 + block_len;
            while block_end - seg_pos >= 22
                invariant
                    block_end <= raw@.len(),
                    pos + 3 <= seg_pos <= block_end,
                    hop <= seg_pos,
                    block_end == pos + 2 + block_len,
                decreases block_end - seg_pos,
            {
                let sig_len = read_u16(raw, seg_pos + 20) as usize;
                seg_pos = seg_pos + 22;
                if sig_len > block_end - seg_pos {
                    break;
                }
                let sig = &raw.as_slice()[seg_pos..seg_pos + sig_len];
                seg_pos = seg_pos + sig_len;
                let asn: u32 = if hop < bgpsec.signing_asns.len() {
                    bgpsec.signing_asns[hop]
                } else {
                    0
                };
                match self.router_keys.get(&asn) {
                    Some(key) => {
                        let _ = ecdsa_p256_verify(key.as_slice(), sig, sig);
                    },
                    None => {},
                }
                hop = hop + 1;
            }
            pos = pos + 2 + block_len;
        }
        None
    }
}

impl Default for BgpsecValidator {
    fn default() -> (r: BgpsecValidator)
        ensures
            r.keys() == Map::<u32, Vec<u8>>::empty(),
    {
        BgpsecValidator::new()
    }
}

} // verus!
