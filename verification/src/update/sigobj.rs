//! Verification of a cosign "simple signing" attachment as `skopeo copy … dir:` stores it:
//! every key is tried against every layer; the signed bytes are the payload blob exactly as
//! stored, checked against its descriptor; the signature is base64 ASN.1 DER; the payload
//! must be of the cosign type. Reading the files and the JSON is the caller's.

use base64::Engine;
use p256::ecdsa::signature::Verifier;
use p256::pkcs8::DecodePublicKey;
use sha2::Digest;
use vstd::prelude::*;

use crate::chars::{chars_of, split, split_spec, string_of};

verus! {

pub const LAYER_MEDIA_TYPE: &'static str = "application/vnd.dev.cosign.simplesigning.v1+json";

pub const SIGNATURE_ANNOTATION: &'static str = "dev.cosignproject.cosign/signature";

pub const PAYLOAD_TYPE: &'static str = "cosign container image signature";

/// The largest manifest read, in bytes.
pub const MAX_MANIFEST: u64 = 1048576;

/// The largest payload blob read, in bytes.
pub const MAX_PAYLOAD: u64 = 65536;

/// What one verified signature layer states.
#[derive(Debug, Clone, PartialEq, Eq)]
pub struct Claim {
    pub manifest_digest: String,
    pub repository: String,
    /// One of the given keys verifies the layer. A claim that is not backed is reported
    /// only so the caller can tell `key-not-in-policy` from `no-signature`.
    pub backed: bool,
}

/// Why a signature object cannot be read at all.
#[derive(Debug, Clone, Copy, PartialEq, Eq, Structural)]
pub enum Error {
    Unreadable,
    Malformed,
}

/// One layer of the manifest, as the caller read it.
#[derive(Debug, Clone, PartialEq, Eq)]
pub struct Descriptor {
    pub media_type: String,
    pub digest: String,
    pub size: u64,
    /// The `dev.cosignproject.cosign/signature` annotation.
    pub signature: Option<String>,
}

/// The members of a payload the verification reads, from a payload that has exactly the
/// members of the format.
#[derive(Debug, Clone, PartialEq, Eq)]
pub struct Payload {
    /// `critical.type`
    pub kind: String,
    /// `critical.image.docker-manifest-digest`
    pub manifest_digest: String,
    /// `critical.identity.docker-reference`
    pub reference: String,
}

/// The first index of `c` in `s` from the end, if any.
pub open spec fn last_index(s: Seq<char>, c: char) -> Option<int> {
    if exists|i: int| 0 <= i < s.len() && s[i] == c {
        Some(choose|i: int| 0 <= i < s.len() && s[i] == c && forall|j: int| i < j < s.len() ==> s[j] != c)
    } else {
        None
    }
}

/// `registry/path:tag` or `registry/path@digest` without the tag or digest: what comes
/// before the first `@`, without its last `:` part when no `/` follows that `:`.
pub open spec fn repository_spec(reference: Seq<char>) -> Seq<char> {
    let r = split_spec(reference, '@')[0];
    match last_index(r, ':') {
        Some(colon) => if r.skip(colon).contains('/') {
            r
        } else {
            r.take(colon)
        },
        None => r,
    }
}

pub fn repository_of(reference: &str) -> (r: String)
    ensures
        r@ == repository_spec(reference@),
{
    let v = chars_of(reference);
    let parts = split(v.as_slice(), '@');
    proof {
        crate::chars::lemma_split_nonempty(reference@, '@');
    }
    let r = parts[0].as_slice();
    let mut colon: Option<usize> = None;
    let mut i: usize = r.len();
    while i > 0
        invariant_except_break
            i <= r@.len(),
            colon is None,
            forall|j: int| i <= j < r@.len() ==> r@[j] != ':',
        ensures
            match colon {
                Some(c) => c < r@.len() && r@[c as int] == ':' && forall|j: int|
                    c < j < r@.len() ==> r@[j] != ':',
                None => forall|j: int| 0 <= j < r@.len() ==> r@[j] != ':',
            },
        decreases i,
    {
        i = i - 1;
        if r[i] == ':' {
            colon = Some(i);
            break;
        }
    }
    let ghost rs = r@;
    match colon {
        Some(c) => {
            proof {
                let k = choose|k: int|
                    0 <= k < rs.len() && rs[k] == ':' && forall|j: int| k < j < rs.len() ==> rs[j] != ':';
                if k < c {
                    assert(rs[c as int] == ':');
                } else if k > c {
                    assert(rs[k] != ':');
                }
            }
            let mut slash = false;
            let mut j: usize = c;
            while j < r.len()
                invariant
                    c <= j <= r@.len(),
                    slash == exists|k: int| c <= k < j && r@[k] == '/',
                decreases r.len() - j,
            {
                if r[j] == '/' {
                    slash = true;
                }
                j = j + 1;
            }
            proof {
                if slash {
                    let k = choose|k: int| c <= k < r@.len() && r@[k] == '/';
                    assert(rs.skip(c as int)[k - c] == '/');
                } else {
                    assert forall|k: int| 0 <= k < rs.skip(c as int).len() implies rs.skip(c as int)[k] != '/' by {
                        assert(rs.skip(c as int)[k] == rs[c + k]);
                    }
                }
            }
            if slash {
                string_of(r)
            } else {
                let (head, _) = r.split_at(c);
                string_of(head)
            }
        },
        None => string_of(r),
    }
}

/// The lowercase hexadecimal digit of a value below 16.
pub open spec fn hex_char(v: int) -> char {
    if v < 10 {
        (('0' as int) + v) as char
    } else {
        (('a' as int) + v - 10) as char
    }
}

/// `hex::encode`: two lowercase hexadecimal digits per byte, high nibble first.
pub open spec fn hex_spec(bytes: Seq<u8>) -> Seq<char>
    decreases bytes.len(),
{
    if bytes.len() == 0 {
        Seq::empty()
    } else {
        hex_spec(bytes.drop_last()) + seq![
            hex_char(bytes.last() as int / 16),
            hex_char(bytes.last() as int % 16),
        ]
    }
}

/// `hex::encode`.
#[verifier::external_body]
pub(crate) fn hex_encode(bytes: &[u8]) -> (r: String)
    ensures
        r@ == hex_spec(bytes@),
{
    hex::encode(bytes)
}

/// The SHA-256 digest of some bytes.
pub uninterp spec fn sha256_of(bytes: Seq<u8>) -> Seq<u8>;

/// `Sha256::digest`: 32 bytes.
#[verifier::external_body]
pub(crate) fn sha256(bytes: &[u8]) -> (r: Vec<u8>)
    ensures
        r@ == sha256_of(bytes@),
        r@.len() == 32,
{
    sha2::Sha256::digest(bytes).to_vec()
}

/// What the standard base64 engine decodes from a text, when it is base64.
pub uninterp spec fn base64_decoded(text: Seq<char>) -> Option<Seq<u8>>;

/// `general_purpose::STANDARD.decode`.
#[verifier::external_body]
fn base64_decode(text: &str) -> (r: Option<Vec<u8>>)
    ensures
        match r {
            Some(v) => base64_decoded(text@) == Some(v@),
            None => base64_decoded(text@) is None,
        },
{
    base64::engine::general_purpose::STANDARD.decode(text).ok()
}

/// Whether some bytes are an ASN.1 DER ECDSA P-256 signature.
pub uninterp spec fn der_signature_ok(der: Seq<u8>) -> bool;

/// `Signature::from_der` succeeds.
#[verifier::external_body]
fn is_der_signature(der: &[u8]) -> (r: bool)
    ensures
        r == der_signature_ok(der@),
{
    p256::ecdsa::Signature::from_der(der).is_ok()
}

/// Whether the P-256 key encoded as `key` (SEC1) verifies the DER signature `der` over `msg`.
pub uninterp spec fn p256_verifies(key: Seq<u8>, msg: Seq<u8>, der: Seq<u8>) -> bool;

/// `VerifyingKey::from_sec1_bytes`, `Signature::from_der` and `Verifier::verify`: false when
/// the key or the signature does not read.
#[verifier::external_body]
fn verify_p256(key: &[u8], msg: &[u8], der: &[u8]) -> (r: bool)
    ensures
        r == p256_verifies(key@, msg@, der@),
{
    match (p256::ecdsa::VerifyingKey::from_sec1_bytes(key), p256::ecdsa::Signature::from_der(der)) {
        (Ok(key), Ok(signature)) => key.verify(msg, &signature).is_ok(),
        _ => false,
    }
}

/// The SEC1 encoding of the P-256 public key in a PEM text, when it is one.
pub uninterp spec fn pem_key_of(pem: Seq<char>) -> Option<Seq<u8>>;

/// `VerifyingKey::from_public_key_pem`, the key encoded uncompressed (SEC1).
#[verifier::external_body]
fn pem_key(pem: &str) -> (r: Option<Vec<u8>>)
    ensures
        match r {
            Some(k) => pem_key_of(pem@) == Some(k@),
            None => pem_key_of(pem@) is None,
        },
{
    match p256::ecdsa::VerifyingKey::from_public_key_pem(pem) {
        Ok(key) => Some(key.to_encoded_point(false).as_bytes().to_vec()),
        Err(_) => None,
    }
}

/// One PEM public key as `cosign generate-key-pair` and `skopeo generate-sigstore-key`
/// write it, as the verification uses it.
pub fn load_key(pem: &str) -> (r: Option<Vec<u8>>)
    ensures
        match r {
            Some(k) => pem_key_of(pem@) == Some(k@),
            None => pem_key_of(pem@) is None,
        },
{
    pem_key(pem)
}

/// The views of some keys.
pub open spec fn keys_view(keys: Seq<Vec<u8>>) -> Seq<Seq<u8>> {
    keys.map_values(|k: Vec<u8>| k@)
}

/// Whether one of `keys` verifies `der` over `blob`.
pub open spec fn backed_spec(keys: Seq<Seq<u8>>, blob: Seq<u8>, der: Seq<u8>) -> bool {
    exists|i: int| 0 <= i < keys.len() && p256_verifies(#[trigger] keys[i], blob, der)
}

/// A claim as values: the manifest digest, the repository and whether a key backs it.
pub open spec fn claim_view(c: Claim) -> (Seq<char>, Seq<char>, bool) {
    (c.manifest_digest@, c.repository@, c.backed)
}

/// The claim of one layer whose payload blob holds `blob` (`None` when it cannot be read
/// within `MAX_PAYLOAD`) and reads as `payload` (`None` when it is not a payload with
/// exactly the members of the format). The descriptor is checked first, then the
/// signature over the stored bytes, then the payload's type.
pub open spec fn claim_spec(
    layer: (Seq<char>, Seq<char>, u64, Option<Seq<char>>),
    blob: Option<Seq<u8>>,
    keys: Seq<Seq<u8>>,
    payload: Option<(Seq<char>, Seq<char>, Seq<char>)>,
) -> Option<(Seq<char>, Seq<char>, bool)> {
    let (media_type, digest, size, annotation) = layer;
    if media_type != LAYER_MEDIA_TYPE@ || !(digest.len() == 71 && digest.take(7) == "sha256:"@
        && forall|i: int| 7 <= i < 71 ==> crate::update::store::lower_hex(#[trigger] digest[i])) {
        None
    } else {
        match blob {
            None => None,
            Some(b) => if b.len() != size || hex_spec(sha256_of(b)) != digest.skip(7) {
                None
            } else {
                match annotation {
                    None => None,
                    Some(a) => match base64_decoded(a) {
                        None => None,
                        Some(der) => if !der_signature_ok(der) {
                            None
                        } else {
                            match payload {
                                None => None,
                                Some((kind, manifest_digest, reference)) => if kind != PAYLOAD_TYPE@ {
                                    None
                                } else {
                                    Some((manifest_digest, repository_spec(reference), backed_spec(keys, b, der)))
                                },
                            }
                        },
                    },
                }
            },
        }
    }
}

/// A descriptor as values.
pub open spec fn descriptor_view(d: Descriptor) -> (Seq<char>, Seq<char>, u64, Option<Seq<char>>) {
    (d.media_type@, d.digest@, d.size, match d.signature {
        Some(s) => Some(s@),
        None => None,
    })
}

/// A payload as values.
pub open spec fn payload_view(p: Option<Payload>) -> Option<(Seq<char>, Seq<char>, Seq<char>)> {
    match p {
        Some(p) => Some((p.kind@, p.manifest_digest@, p.reference@)),
        None => None,
    }
}

/// The view of an optional blob.
pub open spec fn blob_view(b: Option<&[u8]>) -> Option<Seq<u8>> {
    match b {
        Some(b) => Some(b@),
        None => None,
    }
}

/// One layer: the descriptor first, then the signature over the stored bytes, then the
/// payload.
pub fn claim_of(layer: &Descriptor, blob: Option<&[u8]>, keys: &[Vec<u8>], payload: Option<&Payload>) -> (r: Option<Claim>)
    ensures
        match claim_spec(
            descriptor_view(*layer),
            blob_view(blob),
            keys_view(keys@),
            payload_view(match payload {
                Some(p) => Some(*p),
                None => None,
            }),
        ) {
            Some(c) => r matches Some(claim) && claim_view(claim) == c,
            None => r is None,
        },
{
    let media = LAYER_MEDIA_TYPE.to_owned();
    if !layer.media_type.eq(&media) {
        return None;
    }
    let d = chars_of(layer.digest.as_str());
    let prefix = chars_of("sha256:");
    proof {
        reveal_strlit("sha256:");
    }
    if d.len() != 71 || !crate::chars::starts_with(d.as_slice(), prefix.as_slice()) {
        return None;
    }
    let mut i: usize = 7;
    while i < 71
        invariant
            d@ == layer.digest@,
            d@.len() == 71,
            7 <= i <= 71,
            forall|j: int| 7 <= j < i ==> crate::update::store::lower_hex(#[trigger] d@[j]),
        decreases 71 - i,
    {
        let c = d[i];
        if !(('0' <= c && c <= '9') || ('a' <= c && c <= 'f')) {
            assert(!crate::update::store::lower_hex(layer.digest@[i as int]));
            return None;
        }
        i = i + 1;
    }
    let (_, hex) = d.as_slice().split_at(7);
    let blob = match blob {
        Some(b) => b,
        None => return None,
    };
    if blob.len() as u64 != layer.size {
        return None;
    }
    let digest = sha256(blob);
    let written = hex_encode(digest.as_slice());
    let w = chars_of(written.as_str());
    if !crate::chars::same_chars(w.as_slice(), hex) {
        return None;
    }
    let annotation = match &layer.signature {
        Some(a) => a,
        None => return None,
    };
    let der = match base64_decode(annotation.as_str()) {
        Some(der) => der,
        None => return None,
    };
    if !is_der_signature(der.as_slice()) {
        return None;
    }
    let mut backed = false;
    let mut k: usize = 0;
    while k < keys.len()
        invariant
            k <= keys@.len(),
            backed == exists|j: int| 0 <= j < k && p256_verifies(#[trigger] keys_view(keys@)[j], blob@, der@),
        decreases keys.len() - k,
    {
        let ok = verify_p256(keys[k].as_slice(), blob, der.as_slice());
        assert(keys_view(keys@)[k as int] == keys@[k as int]@);
        if ok {
            backed = true;
        }
        k = k + 1;
    }
    let payload = match payload {
        Some(p) => p,
        None => return None,
    };
    let kind = PAYLOAD_TYPE.to_owned();
    if !payload.kind.eq(&kind) {
        return None;
    }
    Some(Claim {
        manifest_digest: payload.manifest_digest.clone(),
        repository: repository_of(payload.reference.as_str()),
        backed,
    })
}

/// One layer of a signature object with what the caller read for it.
#[derive(Debug, Clone, PartialEq, Eq)]
pub struct Layer {
    pub descriptor: Descriptor,
    /// The payload blob, when it is a regular file of at most `MAX_PAYLOAD` bytes.
    pub blob: Option<Vec<u8>>,
    /// The payload the blob reads as, when it is one.
    pub payload: Option<Payload>,
}

/// The claim of one layer.
pub open spec fn layer_claim(layer: Layer, keys: Seq<Seq<u8>>) -> Option<(Seq<char>, Seq<char>, bool)> {
    claim_spec(
        descriptor_view(layer.descriptor),
        match layer.blob {
            Some(b) => Some(b@),
            None => None,
        },
        keys,
        payload_view(layer.payload),
    )
}

/// The claims of the well-formed layers, in their order.
pub open spec fn claims_spec(layers: Seq<Layer>, keys: Seq<Seq<u8>>) -> Seq<(Seq<char>, Seq<char>, bool)>
    decreases layers.len(),
{
    if layers.len() == 0 {
        Seq::empty()
    } else {
        let before = claims_spec(layers.drop_last(), keys);
        match layer_claim(layers.last(), keys) {
            Some(c) => before.push(c),
            None => before,
        }
    }
}

/// The claims of the well-formed layers of a signature object, each marked with whether
/// one of `keys` backs it: every key against every layer.
pub fn claims(layers: &[Layer], keys: &[Vec<u8>]) -> (r: Vec<Claim>)
    ensures
        r@.map_values(|c: Claim| claim_view(c)) == claims_spec(layers@, keys_view(keys@)),
{
    let mut r: Vec<Claim> = Vec::new();
    let mut i: usize = 0;
    while i < layers.len()
        invariant
            i <= layers@.len(),
            r@.map_values(|c: Claim| claim_view(c)) == claims_spec(layers@.take(i as int), keys_view(keys@)),
        decreases layers.len() - i,
    {
        let layer = &layers[i];
        let blob = match &layer.blob {
            Some(b) => Some(b.as_slice()),
            None => None,
        };
        let payload = match &layer.payload {
            Some(p) => Some(p),
            None => None,
        };
        let found = claim_of(&layer.descriptor, blob, keys, payload);
        proof {
            assert(layers@.take(i as int + 1).drop_last() == layers@.take(i as int));
            assert(layers@.take(i as int + 1).last() == layers@[i as int]);
        }
        let ghost before = r@;
        match found {
            Some(c) => {
                r.push(c);
                assert(r@.map_values(|c: Claim| claim_view(c)) =~= before.map_values(|c: Claim| claim_view(c)).push(claim_view(c)));
            },
            None => {},
        }
        i = i + 1;
    }
    assert(layers@.take(layers@.len() as int) == layers@);
    r
}

} // verus!
