use athanor::backup::snapshot_id;
use athanor::update::policy::in_force;
use athanor::update::sigobj::{claim_of, load_key, Descriptor, Payload, LAYER_MEDIA_TYPE, PAYLOAD_TYPE};

const BLOB: &str = r#"{"critical":{"identity":{"docker-reference":"registry.example/o/athanor-system"},"image":{"docker-manifest-digest":"sha256:08d9"},"type":"cosign container image signature"},"optional":null}"#;
const BLOB_DIGEST: &str = "sha256:f0db3efe75500046d9a7be5f5765fc741d9f9a2034938cd6f8120d61d92d3c56";
/// An ECDSA P-256 signature of `BLOB` by `SIGNER`, DER, base64.
const SIGNATURE: &str = "MEYCIQC7NhZAKHt9M2TCvhxs9JvT4oFXmI2oRXoVVoIxoLVLagIhAM/9bq/L6RK3YlnfnFLzFhfVSyq2gDtG2k4xwiGAUB/E";
/// The same signature as two raw 32-byte integers: not DER.
const RAW_SIGNATURE: &str = "uzYWQCh7fTNkwr4cbPSb0+KBV5iNqEV6FVaCMaC1S2rP/W6vy+kSt2JZ35xS8xYX1UsqtoA7RtpOMcIhgFAfxA==";
const SIGNER: &str = "-----BEGIN PUBLIC KEY-----\nMFkwEwYHKoZIzj0CAQYIKoZIzj0DAQcDQgAE+evkZBR8wQLZIyTQmdknwaUOQtV6\nCKEW/+wKKYGdjGVwuvfRKIiQKmoMHWet0QMSPIWatpv46UMck4STDUt+7g==\n-----END PUBLIC KEY-----\n";
const OTHER: &str = "-----BEGIN PUBLIC KEY-----\nMFkwEwYHKoZIzj0CAQYIKoZIzj0DAQcDQgAEvb6uHN1X5pB6TxzkiUNnD3QISYh2\n7vAjNwikXA7nQnXeAXNuN1JRIvyBC9ab5pDu5kKewG4rXFtQ5Gkv+C9L0Q==\n-----END PUBLIC KEY-----\n";

fn layer(signature: &str) -> Descriptor {
    Descriptor {
        media_type: LAYER_MEDIA_TYPE.to_owned(),
        digest: BLOB_DIGEST.to_owned(),
        size: BLOB.len() as u64,
        signature: Some(signature.to_owned()),
    }
}

fn payload() -> Payload {
    Payload {
        kind: PAYLOAD_TYPE.to_owned(),
        manifest_digest: "sha256:08d9".to_owned(),
        reference: "registry.example/o/athanor-system".to_owned(),
    }
}

#[test]
fn a_pem_public_key_loads_and_anything_else_does_not() {
    assert_eq!(load_key(SIGNER).map(|key| key.len()), Some(65), "an uncompressed SEC1 point");
    assert!(load_key("not a key").is_none());
}

#[test]
fn the_signing_key_backs_the_claim_and_another_key_does_not() {
    let signer = load_key(SIGNER).expect("a P-256 key");
    let other = load_key(OTHER).expect("a P-256 key");
    let claim = claim_of(&layer(SIGNATURE), Some(BLOB.as_bytes()), &[other.clone(), signer], Some(&payload())).expect("a claim");
    assert_eq!((claim.manifest_digest.as_str(), claim.repository.as_str(), claim.backed), ("sha256:08d9", "registry.example/o/athanor-system", true));
    let unbacked = claim_of(&layer(SIGNATURE), Some(BLOB.as_bytes()), &[other], Some(&payload())).expect("still a claim");
    assert!(!unbacked.backed);
}

#[test]
fn a_changed_blob_or_a_raw_signature_is_no_claim() {
    let signer = load_key(SIGNER).expect("a P-256 key");
    let changed = BLOB.replace("08d9", "08d8");
    assert!(claim_of(&layer(SIGNATURE), Some(changed.as_bytes()), &[signer.clone()], Some(&payload())).is_none());
    assert!(claim_of(&layer(RAW_SIGNATURE), Some(BLOB.as_bytes()), &[signer.clone()], Some(&payload())).is_none());
    assert!(claim_of(&layer("%%%"), Some(BLOB.as_bytes()), &[signer], Some(&payload())).is_none());
}

#[test]
fn the_policy_in_force_is_named_by_its_sha256() {
    let policy = in_force("/etc/containers/policy.json", Some(b"abc"), Some(b"abc"), Some(b"r"), Some(b"r"), None);
    assert_eq!(policy.info.sha256, "ba7816bf8f01cfea414140de5dae2223b00361a396177a9cb410ff61f20015ad");
    assert!(policy.info.shipped);
    let missing = in_force("/etc/containers/policy.json", None, Some(b"abc"), Some(b"r"), Some(b"r"), None);
    assert_eq!(missing.info.sha256, "e3b0c44298fc1c149afbf4c8996fb92427ae41e4649b934ca495991b7852b855");
    assert!(!missing.info.shipped);
}

#[test]
fn a_snapshot_is_named_after_its_utc_time() {
    assert_eq!(snapshot_id((1_790_000_000, 0)).as_deref(), Some("20260921T141320Z"));
}
