//! Identity, attestation and credential behaviour, driven through the
//! host-callable operations and the library types.
use ockly::credential;
use ockly::errors::IdentityError;
use ockly::host::{HostState, VaultBackend};
use ockly::identifier::Identifier;
use ockly::identity::Identity;
use ockly::vault::SoftwareVault;

fn loaded_host() -> HostState {
    let mut h = HostState::new();
    assert!(h.load(VaultBackend::Memory));
    h
}

#[test]
fn identity_export_import_round_trip() {
    let mut h = loaded_host();
    let (text, exported) = h.create_identity(None).unwrap();
    let text2 = h.check_identity(&exported).unwrap();
    assert_eq!(text, text2);
}

#[test]
fn identity_rotation_keeps_identifier() {
    let mut vault = SoftwareVault::new();
    let mut id = Identity::create(&mut vault);
    let before = id.identifier();
    id.rotate_key(&mut vault).unwrap();
    let after = id.identifier();
    assert!(before.equals(&after));
    // The rotated chain still round-trips through export and import.
    let exported = id.export();
    let imported = Identity::import(Some(&before), &exported).unwrap();
    assert!(imported.identifier().equals(&before));
    assert_eq!(imported.events.len(), 2);
}

#[test]
fn identity_import_rejects_corruption() {
    let mut vault = SoftwareVault::new();
    let id = Identity::create(&mut vault);
    let mut exported = id.export();
    // Flip one bit inside the genesis signature: the chain no longer
    // verifies.
    let last = exported.len() - 1;
    exported[last] ^= 1;
    assert_eq!(
        Identity::import(None, &exported).unwrap_err(),
        IdentityError::IdentityImportError
    );
}

#[test]
fn identity_import_checks_expected_identifier() {
    let mut vault = SoftwareVault::new();
    let a = Identity::create(&mut vault);
    let b = Identity::create(&mut vault);
    let exported = a.export();
    let wrong = b.identifier();
    assert_eq!(
        Identity::import(Some(&wrong), &exported).unwrap_err(),
        IdentityError::InvalidIdentifier
    );
}

#[test]
fn identifier_text_round_trip() {
    let mut vault = SoftwareVault::new();
    let id = Identity::create(&mut vault);
    let handle = id.identifier();
    let text = handle.to_text();
    assert_eq!(text.len(), 64);
    let parsed = Identifier::from_text(text.as_str()).unwrap();
    assert!(parsed.equals(&handle));
    assert_eq!(
        Identifier::from_text("not hex at all").unwrap_err(),
        IdentityError::InvalidIdentifier
    );
}

#[test]
fn operations_fail_before_load() {
    let mut h = HostState::new();
    assert_eq!(
        h.create_identity(None).unwrap_err(),
        IdentityError::InvalidState
    );
    assert_eq!(
        h.import_signing_secret(&vec![0u8; 32]).unwrap_err(),
        IdentityError::NoVaultConfigured
    );
}

#[test]
fn aws_vault_fails_closed() {
    let mut h = HostState::new();
    assert!(!h.load(VaultBackend::AwsKms));
    assert_eq!(
        h.create_identity(None).unwrap_err(),
        IdentityError::InvalidState
    );
}

#[test]
fn import_signing_secret_and_reuse() {
    let mut h = loaded_host();
    let secret = vec![7u8; 32];
    let handle = h.import_signing_secret(&secret).unwrap();
    assert_eq!(handle.len(), 64);
    // An identity bound to the imported key can be created under its handle.
    let (_text, exported) = h.create_identity(Some(&handle)).unwrap();
    assert!(h.check_identity(&exported).is_ok());
    // A handle the vault never saw is rejected as an import failure.
    let bogus = "ab".repeat(32);
    let mut h2 = loaded_host();
    assert_eq!(
        h2.create_identity(Some(&bogus)).unwrap_err(),
        IdentityError::IdentityImportError
    );
}

#[test]
fn import_signing_secret_rejects_bad_length() {
    let mut h = loaded_host();
    assert_eq!(
        h.import_signing_secret(&vec![1u8; 31]).unwrap_err(),
        IdentityError::InvalidSecret
    );
}

#[test]
fn attestation_round_trip_and_binding() {
    let mut h = loaded_host();
    let (text, exported) = h.create_identity(None).unwrap();
    let key = vec![9u8; 32];
    let attestation = h.attest_purpose_key(&text, &key).unwrap();
    // The recovered key equals the attested one: verification says so.
    assert_eq!(
        h.verify_purpose_key_attestation(&exported, &key, &attestation),
        Ok(true)
    );
}

#[test]
fn attestation_key_mismatch_is_invalid_attestation() {
    let mut h = loaded_host();
    let (text, exported) = h.create_identity(None).unwrap();
    let key = vec![9u8; 32];
    let attestation = h.attest_purpose_key(&text, &key).unwrap();
    let other = vec![8u8; 32];
    assert_eq!(
        h.verify_purpose_key_attestation(&exported, &other, &attestation)
            .unwrap_err(),
        IdentityError::InvalidAttestation
    );
}

#[test]
fn attestation_decode_error_on_truncation() {
    let mut h = loaded_host();
    let (text, exported) = h.create_identity(None).unwrap();
    let key = vec![9u8; 32];
    let attestation = h.attest_purpose_key(&text, &key).unwrap();
    let truncated = attestation[..attestation.len() - 1].to_vec();
    assert_eq!(
        h.verify_purpose_key_attestation(&exported, &key, &truncated)
            .unwrap_err(),
        IdentityError::AttestationDecodeError
    );
}

#[test]
fn attestation_with_other_purpose_is_not_supported() {
    // An attestation for the credential-signing purpose is not what the
    // secure-channel check understands.
    let mut vault = SoftwareVault::new();
    let identity = Identity::create(&mut vault);
    let exported = identity.export();
    let key = vec![9u8; 32];
    let attestation = ockly::purpose_key::attest_purpose_key(
        &identity,
        &vault,
        ockly::purpose_key::Purpose::CredentialSigning,
        &key,
    )
    .unwrap();
    let encoded = ockly::purpose_key::encode_attestation(&attestation);
    let h = loaded_host();
    assert_eq!(
        h.verify_purpose_key_attestation(&exported, &key, &encoded)
            .unwrap_err(),
        IdentityError::PurposeKeyTypeNotSupported
    );
}

#[test]
fn attestation_unknown_identifier_fails() {
    let h = loaded_host();
    let bad = "zz".repeat(32);
    assert_eq!(
        h.attest_purpose_key(&bad, &vec![9u8; 32]).unwrap_err(),
        IdentityError::InvalidIdentifier
    );
    let unknown = "ab".repeat(32);
    assert_eq!(
        h.attest_purpose_key(&unknown, &vec![9u8; 32]).unwrap_err(),
        IdentityError::AttestError
    );
}

fn sample_attrs() -> Vec<(String, String)> {
    vec![
        ("city".to_string(), "Berlin".to_string()),
        ("role".to_string(), "member".to_string()),
    ]
}

#[test]
fn credential_issue_verify_round_trip() {
    let mut h = loaded_host();
    let (_issuer_text, issuer_exported) = h.create_identity(None).unwrap();
    let (subject_text, _subject_exported) = h.create_identity(None).unwrap();
    let now = 1_000u64;
    let ttl = 300u64;
    let bytes = h
        .issue_credential(&issuer_exported, &subject_text, &sample_attrs(), ttl, now)
        .unwrap();
    let (expires_at, attrs) = h
        .verify_credential(&subject_text, &vec![issuer_exported], &bytes, now)
        .unwrap();
    assert_eq!(expires_at, now + ttl);
    assert_eq!(attrs, sample_attrs());
}

#[test]
fn credential_expired_fails() {
    let mut h = loaded_host();
    let (_it, issuer_exported) = h.create_identity(None).unwrap();
    let (subject_text, _se) = h.create_identity(None).unwrap();
    let now = 1_000u64;
    let bytes = h
        .issue_credential(&issuer_exported, &subject_text, &sample_attrs(), 300, now)
        .unwrap();
    // At the expiry instant and after it, verification fails even though
    // the signatures and subject are valid.
    for late in [1_300u64, 50_000u64] {
        assert_eq!(
            h.verify_credential(&subject_text, &vec![issuer_exported.clone()], &bytes, late)
                .unwrap_err(),
            IdentityError::CredentialVerificationFailed
        );
    }
}

#[test]
fn credential_untrusted_issuer_fails() {
    let mut h = loaded_host();
    let (_it, issuer_exported) = h.create_identity(None).unwrap();
    let (subject_text, _se) = h.create_identity(None).unwrap();
    let (_ot, other_exported) = h.create_identity(None).unwrap();
    let now = 1_000u64;
    let bytes = h
        .issue_credential(&issuer_exported, &subject_text, &sample_attrs(), 300, now)
        .unwrap();
    // The issuer is missing from the trusted authorities: verification
    // fails although the signature is valid.
    assert_eq!(
        h.verify_credential(&subject_text, &vec![other_exported], &bytes, now)
            .unwrap_err(),
        IdentityError::CredentialVerificationFailed
    );
    assert_eq!(
        h.verify_credential(&subject_text, &vec![], &bytes, now)
            .unwrap_err(),
        IdentityError::CredentialVerificationFailed
    );
}

#[test]
fn credential_wrong_subject_fails() {
    let mut h = loaded_host();
    let (_it, issuer_exported) = h.create_identity(None).unwrap();
    let (subject_text, _se) = h.create_identity(None).unwrap();
    let (other_text, _oe) = h.create_identity(None).unwrap();
    let now = 1_000u64;
    let bytes = h
        .issue_credential(&issuer_exported, &subject_text, &sample_attrs(), 300, now)
        .unwrap();
    assert_eq!(
        h.verify_credential(&other_text, &vec![issuer_exported], &bytes, now)
            .unwrap_err(),
        IdentityError::CredentialVerificationFailed
    );
}

#[test]
fn credential_truncated_blob_is_decode_error() {
    let mut h = loaded_host();
    let (_it, issuer_exported) = h.create_identity(None).unwrap();
    let (subject_text, _se) = h.create_identity(None).unwrap();
    let now = 1_000u64;
    let bytes = h
        .issue_credential(&issuer_exported, &subject_text, &sample_attrs(), 300, now)
        .unwrap();
    // Every truncation is a decode error, never a verification error.
    for cut in [0, 1, 7, 8, 100, bytes.len() - 1] {
        let truncated = bytes[..cut].to_vec();
        assert_eq!(
            h.verify_credential(&subject_text, &vec![issuer_exported.clone()], &truncated, now)
                .unwrap_err(),
            IdentityError::CredentialDecodeError
        );
    }
}

#[test]
fn credential_corrupted_signature_is_verification_error() {
    let mut h = loaded_host();
    let (_it, issuer_exported) = h.create_identity(None).unwrap();
    let (subject_text, _se) = h.create_identity(None).unwrap();
    let now = 1_000u64;
    let mut bytes = h
        .issue_credential(&issuer_exported, &subject_text, &sample_attrs(), 300, now)
        .unwrap();
    // Corrupting the trailing signature keeps the blob decodable but makes
    // verification fail: decode failures and verification failures stay
    // distinguished.
    let last = bytes.len() - 1;
    bytes[last] ^= 0x40;
    assert_eq!(
        h.verify_credential(&subject_text, &vec![issuer_exported], &bytes, now)
            .unwrap_err(),
        IdentityError::CredentialVerificationFailed
    );
}

#[test]
fn credential_bad_authority_blob_is_import_error() {
    let mut h = loaded_host();
    let (_it, issuer_exported) = h.create_identity(None).unwrap();
    let (subject_text, _se) = h.create_identity(None).unwrap();
    let now = 1_000u64;
    let bytes = h
        .issue_credential(&issuer_exported, &subject_text, &sample_attrs(), 300, now)
        .unwrap();
    assert_eq!(
        h.verify_credential(&subject_text, &vec![vec![1u8, 2, 3]], &bytes, now)
            .unwrap_err(),
        IdentityError::IdentityImportError
    );
}

#[test]
fn credential_non_utf8_attribute_is_utf8_error() {
    // Issue at the library level with raw, non-UTF-8 attribute bytes; the
    // host-level verification decodes attributes into strings and must
    // report the UTF-8 failure, after the signature checks succeeded.
    let mut vault = SoftwareVault::new();
    let issuer = Identity::create(&mut vault);
    let subject = Identity::create(&mut vault);
    let attrs = vec![credential::Attribute {
        name: vec![0xffu8, 0xfe],
        value: b"v".to_vec(),
    }];
    let now = 1_000u64;
    let bundle = credential::issue_credential(
        &issuer,
        &mut vault,
        &subject.identifier(),
        attrs,
        0,
        now,
        300,
    )
    .unwrap();
    let encoded = credential::encode_bundle(&bundle).unwrap();
    let h = loaded_host();
    assert_eq!(
        h.verify_credential(
            &subject.identifier().to_text(),
            &vec![issuer.export()],
            &encoded,
            now
        )
        .unwrap_err(),
        IdentityError::Utf8Error
    );
}

#[test]
fn credential_overflowing_expiry_fails_issuing() {
    let mut vault = SoftwareVault::new();
    let issuer = Identity::create(&mut vault);
    let subject = Identity::create(&mut vault);
    let r = credential::issue_credential(
        &issuer,
        &mut vault,
        &subject.identifier(),
        vec![],
        0,
        u64::MAX,
        1,
    );
    assert_eq!(r.unwrap_err(), IdentityError::CredentialIssuingError);
}

#[test]
fn bad_subject_text_is_invalid_identifier() {
    let mut h = loaded_host();
    let (_it, issuer_exported) = h.create_identity(None).unwrap();
    let (subject_text, _se) = h.create_identity(None).unwrap();
    let now = 1_000u64;
    let bytes = h
        .issue_credential(&issuer_exported, &subject_text, &sample_attrs(), 300, now)
        .unwrap();
    assert_eq!(
        h.verify_credential(
            &"UPPERCASE-IS-NOT-HEX".to_string(),
            &vec![issuer_exported.clone()],
            &bytes,
            now
        )
        .unwrap_err(),
        IdentityError::InvalidIdentifier
    );
    assert_eq!(
        h.issue_credential(&issuer_exported, &"xy".to_string(), &sample_attrs(), 300, now)
            .unwrap_err(),
        IdentityError::InvalidIdentifier
    );
}
