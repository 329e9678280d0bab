//! The host-callable surface of the trust layer: identity creation and
//! import, purpose-key attestation, credential issuance and verification,
//! and signing-secret import, all over plain strings and byte blobs, against
//! one shared state that must be loaded with a vault backend first.
use vstd::prelude::*;
use vstd::string::StrSliceExecFns;
use vstd::utf8::{encode_utf8, valid_utf8};
use crate::bytes::{hex_bytes_of, string_from_utf8};
use crate::credential::{credential_acceptable, identities_views, parse_bundle, Attribute};
use crate::errors::IdentityError;
use crate::identifier::Identifier;
use crate::identity::{chain_ok, export_bytes, parse_events, Identity};
use crate::purpose_key::{attestation_valid, parse_attestation, Purpose};
use crate::vault::SoftwareVault;

verus! {

/// Well-formed identifier text: sixty-four lowercase hex digits.
pub open spec fn valid_identifier_text(s: Seq<char>) -> bool {
    encode_utf8(s).len() == 2 * crate::identifier::IDENTIFIER_LEN && forall|i: int|
        0 <= i < encode_utf8(s).len() ==> crate::bytes::is_hex_lower(encode_utf8(s)[i])
}

/// Every authority blob decodes to a verified rotation chain.
pub open spec fn all_authorities_import(auths: Seq<Vec<u8>>) -> bool {
    forall|i: int|
        0 <= i < auths.len() ==> (parse_events((#[trigger] auths[i])@) matches Some(ev)
            && chain_ok(ev))
}

/// The rotation chains behind a list of authority blobs.
pub open spec fn authority_views(auths: Seq<Vec<u8>>) -> Seq<Seq<crate::identity::EventV>> {
    Seq::new(auths.len(), |i: int| parse_events(auths[i]@).unwrap())
}

/// Whether an identity blob decodes and its chain verifies.
pub open spec fn identity_imports(bs: Seq<u8>) -> bool {
    parse_events(bs) matches Some(ev) && chain_ok(ev)
}

/// The rotation chain behind an identity blob.
pub open spec fn imported_events(bs: Seq<u8>) -> Seq<crate::identity::EventV> {
    parse_events(bs).unwrap()
}

/// The wire attributes that a list of string pairs becomes.
pub open spec fn attrs_wire(attrs: Seq<(String, String)>) -> Seq<crate::credential::AttributeV> {
    Seq::new(
        attrs.len(),
        |i: int| crate::credential::AttributeV {
            name: encode_utf8(attrs[i].0@),
            value: encode_utf8(attrs[i].1@),
        },
    )
}

/// Every attribute name and value is valid UTF-8.
pub open spec fn all_attributes_utf8(attrs: Seq<crate::credential::AttributeV>) -> bool {
    forall|i: int|
        0 <= i < attrs.len() ==> valid_utf8((#[trigger] attrs[i]).name) && valid_utf8(
            attrs[i].value,
        )
}

/// The vault backends a host may select at startup.
#[derive(Clone, Copy, Debug, PartialEq, Eq, Structural)]
pub enum VaultBackend {
    /// The in-memory software vault.
    Memory,
    /// A remote KMS-backed vault: declared, but not implemented here, so
    /// selecting it fails closed at startup.
    AwsKms,
}

/// The shared state behind the host-callable operations: the vault, once a
/// backend is loaded, and the identities created or imported so far.
pub struct HostState {
    pub loaded: bool,
    pub vault: SoftwareVault,
    pub identities: Vec<Identity>,
}

impl HostState {
    /// Every held identity has a verified chain, and the vault is sound.
    pub open spec fn wf(self) -> bool {
        &&& self.vault.wf()
        &&& forall|i: int| 0 <= i < self.identities@.len() ==> (#[trigger] self.identities@[i]).wf()
    }

    /// A fresh, not-yet-loaded state: every operation fails until a vault
    /// backend is loaded.
    pub fn new() -> (r: HostState)
        ensures
            r.wf(),
            !r.loaded,
            r.identities@.len() == 0,
    {
        HostState { loaded: false, vault: SoftwareVault::new(), identities: Vec::new() }
    }

    /// Load the in-memory vault backend.
    pub fn load_memory_vault(&mut self) -> (r: bool)
        requires
            old(self).wf(),
        ensures
            final(self).wf(),
            final(self).loaded,
            final(self).vault == old(self).vault,
            final(self).identities@ == old(self).identities@,
            r == true,
    {
        self.loaded = true;
        true
    }

    /// The remote KMS backend is not implemented: initialization fails
    /// closed rather than silently falling back.
    pub fn load_aws_vault(&mut self) -> (r: bool)
        requires
            old(self).wf(),
        ensures
            final(self).wf(),
            *final(self) == *old(self),
            r == false,
    {
        false
    }

    /// Select a vault backend at startup.
    pub fn load(&mut self, backend: VaultBackend) -> (r: bool)
        requires
            old(self).wf(),
        ensures
            final(self).wf(),
            r == (backend is Memory),
            backend is Memory ==> final(self).loaded,
            backend is AwsKms ==> *final(self) == *old(self),
            final(self).vault == old(self).vault,
            final(self).identities@ == old(self).identities@,
    {
        match backend {
            VaultBackend::AwsKms => self.load_aws_vault(),
            VaultBackend::Memory => self.load_memory_vault(),
        }
    }

    /// Create an identity, optionally bound to a signing key the vault
    /// already holds (named by its hex handle), and return its textual
    /// identifier together with its exported byte blob.
    pub fn create_identity(&mut self, existing_key: Option<&String>) -> (r: Result<
        (String, Vec<u8>),
        IdentityError,
    >)
        requires
            old(self).wf(),
        ensures
            final(self).wf(),
            !old(self).loaded ==> r == Err::<(String, Vec<u8>), _>(IdentityError::InvalidState),
            r is Ok <==> (old(self).loaded && (match existing_key {
                None => true,
                Some(h) => valid_identifier_text(h@) && old(self).vault.has_key(
                    crate::identifier::parse_identifier_text(h@),
                ),
            })),
            final(self).loaded == old(self).loaded,
            crate::vault::vault_preserves(old(self).vault, final(self).vault),
            forall|j: int|
                0 <= j < old(self).identities@.len() ==> #[trigger] final(self).identities@[j]
                    == old(self).identities@[j],
            r matches Ok(p) ==> ({
                &&& final(self).identities@.len() == old(self).identities@.len() + 1
                &&& ({
                    let id = final(self).identities@[final(self).identities@.len() - 1];
                    &&& id.wf()
                    &&& p.1@ == export_bytes(id@)
                    &&& encode_utf8(p.0@) == hex_bytes_of(id.spec_identifier())
                    &&& (existing_key is None ==> id@.len() == 1)
                    &&& (existing_key matches Some(h) ==> id.spec_identifier()
                        == crate::identifier::parse_identifier_text(h@))
                    &&& final(self).vault.has_key(id@[id@.len() - 1].public_key)
                })
            }),
            r is Err ==> *final(self) == *old(self),
            old(self).loaded ==> (r matches Err(e) ==> e == IdentityError::IdentityImportError),
            r matches Err(e) ==> (e == IdentityError::InvalidState || e
                == IdentityError::IdentityImportError),
    {
        if !self.loaded {
            return Err(IdentityError::InvalidState);
        }
        let identity = match existing_key {
            Some(handle) => {
                let parsed = match Identifier::from_text(handle.as_str()) {
                    Ok(k) => k,
                    Err(_) => {
                        return Err(IdentityError::IdentityImportError);
                    },
                };
                match Identity::create_with_existing_key(&self.vault, &parsed.bytes) {
                    Ok(id) => id,
                    Err(_) => {
                        return Err(IdentityError::IdentityImportError);
                    },
                }
            },
            None => Identity::create(&mut self.vault),
        };
        let text = identity.identifier().to_text();
        let exported = identity.export();
        self.identities.push(identity);
        proof {
            assert(forall|i: int|
                0 <= i < self.identities@.len() ==> (#[trigger] self.identities@[i]).wf());
        }
        Ok((text, exported))
    }

    /// Import and verify an identity blob, remember the identity, and
    /// return its textual identifier.
    pub fn check_identity(&mut self, identity: &Vec<u8>) -> (r: Result<String, IdentityError>)
        requires
            old(self).wf(),
        ensures
            final(self).wf(),
            !old(self).loaded ==> r == Err::<String, _>(IdentityError::InvalidState),
            old(self).loaded ==> (r is Ok <==> identity_imports(identity@)),
            r matches Ok(text) ==> identity_imports(identity@) && encode_utf8(text@)
                == hex_bytes_of(imported_events(identity@)[0].public_key),
            final(self).loaded == old(self).loaded,
            final(self).vault == old(self).vault,
            forall|j: int|
                0 <= j < old(self).identities@.len() ==> #[trigger] final(self).identities@[j]
                    == old(self).identities@[j],
            r is Ok ==> final(self).identities@.len() == old(self).identities@.len() + 1 && final(self).identities@[final(self).identities@.len() - 1]@ == imported_events(identity@),
            r is Err ==> *final(self) == *old(self),
            old(self).loaded ==> (r matches Err(e) ==> e == IdentityError::IdentityImportError),
            r matches Err(e) ==> e == IdentityError::InvalidState || e
                == IdentityError::IdentityImportError,
    {
        if !self.loaded {
            return Err(IdentityError::InvalidState);
        }
        let imported = match Identity::import(None, identity) {
            Ok(id) => id,
            Err(_) => {
                return Err(IdentityError::IdentityImportError);
            },
        };
        let text = imported.identifier().to_text();
        self.identities.push(imported);
        proof {
            assert(forall|i: int|
                0 <= i < self.identities@.len() ==> (#[trigger] self.identities@[i]).wf());
        }
        Ok(text)
    }

    /// Attest a secure-channel purpose key under an identity named by its
    /// textual identifier. The identity must have been created or imported
    /// before, and the vault must hold its current signing secret.
    pub fn attest_purpose_key(&self, identifier: &String, public_key: &Vec<u8>) -> (r: Result<
        Vec<u8>,
        IdentityError,
    >)
        requires
            self.wf(),
        ensures
            !self.loaded ==> r == Err::<Vec<u8>, _>(IdentityError::InvalidState),
            self.loaded && !valid_identifier_text(identifier@) ==> r == Err::<Vec<u8>, _>(
                IdentityError::InvalidIdentifier,
            ),
            r is Ok <==> ({
                &&& self.loaded
                &&& valid_identifier_text(identifier@)
                &&& public_key@.len() == 32
                &&& exists|i: int|
                    0 <= i < self.identities@.len() && (#[trigger] self.identities@[i]).spec_identifier()
                        == crate::identifier::parse_identifier_text(identifier@)
                        && self.vault.has_key(
                        self.identities@[i]@[self.identities@[i]@.len() - 1].public_key,
                    )
            }),
            r matches Ok(bytes) ==> ({
                let att = parse_attestation(bytes@).unwrap();
                &&& parse_attestation(bytes@) is Some
                &&& att.purpose == Purpose::SecureChannel
                &&& att.public_key == public_key@
                &&& encode_utf8(identifier@) == hex_bytes_of(att.subject)
                &&& exists|i: int|
                    0 <= i < self.identities@.len() && attestation_valid(
                        att,
                        (#[trigger] self.identities@[i])@,
                    )
            }),
            self.loaded && valid_identifier_text(identifier@) ==> (r matches Err(e) ==> e
                == IdentityError::AttestError),
            r matches Err(e) ==> (e == IdentityError::InvalidState || e
                == IdentityError::InvalidIdentifier || e == IdentityError::AttestError),
    {
        if !self.loaded {
            return Err(IdentityError::InvalidState);
        }
        let wanted = match Identifier::from_text(identifier.as_str()) {
            Ok(k) => k,
            Err(_) => {
                return Err(IdentityError::InvalidIdentifier);
            },
        };
        let mut i: usize = 0;
        let n = self.identities.len();
        while i < n
            invariant
                i <= n,
                n == self.identities@.len(),
                self.wf(),
                self.loaded,
                valid_identifier_text(identifier@),
                wanted@ == crate::identifier::parse_identifier_text(identifier@),
                encode_utf8(identifier@) == hex_bytes_of(wanted@),
                forall|j: int|
                    0 <= j < i ==> !((#[trigger] self.identities@[j]).spec_identifier()
                        == wanted@ && public_key@.len() == 32 && self.vault.has_key(
                        self.identities@[j]@[self.identities@[j]@.len() - 1].public_key,
                    )),
            decreases n - i,
        {
            if crate::bytes::bytes_eq(&self.identities[i].events[0].public_key, &wanted.bytes) {
                match crate::purpose_key::attest_purpose_key(
                    &self.identities[i],
                    &self.vault,
                    Purpose::SecureChannel,
                    public_key,
                ) {
                    Ok(attestation) => {
                        let encoded = crate::purpose_key::encode_attestation(&attestation);
                        proof {
                            crate::purpose_key::lemma_attestation_parses_back(attestation@);
                            assert(attestation_valid(attestation@, self.identities@[i as int]@));
                        }
                        return Ok(encoded);
                    },
                    Err(_) => {},
                }
            }
            i += 1;
        }
        Err(IdentityError::AttestError)
    }

    /// Verify a purpose-key attestation blob against an identity blob and
    /// an expected public key. Returns true only when the attestation is
    /// valid for that identity, its purpose is the secure-channel purpose,
    /// and the attested key equals the expected one exactly; a key mismatch
    /// is an invalid attestation.
    pub fn verify_purpose_key_attestation(
        &self,
        identity: &Vec<u8>,
        public_key: &Vec<u8>,
        attestation: &Vec<u8>,
    ) -> (r: Result<bool, IdentityError>)
        requires
            self.wf(),
        ensures
            r matches Ok(b) ==> b == true,
            r is Ok <==> ({
                let att = parse_attestation(attestation@).unwrap();
                &&& self.loaded
                &&& parse_attestation(attestation@) is Some
                &&& identity_imports(identity@)
                &&& attestation_valid(att, imported_events(identity@))
                &&& att.purpose == Purpose::SecureChannel
                &&& att.public_key == public_key@
            }),
            !self.loaded ==> r == Err::<bool, _>(IdentityError::InvalidState),
            self.loaded && parse_attestation(attestation@) is None ==> r == Err::<bool, _>(
                IdentityError::AttestationDecodeError,
            ),
            (self.loaded && parse_attestation(attestation@) is Some && !identity_imports(
                identity@,
            )) ==> r == Err::<bool, _>(IdentityError::IdentityImportError),
            ({
                let att = parse_attestation(attestation@).unwrap();
                &&& self.loaded
                &&& parse_attestation(attestation@) is Some
                &&& identity_imports(identity@)
                &&& attestation_valid(att, imported_events(identity@))
                &&& att.purpose == Purpose::SecureChannel
                &&& att.public_key != public_key@
            }) ==> r == Err::<bool, _>(IdentityError::InvalidAttestation),
            ({
                let att = parse_attestation(attestation@).unwrap();
                &&& self.loaded
                &&& parse_attestation(attestation@) is Some
                &&& identity_imports(identity@)
                &&& attestation_valid(att, imported_events(identity@))
                &&& att.purpose != Purpose::SecureChannel
            }) ==> r == Err::<bool, _>(IdentityError::PurposeKeyTypeNotSupported),
            ({
                let att = parse_attestation(attestation@).unwrap();
                &&& self.loaded
                &&& parse_attestation(attestation@) is Some
                &&& identity_imports(identity@)
                &&& !attestation_valid(att, imported_events(identity@))
            }) ==> r == Err::<bool, _>(IdentityError::AttestError),
            r matches Err(e) ==> (e == IdentityError::InvalidState || e
                == IdentityError::AttestationDecodeError || e
                == IdentityError::IdentityImportError || e == IdentityError::AttestError || e
                == IdentityError::InvalidAttestation || e
                == IdentityError::PurposeKeyTypeNotSupported),
    {
        if !self.loaded {
            return Err(IdentityError::InvalidState);
        }
        let att = match crate::purpose_key::decode_attestation(attestation) {
            Ok(a) => a,
            Err(_) => {
                return Err(IdentityError::AttestationDecodeError);
            },
        };
        let imported = match Identity::import(None, identity) {
            Ok(id) => id,
            Err(_) => {
                return Err(IdentityError::IdentityImportError);
            },
        };
        let recovered = match crate::purpose_key::verify_purpose_key_attestation(
            None,
            &imported,
            &att,
        ) {
            Ok(k) => k,
            Err(_) => {
                return Err(IdentityError::AttestError);
            },
        };
        if !matches!(att.purpose, Purpose::SecureChannel) {
            return Err(IdentityError::PurposeKeyTypeNotSupported);
        }
        if !crate::bytes::bytes_eq(&recovered, public_key) {
            return Err(IdentityError::InvalidAttestation);
        }
        Ok(true)
    }

    /// Issue a credential: import and validate the issuer identity blob,
    /// build the attribute set under the fixed schema, set the expiry to
    /// `now + duration`, sign, and serialize the bundle of credential and
    /// purpose-key attestation.
    #[verifier::rlimit(100)]
    pub fn issue_credential(
        &mut self,
        issuer_identity: &Vec<u8>,
        subject_identifier: &String,
        attrs: &Vec<(String, String)>,
        duration: u64,
        now: u64,
    ) -> (r: Result<Vec<u8>, IdentityError>)
        requires
            old(self).wf(),
        ensures
            final(self).wf(),
            !old(self).loaded ==> r == Err::<Vec<u8>, _>(IdentityError::InvalidState),
            r matches Ok(bytes) ==> ({
                let b = parse_bundle(bytes@).unwrap();
                &&& parse_bundle(bytes@) is Some
                &&& identity_imports(issuer_identity@)
                &&& encode_utf8(subject_identifier@) == hex_bytes_of(b.credential.data.subject)
                &&& b.credential.data.schema == 0
                &&& b.credential.data.expires_at == now + duration
                &&& b.credential.data.attributes.len() == attrs@.len()
                &&& (forall|i: int|
                    0 <= i < attrs@.len() ==> (#[trigger] b.credential.data.attributes[i]).name
                        == encode_utf8(attrs@[i].0@) && b.credential.data.attributes[i].value
                        == encode_utf8(attrs@[i].1@))
                &&& b.attestation.purpose == Purpose::CredentialSigning
                &&& attestation_valid(b.attestation, imported_events(issuer_identity@))
                &&& crate::credential::credential_sig_valid(
                    b.credential,
                    b.attestation.public_key,
                )
            }),
            final(self).loaded == old(self).loaded,
            final(self).identities@ == old(self).identities@,
            crate::vault::vault_preserves(old(self).vault, final(self).vault),
            old(self).loaded && !valid_identifier_text(subject_identifier@) ==> r == Err::<
                Vec<u8>,
                _,
            >(IdentityError::InvalidIdentifier),
            (old(self).loaded && valid_identifier_text(subject_identifier@) && !identity_imports(
                issuer_identity@,
            )) ==> r == Err::<Vec<u8>, _>(IdentityError::IdentityImportError),
            ({
                &&& old(self).loaded
                &&& valid_identifier_text(subject_identifier@)
                &&& identity_imports(issuer_identity@)
                &&& !(now + duration <= u64::MAX && old(self).vault.has_key(
                    imported_events(issuer_identity@)[imported_events(issuer_identity@).len()
                        - 1].public_key,
                ))
            }) ==> r == Err::<Vec<u8>, _>(IdentityError::CredentialIssuingError),
            ({
                &&& old(self).loaded
                &&& valid_identifier_text(subject_identifier@)
                &&& identity_imports(issuer_identity@)
                &&& now + duration <= u64::MAX
                &&& old(self).vault.has_key(
                    imported_events(issuer_identity@)[imported_events(issuer_identity@).len()
                        - 1].public_key,
                )
                &&& 257 + crate::credential::attributes_bytes(attrs_wire(attrs@)).len()
                    > u64::MAX
            }) ==> r == Err::<Vec<u8>, _>(IdentityError::CredentialEncodeError),
            r is Ok <==> ({
                &&& old(self).loaded
                &&& valid_identifier_text(subject_identifier@)
                &&& identity_imports(issuer_identity@)
                &&& now + duration <= u64::MAX
                &&& old(self).vault.has_key(
                    imported_events(issuer_identity@)[imported_events(issuer_identity@).len()
                        - 1].public_key,
                )
                &&& 257 + crate::credential::attributes_bytes(attrs_wire(attrs@)).len()
                    <= u64::MAX
            }),
    {
        if !self.loaded {
            return Err(IdentityError::InvalidState);
        }
        let subject = match Identifier::from_text(subject_identifier.as_str()) {
            Ok(s) => s,
            Err(_) => {
                return Err(IdentityError::InvalidIdentifier);
            },
        };
        let issuer = match Identity::import(None, issuer_identity) {
            Ok(id) => id,
            Err(_) => {
                return Err(IdentityError::IdentityImportError);
            },
        };
        let mut attributes: Vec<Attribute> = Vec::new();
        let mut i: usize = 0;
        while i < attrs.len()
            invariant
                i <= attrs@.len(),
                attributes@.len() == i,
                forall|j: int|
                    0 <= j < i ==> (#[trigger] attributes@[j])@.name == encode_utf8(attrs@[j].0@)
                        && attributes@[j]@.value == encode_utf8(attrs@[j].1@),
                forall|j: int|
                    0 <= j < i ==> (#[trigger] attributes@[j])@.name.len() <= usize::MAX
                        && attributes@[j]@.value.len() <= usize::MAX,
            decreases attrs@.len() - i,
        {
            let name = attrs[i].0.as_str().as_bytes_vec();
            let value = attrs[i].1.as_str().as_bytes_vec();
            let name_len: usize = name.len();
            let value_len: usize = value.len();
            proof {
                assert(name@.len() == name_len && value@.len() == value_len);
            }
            attributes.push(Attribute { name, value });
            i += 1;
        }
        let bundle = match crate::credential::issue_credential(
            &issuer,
            &mut self.vault,
            &subject,
            attributes,
            0,
            now,
            duration,
        ) {
            Ok(b) => b,
            Err(_) => {
                return Err(IdentityError::CredentialIssuingError);
            },
        };
        proof {
            let mapped = attrs_wire(attrs@);
            assert(bundle@.credential.data.attributes =~= mapped);
            assert(crate::purpose_key::attestation_bytes(bundle@.attestation).len() == 129);
            assert(crate::credential::data_bytes(bundle@.credential.data).len() == 56
                + crate::credential::attributes_bytes(mapped).len());
            assert(crate::credential::bundle_bytes(bundle@).len() == 257
                + crate::credential::attributes_bytes(mapped).len());
        }
        let encoded = match crate::credential::encode_bundle(&bundle) {
            Ok(v) => v,
            Err(e) => {
                return Err(e);
            },
        };
        proof {
            crate::credential::lemma_bundle_parses_back(bundle@);
        }
        Ok(encoded)
    }

    /// Verify a credential bundle blob: decode it, import every trusted
    /// authority's identity blob, check the cryptographic chain, subject and
    /// expiry, and return the expiry together with the decoded attribute
    /// map. All-or-nothing: on any failure only the failure kind is
    /// returned.
    pub fn verify_credential(
        &self,
        expected_subject: &String,
        authorities: &Vec<Vec<u8>>,
        credential: &Vec<u8>,
        now: u64,
    ) -> (r: Result<(u64, Vec<(String, String)>), IdentityError>)
        requires
            self.wf(),
        ensures
            !self.loaded ==> r == Err::<(u64, Vec<(String, String)>), _>(
                IdentityError::InvalidState,
            ),
            (self.loaded && !valid_identifier_text(expected_subject@)) ==> r == Err::<
                (u64, Vec<(String, String)>),
                _,
            >(IdentityError::InvalidIdentifier),
            (self.loaded && valid_identifier_text(expected_subject@) && parse_bundle(credential@)
                is None) ==> r == Err::<(u64, Vec<(String, String)>), _>(
                IdentityError::CredentialDecodeError,
            ),
            (self.loaded && valid_identifier_text(expected_subject@) && parse_bundle(credential@)
                is Some && !all_authorities_import(authorities@)) ==> r == Err::<
                (u64, Vec<(String, String)>),
                _,
            >(IdentityError::IdentityImportError),
            ({
                &&& self.loaded
                &&& valid_identifier_text(expected_subject@)
                &&& parse_bundle(credential@) is Some
                &&& all_authorities_import(authorities@)
                &&& !credential_acceptable(
                    parse_bundle(credential@).unwrap(),
                    authority_views(authorities@),
                    Some(crate::identifier::parse_identifier_text(expected_subject@)),
                    now,
                )
            }) ==> r == Err::<(u64, Vec<(String, String)>), _>(
                IdentityError::CredentialVerificationFailed,
            ),
            ({
                &&& self.loaded
                &&& valid_identifier_text(expected_subject@)
                &&& parse_bundle(credential@) is Some
                &&& all_authorities_import(authorities@)
                &&& credential_acceptable(
                    parse_bundle(credential@).unwrap(),
                    authority_views(authorities@),
                    Some(crate::identifier::parse_identifier_text(expected_subject@)),
                    now,
                )
            }) ==> ((r is Ok <==> all_attributes_utf8(
                parse_bundle(credential@).unwrap().credential.data.attributes,
            )) && (!all_attributes_utf8(parse_bundle(credential@).unwrap().credential.data.attributes)
                ==> r == Err::<(u64, Vec<(String, String)>), _>(IdentityError::Utf8Error))),
            r matches Ok(p) ==> ({
                let b = parse_bundle(credential@).unwrap();
                &&& parse_bundle(credential@) is Some
                &&& p.0 == b.credential.data.expires_at
                &&& p.1@.len() == b.credential.data.attributes.len()
                &&& (forall|i: int|
                    0 <= i < p.1@.len() ==> encode_utf8((#[trigger] p.1@[i]).0@) == b.credential.data.attributes[i].name
                        && encode_utf8(p.1@[i].1@) == b.credential.data.attributes[i].value)
            }),
    {
        if !self.loaded {
            return Err(IdentityError::InvalidState);
        }
        let expected = match Identifier::from_text(expected_subject.as_str()) {
            Ok(s) => s,
            Err(_) => {
                return Err(IdentityError::InvalidIdentifier);
            },
        };
        let bundle = match crate::credential::decode_bundle(credential) {
            Ok(b) => b,
            Err(_) => {
                return Err(IdentityError::CredentialDecodeError);
            },
        };
        let mut imported: Vec<Identity> = Vec::new();
        let mut i: usize = 0;
        while i < authorities.len()
            invariant
                i <= authorities@.len(),
                imported@.len() == i,
                self.loaded,
                valid_identifier_text(expected_subject@),
                parse_bundle(credential@) is Some,
                forall|j: int| 0 <= j < i ==> (#[trigger] imported@[j]).wf(),
                forall|j: int|
                    0 <= j < i ==> Some((#[trigger] imported@[j])@) == parse_events(
                        authorities@[j]@,
                    ),
            decreases authorities@.len() - i,
        {
            match Identity::import(None, &authorities[i]) {
                Ok(id) => {
                    imported.push(id);
                },
                Err(_) => {
                    proof {
                        assert(!all_authorities_import(authorities@)) by {
                            if all_authorities_import(authorities@) {
                                assert(parse_events(authorities@[i as int]@) matches Some(ev)
                                    && chain_ok(ev));
                            }
                        }
                    }
                    return Err(IdentityError::IdentityImportError);
                },
            }
            i += 1;
        }
        proof {
            assert forall|j: int| 0 <= j < authorities@.len() implies (parse_events(
                (#[trigger] authorities@[j])@,
            ) matches Some(ev) && chain_ok(ev)) by {
                assert(Some(imported@[j]@) == parse_events(authorities@[j]@));
                assert(imported@[j].wf());
            }
            assert(all_authorities_import(authorities@));
            assert(identities_views(imported@) =~= authority_views(authorities@));
        }
        let (expires_at, attributes) = match crate::credential::verify_credential(
            Some(&expected),
            &imported,
            &bundle,
            now,
        ) {
            Ok(p) => p,
            Err(_) => {
                return Err(IdentityError::CredentialVerificationFailed);
            },
        };
        let mut out: Vec<(String, String)> = Vec::new();
        let mut k: usize = 0;
        let ghost attrs_v = parse_bundle(credential@).unwrap().credential.data.attributes;
        proof {
            assert(attributes@.map(|i: int, a: Attribute| a@) == attrs_v);
            assert(attributes@.len() == attrs_v.len());
        }
        while k < attributes.len()
            invariant
                k <= attributes@.len(),
                self.loaded,
                valid_identifier_text(expected_subject@),
                parse_bundle(credential@) is Some,
                all_authorities_import(authorities@),
                credential_acceptable(
                    parse_bundle(credential@).unwrap(),
                    authority_views(authorities@),
                    Some(crate::identifier::parse_identifier_text(expected_subject@)),
                    now,
                ),
                attrs_v == parse_bundle(credential@).unwrap().credential.data.attributes,
                attributes@.map(|i: int, a: Attribute| a@) == attrs_v,
                attrs_v.len() == attributes@.len(),
                out@.len() == k,
                forall|j: int|
                    0 <= j < k ==> valid_utf8((#[trigger] attrs_v[j]).name) && valid_utf8(
                        attrs_v[j].value,
                    ),
                forall|j: int|
                    0 <= j < k ==> encode_utf8((#[trigger] out@[j]).0@) == attrs_v[j].name
                        && encode_utf8(out@[j].1@) == attrs_v[j].value,
            decreases attributes@.len() - k,
        {
            proof {
                assert(attributes@[k as int]@ == attrs_v[k as int]);
            }
            let name = match string_from_utf8(&attributes[k].name) {
                Some(s) => s,
                None => {
                    return Err(IdentityError::Utf8Error);
                },
            };
            let value = match string_from_utf8(&attributes[k].value) {
                Some(s) => s,
                None => {
                    return Err(IdentityError::Utf8Error);
                },
            };
            out.push((name, value));
            k += 1;
        }
        Ok((expires_at, out))
    }

    /// Import raw signing-secret bytes into the loaded memory vault and
    /// return the new key's hex handle.
    pub fn import_signing_secret(&mut self, secret: &Vec<u8>) -> (r: Result<
        String,
        IdentityError,
    >)
        requires
            old(self).wf(),
        ensures
            final(self).wf(),
            !old(self).loaded ==> r == Err::<String, _>(IdentityError::NoVaultConfigured),
            old(self).loaded ==> (r is Ok <==> secret@.len() == 32),
            old(self).loaded && secret@.len() != 32 ==> r == Err::<String, _>(
                IdentityError::InvalidSecret,
            ),
            final(self).loaded == old(self).loaded,
            final(self).identities@ == old(self).identities@,
            crate::vault::vault_preserves(old(self).vault, final(self).vault),
            r is Err ==> *final(self) == *old(self),
            r matches Ok(text) ==> ({
                let pk = crate::crypto::ed25519_public_key(secret@);
                &&& encode_utf8(text@) == hex_bytes_of(pk)
                &&& valid_identifier_text(text@)
                &&& crate::identifier::parse_identifier_text(text@) == pk
                &&& final(self).vault.has_key(pk)
            }),
    {
        if !self.loaded {
            return Err(IdentityError::NoVaultConfigured);
        }
        let public_key = match self.vault.import_secret(secret) {
            Ok(pk) => pk,
            Err(e) => {
                return Err(e);
            },
        };
        let handle = Identifier { bytes: public_key };
        let text = handle.to_text();
        proof {
            crate::identifier::lemma_text_names_bytes(text@, handle@);
        }
        Ok(text)
    }
}

} // verus!
