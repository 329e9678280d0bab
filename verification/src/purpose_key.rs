//! Purpose keys: signed statements binding a public key to one declared
//! purpose under a specific identity. The attestation is signed by the
//! identity's current signing key, and verification always re-checks the
//! signature and the binding.
use vstd::prelude::*;
use crate::bytes::{copy_bytes, push_all};
use crate::crypto::ed25519_verify;
use crate::errors::IdentityError;
use crate::identifier::Identifier;
use crate::identity::Identity;
use crate::vault::SoftwareVault;

verus! {

/// What an attested key may be used for.
#[derive(Clone, Copy, Debug, PartialEq, Eq, Structural)]
pub enum Purpose {
    /// A static key that secures a channel.
    SecureChannel,
    /// A key that signs credentials.
    CredentialSigning,
}

/// The wire tag of a purpose.
pub open spec fn purpose_tag(p: Purpose) -> u8 {
    match p {
        Purpose::SecureChannel => 1u8,
        Purpose::CredentialSigning => 2u8,
    }
}

/// A signed statement binding `public_key` to `purpose` under the identity
/// whose handle is `subject`.
#[derive(Debug)]
pub struct PurposeKeyAttestation {
    pub subject: Identifier,
    pub purpose: Purpose,
    pub public_key: Vec<u8>,
    pub signature: Vec<u8>,
}

pub ghost struct AttestationV {
    pub subject: Seq<u8>,
    pub purpose: Purpose,
    pub public_key: Seq<u8>,
    pub signature: Seq<u8>,
}

impl View for PurposeKeyAttestation {
    type V = AttestationV;

    open spec fn view(&self) -> AttestationV {
        AttestationV {
            subject: self.subject@,
            purpose: self.purpose,
            public_key: self.public_key@,
            signature: self.signature@,
        }
    }
}

/// The bytes that an attestation signs: the purpose tag, the subject handle,
/// then the attested key.
pub open spec fn attestation_message(subject: Seq<u8>, purpose: Purpose, key: Seq<u8>) -> Seq<
    u8,
> {
    seq![purpose_tag(purpose)] + subject + key
}

/// A well-shaped attestation.
pub open spec fn attestation_wf(a: AttestationV) -> bool {
    a.subject.len() == 32 && a.public_key.len() == 32 && a.signature.len() == 64
}

/// An attestation is acceptable for an identity only when its subject is
/// that identity's handle and its signature verifies under the identity's
/// current signing key.
pub open spec fn attestation_valid(a: AttestationV, identity: Seq<crate::identity::EventV>) -> bool {
    &&& a.subject == identity[0].public_key
    &&& ed25519_verify(
        identity[identity.len() - 1].public_key,
        attestation_message(a.subject, a.purpose, a.public_key),
        a.signature,
    )
}

/// Build the byte message an attestation signs.
pub fn attestation_message_bytes(subject: &Vec<u8>, purpose: Purpose, key: &Vec<u8>) -> (r: Vec<
    u8,
>)
    ensures
        r@ == attestation_message(subject@, purpose, key@),
{
    let mut out: Vec<u8> = Vec::new();
    let tag: u8 = match purpose {
        Purpose::SecureChannel => 1u8,
        Purpose::CredentialSigning => 2u8,
    };
    out.push(tag);
    assert(out@ =~= seq![purpose_tag(purpose)]);
    push_all(&mut out, subject);
    push_all(&mut out, key);
    proof {
        assert(out@ =~= attestation_message(subject@, purpose, key@));
    }
    out
}

/// Sign a statement binding `public_key` to `purpose` under `identity`'s
/// current key. Fails when the key is not 32 bytes or when the vault does
/// not hold the identity's current signing secret.
pub fn attest_purpose_key(
    identity: &Identity,
    vault: &SoftwareVault,
    purpose: Purpose,
    public_key: &Vec<u8>,
) -> (r: Result<PurposeKeyAttestation, IdentityError>)
    requires
        identity.wf(),
        vault.wf(),
    ensures
        r is Ok <==> (public_key@.len() == 32 && vault.has_key(
            identity@[identity@.len() - 1].public_key,
        )),
        r matches Ok(a) ==> a@.subject == identity.spec_identifier() && a@.purpose == purpose
            && a@.public_key == public_key@ && attestation_wf(a@) && attestation_valid(
            a@,
            identity@,
        ),
        r matches Err(e) ==> e == IdentityError::AttestError,
{
    if public_key.len() != 32 {
        return Err(IdentityError::AttestError);
    }
    let current = identity.current_public_key();
    let subject = identity.identifier();
    let msg = attestation_message_bytes(&subject.bytes, purpose, public_key);
    match vault.sign(&current, &msg) {
        Some(signature) => Ok(
            PurposeKeyAttestation {
                subject,
                purpose,
                public_key: copy_bytes(public_key),
                signature,
            },
        ),
        None => Err(IdentityError::AttestError),
    }
}

/// Verify an attestation against the claimed identity: the subject must be
/// that identity's handle (and the caller's expected handle, when one is
/// supplied), and the signature must verify under the identity's current
/// key. Returns the attested public key.
pub fn verify_purpose_key_attestation(
    expected: Option<&Identifier>,
    identity: &Identity,
    attestation: &PurposeKeyAttestation,
) -> (r: Result<Vec<u8>, IdentityError>)
    requires
        identity.wf(),
    ensures
        r is Ok <==> (attestation_valid(attestation@, identity@) && (expected matches Some(e)
            ==> e@ == attestation@.subject)),
        r matches Ok(k) ==> k@ == attestation@.public_key,
        r matches Err(e) ==> e == IdentityError::AttestError
            || e == IdentityError::InvalidIdentifier,
        r matches Err(e) && e == IdentityError::InvalidIdentifier ==> !(expected matches Some(x)
            ==> x@ == attestation@.subject),
{
    match expected {
        Some(e) => {
            if !e.equals(&attestation.subject) {
                return Err(IdentityError::InvalidIdentifier);
            }
        },
        None => {},
    }
    let genesis = identity.identifier();
    if !genesis.equals(&attestation.subject) {
        return Err(IdentityError::AttestError);
    }
    let current = identity.current_public_key();
    let msg = attestation_message_bytes(
        &attestation.subject.bytes,
        attestation.purpose,
        &attestation.public_key,
    );
    if crate::crypto::verify_signature(&current, &msg, &attestation.signature) {
        Ok(copy_bytes(&attestation.public_key))
    } else {
        Err(IdentityError::AttestError)
    }
}

/// The fixed-width wire form of an attestation: subject, purpose tag,
/// attested key, signature.
pub open spec fn attestation_bytes(a: AttestationV) -> Seq<u8> {
    a.subject + seq![purpose_tag(a.purpose)] + a.public_key + a.signature
}

/// The attestation encoded in a byte blob, when it is well-formed.
pub open spec fn parse_attestation(bs: Seq<u8>) -> Option<AttestationV> {
    if bs.len() != 129 || (bs[32] != 1u8 && bs[32] != 2u8) {
        None
    } else {
        Some(
            AttestationV {
                subject: bs.subrange(0, 32),
                purpose: if bs[32] == 1u8 {
                    Purpose::SecureChannel
                } else {
                    Purpose::CredentialSigning
                },
                public_key: bs.subrange(33, 65),
                signature: bs.subrange(65, 129),
            },
        )
    }
}

/// Round trip of the attestation wire format.
pub proof fn lemma_attestation_parses_back(a: AttestationV)
    requires
        attestation_wf(a),
    ensures
        parse_attestation(attestation_bytes(a)) == Some(a),
{
    let bs = attestation_bytes(a);
    assert(bs.len() == 129);
    assert(bs[32] == purpose_tag(a.purpose));
    assert(bs.subrange(0, 32) =~= a.subject);
    assert(bs.subrange(33, 65) =~= a.public_key);
    assert(bs.subrange(65, 129) =~= a.signature);
}

/// Encode an attestation for transport.
pub fn encode_attestation(a: &PurposeKeyAttestation) -> (r: Vec<u8>)
    requires
        attestation_wf(a@),
    ensures
        r@ == attestation_bytes(a@),
{
    let mut out: Vec<u8> = Vec::new();
    push_all(&mut out, &a.subject.bytes);
    let tag: u8 = match a.purpose {
        Purpose::SecureChannel => 1u8,
        Purpose::CredentialSigning => 2u8,
    };
    out.push(tag);
    push_all(&mut out, &a.public_key);
    push_all(&mut out, &a.signature);
    proof {
        assert(out@ =~= attestation_bytes(a@));
    }
    out
}

/// Decode an attestation. Succeeds exactly on well-formed encodings; decode
/// failures are distinguished from verification failures.
pub fn decode_attestation(bytes: &Vec<u8>) -> (r: Result<PurposeKeyAttestation, IdentityError>)
    ensures
        r is Ok <==> parse_attestation(bytes@) is Some,
        r matches Ok(a) ==> Some(a@) == parse_attestation(bytes@) && attestation_wf(a@),
        r matches Err(e) ==> e == IdentityError::AttestationDecodeError,
{
    if bytes.len() != 129 {
        return Err(IdentityError::AttestationDecodeError);
    }
    let tag = bytes[32];
    if tag != 1u8 && tag != 2u8 {
        return Err(IdentityError::AttestationDecodeError);
    }
    let subject_bytes = crate::bytes::sub_bytes(bytes, 0, 32);
    let public_key = crate::bytes::sub_bytes(bytes, 33, 32);
    let signature = crate::bytes::sub_bytes(bytes, 65, 64);
    let purpose = if tag == 1u8 {
        Purpose::SecureChannel
    } else {
        Purpose::CredentialSigning
    };
    let a = PurposeKeyAttestation {
        subject: Identifier { bytes: subject_bytes },
        purpose,
        public_key,
        signature,
    };
    proof {
        assert(a@.subject =~= bytes@.subrange(0, 32));
        assert(a@.public_key =~= bytes@.subrange(33, 65));
        assert(a@.signature =~= bytes@.subrange(65, 129));
    }
    Ok(a)
}

} // verus!
