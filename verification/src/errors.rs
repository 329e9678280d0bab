//! Error kinds surfaced by the identity, credential and session layers.
use vstd::prelude::*;

verus! {

/// The failure kinds of the trust layer. Cryptographic and decoding failures
/// are terminal for a call and are reported with a specific kind so that the
/// caller can decide what to do next.
#[derive(Clone, Copy, Debug, PartialEq, Eq, Structural)]
pub enum IdentityError {
    /// A textual identifier could not be parsed, or did not match the one
    /// that the caller expected.
    InvalidIdentifier,
    /// An exported identity could not be decoded or its rotation chain could
    /// not be verified.
    IdentityImportError,
    /// A purpose key could not be attested: the identity is unknown or
    /// signing failed.
    AttestError,
    /// A purpose key attestation did not match the caller's expectation.
    InvalidAttestation,
    /// The purpose of an attested key is not one the caller understands.
    PurposeKeyTypeNotSupported,
    /// A purpose key attestation could not be encoded.
    AttestationEncodeError,
    /// A purpose key attestation could not be decoded.
    AttestationDecodeError,
    /// A credential could not be issued.
    CredentialIssuingError,
    /// A credential bundle could not be encoded.
    CredentialEncodeError,
    /// A credential bundle could not be decoded.
    CredentialDecodeError,
    /// A credential failed verification: untrusted issuer, bad signature,
    /// wrong subject, or expired.
    CredentialVerificationFailed,
    /// An attribute name or value is not valid UTF-8.
    Utf8Error,
    /// A signing secret has the wrong shape.
    InvalidSecret,
    /// No vault backend is configured.
    NoVaultConfigured,
    /// The trust layer has not been initialized yet.
    InvalidState,
    /// A remote operation did not answer in time.
    Timeout,
}

} // verus!
