//! Credential retrievers: one capability, `retrieve`, with two sources. The
//! memory variant hands out a pre-loaded bundle and never fails once
//! constructed. The remote variant talks to an issuer over an authenticated
//! channel; its decisions are the step function here, while the outside work
//! (resolving, asking, disconnecting) is performed by the surrounding host
//! between steps.
use vstd::prelude::*;
use crate::credential::CredentialAndPurposeKey;
use crate::errors::IdentityError;
use crate::identifier::Identifier;
use crate::relay::Route;
use crate::session::Address;

verus! {

/// The one capability of a credential retriever.
pub trait CredentialsRetriever {
    /// Retrieve a credential for an identity.
    fn retrieve(&self, for_identity: &Identifier) -> Result<
        CredentialAndPurposeKey,
        IdentityError,
    >;
}

/// Credentials retriever that retrieves a credential from memory.
pub struct CredentialsMemoryRetriever {
    pub credential_and_purpose_key: CredentialAndPurposeKey,
}

impl CredentialsMemoryRetriever {
    /// Create a new CredentialsMemoryRetriever.
    pub fn new(credential_and_purpose_key: CredentialAndPurposeKey) -> (r:
        CredentialsMemoryRetriever)
        ensures
            r.credential_and_purpose_key@ == credential_and_purpose_key@,
    {
        CredentialsMemoryRetriever { credential_and_purpose_key }
    }

    /// The stored bundle, for any identity; never fails.
    pub fn retrieve_stored(&self, for_identity: &Identifier) -> (r: CredentialAndPurposeKey)
        ensures
            r@ == self.credential_and_purpose_key@,
    {
        let b = &self.credential_and_purpose_key;
        CredentialAndPurposeKey {
            credential: crate::credential::Credential {
                data: crate::credential::CredentialData {
                    subject: Identifier {
                        bytes: crate::bytes::copy_bytes(&b.credential.data.subject.bytes),
                    },
                    schema: b.credential.data.schema,
                    attributes: copy_attribute_list(&b.credential.data.attributes),
                    expires_at: b.credential.data.expires_at,
                },
                signature: crate::bytes::copy_bytes(&b.credential.signature),
            },
            purpose_key_attestation: crate::purpose_key::PurposeKeyAttestation {
                subject: Identifier {
                    bytes: crate::bytes::copy_bytes(&b.purpose_key_attestation.subject.bytes),
                },
                purpose: b.purpose_key_attestation.purpose,
                public_key: crate::bytes::copy_bytes(&b.purpose_key_attestation.public_key),
                signature: crate::bytes::copy_bytes(&b.purpose_key_attestation.signature),
            },
        }
    }
}

impl CredentialsRetriever for CredentialsMemoryRetriever {
    /// Retrieve a credential stored in memory.
    fn retrieve(&self, for_identity: &Identifier) -> Result<
        CredentialAndPurposeKey,
        IdentityError,
    > {
        Ok(self.retrieve_stored(for_identity))
    }
}

/// A copy of an attribute list.
fn copy_attribute_list(attrs: &Vec<crate::credential::Attribute>) -> (r: Vec<
    crate::credential::Attribute,
>)
    ensures
        r@.map(|i: int, a: crate::credential::Attribute| a@) == attrs@.map(
            |i: int, a: crate::credential::Attribute| a@,
        ),
{
    let mut out: Vec<crate::credential::Attribute> = Vec::new();
    let mut i: usize = 0;
    while i < attrs.len()
        invariant
            i <= attrs@.len(),
            out@.len() == i,
            forall|j: int| 0 <= j < i ==> (#[trigger] out@[j])@ == attrs@[j]@,
        decreases attrs@.len() - i,
    {
        out.push(
            crate::credential::Attribute {
                name: crate::bytes::copy_bytes(&attrs[i].name),
                value: crate::bytes::copy_bytes(&attrs[i].value),
            },
        );
        i += 1;
    }
    proof {
        assert(out@.map(|i: int, a: crate::credential::Attribute| a@) =~= attrs@.map(
            |i: int, a: crate::credential::Attribute| a@,
        ));
    }
    out
}

/// Information necessary to connect to a remote credential retriever.
pub struct RemoteCredentialsRetrieverInfo {
    /// Issuer identity, used to validate retrieved credentials.
    pub identifier: Identifier,
    /// Route used to establish a secure channel to the remote node.
    pub route: Route,
    /// Address of the credentials service on the remote node.
    pub service_address: Address,
}

impl RemoteCredentialsRetrieverInfo {
    /// Create new information for a credential retriever.
    pub fn new(identifier: Identifier, route: Route, service_address: Address) -> (r:
        RemoteCredentialsRetrieverInfo)
        ensures
            r.identifier@ == identifier@,
            r.route@ == route@,
            r.service_address@ == service_address@,
    {
        RemoteCredentialsRetrieverInfo { identifier, route, service_address }
    }
}

/// Where one remote retrieval stands.
pub enum RetrieveState {
    /// Nothing has happened yet.
    Start,
    /// The transport hop of the issuer's route is being resolved.
    Resolving,
    /// The single request is in flight over the authenticated channel.
    Asking { transport_address: Option<Address> },
    /// The connection is being torn down; the outcome is already fixed.
    Disconnecting { outcome: Result<CredentialAndPurposeKey, IdentityError> },
    /// The retrieval is over.
    Done { outcome: Result<CredentialAndPurposeKey, IdentityError> },
}

/// What the host reports back between steps.
pub enum RetrieveEvent {
    /// The retrieval was started.
    Started,
    /// The route was resolved; a transport connection may have been opened.
    RouteResolved { route: Route, transport_address: Option<Address> },
    /// The route could not be resolved.
    ResolveFailed { error: IdentityError },
    /// The issuer answered the request.
    Response { outcome: Result<CredentialAndPurposeKey, IdentityError> },
    /// The request did not answer in time.
    TimedOut,
    /// The transport connection was torn down.
    Disconnected,
}

/// What the host must do next.
pub enum RetrieveAction {
    /// Resolve the transport hop of the issuer's route.
    ResolveRoute,
    /// Open the client to the issuer's service, mutually authenticated
    /// with `for_identity` as the local identity and `issuer` as the
    /// expected peer, and send the one request.
    Ask { issuer: Identifier, service_address: Address, for_identity: Identifier },
    /// Tear down the transport connection.
    Disconnect { transport_address: Address },
    /// Nothing: the outcome stands.
    Finish,
}

/// One decision step of a remote retrieval, on behalf of `for_identity`.
/// Whatever the request's outcome, when a transport connection was opened
/// the teardown is ordered before the retrieval finishes; the outcome
/// itself is carried through teardown unchanged, a timeout surfaces as the
/// timeout error, and a resolution failure propagates unchanged.
pub fn retrieve_step(
    info: &RemoteCredentialsRetrieverInfo,
    for_identity: &Identifier,
    state: RetrieveState,
    event: RetrieveEvent,
) -> (r: (RetrieveState, RetrieveAction))
    ensures
        state is Start ==> r.0 is Resolving && r.1 is ResolveRoute,
        state is Resolving ==> (event matches RetrieveEvent::RouteResolved {
            route,
            transport_address,
        } ==> ({
            &&& r.0 == (RetrieveState::Asking { transport_address })
            &&& r.1 matches RetrieveAction::Ask { issuer, service_address, for_identity: local }
            &&& issuer@ == info.identifier@
            &&& service_address@ == info.service_address@
            &&& local@ == for_identity@
        })),
        state is Resolving ==> (event matches RetrieveEvent::ResolveFailed { error } ==> r.0 == (
        RetrieveState::Done { outcome: Err(error) }) && r.1 is Finish),
        state matches RetrieveState::Asking { transport_address: Some(a) } ==> ({
            &&& (event matches RetrieveEvent::Response { outcome } ==> r.0 == (
            RetrieveState::Disconnecting { outcome }) && r.1 == (RetrieveAction::Disconnect {
                transport_address: a,
            }))
            &&& (event is TimedOut ==> r.0 == (RetrieveState::Disconnecting {
                outcome: Err(IdentityError::Timeout),
            }) && r.1 == (RetrieveAction::Disconnect { transport_address: a }))
        }),
        state matches RetrieveState::Asking { transport_address: None } ==> ({
            &&& (event matches RetrieveEvent::Response { outcome } ==> r.0 == (
            RetrieveState::Done { outcome }) && r.1 is Finish)
            &&& (event is TimedOut ==> r.0 == (RetrieveState::Done {
                outcome: Err(IdentityError::Timeout),
            }) && r.1 is Finish)
        }),
        state matches RetrieveState::Disconnecting { outcome } ==> (event is Disconnected ==> r.0
            == (RetrieveState::Done { outcome }) && r.1 is Finish),
        state matches RetrieveState::Done { outcome } ==> r.0 == (RetrieveState::Done { outcome })
            && r.1 is Finish,
{
    match (state, event) {
        (RetrieveState::Start, _) => (RetrieveState::Resolving, RetrieveAction::ResolveRoute),
        (RetrieveState::Resolving, RetrieveEvent::RouteResolved { route, transport_address }) => (
            RetrieveState::Asking { transport_address },
            RetrieveAction::Ask {
                issuer: Identifier { bytes: crate::bytes::copy_bytes(&info.identifier.bytes) },
                service_address: info.service_address.duplicate(),
                for_identity: Identifier {
                    bytes: crate::bytes::copy_bytes(&for_identity.bytes),
                },
            },
        ),
        (RetrieveState::Resolving, RetrieveEvent::ResolveFailed { error }) => (
            RetrieveState::Done { outcome: Err(error) },
            RetrieveAction::Finish,
        ),
        (
            RetrieveState::Asking { transport_address: Some(a) },
            RetrieveEvent::Response { outcome },
        ) => (
            RetrieveState::Disconnecting { outcome },
            RetrieveAction::Disconnect { transport_address: a },
        ),
        (RetrieveState::Asking { transport_address: Some(a) }, RetrieveEvent::TimedOut) => (
            RetrieveState::Disconnecting { outcome: Err(IdentityError::Timeout) },
            RetrieveAction::Disconnect { transport_address: a },
        ),
        (RetrieveState::Asking { transport_address: None }, RetrieveEvent::Response { outcome }) => (
            RetrieveState::Done { outcome },
            RetrieveAction::Finish,
        ),
        (RetrieveState::Asking { transport_address: None }, RetrieveEvent::TimedOut) => (
            RetrieveState::Done { outcome: Err(IdentityError::Timeout) },
            RetrieveAction::Finish,
        ),
        (RetrieveState::Disconnecting { outcome }, RetrieveEvent::Disconnected) => (
            RetrieveState::Done { outcome },
            RetrieveAction::Finish,
        ),
        (RetrieveState::Done { outcome }, _) => (
            RetrieveState::Done { outcome },
            RetrieveAction::Finish,
        ),
        (RetrieveState::Resolving, _) => (
            RetrieveState::Done { outcome: Err(IdentityError::InvalidState) },
            RetrieveAction::Finish,
        ),
        (RetrieveState::Asking { transport_address: Some(a) }, _) => (
            RetrieveState::Disconnecting { outcome: Err(IdentityError::InvalidState) },
            RetrieveAction::Disconnect { transport_address: a },
        ),
        (RetrieveState::Asking { transport_address: None }, _) => (
            RetrieveState::Done { outcome: Err(IdentityError::InvalidState) },
            RetrieveAction::Finish,
        ),
        (RetrieveState::Disconnecting { outcome }, _) => (
            RetrieveState::Disconnecting { outcome },
            RetrieveAction::Finish,
        ),
    }
}

} // verus!
