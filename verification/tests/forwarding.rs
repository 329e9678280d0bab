//! Session-gated forwarding behaviour and the credential retrievers.
use ockly::credential;
use ockly::errors::IdentityError;
use ockly::identity::Identity;
use ockly::relay::{ForwardingService, LocalMessage, Route};
use ockly::retriever::{
    CredentialsMemoryRetriever, CredentialsRetriever, RemoteCredentialsRetrieverInfo,
    RetrieveAction, RetrieveEvent, RetrieveState,
};
use ockly::session::{Address, SessionId, SessionPolicy, Sessions};
use ockly::vault::SoftwareVault;

fn message(route: Vec<Address>, payload: &str, session: Option<SessionId>) -> LocalMessage {
    LocalMessage {
        onward_route: Route { hops: route },
        payload: payload.as_bytes().to_vec(),
        producer_session: session,
    }
}

#[test]
fn forwarder_echo_without_sessions() {
    // A relay in front of an echoer, with no session requirement: the
    // payload comes back unchanged through the relay address.
    let mut service = ForwardingService::new();
    let mut sessions = Sessions::new();
    let relay_addr = service.create_forwarder(&mut sessions, &Route { hops: vec![] }, None);
    let m = message(
        vec![relay_addr, Address::from_string("echoer")],
        "Hello",
        None,
    );
    let forwarded = service.handle_message(&sessions, &m).expect("delivered");
    assert_eq!(forwarded.onward_route.hops.len(), 1);
    assert_eq!(forwarded.onward_route.hops[0].bytes, b"echoer".to_vec());
    // The echoer sends the payload back as it came.
    let echoed = forwarded.payload.clone();
    assert_eq!(echoed, b"Hello".to_vec());
}

#[test]
fn session_admission_requires_registration() {
    // A relay created as consumer and producer for a session: a message
    // forwarded to a not-yet-registered address is dropped; after the
    // address is registered under the shared session id, the same message
    // is delivered with its body unchanged.
    let mut service = ForwardingService::new();
    let mut sessions = Sessions::new();
    let sid = sessions.generate_session_id();
    let relay_addr =
        service.create_forwarder(&mut sessions, &Route { hops: vec![] }, Some(&sid));
    let m = message(
        vec![relay_addr.duplicate(), Address::from_string("ctx")],
        "Hello",
        None,
    );
    assert!(
        service.handle_message(&sessions, &m).is_none(),
        "Should not pass outgoing access control"
    );
    sessions.add_consumer(
        &Address::from_string("ctx"),
        &sid,
        SessionPolicy::ProducerAllowMultiple,
    );
    let m2 = message(
        vec![relay_addr, Address::from_string("ctx")],
        "Hello",
        None,
    );
    let delivered = service.handle_message(&sessions, &m2).expect("delivered");
    assert_eq!(delivered.payload, b"Hello".to_vec());
    assert_eq!(delivered.producer_session, Some(sid));
}

#[test]
fn unknown_relay_address_drops() {
    let service = ForwardingService::new();
    let sessions = Sessions::new();
    let m = message(vec![Address::from_string("nowhere")], "Hello", None);
    assert!(service.handle_message(&sessions, &m).is_none());
}

#[test]
fn relay_addresses_are_fresh() {
    let mut service = ForwardingService::new();
    let mut sessions = Sessions::new();
    let a = service.create_forwarder(&mut sessions, &Route { hops: vec![] }, None);
    let b = service.create_forwarder(&mut sessions, &Route { hops: vec![] }, None);
    assert_ne!(a.bytes, b.bytes);
}

#[test]
fn add_consumer_is_idempotent() {
    let mut sessions = Sessions::new();
    let sid = SessionId { val: 7 };
    let addr = Address::from_string("echoer");
    sessions.add_consumer(&addr, &sid, SessionPolicy::ProducerAllowMultiple);
    sessions.add_consumer(&addr, &sid, SessionPolicy::ProducerAllowMultiple);
    assert!(sessions.contains_consumer(&addr, &sid));
    assert_eq!(sessions.consumers.len(), 1);
    assert!(!sessions.contains_consumer(&addr, &SessionId { val: 8 }));
}

fn sample_bundle() -> credential::CredentialAndPurposeKey {
    let mut vault = SoftwareVault::new();
    let issuer = Identity::create(&mut vault);
    let subject = Identity::create(&mut vault);
    credential::issue_credential(
        &issuer,
        &mut vault,
        &subject.identifier(),
        vec![credential::Attribute {
            name: b"city".to_vec(),
            value: b"Berlin".to_vec(),
        }],
        0,
        1_000,
        300,
    )
    .unwrap()
}

#[test]
fn memory_retriever_returns_stored_bundle() {
    let bundle = sample_bundle();
    let expected = credential::encode_bundle(&bundle).unwrap();
    let retriever = CredentialsMemoryRetriever::new(bundle);
    let mut vault = SoftwareVault::new();
    let asker = Identity::create(&mut vault);
    let got = retriever.retrieve(&asker.identifier()).unwrap();
    assert_eq!(credential::encode_bundle(&got).unwrap(), expected);
}

#[test]
fn remote_retrieval_tears_down_after_response() {
    let mut vault = SoftwareVault::new();
    let issuer = Identity::create(&mut vault);
    let info = RemoteCredentialsRetrieverInfo::new(
        issuer.identifier(),
        Route {
            hops: vec![Address::from_string("tcp-hop")],
        },
        Address::from_string("credential_issuer"),
    );
    let bundle = sample_bundle();
    let expected = credential::encode_bundle(&bundle).unwrap();
    let mut vault2 = SoftwareVault::new();
    let asker = Identity::create(&mut vault2);
    let local = asker.identifier();

    let (s, a) =
        ockly::retriever::retrieve_step(&info, &local, RetrieveState::Start, RetrieveEvent::Started);
    assert!(matches!(a, RetrieveAction::ResolveRoute));
    let (s, a) = ockly::retriever::retrieve_step(
        &info,
        &local,
        s,
        RetrieveEvent::RouteResolved {
            route: Route {
                hops: vec![Address::from_string("tcp-hop")],
            },
            transport_address: Some(Address::from_string("tcp-conn")),
        },
    );
    match a {
        RetrieveAction::Ask {
            issuer: peer,
            service_address,
            for_identity,
        } => {
            assert!(peer.equals(&issuer.identifier()));
            assert_eq!(service_address.bytes, b"credential_issuer".to_vec());
            assert!(for_identity.equals(&local));
        }
        _ => panic!("expected the single ask"),
    }
    let (s, a) = ockly::retriever::retrieve_step(
        &info,
        &local,
        s,
        RetrieveEvent::Response {
            outcome: Ok(bundle),
        },
    );
    // The teardown is ordered before the retrieval finishes, whatever the
    // outcome was.
    match a {
        RetrieveAction::Disconnect { transport_address } => {
            assert_eq!(transport_address.bytes, b"tcp-conn".to_vec());
        }
        _ => panic!("expected a disconnect"),
    }
    let (s, a) = ockly::retriever::retrieve_step(&info, &local, s, RetrieveEvent::Disconnected);
    assert!(matches!(a, RetrieveAction::Finish));
    match s {
        RetrieveState::Done { outcome } => {
            let got = outcome.unwrap();
            assert_eq!(credential::encode_bundle(&got).unwrap(), expected);
        }
        _ => panic!("expected the retrieval to be over"),
    }
}

#[test]
fn remote_retrieval_timeout_surfaces_timeout_error() {
    let mut vault = SoftwareVault::new();
    let issuer = Identity::create(&mut vault);
    let info = RemoteCredentialsRetrieverInfo::new(
        issuer.identifier(),
        Route { hops: vec![] },
        Address::from_string("credential_issuer"),
    );
    let mut vault2 = SoftwareVault::new();
    let local = Identity::create(&mut vault2).identifier();
    let (s, _) =
        ockly::retriever::retrieve_step(&info, &local, RetrieveState::Start, RetrieveEvent::Started);
    let (s, _) = ockly::retriever::retrieve_step(
        &info,
        &local,
        s,
        RetrieveEvent::RouteResolved {
            route: Route { hops: vec![] },
            transport_address: None,
        },
    );
    let (s, a) = ockly::retriever::retrieve_step(&info, &local, s, RetrieveEvent::TimedOut);
    assert!(matches!(a, RetrieveAction::Finish));
    match s {
        RetrieveState::Done { outcome } => {
            assert_eq!(outcome.unwrap_err(), IdentityError::Timeout);
        }
        _ => panic!("expected the retrieval to be over"),
    }
}
