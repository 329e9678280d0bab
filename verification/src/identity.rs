//! Identities: a linear, append-only log of key-rotation events, each
//! signed by the key before it, with the genesis event self-signed. The
//! identity's handle is derived from the genesis key, and an identity can be
//! exported as a versioned byte blob and re-imported, which replays and
//! verifies the whole chain.
use vstd::prelude::*;
use crate::bytes::{bytes_eq, copy_bytes, push_all, sub_bytes};
use crate::crypto::ed25519_verify;
use crate::errors::IdentityError;
use crate::identifier::Identifier;
use crate::vault::SoftwareVault;

verus! {

/// The most rotation events one identity may accumulate: the export format
/// stores the event count in one byte, so a chain longer than this cannot
/// be exported, and `rotate_key` refuses to grow one past it.
pub const MAX_EVENTS: usize = 255;

/// One key-rotation event: a new verifying key, signed by the key of the
/// previous event (the genesis event is signed by its own key).
#[derive(Debug)]
pub struct ChangeEvent {
    pub public_key: Vec<u8>,
    pub signature: Vec<u8>,
}

pub ghost struct EventV {
    pub public_key: Seq<u8>,
    pub signature: Seq<u8>,
}

impl View for ChangeEvent {
    type V = EventV;

    open spec fn view(&self) -> EventV {
        EventV { public_key: self.public_key@, signature: self.signature@ }
    }
}

/// A well-shaped event: an Ed25519 verifying key and signature.
pub open spec fn event_wf(e: EventV) -> bool {
    e.public_key.len() == 32 && e.signature.len() == 64
}

/// A verified rotation chain: at least one event, every signature checks
/// against the key of the event before it, and the genesis is self-signed.
pub open spec fn chain_ok(events: Seq<EventV>) -> bool {
    &&& 1 <= events.len() <= MAX_EVENTS
    &&& forall|i: int| 0 <= i < events.len() ==> event_wf(#[trigger] events[i])
    &&& ed25519_verify(events[0].public_key, events[0].public_key, events[0].signature)
    &&& forall|i: int|
        1 <= i < events.len() ==> ed25519_verify(
            events[i - 1].public_key,
            (#[trigger] events[i]).public_key,
            events[i].signature,
        )
}

/// An identity: its rotation-event log. The current signing key is the key
/// of the last event.
#[derive(Debug)]
pub struct Identity {
    pub events: Vec<ChangeEvent>,
}

impl View for Identity {
    type V = Seq<EventV>;

    open spec fn view(&self) -> Seq<EventV> {
        self.events@.map(|i: int, e: ChangeEvent| e@)
    }
}

/// The byte form of a run of events: key then signature, event by event.
pub open spec fn events_bytes(events: Seq<EventV>) -> Seq<u8>
    decreases events.len(),
{
    if events.len() == 0 {
        Seq::empty()
    } else {
        events[0].public_key + events[0].signature + events_bytes(events.drop_first())
    }
}

/// The export format: a version byte, the event count, then the events.
pub open spec fn export_bytes(events: Seq<EventV>) -> Seq<u8> {
    seq![1u8, events.len() as u8] + events_bytes(events)
}

/// The events encoded in an exported blob, when it is well-formed.
pub open spec fn parse_events(bs: Seq<u8>) -> Option<Seq<EventV>> {
    if bs.len() < 2 || bs[0] != 1u8 || bs[1] < 1 || bs.len() != 2 + 96 * (bs[1] as int) {
        None
    } else {
        Some(
            Seq::new(
                bs[1] as nat,
                |i: int| EventV {
                    public_key: bs.subrange(2 + 96 * i, 2 + 96 * i + 32),
                    signature: bs.subrange(2 + 96 * i + 32, 2 + 96 * i + 96),
                },
            ),
        )
    }
}

proof fn lemma_events_bytes_concat(a: Seq<EventV>, b: Seq<EventV>)
    ensures
        events_bytes(a + b) == events_bytes(a) + events_bytes(b),
    decreases a.len(),
{
    if a.len() == 0 {
        assert(a + b =~= b);
        assert(events_bytes(a) + events_bytes(b) =~= events_bytes(b));
    } else {
        assert((a + b).drop_first() =~= a.drop_first() + b);
        lemma_events_bytes_concat(a.drop_first(), b);
        assert(events_bytes(a + b) =~= events_bytes(a) + events_bytes(b));
    }
}

proof fn lemma_events_bytes_shape(events: Seq<EventV>)
    requires
        forall|i: int| 0 <= i < events.len() ==> event_wf(#[trigger] events[i]),
    ensures
        events_bytes(events).len() == 96 * events.len(),
        forall|i: int|
            0 <= i < events.len() ==> events_bytes(events).subrange(96 * i, 96 * i + 32)
                == (#[trigger] events[i]).public_key && events_bytes(events).subrange(
                96 * i + 32,
                96 * i + 96,
            ) == events[i].signature,
    decreases events.len(),
{
    if events.len() != 0 {
        lemma_events_bytes_shape(events.drop_first());
        let bs = events_bytes(events);
        let rest = events_bytes(events.drop_first());
        assert(bs =~= events[0].public_key + events[0].signature + rest);
        assert forall|i: int|
            0 <= i < events.len() implies bs.subrange(96 * i, 96 * i + 32) == (
        #[trigger] events[i]).public_key && bs.subrange(96 * i + 32, 96 * i + 96)
            == events[i].signature by {
            if i == 0 {
                assert(bs.subrange(0, 32) =~= events[0].public_key);
                assert(bs.subrange(32, 96) =~= events[0].signature);
            } else {
                let j = i - 1;
                assert(events.drop_first()[j] == events[i]);
                assert(rest.subrange(96 * j, 96 * j + 32) == events[i].public_key);
                assert(rest.subrange(96 * j + 32, 96 * j + 96) == events[i].signature);
                assert(bs.subrange(96 * i, 96 * i + 32) =~= rest.subrange(96 * j, 96 * j + 32));
                assert(bs.subrange(96 * i + 32, 96 * i + 96) =~= rest.subrange(
                    96 * j + 32,
                    96 * j + 96,
                ));
            }
        }
    }
}

/// Round trip of the export format: a well-formed chain's export parses back
/// to exactly the same events, so an identity exported and re-imported keeps
/// its identifier.
pub proof fn lemma_export_parses_back(events: Seq<EventV>)
    requires
        1 <= events.len() <= MAX_EVENTS,
        forall|i: int| 0 <= i < events.len() ==> event_wf(#[trigger] events[i]),
    ensures
        parse_events(export_bytes(events)) == Some(events),
{
    let bs = export_bytes(events);
    lemma_events_bytes_shape(events);
    assert(bs[0] == 1u8 && bs[1] == events.len() as u8);
    assert(bs.len() == 2 + 96 * events.len());
    let parsed = parse_events(bs).unwrap();
    assert forall|i: int| 0 <= i < events.len() implies parsed[i] == events[i] by {
        assert(bs.subrange(2 + 96 * i, 2 + 96 * i + 32) =~= events_bytes(events).subrange(
            96 * i,
            96 * i + 32,
        ));
        assert(bs.subrange(2 + 96 * i + 32, 2 + 96 * i + 96) =~= events_bytes(events).subrange(
            96 * i + 32,
            96 * i + 96,
        ));
    }
    assert(parsed =~= events);
}

impl Identity {
    /// A valid identity carries a verified rotation chain.
    pub open spec fn wf(self) -> bool {
        chain_ok(self@)
    }

    /// The identifier: the genesis verifying key.
    pub open spec fn spec_identifier(self) -> Seq<u8> {
        self@[0].public_key
    }

    /// The handle derived from the genesis key.
    pub fn identifier(&self) -> (r: Identifier)
        requires
            self.wf(),
        ensures
            r@ == self.spec_identifier(),
            r.wf(),
    {
        Identifier { bytes: copy_bytes(&self.events[0].public_key) }
    }

    /// The identity's current verifying key: the key of the last event.
    pub fn current_public_key(&self) -> (r: Vec<u8>)
        requires
            self.wf(),
        ensures
            r@ == self@[self@.len() - 1].public_key,
    {
        copy_bytes(&self.events[self.events.len() - 1].public_key)
    }

    /// Export the identity as a versioned byte blob holding the whole
    /// rotation history.
    pub fn export(&self) -> (r: Vec<u8>)
        requires
            self.wf(),
        ensures
            r@ == export_bytes(self@),
    {
        let n = self.events.len();
        let mut out: Vec<u8> = Vec::new();
        out.push(1u8);
        out.push(n as u8);
        assert(out@ =~= seq![1u8, self@.len() as u8]);
        let mut i: usize = 0;
        while i < n
            invariant
                i <= n,
                n == self@.len(),
                self.wf(),
                out@ == seq![1u8, self@.len() as u8] + events_bytes(self@.take(i as int)),
            decreases n - i,
        {
            push_all(&mut out, &self.events[i].public_key);
            push_all(&mut out, &self.events[i].signature);
            proof {
                lemma_events_bytes_concat(self@.take(i as int), seq![self@[i as int]]);
                assert(self@.take(i + 1) =~= self@.take(i as int) + seq![self@[i as int]]);
                assert(seq![self@[i as int]].drop_first() =~= Seq::<EventV>::empty());
                assert(events_bytes(Seq::<EventV>::empty()) =~= Seq::<u8>::empty());
                assert(events_bytes(seq![self@[i as int]]) =~= self@[i as int].public_key
                    + self@[i as int].signature);
                assert(out@ =~= seq![1u8, self@.len() as u8] + events_bytes(self@.take(i + 1)));
            }
            i += 1;
        }
        proof {
            assert(self@.take(self@.len() as int) =~= self@);
        }
        out
    }

    /// Decode an exported blob without checking signatures. Succeeds exactly
    /// on well-formed encodings.
    fn decode(bytes: &Vec<u8>) -> (r: Option<Identity>)
        ensures
            r is Some <==> parse_events(bytes@) is Some,
            r matches Some(id) ==> Some(id@) == parse_events(bytes@),
    {
        if bytes.len() < 2 || bytes[0] != 1u8 {
            return None;
        }
        let n = bytes[1] as usize;
        if n < 1 {
            return None;
        }
        if bytes.len() != 2 + 96 * n {
            return None;
        }
        let ghost parsed = parse_events(bytes@).unwrap();
        let mut events: Vec<ChangeEvent> = Vec::new();
        let mut i: usize = 0;
        while i < n
            invariant
                i <= n,
                n == bytes@[1] as int,
                bytes@.len() == 2 + 96 * n,
                parse_events(bytes@) == Some(parsed),
                parsed.len() == n,
                events@.len() == i,
                forall|j: int|
                    0 <= j < i ==> (#[trigger] events@[j])@ == parsed[j],
            decreases n - i,
        {
            let public_key = sub_bytes(bytes, 2 + 96 * i, 32);
            let signature = sub_bytes(bytes, 2 + 96 * i + 32, 64);
            events.push(ChangeEvent { public_key, signature });
            proof {
                assert(parsed[i as int].public_key =~= bytes@.subrange(
                    2 + 96 * (i as int),
                    2 + 96 * (i as int) + 32,
                ));
                assert(parsed[i as int].signature =~= bytes@.subrange(
                    2 + 96 * (i as int) + 32,
                    2 + 96 * (i as int) + 96,
                ));
                assert(bytes@.subrange(2 + 96 * (i as int) + 32, 2 + 96 * (i as int) + 96)
                    =~= bytes@.subrange(
                    (2 + 96 * i + 32) as int,
                    (2 + 96 * i + 32) as int + 64,
                ));
            }
            i += 1;
        }
        let id = Identity { events };
        proof {
            assert(id@ =~= parsed);
        }
        Some(id)
    }

    /// Import an identity from an exported blob: decode it, replay and
    /// verify the rotation chain, and, when an expected identifier is given,
    /// require the derived identifier to match it exactly.
    pub fn import(expected: Option<&Identifier>, bytes: &Vec<u8>) -> (r: Result<
        Identity,
        IdentityError,
    >)
        ensures
            r is Ok <==> (parse_events(bytes@) matches Some(ev) && chain_ok(ev) && (
            expected matches Some(e) ==> ev[0].public_key == e@)),
            r matches Ok(id) ==> Some(id@) == parse_events(bytes@) && id.wf() && (
            expected matches Some(e) ==> id.spec_identifier() == e@),
            r matches Err(e) ==> (e == IdentityError::InvalidIdentifier || e
                == IdentityError::IdentityImportError),
            r matches Err(e) && e == IdentityError::InvalidIdentifier ==> (parse_events(bytes@)
                matches Some(ev) && chain_ok(ev)),
    {
        let decoded = Self::decode(bytes);
        match decoded {
            None => Err(IdentityError::IdentityImportError),
            Some(id) => {
                if !id.verify_chain() {
                    return Err(IdentityError::IdentityImportError);
                }
                match expected {
                    Some(e) => {
                        if bytes_eq(&id.events[0].public_key, &e.bytes) {
                            Ok(id)
                        } else {
                            Err(IdentityError::InvalidIdentifier)
                        }
                    },
                    None => Ok(id),
                }
            },
        }
    }

    /// Replay the rotation chain and check every signature.
    fn verify_chain(&self) -> (r: bool)
        ensures
            r == chain_ok(self@),
    {
        let n = self.events.len();
        if n < 1 || n > MAX_EVENTS {
            return false;
        }
        let mut i: usize = 0;
        while i < n
            invariant
                i <= n,
                n == self@.len(),
                forall|j: int| 0 <= j < i ==> event_wf(#[trigger] self@[j]),
            decreases n - i,
        {
            if self.events[i].public_key.len() != 32 || self.events[i].signature.len() != 64 {
                proof {
                    assert(self@[i as int] == self.events@[i as int]@);
                    assert(!event_wf(self@[i as int]));
                }
                return false;
            }
            i += 1;
        }
        if !crate::crypto::verify_signature(
            &self.events[0].public_key,
            &self.events[0].public_key,
            &self.events[0].signature,
        ) {
            return false;
        }
        let mut i: usize = 1;
        while i < n
            invariant
                1 <= i <= n,
                n == self@.len(),
                forall|j: int| 0 <= j < n ==> event_wf(#[trigger] self@[j]),
                ed25519_verify(self@[0].public_key, self@[0].public_key, self@[0].signature),
                forall|j: int|
                    1 <= j < i ==> ed25519_verify(
                        self@[j - 1].public_key,
                        (#[trigger] self@[j]).public_key,
                        self@[j].signature,
                    ),
            decreases n - i,
        {
            if !crate::crypto::verify_signature(
                &self.events[i - 1].public_key,
                &self.events[i].public_key,
                &self.events[i].signature,
            ) {
                proof {
                    assert(self@[i as int] == self.events@[i as int]@);
                    assert(self@[i as int - 1] == self.events@[i as int - 1]@);
                    assert(!ed25519_verify(
                        self@[i as int - 1].public_key,
                        self@[i as int].public_key,
                        self@[i as int].signature,
                    ));
                }
                return false;
            }
            i += 1;
        }
        true
    }

    /// Create a fresh identity: generate a genesis signing key in the vault
    /// and self-sign the genesis event.
    pub fn create(vault: &mut SoftwareVault) -> (r: Identity)
        requires
            old(vault).wf(),
        ensures
            final(vault).wf(),
            crate::vault::vault_preserves(*old(vault), *final(vault)),
            r.wf(),
            r@.len() == 1,
            final(vault).has_key(r.spec_identifier()),
    {
        let public_key = vault.generate_key();
        let signature = match vault.sign(&public_key, &public_key) {
            Some(s) => s,
            None => {
                proof {
                    assert(false);
                }
                Vec::new()
            },
        };
        let id = Identity {
            events: vec![ChangeEvent { public_key, signature }],
        };
        proof {
            assert(id@.len() == 1);
            assert(chain_ok(id@));
        }
        id
    }

    /// Create an identity whose genesis event is bound to a signing key the
    /// vault already holds; fails as an import error when the vault does not
    /// hold it.
    pub fn create_with_existing_key(vault: &SoftwareVault, public_key: &Vec<u8>) -> (r: Result<
        Identity,
        IdentityError,
    >)
        requires
            vault.wf(),
        ensures
            r is Ok <==> vault.has_key(public_key@),
            r matches Ok(id) ==> id.wf() && id@.len() == 1 && id.spec_identifier() == public_key@,
            r matches Err(e) ==> e == IdentityError::IdentityImportError,
    {
        match vault.sign(public_key, public_key) {
            Some(signature) => {
                proof {
                    let j = choose|j: int|
                        0 <= j < vault@.len() && (#[trigger] vault@[j]).public_key == public_key@;
                    assert(vault@[j].public_key.len() == 32);
                }
                let id = Identity {
                    events: vec![
                        ChangeEvent { public_key: copy_bytes(public_key), signature },
                    ],
                };
                proof {
                    assert(id@.len() == 1);
                    assert(chain_ok(id@));
                }
                Ok(id)
            },
            None => Err(IdentityError::IdentityImportError),
        }
    }

    /// Rotate the identity's signing key: generate a new key in the vault
    /// and append an event for it, signed by the current key. The identifier
    /// never changes.
    pub fn rotate_key(&mut self, vault: &mut SoftwareVault) -> (r: Result<(), IdentityError>)
        requires
            old(self).wf(),
            old(vault).wf(),
        ensures
            final(vault).wf(),
            r is Ok <==> (old(self)@.len() < MAX_EVENTS && old(vault).has_key(
                old(self)@[old(self)@.len() - 1].public_key,
            )),
            r matches Err(e) ==> e == IdentityError::AttestError && *final(self) == *old(self),
            r is Ok ==> final(self).wf() && final(self)@.len() == old(self)@.len() + 1 && final(self)@.take(old(self)@.len() as int) == old(self)@ && final(self).spec_identifier() == old(self).spec_identifier() && final(vault).has_key(
                final(self)@[final(self)@.len() - 1].public_key,
            ),
    {
        if self.events.len() >= MAX_EVENTS {
            return Err(IdentityError::AttestError);
        }
        let current = self.current_public_key();
        if !vault.contains_key(&current) {
            return Err(IdentityError::AttestError);
        }
        let ghost pre = *self;
        let new_key = vault.generate_key();
        let signature = match vault.sign(&current, &new_key) {
            Some(s) => s,
            None => {
                proof {
                    assert(false);
                }
                Vec::new()
            },
        };
        self.events.push(ChangeEvent { public_key: new_key, signature });
        proof {
            assert(self@ =~= pre@ + seq![
                EventV {
                    public_key: self@[self@.len() - 1].public_key,
                    signature: self@[self@.len() - 1].signature,
                },
            ]);
            assert(self@.take(pre@.len() as int) =~= pre@);
            assert(chain_ok(self@)) by {
                assert(forall|j: int| 0 <= j < pre@.len() ==> self@[j] == pre@[j]);
                assert(event_wf(self@[self@.len() - 1]));
                assert(ed25519_verify(
                    self@[self@.len() - 2].public_key,
                    self@[self@.len() - 1].public_key,
                    self@[self@.len() - 1].signature,
                ));
            }
        }
        Ok(())
    }
}

} // verus!
