//! The forwarding service: dynamically created relay addresses that
//! re-route messages to a recorded destination route, consulting the session
//! trust registry before anything is forwarded. An inadmissible message is
//! silently dropped, never reported to the sender.
use vstd::prelude::*;
use crate::bytes::{bytes_eq, lemma_u64_be_round_trip, push_u64_be, u64_be};
use crate::session::{Address, SessionId, SessionPolicy, Sessions};

verus! {

/// A route: the worker addresses a message still has to traverse.
pub struct Route {
    pub hops: Vec<Address>,
}

impl View for Route {
    type V = Seq<Seq<u8>>;

    open spec fn view(&self) -> Seq<Seq<u8>> {
        self.hops@.map(|i: int, a: Address| a@)
    }
}

impl Route {
    /// A copy of this route.
    pub fn duplicate(&self) -> (r: Route)
        ensures
            r@ == self@,
    {
        let mut hops: Vec<Address> = Vec::new();
        let mut i: usize = 0;
        while i < self.hops.len()
            invariant
                i <= self.hops@.len(),
                hops@.len() == i,
                forall|j: int| 0 <= j < i ==> (#[trigger] hops@[j])@ == self.hops@[j]@,
            decreases self.hops@.len() - i,
        {
            hops.push(self.hops[i].duplicate());
            i += 1;
        }
        let r = Route { hops };
        proof {
            assert(r@ =~= self@);
        }
        r
    }
}

/// A message in flight: where it still has to go, what it carries, and the
/// producer session it is tagged with, if any.
pub struct LocalMessage {
    pub onward_route: Route,
    pub payload: Vec<u8>,
    pub producer_session: Option<SessionId>,
}

pub ghost struct MessageV {
    pub onward: Seq<Seq<u8>>,
    pub payload: Seq<u8>,
    pub session: Option<u64>,
}

impl View for LocalMessage {
    type V = MessageV;

    open spec fn view(&self) -> MessageV {
        MessageV {
            onward: self.onward_route@,
            payload: self.payload@,
            session: match self.producer_session {
                Some(s) => Some(s.val),
                None => None,
            },
        }
    }
}

/// One relay: a dynamic address, the destination route it forwards to, and
/// the producer session its forwarded messages are tagged with, if any.
pub struct Relay {
    pub address: Address,
    pub destination: Route,
    pub producer_session: Option<SessionId>,
}

/// The byte form of the relay address allocated for counter value `k`.
pub open spec fn relay_address_bytes(k: u64) -> Seq<u8> {
    seq![0u8] + u64_be(k)
}

/// The forwarding service: its relays and the counter behind fresh relay
/// addresses.
pub struct ForwardingService {
    pub relays: Vec<Relay>,
    pub next_id: u64,
}

impl ForwardingService {
    /// Every relay address was allocated from a counter value below
    /// `next_id`, so the next allocation is fresh, and no two relays share
    /// an address.
    pub open spec fn wf(self) -> bool {
        &&& forall|i: int|
            0 <= i < self.relays@.len() ==> exists|k: u64|
                k < self.next_id && (#[trigger] self.relays@[i]).address@ == relay_address_bytes(k)
        &&& forall|i: int, j: int|
            0 <= i < j < self.relays@.len() ==> (#[trigger] self.relays@[i]).address@ != (
            #[trigger] self.relays@[j]).address@
    }

    /// An empty forwarding service.
    pub fn new() -> (r: ForwardingService)
        ensures
            r.wf(),
            r.relays@.len() == 0,
            r.next_id == 0,
    {
        ForwardingService { relays: Vec::new(), next_id: 0 }
    }

    /// Whether some relay listens on `address`.
    pub open spec fn has_relay(self, address: Seq<u8>) -> bool {
        exists|i: int|
            0 <= i < self.relays@.len() && (#[trigger] self.relays@[i]).address@ == address
    }

    /// The first relay listening on `address`.
    pub open spec fn relay_index(self, address: Seq<u8>) -> int {
        choose|i: int|
            0 <= i < self.relays@.len() && (#[trigger] self.relays@[i]).address@ == address
    }

    /// Allocate a fresh relay address, record the destination route for it,
    /// and register the supplied session options: a relay created as
    /// consumer and producer for a session is registered as a consumer on
    /// its own address and tags everything it forwards with that session.
    pub fn create_forwarder(
        &mut self,
        sessions: &mut Sessions,
        destination: &Route,
        options: Option<&SessionId>,
    ) -> (r: Address)
        requires
            old(self).wf(),
            old(self).next_id < u64::MAX,
        ensures
            final(self).wf(),
            r@ == relay_address_bytes(old(self).next_id),
            forall|i: int|
                0 <= i < old(self).relays@.len() ==> (#[trigger] old(self).relays@[i]).address@
                    != r@,
            final(self).relays@.len() == old(self).relays@.len() + 1,
            forall|i: int|
                0 <= i < old(self).relays@.len() ==> #[trigger] final(self).relays@[i] == old(
                    self,
                ).relays@[i],
            ({
                let added = final(self).relays@[final(self).relays@.len() - 1];
                &&& added.address@ == r@
                &&& added.destination@ == destination@
                &&& (match (added.producer_session, options) {
                    (Some(a), Some(b)) => a.val == b.val,
                    (None, None) => true,
                    _ => false,
                })
            }),
            forall|a: Seq<u8>, s: u64|
                #[trigger] final(sessions).is_consumer(a, s) <==> (old(sessions).is_consumer(a, s)
                    || (options matches Some(sid) && a == r@ && s == sid.val)),
    {
        let mut addr_bytes: Vec<u8> = Vec::new();
        addr_bytes.push(0u8);
        push_u64_be(&mut addr_bytes, self.next_id);
        let address = Address { bytes: addr_bytes };
        proof {
            assert(address@ =~= relay_address_bytes(self.next_id));
            assert forall|i: int|
                0 <= i < self.relays@.len() implies (#[trigger] self.relays@[i]).address@
                != address@ by {
                let k = choose|k: u64|
                    k < self.next_id && self.relays@[i].address@ == relay_address_bytes(k);
                lemma_u64_be_round_trip(k);
                lemma_u64_be_round_trip(self.next_id);
                if self.relays@[i].address@ == address@ {
                    assert(relay_address_bytes(k).subrange(1, 9) =~= u64_be(k));
                    assert(relay_address_bytes(self.next_id).subrange(1, 9) =~= u64_be(
                        self.next_id,
                    ));
                    assert(crate::bytes::be_val(u64_be(k)) == crate::bytes::be_val(u64_be(
                        self.next_id,
                    )));
                }
            }
        }
        let producer_session: Option<SessionId> = match options {
            Some(sid) => {
                sessions.add_consumer(&address, sid, SessionPolicy::ProducerAllowMultiple);
                Some(*sid)
            },
            None => {
                proof {
                    assert(forall|a: Seq<u8>, s: u64|
                        #[trigger] sessions.is_consumer(a, s) <==> old(sessions).is_consumer(
                            a,
                            s,
                        ));
                }
                None
            },
        };
        let ghost pre = *self;
        self.relays.push(
            Relay {
                address: address.duplicate(),
                destination: destination.duplicate(),
                producer_session,
            },
        );
        self.next_id = self.next_id + 1;
        proof {
            assert forall|i: int| 0 <= i < self.relays@.len() implies exists|k: u64|
                k < self.next_id && (#[trigger] self.relays@[i]).address@ == relay_address_bytes(
                    k,
                ) by {
                if i < pre.relays@.len() {
                    let k = choose|k: u64|
                        k < pre.next_id && pre.relays@[i].address@ == relay_address_bytes(k);
                    assert(k < self.next_id && self.relays@[i].address@ == relay_address_bytes(k));
                } else {
                    assert(self.relays@[i].address@ == relay_address_bytes(pre.next_id));
                }
            }
            assert forall|i: int, j: int|
                0 <= i < j < self.relays@.len() implies (#[trigger] self.relays@[i]).address@ != (
            #[trigger] self.relays@[j]).address@ by {
                if j == self.relays@.len() - 1 {
                    assert(pre.relays@[i].address@ != address@);
                }
            }
        }
        address
    }

    /// What the service does with a message addressed to `m.onward[0]`: when
    /// a relay listens there, the message is re-routed to the relay's
    /// destination followed by the rest of the onward route, tagged with the
    /// relay's producer session, and is delivered only where the session
    /// registry admits it. Everything else is dropped.
    pub open spec fn step_spec(self, sessions: Sessions, m: MessageV) -> Option<MessageV> {
        if m.onward.len() < 1 || !self.has_relay(m.onward[0]) {
            None
        } else {
            let rel = self.relays@[self.relay_index(m.onward[0])];
            let fwd = MessageV {
                onward: rel.destination@ + m.onward.drop_first(),
                payload: m.payload,
                session: match rel.producer_session {
                    Some(s) => Some(s.val),
                    None => None,
                },
            };
            if fwd.onward.len() >= 1 && sessions.admitted(fwd.onward[0], fwd.session) {
                Some(fwd)
            } else {
                None
            }
        }
    }

    /// Session enforcement: a message passes through a relay address only
    /// when the session registry admits its delivery onward, that is, when
    /// the relay carries no session constraint, or the next address is
    /// registered as a consumer under the relay's producer session; and
    /// whatever passes carries its payload unchanged.
    pub proof fn lemma_relay_enforces_admission(self, sessions: Sessions, m: MessageV)
        requires
            self.step_spec(sessions, m) is Some,
        ensures
            ({
                let fwd = self.step_spec(sessions, m).unwrap();
                &&& fwd.onward.len() >= 1
                &&& sessions.admitted(fwd.onward[0], fwd.session)
                &&& fwd.payload == m.payload
            }),
    {
    }

    /// Handle one message: forward it through the relay listening on its
    /// first hop, if the session registry admits the delivery; otherwise
    /// drop it silently.
    pub fn handle_message(&self, sessions: &Sessions, m: &LocalMessage) -> (r: Option<
        LocalMessage,
    >)
        requires
            self.wf(),
        ensures
            (match r {
                Some(fwd) => Some(fwd@),
                None => None,
            }) == self.step_spec(*sessions, m@),
            r matches Some(fwd) ==> fwd@.payload == m@.payload,
    {
        if m.onward_route.hops.len() < 1 {
            return None;
        }
        let target = &m.onward_route.hops[0];
        let mut i: usize = 0;
        let n = self.relays.len();
        let mut found: Option<usize> = None;
        while i < n && found.is_none()
            invariant
                i <= n,
                n == self.relays@.len(),
                m@.onward.len() >= 1,
                target@ == m@.onward[0],
                found is None ==> forall|j: int|
                    0 <= j < i ==> (#[trigger] self.relays@[j]).address@ != target@,
                found matches Some(f) ==> f < n && self.relays@[f as int].address@ == target@,
            decreases n - i,
        {
            if bytes_eq(&self.relays[i].address.bytes, &target.bytes) {
                found = Some(i);
            }
            i += 1;
        }
        let f = match found {
            Some(f) => f,
            None => {
                proof {
                    assert(!self.has_relay(m@.onward[0]));
                }
                return None;
            },
        };
        proof {
            assert(self.has_relay(m@.onward[0])) by {
                assert(self.relays@[f as int].address@ == m@.onward[0]);
            }
        }
        let rel = &self.relays[f];
        let mut new_hops: Vec<Address> = Vec::new();
        let mut k: usize = 0;
        while k < rel.destination.hops.len()
            invariant
                k <= rel.destination.hops@.len(),
                new_hops@.len() == k,
                forall|j: int| 0 <= j < k ==> (#[trigger] new_hops@[j])@
                    == rel.destination.hops@[j]@,
            decreases rel.destination.hops@.len() - k,
        {
            new_hops.push(rel.destination.hops[k].duplicate());
            k += 1;
        }
        let mut t: usize = 1;
        while t < m.onward_route.hops.len()
            invariant
                1 <= t <= m.onward_route.hops@.len(),
                new_hops@.len() == rel.destination.hops@.len() + t - 1,
                forall|j: int|
                    0 <= j < rel.destination.hops@.len() ==> (#[trigger] new_hops@[j])@
                        == rel.destination.hops@[j]@,
                forall|j: int|
                    rel.destination.hops@.len() <= j < new_hops@.len() ==> (
                    #[trigger] new_hops@[j])@ == m.onward_route.hops@[j - rel.destination.hops@.len()
                        + 1]@,
            decreases m.onward_route.hops@.len() - t,
        {
            new_hops.push(m.onward_route.hops[t].duplicate());
            t += 1;
        }
        let fwd = LocalMessage {
            onward_route: Route { hops: new_hops },
            payload: crate::bytes::copy_bytes(&m.payload),
            producer_session: match rel.producer_session {
                Some(s) => Some(s),
                None => None,
            },
        };
        proof {
            let idx = self.relay_index(m@.onward[0]);
            assert(0 <= idx < self.relays@.len() && self.relays@[idx].address@ == m@.onward[0]);
            if idx != f as int {
                assert(self.relays@[idx].address@ != self.relays@[f as int].address@);
            }
            assert(idx == f as int);
            assert(fwd@.onward =~= self.relays@[idx].destination@ + m@.onward.drop_first());
        }
        if fwd.onward_route.hops.len() < 1 {
            return None;
        }
        if sessions.delivery_allowed(&fwd.onward_route.hops[0], fwd.producer_session.as_ref()) {
            proof {
                assert(fwd@.onward[0] == fwd.onward_route.hops@[0]@);
            }
            Some(fwd)
        } else {
            None
        }
    }
}


} // verus!
