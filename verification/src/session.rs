//! The session trust registry: sessions group producers and consumers, and
//! delivery through a relayed address is permitted only when the message's
//! producer session is registered as a consumer session for that address, or
//! when no session constraint is attached at all.
use vstd::prelude::*;
use vstd::string::StrSliceExecFns;
use vstd::utf8::encode_utf8;
use crate::bytes::bytes_eq;

verus! {

/// A session handle. Fresh handles are drawn at random; nothing identifies
/// two sessions but equality of their values.
#[derive(Clone, Copy, Debug, PartialEq, Eq, Structural)]
pub struct SessionId {
    pub val: u64,
}

/// How producers are admitted under a consumer registration.
#[derive(Clone, Copy, Debug, PartialEq, Eq, Structural)]
pub enum SessionPolicy {
    /// Many producers may deliver to one consumer-registered address.
    ProducerAllowMultiple,
}

/// A worker address. Equality is exact byte match.
#[derive(Debug)]
pub struct Address {
    pub bytes: Vec<u8>,
}

impl View for Address {
    type V = Seq<u8>;

    open spec fn view(&self) -> Seq<u8> {
        self.bytes@
    }
}

impl PartialEq for Address {
    fn eq(&self, other: &Address) -> (r: bool) {
        bytes_eq(&self.bytes, &other.bytes)
    }
}

impl vstd::std_specs::cmp::PartialEqSpecImpl for Address {
    open spec fn obeys_eq_spec() -> bool {
        true
    }

    open spec fn eq_spec(&self, other: &Address) -> bool {
        self.bytes@ == other.bytes@
    }
}

impl Address {
    /// The address named by a string, as its UTF-8 bytes.
    pub fn from_string(s: &str) -> (r: Address)
        ensures
            r@ == encode_utf8(s@),
    {
        Address { bytes: s.as_bytes_vec() }
    }

    /// A copy of this address.
    pub fn duplicate(&self) -> (r: Address)
        ensures
            r@ == self@,
    {
        Address { bytes: crate::bytes::copy_bytes(&self.bytes) }
    }
}

/// One consumer registration: an address listening under a session.
pub struct ConsumerEntry {
    pub address: Address,
    pub session_id: SessionId,
    pub policy: SessionPolicy,
}

/// The process-wide session trust registry. It only ever accumulates
/// registrations: there is no automatic expiry or removal.
pub struct Sessions {
    pub consumers: Vec<ConsumerEntry>,
}

impl Sessions {
    /// Whether `address` is registered as a consumer under session `sid`.
    pub open spec fn is_consumer(self, address: Seq<u8>, sid: u64) -> bool {
        exists|i: int|
            0 <= i < self.consumers@.len() && (#[trigger] self.consumers@[i]).address@ == address
                && self.consumers@[i].session_id.val == sid
    }

    /// Whether a message tagged with `producer` may be delivered to
    /// `address`: an untagged message carries no session constraint; a tagged
    /// one needs a matching consumer registration.
    pub open spec fn admitted(self, address: Seq<u8>, producer: Option<u64>) -> bool {
        match producer {
            None => true,
            Some(sid) => self.is_consumer(address, sid),
        }
    }

    /// An empty registry.
    pub fn new() -> (r: Sessions)
        ensures
            forall|a: Seq<u8>, s: u64| !r.is_consumer(a, s),
    {
        Sessions { consumers: Vec::new() }
    }

    /// Draw a fresh session id at random.
    pub fn generate_session_id(&self) -> SessionId {
        SessionId { val: crate::crypto::random_u64() }
    }

    /// Whether `address` is registered under `session_id`.
    pub fn contains_consumer(&self, address: &Address, session_id: &SessionId) -> (r: bool)
        ensures
            r == self.is_consumer(address@, session_id.val),
    {
        let mut i: usize = 0;
        while i < self.consumers.len()
            invariant
                i <= self.consumers@.len(),
                forall|j: int|
                    0 <= j < i ==> !((#[trigger] self.consumers@[j]).address@ == address@
                        && self.consumers@[j].session_id.val == session_id.val),
            decreases self.consumers@.len() - i,
        {
            if bytes_eq(&self.consumers[i].address.bytes, &address.bytes) && self.consumers[i].session_id.val
                == session_id.val {
                return true;
            }
            i += 1;
        }
        false
    }

    /// Register `address` as a consumer under `session_id`. Idempotent per
    /// address and session pair; registrations for other pairs are kept.
    pub fn add_consumer(&mut self, address: &Address, session_id: &SessionId, policy: SessionPolicy)
        ensures
            forall|a: Seq<u8>, s: u64|
                #[trigger] final(self).is_consumer(a, s) <==> (old(self).is_consumer(a, s) || (a
                    == address@ && s == session_id.val)),
    {
        let ghost pre = *self;
        if self.contains_consumer(address, session_id) {
            proof {
                assert forall|a: Seq<u8>, s: u64| #[trigger]
                    self.is_consumer(a, s) <==> (pre.is_consumer(a, s) || (a == address@ && s
                    == session_id.val)) by {}
            }
            return;
        }
        self.consumers.push(
            ConsumerEntry { address: address.duplicate(), session_id: *session_id, policy },
        );
        proof {
            let n = self.consumers@.len() - 1;
            assert(self.consumers@[n].address@ == address@ && self.consumers@[n].session_id.val
                == session_id.val);
            assert forall|a: Seq<u8>, s: u64| #[trigger]
                self.is_consumer(a, s) <==> (pre.is_consumer(a, s) || (a == address@ && s
                == session_id.val)) by {
                if pre.is_consumer(a, s) {
                    let i = choose|i: int|
                        0 <= i < pre.consumers@.len() && (#[trigger] pre.consumers@[i]).address@
                            == a && pre.consumers@[i].session_id.val == s;
                    assert(self.consumers@[i].address@ == a && self.consumers@[i].session_id.val
                        == s);
                }
                if self.is_consumer(a, s) && !(a == address@ && s == session_id.val) {
                    let i = choose|i: int|
                        0 <= i < self.consumers@.len() && (#[trigger] self.consumers@[i]).address@
                            == a && self.consumers@[i].session_id.val == s;
                    assert(pre.consumers@[i].address@ == a && pre.consumers@[i].session_id.val
                        == s);
                }
            }
        }
    }

    /// Whether a message tagged `producer` may be delivered to `address`.
    pub fn delivery_allowed(&self, address: &Address, producer: Option<&SessionId>) -> (r: bool)
        ensures
            r == self.admitted(
                address@,
                match producer {
                    Some(s) => Some(s.val),
                    None => None,
                },
            ),
    {
        match producer {
            None => true,
            Some(sid) => self.contains_consumer(address, sid),
        }
    }
}

} // verus!
