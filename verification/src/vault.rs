//! The software vault: it owns raw signing-key material and hands out only
//! public parts. All other components hold public keys and ask the vault to
//! sign on their behalf.
use vstd::prelude::*;
use crate::crypto::{ed25519_public_key, ed25519_signature, ed25519_verify};
use crate::crypto;
use crate::errors::IdentityError;

verus! {

/// One signing key pair held by the vault.
pub struct VaultKey {
    pub secret: Vec<u8>,
    pub public_key: Vec<u8>,
}

pub ghost struct VaultKeyV {
    pub secret: Seq<u8>,
    pub public_key: Seq<u8>,
}

impl View for VaultKey {
    type V = VaultKeyV;

    open spec fn view(&self) -> VaultKeyV {
        VaultKeyV { secret: self.secret@, public_key: self.public_key@ }
    }
}

/// An in-memory vault of Ed25519 signing keys.
pub struct SoftwareVault {
    pub keys: Vec<VaultKey>,
}

impl View for SoftwareVault {
    type V = Seq<VaultKeyV>;

    open spec fn view(&self) -> Seq<VaultKeyV> {
        self.keys@.map(|i: int, k: VaultKey| k@)
    }
}

impl SoftwareVault {
    /// Every entry pairs 32 bytes of secret material with the verifying key
    /// derived from it, and no two entries share a verifying key.
    pub open spec fn wf(self) -> bool {
        &&& forall|i: int|
            0 <= i < self@.len() ==> (#[trigger] self@[i]).secret.len() == 32
                && self@[i].public_key == ed25519_public_key(self@[i].secret)
                && self@[i].public_key.len() == 32
        &&& forall|i: int, j: int|
            0 <= i < self@.len() && 0 <= j < self@.len() && i != j ==> (#[trigger] self@[i]).public_key
                != (#[trigger] self@[j]).public_key
    }

    /// Whether the vault holds the secret for a verifying key.
    pub open spec fn has_key(self, public_key: Seq<u8>) -> bool {
        exists|i: int| 0 <= i < self@.len() && (#[trigger] self@[i]).public_key == public_key
    }

    /// The secret behind a verifying key the vault holds.
    pub open spec fn secret_for(self, public_key: Seq<u8>) -> Seq<u8> {
        self@[choose|i: int| 0 <= i < self@.len() && (#[trigger] self@[i]).public_key
            == public_key].secret
    }

    /// An empty vault.
    pub fn new() -> (r: SoftwareVault)
        ensures
            r.wf(),
            r@.len() == 0,
    {
        let r = SoftwareVault { keys: Vec::new() };
        proof {
            assert(r@ =~= Seq::<VaultKeyV>::empty());
        }
        r
    }

    fn position_of(&self, public_key: &Vec<u8>) -> (r: Option<usize>)
        ensures
            r matches Some(i) ==> i < self@.len() && self@[i as int].public_key == public_key@,
            r is None ==> !self.has_key(public_key@),
    {
        let mut i: usize = 0;
        while i < self.keys.len()
            invariant
                i <= self@.len(),
                forall|j: int| 0 <= j < i ==> (#[trigger] self@[j]).public_key != public_key@,
            decreases self@.len() - i,
        {
            if crate::bytes::bytes_eq(&self.keys[i].public_key, public_key) {
                return Some(i);
            }
            i += 1;
        }
        None
    }

    /// Generate a fresh signing key and return its verifying key. The keys
    /// already held keep their secrets.
    pub fn generate_key(&mut self) -> (r: Vec<u8>)
        requires
            old(self).wf(),
        ensures
            final(self).wf(),
            vault_preserves(*old(self), *final(self)),
            r@.len() == 32,
            final(self).has_key(r@),
            forall|pk: Seq<u8>|
                #[trigger] final(self).has_key(pk) <==> old(self).has_key(pk) || pk == r@,
            forall|pk: Seq<u8>|
                old(self).has_key(pk) ==> #[trigger] final(self).secret_for(pk) == old(
                    self,
                ).secret_for(pk),
            final(self).has_key(r@) && ed25519_public_key(final(self).secret_for(r@)) == r@,
    {
        let secret = crypto::random_secret();
        let public_key = crypto::derive_public_key(&secret);
        self.insert_pair(secret, public_key)
    }

    /// Import 32 bytes of signing-secret material; anything of another
    /// length is rejected as an invalid secret. Returns the verifying key.
    pub fn import_secret(&mut self, secret: &Vec<u8>) -> (r: Result<Vec<u8>, IdentityError>)
        requires
            old(self).wf(),
        ensures
            final(self).wf(),
            vault_preserves(*old(self), *final(self)),
            r is Ok <==> secret@.len() == 32,
            r matches Err(e) ==> e == IdentityError::InvalidSecret && *final(self) == *old(self),
            r matches Ok(pk) ==> pk@ == ed25519_public_key(secret@) && final(self).has_key(pk@)
                && final(self).secret_for(pk@).len() == 32 && (forall|q: Seq<u8>|
                #[trigger] final(self).has_key(q) <==> old(self).has_key(q) || q == pk@) && (forall|
                q: Seq<u8>,
            |
                old(self).has_key(q) ==> #[trigger] final(self).secret_for(q) == old(
                    self,
                ).secret_for(q)),
    {
        if secret.len() != 32 {
            return Err(IdentityError::InvalidSecret);
        }
        let secret = secret.clone();
        let public_key = crypto::derive_public_key(&secret);
        Ok(self.insert_pair(secret, public_key))
    }

    fn insert_pair(&mut self, secret: Vec<u8>, public_key: Vec<u8>) -> (r: Vec<u8>)
        requires
            old(self).wf(),
            secret@.len() == 32,
            public_key@ == ed25519_public_key(secret@),
            public_key@.len() == 32,
        ensures
            final(self).wf(),
            r@ == public_key@,
            final(self).has_key(r@),
            ed25519_public_key(final(self).secret_for(r@)) == r@,
            final(self).secret_for(r@).len() == 32,
            old(self).has_key(public_key@) ==> *final(self) == *old(self),
            !old(self).has_key(public_key@) ==> final(self).secret_for(r@) == secret@,
            forall|pk: Seq<u8>|
                #[trigger] final(self).has_key(pk) <==> old(self).has_key(pk) || pk == public_key@,
            forall|pk: Seq<u8>|
                old(self).has_key(pk) ==> #[trigger] final(self).secret_for(pk) == old(
                    self,
                ).secret_for(pk),
    {
        let ghost pre = *self;
        match self.position_of(&public_key) {
            Some(_) => {
                proof {
                    lemma_secret_for_stable(pre, pre, public_key@);
                }
                public_key
            },
            None => {
                let r = public_key.clone();
                self.keys.push(VaultKey { secret, public_key });
                proof {
                    assert(self@ =~= pre@ + seq![
                        VaultKeyV { secret: secret@, public_key: r@ },
                    ]);
                    assert forall|pk: Seq<u8>| #[trigger]
                        self.has_key(pk) <==> pre.has_key(pk) || pk == r@ by {
                        assert(self@[self@.len() - 1].public_key == r@);
                        if pre.has_key(pk) {
                            let i = choose|i: int|
                                0 <= i < pre@.len() && (#[trigger] pre@[i]).public_key == pk;
                            assert(self@[i].public_key == pk);
                        }
                        if self.has_key(pk) && pk != r@ {
                            let i = choose|i: int|
                                0 <= i < self@.len() && (#[trigger] self@[i]).public_key == pk;
                            assert(pre@[i].public_key == pk);
                        }
                    }
                    assert(self.has_key(r@)) by {
                        assert(self@[self@.len() - 1].public_key == r@);
                    }
                    assert forall|pk: Seq<u8>| pre.has_key(pk) implies #[trigger] self.secret_for(
                        pk,
                    ) == pre.secret_for(pk) by {
                        lemma_secret_for_stable(pre, *self, pk);
                    }
                    assert(self.secret_for(r@) == secret@) by {
                        let i = choose|i: int|
                            0 <= i < self@.len() && (#[trigger] self@[i]).public_key == r@;
                        if i < self@.len() - 1 {
                            assert(pre@[i].public_key == r@);
                        }
                    }
                }
                r
            },
        }
    }

    /// Whether the vault holds the secret for the given verifying key.
    pub fn contains_key(&self, public_key: &Vec<u8>) -> (r: bool)
        ensures
            r == self.has_key(public_key@),
    {
        match self.position_of(public_key) {
            Some(i) => {
                proof {
                    assert(self@[i as int].public_key == public_key@);
                }
                true
            },
            None => false,
        }
    }

    /// Sign a message with the secret behind the given verifying key; nothing
    /// is signed when the vault does not hold that key.
    pub fn sign(&self, public_key: &Vec<u8>, msg: &Vec<u8>) -> (r: Option<Vec<u8>>)
        requires
            self.wf(),
        ensures
            r is Some <==> self.has_key(public_key@),
            r matches Some(s) ==> s@ == ed25519_signature(self.secret_for(public_key@), msg@)
                && s@.len() == 64 && ed25519_verify(public_key@, msg@, s@),
    {
        match self.position_of(public_key) {
            Some(i) => {
                proof {
                    assert(self.has_key(public_key@)) by {
                        assert(self@[i as int].public_key == public_key@);
                    }
                    let j = choose|j: int|
                        0 <= j < self@.len() && (#[trigger] self@[j]).public_key == public_key@;
                    if j != i as int {
                        assert(self@[j].public_key != self@[i as int].public_key);
                    }
                    assert(self.secret_for(public_key@) == self@[i as int].secret);
                }
                Some(crypto::sign_message(&self.keys[i].secret, msg))
            },
            None => None,
        }
    }
}

/// Whatever keys vault `a` held, vault `b` still holds, with the same
/// secrets: operations only ever add keys.
pub open spec fn vault_preserves(a: SoftwareVault, b: SoftwareVault) -> bool {
    forall|pk: Seq<u8>|
        a.has_key(pk) ==> ((#[trigger] b.has_key(pk)) && b.secret_for(pk) == a.secret_for(pk))
}

/// In a well-formed vault any two entries with the same verifying key are the
/// same entry, so `secret_for` does not depend on which entry is picked, and
/// is stable when entries are only added.
proof fn lemma_secret_for_stable(a: SoftwareVault, b: SoftwareVault, pk: Seq<u8>)
    requires
        a.wf(),
        b.wf(),
        a.has_key(pk),
        forall|i: int|
            0 <= i < a@.len() ==> 0 <= i < b@.len() && #[trigger] b@[i] == a@[i],
    ensures
        b.secret_for(pk) == a.secret_for(pk),
{
    let i = choose|i: int| 0 <= i < a@.len() && (#[trigger] a@[i]).public_key == pk;
    let j = choose|j: int| 0 <= j < b@.len() && (#[trigger] b@[j]).public_key == pk;
    assert(b@[i].public_key == pk);
    if i != j {
        assert(b@[i].public_key != b@[j].public_key);
    }
}

} // verus!
