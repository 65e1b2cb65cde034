//! Joining an identity on the strength of an authorization that was signed
//! off chain.

use crate::codec::{encode_bytes, encode_u64, le_bytes};
use crate::error::Error;
use crate::identity::{
    items_view, Module, SignerType, SigningItem, SigningItemView, SigningItemWithAuth, State,
    TargetIdAuthorization,
};
use crate::primitives::{AccountKey, IdentityId, Signatory};
use crate::table::Key;
use vstd::prelude::*;

verus! {

impl TargetIdAuthorization {
    /// The bytes that are signed: the identity as its bytes, then the nonce
    /// and the expiry, each least significant byte first.
    pub open spec fn spec_encode(self) -> Seq<u8> {
        self.target_id.0@ + le_bytes(self.nonce as nat, 8) + le_bytes(self.expires_at as nat, 8)
    }

    /// The bytes that are signed.
    pub fn encode(&self) -> (r: Vec<u8>)
        ensures
            r@ == self.spec_encode(),
    {
        let mut out = encode_bytes(&self.target_id.0);
        let mut nonce = encode_u64(self.nonce);
        let mut expires_at = encode_u64(self.expires_at);
        out.append(&mut nonce);
        out.append(&mut expires_at);
        out
    }
}

/// The signing items of a list of signing items with signatures.
pub open spec fn signed_items(v: Seq<SigningItemWithAuth>) -> Seq<SigningItemView> {
    Seq::new(v.len(), |i: int| v[i].signing_item@)
}

impl State {
    /// The nonce of `did` for off-chain authorizations.
    pub open spec fn offchain_nonce(self, did: IdentityId) -> u64 {
        if self.offchain_authorization_nonce.contains_key(did) {
            self.offchain_authorization_nonce[did]
        } else {
            0
        }
    }

    /// Whether the off-chain authorization `auth` of `signer` was revoked.
    pub open spec fn revoked(self, signer: Signatory, auth: TargetIdAuthorization) -> bool {
        self.revoke_offchain_authorization.contains_key((signer, auth))
            && self.revoke_offchain_authorization[(signer, auth)]
    }

    /// The off-chain authorization to join `id` that is in force until
    /// `expires_at`.
    pub open spec fn current_authorization(self, id: IdentityId, expires_at: u64) -> TargetIdAuthorization {
        TargetIdAuthorization { target_id: id, nonce: self.offchain_nonce(id), expires_at: expires_at }
    }

    /// The key under which the signature of `signer` is to verify: the key
    /// itself, or the master key of an identity that has a record.
    pub open spec fn signing_account(self, signer: Signatory) -> Option<AccountKey> {
        match signer {
            Signatory::AccountKey(k) => Some(k),
            Signatory::Identity(id) => if self.did_records.contains_key(id) {
                Some(self.did_records[id].master_key)
            } else {
                None
            },
        }
    }

    /// Whether `item` can join on the strength of `auth`, given whether its
    /// signature verifies, and if not, why.
    pub open spec fn signed_item_check(self, item: SigningItemView, auth: TargetIdAuthorization, signature_valid: bool) -> Result<
        (),
        Error,
    > {
        if self.signing_account(item.signer).is_none() {
            Err(Error::InvalidKey)
        } else if self.unlinkable(item) {
            Err(Error::KeyBelongsToIdentity)
        } else if self.revoked(item.signer, auth) {
            Err(Error::AuthorizationRevoked)
        } else if !signature_valid {
            Err(Error::InvalidAuthorizationSignature)
        } else {
            Ok(())
        }
    }

    /// What stands against the first of the first `n` of `items` that cannot
    /// join, if there is one.
    pub open spec fn signed_items_check(
        self,
        items: Seq<SigningItemView>,
        auth: TargetIdAuthorization,
        signatures_valid: Seq<bool>,
        n: nat,
    ) -> Result<(), Error>
        decreases n,
    {
        if n == 0 {
            Ok(())
        } else if self.signed_items_check(items, auth, signatures_valid, (n - 1) as nat).is_err() {
            self.signed_items_check(items, auth, signatures_valid, (n - 1) as nat)
        } else {
            self.signed_item_check(items[n - 1], auth, signatures_valid[n - 1])
        }
    }

    /// Whether the master key `sender` of `id` may add `items` on the
    /// strength of their signatures at time `now`, and if not, why.
    pub open spec fn add_signed_items_check(
        self,
        sender: AccountKey,
        id: IdentityId,
        expires_at: u64,
        items: Seq<SigningItemView>,
        signatures_valid: Seq<bool>,
        now: u64,
    ) -> Result<(), Error> {
        if self.master_key_check(sender, id).is_err() {
            self.master_key_check(sender, id)
        } else if now >= expires_at {
            Err(Error::OffchainAuthorizationExpired)
        } else if items.len() != signatures_valid.len() {
            Err(Error::InvalidAuthorizationSignature)
        } else {
            self.signed_items_check(
                items,
                self.current_authorization(id, expires_at),
                signatures_valid,
                items.len(),
            )
        }
    }

    /// The registry after the keys among the first `n` of `items` were
    /// linked to `id`, in order.
    pub open spec fn keys_linked(self, items: Seq<SigningItemView>, id: IdentityId, n: nat) -> State
        decreases n,
    {
        if n == 0 {
            self
        } else {
            let s = self.keys_linked(items, id, (n - 1) as nat);
            match items[n - 1].signer {
                Signatory::AccountKey(k) => s.key_linked(k, items[n - 1].signer_type, id),
                Signatory::Identity(_) => s,
            }
        }
    }

    /// The registry after the first `n` of `items` were added to the record
    /// of `id`, in order, each unless the record has it.
    pub open spec fn items_added(self, items: Seq<SigningItemView>, id: IdentityId, n: nat) -> State
        decreases n,
    {
        if n == 0 {
            State { did_records: self.did_records.insert(id, self.did_record(id)), ..self }
        } else {
            let s = self.items_added(items, id, (n - 1) as nat);
            State {
                did_records: s.did_records.insert(id, s.did_record(id).with_item(items[n - 1])),
                ..s
            }
        }
    }

    /// The registry after `items` have joined `id` on the strength of their
    /// signatures: their keys are linked, they are signing items of `id`, and
    /// the nonce of `id` for off-chain authorizations is one higher.
    pub open spec fn signed_items_added(self, id: IdentityId, items: Seq<SigningItemView>) -> State {
        let s = self.keys_linked(items, id, items.len()).items_added(items, id, items.len());
        State {
            offchain_authorization_nonce: s.offchain_authorization_nonce.insert(
                id,
                (self.offchain_nonce(id) + 1) as u64,
            ),
            ..s
        }
    }

    /// Whether `sender` may revoke an off-chain authorization of `signer`:
    /// a key its own, the master key of an identity that of the identity.
    pub open spec fn revoke_check(self, sender: AccountKey, signer: Signatory) -> Result<(), Error> {
        match signer {
            Signatory::AccountKey(k) => if sender == k {
                Ok(())
            } else {
                Err(Error::RevokeNotOwnKey)
            },
            Signatory::Identity(id) => if self.did_record(id).master_key == sender {
                Ok(())
            } else {
                Err(Error::RevokeNotMasterKey)
            },
        }
    }
}

/// A batch whose first `i` items cannot all join cannot join as a whole, and
/// for the same reason.
pub proof fn lemma_signed_items_fail(
    s: State,
    items: Seq<SigningItemView>,
    auth: TargetIdAuthorization,
    signatures_valid: Seq<bool>,
    i: nat,
    n: nat,
)
    requires
        i <= n,
    ensures
        s.signed_items_check(items, auth, signatures_valid, i).is_err() ==> s.signed_items_check(
            items,
            auth,
            signatures_valid,
            n,
        ) == s.signed_items_check(items, auth, signatures_valid, i),
    decreases n - i,
{
    if i < n {
        lemma_signed_items_fail(s, items, auth, signatures_valid, i, (n - 1) as nat);
    }
}

impl Module {
    /// The nonce of `did` for off-chain authorizations.
    pub fn offchain_authorization_nonce(&self, did: IdentityId) -> (r: u64)
        requires
            self.wf(),
        ensures
            r == self@.offchain_nonce(did),
    {
        match self.offchain_authorization_nonce.get(&did) {
            Some(n) => *n,
            None => 0,
        }
    }

    /// Whether the off-chain authorization `auth` of `signer` was revoked.
    pub fn is_offchain_authorization_revoked(&self, signer: &Signatory, auth: &TargetIdAuthorization) -> (r:
        bool)
        requires
            self.wf(),
        ensures
            r == self@.revoked(*signer, *auth),
    {
        match self.revoke_offchain_authorization.get(&(*signer, *auth)) {
            Some(b) => *b,
            None => false,
        }
    }

    /// The key under which the signature of `signer` is to verify.
    pub fn signing_account(&self, signer: &Signatory) -> (r: Option<AccountKey>)
        requires
            self.wf(),
        ensures
            r == self@.signing_account(*signer),
    {
        match signer {
            Signatory::AccountKey(k) => Some(*k),
            Signatory::Identity(id) => match self.did_records.get(id) {
                Some(record) => Some(record.master_key),
                None => None,
            },
        }
    }

    /// Adds `additional_keys` to the identity `id` as signing items, each on
    /// the strength of its signature over the authorization to join `id`
    /// that is in force until `expires_at`. `signatures_valid` says of each
    /// whether its signature verifies. Only the master key of `id` can, and
    /// either every item joins or none.
    #[verifier::loop_isolation(false)]
    pub fn add_signing_items_with_authorization(
        &mut self,
        sender: AccountKey,
        id: IdentityId,
        expires_at: u64,
        additional_keys: &Vec<SigningItemWithAuth>,
        signatures_valid: &Vec<bool>,
        now: u64,
    ) -> (r: Result<(), Error>)
        requires
            old(self).wf(),
            old(self)@.offchain_nonce(id) < u64::MAX,
        ensures
            final(self).wf(),
            r == old(self)@.add_signed_items_check(
                sender,
                id,
                expires_at,
                signed_items(additional_keys@),
                signatures_valid@,
                now,
            ),
            r.is_ok() ==> final(self)@ == old(self)@.signed_items_added(
                id,
                signed_items(additional_keys@),
            ),
            r.is_err() ==> final(self)@ == old(self)@,
    {
        let ghost items = signed_items(additional_keys@);
        if let Err(e) = self.grant_check_only_master_key(&sender, id) {
            return Err(e);
        }
        if now >= expires_at {
            return Err(Error::OffchainAuthorizationExpired);
        }
        if additional_keys.len() != signatures_valid.len() {
            return Err(Error::InvalidAuthorizationSignature);
        }
        let nonce = self.offchain_authorization_nonce(id);
        let authorization = TargetIdAuthorization { target_id: id, nonce, expires_at };
        let n = additional_keys.len();
        let mut i: usize = 0;
        while i < n
            invariant
                i <= n,
                self@.signed_items_check(items, authorization, signatures_valid@, i as nat).is_ok(),
            decreases n - i,
        {
            proof {
                lemma_signed_items_fail(
                    self@,
                    items,
                    authorization,
                    signatures_valid@,
                    (i + 1) as nat,
                    n as nat,
                );
            }
            let item = &additional_keys[i].signing_item;
            assert(item@ == items[i as int]);
            if self.signing_account(&item.signer).is_none() {
                return Err(Error::InvalidKey);
            }
            if let Signatory::AccountKey(key) = item.signer {
                if !self.can_key_be_linked_to_did(&key, item.signer_type) {
                    return Err(Error::KeyBelongsToIdentity);
                }
            }
            if self.is_offchain_authorization_revoked(&item.signer, &authorization) {
                return Err(Error::AuthorizationRevoked);
            }
            if !signatures_valid[i] {
                return Err(Error::InvalidAuthorizationSignature);
            }
            i += 1;
        }
        let mut k: usize = 0;
        while k < n
            invariant
                k <= n,
                self.wf(),
                self@ == old(self)@.keys_linked(items, id, k as nat),
            decreases n - k,
        {
            let item = &additional_keys[k].signing_item;
            assert(item@ == items[k as int]);
            if let Signatory::AccountKey(key) = item.signer {
                self.link_key_to_did(&key, item.signer_type, id);
            }
            k += 1;
        }
        let ghost linked = self@;
        let mut record = match self.did_records.remove(&id) {
            Some(r) => r,
            None => crate::identity::DidRecord::default(),
        };
        let mut m: usize = 0;
        assert(linked.items_added(items, id, 0) == State {
            did_records: linked.did_records.insert(id, record@),
            ..linked
        });
        while m < n
            invariant
                m <= n,
                linked.items_added(items, id, m as nat) == (State {
                    did_records: linked.did_records.insert(id, record@),
                    ..linked
                }),
            decreases n - m,
        {
            let ghost before = record@;
            record.add_signing_item(additional_keys[m].signing_item.duplicate());
            proof {
                assert(additional_keys@[m as int].signing_item@ == items[m as int]);
                let s = linked.items_added(items, id, m as nat);
                assert(s.did_record(id) == before);
                assert(s.did_records.insert(id, record@) =~= linked.did_records.insert(
                    id,
                    record@,
                ));
            }
            m += 1;
        }
        self.did_records.insert(id, record);
        self.offchain_authorization_nonce.insert(id, nonce + 1);
        assert(self@.did_records =~= linked.items_added(items, id, n as nat).did_records);
        Ok(())
    }

    /// Revokes the off-chain authorization `auth` of `signer`, so that it
    /// cannot be used any more. A key revokes its own, the master key of an
    /// identity that of the identity.
    pub fn revoke_offchain_authorization(&mut self, sender: AccountKey, signer: Signatory, auth: TargetIdAuthorization) -> (r:
        Result<(), Error>)
        requires
            old(self).wf(),
        ensures
            final(self).wf(),
            r == old(self)@.revoke_check(sender, signer),
            r.is_ok() ==> final(self)@ == (State {
                revoke_offchain_authorization: old(self)@.revoke_offchain_authorization.insert(
                    (signer, auth),
                    true,
                ),
                ..old(self)@
            }),
            r.is_err() ==> final(self)@ == old(self)@,
    {
        match signer {
            Signatory::AccountKey(key) => {
                if !sender.same(&key) {
                    return Err(Error::RevokeNotOwnKey);
                }
            },
            Signatory::Identity(id) => {
                if !self.is_master_key(id, &sender) {
                    return Err(Error::RevokeNotMasterKey);
                }
            },
        }
        self.revoke_offchain_authorization.insert((signer, auth), true);
        Ok(())
    }
}

} // verus!
