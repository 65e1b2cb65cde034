//! What a signer can ask of the registry: to give and withdraw
//! authorizations, and to make and revoke claims.

use crate::error::Error;
use crate::identity::{
    Claim, ClaimKeys, ClaimMetaData, ClaimMetaDataView, ClaimRecord, ClaimValue, ClaimValueView,
    ClaimView, Module, State,
};
use crate::primitives::{clone_bytes, AccountKey, AuthorizationData, IdentityId, Signatory};
use crate::table::Key;
use vstd::prelude::*;

verus! {

/// The list `list` without `meta`.
pub open spec fn without_meta(list: Seq<ClaimMetaDataView>, meta: ClaimMetaDataView) -> Seq<
    ClaimMetaDataView,
>
    decreases list.len(),
{
    if list.len() == 0 {
        Seq::empty()
    } else if list.last() == meta {
        without_meta(list.drop_last(), meta)
    } else {
        without_meta(list.drop_last(), meta).push(list.last())
    }
}

/// The model of a claim to be added in a batch.
pub struct ClaimRecordView {
    pub did: IdentityId,
    pub claim_key: Seq<u8>,
    pub expiry: u64,
    pub claim_value: ClaimValueView,
}

/// The models of a list of claims to be added.
pub open spec fn records_view(v: Seq<ClaimRecord>) -> Seq<ClaimRecordView> {
    Seq::new(
        v.len(),
        |i: int|
            ClaimRecordView {
                did: v[i].did,
                claim_key: v[i].claim_key@,
                expiry: v[i].expiry,
                claim_value: v[i].claim_value@,
            },
    )
}

/// A batch of removals whose first `i` entries cannot all be made cannot be
/// made as a whole, and for the same reason.
pub proof fn lemma_batch_remove_fails(s: State, sender: AccountKey, ids: Seq<(Signatory, u64)>, i: nat, n: nat)
    requires
        i <= n,
    ensures
        s.batch_remove_check(sender, ids, i).is_err() ==> s.batch_remove_check(sender, ids, n)
            == s.batch_remove_check(sender, ids, i),
    decreases n - i,
{
    if i < n {
        lemma_batch_remove_fails(s, sender, ids, i, (n - 1) as nat);
    }
}

impl State {
    /// The registry after `from` has given the first `n` targets of `auths`
    /// their authorizations, in order.
    pub open spec fn auths_added(self, from: Signatory, auths: Seq<(Signatory, AuthorizationData, Option<u64>)>, n: nat) -> State
        decreases n,
    {
        if n == 0 {
            self
        } else {
            self.auths_added(from, auths, (n - 1) as nat).add_auth(
                from,
                auths[n - 1].0,
                auths[n - 1].1,
                auths[n - 1].2,
            )
        }
    }

    /// What stands against the removal of the first of the first `n`
    /// authorizations of `ids` that `sender` cannot remove, if there is one.
    pub open spec fn batch_remove_check(self, sender: AccountKey, ids: Seq<(Signatory, u64)>, n: nat) -> Result<
        (),
        Error,
    >
        decreases n,
    {
        if self.acting_did(sender).is_none() {
            Err(Error::DidNotFound)
        } else if n == 0 {
            Ok(())
        } else if self.batch_remove_check(sender, ids, (n - 1) as nat).is_err() {
            self.batch_remove_check(sender, ids, (n - 1) as nat)
        } else {
            self.remove_authorization_check(sender, ids[n - 1].0, ids[n - 1].1)
        }
    }

    /// The registry after the first `n` authorizations of `ids` were
    /// removed, in order, each between the neighbours that it has at its
    /// turn.
    pub open spec fn auths_removed(self, ids: Seq<(Signatory, u64)>, n: nat) -> State
        decreases n,
    {
        if n == 0 {
            self
        } else {
            let s = self.auths_removed(ids, (n - 1) as nat);
            let a = s.auth(ids[n - 1].0, ids[n - 1].1);
            s.remove_auth(ids[n - 1].0, ids[n - 1].1, a.next_authorization, a.previous_authorization)
        }
    }

    /// Whether the current call can go on in the name of `target`, and if
    /// not, why.
    pub open spec fn forward_check(self, target: IdentityId) -> Result<(), Error> {
        match self.current_did {
            None => Err(Error::MissingCurrentIdentity),
            Some(current) => if !self.signer_authorized(current, Signatory::Identity(target)) {
                Err(Error::CannotForward)
            } else if !(self.kyc_validation.contains_key(target) && self.kyc_validation[target]) {
                Err(Error::InvalidKyc)
            } else {
                Ok(())
            },
        }
    }

    /// Whether `sender` may add the claims `records` of `did_issuer`, and if
    /// not, why.
    pub open spec fn claims_batch_check(self, sender: AccountKey, did_issuer: IdentityId, records: Seq<ClaimRecordView>) -> Result<
        (),
        Error,
    > {
        if !self.did_records.contains_key(did_issuer) {
            Err(Error::ClaimIssuerMustExist)
        } else if !self.signer_authorized(did_issuer, Signatory::AccountKey(sender)) {
            Err(Error::NotClaimIssuerKey)
        } else if exists|i: int|
            0 <= i < records.len() && !self.did_records.contains_key((#[trigger] records[i]).did) {
            Err(Error::DidMustExist)
        } else {
            Ok(())
        }
    }

    /// The registry after the first `n` of `records` were added as claims
    /// of `did_issuer` at time `now`, in order.
    pub open spec fn claims_added(self, did_issuer: IdentityId, records: Seq<ClaimRecordView>, now: u64, n: nat) -> State
        decreases n,
    {
        if n == 0 {
            self
        } else {
            let r = records[n - 1];
            self.claims_added(did_issuer, records, now, (n - 1) as nat).claim_added(
                r.did,
                r.claim_key,
                did_issuer,
                r.expiry,
                r.claim_value,
                now,
            )
        }
    }

    /// Whether `sender` may remove the authorization `auth_id` of `target`,
    /// acting for the identity `from`: the giver of an authorization and its
    /// target may, as identity or as key.
    pub open spec fn remove_authorization_check(
        self,
        sender: AccountKey,
        target: Signatory,
        auth_id: u64,
    ) -> Result<(), Error> {
        match self.acting_did(sender) {
            None => Err(Error::DidNotFound),
            Some(from) => if !self.authorizations.contains_key((target, auth_id)) {
                Err(Error::InvalidAuth)
            } else {
                let by = self.authorizations[(target, auth_id)].authorized_by;
                if by == Signatory::Identity(from) || by == Signatory::AccountKey(sender) || target
                    == Signatory::Identity(from) || target == Signatory::AccountKey(sender) {
                    Ok(())
                } else {
                    Err(Error::RemovalUnauthorized)
                }
            },
        }
    }

    /// Whether `sender` may make or revoke a claim of `did_issuer` about
    /// `did`, and if not, why.
    pub open spec fn claim_check(self, sender: AccountKey, did: IdentityId, did_issuer: IdentityId) -> Result<
        (),
        Error,
    > {
        if !self.did_records.contains_key(did) {
            Err(Error::DidMustExist)
        } else if !self.did_records.contains_key(did_issuer) {
            Err(Error::ClaimIssuerMustExist)
        } else if !self.signer_authorized(did_issuer, Signatory::AccountKey(sender)) {
            Err(Error::NotClaimIssuerKey)
        } else {
            Ok(())
        }
    }

    /// The registry after `did_issuer` has claimed `claim_value` about `did`
    /// under `claim_key` at time `now`: the claim is recorded in place of an
    /// earlier one, and its meta data is listed for `did` once.
    pub open spec fn claim_added(
        self,
        did: IdentityId,
        claim_key: Seq<u8>,
        did_issuer: IdentityId,
        expiry: u64,
        claim_value: ClaimValueView,
        now: u64,
    ) -> State {
        let meta = ClaimMetaDataView { claim_key: claim_key, claim_issuer: did_issuer };
        let keys = self.claim_keys_of(did);
        State {
            claims: self.claims.insert(
                (did, meta),
                ClaimView { issuance_date: now, expiry: expiry, claim_value: claim_value },
            ),
            claim_keys: self.claim_keys.insert(
                did,
                if keys.contains(meta) {
                    keys
                } else {
                    keys.push(meta)
                },
            ),
            ..self
        }
    }

    /// The registry after the claim of `did_issuer` about `did` under
    /// `claim_key` was revoked.
    pub open spec fn claim_revoked(self, did: IdentityId, claim_key: Seq<u8>, did_issuer: IdentityId) -> State {
        let meta = ClaimMetaDataView { claim_key: claim_key, claim_issuer: did_issuer };
        State {
            claims: self.claims.remove((did, meta)),
            claim_keys: self.claim_keys.insert(did, without_meta(self.claim_keys_of(did), meta)),
            ..self
        }
    }
}

impl Module {
    /// Gives `target` an authorization in the name of the identity that
    /// `sender` acts for, and returns its id.
    pub fn add_authorization(
        &mut self,
        sender: AccountKey,
        target: Signatory,
        authorization_data: AuthorizationData,
        expiry: Option<u64>,
    ) -> (r: Result<u64, Error>)
        requires
            old(self).wf(),
            old(self)@.nonce < u64::MAX,
        ensures
            final(self).wf(),
            match old(self)@.acting_did(sender) {
                None => r == Err::<u64, Error>(Error::DidNotFound) && final(self)@ == old(self)@,
                Some(from) => r == Ok::<u64, Error>(old(self)@.next_id()) && final(self)@ == old(
                    self,
                )@.add_auth(Signatory::Identity(from), target, authorization_data, expiry),
            },
    {
        let from_did = match self.acting_did(&sender) {
            Some(d) => d,
            None => { return Err(Error::DidNotFound); },
        };
        Ok(self.add_auth(Signatory::Identity(from_did), target, authorization_data, expiry))
    }

    /// Gives `target` an authorization in the name of the key `sender`
    /// itself, and returns its id.
    pub fn add_authorization_as_key(
        &mut self,
        sender: AccountKey,
        target: Signatory,
        authorization_data: AuthorizationData,
        expiry: Option<u64>,
    ) -> (id: u64)
        requires
            old(self).wf(),
            old(self)@.nonce < u64::MAX,
        ensures
            final(self).wf(),
            id == old(self)@.next_id(),
            final(self)@ == old(self)@.add_auth(
                Signatory::AccountKey(sender),
                target,
                authorization_data,
                expiry,
            ),
    {
        self.add_auth(Signatory::AccountKey(sender), target, authorization_data, expiry)
    }

    /// Removes the authorization `auth_id` of `target`. Its giver and its
    /// target can.
    pub fn remove_authorization(&mut self, sender: AccountKey, target: Signatory, auth_id: u64) -> (r: Result<
        (),
        Error,
    >)
        requires
            old(self).wf(),
        ensures
            final(self).wf(),
            r == old(self)@.remove_authorization_check(sender, target, auth_id),
            r.is_ok() ==> final(self)@ == old(self)@.remove_auth(
                target,
                auth_id,
                old(self)@.authorizations[(target, auth_id)].next_authorization,
                old(self)@.authorizations[(target, auth_id)].previous_authorization,
            ),
            r.is_err() ==> final(self)@ == old(self)@,
    {
        let from_did = match self.acting_did(&sender) {
            Some(d) => d,
            None => { return Err(Error::DidNotFound); },
        };
        if !self.authorization_exists(&target, auth_id) {
            return Err(Error::InvalidAuth);
        }
        let auth = self.authorizations(&target, auth_id);
        if !(auth.authorized_by.eq_either(&from_did, &sender) || target.eq_either(
            &from_did,
            &sender,
        )) {
            return Err(Error::RemovalUnauthorized);
        }
        self.remove_auth(target, auth_id, auth.next_authorization, auth.previous_authorization);
        Ok(())
    }

    /// Records a claim of `did_issuer` about `did`, with no question of who
    /// asks.
    fn record_claim(
        &mut self,
        did: IdentityId,
        claim_key: Vec<u8>,
        did_issuer: IdentityId,
        expiry: u64,
        claim_value: ClaimValue,
        now: u64,
    )
        requires
            old(self).wf(),
        ensures
            final(self).wf(),
            final(self)@ == old(self)@.claim_added(
                did,
                claim_key@,
                did_issuer,
                expiry,
                claim_value@,
                now,
            ),
    {
        let claim_meta_data = ClaimMetaData { claim_key, claim_issuer: did_issuer };
        let ghost meta = claim_meta_data@;
        let listed = claim_meta_data.duplicate();
        let claim = Claim { issuance_date: now, expiry, claim_value };
        self.claims.insert((did, claim_meta_data), claim);
        let mut keys = match self.claim_keys.remove(&did) {
            Some(k) => k,
            None => ClaimKeys { list: Vec::new() },
        };
        let ghost before = keys@;
        assert(before =~= old(self)@.claim_keys_of(did));
        let mut present = false;
        let mut i: usize = 0;
        while i < keys.list.len()
            invariant
                i <= keys.list@.len(),
                keys@ == before,
                listed@ == meta,
                present == exists|j: int| 0 <= j < i && before[j] == meta,
            decreases keys.list@.len() - i,
        {
            if keys.list[i].same(&listed) {
                assert(before[i as int] == meta);
                present = true;
            }
            i += 1;
        }
        if !present {
            keys.list.push(listed);
            assert(keys@ =~= before.push(meta));
        }
        self.claim_keys.insert(did, keys);
        assert(self@.claim_keys =~= old(self)@.claim_added(
            did,
            claim_key@,
            did_issuer,
            expiry,
            claim_value@,
            now,
        ).claim_keys);
    }

    /// Adds claims of `did_issuer`, each about the identity that it names,
    /// or puts them in place of those that are there. Only a signing key of
    /// the issuer can, and either every claim is added or none.
    #[verifier::loop_isolation(false)]
    pub fn add_claims_batch(&mut self, sender: AccountKey, did_issuer: IdentityId, claims: &Vec<ClaimRecord>, now: u64) -> (r:
        Result<(), Error>)
        requires
            old(self).wf(),
        ensures
            final(self).wf(),
            r == old(self)@.claims_batch_check(sender, did_issuer, records_view(claims@)),
            r.is_ok() ==> final(self)@ == old(self)@.claims_added(
                did_issuer,
                records_view(claims@),
                now,
                claims@.len(),
            ),
            r.is_err() ==> final(self)@ == old(self)@,
    {
        let ghost records = records_view(claims@);
        if !self.did_exists(did_issuer) {
            return Err(Error::ClaimIssuerMustExist);
        }
        if !self.is_signer_authorized(did_issuer, &Signatory::AccountKey(sender)) {
            return Err(Error::NotClaimIssuerKey);
        }
        let mut i: usize = 0;
        while i < claims.len()
            invariant
                i <= claims@.len(),
                forall|j: int|
                    0 <= j < i ==> self@.did_records.contains_key((#[trigger] records[j]).did),
            decreases claims@.len() - i,
        {
            if !self.did_exists(claims[i].did) {
                assert(!self@.did_records.contains_key(records[i as int].did));
                return Err(Error::DidMustExist);
            }
            i += 1;
        }
        let mut k: usize = 0;
        while k < claims.len()
            invariant
                k <= claims@.len(),
                self.wf(),
                self@ == old(self)@.claims_added(did_issuer, records, now, k as nat),
            decreases claims@.len() - k,
        {
            self.record_claim(
                claims[k].did,
                clone_bytes(&claims[k].claim_key),
                did_issuer,
                claims[k].expiry,
                claims[k].claim_value.duplicate(),
                now,
            );
            k += 1;
        }
        Ok(())
    }

    /// Adds a claim of `did_issuer` about `did`, or puts it in place of the
    /// one that is there. Only a signing key of the issuer can.
    pub fn add_claim(
        &mut self,
        sender: AccountKey,
        did: IdentityId,
        claim_key: Vec<u8>,
        did_issuer: IdentityId,
        expiry: u64,
        claim_value: ClaimValue,
        now: u64,
    ) -> (r: Result<(), Error>)
        requires
            old(self).wf(),
        ensures
            final(self).wf(),
            r == old(self)@.claim_check(sender, did, did_issuer),
            r.is_ok() ==> final(self)@ == old(self)@.claim_added(
                did,
                claim_key@,
                did_issuer,
                expiry,
                claim_value@,
                now,
            ),
            r.is_err() ==> final(self)@ == old(self)@,
    {
        if !self.did_exists(did) {
            return Err(Error::DidMustExist);
        }
        if !self.did_exists(did_issuer) {
            return Err(Error::ClaimIssuerMustExist);
        }
        if !self.is_signer_authorized(did_issuer, &Signatory::AccountKey(sender)) {
            return Err(Error::NotClaimIssuerKey);
        }
        self.record_claim(did, claim_key, did_issuer, expiry, claim_value, now);
        Ok(())
    }

    /// Revokes the claim of `did_issuer` about `did` under `claim_key`. Only
    /// a signing key of the issuer can.
    pub fn revoke_claim(&mut self, sender: AccountKey, did: IdentityId, claim_key: Vec<u8>, did_issuer: IdentityId) -> (r:
        Result<(), Error>)
        requires
            old(self).wf(),
        ensures
            final(self).wf(),
            r == old(self)@.claim_check(sender, did, did_issuer),
            r.is_ok() ==> final(self)@ == old(self)@.claim_revoked(did, claim_key@, did_issuer),
            r.is_err() ==> final(self)@ == old(self)@,
    {
        if !self.did_exists(did) {
            return Err(Error::DidMustExist);
        }
        if !self.did_exists(did_issuer) {
            return Err(Error::ClaimIssuerMustExist);
        }
        if !self.is_signer_authorized(did_issuer, &Signatory::AccountKey(sender)) {
            return Err(Error::NotClaimIssuerKey);
        }
        let claim_meta_data = ClaimMetaData { claim_key, claim_issuer: did_issuer };
        let ghost meta = claim_meta_data@;
        let keys = match self.claim_keys.remove(&did) {
            Some(k) => k,
            None => ClaimKeys { list: Vec::new() },
        };
        let ghost before = keys@;
        assert(before =~= old(self)@.claim_keys_of(did));
        let mut rest = ClaimKeys { list: Vec::new() };
        assert(rest@ =~= Seq::empty());
        let mut i: usize = 0;
        while i < keys.list.len()
            invariant
                i <= keys.list@.len(),
                keys@ == before,
                claim_meta_data@ == meta,
                rest@ == without_meta(before.take(i as int), meta),
            decreases keys.list@.len() - i,
        {
            assert(before.take(i + 1).drop_last() =~= before.take(i as int));
            let ghost so_far = rest@;
            if !keys.list[i].same(&claim_meta_data) {
                rest.list.push(keys.list[i].duplicate());
                assert(rest@ =~= so_far.push(before[i as int]));
            }
            i += 1;
        }
        assert(before.take(before.len() as int) =~= before);
        self.claims.remove(&(did, claim_meta_data));
        self.claim_keys.insert(did, rest);
        assert(self@.claim_keys =~= old(self)@.claim_revoked(
            did,
            claim_key@,
            did_issuer,
        ).claim_keys);
        Ok(())
    }

    /// Gives each target of `auths` the authorization that goes with it, in
    /// the name of the identity that `sender` acts for, in order.
    pub fn batch_add_authorization(
        &mut self,
        sender: AccountKey,
        auths: &Vec<(Signatory, AuthorizationData, Option<u64>)>,
    ) -> (r: Result<(), Error>)
        requires
            old(self).wf(),
            old(self)@.nonce + auths@.len() <= u64::MAX,
        ensures
            final(self).wf(),
            match old(self)@.acting_did(sender) {
                None => r == Err::<(), Error>(Error::DidNotFound) && final(self)@ == old(self)@,
                Some(from) => r.is_ok() && final(self)@ == old(self)@.auths_added(
                    Signatory::Identity(from),
                    auths@,
                    auths@.len(),
                ),
            },
    {
        let from_did = match self.acting_did(&sender) {
            Some(d) => d,
            None => { return Err(Error::DidNotFound); },
        };
        let from = Signatory::Identity(from_did);
        let mut i: usize = 0;
        while i < auths.len()
            invariant
                i <= auths@.len(),
                old(self)@.nonce + auths@.len() <= u64::MAX,
                self.wf(),
                self@ == old(self)@.auths_added(from, auths@, i as nat),
                self@.nonce == old(self)@.nonce + i,
            decreases auths@.len() - i,
        {
            self.add_auth(from, auths[i].0, auths[i].1, auths[i].2);
            i += 1;
        }
        Ok(())
    }

    /// Removes every authorization that `auth_identifiers` names. The giver
    /// of an authorization and its target can; where one of them cannot be
    /// removed by the sender, none is.
    #[verifier::loop_isolation(false)]
    pub fn batch_remove_authorization(&mut self, sender: AccountKey, auth_identifiers: &Vec<(Signatory, u64)>) -> (r:
        Result<(), Error>)
        requires
            old(self).wf(),
        ensures
            final(self).wf(),
            r == old(self)@.batch_remove_check(sender, auth_identifiers@, auth_identifiers@.len()),
            r.is_ok() ==> final(self)@ == old(self)@.auths_removed(
                auth_identifiers@,
                auth_identifiers@.len(),
            ),
            r.is_err() ==> final(self)@ == old(self)@,
    {
        if self.acting_did(&sender).is_none() {
            return Err(Error::DidNotFound);
        }
        let mut i: usize = 0;
        while i < auth_identifiers.len()
            invariant
                i <= auth_identifiers@.len(),
                self@.batch_remove_check(sender, auth_identifiers@, i as nat).is_ok(),
            decreases auth_identifiers@.len() - i,
        {
            let target = auth_identifiers[i].0;
            let auth_id = auth_identifiers[i].1;
            proof {
                lemma_batch_remove_fails(
                    self@,
                    sender,
                    auth_identifiers@,
                    (i + 1) as nat,
                    auth_identifiers@.len(),
                );
            }
            if !self.authorization_exists(&target, auth_id) {
                return Err(Error::InvalidAuth);
            }
            let auth = self.authorizations(&target, auth_id);
            let from_did = self.acting_did(&sender).unwrap();
            if !(auth.authorized_by.eq_either(&from_did, &sender) || target.eq_either(
                &from_did,
                &sender,
            )) {
                return Err(Error::RemovalUnauthorized);
            }
            i += 1;
        }
        let mut k: usize = 0;
        while k < auth_identifiers.len()
            invariant
                k <= auth_identifiers@.len(),
                self.wf(),
                self@ == old(self)@.auths_removed(auth_identifiers@, k as nat),
            decreases auth_identifiers@.len() - k,
        {
            let target = auth_identifiers[k].0;
            let auth_id = auth_identifiers[k].1;
            let auth = self.authorizations(&target, auth_id);
            self.remove_auth(target, auth_id, auth.next_authorization, auth.previous_authorization);
            k += 1;
        }
        Ok(())
    }

    /// Makes `target_did` the identity that the rest of the current call
    /// acts for. The current identity must have `target_did` as a signatory,
    /// and `target_did` must count as validated.
    pub fn forwarded_call(&mut self, target_did: IdentityId) -> (r: Result<(), Error>)
        requires
            old(self).wf(),
        ensures
            final(self).wf(),
            r == old(self)@.forward_check(target_did),
            r.is_ok() ==> final(self)@ == (State { current_did: Some(target_did), ..old(self)@ }),
            r.is_err() ==> final(self)@ == old(self)@,
    {
        match self.current_did() {
            Some(current_did) => {
                if !self.is_signer_authorized(current_did, &Signatory::Identity(target_did)) {
                    return Err(Error::CannotForward);
                }
            },
            None => { return Err(Error::MissingCurrentIdentity); },
        }
        if !self.has_valid_kyc(target_did) {
            return Err(Error::InvalidKyc);
        }
        self.set_current_did(Some(target_did));
        Ok(())
    }
}

} // verus!
