//! The ticker registry: who holds which ticker and until when, and the
//! two-step handshake by which a ticker or a token changes hands.
//!
//! The owner gives the candidate an authorization; the candidate accepts it.
//! Accepting consumes the authorization, removes the old owner's link, and
//! makes a new link under the new owner.

use crate::asset::state::State;
use crate::asset::types::{SecurityTokenView, TickerRegistration, TickerRegistrationStatus};
use crate::asset::Module;
use crate::error::Error;
use crate::primitives::{
    AccountKey, AuthorizationData, IdentityId, LinkData, LinkDataView, Signatory,
};
use crate::ticker::Ticker;
use vstd::prelude::*;

verus! {

/// What came of accepting an authorization.
#[derive(Clone, Copy, Debug, PartialEq, Eq)]
pub enum Accepted {
    /// A ticker or a token has changed hands.
    Transferred,
    /// The signatory is to be made a signer of a multi-signature account,
    /// which the ledger does not keep.
    MultiSigSigner(Signatory),
}

impl State {
    /// What holds of the ledger `after` the hand-over of `ticker` to `to`
    /// under the authorization `auth_id` was accepted in this ledger. The
    /// authorization is gone and cannot be accepted again; the ticker is the
    /// new holder's; and where the ticker had its one live link under the old
    /// holder, that link is gone and the ticker has its one live link under
    /// the new holder.
    pub open spec fn ticker_handed_over(self, after: State, ticker: Ticker, to: IdentityId, auth_id: u64) -> bool {
        let old = self.registration(ticker);
        &&& !after.identity.authorizations.contains_key((Signatory::Identity(to), auth_id))
        &&& forall|later: u64| #[trigger]
            after.accept_ticker_transfer_check(to, auth_id, later) == Err::<(), Error>(
                Error::AuthorizationDoesNotExist,
            )
        &&& after.registration(ticker).owner == to
        &&& self.ticker_linked(ticker) ==> {
            &&& after.ticker_linked(ticker)
            &&& !after.identity.links.contains_key((Signatory::Identity(old.owner), old.link_id))
        }
    }

    /// What holds of the ledger `after` the hand-over of the token `ticker`
    /// to `to` under the authorization `auth_id` was accepted in this
    /// ledger. The authorization is gone and cannot be accepted again; ticker
    /// and token are the new owner's; and where each had its one live link
    /// under its old owner, those links are gone and each has its one live
    /// link under the new owner.
    pub open spec fn token_handed_over(self, after: State, ticker: Ticker, to: IdentityId, auth_id: u64) -> bool {
        let old = self.registration(ticker);
        let token = self.token(ticker);
        &&& !after.identity.authorizations.contains_key((Signatory::Identity(to), auth_id))
        &&& forall|later: u64| #[trigger]
            after.accept_token_ownership_transfer_check(to, auth_id, later) == Err::<(), Error>(
                Error::AuthorizationDoesNotExist,
            )
        &&& after.registration(ticker).owner == to
        &&& after.token(ticker).owner_did == to
        &&& self.ticker_linked(ticker) && self.token_linked(ticker) ==> {
            &&& after.ticker_linked(ticker)
            &&& after.token_linked(ticker)
            &&& !after.identity.links.contains_key((Signatory::Identity(old.owner), old.link_id))
            &&& !after.identity.links.contains_key(
                (Signatory::Identity(token.owner_did), token.link_id),
            )
        }
    }

    /// The signatory as which `sender` accepts authorizations: the identity
    /// that it acts for, or the key itself where it acts for none.
    pub open spec fn accepting_signer(self, sender: AccountKey) -> Signatory {
        match self.identity.acting_did(sender) {
            Some(did) => Signatory::Identity(did),
            None => Signatory::AccountKey(sender),
        }
    }

    /// What `sender` is answered when it accepts the authorization
    /// `auth_id` at time `now`.
    pub open spec fn accept_authorization_result(self, sender: AccountKey, auth_id: u64, now: u64) -> Result<
        Accepted,
        Error,
    > {
        let signer = self.accepting_signer(sender);
        if !self.identity.authorizations.contains_key((signer, auth_id)) {
            Err(Error::InvalidAuth)
        } else {
            let data = self.identity.authorizations[(signer, auth_id)].authorization_data;
            match (signer, data) {
                (Signatory::Identity(did), AuthorizationData::TransferTicker(_)) => {
                    match self.accept_ticker_transfer_check(did, auth_id, now) {
                        Ok(_) => Ok(Accepted::Transferred),
                        Err(e) => Err(e),
                    }
                },
                (Signatory::Identity(did), AuthorizationData::TransferTokenOwnership(_)) => {
                    match self.accept_token_ownership_transfer_check(did, auth_id, now) {
                        Ok(_) => Ok(Accepted::Transferred),
                        Err(e) => Err(e),
                    }
                },
                (_, AuthorizationData::AddMultiSigSigner) => Ok(Accepted::MultiSigSigner(signer)),
                _ => Err(Error::UnknownAuthorization),
            }
        }
    }

    /// The ledger after `sender` has accepted the authorization `auth_id` at
    /// time `now`: changed where a ticker or a token has changed hands, and
    /// only there.
    pub open spec fn authorization_accepted(self, sender: AccountKey, auth_id: u64, now: u64) -> State {
        let signer = self.accepting_signer(sender);
        if self.accept_authorization_result(sender, auth_id, now) == Ok::<Accepted, Error>(
            Accepted::Transferred,
        ) {
            match (signer, self.identity.authorizations[(signer, auth_id)].authorization_data) {
                (
                    Signatory::Identity(did),
                    AuthorizationData::TransferTicker(t),
                ) => self.ticker_transferred(t.canonical(), did, auth_id, now),
                (
                    Signatory::Identity(did),
                    AuthorizationData::TransferTokenOwnership(t),
                ) => self.token_ownership_transferred(t.canonical(), did, auth_id, now),
                _ => self,
            }
        } else {
            self
        }
    }

    /// The ledger after `sender` has tried to accept the first `n` of
    /// `auth_ids`, in order.
    pub open spec fn batch_accepted(self, sender: AccountKey, auth_ids: Seq<u64>, now: u64, n: nat) -> State
        decreases n,
    {
        if n == 0 {
            self
        } else {
            self.batch_accepted(sender, auth_ids, now, (n - 1) as nat).authorization_accepted(
                sender,
                auth_ids[n - 1],
                now,
            )
        }
    }

    /// Accepting an authorization hands out two ids at most.
    pub proof fn lemma_accepted_nonce(self, sender: AccountKey, auth_id: u64, now: u64)
        requires
            self.identity.nonce < u64::MAX - 1,
        ensures
            self.identity.nonce <= self.authorization_accepted(sender, auth_id, now).identity.nonce
                <= self.identity.nonce + 2,
    {
    }

    /// Whether `ticker` can be registered by anyone at time `now`: it was
    /// never registered, or its registration has an expiry that has passed.
    pub open spec fn ticker_available(self, ticker: Ticker, now: u64) -> bool {
        !self.tickers.contains_key(ticker) || (self.tickers[ticker].expiry matches Some(e) && now
            > e)
    }

    /// Whether `ticker` is registered to `did` at time `now` and the
    /// registration has not expired.
    pub open spec fn ticker_registry_valid(self, ticker: Ticker, did: IdentityId, now: u64) -> bool {
        &&& self.tickers.contains_key(ticker)
        &&& self.tickers[ticker].owner == did
        &&& !(self.tickers[ticker].expiry matches Some(e) && now > e)
    }

    /// The status of `ticker` as `did` sees it at time `now`.
    pub open spec fn ticker_status(self, ticker: Ticker, did: IdentityId, now: u64) -> TickerRegistrationStatus {
        if self.ticker_available(ticker, now) {
            TickerRegistrationStatus::Available
        } else if self.tickers[ticker].owner == did {
            TickerRegistrationStatus::RegisteredByDid
        } else {
            TickerRegistrationStatus::RegisteredByOther
        }
    }

    /// The ledger after `ticker` was registered to `to` until `expiry`: the
    /// link of an earlier registration is removed, a new link is made under
    /// `to`, and the registration names it.
    pub open spec fn ticker_registered(self, ticker: Ticker, to: IdentityId, expiry: Option<u64>) -> State {
        let unlinked = if self.tickers.contains_key(ticker) {
            self.identity.remove_link(
                Signatory::Identity(self.tickers[ticker].owner),
                self.tickers[ticker].link_id,
            )
        } else {
            self.identity
        };
        State {
            identity: unlinked.add_link(
                Signatory::Identity(to),
                LinkDataView::TickerOwned(ticker),
                expiry,
            ),
            tickers: self.tickers.insert(
                ticker,
                TickerRegistration { owner: to, expiry: expiry, link_id: unlinked.next_id() },
            ),
            ..self
        }
    }

    /// When a registration made at time `now` expires.
    pub open spec fn registration_expiry(self, now: u64) -> Option<u64> {
        match self.ticker_config.registration_length {
            Some(length) => Some((now + length) as u64),
            None => None,
        }
    }

    /// Whether `sender` may register `ticker` at time `now` for `did`, the
    /// identity it acts for, and if not, why.
    pub open spec fn register_ticker_check(self, sender: AccountKey, ticker: Ticker, now: u64) -> Result<
        (),
        Error,
    > {
        match self.identity.acting_did(sender) {
            None => Err(Error::DidNotFound),
            Some(did) => if !self.identity.signer_authorized(did, Signatory::AccountKey(sender)) {
                Err(Error::SenderNotSigningKey)
            } else if self.tokens.contains_key(ticker) {
                Err(Error::TokenAlreadyCreated)
            } else if ticker.spec_len() > self.ticker_config.max_ticker_length {
                Err(Error::TickerTooLong)
            } else if self.ticker_status(ticker, did, now)
                == TickerRegistrationStatus::RegisteredByOther {
                Err(Error::TickerRegisteredToOther)
            } else {
                Ok(())
            },
        }
    }

    /// The ticker that the authorization `auth_id` of `to` transfers.
    pub open spec fn transfer_ticker_of(self, to: IdentityId, auth_id: u64) -> Option<Ticker> {
        match self.identity.auth(Signatory::Identity(to), auth_id).authorization_data {
            AuthorizationData::TransferTicker(t) => Some(t.canonical()),
            _ => None,
        }
    }

    /// Whether `to` may accept the transfer of a ticker under the
    /// authorization `auth_id` at time `now`, and if not, why.
    pub open spec fn accept_ticker_transfer_check(self, to: IdentityId, auth_id: u64, now: u64) -> Result<
        (),
        Error,
    > {
        let target = Signatory::Identity(to);
        if !self.identity.authorizations.contains_key((target, auth_id)) {
            Err(Error::AuthorizationDoesNotExist)
        } else {
            match self.transfer_ticker_of(to, auth_id) {
                None => Err(Error::NoTickerTransferAuth),
                Some(ticker) => if self.tokens.contains_key(ticker) {
                    Err(Error::TokenAlreadyCreated)
                } else {
                    match self.identity.consume_auth_check(
                        Signatory::Identity(self.registration(ticker).owner),
                        target,
                        auth_id,
                        now,
                    ) {
                        Err(e) => Err(Error::of_authorization(e)),
                        Ok(_) => Ok(()),
                    }
                },
            }
        }
    }

    /// The ledger after `to` has accepted the transfer of `ticker` under the
    /// authorization `auth_id`: the authorization is consumed, the old
    /// owner's link is removed, and the registration names `to` and a new
    /// link under `to`, with the expiry it had.
    pub open spec fn ticker_transferred(self, ticker: Ticker, to: IdentityId, auth_id: u64, now: u64) -> State {
        let details = self.registration(ticker);
        let unlinked = self.identity.consume_auth(
            Signatory::Identity(details.owner),
            Signatory::Identity(to),
            auth_id,
            now,
        ).remove_link(Signatory::Identity(details.owner), details.link_id);
        State {
            identity: unlinked.add_link(
                Signatory::Identity(to),
                LinkDataView::TickerOwned(ticker),
                details.expiry,
            ),
            tickers: self.tickers.insert(
                ticker,
                TickerRegistration { owner: to, link_id: unlinked.next_id(), ..details },
            ),
            ..self
        }
    }

    /// The ticker of the token whose ownership the authorization `auth_id` of
    /// `to` transfers.
    pub open spec fn transfer_token_of(self, to: IdentityId, auth_id: u64) -> Option<Ticker> {
        match self.identity.auth(Signatory::Identity(to), auth_id).authorization_data {
            AuthorizationData::TransferTokenOwnership(t) => Some(t.canonical()),
            _ => None,
        }
    }

    /// Whether `to` may accept the ownership of a token under the
    /// authorization `auth_id` at time `now`, and if not, why.
    pub open spec fn accept_token_ownership_transfer_check(
        self,
        to: IdentityId,
        auth_id: u64,
        now: u64,
    ) -> Result<(), Error> {
        let target = Signatory::Identity(to);
        if !self.identity.authorizations.contains_key((target, auth_id)) {
            Err(Error::AuthorizationDoesNotExist)
        } else {
            match self.transfer_token_of(to, auth_id) {
                None => Err(Error::NotTickerOwnershipTransferAuth),
                Some(ticker) => if !self.tokens.contains_key(ticker) {
                    Err(Error::NoSuchToken)
                } else {
                    match self.identity.consume_auth_check(
                        Signatory::Identity(self.token(ticker).owner_did),
                        target,
                        auth_id,
                        now,
                    ) {
                        Err(e) => Err(Error::of_authorization(e)),
                        Ok(_) => Ok(()),
                    }
                },
            }
        }
    }

    /// The ledger after `to` has accepted the ownership of the token
    /// `ticker` under the authorization `auth_id`: the authorization is
    /// consumed, the links of the old owners of ticker and token are removed,
    /// and registration and token name `to` and two new links under `to`
    /// that never expire.
    pub open spec fn token_ownership_transferred(
        self,
        ticker: Ticker,
        to: IdentityId,
        auth_id: u64,
        now: u64,
    ) -> State {
        let token = self.token(ticker);
        let details = self.registration(ticker);
        let unlinked = self.identity.consume_auth(
            Signatory::Identity(token.owner_did),
            Signatory::Identity(to),
            auth_id,
            now,
        ).remove_link(Signatory::Identity(details.owner), details.link_id).remove_link(
            Signatory::Identity(token.owner_did),
            token.link_id,
        );
        let ticker_linked = unlinked.add_link(
            Signatory::Identity(to),
            LinkDataView::TickerOwned(ticker),
            None,
        );
        State {
            identity: ticker_linked.add_link(
                Signatory::Identity(to),
                LinkDataView::TokenOwned(ticker),
                None,
            ),
            tickers: self.tickers.insert(
                ticker,
                TickerRegistration { owner: to, link_id: unlinked.next_id(), ..details },
            ),
            tokens: self.tokens.insert(
                ticker,
                SecurityTokenView { owner_did: to, link_id: ticker_linked.next_id(), ..token },
            ),
            ..self
        }
    }
}

impl Module {
    /// Whether `ticker`, in canonical form, can be registered by anyone at
    /// time `now`.
    pub fn is_ticker_available(&self, ticker: &Ticker, now: u64) -> (r: bool)
        requires
            self.wf(),
        ensures
            r == self@.ticker_available(*ticker, now),
    {
        match self.tickers.get(ticker) {
            Some(registration) => match registration.expiry {
                Some(expiry) => now > expiry,
                None => false,
            },
            None => true,
        }
    }

    /// Whether `ticker`, in canonical form, is registered to `did` at time
    /// `now` and the registration has not expired.
    pub fn is_ticker_registry_valid(&self, ticker: &Ticker, did: IdentityId, now: u64) -> (r: bool)
        requires
            self.wf(),
        ensures
            r == self@.ticker_registry_valid(*ticker, did, now),
    {
        match self.tickers.get(ticker) {
            Some(registration) => {
                if crate::table::Key::same(&registration.owner, &did) {
                    match registration.expiry {
                        Some(expiry) => !(now > expiry),
                        None => true,
                    }
                } else {
                    false
                }
            },
            None => false,
        }
    }

    /// The status of `ticker`, in canonical form, as `did` sees it at time
    /// `now`: available where it was never registered or its registration
    /// has expired, else registered to `did` or to someone else.
    pub fn is_ticker_available_or_registered_to(&self, ticker: &Ticker, did: IdentityId, now: u64) -> (r:
        TickerRegistrationStatus)
        requires
            self.wf(),
        ensures
            r == self@.ticker_status(*ticker, did, now),
    {
        match self.tickers.get(ticker) {
            Some(registration) => {
                if let Some(expiry) = registration.expiry {
                    if now > expiry {
                        return TickerRegistrationStatus::Available;
                    } else if crate::table::Key::same(&registration.owner, &did) {
                        return TickerRegistrationStatus::RegisteredByDid;
                    }
                } else if crate::table::Key::same(&registration.owner, &did) {
                    return TickerRegistrationStatus::RegisteredByDid;
                }
                TickerRegistrationStatus::RegisteredByOther
            },
            None => TickerRegistrationStatus::Available,
        }
    }

    /// Registers `ticker` to `to_did` until `expiry`, with no question of
    /// who asks.
    pub(crate) fn _register_ticker(&mut self, ticker: &Ticker, to_did: IdentityId, expiry: Option<u64>)
        requires
            old(self).wf(),
            old(self)@.identity.nonce < u64::MAX,
        ensures
            final(self).wf(),
            final(self)@ == old(self)@.ticker_registered(*ticker, to_did, expiry),
            final(self)@.registration(*ticker).owner == to_did,
            old(self)@.ticker_linked(*ticker) ==> final(self)@.ticker_linked(*ticker),
            old(self)@.linked() ==> final(self)@.linked(),
    {
        let existing = match self.tickers.get(ticker) {
            Some(details) => Some((details.owner, details.link_id)),
            None => None,
        };
        if let Some((owner, link_id)) = existing {
            self.identity.remove_link(Signatory::Identity(owner), link_id);
        }
        let link = self.identity.add_link(
            Signatory::Identity(to_did),
            LinkData::TickerOwned(*ticker),
            expiry,
        );
        self.tickers.insert(*ticker, TickerRegistration { owner: to_did, expiry, link_id: link });
        proof {
            old(self)@.lemma_inv_frame(self@);
            if old(self)@.ticker_linked(*ticker) {
                old(self)@.law_register_links(*ticker, to_did, expiry, *ticker);
            }
            if old(self)@.linked() {
                old(self)@.law_register_keeps_linked(*ticker, to_did, expiry);
            }
        }
    }

    /// Registers `ticker`, or renews its registration, for the identity that
    /// `sender` acts for. The registration holds from `now` for the length
    /// that the rules give, or for ever where they give none.
    pub fn register_ticker(&mut self, sender: AccountKey, ticker: Ticker, now: u64) -> (r: Result<
        (),
        Error,
    >)
        requires
            old(self).wf(),
            old(self)@.identity.nonce < u64::MAX,
            old(self)@.ticker_config.registration_length matches Some(length) ==> now + length
                <= u64::MAX,
        ensures
            final(self).wf(),
            r == old(self)@.register_ticker_check(sender, ticker.canonical(), now),
            r.is_ok() ==> final(self)@ == old(self)@.ticker_registered(
                ticker.canonical(),
                old(self)@.identity.acting_did(sender).unwrap(),
                old(self)@.registration_expiry(now),
            ),
            r.is_err() ==> final(self)@ == old(self)@,
            r.is_ok() && old(self)@.ticker_linked(ticker.canonical()) ==> final(self)@.ticker_linked(
                ticker.canonical(),
            ),
            old(self)@.linked() ==> final(self)@.linked(),
    {
        let to_did = match self.identity.acting_did(&sender) {
            Some(d) => d,
            None => { return Err(Error::DidNotFound); },
        };
        let mut ticker = ticker;
        ticker.canonize();
        if !self.identity.is_signer_authorized(to_did, &Signatory::AccountKey(sender)) {
            return Err(Error::SenderNotSigningKey);
        }
        if self.tokens.contains_key(&ticker) {
            return Err(Error::TokenAlreadyCreated);
        }
        let max_len: usize = self.ticker_config.max_ticker_length as usize;
        if ticker.len() > max_len {
            return Err(Error::TickerTooLong);
        }
        if self.is_ticker_available_or_registered_to(&ticker, to_did, now)
            == TickerRegistrationStatus::RegisteredByOther {
            return Err(Error::TickerRegisteredToOther);
        }
        let expiry: Option<u64> = match self.ticker_config.registration_length {
            Some(length) => Some(now + length),
            None => None,
        };
        self._register_ticker(&ticker, to_did, expiry);
        Ok(())
    }

    /// Accepts and carries out the transfer of a ticker to `to_did` under
    /// the authorization `auth_id`, at time `now`.
    pub fn _accept_ticker_transfer(&mut self, to_did: IdentityId, auth_id: u64, now: u64) -> (r: Result<
        (),
        Error,
    >)
        requires
            old(self).wf(),
            old(self)@.identity.nonce < u64::MAX,
        ensures
            final(self).wf(),
            r == old(self)@.accept_ticker_transfer_check(to_did, auth_id, now),
            r.is_ok() ==> final(self)@ == old(self)@.ticker_transferred(
                old(self)@.transfer_ticker_of(to_did, auth_id).unwrap(),
                to_did,
                auth_id,
                now,
            ),
            r.is_err() ==> final(self)@ == old(self)@,
            r.is_ok() ==> old(self)@.ticker_handed_over(
                final(self)@,
                old(self)@.transfer_ticker_of(to_did, auth_id).unwrap(),
                to_did,
                auth_id,
            ),
            old(self)@.linked() ==> final(self)@.linked(),
    {
        let target = Signatory::Identity(to_did);
        if !self.identity.authorization_exists(&target, auth_id) {
            return Err(Error::AuthorizationDoesNotExist);
        }
        let auth = self.identity.authorizations(&target, auth_id);
        let ticker = match auth.authorization_data {
            AuthorizationData::TransferTicker(t) => {
                let mut t = t;
                t.canonize();
                t
            },
            _ => { return Err(Error::NoTickerTransferAuth); },
        };
        if self.tokens.contains_key(&ticker) {
            return Err(Error::TokenAlreadyCreated);
        }
        let ticker_details = self.ticker_registration(&ticker);
        if let Err(e) = self.identity.consume_auth(
            Signatory::Identity(ticker_details.owner),
            target,
            auth_id,
            now,
        ) {
            return Err(Error::from_authorization(e));
        }
        self.identity.remove_link(Signatory::Identity(ticker_details.owner), ticker_details.link_id);
        let link = self.identity.add_link(target, LinkData::TickerOwned(ticker), ticker_details.expiry);
        self.tickers.insert(
            ticker,
            TickerRegistration { owner: to_did, expiry: ticker_details.expiry, link_id: link },
        );
        proof {
            old(self)@.lemma_inv_frame(self@);
            old(self)@.law_ticker_transfer_consumes(to_did, auth_id, now);
            if old(self)@.ticker_linked(ticker) {
                old(self)@.law_ticker_transfer_atomic(to_did, auth_id, now, now, ticker);
            }
            if old(self)@.linked() {
                old(self)@.law_ticker_transfer_keeps_linked(to_did, auth_id, now);
            }
        }
        Ok(())
    }

    /// Accepts the transfer of a ticker under the authorization `auth_id`,
    /// for the identity that `sender` acts for.
    pub fn accept_ticker_transfer(&mut self, sender: AccountKey, auth_id: u64, now: u64) -> (r: Result<
        (),
        Error,
    >)
        requires
            old(self).wf(),
            old(self)@.identity.nonce < u64::MAX,
        ensures
            final(self).wf(),
            r == (match old(self)@.identity.acting_did(sender) {
                None => Err(Error::DidNotFound),
                Some(to) => old(self)@.accept_ticker_transfer_check(to, auth_id, now),
            }),
            r.is_ok() ==> final(self)@ == old(self)@.ticker_transferred(
                old(self)@.transfer_ticker_of(
                    old(self)@.identity.acting_did(sender).unwrap(),
                    auth_id,
                ).unwrap(),
                old(self)@.identity.acting_did(sender).unwrap(),
                auth_id,
                now,
            ),
            r.is_err() ==> final(self)@ == old(self)@,
            r.is_ok() ==> old(self)@.ticker_handed_over(
                final(self)@,
                old(self)@.transfer_ticker_of(
                    old(self)@.identity.acting_did(sender).unwrap(),
                    auth_id,
                ).unwrap(),
                old(self)@.identity.acting_did(sender).unwrap(),
                auth_id,
            ),
            old(self)@.linked() ==> final(self)@.linked(),
    {
        let to_did = match self.identity.acting_did(&sender) {
            Some(d) => d,
            None => { return Err(Error::DidNotFound); },
        };
        self._accept_ticker_transfer(to_did, auth_id, now)
    }

    /// Accepts and carries out the transfer of a token's ownership to
    /// `to_did` under the authorization `auth_id`, at time `now`.
    pub fn _accept_token_ownership_transfer(&mut self, to_did: IdentityId, auth_id: u64, now: u64) -> (r:
        Result<(), Error>)
        requires
            old(self).wf(),
            old(self)@.identity.nonce < u64::MAX - 1,
        ensures
            final(self).wf(),
            r == old(self)@.accept_token_ownership_transfer_check(to_did, auth_id, now),
            r.is_ok() ==> final(self)@ == old(self)@.token_ownership_transferred(
                old(self)@.transfer_token_of(to_did, auth_id).unwrap(),
                to_did,
                auth_id,
                now,
            ),
            r.is_err() ==> final(self)@ == old(self)@,
            r.is_ok() ==> old(self)@.token_handed_over(
                final(self)@,
                old(self)@.transfer_token_of(to_did, auth_id).unwrap(),
                to_did,
                auth_id,
            ),
            old(self)@.linked() ==> final(self)@.linked(),
    {
        let target = Signatory::Identity(to_did);
        if !self.identity.authorization_exists(&target, auth_id) {
            return Err(Error::AuthorizationDoesNotExist);
        }
        let auth = self.identity.authorizations(&target, auth_id);
        let ticker = match auth.authorization_data {
            AuthorizationData::TransferTokenOwnership(t) => {
                let mut t = t;
                t.canonize();
                t
            },
            _ => { return Err(Error::NotTickerOwnershipTransferAuth); },
        };
        let (token_owner, token_link_id) = match self.tokens.get(&ticker) {
            Some(t) => (t.owner_did, t.link_id),
            None => { return Err(Error::NoSuchToken); },
        };
        let ticker_details = self.ticker_registration(&ticker);
        if let Err(e) = self.identity.consume_auth(
            Signatory::Identity(token_owner),
            target,
            auth_id,
            now,
        ) {
            return Err(Error::from_authorization(e));
        }
        self.identity.remove_link(Signatory::Identity(ticker_details.owner), ticker_details.link_id);
        self.identity.remove_link(Signatory::Identity(token_owner), token_link_id);
        let ticker_link = self.identity.add_link(target, LinkData::TickerOwned(ticker), None);
        let token_link = self.identity.add_link(target, LinkData::TokenOwned(ticker), None);
        self.tickers.insert(
            ticker,
            TickerRegistration { owner: to_did, expiry: ticker_details.expiry, link_id: ticker_link },
        );
        let ghost mid = self@;
        let mut token = self.take_token(&ticker);
        token.owner_did = to_did;
        token.link_id = token_link;
        self.tokens.insert(ticker, token);
        proof {
            assert(self@.tokens =~= mid.tokens.insert(
                ticker,
                SecurityTokenView {
                    owner_did: to_did,
                    link_id: token_link,
                    ..old(self)@.token(ticker)
                },
            ));
            old(self)@.lemma_inv_frame(self@);
            old(self)@.law_token_transfer_consumes(to_did, auth_id, now);
            if old(self)@.ticker_linked(ticker) && old(self)@.token_linked(ticker) {
                old(self)@.law_token_transfer_atomic(to_did, auth_id, now, now, ticker);
            }
            if old(self)@.linked() {
                old(self)@.law_token_transfer_keeps_linked(to_did, auth_id, now);
            }
        }
        Ok(())
    }

    /// Accepts the transfer of a token's ownership under the authorization
    /// `auth_id`, for the identity that `sender` acts for.
    pub fn accept_token_ownership_transfer(&mut self, sender: AccountKey, auth_id: u64, now: u64) -> (r:
        Result<(), Error>)
        requires
            old(self).wf(),
            old(self)@.identity.nonce < u64::MAX - 1,
        ensures
            final(self).wf(),
            r == (match old(self)@.identity.acting_did(sender) {
                None => Err(Error::DidNotFound),
                Some(to) => old(self)@.accept_token_ownership_transfer_check(to, auth_id, now),
            }),
            r.is_ok() ==> final(self)@ == old(self)@.token_ownership_transferred(
                old(self)@.transfer_token_of(
                    old(self)@.identity.acting_did(sender).unwrap(),
                    auth_id,
                ).unwrap(),
                old(self)@.identity.acting_did(sender).unwrap(),
                auth_id,
                now,
            ),
            r.is_err() ==> final(self)@ == old(self)@,
            r.is_ok() ==> old(self)@.token_handed_over(
                final(self)@,
                old(self)@.transfer_token_of(
                    old(self)@.identity.acting_did(sender).unwrap(),
                    auth_id,
                ).unwrap(),
                old(self)@.identity.acting_did(sender).unwrap(),
                auth_id,
            ),
            old(self)@.linked() ==> final(self)@.linked(),
    {
        let to_did = match self.identity.acting_did(&sender) {
            Some(d) => d,
            None => { return Err(Error::DidNotFound); },
        };
        self._accept_token_ownership_transfer(to_did, auth_id, now)
    }

    /// Accepts the authorization `auth_id` that was given to the identity
    /// that `sender` acts for, or to the key `sender` itself where it acts
    /// for none: a ticker or a token changes hands; an invitation to sign for
    /// a multi-signature account is left to be acted on outside the ledger.
    pub fn accept_authorization(&mut self, sender: AccountKey, auth_id: u64, now: u64) -> (r: Result<
        Accepted,
        Error,
    >)
        requires
            old(self).wf(),
            old(self)@.identity.nonce < u64::MAX - 1,
        ensures
            final(self).wf(),
            r == old(self)@.accept_authorization_result(sender, auth_id, now),
            final(self)@ == old(self)@.authorization_accepted(sender, auth_id, now),
            old(self)@.linked() ==> final(self)@.linked(),
    {
        let signer = match self.identity.acting_did(&sender) {
            Some(did) => Signatory::Identity(did),
            None => Signatory::AccountKey(sender),
        };
        if !self.identity.authorization_exists(&signer, auth_id) {
            return Err(Error::InvalidAuth);
        }
        let auth = self.identity.authorizations(&signer, auth_id);
        match signer {
            Signatory::Identity(did) => match auth.authorization_data {
                AuthorizationData::TransferTicker(_) => {
                    match self._accept_ticker_transfer(did, auth_id, now) {
                        Ok(_) => Ok(Accepted::Transferred),
                        Err(e) => Err(e),
                    }
                },
                AuthorizationData::TransferTokenOwnership(_) => {
                    match self._accept_token_ownership_transfer(did, auth_id, now) {
                        Ok(_) => Ok(Accepted::Transferred),
                        Err(e) => Err(e),
                    }
                },
                AuthorizationData::AddMultiSigSigner => Ok(Accepted::MultiSigSigner(signer)),
                _ => Err(Error::UnknownAuthorization),
            },
            Signatory::AccountKey(_) => match auth.authorization_data {
                AuthorizationData::AddMultiSigSigner => Ok(Accepted::MultiSigSigner(signer)),
                _ => Err(Error::UnknownAuthorization),
            },
        }
    }

    /// Accepts the authorizations `auth_ids` one after the other, as
    /// `accept_authorization` does, and returns what came of each. One that
    /// cannot be accepted is passed over.
    pub fn batch_accept_authorization(&mut self, sender: AccountKey, auth_ids: &Vec<u64>, now: u64) -> (r: Vec<
        Result<Accepted, Error>,
    >)
        requires
            old(self).wf(),
            old(self)@.identity.nonce + 2 * auth_ids@.len() < u64::MAX,
        ensures
            final(self).wf(),
            final(self)@ == old(self)@.batch_accepted(sender, auth_ids@, now, auth_ids@.len()),
            r@.len() == auth_ids@.len(),
            forall|i: int|
                0 <= i < r@.len() ==> #[trigger] r@[i] == old(self)@.batch_accepted(
                    sender,
                    auth_ids@,
                    now,
                    i as nat,
                ).accept_authorization_result(sender, auth_ids@[i], now),
            old(self)@.linked() ==> final(self)@.linked(),
    {
        let mut results: Vec<Result<Accepted, Error>> = Vec::new();
        let mut i: usize = 0;
        while i < auth_ids.len()
            invariant
                i <= auth_ids@.len(),
                old(self)@.identity.nonce + 2 * auth_ids@.len() < u64::MAX,
                self.wf(),
                old(self)@.linked() ==> self@.linked(),
                self@ == old(self)@.batch_accepted(sender, auth_ids@, now, i as nat),
                self@.identity.nonce <= old(self)@.identity.nonce + 2 * i,
                results@.len() == i,
                forall|j: int|
                    0 <= j < i ==> #[trigger] results@[j] == old(self)@.batch_accepted(
                        sender,
                        auth_ids@,
                        now,
                        j as nat,
                    ).accept_authorization_result(sender, auth_ids@[j], now),
            decreases auth_ids@.len() - i,
        {
            let ghost before = self@;
            let result = self.accept_authorization(sender, auth_ids[i], now);
            proof {
                before.lemma_accepted_nonce(sender, auth_ids@[i as int], now);
            }
            results.push(result);
            i += 1;
        }
        results
    }
}

} // verus!
