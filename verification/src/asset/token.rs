//! Creating a token and managing what is recorded about it.

use crate::asset::state::State;
use crate::asset::types::{
    AssetType, IdentifierType, IdentifierTypeView, SecurityToken, SecurityTokenView,
    TickerRegistration, TickerRegistrationStatus, MAX_NAME_LEN, MAX_SUPPLY, ONE_UNIT,
};
use crate::asset::Module;
use crate::error::Error;
use crate::identity;
use crate::percentage_tm;
use crate::primitives::{clone_bytes, AccountKey, IdentityId, LinkData, LinkDataView, Signatory};
use crate::ticker::Ticker;
use vstd::prelude::*;

verus! {

/// The model of the name of a funding round, where one is given.
pub open spec fn round_view(round: Option<Vec<u8>>) -> Option<Seq<u8>> {
    match round {
        Some(name) => Some(name@),
        None => None,
    }
}

/// The models of a list of identifiers.
pub open spec fn identifiers_view(v: Seq<(IdentifierType, Vec<u8>)>) -> Seq<
    (IdentifierTypeView, Seq<u8>),
> {
    Seq::new(v.len(), |i: int| (v[i].0@, v[i].1@))
}

/// The map of identifiers after the first `n` of `ids` were written for
/// `ticker`, in order: of two values for one type the later one stays.
pub open spec fn identifiers_written(
    m: Map<(Ticker, IdentifierTypeView), Seq<u8>>,
    ticker: Ticker,
    ids: Seq<(IdentifierTypeView, Seq<u8>)>,
    n: nat,
) -> Map<(Ticker, IdentifierTypeView), Seq<u8>>
    decreases n,
{
    if n == 0 {
        m
    } else {
        identifiers_written(m, ticker, ids, (n - 1) as nat).insert(
            (ticker, ids[n - 1].0),
            ids[n - 1].1,
        )
    }
}

impl State {
    /// Whether `did`, for whom `sender` signs, may create a token under
    /// `ticker` at time `now`, as far as can be told before any fee is
    /// charged, and if not, why.
    pub open spec fn create_token_precheck(
        self,
        sender: AccountKey,
        did: IdentityId,
        name: Seq<u8>,
        ticker: Ticker,
        total_supply: u128,
        divisible: bool,
        now: u64,
    ) -> Result<(), Error> {
        if !self.identity.signer_authorized(did, Signatory::AccountKey(sender)) {
            Err(Error::SenderNotSigningKey)
        } else if self.tokens.contains_key(ticker) {
            Err(Error::TokenAlreadyCreated)
        } else if ticker.spec_len() > self.ticker_config.max_ticker_length {
            Err(Error::TickerTooLong)
        } else if name.len() > MAX_NAME_LEN {
            Err(Error::TokenNameTooLong)
        } else if self.ticker_status(ticker, did, now) == TickerRegistrationStatus::RegisteredByOther {
            Err(Error::TickerTaken)
        } else if !divisible && total_supply % ONE_UNIT != 0 {
            Err(Error::InvalidTotalSupply)
        } else if total_supply > MAX_SUPPLY {
            Err(Error::TotalSupplyAboveLimit)
        } else {
            Ok(())
        }
    }

    /// Whether `did`, for whom `sender` signs, may create a token under
    /// `ticker` at time `now`, with `token_did` as the identity of the asset,
    /// and if not, why.
    pub open spec fn create_token_check(
        self,
        sender: AccountKey,
        did: IdentityId,
        name: Seq<u8>,
        ticker: Ticker,
        total_supply: u128,
        divisible: bool,
        token_did: IdentityId,
        now: u64,
    ) -> Result<(), Error> {
        if self.create_token_precheck(sender, did, name, ticker, total_supply, divisible, now).is_err() {
            self.create_token_precheck(sender, did, name, ticker, total_supply, divisible, now)
        } else if self.identity.did_records.contains_key(token_did) {
            Err(Error::DidMustBeUnique)
        } else {
            Ok(())
        }
    }

    /// The ledger after the ticker of a token to be created was secured for
    /// `did`: registered for ever where it was available, else the expiry of
    /// its registration cleared; and the identity of the asset recorded.
    pub open spec fn ticker_secured(self, did: IdentityId, ticker: Ticker, token_did: IdentityId, now: u64) -> State {
        let s = State {
            identity: identity::State {
                did_records: self.identity.did_records.insert(
                    token_did,
                    identity::DidRecordView::absent(),
                ),
                ..self.identity
            },
            ..self
        };
        if self.ticker_status(ticker, did, now) == TickerRegistrationStatus::Available {
            s.ticker_registered(ticker, did, None)
        } else {
            State {
                tickers: s.tickers.insert(
                    ticker,
                    TickerRegistration { expiry: None, ..s.registration(ticker) },
                ),
                ..s
            }
        }
    }

    /// The ledger after the token was created: the ticker is secured, a link
    /// under `did` says that it owns the token, the whole supply is the
    /// balance of `did`, whose balance before is taken down under the latest
    /// checkpoint, and identifiers and funding round are recorded.
    pub open spec fn token_created(
        self,
        did: IdentityId,
        name: Seq<u8>,
        ticker: Ticker,
        total_supply: u128,
        divisible: bool,
        asset_type: crate::asset::types::AssetTypeView,
        identifiers: Seq<(IdentifierTypeView, Seq<u8>)>,
        funding_round: Option<Seq<u8>>,
        token_did: IdentityId,
        now: u64,
    ) -> State {
        let s = self.ticker_secured(did, ticker, token_did, now).update_checkpoint(
            ticker,
            did,
            self.balance(ticker, did),
        );
        State {
            identity: s.identity.add_link(
                Signatory::Identity(did),
                LinkDataView::TokenOwned(ticker),
                None,
            ),
            tokens: s.tokens.insert(
                ticker,
                SecurityTokenView {
                    name: name,
                    total_supply: total_supply,
                    owner_did: did,
                    divisible: divisible,
                    asset_type: asset_type,
                    link_id: s.identity.next_id(),
                },
            ),
            balance_of: s.balance_of.insert((ticker, did), total_supply),
            identifiers: identifiers_written(s.identifiers, ticker, identifiers, identifiers.len()),
            funding_round: match funding_round {
                Some(round) => s.funding_round.insert(ticker, round),
                None => s.funding_round,
            },
            ..s
        }
    }

    /// Whether `sender` may act on the token `ticker` as a key of its owner,
    /// and if not, why.
    pub open spec fn owner_key_check(self, sender: AccountKey, ticker: Ticker) -> Result<(), Error> {
        if !self.tokens.contains_key(ticker) {
            Err(Error::TokenDoesNotExist)
        } else if !self.identity.signer_authorized(
            self.tokens[ticker].owner_did,
            Signatory::AccountKey(sender),
        ) {
            Err(Error::SenderNotOwnerKey)
        } else {
            Ok(())
        }
    }

    /// Whether `sender` may freeze `ticker`, and if not, why.
    pub open spec fn freeze_check(self, sender: AccountKey, ticker: Ticker) -> Result<(), Error> {
        if self.owner_key_check(sender, ticker).is_err() {
            self.owner_key_check(sender, ticker)
        } else if self.is_frozen(ticker) {
            Err(Error::AlreadyFrozen)
        } else {
            Ok(())
        }
    }

    /// Whether `sender` may unfreeze `ticker`, and if not, why.
    pub open spec fn unfreeze_check(self, sender: AccountKey, ticker: Ticker) -> Result<(), Error> {
        if self.owner_key_check(sender, ticker).is_err() {
            self.owner_key_check(sender, ticker)
        } else if !self.is_frozen(ticker) {
            Err(Error::NotFrozen)
        } else {
            Ok(())
        }
    }

    /// Whether `sender` signs for `did` and `did` owns `ticker`; `denied` is
    /// the error where `did` does not.
    pub open spec fn owner_check(self, sender: AccountKey, did: IdentityId, ticker: Ticker, denied: Error) -> Result<
        (),
        Error,
    > {
        if !self.identity.signer_authorized(did, Signatory::AccountKey(sender)) {
            Err(Error::SenderNotSigningKey)
        } else if !self.is_owner(ticker, did) {
            Err(denied)
        } else {
            Ok(())
        }
    }

    /// Whether the owner `did` may make `ticker` divisible, and if not, why.
    pub open spec fn make_divisible_check(self, sender: AccountKey, did: IdentityId, ticker: Ticker) -> Result<
        (),
        Error,
    > {
        if self.owner_check(sender, did, ticker, Error::NotAuthorized).is_err() {
            self.owner_check(sender, did, ticker, Error::NotAuthorized)
        } else if self.token(ticker).divisible {
            Err(Error::AlreadyDivisible)
        } else {
            Ok(())
        }
    }
}

impl Module {
    /// Whether `sender` signs for `did` and `did` owns `ticker`.
    pub(crate) fn check_owner(&self, sender: AccountKey, did: IdentityId, ticker: &Ticker, denied: Error) -> (r:
        Result<(), Error>)
        requires
            self.wf(),
        ensures
            r == self@.owner_check(sender, did, *ticker, denied),
    {
        if !self.identity.is_signer_authorized(did, &Signatory::AccountKey(sender)) {
            return Err(Error::SenderNotSigningKey);
        }
        if !self.is_owner(ticker, did) {
            return Err(denied);
        }
        Ok(())
    }

    fn check_owner_key(&self, sender: AccountKey, ticker: &Ticker) -> (r: Result<(), Error>)
        requires
            self.wf(),
        ensures
            r == self@.owner_key_check(sender, *ticker),
    {
        let owner = match self.tokens.get(ticker) {
            Some(t) => t.owner_did,
            None => { return Err(Error::TokenDoesNotExist); },
        };
        if !self.identity.is_signer_authorized(owner, &Signatory::AccountKey(sender)) {
            return Err(Error::SenderNotOwnerKey);
        }
        Ok(())
    }

    /// Writes the identifiers for `ticker`, in order.
    fn write_identifiers(&mut self, ticker: Ticker, identifiers: &Vec<(IdentifierType, Vec<u8>)>)
        requires
            old(self).consistent(),
        ensures
            final(self).consistent(),
            final(self)@ == (State {
                identifiers: identifiers_written(
                    old(self)@.identifiers,
                    ticker,
                    identifiers_view(identifiers@),
                    identifiers@.len(),
                ),
                ..old(self)@
            }),
            old(self)@.linked() ==> final(self)@.linked(),
    {
        let mut i: usize = 0;
        while i < identifiers.len()
            invariant
                i <= identifiers@.len(),
                self.consistent(),
                self@ == (State {
                    identifiers: identifiers_written(
                        old(self)@.identifiers,
                        ticker,
                        identifiers_view(identifiers@),
                        i as nat,
                    ),
                    ..old(self)@
                }),
            decreases identifiers@.len() - i,
        {
            let ghost before = self@;
            let typ = identifiers[i].0.duplicate();
            let val = clone_bytes(&identifiers[i].1);
            self.identifiers.insert((ticker, typ), val);
            proof {
                before.lemma_inv_frame(self@);
            }
            i += 1;
        }
        proof {
            if old(self)@.linked() {
                old(self)@.law_linked_frame(self@);
            }
        }
    }

    /// Tells whether `did`, for whom `sender` signs, may create a token
    /// under `ticker` at time `now`, as far as can be told before any fee is
    /// charged. Changes nothing.
    pub fn check_create_token(
        &self,
        sender: AccountKey,
        did: IdentityId,
        name: &Vec<u8>,
        ticker: Ticker,
        total_supply: u128,
        divisible: bool,
        now: u64,
    ) -> (r: Result<(), Error>)
        requires
            self.wf(),
        ensures
            r == self@.create_token_precheck(
                sender,
                did,
                name@,
                ticker.canonical(),
                total_supply,
                divisible,
                now,
            ),
    {
        if !self.identity.is_signer_authorized(did, &Signatory::AccountKey(sender)) {
            return Err(Error::SenderNotSigningKey);
        }
        let mut ticker = ticker;
        ticker.canonize();
        if self.tokens.contains_key(&ticker) {
            return Err(Error::TokenAlreadyCreated);
        }
        let max_len: usize = self.ticker_config.max_ticker_length as usize;
        if ticker.len() > max_len {
            return Err(Error::TickerTooLong);
        }
        if name.len() > MAX_NAME_LEN {
            return Err(Error::TokenNameTooLong);
        }
        let status = self.is_ticker_available_or_registered_to(&ticker, did, now);
        if status == TickerRegistrationStatus::RegisteredByOther {
            return Err(Error::TickerTaken);
        }
        if !divisible && total_supply % ONE_UNIT != 0 {
            return Err(Error::InvalidTotalSupply);
        }
        if total_supply > MAX_SUPPLY {
            return Err(Error::TotalSupplyAboveLimit);
        }
        Ok(())
    }

    /// Creates a token under `ticker` with `did` as its owner and holder of
    /// the whole supply. `token_did` is the identity of the asset, to which
    /// its documents are linked.
    pub fn create_token(
        &mut self,
        sender: AccountKey,
        did: IdentityId,
        name: Vec<u8>,
        ticker: Ticker,
        total_supply: u128,
        divisible: bool,
        asset_type: AssetType,
        identifiers: &Vec<(IdentifierType, Vec<u8>)>,
        funding_round: Option<Vec<u8>>,
        token_did: IdentityId,
        now: u64,
    ) -> (r: Result<(), Error>)
        requires
            old(self).wf(),
            old(self)@.identity.nonce < u64::MAX - 1,
        ensures
            final(self).wf(),
            r == old(self)@.create_token_check(
                sender,
                did,
                name@,
                ticker.canonical(),
                total_supply,
                divisible,
                token_did,
                now,
            ),
            r.is_ok() ==> final(self)@ == old(self)@.token_created(
                did,
                name@,
                ticker.canonical(),
                total_supply,
                divisible,
                asset_type@,
                identifiers_view(identifiers@),
                match funding_round {
                    Some(round) => Some(round@),
                    None => None,
                },
                token_did,
                now,
            ),
            r.is_err() ==> final(self)@ == old(self)@,
            r.is_ok() ==> final(self)@.token(ticker.canonical()).owner_did == did
                && final(self)@.registration(ticker.canonical()).owner == did,
            r.is_ok() && old(self)@.ticker_linked(ticker.canonical()) && old(self)@.token_linked(
                ticker.canonical(),
            ) ==> final(self)@.ticker_linked(ticker.canonical()) && final(self)@.token_linked(
                ticker.canonical(),
            ),
            old(self)@.linked() ==> final(self)@.linked(),
    {
        let ghost round_name: Option<Seq<u8>> = round_view(funding_round);
        if let Err(e) = self.check_create_token(sender, did, &name, ticker, total_supply, divisible, now) {
            return Err(e);
        }
        let mut ticker = ticker;
        ticker.canonize();
        let status = self.is_ticker_available_or_registered_to(&ticker, did, now);
        let balance_before = self.balance_of(&ticker, did);
        if let Err(e) = self.identity.register_asset_did(token_did) {
            return Err(e);
        }
        proof {
            old(self)@.lemma_inv_frame(self@);
        }
        if status == TickerRegistrationStatus::Available {
            self._register_ticker(&ticker, did, None);
        } else {
            let mut registration = self.ticker_registration(&ticker);
            registration.expiry = None;
            self.tickers.insert(ticker, registration);
        }
        let ghost secured = self@;
        assert(secured == old(self)@.ticker_secured(did, ticker, token_did, now));
        let link = self.identity.add_link(Signatory::Identity(did), LinkData::TokenOwned(ticker), None);
        let token = SecurityToken {
            name,
            total_supply,
            owner_did: did,
            divisible,
            asset_type,
            link_id: link,
        };
        self.tokens.insert(ticker, token);
        proof {
            old(self)@.lemma_inv_frame(self@);
        }
        self._update_checkpoint(&ticker, did, balance_before);
        let ghost noted = self@;
        self.balance_of.insert((ticker, did), total_supply);
        if let Some(round) = funding_round {
            self.funding_round.insert(ticker, round);
        }
        proof {
            noted.lemma_inv_frame(self@);
        }
        self.write_identifiers(ticker, identifiers);
        proof {
            let before = old(self)@;
            assert forall|t: Ticker| #[trigger] self@.conserved(t) by {
                before.law_create_conserves(
                    did,
                    name@,
                    ticker,
                    total_supply,
                    divisible,
                    asset_type@,
                    identifiers_view(identifiers@),
                    round_name,
                    token_did,
                    now,
                    t,
                );
            }
            assert(before.ticker_secured(did, ticker, token_did, now).registration(ticker).owner
                == did);
            if before.linked() {
                before.law_create_keeps_linked(
                    did,
                    name@,
                    ticker,
                    total_supply,
                    divisible,
                    asset_type@,
                    identifiers_view(identifiers@),
                    round_name,
                    token_did,
                    now,
                );
            }
            if before.ticker_linked(ticker) && before.token_linked(ticker) {
                before.law_create_links(
                    did,
                    name@,
                    ticker,
                    total_supply,
                    divisible,
                    asset_type@,
                    identifiers_view(identifiers@),
                    round_name,
                    token_did,
                    now,
                    ticker,
                );
            }
        }
        Ok(())
    }

    /// Freezes transfers and issuance of `ticker`. Only a key of the owner
    /// can.
    pub fn freeze(&mut self, sender: AccountKey, ticker: Ticker) -> (r: Result<(), Error>)
        requires
            old(self).wf(),
        ensures
            final(self).wf(),
            r == old(self)@.freeze_check(sender, ticker.canonical()),
            r.is_ok() ==> final(self)@ == (State {
                frozen: old(self)@.frozen.insert(ticker.canonical(), true),
                ..old(self)@
            }),
            r.is_err() ==> final(self)@ == old(self)@,
            old(self)@.linked() ==> final(self)@.linked(),
    {
        let mut ticker = ticker;
        ticker.canonize();
        if let Err(e) = self.check_owner_key(sender, &ticker) {
            return Err(e);
        }
        if self.frozen(&ticker) {
            return Err(Error::AlreadyFrozen);
        }
        self.frozen.insert(ticker, true);
        proof {
            old(self)@.lemma_inv_frame(self@);
        }
        Ok(())
    }

    /// Lifts the freeze of `ticker`. Only a key of the owner can.
    pub fn unfreeze(&mut self, sender: AccountKey, ticker: Ticker) -> (r: Result<(), Error>)
        requires
            old(self).wf(),
        ensures
            final(self).wf(),
            r == old(self)@.unfreeze_check(sender, ticker.canonical()),
            r.is_ok() ==> final(self)@ == (State {
                frozen: old(self)@.frozen.insert(ticker.canonical(), false),
                ..old(self)@
            }),
            r.is_err() ==> final(self)@ == old(self)@,
            old(self)@.linked() ==> final(self)@.linked(),
    {
        let mut ticker = ticker;
        ticker.canonize();
        if let Err(e) = self.check_owner_key(sender, &ticker) {
            return Err(e);
        }
        if !self.frozen(&ticker) {
            return Err(Error::NotFrozen);
        }
        self.frozen.insert(ticker, false);
        proof {
            old(self)@.lemma_inv_frame(self@);
        }
        Ok(())
    }

    /// Gives the token `ticker` the name `name`. Only a key of the owner
    /// can.
    pub fn rename_token(&mut self, sender: AccountKey, ticker: Ticker, name: Vec<u8>) -> (r: Result<
        (),
        Error,
    >)
        requires
            old(self).wf(),
        ensures
            final(self).wf(),
            r == old(self)@.owner_key_check(sender, ticker.canonical()),
            r.is_ok() ==> final(self)@ == (State {
                tokens: old(self)@.tokens.insert(
                    ticker.canonical(),
                    SecurityTokenView { name: name@, ..old(self)@.token(ticker.canonical()) },
                ),
                ..old(self)@
            }),
            r.is_err() ==> final(self)@ == old(self)@,
            old(self)@.linked() ==> final(self)@.linked(),
    {
        let mut ticker = ticker;
        ticker.canonize();
        if let Err(e) = self.check_owner_key(sender, &ticker) {
            return Err(e);
        }
        let mut token = self.take_token(&ticker);
        token.name = name;
        self.tokens.insert(ticker, token);
        proof {
            assert(self@.tokens =~= old(self)@.tokens.insert(
                ticker,
                SecurityTokenView { name: name@, ..old(self)@.token(ticker) },
            ));
            old(self)@.lemma_inv_frame(self@);
        }
        Ok(())
    }

    /// Makes an indivisible token divisible. Only the owner `did` can, and
    /// there is no way back.
    pub fn make_divisible(&mut self, sender: AccountKey, did: IdentityId, ticker: Ticker) -> (r: Result<
        (),
        Error,
    >)
        requires
            old(self).wf(),
        ensures
            final(self).wf(),
            r == old(self)@.make_divisible_check(sender, did, ticker.canonical()),
            r.is_ok() ==> final(self)@ == (State {
                tokens: old(self)@.tokens.insert(
                    ticker.canonical(),
                    SecurityTokenView { divisible: true, ..old(self)@.token(ticker.canonical()) },
                ),
                ..old(self)@
            }),
            r.is_err() ==> final(self)@ == old(self)@,
            old(self)@.linked() && old(self)@.tokens.contains_key(ticker.canonical())
                ==> final(self)@.linked(),
    {
        let mut ticker = ticker;
        ticker.canonize();
        if let Err(e) = self.check_owner(sender, did, &ticker, Error::NotAuthorized) {
            return Err(e);
        }
        let divisible = match self.tokens.get(&ticker) {
            Some(t) => t.divisible,
            None => false,
        };
        if divisible {
            return Err(Error::AlreadyDivisible);
        }
        let mut token = self.take_token(&ticker);
        token.divisible = true;
        self.tokens.insert(ticker, token);
        proof {
            assert(self@.tokens =~= old(self)@.tokens.insert(
                ticker,
                SecurityTokenView { divisible: true, ..old(self)@.token(ticker) },
            ));
            old(self)@.lemma_inv_frame(self@);
        }
        Ok(())
    }

    /// Sets the name of the current funding round of `ticker`. Only the
    /// owner `did` can.
    pub fn set_funding_round(&mut self, sender: AccountKey, did: IdentityId, ticker: Ticker, name: Vec<u8>) -> (r:
        Result<(), Error>)
        requires
            old(self).wf(),
        ensures
            final(self).wf(),
            r == old(self)@.owner_check(sender, did, ticker.canonical(), Error::DidNotAssetOwner),
            r.is_ok() ==> final(self)@ == (State {
                funding_round: old(self)@.funding_round.insert(ticker.canonical(), name@),
                ..old(self)@
            }),
            r.is_err() ==> final(self)@ == old(self)@,
            old(self)@.linked() ==> final(self)@.linked(),
    {
        let mut ticker = ticker;
        ticker.canonize();
        if let Err(e) = self.check_owner(sender, did, &ticker, Error::DidNotAssetOwner) {
            return Err(e);
        }
        self.funding_round.insert(ticker, name);
        proof {
            old(self)@.lemma_inv_frame(self@);
        }
        Ok(())
    }

    /// Writes identifiers of the token `ticker`, in order. Only the owner
    /// `did` can.
    pub fn update_identifiers(
        &mut self,
        sender: AccountKey,
        did: IdentityId,
        ticker: Ticker,
        identifiers: &Vec<(IdentifierType, Vec<u8>)>,
    ) -> (r: Result<(), Error>)
        requires
            old(self).wf(),
        ensures
            final(self).wf(),
            r == old(self)@.owner_check(sender, did, ticker.canonical(), Error::NotAuthorized),
            r.is_ok() ==> final(self)@ == (State {
                identifiers: identifiers_written(
                    old(self)@.identifiers,
                    ticker.canonical(),
                    identifiers_view(identifiers@),
                    identifiers@.len(),
                ),
                ..old(self)@
            }),
            r.is_err() ==> final(self)@ == old(self)@,
            old(self)@.linked() ==> final(self)@.linked(),
    {
        let mut ticker = ticker;
        ticker.canonize();
        if let Err(e) = self.check_owner(sender, did, &ticker, Error::NotAuthorized) {
            return Err(e);
        }
        self.write_identifiers(ticker, identifiers);
        proof {
            old(self)@.lemma_supply_frame(self@);
            if old(self)@.linked() {
                old(self)@.law_linked_frame(self@);
            }
        }
        Ok(())
    }

    /// Sets the largest share of `ticker` that one investor may come to hold,
    /// in percent; `0` lifts the cap. Only the owner `did` can.
    pub fn toggle_maximum_percentage_restriction(
        &mut self,
        sender: AccountKey,
        did: IdentityId,
        ticker: Ticker,
        max_percentage: u16,
    ) -> (r: Result<(), Error>)
        requires
            old(self).wf(),
        ensures
            final(self).wf(),
            r == old(self)@.owner_check(sender, did, ticker.canonical(), Error::NotOwner),
            r.is_ok() ==> final(self)@ == (State {
                percentage: percentage_tm::State {
                    maximum_percentage_enabled_for_token: old(
                        self,
                    )@.percentage.maximum_percentage_enabled_for_token.insert(
                        ticker.canonical(),
                        max_percentage,
                    ),
                },
                ..old(self)@
            }),
            r.is_err() ==> final(self)@ == old(self)@,
            old(self)@.linked() ==> final(self)@.linked(),
    {
        let mut ticker = ticker;
        ticker.canonize();
        if let Err(e) = self.check_owner(sender, did, &ticker, Error::NotOwner) {
            return Err(e);
        }
        self.percentage.set_maximum_percentage(ticker, max_percentage);
        proof {
            old(self)@.lemma_inv_frame(self@);
        }
        Ok(())
    }
}

} // verus!
