//! Redeeming tokens: taking them out of a balance and out of the supply.

use crate::asset::state::State;
use crate::asset::types::{Compliance, SecurityTokenView};
use crate::asset::Module;
use crate::error::Error;
use crate::primitives::{AccountKey, IdentityId, Signatory};
use crate::ticker::Ticker;
use vstd::prelude::*;

verus! {

impl State {
    /// Whether `value` of `ticker` can be taken out of the balance of
    /// `holder`, and if not, why.
    pub open spec fn burn_check(self, ticker: Ticker, holder: IdentityId, value: u128) -> Result<
        (),
        Error,
    > {
        if !self.granular(ticker, value) {
            Err(Error::InvalidGranularity)
        } else if !self.balance_of.contains_key((ticker, holder)) {
            Err(Error::AccountDoesNotOwnToken)
        } else if self.balance(ticker, holder) < value {
            Err(Error::NotEnoughBalance)
        } else {
            Ok(())
        }
    }

    /// Whether the total supply of `ticker` can shrink by `value`.
    pub open spec fn supply_check(self, ticker: Ticker, value: u128) -> Result<(), Error> {
        if self.total_supply(ticker) < value {
            Err(Error::BalanceOverflow)
        } else {
            Ok(())
        }
    }

    /// The ledger after `value` of `ticker` was redeemed from `holder`: the
    /// balance is taken down under the latest checkpoint, then the balance
    /// and the total supply shrink by `value`.
    pub open spec fn burned(self, ticker: Ticker, holder: IdentityId, value: u128) -> State {
        let balance = self.balance(ticker, holder);
        let updated = (balance - value) as u128;
        let s = self.update_checkpoint(ticker, holder, balance);
        State {
            balance_of: s.balance_of.insert((ticker, holder), updated),
            tokens: s.tokens.insert(
                ticker,
                SecurityTokenView {
                    total_supply: (self.total_supply(ticker) - value) as u128,
                    ..self.token(ticker)
                },
            ),
            statistics: s.statistics.update_transfer_stats(ticker, Some(updated), None, value),
            ..s
        }
    }

    /// Whether `did` may redeem `value` of what it holds of `ticker`, and if
    /// not, why.
    pub open spec fn redeem_check(
        self,
        sender: AccountKey,
        did: IdentityId,
        ticker: Ticker,
        value: u128,
        compliance: Compliance,
    ) -> Result<(), Error> {
        if !self.identity.signer_authorized(did, Signatory::AccountKey(sender)) {
            Err(Error::SenderNotSigningKey)
        } else if self.burn_check(ticker, did, value).is_err() {
            self.burn_check(ticker, did, value)
        } else if self.custody_check(ticker, did, value).is_err() {
            self.custody_check(ticker, did, value)
        } else if self.redemption_permitted(ticker, compliance).is_err() {
            self.redemption_permitted(ticker, compliance)
        } else {
            self.supply_check(ticker, value)
        }
    }

    /// Whether the spender `did` may redeem `value` of what it holds of
    /// `ticker` against the allowance that `from` gave it, and if not, why.
    pub open spec fn redeem_from_check(
        self,
        sender: AccountKey,
        did: IdentityId,
        ticker: Ticker,
        from: IdentityId,
        value: u128,
        compliance: Compliance,
    ) -> Result<(), Error> {
        if !self.identity.signer_authorized(did, Signatory::AccountKey(sender)) {
            Err(Error::SenderNotSigningKey)
        } else if self.burn_check(ticker, did, value).is_err() {
            self.burn_check(ticker, did, value)
        } else if !self.allowance.contains_key((ticker, from, did)) {
            Err(Error::AllowanceDoesNotExist)
        } else if self.allowed(ticker, from, did) < value {
            Err(Error::NotEnoughAllowance)
        } else if self.custody_check(ticker, did, value).is_err() {
            self.custody_check(ticker, did, value)
        } else if self.redemption_permitted(ticker, compliance).is_err() {
            self.redemption_permitted(ticker, compliance)
        } else {
            self.supply_check(ticker, value)
        }
    }

    /// The ledger after the spender `did` has redeemed `value` against the
    /// allowance that `from` gave it.
    pub open spec fn redeemed_from(self, did: IdentityId, ticker: Ticker, from: IdentityId, value: u128) -> State {
        let s = self.burned(ticker, did, value);
        State {
            allowance: s.allowance.insert(
                (ticker, from, did),
                (self.allowed(ticker, from, did) - value) as u128,
            ),
            ..s
        }
    }

    /// Whether the owner `did` may force the redemption of `value` of what
    /// `holder` holds of `ticker`, and if not, why.
    pub open spec fn controller_redeem_check(
        self,
        sender: AccountKey,
        did: IdentityId,
        ticker: Ticker,
        holder: IdentityId,
        value: u128,
    ) -> Result<(), Error> {
        if !self.identity.signer_authorized(did, Signatory::AccountKey(sender)) {
            Err(Error::SenderNotSigningKey)
        } else if !self.is_owner(ticker, did) {
            Err(Error::NotTokenOwner)
        } else if self.burn_check(ticker, holder, value).is_err() {
            self.burn_check(ticker, holder, value)
        } else if self.custody_check(ticker, holder, value).is_err() {
            self.custody_check(ticker, holder, value)
        } else {
            self.supply_check(ticker, value)
        }
    }
}

impl State {
    /// A redemption is owed to a holder: where the sender signs for the
    /// holder, balance and supply cover the value in the token's granularity,
    /// the rest of the balance covers what is pledged, the asset is not
    /// frozen and the rule set answers success, the holder redeems. A
    /// redemption is not a transfer: it is put to the frozen gate and to the
    /// rule set, and not to the cap on ownership, which judges receivers.
    pub proof fn law_redeem_is_owed(
        self,
        sender: AccountKey,
        did: IdentityId,
        ticker: Ticker,
        from: IdentityId,
        value: u128,
        compliance: Compliance,
    )
        requires
            self.identity.signer_authorized(did, Signatory::AccountKey(sender)),
            self.burn_check(ticker, did, value).is_ok(),
            self.custody_check(ticker, did, value).is_ok(),
            self.supply_check(ticker, value).is_ok(),
            !self.is_frozen(ticker),
            compliance.general == Some(crate::asset::types::ERC1400_TRANSFER_SUCCESS),
        ensures
            self.redeem_check(sender, did, ticker, value, compliance).is_ok(),
            self.allowance.contains_key((ticker, from, did)) && self.allowed(ticker, from, did)
                >= value ==> self.redeem_from_check(
                sender,
                did,
                ticker,
                from,
                value,
                compliance,
            ).is_ok(),
    {
    }
}

impl Module {
    /// Takes `value` out of the balance of `holder` and out of the supply of
    /// `ticker`. The caller has checked that both cover it.
    fn burn(&mut self, ticker: &Ticker, holder: IdentityId, value: u128)
        requires
            old(self).wf(),
            old(self)@.burn_check(*ticker, holder, value).is_ok(),
            old(self)@.supply_check(*ticker, value).is_ok(),
        ensures
            final(self).wf(),
            final(self)@ == old(self)@.burned(*ticker, holder, value),
            old(self)@.linked() && old(self)@.tokens.contains_key(*ticker)
                ==> final(self)@.linked(),
    {
        let burner_balance = self.balance_of(ticker, holder);
        let updated_burner_balance: u128 = burner_balance - value;
        self._update_checkpoint(ticker, holder, burner_balance);
        let ghost mid = self@;
        self.balance_of.insert((*ticker, holder), updated_burner_balance);
        let mut token = self.take_token(ticker);
        token.total_supply = token.total_supply - value;
        self.tokens.insert(*ticker, token);
        self.statistics.update_transfer_stats(ticker, Some(updated_burner_balance), None, value);
        proof {
            assert(self@.tokens =~= mid.tokens.insert(
                *ticker,
                SecurityTokenView {
                    total_supply: (old(self)@.total_supply(*ticker) - value) as u128,
                    ..old(self)@.token(*ticker)
                },
            ));
            mid.lemma_inv_frame(self@);
            assert forall|t: Ticker| #[trigger] self@.conserved(t) by {
                old(self)@.law_burn_conserves(*ticker, holder, value, t);
            }
        }
    }

    fn check_burn(&self, ticker: &Ticker, holder: IdentityId, value: u128) -> (r: Result<(), Error>)
        requires
            self.wf(),
        ensures
            r == self@.burn_check(*ticker, holder, value),
    {
        if !self.check_granularity(ticker, value) {
            return Err(Error::InvalidGranularity);
        }
        if !self.balance_of.contains_key(&(*ticker, holder)) {
            return Err(Error::AccountDoesNotOwnToken);
        }
        if self.balance_of(ticker, holder) < value {
            return Err(Error::NotEnoughBalance);
        }
        Ok(())
    }

    fn check_supply(&self, ticker: &Ticker, value: u128) -> (r: Result<(), Error>)
        requires
            self.wf(),
        ensures
            r == self@.supply_check(*ticker, value),
    {
        let supply = match self.tokens.get(ticker) {
            Some(t) => t.total_supply,
            None => 0,
        };
        if supply < value {
            Err(Error::BalanceOverflow)
        } else {
            Ok(())
        }
    }

    /// Redeems `value` of what `did`, for whom `sender` signs, holds of
    /// `ticker`.
    pub fn redeem(
        &mut self,
        sender: AccountKey,
        did: IdentityId,
        ticker: Ticker,
        value: u128,
        compliance: Compliance,
    ) -> (r: Result<(), Error>)
        requires
            old(self).wf(),
        ensures
            final(self).wf(),
            r == old(self)@.redeem_check(sender, did, ticker.canonical(), value, compliance),
            r.is_ok() ==> final(self)@ == old(self)@.burned(ticker.canonical(), did, value),
            r.is_err() ==> final(self)@ == old(self)@,
            old(self)@.linked() && old(self)@.tokens.contains_key(ticker.canonical())
                ==> final(self)@.linked(),
    {
        if !self.identity.is_signer_authorized(did, &Signatory::AccountKey(sender)) {
            return Err(Error::SenderNotSigningKey);
        }
        let mut ticker = ticker;
        ticker.canonize();
        if let Err(e) = self.check_burn(&ticker, did, value) {
            return Err(e);
        }
        if let Err(e) = self._check_custody_allowance(&ticker, did, value) {
            return Err(e);
        }
        if let Err(e) = self.ensure_redeemable(&ticker, compliance) {
            return Err(e);
        }
        if let Err(e) = self.check_supply(&ticker, value) {
            return Err(e);
        }
        self.burn(&ticker, did, value);
        Ok(())
    }

    /// Redeems `value` of what the spender `did` holds of `ticker`, against
    /// the allowance that `from_did` gave it.
    pub fn redeem_from(
        &mut self,
        sender: AccountKey,
        did: IdentityId,
        ticker: Ticker,
        from_did: IdentityId,
        value: u128,
        compliance: Compliance,
    ) -> (r: Result<(), Error>)
        requires
            old(self).wf(),
        ensures
            final(self).wf(),
            r == old(self)@.redeem_from_check(
                sender,
                did,
                ticker.canonical(),
                from_did,
                value,
                compliance,
            ),
            r.is_ok() ==> final(self)@ == old(self)@.redeemed_from(
                did,
                ticker.canonical(),
                from_did,
                value,
            ),
            r.is_err() ==> final(self)@ == old(self)@,
            old(self)@.linked() && old(self)@.tokens.contains_key(ticker.canonical())
                ==> final(self)@.linked(),
    {
        if !self.identity.is_signer_authorized(did, &Signatory::AccountKey(sender)) {
            return Err(Error::SenderNotSigningKey);
        }
        let mut ticker = ticker;
        ticker.canonize();
        if let Err(e) = self.check_burn(&ticker, did, value) {
            return Err(e);
        }
        if !self.allowance.contains_key(&(ticker, from_did, did)) {
            return Err(Error::AllowanceDoesNotExist);
        }
        let allowance = self.allowance(&ticker, from_did, did);
        if allowance < value {
            return Err(Error::NotEnoughAllowance);
        }
        if let Err(e) = self._check_custody_allowance(&ticker, did, value) {
            return Err(e);
        }
        if let Err(e) = self.ensure_redeemable(&ticker, compliance) {
            return Err(e);
        }
        if let Err(e) = self.check_supply(&ticker, value) {
            return Err(e);
        }
        let updated_allowance: u128 = allowance - value;
        self.burn(&ticker, did, value);
        let ghost mid = self@;
        self.allowance.insert((ticker, from_did, did), updated_allowance);
        proof {
            mid.lemma_inv_frame(self@);
        }
        Ok(())
    }

    /// Forces the redemption of `value` of what `token_holder_did` holds of
    /// `ticker`. Only the owner `did` of the token can, and what the holder
    /// has pledged to custodians stays covered.
    pub fn controller_redeem(
        &mut self,
        sender: AccountKey,
        did: IdentityId,
        ticker: Ticker,
        token_holder_did: IdentityId,
        value: u128,
    ) -> (r: Result<(), Error>)
        requires
            old(self).wf(),
        ensures
            final(self).wf(),
            r == old(self)@.controller_redeem_check(
                sender,
                did,
                ticker.canonical(),
                token_holder_did,
                value,
            ),
            r.is_ok() ==> final(self)@ == old(self)@.burned(
                ticker.canonical(),
                token_holder_did,
                value,
            ),
            r.is_err() ==> final(self)@ == old(self)@,
            old(self)@.linked() && old(self)@.tokens.contains_key(ticker.canonical())
                ==> final(self)@.linked(),
    {
        if !self.identity.is_signer_authorized(did, &Signatory::AccountKey(sender)) {
            return Err(Error::SenderNotSigningKey);
        }
        let mut ticker = ticker;
        ticker.canonize();
        if !self.is_owner(&ticker, did) {
            return Err(Error::NotTokenOwner);
        }
        if let Err(e) = self.check_burn(&ticker, token_holder_did, value) {
            return Err(e);
        }
        if let Err(e) = self._check_custody_allowance(&ticker, token_holder_did, value) {
            return Err(e);
        }
        if let Err(e) = self.check_supply(&ticker, value) {
            return Err(e);
        }
        self.burn(&ticker, token_holder_did, value);
        Ok(())
    }
}

} // verus!
