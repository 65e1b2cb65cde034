//! Moving tokens between identities: the checks that every movement passes,
//! and the movements themselves.

use crate::asset::state::State;
use crate::asset::types::{
    Compliance, ERC1400_INSUFFICIENT_BALANCE, ERC1400_TRANSFER_FAILURE, ERC1400_TRANSFER_SUCCESS,
};
use crate::asset::Module;
use crate::error::Error;
use crate::primitives::{AccountKey, IdentityId, Signatory};
use crate::ticker::Ticker;
use vstd::prelude::*;

verus! {

impl State {
    /// What `to` holds of `ticker`; nothing where there is no receiver.
    pub open spec fn receiver_balance(self, ticker: Ticker, to: Option<IdentityId>) -> u128 {
        match to {
            Some(d) => self.balance(ticker, d),
            None => 0,
        }
    }

    /// The verdict on a movement of `value` from `from` to `to`, given what
    /// the collaborators answered: a frozen asset moves nothing; a status
    /// other than success from the rule set stands; else the cap on ownership
    /// decides, with or without a receiver.
    pub open spec fn valid_transfer(
        self,
        ticker: Ticker,
        from: Option<IdentityId>,
        to: Option<IdentityId>,
        value: u128,
        compliance: Compliance,
    ) -> Result<u8, Error> {
        if self.is_frozen(ticker) {
            Err(Error::AssetFrozen)
        } else {
            match compliance.general {
                None => Err(Error::ComplianceFailure),
                Some(code) => if code != ERC1400_TRANSFER_SUCCESS {
                    Ok(code)
                } else {
                    self.percentage.verify_restriction(
                        ticker,
                        to,
                        value,
                        compliance.exempted,
                        self.receiver_balance(ticker, to),
                        self.total_supply(ticker),
                    )
                },
            }
        }
    }

    /// Whether the movement is permitted: the verdict is success.
    pub open spec fn permitted(
        self,
        ticker: Ticker,
        from: Option<IdentityId>,
        to: Option<IdentityId>,
        value: u128,
        compliance: Compliance,
    ) -> Result<(), Error> {
        match self.valid_transfer(ticker, from, to, value, compliance) {
            Err(e) => Err(e),
            Ok(code) => if code == ERC1400_TRANSFER_SUCCESS {
                Ok(())
            } else {
                Err(Error::TransferRestrictionsFailed)
            },
        }
    }

    /// Whether tokens of `ticker` may be redeemed: the asset is not frozen
    /// and the rule set answers success. The cap on ownership is not asked,
    /// since no one receives.
    pub open spec fn redemption_permitted(self, ticker: Ticker, compliance: Compliance) -> Result<(), Error> {
        if self.is_frozen(ticker) {
            Err(Error::AssetFrozen)
        } else {
            match compliance.general {
                None => Err(Error::ComplianceFailure),
                Some(code) => if code == ERC1400_TRANSFER_SUCCESS {
                    Ok(())
                } else {
                    Err(Error::TransferRestrictionsFailed)
                },
            }
        }
    }

    /// Whether `holder` can part with `value` without touching what is
    /// pledged to custodians.
    pub open spec fn custody_check(self, ticker: Ticker, holder: IdentityId, value: u128) -> Result<
        (),
        Error,
    > {
        if self.balance(ticker, holder) < value {
            Err(Error::BalanceUnderflow)
        } else if self.balance(ticker, holder) - value < self.total_custody(ticker, holder) {
            Err(Error::InsufficientBalanceForTransfer)
        } else {
            Ok(())
        }
    }

    /// The status that a dry run of a movement reports.
    pub open spec fn can_transfer(
        self,
        ticker: Ticker,
        from: IdentityId,
        to: IdentityId,
        value: u128,
        compliance: Compliance,
    ) -> u8 {
        let balance = self.balance(ticker, from);
        let rest = if balance < value {
            0
        } else {
            balance - value
        };
        if rest < self.total_custody(ticker, from) {
            ERC1400_INSUFFICIENT_BALANCE
        } else {
            match self.valid_transfer(ticker, Some(from), Some(to), value, compliance) {
                Ok(code) => code,
                Err(_) => ERC1400_TRANSFER_FAILURE,
            }
        }
    }

    /// Whether `value` can move from the balance of `from` to that of `to`,
    /// and if not, why. Nothing of a frozen asset moves, whoever asks.
    pub open spec fn move_check(self, ticker: Ticker, from: IdentityId, to: IdentityId, value: u128) -> Result<
        (),
        Error,
    > {
        if self.is_frozen(ticker) {
            Err(Error::AssetFrozen)
        } else if !self.granular(ticker, value) {
            Err(Error::InvalidGranularity)
        } else if !self.balance_of.contains_key((ticker, from)) {
            Err(Error::AccountDoesNotOwnToken)
        } else if self.balance(ticker, from) < value {
            Err(Error::NotEnoughBalance)
        } else if self.balance_after_debit(ticker, from, to, value) + value > u128::MAX {
            Err(Error::BalanceOverflow)
        } else {
            Ok(())
        }
    }

    /// What `to` holds once `value` has left the balance of `from`: less by
    /// `value` where the two are one identity, else what it held.
    pub open spec fn balance_after_debit(self, ticker: Ticker, from: IdentityId, to: IdentityId, value: u128) -> u128 {
        if from == to {
            (self.balance(ticker, from) - value) as u128
        } else {
            self.balance(ticker, to)
        }
    }

    /// The ledger after `value` has moved from `from` to `to`. Both balances
    /// are taken down under the latest checkpoint first. The sender is
    /// debited, then the receiver is credited: an identity that moves tokens
    /// to itself holds what it held.
    pub open spec fn moved(self, ticker: Ticker, from: IdentityId, to: IdentityId, value: u128) -> State {
        let from_balance = self.balance(ticker, from);
        let to_balance = self.balance(ticker, to);
        let updated_from = (from_balance - value) as u128;
        let updated_to = (self.balance_after_debit(ticker, from, to, value) + value) as u128;
        let s = self.update_checkpoint(ticker, from, from_balance).update_checkpoint(
            ticker,
            to,
            to_balance,
        );
        State {
            balance_of: s.balance_of.insert((ticker, from), updated_from).insert(
                (ticker, to),
                updated_to,
            ),
            statistics: s.statistics.update_transfer_stats(
                ticker,
                Some(updated_from),
                Some(updated_to),
                value,
            ),
            ..s
        }
    }

    /// Whether `sender` may move `value` of `ticker` from `did` to `to`, and
    /// if not, why.
    pub open spec fn transfer_check(
        self,
        sender: AccountKey,
        did: IdentityId,
        ticker: Ticker,
        to: IdentityId,
        value: u128,
        compliance: Compliance,
    ) -> Result<(), Error> {
        if !self.identity.signer_authorized(did, Signatory::AccountKey(sender)) {
            Err(Error::SenderNotSigningKey)
        } else if self.custody_check(ticker, did, value).is_err() {
            self.custody_check(ticker, did, value)
        } else if self.permitted(ticker, Some(did), Some(to), value, compliance).is_err() {
            self.permitted(ticker, Some(did), Some(to), value, compliance)
        } else {
            self.move_check(ticker, did, to, value)
        }
    }

    /// Whether the owner `did` may force `value` of `ticker` from `from` to
    /// `to`, and if not, why.
    pub open spec fn controller_transfer_check(
        self,
        sender: AccountKey,
        did: IdentityId,
        ticker: Ticker,
        from: IdentityId,
        to: IdentityId,
        value: u128,
    ) -> Result<(), Error> {
        if !self.identity.signer_authorized(did, Signatory::AccountKey(sender)) {
            Err(Error::SenderNotSigningKey)
        } else if !self.is_owner(ticker, did) {
            Err(Error::NotAuthorized)
        } else if self.custody_check(ticker, from, value).is_err() {
            self.custody_check(ticker, from, value)
        } else {
            self.move_check(ticker, from, to, value)
        }
    }

    /// Whether `did` may raise what `spender` may move out of its balance by
    /// `value`, and if not, why.
    pub open spec fn approve_check(
        self,
        sender: AccountKey,
        did: IdentityId,
        ticker: Ticker,
        spender: IdentityId,
        value: u128,
    ) -> Result<(), Error> {
        if !self.identity.signer_authorized(did, Signatory::AccountKey(sender)) {
            Err(Error::SenderNotSigningKey)
        } else if !self.balance_of.contains_key((ticker, did)) {
            Err(Error::AccountDoesNotOwnToken)
        } else if self.allowed(ticker, did, spender) + value > u128::MAX {
            Err(Error::AllowanceOverflow)
        } else {
            Ok(())
        }
    }

    /// The ledger after `did` has raised the allowance of `spender` by
    /// `value`.
    pub open spec fn approved(self, did: IdentityId, ticker: Ticker, spender: IdentityId, value: u128) -> State {
        State {
            allowance: self.allowance.insert(
                (ticker, did, spender),
                (self.allowed(ticker, did, spender) + value) as u128,
            ),
            ..self
        }
    }

    /// Whether the spender `did` may move `value` of `ticker` from `from` to
    /// `to`, and if not, why.
    pub open spec fn transfer_from_check(
        self,
        sender: AccountKey,
        did: IdentityId,
        ticker: Ticker,
        from: IdentityId,
        to: IdentityId,
        value: u128,
        compliance: Compliance,
    ) -> Result<(), Error> {
        if !self.identity.signer_authorized(did, Signatory::AccountKey(sender)) {
            Err(Error::SenderNotSigningKey)
        } else if !self.allowance.contains_key((ticker, from, did)) {
            Err(Error::AllowanceDoesNotExist)
        } else if self.allowed(ticker, from, did) < value {
            Err(Error::NotEnoughAllowance)
        } else if self.custody_check(ticker, from, value).is_err() {
            self.custody_check(ticker, from, value)
        } else if self.permitted(ticker, Some(from), Some(to), value, compliance).is_err() {
            self.permitted(ticker, Some(from), Some(to), value, compliance)
        } else {
            self.move_check(ticker, from, to, value)
        }
    }

    /// The ledger after the spender `did` has moved `value` from `from` to
    /// `to`: the tokens have moved, and the allowance is smaller by `value`.
    pub open spec fn transferred_from(
        self,
        did: IdentityId,
        ticker: Ticker,
        from: IdentityId,
        to: IdentityId,
        value: u128,
    ) -> State {
        let s = self.moved(ticker, from, to, value);
        State {
            allowance: s.allowance.insert(
                (ticker, from, did),
                (self.allowed(ticker, from, did) - value) as u128,
            ),
            ..s
        }
    }
}

impl Module {
    /// Judges a movement of `value` of `ticker` from `from_did` to `to_did`,
    /// given what the rule set and the exemption list answered about it.
    pub fn _is_valid_transfer(
        &self,
        ticker: &Ticker,
        from_did: Option<IdentityId>,
        to_did: Option<IdentityId>,
        value: u128,
        compliance: Compliance,
    ) -> (r: Result<u8, Error>)
        requires
            self.wf(),
        ensures
            r == self@.valid_transfer(*ticker, from_did, to_did, value, compliance),
    {
        if self.frozen(ticker) {
            return Err(Error::AssetFrozen);
        }
        let general_status_code = match compliance.general {
            Some(code) => code,
            None => { return Err(Error::ComplianceFailure); },
        };
        if general_status_code != ERC1400_TRANSFER_SUCCESS {
            Ok(general_status_code)
        } else {
            let balance = match to_did {
                Some(d) => self.balance_of(ticker, d),
                None => 0,
            };
            let total_supply = match self.tokens.get(ticker) {
                Some(t) => t.total_supply,
                None => 0,
            };
            self.percentage.verify_restriction(
                ticker,
                to_did,
                value,
                compliance.exempted,
                balance,
                total_supply,
            )
        }
    }

    /// Whether the movement is permitted: the verdict on it is success.
    pub fn ensure_permitted(
        &self,
        ticker: &Ticker,
        from_did: Option<IdentityId>,
        to_did: Option<IdentityId>,
        value: u128,
        compliance: Compliance,
    ) -> (r: Result<(), Error>)
        requires
            self.wf(),
        ensures
            r == self@.permitted(*ticker, from_did, to_did, value, compliance),
    {
        match self._is_valid_transfer(ticker, from_did, to_did, value, compliance) {
            Err(e) => Err(e),
            Ok(code) => if code == ERC1400_TRANSFER_SUCCESS {
                Ok(())
            } else {
                Err(Error::TransferRestrictionsFailed)
            },
        }
    }

    /// Whether tokens of `ticker` may be redeemed, given what the rule set
    /// answered: the asset is not frozen and the answer is success.
    pub fn ensure_redeemable(&self, ticker: &Ticker, compliance: Compliance) -> (r: Result<(), Error>)
        requires
            self.wf(),
        ensures
            r == self@.redemption_permitted(*ticker, compliance),
    {
        if self.frozen(ticker) {
            return Err(Error::AssetFrozen);
        }
        match compliance.general {
            None => Err(Error::ComplianceFailure),
            Some(code) => if code == ERC1400_TRANSFER_SUCCESS {
                Ok(())
            } else {
                Err(Error::TransferRestrictionsFailed)
            },
        }
    }

    /// Checks that `holder_did` can part with `value` without going below
    /// what it has pledged to custodians.
    pub fn _check_custody_allowance(&self, ticker: &Ticker, holder_did: IdentityId, value: u128) -> (r:
        Result<(), Error>)
        requires
            self.wf(),
        ensures
            r == self@.custody_check(*ticker, holder_did, value),
    {
        let remaining_balance = match self.balance_of(ticker, holder_did).checked_sub(value) {
            Some(b) => b,
            None => { return Err(Error::BalanceUnderflow); },
        };
        if remaining_balance < self.total_custody_allowance(ticker, holder_did) {
            return Err(Error::InsufficientBalanceForTransfer);
        }
        Ok(())
    }

    /// Moves `value` of `ticker` from `from_did` to `to_did`, with no
    /// question of who asks.
    pub(crate) fn _transfer(&mut self, ticker: &Ticker, from_did: IdentityId, to_did: IdentityId, value: u128) -> (r:
        Result<(), Error>)
        requires
            old(self).wf(),
        ensures
            final(self).wf(),
            r == old(self)@.move_check(*ticker, from_did, to_did, value),
            r.is_ok() ==> final(self)@ == old(self)@.moved(*ticker, from_did, to_did, value),
            r.is_err() ==> final(self)@ == old(self)@,
            old(self)@.linked() ==> final(self)@.linked(),
    {
        if self.frozen(ticker) {
            return Err(Error::AssetFrozen);
        }
        if !self.check_granularity(ticker, value) {
            return Err(Error::InvalidGranularity);
        }
        let sender_balance = match self.balance_of.get(&(*ticker, from_did)) {
            Some(b) => *b,
            None => { return Err(Error::AccountDoesNotOwnToken); },
        };
        if sender_balance < value {
            return Err(Error::NotEnoughBalance);
        }
        let updated_from_balance: u128 = sender_balance - value;
        let receiver_balance = self.balance_of(ticker, to_did);
        let debited_balance = if crate::table::Key::same(&from_did, &to_did) {
            updated_from_balance
        } else {
            receiver_balance
        };
        let updated_to_balance = match debited_balance.checked_add(value) {
            Some(b) => b,
            None => { return Err(Error::BalanceOverflow); },
        };
        self._update_checkpoint(ticker, from_did, sender_balance);
        self._update_checkpoint(ticker, to_did, receiver_balance);
        let ghost mid = self@;
        self.balance_of.insert((*ticker, from_did), updated_from_balance);
        self.balance_of.insert((*ticker, to_did), updated_to_balance);
        self.statistics.update_transfer_stats(
            ticker,
            Some(updated_from_balance),
            Some(updated_to_balance),
            value,
        );
        proof {
            mid.lemma_inv_frame(self@);
            assert forall|t: Ticker| #[trigger] self@.conserved(t) by {
                old(self)@.law_move_conserves(*ticker, from_did, to_did, value, t);
            }
        }
        Ok(())
    }

    /// Moves `value` of `ticker` from `did`, for whom `sender` signs, to
    /// `to_did`.
    pub fn transfer(
        &mut self,
        sender: AccountKey,
        did: IdentityId,
        ticker: Ticker,
        to_did: IdentityId,
        value: u128,
        compliance: Compliance,
    ) -> (r: Result<(), Error>)
        requires
            old(self).wf(),
        ensures
            final(self).wf(),
            r == old(self)@.transfer_check(sender, did, ticker.canonical(), to_did, value, compliance),
            r.is_ok() ==> final(self)@ == old(self)@.moved(ticker.canonical(), did, to_did, value),
            r.is_err() ==> final(self)@ == old(self)@,
            old(self)@.linked() ==> final(self)@.linked(),
    {
        if !self.identity.is_signer_authorized(did, &Signatory::AccountKey(sender)) {
            return Err(Error::SenderNotSigningKey);
        }
        let mut ticker = ticker;
        ticker.canonize();
        if let Err(e) = self._check_custody_allowance(&ticker, did, value) {
            return Err(e);
        }
        if let Err(e) = self.ensure_permitted(&ticker, Some(did), Some(to_did), value, compliance) {
            return Err(e);
        }
        self._transfer(&ticker, did, to_did, value)
    }

    /// Forces `value` of `ticker` from `from_did` to `to_did`. Only the
    /// owner `did` of the token can. No rule is asked, but a frozen asset
    /// stays where it is, and what the holder has pledged to custodians
    /// stays covered.
    pub fn controller_transfer(
        &mut self,
        sender: AccountKey,
        did: IdentityId,
        ticker: Ticker,
        from_did: IdentityId,
        to_did: IdentityId,
        value: u128,
    ) -> (r: Result<(), Error>)
        requires
            old(self).wf(),
        ensures
            final(self).wf(),
            r == old(self)@.controller_transfer_check(
                sender,
                did,
                ticker.canonical(),
                from_did,
                to_did,
                value,
            ),
            r.is_ok() ==> final(self)@ == old(self)@.moved(ticker.canonical(), from_did, to_did, value),
            r.is_err() ==> final(self)@ == old(self)@,
            old(self)@.linked() ==> final(self)@.linked(),
    {
        if !self.identity.is_signer_authorized(did, &Signatory::AccountKey(sender)) {
            return Err(Error::SenderNotSigningKey);
        }
        let mut ticker = ticker;
        ticker.canonize();
        if !self.is_owner(&ticker, did) {
            return Err(Error::NotAuthorized);
        }
        if let Err(e) = self._check_custody_allowance(&ticker, from_did, value) {
            return Err(e);
        }
        self._transfer(&ticker, from_did, to_did, value)
    }

    /// Raises by `value` what `spender_did` may move out of the balance of
    /// `did`.
    pub fn approve(
        &mut self,
        sender: AccountKey,
        did: IdentityId,
        ticker: Ticker,
        spender_did: IdentityId,
        value: u128,
    ) -> (r: Result<(), Error>)
        requires
            old(self).wf(),
        ensures
            final(self).wf(),
            r == old(self)@.approve_check(sender, did, ticker.canonical(), spender_did, value),
            r.is_ok() ==> final(self)@ == old(self)@.approved(
                did,
                ticker.canonical(),
                spender_did,
                value,
            ),
            r.is_err() ==> final(self)@ == old(self)@,
            old(self)@.linked() ==> final(self)@.linked(),
    {
        if !self.identity.is_signer_authorized(did, &Signatory::AccountKey(sender)) {
            return Err(Error::SenderNotSigningKey);
        }
        let mut ticker = ticker;
        ticker.canonize();
        if !self.balance_of.contains_key(&(ticker, did)) {
            return Err(Error::AccountDoesNotOwnToken);
        }
        let allowance = self.allowance(&ticker, did, spender_did);
        let updated_allowance = match allowance.checked_add(value) {
            Some(a) => a,
            None => { return Err(Error::AllowanceOverflow); },
        };
        self.allowance.insert((ticker, did, spender_did), updated_allowance);
        proof {
            old(self)@.lemma_inv_frame(self@);
        }
        Ok(())
    }

    /// Moves `value` of `ticker` from `from_did` to `to_did` on the strength
    /// of an allowance that `from_did` gave to the spender `did`.
    pub fn transfer_from(
        &mut self,
        sender: AccountKey,
        did: IdentityId,
        ticker: Ticker,
        from_did: IdentityId,
        to_did: IdentityId,
        value: u128,
        compliance: Compliance,
    ) -> (r: Result<(), Error>)
        requires
            old(self).wf(),
        ensures
            final(self).wf(),
            r == old(self)@.transfer_from_check(
                sender,
                did,
                ticker.canonical(),
                from_did,
                to_did,
                value,
                compliance,
            ),
            r.is_ok() ==> final(self)@ == old(self)@.transferred_from(
                did,
                ticker.canonical(),
                from_did,
                to_did,
                value,
            ),
            r.is_err() ==> final(self)@ == old(self)@,
            old(self)@.linked() ==> final(self)@.linked(),
    {
        if !self.identity.is_signer_authorized(did, &Signatory::AccountKey(sender)) {
            return Err(Error::SenderNotSigningKey);
        }
        let mut ticker = ticker;
        ticker.canonize();
        if !self.allowance.contains_key(&(ticker, from_did, did)) {
            return Err(Error::AllowanceDoesNotExist);
        }
        let allowance = self.allowance(&ticker, from_did, did);
        if allowance < value {
            return Err(Error::NotEnoughAllowance);
        }
        let updated_allowance: u128 = allowance - value;
        if let Err(e) = self._check_custody_allowance(&ticker, from_did, value) {
            return Err(e);
        }
        if let Err(e) = self.ensure_permitted(&ticker, Some(from_did), Some(to_did), value, compliance) {
            return Err(e);
        }
        if let Err(e) = self._transfer(&ticker, from_did, to_did, value) {
            return Err(e);
        }
        let ghost mid = self@;
        self.allowance.insert((ticker, from_did, did), updated_allowance);
        proof {
            mid.lemma_inv_frame(self@);
        }
        Ok(())
    }

    /// Tells whether a movement could take place, without making it. Never
    /// fails: the answer is a status code.
    pub fn can_transfer(
        &self,
        ticker: Ticker,
        from_did: IdentityId,
        to_did: IdentityId,
        value: u128,
        compliance: Compliance,
    ) -> (r: u8)
        requires
            self.wf(),
        ensures
            r == self@.can_transfer(ticker.canonical(), from_did, to_did, value, compliance),
    {
        let mut ticker = ticker;
        ticker.canonize();
        let mut current_balance = self.balance_of(&ticker, from_did);
        if current_balance < value {
            current_balance = 0;
        } else {
            current_balance = current_balance - value;
        }
        if current_balance < self.total_custody_allowance(&ticker, from_did) {
            ERC1400_INSUFFICIENT_BALANCE
        } else {
            match self._is_valid_transfer(&ticker, Some(from_did), Some(to_did), value, compliance) {
                Ok(code) => code,
                Err(_) => ERC1400_TRANSFER_FAILURE,
            }
        }
    }
}

} // verus!
