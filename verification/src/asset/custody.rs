//! Custody: a holder pledges part of its balance to custodians, who may move
//! it on the holder's behalf. What is pledged cannot be spent by the holder.

use crate::asset::state::State;
use crate::asset::types::Compliance;
use crate::asset::Module;
use crate::error::Error;
use crate::primitives::{AccountKey, IdentityId, Signatory};
use crate::ticker::Ticker;
use vstd::prelude::*;

verus! {

impl State {
    /// Whether the allowance of `custodian` over the balance of `holder` can
    /// grow by `value`, and if not, why.
    pub open spec fn custody_increase_check(
        self,
        ticker: Ticker,
        holder: IdentityId,
        custodian: IdentityId,
        value: u128,
    ) -> Result<(), Error> {
        if self.total_custody(ticker, holder) + value > u128::MAX {
            Err(Error::TotalCustodyAllowanceOverflow)
        } else if self.balance(ticker, holder) < self.total_custody(ticker, holder) + value {
            Err(Error::InsufficientHolderBalance)
        } else if !self.identity.did_records.contains_key(custodian) {
            Err(Error::InvalidCustodianDid)
        } else if self.custody_allowance(ticker, holder, custodian) + value > u128::MAX {
            Err(Error::CustodyAllowanceOverflow)
        } else {
            Ok(())
        }
    }

    /// The ledger after the allowance of `custodian` over the balance of
    /// `holder`, and with it the holder's total, has grown by `value`.
    pub open spec fn custody_increased(
        self,
        ticker: Ticker,
        holder: IdentityId,
        custodian: IdentityId,
        value: u128,
    ) -> State {
        State {
            custodian_allowance: self.custodian_allowance.insert(
                (ticker, holder, custodian),
                (self.custody_allowance(ticker, holder, custodian) + value) as u128,
            ),
            total_custody_allowance: self.total_custody_allowance.insert(
                (ticker, holder),
                (self.total_custody(ticker, holder) + value) as u128,
            ),
            ..self
        }
    }

    /// Whether `holder`, for whom `sender` signs, may raise the allowance of
    /// `custodian` by `value`, and if not, why.
    pub open spec fn increase_custody_allowance_check(
        self,
        sender: AccountKey,
        ticker: Ticker,
        holder: IdentityId,
        custodian: IdentityId,
        value: u128,
    ) -> Result<(), Error> {
        if !self.identity.signer_authorized(holder, Signatory::AccountKey(sender)) {
            Err(Error::SenderNotSigningKey)
        } else {
            self.custody_increase_check(ticker, holder, custodian, value)
        }
    }

    /// Whether the allowance of `custodian` may be raised on the strength of
    /// a message that the holder's key `holder_key` signed off chain, and if
    /// not, why. A nonce that was used before fails the call whatever the
    /// signature is.
    pub open spec fn increase_custody_allowance_of_check(
        self,
        sender: AccountKey,
        ticker: Ticker,
        holder: IdentityId,
        holder_key: AccountKey,
        custodian: IdentityId,
        caller: IdentityId,
        value: u128,
        nonce: u16,
        signature_valid: bool,
    ) -> Result<(), Error> {
        if self.nonce_used(ticker, holder, nonce) {
            Err(Error::SignatureAlreadyUsed)
        } else if !signature_valid {
            Err(Error::InvalidSignature)
        } else if !self.identity.signer_authorized(caller, Signatory::AccountKey(sender)) {
            Err(Error::SenderNotSigningKey)
        } else if !self.identity.signer_authorized(holder, Signatory::AccountKey(holder_key)) {
            Err(Error::HolderKeyNotSigningKey)
        } else {
            self.custody_increase_check(ticker, holder, custodian, value)
        }
    }

    /// The ledger after the allowance of `custodian` was raised on the
    /// strength of a signed message: the allowances have grown, and the nonce
    /// is used.
    pub open spec fn custody_increased_of(
        self,
        ticker: Ticker,
        holder: IdentityId,
        custodian: IdentityId,
        value: u128,
        nonce: u16,
    ) -> State {
        let s = self.custody_increased(ticker, holder, custodian, value);
        State {
            authentication_nonce: s.authentication_nonce.insert((ticker, holder, nonce), true),
            ..s
        }
    }

    /// Whether `custodian`, for whom `sender` signs, may move `value` out of
    /// the balance of `holder` to `receiver`, and if not, why.
    pub open spec fn transfer_by_custodian_check(
        self,
        sender: AccountKey,
        ticker: Ticker,
        holder: IdentityId,
        custodian: IdentityId,
        receiver: IdentityId,
        value: u128,
        compliance: Compliance,
    ) -> Result<(), Error> {
        if !self.identity.signer_authorized(custodian, Signatory::AccountKey(sender)) {
            Err(Error::SenderNotSigningKey)
        } else if self.custody_allowance(ticker, holder, custodian) < value {
            Err(Error::InsufficientAllowance)
        } else if self.total_custody(ticker, holder) < value {
            Err(Error::TotalCustodyAllowanceUnderflow)
        } else if self.permitted(ticker, Some(holder), Some(receiver), value, compliance).is_err() {
            self.permitted(ticker, Some(holder), Some(receiver), value, compliance)
        } else {
            self.move_check(ticker, holder, receiver, value)
        }
    }

    /// The ledger after `custodian` has moved `value` out of the balance of
    /// `holder` to `receiver`: the tokens have moved, and the custodian's
    /// allowance and the holder's total are smaller by `value`.
    pub open spec fn transferred_by_custodian(
        self,
        ticker: Ticker,
        holder: IdentityId,
        custodian: IdentityId,
        receiver: IdentityId,
        value: u128,
    ) -> State {
        let s = self.moved(ticker, holder, receiver, value);
        State {
            custodian_allowance: s.custodian_allowance.insert(
                (ticker, holder, custodian),
                (self.custody_allowance(ticker, holder, custodian) - value) as u128,
            ),
            total_custody_allowance: s.total_custody_allowance.insert(
                (ticker, holder),
                (self.total_custody(ticker, holder) - value) as u128,
            ),
            ..s
        }
    }
}

impl Module {
    /// Raises the allowance of `custodian_did` over the balance of
    /// `holder_did` by `value`, with no question of who asks.
    pub(crate) fn _increase_custody_allowance(
        &mut self,
        ticker: Ticker,
        holder_did: IdentityId,
        custodian_did: IdentityId,
        value: u128,
    ) -> (r: Result<(), Error>)
        requires
            old(self).wf(),
        ensures
            final(self).wf(),
            r == old(self)@.custody_increase_check(ticker, holder_did, custodian_did, value),
            r.is_ok() ==> final(self)@ == old(self)@.custody_increased(
                ticker,
                holder_did,
                custodian_did,
                value,
            ),
            r.is_err() ==> final(self)@ == old(self)@,
            old(self)@.linked() ==> final(self)@.linked(),
    {
        let new_custody_allowance = match self.total_custody_allowance(
            &ticker,
            holder_did,
        ).checked_add(value) {
            Some(a) => a,
            None => { return Err(Error::TotalCustodyAllowanceOverflow); },
        };
        if self.balance_of(&ticker, holder_did) < new_custody_allowance {
            return Err(Error::InsufficientHolderBalance);
        }
        if !self.identity.did_exists(custodian_did) {
            return Err(Error::InvalidCustodianDid);
        }
        let old_allowance = self.custodian_allowance(&ticker, holder_did, custodian_did);
        let new_current_allowance = match old_allowance.checked_add(value) {
            Some(a) => a,
            None => { return Err(Error::CustodyAllowanceOverflow); },
        };
        self.custodian_allowance.insert((ticker, holder_did, custodian_did), new_current_allowance);
        self.total_custody_allowance.insert((ticker, holder_did), new_custody_allowance);
        proof {
            old(self)@.lemma_inv_frame(self@);
        }
        Ok(())
    }

    /// Raises by `value` what `custodian_did` may move out of the balance of
    /// `holder_did`, for whom `sender` signs.
    pub fn increase_custody_allowance(
        &mut self,
        sender: AccountKey,
        ticker: Ticker,
        holder_did: IdentityId,
        custodian_did: IdentityId,
        value: u128,
    ) -> (r: Result<(), Error>)
        requires
            old(self).wf(),
        ensures
            final(self).wf(),
            r == old(self)@.increase_custody_allowance_check(
                sender,
                ticker.canonical(),
                holder_did,
                custodian_did,
                value,
            ),
            r.is_ok() ==> final(self)@ == old(self)@.custody_increased(
                ticker.canonical(),
                holder_did,
                custodian_did,
                value,
            ),
            r.is_err() ==> final(self)@ == old(self)@,
            old(self)@.linked() ==> final(self)@.linked(),
    {
        if !self.identity.is_signer_authorized(holder_did, &Signatory::AccountKey(sender)) {
            return Err(Error::SenderNotSigningKey);
        }
        let mut ticker = ticker;
        ticker.canonize();
        self._increase_custody_allowance(ticker, holder_did, custodian_did, value)
    }

    /// Raises by `value` what `custodian_did` may move out of the balance of
    /// `holder_did`, on the strength of a message that the holder's key
    /// `holder_account_id` signed off chain. `signature_valid` says whether
    /// the signature over the message of these values verifies under that
    /// key. Each nonce serves a holder once.
    pub fn increase_custody_allowance_of(
        &mut self,
        sender: AccountKey,
        ticker: Ticker,
        holder_did: IdentityId,
        holder_account_id: AccountKey,
        custodian_did: IdentityId,
        caller_did: IdentityId,
        value: u128,
        nonce: u16,
        signature_valid: bool,
    ) -> (r: Result<(), Error>)
        requires
            old(self).wf(),
        ensures
            final(self).wf(),
            r == old(self)@.increase_custody_allowance_of_check(
                sender,
                ticker.canonical(),
                holder_did,
                holder_account_id,
                custodian_did,
                caller_did,
                value,
                nonce,
                signature_valid,
            ),
            r.is_ok() ==> final(self)@ == old(self)@.custody_increased_of(
                ticker.canonical(),
                holder_did,
                custodian_did,
                value,
                nonce,
            ),
            r.is_err() ==> final(self)@ == old(self)@,
            old(self)@.linked() ==> final(self)@.linked(),
    {
        let mut ticker = ticker;
        ticker.canonize();
        if self.authentication_nonce(&ticker, holder_did, nonce) {
            return Err(Error::SignatureAlreadyUsed);
        }
        if !signature_valid {
            return Err(Error::InvalidSignature);
        }
        if !self.identity.is_signer_authorized(caller_did, &Signatory::AccountKey(sender)) {
            return Err(Error::SenderNotSigningKey);
        }
        if !self.identity.is_signer_authorized(
            holder_did,
            &Signatory::AccountKey(holder_account_id),
        ) {
            return Err(Error::HolderKeyNotSigningKey);
        }
        if let Err(e) = self._increase_custody_allowance(ticker, holder_did, custodian_did, value) {
            return Err(e);
        }
        let ghost mid = self@;
        self.authentication_nonce.insert((ticker, holder_did, nonce), true);
        proof {
            mid.lemma_inv_frame(self@);
        }
        Ok(())
    }

    /// Moves `value` of `ticker` out of the balance of `holder_did` to
    /// `receiver_did`, on the strength of the allowance of `custodian_did`,
    /// for whom `sender` signs.
    pub fn transfer_by_custodian(
        &mut self,
        sender: AccountKey,
        ticker: Ticker,
        holder_did: IdentityId,
        custodian_did: IdentityId,
        receiver_did: IdentityId,
        value: u128,
        compliance: Compliance,
    ) -> (r: Result<(), Error>)
        requires
            old(self).wf(),
        ensures
            final(self).wf(),
            r == old(self)@.transfer_by_custodian_check(
                sender,
                ticker.canonical(),
                holder_did,
                custodian_did,
                receiver_did,
                value,
                compliance,
            ),
            r.is_ok() ==> final(self)@ == old(self)@.transferred_by_custodian(
                ticker.canonical(),
                holder_did,
                custodian_did,
                receiver_did,
                value,
            ),
            r.is_err() ==> final(self)@ == old(self)@,
            old(self)@.linked() ==> final(self)@.linked(),
    {
        if !self.identity.is_signer_authorized(custodian_did, &Signatory::AccountKey(sender)) {
            return Err(Error::SenderNotSigningKey);
        }
        let mut ticker = ticker;
        ticker.canonize();
        let custodian_allowance = self.custodian_allowance(&ticker, holder_did, custodian_did);
        if custodian_allowance < value {
            return Err(Error::InsufficientAllowance);
        }
        let new_allowance: u128 = custodian_allowance - value;
        let new_total_allowance = match self.total_custody_allowance(&ticker, holder_did).checked_sub(
            value,
        ) {
            Some(a) => a,
            None => { return Err(Error::TotalCustodyAllowanceUnderflow); },
        };
        if let Err(e) = self.ensure_permitted(
            &ticker,
            Some(holder_did),
            Some(receiver_did),
            value,
            compliance,
        ) {
            return Err(e);
        }
        if let Err(e) = self._transfer(&ticker, holder_did, receiver_did, value) {
            return Err(e);
        }
        let ghost mid = self@;
        self.custodian_allowance.insert((ticker, holder_did, custodian_did), new_allowance);
        self.total_custody_allowance.insert((ticker, holder_did), new_total_allowance);
        proof {
            mid.lemma_inv_frame(self@);
        }
        Ok(())
    }
}

} // verus!
