//! The cap on ownership: no single investor may come to hold more than a set
//! percentage of an asset.

use crate::asset::types::{
    APP_FUNDS_LIMIT_REACHED, ERC1400_INVALID_RECEIVER, ERC1400_TRANSFER_SUCCESS,
};
use crate::error::Error;
use crate::primitives::IdentityId;
use crate::table::Table;
use crate::ticker::Ticker;
use vstd::prelude::*;

verus! {

/// A share is measured in units of which this many make the whole.
pub const SHARE_SCALE: u128 = 1_000_000_000_000_000_000;

/// One percent, in the units of `SHARE_SCALE`.
pub const ONE_PERCENT: u128 = 10_000_000_000_000_000;

/// The caps as a mathematical value.
pub struct State {
    pub maximum_percentage_enabled_for_token: Map<Ticker, u16>,
}

impl State {
    /// The cap on `ticker` in percent; `0` where there is none.
    pub open spec fn maximum_percentage(self, ticker: Ticker) -> u16 {
        if self.maximum_percentage_enabled_for_token.contains_key(ticker) {
            self.maximum_percentage_enabled_for_token[ticker]
        } else {
            0
        }
    }

    /// The verdict of the cap on a movement of `value` to `to`, who holds
    /// `balance` of a supply of `total_supply`. Without a receiver the
    /// movement is invalid. Where a cap is set and the receiver is not
    /// exempt, the receiver's share after the movement, rounded down, must not
    /// exceed it.
    pub open spec fn verify_restriction(
        self,
        ticker: Ticker,
        to: Option<IdentityId>,
        value: u128,
        exempted: bool,
        balance: u128,
        total_supply: u128,
    ) -> Result<u8, Error> {
        let max = self.maximum_percentage(ticker);
        if to.is_none() {
            Ok(ERC1400_INVALID_RECEIVER)
        } else if max == 0 || exempted {
            Ok(ERC1400_TRANSFER_SUCCESS)
        } else if balance + value > u128::MAX {
            Err(Error::ReceiverBalanceOverflow)
        } else if (balance + value) * SHARE_SCALE > u128::MAX {
            Err(Error::UnsafeMultiplication)
        } else if total_supply == 0 {
            Err(Error::UnsafeDivision)
        } else if ((balance + value) * SHARE_SCALE) / (total_supply as int) > max * ONE_PERCENT {
            Ok(APP_FUNDS_LIMIT_REACHED)
        } else {
            Ok(ERC1400_TRANSFER_SUCCESS)
        }
    }
}

/// The caps on ownership.
#[derive(Clone, Debug, PartialEq)]
pub struct Module {
    maximum_percentage_enabled_for_token: Table<Ticker, u16>,
}

impl View for Module {
    type V = State;

    closed spec fn view(&self) -> State {
        State {
            maximum_percentage_enabled_for_token: self.maximum_percentage_enabled_for_token@,
        }
    }
}

impl Module {
    /// The table is in order.
    pub closed spec fn wf(&self) -> bool {
        self.maximum_percentage_enabled_for_token.wf()
    }

    /// No cap on any asset.
    pub fn new() -> (r: Module)
        ensures
            r.wf(),
            r@ == (State { maximum_percentage_enabled_for_token: Map::empty() }),
    {
        Module { maximum_percentage_enabled_for_token: Table::new() }
    }

    /// The cap on `ticker` in percent; `0` where there is none.
    pub fn maximum_percentage_enabled_for_token(&self, ticker: &Ticker) -> (r: u16)
        requires
            self.wf(),
        ensures
            r == self@.maximum_percentage(*ticker),
    {
        match self.maximum_percentage_enabled_for_token.get(ticker) {
            Some(p) => *p,
            None => 0,
        }
    }

    /// Sets the cap on `ticker`; `0` lifts it.
    pub(crate) fn set_maximum_percentage(&mut self, ticker: Ticker, max_percentage: u16)
        requires
            old(self).wf(),
        ensures
            final(self).wf(),
            final(self)@ == (State {
                maximum_percentage_enabled_for_token: old(
                    self,
                )@.maximum_percentage_enabled_for_token.insert(ticker, max_percentage),
            }),
    {
        self.maximum_percentage_enabled_for_token.insert(ticker, max_percentage);
    }

    /// Judges a movement of `value` to `to_did_opt` against the cap, given
    /// whether the receiver is exempt, what the receiver holds and what the
    /// total supply is.
    pub fn verify_restriction(
        &self,
        ticker: &Ticker,
        to_did_opt: Option<IdentityId>,
        value: u128,
        exempted: bool,
        balance: u128,
        total_supply: u128,
    ) -> (r: Result<u8, Error>)
        requires
            self.wf(),
        ensures
            r == self@.verify_restriction(*ticker, to_did_opt, value, exempted, balance, total_supply),
    {
        let max_percentage = self.maximum_percentage_enabled_for_token(ticker);
        if to_did_opt.is_some() {
            if max_percentage != 0 && !exempted {
                let new_balance = match balance.checked_add(value) {
                    Some(b) => b,
                    None => { return Err(Error::ReceiverBalanceOverflow); },
                };
                let scaled = match new_balance.checked_mul(SHARE_SCALE) {
                    Some(s) => s,
                    None => { return Err(Error::UnsafeMultiplication); },
                };
                let percentage_balance = match scaled.checked_div(total_supply) {
                    Some(p) => p,
                    None => { return Err(Error::UnsafeDivision); },
                };
                let wide: u128 = max_percentage as u128;
                assert(wide * ONE_PERCENT <= 65535 * ONE_PERCENT) by (nonlinear_arith)
                    requires
                        wide <= 65535,
                ;
                let allowed_token_amount: u128 = wide * ONE_PERCENT;
                if percentage_balance > allowed_token_amount {
                    return Ok(APP_FUNDS_LIMIT_REACHED);
                }
            }
            Ok(ERC1400_TRANSFER_SUCCESS)
        } else {
            Ok(ERC1400_INVALID_RECEIVER)
        }
    }
}

} // verus!
