//! Counters kept beside the ledger: how many identities hold each asset.

use crate::table::Table;
use crate::ticker::Ticker;
use vstd::prelude::*;

verus! {

/// The counters as a mathematical value.
pub struct State {
    pub investor_count_per_asset: Map<Ticker, u64>,
}

impl State {
    /// The number of investors counted for `ticker`.
    pub open spec fn investor_count(self, ticker: Ticker) -> u64 {
        if self.investor_count_per_asset.contains_key(ticker) {
            self.investor_count_per_asset[ticker]
        } else {
            0
        }
    }

    /// The count for `ticker` after a movement of `amount`: one less where the
    /// sender was left with nothing, one more where the receiver holds
    /// exactly `amount` now; neither step is taken past the ends of the
    /// counter's range.
    pub open spec fn counted(
        self,
        ticker: Ticker,
        updated_from_balance: Option<u128>,
        updated_to_balance: Option<u128>,
        amount: u128,
    ) -> u64 {
        let counter = self.investor_count(ticker);
        let left = if updated_from_balance == Some(0u128) && counter > 0 {
            (counter - 1) as u64
        } else {
            counter
        };
        if updated_to_balance == Some(amount) && left < u64::MAX {
            (left + 1) as u64
        } else {
            left
        }
    }

    /// The counters after a movement of `amount`. A movement of nothing, and
    /// one that leaves the count as it was, write nothing.
    pub open spec fn update_transfer_stats(
        self,
        ticker: Ticker,
        updated_from_balance: Option<u128>,
        updated_to_balance: Option<u128>,
        amount: u128,
    ) -> State {
        let new_counter = self.counted(ticker, updated_from_balance, updated_to_balance, amount);
        if amount != 0 && new_counter != self.investor_count(ticker) {
            State {
                investor_count_per_asset: self.investor_count_per_asset.insert(ticker, new_counter),
            }
        } else {
            self
        }
    }
}

/// The statistics kept beside the ledger.
#[derive(Clone, Debug, PartialEq)]
pub struct Module {
    investor_count_per_asset: Table<Ticker, u64>,
}

impl View for Module {
    type V = State;

    closed spec fn view(&self) -> State {
        State { investor_count_per_asset: self.investor_count_per_asset@ }
    }
}

impl Module {
    /// The table is in order.
    pub closed spec fn wf(&self) -> bool {
        self.investor_count_per_asset.wf()
    }

    /// No investor counted for any asset.
    pub fn new() -> (r: Module)
        ensures
            r.wf(),
            r@ == (State { investor_count_per_asset: Map::empty() }),
    {
        Module { investor_count_per_asset: Table::new() }
    }

    /// The number of investors counted for `ticker`.
    pub fn investor_count_per_asset(&self, ticker: &Ticker) -> (r: u64)
        requires
            self.wf(),
        ensures
            r == self@.investor_count(*ticker),
    {
        match self.investor_count_per_asset.get(ticker) {
            Some(c) => *c,
            None => 0,
        }
    }

    /// Updates the statistics after a movement of `amount` that left the
    /// sender with `updated_from_balance` and the receiver with
    /// `updated_to_balance`.
    pub fn update_transfer_stats(
        &mut self,
        ticker: &Ticker,
        updated_from_balance: Option<u128>,
        updated_to_balance: Option<u128>,
        amount: u128,
    )
        requires
            old(self).wf(),
        ensures
            final(self).wf(),
            final(self)@ == old(self)@.update_transfer_stats(
                *ticker,
                updated_from_balance,
                updated_to_balance,
                amount,
            ),
    {
        if amount != 0 {
            let counter = self.investor_count_per_asset(ticker);
            let mut new_counter = counter;
            if let Some(from_balance) = updated_from_balance {
                if from_balance == 0 {
                    new_counter = match new_counter.checked_sub(1) {
                        Some(c) => c,
                        None => new_counter,
                    };
                }
            }
            if let Some(to_balance) = updated_to_balance {
                if to_balance == amount {
                    new_counter = match new_counter.checked_add(1) {
                        Some(c) => c,
                        None => new_counter,
                    };
                }
            }
            if new_counter != counter {
                self.investor_count_per_asset.insert(*ticker, new_counter);
            }
        }
    }
}

} // verus!
