//! Granularity: an indivisible token changes hands in whole units only; a
//! divisible token in any amount.

use crate::asset::state::State;
use crate::asset::types::{Compliance, ONE_UNIT};
use crate::error::Error;
use crate::primitives::{AccountKey, IdentityId};
use crate::ticker::Ticker;
use vstd::prelude::*;

verus! {

impl State {
    /// Every movement that the ledger accepts of an indivisible token is of
    /// whole units, and no movement of a divisible token is turned down for
    /// its granularity.
    pub proof fn law_move_granular(self, ticker: Ticker, from: IdentityId, to: IdentityId, value: u128)
        ensures
            self.move_check(ticker, from, to, value).is_ok() && !self.token(ticker).divisible
                ==> value % ONE_UNIT == 0,
            self.token(ticker).divisible ==> self.move_check(ticker, from, to, value) != Err::<
                (),
                Error,
            >(Error::InvalidGranularity),
    {
    }

    /// Every issuance that the ledger accepts of an indivisible token is of
    /// whole units, and no issuance of a divisible token is turned down for
    /// its granularity.
    pub proof fn law_mint_granular(self, ticker: Ticker, to: IdentityId, value: u128, compliance: Compliance)
        ensures
            self.mint_check(ticker, to, value, compliance).is_ok() && !self.token(ticker).divisible
                ==> value % ONE_UNIT == 0,
            self.token(ticker).divisible ==> self.mint_check(ticker, to, value, compliance) != Err::<
                (),
                Error,
            >(Error::InvalidGranularity),
    {
    }

    /// Every redemption that the ledger accepts of an indivisible token is
    /// of whole units, and no redemption of a divisible token is turned down
    /// for its granularity.
    pub proof fn law_burn_granular(self, ticker: Ticker, holder: IdentityId, value: u128)
        ensures
            self.burn_check(ticker, holder, value).is_ok() && !self.token(ticker).divisible
                ==> value % ONE_UNIT == 0,
            self.token(ticker).divisible ==> self.burn_check(ticker, holder, value) != Err::<
                (),
                Error,
            >(Error::InvalidGranularity),
    {
    }

    /// Every value of a batch that the ledger accepts of an indivisible token
    /// is of whole units.
    pub proof fn law_batch_granular(
        self,
        sender: AccountKey,
        did: IdentityId,
        ticker: Ticker,
        dids: Seq<IdentityId>,
        values: Seq<u128>,
        compliance: Seq<Compliance>,
        i: int,
    )
        requires
            self.batch_issue_check(sender, did, ticker, dids, values, compliance).is_ok(),
            !self.token(ticker).divisible,
            0 <= i < values.len(),
        ensures
            values[i] % ONE_UNIT == 0,
    {
        self.lemma_batch_entries_ok(ticker, dids, values, compliance, dids.len());
        assert(self.batch_entry_check(ticker, dids, values, compliance, i).is_ok());
    }

    /// An indivisible token is created with a supply of whole units only.
    pub proof fn law_create_granular(
        self,
        sender: AccountKey,
        did: IdentityId,
        name: Seq<u8>,
        ticker: Ticker,
        total_supply: u128,
        divisible: bool,
        token_did: IdentityId,
        now: u64,
    )
        requires
            self.create_token_check(
                sender,
                did,
                name,
                ticker,
                total_supply,
                divisible,
                token_did,
                now,
            ).is_ok(),
            !divisible,
        ensures
            total_supply % ONE_UNIT == 0,
    {
    }
}

} // verus!
