//! Cover: a holder's balance covers what it has pledged to custodians, and
//! a nonce raises a custody allowance once.

use crate::asset::conservation::lemma_held_bounds;
use crate::asset::state::State;
use crate::asset::types::{AssetTypeView, Compliance, IdentifierTypeView};
use crate::error::Error;
use crate::primitives::{AccountKey, IdentityId};
use crate::ticker::Ticker;
use vstd::prelude::*;

verus! {

impl State {
    /// The balance of `holder` covers what it has pledged to custodians.
    pub open spec fn covered(self, ticker: Ticker, holder: IdentityId) -> bool {
        self.balance(ticker, holder) >= self.total_custody(ticker, holder)
    }

    /// A movement keeps every cover that the sender's custody check
    /// vouches for. Every movement but the custodian's own is made under
    /// that check.
    pub proof fn law_move_keeps_cover(
        self,
        ticker: Ticker,
        from: IdentityId,
        to: IdentityId,
        value: u128,
        any: Ticker,
        who: IdentityId,
    )
        requires
            self.covered(any, who),
            self.move_check(ticker, from, to, value).is_ok(),
            self.custody_check(ticker, from, value).is_ok() || from == to || any != ticker || who
                != from,
        ensures
            self.moved(ticker, from, to, value).covered(any, who),
    {
    }

    /// A transfer by the holder keeps every cover.
    pub proof fn law_transfer_keeps_cover(
        self,
        sender: AccountKey,
        did: IdentityId,
        ticker: Ticker,
        to: IdentityId,
        value: u128,
        compliance: Compliance,
        any: Ticker,
        who: IdentityId,
    )
        requires
            self.covered(any, who),
            self.transfer_check(sender, did, ticker, to, value, compliance).is_ok(),
        ensures
            self.moved(ticker, did, to, value).covered(any, who),
    {
    }

    /// A transfer on the strength of an allowance keeps every cover.
    pub proof fn law_transfer_from_keeps_cover(
        self,
        sender: AccountKey,
        did: IdentityId,
        ticker: Ticker,
        from: IdentityId,
        to: IdentityId,
        value: u128,
        compliance: Compliance,
        any: Ticker,
        who: IdentityId,
    )
        requires
            self.covered(any, who),
            self.transfer_from_check(sender, did, ticker, from, to, value, compliance).is_ok(),
        ensures
            self.transferred_from(did, ticker, from, to, value).covered(any, who),
    {
    }

    /// A transfer by a custodian keeps every cover: what leaves the
    /// holder's balance leaves what it has pledged too.
    pub proof fn law_custodian_transfer_keeps_cover(
        self,
        sender: AccountKey,
        ticker: Ticker,
        holder: IdentityId,
        custodian: IdentityId,
        receiver: IdentityId,
        value: u128,
        compliance: Compliance,
        any: Ticker,
        who: IdentityId,
    )
        requires
            self.covered(any, who),
            self.transfer_by_custodian_check(
                sender,
                ticker,
                holder,
                custodian,
                receiver,
                value,
                compliance,
            ).is_ok(),
        ensures
            self.transferred_by_custodian(ticker, holder, custodian, receiver, value).covered(
                any,
                who,
            ),
    {
    }

    /// An issuance keeps every cover.
    pub proof fn law_mint_keeps_cover(
        self,
        ticker: Ticker,
        to: IdentityId,
        value: u128,
        compliance: Compliance,
        any: Ticker,
        who: IdentityId,
    )
        requires
            self.covered(any, who),
            self.mint_check(ticker, to, value, compliance).is_ok(),
        ensures
            self.minted(ticker, to, value).covered(any, who),
    {
    }

    /// After the first `n` entries of a batch were credited no identity
    /// holds less than before, and nothing that is pledged has changed.
    pub proof fn lemma_batch_credited_grows(
        self,
        ticker: Ticker,
        dids: Seq<IdentityId>,
        values: Seq<u128>,
        n: nat,
        any: Ticker,
        who: IdentityId,
    )
        requires
            n <= dids.len(),
            dids.len() == values.len(),
            self.batch_in_range(ticker, dids, values, n),
        ensures
            self.batch_credited(ticker, dids, values, n).balance(any, who) >= self.balance(any, who),
            self.batch_credited(ticker, dids, values, n).total_custody_allowance
                == self.total_custody_allowance,
        decreases n,
    {
        if n > 0 {
            let p = (n - 1) as nat;
            assert(self.batch_in_range(ticker, dids, values, p));
            self.lemma_batch_credited_grows(ticker, dids, values, p, any, who);
            self.lemma_batch_credited_balance(ticker, dids, values, p, dids[n - 1]);
            assert(self.batch_balance(ticker, dids, values, p, dids[n - 1]) + values[n - 1]
                <= u128::MAX);
        }
    }

    /// The issuance of a batch keeps every cover.
    pub proof fn law_batch_keeps_cover(
        self,
        sender: AccountKey,
        did: IdentityId,
        ticker: Ticker,
        dids: Seq<IdentityId>,
        values: Seq<u128>,
        compliance: Seq<Compliance>,
        any: Ticker,
        who: IdentityId,
    )
        requires
            self.covered(any, who),
            self.batch_issue_check(sender, did, ticker, dids, values, compliance).is_ok(),
        ensures
            self.batch_issued(ticker, dids, values).covered(any, who),
    {
        self.lemma_batch_entries_ok(ticker, dids, values, compliance, dids.len());
        assert(self.batch_in_range(ticker, dids, values, dids.len())) by {
            assert forall|i: int| 0 <= i < dids.len() implies self.batch_balance(
                ticker,
                dids,
                values,
                i as nat,
                #[trigger] dids[i],
            ) + values[i] <= u128::MAX by {
                assert(self.batch_entry_check(ticker, dids, values, compliance, i).is_ok());
            }
        }
        self.lemma_batch_credited_grows(ticker, dids, values, dids.len(), any, who);
    }

    /// A redemption keeps every cover that the holder's custody check
    /// vouches for. Every redemption is made under that check.
    pub proof fn law_burn_keeps_cover(
        self,
        ticker: Ticker,
        holder: IdentityId,
        value: u128,
        any: Ticker,
        who: IdentityId,
    )
        requires
            self.covered(any, who),
            self.burn_check(ticker, holder, value).is_ok(),
            self.custody_check(ticker, holder, value).is_ok() || any != ticker || who != holder,
        ensures
            self.burned(ticker, holder, value).covered(any, who),
    {
    }

    /// A forced transfer keeps every cover.
    pub proof fn law_controller_transfer_keeps_cover(
        self,
        sender: AccountKey,
        did: IdentityId,
        ticker: Ticker,
        from: IdentityId,
        to: IdentityId,
        value: u128,
        any: Ticker,
        who: IdentityId,
    )
        requires
            self.covered(any, who),
            self.controller_transfer_check(sender, did, ticker, from, to, value).is_ok(),
        ensures
            self.moved(ticker, from, to, value).covered(any, who),
    {
    }

    /// A redemption by the holder keeps every cover.
    pub proof fn law_redeem_keeps_cover(
        self,
        sender: AccountKey,
        did: IdentityId,
        ticker: Ticker,
        value: u128,
        compliance: Compliance,
        any: Ticker,
        who: IdentityId,
    )
        requires
            self.covered(any, who),
            self.redeem_check(sender, did, ticker, value, compliance).is_ok(),
        ensures
            self.burned(ticker, did, value).covered(any, who),
    {
    }

    /// A redemption against an allowance keeps every cover.
    pub proof fn law_redeem_from_keeps_cover(
        self,
        sender: AccountKey,
        did: IdentityId,
        ticker: Ticker,
        from: IdentityId,
        value: u128,
        compliance: Compliance,
        any: Ticker,
        who: IdentityId,
    )
        requires
            self.covered(any, who),
            self.redeem_from_check(sender, did, ticker, from, value, compliance).is_ok(),
        ensures
            self.redeemed_from(did, ticker, from, value).covered(any, who),
    {
    }

    /// A forced redemption keeps every cover.
    pub proof fn law_controller_redeem_keeps_cover(
        self,
        sender: AccountKey,
        did: IdentityId,
        ticker: Ticker,
        holder: IdentityId,
        value: u128,
        any: Ticker,
        who: IdentityId,
    )
        requires
            self.covered(any, who),
            self.controller_redeem_check(sender, did, ticker, holder, value).is_ok(),
        ensures
            self.burned(ticker, holder, value).covered(any, who),
    {
    }

    /// Raising a custody allowance keeps every cover: it is granted only
    /// where the holder's balance covers the new total.
    pub proof fn law_custody_increase_keeps_cover(
        self,
        ticker: Ticker,
        holder: IdentityId,
        custodian: IdentityId,
        value: u128,
        any: Ticker,
        who: IdentityId,
    )
        requires
            self.covered(any, who),
            self.custody_increase_check(ticker, holder, custodian, value).is_ok(),
        ensures
            self.custody_increased(ticker, holder, custodian, value).covered(any, who),
    {
    }

    /// The creation of a token keeps every cover, where the balances of the
    /// new token added up to nothing before.
    pub proof fn law_create_keeps_cover(
        self,
        did: IdentityId,
        name: Seq<u8>,
        ticker: Ticker,
        total_supply: u128,
        divisible: bool,
        asset_type: AssetTypeView,
        identifiers: Seq<(IdentifierTypeView, Seq<u8>)>,
        funding_round: Option<Seq<u8>>,
        token_did: IdentityId,
        now: u64,
        any: Ticker,
        who: IdentityId,
    )
        requires
            self.covered(any, who),
            self.conserved(ticker),
            !self.tokens.contains_key(ticker),
        ensures
            self.token_created(
                did,
                name,
                ticker,
                total_supply,
                divisible,
                asset_type,
                identifiers,
                funding_round,
                token_did,
                now,
            ).covered(any, who),
    {
        lemma_held_bounds(self.balance_of, ticker, (ticker, did));
    }

    /// A nonce raises a custody allowance of a holder once: after a raise
    /// that it has authorized, every further attempt with it fails for that
    /// reason, whoever makes it and whatever the signature is.
    pub proof fn law_nonce_serves_once(
        self,
        ticker: Ticker,
        holder: IdentityId,
        custodian: IdentityId,
        value: u128,
        nonce: u16,
        sender: AccountKey,
        holder_key: AccountKey,
        other_custodian: IdentityId,
        caller: IdentityId,
        other_value: u128,
        signature_valid: bool,
    )
        ensures
            self.custody_increased_of(
                ticker,
                holder,
                custodian,
                value,
                nonce,
            ).increase_custody_allowance_of_check(
                sender,
                ticker,
                holder,
                holder_key,
                other_custodian,
                caller,
                other_value,
                nonce,
                signature_valid,
            ) == Err::<(), Error>(Error::SignatureAlreadyUsed),
    {
    }

    /// A nonce that was used stays used through every movement, issuance,
    /// redemption and change of custody.
    pub proof fn law_used_nonce_stays_used(
        self,
        ticker: Ticker,
        a: IdentityId,
        b: IdentityId,
        c: IdentityId,
        value: u128,
        other_nonce: u16,
        any: Ticker,
        holder: IdentityId,
        nonce: u16,
    )
        requires
            self.nonce_used(any, holder, nonce),
        ensures
            self.moved(ticker, a, b, value).nonce_used(any, holder, nonce),
            self.transferred_from(c, ticker, a, b, value).nonce_used(any, holder, nonce),
            self.transferred_by_custodian(ticker, a, c, b, value).nonce_used(any, holder, nonce),
            self.minted(ticker, a, value).nonce_used(any, holder, nonce),
            self.burned(ticker, a, value).nonce_used(any, holder, nonce),
            self.redeemed_from(a, ticker, b, value).nonce_used(any, holder, nonce),
            self.custody_increased(ticker, a, b, value).nonce_used(any, holder, nonce),
            self.custody_increased_of(ticker, a, b, value, other_nonce).nonce_used(
                any,
                holder,
                nonce,
            ),
            self.create_checkpoint(ticker).nonce_used(any, holder, nonce),
    {
    }
}

} // verus!
