//! History: what an identity held when a checkpoint was made can be told
//! for ever after, whatever happens to its balance.
//!
//! A checkpoint that is made fixes the balance of every identity at that
//! moment, and no later movement, issuance or redemption changes what is told
//! of a checkpoint made before it.

use crate::asset::checkpoint::{lemma_ceiling_at, lemma_ceiling_least};
use crate::asset::state::{ceiling, last_or_zero, State};
use crate::primitives::IdentityId;
use crate::ticker::Ticker;
use vstd::prelude::*;

verus! {

/// In an increasing list every element is at most the last.
pub proof fn lemma_increasing_last(s: Seq<u64>, i: int)
    requires
        crate::asset::state::increasing(s),
        0 <= i < s.len(),
    ensures
        s[i] <= s.last(),
{
    if i < s.len() - 1 {
        assert(s[i] < s[s.len() - 1]);
    }
}

/// Adding an element at the end of a list leaves the ceiling of `at` as it
/// was, where the list was increasing and reached `at`.
pub proof fn lemma_ceiling_push(s: Seq<u64>, at: u64, x: u64)
    requires
        crate::asset::state::increasing(s),
        s.len() > 0,
        at <= s.last(),
    ensures
        ceiling(s.push(x), at) == ceiling(s, at),
{
    lemma_ceiling_least(s, at);
    let c = ceiling(s, at);
    let i = choose|i: int| 0 <= i < s.len() && s[i] == c;
    assert forall|j: int| 0 <= j < i implies s.push(x)[j] < at by {
        assert(s[j] < s[i]);
        if s[j] >= at {
            assert(c <= s[j]);
        }
    }
    assert(s.push(x)[i] == c);
    lemma_ceiling_at(s.push(x), at, i);
}

impl State {
    /// What is told of a checkpoint that was never made, and of no
    /// checkpoint at all, is the current balance.
    pub proof fn law_balance_at_outside(self, ticker: Ticker, did: IdentityId, at: u64)
        requires
            at == 0 || at > self.checkpoints(ticker),
        ensures
            self.balance_at(ticker, did, at) == self.balance(ticker, did),
    {
    }

    /// Of an identity whose balance never changed since the first checkpoint,
    /// the current balance is told at every checkpoint.
    pub proof fn law_balance_at_untouched(self, ticker: Ticker, did: IdentityId, at: u64)
        requires
            self.recorded_checkpoints(ticker, did).len() == 0,
        ensures
            self.balance_at(ticker, did, at) == self.balance(ticker, did),
    {
    }

    /// Once the balance of `did` was taken down ahead of a change, what is
    /// told of every checkpoint made so far no longer rests on the current
    /// balance: it is a recorded balance, the one that was told before.
    pub proof fn lemma_recorded_pins(self, ticker: Ticker, did: IdentityId, balance: u128, k: u64)
        requires
            self.inv(),
            1 <= k <= self.checkpoints(ticker),
            self.unrecorded(ticker, did) ==> balance == self.balance(ticker, did),
        ensures
            k <= last_or_zero(
                self.update_checkpoint(ticker, did, balance).recorded_checkpoints(ticker, did),
            ),
            self.update_checkpoint(ticker, did, balance).recorded_balance(
                ticker,
                did,
                ceiling(
                    self.update_checkpoint(ticker, did, balance).recorded_checkpoints(ticker, did),
                    k,
                ),
            ) == self.balance_at(ticker, did, k),
    {
        let next = self.update_checkpoint(ticker, did, balance);
        let count = self.total_checkpoints[ticker];
        let old_list = self.recorded_checkpoints(ticker, did);
        if self.user_checkpoints.contains_key((ticker, did)) {
            assert(self.recorded_in_order(ticker, did));
        }
        if self.unrecorded(ticker, did) {
            let new_list = old_list.push(count);
            assert(next.recorded_checkpoints(ticker, did) == new_list);
            assert forall|i: int| 0 <= i < old_list.len() implies old_list[i] < count by {
                assert(self.checkpoint_balance.contains_key((ticker, did, old_list[i])));
            }
            assert(new_list.last() == count);
            if k > last_or_zero(old_list) {
                assert forall|j: int| 0 <= j < old_list.len() implies new_list[j] < k by {
                    lemma_increasing_last(old_list, j);
                }
                lemma_ceiling_at(new_list, k, old_list.len() as int);
            } else {
                lemma_ceiling_push(old_list, k, count);
                lemma_ceiling_least(old_list, k);
                let c = ceiling(old_list, k);
                let i = choose|i: int| 0 <= i < old_list.len() && old_list[i] == c;
                assert(old_list[i] < count);
            }
        } else {
            assert(self.checkpoint_balance.contains_key((ticker, did, count)));
            assert(old_list.contains(count));
            let i = choose|i: int| 0 <= i < old_list.len() && old_list[i] == count;
            lemma_increasing_last(old_list, i);
        }
    }

    /// Taking down the balance of one identity changes nothing that is
    /// recorded of another, or of another token.
    pub proof fn lemma_update_checkpoint_other(
        self,
        ticker: Ticker,
        did: IdentityId,
        balance: u128,
        other_ticker: Ticker,
        other_did: IdentityId,
    )
        requires
            other_ticker != ticker || other_did != did,
        ensures
            self.update_checkpoint(ticker, did, balance).recorded_checkpoints(other_ticker, other_did)
                == self.recorded_checkpoints(other_ticker, other_did),
            forall|id: u64|
                self.update_checkpoint(ticker, did, balance).recorded_balance(
                    other_ticker,
                    other_did,
                    id,
                ) == self.recorded_balance(other_ticker, other_did, id),
            self.update_checkpoint(ticker, did, balance).unrecorded(other_ticker, other_did)
                == self.unrecorded(other_ticker, other_did),
    {
    }

    /// A change of the balance of `did` that is preceded by taking the
    /// balance down changes nothing that is told of any identity at any
    /// checkpoint made so far.
    pub proof fn lemma_noted_change_keeps_history(
        self,
        after: State,
        ticker: Ticker,
        did: IdentityId,
        balance: u128,
        updated: u128,
        any: Ticker,
        who: IdentityId,
        k: u64,
    )
        requires
            self.inv(),
            1 <= k <= self.checkpoints(any),
            self.unrecorded(ticker, did) ==> balance == self.balance(ticker, did),
            after.total_checkpoints == self.total_checkpoints,
            after.user_checkpoints == self.update_checkpoint(ticker, did, balance).user_checkpoints,
            after.checkpoint_balance == self.update_checkpoint(ticker, did, balance).checkpoint_balance,
            after.balance_of == self.balance_of.insert((ticker, did), updated),
        ensures
            after.balance_at(any, who, k) == self.balance_at(any, who, k),
    {
        let noted = self.update_checkpoint(ticker, did, balance);
        if any == ticker && who == did {
            self.lemma_recorded_pins(ticker, did, balance, k);
            assert(after.recorded_checkpoints(any, who) == noted.recorded_checkpoints(any, who));
            assert(after.recorded_balance(any, who, ceiling(after.recorded_checkpoints(any, who), k))
                == noted.recorded_balance(
                any,
                who,
                ceiling(noted.recorded_checkpoints(any, who), k),
            ));
        } else {
            self.lemma_update_checkpoint_other(ticker, did, balance, any, who);
            assert(after.recorded_checkpoints(any, who) == self.recorded_checkpoints(any, who));
            assert(after.balance(any, who) == self.balance(any, who));
            assert(after.recorded_balance(any, who, ceiling(after.recorded_checkpoints(any, who), k))
                == self.recorded_balance(any, who, ceiling(self.recorded_checkpoints(any, who), k)));
        }
    }

    /// The checkpoint that is made tells of every identity what it holds at
    /// that moment.
    pub proof fn law_checkpoint_fixes_balance(self, ticker: Ticker, did: IdentityId)
        requires
            self.inv(),
            self.create_checkpoint_check(ticker).is_ok(),
        ensures
            self.create_checkpoint(ticker).balance_at(
                ticker,
                did,
                self.create_checkpoint(ticker).checkpoints(ticker),
            ) == self.balance(ticker, did),
    {
        let next = self.create_checkpoint(ticker);
        let list = self.recorded_checkpoints(ticker, did);
        assert(next.recorded_checkpoints(ticker, did) == list);
        if list.len() > 0 {
            assert(self.recorded_in_order(ticker, did));
            assert(list[list.len() - 1] <= self.checkpoints(ticker));
        }
    }

    /// Making a checkpoint changes nothing that is told of the checkpoints
    /// made before.
    pub proof fn law_checkpoint_keeps_history(self, ticker: Ticker, any: Ticker, who: IdentityId, k: u64)
        requires
            self.create_checkpoint_check(ticker).is_ok(),
            1 <= k <= self.checkpoints(any),
        ensures
            self.create_checkpoint(ticker).balance_at(any, who, k) == self.balance_at(any, who, k),
    {
        let next = self.create_checkpoint(ticker);
        assert(next.recorded_checkpoints(any, who) == self.recorded_checkpoints(any, who));
    }

    /// A movement changes nothing that is told of any identity at any
    /// checkpoint made so far.
    pub proof fn law_move_keeps_history(
        self,
        ticker: Ticker,
        from: IdentityId,
        to: IdentityId,
        value: u128,
        any: Ticker,
        who: IdentityId,
        k: u64,
    )
        requires
            self.inv(),
            1 <= k <= self.checkpoints(any),
        ensures
            self.moved(ticker, from, to, value).balance_at(any, who, k) == self.balance_at(any, who, k),
    {
        let from_balance = self.balance(ticker, from);
        let to_balance = self.balance(ticker, to);
        let updated_from = (from_balance - value) as u128;
        let updated_to = (self.balance_after_debit(ticker, from, to, value) + value) as u128;
        let noted = self.update_checkpoint(ticker, from, from_balance);
        let mid = State { balance_of: self.balance_of.insert((ticker, from), updated_from), ..noted };
        self.lemma_noted_change_keeps_history(
            mid,
            ticker,
            from,
            from_balance,
            updated_from,
            any,
            who,
            k,
        );
        self.lemma_update_checkpoint_inv(ticker, from, from_balance);
        noted.lemma_inv_frame(mid);
        let after = self.moved(ticker, from, to, value);
        if from != to {
            self.lemma_update_checkpoint_other(ticker, from, from_balance, ticker, to);
            assert(mid.balance(ticker, to) == to_balance);
        } else {
            assert(!mid.unrecorded(ticker, to));
        }
        assert(mid.update_checkpoint(ticker, to, to_balance).user_checkpoints
            == after.user_checkpoints);
        mid.lemma_noted_change_keeps_history(after, ticker, to, to_balance, updated_to, any, who, k);
    }

    /// An issuance changes nothing that is told of any identity at any
    /// checkpoint made so far.
    pub proof fn law_mint_keeps_history(
        self,
        ticker: Ticker,
        to: IdentityId,
        value: u128,
        any: Ticker,
        who: IdentityId,
        k: u64,
    )
        requires
            self.inv(),
            1 <= k <= self.checkpoints(any),
        ensures
            self.minted(ticker, to, value).balance_at(any, who, k) == self.balance_at(any, who, k),
    {
        let balance = self.balance(ticker, to);
        self.lemma_noted_change_keeps_history(
            self.minted(ticker, to, value),
            ticker,
            to,
            balance,
            (balance + value) as u128,
            any,
            who,
            k,
        );
    }

    /// A redemption changes nothing that is told of any identity at any
    /// checkpoint made so far.
    pub proof fn law_burn_keeps_history(
        self,
        ticker: Ticker,
        holder: IdentityId,
        value: u128,
        any: Ticker,
        who: IdentityId,
        k: u64,
    )
        requires
            self.inv(),
            1 <= k <= self.checkpoints(any),
        ensures
            self.burned(ticker, holder, value).balance_at(any, who, k) == self.balance_at(any, who, k),
    {
        let balance = self.balance(ticker, holder);
        self.lemma_noted_change_keeps_history(
            self.burned(ticker, holder, value),
            ticker,
            holder,
            balance,
            (balance - value) as u128,
            any,
            who,
            k,
        );
    }

    /// Crediting the first `n` entries of a batch keeps the checkpoints in
    /// order and changes nothing that is told of any identity at any
    /// checkpoint made so far.
    pub proof fn lemma_batch_credited_history(
        self,
        ticker: Ticker,
        dids: Seq<IdentityId>,
        values: Seq<u128>,
        n: nat,
    )
        requires
            self.inv(),
            n <= dids.len(),
            dids.len() == values.len(),
        ensures
            self.batch_credited(ticker, dids, values, n).inv(),
            self.batch_credited(ticker, dids, values, n).total_checkpoints == self.total_checkpoints,
            forall|any: Ticker, who: IdentityId, k: u64|
                1 <= k <= self.checkpoints(any) ==> #[trigger] self.batch_credited(
                    ticker,
                    dids,
                    values,
                    n,
                ).balance_at(any, who, k) == self.balance_at(any, who, k),
        decreases n,
    {
        if n > 0 {
            let before = self.batch_credited(ticker, dids, values, (n - 1) as nat);
            self.lemma_batch_credited_history(ticker, dids, values, (n - 1) as nat);
            let did = dids[n - 1];
            let value = values[n - 1];
            let balance = before.balance(ticker, did);
            let updated = (balance + value) as u128;
            let after = before.batch_credit(ticker, did, value);
            let noted = before.update_checkpoint(ticker, did, balance);
            before.lemma_update_checkpoint_inv(ticker, did, balance);
            noted.lemma_inv_frame(after);
            assert forall|any: Ticker, who: IdentityId, k: u64|
                1 <= k <= self.checkpoints(any) implies #[trigger] after.balance_at(any, who, k)
                == self.balance_at(any, who, k) by {
                assert(before.checkpoints(any) == self.checkpoints(any));
                before.lemma_noted_change_keeps_history(
                    after,
                    ticker,
                    did,
                    balance,
                    updated,
                    any,
                    who,
                    k,
                );
            }
        }
    }

    /// The issuance of a batch changes nothing that is told of any identity
    /// at any checkpoint made so far.
    pub proof fn law_batch_keeps_history(
        self,
        ticker: Ticker,
        dids: Seq<IdentityId>,
        values: Seq<u128>,
        any: Ticker,
        who: IdentityId,
        k: u64,
    )
        requires
            self.inv(),
            dids.len() == values.len(),
            1 <= k <= self.checkpoints(any),
        ensures
            self.batch_issued(ticker, dids, values).balance_at(any, who, k) == self.balance_at(
                any,
                who,
                k,
            ),
    {
        self.lemma_batch_credited_history(ticker, dids, values, dids.len());
        let credited = self.batch_credited(ticker, dids, values, dids.len());
        let after = self.batch_issued(ticker, dids, values);
        assert(after.recorded_checkpoints(any, who) == credited.recorded_checkpoints(any, who));
        assert(after.balance_at(any, who, k) == credited.balance_at(any, who, k));
    }

    /// What is told of the checkpoints rests on balances and on what is
    /// recorded under checkpoints, and on nothing else.
    pub proof fn lemma_history_frame(self, other: State, any: Ticker, who: IdentityId, k: u64)
        requires
            other.balance_of == self.balance_of,
            other.total_checkpoints == self.total_checkpoints,
            other.user_checkpoints == self.user_checkpoints,
            other.checkpoint_balance == self.checkpoint_balance,
        ensures
            other.balance_at(any, who, k) == self.balance_at(any, who, k),
    {
        assert(other.recorded_checkpoints(any, who) == self.recorded_checkpoints(any, who));
    }

    /// A transfer on the strength of an allowance, a transfer by a
    /// custodian and a redemption against an allowance change nothing that
    /// is told of any identity at any checkpoint made so far.
    pub proof fn law_spending_keeps_history(
        self,
        ticker: Ticker,
        a: IdentityId,
        b: IdentityId,
        c: IdentityId,
        value: u128,
        any: Ticker,
        who: IdentityId,
        k: u64,
    )
        requires
            self.inv(),
            1 <= k <= self.checkpoints(any),
        ensures
            self.transferred_from(c, ticker, a, b, value).balance_at(any, who, k) == self.balance_at(
                any,
                who,
                k,
            ),
            self.transferred_by_custodian(ticker, a, c, b, value).balance_at(any, who, k)
                == self.balance_at(any, who, k),
            self.redeemed_from(a, ticker, b, value).balance_at(any, who, k) == self.balance_at(
                any,
                who,
                k,
            ),
    {
        self.law_move_keeps_history(ticker, a, b, value, any, who, k);
        self.moved(ticker, a, b, value).lemma_history_frame(
            self.transferred_from(c, ticker, a, b, value),
            any,
            who,
            k,
        );
        self.moved(ticker, a, b, value).lemma_history_frame(
            self.transferred_by_custodian(ticker, a, c, b, value),
            any,
            who,
            k,
        );
        self.law_burn_keeps_history(ticker, a, value, any, who, k);
        self.burned(ticker, a, value).lemma_history_frame(
            self.redeemed_from(a, ticker, b, value),
            any,
            who,
            k,
        );
    }

    /// The creation of a token changes nothing that is told of any identity
    /// at any checkpoint made so far: what the creator held before is taken
    /// down before the supply is credited.
    pub proof fn law_create_keeps_history(
        self,
        did: IdentityId,
        name: Seq<u8>,
        ticker: Ticker,
        total_supply: u128,
        divisible: bool,
        asset_type: crate::asset::types::AssetTypeView,
        identifiers: Seq<(crate::asset::types::IdentifierTypeView, Seq<u8>)>,
        funding_round: Option<Seq<u8>>,
        token_did: IdentityId,
        now: u64,
        any: Ticker,
        who: IdentityId,
        k: u64,
    )
        requires
            self.inv(),
            1 <= k <= self.checkpoints(any),
        ensures
            self.token_created(
                did,
                name,
                ticker,
                total_supply,
                divisible,
                asset_type,
                identifiers,
                funding_round,
                token_did,
                now,
            ).balance_at(any, who, k) == self.balance_at(any, who, k),
    {
        let after = self.token_created(
            did,
            name,
            ticker,
            total_supply,
            divisible,
            asset_type,
            identifiers,
            funding_round,
            token_did,
            now,
        );
        let secured = self.ticker_secured(did, ticker, token_did, now);
        self.lemma_inv_frame(secured);
        self.lemma_history_frame(secured, any, who, k);
        assert(secured.balance(ticker, did) == self.balance(ticker, did));
        assert(secured.checkpoints(any) == self.checkpoints(any));
        secured.lemma_noted_change_keeps_history(
            after,
            ticker,
            did,
            self.balance(ticker, did),
            total_supply,
            any,
            who,
            k,
        );
    }
}

} // verus!
