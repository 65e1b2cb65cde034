//! Conservation of supply: what the holders of a token hold adds up to its
//! total supply, and every movement, issuance and redemption keeps it so.

use crate::asset::issue::sum_values;
use crate::asset::state::State;
use crate::asset::types::{AssetTypeView, Compliance, IdentifierTypeView, MAX_SUPPLY};
use crate::primitives::AccountKey;
use crate::primitives::IdentityId;
use crate::ticker::Ticker;
use vstd::prelude::*;

verus! {

/// A map of balances.
pub type Balances = Map<(Ticker, IdentityId), u128>;

/// What the entry under `k` adds to the holdings of `ticker`.
pub open spec fn weight(m: Balances, ticker: Ticker, k: (Ticker, IdentityId)) -> nat {
    if k.0 == ticker && m.contains_key(k) {
        m[k] as nat
    } else {
        0
    }
}

/// The sum of all balances of `ticker` in `m`.
pub open spec fn held(m: Balances, ticker: Ticker) -> nat
    decreases m.dom().len(),
    when m.dom().finite()
{
    if m.dom().len() == 0 {
        0
    } else {
        let k = m.dom().choose();
        weight(m, ticker, k) + held(m.remove(k), ticker)
    }
}

/// The sum of the balances of `ticker` is the balance under any one key plus
/// the sum of the others.
pub proof fn lemma_held_remove(m: Balances, ticker: Ticker, k: (Ticker, IdentityId))
    requires
        m.dom().finite(),
        m.contains_key(k),
    ensures
        held(m, ticker) == weight(m, ticker, k) + held(m.remove(k), ticker),
    decreases m.dom().len(),
{
    let c = m.dom().choose();
    if c != k {
        let mc = m.remove(c);
        let mk = m.remove(k);
        lemma_held_remove(mc, ticker, k);
        lemma_held_remove(mk, ticker, c);
        assert(mc.remove(k) =~= mk.remove(c));
        assert(weight(mc, ticker, k) == weight(m, ticker, k));
        assert(weight(mk, ticker, c) == weight(m, ticker, c));
    }
}

/// Writing a balance changes the sum by the difference between the new value
/// and the old, where the key is one of `ticker`, and not at all where it is
/// not.
pub proof fn lemma_held_insert(m: Balances, ticker: Ticker, k: (Ticker, IdentityId), v: u128)
    requires
        m.dom().finite(),
    ensures
        m.insert(k, v).dom().finite(),
        held(m.insert(k, v), ticker) + weight(m, ticker, k) == held(m, ticker) + (if k.0
            == ticker {
            v as nat
        } else {
            0
        }),
{
    let n = m.insert(k, v);
    lemma_held_remove(n, ticker, k);
    assert(n.remove(k) =~= m.remove(k));
    if m.contains_key(k) {
        lemma_held_remove(m, ticker, k);
    } else {
        assert(m.remove(k) =~= m);
    }
}

/// No balance of `ticker` exceeds the sum of all of them.
pub proof fn lemma_held_bounds(m: Balances, ticker: Ticker, k: (Ticker, IdentityId))
    requires
        m.dom().finite(),
    ensures
        weight(m, ticker, k) <= held(m, ticker),
{
    if m.contains_key(k) {
        lemma_held_remove(m, ticker, k);
    }
}

impl State {
    /// The balances of `ticker` add up to its total supply.
    pub open spec fn conserved(self, ticker: Ticker) -> bool {
        self.balance_of.dom().finite() && held(self.balance_of, ticker) == self.total_supply(ticker)
    }

    /// A ledger with the balances and the supply of one in which `ticker` is
    /// conserved conserves it too.
    pub proof fn lemma_conserved_frame(self, other: State, ticker: Ticker)
        requires
            self.conserved(ticker),
            other.balance_of == self.balance_of,
            other.total_supply(ticker) == self.total_supply(ticker),
        ensures
            other.conserved(ticker),
    {
    }

    /// A movement conserves every token: what leaves one balance enters
    /// another, and an identity that moves tokens to itself holds what it
    /// held.
    pub proof fn law_move_conserves(
        self,
        ticker: Ticker,
        from: IdentityId,
        to: IdentityId,
        value: u128,
        any: Ticker,
    )
        requires
            self.conserved(any),
            self.move_check(ticker, from, to, value).is_ok(),
        ensures
            self.moved(ticker, from, to, value).conserved(any),
            from == to ==> self.moved(ticker, from, to, value).balance(ticker, from)
                == self.balance(ticker, from),
    {
        let m0 = self.balance_of;
        let from_balance = self.balance(ticker, from);
        let updated_from = (from_balance - value) as u128;
        let updated_to = (self.balance_after_debit(ticker, from, to, value) + value) as u128;
        let m1 = m0.insert((ticker, from), updated_from);
        lemma_held_insert(m0, any, (ticker, from), updated_from);
        lemma_held_insert(m1, any, (ticker, to), updated_to);
        if from != to {
            assert(weight(m1, any, (ticker, to)) == weight(m0, any, (ticker, to)));
        }
        assert(self.moved(ticker, from, to, value).balance_of == m1.insert((ticker, to), updated_to));
    }

    /// The ledger at genesis conserves every token.
    pub proof fn law_genesis_conserves(config: crate::asset::types::TickerRegistrationConfig, any: Ticker)
        ensures
            State::genesis(config).conserved(any),
    {
    }

    /// A transfer on the strength of an allowance conserves every token.
    pub proof fn law_transfer_from_conserves(
        self,
        did: IdentityId,
        ticker: Ticker,
        from: IdentityId,
        to: IdentityId,
        value: u128,
        any: Ticker,
    )
        requires
            self.conserved(any),
            self.move_check(ticker, from, to, value).is_ok(),
        ensures
            self.transferred_from(did, ticker, from, to, value).conserved(any),
    {
        self.law_move_conserves(ticker, from, to, value, any);
        self.moved(ticker, from, to, value).lemma_conserved_frame(
            self.transferred_from(did, ticker, from, to, value),
            any,
        );
    }

    /// A transfer by a custodian conserves every token.
    pub proof fn law_custodian_transfer_conserves(
        self,
        ticker: Ticker,
        holder: IdentityId,
        custodian: IdentityId,
        receiver: IdentityId,
        value: u128,
        any: Ticker,
    )
        requires
            self.conserved(any),
            self.move_check(ticker, holder, receiver, value).is_ok(),
        ensures
            self.transferred_by_custodian(ticker, holder, custodian, receiver, value).conserved(any),
    {
        self.law_move_conserves(ticker, holder, receiver, value, any);
        self.moved(ticker, holder, receiver, value).lemma_conserved_frame(
            self.transferred_by_custodian(ticker, holder, custodian, receiver, value),
            any,
        );
    }

    /// Making a checkpoint, and raising a custody allowance, conserve every
    /// token.
    pub proof fn law_bookkeeping_conserves(
        self,
        ticker: Ticker,
        holder: IdentityId,
        custodian: IdentityId,
        value: u128,
        any: Ticker,
    )
        requires
            self.conserved(any),
        ensures
            self.create_checkpoint(ticker).conserved(any),
            self.custody_increased(ticker, holder, custodian, value).conserved(any),
    {
        self.lemma_conserved_frame(self.create_checkpoint(ticker), any);
        self.lemma_conserved_frame(self.custody_increased(ticker, holder, custodian, value), any);
    }

    /// Issuance conserves every token: balance and supply grow alike.
    pub proof fn law_mint_conserves(
        self,
        ticker: Ticker,
        to: IdentityId,
        value: u128,
        compliance: Compliance,
        any: Ticker,
    )
        requires
            self.conserved(any),
            self.mint_check(ticker, to, value, compliance).is_ok(),
        ensures
            self.minted(ticker, to, value).conserved(any),
    {
        lemma_held_insert(
            self.balance_of,
            any,
            (ticker, to),
            (self.balance(ticker, to) + value) as u128,
        );
    }

    /// Redemption conserves every token: balance and supply shrink alike.
    pub proof fn law_burn_conserves(self, ticker: Ticker, holder: IdentityId, value: u128, any: Ticker)
        requires
            self.conserved(any),
            self.burn_check(ticker, holder, value).is_ok(),
            self.supply_check(ticker, value).is_ok(),
        ensures
            self.burned(ticker, holder, value).conserved(any),
    {
        lemma_held_insert(
            self.balance_of,
            any,
            (ticker, holder),
            (self.balance(ticker, holder) - value) as u128,
        );
    }

    /// A redemption against an allowance conserves every token.
    pub proof fn law_redeem_from_conserves(
        self,
        did: IdentityId,
        ticker: Ticker,
        from: IdentityId,
        value: u128,
        any: Ticker,
    )
        requires
            self.conserved(any),
            self.burn_check(ticker, did, value).is_ok(),
            self.supply_check(ticker, value).is_ok(),
        ensures
            self.redeemed_from(did, ticker, from, value).conserved(any),
    {
        self.law_burn_conserves(ticker, did, value, any);
        self.burned(ticker, did, value).lemma_conserved_frame(
            self.redeemed_from(did, ticker, from, value),
            any,
        );
    }

    /// The creation of a token conserves every token: no one held any of the
    /// new token before, and the creator holds its whole supply after.
    pub proof fn law_create_conserves(
        self,
        did: IdentityId,
        name: Seq<u8>,
        ticker: Ticker,
        total_supply: u128,
        divisible: bool,
        asset_type: AssetTypeView,
        identifiers: Seq<(IdentifierTypeView, Seq<u8>)>,
        funding_round: Option<Seq<u8>>,
        token_did: IdentityId,
        now: u64,
        any: Ticker,
    )
        requires
            self.conserved(any),
            self.conserved(ticker),
            !self.tokens.contains_key(ticker),
        ensures
            self.token_created(
                did,
                name,
                ticker,
                total_supply,
                divisible,
                asset_type,
                identifiers,
                funding_round,
                token_did,
                now,
            ).conserved(any),
    {
        lemma_held_bounds(self.balance_of, ticker, (ticker, did));
        lemma_held_insert(self.balance_of, any, (ticker, did), total_supply);
    }

    /// What is held of `any` after the first `n` entries of a batch were
    /// credited: what was held before, and for `ticker` the sum of the values
    /// more.
    pub proof fn lemma_batch_credited_held(
        self,
        ticker: Ticker,
        dids: Seq<IdentityId>,
        values: Seq<u128>,
        n: nat,
        any: Ticker,
    )
        requires
            self.balance_of.dom().finite(),
            n <= dids.len(),
            dids.len() == values.len(),
            self.batch_in_range(ticker, dids, values, n),
        ensures
            self.batch_credited(ticker, dids, values, n).balance_of.dom().finite(),
            held(self.batch_credited(ticker, dids, values, n).balance_of, any) == held(
                self.balance_of,
                any,
            ) + (if any == ticker {
                sum_values(values, n)
            } else {
                0
            }),
            self.batch_credited(ticker, dids, values, n).tokens == self.tokens,
        decreases n,
    {
        if n > 0 {
            let p = (n - 1) as nat;
            let before = self.batch_credited(ticker, dids, values, p);
            assert(self.batch_in_range(ticker, dids, values, p));
            self.lemma_batch_credited_held(ticker, dids, values, p, any);
            let did = dids[n - 1];
            let value = values[n - 1];
            self.lemma_batch_credited_balance(ticker, dids, values, p, did);
            assert(self.batch_balance(ticker, dids, values, p, dids[n - 1]) + values[n - 1]
                <= u128::MAX);
            let updated = (before.balance(ticker, did) + value) as u128;
            lemma_held_insert(before.balance_of, any, (ticker, did), updated);
            let after = before.batch_credit(ticker, did, value);
            assert(after.balance_of == before.balance_of.insert((ticker, did), updated));
        }
    }

    /// The issuance of a batch conserves every token: every entry is
    /// credited on top of the ones before it, also where a batch names an
    /// identity more than once.
    pub proof fn law_batch_conserves(
        self,
        sender: AccountKey,
        did: IdentityId,
        ticker: Ticker,
        dids: Seq<IdentityId>,
        values: Seq<u128>,
        compliance: Seq<Compliance>,
        any: Ticker,
    )
        requires
            self.conserved(any),
            self.batch_issue_check(sender, did, ticker, dids, values, compliance).is_ok(),
        ensures
            self.batch_issued(ticker, dids, values).conserved(any),
    {
        self.lemma_batch_entries_ok(ticker, dids, values, compliance, dids.len());
        assert(self.batch_in_range(ticker, dids, values, dids.len())) by {
            assert forall|i: int| 0 <= i < dids.len() implies self.batch_balance(
                ticker,
                dids,
                values,
                i as nat,
                #[trigger] dids[i],
            ) + values[i] <= u128::MAX by {
                assert(self.batch_entry_check(ticker, dids, values, compliance, i).is_ok());
            }
        }
        self.lemma_batch_credited_held(ticker, dids, values, dids.len(), any);
    }
}

} // verus!
