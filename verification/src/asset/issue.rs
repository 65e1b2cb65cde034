//! Issuing tokens: to one identity, and to many at once.

use crate::asset::state::State;
use crate::asset::types::{
    issued_view, Compliance, Issued, IssuedView, SecurityTokenView, MAX_SUPPLY,
};
use crate::primitives::clone_bytes;
use crate::asset::Module;
use crate::error::Error;
use crate::primitives::{AccountKey, IdentityId, Signatory};
use crate::ticker::Ticker;
use vstd::prelude::*;

verus! {

/// The sum of the first `n` of `values`.
pub open spec fn sum_values(values: Seq<u128>, n: nat) -> nat
    decreases n,
{
    if n == 0 {
        0
    } else {
        sum_values(values, (n - 1) as nat) + values[n - 1] as nat
    }
}

impl State {
    /// Whether entry `i` of a batch can be issued, given that the entries
    /// before it can: the value in whole units where the token is
    /// indivisible, the supply within its limit after this and all earlier
    /// entries, the receiver's balance within range after this and all
    /// earlier entries that name it, and the movement permitted.
    pub open spec fn batch_entry_check(
        self,
        ticker: Ticker,
        dids: Seq<IdentityId>,
        values: Seq<u128>,
        compliance: Seq<Compliance>,
        i: int,
    ) -> Result<(), Error> {
        let supply = self.total_supply(ticker) + sum_values(values, i as nat);
        if !self.granular(ticker, values[i]) {
            Err(Error::InvalidGranularity)
        } else if supply + values[i] > u128::MAX {
            Err(Error::TotalSupplyOverflow)
        } else if supply + values[i] > MAX_SUPPLY {
            Err(Error::TotalSupplyAboveLimit)
        } else if self.batch_balance(ticker, dids, values, i as nat, dids[i]) + values[i]
            > u128::MAX {
            Err(Error::BalanceOverflow)
        } else {
            self.permitted(ticker, None, Some(dids[i]), values[i], compliance[i])
        }
    }

    /// What `did` holds once the first `n` entries of a batch are credited:
    /// what it held, and every value of those entries that names it.
    pub open spec fn batch_balance(
        self,
        ticker: Ticker,
        dids: Seq<IdentityId>,
        values: Seq<u128>,
        n: nat,
        did: IdentityId,
    ) -> int
        decreases n,
    {
        if n == 0 {
            self.balance(ticker, did) as int
        } else {
            self.batch_balance(ticker, dids, values, (n - 1) as nat, did) + (if dids[n - 1] == did {
                values[n - 1] as int
            } else {
                0
            })
        }
    }

    /// What is wrong with the first of the first `n` entries of a batch that
    /// cannot be issued, if there is one.
    pub open spec fn batch_entries_check(
        self,
        ticker: Ticker,
        dids: Seq<IdentityId>,
        values: Seq<u128>,
        compliance: Seq<Compliance>,
        n: nat,
    ) -> Result<(), Error>
        decreases n,
    {
        if n == 0 {
            Ok(())
        } else if self.batch_entries_check(ticker, dids, values, compliance, (n - 1) as nat).is_err() {
            self.batch_entries_check(ticker, dids, values, compliance, (n - 1) as nat)
        } else {
            self.batch_entry_check(ticker, dids, values, compliance, n - 1)
        }
    }

    /// Whether the owner `did` may issue the whole batch, and if not, why.
    /// One entry that cannot be issued fails the batch.
    pub open spec fn batch_issue_check(
        self,
        sender: AccountKey,
        did: IdentityId,
        ticker: Ticker,
        dids: Seq<IdentityId>,
        values: Seq<u128>,
        compliance: Seq<Compliance>,
    ) -> Result<(), Error> {
        if !self.identity.signer_authorized(did, Signatory::AccountKey(sender)) {
            Err(Error::SenderNotSigningKey)
        } else if dids.len() == 0 {
            Err(Error::EmptyInvestorList)
        } else if dids.len() != values.len() || dids.len() != compliance.len() {
            Err(Error::InvestorListMismatch)
        } else if !self.is_owner(ticker, did) {
            Err(Error::NotAuthorized)
        } else if self.batch_entries_check(ticker, dids, values, compliance, dids.len()).is_err() {
            self.batch_entries_check(ticker, dids, values, compliance, dids.len())
        } else if self.issued_in(ticker, self.round(ticker)) + sum_values(values, values.len())
            > u128::MAX {
            Err(Error::FundingRoundOverflow)
        } else {
            Ok(())
        }
    }

    /// The ledger after one entry of a batch was credited: the receiver's
    /// balance is taken down under the latest checkpoint and grows by
    /// `value`.
    pub open spec fn batch_credit(self, ticker: Ticker, did: IdentityId, value: u128) -> State {
        let balance = self.balance(ticker, did);
        let updated = (balance + value) as u128;
        let s = self.update_checkpoint(ticker, did, balance);
        State {
            balance_of: s.balance_of.insert((ticker, did), updated),
            statistics: s.statistics.update_transfer_stats(ticker, None, Some(updated), value),
            ..s
        }
    }

    /// The ledger after the first `n` entries of a batch were credited, in
    /// order, each on top of the ones before it.
    pub open spec fn batch_credited(self, ticker: Ticker, dids: Seq<IdentityId>, values: Seq<u128>, n: nat) -> State
        decreases n,
    {
        if n == 0 {
            self
        } else {
            self.batch_credited(ticker, dids, values, (n - 1) as nat).batch_credit(
                ticker,
                dids[n - 1],
                values[n - 1],
            )
        }
    }

    /// The ledger after a batch was issued: every entry credited in order,
    /// and the total supply and what the current funding round has issued
    /// grown by the sum of the values.
    pub open spec fn batch_issued(self, ticker: Ticker, dids: Seq<IdentityId>, values: Seq<u128>) -> State {
        let round = self.round(ticker);
        let sum = sum_values(values, values.len());
        let s = self.batch_credited(ticker, dids, values, dids.len());
        State {
            tokens: s.tokens.insert(
                ticker,
                SecurityTokenView {
                    total_supply: (self.total_supply(ticker) + sum) as u128,
                    ..self.token(ticker)
                },
            ),
            issued_in_funding_round: s.issued_in_funding_round.insert(
                (ticker, round),
                (self.issued_in(ticker, round) + sum) as u128,
            ),
            ..s
        }
    }

    /// Crediting entries of a batch changes neither tokens nor funding
    /// rounds, neither the registry nor the registrations.
    pub proof fn lemma_batch_credited_frame(self, ticker: Ticker, dids: Seq<IdentityId>, values: Seq<u128>, n: nat)
        ensures
            self.batch_credited(ticker, dids, values, n).tokens == self.tokens,
            self.batch_credited(ticker, dids, values, n).issued_in_funding_round
                == self.issued_in_funding_round,
            self.batch_credited(ticker, dids, values, n).funding_round == self.funding_round,
            self.batch_credited(ticker, dids, values, n).identity == self.identity,
            self.batch_credited(ticker, dids, values, n).tickers == self.tickers,
        decreases n,
    {
        if n > 0 {
            self.lemma_batch_credited_frame(ticker, dids, values, (n - 1) as nat);
        }
    }

    /// Where the first `n` entries of a batch can be issued, each of them
    /// can, and the supply stays within its limit after all of them.
    pub proof fn lemma_batch_entries_ok(
        self,
        ticker: Ticker,
        dids: Seq<IdentityId>,
        values: Seq<u128>,
        compliance: Seq<Compliance>,
        n: nat,
    )
        requires
            self.batch_entries_check(ticker, dids, values, compliance, n).is_ok(),
        ensures
            forall|i: int|
                0 <= i < n ==> self.batch_entry_check(ticker, dids, values, compliance, i).is_ok(),
            n > 0 ==> self.total_supply(ticker) + sum_values(values, n) <= MAX_SUPPLY,
        decreases n,
    {
        if n > 0 {
            self.lemma_batch_entries_ok(ticker, dids, values, compliance, (n - 1) as nat);
        }
    }

    /// The balances within range: every entry of the first `n` leaves the
    /// balance of the identity that it names within range.
    pub open spec fn batch_in_range(self, ticker: Ticker, dids: Seq<IdentityId>, values: Seq<u128>, n: nat) -> bool {
        forall|i: int|
            0 <= i < n ==> self.batch_balance(ticker, dids, values, i as nat, #[trigger] dids[i])
                + values[i] <= u128::MAX
    }

    /// After the first `n` entries of a batch were credited every identity
    /// holds what it held and every value of those entries that names it.
    pub proof fn lemma_batch_credited_balance(
        self,
        ticker: Ticker,
        dids: Seq<IdentityId>,
        values: Seq<u128>,
        n: nat,
        did: IdentityId,
    )
        requires
            self.batch_in_range(ticker, dids, values, n),
        ensures
            self.batch_credited(ticker, dids, values, n).balance(ticker, did) == self.batch_balance(
                ticker,
                dids,
                values,
                n,
                did,
            ),
        decreases n,
    {
        if n > 0 {
            let p = (n - 1) as nat;
            assert(self.batch_in_range(ticker, dids, values, p));
            self.lemma_batch_credited_balance(ticker, dids, values, p, did);
            self.lemma_batch_credited_balance(ticker, dids, values, p, dids[n - 1]);
            assert(self.batch_balance(ticker, dids, values, p, dids[n - 1]) + values[n - 1]
                <= u128::MAX);
        }
    }

    /// Whether `value` of `ticker` can be issued to `to`, and if not, why.
    pub open spec fn mint_check(self, ticker: Ticker, to: IdentityId, value: u128, compliance: Compliance) -> Result<
        (),
        Error,
    > {
        if !self.granular(ticker, value) {
            Err(Error::InvalidGranularity)
        } else if self.balance(ticker, to) + value > u128::MAX {
            Err(Error::BalanceOverflow)
        } else if self.permitted(ticker, None, Some(to), value, compliance).is_err() {
            self.permitted(ticker, None, Some(to), value, compliance)
        } else if self.total_supply(ticker) + value > u128::MAX {
            Err(Error::TotalSupplyOverflow)
        } else if self.total_supply(ticker) + value > MAX_SUPPLY {
            Err(Error::TotalSupplyAboveLimit)
        } else if self.issued_in(ticker, self.round(ticker)) + value > u128::MAX {
            Err(Error::FundingRoundOverflow)
        } else {
            Ok(())
        }
    }

    /// The ledger after `value` of `ticker` was issued to `to`: the balance
    /// is taken down under the latest checkpoint, then the balance, the total
    /// supply and what the current funding round has issued grow by `value`.
    pub open spec fn minted(self, ticker: Ticker, to: IdentityId, value: u128) -> State {
        let balance = self.balance(ticker, to);
        let round = self.round(ticker);
        let s = self.update_checkpoint(ticker, to, balance);
        State {
            balance_of: s.balance_of.insert((ticker, to), (balance + value) as u128),
            tokens: s.tokens.insert(
                ticker,
                SecurityTokenView {
                    total_supply: (self.total_supply(ticker) + value) as u128,
                    ..self.token(ticker)
                },
            ),
            issued_in_funding_round: s.issued_in_funding_round.insert(
                (ticker, round),
                (self.issued_in(ticker, round) + value) as u128,
            ),
            ..s
        }
    }

    /// The record of the issuance of `value` of `ticker` to `to`: it quotes
    /// the current funding round and what the round has issued with this
    /// issuance.
    pub open spec fn mint_record(self, ticker: Ticker, to: IdentityId, value: u128) -> IssuedView {
        IssuedView {
            ticker: ticker,
            beneficiary: to,
            value: value,
            funding_round: self.round(ticker),
            issued_in_funding_round: (self.issued_in(ticker, self.round(ticker)) + value) as u128,
        }
    }

    /// The records of the issuance of a batch: one for each recipient, in
    /// order, each quoting the current funding round and what the round has
    /// issued with the whole batch.
    pub open spec fn batch_records(self, ticker: Ticker, dids: Seq<IdentityId>, values: Seq<u128>) -> Seq<
        IssuedView,
    > {
        Seq::new(
            dids.len(),
            |i: int|
                IssuedView {
                    ticker: ticker,
                    beneficiary: dids[i],
                    value: values[i],
                    funding_round: self.round(ticker),
                    issued_in_funding_round: (self.issued_in(ticker, self.round(ticker))
                        + sum_values(values, values.len())) as u128,
                },
        )
    }

    /// Whether the owner `did` may issue `value` of `ticker` to `to`, and if
    /// not, why.
    pub open spec fn issue_check(
        self,
        sender: AccountKey,
        did: IdentityId,
        ticker: Ticker,
        to: IdentityId,
        value: u128,
        compliance: Compliance,
    ) -> Result<(), Error> {
        if !self.identity.signer_authorized(did, Signatory::AccountKey(sender)) {
            Err(Error::SenderNotSigningKey)
        } else if !self.is_owner(ticker, did) {
            Err(Error::NotAuthorized)
        } else {
            self.mint_check(ticker, to, value, compliance)
        }
    }
}

/// A batch whose first `i` entries cannot all be issued cannot be issued as
/// a whole, and for the same reason.
pub proof fn lemma_batch_fails(
    s: State,
    ticker: Ticker,
    dids: Seq<IdentityId>,
    values: Seq<u128>,
    compliance: Seq<Compliance>,
    i: nat,
    n: nat,
)
    requires
        i <= n,
    ensures
        s.batch_entries_check(ticker, dids, values, compliance, i).is_err()
            ==> s.batch_entries_check(ticker, dids, values, compliance, n)
            == s.batch_entries_check(ticker, dids, values, compliance, i),
    decreases n - i,
{
    if i < n {
        lemma_batch_fails(s, ticker, dids, values, compliance, i, (n - 1) as nat);
    }
}

/// The sum of a prefix is at most the sum of a longer one.
pub proof fn lemma_sum_values_grows(values: Seq<u128>, i: nat, n: nat)
    requires
        i <= n,
    ensures
        sum_values(values, i) <= sum_values(values, n),
    decreases n - i,
{
    if i < n {
        lemma_sum_values_grows(values, i, (n - 1) as nat);
    }
}

impl Module {
    /// Issues `value` of `ticker` to `to_did`, with no question of who asks,
    /// and returns the record of the issuance.
    pub fn _mint(&mut self, ticker: &Ticker, to_did: IdentityId, value: u128, compliance: Compliance) -> (r:
        Result<Issued, Error>)
        requires
            old(self).wf(),
        ensures
            final(self).wf(),
            match r {
                Ok(issued) => old(self)@.mint_check(*ticker, to_did, value, compliance).is_ok()
                    && issued@ == old(self)@.mint_record(*ticker, to_did, value),
                Err(e) => old(self)@.mint_check(*ticker, to_did, value, compliance) == Err::<
                    (),
                    Error,
                >(e),
            },
            r.is_ok() ==> final(self)@ == old(self)@.minted(*ticker, to_did, value),
            r.is_err() ==> final(self)@ == old(self)@,
            old(self)@.linked() && old(self)@.tokens.contains_key(*ticker)
                ==> final(self)@.linked(),
    {
        if !self.check_granularity(ticker, value) {
            return Err(Error::InvalidGranularity);
        }
        let current_to_balance = self.balance_of(ticker, to_did);
        let updated_to_balance = match current_to_balance.checked_add(value) {
            Some(b) => b,
            None => { return Err(Error::BalanceOverflow); },
        };
        if let Err(e) = self.ensure_permitted(ticker, None, Some(to_did), value, compliance) {
            return Err(e);
        }
        let total_supply = match self.tokens.get(ticker) {
            Some(t) => t.total_supply,
            None => 0,
        };
        let updated_total_supply = match total_supply.checked_add(value) {
            Some(s) => s,
            None => { return Err(Error::TotalSupplyOverflow); },
        };
        if updated_total_supply > MAX_SUPPLY {
            return Err(Error::TotalSupplyAboveLimit);
        }
        let round = self.funding_round(ticker);
        let issued_in_this_round = match self.issued_in_funding_round(ticker, &round).checked_add(
            value,
        ) {
            Some(s) => s,
            None => { return Err(Error::FundingRoundOverflow); },
        };
        self._update_checkpoint(ticker, to_did, current_to_balance);
        let ghost mid = self@;
        self.balance_of.insert((*ticker, to_did), updated_to_balance);
        let mut token = self.take_token(ticker);
        token.total_supply = updated_total_supply;
        self.tokens.insert(*ticker, token);
        let quoted = clone_bytes(&round);
        self.issued_in_funding_round.insert((*ticker, round), issued_in_this_round);
        proof {
            assert(self@.tokens =~= mid.tokens.insert(
                *ticker,
                SecurityTokenView {
                    total_supply: updated_total_supply,
                    ..old(self)@.token(*ticker)
                },
            ));
            mid.lemma_inv_frame(self@);
            assert forall|t: Ticker| #[trigger] self@.conserved(t) by {
                old(self)@.law_mint_conserves(*ticker, to_did, value, compliance, t);
            }
        }
        Ok(
            Issued {
                ticker: *ticker,
                beneficiary: to_did,
                value,
                funding_round: quoted,
                issued_in_funding_round: issued_in_this_round,
            },
        )
    }

    /// Issues `tokens_purchased` of `ticker` to the buyer `sender_did` of an
    /// offering.
    pub fn _mint_from_sto(
        &mut self,
        ticker: &Ticker,
        sender_did: IdentityId,
        tokens_purchased: u128,
        compliance: Compliance,
    ) -> (r: Result<Issued, Error>)
        requires
            old(self).wf(),
        ensures
            final(self).wf(),
            match r {
                Ok(issued) => old(self)@.mint_check(
                    *ticker,
                    sender_did,
                    tokens_purchased,
                    compliance,
                ).is_ok() && issued@ == old(self)@.mint_record(*ticker, sender_did, tokens_purchased),
                Err(e) => old(self)@.mint_check(*ticker, sender_did, tokens_purchased, compliance)
                    == Err::<(), Error>(e),
            },
            r.is_ok() ==> final(self)@ == old(self)@.minted(*ticker, sender_did, tokens_purchased),
            r.is_err() ==> final(self)@ == old(self)@,
            old(self)@.linked() && old(self)@.tokens.contains_key(*ticker)
                ==> final(self)@.linked(),
    {
        self._mint(ticker, sender_did, tokens_purchased, compliance)
    }

    /// Issues `values[i]` of `ticker` to `investor_dids[i]` for every `i`,
    /// given for each what the collaborators answered about it, and returns
    /// one record of issuance for each recipient. Only the owner `did` of the
    /// token can. The whole batch is checked before anything is written:
    /// either every entry is issued, or none.
    #[verifier::loop_isolation(false)]
    pub fn batch_issue(
        &mut self,
        sender: AccountKey,
        did: IdentityId,
        ticker: Ticker,
        investor_dids: &Vec<IdentityId>,
        values: &Vec<u128>,
        compliance: &Vec<Compliance>,
    ) -> (r: Result<Vec<Issued>, Error>)
        requires
            old(self).wf(),
        ensures
            final(self).wf(),
            match r {
                Ok(issued) => old(self)@.batch_issue_check(
                    sender,
                    did,
                    ticker.canonical(),
                    investor_dids@,
                    values@,
                    compliance@,
                ).is_ok() && issued_view(issued@) == old(self)@.batch_records(
                    ticker.canonical(),
                    investor_dids@,
                    values@,
                ),
                Err(e) => old(self)@.batch_issue_check(
                    sender,
                    did,
                    ticker.canonical(),
                    investor_dids@,
                    values@,
                    compliance@,
                ) == Err::<(), Error>(e),
            },
            r.is_ok() ==> final(self)@ == old(self)@.batch_issued(
                ticker.canonical(),
                investor_dids@,
                values@,
            ),
            r.is_err() ==> final(self)@ == old(self)@,
            old(self)@.linked() && old(self)@.tokens.contains_key(ticker.canonical())
                ==> final(self)@.linked(),
    {
        if !self.identity.is_signer_authorized(did, &Signatory::AccountKey(sender)) {
            return Err(Error::SenderNotSigningKey);
        }
        if investor_dids.len() == 0 {
            return Err(Error::EmptyInvestorList);
        }
        if investor_dids.len() != values.len() || investor_dids.len() != compliance.len() {
            return Err(Error::InvestorListMismatch);
        }
        let mut ticker = ticker;
        ticker.canonize();
        if !self.is_owner(&ticker, did) {
            return Err(Error::NotAuthorized);
        }
        let n = investor_dids.len();
        let mut updated_balances: Vec<u128> = Vec::new();
        let mut current_balances: Vec<u128> = Vec::new();
        let initial_supply = match self.tokens.get(&ticker) {
            Some(t) => t.total_supply,
            None => 0,
        };
        let mut total_supply = initial_supply;
        let mut i: usize = 0;
        while i < n
            invariant
                i <= n,
                n == investor_dids@.len(),
                n == values@.len(),
                n == compliance@.len(),
                self.wf(),
                self@ == old(self)@,
                initial_supply == self@.total_supply(ticker),
                total_supply == initial_supply + sum_values(values@, i as nat),
                self@.batch_entries_check(ticker, investor_dids@, values@, compliance@, i as nat).is_ok(),
                current_balances@.len() == i,
                updated_balances@.len() == i,
                forall|j: int|
                    0 <= j < i ==> #[trigger] current_balances@[j] == self@.batch_balance(
                        ticker,
                        investor_dids@,
                        values@,
                        j as nat,
                        investor_dids@[j],
                    ),
                forall|j: int|
                    0 <= j < i ==> #[trigger] updated_balances@[j] == current_balances@[j]
                        + values@[j],
            decreases n - i,
        {
            proof {
                assert(self@.batch_entries_check(
                    ticker,
                    investor_dids@,
                    values@,
                    compliance@,
                    (i + 1) as nat,
                ) == self@.batch_entry_check(ticker, investor_dids@, values@, compliance@, i as int));
                lemma_batch_fails(
                    self@,
                    ticker,
                    investor_dids@,
                    values@,
                    compliance@,
                    (i + 1) as nat,
                    n as nat,
                );
            }
            if !self.check_granularity(&ticker, values[i]) {
                return Err(Error::InvalidGranularity);
            }
            let updated_total_supply = match total_supply.checked_add(values[i]) {
                Some(s) => s,
                None => { return Err(Error::TotalSupplyOverflow); },
            };
            if updated_total_supply > MAX_SUPPLY {
                return Err(Error::TotalSupplyAboveLimit);
            }
            let mut current = self.balance_of(&ticker, investor_dids[i]);
            let mut j: usize = 0;
            while j < i
                invariant
                    j <= i,
                    current == self@.batch_balance(
                        ticker,
                        investor_dids@,
                        values@,
                        j as nat,
                        investor_dids@[i as int],
                    ),
                decreases i - j,
            {
                if crate::table::Key::same(&investor_dids[j], &investor_dids[i]) {
                    assert(updated_balances@[j as int] == current_balances@[j as int] + values@[j as int]);
                    current = updated_balances[j];
                }
                j += 1;
            }
            let updated = match current.checked_add(values[i]) {
                Some(b) => b,
                None => { return Err(Error::BalanceOverflow); },
            };
            if let Err(e) = self.ensure_permitted(
                &ticker,
                None,
                Some(investor_dids[i]),
                values[i],
                compliance[i],
            ) {
                return Err(e);
            }
            current_balances.push(current);
            updated_balances.push(updated);
            total_supply = updated_total_supply;
            i += 1;
        }
        let round = self.funding_round(&ticker);
        let issued_before = self.issued_in_funding_round(&ticker, &round);
        let mut issued_in_this_round = issued_before;
        let mut k: usize = 0;
        while k < n
            invariant
                k <= n,
                n == values@.len(),
                issued_in_this_round == issued_before + sum_values(values@, k as nat),
                sum_values(values@, k as nat) <= sum_values(values@, n as nat),
            decreases n - k,
        {
            proof {
                lemma_sum_values_grows(values@, (k + 1) as nat, n as nat);
            }
            issued_in_this_round = match issued_in_this_round.checked_add(values[k]) {
                Some(s) => s,
                None => { return Err(Error::FundingRoundOverflow); },
            };
            k += 1;
        }
        proof {
            assert(old(self)@.batch_in_range(ticker, investor_dids@, values@, n as nat)) by {
                assert forall|j: int| 0 <= j < n implies old(self)@.batch_balance(
                    ticker,
                    investor_dids@,
                    values@,
                    j as nat,
                    #[trigger] investor_dids@[j],
                ) + values@[j] <= u128::MAX by {
                    assert(updated_balances@[j] == current_balances@[j] + values@[j]);
                }
            }
        }
        let mut issued: Vec<Issued> = Vec::new();
        let mut m: usize = 0;
        while m < n
            invariant
                m <= n,
                n == investor_dids@.len(),
                n == values@.len(),
                current_balances@.len() == n,
                updated_balances@.len() == n,
                issued@.len() == m,
                forall|j: int|
                    0 <= j < m ==> (#[trigger] issued@[j])@ == old(self)@.batch_records(
                        ticker,
                        investor_dids@,
                        values@,
                    )[j],
                self.consistent(),
                self@ == old(self)@.batch_credited(ticker, investor_dids@, values@, m as nat),
                forall|j: int|
                    0 <= j < n ==> #[trigger] current_balances@[j] == old(self)@.batch_balance(
                        ticker,
                        investor_dids@,
                        values@,
                        j as nat,
                        investor_dids@[j],
                    ),
                forall|j: int|
                    0 <= j < n ==> #[trigger] updated_balances@[j] == current_balances@[j]
                        + values@[j],
            decreases n - m,
        {
            proof {
                assert(old(self)@.batch_in_range(ticker, investor_dids@, values@, m as nat));
                old(self)@.lemma_batch_credited_balance(
                    ticker,
                    investor_dids@,
                    values@,
                    m as nat,
                    investor_dids@[m as int],
                );
                assert(current_balances@[m as int] == self@.balance(ticker, investor_dids@[m as int]));
                assert(updated_balances@[m as int] == current_balances@[m as int] + values@[m as int]);
            }
            self._update_checkpoint(&ticker, investor_dids[m], current_balances[m]);
            let ghost mid = self@;
            self.balance_of.insert((ticker, investor_dids[m]), updated_balances[m]);
            self.statistics.update_transfer_stats(
                &ticker,
                None,
                Some(updated_balances[m]),
                values[m],
            );
            proof {
                mid.lemma_inv_frame(self@);
            }
            issued.push(
                Issued {
                    ticker,
                    beneficiary: investor_dids[m],
                    value: values[m],
                    funding_round: clone_bytes(&round),
                    issued_in_funding_round: issued_in_this_round,
                },
            );
            m += 1;
        }
        let ghost credited = self@;
        proof {
            old(self)@.lemma_batch_credited_frame(ticker, investor_dids@, values@, n as nat);
        }
        let mut token = self.take_token(&ticker);
        token.total_supply = total_supply;
        self.tokens.insert(ticker, token);
        self.issued_in_funding_round.insert((ticker, round), issued_in_this_round);
        proof {
            assert(self@.tokens =~= credited.tokens.insert(
                ticker,
                SecurityTokenView { total_supply: total_supply, ..old(self)@.token(ticker) },
            ));
            credited.lemma_inv_frame(self@);
            assert forall|t: Ticker| #[trigger] self@.conserved(t) by {
                old(self)@.law_batch_conserves(
                    sender,
                    did,
                    ticker,
                    investor_dids@,
                    values@,
                    compliance@,
                    t,
                );
            }
            assert(issued_view(issued@) =~= old(self)@.batch_records(
                ticker,
                investor_dids@,
                values@,
            ));
            if old(self)@.linked() && old(self)@.tokens.contains_key(ticker) {
                assert(old(self)@.same_ownership(self@));
                old(self)@.law_linked_frame(self@);
            }
        }
        Ok(issued)
    }

    /// Issues `value` of `ticker` to `to_did` and returns the record of the
    /// issuance. Only the owner `did` of the token can.
    pub fn issue(
        &mut self,
        sender: AccountKey,
        did: IdentityId,
        ticker: Ticker,
        to_did: IdentityId,
        value: u128,
        compliance: Compliance,
    ) -> (r: Result<Issued, Error>)
        requires
            old(self).wf(),
        ensures
            final(self).wf(),
            match r {
                Ok(issued) => old(self)@.issue_check(
                    sender,
                    did,
                    ticker.canonical(),
                    to_did,
                    value,
                    compliance,
                ).is_ok() && issued@ == old(self)@.mint_record(ticker.canonical(), to_did, value),
                Err(e) => old(self)@.issue_check(
                    sender,
                    did,
                    ticker.canonical(),
                    to_did,
                    value,
                    compliance,
                ) == Err::<(), Error>(e),
            },
            r.is_ok() ==> final(self)@ == old(self)@.minted(ticker.canonical(), to_did, value),
            r.is_err() ==> final(self)@ == old(self)@,
            old(self)@.linked() && old(self)@.tokens.contains_key(ticker.canonical())
                ==> final(self)@.linked(),
    {
        if !self.identity.is_signer_authorized(did, &Signatory::AccountKey(sender)) {
            return Err(Error::SenderNotSigningKey);
        }
        let mut ticker = ticker;
        ticker.canonize();
        if !self.is_owner(&ticker, did) {
            return Err(Error::NotAuthorized);
        }
        self._mint(&ticker, to_did, value, compliance)
    }
}

} // verus!
