//! The ledger as a mathematical value, and what can be read from it.

use crate::asset::types::{
    IdentifierTypeView, SecurityTokenView, SmartExtensionTypeView, SmartExtensionView,
    TickerRegistration, TickerRegistrationConfig, ONE_UNIT,
};
use crate::identity;
use crate::percentage_tm;
use crate::primitives::{AccountKey, IdentityId};
use crate::statistics;
use crate::ticker::Ticker;
use vstd::prelude::*;

verus! {

/// Every element of `s` is smaller than the ones after it.
pub open spec fn increasing(s: Seq<u64>) -> bool {
    forall|i: int, j: int| 0 <= i < j < s.len() ==> s[i] < s[j]
}

/// The first element of `s` that is at least `at`; `0` where there is none.
/// In an increasing list it is the smallest such element.
pub open spec fn ceiling(s: Seq<u64>, at: u64) -> u64
    decreases s.len(),
{
    if s.len() == 0 {
        0
    } else if s[0] >= at {
        s[0]
    } else {
        ceiling(s.drop_first(), at)
    }
}

/// The last element of `s`; `0` where it is empty.
pub open spec fn last_or_zero(s: Seq<u64>) -> u64 {
    if s.len() == 0 {
        0
    } else {
        s.last()
    }
}

/// The ledger as a mathematical value: one map for each kind of record.
pub struct State {
    pub identity: identity::State,
    pub percentage: percentage_tm::State,
    pub statistics: statistics::State,
    pub ticker_config: TickerRegistrationConfig,
    pub tickers: Map<Ticker, TickerRegistration>,
    pub tokens: Map<Ticker, SecurityTokenView>,
    pub balance_of: Map<(Ticker, IdentityId), u128>,
    pub identifiers: Map<(Ticker, IdentifierTypeView), Seq<u8>>,
    pub allowance: Map<(Ticker, IdentityId, IdentityId), u128>,
    pub total_checkpoints: Map<Ticker, u64>,
    pub checkpoint_total_supply: Map<(Ticker, u64), u128>,
    pub checkpoint_balance: Map<(Ticker, IdentityId, u64), u128>,
    pub user_checkpoints: Map<(Ticker, IdentityId), Seq<u64>>,
    pub custodian_allowance: Map<(Ticker, IdentityId, IdentityId), u128>,
    pub total_custody_allowance: Map<(Ticker, IdentityId), u128>,
    pub authentication_nonce: Map<(Ticker, IdentityId, u16), bool>,
    pub funding_round: Map<Ticker, Seq<u8>>,
    pub issued_in_funding_round: Map<(Ticker, Seq<u8>), u128>,
    pub extension_details: Map<(Ticker, AccountKey), SmartExtensionView>,
    pub extensions: Map<(Ticker, SmartExtensionTypeView), Seq<AccountKey>>,
    pub frozen: Map<Ticker, bool>,
}

impl State {
    /// The ledger at genesis: the registry at genesis, the given rules of
    /// ticker registration, and no other record.
    pub open spec fn genesis(ticker_config: TickerRegistrationConfig) -> State {
        State {
            identity: identity::State::genesis(),
            percentage: percentage_tm::State { maximum_percentage_enabled_for_token: Map::empty() },
            statistics: statistics::State { investor_count_per_asset: Map::empty() },
            ticker_config: ticker_config,
            tickers: Map::empty(),
            tokens: Map::empty(),
            balance_of: Map::empty(),
            identifiers: Map::empty(),
            allowance: Map::empty(),
            total_checkpoints: Map::empty(),
            checkpoint_total_supply: Map::empty(),
            checkpoint_balance: Map::empty(),
            user_checkpoints: Map::empty(),
            custodian_allowance: Map::empty(),
            total_custody_allowance: Map::empty(),
            authentication_nonce: Map::empty(),
            funding_round: Map::empty(),
            issued_in_funding_round: Map::empty(),
            extension_details: Map::empty(),
            extensions: Map::empty(),
            frozen: Map::empty(),
        }
    }

    /// The registration of `ticker`, or the default record.
    pub open spec fn registration(self, ticker: Ticker) -> TickerRegistration {
        if self.tickers.contains_key(ticker) {
            self.tickers[ticker]
        } else {
            TickerRegistration::absent()
        }
    }

    /// The details of the token `ticker`, or the default details.
    pub open spec fn token(self, ticker: Ticker) -> SecurityTokenView {
        if self.tokens.contains_key(ticker) {
            self.tokens[ticker]
        } else {
            SecurityTokenView::absent()
        }
    }

    /// Whether `did` owns the token `ticker`.
    pub open spec fn is_owner(self, ticker: Ticker, did: IdentityId) -> bool {
        self.token(ticker).owner_did == did
    }

    /// The total supply of `ticker`.
    pub open spec fn total_supply(self, ticker: Ticker) -> u128 {
        self.token(ticker).total_supply
    }

    /// What `did` holds of `ticker`; nothing where no balance is recorded.
    pub open spec fn balance(self, ticker: Ticker, did: IdentityId) -> u128 {
        if self.balance_of.contains_key((ticker, did)) {
            self.balance_of[(ticker, did)]
        } else {
            0
        }
    }

    /// What `spender` may still move out of the balance of `owner`.
    pub open spec fn allowed(self, ticker: Ticker, owner: IdentityId, spender: IdentityId) -> u128 {
        if self.allowance.contains_key((ticker, owner, spender)) {
            self.allowance[(ticker, owner, spender)]
        } else {
            0
        }
    }

    /// The number of checkpoints of `ticker`.
    pub open spec fn checkpoints(self, ticker: Ticker) -> u64 {
        if self.total_checkpoints.contains_key(ticker) {
            self.total_checkpoints[ticker]
        } else {
            0
        }
    }

    /// The total supply recorded at checkpoint `id` of `ticker`.
    pub open spec fn supply_at(self, ticker: Ticker, id: u64) -> u128 {
        if self.checkpoint_total_supply.contains_key((ticker, id)) {
            self.checkpoint_total_supply[(ticker, id)]
        } else {
            0
        }
    }

    /// The balance recorded for `did` under checkpoint `id` of `ticker`.
    pub open spec fn recorded_balance(self, ticker: Ticker, did: IdentityId, id: u64) -> u128 {
        if self.checkpoint_balance.contains_key((ticker, did, id)) {
            self.checkpoint_balance[(ticker, did, id)]
        } else {
            0
        }
    }

    /// The checkpoints under which a balance of `did` is recorded, in order.
    pub open spec fn recorded_checkpoints(self, ticker: Ticker, did: IdentityId) -> Seq<u64> {
        if self.user_checkpoints.contains_key((ticker, did)) {
            self.user_checkpoints[(ticker, did)]
        } else {
            Seq::empty()
        }
    }

    /// What `did` held of `ticker` when checkpoint `at` was made. For `at`
    /// outside the checkpoints made so far, and for every checkpoint since the
    /// last one under which a balance of `did` was recorded, it is the
    /// current balance; else it is the balance recorded under the first such
    /// checkpoint from `at` on.
    pub open spec fn balance_at(self, ticker: Ticker, did: IdentityId, at: u64) -> u128 {
        let recorded = self.recorded_checkpoints(ticker, did);
        if at == 0 || at > self.checkpoints(ticker) || at > last_or_zero(recorded) {
            self.balance(ticker, did)
        } else {
            self.recorded_balance(ticker, did, ceiling(recorded, at))
        }
    }

    /// What the custodian `custodian` may still move out of the balance of
    /// `holder`.
    pub open spec fn custody_allowance(
        self,
        ticker: Ticker,
        holder: IdentityId,
        custodian: IdentityId,
    ) -> u128 {
        if self.custodian_allowance.contains_key((ticker, holder, custodian)) {
            self.custodian_allowance[(ticker, holder, custodian)]
        } else {
            0
        }
    }

    /// What all custodians together may still move out of the balance of
    /// `holder`.
    pub open spec fn total_custody(self, ticker: Ticker, holder: IdentityId) -> u128 {
        if self.total_custody_allowance.contains_key((ticker, holder)) {
            self.total_custody_allowance[(ticker, holder)]
        } else {
            0
        }
    }

    /// Whether `nonce` was used to raise a custody allowance of `holder`.
    pub open spec fn nonce_used(self, ticker: Ticker, holder: IdentityId, nonce: u16) -> bool {
        self.authentication_nonce.contains_key((ticker, holder, nonce))
            && self.authentication_nonce[(ticker, holder, nonce)]
    }

    /// The name of the current funding round of `ticker`.
    pub open spec fn round(self, ticker: Ticker) -> Seq<u8> {
        if self.funding_round.contains_key(ticker) {
            self.funding_round[ticker]
        } else {
            Seq::empty()
        }
    }

    /// What was issued of `ticker` in the funding round `round`.
    pub open spec fn issued_in(self, ticker: Ticker, round: Seq<u8>) -> u128 {
        if self.issued_in_funding_round.contains_key((ticker, round)) {
            self.issued_in_funding_round[(ticker, round)]
        } else {
            0
        }
    }

    /// The value of the identifier `typ` of `ticker`.
    pub open spec fn identifier(self, ticker: Ticker, typ: IdentifierTypeView) -> Seq<u8> {
        if self.identifiers.contains_key((ticker, typ)) {
            self.identifiers[(ticker, typ)]
        } else {
            Seq::empty()
        }
    }

    /// Whether transfers and issuance of `ticker` are frozen.
    pub open spec fn is_frozen(self, ticker: Ticker) -> bool {
        self.frozen.contains_key(ticker) && self.frozen[ticker]
    }

    /// Whether `value` can be moved of `ticker`: any value of a divisible
    /// token, whole units of an indivisible one.
    pub open spec fn granular(self, ticker: Ticker, value: u128) -> bool {
        self.token(ticker).divisible || value % ONE_UNIT == 0
    }

    /// The checkpoints are in order: every list of recorded checkpoints is
    /// increasing and names the checkpoints, all of them made, under which a
    /// balance is recorded.
    pub open spec fn inv(self) -> bool {
        &&& forall|ticker: Ticker| #[trigger]
            self.total_checkpoints.contains_key(ticker) ==> self.total_checkpoints[ticker] >= 1
        &&& forall|ticker: Ticker, did: IdentityId, id: u64| #[trigger]
            self.checkpoint_balance.contains_key((ticker, did, id))
                ==> self.recorded_checkpoints(ticker, did).contains(id)
        &&& forall|ticker: Ticker, did: IdentityId| #[trigger]
            self.user_checkpoints.contains_key((ticker, did)) ==> self.recorded_in_order(
                ticker,
                did,
            )
    }

    /// Every token is conserved: what its holders hold adds up to its total
    /// supply.
    pub open spec fn supplied(self) -> bool {
        forall|ticker: Ticker| #[trigger] self.conserved(ticker)
    }

    /// `other` has the balances of this ledger and the supply of every
    /// token.
    pub open spec fn same_supplies(self, other: State) -> bool {
        &&& other.balance_of == self.balance_of
        &&& forall|ticker: Ticker| #[trigger]
            other.total_supply(ticker) == self.total_supply(ticker)
    }

    /// A ledger with the balances and supplies of one that conserves every
    /// token conserves every token.
    pub proof fn lemma_supply_frame(self, other: State)
        requires
            self.supplied(),
            self.same_supplies(other),
        ensures
            other.supplied(),
    {
        assert forall|ticker: Ticker| #[trigger] other.conserved(ticker) by {
            assert(self.conserved(ticker));
            assert(other.total_supply(ticker) == self.total_supply(ticker));
        }
    }

    /// A ledger with the same checkpoints as one in order is in order; with
    /// the same balances and supplies as one that conserves every token it
    /// conserves every token; and with the same links, registrations and
    /// owners as one in which each record names its link, each record names
    /// its link.
    pub proof fn lemma_inv_frame(self, other: State)
        requires
            self.inv(),
            other.total_checkpoints == self.total_checkpoints,
            other.user_checkpoints == self.user_checkpoints,
            other.checkpoint_balance == self.checkpoint_balance,
        ensures
            other.inv(),
            self.supplied() && self.same_supplies(other) ==> other.supplied(),
            self.linked() && self.same_ownership(other) ==> other.linked(),
    {
        if self.supplied() && self.same_supplies(other) {
            self.lemma_supply_frame(other);
        }
        if self.linked() && self.same_ownership(other) {
            self.law_linked_frame(other);
        }
        assert forall|ticker: Ticker, did: IdentityId| #[trigger]
            other.user_checkpoints.contains_key((ticker, did)) implies other.recorded_in_order(
            ticker,
            did,
        ) by {
            assert(self.recorded_in_order(ticker, did));
            assert(other.recorded_checkpoints(ticker, did) == self.recorded_checkpoints(ticker, did));
            assert(other.checkpoints(ticker) == self.checkpoints(ticker));
        }
        assert forall|ticker: Ticker, did: IdentityId, id: u64| #[trigger]
            other.checkpoint_balance.contains_key(
                (ticker, did, id),
            ) implies other.recorded_checkpoints(ticker, did).contains(id) by {
            assert(other.recorded_checkpoints(ticker, did) == self.recorded_checkpoints(ticker, did));
        }
    }

    /// The checkpoints recorded for `did` are in order.
    pub open spec fn recorded_in_order(self, ticker: Ticker, did: IdentityId) -> bool {
        let recorded = self.recorded_checkpoints(ticker, did);
        &&& increasing(recorded)
        &&& forall|i: int|
            0 <= i < recorded.len() ==> {
                &&& 1 <= #[trigger] recorded[i] <= self.checkpoints(ticker)
                &&& self.checkpoint_balance.contains_key((ticker, did, recorded[i]))
            }
    }
}

} // verus!
