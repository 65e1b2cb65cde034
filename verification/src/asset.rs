//! The token ledger: tickers, tokens, balances, checkpoints and custody.
//!
//! `Module` holds the ledger; `State` is the ledger as a mathematical value.
//! Every operation says which `State` it leaves behind, and why it turned a
//! call down where it did. A call that is turned down changes nothing.

pub mod checkpoint;
pub mod conservation;
pub mod cover;
pub mod custody;
pub mod documents;
pub mod extension;
pub mod granularity;
pub mod handshake;
pub mod history;
pub mod issue;
pub mod redeem;
pub mod registry;
pub mod state;
pub mod token;
pub mod transfer;
pub mod types;

use crate::asset::state::State;
use crate::asset::types::{
    IdentifierType, SecurityToken, SmartExtension, SmartExtensionType, TickerRegistration,
    TickerRegistrationConfig,
};
use crate::identity;
use crate::percentage_tm;
use crate::primitives::{clone_bytes, AccountKey, IdentityId};
use crate::statistics;
use crate::table::Table;
use crate::ticker::Ticker;
use vstd::prelude::*;

verus! {

/// The token ledger, with the identity registry, the caps on ownership and
/// the statistics that it works with.
#[derive(Clone, Debug, PartialEq)]
pub struct Module {
    pub identity: identity::Module,
    pub percentage: percentage_tm::Module,
    pub statistics: statistics::Module,
    pub(crate) ticker_config: TickerRegistrationConfig,
    pub(crate) tickers: Table<Ticker, TickerRegistration>,
    pub(crate) tokens: Table<Ticker, SecurityToken>,
    pub(crate) balance_of: Table<(Ticker, IdentityId), u128>,
    pub(crate) identifiers: Table<(Ticker, IdentifierType), Vec<u8>>,
    pub(crate) allowance: Table<(Ticker, IdentityId, IdentityId), u128>,
    pub(crate) total_checkpoints: Table<Ticker, u64>,
    pub(crate) checkpoint_total_supply: Table<(Ticker, u64), u128>,
    pub(crate) checkpoint_balance: Table<(Ticker, IdentityId, u64), u128>,
    pub(crate) user_checkpoints: Table<(Ticker, IdentityId), Vec<u64>>,
    pub(crate) custodian_allowance: Table<(Ticker, IdentityId, IdentityId), u128>,
    pub(crate) total_custody_allowance: Table<(Ticker, IdentityId), u128>,
    pub(crate) authentication_nonce: Table<(Ticker, IdentityId, u16), bool>,
    pub(crate) funding_round: Table<Ticker, Vec<u8>>,
    pub(crate) issued_in_funding_round: Table<(Ticker, Vec<u8>), u128>,
    pub(crate) extension_details: Table<(Ticker, AccountKey), SmartExtension>,
    pub(crate) extensions: Table<(Ticker, SmartExtensionType), Vec<AccountKey>>,
    pub(crate) frozen: Table<Ticker, bool>,
}

impl View for Module {
    type V = State;

    open(crate) spec fn view(&self) -> State {
        State {
            identity: self.identity@,
            percentage: self.percentage@,
            statistics: self.statistics@,
            ticker_config: self.ticker_config,
            tickers: self.tickers@,
            tokens: self.tokens@,
            balance_of: self.balance_of@,
            identifiers: self.identifiers@,
            allowance: self.allowance@,
            total_checkpoints: self.total_checkpoints@,
            checkpoint_total_supply: self.checkpoint_total_supply@,
            checkpoint_balance: self.checkpoint_balance@,
            user_checkpoints: self.user_checkpoints@,
            custodian_allowance: self.custodian_allowance@,
            total_custody_allowance: self.total_custody_allowance@,
            authentication_nonce: self.authentication_nonce@,
            funding_round: self.funding_round@,
            issued_in_funding_round: self.issued_in_funding_round@,
            extension_details: self.extension_details@,
            extensions: self.extensions@,
            frozen: self.frozen@,
        }
    }
}

impl Module {
    /// Every table of the ledger is in order.
    pub open(crate) spec fn tables_wf(&self) -> bool {
        &&& self.identity.wf()
        &&& self.percentage.wf()
        &&& self.statistics.wf()
        &&& self.tickers.wf()
        &&& self.tokens.wf()
        &&& self.balance_of.wf()
        &&& self.identifiers.wf()
        &&& self.allowance.wf()
        &&& self.total_checkpoints.wf()
        &&& self.checkpoint_total_supply.wf()
        &&& self.checkpoint_balance.wf()
        &&& self.user_checkpoints.wf()
        &&& self.custodian_allowance.wf()
        &&& self.total_custody_allowance.wf()
        &&& self.authentication_nonce.wf()
        &&& self.funding_round.wf()
        &&& self.issued_in_funding_round.wf()
        &&& self.extension_details.wf()
        &&& self.extensions.wf()
        &&& self.frozen.wf()
    }

    /// The ledger's tables and checkpoints are in order.
    pub open(crate) spec fn consistent(&self) -> bool {
        self.tables_wf() && self@.inv()
    }

    /// The ledger is in order: its tables are, its checkpoints are, and
    /// every token is conserved.
    pub open(crate) spec fn wf(&self) -> bool {
        self.consistent() && self@.supplied()
    }

    /// In a ledger in order what the holders of a token hold adds up to its
    /// total supply: this holds of the ledger at genesis and of every ledger
    /// that a sequence of operations leaves behind.
    pub proof fn law_supply_is_held(&self, ticker: Ticker)
        requires
            self.wf(),
        ensures
            self@.conserved(ticker),
            crate::asset::conservation::held(self@.balance_of, ticker) == self@.total_supply(ticker),
    {
        assert(self@.conserved(ticker));
    }

    /// A ledger in order has its checkpoints in order: what the laws of
    /// history ask of a ledger holds of every ledger that the operations
    /// leave behind.
    pub proof fn law_checkpoints_in_order(&self)
        requires
            self.wf(),
        ensures
            self@.inv(),
    {
    }

    /// The ledger at genesis: the registry at genesis, the given rules of
    /// ticker registration, and no other record.
    pub fn new(ticker_config: TickerRegistrationConfig) -> (r: Module)
        ensures
            r.wf(),
            r@ == State::genesis(ticker_config),
            r@.linked(),
    {
        let r = Module {
            identity: identity::Module::new(),
            percentage: percentage_tm::Module::new(),
            statistics: statistics::Module::new(),
            ticker_config,
            tickers: Table::new(),
            tokens: Table::new(),
            balance_of: Table::new(),
            identifiers: Table::new(),
            allowance: Table::new(),
            total_checkpoints: Table::new(),
            checkpoint_total_supply: Table::new(),
            checkpoint_balance: Table::new(),
            user_checkpoints: Table::new(),
            custodian_allowance: Table::new(),
            total_custody_allowance: Table::new(),
            authentication_nonce: Table::new(),
            funding_round: Table::new(),
            issued_in_funding_round: Table::new(),
            extension_details: Table::new(),
            extensions: Table::new(),
            frozen: Table::new(),
        };
        proof {
            assert(r@ == State::genesis(ticker_config));
            assert forall|t: Ticker| #[trigger] r@.conserved(t) by {
                State::law_genesis_conserves(ticker_config, t);
            }
            State::law_genesis_linked(ticker_config);
        }
        r
    }

    /// The rules of ticker registration.
    pub fn ticker_registration_config(&self) -> (r: TickerRegistrationConfig)
        ensures
            r == self@.ticker_config,
    {
        self.ticker_config
    }

    /// Whether `ticker` is registered.
    pub fn ticker_exists(&self, ticker: &Ticker) -> (r: bool)
        requires
            self.wf(),
        ensures
            r == self@.tickers.contains_key(*ticker),
    {
        self.tickers.contains_key(ticker)
    }

    /// The registration of `ticker`; the default record where it has none.
    pub fn ticker_registration(&self, ticker: &Ticker) -> (r: TickerRegistration)
        requires
            self.wf(),
        ensures
            r == self@.registration(*ticker),
    {
        match self.tickers.get(ticker) {
            Some(t) => *t,
            None => TickerRegistration::default(),
        }
    }

    /// Whether a token was created under `ticker`.
    pub fn token_exists(&self, ticker: &Ticker) -> (r: bool)
        requires
            self.wf(),
        ensures
            r == self@.tokens.contains_key(*ticker),
    {
        self.tokens.contains_key(ticker)
    }

    /// The details of the token `ticker`; the default details where there is
    /// no such token.
    pub fn token_details(&self, ticker: &Ticker) -> (r: SecurityToken)
        requires
            self.wf(),
        ensures
            r@ == self@.token(*ticker),
    {
        match self.tokens.get(ticker) {
            Some(t) => SecurityToken {
                name: clone_bytes(&t.name),
                total_supply: t.total_supply,
                owner_did: t.owner_did,
                divisible: t.divisible,
                asset_type: clone_asset_type(&t.asset_type),
                link_id: t.link_id,
            },
            None => SecurityToken::default(),
        }
    }

    /// What `did` holds of `ticker`.
    pub fn balance_of(&self, ticker: &Ticker, did: IdentityId) -> (r: u128)
        requires
            self.wf(),
        ensures
            r == self@.balance(*ticker, did),
    {
        match self.balance_of.get(&(*ticker, did)) {
            Some(b) => *b,
            None => 0,
        }
    }

    /// What `spender` may still move out of the balance of `owner`.
    pub fn allowance(&self, ticker: &Ticker, owner: IdentityId, spender: IdentityId) -> (r: u128)
        requires
            self.wf(),
        ensures
            r == self@.allowed(*ticker, owner, spender),
    {
        match self.allowance.get(&(*ticker, owner, spender)) {
            Some(b) => *b,
            None => 0,
        }
    }

    /// The number of checkpoints of `ticker`.
    pub fn total_checkpoints_of(&self, ticker: &Ticker) -> (r: u64)
        requires
            self.wf(),
        ensures
            r == self@.checkpoints(*ticker),
    {
        match self.total_checkpoints.get(ticker) {
            Some(c) => *c,
            None => 0,
        }
    }

    /// The total supply of `ticker` at checkpoint `id`.
    pub fn total_supply_at(&self, ticker: &Ticker, id: u64) -> (r: u128)
        requires
            self.wf(),
        ensures
            r == self@.supply_at(*ticker, id),
    {
        match self.checkpoint_total_supply.get(&(*ticker, id)) {
            Some(c) => *c,
            None => 0,
        }
    }

    /// The balance recorded for `did` under checkpoint `id` of `ticker`.
    pub fn balance_at_checkpoint(&self, ticker: &Ticker, did: IdentityId, id: u64) -> (r: u128)
        requires
            self.wf(),
        ensures
            r == self@.recorded_balance(*ticker, did, id),
    {
        match self.checkpoint_balance.get(&(*ticker, did, id)) {
            Some(c) => *c,
            None => 0,
        }
    }

    /// The checkpoints under which a balance of `did` is recorded.
    pub fn user_checkpoints(&self, ticker: &Ticker, did: IdentityId) -> (r: Vec<u64>)
        requires
            self.wf(),
        ensures
            r@ == self@.recorded_checkpoints(*ticker, did),
    {
        match self.user_checkpoints.get(&(*ticker, did)) {
            Some(c) => clone_ids(c),
            None => Vec::new(),
        }
    }

    /// What the custodian `custodian` may still move out of the balance of
    /// `holder`.
    pub fn custodian_allowance(&self, ticker: &Ticker, holder: IdentityId, custodian: IdentityId) -> (r:
        u128)
        requires
            self.wf(),
        ensures
            r == self@.custody_allowance(*ticker, holder, custodian),
    {
        match self.custodian_allowance.get(&(*ticker, holder, custodian)) {
            Some(b) => *b,
            None => 0,
        }
    }

    /// What all custodians together may still move out of the balance of
    /// `holder`.
    pub fn total_custody_allowance(&self, ticker: &Ticker, holder: IdentityId) -> (r: u128)
        requires
            self.wf(),
        ensures
            r == self@.total_custody(*ticker, holder),
    {
        match self.total_custody_allowance.get(&(*ticker, holder)) {
            Some(b) => *b,
            None => 0,
        }
    }

    /// Whether `nonce` was used to raise a custody allowance of `holder`.
    pub fn authentication_nonce(&self, ticker: &Ticker, holder: IdentityId, nonce: u16) -> (r: bool)
        requires
            self.wf(),
        ensures
            r == self@.nonce_used(*ticker, holder, nonce),
    {
        match self.authentication_nonce.get(&(*ticker, holder, nonce)) {
            Some(b) => *b,
            None => false,
        }
    }

    /// The name of the current funding round of `ticker`.
    pub fn funding_round(&self, ticker: &Ticker) -> (r: Vec<u8>)
        requires
            self.wf(),
        ensures
            r@ == self@.round(*ticker),
    {
        match self.funding_round.get(ticker) {
            Some(n) => clone_bytes(n),
            None => Vec::new(),
        }
    }

    /// What was issued of `ticker` in the funding round `round`.
    pub fn issued_in_funding_round(&self, ticker: &Ticker, round: &Vec<u8>) -> (r: u128)
        requires
            self.wf(),
        ensures
            r == self@.issued_in(*ticker, round@),
    {
        match self.issued_in_funding_round.get(&(*ticker, clone_bytes(round))) {
            Some(b) => *b,
            None => 0,
        }
    }

    /// The value of the identifier `typ` of `ticker`.
    pub fn identifiers(&self, ticker: &Ticker, typ: &IdentifierType) -> (r: Vec<u8>)
        requires
            self.wf(),
        ensures
            r@ == self@.identifier(*ticker, typ@),
    {
        match self.identifiers.get(&(*ticker, typ.duplicate())) {
            Some(v) => clone_bytes(v),
            None => Vec::new(),
        }
    }

    /// Whether transfers and issuance of `ticker` are frozen.
    pub fn frozen(&self, ticker: &Ticker) -> (r: bool)
        requires
            self.wf(),
        ensures
            r == self@.is_frozen(*ticker),
    {
        match self.frozen.get(ticker) {
            Some(b) => *b,
            None => false,
        }
    }

    /// Whether `did` owns the token `ticker`.
    pub fn _is_owner(&self, ticker: &Ticker, did: IdentityId) -> (r: bool)
        requires
            self.wf(),
        ensures
            r == self@.is_owner(*ticker, did),
    {
        match self.tokens.get(ticker) {
            Some(t) => crate::table::Key::same(&t.owner_did, &did),
            None => crate::table::Key::same(&IdentityId::default(), &did),
        }
    }

    /// Whether `did` owns the token `ticker`.
    pub fn is_owner(&self, ticker: &Ticker, did: IdentityId) -> (r: bool)
        requires
            self.wf(),
        ensures
            r == self@.is_owner(*ticker, did),
    {
        self._is_owner(ticker, did)
    }

    /// What `did` holds of the token whose ticker is `ticker` in canonical
    /// form.
    pub fn balance(&self, ticker: Ticker, did: IdentityId) -> (r: u128)
        requires
            self.wf(),
        ensures
            r == self@.balance(ticker.canonical(), did),
    {
        let mut ticker = ticker;
        ticker.canonize();
        self.balance_of(&ticker, did)
    }

    /// The total supply of the token whose ticker is `ticker` in canonical
    /// form: what all its holders hold together.
    pub fn total_supply(&self, ticker: Ticker) -> (r: u128)
        requires
            self.wf(),
        ensures
            r == self@.total_supply(ticker.canonical()),
            r == crate::asset::conservation::held(self@.balance_of, ticker.canonical()),
    {
        assert(self@.conserved(ticker.canonical()));
        let mut ticker = ticker;
        ticker.canonize();
        match self.tokens.get(&ticker) {
            Some(t) => t.total_supply,
            None => 0,
        }
    }

    /// Takes the details of the token `ticker` out of the ledger, to be put
    /// back changed; the default details where there is no such token.
    pub(crate) fn take_token(&mut self, ticker: &Ticker) -> (r: SecurityToken)
        requires
            old(self).tables_wf(),
        ensures
            final(self).tables_wf(),
            r@ == old(self)@.token(*ticker),
            final(self)@ == (State { tokens: old(self)@.tokens.remove(*ticker), ..old(self)@ }),
    {
        match self.tokens.remove(ticker) {
            Some(t) => t,
            None => SecurityToken::default(),
        }
    }

    /// Whether `value` can be moved of `ticker`: any value of a divisible
    /// token, whole units of an indivisible one.
    pub fn check_granularity(&self, ticker: &Ticker, value: u128) -> (r: bool)
        requires
            self.wf(),
        ensures
            r == self@.granular(*ticker, value),
    {
        let divisible = match self.tokens.get(ticker) {
            Some(t) => t.divisible,
            None => false,
        };
        divisible || value % crate::asset::types::ONE_UNIT == 0
    }
}

/// A copy of an asset type.
pub fn clone_asset_type(a: &crate::asset::types::AssetType) -> (r: crate::asset::types::AssetType)
    ensures
        r@ == a@,
{
    match a {
        crate::asset::types::AssetType::Equity => crate::asset::types::AssetType::Equity,
        crate::asset::types::AssetType::Debt => crate::asset::types::AssetType::Debt,
        crate::asset::types::AssetType::Commodity => crate::asset::types::AssetType::Commodity,
        crate::asset::types::AssetType::StructuredProduct => {
            crate::asset::types::AssetType::StructuredProduct
        },
        crate::asset::types::AssetType::Custom(v) => crate::asset::types::AssetType::Custom(
            clone_bytes(v),
        ),
    }
}

/// A copy of a list of checkpoint ids.
pub fn clone_ids(v: &Vec<u64>) -> (r: Vec<u64>)
    ensures
        r@ == v@,
{
    let mut out: Vec<u64> = Vec::new();
    let mut i: usize = 0;
    while i < v.len()
        invariant
            i <= v.len(),
            out@ == v@.take(i as int),
        decreases v.len() - i,
    {
        out.push(v[i]);
        assert(v@.take(i + 1) =~= v@.take(i as int).push(v@[i as int]));
        i += 1;
    }
    assert(v@.take(v.len() as int) =~= v@);
    out
}

} // verus!
