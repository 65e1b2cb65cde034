//! The records of the token ledger and their models.

use crate::codec::{encode_bytes, encode_u128, encode_u16, le_bytes};
use crate::primitives::{clone_bytes, AccountKey, IdentityId};
use crate::table::Key;
use crate::ticker::Ticker;
use vstd::prelude::*;

verus! {

/// One whole unit of a token: what an indivisible token moves in multiples of.
pub const ONE_UNIT: u128 = 1_000_000;

/// The largest total supply that a token may have.
pub const MAX_SUPPLY: u128 = 1_000_000_000_000_000_000;

/// The longest name that a token may have, in bytes.
pub const MAX_NAME_LEN: usize = 64;

/// Status code: the movement is permitted.
pub const ERC1400_TRANSFER_SUCCESS: u8 = 0;

/// Status code: the movement could not be judged.
pub const ERC1400_TRANSFER_FAILURE: u8 = 0x50;

/// Status code: the sender's balance does not cover the movement.
pub const ERC1400_INSUFFICIENT_BALANCE: u8 = 0x52;

/// Status code: there is no receiver.
pub const ERC1400_INVALID_RECEIVER: u8 = 0x57;

/// Status code: the receiver would own more of the token than is allowed.
pub const APP_FUNDS_LIMIT_REACHED: u8 = 0xa1;

/// The bytes of the word "undefined".
pub open spec fn undefined() -> Seq<u8> {
    seq![117u8, 110u8, 100u8, 101u8, 102u8, 105u8, 110u8, 101u8, 100u8]
}

/// The bytes of the word "undefined".
pub fn undefined_bytes() -> (r: Vec<u8>)
    ensures
        r@ == undefined(),
{
    let mut v: Vec<u8> = Vec::new();
    v.push(117u8);
    v.push(110u8);
    v.push(100u8);
    v.push(101u8);
    v.push(102u8);
    v.push(105u8);
    v.push(110u8);
    v.push(101u8);
    v.push(100u8);
    assert(v@ =~= undefined());
    v
}

/// The type of an asset represented by a token.
#[derive(Clone, Debug, PartialEq, Eq)]
pub enum AssetType {
    Equity,
    Debt,
    Commodity,
    StructuredProduct,
    Custom(Vec<u8>),
}

/// The model of `AssetType`.
pub enum AssetTypeView {
    Equity,
    Debt,
    Commodity,
    StructuredProduct,
    Custom(Seq<u8>),
}

impl View for AssetType {
    type V = AssetTypeView;

    open spec fn view(&self) -> AssetTypeView {
        match self {
            AssetType::Equity => AssetTypeView::Equity,
            AssetType::Debt => AssetTypeView::Debt,
            AssetType::Commodity => AssetTypeView::Commodity,
            AssetType::StructuredProduct => AssetTypeView::StructuredProduct,
            AssetType::Custom(v) => AssetTypeView::Custom(v@),
        }
    }
}

impl Default for AssetType {
    fn default() -> (r: AssetType)
        ensures
            r@ == AssetTypeView::Custom(undefined()),
    {
        AssetType::Custom(undefined_bytes())
    }
}

/// The type of an identifier associated with a token.
#[derive(Clone, Debug, PartialEq, Eq, PartialOrd, Ord)]
pub enum IdentifierType {
    Isin,
    Cusip,
    Custom(Vec<u8>),
}

/// The model of `IdentifierType`.
pub enum IdentifierTypeView {
    Isin,
    Cusip,
    Custom(Seq<u8>),
}

impl View for IdentifierType {
    type V = IdentifierTypeView;

    open spec fn view(&self) -> IdentifierTypeView {
        match self {
            IdentifierType::Isin => IdentifierTypeView::Isin,
            IdentifierType::Cusip => IdentifierTypeView::Cusip,
            IdentifierType::Custom(v) => IdentifierTypeView::Custom(v@),
        }
    }
}

impl Default for IdentifierType {
    fn default() -> (r: IdentifierType)
        ensures
            r@ == IdentifierTypeView::Custom(undefined()),
    {
        IdentifierType::Custom(undefined_bytes())
    }
}

impl Key for IdentifierType {
    fn same(&self, other: &IdentifierType) -> (r: bool) {
        match (self, other) {
            (IdentifierType::Isin, IdentifierType::Isin) => true,
            (IdentifierType::Cusip, IdentifierType::Cusip) => true,
            (IdentifierType::Custom(a), IdentifierType::Custom(b)) => a.same(b),
            _ => false,
        }
    }
}

impl IdentifierType {
    /// A copy of the identifier type.
    pub fn duplicate(&self) -> (r: IdentifierType)
        ensures
            r@ == self@,
    {
        match self {
            IdentifierType::Isin => IdentifierType::Isin,
            IdentifierType::Cusip => IdentifierType::Cusip,
            IdentifierType::Custom(v) => IdentifierType::Custom(clone_bytes(v)),
        }
    }
}

/// The details of a token.
#[derive(Clone, Debug, PartialEq, Eq)]
pub struct SecurityToken {
    pub name: Vec<u8>,
    pub total_supply: u128,
    pub owner_did: IdentityId,
    pub divisible: bool,
    pub asset_type: AssetType,
    pub link_id: u64,
}

/// The model of `SecurityToken`.
pub struct SecurityTokenView {
    pub name: Seq<u8>,
    pub total_supply: u128,
    pub owner_did: IdentityId,
    pub divisible: bool,
    pub asset_type: AssetTypeView,
    pub link_id: u64,
}

impl SecurityTokenView {
    /// The details that a read of an absent token gives.
    pub open spec fn absent() -> SecurityTokenView {
        SecurityTokenView {
            name: Seq::empty(),
            total_supply: 0,
            owner_did: IdentityId::zero(),
            divisible: false,
            asset_type: AssetTypeView::Custom(undefined()),
            link_id: 0,
        }
    }
}

impl View for SecurityToken {
    type V = SecurityTokenView;

    open spec fn view(&self) -> SecurityTokenView {
        SecurityTokenView {
            name: self.name@,
            total_supply: self.total_supply,
            owner_did: self.owner_did,
            divisible: self.divisible,
            asset_type: self.asset_type@,
            link_id: self.link_id,
        }
    }
}

impl Default for SecurityToken {
    fn default() -> (r: SecurityToken)
        ensures
            r@ == SecurityTokenView::absent(),
    {
        SecurityToken {
            name: Vec::new(),
            total_supply: 0,
            owner_did: IdentityId::default(),
            divisible: false,
            asset_type: AssetType::default(),
            link_id: 0,
        }
    }
}

/// The message that a holder signs off chain to raise a custodian's
/// allowance.
#[derive(Clone, Copy, Debug, PartialEq, Eq)]
pub struct SignData {
    pub custodian_did: IdentityId,
    pub holder_did: IdentityId,
    pub ticker: Ticker,
    pub value: u128,
    pub nonce: u16,
}

impl SignData {
    /// The bytes that are signed: the fields in order, each identity and the
    /// ticker as its bytes, the value and the nonce least significant byte
    /// first.
    pub open spec fn spec_encode(self) -> Seq<u8> {
        self.custodian_did.0@ + self.holder_did.0@ + self.ticker.0@ + le_bytes(
            self.value as nat,
            16,
        ) + le_bytes(self.nonce as nat, 2)
    }

    /// The bytes that are signed.
    pub fn encode(&self) -> (r: Vec<u8>)
        ensures
            r@ == self.spec_encode(),
    {
        let mut out = encode_bytes(&self.custodian_did.0);
        let mut holder = encode_bytes(&self.holder_did.0);
        let mut ticker = encode_bytes(&self.ticker.0);
        let mut value = encode_u128(self.value);
        let mut nonce = encode_u16(self.nonce);
        out.append(&mut holder);
        out.append(&mut ticker);
        out.append(&mut value);
        out.append(&mut nonce);
        out
    }
}

/// The registration of a ticker.
#[derive(Clone, Copy, Debug, PartialEq, Eq)]
pub struct TickerRegistration {
    pub owner: IdentityId,
    pub expiry: Option<u64>,
    pub link_id: u64,
}

impl View for TickerRegistration {
    type V = TickerRegistration;

    open spec fn view(&self) -> TickerRegistration {
        *self
    }
}

impl TickerRegistration {
    /// The registration that a read of an unregistered ticker gives.
    pub open spec fn absent() -> TickerRegistration {
        TickerRegistration { owner: IdentityId::zero(), expiry: None, link_id: 0 }
    }
}

impl Default for TickerRegistration {
    fn default() -> (r: TickerRegistration)
        ensures
            r == TickerRegistration::absent(),
    {
        TickerRegistration { owner: IdentityId::default(), expiry: None, link_id: 0 }
    }
}

/// The rules of ticker registration.
#[derive(Clone, Copy, Debug, PartialEq, Eq, Default)]
pub struct TickerRegistrationConfig {
    /// The longest ticker that can be registered.
    pub max_ticker_length: u8,
    /// For how long a registration holds; for ever where there is none.
    pub registration_length: Option<u64>,
}

/// The current status of a ticker, as seen by one identity.
#[derive(Clone, Copy, Debug, PartialEq, Eq, Structural)]
pub enum TickerRegistrationStatus {
    RegisteredByOther,
    Available,
    RegisteredByDid,
}

/// The kind of a smart extension.
#[derive(Clone, Debug, PartialEq, Eq)]
pub enum SmartExtensionType {
    TransferManager,
    Offerings,
    Custom(Vec<u8>),
}

/// The model of `SmartExtensionType`.
pub enum SmartExtensionTypeView {
    TransferManager,
    Offerings,
    Custom(Seq<u8>),
}

impl View for SmartExtensionType {
    type V = SmartExtensionTypeView;

    open spec fn view(&self) -> SmartExtensionTypeView {
        match self {
            SmartExtensionType::TransferManager => SmartExtensionTypeView::TransferManager,
            SmartExtensionType::Offerings => SmartExtensionTypeView::Offerings,
            SmartExtensionType::Custom(v) => SmartExtensionTypeView::Custom(v@),
        }
    }
}

impl Key for SmartExtensionType {
    fn same(&self, other: &SmartExtensionType) -> (r: bool) {
        match (self, other) {
            (SmartExtensionType::TransferManager, SmartExtensionType::TransferManager) => true,
            (SmartExtensionType::Offerings, SmartExtensionType::Offerings) => true,
            (SmartExtensionType::Custom(a), SmartExtensionType::Custom(b)) => a.same(b),
            _ => false,
        }
    }
}

impl SmartExtensionType {
    /// A copy of the extension type.
    pub fn duplicate(&self) -> (r: SmartExtensionType)
        ensures
            r@ == self@,
    {
        match self {
            SmartExtensionType::TransferManager => SmartExtensionType::TransferManager,
            SmartExtensionType::Offerings => SmartExtensionType::Offerings,
            SmartExtensionType::Custom(v) => SmartExtensionType::Custom(clone_bytes(v)),
        }
    }
}

/// A smart extension whitelisted for a token.
#[derive(Clone, Debug, PartialEq, Eq)]
pub struct SmartExtension {
    pub extension_type: SmartExtensionType,
    pub extension_name: Vec<u8>,
    pub extension_id: AccountKey,
    pub is_archive: bool,
}

/// The model of `SmartExtension`.
pub struct SmartExtensionView {
    pub extension_type: SmartExtensionTypeView,
    pub extension_name: Seq<u8>,
    pub extension_id: AccountKey,
    pub is_archive: bool,
}

impl View for SmartExtension {
    type V = SmartExtensionView;

    open spec fn view(&self) -> SmartExtensionView {
        SmartExtensionView {
            extension_type: self.extension_type@,
            extension_name: self.extension_name@,
            extension_id: self.extension_id,
            is_archive: self.is_archive,
        }
    }
}

/// The record of one issuance: what was issued to whom, in which funding
/// round, and what that round has issued in all.
#[derive(Clone, Debug, PartialEq, Eq)]
pub struct Issued {
    pub ticker: Ticker,
    pub beneficiary: IdentityId,
    pub value: u128,
    pub funding_round: Vec<u8>,
    pub issued_in_funding_round: u128,
}

/// The model of `Issued`.
pub struct IssuedView {
    pub ticker: Ticker,
    pub beneficiary: IdentityId,
    pub value: u128,
    pub funding_round: Seq<u8>,
    pub issued_in_funding_round: u128,
}

impl View for Issued {
    type V = IssuedView;

    open spec fn view(&self) -> IssuedView {
        IssuedView {
            ticker: self.ticker,
            beneficiary: self.beneficiary,
            value: self.value,
            funding_round: self.funding_round@,
            issued_in_funding_round: self.issued_in_funding_round,
        }
    }
}

/// The models of a list of records of issuance.
pub open spec fn issued_view(v: Seq<Issued>) -> Seq<IssuedView> {
    Seq::new(v.len(), |i: int| v[i]@)
}

/// What the collaborators outside the ledger answered about one prospective
/// movement of tokens.
#[derive(Clone, Copy, Debug, PartialEq, Eq)]
pub struct Compliance {
    /// The status code of the rule-set verifier; `None` where it failed.
    pub general: Option<u8>,
    /// Whether the receiver is exempt from the cap on ownership.
    pub exempted: bool,
}

} // verus!
