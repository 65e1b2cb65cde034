//! The values that the ledger's records are made of: identities, keys,
//! signatories, and the payloads of authorizations and links.

use crate::codec::{encode_u128, le_bytes};
use crate::table::{array_eq, Key};
use crate::ticker::Ticker;
use vstd::prelude::*;

verus! {

/// Width of an identity and of an account key in bytes.
pub const ID_LEN: usize = 32;

/// A copy of a byte string.
pub fn clone_bytes(v: &Vec<u8>) -> (r: Vec<u8>)
    ensures
        r@ == v@,
{
    let mut out: Vec<u8> = Vec::new();
    let mut i: usize = 0;
    while i < v.len()
        invariant
            i <= v.len(),
            out@ == v@.take(i as int),
        decreases v.len() - i,
    {
        out.push(v[i]);
        assert(v@.take(i + 1) =~= v@.take(i as int).push(v@[i as int]));
        i += 1;
    }
    assert(v@.take(v.len() as int) =~= v@);
    out
}

/// An identity: the pseudonymous principal that owns tickers and tokens and
/// holds balances.
#[derive(Clone, Copy, Debug, Hash, PartialEq, Eq)]
pub struct IdentityId(pub [u8; ID_LEN]);

impl View for IdentityId {
    type V = IdentityId;

    open spec fn view(&self) -> IdentityId {
        *self
    }
}

impl Key for IdentityId {
    fn same(&self, other: &IdentityId) -> (r: bool) {
        array_eq(&self.0, &other.0)
    }
}

impl Default for IdentityId {
    fn default() -> (r: IdentityId)
        ensures
            r == IdentityId::zero(),
    {
        IdentityId([0u8; ID_LEN])
    }
}

impl IdentityId {
    /// The identity of thirty-two zero bytes: what a record that was never
    /// written names as its owner.
    pub open spec fn zero() -> IdentityId {
        IdentityId(vstd::array::spec_array_fill_for_copy_type::<u8, 32>(0u8))
    }

    /// The identity whose first sixteen bytes are `id`, least significant byte
    /// first, and whose other bytes are zero.
    pub fn from_u128(id: u128) -> (r: IdentityId)
        ensures
            r.0@ == le_bytes(id as nat, 16) + Seq::new(16, |i: int| 0u8),
    {
        let low = encode_u128(id);
        proof {
            lemma_le_bytes_len(id as nat, 16);
        }
        let mut bytes: [u8; ID_LEN] = [0u8; ID_LEN];
        let mut i: usize = 0;
        while i < 16
            invariant
                i <= 16,
                low@.len() == 16,
                forall|j: int| 0 <= j < i ==> bytes[j] == low@[j],
                forall|j: int| i <= j < 32 ==> bytes[j] == 0,
            decreases 16 - i,
        {
            bytes[i] = low[i];
            i += 1;
        }
        assert(bytes@ =~= low@ + Seq::new(16, |i: int| 0u8));
        IdentityId(bytes)
    }
}

/// `le_bytes(x, n)` has `n` bytes.
pub proof fn lemma_le_bytes_len(x: nat, n: nat)
    ensures
        le_bytes(x, n).len() == n,
    decreases n,
{
    if n > 0 {
        lemma_le_bytes_len(x / 256, (n - 1) as nat);
    }
}

/// The public key of an account.
#[derive(Clone, Copy, Debug, Hash, PartialEq, Eq)]
pub struct AccountKey(pub [u8; ID_LEN]);

impl View for AccountKey {
    type V = AccountKey;

    open spec fn view(&self) -> AccountKey {
        *self
    }
}

impl Key for AccountKey {
    fn same(&self, other: &AccountKey) -> (r: bool) {
        array_eq(&self.0, &other.0)
    }
}

impl Default for AccountKey {
    fn default() -> (r: AccountKey)
        ensures
            r == AccountKey::zero(),
    {
        AccountKey([0u8; ID_LEN])
    }
}

impl AccountKey {
    /// The key of thirty-two zero bytes.
    pub open spec fn zero() -> AccountKey {
        AccountKey(vstd::array::spec_array_fill_for_copy_type::<u8, 32>(0u8))
    }

    /// The key made of the bytes of `s`, where there are thirty-two of them.
    pub fn from_slice(s: &[u8]) -> (r: Option<AccountKey>)
        ensures
            match r {
                Some(k) => s@.len() == 32 && k.0@ == s@,
                None => s@.len() != 32,
            },
    {
        if s.len() != ID_LEN {
            return None;
        }
        let mut bytes: [u8; ID_LEN] = [0u8; ID_LEN];
        let mut i: usize = 0;
        while i < ID_LEN
            invariant
                i <= 32,
                s@.len() == 32,
                forall|j: int| 0 <= j < i ==> bytes[j] == s@[j],
            decreases 32 - i,
        {
            bytes[i] = s[i];
            i += 1;
        }
        assert(bytes@ =~= s@);
        Some(AccountKey(bytes))
    }
}

/// Who signs or is addressed: an identity, or a key that acts on its own.
#[derive(Clone, Copy, Debug, Hash, PartialEq, Eq)]
pub enum Signatory {
    Identity(IdentityId),
    AccountKey(AccountKey),
}

impl View for Signatory {
    type V = Signatory;

    open spec fn view(&self) -> Signatory {
        *self
    }
}

impl Key for Signatory {
    fn same(&self, other: &Signatory) -> (r: bool) {
        match (self, other) {
            (Signatory::Identity(a), Signatory::Identity(b)) => a.same(b),
            (Signatory::AccountKey(a), Signatory::AccountKey(b)) => a.same(b),
            _ => false,
        }
    }
}

impl Default for Signatory {
    fn default() -> (r: Signatory)
        ensures
            r == Signatory::Identity(IdentityId::zero()),
    {
        Signatory::Identity(IdentityId::default())
    }
}

impl Signatory {
    /// The signatory that stands for the identity `did`.
    pub fn from_identity(did: IdentityId) -> (r: Signatory)
        ensures
            r == Signatory::Identity(did),
    {
        Signatory::Identity(did)
    }

    /// The signatory that stands for the key `key`.
    pub fn from_key(key: AccountKey) -> (r: Signatory)
        ensures
            r == Signatory::AccountKey(key),
    {
        Signatory::AccountKey(key)
    }

    /// Whether this signatory is the identity `did` or the key `key`.
    pub fn eq_either(&self, did: &IdentityId, key: &AccountKey) -> (r: bool)
        ensures
            r == (*self == Signatory::Identity(*did) || *self == Signatory::AccountKey(*key)),
    {
        match self {
            Signatory::Identity(id) => id.same(did),
            Signatory::AccountKey(k) => k.same(key),
        }
    }
}

impl Key for Ticker {
    fn same(&self, other: &Ticker) -> (r: bool) {
        array_eq(&self.0, &other.0)
    }
}

/// What an authorization grants.
#[derive(Clone, Copy, Debug, PartialEq, Eq)]
pub enum AuthorizationData {
    /// The right to take over a ticker's registration.
    TransferTicker(Ticker),
    /// The right to join a multi-signature account as a signer.
    AddMultiSigSigner,
    /// The right to take over a token and its ticker.
    TransferTokenOwnership(Ticker),
    /// A grant whose meaning lies outside the ledger.
    Custom(Ticker),
    /// Nothing.
    NoData,
}

/// Why an authorization could not be used.
#[derive(Clone, Copy, Debug, PartialEq, Eq, Structural)]
pub enum AuthorizationError {
    /// There is no such authorization.
    Invalid,
    /// The authorization was given by someone else.
    Unauthorized,
    /// The authorization is past its expiry.
    Expired,
}

/// A one-shot grant, threaded into the list of its target.
#[derive(Clone, Copy, Debug, PartialEq, Eq)]
pub struct Authorization {
    pub authorization_data: AuthorizationData,
    pub authorized_by: Signatory,
    pub expiry: Option<u64>,
    pub next_authorization: u64,
    pub previous_authorization: u64,
}

impl Authorization {
    /// The authorization that a read of an absent record gives.
    pub open spec fn absent() -> Authorization {
        Authorization {
            authorization_data: AuthorizationData::NoData,
            authorized_by: Signatory::Identity(IdentityId::zero()),
            expiry: None,
            next_authorization: 0,
            previous_authorization: 0,
        }
    }
}

impl Default for Authorization {
    fn default() -> (r: Authorization)
        ensures
            r == Authorization::absent(),
    {
        Authorization {
            authorization_data: AuthorizationData::NoData,
            authorized_by: Signatory::default(),
            expiry: None,
            next_authorization: 0,
            previous_authorization: 0,
        }
    }
}

impl View for Authorization {
    type V = Authorization;

    open spec fn view(&self) -> Authorization {
        *self
    }
}

/// A document attached to a token.
#[derive(Clone, Debug, PartialEq, Eq)]
pub struct Document {
    pub name: Vec<u8>,
    pub uri: Vec<u8>,
    pub hash: Vec<u8>,
}

/// A document as three byte strings.
pub struct DocumentView {
    pub name: Seq<u8>,
    pub uri: Seq<u8>,
    pub hash: Seq<u8>,
}

impl View for Document {
    type V = DocumentView;

    open spec fn view(&self) -> DocumentView {
        DocumentView { name: self.name@, uri: self.uri@, hash: self.hash@ }
    }
}

impl Document {
    /// A copy of the document.
    pub fn duplicate(&self) -> (r: Document)
        ensures
            r@ == self@,
    {
        Document {
            name: clone_bytes(&self.name),
            uri: clone_bytes(&self.uri),
            hash: clone_bytes(&self.hash),
        }
    }
}

/// What a link records.
#[derive(Clone, Debug, PartialEq, Eq)]
pub enum LinkData {
    DocumentOwned(Document),
    TickerOwned(Ticker),
    TokenOwned(Ticker),
    NoData,
}

/// The model of `LinkData`.
pub enum LinkDataView {
    DocumentOwned(DocumentView),
    TickerOwned(Ticker),
    TokenOwned(Ticker),
    NoData,
}

impl View for LinkData {
    type V = LinkDataView;

    open spec fn view(&self) -> LinkDataView {
        match self {
            LinkData::DocumentOwned(d) => LinkDataView::DocumentOwned(d@),
            LinkData::TickerOwned(t) => LinkDataView::TickerOwned(*t),
            LinkData::TokenOwned(t) => LinkDataView::TokenOwned(*t),
            LinkData::NoData => LinkDataView::NoData,
        }
    }
}

/// A lasting cross-reference, threaded into the list of its target.
#[derive(Clone, Debug, PartialEq, Eq)]
pub struct Link {
    pub link_data: LinkData,
    pub expiry: Option<u64>,
    pub next_link: u64,
    pub previous_link: u64,
}

/// The model of `Link`.
pub struct LinkView {
    pub link_data: LinkDataView,
    pub expiry: Option<u64>,
    pub next_link: u64,
    pub previous_link: u64,
}

impl LinkView {
    /// The link that a read of an absent record gives.
    pub open spec fn absent() -> LinkView {
        LinkView { link_data: LinkDataView::NoData, expiry: None, next_link: 0, previous_link: 0 }
    }
}

impl Default for Link {
    fn default() -> (r: Link)
        ensures
            r@ == LinkView::absent(),
    {
        Link { link_data: LinkData::NoData, expiry: None, next_link: 0, previous_link: 0 }
    }
}

impl View for Link {
    type V = LinkView;

    open spec fn view(&self) -> LinkView {
        LinkView {
            link_data: self.link_data@,
            expiry: self.expiry,
            next_link: self.next_link,
            previous_link: self.previous_link,
        }
    }
}

} // verus!
