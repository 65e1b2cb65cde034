//! The identity registry: who may act for an identity, and the lists of
//! authorizations and links that every signatory carries.
//!
//! An authorization is a one-shot grant that its target consumes; a link is a
//! lasting cross-reference. Both are kept per target as a doubly linked list
//! over a map keyed by target and id, with `0` for "no record". All ids come
//! from one counter that only grows.

pub mod calls;
pub mod chain;
pub mod keys;
pub mod lists;
pub mod members;
pub mod offchain;

use crate::error::Error;
use crate::primitives::{
    AccountKey, Authorization, AuthorizationData, AuthorizationError, IdentityId, Link, LinkData,
    LinkDataView, LinkView, Signatory,
};
use crate::primitives::clone_bytes;
use crate::table::{Key, Table};
use vstd::prelude::*;

verus! {

/// What a signing key may do for its identity.
#[derive(Clone, Copy, Debug, PartialEq, Eq, Structural)]
pub enum Permission {
    Full,
    Admin,
    Operator,
    SpendFunds,
    Custom(u8),
}

/// The kind of a signing item.
#[derive(Clone, Copy, Debug, PartialEq, Eq, Structural)]
pub enum SignerType {
    External,
    Identity,
    MultiSig,
    Relayer,
    Custom(u8),
}

/// A signatory that may act for an identity, with its kind and permissions.
#[derive(Clone, Debug, PartialEq, Eq)]
pub struct SigningItem {
    pub signer: Signatory,
    pub signer_type: SignerType,
    pub permissions: Vec<Permission>,
}

/// The model of `SigningItem`.
pub struct SigningItemView {
    pub signer: Signatory,
    pub signer_type: SignerType,
    pub permissions: Seq<Permission>,
}

impl View for SigningItem {
    type V = SigningItemView;

    open spec fn view(&self) -> SigningItemView {
        SigningItemView {
            signer: self.signer,
            signer_type: self.signer_type,
            permissions: self.permissions@,
        }
    }
}

/// The views of a list of signing items.
pub open spec fn items_view(items: Seq<SigningItem>) -> Seq<SigningItemView> {
    Seq::new(items.len(), |i: int| items[i]@)
}

/// The record of an identity: its master key and its signing items.
#[derive(Clone, Debug, PartialEq, Eq)]
pub struct DidRecord {
    pub master_key: AccountKey,
    pub signing_items: Vec<SigningItem>,
}

/// The model of `DidRecord`.
pub struct DidRecordView {
    pub master_key: AccountKey,
    pub signing_items: Seq<SigningItemView>,
}

impl DidRecordView {
    /// The record that a read of an unknown identity gives.
    pub open spec fn absent() -> DidRecordView {
        DidRecordView { master_key: AccountKey::zero(), signing_items: Seq::empty() }
    }

    /// Whether `signer` is among the signing items.
    pub open spec fn has_signer(self, signer: Signatory) -> bool {
        exists|i: int|
            0 <= i < self.signing_items.len() && (#[trigger] self.signing_items[i]).signer
                == signer
    }
}

impl View for DidRecord {
    type V = DidRecordView;

    open spec fn view(&self) -> DidRecordView {
        DidRecordView {
            master_key: self.master_key,
            signing_items: items_view(self.signing_items@),
        }
    }
}

impl Default for DidRecord {
    fn default() -> (r: DidRecord)
        ensures
            r@ == DidRecordView::absent(),
    {
        let r = DidRecord { master_key: AccountKey::default(), signing_items: Vec::new() };
        assert(r@.signing_items =~= Seq::empty());
        r
    }
}

impl DidRecord {
    /// Whether `signer` is among the signing items.
    pub fn has_signer(&self, signer: &Signatory) -> (r: bool)
        ensures
            r == self@.has_signer(*signer),
    {
        let mut i: usize = 0;
        while i < self.signing_items.len()
            invariant
                i <= self.signing_items@.len(),
                forall|j: int| 0 <= j < i ==> (#[trigger] self@.signing_items[j]).signer != *signer,
            decreases self.signing_items@.len() - i,
        {
            if self.signing_items[i].signer.same(signer) {
                assert(self@.signing_items[i as int].signer == *signer);
                return true;
            }
            i += 1;
        }
        false
    }
}

/// The identities that a key is linked to.
#[derive(Clone, Debug, PartialEq, Eq)]
pub enum LinkedKeyInfo {
    /// The key belongs to one identity, as master key or external signing key.
    Unique(IdentityId),
    /// The key is shared by several identities.
    Group(Vec<IdentityId>),
}

/// The model of `LinkedKeyInfo`.
pub enum LinkedKeyInfoView {
    Unique(IdentityId),
    Group(Seq<IdentityId>),
}

impl View for LinkedKeyInfo {
    type V = LinkedKeyInfoView;

    open spec fn view(&self) -> LinkedKeyInfoView {
        match self {
            LinkedKeyInfo::Unique(d) => LinkedKeyInfoView::Unique(*d),
            LinkedKeyInfo::Group(ds) => LinkedKeyInfoView::Group(ds@),
        }
    }
}

/// The type of the value of a claim.
#[derive(Clone, Copy, Debug, PartialEq, Eq, PartialOrd, Ord, Structural)]
pub enum DataTypes {
    U8,
    U16,
    U32,
    U64,
    U128,
    Bool,
    VecU8,
}

impl Default for DataTypes {
    fn default() -> (r: DataTypes)
        ensures
            r == DataTypes::VecU8,
    {
        DataTypes::VecU8
    }
}

/// The value of a claim: bytes, and how they are to be read.
#[derive(Clone, Debug, PartialEq, Eq)]
pub struct ClaimValue {
    pub data_type: DataTypes,
    pub value: Vec<u8>,
}

/// The model of `ClaimValue`.
pub struct ClaimValueView {
    pub data_type: DataTypes,
    pub value: Seq<u8>,
}

impl View for ClaimValue {
    type V = ClaimValueView;

    open spec fn view(&self) -> ClaimValueView {
        ClaimValueView { data_type: self.data_type, value: self.value@ }
    }
}

impl ClaimValue {
    /// A copy of the value.
    pub fn duplicate(&self) -> (r: ClaimValue)
        ensures
            r@ == self@,
    {
        ClaimValue { data_type: self.data_type, value: clone_bytes(&self.value) }
    }
}

/// What a claim is about and who makes it.
#[derive(Clone, Debug, PartialEq, Eq)]
pub struct ClaimMetaData {
    pub claim_key: Vec<u8>,
    pub claim_issuer: IdentityId,
}

/// The model of `ClaimMetaData`.
pub struct ClaimMetaDataView {
    pub claim_key: Seq<u8>,
    pub claim_issuer: IdentityId,
}

impl View for ClaimMetaData {
    type V = ClaimMetaDataView;

    open spec fn view(&self) -> ClaimMetaDataView {
        ClaimMetaDataView { claim_key: self.claim_key@, claim_issuer: self.claim_issuer }
    }
}

impl Key for ClaimMetaData {
    fn same(&self, other: &ClaimMetaData) -> (r: bool) {
        self.claim_key.same(&other.claim_key) && self.claim_issuer.same(&other.claim_issuer)
    }
}

impl ClaimMetaData {
    /// A copy of the meta data.
    pub fn duplicate(&self) -> (r: ClaimMetaData)
        ensures
            r@ == self@,
    {
        ClaimMetaData { claim_key: clone_bytes(&self.claim_key), claim_issuer: self.claim_issuer }
    }
}

/// The views of a list of claim meta data.
pub open spec fn metas_view(v: Seq<ClaimMetaData>) -> Seq<ClaimMetaDataView> {
    Seq::new(v.len(), |i: int| v[i]@)
}

/// A claim about an identity.
#[derive(Clone, Debug, PartialEq, Eq)]
pub struct Claim {
    pub issuance_date: u64,
    pub expiry: u64,
    pub claim_value: ClaimValue,
}

/// The model of `Claim`.
pub struct ClaimView {
    pub issuance_date: u64,
    pub expiry: u64,
    pub claim_value: ClaimValueView,
}

impl View for Claim {
    type V = ClaimView;

    open spec fn view(&self) -> ClaimView {
        ClaimView {
            issuance_date: self.issuance_date,
            expiry: self.expiry,
            claim_value: self.claim_value@,
        }
    }
}

/// A claim to be added in a batch.
#[derive(Clone, Debug, PartialEq, Eq)]
pub struct ClaimRecord {
    pub did: IdentityId,
    pub claim_key: Vec<u8>,
    pub expiry: u64,
    pub claim_value: ClaimValue,
}

/// The meta data of the claims about one identity.
#[derive(Clone, Debug, PartialEq, Eq)]
pub struct ClaimKeys {
    pub list: Vec<ClaimMetaData>,
}

impl View for ClaimKeys {
    type V = Seq<ClaimMetaDataView>;

    open spec fn view(&self) -> Seq<ClaimMetaDataView> {
        metas_view(self.list@)
    }
}

/// A signing item that an identity has invited to join it.
#[derive(Clone, Debug, PartialEq, Eq)]
pub struct PreAuthorizedKeyInfo {
    pub signing_item: SigningItem,
    pub target_id: IdentityId,
}

/// The model of `PreAuthorizedKeyInfo`.
pub struct PreAuthorizedKeyInfoView {
    pub signing_item: SigningItemView,
    pub target_id: IdentityId,
}

impl View for PreAuthorizedKeyInfo {
    type V = PreAuthorizedKeyInfoView;

    open spec fn view(&self) -> PreAuthorizedKeyInfoView {
        PreAuthorizedKeyInfoView { signing_item: self.signing_item@, target_id: self.target_id }
    }
}

/// The invitations that a signatory has received.
#[derive(Clone, Debug, PartialEq, Eq)]
pub struct Invitations {
    pub list: Vec<PreAuthorizedKeyInfo>,
}

impl View for Invitations {
    type V = Seq<PreAuthorizedKeyInfoView>;

    open spec fn view(&self) -> Seq<PreAuthorizedKeyInfoView> {
        Seq::new(self.list@.len(), |i: int| self.list@[i]@)
    }
}

/// An authorization that a signatory signs off chain to join an identity.
/// Its nonce is the one that the identity has for such authorizations when
/// it is used.
#[derive(Clone, Copy, Debug, PartialEq, Eq)]
pub struct TargetIdAuthorization {
    /// The identity to join.
    pub target_id: IdentityId,
    /// The nonce of the identity for off-chain authorizations.
    pub nonce: u64,
    /// When the authorization expires.
    pub expires_at: u64,
}

impl View for TargetIdAuthorization {
    type V = TargetIdAuthorization;

    open spec fn view(&self) -> TargetIdAuthorization {
        *self
    }
}

impl Key for TargetIdAuthorization {
    fn same(&self, other: &TargetIdAuthorization) -> (r: bool) {
        self.target_id.same(&other.target_id) && self.nonce == other.nonce && self.expires_at
            == other.expires_at
    }
}

/// A signing item with the signature of its signatory over the off-chain
/// authorization to join.
#[derive(Clone, Debug, PartialEq, Eq)]
pub struct SigningItemWithAuth {
    /// The signing item to be added.
    pub signing_item: SigningItem,
    /// The signature over the authorization.
    pub auth_signature: [u8; 64],
}

/// The registry as a mathematical value.
pub struct State {
    /// The last id handed out.
    pub nonce: u64,
    /// The identity on whose behalf the current call runs, if one was set.
    pub current_did: Option<IdentityId>,
    pub did_records: Map<IdentityId, DidRecordView>,
    pub is_did_frozen: Map<IdentityId, bool>,
    pub key_to_identity_ids: Map<AccountKey, LinkedKeyInfoView>,
    pub authorizations: Map<(Signatory, u64), Authorization>,
    pub last_authorization: Map<Signatory, u64>,
    pub links: Map<(Signatory, u64), LinkView>,
    pub last_link: Map<Signatory, u64>,
    pub claims: Map<(IdentityId, ClaimMetaDataView), ClaimView>,
    pub claim_keys: Map<IdentityId, Seq<ClaimMetaDataView>>,
    pub kyc_validation: Map<IdentityId, bool>,
    pub pre_authorized_join_did: Map<Signatory, Seq<PreAuthorizedKeyInfoView>>,
    pub offchain_authorization_nonce: Map<IdentityId, u64>,
    pub revoke_offchain_authorization: Map<(Signatory, TargetIdAuthorization), bool>,
}

impl State {
    /// The registry at genesis: no record of any kind, and the counter at
    /// one.
    pub open spec fn genesis() -> State {
        State {
            nonce: 1,
            current_did: None,
            did_records: Map::empty(),
            is_did_frozen: Map::empty(),
            key_to_identity_ids: Map::empty(),
            authorizations: Map::empty(),
            last_authorization: Map::empty(),
            links: Map::empty(),
            last_link: Map::empty(),
            claims: Map::empty(),
            claim_keys: Map::empty(),
            kyc_validation: Map::empty(),
            pre_authorized_join_did: Map::empty(),
            offchain_authorization_nonce: Map::empty(),
            revoke_offchain_authorization: Map::empty(),
        }
    }

    /// The value of the claim that `issuer` makes about `did` under `key`,
    /// where there is one that has not expired at time `now`.
    pub open spec fn claim_value(self, did: IdentityId, key: Seq<u8>, issuer: IdentityId, now: u64) -> Option<
        ClaimValueView,
    > {
        let meta = ClaimMetaDataView { claim_key: key, claim_issuer: issuer };
        if self.claims.contains_key((did, meta)) && self.claims[(did, meta)].expiry > now {
            Some(self.claims[(did, meta)].claim_value)
        } else {
            None
        }
    }

    /// The value of the claim about `did` under `key` of the first of the
    /// first `n` of `issuers`, counted from `from`, that makes one.
    pub open spec fn first_claim_value(
        self,
        did: IdentityId,
        key: Seq<u8>,
        issuers: Seq<IdentityId>,
        from: int,
        now: u64,
    ) -> Option<ClaimValueView>
        decreases issuers.len() - from,
    {
        if from < 0 || from >= issuers.len() {
            None
        } else if self.claim_value(did, key, issuers[from], now).is_some() {
            self.claim_value(did, key, issuers[from], now)
        } else {
            self.first_claim_value(did, key, issuers, from + 1, now)
        }
    }

    /// The meta data of the claims about `did`.
    pub open spec fn claim_keys_of(self, did: IdentityId) -> Seq<ClaimMetaDataView> {
        if self.claim_keys.contains_key(did) {
            self.claim_keys[did]
        } else {
            Seq::empty()
        }
    }

    /// The record of `did`, or the default record where there is none.
    pub open spec fn did_record(self, did: IdentityId) -> DidRecordView {
        if self.did_records.contains_key(did) {
            self.did_records[did]
        } else {
            DidRecordView::absent()
        }
    }

    /// Whether the signing keys of `did` are frozen.
    pub open spec fn did_frozen(self, did: IdentityId) -> bool {
        self.is_did_frozen.contains_key(did) && self.is_did_frozen[did]
    }

    /// Whether `signer` may act for `did`: as its master key, as the identity
    /// itself, or as one of its signing items while they are not frozen.
    pub open spec fn signer_authorized(self, did: IdentityId, signer: Signatory) -> bool {
        let record = self.did_record(did);
        ||| signer == Signatory::AccountKey(record.master_key)
        ||| signer == Signatory::Identity(did)
        ||| (!self.did_frozen(did) && record.has_signer(signer))
    }

    /// The one identity that `key` belongs to, if it belongs to exactly one.
    pub open spec fn identity_of(self, key: AccountKey) -> Option<IdentityId> {
        if self.key_to_identity_ids.contains_key(key) {
            match self.key_to_identity_ids[key] {
                LinkedKeyInfoView::Unique(d) => Some(d),
                LinkedKeyInfoView::Group(_) => None,
            }
        } else {
            None
        }
    }

    /// The identity that a call signed by `key` acts for: the current identity
    /// where one is set, else the one that the key belongs to.
    pub open spec fn acting_did(self, key: AccountKey) -> Option<IdentityId> {
        match self.current_did {
            Some(d) => Some(d),
            None => self.identity_of(key),
        }
    }

    /// Id of the newest authorization of `target`; `0` where it has none.
    pub open spec fn last_auth(self, target: Signatory) -> u64 {
        if self.last_authorization.contains_key(target) {
            self.last_authorization[target]
        } else {
            0
        }
    }

    /// The authorization `id` of `target`, or the default record.
    pub open spec fn auth(self, target: Signatory, id: u64) -> Authorization {
        if self.authorizations.contains_key((target, id)) {
            self.authorizations[(target, id)]
        } else {
            Authorization::absent()
        }
    }

    /// Id of the newest link of `target`; `0` where it has none.
    pub open spec fn last_link_of(self, target: Signatory) -> u64 {
        if self.last_link.contains_key(target) {
            self.last_link[target]
        } else {
            0
        }
    }

    /// The link `id` of `target`, or the default record.
    pub open spec fn link(self, target: Signatory, id: u64) -> LinkView {
        if self.links.contains_key((target, id)) {
            self.links[(target, id)]
        } else {
            LinkView::absent()
        }
    }

    /// The id that the next record gets.
    pub open spec fn next_id(self) -> u64 {
        (self.nonce + 1) as u64
    }

    /// The registry after `from` has given `target` a new authorization: the
    /// record becomes the tail of the target's list under the next id.
    pub open spec fn add_auth(
        self,
        from: Signatory,
        target: Signatory,
        data: AuthorizationData,
        expiry: Option<u64>,
    ) -> State {
        let id = self.next_id();
        let last = self.last_auth(target);
        let relinked = if last > 0 {
            self.authorizations.insert(
                (target, last),
                Authorization { next_authorization: id, ..self.auth(target, last) },
            )
        } else {
            self.authorizations
        };
        State {
            nonce: id,
            last_authorization: self.last_authorization.insert(target, id),
            authorizations: relinked.insert(
                (target, id),
                Authorization {
                    authorization_data: data,
                    authorized_by: from,
                    expiry: expiry,
                    next_authorization: 0,
                    previous_authorization: last,
                },
            ),
            ..self
        }
    }

    /// The registry after the authorization `id` of `target` was spliced out
    /// between `next` and `previous`, whatever the record itself says.
    pub open spec fn remove_auth(self, target: Signatory, id: u64, next: u64, previous: u64) -> State {
        let s1 = if next != 0 {
            State {
                authorizations: self.authorizations.insert(
                    (target, next),
                    Authorization { previous_authorization: previous, ..self.auth(target, next) },
                ),
                ..self
            }
        } else {
            State { last_authorization: self.last_authorization.insert(target, previous), ..self }
        };
        let s2 = if previous != 0 {
            State {
                authorizations: s1.authorizations.insert(
                    (target, previous),
                    Authorization { next_authorization: next, ..s1.auth(target, previous) },
                ),
                ..s1
            }
        } else {
            s1
        };
        State { authorizations: s2.authorizations.remove((target, id)), ..s2 }
    }

    /// Whether `from` may consume the authorization `id` of `target` at time
    /// `now`, and if not, why.
    pub open spec fn consume_auth_check(
        self,
        from: Signatory,
        target: Signatory,
        id: u64,
        now: u64,
    ) -> Result<(), AuthorizationError> {
        if !self.authorizations.contains_key((target, id)) {
            Err(AuthorizationError::Invalid)
        } else if self.authorizations[(target, id)].authorized_by != from {
            Err(AuthorizationError::Unauthorized)
        } else if self.authorizations[(target, id)].expiry matches Some(e) && e <= now {
            Err(AuthorizationError::Expired)
        } else {
            Ok(())
        }
    }

    /// The registry after an attempt to consume an authorization: without the
    /// record where the attempt is in order, unchanged where it is not.
    pub open spec fn consume_auth(self, from: Signatory, target: Signatory, id: u64, now: u64) -> State {
        if self.consume_auth_check(from, target, id, now).is_ok() {
            let a = self.authorizations[(target, id)];
            self.remove_auth(target, id, a.next_authorization, a.previous_authorization)
        } else {
            self
        }
    }

    /// The registry after `target` got a new link: the record becomes the tail
    /// of the target's list under the next id.
    pub open spec fn add_link(self, target: Signatory, data: LinkDataView, expiry: Option<u64>) -> State {
        let id = self.next_id();
        let last = self.last_link_of(target);
        let relinked = if last > 0 {
            self.links.insert((target, last), LinkView { next_link: id, ..self.link(target, last) })
        } else {
            self.links
        };
        State {
            nonce: id,
            last_link: self.last_link.insert(target, id),
            links: relinked.insert(
                (target, id),
                LinkView { link_data: data, expiry: expiry, next_link: 0, previous_link: last },
            ),
            ..self
        }
    }

    /// The registry after the link `id` of `target` was spliced out of its
    /// list; unchanged where there is no such link.
    pub open spec fn remove_link(self, target: Signatory, id: u64) -> State {
        if self.links.contains_key((target, id)) {
            let l = self.links[(target, id)];
            let s1 = if l.next_link != 0 {
                State {
                    links: self.links.insert(
                        (target, l.next_link),
                        LinkView { previous_link: l.previous_link, ..self.link(target, l.next_link) },
                    ),
                    ..self
                }
            } else {
                State { last_link: self.last_link.insert(target, l.previous_link), ..self }
            };
            let s2 = if l.previous_link != 0 {
                State {
                    links: s1.links.insert(
                        (target, l.previous_link),
                        LinkView { next_link: l.next_link, ..s1.link(target, l.previous_link) },
                    ),
                    ..s1
                }
            } else {
                s1
            };
            State { links: s2.links.remove((target, id)), ..s2 }
        } else {
            self
        }
    }

    /// The registry after the payload of the link `id` of `target` was
    /// replaced; unchanged where there is no such link.
    pub open spec fn update_link(self, target: Signatory, id: u64, data: LinkDataView) -> State {
        if self.links.contains_key((target, id)) {
            State {
                links: self.links.insert(
                    (target, id),
                    LinkView { link_data: data, ..self.links[(target, id)] },
                ),
                ..self
            }
        } else {
            self
        }
    }
}

/// The identity registry.
#[derive(Clone, Debug, PartialEq)]
pub struct Module {
    pub(crate) multi_purpose_nonce: u64,
    pub(crate) current_did: Option<IdentityId>,
    pub(crate) did_records: Table<IdentityId, DidRecord>,
    pub(crate) is_did_frozen: Table<IdentityId, bool>,
    pub(crate) key_to_identity_ids: Table<AccountKey, LinkedKeyInfo>,
    pub(crate) authorizations: Table<(Signatory, u64), Authorization>,
    pub(crate) last_authorization: Table<Signatory, u64>,
    pub(crate) links: Table<(Signatory, u64), Link>,
    pub(crate) last_link: Table<Signatory, u64>,
    pub(crate) claims: Table<(IdentityId, ClaimMetaData), Claim>,
    pub(crate) claim_keys: Table<IdentityId, ClaimKeys>,
    pub(crate) kyc_validation: Table<IdentityId, bool>,
    pub(crate) pre_authorized_join_did: Table<Signatory, Invitations>,
    pub(crate) offchain_authorization_nonce: Table<IdentityId, u64>,
    pub(crate) revoke_offchain_authorization: Table<(Signatory, TargetIdAuthorization), bool>,
}

impl View for Module {
    type V = State;

    open(crate) spec fn view(&self) -> State {
        State {
            nonce: self.multi_purpose_nonce,
            current_did: self.current_did,
            did_records: self.did_records@,
            is_did_frozen: self.is_did_frozen@,
            key_to_identity_ids: self.key_to_identity_ids@,
            authorizations: self.authorizations@,
            last_authorization: self.last_authorization@,
            links: self.links@,
            last_link: self.last_link@,
            claims: self.claims@,
            claim_keys: self.claim_keys@,
            kyc_validation: self.kyc_validation@,
            pre_authorized_join_did: self.pre_authorized_join_did@,
            offchain_authorization_nonce: self.offchain_authorization_nonce@,
            revoke_offchain_authorization: self.revoke_offchain_authorization@,
        }
    }
}

impl Module {
    /// The registry is in order: its tables are, and the lists of links are
    /// doubly linked lists in order.
    pub open(crate) spec fn wf(&self) -> bool {
        self.tables_wf() && self@.links_valid()
    }

    /// In a registry in order the lists of links are doubly linked lists in
    /// order.
    pub proof fn law_links_in_order(&self)
        requires
            self.wf(),
        ensures
            self@.links_valid(),
    {
    }

    /// The registry's tables are in order.
    pub open(crate) spec fn tables_wf(&self) -> bool {
        &&& self.did_records.wf()
        &&& self.is_did_frozen.wf()
        &&& self.key_to_identity_ids.wf()
        &&& self.authorizations.wf()
        &&& self.last_authorization.wf()
        &&& self.links.wf()
        &&& self.last_link.wf()
        &&& self.claims.wf()
        &&& self.claim_keys.wf()
        &&& self.kyc_validation.wf()
        &&& self.pre_authorized_join_did.wf()
        &&& self.offchain_authorization_nonce.wf()
        &&& self.revoke_offchain_authorization.wf()
    }

    /// The registry at genesis: no record of any kind, and the counter at one.
    pub fn new() -> (r: Module)
        ensures
            r.wf(),
            r@ == State::genesis(),
    {
        proof {
            crate::identity::lists::law_genesis_lists_valid();
        }
        Module {
            multi_purpose_nonce: 1,
            current_did: None,
            did_records: Table::new(),
            is_did_frozen: Table::new(),
            key_to_identity_ids: Table::new(),
            authorizations: Table::new(),
            last_authorization: Table::new(),
            links: Table::new(),
            last_link: Table::new(),
            claims: Table::new(),
            claim_keys: Table::new(),
            kyc_validation: Table::new(),
            pre_authorized_join_did: Table::new(),
            offchain_authorization_nonce: Table::new(),
            revoke_offchain_authorization: Table::new(),
        }
    }

    /// The last id handed out.
    pub fn multi_purpose_nonce(&self) -> (r: u64)
        ensures
            r == self@.nonce,
    {
        self.multi_purpose_nonce
    }

    /// The identity on whose behalf the current call runs, if one was set.
    pub fn current_did(&self) -> (r: Option<IdentityId>)
        ensures
            r == self@.current_did,
    {
        self.current_did
    }

    /// Sets or clears the identity on whose behalf calls run.
    pub fn set_current_did(&mut self, did_opt: Option<IdentityId>)
        requires
            old(self).wf(),
        ensures
            final(self).wf(),
            final(self)@ == (State { current_did: did_opt, ..old(self)@ }),
    {
        self.current_did = did_opt;
    }

    /// Whether `did` has a record.
    pub fn did_exists(&self, did: IdentityId) -> (r: bool)
        requires
            self.wf(),
        ensures
            r == self@.did_records.contains_key(did),
    {
        self.did_records.contains_key(&did)
    }

    /// Registers the identity `did` of a new asset, with the default record.
    /// Fails where `did` has a record already.
    pub fn register_asset_did(&mut self, did: IdentityId) -> (r: Result<(), Error>)
        requires
            old(self).wf(),
        ensures
            final(self).wf(),
            r == (if old(self)@.did_records.contains_key(did) {
                Err::<(), Error>(Error::DidMustBeUnique)
            } else {
                Ok(())
            }),
            r.is_ok() ==> final(self)@ == (State {
                did_records: old(self)@.did_records.insert(did, DidRecordView::absent()),
                ..old(self)@
            }),
            r.is_err() ==> final(self)@ == old(self)@,
    {
        if self.did_records.contains_key(&did) {
            return Err(Error::DidMustBeUnique);
        }
        self.did_records.insert(did, DidRecord::default());
        Ok(())
    }

    /// Whether the signing keys of `did` are frozen.
    pub fn is_did_frozen(&self, did: IdentityId) -> (r: bool)
        requires
            self.wf(),
        ensures
            r == self@.did_frozen(did),
    {
        match self.is_did_frozen.get(&did) {
            Some(b) => *b,
            None => false,
        }
    }

    /// Checks whether `signer` may act for `did`. While the signing keys of
    /// `did` are frozen only its master key and the identity itself may.
    pub fn is_signer_authorized(&self, did: IdentityId, signer: &Signatory) -> (r: bool)
        requires
            self.wf(),
        ensures
            r == self@.signer_authorized(did, *signer),
    {
        let frozen = self.is_did_frozen(did);
        match self.did_records.get(&did) {
            Some(record) => {
                if signer.same(&Signatory::AccountKey(record.master_key)) {
                    true
                } else if signer.same(&Signatory::Identity(did)) {
                    true
                } else {
                    !frozen && record.has_signer(signer)
                }
            },
            None => {
                if signer.same(&Signatory::AccountKey(AccountKey::default())) {
                    true
                } else if signer.same(&Signatory::Identity(did)) {
                    true
                } else {
                    assert(!DidRecordView::absent().has_signer(*signer));
                    false
                }
            },
        }
    }

    /// Whether `key` is the master key of `did`.
    pub fn is_master_key(&self, did: IdentityId, key: &AccountKey) -> (r: bool)
        requires
            self.wf(),
        ensures
            r == (*key == self@.did_record(did).master_key),
    {
        match self.did_records.get(&did) {
            Some(record) => key.same(&record.master_key),
            None => key.same(&AccountKey::default()),
        }
    }

    /// The identity that `key` belongs to as master key or external signing
    /// key; none where the key is unknown or shared by a group.
    pub fn get_identity(&self, key: &AccountKey) -> (r: Option<IdentityId>)
        requires
            self.wf(),
        ensures
            r == self@.identity_of(*key),
    {
        match self.key_to_identity_ids.get(key) {
            Some(info) => match info {
                LinkedKeyInfo::Unique(d) => Some(*d),
                LinkedKeyInfo::Group(_) => None,
            },
            None => None,
        }
    }

    /// The identity that a call signed by `key` acts for.
    pub fn acting_did(&self, key: &AccountKey) -> (r: Option<IdentityId>)
        requires
            self.wf(),
        ensures
            r == self@.acting_did(*key),
    {
        match self.current_did {
            Some(d) => Some(d),
            None => self.get_identity(key),
        }
    }

    /// The value of the claim that `claim_issuer` makes about `did` under
    /// `claim_key`, where there is one that has not expired at time `now`.
    pub fn fetch_claim_value(&self, did: IdentityId, claim_key: Vec<u8>, claim_issuer: IdentityId, now: u64) -> (r:
        Option<ClaimValue>)
        requires
            self.wf(),
        ensures
            match r {
                Some(v) => self@.claim_value(did, claim_key@, claim_issuer, now) == Some(v@),
                None => self@.claim_value(did, claim_key@, claim_issuer, now).is_none(),
            },
    {
        let claim_meta_data = ClaimMetaData { claim_key, claim_issuer };
        match self.claims.get(&(did, claim_meta_data)) {
            Some(claim) => {
                if claim.expiry > now {
                    Some(claim.claim_value.duplicate())
                } else {
                    None
                }
            },
            None => None,
        }
    }

    /// The value of the claim about `did` under `claim_key` of the first of
    /// `claim_issuers` that makes one that has not expired at time `now`.
    pub fn fetch_claim_value_multiple_issuers(
        &self,
        did: IdentityId,
        claim_key: Vec<u8>,
        claim_issuers: Vec<IdentityId>,
        now: u64,
    ) -> (r: Option<ClaimValue>)
        requires
            self.wf(),
        ensures
            match r {
                Some(v) => self@.first_claim_value(did, claim_key@, claim_issuers@, 0, now) == Some(
                    v@,
                ),
                None => self@.first_claim_value(did, claim_key@, claim_issuers@, 0, now).is_none(),
            },
    {
        let mut i: usize = 0;
        while i < claim_issuers.len()
            invariant
                i <= claim_issuers@.len(),
                self.wf(),
                self@.first_claim_value(did, claim_key@, claim_issuers@, 0, now)
                    == self@.first_claim_value(did, claim_key@, claim_issuers@, i as int, now),
            decreases claim_issuers@.len() - i,
        {
            let claim_value = self.fetch_claim_value(
                did,
                clone_bytes(&claim_key),
                claim_issuers[i],
                now,
            );
            if claim_value.is_some() {
                return claim_value;
            }
            i += 1;
        }
        None
    }

    /// Id of the newest authorization of `target`; `0` where it has none.
    pub fn last_authorization(&self, target: &Signatory) -> (r: u64)
        requires
            self.wf(),
        ensures
            r == self@.last_auth(*target),
    {
        match self.last_authorization.get(target) {
            Some(id) => *id,
            None => 0,
        }
    }

    /// Whether `target` has an authorization under `id`.
    pub fn authorization_exists(&self, target: &Signatory, id: u64) -> (r: bool)
        requires
            self.wf(),
        ensures
            r == self@.authorizations.contains_key((*target, id)),
    {
        self.authorizations.contains_key(&(*target, id))
    }

    /// The authorization `id` of `target`; the default record where there is
    /// none.
    pub fn authorizations(&self, target: &Signatory, id: u64) -> (r: Authorization)
        requires
            self.wf(),
        ensures
            r == self@.auth(*target, id),
    {
        match self.authorizations.get(&(*target, id)) {
            Some(a) => *a,
            None => Authorization::default(),
        }
    }

    /// Id of the newest link of `target`; `0` where it has none.
    pub fn last_link(&self, target: &Signatory) -> (r: u64)
        requires
            self.wf(),
        ensures
            r == self@.last_link_of(*target),
    {
        match self.last_link.get(target) {
            Some(id) => *id,
            None => 0,
        }
    }

    /// Whether `target` has a link under `id`.
    pub fn link_exists(&self, target: &Signatory, id: u64) -> (r: bool)
        requires
            self.wf(),
        ensures
            r == self@.links.contains_key((*target, id)),
    {
        self.links.contains_key(&(*target, id))
    }

    /// The link `id` of `target`, if there is one.
    pub fn links(&self, target: &Signatory, id: u64) -> (r: Option<&Link>)
        requires
            self.wf(),
        ensures
            match r {
                Some(l) => self@.links.contains_key((*target, id)) && l@ == self@.links[(*target, id)],
                None => !self@.links.contains_key((*target, id)),
            },
    {
        self.links.get(&(*target, id))
    }

    /// Adds an authorization that `from` gives to `target` and returns its id.
    /// The record becomes the tail of the target's list.
    pub fn add_auth(
        &mut self,
        from: Signatory,
        target: Signatory,
        authorization_data: AuthorizationData,
        expiry: Option<u64>,
    ) -> (id: u64)
        requires
            old(self).wf(),
            old(self)@.nonce < u64::MAX,
        ensures
            final(self).wf(),
            id == old(self)@.nonce + 1,
            final(self)@ == old(self)@.add_auth(from, target, authorization_data, expiry),
    {
        let new_nonce: u64 = self.multi_purpose_nonce + 1;
        let last_auth = self.last_authorization(&target);
        let mut tail = self.authorizations(&target, last_auth);
        self.multi_purpose_nonce = new_nonce;
        if last_auth > 0 {
            tail.next_authorization = new_nonce;
            self.authorizations.insert((target, last_auth), tail);
        }
        let auth = Authorization {
            authorization_data,
            authorized_by: from,
            expiry,
            next_authorization: 0,
            previous_authorization: last_auth,
        };
        self.last_authorization.insert(target, new_nonce);
        self.authorizations.insert((target, new_nonce), auth);
        proof {
            crate::identity::lists::law_add_auth(old(self)@, from, target, authorization_data, expiry);
        }
        new_nonce
    }

    /// Removes an authorization, no questions asked: splices the record `auth_id`
    /// of `target` out between `next_auth` and `previous_auth` and deletes it.
    /// The caller has made every check.
    pub fn remove_auth(&mut self, target: Signatory, auth_id: u64, next_auth: u64, previous_auth: u64)
        requires
            old(self).wf(),
        ensures
            final(self).wf(),
            final(self)@ == old(self)@.remove_auth(target, auth_id, next_auth, previous_auth),
    {
        if next_auth != 0 {
            let mut next = self.authorizations(&target, next_auth);
            next.previous_authorization = previous_auth;
            self.authorizations.insert((target, next_auth), next);
        } else {
            self.last_authorization.insert(target, previous_auth);
        }
        if previous_auth != 0 {
            let mut prev = self.authorizations(&target, previous_auth);
            prev.next_authorization = next_auth;
            self.authorizations.insert((target, previous_auth), prev);
        }
        self.authorizations.remove(&(target, auth_id));
    }

    /// Consumes an authorization: fails where the record does not exist, was
    /// given by someone other than `from`, or is past its expiry at `now`;
    /// else removes it. Nothing changes where it fails.
    pub fn consume_auth(&mut self, from: Signatory, target: Signatory, auth_id: u64, now: u64) -> (r:
        Result<(), AuthorizationError>)
        requires
            old(self).wf(),
        ensures
            final(self).wf(),
            r == old(self)@.consume_auth_check(from, target, auth_id, now),
            final(self)@ == old(self)@.consume_auth(from, target, auth_id, now),
    {
        if !self.authorization_exists(&target, auth_id) {
            return Err(AuthorizationError::Invalid);
        }
        let auth = self.authorizations(&target, auth_id);
        if !auth.authorized_by.same(&from) {
            return Err(AuthorizationError::Unauthorized);
        }
        if let Some(expiry) = auth.expiry {
            if expiry <= now {
                return Err(AuthorizationError::Expired);
            }
        }
        self.remove_auth(target, auth_id, auth.next_authorization, auth.previous_authorization);
        Ok(())
    }

    /// Adds a link to a key or an identity and returns its id. The record
    /// becomes the tail of the target's list.
    pub fn add_link(&mut self, target: Signatory, link_data: LinkData, expiry: Option<u64>) -> (id: u64)
        requires
            old(self).wf(),
            old(self)@.nonce < u64::MAX,
        ensures
            final(self).wf(),
            id == old(self)@.nonce + 1,
            final(self)@ == old(self)@.add_link(target, link_data@, expiry),
    {
        let new_nonce: u64 = self.multi_purpose_nonce + 1;
        let last_link = self.last_link(&target);
        self.multi_purpose_nonce = new_nonce;
        if last_link > 0 {
            self.set_next_link(target, last_link, new_nonce);
        }
        let link = Link { link_data, expiry, next_link: 0, previous_link: last_link };
        self.last_link.insert(target, new_nonce);
        self.links.insert((target, new_nonce), link);
        proof {
            crate::identity::lists::law_add_link(old(self)@, target, link_data@, expiry);
        }
        new_nonce
    }

    fn set_next_link(&mut self, target: Signatory, id: u64, next: u64)
        requires
            old(self).tables_wf(),
        ensures
            final(self).tables_wf(),
            final(self)@ == (State {
                links: old(self)@.links.insert(
                    (target, id),
                    LinkView { next_link: next, ..old(self)@.link(target, id) },
                ),
                ..old(self)@
            }),
    {
        let mut l = match self.links.remove(&(target, id)) {
            Some(l) => l,
            None => Link::default(),
        };
        l.next_link = next;
        self.links.insert((target, id), l);
        assert(self@.links =~= old(self)@.links.insert(
            (target, id),
            LinkView { next_link: next, ..old(self)@.link(target, id) },
        ));
    }

    fn set_previous_link(&mut self, target: Signatory, id: u64, previous: u64)
        requires
            old(self).tables_wf(),
        ensures
            final(self).tables_wf(),
            final(self)@ == (State {
                links: old(self)@.links.insert(
                    (target, id),
                    LinkView { previous_link: previous, ..old(self)@.link(target, id) },
                ),
                ..old(self)@
            }),
    {
        let mut l = match self.links.remove(&(target, id)) {
            Some(l) => l,
            None => Link::default(),
        };
        l.previous_link = previous;
        self.links.insert((target, id), l);
        assert(self@.links =~= old(self)@.links.insert(
            (target, id),
            LinkView { previous_link: previous, ..old(self)@.link(target, id) },
        ));
    }

    /// Removes a link, if it exists, from a key or an identity: splices it out
    /// of the target's list and deletes it.
    pub fn remove_link(&mut self, target: Signatory, link_id: u64)
        requires
            old(self).wf(),
        ensures
            final(self).wf(),
            final(self)@ == old(self)@.remove_link(target, link_id),
    {
        let pointers = match self.links.get(&(target, link_id)) {
            Some(l) => Some((l.next_link, l.previous_link)),
            None => None,
        };
        if let Some((next_link, previous_link)) = pointers {
            if next_link != 0 {
                self.set_previous_link(target, next_link, previous_link);
            } else {
                self.last_link.insert(target, previous_link);
            }
            if previous_link != 0 {
                self.set_next_link(target, previous_link, next_link);
            }
            self.links.remove(&(target, link_id));
        }
        proof {
            crate::identity::lists::law_remove_link(old(self)@, target, link_id);
        }
    }

    /// Replaces the payload of a link, if it exists.
    pub fn update_link(&mut self, target: Signatory, link_id: u64, link_data: LinkData)
        requires
            old(self).wf(),
        ensures
            final(self).wf(),
            final(self)@ == old(self)@.update_link(target, link_id, link_data@),
    {
        match self.links.remove(&(target, link_id)) {
            Some(mut l) => {
                l.link_data = link_data;
                self.links.insert((target, link_id), l);
                assert(self@.links =~= old(self)@.links.insert(
                    (target, link_id),
                    LinkView { link_data: link_data@, ..old(self)@.links[(target, link_id)] },
                ));
            },
            None => {
                assert(self@.links =~= old(self)@.links);
            },
        }
        proof {
            crate::identity::lists::law_update_link(old(self)@, target, link_id, link_data@);
        }
    }
}

} // verus!
