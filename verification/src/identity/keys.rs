//! Keys and identities: which identity a key belongs to, who has been
//! invited to join which identity, and how an identity comes to be.

use crate::error::Error;
use crate::identity::{
    DidRecord, DidRecordView, Invitations, LinkedKeyInfo, LinkedKeyInfoView, Module, Permission,
    PreAuthorizedKeyInfo, PreAuthorizedKeyInfoView, SignerType, SigningItem, SigningItemView, State,
};
use crate::primitives::{AccountKey, IdentityId, Signatory};
use crate::table::Key;
use vstd::prelude::*;

verus! {

/// Whether `a` comes before `b` in the order of their bytes.
pub open spec fn bytes_before(a: Seq<u8>, b: Seq<u8>) -> bool {
    exists|i: int|
        0 <= i < a.len() && i < b.len() && a[i] < b[i] && forall|j: int|
            0 <= j < i ==> a[j] == b[j]
}

/// Whether the identity `a` comes before `b` in the order of their bytes.
pub open spec fn id_before(a: IdentityId, b: IdentityId) -> bool {
    bytes_before(a.0@, b.0@)
}

/// How many of the first identities of `dids` in a row come before `did`.
pub open spec fn place(dids: Seq<IdentityId>, did: IdentityId) -> int
    decreases dids.len(),
{
    if dids.len() == 0 || !id_before(dids[0], did) {
        0
    } else {
        1 + place(dids.drop_first(), did)
    }
}

/// The list `dids` with `did` put at its place: in a list in byte order,
/// the list in byte order that has `did` too.
pub open spec fn placed(dids: Seq<IdentityId>, did: IdentityId) -> Seq<IdentityId> {
    dids.insert(place(dids, did), did)
}

/// The list `dids` without `did`.
pub open spec fn without(dids: Seq<IdentityId>, did: IdentityId) -> Seq<IdentityId>
    decreases dids.len(),
{
    if dids.len() == 0 {
        Seq::empty()
    } else if dids.last() == did {
        without(dids.drop_last(), did)
    } else {
        without(dids.drop_last(), did).push(dids.last())
    }
}

/// The invitations of `list` but those to join `id`.
pub open spec fn without_target(list: Seq<PreAuthorizedKeyInfoView>, id: IdentityId) -> Seq<
    PreAuthorizedKeyInfoView,
>
    decreases list.len(),
{
    if list.len() == 0 {
        Seq::empty()
    } else if list.last().target_id == id {
        without_target(list.drop_last(), id)
    } else {
        without_target(list.drop_last(), id).push(list.last())
    }
}

/// Every identity of the list comes before the ones after it in the order
/// of their bytes.
pub open spec fn in_byte_order(dids: Seq<IdentityId>) -> bool {
    forall|i: int, j: int| 0 <= i < j < dids.len() ==> id_before(dids[i], dids[j])
}

/// Of two byte strings of one length that agree on their first `k` bytes,
/// one comes before the other, or they are the same.
proof fn lemma_bytes_compare_from(a: Seq<u8>, b: Seq<u8>, k: int)
    requires
        a.len() == b.len(),
        0 <= k <= a.len(),
        forall|j: int| 0 <= j < k ==> a[j] == b[j],
    ensures
        a == b || bytes_before(a, b) || bytes_before(b, a),
    decreases a.len() - k,
{
    if k == a.len() {
        assert(a =~= b);
    } else if a[k] < b[k] {
        assert(bytes_before(a, b));
    } else if b[k] < a[k] {
        assert(bytes_before(b, a));
    } else {
        lemma_bytes_compare_from(a, b, k + 1);
    }
}

/// The order of bytes is total on identities: of two different identities
/// one comes before the other.
pub proof fn lemma_id_order_total(a: IdentityId, b: IdentityId)
    ensures
        a == b || id_before(a, b) || id_before(b, a),
{
    lemma_bytes_compare_from(a.0@, b.0@, 0);
    if a.0@ == b.0@ {
        assert(a.0 =~= b.0);
    }
}

/// The order of bytes is transitive, and no identity comes before itself.
pub proof fn lemma_id_order_strict(a: IdentityId, b: IdentityId, c: IdentityId)
    ensures
        !id_before(a, a),
        id_before(a, b) && id_before(b, c) ==> id_before(a, c),
{
    if id_before(a, b) && id_before(b, c) {
        let x = a.0@;
        let y = b.0@;
        let z = c.0@;
        let i = choose|i: int|
            0 <= i < x.len() && i < y.len() && x[i] < y[i] && forall|j: int|
                0 <= j < i ==> x[j] == y[j];
        let k = choose|k: int|
            0 <= k < y.len() && k < z.len() && y[k] < z[k] && forall|j: int|
                0 <= j < k ==> y[j] == z[j];
        let m = if i <= k {
            i
        } else {
            k
        };
        assert(0 <= m < x.len() && m < z.len() && x[m] < z[m] && forall|j: int|
            0 <= j < m ==> x[j] == z[j]);
    }
}

/// The place of `did` is within the list; everything before it comes before
/// `did`, and what stands at it does not.
pub proof fn lemma_place(dids: Seq<IdentityId>, did: IdentityId)
    ensures
        0 <= place(dids, did) <= dids.len(),
        forall|j: int| 0 <= j < place(dids, did) ==> id_before(dids[j], did),
        place(dids, did) < dids.len() ==> !id_before(dids[place(dids, did)], did),
    decreases dids.len(),
{
    if dids.len() != 0 && id_before(dids[0], did) {
        let rest = dids.drop_first();
        lemma_place(rest, did);
        assert forall|j: int| 0 <= j < place(dids, did) implies id_before(dids[j], did) by {
            if j > 0 {
                assert(rest[j - 1] == dids[j]);
            }
        }
        if place(dids, did) < dids.len() {
            assert(rest[place(rest, did)] == dids[place(dids, did)]);
        }
    }
}

/// Putting a new identity at its place in a list in byte order gives the
/// list in byte order that holds the identities of the list and the new one,
/// and no other: what sorting the list with the new identity at its end
/// gives.
pub proof fn law_placed(dids: Seq<IdentityId>, did: IdentityId)
    requires
        in_byte_order(dids),
        !dids.contains(did),
    ensures
        in_byte_order(placed(dids, did)),
        placed(dids, did).len() == dids.len() + 1,
        forall|x: IdentityId| placed(dids, did).contains(x) <==> dids.contains(x) || x == did,
{
    lemma_place(dids, did);
    let at = place(dids, did);
    let out = placed(dids, did);
    assert(out[at] == did);
    assert forall|k: int| 0 <= k < out.len() && k != at implies out[k] == dids[if k < at {
        k
    } else {
        k - 1
    }] by {}
    assert forall|i: int, j: int| 0 <= i < j < out.len() implies id_before(out[i], out[j]) by {
        if j == at {
            assert(out[i] == dids[i]);
        } else if i == at {
            let after = dids[j - 1];
            assert(out[j] == after);
            let first = dids[at];
            assert(dids.contains(first));
            lemma_id_order_total(first, did);
            if j - 1 > at {
                assert(id_before(first, after));
                lemma_id_order_strict(did, first, after);
            }
        } else {
            let a0 = if i < at {
                i
            } else {
                i - 1
            };
            let b0 = if j < at {
                j
            } else {
                j - 1
            };
            assert(out[i] == dids[a0]);
            assert(out[j] == dids[b0]);
            assert(id_before(dids[a0], dids[b0]));
        }
    }
    assert forall|x: IdentityId| placed(dids, did).contains(x) <==> dids.contains(x) || x
        == did by {
        if out.contains(x) {
            let k = choose|k: int| 0 <= k < out.len() && out[k] == x;
            if k != at {
                assert(dids.contains(x));
            }
        }
        if dids.contains(x) {
            let k = choose|k: int| 0 <= k < dids.len() && dids[k] == x;
            let k1 = if k < at {
                k
            } else {
                k + 1
            };
            assert(out[k1] == x);
        }
    }
}

/// Whether the identity `a` comes before `b` in the order of their bytes.
pub fn id_less(a: &IdentityId, b: &IdentityId) -> (r: bool)
    ensures
        r == id_before(*a, *b),
{
    let mut i: usize = 0;
    while i < 32
        invariant
            i <= 32,
            forall|j: int| 0 <= j < i ==> a.0[j] == b.0[j],
        decreases 32 - i,
    {
        if a.0[i] < b.0[i] {
            return true;
        }
        if a.0[i] > b.0[i] {
            assert(!id_before(*a, *b)) by {
                if id_before(*a, *b) {
                    let k = choose|k: int|
                        0 <= k < a.0@.len() && k < b.0@.len() && a.0@[k] < b.0@[k] && forall|j: int|
                            0 <= j < k ==> a.0@[j] == b.0@[j];
                    if k < i {
                        assert(a.0[k] == b.0[k]);
                    } else if k > i {
                        assert(a.0@[i as int] == b.0@[i as int]);
                    }
                }
            }
            return false;
        }
        i += 1;
    }
    assert(!id_before(*a, *b)) by {
        if id_before(*a, *b) {
            let k = choose|k: int|
                0 <= k < a.0@.len() && k < b.0@.len() && a.0@[k] < b.0@[k] && forall|j: int|
                    0 <= j < k ==> a.0@[j] == b.0@[j];
            assert(a.0[k] == b.0[k]);
        }
    }
    false
}

impl SigningItem {
    /// A copy of the signing item.
    pub fn duplicate(&self) -> (r: SigningItem)
        ensures
            r@ == self@,
    {
        let mut permissions: Vec<Permission> = Vec::new();
        let mut i: usize = 0;
        while i < self.permissions.len()
            invariant
                i <= self.permissions@.len(),
                permissions@ == self.permissions@.take(i as int),
            decreases self.permissions@.len() - i,
        {
            permissions.push(self.permissions[i]);
            assert(self.permissions@.take(i + 1) =~= self.permissions@.take(i as int).push(
                self.permissions@[i as int],
            ));
            i += 1;
        }
        assert(self.permissions@.take(self.permissions@.len() as int) =~= self.permissions@);
        SigningItem { signer: self.signer, signer_type: self.signer_type, permissions }
    }

    /// Whether the item has the permission `permission`, in itself or by
    /// having all of them.
    pub fn has_permission(&self, permission: Permission) -> (r: bool)
        ensures
            r == self@.has_permission(permission),
    {
        let mut i: usize = 0;
        while i < self.permissions.len()
            invariant
                i <= self.permissions@.len(),
                forall|j: int|
                    0 <= j < i ==> self.permissions@[j] != Permission::Full && self.permissions@[j]
                        != permission,
            decreases self.permissions@.len() - i,
        {
            let p = self.permissions[i];
            if p == Permission::Full || p == permission {
                return true;
            }
            i += 1;
        }
        false
    }
}

impl SigningItemView {
    /// Whether the item has the permission `permission`, in itself or by
    /// having all of them.
    pub open spec fn has_permission(self, permission: Permission) -> bool {
        exists|i: int|
            0 <= i < self.permissions.len() && (self.permissions[i] == Permission::Full
                || self.permissions[i] == permission)
    }
}

impl DidRecordView {
    /// The index of the first signing item of `signer`, counted from `from`;
    /// the length of the list where there is none.
    pub open spec fn signer_index(self, signer: Signatory, from: int) -> int
        decreases self.signing_items.len() - from,
    {
        if from < 0 || from >= self.signing_items.len() {
            self.signing_items.len() as int
        } else if self.signing_items[from].signer == signer {
            from
        } else {
            self.signer_index(signer, from + 1)
        }
    }
}

impl State {
    /// Whether `key` can be linked to one more identity as a key of kind
    /// `signer_type`: a key that belongs to one identity cannot, and a key
    /// shared by a group cannot as an external key.
    pub open spec fn key_linkable(self, key: AccountKey, signer_type: SignerType) -> bool {
        if self.key_to_identity_ids.contains_key(key) {
            match self.key_to_identity_ids[key] {
                LinkedKeyInfoView::Unique(_) => false,
                LinkedKeyInfoView::Group(_) => signer_type != SignerType::External,
            }
        } else {
            true
        }
    }

    /// The registry after `key` was linked to `did` as a key of kind
    /// `key_type`. An unknown key belongs to `did` alone where it is
    /// external, to a group of one where it is not; a shared key has `did`
    /// put at its place in the group, unless it is there or the key is to be
    /// external; a key that belongs to one identity stays as it is.
    pub open spec fn key_linked(self, key: AccountKey, key_type: SignerType, did: IdentityId) -> State {
        if self.key_to_identity_ids.contains_key(key) {
            match self.key_to_identity_ids[key] {
                LinkedKeyInfoView::Group(dids) => if !dids.contains(did) && key_type
                    != SignerType::External {
                    State {
                        key_to_identity_ids: self.key_to_identity_ids.insert(
                            key,
                            LinkedKeyInfoView::Group(placed(dids, did)),
                        ),
                        ..self
                    }
                } else {
                    self
                },
                LinkedKeyInfoView::Unique(_) => self,
            }
        } else {
            State {
                key_to_identity_ids: self.key_to_identity_ids.insert(
                    key,
                    if key_type == SignerType::External {
                        LinkedKeyInfoView::Unique(did)
                    } else {
                        LinkedKeyInfoView::Group(seq![did])
                    },
                ),
                ..self
            }
        }
    }

    /// The registry after `key` was unlinked from `did`: a key that belongs
    /// to one identity is forgotten, a shared key loses `did` and is
    /// forgotten with the last identity of its group.
    pub open spec fn key_unlinked(self, key: AccountKey, did: IdentityId) -> State {
        if self.key_to_identity_ids.contains_key(key) {
            match self.key_to_identity_ids[key] {
                LinkedKeyInfoView::Unique(_) => State {
                    key_to_identity_ids: self.key_to_identity_ids.remove(key),
                    ..self
                },
                LinkedKeyInfoView::Group(dids) => if without(dids, did).len() == 0 {
                    State { key_to_identity_ids: self.key_to_identity_ids.remove(key), ..self }
                } else {
                    State {
                        key_to_identity_ids: self.key_to_identity_ids.insert(
                            key,
                            LinkedKeyInfoView::Group(without(dids, did)),
                        ),
                        ..self
                    }
                },
            }
        } else {
            self
        }
    }

    /// The invitations that `signer` has received.
    pub open spec fn invitations(self, signer: Signatory) -> Seq<PreAuthorizedKeyInfoView> {
        if self.pre_authorized_join_did.contains_key(signer) {
            self.pre_authorized_join_did[signer]
        } else {
            Seq::empty()
        }
    }

    /// The registry after the signatory of `item` was invited to join `id`:
    /// the invitation is the last of its invitations, in place of any earlier
    /// one to join `id`.
    pub open spec fn invited(self, item: SigningItemView, id: IdentityId) -> State {
        State {
            pre_authorized_join_did: self.pre_authorized_join_did.insert(
                item.signer,
                without_target(self.invitations(item.signer), id).push(
                    PreAuthorizedKeyInfoView { signing_item: item, target_id: id },
                ),
            ),
            ..self
        }
    }

    /// The registry after the invitations of `signer` to join `id` were
    /// withdrawn; a signatory without invitations is forgotten.
    pub open spec fn uninvited(self, signer: Signatory, id: IdentityId) -> State {
        let rest = without_target(self.invitations(signer), id);
        if rest.len() == 0 {
            State { pre_authorized_join_did: self.pre_authorized_join_did.remove(signer), ..self }
        } else {
            State {
                pre_authorized_join_did: self.pre_authorized_join_did.insert(signer, rest),
                ..self
            }
        }
    }

    /// The registry after the signatories of the first `n` of `items` were
    /// invited to join `id`, in order.
    pub open spec fn invited_all(self, items: Seq<SigningItemView>, id: IdentityId, n: nat) -> State
        decreases n,
    {
        if n == 0 {
            self
        } else {
            self.invited_all(items, id, (n - 1) as nat).invited(items[n - 1], id)
        }
    }

    /// Whether one of the first `n` of `items` is a key that cannot be
    /// linked to one more identity.
    pub open spec fn some_unlinkable(self, items: Seq<SigningItemView>, n: int) -> bool {
        exists|i: int| 0 <= i < n && i < items.len() && self.unlinkable(#[trigger] items[i])
    }

    /// Whether `item` is a key that cannot be linked to one more identity.
    pub open spec fn unlinkable(self, item: SigningItemView) -> bool {
        match item.signer {
            Signatory::AccountKey(k) => !self.key_linkable(k, item.signer_type),
            Signatory::Identity(_) => false,
        }
    }

    /// Whether `sender` can register `did` as its identity with the signing
    /// items `items`, and if not, why.
    pub open spec fn register_did_check(self, sender: AccountKey, items: Seq<SigningItemView>, did: IdentityId) -> Result<
        (),
        Error,
    > {
        if !self.key_linkable(sender, SignerType::External) {
            Err(Error::MasterKeyAlreadyLinked)
        } else if exists|i: int|
            0 <= i < items.len() && (#[trigger] items[i]).signer == Signatory::AccountKey(sender) {
            Err(Error::SigningKeysContainMasterKey)
        } else if self.did_records.contains_key(did) {
            Err(Error::DidMustBeUnique)
        } else if self.some_unlinkable(items, items.len() as int) {
            Err(Error::AlreadyLinked)
        } else {
            Ok(())
        }
    }

    /// The registry after `did` was registered with `sender` as its master
    /// key: the counter has grown, the key belongs to `did`, the signatories
    /// of `items` are invited to join, and `did` has a record and counts as
    /// validated.
    pub open spec fn did_registered(
        self,
        sender: AccountKey,
        items: Seq<SigningItemView>,
        extrinsic_count: u32,
        did: IdentityId,
    ) -> State {
        let s = (State {
            nonce: (self.nonce + extrinsic_count + 7) as u64,
            ..self
        }).key_linked(sender, SignerType::External, did).invited_all(items, did, items.len());
        State {
            did_records: s.did_records.insert(
                did,
                DidRecordView { master_key: sender, signing_items: Seq::empty() },
            ),
            kyc_validation: s.kyc_validation.insert(did, true),
            ..s
        }
    }

    /// Whether `sender_key` is the master key of the known identity `did`,
    /// and if not, why.
    pub open spec fn master_key_check(self, sender_key: AccountKey, did: IdentityId) -> Result<(), Error> {
        if !self.did_records.contains_key(did) {
            Err(Error::DidDoesNotExist)
        } else if sender_key != self.did_records[did].master_key {
            Err(Error::OnlyMasterKey)
        } else {
            Ok(())
        }
    }

    /// Whether `signer` may act for `did` with all of `permissions`: as its
    /// master key or as the identity itself in any case, as a signing item
    /// that has every permission asked for while the signing keys are not
    /// frozen.
    pub open spec fn signer_authorized_with(self, did: IdentityId, signer: Signatory, permissions: Seq<Permission>) -> bool {
        let record = self.did_record(did);
        let i = record.signer_index(signer, 0);
        ||| signer == Signatory::AccountKey(record.master_key)
        ||| signer == Signatory::Identity(did)
        ||| (!self.did_frozen(did) && i < record.signing_items.len() && forall|j: int|
            0 <= j < permissions.len() ==> record.signing_items[i].has_permission(
                #[trigger] permissions[j],
            ))
    }
}

impl DidRecord {
    /// A copy of the record.
    pub fn duplicate(&self) -> (r: DidRecord)
        ensures
            r@ == self@,
    {
        let mut items: Vec<SigningItem> = Vec::new();
        let mut i: usize = 0;
        while i < self.signing_items.len()
            invariant
                i <= self.signing_items@.len(),
                items@.len() == i,
                forall|j: int| 0 <= j < i ==> items@[j]@ == self.signing_items@[j]@,
            decreases self.signing_items@.len() - i,
        {
            items.push(self.signing_items[i].duplicate());
            i += 1;
        }
        let r = DidRecord { master_key: self.master_key, signing_items: items };
        assert(r@.signing_items =~= self@.signing_items);
        r
    }

    /// The index of the first signing item of `signer`, if there is one.
    pub fn find_signer(&self, signer: &Signatory) -> (r: Option<usize>)
        ensures
            match r {
                Some(i) => i < self@.signing_items.len() && self@.signer_index(*signer, 0) == i,
                None => self@.signer_index(*signer, 0) == self@.signing_items.len(),
            },
    {
        let mut i: usize = 0;
        while i < self.signing_items.len()
            invariant
                i <= self.signing_items@.len(),
                self@.signer_index(*signer, 0) == self@.signer_index(*signer, i as int),
            decreases self.signing_items@.len() - i,
        {
            if self.signing_items[i].signer.same(signer) {
                assert(self@.signing_items[i as int].signer == *signer);
                return Some(i);
            }
            assert(self@.signing_items[i as int].signer != *signer);
            i += 1;
        }
        None
    }
}

impl LinkedKeyInfo {
    /// A copy of the information.
    pub fn duplicate(&self) -> (r: LinkedKeyInfo)
        ensures
            r@ == self@,
    {
        match self {
            LinkedKeyInfo::Unique(d) => LinkedKeyInfo::Unique(*d),
            LinkedKeyInfo::Group(dids) => {
                let mut out: Vec<IdentityId> = Vec::new();
                let mut i: usize = 0;
                while i < dids.len()
                    invariant
                        i <= dids@.len(),
                        out@ == dids@.take(i as int),
                    decreases dids@.len() - i,
                {
                    out.push(dids[i]);
                    assert(dids@.take(i + 1) =~= dids@.take(i as int).push(dids@[i as int]));
                    i += 1;
                }
                assert(dids@.take(dids@.len() as int) =~= dids@);
                LinkedKeyInfo::Group(out)
            },
        }
    }
}

impl Module {
    /// The record of `did`; the default record where there is none.
    pub fn did_records(&self, did: IdentityId) -> (r: DidRecord)
        requires
            self.wf(),
        ensures
            r@ == self@.did_record(did),
    {
        match self.did_records.get(&did) {
            Some(record) => record.duplicate(),
            None => DidRecord::default(),
        }
    }

    /// The identities that `key` is linked to, where it is linked to any.
    pub fn key_to_identity_ids(&self, key: &AccountKey) -> (r: Option<LinkedKeyInfo>)
        requires
            self.wf(),
        ensures
            match r {
                Some(info) => self@.key_to_identity_ids.contains_key(*key) && info@
                    == self@.key_to_identity_ids[*key],
                None => !self@.key_to_identity_ids.contains_key(*key),
            },
    {
        match self.key_to_identity_ids.get(key) {
            Some(info) => Some(info.duplicate()),
            None => None,
        }
    }

    /// The invitations that `signer` has received.
    pub fn pre_authorized_join_did(&self, signer: &Signatory) -> (r: Invitations)
        requires
            self.wf(),
        ensures
            r@ == self@.invitations(*signer),
    {
        match self.pre_authorized_join_did.get(signer) {
            Some(invitations) => {
                let ghost all = invitations@;
                let mut out: Vec<PreAuthorizedKeyInfo> = Vec::new();
                let mut i: usize = 0;
                while i < invitations.list.len()
                    invariant
                        i <= invitations.list@.len(),
                        all == invitations@,
                        (Invitations { list: out })@ == all.take(i as int),
                    decreases invitations.list@.len() - i,
                {
                    let ghost so_far = (Invitations { list: out })@;
                    out.push(
                        PreAuthorizedKeyInfo {
                            signing_item: invitations.list[i].signing_item.duplicate(),
                            target_id: invitations.list[i].target_id,
                        },
                    );
                    assert((Invitations { list: out })@ =~= so_far.push(all[i as int]));
                    assert(all.take(i + 1) =~= all.take(i as int).push(all[i as int]));
                    i += 1;
                }
                assert(all.take(all.len() as int) =~= all);
                Invitations { list: out }
            },
            None => {
                let r = Invitations { list: Vec::new() };
                assert(r@ =~= Seq::empty());
                r
            },
        }
    }

    /// Whether `did` counts as validated.
    pub fn has_valid_kyc(&self, did: IdentityId) -> (r: bool)
        requires
            self.wf(),
        ensures
            r == (self@.kyc_validation.contains_key(did) && self@.kyc_validation[did]),
    {
        match self.kyc_validation.get(&did) {
            Some(b) => *b,
            None => false,
        }
    }

    /// Checks that an external key belongs to at most one identity: whether
    /// `key` can be linked to one more identity as a key of kind
    /// `signer_type`.
    pub fn can_key_be_linked_to_did(&self, key: &AccountKey, signer_type: SignerType) -> (r: bool)
        requires
            self.wf(),
        ensures
            r == self@.key_linkable(*key, signer_type),
    {
        match self.key_to_identity_ids.get(key) {
            Some(info) => match info {
                LinkedKeyInfo::Unique(_) => false,
                LinkedKeyInfo::Group(_) => signer_type != SignerType::External,
            },
            None => true,
        }
    }

    /// Links `key` to `did` as a key of kind `key_type`. Does nothing where
    /// the key cannot be linked.
    pub fn link_key_to_did(&mut self, key: &AccountKey, key_type: SignerType, did: IdentityId)
        requires
            old(self).wf(),
        ensures
            final(self).wf(),
            final(self)@ == old(self)@.key_linked(*key, key_type, did),
    {
        match self.key_to_identity_ids.remove(key) {
            Some(info) => match info {
                LinkedKeyInfo::Group(mut dids) => {
                    let ghost before = dids@;
                    let mut present = false;
                    let mut i: usize = 0;
                    while i < dids.len()
                        invariant
                            i <= dids@.len(),
                            dids@ == before,
                            present == exists|j: int| 0 <= j < i && before[j] == did,
                        decreases dids@.len() - i,
                    {
                        if dids[i].same(&did) {
                            present = true;
                        }
                        i += 1;
                    }
                    if !present && key_type != SignerType::External {
                        let mut at: usize = 0;
                        assert(before.skip(0) =~= before);
                        while at < dids.len() && id_less(&dids[at], &did)
                            invariant
                                at <= dids@.len(),
                                dids@ == before,
                                place(before, did) == at + place(before.skip(at as int), did),
                            decreases dids@.len() - at,
                        {
                            assert(before.skip(at as int).drop_first() =~= before.skip(at + 1));
                            at += 1;
                        }
                        dids.insert(at, did);
                    }
                    self.key_to_identity_ids.insert(*key, LinkedKeyInfo::Group(dids));
                    assert(self@.key_to_identity_ids =~= old(self)@.key_linked(
                        *key,
                        key_type,
                        did,
                    ).key_to_identity_ids);
                },
                LinkedKeyInfo::Unique(d) => {
                    self.key_to_identity_ids.insert(*key, LinkedKeyInfo::Unique(d));
                    assert(self@.key_to_identity_ids =~= old(self)@.key_to_identity_ids);
                },
            },
            None => {
                let linked_key_info = match key_type {
                    SignerType::External => LinkedKeyInfo::Unique(did),
                    _ => {
                        let mut v: Vec<IdentityId> = Vec::new();
                        v.push(did);
                        assert(v@ =~= seq![did]);
                        LinkedKeyInfo::Group(v)
                    },
                };
                self.key_to_identity_ids.insert(*key, linked_key_info);
                assert(self@.key_to_identity_ids =~= old(self)@.key_linked(
                    *key,
                    key_type,
                    did,
                ).key_to_identity_ids);
            },
        }
    }

    /// Unlinks `key` from `did`. The key is forgotten where no identity is
    /// left for it.
    pub fn unlink_key_to_did(&mut self, key: &AccountKey, did: IdentityId)
        requires
            old(self).wf(),
        ensures
            final(self).wf(),
            final(self)@ == old(self)@.key_unlinked(*key, did),
    {
        match self.key_to_identity_ids.remove(key) {
            Some(info) => match info {
                LinkedKeyInfo::Unique(_) => {},
                LinkedKeyInfo::Group(dids) => {
                    let mut rest: Vec<IdentityId> = Vec::new();
                    let mut i: usize = 0;
                    while i < dids.len()
                        invariant
                            i <= dids@.len(),
                            rest@ == without(dids@.take(i as int), did),
                        decreases dids@.len() - i,
                    {
                        assert(dids@.take(i + 1).drop_last() =~= dids@.take(i as int));
                        if !dids[i].same(&did) {
                            rest.push(dids[i]);
                        }
                        i += 1;
                    }
                    assert(dids@.take(dids@.len() as int) =~= dids@);
                    if rest.len() != 0 {
                        self.key_to_identity_ids.insert(*key, LinkedKeyInfo::Group(rest));
                        assert(self@.key_to_identity_ids =~= old(self)@.key_unlinked(
                            *key,
                            did,
                        ).key_to_identity_ids);
                    }
                },
            },
            None => {
                assert(self@.key_to_identity_ids =~= old(self)@.key_to_identity_ids);
            },
        }
    }

    /// The invitations of `list` but those to join `id`.
    fn drop_invitations(list: &Vec<PreAuthorizedKeyInfo>, id: IdentityId) -> (r: Invitations)
        ensures
            r@ == without_target((Invitations { list: *list })@, id),
    {
        let ghost all = (Invitations { list: *list })@;
        let mut rest: Vec<PreAuthorizedKeyInfo> = Vec::new();
        let mut i: usize = 0;
        while i < list.len()
            invariant
                i <= list@.len(),
                all == (Invitations { list: *list })@,
                (Invitations { list: rest })@ == without_target(all.take(i as int), id),
            decreases list@.len() - i,
        {
            assert(all.take(i + 1).drop_last() =~= all.take(i as int));
            let ghost before = (Invitations { list: rest })@;
            if !list[i].target_id.same(&id) {
                rest.push(
                    PreAuthorizedKeyInfo {
                        signing_item: list[i].signing_item.duplicate(),
                        target_id: list[i].target_id,
                    },
                );
                assert((Invitations { list: rest })@ =~= before.push(all[i as int]));
            }
            i += 1;
        }
        assert(all.take(list@.len() as int) =~= all);
        Invitations { list: rest }
    }

    /// Invites the signatory of `signing_item` to join the identity `id`.
    pub fn add_pre_join_identity(&mut self, signing_item: &SigningItem, id: IdentityId)
        requires
            old(self).wf(),
        ensures
            final(self).wf(),
            final(self)@ == old(self)@.invited(signing_item@, id),
    {
        let signer = signing_item.signer;
        let new_pre_auth = PreAuthorizedKeyInfo {
            signing_item: signing_item.duplicate(),
            target_id: id,
        };
        let mut invitations = match self.pre_authorized_join_did.remove(&signer) {
            Some(existing) => Self::drop_invitations(&existing.list, id),
            None => Invitations { list: Vec::new() },
        };
        let ghost before = invitations@;
        invitations.list.push(new_pre_auth);
        assert(invitations@ =~= before.push(
            PreAuthorizedKeyInfoView { signing_item: signing_item@, target_id: id },
        ));
        assert(before =~= without_target(old(self)@.invitations(signer), id));
        self.pre_authorized_join_did.insert(signer, invitations);
        assert(self@.pre_authorized_join_did =~= old(self)@.invited(
            signing_item@,
            id,
        ).pre_authorized_join_did);
    }

    /// Withdraws the invitations of `signer` to join the identity `id`.
    pub fn remove_pre_join_identity(&mut self, signer: &Signatory, id: IdentityId)
        requires
            old(self).wf(),
        ensures
            final(self).wf(),
            final(self)@ == old(self)@.uninvited(*signer, id),
    {
        let rest = match self.pre_authorized_join_did.remove(signer) {
            Some(existing) => Self::drop_invitations(&existing.list, id),
            None => Invitations { list: Vec::new() },
        };
        assert(rest@ =~= without_target(old(self)@.invitations(*signer), id));
        if rest.list.len() != 0 {
            self.pre_authorized_join_did.insert(*signer, rest);
        }
        assert(self@.pre_authorized_join_did =~= old(self)@.uninvited(
            *signer,
            id,
        ).pre_authorized_join_did);
    }

    /// Checks that `sender_key` is the master key of `did` and that `did`
    /// exists, and gives the record of `did`.
    pub fn grant_check_only_master_key(&self, sender_key: &AccountKey, did: IdentityId) -> (r: Result<
        DidRecord,
        Error,
    >)
        requires
            self.wf(),
        ensures
            match r {
                Ok(record) => self@.master_key_check(*sender_key, did).is_ok() && record@
                    == self@.did_records[did],
                Err(e) => self@.master_key_check(*sender_key, did) == Err::<(), Error>(e),
            },
    {
        match self.did_records.get(&did) {
            Some(record) => {
                if !sender_key.same(&record.master_key) {
                    return Err(Error::OnlyMasterKey);
                }
                Ok(record.duplicate())
            },
            None => Err(Error::DidDoesNotExist),
        }
    }

    /// Freezes or unfreezes the signing keys of `did`. Only its master key
    /// can.
    pub fn set_frozen_signing_key_flags(&mut self, sender: AccountKey, did: IdentityId, freeze: bool) -> (r:
        Result<(), Error>)
        requires
            old(self).wf(),
        ensures
            final(self).wf(),
            r == old(self)@.master_key_check(sender, did),
            r.is_ok() ==> final(self)@ == (State {
                is_did_frozen: if freeze {
                    old(self)@.is_did_frozen.insert(did, true)
                } else {
                    old(self)@.is_did_frozen.remove(did)
                },
                ..old(self)@
            }),
            r.is_err() ==> final(self)@ == old(self)@,
    {
        if let Err(e) = self.grant_check_only_master_key(&sender, did) {
            return Err(e);
        }
        if freeze {
            self.is_did_frozen.insert(did, true);
        } else {
            self.is_did_frozen.remove(&did);
        }
        Ok(())
    }

    /// Disables all signing keys of `did`. Only its master key can.
    pub fn freeze_signing_keys(&mut self, sender: AccountKey, did: IdentityId) -> (r: Result<(), Error>)
        requires
            old(self).wf(),
        ensures
            final(self).wf(),
            r == old(self)@.master_key_check(sender, did),
            r.is_ok() ==> final(self)@ == (State {
                is_did_frozen: old(self)@.is_did_frozen.insert(did, true),
                ..old(self)@
            }),
            r.is_err() ==> final(self)@ == old(self)@,
    {
        self.set_frozen_signing_key_flags(sender, did, true)
    }

    /// Enables the signing keys of `did` again. Only its master key can.
    pub fn unfreeze_signing_keys(&mut self, sender: AccountKey, did: IdentityId) -> (r: Result<(), Error>)
        requires
            old(self).wf(),
        ensures
            final(self).wf(),
            r == old(self)@.master_key_check(sender, did),
            r.is_ok() ==> final(self)@ == (State {
                is_did_frozen: old(self)@.is_did_frozen.remove(did),
                ..old(self)@
            }),
            r.is_err() ==> final(self)@ == old(self)@,
    {
        self.set_frozen_signing_key_flags(sender, did, false)
    }

    /// Checks whether `signer` may act for `did` with all of `permissions`.
    #[verifier::loop_isolation(false)]
    pub fn is_signer_authorized_with_permissions(
        &self,
        did: IdentityId,
        signer: &Signatory,
        permissions: Vec<Permission>,
    ) -> (r: bool)
        requires
            self.wf(),
        ensures
            r == self@.signer_authorized_with(did, *signer, permissions@),
    {
        let frozen = self.is_did_frozen(did);
        match self.did_records.get(&did) {
            Some(record) => {
                if signer.same(&Signatory::AccountKey(record.master_key)) {
                    return true;
                }
                if signer.same(&Signatory::Identity(did)) {
                    return true;
                }
                if frozen {
                    return false;
                }
                match record.find_signer(signer) {
                    Some(at) => {
                        let item = &record.signing_items[at];
                        assert(record@.signing_items[at as int] == item@);
                        let mut j: usize = 0;
                        while j < permissions.len()
                            invariant
                                j <= permissions@.len(),
                                forall|k: int|
                                    0 <= k < j ==> item@.has_permission(#[trigger] permissions@[k]),
                            decreases permissions@.len() - j,
                        {
                            if !item.has_permission(permissions[j]) {
                                assert(!item@.has_permission(permissions@[j as int]));
                                return false;
                            }
                            j += 1;
                        }
                        true
                    },
                    None => false,
                }
            },
            None => {
                if signer.same(&Signatory::AccountKey(AccountKey::default())) {
                    return true;
                }
                if signer.same(&Signatory::Identity(did)) {
                    return true;
                }
                false
            },
        }
    }

    /// Registers `did` as the identity of `sender`, which becomes its master
    /// key, and invites the signatories of `signing_items` to join it.
    /// `extrinsic_count` is added to the counter of ids, from which and from
    /// the current block the caller has derived `did`.
    #[verifier::loop_isolation(false)]
    pub fn _register_did(
        &mut self,
        sender: AccountKey,
        signing_items: &Vec<SigningItem>,
        extrinsic_count: u32,
        did: IdentityId,
    ) -> (r: Result<(), Error>)
        requires
            old(self).wf(),
            old(self)@.nonce + extrinsic_count + 7 <= u64::MAX,
        ensures
            final(self).wf(),
            r == old(self)@.register_did_check(sender, crate::identity::items_view(signing_items@), did),
            r.is_ok() ==> final(self)@ == old(self)@.did_registered(
                sender,
                crate::identity::items_view(signing_items@),
                extrinsic_count,
                did,
            ),
            r.is_err() ==> final(self)@ == old(self)@,
    {
        let ghost items = crate::identity::items_view(signing_items@);
        if !self.can_key_be_linked_to_did(&sender, SignerType::External) {
            return Err(Error::MasterKeyAlreadyLinked);
        }
        let master = Signatory::AccountKey(sender);
        let mut i: usize = 0;
        while i < signing_items.len()
            invariant
                i <= signing_items@.len(),
                items == crate::identity::items_view(signing_items@),
                forall|j: int| 0 <= j < i ==> (#[trigger] items[j]).signer != master,
            decreases signing_items@.len() - i,
        {
            if signing_items[i].signer.same(&master) {
                assert(items[i as int].signer == master);
                return Err(Error::SigningKeysContainMasterKey);
            }
            i += 1;
        }
        if self.did_records.contains_key(&did) {
            return Err(Error::DidMustBeUnique);
        }
        let mut k: usize = 0;
        while k < signing_items.len()
            invariant
                k <= signing_items@.len(),
                self.wf(),
                self@ == old(self)@,
                items == crate::identity::items_view(signing_items@),
                !self@.some_unlinkable(items, k as int),
            decreases signing_items@.len() - k,
        {
            if let Signatory::AccountKey(key) = signing_items[k].signer {
                if !self.can_key_be_linked_to_did(&key, signing_items[k].signer_type) {
                    assert(items[k as int].signer == Signatory::AccountKey(key));
                    assert(self@.unlinkable(items[k as int]));
                    assert(self@.some_unlinkable(items, items.len() as int));
                    return Err(Error::AlreadyLinked);
                }
            }
            assert(!self@.some_unlinkable(items, k + 1)) by {
                if self@.some_unlinkable(items, k + 1) {
                    let w = choose|w: int|
                        0 <= w < k + 1 && w < items.len() && self@.unlinkable(#[trigger] items[w]);
                    if w < k {
                        assert(self@.some_unlinkable(items, k as int));
                    }
                }
            }
            k += 1;
        }
        self.multi_purpose_nonce = self.multi_purpose_nonce + (extrinsic_count as u64) + 7;
        proof {
            crate::identity::lists::lemma_links_nonce_grows(old(self)@, self.multi_purpose_nonce);
        }
        self.link_key_to_did(&sender, SignerType::External, did);
        let ghost linked = self@;
        let mut m: usize = 0;
        while m < signing_items.len()
            invariant
                m <= signing_items@.len(),
                self.wf(),
                items == crate::identity::items_view(signing_items@),
                self@ == linked.invited_all(items, did, m as nat),
            decreases signing_items@.len() - m,
        {
            self.add_pre_join_identity(&signing_items[m], did);
            m += 1;
        }
        let record = DidRecord { master_key: sender, signing_items: Vec::new() };
        assert(record@.signing_items =~= Seq::empty());
        self.did_records.insert(did, record);
        self.kyc_validation.insert(did, true);
        Ok(())
    }

    /// Makes `new_key` the master key of `did`. Only the master key of
    /// `did` can, and only a key that belongs to no identity can become
    /// one.
    pub fn set_master_key(&mut self, sender: AccountKey, did: IdentityId, new_key: AccountKey) -> (r: Result<
        (),
        Error,
    >)
        requires
            old(self).wf(),
        ensures
            final(self).wf(),
            r == (if old(self)@.master_key_check(sender, did).is_err() {
                old(self)@.master_key_check(sender, did)
            } else if !old(self)@.key_linkable(new_key, SignerType::External) {
                Err(Error::MasterKeyNotUnique)
            } else {
                Ok(())
            }),
            r.is_ok() ==> final(self)@ == (State {
                did_records: old(self)@.did_records.insert(
                    did,
                    DidRecordView { master_key: new_key, ..old(self)@.did_records[did] },
                ),
                ..old(self)@
            }),
            r.is_err() ==> final(self)@ == old(self)@,
    {
        let mut record = match self.grant_check_only_master_key(&sender, did) {
            Ok(record) => record,
            Err(e) => { return Err(e); },
        };
        if !self.can_key_be_linked_to_did(&new_key, SignerType::External) {
            return Err(Error::MasterKeyNotUnique);
        }
        record.master_key = new_key;
        self.did_records.insert(did, record);
        Ok(())
    }
}

} // verus!
