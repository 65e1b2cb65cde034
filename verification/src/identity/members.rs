//! The signing items of an identity: how a signatory that was invited joins,
//! how signing items are removed, and what each may do.

use crate::error::Error;
use crate::identity::keys::without_target;
use crate::identity::{
    items_view, DidRecord, DidRecordView, LinkedKeyInfo, LinkedKeyInfoView, Module, Permission,
    PreAuthorizedKeyInfoView, SigningItem, SigningItemView, State,
};
use crate::primitives::{AccountKey, IdentityId, Signatory};
use crate::table::Key;
use vstd::prelude::*;

verus! {

impl Permission {
    /// The rank of the permission: the permissions are ordered as they are
    /// listed, custom permissions by their number.
    pub open spec fn rank(self) -> int {
        match self {
            Permission::Full => 0,
            Permission::Admin => 1,
            Permission::Operator => 2,
            Permission::SpendFunds => 3,
            Permission::Custom(n) => 4 + n,
        }
    }

    /// The rank of the permission.
    pub fn order(&self) -> (r: u16)
        ensures
            r == self.rank(),
    {
        match self {
            Permission::Full => 0,
            Permission::Admin => 1,
            Permission::Operator => 2,
            Permission::SpendFunds => 3,
            Permission::Custom(n) => 4 + (*n as u16),
        }
    }
}

/// How many of the first permissions of `list` in a row rank below `p`.
pub open spec fn rank_place(list: Seq<Permission>, p: Permission) -> int
    decreases list.len(),
{
    if list.len() == 0 || list[0].rank() >= p.rank() {
        0
    } else {
        1 + rank_place(list.drop_first(), p)
    }
}

/// The list with `p` put at its place, unless it is there.
pub open spec fn with_permission(list: Seq<Permission>, p: Permission) -> Seq<Permission> {
    if list.contains(p) {
        list
    } else {
        list.insert(rank_place(list, p), p)
    }
}

/// The first `n` of `permissions` in the order of their ranks, each once.
pub open spec fn normalized(permissions: Seq<Permission>, n: nat) -> Seq<Permission>
    decreases n,
{
    if n == 0 {
        Seq::empty()
    } else {
        with_permission(normalized(permissions, (n - 1) as nat), permissions[n - 1])
    }
}

/// Every permission of the list ranks below the ones after it.
pub open spec fn rank_increasing(list: Seq<Permission>) -> bool {
    forall|i: int, j: int| 0 <= i < j < list.len() ==> list[i].rank() < list[j].rank()
}

/// Two permissions of one rank are one permission.
pub proof fn lemma_rank_injective(a: Permission, b: Permission)
    ensures
        a.rank() == b.rank() ==> a == b,
{
}

/// The place of a permission is within the list; everything before it ranks
/// below the permission, and what stands at it does not.
pub proof fn lemma_rank_place(list: Seq<Permission>, p: Permission)
    ensures
        0 <= rank_place(list, p) <= list.len(),
        forall|j: int| 0 <= j < rank_place(list, p) ==> list[j].rank() < p.rank(),
        rank_place(list, p) < list.len() ==> list[rank_place(list, p)].rank() >= p.rank(),
    decreases list.len(),
{
    if list.len() != 0 && list[0].rank() < p.rank() {
        let rest = list.drop_first();
        lemma_rank_place(rest, p);
        assert forall|j: int| 0 <= j < rank_place(list, p) implies list[j].rank() < p.rank() by {
            if j > 0 {
                assert(rest[j - 1] == list[j]);
            }
        }
        if rank_place(list, p) < list.len() {
            assert(rest[rank_place(rest, p)] == list[rank_place(list, p)]);
        }
    }
}

/// A list in the order of ranks with one more permission is in the order
/// of ranks and holds the permissions of the list and that one, and no
/// other.
pub proof fn lemma_with_permission(list: Seq<Permission>, p: Permission)
    requires
        rank_increasing(list),
    ensures
        rank_increasing(with_permission(list, p)),
        forall|x: Permission| with_permission(list, p).contains(x) <==> list.contains(x) || x == p,
{
    let out = with_permission(list, p);
    if !list.contains(p) {
        lemma_rank_place(list, p);
        let at = rank_place(list, p);
        assert(out[at] == p);
        assert forall|k: int| 0 <= k < out.len() && k != at implies out[k] == list[if k < at {
            k
        } else {
            k - 1
        }] by {}
        assert forall|i: int, j: int| 0 <= i < j < out.len() implies out[i].rank()
            < out[j].rank() by {
            if j == at {
                assert(out[i] == list[i]);
            } else if i == at {
                let after = list[j - 1];
                assert(out[j] == after);
                let first = list[at];
                assert(list.contains(first));
                lemma_rank_injective(first, p);
                if j - 1 > at {
                    assert(first.rank() < after.rank());
                }
            } else {
                let a0 = if i < at {
                    i
                } else {
                    i - 1
                };
                let b0 = if j < at {
                    j
                } else {
                    j - 1
                };
                assert(out[i] == list[a0]);
                assert(out[j] == list[b0]);
            }
        }
        assert forall|x: Permission| out.contains(x) <==> list.contains(x) || x == p by {
            if out.contains(x) {
                let k = choose|k: int| 0 <= k < out.len() && out[k] == x;
                if k != at {
                    assert(list.contains(x));
                }
            }
            if list.contains(x) {
                let k = choose|k: int| 0 <= k < list.len() && list[k] == x;
                let k1 = if k < at {
                    k
                } else {
                    k + 1
                };
                assert(out[k1] == x);
            }
        }
    }
}

/// The normalized list is in the strict order of ranks and holds exactly the
/// permissions of the input: what sorting the input and dropping what
/// repeats gives.
pub proof fn law_normalized(permissions: Seq<Permission>, n: nat)
    requires
        n <= permissions.len(),
    ensures
        rank_increasing(normalized(permissions, n)),
        forall|x: Permission|
            normalized(permissions, n).contains(x) <==> permissions.take(n as int).contains(x),
    decreases n,
{
    if n == 0 {
        assert forall|x: Permission| !normalized(permissions, 0).contains(x) by {}
        assert forall|x: Permission| !permissions.take(0).contains(x) by {}
    } else {
        let p = (n - 1) as nat;
        law_normalized(permissions, p);
        let before = normalized(permissions, p);
        lemma_with_permission(before, permissions[n - 1]);
        let last = permissions[n - 1];
        let whole = permissions.take(n as int);
        let part = permissions.take(p as int);
        assert(whole[n - 1] == last);
        assert forall|x: Permission|
            normalized(permissions, n).contains(x) <==> permissions.take(n as int).contains(x) by {
            assert(normalized(permissions, n) == with_permission(before, last));
            assert(with_permission(before, last).contains(x) <==> before.contains(x) || x == last);
            assert(before.contains(x) <==> part.contains(x));
            if whole.contains(x) {
                let k = choose|k: int| 0 <= k < whole.len() && whole[k] == x;
                if k < p {
                    assert(part[k] == x);
                    assert(part.contains(x));
                }
            }
            if part.contains(x) {
                let k = choose|k: int| 0 <= k < part.len() && part[k] == x;
                assert(whole[k] == x);
                assert(whole.contains(x));
            }
            if x == last {
                assert(whole.contains(x));
            }
        }
    }
}

/// The permissions in the order of their ranks, each once.
pub fn normalize(permissions: &Vec<Permission>) -> (r: Vec<Permission>)
    ensures
        r@ == normalized(permissions@, permissions@.len()),
        rank_increasing(r@),
        forall|x: Permission| r@.contains(x) <==> permissions@.contains(x),
{
    proof {
        law_normalized(permissions@, permissions@.len());
        assert(permissions@.take(permissions@.len() as int) =~= permissions@);
    }
    let mut out: Vec<Permission> = Vec::new();
    let mut i: usize = 0;
    assert(out@ =~= normalized(permissions@, 0));
    while i < permissions.len()
        invariant
            i <= permissions@.len(),
            out@ == normalized(permissions@, i as nat),
        decreases permissions@.len() - i,
    {
        let p = permissions[i];
        let ghost list = out@;
        let mut present = false;
        let mut j: usize = 0;
        while j < out.len()
            invariant
                j <= out@.len(),
                out@ == list,
                present == exists|k: int| 0 <= k < j && list[k] == p,
            decreases out@.len() - j,
        {
            if out[j] == p {
                present = true;
            }
            j += 1;
        }
        if !present {
            let mut at: usize = 0;
            assert(list.skip(0) =~= list);
            while at < out.len() && out[at].order() < p.order()
                invariant
                    at <= out@.len(),
                    out@ == list,
                    rank_place(list, p) == at + rank_place(list.skip(at as int), p),
                decreases out@.len() - at,
            {
                assert(list.skip(at as int).drop_first() =~= list.skip(at + 1));
                at += 1;
            }
            out.insert(at, p);
        }
        i += 1;
    }
    out
}

/// The signing items of `items` whose signatory is not among `signers`.
pub open spec fn items_without(items: Seq<SigningItemView>, signers: Seq<Signatory>) -> Seq<
    SigningItemView,
>
    decreases items.len(),
{
    if items.len() == 0 {
        Seq::empty()
    } else if signers.contains(items.last().signer) {
        items_without(items.drop_last(), signers)
    } else {
        items_without(items.drop_last(), signers).push(items.last())
    }
}

/// The index of the first invitation of `list` to join `target`, counted
/// from `from`; the length of the list where there is none.
pub open spec fn invitation_index(list: Seq<PreAuthorizedKeyInfoView>, target: IdentityId, from: int) -> int
    decreases list.len() - from,
{
    if from < 0 || from >= list.len() {
        list.len() as int
    } else if list[from].target_id == target {
        from
    } else {
        invitation_index(list, target, from + 1)
    }
}

impl SigningItem {
    /// Whether the two signing items are the same in everything.
    pub fn same_as(&self, other: &SigningItem) -> (r: bool)
        ensures
            r == (self@ == other@),
    {
        if !self.signer.same(&other.signer) {
            return false;
        }
        if self.signer_type != other.signer_type {
            return false;
        }
        if self.permissions.len() != other.permissions.len() {
            return false;
        }
        let mut i: usize = 0;
        while i < self.permissions.len()
            invariant
                i <= self.permissions@.len(),
                self.permissions@.len() == other.permissions@.len(),
                forall|j: int| 0 <= j < i ==> self.permissions@[j] == other.permissions@[j],
            decreases self.permissions@.len() - i,
        {
            if self.permissions[i] != other.permissions[i] {
                return false;
            }
            i += 1;
        }
        assert(self.permissions@ =~= other.permissions@);
        true
    }
}

impl DidRecordView {
    /// The record with `item` as its last signing item, unless it has the
    /// item already.
    pub open spec fn with_item(self, item: SigningItemView) -> DidRecordView {
        if self.signing_items.contains(item) {
            self
        } else {
            DidRecordView { signing_items: self.signing_items.push(item), ..self }
        }
    }

    /// The record without the signing items of `signers`.
    pub open spec fn without_signers(self, signers: Seq<Signatory>) -> DidRecordView {
        DidRecordView { signing_items: items_without(self.signing_items, signers), ..self }
    }

    /// The record after the signing item of `signer` was given
    /// `permissions`: the item is the last one, and the only one of
    /// `signer`. Unchanged where `signer` has no signing item.
    pub open spec fn with_permissions(self, signer: Signatory, permissions: Seq<Permission>) -> DidRecordView {
        let i = self.signer_index(signer, 0);
        if i < self.signing_items.len() {
            DidRecordView {
                signing_items: items_without(self.signing_items, seq![signer]).push(
                    SigningItemView { permissions: permissions, ..self.signing_items[i] },
                ),
                ..self
            }
        } else {
            self
        }
    }
}

impl DidRecord {
    /// Whether the record has a signing item that is the same as `item` in
    /// everything.
    pub fn has_item(&self, item: &SigningItem) -> (r: bool)
        ensures
            r == self@.signing_items.contains(item@),
    {
        let mut i: usize = 0;
        while i < self.signing_items.len()
            invariant
                i <= self.signing_items@.len(),
                forall|j: int| 0 <= j < i ==> self@.signing_items[j] != item@,
            decreases self.signing_items@.len() - i,
        {
            if self.signing_items[i].same_as(item) {
                assert(self@.signing_items[i as int] == item@);
                return true;
            }
            i += 1;
        }
        false
    }

    /// Adds `item` as the last signing item, unless the record has it.
    pub fn add_signing_item(&mut self, item: SigningItem)
        ensures
            final(self)@ == old(self)@.with_item(item@),
    {
        if !self.has_item(&item) {
            self.signing_items.push(item);
            assert(self@.signing_items =~= old(self)@.signing_items.push(item@));
        }
    }

    /// The signing items whose signatory is not among `signers`.
    fn items_but(&self, signers: &Vec<Signatory>) -> (r: Vec<SigningItem>)
        ensures
            items_view(r@) == items_without(self@.signing_items, signers@),
    {
        let ghost all = self@.signing_items;
        let mut rest: Vec<SigningItem> = Vec::new();
        let mut i: usize = 0;
        assert(items_view(rest@) =~= items_without(all.take(0), signers@));
        while i < self.signing_items.len()
            invariant
                i <= self.signing_items@.len(),
                all == self@.signing_items,
                items_view(rest@) == items_without(all.take(i as int), signers@),
            decreases self.signing_items@.len() - i,
        {
            assert(all.take(i + 1).drop_last() =~= all.take(i as int));
            let ghost so_far = items_view(rest@);
            let mut hit = false;
            let mut j: usize = 0;
            while j < signers.len()
                invariant
                    j <= signers@.len(),
                    i < self.signing_items@.len(),
                    hit == exists|k: int|
                        0 <= k < j && signers@[k] == self.signing_items@[i as int].signer,
                decreases signers@.len() - j,
            {
                if signers[j].same(&self.signing_items[i].signer) {
                    hit = true;
                }
                j += 1;
            }
            assert(hit == signers@.contains(all[i as int].signer));
            if !hit {
                rest.push(self.signing_items[i].duplicate());
                assert(items_view(rest@) =~= so_far.push(all[i as int]));
            }
            i += 1;
        }
        assert(all.take(all.len() as int) =~= all);
        rest
    }

    /// Removes the signing items of `signers`.
    pub fn remove_signing_items(&mut self, signers: &Vec<Signatory>)
        ensures
            final(self)@ == old(self)@.without_signers(signers@),
    {
        let rest = self.items_but(signers);
        self.signing_items = rest;
    }
}

impl State {
    /// The registry after those of the first `n` of `items` that `did` does
    /// not have as signing items were invited to join it, in order.
    pub open spec fn invited_new(self, items: Seq<SigningItemView>, did: IdentityId, n: nat) -> State
        decreases n,
    {
        if n == 0 {
            self
        } else if self.did_record(did).signing_items.contains(items[n - 1]) {
            self.invited_new(items, did, (n - 1) as nat)
        } else {
            self.invited_new(items, did, (n - 1) as nat).invited(items[n - 1], did)
        }
    }

    /// Whether the master key `sender` of `did` may invite `items`, and if
    /// not, why.
    pub open spec fn add_signing_items_check(self, sender: AccountKey, did: IdentityId, items: Seq<SigningItemView>) -> Result<
        (),
        Error,
    > {
        if self.master_key_check(sender, did).is_err() {
            self.master_key_check(sender, did)
        } else if self.some_unlinkable(items, items.len() as int) {
            Err(Error::AlreadyLinked)
        } else {
            Ok(())
        }
    }

    /// The registry after the first `n` of `signers` lost their invitations
    /// to join `did`, and those that are keys their link to `did`.
    pub open spec fn released(self, signers: Seq<Signatory>, did: IdentityId, n: nat) -> State
        decreases n,
    {
        if n == 0 {
            self
        } else {
            let s = self.released(signers, did, (n - 1) as nat).uninvited(signers[n - 1], did);
            match signers[n - 1] {
                Signatory::AccountKey(k) => s.key_unlinked(k, did),
                Signatory::Identity(_) => s,
            }
        }
    }

    /// The registry after the signing items of `signers` were removed from
    /// `did`.
    pub open spec fn signing_items_removed(self, did: IdentityId, signers: Seq<Signatory>) -> State {
        let s = self.released(signers, did, signers.len());
        State {
            did_records: s.did_records.insert(did, s.did_record(did).without_signers(signers)),
            ..s
        }
    }

    /// The signatory as which `sender` can join an identity: the key itself
    /// where it was invited and belongs to no identity, else the identity
    /// of which it is the master key, where that was invited.
    pub open spec fn joining_signer(self, sender: AccountKey) -> Result<Option<Signatory>, Error> {
        if self.pre_authorized_join_did.contains_key(Signatory::AccountKey(sender)) {
            if self.key_to_identity_ids.contains_key(sender) {
                Err(Error::AlreadyLinked)
            } else {
                Ok(Some(Signatory::AccountKey(sender)))
            }
        } else {
            match self.identity_of(sender) {
                Some(id) => if self.did_record(id).master_key == sender
                    && self.pre_authorized_join_did.contains_key(Signatory::Identity(id)) {
                    Ok(Some(Signatory::Identity(id)))
                } else {
                    Ok(None)
                },
                None => Ok(None),
            }
        }
    }

    /// Whether `sender` can join `target`, and if not, why.
    pub open spec fn join_check(self, sender: AccountKey, target: IdentityId) -> Result<(), Error> {
        match self.joining_signer(sender) {
            Err(e) => Err(e),
            Ok(None) => Err(Error::JoinUnauthorized),
            Ok(Some(signer)) => if invitation_index(self.invitations(signer), target, 0)
                < self.invitations(signer).len() {
                Ok(())
            } else {
                Err(Error::JoinUnauthorized)
            },
        }
    }

    /// The registry after `signer` has joined `target` on the strength of
    /// its first invitation: the invitations to join `target` are gone, a key
    /// is linked to `target`, and the signing item of the invitation is a
    /// signing item of `target`.
    pub open spec fn joined(self, signer: Signatory, target: IdentityId) -> State {
        let list = self.invitations(signer);
        let item = list[invitation_index(list, target, 0)].signing_item;
        let s = self.uninvited(signer, target);
        let linked = match signer {
            Signatory::AccountKey(k) => s.key_linked(k, item.signer_type, target),
            Signatory::Identity(_) => s,
        };
        State {
            did_records: linked.did_records.insert(target, linked.did_record(target).with_item(item)),
            ..linked
        }
    }

    /// Whether `sender` may withdraw the invitation of `signer` to join
    /// `target`: the master key of `target` may, and so may the invited key
    /// and the master key of the invited identity.
    pub open spec fn may_uninvite(self, sender: AccountKey, signer: Signatory, target: IdentityId) -> bool {
        ||| self.did_record(target).master_key == sender
        ||| match signer {
            Signatory::AccountKey(k) => sender == k,
            Signatory::Identity(id) => self.did_record(id).master_key == sender,
        }
    }

    /// The registry after the signing item of `signer` of `did` was given
    /// `permissions` in the order of their ranks, each once. The record of
    /// `did` is written in any case.
    pub open spec fn permissions_updated(self, did: IdentityId, signer: Signatory, permissions: Seq<Permission>) -> State {
        State {
            did_records: self.did_records.insert(
                did,
                self.did_record(did).with_permissions(
                    signer,
                    normalized(permissions, permissions.len()),
                ),
            ),
            ..self
        }
    }

    /// Whether the master key `sender` of `did` may set the permissions of
    /// `signer`, and if not, why.
    pub open spec fn set_permission_check(self, sender: AccountKey, did: IdentityId, signer: Signatory) -> Result<
        (),
        Error,
    > {
        if self.master_key_check(sender, did).is_err() {
            self.master_key_check(sender, did)
        } else if signer == Signatory::AccountKey(self.did_records[did].master_key) {
            Ok(())
        } else if self.did_records[did].signer_index(signer, 0)
            < self.did_records[did].signing_items.len() {
            Ok(())
        } else {
            Err(Error::InvalidSender)
        }
    }
}

impl Module {
    /// The record of `did`, taken out of the registry to be put back
    /// changed; the default record where there is none.
    fn take_record(&mut self, did: IdentityId) -> (r: DidRecord)
        requires
            old(self).wf(),
        ensures
            final(self).wf(),
            r@ == old(self)@.did_record(did),
            final(self)@ == (State { did_records: old(self)@.did_records.remove(did), ..old(self)@ }),
    {
        match self.did_records.remove(&did) {
            Some(r) => r,
            None => DidRecord::default(),
        }
    }

    /// Invites the signatories of `signing_items` to join `did`, but those
    /// that `did` has as signing items already. Only the master key of `did`
    /// can, and no key may be among them that cannot be linked to `did`.
    #[verifier::loop_isolation(false)]
    pub fn add_signing_items(&mut self, sender: AccountKey, did: IdentityId, signing_items: &Vec<SigningItem>) -> (r:
        Result<(), Error>)
        requires
            old(self).wf(),
        ensures
            final(self).wf(),
            r == old(self)@.add_signing_items_check(sender, did, items_view(signing_items@)),
            r.is_ok() ==> final(self)@ == old(self)@.invited_new(
                items_view(signing_items@),
                did,
                signing_items@.len(),
            ),
            r.is_err() ==> final(self)@ == old(self)@,
    {
        let ghost items = items_view(signing_items@);
        let record = match self.grant_check_only_master_key(&sender, did) {
            Ok(record) => record,
            Err(e) => { return Err(e); },
        };
        let mut k: usize = 0;
        while k < signing_items.len()
            invariant
                k <= signing_items@.len(),
                !self@.some_unlinkable(items, k as int),
            decreases signing_items@.len() - k,
        {
            if let Signatory::AccountKey(key) = signing_items[k].signer {
                if !self.can_key_be_linked_to_did(&key, signing_items[k].signer_type) {
                    assert(self@.unlinkable(items[k as int]));
                    assert(self@.some_unlinkable(items, items.len() as int));
                    return Err(Error::AlreadyLinked);
                }
            }
            assert(!self@.some_unlinkable(items, k + 1)) by {
                if self@.some_unlinkable(items, k + 1) {
                    let w = choose|w: int|
                        0 <= w < k + 1 && w < items.len() && self@.unlinkable(#[trigger] items[w]);
                    if w < k {
                        assert(self@.some_unlinkable(items, k as int));
                    }
                }
            }
            k += 1;
        }
        let mut m: usize = 0;
        while m < signing_items.len()
            invariant
                m <= signing_items@.len(),
                self.wf(),
                self@ == old(self)@.invited_new(items, did, m as nat),
            decreases signing_items@.len() - m,
        {
            if !record.has_item(&signing_items[m]) {
                self.add_pre_join_identity(&signing_items[m], did);
            }
            m += 1;
        }
        Ok(())
    }

    /// Removes the signing items of `signers_to_remove` from `did`, with
    /// their invitations and the links of their keys. Only the master key of
    /// `did` can.
    #[verifier::loop_isolation(false)]
    pub fn remove_signing_items(&mut self, sender: AccountKey, did: IdentityId, signers_to_remove: &Vec<Signatory>) -> (r:
        Result<(), Error>)
        requires
            old(self).wf(),
        ensures
            final(self).wf(),
            r == old(self)@.master_key_check(sender, did),
            r.is_ok() ==> final(self)@ == old(self)@.signing_items_removed(did, signers_to_remove@),
            r.is_err() ==> final(self)@ == old(self)@,
    {
        if let Err(e) = self.grant_check_only_master_key(&sender, did) {
            return Err(e);
        }
        let mut i: usize = 0;
        while i < signers_to_remove.len()
            invariant
                i <= signers_to_remove@.len(),
                self.wf(),
                self@ == old(self)@.released(signers_to_remove@, did, i as nat),
            decreases signers_to_remove@.len() - i,
        {
            self.remove_pre_join_identity(&signers_to_remove[i], did);
            if let Signatory::AccountKey(key) = signers_to_remove[i] {
                self.unlink_key_to_did(&key, did);
            }
            i += 1;
        }
        let ghost released = self@;
        let mut record = self.take_record(did);
        record.remove_signing_items(signers_to_remove);
        self.did_records.insert(did, record);
        assert(self@.did_records =~= released.did_records.insert(
            did,
            released.did_record(did).without_signers(signers_to_remove@),
        ));
        Ok(())
    }

    /// The key `sender` accepts its invitation, or that of the identity of
    /// which it is the master key, to join the identity `target_id`.
    pub fn authorize_join_to_identity(&mut self, sender: AccountKey, target_id: IdentityId) -> (r: Result<
        (),
        Error,
    >)
        requires
            old(self).wf(),
        ensures
            final(self).wf(),
            r == old(self)@.join_check(sender, target_id),
            r.is_ok() ==> final(self)@ == old(self)@.joined(
                old(self)@.joining_signer(sender).unwrap().unwrap(),
                target_id,
            ),
            r.is_err() ==> final(self)@ == old(self)@,
    {
        let signer_from_key = Signatory::AccountKey(sender);
        let signer = if self.pre_authorized_join_did.contains_key(&signer_from_key) {
            if self.key_to_identity_ids.contains_key(&sender) {
                return Err(Error::AlreadyLinked);
            }
            signer_from_key
        } else {
            match self.get_identity(&sender) {
                Some(sender_id) => {
                    let signer_from_id = Signatory::Identity(sender_id);
                    if self.is_master_key(sender_id, &sender)
                        && self.pre_authorized_join_did.contains_key(&signer_from_id) {
                        signer_from_id
                    } else {
                        return Err(Error::JoinUnauthorized);
                    }
                },
                None => { return Err(Error::JoinUnauthorized); },
            }
        };
        let found = match self.pre_authorized_join_did.get(&signer) {
            Some(invitations) => {
                let ghost list = invitations@;
                let mut found: Option<SigningItem> = None;
                let mut i: usize = 0;
                while i < invitations.list.len() && found.is_none()
                    invariant
                        i <= invitations.list@.len(),
                        list == invitations@,
                        found.is_none() ==> invitation_index(list, target_id, 0) == invitation_index(
                            list,
                            target_id,
                            i as int,
                        ),
                        match found {
                            Some(item) => invitation_index(list, target_id, 0) < list.len() && item@
                                == list[invitation_index(list, target_id, 0)].signing_item,
                            None => true,
                        },
                    decreases invitations.list@.len() - i + (if found.is_none() {
                        1nat
                    } else {
                        0nat
                    }),
                {
                    if invitations.list[i].target_id.same(&target_id) {
                        assert(list[i as int].target_id == target_id);
                        found = Some(invitations.list[i].signing_item.duplicate());
                    } else {
                        assert(list[i as int].target_id != target_id);
                        i += 1;
                    }
                }
                found
            },
            None => None,
        };
        let item = match found {
            Some(item) => item,
            None => { return Err(Error::JoinUnauthorized); },
        };
        self.remove_pre_join_identity(&signer, target_id);
        if let Signatory::AccountKey(key) = signer {
            self.link_key_to_did(&key, item.signer_type, target_id);
        }
        let ghost linked = self@;
        let mut record = self.take_record(target_id);
        record.add_signing_item(item);
        self.did_records.insert(target_id, record);
        assert(self@.did_records =~= linked.did_records.insert(
            target_id,
            linked.did_record(target_id).with_item(item@),
        ));
        Ok(())
    }

    /// Withdraws the invitation of `signer` to join `target_id`. The master
    /// key of `target_id` can, and so can the invited. A signatory that has
    /// joined stays.
    pub fn unauthorized_join_to_identity(&mut self, sender: AccountKey, signer: Signatory, target_id: IdentityId) -> (r:
        Result<(), Error>)
        requires
            old(self).wf(),
        ensures
            final(self).wf(),
            r == (if old(self)@.may_uninvite(sender, signer, target_id) {
                Ok::<(), Error>(())
            } else {
                Err(Error::JoinUnauthorized)
            }),
            r.is_ok() ==> final(self)@ == old(self)@.uninvited(signer, target_id),
            r.is_err() ==> final(self)@ == old(self)@,
    {
        let mut is_remove_allowed = self.is_master_key(target_id, &sender);
        if !is_remove_allowed {
            is_remove_allowed = match signer {
                Signatory::AccountKey(key) => sender.same(&key),
                Signatory::Identity(id) => self.is_master_key(id, &sender),
            };
        }
        if is_remove_allowed {
            self.remove_pre_join_identity(&signer, target_id);
            Ok(())
        } else {
            Err(Error::JoinUnauthorized)
        }
    }

    /// Gives the signing item of `signer` of `target_did` the permissions
    /// `permissions`, in the order of their ranks and each once. The caller
    /// has made every check.
    pub fn update_signing_item_permissions(&mut self, target_did: IdentityId, signer: &Signatory, permissions: Vec<Permission>)
        requires
            old(self).wf(),
        ensures
            final(self).wf(),
            final(self)@ == old(self)@.permissions_updated(target_did, *signer, permissions@),
    {
        let ordered = normalize(&permissions);
        let mut record = self.take_record(target_did);
        let ghost before = record@;
        match record.find_signer(signer) {
            Some(at) => {
                let mut item = record.signing_items[at].duplicate();
                assert(item@ == before.signing_items[at as int]);
                item.permissions = ordered;
                let mut only: Vec<Signatory> = Vec::new();
                only.push(*signer);
                assert(only@ =~= seq![*signer]);
                record.remove_signing_items(&only);
                let ghost rest = record@.signing_items;
                record.signing_items.push(item);
                assert(record@.signing_items =~= rest.push(item@));
            },
            None => {},
        }
        self.did_records.insert(target_did, record);
        assert(self@.did_records =~= old(self)@.permissions_updated(
            target_did,
            *signer,
            permissions@,
        ).did_records);
    }

    /// Sets the permissions of the signing item of `signer` of `did`. Only
    /// the master key of `did` can; for the master key itself nothing is to
    /// be set.
    pub fn set_permission_to_signer(&mut self, sender: AccountKey, did: IdentityId, signer: Signatory, permissions: Vec<Permission>) -> (r:
        Result<(), Error>)
        requires
            old(self).wf(),
        ensures
            final(self).wf(),
            r == old(self)@.set_permission_check(sender, did, signer),
            r.is_ok() ==> final(self)@ == (if signer == Signatory::AccountKey(
                old(self)@.did_records[did].master_key,
            ) {
                old(self)@
            } else {
                old(self)@.permissions_updated(did, signer, permissions@)
            }),
            r.is_err() ==> final(self)@ == old(self)@,
    {
        let record = match self.grant_check_only_master_key(&sender, did) {
            Ok(record) => record,
            Err(e) => { return Err(e); },
        };
        if signer.same(&Signatory::AccountKey(record.master_key)) {
            return Ok(());
        }
        if record.find_signer(&signer).is_some() {
            self.update_signing_item_permissions(did, &signer, permissions);
            Ok(())
        } else {
            Err(Error::InvalidSender)
        }
    }
}

} // verus!
