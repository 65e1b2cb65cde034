//! The lists of authorizations and links stay doubly linked lists in order
//! through the operations of the registry.

use crate::identity::chain::Chain;
use crate::identity::State;
use crate::primitives::{Authorization, AuthorizationData, LinkDataView, LinkView, Signatory};
use vstd::prelude::*;

verus! {

/// The pointers of lists of links.
pub open spec fn link_chain_of(
    nonce: u64,
    links: Map<(Signatory, u64), LinkView>,
    last_link: Map<Signatory, u64>,
) -> Chain {
    Chain {
        nonce: nonce,
        pointers: Map::new(
            |k: (Signatory, u64)| links.contains_key(k),
            |k: (Signatory, u64)| (links[k].next_link, links[k].previous_link),
        ),
        last: last_link,
    }
}

/// The pointers of lists of authorizations.
pub open spec fn auth_chain_of(
    nonce: u64,
    authorizations: Map<(Signatory, u64), Authorization>,
    last_authorization: Map<Signatory, u64>,
) -> Chain {
    Chain {
        nonce: nonce,
        pointers: Map::new(
            |k: (Signatory, u64)| authorizations.contains_key(k),
            |k: (Signatory, u64)|
                (authorizations[k].next_authorization, authorizations[k].previous_authorization),
        ),
        last: last_authorization,
    }
}

impl State {
    /// The pointers of the lists of links.
    pub open spec fn link_chain(self) -> Chain {
        link_chain_of(self.nonce, self.links, self.last_link)
    }

    /// The pointers of the lists of authorizations.
    pub open spec fn auth_chain(self) -> Chain {
        auth_chain_of(self.nonce, self.authorizations, self.last_authorization)
    }

    /// The lists of links are doubly linked lists in order.
    pub open spec fn links_valid(self) -> bool {
        self.link_chain().valid()
    }

    /// The lists of authorizations are doubly linked lists in order.
    pub open spec fn auths_valid(self) -> bool {
        self.auth_chain().valid()
    }

    /// All lists of the registry are doubly linked lists in order.
    pub open spec fn lists_valid(self) -> bool {
        self.links_valid() && self.auths_valid()
    }
}

/// A chain in order stays in order when the counter grows.
pub proof fn lemma_chain_nonce_grows(c: Chain, nonce: u64)
    requires
        c.valid(),
        c.nonce <= nonce,
    ensures
        (Chain { nonce: nonce, ..c }).valid(),
{
    let d = Chain { nonce: nonce, ..c };
    assert forall|t: Signatory, i: u64| #[trigger] d.pointers.contains_key((t, i)) implies d.node_ok(
        t,
        i,
    ) by {
        assert(c.node_ok(t, i));
    }
    assert forall|t: Signatory| #[trigger] d.last_ok(t) by {
        assert(c.last_ok(t));
    }
}

/// The registry at genesis has all its lists in order.
pub proof fn law_genesis_lists_valid()
    ensures
        State::genesis().lists_valid(),
{
    let s = State::genesis();
    assert forall|t: Signatory| #[trigger] s.link_chain().last_ok(t) by {}
    assert forall|t: Signatory| #[trigger] s.auth_chain().last_ok(t) by {}
}

/// A growing counter leaves the lists of links in order.
pub proof fn lemma_links_nonce_grows(s: State, nonce: u64)
    requires
        s.links_valid(),
        s.nonce <= nonce,
    ensures
        (State { nonce: nonce, ..s }).links_valid(),
{
    lemma_chain_nonce_grows(s.link_chain(), nonce);
    assert((State { nonce: nonce, ..s }).link_chain() == Chain { nonce: nonce, ..s.link_chain() });
}

/// Adding a link keeps the lists of links in order, and those of
/// authorizations where they were. It makes one record, under the next id,
/// with the payload and expiry given, and changes the payload and the expiry
/// of no other.
pub proof fn law_add_link(s: State, target: Signatory, data: LinkDataView, expiry: Option<u64>)
    requires
        s.links_valid(),
        s.nonce < u64::MAX,
    ensures
        s.add_link(target, data, expiry).links_valid(),
        s.auths_valid() ==> s.add_link(target, data, expiry).auths_valid(),
        s.add_link(target, data, expiry).nonce == s.nonce + 1,
        !s.links.contains_key((target, s.next_id())),
        s.add_link(target, data, expiry).links.dom() == s.links.dom().insert((target, s.next_id())),
        s.add_link(target, data, expiry).links[(target, s.next_id())].link_data == data,
        s.add_link(target, data, expiry).links[(target, s.next_id())].expiry == expiry,
        forall|k: (Signatory, u64)| #[trigger]
            s.links.contains_key(k) ==> s.add_link(target, data, expiry).links[k].link_data
                == s.links[k].link_data && s.add_link(target, data, expiry).links[k].expiry
                == s.links[k].expiry,
        s.add_link(target, data, expiry).authorizations == s.authorizations,
{
    let after = s.add_link(target, data, expiry);
    let c = s.link_chain();
    c.lemma_add_valid(target);
    let last = s.last_link_of(target);
    assert(c.last_of(target) == last);
    assert(c.last_ok(target));
    if last > 0 {
        assert(s.links.contains_key((target, last)));
    }
    assert(after.link_chain().pointers =~= c.add(target).pointers);
    assert(after.link_chain() == c.add(target));
    assert(after.links.dom() =~= s.links.dom().insert((target, s.next_id())));
    if s.auths_valid() {
        lemma_chain_nonce_grows(s.auth_chain(), after.nonce);
        assert(after.auth_chain() == Chain { nonce: after.nonce, ..s.auth_chain() });
    }
}

/// The pointers of the lists of links after a link was removed.
proof fn lemma_remove_link_chain(s: State, target: Signatory, id: u64)
    requires
        s.links_valid(),
        s.links.contains_key((target, id)),
    ensures
        s.remove_link(target, id).link_chain() == s.link_chain().remove(
            target,
            id,
            s.links[(target, id)].next_link,
            s.links[(target, id)].previous_link,
        ),
{
    let c = s.link_chain();
    let l = s.links[(target, id)];
    assert(c.pointers.contains_key((target, id)));
    assert(c.node_ok(target, id));
    let after = s.remove_link(target, id);
    assert(after.link_chain().pointers =~= c.remove(
        target,
        id,
        l.next_link,
        l.previous_link,
    ).pointers);
}

/// Removing a link keeps the lists of links in order, and those of
/// authorizations as they were. It takes that record away and changes the
/// payload and the expiry of no other.
pub proof fn law_remove_link(s: State, target: Signatory, id: u64)
    requires
        s.links_valid(),
    ensures
        s.remove_link(target, id).links_valid(),
        s.remove_link(target, id).auth_chain() == s.auth_chain(),
        s.remove_link(target, id).nonce == s.nonce,
        s.remove_link(target, id).links.dom() == s.links.dom().remove((target, id)),
        forall|k: (Signatory, u64)| #[trigger]
            s.remove_link(target, id).links.contains_key(k) ==> s.remove_link(
                target,
                id,
            ).links[k].link_data == s.links[k].link_data && s.remove_link(target, id).links[k].expiry
                == s.links[k].expiry,
        s.remove_link(target, id).authorizations == s.authorizations,
{
    let after = s.remove_link(target, id);
    if s.links.contains_key((target, id)) {
        lemma_remove_link_chain(s, target, id);
        let c = s.link_chain();
        assert(c.pointers.contains_key((target, id)));
        c.lemma_remove_valid(target, id);
        assert(after.links.dom() =~= s.links.dom().remove((target, id)));
    } else {
        assert(s.links.dom().remove((target, id)) =~= s.links.dom());
    }
}

/// Replacing the payload of a link keeps all lists as they were.
pub proof fn law_update_link(s: State, target: Signatory, id: u64, data: LinkDataView)
    ensures
        s.update_link(target, id, data).link_chain() == s.link_chain(),
        s.update_link(target, id, data).auth_chain() == s.auth_chain(),
        s.update_link(target, id, data).links.dom() == s.links.dom(),
{
    let after = s.update_link(target, id, data);
    assert(after.link_chain().pointers =~= s.link_chain().pointers);
    assert(after.links.dom() =~= s.links.dom());
}

/// Adding an authorization keeps the lists that were in order in order, and
/// makes one record, under the next id.
pub proof fn law_add_auth(
    s: State,
    from: Signatory,
    target: Signatory,
    data: AuthorizationData,
    expiry: Option<u64>,
)
    requires
        s.nonce < u64::MAX,
    ensures
        s.links_valid() ==> s.add_auth(from, target, data, expiry).links_valid(),
        s.auths_valid() ==> s.add_auth(from, target, data, expiry).auths_valid() && !s.authorizations.contains_key(
            (target, s.next_id()),
        ) && s.add_auth(from, target, data, expiry).authorizations.dom()
            == s.authorizations.dom().insert((target, s.next_id())),
        s.add_auth(from, target, data, expiry).nonce == s.nonce + 1,
        s.add_auth(from, target, data, expiry).links == s.links,
        s.add_auth(from, target, data, expiry).last_link == s.last_link,
{
    let after = s.add_auth(from, target, data, expiry);
    if s.auths_valid() {
        let c = s.auth_chain();
        c.lemma_add_valid(target);
        let last = s.last_auth(target);
        assert(c.last_of(target) == last);
        assert(c.last_ok(target));
        if last > 0 {
            assert(s.authorizations.contains_key((target, last)));
        }
        assert(after.auth_chain().pointers =~= c.add(target).pointers);
        assert(after.auth_chain() == c.add(target));
        assert(after.authorizations.dom() =~= s.authorizations.dom().insert((target, s.next_id())));
    }
    if s.links_valid() {
        lemma_chain_nonce_grows(s.link_chain(), after.nonce);
        assert(after.link_chain() == Chain { nonce: after.nonce, ..s.link_chain() });
    }
}

/// The pointers of the lists of authorizations after an authorization was
/// removed between its own neighbours.
proof fn lemma_remove_auth_chain(s: State, target: Signatory, id: u64)
    requires
        s.auths_valid(),
        s.authorizations.contains_key((target, id)),
    ensures
        s.remove_auth(
            target,
            id,
            s.authorizations[(target, id)].next_authorization,
            s.authorizations[(target, id)].previous_authorization,
        ).auth_chain() == s.auth_chain().remove(
            target,
            id,
            s.authorizations[(target, id)].next_authorization,
            s.authorizations[(target, id)].previous_authorization,
        ),
{
    let c = s.auth_chain();
    let a = s.authorizations[(target, id)];
    assert(c.pointers.contains_key((target, id)));
    assert(c.node_ok(target, id));
    let after = s.remove_auth(target, id, a.next_authorization, a.previous_authorization);
    assert(after.auth_chain().pointers =~= c.remove(
        target,
        id,
        a.next_authorization,
        a.previous_authorization,
    ).pointers);
}

/// Removing an authorization, between whatever neighbours, leaves the
/// record gone and the lists of links as they were.
pub proof fn law_remove_auth_gone(s: State, target: Signatory, id: u64, next: u64, previous: u64)
    ensures
        !s.remove_auth(target, id, next, previous).authorizations.contains_key((target, id)),
        s.remove_auth(target, id, next, previous).nonce == s.nonce,
        s.remove_auth(target, id, next, previous).links == s.links,
        s.remove_auth(target, id, next, previous).last_link == s.last_link,
{
}

/// Removing an authorization between its own neighbours keeps the lists of
/// authorizations in order, and takes that record away and no other. Between
/// other ids the removal is carried out all the same, and the list is left
/// broken.
pub proof fn law_remove_auth(s: State, target: Signatory, id: u64)
    requires
        s.auths_valid(),
        s.authorizations.contains_key((target, id)),
    ensures
        s.remove_auth(
            target,
            id,
            s.authorizations[(target, id)].next_authorization,
            s.authorizations[(target, id)].previous_authorization,
        ).auths_valid(),
        s.remove_auth(
            target,
            id,
            s.authorizations[(target, id)].next_authorization,
            s.authorizations[(target, id)].previous_authorization,
        ).authorizations.dom() == s.authorizations.dom().remove((target, id)),
{
    let a = s.authorizations[(target, id)];
    let after = s.remove_auth(target, id, a.next_authorization, a.previous_authorization);
    lemma_remove_auth_chain(s, target, id);
    let c = s.auth_chain();
    assert(c.pointers.contains_key((target, id)));
    c.lemma_remove_valid(target, id);
    assert(after.authorizations.dom() =~= after.auth_chain().pointers.dom());
    assert(s.authorizations.dom() =~= c.pointers.dom());
}

/// Consuming an authorization leaves the lists of links as they were and
/// keeps the lists of authorizations in order where they were. Where it
/// succeeds the record is gone; where it fails nothing has changed.
pub proof fn law_consume_auth(s: State, from: Signatory, target: Signatory, id: u64, now: u64)
    ensures
        s.consume_auth(from, target, id, now).nonce == s.nonce,
        s.consume_auth(from, target, id, now).links == s.links,
        s.consume_auth(from, target, id, now).last_link == s.last_link,
        s.auths_valid() ==> s.consume_auth(from, target, id, now).auths_valid(),
        s.consume_auth_check(from, target, id, now).is_ok() ==> !s.consume_auth(
            from,
            target,
            id,
            now,
        ).authorizations.contains_key((target, id)),
        s.consume_auth_check(from, target, id, now).is_err() ==> s.consume_auth(from, target, id, now)
            == s,
{
    if s.consume_auth_check(from, target, id, now).is_ok() {
        let a = s.authorizations[(target, id)];
        law_remove_auth_gone(s, target, id, a.next_authorization, a.previous_authorization);
        if s.auths_valid() {
            law_remove_auth(s, target, id);
        }
    }
}

} // verus!
