//! Ownership and its links: every registered ticker and every token has one
//! live link under its owner that says so, and a hand-over leaves nothing of
//! the old owner's behind. `State::linked` says so of a whole ledger. It
//! holds at genesis, and each operation of the ledger states when it keeps
//! it. It is no part of the ledger's validity: the registry is open to its
//! users, who may add and remove links of their own.

use crate::asset::state::State;
use crate::asset::types::{AssetTypeView, IdentifierTypeView, TickerRegistrationStatus};
use crate::error::Error;
use crate::identity;
use crate::identity::lists::{law_add_link, law_consume_auth, law_remove_link};
use crate::primitives::{IdentityId, LinkDataView, Signatory};
use crate::ticker::Ticker;
use vstd::prelude::*;

verus! {

/// What the link under `key` says of the ownership of a ticker or a token,
/// if there is such a link and it says anything of either.
pub open spec fn ownership_of(registry: identity::State, key: (Signatory, u64)) -> Option<LinkDataView> {
    if registry.links.contains_key(key) {
        match registry.links[key].link_data {
            LinkDataView::TickerOwned(ticker) => Some(LinkDataView::TickerOwned(ticker)),
            LinkDataView::TokenOwned(ticker) => Some(LinkDataView::TokenOwned(ticker)),
            _ => None,
        }
    } else {
        None
    }
}

/// The links of `a` and of `b` say the same of who holds which ticker and
/// who owns which token.
pub open spec fn owns_alike(a: identity::State, b: identity::State) -> bool {
    forall|key: (Signatory, u64)| #[trigger] ownership_of(b, key) == ownership_of(a, key)
}

/// No link of `signer` says that it holds a ticker or owns a token.
pub open spec fn owns_nothing(registry: identity::State, signer: Signatory) -> bool {
    forall|id: u64| #[trigger] ownership_of(registry, (signer, id)) is None
}

impl State {
    /// The registration of `ticker` names a live link under its owner that
    /// says that the owner holds the ticker, and no other link says of
    /// anyone that it holds the ticker.
    pub open spec fn ticker_linked(self, ticker: Ticker) -> bool {
        let r = self.registration(ticker);
        let key = (Signatory::Identity(r.owner), r.link_id);
        &&& self.tickers.contains_key(ticker) ==> self.identity.links.contains_key(key)
            && self.identity.links[key].link_data == LinkDataView::TickerOwned(ticker)
        &&& forall|k: (Signatory, u64)| #[trigger]
            self.identity.links.contains_key(k) && self.identity.links[k].link_data
                == LinkDataView::TickerOwned(ticker) ==> self.tickers.contains_key(ticker) && k
                == key
    }

    /// The token `ticker` names a live link under its owner that says that
    /// the owner owns the token, and no other link says of anyone that it
    /// owns the token.
    pub open spec fn token_linked(self, ticker: Ticker) -> bool {
        let t = self.token(ticker);
        let key = (Signatory::Identity(t.owner_did), t.link_id);
        &&& self.tokens.contains_key(ticker) ==> self.identity.links.contains_key(key)
            && self.identity.links[key].link_data == LinkDataView::TokenOwned(ticker)
        &&& forall|k: (Signatory, u64)| #[trigger]
            self.identity.links.contains_key(k) && self.identity.links[k].link_data
                == LinkDataView::TokenOwned(ticker) ==> self.tokens.contains_key(ticker) && k
                == key
    }

    /// A registration leaves the ticker with one live link under its new
    /// holder and none under the old, and the links of every other ticker and
    /// of every token as they were.
    pub proof fn law_register_links(
        self,
        ticker: Ticker,
        to: IdentityId,
        expiry: Option<u64>,
        other: Ticker,
    )
        requires
            self.identity.links_valid(),
            self.identity.nonce < u64::MAX,
            self.ticker_linked(ticker),
        ensures
            self.ticker_registered(ticker, to, expiry).identity.links_valid(),
            self.ticker_registered(ticker, to, expiry).ticker_linked(ticker),
            self.ticker_registered(ticker, to, expiry).registration(ticker).owner == to,
            self.tickers.contains_key(ticker) ==> !self.ticker_registered(
                ticker,
                to,
                expiry,
            ).identity.links.contains_key(
                (
                    Signatory::Identity(self.registration(ticker).owner),
                    self.registration(ticker).link_id,
                ),
            ),
            self.ticker_linked(other) ==> self.ticker_registered(ticker, to, expiry).ticker_linked(
                other,
            ),
            self.token_linked(other) ==> self.ticker_registered(ticker, to, expiry).token_linked(
                other,
            ),
    {
        let r = self.registration(ticker);
        let old_key = (Signatory::Identity(r.owner), r.link_id);
        let i0 = self.identity;
        let i1 = if self.tickers.contains_key(ticker) {
            i0.remove_link(old_key.0, old_key.1)
        } else {
            i0
        };
        if self.tickers.contains_key(ticker) {
            law_remove_link(i0, old_key.0, old_key.1);
            assert(i0.link_chain().pointers.contains_key(old_key));
            assert(i0.link_chain().node_ok(old_key.0, old_key.1));
        }
        law_add_link(i1, Signatory::Identity(to), LinkDataView::TickerOwned(ticker), expiry);
        let after = self.ticker_registered(ticker, to, expiry);
        let new_key = (Signatory::Identity(to), i1.next_id());
        assert(after.identity.links.contains_key(new_key));
        assert forall|k: (Signatory, u64)| #[trigger]
            after.identity.links.contains_key(k) && after.identity.links[k].link_data
                == LinkDataView::TickerOwned(ticker) implies k == new_key by {
            if k != new_key {
                assert(i1.links.contains_key(k));
                assert(i0.links.contains_key(k));
            }
        }
        if other != ticker {
            if self.ticker_linked(other) {
                let ro = self.registration(other);
                let ko = (Signatory::Identity(ro.owner), ro.link_id);
                assert forall|k: (Signatory, u64)| #[trigger]
                    after.identity.links.contains_key(k) && after.identity.links[k].link_data
                        == LinkDataView::TickerOwned(other) implies after.tickers.contains_key(other)
                    && k == ko by {
                    assert(i1.links.contains_key(k));
                    assert(i0.links.contains_key(k));
                }
                if self.tickers.contains_key(other) {
                    assert(i0.links.contains_key(ko));
                    assert(i1.links.contains_key(ko));
                }
            }
        }
        if self.token_linked(other) {
            let t = self.token(other);
            let ko = (Signatory::Identity(t.owner_did), t.link_id);
            assert forall|k: (Signatory, u64)| #[trigger]
                after.identity.links.contains_key(k) && after.identity.links[k].link_data
                    == LinkDataView::TokenOwned(other) implies after.tokens.contains_key(other) && k
                == ko by {
                assert(i1.links.contains_key(k));
                assert(i0.links.contains_key(k));
            }
            if self.tokens.contains_key(other) {
                assert(i0.links.contains_key(ko));
                assert(i1.links.contains_key(ko));
            }
        }
    }

    /// The hand-over of a ticker is all or nothing. Once the new holder has
    /// accepted, the authorization is gone and cannot be accepted again, the
    /// old holder's link is gone, and the new holder has the one live link
    /// that says who holds the ticker. The links of every other ticker and of
    /// every token are as they were.
    pub proof fn law_ticker_transfer_atomic(self, to: IdentityId, auth_id: u64, now: u64, later: u64, other: Ticker)
        requires
            self.identity.links_valid(),
            self.identity.nonce < u64::MAX,
            self.accept_ticker_transfer_check(to, auth_id, now).is_ok(),
            self.ticker_linked(self.transfer_ticker_of(to, auth_id).unwrap()),
        ensures
            ({
                let ticker = self.transfer_ticker_of(to, auth_id).unwrap();
                let old = self.registration(ticker);
                let after = self.ticker_transferred(ticker, to, auth_id, now);
                &&& after.identity.links_valid()
                &&& !after.identity.authorizations.contains_key((Signatory::Identity(to), auth_id))
                &&& after.accept_ticker_transfer_check(to, auth_id, later) == Err::<(), Error>(
                    Error::AuthorizationDoesNotExist,
                )
                &&& !after.identity.links.contains_key((Signatory::Identity(old.owner), old.link_id))
                &&& after.registration(ticker).owner == to
                &&& after.ticker_linked(ticker)
                &&& self.ticker_linked(other) ==> after.ticker_linked(other)
                &&& self.token_linked(other) ==> after.token_linked(other)
            }),
    {
        let ticker = self.transfer_ticker_of(to, auth_id).unwrap();
        let old = self.registration(ticker);
        let target = Signatory::Identity(to);
        let old_key = (Signatory::Identity(old.owner), old.link_id);
        let i0 = self.identity;
        law_consume_auth(i0, old_key.0, target, auth_id, now);
        let i1 = i0.consume_auth(old_key.0, target, auth_id, now);
        let consumed = State { identity: i1, ..self };
        assert(consumed.ticker_linked(ticker));
        assert(consumed.ticker_linked(other) == self.ticker_linked(other));
        assert(consumed.token_linked(other) == self.token_linked(other));
        let i2 = i1.remove_link(old_key.0, old_key.1);
        law_remove_link(i1, old_key.0, old_key.1);
        let unlinked = State { identity: i2, ..self };
        let after = self.ticker_transferred(ticker, to, auth_id, now);
        if self.tickers.contains_key(ticker) {
            assert(after == consumed.ticker_registered(ticker, to, old.expiry));
            consumed.law_register_links(ticker, to, old.expiry, other);
        } else {
            assert(i2 == i1) by {
                if i1.links.contains_key(old_key) {
                    assert(i1.link_chain().pointers.contains_key(old_key));
                    assert(i1.link_chain().node_ok(old_key.0, old_key.1));
                }
            }
            assert(after == consumed.ticker_registered(ticker, to, old.expiry));
            consumed.law_register_links(ticker, to, old.expiry, other);
            if after.identity.links.contains_key(old_key) {
                assert(after.identity.link_chain().pointers.contains_key(old_key));
                assert(after.identity.link_chain().node_ok(old_key.0, old_key.1));
            }
        }
    }

    /// The hand-over of a token is all or nothing. Once the new owner has
    /// accepted, the authorization is gone and cannot be accepted again, the
    /// old owner's links for ticker and token are gone, and the new owner has
    /// the one live link of each kind. The links of every other ticker and
    /// token are as they were.
    pub proof fn law_token_transfer_atomic(self, to: IdentityId, auth_id: u64, now: u64, later: u64, other: Ticker)
        requires
            self.identity.links_valid(),
            self.identity.nonce < u64::MAX - 1,
            self.accept_token_ownership_transfer_check(to, auth_id, now).is_ok(),
            self.ticker_linked(self.transfer_token_of(to, auth_id).unwrap()),
            self.token_linked(self.transfer_token_of(to, auth_id).unwrap()),
        ensures
            ({
                let ticker = self.transfer_token_of(to, auth_id).unwrap();
                let old = self.registration(ticker);
                let token = self.token(ticker);
                let after = self.token_ownership_transferred(ticker, to, auth_id, now);
                &&& after.identity.links_valid()
                &&& !after.identity.authorizations.contains_key((Signatory::Identity(to), auth_id))
                &&& after.accept_token_ownership_transfer_check(to, auth_id, later) == Err::<
                    (),
                    Error,
                >(Error::AuthorizationDoesNotExist)
                &&& !after.identity.links.contains_key((Signatory::Identity(old.owner), old.link_id))
                &&& !after.identity.links.contains_key(
                    (Signatory::Identity(token.owner_did), token.link_id),
                )
                &&& after.registration(ticker).owner == to
                &&& after.token(ticker).owner_did == to
                &&& after.ticker_linked(ticker)
                &&& after.token_linked(ticker)
                &&& other != ticker && self.ticker_linked(other) ==> after.ticker_linked(other)
                &&& other != ticker && self.token_linked(other) ==> after.token_linked(other)
            }),
    {
        let ticker = self.transfer_token_of(to, auth_id).unwrap();
        let old = self.registration(ticker);
        let token = self.token(ticker);
        let target = Signatory::Identity(to);
        let kt = (Signatory::Identity(old.owner), old.link_id);
        let kk = (Signatory::Identity(token.owner_did), token.link_id);
        let i0 = self.identity;
        law_consume_auth(i0, kk.0, target, auth_id, now);
        let i1 = i0.consume_auth(kk.0, target, auth_id, now);
        law_remove_link(i1, kt.0, kt.1);
        let i2 = i1.remove_link(kt.0, kt.1);
        law_remove_link(i2, kk.0, kk.1);
        let i3 = i2.remove_link(kk.0, kk.1);
        law_add_link(i3, target, LinkDataView::TickerOwned(ticker), None);
        let i4 = i3.add_link(target, LinkDataView::TickerOwned(ticker), None);
        law_add_link(i4, target, LinkDataView::TokenOwned(ticker), None);
        let i5 = i4.add_link(target, LinkDataView::TokenOwned(ticker), None);
        let n1 = (target, i3.next_id());
        let n2 = (target, i4.next_id());
        let after = self.token_ownership_transferred(ticker, to, auth_id, now);
        assert(after.identity == i5);
        assert(i0.links.contains_key(kk));
        assert(i0.link_chain().pointers.contains_key(kk));
        assert(i0.link_chain().node_ok(kk.0, kk.1));
        if i0.links.contains_key(kt) {
            assert(i0.link_chain().pointers.contains_key(kt));
            assert(i0.link_chain().node_ok(kt.0, kt.1));
        }
        assert(kt != n1 && kt != n2 && kk != n1 && kk != n2) by {
            if !self.tickers.contains_key(ticker) {
                assert(old.link_id == 0);
            }
        }
        assert(i5.links.contains_key(n1));
        assert(i5.links.contains_key(n2));
        assert(i5.links[n1].link_data == LinkDataView::TickerOwned(ticker));
        assert forall|k: (Signatory, u64)| #[trigger]
            i5.links.contains_key(k) && k != n1 && k != n2 implies i0.links.contains_key(k) && k != kt
            && k != kk && i5.links[k].link_data == i0.links[k].link_data by {
            assert(i4.links.contains_key(k));
            assert(i3.links.contains_key(k));
            assert(i2.links.contains_key(k));
            assert(i1.links.contains_key(k));
        }
        assert forall|k: (Signatory, u64)| #[trigger]
            i0.links.contains_key(k) && k != kt && k != kk implies i5.links.contains_key(k) by {
            assert(i1.links.contains_key(k));
            assert(i2.links.contains_key(k));
            assert(i3.links.contains_key(k));
            assert(i4.links.contains_key(k));
        }
        assert(after.ticker_linked(ticker)) by {
            assert forall|k: (Signatory, u64)| #[trigger]
                i5.links.contains_key(k) && i5.links[k].link_data == LinkDataView::TickerOwned(
                    ticker,
                ) implies k == n1 by {
                if k != n1 && k != n2 {
                    assert(i0.links.contains_key(k));
                }
            }
        }
        assert(after.token_linked(ticker)) by {
            assert forall|k: (Signatory, u64)| #[trigger]
                i5.links.contains_key(k) && i5.links[k].link_data == LinkDataView::TokenOwned(
                    ticker,
                ) implies k == n2 by {
                if k != n1 && k != n2 {
                    assert(i0.links.contains_key(k));
                }
            }
        }
        if other != ticker {
            if self.ticker_linked(other) {
                let ro = self.registration(other);
                let ko = (Signatory::Identity(ro.owner), ro.link_id);
                assert forall|k: (Signatory, u64)| #[trigger]
                    i5.links.contains_key(k) && i5.links[k].link_data == LinkDataView::TickerOwned(
                        other,
                    ) implies after.tickers.contains_key(other) && k == ko by {
                    assert(k != n1 && k != n2);
                    assert(i0.links.contains_key(k));
                }
                if self.tickers.contains_key(other) {
                    assert(i0.links.contains_key(ko));
                    assert(i5.links.contains_key(ko));
                }
            }
            if self.token_linked(other) {
                let t = self.token(other);
                let ko = (Signatory::Identity(t.owner_did), t.link_id);
                assert forall|k: (Signatory, u64)| #[trigger]
                    i5.links.contains_key(k) && i5.links[k].link_data == LinkDataView::TokenOwned(
                        other,
                    ) implies after.tokens.contains_key(other) && k == ko by {
                    assert(k != n1 && k != n2);
                    assert(i0.links.contains_key(k));
                }
                if self.tokens.contains_key(other) {
                    assert(i0.links.contains_key(ko));
                    assert(i5.links.contains_key(ko));
                }
            }
        }
    }

    /// The creation of a token leaves ticker and token each with one live
    /// link under the creator, and the links of every other ticker and token
    /// as they were.
    pub proof fn law_create_links(
        self,
        did: IdentityId,
        name: Seq<u8>,
        ticker: Ticker,
        total_supply: u128,
        divisible: bool,
        asset_type: AssetTypeView,
        identifiers: Seq<(IdentifierTypeView, Seq<u8>)>,
        funding_round: Option<Seq<u8>>,
        token_did: IdentityId,
        now: u64,
        other: Ticker,
    )
        requires
            self.identity.links_valid(),
            self.identity.nonce < u64::MAX - 1,
            !self.tokens.contains_key(ticker),
            self.ticker_status(ticker, did, now) != TickerRegistrationStatus::RegisteredByOther,
            self.ticker_linked(ticker),
            self.token_linked(ticker),
        ensures
            ({
                let after = self.token_created(
                    did,
                    name,
                    ticker,
                    total_supply,
                    divisible,
                    asset_type,
                    identifiers,
                    funding_round,
                    token_did,
                    now,
                );
                &&& after.identity.links_valid()
                &&& after.registration(ticker).owner == did
                &&& after.token(ticker).owner_did == did
                &&& after.ticker_linked(ticker)
                &&& after.token_linked(ticker)
                &&& other != ticker && self.ticker_linked(other) ==> after.ticker_linked(other)
                &&& other != ticker && self.token_linked(other) ==> after.token_linked(other)
            }),
    {
        let recorded = State {
            identity: identity::State {
                did_records: self.identity.did_records.insert(
                    token_did,
                    identity::DidRecordView::absent(),
                ),
                ..self.identity
            },
            ..self
        };
        assert(recorded.identity.link_chain() == self.identity.link_chain());
        assert(recorded.ticker_linked(ticker));
        assert(recorded.token_linked(ticker));
        assert(recorded.ticker_linked(other) == self.ticker_linked(other));
        assert(recorded.token_linked(other) == self.token_linked(other));
        let secured = self.ticker_secured(did, ticker, token_did, now);
        if self.ticker_status(ticker, did, now) == TickerRegistrationStatus::Available {
            recorded.law_register_links(ticker, did, None, other);
            recorded.law_register_links(ticker, did, None, ticker);
        } else {
            assert(secured.identity == recorded.identity);
            assert(secured.ticker_linked(ticker));
            assert(secured.token_linked(ticker));
        }
        assert(secured.identity.links_valid());
        assert(secured.ticker_linked(ticker));
        assert(secured.token_linked(ticker));
        assert(other != ticker && self.ticker_linked(other) ==> secured.ticker_linked(other));
        assert(other != ticker && self.token_linked(other) ==> secured.token_linked(other));
        let i0 = secured.identity;
        let target = Signatory::Identity(did);
        law_add_link(i0, target, LinkDataView::TokenOwned(ticker), None);
        let i1 = i0.add_link(target, LinkDataView::TokenOwned(ticker), None);
        let new_key = (target, i0.next_id());
        let after = self.token_created(
            did,
            name,
            ticker,
            total_supply,
            divisible,
            asset_type,
            identifiers,
            funding_round,
            token_did,
            now,
        );
        assert(after.identity == i1);
        assert(after.tickers == secured.tickers);
        assert(i1.links.contains_key(new_key));
        assert(after.token_linked(ticker)) by {
            assert forall|k: (Signatory, u64)| #[trigger]
                i1.links.contains_key(k) && i1.links[k].link_data == LinkDataView::TokenOwned(
                    ticker,
                ) implies k == new_key by {
                if k != new_key {
                    assert(i0.links.contains_key(k));
                }
            }
        }
        assert(after.ticker_linked(ticker)) by {
            let r = secured.registration(ticker);
            let key = (Signatory::Identity(r.owner), r.link_id);
            assert(i0.links.contains_key(key));
            assert(i1.links.contains_key(key));
            assert forall|k: (Signatory, u64)| #[trigger]
                i1.links.contains_key(k) && i1.links[k].link_data == LinkDataView::TickerOwned(
                    ticker,
                ) implies after.tickers.contains_key(ticker) && k == key by {
                assert(k != new_key);
                assert(i0.links.contains_key(k));
            }
        }
        if other != ticker {
            if self.ticker_linked(other) {
                let r = secured.registration(other);
                let key = (Signatory::Identity(r.owner), r.link_id);
                assert forall|k: (Signatory, u64)| #[trigger]
                    i1.links.contains_key(k) && i1.links[k].link_data == LinkDataView::TickerOwned(
                        other,
                    ) implies after.tickers.contains_key(other) && k == key by {
                    assert(k != new_key);
                    assert(i0.links.contains_key(k));
                }
                if secured.tickers.contains_key(other) {
                    assert(i0.links.contains_key(key));
                    assert(i1.links.contains_key(key));
                }
            }
            if self.token_linked(other) {
                let t = secured.token(other);
                let key = (Signatory::Identity(t.owner_did), t.link_id);
                assert forall|k: (Signatory, u64)| #[trigger]
                    i1.links.contains_key(k) && i1.links[k].link_data == LinkDataView::TokenOwned(
                        other,
                    ) implies after.tokens.contains_key(other) && k == key by {
                    assert(k != new_key);
                    assert(i0.links.contains_key(k));
                }
                if secured.tokens.contains_key(other) {
                    assert(i0.links.contains_key(key));
                    assert(i1.links.contains_key(key));
                }
            }
        }
    }

    /// An accepted hand-over of a ticker consumes its authorization: the
    /// record is gone, and the ticker is the new holder's.
    pub proof fn law_ticker_transfer_consumes(self, to: IdentityId, auth_id: u64, now: u64)
        requires
            self.identity.links_valid(),
            self.accept_ticker_transfer_check(to, auth_id, now).is_ok(),
        ensures
            ({
                let ticker = self.transfer_ticker_of(to, auth_id).unwrap();
                let after = self.ticker_transferred(ticker, to, auth_id, now);
                &&& !after.identity.authorizations.contains_key((Signatory::Identity(to), auth_id))
                &&& after.registration(ticker).owner == to
            }),
    {
        let ticker = self.transfer_ticker_of(to, auth_id).unwrap();
        let old = self.registration(ticker);
        let target = Signatory::Identity(to);
        let owner = Signatory::Identity(old.owner);
        law_consume_auth(self.identity, owner, target, auth_id, now);
        let i1 = self.identity.consume_auth(owner, target, auth_id, now);
        assert(i1.link_chain() == self.identity.link_chain());
        law_remove_link(i1, owner, old.link_id);
    }

    /// An accepted hand-over of a token consumes its authorization: the
    /// record is gone, and ticker and token are the new owner's.
    pub proof fn law_token_transfer_consumes(self, to: IdentityId, auth_id: u64, now: u64)
        requires
            self.identity.links_valid(),
            self.accept_token_ownership_transfer_check(to, auth_id, now).is_ok(),
        ensures
            ({
                let ticker = self.transfer_token_of(to, auth_id).unwrap();
                let after = self.token_ownership_transferred(ticker, to, auth_id, now);
                &&& !after.identity.authorizations.contains_key((Signatory::Identity(to), auth_id))
                &&& after.registration(ticker).owner == to
                &&& after.token(ticker).owner_did == to
            }),
    {
        let ticker = self.transfer_token_of(to, auth_id).unwrap();
        let old = self.registration(ticker);
        let token = self.token(ticker);
        let target = Signatory::Identity(to);
        let owner = Signatory::Identity(token.owner_did);
        law_consume_auth(self.identity, owner, target, auth_id, now);
        let i1 = self.identity.consume_auth(owner, target, auth_id, now);
        assert(i1.link_chain() == self.identity.link_chain());
        law_remove_link(i1, Signatory::Identity(old.owner), old.link_id);
        let i2 = i1.remove_link(Signatory::Identity(old.owner), old.link_id);
        law_remove_link(i2, owner, token.link_id);
    }

    /// Registration and token of `ticker` each name their one live link.
    pub open spec fn names_its_links(self, ticker: Ticker) -> bool {
        self.ticker_linked(ticker) && self.token_linked(ticker)
    }

    /// Every registration and every token names its one live link, and no
    /// link says of anyone that it holds a ticker or owns a token but what
    /// registration and token name.
    pub open spec fn linked(self) -> bool {
        forall|ticker: Ticker| #[trigger] self.names_its_links(ticker)
    }

    /// `other` has the links of ownership, the registrations and, of every
    /// token, the owner and the link that this ledger has.
    pub open spec fn same_ownership(self, other: State) -> bool {
        &&& owns_alike(self.identity, other.identity)
        &&& other.tickers == self.tickers
        &&& forall|ticker: Ticker| #[trigger]
            other.tokens.contains_key(ticker) == self.tokens.contains_key(ticker)
        &&& forall|ticker: Ticker| #[trigger]
            other.token(ticker).owner_did == self.token(ticker).owner_did
        &&& forall|ticker: Ticker| #[trigger]
            other.token(ticker).link_id == self.token(ticker).link_id
    }

    /// What leaves the links, the registrations and every token's owner and
    /// link as they were leaves every registration and token naming its one
    /// live link.
    pub proof fn law_linked_frame(self, other: State)
        requires
            self.linked(),
            self.same_ownership(other),
        ensures
            other.linked(),
    {
        assert forall|ticker: Ticker| #[trigger] other.names_its_links(ticker) by {
            assert(self.names_its_links(ticker));
            assert(other.tokens.contains_key(ticker) == self.tokens.contains_key(ticker));
            assert(other.token(ticker).owner_did == self.token(ticker).owner_did);
            assert(other.token(ticker).link_id == self.token(ticker).link_id);
            let held = (Signatory::Identity(self.registration(ticker).owner), self.registration(ticker).link_id);
            let owned = (Signatory::Identity(self.token(ticker).owner_did), self.token(ticker).link_id);
            assert(ownership_of(other.identity, held) == ownership_of(self.identity, held));
            assert(ownership_of(other.identity, owned) == ownership_of(self.identity, owned));
            assert forall|k: (Signatory, u64)|
                other.identity.links.contains_key(k) && (other.identity.links[k].link_data
                    == LinkDataView::TickerOwned(ticker) || other.identity.links[k].link_data
                    == LinkDataView::TokenOwned(ticker)) implies self.identity.links.contains_key(k)
                && self.identity.links[k].link_data == other.identity.links[k].link_data by {
                assert(ownership_of(other.identity, k) == ownership_of(self.identity, k));
            }
        }
    }

    /// At genesis every registration and every token names its one live
    /// link: there is none of either.
    pub proof fn law_genesis_linked(config: crate::asset::types::TickerRegistrationConfig)
        ensures
            State::genesis(config).linked(),
    {
        assert forall|ticker: Ticker| #[trigger] State::genesis(config).names_its_links(ticker) by {}
    }

    /// A registration keeps every registration and token naming its one
    /// live link.
    pub proof fn law_register_keeps_linked(self, ticker: Ticker, to: IdentityId, expiry: Option<u64>)
        requires
            self.identity.links_valid(),
            self.identity.nonce < u64::MAX,
            self.linked(),
        ensures
            self.ticker_registered(ticker, to, expiry).linked(),
    {
        assert(self.names_its_links(ticker));
        assert forall|other: Ticker| #[trigger]
            self.ticker_registered(ticker, to, expiry).names_its_links(other) by {
            assert(self.names_its_links(other));
            self.law_register_links(ticker, to, expiry, other);
        }
    }

    /// The hand-over of a ticker keeps every registration and token naming
    /// its one live link.
    pub proof fn law_ticker_transfer_keeps_linked(self, to: IdentityId, auth_id: u64, now: u64)
        requires
            self.identity.links_valid(),
            self.identity.nonce < u64::MAX,
            self.accept_ticker_transfer_check(to, auth_id, now).is_ok(),
            self.linked(),
        ensures
            self.ticker_transferred(
                self.transfer_ticker_of(to, auth_id).unwrap(),
                to,
                auth_id,
                now,
            ).linked(),
    {
        let ticker = self.transfer_ticker_of(to, auth_id).unwrap();
        assert(self.names_its_links(ticker));
        assert forall|other: Ticker| #[trigger]
            self.ticker_transferred(ticker, to, auth_id, now).names_its_links(other) by {
            assert(self.names_its_links(other));
            self.law_ticker_transfer_atomic(to, auth_id, now, now, other);
        }
    }

    /// The hand-over of a token keeps every registration and token naming
    /// its one live link.
    pub proof fn law_token_transfer_keeps_linked(self, to: IdentityId, auth_id: u64, now: u64)
        requires
            self.identity.links_valid(),
            self.identity.nonce < u64::MAX - 1,
            self.accept_token_ownership_transfer_check(to, auth_id, now).is_ok(),
            self.linked(),
        ensures
            self.token_ownership_transferred(
                self.transfer_token_of(to, auth_id).unwrap(),
                to,
                auth_id,
                now,
            ).linked(),
    {
        let ticker = self.transfer_token_of(to, auth_id).unwrap();
        assert(self.names_its_links(ticker));
        assert forall|other: Ticker| #[trigger]
            self.token_ownership_transferred(ticker, to, auth_id, now).names_its_links(other) by {
            assert(self.names_its_links(other));
            self.law_token_transfer_atomic(to, auth_id, now, now, other);
        }
    }

    /// The creation of a token keeps every registration and token naming
    /// its one live link.
    pub proof fn law_create_keeps_linked(
        self,
        did: IdentityId,
        name: Seq<u8>,
        ticker: Ticker,
        total_supply: u128,
        divisible: bool,
        asset_type: AssetTypeView,
        identifiers: Seq<(IdentifierTypeView, Seq<u8>)>,
        funding_round: Option<Seq<u8>>,
        token_did: IdentityId,
        now: u64,
    )
        requires
            self.identity.links_valid(),
            self.identity.nonce < u64::MAX - 1,
            !self.tokens.contains_key(ticker),
            self.ticker_status(ticker, did, now) != TickerRegistrationStatus::RegisteredByOther,
            self.linked(),
        ensures
            self.token_created(
                did,
                name,
                ticker,
                total_supply,
                divisible,
                asset_type,
                identifiers,
                funding_round,
                token_did,
                now,
            ).linked(),
    {
        assert(self.names_its_links(ticker));
        assert forall|other: Ticker| #[trigger]
            self.token_created(
                did,
                name,
                ticker,
                total_supply,
                divisible,
                asset_type,
                identifiers,
                funding_round,
                token_did,
                now,
            ).names_its_links(other) by {
            assert(self.names_its_links(other));
            self.law_create_links(
                did,
                name,
                ticker,
                total_supply,
                divisible,
                asset_type,
                identifiers,
                funding_round,
                token_did,
                now,
                other,
            );
        }
    }
}

} // verus!
