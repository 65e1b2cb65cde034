//! Documents of a token: links under the identity of the asset.

use crate::asset::handshake::{ownership_of, owns_alike, owns_nothing};
use crate::asset::state::State;
use crate::asset::Module;
use crate::error::Error;
use crate::identity;
use crate::identity::lists::{law_add_link, law_remove_link, law_update_link};
use crate::primitives::{
    AccountKey, Document, DocumentView, IdentityId, LinkData, LinkDataView, Signatory,
};
use crate::ticker::Ticker;
use vstd::prelude::*;

verus! {

/// The models of a list of documents.
pub open spec fn documents_view(v: Seq<Document>) -> Seq<DocumentView> {
    Seq::new(v.len(), |i: int| v[i]@)
}

/// The models of a list of documents with the ids of the links they go to.
pub open spec fn updates_view(v: Seq<(u64, Document)>) -> Seq<(u64, DocumentView)> {
    Seq::new(v.len(), |i: int| (v[i].0, v[i].1@))
}

/// The registry after the first `n` of `docs` were linked to `signer`, in
/// order.
pub open spec fn documents_added(
    s: identity::State,
    signer: Signatory,
    docs: Seq<DocumentView>,
    n: nat,
) -> identity::State
    decreases n,
{
    if n == 0 {
        s
    } else {
        documents_added(s, signer, docs, (n - 1) as nat).add_link(
            signer,
            LinkDataView::DocumentOwned(docs[n - 1]),
            None,
        )
    }
}

/// The registry after the links of `signer` under the first `n` of `ids`
/// were removed, in order.
pub open spec fn documents_removed(s: identity::State, signer: Signatory, ids: Seq<u64>, n: nat) -> identity::State
    decreases n,
{
    if n == 0 {
        s
    } else {
        documents_removed(s, signer, ids, (n - 1) as nat).remove_link(signer, ids[n - 1])
    }
}

/// The registry after the first `n` of `docs` were each put in place of the
/// payload of the link of `signer` that it names, in order.
pub open spec fn documents_updated(
    s: identity::State,
    signer: Signatory,
    docs: Seq<(u64, DocumentView)>,
    n: nat,
) -> identity::State
    decreases n,
{
    if n == 0 {
        s
    } else {
        documents_updated(s, signer, docs, (n - 1) as nat).update_link(
            signer,
            docs[n - 1].0,
            LinkDataView::DocumentOwned(docs[n - 1].1),
        )
    }
}

/// Adding documents raises the counter by their number.
pub proof fn lemma_documents_added_nonce(s: identity::State, signer: Signatory, docs: Seq<DocumentView>, n: nat)
    requires
        s.nonce + n <= u64::MAX,
    ensures
        documents_added(s, signer, docs, n).nonce == s.nonce + n,
    decreases n,
{
    if n > 0 {
        lemma_documents_added_nonce(s, signer, docs, (n - 1) as nat);
    }
}

/// Adding documents keeps the lists of links in order and changes nothing
/// of who holds which ticker and who owns which token.
pub proof fn law_documents_added_owners(s: identity::State, signer: Signatory, docs: Seq<DocumentView>, n: nat)
    requires
        s.links_valid(),
        s.nonce + n <= u64::MAX,
    ensures
        documents_added(s, signer, docs, n).links_valid(),
        owns_alike(s, documents_added(s, signer, docs, n)),
    decreases n,
{
    if n > 0 {
        let mid = documents_added(s, signer, docs, (n - 1) as nat);
        let after = documents_added(s, signer, docs, n);
        law_documents_added_owners(s, signer, docs, (n - 1) as nat);
        lemma_documents_added_nonce(s, signer, docs, (n - 1) as nat);
        law_add_link(mid, signer, LinkDataView::DocumentOwned(docs[n - 1]), None);
        assert forall|key: (Signatory, u64)| #[trigger]
            ownership_of(after, key) == ownership_of(s, key) by {
            assert(ownership_of(mid, key) == ownership_of(s, key));
            assert(after.links.dom().contains(key) == mid.links.dom().insert(
                (signer, mid.next_id()),
            ).contains(key));
            if mid.links.contains_key(key) {
                assert(after.links[key].link_data == mid.links[key].link_data);
            }
        }
    }
}

/// Removing links of a signer that holds no ticker and owns no token keeps
/// the lists of links in order and changes nothing of who holds which
/// ticker and who owns which token.
pub proof fn law_documents_removed_owners(s: identity::State, signer: Signatory, ids: Seq<u64>, n: nat)
    requires
        s.links_valid(),
        owns_nothing(s, signer),
    ensures
        documents_removed(s, signer, ids, n).links_valid(),
        owns_alike(s, documents_removed(s, signer, ids, n)),
    decreases n,
{
    if n > 0 {
        let mid = documents_removed(s, signer, ids, (n - 1) as nat);
        let after = documents_removed(s, signer, ids, n);
        law_documents_removed_owners(s, signer, ids, (n - 1) as nat);
        law_remove_link(mid, signer, ids[n - 1]);
        assert forall|key: (Signatory, u64)| #[trigger]
            ownership_of(after, key) == ownership_of(s, key) by {
            assert(ownership_of(mid, key) == ownership_of(s, key));
            assert(ownership_of(s, (signer, ids[n - 1])) is None);
            assert(ownership_of(mid, (signer, ids[n - 1])) == ownership_of(s, (signer, ids[n - 1])));
            assert(after.links.dom().contains(key) == mid.links.dom().remove(
                (signer, ids[n - 1]),
            ).contains(key));
            if after.links.contains_key(key) {
                assert(after.links[key].link_data == mid.links[key].link_data);
            }
        }
    }
}

/// Replacing the payloads of links of a signer that holds no ticker and
/// owns no token by documents keeps the lists of links in order and changes
/// nothing of who holds which ticker and who owns which token.
pub proof fn law_documents_updated_owners(
    s: identity::State,
    signer: Signatory,
    docs: Seq<(u64, DocumentView)>,
    n: nat,
)
    requires
        s.links_valid(),
        owns_nothing(s, signer),
    ensures
        documents_updated(s, signer, docs, n).links_valid(),
        owns_alike(s, documents_updated(s, signer, docs, n)),
    decreases n,
{
    if n > 0 {
        let mid = documents_updated(s, signer, docs, (n - 1) as nat);
        let after = documents_updated(s, signer, docs, n);
        law_documents_updated_owners(s, signer, docs, (n - 1) as nat);
        law_update_link(mid, signer, docs[n - 1].0, LinkDataView::DocumentOwned(docs[n - 1].1));
        assert forall|key: (Signatory, u64)| #[trigger]
            ownership_of(after, key) == ownership_of(s, key) by {
            assert(ownership_of(mid, key) == ownership_of(s, key));
            assert(ownership_of(s, (signer, docs[n - 1].0)) is None);
            assert(ownership_of(mid, (signer, docs[n - 1].0)) == ownership_of(
                s,
                (signer, docs[n - 1].0),
            ));
        }
    }
}

impl Module {
    /// Attaches `documents` to the token `ticker`, each as a link under
    /// `ticker_did`, the identity of the asset. Only the owner `did` can.
    pub fn add_documents(
        &mut self,
        sender: AccountKey,
        did: IdentityId,
        ticker: Ticker,
        documents: &Vec<Document>,
        ticker_did: IdentityId,
    ) -> (r: Result<(), Error>)
        requires
            old(self).wf(),
            old(self)@.identity.nonce + documents@.len() <= u64::MAX,
        ensures
            final(self).wf(),
            r == old(self)@.owner_check(sender, did, ticker.canonical(), Error::NotAssetOwner),
            r.is_ok() ==> final(self)@ == (State {
                identity: documents_added(
                    old(self)@.identity,
                    Signatory::Identity(ticker_did),
                    documents_view(documents@),
                    documents@.len(),
                ),
                ..old(self)@
            }),
            r.is_err() ==> final(self)@ == old(self)@,
            old(self)@.linked() ==> final(self)@.linked(),
    {
        let mut ticker = ticker;
        ticker.canonize();
        if let Err(e) = self.check_owner(sender, did, &ticker, Error::NotAssetOwner) {
            return Err(e);
        }
        let signer = Signatory::Identity(ticker_did);
        let mut i: usize = 0;
        while i < documents.len()
            invariant
                i <= documents@.len(),
                old(self)@.identity.nonce + documents@.len() <= u64::MAX,
                self.wf(),
                self@ == (State {
                    identity: documents_added(
                        old(self)@.identity,
                        signer,
                        documents_view(documents@),
                        i as nat,
                    ),
                    ..old(self)@
                }),
            decreases documents@.len() - i,
        {
            let ghost before = self@;
            proof {
                lemma_documents_added_nonce(
                    old(self)@.identity,
                    signer,
                    documents_view(documents@),
                    i as nat,
                );
            }
            let doc = documents[i].duplicate();
            self.identity.add_link(signer, LinkData::DocumentOwned(doc), None);
            proof {
                before.lemma_inv_frame(self@);
            }
            i += 1;
        }
        proof {
            if old(self)@.linked() {
                law_documents_added_owners(
                    old(self)@.identity,
                    signer,
                    documents_view(documents@),
                    documents@.len(),
                );
                old(self)@.law_linked_frame(self@);
            }
        }
        Ok(())
    }

    /// Removes the documents of the token `ticker` whose links under
    /// `ticker_did` have the ids `doc_ids`. Only the owner `did` can.
    pub fn remove_documents(
        &mut self,
        sender: AccountKey,
        did: IdentityId,
        ticker: Ticker,
        doc_ids: &Vec<u64>,
        ticker_did: IdentityId,
    ) -> (r: Result<(), Error>)
        requires
            old(self).wf(),
        ensures
            final(self).wf(),
            r == old(self)@.owner_check(sender, did, ticker.canonical(), Error::NotAssetOwner),
            r.is_ok() ==> final(self)@ == (State {
                identity: documents_removed(
                    old(self)@.identity,
                    Signatory::Identity(ticker_did),
                    doc_ids@,
                    doc_ids@.len(),
                ),
                ..old(self)@
            }),
            r.is_err() ==> final(self)@ == old(self)@,
            old(self)@.linked() && owns_nothing(old(self)@.identity, Signatory::Identity(ticker_did))
                ==> final(self)@.linked(),
    {
        let mut ticker = ticker;
        ticker.canonize();
        if let Err(e) = self.check_owner(sender, did, &ticker, Error::NotAssetOwner) {
            return Err(e);
        }
        let signer = Signatory::Identity(ticker_did);
        let mut i: usize = 0;
        while i < doc_ids.len()
            invariant
                i <= doc_ids@.len(),
                self.wf(),
                self@ == (State {
                    identity: documents_removed(old(self)@.identity, signer, doc_ids@, i as nat),
                    ..old(self)@
                }),
            decreases doc_ids@.len() - i,
        {
            let ghost before = self@;
            self.identity.remove_link(signer, doc_ids[i]);
            proof {
                before.lemma_inv_frame(self@);
            }
            i += 1;
        }
        proof {
            if old(self)@.linked() && owns_nothing(old(self)@.identity, signer) {
                law_documents_removed_owners(old(self)@.identity, signer, doc_ids@, doc_ids@.len());
                old(self)@.law_linked_frame(self@);
            }
        }
        Ok(())
    }

    /// Puts each of `docs` in place of the document of the token `ticker`
    /// whose link under `ticker_did` it names. Only the owner `did` can.
    pub fn update_documents(
        &mut self,
        sender: AccountKey,
        did: IdentityId,
        ticker: Ticker,
        docs: &Vec<(u64, Document)>,
        ticker_did: IdentityId,
    ) -> (r: Result<(), Error>)
        requires
            old(self).wf(),
        ensures
            final(self).wf(),
            r == old(self)@.owner_check(sender, did, ticker.canonical(), Error::NotAssetOwner),
            r.is_ok() ==> final(self)@ == (State {
                identity: documents_updated(
                    old(self)@.identity,
                    Signatory::Identity(ticker_did),
                    updates_view(docs@),
                    docs@.len(),
                ),
                ..old(self)@
            }),
            r.is_err() ==> final(self)@ == old(self)@,
            old(self)@.linked() && owns_nothing(old(self)@.identity, Signatory::Identity(ticker_did))
                ==> final(self)@.linked(),
    {
        let mut ticker = ticker;
        ticker.canonize();
        if let Err(e) = self.check_owner(sender, did, &ticker, Error::NotAssetOwner) {
            return Err(e);
        }
        let signer = Signatory::Identity(ticker_did);
        let mut i: usize = 0;
        while i < docs.len()
            invariant
                i <= docs@.len(),
                self.wf(),
                self@ == (State {
                    identity: documents_updated(
                        old(self)@.identity,
                        signer,
                        updates_view(docs@),
                        i as nat,
                    ),
                    ..old(self)@
                }),
            decreases docs@.len() - i,
        {
            let ghost before = self@;
            let doc = docs[i].1.duplicate();
            self.identity.update_link(signer, docs[i].0, LinkData::DocumentOwned(doc));
            proof {
                before.lemma_inv_frame(self@);
            }
            i += 1;
        }
        proof {
            if old(self)@.linked() && owns_nothing(old(self)@.identity, signer) {
                law_documents_updated_owners(old(self)@.identity, signer, updates_view(docs@), docs@.len());
                old(self)@.law_linked_frame(self@);
            }
        }
        Ok(())
    }
}

} // verus!
