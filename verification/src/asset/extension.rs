//! Smart extensions whitelisted for a token.

use crate::asset::state::State;
use crate::asset::types::{SmartExtension, SmartExtensionType, SmartExtensionTypeView, SmartExtensionView};
use crate::asset::Module;
use crate::error::Error;
use crate::primitives::AccountKey;
use crate::ticker::Ticker;
use vstd::prelude::*;

verus! {

impl State {
    /// The extensions of kind `typ` whitelisted for `ticker`, in the order
    /// in which they were added.
    pub open spec fn extensions_of(self, ticker: Ticker, typ: SmartExtensionTypeView) -> Seq<AccountKey> {
        if self.extensions.contains_key((ticker, typ)) {
            self.extensions[(ticker, typ)]
        } else {
            Seq::empty()
        }
    }

    /// Whether the identity that `sender` acts for owns `ticker`, and if
    /// not, why.
    pub open spec fn acting_owner_check(self, sender: AccountKey, ticker: Ticker) -> Result<(), Error> {
        match self.identity.acting_did(sender) {
            None => Err(Error::DidNotFound),
            Some(did) => if !self.is_owner(ticker, did) {
                Err(Error::UnAuthorized)
            } else {
                Ok(())
            },
        }
    }

    /// Whether `sender` may whitelist the extension `id` for `ticker`, and
    /// if not, why.
    pub open spec fn add_extension_check(self, sender: AccountKey, ticker: Ticker, id: AccountKey) -> Result<
        (),
        Error,
    > {
        if self.acting_owner_check(sender, ticker).is_err() {
            self.acting_owner_check(sender, ticker)
        } else if self.extension_details.contains_key((ticker, id)) {
            Err(Error::ExtensionAlreadyPresent)
        } else {
            Ok(())
        }
    }

    /// The ledger after the extension was whitelisted for `ticker`: its
    /// details are recorded, and it is the last of its kind.
    pub open spec fn extension_added(self, ticker: Ticker, details: SmartExtensionView) -> State {
        State {
            extension_details: self.extension_details.insert(
                (ticker, details.extension_id),
                details,
            ),
            extensions: self.extensions.insert(
                (ticker, details.extension_type),
                self.extensions_of(ticker, details.extension_type).push(details.extension_id),
            ),
            ..self
        }
    }

    /// Whether `sender` may set the archive flag of the extension `id` of
    /// `ticker` to `archive`, and if not, why.
    pub open spec fn archive_check(self, sender: AccountKey, ticker: Ticker, id: AccountKey, archive: bool) -> Result<
        (),
        Error,
    > {
        if self.acting_owner_check(sender, ticker).is_err() {
            self.acting_owner_check(sender, ticker)
        } else if !self.extension_details.contains_key((ticker, id)) {
            Err(Error::ExtensionDoesNotExist)
        } else if self.extension_details[(ticker, id)].is_archive == archive {
            if archive {
                Err(Error::AlreadyArchived)
            } else {
                Err(Error::AlreadyUnArchived)
            }
        } else {
            Ok(())
        }
    }

    /// The ledger after the archive flag of the extension `id` of `ticker`
    /// was set to `archive`.
    pub open spec fn archived(self, ticker: Ticker, id: AccountKey, archive: bool) -> State {
        State {
            extension_details: self.extension_details.insert(
                (ticker, id),
                SmartExtensionView { is_archive: archive, ..self.extension_details[(ticker, id)] },
            ),
            ..self
        }
    }
}

impl Module {
    fn check_acting_owner(&self, sender: AccountKey, ticker: &Ticker) -> (r: Result<(), Error>)
        requires
            self.wf(),
        ensures
            r == self@.acting_owner_check(sender, *ticker),
    {
        let my_did = match self.identity.acting_did(&sender) {
            Some(d) => d,
            None => { return Err(Error::DidNotFound); },
        };
        if !self.is_owner(ticker, my_did) {
            return Err(Error::UnAuthorized);
        }
        Ok(())
    }

    /// The details of the extension `id` of `ticker`, if it was
    /// whitelisted.
    pub fn extension_details(&self, ticker: &Ticker, id: AccountKey) -> (r: Option<&SmartExtension>)
        requires
            self.wf(),
        ensures
            match r {
                Some(e) => self@.extension_details.contains_key((*ticker, id)) && e@
                    == self@.extension_details[(*ticker, id)],
                None => !self@.extension_details.contains_key((*ticker, id)),
            },
    {
        self.extension_details.get(&(*ticker, id))
    }

    /// The extensions of kind `typ` whitelisted for `ticker`.
    pub fn extensions(&self, ticker: &Ticker, typ: &SmartExtensionType) -> (r: Vec<AccountKey>)
        requires
            self.wf(),
        ensures
            r@ == self@.extensions_of(*ticker, typ@),
    {
        match self.extensions.get(&(*ticker, typ.duplicate())) {
            Some(ids) => {
                let mut out: Vec<AccountKey> = Vec::new();
                let mut i: usize = 0;
                while i < ids.len()
                    invariant
                        i <= ids@.len(),
                        out@ == ids@.take(i as int),
                    decreases ids@.len() - i,
                {
                    out.push(ids[i]);
                    assert(ids@.take(i + 1) =~= ids@.take(i as int).push(ids@[i as int]));
                    i += 1;
                }
                assert(ids@.take(ids@.len() as int) =~= ids@);
                out
            },
            None => Vec::new(),
        }
    }

    /// Whitelists a smart extension for `ticker`. Only the owner can, and
    /// each extension once.
    pub fn add_extension(&mut self, sender: AccountKey, ticker: Ticker, extension_details: SmartExtension) -> (r:
        Result<(), Error>)
        requires
            old(self).wf(),
        ensures
            final(self).wf(),
            r == old(self)@.add_extension_check(
                sender,
                ticker.canonical(),
                extension_details.extension_id,
            ),
            r.is_ok() ==> final(self)@ == old(self)@.extension_added(
                ticker.canonical(),
                extension_details@,
            ),
            r.is_err() ==> final(self)@ == old(self)@,
            old(self)@.linked() ==> final(self)@.linked(),
    {
        let mut ticker = ticker;
        ticker.canonize();
        if let Err(e) = self.check_acting_owner(sender, &ticker) {
            return Err(e);
        }
        let id = extension_details.extension_id;
        if self.extension_details.contains_key(&(ticker, id)) {
            return Err(Error::ExtensionAlreadyPresent);
        }
        let typ = extension_details.extension_type.duplicate();
        let key_typ = extension_details.extension_type.duplicate();
        self.extension_details.insert((ticker, id), extension_details);
        let mut ids = match self.extensions.remove(&(ticker, typ)) {
            Some(v) => v,
            None => Vec::new(),
        };
        ids.push(id);
        self.extensions.insert((ticker, key_typ), ids);
        proof {
            assert(self@.extensions =~= old(self)@.extensions.insert(
                (ticker, extension_details@.extension_type),
                old(self)@.extensions_of(ticker, extension_details@.extension_type).push(id),
            ));
            old(self)@.lemma_inv_frame(self@);
        }
        Ok(())
    }

    fn set_archive(&mut self, sender: AccountKey, ticker: Ticker, extension_id: AccountKey, archive: bool) -> (r:
        Result<(), Error>)
        requires
            old(self).wf(),
        ensures
            final(self).wf(),
            r == old(self)@.archive_check(sender, ticker, extension_id, archive),
            r.is_ok() ==> final(self)@ == old(self)@.archived(ticker, extension_id, archive),
            r.is_err() ==> final(self)@ == old(self)@,
            old(self)@.linked() ==> final(self)@.linked(),
    {
        if let Err(e) = self.check_acting_owner(sender, &ticker) {
            return Err(e);
        }
        let is_archive = match self.extension_details.get(&(ticker, extension_id)) {
            Some(d) => d.is_archive,
            None => { return Err(Error::ExtensionDoesNotExist); },
        };
        if is_archive == archive {
            if archive {
                return Err(Error::AlreadyArchived);
            } else {
                return Err(Error::AlreadyUnArchived);
            }
        }
        match self.extension_details.remove(&(ticker, extension_id)) {
            Some(mut details) => {
                details.is_archive = archive;
                self.extension_details.insert((ticker, extension_id), details);
            },
            None => {},
        }
        proof {
            assert(self@.extension_details =~= old(self)@.extension_details.insert(
                (ticker, extension_id),
                SmartExtensionView {
                    is_archive: archive,
                    ..old(self)@.extension_details[(ticker, extension_id)]
                },
            ));
            old(self)@.lemma_inv_frame(self@);
        }
        Ok(())
    }

    /// Archives the extension `extension_id` of `ticker`: it is no longer
    /// asked. Only the owner can.
    pub fn archive_extension(&mut self, sender: AccountKey, ticker: Ticker, extension_id: AccountKey) -> (r:
        Result<(), Error>)
        requires
            old(self).wf(),
        ensures
            final(self).wf(),
            r == old(self)@.archive_check(sender, ticker.canonical(), extension_id, true),
            r.is_ok() ==> final(self)@ == old(self)@.archived(ticker.canonical(), extension_id, true),
            r.is_err() ==> final(self)@ == old(self)@,
            old(self)@.linked() ==> final(self)@.linked(),
    {
        let mut ticker = ticker;
        ticker.canonize();
        self.set_archive(sender, ticker, extension_id, true)
    }

    /// Brings the archived extension `extension_id` of `ticker` back. Only
    /// the owner can.
    pub fn unarchive_extension(&mut self, sender: AccountKey, ticker: Ticker, extension_id: AccountKey) -> (r:
        Result<(), Error>)
        requires
            old(self).wf(),
        ensures
            final(self).wf(),
            r == old(self)@.archive_check(sender, ticker.canonical(), extension_id, false),
            r.is_ok() ==> final(self)@ == old(self)@.archived(ticker.canonical(), extension_id, false),
            r.is_err() ==> final(self)@ == old(self)@,
            old(self)@.linked() ==> final(self)@.linked(),
    {
        let mut ticker = ticker;
        ticker.canonize();
        self.set_archive(sender, ticker, extension_id, false)
    }
}

} // verus!
