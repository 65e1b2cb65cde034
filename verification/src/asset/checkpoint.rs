//! Checkpoints: numbered points in time at which the total supply is
//! recorded, and from which every balance can be told again later.
//!
//! A balance is recorded lazily: when it is about to change for the first time
//! since the latest checkpoint, its value before the change is put under that
//! checkpoint. What an identity held at a checkpoint is then the balance
//! recorded under the first checkpoint from that one on, or the current
//! balance where there is none.

use crate::asset::state::{ceiling, increasing, State};
use crate::asset::Module;
use crate::error::Error;
use crate::primitives::{AccountKey, IdentityId, Signatory};
use crate::ticker::Ticker;
use vstd::prelude::*;

verus! {

/// The element at `i` is the ceiling of `at` where it is at least `at` and
/// everything before it is smaller.
pub proof fn lemma_ceiling_at(s: Seq<u64>, at: u64, i: int)
    requires
        0 <= i < s.len(),
        s[i] >= at,
        forall|j: int| 0 <= j < i ==> s[j] < at,
    ensures
        ceiling(s, at) == s[i],
    decreases i,
{
    if i > 0 {
        assert(s[0] < at);
        let t = s.drop_first();
        assert forall|j: int| 0 <= j < i - 1 implies t[j] < at by {
            assert(t[j] == s[j + 1]);
        }
        lemma_ceiling_at(t, at, i - 1);
    }
}

/// In an increasing list whose last element is at least `at`, the ceiling of
/// `at` is an element that is at least `at`, and nothing smaller in the list
/// is.
pub proof fn lemma_ceiling_least(s: Seq<u64>, at: u64)
    requires
        increasing(s),
        s.len() > 0,
        at <= s.last(),
    ensures
        s.contains(ceiling(s, at)),
        ceiling(s, at) >= at,
        forall|j: int| 0 <= j < s.len() && s[j] >= at ==> ceiling(s, at) <= s[j],
    decreases s.len(),
{
    if s[0] >= at {
        assert(s[0] == ceiling(s, at));
        assert forall|j: int| 0 <= j < s.len() && s[j] >= at implies ceiling(s, at) <= s[j] by {
            if j > 0 {
                assert(s[0] < s[j]);
            }
        }
    } else {
        let t = s.drop_first();
        assert(s.len() > 1) by {
            if s.len() == 1 {
                assert(s.last() == s[0]);
            }
        }
        assert(increasing(t)) by {
            assert forall|i: int, j: int| 0 <= i < j < t.len() implies t[i] < t[j] by {
                assert(s[i + 1] < s[j + 1]);
            }
        }
        assert(t.last() == s.last());
        lemma_ceiling_least(t, at);
        let k = choose|k: int| 0 <= k < t.len() && t[k] == ceiling(t, at);
        assert(s[k + 1] == ceiling(s, at));
        assert forall|j: int| 0 <= j < s.len() && s[j] >= at implies ceiling(s, at) <= s[j] by {
            if j > 0 {
                assert(t[j - 1] == s[j]);
            }
        }
    }
}

impl State {
    /// Whether another checkpoint of `ticker` can be made.
    pub open spec fn create_checkpoint_check(self, ticker: Ticker) -> Result<(), Error> {
        if self.total_checkpoints.contains_key(ticker) && self.total_checkpoints[ticker]
            == u64::MAX {
            Err(Error::CheckpointOverflow)
        } else {
            Ok(())
        }
    }

    /// The number of the checkpoint that is made next.
    pub open spec fn next_checkpoint(self, ticker: Ticker) -> u64 {
        if self.total_checkpoints.contains_key(ticker) {
            (self.total_checkpoints[ticker] + 1) as u64
        } else {
            1
        }
    }

    /// The ledger after a checkpoint of `ticker` was made: the count is one
    /// higher, and the current total supply is recorded under it.
    pub open spec fn create_checkpoint(self, ticker: Ticker) -> State {
        let id = self.next_checkpoint(ticker);
        State {
            total_checkpoints: self.total_checkpoints.insert(ticker, id),
            checkpoint_total_supply: self.checkpoint_total_supply.insert(
                (ticker, id),
                self.total_supply(ticker),
            ),
            ..self
        }
    }

    /// Whether a balance of `did` is yet to be recorded under the latest
    /// checkpoint of `ticker`.
    pub open spec fn unrecorded(self, ticker: Ticker, did: IdentityId) -> bool {
        self.total_checkpoints.contains_key(ticker) && !self.checkpoint_balance.contains_key(
            (ticker, did, self.total_checkpoints[ticker]),
        )
    }

    /// The ledger after the balance `balance` of `did` was taken down ahead of
    /// a change: recorded under the latest checkpoint unless one is recorded
    /// there already, or no checkpoint was made.
    pub open spec fn update_checkpoint(self, ticker: Ticker, did: IdentityId, balance: u128) -> State {
        if self.unrecorded(ticker, did) {
            let id = self.total_checkpoints[ticker];
            State {
                checkpoint_balance: self.checkpoint_balance.insert((ticker, did, id), balance),
                user_checkpoints: self.user_checkpoints.insert(
                    (ticker, did),
                    self.recorded_checkpoints(ticker, did).push(id),
                ),
                ..self
            }
        } else {
            self
        }
    }

    /// Making a checkpoint keeps the checkpoints in order.
    pub proof fn lemma_create_checkpoint_inv(self, ticker: Ticker)
        requires
            self.inv(),
            self.create_checkpoint_check(ticker).is_ok(),
        ensures
            self.create_checkpoint(ticker).inv(),
    {
        let next = self.create_checkpoint(ticker);
        assert forall|t: Ticker, did: IdentityId| #[trigger]
            next.user_checkpoints.contains_key((t, did)) implies next.recorded_in_order(t, did) by {
            assert(self.recorded_in_order(t, did));
            assert(next.recorded_checkpoints(t, did) == self.recorded_checkpoints(t, did));
            assert(next.checkpoints(t) >= self.checkpoints(t));
        }
        assert forall|t: Ticker, did: IdentityId, id: u64| #[trigger]
            next.checkpoint_balance.contains_key((t, did, id)) implies next.recorded_checkpoints(
            t,
            did,
        ).contains(id) by {
            assert(next.recorded_checkpoints(t, did) == self.recorded_checkpoints(t, did));
        }
    }

    /// Taking a balance down keeps the checkpoints in order.
    pub proof fn lemma_update_checkpoint_inv(self, ticker: Ticker, did: IdentityId, balance: u128)
        requires
            self.inv(),
        ensures
            self.update_checkpoint(ticker, did, balance).inv(),
    {
        let next = self.update_checkpoint(ticker, did, balance);
        if self.unrecorded(ticker, did) {
            let id = self.total_checkpoints[ticker];
            let old_list = self.recorded_checkpoints(ticker, did);
            let new_list = old_list.push(id);
            assert forall|t: Ticker, d: IdentityId| #[trigger]
                next.user_checkpoints.contains_key((t, d)) implies next.recorded_in_order(t, d) by {
                if t == ticker && d == did {
                    if self.user_checkpoints.contains_key((ticker, did)) {
                        assert(self.recorded_in_order(ticker, did));
                    }
                    assert(next.recorded_checkpoints(t, d) == new_list);
                    assert forall|i: int| 0 <= i < old_list.len() implies old_list[i] < id by {
                        assert(self.checkpoint_balance.contains_key((ticker, did, old_list[i])));
                    }
                    assert(increasing(new_list));
                    assert forall|i: int| 0 <= i < new_list.len() implies {
                        &&& 1 <= #[trigger] new_list[i] <= next.checkpoints(t)
                        &&& next.checkpoint_balance.contains_key((t, d, new_list[i]))
                    } by {
                        if i < old_list.len() {
                            assert(new_list[i] == old_list[i]);
                        }
                    }
                } else {
                    assert(self.user_checkpoints.contains_key((t, d)));
                    assert(self.recorded_in_order(t, d));
                    assert(next.recorded_checkpoints(t, d) == self.recorded_checkpoints(t, d));
                }
            }
            assert forall|t: Ticker, d: IdentityId, c: u64| #[trigger]
                next.checkpoint_balance.contains_key((t, d, c)) implies next.recorded_checkpoints(
                t,
                d,
            ).contains(c) by {
                if t == ticker && d == did {
                    assert(next.recorded_checkpoints(t, d) == new_list);
                    if c == id {
                        assert(new_list[old_list.len() as int] == id);
                    } else {
                        assert(self.checkpoint_balance.contains_key((t, d, c)));
                        let j = choose|j: int| 0 <= j < old_list.len() && old_list[j] == c;
                        assert(new_list[j] == c);
                    }
                } else {
                    assert(self.checkpoint_balance.contains_key((t, d, c)));
                    assert(next.recorded_checkpoints(t, d) == self.recorded_checkpoints(t, d));
                }
            }
        }
    }
}

/// Finds the smallest element of `arr` that is at least `key`. The list is
/// increasing and not empty, and its last element is at least `key`.
pub fn find_ceiling(arr: &Vec<u64>, key: u64) -> (r: u64)
    requires
        increasing(arr@),
        arr@.len() > 0,
        key <= arr@.last(),
    ensures
        r == ceiling(arr@, key),
        arr@.contains(r),
        r >= key,
        forall|j: int| 0 <= j < arr@.len() && arr@[j] >= key ==> r <= arr@[j],
{
    let mut start: usize = 0;
    let mut end: usize = arr.len() - 1;
    while start < end
        invariant
            start <= end < arr@.len(),
            increasing(arr@),
            arr@[end as int] >= key,
            forall|j: int| 0 <= j < start ==> arr@[j] < key,
        decreases end - start,
    {
        let mid: usize = start + (end - start) / 2;
        if arr[mid] >= key {
            end = mid;
        } else {
            assert forall|j: int| 0 <= j < mid + 1 implies arr@[j] < key by {
                if j < mid {
                    assert(arr@[j] < arr@[mid as int]);
                }
            }
            start = mid + 1;
        }
    }
    proof {
        lemma_ceiling_at(arr@, key, start as int);
        lemma_ceiling_least(arr@, key);
    }
    arr[start]
}

/// Finds the smallest element of `arr` that is at least `key`, where `arr`
/// is an increasing list that reaches `key`; else says that there is no such
/// checkpoint.
pub fn try_find_ceiling(arr: &Vec<u64>, key: u64) -> (r: Result<u64, Error>)
    ensures
        r == (if increasing(arr@) && arr@.len() > 0 && key <= arr@.last() {
            Ok::<u64, Error>(ceiling(arr@, key))
        } else {
            Err(Error::NoSuchCheckpoint)
        }),
{
    let n = arr.len();
    if n == 0 {
        return Err(Error::NoSuchCheckpoint);
    }
    let mut i: usize = 1;
    while i < n
        invariant
            1 <= i <= n,
            n == arr@.len(),
            forall|a: int, b: int| 0 <= a < b < i ==> arr@[a] < arr@[b],
        decreases n - i,
    {
        if arr[i - 1] >= arr[i] {
            assert(!increasing(arr@)) by {
                if increasing(arr@) {
                    assert(arr@[i - 1] < arr@[i as int]);
                }
            }
            return Err(Error::NoSuchCheckpoint);
        }
        assert forall|a: int, b: int| 0 <= a < b < i + 1 implies arr@[a] < arr@[b] by {
            if b == i && a < i - 1 {
                assert(arr@[a] < arr@[i - 1]);
            }
        }
        i += 1;
    }
    if key > arr[n - 1] {
        return Err(Error::NoSuchCheckpoint);
    }
    Ok(find_ceiling(arr, key))
}

impl Module {
    /// Makes a checkpoint of `ticker`: raises the count by one, from none to
    /// one, and records the current total supply under it.
    pub fn _create_checkpoint(&mut self, ticker: &Ticker) -> (r: Result<(), Error>)
        requires
            old(self).wf(),
        ensures
            final(self).wf(),
            r == old(self)@.create_checkpoint_check(*ticker),
            r.is_ok() ==> final(self)@ == old(self)@.create_checkpoint(*ticker),
            r.is_err() ==> final(self)@ == old(self)@,
            old(self)@.linked() ==> final(self)@.linked(),
    {
        let supply = match self.tokens.get(ticker) {
            Some(t) => t.total_supply,
            None => 0,
        };
        let existing = match self.total_checkpoints.get(ticker) {
            Some(c) => Some(*c),
            None => None,
        };
        let id: u64 = match existing {
            Some(count) => match count.checked_add(1) {
                Some(c) => c,
                None => { return Err(Error::CheckpointOverflow); },
            },
            None => 1,
        };
        self.total_checkpoints.insert(*ticker, id);
        self.checkpoint_total_supply.insert((*ticker, id), supply);
        proof {
            old(self)@.lemma_create_checkpoint_inv(*ticker);
            old(self)@.lemma_supply_frame(self@);
            if old(self)@.linked() {
                old(self)@.law_linked_frame(self@);
            }
        }
        Ok(())
    }

    /// Takes down the balance `user_balance` that `user_did` holds ahead of a
    /// change of it: under the latest checkpoint, unless a balance is there
    /// already or no checkpoint was made.
    pub(crate) fn _update_checkpoint(&mut self, ticker: &Ticker, user_did: IdentityId, user_balance: u128)
        requires
            old(self).consistent(),
        ensures
            final(self).consistent(),
            final(self)@ == old(self)@.update_checkpoint(*ticker, user_did, user_balance),
            old(self)@.linked() ==> final(self)@.linked(),
    {
        let existing = match self.total_checkpoints.get(ticker) {
            Some(c) => Some(*c),
            None => None,
        };
        if let Some(checkpoint_count) = existing {
            if !self.checkpoint_balance.contains_key(&(*ticker, user_did, checkpoint_count)) {
                self.checkpoint_balance.insert((*ticker, user_did, checkpoint_count), user_balance);
                let mut user_checkpoints = match self.user_checkpoints.remove(&(*ticker, user_did)) {
                    Some(v) => v,
                    None => Vec::new(),
                };
                user_checkpoints.push(checkpoint_count);
                self.user_checkpoints.insert((*ticker, user_did), user_checkpoints);
                proof {
                    assert(self@.user_checkpoints =~= old(self)@.user_checkpoints.insert(
                        (*ticker, user_did),
                        old(self)@.recorded_checkpoints(*ticker, user_did).push(checkpoint_count),
                    ));
                }
            }
        }
        proof {
            old(self)@.lemma_update_checkpoint_inv(*ticker, user_did, user_balance);
            if old(self)@.linked() {
                old(self)@.law_linked_frame(self@);
            }
        }
    }

    /// What `did` held of the token `ticker`, taken in canonical form, when
    /// checkpoint `at` was made; the current balance for an `at` that names no
    /// checkpoint.
    pub fn get_balance_at(&self, ticker: Ticker, did: IdentityId, at: u64) -> (r: u128)
        requires
            self.wf(),
        ensures
            r == self@.balance_at(ticker.canonical(), did, at),
            at == 0 || at > self@.checkpoints(ticker.canonical()) ==> r == self@.balance(
                ticker.canonical(),
                did,
            ),
            self@.recorded_checkpoints(ticker.canonical(), did).len() == 0 ==> r == self@.balance(
                ticker.canonical(),
                did,
            ),
    {
        let mut ticker = ticker;
        ticker.canonize();
        if !self.total_checkpoints.contains_key(&ticker) || at == 0 || at
            > self.total_checkpoints_of(&ticker) {
            return self.balance_of(&ticker, did);
        }
        match self.user_checkpoints.get(&(ticker, did)) {
            Some(user_checkpoints) => {
                let n = user_checkpoints.len();
                let last: u64 = if n == 0 {
                    0
                } else {
                    user_checkpoints[n - 1]
                };
                if at > last {
                    return self.balance_of(&ticker, did);
                }
                assert(self@.recorded_in_order(ticker, did));
                let id = find_ceiling(user_checkpoints, at);
                self.balance_at_checkpoint(&ticker, did, id)
            },
            None => self.balance_of(&ticker, did),
        }
    }

    /// Makes a checkpoint of the token `ticker` for its owner `did`, for whom
    /// `sender` signs.
    pub fn create_checkpoint(&mut self, sender: AccountKey, did: IdentityId, ticker: Ticker) -> (r:
        Result<(), Error>)
        requires
            old(self).wf(),
        ensures
            final(self).wf(),
            r == old(self)@.create_checkpoint_call_check(sender, did, ticker.canonical()),
            r.is_ok() ==> final(self)@ == old(self)@.create_checkpoint(ticker.canonical()),
            r.is_err() ==> final(self)@ == old(self)@,
            old(self)@.linked() ==> final(self)@.linked(),
    {
        if !self.identity.is_signer_authorized(did, &Signatory::AccountKey(sender)) {
            return Err(Error::SenderNotSigningKey);
        }
        let mut ticker = ticker;
        ticker.canonize();
        if !self.is_owner(&ticker, did) {
            return Err(Error::NotAuthorized);
        }
        self._create_checkpoint(&ticker)
    }
}

impl State {
    /// Whether `sender` may make a checkpoint of `ticker` for `did`, and if
    /// not, why.
    pub open spec fn create_checkpoint_call_check(
        self,
        sender: AccountKey,
        did: IdentityId,
        ticker: Ticker,
    ) -> Result<(), Error> {
        if !self.identity.signer_authorized(did, Signatory::AccountKey(sender)) {
            Err(Error::SenderNotSigningKey)
        } else if !self.is_owner(ticker, did) {
            Err(Error::NotAuthorized)
        } else {
            self.create_checkpoint_check(ticker)
        }
    }
}

} // verus!
