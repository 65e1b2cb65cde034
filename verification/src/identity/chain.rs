//! The shape that the lists of authorizations and links share: records
//! threaded by `next` and `previous` ids per target, with a pointer to the
//! last record of each target and one counter for all ids.
//!
//! A chain is in order when every pointer leads to a record of the same
//! target that points back, ids grow along each list, the record without a
//! successor is the one that its target's pointer names, and no id is `0` or
//! beyond the counter.

use crate::primitives::Signatory;
use vstd::prelude::*;

verus! {

/// The pointers of two lists of one kind: for every record its `next` and
/// its `previous` id, and for every target the id of its last record.
pub struct Chain {
    pub nonce: u64,
    pub pointers: Map<(Signatory, u64), (u64, u64)>,
    pub last: Map<Signatory, u64>,
}

impl Chain {
    /// The id of the last record of `target`; `0` where it has none.
    pub open spec fn last_of(self, target: Signatory) -> u64 {
        if self.last.contains_key(target) {
            self.last[target]
        } else {
            0
        }
    }

    /// The pointers of the record `id` of `target`; none where there is no
    /// such record.
    pub open spec fn pointers_of(self, target: Signatory, id: u64) -> (u64, u64) {
        if self.pointers.contains_key((target, id)) {
            self.pointers[(target, id)]
        } else {
            (0, 0)
        }
    }

    /// The record `id` of `target` is threaded as it should be.
    pub open spec fn node_ok(self, target: Signatory, id: u64) -> bool {
        let next = self.pointers[(target, id)].0;
        let previous = self.pointers[(target, id)].1;
        &&& 1 <= id <= self.nonce
        &&& (next == 0 <==> self.last_of(target) == id)
        &&& next != 0 ==> {
            &&& id < next
            &&& self.pointers.contains_key((target, next))
            &&& self.pointers[(target, next)].1 == id
        }
        &&& previous != 0 ==> {
            &&& previous < id
            &&& self.pointers.contains_key((target, previous))
            &&& self.pointers[(target, previous)].0 == id
        }
    }

    /// The pointer of `target` to its last record leads to a record.
    pub open spec fn last_ok(self, target: Signatory) -> bool {
        self.last_of(target) != 0 ==> self.pointers.contains_key((target, self.last_of(target)))
    }

    /// Every list is a doubly linked list in order.
    pub open spec fn valid(self) -> bool {
        &&& forall|target: Signatory, id: u64| #[trigger]
            self.pointers.contains_key((target, id)) ==> self.node_ok(target, id)
        &&& forall|target: Signatory| #[trigger] self.last_ok(target)
    }

    /// The chain after a record was added at the end of the list of
    /// `target`, under the next id.
    pub open spec fn add(self, target: Signatory) -> Chain {
        let id = (self.nonce + 1) as u64;
        let last = self.last_of(target);
        let relinked = if last > 0 {
            self.pointers.insert((target, last), (id, self.pointers_of(target, last).1))
        } else {
            self.pointers
        };
        Chain {
            nonce: id,
            pointers: relinked.insert((target, id), (0, last)),
            last: self.last.insert(target, id),
        }
    }

    /// The chain after the record `id` of `target` was spliced out between
    /// `next` and `previous`.
    pub open spec fn remove(self, target: Signatory, id: u64, next: u64, previous: u64) -> Chain {
        let c1 = if next != 0 {
            Chain {
                pointers: self.pointers.insert(
                    (target, next),
                    (self.pointers_of(target, next).0, previous),
                ),
                ..self
            }
        } else {
            Chain { last: self.last.insert(target, previous), ..self }
        };
        let c2 = if previous != 0 {
            Chain {
                pointers: c1.pointers.insert(
                    (target, previous),
                    (next, c1.pointers_of(target, previous).1),
                ),
                ..c1
            }
        } else {
            c1
        };
        Chain { pointers: c2.pointers.remove((target, id)), ..c2 }
    }

    /// Adding a record keeps the chain in order, and makes no record but the
    /// new one.
    pub proof fn lemma_add_valid(self, target: Signatory)
        requires
            self.valid(),
            self.nonce < u64::MAX,
        ensures
            self.add(target).valid(),
            self.add(target).pointers.dom() == self.pointers.dom().insert(
                (target, (self.nonce + 1) as u64),
            ),
            !self.pointers.contains_key((target, (self.nonce + 1) as u64)),
    {
        let id = (self.nonce + 1) as u64;
        let last = self.last_of(target);
        let after = self.add(target);
        assert(self.last_ok(target));
        if self.pointers.contains_key((target, id)) {
            assert(self.node_ok(target, id));
        }
        if last > 0 {
            assert(self.node_ok(target, last));
        }
        assert(after.pointers.dom() =~= self.pointers.dom().insert((target, id)));
        assert forall|t: Signatory, i: u64| #[trigger]
            after.pointers.contains_key((t, i)) implies after.node_ok(t, i) by {
            if t == target && i == id {
            } else {
                assert(self.pointers.contains_key((t, i)));
                assert(self.node_ok(t, i));
                let next = self.pointers[(t, i)].0;
                let previous = self.pointers[(t, i)].1;
                if next != 0 {
                    assert(self.node_ok(t, next));
                }
                if previous != 0 {
                    assert(self.node_ok(t, previous));
                }
            }
        }
        assert forall|t: Signatory| #[trigger] after.last_ok(t) by {
            assert(self.last_ok(t));
        }
    }

    /// After a record was spliced out between its own neighbours, every
    /// record that is left is threaded as it should be.
    proof fn lemma_remove_node_ok(self, target: Signatory, id: u64, t: Signatory, i: u64)
        requires
            self.valid(),
            self.pointers.contains_key((target, id)),
            self.pointers.contains_key((t, i)),
            t != target || i != id,
        ensures
            self.remove(
                target,
                id,
                self.pointers[(target, id)].0,
                self.pointers[(target, id)].1,
            ).pointers.contains_key((t, i)),
            self.remove(
                target,
                id,
                self.pointers[(target, id)].0,
                self.pointers[(target, id)].1,
            ).node_ok(t, i),
    {
        let next = self.pointers[(target, id)].0;
        let previous = self.pointers[(target, id)].1;
        let after = self.remove(target, id, next, previous);
        let m0 = self.pointers;
        let m1 = if next != 0 {
            m0.insert((target, next), (self.pointers_of(target, next).0, previous))
        } else {
            m0
        };
        let m2 = if previous != 0 {
            m1.insert(
                (target, previous),
                (next, (if m1.contains_key((target, previous)) {
                    m1[(target, previous)]
                } else {
                    (0u64, 0u64)
                }).1),
            )
        } else {
            m1
        };
        assert(after.pointers == m2.remove((target, id)));
        assert(self.node_ok(target, id));
        assert(self.node_ok(t, i));
        if next != 0 {
            assert(self.node_ok(target, next));
        }
        if previous != 0 {
            assert(self.node_ok(target, previous));
        }
        let n = m0[(t, i)].0;
        let p = m0[(t, i)].1;
        if n != 0 {
            assert(self.node_ok(t, n));
        }
        if p != 0 {
            assert(self.node_ok(t, p));
        }
        if t != target {
            assert(after.pointers[(t, i)] == m0[(t, i)]);
            assert(after.last_of(t) == self.last_of(t));
            if n != 0 {
                assert(after.pointers[(t, n)] == m0[(t, n)]);
            }
            if p != 0 {
                assert(after.pointers[(t, p)] == m0[(t, p)]);
            }
        } else if next != 0 && i == next {
            assert(after.pointers[(t, i)] == (n, previous));
            assert(after.last_of(t) == self.last_of(t));
            if n != 0 {
                assert(after.pointers[(t, n)] == m0[(t, n)]);
            }
            if previous != 0 {
                assert(after.pointers[(t, previous)].0 == next);
            }
        } else if previous != 0 && i == previous {
            assert(after.pointers[(t, i)] == (next, p));
            if next != 0 {
                assert(after.pointers[(t, next)].1 == previous);
                assert(after.last_of(t) == self.last_of(t));
            } else {
                assert(after.last_of(t) == previous);
            }
            if p != 0 {
                assert(after.pointers[(t, p)] == m0[(t, p)]);
            }
        } else {
            assert(after.pointers[(t, i)] == m0[(t, i)]);
            assert(n != id);
            assert(p != id);
            if next == 0 {
                assert(after.last_of(t) == previous);
            } else {
                assert(after.last_of(t) == self.last_of(t));
            }
            if n != 0 {
                assert(after.pointers.contains_key((t, n)));
                assert(after.pointers[(t, n)].1 == i);
            }
            if p != 0 {
                assert(after.pointers.contains_key((t, p)));
                assert(after.pointers[(t, p)].0 == i);
            }
        }
    }

    /// Splicing a record out between its own neighbours keeps the chain in
    /// order, and takes that record away and no other.
    pub proof fn lemma_remove_valid(self, target: Signatory, id: u64)
        requires
            self.valid(),
            self.pointers.contains_key((target, id)),
        ensures
            self.remove(
                target,
                id,
                self.pointers[(target, id)].0,
                self.pointers[(target, id)].1,
            ).valid(),
            self.remove(
                target,
                id,
                self.pointers[(target, id)].0,
                self.pointers[(target, id)].1,
            ).pointers.dom() == self.pointers.dom().remove((target, id)),
            self.remove(target, id, self.pointers[(target, id)].0, self.pointers[(target, id)].1).nonce
                == self.nonce,
    {
        let next = self.pointers[(target, id)].0;
        let previous = self.pointers[(target, id)].1;
        let after = self.remove(target, id, next, previous);
        assert(self.node_ok(target, id));
        if next != 0 {
            assert(self.node_ok(target, next));
        }
        if previous != 0 {
            assert(self.node_ok(target, previous));
        }
        assert(after.pointers.dom() =~= self.pointers.dom().remove((target, id)));
        assert forall|t: Signatory, i: u64| #[trigger]
            after.pointers.contains_key((t, i)) implies after.node_ok(t, i) by {
            assert(self.pointers.contains_key((t, i)));
            self.lemma_remove_node_ok(target, id, t, i);
        }
        assert forall|t: Signatory| #[trigger] after.last_ok(t) by {
            assert(self.last_ok(t));
            if t == target && next == 0 && previous != 0 {
                assert(after.last_of(t) == previous);
                assert(after.pointers.contains_key((t, previous)));
            }
        }
    }
}

} // verus!
