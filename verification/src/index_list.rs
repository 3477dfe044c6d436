//! The index projection: the current position-to-original-index mapping,
//! published to the UI through recyclable row identities.
//!
//! Identities live in a slot arena owned by the projection.  A slot is either
//! bound to a visible row or on the free list, never both; handing a slot out
//! removes it from the free list, so two simultaneously bound positions can
//! never share an identity.

use vstd::prelude::*;

verus! {

/// A recyclable row identity: the original index of whatever candidate
/// occupies the row right now, overwritten in place on reuse.
#[derive(Clone, Copy, PartialEq, Eq, Structural, Debug)]
pub struct Index {
    pub index: u32,
}

/// One structural-change notification: the positions from `position` on were
/// rewritten, `removed` of them dropped and `added` put in their place.
#[derive(Clone, Copy, PartialEq, Eq, Structural, Debug)]
pub struct ListChange {
    pub position: u32,
    pub removed: u32,
    pub added: u32,
}

/// The projection: a mapping from display position to original index, plus
/// the arena of row identities with its free list.
pub struct IndexList {
    items: Vec<u32>,
    arena: Vec<Index>,
    free: Vec<usize>,
}

impl IndexList {
    /// The free list names existing arena slots, each at most once, and the
    /// mapping is short enough to publish positions as `u32`.
    pub closed spec fn wf(&self) -> bool {
        &&& self.items@.len() <= u32::MAX
        &&& forall|i: int| 0 <= i < self.free@.len() ==> (#[trigger] self.free@[i]) < self.arena@.len()
        &&& forall|i: int, j: int|
            #![trigger self.free@[i], self.free@[j]]
            0 <= i < j < self.free@.len() ==> self.free@[i] != self.free@[j]
    }

    /// The current position-to-original-index mapping.
    pub closed spec fn mapping(&self) -> Seq<u32> {
        self.items@
    }

    /// How many identities have ever been created.
    pub closed spec fn arena_len(&self) -> nat {
        self.arena@.len()
    }

    /// How many identities sit on the free list.
    pub closed spec fn pool_len(&self) -> nat {
        self.free@.len()
    }

    /// `slot` is bound to a visible row: it exists and is not free.
    pub closed spec fn is_bound(&self, slot: usize) -> bool {
        slot < self.arena@.len() && !self.free@.contains(slot)
    }

    /// The original index that the identity in `slot` carries.
    pub closed spec fn slot_index(&self, slot: usize) -> u32 {
        self.arena@[slot as int].index
    }

    /// What one successful `item` call does: `slot` goes from unbound to
    /// bound, carrying the mapping entry of `position`; nothing else changes
    /// its binding or its carried index, and the mapping stays put.  The slot
    /// comes off the free list when one is available, otherwise it is freshly
    /// constructed.
    pub open spec fn issued(pre: IndexList, post: IndexList, position: u32, slot: usize) -> bool {
        &&& post.wf()
        &&& post.mapping() == pre.mapping()
        &&& !pre.is_bound(slot)
        &&& post.is_bound(slot)
        &&& forall|t: usize| t != slot ==> post.is_bound(t) == pre.is_bound(t)
        &&& forall|t: usize|
            t != slot && pre.is_bound(t) && t < pre.arena_len() ==> post.slot_index(t)
                == pre.slot_index(t)
        &&& post.slot_index(slot) == pre.mapping()[position as int]
        &&& (pre.pool_len() > 0 ==> post.pool_len() == pre.pool_len() - 1 && post.arena_len()
            == pre.arena_len())
        &&& (pre.pool_len() == 0 ==> post.arena_len() == pre.arena_len() + 1 && slot
            == pre.arena_len() && post.pool_len() == 0)
    }

    /// A fresh projection: empty mapping, no identities yet.
    pub fn new() -> (r: IndexList)
        ensures
            r.wf(),
            r.mapping() == Seq::<u32>::empty(),
            r.arena_len() == 0,
            r.pool_len() == 0,
    {
        let r = IndexList { items: Vec::new(), arena: Vec::new(), free: Vec::new() };
        proof {
            assert(r.mapping() =~= Seq::<u32>::empty());
        }
        r
    }

    /// The current length of the projection.
    pub fn n_items(&self) -> (n: u32)
        requires
            self.wf(),
        ensures
            n == self.mapping().len(),
    {
        self.items.len() as u32
    }

    /// The original index at `position`, if any.
    pub fn index_at(&self, position: u32) -> (r: Option<u32>)
        requires
            self.wf(),
        ensures
            position < self.mapping().len() ==> r == Some(self.mapping()[position as int]),
            position >= self.mapping().len() ==> r is None,
    {
        if (position as usize) < self.items.len() {
            Some(self.items[position as usize])
        } else {
            None
        }
    }

    /// The original index that the identity in `slot` carries right now:
    /// what a row bound to it derives its display from.
    pub fn identity_index(&self, slot: usize) -> (r: u32)
        requires
            self.wf(),
            slot < self.arena_len(),
        ensures
            r == self.slot_index(slot),
    {
        self.arena[slot].index
    }

    /// Replaces the mapping wholesale and reports one structural change
    /// covering every position of the old and the new mapping; the identity
    /// pool is untouched.
    pub fn set_indecies(&mut self, indecies: Vec<u32>) -> (change: ListChange)
        requires
            old(self).wf(),
            indecies@.len() <= u32::MAX,
        ensures
            final(self).wf(),
            final(self).mapping() == indecies@,
            final(self).arena_len() == old(self).arena_len(),
            final(self).pool_len() == old(self).pool_len(),
            forall|t: usize| final(self).is_bound(t) == old(self).is_bound(t),
            forall|t: usize|
                t < old(self).arena_len() ==> final(self).slot_index(t) == old(self).slot_index(t),
            change.position == 0,
            change.removed == old(self).mapping().len(),
            change.added == indecies@.len(),
    {
        let change = ListChange {
            position: 0,
            removed: self.items.len() as u32,
            added: indecies.len() as u32,
        };
        self.items = indecies;
        change
    }

    /// Hands out a row identity for `position`: `None` past the end of the
    /// mapping, otherwise a slot freshly bound to that position's original
    /// index, recycled from the free list when one is available and newly
    /// constructed when the pool is exhausted.
    pub fn item(&mut self, position: u32) -> (r: Option<usize>)
        requires
            old(self).wf(),
        ensures
            final(self).wf(),
            position >= old(self).mapping().len() ==> r is None && *final(self) == *old(self),
            position < old(self).mapping().len() ==> match r {
                Some(slot) => IndexList::issued(*old(self), *final(self), position, slot),
                None => false,
            },
    {
        if (position as usize) >= self.items.len() {
            return None;
        }
        let orig = self.items[position as usize];
        match self.free.pop() {
            Some(slot) => {
                proof {
                    let f = old(self).free@;
                    assert(f[f.len() - 1] == slot);
                    assert(f.contains(slot));
                    assert forall|t: usize| self.free@.contains(t) implies f.contains(t) by {
                        let j = choose|j: int| 0 <= j < self.free@.len() && self.free@[j] == t;
                        assert(f[j] == t);
                    }
                    assert(!self.free@.contains(slot)) by {
                        if self.free@.contains(slot) {
                            let j = choose|j: int|
                                0 <= j < self.free@.len() && self.free@[j] == slot;
                            assert(f[j] == f[f.len() - 1]);
                        }
                    }
                    assert forall|t: usize| t != slot && f.contains(t) implies self.free@.contains(
                        t,
                    ) by {
                        let j = choose|j: int| 0 <= j < f.len() && f[j] == t;
                        assert(j < f.len() - 1);
                        assert(self.free@[j] == t);
                    }
                }
                self.arena[slot] = Index { index: orig };
                Some(slot)
            },
            None => {
                let slot = self.arena.len();
                self.arena.push(Index { index: orig });
                proof {
                    assert(!old(self).free@.contains(slot));
                    assert(self.free@ == old(self).free@);
                }
                Some(slot)
            },
        }
    }

    /// Returns a bound identity to the free list; its visual element is
    /// detached, so the slot may be overwritten by a later `item` call.
    pub fn recycle(&mut self, slot: usize)
        requires
            old(self).wf(),
            old(self).is_bound(slot),
        ensures
            final(self).wf(),
            final(self).mapping() == old(self).mapping(),
            final(self).arena_len() == old(self).arena_len(),
            final(self).pool_len() == old(self).pool_len() + 1,
            !final(self).is_bound(slot),
            forall|t: usize| t != slot ==> final(self).is_bound(t) == old(self).is_bound(t),
            forall|t: usize|
                t < old(self).arena_len() ==> final(self).slot_index(t) == old(self).slot_index(t),
    {
        proof {
            let f = old(self).free@;
            assert forall|t: usize| f.push(slot).contains(t) implies f.contains(t) || t == slot by {
                let j = choose|j: int| 0 <= j < f.push(slot).len() && f.push(slot)[j] == t;
                if j < f.len() {
                    assert(f[j] == t);
                }
            }
            assert forall|t: usize| f.contains(t) implies f.push(slot).contains(t) by {
                let j = choose|j: int| 0 <= j < f.len() && f[j] == t;
                assert(f.push(slot)[j] == t);
            }
            assert(f.push(slot)[f.len() as int] == slot);
            assert(f.push(slot).contains(slot));
        }
        self.free.push(slot);
    }
}

/// Two identities issued in succession are distinct and both stay bound:
/// the projection never double-issues one identity to two simultaneously
/// bound positions.
pub proof fn lemma_no_double_issue(
    l0: IndexList,
    l1: IndexList,
    l2: IndexList,
    pos1: u32,
    pos2: u32,
    slot1: usize,
    slot2: usize,
)
    requires
        IndexList::issued(l0, l1, pos1, slot1),
        IndexList::issued(l1, l2, pos2, slot2),
    ensures
        slot1 != slot2,
        l2.is_bound(slot1),
        l2.is_bound(slot2),
{
    assert(l1.is_bound(slot1));
    assert(!l1.is_bound(slot2));
}

/// Rebinding a recycled identity leaves no trace of what it carried before:
/// two projections that agree on everything but that identity's carried index
/// bind it to the same value.
pub proof fn lemma_rebind_no_trace(
    pre1: IndexList,
    post1: IndexList,
    pre2: IndexList,
    post2: IndexList,
    position: u32,
    slot: usize,
)
    requires
        IndexList::issued(pre1, post1, position, slot),
        IndexList::issued(pre2, post2, position, slot),
        pre1.mapping() == pre2.mapping(),
        position < pre1.mapping().len(),
    ensures
        post1.slot_index(slot) == post2.slot_index(slot),
        post1.slot_index(slot) == pre1.mapping()[position as int],
{
}

} // verus!
