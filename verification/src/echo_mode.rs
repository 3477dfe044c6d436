//! The text item domain: one candidate per line handed in at startup,
//! confirmed lines are echoed back by the boundary that owns the output.

use vstd::prelude::*;
use vstd::string::StrSliceExecFns;

use crate::index_list::IndexList;
use crate::index_list::ListChange;
use crate::menu_item_model::MenuItemModel;
use crate::rank::lemma_rank_prefix_sound;
use crate::rank::rank_indices;
use crate::rank::rank_indices_spec;
use crate::strings::lower_of;
use crate::strings::lowercase;

verus! {

/// The text mode: the immutable line store with its precomputed lowercase
/// search keys, and the index projection it publishes.
pub struct EchoMode {
    pub items: Vec<MenuItemModel>,
    pub lower: Vec<String>,
    pub model: IndexList,
}

impl EchoMode {
    /// The candidate store, in original-index order.
    pub open spec fn items_spec(&self) -> Seq<MenuItemModel> {
        self.items@
    }

    /// The precomputed lowercase search keys, aligned with the store.
    pub open spec fn keys_spec(&self) -> Seq<Seq<char>> {
        self.lower.deep_view()
    }

    /// Every candidate is a line of text, each key is the lowercase form of
    /// its line, and the store is short enough for `u32` positions.
    pub open spec fn wf(&self) -> bool {
        &&& self.items@.len() == self.lower@.len()
        &&& self.items@.len() <= u32::MAX
        &&& self.model.wf()
        &&& forall|i: int|
            0 <= i < self.items@.len() ==> ((#[trigger] self.items@[i]) matches
                MenuItemModel::String(_))
        &&& forall|i: int|
            0 <= i < self.items@.len() ==> (#[trigger] self.lower@[i]@) == lower_of(
                self.items@[i].name_spec(),
            )
    }

    /// Builds the mode from the lines read at startup, computing each
    /// lowercase search key once; the projection starts empty.
    pub fn new(strings: Vec<String>) -> (r: EchoMode)
        requires
            strings@.len() <= u32::MAX,
        ensures
            r.wf(),
            r.items_spec().len() == strings@.len(),
            forall|i: int|
                0 <= i < strings@.len() ==> (#[trigger] r.items_spec()[i])
                    == MenuItemModel::String(strings@[i]),
            r.model.mapping() == Seq::<u32>::empty(),
            r.model.arena_len() == 0,
            r.model.pool_len() == 0,
    {
        let ghost orig = strings@;
        let mut strings = strings;
        let mut items: Vec<MenuItemModel> = Vec::new();
        let mut lower: Vec<String> = Vec::new();
        while strings.len() > 0
            invariant
                items@.len() == lower@.len(),
                items@.len() + strings@.len() == orig.len(),
                strings@ =~= orig.skip(items@.len() as int),
                forall|i: int|
                    0 <= i < items@.len() ==> (#[trigger] items@[i]) == MenuItemModel::String(
                        orig[i],
                    ),
                forall|i: int|
                    0 <= i < items@.len() ==> (#[trigger] lower@[i]@) == lower_of(
                        items@[i].name_spec(),
                    ),
            decreases strings@.len(),
        {
            let line = strings.remove(0);
            proof {
                assert(line == orig[items@.len() as int]);
                assert(strings@ =~= orig.skip(items@.len() as int + 1));
            }
            let key = lowercase(line.as_str());
            lower.push(key);
            items.push(MenuItemModel::String(line));
        }
        EchoMode { items, lower, model: IndexList::new() }
    }

    /// Ranks the store against `query` and installs the resulting mapping,
    /// reporting one structural change that covers every old and new
    /// position.  The identity pool is untouched.
    pub fn search(&mut self, query: &str) -> (change: ListChange)
        requires
            old(self).wf(),
        ensures
            final(self).wf(),
            final(self).items_spec() == old(self).items_spec(),
            final(self).keys_spec() == old(self).keys_spec(),
            final(self).model.mapping() == rank_indices_spec(query@, old(self).keys_spec()),
            final(self).model.arena_len() == old(self).model.arena_len(),
            final(self).model.pool_len() == old(self).model.pool_len(),
            forall|t: usize| final(self).model.is_bound(t) == old(self).model.is_bound(t),
            forall|t: usize|
                t < old(self).model.arena_len() ==> final(self).model.slot_index(t) == old(
                    self,
                ).model.slot_index(t),
            change.position == 0,
            change.removed == old(self).model.mapping().len(),
            change.added == rank_indices_spec(query@, old(self).keys_spec()).len(),
    {
        proof {
            if query@.len() > 0 {
                lemma_rank_prefix_sound(
                    lower_of(query@),
                    self.lower.deep_view(),
                    self.lower.deep_view().len() as int,
                );
            }
        }
        let idx = rank_indices(query, &self.lower);
        self.model.set_indecies(idx)
    }

    /// Installs the identity mapping: every line, in store order.  Used once
    /// at startup to show the full store before the first keystroke.
    pub fn filled_model(&mut self) -> (change: ListChange)
        requires
            old(self).wf(),
        ensures
            final(self).wf(),
            final(self).items_spec() == old(self).items_spec(),
            final(self).keys_spec() == old(self).keys_spec(),
            final(self).model.mapping().len() == old(self).items_spec().len(),
            forall|k: int|
                0 <= k < final(self).model.mapping().len() ==> final(self).model.mapping()[k] == k,
            final(self).model.arena_len() == old(self).model.arena_len(),
            final(self).model.pool_len() == old(self).model.pool_len(),
            change.position == 0,
            change.removed == old(self).model.mapping().len(),
            change.added == old(self).items_spec().len(),
    {
        proof {
            reveal_strlit("");
        }
        let idx = rank_indices("", &self.lower);
        proof {
            assert forall|k: int| 0 <= k < idx@.len() implies idx@[k] == k by {}
        }
        self.model.set_indecies(idx)
    }

    /// The candidate at a resolved original index.
    pub fn get_menu_item_model(&self, index: u32) -> (r: &MenuItemModel)
        requires
            self.wf(),
            index < self.items_spec().len(),
        ensures
            r == self.items_spec()[index as int],
    {
        &self.items[index as usize]
    }
}

} // verus!
