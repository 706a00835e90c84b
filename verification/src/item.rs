//! A to-do entry and its lifecycle state.

use vstd::prelude::*;

verus! {

/// Lifecycle state of an item.
///
/// Deleting an item removes it from the list, so no operation of this
/// library ever produces `DELETED`; the variant is kept so that the set of
/// states is complete.
#[allow(non_camel_case_types)]
#[derive(Clone, Copy, Debug, PartialEq, Eq, Structural)]
pub enum ItemState {
    NEW,
    COMPLETED,
    DELETED,
}

/// One to-do entry: an identifier, its text and its state.
#[derive(Debug)]
pub struct ItemS {
    pub id: usize,
    pub value: String,
    pub state: ItemState,
}

/// Mathematical model of an [`ItemS`].
pub ghost struct ItemView {
    pub id: usize,
    pub value: Seq<char>,
    pub state: ItemState,
}

impl View for ItemS {
    type V = ItemView;

    open spec fn view(&self) -> ItemView {
        ItemView { id: self.id, value: self.value@, state: self.state }
    }
}

/// The models of a run of items, in the same order.
pub open spec fn views(items: Seq<ItemS>) -> Seq<ItemView> {
    items.map_values(|it: ItemS| it@)
}

impl Clone for ItemS {
    fn clone(&self) -> (res: Self)
        ensures
            res@ == self@,
    {
        ItemS { id: self.id, value: self.value.clone(), state: self.state }
    }
}

impl ItemS {
    /// A new entry with the given identifier and text, in state `NEW`.
    pub fn new(id: usize, value: String) -> (res: Self)
        ensures
            res@ == (ItemView { id, value: value@, state: ItemState::NEW }),
    {
        ItemS { id, value, state: ItemState::NEW }
    }
}

} // verus!
