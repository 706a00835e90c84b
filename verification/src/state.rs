//! The application state as a mathematical value, and the four transitions
//! on it.

use vstd::prelude::*;

use crate::ids::{distinct_ids, fresh_id, has_id, lemma_fresh_id_is_unused};
use crate::item::{ItemState, ItemView};
use crate::msg::MsgView;

verus! {

/// Mathematical model of the application: the items in insertion order and
/// the text of the input field that has not been submitted yet.
pub ghost struct AppView {
    pub items: Seq<ItemView>,
    pub value: Seq<char>,
}

/// The test that an item passes when the item `id` is deleted.
pub open spec fn keeps(id: usize) -> spec_fn(ItemView) -> bool {
    |it: ItemView| it.id != id
}

/// What becomes of an item when the item `id` is completed.
pub open spec fn completes(id: usize) -> spec_fn(ItemView) -> ItemView {
    |it: ItemView|
        if it.id == id {
            ItemView { state: ItemState::COMPLETED, ..it }
        } else {
            it
        }
}

impl AppView {
    /// The identifiers are pairwise distinct, and the list fits in memory.
    pub open spec fn wf(self) -> bool {
        &&& distinct_ids(self.items)
        &&& self.items.len() <= usize::MAX
    }

    /// The state at start-up: one seed item with identifier `id`, and an
    /// empty input field.
    pub open spec fn initial(id: usize) -> AppView {
        AppView {
            items: seq![ItemView { id, value: "FIRST ITEM"@, state: ItemState::NEW }],
            value: Seq::empty(),
        }
    }

    /// The input field now holds `text`.
    pub open spec fn update_value(self, text: Seq<char>) -> AppView {
        AppView { value: text, ..self }
    }

    /// The pending input is submitted while `drawn` is the identifier drawn
    /// for it. Empty input changes nothing.
    pub open spec fn add_item(self, drawn: usize) -> AppView {
        if self.value.len() == 0 {
            self
        } else {
            AppView {
                items: self.items.push(
                    ItemView {
                        id: fresh_id(self.items, drawn),
                        value: self.value,
                        state: ItemState::NEW,
                    },
                ),
                value: Seq::empty(),
            }
        }
    }

    /// The items that carry `id` leave the list; the others keep their order.
    pub open spec fn delete_item(self, id: usize) -> AppView {
        AppView { items: self.items.filter(keeps(id)), ..self }
    }

    /// The items that carry `id` become `COMPLETED`; nothing else changes.
    pub open spec fn complete_item(self, id: usize) -> AppView {
        AppView { items: self.items.map_values(completes(id)), ..self }
    }

    /// The state after `msg`, where `drawn` is the identifier drawn in case
    /// an item is added.
    pub open spec fn step(self, msg: MsgView, drawn: usize) -> AppView {
        match msg {
            MsgView::AddItem => self.add_item(drawn),
            MsgView::DeleteItem(id) => self.delete_item(id),
            MsgView::CompleteItem(id) => self.complete_item(id),
            MsgView::UpdateValue(text) => self.update_value(text),
        }
    }

    /// Whether `msg` asks for the display to be derived anew: always for new
    /// input text, for an add when there is text to submit, and for a delete
    /// or a completion when the identifier is present.
    pub open spec fn rerenders(self, msg: MsgView) -> bool {
        match msg {
            MsgView::AddItem => self.value.len() != 0,
            MsgView::DeleteItem(id) => has_id(self.items, id),
            MsgView::CompleteItem(id) => has_id(self.items, id),
            MsgView::UpdateValue(_) => true,
        }
    }
}

/// Filtering by `keeps(id)` changes nothing when no item carries `id`.
pub proof fn lemma_filter_absent(items: Seq<ItemView>, id: usize)
    requires
        !has_id(items, id),
    ensures
        items.filter(keeps(id)) == items,
    decreases items.len(),
{
    reveal(Seq::filter);
    if items.len() > 0 {
        let rest = items.drop_last();
        assert forall|i: int| 0 <= i < rest.len() implies (#[trigger] rest[i]).id != id by {
            assert(items[i].id != id);
        }
        lemma_filter_absent(rest, id);
        assert(items.last() == items[items.len() - 1]);
        assert(items.last().id != id);
        assert(rest.push(items.last()) =~= items);
    }
}

/// With distinct identifiers, filtering by `keeps(id)` removes the one item
/// that carries `id`.
pub proof fn lemma_filter_removes_one(items: Seq<ItemView>, id: usize, pos: int)
    requires
        distinct_ids(items),
        0 <= pos < items.len(),
        items[pos].id == id,
    ensures
        items.filter(keeps(id)) == items.remove(pos),
    decreases items.len(),
{
    reveal(Seq::filter);
    let rest = items.drop_last();
    let last = items.last();
    if pos == items.len() - 1 {
        assert forall|i: int| 0 <= i < rest.len() implies (#[trigger] rest[i]).id != id by {
            assert(items[i].id != items[pos].id);
        }
        lemma_filter_absent(rest, id);
        assert(items.remove(pos) =~= rest);
    } else {
        assert(items[pos].id != items[items.len() - 1].id);
        assert forall|i: int, j: int| 0 <= i < j < rest.len() implies (#[trigger] rest[i]).id != (
        #[trigger] rest[j]).id by {
            assert(items[i].id != items[j].id);
        }
        assert(rest[pos].id == id);
        lemma_filter_removes_one(rest, id, pos);
        assert(rest.remove(pos).push(last) =~= items.remove(pos));
    }
}

/// Removing an item keeps the identifiers distinct.
pub proof fn lemma_remove_keeps_distinct(items: Seq<ItemView>, pos: int)
    requires
        distinct_ids(items),
        0 <= pos < items.len(),
    ensures
        distinct_ids(items.remove(pos)),
{
    let out = items.remove(pos);
    assert forall|i: int, j: int| 0 <= i < j < out.len() implies (#[trigger] out[i]).id != (
    #[trigger] out[j]).id by {
        let a = if i < pos { i } else { i + 1 };
        let b = if j < pos { j } else { j + 1 };
        assert(out[i] == items[a]);
        assert(out[j] == items[b]);
    }
}

/// Every transition takes a well-formed state to a well-formed state, as
/// long as the list can take one more item.
pub proof fn lemma_step_keeps_wf(s: AppView, msg: MsgView, drawn: usize)
    requires
        s.wf(),
        s.items.len() < usize::MAX,
    ensures
        s.step(msg, drawn).wf(),
{
    match msg {
        MsgView::AddItem => {
            if s.value.len() != 0 {
                lemma_fresh_id_is_unused(s.items, drawn);
                let id = fresh_id(s.items, drawn);
                let out = s.add_item(drawn).items;
                assert forall|i: int, j: int| 0 <= i < j < out.len() implies (#[trigger] out[i]).id
                    != (#[trigger] out[j]).id by {
                    assert(out[i] == s.items[i]);
                    if j < s.items.len() {
                        assert(out[j] == s.items[j]);
                    }
                }
            }
        },
        MsgView::DeleteItem(id) => {
            if has_id(s.items, id) {
                let pos = choose|i: int| 0 <= i < s.items.len() && (#[trigger] s.items[i]).id == id;
                lemma_filter_removes_one(s.items, id, pos);
                lemma_remove_keeps_distinct(s.items, pos);
            } else {
                lemma_filter_absent(s.items, id);
            }
        },
        MsgView::CompleteItem(id) => {
            let out = s.complete_item(id).items;
            assert forall|i: int, j: int| 0 <= i < j < out.len() implies (#[trigger] out[i]).id
                != (#[trigger] out[j]).id by {
                assert(out[i].id == s.items[i].id);
                assert(out[j].id == s.items[j].id);
            }
        },
        MsgView::UpdateValue(_) => {},
    }
}

} // verus!
