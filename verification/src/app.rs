//! The application root: it owns the items and the pending input, and is the
//! only place where they change.

use vstd::prelude::*;

use crate::ids::{contains_id, find_id, has_id, mint_id, random_id};
use crate::item::{views, ItemS, ItemState};
use crate::msg::Msg;
use crate::state::{
    completes, lemma_filter_absent, lemma_filter_removes_one, lemma_remove_keeps_distinct, AppView,
};

verus! {

/// The to-do list and the text of its input field.
pub struct App {
    items: Vec<ItemS>,
    value: String,
}

impl View for App {
    type V = AppView;

    closed spec fn view(&self) -> AppView {
        AppView { items: views(self.items@), value: self.value@ }
    }
}

impl App {
    /// The identifiers of the items are pairwise distinct.
    pub open spec fn wf(&self) -> bool {
        self@.wf()
    }

    /// The start-up state whose seed item carries the identifier `id`.
    pub fn with_first_id(id: usize) -> (app: App)
        ensures
            app@ == AppView::initial(id),
            app.wf(),
    {
        let mut items: Vec<ItemS> = Vec::new();
        items.push(ItemS::new(id, "FIRST ITEM".to_string()));
        let app = App { items, value: "".to_string() };
        proof {
            reveal_strlit("");
            assert(app@.items =~= AppView::initial(id).items);
            assert(app@.value =~= AppView::initial(id).value);
        }
        app
    }

    /// The start-up state: one seed item under a randomly drawn identifier,
    /// and an empty input field.
    pub fn create() -> (app: App)
        ensures
            exists|id: usize| app@ == #[trigger] AppView::initial(id),
            app.wf(),
    {
        let id = random_id();
        App::with_first_id(id)
    }

    /// The items, in insertion order.
    pub fn items(&self) -> (items: &Vec<ItemS>)
        ensures
            views(items@) == self@.items,
    {
        &self.items
    }

    /// The text of the input field that has not been submitted yet.
    pub fn value(&self) -> (value: &String)
        ensures
            value@ == self@.value,
    {
        &self.value
    }

    /// Replaces the pending input by `text`. Always asks for a re-render.
    pub fn update_value(&mut self, text: String) -> (rerender: bool)
        requires
            old(self).wf(),
        ensures
            final(self)@ == old(self)@.update_value(text@),
            final(self).wf(),
            rerender,
    {
        self.value = text;
        true
    }

    /// Submits the pending input as a new item in state `NEW` and empties the
    /// input field. The item's identifier is `drawn`, or the smallest free
    /// identifier if `drawn` is taken. With an empty input field nothing
    /// changes and no re-render is asked for.
    pub fn add_item(&mut self, drawn: usize) -> (rerender: bool)
        requires
            old(self).wf(),
        ensures
            final(self)@ == old(self)@.add_item(drawn),
            final(self).wf(),
            rerender == (old(self)@.value.len() != 0),
            !rerender ==> final(self)@ == old(self)@,
            rerender ==> !has_id(old(self)@.items, final(self)@.items.last().id),
    {
        if self.value.as_str().is_empty() {
            return false;
        }
        let id = mint_id(&self.items, drawn);
        let item = ItemS::new(id, self.value.clone());
        self.items.push(item);
        self.value = "".to_string();
        proof {
            reveal_strlit("");
            let before = old(self)@;
            let after = self@;
            assert(after.items =~= before.add_item(drawn).items);
            assert(after.value =~= before.add_item(drawn).value);
            assert forall|i: int, j: int| 0 <= i < j < after.items.len() implies (
            #[trigger] after.items[i]).id != (#[trigger] after.items[j]).id by {
                assert(after.items[i] == before.items[i]);
                if j < before.items.len() {
                    assert(after.items[j] == before.items[j]);
                }
            }
            assert(self.items.len() <= usize::MAX);
        }
        true
    }

    /// Removes the item that carries `id`; the others keep their order. If
    /// no item carries `id`, nothing changes and no re-render is asked for.
    pub fn delete_item(&mut self, id: usize) -> (rerender: bool)
        requires
            old(self).wf(),
        ensures
            final(self)@ == old(self)@.delete_item(id),
            final(self).wf(),
            rerender == has_id(old(self)@.items, id),
            !rerender ==> final(self)@ == old(self)@,
            forall|at: int|
                0 <= at < old(self)@.items.len() && (#[trigger] old(self)@.items[at]).id == id
                    ==> final(self)@.items == old(self)@.items.remove(at),
    {
        match find_id(&self.items, id) {
            Some(pos) => {
                self.items.remove(pos);
                proof {
                    let before = old(self)@;
                    lemma_filter_removes_one(before.items, id, pos as int);
                    lemma_remove_keeps_distinct(before.items, pos as int);
                    assert(self@.items =~= before.items.remove(pos as int));
                    assert forall|at: int|
                        0 <= at < before.items.len() && (#[trigger] before.items[at]).id
                            == id implies at == pos by {
                        if at < pos {
                            assert(before.items[at].id != before.items[pos as int].id);
                        } else if pos < at {
                            assert(before.items[pos as int].id != before.items[at].id);
                        }
                    }
                }
                true
            },
            None => {
                proof {
                    lemma_filter_absent(self@.items, id);
                }
                false
            },
        }
    }

    /// Sets the state of the item that carries `id` to `COMPLETED`, keeping
    /// its identifier and text. If no item carries `id`, nothing changes and
    /// no re-render is asked for.
    pub fn complete_item(&mut self, id: usize) -> (rerender: bool)
        requires
            old(self).wf(),
        ensures
            final(self)@ == old(self)@.complete_item(id),
            final(self).wf(),
            rerender == has_id(old(self)@.items, id),
            !rerender ==> final(self)@ == old(self)@,
            final(self)@.items.len() == old(self)@.items.len(),
            forall|at: int|
                0 <= at < old(self)@.items.len() ==> (#[trigger] final(self)@.items[at])
                    == completes(id)(old(self)@.items[at]),
    {
        if !contains_id(&self.items, id) {
            proof {
                assert(self@.items =~= self@.complete_item(id).items);
            }
            return false;
        }
        let n = self.items.len();
        let mut i: usize = 0;
        while i < n
            invariant
                i <= n,
                n == self.items.len(),
                self.items.len() == old(self).items.len(),
                self.value == old(self).value,
                forall|j: int|
                    0 <= j < i ==> (#[trigger] self.items[j])@ == completes(id)(old(self).items[j]@),
                forall|j: int| i <= j < n ==> (#[trigger] self.items[j]) == old(self).items[j],
            decreases n - i,
        {
            if self.items[i].id == id {
                self.items[i].state = ItemState::COMPLETED;
            }
            i = i + 1;
        }
        proof {
            let before = old(self)@;
            assert(self@.items =~= before.complete_item(id).items);
            assert forall|a: int, b: int| 0 <= a < b < self@.items.len() implies (
            #[trigger] self@.items[a]).id != (#[trigger] self@.items[b]).id by {
                assert(self@.items[a].id == before.items[a].id);
                assert(self@.items[b].id == before.items[b].id);
            }
        }
        true
    }

    /// Applies `msg`, with `drawn` as the identifier drawn in case an item is
    /// added, and says whether the display has to be derived anew.
    pub fn apply(&mut self, msg: Msg, drawn: usize) -> (rerender: bool)
        requires
            old(self).wf(),
        ensures
            final(self)@ == old(self)@.step(msg@, drawn),
            final(self).wf(),
            rerender == old(self)@.rerenders(msg@),
            !rerender ==> final(self)@ == old(self)@,
    {
        match msg {
            Msg::UpdateValue(text) => self.update_value(text),
            Msg::AddItem() => self.add_item(drawn),
            Msg::DeleteItem(id) => self.delete_item(id),
            Msg::CompleteItem(id) => self.complete_item(id),
        }
    }

    /// Applies `msg` and says whether the display has to be derived anew.
    /// Where an item is added, its identifier is drawn at random and settled
    /// as in [`App::add_item`]; the new state is that of [`App::apply`] for
    /// the identifier that was drawn.
    pub fn update(&mut self, msg: Msg) -> (rerender: bool)
        requires
            old(self).wf(),
        ensures
            exists|drawn: usize| final(self)@ == #[trigger] old(self)@.step(msg@, drawn),
            final(self).wf(),
            rerender == old(self)@.rerenders(msg@),
            !rerender ==> final(self)@ == old(self)@,
    {
        let ghost before = self@;
        match msg {
            Msg::AddItem() => {
                if self.value.as_str().is_empty() {
                    assert(self@ == before.step(msg@, 0));
                    false
                } else {
                    let drawn = random_id();
                    let rerender = self.add_item(drawn);
                    assert(self@ == before.step(msg@, drawn));
                    rerender
                }
            },
            other => {
                let rerender = self.apply(other, 0);
                assert(self@ == before.step(msg@, 0));
                rerender
            },
        }
    }
}

} // verus!
