//! Laws of the transitions, stated over the mathematical model of the
//! application and proved once for all states.

use vstd::prelude::*;

use crate::ids::{distinct_ids, has_id, lemma_fresh_id_is_unused};
use crate::item::{ItemState, ItemView};
use crate::msg::MsgView;
use crate::render::page_of;
use crate::state::{
    keeps, lemma_filter_absent, lemma_filter_removes_one, lemma_step_keeps_wf, AppView,
};

verus! {

/// Submitting an empty input field changes neither the items nor the field,
/// and asks for no re-render.
pub proof fn law_add_empty_changes_nothing(s: AppView, drawn: usize)
    requires
        s.value.len() == 0,
    ensures
        s.add_item(drawn) == s,
        !s.rerenders(MsgView::AddItem),
{
}

/// Submitting a non-empty input field appends exactly one item: it carries
/// the submitted text, is in state `NEW`, and has an identifier that no
/// earlier item carries (the drawn one, where that is free). The earlier
/// items are untouched, and the input field is empty afterwards.
pub proof fn law_add_appends_one(s: AppView, drawn: usize)
    requires
        s.wf(),
        s.value.len() != 0,
    ensures
        s.add_item(drawn).items.len() == s.items.len() + 1,
        s.add_item(drawn).items.drop_last() == s.items,
        s.add_item(drawn).items.last().value == s.value,
        s.add_item(drawn).items.last().state == ItemState::NEW,
        !has_id(s.items, s.add_item(drawn).items.last().id),
        !has_id(s.items, drawn) ==> s.add_item(drawn).items.last().id == drawn,
        s.add_item(drawn).value.len() == 0,
        s.rerenders(MsgView::AddItem),
{
    lemma_fresh_id_is_unused(s.items, drawn);
    assert(s.add_item(drawn).items.drop_last() =~= s.items);
}

/// Typing `text` into the input field and submitting it, while `drawn` is
/// the identifier drawn for the new item.
pub open spec fn submit(s: AppView, text: Seq<char>, drawn: usize) -> AppView {
    s.update_value(text).add_item(drawn)
}

/// Typing and submitting each of `texts` in turn; `draws[i]` is the
/// identifier drawn for `texts[i]`.
pub open spec fn submit_all(s: AppView, texts: Seq<Seq<char>>, draws: Seq<usize>) -> AppView
    decreases texts.len(),
{
    if texts.len() == 0 {
        s
    } else {
        submit(submit_all(s, texts.drop_last(), draws.drop_last()), texts.last(), draws.last())
    }
}

/// How many of `texts` are not empty.
pub open spec fn count_non_empty(texts: Seq<Seq<char>>) -> nat
    decreases texts.len(),
{
    if texts.len() == 0 {
        0
    } else {
        count_non_empty(texts.drop_last()) + if texts.last().len() == 0 {
            0nat
        } else {
            1nat
        }
    }
}

/// After any sequence of submissions, whatever identifiers were drawn, the
/// list has grown by the number of non-empty texts, and its identifiers are
/// still pairwise distinct.
pub proof fn law_submissions_grow_list(s: AppView, texts: Seq<Seq<char>>, draws: Seq<usize>)
    requires
        s.wf(),
        draws.len() == texts.len(),
        s.items.len() + texts.len() <= usize::MAX,
    ensures
        submit_all(s, texts, draws).items.len() == s.items.len() + count_non_empty(texts),
        count_non_empty(texts) <= texts.len(),
        distinct_ids(submit_all(s, texts, draws).items),
        submit_all(s, texts, draws).wf(),
    decreases texts.len(),
{
    if texts.len() != 0 {
        law_submissions_grow_list(s, texts.drop_last(), draws.drop_last());
        let before = submit_all(s, texts.drop_last(), draws.drop_last());
        let typed = before.update_value(texts.last());
        lemma_step_keeps_wf(typed, MsgView::AddItem, draws.last());
    }
}

/// Where every text is non-empty, the list grows by the number of
/// submissions.
pub proof fn law_non_empty_submissions_all_count(
    s: AppView,
    texts: Seq<Seq<char>>,
    draws: Seq<usize>,
)
    requires
        s.wf(),
        draws.len() == texts.len(),
        s.items.len() + texts.len() <= usize::MAX,
        forall|i: int| 0 <= i < texts.len() ==> (#[trigger] texts[i]).len() != 0,
    ensures
        submit_all(s, texts, draws).items.len() == s.items.len() + texts.len(),
        distinct_ids(submit_all(s, texts, draws).items),
    decreases texts.len(),
{
    law_submissions_grow_list(s, texts, draws);
    lemma_all_non_empty_counted(texts);
}

proof fn lemma_all_non_empty_counted(texts: Seq<Seq<char>>)
    requires
        forall|i: int| 0 <= i < texts.len() ==> (#[trigger] texts[i]).len() != 0,
    ensures
        count_non_empty(texts) == texts.len(),
    decreases texts.len(),
{
    if texts.len() != 0 {
        let rest = texts.drop_last();
        assert forall|i: int| 0 <= i < rest.len() implies (#[trigger] rest[i]).len() != 0 by {
            assert(rest[i] == texts[i]);
        }
        lemma_all_non_empty_counted(rest);
        assert(texts.last() == texts[texts.len() - 1]);
    }
}

/// Deleting an identifier that is present removes exactly the item that
/// carries it; the other items keep their places relative to each other,
/// and the input field is untouched.
pub proof fn law_delete_present_removes_it(s: AppView, id: usize, pos: int)
    requires
        s.wf(),
        0 <= pos < s.items.len(),
        s.items[pos].id == id,
    ensures
        s.delete_item(id).items == s.items.remove(pos),
        s.delete_item(id).items.len() == s.items.len() - 1,
        !has_id(s.delete_item(id).items, id),
        s.delete_item(id).value == s.value,
        s.rerenders(MsgView::DeleteItem(id)),
{
    lemma_filter_removes_one(s.items, id, pos);
    let out = s.items.remove(pos);
    assert forall|i: int| 0 <= i < out.len() implies (#[trigger] out[i]).id != id by {
        let a = if i < pos {
            i
        } else {
            i + 1
        };
        assert(out[i] == s.items[a]);
        assert(s.items[a].id != s.items[pos].id);
    }
}

/// Deleting an identifier that is absent changes nothing and asks for no
/// re-render.
pub proof fn law_delete_absent_changes_nothing(s: AppView, id: usize)
    requires
        !has_id(s.items, id),
    ensures
        s.delete_item(id) == s,
        !s.rerenders(MsgView::DeleteItem(id)),
{
    lemma_filter_absent(s.items, id);
}

/// Completing an identifier that is present sets the state of the item that
/// carries it to `COMPLETED`, keeps its identifier and text, and leaves
/// every other item and the input field as they were.
pub proof fn law_complete_present_marks_it(s: AppView, id: usize, pos: int)
    requires
        s.wf(),
        0 <= pos < s.items.len(),
        s.items[pos].id == id,
    ensures
        s.complete_item(id).items == s.items.update(
            pos,
            ItemView { id, value: s.items[pos].value, state: ItemState::COMPLETED },
        ),
        s.complete_item(id).value == s.value,
        s.rerenders(MsgView::CompleteItem(id)),
{
    let out = s.complete_item(id).items;
    let want = s.items.update(
        pos,
        ItemView { id, value: s.items[pos].value, state: ItemState::COMPLETED },
    );
    assert forall|i: int| 0 <= i < out.len() implies out[i] == want[i] by {
        if i < pos {
            assert(s.items[i].id != s.items[pos].id);
        } else if pos < i {
            assert(s.items[pos].id != s.items[i].id);
        }
    }
    assert(out =~= want);
}

/// Completing an identifier that is absent changes nothing and asks for no
/// re-render.
pub proof fn law_complete_absent_changes_nothing(s: AppView, id: usize)
    requires
        !has_id(s.items, id),
    ensures
        s.complete_item(id) == s,
        !s.rerenders(MsgView::CompleteItem(id)),
{
    assert(s.complete_item(id).items =~= s.items);
}

/// Completing the same identifier twice gives the same state as completing
/// it once.
pub proof fn law_complete_is_idempotent(s: AppView, id: usize)
    ensures
        s.complete_item(id).complete_item(id) == s.complete_item(id),
{
    assert(s.complete_item(id).complete_item(id).items =~= s.complete_item(id).items);
}

/// No item is ever put into the state `DELETED`: a list without such an
/// item has none after any message either.
pub proof fn law_deleted_never_arises(s: AppView, msg: MsgView, drawn: usize)
    requires
        forall|i: int| 0 <= i < s.items.len() ==> (#[trigger] s.items[i]).state != ItemState::DELETED,
    ensures
        forall|i: int|
            0 <= i < s.step(msg, drawn).items.len() ==> (#[trigger] s.step(msg, drawn).items[i]).state
                != ItemState::DELETED,
{
    let out = s.step(msg, drawn).items;
    match msg {
        MsgView::AddItem => {
            assert forall|i: int| 0 <= i < out.len() implies (#[trigger] out[i]).state
                != ItemState::DELETED by {
                if i < s.items.len() {
                    assert(out[i] == s.items[i]);
                }
            }
        },
        MsgView::DeleteItem(id) => {
            assert forall|i: int| 0 <= i < out.len() implies (#[trigger] out[i]).state
                != ItemState::DELETED by {
                assert(out.contains(out[i]));
                s.items.lemma_filter_contains_rev(keeps(id), out[i]);
                let k = choose|k: int| 0 <= k < s.items.len() && s.items[k] == out[i];
                assert(s.items[k].state != ItemState::DELETED);
            }
        },
        MsgView::CompleteItem(id) => {
            assert forall|i: int| 0 <= i < out.len() implies (#[trigger] out[i]).state
                != ItemState::DELETED by {
                assert(s.items[i].state != ItemState::DELETED);
            }
        },
        MsgView::UpdateValue(_) => {},
    }
}

/// Only an add looks at the identifier that was drawn.
pub proof fn law_draw_matters_only_for_add(s: AppView, msg: MsgView, a: usize, b: usize)
    requires
        msg != MsgView::AddItem,
    ensures
        s.step(msg, a) == s.step(msg, b),
{
}

/// A message that asks for no re-render leaves the state as it was.
pub proof fn law_no_rerender_no_change(s: AppView, msg: MsgView, drawn: usize)
    requires
        !s.rerenders(msg),
    ensures
        s.step(msg, drawn) == s,
{
    match msg {
        MsgView::AddItem => {},
        MsgView::DeleteItem(id) => {
            lemma_filter_absent(s.items, id);
        },
        MsgView::CompleteItem(id) => {
            assert(s.complete_item(id).items =~= s.items);
        },
        MsgView::UpdateValue(_) => {},
    }
}

/// The triggers of the page are bound to the items they stand beside:
/// sending the delete message of the entry at `pos` removes the item at
/// `pos`, and sending its complete message completes that item and no other.
pub proof fn law_page_triggers_act_on_their_item(s: AppView, pos: int, drawn: usize)
    requires
        s.wf(),
        0 <= pos < s.items.len(),
    ensures
        page_of(s).items.len() == s.items.len(),
        s.step(page_of(s).items[pos].delete_item, drawn).items == s.items.remove(pos),
        s.step(page_of(s).items[pos].complete_item, drawn).items == s.items.update(
            pos,
            ItemView { state: ItemState::COMPLETED, ..s.items[pos] },
        ),
{
    let id = s.items[pos].id;
    law_delete_present_removes_it(s, id, pos);
    law_complete_present_marks_it(s, id, pos);
}

} // verus!
