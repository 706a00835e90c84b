//! What is put on display, as plain data: the page that the application
//! derives from its state, and the node that shows one item. Each trigger
//! carries the message that it sends when the user activates it.

use vstd::prelude::*;

use crate::app::App;
use crate::item::{ItemState, ItemView};
use crate::msg::{Msg, MsgView};
use crate::state::AppView;

verus! {

/// The name under which a state is shown.
pub open spec fn state_name(state: ItemState) -> Seq<char> {
    match state {
        ItemState::NEW => "NEW"@,
        ItemState::COMPLETED => "COMPLETED"@,
        ItemState::DELETED => "DELETED"@,
    }
}

/// The heading of an item: the name of its state, a colon, a space, and its
/// text.
pub open spec fn heading(state: ItemState, value: Seq<char>) -> Seq<char> {
    state_name(state) + ": "@ + value
}

impl ItemState {
    /// The name under which this state is shown.
    pub fn name(&self) -> (name: &'static str)
        ensures
            name@ == state_name(*self),
    {
        match self {
            ItemState::NEW => "NEW",
            ItemState::COMPLETED => "COMPLETED",
            ItemState::DELETED => "DELETED",
        }
    }
}

/// A trigger on the page: its label and the message that it sends.
pub struct Button {
    pub label: String,
    pub emits: Msg,
}

/// Mathematical model of a [`Button`].
pub ghost struct ButtonView {
    pub label: Seq<char>,
    pub emits: MsgView,
}

impl View for Button {
    type V = ButtonView;

    open spec fn view(&self) -> ButtonView {
        ButtonView { label: self.label@, emits: self.emits@ }
    }
}

/// What the view of one item is given: the item's state and text, and the
/// messages to send when the user deletes or completes it.
pub struct ItemProps {
    pub state: ItemState,
    pub value: String,
    pub delete_item: Msg,
    pub complete_item: Msg,
}

/// Mathematical model of an [`ItemProps`].
pub ghost struct ItemPropsView {
    pub state: ItemState,
    pub value: Seq<char>,
    pub delete_item: MsgView,
    pub complete_item: MsgView,
}

impl View for ItemProps {
    type V = ItemPropsView;

    open spec fn view(&self) -> ItemPropsView {
        ItemPropsView {
            state: self.state,
            value: self.value@,
            delete_item: self.delete_item@,
            complete_item: self.complete_item@,
        }
    }
}

/// The node that shows one item: a heading and two triggers.
pub struct ItemNode {
    pub heading: String,
    pub delete: Button,
    pub complete: Button,
}

/// Mathematical model of an [`ItemNode`].
pub ghost struct ItemNodeView {
    pub heading: Seq<char>,
    pub delete: ButtonView,
    pub complete: ButtonView,
}

impl View for ItemNode {
    type V = ItemNodeView;

    open spec fn view(&self) -> ItemNodeView {
        ItemNodeView { heading: self.heading@, delete: self.delete@, complete: self.complete@ }
    }
}

/// The node for `props`: the heading, a trigger labelled `X` that sends the
/// delete message, and a trigger labelled `DONE` that sends the complete
/// message.
pub open spec fn item_node(props: ItemPropsView) -> ItemNodeView {
    ItemNodeView {
        heading: heading(props.state, props.value),
        delete: ButtonView { label: "X"@, emits: props.delete_item },
        complete: ButtonView { label: "DONE"@, emits: props.complete_item },
    }
}

/// Shows one item. A pure function of `props`.
pub fn item(props: &ItemProps) -> (node: ItemNode)
    ensures
        node@ == item_node(props@),
{
    let mut heading = props.state.name().to_string();
    heading.append(": ");
    heading.append(props.value.as_str());
    ItemNode {
        heading,
        delete: Button { label: "X".to_string(), emits: props.delete_item.clone() },
        complete: Button { label: "DONE".to_string(), emits: props.complete_item.clone() },
    }
}

/// The page: the text of the input field, the trigger that submits it, and
/// one entry per item in list order.
pub struct Page {
    pub value: String,
    pub add: Button,
    pub items: Vec<ItemProps>,
}

/// Mathematical model of a [`Page`].
pub ghost struct PageView {
    pub value: Seq<char>,
    pub add: ButtonView,
    pub items: Seq<ItemPropsView>,
}

impl View for Page {
    type V = PageView;

    open spec fn view(&self) -> PageView {
        PageView {
            value: self.value@,
            add: self.add@,
            items: self.items@.map_values(|p: ItemProps| p@),
        }
    }
}

/// What the view of the item `it` is given: its state and text, and the
/// delete and complete messages for its identifier.
pub open spec fn props_of(it: ItemView) -> ItemPropsView {
    ItemPropsView {
        state: it.state,
        value: it.value,
        delete_item: MsgView::DeleteItem(it.id),
        complete_item: MsgView::CompleteItem(it.id),
    }
}

/// The page derived from the state `s`.
pub open spec fn page_of(s: AppView) -> PageView {
    PageView {
        value: s.value,
        add: ButtonView { label: "Add"@, emits: MsgView::AddItem },
        items: s.items.map_values(|it: ItemView| props_of(it)),
    }
}

impl App {
    /// Derives the page from the current state.
    pub fn page(&self) -> (page: Page)
        ensures
            page@ == page_of(self@),
    {
        let items = self.items();
        let mut rows: Vec<ItemProps> = Vec::new();
        let mut i: usize = 0;
        while i < items.len()
            invariant
                i <= items.len(),
                rows.len() == i,
                forall|j: int| 0 <= j < i ==> (#[trigger] rows[j])@ == props_of(items[j]@),
            decreases items.len() - i,
        {
            let it = &items[i];
            rows.push(
                ItemProps {
                    state: it.state,
                    value: it.value.clone(),
                    delete_item: Msg::DeleteItem(it.id),
                    complete_item: Msg::CompleteItem(it.id),
                },
            );
            i = i + 1;
        }
        let page = Page {
            value: self.value().clone(),
            add: Button { label: "Add".to_string(), emits: Msg::AddItem() },
            items: rows,
        };
        proof {
            assert(page@.items =~= page_of(self@).items);
        }
        page
    }
}

} // verus!
