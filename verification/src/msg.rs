//! The update messages that the user interface sends to the application.

use vstd::prelude::*;

verus! {

/// A request to change the application state.
pub enum Msg {
    /// Submit the pending input as a new item.
    AddItem(),
    /// Remove the item with this identifier.
    DeleteItem(usize),
    /// Mark the item with this identifier as completed.
    CompleteItem(usize),
    /// Replace the pending input by this text.
    UpdateValue(String),
}

/// Mathematical model of a [`Msg`].
pub ghost enum MsgView {
    AddItem,
    DeleteItem(usize),
    CompleteItem(usize),
    UpdateValue(Seq<char>),
}

impl View for Msg {
    type V = MsgView;

    open spec fn view(&self) -> MsgView {
        match self {
            Msg::AddItem() => MsgView::AddItem,
            Msg::DeleteItem(id) => MsgView::DeleteItem(*id),
            Msg::CompleteItem(id) => MsgView::CompleteItem(*id),
            Msg::UpdateValue(text) => MsgView::UpdateValue(text@),
        }
    }
}

impl Clone for Msg {
    fn clone(&self) -> (res: Self)
        ensures
            res@ == self@,
    {
        match self {
            Msg::AddItem() => Msg::AddItem(),
            Msg::DeleteItem(id) => Msg::DeleteItem(*id),
            Msg::CompleteItem(id) => Msg::CompleteItem(*id),
            Msg::UpdateValue(text) => Msg::UpdateValue(text.clone()),
        }
    }
}

} // verus!
