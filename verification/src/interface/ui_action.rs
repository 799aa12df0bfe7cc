use crate::interface::ui_error::UiError;
use crate::util::vector::Vector2;
use vstd::prelude::*;

verus! {

/// A change to the screen that an element asks for while the elements are
/// walked, to be carried out once the walk is over.
#[derive(Debug)]
pub enum UiAction {
    /// Add a text element with the given text, position and size.
    AddUiText(String, Vector2, Vector2),
    /// Show the error on the screen.
    WriteError(UiError),
}

/// What a [`UiAction`] holds, with its text as a sequence of characters.
pub enum UiActionView {
    AddUiText(Seq<char>, Vector2, Vector2),
    WriteError(Seq<char>),
}

impl View for UiAction {
    type V = UiActionView;

    open spec fn view(&self) -> UiActionView {
        match self {
            UiAction::AddUiText(text, pos, size) => UiActionView::AddUiText(text@, *pos, *size),
            UiAction::WriteError(error) => UiActionView::WriteError(error@),
        }
    }
}

impl Clone for UiAction {
    fn clone(&self) -> (copy: Self)
        ensures
            copy@ == self@,
    {
        match self {
            UiAction::AddUiText(text, pos, size) => UiAction::AddUiText(text.clone(), *pos, *size),
            UiAction::WriteError(error) => UiAction::WriteError(error.clone()),
        }
    }
}

/// The views of a sequence of actions, in order.
pub open spec fn action_views(actions: Seq<UiAction>) -> Seq<UiActionView> {
    Seq::new(actions.len(), |i: int| actions[i]@)
}

} // verus!
