use vstd::prelude::*;

verus! {

/// A failure to build or refresh an interface element, with its message.
#[derive(Debug)]
pub enum UiError {
    Error(String),
}

impl View for UiError {
    type V = Seq<char>;

    /// The message that the error carries.
    open spec fn view(&self) -> Seq<char> {
        match self {
            UiError::Error(message) => message@,
        }
    }
}

impl Clone for UiError {
    fn clone(&self) -> (copy: Self)
        ensures
            copy@ == self@,
    {
        match self {
            UiError::Error(message) => UiError::Error(message.clone()),
        }
    }
}

impl UiError {
    /// The message that the error carries.
    pub fn message(&self) -> (m: &String)
        ensures
            m@ == self@,
    {
        match self {
            UiError::Error(message) => message,
        }
    }
}

} // verus!
