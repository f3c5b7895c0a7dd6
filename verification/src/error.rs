//! The library's error type.

use vstd::prelude::*;

verus! {

/// What went wrong, in words.
#[derive(Debug)]
pub enum GitAiError {
    Generic(String),
}

impl View for GitAiError {
    type V = Seq<char>;

    open spec fn view(&self) -> Seq<char> {
        match self {
            GitAiError::Generic(message) => message@,
        }
    }
}

impl GitAiError {
    /// The error's message.
    pub fn message(&self) -> (r: &String)
        ensures
            r@ == self@,
    {
        match self {
            GitAiError::Generic(message) => message,
        }
    }
}

} // verus!
