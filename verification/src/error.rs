//! The error type of the library.
use vstd::prelude::*;
use crate::text::{push_str, string_from_chars};

verus! {

/// An error, carrying the text that is shown to the user. Errors of the
/// operating system (`Io`, `Windows`) carry the text of the underlying error.
#[derive(Clone, Debug, PartialEq, Eq)]
pub enum AppError {
    Io(String),
    Windows(String),
    Message(String),
}

impl AppError {
    /// The text that the error shows.
    pub open spec fn text_view(&self) -> Seq<char> {
        match self {
            AppError::Io(s) => s@,
            AppError::Windows(s) => s@,
            AppError::Message(s) => s@,
        }
    }

    /// An error with a message of the library.
    pub fn message(value: String) -> (e: AppError)
        ensures
            e is Message,
            e.text_view() == value@,
    {
        AppError::Message(value)
    }

    /// The text that the error shows.
    pub fn text(&self) -> (s: String)
        ensures
            s@ == self.text_view(),
    {
        match self {
            AppError::Io(s) => s.clone(),
            AppError::Windows(s) => s.clone(),
            AppError::Message(s) => s.clone(),
        }
    }
}

/// An error whose message is `text`.
pub fn message_str(text: &str) -> (e: AppError)
    ensures
        e is Message,
        e.text_view() == text@,
{
    let mut v: Vec<char> = Vec::new();
    push_str(&mut v, text);
    AppError::message(string_from_chars(v.as_slice()))
}

/// An error whose message is `prefix` followed by `detail`.
pub fn message_with(prefix: &str, detail: &str) -> (e: AppError)
    ensures
        e is Message,
        e.text_view() == prefix@ + detail@,
{
    let mut v: Vec<char> = Vec::new();
    push_str(&mut v, prefix);
    push_str(&mut v, detail);
    AppError::message(string_from_chars(v.as_slice()))
}

} // verus!
