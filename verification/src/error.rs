//! The one error type of the library: a message for the user.
use vstd::prelude::*;

verus! {

/// An error carrying a human-readable message.
#[derive(Debug)]
pub struct AppError {
    message: String,
}

impl View for AppError {
    type V = Seq<char>;

    open spec fn view(&self) -> Seq<char> {
        self.spec_message()
    }
}

impl AppError {
    pub closed spec fn spec_message(&self) -> Seq<char> {
        self.message@
    }

    /// An error with the given message.
    pub fn new(message: &str) -> (res: AppError)
        ensures
            res@ == message@,
    {
        let mut text = String::new();
        text.append(message);
        AppError { message: text }
    }

    /// An error whose message is the given string.
    pub fn from_string(message: String) -> (res: AppError)
        ensures
            res@ == message@,
    {
        AppError { message }
    }

    /// The message of this error.
    pub fn message(&self) -> (res: &str)
        ensures
            res@ == self@,
    {
        self.message.as_str()
    }
}

} // verus!
