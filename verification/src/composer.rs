//! The error of composing Rust items from an assembled schema.

use vstd::prelude::*;

verus! {

/// Why a schema could not be composed into Rust items; its message is
/// the whole of its description.
#[derive(Debug)]
pub struct ComposerError {
    message: String,
}

impl View for ComposerError {
    type V = Seq<char>;

    closed spec fn view(&self) -> Seq<char> {
        self.message@
    }
}

impl ComposerError {
    pub fn new(message: String) -> (error: Self)
        ensures
            error@ == message@,
    {
        ComposerError { message }
    }

    /// The description of the error.
    pub fn message(&self) -> (message: &str)
        ensures
            message@ == self@,
    {
        self.message.as_str()
    }
}

} // verus!
