//! The failure type shared by every encoder.

use vstd::prelude::*;

verus! {

/// Why an encode call failed.
#[derive(Debug)]
pub enum Error {
    /// A free-form message raised by whoever produced the value.
    Message(Box<str>),
    /// A map key had a shape that cannot stand as a key.
    KeyMustBeAString,
}

/// The text shown for [`Error::KeyMustBeAString`].
pub open spec fn key_must_be_a_string_text() -> Seq<char> {
    "key must be a string"@
}

impl Error {
    /// The human-readable text of this error, as a sequence of characters.
    pub open spec fn text(&self) -> Seq<char> {
        match *self {
            Error::Message(msg) => msg@,
            Error::KeyMustBeAString => key_must_be_a_string_text(),
        }
    }

    /// Renders the error for display: the message itself, or the fixed text
    /// of the key error.
    pub fn message(&self) -> (shown: String)
        ensures
            shown@ == self.text(),
    {
        match self {
            Error::Message(msg) => {
                let text: &str = &**msg;
                text.to_owned()
            },
            Error::KeyMustBeAString => "key must be a string".to_owned(),
        }
    }
}

} // verus!
