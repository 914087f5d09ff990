//! The failures that decoding and the store report.
use vstd::prelude::*;
use vstd::string::StringExecFns;
use crate::value::ValueKind;

verus! {

/// A frame that does not decode to a command.
#[derive(Debug, Clone, Copy, PartialEq, Eq, Structural)]
pub enum DecodeError {
    /// The frame is empty or carries no argument, so it names no command.
    MalformedFrame,
}

/// Store errors
#[derive(Debug, PartialEq)]
pub enum StoreError {
    /// Error returned when a key was not found on the store
    KeyNotFoundError,
    /// Error raised when trying to access a key but the kind of data does not match
    KeyMismatchError(String),
}

/// What a kind mismatch tells the client: the key that was asked for, the
/// kind found under it, and the kind that the reader expected.
pub open spec fn mismatch_message(key: Seq<char>, expected: ValueKind, actual: ValueKind) -> Seq<
    char,
> {
    "key "@ + key + " of kind "@ + actual.label() + " does not match "@ + expected.label()
}

/// Builds the message of a kind mismatch.
pub fn mismatch_text(key: &str, expected: ValueKind, actual: ValueKind) -> (text: String)
    ensures
        text@ == mismatch_message(key@, expected, actual),
{
    let mut text = String::from_str("key ");
    text.append(key);
    text.append(" of kind ");
    let actual_label = actual.to_string();
    text.append(actual_label.as_str());
    text.append(" does not match ");
    let expected_label = expected.to_string();
    text.append(expected_label.as_str());
    text
}

impl StoreError {
    /// The error line that a client receives.
    pub open spec fn text(self) -> Seq<char> {
        match self {
            StoreError::KeyNotFoundError => "-ERR key not found"@,
            StoreError::KeyMismatchError(message) => "-ERR "@ + message@,
        }
    }

    /// Renders the error as the line sent to the client.
    pub fn to_string(&self) -> (line: String)
        ensures
            line@ == self.text(),
    {
        match self {
            StoreError::KeyNotFoundError => String::from_str("-ERR key not found"),
            StoreError::KeyMismatchError(message) => {
                let mut line = String::from_str("-ERR ");
                line.append(message.as_str());
                line
            },
        }
    }
}

} // verus!
