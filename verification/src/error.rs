//! What can go wrong with a command.

use vstd::prelude::*;
use vstd::string::StringExecFns;

verus! {

/// Why a tagged literal has no value.
#[derive(Debug, Clone, Copy, PartialEq, Eq)]
pub enum DecodeError {
    /// Tagged as a truth value, but the payload is neither `true` nor `false`.
    NotABool,
    /// Tagged as an integer, but the payload is no 32-bit signed integer.
    NotAnInt,
    /// Tagged as a float, but the payload is no 32-bit float.
    NotAFloat,
    /// None of the four tags stands in the literal.
    InvalidType,
}

/// Why a command was not carried out.
#[derive(Debug, Clone, PartialEq, Eq)]
pub enum CommandError {
    /// The database has no schema under this key.
    MissingSchema(String),
    /// The value given is no tagged literal.
    Decode(DecodeError),
}

/// A command's failure as contracts see it.
pub enum CommandErrorView {
    MissingSchema(Seq<char>),
    Decode(DecodeError),
}

impl View for CommandError {
    type V = CommandErrorView;

    open spec fn view(&self) -> CommandErrorView {
        match self {
            CommandError::MissingSchema(key) => CommandErrorView::MissingSchema(key@),
            CommandError::Decode(e) => CommandErrorView::Decode(*e),
        }
    }
}

impl DecodeError {
    /// The words that `message` gives for this failure.
    pub open spec fn message_text(self) -> Seq<char> {
        match self {
            DecodeError::NotABool => "Not a bool"@,
            DecodeError::NotAnInt => "Not an i32"@,
            DecodeError::NotAFloat => "Not a 32-bit float"@,
            DecodeError::InvalidType => "Invalid type for data."@,
        }
    }

    /// The failure in words.
    pub fn message(&self) -> (out: String)
        ensures
            out@ == self.message_text(),
    {
        match self {
            DecodeError::NotABool => String::from_str("Not a bool"),
            DecodeError::NotAnInt => String::from_str("Not an i32"),
            DecodeError::NotAFloat => String::from_str("Not a 32-bit float"),
            DecodeError::InvalidType => String::from_str("Invalid type for data."),
        }
    }
}

impl CommandErrorView {
    /// The words that `message` gives for this failure: a missing schema is named.
    pub open spec fn message_text(self) -> Seq<char> {
        match self {
            CommandErrorView::MissingSchema(key) => "No schema under the key "@ + key,
            CommandErrorView::Decode(e) => e.message_text(),
        }
    }
}

impl CommandError {
    /// The failure in words.
    pub fn message(&self) -> (out: String)
        ensures
            out@ == self@.message_text(),
    {
        match self {
            CommandError::MissingSchema(key) => {
                String::from_str("No schema under the key ").concat(key.as_str())
            },
            CommandError::Decode(e) => e.message(),
        }
    }
}

} // verus!
