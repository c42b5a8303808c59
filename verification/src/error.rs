//! What can go wrong, by where it goes wrong.

use vstd::prelude::*;

verus! {

/// A text that could not be read.
#[derive(Clone, Copy, Debug, PartialEq, Eq, Structural)]
pub enum ParseError {
    /// A bounds attribute that is not two bracketed pairs of integers.
    MalformedBounds,
    /// A dump that is not a well-formed markup document.
    MalformedMarkup,
    /// A document without a `hierarchy` container, or with one that holds no
    /// element.
    NoHierarchyFound,
    /// A contact line with too few fields.
    MalformedContact,
    /// A list of contacts in which no line describes a contact.
    NoContacts,
}

/// An import that came to nothing.
#[derive(Clone, Copy, Debug, PartialEq, Eq, Structural)]
pub enum ImportError {
    /// Not one of the contacts could be entered.
    NothingEntered,
}

impl ImportError {
    /// A short description for a log line.
    pub fn describe(&self) -> (r: &'static str)
        ensures
            r@ == "no contact could be entered"@,
    {
        "no contact could be entered"
    }
}

/// A device command that did not succeed.
#[derive(Debug, PartialEq, Eq)]
pub enum CommandError {
    /// The executor reported a failure; `message` is what it wrote to its
    /// error stream.
    DeviceCommandFailed { message: String },
}

impl Clone for CommandError {
    fn clone(&self) -> (r: Self)
        ensures
            r == *self,
    {
        match self {
            CommandError::DeviceCommandFailed { message } => CommandError::DeviceCommandFailed {
                message: message.clone(),
            },
        }
    }
}

impl ParseError {
    /// A short description for a log line.
    pub fn describe(&self) -> (r: &'static str)
        ensures
            r@ == match *self {
                ParseError::MalformedBounds => "malformed bounds"@,
                ParseError::MalformedMarkup => "malformed markup"@,
                ParseError::NoHierarchyFound => "no hierarchy found"@,
                ParseError::MalformedContact => "malformed contact"@,
                ParseError::NoContacts => "no contacts"@,
            },
    {
        match self {
            ParseError::MalformedBounds => "malformed bounds",
            ParseError::MalformedMarkup => "malformed markup",
            ParseError::NoHierarchyFound => "no hierarchy found",
            ParseError::MalformedContact => "malformed contact",
            ParseError::NoContacts => "no contacts",
        }
    }
}

} // verus!
