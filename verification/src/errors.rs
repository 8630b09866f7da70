//! Errors specific to the protocol core.

use vstd::prelude::*;
use vstd::string::StringExecFns;

verus! {

/// Errors raised while a connection is being established.
#[derive(Debug, PartialEq, Eq)]
pub enum Errors {
    /// The client sent bytes that do not follow the wire protocol.
    ProtocolViolation { message: String },
    /// The startup packet does not name a user.
    InvalidAuthorizationSpecification { message: String },
    /// The credential sent by the client does not match the configured one.
    InvalidPassword { user: String },
}

/// What an [`Errors`] value says, with its text as a sequence of characters.
pub enum ErrorKind {
    ProtocolViolation { message: Seq<char> },
    InvalidAuthorizationSpecification { message: Seq<char> },
    InvalidPassword { user: Seq<char> },
}

impl View for Errors {
    type V = ErrorKind;

    open spec fn view(&self) -> ErrorKind {
        match self {
            Errors::ProtocolViolation { message } => ErrorKind::ProtocolViolation {
                message: message@,
            },
            Errors::InvalidAuthorizationSpecification {
                message,
            } => ErrorKind::InvalidAuthorizationSpecification { message: message@ },
            Errors::InvalidPassword { user } => ErrorKind::InvalidPassword { user: user@ },
        }
    }
}

impl ErrorKind {
    /// The text shown for an error: its message, or for a failed password
    /// check a fixed sentence that ends with the user's name.
    pub open spec fn text(self) -> Seq<char> {
        match self {
            ErrorKind::ProtocolViolation { message } => message,
            ErrorKind::InvalidAuthorizationSpecification { message } => message,
            ErrorKind::InvalidPassword { user } => "password authentication failed for user "@
                + user,
        }
    }
}

impl Errors {
    /// A protocol violation with the given message.
    pub fn protocol_violation(message: &str) -> (e: Errors)
        ensures
            e@ == (ErrorKind::ProtocolViolation { message: message@ }),
    {
        Errors::ProtocolViolation { message: message.to_owned() }
    }

    /// The text shown for this error.
    pub fn message(&self) -> (text: String)
        ensures
            text@ == self@.text(),
    {
        match self {
            Errors::ProtocolViolation { message } => message.clone(),
            Errors::InvalidAuthorizationSpecification { message } => message.clone(),
            Errors::InvalidPassword { user } => {
                let prefix = String::from_str("password authentication failed for user ");
                prefix.concat(user.as_str())
            },
        }
    }
}

} // verus!
