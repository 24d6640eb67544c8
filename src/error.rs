//! Errors that the service reports to its callers.
use std::collections::HashMap;

use vstd::prelude::*;
use vstd::string::*;

verus! {

/// A message for the caller, with an optional machine-readable kind.
pub struct ErrorMessage {
    pub kind: Option<String>,
    pub message: String,
}

pub enum Error {
    NotFound,
    LoginRequired,
    User(ErrorMessage),
    Fields(HashMap<String, ErrorMessage>),
    /// A failure inside the service; the text is for its log only.
    Internal(String),
}

impl Error {
    /// An error for the caller, with a message and no kind.
    pub fn new(message: &str) -> (r: Self)
        ensures
            r matches Error::User(m) && m.kind is None && m.message@ == message@,
    {
        Error::User(ErrorMessage { kind: None, message: message.to_owned() })
    }

    /// An error for the caller, with a kind and a message.
    pub fn new_with_type(kind: &str, message: &str) -> (r: Self)
        ensures
            r matches Error::User(m) && m.kind matches Some(k) && k@ == kind@ && m.message@ == message@,
    {
        Error::User(ErrorMessage { kind: Some(kind.to_owned()), message: message.to_owned() })
    }

    /// The HTTP status that the error is answered with.
    pub fn status_code(&self) -> (r: u16)
        ensures
            r == match self {
                Error::NotFound => 404u16,
                Error::LoginRequired => 401u16,
                Error::User(_) => 400u16,
                Error::Fields(_) => 400u16,
                Error::Internal(_) => 500u16,
            },
    {
        match self {
            Error::NotFound => 404,
            Error::LoginRequired => 401,
            Error::User(_) => 400,
            Error::Fields(_) => 400,
            Error::Internal(_) => 500,
        }
    }

    /// The text that the error shows to a person.
    pub fn to_message(&self) -> (r: String)
        ensures
            r@ == match self {
                Error::NotFound => "Not Found"@,
                Error::LoginRequired => "Unauthorized"@,
                Error::User(m) => m.message@,
                Error::Fields(_) => "Bad Request"@,
                Error::Internal(_) => "An internal error occurred. Please try again later."@,
            },
    {
        match self {
            Error::NotFound => String::from_str("Not Found"),
            Error::LoginRequired => String::from_str("Unauthorized"),
            Error::User(m) => m.message.clone(),
            Error::Fields(_) => String::from_str("Bad Request"),
            Error::Internal(_) => String::from_str("An internal error occurred. Please try again later."),
        }
    }
}

} // verus!
