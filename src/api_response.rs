//! The envelope of JSON answers.
use std::collections::HashMap;

use vstd::prelude::*;
use vstd::string::*;

verus! {

/// An error about one field of a submitted form.
pub struct ApiError {
    pub kind: String,
    pub message: String,
}

pub enum ApiResponse<T> {
    Data(T),
    Error(String),
    FieldErrors(HashMap<String, ApiError>),
}

impl<T> ApiResponse<T> {
    pub fn new(data: T) -> (r: Self)
        ensures
            r == ApiResponse::Data(data),
    {
        ApiResponse::Data(data)
    }

    pub fn error(error: &str) -> (r: Self)
        ensures
            r matches ApiResponse::Error(e) && e@ == error@,
    {
        ApiResponse::Error(error.to_owned())
    }

    pub fn errors(errors: HashMap<String, ApiError>) -> (r: Self)
        ensures
            r == ApiResponse::<T>::FieldErrors(errors),
    {
        ApiResponse::FieldErrors(errors)
    }

    /// The HTTP status of the answer: 200 for data, else 400.
    pub fn status_code(&self) -> (r: u16)
        ensures
            r == (if self is Data { 200u16 } else { 400u16 }),
    {
        match self {
            ApiResponse::Data(_) => 200,
            _ => 400,
        }
    }
}

} // verus!
