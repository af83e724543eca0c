//! The errors that the site's models report.
use vstd::prelude::*;

verus! {

/// What went wrong in a model operation.
#[derive(PartialEq, Eq, Structural, Debug, Clone, Copy)]
pub enum BowtieError {
    RecordNotFound,
    NoId,
    TokenCreationFailed,
    FailedToSign,
    FailedToParse,
    TokenNotVerified,
    BadCookieFound,
    NoCookieFound,
}

/// The message shown for each error.
pub open spec fn error_message(e: BowtieError) -> Seq<char> {
    match e {
        BowtieError::RecordNotFound => "Record not found"@,
        BowtieError::NoId => "Model does not have an id"@,
        BowtieError::TokenCreationFailed => "Model failed to create token"@,
        BowtieError::FailedToSign => "User token could not be signed"@,
        BowtieError::FailedToParse => "User token could not be parsed"@,
        BowtieError::TokenNotVerified => "User token could not be verified"@,
        BowtieError::BadCookieFound => "User cookie could not be decoded"@,
        BowtieError::NoCookieFound => "User cookie not found"@,
    }
}

impl BowtieError {
    /// The message that describes this error.
    pub fn message(&self) -> (r: String)
        ensures
            r@ == error_message(*self),
    {
        match self {
            BowtieError::RecordNotFound => "Record not found".to_owned(),
            BowtieError::NoId => "Model does not have an id".to_owned(),
            BowtieError::TokenCreationFailed => "Model failed to create token".to_owned(),
            BowtieError::FailedToSign => "User token could not be signed".to_owned(),
            BowtieError::FailedToParse => "User token could not be parsed".to_owned(),
            BowtieError::TokenNotVerified => "User token could not be verified".to_owned(),
            BowtieError::BadCookieFound => "User cookie could not be decoded".to_owned(),
            BowtieError::NoCookieFound => "User cookie not found".to_owned(),
        }
    }
}

} // verus!
