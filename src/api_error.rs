use vstd::prelude::*;

use crate::error::Error;

verus! {

/// The kind of record a request was about.
#[derive(Debug, Clone, Copy, PartialEq, Eq, Structural)]
pub enum StoreElements {
    Flag,
    Path,
    User,
}

impl StoreElements {
    /// The word for the record kind.
    pub fn as_str(&self) -> (r: &'static str)
        ensures
            *self == StoreElements::Flag ==> r@ == "flag"@,
            *self == StoreElements::Path ==> r@ == "path"@,
            *self == StoreElements::User ==> r@ == "user"@,
    {
        match self {
            StoreElements::Flag => "flag",
            StoreElements::Path => "path",
            StoreElements::User => "user",
        }
    }
}

/// Failures of a request, each with the HTTP status it answers with.
#[derive(Debug, Clone)]
pub enum APIError {
    AlreadyExists,
    ConfigFailure,
    FailedToAccessStore(Error),
    FailedToFind(StoreElements),
    FailedToParseAuth,
    FailedToParseBody,
    FailedToParseParams,
    FailedToSerialize,
    FailedToWriteToStore,
    JWTError,
    InvalidFlag,
    InvalidPayload,
    Unauthorized,
    Forbidden,
    SystemFailure,
}

/// The HTTP status of each failure.
pub open spec fn status_of(e: APIError) -> u16 {
    match e {
        APIError::AlreadyExists => 409,
        APIError::ConfigFailure => 500,
        APIError::FailedToAccessStore(_) => 500,
        APIError::FailedToFind(_) => 404,
        APIError::FailedToParseAuth => 400,
        APIError::FailedToParseBody => 400,
        APIError::FailedToParseParams => 400,
        APIError::FailedToSerialize => 500,
        APIError::FailedToWriteToStore => 500,
        APIError::JWTError => 401,
        APIError::InvalidFlag => 400,
        APIError::InvalidPayload => 400,
        APIError::Unauthorized => 401,
        APIError::Forbidden => 403,
        APIError::SystemFailure => 500,
    }
}

impl APIError {
    pub fn status(&self) -> (r: u16)
        ensures
            r == status_of(*self),
    {
        match self {
            APIError::AlreadyExists => 409,
            APIError::ConfigFailure => 500,
            APIError::FailedToAccessStore(_) => 500,
            APIError::FailedToFind(_) => 404,
            APIError::FailedToParseAuth => 400,
            APIError::FailedToParseBody => 400,
            APIError::FailedToParseParams => 400,
            APIError::FailedToSerialize => 500,
            APIError::FailedToWriteToStore => 500,
            APIError::JWTError => 401,
            APIError::InvalidFlag => 400,
            APIError::InvalidPayload => 400,
            APIError::Unauthorized => 401,
            APIError::Forbidden => 403,
            APIError::SystemFailure => 500,
        }
    }

    /// A sentence for logs and response bodies.
    pub fn description(&self) -> (r: &str) {
        match self {
            APIError::AlreadyExists => "Item already exists",
            APIError::ConfigFailure => "Server configuration failure",
            APIError::FailedToAccessStore(err) => err.description(),
            APIError::FailedToFind(_) => "Failed to find item",
            APIError::FailedToParseAuth => "Failed to parse auth payload",
            APIError::FailedToParseBody => "Failed to parse request payload",
            APIError::FailedToParseParams => "Failed to parse request parameters",
            APIError::FailedToSerialize => "Failed to serialize item",
            APIError::FailedToWriteToStore => "Failed to persist to storage",
            APIError::JWTError => "Invalid token",
            APIError::InvalidFlag => "Provided item is invalid",
            APIError::InvalidPayload => "Provided item is invalid",
            APIError::Unauthorized => "Unauthorized",
            APIError::Forbidden => "Forbidden",
            APIError::SystemFailure => "An unknown system failure occured",
        }
    }
}

} // verus!
