use vstd::prelude::*;

verus! {

/// Failures of the store layer.
#[derive(Debug, Clone, PartialEq, Eq)]
pub enum Error {
    /// The configuration could not be loaded; the text says why.
    InvalidConfig(String),
    FailedToParsePath,
    EmptyKey,
    /// The backing hash server failed or answered something undecodable; the
    /// text says what.
    RedisAsyncFailure(String),
    RedisAsyncSubMessageFailure,
    InvalidRedisConfig,
    AllCacheMissing,
    FailedToSerializeItem,
    /// A cache lock was abandoned by a panicking holder.
    CachePoisoned,
}

impl Error {
    /// A sentence for logs.
    pub fn description(&self) -> (r: &str)
        ensures
            self matches Error::InvalidConfig(m) ==> r@ == m@,
            self matches Error::RedisAsyncFailure(m) ==> r@ == m@,
    {
        match self {
            Error::InvalidConfig(m) => m.as_str(),
            Error::FailedToParsePath => "Unable to parse into path",
            Error::EmptyKey => "Unable to operate on an empty key",
            Error::RedisAsyncFailure(m) => m.as_str(),
            Error::RedisAsyncSubMessageFailure => "Async Redis message failed",
            Error::InvalidRedisConfig => "Can not create RedisStore from invalid config",
            Error::AllCacheMissing => "Full cache is misconfigured",
            Error::FailedToSerializeItem => "Failed to turn item into json",
            Error::CachePoisoned => "Cache lock was poisoned",
        }
    }
}

} // verus!
