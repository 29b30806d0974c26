//! The failure taxonomy shared by telemetry and file management.

use vstd::prelude::*;

verus! {

/// One failure kind. Failures are per-metric and non-fatal: a metric that
/// fails on one tick may succeed on the next, and a failed directory listing
/// leaves navigation in a degraded, recoverable state.
#[derive(Debug, Clone, PartialEq, Eq)]
pub enum TopError {
    /// A file or device could not be opened.
    OpenError,
    /// Text could not be converted to the expected value.
    ParseError,
    /// A read from an open source failed.
    ReadError,
    /// The named thing does not exist.
    NotFindError,
    /// Valid state but no data: an empty source, or no delta yet.
    EmptyError,
    /// An optional sensor or helper tool is absent.
    MissingDependentData,
    /// Passthrough diagnostic text.
    ErrorInformation(String),
}

impl TopError {
    /// The message shown for this failure kind.
    pub fn to_string(&self) -> (r: String)
        ensures
            r@ == self.message(),
    {
        match self {
            TopError::EmptyError => String::from_str("data lost"),
            TopError::NotFindError => String::from_str("not find"),
            TopError::OpenError => String::from_str("can`t open"),
            TopError::ParseError => String::from_str("can`t parse"),
            TopError::ErrorInformation(s) => s.clone(),
            TopError::ReadError => String::from_str("can`t read file"),
            TopError::MissingDependentData => String::from_str("Missing dependent data"),
        }
    }

    /// A copy of this failure kind, message included.
    pub fn duplicate(&self) -> (r: Self)
        ensures
            r == *self,
    {
        match self {
            TopError::EmptyError => TopError::EmptyError,
            TopError::NotFindError => TopError::NotFindError,
            TopError::OpenError => TopError::OpenError,
            TopError::ParseError => TopError::ParseError,
            TopError::ErrorInformation(s) => TopError::ErrorInformation(s.clone()),
            TopError::ReadError => TopError::ReadError,
            TopError::MissingDependentData => TopError::MissingDependentData,
        }
    }

    /// The message as a sequence of characters.
    pub open spec fn message(&self) -> Seq<char> {
        match self {
            TopError::EmptyError => "data lost"@,
            TopError::NotFindError => "not find"@,
            TopError::OpenError => "can`t open"@,
            TopError::ParseError => "can`t parse"@,
            TopError::ErrorInformation(s) => s@,
            TopError::ReadError => "can`t read file"@,
            TopError::MissingDependentData => "Missing dependent data"@,
        }
    }
}

} // verus!
