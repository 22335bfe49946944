//! The failures that the registry reports.

use vstd::prelude::*;

verus! {

/// Why an operation on the registry could not be carried out.
#[derive(Clone, Copy, Debug, PartialEq, Eq, Structural)]
pub enum ApiError {
    /// A lookup that must yield exactly one row found none.
    NotFound,
    /// A row could not be stored because its key is already taken.
    Conflict,
    /// Every code that was drawn for a fast token is currently in use.
    Exhausted,
}

impl ApiError {
    /// The status that the report of the failure names: 404 for a row that
    /// is not there, 409 for a key that is taken, 503 for a registry that
    /// has no free code.
    pub open spec fn spec_status_code(self) -> u16 {
        match self {
            ApiError::NotFound => 404,
            ApiError::Conflict => 409,
            ApiError::Exhausted => 503,
        }
    }

    /// The status that the report of the failure names. The reply that
    /// carries the report has the status of a server fault all the same.
    #[verifier::when_used_as_spec(spec_status_code)]
    pub fn status_code(self) -> (code: u16)
        ensures
            code == self.spec_status_code(),
    {
        match self {
            ApiError::NotFound => 404,
            ApiError::Conflict => 409,
            ApiError::Exhausted => 503,
        }
    }

    /// The text shown to the client.
    pub fn message(self) -> (text: String)
        ensures
            text@ == match self {
                ApiError::NotFound => "record not found"@,
                ApiError::Conflict => "record already exists"@,
                ApiError::Exhausted => "no free fast token"@,
            },
    {
        match self {
            ApiError::NotFound => "record not found".to_owned(),
            ApiError::Conflict => "record already exists".to_owned(),
            ApiError::Exhausted => "no free fast token".to_owned(),
        }
    }
}

} // verus!
