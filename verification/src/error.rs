//! Errors of the repositories and of the services.

use vstd::prelude::*;
use vstd::string::StringExecFns;

verus! {

/// What a repository reports when an operation on stored data fails.
#[derive(Debug)]
pub enum RepoError {
    ObjDoesNotExists(String),
    UniqueConstraint(String),
    Unknown,
}

/// What a service reports when an operation cannot be completed.
#[derive(Debug)]
pub enum ServiceError {
    Validation(String),
    Repository(RepoError),
    Cash(String),
    GptNotResponse(String),
    Censorship(String),
    PayloadError(String),
    Unknown,
}

/// The message of a repository error.
pub open spec fn repo_message(e: RepoError) -> Seq<char> {
    match e {
        RepoError::ObjDoesNotExists(s) => "`"@ + s@ + "` does not exists"@,
        RepoError::UniqueConstraint(s) => "invalid unique constraint `"@ + s@ + "`"@,
        RepoError::Unknown => "unknown error"@,
    }
}

/// The message of a service error.
pub open spec fn service_message(e: ServiceError) -> Seq<char> {
    match e {
        ServiceError::Validation(s) => "Validation error - "@ + s@,
        ServiceError::Repository(r) => "Database error - "@ + repo_message(r),
        ServiceError::Cash(s) => "Cash error - "@ + s@,
        ServiceError::GptNotResponse(s) => "Gpt not response - "@ + s@,
        ServiceError::Censorship(s) => "Not acceptable word - "@ + s@,
        ServiceError::PayloadError(s) => "Payload error - "@ + s@,
        ServiceError::Unknown => "Unknown error"@,
    }
}

/// `prefix`, then `s`, then `suffix`.
pub fn surround(prefix: &str, s: &str, suffix: &str) -> (r: String)
    ensures
        r@ == prefix@ + s@ + suffix@,
{
    let mut r = String::from_str(prefix);
    r.append(s);
    r.append(suffix);
    r
}

/// `prefix`, then `s`.
pub fn prefixed(prefix: &str, s: &str) -> (r: String)
    ensures
        r@ == prefix@ + s@,
{
    let mut r = String::from_str(prefix);
    r.append(s);
    r
}

impl RepoError {
    /// The message of the error, as it is displayed.
    pub fn message(&self) -> (r: String)
        ensures
            r@ == repo_message(*self),
    {
        match self {
            RepoError::ObjDoesNotExists(s) => surround("`", s.as_str(), "` does not exists"),
            RepoError::UniqueConstraint(s) => surround("invalid unique constraint `", s.as_str(), "`"),
            RepoError::Unknown => String::from_str("unknown error"),
        }
    }
}

impl ServiceError {
    /// The message of the error, as it is displayed.
    pub fn message(&self) -> (r: String)
        ensures
            r@ == service_message(*self),
    {
        match self {
            ServiceError::Validation(s) => prefixed("Validation error - ", s.as_str()),
            ServiceError::Repository(e) => {
                let inner = e.message();
                prefixed("Database error - ", inner.as_str())
            },
            ServiceError::Cash(s) => prefixed("Cash error - ", s.as_str()),
            ServiceError::GptNotResponse(s) => prefixed("Gpt not response - ", s.as_str()),
            ServiceError::Censorship(s) => prefixed("Not acceptable word - ", s.as_str()),
            ServiceError::PayloadError(s) => prefixed("Payload error - ", s.as_str()),
            ServiceError::Unknown => String::from_str("Unknown error"),
        }
    }

    /// A validation error about one field: `error in <field>: <detail>`.
    pub fn field_validation(field: &str, detail: &str) -> (e: ServiceError)
        ensures
            e matches ServiceError::Validation(m) && m@ == "error in "@ + field@ + ": "@ + detail@,
    {
        let mut m = String::from_str("error in ");
        m.append(field);
        m.append(": ");
        m.append(detail);
        ServiceError::Validation(m)
    }
}

} // verus!
