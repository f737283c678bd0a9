//! The error every operation answers with.
use vstd::prelude::*;
use vstd::string::StringExecFns;

verus! {

/// What went wrong, as callers tell errors apart.
#[derive(Debug, Clone, Copy, PartialEq, Eq, Structural)]
pub enum ErrorCode {
    AccountSuspended,
    AgentProtocol,
    AgentTimeout,
    AlreadyExists,
    CommandFailed,
    ConfigDrift,
    Conflict,
    DependentsExist,
    DomainAlreadyExists,
    Internal,
    InvalidInput,
    InvalidPath,
    NotFound,
    PackageBackendFailed,
    PasswordTooWeak,
    PermissionDenied,
    PlanFeatureDisabled,
    QuotaExceeded,
    RateLimited,
    ServiceActionFailed,
    ServiceUnavailable,
    UnknownOperation,
    UnsupportedDistro,
}

/// An error with a message for people and, where one input field is at fault,
/// the name of that field.
#[derive(Debug)]
pub struct FerrumError {
    pub code: ErrorCode,
    pub detail: String,
    pub field: Option<String>,
}

/// A [`FerrumError`] as contracts see it.
#[verifier::ext_equal]
pub struct Problem {
    pub code: ErrorCode,
    pub detail: Seq<char>,
    pub field: Option<Seq<char>>,
}

pub open spec fn opt_text(s: Option<String>) -> Option<Seq<char>> {
    match s {
        Some(t) => Some(t@),
        None => None,
    }
}

impl View for FerrumError {
    type V = Problem;

    open spec fn view(&self) -> Problem {
        Problem { code: self.code, detail: self.detail@, field: opt_text(self.field) }
    }
}

/// An error about no field in particular.
pub open spec fn problem(code: ErrorCode, detail: Seq<char>) -> Problem {
    Problem { code, detail, field: None }
}

/// An error that one input field is answerable for.
pub open spec fn field_problem(code: ErrorCode, detail: Seq<char>, field: Seq<char>) -> Problem {
    Problem { code, detail, field: Some(field) }
}

/// What a lookup that found nothing answers.
pub open spec fn not_found_problem(what: Seq<char>) -> Problem {
    problem(ErrorCode::NotFound, what + " not found"@)
}

impl FerrumError {
    pub fn new(code: ErrorCode, detail: &str) -> (r: FerrumError)
        ensures
            r@ == problem(code, detail@),
    {
        FerrumError { code, detail: detail.to_owned(), field: None }
    }

    pub fn with_field(self, field: &str) -> (r: FerrumError)
        ensures
            r@ == field_problem(self@.code, self@.detail, field@),
    {
        FerrumError { code: self.code, detail: self.detail, field: Some(field.to_owned()) }
    }

    pub fn internal(detail: &str) -> (r: FerrumError)
        ensures
            r@ == problem(ErrorCode::Internal, detail@),
    {
        FerrumError::new(ErrorCode::Internal, detail)
    }

    pub fn not_found(what: &str) -> (r: FerrumError)
        ensures
            r@ == not_found_problem(what@),
    {
        let mut detail = what.to_owned();
        detail.append(" not found");
        FerrumError::new(ErrorCode::NotFound, detail.as_str())
    }
}

/// An error of that code, about that field.
pub open spec fn objects(p: Option<Problem>, code: ErrorCode, field: Option<Seq<char>>) -> bool {
    p matches Some(p) && p.code == code && p.field == field
}

/// A refusal of that code, about that field.
pub open spec fn refused<T>(
    r: Result<T, Problem>,
    code: ErrorCode,
    field: Option<Seq<char>>,
) -> bool {
    r matches Err(p) && p.code == code && p.field == field
}

/// A result as contracts see it.
pub open spec fn outcome<T: DeepView>(r: Result<T, FerrumError>) -> Result<T::V, Problem> {
    match r {
        Ok(v) => Ok(v.deep_view()),
        Err(e) => Err(e@),
    }
}

} // verus!
