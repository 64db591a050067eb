//! The API's error vocabulary and how each error is reported to a client as
//! an RFC 7807 problem document.
use vstd::prelude::*;
use vstd::string::*;

verus! {

/// One rejected input field and why.
#[derive(Debug, Clone, PartialEq, Eq)]
pub struct FieldError {
    pub field: String,
    pub message: String,
}

impl View for FieldError {
    type V = (Seq<char>, Seq<char>);

    open spec fn view(&self) -> (Seq<char>, Seq<char>) {
        (self.field@, self.message@)
    }
}

/// The field/message pairs of a list of field errors.
pub open spec fn errors_view(es: Seq<FieldError>) -> Seq<(Seq<char>, Seq<char>)> {
    es.map_values(|e: FieldError| e@)
}

impl FieldError {
    pub fn new(field: &str, message: &str) -> (r: FieldError)
        ensures
            r@ == (field@, message@),
    {
        FieldError { field: String::from_str(field), message: String::from_str(message) }
    }
}

#[derive(Debug)]
pub enum ApiError {
    Unauthorized,
    Forbidden,
    NotFound,
    /// Deliberately identical for expired, already-consumed, and unknown
    /// tokens so that the response cannot be used to probe for registered
    /// email addresses.
    InvalidToken,
    RateLimited { retry_after_seconds: u64 },
    Validation(Vec<FieldError>),
    /// The request repeats something that may only happen once.
    Conflict,
    /// The caller's own profile is not complete enough for the action.
    ProfileIncomplete,
    /// An unexpected failure; the text is the cause, for the log only.
    Internal(String),
}

/// A validation failure on a single field.
pub open spec fn is_single_validation(e: ApiError, field: Seq<char>, message: Seq<char>) -> bool {
    e matches ApiError::Validation(es) && errors_view(es@) == seq![(field, message)]
}

/// The HTTP status each error is reported with.
pub open spec fn status_of(e: ApiError) -> u16 {
    match e {
        ApiError::Unauthorized => 401,
        ApiError::Forbidden => 403,
        ApiError::NotFound => 404,
        ApiError::InvalidToken => 400,
        ApiError::RateLimited { .. } => 429,
        ApiError::Validation(_) => 422,
        ApiError::Conflict => 409,
        ApiError::ProfileIncomplete => 403,
        ApiError::Internal(_) => 500,
    }
}

/// The stable machine-readable discriminator of each error.
pub open spec fn slug_of(e: ApiError) -> Seq<char> {
    match e {
        ApiError::Unauthorized => "unauthorized"@,
        ApiError::Forbidden => "forbidden"@,
        ApiError::NotFound => "not_found"@,
        ApiError::InvalidToken => "invalid_token"@,
        ApiError::RateLimited { .. } => "rate_limited"@,
        ApiError::Validation(_) => "validation_failed"@,
        ApiError::Conflict => "conflict"@,
        ApiError::ProfileIncomplete => "profile_incomplete"@,
        ApiError::Internal(_) => "internal_error"@,
    }
}

/// The human-readable sentence for each error; an internal error reads as its cause.
pub open spec fn message_of(e: ApiError) -> Seq<char> {
    match e {
        ApiError::Unauthorized => "authentication required"@,
        ApiError::Forbidden => "not permitted"@,
        ApiError::NotFound => "not found"@,
        ApiError::InvalidToken => "this login link is no longer valid"@,
        ApiError::RateLimited { .. } => "too many requests"@,
        ApiError::Validation(_) => "validation failed"@,
        ApiError::Conflict => "already done"@,
        ApiError::ProfileIncomplete => "complete your profile first"@,
        ApiError::Internal(cause) => cause@,
    }
}

/// What a client receives for an error. `errors` is present for validation
/// failures and `retry_after` for rate limits; `internal` asks the caller to
/// log the cause under a fresh correlation id.
pub struct Problem {
    pub type_slug: &'static str,
    pub title: String,
    pub status: u16,
    pub errors: Option<Vec<FieldError>>,
    pub retry_after: Option<u64>,
    pub internal: bool,
}

impl ApiError {
    /// A validation failure on one field.
    pub fn invalid_field(field: &str, message: &str) -> (r: ApiError)
        ensures
            is_single_validation(r, field@, message@),
    {
        let mut es: Vec<FieldError> = Vec::new();
        es.push(FieldError::new(field, message));
        assert(errors_view(es@) =~= seq![(field@, message@)]);
        ApiError::Validation(es)
    }

    pub fn status(&self) -> (r: u16)
        ensures
            r == status_of(*self),
    {
        match self {
            ApiError::Unauthorized => 401,
            ApiError::Forbidden => 403,
            ApiError::NotFound => 404,
            ApiError::InvalidToken => 400,
            ApiError::RateLimited { .. } => 429,
            ApiError::Validation(_) => 422,
            ApiError::Conflict => 409,
            ApiError::ProfileIncomplete => 403,
            ApiError::Internal(_) => 500,
        }
    }

    /// Stable machine-readable discriminator. The frontend branches on this,
    /// never on the human-readable message.
    pub fn type_slug(&self) -> (r: &'static str)
        ensures
            r@ == slug_of(*self),
    {
        match self {
            ApiError::Unauthorized => "unauthorized",
            ApiError::Forbidden => "forbidden",
            ApiError::NotFound => "not_found",
            ApiError::InvalidToken => "invalid_token",
            ApiError::RateLimited { .. } => "rate_limited",
            ApiError::Validation(_) => "validation_failed",
            ApiError::Conflict => "conflict",
            ApiError::ProfileIncomplete => "profile_incomplete",
            ApiError::Internal(_) => "internal_error",
        }
    }

    /// The human-readable sentence for this error.
    pub fn message(&self) -> (r: String)
        ensures
            r@ == message_of(*self),
    {
        match self {
            ApiError::Unauthorized => String::from_str("authentication required"),
            ApiError::Forbidden => String::from_str("not permitted"),
            ApiError::NotFound => String::from_str("not found"),
            ApiError::InvalidToken => String::from_str("this login link is no longer valid"),
            ApiError::RateLimited { .. } => String::from_str("too many requests"),
            ApiError::Validation(_) => String::from_str("validation failed"),
            ApiError::Conflict => String::from_str("already done"),
            ApiError::ProfileIncomplete => String::from_str("complete your profile first"),
            ApiError::Internal(cause) => cause.clone(),
        }
    }

    /// The problem document for this error. The cause of an internal error
    /// is never part of it: it can contain connection strings and other
    /// internals.
    pub fn into_problem(self) -> (p: Problem)
        ensures
            p.type_slug@ == slug_of(self),
            p.status == status_of(self),
            p.title@ == (if self is Internal {
                "something went wrong"@
            } else {
                message_of(self)
            }),
            p.internal == (self is Internal),
            match self {
                ApiError::Validation(es) => p.errors == Some(es),
                _ => p.errors is None,
            },
            match self {
                ApiError::RateLimited { retry_after_seconds } => p.retry_after == Some(
                    retry_after_seconds,
                ),
                _ => p.retry_after is None,
            },
    {
        let type_slug = self.type_slug();
        let status = self.status();
        let title = match &self {
            ApiError::Internal(_) => String::from_str("something went wrong"),
            _ => self.message(),
        };
        let internal = match &self {
            ApiError::Internal(_) => true,
            _ => false,
        };
        let retry_after = match &self {
            ApiError::RateLimited { retry_after_seconds } => Some(*retry_after_seconds),
            _ => None,
        };
        let errors = match self {
            ApiError::Validation(es) => Some(es),
            _ => None,
        };
        Problem { type_slug, title, status, errors, retry_after, internal }
    }
}

} // verus!
