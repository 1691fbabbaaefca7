//! The error a request is answered with: a kind, a stable code, a message and the
//! offending fields.

use vstd::prelude::*;
use vstd::string::StringExecFns;

verus! {

/// The class of a refusal, one per HTTP status the service answers with.
#[derive(Clone, Copy, Debug, PartialEq, Eq, Structural)]
pub enum ErrorKind {
    /// 400.
    BadRequest,
    /// 401.
    Unauthorized,
    /// 403.
    Forbidden,
    /// 404.
    NotFound,
    /// 409.
    Conflict,
    /// 422.
    Unprocessable,
    /// 429.
    TooManyRequests,
    /// 500.
    Internal,
}

/// One offending field and what is wrong with it.
#[derive(Debug)]
pub struct FieldError {
    /// The field's name.
    pub field: String,
    /// What is wrong.
    pub message: String,
}

/// A refusal.
#[derive(Debug)]
pub struct AppError {
    /// The class.
    pub kind: ErrorKind,
    /// A stable machine-readable code.
    pub code: String,
    /// A human-readable message.
    pub message: String,
    /// The offending fields.
    pub details: Vec<FieldError>,
}

/// An `AppError` as plain sequences.
pub struct ErrorView {
    /// The class.
    pub kind: ErrorKind,
    /// The code.
    pub code: Seq<char>,
    /// The message.
    pub message: Seq<char>,
    /// `(field, message)` of each offending field.
    pub details: Seq<(Seq<char>, Seq<char>)>,
}

/// A field error as a pair of sequences.
pub open spec fn field_view(f: FieldError) -> (Seq<char>, Seq<char>) {
    (f.field@, f.message@)
}

impl View for AppError {
    type V = ErrorView;

    open spec fn view(&self) -> ErrorView {
        ErrorView {
            kind: self.kind,
            code: self.code@,
            message: self.message@,
            details: self.details@.map_values(|f: FieldError| field_view(f)),
        }
    }
}

/// The view of an error built from its parts.
pub open spec fn error_view(
    kind: ErrorKind,
    code: Seq<char>,
    message: Seq<char>,
    details: Seq<(Seq<char>, Seq<char>)>,
) -> ErrorView {
    ErrorView { kind, code, message, details }
}

/// A 422 with the code `EVENT_VALIDATION`.
pub open spec fn validation_error(message: Seq<char>, details: Seq<(Seq<char>, Seq<char>)>) -> ErrorView {
    error_view(ErrorKind::Unprocessable, "EVENT_VALIDATION"@, message, details)
}

impl FieldError {
    /// A field error.
    pub fn new(field: &str, message: &str) -> (res: FieldError)
        ensures
            field_view(res) == (field@, message@),
    {
        FieldError { field: String::from_str(field), message: String::from_str(message) }
    }
}

impl AppError {
    /// An error with no offending fields.
    pub fn simple(kind: ErrorKind, code: &str, message: &str) -> (res: AppError)
        ensures
            res@ == error_view(kind, code@, message@, Seq::empty()),
    {
        let res = AppError {
            kind,
            code: String::from_str(code),
            message: String::from_str(message),
            details: Vec::new(),
        };
        assert(res@.details =~= Seq::<(Seq<char>, Seq<char>)>::empty());
        res
    }

    /// A 422 naming one offending field.
    pub fn unprocessable(code: &str, message: &str, field: &str, problem: &str) -> (res: AppError)
        ensures
            res@ == error_view(ErrorKind::Unprocessable, code@, message@, seq![(field@, problem@)]),
    {
        let mut details = Vec::new();
        details.push(FieldError::new(field, problem));
        let res = AppError {
            kind: ErrorKind::Unprocessable,
            code: String::from_str(code),
            message: String::from_str(message),
            details,
        };
        assert(res@.details =~= seq![(field@, problem@)]);
        res
    }
}

} // verus!
