//! The library's error type.

use vstd::prelude::*;

verus! {

/// Why an operation failed. Each variant carries a human-readable message.
#[derive(Debug, Clone, PartialEq, Eq)]
pub enum WorksetError {
    Db(String),
    Validation(String),
    NotFound(String),
    Io(String),
    Windows(String),
    Timeout(String),
    Regex(String),
    Json(String),
}

/// The text that precedes the message of each variant.
pub open spec fn error_prefix(e: WorksetError) -> Seq<char> {
    kind_prefix(error_kind(e))
}

/// The text that precedes the message of an error of variant `k`.
pub open spec fn kind_prefix(k: ErrorKind) -> Seq<char> {
    match k {
        ErrorKind::Db => "database error: "@,
        ErrorKind::Validation => "validation error: "@,
        ErrorKind::NotFound => "not found: "@,
        ErrorKind::Io => "io error: "@,
        ErrorKind::Windows => "windows error: "@,
        ErrorKind::Timeout => "operation timed out: "@,
        ErrorKind::Regex => "regex error: "@,
        ErrorKind::Json => "json error: "@,
    }
}

/// The full display text of an error.
pub open spec fn error_text(e: WorksetError) -> Seq<char> {
    error_prefix(e) + error_detail(e)
}

/// The message an error carries.
pub open spec fn error_detail(e: WorksetError) -> Seq<char> {
    match e {
        WorksetError::Db(m) => m@,
        WorksetError::Validation(m) => m@,
        WorksetError::NotFound(m) => m@,
        WorksetError::Io(m) => m@,
        WorksetError::Windows(m) => m@,
        WorksetError::Timeout(m) => m@,
        WorksetError::Regex(m) => m@,
        WorksetError::Json(m) => m@,
    }
}

/// The variant of an error, without its message.
#[derive(Debug, Clone, Copy, PartialEq, Eq)]
pub enum ErrorKind {
    Db,
    Validation,
    NotFound,
    Io,
    Windows,
    Timeout,
    Regex,
    Json,
}

/// The variant of `e`.
pub open spec fn error_kind(e: WorksetError) -> ErrorKind {
    match e {
        WorksetError::Db(_) => ErrorKind::Db,
        WorksetError::Validation(_) => ErrorKind::Validation,
        WorksetError::NotFound(_) => ErrorKind::NotFound,
        WorksetError::Io(_) => ErrorKind::Io,
        WorksetError::Windows(_) => ErrorKind::Windows,
        WorksetError::Timeout(_) => ErrorKind::Timeout,
        WorksetError::Regex(_) => ErrorKind::Regex,
        WorksetError::Json(_) => ErrorKind::Json,
    }
}

impl WorksetError {
    /// The full display text, e.g. `validation error: app name must not be empty`.
    pub fn message(&self) -> (s: String)
        ensures
            s@ == error_text(*self),
    {
        let (prefix, detail) = match self {
            WorksetError::Db(m) => (String::from_str("database error: "), m),
            WorksetError::Validation(m) => (String::from_str("validation error: "), m),
            WorksetError::NotFound(m) => (String::from_str("not found: "), m),
            WorksetError::Io(m) => (String::from_str("io error: "), m),
            WorksetError::Windows(m) => (String::from_str("windows error: "), m),
            WorksetError::Timeout(m) => (String::from_str("operation timed out: "), m),
            WorksetError::Regex(m) => (String::from_str("regex error: "), m),
            WorksetError::Json(m) => (String::from_str("json error: "), m),
        };
        prefix.concat(detail.as_str())
    }
}

} // verus!
