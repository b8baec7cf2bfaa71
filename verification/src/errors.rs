//! Error values of the generation pipeline and of the service layer,
//! with their status codes, display texts, and the mapping from
//! database errors.
use crate::text::concat_strs;
use crate::text::contains_exec;
use crate::text::contains_seq;
use crate::text::first_match_at;
use crate::text::find_match;
use crate::text::str_eq;
use crate::text::str_to_chars;
use crate::text::string_from_chars;
use crate::text::subvec;
use vstd::prelude::*;

verus! {

/// An error of the code-generation pipeline. Each variant carries a
/// human-readable message.
#[derive(Debug)]
pub enum GenError {
    /// The source text does not follow the model declaration grammar.
    ParseError(String),
    /// No field of the model carries the primary-key marker.
    MissingPrimaryKey(String),
    /// The repository template cannot be rendered from the given
    /// metadata.
    TemplateError(String),
    /// Reading or writing a file failed; raised by the surrounding
    /// process, never by the pure transformation itself.
    IoError(String),
}

impl GenError {
    /// The message carried by this error.
    pub fn message(&self) -> (r: &String)
        ensures
            r@ == match self {
                GenError::ParseError(m) => m@,
                GenError::MissingPrimaryKey(m) => m@,
                GenError::TemplateError(m) => m@,
                GenError::IoError(m) => m@,
            },
    {
        match self {
            GenError::ParseError(m) => m,
            GenError::MissingPrimaryKey(m) => m,
            GenError::TemplateError(m) => m,
            GenError::IoError(m) => m,
        }
    }
}

/// The relevant shape of a database error, as the service layer reads
/// it: a lookup that found nothing, a custom message raised by
/// application code, or anything else already rendered to text.
#[derive(Debug)]
pub enum DbKind {
    RecordNotFound(String),
    Custom(String),
    Other(String),
}

/// An error answered to an API caller.
#[derive(Debug)]
pub enum AppError {
    ValidationError(String),
    Validator(String),
    NotFound(String),
    DatabaseError(String),
    InternalError(String),
    S3Error(String),
}

impl AppError {
    /// The HTTP status code owed for this error: bad request for
    /// validation failures, not found for missing records, internal
    /// error for the rest.
    pub fn status_code(&self) -> (r: u16)
        ensures
            r == match self {
                AppError::ValidationError(_) => 400u16,
                AppError::Validator(_) => 400u16,
                AppError::NotFound(_) => 404u16,
                AppError::DatabaseError(_) => 500u16,
                AppError::InternalError(_) => 500u16,
                AppError::S3Error(_) => 500u16,
            },
    {
        match self {
            AppError::ValidationError(_) => 400,
            AppError::Validator(_) => 400,
            AppError::NotFound(_) => 404,
            AppError::DatabaseError(_) => 500,
            AppError::InternalError(_) => 500,
            AppError::S3Error(_) => 500,
        }
    }

    /// The bare message used in the HTTP response body.
    pub fn response_message(&self) -> (r: &String)
        ensures
            r@ == match self {
                AppError::ValidationError(m) => m@,
                AppError::Validator(m) => m@,
                AppError::NotFound(m) => m@,
                AppError::DatabaseError(m) => m@,
                AppError::InternalError(m) => m@,
                AppError::S3Error(m) => m@,
            },
    {
        match self {
            AppError::ValidationError(m) => m,
            AppError::Validator(m) => m,
            AppError::NotFound(m) => m,
            AppError::DatabaseError(m) => m,
            AppError::InternalError(m) => m,
            AppError::S3Error(m) => m,
        }
    }

    /// The display form of this error, with its kind spelled out.
    pub fn display_string(&self) -> (r: String)
        ensures
            r@ == match self {
                AppError::ValidationError(m) => "Validation error: "@ + m@,
                AppError::Validator(m) => m@,
                AppError::NotFound(m) => "Not found: "@ + m@,
                AppError::DatabaseError(m) => "Database error: "@ + m@,
                AppError::InternalError(m) => "Internal error: "@ + m@,
                AppError::S3Error(m) => "S3 error: "@ + m@,
            },
    {
        match self {
            AppError::ValidationError(m) => concat_strs("Validation error: ", m.as_str()),
            AppError::Validator(m) => m.clone(),
            AppError::NotFound(m) => concat_strs("Not found: ", m.as_str()),
            AppError::DatabaseError(m) => concat_strs("Database error: ", m.as_str()),
            AppError::InternalError(m) => concat_strs("Internal error: ", m.as_str()),
            AppError::S3Error(m) => concat_strs("S3 error: ", m.as_str()),
        }
    }

    /// The error answered for a JSON payload that cannot be decoded.
    pub fn from_json_message(err_msg: &str) -> (r: AppError)
        ensures
            r matches AppError::ValidationError(m) && m@ == "Invalid JSON format: "@
                + err_msg@,
    {
        AppError::ValidationError(concat_strs("Invalid JSON format: ", err_msg))
    }

    /// The service-layer reading of a database error: a missing record
    /// turns into `NotFound`, the one custom validation message into
    /// `ValidationError`, other custom messages into `DatabaseError`,
    /// and everything else into `InternalError`.
    pub fn from_db_kind(err: DbKind) -> (r: AppError)
        ensures
            match err {
                DbKind::RecordNotFound(m) => r matches AppError::NotFound(w) && w@
                    == m@,
                DbKind::Custom(m) => if m@ == "Author ID is required"@ {
                    r matches AppError::ValidationError(w) && w@ == m@
                } else {
                    r matches AppError::DatabaseError(w) && w@ == m@
                },
                DbKind::Other(m) => r matches AppError::InternalError(w) && w@ == m@,
            },
    {
        match err {
            DbKind::RecordNotFound(m) => AppError::NotFound(m),
            DbKind::Custom(m) => {
                if str_eq(m.as_str(), "Author ID is required") {
                    AppError::ValidationError(m)
                } else {
                    AppError::DatabaseError(m)
                }
            },
            DbKind::Other(m) => AppError::InternalError(m),
        }
    }
}

/// Whether the message mentions a UUID, in either letter case.
pub open spec fn mentions_uuid(m: Seq<char>) -> bool {
    contains_seq(m, "UUID"@) || contains_seq(m, "uuid"@)
}

/// The message with a trailing ` at line ...` position report removed.
pub open spec fn cleaned_json_message(m: Seq<char>) -> Seq<char> {
    let f = first_match_at(m, " at line "@, 0);
    if f >= 0 {
        m.take(f)
    } else {
        m
    }
}

/// The body message answered for a malformed path parameter: a
/// malformed UUID is flagged as such.
pub fn format_path_error_message(err_msg: &str) -> (r: String)
    ensures
        mentions_uuid(err_msg@) ==> r@ == "Invalid UUID format: "@ + err_msg@,
        !mentions_uuid(err_msg@) ==> r@ == "Invalid path parameter: "@ + err_msg@,
{
    let mv = str_to_chars(err_msg);
    let up = str_to_chars("UUID");
    let lo = str_to_chars("uuid");
    if contains_exec(&mv, &up) || contains_exec(&mv, &lo) {
        concat_strs("Invalid UUID format: ", err_msg)
    } else {
        concat_strs("Invalid path parameter: ", err_msg)
    }
}

/// The body message answered for a malformed JSON payload: a malformed
/// UUID is flagged as such; otherwise the position report the decoder
/// appends is cut off.
pub fn format_json_error_message(err_msg: &str) -> (r: String)
    ensures
        mentions_uuid(err_msg@) ==> r@ == "Invalid UUID format: "@ + err_msg@,
        !mentions_uuid(err_msg@) ==> r@ == "Invalid json parameter: "@
            + cleaned_json_message(err_msg@),
{
    let mv = str_to_chars(err_msg);
    let up = str_to_chars("UUID");
    let lo = str_to_chars("uuid");
    if contains_exec(&mv, &up) || contains_exec(&mv, &lo) {
        return concat_strs("Invalid UUID format: ", err_msg);
    }
    let pat = str_to_chars(" at line ");
    let cleaned: Vec<char> = match find_match(&mv, &pat) {
        Option::Some(k) => subvec(&mv, 0, k),
        Option::None => subvec(&mv, 0, mv.len()),
    };
    proof {
        assert(cleaned@ =~= cleaned_json_message(err_msg@));
    }
    let cs = string_from_chars(&cleaned);
    concat_strs("Invalid json parameter: ", cs.as_str())
}

} // verus!
