//! Errors reported by the repository and its commands.
use vstd::prelude::*;
use crate::text::{concat3, concat5};
use vstd::string::*;

verus! {

/// Stable classification of a repository failure.
#[derive(Debug, Clone, Copy, PartialEq, Eq, Structural)]
pub enum RepositoryErrorCode {
    NotFound,
    Conflict,
    ValidationFailed,
    Unresolved,
    Busy,
    Storage,
}

/// One structured validation finding.
#[derive(Debug, Clone, PartialEq, Eq)]
pub struct ValidationIssue {
    pub code: String,
    pub path: String,
    pub message: String,
}

/// A failure with its code, a human-readable message and any structured
/// validation findings.
#[derive(Debug, Clone, PartialEq, Eq)]
pub struct RepositoryError {
    pub code: RepositoryErrorCode,
    pub message: String,
    pub validation_issues: Vec<ValidationIssue>,
}

impl RepositoryError {
    /// An error with the given code and message and no validation findings.
    pub fn new(code: RepositoryErrorCode, message: String) -> (r: Self)
        ensures
            r.code == code,
            r.message@ == message@,
            r.validation_issues@.len() == 0,
    {
        RepositoryError { code, message, validation_issues: Vec::new() }
    }

    /// A validation failure carrying its findings.
    pub fn validation(issues: Vec<ValidationIssue>, message: String) -> (r: Self)
        ensures
            r.code == RepositoryErrorCode::ValidationFailed,
            r.message@ == message@,
            r.validation_issues@ == issues@,
    {
        RepositoryError { code: RepositoryErrorCode::ValidationFailed, message, validation_issues: issues }
    }
}

/// The outcome of a repository operation.
pub type RepositoryResult<T> = Result<T, RepositoryError>;

/// `Record '<id>' does not exist`
pub open spec fn record_missing_message(definition_id: Seq<char>) -> Seq<char> {
    "Record '"@ + definition_id + "' does not exist"@
}

/// `Record '<id>' is not stored as <expected>`
pub open spec fn kind_conflict_message(definition_id: Seq<char>, expected: Seq<char>) -> Seq<char> {
    "Record '"@ + definition_id + "' is not stored as "@ + expected
}

/// `<kind> '<id>' already exists in Record '<definition>'`
pub open spec fn child_conflict_message(kind: Seq<char>, id: Seq<char>, definition_id: Seq<char>) -> Seq<char> {
    kind + " '"@ + id + "' already exists in Record '"@ + definition_id + "'"@
}

/// `<kind> '<id>' does not exist in Record '<definition>'`
pub open spec fn child_missing_message(kind: Seq<char>, id: Seq<char>, definition_id: Seq<char>) -> Seq<char> {
    kind + " '"@ + id + "' does not exist in Record '"@ + definition_id + "'"@
}

/// The error for a Record that was expected to exist.
pub fn record_not_found(definition_id: &str) -> (r: RepositoryError)
    ensures
        r.code == RepositoryErrorCode::NotFound,
        r.message@ == record_missing_message(definition_id@),
        r.validation_issues@.len() == 0,
{
    proof {
        reveal_strlit("Record '");
        reveal_strlit("' does not exist");
    }
    RepositoryError::new(RepositoryErrorCode::NotFound, concat3("Record '", definition_id, "' does not exist"))
}

/// The Record itself, or the not-found error.
pub fn required_record<T>(record: Option<T>, definition_id: &str) -> (r: Result<T, RepositoryError>)
    ensures
        record matches Some(v) ==> r == Ok::<T, RepositoryError>(v),
        record is None ==> (r matches Err(e) && e.code == RepositoryErrorCode::NotFound
            && e.message@ == record_missing_message(definition_id@)),
{
    match record {
        Some(v) => Ok(v),
        None => Err(record_not_found(definition_id)),
    }
}

/// The error for a Record stored with another kind than the command expects.
pub fn kind_conflict(definition_id: &str, expected: &str) -> (r: RepositoryError)
    ensures
        r.code == RepositoryErrorCode::Conflict,
        r.message@ == kind_conflict_message(definition_id@, expected@),
        r.validation_issues@.len() == 0,
{
    proof {
        reveal_strlit("Record '");
        reveal_strlit("' is not stored as ");
    }
    RepositoryError::new(RepositoryErrorCode::Conflict, concat3("Record '", definition_id, "' is not stored as ").concat(expected))
}

/// The error for a child (item or event) whose identifier is already taken.
pub fn child_conflict(kind: &str, id: &str, definition_id: &str) -> (r: RepositoryError)
    ensures
        r.code == RepositoryErrorCode::Conflict,
        r.message@ == child_conflict_message(kind@, id@, definition_id@),
        r.validation_issues@.len() == 0,
{
    proof {
        reveal_strlit(" '");
        reveal_strlit("' already exists in Record '");
        reveal_strlit("'");
    }
    RepositoryError::new(RepositoryErrorCode::Conflict, concat5(kind, " '", id, "' already exists in Record '", definition_id).concat("'"))
}

/// The error for a child (item or event) that is absent.
pub fn child_not_found(kind: &str, id: &str, definition_id: &str) -> (r: RepositoryError)
    ensures
        r.code == RepositoryErrorCode::NotFound,
        r.message@ == child_missing_message(kind@, id@, definition_id@),
        r.validation_issues@.len() == 0,
{
    proof {
        reveal_strlit(" '");
        reveal_strlit("' does not exist in Record '");
        reveal_strlit("'");
    }
    RepositoryError::new(RepositoryErrorCode::NotFound, concat5(kind, " '", id, "' does not exist in Record '", definition_id).concat("'"))
}

/// A command input that the rules refuse.
pub fn command_error(message: String) -> (r: RepositoryError)
    ensures
        r.code == RepositoryErrorCode::ValidationFailed,
        r.message@ == message@,
        r.validation_issues@.len() == 0,
{
    RepositoryError::new(RepositoryErrorCode::ValidationFailed, message)
}

/// A repository failure as the desktop commands report it: its code, its
/// message and its validation findings.
#[derive(Debug, Clone)]
pub struct DataCommandError {
    pub code: RepositoryErrorCode,
    pub message: String,
    pub validation_issues: Vec<ValidationIssue>,
}

impl From<RepositoryError> for DataCommandError {
    fn from(error: RepositoryError) -> (r: Self) {
        DataCommandError { code: error.code, message: error.message, validation_issues: error.validation_issues }
    }
}

impl vstd::std_specs::convert::FromSpecImpl<RepositoryError> for DataCommandError {
    open spec fn obeys_from_spec() -> bool {
        true
    }

    open spec fn from_spec(error: RepositoryError) -> Self {
        DataCommandError { code: error.code, message: error.message, validation_issues: error.validation_issues }
    }
}

} // verus!
