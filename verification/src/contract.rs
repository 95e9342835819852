//! The data CLI's stable contract: error codes, exit codes and the
//! capabilities it reports.
use vstd::prelude::*;
use crate::error::{RepositoryError, RepositoryErrorCode, ValidationIssue};
use crate::json::JsonValue;
use crate::pack::SCHEMA_VERSION;

verus! {

pub const CONTRACT_VERSION: u32 = 1;
/// The schema version of the SQLite runtime database.
pub const DATABASE_SCHEMA_VERSION: u32 = 1;
pub const EXIT_SUCCESS: i32 = 0;
pub const EXIT_DOMAIN_ERROR: i32 = 1;
pub const EXIT_INPUT_ERROR: i32 = 2;
pub const EXIT_RUNTIME_ERROR: i32 = 3;

/// What the failed command was working on; it decides the error code.
/// The command groups beyond Records and Packs (Missions, suggestions,
/// assistant memory, Achievements, Skills, Status, the context summary and
/// Derived Values) name their failures as Records and Packs do:
/// `<subject>_not_found`, `<subject>_conflict`, `<subject>_unresolved`.
#[derive(Debug, Clone, Copy, PartialEq, Eq, Structural)]
pub enum RepositoryOperation {
    Initialize,
    Record,
    Pack,
    PackAsset,
    JsonImport,
    JsonExport,
    Mission,
    MissionSuggestion,
    Memory,
    Achievement,
    Skill,
    Status,
    Context,
    DerivedValue,
}

/// The structured details of a CLI error.
#[derive(Debug, Clone, PartialEq, Eq)]
pub enum CliErrorDetails {
    /// `{}`
    Empty,
    /// The caller's details object with the operation's name under
    /// `operation`.
    CommandInput(Vec<(String, JsonValue)>),
    /// `{ "database": <path> }`
    Database(String),
    /// `{ "repository_code": .., "validation_issues": [..] }`
    Repository {
        repository_code: RepositoryErrorCode,
        validation_issues: Vec<ValidationIssue>,
    },
}

#[derive(Debug, Clone, PartialEq, Eq)]
pub struct CliError {
    pub code: String,
    pub message: String,
    pub details: CliErrorDetails,
    pub exit_code: i32,
}

/// The stable code of a repository failure in an operation.
pub open spec fn repository_error_code_spec(code: RepositoryErrorCode, operation: RepositoryOperation) -> Seq<char> {
    match code {
        RepositoryErrorCode::Busy => "runtime_busy"@,
        RepositoryErrorCode::Storage => "storage_error"@,
        RepositoryErrorCode::ValidationFailed => "validation_failed"@,
        RepositoryErrorCode::NotFound => match operation {
            RepositoryOperation::Initialize | RepositoryOperation::JsonExport => "runtime_not_initialized"@,
            RepositoryOperation::Record => "record_not_found"@,
            RepositoryOperation::Pack => "pack_not_found"@,
            RepositoryOperation::PackAsset => "pack_asset_not_found"@,
            RepositoryOperation::JsonImport => "json_import_not_found"@,
            RepositoryOperation::Mission => "mission_not_found"@,
            RepositoryOperation::MissionSuggestion => "mission_suggestion_not_found"@,
            RepositoryOperation::Memory => "memory_not_found"@,
            RepositoryOperation::Achievement => "achievement_not_found"@,
            RepositoryOperation::Skill => "skill_not_found"@,
            RepositoryOperation::Status => "status_not_found"@,
            RepositoryOperation::Context => "context_not_found"@,
            RepositoryOperation::DerivedValue => "derived_value_not_found"@,
        },
        RepositoryErrorCode::Conflict => match operation {
            RepositoryOperation::Initialize => "runtime_already_initialized"@,
            RepositoryOperation::Record => "record_conflict"@,
            RepositoryOperation::Pack => "pack_conflict"@,
            RepositoryOperation::PackAsset => "pack_asset_conflict"@,
            RepositoryOperation::JsonImport => "json_import_conflict"@,
            RepositoryOperation::JsonExport => "json_export_conflict"@,
            RepositoryOperation::Mission => "mission_conflict"@,
            RepositoryOperation::MissionSuggestion => "mission_suggestion_conflict"@,
            RepositoryOperation::Memory => "memory_conflict"@,
            RepositoryOperation::Achievement => "achievement_conflict"@,
            RepositoryOperation::Skill => "skill_conflict"@,
            RepositoryOperation::Status => "status_conflict"@,
            RepositoryOperation::Context => "context_conflict"@,
            RepositoryOperation::DerivedValue => "derived_value_conflict"@,
        },
        RepositoryErrorCode::Unresolved => match operation {
            RepositoryOperation::Record => "record_unresolved"@,
            RepositoryOperation::Pack => "pack_unresolved"@,
            RepositoryOperation::PackAsset => "pack_asset_unresolved"@,
            RepositoryOperation::Initialize
            | RepositoryOperation::JsonImport
            | RepositoryOperation::JsonExport => "unresolved_reference"@,
            RepositoryOperation::Mission => "mission_unresolved"@,
            RepositoryOperation::MissionSuggestion => "mission_suggestion_unresolved"@,
            RepositoryOperation::Memory => "memory_unresolved"@,
            RepositoryOperation::Achievement => "achievement_unresolved"@,
            RepositoryOperation::Skill => "skill_unresolved"@,
            RepositoryOperation::Status => "status_unresolved"@,
            RepositoryOperation::Context => "context_unresolved"@,
            RepositoryOperation::DerivedValue => "derived_value_unresolved"@,
        },
    }
}

/// The stable code of a repository failure.
pub fn repository_error_code(code: RepositoryErrorCode, operation: RepositoryOperation) -> (r: &'static str)
    ensures
        r@ == repository_error_code_spec(code, operation),
{
    match code {
        RepositoryErrorCode::Busy => "runtime_busy",
        RepositoryErrorCode::Storage => "storage_error",
        RepositoryErrorCode::ValidationFailed => "validation_failed",
        RepositoryErrorCode::NotFound => match operation {
            RepositoryOperation::Initialize | RepositoryOperation::JsonExport => "runtime_not_initialized",
            RepositoryOperation::Record => "record_not_found",
            RepositoryOperation::Pack => "pack_not_found",
            RepositoryOperation::PackAsset => "pack_asset_not_found",
            RepositoryOperation::JsonImport => "json_import_not_found",
            RepositoryOperation::Mission => "mission_not_found",
            RepositoryOperation::MissionSuggestion => "mission_suggestion_not_found",
            RepositoryOperation::Memory => "memory_not_found",
            RepositoryOperation::Achievement => "achievement_not_found",
            RepositoryOperation::Skill => "skill_not_found",
            RepositoryOperation::Status => "status_not_found",
            RepositoryOperation::Context => "context_not_found",
            RepositoryOperation::DerivedValue => "derived_value_not_found",
        },
        RepositoryErrorCode::Conflict => match operation {
            RepositoryOperation::Initialize => "runtime_already_initialized",
            RepositoryOperation::Record => "record_conflict",
            RepositoryOperation::Pack => "pack_conflict",
            RepositoryOperation::PackAsset => "pack_asset_conflict",
            RepositoryOperation::JsonImport => "json_import_conflict",
            RepositoryOperation::JsonExport => "json_export_conflict",
            RepositoryOperation::Mission => "mission_conflict",
            RepositoryOperation::MissionSuggestion => "mission_suggestion_conflict",
            RepositoryOperation::Memory => "memory_conflict",
            RepositoryOperation::Achievement => "achievement_conflict",
            RepositoryOperation::Skill => "skill_conflict",
            RepositoryOperation::Status => "status_conflict",
            RepositoryOperation::Context => "context_conflict",
            RepositoryOperation::DerivedValue => "derived_value_conflict",
        },
        RepositoryErrorCode::Unresolved => match operation {
            RepositoryOperation::Record => "record_unresolved",
            RepositoryOperation::Pack => "pack_unresolved",
            RepositoryOperation::PackAsset => "pack_asset_unresolved",
            RepositoryOperation::Initialize
            | RepositoryOperation::JsonImport
            | RepositoryOperation::JsonExport => "unresolved_reference",
            RepositoryOperation::Mission => "mission_unresolved",
            RepositoryOperation::MissionSuggestion => "mission_suggestion_unresolved",
            RepositoryOperation::Memory => "memory_unresolved",
            RepositoryOperation::Achievement => "achievement_unresolved",
            RepositoryOperation::Skill => "skill_unresolved",
            RepositoryOperation::Status => "status_unresolved",
            RepositoryOperation::Context => "context_unresolved",
            RepositoryOperation::DerivedValue => "derived_value_unresolved",
        },
    }
}

/// The JSON name of a repository error code.
pub open spec fn repository_code_name_spec(code: RepositoryErrorCode) -> Seq<char> {
    match code {
        RepositoryErrorCode::NotFound => "not_found"@,
        RepositoryErrorCode::Conflict => "conflict"@,
        RepositoryErrorCode::ValidationFailed => "validation_failed"@,
        RepositoryErrorCode::Unresolved => "unresolved"@,
        RepositoryErrorCode::Busy => "busy"@,
        RepositoryErrorCode::Storage => "storage"@,
    }
}

/// The JSON name of a repository error code.
pub fn repository_code_name(code: RepositoryErrorCode) -> (r: &'static str)
    ensures
        r@ == repository_code_name_spec(code),
{
    match code {
        RepositoryErrorCode::NotFound => "not_found",
        RepositoryErrorCode::Conflict => "conflict",
        RepositoryErrorCode::ValidationFailed => "validation_failed",
        RepositoryErrorCode::Unresolved => "unresolved",
        RepositoryErrorCode::Busy => "busy",
        RepositoryErrorCode::Storage => "storage",
    }
}

/// Failures of the store itself are runtime errors; the rest are domain
/// errors.
pub open spec fn repository_exit_code_spec(code: RepositoryErrorCode) -> i32 {
    match code {
        RepositoryErrorCode::Busy | RepositoryErrorCode::Storage => EXIT_RUNTIME_ERROR,
        _ => EXIT_DOMAIN_ERROR,
    }
}

impl CliError {
    /// The command line could not be parsed.
    pub fn invalid_invocation(message: String) -> (r: Self)
        ensures
            r.code@ == "invalid_invocation"@,
            r.message@ == message@,
            r.details == CliErrorDetails::Empty,
            r.exit_code == EXIT_INPUT_ERROR,
    {
        CliError {
            code: String::from_str("invalid_invocation"),
            message,
            details: CliErrorDetails::Empty,
            exit_code: EXIT_INPUT_ERROR,
        }
    }

    /// The command's input was refused before the runtime was opened; the
    /// details carry the operation's name under `operation`.
    pub fn invalid_command_input(operation: &str, message: String, details: Vec<(String, JsonValue)>) -> (r: Self)
        ensures
            r.code@ == "invalid_command_input"@,
            r.message@ == message@,
            r.exit_code == EXIT_INPUT_ERROR,
            r.details matches CliErrorDetails::CommandInput(entries) && entries_with_operation(details@, operation@, entries@),
    {
        let mut entries = details;
        let ghost initial = entries@;
        let mut k: usize = 0;
        while k < entries.len() && !crate::text::str_eq(entries[k].0.as_str(), "operation")
            invariant
                k <= entries@.len(),
                entries@ == initial,
                forall|i: int| 0 <= i < k ==> !is_operation_entry(#[trigger] entries@[i]),
            decreases entries.len() - k,
        {
            k = k + 1;
        }
        if k < entries.len() {
            assert(is_operation_entry(initial[k as int]));
            entries.set(k, (String::from_str("operation"), JsonValue::text(operation)));
            proof {
                assert(names_operation(entries@[k as int], operation@));
                assert(forall|j: int| 0 <= j < initial.len() && j != k ==> #[trigger] entries@[j] == initial[j]);
            }
        } else {
            entries.push((String::from_str("operation"), JsonValue::text(operation)));
            proof {
                assert(entries@.take(initial.len() as int) =~= initial);
                assert(names_operation(entries@[initial.len() as int], operation@));
            }
        }
        CliError {
            code: String::from_str("invalid_command_input"),
            message,
            details: CliErrorDetails::CommandInput(entries),
            exit_code: EXIT_INPUT_ERROR,
        }
    }

    /// The runtime database does not exist.
    pub fn runtime_not_initialized(database: &str) -> (r: Self)
        ensures
            r.code@ == "runtime_not_initialized"@,
            r.message@ == "Arcana runtime database does not exist: "@ + database@,
            r.details matches CliErrorDetails::Database(d) && d@ == database@,
            r.exit_code == EXIT_DOMAIN_ERROR,
    {
        CliError {
            code: String::from_str("runtime_not_initialized"),
            message: crate::text::concat2("Arcana runtime database does not exist: ", database),
            details: CliErrorDetails::Database(String::from_str(database)),
            exit_code: EXIT_DOMAIN_ERROR,
        }
    }

    /// A repository failure of an operation, with its stable code, its
    /// repository code and its validation findings.
    pub fn from_repository(error: RepositoryError, operation: RepositoryOperation) -> (r: Self)
        ensures
            r.code@ == repository_error_code_spec(error.code, operation),
            r.message == error.message,
            r.details == (CliErrorDetails::Repository {
                repository_code: error.code,
                validation_issues: error.validation_issues,
            }),
            r.exit_code == repository_exit_code_spec(error.code),
    {
        let code = repository_error_code(error.code, operation);
        let exit_code = match error.code {
            RepositoryErrorCode::Busy | RepositoryErrorCode::Storage => EXIT_RUNTIME_ERROR,
            _ => EXIT_DOMAIN_ERROR,
        };
        CliError {
            code: String::from_str(code),
            message: error.message,
            details: CliErrorDetails::Repository {
                repository_code: error.code,
                validation_issues: error.validation_issues,
            },
            exit_code,
        }
    }

    pub fn exit_code(&self) -> (r: i32)
        ensures
            r == self.exit_code,
    {
        self.exit_code
    }
}

pub open spec fn is_operation_entry(e: (String, JsonValue)) -> bool {
    e.0@ == "operation"@
}

pub open spec fn names_operation(e: (String, JsonValue), name: Seq<char>) -> bool {
    e.0@ == "operation"@ && (e.1 matches JsonValue::Str(t) && t@ == name)
}

/// `entries` are `details` with `operation` set to the name: the first
/// entry named `operation` takes it, or it is added at the end.
pub open spec fn entries_with_operation(details: Seq<(String, JsonValue)>, name: Seq<char>, entries: Seq<(String, JsonValue)>) -> bool {
    if exists|i: int| 0 <= i < details.len() && #[trigger] is_operation_entry(details[i]) {
        exists|i: int| {
            &&& 0 <= i < details.len()
            &&& #[trigger] is_operation_entry(details[i])
            &&& (forall|j: int| 0 <= j < i ==> !is_operation_entry(#[trigger] details[j]))
            &&& entries.len() == details.len()
            &&& names_operation(entries[i], name)
            &&& (forall|j: int| 0 <= j < details.len() && j != i ==> #[trigger] entries[j] == details[j])
        }
    } else {
        &&& entries.len() == details.len() + 1
        &&& entries.take(details.len() as int) == details
        &&& names_operation(entries[details.len() as int], name)
    }
}

/// One command family and the actions it offers.
#[derive(Debug, Clone, PartialEq, Eq)]
pub struct CommandCapability {
    pub name: String,
    pub version: u32,
    pub actions: Option<Vec<String>>,
}

/// Optional features of the contract.
#[derive(Debug, Clone, Copy, PartialEq, Eq)]
pub struct FeatureFlags {
    pub structured_errors: bool,
    pub dry_run: bool,
    pub batch: bool,
    pub git_sync: bool,
}

/// What the CLI reports without opening a runtime.
#[derive(Debug, Clone, PartialEq, Eq)]
pub struct Capabilities {
    pub contract_version: u32,
    pub repository_schema_version: u32,
    pub pack_schema_version: u32,
    pub sqlite_schema_version: u32,
    pub commands: Vec<CommandCapability>,
    pub features: FeatureFlags,
}

fn strings(items: &[&str]) -> (r: Vec<String>)
    ensures
        r@.len() == items@.len(),
        forall|i: int| 0 <= i < items@.len() ==> #[trigger] r@[i]@ == items@[i]@,
{
    let mut out: Vec<String> = Vec::new();
    let mut k: usize = 0;
    while k < items.len()
        invariant
            k <= items@.len(),
            out@.len() == k,
            forall|i: int| 0 <= i < k ==> #[trigger] out@[i]@ == items@[i]@,
        decreases items.len() - k,
    {
        out.push(String::from_str(items[k]));
        k = k + 1;
    }
    out
}

fn capability(name: &str, actions: &[&str]) -> (r: CommandCapability)
    ensures
        r.name@ == name@,
        r.version == 1,
        r.actions matches Some(a) && a@.len() == actions@.len()
            && forall|i: int| 0 <= i < actions@.len() ==> #[trigger] a@[i]@ == actions@[i]@,
{
    CommandCapability { name: String::from_str(name), version: 1, actions: Some(strings(actions)) }
}

/// The contract and schema versions, each command family
/// with its actions, and the features.
pub fn capabilities() -> (r: Capabilities)
    ensures
        r.contract_version == CONTRACT_VERSION,
        r.repository_schema_version == SCHEMA_VERSION,
        r.pack_schema_version == SCHEMA_VERSION,
        r.sqlite_schema_version == DATABASE_SCHEMA_VERSION,
        r.commands@.len() == 4,
        r.commands@[0].name@ == "init"@ && r.commands@[0].version == 1 && r.commands@[0].actions is None,
        r.commands@[1].name@ == "record"@ && r.commands@[1].version == 1,
        r.commands@[1].actions matches Some(a) && a@.len() == 14
            && a@[0]@ == "get"@ && a@[13]@ == "delete"@,
        r.commands@[2].name@ == "pack"@ && r.commands@[2].version == 1,
        r.commands@[2].actions matches Some(a) && a@.len() == 9
            && a@[0]@ == "list"@ && a@[8]@ == "disable"@,
        r.commands@[3].name@ == "json"@ && r.commands@[3].version == 1,
        r.commands@[3].actions matches Some(a) && a@.len() == 2
            && a@[0]@ == "import"@ && a@[1]@ == "export"@,
        r.features == (FeatureFlags { structured_errors: true, dry_run: false, batch: false, git_sync: false }),
{
    let record_actions: [&str; 14] = [
        "get",
        "query",
        "set",
        "increment",
        "correct",
        "create-empty-collection",
        "create-empty-event",
        "add-item",
        "correct-item",
        "remove-item",
        "append-event",
        "correct-event",
        "delete-event",
        "delete",
    ];
    let pack_actions: [&str; 9] = [
        "list",
        "show",
        "scaffold",
        "validate",
        "write",
        "asset-put",
        "asset-delete",
        "enable",
        "disable",
    ];
    let json_actions: [&str; 2] = ["import", "export"];
    let mut commands: Vec<CommandCapability> = Vec::new();
    commands.push(CommandCapability { name: String::from_str("init"), version: 1, actions: None });
    commands.push(capability("record", &record_actions));
    commands.push(capability("pack", &pack_actions));
    commands.push(capability("json", &json_actions));
    Capabilities {
        contract_version: CONTRACT_VERSION,
        repository_schema_version: SCHEMA_VERSION,
        pack_schema_version: SCHEMA_VERSION,
        sqlite_schema_version: DATABASE_SCHEMA_VERSION,
        commands,
        features: FeatureFlags { structured_errors: true, dry_run: false, batch: false, git_sync: false },
    }
}

} // verus!
