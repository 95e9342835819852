use arcana::contract::{
    capabilities, repository_error_code, CliError, CliErrorDetails, RepositoryOperation,
    CONTRACT_VERSION, EXIT_DOMAIN_ERROR, EXIT_INPUT_ERROR, EXIT_RUNTIME_ERROR,
};
use arcana::error::{RepositoryError, RepositoryErrorCode, ValidationIssue};
use arcana::json::JsonValue;

#[test]
fn capabilities_are_available_without_a_runtime() {
    let value = capabilities();
    assert_eq!(value.contract_version, CONTRACT_VERSION);
    let record = value.commands.iter().find(|c| c.name == "record").unwrap();
    assert_eq!(record.version, 1);
    assert!(!value.features.dry_run);
    let init = value.commands.iter().find(|c| c.name == "init").unwrap();
    assert_eq!(init.actions, None);
}

#[test]
fn repository_errors_have_stable_codes_and_structured_details() {
    let mut error = RepositoryError::new(
        RepositoryErrorCode::Unresolved,
        "definition is unavailable".to_string(),
    );
    error.validation_issues.push(ValidationIssue {
        code: "missing_definition".to_string(),
        path: "definition_id".to_string(),
        message: "missing".to_string(),
    });
    let error = CliError::from_repository(error, RepositoryOperation::Record);
    assert_eq!(error.code, "record_unresolved");
    assert_eq!(error.exit_code(), EXIT_DOMAIN_ERROR);
    match &error.details {
        CliErrorDetails::Repository {
            repository_code,
            validation_issues,
        } => {
            assert_eq!(*repository_code, RepositoryErrorCode::Unresolved);
            assert_eq!(validation_issues[0].path, "definition_id");
        }
        other => panic!("unexpected details {other:?}"),
    }
}

#[test]
fn store_failures_are_runtime_errors() {
    let error = CliError::from_repository(
        RepositoryError::new(RepositoryErrorCode::Busy, "locked".to_string()),
        RepositoryOperation::Pack,
    );
    assert_eq!(error.code, "runtime_busy");
    assert_eq!(error.exit_code(), EXIT_RUNTIME_ERROR);
    assert_eq!(
        repository_error_code(RepositoryErrorCode::NotFound, RepositoryOperation::JsonExport),
        "runtime_not_initialized"
    );
    assert_eq!(
        repository_error_code(RepositoryErrorCode::Conflict, RepositoryOperation::Initialize),
        "runtime_already_initialized"
    );
    assert_eq!(
        repository_error_code(RepositoryErrorCode::Unresolved, RepositoryOperation::JsonImport),
        "unresolved_reference"
    );
}

#[test]
fn command_input_errors_name_their_operation() {
    let error = CliError::invalid_command_input(
        "record.set",
        "bad input".to_string(),
        vec![
            ("path".to_string(), JsonValue::text("value")),
            ("operation".to_string(), JsonValue::text("stale")),
        ],
    );
    assert_eq!(error.code, "invalid_command_input");
    assert_eq!(error.exit_code(), EXIT_INPUT_ERROR);
    assert_eq!(
        error.details,
        CliErrorDetails::CommandInput(vec![
            ("path".to_string(), JsonValue::text("value")),
            ("operation".to_string(), JsonValue::text("record.set")),
        ])
    );
    let plain = CliError::invalid_command_input("pack.write", "bad".to_string(), vec![]);
    assert_eq!(
        plain.details,
        CliErrorDetails::CommandInput(vec![("operation".to_string(), JsonValue::text("pack.write"))])
    );
    let missing = CliError::runtime_not_initialized("/tmp/arcana.sqlite3");
    assert_eq!(
        missing.message,
        "Arcana runtime database does not exist: /tmp/arcana.sqlite3"
    );
    assert_eq!(
        CliError::invalid_invocation("no such command".to_string()).exit_code(),
        EXIT_INPUT_ERROR
    );
}
