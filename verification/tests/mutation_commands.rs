use arcana::commands::mutation_commands::{
    ApplyMutationBatch, MutationCommands, MutationOperation, MutationValue, PackTarget,
};
use arcana::commands::pack_commands::PackContent;
use arcana::commands::record_commands::{IncrementScalarRecord, SetScalarRecord};
use arcana::error::RepositoryErrorCode;
use arcana::json::JsonValue;
use arcana::record::Record;
use arcana::repository::Repository;
use arcana::standard_packs::{basic_pack, BASIC_PACK_ID};

fn repository() -> Repository {
    let mut repository = Repository::new();
    repository.put_pack(basic_pack()).unwrap();
    repository.set_pack_enabled(BASIC_PACK_ID, true).unwrap();
    repository
}

fn number(value: &JsonValue) -> Option<f64> {
    match value {
        JsonValue::NegInt(i) => Some(*i as f64),
        JsonValue::PosInt(u) => Some(*u as f64),
        JsonValue::Float(text) => text.parse().ok(),
        _ => None,
    }
}

fn add_numbers(a: &JsonValue, b: &JsonValue) -> Option<JsonValue> {
    let sum = number(a)? + number(b)?;
    Some(JsonValue::Float(format!("{sum}")))
}

fn nickname(value: &str) -> MutationOperation {
    MutationOperation::RecordSet(SetScalarRecord {
        definition_id: "identity.nickname".to_string(),
        value: JsonValue::text(value),
        effective_at: None,
    })
}

#[test]
fn dry_run_returns_results_and_rolls_back() {
    let mut repository = repository();
    let result = MutationCommands::new(&mut repository).apply_batch(
        ApplyMutationBatch {
            operations: vec![nickname("Preview")],
        },
        true,
        add_numbers,
    );
    let result = result.unwrap();
    assert!(result.dry_run);
    match &result.operations[0].result {
        MutationValue::Record(Record::Scalar(record)) => {
            assert_eq!(record.value, JsonValue::text("Preview"));
        }
        other => panic!("unexpected result {other:?}"),
    }
    assert!(repository.find_record("identity.nickname").is_none());
}

#[test]
fn failed_batch_rolls_back_earlier_operations() {
    let mut repository = repository();
    let error = MutationCommands::new(&mut repository)
        .apply_batch(
            ApplyMutationBatch {
                operations: vec![
                    nickname("Should roll back"),
                    MutationOperation::RecordIncrement(IncrementScalarRecord {
                        definition_id: "identity.nickname".to_string(),
                        delta: JsonValue::PosInt(1),
                        effective_at: None,
                    }),
                ],
            },
            false,
            add_numbers,
        )
        .unwrap_err();
    assert_eq!(error.operation_index, Some(1));
    assert_eq!(error.operation.as_deref(), Some("record.increment"));
    assert!(repository.find_record("identity.nickname").is_none());
}

#[test]
fn pack_write_enable_and_delete_share_the_batch_transaction() {
    let mut repository = repository();
    let content = PackContent::scaffold("cooking".to_string(), "Cooking".to_string()).unwrap();
    let created = MutationCommands::new(&mut repository)
        .apply_batch(
            ApplyMutationBatch {
                operations: vec![
                    MutationOperation::PackWrite(content),
                    MutationOperation::PackEnable(PackTarget {
                        pack_id: "cooking".to_string(),
                    }),
                ],
            },
            false,
            add_numbers,
        )
        .map_err(|error| error.source)
        .unwrap();
    match &created.operations[1].result {
        MutationValue::PackEnabled(state) => assert!(state.enabled),
        other => panic!("unexpected result {other:?}"),
    }
    assert!(repository.is_enabled("cooking"));

    let preview = MutationCommands::new(&mut repository)
        .apply_batch(
            ApplyMutationBatch {
                operations: vec![MutationOperation::PackDelete(PackTarget {
                    pack_id: "cooking".to_string(),
                })],
            },
            true,
            add_numbers,
        )
        .map_err(|error| error.source)
        .unwrap();
    assert!(preview.dry_run);
    match &preview.operations[0].result {
        MutationValue::PackDeleted(result) => assert!(result.was_enabled),
        other => panic!("unexpected result {other:?}"),
    }
    assert!(repository.find_pack("cooking").is_some());
}

#[test]
fn empty_batch_is_refused_without_an_operation_index() {
    let mut repository = repository();
    let error = MutationCommands::new(&mut repository)
        .apply_batch(ApplyMutationBatch { operations: vec![] }, false, add_numbers)
        .unwrap_err();
    assert_eq!(error.operation_index, None);
    assert_eq!(error.operation, None);
    assert_eq!(error.source.code, RepositoryErrorCode::ValidationFailed);
    assert_eq!(error.source.message, "batch must contain at least one operation");
}

#[test]
fn committed_batch_keeps_every_operation_in_order() {
    let mut repository = repository();
    let result = MutationCommands::new(&mut repository)
        .apply_batch(
            ApplyMutationBatch {
                operations: vec![nickname("First"), nickname("Second")],
            },
            false,
            add_numbers,
        )
        .unwrap();
    assert!(!result.dry_run);
    assert_eq!(result.operations.len(), 2);
    assert_eq!(result.operations[0].index, 0);
    assert_eq!(result.operations[1].index, 1);
    assert_eq!(result.operations[1].operation, "record.set");
    let index = repository.find_record("identity.nickname").unwrap();
    match &repository.records[index] {
        Record::Scalar(record) => assert_eq!(record.value, JsonValue::text("Second")),
        other => panic!("unexpected record {other:?}"),
    }
}

#[test]
fn apply_one_returns_the_single_result_or_its_error() {
    let mut repository = repository();
    let value = MutationCommands::new(&mut repository)
        .apply_one(nickname("Solo"), false, add_numbers)
        .unwrap();
    assert!(matches!(value, MutationValue::Record(Record::Scalar(_))));
    assert!(repository.find_record("identity.nickname").is_some());
    let error = MutationCommands::new(&mut repository)
        .apply_one(
            MutationOperation::PackEnable(PackTarget {
                pack_id: "missing".to_string(),
            }),
            false,
            add_numbers,
        )
        .unwrap_err();
    assert_eq!(error.code, RepositoryErrorCode::NotFound);
}
