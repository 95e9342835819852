use arcana::commands::record_commands::{
    AddCollectionItem, AppendEvent, CorrectCollectionItem, CorrectEvent, CreateEmptyRecord,
    DeleteEvent, IncrementScalarRecord, RecordCommands, RemoveCollectionItem, SetScalarRecord,
};
use arcana::error::RepositoryErrorCode;
use arcana::json::JsonValue;
use arcana::pack::{Pack, PackManifest, RecordDefinitionFile, SCHEMA_VERSION};
use arcana::record::{
    CollectionRecord, EventRecord, FieldDefinition, Record, RecordDefinition, ScalarRecord,
    ScalarRecordDefinition, StructuredRecordDefinition, ValueType,
};
use arcana::repository::Repository;
use arcana::standard_packs::{basic_pack, BASIC_PACK_ID};

fn numeric_pack() -> Pack {
    Pack {
        manifest: PackManifest {
            schema_version: SCHEMA_VERSION,
            id: "stats".to_string(),
            name: "Stats".to_string(),
            description: None,
            author: None,
            parent_pack_id: None,
            tags: vec![],
        },
        record_definitions: Some(RecordDefinitionFile {
            definitions: vec![
                RecordDefinition::Event(StructuredRecordDefinition {
                    id: "stats.activities".to_string(),
                    name: "Activities".to_string(),
                    description: None,
                    fields: vec![
                        (
                            "distance".to_string(),
                            FieldDefinition {
                                value_type: ValueType::Number,
                                required: false,
                                unit: Some("km".to_string()),
                            },
                        ),
                        (
                            "kind".to_string(),
                            FieldDefinition {
                                value_type: ValueType::String,
                                required: true,
                                unit: None,
                            },
                        ),
                    ],
                }),
                RecordDefinition::Scalar(ScalarRecordDefinition {
                    id: "stats.count".to_string(),
                    name: "Count".to_string(),
                    description: None,
                    value_type: ValueType::Integer,
                    unit: None,
                }),
                RecordDefinition::Collection(StructuredRecordDefinition {
                    id: "stats.projects".to_string(),
                    name: "Projects".to_string(),
                    description: None,
                    fields: vec![
                        (
                            "rating".to_string(),
                            FieldDefinition {
                                value_type: ValueType::Integer,
                                required: false,
                                unit: None,
                            },
                        ),
                        (
                            "title".to_string(),
                            FieldDefinition {
                                value_type: ValueType::String,
                                required: true,
                                unit: None,
                            },
                        ),
                    ],
                }),
                RecordDefinition::Scalar(ScalarRecordDefinition {
                    id: "stats.score".to_string(),
                    name: "Score".to_string(),
                    description: None,
                    value_type: ValueType::Number,
                    unit: None,
                }),
            ],
        }),
        dimensions: None,
        achievements: None,
        skills: None,
        derived_values: None,
        assets: Vec::new(),
    }
}

fn repository() -> Repository {
    let mut repository = Repository::new();
    repository.put_pack(numeric_pack()).unwrap();
    repository.set_pack_enabled("stats", true).unwrap();
    repository
}

fn number(value: &JsonValue) -> Option<f64> {
    match value {
        JsonValue::NegInt(i) => Some(*i as f64),
        JsonValue::PosInt(u) => Some(*u as f64),
        JsonValue::Float(text) => text.parse().ok(),
        _ => None,
    }
}

/// Adds two JSON numbers the way a floating-point runtime would.
fn add_numbers(a: &JsonValue, b: &JsonValue) -> Option<JsonValue> {
    let sum = number(a)? + number(b)?;
    Some(JsonValue::Float(format!("{sum}")))
}

fn text(s: &str) -> JsonValue {
    JsonValue::text(s)
}

#[test]
fn set_get_correct_and_delete_scalar() {
    let mut repository = repository();
    let mut commands = RecordCommands::new(&mut repository);
    let first = commands
        .set_scalar_at(
            SetScalarRecord {
                definition_id: "stats.count".to_string(),
                value: JsonValue::integer(2),
                effective_at: None,
            },
            "2026-08-15T20:30:00+08:00".to_string(),
        )
        .unwrap();
    assert_eq!(commands.get("stats.count").unwrap(), Some(first));

    let corrected = commands
        .correct_scalar(SetScalarRecord {
            definition_id: "stats.count".to_string(),
            value: JsonValue::integer(3),
            effective_at: None,
        })
        .unwrap();
    let Record::Scalar(corrected) = corrected else {
        panic!("stats.count must be scalar");
    };
    assert_eq!(corrected.value, JsonValue::integer(3));
    commands.delete("stats.count").unwrap();
    assert_eq!(commands.get("stats.count").unwrap(), None);
}

#[test]
fn increment_reads_and_writes_inside_transaction() {
    let mut repository = repository();
    let mut commands = RecordCommands::new(&mut repository);
    commands
        .set_scalar_at(
            SetScalarRecord {
                definition_id: "stats.count".to_string(),
                value: JsonValue::integer(10),
                effective_at: Some("2026-08-15".to_string()),
            },
            "2026-08-15T20:30:00+08:00".to_string(),
        )
        .unwrap();
    let updated = commands
        .increment_scalar_at(
            IncrementScalarRecord {
                definition_id: "stats.count".to_string(),
                delta: JsonValue::integer(5),
                effective_at: None,
            },
            "2026-08-15T20:31:00+08:00".to_string(),
            add_numbers,
        )
        .unwrap();
    assert_eq!(
        updated,
        Record::Scalar(ScalarRecord {
            definition_id: "stats.count".to_string(),
            value: JsonValue::integer(15),
            effective_at: Some("2026-08-15".to_string()),
            recorded_at: "2026-08-15T20:31:00+08:00".to_string(),
        })
    );
}

#[test]
fn integer_increment_rejects_fractional_delta_without_changing_record() {
    let mut repository = repository();
    let mut commands = RecordCommands::new(&mut repository);
    commands
        .set_scalar_at(
            SetScalarRecord {
                definition_id: "stats.count".to_string(),
                value: JsonValue::integer(10),
                effective_at: None,
            },
            "2026-08-15T20:30:00+08:00".to_string(),
        )
        .unwrap();
    let before = commands.get("stats.count").unwrap();
    let error = commands
        .increment_scalar_at(
            IncrementScalarRecord {
                definition_id: "stats.count".to_string(),
                delta: JsonValue::Float("0.5".to_string()),
                effective_at: None,
            },
            "2026-08-15T20:31:00+08:00".to_string(),
            add_numbers,
        )
        .unwrap_err();
    assert_eq!(error.code, RepositoryErrorCode::ValidationFailed);
    assert_eq!(commands.get("stats.count").unwrap(), before);
}

#[test]
fn increment_rejects_non_numeric_definition() {
    let mut repository = Repository::new();
    repository.put_pack(basic_pack()).unwrap();
    repository.set_pack_enabled(BASIC_PACK_ID, true).unwrap();
    let mut commands = RecordCommands::new(&mut repository);
    commands
        .set_scalar_at(
            SetScalarRecord {
                definition_id: "identity.nickname".to_string(),
                value: text("Alice"),
                effective_at: None,
            },
            "2026-08-15T20:30:00+08:00".to_string(),
        )
        .unwrap();
    let error = commands
        .increment_scalar_at(
            IncrementScalarRecord {
                definition_id: "identity.nickname".to_string(),
                delta: JsonValue::integer(1),
                effective_at: None,
            },
            "2026-08-15T20:31:00+08:00".to_string(),
            add_numbers,
        )
        .unwrap_err();
    assert_eq!(error.code, RepositoryErrorCode::ValidationFailed);
}

#[test]
fn explicit_empty_collection_is_preserved_and_never_clears_existing_data() {
    let mut repository = repository();
    let mut commands = RecordCommands::new(&mut repository);
    let empty = commands
        .create_empty_collection(CreateEmptyRecord {
            definition_id: "stats.projects".to_string(),
        })
        .unwrap();
    assert_eq!(
        empty,
        Record::Collection(CollectionRecord {
            definition_id: "stats.projects".to_string(),
            items: vec![],
        })
    );
    let error = commands
        .create_empty_collection(CreateEmptyRecord {
            definition_id: "stats.projects".to_string(),
        })
        .unwrap_err();
    assert_eq!(error.code, RepositoryErrorCode::Conflict);
    assert_eq!(commands.get("stats.projects").unwrap(), Some(empty));
}

#[test]
fn collection_commands_sort_reject_duplicates_correct_and_preserve_empty_header() {
    let mut repository = repository();
    let mut commands = RecordCommands::new(&mut repository);
    commands
        .add_collection_item_at(
            AddCollectionItem {
                definition_id: "stats.projects".to_string(),
                item_id: "project_b".to_string(),
                fields: vec![("title".to_string(), text("B"))],
            },
            "2026-08-15T20:30:00+08:00".to_string(),
        )
        .unwrap();
    let added = commands
        .add_collection_item_at(
            AddCollectionItem {
                definition_id: "stats.projects".to_string(),
                item_id: "project_a".to_string(),
                fields: vec![("title".to_string(), text("A"))],
            },
            "2026-08-15T20:31:00+08:00".to_string(),
        )
        .unwrap();
    let Record::Collection(added) = added else {
        panic!("stats.projects must be a collection");
    };
    assert_eq!(
        added
            .items
            .iter()
            .map(|item| item.id.as_str())
            .collect::<Vec<_>>(),
        vec!["project_a", "project_b"]
    );

    let before_duplicate = commands.get("stats.projects").unwrap();
    let error = commands
        .add_collection_item_at(
            AddCollectionItem {
                definition_id: "stats.projects".to_string(),
                item_id: "project_a".to_string(),
                fields: vec![("title".to_string(), text("duplicate"))],
            },
            "2026-08-15T20:32:00+08:00".to_string(),
        )
        .unwrap_err();
    assert_eq!(error.code, RepositoryErrorCode::Conflict);
    assert_eq!(commands.get("stats.projects").unwrap(), before_duplicate);

    let corrected = commands
        .correct_collection_item_at(
            CorrectCollectionItem {
                definition_id: "stats.projects".to_string(),
                item_id: "project_a".to_string(),
                fields: vec![
                    ("rating".to_string(), JsonValue::integer(5)),
                    ("title".to_string(), text("A+")),
                ],
            },
            "2026-08-15T20:33:00+08:00".to_string(),
        )
        .unwrap();
    let Record::Collection(corrected) = corrected else {
        panic!("stats.projects must be a collection");
    };
    let title = corrected.items[0]
        .fields
        .iter()
        .find(|(name, _)| name == "title")
        .map(|(_, value)| value.clone());
    assert_eq!(title, Some(text("A+")));
    assert_eq!(corrected.items[0].recorded_at, "2026-08-15T20:33:00+08:00");

    commands
        .remove_collection_item(RemoveCollectionItem {
            definition_id: "stats.projects".to_string(),
            item_id: "project_a".to_string(),
        })
        .unwrap();
    let empty = commands
        .remove_collection_item(RemoveCollectionItem {
            definition_id: "stats.projects".to_string(),
            item_id: "project_b".to_string(),
        })
        .unwrap();
    assert_eq!(
        empty,
        Record::Collection(CollectionRecord {
            definition_id: "stats.projects".to_string(),
            items: vec![],
        })
    );
    assert_eq!(commands.get("stats.projects").unwrap(), Some(empty));
}

#[test]
fn invalid_collection_item_rolls_back_implicit_record_creation() {
    let mut repository = repository();
    let mut commands = RecordCommands::new(&mut repository);
    let error = commands
        .add_collection_item_at(
            AddCollectionItem {
                definition_id: "stats.projects".to_string(),
                item_id: "project_a".to_string(),
                fields: Vec::new(),
            },
            "2026-08-15T20:30:00+08:00".to_string(),
        )
        .unwrap_err();
    assert_eq!(error.code, RepositoryErrorCode::ValidationFailed);
    assert_eq!(commands.get("stats.projects").unwrap(), None);
}

#[test]
fn event_commands_sort_reject_duplicates_correct_and_preserve_empty_header() {
    let mut repository = repository();
    let mut commands = RecordCommands::new(&mut repository);
    let empty = commands
        .create_empty_event(CreateEmptyRecord {
            definition_id: "stats.activities".to_string(),
        })
        .unwrap();
    assert_eq!(
        empty,
        Record::Event(EventRecord {
            definition_id: "stats.activities".to_string(),
            events: vec![],
        })
    );

    commands
        .append_event_at(
            AppendEvent {
                definition_id: "stats.activities".to_string(),
                event_id: "run_late".to_string(),
                occurred_at: "2026-08-15T19:00:00+08:00".to_string(),
                fields: vec![("kind".to_string(), text("run"))],
            },
            "2026-08-15T20:30:00+08:00".to_string(),
        )
        .unwrap();
    let appended = commands
        .append_event_at(
            AppendEvent {
                definition_id: "stats.activities".to_string(),
                event_id: "walk_early".to_string(),
                occurred_at: "2026-08-15T08:00:00+08:00".to_string(),
                fields: vec![("kind".to_string(), text("walk"))],
            },
            "2026-08-15T20:31:00+08:00".to_string(),
        )
        .unwrap();
    let Record::Event(appended) = appended else {
        panic!("stats.activities must be an event Record");
    };
    assert_eq!(
        appended
            .events
            .iter()
            .map(|event| event.id.as_str())
            .collect::<Vec<_>>(),
        vec!["walk_early", "run_late"]
    );

    let before_duplicate = commands.get("stats.activities").unwrap();
    let error = commands
        .append_event_at(
            AppendEvent {
                definition_id: "stats.activities".to_string(),
                event_id: "run_late".to_string(),
                occurred_at: "2026-08-15T21:00:00+08:00".to_string(),
                fields: vec![("kind".to_string(), text("run"))],
            },
            "2026-08-15T20:32:00+08:00".to_string(),
        )
        .unwrap_err();
    assert_eq!(error.code, RepositoryErrorCode::Conflict);
    assert_eq!(commands.get("stats.activities").unwrap(), before_duplicate);

    let corrected = commands
        .correct_event_at(
            CorrectEvent {
                definition_id: "stats.activities".to_string(),
                event_id: "run_late".to_string(),
                occurred_at: "2026-08-15T07:00:00+08:00".to_string(),
                fields: vec![
                    ("distance".to_string(), JsonValue::Float("5.2".to_string())),
                    ("kind".to_string(), text("run")),
                ],
            },
            "2026-08-15T20:33:00+08:00".to_string(),
        )
        .unwrap();
    let Record::Event(corrected) = corrected else {
        panic!("stats.activities must be an event Record");
    };
    assert_eq!(corrected.events[0].id, "run_late");
    assert_eq!(corrected.events[0].recorded_at, "2026-08-15T20:33:00+08:00");

    commands
        .delete_event(DeleteEvent {
            definition_id: "stats.activities".to_string(),
            event_id: "run_late".to_string(),
        })
        .unwrap();
    let empty = commands
        .delete_event(DeleteEvent {
            definition_id: "stats.activities".to_string(),
            event_id: "walk_early".to_string(),
        })
        .unwrap();
    assert_eq!(
        empty,
        Record::Event(EventRecord {
            definition_id: "stats.activities".to_string(),
            events: vec![],
        })
    );
    assert_eq!(commands.get("stats.activities").unwrap(), Some(empty));
}

#[test]
fn number_increment_uses_the_number_adder_and_rejects_unknown_fields() {
    let mut repository = repository();
    let mut commands = RecordCommands::new(&mut repository);
    commands
        .set_scalar_at(
            SetScalarRecord {
                definition_id: "stats.score".to_string(),
                value: JsonValue::Float("1.5".to_string()),
                effective_at: None,
            },
            "2026-08-15T20:30:00+08:00".to_string(),
        )
        .unwrap();
    let updated = commands
        .increment_scalar_at(
            IncrementScalarRecord {
                definition_id: "stats.score".to_string(),
                delta: JsonValue::integer(2),
                effective_at: None,
            },
            "2026-08-15T20:31:00+08:00".to_string(),
            add_numbers,
        )
        .unwrap();
    let Record::Scalar(updated) = updated else {
        panic!("stats.score must be scalar");
    };
    assert_eq!(updated.value, JsonValue::Float("3.5".to_string()));

    let error = commands
        .add_collection_item_at(
            AddCollectionItem {
                definition_id: "stats.projects".to_string(),
                item_id: "project_c".to_string(),
                fields: vec![
                    ("title".to_string(), text("C")),
                    ("colour".to_string(), text("red")),
                ],
            },
            "2026-08-15T20:32:00+08:00".to_string(),
        )
        .unwrap_err();
    assert_eq!(error.code, RepositoryErrorCode::ValidationFailed);
    let unresolved = commands
        .set_scalar_at(
            SetScalarRecord {
                definition_id: "identity.nickname".to_string(),
                value: text("Alice"),
                effective_at: None,
            },
            "2026-08-15T20:33:00+08:00".to_string(),
        )
        .unwrap_err();
    assert_eq!(unresolved.code, RepositoryErrorCode::Unresolved);
}
