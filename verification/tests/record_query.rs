use arcana::commands::record_commands::{
    AddCollectionItem, AppendEvent, CreateEmptyRecord, IncrementScalarRecord, RecordCommands,
    SetScalarRecord,
};
use arcana::commands::record_query::QueryRecords;
use arcana::json::JsonValue;
use arcana::pack::{Pack, PackManifest, RecordDefinitionFile, SCHEMA_VERSION};
use arcana::record::{
    RecordDefinition, RecordKind, ScalarRecordDefinition, StructuredRecordDefinition, ValueType,
};
use arcana::repository::Repository;

fn scalar(id: &str) -> RecordDefinition {
    RecordDefinition::Scalar(ScalarRecordDefinition {
        id: id.to_string(),
        name: id.to_string(),
        description: None,
        value_type: ValueType::Integer,
        unit: None,
    })
}

fn collection(id: &str) -> RecordDefinition {
    RecordDefinition::Collection(StructuredRecordDefinition {
        id: id.to_string(),
        name: id.to_string(),
        description: None,
        fields: vec![],
    })
}

fn pack(id: &str, definitions: Vec<RecordDefinition>) -> Pack {
    Pack {
        manifest: PackManifest {
            schema_version: SCHEMA_VERSION,
            id: id.to_string(),
            name: id.to_string(),
            description: None,
            author: None,
            parent_pack_id: None,
            tags: vec![],
        },
        record_definitions: Some(RecordDefinitionFile { definitions }),
        dimensions: None,
        achievements: None,
        skills: None,
        derived_values: None,
        assets: Vec::new(),
    }
}

fn repository() -> Repository {
    let mut repository = Repository::new();
    repository
        .put_pack(pack("stats", vec![scalar("stats.count"), collection("stats.projects"), scalar("stats.score")]))
        .unwrap();
    repository.put_pack(pack("sleep", vec![scalar("sleep.hours")])).unwrap();
    repository.put_pack(pack("idle", vec![scalar("idle.value")])).unwrap();
    repository.set_pack_enabled("stats", true).unwrap();
    repository.set_pack_enabled("sleep", true).unwrap();
    let mut commands = RecordCommands::new(&mut repository);
    commands
        .set_scalar_at(
            SetScalarRecord {
                definition_id: "stats.count".to_string(),
                value: JsonValue::integer(5),
                effective_at: None,
            },
            "2026-08-15T20:30:00+08:00".to_string(),
        )
        .unwrap();
    repository
}

fn no_filters() -> QueryRecords {
    QueryRecords { definition_id: None, namespace: None, pack_id: None, kind: None, has_value: None }
}

fn ids(entries: &[arcana::commands::record_query::RecordQueryEntry]) -> Vec<String> {
    entries.iter().map(|e| e.definition.id().clone()).collect()
}

#[test]
fn unfiltered_query_lists_enabled_definitions() {
    let mut repository = repository();
    let commands = RecordCommands::new(&mut repository);
    let entries = commands.query(no_filters()).unwrap();
    let mut listed = ids(&entries);
    listed.sort();
    assert_eq!(listed, vec!["sleep.hours", "stats.count", "stats.projects", "stats.score"]);
}

#[test]
fn query_with_every_filter_finds_the_stored_scalar() {
    let mut repository = repository();
    let commands = RecordCommands::new(&mut repository);
    let entries = commands
        .query(QueryRecords {
            definition_id: None,
            namespace: Some("stats".to_string()),
            pack_id: Some("stats".to_string()),
            kind: Some(RecordKind::Scalar),
            has_value: Some(true),
        })
        .unwrap();
    assert_eq!(entries.len(), 1);
    assert_eq!(entries[0].pack_id, "stats");
    assert_eq!(entries[0].definition.id(), "stats.count");
    assert!(entries[0].record.is_some());
}

#[test]
fn has_value_false_selects_definitions_without_records() {
    let mut repository = repository();
    let commands = RecordCommands::new(&mut repository);
    let entries = commands
        .query(QueryRecords { has_value: Some(false), namespace: Some("stats".to_string()), ..no_filters() })
        .unwrap();
    assert_eq!(ids(&entries), vec!["stats.projects", "stats.score"]);
    assert!(entries.iter().all(|e| e.record.is_none()));
}

#[test]
fn kind_and_exact_id_filters() {
    let mut repository = repository();
    let commands = RecordCommands::new(&mut repository);
    let collections = commands.query(QueryRecords { kind: Some(RecordKind::Collection), ..no_filters() }).unwrap();
    assert_eq!(ids(&collections), vec!["stats.projects"]);
    let exact = commands.query(QueryRecords { definition_id: Some("sleep.hours".to_string()), ..no_filters() }).unwrap();
    assert_eq!(exact[0].pack_id, "sleep");
    assert_eq!(exact.len(), 1);
}

#[test]
fn disabled_packs_are_not_queried() {
    let mut repository = repository();
    let commands = RecordCommands::new(&mut repository);
    let entries = commands.query(QueryRecords { pack_id: Some("idle".to_string()), ..no_filters() }).unwrap();
    assert!(entries.is_empty());
}

fn adder(a: &JsonValue, b: &JsonValue) -> Option<JsonValue> {
    fn number(value: &JsonValue) -> Option<f64> {
        match value {
            JsonValue::NegInt(i) => Some(*i as f64),
            JsonValue::PosInt(u) => Some(*u as f64),
            JsonValue::Float(text) => text.parse().ok(),
            _ => None,
        }
    }
    Some(JsonValue::Float(format!("{}", number(a)? + number(b)?)))
}

fn event(id: &str, fields: Vec<(String, arcana::record::FieldDefinition)>) -> RecordDefinition {
    RecordDefinition::Event(StructuredRecordDefinition {
        id: id.to_string(),
        name: id.to_string(),
        description: None,
        fields,
    })
}

fn required_text() -> arcana::record::FieldDefinition {
    arcana::record::FieldDefinition { value_type: ValueType::String, required: true, unit: None }
}

#[test]
fn record_commands_cover_scalar_collection_event_query_and_delete() {
    let mut stats = pack(
        "stats",
        vec![
            event("stats.activities", vec![("kind".to_string(), required_text())]),
            scalar("stats.count"),
            RecordDefinition::Collection(StructuredRecordDefinition {
                id: "stats.projects".to_string(),
                name: "Projects".to_string(),
                description: None,
                fields: vec![("title".to_string(), required_text())],
            }),
        ],
    );
    stats.manifest.name = "Stats".to_string();
    let mut repository = Repository::new();
    repository.put_pack(stats).unwrap();
    repository.set_pack_enabled("stats", true).unwrap();
    let mut commands = RecordCommands::new(&mut repository);

    commands
        .set_scalar(SetScalarRecord {
            definition_id: "stats.count".to_string(),
            value: JsonValue::integer(2),
            effective_at: None,
        })
        .unwrap();
    let incremented = commands
        .increment_scalar(
            IncrementScalarRecord {
                definition_id: "stats.count".to_string(),
                delta: JsonValue::integer(3),
                effective_at: None,
            },
            adder,
        )
        .unwrap();
    match incremented {
        arcana::record::Record::Scalar(record) => assert_eq!(record.value, JsonValue::integer(5)),
        other => panic!("expected a scalar record, got {other:?}"),
    }

    let queried = commands
        .query(QueryRecords {
            definition_id: None,
            namespace: Some("stats".to_string()),
            pack_id: Some("stats".to_string()),
            kind: Some(RecordKind::Scalar),
            has_value: Some(true),
        })
        .unwrap();
    assert_eq!(queried.len(), 1);

    commands
        .create_empty_collection(CreateEmptyRecord { definition_id: "stats.projects".to_string() })
        .unwrap();
    commands
        .add_collection_item(AddCollectionItem {
            definition_id: "stats.projects".to_string(),
            item_id: "arcana".to_string(),
            fields: vec![("title".to_string(), JsonValue::text("Arcana"))],
        })
        .unwrap();
    commands
        .create_empty_event(CreateEmptyRecord { definition_id: "stats.activities".to_string() })
        .unwrap();
    commands
        .append_event(AppendEvent {
            definition_id: "stats.activities".to_string(),
            event_id: "walk".to_string(),
            occurred_at: "2026-08-15T08:00:00+08:00".to_string(),
            fields: vec![("kind".to_string(), JsonValue::text("walk"))],
        })
        .unwrap();

    commands.delete("stats.count").unwrap();
    assert_eq!(commands.get("stats.count").unwrap(), None);
}
