use arcana::commands::pack_commands::{validate_pack, PackCommands, PackContent};
use arcana::error::RepositoryErrorCode;
use arcana::json::JsonValue;
use arcana::pack::{
    AchievementDefinition, AchievementDifficulty, AchievementFile, PackManifest,
    RecordDefinitionFile, SkillDefinition, SkillFile, SkillNode, SCHEMA_VERSION,
};
use arcana::record::{RecordDefinition, ScalarRecordDefinition, ValueType};
use arcana::repository::Repository;
use arcana::standard_packs::{basic_pack, BASIC_PACK_ID};

fn repository() -> Repository {
    let mut repository = Repository::new();
    repository.put_pack(basic_pack()).unwrap();
    repository.set_pack_enabled("basic", true).unwrap();
    repository
}

fn content(id: &str) -> PackContent {
    PackContent {
        manifest: PackManifest {
            schema_version: SCHEMA_VERSION,
            id: id.to_string(),
            name: "Test Pack".to_string(),
            description: None,
            author: None,
            parent_pack_id: None,
            tags: Vec::new(),
        },
        record_definitions: Some(RecordDefinitionFile {
            definitions: vec![RecordDefinition::Scalar(ScalarRecordDefinition {
                id: "stats.count".to_string(),
                name: "Count".to_string(),
                description: None,
                value_type: ValueType::Integer,
                unit: None,
            })],
        }),
        dimensions: None,
        achievements: None,
        skills: None,
        derived_values: None,
    }
}

#[test]
fn validates_without_writing_then_writes_disabled_pack() {
    let mut repository = repository();
    let mut commands = PackCommands::new(&mut repository);
    let validation = commands.validate(content("stats")).unwrap();
    assert!(validation.valid);
    assert!(!validation.enabled);
    assert!(commands.show("stats").is_err());

    let details = commands.write(content("stats")).unwrap();
    assert!(!details.enabled);
    assert_eq!(commands.list().unwrap().len(), 2);
    assert!(!commands.show("stats").unwrap().enabled);
}

#[test]
fn content_write_preserves_assets_and_enable_is_idempotent() {
    let mut repository = repository();
    let mut commands = PackCommands::new(&mut repository);
    commands.write(content("stats")).unwrap();
    commands
        .put_asset("stats", "assets/note.txt".to_string(), b"hello".to_vec())
        .unwrap();

    let mut renamed = content("stats");
    renamed.manifest.name = "Renamed".to_string();
    let details = commands.write(renamed).unwrap();
    assert_eq!(details.assets[0].path, "assets/note.txt");
    assert!(commands.set_enabled("stats", true).unwrap().changed);
    assert!(!commands.set_enabled("stats", true).unwrap().changed);
}

#[test]
fn deleting_referenced_asset_is_rejected() {
    let mut repository = repository();
    let mut commands = PackCommands::new(&mut repository);
    let mut content = content("stats");
    content.achievements = Some(AchievementFile {
        achievements: vec![AchievementDefinition {
            id: "stats::first_count".to_string(),
            name: "First count".to_string(),
            description: "Record the first count".to_string(),
            difficulty: AchievementDifficulty::Beginner,
            tags: Vec::new(),
            prerequisites: Vec::new(),
            related_record_definition_ids: vec!["stats.count".to_string()],
            tip: None,
        }],
    });
    content.skills = Some(SkillFile {
        skills: vec![SkillDefinition {
            id: "stats::general".to_string(),
            name: "Stats".to_string(),
            description: None,
            level_thresholds: [1, 2, 3, 4],
            nodes: vec![SkillNode {
                achievement_id: "stats::first_count".to_string(),
                points: 4,
            }],
            card_image: None,
        }],
    });
    commands.write(content.clone()).unwrap();
    commands
        .put_asset(
            "stats",
            "assets/card.png".to_string(),
            b"\x89PNG\r\n\x1a\n".to_vec(),
        )
        .unwrap();
    content.skills.as_mut().unwrap().skills[0].card_image = Some("assets/card.png".to_string());
    commands.write(content).unwrap();

    let error = commands
        .delete_asset("stats", "assets/card.png")
        .unwrap_err();
    assert_eq!(error.code, RepositoryErrorCode::ValidationFailed);
    assert_eq!(commands.show("stats").unwrap().assets.len(), 1);
}

#[test]
fn scaffold_uses_current_pack_schema() {
    let scaffold = PackContent::scaffold("cooking".to_string(), "Cooking".to_string()).unwrap();
    assert_eq!(scaffold.manifest.schema_version, SCHEMA_VERSION);
    assert_eq!(scaffold.manifest.id, "cooking");
}

#[test]
fn scaffold_does_not_require_initialized_runtime() {
    let output = PackContent::scaffold("cooking".to_string(), "Cooking".to_string()).unwrap();
    assert_eq!(output.manifest.schema_version, 1);
    assert_eq!(output.manifest.id, "cooking");
}

#[test]
fn validate_checks_pack_forest_against_current_repository() {
    let mut repository = repository();
    let mut commands = PackCommands::new(&mut repository);
    let mut first = content("first");
    first.manifest.parent_pack_id = Some("second".to_string());
    let written = commands.write(first).unwrap();
    assert_eq!(written.missing_parent_pack_id.as_deref(), Some("second"));

    let mut second = content("second");
    second.manifest.parent_pack_id = Some("first".to_string());
    let error = commands.validate(second).unwrap_err();
    assert_eq!(error.code, RepositoryErrorCode::ValidationFailed);
    assert!(error
        .validation_issues
        .iter()
        .any(|issue| issue.code == "pack_parent_cycle"));
}

#[test]
fn enabling_incompatible_definition_rolls_back() {
    let mut repository = repository();
    let mut commands = PackCommands::new(&mut repository);
    let mut conflicting = content("conflicting");
    conflicting.record_definitions = Some(RecordDefinitionFile {
        definitions: vec![RecordDefinition::Scalar(ScalarRecordDefinition {
            id: "identity.nickname".to_string(),
            name: "Numeric nickname".to_string(),
            description: None,
            value_type: ValueType::Integer,
            unit: None,
        })],
    });
    commands.write(conflicting).unwrap();

    let error = commands.set_enabled("conflicting", true).unwrap_err();
    assert_eq!(error.code, RepositoryErrorCode::ValidationFailed);
    assert!(!commands.show("conflicting").unwrap().enabled);
}

#[test]
fn basic_pack_is_a_valid_ordinary_pack() {
    let pack = basic_pack();
    assert!(validate_pack(&pack).is_ok());
    assert_eq!(pack.manifest.id, BASIC_PACK_ID);
    let ids: Vec<_> = pack
        .record_definitions
        .unwrap()
        .definitions
        .into_iter()
        .map(|definition| definition.id().to_string())
        .collect();
    assert_eq!(ids, ["identity.birth_date", "identity.nickname"]);
}

#[test]
fn scaffold_rejects_an_identifier_that_is_not_snake_case() {
    let error = PackContent::scaffold("Cooking".to_string(), "Cooking".to_string()).unwrap_err();
    assert_eq!(error.code, RepositoryErrorCode::ValidationFailed);
}

#[test]
fn packs_are_listed_in_identifier_order_and_disable_is_idempotent() {
    let mut repository = repository();
    let mut commands = PackCommands::new(&mut repository);
    commands.write(content("zeta")).unwrap();
    commands.write(content("alpha")).unwrap();
    let ids: Vec<String> = commands.list().unwrap().into_iter().map(|s| s.id).collect();
    assert_eq!(ids, ["alpha", "basic", "zeta"]);
    assert!(commands.set_enabled("basic", false).unwrap().changed);
    assert!(!commands.set_enabled("basic", false).unwrap().changed);
    assert_eq!(
        commands.set_enabled("missing", true).unwrap_err().code,
        RepositoryErrorCode::NotFound
    );
}

#[test]
fn deleting_a_missing_asset_is_not_found() {
    let mut repository = repository();
    let mut commands = PackCommands::new(&mut repository);
    let error = commands.delete_asset("basic", "assets/none.png").unwrap_err();
    assert_eq!(error.code, RepositoryErrorCode::NotFound);
    let error = commands
        .put_asset("missing", "assets/a.png".to_string(), vec![1])
        .unwrap_err();
    assert_eq!(error.code, RepositoryErrorCode::NotFound);
}

#[test]
fn derived_value_definitions_are_kept_as_written() {
    let mut written = content("stats");
    written.derived_values = Some(JsonValue::Composite("{\"derived_values\":[]}".to_string()));
    let pack = written.to_pack(Vec::new());
    assert_eq!(pack.derived_values, written.derived_values);
    assert_eq!(PackContent::from_pack(&pack).derived_values, written.derived_values);
    let mut repository = repository();
    let mut commands = PackCommands::new(&mut repository);
    commands.write(written.clone()).unwrap();
    drop(commands);
    let stored = repository.packs.iter().find(|p| p.manifest.id == "stats").unwrap();
    assert_eq!(stored.derived_values, written.derived_values);
}
