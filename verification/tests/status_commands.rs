use arcana::commands::status_commands::StatusCommands;
use arcana::error::RepositoryErrorCode;
use arcana::pack::{DimensionDefinition, DimensionFile, Pack, PackManifest, RecordDefinitionFile, SCHEMA_VERSION};
use arcana::record::{RecordDefinition, ScalarRecordDefinition, ValueType};
use arcana::repository::Repository;
use arcana::standard_packs::basic_pack;

fn status_pack() -> Pack {
    Pack {
        manifest: PackManifest {
            schema_version: SCHEMA_VERSION,
            id: "fitness".to_string(),
            name: "Fitness".to_string(),
            description: None,
            author: None,
            parent_pack_id: None,
            tags: Vec::new(),
        },
        record_definitions: Some(RecordDefinitionFile {
            definitions: vec![
                RecordDefinition::Scalar(ScalarRecordDefinition {
                    id: "fitness.endurance".to_string(),
                    name: "Endurance".to_string(),
                    description: None,
                    value_type: ValueType::Number,
                    unit: None,
                }),
                RecordDefinition::Scalar(ScalarRecordDefinition {
                    id: "fitness.strength".to_string(),
                    name: "Strength".to_string(),
                    description: None,
                    value_type: ValueType::Integer,
                    unit: None,
                }),
            ],
        }),
        dimensions: Some(DimensionFile {
            dimensions: vec![DimensionDefinition {
                id: "fitness::physical".to_string(),
                name: "Physical".to_string(),
                level_titles: vec![
                    "Awake".to_string(),
                    "Growing".to_string(),
                    "Skilled".to_string(),
                    "Excellent".to_string(),
                    "Peak".to_string(),
                ],
                scoring: vec![],
            }],
        }),
        achievements: None,
        skills: None,
        derived_values: None,
        assets: Vec::new(),
    }
}

fn repository() -> Repository {
    let mut repository = Repository::new();
    repository.put_pack(basic_pack()).unwrap();
    repository.set_pack_enabled("basic", true).unwrap();
    repository.put_pack(status_pack()).unwrap();
    repository.set_pack_enabled("fitness", true).unwrap();
    repository
}

#[test]
fn selections_are_local_idempotent_and_expose_disabled_dimensions() {
    let mut repository = repository();
    let mut commands = StatusCommands::new(&mut repository);
    assert!(
        commands
            .select(2, "fitness::physical".to_string())
            .unwrap()
            .changed
    );
    assert!(
        !commands
            .select(2, "fitness::physical".to_string())
            .unwrap()
            .changed
    );
    assert_eq!(commands.list_dimensions().unwrap().dimensions.len(), 1);

    repository.set_pack_enabled("fitness", false).unwrap();
    let list = StatusCommands::new(&mut repository)
        .list_dimensions()
        .unwrap();
    assert!(list.dimensions.is_empty());
    assert_eq!(list.selections.len(), 1);
    assert!(!list.selections[0].available);

    let error = StatusCommands::new(&mut repository)
        .resolve_dimensions(Some("fitness::physical"))
        .unwrap_err();
    assert_eq!(error.code, RepositoryErrorCode::Unresolved);
}

#[test]
fn clear_selection_is_idempotent_and_validates_position() {
    let mut repository = repository();
    let mut commands = StatusCommands::new(&mut repository);
    assert!(!commands.clear_selection(0).unwrap().changed);
    commands.select(0, "fitness::physical".to_string()).unwrap();
    assert!(commands.clear_selection(0).unwrap().changed);
    assert!(!commands.clear_selection(0).unwrap().changed);
    assert_eq!(
        commands.clear_selection(5).unwrap_err().code,
        RepositoryErrorCode::ValidationFailed
    );
}

#[test]
fn listing_reports_selected_positions_and_lookup_distinguishes_missing() {
    let mut repository = repository();
    let mut commands = StatusCommands::new(&mut repository);
    commands.select(4, "fitness::physical".to_string()).unwrap();
    let list = commands.list_dimensions().unwrap();
    assert_eq!(list.dimensions[0].pack_id, "fitness");
    assert_eq!(list.dimensions[0].selected_position, Some(4));
    assert!(list.selections[0].available);
    assert_eq!(
        commands.select(5, "fitness::physical".to_string()).unwrap_err().code,
        RepositoryErrorCode::ValidationFailed
    );
    assert_eq!(
        commands.resolve_dimensions(Some("fitness::mental")).unwrap_err().code,
        RepositoryErrorCode::NotFound
    );
    assert_eq!(commands.resolve_dimensions(None).unwrap().len(), 1);
}
