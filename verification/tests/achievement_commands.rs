use arcana::commands::achievement_commands::{
    AchievementAvailability, AchievementCommands, QueryAchievements, SetAchievementState,
};
use arcana::error::RepositoryErrorCode;
use arcana::pack::{
    AchievementDefinition, AchievementDifficulty, AchievementFile, Pack, PackManifest,
    RecordDefinitionFile, SCHEMA_VERSION,
};
use arcana::record::{RecordDefinition, ScalarRecordDefinition, ValueType};
use arcana::repository::Repository;
use arcana::standard_packs::basic_pack;
use arcana::state::AchievementStatus;

fn achievement_pack() -> Pack {
    Pack {
        manifest: PackManifest {
            schema_version: SCHEMA_VERSION,
            id: "cooking".to_string(),
            name: "Cooking".to_string(),
            description: None,
            author: None,
            parent_pack_id: None,
            tags: Vec::new(),
        },
        record_definitions: Some(RecordDefinitionFile {
            definitions: vec![RecordDefinition::Scalar(ScalarRecordDefinition {
                id: "cooking.dish_count".to_string(),
                name: "Dish count".to_string(),
                description: None,
                value_type: ValueType::Integer,
                unit: None,
            })],
        }),
        dimensions: None,
        achievements: Some(AchievementFile {
            achievements: vec![
                AchievementDefinition {
                    id: "cooking::first_dish".to_string(),
                    name: "First dish".to_string(),
                    description: "Cook one dish".to_string(),
                    difficulty: AchievementDifficulty::Beginner,
                    tags: Vec::new(),
                    prerequisites: Vec::new(),
                    related_record_definition_ids: vec!["cooking.dish_count".to_string()],
                    tip: None,
                },
                AchievementDefinition {
                    id: "cooking::host_dinner".to_string(),
                    name: "Host dinner".to_string(),
                    description: "Host a dinner".to_string(),
                    difficulty: AchievementDifficulty::Intermediate,
                    tags: Vec::new(),
                    prerequisites: vec!["cooking::first_dish".to_string()],
                    related_record_definition_ids: Vec::new(),
                    tip: None,
                },
            ],
        }),
        skills: None,
        derived_values: None,
        assets: Vec::new(),
    }
}

fn repository() -> Repository {
    let mut repository = Repository::new();
    repository.put_pack(basic_pack()).unwrap();
    repository.set_pack_enabled("basic", true).unwrap();
    repository.put_pack(achievement_pack()).unwrap();
    repository.set_pack_enabled("cooking", true).unwrap();
    repository
}

#[test]
fn list_derives_availability_and_supports_related_record_filter() {
    let mut repository = repository();
    let mut commands = AchievementCommands::new(&mut repository);
    let entries = commands.list(QueryAchievements::default()).unwrap();
    assert_eq!(entries[0].availability, AchievementAvailability::Available);
    assert_eq!(entries[1].availability, AchievementAvailability::Locked);
    assert_eq!(entries[1].unmet_prerequisite_ids, ["cooking::first_dish"]);

    let related = commands
        .list(QueryAchievements {
            related_record_definition_id: Some("cooking.dish_count".to_string()),
            ..QueryAchievements::default()
        })
        .unwrap();
    assert_eq!(related.len(), 1);
    assert_eq!(related[0].achievement_id, "cooking::first_dish");
}

#[test]
fn tracked_does_not_unlock_prerequisite_but_achieved_does() {
    let mut repository = repository();
    let mut commands = AchievementCommands::new(&mut repository);
    commands
        .set_state(SetAchievementState {
            achievement_id: "cooking::first_dish".to_string(),
            status: AchievementStatus::Tracking,
            achieved_at: None,
        })
        .unwrap();
    let entries = commands.list(QueryAchievements::default()).unwrap();
    assert_eq!(entries[0].availability, AchievementAvailability::Tracking);
    assert_eq!(entries[1].availability, AchievementAvailability::Locked);

    commands
        .set_state(SetAchievementState {
            achievement_id: "cooking::first_dish".to_string(),
            status: AchievementStatus::Achieved,
            achieved_at: Some("2026-08".to_string()),
        })
        .unwrap();
    let entries = commands.list(QueryAchievements::default()).unwrap();
    assert_eq!(entries[0].availability, AchievementAvailability::Achieved);
    assert_eq!(entries[1].availability, AchievementAvailability::Available);
}

#[test]
fn direct_achievement_ignores_prerequisite_and_revoke_survives_disable() {
    let mut repository = repository();
    let mut commands = AchievementCommands::new(&mut repository);
    let result = commands
        .set_state(SetAchievementState {
            achievement_id: "cooking::host_dinner".to_string(),
            status: AchievementStatus::Achieved,
            achieved_at: None,
        })
        .unwrap();
    assert!(result.changed);
    assert!(
        !commands
            .set_state(SetAchievementState {
                achievement_id: "cooking::host_dinner".to_string(),
                status: AchievementStatus::Achieved,
                achieved_at: None,
            })
            .unwrap()
            .changed
    );

    repository.set_pack_enabled("cooking", false).unwrap();
    let error = AchievementCommands::new(&mut repository)
        .set_state(SetAchievementState {
            achievement_id: "cooking::host_dinner".to_string(),
            status: AchievementStatus::Achieved,
            achieved_at: None,
        })
        .unwrap_err();
    assert_eq!(error.code, RepositoryErrorCode::Unresolved);
    let entries = AchievementCommands::new(&mut repository)
        .list(QueryAchievements::default())
        .unwrap();
    assert_eq!(entries.len(), 1);
    assert_eq!(entries[0].availability, AchievementAvailability::Unresolved);

    let mut commands = AchievementCommands::new(&mut repository);
    assert!(
        commands
            .revoke_state("cooking::host_dinner")
            .unwrap()
            .changed
    );
    assert!(
        !commands
            .revoke_state("cooking::host_dinner")
            .unwrap()
            .changed
    );
}

#[test]
fn malformed_identifiers_and_tracked_times_are_rejected() {
    let mut repository = repository();
    let mut commands = AchievementCommands::new(&mut repository);
    assert_eq!(
        commands.revoke_state("first_dish").unwrap_err().code,
        RepositoryErrorCode::ValidationFailed
    );
    assert_eq!(
        commands
            .set_state(SetAchievementState {
                achievement_id: "cooking::first_dish".to_string(),
                status: AchievementStatus::Tracking,
                achieved_at: Some("2026-08".to_string()),
            })
            .unwrap_err()
            .code,
        RepositoryErrorCode::ValidationFailed
    );
    let entries = commands
        .list(QueryAchievements { pack_id: Some("basic".to_string()), ..QueryAchievements::default() })
        .unwrap();
    assert!(entries.is_empty());
}
