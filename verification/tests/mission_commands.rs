use arcana::commands::mission_commands::{
    CreateMission, MissionCommands, QueryMissionSuggestions, QueryMissions, SuggestMission,
    UpdateMission,
};
use arcana::error::RepositoryErrorCode;
use arcana::repository::Repository;
use arcana::state::{MissionDifficulty, MissionStatus, MissionSuggestionStatus};

fn create_command(parent_id: Option<String>) -> CreateMission {
    CreateMission {
        title: "Read Rust Book".to_string(),
        description: Some("Finish the ownership chapter".to_string()),
        progress: Some(25),
        difficulty: Some(MissionDifficulty::B),
        deadline: Some("2026-12-31".to_string()),
        parent_id,
    }
}

#[test]
fn mission_lifecycle_preserves_identity_and_completion_metadata() {
    let mut repository = Repository::new();
    let mut commands = MissionCommands::new(&mut repository);
    let created = commands
        .create_at(
            create_command(None),
            "019b1234-89ab-7def-8123-456789abcdef".to_string(),
            "2026-08-16T10:00:00Z".to_string(),
        )
        .unwrap();
    assert_eq!(created.mission.status, MissionStatus::Active);

    let updated = commands
        .update(UpdateMission {
            mission_id: created.mission.id.clone(),
            title: "Read all of Rust Book".to_string(),
            description: None,
            progress: Some(60),
            difficulty: Some(MissionDifficulty::A),
            deadline: None,
            parent_id: None,
        })
        .unwrap();
    assert!(updated.changed);
    assert_eq!(updated.mission.created_at, "2026-08-16T10:00:00Z");
    assert!(updated.mission.description.is_none());

    let completed = commands
        .complete_at(&created.mission.id, "2026-08-20T12:00:00Z".to_string())
        .unwrap();
    assert_eq!(completed.mission.status, MissionStatus::Completed);
    assert_eq!(completed.mission.progress, Some(100));
    assert!(!commands.complete(&created.mission.id).unwrap().changed);

    let archived = commands.archive(&created.mission.id).unwrap();
    assert_eq!(archived.mission.status, MissionStatus::Archived);
    assert_eq!(
        archived.mission.completed_at.as_deref(),
        Some("2026-08-20T12:00:00Z")
    );
    assert!(!commands.archive(&created.mission.id).unwrap().changed);
}

#[test]
fn parent_prevents_delete_until_child_is_removed() {
    let mut repository = Repository::new();
    let mut commands = MissionCommands::new(&mut repository);
    let parent = commands
        .create_at(
            create_command(None),
            "019b1234-89ab-7def-8123-456789abcdef".to_string(),
            "2026-08-16T10:00:00Z".to_string(),
        )
        .unwrap();
    let child = commands
        .create_at(
            create_command(Some(parent.mission.id.clone())),
            "019b1234-89ab-7def-8123-456789abcdf0".to_string(),
            "2026-08-16T10:01:00Z".to_string(),
        )
        .unwrap();
    assert_eq!(
        commands.delete(&parent.mission.id).unwrap_err().code,
        RepositoryErrorCode::Conflict
    );
    commands.delete(&child.mission.id).unwrap();
    commands.delete(&parent.mission.id).unwrap();
    assert!(commands.list(QueryMissions::default()).unwrap().is_empty());
}

#[test]
fn suggestion_reject_accept_and_delete_are_local_lifecycle_operations() {
    let mut repository = Repository::new();
    let mut commands = MissionCommands::new(&mut repository);
    let suggestion = commands
        .suggest_at(
            SuggestMission {
                title: "Try Rustlings".to_string(),
                description: None,
                difficulty: Some(MissionDifficulty::C),
                deadline: None,
                parent_mission_id: None,
                reason: Some("Practice ownership".to_string()),
            },
            "019b1234-89ab-7def-8123-456789abcdef".to_string(),
            "2026-08-16T10:00:00Z".to_string(),
        )
        .unwrap();
    assert_eq!(suggestion.suggestion.status, MissionSuggestionStatus::Pending);
    assert!(commands.reject(&suggestion.suggestion.id).unwrap().changed);
    assert!(!commands.reject(&suggestion.suggestion.id).unwrap().changed);

    let accepted = commands.accept(&suggestion.suggestion.id).unwrap();
    assert_eq!(accepted.mission.id, suggestion.suggestion.id);
    assert_eq!(accepted.mission.status, MissionStatus::Active);
    assert!(commands
        .list_suggestions(QueryMissionSuggestions::default())
        .unwrap()
        .is_empty());

    let disposable = commands
        .suggest_at(
            SuggestMission {
                title: "Disposable".to_string(),
                description: None,
                difficulty: None,
                deadline: None,
                parent_mission_id: None,
                reason: None,
            },
            "019b1234-89ab-7def-8123-456789abcdf0".to_string(),
            "2026-08-16T10:01:00Z".to_string(),
        )
        .unwrap();
    commands.delete_suggestion(&disposable.suggestion.id).unwrap();
    assert!(commands
        .list_suggestions(QueryMissionSuggestions::default())
        .unwrap()
        .is_empty());
}

#[test]
fn mission_queries_filter_by_status_and_parent_and_errors_are_typed() {
    let mut repository = Repository::new();
    let mut commands = MissionCommands::new(&mut repository);
    let parent = commands
        .create_at(create_command(None), "m1".to_string(), "2026-08-16T10:00:00Z".to_string())
        .unwrap();
    commands
        .create_at(create_command(Some("m1".to_string())), "m2".to_string(), "2026-08-16T10:01:00Z".to_string())
        .unwrap();
    assert_eq!(
        commands
            .create_at(create_command(None), "m1".to_string(), "2026-08-16T10:02:00Z".to_string())
            .unwrap_err()
            .code,
        RepositoryErrorCode::Conflict
    );
    commands.archive(&parent.mission.id).unwrap();
    assert_eq!(
        commands.complete_at("m1", "2026-08-17T00:00:00Z".to_string()).unwrap_err().code,
        RepositoryErrorCode::Conflict
    );
    let children = commands
        .list(QueryMissions { mission_id: None, status: None, parent_id: Some("m1".to_string()) })
        .unwrap();
    assert_eq!(children.len(), 1);
    assert_eq!(children[0].id, "m2");
    let archived = commands
        .list(QueryMissions { mission_id: None, status: Some(MissionStatus::Archived), parent_id: None })
        .unwrap();
    assert_eq!(archived.len(), 1);
    assert_eq!(commands.archive("missing").unwrap_err().code, RepositoryErrorCode::NotFound);
    assert_eq!(commands.reject("missing").unwrap_err().code, RepositoryErrorCode::NotFound);
    let unchanged = commands
        .update(UpdateMission {
            mission_id: "m2".to_string(),
            title: "Read Rust Book".to_string(),
            description: Some("Finish the ownership chapter".to_string()),
            progress: Some(25),
            difficulty: Some(MissionDifficulty::B),
            deadline: Some("2026-12-31".to_string()),
            parent_id: Some("m1".to_string()),
        })
        .unwrap();
    assert!(!unchanged.changed);
}

#[test]
fn completing_without_tracked_progress_keeps_progress_empty() {
    let mut repository = Repository::new();
    let mut commands = MissionCommands::new(&mut repository);
    let mut command = create_command(None);
    command.progress = None;
    commands.create_at(command, "m1".to_string(), "2026-08-16T10:00:00Z".to_string()).unwrap();
    let completed = commands.complete_at("m1", "2026-08-18T10:00:00Z".to_string()).unwrap();
    assert_eq!(completed.mission.progress, None);
    assert_eq!(completed.mission.completed_at.as_deref(), Some("2026-08-18T10:00:00Z"));
}
