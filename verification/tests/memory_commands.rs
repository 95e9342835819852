use arcana::commands::memory_commands::{
    CreateAssistantMemory, MemoryCommands, QueryAssistantMemory, UpdateAssistantMemory,
};
use arcana::error::RepositoryErrorCode;
use arcana::repository::Repository;
use arcana::state::AssistantMemoryKind;

#[test]
fn create_query_update_and_delete_preserve_memory_identity() {
    let mut repository = Repository::new();
    let mut commands = MemoryCommands::new(&mut repository);
    let created = commands
        .create_at(
            CreateAssistantMemory {
                kind: AssistantMemoryKind::Preference,
                content: "Prefer short missions".to_string(),
            },
            "019b2234-89ab-7def-8123-456789abcdef".to_string(),
            "2026-08-16T10:00:00Z".to_string(),
        )
        .unwrap();
    assert_eq!(created.memory.created_at, created.memory.updated_at);
    assert_eq!(
        commands
            .list(QueryAssistantMemory {
                memory_id: None,
                kind: Some(AssistantMemoryKind::Preference),
            })
            .unwrap()
            .len(),
        1
    );

    let updated = commands
        .update_at(
            UpdateAssistantMemory {
                memory_id: created.memory.id.clone(),
                kind: AssistantMemoryKind::Constraint,
                content: "Missions must fit within one week".to_string(),
            },
            "2026-08-17T10:00:00Z".to_string(),
        )
        .unwrap();
    assert!(updated.changed);
    assert_eq!(updated.memory.created_at, "2026-08-16T10:00:00Z");
    assert_eq!(updated.memory.updated_at, "2026-08-17T10:00:00Z");
    assert!(
        !commands
            .update(UpdateAssistantMemory {
                memory_id: updated.memory.id.clone(),
                kind: updated.memory.kind,
                content: updated.memory.content.clone(),
            })
            .unwrap()
            .changed
    );

    commands.delete(&updated.memory.id).unwrap();
    assert!(commands.list(QueryAssistantMemory::default()).unwrap().is_empty());
    assert_eq!(
        commands.delete(&updated.memory.id).unwrap_err().code,
        RepositoryErrorCode::NotFound
    );
}

#[test]
fn update_rejects_a_timestamp_before_creation() {
    let mut repository = Repository::new();
    let mut commands = MemoryCommands::new(&mut repository);
    let created = commands
        .create_at(
            CreateAssistantMemory {
                kind: AssistantMemoryKind::Reminder,
                content: "Ask about cooking history later".to_string(),
            },
            "019b2234-89ab-7def-8123-456789abcdef".to_string(),
            "2026-08-17T10:00:00Z".to_string(),
        )
        .unwrap();
    assert_eq!(
        commands
            .update_at(
                UpdateAssistantMemory {
                    memory_id: created.memory.id,
                    kind: AssistantMemoryKind::Reminder,
                    content: "Ask about cooking history next time".to_string(),
                },
                "2026-08-16T10:00:00Z".to_string(),
            )
            .unwrap_err()
            .code,
        RepositoryErrorCode::ValidationFailed
    );
}

#[test]
fn duplicate_memory_identifier_is_a_conflict() {
    let mut repository = Repository::new();
    let mut commands = MemoryCommands::new(&mut repository);
    let command = CreateAssistantMemory {
        kind: AssistantMemoryKind::Habit,
        content: "Walks every morning".to_string(),
    };
    commands
        .create_at(command.clone(), "m1".to_string(), "2026-08-16T10:00:00Z".to_string())
        .unwrap();
    assert_eq!(
        commands
            .create_at(command, "m1".to_string(), "2026-08-16T11:00:00Z".to_string())
            .unwrap_err()
            .code,
        RepositoryErrorCode::Conflict
    );
    let by_id = commands
        .list(QueryAssistantMemory { memory_id: Some("m1".to_string()), kind: None })
        .unwrap();
    assert_eq!(by_id.len(), 1);
    assert_eq!(by_id[0].content, "Walks every morning");
    let created = commands
        .create(CreateAssistantMemory { kind: AssistantMemoryKind::Focus, content: "Rust".to_string() })
        .unwrap();
    assert!(created.changed);
    assert_eq!(created.memory.created_at, created.memory.updated_at);
}
