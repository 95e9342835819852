use arcana::commands::context_commands::ContextCommands;
use arcana::commands::memory_commands::CreateAssistantMemory;
use arcana::commands::mission_commands::{CreateMission, MissionCommands};
use arcana::date::{iso_date_text, CalendarDate};
use arcana::pack::{
    AchievementDefinition, AchievementDifficulty, AchievementFile, Pack, PackManifest, SCHEMA_VERSION,
};
use arcana::repository::Repository;
use arcana::standard_packs::basic_pack;
use arcana::state::{AchievementState, AchievementStatus, AssistantMemoryKind, StatusDimensionSelection};

fn date(year: i32, month: u32, day: u32) -> CalendarDate {
    CalendarDate { year, month, day }
}

fn cooking_pack() -> Pack {
    Pack {
        manifest: PackManifest {
            schema_version: SCHEMA_VERSION,
            id: "cooking".to_string(),
            name: "Cooking".to_string(),
            description: None,
            author: None,
            parent_pack_id: None,
            tags: Vec::new(),
        },
        record_definitions: None,
        dimensions: None,
        achievements: Some(AchievementFile {
            achievements: vec![AchievementDefinition {
                id: "cooking::first_dish".to_string(),
                name: "First dish".to_string(),
                description: "Cook one dish".to_string(),
                difficulty: AchievementDifficulty::Beginner,
                tags: Vec::new(),
                prerequisites: Vec::new(),
                related_record_definition_ids: Vec::new(),
                tip: None,
            }],
        }),
        skills: None,
        derived_values: None,
        assets: Vec::new(),
    }
}

fn mission(repository: &mut Repository, id: &str, title: &str, deadline: Option<&str>) {
    MissionCommands::new(repository)
        .create_at(
            CreateMission {
                title: title.to_string(),
                description: None,
                progress: None,
                difficulty: None,
                deadline: deadline.map(|d| d.to_string()),
                parent_id: None,
            },
            id.to_string(),
            "2026-08-16T10:00:00Z".to_string(),
        )
        .unwrap();
}

#[test]
fn empty_runtime_has_an_empty_context_on_the_requested_date() {
    let mut repository = Repository::new();
    repository.put_pack(basic_pack()).unwrap();
    repository.set_pack_enabled("basic", true).unwrap();
    let summary = ContextCommands::new(&mut repository)
        .summary_on(date(2026, 8, 16))
        .unwrap();
    assert_eq!(summary.as_of_date, "2026-08-16");
    assert!(summary.status_selections.is_empty());
    assert!(summary.active_missions.is_empty());
    assert!(summary.achievement_states.is_empty());
    assert!(summary.memories.is_empty());
}

#[test]
fn active_missions_come_by_deadline_with_days_left() {
    let mut repository = Repository::new();
    mission(&mut repository, "m-late", "Late", Some("2026-12-01"));
    mission(&mut repository, "m-none", "Open", None);
    mission(&mut repository, "m-soon", "Soon", Some("2026-08-20"));
    mission(&mut repository, "m-done", "Done", Some("2026-08-18"));
    MissionCommands::new(&mut repository)
        .complete_at("m-done", "2026-08-16T11:00:00Z".to_string())
        .unwrap();
    let summary = ContextCommands::new(&mut repository)
        .summary_on(date(2026, 8, 16))
        .unwrap();
    let ids: Vec<&str> = summary
        .active_missions
        .iter()
        .map(|m| m.mission.id.as_str())
        .collect();
    assert_eq!(ids, vec!["m-soon", "m-late", "m-none"]);
    assert_eq!(summary.active_missions[0].days_remaining, Some(4));
    assert_eq!(summary.active_missions[1].days_remaining, Some(107));
    assert_eq!(summary.active_missions[2].days_remaining, None);
}

#[test]
fn achievement_states_carry_their_definition_and_selections_their_position() {
    let mut repository = Repository::new();
    repository.put_pack(cooking_pack()).unwrap();
    repository.achievement_states.push((
        "hiking::summit".to_string(),
        AchievementState {
            status: AchievementStatus::Achieved,
            achieved_at: Some("2026-08-01T00:00:00Z".to_string()),
        },
    ));
    repository.achievement_states.push((
        "cooking::first_dish".to_string(),
        AchievementState {
            status: AchievementStatus::Tracking,
            achieved_at: None,
        },
    ));
    repository.status_selections.push(StatusDimensionSelection {
        position: 3,
        dimension_id: "fitness::physical".to_string(),
    });
    repository.status_selections.push(StatusDimensionSelection {
        position: 1,
        dimension_id: "mind::focus".to_string(),
    });
    repository
        .memory_create_at(
            CreateAssistantMemory {
                kind: AssistantMemoryKind::Preference,
                content: "Prefers mornings".to_string(),
            },
            "mem-1".to_string(),
            "2026-08-16T10:00:00Z".to_string(),
        )
        .unwrap();

    let summary = ContextCommands::new(&mut repository)
        .summary_on(date(2026, 8, 16))
        .unwrap();
    let states = &summary.achievement_states;
    assert_eq!(states.len(), 2);
    assert_eq!(states[0].achievement_id, "cooking::first_dish");
    assert_eq!(states[0].pack_id, "cooking");
    assert_eq!(states[0].name.as_deref(), Some("First dish"));
    assert!(!states[0].definition_available);
    assert_eq!(states[1].achievement_id, "hiking::summit");
    assert_eq!(states[1].pack_id, "hiking");
    assert_eq!(states[1].name, None);
    assert!(!states[1].definition_available);

    let positions: Vec<u8> = summary.status_selections.iter().map(|s| s.position).collect();
    assert_eq!(positions, vec![1, 3]);
    assert!(summary.status_selections.iter().all(|s| !s.available));
    assert_eq!(summary.memories.len(), 1);

    repository.set_pack_enabled("cooking", true).unwrap();
    let summary = ContextCommands::new(&mut repository)
        .summary_on(date(2026, 8, 16))
        .unwrap();
    assert!(summary.achievement_states[0].definition_available);
}

#[test]
fn dates_are_written_as_chrono_writes_them() {
    assert_eq!(iso_date_text(date(2026, 8, 16)), "2026-08-16");
    assert_eq!(iso_date_text(date(987, 1, 2)), "0987-01-02");
    assert_eq!(iso_date_text(date(12345, 12, 31)), "+12345-12-31");
    assert_eq!(iso_date_text(date(-44, 3, 15)), "-0044-03-15");
}
