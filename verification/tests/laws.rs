use arcana::commands::memory_commands::{CreateAssistantMemory, UpdateAssistantMemory};
use arcana::commands::mission_commands::{
    CreateMission, MissionCommands, SuggestMission, UpdateMission,
};
use arcana::commands::mission_dashboard_commands::MissionDashboardCommands;
use arcana::commands::mutation_commands::{MutationCommands, MutationOperation, RecordTarget};
use arcana::commands::record_commands::{CreateEmptyRecord, SetScalarRecord};
use arcana::date::days_from_civil;
use arcana::date::civil_from_epoch_days;
use arcana::error::RepositoryErrorCode;
use arcana::json::JsonValue;
use arcana::pack::{Pack, PackManifest, SCHEMA_VERSION};
use arcana::record::Record;
use arcana::repository::Repository;
use arcana::standard_packs::{basic_pack, BASIC_PACK_ID};
use arcana::state::{AssistantMemoryKind, DashboardMissionSlot, MissionStatus};

fn basic() -> Repository {
    let mut repository = Repository::new();
    repository.put_pack(basic_pack()).unwrap();
    repository.set_pack_enabled(BASIC_PACK_ID, true).unwrap();
    repository
}

fn add(_a: &JsonValue, _b: &JsonValue) -> Option<JsonValue> {
    None
}

fn empty_pack(id: &str, parent: Option<&str>) -> Pack {
    Pack {
        manifest: PackManifest {
            schema_version: SCHEMA_VERSION,
            id: id.to_string(),
            name: id.to_string(),
            description: None,
            author: None,
            parent_pack_id: parent.map(|p| p.to_string()),
            tags: Vec::new(),
        },
        record_definitions: None,
        dimensions: None,
        achievements: None,
        skills: None,
        derived_values: None,
        assets: Vec::new(),
    }
}

fn mission(repository: &mut Repository, id: &str, parent: Option<&str>) {
    MissionCommands::new(repository)
        .create_at(
            CreateMission {
                title: id.to_string(),
                description: None,
                progress: Some(10),
                difficulty: None,
                deadline: None,
                parent_id: parent.map(|p| p.to_string()),
            },
            id.to_string(),
            "2026-08-16T10:00:00Z".to_string(),
        )
        .unwrap();
}

#[test]
fn refused_operations_change_nothing() {
    let mut repository = basic();
    let before = repository.records.len();
    let error = MutationCommands::new(&mut repository)
        .apply_one(
            MutationOperation::RecordDelete(RecordTarget {
                definition_id: "identity.nickname".to_string(),
            }),
            false,
            add,
        )
        .unwrap_err();
    assert_eq!(error.code, RepositoryErrorCode::NotFound);
    assert_eq!(repository.records.len(), before);
}

#[test]
fn a_stored_record_reads_back_and_others_stay() {
    let mut repository = basic();
    repository
        .set_scalar_at(
            SetScalarRecord {
                definition_id: "identity.birth_date".to_string(),
                value: JsonValue::text("2000-01-01"),
                effective_at: None,
            },
            "2026-08-16T10:00:00Z".to_string(),
        )
        .unwrap();
    repository
        .set_scalar_at(
            SetScalarRecord {
                definition_id: "identity.nickname".to_string(),
                value: JsonValue::text("Alice"),
                effective_at: None,
            },
            "2026-08-16T10:00:00Z".to_string(),
        )
        .unwrap();
    let nickname = &repository.records[repository.find_record("identity.nickname").unwrap()];
    match nickname {
        Record::Scalar(s) => assert_eq!(s.value, JsonValue::text("Alice")),
        other => panic!("unexpected {other:?}"),
    }
    let birth = &repository.records[repository.find_record("identity.birth_date").unwrap()];
    match birth {
        Record::Scalar(s) => assert_eq!(s.value, JsonValue::text("2000-01-01")),
        other => panic!("unexpected {other:?}"),
    }
}

#[test]
fn creating_over_an_existing_record_is_refused() {
    let mut repository = basic();
    repository
        .set_scalar_at(
            SetScalarRecord {
                definition_id: "identity.nickname".to_string(),
                value: JsonValue::text("Alice"),
                effective_at: None,
            },
            "2026-08-16T10:00:00Z".to_string(),
        )
        .unwrap();
    let error = repository
        .create_empty_collection(CreateEmptyRecord {
            definition_id: "identity.nickname".to_string(),
        })
        .unwrap_err();
    assert_eq!(error.code, RepositoryErrorCode::Conflict);
}

#[test]
fn lifecycle_commands_are_idempotent_and_keep_identity() {
    let mut repository = Repository::new();
    mission(&mut repository, "m1", None);
    let mut commands = MissionCommands::new(&mut repository);
    let updated = commands
        .update(UpdateMission {
            mission_id: "m1".to_string(),
            title: "Renamed".to_string(),
            description: None,
            progress: Some(50),
            difficulty: None,
            deadline: None,
            parent_id: None,
        })
        .unwrap();
    assert_eq!(updated.mission.id, "m1");
    assert_eq!(updated.mission.created_at, "2026-08-16T10:00:00Z");
    let first = commands.complete_at("m1", "2026-08-17T10:00:00Z".to_string()).unwrap();
    assert!(first.changed);
    let second = commands.complete_at("m1", "2026-08-18T10:00:00Z".to_string()).unwrap();
    assert!(!second.changed);
    assert_eq!(second.mission, first.mission);
    let archived = commands.archive("m1").unwrap();
    assert_eq!(archived.mission.status, MissionStatus::Archived);
    assert!(!commands.archive("m1").unwrap().changed);

    commands
        .suggest_at(
            SuggestMission {
                title: "Maybe".to_string(),
                description: None,
                difficulty: None,
                deadline: None,
                parent_mission_id: None,
                reason: None,
            },
            "s1".to_string(),
            "2026-08-16T10:00:00Z".to_string(),
        )
        .unwrap();
    assert!(commands.reject("s1").unwrap().changed);
    assert!(!commands.reject("s1").unwrap().changed);
}

#[test]
fn a_parent_is_not_deleted_while_it_has_children() {
    let mut repository = Repository::new();
    mission(&mut repository, "parent", None);
    mission(&mut repository, "child", Some("parent"));
    let error = MissionCommands::new(&mut repository).delete("parent").unwrap_err();
    assert_eq!(error.code, RepositoryErrorCode::Conflict);
    assert_eq!(repository.missions.len(), 2);
}

#[test]
fn memory_updates_keep_identity_and_order_in_time() {
    let mut repository = Repository::new();
    repository
        .memory_create_at(
            CreateAssistantMemory {
                kind: AssistantMemoryKind::Focus,
                content: "Rust".to_string(),
            },
            "mem".to_string(),
            "2026-08-16T10:00:00Z".to_string(),
        )
        .unwrap();
    let updated = repository
        .memory_update_at(
            UpdateAssistantMemory {
                memory_id: "mem".to_string(),
                kind: AssistantMemoryKind::Focus,
                content: "Verus".to_string(),
            },
            "2026-08-17T10:00:00Z".to_string(),
        )
        .unwrap();
    assert_eq!(updated.memory.id, "mem");
    assert_eq!(updated.memory.created_at, "2026-08-16T10:00:00Z");
    let error = repository
        .memory_update_at(
            UpdateAssistantMemory {
                memory_id: "mem".to_string(),
                kind: AssistantMemoryKind::Focus,
                content: "Earlier".to_string(),
            },
            "2026-08-15T10:00:00Z".to_string(),
        )
        .unwrap_err();
    assert_eq!(error.code, RepositoryErrorCode::ValidationFailed);
}

#[test]
fn choosing_a_dashboard_slot_twice_changes_nothing() {
    let mut repository = Repository::new();
    mission(&mut repository, "m1", None);
    let mut commands = MissionDashboardCommands::new(&mut repository);
    assert!(commands.select(DashboardMissionSlot::Hint1, "m1".to_string(), None).unwrap().changed);
    assert!(!commands.select(DashboardMissionSlot::Hint1, "m1".to_string(), None).unwrap().changed);
}

#[test]
fn stored_packs_stay_in_order_and_enabling_twice_is_once() {
    let mut repository = Repository::new();
    repository.put_pack(empty_pack("zeta", None)).unwrap();
    repository.put_pack(empty_pack("alpha", None)).unwrap();
    repository.put_pack(empty_pack("mid", Some("alpha"))).unwrap();
    let ids: Vec<&str> = repository.packs.iter().map(|p| p.manifest.id.as_str()).collect();
    assert_eq!(ids, vec!["alpha", "mid", "zeta"]);
    repository.set_pack_enabled("zeta", true).unwrap();
    repository.set_pack_enabled("alpha", true).unwrap();
    repository.set_pack_enabled("alpha", true).unwrap();
    assert_eq!(repository.enabled_pack_ids, vec!["alpha".to_string(), "zeta".to_string()]);
    let error = repository.put_pack(empty_pack("alpha", Some("mid"))).unwrap_err();
    assert_eq!(error.code, RepositoryErrorCode::ValidationFailed);
}

#[test]
fn day_numbers_and_dates_convert_both_ways() {
    for (y, m, d) in [(1970, 1, 1), (2000, 2, 29), (2024, 12, 31), (2100, 3, 1)] {
        let n = days_from_civil(y, m, d);
        assert_eq!(civil_from_epoch_days(n as u64), (y as i64, m, d));
    }
}

fn plain_mission(title: &str) -> CreateMission {
    CreateMission {
        title: title.to_string(),
        description: None,
        progress: None,
        difficulty: None,
        deadline: None,
        parent_id: None,
    }
}

#[test]
fn identifiers_stay_unique_across_missions_and_suggestions() {
    let mut repository = Repository::new();
    let mut commands = MissionCommands::new(&mut repository);
    let id = "019b1234-89ab-7def-8123-456789abcdef";
    commands.create_at(plain_mission("Run"), id.to_string(), "2026-08-16T10:00:00Z".to_string()).unwrap();
    let again = commands
        .create_at(plain_mission("Swim"), id.to_string(), "2026-08-16T11:00:00Z".to_string())
        .unwrap_err();
    assert_eq!(again.code, RepositoryErrorCode::Conflict);
    let suggestion = SuggestMission {
        title: "Walk".to_string(),
        description: None,
        difficulty: None,
        deadline: None,
        parent_mission_id: None,
        reason: None,
    };
    commands.suggest_at(suggestion, id.to_string(), "2026-08-16T12:00:00Z".to_string()).unwrap();
    let accepted = commands.accept_at(id, "2026-08-16T13:00:00Z".to_string()).unwrap_err();
    assert_eq!(accepted.code, RepositoryErrorCode::Conflict);
    drop(commands);
    assert_eq!(repository.missions.len(), 1);
    assert_eq!(repository.suggestions.len(), 1);
}
