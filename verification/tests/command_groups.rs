use arcana::cli::{Cli, CliParseError, Commands};
use arcana::command_groups::{
    check_batch_operations, derived_as_of, memory_dispatch, mission_dispatch, prepare_achievement_action,
    prepare_memory_action, prepare_mission_action, prepare_status_action, skill_query, status_dispatch,
    AchievementAction, AchievementPreparation, AchievementStatusArg, AssistantMemoryKindArg, BatchAction,
    ContextAction, DerivedAction, MemoryAction, MemoryDispatch, MemoryPreparation, MissionAction, MissionDispatch,
    MissionInputKind, MissionPreparation, MissionStatusArg, MissionSuggestionStatusArg, PreparedAchievementAction,
    PreparedMemoryAction, PreparedMissionAction, PreparedStatusAction, SkillAction, StatusAction, StatusDispatch,
};
use arcana::commands::mission_commands::{QueryMissionSuggestions, QueryMissions};
use arcana::commands::mutation_commands::{MissionTarget, MutationOperation, RecordTarget, StatusSelectionInput};
use arcana::contract::{repository_error_code, RepositoryOperation};
use arcana::date::CalendarDate;
use arcana::error::RepositoryErrorCode;
use arcana::state::{AchievementStatus, AssistantMemoryKind, MissionStatus, MissionSuggestionStatus};

fn parse(arguments: &[&str]) -> Result<Cli, CliParseError> {
    let mut argv = vec!["arcana-data"];
    argv.extend_from_slice(arguments);
    Cli::try_parse_from(&argv)
}

#[test]
fn list_filters_map_to_typed_query() {
    let MissionPreparation::Ready(PreparedMissionAction::List(query)) = prepare_mission_action(MissionAction::List {
        mission_id: Some("mission-id".to_string()),
        status: Some(MissionStatusArg::Completed),
        parent_id: Some("parent-id".to_string()),
    }) else {
        panic!("expected Mission list query");
    };
    assert_eq!(query.mission_id.as_deref(), Some("mission-id"));
    assert_eq!(query.status, Some(MissionStatus::Completed));
    assert_eq!(query.parent_id.as_deref(), Some("parent-id"));
}

#[test]
fn suggestion_filters_map_to_typed_query() {
    let MissionPreparation::Ready(PreparedMissionAction::SuggestionList(query)) =
        prepare_mission_action(MissionAction::SuggestionList {
            suggestion_id: Some("suggestion-id".to_string()),
            status: Some(MissionSuggestionStatusArg::Rejected),
        })
    else {
        panic!("expected MissionSuggestion list query");
    };
    assert_eq!(query.suggestion_id.as_deref(), Some("suggestion-id"));
    assert_eq!(query.status, Some(MissionSuggestionStatus::Rejected));
}

#[test]
fn memory_list_filters_map_to_typed_query() {
    let MemoryPreparation::Ready(PreparedMemoryAction::List(query)) = prepare_memory_action(MemoryAction::List {
        memory_id: Some("memory-id".to_string()),
        kind: Some(AssistantMemoryKindArg::Reminder),
    }) else {
        panic!("expected AssistantMemory list query");
    };
    assert_eq!(query.memory_id.as_deref(), Some("memory-id"));
    assert_eq!(query.kind, Some(AssistantMemoryKind::Reminder));
}

#[test]
fn achievement_list_filters_map_to_typed_query() {
    let AchievementPreparation::Ready(PreparedAchievementAction::List(query)) =
        prepare_achievement_action(AchievementAction::List {
            achievement_id: Some("cooking::first_dish".to_string()),
            pack: Some("cooking".to_string()),
            status: Some(AchievementStatusArg::Achieved),
            related_record_definition_id: Some("cooking.dish_count".to_string()),
        })
    else {
        panic!("expected list query");
    };
    assert_eq!(query.pack_id.as_deref(), Some("cooking"));
    assert_eq!(query.status, Some(AchievementStatus::Achieved));
}

#[test]
fn select_requires_exactly_one_assignment_mode() {
    let missing = prepare_status_action(StatusAction::Select { position: 0, dimension_id: None, clear: false })
        .unwrap_err();
    assert_eq!(missing.code, "invalid_command_input");

    let conflicting = prepare_status_action(StatusAction::Select {
        position: 0,
        dimension_id: Some("fitness::physical".to_string()),
        clear: true,
    })
    .unwrap_err();
    assert_eq!(conflicting.code, "invalid_command_input");
}

#[test]
fn selection_and_clearing_are_prepared() {
    let selected = prepare_status_action(StatusAction::Select {
        position: 2,
        dimension_id: Some("fitness::physical".to_string()),
        clear: false,
    })
    .unwrap();
    assert_eq!(
        selected,
        PreparedStatusAction::Select { position: 2, dimension_id: "fitness::physical".to_string() }
    );
    let cleared = prepare_status_action(StatusAction::Select { position: 4, dimension_id: None, clear: true }).unwrap();
    assert_eq!(cleared, PreparedStatusAction::Clear { position: 4 });
}

#[test]
fn mission_inputs_name_their_documents() {
    assert!(matches!(
        prepare_mission_action(MissionAction::Create { file: Some("mission.json".to_string()) }),
        MissionPreparation::Input { kind: MissionInputKind::Create, .. }
    ));
    assert!(matches!(
        prepare_mission_action(MissionAction::Suggest { file: None }),
        MissionPreparation::Input { file: None, kind: MissionInputKind::Suggest }
    ));
    assert!(matches!(
        prepare_memory_action(MemoryAction::Update { file: None }),
        MemoryPreparation::Input { .. }
    ));
    assert!(matches!(
        prepare_achievement_action(AchievementAction::StateSet { file: None }),
        AchievementPreparation::StateInput { file: None }
    ));
}

#[test]
fn mission_mutations_become_batch_operations() {
    match mission_dispatch(PreparedMissionAction::Complete("m1".to_string()), false).unwrap() {
        MissionDispatch::Mutate(operation, subject) => {
            assert_eq!(operation, MutationOperation::MissionComplete(MissionTarget { mission_id: "m1".to_string() }));
            assert_eq!(subject, RepositoryOperation::Mission);
        }
        _ => panic!("expected a mutation"),
    }
    match mission_dispatch(PreparedMissionAction::Accept("s1".to_string()), true).unwrap() {
        MissionDispatch::Mutate(operation, subject) => {
            assert_eq!(operation.operation_name(), "mission.accept");
            assert_eq!(subject, RepositoryOperation::MissionSuggestion);
        }
        _ => panic!("expected a mutation"),
    }
}

#[test]
fn mission_reads_refuse_dry_run() {
    let error = mission_dispatch(PreparedMissionAction::List(QueryMissions::default()), true).unwrap_err();
    assert_eq!(error.code, "invalid_command_input");
    assert_eq!(error.message, "--dry-run cannot be used with read-only commands");
    let error = mission_dispatch(
        PreparedMissionAction::SuggestionList(QueryMissionSuggestions { suggestion_id: None, status: None }),
        true,
    )
    .unwrap_err();
    assert_eq!(error.code, "invalid_command_input");
    assert!(matches!(
        mission_dispatch(PreparedMissionAction::List(QueryMissions::default()), false),
        Ok(MissionDispatch::ListMissions(_))
    ));
}

#[test]
fn memory_and_status_reads_refuse_dry_run() {
    let list = prepare_memory_action(MemoryAction::List { memory_id: None, kind: None });
    let MemoryPreparation::Ready(list) = list else { panic!("expected a list") };
    assert_eq!(memory_dispatch(list, true).unwrap_err().code, "invalid_command_input");
    match memory_dispatch(PreparedMemoryAction::Delete("memory-1".to_string()), true).unwrap() {
        MemoryDispatch::Mutate(operation, subject) => {
            assert_eq!(operation.operation_name(), "memory.delete");
            assert_eq!(subject, RepositoryOperation::Memory);
        }
        _ => panic!("expected a mutation"),
    }
    assert_eq!(
        status_dispatch(PreparedStatusAction::ListDimensions, true).unwrap_err().code,
        "invalid_command_input"
    );
    match status_dispatch(PreparedStatusAction::Select { position: 1, dimension_id: "a::b".to_string() }, true).unwrap() {
        StatusDispatch::Mutate(operation, subject) => {
            assert_eq!(
                operation,
                MutationOperation::StatusSelect(StatusSelectionInput { position: 1, dimension_id: "a::b".to_string() })
            );
            assert_eq!(subject, RepositoryOperation::Status);
        }
        _ => panic!("expected a mutation"),
    }
}

#[test]
fn skill_pack_filter_becomes_the_query_pack() {
    let query = skill_query(SkillAction::List { skill_id: Some("cook".to_string()), pack: Some("cooking".to_string()) });
    assert_eq!(query.skill_id.as_deref(), Some("cook"));
    assert_eq!(query.pack_id.as_deref(), Some("cooking"));
}

#[test]
fn derived_dates_are_read_or_refused() {
    assert_eq!(derived_as_of(None).unwrap(), None);
    assert_eq!(
        derived_as_of(Some("2026-08-17".to_string())).unwrap(),
        Some(CalendarDate { year: 2026, month: 8, day: 17 })
    );
    let error = derived_as_of(Some("2026-02-30".to_string())).unwrap_err();
    assert_eq!(error.code, "invalid_command_input");
    assert_eq!(error.message, "--as-of must be a valid YYYY-MM-DD date");
}

#[test]
fn multi_operation_batches_take_records_only() {
    let delete = |id: &str| MutationOperation::RecordDelete(RecordTarget { definition_id: id.to_string() });
    let complete = MutationOperation::MissionComplete(MissionTarget { mission_id: "m1".to_string() });
    assert!(check_batch_operations(&vec![delete("a.b"), delete("a.c")]).is_ok());
    assert!(check_batch_operations(&vec![complete.clone()]).is_ok());
    assert!(check_batch_operations(&vec![]).is_ok());
    let error = check_batch_operations(&vec![delete("a.b"), complete]).unwrap_err();
    assert_eq!(error.code, "invalid_command_input");
    assert_eq!(error.message, "a batch of more than one operation takes Record operations only");
}

#[test]
fn new_subjects_name_their_error_codes() {
    assert_eq!(repository_error_code(RepositoryErrorCode::NotFound, RepositoryOperation::Mission), "mission_not_found");
    assert_eq!(
        repository_error_code(RepositoryErrorCode::Conflict, RepositoryOperation::MissionSuggestion),
        "mission_suggestion_conflict"
    );
    assert_eq!(repository_error_code(RepositoryErrorCode::NotFound, RepositoryOperation::Memory), "memory_not_found");
    assert_eq!(
        repository_error_code(RepositoryErrorCode::Unresolved, RepositoryOperation::Status),
        "status_unresolved"
    );
}

#[test]
fn parses_every_group_command() {
    let commands: &[&[&str]] = &[
        &["mission", "list", "--status", "active", "--parent-id", "p1"],
        &["mission", "create", "--file", "mission.json"],
        &["mission", "update"],
        &["mission", "complete", "m1", "--dry-run"],
        &["mission", "archive", "m1"],
        &["mission", "delete", "m1"],
        &["mission", "suggestion-list", "--status", "pending"],
        &["mission", "suggest", "--file", "suggestion.json"],
        &["mission", "accept", "s1"],
        &["mission", "reject", "s1"],
        &["mission", "suggestion-delete", "s1"],
        &["memory", "list", "--kind", "habit"],
        &["memory", "create"],
        &["memory", "update", "--file", "memory.json"],
        &["memory", "delete", "memory-1"],
        &["achievement", "list", "--pack", "cooking", "--status", "tracked"],
        &["achievement", "state-set", "--file", "state.json"],
        &["achievement", "state-revoke", "cooking::first_dish"],
        &["skill", "list", "--skill-id", "cook"],
        &["status", "list-dimensions"],
        &["status", "evaluate"],
        &["status", "evaluate", "fitness::physical"],
        &["status", "select", "0", "fitness::physical"],
        &["status", "select", "4", "--clear"],
        &["context", "summary"],
        &["derived", "list", "--as-of", "2026-08-17"],
        &["derived", "evaluate", "identity.game_days"],
        &["batch", "apply", "--file", "batch.json", "--dry-run"],
    ];
    for arguments in commands {
        assert!(parse(arguments).is_ok(), "failed to parse {arguments:?}");
    }
}

#[test]
fn group_commands_carry_their_filters() {
    let cli = parse(&["mission", "list", "--status", "archived", "--runtime", "/tmp/r", "--mission-id", "m1"]).unwrap();
    match cli.command {
        Commands::Mission { runtime, action: MissionAction::List { mission_id, status, parent_id }, dry_run } => {
            assert_eq!(runtime.as_deref(), Some("/tmp/r"));
            assert_eq!(mission_id.as_deref(), Some("m1"));
            assert_eq!(status, Some(MissionStatusArg::Archived));
            assert_eq!(parent_id, None);
            assert!(!dry_run);
        }
        _ => panic!("expected a Mission listing"),
    }
    match parse(&["status", "select", "3", "--clear", "--dry-run"]).unwrap().command {
        Commands::Status { action: StatusAction::Select { position, dimension_id, clear }, dry_run, .. } => {
            assert_eq!(position, 3);
            assert_eq!(dimension_id, None);
            assert!(clear);
            assert!(dry_run);
        }
        _ => panic!("expected a selection"),
    }
    assert!(matches!(
        parse(&["context", "summary"]).unwrap().command,
        Commands::Context { runtime: None, action: ContextAction::Summary }
    ));
    assert!(matches!(
        parse(&["derived", "evaluate", "identity.game_days"]).unwrap().command,
        Commands::Derived { action: DerivedAction::Evaluate { .. }, .. }
    ));
    assert!(matches!(
        parse(&["batch", "apply"]).unwrap().command,
        Commands::Batch { action: BatchAction::Apply { file: None }, dry_run: false, .. }
    ));
}

#[test]
fn group_grammar_refuses_what_it_does_not_take() {
    let refused: &[&[&str]] = &[
        &["mission"],
        &["mission", "list", "--status", "pending"],
        &["mission", "complete"],
        &["memory", "list", "--kind", "mood"],
        &["achievement", "list", "--dry-run"],
        &["achievement", "list", "--status", "locked"],
        &["skill", "list", "--status", "tracked"],
        &["status", "select", "256", "a::b"],
        &["status", "select", "first", "a::b"],
        &["status", "list-dimensions", "--clear"],
        &["context"],
        &["context", "summary", "--dry-run"],
        &["derived", "evaluate"],
        &["batch", "apply", "--name", "x"],
        &["record", "get", "a.b", "--dry-run"],
        &["pack", "list", "--status", "active"],
    ];
    for arguments in refused {
        assert_eq!(
            parse(arguments).err(),
            Some(CliParseError::InvalidInvocation),
            "accepted {arguments:?}"
        );
    }
}
