use arcana::commands::mission_commands::{CreateMission, MissionCommands};
use arcana::commands::mission_dashboard_commands::MissionDashboardCommands;
use arcana::error::RepositoryErrorCode;
use arcana::repository::Repository;
use arcana::state::DashboardMissionSlot;

#[test]
fn selection_requires_active_mission_and_clear_is_idempotent() {
    let mut repository = Repository::new();
    let created = MissionCommands::new(&mut repository)
        .create_at(
            CreateMission {
                title: "Ship Arcana".to_string(),
                description: None,
                progress: Some(50),
                difficulty: None,
                deadline: None,
                parent_id: None,
            },
            "019b1234-89ab-7def-8123-456789abcdef".to_string(),
            "2026-08-16T10:00:00Z".to_string(),
        )
        .unwrap();
    {
        let mut commands = MissionDashboardCommands::new(&mut repository);
        assert!(
            commands
                .select(
                    DashboardMissionSlot::Progress,
                    created.mission.id.clone(),
                    Some("Arcana".to_string()),
                )
                .unwrap()
                .changed
        );
        assert!(
            !commands
                .select(
                    DashboardMissionSlot::Progress,
                    created.mission.id.clone(),
                    Some("Arcana".to_string()),
                )
                .unwrap()
                .changed
        );
        assert_eq!(commands.list().unwrap().len(), 1);

        assert!(commands.clear(DashboardMissionSlot::Progress).unwrap().changed);
        assert!(!commands.clear(DashboardMissionSlot::Progress).unwrap().changed);
    }

    MissionCommands::new(&mut repository)
        .complete_at(&created.mission.id, "2026-08-16T11:00:00Z".to_string())
        .unwrap();
    let error = MissionDashboardCommands::new(&mut repository)
        .select(DashboardMissionSlot::Hint1, created.mission.id, None)
        .unwrap_err();
    assert_eq!(error.code, RepositoryErrorCode::Conflict);
}

#[test]
fn selecting_a_missing_mission_is_not_found_and_relabelling_changes() {
    let mut repository = Repository::new();
    MissionCommands::new(&mut repository)
        .create_at(
            CreateMission {
                title: "Learn".to_string(),
                description: None,
                progress: None,
                difficulty: None,
                deadline: None,
                parent_id: None,
            },
            "m1".to_string(),
            "2026-08-16T10:00:00Z".to_string(),
        )
        .unwrap();
    let mut commands = MissionDashboardCommands::new(&mut repository);
    assert_eq!(
        commands
            .select(DashboardMissionSlot::Countdown, "missing".to_string(), None)
            .unwrap_err()
            .code,
        RepositoryErrorCode::NotFound
    );
    assert!(commands.select(DashboardMissionSlot::Countdown, "m1".to_string(), None).unwrap().changed);
    assert!(commands
        .select(DashboardMissionSlot::Countdown, "m1".to_string(), Some("Now".to_string()))
        .unwrap()
        .changed);
    let selections = commands.list().unwrap();
    assert_eq!(selections.countdown.unwrap().label.as_deref(), Some("Now"));
}
