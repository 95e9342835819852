use arcana::commands::mission_commands::{CreateMission, MissionCommands, SuggestMission};
use arcana::dashboard::{
    build_mission_dashboard, build_mission_dashboard_on, build_mission_menu_dashboard,
    build_mission_menu_dashboard_on, deadline_days_remaining, MissionDashboardData,
    MissionMenuDashboardData,
};
use arcana::date::{days_from_civil, parse_date, CalendarDate};
use arcana::repository::Repository;
use arcana::state::{
    DashboardMissionSelection, DashboardMissionSelections, DashboardMissionSlot, MissionDifficulty,
};

const MISSION_ID: &str = "019b1234-89ab-7def-8123-456789abcdef";

fn day(year: i32, month: u32, day: u32) -> CalendarDate {
    CalendarDate { year, month, day }
}

fn select(repository: &mut Repository, slot: DashboardMissionSlot, mission_id: &str, label: Option<&str>) {
    repository.dashboard_selections.set(
        slot,
        Some(DashboardMissionSelection {
            mission_id: mission_id.to_string(),
            label: label.map(|l| l.to_string()),
        }),
    );
}

fn create(repository: &mut Repository, id: &str, title: &str, progress: Option<u8>, deadline: Option<&str>) {
    MissionCommands::new(repository)
        .create_at(
            CreateMission {
                title: title.to_string(),
                description: None,
                progress,
                difficulty: Some(MissionDifficulty::B),
                deadline: deadline.map(|d| d.to_string()),
                parent_id: None,
            },
            id.to_string(),
            "2026-08-16T10:00:00Z".to_string(),
        )
        .unwrap();
}

#[test]
fn empty_runtime_returns_empty_mission_dashboards() {
    let repository = Repository::new();
    assert_eq!(
        build_mission_dashboard(&repository),
        MissionDashboardData {
            missions: Vec::new(),
            suggestions: Vec::new(),
        }
    );
    assert_eq!(
        build_mission_menu_dashboard(&repository),
        MissionMenuDashboardData {
            countdown: None,
            hints: Vec::new(),
            progress: None,
            selections: DashboardMissionSelections::empty(),
            unresolved_slots: Vec::new(),
        }
    );
}

#[test]
fn dashboard_separates_suggestions_and_resolves_local_slots() {
    let mut repository = Repository::new();
    create(&mut repository, MISSION_ID, "Read Rust Book", Some(40), None);
    MissionCommands::new(&mut repository)
        .suggest_at(
            SuggestMission {
                title: "Try Rustlings".to_string(),
                description: None,
                difficulty: Some(MissionDifficulty::C),
                deadline: None,
                parent_mission_id: None,
                reason: Some("Practice ownership".to_string()),
            },
            "019b1234-89ab-7def-8123-456789abcdf0".to_string(),
            "2026-08-16T10:01:00Z".to_string(),
        )
        .unwrap();
    for slot in [
        DashboardMissionSlot::Progress,
        DashboardMissionSlot::Hint1,
        DashboardMissionSlot::Countdown,
    ] {
        select(&mut repository, slot, MISSION_ID, None);
    }

    let dashboard = build_mission_dashboard(&repository);
    assert_eq!(dashboard.missions.len(), 1);
    assert_eq!(dashboard.suggestions.len(), 1);
    assert_eq!(dashboard.suggestions[0].suggestion.title, "Try Rustlings");

    let menu = build_mission_menu_dashboard(&repository);
    assert_eq!(menu.progress.as_ref().map(|item| item.progress), Some(40));
    assert_eq!(menu.hints[0].short_desc, "Read Rust Book");
    assert_eq!(menu.unresolved_slots, vec![DashboardMissionSlot::Countdown]);
}

#[test]
fn countdown_shows_deadlines_within_a_hundred_days() {
    let mut repository = Repository::new();
    create(&mut repository, MISSION_ID, "Ship release", None, Some("2026-09-01"));
    select(&mut repository, DashboardMissionSlot::Countdown, MISSION_ID, None);
    select(&mut repository, DashboardMissionSlot::Progress, MISSION_ID, Some("Release"));

    let menu = build_mission_menu_dashboard_on(&repository, day(2026, 8, 16));
    let countdown = menu.countdown.unwrap();
    assert_eq!(countdown.label, "任务期限");
    assert_eq!(countdown.short_desc, "Ship release");
    assert_eq!(countdown.days_remaining, 16);
    let progress = menu.progress.unwrap();
    assert_eq!(progress.label, "Release");
    assert_eq!(progress.progress, 0);
    assert!(menu.unresolved_slots.is_empty());

    let late = build_mission_menu_dashboard_on(&repository, day(2026, 9, 2));
    assert!(late.countdown.is_none());
    assert_eq!(late.unresolved_slots, vec![DashboardMissionSlot::Countdown]);

    let early = build_mission_menu_dashboard_on(&repository, day(2026, 5, 1));
    assert!(early.countdown.is_none());
    assert_eq!(early.unresolved_slots, vec![DashboardMissionSlot::Countdown]);
}

#[test]
fn missing_or_inactive_selections_are_unresolved() {
    let mut repository = Repository::new();
    create(&mut repository, MISSION_ID, "Done already", None, None);
    MissionCommands::new(&mut repository)
        .complete_at(MISSION_ID, "2026-08-17T10:00:00Z".to_string())
        .unwrap();
    select(&mut repository, DashboardMissionSlot::Hint1, MISSION_ID, None);
    select(&mut repository, DashboardMissionSlot::Hint2, "missing", None);
    let menu = build_mission_menu_dashboard_on(&repository, day(2026, 8, 16));
    assert!(menu.hints.is_empty());
    assert_eq!(
        menu.unresolved_slots,
        vec![DashboardMissionSlot::Hint1, DashboardMissionSlot::Hint2]
    );
}

#[test]
fn list_dashboard_counts_days_to_each_deadline() {
    let mut repository = Repository::new();
    create(&mut repository, MISSION_ID, "Past", None, Some("2026-08-10"));
    create(&mut repository, "second", "No date", None, Some("soon"));
    let dashboard = build_mission_dashboard_on(&repository, day(2026, 8, 16));
    assert_eq!(dashboard.missions[0].days_remaining, Some(-6));
    assert_eq!(dashboard.missions[1].days_remaining, None);
}

#[test]
fn day_numbers_count_from_the_unix_epoch() {
    assert_eq!(days_from_civil(1970, 1, 1), 0);
    assert_eq!(days_from_civil(1970, 1, 2), 1);
    assert_eq!(days_from_civil(2000, 3, 1), 11017);
    assert_eq!(days_from_civil(1969, 12, 31), -1);
    assert_eq!(days_from_civil(2024, 3, 1) - days_from_civil(2024, 2, 28), 2);
    assert_eq!(days_from_civil(2023, 3, 1) - days_from_civil(2023, 2, 28), 1);
}

#[test]
fn dates_are_read_only_in_the_strict_form() {
    assert_eq!(parse_date("2024-02-29"), Some(day(2024, 2, 29)));
    assert_eq!(parse_date("2023-02-29"), None);
    assert_eq!(parse_date("2024-2-29"), None);
    assert_eq!(parse_date("2024-13-01"), None);
    assert_eq!(parse_date("2024/02/01"), None);
    assert_eq!(
        deadline_days_remaining(&Some("2027-01-01".to_string()), day(2026, 12, 31)),
        Some(1)
    );
    assert_eq!(deadline_days_remaining(&None, day(2026, 12, 31)), None);
}

fn basic_repository() -> Repository {
    let mut repository = Repository::new();
    repository.put_pack(arcana::standard_packs::basic_pack()).unwrap();
    repository
        .set_pack_enabled(arcana::standard_packs::BASIC_PACK_ID, true)
        .unwrap();
    repository
}

fn set_text(repository: &mut Repository, id: &str, value: &str) {
    repository
        .set_scalar_at(
            arcana::commands::record_commands::SetScalarRecord {
                definition_id: id.to_string(),
                value: arcana::json::JsonValue::text(value),
                effective_at: None,
            },
            "2026-08-16T12:00:00+08:00".to_string(),
        )
        .unwrap();
}

#[test]
fn empty_runtime_returns_basic_identity_defaults() {
    let repository = basic_repository();
    let identity = arcana::dashboard::status_identity(&repository);
    assert_eq!(identity.username, arcana::dashboard::DEFAULT_USERNAME);
    assert_eq!(identity.game_days, None);
}

#[test]
fn dashboard_reads_identity_from_basic_records() {
    let mut repository = basic_repository();
    set_text(&mut repository, "identity.nickname", "Alice");
    let identity = arcana::dashboard::status_identity(&repository);
    assert_eq!(identity.username, "Alice");
}

#[test]
fn blank_names_fall_back_and_game_days_count_from_birth() {
    let mut repository = basic_repository();
    set_text(&mut repository, "identity.nickname", " \t\u{3000}");
    set_text(&mut repository, "identity.birth_date", "2026-08-01");
    let identity = arcana::dashboard::status_identity_on(&repository, day(2026, 8, 16));
    assert_eq!(identity.username, "Trickster");
    assert_eq!(identity.game_days, Some(15));
    let before = arcana::dashboard::status_identity_on(&repository, day(2026, 7, 31));
    assert_eq!(before.game_days, None);
}
