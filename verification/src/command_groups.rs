//! The command groups of the data tool beyond Records, Packs and JSON:
//! Missions and their suggestions, assistant memory, Achievements, Skills,
//! Status, the context summary, Derived Values and mutation batches.
//!
//! An action is first prepared: its filters become a typed query, and an
//! action that takes a JSON document names the document it needs.  A
//! prepared action is then dispatched: a mutation becomes one batch
//! operation together with the subject its failures are reported under, a
//! read becomes a query, and `--dry-run`, which only mutations take, is
//! refused on reads.
use vstd::prelude::*;
use vstd::string::*;
use crate::commands::achievement_commands::{QueryAchievements, SetAchievementState};
use crate::commands::memory_commands::{CreateAssistantMemory, QueryAssistantMemory, UpdateAssistantMemory};
use crate::commands::mission_commands::{
    CreateMission, QueryMissionSuggestions, QueryMissions, SuggestMission, UpdateMission,
};
use crate::commands::mutation_commands::{
    AssistantMemoryTarget, MissionSuggestionTarget, MissionTarget, MutationOperation, StatusPositionInput,
    StatusSelectionInput,
};
use crate::commands::skill_commands::QuerySkills;
use crate::contract::{entries_with_operation, CliError, CliErrorDetails, RepositoryOperation, EXIT_INPUT_ERROR};
use crate::date::{chrono_ymd, parse_ymd_date, CalendarDate};
use crate::json::JsonValue;
use crate::state::{AchievementStatus, AssistantMemoryKind, MissionStatus, MissionSuggestionStatus};

verus! {

// ---------------------------------------------------------------------------
// Filter values
// ---------------------------------------------------------------------------

#[derive(Debug, Clone, Copy, PartialEq, Eq, Structural)]
pub enum MissionStatusArg {
    Active,
    Completed,
    Archived,
}

pub open spec fn mission_status_spec(a: MissionStatusArg) -> MissionStatus {
    match a {
        MissionStatusArg::Active => MissionStatus::Active,
        MissionStatusArg::Completed => MissionStatus::Completed,
        MissionStatusArg::Archived => MissionStatus::Archived,
    }
}

pub fn mission_status_of(a: MissionStatusArg) -> (r: MissionStatus)
    ensures
        r == mission_status_spec(a),
{
    match a {
        MissionStatusArg::Active => MissionStatus::Active,
        MissionStatusArg::Completed => MissionStatus::Completed,
        MissionStatusArg::Archived => MissionStatus::Archived,
    }
}

#[derive(Debug, Clone, Copy, PartialEq, Eq, Structural)]
pub enum MissionSuggestionStatusArg {
    Pending,
    Rejected,
}

pub open spec fn suggestion_status_spec(a: MissionSuggestionStatusArg) -> MissionSuggestionStatus {
    match a {
        MissionSuggestionStatusArg::Pending => MissionSuggestionStatus::Pending,
        MissionSuggestionStatusArg::Rejected => MissionSuggestionStatus::Rejected,
    }
}

pub fn suggestion_status_of(a: MissionSuggestionStatusArg) -> (r: MissionSuggestionStatus)
    ensures
        r == suggestion_status_spec(a),
{
    match a {
        MissionSuggestionStatusArg::Pending => MissionSuggestionStatus::Pending,
        MissionSuggestionStatusArg::Rejected => MissionSuggestionStatus::Rejected,
    }
}

#[derive(Debug, Clone, Copy, PartialEq, Eq, Structural)]
pub enum AssistantMemoryKindArg {
    Focus,
    Preference,
    Constraint,
    Habit,
    Summary,
    Reminder,
    Observation,
}

pub open spec fn memory_kind_spec(a: AssistantMemoryKindArg) -> AssistantMemoryKind {
    match a {
        AssistantMemoryKindArg::Focus => AssistantMemoryKind::Focus,
        AssistantMemoryKindArg::Preference => AssistantMemoryKind::Preference,
        AssistantMemoryKindArg::Constraint => AssistantMemoryKind::Constraint,
        AssistantMemoryKindArg::Habit => AssistantMemoryKind::Habit,
        AssistantMemoryKindArg::Summary => AssistantMemoryKind::Summary,
        AssistantMemoryKindArg::Reminder => AssistantMemoryKind::Reminder,
        AssistantMemoryKindArg::Observation => AssistantMemoryKind::Observation,
    }
}

pub fn memory_kind_of(a: AssistantMemoryKindArg) -> (r: AssistantMemoryKind)
    ensures
        r == memory_kind_spec(a),
{
    match a {
        AssistantMemoryKindArg::Focus => AssistantMemoryKind::Focus,
        AssistantMemoryKindArg::Preference => AssistantMemoryKind::Preference,
        AssistantMemoryKindArg::Constraint => AssistantMemoryKind::Constraint,
        AssistantMemoryKindArg::Habit => AssistantMemoryKind::Habit,
        AssistantMemoryKindArg::Summary => AssistantMemoryKind::Summary,
        AssistantMemoryKindArg::Reminder => AssistantMemoryKind::Reminder,
        AssistantMemoryKindArg::Observation => AssistantMemoryKind::Observation,
    }
}

/// The Achievement state filter; `tracked` on the command line.
#[derive(Debug, Clone, Copy, PartialEq, Eq, Structural)]
pub enum AchievementStatusArg {
    Tracking,
    Achieved,
}

pub open spec fn achievement_status_spec(a: AchievementStatusArg) -> AchievementStatus {
    match a {
        AchievementStatusArg::Tracking => AchievementStatus::Tracking,
        AchievementStatusArg::Achieved => AchievementStatus::Achieved,
    }
}

pub fn achievement_status_of(a: AchievementStatusArg) -> (r: AchievementStatus)
    ensures
        r == achievement_status_spec(a),
{
    match a {
        AchievementStatusArg::Tracking => AchievementStatus::Tracking,
        AchievementStatusArg::Achieved => AchievementStatus::Achieved,
    }
}

pub open spec fn opt_map<A, B>(o: Option<A>, f: spec_fn(A) -> B) -> Option<B> {
    match o {
        Some(a) => Some(f(a)),
        None => None,
    }
}

// ---------------------------------------------------------------------------
// Refusals
// ---------------------------------------------------------------------------

/// `e` refuses the command's input in `operation` with `message`; its
/// details are those that `details` admits, with the operation's name added.
pub open spec fn input_refusal(
    e: CliError,
    operation: Seq<char>,
    message: Seq<char>,
    details: spec_fn(Seq<(String, JsonValue)>) -> bool,
) -> bool {
    &&& e.code@ == "invalid_command_input"@
    &&& e.message@ == message
    &&& e.exit_code == EXIT_INPUT_ERROR
    &&& e.details matches CliErrorDetails::CommandInput(entries)
        && exists|d: Seq<(String, JsonValue)>| details(d) && #[trigger] entries_with_operation(d, operation, entries@)
}

/// No details but the operation's name.
pub open spec fn no_details() -> spec_fn(Seq<(String, JsonValue)>) -> bool {
    |d: Seq<(String, JsonValue)>| d.len() == 0
}

/// `e` refuses `--dry-run` on a read-only command of `operation`.
pub open spec fn dry_run_refusal(e: CliError, operation: Seq<char>) -> bool {
    input_refusal(e, operation, "--dry-run cannot be used with read-only commands"@, no_details())
}

fn empty_refusal(operation: &str, message: &str) -> (r: CliError)
    ensures
        input_refusal(r, operation@, message@, no_details()),
{
    let details: Vec<(String, JsonValue)> = Vec::new();
    let r = CliError::invalid_command_input(operation, String::from_str(message), details);
    proof {
        let entries = r.details->CommandInput_0;
        assert(no_details()(details@) && entries_with_operation(details@, operation@, entries@));
    }
    r
}

fn read_only_refusal(operation: &str) -> (r: CliError)
    ensures
        dry_run_refusal(r, operation@),
{
    empty_refusal(operation, "--dry-run cannot be used with read-only commands")
}

// ---------------------------------------------------------------------------
// Missions and suggestions
// ---------------------------------------------------------------------------

#[derive(Debug)]
pub enum MissionAction<S> {
    List { mission_id: Option<S>, status: Option<MissionStatusArg>, parent_id: Option<S> },
    Create { file: Option<S> },
    Update { file: Option<S> },
    Complete { mission_id: S },
    Archive { mission_id: S },
    Delete { mission_id: S },
    SuggestionList { suggestion_id: Option<S>, status: Option<MissionSuggestionStatusArg> },
    Suggest { file: Option<S> },
    Accept { suggestion_id: S },
    Reject { suggestion_id: S },
    SuggestionDelete { suggestion_id: S },
}

/// A Mission action with its input read.
#[derive(Debug)]
pub enum PreparedMissionAction {
    List(QueryMissions),
    Create(CreateMission),
    Update(UpdateMission),
    Complete(String),
    Archive(String),
    Delete(String),
    SuggestionList(QueryMissionSuggestions),
    Suggest(SuggestMission),
    Accept(String),
    Reject(String),
    SuggestionDelete(String),
}

/// The JSON documents Mission actions take.
#[derive(Debug, Clone, Copy, PartialEq, Eq, Structural)]
pub enum MissionInputKind {
    Create,
    Update,
    Suggest,
}

/// What a Mission action needs before it can be dispatched: nothing, or a
/// JSON document read from `file` (standard input where there is none).
#[derive(Debug)]
pub enum MissionPreparation<S> {
    Ready(PreparedMissionAction),
    Input { file: Option<S>, kind: MissionInputKind },
}

/// The operation a Mission input is read for, as input errors name it.
pub open spec fn mission_input_operation_spec(k: MissionInputKind) -> Seq<char> {
    match k {
        MissionInputKind::Create => "create Mission"@,
        MissionInputKind::Update => "update Mission"@,
        MissionInputKind::Suggest => "suggest Mission"@,
    }
}

pub fn mission_input_operation(k: MissionInputKind) -> (r: &'static str)
    ensures
        r@ == mission_input_operation_spec(k),
{
    match k {
        MissionInputKind::Create => "create Mission",
        MissionInputKind::Update => "update Mission",
        MissionInputKind::Suggest => "suggest Mission",
    }
}

pub open spec fn prepare_mission_spec(action: MissionAction<String>) -> MissionPreparation<String> {
    match action {
        MissionAction::List { mission_id, status, parent_id } => MissionPreparation::Ready(PreparedMissionAction::List(
            QueryMissions { mission_id, status: opt_map(status, |a: MissionStatusArg| mission_status_spec(a)), parent_id },
        )),
        MissionAction::Create { file } => MissionPreparation::Input { file, kind: MissionInputKind::Create },
        MissionAction::Update { file } => MissionPreparation::Input { file, kind: MissionInputKind::Update },
        MissionAction::Complete { mission_id } => MissionPreparation::Ready(PreparedMissionAction::Complete(mission_id)),
        MissionAction::Archive { mission_id } => MissionPreparation::Ready(PreparedMissionAction::Archive(mission_id)),
        MissionAction::Delete { mission_id } => MissionPreparation::Ready(PreparedMissionAction::Delete(mission_id)),
        MissionAction::SuggestionList { suggestion_id, status } => MissionPreparation::Ready(
            PreparedMissionAction::SuggestionList(QueryMissionSuggestions {
                suggestion_id,
                status: opt_map(status, |a: MissionSuggestionStatusArg| suggestion_status_spec(a)),
            }),
        ),
        MissionAction::Suggest { file } => MissionPreparation::Input { file, kind: MissionInputKind::Suggest },
        MissionAction::Accept { suggestion_id } => MissionPreparation::Ready(PreparedMissionAction::Accept(suggestion_id)),
        MissionAction::Reject { suggestion_id } => MissionPreparation::Ready(PreparedMissionAction::Reject(suggestion_id)),
        MissionAction::SuggestionDelete { suggestion_id } => MissionPreparation::Ready(
            PreparedMissionAction::SuggestionDelete(suggestion_id),
        ),
    }
}

/// The list filters become a typed query; the actions that create, edit or
/// suggest name the JSON document they take.
pub fn prepare_mission_action(action: MissionAction<String>) -> (r: MissionPreparation<String>)
    ensures
        r == prepare_mission_spec(action),
{
    match action {
        MissionAction::List { mission_id, status, parent_id } => {
            let status = match status {
                Some(a) => Some(mission_status_of(a)),
                None => None,
            };
            MissionPreparation::Ready(PreparedMissionAction::List(QueryMissions { mission_id, status, parent_id }))
        },
        MissionAction::Create { file } => MissionPreparation::Input { file, kind: MissionInputKind::Create },
        MissionAction::Update { file } => MissionPreparation::Input { file, kind: MissionInputKind::Update },
        MissionAction::Complete { mission_id } => MissionPreparation::Ready(PreparedMissionAction::Complete(mission_id)),
        MissionAction::Archive { mission_id } => MissionPreparation::Ready(PreparedMissionAction::Archive(mission_id)),
        MissionAction::Delete { mission_id } => MissionPreparation::Ready(PreparedMissionAction::Delete(mission_id)),
        MissionAction::SuggestionList { suggestion_id, status } => {
            let status = match status {
                Some(a) => Some(suggestion_status_of(a)),
                None => None,
            };
            MissionPreparation::Ready(PreparedMissionAction::SuggestionList(QueryMissionSuggestions { suggestion_id, status }))
        },
        MissionAction::Suggest { file } => MissionPreparation::Input { file, kind: MissionInputKind::Suggest },
        MissionAction::Accept { suggestion_id } => MissionPreparation::Ready(PreparedMissionAction::Accept(suggestion_id)),
        MissionAction::Reject { suggestion_id } => MissionPreparation::Ready(PreparedMissionAction::Reject(suggestion_id)),
        MissionAction::SuggestionDelete { suggestion_id } => MissionPreparation::Ready(
            PreparedMissionAction::SuggestionDelete(suggestion_id),
        ),
    }
}

/// Where a Mission action goes.
#[derive(Debug)]
pub enum MissionDispatch {
    /// One mutation, its failures reported under the operation.
    Mutate(MutationOperation, RepositoryOperation),
    ListMissions(QueryMissions),
    ListSuggestions(QueryMissionSuggestions),
}

pub open spec fn mission_dispatch_holds(action: PreparedMissionAction, dry_run: bool, r: Result<MissionDispatch, CliError>) -> bool {
    match action {
        PreparedMissionAction::List(q) => if dry_run {
            r matches Err(e) && dry_run_refusal(e, "read Missions"@)
        } else {
            r == Ok::<MissionDispatch, CliError>(MissionDispatch::ListMissions(q))
        },
        PreparedMissionAction::SuggestionList(q) => if dry_run {
            r matches Err(e) && dry_run_refusal(e, "read Missions"@)
        } else {
            r == Ok::<MissionDispatch, CliError>(MissionDispatch::ListSuggestions(q))
        },
        PreparedMissionAction::Create(c) => r == Ok::<MissionDispatch, CliError>(
            MissionDispatch::Mutate(MutationOperation::MissionCreate(c), RepositoryOperation::Mission)),
        PreparedMissionAction::Update(c) => r == Ok::<MissionDispatch, CliError>(
            MissionDispatch::Mutate(MutationOperation::MissionUpdate(c), RepositoryOperation::Mission)),
        PreparedMissionAction::Complete(id) => r == Ok::<MissionDispatch, CliError>(MissionDispatch::Mutate(
            MutationOperation::MissionComplete(MissionTarget { mission_id: id }), RepositoryOperation::Mission)),
        PreparedMissionAction::Archive(id) => r == Ok::<MissionDispatch, CliError>(MissionDispatch::Mutate(
            MutationOperation::MissionArchive(MissionTarget { mission_id: id }), RepositoryOperation::Mission)),
        PreparedMissionAction::Delete(id) => r == Ok::<MissionDispatch, CliError>(MissionDispatch::Mutate(
            MutationOperation::MissionDelete(MissionTarget { mission_id: id }), RepositoryOperation::Mission)),
        PreparedMissionAction::Suggest(c) => r == Ok::<MissionDispatch, CliError>(
            MissionDispatch::Mutate(MutationOperation::MissionSuggest(c), RepositoryOperation::MissionSuggestion)),
        PreparedMissionAction::Accept(id) => r == Ok::<MissionDispatch, CliError>(MissionDispatch::Mutate(
            MutationOperation::MissionAccept(MissionSuggestionTarget { suggestion_id: id }),
            RepositoryOperation::MissionSuggestion)),
        PreparedMissionAction::Reject(id) => r == Ok::<MissionDispatch, CliError>(MissionDispatch::Mutate(
            MutationOperation::MissionReject(MissionSuggestionTarget { suggestion_id: id }),
            RepositoryOperation::MissionSuggestion)),
        PreparedMissionAction::SuggestionDelete(id) => r == Ok::<MissionDispatch, CliError>(MissionDispatch::Mutate(
            MutationOperation::MissionSuggestionDelete(MissionSuggestionTarget { suggestion_id: id }),
            RepositoryOperation::MissionSuggestion)),
    }
}

/// Each mutation becomes its batch operation, reported under Missions or
/// under suggestions; the two listings are reads and refuse `--dry-run`.
pub fn mission_dispatch(action: PreparedMissionAction, dry_run: bool) -> (r: Result<MissionDispatch, CliError>)
    ensures
        mission_dispatch_holds(action, dry_run, r),
{
    match action {
        PreparedMissionAction::List(q) => if dry_run {
            Err(read_only_refusal("read Missions"))
        } else {
            Ok(MissionDispatch::ListMissions(q))
        },
        PreparedMissionAction::SuggestionList(q) => if dry_run {
            Err(read_only_refusal("read Missions"))
        } else {
            Ok(MissionDispatch::ListSuggestions(q))
        },
        PreparedMissionAction::Create(c) => Ok(
            MissionDispatch::Mutate(MutationOperation::MissionCreate(c), RepositoryOperation::Mission)),
        PreparedMissionAction::Update(c) => Ok(
            MissionDispatch::Mutate(MutationOperation::MissionUpdate(c), RepositoryOperation::Mission)),
        PreparedMissionAction::Complete(id) => Ok(MissionDispatch::Mutate(
            MutationOperation::MissionComplete(MissionTarget { mission_id: id }), RepositoryOperation::Mission)),
        PreparedMissionAction::Archive(id) => Ok(MissionDispatch::Mutate(
            MutationOperation::MissionArchive(MissionTarget { mission_id: id }), RepositoryOperation::Mission)),
        PreparedMissionAction::Delete(id) => Ok(MissionDispatch::Mutate(
            MutationOperation::MissionDelete(MissionTarget { mission_id: id }), RepositoryOperation::Mission)),
        PreparedMissionAction::Suggest(c) => Ok(
            MissionDispatch::Mutate(MutationOperation::MissionSuggest(c), RepositoryOperation::MissionSuggestion)),
        PreparedMissionAction::Accept(id) => Ok(MissionDispatch::Mutate(
            MutationOperation::MissionAccept(MissionSuggestionTarget { suggestion_id: id }),
            RepositoryOperation::MissionSuggestion)),
        PreparedMissionAction::Reject(id) => Ok(MissionDispatch::Mutate(
            MutationOperation::MissionReject(MissionSuggestionTarget { suggestion_id: id }),
            RepositoryOperation::MissionSuggestion)),
        PreparedMissionAction::SuggestionDelete(id) => Ok(MissionDispatch::Mutate(
            MutationOperation::MissionSuggestionDelete(MissionSuggestionTarget { suggestion_id: id }),
            RepositoryOperation::MissionSuggestion)),
    }
}

// ---------------------------------------------------------------------------
// Assistant memory
// ---------------------------------------------------------------------------

#[derive(Debug)]
pub enum MemoryAction<S> {
    List { memory_id: Option<S>, kind: Option<AssistantMemoryKindArg> },
    Create { file: Option<S> },
    Update { file: Option<S> },
    Delete { memory_id: S },
}

#[derive(Debug)]
pub enum PreparedMemoryAction {
    List(QueryAssistantMemory),
    Create(CreateAssistantMemory),
    Update(UpdateAssistantMemory),
    Delete(String),
}

#[derive(Debug, Clone, Copy, PartialEq, Eq, Structural)]
pub enum MemoryInputKind {
    Create,
    Update,
}

#[derive(Debug)]
pub enum MemoryPreparation<S> {
    Ready(PreparedMemoryAction),
    Input { file: Option<S>, kind: MemoryInputKind },
}

pub open spec fn memory_input_operation_spec(k: MemoryInputKind) -> Seq<char> {
    match k {
        MemoryInputKind::Create => "create AssistantMemory"@,
        MemoryInputKind::Update => "update AssistantMemory"@,
    }
}

pub fn memory_input_operation(k: MemoryInputKind) -> (r: &'static str)
    ensures
        r@ == memory_input_operation_spec(k),
{
    match k {
        MemoryInputKind::Create => "create AssistantMemory",
        MemoryInputKind::Update => "update AssistantMemory",
    }
}

pub open spec fn prepare_memory_spec(action: MemoryAction<String>) -> MemoryPreparation<String> {
    match action {
        MemoryAction::List { memory_id, kind } => MemoryPreparation::Ready(PreparedMemoryAction::List(
            QueryAssistantMemory { memory_id, kind: opt_map(kind, |a: AssistantMemoryKindArg| memory_kind_spec(a)) },
        )),
        MemoryAction::Create { file } => MemoryPreparation::Input { file, kind: MemoryInputKind::Create },
        MemoryAction::Update { file } => MemoryPreparation::Input { file, kind: MemoryInputKind::Update },
        MemoryAction::Delete { memory_id } => MemoryPreparation::Ready(PreparedMemoryAction::Delete(memory_id)),
    }
}

/// The list filters become a typed query; creating and updating name the
/// JSON document they take.
pub fn prepare_memory_action(action: MemoryAction<String>) -> (r: MemoryPreparation<String>)
    ensures
        r == prepare_memory_spec(action),
{
    match action {
        MemoryAction::List { memory_id, kind } => {
            let kind = match kind {
                Some(a) => Some(memory_kind_of(a)),
                None => None,
            };
            MemoryPreparation::Ready(PreparedMemoryAction::List(QueryAssistantMemory { memory_id, kind }))
        },
        MemoryAction::Create { file } => MemoryPreparation::Input { file, kind: MemoryInputKind::Create },
        MemoryAction::Update { file } => MemoryPreparation::Input { file, kind: MemoryInputKind::Update },
        MemoryAction::Delete { memory_id } => MemoryPreparation::Ready(PreparedMemoryAction::Delete(memory_id)),
    }
}

#[derive(Debug)]
pub enum MemoryDispatch {
    Mutate(MutationOperation, RepositoryOperation),
    List(QueryAssistantMemory),
}

pub open spec fn memory_dispatch_holds(action: PreparedMemoryAction, dry_run: bool, r: Result<MemoryDispatch, CliError>) -> bool {
    match action {
        PreparedMemoryAction::List(q) => if dry_run {
            r matches Err(e) && dry_run_refusal(e, "list AssistantMemory"@)
        } else {
            r == Ok::<MemoryDispatch, CliError>(MemoryDispatch::List(q))
        },
        PreparedMemoryAction::Create(c) => r == Ok::<MemoryDispatch, CliError>(
            MemoryDispatch::Mutate(MutationOperation::MemoryCreate(c), RepositoryOperation::Memory)),
        PreparedMemoryAction::Update(c) => r == Ok::<MemoryDispatch, CliError>(
            MemoryDispatch::Mutate(MutationOperation::MemoryUpdate(c), RepositoryOperation::Memory)),
        PreparedMemoryAction::Delete(id) => r == Ok::<MemoryDispatch, CliError>(MemoryDispatch::Mutate(
            MutationOperation::MemoryDelete(AssistantMemoryTarget { memory_id: id }), RepositoryOperation::Memory)),
    }
}

/// Each mutation becomes its batch operation, reported under assistant
/// memory; the listing is a read and refuses `--dry-run`.
pub fn memory_dispatch(action: PreparedMemoryAction, dry_run: bool) -> (r: Result<MemoryDispatch, CliError>)
    ensures
        memory_dispatch_holds(action, dry_run, r),
{
    match action {
        PreparedMemoryAction::List(q) => if dry_run {
            Err(read_only_refusal("list AssistantMemory"))
        } else {
            Ok(MemoryDispatch::List(q))
        },
        PreparedMemoryAction::Create(c) => Ok(
            MemoryDispatch::Mutate(MutationOperation::MemoryCreate(c), RepositoryOperation::Memory)),
        PreparedMemoryAction::Update(c) => Ok(
            MemoryDispatch::Mutate(MutationOperation::MemoryUpdate(c), RepositoryOperation::Memory)),
        PreparedMemoryAction::Delete(id) => Ok(MemoryDispatch::Mutate(
            MutationOperation::MemoryDelete(AssistantMemoryTarget { memory_id: id }), RepositoryOperation::Memory)),
    }
}

// ---------------------------------------------------------------------------
// Achievements and Skills
// ---------------------------------------------------------------------------

#[derive(Debug)]
pub enum AchievementAction<S> {
    List {
        achievement_id: Option<S>,
        pack: Option<S>,
        status: Option<AchievementStatusArg>,
        related_record_definition_id: Option<S>,
    },
    StateSet { file: Option<S> },
    StateRevoke { achievement_id: S },
}

#[derive(Debug)]
pub enum PreparedAchievementAction {
    List(QueryAchievements),
    StateSet(SetAchievementState),
    StateRevoke(String),
}

/// What an Achievement action needs: nothing, or the JSON document of the
/// state to set.
#[derive(Debug)]
pub enum AchievementPreparation<S> {
    Ready(PreparedAchievementAction),
    StateInput { file: Option<S> },
}

/// The operation an Achievement state document is read for.
pub const ACHIEVEMENT_STATE_INPUT: &'static str = "set Achievement state";

pub open spec fn prepare_achievement_spec(action: AchievementAction<String>) -> AchievementPreparation<String> {
    match action {
        AchievementAction::List { achievement_id, pack, status, related_record_definition_id } => AchievementPreparation::Ready(
            PreparedAchievementAction::List(QueryAchievements {
                achievement_id,
                pack_id: pack,
                status: opt_map(status, |a: AchievementStatusArg| achievement_status_spec(a)),
                related_record_definition_id,
            }),
        ),
        AchievementAction::StateSet { file } => AchievementPreparation::StateInput { file },
        AchievementAction::StateRevoke { achievement_id } => AchievementPreparation::Ready(
            PreparedAchievementAction::StateRevoke(achievement_id),
        ),
    }
}

/// The list filters become a typed query (`--pack` filters by Pack);
/// setting a state names the JSON document it takes.  Every Achievement
/// failure is reported under `RepositoryOperation::Achievement`.
pub fn prepare_achievement_action(action: AchievementAction<String>) -> (r: AchievementPreparation<String>)
    ensures
        r == prepare_achievement_spec(action),
{
    match action {
        AchievementAction::List { achievement_id, pack, status, related_record_definition_id } => {
            let status = match status {
                Some(a) => Some(achievement_status_of(a)),
                None => None,
            };
            AchievementPreparation::Ready(PreparedAchievementAction::List(QueryAchievements {
                achievement_id,
                pack_id: pack,
                status,
                related_record_definition_id,
            }))
        },
        AchievementAction::StateSet { file } => AchievementPreparation::StateInput { file },
        AchievementAction::StateRevoke { achievement_id } => AchievementPreparation::Ready(
            PreparedAchievementAction::StateRevoke(achievement_id),
        ),
    }
}

#[derive(Debug)]
pub enum SkillAction<S> {
    List { skill_id: Option<S>, pack: Option<S> },
}

/// The Skill listing's query: `--pack` filters by Pack.  Skill failures are
/// reported under `RepositoryOperation::Skill`.
pub fn skill_query(action: SkillAction<String>) -> (r: QuerySkills)
    ensures
        match action {
            SkillAction::List { skill_id, pack } => r == QuerySkills { skill_id, pack_id: pack },
        },
{
    match action {
        SkillAction::List { skill_id, pack } => QuerySkills { skill_id, pack_id: pack },
    }
}

// ---------------------------------------------------------------------------
// Status
// ---------------------------------------------------------------------------

#[derive(Debug)]
pub enum StatusAction<S> {
    ListDimensions,
    Evaluate { dimension_id: Option<S> },
    Select { position: u8, dimension_id: Option<S>, clear: bool },
}

#[derive(Debug, PartialEq, Eq)]
pub enum PreparedStatusAction {
    ListDimensions,
    Evaluate(Option<String>),
    Select { position: u8, dimension_id: String },
    Clear { position: u8 },
}

/// The details of a refused selection: the position.
pub open spec fn position_details(position: u8) -> spec_fn(Seq<(String, JsonValue)>) -> bool {
    |d: Seq<(String, JsonValue)>| d.len() == 1 && d[0].0@ == "position"@ && d[0].1 == JsonValue::PosInt(position as u64)
}

pub open spec fn prepare_status_holds(action: StatusAction<String>, r: Result<PreparedStatusAction, CliError>) -> bool {
    match action {
        StatusAction::ListDimensions => r == Ok::<PreparedStatusAction, CliError>(PreparedStatusAction::ListDimensions),
        StatusAction::Evaluate { dimension_id } => r == Ok::<PreparedStatusAction, CliError>(
            PreparedStatusAction::Evaluate(dimension_id)),
        StatusAction::Select { position, dimension_id, clear } => match (dimension_id, clear) {
            (Some(id), false) => r == Ok::<PreparedStatusAction, CliError>(
                PreparedStatusAction::Select { position, dimension_id: id }),
            (None, true) => r == Ok::<PreparedStatusAction, CliError>(PreparedStatusAction::Clear { position }),
            (Some(_), true) => r matches Err(e) && input_refusal(e, "select Status Dimension"@,
                "dimension_id and --clear cannot be used together"@, position_details(position)),
            (None, false) => r matches Err(e) && input_refusal(e, "select Status Dimension"@,
                "dimension_id is required unless --clear is used"@, position_details(position)),
        },
    }
}

fn selection_refusal(position: u8, message: &str) -> (r: CliError)
    ensures
        input_refusal(r, "select Status Dimension"@, message@, position_details(position)),
{
    let mut details: Vec<(String, JsonValue)> = Vec::new();
    details.push((String::from_str("position"), JsonValue::PosInt(position as u64)));
    let ghost d = details@;
    let r = CliError::invalid_command_input("select Status Dimension", String::from_str(message), details);
    proof {
        let entries = r.details->CommandInput_0;
        assert(position_details(position)(d) && entries_with_operation(d, "select Status Dimension"@, entries@));
    }
    r
}

/// A selection takes exactly one of a Dimension and `--clear`.
pub fn prepare_status_action(action: StatusAction<String>) -> (r: Result<PreparedStatusAction, CliError>)
    ensures
        prepare_status_holds(action, r),
{
    match action {
        StatusAction::ListDimensions => Ok(PreparedStatusAction::ListDimensions),
        StatusAction::Evaluate { dimension_id } => Ok(PreparedStatusAction::Evaluate(dimension_id)),
        StatusAction::Select { position, dimension_id, clear } => match (dimension_id, clear) {
            (Some(id), false) => Ok(PreparedStatusAction::Select { position, dimension_id: id }),
            (None, true) => Ok(PreparedStatusAction::Clear { position }),
            (Some(_), true) => Err(selection_refusal(position, "dimension_id and --clear cannot be used together")),
            (None, false) => Err(selection_refusal(position, "dimension_id is required unless --clear is used")),
        },
    }
}

#[derive(Debug)]
pub enum StatusDispatch {
    Mutate(MutationOperation, RepositoryOperation),
    ListDimensions,
    Evaluate(Option<String>),
}

pub open spec fn status_dispatch_holds(action: PreparedStatusAction, dry_run: bool, r: Result<StatusDispatch, CliError>) -> bool {
    match action {
        PreparedStatusAction::Select { position, dimension_id } => r == Ok::<StatusDispatch, CliError>(StatusDispatch::Mutate(
            MutationOperation::StatusSelect(StatusSelectionInput { position, dimension_id }), RepositoryOperation::Status)),
        PreparedStatusAction::Clear { position } => r == Ok::<StatusDispatch, CliError>(StatusDispatch::Mutate(
            MutationOperation::StatusClear(StatusPositionInput { position }), RepositoryOperation::Status)),
        PreparedStatusAction::ListDimensions => if dry_run {
            r matches Err(e) && dry_run_refusal(e, "read Status"@)
        } else {
            r == Ok::<StatusDispatch, CliError>(StatusDispatch::ListDimensions)
        },
        PreparedStatusAction::Evaluate(id) => if dry_run {
            r matches Err(e) && dry_run_refusal(e, "read Status"@)
        } else {
            r == Ok::<StatusDispatch, CliError>(StatusDispatch::Evaluate(id))
        },
    }
}

/// Selecting and clearing become batch operations reported under Status;
/// listing and evaluating are reads and refuse `--dry-run`.
pub fn status_dispatch(action: PreparedStatusAction, dry_run: bool) -> (r: Result<StatusDispatch, CliError>)
    ensures
        status_dispatch_holds(action, dry_run, r),
{
    match action {
        PreparedStatusAction::Select { position, dimension_id } => Ok(StatusDispatch::Mutate(
            MutationOperation::StatusSelect(StatusSelectionInput { position, dimension_id }), RepositoryOperation::Status)),
        PreparedStatusAction::Clear { position } => Ok(StatusDispatch::Mutate(
            MutationOperation::StatusClear(StatusPositionInput { position }), RepositoryOperation::Status)),
        PreparedStatusAction::ListDimensions => if dry_run {
            Err(read_only_refusal("read Status"))
        } else {
            Ok(StatusDispatch::ListDimensions)
        },
        PreparedStatusAction::Evaluate(id) => if dry_run {
            Err(read_only_refusal("read Status"))
        } else {
            Ok(StatusDispatch::Evaluate(id))
        },
    }
}

// ---------------------------------------------------------------------------
// Context, Derived Values and batches
// ---------------------------------------------------------------------------

/// The context summary's one action; its failures are reported under
/// `RepositoryOperation::Context`.
#[derive(Debug, Clone, Copy, PartialEq, Eq, Structural)]
pub enum ContextAction {
    Summary,
}

#[derive(Debug)]
pub enum DerivedAction<S> {
    List { as_of: Option<S> },
    Evaluate { id: S, as_of: Option<S> },
}

/// The details of a refused date: the text given.
pub open spec fn as_of_details(value: String) -> spec_fn(Seq<(String, JsonValue)>) -> bool {
    |d: Seq<(String, JsonValue)>| d.len() == 1 && d[0].0@ == "as_of"@ && d[0].1 == JsonValue::Str(value)
}

/// The evaluation date of a Derived Value command: the `--as-of` date read
/// as `%Y-%m-%d`, or `None` for today; text that is no such date is refused.
pub fn derived_as_of(as_of: Option<String>) -> (r: Result<Option<CalendarDate>, CliError>)
    ensures
        match as_of {
            None => r == Ok::<Option<CalendarDate>, CliError>(None),
            Some(t) => match chrono_ymd(t@) {
                Some((y, m, d)) => r == Ok::<Option<CalendarDate>, CliError>(Some(CalendarDate { year: y, month: m, day: d })),
                None => r matches Err(e) && input_refusal(e, "evaluate DerivedValue"@,
                    "--as-of must be a valid YYYY-MM-DD date"@, as_of_details(t)),
            },
        },
{
    match as_of {
        None => Ok(None),
        Some(t) => match parse_ymd_date(t.as_str()) {
            Some(d) => Ok(Some(d)),
            None => {
                let ghost given = t;
                let mut details: Vec<(String, JsonValue)> = Vec::new();
                details.push((String::from_str("as_of"), JsonValue::Str(t)));
                let ghost d = details@;
                let r = CliError::invalid_command_input(
                    "evaluate DerivedValue",
                    String::from_str("--as-of must be a valid YYYY-MM-DD date"),
                    details,
                );
                proof {
                    let entries = r.details->CommandInput_0;
                    assert(as_of_details(given)(d) && entries_with_operation(d, "evaluate DerivedValue"@, entries@));
                }
                Err(r)
            },
        },
    }
}

#[derive(Debug)]
pub enum BatchAction<S> {
    Apply { file: Option<S> },
}

/// The operation a batch document is read for.
pub const BATCH_INPUT: &'static str = "apply mutation batch";

/// Whether an operation changes Records.
pub open spec fn is_record_operation(op: MutationOperation) -> bool {
    match op {
        MutationOperation::RecordSet(_) | MutationOperation::RecordIncrement(_) | MutationOperation::RecordCorrect(_)
        | MutationOperation::RecordCreateEmptyCollection(_) | MutationOperation::RecordCreateEmptyEvent(_)
        | MutationOperation::RecordAddItem(_) | MutationOperation::RecordCorrectItem(_)
        | MutationOperation::RecordRemoveItem(_) | MutationOperation::RecordAppendEvent(_)
        | MutationOperation::RecordCorrectEvent(_) | MutationOperation::RecordDeleteEvent(_)
        | MutationOperation::RecordDelete(_) => true,
        _ => false,
    }
}

fn record_operation(op: &MutationOperation) -> (r: bool)
    ensures
        r == is_record_operation(*op),
{
    match op {
        MutationOperation::RecordSet(_) | MutationOperation::RecordIncrement(_) | MutationOperation::RecordCorrect(_)
        | MutationOperation::RecordCreateEmptyCollection(_) | MutationOperation::RecordCreateEmptyEvent(_)
        | MutationOperation::RecordAddItem(_) | MutationOperation::RecordCorrectItem(_)
        | MutationOperation::RecordRemoveItem(_) | MutationOperation::RecordAppendEvent(_)
        | MutationOperation::RecordCorrectEvent(_) | MutationOperation::RecordDeleteEvent(_)
        | MutationOperation::RecordDelete(_) => true,
        _ => false,
    }
}

/// A batch of more than one operation takes Record operations only; other
/// mutations go through their own commands one at a time.
pub fn check_batch_operations(ops: &Vec<MutationOperation>) -> (r: Result<(), CliError>)
    ensures
        (ops@.len() > 1 && exists|k: int| 0 <= k < ops@.len() && !is_record_operation(#[trigger] ops@[k]))
            ==> (r matches Err(e) && input_refusal(e, BATCH_INPUT@,
                "a batch of more than one operation takes Record operations only"@, no_details())),
        !(ops@.len() > 1 && exists|k: int| 0 <= k < ops@.len() && !is_record_operation(#[trigger] ops@[k]))
            ==> r is Ok,
{
    if ops.len() <= 1 {
        return Ok(());
    }
    let mut k: usize = 0;
    while k < ops.len()
        invariant
            k <= ops@.len(),
            ops@.len() > 1,
            forall|j: int| 0 <= j < k ==> is_record_operation(#[trigger] ops@[j]),
        decreases ops.len() - k,
    {
        if !record_operation(&ops[k]) {
            assert(!is_record_operation(ops@[k as int]));
            return Err(empty_refusal(BATCH_INPUT, "a batch of more than one operation takes Record operations only"));
        }
        k = k + 1;
    }
    Ok(())
}

} // verus!
