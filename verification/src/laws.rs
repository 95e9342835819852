//! What holds of the library as a whole: across commands, across repeated
//! calls, and of every state the commands reach.
use vstd::prelude::*;
use crate::agent::access::{entry_admits, is_allowed_spec};
use crate::agent::config::{apply_env_spec, merge_spec, overlay, AgentConfigModel, EnvOverrides, PartialConfig};
use crate::agent::session::{cut_point, is_user_text, user_text};
use crate::commands::mutation_commands::{
    batch_outcome, op_outcome, operation_name_spec, pack_enabled_outcome, results_match, run_holds, step_holds,
    MutationBatchError, MutationBatchResult, MutationOperation, MutationValue,
};
use crate::commands::record_commands::{create_record_spec, put_record_spec, store_spec, with_record};
use crate::error::{RepositoryError, RepositoryErrorCode, RepositoryResult};
use crate::json::JsonValue;
use crate::record::RecordModel;
use crate::repository::{record_is, RepositoryModel};
use crate::order::{lemma_seq_lt_irreflexive, lemma_seq_lt_total, lemma_seq_lt_transitive};
use crate::pack::PackModel;
use crate::pack_store::{
    forest_valid, ids_sorted, ids_with, ids_without, name_sorts_after, pack_sorts_after, packs_sorted, packs_with,
    put_pack_ok,
};
use crate::repository::pack_is;
use crate::repository::name_is;
use crate::commands::memory_commands::{update_memory_outcome, AssistantMemoryResult, UpdateAssistantMemory};
use crate::commands::mission_commands::{
    archived_mission, complete_outcome, completed_mission, has_child, MissionDeleteResult, MissionResult,
    MissionSuggestionResult, UpdateMission,
};
use crate::commands::mutation_commands::{
    mission_archive_outcome, mission_delete_outcome, mission_update_outcome, suggestion_reject_outcome,
};
use crate::repository::{mission_is, suggestion_is};
use crate::seqs::{first_match, is_first_match, lemma_first_match_is, lemma_first_match_some, lemma_first_match_update};
use crate::state::{
    AchievementState, DashboardMissionSlot, MissionStatus, MissionSuggestion, MissionSuggestionStatus,
    StatusDimensionSelection, STATUS_POSITION_COUNT,
};
use crate::commands::achievement_commands::{same_state, set_state_outcome, AchievementStateResult, SetAchievementState};
use crate::commands::mission_dashboard_commands::{select_outcome, DashboardMissionSelectionResult};
use crate::commands::mutation_commands::{status_clear_outcome, status_select_outcome};
use crate::commands::record_query::{QueryRecords, selected};
use crate::legacy_achievements::{achieve_refusal, find_def, missing, status_of, AchievementDef};
use crate::record::RecordDefinitionModel;
use crate::commands::status_commands::{position_taken_by, StatusSelectionResult};
use crate::repository::{position_is, state_is};
use crate::text::seq_lt;

use crate::commands::memory_commands::{
    create_memory_outcome, new_memory, AssistantMemoryDeleteResult, CreateAssistantMemory,
};
use crate::commands::mission_commands::{
    accept_outcome, accepted_mission, create_outcome, new_mission, new_suggestion, suggest_outcome, updated_mission,
    CreateMission, MissionSuggestionDeleteResult, SuggestMission,
};
use crate::commands::mutation_commands::{memory_delete_outcome, suggestion_delete_outcome};
use crate::commands::achievement_commands::revoke_state_outcome;
use crate::repository::{memory_is, memory_key, mission_key, state_key, suggestion_key};
use crate::seqs::{lemma_first_match_none, lemma_keys_unique_push, lemma_keys_unique_remove, lemma_keys_unique_update};
use crate::state::AssistantMemory;

use crate::commands::achievement_commands::{
    all_entries, entries_sorted, has_entry, other_id, query_filter, resolved_entries, resolved_entry,
    unresolved_filter, unresolved_mapper, AchievementEntryModel, QueryAchievements,
};
use crate::catalog::achievements_of;
use crate::pack::AchievementModel;
use crate::seqs::{
    keys_unique, lemma_keys_unique_filter, lemma_permutation_map, lemma_keys_unique_permutation, lemma_keys_unique_push_fresh,
    lemma_pairwise_filter, pairwise,
};

use crate::commands::skill_commands::{
    has_skill_id, lemma_sort_by_id_is_stable, sort_by_id,
    achieved_node_count, achieved_points, evaluations_of, evaluations_sorted, pack_evaluations, pack_matches,
    saturated, skill_evaluation, skill_matches, QuerySkills, SkillEvaluationModel,
};
use crate::catalog::{enabled_packs, pack_skills};
use crate::pack::SkillModel;

use crate::commands::context_commands::{
    active_filter, context_mission_holds, is_active, summary_holds, ContextMission, ContextSummary,
};
use crate::date::CalendarDate;

verus! {

// ---------------------------------------------------------------------------
// Batches and refusals
// ---------------------------------------------------------------------------

/// A refused operation changes nothing.
pub proof fn law_refused_operation_changes_nothing<F: Fn(&JsonValue, &JsonValue) -> Option<JsonValue>>(
    m: RepositoryModel,
    op: MutationOperation,
    at: String,
    add: F,
    r: RepositoryResult<MutationValue>,
    fm: RepositoryModel,
)
    requires
        op_outcome(m, op, at, add, r, fm),
        r is Err,
    ensures
        fm == m,
{
}

/// A batch that fails leaves the repository as it was, whatever operations
/// ran before the one that failed.
pub proof fn law_failed_batch_changes_nothing<F: Fn(&JsonValue, &JsonValue) -> Option<JsonValue>>(
    m: RepositoryModel,
    ops: Seq<MutationOperation>,
    dry_run: bool,
    at: String,
    add: F,
    r: Result<MutationBatchResult, MutationBatchError>,
    fm: RepositoryModel,
)
    requires
        batch_outcome(m, ops, dry_run, at, add, r, fm),
        r is Err,
    ensures
        fm == m,
{
}

/// A dry run leaves the repository as it was, whether it succeeds or not.
pub proof fn law_dry_run_changes_nothing<F: Fn(&JsonValue, &JsonValue) -> Option<JsonValue>>(
    m: RepositoryModel,
    ops: Seq<MutationOperation>,
    at: String,
    add: F,
    r: Result<MutationBatchResult, MutationBatchError>,
    fm: RepositoryModel,
)
    requires
        batch_outcome(m, ops, true, at, add, r, fm),
    ensures
        fm == m,
{
}

/// A batch that succeeds reports one result per operation, in order, named
/// after its operation.
pub proof fn law_batch_reports_every_operation<F: Fn(&JsonValue, &JsonValue) -> Option<JsonValue>>(
    m: RepositoryModel,
    ops: Seq<MutationOperation>,
    dry_run: bool,
    at: String,
    add: F,
    res: MutationBatchResult,
    fm: RepositoryModel,
)
    requires
        batch_outcome(m, ops, dry_run, at, add, Ok(res), fm),
    ensures
        res.operations@.len() == ops.len(),
        forall|i: int| 0 <= i < ops.len() ==> {
            &&& (#[trigger] res.operations@[i]).index == i
            &&& res.operations@[i].operation@ == operation_name_spec(ops[i])
        },
{
    let (states, values) = choose|states: Seq<RepositoryModel>, values: Seq<MutationValue>|
        #[trigger] run_holds(states, ops, ops.len() as int, at, add, values)
            && states[0] == m
            && results_match(res.operations@, ops, values)
            && fm == (if dry_run { m } else { states[ops.len() as int] });
    assert(results_match(res.operations@, ops, values));
}

/// An empty batch is refused.
pub proof fn law_empty_batch_is_refused<F: Fn(&JsonValue, &JsonValue) -> Option<JsonValue>>(
    m: RepositoryModel,
    dry_run: bool,
    at: String,
    add: F,
    r: Result<MutationBatchResult, MutationBatchError>,
    fm: RepositoryModel,
)
    requires
        batch_outcome(m, Seq::empty(), dry_run, at, add, r, fm),
    ensures
        r matches Err(e) && e.operation_index is None && e.source.code == RepositoryErrorCode::ValidationFailed,
        fm == m,
{
}

// ---------------------------------------------------------------------------
// Records
// ---------------------------------------------------------------------------

/// Creating a Record where one exists is refused: an explicitly empty
/// collection or event Record never clears existing data.
pub proof fn law_create_never_replaces(m: RepositoryModel, rec: RecordModel)
    requires
        m.record(rec.definition_id()@) is Some,
    ensures
        create_record_spec(m, rec) == Err::<(RecordModel, RepositoryModel), RepositoryErrorCode>(RepositoryErrorCode::Conflict),
{
}

/// A stored Record is what a read of its definition then gives.
pub proof fn law_read_after_write(m: RepositoryModel, rec: RecordModel, fm: RepositoryModel)
    requires
        put_record_spec(m, rec) == Ok::<RepositoryModel, RepositoryErrorCode>(fm),
    ensures
        fm.record(rec.definition_id()@) == Some(rec),
{
    let id = rec.definition_id()@;
    assert(fm == with_record(m, rec));
    match m.record_index(id) {
        Some(i) => {
            lemma_first_match_some(m.records, record_is(id));
            assert(is_first_match(fm.records, record_is(id), i));
            lemma_first_match_is(fm.records, record_is(id), i);
        },
        None => {
            let n = m.records.len() as int;
            assert forall|j: int| 0 <= j < n implies !record_is(id)(#[trigger] fm.records[j]) by {
                assert(fm.records[j] == m.records[j]);
                if record_is(id)(m.records[j]) {
                    assert(exists|k: int| 0 <= k < m.records.len() && #[trigger] record_is(id)(m.records[k]));
                }
            }
            assert(is_first_match(fm.records, record_is(id), n));
            lemma_first_match_is(fm.records, record_is(id), n);
        },
    }
}

/// Storing a Record leaves the Records of other definitions as they were.
pub proof fn law_write_leaves_other_records(m: RepositoryModel, rec: RecordModel, fm: RepositoryModel, other: Seq<char>)
    requires
        put_record_spec(m, rec) == Ok::<RepositoryModel, RepositoryErrorCode>(fm),
        other != rec.definition_id()@,
    ensures
        fm.record(other) == m.record(other),
{
    let id = rec.definition_id()@;
    assert(fm == with_record(m, rec));
    let n = m.records.len() as int;
    assert(!record_is(other)(rec));
    match m.record_index(id) {
        Some(k) => {
            lemma_first_match_some(m.records, record_is(id));
            assert(fm.records == m.records.update(k, rec));
            assert(!record_is(other)(m.records[k]));
        },
        None => {
            assert(fm.records == m.records.push(rec));
        },
    }
    assert forall|j: int| 0 <= j < n implies
        record_is(other)(#[trigger] fm.records[j]) == record_is(other)(m.records[j]) by {
        match m.record_index(id) {
            Some(k) => {
                if j == k {
                    lemma_first_match_some(m.records, record_is(id));
                }
            },
            None => {},
        }
    }
    assert(fm.records.len() == n || (fm.records.len() == n + 1 && !record_is(other)(fm.records[n])));
    match m.record_index(other) {
        Some(i) => {
            lemma_first_match_some(m.records, record_is(other));
            assert(record_is(other)(fm.records[i]));
            assert forall|j: int| 0 <= j < i implies !record_is(other)(#[trigger] fm.records[j]) by {
                assert(!record_is(other)(m.records[j]));
            }
            assert(is_first_match(fm.records, record_is(other), i));
            lemma_first_match_is(fm.records, record_is(other), i);
            if fm.records[i] != m.records[i] {
                match m.record_index(id) {
                    Some(k) => { assert(i != k); },
                    None => {},
                }
            }
        },
        None => {
            assert forall|j: int| 0 <= j < fm.records.len() implies !record_is(other)(#[trigger] fm.records[j]) by {
                if j < n {
                    if record_is(other)(m.records[j]) {
                        assert(exists|k: int| 0 <= k < m.records.len() && #[trigger] record_is(other)(m.records[k]));
                    }
                }
            }
        },
    }
}

// ---------------------------------------------------------------------------
// Packs
// ---------------------------------------------------------------------------

/// Enabling a Pack twice is enabling it once: the second call changes
/// nothing and says so.
pub proof fn law_enable_is_idempotent(
    m: RepositoryModel,
    id: Seq<char>,
    r1: RepositoryResult<crate::commands::pack_commands::PackEnabledState>,
    m1: RepositoryModel,
    r2: RepositoryResult<crate::commands::pack_commands::PackEnabledState>,
    m2: RepositoryModel,
    enabled: bool,
)
    requires
        ids_sorted(m.enabled_pack_ids),
        pack_enabled_outcome(m, id, enabled, r1, m1),
        r1 is Ok,
        pack_enabled_outcome(m1, id, enabled, r2, m2),
    ensures
        m2 == m1,
        r2 matches Ok(s) && !s.changed && s.enabled == enabled,
{
    let ids = m.enabled_pack_ids;
    if m.pack_index(id) is Some && enabled != m.is_enabled(id) {
        if enabled {
            assert(m1.enabled_pack_ids == ids_with(ids, id));
            match first_match(ids, name_is(id)) {
                Some(_) => {},
                None => match first_match(ids, name_sorts_after(id)) {
                    Some(j) => {
                        lemma_first_match_some(ids, name_sorts_after(id));
                        assert(ids.insert(j, id)[j] == id);
                        assert(name_is(id)(m1.enabled_pack_ids[j]));
                        assert(exists|k: int| 0 <= k < m1.enabled_pack_ids.len() && #[trigger] name_is(id)(m1.enabled_pack_ids[k]));
                    },
                    None => {
                        let n = ids.len() as int;
                        assert(name_is(id)(m1.enabled_pack_ids[n]));
                        assert(exists|k: int| 0 <= k < m1.enabled_pack_ids.len() && #[trigger] name_is(id)(m1.enabled_pack_ids[k]));
                    },
                },
            }
            assert(m1.is_enabled(id));
        } else {
            lemma_first_match_some(ids, name_is(id));
            let i = first_match(ids, name_is(id))->0;
            assert(m1.enabled_pack_ids == ids.remove(i));
            assert forall|k: int| 0 <= k < ids.remove(i).len() implies !name_is(id)(#[trigger] ids.remove(i)[k]) by {
                if k < i {
                    assert(ids.remove(i)[k] == ids[k]);
                } else {
                    assert(ids.remove(i)[k] == ids[k + 1]);
                    assert(seq_lt(ids[i], ids[k + 1]));
                    lemma_seq_lt_irreflexive(ids[i]);
                }
            }
            assert(!m1.is_enabled(id));
        }
    }
}

// ---------------------------------------------------------------------------
// The assistant
// ---------------------------------------------------------------------------

/// A configuration file that sets nothing changes nothing.
pub proof fn law_empty_layer_changes_nothing(c: AgentConfigModel)
    ensures
        merge_spec(c, PartialConfig {
            base_url: None,
            api_key: None,
            model: None,
            max_tokens: None,
            max_iterations: None,
            timeout_secs: None,
            telegram: None,
        }) == c,
        apply_env_spec(c, EnvOverrides {
            base_url: None,
            auth_token: None,
            api_key: None,
            model: None,
            max_tokens: None,
            timeout_secs: None,
            teloxide_token: None,
            telegram_token: None,
        }) == c,
{
}

/// Of two layers, the later non-empty value wins.
pub proof fn law_later_layer_wins(current: Seq<char>, earlier: Option<String>, later: String)
    requires
        later@.len() > 0,
    ensures
        overlay(overlay(current, earlier), Some(later)) == later@,
{
}

/// An empty access list admits no one.
pub proof fn law_empty_access_list_admits_no_one(sender_id: Seq<char>, username: Seq<char>)
    ensures
        !is_allowed_spec(sender_id, username, Seq::empty()),
{
}

/// The wildcard admits everyone.
pub proof fn law_wildcard_admits_everyone(sender_id: Seq<char>, username: Seq<char>, allow_from: Seq<String>, k: int)
    requires
        0 <= k < allow_from.len(),
        allow_from[k]@ == "*"@,
    ensures
        is_allowed_spec(sender_id, username, allow_from),
{
    assert(entry_admits(allow_from[k]@, sender_id, username));
}

/// Trimmed history keeps at most `max` messages; history that was cut
/// starts with a message the user wrote whenever one is among the last
/// `max`.
pub proof fn law_trimmed_history_fits(ms: Seq<crate::agent::messages::Message>, max: int)
    requires
        0 <= max,
    ensures
        0 <= cut_point(ms, max) <= ms.len(),
        ms.len() - cut_point(ms, max) <= max,
        ms.len() > max && (exists|i: int| ms.len() - max <= i < ms.len() && #[trigger] is_user_text(ms[i]))
            ==> is_user_text(ms[cut_point(ms, max)]),
{
    if ms.len() > max {
        let desired = ms.len() - max;
        let tail = ms.skip(desired);
        if exists|i: int| ms.len() - max <= i < ms.len() && #[trigger] is_user_text(ms[i]) {
            let i = choose|i: int| ms.len() - max <= i < ms.len() && #[trigger] is_user_text(ms[i]);
            assert(user_text()(tail[i - desired]));
            assert(exists|k: int| 0 <= k < tail.len() && #[trigger] user_text()(tail[k]));
            lemma_first_match_some(tail, user_text());
        }
        match first_match(tail, user_text()) {
            Some(j) => {
                lemma_first_match_some(tail, user_text());
                assert(user_text()(tail[j]));
                assert(tail[j] == ms[desired + j]);
            },
            None => {},
        }
    }
}

// ---------------------------------------------------------------------------
// Missions and memory
// ---------------------------------------------------------------------------

/// Editing a Mission keeps its identity, status, creation and completion.
pub proof fn law_mission_update_keeps_identity(m: RepositoryModel, c: UpdateMission, res: MissionResult, fm: RepositoryModel)
    requires
        mission_update_outcome(m, c, Ok(res), fm),
    ensures
        m.mission(c.mission_id@) matches Some(cur) && {
            &&& res.mission.id == cur.id
            &&& res.mission.created_at == cur.created_at
            &&& res.mission.status == cur.status
            &&& res.mission.completed_at == cur.completed_at
        },
{
}

/// Completing a Mission twice is completing it once.
pub proof fn law_complete_is_idempotent(
    m: RepositoryModel,
    id: Seq<char>,
    at1: String,
    r1: MissionResult,
    m1: RepositoryModel,
    at2: String,
    r2: RepositoryResult<MissionResult>,
    m2: RepositoryModel,
)
    requires
        complete_outcome(m, id, at1, Ok(r1), m1),
        complete_outcome(m1, id, at2, r2, m2),
    ensures
        m2 == m1,
        r2 matches Ok(res) && !res.changed && res.mission == r1.mission,
{
    lemma_first_match_some(m.missions, mission_is(id));
    let i = m.mission_index(id)->0;
    if m.missions[i].status == MissionStatus::Active {
        lemma_first_match_update(m.missions, mission_is(id), i, completed_mission(m.missions[i], at1));
    }
}

/// Archiving a Mission twice is archiving it once.
pub proof fn law_archive_is_idempotent(
    m: RepositoryModel,
    id: Seq<char>,
    r1: MissionResult,
    m1: RepositoryModel,
    r2: RepositoryResult<MissionResult>,
    m2: RepositoryModel,
)
    requires
        mission_archive_outcome(m, id, Ok(r1), m1),
        mission_archive_outcome(m1, id, r2, m2),
    ensures
        m2 == m1,
        r2 matches Ok(res) && !res.changed && res.mission == r1.mission,
{
    lemma_first_match_some(m.missions, mission_is(id));
    let i = m.mission_index(id)->0;
    if m.missions[i].status != MissionStatus::Archived {
        lemma_first_match_update(m.missions, mission_is(id), i, archived_mission(m.missions[i]));
    }
}

/// Rejecting a suggestion twice is rejecting it once.
pub proof fn law_reject_is_idempotent(
    m: RepositoryModel,
    id: Seq<char>,
    r1: MissionSuggestionResult,
    m1: RepositoryModel,
    r2: RepositoryResult<MissionSuggestionResult>,
    m2: RepositoryModel,
)
    requires
        suggestion_reject_outcome(m, id, Ok(r1), m1),
        suggestion_reject_outcome(m1, id, r2, m2),
    ensures
        m2 == m1,
        r2 matches Ok(res) && !res.changed && res.suggestion == r1.suggestion,
{
    lemma_first_match_some(m.suggestions, suggestion_is(id));
    let j = m.suggestion_index(id)->0;
    let cur = m.suggestions[j];
    if cur.status != MissionSuggestionStatus::Rejected {
        lemma_first_match_update(m.suggestions, suggestion_is(id), j,
            MissionSuggestion { status: MissionSuggestionStatus::Rejected, ..cur });
    }
}

/// A Mission that another names as its parent cannot be deleted, and the
/// refusal changes nothing.
pub proof fn law_parent_is_not_deleted(
    m: RepositoryModel,
    id: Seq<char>,
    r: RepositoryResult<MissionDeleteResult>,
    fm: RepositoryModel,
)
    requires
        m.mission_index(id) is Some,
        has_child(m.missions, id),
        mission_delete_outcome(m, id, r, fm),
    ensures
        r matches Err(e) && e.code == RepositoryErrorCode::Conflict,
        fm == m,
{
}

/// Updating a memory keeps its identity and creation time, and a changed
/// memory is never updated before it was created.
pub proof fn law_memory_update_keeps_identity(
    m: RepositoryModel,
    c: UpdateAssistantMemory,
    at: String,
    res: AssistantMemoryResult,
    fm: RepositoryModel,
)
    requires
        update_memory_outcome(m, c, at, Ok(res), fm),
    ensures
        m.memory(c.memory_id@) matches Some(cur) && {
            &&& res.memory.id == cur.id
            &&& res.memory.created_at == cur.created_at
            &&& res.changed ==> !seq_lt(res.memory.updated_at@, res.memory.created_at@)
        },
{
}

/// Updating a memory with its own kind and content reports it unchanged
/// and writes nothing; any other update at a time not before its creation
/// replaces kind and content, keeps its identifier and creation time and
/// reports a change; an unknown memory is not found.
pub proof fn law_memory_update_outcomes(
    m: RepositoryModel,
    c: UpdateAssistantMemory,
    at: String,
    r: RepositoryResult<AssistantMemoryResult>,
    fm: RepositoryModel,
)
    requires
        update_memory_outcome(m, c, at, r, fm),
    ensures
        match m.memory(c.memory_id@) {
            None => r matches Err(e) && e.code == RepositoryErrorCode::NotFound && fm == m,
            Some(cur) => {
                &&& cur.kind == c.kind && cur.content@ == c.content@
                    ==> (r matches Ok(res) && !res.changed && res.memory == cur && fm == m)
                &&& !(cur.kind == c.kind && cur.content@ == c.content@) && !seq_lt(at@, cur.created_at@)
                    ==> (r matches Ok(res) && {
                        &&& res.changed
                        &&& res.memory.id == cur.id
                        &&& res.memory.created_at == cur.created_at
                        &&& res.memory.kind == c.kind
                        &&& res.memory.content == c.content
                        &&& res.memory.updated_at == at
                    })
            },
        },
{
}

// ---------------------------------------------------------------------------
// Selections and states
// ---------------------------------------------------------------------------

/// Selecting the same Dimension at the same position twice is selecting it
/// once.
pub proof fn law_status_select_is_idempotent(
    m: RepositoryModel,
    position: u8,
    id: String,
    r1: StatusSelectionResult,
    m1: RepositoryModel,
    r2: RepositoryResult<StatusSelectionResult>,
    m2: RepositoryModel,
)
    requires
        status_select_outcome(m, position, id, Ok(r1), m1),
        status_select_outcome(m1, position, id, r2, m2),
    ensures
        m2 == m1,
        r2 matches Ok(res) && !res.changed,
{
    if !position_taken_by(m.status_selections, position, id@) && position < STATUS_POSITION_COUNT {
        let sel = StatusDimensionSelection { position: position, dimension_id: id };
        let sels = m1.status_selections;
        match m.selection_index(position) {
            Some(i) => {
                lemma_first_match_some(m.status_selections, position_is(position));
                assert(sels[i] == sel);
            },
            None => {
                assert(sels[m.status_selections.len() as int] == sel);
            },
        }
        assert(position_taken_by(sels, position, id@));
    }
}

/// The status selections occupy distinct display positions.
pub open spec fn selections_valid(sels: Seq<StatusDimensionSelection>) -> bool {
    &&& forall|i: int, j: int| 0 <= i < j < sels.len() ==> (#[trigger] sels[i]).position != (#[trigger] sels[j]).position
    &&& forall|i: int| 0 <= i < sels.len() ==> (#[trigger] sels[i]).position < STATUS_POSITION_COUNT
}

/// Clearing a position twice is clearing it once.
pub proof fn law_status_clear_is_idempotent(
    m: RepositoryModel,
    position: u8,
    r1: StatusSelectionResult,
    m1: RepositoryModel,
    r2: RepositoryResult<StatusSelectionResult>,
    m2: RepositoryModel,
)
    requires
        selections_valid(m.status_selections),
        status_clear_outcome(m, position, Ok(r1), m1),
        status_clear_outcome(m1, position, r2, m2),
    ensures
        m2 == m1,
        r2 matches Ok(res) && !res.changed,
{
    match m.selection_index(position) {
        Some(i) => {
            lemma_first_match_some(m.status_selections, position_is(position));
            let sels = m.status_selections;
            let rest = sels.remove(i);
            assert forall|k: int| 0 <= k < rest.len() implies !position_is(position)(#[trigger] rest[k]) by {
                if k < i {
                    assert(rest[k] == sels[k]);
                } else {
                    assert(rest[k] == sels[k + 1]);
                }
            }
            assert(m1.selection_index(position) is None);
            assert(sels[i].position == position);
        },
        None => {},
    }
}

/// Choosing what a dashboard slot already shows changes nothing.
pub proof fn law_dashboard_select_is_idempotent(
    m: RepositoryModel,
    slot: DashboardMissionSlot,
    id: String,
    label: Option<String>,
    r1: DashboardMissionSelectionResult,
    m1: RepositoryModel,
    r2: RepositoryResult<DashboardMissionSelectionResult>,
    m2: RepositoryModel,
)
    requires
        select_outcome(m, slot, id, label, Ok(r1), m1),
        select_outcome(m1, slot, id, label, r2, m2),
    ensures
        m2 == m1,
        r2 matches Ok(res) && !res.changed,
{
}

/// Setting an Achievement to the state it has changes nothing.
pub proof fn law_set_state_is_idempotent(
    m: RepositoryModel,
    c: SetAchievementState,
    r1: AchievementStateResult,
    m1: RepositoryModel,
    r2: RepositoryResult<AchievementStateResult>,
    m2: RepositoryModel,
)
    requires
        set_state_outcome(m, c, Ok(r1), m1),
        set_state_outcome(m1, c, r2, m2),
    ensures
        m2 == m1,
        r2 matches Ok(res) && !res.changed,
{
    let state = AchievementState { status: c.status, achieved_at: c.achieved_at };
    let id = c.achievement_id@;
    let entry = (c.achievement_id, state);
    match m.state_index(id) {
        Some(i) => {
            lemma_first_match_some(m.achievement_states, state_is(id));
            if !(m.achievement_state(id) matches Some(cur) && same_state(cur, state)) {
                lemma_first_match_update(m.achievement_states, state_is(id), i, entry);
            }
        },
        None => {
            let sts = m.achievement_states;
            let n = sts.len() as int;
            let pushed = sts.push(entry);
            assert forall|k: int| 0 <= k < n implies !state_is(id)(#[trigger] pushed[k]) by {
                assert(pushed[k] == sts[k]);
                if state_is(id)(sts[k]) {
                    assert(exists|j: int| 0 <= j < sts.len() && #[trigger] state_is(id)(sts[j]));
                }
            }
            assert(is_first_match(pushed, state_is(id), n));
            lemma_first_match_is(pushed, state_is(id), n);
        },
    }
}

// ---------------------------------------------------------------------------
// The Pack store
// ---------------------------------------------------------------------------

/// Storing a Pack keeps the installed Packs in identifier order, and their
/// parent links a forest.
pub proof fn law_stored_packs_stay_ordered(m: RepositoryModel, p: PackModel)
    requires
        packs_sorted(m.packs),
        put_pack_ok(m, p),
    ensures
        packs_sorted(packs_with(m.packs, p)),
        forest_valid(packs_with(m.packs, p)),
{
    let packs = m.packs;
    let id = p.manifest.id@;
    let out = packs_with(packs, p);
    match first_match(packs, pack_is(id)) {
        Some(i) => {
            lemma_first_match_some(packs, pack_is(id));
            assert forall|a: int, b: int| 0 <= a < b < out.len() implies
                seq_lt((#[trigger] out[a]).manifest.id@, (#[trigger] out[b]).manifest.id@) by {
                assert(seq_lt(packs[a].manifest.id@, packs[b].manifest.id@));
            }
        },
        None => {
            assert forall|k: int| 0 <= k < packs.len() && !seq_lt(id, (#[trigger] packs[k]).manifest.id@)
                implies seq_lt(packs[k].manifest.id@, id) by {
                if packs[k].manifest.id@ == id {
                    assert(pack_is(id)(packs[k]));
                    assert(exists|j: int| 0 <= j < packs.len() && #[trigger] pack_is(id)(packs[j]));
                }
                lemma_seq_lt_total(packs[k].manifest.id@, id);
            }
            match first_match(packs, pack_sorts_after(id)) {
                Some(j) => {
                    lemma_first_match_some(packs, pack_sorts_after(id));
                    assert(out == packs.insert(j, p));
                    assert forall|a: int, b: int| 0 <= a < b < out.len() implies
                        seq_lt((#[trigger] out[a]).manifest.id@, (#[trigger] out[b]).manifest.id@) by {
                        if b < j {
                            assert(seq_lt(packs[a].manifest.id@, packs[b].manifest.id@));
                        } else if b == j {
                            assert(!pack_sorts_after(id)(packs[a]));
                        } else if a == j {
                            assert(out[b] == packs[b - 1]);
                            if b - 1 > j {
                                assert(seq_lt(packs[j].manifest.id@, packs[b - 1].manifest.id@));
                                lemma_seq_lt_transitive(id, packs[j].manifest.id@, packs[b - 1].manifest.id@);
                            }
                        } else if a < j {
                            assert(out[b] == packs[b - 1]);
                            assert(seq_lt(packs[a].manifest.id@, packs[b - 1].manifest.id@));
                        } else {
                            assert(out[a] == packs[a - 1] && out[b] == packs[b - 1]);
                            assert(seq_lt(packs[a - 1].manifest.id@, packs[b - 1].manifest.id@));
                        }
                    }
                },
                None => {
                    assert(out == packs.push(p));
                    assert forall|a: int, b: int| 0 <= a < b < out.len() implies
                        seq_lt((#[trigger] out[a]).manifest.id@, (#[trigger] out[b]).manifest.id@) by {
                        if b < packs.len() {
                            assert(seq_lt(packs[a].manifest.id@, packs[b].manifest.id@));
                        } else {
                            assert(!pack_sorts_after(id)(packs[a]));
                        }
                    }
                },
            }
        },
    }
}

/// Enabling or disabling a Pack keeps the enabled identifiers in order,
/// each once.
pub proof fn law_enabled_ids_stay_ordered(ids: Seq<Seq<char>>, id: Seq<char>)
    requires
        ids_sorted(ids),
    ensures
        ids_sorted(ids_with(ids, id)),
        ids_sorted(ids_without(ids, id)),
{
    match first_match(ids, name_is(id)) {
        Some(i) => {
            lemma_first_match_some(ids, name_is(id));
            let out = ids.remove(i);
            assert forall|a: int, b: int| 0 <= a < b < out.len() implies seq_lt(#[trigger] out[a], #[trigger] out[b]) by {
                let a0 = if a < i { a } else { a + 1 };
                let b0 = if b < i { b } else { b + 1 };
                assert(out[a] == ids[a0] && out[b] == ids[b0]);
                assert(seq_lt(ids[a0], ids[b0]));
            }
        },
        None => {
            assert forall|k: int| 0 <= k < ids.len() && !seq_lt(id, #[trigger] ids[k]) implies seq_lt(ids[k], id) by {
                if ids[k] == id {
                    assert(name_is(id)(ids[k]));
                    assert(exists|j: int| 0 <= j < ids.len() && #[trigger] name_is(id)(ids[j]));
                }
                lemma_seq_lt_total(ids[k], id);
            }
            let out = ids_with(ids, id);
            match first_match(ids, name_sorts_after(id)) {
                Some(j) => {
                    lemma_first_match_some(ids, name_sorts_after(id));
                    assert(out == ids.insert(j, id));
                    assert forall|a: int, b: int| 0 <= a < b < out.len() implies seq_lt(#[trigger] out[a], #[trigger] out[b]) by {
                        if b < j {
                            assert(seq_lt(ids[a], ids[b]));
                        } else if b == j {
                            assert(!name_sorts_after(id)(ids[a]));
                        } else if a == j {
                            assert(out[b] == ids[b - 1]);
                            if b - 1 > j {
                                assert(seq_lt(ids[j], ids[b - 1]));
                                lemma_seq_lt_transitive(id, ids[j], ids[b - 1]);
                            }
                        } else if a < j {
                            assert(out[b] == ids[b - 1]);
                            assert(seq_lt(ids[a], ids[b - 1]));
                        } else {
                            assert(out[a] == ids[a - 1] && out[b] == ids[b - 1]);
                            assert(seq_lt(ids[a - 1], ids[b - 1]));
                        }
                    }
                },
                None => {
                    assert(out == ids.push(id));
                    assert forall|a: int, b: int| 0 <= a < b < out.len() implies seq_lt(#[trigger] out[a], #[trigger] out[b]) by {
                        if b < ids.len() {
                            assert(seq_lt(ids[a], ids[b]));
                        } else {
                            assert(!name_sorts_after(id)(ids[a]));
                        }
                    }
                },
            }
        },
    }
}

/// An achievement may be marked achieved only where each of its direct
/// prerequisites is achieved.
pub proof fn law_marking_needs_every_prerequisite(
    id: Seq<char>,
    defs: Seq<AchievementDef>,
    progress: Seq<(String, bool)>,
)
    requires
        achieve_refusal(id, defs, progress) is None,
    ensures
        find_def(defs, id, defs.len() as int) matches Some(k) && forall|j: int|
            0 <= j < defs[k].prerequisites@.len()
                ==> status_of(progress, (#[trigger] defs[k].prerequisites@[j])@) == Some(true),
{
    let k = find_def(defs, id, defs.len() as int)->0;
    let ps = defs[k].prerequisites@;
    assert forall|j: int| 0 <= j < ps.len() implies status_of(progress, (#[trigger] ps[j])@) == Some(true) by {
        lemma_nothing_missing(ps, progress, j);
    }
}

proof fn lemma_nothing_missing(ps: Seq<String>, progress: Seq<(String, bool)>, j: int)
    requires
        missing(ps, progress).len() == 0,
        0 <= j < ps.len(),
    ensures
        status_of(progress, ps[j]@) == Some(true),
    decreases ps.len(),
{
    if j < ps.len() - 1 {
        assert(ps.drop_last()[j] == ps[j]);
        lemma_nothing_missing(ps.drop_last(), progress, j);
    }
}

/// A query that sets no filter lists every definition of the enabled Packs.
pub proof fn law_unfiltered_query_lists_everything(
    m: RepositoryModel,
    s: Seq<(String, RecordDefinitionModel)>,
)
    ensures
        selected(
            m,
            QueryRecords { definition_id: None, namespace: None, pack_id: None, kind: None, has_value: None },
            s,
        ) == s,
    decreases s.len(),
{
    let q = QueryRecords { definition_id: None, namespace: None, pack_id: None, kind: None, has_value: None };
    if s.len() > 0 {
        law_unfiltered_query_lists_everything(m, s.drop_last());
        assert(s.drop_last().push(s.last()) =~= s);
    }
    assert(selected(m, q, s) =~= s);
}

// ---------------------------------------------------------------------------
// Identifiers
// ---------------------------------------------------------------------------

/// Creating an assistant memory keeps every identifier unique.
pub proof fn law_memory_create_keeps_ids_unique(
    m: RepositoryModel,
    c: CreateAssistantMemory,
    id: String,
    at: String,
    r: RepositoryResult<AssistantMemoryResult>,
    fm: RepositoryModel,
)
    requires
        m.ids_unique(),
        create_memory_outcome(m, c, id, at, r, fm),
    ensures
        fm.ids_unique(),
{
    if m.memory_index(id@) is None {
        lemma_keys_unique_push(m.memories, memory_is(id@), memory_key(), new_memory(c, id, at));
    }
}

/// Updating an assistant memory keeps every identifier unique.
pub proof fn law_memory_update_keeps_ids_unique(
    m: RepositoryModel,
    c: UpdateAssistantMemory,
    at: String,
    r: RepositoryResult<AssistantMemoryResult>,
    fm: RepositoryModel,
)
    requires
        m.ids_unique(),
        update_memory_outcome(m, c, at, r, fm),
    ensures
        fm.ids_unique(),
{
    if let Some(i) = m.memory_index(c.memory_id@) {
        lemma_first_match_some(m.memories, memory_is(c.memory_id@));
        let cur = m.memories[i];
        lemma_keys_unique_update(m.memories, memory_key(), i,
            AssistantMemory { kind: c.kind, content: c.content, updated_at: at, ..cur });
    }
}

/// Deleting an assistant memory keeps every identifier unique, and
/// afterwards no memory has that identifier: deleting it again finds
/// nothing and changes nothing.
pub proof fn law_memory_delete_removes_it(
    m: RepositoryModel,
    id: Seq<char>,
    r: RepositoryResult<AssistantMemoryDeleteResult>,
    fm: RepositoryModel,
)
    requires
        m.ids_unique(),
        memory_delete_outcome(m, id, r, fm),
    ensures
        fm.ids_unique(),
        fm.memory_index(id) is None,
        forall|r2: RepositoryResult<AssistantMemoryDeleteResult>, fm2: RepositoryModel|
            #[trigger] memory_delete_outcome(fm, id, r2, fm2)
                ==> (r2 matches Err(e) && e.code == RepositoryErrorCode::NotFound && fm2 == fm),
{
    if let Some(i) = m.memory_index(id) {
        lemma_first_match_some(m.memories, memory_is(id));
        lemma_keys_unique_remove(m.memories, memory_key(), i);
        let t = m.memories.remove(i);
        assert forall|j: int| 0 <= j < t.len() implies !memory_is(id)(#[trigger] t[j]) by {
            assert(memory_key()(t[j]) != memory_key()(m.memories[i]));
        }
        lemma_first_match_none(t, memory_is(id));
    }
}

/// Creating a Mission keeps every identifier unique.
pub proof fn law_mission_create_keeps_ids_unique(
    m: RepositoryModel,
    c: CreateMission,
    id: String,
    at: String,
    r: RepositoryResult<MissionResult>,
    fm: RepositoryModel,
)
    requires
        m.ids_unique(),
        create_outcome(m, c, id, at, r, fm),
    ensures
        fm.ids_unique(),
{
    if m.mission_index(id@) is None {
        lemma_keys_unique_push(m.missions, mission_is(id@), mission_key(), new_mission(c, id, at));
    }
}

/// Editing, completing or archiving a Mission keeps every identifier
/// unique.
pub proof fn law_mission_changes_keep_ids_unique(
    m: RepositoryModel,
    c: UpdateMission,
    id: Seq<char>,
    at: String,
    r: RepositoryResult<MissionResult>,
    fm: RepositoryModel,
)
    requires
        m.ids_unique(),
        mission_update_outcome(m, c, r, fm) || complete_outcome(m, id, at, r, fm)
            || mission_archive_outcome(m, id, r, fm),
    ensures
        fm.ids_unique(),
{
    if let Some(i) = m.mission_index(c.mission_id@) {
        lemma_first_match_some(m.missions, mission_is(c.mission_id@));
        lemma_keys_unique_update(m.missions, mission_key(), i, updated_mission(m.missions[i], c));
    }
    if let Some(i) = m.mission_index(id) {
        lemma_first_match_some(m.missions, mission_is(id));
        lemma_keys_unique_update(m.missions, mission_key(), i, completed_mission(m.missions[i], at));
        lemma_keys_unique_update(m.missions, mission_key(), i, archived_mission(m.missions[i]));
    }
}

/// Deleting a Mission keeps every identifier unique, and once deleted no
/// Mission has that identifier.
pub proof fn law_mission_delete_removes_it(
    m: RepositoryModel,
    id: Seq<char>,
    r: RepositoryResult<MissionDeleteResult>,
    fm: RepositoryModel,
)
    requires
        m.ids_unique(),
        mission_delete_outcome(m, id, r, fm),
    ensures
        fm.ids_unique(),
        r is Ok ==> fm.mission_index(id) is None,
{
    if let Some(i) = m.mission_index(id) {
        lemma_first_match_some(m.missions, mission_is(id));
        lemma_keys_unique_remove(m.missions, mission_key(), i);
        let t = m.missions.remove(i);
        assert forall|j: int| 0 <= j < t.len() implies !mission_is(id)(#[trigger] t[j]) by {
            assert(mission_key()(t[j]) != mission_key()(m.missions[i]));
        }
        lemma_first_match_none(t, mission_is(id));
    }
}

/// Recording a Mission suggestion keeps every identifier unique.
pub proof fn law_suggest_keeps_ids_unique(
    m: RepositoryModel,
    c: SuggestMission,
    id: String,
    at: String,
    r: RepositoryResult<MissionSuggestionResult>,
    fm: RepositoryModel,
)
    requires
        m.ids_unique(),
        suggest_outcome(m, c, id, at, r, fm),
    ensures
        fm.ids_unique(),
{
    if m.suggestion_index(id@) is None {
        lemma_keys_unique_push(m.suggestions, suggestion_is(id@), suggestion_key(), new_suggestion(c, id, at));
    }
}

/// Accepting a suggestion keeps every identifier unique: the new Mission
/// takes the suggestion's identifier, which no Mission had, and the
/// suggestion leaves.
pub proof fn law_accept_keeps_ids_unique(
    m: RepositoryModel,
    id: Seq<char>,
    at: String,
    r: RepositoryResult<MissionResult>,
    fm: RepositoryModel,
)
    requires
        m.ids_unique(),
        accept_outcome(m, id, at, r, fm),
    ensures
        fm.ids_unique(),
{
    if let Some(j) = m.suggestion_index(id) {
        lemma_first_match_some(m.suggestions, suggestion_is(id));
        let s = m.suggestions[j];
        if m.mission_index(s.id@) is None {
            lemma_keys_unique_push(m.missions, mission_is(s.id@), mission_key(), accepted_mission(s, at));
            lemma_keys_unique_remove(m.suggestions, suggestion_key(), j);
        }
    }
}

/// Rejecting or deleting a suggestion keeps every identifier unique.
pub proof fn law_suggestion_changes_keep_ids_unique(
    m: RepositoryModel,
    id: Seq<char>,
    r: RepositoryResult<MissionSuggestionResult>,
    d: RepositoryResult<MissionSuggestionDeleteResult>,
    fm: RepositoryModel,
)
    requires
        m.ids_unique(),
        suggestion_reject_outcome(m, id, r, fm) || suggestion_delete_outcome(m, id, d, fm),
    ensures
        fm.ids_unique(),
{
    if let Some(j) = m.suggestion_index(id) {
        lemma_first_match_some(m.suggestions, suggestion_is(id));
        let cur = m.suggestions[j];
        lemma_keys_unique_update(m.suggestions, suggestion_key(), j,
            MissionSuggestion { status: MissionSuggestionStatus::Rejected, ..cur });
        lemma_keys_unique_remove(m.suggestions, suggestion_key(), j);
    }
}

/// Setting an Achievement state keeps every identifier unique: a state
/// already stored for the Achievement is replaced, never doubled.
pub proof fn law_state_set_keeps_ids_unique(
    m: RepositoryModel,
    c: SetAchievementState,
    r: RepositoryResult<AchievementStateResult>,
    fm: RepositoryModel,
)
    requires
        m.ids_unique(),
        set_state_outcome(m, c, r, fm),
    ensures
        fm.ids_unique(),
{
    let state = AchievementState { status: c.status, achieved_at: c.achieved_at };
    if let Some(i) = m.state_index(c.achievement_id@) {
        lemma_first_match_some(m.achievement_states, state_is(c.achievement_id@));
        lemma_keys_unique_update(m.achievement_states, state_key(), i, (c.achievement_id, state));
    } else {
        lemma_keys_unique_push(m.achievement_states, state_is(c.achievement_id@), state_key(),
            (c.achievement_id, state));
    }
}

/// Revoking an Achievement state keeps every identifier unique, and once
/// revoked no state is stored for the Achievement.
pub proof fn law_state_revoke_removes_it(
    m: RepositoryModel,
    id: Seq<char>,
    r: RepositoryResult<AchievementStateResult>,
    fm: RepositoryModel,
)
    requires
        m.ids_unique(),
        revoke_state_outcome(m, id, r, fm),
    ensures
        fm.ids_unique(),
        r is Ok ==> fm.state_index(id) is None,
{
    if let Some(i) = m.state_index(id) {
        lemma_first_match_some(m.achievement_states, state_is(id));
        lemma_keys_unique_remove(m.achievement_states, state_key(), i);
        let t = m.achievement_states.remove(i);
        assert forall|j: int| 0 <= j < t.len() implies !state_is(id)(#[trigger] t[j]) by {
            assert(state_key()(t[j]) != state_key()(m.achievement_states[i]));
        }
        lemma_first_match_none(t, state_is(id));
    }
}

/// Every operation of a mutation batch keeps identifiers unique: those
/// that touch Missions, suggestions, memories or Achievement states by the
/// laws above, and the others leave them as they were.
#[verifier::rlimit(40)]
pub proof fn law_operation_keeps_ids_unique<F: Fn(&JsonValue, &JsonValue) -> Option<JsonValue>>(
    m: RepositoryModel,
    op: MutationOperation,
    at: String,
    add: F,
    r: RepositoryResult<MutationValue>,
    fm: RepositoryModel,
)
    requires
        m.ids_unique(),
        op_outcome(m, op, at, add, r, fm),
    ensures
        fm.ids_unique(),
{
    match op {
        MutationOperation::AchievementStateSet(c) => {
            let rr = choose|rr: RepositoryResult<AchievementStateResult>| set_state_outcome(m, c, rr, fm);
            law_state_set_keeps_ids_unique(m, c, rr, fm);
        },
        MutationOperation::AchievementStateRevoke(t) => {
            let rr = choose|rr: RepositoryResult<AchievementStateResult>|
                revoke_state_outcome(m, t.achievement_id@, rr, fm);
            law_state_revoke_removes_it(m, t.achievement_id@, rr, fm);
        },
        MutationOperation::MissionCreate(c) => {
            let (rr, id) = choose|rr: RepositoryResult<MissionResult>, id: String| create_outcome(m, c, id, at, rr, fm);
            law_mission_create_keeps_ids_unique(m, c, id, at, rr, fm);
        },
        MutationOperation::MissionUpdate(c) => {
            let rr = choose|rr: RepositoryResult<MissionResult>| mission_update_outcome(m, c, rr, fm);
            law_mission_changes_keep_ids_unique(m, c, c.mission_id@, at, rr, fm);
        },
        MutationOperation::MissionComplete(t) => {
            let rr = choose|rr: RepositoryResult<MissionResult>| complete_outcome(m, t.mission_id@, at, rr, fm);
            let c = UpdateMission { mission_id: t.mission_id, ..arbitrary() };
            law_mission_changes_keep_ids_unique(m, c, t.mission_id@, at, rr, fm);
        },
        MutationOperation::MissionArchive(t) => {
            let rr = choose|rr: RepositoryResult<MissionResult>| mission_archive_outcome(m, t.mission_id@, rr, fm);
            let c = UpdateMission { mission_id: t.mission_id, ..arbitrary() };
            law_mission_changes_keep_ids_unique(m, c, t.mission_id@, at, rr, fm);
        },
        MutationOperation::MissionDelete(t) => {
            let rr = choose|rr: RepositoryResult<MissionDeleteResult>| mission_delete_outcome(m, t.mission_id@, rr, fm);
            law_mission_delete_removes_it(m, t.mission_id@, rr, fm);
        },
        MutationOperation::MissionSuggest(c) => {
            let (rr, id) = choose|rr: RepositoryResult<MissionSuggestionResult>, id: String|
                suggest_outcome(m, c, id, at, rr, fm);
            law_suggest_keeps_ids_unique(m, c, id, at, rr, fm);
        },
        MutationOperation::MissionAccept(t) => {
            let rr = choose|rr: RepositoryResult<MissionResult>| accept_outcome(m, t.suggestion_id@, at, rr, fm);
            law_accept_keeps_ids_unique(m, t.suggestion_id@, at, rr, fm);
        },
        MutationOperation::MissionReject(t) => {
            let rr = choose|rr: RepositoryResult<MissionSuggestionResult>|
                suggestion_reject_outcome(m, t.suggestion_id@, rr, fm);
            law_suggestion_changes_keep_ids_unique(m, t.suggestion_id@, rr, arbitrary(), fm);
        },
        MutationOperation::MissionSuggestionDelete(t) => {
            let rr = choose|rr: RepositoryResult<MissionSuggestionDeleteResult>|
                suggestion_delete_outcome(m, t.suggestion_id@, rr, fm);
            law_suggestion_changes_keep_ids_unique(m, t.suggestion_id@, arbitrary(), rr, fm);
        },
        MutationOperation::MemoryCreate(c) => {
            let (rr, id) = choose|rr: RepositoryResult<AssistantMemoryResult>, id: String|
                create_memory_outcome(m, c, id, at, rr, fm);
            law_memory_create_keeps_ids_unique(m, c, id, at, rr, fm);
        },
        MutationOperation::MemoryUpdate(c) => {
            let rr = choose|rr: RepositoryResult<AssistantMemoryResult>| update_memory_outcome(m, c, at, rr, fm);
            law_memory_update_keeps_ids_unique(m, c, at, rr, fm);
        },
        MutationOperation::MemoryDelete(t) => {
            let rr = choose|rr: RepositoryResult<AssistantMemoryDeleteResult>|
                memory_delete_outcome(m, t.memory_id@, rr, fm);
            law_memory_delete_removes_it(m, t.memory_id@, rr, fm);
        },
        _ => {},
    }
}

proof fn lemma_run_keeps_ids_unique<F: Fn(&JsonValue, &JsonValue) -> Option<JsonValue>>(
    states: Seq<RepositoryModel>,
    ops: Seq<MutationOperation>,
    n: int,
    at: String,
    add: F,
    values: Seq<MutationValue>,
    k: int,
)
    requires
        run_holds(states, ops, n, at, add, values),
        states[0].ids_unique(),
        0 <= k <= n,
    ensures
        states[k].ids_unique(),
    decreases k,
{
    if k > 0 {
        lemma_run_keeps_ids_unique(states, ops, n, at, add, values, k - 1);
        assert(step_holds(states, ops, at, add, values, k - 1));
        law_operation_keeps_ids_unique(states[k - 1], ops[k - 1], at, add, Ok(values[k - 1]), states[k]);
    }
}

/// A mutation batch keeps identifiers unique, whether it is applied, only
/// tried, or refused.
pub proof fn law_batch_keeps_ids_unique<F: Fn(&JsonValue, &JsonValue) -> Option<JsonValue>>(
    m: RepositoryModel,
    ops: Seq<MutationOperation>,
    dry_run: bool,
    at: String,
    add: F,
    r: Result<MutationBatchResult, MutationBatchError>,
    fm: RepositoryModel,
)
    requires
        m.ids_unique(),
        batch_outcome(m, ops, dry_run, at, add, r, fm),
    ensures
        fm.ids_unique(),
{
    if let Ok(res) = r {
        let (states, values) = choose|states: Seq<RepositoryModel>, values: Seq<MutationValue>|
            #[trigger] run_holds(states, ops, ops.len() as int, at, add, values)
                && states[0] == m
                && results_match(res.operations@, ops, values)
                && fm == (if dry_run { m } else { states[ops.len() as int] });
        lemma_run_keeps_ids_unique(states, ops, ops.len() as int, at, add, values, ops.len() as int);
    }
}

spec fn entry_key() -> spec_fn(AchievementEntryModel) -> Seq<char> {
    |e: AchievementEntryModel| e.achievement_id
}

proof fn lemma_resolved_keys_unique(m: RepositoryModel, cs: Seq<(String, AchievementModel)>)
    ensures
        keys_unique(resolved_entries(m, cs), entry_key()),
    decreases cs.len(),
{
    if cs.len() > 0 {
        let c = cs.last();
        let before = resolved_entries(m, cs.drop_last());
        lemma_resolved_keys_unique(m, cs.drop_last());
        lemma_keys_unique_filter(before, entry_key(), other_id(c.1.id@));
        if m.is_enabled(c.0@) {
            let prev = before.filter(other_id(c.1.id@));
            assert forall|j: int| 0 <= j < prev.len() implies entry_key()(#[trigger] prev[j]) != entry_key()(
                resolved_entry(m, c),
            ) by {
                before.lemma_filter_pred(other_id(c.1.id@), j);
            }
            lemma_keys_unique_push_fresh(prev, entry_key(), resolved_entry(m, c));
        }
    }
}

proof fn lemma_all_entries_keys_unique(m: RepositoryModel)
    requires
        m.ids_unique(),
    ensures
        keys_unique(all_entries(m), entry_key()),
{
    let cs = achievements_of(m.packs);
    let res = resolved_entries(m, cs);
    lemma_resolved_keys_unique(m, cs);
    let f = m.achievement_states.filter(unresolved_filter(res));
    lemma_keys_unique_filter(m.achievement_states, state_key(), unresolved_filter(res));
    let u = f.map_values(unresolved_mapper(cs));
    assert forall|j: int| 0 <= j < u.len() implies (#[trigger] u[j]).achievement_id == f[j].0@ && !has_entry(
        res,
        f[j].0@,
    ) by {
        m.achievement_states.lemma_filter_pred(unresolved_filter(res), j);
    }
    let all = res + u;
    assert(all == all_entries(m));
    assert forall|i: int, j: int|
        #![trigger all[i], all[j]]
        0 <= i < all.len() && 0 <= j < all.len() && i != j implies entry_key()(all[i]) != entry_key()(all[j]) by {
        if i < res.len() && j < res.len() {
            assert(all[i] == res[i] && all[j] == res[j]);
        } else if i >= res.len() && j >= res.len() {
            let a = i - res.len();
            let b = j - res.len();
            assert(all[i] == u[a] && all[j] == u[b]);
            assert(state_key()(f[a]) != state_key()(f[b]));
        } else if i < res.len() {
            let b = j - res.len();
            assert(all[i] == res[i] && all[j] == u[b]);
            if res[i].achievement_id == f[b].0@ {
                assert(has_entry(res, f[b].0@));
            }
        } else {
            let a = i - res.len();
            assert(all[i] == u[a] && all[j] == res[j]);
            if res[j].achievement_id == f[a].0@ {
                assert(has_entry(res, f[a].0@));
            }
        }
    }
}

/// With identifiers unique, an Achievement listing holds one entry per
/// Achievement, in strictly ascending identifier order, whatever the query.
pub proof fn law_achievement_list_ids_strictly_ascend(
    m: RepositoryModel,
    q: QueryAchievements,
    v: Seq<AchievementEntryModel>,
)
    requires
        m.ids_unique(),
        exists|sorted: Seq<AchievementEntryModel>|
            entries_sorted(sorted) && sorted.to_multiset() == all_entries(m).to_multiset()
                && v == #[trigger] sorted.filter(query_filter(q)),
    ensures
        forall|i: int, j: int|
            0 <= i < j < v.len() ==> seq_lt(#[trigger] v[i].achievement_id, #[trigger] v[j].achievement_id),
{
    let sorted = choose|sorted: Seq<AchievementEntryModel>|
        entries_sorted(sorted) && sorted.to_multiset() == all_entries(m).to_multiset()
            && v == #[trigger] sorted.filter(query_filter(q));
    lemma_all_entries_keys_unique(m);
    lemma_keys_unique_permutation(all_entries(m), sorted, entry_key());
    let rel = |a: AchievementEntryModel, b: AchievementEntryModel| seq_lt(a.achievement_id, b.achievement_id);
    assert forall|i: int, j: int| 0 <= i < j < sorted.len() implies rel(#[trigger] sorted[i], #[trigger] sorted[j]) by {
        assert(!seq_lt(sorted[j].achievement_id, sorted[i].achievement_id));
        assert(entry_key()(sorted[i]) != entry_key()(sorted[j]));
        lemma_seq_lt_total(sorted[i].achievement_id, sorted[j].achievement_id);
    }
    assert(pairwise(sorted, rel));
    lemma_pairwise_filter(sorted, rel, query_filter(q));
    assert forall|i: int, j: int| 0 <= i < j < v.len() implies seq_lt(
        #[trigger] v[i].achievement_id,
        #[trigger] v[j].achievement_id,
    ) by {
        assert(rel(v[i], v[j]));
    }
}

/// `e` evaluates a Skill matching `q` of a Pack of `ps` matching `q`.
pub open spec fn listed_skill(m: RepositoryModel, q: QuerySkills, ps: Seq<PackModel>, e: SkillEvaluationModel) -> bool {
    exists|k: int, j: int|
        0 <= k < ps.len() && pack_matches(q, ps[k]) && 0 <= j < pack_skills(ps[k]).len()
            && skill_matches(q, pack_skills(ps[k])[j]) && e == #[trigger] skill_evaluation(m, ps[k], pack_skills(ps[k])[j])
}

proof fn lemma_contains_push<T>(s: Seq<T>, x: T, e: T)
    ensures
        s.push(x).contains(e) <==> s.contains(e) || e == x,
{
    let t = s.push(x);
    if t.contains(e) {
        let i = choose|i: int| 0 <= i < t.len() && t[i] == e;
        if i < s.len() {
            assert(s[i] == e);
        }
    }
    if s.contains(e) {
        let i = choose|i: int| 0 <= i < s.len() && s[i] == e;
        assert(t[i] == e);
    }
    if e == x {
        assert(t[s.len() as int] == e);
    }
}

proof fn lemma_contains_concat<T>(a: Seq<T>, b: Seq<T>, e: T)
    ensures
        (a + b).contains(e) <==> a.contains(e) || b.contains(e),
{
    let t = a + b;
    if t.contains(e) {
        let i = choose|i: int| 0 <= i < t.len() && t[i] == e;
        if i < a.len() {
            assert(a[i] == e);
        } else {
            assert(b[i - a.len()] == e);
        }
    }
    if a.contains(e) {
        let i = choose|i: int| 0 <= i < a.len() && a[i] == e;
        assert(t[i] == e);
    }
    if b.contains(e) {
        let i = choose|i: int| 0 <= i < b.len() && b[i] == e;
        assert(t[a.len() + i] == e);
    }
}

proof fn lemma_pack_evaluations_members(
    m: RepositoryModel,
    q: QuerySkills,
    p: PackModel,
    skills: Seq<SkillModel>,
    e: SkillEvaluationModel,
)
    ensures
        pack_evaluations(m, q, p, skills).contains(e) <==> exists|j: int|
            0 <= j < skills.len() && skill_matches(q, skills[j]) && e == #[trigger] skill_evaluation(m, p, skills[j]),
    decreases skills.len(),
{
    if skills.len() > 0 {
        let d = skills.drop_last();
        let last = skills.last();
        lemma_pack_evaluations_members(m, q, p, d, e);
        if skill_matches(q, last) {
            lemma_contains_push(pack_evaluations(m, q, p, d), skill_evaluation(m, p, last), e);
        }
        if exists|j: int| 0 <= j < d.len() && skill_matches(q, d[j]) && e == #[trigger] skill_evaluation(m, p, d[j]) {
            let j = choose|j: int| 0 <= j < d.len() && skill_matches(q, d[j]) && e == #[trigger] skill_evaluation(m, p, d[j]);
            assert(skills[j] == d[j]);
        }
        if exists|j: int| 0 <= j < skills.len() && skill_matches(q, skills[j]) && e == #[trigger] skill_evaluation(m, p, skills[j]) {
            let j = choose|j: int| 0 <= j < skills.len() && skill_matches(q, skills[j]) && e == #[trigger] skill_evaluation(m, p, skills[j]);
            if j < d.len() {
                assert(d[j] == skills[j]);
            } else {
                assert(skills[j] == last);
            }
        }
    }
}

proof fn lemma_evaluations_members(m: RepositoryModel, q: QuerySkills, ps: Seq<PackModel>, e: SkillEvaluationModel)
    ensures
        evaluations_of(m, q, ps).contains(e) <==> listed_skill(m, q, ps, e),
    decreases ps.len(),
{
    if ps.len() > 0 {
        let d = ps.drop_last();
        let p = ps.last();
        lemma_evaluations_members(m, q, d, e);
        let tail = if pack_matches(q, p) { pack_evaluations(m, q, p, pack_skills(p)) } else { Seq::empty() };
        lemma_contains_concat(evaluations_of(m, q, d), tail, e);
        lemma_pack_evaluations_members(m, q, p, pack_skills(p), e);
        if listed_skill(m, q, d, e) {
            let (k, j) = choose|k: int, j: int|
                0 <= k < d.len() && pack_matches(q, d[k]) && 0 <= j < pack_skills(d[k]).len()
                    && skill_matches(q, pack_skills(d[k])[j]) && e == #[trigger] skill_evaluation(m, d[k], pack_skills(d[k])[j]);
            assert(ps[k] == d[k]);
        }
        if pack_matches(q, p) && exists|j: int|
            0 <= j < pack_skills(p).len() && skill_matches(q, pack_skills(p)[j]) && e == #[trigger] skill_evaluation(m, p, pack_skills(p)[j]) {
            let j = choose|j: int|
                0 <= j < pack_skills(p).len() && skill_matches(q, pack_skills(p)[j]) && e == #[trigger] skill_evaluation(m, p, pack_skills(p)[j]);
            assert(ps[ps.len() - 1] == p);
        }
        if listed_skill(m, q, ps, e) {
            let (k, j) = choose|k: int, j: int|
                0 <= k < ps.len() && pack_matches(q, ps[k]) && 0 <= j < pack_skills(ps[k]).len()
                    && skill_matches(q, pack_skills(ps[k])[j]) && e == #[trigger] skill_evaluation(m, ps[k], pack_skills(ps[k])[j]);
            if k < d.len() {
                assert(d[k] == ps[k]);
            } else {
                assert(ps[k] == p);
            }
        }
    }
}

/// A Skill listing, as `SkillCommands::list` gives it (the evaluations in
/// identifier order), holds exactly the evaluations of the Skills that match
/// the query in the enabled Packs that match it, none from a disabled Pack.
/// Each entry counts the Skill's nodes and its achieved nodes, and its
/// points are the points of the achieved nodes.
pub proof fn law_skill_list_entries(m: RepositoryModel, q: QuerySkills, v: Seq<SkillEvaluationModel>)
    requires
        evaluations_sorted(v),
        v.to_multiset() == evaluations_of(m, q, enabled_packs(m)).to_multiset(),
    ensures
        forall|e: SkillEvaluationModel| v.contains(e) <==> listed_skill(m, q, enabled_packs(m), e),
        forall|i: int| 0 <= i < v.len() ==> {
            &&& (#[trigger] v[i]).node_count == v[i].definition.nodes.len() as usize
            &&& v[i].achieved_node_count == achieved_node_count(v[i].nodes) as usize
            &&& v[i].points == saturated(achieved_points(m, v[i].definition.nodes))
        },
{
    let all = evaluations_of(m, q, enabled_packs(m));
    assert(v.to_multiset() == all.to_multiset());
    v.to_multiset_ensures();
    all.to_multiset_ensures();
    assert forall|e: SkillEvaluationModel| v.contains(e) <==> listed_skill(m, q, enabled_packs(m), e) by {
        lemma_evaluations_members(m, q, enabled_packs(m), e);
        assert(v.contains(e) <==> v.to_multiset().count(e) > 0);
        assert(all.contains(e) <==> all.to_multiset().count(e) > 0);
    }
    assert forall|i: int| 0 <= i < v.len() implies {
        &&& (#[trigger] v[i]).node_count == v[i].definition.nodes.len() as usize
        &&& v[i].achieved_node_count == achieved_node_count(v[i].nodes) as usize
        &&& v[i].points == saturated(achieved_points(m, v[i].definition.nodes))
    } by {
        assert(v.contains(v[i]));
        let ps = enabled_packs(m);
        let (k, j) = choose|k: int, j: int|
            0 <= k < ps.len() && pack_matches(q, ps[k]) && 0 <= j < pack_skills(ps[k]).len()
                && skill_matches(q, pack_skills(ps[k])[j]) && v[i] == #[trigger] skill_evaluation(m, ps[k], pack_skills(ps[k])[j]);
        let nodes = pack_skills(ps[k])[j].nodes.map_values(crate::commands::skill_commands::node_mapper(m, ps[k]));
        assert(v[i].nodes == nodes);
    }
}

/// The Mission cards of a context summary are the active Missions: their
/// Missions are the active Missions, each once (a permutation of them), each
/// card shows an active Mission with the days left until its deadline, and
/// each active Mission has a card.
pub proof fn law_summary_cards_are_the_active_missions(m: RepositoryModel, as_of: CalendarDate, r: ContextSummary)
    requires
        summary_holds(m, as_of, r),
    ensures
        r.active_missions@.len() == m.missions.filter(active_filter()).len(),
        r.active_missions@.map_values(|c: ContextMission| c.mission).to_multiset()
            == m.missions.filter(active_filter()).to_multiset(),
        forall|i: int| 0 <= i < r.active_missions@.len() ==> {
            let c = #[trigger] r.active_missions@[i];
            &&& m.missions.contains(c.mission)
            &&& is_active(c.mission)
            &&& context_mission_holds(as_of, c.mission, c)
        },
        forall|k: int| 0 <= k < m.missions.len() && is_active(#[trigger] m.missions[k]) ==> exists|i: int|
            0 <= i < r.active_missions@.len() && (#[trigger] r.active_missions@[i]).mission == m.missions[k],
{
    let active = m.missions.filter(active_filter());
    let cards = r.active_missions@;
    let u = choose|u: Seq<ContextMission>| {
        &&& u.len() == active.len()
        &&& (forall|i: int| 0 <= i < u.len() ==> #[trigger] context_mission_holds(as_of, active[i], u[i]))
        &&& cards.to_multiset() == #[trigger] u.to_multiset()
    };
    cards.to_multiset_ensures();
    u.to_multiset_ensures();
    let mission_of = |c: ContextMission| c.mission;
    lemma_permutation_map(cards, u, mission_of);
    assert forall|i: int| 0 <= i < u.len() implies #[trigger] u.map_values(mission_of)[i] == active[i] by {
        assert(context_mission_holds(as_of, active[i], u[i]));
    }
    assert(u.map_values(mission_of) =~= active);
    assert forall|i: int| 0 <= i < cards.len() implies {
        let c = #[trigger] cards[i];
        &&& m.missions.contains(c.mission)
        &&& is_active(c.mission)
        &&& context_mission_holds(as_of, c.mission, c)
    } by {
        let c = cards[i];
        assert(cards.contains(c));
        assert(cards.to_multiset().count(c) > 0);
        assert(u.to_multiset().count(c) > 0);
        let j = choose|j: int| 0 <= j < u.len() && u[j] == c;
        assert(context_mission_holds(as_of, active[j], u[j]));
        m.missions.lemma_filter_pred(active_filter(), j);
        assert(active.contains(active[j]));
        m.missions.lemma_filter_contains_rev(active_filter(), active[j]);
    }
    assert forall|k: int| 0 <= k < m.missions.len() && is_active(#[trigger] m.missions[k]) implies exists|i: int|
        0 <= i < cards.len() && (#[trigger] cards[i]).mission == m.missions[k] by {
        m.missions.lemma_filter_contains(active_filter(), k);
        let j = choose|j: int| 0 <= j < active.len() && active[j] == m.missions[k];
        assert(context_mission_holds(as_of, active[j], u[j]));
        assert(u.contains(u[j]));
        assert(u.to_multiset().count(u[j]) > 0);
        assert(cards.to_multiset().count(u[j]) > 0);
        let i = choose|i: int| 0 <= i < cards.len() && cards[i] == u[j];
        assert(cards[i].mission == m.missions[k]);
    }
}

/// In a Skill listing, Skills that share an identifier come in the order of
/// the enabled Packs that supply them.
pub proof fn law_skill_list_keeps_pack_order(m: RepositoryModel, q: QuerySkills, v: Seq<SkillEvaluationModel>, id: Seq<char>)
    requires
        v == sort_by_id(evaluations_of(m, q, enabled_packs(m))),
    ensures
        v.filter(has_skill_id(id)) == evaluations_of(m, q, enabled_packs(m)).filter(has_skill_id(id)),
{
    lemma_sort_by_id_is_stable(evaluations_of(m, q, enabled_packs(m)), id);
}

} // verus!
