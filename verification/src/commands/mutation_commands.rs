//! Mutation batches: several commands applied as one transaction.  Either
//! every operation succeeds and the batch commits (or, for a dry run, the
//! repository is left as it was), or the first failing operation is reported
//! and the repository is left as it was.
use vstd::prelude::*;
use crate::clock::{is_clock_time, new_uuid_v7, now_rfc3339, uuid_v7_shape};
use crate::commands::achievement_commands::{
    apply_revoke_state, apply_set_state, revoke_state_outcome, set_state_outcome, AchievementStateResult,
    SetAchievementState,
};
use crate::commands::memory_commands::{
    create_memory_outcome, update_memory_outcome, AssistantMemoryDeleteResult, AssistantMemoryResult,
    CreateAssistantMemory, UpdateAssistantMemory,
};
use crate::commands::mission_commands::{
    accept_outcome, archived_mission, complete_outcome, create_outcome, has_child, same_editable_fields,
    suggest_outcome, updated_mission, CreateMission, MissionDeleteResult, MissionResult,
    MissionSuggestionDeleteResult, MissionSuggestionResult, SuggestMission, UpdateMission,
};
use crate::commands::pack_commands::{candidate, details_of, PackContent, PackDetails, PackEnabledState};
use crate::commands::record_commands::{
    add_item_holds, append_event_holds, correct_event_holds, correct_item_spec, create_record_spec,
    delete_event_spec, increment_spec, number_operands, outcome_holds, remove_item_spec, store_spec,
    AddCollectionItem, AppendEvent, CorrectCollectionItem, CorrectEvent, CreateEmptyRecord, DeleteEvent,
    IncrementScalarRecord, RemoveCollectionItem, SetScalarRecord,
};
use crate::commands::status_commands::{position_taken_by, StatusSelectionResult};
use crate::error::{RepositoryError, RepositoryErrorCode, RepositoryResult};
use crate::json::JsonValue;
use crate::pack_store::{enable_conflict, ids_with, ids_without, packs_with, put_pack_ok, PackDeleteResult};
use crate::pack::PackModel;
use crate::record::{Record, RecordModel, ScalarRecord};
use crate::repository::{Repository, RepositoryModel};
use crate::seqs::replace_or_push;
use crate::state::{MissionSuggestion, MissionSuggestionStatus, StatusDimensionSelection, STATUS_POSITION_COUNT};

verus! {

#[derive(Debug, Clone, PartialEq, Eq)]
pub struct RecordTarget {
    pub definition_id: String,
}

#[derive(Debug, Clone, PartialEq, Eq)]
pub struct PackTarget {
    pub pack_id: String,
}

#[derive(Debug, Clone, PartialEq, Eq)]
pub struct StatusSelectionInput {
    pub position: u8,
    pub dimension_id: String,
}

#[derive(Debug, Clone, PartialEq, Eq)]
pub struct StatusPositionInput {
    pub position: u8,
}

#[derive(Debug, Clone, PartialEq, Eq)]
pub struct AchievementTarget {
    pub achievement_id: String,
}

#[derive(Debug, Clone, PartialEq, Eq)]
pub struct MissionTarget {
    pub mission_id: String,
}

#[derive(Debug, Clone, PartialEq, Eq)]
pub struct MissionSuggestionTarget {
    pub suggestion_id: String,
}

#[derive(Debug, Clone, PartialEq, Eq)]
pub struct AssistantMemoryTarget {
    pub memory_id: String,
}

/// One operation of a batch.
#[derive(Debug, Clone, PartialEq, Eq)]
pub enum MutationOperation {
    RecordSet(SetScalarRecord),
    RecordIncrement(IncrementScalarRecord),
    RecordCorrect(SetScalarRecord),
    RecordCreateEmptyCollection(CreateEmptyRecord),
    RecordCreateEmptyEvent(CreateEmptyRecord),
    RecordAddItem(AddCollectionItem),
    RecordCorrectItem(CorrectCollectionItem),
    RecordRemoveItem(RemoveCollectionItem),
    RecordAppendEvent(AppendEvent),
    RecordCorrectEvent(CorrectEvent),
    RecordDeleteEvent(DeleteEvent),
    RecordDelete(RecordTarget),
    PackWrite(PackContent),
    PackEnable(PackTarget),
    PackDisable(PackTarget),
    PackDelete(PackTarget),
    StatusSelect(StatusSelectionInput),
    StatusClear(StatusPositionInput),
    AchievementStateSet(SetAchievementState),
    AchievementStateRevoke(AchievementTarget),
    MissionCreate(CreateMission),
    MissionUpdate(UpdateMission),
    MissionComplete(MissionTarget),
    MissionArchive(MissionTarget),
    MissionDelete(MissionTarget),
    MissionSuggest(SuggestMission),
    MissionAccept(MissionSuggestionTarget),
    MissionReject(MissionSuggestionTarget),
    MissionSuggestionDelete(MissionSuggestionTarget),
    MemoryCreate(CreateAssistantMemory),
    MemoryUpdate(UpdateAssistantMemory),
    MemoryDelete(AssistantMemoryTarget),
}

/// What one operation produced.
#[derive(Debug, Clone, PartialEq, Eq)]
pub enum MutationValue {
    Record(Record),
    DeletedRecord(String),
    Pack(PackDetails),
    PackEnabled(PackEnabledState),
    PackDeleted(PackDeleteResult),
    StatusSelection(StatusSelectionResult),
    AchievementState(AchievementStateResult),
    Mission(MissionResult),
    MissionDeleted(MissionDeleteResult),
    Suggestion(MissionSuggestionResult),
    SuggestionDeleted(MissionSuggestionDeleteResult),
    Memory(AssistantMemoryResult),
    MemoryDeleted(AssistantMemoryDeleteResult),
}

#[derive(Debug, Clone, PartialEq, Eq)]
pub struct ApplyMutationBatch {
    pub operations: Vec<MutationOperation>,
}

#[derive(Debug, Clone, PartialEq, Eq)]
pub struct MutationOperationResult {
    pub index: usize,
    pub operation: String,
    pub result: MutationValue,
}

#[derive(Debug, Clone, PartialEq, Eq)]
pub struct MutationBatchResult {
    pub dry_run: bool,
    pub operations: Vec<MutationOperationResult>,
}

#[derive(Debug, Clone, PartialEq, Eq)]
pub struct MutationBatchError {
    pub operation_index: Option<usize>,
    pub operation: Option<String>,
    pub source: RepositoryError,
}

// ---------------------------------------------------------------------------
// Operation names
// ---------------------------------------------------------------------------

pub open spec fn operation_name_spec(op: MutationOperation) -> Seq<char> {
    match op {
        MutationOperation::RecordSet(_) => "record.set"@,
        MutationOperation::RecordIncrement(_) => "record.increment"@,
        MutationOperation::RecordCorrect(_) => "record.correct"@,
        MutationOperation::RecordCreateEmptyCollection(_) => "record.create-empty-collection"@,
        MutationOperation::RecordCreateEmptyEvent(_) => "record.create-empty-event"@,
        MutationOperation::RecordAddItem(_) => "record.add-item"@,
        MutationOperation::RecordCorrectItem(_) => "record.correct-item"@,
        MutationOperation::RecordRemoveItem(_) => "record.remove-item"@,
        MutationOperation::RecordAppendEvent(_) => "record.append-event"@,
        MutationOperation::RecordCorrectEvent(_) => "record.correct-event"@,
        MutationOperation::RecordDeleteEvent(_) => "record.delete-event"@,
        MutationOperation::RecordDelete(_) => "record.delete"@,
        MutationOperation::PackWrite(_) => "pack.write"@,
        MutationOperation::PackEnable(_) => "pack.enable"@,
        MutationOperation::PackDisable(_) => "pack.disable"@,
        MutationOperation::PackDelete(_) => "pack.delete"@,
        MutationOperation::StatusSelect(_) => "status.select"@,
        MutationOperation::StatusClear(_) => "status.clear"@,
        MutationOperation::AchievementStateSet(_) => "achievement.state-set"@,
        MutationOperation::AchievementStateRevoke(_) => "achievement.state-revoke"@,
        MutationOperation::MissionCreate(_) => "mission.create"@,
        MutationOperation::MissionUpdate(_) => "mission.update"@,
        MutationOperation::MissionComplete(_) => "mission.complete"@,
        MutationOperation::MissionArchive(_) => "mission.archive"@,
        MutationOperation::MissionDelete(_) => "mission.delete"@,
        MutationOperation::MissionSuggest(_) => "mission.suggest"@,
        MutationOperation::MissionAccept(_) => "mission.accept"@,
        MutationOperation::MissionReject(_) => "mission.reject"@,
        MutationOperation::MissionSuggestionDelete(_) => "mission.suggestion-delete"@,
        MutationOperation::MemoryCreate(_) => "memory.create"@,
        MutationOperation::MemoryUpdate(_) => "memory.update"@,
        MutationOperation::MemoryDelete(_) => "memory.delete"@,
    }
}

impl MutationOperation {
    /// The stable name of the operation.
    pub fn operation_name(&self) -> (r: &'static str)
        ensures
            r@ == operation_name_spec(*self),
    {
        match self {
            MutationOperation::RecordSet(_) => "record.set",
            MutationOperation::RecordIncrement(_) => "record.increment",
            MutationOperation::RecordCorrect(_) => "record.correct",
            MutationOperation::RecordCreateEmptyCollection(_) => "record.create-empty-collection",
            MutationOperation::RecordCreateEmptyEvent(_) => "record.create-empty-event",
            MutationOperation::RecordAddItem(_) => "record.add-item",
            MutationOperation::RecordCorrectItem(_) => "record.correct-item",
            MutationOperation::RecordRemoveItem(_) => "record.remove-item",
            MutationOperation::RecordAppendEvent(_) => "record.append-event",
            MutationOperation::RecordCorrectEvent(_) => "record.correct-event",
            MutationOperation::RecordDeleteEvent(_) => "record.delete-event",
            MutationOperation::RecordDelete(_) => "record.delete",
            MutationOperation::PackWrite(_) => "pack.write",
            MutationOperation::PackEnable(_) => "pack.enable",
            MutationOperation::PackDisable(_) => "pack.disable",
            MutationOperation::PackDelete(_) => "pack.delete",
            MutationOperation::StatusSelect(_) => "status.select",
            MutationOperation::StatusClear(_) => "status.clear",
            MutationOperation::AchievementStateSet(_) => "achievement.state-set",
            MutationOperation::AchievementStateRevoke(_) => "achievement.state-revoke",
            MutationOperation::MissionCreate(_) => "mission.create",
            MutationOperation::MissionUpdate(_) => "mission.update",
            MutationOperation::MissionComplete(_) => "mission.complete",
            MutationOperation::MissionArchive(_) => "mission.archive",
            MutationOperation::MissionDelete(_) => "mission.delete",
            MutationOperation::MissionSuggest(_) => "mission.suggest",
            MutationOperation::MissionAccept(_) => "mission.accept",
            MutationOperation::MissionReject(_) => "mission.reject",
            MutationOperation::MissionSuggestionDelete(_) => "mission.suggestion-delete",
            MutationOperation::MemoryCreate(_) => "memory.create",
            MutationOperation::MemoryUpdate(_) => "memory.update",
            MutationOperation::MemoryDelete(_) => "memory.delete",
        }
    }
}

// ---------------------------------------------------------------------------
// What one operation does
// ---------------------------------------------------------------------------

pub open spec fn lift_record(r: RepositoryResult<Record>) -> RepositoryResult<MutationValue> {
    match r { Ok(v) => Ok(MutationValue::Record(v)), Err(e) => Err(e) }
}

pub open spec fn lift_pack(r: RepositoryResult<PackDetails>) -> RepositoryResult<MutationValue> {
    match r { Ok(v) => Ok(MutationValue::Pack(v)), Err(e) => Err(e) }
}

pub open spec fn lift_enabled(r: RepositoryResult<PackEnabledState>) -> RepositoryResult<MutationValue> {
    match r { Ok(v) => Ok(MutationValue::PackEnabled(v)), Err(e) => Err(e) }
}

pub open spec fn lift_pack_deleted(r: RepositoryResult<PackDeleteResult>) -> RepositoryResult<MutationValue> {
    match r { Ok(v) => Ok(MutationValue::PackDeleted(v)), Err(e) => Err(e) }
}

pub open spec fn lift_status(r: RepositoryResult<StatusSelectionResult>) -> RepositoryResult<MutationValue> {
    match r { Ok(v) => Ok(MutationValue::StatusSelection(v)), Err(e) => Err(e) }
}

pub open spec fn lift_achievement(r: RepositoryResult<AchievementStateResult>) -> RepositoryResult<MutationValue> {
    match r { Ok(v) => Ok(MutationValue::AchievementState(v)), Err(e) => Err(e) }
}

pub open spec fn lift_mission(r: RepositoryResult<MissionResult>) -> RepositoryResult<MutationValue> {
    match r { Ok(v) => Ok(MutationValue::Mission(v)), Err(e) => Err(e) }
}

pub open spec fn lift_mission_deleted(r: RepositoryResult<MissionDeleteResult>) -> RepositoryResult<MutationValue> {
    match r { Ok(v) => Ok(MutationValue::MissionDeleted(v)), Err(e) => Err(e) }
}

pub open spec fn lift_suggestion(r: RepositoryResult<MissionSuggestionResult>) -> RepositoryResult<MutationValue> {
    match r { Ok(v) => Ok(MutationValue::Suggestion(v)), Err(e) => Err(e) }
}

pub open spec fn lift_suggestion_deleted(r: RepositoryResult<MissionSuggestionDeleteResult>) -> RepositoryResult<MutationValue> {
    match r { Ok(v) => Ok(MutationValue::SuggestionDeleted(v)), Err(e) => Err(e) }
}

pub open spec fn lift_memory(r: RepositoryResult<AssistantMemoryResult>) -> RepositoryResult<MutationValue> {
    match r { Ok(v) => Ok(MutationValue::Memory(v)), Err(e) => Err(e) }
}

pub open spec fn lift_memory_deleted(r: RepositoryResult<AssistantMemoryDeleteResult>) -> RepositoryResult<MutationValue> {
    match r { Ok(v) => Ok(MutationValue::MemoryDeleted(v)), Err(e) => Err(e) }
}

pub open spec fn lift_deleted_record(r: RepositoryResult<()>, id: String) -> RepositoryResult<MutationValue> {
    match r { Ok(_) => Ok(MutationValue::DeletedRecord(id)), Err(e) => Err(e) }
}

pub open spec fn scalar_of(c: SetScalarRecord, at: String) -> RecordModel {
    RecordModel::Scalar(ScalarRecord { definition_id: c.definition_id, value: c.value, effective_at: c.effective_at, recorded_at: at })
}

pub open spec fn record_delete_outcome(m: RepositoryModel, id: Seq<char>, r: RepositoryResult<()>, fm: RepositoryModel) -> bool {
    match m.record_index(id) {
        Some(i) => r is Ok && fm == (RepositoryModel { records: m.records.remove(i), ..m }),
        None => r matches Err(e) && e.code == RepositoryErrorCode::NotFound && fm == m,
    }
}

pub open spec fn pack_write_outcome(m: RepositoryModel, c: PackModel, r: RepositoryResult<PackDetails>, fm: RepositoryModel) -> bool {
    let cand = candidate(m, c);
    &&& put_pack_ok(m, cand) ==> (r matches Ok(d) && details_of(d, cand, m.is_enabled(c.manifest.id@), m.packs)
        && fm == (RepositoryModel { packs: packs_with(m.packs, cand), ..m }))
    &&& !put_pack_ok(m, cand) ==> (r matches Err(e) && e.code == RepositoryErrorCode::ValidationFailed && fm == m)
}

pub open spec fn pack_enabled_outcome(m: RepositoryModel, id: Seq<char>, enabled: bool, r: RepositoryResult<PackEnabledState>, fm: RepositoryModel) -> bool {
    &&& m.pack_index(id) is None ==> (r matches Err(e) && e.code == RepositoryErrorCode::NotFound && fm == m)
    &&& m.pack_index(id) is Some && enabled == m.is_enabled(id) ==> (r matches Ok(s) && s.pack_id@ == id
        && s.enabled == enabled && !s.changed && fm == m)
    &&& m.pack_index(id) is Some && !enabled && m.is_enabled(id) ==> (r matches Ok(s) && s.pack_id@ == id
        && !s.enabled && s.changed && fm == (RepositoryModel { enabled_pack_ids: ids_without(m.enabled_pack_ids, id), ..m }))
    &&& m.pack_index(id) is Some && enabled && !m.is_enabled(id) ==> ({
        let p = m.packs[m.pack_index(id)->0];
        &&& enable_conflict(m, p) ==> (r matches Err(e) && e.code == RepositoryErrorCode::ValidationFailed && fm == m)
        &&& !enable_conflict(m, p) ==> (r matches Ok(s) && s.pack_id@ == id && s.enabled && s.changed
            && fm == (RepositoryModel { enabled_pack_ids: ids_with(m.enabled_pack_ids, id), ..m }))
    })
}

pub open spec fn pack_delete_outcome(m: RepositoryModel, id: Seq<char>, r: RepositoryResult<PackDeleteResult>, fm: RepositoryModel) -> bool {
    match m.pack_index(id) {
        None => r matches Err(e) && e.code == RepositoryErrorCode::NotFound && fm == m,
        Some(i) => r matches Ok(res) && res.pack_id@ == id && res.deleted && res.was_enabled == m.is_enabled(id)
            && fm == (RepositoryModel { packs: m.packs.remove(i), enabled_pack_ids: ids_without(m.enabled_pack_ids, id), ..m }),
    }
}

pub open spec fn status_select_outcome(m: RepositoryModel, position: u8, id: String, r: RepositoryResult<StatusSelectionResult>, fm: RepositoryModel) -> bool {
    if position_taken_by(m.status_selections, position, id@) {
        r matches Ok(res) && res.position == position && res.dimension_id == Some(id) && !res.changed && fm == m
    } else if position >= STATUS_POSITION_COUNT {
        r matches Err(e) && e.code == RepositoryErrorCode::ValidationFailed && fm == m
    } else {
        r matches Ok(res) && res.position == position && res.dimension_id == Some(id) && res.changed
            && fm == (RepositoryModel {
                status_selections: replace_or_push(m.status_selections, m.selection_index(position),
                    StatusDimensionSelection { position: position, dimension_id: id }),
                ..m
            })
    }
}

pub open spec fn status_clear_outcome(m: RepositoryModel, position: u8, r: RepositoryResult<StatusSelectionResult>, fm: RepositoryModel) -> bool {
    match m.selection_index(position) {
        None => if position >= STATUS_POSITION_COUNT {
            r matches Err(e) && e.code == RepositoryErrorCode::ValidationFailed && fm == m
        } else {
            r matches Ok(res) && res.position == position && res.dimension_id is None && !res.changed && fm == m
        },
        Some(i) => r matches Ok(res) && res.position == position && res.dimension_id is None && res.changed
            && fm == (RepositoryModel { status_selections: m.status_selections.remove(i), ..m }),
    }
}

pub open spec fn mission_update_outcome(m: RepositoryModel, c: UpdateMission, r: RepositoryResult<MissionResult>, fm: RepositoryModel) -> bool {
    match m.mission_index(c.mission_id@) {
        None => r matches Err(e) && e.code == RepositoryErrorCode::NotFound && fm == m,
        Some(i) => {
            let cur = m.missions[i];
            let upd = updated_mission(cur, c);
            if same_editable_fields(upd, cur) {
                r matches Ok(res) && res.mission == cur && !res.changed && fm == m
            } else {
                r matches Ok(res) && res.mission == upd && res.changed
                    && fm == (RepositoryModel { missions: m.missions.update(i, upd), ..m })
            }
        },
    }
}

pub open spec fn mission_archive_outcome(m: RepositoryModel, id: Seq<char>, r: RepositoryResult<MissionResult>, fm: RepositoryModel) -> bool {
    match m.mission_index(id) {
        None => r matches Err(e) && e.code == RepositoryErrorCode::NotFound && fm == m,
        Some(i) => if m.missions[i].status == crate::state::MissionStatus::Archived {
            r matches Ok(res) && res.mission == m.missions[i] && !res.changed && fm == m
        } else {
            r matches Ok(res) && res.mission == archived_mission(m.missions[i]) && res.changed
                && fm == (RepositoryModel { missions: m.missions.update(i, archived_mission(m.missions[i])), ..m })
        },
    }
}

pub open spec fn mission_delete_outcome(m: RepositoryModel, id: Seq<char>, r: RepositoryResult<MissionDeleteResult>, fm: RepositoryModel) -> bool {
    match m.mission_index(id) {
        None => r matches Err(e) && e.code == RepositoryErrorCode::NotFound && fm == m,
        Some(i) => if has_child(m.missions, id) {
            r matches Err(e) && e.code == RepositoryErrorCode::Conflict && fm == m
        } else {
            r matches Ok(res) && res.mission_id@ == id && res.deleted
                && fm == (RepositoryModel { missions: m.missions.remove(i), ..m })
        },
    }
}

pub open spec fn suggestion_reject_outcome(m: RepositoryModel, id: Seq<char>, r: RepositoryResult<MissionSuggestionResult>, fm: RepositoryModel) -> bool {
    match m.suggestion_index(id) {
        None => r matches Err(e) && e.code == RepositoryErrorCode::NotFound && fm == m,
        Some(j) => {
            let cur = m.suggestions[j];
            if cur.status == MissionSuggestionStatus::Rejected {
                r matches Ok(res) && res.suggestion == cur && !res.changed && fm == m
            } else {
                let rejected = MissionSuggestion { status: MissionSuggestionStatus::Rejected, ..cur };
                r matches Ok(res) && res.suggestion == rejected && res.changed
                    && fm == (RepositoryModel { suggestions: m.suggestions.update(j, rejected), ..m })
            }
        },
    }
}

pub open spec fn suggestion_delete_outcome(m: RepositoryModel, id: Seq<char>, r: RepositoryResult<MissionSuggestionDeleteResult>, fm: RepositoryModel) -> bool {
    match m.suggestion_index(id) {
        None => r matches Err(e) && e.code == RepositoryErrorCode::NotFound && fm == m,
        Some(j) => r matches Ok(res) && res.suggestion_id@ == id && res.deleted
            && fm == (RepositoryModel { suggestions: m.suggestions.remove(j), ..m }),
    }
}

pub open spec fn memory_delete_outcome(m: RepositoryModel, id: Seq<char>, r: RepositoryResult<AssistantMemoryDeleteResult>, fm: RepositoryModel) -> bool {
    match m.memory_index(id) {
        None => r matches Err(e) && e.code == RepositoryErrorCode::NotFound && fm == m,
        Some(i) => r matches Ok(res) && res.memory_id@ == id && res.deleted
            && fm == (RepositoryModel { memories: m.memories.remove(i), ..m }),
    }
}

/// The outcome of one operation at time `at` on `m`, leading to `fm`.
/// Operations that make an identifier take a fresh one; an increment of a
/// number Record takes its sum from `add`.
pub open spec fn op_outcome<F: Fn(&JsonValue, &JsonValue) -> Option<JsonValue>>(
    m: RepositoryModel,
    op: MutationOperation,
    at: String,
    add: F,
    r: RepositoryResult<MutationValue>,
    fm: RepositoryModel,
) -> bool {
    match op {
        MutationOperation::RecordSet(c) => exists|rr: RepositoryResult<Record>|
            r == #[trigger] lift_record(rr) && outcome_holds(store_spec(m, scalar_of(c, at)), rr, m, fm),
        MutationOperation::RecordCorrect(c) => exists|rr: RepositoryResult<Record>|
            r == #[trigger] lift_record(rr) && outcome_holds(store_spec(m, scalar_of(c, at)), rr, m, fm),
        MutationOperation::RecordIncrement(c) => exists|rr: RepositoryResult<Record>, ns: Option<JsonValue>|
            #![trigger lift_record(rr), increment_spec(m, c, at, ns)]
            r == lift_record(rr)
                && (match number_operands(m, c) {
                    Some((a, b)) => add.ensures((&a, &b), ns),
                    None => true,
                })
                && outcome_holds(increment_spec(m, c, at, ns), rr, m, fm),
        MutationOperation::RecordCreateEmptyCollection(c) => exists|rr: RepositoryResult<Record>|
            r == #[trigger] lift_record(rr) && outcome_holds(create_record_spec(m, RecordModel::Collection {
                definition_id: c.definition_id,
                items: Seq::empty(),
            }), rr, m, fm),
        MutationOperation::RecordCreateEmptyEvent(c) => exists|rr: RepositoryResult<Record>|
            r == #[trigger] lift_record(rr) && outcome_holds(create_record_spec(m, RecordModel::Event {
                definition_id: c.definition_id,
                events: Seq::empty(),
            }), rr, m, fm),
        MutationOperation::RecordAddItem(c) => exists|rr: RepositoryResult<Record>|
            r == #[trigger] lift_record(rr) && add_item_holds(m, c, at, rr, fm),
        MutationOperation::RecordCorrectItem(c) => exists|rr: RepositoryResult<Record>|
            r == #[trigger] lift_record(rr) && outcome_holds(correct_item_spec(m, c, at), rr, m, fm),
        MutationOperation::RecordRemoveItem(c) => exists|rr: RepositoryResult<Record>|
            r == #[trigger] lift_record(rr) && outcome_holds(remove_item_spec(m, c.definition_id@, c.item_id@), rr, m, fm),
        MutationOperation::RecordAppendEvent(c) => exists|rr: RepositoryResult<Record>|
            r == #[trigger] lift_record(rr) && append_event_holds(m, c, at, rr, fm),
        MutationOperation::RecordCorrectEvent(c) => exists|rr: RepositoryResult<Record>|
            r == #[trigger] lift_record(rr) && correct_event_holds(m, c, at, rr, fm),
        MutationOperation::RecordDeleteEvent(c) => exists|rr: RepositoryResult<Record>|
            r == #[trigger] lift_record(rr) && outcome_holds(delete_event_spec(m, c.definition_id@, c.event_id@), rr, m, fm),
        MutationOperation::RecordDelete(t) => exists|rr: RepositoryResult<()>|
            r == #[trigger] lift_deleted_record(rr, t.definition_id) && record_delete_outcome(m, t.definition_id@, rr, fm),
        MutationOperation::PackWrite(c) => exists|rr: RepositoryResult<PackDetails>|
            r == #[trigger] lift_pack(rr) && pack_write_outcome(m, c@, rr, fm),
        MutationOperation::PackEnable(t) => exists|rr: RepositoryResult<PackEnabledState>|
            r == #[trigger] lift_enabled(rr) && pack_enabled_outcome(m, t.pack_id@, true, rr, fm),
        MutationOperation::PackDisable(t) => exists|rr: RepositoryResult<PackEnabledState>|
            r == #[trigger] lift_enabled(rr) && pack_enabled_outcome(m, t.pack_id@, false, rr, fm),
        MutationOperation::PackDelete(t) => exists|rr: RepositoryResult<PackDeleteResult>|
            r == #[trigger] lift_pack_deleted(rr) && pack_delete_outcome(m, t.pack_id@, rr, fm),
        MutationOperation::StatusSelect(i) => exists|rr: RepositoryResult<StatusSelectionResult>|
            r == #[trigger] lift_status(rr) && status_select_outcome(m, i.position, i.dimension_id, rr, fm),
        MutationOperation::StatusClear(i) => exists|rr: RepositoryResult<StatusSelectionResult>|
            r == #[trigger] lift_status(rr) && status_clear_outcome(m, i.position, rr, fm),
        MutationOperation::AchievementStateSet(c) => exists|rr: RepositoryResult<AchievementStateResult>|
            r == #[trigger] lift_achievement(rr) && set_state_outcome(m, c, rr, fm),
        MutationOperation::AchievementStateRevoke(t) => exists|rr: RepositoryResult<AchievementStateResult>|
            r == #[trigger] lift_achievement(rr) && revoke_state_outcome(m, t.achievement_id@, rr, fm),
        MutationOperation::MissionCreate(c) => exists|rr: RepositoryResult<MissionResult>, id: String|
            #![trigger create_outcome(m, c, id, at, rr, fm)]
            r == lift_mission(rr) && uuid_v7_shape(id@) && create_outcome(m, c, id, at, rr, fm),
        MutationOperation::MissionUpdate(c) => exists|rr: RepositoryResult<MissionResult>|
            r == #[trigger] lift_mission(rr) && mission_update_outcome(m, c, rr, fm),
        MutationOperation::MissionComplete(t) => exists|rr: RepositoryResult<MissionResult>|
            r == #[trigger] lift_mission(rr) && complete_outcome(m, t.mission_id@, at, rr, fm),
        MutationOperation::MissionArchive(t) => exists|rr: RepositoryResult<MissionResult>|
            r == #[trigger] lift_mission(rr) && mission_archive_outcome(m, t.mission_id@, rr, fm),
        MutationOperation::MissionDelete(t) => exists|rr: RepositoryResult<MissionDeleteResult>|
            r == #[trigger] lift_mission_deleted(rr) && mission_delete_outcome(m, t.mission_id@, rr, fm),
        MutationOperation::MissionSuggest(c) => exists|rr: RepositoryResult<MissionSuggestionResult>, id: String|
            #![trigger suggest_outcome(m, c, id, at, rr, fm)]
            r == lift_suggestion(rr) && uuid_v7_shape(id@) && suggest_outcome(m, c, id, at, rr, fm),
        MutationOperation::MissionAccept(t) => exists|rr: RepositoryResult<MissionResult>|
            r == #[trigger] lift_mission(rr) && accept_outcome(m, t.suggestion_id@, at, rr, fm),
        MutationOperation::MissionReject(t) => exists|rr: RepositoryResult<MissionSuggestionResult>|
            r == #[trigger] lift_suggestion(rr) && suggestion_reject_outcome(m, t.suggestion_id@, rr, fm),
        MutationOperation::MissionSuggestionDelete(t) => exists|rr: RepositoryResult<MissionSuggestionDeleteResult>|
            r == #[trigger] lift_suggestion_deleted(rr) && suggestion_delete_outcome(m, t.suggestion_id@, rr, fm),
        MutationOperation::MemoryCreate(c) => exists|rr: RepositoryResult<AssistantMemoryResult>, id: String|
            #![trigger create_memory_outcome(m, c, id, at, rr, fm)]
            r == lift_memory(rr) && uuid_v7_shape(id@) && create_memory_outcome(m, c, id, at, rr, fm),
        MutationOperation::MemoryUpdate(c) => exists|rr: RepositoryResult<AssistantMemoryResult>|
            r == #[trigger] lift_memory(rr) && update_memory_outcome(m, c, at, rr, fm),
        MutationOperation::MemoryDelete(t) => exists|rr: RepositoryResult<AssistantMemoryDeleteResult>|
            r == #[trigger] lift_memory_deleted(rr) && memory_delete_outcome(m, t.memory_id@, rr, fm),
    }
}



// ---------------------------------------------------------------------------
// Applying operations
// ---------------------------------------------------------------------------

fn lift_record_exec(r: RepositoryResult<Record>) -> (out: RepositoryResult<MutationValue>)
    ensures
        out == lift_record(r),
{
    match r {
        Ok(v) => Ok(MutationValue::Record(v)),
        Err(e) => Err(e),
    }
}

fn lift_pack_exec(r: RepositoryResult<PackDetails>) -> (out: RepositoryResult<MutationValue>)
    ensures
        out == lift_pack(r),
{
    match r {
        Ok(v) => Ok(MutationValue::Pack(v)),
        Err(e) => Err(e),
    }
}

fn lift_enabled_exec(r: RepositoryResult<PackEnabledState>) -> (out: RepositoryResult<MutationValue>)
    ensures
        out == lift_enabled(r),
{
    match r {
        Ok(v) => Ok(MutationValue::PackEnabled(v)),
        Err(e) => Err(e),
    }
}

fn lift_pack_deleted_exec(r: RepositoryResult<PackDeleteResult>) -> (out: RepositoryResult<MutationValue>)
    ensures
        out == lift_pack_deleted(r),
{
    match r {
        Ok(v) => Ok(MutationValue::PackDeleted(v)),
        Err(e) => Err(e),
    }
}

fn lift_status_exec(r: RepositoryResult<StatusSelectionResult>) -> (out: RepositoryResult<MutationValue>)
    ensures
        out == lift_status(r),
{
    match r {
        Ok(v) => Ok(MutationValue::StatusSelection(v)),
        Err(e) => Err(e),
    }
}

fn lift_achievement_exec(r: RepositoryResult<AchievementStateResult>) -> (out: RepositoryResult<MutationValue>)
    ensures
        out == lift_achievement(r),
{
    match r {
        Ok(v) => Ok(MutationValue::AchievementState(v)),
        Err(e) => Err(e),
    }
}

fn lift_mission_exec(r: RepositoryResult<MissionResult>) -> (out: RepositoryResult<MutationValue>)
    ensures
        out == lift_mission(r),
{
    match r {
        Ok(v) => Ok(MutationValue::Mission(v)),
        Err(e) => Err(e),
    }
}

fn lift_mission_deleted_exec(r: RepositoryResult<MissionDeleteResult>) -> (out: RepositoryResult<MutationValue>)
    ensures
        out == lift_mission_deleted(r),
{
    match r {
        Ok(v) => Ok(MutationValue::MissionDeleted(v)),
        Err(e) => Err(e),
    }
}

fn lift_suggestion_exec(r: RepositoryResult<MissionSuggestionResult>) -> (out: RepositoryResult<MutationValue>)
    ensures
        out == lift_suggestion(r),
{
    match r {
        Ok(v) => Ok(MutationValue::Suggestion(v)),
        Err(e) => Err(e),
    }
}

fn lift_suggestion_deleted_exec(r: RepositoryResult<MissionSuggestionDeleteResult>) -> (out: RepositoryResult<MutationValue>)
    ensures
        out == lift_suggestion_deleted(r),
{
    match r {
        Ok(v) => Ok(MutationValue::SuggestionDeleted(v)),
        Err(e) => Err(e),
    }
}

fn lift_memory_exec(r: RepositoryResult<AssistantMemoryResult>) -> (out: RepositoryResult<MutationValue>)
    ensures
        out == lift_memory(r),
{
    match r {
        Ok(v) => Ok(MutationValue::Memory(v)),
        Err(e) => Err(e),
    }
}

fn lift_memory_deleted_exec(r: RepositoryResult<AssistantMemoryDeleteResult>) -> (out: RepositoryResult<MutationValue>)
    ensures
        out == lift_memory_deleted(r),
{
    match r {
        Ok(v) => Ok(MutationValue::MemoryDeleted(v)),
        Err(e) => Err(e),
    }
}

fn lift_deleted_record_exec(r: RepositoryResult<()>, id: String) -> (out: RepositoryResult<MutationValue>)
    ensures
        out == lift_deleted_record(r, id),
{
    match r {
        Ok(_) => Ok(MutationValue::DeletedRecord(id)),
        Err(e) => Err(e),
    }
}

/// Apply one operation to the repository at time `at`.
pub fn apply_operation<F: Fn(&JsonValue, &JsonValue) -> Option<JsonValue> + Copy>(
    repository: &mut Repository,
    op: MutationOperation,
    at: &String,
    add: F,
) -> (r: RepositoryResult<MutationValue>)
    requires
        forall|a: &JsonValue, b: &JsonValue| add.requires((a, b)),
    ensures
        op_outcome(old(repository)@, op, *at, add, r, final(repository)@),
{
    let ghost m = repository@;
    match op {
        MutationOperation::RecordSet(c) => {
            let rr = repository.set_scalar_at(c, at.clone());
            lift_record_exec(rr)
        }
        MutationOperation::RecordCorrect(c) => {
            let rr = repository.set_scalar_at(c, at.clone());
            lift_record_exec(rr)
        }
        MutationOperation::RecordIncrement(c) => {
            let rr = repository.increment_scalar_at(c, at.clone(), add);
            let ghost g = rr;
            proof {
                let ns = choose|ns: Option<JsonValue>|
                    (match number_operands(m, c) {
                        Some((a, b)) => add.ensures((&a, &b), ns),
                        None => true,
                    }) && outcome_holds(increment_spec(m, c, *at, ns), g, m, repository@);
                assert(increment_spec(m, c, *at, ns) == increment_spec(m, c, *at, ns));
            }
            lift_record_exec(rr)
        }
        MutationOperation::RecordCreateEmptyCollection(c) => {
            let rr = repository.create_empty_collection(c);
            lift_record_exec(rr)
        }
        MutationOperation::RecordCreateEmptyEvent(c) => {
            let rr = repository.create_empty_event(c);
            lift_record_exec(rr)
        }
        MutationOperation::RecordAddItem(c) => {
            let rr = repository.add_collection_item_at(c, at.clone());
            lift_record_exec(rr)
        }
        MutationOperation::RecordCorrectItem(c) => {
            let rr = repository.correct_collection_item_at(c, at.clone());
            lift_record_exec(rr)
        }
        MutationOperation::RecordRemoveItem(c) => {
            let rr = repository.remove_collection_item(c);
            lift_record_exec(rr)
        }
        MutationOperation::RecordAppendEvent(c) => {
            let rr = repository.append_event_at(c, at.clone());
            lift_record_exec(rr)
        }
        MutationOperation::RecordCorrectEvent(c) => {
            let rr = repository.correct_event_at(c, at.clone());
            lift_record_exec(rr)
        }
        MutationOperation::RecordDeleteEvent(c) => {
            let rr = repository.delete_event(c);
            lift_record_exec(rr)
        }
        MutationOperation::RecordDelete(t) => {
            let rr = repository.delete_record(t.definition_id.as_str());
            lift_deleted_record_exec(rr, t.definition_id)
        }
        MutationOperation::PackWrite(c) => {
            let rr = repository.pack_write(c);
            lift_pack_exec(rr)
        }
        MutationOperation::PackEnable(t) => {
            let rr = repository.pack_set_enabled(t.pack_id.as_str(), true);
            lift_enabled_exec(rr)
        }
        MutationOperation::PackDisable(t) => {
            let rr = repository.pack_set_enabled(t.pack_id.as_str(), false);
            lift_enabled_exec(rr)
        }
        MutationOperation::PackDelete(t) => {
            let rr = repository.delete_pack(t.pack_id.as_str());
            lift_pack_deleted_exec(rr)
        }
        MutationOperation::StatusSelect(i) => {
            let rr = repository.status_select(i.position, i.dimension_id);
            lift_status_exec(rr)
        }
        MutationOperation::StatusClear(i) => {
            let rr = repository.status_clear_selection(i.position);
            lift_status_exec(rr)
        }
        MutationOperation::AchievementStateSet(c) => {
            let rr = apply_set_state(repository, c);
            lift_achievement_exec(rr)
        }
        MutationOperation::AchievementStateRevoke(t) => {
            let rr = apply_revoke_state(repository, t.achievement_id.as_str());
            lift_achievement_exec(rr)
        }
        MutationOperation::MissionCreate(c) => {
            let id = new_uuid_v7();
            let rr = repository.mission_create_at(c, id, at.clone());
            lift_mission_exec(rr)
        }
        MutationOperation::MissionUpdate(c) => {
            let rr = repository.mission_update(c);
            lift_mission_exec(rr)
        }
        MutationOperation::MissionComplete(t) => {
            let rr = repository.mission_complete_at(t.mission_id.as_str(), at.clone());
            lift_mission_exec(rr)
        }
        MutationOperation::MissionArchive(t) => {
            let rr = repository.mission_archive(t.mission_id.as_str());
            lift_mission_exec(rr)
        }
        MutationOperation::MissionDelete(t) => {
            let rr = repository.mission_delete(t.mission_id.as_str());
            lift_mission_deleted_exec(rr)
        }
        MutationOperation::MissionSuggest(c) => {
            let id = new_uuid_v7();
            let rr = repository.mission_suggest_at(c, id, at.clone());
            lift_suggestion_exec(rr)
        }
        MutationOperation::MissionAccept(t) => {
            let rr = repository.mission_accept_at(t.suggestion_id.as_str(), at.clone());
            lift_mission_exec(rr)
        }
        MutationOperation::MissionReject(t) => {
            let rr = repository.mission_reject(t.suggestion_id.as_str());
            lift_suggestion_exec(rr)
        }
        MutationOperation::MissionSuggestionDelete(t) => {
            let rr = repository.mission_delete_suggestion(t.suggestion_id.as_str());
            lift_suggestion_deleted_exec(rr)
        }
        MutationOperation::MemoryCreate(c) => {
            let id = new_uuid_v7();
            let rr = repository.memory_create_at(c, id, at.clone());
            lift_memory_exec(rr)
        }
        MutationOperation::MemoryUpdate(c) => {
            let rr = repository.memory_update_at(c, at.clone());
            lift_memory_exec(rr)
        }
        MutationOperation::MemoryDelete(t) => {
            let rr = repository.memory_delete(t.memory_id.as_str());
            lift_memory_deleted_exec(rr)
        }
    }
}


// ---------------------------------------------------------------------------
// Batches
// ---------------------------------------------------------------------------

/// Step `i` of a run: operation `i` succeeded with `values[i]`, taking
/// `states[i]` to `states[i + 1]`.
pub open spec fn step_holds<F: Fn(&JsonValue, &JsonValue) -> Option<JsonValue>>(
    states: Seq<RepositoryModel>,
    ops: Seq<MutationOperation>,
    at: String,
    add: F,
    values: Seq<MutationValue>,
    i: int,
) -> bool {
    op_outcome(states[i], ops[i], at, add, Ok(values[i]), states[i + 1])
}

/// The first `n` operations succeed one after another, passing through
/// `states` and producing `values`.
pub open spec fn run_holds<F: Fn(&JsonValue, &JsonValue) -> Option<JsonValue>>(
    states: Seq<RepositoryModel>,
    ops: Seq<MutationOperation>,
    n: int,
    at: String,
    add: F,
    values: Seq<MutationValue>,
) -> bool {
    &&& 0 <= n <= ops.len()
    &&& states.len() == n + 1
    &&& values.len() == n
    &&& forall|i: int| 0 <= i < n ==> #[trigger] step_holds(states, ops, at, add, values, i)
}

/// The per-operation results reported for a run: position, operation name
/// and value, in order.
pub open spec fn results_match(
    results: Seq<MutationOperationResult>,
    ops: Seq<MutationOperation>,
    values: Seq<MutationValue>,
) -> bool {
    &&& results.len() == values.len()
    &&& forall|i: int| 0 <= i < results.len() ==> {
        &&& (#[trigger] results[i]).index == i
        &&& results[i].operation@ == operation_name_spec(ops[i])
        &&& results[i].result == values[i]
    }
}

/// The error for a batch without operations.
pub open spec fn empty_batch_error(e: MutationBatchError) -> bool {
    &&& e.operation_index is None
    &&& e.operation is None
    &&& e.source.code == RepositoryErrorCode::ValidationFailed
    &&& e.source.message@ == "batch must contain at least one operation"@
    &&& e.source.validation_issues@.len() == 0
}

/// What a batch run at time `at` on `m` gives, leaving `fm`.
///
/// A batch that succeeds has run every operation in order; it leaves the
/// last state, or `m` itself for a dry run.  A batch that fails names the
/// first operation that failed, after all before it succeeded, and leaves
/// `m`.  An empty batch is refused.
pub open spec fn batch_outcome<F: Fn(&JsonValue, &JsonValue) -> Option<JsonValue>>(
    m: RepositoryModel,
    ops: Seq<MutationOperation>,
    dry_run: bool,
    at: String,
    add: F,
    r: Result<MutationBatchResult, MutationBatchError>,
    fm: RepositoryModel,
) -> bool {
    match r {
        Ok(res) => {
            &&& ops.len() > 0
            &&& res.dry_run == dry_run
            &&& exists|states: Seq<RepositoryModel>, values: Seq<MutationValue>|
                #[trigger] run_holds(states, ops, ops.len() as int, at, add, values)
                    && states[0] == m
                    && results_match(res.operations@, ops, values)
                    && fm == (if dry_run { m } else { states[ops.len() as int] })
        },
        Err(e) => {
            &&& fm == m
            &&& if ops.len() == 0 {
                empty_batch_error(e)
            } else {
                exists|k: int, states: Seq<RepositoryModel>, values: Seq<MutationValue>, failed: RepositoryModel|
                    #![trigger run_holds(states, ops, k, at, add, values), op_outcome(states[k], ops[k], at, add, Err(e.source), failed)]
                    run_holds(states, ops, k, at, add, values)
                        && k < ops.len()
                        && states[0] == m
                        && e.operation_index == Some(k as usize)
                        && (e.operation matches Some(name) && name@ == operation_name_spec(ops[k]))
                        && op_outcome(states[k], ops[k], at, add, Err(e.source), failed)
            }
        },
    }
}

impl Repository {
    /// Apply a batch at time `at` as one transaction.
    pub fn apply_batch_at<F: Fn(&JsonValue, &JsonValue) -> Option<JsonValue> + Copy>(
        &mut self,
        batch: ApplyMutationBatch,
        dry_run: bool,
        at: String,
        add: F,
    ) -> (r: Result<MutationBatchResult, MutationBatchError>)
        requires
            forall|a: &JsonValue, b: &JsonValue| add.requires((a, b)),
        ensures
            batch_outcome(old(self)@, batch.operations@, dry_run, at, add, r, final(self)@),
    {
        let ghost m = self@;
        let ghost ops = batch.operations@;
        let n = batch.operations.len();
        if n == 0 {
            return Err(MutationBatchError {
                operation_index: None,
                operation: None,
                source: RepositoryError::new(
                    RepositoryErrorCode::ValidationFailed,
                    String::from_str("batch must contain at least one operation"),
                ),
            });
        }
        let snapshot = self.copied();
        let mut rest = batch.operations;
        let mut results: Vec<MutationOperationResult> = Vec::new();
        let mut failure: Option<MutationBatchError> = None;
        let ghost mut states: Seq<RepositoryModel> = seq![m];
        let ghost mut values: Seq<MutationValue> = Seq::empty();
        let mut index: usize = 0;
        while index < n
            invariant_except_break
                index <= n,
                rest@ == ops.skip(index as int),
                self@ == states[index as int],
                results_match(results@, ops, values),
                failure is None,
            invariant
                n == ops.len(),
                snapshot@ == m,
                run_holds(states, ops, index as int, at, add, values),
                states[0] == m,
                forall|a: &JsonValue, b: &JsonValue| add.requires((a, b)),
            ensures
                failure is None ==> {
                    &&& index == n
                    &&& self@ == states[index as int]
                    &&& results_match(results@, ops, values)
                },
                failure matches Some(e) ==> {
                    &&& index < n
                    &&& e.operation_index == Some(index)
                    &&& (e.operation matches Some(nm) && nm@ == operation_name_spec(ops[index as int]))
                    &&& op_outcome(states[index as int], ops[index as int], at, add, Err(e.source), self@)
                },
            decreases n - index,
        {
            let op = rest.remove(0);
            let ghost gop = op;
            assert(gop == ops[index as int]);
            let name = op.operation_name();
            let ghost before = self@;
            let outcome = apply_operation(self, op, &at, add);
            match outcome {
                Ok(value) => {
                    let ghost gv = value;
                    results.push(MutationOperationResult { index, operation: String::from_str(name), result: value });
                    proof {
                        let states2 = states.push(self@);
                        let values2 = values.push(gv);
                        assert forall|i: int| 0 <= i < index + 1 implies
                            #[trigger] step_holds(states2, ops, at, add, values2, i) by {
                            if i < index {
                                assert(step_holds(states, ops, at, add, values, i));
                                assert(states2[i] == states[i] && states2[i + 1] == states[i + 1]);
                            } else {
                                assert(states2[i] == before && states2[i + 1] == self@);
                            }
                        }
                        states = states2;
                        values = values2;
                    }
                    index = index + 1;
                },
                Err(source) => {
                    failure = Some(MutationBatchError {
                        operation_index: Some(index),
                        operation: Some(String::from_str(name)),
                        source,
                    });
                    break;
                },
            }
        }
        match failure {
            Some(err) => {
                let ghost failed = self@;
                *self = snapshot;
                proof {
                    let k = index as int;
                    assert(run_holds(states, ops, k, at, add, values));
                    assert(op_outcome(states[k], ops[k], at, add, Err(err.source), failed));
                }
                Err(err)
            },
            None => {
                if dry_run {
                    *self = snapshot;
                }
                Ok(MutationBatchResult { dry_run, operations: results })
            },
        }
    }
}

/// Commands that apply operations in batches.
pub struct MutationCommands<'repository> {
    pub repository: &'repository mut Repository,
}

impl<'repository> MutationCommands<'repository> {
    pub fn new(repository: &'repository mut Repository) -> (r: Self)
        ensures
            r.repository@ == old(repository)@,
    {
        MutationCommands { repository }
    }

    /// Apply a batch now, as one transaction; a dry run reports the results
    /// and leaves the repository as it was.
    pub fn apply_batch<F: Fn(&JsonValue, &JsonValue) -> Option<JsonValue> + Copy>(
        &mut self,
        batch: ApplyMutationBatch,
        dry_run: bool,
        add: F,
    ) -> (r: Result<MutationBatchResult, MutationBatchError>)
        requires
            forall|a: &JsonValue, b: &JsonValue| add.requires((a, b)),
        ensures
            exists|at: String|
                is_clock_time(at@)
                    && batch_outcome(old(self).repository@, batch.operations@, dry_run, at, add, r, final(self).repository@),
    {
        let at = now_rfc3339();
        let ghost ops = batch.operations@;
        let ghost m = self.repository@;
        let r = self.repository.apply_batch_at(batch, dry_run, at, add);
        assert(batch_outcome(m, ops, dry_run, at, add, r, self.repository@));
        r
    }

    /// Apply one operation now, on its own; a dry run reports the result and
    /// leaves the repository as it was.
    pub fn apply_one<F: Fn(&JsonValue, &JsonValue) -> Option<JsonValue> + Copy>(
        &mut self,
        operation: MutationOperation,
        dry_run: bool,
        add: F,
    ) -> (r: RepositoryResult<MutationValue>)
        requires
            forall|a: &JsonValue, b: &JsonValue| add.requires((a, b)),
        ensures
            exists|at: String, fm: RepositoryModel|
                is_clock_time(at@)
                    && #[trigger] op_outcome(old(self).repository@, operation, at, add, r, fm)
                    && final(self).repository@ == (if dry_run || r is Err { old(self).repository@ } else { fm }),
    {
        let ghost m = self.repository@;
        let ghost gop = operation;
        let mut operations: Vec<MutationOperation> = Vec::new();
        operations.push(operation);
        let ghost ops = operations@;
        assert(ops[0] == gop);
        match self.apply_batch(ApplyMutationBatch { operations }, dry_run, add) {
            Ok(batch) => {
                proof {
                    let at = choose|at: String|
                        is_clock_time(at@) && batch_outcome(m, ops, dry_run, at, add, Ok::<MutationBatchResult, MutationBatchError>(batch), self.repository@);
                    let (states, values) = choose|states: Seq<RepositoryModel>, values: Seq<MutationValue>|
                        #[trigger] run_holds(states, ops, ops.len() as int, at, add, values)
                            && states[0] == m
                            && results_match(batch.operations@, ops, values)
                            && self.repository@ == (if dry_run { m } else { states[ops.len() as int] });
                    assert(step_holds(states, ops, at, add, values, 0));
                    assert(batch.operations@[0].result == values[0]);
                    assert(op_outcome(m, gop, at, add, Ok::<MutationValue, RepositoryError>(batch.operations@[0].result), states[1]));
                }
                let mut results = batch.operations;
                let first = results.remove(0);
                Ok(first.result)
            },
            Err(e) => {
                proof {
                    let at = choose|at: String|
                        is_clock_time(at@) && batch_outcome(m, ops, dry_run, at, add, Err::<MutationBatchResult, MutationBatchError>(e), self.repository@);
                    let (k, states, values, failed) = choose|k: int, states: Seq<RepositoryModel>, values: Seq<MutationValue>, failed: RepositoryModel|
                        #![trigger run_holds(states, ops, k, at, add, values), op_outcome(states[k], ops[k], at, add, Err(e.source), failed)]
                        run_holds(states, ops, k, at, add, values)
                            && k < ops.len()
                            && states[0] == m
                            && e.operation_index == Some(k as usize)
                            && (e.operation matches Some(name) && name@ == operation_name_spec(ops[k]))
                            && op_outcome(states[k], ops[k], at, add, Err(e.source), failed);
                    assert(k == 0);
                    assert(op_outcome(m, gop, at, add, Err::<MutationValue, RepositoryError>(e.source), failed));
                }
                Err(e.source)
            },
        }
    }
}

} // verus!
