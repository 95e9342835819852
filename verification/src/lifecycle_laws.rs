//! Laws on what the Mission, suggestion, memory and Achievement-state
//! commands leave behind: the fields of the Mission or memory they report
//! and store, and which of them a command keeps.
use vstd::prelude::*;
use crate::commands::achievement_commands::{set_state_outcome, AchievementStateResult, SetAchievementState};
use crate::commands::memory_commands::{
    create_memory_outcome, update_memory_outcome, AssistantMemoryResult, CreateAssistantMemory, UpdateAssistantMemory,
};
use crate::commands::mission_commands::{
    accept_outcome, complete_outcome, create_outcome, suggest_outcome, CreateMission, MissionResult,
    MissionSuggestionResult, SuggestMission, UpdateMission,
};
use crate::commands::mutation_commands::{mission_archive_outcome, mission_update_outcome, suggestion_reject_outcome};
use crate::error::{RepositoryErrorCode, RepositoryResult};
use crate::repository::{mission_is, suggestion_is, memory_is, RepositoryModel};
use crate::seqs::{lemma_first_match_some, lemma_first_match_update};
use crate::state::{AchievementStatus, MissionStatus, MissionSuggestionStatus};
use crate::text::seq_lt;

verus! {

/// A created Mission is active, has the fresh identifier and the creation
/// time, takes every field the command gives, and is not completed; it
/// joins the stored Missions after the others.  Creation fails exactly when
/// the identifier is taken.
pub proof fn law_created_mission_fields(
    m: RepositoryModel,
    c: CreateMission,
    id: String,
    at: String,
    r: RepositoryResult<MissionResult>,
    fm: RepositoryModel,
)
    requires
        create_outcome(m, c, id, at, r, fm),
    ensures
        r is Ok <==> m.mission_index(id@) is None,
        r matches Ok(res) ==> {
            &&& res.mission.id == id && res.mission.created_at == at
            &&& res.mission.status == MissionStatus::Active && res.mission.completed_at is None
            &&& res.mission.title == c.title && res.mission.description == c.description
            &&& res.mission.progress == c.progress && res.mission.difficulty == c.difficulty
            &&& res.mission.deadline == c.deadline && res.mission.parent_id == c.parent_id
            &&& fm.missions == m.missions.push(res.mission)
        },
{
}

/// Completing an active Mission marks it completed at the given time, sets
/// a progress it tracks to 100, keeps everything else and stores it in
/// place; a completed Mission stays as it is; an archived one is refused.
pub proof fn law_completed_mission_fields(
    m: RepositoryModel,
    id: Seq<char>,
    at: String,
    r: RepositoryResult<MissionResult>,
    fm: RepositoryModel,
)
    requires
        complete_outcome(m, id, at, r, fm),
        m.mission_index(id) is Some,
    ensures
        ({
            let cur = m.missions[m.mission_index(id)->0];
            &&& cur.status == MissionStatus::Archived <==> r is Err
            &&& r matches Ok(res) ==> {
                &&& res.mission.status == MissionStatus::Completed
                &&& res.mission.id == cur.id && res.mission.title == cur.title
                &&& res.mission.description == cur.description && res.mission.difficulty == cur.difficulty
                &&& res.mission.deadline == cur.deadline && res.mission.parent_id == cur.parent_id
                &&& res.mission.created_at == cur.created_at
                &&& (cur.status == MissionStatus::Active ==> res.mission.completed_at == Some(at)
                    && res.mission.progress == (if cur.progress is Some { Some(100u8) } else { None }))
                &&& (cur.status == MissionStatus::Completed ==> res.mission == cur)
                &&& fm.mission(id) == Some(res.mission)
                &&& fm.missions.len() == m.missions.len()
            }
        }),
{
    let i = m.mission_index(id)->0;
    lemma_first_match_some(m.missions, mission_is(id));
    if m.missions[i].status == MissionStatus::Active {
        let upd = fm.missions[i];
        assert(mission_is(id)(upd));
        lemma_first_match_update(m.missions, mission_is(id), i, upd);
        assert(m.missions.update(i, upd) == fm.missions);
    }
}

/// Archiving a Mission marks it archived and keeps everything else; it is
/// stored in place.
pub proof fn law_archived_mission_fields(
    m: RepositoryModel,
    id: Seq<char>,
    r: RepositoryResult<MissionResult>,
    fm: RepositoryModel,
)
    requires
        mission_archive_outcome(m, id, r, fm),
        m.mission_index(id) is Some,
    ensures
        ({
            let cur = m.missions[m.mission_index(id)->0];
            r matches Ok(res) && res.mission == crate::state::Mission { status: MissionStatus::Archived, ..cur }
                && res.changed == (cur.status != MissionStatus::Archived)
                && fm.mission(id) == Some(res.mission)
        }),
{
    let i = m.mission_index(id)->0;
    lemma_first_match_some(m.missions, mission_is(id));
    let cur = m.missions[i];
    if cur.status != MissionStatus::Archived {
        let upd = fm.missions[i];
        lemma_first_match_update(m.missions, mission_is(id), i, upd);
        assert(m.missions.update(i, upd) == fm.missions);
    } else {
        assert(cur == crate::state::Mission { status: MissionStatus::Archived, ..cur });
    }
}

/// Updating a Mission replaces its editable fields with the command's and
/// keeps its identifier, status and times.
pub proof fn law_updated_mission_fields(
    m: RepositoryModel,
    c: UpdateMission,
    r: RepositoryResult<MissionResult>,
    fm: RepositoryModel,
)
    requires
        mission_update_outcome(m, c, r, fm),
    ensures
        r is Ok <==> m.mission_index(c.mission_id@) is Some,
        r matches Ok(res) ==> ({
            let cur = m.missions[m.mission_index(c.mission_id@)->0];
            &&& res.mission.id == cur.id && res.mission.status == cur.status
            &&& res.mission.created_at == cur.created_at && res.mission.completed_at == cur.completed_at
            &&& res.mission.title@ == c.title@
            &&& res.mission.progress == c.progress && res.mission.difficulty == c.difficulty
            &&& fm.mission(c.mission_id@) == Some(res.mission)
        }),
{
    if let Some(i) = m.mission_index(c.mission_id@) {
        lemma_first_match_some(m.missions, mission_is(c.mission_id@));
        if fm != m {
            let upd = fm.missions[i];
            lemma_first_match_update(m.missions, mission_is(c.mission_id@), i, upd);
            assert(m.missions.update(i, upd) == fm.missions);
        }
    }
}

/// A recorded suggestion is pending, has the fresh identifier and the time,
/// takes every field the command gives and joins the stored suggestions.
pub proof fn law_suggested_fields(
    m: RepositoryModel,
    c: SuggestMission,
    id: String,
    at: String,
    r: RepositoryResult<MissionSuggestionResult>,
    fm: RepositoryModel,
)
    requires
        suggest_outcome(m, c, id, at, r, fm),
    ensures
        r is Ok <==> m.suggestion_index(id@) is None,
        r matches Ok(res) ==> {
            &&& res.suggestion.id == id && res.suggestion.generated_at == at
            &&& res.suggestion.status == MissionSuggestionStatus::Pending
            &&& res.suggestion.title == c.title && res.suggestion.description == c.description
            &&& res.suggestion.difficulty == c.difficulty && res.suggestion.deadline == c.deadline
            &&& res.suggestion.parent_mission_id == c.parent_mission_id && res.suggestion.reason == c.reason
            &&& fm.suggestions == m.suggestions.push(res.suggestion)
        },
{
}

/// Accepting a suggestion turns it into an active Mission with its
/// identifier, title, description, difficulty, deadline and parent, created
/// at the given time and tracking no progress; the suggestion leaves.
pub proof fn law_accepted_mission_fields(
    m: RepositoryModel,
    id: Seq<char>,
    at: String,
    r: RepositoryResult<MissionResult>,
    fm: RepositoryModel,
)
    requires
        accept_outcome(m, id, at, r, fm),
        m.suggestion_index(id) is Some,
    ensures
        ({
            let j = m.suggestion_index(id)->0;
            let s = m.suggestions[j];
            r matches Ok(res) ==> {
                &&& res.mission.id == s.id && res.mission.title == s.title
                &&& res.mission.description == s.description && res.mission.difficulty == s.difficulty
                &&& res.mission.deadline == s.deadline && res.mission.parent_id == s.parent_mission_id
                &&& res.mission.status == MissionStatus::Active && res.mission.progress is None
                &&& res.mission.created_at == at && res.mission.completed_at is None
                &&& fm.missions == m.missions.push(res.mission)
                &&& fm.suggestions == m.suggestions.remove(j)
            }
        }),
        r is Err <==> m.mission_index(id) is Some,
{
    lemma_first_match_some(m.suggestions, suggestion_is(id));
}

/// Rejecting a suggestion marks it rejected and keeps everything else.
pub proof fn law_rejected_suggestion_fields(
    m: RepositoryModel,
    id: Seq<char>,
    r: RepositoryResult<MissionSuggestionResult>,
    fm: RepositoryModel,
)
    requires
        suggestion_reject_outcome(m, id, r, fm),
        m.suggestion_index(id) is Some,
    ensures
        ({
            let cur = m.suggestions[m.suggestion_index(id)->0];
            r matches Ok(res) && res.suggestion == crate::state::MissionSuggestion {
                status: MissionSuggestionStatus::Rejected,
                ..cur
            } && res.changed == (cur.status != MissionSuggestionStatus::Rejected)
                && fm.suggestions.len() == m.suggestions.len()
        }),
{
    lemma_first_match_some(m.suggestions, suggestion_is(id));
    let cur = m.suggestions[m.suggestion_index(id)->0];
    if cur.status == MissionSuggestionStatus::Rejected {
        assert(cur == crate::state::MissionSuggestion { status: MissionSuggestionStatus::Rejected, ..cur });
    }
}

/// A created memory has the fresh identifier, the command's kind and
/// content, and the given time as both creation and update time.
pub proof fn law_created_memory_fields(
    m: RepositoryModel,
    c: CreateAssistantMemory,
    id: String,
    at: String,
    r: RepositoryResult<AssistantMemoryResult>,
    fm: RepositoryModel,
)
    requires
        create_memory_outcome(m, c, id, at, r, fm),
    ensures
        r is Ok <==> m.memory_index(id@) is None,
        r matches Ok(res) ==> {
            &&& res.memory.id == id && res.memory.kind == c.kind && res.memory.content == c.content
            &&& res.memory.created_at == at && res.memory.updated_at == at
            &&& fm.memories == m.memories.push(res.memory)
        },
{
}

/// Updating a memory to a new kind or content stores the command's kind and
/// content with the given update time and keeps its identifier and
/// creation time.
pub proof fn law_updated_memory_fields(
    m: RepositoryModel,
    c: UpdateAssistantMemory,
    at: String,
    r: RepositoryResult<AssistantMemoryResult>,
    fm: RepositoryModel,
)
    requires
        update_memory_outcome(m, c, at, r, fm),
        m.memory_index(c.memory_id@) is Some,
    ensures
        ({
            let cur = m.memories[m.memory_index(c.memory_id@)->0];
            r matches Ok(res) ==> {
                &&& res.memory.id == cur.id && res.memory.created_at == cur.created_at
                &&& res.memory.kind == c.kind && res.memory.content@ == c.content@
                &&& res.changed ==> res.memory.updated_at == at
                &&& !res.changed ==> res.memory == cur
                &&& fm.memory(c.memory_id@) == Some(res.memory)
            }
        }),
{
    let i = m.memory_index(c.memory_id@)->0;
    lemma_first_match_some(m.memories, memory_is(c.memory_id@));
    if fm != m {
        let upd = fm.memories[i];
        lemma_first_match_update(m.memories, memory_is(c.memory_id@), i, upd);
        assert(m.memories.update(i, upd) == fm.memories);
    }
}

/// Setting an Achievement state reports the state the command asks for:
/// its status and achievement time.
pub proof fn law_set_state_reports_it(
    m: RepositoryModel,
    c: SetAchievementState,
    r: RepositoryResult<AchievementStateResult>,
    fm: RepositoryModel,
)
    requires
        set_state_outcome(m, c, r, fm),
    ensures
        r matches Ok(res) ==> (res.achievement_id == c.achievement_id
            && (res.state matches Some(s) && s.status == c.status && s.achieved_at == c.achieved_at)),
        c.status == AchievementStatus::Tracking && c.achieved_at is Some ==> r is Err,
{
}

} // verus!
