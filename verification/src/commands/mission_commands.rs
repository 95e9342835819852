//! Mission commands: the Mission lifecycle and local Mission suggestions.
use vstd::prelude::*;
use crate::clock::{is_clock_time, new_uuid_v7, now_rfc3339, uuid_v7_shape};
use crate::error::{RepositoryError, RepositoryErrorCode, RepositoryResult};
use crate::record::copy_opt_string;
use crate::repository::{Repository, RepositoryModel};
use crate::seqs::{lemma_filter_ends, lemma_filter_step};
use crate::state::{Mission, MissionDifficulty, MissionStatus, MissionSuggestion, MissionSuggestionStatus};
use crate::text::{concat3, str_eq};

verus! {

#[derive(Debug, Clone, Default, PartialEq, Eq)]
pub struct QueryMissions {
    pub mission_id: Option<String>,
    pub status: Option<MissionStatus>,
    pub parent_id: Option<String>,
}

#[derive(Debug, Clone, PartialEq, Eq)]
pub struct CreateMission {
    pub title: String,
    pub description: Option<String>,
    pub progress: Option<u8>,
    pub difficulty: Option<MissionDifficulty>,
    pub deadline: Option<String>,
    pub parent_id: Option<String>,
}

/// Full replacement of a Mission's editable fields.  Omitted optional fields
/// are cleared; lifecycle and timestamp fields stay as the commands set them.
#[derive(Debug, Clone, PartialEq, Eq)]
pub struct UpdateMission {
    pub mission_id: String,
    pub title: String,
    pub description: Option<String>,
    pub progress: Option<u8>,
    pub difficulty: Option<MissionDifficulty>,
    pub deadline: Option<String>,
    pub parent_id: Option<String>,
}

#[derive(Debug, Clone, PartialEq, Eq)]
pub struct MissionResult {
    pub mission: Mission,
    pub changed: bool,
}

#[derive(Debug, Clone, PartialEq, Eq)]
pub struct MissionDeleteResult {
    pub mission_id: String,
    pub deleted: bool,
}

#[derive(Debug, Clone, Default, PartialEq, Eq)]
pub struct QueryMissionSuggestions {
    pub suggestion_id: Option<String>,
    pub status: Option<MissionSuggestionStatus>,
}

#[derive(Debug, Clone, PartialEq, Eq)]
pub struct SuggestMission {
    pub title: String,
    pub description: Option<String>,
    pub difficulty: Option<MissionDifficulty>,
    pub deadline: Option<String>,
    pub parent_mission_id: Option<String>,
    pub reason: Option<String>,
}

#[derive(Debug, Clone, PartialEq, Eq)]
pub struct MissionSuggestionResult {
    pub suggestion: MissionSuggestion,
    pub changed: bool,
}

#[derive(Debug, Clone, PartialEq, Eq)]
pub struct MissionSuggestionDeleteResult {
    pub suggestion_id: String,
    pub deleted: bool,
}

// ---------------------------------------------------------------------------
// Rules
// ---------------------------------------------------------------------------

pub open spec fn opt_str_view(o: Option<String>) -> Option<Seq<char>> {
    match o {
        Some(s) => Some(s@),
        None => None,
    }
}

/// A Mission matches a query when it agrees with every filter that is set.
pub open spec fn matches_mission_query(m: Mission, q: QueryMissions) -> bool {
    &&& (q.mission_id matches Some(id) ==> m.id@ == id@)
    &&& (q.status matches Some(s) ==> m.status == s)
    &&& (q.parent_id matches Some(p) ==> opt_str_view(m.parent_id) == Some(p@))
}

pub open spec fn matches_suggestion_query(s: MissionSuggestion, q: QueryMissionSuggestions) -> bool {
    &&& (q.suggestion_id matches Some(id) ==> s.id@ == id@)
    &&& (q.status matches Some(st) ==> s.status == st)
}

pub open spec fn mission_filter(q: QueryMissions) -> spec_fn(Mission) -> bool {
    |m: Mission| matches_mission_query(m, q)
}

pub open spec fn suggestion_filter(q: QueryMissionSuggestions) -> spec_fn(MissionSuggestion) -> bool {
    |s: MissionSuggestion| matches_suggestion_query(s, q)
}

/// The Mission a create command makes.
pub open spec fn new_mission(c: CreateMission, id: String, at: String) -> Mission {
    Mission {
        id: id,
        title: c.title,
        description: c.description,
        status: MissionStatus::Active,
        progress: c.progress,
        difficulty: c.difficulty,
        deadline: c.deadline,
        parent_id: c.parent_id,
        created_at: at,
        completed_at: None,
    }
}

/// A Mission with the editable fields of an update command.
pub open spec fn updated_mission(cur: Mission, c: UpdateMission) -> Mission {
    Mission {
        title: c.title,
        description: c.description,
        progress: c.progress,
        difficulty: c.difficulty,
        deadline: c.deadline,
        parent_id: c.parent_id,
        ..cur
    }
}

/// The editable fields agree, strings compared by content.
pub open spec fn same_editable_fields(a: Mission, b: Mission) -> bool {
    &&& a.title@ == b.title@
    &&& opt_str_view(a.description) == opt_str_view(b.description)
    &&& a.progress == b.progress
    &&& a.difficulty == b.difficulty
    &&& opt_str_view(a.deadline) == opt_str_view(b.deadline)
    &&& opt_str_view(a.parent_id) == opt_str_view(b.parent_id)
}

/// A completed Mission: a progress that is tracked becomes 100.
pub open spec fn completed_mission(cur: Mission, at: String) -> Mission {
    Mission {
        status: MissionStatus::Completed,
        progress: if cur.progress is Some { Some(100u8) } else { None },
        completed_at: Some(at),
        ..cur
    }
}

pub open spec fn archived_mission(cur: Mission) -> Mission {
    Mission { status: MissionStatus::Archived, ..cur }
}

/// Some Mission names `id` as its parent.
pub open spec fn has_child(missions: Seq<Mission>, id: Seq<char>) -> bool {
    exists|k: int| 0 <= k < missions.len() && opt_str_view((#[trigger] missions[k]).parent_id) == Some(id)
}

pub open spec fn new_suggestion(c: SuggestMission, id: String, at: String) -> MissionSuggestion {
    MissionSuggestion {
        id: id,
        title: c.title,
        description: c.description,
        difficulty: c.difficulty,
        deadline: c.deadline,
        parent_mission_id: c.parent_mission_id,
        reason: c.reason,
        generated_at: at,
        status: MissionSuggestionStatus::Pending,
    }
}

/// The Mission an accepted suggestion becomes.
pub open spec fn accepted_mission(s: MissionSuggestion, at: String) -> Mission {
    Mission {
        id: s.id,
        title: s.title,
        description: s.description,
        status: MissionStatus::Active,
        progress: None,
        difficulty: s.difficulty,
        deadline: s.deadline,
        parent_id: s.parent_mission_id,
        created_at: at,
        completed_at: None,
    }
}

/// The outcome of creating a Mission with identifier `id` at time `at`.
pub open spec fn create_outcome(m: RepositoryModel, c: CreateMission, id: String, at: String, r: RepositoryResult<MissionResult>, fm: RepositoryModel) -> bool {
    match m.mission_index(id@) {
        Some(_) => r matches Err(e) && e.code == RepositoryErrorCode::Conflict && fm == m,
        None => r matches Ok(res) && res.mission == new_mission(c, id, at) && res.changed
            && fm == (RepositoryModel { missions: m.missions.push(new_mission(c, id, at)), ..m }),
    }
}

/// The outcome of recording a suggestion with identifier `id` at time `at`.
pub open spec fn suggest_outcome(m: RepositoryModel, c: SuggestMission, id: String, at: String, r: RepositoryResult<MissionSuggestionResult>, fm: RepositoryModel) -> bool {
    match m.suggestion_index(id@) {
        Some(_) => r matches Err(e) && e.code == RepositoryErrorCode::Conflict && fm == m,
        None => r matches Ok(res) && res.suggestion == new_suggestion(c, id, at) && res.changed
            && fm == (RepositoryModel { suggestions: m.suggestions.push(new_suggestion(c, id, at)), ..m }),
    }
}

/// The outcome of completing the Mission `id` at time `at`.
pub open spec fn complete_outcome(m: RepositoryModel, id: Seq<char>, at: String, r: RepositoryResult<MissionResult>, fm: RepositoryModel) -> bool {
    match m.mission_index(id) {
        None => r matches Err(e) && e.code == RepositoryErrorCode::NotFound && fm == m,
        Some(i) => match m.missions[i].status {
            MissionStatus::Completed => r matches Ok(res) && res.mission == m.missions[i] && !res.changed && fm == m,
            MissionStatus::Archived => r matches Err(e) && e.code == RepositoryErrorCode::Conflict && fm == m,
            MissionStatus::Active => r matches Ok(res) && res.mission == completed_mission(m.missions[i], at) && res.changed
                && fm == (RepositoryModel { missions: m.missions.update(i, completed_mission(m.missions[i], at)), ..m }),
        },
    }
}

/// The outcome of accepting the suggestion `id` at time `at`.
pub open spec fn accept_outcome(m: RepositoryModel, id: Seq<char>, at: String, r: RepositoryResult<MissionResult>, fm: RepositoryModel) -> bool {
    match m.suggestion_index(id) {
        None => r matches Err(e) && e.code == RepositoryErrorCode::NotFound && fm == m,
        Some(j) => if m.mission_index(m.suggestions[j].id@) is Some {
            r matches Err(e) && e.code == RepositoryErrorCode::Conflict && fm == m
        } else {
            r matches Ok(res) && res.mission == accepted_mission(m.suggestions[j], at) && res.changed
                && fm == (RepositoryModel {
                    missions: m.missions.push(accepted_mission(m.suggestions[j], at)),
                    suggestions: m.suggestions.remove(j),
                    ..m
                })
        },
    }
}

fn opt_str_eq(a: &Option<String>, b: &Option<String>) -> (r: bool)
    ensures
        r == (opt_str_view(*a) == opt_str_view(*b)),
{
    match (a, b) {
        (Some(x), Some(y)) => str_eq(x.as_str(), y.as_str()),
        (None, None) => true,
        _ => false,
    }
}

pub fn matches_mission_query_exec(m: &Mission, q: &QueryMissions) -> (r: bool)
    ensures
        r == matches_mission_query(*m, *q),
{
    let id_ok = match &q.mission_id {
        Some(id) => str_eq(m.id.as_str(), id.as_str()),
        None => true,
    };
    let status_ok = match q.status {
        Some(s) => m.status == s,
        None => true,
    };
    let parent_ok = match &q.parent_id {
        Some(p) => match &m.parent_id {
            Some(mp) => str_eq(mp.as_str(), p.as_str()),
            None => false,
        },
        None => true,
    };
    id_ok && status_ok && parent_ok
}

pub fn matches_suggestion_query_exec(s: &MissionSuggestion, q: &QueryMissionSuggestions) -> (r: bool)
    ensures
        r == matches_suggestion_query(*s, *q),
{
    let id_ok = match &q.suggestion_id {
        Some(id) => str_eq(s.id.as_str(), id.as_str()),
        None => true,
    };
    let status_ok = match q.status {
        Some(st) => s.status == st,
        None => true,
    };
    id_ok && status_ok
}

fn mission_not_found(id: &str) -> (r: RepositoryError)
    ensures
        r.code == RepositoryErrorCode::NotFound,
        r.message@ == "Mission '"@ + id@ + "' was not found"@,
        r.validation_issues@.len() == 0,
{
    RepositoryError::new(RepositoryErrorCode::NotFound, concat3("Mission '", id, "' was not found"))
}

fn suggestion_not_found(id: &str) -> (r: RepositoryError)
    ensures
        r.code == RepositoryErrorCode::NotFound,
        r.message@ == "MissionSuggestion '"@ + id@ + "' was not found"@,
        r.validation_issues@.len() == 0,
{
    RepositoryError::new(RepositoryErrorCode::NotFound, concat3("MissionSuggestion '", id, "' was not found"))
}

impl Repository {
    /// The first Mission that names `id` as its parent, if any.
    fn find_child_mission(&self, id: &str) -> (r: Option<usize>)
        ensures
            r matches Some(k) ==> k < self@.missions.len() && opt_str_view(self@.missions[k as int].parent_id) == Some(id@),
            r is None ==> !has_child(self@.missions, id@),
    {
        let mut k: usize = 0;
        while k < self.missions.len()
            invariant
                k <= self.missions@.len(),
                forall|j: int| 0 <= j < k ==> opt_str_view((#[trigger] self@.missions[j]).parent_id) != Some(id@),
            decreases self.missions.len() - k,
        {
            match &self.missions[k].parent_id {
                Some(p) => {
                    if str_eq(p.as_str(), id) {
                        return Some(k);
                    }
                }
                None => {}
            }
            k = k + 1;
        }
        None
    }
}

// ---------------------------------------------------------------------------
// Commands
// ---------------------------------------------------------------------------

pub struct MissionCommands<'repository> {
    pub repository: &'repository mut Repository,
}

impl Repository {
    /// Create a Mission with the given identifier and creation time.
    pub fn mission_create_at(&mut self, command: CreateMission, mission_id: String, created_at: String) -> (r: RepositoryResult<MissionResult>)
        ensures
            create_outcome(old(self)@, command, mission_id, created_at, r, final(self)@),
    {
        if self.find_mission(mission_id.as_str()).is_some() {
            return Err(RepositoryError::new(
                RepositoryErrorCode::Conflict,
                concat3("Mission '", mission_id.as_str(), "' already exists"),
            ));
        }
        let mission = Mission {
            id: mission_id,
            title: command.title,
            description: command.description,
            status: MissionStatus::Active,
            progress: command.progress,
            difficulty: command.difficulty,
            deadline: command.deadline,
            parent_id: command.parent_id,
            created_at,
            completed_at: None,
        };
        self.missions.push(mission.copied());
        Ok(MissionResult { mission, changed: true })
    }

    /// Replace a Mission's editable fields.
    pub fn mission_update(&mut self, command: UpdateMission) -> (r: RepositoryResult<MissionResult>)
        ensures
            match old(self)@.mission_index(command.mission_id@) {
                None => r matches Err(e) && e.code == RepositoryErrorCode::NotFound
                    && final(self)@ == old(self)@,
                Some(i) => {
                    let cur = old(self)@.missions[i];
                    let upd = updated_mission(cur, command);
                    if same_editable_fields(upd, cur) {
                        r matches Ok(res) && res.mission == cur && !res.changed
                            && final(self)@ == old(self)@
                    } else {
                        r matches Ok(res) && res.mission == upd && res.changed
                            && final(self)@ == (RepositoryModel {
                                missions: old(self)@.missions.update(i, upd),
                                ..old(self)@
                            })
                    }
                },
            },
    {
        let i = match self.find_mission(command.mission_id.as_str()) {
            Some(i) => i,
            None => return Err(mission_not_found(command.mission_id.as_str())),
        };
        let current = self.missions[i].copied();
        let same = str_eq(current.title.as_str(), command.title.as_str())
            && opt_str_eq(&current.description, &command.description)
            && current.progress == command.progress
            && current.difficulty == command.difficulty
            && opt_str_eq(&current.deadline, &command.deadline)
            && opt_str_eq(&current.parent_id, &command.parent_id);
        if same {
            return Ok(MissionResult { mission: current, changed: false });
        }
        let mission = Mission {
            title: command.title,
            description: command.description,
            progress: command.progress,
            difficulty: command.difficulty,
            deadline: command.deadline,
            parent_id: command.parent_id,
            ..current
        };
        self.missions.set(i, mission.copied());
        Ok(MissionResult { mission, changed: true })
    }

    /// Complete a Mission at the given time.  An archived Mission cannot be
    /// completed; completing a completed Mission changes nothing.
    pub fn mission_complete_at(&mut self, mission_id: &str, completed_at: String) -> (r: RepositoryResult<MissionResult>)
        ensures
            complete_outcome(old(self)@, mission_id@, completed_at, r, final(self)@),
    {
        let i = match self.find_mission(mission_id) {
            Some(i) => i,
            None => return Err(mission_not_found(mission_id)),
        };
        let current = self.missions[i].copied();
        match current.status {
            MissionStatus::Completed => {
                return Ok(MissionResult { mission: current, changed: false });
            }
            MissionStatus::Archived => {
                return Err(RepositoryError::new(
                    RepositoryErrorCode::Conflict,
                    concat3("archived Mission '", mission_id, "' cannot be completed"),
                ));
            }
            MissionStatus::Active => {}
        }
        let progress = if current.progress.is_some() { Some(100u8) } else { None };
        let mission = Mission { status: MissionStatus::Completed, progress, completed_at: Some(completed_at), ..current };
        self.missions.set(i, mission.copied());
        Ok(MissionResult { mission, changed: true })
    }

    /// Archive a Mission; archiving an archived Mission changes nothing.
    pub fn mission_archive(&mut self, mission_id: &str) -> (r: RepositoryResult<MissionResult>)
        ensures
            match old(self)@.mission_index(mission_id@) {
                None => r matches Err(e) && e.code == RepositoryErrorCode::NotFound
                    && final(self)@ == old(self)@,
                Some(i) => if old(self)@.missions[i].status == MissionStatus::Archived {
                    r matches Ok(res) && res.mission == old(self)@.missions[i] && !res.changed
                        && final(self)@ == old(self)@
                } else {
                    r matches Ok(res) && res.mission == archived_mission(old(self)@.missions[i]) && res.changed
                        && final(self)@ == (RepositoryModel {
                            missions: old(self)@.missions.update(i, archived_mission(old(self)@.missions[i])),
                            ..old(self)@
                        })
                },
            },
    {
        let i = match self.find_mission(mission_id) {
            Some(i) => i,
            None => return Err(mission_not_found(mission_id)),
        };
        let current = self.missions[i].copied();
        if current.status == MissionStatus::Archived {
            return Ok(MissionResult { mission: current, changed: false });
        }
        let mission = Mission { status: MissionStatus::Archived, ..current };
        self.missions.set(i, mission.copied());
        Ok(MissionResult { mission, changed: true })
    }

    /// Delete a Mission that no other Mission names as its parent.
    pub fn mission_delete(&mut self, mission_id: &str) -> (r: RepositoryResult<MissionDeleteResult>)
        ensures
            match old(self)@.mission_index(mission_id@) {
                None => r matches Err(e) && e.code == RepositoryErrorCode::NotFound
                    && final(self)@ == old(self)@,
                Some(i) => if has_child(old(self)@.missions, mission_id@) {
                    r matches Err(e) && e.code == RepositoryErrorCode::Conflict
                        && final(self)@ == old(self)@
                } else {
                    r matches Ok(res) && res.mission_id@ == mission_id@ && res.deleted
                        && final(self)@ == (RepositoryModel {
                            missions: old(self)@.missions.remove(i),
                            ..old(self)@
                        })
                },
            },
    {
        let i = match self.find_mission(mission_id) {
            Some(i) => i,
            None => return Err(mission_not_found(mission_id)),
        };
        match self.find_child_mission(mission_id) {
            Some(k) => {
                let child = self.missions[k].id.as_str();
                return Err(RepositoryError::new(
                    RepositoryErrorCode::Conflict,
                    crate::text::concat5("Mission '", mission_id, "' is still the parent of Mission '", child, "'"),
                ));
            }
            None => {}
        }
        let _ = self.missions.remove(i);
        Ok(MissionDeleteResult { mission_id: mission_id.to_string(), deleted: true })
    }

    /// Record a pending suggestion with the given identifier and time.
    pub fn mission_suggest_at(&mut self, command: SuggestMission, suggestion_id: String, generated_at: String) -> (r: RepositoryResult<MissionSuggestionResult>)
        ensures
            suggest_outcome(old(self)@, command, suggestion_id, generated_at, r, final(self)@),
    {
        if self.find_suggestion(suggestion_id.as_str()).is_some() {
            return Err(RepositoryError::new(
                RepositoryErrorCode::Conflict,
                concat3("MissionSuggestion '", suggestion_id.as_str(), "' already exists"),
            ));
        }
        let suggestion = MissionSuggestion {
            id: suggestion_id,
            title: command.title,
            description: command.description,
            difficulty: command.difficulty,
            deadline: command.deadline,
            parent_mission_id: command.parent_mission_id,
            reason: command.reason,
            generated_at,
            status: MissionSuggestionStatus::Pending,
        };
        self.suggestions.push(suggestion.copied());
        Ok(MissionSuggestionResult { suggestion, changed: true })
    }

    /// Turn a suggestion into an active Mission with the suggestion's
    /// identifier, created at the given time, and drop the suggestion.
    pub fn mission_accept_at(&mut self, suggestion_id: &str, created_at: String) -> (r: RepositoryResult<MissionResult>)
        ensures
            accept_outcome(old(self)@, suggestion_id@, created_at, r, final(self)@),
    {
        let j = match self.find_suggestion(suggestion_id) {
            Some(j) => j,
            None => return Err(suggestion_not_found(suggestion_id)),
        };
        let suggestion = self.suggestions[j].copied();
        if self.find_mission(suggestion.id.as_str()).is_some() {
            return Err(RepositoryError::new(
                RepositoryErrorCode::Conflict,
                concat3("Mission '", suggestion.id.as_str(), "' already exists"),
            ));
        }
        let mission = Mission {
            id: suggestion.id,
            title: suggestion.title,
            description: suggestion.description,
            status: MissionStatus::Active,
            progress: None,
            difficulty: suggestion.difficulty,
            deadline: suggestion.deadline,
            parent_id: suggestion.parent_mission_id,
            created_at,
            completed_at: None,
        };
        self.missions.push(mission.copied());
        let _ = self.suggestions.remove(j);
        Ok(MissionResult { mission, changed: true })
    }

    /// Reject a suggestion; rejecting a rejected suggestion changes nothing.
    pub fn mission_reject(&mut self, suggestion_id: &str) -> (r: RepositoryResult<MissionSuggestionResult>)
        ensures
            match old(self)@.suggestion_index(suggestion_id@) {
                None => r matches Err(e) && e.code == RepositoryErrorCode::NotFound
                    && final(self)@ == old(self)@,
                Some(j) => {
                    let cur = old(self)@.suggestions[j];
                    if cur.status == MissionSuggestionStatus::Rejected {
                        r matches Ok(res) && res.suggestion == cur && !res.changed
                            && final(self)@ == old(self)@
                    } else {
                        let rejected = MissionSuggestion { status: MissionSuggestionStatus::Rejected, ..cur };
                        r matches Ok(res) && res.suggestion == rejected && res.changed
                            && final(self)@ == (RepositoryModel {
                                suggestions: old(self)@.suggestions.update(j, rejected),
                                ..old(self)@
                            })
                    }
                },
            },
    {
        let j = match self.find_suggestion(suggestion_id) {
            Some(j) => j,
            None => return Err(suggestion_not_found(suggestion_id)),
        };
        let current = self.suggestions[j].copied();
        if current.status == MissionSuggestionStatus::Rejected {
            return Ok(MissionSuggestionResult { suggestion: current, changed: false });
        }
        let suggestion = MissionSuggestion { status: MissionSuggestionStatus::Rejected, ..current };
        self.suggestions.set(j, suggestion.copied());
        Ok(MissionSuggestionResult { suggestion, changed: true })
    }

    /// Delete a suggestion.
    pub fn mission_delete_suggestion(&mut self, suggestion_id: &str) -> (r: RepositoryResult<MissionSuggestionDeleteResult>)
        ensures
            match old(self)@.suggestion_index(suggestion_id@) {
                None => r matches Err(e) && e.code == RepositoryErrorCode::NotFound
                    && final(self)@ == old(self)@,
                Some(j) => r matches Ok(res) && res.suggestion_id@ == suggestion_id@ && res.deleted
                    && final(self)@ == (RepositoryModel {
                        suggestions: old(self)@.suggestions.remove(j),
                        ..old(self)@
                    }),
            },
    {
        let j = match self.find_suggestion(suggestion_id) {
            Some(j) => j,
            None => return Err(suggestion_not_found(suggestion_id)),
        };
        let _ = self.suggestions.remove(j);
        Ok(MissionSuggestionDeleteResult { suggestion_id: suggestion_id.to_string(), deleted: true })
    }
}

impl<'repository> MissionCommands<'repository> {
    pub fn new(repository: &'repository mut Repository) -> (r: Self)
        ensures
            r.repository@ == old(repository)@,
            *final(repository) == *final(r.repository),
    {
        MissionCommands { repository }
    }

    /// The Missions that match the query, in stored order.
    pub fn list(&mut self, query: QueryMissions) -> (r: RepositoryResult<Vec<Mission>>)
        ensures
            r matches Ok(v) && v@ == old(self).repository@.missions.filter(mission_filter(query)),
            final(self).repository@ == old(self).repository@,
    {
        let ghost s = self.repository@.missions;
        proof { lemma_filter_ends(s, mission_filter(query)); }
        let mut out: Vec<Mission> = Vec::new();
        let mut k: usize = 0;
        while k < self.repository.missions.len()
            invariant
                k <= s.len(),
                s == self.repository@.missions,
                out@ == s.take(k as int).filter(mission_filter(query)),
            decreases self.repository.missions.len() - k,
        {
            proof { lemma_filter_step(s, mission_filter(query), k as int); }
            if matches_mission_query_exec(&self.repository.missions[k], &query) {
                out.push(self.repository.missions[k].copied());
            }
            k = k + 1;
        }
        Ok(out)
    }

    /// Create a Mission with a fresh identifier and the current time.
    pub fn create(&mut self, command: CreateMission) -> (r: RepositoryResult<MissionResult>)
        ensures
            exists|id: String, at: String| uuid_v7_shape(id@) && is_clock_time(at@) && create_outcome(old(self).repository@, command, id, at, r, final(self).repository@),
    {
        let id = new_uuid_v7();
        let at = now_rfc3339();
        let ghost (gid, gat) = (id, at);
        let r = self.create_at(command, id, at);
        proof { assert(create_outcome(old(self).repository@, command, gid, gat, r, self.repository@)); }
        r
    }

    /// Create a Mission with the given identifier and creation time.
    pub fn create_at(&mut self, command: CreateMission, mission_id: String, created_at: String) -> (r: RepositoryResult<MissionResult>)
        ensures
            create_outcome(old(self).repository@, command, mission_id, created_at, r, final(self).repository@),
    {
        self.repository.mission_create_at(command, mission_id, created_at)
    }

    /// Replace a Mission's editable fields.
    pub fn update(&mut self, command: UpdateMission) -> (r: RepositoryResult<MissionResult>)
        ensures
            match old(self).repository@.mission_index(command.mission_id@) {
                None => r matches Err(e) && e.code == RepositoryErrorCode::NotFound
                    && final(self).repository@ == old(self).repository@,
                Some(i) => {
                    let cur = old(self).repository@.missions[i];
                    let upd = updated_mission(cur, command);
                    if same_editable_fields(upd, cur) {
                        r matches Ok(res) && res.mission == cur && !res.changed
                            && final(self).repository@ == old(self).repository@
                    } else {
                        r matches Ok(res) && res.mission == upd && res.changed
                            && final(self).repository@ == (RepositoryModel {
                                missions: old(self).repository@.missions.update(i, upd),
                                ..old(self).repository@
                            })
                    }
                },
            },
    {
        self.repository.mission_update(command)
    }

    /// Complete a Mission now.
    pub fn complete(&mut self, mission_id: &str) -> (r: RepositoryResult<MissionResult>)
        ensures
            exists|at: String| is_clock_time(at@) && complete_outcome(old(self).repository@, mission_id@, at, r, final(self).repository@),
    {
        let at = now_rfc3339();
        let ghost g = at;
        let r = self.complete_at(mission_id, at);
        proof { assert(complete_outcome(old(self).repository@, mission_id@, g, r, self.repository@)); }
        r
    }

    /// Complete a Mission at the given time.  An archived Mission cannot be
    /// completed; completing a completed Mission changes nothing.
    pub fn complete_at(&mut self, mission_id: &str, completed_at: String) -> (r: RepositoryResult<MissionResult>)
        ensures
            complete_outcome(old(self).repository@, mission_id@, completed_at, r, final(self).repository@),
    {
        self.repository.mission_complete_at(mission_id, completed_at)
    }

    /// Archive a Mission; archiving an archived Mission changes nothing.
    pub fn archive(&mut self, mission_id: &str) -> (r: RepositoryResult<MissionResult>)
        ensures
            match old(self).repository@.mission_index(mission_id@) {
                None => r matches Err(e) && e.code == RepositoryErrorCode::NotFound
                    && final(self).repository@ == old(self).repository@,
                Some(i) => if old(self).repository@.missions[i].status == MissionStatus::Archived {
                    r matches Ok(res) && res.mission == old(self).repository@.missions[i] && !res.changed
                        && final(self).repository@ == old(self).repository@
                } else {
                    r matches Ok(res) && res.mission == archived_mission(old(self).repository@.missions[i]) && res.changed
                        && final(self).repository@ == (RepositoryModel {
                            missions: old(self).repository@.missions.update(i, archived_mission(old(self).repository@.missions[i])),
                            ..old(self).repository@
                        })
                },
            },
    {
        self.repository.mission_archive(mission_id)
    }

    /// Delete a Mission that no other Mission names as its parent.
    pub fn delete(&mut self, mission_id: &str) -> (r: RepositoryResult<MissionDeleteResult>)
        ensures
            match old(self).repository@.mission_index(mission_id@) {
                None => r matches Err(e) && e.code == RepositoryErrorCode::NotFound
                    && final(self).repository@ == old(self).repository@,
                Some(i) => if has_child(old(self).repository@.missions, mission_id@) {
                    r matches Err(e) && e.code == RepositoryErrorCode::Conflict
                        && final(self).repository@ == old(self).repository@
                } else {
                    r matches Ok(res) && res.mission_id@ == mission_id@ && res.deleted
                        && final(self).repository@ == (RepositoryModel {
                            missions: old(self).repository@.missions.remove(i),
                            ..old(self).repository@
                        })
                },
            },
    {
        self.repository.mission_delete(mission_id)
    }

    /// The suggestions that match the query, in stored order.
    pub fn list_suggestions(&mut self, query: QueryMissionSuggestions) -> (r: RepositoryResult<Vec<MissionSuggestion>>)
        ensures
            r matches Ok(v) && v@ == old(self).repository@.suggestions.filter(suggestion_filter(query)),
            final(self).repository@ == old(self).repository@,
    {
        let ghost s = self.repository@.suggestions;
        proof { lemma_filter_ends(s, suggestion_filter(query)); }
        let mut out: Vec<MissionSuggestion> = Vec::new();
        let mut k: usize = 0;
        while k < self.repository.suggestions.len()
            invariant
                k <= s.len(),
                s == self.repository@.suggestions,
                out@ == s.take(k as int).filter(suggestion_filter(query)),
            decreases self.repository.suggestions.len() - k,
        {
            proof { lemma_filter_step(s, suggestion_filter(query), k as int); }
            if matches_suggestion_query_exec(&self.repository.suggestions[k], &query) {
                out.push(self.repository.suggestions[k].copied());
            }
            k = k + 1;
        }
        Ok(out)
    }

    /// Record a suggestion with a fresh identifier and the current time.
    pub fn suggest(&mut self, command: SuggestMission) -> (r: RepositoryResult<MissionSuggestionResult>)
        ensures
            exists|id: String, at: String| uuid_v7_shape(id@) && is_clock_time(at@) && suggest_outcome(old(self).repository@, command, id, at, r, final(self).repository@),
    {
        let id = new_uuid_v7();
        let at = now_rfc3339();
        let ghost (gid, gat) = (id, at);
        let r = self.suggest_at(command, id, at);
        proof { assert(suggest_outcome(old(self).repository@, command, gid, gat, r, self.repository@)); }
        r
    }

    /// Record a pending suggestion with the given identifier and time.
    pub fn suggest_at(&mut self, command: SuggestMission, suggestion_id: String, generated_at: String) -> (r: RepositoryResult<MissionSuggestionResult>)
        ensures
            suggest_outcome(old(self).repository@, command, suggestion_id, generated_at, r, final(self).repository@),
    {
        self.repository.mission_suggest_at(command, suggestion_id, generated_at)
    }

    /// Turn a suggestion into an active Mission created now.
    pub fn accept(&mut self, suggestion_id: &str) -> (r: RepositoryResult<MissionResult>)
        ensures
            exists|at: String| is_clock_time(at@) && accept_outcome(old(self).repository@, suggestion_id@, at, r, final(self).repository@),
    {
        let at = now_rfc3339();
        let ghost g = at;
        let r = self.accept_at(suggestion_id, at);
        proof { assert(accept_outcome(old(self).repository@, suggestion_id@, g, r, self.repository@)); }
        r
    }

    /// Turn a suggestion into an active Mission with the suggestion's
    /// identifier, created at the given time, and drop the suggestion.
    pub fn accept_at(&mut self, suggestion_id: &str, created_at: String) -> (r: RepositoryResult<MissionResult>)
        ensures
            accept_outcome(old(self).repository@, suggestion_id@, created_at, r, final(self).repository@),
    {
        self.repository.mission_accept_at(suggestion_id, created_at)
    }

    /// Reject a suggestion; rejecting a rejected suggestion changes nothing.
    pub fn reject(&mut self, suggestion_id: &str) -> (r: RepositoryResult<MissionSuggestionResult>)
        ensures
            match old(self).repository@.suggestion_index(suggestion_id@) {
                None => r matches Err(e) && e.code == RepositoryErrorCode::NotFound
                    && final(self).repository@ == old(self).repository@,
                Some(j) => {
                    let cur = old(self).repository@.suggestions[j];
                    if cur.status == MissionSuggestionStatus::Rejected {
                        r matches Ok(res) && res.suggestion == cur && !res.changed
                            && final(self).repository@ == old(self).repository@
                    } else {
                        let rejected = MissionSuggestion { status: MissionSuggestionStatus::Rejected, ..cur };
                        r matches Ok(res) && res.suggestion == rejected && res.changed
                            && final(self).repository@ == (RepositoryModel {
                                suggestions: old(self).repository@.suggestions.update(j, rejected),
                                ..old(self).repository@
                            })
                    }
                },
            },
    {
        self.repository.mission_reject(suggestion_id)
    }

    /// Delete a suggestion.
    pub fn delete_suggestion(&mut self, suggestion_id: &str) -> (r: RepositoryResult<MissionSuggestionDeleteResult>)
        ensures
            match old(self).repository@.suggestion_index(suggestion_id@) {
                None => r matches Err(e) && e.code == RepositoryErrorCode::NotFound
                    && final(self).repository@ == old(self).repository@,
                Some(j) => r matches Ok(res) && res.suggestion_id@ == suggestion_id@ && res.deleted
                    && final(self).repository@ == (RepositoryModel {
                        suggestions: old(self).repository@.suggestions.remove(j),
                        ..old(self).repository@
                    }),
            },
    {
        self.repository.mission_delete_suggestion(suggestion_id)
    }
}

} // verus!
