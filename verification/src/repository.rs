//! The repository: Packs and their enabled state, Records, Achievement
//! states, Missions, Mission suggestions, assistant memory, and the
//! device-local display selections.
//!
//! Lookups follow first-match semantics.  Missions, Mission suggestions,
//! assistant memories and Achievement states each carry an identifier that
//! no other of their kind shares (`RepositoryModel::ids_unique`); every
//! command that changes them keeps it so, and there the first match is the
//! only one.
use vstd::prelude::*;
use crate::pack::{Pack, PackModel};
use crate::record::{Record, RecordModel};
use crate::seqs::{first_match, is_first_match, keys_unique, lemma_first_match_is, lemma_first_match_none};
use crate::state::{
    AchievementState, AssistantMemory, DashboardMissionSelections, Mission, MissionSuggestion,
    StatusDimensionSelection,
};
use crate::text::str_eq;

verus! {

pub struct Repository {
    pub enabled_pack_ids: Vec<String>,
    pub packs: Vec<Pack>,
    pub records: Vec<Record>,
    pub achievement_states: Vec<(String, AchievementState)>,
    pub missions: Vec<Mission>,
    pub suggestions: Vec<MissionSuggestion>,
    pub memories: Vec<AssistantMemory>,
    pub status_selections: Vec<StatusDimensionSelection>,
    pub dashboard_selections: DashboardMissionSelections,
}

pub struct RepositoryModel {
    pub enabled_pack_ids: Seq<Seq<char>>,
    pub packs: Seq<PackModel>,
    pub records: Seq<RecordModel>,
    pub achievement_states: Seq<(String, AchievementState)>,
    pub missions: Seq<Mission>,
    pub suggestions: Seq<MissionSuggestion>,
    pub memories: Seq<AssistantMemory>,
    pub status_selections: Seq<StatusDimensionSelection>,
    pub dashboard_selections: DashboardMissionSelections,
}

pub open spec fn packs_model(v: Seq<Pack>) -> Seq<PackModel> {
    v.map_values(|p: Pack| p@)
}

pub open spec fn names_model(v: Seq<String>) -> Seq<Seq<char>> {
    v.map_values(|s: String| s@)
}

pub open spec fn records_model(v: Seq<Record>) -> Seq<RecordModel> {
    v.map_values(|r: Record| r@)
}

impl View for Repository {
    type V = RepositoryModel;

    open spec fn view(&self) -> RepositoryModel {
        RepositoryModel {
            enabled_pack_ids: names_model(self.enabled_pack_ids@),
            packs: packs_model(self.packs@),
            records: records_model(self.records@),
            achievement_states: self.achievement_states@,
            missions: self.missions@,
            suggestions: self.suggestions@,
            memories: self.memories@,
            status_selections: self.status_selections@,
            dashboard_selections: self.dashboard_selections,
        }
    }
}

// ---------------------------------------------------------------------------
// Lookup rules
// ---------------------------------------------------------------------------

pub open spec fn record_is(id: Seq<char>) -> spec_fn(RecordModel) -> bool {
    |r: RecordModel| r.definition_id()@ == id
}

pub open spec fn pack_is(id: Seq<char>) -> spec_fn(PackModel) -> bool {
    |p: PackModel| p.manifest.id@ == id
}

pub open spec fn name_is(id: Seq<char>) -> spec_fn(Seq<char>) -> bool {
    |s: Seq<char>| s == id
}

pub open spec fn state_is(id: Seq<char>) -> spec_fn((String, AchievementState)) -> bool {
    |e: (String, AchievementState)| e.0@ == id
}

pub open spec fn mission_is(id: Seq<char>) -> spec_fn(Mission) -> bool {
    |m: Mission| m.id@ == id
}

pub open spec fn suggestion_is(id: Seq<char>) -> spec_fn(MissionSuggestion) -> bool {
    |m: MissionSuggestion| m.id@ == id
}

pub open spec fn memory_is(id: Seq<char>) -> spec_fn(AssistantMemory) -> bool {
    |m: AssistantMemory| m.id@ == id
}

pub open spec fn position_is(position: u8) -> spec_fn(StatusDimensionSelection) -> bool {
    |s: StatusDimensionSelection| s.position == position
}

pub open spec fn mission_key() -> spec_fn(Mission) -> Seq<char> {
    |m: Mission| m.id@
}

pub open spec fn suggestion_key() -> spec_fn(MissionSuggestion) -> Seq<char> {
    |m: MissionSuggestion| m.id@
}

pub open spec fn memory_key() -> spec_fn(AssistantMemory) -> Seq<char> {
    |m: AssistantMemory| m.id@
}

pub open spec fn state_key() -> spec_fn((String, AchievementState)) -> Seq<char> {
    |e: (String, AchievementState)| e.0@
}

impl RepositoryModel {
    /// Missions, Mission suggestions, assistant memories and Achievement
    /// states are each keyed by an identifier that no other of their kind
    /// shares.
    pub open spec fn ids_unique(self) -> bool {
        &&& keys_unique(self.missions, mission_key())
        &&& keys_unique(self.suggestions, suggestion_key())
        &&& keys_unique(self.memories, memory_key())
        &&& keys_unique(self.achievement_states, state_key())
    }

    pub open spec fn record_index(self, id: Seq<char>) -> Option<int> {
        first_match(self.records, record_is(id))
    }

    pub open spec fn pack_index(self, id: Seq<char>) -> Option<int> {
        first_match(self.packs, pack_is(id))
    }

    pub open spec fn is_enabled(self, id: Seq<char>) -> bool {
        first_match(self.enabled_pack_ids, name_is(id)) is Some
    }

    pub open spec fn state_index(self, id: Seq<char>) -> Option<int> {
        first_match(self.achievement_states, state_is(id))
    }

    pub open spec fn mission_index(self, id: Seq<char>) -> Option<int> {
        first_match(self.missions, mission_is(id))
    }

    pub open spec fn suggestion_index(self, id: Seq<char>) -> Option<int> {
        first_match(self.suggestions, suggestion_is(id))
    }

    pub open spec fn memory_index(self, id: Seq<char>) -> Option<int> {
        first_match(self.memories, memory_is(id))
    }

    pub open spec fn selection_index(self, position: u8) -> Option<int> {
        first_match(self.status_selections, position_is(position))
    }

    /// The current Record of a definition, if any.
    pub open spec fn record(self, id: Seq<char>) -> Option<RecordModel> {
        match self.record_index(id) {
            Some(i) => Some(self.records[i]),
            None => None,
        }
    }

    pub open spec fn mission(self, id: Seq<char>) -> Option<Mission> {
        match self.mission_index(id) {
            Some(i) => Some(self.missions[i]),
            None => None,
        }
    }

    pub open spec fn suggestion(self, id: Seq<char>) -> Option<MissionSuggestion> {
        match self.suggestion_index(id) {
            Some(i) => Some(self.suggestions[i]),
            None => None,
        }
    }

    pub open spec fn memory(self, id: Seq<char>) -> Option<AssistantMemory> {
        match self.memory_index(id) {
            Some(i) => Some(self.memories[i]),
            None => None,
        }
    }

    pub open spec fn achievement_state(self, id: Seq<char>) -> Option<AchievementState> {
        match self.state_index(id) {
            Some(i) => Some(self.achievement_states[i].1),
            None => None,
        }
    }

    pub open spec fn pack(self, id: Seq<char>) -> Option<PackModel> {
        match self.pack_index(id) {
            Some(i) => Some(self.packs[i]),
            None => None,
        }
    }
}

// ---------------------------------------------------------------------------
// Finders
// ---------------------------------------------------------------------------

impl Repository {
    /// An empty repository: no Pack, no data, no selection.
    pub fn new() -> (r: Self)
        ensures
            r@.enabled_pack_ids.len() == 0,
            r@.packs.len() == 0,
            r@.records.len() == 0,
            r@.achievement_states.len() == 0,
            r@.missions.len() == 0,
            r@.suggestions.len() == 0,
            r@.memories.len() == 0,
            r@.status_selections.len() == 0,
            r@.dashboard_selections == DashboardMissionSelections::empty_spec(),
            r@.ids_unique(),
    {
        Repository {
            enabled_pack_ids: Vec::new(),
            packs: Vec::new(),
            records: Vec::new(),
            achievement_states: Vec::new(),
            missions: Vec::new(),
            suggestions: Vec::new(),
            memories: Vec::new(),
            status_selections: Vec::new(),
            dashboard_selections: DashboardMissionSelections::empty(),
        }
    }

    pub fn find_record(&self, id: &str) -> (r: Option<usize>)
        ensures
            r matches Some(i) ==> self@.record_index(id@) == Some(i as int) && i < self.records@.len(),
            r is None ==> self@.record_index(id@) is None,
    {
        let mut i: usize = 0;
        while i < self.records.len()
            invariant
                i <= self.records@.len(),
                forall|j: int| 0 <= j < i ==> !record_is(id@)(#[trigger] self@.records[j]),
            decreases self.records.len() - i,
        {
            if str_eq(self.records[i].definition_id().as_str(), id) {
                proof {
                    assert(is_first_match(self@.records, record_is(id@), i as int));
                    lemma_first_match_is(self@.records, record_is(id@), i as int);
                }
                return Some(i);
            }
            i = i + 1;
        }
        proof {
            lemma_first_match_none(self@.records, record_is(id@));
        }
        None
    }

    pub fn find_pack(&self, id: &str) -> (r: Option<usize>)
        ensures
            r matches Some(i) ==> self@.pack_index(id@) == Some(i as int) && i < self.packs@.len(),
            r is None ==> self@.pack_index(id@) is None,
    {
        let mut i: usize = 0;
        while i < self.packs.len()
            invariant
                i <= self.packs@.len(),
                forall|j: int| 0 <= j < i ==> !pack_is(id@)(#[trigger] self@.packs[j]),
            decreases self.packs.len() - i,
        {
            if str_eq(self.packs[i].manifest.id.as_str(), id) {
                proof {
                    assert(is_first_match(self@.packs, pack_is(id@), i as int));
                    lemma_first_match_is(self@.packs, pack_is(id@), i as int);
                }
                return Some(i);
            }
            i = i + 1;
        }
        proof {
            lemma_first_match_none(self@.packs, pack_is(id@));
        }
        None
    }

    /// Whether a Pack is enabled.
    pub fn is_enabled(&self, id: &str) -> (r: bool)
        ensures
            r == self@.is_enabled(id@),
    {
        let mut i: usize = 0;
        while i < self.enabled_pack_ids.len()
            invariant
                i <= self.enabled_pack_ids@.len(),
                forall|j: int| 0 <= j < i ==> !name_is(id@)(#[trigger] self@.enabled_pack_ids[j]),
            decreases self.enabled_pack_ids.len() - i,
        {
            proof { assert(self@.enabled_pack_ids[i as int] == self.enabled_pack_ids@[i as int]@); }
            if str_eq(self.enabled_pack_ids[i].as_str(), id) {
                proof {
                    assert(is_first_match(self@.enabled_pack_ids, name_is(id@), i as int));
                    lemma_first_match_is(self@.enabled_pack_ids, name_is(id@), i as int);
                }
                return true;
            }
            i = i + 1;
        }
        proof {
            lemma_first_match_none(self@.enabled_pack_ids, name_is(id@));
        }
        false
    }

    pub fn find_state(&self, id: &str) -> (r: Option<usize>)
        ensures
            r matches Some(i) ==> self@.state_index(id@) == Some(i as int) && i < self.achievement_states@.len(),
            r is None ==> self@.state_index(id@) is None,
    {
        let mut i: usize = 0;
        while i < self.achievement_states.len()
            invariant
                i <= self.achievement_states@.len(),
                forall|j: int| 0 <= j < i ==> !state_is(id@)(#[trigger] self@.achievement_states[j]),
            decreases self.achievement_states.len() - i,
        {
            if str_eq(self.achievement_states[i].0.as_str(), id) {
                proof {
                    assert(is_first_match(self@.achievement_states, state_is(id@), i as int));
                    lemma_first_match_is(self@.achievement_states, state_is(id@), i as int);
                }
                return Some(i);
            }
            i = i + 1;
        }
        proof {
            lemma_first_match_none(self@.achievement_states, state_is(id@));
        }
        None
    }

    pub fn find_mission(&self, id: &str) -> (r: Option<usize>)
        ensures
            r matches Some(i) ==> self@.mission_index(id@) == Some(i as int) && i < self.missions@.len(),
            r is None ==> self@.mission_index(id@) is None,
    {
        let mut i: usize = 0;
        while i < self.missions.len()
            invariant
                i <= self.missions@.len(),
                forall|j: int| 0 <= j < i ==> !mission_is(id@)(#[trigger] self@.missions[j]),
            decreases self.missions.len() - i,
        {
            if str_eq(self.missions[i].id.as_str(), id) {
                proof {
                    assert(is_first_match(self@.missions, mission_is(id@), i as int));
                    lemma_first_match_is(self@.missions, mission_is(id@), i as int);
                }
                return Some(i);
            }
            i = i + 1;
        }
        proof {
            lemma_first_match_none(self@.missions, mission_is(id@));
        }
        None
    }

    pub fn find_suggestion(&self, id: &str) -> (r: Option<usize>)
        ensures
            r matches Some(i) ==> self@.suggestion_index(id@) == Some(i as int) && i < self.suggestions@.len(),
            r is None ==> self@.suggestion_index(id@) is None,
    {
        let mut i: usize = 0;
        while i < self.suggestions.len()
            invariant
                i <= self.suggestions@.len(),
                forall|j: int| 0 <= j < i ==> !suggestion_is(id@)(#[trigger] self@.suggestions[j]),
            decreases self.suggestions.len() - i,
        {
            if str_eq(self.suggestions[i].id.as_str(), id) {
                proof {
                    assert(is_first_match(self@.suggestions, suggestion_is(id@), i as int));
                    lemma_first_match_is(self@.suggestions, suggestion_is(id@), i as int);
                }
                return Some(i);
            }
            i = i + 1;
        }
        proof {
            lemma_first_match_none(self@.suggestions, suggestion_is(id@));
        }
        None
    }

    pub fn find_memory(&self, id: &str) -> (r: Option<usize>)
        ensures
            r matches Some(i) ==> self@.memory_index(id@) == Some(i as int) && i < self.memories@.len(),
            r is None ==> self@.memory_index(id@) is None,
    {
        let mut i: usize = 0;
        while i < self.memories.len()
            invariant
                i <= self.memories@.len(),
                forall|j: int| 0 <= j < i ==> !memory_is(id@)(#[trigger] self@.memories[j]),
            decreases self.memories.len() - i,
        {
            if str_eq(self.memories[i].id.as_str(), id) {
                proof {
                    assert(is_first_match(self@.memories, memory_is(id@), i as int));
                    lemma_first_match_is(self@.memories, memory_is(id@), i as int);
                }
                return Some(i);
            }
            i = i + 1;
        }
        proof {
            lemma_first_match_none(self@.memories, memory_is(id@));
        }
        None
    }

    pub fn find_selection(&self, position: u8) -> (r: Option<usize>)
        ensures
            r matches Some(i) ==> self@.selection_index(position) == Some(i as int) && i < self.status_selections@.len(),
            r is None ==> self@.selection_index(position) is None,
    {
        let mut i: usize = 0;
        while i < self.status_selections.len()
            invariant
                i <= self.status_selections@.len(),
                forall|j: int| 0 <= j < i ==> !position_is(position)(#[trigger] self@.status_selections[j]),
            decreases self.status_selections.len() - i,
        {
            if self.status_selections[i].position == position {
                proof {
                    assert(is_first_match(self@.status_selections, position_is(position), i as int));
                    lemma_first_match_is(self@.status_selections, position_is(position), i as int);
                }
                return Some(i);
            }
            i = i + 1;
        }
        proof {
            lemma_first_match_none(self@.status_selections, position_is(position));
        }
        None
    }
}

impl Repository {
    /// A copy with the same contents.
    pub fn copied(&self) -> (r: Self)
        ensures
            r@ == self@,
    {
        let packs = crate::pack_store::copy_packs(&self.packs);
        let enabled_pack_ids = crate::pack::copy_strings(&self.enabled_pack_ids);
        let mut records: Vec<Record> = Vec::new();
        let mut i: usize = 0;
        while i < self.records.len()
            invariant
                i <= self.records@.len(),
                records@.len() == i,
                forall|k: int| 0 <= k < i ==> (#[trigger] records@[k])@ == self.records@[k]@,
            decreases self.records.len() - i,
        {
            records.push(self.records[i].copied());
            i = i + 1;
        }
        proof { assert(records_model(records@) =~= records_model(self.records@)); }
        let mut achievement_states: Vec<(String, AchievementState)> = Vec::new();
        let mut i: usize = 0;
        while i < self.achievement_states.len()
            invariant
                i <= self.achievement_states@.len(),
                achievement_states@ == self.achievement_states@.take(i as int),
            decreases self.achievement_states.len() - i,
        {
            achievement_states.push((self.achievement_states[i].0.clone(), self.achievement_states[i].1.copied()));
            proof { assert(achievement_states@ =~= self.achievement_states@.take(i + 1)); }
            i = i + 1;
        }
        let mut missions: Vec<Mission> = Vec::new();
        let mut i: usize = 0;
        while i < self.missions.len()
            invariant
                i <= self.missions@.len(),
                missions@ == self.missions@.take(i as int),
            decreases self.missions.len() - i,
        {
            missions.push(self.missions[i].copied());
            proof { assert(missions@ =~= self.missions@.take(i + 1)); }
            i = i + 1;
        }
        let mut suggestions: Vec<MissionSuggestion> = Vec::new();
        let mut i: usize = 0;
        while i < self.suggestions.len()
            invariant
                i <= self.suggestions@.len(),
                suggestions@ == self.suggestions@.take(i as int),
            decreases self.suggestions.len() - i,
        {
            suggestions.push(self.suggestions[i].copied());
            proof { assert(suggestions@ =~= self.suggestions@.take(i + 1)); }
            i = i + 1;
        }
        let mut memories: Vec<AssistantMemory> = Vec::new();
        let mut i: usize = 0;
        while i < self.memories.len()
            invariant
                i <= self.memories@.len(),
                memories@ == self.memories@.take(i as int),
            decreases self.memories.len() - i,
        {
            memories.push(self.memories[i].copied());
            proof { assert(memories@ =~= self.memories@.take(i + 1)); }
            i = i + 1;
        }
        let mut status_selections: Vec<StatusDimensionSelection> = Vec::new();
        let mut i: usize = 0;
        while i < self.status_selections.len()
            invariant
                i <= self.status_selections@.len(),
                status_selections@ == self.status_selections@.take(i as int),
            decreases self.status_selections.len() - i,
        {
            status_selections.push(self.status_selections[i].copied());
            proof { assert(status_selections@ =~= self.status_selections@.take(i + 1)); }
            i = i + 1;
        }
        proof {
            assert(self.achievement_states@.take(self.achievement_states@.len() as int) =~= self.achievement_states@);
            assert(self.missions@.take(self.missions@.len() as int) =~= self.missions@);
            assert(self.suggestions@.take(self.suggestions@.len() as int) =~= self.suggestions@);
            assert(self.memories@.take(self.memories@.len() as int) =~= self.memories@);
            assert(self.status_selections@.take(self.status_selections@.len() as int) =~= self.status_selections@);
        }
        Repository {
            enabled_pack_ids,
            packs,
            records,
            achievement_states,
            missions,
            suggestions,
            memories,
            status_selections,
            dashboard_selections: self.dashboard_selections.copied(),
        }
    }
}

} // verus!
