//! The compact context an assistant reads first: the status selections in
//! position order, the active Missions by deadline, every Achievement state
//! with its definition, and the assistant's memory.  Large Record values and
//! whole Pack definitions stay behind their own queries.
use vstd::prelude::*;
use crate::catalog::{achievement_pairs_view, achievements_of, dimension_pairs_view, dimensions_of, enabled_packs};
use crate::clock::today_utc;
use crate::commands::status_commands::{dimension_available, dimension_available_exec};
use crate::date::{chrono_ymd, days_from_civil, epoch_day, iso_date_spec, iso_date_text, parse_ymd_date, CalendarDate};
use crate::error::RepositoryResult;
use crate::order::{lemma_seq_lt_asymmetric, lemma_seq_lt_irreflexive, lemma_seq_lt_transitive};
use crate::pack::{AchievementDefinition, AchievementModel};
use crate::repository::{Repository, RepositoryModel};
use crate::seqs::{sort_by_order, sorted_by, strict_order};
use crate::state::{AchievementState, AssistantMemory, Mission, MissionStatus};
use crate::text::{scoped_id_parts, seq_lt, split_scoped_id, str_eq, str_lt};

verus! {

/// A selected status Dimension and whether an enabled Pack supplies it.
#[derive(Debug, Clone, PartialEq, Eq)]
pub struct ContextStatusSelection {
    pub position: u8,
    pub dimension_id: String,
    pub available: bool,
}

/// An active Mission with the days left to its deadline.
#[derive(Debug, Clone, PartialEq, Eq)]
pub struct ContextMission {
    pub mission: Mission,
    pub days_remaining: Option<i64>,
}

/// An Achievement state with what its definition says of it.
#[derive(Debug, Clone, PartialEq, Eq)]
pub struct ContextAchievementState {
    pub achievement_id: String,
    pub pack_id: String,
    pub name: Option<String>,
    pub definition_available: bool,
    pub state: AchievementState,
}

#[derive(Debug, Clone, PartialEq, Eq)]
pub struct ContextSummary {
    pub as_of_date: String,
    pub status_selections: Vec<ContextStatusSelection>,
    pub active_missions: Vec<ContextMission>,
    pub achievement_states: Vec<ContextAchievementState>,
    pub memories: Vec<AssistantMemory>,
}

// ---------------------------------------------------------------------------
// Orders
// ---------------------------------------------------------------------------

pub open spec fn position_lt(a: ContextStatusSelection, b: ContextStatusSelection) -> bool {
    a.position < b.position
}

/// Missions with a deadline come first, by deadline, then the others; ties
/// go by identifier.
pub open spec fn mission_key_lt(a: Mission, b: Mission) -> bool {
    match (a.deadline, b.deadline) {
        (Some(_), None) => true,
        (None, Some(_)) => false,
        (Some(x), Some(y)) => if x@ != y@ { seq_lt(x@, y@) } else { seq_lt(a.id@, b.id@) },
        (None, None) => seq_lt(a.id@, b.id@),
    }
}

pub open spec fn context_mission_lt(a: ContextMission, b: ContextMission) -> bool {
    mission_key_lt(a.mission, b.mission)
}

pub open spec fn state_id_lt(a: ContextAchievementState, b: ContextAchievementState) -> bool {
    seq_lt(a.achievement_id@, b.achievement_id@)
}

proof fn lemma_position_order()
    ensures
        strict_order(|a: ContextStatusSelection, b: ContextStatusSelection| position_lt(a, b)),
{
}

proof fn lemma_state_order()
    ensures
        strict_order(|a: ContextAchievementState, b: ContextAchievementState| state_id_lt(a, b)),
{
    let lt = |a: ContextAchievementState, b: ContextAchievementState| state_id_lt(a, b);
    assert forall|a: ContextAchievementState, b: ContextAchievementState, c: ContextAchievementState|
        #[trigger] lt(a, b) && #[trigger] lt(b, c) implies lt(a, c) by {
        lemma_seq_lt_transitive(a.achievement_id@, b.achievement_id@, c.achievement_id@);
    }
    assert forall|a: ContextAchievementState, b: ContextAchievementState| #[trigger] lt(a, b) implies !lt(b, a) by {
        lemma_seq_lt_asymmetric(a.achievement_id@, b.achievement_id@);
    }
}

proof fn lemma_mission_key_transitive(a: Mission, b: Mission, c: Mission)
    requires
        mission_key_lt(a, b),
        mission_key_lt(b, c),
    ensures
        mission_key_lt(a, c),
{
    match (a.deadline, b.deadline, c.deadline) {
        (Some(x), Some(y), Some(z)) => {
            if x@ != y@ && y@ != z@ {
                lemma_seq_lt_transitive(x@, y@, z@);
                if x@ == z@ {
                    lemma_seq_lt_asymmetric(x@, y@);
                }
            } else if x@ != y@ {
                // y == z
            } else if y@ != z@ {
                // x == y
            } else {
                lemma_seq_lt_transitive(a.id@, b.id@, c.id@);
            }
        },
        (None, None, None) => {
            lemma_seq_lt_transitive(a.id@, b.id@, c.id@);
        },
        _ => {},
    }
}

proof fn lemma_mission_key_asymmetric(a: Mission, b: Mission)
    requires
        mission_key_lt(a, b),
    ensures
        !mission_key_lt(b, a),
{
    match (a.deadline, b.deadline) {
        (Some(x), Some(y)) => {
            if x@ != y@ {
                lemma_seq_lt_asymmetric(x@, y@);
            } else {
                lemma_seq_lt_asymmetric(a.id@, b.id@);
            }
        },
        (None, None) => {
            lemma_seq_lt_asymmetric(a.id@, b.id@);
        },
        _ => {},
    }
}

proof fn lemma_mission_order()
    ensures
        strict_order(|a: ContextMission, b: ContextMission| context_mission_lt(a, b)),
{
    let lt = |a: ContextMission, b: ContextMission| context_mission_lt(a, b);
    assert forall|a: ContextMission, b: ContextMission, c: ContextMission|
        #[trigger] lt(a, b) && #[trigger] lt(b, c) implies lt(a, c) by {
        lemma_mission_key_transitive(a.mission, b.mission, c.mission);
    }
    assert forall|a: ContextMission, b: ContextMission| #[trigger] lt(a, b) implies !lt(b, a) by {
        lemma_mission_key_asymmetric(a.mission, b.mission);
    }
}

fn mission_key_less(a: &Mission, b: &Mission) -> (r: bool)
    ensures
        r == mission_key_lt(*a, *b),
{
    match (&a.deadline, &b.deadline) {
        (Some(x), None) => true,
        (None, Some(y)) => false,
        (Some(x), Some(y)) => {
            if !str_eq(x.as_str(), y.as_str()) {
                str_lt(x.as_str(), y.as_str())
            } else {
                str_lt(a.id.as_str(), b.id.as_str())
            }
        },
        (None, None) => str_lt(a.id.as_str(), b.id.as_str()),
    }
}

fn position_less(a: &ContextStatusSelection, b: &ContextStatusSelection) -> (r: bool)
    ensures
        r == position_lt(*a, *b),
{
    a.position < b.position
}

fn context_mission_less(a: &ContextMission, b: &ContextMission) -> (r: bool)
    ensures
        r == context_mission_lt(*a, *b),
{
    mission_key_less(&a.mission, &b.mission)
}

fn state_less(a: &ContextAchievementState, b: &ContextAchievementState) -> (r: bool)
    ensures
        r == state_id_lt(*a, *b),
{
    str_lt(a.achievement_id.as_str(), b.achievement_id.as_str())
}

// ---------------------------------------------------------------------------
// What the summary holds
// ---------------------------------------------------------------------------

/// Days from `as_of` to a deadline as chrono reads `%Y-%m-%d`.
pub open spec fn context_days(deadline: Option<String>, as_of: CalendarDate) -> Option<int> {
    match deadline {
        Some(t) => match chrono_ymd(t@) {
            Some((y, m, d)) => Some(epoch_day(y as int, m as int, d as int)
                - epoch_day(as_of.year as int, as_of.month as int, as_of.day as int)),
            None => None,
        },
        None => None,
    }
}

/// The last definition with the identifier: later Packs override earlier.
pub open spec fn last_definition(cs: Seq<(String, AchievementModel)>, id: Seq<char>) -> Option<int>
    decreases cs.len(),
{
    if cs.len() == 0 {
        None
    } else if cs.last().1.id@ == id {
        Some(cs.len() - 1)
    } else {
        last_definition(cs.drop_last(), id)
    }
}

pub open spec fn selection_holds(m: RepositoryModel, s: crate::state::StatusDimensionSelection, c: ContextStatusSelection) -> bool {
    &&& c.position == s.position
    &&& c.dimension_id@ == s.dimension_id@
    &&& c.available == dimension_available(dimensions_of(enabled_packs(m)), s.dimension_id@)
}

pub open spec fn context_mission_holds(as_of: CalendarDate, mission: Mission, c: ContextMission) -> bool {
    &&& c.mission == mission
    &&& match c.days_remaining {
        Some(v) => context_days(mission.deadline, as_of) == Some(v as int),
        None => context_days(mission.deadline, as_of) is None,
    }
}

pub open spec fn state_holds(m: RepositoryModel, s: (String, AchievementState), c: ContextAchievementState) -> bool {
    let cs = achievements_of(m.packs);
    &&& c.achievement_id@ == s.0@
    &&& c.state == s.1
    &&& match last_definition(cs, s.0@) {
        Some(k) => {
            &&& c.pack_id@ == cs[k].0@
            &&& c.name matches Some(n) && n@ == cs[k].1.name@
            &&& c.definition_available == m.is_enabled(cs[k].0@)
        },
        None => {
            &&& c.pack_id@ == (match scoped_id_parts(s.0@) { Some((p, _)) => p, None => Seq::<char>::empty() })
            &&& c.name is None
            &&& !c.definition_available
        },
    }
}

pub open spec fn is_active(mission: Mission) -> bool {
    mission.status == MissionStatus::Active
}

pub open spec fn active_filter() -> spec_fn(Mission) -> bool {
    |mission: Mission| is_active(mission)
}

/// The summary of `m` as of `as_of`: each part holds, element for element,
/// what its source holds, sorted by its order.
pub open spec fn summary_holds(m: RepositoryModel, as_of: CalendarDate, r: ContextSummary) -> bool {
    let active = m.missions.filter(active_filter());
    &&& r.as_of_date@ == iso_date_spec(as_of.year as int, as_of.month as int, as_of.day as int)
    &&& sorted_by(r.status_selections@, |a: ContextStatusSelection, b: ContextStatusSelection| position_lt(a, b))
    &&& exists|u: Seq<ContextStatusSelection>| {
        &&& u.len() == m.status_selections.len()
        &&& (forall|i: int| 0 <= i < u.len() ==> #[trigger] selection_holds(m, m.status_selections[i], u[i]))
        &&& r.status_selections@.to_multiset() == #[trigger] u.to_multiset()
    }
    &&& sorted_by(r.active_missions@, |a: ContextMission, b: ContextMission| context_mission_lt(a, b))
    &&& exists|u: Seq<ContextMission>| {
        &&& u.len() == active.len()
        &&& (forall|i: int| 0 <= i < u.len() ==> #[trigger] context_mission_holds(as_of, active[i], u[i]))
        &&& r.active_missions@.to_multiset() == #[trigger] u.to_multiset()
    }
    &&& sorted_by(r.achievement_states@, |a: ContextAchievementState, b: ContextAchievementState| state_id_lt(a, b))
    &&& exists|u: Seq<ContextAchievementState>| {
        &&& u.len() == m.achievement_states.len()
        &&& (forall|i: int| 0 <= i < u.len() ==> #[trigger] state_holds(m, m.achievement_states[i], u[i]))
        &&& r.achievement_states@.to_multiset() == #[trigger] u.to_multiset()
    }
    &&& r.memories@ == m.memories
}

// ---------------------------------------------------------------------------
// Building it
// ---------------------------------------------------------------------------

fn context_days_exec(deadline: &Option<String>, as_of: CalendarDate) -> (r: Option<i64>)
    requires
        as_of.is_valid(),
    ensures
        r matches Some(v) ==> context_days(*deadline, as_of) == Some(v as int),
        r is None ==> context_days(*deadline, as_of) is None,
{
    match deadline {
        Some(text) => match parse_ymd_date(text.as_str()) {
            Some(date) => Some(days_from_civil(date.year, date.month, date.day)
                - days_from_civil(as_of.year, as_of.month, as_of.day)),
            None => None,
        },
        None => None,
    }
}

fn last_definition_exec(cs: &Vec<(String, AchievementDefinition)>, id: &str) -> (r: Option<usize>)
    ensures
        r matches Some(k) ==> last_definition(achievement_pairs_view(cs@), id@) == Some(k as int) && k < cs@.len(),
        r is None ==> last_definition(achievement_pairs_view(cs@), id@) is None,
{
    let ghost v = achievement_pairs_view(cs@);
    let mut k: usize = cs.len();
    proof { assert(v.take(k as int) =~= v); }
    while k > 0
        invariant
            k <= cs@.len(),
            v == achievement_pairs_view(cs@),
            last_definition(v, id@) == last_definition(v.take(k as int), id@),
        decreases k,
    {
        k = k - 1;
        proof {
            assert(v.take(k + 1).last() == v[k as int]);
            assert(v.take(k + 1).drop_last() =~= v.take(k as int));
            assert(v[k as int].1 == cs@[k as int].1@);
        }
        if str_eq(cs[k].1.id.as_str(), id) {
            return Some(k);
        }
    }
    proof { assert(v.take(0) =~= Seq::<(String, AchievementModel)>::empty()); }
    None
}

fn pack_of_scoped(id: &str) -> (r: String)
    ensures
        r@ == (match scoped_id_parts(id@) { Some((p, _)) => p, None => Seq::<char>::empty() }),
{
    match split_scoped_id(id) {
        Some((p, _)) => p,
        None => String::new(),
    }
}

pub struct ContextCommands<'repository> {
    pub repository: &'repository mut Repository,
}

impl<'repository> ContextCommands<'repository> {
    pub fn new(repository: &'repository mut Repository) -> (r: Self)
        ensures
            r.repository@ == old(repository)@,
    {
        ContextCommands { repository }
    }

    /// The context as of today.
    pub fn summary(&mut self) -> (r: RepositoryResult<ContextSummary>)
        ensures
            final(self).repository@ == old(self).repository@,
            r matches Ok(s) && exists|as_of: CalendarDate| as_of.is_valid() && summary_holds(old(self).repository@, as_of, s),
    {
        let today = today_utc();
        self.summary_on(today)
    }

    /// The context as of a given day, from one reading of the repository.
    pub fn summary_on(&mut self, as_of_date: CalendarDate) -> (r: RepositoryResult<ContextSummary>)
        requires
            as_of_date.is_valid(),
        ensures
            final(self).repository@ == old(self).repository@,
            r matches Ok(s) && summary_holds(old(self).repository@, as_of_date, s),
    {
        let repository: &Repository = self.repository;
        let ghost m = repository@;

        // Status selections, by position.
        let dims = repository.enabled_dimensions();
        let mut selections: Vec<ContextStatusSelection> = Vec::new();
        let mut k: usize = 0;
        while k < repository.status_selections.len()
            invariant
                k <= m.status_selections.len(),
                m == repository@,
                dimension_pairs_view(dims@) == dimensions_of(enabled_packs(m)),
                selections@.len() == k,
                forall|i: int| 0 <= i < k ==> #[trigger] selection_holds(m, m.status_selections[i], selections@[i]),
            decreases repository.status_selections.len() - k,
        {
            let s = &repository.status_selections[k];
            let available = dimension_available_exec(&dims, s.dimension_id.as_str());
            selections.push(ContextStatusSelection { position: s.position, dimension_id: s.dimension_id.clone(), available });
            k = k + 1;
        }
        let ghost unsorted_selections = selections@;
        proof { lemma_position_order(); }
        let status_selections = sort_by_order(
            selections,
            position_less,
            Ghost(|a: ContextStatusSelection, b: ContextStatusSelection| position_lt(a, b)),
        );

        // Active Missions, by deadline.
        let ghost ms = m.missions;
        proof { crate::seqs::lemma_filter_ends(ms, active_filter()); }
        let mut missions: Vec<ContextMission> = Vec::new();
        let ghost mut chosen: Seq<Mission> = Seq::empty();
        let mut j: usize = 0;
        while j < repository.missions.len()
            invariant
                j <= ms.len(),
                m == repository@,
                ms == m.missions,
                as_of_date.is_valid(),
                chosen == ms.take(j as int).filter(active_filter()),
                missions@.len() == chosen.len(),
                forall|i: int| 0 <= i < chosen.len() ==> #[trigger] context_mission_holds(as_of_date, chosen[i], missions@[i]),
            decreases repository.missions.len() - j,
        {
            proof { crate::seqs::lemma_filter_step(ms, active_filter(), j as int); }
            if repository.missions[j].status == MissionStatus::Active {
                let mission = repository.missions[j].copied();
                let days = context_days_exec(&mission.deadline, as_of_date);
                proof { chosen = chosen.push(mission); }
                missions.push(ContextMission { mission, days_remaining: days });
            }
            j = j + 1;
        }
        let ghost unsorted_missions = missions@;
        proof { lemma_mission_order(); }
        let active_missions = sort_by_order(
            missions,
            context_mission_less,
            Ghost(|a: ContextMission, b: ContextMission| context_mission_lt(a, b)),
        );

        // Achievement states, by identifier.
        let definitions = repository.all_achievements();
        let ghost cs = achievements_of(m.packs);
        let mut states: Vec<ContextAchievementState> = Vec::new();
        let mut a: usize = 0;
        while a < repository.achievement_states.len()
            invariant
                a <= m.achievement_states.len(),
                m == repository@,
                cs == achievements_of(m.packs),
                achievement_pairs_view(definitions@) == cs,
                states@.len() == a,
                forall|i: int| 0 <= i < a ==> #[trigger] state_holds(m, m.achievement_states[i], states@[i]),
            decreases repository.achievement_states.len() - a,
        {
            let entry = &repository.achievement_states[a];
            let id = entry.0.as_str();
            let c = match last_definition_exec(&definitions, id) {
                Some(d) => {
                    proof { assert(cs[d as int] == (definitions@[d as int].0, definitions@[d as int].1@)); }
                    let pack_id = definitions[d].0.clone();
                    let available = repository.is_enabled(pack_id.as_str());
                    ContextAchievementState {
                        achievement_id: entry.0.clone(),
                        pack_id,
                        name: Some(definitions[d].1.name.clone()),
                        definition_available: available,
                        state: entry.1.copied(),
                    }
                },
                None => ContextAchievementState {
                    achievement_id: entry.0.clone(),
                    pack_id: pack_of_scoped(id),
                    name: None,
                    definition_available: false,
                    state: entry.1.copied(),
                },
            };
            states.push(c);
            a = a + 1;
        }
        let ghost unsorted_states = states@;
        proof { lemma_state_order(); }
        let achievement_states = sort_by_order(
            states,
            state_less,
            Ghost(|x: ContextAchievementState, y: ContextAchievementState| state_id_lt(x, y)),
        );

        // Memories, as stored.
        let mut memories: Vec<AssistantMemory> = Vec::new();
        let mut n: usize = 0;
        while n < repository.memories.len()
            invariant
                n <= m.memories.len(),
                m == repository@,
                memories@ == m.memories.take(n as int),
            decreases repository.memories.len() - n,
        {
            memories.push(repository.memories[n].copied());
            proof { assert(memories@ =~= m.memories.take(n + 1)); }
            n = n + 1;
        }
        proof { assert(m.memories.take(m.memories.len() as int) =~= m.memories); }

        let summary = ContextSummary {
            as_of_date: iso_date_text(as_of_date),
            status_selections,
            active_missions,
            achievement_states,
            memories,
        };
        proof {
            assert(summary.status_selections@.to_multiset() == unsorted_selections.to_multiset());
            assert(summary.active_missions@.to_multiset() == unsorted_missions.to_multiset());
            assert(summary.achievement_states@.to_multiset() == unsorted_states.to_multiset());
        }
        Ok(summary)
    }
}

} // verus!
