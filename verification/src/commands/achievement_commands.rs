//! Achievement commands: what the enabled Packs offer, how far the user is,
//! and the user's Achievement states.
use vstd::prelude::*;
use crate::catalog::{achievement_pairs_view, achievements_of};
use crate::commands::mission_commands::opt_str_view;
use crate::error::{RepositoryError, RepositoryErrorCode, RepositoryResult, ValidationIssue};
use crate::order::{lemma_seq_lt_asymmetric, lemma_seq_lt_transitive};
use crate::pack::{AchievementDefinition, AchievementModel};
use crate::repository::{names_model, Repository, RepositoryModel};
use crate::seqs::{lemma_filter_ends, lemma_filter_step, replace_or_push};
use crate::state::{AchievementState, AchievementStatus};
use crate::pack::copy_strings;
use crate::text::{concat3, scoped_id_parts, seq_lt, split_scoped_id, str_eq, str_lt};
use crate::laws::law_achievement_list_ids_strictly_ascend;

verus! {

broadcast use vstd::seq_lib::group_to_multiset_ensures;

#[derive(Debug, Clone, Default, PartialEq, Eq)]
pub struct QueryAchievements {
    pub achievement_id: Option<String>,
    pub pack_id: Option<String>,
    pub status: Option<AchievementStatus>,
    pub related_record_definition_id: Option<String>,
}

#[derive(Debug, Clone, PartialEq, Eq)]
pub struct SetAchievementState {
    pub achievement_id: String,
    pub status: AchievementStatus,
    pub achieved_at: Option<String>,
}

#[derive(Debug, Clone, Copy, PartialEq, Eq, Structural)]
pub enum AchievementAvailability {
    Locked,
    Available,
    Tracking,
    Achieved,
    Unresolved,
}

#[derive(Debug, Clone, PartialEq, Eq)]
pub struct AchievementEntry {
    pub achievement_id: String,
    pub pack_id: String,
    pub enabled: bool,
    pub definition: Option<AchievementDefinition>,
    pub state: Option<AchievementState>,
    pub availability: AchievementAvailability,
    pub unmet_prerequisite_ids: Vec<String>,
}

#[derive(Debug, Clone, PartialEq, Eq)]
pub struct AchievementStateResult {
    pub achievement_id: String,
    pub state: Option<AchievementState>,
    pub changed: bool,
}

pub struct AchievementEntryModel {
    pub achievement_id: Seq<char>,
    pub pack_id: Seq<char>,
    pub enabled: bool,
    pub definition: Option<AchievementModel>,
    pub state: Option<AchievementState>,
    pub availability: AchievementAvailability,
    pub unmet_prerequisite_ids: Seq<Seq<char>>,
}

impl View for AchievementEntry {
    type V = AchievementEntryModel;

    open spec fn view(&self) -> AchievementEntryModel {
        AchievementEntryModel {
            achievement_id: self.achievement_id@,
            pack_id: self.pack_id@,
            enabled: self.enabled,
            definition: match self.definition {
                Some(d) => Some(d@),
                None => None,
            },
            state: self.state,
            availability: self.availability,
            unmet_prerequisite_ids: names_model(self.unmet_prerequisite_ids@),
        }
    }
}

pub open spec fn entries_view(v: Seq<AchievementEntry>) -> Seq<AchievementEntryModel> {
    v.map_values(|e: AchievementEntry| e@)
}

// ---------------------------------------------------------------------------
// Rules
// ---------------------------------------------------------------------------

/// The user has achieved the Achievement `id`.
pub open spec fn achieved(m: RepositoryModel, id: Seq<char>) -> bool {
    exists|k: int| 0 <= k < m.achievement_states.len()
        && (#[trigger] m.achievement_states[k]).0@ == id
        && m.achievement_states[k].1.status == AchievementStatus::Achieved
}

pub open spec fn unmet_filter(m: RepositoryModel) -> spec_fn(String) -> bool {
    |p: String| !achieved(m, p@)
}

/// The prerequisites of a definition the user has not achieved.
pub open spec fn unmet_prerequisites(m: RepositoryModel, d: AchievementModel) -> Seq<String> {
    d.prerequisites.filter(unmet_filter(m))
}

/// Availability: a state decides when there is one; otherwise an
/// Achievement is available once every prerequisite is achieved.
pub open spec fn availability_of(state: Option<AchievementState>, unmet: Seq<String>) -> AchievementAvailability {
    match state {
        Some(s) => if s.status == AchievementStatus::Tracking {
            AchievementAvailability::Tracking
        } else {
            AchievementAvailability::Achieved
        },
        None => if unmet.len() == 0 {
            AchievementAvailability::Available
        } else {
            AchievementAvailability::Locked
        },
    }
}

/// The entry of a definition supplied by an enabled Pack.
pub open spec fn resolved_entry(m: RepositoryModel, c: (String, AchievementModel)) -> AchievementEntryModel {
    let state = m.achievement_state(c.1.id@);
    let unmet = unmet_prerequisites(m, c.1);
    AchievementEntryModel {
        achievement_id: c.1.id@,
        pack_id: c.0@,
        enabled: true,
        definition: Some(c.1),
        state: state,
        availability: availability_of(state, unmet),
        unmet_prerequisite_ids: names_model(unmet),
    }
}

pub open spec fn other_id(id: Seq<char>) -> spec_fn(AchievementEntryModel) -> bool {
    |e: AchievementEntryModel| e.achievement_id != id
}

/// Entries of the definitions whose last definition (in Pack order) comes
/// from an enabled Pack.
pub open spec fn resolved_entries(m: RepositoryModel, cs: Seq<(String, AchievementModel)>) -> Seq<AchievementEntryModel>
    decreases cs.len(),
{
    if cs.len() == 0 {
        Seq::empty()
    } else {
        let c = cs.last();
        let prev = resolved_entries(m, cs.drop_last()).filter(other_id(c.1.id@));
        if m.is_enabled(c.0@) {
            prev.push(resolved_entry(m, c))
        } else {
            prev
        }
    }
}

/// The last definition of an identifier in Pack order.
pub open spec fn last_definition(cs: Seq<(String, AchievementModel)>, id: Seq<char>) -> Option<(String, AchievementModel)>
    decreases cs.len(),
{
    if cs.len() == 0 {
        None
    } else if cs.last().1.id@ == id {
        Some(cs.last())
    } else {
        last_definition(cs.drop_last(), id)
    }
}

pub open spec fn has_entry(es: Seq<AchievementEntryModel>, id: Seq<char>) -> bool {
    exists|k: int| 0 <= k < es.len() && (#[trigger] es[k]).achievement_id == id
}

/// The entry of a state whose Achievement no enabled Pack supplies.
pub open spec fn unresolved_entry(cs: Seq<(String, AchievementModel)>, s: (String, AchievementState)) -> AchievementEntryModel {
    let w = last_definition(cs, s.0@);
    AchievementEntryModel {
        achievement_id: s.0@,
        pack_id: match w {
            Some(c) => c.0@,
            None => match scoped_id_parts(s.0@) {
                Some(parts) => parts.0,
                None => Seq::empty(),
            },
        },
        enabled: false,
        definition: match w {
            Some(c) => Some(c.1),
            None => None,
        },
        state: Some(s.1),
        availability: AchievementAvailability::Unresolved,
        unmet_prerequisite_ids: Seq::empty(),
    }
}

pub open spec fn unresolved_mapper(cs: Seq<(String, AchievementModel)>) -> spec_fn((String, AchievementState)) -> AchievementEntryModel {
    |s: (String, AchievementState)| unresolved_entry(cs, s)
}

pub open spec fn unresolved_filter(es: Seq<AchievementEntryModel>) -> spec_fn((String, AchievementState)) -> bool {
    |s: (String, AchievementState)| !has_entry(es, s.0@)
}

/// Every entry: the resolved ones, then one per remaining state.
pub open spec fn all_entries(m: RepositoryModel) -> Seq<AchievementEntryModel> {
    let cs = achievements_of(m.packs);
    let res = resolved_entries(m, cs);
    res + m.achievement_states.filter(unresolved_filter(res)).map_values(unresolved_mapper(cs))
}

pub open spec fn entries_sorted(s: Seq<AchievementEntryModel>) -> bool {
    forall|i: int, j: int| 0 <= i < j < s.len() ==> !seq_lt(#[trigger] s[j].achievement_id, #[trigger] s[i].achievement_id)
}

pub open spec fn matches_achievement_query(e: AchievementEntryModel, q: QueryAchievements) -> bool {
    &&& (q.achievement_id matches Some(id) ==> e.achievement_id == id@)
    &&& (q.pack_id matches Some(p) ==> e.pack_id == p@)
    &&& (q.status matches Some(st) ==> (e.state matches Some(s) && s.status == st))
    &&& (q.related_record_definition_id matches Some(d) ==> (e.definition matches Some(def)
        && exists|k: int| 0 <= k < def.related_record_definition_ids.len()
            && (#[trigger] def.related_record_definition_ids[k])@ == d@))
}

pub open spec fn query_filter(q: QueryAchievements) -> spec_fn(AchievementEntryModel) -> bool {
    |e: AchievementEntryModel| matches_achievement_query(e, q)
}

/// A state is well formed: only an achieved state carries an achievement time.
pub open spec fn state_valid(s: AchievementState) -> bool {
    s.status == AchievementStatus::Tracking ==> s.achieved_at is None
}

/// An enabled Pack supplies the Achievement `id`.
pub open spec fn achievement_supplied(m: RepositoryModel, id: Seq<char>) -> bool {
    let cs = achievements_of(m.packs);
    exists|k: int| 0 <= k < cs.len() && (#[trigger] cs[k]).1.id@ == id && m.is_enabled(cs[k].0@)
}

/// Two states agree, times compared by content.
pub open spec fn same_state(a: AchievementState, b: AchievementState) -> bool {
    a.status == b.status && opt_str_view(a.achieved_at) == opt_str_view(b.achieved_at)
}

/// The outcome of setting a state.
pub open spec fn set_state_outcome(m: RepositoryModel, c: SetAchievementState, r: RepositoryResult<AchievementStateResult>, fm: RepositoryModel) -> bool {
    let state = AchievementState { status: c.status, achieved_at: c.achieved_at };
    if scoped_id_parts(c.achievement_id@) is None || !state_valid(state) {
        r matches Err(e) && e.code == RepositoryErrorCode::ValidationFailed && fm == m
    } else if !achievement_supplied(m, c.achievement_id@) {
        r matches Err(e) && e.code == RepositoryErrorCode::Unresolved && fm == m
    } else if m.achievement_state(c.achievement_id@) matches Some(cur) && same_state(cur, state) {
        r matches Ok(res) && res.achievement_id == c.achievement_id && res.state == Some(state) && !res.changed && fm == m
    } else {
        r matches Ok(res) && res.achievement_id == c.achievement_id && res.state == Some(state) && res.changed
            && fm == (RepositoryModel {
                achievement_states: replace_or_push(m.achievement_states, m.state_index(c.achievement_id@),
                    (c.achievement_id, state)),
                ..m
            })
    }
}

/// The outcome of revoking a state; revocation needs no enabled Pack.
pub open spec fn revoke_state_outcome(m: RepositoryModel, id: Seq<char>, r: RepositoryResult<AchievementStateResult>, fm: RepositoryModel) -> bool {
    if scoped_id_parts(id) is None {
        r matches Err(e) && e.code == RepositoryErrorCode::ValidationFailed && fm == m
    } else {
        match m.state_index(id) {
            None => r matches Ok(res) && res.achievement_id@ == id && res.state is None && !res.changed && fm == m,
            Some(i) => r matches Ok(res) && res.achievement_id@ == id && res.state is None && res.changed
                && fm == (RepositoryModel { achievement_states: m.achievement_states.remove(i), ..m }),
        }
    }
}

// ---------------------------------------------------------------------------
// Building blocks
// ---------------------------------------------------------------------------

fn copy_definition_opt(d: &Option<AchievementDefinition>) -> (r: Option<AchievementDefinition>)
    ensures
        match r {
            Some(x) => d matches Some(y) && x@ == y@,
            None => d is None,
        },
{
    match d {
        Some(x) => Some(x.copied()),
        None => None,
    }
}

fn copy_state_opt(s: &Option<AchievementState>) -> (r: Option<AchievementState>)
    ensures
        r == *s,
{
    match s {
        Some(x) => Some(x.copied()),
        None => None,
    }
}

impl AchievementEntry {
    pub fn copied(&self) -> (r: Self)
        ensures
            r@ == self@,
    {
        let unmet = copy_strings(&self.unmet_prerequisite_ids);
        let r = AchievementEntry {
            achievement_id: self.achievement_id.clone(),
            pack_id: self.pack_id.clone(),
            enabled: self.enabled,
            definition: copy_definition_opt(&self.definition),
            state: copy_state_opt(&self.state),
            availability: self.availability,
            unmet_prerequisite_ids: unmet,
        };
        proof {
            assert(r@.definition == self@.definition);
        }
        r
    }
}

impl Repository {
    fn state_exec(&self, id: &str) -> (r: Option<AchievementState>)
        ensures
            r == self@.achievement_state(id@),
    {
        match self.find_state(id) {
            Some(i) => Some(self.achievement_states[i].1.copied()),
            None => None,
        }
    }

    fn resolved_entry_exec(&self, pack_id: &String, d: &AchievementDefinition) -> (r: AchievementEntry)
        ensures
            r@ == resolved_entry(self@, (*pack_id, d@)),
    {
        let state = self.state_exec(d.id.as_str());
        let unmet = self.unmet_prerequisites_exec(d);
        let availability = match &state {
            Some(s) => if s.status == AchievementStatus::Tracking {
                AchievementAvailability::Tracking
            } else {
                AchievementAvailability::Achieved
            },
            None => if unmet.len() == 0 {
                AchievementAvailability::Available
            } else {
                AchievementAvailability::Locked
            },
        };
        AchievementEntry {
            achievement_id: d.id.clone(),
            pack_id: pack_id.clone(),
            enabled: true,
            definition: Some(d.copied()),
            state,
            availability,
            unmet_prerequisite_ids: unmet,
        }
    }
}

/// The entries whose identifier differs from `id`.
fn entries_without(es: &Vec<AchievementEntry>, id: &str) -> (r: Vec<AchievementEntry>)
    ensures
        entries_view(r@) == entries_view(es@).filter(other_id(id@)),
{
    let ghost s = entries_view(es@);
    proof { lemma_filter_ends(s, other_id(id@)); }
    let mut out: Vec<AchievementEntry> = Vec::new();
    proof { assert(entries_view(out@) =~= Seq::<AchievementEntryModel>::empty()); }
    let mut k: usize = 0;
    while k < es.len()
        invariant
            k <= es@.len(),
            s == entries_view(es@),
            entries_view(out@) == s.take(k as int).filter(other_id(id@)),
        decreases es.len() - k,
    {
        proof {
            lemma_filter_step(s, other_id(id@), k as int);
            assert(s[k as int] == es@[k as int]@);
        }
        if !str_eq(es[k].achievement_id.as_str(), id) {
            let ghost before = out@;
            out.push(es[k].copied());
            proof { assert(entries_view(out@) =~= entries_view(before).push(s[k as int])); }
        }
        k = k + 1;
    }
    out
}

fn has_entry_exec(es: &Vec<AchievementEntry>, id: &str) -> (r: bool)
    ensures
        r == has_entry(entries_view(es@), id@),
{
    let ghost s = entries_view(es@);
    let mut k: usize = 0;
    while k < es.len()
        invariant
            k <= es@.len(),
            s == entries_view(es@),
            forall|j: int| 0 <= j < k ==> (#[trigger] s[j]).achievement_id != id@,
        decreases es.len() - k,
    {
        proof { assert(s[k as int] == es@[k as int]@); }
        if str_eq(es[k].achievement_id.as_str(), id) {
            return true;
        }
        k = k + 1;
    }
    false
}

fn last_definition_exec(cs: &Vec<(String, AchievementDefinition)>, id: &str) -> (r: Option<usize>)
    ensures
        match r {
            Some(k) => k < cs@.len() && last_definition(achievement_pairs_view(cs@), id@) == Some(achievement_pairs_view(cs@)[k as int]),
            None => last_definition(achievement_pairs_view(cs@), id@) is None,
        },
{
    let ghost v = achievement_pairs_view(cs@);
    let mut found: Option<usize> = None;
    let mut k: usize = 0;
    proof { assert(v.take(0) =~= Seq::<(String, AchievementModel)>::empty()); }
    while k < cs.len()
        invariant
            k <= cs@.len(),
            v == achievement_pairs_view(cs@),
            match found {
                Some(f) => f < k && last_definition(v.take(k as int), id@) == Some(v[f as int]),
                None => last_definition(v.take(k as int), id@) is None,
            },
        decreases cs.len() - k,
    {
        proof {
            assert(v.take(k + 1).drop_last() =~= v.take(k as int));
            assert(v.take(k + 1).last() == v[k as int]);
            assert(v[k as int].1 == cs@[k as int].1@);
        }
        if str_eq(cs[k].1.id.as_str(), id) {
            found = Some(k);
        }
        k = k + 1;
    }
    proof { assert(v.take(v.len() as int) =~= v); }
    found
}

fn unresolved_entry_exec(cs: &Vec<(String, AchievementDefinition)>, id: &String, state: &AchievementState) -> (r: AchievementEntry)
    ensures
        r@ == unresolved_entry(achievement_pairs_view(cs@), (*id, *state)),
{
    let w = last_definition_exec(cs, id.as_str());
    let (pack_id, definition) = match w {
        Some(k) => {
            proof { assert(achievement_pairs_view(cs@)[k as int] == (cs@[k as int].0, cs@[k as int].1@)); }
            (cs[k].0.clone(), Some(cs[k].1.copied()))
        }
        None => match split_scoped_id(id.as_str()) {
            Some((p, _)) => (p, None),
            None => (String::new(), None),
        },
    };
    let r = AchievementEntry {
        achievement_id: id.clone(),
        pack_id,
        enabled: false,
        definition,
        state: Some(state.copied()),
        availability: AchievementAvailability::Unresolved,
        unmet_prerequisite_ids: Vec::new(),
    };
    proof { assert(names_model(r.unmet_prerequisite_ids@) =~= Seq::<Seq<char>>::empty()); }
    r
}

/// Sort entries by Achievement identifier.
fn sort_entries(v: Vec<AchievementEntry>) -> (r: Vec<AchievementEntry>)
    ensures
        entries_sorted(entries_view(r@)),
        entries_view(r@).to_multiset() == entries_view(v@).to_multiset(),
{
    let mut rest = v;
    let ghost orig = entries_view(rest@);
    let mut out: Vec<AchievementEntry> = Vec::new();
    proof { assert(entries_view(out@) =~= Seq::<AchievementEntryModel>::empty()); }
    while rest.len() > 0
        invariant
            entries_sorted(entries_view(out@)),
            entries_view(out@).to_multiset().add(entries_view(rest@).to_multiset()) == orig.to_multiset(),
        decreases rest.len(),
    {
        let ghost before_rest = entries_view(rest@);
        let x = rest.pop().unwrap();
        proof {
            assert(entries_view(rest@) =~= before_rest.drop_last());
            assert(before_rest =~= entries_view(rest@).push(x@));
        }
        let mut p: usize = 0;
        while p < out.len() && !str_lt(x.achievement_id.as_str(), out[p].achievement_id.as_str())
            invariant
                p <= out@.len(),
                forall|k: int| 0 <= k < p ==> !seq_lt(x.achievement_id@, #[trigger] out@[k].achievement_id@),
            decreases out.len() - p,
        {
            p = p + 1;
        }
        let ghost before = entries_view(out@);
        out.insert(p, x);
        proof {
            assert(entries_view(out@) =~= before.insert(p as int, x@));
            assert forall|i: int, j: int| 0 <= i < j < entries_view(out@).len() implies
                !seq_lt(#[trigger] entries_view(out@)[j].achievement_id, #[trigger] entries_view(out@)[i].achievement_id) by {
                let s = entries_view(out@);
                if j < p {
                    assert(s[i] == before[i] && s[j] == before[j]);
                } else if j == p {
                    assert(s[i] == before[i]);
                    assert(s[j] == x@);
                    assert(!seq_lt(x.achievement_id@, out@[i].achievement_id@));
                } else if i == p {
                    assert(s[j] == before[j - 1]);
                    assert(seq_lt(x.achievement_id@, before[p as int].achievement_id));
                    if seq_lt(before[j - 1].achievement_id, x.achievement_id@) {
                        if j - 1 > p {
                            assert(!seq_lt(before[j - 1].achievement_id, before[p as int].achievement_id));
                            lemma_seq_lt_transitive(before[j - 1].achievement_id, x.achievement_id@, before[p as int].achievement_id);
                        } else {
                            lemma_seq_lt_asymmetric(x.achievement_id@, before[p as int].achievement_id);
                        }
                    }
                } else if i < p {
                    assert(s[i] == before[i] && s[j] == before[j - 1]);
                } else {
                    assert(s[i] == before[i - 1] && s[j] == before[j - 1]);
                }
            }
            vstd::seq_lib::to_multiset_insert(before, p as int, x@);
            assert(entries_view(rest@).push(x@).to_multiset() =~= entries_view(rest@).to_multiset().insert(x@));
        }
    }
    proof {
        assert(entries_view(rest@).to_multiset() =~= vstd::multiset::Multiset::empty());
    }
    out
}

fn contains_str(v: &Vec<String>, s: &str) -> (r: bool)
    ensures
        r == exists|j: int| 0 <= j < v@.len() && (#[trigger] v@[j])@ == s@,
{
    let mut k: usize = 0;
    while k < v.len()
        invariant
            k <= v@.len(),
            forall|j: int| 0 <= j < k ==> (#[trigger] v@[j])@ != s@,
        decreases v.len() - k,
    {
        if str_eq(v[k].as_str(), s) {
            return true;
        }
        k = k + 1;
    }
    false
}

fn matches_query_exec(e: &AchievementEntry, q: &QueryAchievements) -> (r: bool)
    ensures
        r == matches_achievement_query(e@, *q),
{
    let id_ok = match &q.achievement_id {
        Some(id) => str_eq(e.achievement_id.as_str(), id.as_str()),
        None => true,
    };
    let pack_ok = match &q.pack_id {
        Some(p) => str_eq(e.pack_id.as_str(), p.as_str()),
        None => true,
    };
    let status_ok = match q.status {
        Some(st) => match &e.state {
            Some(s) => s.status == st,
            None => false,
        },
        None => true,
    };
    let related_ok = match &q.related_record_definition_id {
        Some(d) => match &e.definition {
            Some(def) => {
                let found = contains_str(&def.related_record_definition_ids, d.as_str());
                proof {
                    assert(e@.definition == Some(def@));
                    assert(def@.related_record_definition_ids == def.related_record_definition_ids@);
                    if found {
                        let j = choose|j: int| 0 <= j < def.related_record_definition_ids@.len()
                            && (#[trigger] def.related_record_definition_ids@[j])@ == d@;
                        assert(def@.related_record_definition_ids[j]@ == d@);
                    }
                }
                found
            }
            None => false,
        },
        None => true,
    };
    proof {
        assert(id_ok == (q.achievement_id matches Some(id) ==> e@.achievement_id == id@));
        assert(pack_ok == (q.pack_id matches Some(p) ==> e@.pack_id == p@));
        assert(status_ok == (q.status matches Some(st) ==> (e@.state matches Some(s) && s.status == st)));
    }
    id_ok && pack_ok && status_ok && related_ok
}

fn validate_achievement_id(achievement_id: &str) -> (r: RepositoryResult<()>)
    ensures
        r is Ok <==> scoped_id_parts(achievement_id@) is Some,
        r matches Err(e) ==> e.code == RepositoryErrorCode::ValidationFailed,
{
    if split_scoped_id(achievement_id).is_some() {
        return Ok(());
    }
    let issue = ValidationIssue {
        code: String::from_str("invalid_achievement_id"),
        path: String::from_str("achievement_id"),
        message: String::from_str("must be <pack_id>::<local_id> using lowercase snake_case"),
    };
    let mut issues = Vec::new();
    issues.push(issue);
    Err(RepositoryError::validation(issues, String::from_str("achievement_id must be <pack_id>::<local_id> using lowercase snake_case")))
}

// ---------------------------------------------------------------------------
// Commands
// ---------------------------------------------------------------------------

pub struct AchievementCommands<'repository> {
    pub repository: &'repository mut Repository,
}

impl<'repository> AchievementCommands<'repository> {
    pub fn new(repository: &'repository mut Repository) -> (r: Self)
        ensures
            r.repository@ == old(repository)@,
    {
        AchievementCommands { repository }
    }

    /// Every Achievement entry that matches the query, in identifier order:
    /// one per definition whose last definition comes from an enabled Pack,
    /// and one unresolved entry per other state.  Where identifiers are
    /// unique, as every command keeps them, the order is strict.
    pub fn list(&mut self, query: QueryAchievements) -> (r: RepositoryResult<Vec<AchievementEntry>>)
        ensures
            final(self).repository@ == old(self).repository@,
            r matches Ok(v) && exists|sorted: Seq<AchievementEntryModel>|
                entries_sorted(sorted) && sorted.to_multiset() == all_entries(old(self).repository@).to_multiset()
                    && #[trigger] entries_view(v@) == sorted.filter(query_filter(query)),
            old(self).repository@.ids_unique() ==> (r matches Ok(v) && forall|i: int, j: int|
                0 <= i < j < v@.len() ==> seq_lt(#[trigger] entries_view(v@)[i].achievement_id,
                    #[trigger] entries_view(v@)[j].achievement_id)),
    {
        let ghost m = self.repository@;
        let cs = self.repository.all_achievements();
        let ghost cv = achievement_pairs_view(cs@);
        // Entries of the definitions supplied by enabled Packs.
        let mut resolved: Vec<AchievementEntry> = Vec::new();
        proof { assert(entries_view(resolved@) =~= resolved_entries(m, cv.take(0))); }
        let mut k: usize = 0;
        while k < cs.len()
            invariant
                k <= cs@.len(),
                m == self.repository@,
                cv == achievement_pairs_view(cs@),
                cv == achievements_of(m.packs),
                entries_view(resolved@) == resolved_entries(m, cv.take(k as int)),
            decreases cs.len() - k,
        {
            proof {
                assert(cv.take(k + 1).drop_last() =~= cv.take(k as int));
                assert(cv.take(k + 1).last() == cv[k as int]);
                assert(cv[k as int] == (cs@[k as int].0, cs@[k as int].1@));
            }
            let mut next = entries_without(&resolved, cs[k].1.id.as_str());
            if self.repository.is_enabled(cs[k].0.as_str()) {
                let ghost before = next@;
                next.push(self.repository.resolved_entry_exec(&cs[k].0, &cs[k].1));
                proof { assert(entries_view(next@) =~= entries_view(before).push(resolved_entry(m, cv[k as int]))); }
            }
            resolved = next;
            k = k + 1;
        }
        proof { assert(cv.take(cv.len() as int) =~= cv); }
        // One unresolved entry per remaining state.
        let ghost res = entries_view(resolved@);
        let ghost states = m.achievement_states;
        let ghost f = unresolved_mapper(cv);
        proof { lemma_filter_ends(states, unresolved_filter(res)); }
        let mut all: Vec<AchievementEntry> = Vec::new();
        let mut k: usize = 0;
        while k < resolved.len()
            invariant
                k <= resolved@.len(),
                res == entries_view(resolved@),
                all@.len() == k,
                entries_view(all@) == res.take(k as int),
            decreases resolved.len() - k,
        {
            let ghost before = all@;
            all.push(resolved[k].copied());
            proof {
                assert(res[k as int] == resolved@[k as int]@);
                assert(all@[k as int]@ == res[k as int]);
                assert(entries_view(all@) =~= entries_view(before).push(res[k as int]));
                assert(res.take(k + 1) =~= res.take(k as int).push(res[k as int]));
                assert(entries_view(all@) =~= res.take(k + 1));
            }
            k = k + 1;
        }
        proof {
            assert(res.take(res.len() as int) =~= res);
            assert(entries_view(all@) =~= res + states.take(0).filter(unresolved_filter(res)).map_values(f));
        }
        let mut k: usize = 0;
        while k < self.repository.achievement_states.len()
            invariant
                k <= states.len(),
                m == self.repository@,
                states == m.achievement_states,
                cv == achievement_pairs_view(cs@),
                res == entries_view(resolved@),
                entries_view(all@) == res + states.take(k as int).filter(unresolved_filter(res)).map_values(unresolved_mapper(cv)),
            decreases self.repository.achievement_states.len() - k,
        {
            proof { lemma_filter_step(states, unresolved_filter(res), k as int); }
            let entry = &self.repository.achievement_states[k];
            if !has_entry_exec(&resolved, entry.0.as_str()) {
                let ghost before = all@;
                all.push(unresolved_entry_exec(&cs, &entry.0, &entry.1));
                proof {
                    assert(states[k as int] == (entry.0, entry.1));
                    assert(all@.last()@ == unresolved_entry(cv, states[k as int]));
                    let g = unresolved_mapper(cv);
                    assert(g(states[k as int]) == unresolved_entry(cv, states[k as int]));
                    let prev = states.take(k as int).filter(unresolved_filter(res));
                    assert(prev.push(states[k as int]).map_values(g) =~= prev.map_values(g).push(g(states[k as int])));
                    assert(entries_view(all@) =~= entries_view(before).push(g(states[k as int])));
                }
            }
            k = k + 1;
        }
        proof {
            assert(states.take(states.len() as int) =~= states);
            assert(entries_view(all@) == all_entries(m));
        }
        let sorted = sort_entries(all);
        let ghost sv = entries_view(sorted@);
        proof { lemma_filter_ends(sv, query_filter(query)); }
        let mut out: Vec<AchievementEntry> = Vec::new();
        proof { assert(entries_view(out@) =~= Seq::<AchievementEntryModel>::empty()); }
        let mut k: usize = 0;
        while k < sorted.len()
            invariant
                k <= sorted@.len(),
                sv == entries_view(sorted@),
                entries_view(out@) == sv.take(k as int).filter(query_filter(query)),
            decreases sorted.len() - k,
        {
            proof {
                lemma_filter_step(sv, query_filter(query), k as int);
                assert(sv[k as int] == sorted@[k as int]@);
            }
            if matches_query_exec(&sorted[k], &query) {
                let ghost before = out@;
                out.push(sorted[k].copied());
                proof { assert(entries_view(out@) =~= entries_view(before).push(sv[k as int])); }
            }
            k = k + 1;
        }
        proof {
            assert(entries_view(out@) == sv.filter(query_filter(query)));
            if m.ids_unique() {
                law_achievement_list_ids_strictly_ascend(m, query, entries_view(out@));
            }
        }
        Ok(out)
    }

    /// Set the state of an Achievement an enabled Pack supplies.
    pub fn set_state(&mut self, command: SetAchievementState) -> (r: RepositoryResult<AchievementStateResult>)
        ensures
            set_state_outcome(old(self).repository@, command, r, final(self).repository@),
    {
        apply_set_state(self.repository, command)
    }

    /// Revoke the state of an Achievement, whether or not any Pack supplies
    /// it now.
    pub fn revoke_state(&mut self, achievement_id: &str) -> (r: RepositoryResult<AchievementStateResult>)
        ensures
            revoke_state_outcome(old(self).repository@, achievement_id@, r, final(self).repository@),
    {
        apply_revoke_state(self.repository, achievement_id)
    }
}

/// Whether an enabled Pack supplies the Achievement.
fn achievement_supplied_exec(repository: &Repository, id: &str) -> (r: bool)
    ensures
        r == achievement_supplied(repository@, id@),
{
    let cs = repository.all_achievements();
    let ghost cv = achievement_pairs_view(cs@);
    let mut k: usize = 0;
    while k < cs.len()
        invariant
            k <= cs@.len(),
            cv == achievement_pairs_view(cs@),
            cv == achievements_of(repository@.packs),
            forall|j: int| 0 <= j < k ==> !((#[trigger] cv[j]).1.id@ == id@ && repository@.is_enabled(cv[j].0@)),
        decreases cs.len() - k,
    {
        proof { assert(cv[k as int] == (cs@[k as int].0, cs@[k as int].1@)); }
        if str_eq(cs[k].1.id.as_str(), id) && repository.is_enabled(cs[k].0.as_str()) {
            return true;
        }
        k = k + 1;
    }
    false
}

/// Set an Achievement state in the repository.
pub fn apply_set_state(repository: &mut Repository, command: SetAchievementState) -> (r: RepositoryResult<AchievementStateResult>)
    ensures
        set_state_outcome(old(repository)@, command, r, final(repository)@),
{
    validate_achievement_id(command.achievement_id.as_str())?;
    if command.status == AchievementStatus::Tracking && command.achieved_at.is_some() {
        let issue = ValidationIssue {
            code: String::from_str("tracked_with_achieved_at"),
            path: String::from_str("achieved_at"),
            message: String::from_str("only an achieved state has an achievement time"),
        };
        let mut issues = Vec::new();
        issues.push(issue);
        return Err(RepositoryError::validation(issues, String::from_str("only an achieved state has an achievement time")));
    }
    if !achievement_supplied_exec(repository, command.achievement_id.as_str()) {
        return Err(RepositoryError::new(
            RepositoryErrorCode::Unresolved,
            concat3("AchievementDefinition '", command.achievement_id.as_str(), "' is not supplied by an enabled Pack"),
        ));
    }
    let state = AchievementState { status: command.status, achieved_at: command.achieved_at };
    let index = repository.find_state(command.achievement_id.as_str());
    match index {
        Some(i) => {
            let cur = &repository.achievement_states[i].1;
            let same = cur.status == state.status && match (&cur.achieved_at, &state.achieved_at) {
                (Some(a), Some(b)) => str_eq(a.as_str(), b.as_str()),
                (None, None) => true,
                _ => false,
            };
            if same {
                return Ok(AchievementStateResult { achievement_id: command.achievement_id, state: Some(state), changed: false });
            }
            repository.achievement_states.set(i, (command.achievement_id.clone(), state.copied()));
        }
        None => {
            repository.achievement_states.push((command.achievement_id.clone(), state.copied()));
        }
    }
    Ok(AchievementStateResult { achievement_id: command.achievement_id, state: Some(state), changed: true })
}

/// Revoke an Achievement state in the repository.
pub fn apply_revoke_state(repository: &mut Repository, achievement_id: &str) -> (r: RepositoryResult<AchievementStateResult>)
    ensures
        revoke_state_outcome(old(repository)@, achievement_id@, r, final(repository)@),
{
    validate_achievement_id(achievement_id)?;
    match repository.find_state(achievement_id) {
        None => Ok(AchievementStateResult { achievement_id: achievement_id.to_string(), state: None, changed: false }),
        Some(i) => {
            let _ = repository.achievement_states.remove(i);
            Ok(AchievementStateResult { achievement_id: achievement_id.to_string(), state: None, changed: true })
        }
    }
}

} // verus!
