//! Laws on what commands report and select: the value an integer increment
//! stores, the state a Pack enable or disable reports, and that the Mission,
//! suggestion, Achievement and Record listings return exactly what their
//! filters select.
use vstd::prelude::*;
use crate::catalog::{enabled_packs, registry_definition};
use crate::commands::achievement_commands::{
    achieved, all_entries, other_id, query_filter, resolved_entries, resolved_entry, unmet_filter, unmet_prerequisites,
    unresolved_filter, unresolved_mapper, AchievementAvailability, AchievementEntryModel, QueryAchievements,
};
use crate::catalog::achievements_of;
use crate::pack::AchievementModel;
use crate::state::{AchievementStatus, StatusDimensionSelection, STATUS_POSITION_COUNT};
use crate::commands::mutation_commands::{status_clear_outcome, status_select_outcome};
use crate::commands::status_commands::{position_taken_by, StatusSelectionResult};
use crate::commands::skill_commands::{achieved_points, saturated, skill_evaluation, total_points};
use crate::laws::selections_valid;
use crate::pack::{PackModel, SkillModel, SkillNode};
use crate::repository::position_is;
use crate::seqs::{first_match, lemma_first_match_none, lemma_first_match_some};
use crate::commands::pack_commands::{summary_of, PackSummary};
use crate::repository::name_is;
use crate::error::RepositoryResult;
use crate::commands::mission_commands::{
    mission_filter, suggestion_filter, QueryMissionSuggestions, QueryMissions,
};
use crate::commands::mutation_commands::{op_outcome, MutationOperation, MutationValue, PackTarget};
use crate::commands::record_commands::{increment_spec, outcome_holds, put_record_spec, IncrementScalarRecord};
use crate::error::RepositoryErrorCode;
use crate::laws::law_read_after_write;
use crate::commands::record_query::{definitions_with_pack, entries_for, query_matches, selected, QueryRecords, RecordQueryEntry};
use crate::error::RepositoryError;
use crate::json::{exact_integer_spec, JsonValue};
use crate::record::{Record, RecordDefinitionModel, RecordKind, RecordModel, ValueType};
use crate::repository::RepositoryModel;
use crate::state::{Mission, MissionSuggestion};

verus! {

broadcast use vstd::seq_lib::group_filter_ensures;

// ---------------------------------------------------------------------------
// Increments
// ---------------------------------------------------------------------------

/// Incrementing an integer Record adds the delta exactly: a Record holding
/// `a`, incremented by `b`, afterwards holds `a + b`, so a negative delta
/// lowers it.  The sum stays within the JSON integer range.
pub proof fn law_integer_increment_adds(
    m: RepositoryModel,
    command: IncrementScalarRecord,
    at: String,
    ns: Option<JsonValue>,
    r: Result<Record, RepositoryError>,
    fm: RepositoryModel,
    a: int,
    b: int,
)
    requires
        registry_definition(m, command.definition_id@) matches Some(RecordDefinitionModel::Scalar(d))
            && d.value_type == ValueType::Integer,
        m.record(command.definition_id@) matches Some(RecordModel::Scalar(s)) && exact_integer_spec(s.value) == Some(a),
        exact_integer_spec(command.delta) == Some(b),
        outcome_holds(increment_spec(m, command, at, ns), r, m, fm),
        r is Ok,
    ensures
        r matches Ok(x) && x@ matches RecordModel::Scalar(s) && exact_integer_spec(s.value) == Some(a + b),
        i64::MIN <= a + b <= u64::MAX,
        r matches Ok(x) && x@ matches RecordModel::Scalar(s) && s.definition_id@ == command.definition_id@
            && s.recorded_at == at
            && s.effective_at == (match command.effective_at {
                Some(t) => Some(t),
                None => m.record(command.definition_id@)->Some_0->Scalar_0.effective_at,
            }),
        r matches Ok(x) && fm.record(command.definition_id@) == Some(x@),
{
    let spec = increment_spec(m, command, at, ns);
    assert(spec is Ok);
    let (rec, m2) = spec->Ok_0;
    assert(put_record_spec(m, rec) == Ok::<RepositoryModel, RepositoryErrorCode>(m2));
    law_read_after_write(m, rec, m2);
}

// ---------------------------------------------------------------------------
// Enabling and disabling Packs in a batch
// ---------------------------------------------------------------------------

/// A batch's disable operation reports the Pack, under its id, as disabled.
pub proof fn law_disable_reports_disabled<F: Fn(&JsonValue, &JsonValue) -> Option<JsonValue>>(
    m: RepositoryModel,
    t: PackTarget,
    at: String,
    add: F,
    r: Result<MutationValue, RepositoryError>,
    fm: RepositoryModel,
)
    requires
        op_outcome(m, MutationOperation::PackDisable(t), at, add, r, fm),
    ensures
        r matches Ok(v) ==> (v matches MutationValue::PackEnabled(s) && !s.enabled && s.pack_id@ == t.pack_id@
            && s.changed == m.is_enabled(t.pack_id@)),
        m.pack_index(t.pack_id@) is Some <==> r is Ok,
        r is Err ==> fm == m,
{
}

/// A batch's enable operation reports the Pack, under its id, as enabled.
pub proof fn law_enable_reports_enabled<F: Fn(&JsonValue, &JsonValue) -> Option<JsonValue>>(
    m: RepositoryModel,
    t: PackTarget,
    at: String,
    add: F,
    r: Result<MutationValue, RepositoryError>,
    fm: RepositoryModel,
)
    requires
        op_outcome(m, MutationOperation::PackEnable(t), at, add, r, fm),
    ensures
        r matches Ok(v) ==> (v matches MutationValue::PackEnabled(s) && s.enabled && s.pack_id@ == t.pack_id@
            && s.changed == !m.is_enabled(t.pack_id@)),
        m.pack_index(t.pack_id@) is None ==> r is Err,
        r is Err ==> fm == m,
{
}

// ---------------------------------------------------------------------------
// Missions and suggestions
// ---------------------------------------------------------------------------

/// A Mission listing holds stored Missions only, each of which has the
/// identifier, status and parent the query asks for; and every stored
/// Mission that has them is listed.
pub proof fn law_mission_list_filters(m: RepositoryModel, q: QueryMissions, v: Seq<Mission>)
    requires
        v == m.missions.filter(mission_filter(q)),
    ensures
        forall|i: int| 0 <= i < v.len() ==> {
            &&& m.missions.contains(#[trigger] v[i])
            &&& (q.mission_id matches Some(id) ==> v[i].id@ == id@)
            &&& (q.status matches Some(st) ==> v[i].status == st)
            &&& (q.parent_id matches Some(p) ==> (v[i].parent_id matches Some(pp) && pp@ == p@))
        },
        forall|x: Mission| #[trigger] m.missions.contains(x)
            && (q.mission_id matches Some(id) ==> x.id@ == id@)
            && (q.status matches Some(st) ==> x.status == st)
            && (q.parent_id matches Some(p) ==> (x.parent_id matches Some(pp) && pp@ == p@))
            ==> v.contains(x),
{
    assert forall|i: int| 0 <= i < v.len() implies {
        &&& m.missions.contains(#[trigger] v[i])
        &&& (q.mission_id matches Some(id) ==> v[i].id@ == id@)
        &&& (q.status matches Some(st) ==> v[i].status == st)
        &&& (q.parent_id matches Some(p) ==> (v[i].parent_id matches Some(pp) && pp@ == p@))
    } by {
        assert(mission_filter(q)(v[i]));
        assert(v.contains(v[i]));
        m.missions.lemma_filter_contains_rev(mission_filter(q), v[i]);
    }
    assert forall|x: Mission| #[trigger] m.missions.contains(x)
        && (q.mission_id matches Some(id) ==> x.id@ == id@)
        && (q.status matches Some(st) ==> x.status == st)
        && (q.parent_id matches Some(p) ==> (x.parent_id matches Some(pp) && pp@ == p@))
        implies v.contains(x) by {
        let k = choose|k: int| 0 <= k < m.missions.len() && m.missions[k] == x;
        assert(mission_filter(q)(m.missions[k]));
    }
}

/// A suggestion listing holds stored suggestions only, each of which has the
/// identifier and status the query asks for; and every stored suggestion
/// that has them is listed.
pub proof fn law_suggestion_list_filters(m: RepositoryModel, q: QueryMissionSuggestions, v: Seq<MissionSuggestion>)
    requires
        v == m.suggestions.filter(suggestion_filter(q)),
    ensures
        forall|i: int| 0 <= i < v.len() ==> {
            &&& m.suggestions.contains(#[trigger] v[i])
            &&& (q.suggestion_id matches Some(id) ==> v[i].id@ == id@)
            &&& (q.status matches Some(st) ==> v[i].status == st)
        },
        forall|x: MissionSuggestion| #[trigger] m.suggestions.contains(x)
            && (q.suggestion_id matches Some(id) ==> x.id@ == id@)
            && (q.status matches Some(st) ==> x.status == st)
            ==> v.contains(x),
{
    assert forall|i: int| 0 <= i < v.len() implies {
        &&& m.suggestions.contains(#[trigger] v[i])
        &&& (q.suggestion_id matches Some(id) ==> v[i].id@ == id@)
        &&& (q.status matches Some(st) ==> v[i].status == st)
    } by {
        assert(suggestion_filter(q)(v[i]));
        assert(v.contains(v[i]));
        m.suggestions.lemma_filter_contains_rev(suggestion_filter(q), v[i]);
    }
    assert forall|x: MissionSuggestion| #[trigger] m.suggestions.contains(x)
        && (q.suggestion_id matches Some(id) ==> x.id@ == id@)
        && (q.status matches Some(st) ==> x.status == st)
        implies v.contains(x) by {
        let k = choose|k: int| 0 <= k < m.suggestions.len() && m.suggestions[k] == x;
        assert(suggestion_filter(q)(m.suggestions[k]));
    }
}

// ---------------------------------------------------------------------------
// Achievements
// ---------------------------------------------------------------------------

/// An Achievement listing, `sorted` being the repository's entries in some
/// order, holds entries of the repository only, each with the identifier
/// and Pack the query asks for and, under a status filter, a persisted state
/// of that status (an entry without a state never passes one); and every
/// entry that meets the filters is listed.
pub proof fn law_achievement_list_filters(
    m: RepositoryModel,
    q: QueryAchievements,
    sorted: Seq<AchievementEntryModel>,
    v: Seq<AchievementEntryModel>,
)
    requires
        sorted.to_multiset() == all_entries(m).to_multiset(),
        v == sorted.filter(query_filter(q)),
    ensures
        forall|i: int| 0 <= i < v.len() ==> {
            &&& all_entries(m).contains(#[trigger] v[i])
            &&& (q.achievement_id matches Some(id) ==> v[i].achievement_id == id@)
            &&& (q.pack_id matches Some(p) ==> v[i].pack_id == p@)
            &&& (q.status matches Some(st) ==> (v[i].state matches Some(s) && s.status == st))
        },
        forall|e: AchievementEntryModel| #[trigger] all_entries(m).contains(e)
            && (q.achievement_id matches Some(id) ==> e.achievement_id == id@)
            && (q.pack_id matches Some(p) ==> e.pack_id == p@)
            && (q.status matches Some(st) ==> (e.state matches Some(s) && s.status == st))
            && (q.related_record_definition_id matches Some(d) ==> (e.definition matches Some(def)
                && exists|k: int| 0 <= k < def.related_record_definition_ids.len()
                    && (#[trigger] def.related_record_definition_ids[k])@ == d@))
            ==> v.contains(e),
{
    let all = all_entries(m);
    sorted.to_multiset_ensures();
    all.to_multiset_ensures();
    assert forall|i: int| 0 <= i < v.len() implies {
        &&& all_entries(m).contains(#[trigger] v[i])
        &&& (q.achievement_id matches Some(id) ==> v[i].achievement_id == id@)
        &&& (q.pack_id matches Some(p) ==> v[i].pack_id == p@)
        &&& (q.status matches Some(st) ==> (v[i].state matches Some(s) && s.status == st))
    } by {
        assert(query_filter(q)(v[i]));
        assert(v.contains(v[i]));
        sorted.lemma_filter_contains_rev(query_filter(q), v[i]);
        assert(sorted.contains(v[i]));
        assert(sorted.to_multiset().count(v[i]) > 0);
        assert(all.to_multiset().count(v[i]) > 0);
    }
    assert forall|e: AchievementEntryModel| #[trigger] all_entries(m).contains(e)
        && (q.achievement_id matches Some(id) ==> e.achievement_id == id@)
        && (q.pack_id matches Some(p) ==> e.pack_id == p@)
        && (q.status matches Some(st) ==> (e.state matches Some(s) && s.status == st))
        && (q.related_record_definition_id matches Some(d) ==> (e.definition matches Some(def)
            && exists|k: int| 0 <= k < def.related_record_definition_ids.len()
                && (#[trigger] def.related_record_definition_ids[k])@ == d@))
        implies v.contains(e) by {
        assert(all.to_multiset().count(e) > 0);
        assert(sorted.to_multiset().count(e) > 0);
        assert(sorted.contains(e));
        let k = choose|k: int| 0 <= k < sorted.len() && sorted[k] == e;
        assert(query_filter(q)(sorted[k]));
    }
}

// ---------------------------------------------------------------------------
// Record queries
// ---------------------------------------------------------------------------

/// The definitions a query selects are, in order, those of the source that
/// meet its filters.
proof fn lemma_selected_members(m: RepositoryModel, q: QueryRecords, s: Seq<(String, RecordDefinitionModel)>)
    ensures
        forall|j: int| 0 <= j < selected(m, q, s).len()
            ==> s.contains(#[trigger] selected(m, q, s)[j]) && query_matches(m, q, selected(m, q, s)[j]),
        forall|e: (String, RecordDefinitionModel)| #[trigger] s.contains(e) && query_matches(m, q, e)
            ==> selected(m, q, s).contains(e),
    decreases s.len(),
{
    if s.len() > 0 {
        let p = s.drop_last();
        lemma_selected_members(m, q, p);
        let sp = selected(m, q, p);
        let sel = selected(m, q, s);
        assert forall|j: int| 0 <= j < sel.len() implies s.contains(#[trigger] sel[j]) && query_matches(m, q, sel[j]) by {
            if j < sp.len() {
                assert(sel[j] == sp[j]);
                let k = choose|k: int| 0 <= k < p.len() && p[k] == sp[j];
                assert(s[k] == p[k]);
            } else {
                assert(sel[j] == s.last());
                assert(s[s.len() - 1] == s.last());
            }
        }
        assert forall|e: (String, RecordDefinitionModel)| #[trigger] s.contains(e) && query_matches(m, q, e)
            implies sel.contains(e) by {
            let k = choose|k: int| 0 <= k < s.len() && s[k] == e;
            if k < s.len() - 1 {
                assert(p[k] == e);
                assert(p.contains(e));
                let j = choose|j: int| 0 <= j < sp.len() && sp[j] == e;
                assert(sel[j] == sp[j]);
            } else {
                assert(sel[sp.len() as int] == s.last());
            }
        }
    }
}

/// A Record query returns definitions of the enabled Packs only, each with
/// its own Pack and of the shape (scalar, collection or event) the kind
/// filter asks for, and meeting the id and Pack filters; a query that only
/// asks for a kind returns every such definition of that shape.
pub proof fn law_record_query_kinds(m: RepositoryModel, q: QueryRecords, r: Seq<RecordQueryEntry>)
    requires
        entries_for(m, r, selected(m, q, definitions_with_pack(enabled_packs(m)))),
    ensures
        forall|i: int| 0 <= i < r.len() ==> {
            &&& definitions_with_pack(enabled_packs(m)).contains(((#[trigger] r[i]).pack_id, r[i].definition@))
            &&& (q.kind == Some(RecordKind::Scalar) ==> r[i].definition@ is Scalar)
            &&& (q.kind == Some(RecordKind::Collection) ==> r[i].definition@ is Collection)
            &&& (q.kind == Some(RecordKind::Event) ==> r[i].definition@ is Event)
            &&& (q.definition_id matches Some(d) ==> r[i].definition@.id()@ == d@)
            &&& (q.pack_id matches Some(p) ==> r[i].pack_id@ == p@)
            &&& (q.namespace matches Some(n) ==> ((n@ + "."@).len() <= r[i].definition@.id()@.len()
                && r[i].definition@.id()@.take((n@ + "."@).len() as int) == n@ + "."@))
            &&& (q.has_value matches Some(h) ==> (r[i].record is Some) == h)
            &&& (match r[i].record {
                Some(rec) => m.record(r[i].definition@.id()@) == Some(rec@),
                None => m.record(r[i].definition@.id()@) is None,
            })
        },
        q.definition_id is None && q.namespace is None && q.pack_id is None && q.has_value is None
            ==> forall|e: (String, RecordDefinitionModel)| #[trigger] definitions_with_pack(enabled_packs(m)).contains(e)
                && (q.kind == Some(RecordKind::Scalar) ==> e.1 is Scalar)
                && (q.kind == Some(RecordKind::Collection) ==> e.1 is Collection)
                && (q.kind == Some(RecordKind::Event) ==> e.1 is Event)
                ==> exists|i: int| 0 <= i < r.len() && r[i].pack_id == e.0 && r[i].definition@ == e.1,
{
    let src = definitions_with_pack(enabled_packs(m));
    let sel = selected(m, q, src);
    lemma_selected_members(m, q, src);
    assert forall|i: int| 0 <= i < r.len() implies {
        &&& definitions_with_pack(enabled_packs(m)).contains(((#[trigger] r[i]).pack_id, r[i].definition@))
        &&& (q.kind == Some(RecordKind::Scalar) ==> r[i].definition@ is Scalar)
        &&& (q.kind == Some(RecordKind::Collection) ==> r[i].definition@ is Collection)
        &&& (q.kind == Some(RecordKind::Event) ==> r[i].definition@ is Event)
        &&& (q.definition_id matches Some(d) ==> r[i].definition@.id()@ == d@)
        &&& (q.pack_id matches Some(p) ==> r[i].pack_id@ == p@)
        &&& (q.namespace matches Some(n) ==> ((n@ + "."@).len() <= r[i].definition@.id()@.len()
            && r[i].definition@.id()@.take((n@ + "."@).len() as int) == n@ + "."@))
        &&& (q.has_value matches Some(h) ==> (r[i].record is Some) == h)
        &&& (match r[i].record {
            Some(rec) => m.record(r[i].definition@.id()@) == Some(rec@),
            None => m.record(r[i].definition@.id()@) is None,
        })
    } by {
        assert(crate::commands::record_query::entry_for(m, r[i], sel[i]));
        assert(sel[i] == (r[i].pack_id, r[i].definition@));
        assert(query_matches(m, q, sel[i]));
    }
    if q.definition_id is None && q.namespace is None && q.pack_id is None && q.has_value is None {
        assert forall|e: (String, RecordDefinitionModel)| #[trigger] definitions_with_pack(enabled_packs(m)).contains(e)
            && (q.kind == Some(RecordKind::Scalar) ==> e.1 is Scalar)
            && (q.kind == Some(RecordKind::Collection) ==> e.1 is Collection)
            && (q.kind == Some(RecordKind::Event) ==> e.1 is Event)
            implies exists|i: int| 0 <= i < r.len() && r[i].pack_id == e.0 && r[i].definition@ == e.1 by {
            assert(query_matches(m, q, e));
            assert(sel.contains(e));
            let j = choose|j: int| 0 <= j < sel.len() && sel[j] == e;
            assert(crate::commands::record_query::entry_for(m, r[j], sel[j]));
        }
    }
}

// ---------------------------------------------------------------------------
// Achievement availability
// ---------------------------------------------------------------------------

/// Every entry built from definitions is the entry of one of them.
proof fn lemma_resolved_members(m: RepositoryModel, cs: Seq<(String, AchievementModel)>)
    ensures
        forall|e: AchievementEntryModel| #[trigger] resolved_entries(m, cs).contains(e)
            ==> exists|k: int| 0 <= k < cs.len() && e == resolved_entry(m, cs[k]),
    decreases cs.len(),
{
    if cs.len() > 0 {
        let p = cs.drop_last();
        lemma_resolved_members(m, p);
        let c = cs.last();
        let prev = resolved_entries(m, p);
        assert forall|e: AchievementEntryModel| #[trigger] resolved_entries(m, cs).contains(e)
            implies exists|k: int| 0 <= k < cs.len() && e == resolved_entry(m, cs[k]) by {
            let f = prev.filter(other_id(c.1.id@));
            if f.contains(e) {
                prev.lemma_filter_contains_rev(other_id(c.1.id@), e);
                let k = choose|k: int| 0 <= k < p.len() && e == resolved_entry(m, p[k]);
                assert(cs[k] == p[k]);
            } else {
                assert(m.is_enabled(c.0@));
                let j = choose|j: int| 0 <= j < f.push(resolved_entry(m, c)).len() && f.push(resolved_entry(m, c))[j] == e;
                if j < f.len() {
                    assert(f[j] == e);
                    assert(f.contains(e));
                }
                assert(cs[cs.len() - 1] == c);
            }
        }
    }
}

/// Some stored state of the Achievement `id` has status achieved.
pub open spec fn has_achieved_state(m: RepositoryModel, id: Seq<char>) -> bool {
    exists|k: int| 0 <= k < m.achievement_states.len()
        && (#[trigger] m.achievement_states[k]).0@ == id
        && m.achievement_states[k].1.status == AchievementStatus::Achieved
}

/// Every prerequisite of a definition has an achieved state.
pub open spec fn every_prerequisite_achieved(m: RepositoryModel, d: AchievementModel) -> bool {
    forall|j: int| 0 <= j < d.prerequisites.len() ==> #[trigger] has_achieved_state(m, d.prerequisites[j]@)
}

/// In an Achievement listing, an entry of an enabled Pack's definition
/// carries the definition and the repository's state for it; a state
/// decides its availability (tracked or achieved); without one it is
/// available exactly when every prerequisite has an achieved state, and
/// locked otherwise.  An entry no enabled Pack defines is unresolved and
/// carries its state.
pub proof fn law_achievement_availability(m: RepositoryModel, e: AchievementEntryModel)
    requires
        all_entries(m).contains(e),
    ensures
        e.enabled ==> (e.definition matches Some(d) && d.id@ == e.achievement_id
            && e.state == m.achievement_state(e.achievement_id)),
        e.enabled ==> (e.state matches Some(s) ==> e.availability == (if s.status == AchievementStatus::Tracking {
            AchievementAvailability::Tracking
        } else {
            AchievementAvailability::Achieved
        })),
        e.enabled && e.state is None ==> (e.availability == AchievementAvailability::Available
            || e.availability == AchievementAvailability::Locked),
        e.enabled && e.state is None ==> (e.availability == AchievementAvailability::Available
            <==> every_prerequisite_achieved(m, e.definition->0)),
        !e.enabled ==> e.availability == AchievementAvailability::Unresolved && e.state is Some,
{
    let cs = achievements_of(m.packs);
    let res = resolved_entries(m, cs);
    let rest = m.achievement_states.filter(unresolved_filter(res)).map_values(unresolved_mapper(cs));
    let all = all_entries(m);
    assert(all == res + rest);
    let i = choose|i: int| 0 <= i < all.len() && all[i] == e;
    if i < res.len() {
        assert(res[i] == e);
        assert(res.contains(e));
        lemma_resolved_members(m, cs);
        let k = choose|k: int| 0 <= k < cs.len() && e == resolved_entry(m, cs[k]);
        let d = cs[k].1;
        let unmet = unmet_prerequisites(m, d);
        assert(e.definition->0 == d);
        if e.state is None {
            if unmet.len() == 0 {
                assert forall|j: int| 0 <= j < d.prerequisites.len() implies #[trigger] has_achieved_state(m, d.prerequisites[j]@) by {
                    if !achieved(m, d.prerequisites[j]@) {
                        assert(unmet_filter(m)(d.prerequisites[j]));
                        assert(unmet.contains(d.prerequisites[j]));
                    }
                }
                assert(e.availability == AchievementAvailability::Available);
            } else {
                let p0 = unmet[0];
                assert(unmet_filter(m)(p0));
                assert(unmet.contains(p0));
                d.prerequisites.lemma_filter_contains_rev(unmet_filter(m), p0);
                let j = choose|j: int| 0 <= j < d.prerequisites.len() && d.prerequisites[j] == p0;
                assert(!achieved(m, d.prerequisites[j]@));
                assert(!has_achieved_state(m, d.prerequisites[j]@));
                assert(e.availability == AchievementAvailability::Locked);
            }
        }
    } else {
        assert(rest[i - res.len()] == e);
    }
}

// ---------------------------------------------------------------------------
// Status selections
// ---------------------------------------------------------------------------

/// Selecting a Dimension for a display position reports it and leaves it
/// shown there, and every selection at another position stays; only a
/// position beyond the display is refused.
pub proof fn law_status_select_shows_it(
    m: RepositoryModel,
    position: u8,
    id: String,
    r: RepositoryResult<StatusSelectionResult>,
    fm: RepositoryModel,
)
    requires
        status_select_outcome(m, position, id, r, fm),
    ensures
        r is Err ==> position >= STATUS_POSITION_COUNT && fm == m,
        position < STATUS_POSITION_COUNT ==> r is Ok,
        r matches Ok(res) ==> {
            &&& res.position == position && res.dimension_id == Some(id)
            &&& exists|k: int| 0 <= k < fm.status_selections.len()
                && (#[trigger] fm.status_selections[k]).position == position
                && fm.status_selections[k].dimension_id@ == id@
            &&& forall|k: int| 0 <= k < m.status_selections.len() && (#[trigger] m.status_selections[k]).position != position
                ==> fm.status_selections.contains(m.status_selections[k])
        },
{
    let sels = m.status_selections;
    if !position_taken_by(sels, position, id@) && position < STATUS_POSITION_COUNT {
        let sel = StatusDimensionSelection { position: position, dimension_id: id };
        let now = fm.status_selections;
        match m.selection_index(position) {
            Some(i) => {
                lemma_first_match_some(sels, position_is(position));
                assert(now[i] == sel);
                assert forall|k: int| 0 <= k < sels.len() && (#[trigger] sels[k]).position != position
                    implies now.contains(sels[k]) by {
                    assert(k != i);
                    assert(now[k] == sels[k]);
                }
            },
            None => {
                assert(now[sels.len() as int] == sel);
                assert forall|k: int| 0 <= k < sels.len() && (#[trigger] sels[k]).position != position
                    implies now.contains(sels[k]) by {
                    assert(now[k] == sels[k]);
                }
            },
        }
    } else if position_taken_by(sels, position, id@) {
        assert forall|k: int| 0 <= k < sels.len() && (#[trigger] sels[k]).position != position
            implies fm.status_selections.contains(sels[k]) by {
            assert(fm.status_selections[k] == sels[k]);
        }
    }
}

/// Clearing a display position leaves no selection there and keeps every
/// selection at another position; only a position beyond the display is
/// refused.
pub proof fn law_status_clear_empties_it(
    m: RepositoryModel,
    position: u8,
    r: RepositoryResult<StatusSelectionResult>,
    fm: RepositoryModel,
)
    requires
        selections_valid(m.status_selections),
        status_clear_outcome(m, position, r, fm),
    ensures
        r is Err ==> position >= STATUS_POSITION_COUNT && fm == m,
        position < STATUS_POSITION_COUNT ==> r is Ok,
        r matches Ok(res) ==> {
            &&& res.position == position && res.dimension_id is None
            &&& forall|k: int| 0 <= k < fm.status_selections.len() ==> (#[trigger] fm.status_selections[k]).position != position
            &&& forall|k: int| 0 <= k < m.status_selections.len() && (#[trigger] m.status_selections[k]).position != position
                ==> fm.status_selections.contains(m.status_selections[k])
        },
{
    let sels = m.status_selections;
    match m.selection_index(position) {
        Some(i) => {
            lemma_first_match_some(sels, position_is(position));
            let rest = sels.remove(i);
            assert forall|k: int| 0 <= k < rest.len() implies (#[trigger] rest[k]).position != position by {
                if k < i {
                    assert(rest[k] == sels[k]);
                } else {
                    assert(rest[k] == sels[k + 1]);
                }
            }
            assert forall|k: int| 0 <= k < sels.len() && (#[trigger] sels[k]).position != position
                implies rest.contains(sels[k]) by {
                if k < i {
                    assert(rest[k] == sels[k]);
                } else {
                    assert(k != i);
                    assert(rest[k - 1] == sels[k]);
                }
            }
        },
        None => {
            assert forall|k: int| 0 <= k < sels.len() implies (#[trigger] sels[k]).position != position by {
                if sels[k].position == position {
                    assert(position_is(position)(sels[k]));
                }
            }
            assert forall|k: int| 0 <= k < sels.len() && (#[trigger] sels[k]).position != position
                implies sels.contains(sels[k]) by {}
        },
    }
}

// ---------------------------------------------------------------------------
// Skill points
// ---------------------------------------------------------------------------

proof fn lemma_points_bounds(m: RepositoryModel, nodes: Seq<SkillNode>)
    ensures
        0 <= achieved_points(m, nodes) <= total_points(nodes),
        (forall|i: int| 0 <= i < nodes.len() ==> !has_achieved_state(m, #[trigger] nodes[i].achievement_id@))
            ==> achieved_points(m, nodes) == 0,
        (forall|i: int| 0 <= i < nodes.len() ==> has_achieved_state(m, #[trigger] nodes[i].achievement_id@))
            ==> achieved_points(m, nodes) == total_points(nodes),
    decreases nodes.len(),
{
    if nodes.len() > 0 {
        let p = nodes.drop_last();
        lemma_points_bounds(m, p);
        assert(nodes[nodes.len() - 1] == nodes.last());
        if forall|i: int| 0 <= i < nodes.len() ==> !has_achieved_state(m, #[trigger] nodes[i].achievement_id@) {
            assert forall|i: int| 0 <= i < p.len() implies !has_achieved_state(m, #[trigger] p[i].achievement_id@) by {
                assert(p[i] == nodes[i]);
            }
        }
        if forall|i: int| 0 <= i < nodes.len() ==> has_achieved_state(m, #[trigger] nodes[i].achievement_id@) {
            assert forall|i: int| 0 <= i < p.len() implies has_achieved_state(m, #[trigger] p[i].achievement_id@) by {
                assert(p[i] == nodes[i]);
            }
        }
    }
}

/// A Skill's evaluation lists its nodes in order, each with its Achievement
/// and points; it scores no points and no level while none of the nodes'
/// Achievements is achieved, all its points once every one is, never more
/// than all its points, and at least level one once it scores.
pub proof fn law_skill_points(m: RepositoryModel, p: PackModel, s: SkillModel)
    ensures
        ({
            let e = skill_evaluation(m, p, s);
            &&& e.pack_id == p.manifest.id@ && e.definition == s
            &&& e.nodes.len() == s.nodes.len()
            &&& forall|i: int| 0 <= i < s.nodes.len() ==> (#[trigger] e.nodes[i]).achievement_id == s.nodes[i].achievement_id
                && e.nodes[i].points == s.nodes[i].points
            &&& e.points <= e.max_points
            &&& (forall|i: int| 0 <= i < s.nodes.len() ==> !has_achieved_state(m, #[trigger] s.nodes[i].achievement_id@))
                ==> e.points == 0 && e.level == 0
            &&& (forall|i: int| 0 <= i < s.nodes.len() ==> has_achieved_state(m, #[trigger] s.nodes[i].achievement_id@))
                ==> e.points == e.max_points
            &&& e.points > 0 ==> 1 <= e.level <= 5
        }),
{
    lemma_points_bounds(m, s.nodes);
    assert(forall|id: Seq<char>| #[trigger] has_achieved_state(m, id) == achieved(m, id));
    let e = skill_evaluation(m, p, s);
    let a = achieved_points(m, s.nodes);
    assert(e.points == saturated(a));
    assert(e.max_points == saturated(total_points(s.nodes)));
    assert(e.points <= e.max_points);
    assert(e.points > 0 ==> a > 0);
}

// ---------------------------------------------------------------------------
// Pack listing
// ---------------------------------------------------------------------------

/// A Pack listing has one summary per installed Pack, in stored order, each
/// with the Pack's identifier, name and asset count, and marked enabled
/// exactly when the identifier is among the enabled ones.
pub proof fn law_pack_list_summaries(m: RepositoryModel, v: Seq<PackSummary>)
    requires
        v.len() == m.packs.len(),
        forall|k: int| 0 <= k < v.len() ==> summary_of(#[trigger] v[k], m.packs[k], m.is_enabled(m.packs[k].manifest.id@)),
    ensures
        forall|k: int| 0 <= k < v.len() ==> {
            &&& (#[trigger] v[k]).id == m.packs[k].manifest.id && v[k].name == m.packs[k].manifest.name
            &&& v[k].asset_count == m.packs[k].assets.len()
            &&& v[k].enabled <==> exists|j: int| 0 <= j < m.enabled_pack_ids.len() && m.enabled_pack_ids[j] == v[k].id@
        },
{
    assert forall|k: int| 0 <= k < v.len() implies {
        &&& (#[trigger] v[k]).id == m.packs[k].manifest.id && v[k].name == m.packs[k].manifest.name
        &&& v[k].asset_count == m.packs[k].assets.len()
        &&& v[k].enabled <==> exists|j: int| 0 <= j < m.enabled_pack_ids.len() && m.enabled_pack_ids[j] == v[k].id@
    } by {
        assert(summary_of(v[k], m.packs[k], m.is_enabled(m.packs[k].manifest.id@)));
        let id = m.packs[k].manifest.id@;
        if exists|j: int| 0 <= j < m.enabled_pack_ids.len() && m.enabled_pack_ids[j] == id {
            let j = choose|j: int| 0 <= j < m.enabled_pack_ids.len() && m.enabled_pack_ids[j] == id;
            assert(name_is(id)(m.enabled_pack_ids[j]));
            assert(first_match(m.enabled_pack_ids, name_is(id)) is Some);
        } else {
            assert forall|j: int| 0 <= j < m.enabled_pack_ids.len() implies !name_is(id)(#[trigger] m.enabled_pack_ids[j]) by {}
            lemma_first_match_none(m.enabled_pack_ids, name_is(id));
        }
    }
}

} // verus!
