//! Skill commands: the Skills of the enabled Packs with the points, level and
//! node availability the user's Achievement states give them.
use vstd::prelude::*;
use crate::catalog::{enabled_packs, pack_achievements, pack_skills};
use crate::commands::achievement_commands::{achieved, availability_of, unmet_prerequisites, AchievementAvailability};
use crate::error::RepositoryResult;
use crate::order::{lemma_seq_lt_asymmetric, lemma_seq_lt_irreflexive, lemma_seq_lt_total, lemma_seq_lt_transitive};
use crate::pack::{AchievementDefinition, AchievementModel, Pack, PackModel, SkillDefinition, SkillModel, SkillNode};
use crate::repository::{Repository, RepositoryModel};
use crate::text::{seq_lt, str_eq, str_lt};

verus! {

broadcast use vstd::seq_lib::group_to_multiset_ensures;

#[derive(Debug, Clone, Default, PartialEq, Eq)]
pub struct QuerySkills {
    pub skill_id: Option<String>,
    pub pack_id: Option<String>,
}

#[derive(Debug, Clone, PartialEq, Eq)]
pub struct SkillNodeEvaluation {
    pub achievement_id: String,
    pub points: u64,
    pub availability: AchievementAvailability,
}

#[derive(Debug, Clone, PartialEq, Eq)]
pub struct SkillEvaluation {
    pub pack_id: String,
    pub definition: SkillDefinition,
    pub points: u64,
    pub max_points: u64,
    pub level: u8,
    pub achieved_node_count: usize,
    pub node_count: usize,
    pub nodes: Vec<SkillNodeEvaluation>,
}

pub struct SkillEvaluationModel {
    pub pack_id: Seq<char>,
    pub definition: SkillModel,
    pub points: u64,
    pub max_points: u64,
    pub level: u8,
    pub achieved_node_count: usize,
    pub node_count: usize,
    pub nodes: Seq<SkillNodeEvaluation>,
}

impl View for SkillEvaluation {
    type V = SkillEvaluationModel;

    open spec fn view(&self) -> SkillEvaluationModel {
        SkillEvaluationModel {
            pack_id: self.pack_id@,
            definition: self.definition@,
            points: self.points,
            max_points: self.max_points,
            level: self.level,
            achieved_node_count: self.achieved_node_count,
            node_count: self.node_count,
            nodes: self.nodes@,
        }
    }
}

pub open spec fn evaluations_view(v: Seq<SkillEvaluation>) -> Seq<SkillEvaluationModel> {
    v.map_values(|e: SkillEvaluation| e@)
}

// ---------------------------------------------------------------------------
// Rules
// ---------------------------------------------------------------------------

/// The last Achievement of a Pack with the identifier.
pub open spec fn pack_achievement(achievements: Seq<AchievementModel>, id: Seq<char>) -> Option<AchievementModel>
    decreases achievements.len(),
{
    if achievements.len() == 0 {
        None
    } else if achievements.last().id@ == id {
        Some(achievements.last())
    } else {
        pack_achievement(achievements.drop_last(), id)
    }
}

/// A node's availability is that of its Achievement in the same Pack.
pub open spec fn node_evaluation(m: RepositoryModel, p: PackModel, n: SkillNode) -> SkillNodeEvaluation {
    SkillNodeEvaluation {
        achievement_id: n.achievement_id,
        points: n.points,
        availability: match pack_achievement(pack_achievements(p), n.achievement_id@) {
            Some(a) => availability_of(m.achievement_state(n.achievement_id@), unmet_prerequisites(m, a)),
            None => AchievementAvailability::Unresolved,
        },
    }
}

/// Points of the nodes whose Achievement the user has achieved.
pub open spec fn achieved_points(m: RepositoryModel, nodes: Seq<SkillNode>) -> int
    decreases nodes.len(),
{
    if nodes.len() == 0 {
        0
    } else {
        achieved_points(m, nodes.drop_last()) + if achieved(m, nodes.last().achievement_id@) { nodes.last().points as int } else { 0 }
    }
}

pub open spec fn total_points(nodes: Seq<SkillNode>) -> int
    decreases nodes.len(),
{
    if nodes.len() == 0 {
        0
    } else {
        total_points(nodes.drop_last()) + nodes.last().points as int
    }
}

/// Points beyond the `u64` range are held at its largest value.
pub open spec fn saturated(x: int) -> u64 {
    if x > u64::MAX { u64::MAX } else { x as u64 }
}

/// A Skill's level: none without points; otherwise one, plus one for every
/// threshold the points reach.
pub open spec fn skill_level(points: int, thresholds: [u64; 4]) -> u8 {
    if points <= 0 {
        0
    } else {
        (1 + (if thresholds[0] <= points { 1int } else { 0 }) + (if thresholds[1] <= points { 1int } else { 0 })
            + (if thresholds[2] <= points { 1int } else { 0 }) + (if thresholds[3] <= points { 1int } else { 0 })) as u8
    }
}

pub open spec fn achieved_node_count(nodes: Seq<SkillNodeEvaluation>) -> int
    decreases nodes.len(),
{
    if nodes.len() == 0 {
        0
    } else {
        achieved_node_count(nodes.drop_last()) + if nodes.last().availability == AchievementAvailability::Achieved { 1int } else { 0 }
    }
}

pub open spec fn node_mapper(m: RepositoryModel, p: PackModel) -> spec_fn(SkillNode) -> SkillNodeEvaluation {
    |n: SkillNode| node_evaluation(m, p, n)
}

pub open spec fn skill_evaluation(m: RepositoryModel, p: PackModel, s: SkillModel) -> SkillEvaluationModel {
    let nodes = s.nodes.map_values(node_mapper(m, p));
    SkillEvaluationModel {
        pack_id: p.manifest.id@,
        definition: s,
        points: saturated(achieved_points(m, s.nodes)),
        max_points: saturated(total_points(s.nodes)),
        level: skill_level(achieved_points(m, s.nodes), s.level_thresholds),
        achieved_node_count: achieved_node_count(nodes) as usize,
        node_count: s.nodes.len() as usize,
        nodes: nodes,
    }
}

pub open spec fn skill_matches(q: QuerySkills, s: SkillModel) -> bool {
    q.skill_id matches Some(id) ==> s.id@ == id@
}

pub open spec fn pack_matches(q: QuerySkills, p: PackModel) -> bool {
    q.pack_id matches Some(id) ==> p.manifest.id@ == id@
}

/// The evaluations of the matching Skills of one Pack, in Skill order.
pub open spec fn pack_evaluations(m: RepositoryModel, q: QuerySkills, p: PackModel, skills: Seq<SkillModel>) -> Seq<SkillEvaluationModel>
    decreases skills.len(),
{
    if skills.len() == 0 {
        Seq::empty()
    } else {
        let prev = pack_evaluations(m, q, p, skills.drop_last());
        if skill_matches(q, skills.last()) {
            prev.push(skill_evaluation(m, p, skills.last()))
        } else {
            prev
        }
    }
}

/// The evaluations of the matching Skills of the matching Packs, in Pack
/// order.
pub open spec fn evaluations_of(m: RepositoryModel, q: QuerySkills, ps: Seq<PackModel>) -> Seq<SkillEvaluationModel>
    decreases ps.len(),
{
    if ps.len() == 0 {
        Seq::empty()
    } else {
        let p = ps.last();
        evaluations_of(m, q, ps.drop_last()) + if pack_matches(q, p) {
            pack_evaluations(m, q, p, pack_skills(p))
        } else {
            Seq::empty()
        }
    }
}

pub open spec fn evaluations_sorted(s: Seq<SkillEvaluationModel>) -> bool {
    forall|i: int, j: int| 0 <= i < j < s.len() ==> !seq_lt(#[trigger] s[j].definition.id@, #[trigger] s[i].definition.id@)
}

// ---------------------------------------------------------------------------
// Evaluation
// ---------------------------------------------------------------------------

fn pack_achievement_exec<'a>(pack: &'a Pack, id: &str) -> (r: Option<&'a AchievementDefinition>)
    ensures
        match r {
            Some(a) => pack_achievement(pack_achievements(pack@), id@) == Some(a@),
            None => pack_achievement(pack_achievements(pack@), id@) is None,
        },
{
    match &pack.achievements {
        Some(file) => {
            let ghost v = crate::pack::achievements_model(file.achievements@);
            proof { assert(pack_achievements(pack@) == v); }
            let mut found: Option<usize> = None;
            let mut k: usize = 0;
            proof { assert(v.take(0) =~= Seq::<AchievementModel>::empty()); }
            while k < file.achievements.len()
                invariant
                    k <= file.achievements@.len(),
                    v == crate::pack::achievements_model(file.achievements@),
                    match found {
                        Some(f) => f < k && pack_achievement(v.take(k as int), id@) == Some(v[f as int]),
                        None => pack_achievement(v.take(k as int), id@) is None,
                    },
                decreases file.achievements.len() - k,
            {
                proof {
                    assert(v.take(k + 1).drop_last() =~= v.take(k as int));
                    assert(v.take(k + 1).last() == v[k as int]);
                    assert(v[k as int] == file.achievements@[k as int]@);
                }
                if str_eq(file.achievements[k].id.as_str(), id) {
                    found = Some(k);
                }
                k = k + 1;
            }
            proof { assert(v.take(v.len() as int) =~= v); }
            match found {
                Some(f) => {
                    proof { assert(v[f as int] == file.achievements@[f as int]@); }
                    Some(&file.achievements[f])
                }
                None => None,
            }
        }
        None => None,
    }
}

impl Repository {
    fn node_evaluation_exec(&self, pack: &Pack, node: &SkillNode) -> (r: SkillNodeEvaluation)
        ensures
            r == node_evaluation(self@, pack@, *node),
    {
        let availability = match pack_achievement_exec(pack, node.achievement_id.as_str()) {
            Some(a) => {
                let state = match self.find_state(node.achievement_id.as_str()) {
                    Some(i) => Some(self.achievement_states[i].1.copied()),
                    None => None,
                };
                let unmet = self.unmet_prerequisites_exec(a);
                match state {
                    Some(s) => if s.status == crate::state::AchievementStatus::Tracking {
                        AchievementAvailability::Tracking
                    } else {
                        AchievementAvailability::Achieved
                    },
                    None => if unmet.len() == 0 {
                        AchievementAvailability::Available
                    } else {
                        AchievementAvailability::Locked
                    },
                }
            }
            None => AchievementAvailability::Unresolved,
        };
        SkillNodeEvaluation { achievement_id: node.achievement_id.clone(), points: node.points, availability }
    }

    fn skill_evaluation_exec(&self, pack: &Pack, skill: &SkillDefinition) -> (r: SkillEvaluation)
        ensures
            r@ == skill_evaluation(self@, pack@, skill@),
    {
        let ghost m = self@;
        let ghost ns = skill.nodes@;
        let ghost f = node_mapper(m, pack@);
        let mut nodes: Vec<SkillNodeEvaluation> = Vec::new();
        let mut points: u128 = 0;
        let mut max_points: u128 = 0;
        let mut achieved_count: usize = 0;
        let mut k: usize = 0;
        proof {
            assert(ns.take(0) =~= Seq::<SkillNode>::empty());
            assert(ns.take(0).map_values(f) =~= Seq::<SkillNodeEvaluation>::empty());
        }
        while k < skill.nodes.len()
            invariant
                k <= ns.len(),
                m == self@,
                ns == skill.nodes@,
                f == node_mapper(m, pack@),
                nodes@ == ns.take(k as int).map_values(f),
                points == achieved_points(m, ns.take(k as int)),
                max_points == total_points(ns.take(k as int)),
                achieved_count == achieved_node_count(nodes@),
                points <= k * 0x1_0000_0000_0000_0000,
                max_points <= k * 0x1_0000_0000_0000_0000,
                achieved_count <= k,
            decreases skill.nodes.len() - k,
        {
            proof {
                assert(ns.take(k + 1).drop_last() =~= ns.take(k as int));
                assert(ns.take(k + 1).last() == ns[k as int]);
            }
            let node = &skill.nodes[k];
            let evaluation = self.node_evaluation_exec(pack, node);
            let reached = self.achieved_prerequisite(node.achievement_id.as_str());
            if reached {
                points = points + node.points as u128;
            }
            max_points = max_points + node.points as u128;
            let ghost before = nodes@;
            if evaluation.availability == AchievementAvailability::Achieved {
                achieved_count = achieved_count + 1;
            }
            nodes.push(evaluation);
            proof {
                assert(ns.take(k + 1).map_values(f) =~= ns.take(k as int).map_values(f).push(f(ns[k as int])));
                assert(nodes@.drop_last() =~= before);
            }
            k = k + 1;
        }
        proof {
            assert(ns.take(ns.len() as int) =~= ns);
        }
        let points_u64: u64 = if points > 0xFFFF_FFFF_FFFF_FFFFu128 { 0xFFFF_FFFF_FFFF_FFFFu64 } else { points as u64 };
        let max_u64: u64 = if max_points > 0xFFFF_FFFF_FFFF_FFFFu128 { 0xFFFF_FFFF_FFFF_FFFFu64 } else { max_points as u64 };
        let t = skill.level_thresholds;
        let level: u8 = if points == 0 {
            0
        } else {
            1 + (if t[0] as u128 <= points { 1u8 } else { 0 }) + (if t[1] as u128 <= points { 1u8 } else { 0 })
                + (if t[2] as u128 <= points { 1u8 } else { 0 }) + (if t[3] as u128 <= points { 1u8 } else { 0 })
        };
        SkillEvaluation {
            pack_id: pack.manifest.id.clone(),
            definition: skill.copied(),
            points: points_u64,
            max_points: max_u64,
            level,
            achieved_node_count: achieved_count,
            node_count: skill.nodes.len(),
            nodes,
        }
    }

    /// Whether the user has achieved the Achievement.
    pub fn achieved_prerequisite(&self, id: &str) -> (r: bool)
        ensures
            r == achieved(self@, id@),
    {
        let mut k: usize = 0;
        while k < self.achievement_states.len()
            invariant
                k <= self@.achievement_states.len(),
                forall|j: int| 0 <= j < k ==> !((#[trigger] self@.achievement_states[j]).0@ == id@
                    && self@.achievement_states[j].1.status == crate::state::AchievementStatus::Achieved),
            decreases self.achievement_states.len() - k,
        {
            if str_eq(self.achievement_states[k].0.as_str(), id) && self.achievement_states[k].1.is_achieved() {
                return true;
            }
            k = k + 1;
        }
        false
    }

    /// The prerequisites of a definition the user has not achieved.
    pub fn unmet_prerequisites_exec(&self, d: &AchievementDefinition) -> (r: Vec<String>)
        ensures
            r@ == unmet_prerequisites(self@, d@),
    {
        let ghost s = d.prerequisites@;
        let ghost pred = crate::commands::achievement_commands::unmet_filter(self@);
        proof { crate::seqs::lemma_filter_ends(s, pred); }
        let mut out: Vec<String> = Vec::new();
        let mut k: usize = 0;
        while k < d.prerequisites.len()
            invariant
                k <= s.len(),
                s == d.prerequisites@,
                pred == crate::commands::achievement_commands::unmet_filter(self@),
                out@ == s.take(k as int).filter(pred),
            decreases d.prerequisites.len() - k,
        {
            proof { crate::seqs::lemma_filter_step(s, pred, k as int); }
            if !self.achieved_prerequisite(d.prerequisites[k].as_str()) {
                out.push(d.prerequisites[k].clone());
            }
            k = k + 1;
        }
        out
    }
}

/// Where an evaluation goes among evaluations sorted by identifier: before
/// the first whose identifier is not less than its own.
pub open spec fn insert_point(t: Seq<SkillEvaluationModel>, x: SkillEvaluationModel) -> int
    decreases t.len(),
{
    if t.len() == 0 || !seq_lt(t[0].definition.id@, x.definition.id@) {
        0
    } else {
        1 + insert_point(t.drop_first(), x)
    }
}

/// The evaluations sorted by identifier, those with equal identifiers in
/// the order they came: each is inserted, from the last to the first,
/// before the first of the already sorted ones whose identifier is not less.
pub open spec fn sort_by_id(s: Seq<SkillEvaluationModel>) -> Seq<SkillEvaluationModel>
    decreases s.len(),
{
    if s.len() == 0 {
        s
    } else {
        let t = sort_by_id(s.drop_first());
        t.insert(insert_point(t, s[0]), s[0])
    }
}

proof fn lemma_insert_point(t: Seq<SkillEvaluationModel>, x: SkillEvaluationModel, p: int)
    requires
        0 <= p <= t.len(),
        forall|k: int| 0 <= k < p ==> seq_lt(#[trigger] t[k].definition.id@, x.definition.id@),
        p < t.len() ==> !seq_lt(t[p].definition.id@, x.definition.id@),
    ensures
        insert_point(t, x) == p,
    decreases p,
{
    if p > 0 {
        let u = t.drop_first();
        assert forall|k: int| 0 <= k < p - 1 implies seq_lt(#[trigger] u[k].definition.id@, x.definition.id@) by {
            assert(u[k] == t[k + 1]);
        }
        if p - 1 < u.len() {
            assert(u[p - 1] == t[p]);
        }
        assert(seq_lt(t[0].definition.id@, x.definition.id@));
        lemma_insert_point(u, x, p - 1);
    }
}

/// The evaluations of a Skill identifier.
pub open spec fn has_skill_id(id: Seq<char>) -> spec_fn(SkillEvaluationModel) -> bool {
    |e: SkillEvaluationModel| e.definition.id@ == id
}

proof fn lemma_before_insert_point(t: Seq<SkillEvaluationModel>, x: SkillEvaluationModel)
    ensures
        0 <= insert_point(t, x) <= t.len(),
        forall|k: int| 0 <= k < insert_point(t, x) ==> seq_lt(#[trigger] t[k].definition.id@, x.definition.id@),
    decreases t.len(),
{
    if t.len() > 0 && seq_lt(t[0].definition.id@, x.definition.id@) {
        let u = t.drop_first();
        lemma_before_insert_point(u, x);
        assert forall|k: int| 0 <= k < insert_point(t, x) implies seq_lt(#[trigger] t[k].definition.id@, x.definition.id@) by {
            if k > 0 {
                assert(t[k] == u[k - 1]);
            }
        }
    }
}

/// Sorting keeps the order of the evaluations that share an identifier.
pub proof fn lemma_sort_by_id_is_stable(s: Seq<SkillEvaluationModel>, id: Seq<char>)
    ensures
        sort_by_id(s).filter(has_skill_id(id)) == s.filter(has_skill_id(id)),
    decreases s.len(),
{
    broadcast use vstd::seq_lib::group_filter_ensures;
    if s.len() > 0 {
        let x = s[0];
        let rest = s.drop_first();
        let t = sort_by_id(rest);
        lemma_sort_by_id_is_stable(rest, id);
        let q = insert_point(t, x);
        lemma_before_insert_point(t, x);
        let pred = has_skill_id(id);
        assert(t.insert(q, x) =~= t.take(q) + (seq![x] + t.skip(q)));
        Seq::<SkillEvaluationModel>::filter_distributes_over_add(t.take(q), seq![x] + t.skip(q), pred);
        t.skip(q).lemma_filter_prepend(x, pred);
        rest.lemma_filter_prepend(x, pred);
        assert(seq![x] + rest =~= s);
        assert(t.take(q) + t.skip(q) =~= t);
        Seq::<SkillEvaluationModel>::filter_distributes_over_add(t.take(q), t.skip(q), pred);
        if pred(x) {
            assert forall|k: int| 0 <= k < t.take(q).len() implies !pred(#[trigger] t.take(q)[k]) by {
                assert(t.take(q)[k] == t[k]);
                lemma_seq_lt_irreflexive(x.definition.id@);
                assert(seq_lt(t[k].definition.id@, x.definition.id@));
            }
            t.take(q).lemma_all_neg_filter_empty(pred);
        }
    }
}

fn sort_evaluations(v: Vec<SkillEvaluation>) -> (r: Vec<SkillEvaluation>)
    ensures
        evaluations_view(r@) == sort_by_id(evaluations_view(v@)),
        evaluations_sorted(evaluations_view(r@)),
        evaluations_view(r@).to_multiset() == evaluations_view(v@).to_multiset(),
{
    let mut rest = v;
    let ghost orig = evaluations_view(rest@);
    let mut out: Vec<SkillEvaluation> = Vec::new();
    proof {
        assert(evaluations_view(out@) =~= Seq::<SkillEvaluationModel>::empty());
        assert(orig.subrange(orig.len() as int, orig.len() as int) =~= Seq::<SkillEvaluationModel>::empty());
        assert(evaluations_view(rest@) =~= orig.take(orig.len() as int));
    }
    while rest.len() > 0
        invariant
            rest@.len() <= orig.len(),
            evaluations_view(rest@) == orig.take(rest@.len() as int),
            evaluations_view(out@) == sort_by_id(orig.subrange(rest@.len() as int, orig.len() as int)),
            evaluations_sorted(evaluations_view(out@)),
            evaluations_view(out@).to_multiset().add(evaluations_view(rest@).to_multiset()) == orig.to_multiset(),
        decreases rest.len(),
    {
        let ghost before_rest = evaluations_view(rest@);
        let ghost n = rest@.len() as int;
        let x = rest.pop().unwrap();
        proof {
            assert(evaluations_view(rest@) =~= before_rest.drop_last());
            assert(before_rest =~= evaluations_view(rest@).push(x@));
            assert(evaluations_view(rest@) =~= orig.take(n - 1));
            assert(before_rest[n - 1] == x@);
            assert(orig.take(n)[n - 1] == orig[n - 1]);
            assert(x@ == orig[n - 1]);
        }
        let mut p: usize = 0;
        while p < out.len() && str_lt(out[p].definition.id.as_str(), x.definition.id.as_str())
            invariant
                p <= out@.len(),
                forall|k: int| 0 <= k < p ==> seq_lt(#[trigger] out@[k].definition.id@, x.definition.id@),
            decreases out.len() - p,
        {
            p = p + 1;
        }
        let ghost before = evaluations_view(out@);
        proof {
            assert forall|k: int| 0 <= k < p implies seq_lt(#[trigger] before[k].definition.id@, x@.definition.id@) by {
                assert(before[k] == out@[k]@);
            }
            if p < before.len() {
                assert(before[p as int] == out@[p as int]@);
            }
            lemma_insert_point(before, x@, p as int);
            let tail = orig.subrange(n - 1, orig.len() as int);
            assert(tail[0] == x@);
            assert(tail.drop_first() =~= orig.subrange(n, orig.len() as int));
        }
        out.insert(p, x);
        proof {
            assert(evaluations_view(out@) =~= before.insert(p as int, x@));
            assert forall|i: int, j: int| 0 <= i < j < evaluations_view(out@).len() implies
                !seq_lt(#[trigger] evaluations_view(out@)[j].definition.id@, #[trigger] evaluations_view(out@)[i].definition.id@) by {
                let s = evaluations_view(out@);
                if j < p {
                    assert(s[i] == before[i] && s[j] == before[j]);
                } else if j == p {
                    assert(s[i] == before[i]);
                    assert(s[j] == x@);
                    assert(seq_lt(before[i].definition.id@, x@.definition.id@));
                    lemma_seq_lt_asymmetric(before[i].definition.id@, x@.definition.id@);
                } else if i == p {
                    assert(s[i] == x@);
                    assert(s[j] == before[j - 1]);
                    assert(!seq_lt(before[p as int].definition.id@, x@.definition.id@));
                    if seq_lt(before[j - 1].definition.id@, x@.definition.id@) {
                        if j - 1 > p {
                            assert(!seq_lt(before[j - 1].definition.id@, before[p as int].definition.id@));
                            if before[j - 1].definition.id@ == before[p as int].definition.id@ {
                            } else {
                                lemma_seq_lt_total(before[j - 1].definition.id@, before[p as int].definition.id@);
                                lemma_seq_lt_transitive(before[p as int].definition.id@, before[j - 1].definition.id@, x@.definition.id@);
                            }
                        }
                    }
                } else if i < p {
                    assert(s[i] == before[i] && s[j] == before[j - 1]);
                } else {
                    assert(s[i] == before[i - 1] && s[j] == before[j - 1]);
                }
            }
            vstd::seq_lib::to_multiset_insert(before, p as int, x@);
            assert(evaluations_view(rest@).push(x@).to_multiset() =~= evaluations_view(rest@).to_multiset().insert(x@));
        }
    }
    proof {
        assert(evaluations_view(rest@).to_multiset() =~= vstd::multiset::Multiset::empty());
        assert(orig.subrange(0, orig.len() as int) =~= orig);
    }
    out
}

// ---------------------------------------------------------------------------
// Commands
// ---------------------------------------------------------------------------

pub struct SkillCommands<'repository> {
    pub repository: &'repository mut Repository,
}

impl<'repository> SkillCommands<'repository> {
    pub fn new(repository: &'repository mut Repository) -> (r: Self)
        ensures
            r.repository@ == old(repository)@,
    {
        SkillCommands { repository }
    }

    /// Every matching Skill of the enabled Packs with its evaluation, in
    /// Skill identifier order; Skills that share an identifier keep the order
    /// of their Packs.  Nothing is stored.
    #[verifier::loop_isolation(false)]
    pub fn list(&mut self, query: QuerySkills) -> (r: RepositoryResult<Vec<SkillEvaluation>>)
        ensures
            final(self).repository@ == old(self).repository@,
            r matches Ok(v) && exists|sorted: Seq<SkillEvaluationModel>|
                evaluations_sorted(sorted)
                    && sorted.to_multiset() == evaluations_of(old(self).repository@, query, enabled_packs(old(self).repository@)).to_multiset()
                    && #[trigger] evaluations_view(v@) == sorted,
            r matches Ok(v) && evaluations_view(v@)
                == sort_by_id(evaluations_of(old(self).repository@, query, enabled_packs(old(self).repository@))),
    {
        let ghost m = self.repository@;
        let positions = self.repository.enabled_pack_positions();
        let ghost ps = enabled_packs(m);
        let mut out: Vec<SkillEvaluation> = Vec::new();
        proof { assert(evaluations_view(out@) =~= evaluations_of(m, query, ps.take(0))); }
        let mut k: usize = 0;
        while k < positions.len()
            invariant
                k <= positions@.len(),
                m == self.repository@,
                positions@.len() == ps.len(),
                forall|j: int| 0 <= j < positions@.len() ==> (#[trigger] positions@[j]) < self.repository.packs@.len()
                    && m.packs[positions@[j] as int] == ps[j],
                evaluations_view(out@) == evaluations_of(m, query, ps.take(k as int)),
            decreases positions.len() - k,
        {
            let pack = &self.repository.packs[positions[k]];
            let ghost p = ps[k as int];
            proof {
                assert(ps.take(k + 1).drop_last() =~= ps.take(k as int));
                assert(ps.take(k + 1).last() == p);
                assert(m.packs[positions@[k as int] as int] == pack@);
            }
            let ghost before = evaluations_view(out@);
            let pack_ok = match &query.pack_id {
                Some(id) => str_eq(pack.manifest.id.as_str(), id.as_str()),
                None => true,
            };
            if pack_ok {
                match &pack.skills {
                    Some(file) => {
                        let ghost sk = crate::pack::skills_model(file.skills@);
                        proof { assert(pack_skills(p) == sk); }
                        let mut d: usize = 0;
                        proof { assert(sk.take(0) =~= Seq::<SkillModel>::empty()); }
                        while d < file.skills.len()
                            invariant
                                d <= file.skills@.len(),
                                sk == crate::pack::skills_model(file.skills@),
                                pack@ == p,
                                evaluations_view(out@) == before + pack_evaluations(m, query, p, sk.take(d as int)),
                            decreases file.skills.len() - d,
                        {
                            proof {
                                assert(sk.take(d + 1).drop_last() =~= sk.take(d as int));
                                assert(sk.take(d + 1).last() == sk[d as int]);
                                assert(sk[d as int] == file.skills@[d as int]@);
                            }
                            let skill = &file.skills[d];
                            let skill_ok = match &query.skill_id {
                                Some(id) => str_eq(skill.id.as_str(), id.as_str()),
                                None => true,
                            };
                            if skill_ok {
                                let ghost prev = out@;
                                out.push(self.repository.skill_evaluation_exec(pack, skill));
                                proof {
                                    assert(evaluations_view(out@) =~= evaluations_view(prev).push(skill_evaluation(m, p, sk[d as int])));
                                }
                            }
                            d = d + 1;
                        }
                        proof { assert(sk.take(sk.len() as int) =~= sk); }
                    }
                    None => {
                        proof { assert(evaluations_view(out@) =~= before + pack_evaluations(m, query, p, pack_skills(p))); }
                    }
                }
            } else {
                proof { assert(evaluations_view(out@) =~= before + Seq::<SkillEvaluationModel>::empty()); }
            }
            k = k + 1;
        }
        proof { assert(ps.take(ps.len() as int) =~= ps); }
        let sorted = sort_evaluations(out);
        Ok(sorted)
    }
}

} // verus!
