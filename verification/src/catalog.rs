//! What the enabled Packs supply: Record definitions, Dimensions,
//! Achievements and Skills, each in enabled-Pack order.
use vstd::prelude::*;
use crate::pack::{
    AchievementDefinition, AchievementModel, DimensionDefinition, DimensionModel, PackModel,
    SkillDefinition, SkillModel,
};
use crate::record::{RecordDefinition, RecordDefinitionModel};
use crate::repository::{Repository, RepositoryModel};
use crate::seqs::{first_match, is_first_match, lemma_first_match_is, lemma_first_match_none};
use crate::text::str_eq;

verus! {

/// The enabled Packs that are installed, in enabled order.
pub open spec fn enabled_packs_upto(m: RepositoryModel, k: int) -> Seq<PackModel>
    decreases k,
{
    if k <= 0 {
        Seq::empty()
    } else {
        let prev = enabled_packs_upto(m, k - 1);
        match m.pack(m.enabled_pack_ids[k - 1]) {
            Some(p) => prev.push(p),
            None => prev,
        }
    }
}

pub open spec fn enabled_packs(m: RepositoryModel) -> Seq<PackModel> {
    enabled_packs_upto(m, m.enabled_pack_ids.len() as int)
}

pub open spec fn pack_definitions(p: PackModel) -> Seq<RecordDefinitionModel> {
    match p.record_definitions {
        Some(s) => s,
        None => Seq::empty(),
    }
}

pub open spec fn pack_achievements(p: PackModel) -> Seq<AchievementModel> {
    match p.achievements {
        Some(s) => s,
        None => Seq::empty(),
    }
}

pub open spec fn pack_dimensions(p: PackModel) -> Seq<DimensionModel> {
    match p.dimensions {
        Some(s) => s,
        None => Seq::empty(),
    }
}

pub open spec fn pack_skills(p: PackModel) -> Seq<SkillModel> {
    match p.skills {
        Some(s) => s,
        None => Seq::empty(),
    }
}

/// All Record definitions of a sequence of Packs, in order.
pub open spec fn definitions_of(ps: Seq<PackModel>) -> Seq<RecordDefinitionModel>
    decreases ps.len(),
{
    if ps.len() == 0 {
        Seq::empty()
    } else {
        definitions_of(ps.drop_last()) + pack_definitions(ps.last())
    }
}

/// All Achievement definitions of a sequence of Packs with their Pack ids.
pub open spec fn achievements_of(ps: Seq<PackModel>) -> Seq<(String, AchievementModel)>
    decreases ps.len(),
{
    if ps.len() == 0 {
        Seq::empty()
    } else {
        let p = ps.last();
        achievements_of(ps.drop_last()) + pack_achievements(p).map_values(
            |a: AchievementModel| (p.manifest.id, a),
        )
    }
}

/// All Dimensions of a sequence of Packs with their Pack ids.
pub open spec fn dimensions_of(ps: Seq<PackModel>) -> Seq<(String, DimensionModel)>
    decreases ps.len(),
{
    if ps.len() == 0 {
        Seq::empty()
    } else {
        let p = ps.last();
        dimensions_of(ps.drop_last()) + pack_dimensions(p).map_values(
            |d: DimensionModel| (p.manifest.id, d),
        )
    }
}

pub open spec fn definition_is(id: Seq<char>) -> spec_fn(RecordDefinitionModel) -> bool {
    |d: RecordDefinitionModel| d.id()@ == id
}

impl RecordDefinitionModel {
    pub open spec fn id(self) -> String {
        match self {
            RecordDefinitionModel::Scalar(d) => d.id,
            RecordDefinitionModel::Collection(d) => d.id,
            RecordDefinitionModel::Event(d) => d.id,
        }
    }
}

/// The RecordDefinition that the enabled Packs supply for an identifier:
/// the first one in enabled-Pack order.
pub open spec fn registry_definition(m: RepositoryModel, id: Seq<char>) -> Option<RecordDefinitionModel> {
    let defs = definitions_of(enabled_packs(m));
    match first_match(defs, definition_is(id)) {
        Some(i) => Some(defs[i]),
        None => None,
    }
}

impl Repository {
    /// Positions in `packs` of the enabled, installed Packs, in enabled order.
    pub fn enabled_pack_positions(&self) -> (r: Vec<usize>)
        ensures
            r@.len() == enabled_packs(self@).len(),
            forall|k: int| 0 <= k < r@.len() ==> (#[trigger] r@[k]) < self.packs@.len()
                && self@.packs[r@[k] as int] == enabled_packs(self@)[k],
    {
        let mut out: Vec<usize> = Vec::new();
        let mut i: usize = 0;
        while i < self.enabled_pack_ids.len()
            invariant
                i <= self.enabled_pack_ids@.len(),
                out@.len() == enabled_packs_upto(self@, i as int).len(),
                forall|k: int| 0 <= k < out@.len() ==> (#[trigger] out@[k]) < self.packs@.len()
                    && self@.packs[out@[k] as int] == enabled_packs_upto(self@, i as int)[k],
            decreases self.enabled_pack_ids.len() - i,
        {
            let found = self.find_pack(self.enabled_pack_ids[i].as_str());
            proof { assert(self@.enabled_pack_ids[i as int] == self.enabled_pack_ids@[i as int]@); }
            let ghost prev = enabled_packs_upto(self@, i as int);
            match found {
                Some(p) => {
                    out.push(p);
                    proof {
                        assert(enabled_packs_upto(self@, i + 1) == prev.push(self@.packs[p as int]));
                    }
                }
                None => {
                    proof {
                        assert(enabled_packs_upto(self@, i + 1) == prev);
                    }
                }
            }
            i = i + 1;
        }
        out
    }

    /// `definition_registry().get(id)`: the definition the enabled Packs supply.
    #[verifier::loop_isolation(false)]
    pub fn registry_definition(&self, id: &str) -> (r: Option<RecordDefinition>)
        ensures
            r matches Some(d) ==> registry_definition(self@, id@) == Some(d@),
            r is None ==> registry_definition(self@, id@) is None,
    {
        let positions = self.enabled_pack_positions();
        let ghost ps = enabled_packs(self@);
        let mut k: usize = 0;
        while k < positions.len()
            invariant
                positions@.len() == ps.len(),
                ps == enabled_packs(self@),
                forall|j: int| 0 <= j < positions@.len() ==> (#[trigger] positions@[j]) < self.packs@.len()
                    && self@.packs[positions@[j] as int] == ps[j],
                k <= positions@.len(),
                forall|j: int| 0 <= j < definitions_of(ps.take(k as int)).len()
                    ==> !definition_is(id@)(#[trigger] definitions_of(ps.take(k as int))[j]),
            decreases positions.len() - k,
        {
            let pack = &self.packs[positions[k]];
            proof {
                assert(ps.take(k + 1).drop_last() =~= ps.take(k as int));
                assert(ps.take(k + 1).last() == ps[k as int]);
            }
            match &pack.record_definitions {
                Some(file) => {
                    let mut d: usize = 0;
                    while d < file.definitions.len()
                        invariant
                            d <= file.definitions@.len(),
                            pack@ == ps[k as int],
                            pack.record_definitions == Some(*file),
                            forall|j: int| 0 <= j < d ==> !definition_is(id@)(#[trigger] file.definitions@[j]@),
                        decreases file.definitions.len() - d,
                    {
                        if str_eq(file.definitions[d].id().as_str(), id) {
                            let ghost defs = definitions_of(ps);
                            let ghost before = definitions_of(ps.take(k as int));
                            let ghost pos = before.len() + d;
                            proof {
                                lemma_definitions_prefix(ps, k as int + 1);
                                assert(definitions_of(ps.take(k + 1)) =~= before + pack_definitions(ps[k as int]));
                                assert(defs[pos] == file.definitions@[d as int]@);
                                assert forall|j: int| 0 <= j < pos implies !definition_is(id@)(#[trigger] defs[j]) by {
                                    if j < before.len() {
                                        assert(defs[j] == before[j]);
                                    } else {
                                        assert(defs[j] == file.definitions@[j - before.len()]@);
                                    }
                                }
                                assert(is_first_match(defs, definition_is(id@), pos));
                                lemma_first_match_is(defs, definition_is(id@), pos);
                            }
                            return Some(file.definitions[d].copied());
                        }
                        d = d + 1;
                    }
                    proof {
                        assert(definitions_of(ps.take(k + 1)) =~= definitions_of(ps.take(k as int)) + pack_definitions(ps[k as int]));
                    }
                }
                None => {
                    proof {
                        assert(definitions_of(ps.take(k + 1)) =~= definitions_of(ps.take(k as int)) + pack_definitions(ps[k as int]));
                    }
                }
            }
            k = k + 1;
        }
        proof {
            assert(ps.take(ps.len() as int) =~= ps);
            lemma_first_match_none(definitions_of(ps), definition_is(id@));
        }
        None
    }
}

pub open spec fn dimension_pairs_view(v: Seq<(String, DimensionDefinition)>) -> Seq<(String, DimensionModel)> {
    v.map_values(|e: (String, DimensionDefinition)| (e.0, e.1@))
}

impl Repository {
    /// The Dimensions the enabled Packs supply, with their Pack ids, in
    /// enabled-Pack order.
    #[verifier::loop_isolation(false)]
    pub fn enabled_dimensions(&self) -> (r: Vec<(String, DimensionDefinition)>)
        ensures
            dimension_pairs_view(r@) == dimensions_of(enabled_packs(self@)),
    {
        let positions = self.enabled_pack_positions();
        let ghost ps = enabled_packs(self@);
        let mut out: Vec<(String, DimensionDefinition)> = Vec::new();
        proof { assert(dimension_pairs_view(out@) =~= dimensions_of(ps.take(0))); }
        let mut k: usize = 0;
        while k < positions.len()
            invariant
                positions@.len() == ps.len(),
                ps == enabled_packs(self@),
                forall|j: int| 0 <= j < positions@.len() ==> (#[trigger] positions@[j]) < self.packs@.len()
                    && self@.packs[positions@[j] as int] == ps[j],
                k <= positions@.len(),
                dimension_pairs_view(out@) == dimensions_of(ps.take(k as int)),
            decreases positions.len() - k,
        {
            let pack = &self.packs[positions[k]];
            proof {
                assert(ps.take(k + 1).drop_last() =~= ps.take(k as int));
                assert(ps.take(k + 1).last() == ps[k as int]);
                assert(self@.packs[positions@[k as int] as int] == pack@);
            }
            let ghost before = out@;
            match &pack.dimensions {
                Some(file) => {
                    let mut d: usize = 0;
                    while d < file.dimensions.len()
                        invariant
                            d <= file.dimensions@.len(),
                            pack@ == ps[k as int],
                            pack.dimensions == Some(*file),
                            out@.len() == before.len() + d,
                            forall|j: int| 0 <= j < before.len() ==> out@[j] == before[j],
                            forall|j: int| 0 <= j < d ==> (#[trigger] out@[before.len() + j]).0 == pack.manifest.id
                                && out@[before.len() + j].1@ == file.dimensions@[j]@,
                        decreases file.dimensions.len() - d,
                    {
                        out.push((pack.manifest.id.clone(), file.dimensions[d].copied()));
                        d = d + 1;
                    }
                    proof {
                        let p = ps[k as int];
                        let added = pack_dimensions(p).map_values(|dm: DimensionModel| (p.manifest.id, dm));
                        assert(dimensions_of(ps.take(k + 1)) == dimensions_of(ps.take(k as int)) + added);
                        assert(pack_dimensions(p) == crate::pack::dimensions_model(file.dimensions@));
                        assert(p.manifest.id == pack.manifest.id);
                        assert forall|j: int| 0 <= j < out@.len() implies #[trigger] dimension_pairs_view(out@)[j]
                            == (dimensions_of(ps.take(k as int)) + added)[j] by {
                            if j < before.len() {
                                assert(out@[j] == before[j]);
                                assert(dimension_pairs_view(before)[j] == dimensions_of(ps.take(k as int))[j]);
                            } else {
                                let q = j - before.len();
                                assert(out@[before.len() + q].1@ == file.dimensions@[q]@);
                            }
                        }
                        assert(dimension_pairs_view(out@) =~= dimensions_of(ps.take(k + 1)));
                    }
                }
                None => {
                    proof {
                        let p = ps[k as int];
                        assert(dimensions_of(ps.take(k + 1)) == dimensions_of(ps.take(k as int)) + pack_dimensions(p).map_values(
                            |dm: DimensionModel| (p.manifest.id, dm)));
                        assert(dimension_pairs_view(out@) =~= dimensions_of(ps.take(k + 1)));
                    }
                }
            }
            k = k + 1;
        }
        proof { assert(ps.take(ps.len() as int) =~= ps); }
        out
    }
}

pub open spec fn achievement_pairs_view(v: Seq<(String, AchievementDefinition)>) -> Seq<(String, AchievementModel)> {
    v.map_values(|e: (String, AchievementDefinition)| (e.0, e.1@))
}

impl Repository {
    /// Every Achievement definition of every installed Pack with its Pack
    /// id, in Pack order.
    pub fn all_achievements(&self) -> (r: Vec<(String, AchievementDefinition)>)
        ensures
            achievement_pairs_view(r@) == achievements_of(self@.packs),
    {
        let ghost ps = self@.packs;
        let mut out: Vec<(String, AchievementDefinition)> = Vec::new();
        proof { assert(achievement_pairs_view(out@) =~= achievements_of(ps.take(0))); }
        let mut k: usize = 0;
        while k < self.packs.len()
            invariant
                k <= ps.len(),
                ps == self@.packs,
                achievement_pairs_view(out@) == achievements_of(ps.take(k as int)),
            decreases self.packs.len() - k,
        {
            let pack = &self.packs[k];
            proof {
                assert(ps.take(k + 1).drop_last() =~= ps.take(k as int));
                assert(ps.take(k + 1).last() == ps[k as int]);
                assert(ps[k as int] == pack@);
            }
            let ghost before = out@;
            match &pack.achievements {
                Some(file) => {
                    let mut d: usize = 0;
                    while d < file.achievements.len()
                        invariant
                            d <= file.achievements@.len(),
                            k < ps.len(),
                            pack@ == ps[k as int],
                            pack.achievements == Some(*file),
                            out@.len() == before.len() + d,
                            forall|j: int| 0 <= j < before.len() ==> out@[j] == before[j],
                            forall|j: int| 0 <= j < d ==> (#[trigger] out@[before.len() + j]).0 == pack.manifest.id
                                && out@[before.len() + j].1@ == file.achievements@[j]@,
                        decreases file.achievements.len() - d,
                    {
                        out.push((pack.manifest.id.clone(), file.achievements[d].copied()));
                        d = d + 1;
                    }
                    proof {
                        let p = ps[k as int];
                        let added = pack_achievements(p).map_values(|a: AchievementModel| (p.manifest.id, a));
                        assert(achievements_of(ps.take(k + 1)) == achievements_of(ps.take(k as int)) + added);
                        assert(pack_achievements(p) == crate::pack::achievements_model(file.achievements@));
                        assert forall|j: int| 0 <= j < out@.len() implies #[trigger] achievement_pairs_view(out@)[j]
                            == (achievements_of(ps.take(k as int)) + added)[j] by {
                            if j < before.len() {
                                assert(out@[j] == before[j]);
                                assert(achievement_pairs_view(before)[j] == achievements_of(ps.take(k as int))[j]);
                            } else {
                                let q = j - before.len();
                                assert(out@[before.len() + q].1@ == file.achievements@[q]@);
                            }
                        }
                        assert(achievement_pairs_view(out@) =~= achievements_of(ps.take(k + 1)));
                    }
                }
                None => {
                    proof {
                        let p = ps[k as int];
                        assert(achievements_of(ps.take(k + 1)) == achievements_of(ps.take(k as int)) + pack_achievements(p).map_values(
                            |a: AchievementModel| (p.manifest.id, a)));
                        assert(achievement_pairs_view(out@) =~= achievements_of(ps.take(k + 1)));
                    }
                }
            }
            k = k + 1;
        }
        proof { assert(ps.take(ps.len() as int) =~= ps); }
        out
    }
}

/// The definitions of a prefix of Packs are a prefix of all definitions.
pub proof fn lemma_definitions_prefix(ps: Seq<PackModel>, k: int)
    requires
        0 <= k <= ps.len(),
    ensures
        definitions_of(ps).len() >= definitions_of(ps.take(k)).len(),
        forall|j: int| 0 <= j < definitions_of(ps.take(k)).len() ==> #[trigger] definitions_of(ps)[j] == definitions_of(ps.take(k))[j],
    decreases ps.len() - k,
{
    if k < ps.len() {
        lemma_definitions_prefix(ps, k + 1);
        assert(ps.take(k + 1).drop_last() =~= ps.take(k));
    } else {
        assert(ps.take(k) =~= ps);
    }
}

} // verus!
