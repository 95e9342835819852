//! Pack commands and the rules a Pack must satisfy.
use vstd::prelude::*;
use crate::error::{RepositoryError, RepositoryErrorCode, RepositoryResult, ValidationIssue};
use crate::pack::{
    AchievementDefinition, AchievementFile, AchievementModel, AssetModel, DimensionDefinition,
    DimensionFile, ManifestModel, Pack, PackAsset, PackManifest, PackModel, RecordDefinitionFile,
    SkillDefinition, SkillFile, SkillModel, SCHEMA_VERSION, assets_model, copy_achievements,
    copy_assets, copy_dimensions, copy_opt_json, copy_skills, copy_strings,
};
use crate::json::JsonValue;
use crate::record::{copy_definitions, copy_opt_string};
use crate::repository::{Repository, RepositoryModel, packs_model, pack_is};
use crate::pack_store::{
    cycle_error, enable_conflict, find_pack_in, forest_check, ids_with, ids_without, missing_parent,
    missing_parent_exec, packs_with, packs_with_exec, put_pack_ok,
};
use crate::catalog::{pack_achievements, pack_definitions, pack_dimensions, pack_skills};
use crate::seqs::{first_match, is_first_match, lemma_first_match_is, lemma_first_match_none};
use crate::text::{concat3, is_snake_case, scoped_id_parts, split_scoped_id, str_eq, str_lt, seq_lt};
use vstd::string::*;

verus! {

// ---------------------------------------------------------------------------
// Rules
// ---------------------------------------------------------------------------

/// A manifest names the current schema, a snake_case identifier, a name,
/// and optionally a snake_case parent other than itself.
pub open spec fn manifest_valid(m: ManifestModel) -> bool {
    &&& m.schema_version == SCHEMA_VERSION
    &&& is_snake_case(m.id@)
    &&& m.name@.len() > 0
    &&& (m.parent_pack_id matches Some(p) ==> is_snake_case(p@) && p@ != m.id@)
}

/// `id` is a scoped identifier `<pack>::<local>`.
pub open spec fn scoped_in(id: Seq<char>, pack: Seq<char>) -> bool {
    scoped_id_parts(id) matches Some((p, _)) && p == pack
}

pub open spec fn has_achievement(achievements: Seq<AchievementModel>, id: Seq<char>) -> bool {
    exists|k: int| 0 <= k < achievements.len() && (#[trigger] achievements[k]).id@ == id
}

pub open spec fn has_asset(assets: Seq<AssetModel>, path: Seq<char>) -> bool {
    exists|k: int| 0 <= k < assets.len() && (#[trigger] assets[k]).path@ == path
}

pub open spec fn achievement_valid(a: AchievementModel, pack: Seq<char>, all: Seq<AchievementModel>) -> bool {
    &&& scoped_in(a.id@, pack)
    &&& forall|j: int| 0 <= j < a.prerequisites.len() ==> has_achievement(all, (#[trigger] a.prerequisites[j])@)
}

pub open spec fn skill_valid(s: SkillModel, pack: Seq<char>, all: Seq<AchievementModel>, assets: Seq<AssetModel>) -> bool {
    &&& scoped_in(s.id@, pack)
    &&& forall|j: int| 0 <= j < s.nodes.len() ==> has_achievement(all, (#[trigger] s.nodes[j]).achievement_id@)
    &&& (s.card_image matches Some(c) ==> has_asset(assets, c@))
}

pub open spec fn pack_achievement_list(p: PackModel) -> Seq<AchievementModel> {
    match p.achievements {
        Some(s) => s,
        None => Seq::empty(),
    }
}

/// Every Achievement of the Pack is scoped to it, and its prerequisites name
/// Achievements of the Pack.
pub open spec fn achievements_valid(p: PackModel) -> bool {
    let all = pack_achievement_list(p);
    forall|k: int| 0 <= k < all.len() ==> achievement_valid(#[trigger] all[k], p.manifest.id@, all)
}

/// Every Skill of the Pack is scoped to it, its nodes name Achievements of the
/// Pack, and its card image names one of the Pack's assets.
pub open spec fn skills_valid(p: PackModel) -> bool {
    match p.skills {
        Some(skills) => forall|k: int| 0 <= k < skills.len()
            ==> skill_valid(#[trigger] skills[k], p.manifest.id@, pack_achievement_list(p), p.assets),
        None => true,
    }
}

/// Every Dimension of the Pack is scoped to it and has five level titles.
pub open spec fn dimensions_valid(p: PackModel) -> bool {
    match p.dimensions {
        Some(dims) => forall|k: int| 0 <= k < dims.len()
            ==> scoped_in((#[trigger] dims[k]).id@, p.manifest.id@) && dims[k].level_titles.len() == 5,
        None => true,
    }
}

/// The rules every stored Pack satisfies: a valid manifest; Achievements,
/// Skills and Dimensions scoped to the Pack; prerequisites and Skill nodes
/// that name Achievements of the Pack; card images that name its assets; and
/// five level titles per Dimension.
pub open spec fn pack_valid(p: PackModel) -> bool {
    &&& manifest_valid(p.manifest)
    &&& achievements_valid(p)
    &&& skills_valid(p)
    &&& dimensions_valid(p)
}

fn invalid(code: &str, path: &str, message: &str) -> (r: RepositoryError)
    ensures
        r.code == RepositoryErrorCode::ValidationFailed,
{
    let issue = ValidationIssue { code: String::from_str(code), path: String::from_str(path), message: String::from_str(message) };
    let mut issues = Vec::new();
    issues.push(issue);
    RepositoryError::validation(issues, concat3("Pack is invalid: ", message, ""))
}

fn is_snake_case_str(s: &str) -> (r: bool)
    ensures
        r == is_snake_case(s@),
{
    let n = s.unicode_len();
    if n == 0 {
        return false;
    }
    let c0 = s.get_char(0);
    if !('a' <= c0 && c0 <= 'z') {
        return false;
    }
    let mut k: usize = 0;
    while k < n
        invariant
            n == s@.len(),
            k <= n,
            forall|m: int| 0 <= m < k ==> crate::text::is_snake_char(#[trigger] s@[m]),
        decreases n - k,
    {
        let c = s.get_char(k);
        if !(('a' <= c && c <= 'z') || ('0' <= c && c <= '9') || c == '_') {
            return false;
        }
        k = k + 1;
    }
    true
}

fn scoped_in_exec(id: &str, pack: &str) -> (r: bool)
    ensures
        r == scoped_in(id@, pack@),
{
    match split_scoped_id(id) {
        Some((p, _)) => str_eq(p.as_str(), pack),
        None => false,
    }
}

fn achievement_exists(all: &Vec<AchievementDefinition>, id: &str) -> (r: bool)
    ensures
        r == has_achievement(crate::pack::achievements_model(all@), id@),
{
    let mut k: usize = 0;
    while k < all.len()
        invariant
            k <= all@.len(),
            forall|j: int| 0 <= j < k ==> (#[trigger] all@[j]).id@ != id@,
        decreases all.len() - k,
    {
        if str_eq(all[k].id.as_str(), id) {
            proof {
                assert(crate::pack::achievements_model(all@)[k as int].id@ == id@);
            }
            return true;
        }
        k = k + 1;
    }
    proof {
        assert forall|j: int| 0 <= j < all@.len() implies (#[trigger] crate::pack::achievements_model(all@)[j]).id@ != id@ by {
            assert(crate::pack::achievements_model(all@)[j] == all@[j]@);
        }
    }
    false
}

fn asset_exists(assets: &Vec<PackAsset>, path: &str) -> (r: bool)
    ensures
        r == has_asset(assets_model(assets@), path@),
{
    let mut k: usize = 0;
    while k < assets.len()
        invariant
            k <= assets@.len(),
            forall|j: int| 0 <= j < k ==> (#[trigger] assets@[j]).path@ != path@,
        decreases assets.len() - k,
    {
        if str_eq(assets[k].path.as_str(), path) {
            proof {
                assert(assets_model(assets@)[k as int].path@ == path@);
            }
            return true;
        }
        k = k + 1;
    }
    proof {
        assert forall|j: int| 0 <= j < assets@.len() implies (#[trigger] assets_model(assets@)[j]).path@ != path@ by {
            assert(assets_model(assets@)[j] == assets@[j]@);
        }
    }
    false
}

fn validate_achievement(a: &AchievementDefinition, pack: &str, all: &Vec<AchievementDefinition>) -> (r: RepositoryResult<()>)
    ensures
        r is Ok <==> achievement_valid(a@, pack@, crate::pack::achievements_model(all@)),
        r matches Err(e) ==> e.code == RepositoryErrorCode::ValidationFailed,
{
    if !scoped_in_exec(a.id.as_str(), pack) {
        return Err(invalid("achievement_outside_pack", "achievements.id", "Achievement ids must be scoped to their Pack"));
    }
    let mut q: usize = 0;
    while q < a.prerequisites.len()
        invariant
            q <= a.prerequisites@.len(),
            forall|j: int| 0 <= j < q ==> has_achievement(crate::pack::achievements_model(all@), (#[trigger] a.prerequisites@[j])@),
        decreases a.prerequisites.len() - q,
    {
        if !achievement_exists(all, a.prerequisites[q].as_str()) {
            proof { assert(a@.prerequisites[q as int] == a.prerequisites@[q as int]); }
            return Err(invalid("unknown_prerequisite", "achievements.prerequisites", "prerequisites must name Achievements of the Pack"));
        }
        q = q + 1;
    }
    Ok(())
}

fn validate_skill(s: &SkillDefinition, pack: &str, all: &Vec<AchievementDefinition>, assets: &Vec<PackAsset>) -> (r: RepositoryResult<()>)
    ensures
        r is Ok <==> skill_valid(s@, pack@, crate::pack::achievements_model(all@), assets_model(assets@)),
        r matches Err(e) ==> e.code == RepositoryErrorCode::ValidationFailed,
{
    if !scoped_in_exec(s.id.as_str(), pack) {
        return Err(invalid("skill_outside_pack", "skills.id", "Skill ids must be scoped to their Pack"));
    }
    let mut q: usize = 0;
    while q < s.nodes.len()
        invariant
            q <= s.nodes@.len(),
            forall|j: int| 0 <= j < q ==> has_achievement(crate::pack::achievements_model(all@), (#[trigger] s.nodes@[j]).achievement_id@),
        decreases s.nodes.len() - q,
    {
        if !achievement_exists(all, s.nodes[q].achievement_id.as_str()) {
            proof { assert(s@.nodes[q as int] == s.nodes@[q as int]); }
            return Err(invalid("unknown_skill_node", "skills.nodes", "Skill nodes must name Achievements of the Pack"));
        }
        q = q + 1;
    }
    match &s.card_image {
        Some(c) => {
            if !asset_exists(assets, c.as_str()) {
                return Err(invalid("missing_card_image", "skills.card_image", "card images must name an asset of the Pack"));
            }
        }
        None => {}
    }
    Ok(())
}

fn validate_manifest(m: &PackManifest) -> (r: RepositoryResult<()>)
    ensures
        r is Ok <==> manifest_valid(m@),
        r matches Err(e) ==> e.code == RepositoryErrorCode::ValidationFailed,
{
    if m.schema_version != SCHEMA_VERSION {
        return Err(invalid("unsupported_schema_version", "manifest.schema_version", "the schema version is not supported"));
    }
    if !is_snake_case_str(m.id.as_str()) {
        return Err(invalid("invalid_pack_id", "manifest.id", "must be lowercase snake_case"));
    }
    if m.name.as_str().unicode_len() == 0 {
        return Err(invalid("empty_name", "manifest.name", "must not be empty"));
    }
    match &m.parent_pack_id {
        Some(parent) => {
            if !is_snake_case_str(parent.as_str()) || str_eq(parent.as_str(), m.id.as_str()) {
                return Err(invalid("invalid_parent_pack_id", "manifest.parent_pack_id", "must be another Pack's lowercase snake_case id"));
            }
        }
        None => {}
    }
    Ok(())
}

/// `Pack::validate`: check the rules every stored Pack satisfies.
#[verifier::loop_isolation(false)]
pub fn validate_pack(p: &Pack) -> (r: RepositoryResult<()>)
    ensures
        r is Ok <==> pack_valid(p@),
        r matches Err(e) ==> e.code == RepositoryErrorCode::ValidationFailed,
{
    let m = &p.manifest;
    validate_manifest(m)?;
    let empty: Vec<AchievementDefinition> = Vec::new();
    let all: &Vec<AchievementDefinition> = match &p.achievements {
        Some(f) => &f.achievements,
        None => &empty,
    };
    let ghost allm = crate::pack::achievements_model(all@);
    proof {
        assert(allm =~= pack_achievement_list(p@));
    }
    let mut k: usize = 0;
    while k < all.len()
        invariant
            k <= all@.len(),
            allm == crate::pack::achievements_model(all@),
            allm == pack_achievement_list(p@),
            forall|j: int| 0 <= j < k ==> achievement_valid(#[trigger] allm[j], m.id@, allm),
        decreases all.len() - k,
    {
        let r = validate_achievement(&all[k], m.id.as_str(), all);
        proof { assert(allm[k as int] == all@[k as int]@); }
        if r.is_err() {
            proof { assert(!achievement_valid(pack_achievement_list(p@)[k as int], p@.manifest.id@, pack_achievement_list(p@))); }
            return r;
        }
        k = k + 1;
    }
    match &p.skills {
        Some(f) => {
            let ghost sm = crate::pack::skills_model(f.skills@);
            proof { assert(p@.skills == Some(sm)); }
            let mut k: usize = 0;
            while k < f.skills.len()
                invariant
                    k <= f.skills@.len(),
                    sm == crate::pack::skills_model(f.skills@),
                    p@.skills == Some(sm),
                    allm == crate::pack::achievements_model(all@),
                    forall|j: int| 0 <= j < k ==> skill_valid(#[trigger] sm[j], m.id@, allm, assets_model(p.assets@)),
                decreases f.skills.len() - k,
            {
                let r = validate_skill(&f.skills[k], m.id.as_str(), all, &p.assets);
                proof { assert(sm[k as int] == f.skills@[k as int]@); }
                if r.is_err() {
                    proof {
                        assert(!skill_valid(sm[k as int], p@.manifest.id@, pack_achievement_list(p@), p@.assets));
                        assert(p@.skills->0 == sm);
                        assert(!skill_valid(p@.skills->0[k as int], p@.manifest.id@, pack_achievement_list(p@), p@.assets));
                        assert(!skills_valid(p@));
                    }
                    return r;
                }
                k = k + 1;
            }
        }
        None => {}
    }
    match &p.dimensions {
        Some(f) => {
            let ghost dm = crate::pack::dimensions_model(f.dimensions@);
            proof { assert(p@.dimensions == Some(dm)); }
            let mut k: usize = 0;
            while k < f.dimensions.len()
                invariant
                    k <= f.dimensions@.len(),
                    dm == crate::pack::dimensions_model(f.dimensions@),
                    p@.dimensions == Some(dm),
                    forall|j: int| 0 <= j < k ==> scoped_in((#[trigger] dm[j]).id@, m.id@) && dm[j].level_titles.len() == 5,
                decreases f.dimensions.len() - k,
            {
                let d = &f.dimensions[k];
                proof { assert(dm[k as int] == d@); }
                if !scoped_in_exec(d.id.as_str(), m.id.as_str()) || d.level_titles.len() != 5 {
                    proof {
                        assert(!(scoped_in(dm[k as int].id@, p@.manifest.id@) && dm[k as int].level_titles.len() == 5));
                        assert(p@.dimensions->0 == dm);
                        assert(!dimensions_valid(p@));
                    }
                    return Err(invalid("invalid_dimension", "dimensions", "Dimensions must be scoped to their Pack and have five level titles"));
                }
                k = k + 1;
            }
        }
        None => {}
    }
    Ok(())
}


// ---------------------------------------------------------------------------
// Pack content
// ---------------------------------------------------------------------------

/// Structured Pack content: a Pack without its assets, whose bytes are managed
/// through `put_asset` and `delete_asset`.
#[derive(Debug, Clone, PartialEq, Eq)]
pub struct PackContent {
    pub manifest: PackManifest,
    pub record_definitions: Option<RecordDefinitionFile>,
    pub dimensions: Option<DimensionFile>,
    pub achievements: Option<AchievementFile>,
    pub skills: Option<SkillFile>,
    pub derived_values: Option<JsonValue>,
}

impl View for PackContent {
    type V = PackModel;

    /// The content seen as a Pack with no assets.
    open spec fn view(&self) -> PackModel {
        PackModel {
            manifest: self.manifest@,
            record_definitions: match self.record_definitions {
                Some(f) => Some(crate::record::definitions_model(f.definitions@)),
                None => None,
            },
            dimensions: match self.dimensions {
                Some(f) => Some(crate::pack::dimensions_model(f.dimensions@)),
                None => None,
            },
            achievements: match self.achievements {
                Some(f) => Some(crate::pack::achievements_model(f.achievements@)),
                None => None,
            },
            skills: match self.skills {
                Some(f) => Some(crate::pack::skills_model(f.skills@)),
                None => None,
            },
            derived_values: self.derived_values,
            assets: Seq::empty(),
        }
    }
}

/// The content of a Pack with the given assets.
pub open spec fn with_assets(c: PackModel, assets: Seq<AssetModel>) -> PackModel {
    PackModel { assets: assets, ..c }
}

/// A fresh manifest for a new Pack.
pub open spec fn scaffold_manifest(id: String, name: String) -> ManifestModel {
    ManifestModel {
        schema_version: SCHEMA_VERSION,
        id: id,
        name: name,
        description: None,
        author: None,
        parent_pack_id: None,
        tags: Seq::empty(),
    }
}

pub open spec fn scaffold_model(id: String, name: String) -> PackModel {
    PackModel {
        manifest: scaffold_manifest(id, name),
        record_definitions: None,
        dimensions: None,
        achievements: None,
        skills: None,
        derived_values: None,
        assets: Seq::empty(),
    }
}

impl PackContent {
    /// Empty content for a new Pack under the current schema.
    pub fn scaffold(id: String, name: String) -> (r: RepositoryResult<PackContent>)
        ensures
            pack_valid(scaffold_model(id, name)) ==> (r matches Ok(c) && c@ == scaffold_model(id, name)),
            !pack_valid(scaffold_model(id, name)) ==> (r matches Err(e) && e.code == RepositoryErrorCode::ValidationFailed),
    {
        let content = PackContent {
            manifest: PackManifest {
                schema_version: SCHEMA_VERSION,
                id,
                name,
                description: None,
                author: None,
                parent_pack_id: None,
                tags: Vec::new(),
            },
            record_definitions: None,
            dimensions: None,
            achievements: None,
            skills: None,
            derived_values: None,
        };
        let no_assets: Vec<PackAsset> = Vec::new();
        proof { assert(assets_model(no_assets@) =~= Seq::<AssetModel>::empty()); }
        let pack = content.to_pack(no_assets);
        proof {
            assert(content@ =~= scaffold_model(id, name));
            assert(pack@ =~= scaffold_model(id, name));
        }
        match validate_pack(&pack) {
            Ok(()) => Ok(content),
            Err(e) => Err(e),
        }
    }

    /// The content of a stored Pack.
    pub fn from_pack(pack: &Pack) -> (r: PackContent)
        ensures
            r@ == with_assets(pack@, Seq::empty()),
    {
        let r = PackContent {
            manifest: pack.manifest.copied(),
            record_definitions: match &pack.record_definitions {
                Some(f) => Some(RecordDefinitionFile { definitions: copy_definitions(&f.definitions) }),
                None => None,
            },
            dimensions: match &pack.dimensions {
                Some(f) => Some(DimensionFile { dimensions: copy_dimensions(&f.dimensions) }),
                None => None,
            },
            achievements: match &pack.achievements {
                Some(f) => Some(AchievementFile { achievements: copy_achievements(&f.achievements) }),
                None => None,
            },
            skills: match &pack.skills {
                Some(f) => Some(SkillFile { skills: copy_skills(&f.skills) }),
                None => None,
            },
            derived_values: copy_opt_json(&pack.derived_values),
        };
        proof { assert(r@ =~= with_assets(pack@, Seq::empty())); }
        r
    }

    /// A Pack with this content and the given assets.
    pub fn to_pack(&self, assets: Vec<PackAsset>) -> (r: Pack)
        ensures
            r@ == with_assets(self@, assets_model(assets@)),
    {
        let r = Pack {
            manifest: self.manifest.copied(),
            record_definitions: match &self.record_definitions {
                Some(f) => Some(RecordDefinitionFile { definitions: copy_definitions(&f.definitions) }),
                None => None,
            },
            dimensions: match &self.dimensions {
                Some(f) => Some(DimensionFile { dimensions: copy_dimensions(&f.dimensions) }),
                None => None,
            },
            achievements: match &self.achievements {
                Some(f) => Some(AchievementFile { achievements: copy_achievements(&f.achievements) }),
                None => None,
            },
            skills: match &self.skills {
                Some(f) => Some(SkillFile { skills: copy_skills(&f.skills) }),
                None => None,
            },
            derived_values: copy_opt_json(&self.derived_values),
            assets,
        };
        proof { assert(r@ =~= with_assets(self@, assets_model(assets@))); }
        r
    }
}


// ---------------------------------------------------------------------------
// Summaries
// ---------------------------------------------------------------------------

#[derive(Debug, Clone, PartialEq, Eq)]
pub struct PackSummary {
    pub id: String,
    pub name: String,
    pub enabled: bool,
    pub parent_pack_id: Option<String>,
    pub tags: Vec<String>,
    pub record_definition_count: usize,
    pub dimension_count: usize,
    pub achievement_count: usize,
    pub skill_count: usize,
    pub asset_count: usize,
}

#[derive(Debug, Clone, PartialEq, Eq)]
pub struct PackAssetSummary {
    pub path: String,
    pub size_bytes: usize,
}

#[derive(Debug, Clone, PartialEq, Eq)]
pub struct PackDetails {
    pub enabled: bool,
    pub content: PackContent,
    pub assets: Vec<PackAssetSummary>,
    pub missing_parent_pack_id: Option<String>,
}

#[derive(Debug, Clone, PartialEq, Eq)]
pub struct PackValidation {
    pub pack_id: String,
    pub valid: bool,
    pub enabled: bool,
    pub missing_parent_pack_id: Option<String>,
}

#[derive(Debug, Clone, PartialEq, Eq)]
pub struct PackEnabledState {
    pub pack_id: String,
    pub enabled: bool,
    pub changed: bool,
}

/// `s` summarises the Pack `p`.
pub open spec fn summary_of(s: PackSummary, p: PackModel, enabled: bool) -> bool {
    &&& s.id == p.manifest.id
    &&& s.name == p.manifest.name
    &&& s.enabled == enabled
    &&& s.parent_pack_id == p.manifest.parent_pack_id
    &&& s.tags@ == p.manifest.tags
    &&& s.record_definition_count == pack_definitions(p).len()
    &&& s.dimension_count == pack_dimensions(p).len()
    &&& s.achievement_count == pack_achievements(p).len()
    &&& s.skill_count == pack_skills(p).len()
    &&& s.asset_count == p.assets.len()
}

/// `d` details the Pack `p` among `packs`.
pub open spec fn details_of(d: PackDetails, p: PackModel, enabled: bool, packs: Seq<PackModel>) -> bool {
    &&& d.enabled == enabled
    &&& d.content@ == with_assets(p, Seq::empty())
    &&& d.assets@.len() == p.assets.len()
    &&& forall|k: int| 0 <= k < d.assets@.len() ==> (#[trigger] d.assets@[k]).path == p.assets[k].path
        && d.assets@[k].size_bytes == p.assets[k].content.len()
    &&& d.missing_parent_pack_id == missing_parent(packs, p)
}

impl PackSummary {
    pub fn from_pack(pack: &Pack, enabled: bool) -> (r: PackSummary)
        ensures
            summary_of(r, pack@, enabled),
    {
        let manifest = pack.manifest.copied();
        PackSummary {
            id: manifest.id,
            name: manifest.name,
            enabled,
            parent_pack_id: manifest.parent_pack_id,
            tags: manifest.tags,
            record_definition_count: match &pack.record_definitions {
                Some(f) => f.definitions.len(),
                None => 0,
            },
            dimension_count: match &pack.dimensions {
                Some(f) => f.dimensions.len(),
                None => 0,
            },
            achievement_count: match &pack.achievements {
                Some(f) => f.achievements.len(),
                None => 0,
            },
            skill_count: match &pack.skills {
                Some(f) => f.skills.len(),
                None => 0,
            },
            asset_count: pack.assets.len(),
        }
    }
}

impl PackDetails {
    pub fn from_pack(pack: &Pack, enabled: bool, packs: &Vec<Pack>) -> (r: PackDetails)
        ensures
            details_of(r, pack@, enabled, packs_model(packs@)),
    {
        let mut assets: Vec<PackAssetSummary> = Vec::new();
        let mut k: usize = 0;
        while k < pack.assets.len()
            invariant
                k <= pack.assets@.len(),
                assets@.len() == k,
                forall|j: int| 0 <= j < k ==> (#[trigger] assets@[j]).path == pack.assets@[j].path
                    && assets@[j].size_bytes == pack.assets@[j].content@.len(),
            decreases pack.assets.len() - k,
        {
            assets.push(PackAssetSummary { path: pack.assets[k].path.clone(), size_bytes: pack.assets[k].content.len() });
            k = k + 1;
        }
        PackDetails {
            enabled,
            content: PackContent::from_pack(pack),
            assets,
            missing_parent_pack_id: missing_parent_exec(packs, pack),
        }
    }
}

// ---------------------------------------------------------------------------
// Assets
// ---------------------------------------------------------------------------

pub open spec fn asset_is(path: Seq<char>) -> spec_fn(AssetModel) -> bool {
    |a: AssetModel| a.path@ == path
}

pub open spec fn asset_sorts_after(path: Seq<char>) -> spec_fn(AssetModel) -> bool {
    |a: AssetModel| seq_lt(path, a.path@)
}

/// The assets after storing `a`: it replaces the asset with its path, or goes
/// before the first asset whose path sorts after its own.
pub open spec fn assets_with(assets: Seq<AssetModel>, a: AssetModel) -> Seq<AssetModel> {
    match first_match(assets, asset_is(a.path@)) {
        Some(i) => assets.update(i, a),
        None => match first_match(assets, asset_sorts_after(a.path@)) {
            Some(j) => assets.insert(j, a),
            None => assets.push(a),
        },
    }
}

fn find_asset(assets: &Vec<PackAsset>, path: &str) -> (r: Option<usize>)
    ensures
        r matches Some(i) ==> first_match(assets_model(assets@), asset_is(path@)) == Some(i as int) && i < assets@.len(),
        r is None ==> first_match(assets_model(assets@), asset_is(path@)) is None,
{
    let ghost m = assets_model(assets@);
    let mut i: usize = 0;
    while i < assets.len()
        invariant
            i <= assets@.len(),
            m == assets_model(assets@),
            forall|j: int| 0 <= j < i ==> !asset_is(path@)(#[trigger] m[j]),
        decreases assets.len() - i,
    {
        proof { assert(m[i as int] == assets@[i as int]@); }
        if str_eq(assets[i].path.as_str(), path) {
            proof {
                assert(is_first_match(m, asset_is(path@), i as int));
                lemma_first_match_is(m, asset_is(path@), i as int);
            }
            return Some(i);
        }
        i = i + 1;
    }
    proof { lemma_first_match_none(m, asset_is(path@)); }
    None
}

fn find_asset_slot(assets: &Vec<PackAsset>, path: &str) -> (r: Option<usize>)
    ensures
        r matches Some(i) ==> first_match(assets_model(assets@), asset_sorts_after(path@)) == Some(i as int) && i < assets@.len(),
        r is None ==> first_match(assets_model(assets@), asset_sorts_after(path@)) is None,
{
    let ghost m = assets_model(assets@);
    let mut i: usize = 0;
    while i < assets.len()
        invariant
            i <= assets@.len(),
            m == assets_model(assets@),
            forall|j: int| 0 <= j < i ==> !asset_sorts_after(path@)(#[trigger] m[j]),
        decreases assets.len() - i,
    {
        proof { assert(m[i as int] == assets@[i as int]@); }
        if str_lt(path, assets[i].path.as_str()) {
            proof {
                assert(is_first_match(m, asset_sorts_after(path@), i as int));
                lemma_first_match_is(m, asset_sorts_after(path@), i as int);
            }
            return Some(i);
        }
        i = i + 1;
    }
    proof { lemma_first_match_none(m, asset_sorts_after(path@)); }
    None
}

// ---------------------------------------------------------------------------
// Commands
// ---------------------------------------------------------------------------

/// The assets a content write keeps: those of the installed Pack with the
/// same identifier.
pub open spec fn kept_assets(m: RepositoryModel, id: Seq<char>) -> Seq<AssetModel> {
    match m.pack(id) {
        Some(p) => p.assets,
        None => Seq::empty(),
    }
}

/// The Pack a content write stores.
pub open spec fn candidate(m: RepositoryModel, c: PackModel) -> PackModel {
    with_assets(c, kept_assets(m, c.manifest.id@))
}

pub struct PackCommands<'repository> {
    pub repository: &'repository mut Repository,
}

impl Repository {
    pub fn kept_assets_exec(&self, id: &str) -> (r: Vec<PackAsset>)
        ensures
            assets_model(r@) == kept_assets(self@, id@),
    {
        match self.find_pack(id) {
            Some(i) => {
                proof { assert(self@.packs[i as int] == self.packs@[i as int]@); }
                copy_assets(&self.packs[i].assets)
            }
            None => {
                let v: Vec<PackAsset> = Vec::new();
                proof { assert(assets_model(v@) =~= Seq::<AssetModel>::empty()); }
                v
            }
        }
    }


    /// Insert or replace structured Pack content, keeping its enabled state
    /// and every existing asset.
    pub fn pack_write(&mut self, content: PackContent) -> (r: RepositoryResult<PackDetails>)
        ensures
            put_pack_ok(old(self)@, candidate(old(self)@, content@)) ==> (r matches Ok(d)
                && details_of(d, candidate(old(self)@, content@),
                    old(self)@.is_enabled(content.manifest.id@), old(self)@.packs)
                && final(self)@ == (RepositoryModel {
                    packs: packs_with(old(self)@.packs, candidate(old(self)@, content@)),
                    ..old(self)@
                })),
            !put_pack_ok(old(self)@, candidate(old(self)@, content@)) ==> (r matches Err(e)
                && e.code == RepositoryErrorCode::ValidationFailed
                && final(self)@ == old(self)@),
    {
        let assets = self.kept_assets_exec(content.manifest.id.as_str());
        let pack = content.to_pack(assets);
        let enabled = self.is_enabled(content.manifest.id.as_str());
        let details = PackDetails::from_pack(&pack, enabled, &self.packs);
        match self.put_pack(pack) {
            Ok(()) => Ok(details),
            Err(e) => Err(e),
        }
    }

    /// Enable or disable an installed Pack, reporting whether anything changed.
    pub fn pack_set_enabled(&mut self, pack_id: &str, enabled: bool) -> (r: RepositoryResult<PackEnabledState>)
        ensures
            old(self)@.pack_index(pack_id@) is None ==> (r matches Err(e)
                && e.code == RepositoryErrorCode::NotFound
                && final(self)@ == old(self)@),
            old(self)@.pack_index(pack_id@) is Some && enabled == old(self)@.is_enabled(pack_id@)
                ==> (r matches Ok(s) && s.pack_id@ == pack_id@ && s.enabled == enabled && !s.changed
                && final(self)@ == old(self)@),
            old(self)@.pack_index(pack_id@) is Some && !enabled && old(self)@.is_enabled(pack_id@)
                ==> (r matches Ok(s) && s.pack_id@ == pack_id@ && !s.enabled && s.changed
                && final(self)@ == (RepositoryModel {
                    enabled_pack_ids: ids_without(old(self)@.enabled_pack_ids, pack_id@),
                    ..old(self)@
                })),
            old(self)@.pack_index(pack_id@) is Some && enabled && !old(self)@.is_enabled(pack_id@) ==> ({
                let p = old(self)@.packs[old(self)@.pack_index(pack_id@)->0];
                &&& enable_conflict(old(self)@, p) ==> (r matches Err(e)
                    && e.code == RepositoryErrorCode::ValidationFailed
                    && final(self)@ == old(self)@)
                &&& !enable_conflict(old(self)@, p) ==> (r matches Ok(s)
                    && s.pack_id@ == pack_id@ && s.enabled && s.changed
                    && final(self)@ == (RepositoryModel {
                        enabled_pack_ids: ids_with(old(self)@.enabled_pack_ids, pack_id@),
                        ..old(self)@
                    }))
            }),
    {
        if self.find_pack(pack_id).is_none() {
            return Err(pack_not_found(pack_id));
        }
        let currently = self.is_enabled(pack_id);
        if currently == enabled {
            return Ok(PackEnabledState { pack_id: pack_id.to_string(), enabled, changed: false });
        }
        match self.set_pack_enabled(pack_id, enabled) {
            Ok(()) => Ok(PackEnabledState { pack_id: pack_id.to_string(), enabled, changed: true }),
            Err(e) => Err(e),
        }
    }
}

impl<'repository> PackCommands<'repository> {
    pub fn new(repository: &'repository mut Repository) -> (r: Self)
        ensures
            r.repository@ == old(repository)@,
    {
        PackCommands { repository }
    }

    /// Every installed Pack, in identifier order, with its enabled state.
    pub fn list(&self) -> (r: RepositoryResult<Vec<PackSummary>>)
        ensures
            r matches Ok(v) && v@.len() == old(self.repository)@.packs.len()
                && forall|k: int| 0 <= k < v@.len() ==> summary_of(#[trigger] v@[k], old(self.repository)@.packs[k],
                    old(self.repository)@.is_enabled(old(self.repository)@.packs[k].manifest.id@)),
    {
        let ghost m = self.repository@;
        let mut out: Vec<PackSummary> = Vec::new();
        let mut k: usize = 0;
        while k < self.repository.packs.len()
            invariant
                k <= self.repository.packs@.len(),
                m == self.repository@,
                out@.len() == k,
                forall|j: int| 0 <= j < k ==> summary_of(#[trigger] out@[j], m.packs[j], m.is_enabled(m.packs[j].manifest.id@)),
            decreases self.repository.packs.len() - k,
        {
            let pack = &self.repository.packs[k];
            proof { assert(m.packs[k as int] == pack@); }
            let enabled = self.repository.is_enabled(pack.manifest.id.as_str());
            out.push(PackSummary::from_pack(pack, enabled));
            k = k + 1;
        }
        Ok(out)
    }

    /// One installed Pack with its content, assets and enabled state.
    pub fn show(&self, pack_id: &str) -> (r: RepositoryResult<PackDetails>)
        ensures
            match old(self.repository)@.pack_index(pack_id@) {
                Some(i) => r matches Ok(d) && details_of(d, old(self.repository)@.packs[i],
                    old(self.repository)@.is_enabled(pack_id@), old(self.repository)@.packs),
                None => r matches Err(e) && e.code == RepositoryErrorCode::NotFound,
            },
    {
        match self.repository.find_pack(pack_id) {
            Some(i) => {
                let pack = &self.repository.packs[i];
                proof { assert(self.repository@.packs[i as int] == pack@); }
                let enabled = self.repository.is_enabled(pack_id);
                Ok(PackDetails::from_pack(pack, enabled, &self.repository.packs))
            }
            None => Err(pack_not_found(pack_id)),
        }
    }

    /// Check content exactly as `write` would, keeping the current assets,
    /// without changing anything.
    pub fn validate(&self, content: PackContent) -> (r: RepositoryResult<PackValidation>)
        ensures
            put_pack_ok(old(self.repository)@, candidate(old(self.repository)@, content@)) ==> (r matches Ok(v)
                && v.pack_id == content.manifest.id
                && v.valid
                && v.enabled == old(self.repository)@.is_enabled(content.manifest.id@)
                && v.missing_parent_pack_id == missing_parent(
                    packs_with(old(self.repository)@.packs, candidate(old(self.repository)@, content@)),
                    candidate(old(self.repository)@, content@))),
            !put_pack_ok(old(self.repository)@, candidate(old(self.repository)@, content@)) ==> (r matches Err(e)
                && e.code == RepositoryErrorCode::ValidationFailed),
    {
        let assets = self.repository.kept_assets_exec(content.manifest.id.as_str());
        let pack = content.to_pack(assets);
        validate_pack(&pack)?;
        let trial = packs_with_exec(&self.repository.packs, &pack);
        if !forest_check(&trial) {
            return Err(cycle_error());
        }
        let enabled = self.repository.is_enabled(content.manifest.id.as_str());
        Ok(PackValidation {
            pack_id: content.manifest.id.clone(),
            valid: true,
            enabled,
            missing_parent_pack_id: missing_parent_exec(&trial, &pack),
        })
    }

    /// Insert or replace structured Pack content, keeping its enabled state
    /// and every existing asset.
    pub fn write(&mut self, content: PackContent) -> (r: RepositoryResult<PackDetails>)
        ensures
            put_pack_ok(old(self).repository@, candidate(old(self).repository@, content@)) ==> (r matches Ok(d)
                && details_of(d, candidate(old(self).repository@, content@),
                    old(self).repository@.is_enabled(content.manifest.id@), old(self).repository@.packs)
                && final(self).repository@ == (RepositoryModel {
                    packs: packs_with(old(self).repository@.packs, candidate(old(self).repository@, content@)),
                    ..old(self).repository@
                })),
            !put_pack_ok(old(self).repository@, candidate(old(self).repository@, content@)) ==> (r matches Err(e)
                && e.code == RepositoryErrorCode::ValidationFailed
                && final(self).repository@ == old(self).repository@),
    {
        self.repository.pack_write(content)
    }

    /// Store an asset's bytes under a path of an installed Pack.
    pub fn put_asset(&mut self, pack_id: &str, asset_path: String, content: Vec<u8>) -> (r: RepositoryResult<PackAssetSummary>)
        ensures
            match old(self).repository@.pack_index(pack_id@) {
                None => r matches Err(e) && e.code == RepositoryErrorCode::NotFound
                    && final(self).repository@ == old(self).repository@,
                Some(i) => {
                    let p = old(self).repository@.packs[i];
                    let np = PackModel {
                        assets: assets_with(p.assets, AssetModel { path: asset_path, content: content@ }),
                        ..p
                    };
                    &&& put_pack_ok(old(self).repository@, np) ==> (r matches Ok(s)
                        && s.path == asset_path && s.size_bytes == content@.len()
                        && final(self).repository@ == (RepositoryModel {
                            packs: packs_with(old(self).repository@.packs, np),
                            ..old(self).repository@
                        }))
                    &&& !put_pack_ok(old(self).repository@, np) ==> (r matches Err(e)
                        && e.code == RepositoryErrorCode::ValidationFailed
                        && final(self).repository@ == old(self).repository@)
                },
            },
    {
        let i = match self.repository.find_pack(pack_id) {
            Some(i) => i,
            None => return Err(pack_not_found(pack_id)),
        };
        let mut pack = self.repository.packs[i].copied();
        proof { assert(self.repository@.packs[i as int] == pack@); }
        let ghost old_assets = assets_model(pack.assets@);
        let summary = PackAssetSummary { path: asset_path.clone(), size_bytes: content.len() };
        let asset = PackAsset { path: asset_path, content };
        let ghost a = asset@;
        match find_asset(&pack.assets, asset.path.as_str()) {
            Some(j) => {
                pack.assets.set(j, asset);
            }
            None => match find_asset_slot(&pack.assets, asset.path.as_str()) {
                Some(j) => {
                    pack.assets.insert(j, asset);
                }
                None => {
                    pack.assets.push(asset);
                }
            },
        }
        proof { assert(assets_model(pack.assets@) =~= assets_with(old_assets, a)); }
        match self.repository.put_pack(pack) {
            Ok(()) => Ok(summary),
            Err(e) => Err(e),
        }
    }

    /// Remove an asset of an installed Pack.  The Pack must still satisfy the
    /// Pack rules without it.
    pub fn delete_asset(&mut self, pack_id: &str, asset_path: &str) -> (r: RepositoryResult<()>)
        ensures
            match old(self).repository@.pack_index(pack_id@) {
                None => r matches Err(e) && e.code == RepositoryErrorCode::NotFound
                    && final(self).repository@ == old(self).repository@,
                Some(i) => match first_match(old(self).repository@.packs[i].assets, asset_is(asset_path@)) {
                    None => r matches Err(e) && e.code == RepositoryErrorCode::NotFound
                        && final(self).repository@ == old(self).repository@,
                    Some(j) => {
                        let p = old(self).repository@.packs[i];
                        let np = PackModel { assets: p.assets.remove(j), ..p };
                        &&& put_pack_ok(old(self).repository@, np) ==> (r is Ok
                            && final(self).repository@ == (RepositoryModel {
                                packs: packs_with(old(self).repository@.packs, np),
                                ..old(self).repository@
                            }))
                        &&& !put_pack_ok(old(self).repository@, np) ==> (r matches Err(e)
                            && e.code == RepositoryErrorCode::ValidationFailed
                            && final(self).repository@ == old(self).repository@)
                    },
                },
            },
    {
        let i = match self.repository.find_pack(pack_id) {
            Some(i) => i,
            None => return Err(pack_not_found(pack_id)),
        };
        let mut pack = self.repository.packs[i].copied();
        proof { assert(self.repository@.packs[i as int] == pack@); }
        let ghost old_assets = assets_model(pack.assets@);
        let j = match find_asset(&pack.assets, asset_path) {
            Some(j) => j,
            None => {
                return Err(RepositoryError::new(
                    RepositoryErrorCode::NotFound,
                    crate::text::concat5("Pack asset '", pack_id, "/", asset_path, "' was not found"),
                ));
            }
        };
        let _ = pack.assets.remove(j);
        proof { assert(assets_model(pack.assets@) =~= old_assets.remove(j as int)); }
        self.repository.put_pack(pack)
    }

    /// Enable or disable an installed Pack, reporting whether anything changed.
    pub fn set_enabled(&mut self, pack_id: &str, enabled: bool) -> (r: RepositoryResult<PackEnabledState>)
        ensures
            old(self).repository@.pack_index(pack_id@) is None ==> (r matches Err(e)
                && e.code == RepositoryErrorCode::NotFound
                && final(self).repository@ == old(self).repository@),
            old(self).repository@.pack_index(pack_id@) is Some && enabled == old(self).repository@.is_enabled(pack_id@)
                ==> (r matches Ok(s) && s.pack_id@ == pack_id@ && s.enabled == enabled && !s.changed
                && final(self).repository@ == old(self).repository@),
            old(self).repository@.pack_index(pack_id@) is Some && !enabled && old(self).repository@.is_enabled(pack_id@)
                ==> (r matches Ok(s) && s.pack_id@ == pack_id@ && !s.enabled && s.changed
                && final(self).repository@ == (RepositoryModel {
                    enabled_pack_ids: ids_without(old(self).repository@.enabled_pack_ids, pack_id@),
                    ..old(self).repository@
                })),
            old(self).repository@.pack_index(pack_id@) is Some && enabled && !old(self).repository@.is_enabled(pack_id@) ==> ({
                let p = old(self).repository@.packs[old(self).repository@.pack_index(pack_id@)->0];
                &&& enable_conflict(old(self).repository@, p) ==> (r matches Err(e)
                    && e.code == RepositoryErrorCode::ValidationFailed
                    && final(self).repository@ == old(self).repository@)
                &&& !enable_conflict(old(self).repository@, p) ==> (r matches Ok(s)
                    && s.pack_id@ == pack_id@ && s.enabled && s.changed
                    && final(self).repository@ == (RepositoryModel {
                        enabled_pack_ids: ids_with(old(self).repository@.enabled_pack_ids, pack_id@),
                        ..old(self).repository@
                    }))
            }),
    {
        self.repository.pack_set_enabled(pack_id, enabled)
    }
}

pub open spec fn pack_missing_message(pack_id: Seq<char>) -> Seq<char> {
    "Pack '"@ + pack_id + "' was not found"@
}

/// The error for a Pack that is not installed.
pub fn pack_not_found(pack_id: &str) -> (r: RepositoryError)
    ensures
        r.code == RepositoryErrorCode::NotFound,
        r.message@ == pack_missing_message(pack_id@),
{
    let message = concat3("Pack '", pack_id, "' was not found");
    proof {
        reveal_strlit("Pack '");
        reveal_strlit("' was not found");
    }
    RepositoryError::new(RepositoryErrorCode::NotFound, message)
}

} // verus!
