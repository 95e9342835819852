//! Packs: hierarchical domain content supplying Record definitions,
//! Dimensions, Achievements, Skills and assets.
use vstd::prelude::*;
use crate::record::{RecordDefinition, RecordDefinitionModel, copy_opt_string, copy_definitions, copy_values, definitions_model};
use crate::json::JsonValue;

verus! {

/// The schema version of the repository and of the Packs this library
/// writes and accepts.
pub const SCHEMA_VERSION: u32 = 1;

#[derive(Debug, Clone, PartialEq, Eq)]
pub struct PackManifest {
    pub schema_version: u32,
    pub id: String,
    pub name: String,
    pub description: Option<String>,
    pub author: Option<String>,
    pub parent_pack_id: Option<String>,
    pub tags: Vec<String>,
}

#[derive(Debug, Clone, Copy, PartialEq, Eq, Structural)]
pub enum AchievementDifficulty {
    Beginner,
    Intermediate,
    Advanced,
    Expert,
}

#[derive(Debug, Clone, PartialEq, Eq)]
pub struct AchievementDefinition {
    pub id: String,
    pub name: String,
    pub description: String,
    pub difficulty: AchievementDifficulty,
    pub tags: Vec<String>,
    pub prerequisites: Vec<String>,
    pub related_record_definition_ids: Vec<String>,
    pub tip: Option<String>,
}

#[derive(Debug, Clone, PartialEq, Eq)]
pub struct SkillNode {
    pub achievement_id: String,
    pub points: u64,
}

#[derive(Debug, Clone, PartialEq, Eq)]
pub struct SkillDefinition {
    pub id: String,
    pub name: String,
    pub description: Option<String>,
    pub level_thresholds: [u64; 4],
    pub nodes: Vec<SkillNode>,
    pub card_image: Option<String>,
}

/// A Status Dimension.  The selection and listing rules read its identifier,
/// name and level titles; its scoring configuration is kept as written, each
/// field by name as JSON, and is evaluated outside the library.
#[derive(Debug, Clone, PartialEq, Eq)]
pub struct DimensionDefinition {
    pub id: String,
    pub name: String,
    pub level_titles: Vec<String>,
    pub scoring: Vec<(String, JsonValue)>,
}

#[derive(Debug, Clone, PartialEq, Eq)]
pub struct RecordDefinitionFile {
    pub definitions: Vec<RecordDefinition>,
}

#[derive(Debug, Clone, PartialEq, Eq)]
pub struct DimensionFile {
    pub dimensions: Vec<DimensionDefinition>,
}

#[derive(Debug, Clone, PartialEq, Eq)]
pub struct AchievementFile {
    pub achievements: Vec<AchievementDefinition>,
}

#[derive(Debug, Clone, PartialEq, Eq)]
pub struct SkillFile {
    pub skills: Vec<SkillDefinition>,
}

#[derive(Debug, Clone, PartialEq, Eq)]
pub struct Pack {
    pub manifest: PackManifest,
    pub record_definitions: Option<RecordDefinitionFile>,
    pub dimensions: Option<DimensionFile>,
    pub achievements: Option<AchievementFile>,
    pub skills: Option<SkillFile>,
    /// The derived-value definitions as written, in JSON; their formulas are
    /// evaluated outside the library.
    pub derived_values: Option<JsonValue>,
    /// Asset files by portable path, ordered by path.
    pub assets: Vec<PackAsset>,
}

/// One asset file of a Pack.
#[derive(Debug, Clone, PartialEq, Eq)]
pub struct PackAsset {
    pub path: String,
    pub content: Vec<u8>,
}

pub struct AssetModel {
    pub path: String,
    pub content: Seq<u8>,
}

impl View for PackAsset {
    type V = AssetModel;

    open spec fn view(&self) -> AssetModel {
        AssetModel { path: self.path, content: self.content@ }
    }
}

pub open spec fn assets_model(v: Seq<PackAsset>) -> Seq<AssetModel> {
    v.map_values(|a: PackAsset| a@)
}

impl PackAsset {
    pub fn copied(&self) -> (r: Self)
        ensures
            r@ == self@,
    {
        let content = self.content.clone();
        assert(content@ =~= self.content@);
        PackAsset { path: self.path.clone(), content }
    }
}

pub fn copy_assets(v: &Vec<PackAsset>) -> (r: Vec<PackAsset>)
    ensures
        assets_model(r@) == assets_model(v@),
{
    let mut out: Vec<PackAsset> = Vec::new();
    let mut i: usize = 0;
    while i < v.len()
        invariant
            i <= v.len(),
            out@.len() == i,
            forall|k: int| 0 <= k < i ==> out@[k]@ == v@[k]@,
        decreases v.len() - i,
    {
        out.push(v[i].copied());
        i = i + 1;
    }
    assert(assets_model(out@) =~= assets_model(v@));
    out
}

// ---------------------------------------------------------------------------
// Models
// ---------------------------------------------------------------------------

pub struct ManifestModel {
    pub schema_version: u32,
    pub id: String,
    pub name: String,
    pub description: Option<String>,
    pub author: Option<String>,
    pub parent_pack_id: Option<String>,
    pub tags: Seq<String>,
}

pub struct AchievementModel {
    pub id: String,
    pub name: String,
    pub description: String,
    pub difficulty: AchievementDifficulty,
    pub tags: Seq<String>,
    pub prerequisites: Seq<String>,
    pub related_record_definition_ids: Seq<String>,
    pub tip: Option<String>,
}

pub struct SkillModel {
    pub id: String,
    pub name: String,
    pub description: Option<String>,
    pub level_thresholds: [u64; 4],
    pub nodes: Seq<SkillNode>,
    pub card_image: Option<String>,
}

pub struct DimensionModel {
    pub id: String,
    pub name: String,
    pub level_titles: Seq<String>,
    pub scoring: Seq<(String, JsonValue)>,
}

pub struct PackModel {
    pub manifest: ManifestModel,
    pub record_definitions: Option<Seq<RecordDefinitionModel>>,
    pub dimensions: Option<Seq<DimensionModel>>,
    pub achievements: Option<Seq<AchievementModel>>,
    pub skills: Option<Seq<SkillModel>>,
    pub derived_values: Option<JsonValue>,
    pub assets: Seq<AssetModel>,
}

impl View for PackManifest {
    type V = ManifestModel;

    open spec fn view(&self) -> ManifestModel {
        ManifestModel {
            schema_version: self.schema_version,
            id: self.id,
            name: self.name,
            description: self.description,
            author: self.author,
            parent_pack_id: self.parent_pack_id,
            tags: self.tags@,
        }
    }
}

impl View for AchievementDefinition {
    type V = AchievementModel;

    open spec fn view(&self) -> AchievementModel {
        AchievementModel {
            id: self.id,
            name: self.name,
            description: self.description,
            difficulty: self.difficulty,
            tags: self.tags@,
            prerequisites: self.prerequisites@,
            related_record_definition_ids: self.related_record_definition_ids@,
            tip: self.tip,
        }
    }
}

impl View for SkillDefinition {
    type V = SkillModel;

    open spec fn view(&self) -> SkillModel {
        SkillModel {
            id: self.id,
            name: self.name,
            description: self.description,
            level_thresholds: self.level_thresholds,
            nodes: self.nodes@,
            card_image: self.card_image,
        }
    }
}

impl View for DimensionDefinition {
    type V = DimensionModel;

    open spec fn view(&self) -> DimensionModel {
        DimensionModel { id: self.id, name: self.name, level_titles: self.level_titles@, scoring: self.scoring@ }
    }
}

pub open spec fn achievements_model(v: Seq<AchievementDefinition>) -> Seq<AchievementModel> {
    v.map_values(|a: AchievementDefinition| a@)
}

pub open spec fn skills_model(v: Seq<SkillDefinition>) -> Seq<SkillModel> {
    v.map_values(|a: SkillDefinition| a@)
}

pub open spec fn dimensions_model(v: Seq<DimensionDefinition>) -> Seq<DimensionModel> {
    v.map_values(|a: DimensionDefinition| a@)
}

impl View for Pack {
    type V = PackModel;

    open spec fn view(&self) -> PackModel {
        PackModel {
            manifest: self.manifest@,
            record_definitions: match self.record_definitions {
                Some(f) => Some(definitions_model(f.definitions@)),
                None => None,
            },
            dimensions: match self.dimensions {
                Some(f) => Some(dimensions_model(f.dimensions@)),
                None => None,
            },
            achievements: match self.achievements {
                Some(f) => Some(achievements_model(f.achievements@)),
                None => None,
            },
            skills: match self.skills {
                Some(f) => Some(skills_model(f.skills@)),
                None => None,
            },
            derived_values: self.derived_values,
            assets: assets_model(self.assets@),
        }
    }
}

// ---------------------------------------------------------------------------
// Copies
// ---------------------------------------------------------------------------

pub fn copy_strings(v: &Vec<String>) -> (r: Vec<String>)
    ensures
        r@ == v@,
{
    let r = v.clone();
    assert(r@ =~= v@);
    r
}

impl PackManifest {
    pub fn copied(&self) -> (r: Self)
        ensures
            r@ == self@,
    {
        PackManifest {
            schema_version: self.schema_version,
            id: self.id.clone(),
            name: self.name.clone(),
            description: copy_opt_string(&self.description),
            author: copy_opt_string(&self.author),
            parent_pack_id: copy_opt_string(&self.parent_pack_id),
            tags: copy_strings(&self.tags),
        }
    }
}

impl AchievementDefinition {
    pub fn copied(&self) -> (r: Self)
        ensures
            r@ == self@,
    {
        AchievementDefinition {
            id: self.id.clone(),
            name: self.name.clone(),
            description: self.description.clone(),
            difficulty: self.difficulty,
            tags: copy_strings(&self.tags),
            prerequisites: copy_strings(&self.prerequisites),
            related_record_definition_ids: copy_strings(&self.related_record_definition_ids),
            tip: copy_opt_string(&self.tip),
        }
    }
}

impl SkillNode {
    pub fn copied(&self) -> (r: Self)
        ensures
            r == *self,
    {
        SkillNode { achievement_id: self.achievement_id.clone(), points: self.points }
    }
}

pub fn copy_nodes(v: &Vec<SkillNode>) -> (r: Vec<SkillNode>)
    ensures
        r@ == v@,
{
    let mut out: Vec<SkillNode> = Vec::new();
    let mut i: usize = 0;
    while i < v.len()
        invariant
            i <= v.len(),
            out@.len() == i,
            forall|k: int| 0 <= k < i ==> out@[k] == v@[k],
        decreases v.len() - i,
    {
        out.push(v[i].copied());
        i = i + 1;
    }
    assert(out@ =~= v@);
    out
}

impl SkillDefinition {
    pub fn copied(&self) -> (r: Self)
        ensures
            r@ == self@,
    {
        SkillDefinition {
            id: self.id.clone(),
            name: self.name.clone(),
            description: copy_opt_string(&self.description),
            level_thresholds: self.level_thresholds,
            nodes: copy_nodes(&self.nodes),
            card_image: copy_opt_string(&self.card_image),
        }
    }
}

impl DimensionDefinition {
    pub fn copied(&self) -> (r: Self)
        ensures
            r@ == self@,
    {
        DimensionDefinition {
            id: self.id.clone(),
            name: self.name.clone(),
            level_titles: copy_strings(&self.level_titles),
            scoring: copy_values(&self.scoring),
        }
    }
}

pub fn copy_achievements(v: &Vec<AchievementDefinition>) -> (r: Vec<AchievementDefinition>)
    ensures
        achievements_model(r@) == achievements_model(v@),
{
    let mut out: Vec<AchievementDefinition> = Vec::new();
    let mut i: usize = 0;
    while i < v.len()
        invariant
            i <= v.len(),
            out@.len() == i,
            forall|k: int| 0 <= k < i ==> out@[k]@ == v@[k]@,
        decreases v.len() - i,
    {
        out.push(v[i].copied());
        i = i + 1;
    }
    assert(achievements_model(out@) =~= achievements_model(v@));
    out
}

pub fn copy_skills(v: &Vec<SkillDefinition>) -> (r: Vec<SkillDefinition>)
    ensures
        skills_model(r@) == skills_model(v@),
{
    let mut out: Vec<SkillDefinition> = Vec::new();
    let mut i: usize = 0;
    while i < v.len()
        invariant
            i <= v.len(),
            out@.len() == i,
            forall|k: int| 0 <= k < i ==> out@[k]@ == v@[k]@,
        decreases v.len() - i,
    {
        out.push(v[i].copied());
        i = i + 1;
    }
    assert(skills_model(out@) =~= skills_model(v@));
    out
}

/// A copy of an optional JSON value.
pub fn copy_opt_json(v: &Option<JsonValue>) -> (r: Option<JsonValue>)
    ensures
        r == *v,
{
    match v {
        Some(x) => Some(x.copied()),
        None => None,
    }
}

pub fn copy_dimensions(v: &Vec<DimensionDefinition>) -> (r: Vec<DimensionDefinition>)
    ensures
        dimensions_model(r@) == dimensions_model(v@),
{
    let mut out: Vec<DimensionDefinition> = Vec::new();
    let mut i: usize = 0;
    while i < v.len()
        invariant
            i <= v.len(),
            out@.len() == i,
            forall|k: int| 0 <= k < i ==> out@[k]@ == v@[k]@,
        decreases v.len() - i,
    {
        out.push(v[i].copied());
        i = i + 1;
    }
    assert(dimensions_model(out@) =~= dimensions_model(v@));
    out
}

impl Pack {
    pub fn copied(&self) -> (r: Self)
        ensures
            r@ == self@,
    {
        Pack {
            manifest: self.manifest.copied(),
            record_definitions: match &self.record_definitions {
                Some(f) => Some(RecordDefinitionFile { definitions: copy_definitions(&f.definitions) }),
                None => None,
            },
            dimensions: match &self.dimensions {
                Some(f) => Some(DimensionFile { dimensions: copy_dimensions(&f.dimensions) }),
                None => None,
            },
            achievements: match &self.achievements {
                Some(f) => Some(AchievementFile { achievements: copy_achievements(&f.achievements) }),
                None => None,
            },
            skills: match &self.skills {
                Some(f) => Some(SkillFile { skills: copy_skills(&f.skills) }),
                None => None,
            },
            derived_values: copy_opt_json(&self.derived_values),
            assets: copy_assets(&self.assets),
        }
    }
}

} // verus!
