//! Markdown notes of the item and recipe collections: the front matter is
//! read as YAML, and the note's own fields, its embedded image and its other
//! keys are taken from it.  Prices and the statistics built on them are
//! floating point and are left to the caller.
use vstd::prelude::*;
use crate::frontmatter::{
    embedded_image_name, extract_frontmatter, frontmatter_spec, is_item_key, is_recipe_key,
    item_keys, key_position, key_position_exec, note_string, note_string_list, note_text,
    note_texts, recipe_keys, regex_first_group, string_texts, NoteScalar, NoteValue,
    IMAGE_EMBED_PATTERN,
};
use crate::text::{concat3, str_eq};
use vstd::string::*;
use serde_yaml::{from_str, Value};
use std::collections::BTreeMap;
use serde_yaml::Value::{Number, Sequence, String as Str};
use serde_json::to_string;

verus! {

/// The entries of a front matter, each key by its text.
pub open spec fn fields_view(v: Seq<(String, NoteValue)>) -> Seq<(Seq<char>, NoteValue)> {
    v.map_values(|e: (String, NoteValue)| (e.0@, e.1))
}

/// What `serde_yaml` reads from a front matter as a mapping from text keys,
/// with each value shown as a `NoteValue`, entries in key order: `None`
/// where the text is no such mapping.
pub uninterp spec fn yaml_mapping(text: Seq<char>) -> Option<Seq<(Seq<char>, NoteValue)>>;

/// Read a front matter as a YAML mapping with `serde_yaml::from_str` into a
/// `BTreeMap<String, serde_yaml::Value>`, entries in key order.  Any scalar
/// key is read as its text, and a repeated key keeps its last value.  Each
/// value becomes text, a number by its `Display` text, a list of such
/// scalars, or else its JSON text from `serde_json::to_string`.  The
/// contract names the result, which depends on the text alone; the name
/// stands for the whole of this reading, the parse and the showing of each
/// value.
#[verifier::external_body]
pub fn frontmatter_fields(text: &str) -> (r: Option<Vec<(String, NoteValue)>>)
    ensures
        match yaml_mapping(text@) {
            Some(fs) => r matches Some(v) && fields_view(v@) == fs,
            None => r is None,
        },
{
    let scalar = |v: &Value| match v {
        Str(s) => NoteScalar::Text(s.clone()),
        Number(n) => NoteScalar::Number(n.to_string()),
        _ => NoteScalar::Other(to_string(v).unwrap_or_default())
    };
    let value = |v: &Value| match v {
        Str(s) => NoteValue::Text(s.clone()),
        Number(n) => NoteValue::Number(n.to_string()),
        Sequence(l) => NoteValue::List(l.iter().map(scalar).collect()),
        _ => NoteValue::Other(to_string(v).unwrap_or_default())
    };
    Some(from_str::<BTreeMap<String, Value>>(text).ok()?.iter().map(|(k, v)| (k.clone(), value(v))).collect())
}

/// The position of the first entry with key `key`.
pub open spec fn position(fs: Seq<(Seq<char>, NoteValue)>, key: Seq<char>) -> Option<int>
    decreases fs.len(),
{
    if fs.len() == 0 {
        None
    } else {
        match position(fs.drop_last(), key) {
            Some(i) => Some(i),
            None => if fs.last().0 == key { Some(fs.len() - 1) } else { None },
        }
    }
}

/// The position of a field that has a Chinese and an English key: the
/// Chinese key's entry where there is one, else the English key's.
pub open spec fn pair_position(fs: Seq<(Seq<char>, NoteValue)>, zh: Seq<char>, en: Seq<char>) -> Option<int> {
    match position(fs, zh) {
        Some(i) => Some(i),
        None => position(fs, en),
    }
}

/// The text of the field at a position.
pub open spec fn text_at(fs: Seq<(Seq<char>, NoteValue)>, p: Option<int>) -> Option<Seq<char>> {
    match p {
        Some(i) => note_text(fs[i].1),
        None => None,
    }
}

/// The texts the field at a position lists.
pub open spec fn texts_at(fs: Seq<(Seq<char>, NoteValue)>, p: Option<int>) -> Seq<Seq<char>> {
    match p {
        Some(i) => note_texts(fs[i].1),
        None => Seq::empty(),
    }
}

/// The entries, in order, whose keys are not the note's own fields.
pub open spec fn extras(fs: Seq<(Seq<char>, NoteValue)>, recipe: bool) -> Seq<(Seq<char>, NoteValue)>
    decreases fs.len(),
{
    if fs.len() == 0 {
        Seq::empty()
    } else {
        let known = if recipe { recipe_keys().contains(fs.last().0) } else { item_keys().contains(fs.last().0) };
        extras(fs.drop_last(), recipe) + if known { Seq::empty() } else { seq![fs.last()] }
    }
}

pub open spec fn opt_text(o: Option<String>) -> Option<Seq<char>> {
    match o {
        Some(s) => Some(s@),
        None => None,
    }
}

proof fn lemma_position(v: Seq<(String, NoteValue)>, key: Seq<char>)
    ensures
        position(fields_view(v), key) == key_position(v, key),
        key_position(v, key) matches Some(i) ==> 0 <= i < v.len() && v[i].0@ == key,
    decreases v.len(),
{
    if v.len() > 0 {
        assert(fields_view(v).drop_last() =~= fields_view(v.drop_last()));
        lemma_position(v.drop_last(), key);
    }
}

/// The text of the field at a position.
fn text_field(fields: &Vec<(String, NoteValue)>, p: Option<usize>) -> (r: Option<String>)
    requires
        p matches Some(i) ==> i < fields@.len(),
    ensures
        opt_text(r) == text_at(fields_view(fields@), match p { Some(i) => Some(i as int), None => None }),
{
    match p {
        Some(i) => {
            let r = note_string(&fields[i].1);
            proof { assert(fields_view(fields@)[i as int].1 == fields@[i as int].1); }
            r
        },
        None => None,
    }
}

/// The texts the field at a position lists.
fn texts_field(fields: &Vec<(String, NoteValue)>, p: Option<usize>) -> (r: Vec<String>)
    requires
        p matches Some(i) ==> i < fields@.len(),
    ensures
        string_texts(r@) == texts_at(fields_view(fields@), match p { Some(i) => Some(i as int), None => None }),
{
    match p {
        Some(i) => {
            let r = note_string_list(&fields[i].1);
            proof { assert(fields_view(fields@)[i as int].1 == fields@[i as int].1); }
            r
        },
        None => {
            let r: Vec<String> = Vec::new();
            proof { assert(string_texts(r@) =~= Seq::<Seq<char>>::empty()); }
            r
        },
    }
}

/// The position of a key, as `position` gives it.
fn find_key(fields: &Vec<(String, NoteValue)>, key: &str) -> (r: Option<usize>)
    ensures
        match r {
            Some(j) => j < fields@.len() && position(fields_view(fields@), key@) == Some(j as int)
                && fields@[j as int].0@ == key@,
            None => position(fields_view(fields@), key@) is None,
        },
{
    let n = fields.len();
    proof { lemma_position(fields@, key@); }
    let r = key_position_exec(fields, key);
    proof {
        if r is Some {
            let i = key_position(fields@, key@)->0;
            assert(0 <= i < n);
            assert(r->0 as int == i);
        }
    }
    r
}

/// The position of a field with a Chinese and an English key.
fn find_pair(fields: &Vec<(String, NoteValue)>, zh: &str, en: &str) -> (r: Option<usize>)
    ensures
        match r {
            Some(j) => j < fields@.len() && pair_position(fields_view(fields@), zh@, en@) == Some(j as int),
            None => pair_position(fields_view(fields@), zh@, en@) is None,
        },
{
    match find_key(fields, zh) {
        Some(i) => Some(i),
        None => find_key(fields, en),
    }
}

/// Take the entries apart: the value at the picked position, and the
/// entries whose keys are not the note's own fields.
fn split_fields(fields: Vec<(String, NoteValue)>, pick: Option<usize>, recipe: bool) -> (r: (Option<NoteValue>, Vec<(String, NoteValue)>))
    requires
        pick matches Some(p) ==> p < fields@.len() && item_keys().contains(fields@[p as int].0@) && !recipe,
    ensures
        r.0 == (match pick {
            Some(p) => Some(fields@[p as int].1),
            None => None::<NoteValue>,
        }),
        fields_view(r.1@) == extras(fields_view(fields@), recipe),
{
    let ghost orig = fields@;
    let ghost fv = fields_view(fields@);
    assert(orig.len() == fields.len());
    let mut rest = fields;
    let mut picked: Option<NoteValue> = None;
    let mut extra: Vec<(String, NoteValue)> = Vec::new();
    let mut k: usize = 0;
    proof {
        assert(orig.skip(0) =~= orig);
        assert(fv.take(0) =~= Seq::<(Seq<char>, NoteValue)>::empty());
    }
    while rest.len() > 0
        invariant
            k <= orig.len() <= usize::MAX,
            rest@ == orig.skip(k as int),
            fv == fields_view(orig),
            pick matches Some(p) ==> p < orig.len() && item_keys().contains(orig[p as int].0@) && !recipe,
            picked == (match pick {
                Some(p) => if p < k { Some(orig[p as int].1) } else { None::<NoteValue> },
                None => None::<NoteValue>,
            }),
            fields_view(extra@) == extras(fv.take(k as int), recipe),
        decreases rest.len(),
    {
        let ghost before = extra@;
        let entry = rest.remove(0);
        proof {
            assert(entry == orig[k as int]);
            assert(orig.skip(k + 1) =~= orig.skip(k as int).drop_first());
            assert(fv.take(k + 1).drop_last() =~= fv.take(k as int));
            assert(fv.take(k + 1).last() == (orig[k as int].0@, orig[k as int].1));
        }
        let (key, value) = entry;
        let is_pick = match pick {
            Some(p) => p == k,
            None => false,
        };
        if is_pick {
            picked = Some(value);
        } else {
            let known = if recipe { is_recipe_key(key.as_str()) } else { is_item_key(key.as_str()) };
            if !known {
                extra.push((key, value));
                proof { assert(fields_view(extra@) =~= fields_view(before).push(fv.take(k + 1).last())); }
            }
        }
        k = k + 1;
    }
    proof {
        assert(orig.skip(k as int).len() == 0);
        assert(fv.take(k as int) =~= fv);
    }
    (picked, extra)
}

/// An item note: its fields, its embedded image, its price as written and
/// its other keys.
#[derive(Debug, Clone, PartialEq, Eq)]
pub struct ItemNote {
    pub id: String,
    pub source_id: String,
    pub name: String,
    pub brand: Option<String>,
    /// The value under `价格`, as written; reading it as a number is left to
    /// the caller.
    pub price: Option<NoteValue>,
    pub purchase_date: Option<String>,
    pub purchase_channel: Option<String>,
    pub main_category: Option<String>,
    pub sub_category: Option<String>,
    pub color: Option<String>,
    /// The file name of the first embedded image.
    pub image: Option<String>,
    pub extra: Vec<(String, NoteValue)>,
}

/// A recipe note: its fields, its embedded image and its other keys.
#[derive(Debug, Clone, PartialEq, Eq)]
pub struct RecipeNote {
    pub id: String,
    pub source_id: String,
    pub name: String,
    pub recipe_type: Option<String>,
    pub servings: Option<String>,
    pub difficulty: Option<String>,
    pub time: Option<String>,
    pub ingredients: Vec<String>,
    pub steps: Vec<String>,
    pub tags: Vec<String>,
    pub source: Option<String>,
    /// The file name of the first embedded image.
    pub image: Option<String>,
    pub extra: Vec<(String, NoteValue)>,
    pub ingredient_count: usize,
    pub step_count: usize,
}

/// `n` is the item note with front-matter entries `fs`.
pub open spec fn item_note_holds(n: ItemNote, fs: Seq<(Seq<char>, NoteValue)>, content: Seq<char>, source_id: Seq<char>, stem: Seq<char>) -> bool {
    &&& n.id@ == source_id + "::"@ + stem
    &&& n.source_id@ == source_id
    &&& n.name@ == match text_at(fs, position(fs, "名称"@)) { Some(t) => t, None => stem }
    &&& opt_text(n.brand) == text_at(fs, position(fs, "品牌"@))
    &&& n.price == match position(fs, "价格"@) { Some(i) => Some(fs[i].1), None => None::<NoteValue> }
    &&& opt_text(n.purchase_date) == text_at(fs, position(fs, "购入日期"@))
    &&& opt_text(n.purchase_channel) == text_at(fs, position(fs, "购入方式"@))
    &&& opt_text(n.main_category) == text_at(fs, position(fs, "主类"@))
    &&& opt_text(n.sub_category) == text_at(fs, position(fs, "品类"@))
    &&& opt_text(n.color) == text_at(fs, position(fs, "颜色"@))
    &&& opt_text(n.image) == regex_first_group(IMAGE_EMBED_PATTERN@, content)
    &&& fields_view(n.extra@) == extras(fs, false)
}

/// `n` is the recipe note with front-matter entries `fs`.
pub open spec fn recipe_note_holds(n: RecipeNote, fs: Seq<(Seq<char>, NoteValue)>, content: Seq<char>, source_id: Seq<char>, stem: Seq<char>) -> bool {
    &&& n.id@ == source_id + "::"@ + stem
    &&& n.source_id@ == source_id
    &&& n.name@ == match text_at(fs, pair_position(fs, "名称"@, "name"@)) { Some(t) => t, None => stem }
    &&& opt_text(n.recipe_type) == text_at(fs, pair_position(fs, "类型"@, "type"@))
    &&& opt_text(n.servings) == text_at(fs, pair_position(fs, "份数"@, "servings"@))
    &&& opt_text(n.difficulty) == text_at(fs, pair_position(fs, "难度"@, "difficulty"@))
    &&& opt_text(n.time) == text_at(fs, pair_position(fs, "时间"@, "time"@))
    &&& string_texts(n.ingredients@) == texts_at(fs, pair_position(fs, "材料"@, "ingredients"@))
    &&& string_texts(n.steps@) == texts_at(fs, pair_position(fs, "步骤"@, "steps"@))
    &&& string_texts(n.tags@) == texts_at(fs, pair_position(fs, "标签"@, "tags"@))
    &&& opt_text(n.source) == text_at(fs, pair_position(fs, "来源"@, "source"@))
    &&& opt_text(n.image) == regex_first_group(IMAGE_EMBED_PATTERN@, content)
    &&& fields_view(n.extra@) == extras(fs, true)
    &&& n.ingredient_count == n.ingredients@.len()
    &&& n.step_count == n.steps@.len()
}

fn opt_pos(p: Option<usize>) -> (r: Option<usize>)
    ensures
        r == p,
{
    p
}

/// An item note from its text, the
/// id of its collection and its file stem; nothing where it has no front
/// matter or the front matter is no YAML mapping.
pub fn parse_item_note(content: &str, source_id: &str, file_stem: &str) -> (r: Option<ItemNote>)
    ensures
        match frontmatter_spec(content@) {
            None => r is None,
            Some(fm) => match yaml_mapping(fm) {
                None => r is None,
                Some(fs) => r matches Some(n) && item_note_holds(n, fs, content@, source_id@, file_stem@),
            },
        },
{
    let fm = match extract_frontmatter(content) {
        Some(f) => f,
        None => return None,
    };
    let fields = match frontmatter_fields(fm) {
        Some(v) => v,
        None => return None,
    };
    let ghost fs = fields_view(fields@);
    let name = match text_field(&fields, find_key(&fields, "名称")) {
        Some(t) => t,
        None => String::from_str(file_stem),
    };
    let brand = text_field(&fields, find_key(&fields, "品牌"));
    let purchase_date = text_field(&fields, find_key(&fields, "购入日期"));
    let purchase_channel = text_field(&fields, find_key(&fields, "购入方式"));
    let main_category = text_field(&fields, find_key(&fields, "主类"));
    let sub_category = text_field(&fields, find_key(&fields, "品类"));
    let color = text_field(&fields, find_key(&fields, "颜色"));
    let image = embedded_image_name(content);
    let price_at = find_key(&fields, "价格");
    proof {
        reveal_strlit("价格");
        if price_at is Some {
            assert(item_keys()[2] == "价格"@);
        }
    }
    let (price, extra) = split_fields(fields, price_at, false);
    Some(ItemNote {
        id: concat3(source_id, "::", file_stem),
        source_id: String::from_str(source_id),
        name,
        brand,
        price,
        purchase_date,
        purchase_channel,
        main_category,
        sub_category,
        color,
        image,
        extra,
    })
}

/// A recipe note from its text,
/// the id of its collection and its file stem; nothing where it has no
/// front matter or the front matter is no YAML mapping.
pub fn parse_recipe_note(content: &str, source_id: &str, file_stem: &str) -> (r: Option<RecipeNote>)
    ensures
        match frontmatter_spec(content@) {
            None => r is None,
            Some(fm) => match yaml_mapping(fm) {
                None => r is None,
                Some(fs) => r matches Some(n) && recipe_note_holds(n, fs, content@, source_id@, file_stem@),
            },
        },
{
    let fm = match extract_frontmatter(content) {
        Some(f) => f,
        None => return None,
    };
    let fields = match frontmatter_fields(fm) {
        Some(v) => v,
        None => return None,
    };
    let name = match text_field(&fields, find_pair(&fields, "名称", "name")) {
        Some(t) => t,
        None => String::from_str(file_stem),
    };
    let recipe_type = text_field(&fields, find_pair(&fields, "类型", "type"));
    let servings = text_field(&fields, find_pair(&fields, "份数", "servings"));
    let difficulty = text_field(&fields, find_pair(&fields, "难度", "difficulty"));
    let time = text_field(&fields, find_pair(&fields, "时间", "time"));
    let ingredients = texts_field(&fields, find_pair(&fields, "材料", "ingredients"));
    let steps = texts_field(&fields, find_pair(&fields, "步骤", "steps"));
    let tags = texts_field(&fields, find_pair(&fields, "标签", "tags"));
    let source = text_field(&fields, find_pair(&fields, "来源", "source"));
    let image = embedded_image_name(content);
    let (_, extra) = split_fields(fields, None, true);
    let ingredient_count = ingredients.len();
    let step_count = steps.len();
    Some(RecipeNote {
        id: concat3(source_id, "::", file_stem),
        source_id: String::from_str(source_id),
        name,
        recipe_type,
        servings,
        difficulty,
        time,
        ingredients,
        steps,
        tags,
        source,
        image,
        extra,
        ingredient_count,
        step_count,
    })
}

// ---------------------------------------------------------------------------
// Counting recipes by type
// ---------------------------------------------------------------------------

/// The name a recipe is counted under: its type, or `未分类` where it has
/// none.
pub open spec fn recipe_kind_name(t: Option<String>) -> Seq<char> {
    match t {
        Some(s) => s@,
        None => "未分类"@,
    }
}

/// How many of `ts` are counted under `name`.
pub open spec fn recipe_kind_count(ts: Seq<Option<String>>, name: Seq<char>) -> nat
    decreases ts.len(),
{
    if ts.len() == 0 {
        0
    } else {
        recipe_kind_count(ts.drop_last(), name) + if recipe_kind_name(ts.last()) == name { 1nat } else { 0nat }
    }
}

/// The counts of a first pass: names in first-appearance order, each once,
/// with its count among the first `n` types.
pub open spec fn counts_of_prefix(ts: Seq<Option<String>>, n: int, out: Seq<(String, usize)>) -> bool {
    &&& forall|i: int| 0 <= i < out.len() ==> (#[trigger] out[i]).1 == recipe_kind_count(ts.take(n), out[i].0@) && out[i].1 > 0
    &&& forall|i: int, j: int| 0 <= i < j < out.len() ==> (#[trigger] out[i]).0@ != (#[trigger] out[j]).0@
    &&& kinds_covered(ts.take(n), out)
}

proof fn lemma_kind_count_step(ts: Seq<Option<String>>, n: int, name: Seq<char>)
    requires
        0 <= n < ts.len(),
    ensures
        recipe_kind_count(ts.take(n + 1), name) == recipe_kind_count(ts.take(n), name) + if recipe_kind_name(ts[n]) == name { 1nat } else { 0nat },
{
    assert(ts.take(n + 1).drop_last() =~= ts.take(n));
}

proof fn lemma_kind_count_bound(ts: Seq<Option<String>>, name: Seq<char>)
    ensures
        recipe_kind_count(ts, name) <= ts.len(),
    decreases ts.len(),
{
    if ts.len() > 0 {
        lemma_kind_count_bound(ts.drop_last(), name);
    }
}

/// The first pass of `count_by_type`: names in first-appearance order,
/// each once, with their counts.
fn tally_kinds(types: &Vec<Option<String>>) -> (counts: Vec<(String, usize)>)
    ensures
        counts_of_prefix(types@, types@.len() as int, counts@),
        types@.take(types@.len() as int) == types@,
{
    let ghost ts = types@;
    // First pass: names in first-appearance order with their counts.
    let mut counts: Vec<(String, usize)> = Vec::new();
    let mut k: usize = 0;
    while k < types.len()
        invariant
            k <= ts.len(),
            ts == types@,
            counts_of_prefix(ts, k as int, counts@),
        decreases types.len() - k,
    {
        let name = match &types[k] {
            Some(s) => s.clone(),
            None => String::from_str("未分类"),
        };
        proof {
            reveal_strlit("未分类");
            assert(name@ == recipe_kind_name(ts[k as int]));
        }
        let mut i: usize = 0;
        while i < counts.len() && !str_eq(counts[i].0.as_str(), name.as_str())
            invariant
                i <= counts@.len(),
                forall|j: int| 0 <= j < i ==> (#[trigger] counts@[j]).0@ != name@,
            decreases counts.len() - i,
        {
            i = i + 1;
        }
        proof {
            assert forall|j: int| 0 <= j < counts@.len() implies
                recipe_kind_count(ts.take(k + 1), (#[trigger] counts@[j]).0@) == recipe_kind_count(ts.take(k as int), counts@[j].0@)
                    + if counts@[j].0@ == name@ { 1nat } else { 0nat } by {
                lemma_kind_count_step(ts, k as int, counts@[j].0@);
            }
            lemma_kind_count_bound(ts.take(k as int), name@);
        }
        let ghost before = counts@;
        if i < counts.len() {
            let c = counts[i].1;
            let entry = (counts[i].0.clone(), c + 1);
            counts.set(i, entry);
            proof {
                assert forall|j: int| 0 <= j < counts@.len() implies (#[trigger] counts@[j]).1 == recipe_kind_count(ts.take(k + 1), counts@[j].0@) && counts@[j].1 > 0 by {
                    if j != i {
                        assert(counts@[j] == before[j]);
                    }
                }
                assert forall|a: int, b: int| 0 <= a < b < counts@.len() implies (#[trigger] counts@[a]).0@ != (#[trigger] counts@[b]).0@ by {
                    assert(counts@[a].0@ == before[a].0@ && counts@[b].0@ == before[b].0@);
                }
                assert forall|q: int| 0 <= q < k + 1 implies #[trigger] kind_listed(ts.take(k + 1)[q], counts@) by {
                    assert(ts.take(k + 1)[q] == ts[q]);
                    if q < k {
                        assert(ts.take(k as int)[q] == ts[q]);
                        assert(kind_listed(ts.take(k as int)[q], before));
                        let j = choose|j: int| 0 <= j < before.len() && (#[trigger] before[j]).0@ == recipe_kind_name(ts.take(k as int)[q]);
                        assert(counts@[j].0@ == before[j].0@);
                    } else {
                        assert(counts@[i as int].0@ == recipe_kind_name(ts[q]));
                    }
                }
                assert(ts.take(k + 1).len() == k + 1);
            }
        } else {
            counts.push((name, 1));
            proof {
                lemma_kind_count_step(ts, k as int, name@);
                assert(recipe_kind_count(ts.take(k as int), name@) == 0) by {
                    if recipe_kind_count(ts.take(k as int), name@) > 0 {
                        lemma_kind_count_present(ts.take(k as int), name@);
                        let q = choose|q: int| 0 <= q < k && recipe_kind_name(ts.take(k as int)[q]) == name@;
                        assert(ts.take(k as int)[q] == ts[q]);
                        assert(kind_listed(ts.take(k as int)[q], before));
                        let j = choose|j: int| 0 <= j < before.len() && (#[trigger] before[j]).0@ == recipe_kind_name(ts.take(k as int)[q]);
                    }
                }
                assert forall|j: int| 0 <= j < counts@.len() implies (#[trigger] counts@[j]).1 == recipe_kind_count(ts.take(k + 1), counts@[j].0@) && counts@[j].1 > 0 by {
                    if j < before.len() {
                        assert(counts@[j] == before[j]);
                    }
                }
                assert forall|q: int| 0 <= q < k + 1 implies #[trigger] kind_listed(ts.take(k + 1)[q], counts@) by {
                    assert(ts.take(k + 1)[q] == ts[q]);
                    if q < k {
                        assert(ts.take(k as int)[q] == ts[q]);
                        assert(kind_listed(ts.take(k as int)[q], before));
                        let j = choose|j: int| 0 <= j < before.len() && (#[trigger] before[j]).0@ == recipe_kind_name(ts.take(k as int)[q]);
                        assert(counts@[j] == before[j]);
                    } else {
                        assert(counts@[before.len() as int].0@ == recipe_kind_name(ts[q]));
                    }
                }
            }
        }
        k = k + 1;
    }
    proof { assert(ts.take(ts.len() as int) =~= ts); }
    counts
}

/// Every type of `ts` is counted under a name of `s`.
pub open spec fn kinds_covered(ts: Seq<Option<String>>, s: Seq<(String, usize)>) -> bool {
    forall|k: int| 0 <= k < ts.len() ==> #[trigger] kind_listed(ts[k], s)
}

/// The name `t` is counted under is a name of `s`.
pub open spec fn kind_listed(t: Option<String>, s: Seq<(String, usize)>) -> bool {
    exists|i: int| 0 <= i < s.len() && (#[trigger] s[i]).0@ == recipe_kind_name(t)
}

/// Every entry of `s` is one of the first `n` of `first`.
pub open spec fn entries_from(s: Seq<(String, usize)>, first: Seq<(String, usize)>, n: int) -> bool {
    forall|i: int| 0 <= i < s.len() ==> exists|j: int| 0 <= j < n && #[trigger] s[i] == first[j]
}

/// Each of the first `n` of `first` is an entry of `s`.
pub open spec fn covers(s: Seq<(String, usize)>, first: Seq<(String, usize)>, n: int) -> bool {
    forall|j: int| 0 <= j < n ==> exists|i: int| 0 <= i < s.len() && s[i] == #[trigger] first[j]
}

/// No two entries share a name.
pub open spec fn names_distinct(s: Seq<(String, usize)>) -> bool {
    forall|a: int, b: int| 0 <= a < b < s.len() ==> (#[trigger] s[a]).0@ != (#[trigger] s[b]).0@
}

/// Counts never grow along `s`.
pub open spec fn counts_descending(s: Seq<(String, usize)>) -> bool {
    forall|a: int, b: int| 0 <= a < b < s.len() ==> (#[trigger] s[a]).1 >= (#[trigger] s[b]).1
}

proof fn lemma_insert_index(old: Seq<(String, usize)>, p: int, e: (String, usize))
    requires
        0 <= p <= old.len(),
    ensures
        forall|i: int| 0 <= i < old.len() + 1 ==> #[trigger] old.insert(p, e)[i]
            == (if i < p { old[i] } else if i == p { e } else { old[i - 1] }),
        old.insert(p, e).len() == old.len() + 1,
{
}

proof fn lemma_insert_entries(old: Seq<(String, usize)>, first: Seq<(String, usize)>, t: int, p: int)
    requires
        0 <= t < first.len(),
        0 <= p <= old.len(),
        entries_from(old, first, t),
        covers(old, first, t),
    ensures
        entries_from(old.insert(p, first[t]), first, t + 1),
        covers(old.insert(p, first[t]), first, t + 1),
{
    let ns = old.insert(p, first[t]);
    lemma_insert_index(old, p, first[t]);
    assert forall|i: int| 0 <= i < ns.len() implies exists|j: int| 0 <= j < t + 1 && #[trigger] ns[i] == first[j] by {
        if i < p {
            let j = choose|j: int| 0 <= j < t && #[trigger] old[i] == first[j];
        } else if i > p {
            let j = choose|j: int| 0 <= j < t && #[trigger] old[i - 1] == first[j];
        }
    }
    assert forall|j: int| 0 <= j < t + 1 implies exists|i: int| 0 <= i < ns.len() && ns[i] == #[trigger] first[j] by {
        if j < t {
            let i = choose|i: int| 0 <= i < old.len() && old[i] == #[trigger] first[j];
            if i < p {
                assert(ns[i] == old[i]);
            } else {
                assert(ns[i + 1] == old[i]);
            }
        } else {
            assert(ns[p] == first[j]);
        }
    }
}

proof fn lemma_insert_order(old: Seq<(String, usize)>, first: Seq<(String, usize)>, t: int, p: int)
    requires
        0 <= t < first.len(),
        0 <= p <= old.len(),
        entries_from(old, first, t),
        names_distinct(old),
        counts_descending(old),
        names_distinct(first),
        forall|q: int| 0 <= q < p ==> (#[trigger] old[q]).1 >= first[t].1,
        p < old.len() ==> old[p].1 < first[t].1,
    ensures
        names_distinct(old.insert(p, first[t])),
        counts_descending(old.insert(p, first[t])),
{
    let e = first[t];
    let ns = old.insert(p, e);
    lemma_insert_index(old, p, e);
    assert forall|i: int| 0 <= i < old.len() implies (#[trigger] old[i]).0@ != e.0@ by {
        let j = choose|j: int| 0 <= j < t && #[trigger] old[i] == first[j];
        assert(first[j].0@ != first[t].0@);
    }
    assert forall|q: int| p <= q < old.len() implies (#[trigger] old[q]).1 < e.1 by {
        if q > p {
            assert(old[p].1 >= old[q].1);
        }
    }
    assert forall|a: int, b: int| 0 <= a < b < ns.len() implies (#[trigger] ns[a]).0@ != (#[trigger] ns[b]).0@
        && ns[a].1 >= ns[b].1 by {
        let a2 = if a < p { a } else { a - 1 };
        let b2 = if b < p { b } else { b - 1 };
        if a != p && b != p {
            assert(ns[a] == old[a2] && ns[b] == old[b2]);
        } else if a == p {
            assert(ns[b] == old[b2]);
        } else {
            assert(ns[a] == old[a2]);
        }
    }
}

proof fn lemma_counts_carry(ts: Seq<Option<String>>, first: Seq<(String, usize)>, sorted: Seq<(String, usize)>)
    requires
        counts_of_prefix(ts, ts.len() as int, first),
        ts.take(ts.len() as int) == ts,
        entries_from(sorted, first, first.len() as int),
        covers(sorted, first, first.len() as int),
    ensures
        forall|i: int| 0 <= i < sorted.len() ==> (#[trigger] sorted[i]).1 == recipe_kind_count(ts, sorted[i].0@) && sorted[i].1 > 0,
        kinds_covered(ts, sorted),
{
    assert forall|i: int| 0 <= i < sorted.len() implies (#[trigger] sorted[i]).1 == recipe_kind_count(ts, sorted[i].0@)
        && sorted[i].1 > 0 by {
        let j = choose|j: int| 0 <= j < first.len() && #[trigger] sorted[i] == first[j];
    }
    assert forall|q: int| 0 <= q < ts.len() implies #[trigger] kind_listed(ts[q], sorted) by {
        assert(ts.take(ts.len() as int)[q] == ts[q]);
        assert(kind_listed(ts.take(ts.len() as int)[q], first));
        let j = choose|j: int| 0 <= j < first.len() && (#[trigger] first[j]).0@ == recipe_kind_name(ts[q]);
        let i = choose|i: int| 0 <= i < sorted.len() && sorted[i] == #[trigger] first[j];
        assert(sorted[i].0@ == recipe_kind_name(ts[q]));
    }
    assert(kinds_covered(ts, sorted));
}

/// Each entry of `counts`, most first; entries with equal counts keep their
/// order.
#[verifier::rlimit(40)]
fn order_by_count(counts: Vec<(String, usize)>) -> (sorted: Vec<(String, usize)>)
    requires
        names_distinct(counts@),
    ensures
        entries_from(sorted@, counts@, counts@.len() as int),
        covers(sorted@, counts@, counts@.len() as int),
        names_distinct(sorted@),
        counts_descending(sorted@),
{
    let ghost first = counts@;
    let mut sorted: Vec<(String, usize)> = Vec::new();
    let mut t: usize = 0;
    while t < counts.len()
        invariant
            t <= first.len(),
            first == counts@,
            entries_from(sorted@, first, t as int),
            covers(sorted@, first, t as int),
            names_distinct(sorted@),
            counts_descending(sorted@),
            names_distinct(first),
        decreases counts.len() - t,
    {
        let c = counts[t].1;
        let mut p: usize = 0;
        while p < sorted.len() && sorted[p].1 >= c
            invariant
                p <= sorted@.len(),
                forall|q: int| 0 <= q < p ==> (#[trigger] sorted@[q]).1 >= c,
            decreases sorted.len() - p,
        {
            p = p + 1;
        }
        let e = (counts[t].0.clone(), c);
        proof {
            assert(e == first[t as int]);
            lemma_insert_entries(sorted@, first, t as int, p as int);
            lemma_insert_order(sorted@, first, t as int, p as int);
        }
        sorted.insert(p, e);
        t = t + 1;
    }
    sorted
}

/// The number of recipes of each type (`未分类` for those without one),
/// each type once, most recipes first; types with as many recipes keep the
/// order in which they first appear.
pub fn count_by_type(types: &Vec<Option<String>>) -> (r: Vec<(String, usize)>)
    ensures
        forall|i: int| 0 <= i < r@.len() ==> (#[trigger] r@[i]).1 == recipe_kind_count(types@, r@[i].0@) && r@[i].1 > 0,
        forall|i: int, j: int| 0 <= i < j < r@.len() ==> (#[trigger] r@[i]).0@ != (#[trigger] r@[j]).0@,
        kinds_covered(types@, r@),
        forall|i: int, j: int| 0 <= i < j < r@.len() ==> (#[trigger] r@[i]).1 >= (#[trigger] r@[j]).1,
{
    let counts = tally_kinds(types);
    let ghost ts = types@;
    let ghost first = counts@;
    let sorted = order_by_count(counts);
    proof { lemma_counts_carry(ts, first, sorted@); }
    sorted
}

proof fn lemma_kind_count_present(ts: Seq<Option<String>>, name: Seq<char>)
    requires
        recipe_kind_count(ts, name) > 0,
    ensures
        exists|q: int| 0 <= q < ts.len() && recipe_kind_name(ts[q]) == name,
    decreases ts.len(),
{
    if recipe_kind_name(ts.last()) != name {
        lemma_kind_count_present(ts.drop_last(), name);
        let q = choose|q: int| 0 <= q < ts.drop_last().len() && recipe_kind_name(ts.drop_last()[q]) == name;
        assert(ts.drop_last()[q] == ts[q]);
    }
}

} // verus!
