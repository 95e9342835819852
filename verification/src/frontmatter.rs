//! Markdown notes with YAML front matter, as the item and recipe
//! collections keep them: where the front matter is, which keys are the
//! note's own fields, and which image it embeds.
use vstd::prelude::*;
use crate::dashboard::is_unicode_whitespace;
use crate::text::{concat3, str_eq};

verus! {

/// `s` without its leading whitespace.
pub open spec fn trim_start_spec(s: Seq<char>) -> Seq<char>
    decreases s.len(),
{
    if s.len() > 0 && is_unicode_whitespace(s[0]) { trim_start_spec(s.drop_first()) } else { s }
}

/// `s` without its trailing whitespace.
pub open spec fn trim_end_spec(s: Seq<char>) -> Seq<char>
    decreases s.len(),
{
    if s.len() > 0 && is_unicode_whitespace(s.last()) { trim_end_spec(s.drop_last()) } else { s }
}

/// `str::trim`.
pub open spec fn trim_spec(s: Seq<char>) -> Seq<char> {
    trim_end_spec(trim_start_spec(s))
}

/// The first position at or after `i` where `pat` occurs in `s`.
pub open spec fn find_from(s: Seq<char>, pat: Seq<char>, i: int) -> Option<int>
    decreases s.len() + 1 - i,
{
    if i < 0 || i + pat.len() > s.len() {
        None
    } else if s.subrange(i, i + pat.len()) == pat {
        Some(i)
    } else {
        find_from(s, pat, i + 1)
    }
}

/// The front matter of a note: after leading whitespace the note opens with
/// `---`, and the front matter runs to the next line that starts with
/// `---`.
pub open spec fn frontmatter_spec(content: Seq<char>) -> Option<Seq<char>> {
    let trimmed = trim_start_spec(content);
    if trimmed.len() >= 3 && trimmed.take(3) == "---"@ {
        let after = trimmed.skip(3);
        match find_from(after, "\n---"@, 0) {
            Some(e) => Some(after.take(e)),
            None => None,
        }
    } else {
        None
    }
}

fn leading_whitespace(s: &str) -> (r: usize)
    ensures
        r <= s@.len(),
        trim_start_spec(s@) == s@.skip(r as int),
{
    let n = s.unicode_len();
    let mut k: usize = 0;
    proof { assert(s@.skip(0) =~= s@); }
    while k < n && crate::dashboard::is_whitespace_char(s.get_char(k))
        invariant
            n == s@.len(),
            k <= n,
            trim_start_spec(s@) == trim_start_spec(s@.skip(k as int)),
        decreases n - k,
    {
        proof {
            assert(s@.skip(k as int)[0] == s@[k as int]);
            assert(s@.skip(k as int).drop_first() =~= s@.skip(k + 1));
        }
        k = k + 1;
    }
    proof {
        if k < n {
            assert(s@.skip(k as int)[0] == s@[k as int]);
        }
    }
    k
}

fn trailing_end(s: &str, start: usize) -> (r: usize)
    requires
        start <= s@.len(),
    ensures
        start <= r <= s@.len(),
        trim_end_spec(s@.subrange(start as int, s@.len() as int)) == s@.subrange(start as int, r as int),
{
    let n = s.unicode_len();
    let mut e: usize = n;
    proof { assert(s@.subrange(start as int, n as int) =~= s@.subrange(start as int, e as int)); }
    while e > start && crate::dashboard::is_whitespace_char(s.get_char(e - 1))
        invariant
            n == s@.len(),
            start <= e <= n,
            trim_end_spec(s@.subrange(start as int, n as int)) == trim_end_spec(s@.subrange(start as int, e as int)),
        decreases e,
    {
        proof {
            assert(s@.subrange(start as int, e as int).last() == s@[e - 1]);
            assert(s@.subrange(start as int, e as int).drop_last() =~= s@.subrange(start as int, e - 1));
        }
        e = e - 1;
    }
    proof {
        if e > start {
            assert(s@.subrange(start as int, e as int).last() == s@[e - 1]);
        }
    }
    e
}

/// `str::trim`: the text without leading and trailing whitespace.
pub fn trim_text(s: &str) -> (r: &str)
    ensures
        r@ == trim_spec(s@),
{
    let start = leading_whitespace(s);
    let end = trailing_end(s, start);
    proof { assert(s@.skip(start as int) =~= s@.subrange(start as int, s@.len() as int)); }
    s.substring_char(start, end)
}

/// The front matter of a note, if it has one.
pub fn extract_frontmatter(content: &str) -> (r: Option<&str>)
    ensures
        match frontmatter_spec(content@) {
            Some(f) => r matches Some(t) && t@ == f,
            None => r is None,
        },
{
    proof {
        reveal_strlit("---");
        reveal_strlit("\n---");
    }
    let start = leading_whitespace(content);
    let n = content.unicode_len();
    let ghost trimmed = content@.skip(start as int);
    if n - start < 3 {
        return None;
    }
    let head = content.substring_char(start, start + 3);
    proof { assert(head@ =~= trimmed.take(3)); }
    if !str_eq(head, "---") {
        return None;
    }
    let body_start = start + 3;
    let ghost after = trimmed.skip(3);
    proof {
        assert(after =~= content@.skip(body_start as int));
        assert(trimmed.take(3) == "---"@);
    }
    let mut i: usize = body_start;
    while i <= n && n - i >= 4
        invariant
            n == content@.len(),
            body_start <= i <= n,
            body_start <= n,
            after =~= content@.skip(body_start as int),
            find_from(after, "\n---"@, 0) == find_from(after, "\n---"@, (i - body_start) as int),
            "\n---"@.len() == 4,
            frontmatter_spec(content@) == (match find_from(after, "\n---"@, 0) {
                Some(e) => Some(after.take(e)),
                None => None::<Seq<char>>,
            }),
        decreases n - i,
    {
        let window = content.substring_char(i, i + 4);
        let ghost j: int = (i - body_start) as int;
        proof {
            assert(window@ =~= after.subrange(j, j + 4));
        }
        if str_eq(window, "\n---") {
            let front = content.substring_char(body_start, i);
            proof {
                assert(front@ =~= after.take(j));
                assert(find_from(after, "\n---"@, j) == Some(j));
            }
            return Some(front);
        }
        i = i + 1;
    }
    proof {
        let j: int = (i - body_start) as int;
        assert(j + 4 > after.len());
    }
    None
}

/// A text field of a note: the value without surrounding whitespace, or
/// nothing where that leaves it empty.
pub fn trimmed_field(value: &str) -> (r: Option<String>)
    ensures
        trim_spec(value@).len() == 0 <==> r is None,
        r matches Some(t) ==> t@ == trim_spec(value@),
{
    let t = trim_text(value);
    if t.unicode_len() == 0 {
        None
    } else {
        Some(t.to_string())
    }
}

/// The id of a note: its collection's id and its file stem, joined by `::`.
pub fn note_id(source_id: &str, file_stem: &str) -> (r: String)
    ensures
        r@ == source_id@ + "::"@ + file_stem@,
{
    concat3(source_id, "::", file_stem)
}

/// The front-matter keys an item note maps to its own fields.
pub open spec fn item_keys() -> Seq<Seq<char>> {
    seq!["名称"@, "品牌"@, "价格"@, "购入日期"@, "购入方式"@, "主类"@, "品类"@, "颜色"@]
}

/// The front-matter keys a recipe note maps to its own fields, in Chinese
/// and in English.
pub open spec fn recipe_keys() -> Seq<Seq<char>> {
    seq!["名称"@, "类型"@, "份数"@, "难度"@, "时间"@, "材料"@, "步骤"@, "标签"@, "来源"@,
        "name"@, "type"@, "servings"@, "difficulty"@, "time"@, "ingredients"@, "steps"@, "tags"@, "source"@]
}

fn is_one_of(key: &str, keys: &[&str]) -> (r: bool)
    ensures
        r == exists|k: int| 0 <= k < keys@.len() && (#[trigger] keys@[k])@ == key@,
{
    let mut k: usize = 0;
    while k < keys.len()
        invariant
            k <= keys@.len(),
            forall|j: int| 0 <= j < k ==> (#[trigger] keys@[j])@ != key@,
        decreases keys.len() - k,
    {
        if str_eq(keys[k], key) {
            return true;
        }
        k = k + 1;
    }
    false
}

/// Whether an item note's key is one of its own fields.
pub fn is_item_key(key: &str) -> (r: bool)
    ensures
        r == item_keys().contains(key@),
{
    let keys: [&str; 8] = ["名称", "品牌", "价格", "购入日期", "购入方式", "主类", "品类", "颜色"];
    let r = is_one_of(key, &keys);
    proof {
        assert(keys@.map_values(|s: &str| s@) =~= item_keys());
        if r {
            let k = choose|k: int| 0 <= k < keys@.len() && (#[trigger] keys@[k])@ == key@;
            assert(item_keys()[k] == key@);
        } else {
            assert forall|k: int| 0 <= k < item_keys().len() implies item_keys()[k] != key@ by {
                assert(item_keys()[k] == keys@[k]@);
            }
        }
    }
    r
}

/// Whether a recipe note's key is one of its own fields.
pub fn is_recipe_key(key: &str) -> (r: bool)
    ensures
        r == recipe_keys().contains(key@),
{
    let keys: [&str; 18] = [
        "名称", "类型", "份数", "难度", "时间", "材料", "步骤", "标签", "来源",
        "name", "type", "servings", "difficulty", "time", "ingredients", "steps", "tags", "source",
    ];
    let r = is_one_of(key, &keys);
    proof {
        assert(keys@.map_values(|s: &str| s@) =~= recipe_keys());
        if r {
            let k = choose|k: int| 0 <= k < keys@.len() && (#[trigger] keys@[k])@ == key@;
            assert(recipe_keys()[k] == key@);
        } else {
            assert forall|k: int| 0 <= k < recipe_keys().len() implies recipe_keys()[k] != key@ by {
                assert(recipe_keys()[k] == keys@[k]@);
            }
        }
    }
    r
}

/// A scalar of a note's front matter: text, a number by its text, or
/// anything else by its JSON text.
#[derive(Debug, Clone, PartialEq, Eq)]
pub enum NoteScalar {
    Text(String),
    Number(String),
    Other(String),
}

/// A value of a note's front matter.
#[derive(Debug, Clone, PartialEq, Eq)]
pub enum NoteValue {
    Text(String),
    Number(String),
    List(Vec<NoteScalar>),
    /// Anything else, by its JSON text.
    Other(String),
}

/// The text field a scalar gives: trimmed non-empty text, or a number's
/// text.
pub open spec fn scalar_text(v: NoteScalar) -> Option<Seq<char>> {
    match v {
        NoteScalar::Text(s) => if trim_spec(s@).len() == 0 { None } else { Some(trim_spec(s@)) },
        NoteScalar::Number(n) => Some(n@),
        NoteScalar::Other(_) => None,
    }
}

/// The text of a front-matter value.
pub open spec fn note_text(v: NoteValue) -> Option<Seq<char>> {
    match v {
        NoteValue::Text(s) => scalar_text(NoteScalar::Text(s)),
        NoteValue::Number(n) => Some(n@),
        _ => None,
    }
}

/// The texts of a list's items, those without one left out.
pub open spec fn scalar_texts(items: Seq<NoteScalar>) -> Seq<Seq<char>>
    decreases items.len(),
{
    if items.len() == 0 {
        Seq::empty()
    } else {
        scalar_texts(items.drop_last()) + match scalar_text(items.last()) {
            Some(t) => seq![t],
            None => Seq::empty(),
        }
    }
}

/// A list's texts, or a single text as a one-item list.
pub open spec fn note_texts(v: NoteValue) -> Seq<Seq<char>> {
    match v {
        NoteValue::List(items) => scalar_texts(items@),
        NoteValue::Text(s) => match scalar_text(NoteScalar::Text(s)) {
            Some(t) => seq![t],
            None => Seq::empty(),
        },
        _ => Seq::empty(),
    }
}

/// The texts of strings.
pub open spec fn string_texts(v: Seq<String>) -> Seq<Seq<char>> {
    v.map_values(|s: String| s@)
}

fn scalar_text_exec(v: &NoteScalar) -> (r: Option<String>)
    ensures
        match scalar_text(*v) {
            Some(t) => r matches Some(s) && s@ == t,
            None => r is None,
        },
{
    match v {
        NoteScalar::Text(s) => trimmed_field(s.as_str()),
        NoteScalar::Number(n) => Some(n.clone()),
        NoteScalar::Other(_) => None,
    }
}

/// The text of a front-matter value, if it has one.
pub fn note_string(v: &NoteValue) -> (r: Option<String>)
    ensures
        match note_text(*v) {
            Some(t) => r matches Some(s) && s@ == t,
            None => r is None,
        },
{
    match v {
        NoteValue::Text(s) => trimmed_field(s.as_str()),
        NoteValue::Number(n) => Some(n.clone()),
        _ => None,
    }
}

/// The texts a front-matter value lists.
pub fn note_string_list(v: &NoteValue) -> (r: Vec<String>)
    ensures
        string_texts(r@) == note_texts(*v),
{
    match v {
        NoteValue::List(items) => {
            let mut out: Vec<String> = Vec::new();
            let mut k: usize = 0;
            proof { assert(items@.take(0) =~= Seq::<NoteScalar>::empty()); }
            while k < items.len()
                invariant
                    k <= items@.len(),
                    string_texts(out@) == scalar_texts(items@.take(k as int)),
                decreases items.len() - k,
            {
                proof { assert(items@.take(k + 1).drop_last() =~= items@.take(k as int)); }
                let ghost before = out@;
                match scalar_text_exec(&items[k]) {
                    Some(t) => {
                        out.push(t);
                        proof { assert(string_texts(out@) =~= string_texts(before) + seq![string_texts(out@).last()]); }
                    },
                    None => {},
                }
                proof { assert(string_texts(out@) =~= scalar_texts(items@.take(k + 1))); }
                k = k + 1;
            }
            proof { assert(items@.take(items@.len() as int) =~= items@); }
            out
        },
        NoteValue::Text(s) => {
            let mut out: Vec<String> = Vec::new();
            match trimmed_field(s.as_str()) {
                Some(t) => { out.push(t); },
                None => {},
            }
            proof { assert(string_texts(out@) =~= note_texts(*v)); }
            out
        },
        _ => {
            let out: Vec<String> = Vec::new();
            proof { assert(string_texts(out@) =~= note_texts(*v)); }
            out
        },
    }
}

/// The position of the first entry with key `key`.
pub open spec fn key_position(fields: Seq<(String, NoteValue)>, key: Seq<char>) -> Option<int>
    decreases fields.len(),
{
    if fields.len() == 0 {
        None
    } else {
        match key_position(fields.drop_last(), key) {
            Some(i) => Some(i),
            None => if fields.last().0@ == key { Some(fields.len() - 1) } else { None },
        }
    }
}

pub(crate) fn key_position_exec(fields: &Vec<(String, NoteValue)>, key: &str) -> (r: Option<usize>)
    ensures
        r == match key_position(fields@, key@) {
            Some(i) => Some(i as usize),
            None => None::<usize>,
        },
        r matches Some(i) ==> i < fields@.len(),
{
    let mut k: usize = 0;
    proof { assert(fields@.take(0) =~= Seq::<(String, NoteValue)>::empty()); }
    while k < fields.len()
        invariant
            k <= fields@.len(),
            key_position(fields@.take(k as int), key@) is None,
        decreases fields.len() - k,
    {
        proof { assert(fields@.take(k + 1).drop_last() =~= fields@.take(k as int)); }
        if str_eq(fields[k].0.as_str(), key) {
            proof {
                assert(key_position(fields@.take(k + 1), key@) == Some(k as int));
                lemma_key_position_prefix(fields@, key@, k + 1);
            }
            return Some(k);
        }
        k = k + 1;
    }
    proof { assert(fields@.take(fields@.len() as int) =~= fields@); }
    None
}

proof fn lemma_key_position_prefix(fields: Seq<(String, NoteValue)>, key: Seq<char>, n: int)
    requires
        0 <= n <= fields.len(),
        key_position(fields.take(n), key) is Some,
    ensures
        key_position(fields, key) == key_position(fields.take(n), key),
    decreases fields.len() - n,
{
    if n < fields.len() {
        assert(fields.take(n + 1).drop_last() =~= fields.take(n));
        lemma_key_position_prefix(fields, key, n + 1);
    } else {
        assert(fields.take(n) =~= fields);
    }
}

/// Where a note gives a field that has a Chinese and an English key: the
/// Chinese key's entry where it has one, else the English key's.
pub fn field_position(fields: &Vec<(String, NoteValue)>, zh: &str, en: &str) -> (r: Option<usize>)
    ensures
        r == match key_position(fields@, zh@) {
            Some(i) => Some(i as usize),
            None => match key_position(fields@, en@) {
                Some(j) => Some(j as usize),
                None => None::<usize>,
            },
        },
        r matches Some(i) ==> i < fields@.len(),
{
    match key_position_exec(fields, zh) {
        Some(i) => Some(i),
        None => key_position_exec(fields, en),
    }
}

/// The positions, in order, of the entries whose keys are not the note's
/// own fields: an item note's keys, or a recipe note's.
pub fn extra_positions(fields: &Vec<(String, NoteValue)>, recipe: bool) -> (r: Vec<usize>)
    ensures
        forall|k: int| 0 <= k < r@.len() ==> (#[trigger] r@[k]) < fields@.len(),
        forall|k: int, m: int| 0 <= k < m < r@.len() ==> r@[k] < r@[m],
        forall|i: int| 0 <= i < fields@.len() ==> (r@.contains(i as usize) <==> !(if recipe {
            recipe_keys()
        } else {
            item_keys()
        }).contains((#[trigger] fields@[i]).0@)),
{
    let mut out: Vec<usize> = Vec::new();
    let mut i: usize = 0;
    while i < fields.len()
        invariant
            i <= fields@.len(),
            forall|k: int| 0 <= k < out@.len() ==> (#[trigger] out@[k]) < i,
            forall|k: int, m: int| 0 <= k < m < out@.len() ==> out@[k] < out@[m],
            forall|j: int| 0 <= j < i ==> (out@.contains(j as usize) <==> !(if recipe {
                recipe_keys()
            } else {
                item_keys()
            }).contains((#[trigger] fields@[j]).0@)),
        decreases fields.len() - i,
    {
        let key = fields[i].0.as_str();
        let known = if recipe { is_recipe_key(key) } else { is_item_key(key) };
        if !known {
            let ghost before = out@;
            out.push(i);
            proof {
                assert forall|j: int| 0 <= j < i + 1 implies (out@.contains(j as usize) <==> !(if recipe {
                    recipe_keys()
                } else {
                    item_keys()
                }).contains((#[trigger] fields@[j]).0@)) by {
                    if j < i {
                        if before.contains(j as usize) {
                            let k = choose|k: int| 0 <= k < before.len() && before[k] == j as usize;
                            assert(out@[k] == j as usize);
                        }
                        if out@.contains(j as usize) {
                            let k = choose|k: int| 0 <= k < out@.len() && out@[k] == j as usize;
                            assert(k < before.len());
                            assert(before[k] == j as usize);
                        }
                    } else {
                        assert(out@[before.len() as int] == i);
                    }
                }
            }
        } else {
            proof {
                assert(!out@.contains(i as usize));
            }
        }
        i = i + 1;
    }
    out
}

/// The pattern of an embedded image: `![[<name>.<png|jpg|jpeg|webp>]]`.
pub const IMAGE_EMBED_PATTERN: &'static str = r"!\[\[(.+?\.(png|jpg|jpeg|webp))\]\]";

/// What the `regex` crate's first match of `pattern` in `text` captures in
/// its first group, if the pattern compiles and matches.
pub uninterp spec fn regex_first_group(pattern: Seq<char>, text: Seq<char>) -> Option<Seq<char>>;

/// The first group of the first match of `pattern` in `text`, from
/// `regex::Regex::new`, `Regex::captures` and `Captures::get`.  The
/// contract names the result; it depends on the pattern and the text alone.
#[verifier::external_body]
fn first_capture(pattern: &str, text: &str) -> (r: Option<String>)
    ensures
        match regex_first_group(pattern@, text@) {
            Some(g) => r matches Some(s) && s@ == g,
            None => r is None,
        },
{
    let re = match regex::Regex::new(pattern) {
        Ok(re) => re,
        Err(_) => return None,
    };
    match re.captures(text) {
        Some(caps) => match caps.get(1) {
            Some(m) => Some(m.as_str().to_string()),
            None => None,
        },
        None => None,
    }
}

/// The file name of the first image a note embeds.
pub fn embedded_image_name(content: &str) -> (r: Option<String>)
    ensures
        match regex_first_group(IMAGE_EMBED_PATTERN@, content@) {
            Some(g) => r matches Some(s) && s@ == g,
            None => r is None,
        },
{
    first_capture(IMAGE_EMBED_PATTERN, content)
}

} // verus!
