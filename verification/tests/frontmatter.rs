use arcana::frontmatter::{
    embedded_image_name, extract_frontmatter, is_item_key, is_recipe_key, note_id, trim_text,
    trimmed_field,
};

#[test]
fn frontmatter_is_found_after_leading_whitespace() {
    let note = "\n  ---\n名称: 台灯\n价格: 120\n---\n正文";
    assert_eq!(extract_frontmatter(note), Some("\n名称: 台灯\n价格: 120"));
}

#[test]
fn note_without_opening_dashes_has_no_frontmatter() {
    assert_eq!(extract_frontmatter("名称: 台灯\n---\n"), None);
    assert_eq!(extract_frontmatter("--"), None);
    assert_eq!(extract_frontmatter(""), None);
}

#[test]
fn unclosed_frontmatter_is_none() {
    assert_eq!(extract_frontmatter("---\nname: soup\nno closing line"), None);
}

#[test]
fn empty_frontmatter_is_found() {
    assert_eq!(extract_frontmatter("---\n---\nbody"), Some(""));
}

#[test]
fn trim_removes_unicode_whitespace_on_both_ends() {
    assert_eq!(trim_text("  \t汤\u{3000}\n"), "汤");
    assert_eq!(trim_text("   "), "");
    assert_eq!(trim_text("a b"), "a b");
}

#[test]
fn trimmed_field_drops_blank_values() {
    assert_eq!(trimmed_field("  番茄炒蛋 "), Some("番茄炒蛋".to_string()));
    assert_eq!(trimmed_field(" \n "), None);
    assert_eq!(trimmed_field(""), None);
}

#[test]
fn note_id_joins_source_and_stem() {
    assert_eq!(note_id("kitchen", "tomato-egg"), "kitchen::tomato-egg");
}

#[test]
fn item_keys_are_the_chinese_field_names() {
    for key in ["名称", "品牌", "价格", "购入日期", "购入方式", "主类", "品类", "颜色"] {
        assert!(is_item_key(key), "{key}");
    }
    assert!(!is_item_key("name"));
    assert!(!is_item_key("备注"));
}

#[test]
fn recipe_keys_accept_both_languages() {
    assert!(is_recipe_key("材料"));
    assert!(is_recipe_key("ingredients"));
    assert!(is_recipe_key("source"));
    assert!(!is_recipe_key("calories"));
    assert!(!is_recipe_key("Name"));
}

#[test]
fn embedded_image_takes_the_first_supported_file() {
    let note = "text ![[lamp.png]] and ![[other.jpg]]";
    assert_eq!(embedded_image_name(note), Some("lamp.png".to_string()));
}

#[test]
fn embedded_image_absent_without_embed() {
    assert_eq!(embedded_image_name("![lamp](lamp.png)"), None);
}

use arcana::frontmatter::{
    extra_positions, field_position, note_string, note_string_list, NoteScalar, NoteValue,
};

#[test]
fn note_string_trims_text_and_keeps_numbers() {
    assert_eq!(note_string(&NoteValue::Text("  台灯 ".to_string())), Some("台灯".to_string()));
    assert_eq!(note_string(&NoteValue::Text("   ".to_string())), None);
    assert_eq!(note_string(&NoteValue::Number("120".to_string())), Some("120".to_string()));
    assert_eq!(note_string(&NoteValue::Other("null".to_string())), None);
    assert_eq!(note_string(&NoteValue::List(vec![])), None);
}

#[test]
fn note_string_list_keeps_texts_and_numbers_in_order() {
    let value = NoteValue::List(vec![
        NoteScalar::Text(" 鸡蛋 ".to_string()),
        NoteScalar::Other("true".to_string()),
        NoteScalar::Text(" ".to_string()),
        NoteScalar::Number("2".to_string()),
    ]);
    assert_eq!(note_string_list(&value), vec!["鸡蛋".to_string(), "2".to_string()]);
}

#[test]
fn single_text_is_a_one_item_list() {
    assert_eq!(note_string_list(&NoteValue::Text(" 番茄 ".to_string())), vec!["番茄".to_string()]);
    assert!(note_string_list(&NoteValue::Text("".to_string())).is_empty());
    assert!(note_string_list(&NoteValue::Number("3".to_string())).is_empty());
}

#[test]
fn chinese_key_wins_over_english_key() {
    let fields = vec![
        ("name".to_string(), NoteValue::Text("Soup".to_string())),
        ("名称".to_string(), NoteValue::Text("汤".to_string())),
        ("tags".to_string(), NoteValue::Other("null".to_string())),
    ];
    assert_eq!(field_position(&fields, "名称", "name"), Some(1));
    assert_eq!(field_position(&fields, "标签", "tags"), Some(2));
    assert_eq!(field_position(&fields, "来源", "source"), None);
}

#[test]
fn extra_keys_are_those_not_known() {
    let fields = vec![
        ("名称".to_string(), NoteValue::Other("null".to_string())),
        ("备注".to_string(), NoteValue::Other("null".to_string())),
        ("name".to_string(), NoteValue::Other("null".to_string())),
    ];
    assert_eq!(extra_positions(&fields, false), vec![1, 2]);
    assert_eq!(extra_positions(&fields, true), vec![1]);
}
