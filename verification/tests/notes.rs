use arcana::frontmatter::{NoteScalar, NoteValue};
use arcana::notes::{count_by_type, frontmatter_fields, parse_item_note, parse_recipe_note};

#[test]
fn item_note_reads_its_fields_image_and_extra_keys() {
    let content = "---\n名称: 台灯\n品牌: 宜家\n价格: 120\n购入日期: 2024-01-02\n备注: 好用\n---\n正文 ![[lamp.png]]";
    let note = parse_item_note(content, "desk", "lamp-note").unwrap();
    assert_eq!(note.id, "desk::lamp-note");
    assert_eq!(note.source_id, "desk");
    assert_eq!(note.name, "台灯");
    assert_eq!(note.brand, Some("宜家".to_string()));
    assert_eq!(note.price, Some(NoteValue::Number("120".to_string())));
    assert_eq!(note.purchase_date, Some("2024-01-02".to_string()));
    assert_eq!(note.color, None);
    assert_eq!(note.image, Some("lamp.png".to_string()));
    assert_eq!(note.extra, vec![("备注".to_string(), NoteValue::Text("好用".to_string()))]);
}

#[test]
fn item_note_without_name_takes_the_file_stem() {
    let note = parse_item_note("---\n品牌: \"  \"\n---\n", "desk", "chair").unwrap();
    assert_eq!(note.name, "chair");
    assert_eq!(note.brand, None);
    assert!(note.extra.is_empty());
}

#[test]
fn recipe_note_reads_both_languages_and_counts_lists() {
    let content = "---\nname: Soup\n材料:\n  - 番茄\n  - 2\nsteps: boil\ncalories: 100\n---\nbody";
    let note = parse_recipe_note(content, "kitchen", "soup").unwrap();
    assert_eq!(note.id, "kitchen::soup");
    assert_eq!(note.name, "Soup");
    assert_eq!(note.ingredients, vec!["番茄".to_string(), "2".to_string()]);
    assert_eq!(note.steps, vec!["boil".to_string()]);
    assert_eq!(note.ingredient_count, 2);
    assert_eq!(note.step_count, 1);
    assert!(note.tags.is_empty());
    assert_eq!(note.image, None);
    assert_eq!(note.extra, vec![("calories".to_string(), NoteValue::Number("100".to_string()))]);
}

#[test]
fn notes_without_a_yaml_mapping_are_skipped() {
    assert!(parse_item_note("no front matter", "desk", "x").is_none());
    assert!(parse_recipe_note("---\n- a\n- b\n---\n", "kitchen", "x").is_none());
}

#[test]
fn front_matter_values_keep_their_kind() {
    let fields = frontmatter_fields("a: text\nb: 1.5\nc: [x, true]\nd: false").unwrap();
    assert_eq!(fields[0], ("a".to_string(), NoteValue::Text("text".to_string())));
    assert_eq!(fields[1], ("b".to_string(), NoteValue::Number("1.5".to_string())));
    assert_eq!(
        fields[2],
        (
            "c".to_string(),
            NoteValue::List(vec![NoteScalar::Text("x".to_string()), NoteScalar::Other("true".to_string())])
        )
    );
    assert_eq!(fields[3], ("d".to_string(), NoteValue::Other("false".to_string())));
}

#[test]
fn number_keys_are_read_as_text_and_a_repeated_key_keeps_its_last_value() {
    let fields = frontmatter_fields("2024: bought\nb: 1\nb: 2").unwrap();
    assert_eq!(
        fields,
        vec![
            ("2024".to_string(), NoteValue::Text("bought".to_string())),
            ("b".to_string(), NoteValue::Number("2".to_string())),
        ]
    );
}

#[test]
fn recipes_are_counted_by_type_most_first() {
    let types = vec![
        Some("汤".to_string()),
        None,
        Some("菜".to_string()),
        Some("汤".to_string()),
        None,
        None,
    ];
    assert_eq!(
        count_by_type(&types),
        vec![("未分类".to_string(), 3), ("汤".to_string(), 2), ("菜".to_string(), 1)]
    );
    let ties = vec![Some("a".to_string()), Some("b".to_string()), Some("b".to_string()), Some("a".to_string())];
    assert_eq!(count_by_type(&ties), vec![("a".to_string(), 2), ("b".to_string(), 2)]);
    assert!(count_by_type(&Vec::new()).is_empty());
}
