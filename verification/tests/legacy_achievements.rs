use arcana::legacy_achievements::{
    achievement_pack_id, check_achievable, check_achievement_pack, check_achievement_packs,
    detect_cycle, AchievementDef, AchievementPackFile,
};

fn def(id: &str, prerequisites: &[&str]) -> AchievementDef {
    AchievementDef {
        id: id.to_string(),
        prerequisites: prerequisites.iter().map(|p| p.to_string()).collect(),
    }
}

fn pack(dir: &str, manifest: &str, achievements: Vec<AchievementDef>) -> AchievementPackFile {
    AchievementPackFile {
        pack_id: dir.to_string(),
        manifest_id: manifest.to_string(),
        achievements,
    }
}

#[test]
fn well_formed_packs_pass() {
    let packs = vec![
        pack("fit", "fit", vec![def("fit::run", &[]), def("fit::marathon", &["fit::run"])]),
        pack("read", "read", vec![def("read::book", &[])]),
    ];
    assert_eq!(check_achievement_packs(&packs), Ok(()));
}

#[test]
fn manifest_id_must_match_directory() {
    let packs = vec![pack("fit", "fitness", vec![def("fit::run", &[])])];
    assert_eq!(
        check_achievement_packs(&packs),
        Err("Pack 'fit': manifest.id 'fitness' does not match directory name".to_string())
    );
}

#[test]
fn achievement_id_must_carry_the_pack_prefix() {
    let packs = vec![pack("fit", "fit", vec![def("fit:run", &[])])];
    assert_eq!(
        check_achievement_packs(&packs),
        Err("Achievement 'fit:run' in pack 'fit' must start with 'fit::'".to_string())
    );
}

#[test]
fn duplicate_ids_in_one_pack_are_refused() {
    let packs = vec![pack("fit", "fit", vec![def("fit::run", &[]), def("fit::run", &[])])];
    assert_eq!(
        check_achievement_packs(&packs),
        Err("Duplicate achievement id 'fit::run' in pack 'fit'".to_string())
    );
}

#[test]
fn duplicate_ids_across_packs_are_refused() {
    let mut seen = vec!["fit::run".to_string()];
    let p = pack("fit", "fit", vec![def("fit::run", &[])]);
    assert_eq!(
        check_achievement_pack(&p, &mut seen),
        Err("Duplicate achievement id 'fit::run' across packs".to_string())
    );
}

#[test]
fn accepted_pack_adds_its_ids_to_the_seen_list() {
    let mut seen = vec!["read::book".to_string()];
    let p = pack("fit", "fit", vec![def("fit::run", &[]), def("fit::swim", &[])]);
    assert_eq!(check_achievement_pack(&p, &mut seen), Ok(()));
    assert_eq!(seen, vec!["read::book", "fit::run", "fit::swim"]);
}

#[test]
fn unknown_prerequisite_is_refused() {
    let packs = vec![pack("fit", "fit", vec![def("fit::marathon", &["fit::run"])])];
    assert_eq!(
        check_achievement_packs(&packs),
        Err("Achievement 'fit::marathon' references unknown prerequisite 'fit::run'".to_string())
    );
}

#[test]
fn prerequisite_cycle_is_refused() {
    let packs = vec![pack(
        "fit",
        "fit",
        vec![def("fit::a", &["fit::b"]), def("fit::b", &["fit::a"]), def("fit::c", &[])],
    )];
    let error = check_achievement_packs(&packs).unwrap_err();
    assert!(
        error == "Pack 'fit': prerequisite cycle detected involving 'fit::a'"
            || error == "Pack 'fit': prerequisite cycle detected involving 'fit::b'",
        "{error}"
    );
}

#[test]
fn self_prerequisite_is_a_cycle() {
    let defs = vec![def("fit::a", &[]), def("fit::loop", &["fit::loop"])];
    assert_eq!(
        detect_cycle(&defs),
        Some("prerequisite cycle detected involving 'fit::loop'".to_string())
    );
}

#[test]
fn chains_and_diamonds_have_no_cycle() {
    let defs = vec![
        def("p::d", &["p::b", "p::c"]),
        def("p::b", &["p::a"]),
        def("p::c", &["p::a"]),
        def("p::a", &[]),
    ];
    assert_eq!(detect_cycle(&defs), None);
    assert_eq!(detect_cycle(&Vec::new()), None);
}

#[test]
fn first_failing_pack_decides_the_error() {
    let packs = vec![
        pack("a", "a", vec![def("a::x", &["a::y"])]),
        pack("b", "c", vec![]),
    ];
    assert_eq!(
        check_achievement_packs(&packs),
        Err("Achievement 'a::x' references unknown prerequisite 'a::y'".to_string())
    );
}

#[test]
fn achievable_when_every_prerequisite_is_achieved() {
    let defs = vec![def("fit::run", &[]), def("fit::marathon", &["fit::run"])];
    let progress = vec![("fit::run".to_string(), true)];
    assert_eq!(check_achievable("fit::marathon", &defs, &progress), Ok(()));
    assert_eq!(check_achievable("fit::run", &defs, &Vec::new()), Ok(()));
}

#[test]
fn unmet_prerequisites_are_listed_in_order() {
    let defs = vec![def("fit::tri", &["fit::run", "fit::swim", "fit::bike"])];
    let progress = vec![
        ("fit::swim".to_string(), true),
        ("fit::bike".to_string(), false),
    ];
    assert_eq!(
        check_achievable("fit::tri", &defs, &progress),
        Err("Prerequisites not met: fit::run, fit::bike".to_string())
    );
}

#[test]
fn unknown_achievement_cannot_be_marked() {
    let defs = vec![def("fit::run", &[])];
    assert_eq!(
        check_achievable("fit::fly", &defs, &Vec::new()),
        Err("Achievement 'fit::fly' not found.".to_string())
    );
}

#[test]
fn pack_id_is_the_text_before_the_separator() {
    assert_eq!(achievement_pack_id("fit::run::fast"), "fit");
    assert_eq!(achievement_pack_id("plain"), "plain");
    assert_eq!(achievement_pack_id("::x"), "");
}

#[test]
fn cycle_report_names_an_achievement_on_the_cycle() {
    let defs = vec![def("p::c", &["p::a"]), def("p::a", &["p::b"]), def("p::b", &["p::a"])];
    let report = detect_cycle(&defs).unwrap();
    assert!(
        report == "prerequisite cycle detected involving 'p::a'"
            || report == "prerequisite cycle detected involving 'p::b'",
        "{report}"
    );
}
