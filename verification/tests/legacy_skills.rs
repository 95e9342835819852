use arcana::legacy_skills::{
    evaluate_pack_skills, evaluate_skill, skill_fits_counters_exec, skill_progress, LevelThreshold, Skill,
    SkillNode,
};

fn names(items: &[&str]) -> Vec<String> {
    items.iter().map(|s| s.to_string()).collect()
}

fn threshold(level: u32, points: u32, keys: &[&str]) -> LevelThreshold {
    LevelThreshold {
        level,
        points_required: points,
        required_key_achievements: names(keys),
    }
}

fn node(id: &str, achievement: &str, points: u32) -> SkillNode {
    SkillNode {
        node_id: id.to_string(),
        achievement_id: achievement.to_string(),
        points,
    }
}

fn cooking_skill() -> Skill {
    Skill {
        id: "cooking::kitchen".to_string(),
        max_level: 3,
        level_thresholds: vec![
            threshold(1, 10, &[]),
            threshold(2, 20, &["cooking::host"]),
            threshold(3, 40, &[]),
        ],
        nodes: vec![
            node("a", "cooking::first", 10),
            node("b", "cooking::host", 15),
            node("c", "cooking::feast", 20),
        ],
    }
}

fn pack_achievements() -> Vec<String> {
    names(&["cooking::first", "cooking::host", "cooking::feast"])
}

#[test]
fn level_needs_points_and_every_key_so_far() {
    let unlocked = names(&["cooking::first", "cooking::feast"]);
    let result = evaluate_skill("cooking", "Cooking", &pack_achievements(), &unlocked, cooking_skill()).unwrap();
    assert_eq!(result.current_points, 30);
    assert_eq!(result.max_points, 45);
    assert_eq!(result.current_level, 1);
    assert_eq!(result.next_threshold.unwrap().level, 2);
    assert_eq!(result.pack_name, "Cooking");

    let all = pack_achievements();
    let result = evaluate_skill("cooking", "Cooking", &pack_achievements(), &all, cooking_skill()).unwrap();
    assert_eq!(result.current_level, 3);
    assert_eq!(result.next_threshold, None);

    let none: Vec<String> = Vec::new();
    let result = evaluate_skill("cooking", "Cooking", &pack_achievements(), &none, cooking_skill()).unwrap();
    assert_eq!(result.current_level, 0);
    assert_eq!(result.current_points, 0);
}

#[test]
fn skills_are_checked_against_their_pack() {
    let none: Vec<String> = Vec::new();
    let mut wrong_prefix = cooking_skill();
    wrong_prefix.id = "baking::bread".to_string();
    assert_eq!(
        evaluate_skill("cooking", "Cooking", &pack_achievements(), &none, wrong_prefix).unwrap_err(),
        "Skill 'baking::bread' in pack 'cooking' must start with 'cooking::'"
    );

    let mut wrong_count = cooking_skill();
    wrong_count.max_level = 4;
    assert_eq!(
        evaluate_skill("cooking", "Cooking", &pack_achievements(), &none, wrong_count).unwrap_err(),
        "Skill 'cooking::kitchen': level_thresholds count (3) != max_level (4)"
    );

    let mut flat = cooking_skill();
    flat.level_thresholds[2].points_required = 20;
    assert_eq!(
        evaluate_skill("cooking", "Cooking", &pack_achievements(), &none, flat).unwrap_err(),
        "Skill 'cooking::kitchen': level_thresholds points_required not monotonically increasing (20 >= 20)"
    );

    let mut duplicate = cooking_skill();
    duplicate.nodes[2].node_id = "a".to_string();
    assert_eq!(
        evaluate_skill("cooking", "Cooking", &pack_achievements(), &none, duplicate).unwrap_err(),
        "Skill 'cooking::kitchen': duplicate node_id 'a'"
    );

    let mut unknown = cooking_skill();
    unknown.nodes[1].achievement_id = "cooking::missing".to_string();
    assert_eq!(
        evaluate_skill("cooking", "Cooking", &pack_achievements(), &none, unknown).unwrap_err(),
        "Skill 'cooking::kitchen': node 'b' references unknown achievement 'cooking::missing'"
    );

    let mut missing_key = cooking_skill();
    missing_key.level_thresholds[2].required_key_achievements = names(&["cooking::gone"]);
    assert_eq!(
        evaluate_skill("cooking", "Cooking", &pack_achievements(), &none, missing_key).unwrap_err(),
        "Skill 'cooking::kitchen': level 3 required_key_achievement 'cooking::gone' not found"
    );
}

#[test]
fn a_refused_skill_refuses_its_pack() {
    let none: Vec<String> = Vec::new();
    let mut bad = cooking_skill();
    bad.id = "other::x".to_string();
    let error = evaluate_pack_skills(
        "cooking",
        "Cooking",
        &pack_achievements(),
        &none,
        vec![cooking_skill(), bad],
    )
    .unwrap_err();
    assert!(error.starts_with("Skill 'other::x'"));
    let ok = evaluate_pack_skills("cooking", "Cooking", &pack_achievements(), &none, vec![cooking_skill()]).unwrap();
    assert_eq!(ok.len(), 1);
}

#[test]
fn progress_counts_unlocked_points_and_stops_at_the_first_unmet_threshold() {
    let skill = cooking_skill();
    assert_eq!(skill_progress(&skill, &names(&[])), (0, 45, 0));
    assert_eq!(skill_progress(&skill, &names(&["cooking::first", "cooking::feast"])), (30, 45, 1));
    assert_eq!(skill_progress(&skill, &names(&["cooking::first", "cooking::host"])), (25, 45, 2));
    assert_eq!(skill_progress(&skill, &pack_achievements()), (45, 45, 3));
}

#[test]
fn counters_fit_unless_points_or_levels_overflow() {
    assert!(skill_fits_counters_exec(&cooking_skill(), &names(&[])));
    let mut heavy = cooking_skill();
    heavy.nodes = vec![node("a", "cooking::a", u32::MAX), node("b", "cooking::b", 1)];
    assert!(!skill_fits_counters_exec(&heavy, &names(&[])));
    heavy.nodes = vec![node("a", "cooking::a", u32::MAX)];
    assert!(skill_fits_counters_exec(&heavy, &names(&[])));
    let mut tall = cooking_skill();
    tall.level_thresholds.push(threshold(u32::MAX, 100, &[]));
    assert!(!skill_fits_counters_exec(&tall, &names(&[])));
}
