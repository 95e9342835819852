use arcana::commands::achievement_commands::{AchievementAvailability, AchievementCommands, SetAchievementState};
use arcana::commands::skill_commands::{QuerySkills, SkillCommands};
use arcana::pack::{
    AchievementDefinition, AchievementDifficulty, AchievementFile, Pack, PackManifest, SkillDefinition,
    SkillFile, SkillNode, SCHEMA_VERSION,
};
use arcana::repository::Repository;
use arcana::standard_packs::basic_pack;
use arcana::state::AchievementStatus;

fn skill_pack() -> Pack {
    Pack {
        manifest: PackManifest {
            schema_version: SCHEMA_VERSION,
            id: "cooking".to_string(),
            name: "Cooking".to_string(),
            description: None,
            author: None,
            parent_pack_id: None,
            tags: Vec::new(),
        },
        record_definitions: None,
        dimensions: None,
        achievements: Some(AchievementFile {
            achievements: vec![
                AchievementDefinition {
                    id: "cooking::first_dish".to_string(),
                    name: "First dish".to_string(),
                    description: "Cook one dish".to_string(),
                    difficulty: AchievementDifficulty::Beginner,
                    tags: Vec::new(),
                    prerequisites: Vec::new(),
                    related_record_definition_ids: Vec::new(),
                    tip: None,
                },
                AchievementDefinition {
                    id: "cooking::host_dinner".to_string(),
                    name: "Host dinner".to_string(),
                    description: "Host a dinner".to_string(),
                    difficulty: AchievementDifficulty::Intermediate,
                    tags: Vec::new(),
                    prerequisites: vec!["cooking::first_dish".to_string()],
                    related_record_definition_ids: Vec::new(),
                    tip: None,
                },
            ],
        }),
        skills: Some(SkillFile {
            skills: vec![SkillDefinition {
                id: "cooking::general".to_string(),
                name: "Cooking".to_string(),
                description: None,
                level_thresholds: [10, 20, 30, 40],
                nodes: vec![
                    SkillNode {
                        achievement_id: "cooking::first_dish".to_string(),
                        points: 15,
                    },
                    SkillNode {
                        achievement_id: "cooking::host_dinner".to_string(),
                        points: 25,
                    },
                ],
                card_image: None,
            }],
        }),
        derived_values: None,
        assets: Vec::new(),
    }
}

fn repository() -> Repository {
    let mut repository = Repository::new();
    repository.put_pack(basic_pack()).unwrap();
    repository.set_pack_enabled("basic", true).unwrap();
    repository.put_pack(skill_pack()).unwrap();
    repository.set_pack_enabled("cooking", true).unwrap();
    repository
}

#[test]
fn list_derives_node_availability_points_and_level() {
    let mut repository = repository();
    let initial = SkillCommands::new(&mut repository)
        .list(QuerySkills::default())
        .unwrap();
    assert_eq!(initial.len(), 1);
    assert_eq!(initial[0].points, 0);
    assert_eq!(initial[0].level, 0);
    assert_eq!(initial[0].nodes[0].availability, AchievementAvailability::Available);
    assert_eq!(initial[0].nodes[1].availability, AchievementAvailability::Locked);

    AchievementCommands::new(&mut repository)
        .set_state(SetAchievementState {
            achievement_id: "cooking::first_dish".to_string(),
            status: AchievementStatus::Tracking,
            achieved_at: None,
        })
        .unwrap();
    let tracking = SkillCommands::new(&mut repository)
        .list(QuerySkills::default())
        .unwrap();
    assert_eq!(tracking[0].points, 0);
    assert_eq!(tracking[0].nodes[0].availability, AchievementAvailability::Tracking);

    AchievementCommands::new(&mut repository)
        .set_state(SetAchievementState {
            achievement_id: "cooking::first_dish".to_string(),
            status: AchievementStatus::Achieved,
            achieved_at: None,
        })
        .unwrap();
    let achieved = SkillCommands::new(&mut repository)
        .list(QuerySkills::default())
        .unwrap();
    assert_eq!(achieved[0].points, 15);
    assert_eq!(achieved[0].level, 2);
    assert_eq!(achieved[0].achieved_node_count, 1);
    assert_eq!(achieved[0].nodes[1].availability, AchievementAvailability::Available);
    assert_eq!(achieved[0].max_points, 40);
    assert_eq!(achieved[0].node_count, 2);
}

#[test]
fn filters_enabled_skills_and_disabled_pack_disappears() {
    let mut repository = repository();
    let matching = SkillCommands::new(&mut repository)
        .list(QuerySkills {
            skill_id: Some("cooking::general".to_string()),
            pack_id: Some("cooking".to_string()),
        })
        .unwrap();
    assert_eq!(matching.len(), 1);
    let missing = SkillCommands::new(&mut repository)
        .list(QuerySkills {
            skill_id: Some("cooking::missing".to_string()),
            pack_id: None,
        })
        .unwrap();
    assert!(missing.is_empty());

    repository.set_pack_enabled("cooking", false).unwrap();
    assert!(SkillCommands::new(&mut repository)
        .list(QuerySkills::default())
        .unwrap()
        .is_empty());
}
