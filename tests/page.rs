use objective_bank::api::{goal_area_descriptions, tag_names, CategorizedObjectiveType, NewGoalArea};
use objective_bank::catalog::{CategorizedObjective, GoalArea, Tag};
use objective_bank::types::{RegConfig, ENGLISH, SPANISH};

#[test]
fn reg_config_names_its_language() {
    assert_eq!(RegConfig(ENGLISH).to_string(), "English");
    assert_eq!(RegConfig(13063).to_string(), "Spanish");
    assert_eq!(RegConfig(SPANISH + 1).to_string(), "Unsupported Language");
    assert_eq!(RegConfig(0).to_string(), "Unsupported Language");
}

#[test]
fn page_lists_keep_store_order() {
    let gas = vec![
        GoalArea { id: 2, description: "Math".to_string() },
        GoalArea { id: 1, description: "Social".to_string() },
    ];
    assert_eq!(goal_area_descriptions(&gas), vec!["Math".to_string(), "Social".to_string()]);
    let tags = vec![Tag { id: 5, name: "social".to_string() }];
    assert_eq!(tag_names(&tags), vec!["social".to_string()]);
    assert!(tag_names(&vec![]).is_empty());
}

#[test]
fn result_type_copies_every_field() {
    let row = CategorizedObjective {
        id: 9,
        description: "greets peers".to_string(),
        goal_area_ids: vec![1, 4],
        tag_ids: vec![10],
    };
    let t = CategorizedObjectiveType::from_row(row);
    assert_eq!(t.id, 9);
    assert_eq!(t.description, "greets peers");
    assert_eq!(t.goal_area_ids, vec![1, 4]);
    assert_eq!(t.tag_ids, vec![10]);
    let n = NewGoalArea { description: "Health" };
    assert_eq!(n.description, "Health");
}
