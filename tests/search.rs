use objective_bank::api::{ObjectiveFilterInput, Query};
use objective_bank::catalog::{
    evaluate, search_for_objectives, Catalog, CategorizedObjective, GoalArea, Objective, Tag,
};
use objective_bank::plan::{compile_search, SearchPlan};

fn objective(id: i32, description: &str) -> Objective {
    Objective { id, description: description.to_string() }
}

fn tag(id: i32, name: &str) -> Tag {
    Tag { id, name: name.to_string() }
}

/// Record A (1): "greets peers", tag "social", goal area 1.
/// Record B (2): "counts objects", tag "math", goal area 2.
/// Record C (3): "unrelated", tag "social", goal area 3.
fn sample() -> Catalog {
    Catalog {
        objectives: vec![
            objective(1, "greets peers"),
            objective(2, "counts objects"),
            objective(3, "unrelated"),
        ],
        goal_areas: vec![
            GoalArea { id: 1, description: "Social".to_string() },
            GoalArea { id: 2, description: "Math".to_string() },
            GoalArea { id: 3, description: "Other".to_string() },
        ],
        tags: vec![tag(10, "social"), tag(20, "math")],
        objective_goal_areas: vec![(1, 1), (2, 2), (3, 3)],
        objective_tags: vec![(1, 10), (2, 20), (3, 10)],
    }
}

fn ab_only() -> Catalog {
    let mut c = sample();
    c.objectives.truncate(2);
    c.objective_goal_areas.truncate(2);
    c.objective_tags.truncate(2);
    c
}

fn ids(rows: &[CategorizedObjective]) -> Vec<i32> {
    rows.iter().map(|r| r.id).collect()
}

fn search(c: &Catalog, q: Option<&str>, goal_area_ids: Option<&str>) -> Vec<CategorizedObjective> {
    search_for_objectives(c, &q.map(|s| s.to_string()), &goal_area_ids.map(|s| s.to_string()))
}

fn sorted(v: &[i32]) -> Vec<i32> {
    let mut v = v.to_vec();
    v.sort();
    v
}

#[test]
fn phrase_matches_description_prefix() {
    assert_eq!(ids(&search(&ab_only(), Some("greet"), None)), vec![1]);
}

#[test]
fn goal_area_list_selects_members() {
    assert_eq!(ids(&search(&ab_only(), None, Some("2"))), vec![2]);
}

#[test]
fn empty_phrase_returns_nothing() {
    assert!(search(&ab_only(), Some(""), None).is_empty());
}

#[test]
fn empty_goal_area_list_returns_nothing() {
    assert!(search(&ab_only(), None, Some("")).is_empty());
}

#[test]
fn tag_name_widens_text_match() {
    assert_eq!(ids(&search(&sample(), Some("social"), None)), vec![1, 3]);
}

#[test]
fn no_filters_return_every_record() {
    let rows = search(&sample(), None, None);
    assert_eq!(ids(&rows), vec![1, 2, 3]);
    assert_eq!(rows[1].description, "counts objects");
}

#[test]
fn whitespace_phrase_returns_nothing_with_any_goal_areas() {
    assert!(search(&sample(), Some(" \t\n"), None).is_empty());
    assert!(search(&sample(), Some("   "), Some("1,2,3")).is_empty());
}

#[test]
fn invalid_goal_area_ids_do_not_widen() {
    assert!(search(&sample(), None, Some("abc")).is_empty());
    assert!(search(&sample(), Some("social"), Some("x,,y")).is_empty());
    assert_eq!(ids(&search(&sample(), None, Some("abc,3"))), vec![3]);
}

#[test]
fn goal_area_list_requires_intersection() {
    let rows = search(&sample(), None, Some("1,3,99"));
    assert_eq!(ids(&rows), vec![1, 3]);
    for r in &rows {
        assert!(r.goal_area_ids.iter().any(|g| *g == 1 || *g == 3));
    }
}

#[test]
fn phrase_and_goal_areas_combine() {
    assert_eq!(ids(&search(&sample(), Some("social"), Some("3"))), vec![3]);
    assert!(search(&sample(), Some("greet"), Some("2")).is_empty());
}

#[test]
fn any_token_may_match() {
    assert_eq!(ids(&search(&sample(), Some("zzz count"), None)), vec![2]);
    assert_eq!(ids(&search(&sample(), Some("unrel math"), None)), vec![2, 3]);
}

#[test]
fn prefix_must_start_a_word() {
    assert!(search(&sample(), Some("reets"), None).is_empty());
    assert_eq!(ids(&search(&sample(), Some("peer"), None)), vec![1]);
}

#[test]
fn rows_carry_every_linked_id() {
    let mut c = sample();
    c.objective_goal_areas.push((3, 1));
    c.objective_tags.push((3, 20));
    let rows = search(&c, Some("unrelated"), None);
    assert_eq!(ids(&rows), vec![3]);
    assert_eq!(sorted(&rows[0].goal_area_ids), vec![1, 3]);
    assert_eq!(sorted(&rows[0].tag_ids), vec![10, 20]);
    let rows = search(&c, None, Some("1"));
    assert_eq!(ids(&rows), vec![1, 3]);
    assert_eq!(sorted(&rows[1].tag_ids), vec![10, 20]);
}

#[test]
fn record_without_links_has_empty_sets() {
    let mut c = sample();
    c.objectives.push(objective(4, "lonely record"));
    let rows = search(&c, Some("lonely"), None);
    assert_eq!(ids(&rows), vec![4]);
    assert!(rows[0].goal_area_ids.is_empty());
    assert!(rows[0].tag_ids.is_empty());
    assert!(search(&c, Some("lonely"), Some("1,2,3")).is_empty());
}

#[test]
fn quote_injection_does_not_widen() {
    assert!(search(&sample(), Some("' OR 1=1 --"), None).is_empty());
}

#[test]
fn nothing_plan_evaluates_to_nothing() {
    assert!(evaluate(&sample(), &SearchPlan::Nothing).is_empty());
    let plan = compile_search(&Some(String::new()), &None);
    assert!(matches!(plan, SearchPlan::Nothing));
}

#[test]
fn query_objectives_take_structured_ids() {
    let c = sample();
    let filter = ObjectiveFilterInput { q: None, goal_area_ids: Some(vec![2, 3]) };
    let rows = Query::objectives(&c, &filter);
    assert_eq!(rows.iter().map(|r| r.id).collect::<Vec<_>>(), vec![2, 3]);
    assert_eq!(rows[0].tag_ids, vec![20]);
    let filter = ObjectiveFilterInput { q: Some("social".to_string()), goal_area_ids: Some(vec![]) };
    assert!(Query::objectives(&c, &filter).is_empty());
}

#[test]
fn query_lists_goal_areas_and_tags() {
    let c = sample();
    let gas = Query::goal_areas(&c);
    assert_eq!(gas.len(), 3);
    assert_eq!(gas[1].id, 2);
    assert_eq!(gas[1].description, "Math");
    let tags = Query::tags(&c);
    assert_eq!(tags.len(), 2);
    assert_eq!(tags[0].name, "social");
    assert_eq!(Query::apiVersion(), "1.0");
}
