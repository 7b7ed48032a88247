//! How a plan is kept in a file.
use g3::plan::schema::{Check, Checks, Plan, PlanError, PlanItem};
use g3::plan::storage::{
    extract_yaml_from_markdown, format_plan_as_markdown, get_plan_path, read_plan, write_plan,
};

fn plan() -> Plan {
    let check = Check::new("d", "t");
    let checks =
        Checks { happy: check.clone(), negative: vec![check.clone()], boundary: vec![check] };
    let mut plan = Plan::new("demo");
    plan.items.push(PlanItem::new("I1", "do", vec!["src".to_string()], checks));
    plan
}

#[test]
fn the_plan_of_a_session_has_its_place() {
    assert_eq!(get_plan_path("s-1"), ".g3/sessions/s-1/plan.g3.md");
    assert_ne!(get_plan_path("s-1"), get_plan_path("s-2"));
}

#[test]
fn the_file_holds_the_summary_and_the_yaml() {
    assert_eq!(
        format_plan_as_markdown(&plan(), Some("a: 1\n")),
        "# Plan: demo\n\n**Status**: Plan 'demo' rev 1 (NOT APPROVED): 0/1 done, 0 doing, 0 blocked, 1 todo\n\n## Plan Data\n\n```yaml\na: 1\n```\n"
    );
    assert!(format_plan_as_markdown(&plan(), None)
        .ends_with("```yaml\n# Error serializing plan```\n"));
}

#[test]
fn what_is_written_reads_back() {
    for yaml in ["a: 1\n", "", "a: |\n  ```\n  code\n  ```\nb: 2\n", "\n\na: '```yaml'\n\n"] {
        let file = write_plan("s", &plan(), Some(yaml)).unwrap();
        assert_eq!(file.path, ".g3/sessions/s/plan.g3.md");
        assert_eq!(read_plan(Some(&file.content)), Ok(Some(yaml.trim().to_string())));
    }
}

#[test]
fn real_yaml_reads_back() {
    let mut map = serde_yaml::Mapping::new();
    map.insert("notes".into(), "first\n```\nsecond\n```yaml\n".into());
    map.insert("plan_id".into(), "demo".into());
    let value = serde_yaml::Value::Mapping(map);
    let yaml = serde_yaml::to_string(&value).unwrap();
    let file = write_plan("s", &plan(), Some(&yaml)).unwrap();
    let read = read_plan(Some(&file.content)).unwrap().unwrap();
    assert_eq!(serde_yaml::from_str::<serde_yaml::Value>(&read).unwrap(), value);
}

#[test]
fn an_opening_fence_in_the_plan_id_hides_the_yaml() {
    let mut odd = plan();
    odd.plan_id = "x```yaml".to_string();
    let file = write_plan("s", &odd, Some("a: 1\n")).unwrap();
    assert_ne!(read_plan(Some(&file.content)), Ok(Some("a: 1".to_string())));
}

#[test]
fn only_a_valid_plan_is_kept() {
    assert_eq!(write_plan("s", &Plan::new("p"), Some("")).unwrap_err(), PlanError::NoItems);
}

#[test]
fn a_session_may_have_no_plan() {
    assert_eq!(read_plan(None), Ok(None));
}

#[test]
fn a_block_that_is_not_closed_is_no_block() {
    let text = "```yaml\na: 1\n ```";
    assert_eq!(extract_yaml_from_markdown(text).unwrap(), text);
    assert_eq!(extract_yaml_from_markdown("x ```yaml``` y").unwrap(), "x ```yaml``` y");
}
