//! The rules that a plan has to keep, and what each broken rule is called.
use g3::plan::schema::{
    Check, CheckError, Checks, ChecksError, InvalidPlanState, ItemError, Plan, PlanError, PlanItem,
    PlanState,
};

fn check() -> Check {
    Check::new("it works", "lib::run")
}

fn checks() -> Checks {
    Checks { happy: check(), negative: vec![check()], boundary: vec![check()] }
}

fn item(id: &str) -> PlanItem {
    PlanItem::new(id, "do it", vec!["src/lib.rs".to_string()], checks())
}

fn plan(ids: &[&str]) -> Plan {
    let mut plan = Plan::new("p");
    for id in ids {
        plan.items.push(item(id));
    }
    plan
}

#[test]
fn a_state_reads_back_in_any_case() {
    for state in [PlanState::Todo, PlanState::Doing, PlanState::Done, PlanState::Blocked] {
        assert_eq!(PlanState::parse(&state.to_string()), Ok(state));
        assert_eq!(PlanState::parse(&state.to_string().to_uppercase()), Ok(state));
    }
    assert_eq!(PlanState::default(), PlanState::Todo);
    assert_eq!(PlanState::from_word("done"), Some(PlanState::Done));
    assert_eq!(PlanState::from_word("DONE"), None);
}

#[test]
fn the_lower_case_of_a_state_goes_by_unicode() {
    // The Kelvin sign is a capital letter whose lower case is an ordinary k.
    assert_eq!(PlanState::parse("bloc\u{212A}ed"), Ok(PlanState::Blocked));
}

#[test]
fn an_unknown_state_is_named() {
    let e = PlanState::parse("Finished").unwrap_err();
    assert_eq!(e, InvalidPlanState { text: "Finished".to_string() });
    assert_eq!(e.to_string(), "Invalid plan state: Finished");
}

#[test]
fn an_empty_check_is_refused() {
    assert_eq!(Check::new(" \t", "t").validate(), Err(CheckError::EmptyDescription));
    assert_eq!(Check::new("d", "\n").validate(), Err(CheckError::EmptyTarget));
    assert_eq!(Check::default().validate(), Err(CheckError::EmptyDescription));
    assert_eq!(CheckError::EmptyDescription.to_string(), "Check description cannot be empty");
    assert_eq!(CheckError::EmptyTarget.to_string(), "Check target cannot be empty");
}

#[test]
fn the_first_bad_check_is_named() {
    let mut c = checks();
    c.negative.push(Check::new("", "t"));
    c.boundary.clear();
    assert_eq!(c.validate(), Err(ChecksError::Negative(1, CheckError::EmptyDescription)));
    assert_eq!(
        c.validate().unwrap_err().to_string(),
        "negative check [1]: Check description cannot be empty"
    );
    c.negative.pop();
    assert_eq!(c.validate(), Err(ChecksError::NoBoundary));
    c.boundary = vec![check(), check(), Check::new("d", "")];
    assert_eq!(c.validate(), Err(ChecksError::Boundary(2, CheckError::EmptyTarget)));
    assert_eq!(
        c.validate().unwrap_err().to_string(),
        "boundary check [2]: Check target cannot be empty"
    );
    c.happy = Check::new("d", " ");
    assert_eq!(
        c.validate().unwrap_err().to_string(),
        "happy check: Check target cannot be empty"
    );
    assert_eq!(Checks::default().validate(), Err(ChecksError::Happy(CheckError::EmptyDescription)));
    assert_eq!(
        ChecksError::NoNegative.to_string(),
        "at least one negative check is required"
    );
}

#[test]
fn each_rule_for_an_item_has_its_error() {
    let mut i = item("I1");
    i.id = "  ".to_string();
    assert_eq!(i.validate(), Err(ItemError::EmptyId));
    assert_eq!(ItemError::EmptyId.to_string(), "Item id cannot be empty");
    let mut i = item("I1");
    i.description = String::new();
    assert_eq!(i.validate(), Err(ItemError::EmptyDescription));
    assert_eq!(ItemError::EmptyDescription.to_string(), "Item description cannot be empty");
    let mut i = item("I1");
    i.touches.clear();
    assert_eq!(i.validate(), Err(ItemError::NoTouches));
    assert_eq!(
        ItemError::NoTouches.to_string(),
        "Item must specify at least one path/module in 'touches'"
    );
    let mut i = item("I1");
    i.checks.negative.clear();
    assert_eq!(
        i.validate().unwrap_err().to_string(),
        "Item 'I1': at least one negative check is required"
    );
    let mut i = item("I1");
    i.state = PlanState::Done;
    assert_eq!(
        i.validate().unwrap_err().to_string(),
        "Item 'I1' is marked done but has no evidence"
    );
    i.evidence.push("src/lib.rs:1".to_string());
    i.notes = Some("  ".to_string());
    assert_eq!(
        i.validate().unwrap_err().to_string(),
        "Item 'I1' is marked done but has no notes"
    );
    i.notes = Some("n".to_string());
    assert_eq!(i.validate(), Ok(()));
    i.state = PlanState::Blocked;
    i.evidence.clear();
    i.notes = None;
    assert_eq!(i.validate(), Ok(()));
    assert!(i.is_terminal());
    assert!(!item("I2").is_terminal());
}

#[test]
fn each_rule_for_a_plan_has_its_error() {
    let mut p = plan(&["I1"]);
    p.plan_id = " ".to_string();
    assert_eq!(p.validate(), Err(PlanError::EmptyPlanId));
    assert_eq!(PlanError::EmptyPlanId.to_string(), "Plan ID cannot be empty");
    assert_eq!(plan(&[]).validate(), Err(PlanError::NoItems));
    assert_eq!(PlanError::NoItems.to_string(), "Plan must have at least one item");
    let e = plan(&["I1", "I2", "I1"]).validate().unwrap_err();
    assert_eq!(e, PlanError::DuplicateId("I1".to_string()));
    assert_eq!(e.to_string(), "Duplicate item ID: I1");
    let mut p = plan(&["I1", "I2"]);
    p.items[1].touches.clear();
    assert_eq!(p.validate(), Err(PlanError::Item(ItemError::NoTouches)));
    // An item that is wrong comes before a later item that repeats an id.
    let mut p = plan(&["I1", "I2", "I1"]);
    p.items[1].touches.clear();
    assert_eq!(p.validate(), Err(PlanError::Item(ItemError::NoTouches)));
}

#[test]
fn the_summary_counts_the_items_in_each_state() {
    let mut p = plan(&["a", "b", "c", "d", "e"]);
    p.items[0].state = PlanState::Done;
    p.items[1].state = PlanState::Doing;
    p.items[2].state = PlanState::Blocked;
    assert_eq!(
        p.status_summary(),
        "Plan 'p' rev 1 (NOT APPROVED): 1/5 done, 1 doing, 1 blocked, 2 todo"
    );
    p.revision = 12;
    p.approve();
    p.revision = 13;
    assert_eq!(
        p.status_summary(),
        "Plan 'p' rev 13 (approved at rev 12): 1/5 done, 1 doing, 1 blocked, 2 todo"
    );
}

#[test]
fn approving_changes_nothing_but_the_approval() {
    let mut p = plan(&["a"]);
    p.revision = 4;
    let valid = p.validate();
    let complete = p.is_complete();
    p.approve();
    assert_eq!(p.approved_revision, Some(4));
    assert_eq!(p.validate(), valid);
    assert_eq!(p.is_complete(), complete);
    assert_eq!(p.revision, 4);
}

#[test]
fn a_plan_without_items_is_not_complete() {
    assert!(!plan(&[]).is_complete());
}
