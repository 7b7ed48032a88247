//! The approval gate.
use g3::plan::gate::{check_plan_approval_gate, get_dirty_files, ApprovalGateResult};
use g3::plan::schema::Plan;

fn names(list: &[&str]) -> Vec<String> {
    list.iter().map(|s| s.to_string()).collect()
}

fn no_plan() -> Result<Option<Plan>, String> {
    Ok(None)
}

#[test]
fn test_approval_gate_no_plan_no_changes() {
    let current = get_dirty_files(Some(""));
    let result = check_plan_approval_gate(true, &current, &names(&[]), &no_plan());
    assert!(matches!(result, ApprovalGateResult::Allowed));
}

#[test]
fn test_approval_gate_no_plan_with_changes() {
    let current = get_dirty_files(Some("?? new_file.txt\n"));
    let result = check_plan_approval_gate(true, &current, &names(&[]), &no_plan());
    assert!(matches!(result, ApprovalGateResult::Blocked { .. }));

    // Verify the blocking message mentions creating a plan
    if let ApprovalGateResult::Blocked { message } = result {
        assert!(message.contains("plan_write"));
    }
}

#[test]
fn test_approval_gate_not_git_repo() {
    let result = check_plan_approval_gate(false, &names(&[]), &names(&[]), &no_plan());
    assert!(matches!(result, ApprovalGateResult::NotGitRepo));
}

#[test]
fn test_approval_gate_excludes_baseline() {
    // Files in the baseline set should be excluded.
    let current = get_dirty_files(Some("?? pre_existing.txt\n"));
    let baseline = names(&["pre_existing.txt"]);
    let result = check_plan_approval_gate(true, &current, &baseline, &no_plan());
    // Only baseline files are dirty → should be Allowed
    assert!(matches!(result, ApprovalGateResult::Allowed));
}

#[test]
fn test_approval_gate_blocks_new_files_with_baseline() {
    // Baseline files are excluded, but new files should still trigger blocking.
    let current = get_dirty_files(Some("?? new_file.txt\n?? pre_existing.txt\n"));
    let baseline = names(&["pre_existing.txt"]);
    let result = check_plan_approval_gate(true, &current, &baseline, &no_plan());
    assert!(matches!(result, ApprovalGateResult::Blocked { .. }));

    if let ApprovalGateResult::Blocked { message } = result {
        // Should mention the new file but NOT the baseline file
        assert!(message.contains("new_file.txt"), "Should mention new file");
        assert!(!message.contains("pre_existing.txt"), "Should NOT mention baseline file");
    }
}

#[test]
fn test_get_dirty_files_returns_file_paths() {
    let dirty = get_dirty_files(Some("?? a.txt\n?? b.txt\n"));
    assert!(dirty.contains(&"a.txt".to_string()));
    assert!(dirty.contains(&"b.txt".to_string()));
    assert!(!dirty.contains(&"c.txt".to_string()));
}

#[test]
fn test_get_dirty_files_non_git_repo() {
    // Non-git directory should return empty set without error
    let dirty = get_dirty_files(None);
    assert!(dirty.is_empty());
}

#[test]
fn dirty_files_come_once_and_without_their_letters() {
    assert_eq!(
        get_dirty_files(Some(" M src/a.rs\nAM src/b.rs  \n?? src/a.rs\n!\n??\n???\nR  a -> b")),
        names(&["src/a.rs", "src/b.rs", "", "a -> b"])
    );
}

#[test]
fn the_message_without_a_plan() {
    let result = check_plan_approval_gate(true, &names(&["a", "b", "c"]), &names(&["b"]), &no_plan());
    match result {
        ApprovalGateResult::Blocked { message } => assert_eq!(
            message,
            "⚠️ IMPLEMENTATION BLOCKED\n\nFile changes detected without a plan:\n  - a\n  - c\n\nBefore implementing, you must:\n1. Create a plan with `plan_write`\n2. Get the plan approved by the user\n\nDo not attempt to implement until the plan is approved."
        ),
        other => panic!("{:?}", other),
    }
}

#[test]
fn the_message_without_an_approval() {
    let plan = Ok(Some(Plan::new("p")));
    match check_plan_approval_gate(true, &names(&["a"]), &names(&[]), &plan) {
        ApprovalGateResult::Blocked { message } => assert_eq!(
            message,
            "⚠️ IMPLEMENTATION BLOCKED\n\nFile changes detected without an approved plan:\n  - a\n\nBefore implementing, you must:\n1. Create a plan with `plan_write`\n2. Request the user's explicit approval or edits to plan\n\nDo not attempt to implement until the plan is approved."
        ),
        other => panic!("{:?}", other),
    }
    assert!(matches!(
        check_plan_approval_gate(true, &names(&[]), &names(&[]), &plan),
        ApprovalGateResult::Allowed
    ));
}

#[test]
fn an_approved_plan_is_never_blocked() {
    let mut plan = Plan::new("p");
    plan.approve();
    let plan = Ok(Some(plan));
    assert!(matches!(
        check_plan_approval_gate(true, &names(&["a"]), &names(&[]), &plan),
        ApprovalGateResult::Allowed
    ));
}

#[test]
fn a_plan_that_cannot_be_read_is_never_blocked() {
    let plan = Err("broken".to_string());
    assert!(matches!(
        check_plan_approval_gate(true, &names(&["a"]), &names(&[]), &plan),
        ApprovalGateResult::Allowed
    ));
}
