//! Plans, their evidence and how they are kept.
use g3::plan::evidence::{
    parse_evidence, verify_code_location, verify_test_reference, EvidenceType, FileProbe,
    VerificationStatus,
};
use g3::plan::schema::{Check, Checks, Plan, PlanItem, PlanState};
use g3::plan::storage::extract_yaml_from_markdown;

fn make_test_check() -> Check {
    Check::new("Test description", "test::target")
}

fn make_test_checks() -> Checks {
    Checks {
        happy: make_test_check(),
        negative: vec![make_test_check()],
        boundary: vec![make_test_check()],
    }
}

fn make_test_item(id: &str) -> PlanItem {
    PlanItem::new(
        id,
        "Test item description",
        vec!["src/test.rs".to_string()],
        make_test_checks(),
    )
}

#[test]
fn test_plan_state_display() {
    assert_eq!(PlanState::Todo.to_string(), "todo");
    assert_eq!(PlanState::Doing.to_string(), "doing");
    assert_eq!(PlanState::Done.to_string(), "done");
    assert_eq!(PlanState::Blocked.to_string(), "blocked");
}

#[test]
fn test_plan_state_from_str() {
    assert_eq!("todo".parse::<PlanState>().unwrap(), PlanState::Todo);
    assert_eq!("DOING".parse::<PlanState>().unwrap(), PlanState::Doing);
    assert_eq!("Done".parse::<PlanState>().unwrap(), PlanState::Done);
    assert!("invalid".parse::<PlanState>().is_err());
}

#[test]
fn test_check_validation() {
    let valid = Check::new("desc", "target");
    assert!(valid.validate().is_ok());

    let empty_desc = Check::new("", "target");
    assert!(empty_desc.validate().is_err());

    let empty_target = Check::new("desc", "");
    assert!(empty_target.validate().is_err());
}

#[test]
fn test_checks_validation_multiple_negative_and_boundary() {
    // Multiple negative and boundary checks should validate
    let checks = Checks {
        happy: make_test_check(),
        negative: vec![
            Check::new("Invalid input", "parse::input"),
            Check::new("Missing file", "io::read"),
            Check::new("Network error", "net::connect"),
        ],
        boundary: vec![
            Check::new("Empty input", "parse::input"),
            Check::new("Max size input", "parse::input"),
        ],
    };
    assert!(checks.validate().is_ok());
}

#[test]
fn test_checks_validation_empty_negative_fails() {
    let checks = Checks {
        happy: make_test_check(),
        negative: vec![],  // Empty - should fail
        boundary: vec![make_test_check()],
    };
    let err = checks.validate().unwrap_err();
    assert!(err.to_string().contains("at least one negative check"));
}

#[test]
fn test_checks_validation_empty_boundary_fails() {
    let checks = Checks {
        happy: make_test_check(),
        negative: vec![make_test_check()],
        boundary: vec![],  // Empty - should fail
    };
    let err = checks.validate().unwrap_err();
    assert!(err.to_string().contains("at least one boundary check"));
}

#[test]
fn test_checks_validation_single_of_each_passes() {
    // Minimum case: exactly 1 of each
    let checks = make_test_checks();
    assert!(checks.validate().is_ok());
    assert_eq!(checks.negative.len(), 1);
    assert_eq!(checks.boundary.len(), 1);
}

#[test]
fn test_plan_item_validation() {
    let item = make_test_item("I1");
    assert!(item.validate().is_ok());

    // Done item without evidence should fail
    let mut done_item = make_test_item("I2");
    done_item.state = PlanState::Done;
    assert!(done_item.validate().is_err());

    // Done item with evidence but no notes should fail
    done_item.evidence = vec!["src/test.rs:42".to_string()];
    assert!(done_item.validate().is_err());

    // Done item with evidence and notes should pass
    done_item.notes = Some("Implementation notes".to_string());
    assert!(done_item.validate().is_ok());
}

#[test]
fn test_plan_validation() {
    let mut plan = Plan::new("test-plan");
    
    // Empty plan should fail
    assert!(plan.validate().is_err());

    // Plan with item should pass
    plan.items.push(make_test_item("I1"));
    assert!(plan.validate().is_ok());

    // Duplicate IDs should fail
    plan.items.push(make_test_item("I1"));
    assert!(plan.validate().is_err());
}

#[test]
fn test_plan_is_complete() {
    let mut plan = Plan::new("test");
    plan.items.push(make_test_item("I1"));
    plan.items.push(make_test_item("I2"));

    assert!(!plan.is_complete());

    plan.items[0].state = PlanState::Done;
    plan.items[0].evidence = vec!["test".to_string()];
    plan.items[0].notes = Some("notes".to_string());
    assert!(!plan.is_complete());

    plan.items[1].state = PlanState::Blocked;
    assert!(plan.is_complete());
}

#[test]
fn test_plan_approval() {
    let mut plan = Plan::new("test");
    plan.items.push(make_test_item("I1"));

    assert!(!plan.is_approved());
    assert_eq!(plan.approved_revision, None);

    plan.approve();
    assert!(plan.is_approved());
    assert_eq!(plan.approved_revision, Some(1));
}

#[test]
fn test_yaml_extraction() {
    let md = r#"# Plan: test

**Status**: ...

## Plan Data

```yaml
plan_id: test
revision: 1
items: []
```
"#;

    let yaml = extract_yaml_from_markdown(md).unwrap();
    assert!(yaml.contains("plan_id: test"));
}

#[test]
fn test_yaml_extraction_with_backticks_in_values() {
    // This is the exact bug: YAML values containing ``` caused
    // extract_yaml_from_markdown to truncate at the embedded backticks
    // instead of finding the real closing fence.
    let md = "# Plan: test\n\n## Plan Data\n\n\
```yaml\n\
plan_id: test\n\
revision: 1\n\
items:\n\
  - id: I1\n\
description: 'Fix the ```yaml parsing issue with ```'\n\
state: todo\n\
touches:\n\
  - src/plan.rs\n\
checks:\n\
  happy:\n\
    desc: Works\n\
    target: plan\n\
  negative:\n\
    - desc: Fails gracefully\n\
      target: plan\n\
  boundary:\n\
    - desc: Edge case\n\
      target: plan\n\
```\n";

    let yaml = extract_yaml_from_markdown(md).unwrap();
    // Must contain the full YAML, not truncated at the embedded backticks
    assert!(yaml.contains("plan_id: test"), "should contain plan_id");
    assert!(yaml.contains("description:"), "should contain description field");
    assert!(yaml.contains("state: todo"), "should contain state field");
    assert!(yaml.contains("checks:"), "should contain checks");
}

#[test]
fn test_yaml_extraction_no_code_block_fallback() {
    let raw_yaml = "plan_id: test\nrevision: 1\nitems: []\n";
    let yaml = extract_yaml_from_markdown(raw_yaml).unwrap();
    assert_eq!(yaml, raw_yaml);
}

#[test]
fn test_yaml_extraction_closing_fence_no_trailing_newline() {
    let md = "```yaml\nplan_id: test\nrevision: 1\nitems: []\n```";
    let yaml = extract_yaml_from_markdown(md).unwrap();
    assert!(yaml.contains("plan_id: test"));
}

// ========================================================================
// Evidence Parsing Tests
// ========================================================================

#[test]
fn test_parse_evidence_code_location_with_line_range() {
    let evidence = "src/foo.rs:42-118";
    match parse_evidence(evidence) {
        EvidenceType::CodeLocation { file_path, start_line, end_line } => {
            assert_eq!(file_path, "src/foo.rs");
            assert_eq!(start_line, Some(42));
            assert_eq!(end_line, Some(118));
        }
        _ => panic!("Expected CodeLocation"),
    }
}

#[test]
fn test_parse_evidence_code_location_single_line() {
    let evidence = "src/bar.rs:99";
    match parse_evidence(evidence) {
        EvidenceType::CodeLocation { file_path, start_line, end_line } => {
            assert_eq!(file_path, "src/bar.rs");
            assert_eq!(start_line, Some(99));
            assert_eq!(end_line, None);
        }
        _ => panic!("Expected CodeLocation"),
    }
}

#[test]
fn test_parse_evidence_code_location_file_only() {
    let evidence = "src/lib.rs";
    match parse_evidence(evidence) {
        EvidenceType::CodeLocation { file_path, start_line, end_line } => {
            assert_eq!(file_path, "src/lib.rs");
            assert_eq!(start_line, None);
            assert_eq!(end_line, None);
        }
        _ => panic!("Expected CodeLocation"),
    }
}

#[test]
fn test_parse_evidence_test_reference() {
    let evidence = "tests/integration.rs::test_happy_path";
    match parse_evidence(evidence) {
        EvidenceType::TestReference { file_path, test_name } => {
            assert_eq!(file_path, "tests/integration.rs");
            assert_eq!(test_name, "test_happy_path");
        }
        _ => panic!("Expected TestReference"),
    }
}

#[test]
fn test_parse_evidence_unknown_format() {
    let evidence = "some random text";
    match parse_evidence(evidence) {
        EvidenceType::Unknown(s) => {
            assert_eq!(s, "some random text");
        }
        _ => panic!("Expected Unknown"),
    }
}

#[test]
fn test_parse_evidence_whitespace_trimmed() {
    let evidence = "  src/foo.rs:42  ";
    match parse_evidence(evidence) {
        EvidenceType::CodeLocation { file_path, start_line, .. } => {
            assert_eq!(file_path, "src/foo.rs");
            assert_eq!(start_line, Some(42));
        }
        _ => panic!("Expected CodeLocation"),
    }
}

// ========================================================================
// Verification Tests
// ========================================================================

#[test]
fn test_verify_code_location_file_exists() {
    let status = verify_code_location("Cargo.toml", None, None, &FileProbe::Present);
    assert!(matches!(status, VerificationStatus::Verified));
}

#[test]
fn test_verify_code_location_file_not_found() {
    let status = verify_code_location("nonexistent_file_xyz.rs", None, None, &FileProbe::Missing);
    match status {
        VerificationStatus::Error(msg) => {
            assert!(msg.contains("not found"));
        }
        _ => panic!("Expected Error"),
    }
}

#[test]
fn test_verify_code_location_line_out_of_range() {
    let status = verify_code_location(
        "Cargo.toml",
        Some(1),
        Some(999999),
        &FileProbe::Text("[package]\nname = \"g3\"\n".to_string()),
    );
    match status {
        VerificationStatus::Warning(msg) => {
            assert!(msg.contains("exceeds file length"));
        }
        _ => panic!("Expected Warning, got {:?}", status),
    }
}

#[test]
fn test_verify_test_reference_file_not_found() {
    let status = verify_test_reference("nonexistent_test.rs", "test_foo", &FileProbe::Missing);
    match status {
        VerificationStatus::Error(msg) => {
            assert!(msg.contains("not found"));
        }
        _ => panic!("Expected Error"),
    }
}

#[test]
fn test_verification_status_helpers() {
    assert!(VerificationStatus::Verified.is_ok());
    assert!(VerificationStatus::Skipped("reason".to_string()).is_ok());
    assert!(!VerificationStatus::Warning("warn".to_string()).is_ok());
    assert!(!VerificationStatus::Error("err".to_string()).is_ok());

    assert!(!VerificationStatus::Verified.is_warning_or_error());
    assert!(VerificationStatus::Warning("warn".to_string()).is_warning_or_error());
    assert!(VerificationStatus::Error("err".to_string()).is_warning_or_error());
}
