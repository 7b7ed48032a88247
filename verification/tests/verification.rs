//! Evidence: what it refers to, whether it holds up, and the report on it.
use g3::plan::evidence::{
    parse_evidence, parse_line_range, probe_request, resolve_path, verify_code_location,
    verify_single_evidence, verify_test_reference, EvidenceType, EvidenceVerification, FileProbe,
    ProbeRequest, VerificationStatus,
};
use g3::plan::report::{format_verification_results, EnvelopeFile};
use g3::plan::schema::{Check, Checks, Plan, PlanItem, PlanState};
use g3::plan::verification::{
    plan_probe_requests, plan_verify, ItemVerification, PlanVerification,
};

fn location(path: &str, start: Option<u32>, end: Option<u32>) -> EvidenceType {
    EvidenceType::CodeLocation { file_path: path.to_string(), start_line: start, end_line: end }
}

fn message(status: &VerificationStatus) -> String {
    match status {
        VerificationStatus::Verified => String::new(),
        VerificationStatus::Warning(m) => format!("W {}", m),
        VerificationStatus::Error(m) => format!("E {}", m),
        VerificationStatus::Skipped(m) => format!("S {}", m),
    }
}

fn text(s: &str) -> FileProbe {
    FileProbe::Text(s.to_string())
}

fn item(id: &str, state: PlanState, evidence: &[&str]) -> PlanItem {
    let check = Check::new("d", "t");
    let checks =
        Checks { happy: check.clone(), negative: vec![check.clone()], boundary: vec![check] };
    let mut item = PlanItem::new(id, format!("about {}", id), vec!["src".to_string()], checks);
    item.state = state;
    item.evidence = evidence.iter().map(|e| e.to_string()).collect();
    item.notes = Some("n".to_string());
    item
}

#[test]
fn a_location_reads_back_as_it_was_written() {
    assert_eq!(parse_evidence("a/b.rs:7"), location("a/b.rs", Some(7), None));
    assert_eq!(parse_evidence("a/b.rs:7-9"), location("a/b.rs", Some(7), Some(9)));
    assert_eq!(parse_evidence("\t a/b.rs:7-9 \n"), location("a/b.rs", Some(7), Some(9)));
    assert_eq!(parse_evidence("\u{3000}a/b.rs::c\u{2003}"), parse_evidence("a/b.rs::c"));
    assert_eq!(parse_evidence("C:\\x.rs:3"), location("C:\\x.rs", Some(3), None));
    assert_eq!(parse_evidence("x:1:2"), location("x:1", Some(2), None));
    assert_eq!(parse_evidence(":5"), location("", Some(5), None));
    assert_eq!(parse_evidence("Makefile:+5"), location("Makefile", Some(5), None));
}

#[test]
fn what_is_no_line_range_stays_in_the_path() {
    assert_eq!(parse_evidence("a/b.rs:7-"), location("a/b.rs:7-", None, None));
    assert_eq!(parse_evidence("a/b.rs:1-2-3"), location("a/b.rs:1-2-3", None, None));
    assert_eq!(parse_evidence("a.rs:4294967296"), location("a.rs:4294967296", None, None));
    assert_eq!(parse_evidence("note: fine"), EvidenceType::Unknown("note: fine".to_string()));
    assert_eq!(parse_evidence(""), EvidenceType::Unknown(String::new()));
    assert_eq!(parse_line_range("4-2"), Some((4, Some(2))));
    assert_eq!(parse_line_range("-2"), None);
    assert_eq!(parse_line_range(""), None);
}

#[test]
fn a_double_colon_makes_a_test_reference() {
    assert_eq!(
        parse_evidence("tests/a.rs::mod_a::test_b"),
        EvidenceType::TestReference {
            file_path: "tests/a.rs".to_string(),
            test_name: "mod_a::test_b".to_string(),
        }
    );
    assert_eq!(
        parse_evidence("::x:3"),
        EvidenceType::TestReference { file_path: String::new(), test_name: "x:3".to_string() }
    );
}

#[test]
fn only_what_is_needed_is_looked_up() {
    assert_eq!(probe_request("src/a.rs"), ProbeRequest::Existence("src/a.rs".to_string()));
    assert_eq!(probe_request("src/a.rs:1"), ProbeRequest::Contents("src/a.rs".to_string()));
    assert_eq!(probe_request("t.rs::x"), ProbeRequest::Contents("t.rs".to_string()));
    assert_eq!(probe_request("hello"), ProbeRequest::Nothing);
}

#[test]
fn a_path_is_looked_for_below_the_working_directory() {
    assert_eq!(resolve_path("src/a.rs", false, Some("/w")), "/w/src/a.rs");
    assert_eq!(resolve_path("src/a.rs", false, Some("/w/")), "/w/src/a.rs");
    assert_eq!(resolve_path("src/a.rs", false, Some("")), "src/a.rs");
    assert_eq!(resolve_path("", false, Some("w")), "w/");
    assert_eq!(resolve_path("src/a.rs", false, None), "src/a.rs");
    assert_eq!(resolve_path("/a.rs", true, Some("/w")), "/a.rs");
    for dir in ["/w", "/w/", "", "w/x"] {
        for file in ["a", "a/b.rs", "../c", ""] {
            let expected = std::path::PathBuf::from(dir).join(file);
            assert_eq!(resolve_path(file, false, Some(dir)), expected.to_str().unwrap());
        }
    }
}

#[test]
fn a_location_holds_up_within_the_file() {
    let three = text("a\nb\nc");
    assert_eq!(message(&verify_code_location("f.rs", Some(3), None, &three)), "");
    assert_eq!(
        message(&verify_code_location("f.rs", Some(9), Some(3), &three)),
        "W Line 9 exceeds file length (3 lines) in f.rs"
    );
    assert_eq!(
        message(&verify_code_location("f.rs", Some(9), Some(8), &three)),
        "W Line 8 exceeds file length (3 lines) in f.rs"
    );
    assert_eq!(message(&verify_code_location("f.rs", Some(3), Some(1), &three)), "");
    for (start, end) in [(0, None), (0, Some(2)), (2, Some(0)), (0, Some(0))] {
        assert_eq!(
            message(&verify_code_location("f.rs", Some(start), end, &three)),
            "W Line 0 does not exist (lines start at 1) in f.rs"
        );
    }
    assert_eq!(
        message(&verify_code_location("f.rs", Some(0), Some(9), &three)),
        "W Line 9 exceeds file length (3 lines) in f.rs"
    );
    assert_eq!(
        message(&verify_code_location("f.rs", Some(4), None, &three)),
        "W Line 4 exceeds file length (3 lines) in f.rs"
    );
    assert_eq!(
        message(&verify_code_location("f.rs", Some(1), Some(4), &three)),
        "W Line 4 exceeds file length (3 lines) in f.rs"
    );
    assert_eq!(message(&verify_code_location("f.rs", None, Some(4), &three)), "");
    assert_eq!(
        message(&verify_code_location("f.rs", Some(1), None, &FileProbe::Missing)),
        "E File not found: f.rs"
    );
    let unreadable = FileProbe::Unreadable("denied".to_string());
    assert_eq!(
        message(&verify_code_location("f.rs", Some(1), None, &unreadable)),
        "E Cannot read file f.rs: denied"
    );
    assert_eq!(message(&verify_code_location("f.rs", None, None, &unreadable)), "");
}

#[test]
fn a_test_is_found_by_its_name() {
    assert_eq!(message(&verify_test_reference("t.rs", "a", &text("fn a() {}"))), "");
    assert_eq!(message(&verify_test_reference("t.rs", "a", &text("#[test]\nfn  a() {}"))), "");
    assert_eq!(message(&verify_test_reference("t.rs", "a", &text("fn a"))), "");
    assert_eq!(message(&verify_test_reference("t.rs", "a", &text("fn ab() {}\nfn a<T>() {}"))), "");
    for content in [
        "#[test]\nfn test_foobar() {}\n",
        "#[test]\nfn test_foo_2() {}\n",
        "#[test]\nfn test_foo\u{e9}() {}\n",
        "#[test]\nfn my_test_foo() {}\n",
        "test_foo",
        "#[test]",
    ] {
        assert_eq!(
            message(&verify_test_reference("/w/t.rs", "test_foo", &text(content))),
            "W Test function 'test_foo' not found in /w/t.rs"
        );
    }
    assert_eq!(
        message(&verify_test_reference("t.rs", "case", &text("#[test]\n// case-1\n"))),
        ""
    );
    assert_eq!(
        message(&verify_test_reference("t.rs", "zz", &text("fn a() {}"))),
        "W Test function 'zz' not found in t.rs"
    );
    assert_eq!(
        message(&verify_test_reference("t.rs", "a", &FileProbe::Unreadable("x".to_string()))),
        "E Cannot read test file t.rs: x"
    );
    assert_eq!(
        message(&verify_test_reference("t.rs", "a", &FileProbe::Missing)),
        "E Test file not found: t.rs"
    );
}

#[test]
fn unknown_evidence_is_skipped() {
    let r = verify_single_evidence(" see commit ", &FileProbe::Missing);
    assert_eq!(r.evidence, " see commit ");
    assert_eq!(r.evidence_type, EvidenceType::Unknown("see commit".to_string()));
    assert_eq!(message(&r.status), "S Unknown evidence format: see commit");
    assert!(r.status.is_ok());
}

#[test]
fn done_items_are_verified_and_blocked_ones_counted() {
    let mut plan = Plan::new("p");
    plan.items.push(item("I1", PlanState::Done, &["src/a.rs", "src/a.rs:5", "words"]));
    plan.items.push(item("I2", PlanState::Blocked, &["src/b.rs"]));
    plan.items.push(item("I3", PlanState::Done, &[]));
    plan.items.push(item("I4", PlanState::Todo, &["src/c.rs"]));
    assert_eq!(
        plan_probe_requests(&plan),
        vec![
            vec![
                ProbeRequest::Existence("src/a.rs".to_string()),
                ProbeRequest::Contents("src/a.rs".to_string()),
                ProbeRequest::Nothing,
            ],
            vec![],
            vec![],
            vec![],
        ]
    );
    let probes =
        vec![vec![FileProbe::Present, text("1\n2\n"), FileProbe::Missing], vec![], vec![], vec![]];
    let v = plan_verify(&plan, &probes);
    assert_eq!(v.plan_id, "p");
    assert_eq!(v.skipped_count, 1);
    assert_eq!(v.item_results.len(), 2);
    assert_eq!(v.item_results[0].item_id, "I1");
    assert!(!v.item_results[0].missing_evidence);
    let statuses: Vec<String> =
        v.item_results[0].evidence_results.iter().map(|e| message(&e.status)).collect();
    assert_eq!(
        statuses,
        vec![
            "".to_string(),
            "W Line 5 exceeds file length (2 lines) in src/a.rs".to_string(),
            "S Unknown evidence format: words".to_string(),
        ]
    );
    assert!(v.item_results[1].missing_evidence);
    assert_eq!(v.count_issues(), (2, 0));
    assert!(!v.all_passed());
}

#[test]
fn a_plan_passes_only_with_its_files() {
    let mut plan = Plan::new("p");
    plan.items.push(item("I1", PlanState::Done, &["src/a.rs", "tests/t.rs::case"]));
    let there = vec![vec![FileProbe::Present, text("fn case() {}")]];
    assert!(plan_verify(&plan, &there).all_passed());
    let gone = vec![vec![FileProbe::Missing, text("fn case() {}")]];
    assert!(!plan_verify(&plan, &gone).all_passed());
    assert_eq!(plan_verify(&plan, &gone).count_issues(), (0, 1));
}

fn verification(status: VerificationStatus, missing: bool, skipped: usize) -> PlanVerification {
    PlanVerification {
        plan_id: "p".to_string(),
        item_results: vec![ItemVerification {
            item_id: "I1".to_string(),
            description: "Do it".to_string(),
            evidence_results: vec![EvidenceVerification {
                evidence: "src/a.rs:1".to_string(),
                evidence_type: parse_evidence("src/a.rs:1"),
                status,
            }],
            missing_evidence: missing,
        }],
        skipped_count: skipped,
    }
}

#[test]
fn a_verification_passes_exactly_without_issues() {
    let ok = verification(VerificationStatus::Verified, false, 0);
    assert!(ok.all_passed());
    assert_eq!(ok.count_issues(), (0, 0));
    let skipped = verification(VerificationStatus::Skipped("s".to_string()), false, 3);
    assert!(skipped.all_passed());
    assert_eq!(skipped.count_issues(), (0, 0));
    let bad = verification(VerificationStatus::Error("e".to_string()), true, 0);
    assert!(!bad.all_passed());
    assert_eq!(bad.count_issues(), (1, 1));
}

#[test]
fn the_report_of_a_passed_verification() {
    let rule = "═".repeat(60);
    let ok = verification(VerificationStatus::Verified, false, 0);
    assert_eq!(
        format_verification_results(&ok, None),
        format!(
            "\n{}\n📋 PLAN VERIFICATION RESULTS\n{}\n\n[I1] Do it\n  ✅ src/a.rs:1\n\n✅ VERIFICATION COMPLETE: All evidence validated\n{}\n",
            rule, rule, rule
        )
    );
}

#[test]
fn the_report_of_a_verification_with_issues() {
    let rule = "═".repeat(60);
    let bad = verification(VerificationStatus::Error("gone".to_string()), true, 2);
    let envelope = EnvelopeFile { path: "x/envelope.yaml".to_string(), found: false };
    assert_eq!(
        format_verification_results(&bad, Some(&envelope)),
        format!(
            "\n{}\n📋 PLAN VERIFICATION RESULTS\n{}\n\n[I1] Do it\n  ⚠️  WARNING: No evidence provided for done item!\n  ❌ ERROR: gone src/a.rs:1\n\nℹ️  2 blocked item(s) skipped\n\n⚠️  VERIFICATION COMPLETE: 1 error(s), 1 warning(s)\n\n📜 ARTIFACTS\n  ⚠️  (not found) Envelope: x/envelope.yaml\n\n{}\n",
            rule, rule, rule
        )
    );
    let found = EnvelopeFile { path: "x/envelope.yaml".to_string(), found: true };
    let report = format_verification_results(
        &verification(VerificationStatus::Warning("hm".to_string()), false, 0),
        Some(&found),
    );
    assert!(report.contains("  ⚠️  WARNING: hm src/a.rs:1\n"));
    assert!(report.contains("⚠️  VERIFICATION COMPLETE: 0 error(s), 1 warning(s)\n"));
    assert!(report.contains("  ✅ Envelope: x/envelope.yaml\n"));
    let report = format_verification_results(
        &verification(VerificationStatus::Skipped("why".to_string()), false, 0),
        None,
    );
    assert!(report.contains("  ⏭️  SKIPPED: why src/a.rs:1\n"));
    assert!(report.contains("All evidence validated"));
}
