//! The plan tools.
use g3::json::Json;
use g3::plan::evidence::FileProbe;
use g3::plan::report::EnvelopeFile;
use g3::plan::schema::{Check, Checks, Plan, PlanError, PlanItem, PlanState};
use g3::plan::tools::{
    plan_approve, plan_approve_reply, plan_read, plan_write_accept, plan_write_argument,
    plan_write_reply, plan_write_verifies, PlanToolError,
};

fn item(id: &str) -> PlanItem {
    let check = Check::new("d", "t");
    let checks =
        Checks { happy: check.clone(), negative: vec![check.clone()], boundary: vec![check] };
    PlanItem::new(id, "do", vec!["src".to_string()], checks)
}

fn plan(id: &str, items: &[&str]) -> Plan {
    let mut plan = Plan::new(id);
    for i in items {
        plan.items.push(item(i));
    }
    plan
}

fn completed(mut plan: Plan) -> Plan {
    for item in plan.items.iter_mut() {
        item.state = PlanState::Done;
        item.evidence = vec!["src/a.rs".to_string()];
        item.notes = Some("n".to_string());
    }
    plan
}

fn envelope_file() -> EnvelopeFile {
    EnvelopeFile { path: "e.yaml".to_string(), found: true }
}

#[test]
fn reading_shows_the_plan_and_the_envelope() {
    let p = plan("p", &["I1"]);
    assert_eq!(
        plan_read(Some("s"), Some((&p, "a: 1\n")), Some("\nENV")),
        Ok(
            "📋 Plan 'p' rev 1 (NOT APPROVED): 0/1 done, 0 doing, 0 blocked, 1 todo\n\n```yaml\na: 1\n```\nENV"
                .to_string()
        )
    );
    assert!(plan_read(Some("s"), Some((&p, "a: 1\n")), None)
        .unwrap()
        .ends_with("```\n_No envelope generated._\n"));
    assert_eq!(plan_read(Some("s"), None, None), Ok(String::new()));
    assert_eq!(plan_read(None, None, None), Err(PlanToolError::NoSession));
}

fn object(members: Vec<(&str, Json)>) -> Json {
    Json::Object(members.into_iter().map(|(k, v)| (k.to_string(), v)).collect())
}

#[test]
fn the_argument_is_the_text_under_plan() {
    let yaml = "a: \"b\"\nc: \u{e9}";
    let args = object(vec![
        ("x", Json::Number("1".to_string())),
        ("plan", Json::Text(yaml.to_string())),
    ]);
    assert_eq!(plan_write_argument(Some("s"), &args), Ok(yaml.to_string()));
    assert_eq!(plan_write_argument(None, &args), Err(PlanToolError::NoSession));
    for args in [
        object(vec![]),
        object(vec![("plan", Json::Number("1".to_string()))]),
        object(vec![("plan", Json::Null)]),
        object(vec![("Plan", Json::Text("x".to_string()))]),
        Json::Array(vec![Json::Text("plan".to_string())]),
        Json::Text("plan".to_string()),
        Json::Null,
        Json::Bool(true),
    ] {
        assert_eq!(plan_write_argument(Some("s"), &args), Err(PlanToolError::MissingPlan));
    }
}

#[test]
fn arguments_may_be_nested_deep() {
    let mut deep = Json::Null;
    for _ in 0..500 {
        deep = Json::Array(vec![deep]);
    }
    let args = object(vec![("other", deep), ("plan", Json::Text("p".to_string()))]);
    assert_eq!(plan_write_argument(Some("s"), &args), Ok("p".to_string()));
}

#[test]
fn a_first_plan_is_taken_as_it_is() {
    let mut p = plan("p", &["I1"]);
    p.revision = 7;
    let next = plan_write_accept(None, p, false).unwrap();
    assert_eq!(next.revision, 7);
    assert_eq!(next.approved_revision, None);
}

#[test]
fn an_update_counts_up_and_keeps_the_approval() {
    let mut old = plan("p", &["I1"]);
    old.revision = 3;
    old.approved_revision = Some(2);
    let mut new = plan("q", &["I0", "I1"]);
    new.revision = 90;
    new.approved_revision = Some(80);
    let next = plan_write_accept(Some(&old), new, false).unwrap();
    assert_eq!(next.plan_id, "q");
    assert_eq!(next.revision, 4);
    assert_eq!(next.approved_revision, Some(2));
    assert_eq!(next.items.len(), 2);
}

#[test]
fn a_plan_cannot_approve_itself() {
    let old = plan("p", &["I1"]);
    let mut new = plan("p", &["I1"]);
    new.approve();
    let next = plan_write_accept(Some(&old), new, false).unwrap();
    assert!(!next.is_approved());
}

#[test]
fn items_of_an_approved_plan_stay() {
    let mut old = plan("p", &["I1", "I2", "I3"]);
    let new = || plan("p", &["I1"]);
    assert!(plan_write_accept(Some(&old), new(), false).is_ok());
    old.approve();
    let e = plan_write_accept(Some(&old), new(), false).unwrap_err();
    assert_eq!(e, PlanToolError::RemovedItem("I2".to_string()));
    assert_eq!(
        e.to_string(),
        "❌ Cannot remove item 'I2' from approved plan. Items can only be marked blocked, not removed."
    );
}

#[test]
fn a_complete_plan_gives_way_to_a_fresh_one() {
    let mut old = completed(plan("p", &["I1"]));
    old.approve();
    old.revision = u32::MAX;
    let next = plan_write_accept(Some(&old), plan("q", &["J1"]), false).unwrap();
    assert_eq!(next.revision, 1);
    assert_eq!(next.approved_revision, None);
}

#[test]
fn an_invalid_plan_is_refused() {
    let e = plan_write_accept(None, plan("p", &[]), true).unwrap_err();
    assert_eq!(e, PlanToolError::InvalidPlan(PlanError::NoItems));
    assert_eq!(e.to_string(), "❌ Plan validation failed: Plan must have at least one item");
}

#[test]
fn without_a_user_a_plan_counts_as_approved() {
    let next = plan_write_accept(None, plan("p", &["I1"]), true).unwrap();
    assert_eq!(next.approved_revision, Some(1));
    let mut old = plan("p", &["I1"]);
    old.approve();
    let next = plan_write_accept(Some(&old), plan("p", &["I1"]), true).unwrap();
    assert_eq!(next.revision, 2);
    assert_eq!(next.approved_revision, Some(1));
}

#[test]
fn writing_is_answered_with_the_summary() {
    let p = plan("p", &["I1"]);
    assert!(!plan_write_verifies(&p));
    assert_eq!(
        plan_write_reply(&p, Ok(()), &vec![], &envelope_file(), Some("E")),
        Ok(
            "✅ Plan updated: Plan 'p' rev 1 (NOT APPROVED): 0/1 done, 0 doing, 0 blocked, 1 todo\nE"
                .to_string()
        )
    );
    assert_eq!(
        plan_write_reply(&p, Err("full".to_string()), &vec![], &envelope_file(), None),
        Err(PlanToolError::WriteFailed("full".to_string()))
    );
}

#[test]
fn a_complete_and_approved_plan_is_verified() {
    let mut p = completed(plan("p", &["I1"]));
    assert!(!plan_write_verifies(&p));
    p.approve();
    assert!(plan_write_verifies(&p));
    let reply = plan_write_reply(
        &p,
        Ok(()),
        &vec![vec![FileProbe::Present]],
        &envelope_file(),
        None,
    )
    .unwrap();
    assert!(reply.starts_with(
        "✅ Plan updated: Plan 'p' rev 1 (approved at rev 1): 1/1 done, 0 doing, 0 blocked, 0 todo\n\n═"
    ));
    assert!(reply.contains("[I1] do\n  ✅ src/a.rs\n\n✅ VERIFICATION COMPLETE: All evidence validated\n"));
    assert!(reply.contains("  ✅ Envelope: e.yaml\n"));
    assert!(reply.ends_with("═\n\n\n_No envelope generated._\n"));
}

#[test]
fn approving_happens_once() {
    let mut p = plan("p", &["I1"]);
    p.revision = 5;
    let approved = plan_approve(Some("s"), Some(p)).unwrap();
    assert_eq!(approved.approved_revision, Some(5));
    assert_eq!(
        plan_approve_reply(&approved, Ok(())),
        Ok("✅ Plan approved at revision 5. You may now begin implementation.".to_string())
    );
    assert_eq!(
        plan_approve_reply(&approved, Err("x".to_string())),
        Err(PlanToolError::SaveFailed("x".to_string()))
    );
    let mut later = approved;
    later.revision = 6;
    let e = plan_approve(Some("s"), Some(later)).unwrap_err();
    assert_eq!(e, PlanToolError::AlreadyApproved { approved_revision: 5, revision: 6 });
    assert_eq!(
        e.to_string(),
        "ℹ️ Plan already approved at revision 5. Current revision: 6"
    );
    assert_eq!(plan_approve(Some("s"), None).unwrap_err(), PlanToolError::NothingToApprove);
    assert_eq!(plan_approve(None, None).unwrap_err(), PlanToolError::NoSession);
}

#[test]
fn each_refusal_has_its_words() {
    assert_eq!(
        PlanToolError::NoSession.to_string(),
        "❌ No active session - plans are session-scoped."
    );
    assert_eq!(
        PlanToolError::MissingPlan.to_string(),
        "❌ Missing 'plan' argument. Provide the plan as YAML."
    );
    assert_eq!(
        PlanToolError::InvalidYaml("bad".to_string()).to_string(),
        "❌ Invalid plan YAML: bad"
    );
    assert_eq!(
        PlanToolError::WriteFailed("io".to_string()).to_string(),
        "❌ Failed to write plan: io"
    );
    assert_eq!(
        PlanToolError::NothingToApprove.to_string(),
        "❌ No plan exists to approve. Use plan_write first."
    );
    assert_eq!(
        PlanToolError::SaveFailed("io".to_string()).to_string(),
        "❌ Failed to save approved plan: io"
    );
}
