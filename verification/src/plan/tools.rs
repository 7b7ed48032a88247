//! What the plan tools decide and answer. Reading and writing files, and
//! turning YAML into a plan and back, happen between these steps.
use crate::json::{self, Json, Value};
use crate::plan::evidence::FileProbe;
use crate::plan::report::{self, format_verification_results, EnvelopeFile};
use crate::plan::schema::{self, Plan, PlanError, PlanItem, PlanState};
use crate::plan::verification::{self, plan_verify};
use crate::text::{self, push_decimal};
use vstd::prelude::*;
use vstd::string::StringExecFns;

verus! {

/// Why a plan tool does nothing. The reply says it to the caller.
#[derive(Debug, Clone, PartialEq, Eq)]
pub enum PlanToolError {
    /// There is no session
    NoSession,
    /// The call names no plan
    MissingPlan,
    /// The plan is not valid YAML, for the reason given
    InvalidYaml(String),
    /// An item of the approved plan is gone
    RemovedItem(String),
    /// The plan breaks a rule
    InvalidPlan(PlanError),
    /// The plan could not be written, for the reason given
    WriteFailed(String),
    /// There is no plan to approve
    NothingToApprove,
    /// The plan is approved already
    AlreadyApproved { approved_revision: u32, revision: u32 },
    /// The approved plan could not be written, for the reason given
    SaveFailed(String),
}

impl PlanToolError {
    /// What the tool replies.
    pub open spec fn reply(self) -> Seq<char> {
        match self {
            PlanToolError::NoSession => "❌ No active session - plans are session-scoped."@,
            PlanToolError::MissingPlan =>
                "❌ Missing 'plan' argument. Provide the plan as YAML."@,
            PlanToolError::InvalidYaml(reason) => "❌ Invalid plan YAML: "@ + reason@,
            PlanToolError::RemovedItem(id) => "❌ Cannot remove item '"@ + id@
                + "' from approved plan. Items can only be marked blocked, not removed."@,
            PlanToolError::InvalidPlan(e) => "❌ Plan validation failed: "@ + e.message(),
            PlanToolError::WriteFailed(reason) => "❌ Failed to write plan: "@ + reason@,
            PlanToolError::NothingToApprove =>
                "❌ No plan exists to approve. Use plan_write first."@,
            PlanToolError::AlreadyApproved { approved_revision, revision } =>
                "ℹ️ Plan already approved at revision "@ + text::decimal(approved_revision as nat)
                + ". Current revision: "@ + text::decimal(revision as nat),
            PlanToolError::SaveFailed(reason) => "❌ Failed to save approved plan: "@ + reason@,
        }
    }

    /// What the tool replies.
    pub fn to_string(&self) -> (r: String)
        ensures
            r@ == self.reply(),
    {
        match self {
            PlanToolError::NoSession =>
                "❌ No active session - plans are session-scoped.".to_string(),
            PlanToolError::MissingPlan =>
                "❌ Missing 'plan' argument. Provide the plan as YAML.".to_string(),
            PlanToolError::InvalidYaml(reason) => {
                let mut out = "❌ Invalid plan YAML: ".to_string();
                out.append(reason.as_str());
                out
            },
            PlanToolError::RemovedItem(id) => {
                let mut out = "❌ Cannot remove item '".to_string();
                out.append(id.as_str());
                out.append("' from approved plan. Items can only be marked blocked, not removed.");
                out
            },
            PlanToolError::InvalidPlan(e) => {
                let mut out = "❌ Plan validation failed: ".to_string();
                out.append(e.to_string().as_str());
                out
            },
            PlanToolError::WriteFailed(reason) => {
                let mut out = "❌ Failed to write plan: ".to_string();
                out.append(reason.as_str());
                out
            },
            PlanToolError::NothingToApprove =>
                "❌ No plan exists to approve. Use plan_write first.".to_string(),
            PlanToolError::AlreadyApproved { approved_revision, revision } => {
                let mut out = "ℹ️ Plan already approved at revision ".to_string();
                push_decimal(&mut out, *approved_revision as u64);
                out.append(". Current revision: ");
                push_decimal(&mut out, *revision as u64);
                out
            },
            PlanToolError::SaveFailed(reason) => {
                let mut out = "❌ Failed to save approved plan: ".to_string();
                out.append(reason.as_str());
                out
            },
        }
    }
}

/// What a reply says of the envelope of the session.
pub open spec fn envelope_section(envelope: Option<Seq<char>>) -> Seq<char> {
    match envelope {
        Some(envelope) => envelope,
        None => "\n_No envelope generated._\n"@,
    }
}

// ---------------------------------------------------------------------------
// Reading
// ---------------------------------------------------------------------------

/// The reply with a plan, given its YAML and the envelope of the session.
pub open spec fn plan_text(plan: Plan, yaml: Seq<char>, envelope: Option<Seq<char>>) -> Seq<char> {
    "📋 "@ + plan.summary() + "\n\n```yaml\n"@ + yaml + "```"@ + envelope_section(envelope)
}

/// The reply of the `plan_read` tool, given the plan of the session with its
/// YAML. Where there is no plan, there is nothing to say.
pub fn plan_read(
    session_id: Option<&str>,
    stored: Option<(&Plan, &str)>,
    envelope: Option<&str>,
) -> (r: Result<String, PlanToolError>)
    ensures
        match r {
            Ok(reply) => session_id is Some && reply@ == match stored {
                Some((plan, yaml)) => plan_text(*plan, yaml@, text::optional(envelope)),
                None => Seq::empty(),
            },
            Err(e) => session_id is None && e == PlanToolError::NoSession,
        },
{
    if session_id.is_none() {
        return Err(PlanToolError::NoSession);
    }
    match stored {
        Some((plan, yaml)) => {
            let mut output = "📋 ".to_string();
            output.append(plan.status_summary().as_str());
            output.append("\n\n```yaml\n");
            output.append(yaml);
            output.append("```");
            match envelope {
                Some(envelope) => output.append(envelope),
                None => output.append("\n_No envelope generated._\n"),
            }
            Ok(output)
        },
        None => Ok(String::new()),
    }
}

// ---------------------------------------------------------------------------
// Writing
// ---------------------------------------------------------------------------

/// The plan that the arguments of a call name, in YAML: the text under "plan".
pub open spec fn plan_argument(args: Value) -> Option<Seq<char>> {
    match json::member(args, "plan"@) {
        Some(value) => json::text_in(value),
        None => None,
    }
}

/// The plan that a call of the `plan_write` tool brings, in YAML.
pub fn plan_write_argument(session_id: Option<&str>, args: &Json) -> (r: Result<
    String,
    PlanToolError,
>)
    ensures
        match r {
            Ok(yaml) => session_id is Some && plan_argument(args@) == Some(yaml@),
            Err(e) => if session_id is None {
                e == PlanToolError::NoSession
            } else {
                plan_argument(args@) is None && e == PlanToolError::MissingPlan
            },
        },
{
    if session_id.is_none() {
        return Err(PlanToolError::NoSession);
    }
    // Get the plan content from args

    let argument = match args.get("plan") {
        Some(value) => value.as_text(),
        None => None,
    };
    match argument {
        Some(yaml) => Ok(yaml.to_string()),
        None => Err(PlanToolError::MissingPlan),
    }
}

/// Whether one of `items` has the given id.
pub open spec fn has_item(items: Seq<PlanItem>, id: Seq<char>) -> bool {
    exists|i: int| 0 <= i < items.len() && (#[trigger] items[i]).id@ == id
}

/// The first of the old items from position `i` on that is not among the new ones.
pub open spec fn removed_item(old_items: Seq<PlanItem>, new_items: Seq<PlanItem>, i: nat) -> Option<
    String,
>
    decreases old_items.len() - i,
{
    if i >= old_items.len() {
        None
    } else if has_item(new_items, old_items[i as int].id@) {
        removed_item(old_items, new_items, i + 1)
    } else {
        Some(old_items[i as int].id)
    }
}

/// The incoming plan as a successor of the plan that is there. A plan that is
/// complete has no successors; what comes then is a fresh plan.
pub open spec fn successor(existing: Option<Plan>, plan: Plan) -> Plan {
    match existing {
        Some(old_plan) if !old_plan.complete() => Plan {
            approved_revision: old_plan.approved_revision,
            revision: (old_plan.revision + 1) as u32,
            ..plan
        },
        _ => plan,
    }
}

/// The item that the incoming plan lacks although it must not, if any. While
/// an approved plan is not complete, its items cannot be removed.
pub open spec fn forbidden_removal(existing: Option<Plan>, plan: Plan) -> Option<String> {
    match existing {
        Some(old_plan) if !old_plan.complete() && old_plan.approved() => removed_item(
            old_plan.items@,
            plan.items@,
            0,
        ),
        _ => None,
    }
}

/// The plan that is written where `plan` comes in, or why none is. Without a
/// user to ask, a plan counts as approved.
pub open spec fn accepted_plan(existing: Option<Plan>, plan: Plan, is_autonomous: bool) -> Result<
    Plan,
    PlanToolError,
> {
    let next = successor(existing, plan);
    if let Some(id) = forbidden_removal(existing, plan) {
        Err(PlanToolError::RemovedItem(id))
    } else if let Some(e) = next.error() {
        Err(PlanToolError::InvalidPlan(e))
    } else if is_autonomous && !next.approved() {
        Ok(next.with_approval())
    } else {
        Ok(next)
    }
}

/// Whether one of `items` has the given id.
fn has_item_with_id(items: &Vec<PlanItem>, id: &String) -> (r: bool)
    ensures
        r == has_item(items@, id@),
{
    let mut i: usize = 0;
    while i < items.len()
        invariant
            i <= items@.len(),
            forall|j: int| 0 <= j < i ==> (#[trigger] items@[j]).id@ != id@,
        decreases items@.len() - i,
    {
        if items[i].id == *id {
            return true;
        }
        i = i + 1;
    }
    false
}

/// The first of the old items that is not among the new ones.
fn find_removed_item(old_items: &Vec<PlanItem>, new_items: &Vec<PlanItem>) -> (r: Option<String>)
    ensures
        r == removed_item(old_items@, new_items@, 0),
{
    let mut i: usize = 0;
    while i < old_items.len()
        invariant
            i <= old_items@.len(),
            removed_item(old_items@, new_items@, 0) == removed_item(
                old_items@,
                new_items@,
                i as nat,
            ),
        decreases old_items@.len() - i,
    {
        if !has_item_with_id(new_items, &old_items[i].id) {
            return Some(old_items[i].id.clone());
        }
        i = i + 1;
    }
    None
}

/// The plan that the `plan_write` tool writes, given the plan that is there
/// and the one that the call brings.
pub fn plan_write_accept(existing: Option<&Plan>, plan: Plan, is_autonomous: bool) -> (r: Result<
    Plan,
    PlanToolError,
>)
    requires
        existing matches Some(old_plan) ==> old_plan.complete() || old_plan.revision < u32::MAX,
    ensures
        r == accepted_plan(
            match existing {
                Some(old_plan) => Some(*old_plan),
                None => None,
            },
            plan,
            is_autonomous,
        ),
{
    let mut plan = plan;
    if let Some(existing) = existing {
        if existing.is_complete() {
            // Existing plan is fully complete (all items done/blocked).
            // Treat the incoming plan as a fresh plan — don't carry over
            // approved_revision or enforce item preservation.
        } else {
            // Preserve approved_revision from existing plan
            plan.approved_revision = existing.approved_revision;
            // Increment revision
            plan.revision = existing.revision + 1;
            // If plan was approved, ensure items are not removed
            if existing.is_approved() {
                if let Some(id) = find_removed_item(&existing.items, &plan.items) {
                    return Err(PlanToolError::RemovedItem(id));
                }
            }
        }
    }
    // Validate the plan

    if let Err(e) = plan.validate() {
        return Err(PlanToolError::InvalidPlan(e));
    }
    // Auto-approve in non-interactive (autonomous) mode

    if is_autonomous && !plan.is_approved() {
        plan.approve();
    }
    Ok(plan)
}

/// Whether writing the plan is followed by a verification of its evidence.
pub open spec fn calls_for_verification(plan: Plan) -> bool {
    plan.complete() && plan.approved()
}

/// Whether writing the plan is followed by a verification of its evidence.
pub fn plan_write_verifies(plan: &Plan) -> (r: bool)
    ensures
        r == calls_for_verification(*plan),
{
    plan.is_complete() && plan.is_approved()
}

/// The reply after a plan was written. `probes` is what was found for the
/// evidence of its items.
pub open spec fn written_text(
    plan: Plan,
    probes: Seq<Vec<FileProbe>>,
    envelope_file: EnvelopeFile,
    envelope: Option<Seq<char>>,
) -> Seq<char> {
    if calls_for_verification(plan) {
        "✅ Plan updated: "@ + plan.summary() + "\n"@ + report::verification_report(
            verification::plan_result(plan, probes),
            Some(envelope_file),
        ) + "\n"@ + envelope_section(envelope)
    } else {
        "✅ Plan updated: "@ + plan.summary() + "\n"@ + envelope_section(envelope)
    }
}

/// The reply of the `plan_write` tool after it tried to write the plan. A plan
/// that is complete and approved is verified.
pub fn plan_write_reply(
    plan: &Plan,
    written: Result<(), String>,
    probes: &Vec<Vec<FileProbe>>,
    envelope_file: &EnvelopeFile,
    envelope: Option<&str>,
) -> (r: Result<String, PlanToolError>)
    requires
        written is Ok && calls_for_verification(*plan) ==> verification::probes_fit(*plan, probes@)
            && verification::plan_result(*plan, probes@).countable(),
    ensures
        match r {
            Ok(reply) => written is Ok && reply@ == written_text(
                *plan,
                probes@,
                *envelope_file,
                text::optional(envelope),
            ),
            Err(e) => written matches Err(reason) && e == PlanToolError::WriteFailed(reason),
        },
{
    if let Err(reason) = written {
        return Err(PlanToolError::WriteFailed(reason));
    }
    let envelope_section = match envelope {
        Some(envelope) => envelope,
        None => "\n_No envelope generated._\n",
    };
    let mut reply = "✅ Plan updated: ".to_string();
    reply.append(plan.status_summary().as_str());
    reply.append("\n");
    // Check if plan is now complete and trigger verification
    if plan_write_verifies(plan) {
        let verification = plan_verify(plan, probes);
        reply.append(format_verification_results(&verification, Some(envelope_file)).as_str());
        reply.append("\n");
    }
    reply.append(envelope_section);
    Ok(reply)
}

// ---------------------------------------------------------------------------
// Approving
// ---------------------------------------------------------------------------

/// The plan that approving writes, or why it writes none.
pub open spec fn approved_plan(session: bool, stored: Option<Plan>) -> Result<Plan, PlanToolError> {
    if !session {
        Err(PlanToolError::NoSession)
    } else {
        match stored {
            Some(plan) => match plan.approved_revision {
                Some(approved_revision) => Err(
                    PlanToolError::AlreadyApproved { approved_revision, revision: plan.revision },
                ),
                None => Ok(plan.with_approval()),
            },
            None => Err(PlanToolError::NothingToApprove),
        }
    }
}

/// The plan that the `plan_approve` tool writes, given the plan of the session.
pub fn plan_approve(session_id: Option<&str>, stored: Option<Plan>) -> (r: Result<
    Plan,
    PlanToolError,
>)
    ensures
        r == approved_plan(session_id is Some, stored),
{
    if session_id.is_none() {
        return Err(PlanToolError::NoSession);
    }
    let mut plan = match stored {
        Some(plan) => plan,
        None => return Err(PlanToolError::NothingToApprove),
    };
    if let Some(approved_revision) = plan.approved_revision {
        return Err(PlanToolError::AlreadyApproved { approved_revision, revision: plan.revision });
    }
    // Approve the plan

    plan.approve();
    Ok(plan)
}

/// The reply after a plan was approved.
pub open spec fn approved_text(plan: Plan) -> Seq<char> {
    "✅ Plan approved at revision "@ + text::decimal(plan.revision as nat)
        + ". You may now begin implementation."@
}

/// The reply of the `plan_approve` tool after it tried to write the plan.
pub fn plan_approve_reply(plan: &Plan, written: Result<(), String>) -> (r: Result<
    String,
    PlanToolError,
>)
    ensures
        match r {
            Ok(reply) => written is Ok && reply@ == approved_text(*plan),
            Err(e) => written matches Err(reason) && e == PlanToolError::SaveFailed(reason),
        },
{
    if let Err(reason) = written {
        return Err(PlanToolError::SaveFailed(reason));
    }
    let mut reply = "✅ Plan approved at revision ".to_string();
    push_decimal(&mut reply, plan.revision as u64);
    reply.append(". You may now begin implementation.");
    Ok(reply)
}

// ---------------------------------------------------------------------------
// Laws
// ---------------------------------------------------------------------------

/// A plan that is accepted is valid, so that writing it is not refused.
pub proof fn law_accepted_plan_is_valid(existing: Option<Plan>, plan: Plan, is_autonomous: bool)
    ensures
        accepted_plan(existing, plan, is_autonomous) matches Ok(next) ==> next.valid(),
{
}

/// Accepting a plan keeps its id and its items.
pub proof fn law_accepted_plan_keeps_items(existing: Option<Plan>, plan: Plan, is_autonomous: bool)
    ensures
        accepted_plan(existing, plan, is_autonomous) matches Ok(next) ==> next.plan_id
            == plan.plan_id && next.items == plan.items,
{
}

proof fn lemma_removed_item(old_items: Seq<PlanItem>, new_items: Seq<PlanItem>, i: nat)
    ensures
        removed_item(old_items, new_items, i) is None <==> forall|j: int|
            i <= j < old_items.len() ==> has_item(new_items, (#[trigger] old_items[j]).id@),
    decreases old_items.len() - i,
{
    if i < old_items.len() && has_item(new_items, old_items[i as int].id@) {
        lemma_removed_item(old_items, new_items, i + 1);
    }
}

/// While an approved plan is not complete, no plan without one of its items is
/// accepted.
pub proof fn law_approved_items_stay(
    old_plan: Plan,
    plan: Plan,
    is_autonomous: bool,
    i: int,
)
    requires
        old_plan.approved(),
        !old_plan.complete(),
        0 <= i < old_plan.items@.len(),
        !has_item(plan.items@, old_plan.items@[i].id@),
    ensures
        accepted_plan(Some(old_plan), plan, is_autonomous) matches Err(
            PlanToolError::RemovedItem(_),
        ),
{
    lemma_removed_item(old_plan.items@, plan.items@, 0);
}

/// An update of a plan that is not complete counts the revision up by one,
/// whatever revision the incoming plan claims, and keeps an approval.
pub proof fn law_update_counts_up_and_keeps_approval(
    old_plan: Plan,
    plan: Plan,
    is_autonomous: bool,
)
    requires
        !old_plan.complete(),
        old_plan.revision < u32::MAX,
    ensures
        accepted_plan(Some(old_plan), plan, is_autonomous) matches Ok(next) ==> {
            &&& next.revision == old_plan.revision + 1
            &&& old_plan.approved() ==> next.approved_revision == old_plan.approved_revision
            &&& !old_plan.approved() && !is_autonomous ==> !next.approved()
        },
{
}

/// A plan cannot approve itself: what an incoming plan says of its approval
/// and its revision does not count while another plan is under way.
pub proof fn law_incoming_approval_is_ignored(
    old_plan: Plan,
    plan: Plan,
    approved_revision: Option<u32>,
    revision: u32,
    is_autonomous: bool,
)
    requires
        !old_plan.complete(),
    ensures
        accepted_plan(Some(old_plan), plan, is_autonomous) == accepted_plan(
            Some(old_plan),
            Plan { approved_revision, revision, ..plan },
            is_autonomous,
        ),
{
    let claimed = Plan { approved_revision, revision, ..plan };
    assert(successor(Some(old_plan), plan) == successor(Some(old_plan), claimed));
}

/// A complete plan gives way to a fresh one, as if there had been no plan.
pub proof fn law_complete_plan_gives_way(old_plan: Plan, plan: Plan, is_autonomous: bool)
    requires
        old_plan.complete(),
    ensures
        accepted_plan(Some(old_plan), plan, is_autonomous) == accepted_plan(
            None,
            plan,
            is_autonomous,
        ),
{
}

/// In autonomous mode every plan that is accepted is approved.
pub proof fn law_autonomous_plan_is_approved(existing: Option<Plan>, plan: Plan)
    ensures
        accepted_plan(existing, plan, true) matches Ok(next) ==> next.approved(),
{
}

/// Approving approves the current revision and leaves the rest as it is;
/// approving once more is refused and names that revision.
pub proof fn law_approving_twice_is_refused(plan: Plan)
    requires
        !plan.approved(),
    ensures
        approved_plan(true, Some(plan)) == Ok::<Plan, PlanToolError>(plan.with_approval()),
        approved_plan(true, Some(plan.with_approval())) == Err::<Plan, PlanToolError>(
            PlanToolError::AlreadyApproved {
                approved_revision: plan.revision,
                revision: plan.revision,
            },
        ),
{
}

/// The plan of a call is the text under "plan" in its arguments, where they are
/// an object that has one; a value of another kind does not count.
pub proof fn law_plan_argument_iff(
    args: Value,
    members: Seq<(Seq<char>, Value)>,
    yaml: Seq<char>,
)
    ensures
        json::well_formed(Value::Object(members)) ==> (plan_argument(Value::Object(members)) == Some(
            yaml,
        ) <==> members.contains(("plan"@, Value::Text(yaml)))),
        !(args is Object) ==> plan_argument(args) is None,
{
    if json::well_formed(Value::Object(members)) {
        json::law_member_is_the_only_one(members, "plan"@, Value::Text(yaml));
    }
}

/// A plan is accepted exactly where it is valid and, while an approved plan is
/// not complete, has an item for each id of that plan.
pub proof fn law_plan_is_accepted_iff(existing: Option<Plan>, plan: Plan, is_autonomous: bool)
    ensures
        accepted_plan(existing, plan, is_autonomous) is Ok <==> {
            &&& plan.valid()
            &&& existing matches Some(old_plan) ==> (old_plan.approved() && !old_plan.complete()
                ==> forall|i: int|
                0 <= i < old_plan.items@.len() ==> exists|j: int|
                    0 <= j < plan.items@.len() && (#[trigger] plan.items@[j]).id@ == (
                    #[trigger] old_plan.items@[i]).id@)
        },
{
    if let Some(old_plan) = existing {
        let old_items = old_plan.items@;
        lemma_removed_item(old_items, plan.items@, 0);
        assert forall|i: int| 0 <= i < old_items.len() implies (has_item(
            plan.items@,
            (#[trigger] old_items[i]).id@,
        ) <==> exists|j: int|
            0 <= j < plan.items@.len() && (#[trigger] plan.items@[j]).id@ == old_items[i].id@) by {}
    }
    schema::law_validity_is_independent_of_revisions(
        plan,
        successor(existing, plan).revision,
        successor(existing, plan).approved_revision,
    );
}

/// A plan that is refused is refused for an item that it lacks, which is the
/// first one that it lacks, or else for what is wrong with it.
pub proof fn law_refusal_says_why(existing: Option<Plan>, plan: Plan, is_autonomous: bool)
    ensures
        accepted_plan(existing, plan, is_autonomous) matches Err(e) ==> {
            ||| e matches PlanToolError::RemovedItem(id) && existing matches Some(old_plan)
                && old_plan.approved() && !old_plan.complete() && exists|i: int|
                0 <= i < old_plan.items@.len() && (#[trigger] old_plan.items@[i]).id == id
                    && !has_item(plan.items@, id@) && forall|j: int|
                    0 <= j < i ==> has_item(plan.items@, (#[trigger] old_plan.items@[j]).id@)
            ||| e matches PlanToolError::InvalidPlan(error) && plan.error() == Some(error)
        },
{
    if let Some(id) = forbidden_removal(existing, plan) {
        lemma_first_removed(existing->0.items@, plan.items@, 0);
    }
    schema::law_validity_is_independent_of_revisions(
        plan,
        successor(existing, plan).revision,
        successor(existing, plan).approved_revision,
    );
}

proof fn lemma_first_removed(old_items: Seq<PlanItem>, new_items: Seq<PlanItem>, i: nat)
    ensures
        removed_item(old_items, new_items, i) matches Some(id) ==> exists|k: int|
            i <= k < old_items.len() && (#[trigger] old_items[k]).id == id && !has_item(
                new_items,
                id@,
            ) && forall|j: int|
                i <= j < k ==> has_item(new_items, (#[trigger] old_items[j]).id@),
    decreases old_items.len() - i,
{
    if i < old_items.len() {
        if has_item(new_items, old_items[i as int].id@) {
            lemma_first_removed(old_items, new_items, i + 1);
            if let Some(id) = removed_item(old_items, new_items, i) {
                let k = choose|k: int|
                    i + 1 <= k < old_items.len() && (#[trigger] old_items[k]).id == id && !has_item(
                        new_items,
                        id@,
                    ) && forall|j: int|
                        i + 1 <= j < k ==> has_item(new_items, (#[trigger] old_items[j]).id@);
                assert(old_items[k].id == id);
                assert forall|j: int| i <= j < k implies has_item(
                    new_items,
                    (#[trigger] old_items[j]).id@,
                ) by {}
            }
        } else {
            assert(old_items[i as int].id == removed_item(old_items, new_items, i)->0);
        }
    }
}

/// One of the items has an id exactly where an item with that id can be named.
pub proof fn law_has_item_iff(items: Seq<PlanItem>, id: Seq<char>)
    ensures
        has_item(items, id) <==> items.map_values(|item: PlanItem| item.id@).contains(id),
{
    let ids = items.map_values(|item: PlanItem| item.id@);
    if has_item(items, id) {
        let i = choose|i: int| 0 <= i < items.len() && (#[trigger] items[i]).id@ == id;
        assert(ids[i] == id);
    }
    if ids.contains(id) {
        assert(items[ids.index_of(id)].id@ == id);
    }
}

/// A plan that comes in where none is under way is taken as it is, with the
/// revision and the approval that it brings; only without a user to ask, a plan
/// without an approval is approved at its own revision.
pub proof fn law_fresh_plan_is_taken_as_it_is(
    existing: Option<Plan>,
    plan: Plan,
    is_autonomous: bool,
)
    requires
        existing matches Some(old_plan) ==> old_plan.complete(),
    ensures
        accepted_plan(existing, plan, is_autonomous) matches Ok(next) ==> next == (Plan {
            approved_revision: if is_autonomous && plan.approved_revision is None {
                Some(plan.revision)
            } else {
                plan.approved_revision
            },
            ..plan
        }),
{
}

/// An update of a plan under way has the id and the items of the plan that comes
/// in, the next revision, and the approval of the plan under way; only without a
/// user to ask, it is approved at its own revision where that has none.
pub proof fn law_update_has_the_next_revision(old_plan: Plan, plan: Plan, is_autonomous: bool)
    requires
        !old_plan.complete(),
        old_plan.revision < u32::MAX,
    ensures
        accepted_plan(Some(old_plan), plan, is_autonomous) matches Ok(next) ==> next == (Plan {
            revision: (old_plan.revision + 1) as u32,
            approved_revision: if is_autonomous && old_plan.approved_revision is None {
                Some((old_plan.revision + 1) as u32)
            } else {
                old_plan.approved_revision
            },
            ..plan
        }),
{
}

/// The evidence is verified exactly where the plan is approved and has items, all
/// of them done or blocked.
pub proof fn law_verification_follows_iff(plan: Plan)
    ensures
        calls_for_verification(plan) <==> {
            &&& plan.approved_revision is Some
            &&& plan.items@.len() > 0
            &&& forall|i: int|
                0 <= i < plan.items@.len() ==> (#[trigger] plan.items@[i]).state
                    == PlanState::Done || plan.items@[i].state
                    == PlanState::Blocked
        },
{
    let items = plan.items@;
    if plan.complete() {
        assert forall|i: int| 0 <= i < items.len() implies (#[trigger] items[i]).state
            == PlanState::Done || items[i].state
            == PlanState::Blocked by {
            assert(items[i].terminal());
        }
    }
}

/// The reply to a plan that was written gives its summary, then the report on
/// its evidence where that was verified and only there, and the envelope at its
/// end.
pub proof fn law_written_reply_shows_the_report(
    plan: Plan,
    probes: Seq<Vec<FileProbe>>,
    envelope_file: EnvelopeFile,
    envelope: Option<Seq<char>>,
)
    ensures
        ({
            let head = "✅ Plan updated: "@ + plan.summary() + "\n"@;
            let report = report::verification_report(
                verification::plan_result(plan, probes),
                Some(envelope_file),
            );
            let end = match envelope {
                Some(envelope) => envelope,
                None => "\n_No envelope generated._\n"@,
            };
            let reply = written_text(plan, probes, envelope_file, envelope);
            &&& plan.complete() && plan.approved() ==> reply == head + report + "\n"@ + end
            &&& !(plan.complete() && plan.approved()) ==> reply == head + end
        }),
{
}

/// The reply with a plan gives its summary, its YAML between fences, and the
/// envelope at its end.
pub proof fn law_read_reply_shows_the_plan(
    plan: Plan,
    yaml: Seq<char>,
    envelope: Option<Seq<char>>,
)
    ensures
        ({
            let end = match envelope {
                Some(envelope) => envelope,
                None => "\n_No envelope generated._\n"@,
            };
            let reply = plan_text(plan, yaml, envelope);
            &&& text::contains(reply, plan.summary())
            &&& text::contains(reply, "```yaml\n"@ + yaml + "```"@)
            &&& text::matches_at(reply, end, reply.len() - end.len())
        }),
{
    reveal_strlit("\n\n```yaml\n");
    reveal_strlit("\n\n");
    reveal_strlit("```yaml\n");
    let end = match envelope {
        Some(envelope) => envelope,
        None => "\n_No envelope generated._\n"@,
    };
    let reply = plan_text(plan, yaml, envelope);
    let block = "```yaml\n"@ + yaml + "```"@;
    assert("\n\n```yaml\n"@ =~= "\n\n"@ + "```yaml\n"@);
    assert(reply =~= "📋 "@ + plan.summary() + ("\n\n"@ + block + end));
    text::law_contains_iff_cut(reply, plan.summary(), "📋 "@, "\n\n"@ + block + end);
    assert(reply =~= "📋 "@ + plan.summary() + "\n\n"@ + block + end);
    text::law_contains_iff_cut(reply, block, "📋 "@ + plan.summary() + "\n\n"@, end);
    assert(reply.subrange(reply.len() - end.len(), reply.len() as int) =~= end);
}

/// A plan is approved exactly where there is a session with a plan that was not
/// approved before: at its revision, and with nothing else changed. Otherwise
/// the reason is that there is no session, no plan, or an approval already.
pub proof fn law_plan_can_be_approved_iff(session: bool, stored: Option<Plan>)
    ensures
        approved_plan(session, stored) is Ok <==> session && (stored matches Some(plan)
            && plan.approved_revision is None),
        approved_plan(session, stored) matches Ok(next) ==> next == (Plan {
            approved_revision: Some(stored->0.revision),
            ..stored->0
        }),
        !session ==> approved_plan(session, stored) == Err::<Plan, PlanToolError>(
            PlanToolError::NoSession,
        ),
        session && stored is None ==> approved_plan(session, stored) == Err::<Plan, PlanToolError>(
            PlanToolError::NothingToApprove,
        ),
        session ==> (stored matches Some(plan) ==> (plan.approved_revision matches Some(approved)
            ==> approved_plan(session, stored) == Err::<Plan, PlanToolError>(
            PlanToolError::AlreadyApproved {
                approved_revision: approved,
                revision: plan.revision,
            },
        ))),
{
}

/// The replies repeat the reason that they were given, the item that is missing,
/// and the revisions that they speak of.
pub proof fn law_replies_repeat_the_reason(
    reason: String,
    error: PlanError,
    approved_revision: u32,
    revision: u32,
    plan: Plan,
)
    ensures
        text::contains(PlanToolError::InvalidYaml(reason).reply(), reason@),
        text::contains(PlanToolError::RemovedItem(reason).reply(), "'"@ + reason@ + "'"@),
        text::contains(PlanToolError::InvalidPlan(error).reply(), error.message()),
        text::contains(PlanToolError::WriteFailed(reason).reply(), reason@),
        text::contains(PlanToolError::SaveFailed(reason).reply(), reason@),
        text::contains(
            (PlanToolError::AlreadyApproved { approved_revision, revision }).reply(),
            "approved at revision "@ + text::decimal(approved_revision as nat)
                + ". Current revision: "@ + text::decimal(revision as nat),
        ),
        text::contains(
            approved_text(plan),
            "approved at revision "@ + text::decimal(plan.revision as nat) + "."@,
        ),
{
    let nothing = Seq::<char>::empty();
    let a = PlanToolError::InvalidYaml(reason).reply();
    assert(a =~= "❌ Invalid plan YAML: "@ + reason@ + nothing);
    text::law_contains_iff_cut(a, reason@, "❌ Invalid plan YAML: "@, nothing);
    let c = PlanToolError::InvalidPlan(error).reply();
    assert(c =~= "❌ Plan validation failed: "@ + error.message() + nothing);
    text::law_contains_iff_cut(c, error.message(), "❌ Plan validation failed: "@, nothing);
    let d = PlanToolError::WriteFailed(reason).reply();
    assert(d =~= "❌ Failed to write plan: "@ + reason@ + nothing);
    text::law_contains_iff_cut(d, reason@, "❌ Failed to write plan: "@, nothing);
    let e = PlanToolError::SaveFailed(reason).reply();
    assert(e =~= "❌ Failed to save approved plan: "@ + reason@ + nothing);
    text::law_contains_iff_cut(e, reason@, "❌ Failed to save approved plan: "@, nothing);
    lemma_removed_item_is_quoted(reason);
    lemma_revisions_are_named(approved_revision, revision, plan);
}

proof fn lemma_removed_item_is_quoted(id: String)
    ensures
        text::contains(PlanToolError::RemovedItem(id).reply(), "'"@ + id@ + "'"@),
{
    reveal_strlit("❌ Cannot remove item '");
    reveal_strlit("❌ Cannot remove item ");
    reveal_strlit("'");
    reveal_strlit("' from approved plan. Items can only be marked blocked, not removed.");
    reveal_strlit(" from approved plan. Items can only be marked blocked, not removed.");
    let b = PlanToolError::RemovedItem(id).reply();
    let head = "❌ Cannot remove item "@;
    let tail = " from approved plan. Items can only be marked blocked, not removed."@;
    assert("❌ Cannot remove item '"@ =~= head + "'"@);
    assert("' from approved plan. Items can only be marked blocked, not removed."@ =~= "'"@ + tail);
    assert(b =~= head + ("'"@ + id@ + "'"@) + tail);
    text::law_contains_iff_cut(b, "'"@ + id@ + "'"@, head, tail);
}

proof fn lemma_revisions_are_named(approved_revision: u32, revision: u32, plan: Plan)
    ensures
        text::contains(
            (PlanToolError::AlreadyApproved { approved_revision, revision }).reply(),
            "approved at revision "@ + text::decimal(approved_revision as nat)
                + ". Current revision: "@ + text::decimal(revision as nat),
        ),
        text::contains(
            approved_text(plan),
            "approved at revision "@ + text::decimal(plan.revision as nat) + "."@,
        ),
{
    reveal_strlit("approved at revision ");
    reveal_strlit("ℹ️ Plan already approved at revision ");
    reveal_strlit("ℹ️ Plan already ");
    reveal_strlit("✅ Plan approved at revision ");
    reveal_strlit("✅ Plan ");
    reveal_strlit(".");
    reveal_strlit(". You may now begin implementation.");
    reveal_strlit(" You may now begin implementation.");
    let at = "approved at revision "@;
    let first = at + text::decimal(approved_revision as nat) + ". Current revision: "@
        + text::decimal(revision as nat);
    let a = (PlanToolError::AlreadyApproved { approved_revision, revision }).reply();
    assert("ℹ️ Plan already approved at revision "@ =~= "ℹ️ Plan already "@ + at);
    assert(a =~= "ℹ️ Plan already "@ + first + Seq::<char>::empty());
    text::law_contains_iff_cut(a, first, "ℹ️ Plan already "@, Seq::empty());
    let second = at + text::decimal(plan.revision as nat) + "."@;
    let b = approved_text(plan);
    let tail = " You may now begin implementation."@;
    assert("✅ Plan approved at revision "@ =~= "✅ Plan "@ + at);
    assert(". You may now begin implementation."@ =~= "."@ + tail);
    assert(b =~= "✅ Plan "@ + second + tail);
    text::law_contains_iff_cut(b, second, "✅ Plan "@, tail);
}

} // verus!
