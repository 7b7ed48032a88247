//! Verification of the evidence of a completed plan.
use crate::plan::evidence::{
    self, probe_request, verify_single_evidence, EvidenceResult, EvidenceVerification, FileProbe,
    ProbeRequest, Request, VerificationStatus,
};
use crate::plan::schema::{self, Plan, PlanItem, PlanState};
use vstd::prelude::*;

verus! {

/// Result of verifying all evidence for a plan item.
#[derive(Debug, Clone)]
pub struct ItemVerification {
    /// Item ID
    pub item_id: String,
    /// Item description (for display)
    pub description: String,
    /// Results for each piece of evidence
    pub evidence_results: Vec<EvidenceVerification>,
    /// Whether the item had no evidence (warning condition)
    pub missing_evidence: bool,
}

/// The result of verifying an item, in terms of its text.
pub struct ItemResult {
    pub item_id: Seq<char>,
    pub description: Seq<char>,
    pub evidence_results: Seq<EvidenceResult>,
    pub missing_evidence: bool,
}

impl View for ItemVerification {
    type V = ItemResult;

    open spec fn view(&self) -> ItemResult {
        ItemResult {
            item_id: self.item_id@,
            description: self.description@,
            evidence_results: self.evidence_results@.map_values(|e: EvidenceVerification| e@),
            missing_evidence: self.missing_evidence,
        }
    }
}

/// Result of verifying an entire plan.
#[derive(Debug, Clone)]
pub struct PlanVerification {
    /// Plan ID
    pub plan_id: String,
    /// Results for each verified item
    pub item_results: Vec<ItemVerification>,
    /// Count of items that were skipped (blocked state)
    pub skipped_count: usize,
}

/// The result of verifying a plan, in terms of its text.
pub struct PlanResult {
    pub plan_id: Seq<char>,
    pub item_results: Seq<ItemResult>,
    pub skipped_count: nat,
}

impl View for PlanVerification {
    type V = PlanResult;

    open spec fn view(&self) -> PlanResult {
        PlanResult {
            plan_id: self.plan_id@,
            item_results: self.item_results@.map_values(|i: ItemVerification| i@),
            skipped_count: self.skipped_count as nat,
        }
    }
}

// ---------------------------------------------------------------------------
// Counting issues
// ---------------------------------------------------------------------------

/// How many of the results are warnings.
pub open spec fn warnings_among(results: Seq<EvidenceResult>) -> nat
    decreases results.len(),
{
    if results.len() == 0 {
        0
    } else {
        warnings_among(results.drop_last()) + if results.last().status is Warning {
            1nat
        } else {
            0
        }
    }
}

/// How many of the results are errors.
pub open spec fn errors_among(results: Seq<EvidenceResult>) -> nat
    decreases results.len(),
{
    if results.len() == 0 {
        0
    } else {
        errors_among(results.drop_last()) + if results.last().status is Error {
            1nat
        } else {
            0
        }
    }
}

impl ItemResult {
    /// The warnings for this item; that there is no evidence is one of them.
    pub open spec fn warnings(self) -> nat {
        warnings_among(self.evidence_results) + if self.missing_evidence {
            1nat
        } else {
            0
        }
    }

    /// Whether the item has evidence and nothing is to be said against it.
    pub open spec fn passed(self) -> bool {
        &&& !self.missing_evidence
        &&& forall|k: int|
            0 <= k < self.evidence_results.len() ==> (#[trigger] self.evidence_results[k]).status.ok()
    }
}

/// The warnings for all of `items`.
pub open spec fn total_warnings(items: Seq<ItemResult>) -> nat
    decreases items.len(),
{
    if items.len() == 0 {
        0
    } else {
        total_warnings(items.drop_last()) + items.last().warnings()
    }
}

/// The errors for all of `items`.
pub open spec fn total_errors(items: Seq<ItemResult>) -> nat
    decreases items.len(),
{
    if items.len() == 0 {
        0
    } else {
        total_errors(items.drop_last()) + errors_among(items.last().evidence_results)
    }
}

impl PlanResult {
    /// Whether every item passed.
    pub open spec fn passed(self) -> bool {
        forall|i: int|
            0 <= i < self.item_results.len() ==> (#[trigger] self.item_results[i]).passed()
    }

    /// Whether the issues can be counted in machine integers.
    pub open spec fn countable(self) -> bool {
        total_warnings(self.item_results) <= usize::MAX && total_errors(self.item_results)
            <= usize::MAX
    }
}

/// Leaving items out does not add issues.
proof fn lemma_totals_grow(items: Seq<ItemResult>, i: int)
    requires
        0 <= i <= items.len(),
    ensures
        total_warnings(items.take(i)) <= total_warnings(items),
        total_errors(items.take(i)) <= total_errors(items),
    decreases items.len(),
{
    if i < items.len() {
        lemma_totals_grow(items.drop_last(), i);
        assert(items.drop_last().take(i) =~= items.take(i));
    } else {
        assert(items.take(i) =~= items);
    }
}

/// Leaving results out does not add issues.
proof fn lemma_among_grow(results: Seq<EvidenceResult>, i: int)
    requires
        0 <= i <= results.len(),
    ensures
        warnings_among(results.take(i)) <= warnings_among(results),
        errors_among(results.take(i)) <= errors_among(results),
    decreases results.len(),
{
    if i < results.len() {
        lemma_among_grow(results.drop_last(), i);
        assert(results.drop_last().take(i) =~= results.take(i));
    } else {
        assert(results.take(i) =~= results);
    }
}

impl ItemVerification {
    /// Whether the item has evidence and nothing is to be said against it.
    fn has_passed(&self) -> (r: bool)
        ensures
            r == self@.passed(),
    {
        if self.missing_evidence {
            return false;
        }
        let mut k: usize = 0;
        while k < self.evidence_results.len()
            invariant
                k <= self.evidence_results@.len(),
                forall|j: int|
                    0 <= j < k ==> (#[trigger] self@.evidence_results[j]).status.ok(),
            decreases self.evidence_results@.len() - k,
        {
            assert(self@.evidence_results[k as int] == self.evidence_results@[k as int]@);
            if !self.evidence_results[k].status.is_ok() {
                return false;
            }
            k = k + 1;
        }
        true
    }
}

impl PlanVerification {
    /// Check if all verifications passed (no errors or warnings).
    pub fn all_passed(&self) -> (r: bool)
        ensures
            r == self@.passed(),
    {
        let mut i: usize = 0;
        while i < self.item_results.len()
            invariant
                i <= self.item_results@.len(),
                forall|j: int| 0 <= j < i ==> (#[trigger] self@.item_results[j]).passed(),
            decreases self.item_results@.len() - i,
        {
            assert(self@.item_results[i as int] == self.item_results@[i as int]@);
            if !self.item_results[i].has_passed() {
                return false;
            }
            i = i + 1;
        }
        true
    }

    /// Count total warnings and errors.
    pub fn count_issues(&self) -> (r: (usize, usize))
        requires
            self@.countable(),
        ensures
            r.0 == total_warnings(self@.item_results),
            r.1 == total_errors(self@.item_results),
    {
        let ghost items = self@.item_results;
        let mut warnings: usize = 0;
        let mut errors: usize = 0;
        let mut i: usize = 0;
        assert(items.take(0) =~= Seq::<ItemResult>::empty());
        while i < self.item_results.len()
            invariant
                i <= self.item_results@.len(),
                items == self@.item_results,
                self@.countable(),
                warnings == total_warnings(items.take(i as int)),
                errors == total_errors(items.take(i as int)),
            decreases self.item_results@.len() - i,
        {
            let item = &self.item_results[i];
            let ghost results = item@.evidence_results;
            proof {
                assert(items.take(i + 1).drop_last() =~= items.take(i as int));
                assert(items.take(i + 1).last() == item@);
                lemma_totals_grow(items, i + 1);
            }
            let ghost before = (warnings as nat, errors as nat);
            let ghost missing: nat = if item.missing_evidence {
                1
            } else {
                0
            };
            if item.missing_evidence {
                warnings = warnings + 1;
            }
            let mut k: usize = 0;
            assert(results.take(0) =~= Seq::<EvidenceResult>::empty());
            while k < item.evidence_results.len()
                invariant
                    k <= item.evidence_results@.len(),
                    results == item@.evidence_results,
                    warnings == before.0 + missing + warnings_among(results.take(k as int)),
                    errors == before.1 + errors_among(results.take(k as int)),
                    before.0 + missing + warnings_among(results) <= usize::MAX,
                    before.1 + errors_among(results) <= usize::MAX,
                decreases item.evidence_results@.len() - k,
            {
                proof {
                    assert(results.take(k + 1).drop_last() =~= results.take(k as int));
                    assert(results.take(k + 1).last() == item.evidence_results@[k as int]@);
                    lemma_among_grow(results, k + 1);
                }
                match &item.evidence_results[k].status {
                    VerificationStatus::Warning(_) => {
                        warnings = warnings + 1;
                    },
                    VerificationStatus::Error(_) => {
                        errors = errors + 1;
                    },
                    _ => {},
                }
                k = k + 1;
            }
            assert(results.take(k as int) =~= results);
            i = i + 1;
        }
        assert(items.take(i as int) =~= items);
        (warnings, errors)
    }
}

// ---------------------------------------------------------------------------
// Verifying a plan
// ---------------------------------------------------------------------------

/// The result of verifying a done item, given what was found for each piece
/// of its evidence.
pub open spec fn item_result(item: PlanItem, probes: Seq<FileProbe>) -> ItemResult {
    ItemResult {
        item_id: item.id@,
        description: item.description@,
        evidence_results: Seq::new(
            item.evidence@.len(),
            |k: int| evidence::evidence_result(item.evidence@[k]@, probes[k]),
        ),
        missing_evidence: item.evidence@.len() == 0,
    }
}

/// The results for the done items among `items`, in their order.
pub open spec fn item_results(items: Seq<PlanItem>, probes: Seq<Vec<FileProbe>>) -> Seq<ItemResult>
    decreases items.len(),
{
    if items.len() == 0 {
        Seq::empty()
    } else {
        let front = item_results(items.drop_last(), probes);
        if items.last().state == PlanState::Done {
            front.push(item_result(items.last(), probes[items.len() - 1]@))
        } else {
            front
        }
    }
}

/// The result of verifying `plan`, given what was found for each piece of
/// evidence of each item. Blocked items are counted but not verified.
pub open spec fn plan_result(plan: Plan, probes: Seq<Vec<FileProbe>>) -> PlanResult {
    PlanResult {
        plan_id: plan.plan_id@,
        item_results: item_results(plan.items@, probes),
        skipped_count: schema::count_in_state(plan.items@, PlanState::Blocked),
    }
}

/// What has to be looked up for each piece of evidence of `item`: nothing,
/// unless the item is done.
pub open spec fn item_requests(item: PlanItem) -> Seq<Request> {
    if item.state == PlanState::Done {
        Seq::new(item.evidence@.len(), |k: int| evidence::request_of(evidence::reference_of(item.evidence@[k]@)))
    } else {
        Seq::empty()
    }
}

/// Whether the probes answer the requests, one by one.
pub open spec fn all_answered(requests: Seq<Request>, probes: Seq<FileProbe>) -> bool {
    &&& probes.len() == requests.len()
    &&& forall|k: int| 0 <= k < probes.len() ==> evidence::answers(requests[k], #[trigger] probes[k])
}

/// Whether the probes answer what has to be looked up for each item of `plan`.
pub open spec fn probes_fit(plan: Plan, probes: Seq<Vec<FileProbe>>) -> bool {
    &&& probes.len() == plan.items@.len()
    &&& forall|i: int|
        0 <= i < probes.len() ==> all_answered(
            item_requests(plan.items@[i]),
            (#[trigger] probes[i])@,
        )
}

/// What has to be looked up for each piece of evidence of each item of `plan`.
pub fn plan_probe_requests(plan: &Plan) -> (r: Vec<Vec<ProbeRequest>>)
    ensures
        r@.len() == plan.items@.len(),
        forall|i: int|
            0 <= i < r@.len() ==> (#[trigger] r@[i])@.map_values(|q: ProbeRequest| q@)
                == item_requests(plan.items@[i]),
{
    let mut out: Vec<Vec<ProbeRequest>> = Vec::new();
    let mut i: usize = 0;
    while i < plan.items.len()
        invariant
            i <= plan.items@.len(),
            out@.len() == i,
            forall|j: int|
                0 <= j < i ==> (#[trigger] out@[j])@.map_values(|q: ProbeRequest| q@)
                    == item_requests(plan.items@[j]),
        decreases plan.items@.len() - i,
    {
        let item = &plan.items[i];
        let mut requests: Vec<ProbeRequest> = Vec::new();
        if item.state == PlanState::Done {
            let mut k: usize = 0;
            while k < item.evidence.len()
                invariant
                    k <= item.evidence@.len(),
                    requests@.len() == k,
                    forall|j: int|
                        0 <= j < k ==> (#[trigger] requests@[j])@ == evidence::request_of(
                            evidence::reference_of(item.evidence@[j]@),
                        ),
                decreases item.evidence@.len() - k,
            {
                requests.push(probe_request(item.evidence[k].as_str()));
                k = k + 1;
            }
        }
        assert(requests@.map_values(|q: ProbeRequest| q@) =~= item_requests(*item));
        out.push(requests);
        i = i + 1;
    }
    out
}

/// Verify the evidence of one done item.
fn verify_item(item: &PlanItem, probes: &Vec<FileProbe>) -> (r: ItemVerification)
    requires
        item.state == PlanState::Done,
        all_answered(item_requests(*item), probes@),
    ensures
        r@ == item_result(*item, probes@),
{
    let mut evidence_results: Vec<EvidenceVerification> = Vec::new();
    let mut k: usize = 0;
    while k < item.evidence.len()
        invariant
            item.state == PlanState::Done,
            all_answered(item_requests(*item), probes@),
            k <= item.evidence@.len(),
            evidence_results@.len() == k,
            forall|j: int|
                0 <= j < k ==> (#[trigger] evidence_results@[j])@ == evidence::evidence_result(
                    item.evidence@[j]@,
                    probes@[j],
                ),
        decreases item.evidence@.len() - k,
    {
        assert(evidence::answers(item_requests(*item)[k as int], probes@[k as int]));
        evidence_results.push(verify_single_evidence(item.evidence[k].as_str(), &probes[k]));
        k = k + 1;
    }
    let r = ItemVerification {
        item_id: item.id.clone(),
        description: item.description.clone(),
        evidence_results,
        missing_evidence: item.evidence.is_empty(),
    };
    assert(r@.evidence_results =~= item_result(*item, probes@).evidence_results);
    r
}

/// Verify a completed plan. Called when all items are done/blocked.
///
/// Returns a PlanVerification with results for each done item's evidence.
/// Blocked items are skipped (counted but not verified).
pub fn plan_verify(plan: &Plan, probes: &Vec<Vec<FileProbe>>) -> (r: PlanVerification)
    requires
        probes_fit(*plan, probes@),
    ensures
        r@ == plan_result(*plan, probes@),
{
    let ghost items = plan.items@;
    let mut results: Vec<ItemVerification> = Vec::new();
    let mut skipped_count: usize = 0;
    let mut i: usize = 0;
    assert(items.take(0) =~= Seq::<PlanItem>::empty());
    assert(results@.map_values(|v: ItemVerification| v@) =~= item_results(items.take(0), probes@));
    while i < plan.items.len()
        invariant
            i <= plan.items.len(),
            items == plan.items@,
            probes_fit(*plan, probes@),
            skipped_count <= i,
            skipped_count == schema::count_in_state(items.take(i as int), PlanState::Blocked),
            results@.map_values(|v: ItemVerification| v@) == item_results(
                items.take(i as int),
                probes@,
            ),
        decreases plan.items@.len() - i,
    {
        let item = &plan.items[i];
        let ghost before = results@;
        assert(items.take(i + 1).drop_last() =~= items.take(i as int));
        match item.state {
            PlanState::Blocked => {
                skipped_count = skipped_count + 1;
            },
            PlanState::Done => {
                // Verify this item's evidence
                results.push(verify_item(item, &probes[i]));
                assert(results@.map_values(|v: ItemVerification| v@) =~= before.map_values(
                    |v: ItemVerification| v@,
                ).push(item_result(*item, probes@[i as int]@)));
            },
            // Skip todo/doing items - they shouldn't be in a complete plan
            _ => {},
        }
        i = i + 1;
    }
    assert(items.take(i as int) =~= items);
    PlanVerification { plan_id: plan.plan_id.clone(), item_results: results, skipped_count }
}

// ---------------------------------------------------------------------------
// Laws
// ---------------------------------------------------------------------------

proof fn lemma_item_passed_iff(item: ItemResult, n: int)
    requires
        0 <= n <= item.evidence_results.len(),
    ensures
        warnings_among(item.evidence_results.take(n)) == 0 && errors_among(
            item.evidence_results.take(n),
        ) == 0 <==> forall|k: int|
            0 <= k < n ==> (#[trigger] item.evidence_results[k]).status.ok(),
    decreases n,
{
    let results = item.evidence_results;
    if n > 0 {
        lemma_item_passed_iff(item, n - 1);
        assert(results.take(n).drop_last() =~= results.take(n - 1));
        assert(results.take(n).last() == results[n - 1]);
    }
}

proof fn lemma_items_passed_iff(items: Seq<ItemResult>, n: int)
    requires
        0 <= n <= items.len(),
    ensures
        total_warnings(items.take(n)) == 0 && total_errors(items.take(n)) == 0 <==> forall|i: int|
            0 <= i < n ==> (#[trigger] items[i]).passed(),
    decreases n,
{
    if n > 0 {
        lemma_items_passed_iff(items, n - 1);
        let item = items[n - 1];
        lemma_item_passed_iff(item, item.evidence_results.len() as int);
        assert(item.evidence_results.take(item.evidence_results.len() as int)
            =~= item.evidence_results);
        assert(items.take(n).drop_last() =~= items.take(n - 1));
        assert(items.take(n).last() == item);
    }
}

/// A verification has passed exactly where there are no warnings and no errors.
pub proof fn law_passed_iff_no_issues(result: PlanResult)
    ensures
        result.passed() <==> total_warnings(result.item_results) == 0 && total_errors(
            result.item_results,
        ) == 0,
{
    let items = result.item_results;
    lemma_items_passed_iff(items, items.len() as int);
    assert(items.take(items.len() as int) =~= items);
}

/// There is one result for each done item.
pub proof fn law_one_result_per_done_item(items: Seq<PlanItem>, probes: Seq<Vec<FileProbe>>)
    ensures
        item_results(items, probes).len() == schema::count_in_state(items, PlanState::Done),
    decreases items.len(),
{
    if items.len() > 0 {
        law_one_result_per_done_item(items.drop_last(), probes);
    }
}

/// Each item of a complete plan is either verified or counted as skipped.
pub proof fn law_complete_plan_is_covered(plan: Plan, probes: Seq<Vec<FileProbe>>)
    requires
        plan.complete(),
    ensures
        plan_result(plan, probes).item_results.len() + plan_result(plan, probes).skipped_count
            == plan.items@.len(),
{
    law_one_result_per_done_item(plan.items@, probes);
    schema::law_states_partition_items(plan.items@);
    schema::law_complete_iff_nothing_open(plan);
}

proof fn lemma_no_missing_evidence(items: Seq<PlanItem>, probes: Seq<Vec<FileProbe>>)
    requires
        forall|i: int| 0 <= i < items.len() ==> (#[trigger] items[i]).error() is None,
    ensures
        forall|i: int|
            0 <= i < item_results(items, probes).len() ==> !(#[trigger] item_results(
                items,
                probes,
            )[i]).missing_evidence,
    decreases items.len(),
{
    if items.len() > 0 {
        let front = items.drop_last();
        assert forall|i: int| 0 <= i < front.len() implies (#[trigger] front[i]).error() is None by {
            assert(items[i].error() is None);
        }
        lemma_no_missing_evidence(front, probes);
        assert(items[items.len() - 1].error() is None);
        let results = item_results(items, probes);
        let shorter = item_results(front, probes);
        assert forall|i: int| 0 <= i < results.len() implies !(#[trigger] results[i]).missing_evidence by {
            if i < shorter.len() {
                assert(results[i] == shorter[i]);
            }
        }
    }
}

/// A valid plan never lacks evidence: done items without evidence do not pass
/// validation.
pub proof fn law_valid_plan_misses_no_evidence(
    plan: Plan,
    probes: Seq<Vec<FileProbe>>,
    i: int,
)
    requires
        plan.valid(),
        0 <= i < plan_result(plan, probes).item_results.len(),
    ensures
        !plan_result(plan, probes).item_results[i].missing_evidence,
{
    schema::law_plan_valid_iff(plan);
    lemma_no_missing_evidence(plan.items@, probes);
}

/// The result of each done item is among the results.
proof fn lemma_done_item_has_result(items: Seq<PlanItem>, probes: Seq<Vec<FileProbe>>, i: int)
    requires
        0 <= i < items.len(),
        items[i].state == PlanState::Done,
    ensures
        item_results(items, probes).contains(item_result(items[i], probes[i]@)),
    decreases items.len(),
{
    let front = items.drop_last();
    let shorter = item_results(front, probes);
    let results = item_results(items, probes);
    let result = item_result(items[i], probes[i]@);
    if i < front.len() {
        lemma_done_item_has_result(front, probes, i);
        assert(results[shorter.index_of(result)] == result);
    } else {
        assert(results[shorter.len() as int] == result);
    }
}

/// Where the verification of a plan has passed, each file that the evidence of
/// a done item points to exists.
pub proof fn law_passed_plan_has_its_files(
    plan: Plan,
    probes: Seq<Vec<FileProbe>>,
    i: int,
    k: int,
)
    requires
        plan_result(plan, probes).passed(),
        0 <= i < plan.items@.len(),
        plan.items@[i].state == PlanState::Done,
        0 <= k < plan.items@[i].evidence@.len(),
    ensures
        !(evidence::reference_of(plan.items@[i].evidence@[k]@) is Unknown) ==> !(
        probes[i]@[k] is Missing),
{
    let result = item_result(plan.items@[i], probes[i]@);
    lemma_done_item_has_result(plan.items@, probes, i);
    let j = plan_result(plan, probes).item_results.index_of(result);
    assert(plan_result(plan, probes).item_results[j].passed());
    assert(result.evidence_results[k].status.ok());
}

/// The results say all that they hold.
pub proof fn law_results_tell_all(item: ItemVerification, plan: PlanVerification, k: int)
    ensures
        item@.item_id == item.item_id@,
        item@.description == item.description@,
        item@.missing_evidence == item.missing_evidence,
        item@.evidence_results.len() == item.evidence_results@.len(),
        0 <= k < item.evidence_results@.len() ==> item@.evidence_results[k]
            == item.evidence_results@[k]@,
        plan@.plan_id == plan.plan_id@,
        plan@.skipped_count == plan.skipped_count,
        plan@.item_results.len() == plan.item_results@.len(),
        0 <= k < plan.item_results@.len() ==> plan@.item_results[k] == plan.item_results@[k]@,
{
}

/// Warnings and errors are counted one by one, each where the status is one.
pub proof fn law_issues_are_counted_one_by_one(results: Seq<EvidenceResult>)
    ensures
        warnings_among(results) == results.filter(
            |r: EvidenceResult| r.status is Warning,
        ).len(),
        errors_among(results) == results.filter(|r: EvidenceResult| r.status is Error).len(),
    decreases results.len(),
{
    reveal(Seq::filter);
    if results.len() > 0 {
        law_issues_are_counted_one_by_one(results.drop_last());
    }
}

/// The issues of an item are those of its evidence, and one more warning where
/// it has none. The issues of two lists of items add up.
pub proof fn law_issues_add_up(a: Seq<ItemResult>, b: Seq<ItemResult>, item: ItemResult)
    ensures
        total_warnings(seq![item]) == item.evidence_results.filter(
            |r: EvidenceResult| r.status is Warning,
        ).len() + if item.missing_evidence {
            1nat
        } else {
            0
        },
        total_errors(seq![item]) == item.evidence_results.filter(
            |r: EvidenceResult| r.status is Error,
        ).len(),
        total_warnings(a + b) == total_warnings(a) + total_warnings(b),
        total_errors(a + b) == total_errors(a) + total_errors(b),
    decreases b.len(),
{
    law_issues_are_counted_one_by_one(item.evidence_results);
    assert(seq![item].drop_last() =~= Seq::<ItemResult>::empty());
    assert(total_warnings(seq![item].drop_last()) == 0);
    assert(total_errors(seq![item].drop_last()) == 0);
    if b.len() == 0 {
        assert(a + b =~= a);
    } else {
        law_issues_add_up(a, b.drop_last(), item);
        assert((a + b).drop_last() =~= a + b.drop_last());
    }
}

/// A verification has passed exactly where no item lacks evidence, and each
/// piece of evidence was verified or skipped.
pub proof fn law_passed_iff_verified_or_skipped(result: PlanResult)
    ensures
        result.passed() <==> forall|i: int|
            0 <= i < result.item_results.len() ==> !(
            #[trigger] result.item_results[i]).missing_evidence && forall|k: int|
                0 <= k < result.item_results[i].evidence_results.len() ==> (
                #[trigger] result.item_results[i].evidence_results[k]).status is Verified
                    || result.item_results[i].evidence_results[k].status is Skipped,
{
    if result.passed() {
        assert forall|i: int| 0 <= i < result.item_results.len() implies !(
        #[trigger] result.item_results[i]).missing_evidence && forall|k: int|
            0 <= k < result.item_results[i].evidence_results.len() ==> (
            #[trigger] result.item_results[i].evidence_results[k]).status is Verified
                || result.item_results[i].evidence_results[k].status is Skipped by {
            assert(result.item_results[i].passed());
        }
    }
}

/// The result of an item names the item, says whether it lacks evidence, and
/// has one result for each piece of evidence, in their order: what it refers to,
/// and its status in view of what was found for it.
pub proof fn law_item_result_covers_its_evidence(item: PlanItem, probes: Seq<FileProbe>, k: int)
    ensures
        item_result(item, probes).item_id == item.id@,
        item_result(item, probes).description == item.description@,
        item_result(item, probes).missing_evidence <==> item.evidence@.len() == 0,
        item_result(item, probes).evidence_results.len() == item.evidence@.len(),
        0 <= k < item.evidence@.len() ==> {
            let result = item_result(item, probes).evidence_results[k];
            &&& result.evidence == item.evidence@[k]@
            &&& result.reference == evidence::reference_of(item.evidence@[k]@)
            &&& result.status == evidence::status_of(
                evidence::reference_of(item.evidence@[k]@),
                probes[k],
            )
        },
{
}

/// The results are those of the done items, in their order: the one for a done
/// item stands behind as many others as there are done items before it.
pub proof fn law_results_follow_the_done_items(
    items: Seq<PlanItem>,
    probes: Seq<Vec<FileProbe>>,
    i: int,
)
    ensures
        item_results(items, probes).len() == items.filter(
            |item: PlanItem| item.state == PlanState::Done,
        ).len(),
        0 <= i < items.len() && items[i].state == PlanState::Done ==> {
            let n = items.take(i).filter(|item: PlanItem| item.state == PlanState::Done).len() as int;
            &&& n < item_results(items, probes).len()
            &&& item_results(items, probes)[n] == item_result(items[i], probes[i]@)
        },
    decreases items.len(),
{
    law_one_result_per_done_item(items, probes);
    schema::law_count_is_of_the_items_in_the_state(items, PlanState::Done);
    if 0 <= i < items.len() && items[i].state == PlanState::Done {
        let front = items.drop_last();
        let n = items.take(i).filter(|item: PlanItem| item.state == PlanState::Done).len() as int;
        if i < items.len() - 1 {
            law_results_follow_the_done_items(front, probes, i);
            assert(front.take(i) =~= items.take(i));
            assert(item_results(items, probes)[n] == item_results(front, probes)[n]);
        } else {
            law_results_follow_the_done_items(front, probes, i);
            assert(front =~= items.take(i));
        }
    }
}

/// The result of a plan names the plan, holds the results of its items, and
/// counts the blocked ones.
pub proof fn law_plan_result_counts_blocked_items(plan: Plan, probes: Seq<Vec<FileProbe>>)
    ensures
        plan_result(plan, probes).plan_id == plan.plan_id@,
        plan_result(plan, probes).item_results == item_results(plan.items@, probes),
        plan_result(plan, probes).skipped_count == plan.items@.filter(
            |item: PlanItem| item.state == PlanState::Blocked,
        ).len(),
{
    schema::law_count_is_of_the_items_in_the_state(plan.items@, PlanState::Blocked);
}

/// For each piece of evidence of a done item, what it refers to is looked up;
/// for other items nothing is.
pub proof fn law_done_items_are_looked_up(item: PlanItem, k: int)
    ensures
        item.state != PlanState::Done ==> item_requests(item).len() == 0,
        item.state == PlanState::Done ==> item_requests(item).len() == item.evidence@.len(),
        item.state == PlanState::Done && 0 <= k < item.evidence@.len() ==> item_requests(item)[k]
            == evidence::request_of(evidence::reference_of(item.evidence@[k]@)),
{
}

/// What was looked up fits a plan exactly where there is an answer to each
/// request for each item, in their order. Issues can be counted where each of
/// the two counts fits a machine integer.
pub proof fn law_probes_fit_iff(plan: Plan, probes: Seq<Vec<FileProbe>>, result: PlanResult)
    ensures
        probes_fit(plan, probes) <==> {
            &&& probes.len() == plan.items@.len()
            &&& forall|i: int|
                0 <= i < probes.len() ==> (#[trigger] probes[i])@.len() == item_requests(
                    plan.items@[i],
                ).len() && forall|k: int|
                    0 <= k < probes[i]@.len() ==> evidence::answers(
                        item_requests(plan.items@[i])[k],
                        #[trigger] probes[i]@[k],
                    )
        },
        result.countable() <==> total_warnings(result.item_results) <= usize::MAX && total_errors(
            result.item_results,
        ) <= usize::MAX,
{
    if probes_fit(plan, probes) {
        assert forall|i: int| 0 <= i < probes.len() implies (#[trigger] probes[i])@.len()
            == item_requests(plan.items@[i]).len() && forall|k: int|
            0 <= k < probes[i]@.len() ==> evidence::answers(
                item_requests(plan.items@[i])[k],
                #[trigger] probes[i]@[k],
            ) by {
            assert(all_answered(item_requests(plan.items@[i]), probes[i]@));
        }
    }
}

} // verus!
