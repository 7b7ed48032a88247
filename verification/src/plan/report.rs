//! The report on the verification of a plan.
use crate::plan::evidence::{EvidenceResult, EvidenceVerification, Status, VerificationStatus};
use crate::plan::verification::{self, ItemResult, ItemVerification, PlanResult, PlanVerification};
use crate::text::{self, push_decimal, push_repeated};
use vstd::prelude::*;
use vstd::string::StringExecFns;

verus! {

/// The envelope file of a session: where it is expected, and whether it is there.
#[derive(Debug, Clone, PartialEq, Eq)]
pub struct EnvelopeFile {
    pub path: String,
    pub found: bool,
}

/// The line that frames the report.
pub open spec fn rule() -> Seq<char> {
    text::repeated("═"@, 60)
}

/// How the report speaks of the status of a piece of evidence.
pub open spec fn status_text(status: Status) -> Seq<char> {
    match status {
        Status::Verified => "✅"@,
        Status::Warning(message) => "⚠️  WARNING: "@ + message,
        Status::Error(message) => "❌ ERROR: "@ + message,
        Status::Skipped(message) => "⏭️  SKIPPED: "@ + message,
    }
}

/// The line for one piece of evidence.
pub open spec fn evidence_line(result: EvidenceResult) -> Seq<char> {
    "  "@ + status_text(result.status) + " "@ + result.evidence + "\n"@
}

/// The lines for pieces of evidence, in their order.
pub open spec fn evidence_lines(results: Seq<EvidenceResult>) -> Seq<char>
    decreases results.len(),
{
    if results.len() == 0 {
        Seq::empty()
    } else {
        evidence_lines(results.drop_last()) + evidence_line(results.last())
    }
}

/// What the report says where an item lacks evidence.
pub open spec fn missing_evidence_line(missing: bool) -> Seq<char> {
    if missing {
        "  ⚠️  WARNING: No evidence provided for done item!\n"@
    } else {
        Seq::empty()
    }
}

/// The section for one item.
pub open spec fn item_section(item: ItemResult) -> Seq<char> {
    "["@ + item.item_id + "] "@ + item.description + "\n"@ + missing_evidence_line(
        item.missing_evidence,
    ) + evidence_lines(item.evidence_results) + "\n"@
}

/// The sections for items, in their order.
pub open spec fn item_sections(items: Seq<ItemResult>) -> Seq<char>
    decreases items.len(),
{
    if items.len() == 0 {
        Seq::empty()
    } else {
        item_sections(items.drop_last()) + item_section(items.last())
    }
}

/// What the report says of the blocked items.
pub open spec fn skipped_section(skipped: nat) -> Seq<char> {
    if skipped > 0 {
        "ℹ️  "@ + text::decimal(skipped) + " blocked item(s) skipped\n\n"@
    } else {
        Seq::empty()
    }
}

/// The line that sums up the verification.
pub open spec fn summary_line(errors: nat, warnings: nat) -> Seq<char> {
    if errors > 0 || warnings > 0 {
        "⚠️  VERIFICATION COMPLETE: "@ + text::decimal(errors) + " error(s), "@ + text::decimal(
            warnings,
        ) + " warning(s)\n"@
    } else {
        "✅ VERIFICATION COMPLETE: All evidence validated\n"@
    }
}

/// What the report says of the envelope file, where there is a session.
pub open spec fn artifacts_section(envelope: Option<EnvelopeFile>) -> Seq<char> {
    match envelope {
        Some(file) => "\n"@ + "📜 ARTIFACTS\n"@ + "  "@ + (if file.found {
            "✅"@
        } else {
            "⚠️  (not found)"@
        }) + " Envelope: "@ + file.path@ + "\n"@ + "\n"@,
        None => Seq::empty(),
    }
}

/// The report on a verification.
pub open spec fn verification_report(result: PlanResult, envelope: Option<EnvelopeFile>) -> Seq<
    char,
> {
    "\n"@ + rule() + "\n"@ + "📋 PLAN VERIFICATION RESULTS\n"@ + rule() + "\n\n"@ + item_sections(
        result.item_results,
    ) + skipped_section(result.skipped_count) + summary_line(
        verification::total_errors(result.item_results),
        verification::total_warnings(result.item_results),
    ) + artifacts_section(envelope) + rule() + "\n"@
}

/// How the report speaks of the status of a piece of evidence.
fn format_status(status: &VerificationStatus) -> (r: String)
    ensures
        r@ == status_text(status@),
{
    match status {
        VerificationStatus::Verified => "✅".to_string(),
        VerificationStatus::Warning(message) => {
            let mut out = "⚠️  WARNING: ".to_string();
            out.append(message.as_str());
            out
        },
        VerificationStatus::Error(message) => {
            let mut out = "❌ ERROR: ".to_string();
            out.append(message.as_str());
            out
        },
        VerificationStatus::Skipped(message) => {
            let mut out = "⏭️  SKIPPED: ".to_string();
            out.append(message.as_str());
            out
        },
    }
}

/// The line for one piece of evidence.
fn format_evidence(result: &EvidenceVerification) -> (r: String)
    ensures
        r@ == evidence_line(result@),
{
    let mut out = "  ".to_string();
    out.append(format_status(&result.status).as_str());
    out.append(" ");
    out.append(result.evidence.as_str());
    out.append("\n");
    out
}

/// The section for one item.
fn format_item(item: &ItemVerification) -> (r: String)
    ensures
        r@ == item_section(item@),
{
    let ghost results = item@.evidence_results;
    let mut evidence = String::new();
    let mut k: usize = 0;
    assert(results.take(0) =~= Seq::<EvidenceResult>::empty());
    while k < item.evidence_results.len()
        invariant
            k <= item.evidence_results@.len(),
            results == item@.evidence_results,
            evidence@ == evidence_lines(results.take(k as int)),
        decreases item.evidence_results@.len() - k,
    {
        assert(results.take(k + 1).drop_last() =~= results.take(k as int));
        assert(results.take(k + 1).last() == item.evidence_results@[k as int]@);
        evidence.append(format_evidence(&item.evidence_results[k]).as_str());
        k = k + 1;
    }
    assert(results.take(k as int) =~= results);
    let mut out = "[".to_string();
    out.append(item.item_id.as_str());
    out.append("] ");
    out.append(item.description.as_str());
    out.append("\n");
    let missing = if item.missing_evidence {
        "  ⚠️  WARNING: No evidence provided for done item!\n".to_string()
    } else {
        String::new()
    };
    out.append(missing.as_str());
    out.append(evidence.as_str());
    out.append("\n");
    out
}

/// What the report says of the blocked items.
fn format_skipped(skipped: usize) -> (r: String)
    ensures
        r@ == skipped_section(skipped as nat),
{
    let mut out = String::new();
    if skipped > 0 {
        out = "ℹ️  ".to_string();
        push_decimal(&mut out, skipped as u64);
        out.append(" blocked item(s) skipped\n\n");
    }
    out
}

/// The line that sums up the verification.
fn format_summary(errors: usize, warnings: usize) -> (r: String)
    ensures
        r@ == summary_line(errors as nat, warnings as nat),
{
    if errors > 0 || warnings > 0 {
        let mut out = "⚠️  VERIFICATION COMPLETE: ".to_string();
        push_decimal(&mut out, errors as u64);
        out.append(" error(s), ");
        push_decimal(&mut out, warnings as u64);
        out.append(" warning(s)\n");
        out
    } else {
        "✅ VERIFICATION COMPLETE: All evidence validated\n".to_string()
    }
}

/// What the report says of the envelope file.
fn format_artifacts(envelope: &EnvelopeFile) -> (r: String)
    ensures
        r@ == artifacts_section(Some(*envelope)),
{
    let mut out = "\n".to_string();
    out.append("📜 ARTIFACTS\n");
    out.append("  ");
    if envelope.found {
        out.append("✅");
    } else {
        out.append("⚠️  (not found)");
    }
    out.append(" Envelope: ");
    out.append(envelope.path.as_str());
    out.append("\n");
    out.append("\n");
    out
}

/// Format verification results as a string for display.
/// Uses loud formatting for warnings and errors.
/// If the envelope file of a session is provided, also says whether it exists
/// at the expected path.
pub fn format_verification_results(
    verification: &PlanVerification,
    envelope: Option<&EnvelopeFile>,
) -> (r: String)
    requires
        verification@.countable(),
    ensures
        r@ == verification_report(
            verification@,
            match envelope {
                Some(file) => Some(*file),
                None => None,
            },
        ),
{
    let (warnings, errors) = verification.count_issues();
    let ghost items = verification@.item_results;
    let mut sections = String::new();
    let mut i: usize = 0;
    assert(items.take(0) =~= Seq::<ItemResult>::empty());
    while i < verification.item_results.len()
        invariant
            i <= verification.item_results@.len(),
            items == verification@.item_results,
            sections@ == item_sections(items.take(i as int)),
        decreases verification.item_results@.len() - i,
    {
        assert(items.take(i + 1).drop_last() =~= items.take(i as int));
        assert(items.take(i + 1).last() == verification.item_results@[i as int]@);
        sections.append(format_item(&verification.item_results[i]).as_str());
        i = i + 1;
    }
    assert(items.take(i as int) =~= items);
    let artifacts = match envelope {
        Some(file) => format_artifacts(file),
        None => String::new(),
    };
    let mut output = "\n".to_string();
    push_repeated(&mut output, "═", 60);
    output.append("\n");
    output.append("📋 PLAN VERIFICATION RESULTS\n");
    push_repeated(&mut output, "═", 60);
    output.append("\n\n");
    output.append(sections.as_str());
    output.append(format_skipped(verification.skipped_count).as_str());
    // Summary line
    output.append(format_summary(errors, warnings).as_str());
    // Envelope location, where there is a session
    output.append(artifacts.as_str());
    push_repeated(&mut output, "═", 60);
    output.append("\n");
    output
}

/// The report says that all evidence was validated exactly where the
/// verification passed.
pub proof fn law_summary_line_tells_passed(result: PlanResult)
    ensures
        result.passed() <==> summary_line(
            verification::total_errors(result.item_results),
            verification::total_warnings(result.item_results),
        ) == "✅ VERIFICATION COMPLETE: All evidence validated\n"@,
{
    verification::law_passed_iff_no_issues(result);
    reveal_strlit("✅ VERIFICATION COMPLETE: All evidence validated\n");
    reveal_strlit("⚠️  VERIFICATION COMPLETE: ");
    let line = summary_line(
        verification::total_errors(result.item_results),
        verification::total_warnings(result.item_results),
    );
    assert(result.passed() || line[0] == "⚠️  VERIFICATION COMPLETE: "@[0]);
}

/// A pattern in the middle of a text stands in a longer text, further on by
/// what the longer text has in front.
proof fn lemma_stands_further_on(
    before: Seq<char>,
    s: Seq<char>,
    after: Seq<char>,
    pattern: Seq<char>,
    i: int,
)
    requires
        text::matches_at(s, pattern, i),
    ensures
        text::matches_at(before + s + after, pattern, before.len() + i),
{
    let n = before.len() + i;
    assert((before + s + after).subrange(n, n + pattern.len()) =~= s.subrange(
        i,
        i + pattern.len(),
    ));
}

/// Where the line for each piece of evidence stands.
proof fn lemma_evidence_lines_stand(results: Seq<EvidenceResult>) -> (at: Seq<int>)
    ensures
        at.len() == results.len(),
        forall|k: int|
            0 <= k < at.len() ==> 0 <= #[trigger] at[k] && text::matches_at(
                evidence_lines(results),
                evidence_line(results[k]),
                at[k],
            ),
        forall|j: int, k: int| 0 <= j < k < at.len() ==> #[trigger] at[j] < #[trigger] at[k],
        forall|k: int| 0 <= k < at.len() ==> #[trigger] at[k] < evidence_lines(results).len(),
    decreases results.len(),
{
    if results.len() == 0 {
        Seq::empty()
    } else {
        let front = results.drop_last();
        let early = evidence_lines(front);
        let line = evidence_line(results.last());
        let before = lemma_evidence_lines_stand(front);
        let at = before.push(early.len() as int);
        reveal_strlit("\n");
        assert(line.len() > 0);
        assert forall|k: int| 0 <= k < at.len() implies 0 <= #[trigger] at[k] && text::matches_at(
            evidence_lines(results),
            evidence_line(results[k]),
            at[k],
        ) by {
            if k < front.len() {
                assert(at[k] == before[k]);
                assert(text::matches_at(early, evidence_line(front[k]), before[k]));
                lemma_stands_further_on(Seq::empty(), early, line, evidence_line(front[k]), before[k]);
                assert(Seq::<char>::empty() + early + line =~= evidence_lines(results));
            } else {
                assert(line.subrange(0, line.len() as int) =~= line);
                lemma_stands_further_on(early, line, Seq::empty(), line, 0);
                assert(early + line + Seq::<char>::empty() =~= evidence_lines(results));
            }
        }
        assert forall|j: int, k: int| 0 <= j < k < at.len() implies #[trigger] at[j]
            < #[trigger] at[k] by {
            assert(at[j] == before[j]);
            if k < front.len() {
                assert(at[k] == before[k]);
            }
        }
        assert forall|k: int| 0 <= k < at.len() implies #[trigger] at[k] < evidence_lines(
            results,
        ).len() by {
            if k < front.len() {
                assert(at[k] == before[k]);
            }
        }
        at
    }
}

/// The title of the section for an item.
spec fn title(item: ItemResult) -> Seq<char> {
    "["@ + item.item_id + "] "@ + item.description + "\n"@
}

/// Where the lines for the evidence stand in the section for an item.
proof fn lemma_section_stands(item: ItemResult) -> (at: Seq<int>)
    ensures
        at.len() == item.evidence_results.len(),
        text::matches_at(item_section(item), title(item), 0),
        forall|k: int|
            0 <= k < at.len() ==> title(item).len() <= #[trigger] at[k] < item_section(item).len()
                && text::matches_at(
                item_section(item),
                evidence_line(item.evidence_results[k]),
                at[k],
            ),
        forall|j: int, k: int| 0 <= j < k < at.len() ==> #[trigger] at[j] < #[trigger] at[k],
        title(item).len() > 0,
{
    reveal_strlit("[");
    let missing = missing_evidence_line(item.missing_evidence);
    let head = title(item) + missing;
    let lines = evidence_lines(item.evidence_results);
    let section = item_section(item);
    assert(section =~= head + lines + "\n"@);
    assert(section.subrange(0, title(item).len() as int) =~= title(item));
    let inner = lemma_evidence_lines_stand(item.evidence_results);
    let at = inner.map_values(|p: int| head.len() + p);
    assert forall|k: int| 0 <= k < at.len() implies title(item).len() <= #[trigger] at[k]
        < section.len() && text::matches_at(
        section,
        evidence_line(item.evidence_results[k]),
        at[k],
    ) by {
        assert(at[k] == head.len() + inner[k]);
        lemma_stands_further_on(
            head,
            lines,
            "\n"@,
            evidence_line(item.evidence_results[k]),
            inner[k],
        );
    }
    assert forall|j: int, k: int| 0 <= j < k < at.len() implies #[trigger] at[j]
        < #[trigger] at[k] by {
        assert(at[j] == head.len() + inner[j] && at[k] == head.len() + inner[k]);
    }
    at
}

/// Whether titles and lines stand in `s` at the given positions, in the order of
/// the items and, within an item, of its evidence, all before position `end`.
spec fn stand_in_order(
    s: Seq<char>,
    items: Seq<ItemResult>,
    at: (Seq<int>, Seq<Seq<int>>),
    end: int,
) -> bool {
    &&& at.0.len() == items.len()
    &&& at.1.len() == items.len()
    &&& forall|i: int|
        0 <= i < items.len() ==> 0 <= #[trigger] at.0[i] < end && text::matches_at(
            s,
            title(items[i]),
            at.0[i],
        )
    &&& forall|i: int, j: int| 0 <= i < j < items.len() ==> #[trigger] at.0[i] < #[trigger] at.0[j]
    &&& forall|i: int|
        0 <= i < items.len() ==> (#[trigger] at.1[i]).len() == items[i].evidence_results.len()
    &&& forall|i: int, k: int|
        0 <= i < items.len() && 0 <= k < items[i].evidence_results.len() ==> at.0[i]
            < #[trigger] at.1[i][k] < end && text::matches_at(
            s,
            evidence_line(items[i].evidence_results[k]),
            at.1[i][k],
        )
    &&& forall|i: int, j: int, k: int|
        0 <= i < j < items.len() && 0 <= k < items[i].evidence_results.len()
            ==> #[trigger] at.1[i][k] < #[trigger] at.0[j]
    &&& forall|i: int, j: int, k: int|
        0 <= i < items.len() && 0 <= j < k < items[i].evidence_results.len()
            ==> #[trigger] at.1[i][j] < #[trigger] at.1[i][k]
}

proof fn lemma_sections_stand(items: Seq<ItemResult>) -> (at: (Seq<int>, Seq<Seq<int>>))
    ensures
        stand_in_order(item_sections(items), items, at, item_sections(items).len() as int),
    decreases items.len(),
{
    if items.len() == 0 {
        (Seq::empty(), Seq::empty())
    } else {
        let front = items.drop_last();
        let early = item_sections(front);
        let section = item_section(items.last());
        let all = item_sections(items);
        let n = early.len() as int;
        let before = lemma_sections_stand(front);
        let inner = lemma_section_stands(items.last());
        let lines = inner.map_values(|p: int| n + p);
        let at = (before.0.push(n), before.1.push(lines));
        let end = all.len() as int;
        assert(Seq::<char>::empty() + early + section =~= all);
        assert(early + section + Seq::<char>::empty() =~= all);
        assert forall|i: int| 0 <= i < items.len() implies 0 <= #[trigger] at.0[i] < end
            && text::matches_at(all, title(items[i]), at.0[i]) by {
            if i < front.len() {
                assert(at.0[i] == before.0[i] && items[i] == front[i]);
                lemma_stands_further_on(
                    Seq::empty(),
                    early,
                    section,
                    title(front[i]),
                    before.0[i],
                );
            } else {
                lemma_stands_further_on(early, section, Seq::empty(), title(items.last()), 0);
            }
        }
        assert forall|i: int, j: int| 0 <= i < j < items.len() implies #[trigger] at.0[i]
            < #[trigger] at.0[j] by {
            assert(at.0[i] == before.0[i]);
            if j < front.len() {
                assert(at.0[j] == before.0[j]);
            }
        }
        assert forall|i: int| 0 <= i < items.len() implies (#[trigger] at.1[i]).len()
            == items[i].evidence_results.len() by {
            if i < front.len() {
                assert(at.1[i] == before.1[i]);
            }
        }
        assert forall|i: int, k: int|
            0 <= i < items.len() && 0 <= k < items[i].evidence_results.len() implies at.0[i]
            < #[trigger] at.1[i][k] < end && text::matches_at(
            all,
            evidence_line(items[i].evidence_results[k]),
            at.1[i][k],
        ) by {
            if i < front.len() {
                assert(at.1[i][k] == before.1[i][k] && at.0[i] == before.0[i]);
                assert(items[i] == front[i]);
                lemma_stands_further_on(
                    Seq::empty(),
                    early,
                    section,
                    evidence_line(front[i].evidence_results[k]),
                    before.1[i][k],
                );
            } else {
                assert(at.1[i][k] == n + inner[k]);
                lemma_stands_further_on(
                    early,
                    section,
                    Seq::empty(),
                    evidence_line(items[i].evidence_results[k]),
                    inner[k],
                );
            }
        }
        assert forall|i: int, j: int, k: int|
            0 <= i < j < items.len() && 0 <= k < items[i].evidence_results.len() implies
            #[trigger] at.1[i][k] < #[trigger] at.0[j] by {
            assert(at.1[i][k] == before.1[i][k]);
            assert(items[i] == front[i]);
            if j < front.len() {
                assert(at.0[j] == before.0[j]);
            }
        }
        assert forall|i: int, j: int, k: int|
            0 <= i < items.len() && 0 <= j < k < items[i].evidence_results.len() implies
            #[trigger] at.1[i][j] < #[trigger] at.1[i][k] by {
            if i < front.len() {
                assert(at.1[i][j] == before.1[i][j] && at.1[i][k] == before.1[i][k]);
                assert(items[i] == front[i]);
            } else {
                assert(at.1[i][j] == n + inner[j] && at.1[i][k] == n + inner[k]);
            }
        }
        at
    }
}

/// The report shows every item, and every piece of its evidence with its status,
/// in their order. Where they stand is given: for each item the position of the
/// line with its id and description, and for each piece of its evidence the
/// position of its line, behind that of its item and before that of the next.
pub proof fn law_report_shows_every_item(result: PlanResult, envelope: Option<EnvelopeFile>) -> (at:
    (Seq<int>, Seq<Seq<int>>))
    ensures
        at.0.len() == result.item_results.len(),
        at.1.len() == result.item_results.len(),
        forall|i: int|
            0 <= i < result.item_results.len() ==> text::matches_at(
                verification_report(result, envelope),
                "["@ + result.item_results[i].item_id + "] "@ + result.item_results[i].description
                    + "\n"@,
                #[trigger] at.0[i],
            ),
        forall|i: int, j: int|
            0 <= i < j < result.item_results.len() ==> #[trigger] at.0[i] < #[trigger] at.0[j],
        forall|i: int|
            0 <= i < result.item_results.len() ==> (#[trigger] at.1[i]).len()
                == result.item_results[i].evidence_results.len(),
        forall|i: int, k: int|
            0 <= i < result.item_results.len() && 0 <= k
                < result.item_results[i].evidence_results.len() ==> at.0[i] < #[trigger] at.1[i][k]
                && text::matches_at(
                verification_report(result, envelope),
                "  "@ + (match result.item_results[i].evidence_results[k].status {
                    Status::Verified => "✅"@,
                    Status::Warning(message) => "⚠️  WARNING: "@ + message,
                    Status::Error(message) => "❌ ERROR: "@ + message,
                    Status::Skipped(message) => "⏭️  SKIPPED: "@ + message,
                }) + " "@ + result.item_results[i].evidence_results[k].evidence + "\n"@,
                at.1[i][k],
            ),
        forall|i: int, j: int, k: int|
            0 <= i < j < result.item_results.len() && 0 <= k
                < result.item_results[i].evidence_results.len() ==> #[trigger] at.1[i][k]
                < #[trigger] at.0[j],
        forall|i: int, j: int, k: int|
            0 <= i < result.item_results.len() && 0 <= j < k
                < result.item_results[i].evidence_results.len() ==> #[trigger] at.1[i][j]
                < #[trigger] at.1[i][k],
{
    let items = result.item_results;
    let report = verification_report(result, envelope);
    let head = "\n"@ + rule() + "\n"@ + "📋 PLAN VERIFICATION RESULTS\n"@ + rule() + "\n\n"@;
    let sections = item_sections(items);
    let tail = skipped_section(result.skipped_count) + summary_line(
        verification::total_errors(items),
        verification::total_warnings(items),
    ) + artifacts_section(envelope) + rule() + "\n"@;
    assert(report =~= head + sections + tail);
    let inner = lemma_sections_stand(items);
    let n = head.len() as int;
    let at = (
        inner.0.map_values(|p: int| n + p),
        inner.1.map_values(|ps: Seq<int>| ps.map_values(|p: int| n + p)),
    );
    assert forall|i: int| 0 <= i < items.len() implies text::matches_at(
        report,
        "["@ + items[i].item_id + "] "@ + items[i].description + "\n"@,
        #[trigger] at.0[i],
    ) by {
        assert(at.0[i] == n + inner.0[i]);
        lemma_stands_further_on(head, sections, tail, title(items[i]), inner.0[i]);
    }
    assert forall|i: int, j: int| 0 <= i < j < items.len() implies #[trigger] at.0[i]
        < #[trigger] at.0[j] by {
        assert(at.0[i] == n + inner.0[i] && at.0[j] == n + inner.0[j]);
    }
    assert forall|i: int| 0 <= i < items.len() implies (#[trigger] at.1[i]).len()
        == items[i].evidence_results.len() by {
        assert(inner.1[i].len() == items[i].evidence_results.len());
    }
    assert forall|i: int, k: int|
        0 <= i < items.len() && 0 <= k < items[i].evidence_results.len() implies at.0[i]
        < #[trigger] at.1[i][k] && text::matches_at(
        report,
        "  "@ + (match items[i].evidence_results[k].status {
            Status::Verified => "✅"@,
            Status::Warning(message) => "⚠️  WARNING: "@ + message,
            Status::Error(message) => "❌ ERROR: "@ + message,
            Status::Skipped(message) => "⏭️  SKIPPED: "@ + message,
        }) + " "@ + items[i].evidence_results[k].evidence + "\n"@,
        at.1[i][k],
    ) by {
        assert(inner.1[i].len() == items[i].evidence_results.len());
        assert(at.1[i][k] == n + inner.1[i][k] && at.0[i] == n + inner.0[i]);
        lemma_stands_further_on(
            head,
            sections,
            tail,
            evidence_line(items[i].evidence_results[k]),
            inner.1[i][k],
        );
    }
    assert forall|i: int, j: int, k: int|
        0 <= i < j < items.len() && 0 <= k < items[i].evidence_results.len() implies
        #[trigger] at.1[i][k] < #[trigger] at.0[j] by {
        assert(inner.1[i].len() == items[i].evidence_results.len());
        assert(at.1[i][k] == n + inner.1[i][k] && at.0[j] == n + inner.0[j]);
    }
    assert forall|i: int, j: int, k: int|
        0 <= i < items.len() && 0 <= j < k < items[i].evidence_results.len() implies
        #[trigger] at.1[i][j] < #[trigger] at.1[i][k] by {
        assert(inner.1[i].len() == items[i].evidence_results.len());
        assert(at.1[i][j] == n + inner.1[i][j] && at.1[i][k] == n + inner.1[i][k]);
    }
    at
}

/// The sections of two lists of items follow each other, and so do the lines of
/// two lists of evidence. The section of an item has its title, a warning where
/// evidence is missing and only there, the lines for its evidence, and an empty
/// line.
pub proof fn law_sections_follow_each_other(
    a: Seq<ItemResult>,
    b: Seq<ItemResult>,
    item: ItemResult,
    first: Seq<EvidenceResult>,
    second: Seq<EvidenceResult>,
)
    ensures
        item_sections(a + b) == item_sections(a) + item_sections(b),
        item_sections(seq![item]) == "["@ + item.item_id + "] "@ + item.description + "\n"@ + (
        if item.missing_evidence {
            "  ⚠️  WARNING: No evidence provided for done item!\n"@
        } else {
            Seq::empty()
        }) + evidence_lines(item.evidence_results) + "\n"@,
        evidence_lines(first + second) == evidence_lines(first) + evidence_lines(second),
    decreases b.len() + second.len(),
{
    assert(seq![item].drop_last() =~= Seq::<ItemResult>::empty());
    assert(item_sections(seq![item].drop_last()) =~= Seq::<char>::empty());
    assert(item_sections(seq![item]) =~= item_section(item));
    if b.len() > 0 {
        law_sections_follow_each_other(a, b.drop_last(), item, first, second);
        assert((a + b).drop_last() =~= a + b.drop_last());
        assert(item_sections(a + b) =~= item_sections(a) + item_sections(b));
    } else {
        assert(a + b =~= a);
        assert(item_sections(a) + item_sections(b) =~= item_sections(a));
    }
    if second.len() > 0 {
        law_sections_follow_each_other(a, b, item, first, second.drop_last());
        assert((first + second).drop_last() =~= first + second.drop_last());
        assert(evidence_lines(first + second) =~= evidence_lines(first) + evidence_lines(second));
    } else {
        assert(first + second =~= first);
        assert(evidence_lines(first) + evidence_lines(second) =~= evidence_lines(first));
    }
}

/// The line for a piece of evidence shows its status, what is said about it, and
/// the evidence itself.
pub proof fn law_evidence_line_shows_its_status(result: EvidenceResult)
    ensures
        evidence_lines(seq![result]) == "  "@ + (match result.status {
            Status::Verified => "✅"@,
            Status::Warning(message) => "⚠️  WARNING: "@ + message,
            Status::Error(message) => "❌ ERROR: "@ + message,
            Status::Skipped(message) => "⏭️  SKIPPED: "@ + message,
        }) + " "@ + result.evidence + "\n"@,
{
    assert(seq![result].drop_last() =~= Seq::<EvidenceResult>::empty());
    assert(evidence_lines(seq![result].drop_last()) =~= Seq::<char>::empty());
    assert(evidence_lines(seq![result]) =~= evidence_line(result));
}

/// The report gives the number of errors and of warnings where there are any,
/// or says that all evidence was validated; it gives the number of blocked items
/// where there are any; and it gives the path of the envelope file and whether
/// it was found, where there is a session.
pub proof fn law_report_sums_up(result: PlanResult, envelope: Option<EnvelopeFile>)
    ensures
        ({
            let report = verification_report(result, envelope);
            let errors = verification::total_errors(result.item_results);
            let warnings = verification::total_warnings(result.item_results);
            &&& errors + warnings > 0 ==> text::contains(
                report,
                text::decimal(errors) + " error(s), "@ + text::decimal(warnings)
                    + " warning(s)\n"@,
            )
            &&& errors + warnings == 0 ==> text::contains(
                report,
                "✅ VERIFICATION COMPLETE: All evidence validated\n"@,
            )
            &&& result.skipped_count > 0 ==> text::contains(
                report,
                text::decimal(result.skipped_count) + " blocked item(s) skipped\n\n"@,
            )
            &&& envelope matches Some(file) ==> text::contains(
                report,
                (if file.found {
                    "✅"@
                } else {
                    "⚠️  (not found)"@
                }) + " Envelope: "@ + file.path@ + "\n"@,
            )
            &&& text::contains(report, item_sections(result.item_results))
        }),
{
    let report = verification_report(result, envelope);
    let errors = verification::total_errors(result.item_results);
    let warnings = verification::total_warnings(result.item_results);
    let sections = item_sections(result.item_results);
    let skipped = skipped_section(result.skipped_count);
    let summary = summary_line(errors, warnings);
    lemma_parts_of_the_report(result, envelope);
    if errors + warnings > 0 {
        let counts = text::decimal(errors) + " error(s), "@ + text::decimal(warnings)
            + " warning(s)\n"@;
        let start = "⚠️  VERIFICATION COMPLETE: "@;
        assert(summary =~= start + counts + Seq::<char>::empty());
        text::law_contains_iff_cut(summary, counts, start, Seq::empty());
        lemma_part_holds(report, summary, counts);
    }
    if result.skipped_count > 0 {
        let count = text::decimal(result.skipped_count) + " blocked item(s) skipped\n\n"@;
        assert(skipped =~= "ℹ️  "@ + count + Seq::<char>::empty());
        text::law_contains_iff_cut(skipped, count, "ℹ️  "@, Seq::empty());
        lemma_part_holds(report, skipped, count);
    }
    if let Some(file) = envelope {
        lemma_artifacts_hold_the_line(file);
        let line = (if file.found {
            "✅"@
        } else {
            "⚠️  (not found)"@
        }) + " Envelope: "@ + file.path@ + "\n"@;
        lemma_part_holds(report, artifacts_section(envelope), line);
    }
}

proof fn lemma_artifacts_hold_the_line(file: EnvelopeFile)
    ensures
        text::contains(
            artifacts_section(Some(file)),
            (if file.found {
                "✅"@
            } else {
                "⚠️  (not found)"@
            }) + " Envelope: "@ + file.path@ + "\n"@,
        ),
{
    let line = (if file.found {
        "✅"@
    } else {
        "⚠️  (not found)"@
    }) + " Envelope: "@ + file.path@ + "\n"@;
    let start = "\n"@ + "📜 ARTIFACTS\n"@ + "  "@;
    assert(artifacts_section(Some(file)) =~= start + line + "\n"@);
    text::law_contains_iff_cut(artifacts_section(Some(file)), line, start, "\n"@);
}

/// What a part of a text holds, the text holds.
proof fn lemma_part_holds(s: Seq<char>, part: Seq<char>, pattern: Seq<char>)
    requires
        text::contains(s, part),
        text::contains(part, pattern),
    ensures
        text::contains(s, pattern),
{
    let i = choose|i: int| text::matches_at(s, part, i);
    let k = choose|k: int| text::matches_at(part, pattern, k);
    assert(s.subrange(i + k, i + k + pattern.len()) =~= s.subrange(i, i + part.len()).subrange(
        k,
        k + pattern.len(),
    ));
    assert(text::matches_at(s, pattern, i + k));
}

proof fn lemma_parts_of_the_report(result: PlanResult, envelope: Option<EnvelopeFile>)
    ensures
        ({
            let report = verification_report(result, envelope);
            &&& text::contains(report, item_sections(result.item_results))
            &&& text::contains(report, skipped_section(result.skipped_count))
            &&& text::contains(
                report,
                summary_line(
                    verification::total_errors(result.item_results),
                    verification::total_warnings(result.item_results),
                ),
            )
            &&& text::contains(report, artifacts_section(envelope))
        }),
{
    let report = verification_report(result, envelope);
    let head = "\n"@ + rule() + "\n"@ + "📋 PLAN VERIFICATION RESULTS\n"@ + rule() + "\n\n"@;
    let sections = item_sections(result.item_results);
    let skipped = skipped_section(result.skipped_count);
    let summary = summary_line(
        verification::total_errors(result.item_results),
        verification::total_warnings(result.item_results),
    );
    let artifacts = artifacts_section(envelope);
    let end = rule() + "\n"@;
    assert(report =~= head + sections + (skipped + summary + artifacts + end));
    text::law_contains_iff_cut(report, sections, head, skipped + summary + artifacts + end);
    assert(report =~= head + sections + skipped + (summary + artifacts + end));
    text::law_contains_iff_cut(report, skipped, head + sections, summary + artifacts + end);
    assert(report =~= head + sections + skipped + summary + (artifacts + end));
    text::law_contains_iff_cut(report, summary, head + sections + skipped, artifacts + end);
    assert(report =~= head + sections + skipped + summary + artifacts + end);
    text::law_contains_iff_cut(report, artifacts, head + sections + skipped + summary, end);
}

/// Nothing is said of blocked items where there are none, nor of an envelope
/// where there is no session: the report is shorter then, and otherwise the same.
pub proof fn law_report_leaves_out_what_is_not_there(result: PlanResult, file: EnvelopeFile)
    ensures
        skipped_section(0).len() == 0,
        artifacts_section(None).len() == 0,
        verification_report(result, Some(file)).len() == verification_report(result, None).len()
            + artifacts_section(Some(file)).len(),
        artifacts_section(Some(file)).len() > file.path@.len(),
{
    reveal_strlit(" Envelope: ");
}

/// The report starts with its title between two rules, and ends with a rule.
pub proof fn law_report_is_framed(result: PlanResult, envelope: Option<EnvelopeFile>)
    ensures
        ({
            let report = verification_report(result, envelope);
            let line = text::repeated("═"@, 60) + "\n"@;
            let head = "\n"@ + line + "📋 PLAN VERIFICATION RESULTS\n"@ + line + "\n"@;
            &&& text::matches_at(report, head + item_sections(result.item_results), 0)
            &&& text::matches_at(report, line, report.len() - line.len())
        }),
{
    reveal_strlit("\n");
    reveal_strlit("\n\n");
    assert("\n\n"@ =~= "\n"@ + "\n"@);
    let report = verification_report(result, envelope);
    let line = text::repeated("═"@, 60) + "\n"@;
    let head = "\n"@ + line + "📋 PLAN VERIFICATION RESULTS\n"@ + line + "\n"@;
    let start = head + item_sections(result.item_results);
    assert(report.subrange(0, start.len() as int) =~= start);
    assert(report.subrange(report.len() - line.len(), report.len() as int) =~= line);
}

} // verus!
