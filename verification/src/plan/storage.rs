//! How a plan is kept: as YAML inside a markdown file of the session.
use crate::plan::schema::{self, Plan, PlanError, PlanState};
use crate::text;
use vstd::prelude::*;
use vstd::string::StringExecFns;

verus! {

/// Where the plan of a session is kept.
pub open spec fn plan_path(session_id: Seq<char>) -> Seq<char> {
    ".g3/sessions/"@ + session_id + "/plan.g3.md"@
}

/// Get the path to the plan.g3.md file for a session.
pub fn get_plan_path(session_id: &str) -> (r: String)
    ensures
        r@ == plan_path(session_id@),
{
    let mut path = ".g3/sessions/".to_string();
    path.append(session_id);
    path.append("/plan.g3.md");
    path
}

// ---------------------------------------------------------------------------
// Reading
// ---------------------------------------------------------------------------

/// Whether a line other than the first starts at `p` with a closing fence.
pub open spec fn fence_at(s: Seq<char>, p: int) -> bool {
    0 < p <= s.len() && s[p - 1] == '\n' && text::matches_at(s, "```"@, p)
}

/// The first position from `p` on at which a line starts with a closing fence.
pub open spec fn fence_from(s: Seq<char>, p: nat) -> Option<nat>
    decreases s.len() + 1 - p,
{
    if p > s.len() {
        None
    } else if fence_at(s, p as int) {
        Some(p)
    } else {
        fence_from(s, p + 1)
    }
}

/// The YAML in a markdown text: what stands between the first opening fence
/// and the first line behind it that starts with a closing one, without the
/// white space around it. Where there is no such block, it is the whole text.
pub open spec fn yaml_in(content: Seq<char>) -> Seq<char> {
    match text::find(content, "```yaml"@) {
        Some(start) => {
            let rest = content.skip(start as int + 7);
            match fence_from(rest, 0) {
                Some(end) => text::trimmed(rest.take(end as int)),
                None => content,
            }
        },
        None => content,
    }
}

proof fn lemma_fence_from(s: Seq<char>, p: nat)
    ensures
        match fence_from(s, p) {
            Some(k) => p <= k && fence_at(s, k as int) && forall|j: int|
                p <= j < k ==> !#[trigger] fence_at(s, j),
            None => forall|j: int| p <= j ==> !#[trigger] fence_at(s, j),
        },
    decreases s.len() + 1 - p,
{
    if p <= s.len() && !fence_at(s, p as int) {
        lemma_fence_from(s, p + 1);
    }
}

/// The first closing fence among the characters of `v`.
fn find_fence(v: &Vec<char>) -> (r: Option<usize>)
    ensures
        match r {
            Some(p) => fence_from(v@, 0) == Some(p as nat),
            None => fence_from(v@, 0) is None,
        },
{
    let fence = text::chars_of("```");
    let mut p: usize = 0;
    while p < v.len()
        invariant
            p <= v@.len(),
            fence@ == "```"@,
            fence_from(v@, 0) == fence_from(v@, p as nat),
        decreases v@.len() - p,
    {
        if p > 0 && v[p - 1] == '\n' && text::stands_at(v, &fence, p) {
            return Some(p);
        }
        p = p + 1;
    }
    proof {
        reveal_strlit("```");
        assert(!fence_at(v@, p as int));
        assert(fence_from(v@, p as nat + 1) is None);
    }
    None
}

/// Extract YAML content from a markdown file with ```yaml code block.
pub fn extract_yaml_from_markdown(content: &str) -> (r: Result<String, PlanError>)
    ensures
        r matches Ok(yaml) && yaml@ == yaml_in(content@),
{
    let v = text::chars_of(content);
    let n = v.len();
    if let Some(start) = text::find_chars(&v, &text::chars_of("```yaml")) {
        proof {
            text::lemma_find(v@, "```yaml"@);
            reveal_strlit("```yaml");
        }
        let remainder = text::string_of(&v, start + 7, n);
        assert(remainder@ =~= v@.skip(start as int + 7));
        // Find closing ``` that appears at the start of a line.
        // A simple search for ``` would match backticks embedded inside YAML
        // string values (e.g., descriptions containing code fences), truncating
        // the YAML and causing parse errors.
        let rest = text::chars_of(remainder.as_str());
        if let Some(end) = find_fence(&rest) {
            proof {
                lemma_fence_from(rest@, 0);
            }
            let block = text::string_of(&rest, 0, end);
            assert(block@ =~= rest@.take(end as int));
            return Ok(text::trim(block.as_str()));
        }
    }
    // If no code block, try parsing the whole content as YAML

    Ok(content.to_string())
}

// ---------------------------------------------------------------------------
// Writing
// ---------------------------------------------------------------------------

/// What stands in the file in front of the YAML block.
pub open spec fn markdown_head(plan: Plan) -> Seq<char> {
    "# Plan: "@ + plan.plan_id@ + "\n\n**Status**: "@ + plan.summary() + "\n\n## Plan Data\n\n"@
}

/// The YAML of a plan that could not be serialized.
pub open spec fn yaml_or_placeholder(yaml: Option<Seq<char>>) -> Seq<char> {
    match yaml {
        Some(yaml) => yaml,
        None => "# Error serializing plan"@,
    }
}

/// The markdown text for a plan, given its YAML.
pub open spec fn plan_markdown(plan: Plan, yaml: Option<Seq<char>>) -> Seq<char> {
    markdown_head(plan) + "```yaml\n"@ + yaml_or_placeholder(yaml) + "```\n"@
}

/// Format a plan as markdown with embedded YAML. The YAML of the plan comes
/// with it, or nothing where the plan could not be serialized.
pub fn format_plan_as_markdown(plan: &Plan, yaml: Option<&str>) -> (r: String)
    ensures
        r@ == plan_markdown(*plan, text::optional(yaml)),
{
    let mut md = "# Plan: ".to_string();
    md.append(plan.plan_id.as_str());
    md.append("\n\n**Status**: ");
    md.append(plan.status_summary().as_str());
    md.append("\n\n## Plan Data\n\n");
    md.append("```yaml\n");
    match yaml {
        Some(yaml) => md.append(yaml),
        None => md.append("# Error serializing plan"),
    }
    md.append("```\n");
    md
}

/// The YAML of the plan that a session has kept, given what its file holds,
/// where there is one.
pub open spec fn stored_yaml(content: Option<Seq<char>>) -> Option<Seq<char>> {
    match content {
        Some(content) => Some(yaml_in(content)),
        None => None,
    }
}

/// The YAML of the plan that a session has kept, where its file exists.
pub fn read_plan(content: Option<&str>) -> (r: Result<Option<String>, PlanError>)
    ensures
        r matches Ok(yaml) && text::optional_string(yaml) == stored_yaml(text::optional(content)),
{
    match content {
        Some(content) => match extract_yaml_from_markdown(content) {
            Ok(yaml) => Ok(Some(yaml)),
            Err(e) => Err(e),
        },
        None => Ok(None),
    }
}

/// A file to be written: where, and what.
#[derive(Debug, Clone, PartialEq, Eq)]
pub struct PlanFile {
    pub path: String,
    pub content: String,
}

/// Whether a line of `yaml` starts with a closing fence.
pub open spec fn has_fence_line(yaml: Seq<char>) -> bool {
    text::matches_at(yaml, "```"@, 0) || exists|p: int| #[trigger] fence_at(yaml, p)
}

/// Whether the YAML of a plan can be told from the rest of the file: the plan
/// id holds no opening fence, no line of the YAML starts with a closing one,
/// and its last line is ended.
pub open spec fn can_be_told_apart(plan: Plan, yaml: Seq<char>) -> bool {
    &&& !text::contains(plan.plan_id@, "```yaml"@)
    &&& yaml.len() > 0 ==> yaml.last() == '\n'
    &&& !has_fence_line(yaml)
}

/// The file that keeps the plan of a session, by path and content. Only a
/// valid plan is kept.
pub open spec fn plan_file(session_id: Seq<char>, plan: Plan, yaml: Option<Seq<char>>) -> Result<
    (Seq<char>, Seq<char>),
    PlanError,
> {
    match plan.error() {
        None => Ok((plan_path(session_id), plan_markdown(plan, yaml))),
        Some(e) => Err(e),
    }
}

/// The file that keeps the plan of a session. Only a valid plan is kept.
/// Reading the file gives the YAML back, without the white space around it,
/// where it can be told from the rest of the file.
pub fn write_plan(session_id: &str, plan: &Plan, yaml: Option<&str>) -> (r: Result<
    PlanFile,
    PlanError,
>)
    ensures
        match (r, plan_file(session_id@, *plan, text::optional(yaml))) {
            (Ok(file), Ok((path, content))) => file.path@ == path && file.content@ == content,
            (Err(e), Err(expected)) => e == expected,
            _ => false,
        },
        r matches Ok(file) ==> (yaml matches Some(yaml) ==> (can_be_told_apart(*plan, yaml@)
            ==> stored_yaml(Some(file.content@)) == Some(text::trimmed(yaml@)))),
{
    // Validate before writing
    if let Err(e) = plan.validate() {
        return Err(e);
    }
    let path = get_plan_path(session_id);
    // Format as markdown with YAML code block
    let content = format_plan_as_markdown(plan, yaml);
    proof {
        if let Some(yaml) = yaml {
            if can_be_told_apart(*plan, yaml@) {
                law_written_yaml_reads_back(*plan, yaml@);
            }
        }
    }
    Ok(PlanFile { path, content })
}

// ---------------------------------------------------------------------------
// What is written reads back
// ---------------------------------------------------------------------------

/// A text that is joined from two lacks what both lack.
proof fn lemma_lacks_joined(a: Seq<char>, b: Seq<char>, c: char)
    requires
        !a.contains(c),
        !b.contains(c),
    ensures
        !(a + b).contains(c),
{
    assert forall|i: int| 0 <= i < (a + b).len() implies (a + b)[i] != c by {
        if i < a.len() {
            assert(a[i] != c);
        } else {
            assert(b[i - a.len()] != c);
        }
    }
}

/// A number in decimal holds no backtick.
proof fn lemma_decimal_lacks_backtick(n: nat)
    ensures
        !text::decimal(n).contains('`'),
{
    text::lemma_decimal(n);
    assert forall|i: int| 0 <= i < text::decimal(n).len() implies text::decimal(n)[i] != '`' by {
        assert(text::is_digit(text::decimal(n)[i]));
    }
}

/// The summary of a plan holds no backtick behind the plan id.
proof fn lemma_summary_tail_lacks_backtick(plan: Plan)
    ensures
        !plan.summary_tail().contains('`'),
{
    reveal_strlit("' rev ");
    reveal_strlit(" (approved at rev ");
    reveal_strlit(")");
    reveal_strlit(" (NOT APPROVED)");
    reveal_strlit(": ");
    reveal_strlit("/");
    reveal_strlit(" done, ");
    reveal_strlit(" doing, ");
    reveal_strlit(" blocked, ");
    reveal_strlit(" todo");
    let approval = plan.approval_text();
    if let Some(revision) = plan.approved_revision {
        lemma_decimal_lacks_backtick(revision as nat);
        let t = " (approved at rev "@ + text::decimal(revision as nat);
        lemma_lacks_joined(" (approved at rev "@, text::decimal(revision as nat), '`');
        lemma_lacks_joined(t, ")"@, '`');
    }
    let items = plan.items@;
    let done = schema::count_in_state(items, PlanState::Done);
    let doing = schema::count_in_state(items, PlanState::Doing);
    let blocked = schema::count_in_state(items, PlanState::Blocked);
    let todo = schema::count_in_state(items, PlanState::Todo);
    lemma_decimal_lacks_backtick(plan.revision as nat);
    lemma_decimal_lacks_backtick(done);
    lemma_decimal_lacks_backtick(items.len());
    lemma_decimal_lacks_backtick(doing);
    lemma_decimal_lacks_backtick(blocked);
    lemma_decimal_lacks_backtick(todo);
    let t1 = "' rev "@ + text::decimal(plan.revision as nat);
    lemma_lacks_joined("' rev "@, text::decimal(plan.revision as nat), '`');
    let t2 = t1 + approval;
    lemma_lacks_joined(t1, approval, '`');
    let t3 = t2 + ": "@;
    lemma_lacks_joined(t2, ": "@, '`');
    let t4 = t3 + text::decimal(done);
    lemma_lacks_joined(t3, text::decimal(done), '`');
    let t5 = t4 + "/"@;
    lemma_lacks_joined(t4, "/"@, '`');
    let t6 = t5 + text::decimal(items.len());
    lemma_lacks_joined(t5, text::decimal(items.len()), '`');
    let t7 = t6 + " done, "@;
    lemma_lacks_joined(t6, " done, "@, '`');
    let t8 = t7 + text::decimal(doing);
    lemma_lacks_joined(t7, text::decimal(doing), '`');
    let t9 = t8 + " doing, "@;
    lemma_lacks_joined(t8, " doing, "@, '`');
    let t10 = t9 + text::decimal(blocked);
    lemma_lacks_joined(t9, text::decimal(blocked), '`');
    let t11 = t10 + " blocked, "@;
    lemma_lacks_joined(t10, " blocked, "@, '`');
    let t12 = t11 + text::decimal(todo);
    lemma_lacks_joined(t11, text::decimal(todo), '`');
    lemma_lacks_joined(t12, " todo"@, '`');
}

/// An opening fence cannot start where there is no backtick, nor reach beyond
/// a text that does not hold one into a character that no fence holds.
proof fn lemma_no_opening_fence(
    before: Seq<char>,
    id: Seq<char>,
    after: Seq<char>,
    s: Seq<char>,
    i: int,
)
    requires
        s == before + id + after,
        !text::contains(id, "```yaml"@),
        after.len() > 0,
        after[0] == '\n' || after[0] == '\'',
        before.len() <= i < before.len() + id.len(),
    ensures
        !text::matches_at(s, "```yaml"@, i),
{
    reveal_strlit("```yaml");
    let fence = "```yaml"@;
    if text::matches_at(s, fence, i) {
        let o = i - before.len();
        let found = s.subrange(i, i + 7);
        if o + 7 <= id.len() {
            assert(id.subrange(o, o + 7) =~= found);
            assert(text::matches_at(id, fence, o));
        } else {
            let k = id.len() - o;
            let n: int = before.len() as int + id.len();
            assert(found[k] == s[n]);
            assert(s[n] == after[0]);
        }
    }
}

/// The opening fence stands right behind the head of the file.
proof fn lemma_opening_fence(plan: Plan, rest: Seq<char>)
    requires
        !text::contains(plan.plan_id@, "```yaml"@),
    ensures
        text::find(markdown_head(plan) + "```yaml"@ + rest, "```yaml"@) == Some(
            markdown_head(plan).len(),
        ),
{
    let fence = "```yaml"@;
    let id = plan.plan_id@;
    let head = markdown_head(plan);
    let s = head + fence + rest;
    let a = "# Plan: "@;
    let b = "\n\n**Status**: "@ + "Plan '"@;
    let c = plan.summary_tail() + "\n\n## Plan Data\n\n"@;
    reveal_strlit("```yaml");
    reveal_strlit("# Plan: ");
    reveal_strlit("\n\n**Status**: ");
    reveal_strlit("Plan '");
    reveal_strlit("' rev ");
    reveal_strlit("\n\n## Plan Data\n\n");
    lemma_summary_tail_lacks_backtick(plan);
    lemma_lacks_joined(plan.summary_tail(), "\n\n## Plan Data\n\n"@, '`');
    assert(head =~= a + id + b + id + c);
    assert(c[0] == '\'') by {
        assert(plan.summary_tail()[0] == "' rev "@[0]);
    }
    let n1 = a.len() as int;
    let n2 = n1 + id.len();
    let n3 = n2 + b.len();
    let n4 = n3 + id.len();
    assert(head.len() == n4 + c.len());
    assert forall|i: int| 0 <= i < head.len() implies !#[trigger] text::matches_at(s, fence, i) by {
        if text::matches_at(s, fence, i) {
            assert(s.subrange(i, i + 7)[0] == s[i]);
            assert(s[i] == '`');
            assert(s[i] == head[i]);
            if i < n1 {
                assert(s[i] == a[i]);
            } else if i < n2 {
                assert(s =~= a + id + (b + id + c + fence + rest));
                lemma_no_opening_fence(a, id, b + id + c + fence + rest, s, i);
            } else if i < n3 {
                assert(s[i] == b[i - n2]);
            } else if i < n4 {
                assert(s =~= (a + id + b) + id + (c + fence + rest));
                lemma_no_opening_fence(a + id + b, id, c + fence + rest, s, i);
            } else {
                assert(s[i] == c[i - n4]);
            }
        }
    }
    assert(s.subrange(head.len() as int, head.len() as int + 7) =~= fence);
    text::lemma_find_is(s, fence, head.len());
}

/// The closing fence stands right behind the YAML.
proof fn lemma_closing_fence(yaml: Seq<char>)
    requires
        yaml.len() > 0 ==> yaml.last() == '\n',
        !has_fence_line(yaml),
    ensures
        fence_from(seq!['\n'] + yaml + "```\n"@, 0) == Some((yaml.len() + 1) as nat),
{
    reveal_strlit("```");
    reveal_strlit("```\n");
    let fence = "```"@;
    let s = seq!['\n'] + yaml + "```\n"@;
    let n: int = yaml.len() as int + 1;
    assert(s[n - 1] == if yaml.len() > 0 { yaml.last() } else { '\n' });
    assert(s.subrange(n, n + 3) =~= fence);
    assert(fence_at(s, n));
    assert forall|p: int| 0 <= p < n implies !#[trigger] fence_at(s, p) by {
        if fence_at(s, p) {
            let found = s.subrange(p, p + 3);
            if p + 3 > n {
                assert(found[n - 1 - p] == s[n - 1]);
            } else {
                assert(yaml.subrange(p - 1, p + 2) =~= found);
                if p > 1 {
                    assert(yaml[p - 2] == s[p - 1]);
                    assert(fence_at(yaml, p - 1));
                }
            }
        }
    }
    lemma_fence_from(s, 0);
}

/// The YAML that was written into the file is what reading the file gives
/// back, without the white space around it. This holds unless the plan id
/// holds an opening fence, or the YAML has a line that starts with a closing
/// one, or text behind its last line end.
pub proof fn law_written_yaml_reads_back(plan: Plan, yaml: Seq<char>)
    requires
        can_be_told_apart(plan, yaml),
    ensures
        yaml_in(plan_markdown(plan, Some(yaml))) == text::trimmed(yaml),
{
    reveal_strlit("```yaml");
    reveal_strlit("```yaml\n");
    let head = markdown_head(plan);
    let md = plan_markdown(plan, Some(yaml));
    let rest = seq!['\n'] + yaml + "```\n"@;
    assert(md =~= head + "```yaml"@ + rest);
    lemma_opening_fence(plan, rest);
    assert(md.skip(head.len() as int + 7) =~= rest);
    lemma_closing_fence(yaml);
    assert(rest.take(yaml.len() as int + 1) =~= seq!['\n'] + yaml);
    text::lemma_trimmed_skips_leading('\n', yaml);
}

/// What is kept for a session is what it reads: writing a valid plan succeeds,
/// and reading the file gives the YAML back, without the white space around it,
/// where it can be told from the rest of the file.
pub proof fn law_written_file_reads_back(session_id: Seq<char>, plan: Plan, yaml: Seq<char>)
    requires
        plan.valid(),
        can_be_told_apart(plan, yaml),
    ensures
        plan_file(session_id, plan, Some(yaml)) matches Ok((_, content)) && stored_yaml(
            Some(content),
        ) == Some(text::trimmed(yaml)),
{
    law_written_yaml_reads_back(plan, yaml);
}

/// A valid plan reads back as it was written, whatever writes and reads its
/// YAML, as long as the plan comes back from its YAML without the white space
/// around it, and the YAML can be told from the rest of the file.
pub proof fn law_plan_reads_back_from_its_yaml(
    session_id: Seq<char>,
    plan: Plan,
    to_yaml: spec_fn(Plan) -> Seq<char>,
    from_yaml: spec_fn(Seq<char>) -> Option<Plan>,
)
    requires
        plan.valid(),
        can_be_told_apart(plan, to_yaml(plan)),
        from_yaml(text::trimmed(to_yaml(plan))) == Some(plan),
    ensures
        plan_file(session_id, plan, Some(to_yaml(plan))) matches Ok((_, content)) && (stored_yaml(
            Some(content),
        ) matches Some(yaml) && from_yaml(yaml) == Some(plan)),
{
    law_written_yaml_reads_back(plan, to_yaml(plan));
}

/// No two sessions keep their plans in the same file.
pub proof fn law_sessions_have_their_own_files(a: Seq<char>, b: Seq<char>)
    requires
        plan_path(a) == plan_path(b),
    ensures
        a == b,
{
    let n = ".g3/sessions/"@.len() as int;
    let m = "/plan.g3.md"@.len() as int;
    assert(plan_path(a).len() == n + a.len() + m);
    assert(plan_path(b).len() == n + b.len() + m);
    assert forall|i: int| 0 <= i < a.len() implies a[i] == b[i] by {
        assert(plan_path(a)[n + i] == a[i]);
        assert(plan_path(b)[n + i] == b[i]);
    }
    assert(a =~= b);
}

/// A text without an opening fence is taken as YAML as it stands.
pub proof fn law_text_without_fence_is_yaml(content: Seq<char>)
    requires
        !text::contains(content, "```yaml"@),
    ensures
        yaml_in(content) == content,
{
    text::lemma_find(content, "```yaml"@);
}

/// The plan of a session is kept in the file `plan.g3.md` of a directory that is
/// named after the session, below that of all sessions.
pub proof fn law_plan_is_kept_in_the_session_directory(session_id: Seq<char>)
    ensures
        text::matches_at(plan_path(session_id), ".g3/sessions/"@, 0),
        text::matches_at(plan_path(session_id), session_id, ".g3/sessions/"@.len() as int),
        text::matches_at(
            plan_path(session_id),
            "/plan.g3.md"@,
            (".g3/sessions/"@ + session_id).len() as int,
        ),
        plan_path(session_id).len() == ".g3/sessions/"@.len() + session_id.len()
            + "/plan.g3.md"@.len(),
{
    let path = plan_path(session_id);
    let n = ".g3/sessions/"@.len() as int;
    let m = n + session_id.len();
    assert(path.subrange(0, n) =~= ".g3/sessions/"@);
    assert(path.subrange(n, m) =~= session_id);
    assert(path.subrange(m, m + "/plan.g3.md"@.len()) =~= "/plan.g3.md"@);
}

/// What stands between the first opening fence and the first line behind it that
/// starts with a closing one is the YAML, without the white space around it,
/// whatever stands before and behind.
pub proof fn law_fenced_block_is_the_yaml(before: Seq<char>, block: Seq<char>, after: Seq<char>)
    requires
        forall|i: int|
            0 <= i < before.len() ==> !#[trigger] text::matches_at(
                before + "```yaml"@ + (block + "\n```"@ + after),
                "```yaml"@,
                i,
            ),
        forall|p: int|
            0 < p <= block.len() && (block + "\n```"@ + after)[p - 1] == '\n' ==> !#[trigger] text::matches_at(
                block + "\n```"@ + after,
                "```"@,
                p,
            ),
    ensures
        yaml_in(before + "```yaml"@ + (block + "\n```"@ + after)) == text::trimmed(block),
{
    reveal_strlit("```yaml");
    reveal_strlit("```");
    reveal_strlit("\n```");
    let rest = block + "\n```"@ + after;
    let content = before + "```yaml"@ + rest;
    let n = before.len();
    assert(content.subrange(n as int, n as int + 7) =~= "```yaml"@);
    text::lemma_find_is(content, "```yaml"@, n);
    assert(content.skip(n as int + 7) =~= rest);
    let end = block.len() as int + 1;
    assert(rest[end - 1] == '\n');
    assert(rest.subrange(end, end + 3) =~= "```"@);
    assert(fence_at(rest, end));
    lemma_fence_from(rest, 0);
    let found = fence_from(rest, 0)->0;
    assert(found == end) by {
        if found < end {
            assert(text::matches_at(rest, "```"@, found as int));
        }
    }
    let line_end = seq!['\n'];
    assert(rest.take(end) =~= Seq::<char>::empty() + block + line_end);
    assert(text::is_blank(line_end));
    text::lemma_trimmed_ignores_surroundings(Seq::empty(), block, line_end);
}

/// A block that is never closed does not count: the text is taken as it stands.
pub proof fn law_open_block_does_not_count(content: Seq<char>)
    requires
        forall|p: int|
            0 < p && p <= content.len() && content[p - 1] == '\n' ==> !#[trigger] text::matches_at(
                content,
                "```"@,
                p,
            ),
    ensures
        yaml_in(content) == content,
{
    reveal_strlit("```yaml");
    reveal_strlit("```");
    text::lemma_find(content, "```yaml"@);
    if let Some(start) = text::find(content, "```yaml"@) {
        let n = start as int + 7;
        let rest = content.skip(n);
        lemma_fence_from(rest, 0);
        if let Some(end) = fence_from(rest, 0) {
            let p = n + end;
            assert(content[p - 1] == rest[end - 1]);
            assert(content.subrange(p, p + 3) =~= rest.subrange(end as int, end as int + 3));
            assert(text::matches_at(content, "```"@, p));
        }
    }
}

/// There is a plan to read exactly where there is a file, and its YAML is the
/// one in the file.
pub proof fn law_plan_is_stored_iff(content: Option<Seq<char>>)
    ensures
        stored_yaml(content) is Some <==> content is Some,
        content matches Some(found) ==> stored_yaml(content) == Some(yaml_in(found)),
{
}

/// A plan is kept exactly where it is valid: at the path of the session, as
/// markdown. Otherwise the reason is what is wrong with the plan.
pub proof fn law_plan_is_kept_iff_valid(
    session_id: Seq<char>,
    plan: Plan,
    yaml: Option<Seq<char>>,
)
    ensures
        plan_file(session_id, plan, yaml) is Ok <==> plan.valid(),
        plan_file(session_id, plan, yaml) matches Ok((path, content)) ==> path == plan_path(
            session_id,
        ) && content == plan_markdown(plan, yaml),
        plan_file(session_id, plan, yaml) matches Err(e) ==> plan.error() == Some(e),
{
}

/// The file starts with the id of the plan as its title, gives the summary as
/// its status, and ends with the YAML between its fences, or with a remark where
/// the plan could not be serialized.
pub proof fn law_file_shows_the_plan(plan: Plan, yaml: Option<Seq<char>>)
    ensures
        text::matches_at(plan_markdown(plan, yaml), "# Plan: "@ + plan.plan_id@ + "\n\n"@, 0),
        text::contains(plan_markdown(plan, yaml), "**Status**: "@ + plan.summary() + "\n"@),
        ({
            let block = "```yaml\n"@ + (match yaml {
                Some(yaml) => yaml,
                None => "# Error serializing plan"@,
            }) + "```\n"@;
            text::matches_at(
                plan_markdown(plan, yaml),
                block,
                plan_markdown(plan, yaml).len() - block.len(),
            )
        }),
{
    reveal_strlit("\n\n");
    reveal_strlit("\n");
    reveal_strlit("**Status**: ");
    reveal_strlit("\n\n**Status**: ");
    reveal_strlit("\n\n## Plan Data\n\n");
    reveal_strlit("\n## Plan Data\n\n");
    let md = plan_markdown(plan, yaml);
    let inside = match yaml {
        Some(yaml) => yaml,
        None => "# Error serializing plan"@,
    };
    let block = "```yaml\n"@ + inside + "```\n"@;
    let title = "# Plan: "@ + plan.plan_id@ + "\n\n"@;
    let status = "**Status**: "@ + plan.summary() + "\n"@;
    let data = "\n## Plan Data\n\n"@;
    assert("\n\n**Status**: "@ =~= "\n\n"@ + "**Status**: "@);
    assert("\n\n## Plan Data\n\n"@ =~= "\n"@ + data);
    assert(md =~= title + status + (data + block));
    assert(md.subrange(0, title.len() as int) =~= title);
    text::law_contains_iff_cut(md, status, title, data + block);
    let n = md.len() - block.len();
    assert(md.subrange(n, n + block.len()) =~= block);
}

} // verus!
