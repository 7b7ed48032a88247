//! The approval gate: file changes without an approved plan are called out.
use crate::plan::schema::Plan;
use crate::text;
use vstd::prelude::*;
use vstd::string::StringExecFns;

verus! {

/// Result of checking the plan approval gate after a tool execution.
#[derive(Debug)]
pub enum ApprovalGateResult {
    /// The plan is approved, or nothing was changed - allow the operation
    Allowed,
    /// No plan is approved, and new files were changed - blocked (warn only, never revert)
    Blocked {
        /// Message to inject into the conversation
        message: String,
    },
    /// Not a git repository - skip the check
    NotGitRepo,
}

/// The result of an approval gate, in terms of its text.
pub enum GateResult {
    Allowed,
    Blocked(Seq<char>),
    NotGitRepo,
}

impl View for ApprovalGateResult {
    type V = GateResult;

    open spec fn view(&self) -> GateResult {
        match *self {
            ApprovalGateResult::Allowed => GateResult::Allowed,
            ApprovalGateResult::Blocked { message } => GateResult::Blocked(message@),
            ApprovalGateResult::NotGitRepo => GateResult::NotGitRepo,
        }
    }
}

// ---------------------------------------------------------------------------
// Dirty files
// ---------------------------------------------------------------------------

/// The path that a line of `git status --porcelain` names: two letters and a
/// space come first. Shorter lines name none.
pub open spec fn dirty_path(line: Seq<char>) -> Option<Seq<char>> {
    if text::byte_len(line) >= 3 {
        match text::after_bytes(line, 3) {
            Some(path) => Some(text::trimmed(path)),
            None => None,
        }
    } else {
        None
    }
}

/// Whether no line has a character that straddles the start of its path.
pub open spec fn is_porcelain(output: Seq<char>) -> bool {
    forall|i: int|
        0 <= i < text::lines(output).len() && text::byte_len(#[trigger] text::lines(output)[i]) >= 3
            ==> text::after_bytes(text::lines(output)[i], 3) is Some
}

/// The paths that the lines name, each one once, in the order in which they
/// first occur.
pub open spec fn dirty_paths(lines: Seq<Seq<char>>) -> Seq<Seq<char>>
    decreases lines.len(),
{
    if lines.len() == 0 {
        Seq::empty()
    } else {
        let front = dirty_paths(lines.drop_last());
        match dirty_path(lines.last()) {
            Some(path) if !front.contains(path) => front.push(path),
            _ => front,
        }
    }
}

/// Get the dirty file paths from what `git status --porcelain` printed.
///
/// Returns no paths if not a git repo or if the command failed.
/// Each entry is the file path as reported by git (relative to repo root).
pub fn get_dirty_files(status: Option<&str>) -> (r: Vec<String>)
    requires
        status matches Some(output) ==> is_porcelain(output@),
    ensures
        text::texts(r@) == match status {
            Some(output) => dirty_paths(text::lines(output@)),
            None => Seq::empty(),
        },
{
    let mut files: Vec<String> = Vec::new();
    assert(text::texts(files@) =~= Seq::<Seq<char>>::empty());
    let output = match status {
        Some(output) => output,
        None => return files,
    };
    let lines = text::lines_of(output);
    let ghost all = text::lines(output@);
    let mut i: usize = 0;
    assert(all.take(0) =~= Seq::<Seq<char>>::empty());
    while i < lines.len()
        invariant
            i <= lines@.len(),
            all == text::lines(output@),
            all == lines@.map_values(|l: String| l@),
            is_porcelain(output@),
            text::texts(files@) == dirty_paths(all.take(i as int)),
        decreases lines@.len() - i,
    {
        let ghost before = files@;
        assert(all[i as int] == lines@[i as int]@);
        assert(all.take(i + 1).drop_last() =~= all.take(i as int));
        assert(all.take(i + 1).last() == lines@[i as int]@);
        if let Some(rest) = text::skip_bytes(lines[i].as_str(), 3) {
            proof {
                text::lemma_after_bytes(all[i as int], 3);
            }
            let path = text::trim(rest.as_str());
            if !text::holds(&files, &path) {
                files.push(path);
                assert(text::texts(files@) =~= text::texts(before).push(path@));
            }
        }
        i = i + 1;
    }
    assert(all.take(i as int) =~= all);
    files
}

// ---------------------------------------------------------------------------
// Approval
// ---------------------------------------------------------------------------

/// The files that are dirty now and were not at baseline.
pub open spec fn new_files(current: Seq<Seq<char>>, baseline: Seq<Seq<char>>) -> Seq<Seq<char>>
    decreases current.len(),
{
    if current.len() == 0 {
        Seq::empty()
    } else {
        let front = new_files(current.drop_last(), baseline);
        if baseline.contains(current.last()) {
            front
        } else {
            front.push(current.last())
        }
    }
}

/// The list of files in a message, one on each line.
pub open spec fn file_list(files: Seq<Seq<char>>) -> Seq<char>
    decreases files.len(),
{
    if files.len() == 0 {
        Seq::empty()
    } else if files.len() == 1 {
        "  - "@ + files.last()
    } else {
        file_list(files.drop_last()) + "\n"@ + "  - "@ + files.last()
    }
}

/// The message where there is no plan.
pub open spec fn no_plan_message(files: Seq<Seq<char>>) -> Seq<char> {
    "⚠️ IMPLEMENTATION BLOCKED\n\nFile changes detected without a plan:\n"@ + file_list(files)
        + "\n\nBefore implementing, you must:\n1. Create a plan with `plan_write`\n2. Get the plan approved by the user\n\nDo not attempt to implement until the plan is approved."@
}

/// The message where there is a plan that is not approved.
pub open spec fn unapproved_message(files: Seq<Seq<char>>) -> Seq<char> {
    "⚠️ IMPLEMENTATION BLOCKED\n\nFile changes detected without an approved plan:\n"@ + file_list(
        files,
    )
        + "\n\nBefore implementing, you must:\n1. Create a plan with `plan_write`\n2. Request the user's explicit approval or edits to plan\n\nDo not attempt to implement until the plan is approved."@
}

/// What an approval gate says. `plan` is the plan of the session: there may be none,
/// and reading it may have failed.
pub open spec fn gate_result(
    is_git_repo: bool,
    current: Seq<Seq<char>>,
    baseline: Seq<Seq<char>>,
    plan: Result<Option<Plan>, String>,
) -> GateResult {
    let files = new_files(current, baseline);
    if !is_git_repo {
        GateResult::NotGitRepo
    } else {
        match plan {
            Ok(Some(plan)) => if plan.approved() || files.len() == 0 {
                GateResult::Allowed
            } else {
                GateResult::Blocked(unapproved_message(files))
            },
            Ok(None) => if files.len() == 0 {
                GateResult::Allowed
            } else {
                GateResult::Blocked(no_plan_message(files))
            },
            Err(_) => GateResult::Allowed,
        }
    }
}

/// The list of files in a message, one on each line.
fn format_file_list(files: &Vec<&String>, Ghost(names): Ghost<Seq<Seq<char>>>) -> (r: String)
    requires
        names.len() == files@.len(),
        forall|i: int| 0 <= i < names.len() ==> files@[i]@ == #[trigger] names[i],
    ensures
        r@ == file_list(names),
{
    let mut out = String::new();
    let mut i: usize = 0;
    while i < files.len()
        invariant
            i <= files@.len(),
            names.len() == files@.len(),
            forall|j: int| 0 <= j < names.len() ==> files@[j]@ == #[trigger] names[j],
            out@ == file_list(names.take(i as int)),
        decreases files@.len() - i,
    {
        assert(names.take(i + 1).drop_last() =~= names.take(i as int));
        assert(names.take(i + 1).last() == files@[i as int]@);
        if i > 0 {
            out.append("\n");
        }
        out.append("  - ");
        out.append(files[i].as_str());
        i = i + 1;
        assert(out@ =~= file_list(names.take(i as int)));
    }
    assert(names.take(i as int) =~= names);
    out
}

/// Check if file changes occurred without an approved plan.
///
/// This function should be called after each tool execution when in plan mode.
/// It looks at the dirty files (excluding any files that were already dirty at
/// baseline), and if no plan is approved, returns a blocking message. **Never
/// reverts or deletes files.**
pub fn check_plan_approval_gate(
    is_git_repo: bool,
    current_dirty: &Vec<String>,
    baseline_dirty: &Vec<String>,
    plan: &Result<Option<Plan>, String>,
) -> (r: ApprovalGateResult)
    ensures
        r@ == gate_result(is_git_repo, text::texts(current_dirty@), text::texts(baseline_dirty@), *plan),
{
    if !is_git_repo {
        return ApprovalGateResult::NotGitRepo;
    }
    // Current dirty files, excluding baseline

    let ghost current = text::texts(current_dirty@);
    let ghost baseline = text::texts(baseline_dirty@);
    let mut new_dirty: Vec<&String> = Vec::new();
    let mut i: usize = 0;
    assert(current.take(0) =~= Seq::<Seq<char>>::empty());
    while i < current_dirty.len()
        invariant
            i <= current_dirty@.len(),
            current == text::texts(current_dirty@),
            baseline == text::texts(baseline_dirty@),
            new_dirty@.len() == new_files(current.take(i as int), baseline).len(),
            forall|j: int|
                0 <= j < new_dirty@.len() ==> new_dirty@[j]@ == #[trigger] new_files(
                    current.take(i as int),
                    baseline,
                )[j],
        decreases current_dirty@.len() - i,
    {
        assert(current.take(i + 1).drop_last() =~= current.take(i as int));
        assert(current.take(i + 1).last() == current_dirty@[i as int]@);
        if !text::holds(baseline_dirty, &current_dirty[i]) {
            new_dirty.push(&current_dirty[i]);
        }
        i = i + 1;
    }
    assert(current.take(i as int) =~= current);
    let ghost files = new_files(current, baseline);
    // Whether a plan exists and whether it's approved

    let mut message = match plan {
        Ok(Some(plan)) => {
            if plan.is_approved() || new_dirty.is_empty() {
                return ApprovalGateResult::Allowed;
            }
            "⚠️ IMPLEMENTATION BLOCKED\n\nFile changes detected without an approved plan:\n".to_string()
        },
        Ok(None) => {
            if new_dirty.is_empty() {
                return ApprovalGateResult::Allowed;
            }
            "⚠️ IMPLEMENTATION BLOCKED\n\nFile changes detected without a plan:\n".to_string()
        },
        Err(_) => return ApprovalGateResult::Allowed,  // Can't read plan, allow (error case)
    };
    message.append(format_file_list(&new_dirty, Ghost(files)).as_str());
    if let Ok(None) = plan {
        message.append(
            "\n\nBefore implementing, you must:\n1. Create a plan with `plan_write`\n2. Get the plan approved by the user\n\nDo not attempt to implement until the plan is approved.",
        );
    } else {
        message.append(
            "\n\nBefore implementing, you must:\n1. Create a plan with `plan_write`\n2. Request the user's explicit approval or edits to plan\n\nDo not attempt to implement until the plan is approved.",
        );
    }
    ApprovalGateResult::Blocked { message }
}

// ---------------------------------------------------------------------------
// Laws
// ---------------------------------------------------------------------------

/// A file counts as new exactly where it is dirty now and was not at baseline.
pub proof fn law_new_file_iff(current: Seq<Seq<char>>, baseline: Seq<Seq<char>>, file: Seq<char>)
    ensures
        new_files(current, baseline).contains(file) <==> current.contains(file)
            && !baseline.contains(file),
    decreases current.len(),
{
    if current.len() > 0 {
        let front = current.drop_last();
        let last = current.last();
        let before = new_files(front, baseline);
        let after = new_files(current, baseline);
        law_new_file_iff(front, baseline, file);
        if after.contains(file) {
            let i = after.index_of(file);
            if i < before.len() {
                assert(before[i] == file);
                let j = front.index_of(file);
                assert(current[j] == file);
            } else {
                assert(current[current.len() - 1] == file);
            }
        }
        if current.contains(file) && !baseline.contains(file) {
            if file == last {
                assert(after[before.len() as int] == file);
            } else {
                let j = current.index_of(file);
                assert(front[j] == file);
                let i = before.index_of(file);
                assert(after[i] == file);
            }
        }
    }
}

/// There are new files exactly where some dirty file was not dirty at baseline.
proof fn lemma_new_files_empty_iff(current: Seq<Seq<char>>, baseline: Seq<Seq<char>>)
    ensures
        new_files(current, baseline).len() == 0 <==> forall|i: int|
            0 <= i < current.len() ==> baseline.contains(#[trigger] current[i]),
{
    let files = new_files(current, baseline);
    if files.len() > 0 {
        law_new_file_iff(current, baseline, files[0]);
        assert(files.contains(files[0]));
        let i = current.index_of(files[0]);
        assert(!baseline.contains(current[i]));
    } else {
        assert forall|i: int| 0 <= i < current.len() implies baseline.contains(
            #[trigger] current[i],
        ) by {
            law_new_file_iff(current, baseline, current[i]);
            assert(current.contains(current[i]));
        }
    }
}

/// An approval gate blocks exactly where a git repository has a dirty file that was
/// not dirty at baseline, and the session has a plan that is not approved or
/// no plan at all.
pub proof fn law_gate_blocks_iff(
    is_git_repo: bool,
    current: Seq<Seq<char>>,
    baseline: Seq<Seq<char>>,
    plan: Result<Option<Plan>, String>,
)
    ensures
        gate_result(is_git_repo, current, baseline, plan) is Blocked <==> {
            &&& is_git_repo
            &&& plan matches Ok(found) && (found matches Some(p) ==> !p.approved())
            &&& exists|i: int| 0 <= i < current.len() && !baseline.contains(#[trigger] current[i])
        },
{
    lemma_new_files_empty_iff(current, baseline);
}

/// Files that were dirty at baseline never block: where there are no others,
/// a git repository is allowed, whatever became of the plan.
pub proof fn law_baseline_never_blocks(
    current: Seq<Seq<char>>,
    baseline: Seq<Seq<char>>,
    plan: Result<Option<Plan>, String>,
)
    requires
        forall|i: int| 0 <= i < current.len() ==> baseline.contains(#[trigger] current[i]),
    ensures
        gate_result(true, current, baseline, plan) is Allowed,
{
    lemma_new_files_empty_iff(current, baseline);
}

/// An approved plan is never blocked.
pub proof fn law_approved_plan_is_allowed(
    current: Seq<Seq<char>>,
    baseline: Seq<Seq<char>>,
    plan: Plan,
)
    requires
        plan.approved(),
    ensures
        gate_result(true, current, baseline, Ok(Some(plan))) is Allowed,
{
}

/// The list holds the line of each file.
proof fn lemma_file_list_holds(files: Seq<Seq<char>>, i: int)
    requires
        0 <= i < files.len(),
    ensures
        text::contains(file_list(files), "  - "@ + files[i]),
    decreases files.len(),
{
    let entry = "  - "@ + files[i];
    let all = file_list(files);
    if i == files.len() - 1 {
        let start = all.len() - entry.len();
        assert(all.subrange(start, start + entry.len()) =~= entry);
        assert(text::matches_at(all, entry, start));
    } else {
        let front = files.drop_last();
        lemma_file_list_holds(front, i);
        let k = choose|k: int| text::matches_at(file_list(front), entry, k);
        assert(all.subrange(k, k + entry.len()) =~= file_list(front).subrange(
            k,
            k + entry.len(),
        ));
        assert(text::matches_at(all, entry, k));
    }
}

/// A message that blocks mentions every new file.
pub proof fn law_blocking_message_mentions_new_files(
    current: Seq<Seq<char>>,
    baseline: Seq<Seq<char>>,
    plan: Result<Option<Plan>, String>,
    file: Seq<char>,
)
    requires
        current.contains(file),
        !baseline.contains(file),
    ensures
        gate_result(true, current, baseline, plan) matches GateResult::Blocked(message)
            ==> text::contains(message, "  - "@ + file),
{
    let files = new_files(current, baseline);
    law_new_file_iff(current, baseline, file);
    let i = files.index_of(file);
    let entry = "  - "@ + file;
    let list = file_list(files);
    lemma_file_list_holds(files, i);
    let k = choose|k: int| text::matches_at(list, entry, k);
    if let GateResult::Blocked(message) = gate_result(true, current, baseline, plan) {
        let head = if plan matches Ok(Some(_)) {
            "⚠️ IMPLEMENTATION BLOCKED\n\nFile changes detected without an approved plan:\n"@
        } else {
            "⚠️ IMPLEMENTATION BLOCKED\n\nFile changes detected without a plan:\n"@
        };
        let n = head.len() as int;
        assert(message.subrange(n + k, n + k + entry.len()) =~= list.subrange(k, k + entry.len()));
        assert(text::matches_at(message, entry, n + k));
    }
}

/// No path is reported twice.
pub proof fn law_dirty_paths_are_distinct(lines: Seq<Seq<char>>)
    ensures
        dirty_paths(lines).no_duplicates(),
    decreases lines.len(),
{
    if lines.len() > 0 {
        let front = dirty_paths(lines.drop_last());
        law_dirty_paths_are_distinct(lines.drop_last());
        let all = dirty_paths(lines);
        assert forall|i: int, j: int|
            0 <= i < all.len() && 0 <= j < all.len() && i != j implies all[i] != all[j] by {
            if i < front.len() && j < front.len() {
                assert(front[i] != front[j]);
            } else if i < front.len() {
                assert(front.contains(front[i]));
            } else {
                assert(front.contains(front[j]));
            }
        }
    }
}

/// A path is reported exactly where a line names it.
pub proof fn law_dirty_path_iff(lines: Seq<Seq<char>>, path: Seq<char>)
    ensures
        dirty_paths(lines).contains(path) <==> exists|i: int|
            0 <= i < lines.len() && dirty_path(#[trigger] lines[i]) == Some(path),
    decreases lines.len(),
{
    if lines.len() > 0 {
        let shorter = lines.drop_last();
        let front = dirty_paths(shorter);
        let all = dirty_paths(lines);
        law_dirty_path_iff(shorter, path);
        if all.contains(path) {
            let k = all.index_of(path);
            if k < front.len() {
                assert(front[k] == path);
                let i = choose|i: int|
                    0 <= i < shorter.len() && dirty_path(#[trigger] shorter[i]) == Some(path);
                assert(dirty_path(lines[i]) == Some(path));
            } else {
                assert(dirty_path(lines[lines.len() - 1]) == Some(path));
            }
        }
        if exists|i: int| 0 <= i < lines.len() && dirty_path(#[trigger] lines[i]) == Some(path) {
            let i = choose|i: int|
                0 <= i < lines.len() && dirty_path(#[trigger] lines[i]) == Some(path);
            if i < shorter.len() {
                assert(dirty_path(shorter[i]) == Some(path));
                let k = front.index_of(path);
                assert(all[k] == path);
            } else if front.contains(path) {
                let k = front.index_of(path);
                assert(all[k] == path);
            } else {
                assert(all[front.len() as int] == path);
            }
        }
    } else {
        assert(!dirty_paths(lines).contains(path));
    }
}

/// Which path a line names, and that it names one, does not depend on the two
/// letters in front: whatever they are in ASCII, the line names the path behind
/// them and a space, if the path has no white space at its ends.
pub proof fn law_line_names_its_path(x: char, y: char, path: Seq<char>)
    requires
        x <= '\u{7f}',
        y <= '\u{7f}',
        path.len() > 0 ==> !text::is_white_space(path[0]) && !text::is_white_space(path.last()),
    ensures
        dirty_path(seq![x, y, ' '] + path) == Some(path),
{
    lemma_path_behind_letters(seq![x, y, ' '], path);
    text::lemma_trimmed_unchanged(path);
}

/// Every line names the path behind its first three bytes, without white space
/// at its ends, whatever these bytes are; where a character straddles their
/// end, or where there are fewer of them, it names none.
pub proof fn law_path_stands_behind_three_bytes(line: Seq<char>, front: Seq<char>, path: Seq<char>)
    ensures
        line == front + path && vstd::utf8::encode_utf8(front).len() == 3 ==> dirty_path(line)
            == Some(text::trimmed(path)),
        vstd::utf8::encode_utf8(line).len() < 3 ==> dirty_path(line) is None,
        dirty_path(line) is Some <==> text::after_bytes(line, 3) is Some,
{
    if line == front + path && vstd::utf8::encode_utf8(front).len() == 3 {
        text::law_text_behind_its_bytes(front, path);
        text::lemma_after_bytes(line, 3);
    }
    if text::after_bytes(line, 3) is Some {
        text::lemma_after_bytes(line, 3);
    }
}

/// Three characters of ASCII are three bytes.
proof fn lemma_path_behind_letters(letters: Seq<char>, path: Seq<char>)
    requires
        letters.len() == 3,
        vstd::utf8::is_ascii_chars(letters),
    ensures
        vstd::utf8::encode_utf8(letters).len() == 3,
        dirty_path(letters + path) == Some(text::trimmed(path)),
{
    vstd::utf8::is_ascii_chars_encode_utf8(letters);
    law_path_stands_behind_three_bytes(letters + path, letters, path);
}

/// Every line of the output with three characters of ASCII or more in front
/// brings its path among the dirty files, whatever its letters are and whatever
/// the other lines are.
pub proof fn law_every_line_brings_its_path(
    lines: Seq<Seq<char>>,
    i: int,
    x: char,
    y: char,
    path: Seq<char>,
)
    requires
        0 <= i < lines.len(),
        lines[i] == seq![x, y, ' '] + path,
        x <= '\u{7f}',
        y <= '\u{7f}',
        path.len() > 0 ==> !text::is_white_space(path[0]) && !text::is_white_space(path.last()),
    ensures
        dirty_paths(lines).contains(path),
{
    law_line_names_its_path(x, y, path);
    law_dirty_path_iff(lines, path);
    assert(dirty_path(lines[i]) == Some(path));
}

/// Paths are reported in the order in which the lines first name them: another
/// line adds its path behind those of the lines before it, if it is new.
pub proof fn law_another_line_adds_its_path(lines: Seq<Seq<char>>, line: Seq<char>)
    ensures
        dirty_paths(Seq::<Seq<char>>::empty()).len() == 0,
        dirty_paths(lines.push(line)) == match dirty_path(line) {
            Some(path) if !dirty_paths(lines).contains(path) => dirty_paths(lines).push(path),
            _ => dirty_paths(lines),
        },
{
    assert(lines.push(line).drop_last() =~= lines);
}

/// What git prints in ASCII can always be read.
pub proof fn law_ascii_output_can_be_read(output: Seq<char>)
    requires
        vstd::utf8::is_ascii_chars(output),
    ensures
        is_porcelain(output),
{
    assert forall|k: int|
        0 <= k < text::lines(output).len() && text::byte_len(#[trigger] text::lines(output)[k])
            >= 3 implies text::after_bytes(text::lines(output)[k], 3) is Some by {
        let line = text::lines(output)[k];
        lemma_lines_are_ascii(output, k);
        vstd::utf8::is_ascii_chars_encode_utf8(line);
        let letters = line.take(3);
        assert forall|j: int| 0 <= j < 3 implies '\0' <= #[trigger] letters[j] <= '\u{7f}' by {
            assert(letters[j] == line[j]);
        }
        assert(line =~= letters + line.skip(3));
        lemma_path_behind_letters(letters, line.skip(3));
        text::law_text_behind_its_bytes(letters, line.skip(3));
    }
}

proof fn lemma_lines_are_ascii(s: Seq<char>, k: int)
    requires
        vstd::utf8::is_ascii_chars(s),
        0 <= k < text::lines(s).len(),
    ensures
        vstd::utf8::is_ascii_chars(text::lines(s)[k]),
    decreases s.len(),
{
    text::lemma_first_index(s, '\n');
    if let Some(end) = text::first_index(s, '\n') {
        let first = text::without_cr(s.take(end as int));
        let rest = s.skip(end as int + 1);
        assert forall|i: int| 0 <= i < first.len() implies '\0' <= #[trigger] first[i]
            <= '\u{7f}' by {
            assert(first[i] == s[i]);
        }
        assert forall|i: int| 0 <= i < rest.len() implies '\0' <= #[trigger] rest[i]
            <= '\u{7f}' by {
            assert(rest[i] == s[end + 1 + i]);
        }
        if k > 0 {
            lemma_lines_are_ascii(rest, k - 1);
        }
    }
}

/// The new files are the dirty ones that were not dirty at baseline, in their
/// order.
pub proof fn law_new_files_keep_their_order(current: Seq<Seq<char>>, baseline: Seq<Seq<char>>)
    ensures
        new_files(current, baseline) == current.filter(|file: Seq<char>| !baseline.contains(file)),
    decreases current.len(),
{
    reveal(Seq::filter);
    if current.len() > 0 {
        law_new_files_keep_their_order(current.drop_last(), baseline);
    }
}

/// The list has one line for each file, with nothing but a dash in front of it,
/// where no file has a line end in its name.
pub proof fn law_list_has_a_line_for_each_file(files: Seq<Seq<char>>)
    requires
        forall|i: int|
            0 <= i < files.len() ==> !(#[trigger] files[i]).contains('\n') && !files[i].contains(
                '\r',
            ),
    ensures
        text::lines(file_list(files)) == files.map_values(|file: Seq<char>| "  - "@ + file),
    decreases files.len(),
{
    reveal_strlit("  - ");
    let entries = files.map_values(|file: Seq<char>| "  - "@ + file);
    if files.len() == 0 {
        assert(entries =~= Seq::<Seq<char>>::empty());
    } else {
        let first = "  - "@ + files[0];
        assert(!first.contains('\n') && !first.contains('\r')) by {
            assert(!files[0].contains('\n') && !files[0].contains('\r'));
            assert forall|k: int| 0 <= k < first.len() implies first[k] != '\n' && first[k]
                != '\r' by {
                if k >= 4 {
                    assert(first[k] == files[0][k - 4]);
                }
            }
        }
        if files.len() == 1 {
            text::law_text_without_line_end_is_one_line(first);
            assert(entries =~= seq![first]);
        } else {
            let rest = files.skip(1);
            assert forall|i: int| 0 <= i < rest.len() implies !(#[trigger] rest[i]).contains('\n')
                && !rest[i].contains('\r') by {
                assert(rest[i] == files[i + 1]);
            }
            law_list_has_a_line_for_each_file(rest);
            lemma_file_list_from_the_front(files);
            text::law_first_line_comes_first(first, file_list(rest));
            assert(entries =~= seq![first] + rest.map_values(|file: Seq<char>| "  - "@ + file));
        }
    }
}

proof fn lemma_file_list_from_the_front(files: Seq<Seq<char>>)
    requires
        files.len() > 1,
    ensures
        file_list(files) == "  - "@ + files[0] + seq!['\n'] + file_list(files.skip(1)),
    decreases files.len(),
{
    reveal_strlit("\n");
    assert("\n"@ =~= seq!['\n']);
    let front = files.drop_last();
    let rest = files.skip(1);
    if files.len() == 2 {
        assert(front.last() == files[0]);
        assert(rest.last() == files[1]);
        assert(file_list(front) == "  - "@ + files[0]);
        assert(file_list(rest) == "  - "@ + files[1]);
        assert(file_list(files) =~= "  - "@ + files[0] + seq!['\n'] + file_list(rest));
    } else {
        lemma_file_list_from_the_front(front);
        assert(front.skip(1) =~= rest.drop_last());
        assert(rest.last() == files.last());
        assert(file_list(files) =~= "  - "@ + files[0] + seq!['\n'] + file_list(rest));
    }
}

/// Outside of a git repository nothing is checked, and only there. A plan that
/// cannot be read never blocks.
pub proof fn law_gate_is_skipped_iff(
    is_git_repo: bool,
    current: Seq<Seq<char>>,
    baseline: Seq<Seq<char>>,
    plan: Result<Option<Plan>, String>,
)
    ensures
        gate_result(is_git_repo, current, baseline, plan) is NotGitRepo <==> !is_git_repo,
        is_git_repo && plan is Err ==> gate_result(is_git_repo, current, baseline, plan) is Allowed,
{
}

/// A message that blocks says that the implementation is blocked, whether there
/// is no plan or one that is not approved, which files are new, and how to go on.
pub proof fn law_blocking_message_says_why(
    current: Seq<Seq<char>>,
    baseline: Seq<Seq<char>>,
    plan: Result<Option<Plan>, String>,
)
    ensures
        gate_result(true, current, baseline, plan) matches GateResult::Blocked(message) ==> {
            &&& text::contains(message, "IMPLEMENTATION BLOCKED"@)
            &&& plan == Ok::<Option<Plan>, String>(None) ==> text::contains(
                message,
                "File changes detected without a plan:\n"@ + file_list(
                    new_files(current, baseline),
                ),
            )
            &&& plan matches Ok(Some(_)) ==> text::contains(
                message,
                "File changes detected without an approved plan:\n"@ + file_list(
                    new_files(current, baseline),
                ),
            )
            &&& text::contains(message, "1. Create a plan with `plan_write`\n"@)
            &&& text::contains(message, "Do not attempt to implement until the plan is approved."@)
        },
{
    if let GateResult::Blocked(message) = gate_result(true, current, baseline, plan) {
        let list = file_list(new_files(current, baseline));
        let title = "⚠️ "@ + "IMPLEMENTATION BLOCKED"@ + "\n\n"@;
        let last = "Do not attempt to implement until the plan is approved."@;
        let step = "1. Create a plan with `plan_write`\n"@;
        let asked = "\n\nBefore implementing, you must:\n"@;
        reveal_strlit("⚠️ ");
        reveal_strlit("IMPLEMENTATION BLOCKED");
        reveal_strlit("\n\n");
        reveal_strlit("File changes detected without a plan:\n");
        reveal_strlit("File changes detected without an approved plan:\n");
        reveal_strlit("⚠️ IMPLEMENTATION BLOCKED\n\nFile changes detected without a plan:\n");
        reveal_strlit("⚠️ IMPLEMENTATION BLOCKED\n\nFile changes detected without an approved plan:\n");
        reveal_strlit("1. Create a plan with `plan_write`\n");
        reveal_strlit("Do not attempt to implement until the plan is approved.");
        reveal_strlit("\n\nBefore implementing, you must:\n");
        reveal_strlit("2. Get the plan approved by the user\n\n");
        reveal_strlit("2. Request the user's explicit approval or edits to plan\n\n");
        reveal_strlit(
            "\n\nBefore implementing, you must:\n1. Create a plan with `plan_write`\n2. Get the plan approved by the user\n\nDo not attempt to implement until the plan is approved.",
        );
        reveal_strlit(
            "\n\nBefore implementing, you must:\n1. Create a plan with `plan_write`\n2. Request the user's explicit approval or edits to plan\n\nDo not attempt to implement until the plan is approved.",
        );
        let (why, second) = if plan matches Ok(Some(_)) {
            (
                "File changes detected without an approved plan:\n"@,
                "2. Request the user's explicit approval or edits to plan\n\n"@,
            )
        } else {
            (
                "File changes detected without a plan:\n"@,
                "2. Get the plan approved by the user\n\n"@,
            )
        };
        let tail = asked + step + second + last;
        if plan matches Ok(Some(_)) {
            assert("⚠️ IMPLEMENTATION BLOCKED\n\nFile changes detected without an approved plan:\n"@
                =~= title + why);
            assert("\n\nBefore implementing, you must:\n1. Create a plan with `plan_write`\n2. Request the user's explicit approval or edits to plan\n\nDo not attempt to implement until the plan is approved."@
                =~= tail);
        } else {
            assert("⚠️ IMPLEMENTATION BLOCKED\n\nFile changes detected without a plan:\n"@ =~= title
                + why);
            assert("\n\nBefore implementing, you must:\n1. Create a plan with `plan_write`\n2. Get the plan approved by the user\n\nDo not attempt to implement until the plan is approved."@
                =~= tail);
        }
        assert(message =~= title + why + list + tail);
        text::law_contains_iff_cut(
            message,
            "IMPLEMENTATION BLOCKED"@,
            "⚠️ "@,
            "\n\n"@ + why + list + tail,
        );
        assert(message =~= "⚠️ "@ + "IMPLEMENTATION BLOCKED"@ + ("\n\n"@ + why + list + tail));
        text::law_contains_iff_cut(message, why + list, title, tail);
        assert(message =~= title + (why + list) + tail);
        text::law_contains_iff_cut(message, step, title + why + list + asked, second + last);
        assert(message =~= title + why + list + asked + step + (second + last));
        text::law_contains_iff_cut(
            message,
            last,
            title + why + list + asked + step + second,
            Seq::empty(),
        );
        assert(message =~= title + why + list + asked + step + second + last + Seq::<char>::empty());
    }
}

/// The result of an approval gate says all that it holds.
pub proof fn law_gate_result_tells_all(result: ApprovalGateResult)
    ensures
        result is Allowed <==> result@ is Allowed,
        result is NotGitRepo <==> result@ is NotGitRepo,
        result matches ApprovalGateResult::Blocked { message } ==> result@ == GateResult::Blocked(
            message@,
        ),
{
}

/// Any change that git reports blocks, whatever its letters are: where a line
/// names a path that was not dirty at baseline, and there is no plan or none that
/// is approved, an approval gate blocks, and its message mentions the path.
pub proof fn law_reported_change_blocks(
    lines: Seq<Seq<char>>,
    i: int,
    x: char,
    y: char,
    path: Seq<char>,
    baseline: Seq<Seq<char>>,
    plan: Option<Plan>,
)
    requires
        0 <= i < lines.len(),
        lines[i] == seq![x, y, ' '] + path,
        x <= '\u{7f}',
        y <= '\u{7f}',
        path.len() > 0 ==> !text::is_white_space(path[0]) && !text::is_white_space(path.last()),
        !baseline.contains(path),
        plan matches Some(p) ==> !p.approved(),
    ensures
        gate_result(true, dirty_paths(lines), baseline, Ok(plan)) matches GateResult::Blocked(
            message,
        ) && text::contains(message, "  - "@ + path),
{
    let current = dirty_paths(lines);
    law_every_line_brings_its_path(lines, i, x, y, path);
    law_gate_blocks_iff(true, current, baseline, Ok(plan));
    law_blocking_message_mentions_new_files(current, baseline, Ok(plan), path);
    assert(!baseline.contains(current[current.index_of(path)]));
}

/// Every line that git prints counts: wherever in its output a line names a path,
/// and whatever the other lines and the letters are, the path is among the dirty
/// files.
pub proof fn law_every_line_of_the_output_counts(
    before: Seq<char>,
    x: char,
    y: char,
    path: Seq<char>,
    after: Seq<char>,
)
    requires
        before.len() > 0 ==> before.last() == '\n',
        x <= '\u{7f}' && x != '\n',
        y <= '\u{7f}' && y != '\n',
        path.len() > 0,
        !text::is_white_space(path[0]) && !text::is_white_space(path.last()),
        !path.contains('\n'),
    ensures
        dirty_paths(
            text::lines(before + (seq![x, y, ' '] + path + seq!['\n'] + after)),
        ).contains(path),
{
    let line = seq![x, y, ' '] + path;
    let rest = line + seq!['\n'] + after;
    let lines = text::lines(before + rest);
    assert forall|j: int| 0 <= j < line.len() implies line[j] != '\n' by {
        if j >= 3 {
            assert(line[j] == path[j - 3]);
        }
    }
    assert(line.last() == path.last());
    text::law_lines_of_two_texts_follow(before, rest);
    text::law_first_line_comes_first(line, after);
    let n = text::lines(before).len() as int;
    assert(lines[n] == line);
    law_every_line_brings_its_path(lines, n, x, y, path);
}

} // verus!
