//! Evidence: what a piece of evidence refers to, and whether it holds up
//! against the file that it points to.
use crate::text::{
    self, chars_of, find_chars, first_index_from, has, has_char, has_ended, has_name,
    last_index_of, lines_of, parse_u32,
    push_decimal, string_of, trim,
};
use vstd::prelude::*;
use vstd::string::StringExecFns;

verus! {

// ---------------------------------------------------------------------------
// What a piece of evidence refers to
// ---------------------------------------------------------------------------

/// Type of evidence that can be verified.
#[derive(Debug, Clone, PartialEq, Eq)]
pub enum EvidenceType {
    /// Code location: file path with optional line range (e.g., "src/foo.rs:42-118")
    CodeLocation { file_path: String, start_line: Option<u32>, end_line: Option<u32> },
    /// Test reference: file path with test function name (e.g., "tests/foo.rs::test_bar")
    TestReference { file_path: String, test_name: String },
    /// Unknown format - will be skipped with a warning
    Unknown(String),
}

/// What a piece of evidence refers to, in terms of its text.
pub enum Reference {
    CodeLocation { file_path: Seq<char>, start_line: Option<u32>, end_line: Option<u32> },
    TestReference { file_path: Seq<char>, test_name: Seq<char> },
    Unknown(Seq<char>),
}

impl View for EvidenceType {
    type V = Reference;

    open spec fn view(&self) -> Reference {
        match *self {
            EvidenceType::CodeLocation { file_path, start_line, end_line } =>
                Reference::CodeLocation { file_path: file_path@, start_line, end_line },
            EvidenceType::TestReference { file_path, test_name } => Reference::TestReference {
                file_path: file_path@,
                test_name: test_name@,
            },
            EvidenceType::Unknown(text) => Reference::Unknown(text@),
        }
    }
}

/// The lines that a text like "42" or "42-118" names: the first one and,
/// where there is a dash, the last one.
pub open spec fn line_range_of(s: Seq<char>) -> Option<(u32, Option<u32>)> {
    match text::first_index(s, '-') {
        Some(dash) => match (text::u32_of(s.take(dash as int)), text::u32_of(s.skip(dash as int + 1))) {
            (Some(start), Some(end)) => Some((start, Some(end))),
            _ => None,
        },
        None => match text::u32_of(s) {
            Some(line) => Some((line, None)),
            None => None,
        },
    }
}

/// The code location that `s` names with a line or a line range behind its
/// last colon, if it does.
pub open spec fn location_of(s: Seq<char>) -> Option<Reference> {
    match text::last_index(s, ':') {
        Some(colon) => match line_range_of(s.skip(colon as int + 1)) {
            Some((start, end)) => Some(
                Reference::CodeLocation {
                    file_path: s.take(colon as int),
                    start_line: Some(start),
                    end_line: end,
                },
            ),
            None => None,
        },
        None => None,
    }
}

/// What a piece of evidence refers to. White space around it does not count.
/// A double colon makes it a test reference. Otherwise a line or a line range
/// behind the last colon makes it a code location, and so does a dot or a
/// slash anywhere.
pub open spec fn reference_of(text: Seq<char>) -> Reference {
    let s = text::trimmed(text);
    match text::find(s, "::"@) {
        Some(i) => Reference::TestReference {
            file_path: s.take(i as int),
            test_name: s.skip(i as int + 2),
        },
        None => match location_of(s) {
            Some(location) => location,
            None => if s.contains('.') || s.contains('/') {
                Reference::CodeLocation { file_path: s, start_line: None, end_line: None }
            } else {
                Reference::Unknown(s)
            },
        },
    }
}

/// Parse an evidence string into an EvidenceType.
pub fn parse_evidence(evidence: &str) -> (r: EvidenceType)
    ensures
        r@ == reference_of(evidence@),
{
    let text = trim(evidence);
    let v = chars_of(text.as_str());
    let n = v.len();
    // Check for test reference format: "path/to/file.rs::test_name"
    if let Some(i) = find_chars(&v, &chars_of("::")) {
        proof {
            text::lemma_find(v@, "::"@);
            reveal_strlit("::");
        }
        let file_path = string_of(&v, 0, i);
        let test_name = string_of(&v, i + 2, n);
        assert(file_path@ =~= v@.take(i as int));
        assert(test_name@ =~= v@.skip(i as int + 2));
        return EvidenceType::TestReference { file_path, test_name };
    }
    // Check for code location format: "path/to/file.rs:42" or "path/to/file.rs:42-118"

    if let Some(i) = last_index_of(&v, ':') {
        proof {
            text::lemma_last_index(v@, ':');
        }
        let file_path = string_of(&v, 0, i);
        let line_part = string_of(&v, i + 1, n);
        assert(file_path@ =~= v@.take(i as int));
        assert(line_part@ =~= v@.skip(i as int + 1));
        // Try to parse line range (e.g., "42-118" or just "42")
        if let Some((start, end)) = parse_line_range(line_part.as_str()) {
            return EvidenceType::CodeLocation {
                file_path,
                start_line: Some(start),
                end_line: end,
            };
        }
    }
    // Check if it looks like a file path (contains . or /)

    if has_char(&v, '.') || has_char(&v, '/') {
        return EvidenceType::CodeLocation { file_path: text, start_line: None, end_line: None };
    }
    // Unknown format

    EvidenceType::Unknown(text)
}

/// Parse a line range string like "42" or "42-118".
/// Returns (start_line, optional_end_line).
pub fn parse_line_range(s: &str) -> (r: Option<(u32, Option<u32>)>)
    ensures
        r == line_range_of(s@),
{
    let v = chars_of(s);
    assert(v@.skip(0) =~= v@);
    match first_index_from(&v, '-', 0) {
        Some(dash) => {
            assert(v@.subrange(0, dash as int) =~= v@.take(dash as int));
            assert(v@.subrange(dash + 1, v@.len() as int) =~= v@.skip(dash + 1));
            let start = parse_u32(&v, 0, dash);
            let end = parse_u32(&v, dash + 1, v.len());
            match (start, end) {
                (Some(start), Some(end)) => Some((start, Some(end))),
                _ => None,
            }
        },
        None => {
            assert(v@.subrange(0, v@.len() as int) =~= v@);
            match parse_u32(&v, 0, v.len()) {
                Some(line) => Some((line, None)),
                None => None,
            }
        },
    }
}

// ---------------------------------------------------------------------------
// Whether it holds up
// ---------------------------------------------------------------------------

/// Result of verifying a single piece of evidence.
#[derive(Debug, Clone)]
pub enum VerificationStatus {
    /// Evidence verified successfully
    Verified,
    /// Warning - evidence may be invalid but not blocking
    Warning(String),
    /// Error - evidence is definitely invalid
    Error(String),
    /// Skipped - couldn't verify (e.g., unknown format)
    Skipped(String),
}

/// The result of a verification, in terms of its text.
pub enum Status {
    Verified,
    Warning(Seq<char>),
    Error(Seq<char>),
    Skipped(Seq<char>),
}

impl Status {
    /// Whether there is nothing to complain about.
    pub open spec fn ok(self) -> bool {
        self is Verified || self is Skipped
    }
}

impl View for VerificationStatus {
    type V = Status;

    open spec fn view(&self) -> Status {
        match *self {
            VerificationStatus::Verified => Status::Verified,
            VerificationStatus::Warning(message) => Status::Warning(message@),
            VerificationStatus::Error(message) => Status::Error(message@),
            VerificationStatus::Skipped(message) => Status::Skipped(message@),
        }
    }
}

impl VerificationStatus {
    /// Whether the evidence was verified or skipped.
    pub fn is_ok(&self) -> (r: bool)
        ensures
            r == self@.ok(),
    {
        match self {
            VerificationStatus::Verified | VerificationStatus::Skipped(_) => true,
            _ => false,
        }
    }

    /// Whether there is a warning or an error.
    pub fn is_warning_or_error(&self) -> (r: bool)
        ensures
            r == (self@ is Warning || self@ is Error),
    {
        match self {
            VerificationStatus::Warning(_) | VerificationStatus::Error(_) => true,
            _ => false,
        }
    }
}

/// What has to be looked up on disk to verify a piece of evidence.
#[derive(Debug, Clone, PartialEq, Eq)]
pub enum ProbeRequest {
    /// Nothing
    Nothing,
    /// Whether this file exists
    Existence(String),
    /// What this file holds
    Contents(String),
}

/// What was found on disk where a piece of evidence points.
#[derive(Debug, Clone, PartialEq, Eq)]
pub enum FileProbe {
    /// There is no such file
    Missing,
    /// The file exists; what it holds was not looked at
    Present,
    /// The file exists but could not be read, for the reason given
    Unreadable(String),
    /// The file holds this text
    Text(String),
}

/// What has to be looked up, in terms of its text.
pub enum Request {
    Nothing,
    Existence(Seq<char>),
    Contents(Seq<char>),
}

impl View for ProbeRequest {
    type V = Request;

    open spec fn view(&self) -> Request {
        match *self {
            ProbeRequest::Nothing => Request::Nothing,
            ProbeRequest::Existence(path) => Request::Existence(path@),
            ProbeRequest::Contents(path) => Request::Contents(path@),
        }
    }
}

/// What has to be looked up to verify a reference.
pub open spec fn request_of(reference: Reference) -> Request {
    match reference {
        Reference::CodeLocation { file_path, start_line, .. } => if start_line is Some {
            Request::Contents(file_path)
        } else {
            Request::Existence(file_path)
        },
        Reference::TestReference { file_path, .. } => Request::Contents(file_path),
        Reference::Unknown(_) => Request::Nothing,
    }
}

/// Whether `probe` answers `request`: where the contents were asked for, it
/// gives them or says why there are none.
pub open spec fn answers(request: Request, probe: FileProbe) -> bool {
    request is Contents ==> !(probe is Present)
}

/// Where the file that a piece of evidence names is looked for: at its path, if
/// that is absolute or there is no working directory, and else at its path below
/// the working directory.
pub open spec fn resolved(
    file_path: Seq<char>,
    is_absolute: bool,
    working_dir: Option<Seq<char>>,
) -> Seq<char> {
    match working_dir {
        Some(dir) if !is_absolute => if dir.len() == 0 || dir.last() == '/' {
            dir + file_path
        } else {
            dir + "/"@ + file_path
        },
        _ => file_path,
    }
}

/// Where the file that a piece of evidence names is looked for.
pub fn resolve_path(file_path: &str, is_absolute: bool, working_dir: Option<&str>) -> (r: String)
    ensures
        r@ == resolved(file_path@, is_absolute, text::optional(working_dir)),
{
    if is_absolute {
        return file_path.to_string();
    }
    let dir = match working_dir {
        Some(dir) => dir,
        None => return file_path.to_string(),
    };
    let v = chars_of(dir);
    let n = v.len();
    let mut path = dir.to_string();
    if n > 0 && v[n - 1] != '/' {
        path.append("/");
    }
    path.append(file_path);
    path
}

/// What has to be looked up to verify the given evidence.
pub fn probe_request(evidence: &str) -> (r: ProbeRequest)
    ensures
        r@ == request_of(reference_of(evidence@)),
{
    match parse_evidence(evidence) {
        EvidenceType::CodeLocation { file_path, start_line, .. } => if start_line.is_some() {
            ProbeRequest::Contents(file_path)
        } else {
            ProbeRequest::Existence(file_path)
        },
        EvidenceType::TestReference { file_path, .. } => ProbeRequest::Contents(file_path),
        EvidenceType::Unknown(_) => ProbeRequest::Nothing,
    }
}

/// The number of lines of a text, as a 32-bit number.
pub open spec fn line_count(content: Seq<char>) -> u32 {
    text::lines(content).len() as u32
}

/// The message where a line lies behind the end of the file.
pub open spec fn line_exceeds_message(line: u32, count: u32, file_path: Seq<char>) -> Seq<char> {
    "Line "@ + text::decimal(line as nat) + " exceeds file length ("@ + text::decimal(count as nat)
        + " lines) in "@ + file_path
}

/// The message where a location names line 0.
pub open spec fn line_zero_message(file_path: Seq<char>) -> Seq<char> {
    "Line 0 does not exist (lines start at 1) in "@ + file_path
}

/// The message where a line lies behind the end of the file.
fn line_exceeds(line: u32, count: u32, file_path: &str) -> (r: String)
    ensures
        r@ == line_exceeds_message(line, count, file_path@),
{
    let mut message = "Line ".to_string();
    push_decimal(&mut message, line as u64);
    message.append(" exceeds file length (");
    push_decimal(&mut message, count as u64);
    message.append(" lines) in ");
    message.append(file_path);
    message
}

/// The status of a code location, given what was found in the file. Neither
/// of its lines may lie behind the end of the file, nor be line 0. The last line
/// is named first, or the only one.
pub open spec fn code_location_status(
    file_path: Seq<char>,
    start_line: Option<u32>,
    end_line: Option<u32>,
    probe: FileProbe,
) -> Status {
    match probe {
        FileProbe::Missing => Status::Error("File not found: "@ + file_path),
        _ => match start_line {
            None => Status::Verified,
            Some(start) => match probe {
                FileProbe::Unreadable(reason) => Status::Error(
                    "Cannot read file "@ + file_path + ": "@ + reason@,
                ),
                FileProbe::Text(content) => {
                    let line = match end_line {
                        Some(end) => end,
                        None => start,
                    };
                    if line > line_count(content@) {
                        Status::Warning(
                            line_exceeds_message(line, line_count(content@), file_path),
                        )
                    } else if start > line_count(content@) {
                        Status::Warning(
                            line_exceeds_message(start, line_count(content@), file_path),
                        )
                    } else if line == 0 || start == 0 {
                        Status::Warning(line_zero_message(file_path))
                    } else {
                        Status::Verified
                    }
                },
                _ => Status::Verified,
            },
        },
    }
}

/// Verify a code location evidence (file exists, line numbers valid).
///
/// # Arguments
/// * `file_path` - Path to the file, as the evidence gives it
/// * `start_line` - Optional start line number (1-indexed)
/// * `end_line` - Optional end line number (1-indexed)
/// * `probe` - What was found at that path
///
/// A line is out of range where the file has fewer lines, and line 0 is out of
/// range of every file. A range whose end comes before its start is in range
/// where both lines exist: what it points to is left to the reader.
pub fn verify_code_location(
    file_path: &str,
    start_line: Option<u32>,
    end_line: Option<u32>,
    probe: &FileProbe,
) -> (r: VerificationStatus)
    requires
        start_line is Some ==> !(probe is Present),
    ensures
        r@ == code_location_status(file_path@, start_line, end_line, *probe),
{
    // Check if file exists
    if let FileProbe::Missing = probe {
        let mut message = "File not found: ".to_string();
        message.append(file_path);
        return VerificationStatus::Error(message);
    }
    // If no line numbers specified, file existence is enough

    let start = match start_line {
        Some(start) => start,
        None => return VerificationStatus::Verified,
    };
    match probe {
        FileProbe::Unreadable(reason) => {
            let mut message = "Cannot read file ".to_string();
            message.append(file_path);
            message.append(": ");
            message.append(reason.as_str());
            VerificationStatus::Error(message)
        },
        FileProbe::Text(content) => {
            let all = lines_of(content.as_str());
            assert(all@.map_values(|l: String| l@).len() == all@.len());
            let line_count: u32 = #[verifier::truncate]
            (all.len() as u32);
            let check_line = match end_line {
                Some(end) => end,
                None => start,
            };
            if check_line > line_count {
                return VerificationStatus::Warning(line_exceeds(check_line, line_count, file_path));
            }
            if start > line_count {
                return VerificationStatus::Warning(line_exceeds(start, line_count, file_path));
            }
            if check_line == 0 || start == 0 {
                let mut message = "Line 0 does not exist (lines start at 1) in ".to_string();
                message.append(file_path);
                return VerificationStatus::Warning(message);
            }
            VerificationStatus::Verified
        },
        _ => VerificationStatus::Verified,
    }
}

/// Whether a source text seems to hold the test: it holds `fn` with that name
/// behind it, or it holds the name somewhere as a name of its own and a test
/// attribute somewhere. A longer name that only begins with it does not count.
pub open spec fn mentions_test(content: Seq<char>, test_name: Seq<char>) -> bool {
    text::contains_ended(content, "fn "@ + test_name) || (text::contains_name(content, test_name)
        && text::contains(content, "#[test]"@))
}

/// The status of a test reference, given what was found in the file.
pub open spec fn test_reference_status(
    file_path: Seq<char>,
    test_name: Seq<char>,
    probe: FileProbe,
) -> Status {
    match probe {
        FileProbe::Missing => Status::Error("Test file not found: "@ + file_path),
        FileProbe::Unreadable(reason) => Status::Error(
            "Cannot read test file "@ + file_path + ": "@ + reason@,
        ),
        FileProbe::Text(content) => if mentions_test(content@, test_name) {
            Status::Verified
        } else {
            Status::Warning("Test function '"@ + test_name + "' not found in "@ + file_path)
        },
        FileProbe::Present => Status::Verified,
    }
}

/// Verify a test reference evidence (test function exists in file).
///
/// This checks that the test file exists and contains a function with the given name.
/// It does NOT run the test - just verifies it exists. A function whose name only
/// begins with the given one is another function.
///
/// # Arguments
/// * `file_path` - Path to the test file, as the evidence gives it
/// * `test_name` - Name of the test function to find
/// * `probe` - What was found at that path
pub fn verify_test_reference(file_path: &str, test_name: &str, probe: &FileProbe) -> (r:
    VerificationStatus)
    requires
        !(probe is Present),
    ensures
        r@ == test_reference_status(file_path@, test_name@, *probe),
{
    match probe {
        FileProbe::Missing => {
            let mut message = "Test file not found: ".to_string();
            message.append(file_path);
            VerificationStatus::Error(message)
        },
        FileProbe::Unreadable(reason) => {
            let mut message = "Cannot read test file ".to_string();
            message.append(file_path);
            message.append(": ");
            message.append(reason.as_str());
            VerificationStatus::Error(message)
        },
        FileProbe::Text(content) => {
            // Look for the test function
            let mut pattern = "fn ".to_string();
            pattern.append(test_name);
            if has_ended(content.as_str(), pattern.as_str()) {
                return VerificationStatus::Verified;
            }
            // Check for #[test] attribute near the function name as a fallback
            // This handles cases where the function might be named differently

            if has_name(content.as_str(), test_name) && has(content.as_str(), "#[test]") {
                return VerificationStatus::Verified;
            }
            let mut message = "Test function '".to_string();
            message.append(test_name);
            message.append("' not found in ");
            message.append(file_path);
            VerificationStatus::Warning(message)
        },
        FileProbe::Present => VerificationStatus::Verified,
    }
}

/// The status of a piece of evidence, given what was found on disk.
pub open spec fn status_of(reference: Reference, probe: FileProbe) -> Status {
    match reference {
        Reference::CodeLocation { file_path, start_line, end_line } => code_location_status(
            file_path,
            start_line,
            end_line,
            probe,
        ),
        Reference::TestReference { file_path, test_name } => test_reference_status(
            file_path,
            test_name,
            probe,
        ),
        Reference::Unknown(text) => Status::Skipped("Unknown evidence format: "@ + text),
    }
}

/// Result of verifying a single evidence string.
#[derive(Debug, Clone)]
pub struct EvidenceVerification {
    /// The original evidence string
    pub evidence: String,
    /// Parsed evidence type
    pub evidence_type: EvidenceType,
    /// Verification result
    pub status: VerificationStatus,
}

/// The result of verifying one piece of evidence, in terms of its text.
pub struct EvidenceResult {
    pub evidence: Seq<char>,
    pub reference: Reference,
    pub status: Status,
}

impl View for EvidenceVerification {
    type V = EvidenceResult;

    open spec fn view(&self) -> EvidenceResult {
        EvidenceResult {
            evidence: self.evidence@,
            reference: self.evidence_type@,
            status: self.status@,
        }
    }
}

/// The result of verifying `evidence`, given what was found on disk.
pub open spec fn evidence_result(evidence: Seq<char>, probe: FileProbe) -> EvidenceResult {
    EvidenceResult {
        evidence,
        reference: reference_of(evidence),
        status: status_of(reference_of(evidence), probe),
    }
}

/// Verify a single piece of evidence.
pub fn verify_single_evidence(evidence: &str, probe: &FileProbe) -> (r: EvidenceVerification)
    requires
        answers(request_of(reference_of(evidence@)), *probe),
    ensures
        r@ == evidence_result(evidence@, *probe),
{
    let evidence_type = parse_evidence(evidence);
    let status = match &evidence_type {
        EvidenceType::CodeLocation { file_path, start_line, end_line } => verify_code_location(
            file_path.as_str(),
            *start_line,
            *end_line,
            probe,
        ),
        EvidenceType::TestReference { file_path, test_name } => verify_test_reference(
            file_path.as_str(),
            test_name.as_str(),
            probe,
        ),
        EvidenceType::Unknown(text) => {
            let mut message = "Unknown evidence format: ".to_string();
            message.append(text.as_str());
            VerificationStatus::Skipped(message)
        },
    };
    EvidenceVerification { evidence: evidence.to_string(), evidence_type, status }
}

// ---------------------------------------------------------------------------
// Laws
// ---------------------------------------------------------------------------

/// A line, or a line range, as it is written behind the colon.
pub open spec fn line_range_text(start: u32, end: Option<u32>) -> Seq<char> {
    match end {
        Some(end) => text::decimal(start as nat) + seq!['-'] + text::decimal(end as nat),
        None => text::decimal(start as nat),
    }
}

/// Two colons in a row at position `i` make a match of the double colon there.
proof fn lemma_double_colon(s: Seq<char>, i: int)
    ensures
        text::matches_at(s, "::"@, i) <==> 0 <= i && i + 2 <= s.len() && s[i] == ':' && s[i + 1] == ':',
{
    reveal_strlit("::");
    if 0 <= i && i + 2 <= s.len() && s[i] == ':' && s[i + 1] == ':' {
        assert(s.subrange(i, i + 2) =~= "::"@);
    }
    if text::matches_at(s, "::"@, i) {
        assert(s.subrange(i, i + 2)[0] == s[i]);
        assert(s.subrange(i, i + 2)[1] == s[i + 1]);
    }
}

/// A line range that was written down reads back, and is made of digits and a dash.
proof fn lemma_line_range_reads_back(start: u32, end: Option<u32>)
    ensures
        line_range_of(line_range_text(start, end)) == Some((start, end)),
        line_range_text(start, end).len() > 0,
        forall|i: int|
            0 <= i < line_range_text(start, end).len() ==> text::is_digit(
                #[trigger] line_range_text(start, end)[i],
            ) || line_range_text(start, end)[i] == '-',
        text::is_digit(line_range_text(start, end).last()),
{
    let s = line_range_text(start, end);
    let a = text::decimal(start as nat);
    text::lemma_decimal(start as nat);
    text::lemma_u32_of_decimal(start);
    match end {
        Some(end) => {
            let b = text::decimal(end as nat);
            text::lemma_decimal(end as nat);
            text::lemma_u32_of_decimal(end);
            assert forall|i: int| 0 <= i < s.len() implies text::is_digit(#[trigger] s[i]) || s[i] == '-' by {
                if i < a.len() {
                    assert(s[i] == a[i]);
                } else if i > a.len() {
                    assert(s[i] == b[i - a.len() - 1]);
                }
            }
            assert forall|j: int| 0 <= j < a.len() implies #[trigger] s[j] != '-' by {
                assert(s[j] == a[j]);
            }
            text::lemma_first_index_is(s, '-', a.len());
            assert(s.take(a.len() as int) =~= a);
            assert(s.skip(a.len() as int + 1) =~= b);
            assert(s.last() == b[b.len() - 1]);
        },
        None => {
            text::lemma_first_index(s, '-');
            assert(text::is_digit(s[s.len() - 1]));
        },
    }
}

/// A code location that is written as path, colon and lines reads back as it
/// was written. The path must not start with white space, hold a double colon
/// or end with a colon.
pub proof fn law_code_location_reads_back(path: Seq<char>, start: u32, end: Option<u32>)
    requires
        path.len() > 0 ==> !text::is_white_space(path[0]) && path.last() != ':',
        !text::contains(path, "::"@),
    ensures
        reference_of(path + seq![':'] + line_range_text(start, end)) == (Reference::CodeLocation {
            file_path: path,
            start_line: Some(start),
            end_line: end,
        }),
{
    let range = line_range_text(start, end);
    let s = path + seq![':'] + range;
    let n = path.len() as int;
    lemma_line_range_reads_back(start, end);
    assert(s[n] == ':');
    assert(s.last() == range.last());
    if n > 0 {
        assert(s[0] == path[0]);
    }
    text::lemma_trimmed_unchanged(s);
    assert forall|j: int| n < j < s.len() implies #[trigger] s[j] != ':' by {
        assert(s[j] == range[j - n - 1]);
    }
    assert forall|i: int| !#[trigger] text::matches_at(s, "::"@, i) by {
        lemma_double_colon(s, i);
        lemma_double_colon(path, i);
        if text::matches_at(s, "::"@, i) {
            if i + 1 < n {
                assert(path[i] == s[i] && path[i + 1] == s[i + 1]);
                assert(text::matches_at(path, "::"@, i));
            } else if i + 1 == n {
                assert(path.last() == s[i]);
            } else {
                assert(s[i + 1] != ':');
            }
        }
    }
    text::lemma_find(s, "::"@);
    text::lemma_last_index_is(s, ':', n as nat);
    assert(s.take(n) =~= path);
    assert(s.skip(n + 1) =~= range);
}

/// A test reference that is written as path, double colon and test name reads
/// back as it was written. The path must not start with white space, hold a
/// double colon or end with a colon, and the name must not end with white space.
pub proof fn law_test_reference_reads_back(path: Seq<char>, test_name: Seq<char>)
    requires
        path.len() > 0 ==> !text::is_white_space(path[0]) && path.last() != ':',
        !text::contains(path, "::"@),
        test_name.len() > 0 ==> !text::is_white_space(test_name.last()),
    ensures
        reference_of(path + "::"@ + test_name) == (Reference::TestReference {
            file_path: path,
            test_name,
        }),
{
    reveal_strlit("::");
    let s = path + "::"@ + test_name;
    let n = path.len() as int;
    assert(s[n] == ':' && s[n + 1] == ':');
    if n > 0 {
        assert(s[0] == path[0]);
    }
    if test_name.len() > 0 {
        assert(s.last() == test_name.last());
    } else {
        assert(s.last() == ':');
    }
    text::lemma_trimmed_unchanged(s);
    assert forall|i: int| 0 <= i < n implies !#[trigger] text::matches_at(s, "::"@, i) by {
        lemma_double_colon(s, i);
        lemma_double_colon(path, i);
        if text::matches_at(s, "::"@, i) {
            assert(path[i] == s[i]);
            if i + 1 < n {
                assert(path[i + 1] == s[i + 1]);
                assert(text::matches_at(path, "::"@, i));
            } else {
                assert(path.last() == s[i]);
            }
        }
    }
    lemma_double_colon(s, n);
    text::lemma_find_is(s, "::"@, n as nat);
    assert(s.take(n) =~= path);
    assert(s.skip(n + 2) =~= test_name);
}

/// Evidence that is a bare path reads back as that path, without lines. The
/// path must not have white space at its ends, must not be readable as a test
/// reference or as a location with lines, and must hold a dot or a slash.
pub proof fn law_bare_path_reads_back(path: Seq<char>)
    requires
        path.len() > 0 ==> !text::is_white_space(path[0]) && !text::is_white_space(path.last()),
        !text::contains(path, "::"@),
        location_of(path) is None,
        path.contains('.') || path.contains('/'),
    ensures
        reference_of(path) == (Reference::CodeLocation {
            file_path: path,
            start_line: None,
            end_line: None,
        }),
{
    text::lemma_trimmed_unchanged(path);
    text::lemma_find(path, "::"@);
}

/// White space around a piece of evidence does not change what it refers to.
pub proof fn law_surrounding_white_space_is_ignored(
    before: Seq<char>,
    evidence: Seq<char>,
    after: Seq<char>,
)
    requires
        text::is_blank(before),
        text::is_blank(after),
    ensures
        reference_of(before + evidence + after) == reference_of(evidence),
{
    text::lemma_trimmed_ignores_surroundings(before, evidence, after);
}

/// A warning or an error is what is not all right.
pub proof fn law_status_is_ok_or_issue(status: Status)
    ensures
        status.ok() <==> !(status is Warning || status is Error),
{
}

/// A code location with lines holds up in a file that could be read exactly
/// where each of its lines is a line of the file, counted from 1.
pub proof fn law_location_holds_up_iff_in_range(
    file_path: Seq<char>,
    start: u32,
    end_line: Option<u32>,
    content: String,
)
    ensures
        code_location_status(file_path, Some(start), end_line, FileProbe::Text(content)).ok() <==> {
            &&& 1 <= start <= line_count(content@)
            &&& end_line matches Some(end) ==> 1 <= end <= line_count(content@)
        },
{
}

/// A file that holds the function with the test's name holds up the reference,
/// whatever else it holds.
pub proof fn law_function_with_the_name_is_found(
    file_path: Seq<char>,
    test_name: Seq<char>,
    content: String,
)
    requires
        text::contains(content@, "fn "@ + test_name + "("@),
    ensures
        test_reference_status(file_path, test_name, FileProbe::Text(content)) is Verified,
{
    reveal_strlit("(");
    let pattern = "fn "@ + test_name;
    let longer = pattern + "("@;
    let i = choose|i: int| text::matches_at(content@, longer, i);
    assert(content@.subrange(i, i + pattern.len()) =~= content@.subrange(
        i,
        i + longer.len(),
    ).take(pattern.len() as int));
    assert(longer.take(pattern.len() as int) =~= pattern);
    assert(text::matches_at(content@, pattern, i));
    assert(content@[i + pattern.len()] == content@.subrange(i, i + longer.len())[pattern.len() as int]);
    assert(text::name_ends_at(content@, i + pattern.len()));
}

/// A file in which a name goes on wherever the test's name stands does not hold
/// up the reference: a longer name that begins with it does not count.
pub proof fn law_longer_names_do_not_count(
    file_path: Seq<char>,
    test_name: Seq<char>,
    content: String,
)
    requires
        forall|i: int| #[trigger]
            text::matches_at(content@, test_name, i) ==> !text::name_ends_at(
                content@,
                i + test_name.len(),
            ),
    ensures
        test_reference_status(file_path, test_name, FileProbe::Text(content)) is Warning,
{
    reveal_strlit("fn ");
    let pattern = "fn "@ + test_name;
    assert forall|i: int| #[trigger] text::matches_at(content@, pattern, i) implies !text::name_ends_at(
        content@,
        i + pattern.len(),
    ) by {
        assert(content@.subrange(i + 3, i + 3 + test_name.len()) =~= content@.subrange(
            i,
            i + pattern.len(),
        ).skip(3));
        assert(pattern.skip(3) =~= test_name);
        assert(text::matches_at(content@, test_name, i + 3));
    }
}

/// Without line numbers, a code location holds up exactly where its file exists.
pub proof fn law_bare_location_needs_only_the_file(
    file_path: Seq<char>,
    end_line: Option<u32>,
    probe: FileProbe,
)
    ensures
        code_location_status(file_path, None, end_line, probe).ok() <==> !(probe is Missing),
{
}

/// Evidence and its parts say all that they hold.
pub proof fn law_evidence_tells_all(
    verification: EvidenceVerification,
    kind: EvidenceType,
    status: VerificationStatus,
    request: ProbeRequest,
)
    ensures
        verification@.evidence == verification.evidence@,
        verification@.reference == verification.evidence_type@,
        verification@.status == verification.status@,
        kind matches EvidenceType::CodeLocation { file_path, start_line, end_line } ==> kind@
            == (Reference::CodeLocation { file_path: file_path@, start_line, end_line }),
        kind matches EvidenceType::TestReference { file_path, test_name } ==> kind@
            == (Reference::TestReference { file_path: file_path@, test_name: test_name@ }),
        kind matches EvidenceType::Unknown(text) ==> kind@ == Reference::Unknown(text@),
        status is Verified <==> status@ is Verified,
        status matches VerificationStatus::Warning(m) ==> status@ == Status::Warning(m@),
        status matches VerificationStatus::Error(m) ==> status@ == Status::Error(m@),
        status matches VerificationStatus::Skipped(m) ==> status@ == Status::Skipped(m@),
        request is Nothing <==> request@ is Nothing,
        request matches ProbeRequest::Existence(p) ==> request@ == Request::Existence(p@),
        request matches ProbeRequest::Contents(p) ==> request@ == Request::Contents(p@),
{
}

/// Evidence is a test reference exactly where it holds a double colon. The
/// first one parts the path from the name of the test.
pub proof fn law_test_reference_iff_double_colon(evidence: Seq<char>)
    ensures
        reference_of(evidence) is TestReference <==> text::contains(
            text::trimmed(evidence),
            "::"@,
        ),
        reference_of(evidence) matches Reference::TestReference { file_path, test_name } ==> {
            &&& text::trimmed(evidence) == file_path + "::"@ + test_name
            &&& !text::contains(file_path + ":"@, "::"@)
        },
{
    let s = text::trimmed(evidence);
    text::lemma_find(s, "::"@);
    reveal_strlit("::");
    reveal_strlit(":");
    if let Some(i) = text::find(s, "::"@) {
        let path = s.take(i as int);
        lemma_double_colon(s, i as int);
        assert(s =~= path + "::"@ + s.skip(i as int + 2));
        assert forall|j: int| !#[trigger] text::matches_at(path + ":"@, "::"@, j) by {
            lemma_double_colon(path + ":"@, j);
            lemma_double_colon(s, j);
            if text::matches_at(path + ":"@, "::"@, j) {
                assert(s[j] == (path + ":"@)[j] && s[j + 1] == (path + ":"@)[j + 1]);
                assert(text::matches_at(s, "::"@, j));
            }
        }
    }
}

/// A line range is one number, or two numbers with a dash between them, and
/// nothing else.
pub proof fn law_line_range_iff(s: Seq<char>, a: Seq<char>, b: Seq<char>)
    ensures
        !s.contains('-') ==> line_range_of(s) == match text::u32_of(s) {
            Some(line) => Some((line, None::<u32>)),
            None => None,
        },
        !a.contains('-') && s == a + seq!['-'] + b ==> line_range_of(s) == match (
            text::u32_of(a),
            text::u32_of(b),
        ) {
            (Some(start), Some(end)) => Some((start, Some(end))),
            _ => None,
        },
{
    text::lemma_first_index(s, '-');
    if !a.contains('-') && s == a + seq!['-'] + b {
        assert forall|j: int| 0 <= j < a.len() implies #[trigger] s[j] != '-' by {
            assert(s[j] == a[j]);
        }
        text::lemma_first_index_is(s, '-', a.len());
        assert(s.take(a.len() as int) =~= a);
        assert(s.skip(a.len() as int + 1) =~= b);
    }
}

/// Evidence without a double colon, but with something that is a line or a line
/// range behind its last colon, is a location with these lines, and with all
/// that stands in front of that colon as its path.
pub proof fn law_lines_stand_behind_the_last_colon(path: Seq<char>, behind: Seq<char>)
    requires
        ({
            let s = path + seq![':'] + behind;
            text::trimmed(s) == s && !text::contains(s, "::"@)
        }),
        !behind.contains(':'),
    ensures
        line_range_of(behind) matches Some((start, end)) ==> reference_of(
            path + seq![':'] + behind,
        ) == (Reference::CodeLocation { file_path: path, start_line: Some(start), end_line: end }),
        line_range_of(behind) is None ==> reference_of(path + seq![':'] + behind) == if (path
            + behind).contains('.') || (path + behind).contains('/') {
            Reference::CodeLocation {
                file_path: path + seq![':'] + behind,
                start_line: None,
                end_line: None,
            }
        } else {
            Reference::Unknown(path + seq![':'] + behind)
        },
{
    let s = path + seq![':'] + behind;
    let n = path.len();
    text::lemma_find(s, "::"@);
    assert(s[n as int] == ':');
    assert forall|j: int| n < j < s.len() implies #[trigger] s[j] != ':' by {
        assert(s[j] == behind[j - n - 1]);
    }
    text::lemma_last_index_is(s, ':', n);
    assert(s.take(n as int) =~= path);
    assert(s.skip(n as int + 1) =~= behind);
    lemma_contains_without_colon(path, behind, '.');
    lemma_contains_without_colon(path, behind, '/');
}

proof fn lemma_contains_without_colon(path: Seq<char>, behind: Seq<char>, c: char)
    requires
        c != ':',
    ensures
        (path + seq![':'] + behind).contains(c) <==> (path + behind).contains(c),
{
    let s = path + seq![':'] + behind;
    let t = path + behind;
    let n = path.len();
    if s.contains(c) {
        let i = s.index_of(c);
        if i < n {
            assert(t[i] == c);
        } else {
            assert(t[i - 1] == c);
        }
    }
    if t.contains(c) {
        let i = t.index_of(c);
        if i < n {
            assert(s[i] == c);
        } else {
            assert(s[i + 1] == c);
        }
    }
}

/// Evidence without any colon is a path where it holds a dot or a slash, and
/// else it is not known what it is.
pub proof fn law_evidence_without_colon(evidence: Seq<char>)
    requires
        text::trimmed(evidence) == evidence,
        !evidence.contains(':'),
    ensures
        reference_of(evidence) == if evidence.contains('.') || evidence.contains('/') {
            Reference::CodeLocation { file_path: evidence, start_line: None, end_line: None }
        } else {
            Reference::Unknown(evidence)
        },
{
    text::lemma_last_index(evidence, ':');
    text::lemma_find(evidence, "::"@);
    if text::contains(evidence, "::"@) {
        let i = choose|i: int| text::matches_at(evidence, "::"@, i);
        lemma_double_colon(evidence, i);
    }
}

/// For a location with lines and for a test, what the file holds is looked up;
/// for a location without lines, whether the file exists; and nothing for what
/// is not known.
pub proof fn law_request_asks_for_the_file(reference: Reference)
    ensures
        reference matches Reference::CodeLocation { file_path, start_line, end_line } ==> (
        start_line is Some ==> request_of(reference) == Request::Contents(file_path)) && (
        start_line is None ==> request_of(reference) == Request::Existence(file_path)),
        reference matches Reference::TestReference { file_path, test_name } ==> request_of(
            reference,
        ) == Request::Contents(file_path),
        reference is Unknown <==> request_of(reference) is Nothing,
{
}

/// What was looked up answers what was asked, unless the contents were asked for
/// and only the existence was looked up.
pub proof fn law_answers_iff(request: Request, probe: FileProbe)
    ensures
        answers(request, probe) <==> !(request is Contents && probe is Present),
{
}

/// A path that is absolute, or for which there is no working directory, stands
/// for itself. Any other one is looked for below the working directory: the
/// directory comes first, then the path, with one slash between them and nothing
/// else, which the directory may bring.
pub proof fn law_relative_path_is_below_the_working_directory(
    file_path: Seq<char>,
    is_absolute: bool,
    dir: Seq<char>,
)
    ensures
        resolved(file_path, true, Some(dir)) == file_path,
        resolved(file_path, is_absolute, None) == file_path,
        resolved(file_path, false, Some(dir)).take(dir.len() as int) == dir,
        resolved(file_path, false, Some(dir)).skip(
            resolved(file_path, false, Some(dir)).len() - file_path.len(),
        ) == file_path,
        dir.len() > 0 ==> resolved(file_path, false, Some(dir))[resolved(
            file_path,
            false,
            Some(dir),
        ).len() - file_path.len() - 1] == '/',
        resolved(file_path, false, Some(dir)).len() == dir.len() + file_path.len() + if dir.len() > 0
            && dir.last() != '/' {
            1int
        } else {
            0
        },
{
    reveal_strlit("/");
    let r = resolved(file_path, false, Some(dir));
    assert(r.take(dir.len() as int) =~= dir);
    assert(r.skip(r.len() - file_path.len()) =~= file_path);
}

/// The status of a location: an error that names the path where the file is
/// missing, or cannot be read although lines are to be looked at; a warning that
/// names the path where a line is not there; and otherwise it is verified.
pub proof fn law_location_status(
    file_path: Seq<char>,
    start_line: Option<u32>,
    end_line: Option<u32>,
    probe: FileProbe,
)
    ensures
        ({
            let status = code_location_status(file_path, start_line, end_line, probe);
            &&& probe is Missing ==> status == Status::Error("File not found: "@ + file_path)
            &&& !(probe is Missing) && start_line is None ==> status is Verified
            &&& start_line is Some ==> (probe matches FileProbe::Unreadable(reason) ==> status
                == Status::Error("Cannot read file "@ + file_path + ": "@ + reason@))
            &&& start_line matches Some(start) ==> (probe matches FileProbe::Text(content) ==> {
                let count = text::lines(content@).len();
                &&& status is Verified || status is Warning
                &&& count <= u32::MAX ==> (status is Verified <==> 1 <= start <= count && (
                end_line matches Some(end) ==> 1 <= end <= count))
                &&& status matches Status::Warning(message) ==> text::contains(message, file_path)
            })
        }),
{
    if let Some(start) = start_line {
        if let FileProbe::Text(content) = probe {
            let count = line_count(content@);
            let line = match end_line {
                Some(end) => end,
                None => start,
            };
            lemma_ends_with(
                "Line "@ + text::decimal(line as nat) + " exceeds file length ("@ + text::decimal(
                    count as nat,
                ) + " lines) in "@,
                file_path,
            );
            lemma_ends_with(
                "Line "@ + text::decimal(start as nat) + " exceeds file length ("@ + text::decimal(
                    count as nat,
                ) + " lines) in "@,
                file_path,
            );
            lemma_ends_with("Line 0 does not exist (lines start at 1) in "@, file_path);
        }
    }
}

proof fn lemma_ends_with(front: Seq<char>, end: Seq<char>)
    ensures
        text::contains(front + end, end),
{
    assert(front + end =~= front + end + Seq::<char>::empty());
    text::law_contains_iff_cut(front + end, end, front, Seq::empty());
}

/// A warning about a line behind the end of the file names that line and how
/// many lines the file has.
pub proof fn law_warning_names_the_line(
    file_path: Seq<char>,
    start: u32,
    end_line: Option<u32>,
    content: String,
)
    requires
        text::lines(content@).len() <= u32::MAX,
        start > text::lines(content@).len() || (end_line matches Some(end) && end > text::lines(
            content@,
        ).len()),
    ensures
        ({
            let count = text::lines(content@).len();
            let line = if end_line matches Some(end) && end > count {
                end_line->0
            } else {
                start
            };
            code_location_status(file_path, Some(start), end_line, FileProbe::Text(content))
                == Status::Warning(
                "Line "@ + text::decimal(line as nat) + " exceeds file length ("@ + text::decimal(
                    count,
                ) + " lines) in "@ + file_path,
            )
        }),
{
}

/// The status of a test reference: an error that names the path where the file
/// is missing or cannot be read; verified where the file holds `fn` with the name
/// of the test behind it and no name going on, or the name on its own and a test
/// attribute; and otherwise a warning that names the test and the path.
pub proof fn law_test_status(file_path: Seq<char>, test_name: Seq<char>, probe: FileProbe)
    ensures
        ({
            let status = test_reference_status(file_path, test_name, probe);
            &&& probe is Missing ==> status == Status::Error("Test file not found: "@ + file_path)
            &&& probe matches FileProbe::Unreadable(reason) ==> status == Status::Error(
                "Cannot read test file "@ + file_path + ": "@ + reason@,
            )
            &&& probe matches FileProbe::Text(content) ==> {
                &&& status is Verified <==> text::contains_ended(content@, "fn "@ + test_name) || (
                text::contains_name(content@, test_name) && text::contains(content@, "#[test]"@))
                &&& !(status is Verified) ==> status == Status::Warning(
                    "Test function '"@ + test_name + "' not found in "@ + file_path,
                )
            }
        }),
{
}

/// What is not known is skipped, and the message repeats it. A location and a
/// test have the status that fits their kind.
pub proof fn law_status_fits_the_reference(reference: Reference, probe: FileProbe)
    ensures
        reference matches Reference::Unknown(s) ==> status_of(reference, probe) == Status::Skipped(
            "Unknown evidence format: "@ + s,
        ),
        reference matches Reference::CodeLocation { file_path, start_line, end_line } ==> status_of(
            reference,
            probe,
        ) == code_location_status(file_path, start_line, end_line, probe),
        reference matches Reference::TestReference { file_path, test_name } ==> status_of(
            reference,
            probe,
        ) == test_reference_status(file_path, test_name, probe),
        status_of(reference, probe) is Skipped <==> reference is Unknown,
{
}

/// The result of a piece of evidence repeats it as it came, with what it refers
/// to and its status.
pub proof fn law_evidence_result_repeats_the_evidence(evidence: Seq<char>, probe: FileProbe)
    ensures
        evidence_result(evidence, probe).evidence == evidence,
        evidence_result(evidence, probe).reference == reference_of(evidence),
        evidence_result(evidence, probe).status == status_of(reference_of(evidence), probe),
{
}

} // verus!
