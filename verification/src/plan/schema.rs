//! The parts of a plan, and the rules that a plan has to keep.
use crate::text::{self, blank, push_decimal, same};
use vstd::prelude::*;
use vstd::string::StringExecFns;


verus! {

// ---------------------------------------------------------------------------
// States
// ---------------------------------------------------------------------------

/// State of a plan item.
#[derive(Debug, Clone, Copy, PartialEq, Eq, Structural)]
pub enum PlanState {
    Todo,
    Doing,
    Done,
    Blocked,
}

/// The text that asked for a state and names none.
#[derive(Debug, Clone, PartialEq, Eq)]
pub struct InvalidPlanState {
    pub text: String,
}

impl InvalidPlanState {
    /// The message of this error.
    pub open spec fn message(self) -> Seq<char> {
        "Invalid plan state: "@ + self.text@
    }

    /// The message of this error.
    pub fn to_string(&self) -> (r: String)
        ensures
            r@ == self.message(),
    {
        let mut out = "Invalid plan state: ".to_string();
        out.append(self.text.as_str());
        out
    }
}

/// The lower case of a text, by the Unicode rules that `str::to_lowercase` follows.
pub uninterp spec fn lowercase(s: Seq<char>) -> Seq<char>;

/// The lower case of one character of ASCII.
pub open spec fn ascii_lowercase(c: char) -> char {
    if 'A' <= c <= 'Z' {
        (c as u32 + 32) as char
    } else {
        c
    }
}

/// `str::to_lowercase` gives the lower case of the text. On ASCII text it
/// replaces `A` to `Z` by `a` to `z`, and nothing else; what it does to other
/// characters is left to the name `lowercase`.
pub assume_specification[ str::to_lowercase ](s: &str) -> (r: String)
    ensures
        r@ == lowercase(s@),
        vstd::utf8::is_ascii_chars(s@) ==> r@ == s@.map_values(|c: char| ascii_lowercase(c)),
;

/// The state that a word names.
pub open spec fn state_of_word(word: Seq<char>) -> Option<PlanState> {
    if word == "todo"@ {
        Some(PlanState::Todo)
    } else if word == "doing"@ {
        Some(PlanState::Doing)
    } else if word == "done"@ {
        Some(PlanState::Done)
    } else if word == "blocked"@ {
        Some(PlanState::Blocked)
    } else {
        None
    }
}

impl PlanState {
    /// The word for this state.
    pub open spec fn word(self) -> Seq<char> {
        match self {
            PlanState::Todo => "todo"@,
            PlanState::Doing => "doing"@,
            PlanState::Done => "done"@,
            PlanState::Blocked => "blocked"@,
        }
    }

    /// The word for this state.
    pub fn to_string(&self) -> (r: String)
        ensures
            r@ == self.word(),
    {
        match self {
            PlanState::Todo => "todo".to_string(),
            PlanState::Doing => "doing".to_string(),
            PlanState::Done => "done".to_string(),
            PlanState::Blocked => "blocked".to_string(),
        }
    }

    /// The state that a word in lower case names.
    pub fn from_word(word: &str) -> (r: Option<PlanState>)
        ensures
            r == state_of_word(word@),
    {
        if same(word, "todo") {
            Some(PlanState::Todo)
        } else if same(word, "doing") {
            Some(PlanState::Doing)
        } else if same(word, "done") {
            Some(PlanState::Done)
        } else if same(word, "blocked") {
            Some(PlanState::Blocked)
        } else {
            None
        }
    }

    /// The state that `s` names, in whatever case it is written.
    pub fn parse(s: &str) -> (r: Result<PlanState, InvalidPlanState>)
        ensures
            match r {
                Ok(state) => state_of_word(lowercase(s@)) == Some(state),
                Err(e) => state_of_word(lowercase(s@)) is None && e.text@ == s@,
            },
            vstd::utf8::is_ascii_chars(s@) ==> match r {
                Ok(state) => state_of_word(s@.map_values(|c: char| ascii_lowercase(c))) == Some(
                    state,
                ),
                Err(_) => state_of_word(s@.map_values(|c: char| ascii_lowercase(c))) is None,
            },
    {
        match PlanState::from_word(s.to_lowercase().as_str()) {
            Some(state) => Ok(state),
            None => Err(InvalidPlanState { text: s.to_string() }),
        }
    }
}

impl Default for PlanState {
    fn default() -> (r: Self)
        ensures
            r == PlanState::Todo,
    {
        PlanState::Todo
    }
}

impl std::str::FromStr for PlanState {
    type Err = InvalidPlanState;

    fn from_str(s: &str) -> (r: Result<Self, Self::Err>)
        ensures
            match r {
                Ok(state) => state_of_word(lowercase(s@)) == Some(state),
                Err(e) => state_of_word(lowercase(s@)) is None && e.text@ == s@,
            },
            vstd::utf8::is_ascii_chars(s@) ==> match r {
                Ok(state) => state_of_word(s@.map_values(|c: char| ascii_lowercase(c))) == Some(
                    state,
                ),
                Err(_) => state_of_word(s@.map_values(|c: char| ascii_lowercase(c))) is None,
            },
    {
        PlanState::parse(s)
    }
}

/// Reading back the word for a state gives that state.
pub proof fn law_state_word_reads_back(state: PlanState)
    ensures
        state_of_word(state.word()) == Some(state),
        vstd::utf8::is_ascii_chars(state.word()),
        state.word().map_values(|c: char| ascii_lowercase(c)) == state.word(),
{
    reveal_strlit("todo");
    reveal_strlit("doing");
    reveal_strlit("done");
    reveal_strlit("blocked");
    assert("todo"@[1] == 'o' && "done"@[2] == 'n');
    assert(state.word().map_values(|c: char| ascii_lowercase(c)) =~= state.word());
}

// ---------------------------------------------------------------------------
// Checks
// ---------------------------------------------------------------------------

/// A check with description and target.
#[derive(Debug, Clone)]
pub struct Check {
    /// Description of what this check verifies
    pub desc: String,
    /// Target module/function/file this check applies to
    pub target: String,
}

/// What is wrong with a check.
#[derive(Debug, Clone, Copy, PartialEq, Eq, Structural)]
pub enum CheckError {
    EmptyDescription,
    EmptyTarget,
}

impl CheckError {
    /// The message of this error.
    pub open spec fn message(self) -> Seq<char> {
        match self {
            CheckError::EmptyDescription => "Check description cannot be empty"@,
            CheckError::EmptyTarget => "Check target cannot be empty"@,
        }
    }

    /// The message of this error.
    pub fn to_string(&self) -> (r: String)
        ensures
            r@ == self.message(),
    {
        match self {
            CheckError::EmptyDescription => "Check description cannot be empty".to_string(),
            CheckError::EmptyTarget => "Check target cannot be empty".to_string(),
        }
    }
}

impl Check {
    /// A check with the given description and target.
    pub fn new(desc: impl Into<String>, target: impl Into<String>) -> (r: Self)
        ensures
            call_ensures(<_ as Into<String>>::into, (desc,), r.desc),
            call_ensures(<_ as Into<String>>::into, (target,), r.target),
    {
        Check { desc: desc.into(), target: target.into() }
    }

    /// What is wrong with this check, if anything.
    pub open spec fn error(self) -> Option<CheckError> {
        if text::is_blank(self.desc@) {
            Some(CheckError::EmptyDescription)
        } else if text::is_blank(self.target@) {
            Some(CheckError::EmptyTarget)
        } else {
            None
        }
    }

    /// Validate that the check has required fields.
    pub fn validate(&self) -> (r: Result<(), CheckError>)
        ensures
            r == match self.error() {
                None => Ok::<(), CheckError>(()),
                Some(e) => Err(e),
            },
    {
        if blank(self.desc.as_str()) {
            return Err(CheckError::EmptyDescription);
        }
        if blank(self.target.as_str()) {
            return Err(CheckError::EmptyTarget);
        }
        Ok(())
    }
}

impl Default for Check {
    fn default() -> (r: Self)
        ensures
            r.desc@ == Seq::<char>::empty(),
            r.target@ == Seq::<char>::empty(),
    {
        Check { desc: String::new(), target: String::new() }
    }
}

/// The three required checks for each plan item.
#[derive(Debug, Clone)]
pub struct Checks {
    /// Happy path check - normal successful operation
    pub happy: Check,
    /// Negative case checks - error handling, invalid input (at least 1 required)
    pub negative: Vec<Check>,
    /// Boundary condition checks - edge cases, limits (at least 1 required)
    pub boundary: Vec<Check>,
}

/// What is wrong with the checks of an item.
#[derive(Debug, Clone, Copy, PartialEq, Eq, Structural)]
pub enum ChecksError {
    Happy(CheckError),
    NoNegative,
    Negative(usize, CheckError),
    NoBoundary,
    Boundary(usize, CheckError),
}

impl ChecksError {
    /// The message of this error.
    pub open spec fn message(self) -> Seq<char> {
        match self {
            ChecksError::Happy(e) => "happy check: "@ + e.message(),
            ChecksError::NoNegative => "at least one negative check is required"@,
            ChecksError::Negative(i, e) => "negative check ["@ + text::decimal(i as nat) + "]: "@
                + e.message(),
            ChecksError::NoBoundary => "at least one boundary check is required"@,
            ChecksError::Boundary(i, e) => "boundary check ["@ + text::decimal(i as nat) + "]: "@
                + e.message(),
        }
    }

    /// The message of this error.
    pub fn to_string(&self) -> (r: String)
        ensures
            r@ == self.message(),
    {
        match self {
            ChecksError::Happy(e) => {
                let mut out = "happy check: ".to_string();
                out.append(e.to_string().as_str());
                out
            },
            ChecksError::NoNegative => "at least one negative check is required".to_string(),
            ChecksError::Negative(i, e) => {
                let mut out = "negative check [".to_string();
                push_decimal(&mut out, *i as u64);
                out.append("]: ");
                out.append(e.to_string().as_str());
                out
            },
            ChecksError::NoBoundary => "at least one boundary check is required".to_string(),
            ChecksError::Boundary(i, e) => {
                let mut out = "boundary check [".to_string();
                push_decimal(&mut out, *i as u64);
                out.append("]: ");
                out.append(e.to_string().as_str());
                out
            },
        }
    }
}

/// The first check from position `i` on that something is wrong with.
pub open spec fn first_bad_check(checks: Seq<Check>, i: nat) -> Option<(usize, CheckError)>
    decreases checks.len() - i,
{
    if i >= checks.len() {
        None
    } else {
        match checks[i as int].error() {
            Some(e) => Some((i as usize, e)),
            None => first_bad_check(checks, i + 1),
        }
    }
}

/// No check is bad exactly where nothing is wrong with any of them.
proof fn lemma_first_bad_check(checks: Seq<Check>, i: nat)
    ensures
        first_bad_check(checks, i) is None <==> forall|j: int|
            i <= j < checks.len() ==> (#[trigger] checks[j]).error() is None,
    decreases checks.len() - i,
{
    if i < checks.len() && checks[i as int].error() is None {
        lemma_first_bad_check(checks, i + 1);
    }
}

/// The first of `checks` that something is wrong with.
fn find_bad_check(checks: &Vec<Check>) -> (r: Option<(usize, CheckError)>)
    ensures
        r == first_bad_check(checks@, 0),
{
    let mut i: usize = 0;
    while i < checks.len()
        invariant
            i <= checks@.len(),
            first_bad_check(checks@, 0) == first_bad_check(checks@, i as nat),
        decreases checks@.len() - i,
    {
        if let Err(e) = checks[i].validate() {
            return Some((i, e));
        }
        i = i + 1;
    }
    None
}

impl Checks {
    /// What is wrong with these checks, if anything: the happy check comes
    /// first, then the negative ones, then the boundary ones.
    pub open spec fn error(self) -> Option<ChecksError> {
        if let Some(e) = self.happy.error() {
            Some(ChecksError::Happy(e))
        } else if self.negative@.len() == 0 {
            Some(ChecksError::NoNegative)
        } else if let Some((i, e)) = first_bad_check(self.negative@, 0) {
            Some(ChecksError::Negative(i, e))
        } else if self.boundary@.len() == 0 {
            Some(ChecksError::NoBoundary)
        } else if let Some((i, e)) = first_bad_check(self.boundary@, 0) {
            Some(ChecksError::Boundary(i, e))
        } else {
            None
        }
    }

    /// Validate all checks (1 happy, 1+ negative, 1+ boundary).
    pub fn validate(&self) -> (r: Result<(), ChecksError>)
        ensures
            r == match self.error() {
                None => Ok::<(), ChecksError>(()),
                Some(e) => Err(e),
            },
    {
        if let Err(e) = self.happy.validate() {
            return Err(ChecksError::Happy(e));
        }
        if self.negative.is_empty() {
            return Err(ChecksError::NoNegative);
        }
        if let Some((i, e)) = find_bad_check(&self.negative) {
            return Err(ChecksError::Negative(i, e));
        }
        if self.boundary.is_empty() {
            return Err(ChecksError::NoBoundary);
        }
        if let Some((i, e)) = find_bad_check(&self.boundary) {
            return Err(ChecksError::Boundary(i, e));
        }
        Ok(())
    }
}

impl Default for Checks {
    fn default() -> (r: Self)
        ensures
            r.happy.desc@ == Seq::<char>::empty(),
            r.happy.target@ == Seq::<char>::empty(),
            r.negative@.len() == 0,
            r.boundary@.len() == 0,
    {
        Checks { happy: Check::default(), negative: Vec::new(), boundary: Vec::new() }
    }
}

/// The checks of an item are in order exactly where the happy check is filled
/// in and there is at least one negative and one boundary check, all of them
/// filled in.
pub proof fn law_checks_valid_iff(checks: Checks)
    ensures
        checks.error() is None <==> {
            &&& checks.happy.error() is None
            &&& checks.negative@.len() > 0
            &&& forall|i: int|
                0 <= i < checks.negative@.len() ==> (#[trigger] checks.negative@[i]).error() is None
            &&& checks.boundary@.len() > 0
            &&& forall|i: int|
                0 <= i < checks.boundary@.len() ==> (#[trigger] checks.boundary@[i]).error() is None
        },
{
    lemma_first_bad_check(checks.negative@, 0);
    lemma_first_bad_check(checks.boundary@, 0);
}

// ---------------------------------------------------------------------------
// Items
// ---------------------------------------------------------------------------

/// A single item in the plan.
#[derive(Debug, Clone)]
pub struct PlanItem {
    /// Stable identifier (e.g., "I1", "I2")
    pub id: String,
    /// What will be done
    pub description: String,
    /// Current state
    pub state: PlanState,
    /// Paths/modules this affects
    pub touches: Vec<String>,
    /// The three required checks
    pub checks: Checks,
    /// Evidence when done (file:line, test names, snippets)
    pub evidence: Vec<String>,
    /// Short explanation including implementation nuances
    pub notes: Option<String>,
}

/// What is wrong with a plan item.
#[derive(Debug, Clone, PartialEq, Eq)]
pub enum ItemError {
    EmptyId,
    EmptyDescription,
    NoTouches,
    Checks { id: String, error: ChecksError },
    NoEvidence { id: String },
    NoNotes { id: String },
}

impl ItemError {
    /// The message of this error.
    pub open spec fn message(self) -> Seq<char> {
        match self {
            ItemError::EmptyId => "Item id cannot be empty"@,
            ItemError::EmptyDescription => "Item description cannot be empty"@,
            ItemError::NoTouches => "Item must specify at least one path/module in 'touches'"@,
            ItemError::Checks { id, error } => "Item '"@ + id@ + "': "@ + error.message(),
            ItemError::NoEvidence { id } => "Item '"@ + id@
                + "' is marked done but has no evidence"@,
            ItemError::NoNotes { id } => "Item '"@ + id@ + "' is marked done but has no notes"@,
        }
    }

    /// The message of this error.
    pub fn to_string(&self) -> (r: String)
        ensures
            r@ == self.message(),
    {
        match self {
            ItemError::EmptyId => "Item id cannot be empty".to_string(),
            ItemError::EmptyDescription => "Item description cannot be empty".to_string(),
            ItemError::NoTouches =>
                "Item must specify at least one path/module in 'touches'".to_string(),
            ItemError::Checks { id, error } => {
                let mut out = "Item '".to_string();
                out.append(id.as_str());
                out.append("': ");
                out.append(error.to_string().as_str());
                out
            },
            ItemError::NoEvidence { id } => {
                let mut out = "Item '".to_string();
                out.append(id.as_str());
                out.append("' is marked done but has no evidence");
                out
            },
            ItemError::NoNotes { id } => {
                let mut out = "Item '".to_string();
                out.append(id.as_str());
                out.append("' is marked done but has no notes");
                out
            },
        }
    }
}

/// Whether there are notes that say something.
pub open spec fn has_notes(notes: Option<String>) -> bool {
    notes matches Some(n) && !text::is_blank(n@)
}

impl PlanItem {
    /// Create a new plan item with required fields.
    pub fn new(
        id: impl Into<String>,
        description: impl Into<String>,
        touches: Vec<String>,
        checks: Checks,
    ) -> (r: Self)
        ensures
            call_ensures(<_ as Into<String>>::into, (id,), r.id),
            call_ensures(<_ as Into<String>>::into, (description,), r.description),
            r.state == PlanState::Todo,
            r.touches == touches,
            r.checks == checks,
            r.evidence@.len() == 0,
            r.notes is None,
    {
        PlanItem {
            id: id.into(),
            description: description.into(),
            state: PlanState::Todo,
            touches,
            checks,
            evidence: Vec::new(),
            notes: None,
        }
    }

    /// What is wrong with this item, if anything.
    pub open spec fn error(self) -> Option<ItemError> {
        if text::is_blank(self.id@) {
            Some(ItemError::EmptyId)
        } else if text::is_blank(self.description@) {
            Some(ItemError::EmptyDescription)
        } else if self.touches@.len() == 0 {
            Some(ItemError::NoTouches)
        } else if let Some(error) = self.checks.error() {
            Some(ItemError::Checks { id: self.id, error })
        } else if self.state == PlanState::Done && self.evidence@.len() == 0 {
            Some(ItemError::NoEvidence { id: self.id })
        } else if self.state == PlanState::Done && !has_notes(self.notes) {
            Some(ItemError::NoNotes { id: self.id })
        } else {
            None
        }
    }

    /// Validate the plan item structure.
    pub fn validate(&self) -> (r: Result<(), ItemError>)
        ensures
            r == match self.error() {
                None => Ok::<(), ItemError>(()),
                Some(e) => Err(e),
            },
    {
        if blank(self.id.as_str()) {
            return Err(ItemError::EmptyId);
        }
        if blank(self.description.as_str()) {
            return Err(ItemError::EmptyDescription);
        }
        if self.touches.is_empty() {
            return Err(ItemError::NoTouches);
        }
        if let Err(error) = self.checks.validate() {
            return Err(ItemError::Checks { id: self.id.clone(), error });
        }
        // If done, must have evidence and notes
        if self.state == PlanState::Done {
            if self.evidence.is_empty() {
                return Err(ItemError::NoEvidence { id: self.id.clone() });
            }
            let noted = match &self.notes {
                Some(notes) => !blank(notes.as_str()),
                None => false,
            };
            if !noted {
                return Err(ItemError::NoNotes { id: self.id.clone() });
            }
        }
        Ok(())
    }

    /// Whether this item is done or blocked.
    pub open spec fn terminal(self) -> bool {
        self.state == PlanState::Done || self.state == PlanState::Blocked
    }

    /// Check if this item is terminal (done or blocked).
    pub fn is_terminal(&self) -> (r: bool)
        ensures
            r == self.terminal(),
    {
        match self.state {
            PlanState::Done | PlanState::Blocked => true,
            _ => false,
        }
    }
}

// ---------------------------------------------------------------------------
// Plans
// ---------------------------------------------------------------------------

/// A complete plan with metadata and items.
#[derive(Debug, Clone)]
pub struct Plan {
    /// Unique identifier for this plan
    pub plan_id: String,
    /// Current revision number (increments on each write)
    pub revision: u32,
    /// The revision that was approved (None if not yet approved)
    pub approved_revision: Option<u32>,
    /// The plan items
    pub items: Vec<PlanItem>,
}

/// What is wrong with a plan.
#[derive(Debug, Clone, PartialEq, Eq)]
pub enum PlanError {
    EmptyPlanId,
    NoItems,
    DuplicateId(String),
    Item(ItemError),
}

impl PlanError {
    /// The message of this error.
    pub open spec fn message(self) -> Seq<char> {
        match self {
            PlanError::EmptyPlanId => "Plan ID cannot be empty"@,
            PlanError::NoItems => "Plan must have at least one item"@,
            PlanError::DuplicateId(id) => "Duplicate item ID: "@ + id@,
            PlanError::Item(e) => e.message(),
        }
    }

    /// The message of this error.
    pub fn to_string(&self) -> (r: String)
        ensures
            r@ == self.message(),
    {
        match self {
            PlanError::EmptyPlanId => "Plan ID cannot be empty".to_string(),
            PlanError::NoItems => "Plan must have at least one item".to_string(),
            PlanError::DuplicateId(id) => {
                let mut out = "Duplicate item ID: ".to_string();
                out.append(id.as_str());
                out
            },
            PlanError::Item(e) => e.to_string(),
        }
    }
}

/// Whether an item before position `i` has the same id as the one there.
pub open spec fn repeats_id(items: Seq<PlanItem>, i: int) -> bool {
    exists|j: int| 0 <= j < i && (#[trigger] items[j]).id@ == items[i].id@
}

/// What is wrong with the items from position `i` on, if anything: the first
/// item that repeats an id or that is itself wrong decides.
pub open spec fn items_error(items: Seq<PlanItem>, i: nat) -> Option<PlanError>
    decreases items.len() - i,
{
    if i >= items.len() {
        None
    } else if repeats_id(items, i as int) {
        Some(PlanError::DuplicateId(items[i as int].id))
    } else if let Some(e) = items[i as int].error() {
        Some(PlanError::Item(e))
    } else {
        items_error(items, i + 1)
    }
}

proof fn lemma_items_error(items: Seq<PlanItem>, i: nat)
    ensures
        items_error(items, i) is None <==> forall|j: int|
            i <= j < items.len() ==> !repeats_id(items, j) && (#[trigger] items[j]).error() is None,
    decreases items.len() - i,
{
    if i < items.len() {
        if !repeats_id(items, i as int) && items[i as int].error() is None {
            lemma_items_error(items, i + 1);
        } else {
            assert(i <= i && items[i as int] == items[i as int]);
        }
    }
}

/// Whether an item of `items` before position `i` has the id of the one there.
fn id_seen_before(items: &Vec<PlanItem>, i: usize) -> (r: bool)
    requires
        i < items@.len(),
    ensures
        r == repeats_id(items@, i as int),
{
    let mut j: usize = 0;
    while j < i
        invariant
            j <= i < items@.len(),
            forall|k: int| 0 <= k < j ==> (#[trigger] items@[k]).id@ != items@[i as int].id@,
        decreases i - j,
    {
        if items[j].id == items[i].id {
            return true;
        }
        j = j + 1;
    }
    false
}

/// How many of `items` are in state `state`.
pub open spec fn count_in_state(items: Seq<PlanItem>, state: PlanState) -> nat
    decreases items.len(),
{
    if items.len() == 0 {
        0
    } else {
        count_in_state(items.drop_last(), state) + if items.last().state == state {
            1nat
        } else {
            0
        }
    }
}

/// How many of `items` are in state `state`.
fn count_items(items: &Vec<PlanItem>, state: PlanState) -> (r: usize)
    ensures
        r == count_in_state(items@, state),
{
    let mut n: usize = 0;
    let mut i: usize = 0;
    assert(items@.take(0) =~= Seq::<PlanItem>::empty());
    while i < items.len()
        invariant
            n <= i <= items.len(),
            n == count_in_state(items@.take(i as int), state),
        decreases items@.len() - i,
    {
        assert(items@.take(i + 1).drop_last() =~= items@.take(i as int));
        if items[i].state == state {
            n = n + 1;
        }
        i = i + 1;
    }
    assert(items@.take(i as int) =~= items@);
    n
}

impl Plan {
    /// Create a new plan with the given ID.
    pub fn new(plan_id: impl Into<String>) -> (r: Self)
        ensures
            call_ensures(<_ as Into<String>>::into, (plan_id,), r.plan_id),
            r.revision == 1,
            r.approved_revision is None,
            r.items@.len() == 0,
    {
        Plan { plan_id: plan_id.into(), revision: 1, approved_revision: None, items: Vec::new() }
    }

    /// Whether the plan has been approved.
    pub open spec fn approved(self) -> bool {
        self.approved_revision is Some
    }

    /// Check if the plan has been approved.
    pub fn is_approved(&self) -> (r: bool)
        ensures
            r == self.approved(),
    {
        self.approved_revision.is_some()
    }

    /// This plan with its current revision approved.
    pub open spec fn with_approval(self) -> Plan {
        Plan { approved_revision: Some(self.revision), ..self }
    }

    /// Approve the current revision.
    pub fn approve(&mut self)
        ensures
            *final(self) == old(self).with_approval(),
    {
        self.approved_revision = Some(self.revision);
    }

    /// Whether there are items, and all of them are done or blocked.
    pub open spec fn complete(self) -> bool {
        &&& self.items@.len() > 0
        &&& forall|i: int| 0 <= i < self.items@.len() ==> (#[trigger] self.items@[i]).terminal()
    }

    /// Check if all items are terminal (done or blocked).
    pub fn is_complete(&self) -> (r: bool)
        ensures
            r == self.complete(),
    {
        if self.items.is_empty() {
            return false;
        }
        let mut i: usize = 0;
        while i < self.items.len()
            invariant
                i <= self.items@.len(),
                forall|j: int| 0 <= j < i ==> (#[trigger] self.items@[j]).terminal(),
            decreases self.items@.len() - i,
        {
            if !self.items[i].is_terminal() {
                return false;
            }
            i = i + 1;
        }
        true
    }

    /// What is wrong with this plan, if anything.
    pub open spec fn error(self) -> Option<PlanError> {
        if text::is_blank(self.plan_id@) {
            Some(PlanError::EmptyPlanId)
        } else if self.items@.len() == 0 {
            Some(PlanError::NoItems)
        } else {
            items_error(self.items@, 0)
        }
    }

    /// Whether the plan keeps all rules.
    pub open spec fn valid(self) -> bool {
        self.error() is None
    }

    /// Validate the entire plan structure.
    pub fn validate(&self) -> (r: Result<(), PlanError>)
        ensures
            r == match self.error() {
                None => Ok::<(), PlanError>(()),
                Some(e) => Err(e),
            },
    {
        if blank(self.plan_id.as_str()) {
            return Err(PlanError::EmptyPlanId);
        }
        if self.items.is_empty() {
            return Err(PlanError::NoItems);
        }
        let mut i: usize = 0;
        while i < self.items.len()
            invariant
                i <= self.items@.len(),
                self.error() == items_error(self.items@, i as nat),
            decreases self.items@.len() - i,
        {
            if id_seen_before(&self.items, i) {
                return Err(PlanError::DuplicateId(self.items[i].id.clone()));
            }
            if let Err(e) = self.items[i].validate() {
                return Err(PlanError::Item(e));
            }
            i = i + 1;
        }
        Ok(())
    }

    /// How the summary speaks of the approval.
    pub open spec fn approval_text(self) -> Seq<char> {
        match self.approved_revision {
            Some(revision) => " (approved at rev "@ + text::decimal(revision as nat) + ")"@,
            None => " (NOT APPROVED)"@,
        }
    }

    /// The summary of the plan status, behind the plan id.
    pub open spec fn summary_tail(self) -> Seq<char> {
        "' rev "@ + text::decimal(self.revision as nat) + self.approval_text() + ": "@ + text::decimal(
            count_in_state(self.items@, PlanState::Done),
        ) + "/"@ + text::decimal(self.items@.len()) + " done, "@ + text::decimal(
            count_in_state(self.items@, PlanState::Doing),
        ) + " doing, "@ + text::decimal(count_in_state(self.items@, PlanState::Blocked)) + " blocked, "@
            + text::decimal(count_in_state(self.items@, PlanState::Todo)) + " todo"@
    }

    /// The summary of the plan status.
    pub open spec fn summary(self) -> Seq<char> {
        "Plan '"@ + self.plan_id@ + self.summary_tail()
    }

    /// Get a summary of the plan status.
    pub fn status_summary(&self) -> (r: String)
        ensures
            r@ == self.summary(),
    {
        let approval = match self.approved_revision {
            Some(revision) => {
                let mut text = " (approved at rev ".to_string();
                push_decimal(&mut text, revision as u64);
                text.append(")");
                text
            },
            None => " (NOT APPROVED)".to_string(),
        };
        let mut tail = "' rev ".to_string();
        push_decimal(&mut tail, self.revision as u64);
        tail.append(approval.as_str());
        tail.append(": ");
        push_decimal(&mut tail, count_items(&self.items, PlanState::Done) as u64);
        tail.append("/");
        push_decimal(&mut tail, self.items.len() as u64);
        tail.append(" done, ");
        push_decimal(&mut tail, count_items(&self.items, PlanState::Doing) as u64);
        tail.append(" doing, ");
        push_decimal(&mut tail, count_items(&self.items, PlanState::Blocked) as u64);
        tail.append(" blocked, ");
        push_decimal(&mut tail, count_items(&self.items, PlanState::Todo) as u64);
        tail.append(" todo");
        let mut out = "Plan '".to_string();
        out.append(self.plan_id.as_str());
        out.append(tail.as_str());
        out
    }
}

// ---------------------------------------------------------------------------
// Laws
// ---------------------------------------------------------------------------

/// A plan is valid exactly where it has an id and items, no two items share an
/// id, and every item is valid.
pub proof fn law_plan_valid_iff(plan: Plan)
    ensures
        plan.valid() <==> {
            &&& !text::is_blank(plan.plan_id@)
            &&& plan.items@.len() > 0
            &&& forall|i: int, j: int|
                0 <= i < j < plan.items@.len() ==> (#[trigger] plan.items@[i]).id@ != (
                #[trigger] plan.items@[j]).id@
            &&& forall|i: int|
                0 <= i < plan.items@.len() ==> (#[trigger] plan.items@[i]).error() is None
        },
{
    let items = plan.items@;
    lemma_items_error(items, 0);
    if plan.valid() {
        assert forall|i: int, j: int| 0 <= i < j < items.len() implies (#[trigger] items[i]).id@
            != (#[trigger] items[j]).id@ by {
            assert(!repeats_id(items, j));
        }
    }
}

/// A plan that is valid and complete has evidence and notes for every item,
/// except for the blocked ones.
pub proof fn law_complete_plan_has_evidence(plan: Plan, i: int)
    requires
        plan.valid(),
        plan.complete(),
        0 <= i < plan.items@.len(),
    ensures
        plan.items@[i].state == PlanState::Blocked || (plan.items@[i].state == PlanState::Done
            && plan.items@[i].evidence@.len() > 0 && has_notes(plan.items@[i].notes)),
{
    law_plan_valid_iff(plan);
    assert(plan.items@[i].terminal());
    assert(plan.items@[i].error() is None);
}

/// The four counts of the summary add up to the number of items.
pub proof fn law_states_partition_items(items: Seq<PlanItem>)
    ensures
        count_in_state(items, PlanState::Done) + count_in_state(items, PlanState::Doing)
            + count_in_state(items, PlanState::Blocked) + count_in_state(items, PlanState::Todo)
            == items.len(),
    decreases items.len(),
{
    if items.len() > 0 {
        law_states_partition_items(items.drop_last());
    }
}

/// No item is in a state exactly where the count for that state is zero.
proof fn lemma_count_zero(items: Seq<PlanItem>, state: PlanState)
    ensures
        count_in_state(items, state) == 0 <==> forall|i: int|
            0 <= i < items.len() ==> (#[trigger] items[i]).state != state,
    decreases items.len(),
{
    if items.len() > 0 {
        let front = items.drop_last();
        lemma_count_zero(front, state);
        if count_in_state(items, state) == 0 {
            assert forall|i: int| 0 <= i < items.len() implies (#[trigger] items[i]).state
                != state by {
                if i < items.len() - 1 {
                    assert(front[i] == items[i]);
                }
            }
        } else if items.last().state != state {
            let i = choose|i: int| 0 <= i < front.len() && (#[trigger] front[i]).state == state;
            assert(items[i].state == state);
        }
    }
}

/// A plan is complete exactly where it has items and none of them is still to
/// do or being done.
pub proof fn law_complete_iff_nothing_open(plan: Plan)
    ensures
        plan.complete() <==> {
            &&& plan.items@.len() > 0
            &&& count_in_state(plan.items@, PlanState::Todo) == 0
            &&& count_in_state(plan.items@, PlanState::Doing) == 0
        },
{
    let items = plan.items@;
    lemma_count_zero(items, PlanState::Todo);
    lemma_count_zero(items, PlanState::Doing);
    if count_in_state(items, PlanState::Todo) == 0 && count_in_state(items, PlanState::Doing) == 0 {
        assert forall|i: int| 0 <= i < items.len() implies (#[trigger] items[i]).terminal() by {
            assert(items[i].state != PlanState::Todo && items[i].state != PlanState::Doing);
        }
    } else if plan.complete() {
        assert forall|i: int| 0 <= i < items.len() implies (#[trigger] items[i]).state
            != PlanState::Todo && items[i].state != PlanState::Doing by {
            assert(items[i].terminal());
        }
    }
}

/// Approving changes nothing but the approval: the plan is then approved at
/// its revision, and as valid and as complete as before.
pub proof fn law_approval_keeps_the_rest(plan: Plan)
    ensures
        plan.with_approval().approved(),
        plan.with_approval().approved_revision == Some(plan.revision),
        plan.with_approval().error() == plan.error(),
        plan.with_approval().complete() == plan.complete(),
        plan.with_approval().with_approval() == plan.with_approval(),
{
}

/// A word names a state exactly where it is the word for that state.
pub proof fn law_word_names_state_iff(word: Seq<char>, state: PlanState)
    ensures
        state_of_word(word) == Some(state) <==> word == match state {
            PlanState::Todo => "todo"@,
            PlanState::Doing => "doing"@,
            PlanState::Done => "done"@,
            PlanState::Blocked => "blocked"@,
        },
        state_of_word(word) == Some(state) <==> word == state.word(),
{
    law_state_word_reads_back(state);
}

/// A check is in order exactly where both its description and its target say
/// something. The description is looked at first.
pub proof fn law_check_error_iff(check: Check)
    ensures
        check.error() is None <==> !text::is_blank(check.desc@) && !text::is_blank(check.target@),
        check.error() == Some(CheckError::EmptyDescription) <==> text::is_blank(check.desc@),
        check.error() == Some(CheckError::EmptyTarget) <==> !text::is_blank(check.desc@)
            && text::is_blank(check.target@),
{
}

/// The first bad check is bad, and those before it are not.
proof fn lemma_first_bad_check_is(checks: Seq<Check>, i: nat, k: nat, e: CheckError)
    requires
        checks.len() <= usize::MAX,
    ensures
        i <= k && first_bad_check(checks, i) == Some((k as usize, e)) && k <= usize::MAX <==> {
            &&& i <= k < checks.len()
            &&& checks[k as int].error() == Some(e)
            &&& forall|j: int| i <= j < k ==> (#[trigger] checks[j]).error() is None
        },
    decreases checks.len() - i,
{
    if i < checks.len() {
        if checks[i as int].error() is None {
            lemma_first_bad_check_is(checks, i + 1, k, e);
            if first_bad_check(checks, i) == Some((k as usize, e)) && k == i {
                lemma_first_bad_check_is_later(checks, i + 1);
            }
        }
    }
}

proof fn lemma_first_bad_check_is_later(checks: Seq<Check>, i: nat)
    requires
        checks.len() <= usize::MAX,
    ensures
        first_bad_check(checks, i) matches Some((k, _)) ==> i <= k < checks.len(),
    decreases checks.len() - i,
{
    if i < checks.len() && checks[i as int].error() is None {
        lemma_first_bad_check_is_later(checks, i + 1);
    }
}

/// The error for checks names the first of them that is not in order: the happy
/// check comes first, then that there is a negative one, then the negative ones
/// by their position, and the boundary ones likewise.
pub proof fn law_checks_error_names_the_first(checks: Checks, i: usize, e: CheckError)
    ensures
        checks.error() == Some(ChecksError::Happy(e)) <==> checks.happy.error() == Some(e),
        checks.error() == Some(ChecksError::NoNegative) <==> checks.happy.error() is None
            && checks.negative@.len() == 0,
        checks.error() == Some(ChecksError::Negative(i, e)) <==> {
            &&& checks.happy.error() is None
            &&& i < checks.negative@.len()
            &&& checks.negative@[i as int].error() == Some(e)
            &&& forall|j: int| 0 <= j < i ==> (#[trigger] checks.negative@[j]).error() is None
        },
        checks.error() == Some(ChecksError::NoBoundary) <==> {
            &&& checks.happy.error() is None
            &&& checks.negative@.len() > 0
            &&& forall|j: int|
                0 <= j < checks.negative@.len() ==> (#[trigger] checks.negative@[j]).error() is None
            &&& checks.boundary@.len() == 0
        },
        checks.error() == Some(ChecksError::Boundary(i, e)) <==> {
            &&& checks.happy.error() is None
            &&& checks.negative@.len() > 0
            &&& forall|j: int|
                0 <= j < checks.negative@.len() ==> (#[trigger] checks.negative@[j]).error() is None
            &&& i < checks.boundary@.len()
            &&& checks.boundary@[i as int].error() == Some(e)
            &&& forall|j: int| 0 <= j < i ==> (#[trigger] checks.boundary@[j]).error() is None
        },
{
    assert(checks.negative.len() == checks.negative@.len());
    assert(checks.boundary.len() == checks.boundary@.len());
    lemma_first_bad_check(checks.negative@, 0);
    lemma_first_bad_check(checks.boundary@, 0);
    lemma_first_bad_check_is(checks.negative@, 0, i as nat, e);
    lemma_first_bad_check_is(checks.boundary@, 0, i as nat, e);
}

/// An item is valid exactly where its id and its description say something, it
/// touches something, each of its checks says what it verifies and where, with
/// at least one negative and one boundary check among them, and, where it is
/// done, it has evidence and notes that say something.
pub proof fn law_item_valid_iff(item: PlanItem)
    ensures
        item.error() is None <==> {
            &&& !text::is_blank(item.id@)
            &&& !text::is_blank(item.description@)
            &&& item.touches@.len() > 0
            &&& !text::is_blank(item.checks.happy.desc@)
            &&& !text::is_blank(item.checks.happy.target@)
            &&& item.checks.negative@.len() > 0
            &&& forall|i: int|
                0 <= i < item.checks.negative@.len() ==> !text::is_blank(
                    (#[trigger] item.checks.negative@[i]).desc@,
                ) && !text::is_blank(item.checks.negative@[i].target@)
            &&& item.checks.boundary@.len() > 0
            &&& forall|i: int|
                0 <= i < item.checks.boundary@.len() ==> !text::is_blank(
                    (#[trigger] item.checks.boundary@[i]).desc@,
                ) && !text::is_blank(item.checks.boundary@[i].target@)
            &&& item.state == PlanState::Done ==> {
                &&& item.evidence@.len() > 0
                &&& item.notes matches Some(notes) && !text::is_blank(notes@)
            }
        },
{
    law_checks_valid_iff(item.checks);
    let negative = item.checks.negative@;
    let boundary = item.checks.boundary@;
    assert forall|i: int| 0 <= i < negative.len() implies ((#[trigger] negative[i]).error() is None
        <==> !text::is_blank(negative[i].desc@) && !text::is_blank(negative[i].target@)) by {
        law_check_error_iff(negative[i]);
    }
    assert forall|i: int| 0 <= i < boundary.len() implies ((#[trigger] boundary[i]).error() is None
        <==> !text::is_blank(boundary[i].desc@) && !text::is_blank(boundary[i].target@)) by {
        law_check_error_iff(boundary[i]);
    }
}

/// Evidence and notes are asked for only when an item is done: two items that
/// are not done, and that agree in their id, description, touches and checks,
/// are both valid or wrong for the same reason, whatever evidence and notes they
/// have and whichever of the other states they are in.
pub proof fn law_open_item_needs_no_evidence(a: PlanItem, b: PlanItem)
    requires
        a.state != PlanState::Done,
        b.state != PlanState::Done,
        a.id == b.id,
        a.description == b.description,
        a.touches == b.touches,
        a.checks == b.checks,
    ensures
        a.error() == b.error(),
        !(a.error() matches Some(ItemError::NoEvidence { .. })),
        !(a.error() matches Some(ItemError::NoNotes { .. })),
{
}

/// The error for an item names the first rule that it breaks, and the item by
/// its id where it has one.
pub proof fn law_item_error_names_the_first(item: PlanItem, id: String, error: ChecksError)
    ensures
        item.error() == Some(ItemError::EmptyId) <==> text::is_blank(item.id@),
        item.error() == Some(ItemError::EmptyDescription) <==> !text::is_blank(item.id@)
            && text::is_blank(item.description@),
        item.error() == Some(ItemError::NoTouches) <==> !text::is_blank(item.id@)
            && !text::is_blank(item.description@) && item.touches@.len() == 0,
        item.error() == Some(ItemError::Checks { id, error }) <==> !text::is_blank(item.id@)
            && !text::is_blank(item.description@) && item.touches@.len() > 0 && item.checks.error()
            == Some(error) && id == item.id,
        item.error() == Some(ItemError::NoEvidence { id }) <==> !text::is_blank(item.id@)
            && !text::is_blank(item.description@) && item.touches@.len() > 0
            && item.checks.error() is None && item.state == PlanState::Done && item.evidence@.len()
            == 0 && id == item.id,
        item.error() == Some(ItemError::NoNotes { id }) <==> !text::is_blank(item.id@)
            && !text::is_blank(item.description@) && item.touches@.len() > 0
            && item.checks.error() is None && item.state == PlanState::Done && item.evidence@.len()
            > 0 && !(item.notes matches Some(notes) && !text::is_blank(notes@)) && id == item.id,
{
}

proof fn lemma_items_error_later(items: Seq<PlanItem>, i: nat, k: nat)
    requires
        i <= k < items.len(),
        forall|j: int|
            0 <= j < k ==> !repeats_id(items, j) && (#[trigger] items[j]).error() is None,
    ensures
        items_error(items, i) == items_error(items, k),
    decreases k - i,
{
    if i < k {
        assert(items[i as int].error() is None && !repeats_id(items, i as int));
        lemma_items_error_later(items, i + 1, k);
    }
}

/// The error for a plan names the first rule that it breaks: that it has no id
/// or no items, or else the first item that repeats an id or is itself wrong.
pub proof fn law_plan_error_names_the_first(plan: Plan, k: int)
    ensures
        plan.error() == Some(PlanError::EmptyPlanId) <==> text::is_blank(plan.plan_id@),
        plan.error() == Some(PlanError::NoItems) <==> !text::is_blank(plan.plan_id@)
            && plan.items@.len() == 0,
        !text::is_blank(plan.plan_id@) && 0 <= k < plan.items@.len() && (forall|i: int, j: int|
            0 <= i < j < k ==> (#[trigger] plan.items@[i]).id@ != (#[trigger] plan.items@[j]).id@)
            && (forall|i: int| 0 <= i < k ==> (#[trigger] plan.items@[i]).error() is None) ==> {
            &&& (exists|i: int| 0 <= i < k && (#[trigger] plan.items@[i]).id@ == plan.items@[k].id@)
                ==> plan.error() == Some(PlanError::DuplicateId(plan.items@[k].id))
            &&& (forall|i: int| 0 <= i < k ==> (#[trigger] plan.items@[i]).id@
                != plan.items@[k].id@) ==> (plan.items@[k].error() matches Some(e) ==> plan.error()
                == Some(PlanError::Item(e)))
        },
{
    let items = plan.items@;
    lemma_items_error_kind(items, 0);
    if !text::is_blank(plan.plan_id@) && 0 <= k < items.len() && (forall|i: int, j: int|
        0 <= i < j < k ==> (#[trigger] items[i]).id@ != (#[trigger] items[j]).id@) && (forall|i: int|
        0 <= i < k ==> (#[trigger] items[i]).error() is None) {
        lemma_items_error_later(items, 0, k as nat);
    }
}

proof fn lemma_items_error_kind(items: Seq<PlanItem>, i: nat)
    ensures
        items_error(items, i) != Some(PlanError::EmptyPlanId),
        items_error(items, i) != Some(PlanError::NoItems),
    decreases items.len() - i,
{
    if i < items.len() {
        lemma_items_error_kind(items, i + 1);
    }
}

/// Whether a plan is valid does not depend on its revision or its approval.
pub proof fn law_validity_is_independent_of_revisions(
    plan: Plan,
    revision: u32,
    approved_revision: Option<u32>,
)
    ensures
        (Plan { revision, approved_revision, ..plan }).error() == plan.error(),
{
}

/// An item is over exactly where it is done or blocked, and a plan is approved
/// exactly where one of its revisions was.
pub proof fn law_terminal_and_approved_iff(item: PlanItem, plan: Plan)
    ensures
        item.terminal() <==> item.state == PlanState::Done || item.state == PlanState::Blocked,
        plan.approved() <==> plan.approved_revision != None::<u32>,
        plan.with_approval() == (Plan { approved_revision: Some(plan.revision), ..plan }),
{
}

/// The items in a state are counted one by one.
pub proof fn law_count_is_of_the_items_in_the_state(items: Seq<PlanItem>, state: PlanState)
    ensures
        count_in_state(items, state) == items.filter(|item: PlanItem| item.state == state).len(),
    decreases items.len(),
{
    reveal(Seq::filter);
    if items.len() > 0 {
        law_count_is_of_the_items_in_the_state(items.drop_last(), state);
    }
}

/// The summary names the plan, its revision, the revision that was approved or
/// that none was, and how many of its items are in each state.
pub proof fn law_summary_tells_where_the_plan_stands(plan: Plan)
    ensures
        plan.summary() == "Plan '"@ + plan.plan_id@ + "' rev "@ + text::decimal(
            plan.revision as nat,
        ) + (match plan.approved_revision {
            Some(revision) => " (approved at rev "@ + text::decimal(revision as nat) + ")"@,
            None => " (NOT APPROVED)"@,
        }) + ": "@ + text::decimal(
            plan.items@.filter(|item: PlanItem| item.state == PlanState::Done).len(),
        ) + "/"@ + text::decimal(plan.items@.len()) + " done, "@ + text::decimal(
            plan.items@.filter(|item: PlanItem| item.state == PlanState::Doing).len(),
        ) + " doing, "@ + text::decimal(
            plan.items@.filter(|item: PlanItem| item.state == PlanState::Blocked).len(),
        ) + " blocked, "@ + text::decimal(
            plan.items@.filter(|item: PlanItem| item.state == PlanState::Todo).len(),
        ) + " todo"@,
{
    law_count_is_of_the_items_in_the_state(plan.items@, PlanState::Done);
    law_count_is_of_the_items_in_the_state(plan.items@, PlanState::Doing);
    law_count_is_of_the_items_in_the_state(plan.items@, PlanState::Blocked);
    law_count_is_of_the_items_in_the_state(plan.items@, PlanState::Todo);
}

/// The message for an item that is wrong names the item by its id, and says
/// what is wrong with its checks where that is the reason.
pub proof fn law_item_message_names_the_item(id: String, error: ChecksError)
    ensures
        text::contains((ItemError::Checks { id, error }).message(), id@),
        text::contains((ItemError::Checks { id, error }).message(), error.message()),
        text::contains((ItemError::NoEvidence { id }).message(), id@),
        text::contains((ItemError::NoNotes { id }).message(), id@),
        text::contains(PlanError::DuplicateId(id).message(), id@),
        (ItemError::NoEvidence { id }).message() != (ItemError::NoNotes { id }).message(),
{
    reveal_strlit("Item '");
    reveal_strlit("' is marked done but has no evidence");
    reveal_strlit("' is marked done but has no notes");
    let a = (ItemError::Checks { id, error }).message();
    let head = "Item '"@;
    text::law_contains_iff_cut(a, id@, head, "': "@ + error.message());
    assert(a =~= head + id@ + ("': "@ + error.message()));
    text::law_contains_iff_cut(a, error.message(), head + id@ + "': "@, Seq::empty());
    assert(a =~= head + id@ + "': "@ + error.message() + Seq::<char>::empty());
    let b = (ItemError::NoEvidence { id }).message();
    text::law_contains_iff_cut(b, id@, head, "' is marked done but has no evidence"@);
    let c = (ItemError::NoNotes { id }).message();
    text::law_contains_iff_cut(c, id@, head, "' is marked done but has no notes"@);
    assert(b.len() != c.len());
    let d = PlanError::DuplicateId(id).message();
    text::law_contains_iff_cut(d, id@, "Duplicate item ID: "@, Seq::empty());
    assert(d =~= "Duplicate item ID: "@ + id@ + Seq::<char>::empty());
}

/// The message for checks that are wrong says what is wrong with the check, and
/// at which position it stands where there can be several. The message for a
/// plan with a wrong item is the one for that item.
pub proof fn law_checks_message_names_the_check(i: usize, e: CheckError, item_error: ItemError)
    ensures
        text::contains(ChecksError::Happy(e).message(), e.message()),
        text::contains(
            ChecksError::Negative(i, e).message(),
            "negative check ["@ + text::decimal(i as nat) + "]: "@ + e.message(),
        ),
        text::contains(
            ChecksError::Boundary(i, e).message(),
            "boundary check ["@ + text::decimal(i as nat) + "]: "@ + e.message(),
        ),
        PlanError::Item(item_error).message() == item_error.message(),
{
    let a = ChecksError::Happy(e).message();
    text::law_contains_iff_cut(a, e.message(), "happy check: "@, Seq::empty());
    assert(a =~= "happy check: "@ + e.message() + Seq::<char>::empty());
    let b = ChecksError::Negative(i, e).message();
    text::law_contains_iff_cut(b, b, Seq::empty(), Seq::empty());
    assert(b =~= Seq::<char>::empty() + b + Seq::<char>::empty());
    let c = ChecksError::Boundary(i, e).message();
    text::law_contains_iff_cut(c, c, Seq::empty(), Seq::empty());
    assert(c =~= Seq::<char>::empty() + c + Seq::<char>::empty());
}

} // verus!
