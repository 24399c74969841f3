//! The vocabulary of the ledger: failure classes, retry policies, event order, task states and the
//! transitions between them.
use vstd::prelude::*;
use crate::text::{self, Text};

verus! {

/// Number of consecutive failures sharing one failure class after which a task is marked for
/// investigation by itself.
pub const ANTI_THRASH_THRESHOLD: i64 = 3;

/// Longest accepted operator text, in bytes.
pub const MAX_OPERATOR_NOTE_LEN: usize = 2_000;

/// The words of the states that a task can be in.
pub const TASK_STATES: [&'static str; 10] = [
    "pending",
    "running",
    "retrying",
    "completed",
    "failed",
    "interrupted",
    "cancelled",
    "paused",
    "frozen",
    "awaiting_input",
];

/// The statuses from which an operator may pause a task.
pub const PAUSABLE_STATUSES: [&'static str; 3] = ["pending", "running", "retrying"];

/// The statuses from which an operator may freeze a task.
pub const FREEZABLE_STATUSES: [&'static str; 6] = [
    "pending",
    "running",
    "retrying",
    "paused",
    "awaiting_input",
    "interrupted",
];

/// The kinds of error that a capability reports.
#[derive(Clone, Copy, Debug, PartialEq, Eq, Structural)]
pub enum ErrorKind {
    Transport,
    PeerUnreachable,
    ResponderOverloaded,
    Timeout,
    ApprovalTimeout,
    PolicyDenied,
    CredentialExpired,
    IdentityInvalid,
    ApprovalDenied,
    InvalidArgs,
    ReplayRejected,
    VersionMismatch,
    UnknownMethod,
    CapabilityDeprecated,
    CapabilityRemoved,
    ManifestStale,
    ResponderInternal,
    Cancelled,
    /// A kind outside this list, by its number.
    Other(u32),
}

/// Lightweight classification of why a flow failed.
#[derive(Clone, Copy, Debug, PartialEq, Eq, Structural)]
pub enum FailureClass {
    /// Network blip, peer momentarily unreachable. Safe to retry.
    Transient,
    /// Logic or contract error. Retry won't help.
    Permanent,
    /// Admission refused. Retry won't help without a change of identity or policy.
    PolicyDenied,
    /// Caller-side input was malformed.
    InvalidArgs,
    /// Deadline exceeded.
    Timeout,
    /// Capability or peer signalled it can't serve right now.
    Unavailable,
}

impl FailureClass {
    /// The word a class is stored as.
    pub open spec fn word(self) -> Text {
        match self {
            FailureClass::Transient => "transient"@,
            FailureClass::Permanent => "permanent"@,
            FailureClass::PolicyDenied => "policy_denied"@,
            FailureClass::InvalidArgs => "invalid_args"@,
            FailureClass::Timeout => "timeout"@,
            FailureClass::Unavailable => "unavailable"@,
        }
    }

    /// The class that a word stands for.
    pub open spec fn of_word(t: Text) -> Option<FailureClass> {
        if t == "transient"@ {
            Some(FailureClass::Transient)
        } else if t == "permanent"@ {
            Some(FailureClass::Permanent)
        } else if t == "policy_denied"@ {
            Some(FailureClass::PolicyDenied)
        } else if t == "invalid_args"@ {
            Some(FailureClass::InvalidArgs)
        } else if t == "timeout"@ {
            Some(FailureClass::Timeout)
        } else if t == "unavailable"@ {
            Some(FailureClass::Unavailable)
        } else {
            None
        }
    }

    /// The class of an error kind.
    pub open spec fn of_kind(kind: ErrorKind) -> FailureClass {
        match kind {
            ErrorKind::Transport | ErrorKind::PeerUnreachable | ErrorKind::ResponderOverloaded => FailureClass::Transient,
            ErrorKind::Timeout | ErrorKind::ApprovalTimeout => FailureClass::Timeout,
            ErrorKind::PolicyDenied
            | ErrorKind::CredentialExpired
            | ErrorKind::IdentityInvalid
            | ErrorKind::ApprovalDenied => FailureClass::PolicyDenied,
            ErrorKind::InvalidArgs | ErrorKind::ReplayRejected | ErrorKind::VersionMismatch => FailureClass::InvalidArgs,
            ErrorKind::UnknownMethod
            | ErrorKind::CapabilityDeprecated
            | ErrorKind::CapabilityRemoved
            | ErrorKind::ManifestStale => FailureClass::Unavailable,
            _ => FailureClass::Permanent,
        }
    }

    pub fn as_str(&self) -> (r: &'static str)
        ensures
            r@ == self.word(),
    {
        match self {
            FailureClass::Transient => "transient",
            FailureClass::Permanent => "permanent",
            FailureClass::PolicyDenied => "policy_denied",
            FailureClass::InvalidArgs => "invalid_args",
            FailureClass::Timeout => "timeout",
            FailureClass::Unavailable => "unavailable",
        }
    }

    pub fn parse(s: &str) -> (r: Option<Self>)
        ensures
            r == Self::of_word(s@),
    {
        if text::same(s, "transient") {
            Some(FailureClass::Transient)
        } else if text::same(s, "permanent") {
            Some(FailureClass::Permanent)
        } else if text::same(s, "policy_denied") {
            Some(FailureClass::PolicyDenied)
        } else if text::same(s, "invalid_args") {
            Some(FailureClass::InvalidArgs)
        } else if text::same(s, "timeout") {
            Some(FailureClass::Timeout)
        } else if text::same(s, "unavailable") {
            Some(FailureClass::Unavailable)
        } else {
            None
        }
    }

    /// The class that an error kind falls under.
    pub fn from_kind(kind: ErrorKind) -> (r: Self)
        ensures
            r == Self::of_kind(kind),
    {
        match kind {
            ErrorKind::Transport | ErrorKind::PeerUnreachable | ErrorKind::ResponderOverloaded => FailureClass::Transient,
            ErrorKind::Timeout | ErrorKind::ApprovalTimeout => FailureClass::Timeout,
            ErrorKind::PolicyDenied
            | ErrorKind::CredentialExpired
            | ErrorKind::IdentityInvalid
            | ErrorKind::ApprovalDenied => FailureClass::PolicyDenied,
            ErrorKind::InvalidArgs | ErrorKind::ReplayRejected | ErrorKind::VersionMismatch => FailureClass::InvalidArgs,
            ErrorKind::UnknownMethod
            | ErrorKind::CapabilityDeprecated
            | ErrorKind::CapabilityRemoved
            | ErrorKind::ManifestStale => FailureClass::Unavailable,
            _ => FailureClass::Permanent,
        }
    }
}

/// The word of a failure class is read back as that class.
pub proof fn law_failure_class_round_trip(c: FailureClass)
    ensures
        FailureClass::of_word(c.word()) == Some(c),
{
    reveal_strlit("transient");
    reveal_strlit("permanent");
    reveal_strlit("policy_denied");
    reveal_strlit("invalid_args");
    reveal_strlit("timeout");
    reveal_strlit("unavailable");
    assert("transient"@.len() == 9);
    assert("permanent"@.len() == 9);
    assert("policy_denied"@.len() == 13);
    assert("invalid_args"@.len() == 12);
    assert("timeout"@.len() == 7);
    assert("unavailable"@.len() == 11);
    assert("transient"@[0] != "permanent"@[0]);
}

/// Retry policy for a task.
#[derive(Clone, Copy, Debug, PartialEq, Eq, Structural)]
pub enum RetryPolicy {
    /// Never retry.
    Never,
    /// One retry permitted.
    Once,
    /// Up to `max_retries` retries permitted.
    Bounded,
}

impl RetryPolicy {
    /// The word a policy is stored as.
    pub open spec fn word(self) -> Text {
        match self {
            RetryPolicy::Never => "none"@,
            RetryPolicy::Once => "once"@,
            RetryPolicy::Bounded => "bounded"@,
        }
    }

    /// The policy that a word stands for; the empty word stands for no retry.
    pub open spec fn of_word(t: Text) -> Option<RetryPolicy> {
        if t == "none"@ || t.len() == 0 {
            Some(RetryPolicy::Never)
        } else if t == "once"@ {
            Some(RetryPolicy::Once)
        } else if t == "bounded"@ {
            Some(RetryPolicy::Bounded)
        } else {
            None
        }
    }

    pub fn as_str(&self) -> (r: &'static str)
        ensures
            r@ == self.word(),
    {
        match self {
            RetryPolicy::Never => "none",
            RetryPolicy::Once => "once",
            RetryPolicy::Bounded => "bounded",
        }
    }

    pub fn parse(s: &str) -> (r: Option<Self>)
        ensures
            r == Self::of_word(s@),
    {
        if text::same(s, "none") || s.is_empty() {
            Some(RetryPolicy::Never)
        } else if text::same(s, "once") {
            Some(RetryPolicy::Once)
        } else if text::same(s, "bounded") {
            Some(RetryPolicy::Bounded)
        } else {
            None
        }
    }
}

/// The word of a retry policy is read back as that policy.
pub proof fn law_retry_policy_round_trip(p: RetryPolicy)
    ensures
        RetryPolicy::of_word(p.word()) == Some(p),
{
    reveal_strlit("none");
    reveal_strlit("once");
    reveal_strlit("bounded");
    assert("none"@.len() == 4);
    assert("once"@.len() == 4);
    assert("bounded"@.len() == 7);
    assert("none"@[0] != "once"@[0]);
}

/// Direction of an event query.
#[derive(Clone, Copy, Debug, PartialEq, Eq, Structural)]
pub enum EventOrder {
    Asc,
    Desc,
}

impl EventOrder {
    /// The word a direction is written as.
    pub open spec fn word(self) -> Text {
        match self {
            EventOrder::Asc => "asc"@,
            EventOrder::Desc => "desc"@,
        }
    }

    /// The direction that a word stands for; the empty word stands for ascending.
    pub open spec fn of_word(t: Text) -> Option<EventOrder> {
        if t == "asc"@ || t.len() == 0 {
            Some(EventOrder::Asc)
        } else if t == "desc"@ {
            Some(EventOrder::Desc)
        } else {
            None
        }
    }

    pub fn as_str(&self) -> (r: &'static str)
        ensures
            r@ == self.word(),
    {
        match self {
            EventOrder::Asc => "asc",
            EventOrder::Desc => "desc",
        }
    }

    pub fn parse(s: &str) -> (r: Option<Self>)
        ensures
            r == Self::of_word(s@),
    {
        if text::same(s, "asc") || s.is_empty() {
            Some(EventOrder::Asc)
        } else if text::same(s, "desc") {
            Some(EventOrder::Desc)
        } else {
            None
        }
    }
}

/// The word of an event order is read back as that order.
pub proof fn law_event_order_round_trip(o: EventOrder)
    ensures
        EventOrder::of_word(o.word()) == Some(o),
{
    reveal_strlit("asc");
    reveal_strlit("desc");
    assert("asc"@.len() == 3);
    assert("desc"@.len() == 4);
}

/// Outcome of a retry request.
#[derive(Clone, Debug, PartialEq, Eq)]
pub enum RetryDecision {
    /// Retry allowed and applied.
    Accepted { new_retry_count: i64, budget: i64 },
    /// Retry budget already used up.
    Exhausted { retry_count: i64, budget: i64 },
    /// Retry refused for another reason.
    Rejected { reason: String },
}

/// The mathematical model of [`RetryDecision`].
pub enum RetryVerdict {
    Accepted { new_retry_count: int, budget: int },
    Exhausted { retry_count: int, budget: int },
    Rejected { reason: Text },
}

impl View for RetryDecision {
    type V = RetryVerdict;

    open spec fn view(&self) -> RetryVerdict {
        match *self {
            RetryDecision::Accepted { new_retry_count, budget } => RetryVerdict::Accepted {
                new_retry_count: new_retry_count as int,
                budget: budget as int,
            },
            RetryDecision::Exhausted { retry_count, budget } => RetryVerdict::Exhausted {
                retry_count: retry_count as int,
                budget: budget as int,
            },
            RetryDecision::Rejected { reason } => RetryVerdict::Rejected { reason: reason@ },
        }
    }
}

/// Configuration of the coordinator node.
#[derive(Clone, Debug)]
pub struct CoordinatorConfig {
    /// Path of the database file.
    pub db_path: String,
    /// Most rows that one listing returns, whatever the caller asks for.
    pub max_list: usize,
    /// Whether the interruption-recovery scan runs once at startup.
    pub recovery_scan: bool,
}

pub fn default_max_list() -> (r: usize)
    ensures
        r == 200,
{
    200
}

pub fn default_recovery_scan() -> (r: bool)
    ensures
        r,
{
    true
}

impl Default for CoordinatorConfig {
    fn default() -> (r: Self)
        ensures
            r.db_path@.len() == 0,
            r.max_list == 200,
            r.recovery_scan,
    {
        CoordinatorConfig {
            db_path: String::new(),
            max_list: default_max_list(),
            recovery_scan: default_recovery_scan(),
        }
    }
}

/// The states of the canonical task state machine.
#[derive(Clone, Copy, Debug, PartialEq, Eq, Structural)]
pub enum TaskState {
    Pending,
    Running,
    Retrying,
    Completed,
    Failed,
    Interrupted,
    Cancelled,
    Paused,
    Frozen,
    AwaitingInput,
}

impl TaskState {
    /// The word a state is stored as.
    pub open spec fn word(self) -> Text {
        match self {
            TaskState::Pending => "pending"@,
            TaskState::Running => "running"@,
            TaskState::Retrying => "retrying"@,
            TaskState::Completed => "completed"@,
            TaskState::Failed => "failed"@,
            TaskState::Interrupted => "interrupted"@,
            TaskState::Cancelled => "cancelled"@,
            TaskState::Paused => "paused"@,
            TaskState::Frozen => "frozen"@,
            TaskState::AwaitingInput => "awaiting_input"@,
        }
    }

    /// The state that a status word stands for; a caller-defined status stands for none.
    pub open spec fn of_word(t: Text) -> Option<TaskState> {
        if t == "pending"@ {
            Some(TaskState::Pending)
        } else if t == "running"@ {
            Some(TaskState::Running)
        } else if t == "retrying"@ {
            Some(TaskState::Retrying)
        } else if t == "completed"@ {
            Some(TaskState::Completed)
        } else if t == "failed"@ {
            Some(TaskState::Failed)
        } else if t == "interrupted"@ {
            Some(TaskState::Interrupted)
        } else if t == "cancelled"@ {
            Some(TaskState::Cancelled)
        } else if t == "paused"@ {
            Some(TaskState::Paused)
        } else if t == "frozen"@ {
            Some(TaskState::Frozen)
        } else if t == "awaiting_input"@ {
            Some(TaskState::AwaitingInput)
        } else {
            None
        }
    }

    /// The state that a status word stands for.
    pub fn parse(s: &str) -> (r: Option<TaskState>)
        ensures
            r == Self::of_word(s@),
    {
        if text::same(s, "pending") {
            Some(TaskState::Pending)
        } else if text::same(s, "running") {
            Some(TaskState::Running)
        } else if text::same(s, "retrying") {
            Some(TaskState::Retrying)
        } else if text::same(s, "completed") {
            Some(TaskState::Completed)
        } else if text::same(s, "failed") {
            Some(TaskState::Failed)
        } else if text::same(s, "interrupted") {
            Some(TaskState::Interrupted)
        } else if text::same(s, "cancelled") {
            Some(TaskState::Cancelled)
        } else if text::same(s, "paused") {
            Some(TaskState::Paused)
        } else if text::same(s, "frozen") {
            Some(TaskState::Frozen)
        } else if text::same(s, "awaiting_input") {
            Some(TaskState::AwaitingInput)
        } else {
            None
        }
    }

    /// The moves of the state machine.
    pub open spec fn may_become(self, to: TaskState) -> bool {
        match self {
            TaskState::Pending => to is Running || to is Cancelled || to is Paused || to is Frozen,
            TaskState::Running => to is Completed || to is Failed || to is Interrupted || to is Cancelled || to is Paused
                || to is Frozen || to is AwaitingInput || to is Retrying,
            TaskState::Retrying => to is Running || to is Failed || to is Cancelled || to is Paused || to is Frozen,
            TaskState::Failed => to is Retrying,
            TaskState::Interrupted => to is Retrying || to is Cancelled || to is Paused || to is Frozen,
            TaskState::Paused => to is Pending || to is Frozen || to is Cancelled,
            TaskState::Frozen => to is Pending || to is Cancelled,
            TaskState::AwaitingInput => to is Running || to is Cancelled || to is Frozen,
            TaskState::Completed | TaskState::Cancelled => false,
        }
    }
}

/// The word of a task state is read back as that state.
pub proof fn lemma_state_words(s: TaskState)
    ensures
        TaskState::of_word(s.word()) == Some(s),
{
    reveal_strlit("pending");
    reveal_strlit("running");
    reveal_strlit("retrying");
    reveal_strlit("completed");
    reveal_strlit("failed");
    reveal_strlit("interrupted");
    reveal_strlit("cancelled");
    reveal_strlit("paused");
    reveal_strlit("frozen");
    reveal_strlit("awaiting_input");
    assert("pending"@.len() == 7);
    assert("running"@.len() == 7);
    assert("retrying"@.len() == 8);
    assert("completed"@.len() == 9);
    assert("failed"@.len() == 6);
    assert("interrupted"@.len() == 11);
    assert("cancelled"@.len() == 9);
    assert("paused"@.len() == 6);
    assert("frozen"@.len() == 6);
    assert("awaiting_input"@.len() == 14);
    assert("pending"@[0] != "running"@[0]);
    assert("completed"@[1] != "cancelled"@[1]);
    assert("failed"@[0] != "paused"@[0]);
    assert("failed"@[1] != "frozen"@[1]);
    assert("paused"@[0] != "frozen"@[0]);
}

/// Whether a task may go from one status to another: unchanged and caller-defined statuses pass,
/// the others follow the moves of the state machine.
pub open spec fn allowed_transition(from: Text, to: Text) -> bool {
    ||| from == to
    ||| TaskState::of_word(from) is None
    ||| TaskState::of_word(to) is None
    ||| TaskState::of_word(from)->0.may_become(TaskState::of_word(to)->0)
}

/// Whether `from` to `to` is a permitted transition of the canonical state machine.
pub fn is_allowed_transition(from: &str, to: &str) -> (r: bool)
    ensures
        r == allowed_transition(from@, to@),
{
    if text::same(from, to) {
        return true;
    }
    match (TaskState::parse(from), TaskState::parse(to)) {
        (Some(a), Some(b)) => match a {
            TaskState::Pending => matches!(b, TaskState::Running | TaskState::Cancelled | TaskState::Paused | TaskState::Frozen),
            TaskState::Running => matches!(
                b,
                TaskState::Completed
                    | TaskState::Failed
                    | TaskState::Interrupted
                    | TaskState::Cancelled
                    | TaskState::Paused
                    | TaskState::Frozen
                    | TaskState::AwaitingInput
                    | TaskState::Retrying
            ),
            TaskState::Retrying => matches!(
                b,
                TaskState::Running
                    | TaskState::Failed
                    | TaskState::Cancelled
                    | TaskState::Paused
                    | TaskState::Frozen
            ),
            TaskState::Failed => matches!(b, TaskState::Retrying),
            TaskState::Interrupted => matches!(
                b,
                TaskState::Retrying | TaskState::Cancelled | TaskState::Paused | TaskState::Frozen
            ),
            TaskState::Paused => matches!(b, TaskState::Pending | TaskState::Frozen | TaskState::Cancelled),
            TaskState::Frozen => matches!(b, TaskState::Pending | TaskState::Cancelled),
            TaskState::AwaitingInput => matches!(b, TaskState::Running | TaskState::Cancelled | TaskState::Frozen),
            TaskState::Completed => false,
            TaskState::Cancelled => false,
        },
        _ => true,
    }
}

/// No known status can be reached from a completed or a cancelled task but its own.
pub proof fn law_terminal_states_are_final(to: TaskState)
    ensures
        allowed_transition("completed"@, to.word()) ==> to is Completed,
        allowed_transition("cancelled"@, to.word()) ==> to is Cancelled,
{
    lemma_state_words(to);
    lemma_state_words(TaskState::Completed);
    lemma_state_words(TaskState::Cancelled);
}

/// A status that is not in the vocabulary may be entered and left freely.
pub proof fn law_unknown_status_is_allowed(from: Text, to: Text)
    requires
        TaskState::of_word(from) is None || TaskState::of_word(to) is None,
    ensures
        allowed_transition(from, to),
{
}

/// Keeping a status is always allowed.
pub proof fn law_same_status_is_allowed(status: Text)
    ensures
        allowed_transition(status, status),
{
}

/// Statuses from which an operator may pause a task.
pub open spec fn pausable(status: Text) -> bool {
    status == "pending"@ || status == "running"@ || status == "retrying"@
}

/// Statuses from which an operator may freeze a task.
pub open spec fn freezable(status: Text) -> bool {
    status == "pending"@ || status == "running"@ || status == "retrying"@ || status == "paused"@ || status
        == "awaiting_input"@ || status == "interrupted"@
}

/// Statuses in which a task has ended, for good or until it is retried.
pub open spec fn terminal(status: Text) -> bool {
    status == "completed"@ || status == "failed"@ || status == "cancelled"@ || status == "interrupted"@
}

pub fn is_pausable(status: &str) -> (r: bool)
    ensures
        r == pausable(status@),
{
    text::same(status, "pending") || text::same(status, "running") || text::same(status, "retrying")
}

pub fn is_freezable(status: &str) -> (r: bool)
    ensures
        r == freezable(status@),
{
    text::same(status, "pending") || text::same(status, "running") || text::same(status, "retrying") || text::same(
        status,
        "paused",
    ) || text::same(status, "awaiting_input") || text::same(status, "interrupted")
}

pub fn is_terminal(status: &str) -> (r: bool)
    ensures
        r == terminal(status@),
{
    text::same(status, "completed") || text::same(status, "failed") || text::same(status, "cancelled") || text::same(
        status,
        "interrupted",
    )
}

/// The listed words are just those that stand for a state.
pub proof fn law_task_states(t: Text)
    ensures
        TaskState::of_word(t) is Some <==> exists|i: int| 0 <= i < 10 && (#[trigger] TASK_STATES@[i])@ == t,
{
    let words = TASK_STATES@;
    assert(words[0]@ == "pending"@);
    assert(words[1]@ == "running"@);
    assert(words[2]@ == "retrying"@);
    assert(words[3]@ == "completed"@);
    assert(words[4]@ == "failed"@);
    assert(words[5]@ == "interrupted"@);
    assert(words[6]@ == "cancelled"@);
    assert(words[7]@ == "paused"@);
    assert(words[8]@ == "frozen"@);
    assert(words[9]@ == "awaiting_input"@);
}

/// The listed statuses are just those from which a task can be paused or frozen, and no task that has
/// completed, failed or been cancelled can be either.
pub proof fn law_interruptible_statuses(t: Text)
    ensures
        pausable(t) <==> exists|i: int| 0 <= i < 3 && (#[trigger] PAUSABLE_STATUSES@[i])@ == t,
        freezable(t) <==> exists|i: int| 0 <= i < 6 && (#[trigger] FREEZABLE_STATUSES@[i])@ == t,
        pausable(t) ==> freezable(t),
        t == "completed"@ || t == "failed"@ || t == "cancelled"@ || t == "frozen"@ ==> !freezable(t),
{
    let p = PAUSABLE_STATUSES@;
    assert(p[0]@ == "pending"@ && p[1]@ == "running"@ && p[2]@ == "retrying"@);
    let f = FREEZABLE_STATUSES@;
    assert(f[0]@ == "pending"@ && f[1]@ == "running"@ && f[2]@ == "retrying"@);
    assert(f[3]@ == "paused"@ && f[4]@ == "awaiting_input"@ && f[5]@ == "interrupted"@);
    lemma_state_words(TaskState::Completed);
    lemma_state_words(TaskState::Failed);
    lemma_state_words(TaskState::Cancelled);
    lemma_state_words(TaskState::Frozen);
    lemma_state_words(TaskState::Pending);
    lemma_state_words(TaskState::Running);
    lemma_state_words(TaskState::Retrying);
    lemma_state_words(TaskState::Paused);
    lemma_state_words(TaskState::AwaitingInput);
    lemma_state_words(TaskState::Interrupted);
}

/// Which states lead to a state, by the state that they lead to.
pub proof fn law_moves_by_their_end(from: TaskState, to: TaskState)
    requires
        from != to,
    ensures
        ({
            let moves = allowed_transition(from.word(), to.word());
            &&& to is Pending ==> (moves <==> from is Paused || from is Frozen)
            &&& to is Running ==> (moves <==> from is Pending || from is Retrying || from is AwaitingInput)
            &&& to is Retrying ==> (moves <==> from is Running || from is Failed || from is Interrupted)
            &&& to is Completed ==> (moves <==> from is Running)
            &&& to is Failed ==> (moves <==> from is Running || from is Retrying)
            &&& to is Interrupted ==> (moves <==> from is Running)
            &&& to is AwaitingInput ==> (moves <==> from is Running)
            &&& to is Cancelled ==> (moves <==> !(from is Completed || from is Failed))
            &&& to is Paused ==> (moves <==> from is Pending || from is Running || from is Retrying || from is Interrupted)
            &&& to is Frozen ==> (moves <==> from is Pending || from is Running || from is Retrying || from is Interrupted
                || from is Paused || from is AwaitingInput)
        }),
{
    lemma_state_words(from);
    lemma_state_words(to);
}

/// What a kind of error says of the failure: what the network or an overloaded peer did may pass, what took
/// too long is a timeout, what was not permitted is a denial, what was malformed is the caller's, what the
/// peer does not offer is unavailable, and everything else is permanent.
pub proof fn law_errors_are_classed(kind: ErrorKind)
    ensures
        FailureClass::of_kind(kind) is Transient <==> kind is Transport || kind is PeerUnreachable
            || kind is ResponderOverloaded,
        FailureClass::of_kind(kind) is Timeout <==> kind is Timeout || kind is ApprovalTimeout,
        FailureClass::of_kind(kind) is PolicyDenied <==> kind is PolicyDenied || kind is CredentialExpired
            || kind is IdentityInvalid || kind is ApprovalDenied,
        FailureClass::of_kind(kind) is InvalidArgs <==> kind is InvalidArgs || kind is ReplayRejected
            || kind is VersionMismatch,
        FailureClass::of_kind(kind) is Unavailable <==> kind is UnknownMethod || kind is CapabilityDeprecated
            || kind is CapabilityRemoved || kind is ManifestStale,
        FailureClass::of_kind(kind) is Permanent <==> kind is ResponderInternal || kind is Cancelled || kind is Other,
{
}

} // verus!
