//! The rows of the ledger and the shapes in which they are handed out, each with its mathematical
//! model.
use vstd::prelude::*;
use crate::text::{self, Text};

verus! {

/// The models of a list of values.
pub open spec fn views<T: View>(s: Seq<T>) -> Seq<T::V> {
    s.map_values(|t: T| t@)
}

/// Coordinator-node errors.
#[derive(Debug)]
pub enum CoordinatorError {
    /// File-system failure preparing the database path.
    Io(String),
    /// Database failure.
    Db(String),
    /// Lock poisoned.
    Lock,
    /// Task id has no matching row.
    NotFound(String),
    /// Input failed a validation of the ledger.
    Invalid(String),
}

/// The mathematical model of [`CoordinatorError`].
pub enum Fault {
    Io(Text),
    Db(Text),
    Lock,
    NotFound(Text),
    Invalid(Text),
}

impl View for CoordinatorError {
    type V = Fault;

    open spec fn view(&self) -> Fault {
        match *self {
            CoordinatorError::Io(m) => Fault::Io(m@),
            CoordinatorError::Db(m) => Fault::Db(m@),
            CoordinatorError::Lock => Fault::Lock,
            CoordinatorError::NotFound(m) => Fault::NotFound(m@),
            CoordinatorError::Invalid(m) => Fault::Invalid(m@),
        }
    }
}

impl Fault {
    /// The message shown for an error.
    pub open spec fn message(self) -> Text {
        match self {
            Fault::Io(m) => "io: "@ + m,
            Fault::Db(m) => "db: "@ + m,
            Fault::Lock => "lock poisoned"@,
            Fault::NotFound(m) => "task not found: "@ + m,
            Fault::Invalid(m) => "invalid: "@ + m,
        }
    }
}

impl CoordinatorError {
    /// The message shown for the error.
    pub fn message(&self) -> (r: String)
        ensures
            r@ == self@.message(),
    {
        match self {
            CoordinatorError::Io(m) => text::owned("io: ").concat(m.as_str()),
            CoordinatorError::Db(m) => text::owned("db: ").concat(m.as_str()),
            CoordinatorError::Lock => text::owned("lock poisoned"),
            CoordinatorError::NotFound(m) => text::owned("task not found: ").concat(m.as_str()),
            CoordinatorError::Invalid(m) => text::owned("invalid: ").concat(m.as_str()),
        }
    }
}

/// The model of what an operation of the ledger returns.
pub open spec fn seen<T: View>(r: Result<T, CoordinatorError>) -> Result<T::V, Fault> {
    match r {
        Ok(v) => Ok(v@),
        Err(e) => Err(e@),
    }
}

/// The model of what a listing of the ledger returns.
pub open spec fn seen_rows<T: View>(r: Result<Vec<T>, CoordinatorError>) -> Result<Seq<T::V>, Fault> {
    match r {
        Ok(v) => Ok(views(v@)),
        Err(e) => Err(e@),
    }
}

/// The columns of one task that are shown to callers.
#[derive(Debug, Clone, PartialEq, Eq)]
pub struct TaskHead {
    pub task_id: String,
    pub title: String,
    pub status: String,
    pub owner_subject_id: String,
    pub flow_template: String,
    pub params_json: String,
    pub latest_result: Option<String>,
    pub latest_flow_id: Option<String>,
    pub latest_flow_log_path: Option<String>,
    pub error_kind: Option<i64>,
    pub error_cause: Option<String>,
    pub created_at: i64,
    pub updated_at: i64,
    pub retry_count: i64,
    pub retry_policy: String,
    pub max_retries: i64,
    pub max_runtime_secs: Option<i64>,
    pub last_failure_reason: Option<String>,
    pub last_failure_class: Option<String>,
    /// First time the task ran.
    pub started_at: Option<i64>,
    /// Number of attempts opened so far.
    pub attempt_count: i64,
    /// The latest attempt, where one was opened.
    pub current_attempt_id: Option<i64>,
    pub investigation_marked_at: Option<i64>,
    pub investigation_reason: Option<String>,
    /// Counts pause and resume requests.
    pub pause_generation: i64,
    /// Counts freeze and unfreeze requests.
    pub freeze_generation: i64,
    pub frozen_at: Option<i64>,
    pub frozen_reason: Option<String>,
    pub origin_surface: Option<String>,
}

/// The mathematical model of [`TaskHead`].
pub struct TaskHeader {
    pub task_id: Text,
    pub title: Text,
    pub status: Text,
    pub owner_subject_id: Text,
    pub flow_template: Text,
    pub params_json: Text,
    pub latest_result: Option<Text>,
    pub latest_flow_id: Option<Text>,
    pub latest_flow_log_path: Option<Text>,
    pub error_kind: Option<i64>,
    pub error_cause: Option<Text>,
    pub created_at: i64,
    pub updated_at: i64,
    pub retry_count: i64,
    pub retry_policy: Text,
    pub max_retries: i64,
    pub max_runtime_secs: Option<i64>,
    pub last_failure_reason: Option<Text>,
    pub last_failure_class: Option<Text>,
    pub started_at: Option<i64>,
    pub attempt_count: i64,
    pub current_attempt_id: Option<i64>,
    pub investigation_marked_at: Option<i64>,
    pub investigation_reason: Option<Text>,
    pub pause_generation: i64,
    pub freeze_generation: i64,
    pub frozen_at: Option<i64>,
    pub frozen_reason: Option<Text>,
    pub origin_surface: Option<Text>,
}

impl View for TaskHead {
    type V = TaskHeader;

    open spec fn view(&self) -> TaskHeader {
        TaskHeader {
            task_id: self.task_id@,
            title: self.title@,
            status: self.status@,
            owner_subject_id: self.owner_subject_id@,
            flow_template: self.flow_template@,
            params_json: self.params_json@,
            latest_result: text::opt_text(self.latest_result),
            latest_flow_id: text::opt_text(self.latest_flow_id),
            latest_flow_log_path: text::opt_text(self.latest_flow_log_path),
            error_kind: self.error_kind,
            error_cause: text::opt_text(self.error_cause),
            created_at: self.created_at,
            updated_at: self.updated_at,
            retry_count: self.retry_count,
            retry_policy: self.retry_policy@,
            max_retries: self.max_retries,
            max_runtime_secs: self.max_runtime_secs,
            last_failure_reason: text::opt_text(self.last_failure_reason),
            last_failure_class: text::opt_text(self.last_failure_class),
            started_at: self.started_at,
            attempt_count: self.attempt_count,
            current_attempt_id: self.current_attempt_id,
            investigation_marked_at: self.investigation_marked_at,
            investigation_reason: text::opt_text(self.investigation_reason),
            pause_generation: self.pause_generation,
            freeze_generation: self.freeze_generation,
            frozen_at: self.frozen_at,
            frozen_reason: text::opt_text(self.frozen_reason),
            origin_surface: text::opt_text(self.origin_surface),
        }
    }
}

impl TaskHead {
    /// A copy with the same contents.
    pub fn dup(&self) -> (r: Self)
        ensures
            r@ == self@,
    {
        TaskHead {
            task_id: self.task_id.clone(),
            title: self.title.clone(),
            status: self.status.clone(),
            owner_subject_id: self.owner_subject_id.clone(),
            flow_template: self.flow_template.clone(),
            params_json: self.params_json.clone(),
            latest_result: text::copy_opt(&self.latest_result),
            latest_flow_id: text::copy_opt(&self.latest_flow_id),
            latest_flow_log_path: text::copy_opt(&self.latest_flow_log_path),
            error_kind: self.error_kind,
            error_cause: text::copy_opt(&self.error_cause),
            created_at: self.created_at,
            updated_at: self.updated_at,
            retry_count: self.retry_count,
            retry_policy: self.retry_policy.clone(),
            max_retries: self.max_retries,
            max_runtime_secs: self.max_runtime_secs,
            last_failure_reason: text::copy_opt(&self.last_failure_reason),
            last_failure_class: text::copy_opt(&self.last_failure_class),
            started_at: self.started_at,
            attempt_count: self.attempt_count,
            current_attempt_id: self.current_attempt_id,
            investigation_marked_at: self.investigation_marked_at,
            investigation_reason: text::copy_opt(&self.investigation_reason),
            pause_generation: self.pause_generation,
            freeze_generation: self.freeze_generation,
            frozen_at: self.frozen_at,
            frozen_reason: text::copy_opt(&self.frozen_reason),
            origin_surface: text::copy_opt(&self.origin_surface),
        }
    }
}

/// One row of the task table.
#[derive(Debug, Clone, PartialEq, Eq)]
pub struct TaskRow {
    pub head: TaskHead,
    /// How many failures in a row had the class that the last one had.
    pub consecutive_same_class_count: i64,
}

/// The mathematical model of [`TaskRow`].
pub struct TaskRec {
    pub head: TaskHeader,
    pub consecutive_same_class_count: i64,
}

impl View for TaskRow {
    type V = TaskRec;

    open spec fn view(&self) -> TaskRec {
        TaskRec { head: self.head@, consecutive_same_class_count: self.consecutive_same_class_count }
    }
}

impl TaskRow {
    /// A copy with the same contents.
    pub fn dup(&self) -> (r: Self)
        ensures
            r@ == self@,
    {
        TaskRow { head: self.head.dup(), consecutive_same_class_count: self.consecutive_same_class_count }
    }
}

/// One event of a task's chronicle.
#[derive(Debug, Clone, PartialEq, Eq)]
pub struct TaskEvent {
    pub event_id: i64,
    pub ts: i64,
    pub event_type: String,
    pub payload: String,
    /// 0 for free-form events, 1 for structured ones.
    pub schema_version: i64,
    pub attempt_id: Option<i64>,
    pub trace_id: Option<String>,
    pub payload_json: Option<String>,
}

/// The mathematical model of [`TaskEvent`].
pub struct EventRec {
    pub event_id: i64,
    pub ts: i64,
    pub event_type: Text,
    pub payload: Text,
    pub schema_version: i64,
    pub attempt_id: Option<i64>,
    pub trace_id: Option<Text>,
    pub payload_json: Option<Text>,
}

impl View for TaskEvent {
    type V = EventRec;

    open spec fn view(&self) -> EventRec {
        EventRec {
            event_id: self.event_id,
            ts: self.ts,
            event_type: self.event_type@,
            payload: self.payload@,
            schema_version: self.schema_version,
            attempt_id: self.attempt_id,
            trace_id: text::opt_text(self.trace_id),
            payload_json: text::opt_text(self.payload_json),
        }
    }
}

impl TaskEvent {
    /// A copy with the same contents.
    pub fn dup(&self) -> (r: Self)
        ensures
            r@ == self@,
    {
        TaskEvent {
            event_id: self.event_id,
            ts: self.ts,
            event_type: self.event_type.clone(),
            payload: self.payload.clone(),
            schema_version: self.schema_version,
            attempt_id: self.attempt_id,
            trace_id: text::copy_opt(&self.trace_id),
            payload_json: text::copy_opt(&self.payload_json),
        }
    }
}

/// One row of the event table: an event and the task it belongs to.
#[derive(Debug, Clone, PartialEq, Eq)]
pub struct EventRow {
    pub task_id: String,
    pub event: TaskEvent,
}

/// The mathematical model of [`EventRow`].
pub struct OwnedEvent {
    pub task_id: Text,
    pub event: EventRec,
}

impl View for EventRow {
    type V = OwnedEvent;

    open spec fn view(&self) -> OwnedEvent {
        OwnedEvent { task_id: self.task_id@, event: self.event@ }
    }
}

impl EventRow {
    /// A copy with the same contents.
    pub fn dup(&self) -> (r: Self)
        ensures
            r@ == self@,
    {
        EventRow { task_id: self.task_id.clone(), event: self.event.dup() }
    }
}

/// One execution attempt of a task.
#[derive(Debug, Clone, PartialEq, Eq)]
pub struct AttemptView {
    pub attempt_id: i64,
    /// Counts from one within a task.
    pub attempt_num: i64,
    pub started_at: i64,
    /// `None` while the attempt is in flight.
    pub finished_at: Option<i64>,
    pub status: String,
    pub flow_id: Option<String>,
    pub flow_log_path: Option<String>,
    pub trace_id: Option<String>,
    pub error_kind: Option<i64>,
    pub error_cause: Option<String>,
    pub failure_class: Option<String>,
}

/// The mathematical model of [`AttemptView`].
pub struct AttemptRec {
    pub attempt_id: i64,
    pub attempt_num: i64,
    pub started_at: i64,
    pub finished_at: Option<i64>,
    pub status: Text,
    pub flow_id: Option<Text>,
    pub flow_log_path: Option<Text>,
    pub trace_id: Option<Text>,
    pub error_kind: Option<i64>,
    pub error_cause: Option<Text>,
    pub failure_class: Option<Text>,
}

impl View for AttemptView {
    type V = AttemptRec;

    open spec fn view(&self) -> AttemptRec {
        AttemptRec {
            attempt_id: self.attempt_id,
            attempt_num: self.attempt_num,
            started_at: self.started_at,
            finished_at: self.finished_at,
            status: self.status@,
            flow_id: text::opt_text(self.flow_id),
            flow_log_path: text::opt_text(self.flow_log_path),
            trace_id: text::opt_text(self.trace_id),
            error_kind: self.error_kind,
            error_cause: text::opt_text(self.error_cause),
            failure_class: text::opt_text(self.failure_class),
        }
    }
}

impl AttemptView {
    /// A copy with the same contents.
    pub fn dup(&self) -> (r: Self)
        ensures
            r@ == self@,
    {
        AttemptView {
            attempt_id: self.attempt_id,
            attempt_num: self.attempt_num,
            started_at: self.started_at,
            finished_at: self.finished_at,
            status: self.status.clone(),
            flow_id: text::copy_opt(&self.flow_id),
            flow_log_path: text::copy_opt(&self.flow_log_path),
            trace_id: text::copy_opt(&self.trace_id),
            error_kind: self.error_kind,
            error_cause: text::copy_opt(&self.error_cause),
            failure_class: text::copy_opt(&self.failure_class),
        }
    }
}

/// One row of the attempt table: an attempt and the task it belongs to.
#[derive(Debug, Clone, PartialEq, Eq)]
pub struct AttemptRow {
    pub task_id: String,
    pub attempt: AttemptView,
}

/// The mathematical model of [`AttemptRow`].
pub struct OwnedAttempt {
    pub task_id: Text,
    pub attempt: AttemptRec,
}

impl View for AttemptRow {
    type V = OwnedAttempt;

    open spec fn view(&self) -> OwnedAttempt {
        OwnedAttempt { task_id: self.task_id@, attempt: self.attempt@ }
    }
}

impl AttemptRow {
    /// A copy with the same contents.
    pub fn dup(&self) -> (r: Self)
        ensures
            r@ == self@,
    {
        AttemptRow { task_id: self.task_id.clone(), attempt: self.attempt.dup() }
    }
}

/// An execution edge between attempts or tasks.
#[derive(Debug, Clone, PartialEq, Eq)]
pub struct TaskEdge {
    pub edge_id: i64,
    pub task_id: String,
    pub attempt_id: Option<i64>,
    pub edge_type: String,
    pub related_task_id: Option<String>,
    pub related_attempt_id: Option<i64>,
    pub spawned_by_event_id: Option<i64>,
    pub created_at: i64,
}

/// The mathematical model of [`TaskEdge`].
pub struct EdgeRec {
    pub edge_id: i64,
    pub task_id: Text,
    pub attempt_id: Option<i64>,
    pub edge_type: Text,
    pub related_task_id: Option<Text>,
    pub related_attempt_id: Option<i64>,
    pub spawned_by_event_id: Option<i64>,
    pub created_at: i64,
}

impl View for TaskEdge {
    type V = EdgeRec;

    open spec fn view(&self) -> EdgeRec {
        EdgeRec {
            edge_id: self.edge_id,
            task_id: self.task_id@,
            attempt_id: self.attempt_id,
            edge_type: self.edge_type@,
            related_task_id: text::opt_text(self.related_task_id),
            related_attempt_id: self.related_attempt_id,
            spawned_by_event_id: self.spawned_by_event_id,
            created_at: self.created_at,
        }
    }
}

impl TaskEdge {
    /// A copy with the same contents.
    pub fn dup(&self) -> (r: Self)
        ensures
            r@ == self@,
    {
        TaskEdge {
            edge_id: self.edge_id,
            task_id: self.task_id.clone(),
            attempt_id: self.attempt_id,
            edge_type: self.edge_type.clone(),
            related_task_id: text::copy_opt(&self.related_task_id),
            related_attempt_id: self.related_attempt_id,
            spawned_by_event_id: self.spawned_by_event_id,
            created_at: self.created_at,
        }
    }
}

/// One item of a task's todo list.
#[derive(Debug, Clone, PartialEq, Eq)]
pub struct TodoItem {
    pub todo_id: i64,
    pub position: i64,
    pub status: String,
    pub text: String,
    pub created_at: i64,
    pub updated_at: i64,
}

/// The mathematical model of [`TodoItem`].
pub struct TodoRec {
    pub todo_id: i64,
    pub position: i64,
    pub status: Text,
    pub text: Text,
    pub created_at: i64,
    pub updated_at: i64,
}

impl View for TodoItem {
    type V = TodoRec;

    open spec fn view(&self) -> TodoRec {
        TodoRec {
            todo_id: self.todo_id,
            position: self.position,
            status: self.status@,
            text: self.text@,
            created_at: self.created_at,
            updated_at: self.updated_at,
        }
    }
}

impl TodoItem {
    /// A copy with the same contents.
    pub fn dup(&self) -> (r: Self)
        ensures
            r@ == self@,
    {
        TodoItem {
            todo_id: self.todo_id,
            position: self.position,
            status: self.status.clone(),
            text: self.text.clone(),
            created_at: self.created_at,
            updated_at: self.updated_at,
        }
    }
}

/// One row of the todo table: an item and the task it belongs to.
#[derive(Debug, Clone, PartialEq, Eq)]
pub struct TodoRow {
    pub task_id: String,
    pub item: TodoItem,
}

/// The mathematical model of [`TodoRow`].
pub struct OwnedTodo {
    pub task_id: Text,
    pub item: TodoRec,
}

impl View for TodoRow {
    type V = OwnedTodo;

    open spec fn view(&self) -> OwnedTodo {
        OwnedTodo { task_id: self.task_id@, item: self.item@ }
    }
}

impl TodoRow {
    /// A copy with the same contents.
    pub fn dup(&self) -> (r: Self)
        ensures
            r@ == self@,
    {
        TodoRow { task_id: self.task_id.clone(), item: self.item.dup() }
    }
}

/// Compact form of a task, for listings.
#[derive(Debug, Clone)]
pub struct TaskSummary {
    pub task_id: String,
    pub title: String,
    pub status: String,
    pub updated_at: i64,
    pub investigation_marked_at: Option<i64>,
}

/// The mathematical model of [`TaskSummary`].
pub struct SummaryRec {
    pub task_id: Text,
    pub title: Text,
    pub status: Text,
    pub updated_at: i64,
    pub investigation_marked_at: Option<i64>,
}

impl View for TaskSummary {
    type V = SummaryRec;

    open spec fn view(&self) -> SummaryRec {
        SummaryRec {
            task_id: self.task_id@,
            title: self.title@,
            status: self.status@,
            updated_at: self.updated_at,
            investigation_marked_at: self.investigation_marked_at,
        }
    }
}

impl TaskSummary {
    /// A copy with the same contents.
    pub fn dup(&self) -> (r: Self)
        ensures
            r@ == self@,
    {
        TaskSummary {
            task_id: self.task_id.clone(),
            title: self.title.clone(),
            status: self.status.clone(),
            updated_at: self.updated_at,
            investigation_marked_at: self.investigation_marked_at,
        }
    }
}

/// Where a page of a listing ended: the last row's time and id.
#[derive(Clone, Debug, PartialEq, Eq)]
pub struct TaskCursor {
    pub updated_at: i64,
    pub task_id: String,
}

/// The mathematical model of [`TaskCursor`].
pub struct CursorRec {
    pub updated_at: i64,
    pub task_id: Text,
}

impl View for TaskCursor {
    type V = CursorRec;

    open spec fn view(&self) -> CursorRec {
        CursorRec {
            updated_at: self.updated_at,
            task_id: self.task_id@,
        }
    }
}

impl TaskCursor {
    /// A copy with the same contents.
    pub fn dup(&self) -> (r: Self)
        ensures
            r@ == self@,
    {
        TaskCursor {
            updated_at: self.updated_at,
            task_id: self.task_id.clone(),
        }
    }
}

/// A task that has been running for long and has no deadline.
#[derive(Debug, Clone)]
pub struct StuckTaskRow {
    pub task_id: String,
    pub title: String,
    pub started_at: i64,
    pub current_attempt_id: Option<i64>,
    pub age_secs: i64,
}

/// The mathematical model of [`StuckTaskRow`].
pub struct StuckRec {
    pub task_id: Text,
    pub title: Text,
    pub started_at: i64,
    pub current_attempt_id: Option<i64>,
    pub age_secs: i64,
}

impl View for StuckTaskRow {
    type V = StuckRec;

    open spec fn view(&self) -> StuckRec {
        StuckRec {
            task_id: self.task_id@,
            title: self.title@,
            started_at: self.started_at,
            current_attempt_id: self.current_attempt_id,
            age_secs: self.age_secs,
        }
    }
}

impl StuckTaskRow {
    /// A copy with the same contents.
    pub fn dup(&self) -> (r: Self)
        ensures
            r@ == self@,
    {
        StuckTaskRow {
            task_id: self.task_id.clone(),
            title: self.title.clone(),
            started_at: self.started_at,
            current_attempt_id: self.current_attempt_id,
            age_secs: self.age_secs,
        }
    }
}

/// The interruption state of a task, for cooperative workers.
#[derive(Debug, Clone)]
pub struct InterruptionSnapshot {
    pub task_id: String,
    pub status: String,
    pub pause_generation: i64,
    pub freeze_generation: i64,
}

/// The mathematical model of [`InterruptionSnapshot`].
pub struct SnapshotRec {
    pub task_id: Text,
    pub status: Text,
    pub pause_generation: i64,
    pub freeze_generation: i64,
}

impl View for InterruptionSnapshot {
    type V = SnapshotRec;

    open spec fn view(&self) -> SnapshotRec {
        SnapshotRec {
            task_id: self.task_id@,
            status: self.status@,
            pause_generation: self.pause_generation,
            freeze_generation: self.freeze_generation,
        }
    }
}

impl InterruptionSnapshot {
    /// A copy with the same contents.
    pub fn dup(&self) -> (r: Self)
        ensures
            r@ == self@,
    {
        InterruptionSnapshot {
            task_id: self.task_id.clone(),
            status: self.status.clone(),
            pause_generation: self.pause_generation,
            freeze_generation: self.freeze_generation,
        }
    }
}

/// One task plus its event history.
#[derive(Debug, Clone)]
pub struct TaskView {
    pub task_id: String,
    pub title: String,
    pub status: String,
    pub owner_subject_id: String,
    pub flow_template: String,
    pub params_json: String,
    pub latest_result: Option<String>,
    pub latest_flow_id: Option<String>,
    pub latest_flow_log_path: Option<String>,
    pub error_kind: Option<i64>,
    pub error_cause: Option<String>,
    pub created_at: i64,
    pub updated_at: i64,
    pub retry_count: i64,
    pub retry_policy: String,
    pub max_retries: i64,
    pub max_runtime_secs: Option<i64>,
    pub last_failure_reason: Option<String>,
    pub last_failure_class: Option<String>,
    pub started_at: Option<i64>,
    pub attempt_count: i64,
    pub current_attempt_id: Option<i64>,
    pub investigation_marked_at: Option<i64>,
    pub investigation_reason: Option<String>,
    pub pause_generation: i64,
    pub freeze_generation: i64,
    pub frozen_at: Option<i64>,
    pub frozen_reason: Option<String>,
    pub origin_surface: Option<String>,
    pub events: Vec<TaskEvent>,
}

/// The mathematical model of [`TaskView`].
pub struct TaskDetail {
    pub head: TaskHeader,
    pub events: Seq<EventRec>,
}

impl View for TaskView {
    type V = TaskDetail;

    open spec fn view(&self) -> TaskDetail {
        TaskDetail {
            head: TaskHeader {
                task_id: self.task_id@,
                title: self.title@,
                status: self.status@,
                owner_subject_id: self.owner_subject_id@,
                flow_template: self.flow_template@,
                params_json: self.params_json@,
                latest_result: text::opt_text(self.latest_result),
                latest_flow_id: text::opt_text(self.latest_flow_id),
                latest_flow_log_path: text::opt_text(self.latest_flow_log_path),
                error_kind: self.error_kind,
                error_cause: text::opt_text(self.error_cause),
                created_at: self.created_at,
                updated_at: self.updated_at,
                retry_count: self.retry_count,
                retry_policy: self.retry_policy@,
                max_retries: self.max_retries,
                max_runtime_secs: self.max_runtime_secs,
                last_failure_reason: text::opt_text(self.last_failure_reason),
                last_failure_class: text::opt_text(self.last_failure_class),
                started_at: self.started_at,
                attempt_count: self.attempt_count,
                current_attempt_id: self.current_attempt_id,
                investigation_marked_at: self.investigation_marked_at,
                investigation_reason: text::opt_text(self.investigation_reason),
                pause_generation: self.pause_generation,
                freeze_generation: self.freeze_generation,
                frozen_at: self.frozen_at,
                frozen_reason: text::opt_text(self.frozen_reason),
                origin_surface: text::opt_text(self.origin_surface),
            },
            events: views(self.events@),
        }
    }
}

impl TaskHead {
    /// The head of a task together with its events.
    pub fn with_events(&self, events: Vec<TaskEvent>) -> (r: TaskView)
        ensures
            r@.head == self@,
            r@.events == views(events@),
    {
        TaskView {
            task_id: self.task_id.clone(),
            title: self.title.clone(),
            status: self.status.clone(),
            owner_subject_id: self.owner_subject_id.clone(),
            flow_template: self.flow_template.clone(),
            params_json: self.params_json.clone(),
            latest_result: text::copy_opt(&self.latest_result),
            latest_flow_id: text::copy_opt(&self.latest_flow_id),
            latest_flow_log_path: text::copy_opt(&self.latest_flow_log_path),
            error_kind: self.error_kind,
            error_cause: text::copy_opt(&self.error_cause),
            created_at: self.created_at,
            updated_at: self.updated_at,
            retry_count: self.retry_count,
            retry_policy: self.retry_policy.clone(),
            max_retries: self.max_retries,
            max_runtime_secs: self.max_runtime_secs,
            last_failure_reason: text::copy_opt(&self.last_failure_reason),
            last_failure_class: text::copy_opt(&self.last_failure_class),
            started_at: self.started_at,
            attempt_count: self.attempt_count,
            current_attempt_id: self.current_attempt_id,
            investigation_marked_at: self.investigation_marked_at,
            investigation_reason: text::copy_opt(&self.investigation_reason),
            pause_generation: self.pause_generation,
            freeze_generation: self.freeze_generation,
            frozen_at: self.frozen_at,
            frozen_reason: text::copy_opt(&self.frozen_reason),
            origin_surface: text::copy_opt(&self.origin_surface),
            events,
        }
    }
}

/// One page of a listing and where the next one begins.
#[derive(Debug, Clone)]
pub struct TaskPage {
    pub items: Vec<TaskSummary>,
    pub next_cursor: Option<TaskCursor>,
}

/// The mathematical model of [`TaskPage`].
pub struct PageRec {
    pub items: Seq<SummaryRec>,
    pub next_cursor: Option<CursorRec>,
}

impl View for TaskPage {
    type V = PageRec;

    open spec fn view(&self) -> PageRec {
        PageRec {
            items: views(self.items@),
            next_cursor: match self.next_cursor {
                Some(c) => Some(c@),
                None => None,
            },
        }
    }
}

/// Archival snapshot of one task.
#[derive(Debug, Clone)]
pub struct TaskExport {
    /// Version of the envelope.
    pub schema_version: u32,
    /// When the snapshot was taken.
    pub exported_at: i64,
    pub task_id: String,
    pub view: TaskView,
    pub attempts: Vec<AttemptView>,
}

/// The mathematical model of [`TaskExport`].
pub struct ExportRec {
    pub schema_version: u32,
    pub exported_at: i64,
    pub task_id: Text,
    pub view: TaskDetail,
    pub attempts: Seq<AttemptRec>,
}

impl View for TaskExport {
    type V = ExportRec;

    open spec fn view(&self) -> ExportRec {
        ExportRec {
            schema_version: self.schema_version,
            exported_at: self.exported_at,
            task_id: self.task_id@,
            view: self.view@,
            attempts: views(self.attempts@),
        }
    }
}

/// What a retention pass would delete, without deleting it.
#[derive(Debug, Clone)]
pub struct CompactDryRun {
    /// Events older than this are candidates.
    pub cutoff_ts: i64,
    pub candidate_events: i64,
    pub candidate_tasks: i64,
    pub oldest_candidate_ts: Option<i64>,
    pub newest_candidate_ts: Option<i64>,
    /// Candidates by the status of their task, in alphabetical order.
    pub by_task_status: Vec<(String, i64)>,
}

/// Aggregate metrics over an execution subtree.
#[derive(Debug, Clone)]
pub struct SubtreeMetrics {
    pub root_task_id: String,
    pub total_tasks: i64,
    pub cross_task_edge_count: i64,
    pub terminal_completed: i64,
    pub terminal_failed: i64,
    pub terminal_cancelled: i64,
    pub active_pending: i64,
    pub active_running: i64,
    pub active_retrying: i64,
    pub active_paused: i64,
    pub active_frozen: i64,
    pub active_interrupted: i64,
    pub active_awaiting_input: i64,
    pub other_status: i64,
    pub total_attempts: i64,
    pub total_wall_clock_secs: i64,
    pub oldest_started_at: Option<i64>,
    pub newest_updated_at: Option<i64>,
    pub tasks_with_missing_timing: i64,
    pub max_depth_walked: i64,
}

/// What recording an edge produced.
#[derive(Debug, Clone, Copy, PartialEq, Eq, Structural)]
pub struct EdgeProducerOutcome {
    pub edge_id: i64,
    pub event_id: i64,
}

impl View for EdgeProducerOutcome {
    type V = EdgeProducerOutcome;

    open spec fn view(&self) -> EdgeProducerOutcome {
        *self
    }
}

/// The tasks related to a root and the edges between them.
#[derive(Debug, Clone)]
pub struct TaskLineageGraph {
    pub root_task_id: String,
    /// The related tasks, the root first.
    pub tasks: Vec<String>,
    /// The edges that touch one of them, by id.
    pub edges: Vec<TaskEdge>,
    /// Edges between two different tasks.
    pub cross_task_edge_count: usize,
    /// How deep the walk went.
    pub max_depth_walked: usize,
}

} // verus!
