//! Creating tasks and changing them: status, results and failures, with the attempt timeline and the
//! anti-thrash marker as consequences.
use vstd::prelude::*;
use crate::coordinator::attempts;
use crate::coordinator::ledger::{self, Ledger, TaskStore};
use crate::coordinator::model::{self, CoordinatorError, Fault, TaskHead, TaskHeader, TaskRec, TaskRow};
use crate::coordinator::vocab::{self, RetryPolicy};
use crate::json;
use crate::numeral;
use crate::outside;
use crate::redaction;
use crate::text::{self, Text};

verus! {

/// A change to a task; what is missing stays as it is.
#[derive(Debug, Clone)]
pub struct TaskChange {
    pub status: Option<String>,
    pub result: Option<String>,
    pub flow_id: Option<String>,
    pub flow_log_path: Option<String>,
    pub error_kind: Option<i64>,
    pub error_cause: Option<String>,
    pub failure_class: Option<String>,
    /// Only used where the change opens an attempt.
    pub trace_id: Option<String>,
}

/// The mathematical model of [`TaskChange`].
pub struct ChangeRec {
    pub status: Option<Text>,
    pub result: Option<Text>,
    pub flow_id: Option<Text>,
    pub flow_log_path: Option<Text>,
    pub error_kind: Option<i64>,
    pub error_cause: Option<Text>,
    pub failure_class: Option<Text>,
    pub trace_id: Option<Text>,
}

impl View for TaskChange {
    type V = ChangeRec;

    open spec fn view(&self) -> ChangeRec {
        ChangeRec {
            status: text::opt_text(self.status),
            result: text::opt_text(self.result),
            flow_id: text::opt_text(self.flow_id),
            flow_log_path: text::opt_text(self.flow_log_path),
            error_kind: self.error_kind,
            error_cause: text::opt_text(self.error_cause),
            failure_class: text::opt_text(self.failure_class),
            trace_id: text::opt_text(self.trace_id),
        }
    }
}

/// The next count of failures in a row with one class.
pub open spec fn next_streak(t: TaskRec, class: Option<Text>) -> i64 {
    match class {
        Some(_) => if t.head.last_failure_class == class {
            if t.consecutive_same_class_count < i64::MAX {
                (t.consecutive_same_class_count + 1) as i64
            } else {
                i64::MAX
            }
        } else {
            1
        },
        None => t.consecutive_same_class_count,
    }
}

/// The row of a task after a change, before its consequences; `safe` is the scrubbed error cause.
pub open spec fn changed_row(t: TaskRec, now: i64, c: ChangeRec, safe: Option<Text>) -> TaskRec {
    let h = t.head;
    TaskRec {
        head: TaskHeader {
            status: match c.status {
                Some(s) => s,
                None => h.status,
            },
            started_at: if c.status == Some("running"@) {
                attempts::coalesce(h.started_at, Some(now))
            } else {
                h.started_at
            },
            latest_result: attempts::coalesce(c.result, h.latest_result),
            latest_flow_id: attempts::coalesce(c.flow_id, h.latest_flow_id),
            latest_flow_log_path: attempts::coalesce(c.flow_log_path, h.latest_flow_log_path),
            error_kind: attempts::coalesce(c.error_kind, h.error_kind),
            error_cause: attempts::coalesce(safe, h.error_cause),
            last_failure_reason: attempts::coalesce(safe, h.last_failure_reason),
            last_failure_class: attempts::coalesce(c.failure_class, h.last_failure_class),
            updated_at: now,
            ..h
        },
        consecutive_same_class_count: next_streak(t, c.failure_class),
    }
}

pub open spec fn auto_reason(class: Text, count: int) -> Text {
    "auto-marked: "@ + numeral::dec(count) + " consecutive failures with class="@ + class
}

pub open spec fn thrash_text(class: Text, count: int) -> Text {
    "consecutive failures class="@ + class + " count="@ + numeral::dec(count) + " threshold="@ + numeral::dec(
        vocab::ANTI_THRASH_THRESHOLD as int,
    )
}

pub open spec fn thrash_json(class: Text, count: int) -> Text {
    let m = json::with_text(Seq::empty(), "class"@, class);
    let m = json::with_number(m, "count"@, count);
    let m = json::with_number(m, "threshold"@, vocab::ANTI_THRASH_THRESHOLD as int);
    json::object(m)
}

pub open spec fn auto_marked_text(class: Text, count: int) -> Text {
    "auto-marked (thrash): count="@ + numeral::dec(count) + " class="@ + class
}

pub open spec fn auto_marked_json(class: Text, count: int) -> Text {
    let m = json::with_text(Seq::empty(), "reason"@, auto_reason(class, count));
    let m = json::with_value(m, "auto"@, "true"@);
    let m = json::with_text(m, "thrash_class"@, class);
    let m = json::with_number(m, "thrash_count"@, count);
    json::object(m)
}

/// Whether a status ends an attempt.
pub open spec fn closes_attempt(status: Text) -> bool {
    status == "completed"@ || status == "failed"@ || status == "cancelled"@
}

impl Ledger {
    /// Whether a task fails in circles and nobody has marked it yet.
    pub open spec fn thrashes(self, id: Text) -> bool {
        self.task(id).consecutive_same_class_count >= vocab::ANTI_THRASH_THRESHOLD && self.head(
            id,
        ).investigation_marked_at is None
    }

    /// The ledger after a task was marked for investigation because it fails in circles.
    pub open spec fn auto_marked(self, id: Text, now: i64, class: Text) -> Ledger {
        let count = self.task(id).consecutive_same_class_count as int;
        self.with_head(
            id,
            TaskHeader {
                investigation_marked_at: Some(now),
                investigation_reason: Some(auto_reason(class, count)),
                updated_at: now,
                ..self.head(id)
            },
        ).log(
            id,
            now,
            "task.thrash_detected"@,
            thrash_text(class, count),
            None,
            None,
            thrash_json(class, count),
        ).log(
            id,
            now,
            "task.investigation_marked"@,
            auto_marked_text(class, count),
            None,
            None,
            auto_marked_json(class, count),
        )
    }

    /// The ledger with a task's row changed and, where it now fails in circles, marked.
    pub open spec fn changed(self, now: i64, id: Text, c: ChangeRec, safe: Option<Text>) -> Ledger {
        let l = self.put(id, changed_row(self.task(id), now, c, safe));
        match c.failure_class {
            Some(class) => if l.thrashes(id) {
                l.auto_marked(id, now, class)
            } else {
                l
            },
            None => l,
        }
    }

    /// What a change to a task does and returns.
    pub open spec fn updated(self, now: i64, id: Text, c: ChangeRec, safe: Option<Text>) -> (Ledger, Result<(), Fault>) {
        if !self.has(id) {
            (self, Err(Fault::NotFound(id)))
        } else {
            let l = self.changed(now, id, c, safe);
            let m = match c.status {
                Some(s) => if s == "running"@ {
                    l.attempt_opened(id, c.trace_id, now)
                } else if closes_attempt(s) {
                    l.attempt_closed(
                        id,
                        s,
                        c.flow_id,
                        c.flow_log_path,
                        c.error_kind,
                        c.error_cause,
                        c.failure_class,
                        now,
                    ).summarised(id, s, now)
                } else {
                    l
                },
                None => l,
            };
            (m, Ok(()))
        }
    }
}

/// The row of a new task.
pub open spec fn new_row(
    now: i64,
    id: Text,
    title: Text,
    flow_template: Text,
    params_json: Text,
    owner: Text,
    policy: RetryPolicy,
    max_retries: i64,
    max_runtime_secs: Option<i64>,
    origin: Option<Text>,
) -> TaskRec {
    TaskRec {
        head: TaskHeader {
            task_id: id,
            title,
            status: "pending"@,
            owner_subject_id: owner,
            flow_template,
            params_json,
            latest_result: None,
            latest_flow_id: None,
            latest_flow_log_path: None,
            error_kind: None,
            error_cause: None,
            created_at: now,
            updated_at: now,
            retry_count: 0,
            retry_policy: policy.word(),
            max_retries,
            max_runtime_secs,
            last_failure_reason: None,
            last_failure_class: None,
            started_at: None,
            attempt_count: 0,
            current_attempt_id: None,
            investigation_marked_at: None,
            investigation_reason: None,
            pause_generation: 0,
            freeze_generation: 0,
            frozen_at: None,
            frozen_reason: None,
            origin_surface: origin,
        },
        consecutive_same_class_count: 0,
    }
}

impl Ledger {
    /// What making a task does and returns; an id that is taken is refused.
    pub open spec fn created(self, rec: TaskRec) -> (Ledger, Result<Text, Fault>) {
        if self.has(rec.head.task_id) {
            (self, Err(Fault::Db("UNIQUE constraint failed: tasks.task_id"@)))
        } else {
            (self.with_task(rec), Ok(rec.head.task_id))
        }
    }

    /// What making a task under a fresh id does and returns; there may be no such id.
    pub open spec fn created_fresh(self, fresh: Option<Text>, rec: TaskRec) -> (Ledger, Result<Text, Fault>) {
        match fresh {
            Some(id) => self.created(TaskRec { head: TaskHeader { task_id: id, ..rec.head }, ..rec }),
            None => (self, Err(Fault::Io(outside::NO_FRESH_ID@))),
        }
    }

    /// What counting one more retry does and returns.
    pub open spec fn retry_bumped(self, now: i64, id: Text) -> (Ledger, Result<i64, Fault>) {
        if !self.has(id) {
            (self, Err(Fault::NotFound(id)))
        } else {
            let n = (self.head(id).retry_count + 1) as i64;
            (self.with_head(id, TaskHeader { retry_count: n, updated_at: now, ..self.head(id) }), Ok(n))
        }
    }

    /// What appending a free-form event does and returns.
    pub open spec fn event_appended(self, now: i64, id: Text, event_type: Text, payload: Text) -> (
        Ledger,
        Result<i64, Fault>,
    ) {
        if !self.has(id) {
            (self, Err(Fault::NotFound(id)))
        } else {
            (self.note_event(id, now, event_type, payload), Ok((self.event_seq + 1) as i64))
        }
    }
}

fn thrash_strings(class: &str, count: i64) -> (r: (String, String, String, String, String))
    ensures
        r.0@ == auto_reason(class@, count as int),
        r.1@ == thrash_text(class@, count as int),
        r.2@ == thrash_json(class@, count as int),
        r.3@ == auto_marked_text(class@, count as int),
        r.4@ == auto_marked_json(class@, count as int),
{
    let mut reason = text::owned("auto-marked: ");
    numeral::push_i64(&mut reason, count);
    reason.append(" consecutive failures with class=");
    reason.append(class);
    let mut a = text::owned("consecutive failures class=");
    a.append(class);
    a.append(" count=");
    numeral::push_i64(&mut a, count);
    a.append(" threshold=");
    numeral::push_i64(&mut a, vocab::ANTI_THRASH_THRESHOLD);
    let mut b = json::Members::new();
    b.text("class", class);
    b.number("count", count as i128);
    b.number("threshold", vocab::ANTI_THRASH_THRESHOLD as i128);
    let mut c = text::owned("auto-marked (thrash): count=");
    numeral::push_i64(&mut c, count);
    c.append(" class=");
    c.append(class);
    let mut d = json::Members::new();
    d.text("reason", reason.as_str());
    d.value("auto", text::owned("true"));
    d.text("thrash_class", class);
    d.number("thrash_count", count as i128);
    (reason, a, b.object(), c, d.object())
}

fn keep_text(a: &Option<String>, b: &Option<String>) -> (r: Option<String>)
    ensures
        text::opt_text(r) == attempts::coalesce(text::opt_text(*a), text::opt_text(*b)),
{
    match a {
        Some(t) => Some(t.clone()),
        None => text::copy_opt(b),
    }
}

fn changed_task(row: &TaskRow, now: i64, c: &TaskChange, safe: Option<&str>) -> (r: TaskRow)
    ensures
        r@ == changed_row(row@, now, c@, text::opt_slice(safe)),
{
    let mut head = row.head.dup();
    head.updated_at = now;
    if let Some(s) = &c.status {
        head.status = s.clone();
        if text::same(s.as_str(), "running") && head.started_at.is_none() {
            head.started_at = Some(now);
        }
    }
    head.latest_result = keep_text(&c.result, &row.head.latest_result);
    head.latest_flow_id = keep_text(&c.flow_id, &row.head.latest_flow_id);
    head.latest_flow_log_path = keep_text(&c.flow_log_path, &row.head.latest_flow_log_path);
    if let Some(e) = c.error_kind {
        head.error_kind = Some(e);
    }
    if let Some(t) = safe {
        head.error_cause = Some(text::owned(t));
        head.last_failure_reason = Some(text::owned(t));
    }
    let mut count: i64 = row.consecutive_same_class_count;
    if let Some(class) = &c.failure_class {
        if text::same_opt(text::slice_opt(&row.head.last_failure_class), Some(class.as_str())) {
            if count < i64::MAX {
                count = count + 1;
            }
        } else {
            count = 1;
        }
        head.last_failure_class = Some(class.clone());
    }
    TaskRow { head, consecutive_same_class_count: count }
}

impl TaskStore {
    /// Changes a task at a given time; `safe_cause` is the error cause with secrets scrubbed out, which
    /// is what the task row keeps. The attempt that the change closes keeps the cause as it was given.
    pub fn update_at(&mut self, now: i64, task_id: &str, c: &TaskChange, safe_cause: Option<&str>) -> (r: Result<
        (),
        CoordinatorError,
    >)
        requires
            old(self).wf(),
            old(self)@.roomy(),
        ensures
            final(self)@ == old(self)@.updated(now, task_id@, c@, text::opt_slice(safe_cause)).0,
            model::seen(r) == old(self)@.updated(now, task_id@, c@, text::opt_slice(safe_cause)).1,
            final(self).wf(),
            forall|x: Text| #[trigger] final(self)@.find(x) == old(self)@.find(x),
    {
        let i = self.find_index(task_id);
        let ghost l0 = self@;
        let ghost id = task_id@;
        let ghost safe = text::opt_slice(safe_cause);
        if i >= self.tasks.len() {
            return Err(CoordinatorError::NotFound(text::owned(task_id)));
        }
        proof {
            ledger::lemma_find(l0, id);
            assert(l0.task_sound(l0.tasks[i as int]));
        }
        assert(self.tasks@[i as int]@ == l0.tasks[i as int]);
        let row = changed_task(&self.tasks[i], now, c, safe_cause);
        let count: i64 = row.consecutive_same_class_count;
        let marked = row.head.investigation_marked_at.is_some();
        proof {
            ledger::lemma_put_wf(l0, id, row@);
        }
        self.put_row(i, row);
        let ghost l1 = self@;
        assert(l1 == l0.put(id, changed_row(l0.task(id), now, c@, safe)));
        if let Some(class) = &c.failure_class {
            if count >= vocab::ANTI_THRASH_THRESHOLD && !marked {
                let (reason, a, b, d, e) = thrash_strings(class.as_str(), count);
                let mut head = self.tasks[i].head.dup();
                assert(self.tasks@[i as int]@ == l1.tasks[i as int]);
                head.investigation_marked_at = Some(now);
                head.investigation_reason = Some(reason);
                head.updated_at = now;
                proof {
                    assert(l1.task_sound(l1.tasks[i as int]));
                    ledger::lemma_put_wf(l1, id, TaskRec { head: head@, ..l1.task(id) });
                }
                self.put_head(i, head);
                self.insert_typed_event(task_id, now, "task.thrash_detected", a, None, None, b);
                self.insert_typed_event(task_id, now, "task.investigation_marked", d, None, None, e);
            }
        }
        assert(self@ == l0.changed(now, id, c@, safe));
        if let Some(s) = &c.status {
            if text::same(s.as_str(), "running") {
                self.open_attempt_if_needed(task_id, text::slice_opt(&c.trace_id), now);
            } else if text::same(s.as_str(), "completed") || text::same(s.as_str(), "failed") || text::same(
                s.as_str(),
                "cancelled",
            ) {
                self.close_open_attempt_if_any(
                    task_id,
                    s.as_str(),
                    text::slice_opt(&c.flow_id),
                    text::slice_opt(&c.flow_log_path),
                    c.error_kind,
                    text::slice_opt(&c.error_cause),
                    text::slice_opt(&c.failure_class),
                    now,
                );
                self.emit_terminal_summary(task_id, s.as_str(), now);
            }
        }
        Ok(())
    }

    /// Changes a task now. What is `None` is kept; the error cause is scrubbed before it is stored on
    /// the task.
    pub fn update<R: Fn(&str) -> String>(
        &mut self,
        task_id: &str,
        status: Option<&str>,
        result: Option<&str>,
        flow_id: Option<&str>,
        flow_log_path: Option<&str>,
        error_kind: Option<i64>,
        error_cause: Option<&str>,
        failure_class: Option<&str>,
        redact: &R,
    ) -> (r: Result<(), CoordinatorError>)
        requires
            old(self).wf(),
            old(self)@.roomy(),
            redaction::total(*redact),
        ensures
            exists|now: i64, safe: Option<Text>|
                redaction::redacts_opt(*redact, text::opt_slice(error_cause), safe) && (final(self)@, model::seen(r))
                    == #[trigger] old(self)@.updated(
                    now,
                    task_id@,
                    change_rec(
                        status,
                        result,
                        flow_id,
                        flow_log_path,
                        error_kind,
                        error_cause,
                        failure_class,
                        None,
                    ),
                    safe,
                ),
            final(self).wf(),
    {
        self.update_with_trace(
            task_id,
            status,
            result,
            flow_id,
            flow_log_path,
            error_kind,
            error_cause,
            failure_class,
            None,
            redact,
        )
    }

    /// The same, with a trace id for the attempt that the change opens.
    pub fn update_with_trace<R: Fn(&str) -> String>(
        &mut self,
        task_id: &str,
        status: Option<&str>,
        result: Option<&str>,
        flow_id: Option<&str>,
        flow_log_path: Option<&str>,
        error_kind: Option<i64>,
        error_cause: Option<&str>,
        failure_class: Option<&str>,
        trace_id: Option<&str>,
        redact: &R,
    ) -> (r: Result<(), CoordinatorError>)
        requires
            old(self).wf(),
            old(self)@.roomy(),
            redaction::total(*redact),
        ensures
            exists|now: i64, safe: Option<Text>|
                redaction::redacts_opt(*redact, text::opt_slice(error_cause), safe) && (final(self)@, model::seen(r))
                    == #[trigger] old(self)@.updated(
                    now,
                    task_id@,
                    change_rec(
                        status,
                        result,
                        flow_id,
                        flow_log_path,
                        error_kind,
                        error_cause,
                        failure_class,
                        trace_id,
                    ),
                    safe,
                ),
            final(self).wf(),
    {
        let now = outside::unix_secs();
        let safe = redaction::scrub_opt(redact, error_cause);
        let c = TaskChange {
            status: text::owned_opt(status),
            result: text::owned_opt(result),
            flow_id: text::owned_opt(flow_id),
            flow_log_path: text::owned_opt(flow_log_path),
            error_kind,
            error_cause: text::owned_opt(error_cause),
            failure_class: text::owned_opt(failure_class),
            trace_id: text::owned_opt(trace_id),
        };
        self.update_at(now, task_id, &c, text::slice_opt(&safe))
    }

    /// Makes a task at a given time under a given id.
    pub fn create_at(
        &mut self,
        now: i64,
        task_id: String,
        title: &str,
        flow_template: &str,
        params_json: &str,
        owner_subject_id: &str,
        retry_policy: RetryPolicy,
        max_retries: i64,
        max_runtime_secs: Option<i64>,
        origin_surface: Option<&str>,
    ) -> (r: Result<String, CoordinatorError>)
        requires
            old(self).wf(),
        ensures
            (final(self)@, model::seen(r)) == old(self)@.created(
                new_row(
                    now,
                    task_id@,
                    title@,
                    flow_template@,
                    params_json@,
                    owner_subject_id@,
                    retry_policy,
                    max_retries,
                    max_runtime_secs,
                    text::opt_slice(origin_surface),
                ),
            ),
            final(self).wf(),
    {
        if self.find_index(task_id.as_str()) < self.tasks.len() {
            return Err(CoordinatorError::Db(text::owned("UNIQUE constraint failed: tasks.task_id")));
        }
        let row = TaskRow {
            head: TaskHead {
                task_id: task_id.clone(),
                title: text::owned(title),
                status: text::owned("pending"),
                owner_subject_id: text::owned(owner_subject_id),
                flow_template: text::owned(flow_template),
                params_json: text::owned(params_json),
                latest_result: None,
                latest_flow_id: None,
                latest_flow_log_path: None,
                error_kind: None,
                error_cause: None,
                created_at: now,
                updated_at: now,
                retry_count: 0,
                retry_policy: text::owned(retry_policy.as_str()),
                max_retries,
                max_runtime_secs,
                last_failure_reason: None,
                last_failure_class: None,
                started_at: None,
                attempt_count: 0,
                current_attempt_id: None,
                investigation_marked_at: None,
                investigation_reason: None,
                pause_generation: 0,
                freeze_generation: 0,
                frozen_at: None,
                frozen_reason: None,
                origin_surface: text::owned_opt(origin_surface),
            },
            consecutive_same_class_count: 0,
        };
        proof {
            ledger::lemma_task_wf(self@, row@);
        }
        self.tasks.push(row);
        assert(self@.tasks =~= old(self)@.tasks.push(row@));
        Ok(task_id)
    }

    /// Makes a task at a given time under a fresh id; fails where there is none.
    pub fn create_fresh(
        &mut self,
        now: i64,
        fresh: Option<String>,
        title: &str,
        flow_template: &str,
        params_json: &str,
        owner_subject_id: &str,
        retry_policy: RetryPolicy,
        max_retries: i64,
        max_runtime_secs: Option<i64>,
        origin_surface: Option<&str>,
    ) -> (r: Result<String, CoordinatorError>)
        requires
            old(self).wf(),
        ensures
            (final(self)@, model::seen(r)) == old(self)@.created_fresh(
                text::opt_text(fresh),
                new_row(
                    now,
                    Seq::empty(),
                    title@,
                    flow_template@,
                    params_json@,
                    owner_subject_id@,
                    retry_policy,
                    max_retries,
                    max_runtime_secs,
                    text::opt_slice(origin_surface),
                ),
            ),
            final(self).wf(),
    {
        match fresh {
            Some(task_id) => self.create_at(
                now,
                task_id,
                title,
                flow_template,
                params_json,
                owner_subject_id,
                retry_policy,
                max_retries,
                max_runtime_secs,
                origin_surface,
            ),
            None => Err(CoordinatorError::Io(text::owned(outside::NO_FRESH_ID))),
        }
    }

    /// Makes a task now, under a fresh id of 32 hexadecimal digits.
    pub fn create(
        &mut self,
        title: &str,
        flow_template: &str,
        params_json: &str,
        owner_subject_id: &str,
        retry_policy: RetryPolicy,
        max_retries: i64,
        max_runtime_secs: Option<i64>,
        origin_surface: Option<&str>,
    ) -> (r: Result<String, CoordinatorError>)
        requires
            old(self).wf(),
        ensures
            exists|now: i64, fresh: Option<Text>|
                outside::may_be_drawn(fresh) && (final(self)@, model::seen(r)) == #[trigger] old(self)@.created_fresh(
                    fresh,
                    new_row(
                        now,
                        Seq::empty(),
                        title@,
                        flow_template@,
                        params_json@,
                        owner_subject_id@,
                        retry_policy,
                        max_retries,
                        max_runtime_secs,
                        text::opt_slice(origin_surface),
                    ),
                ),
            final(self).wf(),
    {
        let fresh = outside::new_task_id();
        let now = outside::unix_secs();
        self.create_fresh(
            now,
            fresh,
            title,
            flow_template,
            params_json,
            owner_subject_id,
            retry_policy,
            max_retries,
            max_runtime_secs,
            origin_surface,
        )
    }

    /// Counts one more retry at a given time.
    pub fn bump_retry_count_at(&mut self, now: i64, task_id: &str) -> (r: Result<i64, CoordinatorError>)
        requires
            old(self).wf(),
            old(self)@.has(task_id@) ==> old(self)@.head(task_id@).retry_count < i64::MAX,
        ensures
            (final(self)@, model::seen(r)) == old(self)@.retry_bumped(now, task_id@),
            final(self).wf(),
    {
        let i = self.find_index(task_id);
        if i >= self.tasks.len() {
            return Err(CoordinatorError::NotFound(text::owned(task_id)));
        }
        let ghost l0 = self@;
        assert(self.tasks@[i as int]@ == l0.tasks[i as int]);
        let mut head = self.tasks[i].head.dup();
        let n: i64 = head.retry_count + 1;
        head.retry_count = n;
        head.updated_at = now;
        proof {
            ledger::lemma_find(l0, task_id@);
            assert(l0.task_sound(l0.tasks[i as int]));
            ledger::lemma_put_wf(l0, task_id@, TaskRec { head: head@, ..l0.task(task_id@) });
        }
        self.put_head(i, head);
        Ok(n)
    }

    /// Counts one more retry. Checks no policy and writes no event.
    pub fn bump_retry_count(&mut self, task_id: &str) -> (r: Result<i64, CoordinatorError>)
        requires
            old(self).wf(),
            old(self)@.has(task_id@) ==> old(self)@.head(task_id@).retry_count < i64::MAX,
        ensures
            exists|now: i64| (final(self)@, model::seen(r)) == #[trigger] old(self)@.retry_bumped(now, task_id@),
            final(self).wf(),
    {
        let now = outside::unix_secs();
        self.bump_retry_count_at(now, task_id)
    }

    /// Appends a free-form event at a given time.
    pub fn append_event_at(&mut self, now: i64, task_id: &str, event_type: &str, payload: &str) -> (r: Result<
        i64,
        CoordinatorError,
    >)
        requires
            old(self).wf(),
            old(self)@.roomy(),
        ensures
            (final(self)@, model::seen(r)) == old(self)@.event_appended(now, task_id@, event_type@, payload@),
            final(self).wf(),
    {
        if self.find_index(task_id) >= self.tasks.len() {
            return Err(CoordinatorError::NotFound(text::owned(task_id)));
        }
        let event_id: i64 = self.event_seq + 1;
        let event = model::TaskEvent {
            event_id,
            ts: now,
            event_type: text::owned(event_type),
            payload: text::owned(payload),
            schema_version: 0,
            attempt_id: None,
            trace_id: None,
            payload_json: None,
        };
        proof {
            ledger::lemma_event_wf(self@, task_id@, event@);
        }
        self.push_event(task_id, event);
        Ok(event_id)
    }

    /// Appends a free-form event to a task's history and returns its id.
    pub fn append_event(&mut self, task_id: &str, event_type: &str, payload: &str) -> (r: Result<i64, CoordinatorError>)
        requires
            old(self).wf(),
            old(self)@.roomy(),
        ensures
            exists|now: i64|
                (final(self)@, model::seen(r)) == #[trigger] old(self)@.event_appended(
                    now,
                    task_id@,
                    event_type@,
                    payload@,
                ),
            final(self).wf(),
    {
        let now = outside::unix_secs();
        self.append_event_at(now, task_id, event_type, payload)
    }
}

/// The change that the arguments of an update describe.
pub open spec fn change_rec(
    status: Option<&str>,
    result: Option<&str>,
    flow_id: Option<&str>,
    flow_log_path: Option<&str>,
    error_kind: Option<i64>,
    error_cause: Option<&str>,
    failure_class: Option<&str>,
    trace_id: Option<&str>,
) -> ChangeRec {
    ChangeRec {
        status: text::opt_slice(status),
        result: text::opt_slice(result),
        flow_id: text::opt_slice(flow_id),
        flow_log_path: text::opt_slice(flow_log_path),
        error_kind,
        error_cause: text::opt_slice(error_cause),
        failure_class: text::opt_slice(failure_class),
        trace_id: text::opt_slice(trace_id),
    }
}

} // verus!
