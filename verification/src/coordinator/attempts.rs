//! The attempt timeline: opening and closing attempts, and the summary a task ends with.
use vstd::prelude::*;
use crate::coordinator::ledger::{self, Ledger, TaskStore};
use crate::coordinator::model::{AttemptRec, AttemptRow, AttemptView, EdgeRec, OwnedAttempt, OwnedEvent, TaskEdge};
use crate::json;
use crate::numeral;
use crate::text::{self, Text};

verus! {

/// The place of the last of the first `n` events of a task that has one of two types; -1 where there
/// is none.
pub open spec fn last_event(events: Seq<OwnedEvent>, id: Text, a: Text, b: Text, n: int) -> int
    decreases n,
{
    if n <= 0 {
        -1
    } else if events[n - 1].task_id == id && (events[n - 1].event.event_type == a || events[n - 1].event.event_type == b) {
        n - 1
    } else {
        last_event(events, id, a, b, n - 1)
    }
}

/// The first value that is there.
pub open spec fn coalesce<T>(a: Option<T>, b: Option<T>) -> Option<T> {
    if a is Some {
        a
    } else {
        b
    }
}

impl Ledger {
    /// The place of a task's last event of a type; -1 where there is none.
    pub open spec fn latest(self, id: Text, event_type: Text) -> int {
        last_event(self.events, id, event_type, event_type, self.events.len() as int)
    }

    /// The id of a task's last event of a type.
    pub open spec fn latest_id(self, id: Text, event_type: Text) -> Option<i64> {
        let k = self.latest(id, event_type);
        if k >= 0 {
            Some(self.events[k].event.event_id)
        } else {
            None
        }
    }

    /// Whether a task has an open attempt.
    pub open spec fn has_open_attempt(self, id: Text) -> bool {
        match self.head(id).current_attempt_id {
            Some(aid) => self.has_attempt(aid) && self.attempt(aid).attempt.finished_at is None,
            None => false,
        }
    }

    /// The attempt that a task opens next.
    pub open spec fn next_attempt(self, id: Text, trace: Option<Text>, now: i64) -> OwnedAttempt {
        OwnedAttempt {
            task_id: id,
            attempt: AttemptRec {
                attempt_id: (self.attempt_seq + 1) as i64,
                attempt_num: (self.head(id).attempt_count + 1) as i64,
                started_at: now,
                finished_at: None,
                status: "running"@,
                flow_id: None,
                flow_log_path: None,
                trace_id: trace,
                error_kind: None,
                error_cause: None,
                failure_class: None,
            },
        }
    }

    /// The ledger after a task went to `running`: where no attempt is open, a new one is opened and
    /// announced, with an edge back to the attempt before it.
    pub open spec fn attempt_opened(self, id: Text, trace: Option<Text>, now: i64) -> Ledger {
        if self.has_open_attempt(id) {
            self
        } else {
            let rec = self.next_attempt(id, trace, now);
            let aid = rec.attempt.attempt_id;
            let num = rec.attempt.attempt_num;
            let l = self.with_attempt(id, rec).log(
                id,
                now,
                "task.attempt_started"@,
                started_text(aid as int, num as int, trace),
                Some(aid),
                trace,
                started_json(aid as int, num as int, trace),
            );
            match self.head(id).current_attempt_id {
                Some(prior) => if num > 1 {
                    l.with_edge(
                        EdgeRec {
                            edge_id: 0,
                            task_id: id,
                            attempt_id: Some(aid),
                            edge_type: "retried_from"@,
                            related_task_id: Some(id),
                            related_attempt_id: Some(prior),
                            spawned_by_event_id: l.latest_id(id, "task.retry_requested"@),
                            created_at: now,
                        },
                    )
                } else {
                    l
                },
                None => l,
            }
        }
    }

    /// The ledger after a task's open attempt, if any, was closed with an outcome; columns that the
    /// outcome leaves out keep their values.
    pub open spec fn attempt_closed(
        self,
        id: Text,
        status: Text,
        flow_id: Option<Text>,
        flow_log_path: Option<Text>,
        error_kind: Option<i64>,
        error_cause: Option<Text>,
        failure_class: Option<Text>,
        now: i64,
    ) -> Ledger {
        if self.has_open_attempt(id) {
            let aid = self.head(id).current_attempt_id->0;
            let a = self.attempt(aid);
            let closed = OwnedAttempt {
                attempt: AttemptRec {
                    finished_at: Some(now),
                    status,
                    flow_id: coalesce(flow_id, a.attempt.flow_id),
                    flow_log_path: coalesce(flow_log_path, a.attempt.flow_log_path),
                    error_kind: coalesce(error_kind, a.attempt.error_kind),
                    error_cause: coalesce(error_cause, a.attempt.error_cause),
                    failure_class: coalesce(failure_class, a.attempt.failure_class),
                    ..a.attempt
                },
                ..a
            };
            self.put_attempt(aid, closed).log(
                id,
                now,
                "task.attempt_finished"@,
                finished_text(aid as int, status, failure_class),
                Some(aid),
                None,
                finished_json(aid as int, status, failure_class),
            )
        } else {
            self
        }
    }

    /// The ledger after a task ended: its post-mortem is written once.
    pub open spec fn summarised(self, id: Text, status: Text, now: i64) -> Ledger {
        if self.latest(id, "task.terminal_summary"@) >= 0 {
            self
        } else {
            let h = self.head(id);
            let wall = match h.started_at {
                Some(s) => elapsed(s as int, now as int),
                None => 0,
            };
            let class = match h.last_failure_class {
                Some(c) => c,
                None => Seq::empty(),
            };
            self.log(
                id,
                now,
                "task.terminal_summary"@,
                summary_text(status, h.attempt_count as int, h.retry_count as int, wall, class),
                None,
                None,
                summary_json(status, h.attempt_count as int, h.retry_count as int, wall, class),
            )
        }
    }
}

/// The seconds from `start` to `now`; zero where `now` is earlier.
pub open spec fn elapsed(start: int, now: int) -> int {
    if now - start > 0 {
        now - start
    } else {
        0
    }
}

pub open spec fn started_text(aid: int, num: int, trace: Option<Text>) -> Text {
    let s = "attempt_id="@ + numeral::dec(aid) + " attempt_num="@ + numeral::dec(num);
    match trace {
        Some(t) => s + " trace_id="@ + t,
        None => s,
    }
}

pub open spec fn started_json(aid: int, num: int, trace: Option<Text>) -> Text {
    let m = json::with_number(Seq::empty(), "attempt_id"@, aid);
    let m = json::with_number(m, "attempt_num"@, num);
    let m = json::with_text_opt(m, "trace_id"@, trace);
    json::object(m)
}

pub open spec fn finished_text(aid: int, status: Text, class: Option<Text>) -> Text {
    let s = "attempt_id="@ + numeral::dec(aid) + " status="@ + status;
    match class {
        Some(c) => s + " failure_class="@ + c,
        None => s,
    }
}

pub open spec fn finished_json(aid: int, status: Text, class: Option<Text>) -> Text {
    let m = json::with_number(Seq::empty(), "attempt_id"@, aid);
    let m = json::with_text(m, "status"@, status);
    let m = json::with_text_opt(m, "failure_class"@, class);
    json::object(m)
}

pub open spec fn summary_text(reason: Text, attempts: int, retries: int, wall: int, class: Text) -> Text {
    reason + " · attempts="@ + numeral::dec(attempts) + " retries="@ + numeral::dec(retries) + " wall_clock_secs="@
        + numeral::dec(wall) + " last_failure_class="@ + class
}

pub open spec fn summary_json(reason: Text, attempts: int, retries: int, wall: int, class: Text) -> Text {
    let m = json::with_text(Seq::empty(), "reason"@, reason);
    let m = json::with_number(m, "attempts"@, attempts);
    let m = json::with_number(m, "retries"@, retries);
    let m = json::with_number(m, "wall_clock_secs"@, wall);
    let m = json::with_text(m, "last_failure_class"@, class);
    let m = json::with_text(m, "auto_emitted_by"@, "update_task"@);
    json::object(m)
}

fn started_strings(aid: i64, num: i64, trace: Option<&str>) -> (r: (String, String))
    ensures
        r.0@ == started_text(aid as int, num as int, text::opt_slice(trace)),
        r.1@ == started_json(aid as int, num as int, text::opt_slice(trace)),
{
    let mut a = text::owned("attempt_id=");
    numeral::push_i64(&mut a, aid);
    a.append(" attempt_num=");
    numeral::push_i64(&mut a, num);
    if let Some(t) = trace {
        a.append(" trace_id=");
        a.append(t);
    }
    let mut b = json::Members::new();
    b.number("attempt_id", aid as i128);
    b.number("attempt_num", num as i128);
    b.text_opt("trace_id", trace);
    (a, b.object())
}

fn finished_strings(aid: i64, status: &str, class: Option<&str>) -> (r: (String, String))
    ensures
        r.0@ == finished_text(aid as int, status@, text::opt_slice(class)),
        r.1@ == finished_json(aid as int, status@, text::opt_slice(class)),
{
    let mut a = text::owned("attempt_id=");
    numeral::push_i64(&mut a, aid);
    a.append(" status=");
    a.append(status);
    if let Some(c) = class {
        a.append(" failure_class=");
        a.append(c);
    }
    let mut b = json::Members::new();
    b.number("attempt_id", aid as i128);
    b.text("status", status);
    b.text_opt("failure_class", class);
    (a, b.object())
}

fn summary_strings(reason: &str, attempts: i64, retries: i64, wall: i128, class: &str) -> (r: (String, String))
    requires
        wall > i128::MIN,
    ensures
        r.0@ == summary_text(reason@, attempts as int, retries as int, wall as int, class@),
        r.1@ == summary_json(reason@, attempts as int, retries as int, wall as int, class@),
{
    let mut a = text::owned(reason);
    a.append(" · attempts=");
    numeral::push_i64(&mut a, attempts);
    a.append(" retries=");
    numeral::push_i64(&mut a, retries);
    a.append(" wall_clock_secs=");
    numeral::push_int(&mut a, wall);
    a.append(" last_failure_class=");
    a.append(class);
    let mut b = json::Members::new();
    b.text("reason", reason);
    b.number("attempts", attempts as i128);
    b.number("retries", retries as i128);
    b.number("wall_clock_secs", wall);
    b.text("last_failure_class", class);
    b.text("auto_emitted_by", "update_task");
    (a, b.object())
}

/// The seconds from `start` to `now`; zero where `now` is earlier.
pub(crate) fn elapsed_secs(start: i64, now: i64) -> (r: i128)
    ensures
        r == elapsed(start as int, now as int),
{
    let d: i128 = now as i128 - start as i128;
    if d > 0 {
        d
    } else {
        0
    }
}

fn pick_text(a: Option<&str>, b: &Option<String>) -> (r: Option<String>)
    ensures
        text::opt_text(r) == coalesce(text::opt_slice(a), text::opt_text(*b)),
{
    match a {
        Some(t) => Some(text::owned(t)),
        None => text::copy_opt(b),
    }
}

impl TaskStore {
    /// The place of a task's last event that has one of two types, plus one; zero where there is none.
    pub fn last_event_of(&self, task_id: &str, a: &str, b: &str) -> (r: usize)
        ensures
            r == last_event(self@.events, task_id@, a@, b@, self@.events.len() as int) + 1,
            r <= self.events@.len(),
    {
        let mut n: usize = self.events.len();
        while n > 0
            invariant
                n <= self.events@.len(),
                last_event(self@.events, task_id@, a@, b@, self@.events.len() as int) == last_event(
                    self@.events,
                    task_id@,
                    a@,
                    b@,
                    n as int,
                ),
            decreases n,
        {
            let row = &self.events[n - 1];
            assert(row@ == self@.events[n - 1]);
            if text::same(row.task_id.as_str(), task_id) && (text::same(row.event.event_type.as_str(), a) || text::same(
                row.event.event_type.as_str(),
                b,
            )) {
                return n;
            }
            n = n - 1;
        }
        0
    }

    /// Opens a new attempt if and only if the task has no open attempt right now.
    pub(crate) fn open_attempt_if_needed(&mut self, task_id: &str, trace_id: Option<&str>, now: i64)
        requires
            old(self)@.wf(),
            old(self)@.has(task_id@),
            old(self)@.event_seq < i64::MAX,
            old(self)@.attempt_seq < i64::MAX,
            old(self)@.edge_seq < i64::MAX,
        ensures
            final(self)@ == old(self)@.attempt_opened(task_id@, text::opt_slice(trace_id), now),
            final(self)@.wf(),
            forall|x: Text| #[trigger] final(self)@.find(x) == old(self)@.find(x),
    {
        let i = self.find_index(task_id);
        let ghost l0 = self@;
        let ghost id = task_id@;
        let ghost trace = text::opt_slice(trace_id);
        proof {
            ledger::lemma_find(l0, id);
            assert(l0.task_sound(l0.tasks[i as int]));
        }
        let prior: Option<i64> = self.tasks[i].head.current_attempt_id;
        let count: i64 = self.tasks[i].head.attempt_count;
        assert(self.tasks@[i as int]@ == l0.tasks[i as int]);
        if let Some(aid) = prior {
            let k = self.attempt_index(aid);
            assert(self.attempts@[k as int]@ == l0.attempts[k as int]);
            if self.attempts[k].attempt.finished_at.is_none() {
                return ;
            }
        }
        let new_id: i64 = self.attempt_seq + 1;
        let num: i64 = count + 1;
        let row = AttemptRow {
            task_id: text::owned(task_id),
            attempt: AttemptView {
                attempt_id: new_id,
                attempt_num: num,
                started_at: now,
                finished_at: None,
                status: text::owned("running"),
                flow_id: None,
                flow_log_path: None,
                trace_id: text::owned_opt(trace_id),
                error_kind: None,
                error_cause: None,
                failure_class: None,
            },
        };
        let ghost rec = row@;
        assert(rec == l0.next_attempt(id, trace, now));
        proof {
            ledger::lemma_open_wf(l0, id, rec);
        }
        let mut head = self.tasks[i].head.dup();
        head.attempt_count = num;
        head.current_attempt_id = Some(new_id);
        self.put_head(i, head);
        self.attempt_seq = new_id;
        self.attempts.push(row);
        assert(self@.attempts =~= l0.attempts.push(rec));
        assert(self@ == l0.with_attempt(id, rec));
        let (legacy, json) = started_strings(new_id, num, trace_id);
        self.insert_typed_event(task_id, now, "task.attempt_started", legacy, Some(new_id), trace_id, json);
        let ghost l2 = self@;
        if let Some(prior_id) = prior {
            if num > 1 {
                let at = self.last_event_of(task_id, "task.retry_requested", "task.retry_requested");
                let trigger: Option<i64> = if at > 0 {
                    Some(self.events[at - 1].event.event_id)
                } else {
                    None
                };
                assert(trigger == l2.latest_id(id, "task.retry_requested"@)) by {
                    if at > 0 {
                        assert(self.events@[at - 1]@ == l2.events[at - 1]);
                    }
                }
                let edge = TaskEdge {
                    edge_id: 0,
                    task_id: text::owned(task_id),
                    attempt_id: Some(new_id),
                    edge_type: text::owned("retried_from"),
                    related_task_id: Some(text::owned(task_id)),
                    related_attempt_id: Some(prior_id),
                    spawned_by_event_id: trigger,
                    created_at: now,
                };
                self.push_edge(edge);
            }
        }
    }

    /// Appends an edge under the next id.
    pub(crate) fn push_edge(&mut self, edge: TaskEdge) -> (r: i64)
        requires
            old(self)@.wf(),
            old(self)@.has(edge@.task_id),
            old(self)@.edge_seq < i64::MAX,
        ensures
            final(self)@ == old(self)@.with_edge(edge@),
            r == old(self)@.edge_seq + 1,
            final(self)@.wf(),
            forall|x: Text| #[trigger] final(self)@.find(x) == old(self)@.find(x),
    {
        proof {
            ledger::lemma_edge_wf(self@, edge@);
        }
        let edge_id: i64 = self.edge_seq + 1;
        let ghost given = edge@;
        let mut row = edge;
        row.edge_id = edge_id;
        self.edge_seq = edge_id;
        self.edges.push(row);
        assert(self@.edges =~= old(self)@.with_edge(given).edges);
        edge_id
    }

    /// Closes the open attempt of a task, if any, with an outcome.
    pub(crate) fn close_open_attempt_if_any(
        &mut self,
        task_id: &str,
        new_status: &str,
        flow_id: Option<&str>,
        flow_log_path: Option<&str>,
        error_kind: Option<i64>,
        error_cause: Option<&str>,
        failure_class: Option<&str>,
        now: i64,
    )
        requires
            old(self)@.wf(),
            old(self)@.has(task_id@),
            old(self)@.event_seq < i64::MAX,
        ensures
            final(self)@ == old(self)@.attempt_closed(
                task_id@,
                new_status@,
                text::opt_slice(flow_id),
                text::opt_slice(flow_log_path),
                error_kind,
                text::opt_slice(error_cause),
                text::opt_slice(failure_class),
                now,
            ),
            final(self)@.wf(),
            forall|x: Text| #[trigger] final(self)@.find(x) == old(self)@.find(x),
    {
        let i = self.find_index(task_id);
        let ghost l0 = self@;
        let ghost id = task_id@;
        proof {
            ledger::lemma_find(l0, id);
            assert(l0.task_sound(l0.tasks[i as int]));
        }
        assert(self.tasks@[i as int]@ == l0.tasks[i as int]);
        let aid: i64 = match self.tasks[i].head.current_attempt_id {
            Some(a) => a,
            None => return ,
        };
        let k = self.attempt_index(aid);
        assert(self.attempts@[k as int]@ == l0.attempts[k as int]);
        if self.attempts[k].attempt.finished_at.is_some() {
            return ;
        }
        let prior = &self.attempts[k];
        let row = AttemptRow {
            task_id: prior.task_id.clone(),
            attempt: AttemptView {
                attempt_id: prior.attempt.attempt_id,
                attempt_num: prior.attempt.attempt_num,
                started_at: prior.attempt.started_at,
                finished_at: Some(now),
                status: text::owned(new_status),
                flow_id: pick_text(flow_id, &prior.attempt.flow_id),
                flow_log_path: pick_text(flow_log_path, &prior.attempt.flow_log_path),
                trace_id: text::copy_opt(&prior.attempt.trace_id),
                error_kind: match error_kind {
                    Some(e) => Some(e),
                    None => prior.attempt.error_kind,
                },
                error_cause: pick_text(error_cause, &prior.attempt.error_cause),
                failure_class: pick_text(failure_class, &prior.attempt.failure_class),
            },
        };
        proof {
            ledger::lemma_attempt_wf(l0, aid, row@);
        }
        self.put_attempt_row(k, row);
        let (legacy, json) = finished_strings(aid, new_status, failure_class);
        self.insert_typed_event(task_id, now, "task.attempt_finished", legacy, Some(aid), None, json);
    }

    /// Writes the post-mortem of a task that has ended, at most once.
    pub(crate) fn emit_terminal_summary(&mut self, task_id: &str, new_status: &str, now: i64)
        requires
            old(self)@.wf(),
            old(self)@.has(task_id@),
            old(self)@.event_seq < i64::MAX,
        ensures
            final(self)@ == old(self)@.summarised(task_id@, new_status@, now),
            final(self)@.wf(),
            forall|x: Text| #[trigger] final(self)@.find(x) == old(self)@.find(x),
    {
        if self.last_event_of(task_id, "task.terminal_summary", "task.terminal_summary") > 0 {
            return ;
        }
        let i = self.find_index(task_id);
        let head = &self.tasks[i].head;
        assert(self.tasks@[i as int]@ == self@.tasks[i as int]);
        let wall: i128 = match head.started_at {
            Some(s) => elapsed_secs(s, now),
            None => 0,
        };
        let class = match &head.last_failure_class {
            Some(c) => c.clone(),
            None => String::new(),
        };
        let (legacy, json) = summary_strings(new_status, head.attempt_count, head.retry_count, wall, class.as_str());
        self.insert_typed_event(task_id, now, "task.terminal_summary", legacy, None, None, json);
    }
}

} // verus!
