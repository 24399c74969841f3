//! Recovery of tasks whose deadline has passed, and of attempts that were left open.
use vstd::prelude::*;
use crate::coordinator::attempts;
use crate::coordinator::ledger::{self, Ledger, TaskStore};
use crate::coordinator::model::{AttemptRec, CoordinatorError, OwnedAttempt, TaskHeader, TaskRec};
use crate::coordinator::vocab;
use crate::json;
use crate::numeral;
use crate::text::{self, Text};

verus! {

pub open spec fn deadline_text(started: int, max: int, now: int) -> Text {
    "deadline_exceeded: started_at="@ + numeral::dec(started) + " max_runtime_secs="@ + numeral::dec(max) + " now="@
        + numeral::dec(now)
}

pub open spec fn interrupted_text(started: int, max: int, now: int) -> Text {
    "started_at="@ + numeral::dec(started) + " max_runtime_secs="@ + numeral::dec(max) + " now="@ + numeral::dec(now)
        + " reason=deadline_exceeded"@
}

pub open spec fn interrupted_json(started: int, max: int, now: int) -> Text {
    let m = json::with_number(Seq::empty(), "started_at"@, started);
    let m = json::with_number(m, "max_runtime_secs"@, max);
    let m = json::with_number(m, "now"@, now);
    let m = json::with_text(m, "reason"@, "deadline_exceeded"@);
    json::object(m)
}

pub open spec fn timed_out_text(aid: int) -> Text {
    "attempt_id="@ + numeral::dec(aid) + " status=interrupted failure_class=timeout"@
}

pub open spec fn timed_out_json(aid: int) -> Text {
    let m = json::with_number(Seq::empty(), "attempt_id"@, aid);
    let m = json::with_text(m, "status"@, "interrupted"@);
    let m = json::with_text(m, "failure_class"@, "timeout"@);
    json::object(m)
}

pub open spec fn deadline_summary_text(attempts: int, retries: int, wall: int) -> Text {
    "interrupted by deadline · attempts="@ + numeral::dec(attempts) + " retries="@ + numeral::dec(retries)
        + " wall_clock_secs="@ + numeral::dec(wall) + " last_failure_class=timeout"@
}

pub open spec fn deadline_summary_json(attempts: int, retries: int, wall: int) -> Text {
    let m = json::with_text(Seq::empty(), "reason"@, "deadline_exceeded"@);
    let m = json::with_number(m, "attempts"@, attempts);
    let m = json::with_number(m, "retries"@, retries);
    let m = json::with_number(m, "wall_clock_secs"@, wall);
    let m = json::with_text(m, "last_failure_class"@, "timeout"@);
    let m = json::with_text(m, "auto_emitted_by"@, "recover_interrupted"@);
    json::object(m)
}

pub open spec fn orphan_text(aid: int, status: Text) -> Text {
    "attempt_id="@ + numeral::dec(aid) + " closed_as=interrupted reason=orphan task_status="@ + status
}

pub open spec fn orphan_json(aid: int, status: Text) -> Text {
    let m = json::with_number(Seq::empty(), "attempt_id"@, aid);
    let m = json::with_text(m, "closed_as"@, "interrupted"@);
    let m = json::with_text(m, "reason"@, "orphan"@);
    let m = json::with_text(m, "task_status"@, status);
    json::object(m)
}

impl Ledger {
    /// When the run of a task that is looked at now began: with its current attempt, else with the task.
    pub open spec fn run_start(self, h: TaskHeader) -> Option<i64> {
        match h.current_attempt_id {
            Some(aid) => if self.has_attempt(aid) {
                Some(self.attempt(aid).attempt.started_at)
            } else {
                h.started_at
            },
            None => h.started_at,
        }
    }

    /// Whether a task is running past its deadline.
    pub open spec fn overdue(self, h: TaskHeader, now: i64) -> bool {
        &&& h.status == "running"@
        &&& h.max_runtime_secs is Some
        &&& self.run_start(h) is Some
        &&& self.run_start(h)->0 + h.max_runtime_secs->0 < now
    }

    /// The attempt in whose course a deadline passed; one that has ended already stays as it is.
    pub open spec fn attempt_timed_out(self, aid: i64, now: i64, cause: Text) -> Ledger {
        let a = self.attempt(aid);
        if a.attempt.finished_at is None {
            self.put_attempt(
                aid,
                OwnedAttempt {
                    attempt: AttemptRec {
                        finished_at: Some(now),
                        status: "interrupted"@,
                        failure_class: Some("timeout"@),
                        error_cause: Some(cause),
                        ..a.attempt
                    },
                    ..a
                },
            )
        } else {
            self
        }
    }

    /// The ledger after a task whose deadline has passed was interrupted.
    pub open spec fn interrupted(self, id: Text, now: i64) -> Ledger {
        let h = self.head(id);
        let started = self.run_start(h)->0 as int;
        let max = h.max_runtime_secs->0 as int;
        let cause = deadline_text(started, max, now as int);
        let wall = attempts::elapsed(started, now as int);
        let l = self.with_head(
            id,
            TaskHeader {
                status: "interrupted"@,
                updated_at: now,
                last_failure_reason: Some(cause),
                last_failure_class: Some("timeout"@),
                ..h
            },
        ).log(
            id,
            now,
            "task.interrupted"@,
            interrupted_text(started, max, now as int),
            h.current_attempt_id,
            None,
            interrupted_json(started, max, now as int),
        );
        let m = match h.current_attempt_id {
            Some(aid) => l.attempt_timed_out(aid, now, cause).log(
                id,
                now,
                "task.attempt_finished"@,
                timed_out_text(aid as int),
                Some(aid),
                None,
                timed_out_json(aid as int),
            ),
            None => l,
        };
        m.log(
            id,
            now,
            "task.terminal_summary"@,
            deadline_summary_text(h.attempt_count as int, h.retry_count as int, wall),
            h.current_attempt_id,
            None,
            deadline_summary_json(h.attempt_count as int, h.retry_count as int, wall),
        )
    }

    /// The first `n` tasks in turn, each interrupted where its deadline has passed, and their ids.
    pub open spec fn recovered_first(self, now: i64, n: int) -> (Ledger, Seq<Text>)
        decreases n,
    {
        if n <= 0 {
            (self, Seq::empty())
        } else {
            let (l, ids) = self.recovered_first(now, n - 1);
            let h = l.tasks[n - 1].head;
            if l.overdue(h, now) {
                (l.interrupted(h.task_id, now), ids.push(h.task_id))
            } else {
                (l, ids)
            }
        }
    }

    /// Whether an attempt is open although its task has ended.
    pub open spec fn orphaned(self, a: OwnedAttempt) -> bool {
        a.attempt.finished_at is None && vocab::terminal(self.head(a.task_id).status)
    }

    /// The ledger after an orphaned attempt was closed.
    pub open spec fn orphan_closed(self, k: int, now: i64) -> Ledger {
        let a = self.attempts[k];
        let aid = a.attempt.attempt_id;
        let status = self.head(a.task_id).status;
        let closed = OwnedAttempt {
            attempt: AttemptRec {
                finished_at: Some(now),
                status: "interrupted"@,
                failure_class: attempts::coalesce(a.attempt.failure_class, Some("orphan"@)),
                error_cause: attempts::coalesce(
                    a.attempt.error_cause,
                    Some("attempt left open while task reached terminal status"@),
                ),
                ..a.attempt
            },
            ..a
        };
        Ledger { attempts: self.attempts.update(k, closed), ..self }.log(
            a.task_id,
            now,
            "task.attempt_orphan_closed"@,
            orphan_text(aid as int, status),
            Some(aid),
            None,
            orphan_json(aid as int, status),
        )
    }

    /// The first `n` attempts in turn, each closed where it is orphaned, and their ids.
    pub open spec fn orphans_closed_first(self, now: i64, n: int) -> (Ledger, Seq<i64>)
        decreases n,
    {
        if n <= 0 {
            (self, Seq::empty())
        } else {
            let (l, ids) = self.orphans_closed_first(now, n - 1);
            let a = l.attempts[n - 1];
            if l.orphaned(a) {
                (l.orphan_closed(n - 1, now), ids.push(a.attempt.attempt_id))
            } else {
                (l, ids)
            }
        }
    }

    /// What closing orphaned attempts does and returns.
    pub open spec fn orphans_closed(self, now: i64) -> (Ledger, Seq<i64>) {
        self.orphans_closed_first(now, self.attempts.len() as int)
    }

    /// What the recovery scan does and returns.
    pub open spec fn recovered(self, now: i64) -> (Ledger, Seq<Text>) {
        let (l, ids) = self.recovered_first(now, self.tasks.len() as int);
        (l.orphans_closed(now).0, ids)
    }
}

fn deadline_string(started: i64, max: i64, now: i64) -> (r: String)
    ensures
        r@ == deadline_text(started as int, max as int, now as int),
{
    let mut a = text::owned("deadline_exceeded: started_at=");
    numeral::push_i64(&mut a, started);
    a.append(" max_runtime_secs=");
    numeral::push_i64(&mut a, max);
    a.append(" now=");
    numeral::push_i64(&mut a, now);
    a
}

fn interrupted_strings(started: i64, max: i64, now: i64) -> (r: (String, String))
    ensures
        r.0@ == interrupted_text(started as int, max as int, now as int),
        r.1@ == interrupted_json(started as int, max as int, now as int),
{
    let mut a = text::owned("started_at=");
    numeral::push_i64(&mut a, started);
    a.append(" max_runtime_secs=");
    numeral::push_i64(&mut a, max);
    a.append(" now=");
    numeral::push_i64(&mut a, now);
    a.append(" reason=deadline_exceeded");
    let mut b = json::Members::new();
    b.number("started_at", started as i128);
    b.number("max_runtime_secs", max as i128);
    b.number("now", now as i128);
    b.text("reason", "deadline_exceeded");
    (a, b.object())
}

fn timed_out_strings(aid: i64) -> (r: (String, String))
    ensures
        r.0@ == timed_out_text(aid as int),
        r.1@ == timed_out_json(aid as int),
{
    let mut a = text::owned("attempt_id=");
    numeral::push_i64(&mut a, aid);
    a.append(" status=interrupted failure_class=timeout");
    let mut b = json::Members::new();
    b.number("attempt_id", aid as i128);
    b.text("status", "interrupted");
    b.text("failure_class", "timeout");
    (a, b.object())
}

fn deadline_summary_strings(attempts: i64, retries: i64, wall: i128) -> (r: (String, String))
    requires
        wall > i128::MIN,
    ensures
        r.0@ == deadline_summary_text(attempts as int, retries as int, wall as int),
        r.1@ == deadline_summary_json(attempts as int, retries as int, wall as int),
{
    let mut a = text::owned("interrupted by deadline · attempts=");
    numeral::push_i64(&mut a, attempts);
    a.append(" retries=");
    numeral::push_i64(&mut a, retries);
    a.append(" wall_clock_secs=");
    numeral::push_int(&mut a, wall);
    a.append(" last_failure_class=timeout");
    let mut b = json::Members::new();
    b.text("reason", "deadline_exceeded");
    b.number("attempts", attempts as i128);
    b.number("retries", retries as i128);
    b.number("wall_clock_secs", wall);
    b.text("last_failure_class", "timeout");
    b.text("auto_emitted_by", "recover_interrupted");
    (a, b.object())
}

fn orphan_strings(aid: i64, status: &str) -> (r: (String, String))
    ensures
        r.0@ == orphan_text(aid as int, status@),
        r.1@ == orphan_json(aid as int, status@),
{
    let mut a = text::owned("attempt_id=");
    numeral::push_i64(&mut a, aid);
    a.append(" closed_as=interrupted reason=orphan task_status=");
    a.append(status);
    let mut b = json::Members::new();
    b.number("attempt_id", aid as i128);
    b.text("closed_as", "interrupted");
    b.text("reason", "orphan");
    b.text("task_status", status);
    (a, b.object())
}

impl TaskStore {
    /// When the run of the task at a place began.
    pub(crate) fn run_start_of(&self, i: usize) -> (r: Option<i64>)
        requires
            self.wf(),
            i < self.tasks@.len(),
        ensures
            r == self@.run_start(self@.tasks[i as int].head),
    {
        assert(self@.task_sound(self@.tasks[i as int]));
        assert(self.tasks@[i as int]@ == self@.tasks[i as int]);
        match self.tasks[i].head.current_attempt_id {
            Some(aid) => {
                let k = self.attempt_index(aid);
                assert(self.attempts@[k as int]@ == self@.attempts[k as int]);
                Some(self.attempts[k].attempt.started_at)
            },
            None => self.tasks[i].head.started_at,
        }
    }

    fn interrupt(&mut self, i: usize, started: i64, max: i64, now: i64)
        requires
            old(self).wf(),
            i < old(self).tasks@.len(),
            old(self)@.run_start(old(self)@.tasks[i as int].head) == Some(started),
            old(self)@.tasks[i as int].head.max_runtime_secs == Some(max),
            old(self)@.event_seq + 3 <= i64::MAX,
        ensures
            final(self)@ == old(self)@.interrupted(old(self)@.tasks[i as int].head.task_id, now),
            final(self).wf(),
            final(self)@.tasks.len() == old(self)@.tasks.len(),
            final(self)@.attempts.len() == old(self)@.attempts.len(),
            final(self)@.event_seq <= old(self)@.event_seq + 3,
    {
        let ghost l0 = self@;
        let ghost id = l0.tasks[i as int].head.task_id;
        proof {
            ledger::lemma_find_is(l0, i as int);
            assert(l0.task_sound(l0.tasks[i as int]));
        }
        assert(self.tasks@[i as int]@ == l0.tasks[i as int]);
        let task_id = self.tasks[i].head.task_id.clone();
        let current: Option<i64> = self.tasks[i].head.current_attempt_id;
        let attempt_count: i64 = self.tasks[i].head.attempt_count;
        let retry_count: i64 = self.tasks[i].head.retry_count;
        let cause = deadline_string(started, max, now);
        let mut head = self.tasks[i].head.dup();
        head.status = text::owned("interrupted");
        head.updated_at = now;
        head.last_failure_reason = Some(cause.clone());
        head.last_failure_class = Some(text::owned("timeout"));
        proof {
            ledger::lemma_put_wf(l0, id, TaskRec { head: head@, ..l0.task(id) });
        }
        self.put_head(i, head);
        let (a, b) = interrupted_strings(started, max, now);
        self.insert_typed_event(task_id.as_str(), now, "task.interrupted", a, current, None, b);
        if let Some(aid) = current {
            let ghost l2 = self@;
            let k = self.attempt_index(aid);
            assert(l2.attempts == l0.attempts);
            assert(self.attempts@[k as int]@ == l2.attempts[k as int]);
            if self.attempts[k].attempt.finished_at.is_none() {
                let mut row = self.attempts[k].dup();
                row.attempt.finished_at = Some(now);
                row.attempt.status = text::owned("interrupted");
                row.attempt.failure_class = Some(text::owned("timeout"));
                row.attempt.error_cause = Some(cause);
                proof {
                    ledger::lemma_attempt_wf(l2, aid, row@);
                }
                self.put_attempt_row(k, row);
            }
            let (c, d) = timed_out_strings(aid);
            self.insert_typed_event(task_id.as_str(), now, "task.attempt_finished", c, Some(aid), None, d);
        }
        let wall: i128 = attempts::elapsed_secs(started, now);
        let (e, f) = deadline_summary_strings(attempt_count, retry_count, wall);
        self.insert_typed_event(task_id.as_str(), now, "task.terminal_summary", e, current, None, f);
    }

    /// Interrupts every task that is running past its deadline and closes its attempt; then closes
    /// attempts that were left open by tasks that have ended. Returns the interrupted tasks.
    pub fn recover_interrupted(&mut self, now_secs: i64) -> (r: Result<Vec<String>, CoordinatorError>)
        requires
            old(self).wf(),
            old(self)@.roomy(),
        ensures
            r matches Ok(ids) && (final(self)@, text::texts(ids@)) == old(self)@.recovered(now_secs),
            final(self).wf(),
    {
        let ghost l0 = self@;
        let mut out: Vec<String> = Vec::new();
        let mut i: usize = 0;
        assert(text::texts(out@) =~= Seq::empty());
        while i < self.tasks.len()
            invariant
                self.wf(),
                l0.roomy(),
                i <= self@.tasks.len(),
                self@.tasks.len() == l0.tasks.len(),
                self@.attempts.len() == l0.attempts.len(),
                self@.event_seq <= l0.event_seq + 3 * i,
                (self@, text::texts(out@)) == l0.recovered_first(now_secs, i as int),
            decreases self@.tasks.len() - i,
        {
            let ghost l1 = self@;
            let ghost before = text::texts(out@);
            assert(self.tasks@[i as int]@ == l1.tasks[i as int]);
            let started = self.run_start_of(i);
            let max: Option<i64> = self.tasks[i].head.max_runtime_secs;
            let running = text::same(self.tasks[i].head.status.as_str(), "running");
            if let (Some(s), Some(m)) = (started, max) {
                if running && (s as i128) + (m as i128) < now_secs as i128 {
                    assert(l1.overdue(l1.tasks[i as int].head, now_secs));
                    let tid = self.tasks[i].head.task_id.clone();
                    let ghost id = tid@;
                    self.interrupt(i, s, m, now_secs);
                    out.push(tid);
                    assert(text::texts(out@) =~= before.push(id));
                }
            }
            i = i + 1;
        }
        let _ = self.close_orphans(now_secs);
        Ok(out)
    }

    fn close_orphan(&mut self, k: usize, now: i64)
        requires
            old(self).wf(),
            k < old(self).attempts@.len(),
            old(self)@.event_seq < i64::MAX,
        ensures
            final(self)@ == old(self)@.orphan_closed(k as int, now),
            final(self).wf(),
            final(self)@.event_seq == old(self)@.event_seq + 1,
            final(self)@.attempts.len() == old(self)@.attempts.len(),
    {
        let ghost l0 = self@;
        let ghost a = l0.attempts[k as int];
        assert(self.attempts@[k as int]@ == a);
        let mut row = self.attempts[k].dup();
        let task_id = row.task_id.clone();
        let aid: i64 = row.attempt.attempt_id;
        let i = self.find_index(task_id.as_str());
        proof {
            assert(l0.has(a.task_id));
            ledger::lemma_attempt_is(l0, k as int);
        }
        let status = self.tasks[i].head.status.clone();
        assert(self.tasks@[i as int]@ == l0.tasks[i as int]);
        row.attempt.finished_at = Some(now);
        row.attempt.status = text::owned("interrupted");
        if row.attempt.failure_class.is_none() {
            row.attempt.failure_class = Some(text::owned("orphan"));
        }
        if row.attempt.error_cause.is_none() {
            row.attempt.error_cause = Some(text::owned("attempt left open while task reached terminal status"));
        }
        proof {
            ledger::lemma_attempt_wf(l0, aid, row@);
        }
        self.put_attempt_row(k, row);
        let (legacy, json) = orphan_strings(aid, status.as_str());
        self.insert_typed_event(task_id.as_str(), now, "task.attempt_orphan_closed", legacy, Some(aid), None, json);
    }

    fn close_orphans(&mut self, now: i64) -> (r: Vec<i64>)
        requires
            old(self).wf(),
            old(self)@.event_seq + old(self)@.attempts.len() <= i64::MAX,
        ensures
            (final(self)@, r@) == old(self)@.orphans_closed(now),
            final(self).wf(),
    {
        let ghost l0 = self@;
        let mut out: Vec<i64> = Vec::new();
        let mut k: usize = 0;
        assert(out@ =~= Seq::empty());
        while k < self.attempts.len()
            invariant
                self.wf(),
                k <= self@.attempts.len(),
                self@.attempts.len() == l0.attempts.len(),
                self@.event_seq <= l0.event_seq + k,
                l0.event_seq + l0.attempts.len() <= i64::MAX,
                (self@, out@) == l0.orphans_closed_first(now, k as int),
            decreases self@.attempts.len() - k,
        {
            let ghost l1 = self@;
            assert(self.attempts@[k as int]@ == l1.attempts[k as int]);
            assert(l1.has(l1.attempts[k as int].task_id));
            let open = self.attempts[k].attempt.finished_at.is_none();
            let i = self.find_index(self.attempts[k].task_id.as_str());
            assert(self.tasks@[i as int]@ == l1.tasks[i as int]);
            if open && vocab::is_terminal(self.tasks[i].head.status.as_str()) {
                let aid: i64 = self.attempts[k].attempt.attempt_id;
                self.close_orphan(k, now);
                out.push(aid);
            }
            k = k + 1;
        }
        out
    }

    /// Closes attempts that are open although their task has ended, and returns their ids.
    pub fn close_orphan_attempts(&mut self, now_secs: i64) -> (r: Result<Vec<i64>, CoordinatorError>)
        requires
            old(self).wf(),
            old(self)@.roomy(),
        ensures
            r matches Ok(ids) && (final(self)@, ids@) == old(self)@.orphans_closed(now_secs),
            final(self).wf(),
    {
        Ok(self.close_orphans(now_secs))
    }
}

} // verus!
