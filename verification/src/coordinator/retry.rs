//! Operator-initiated retries.
use vstd::prelude::*;
use crate::coordinator::ledger::{self, Ledger, TaskStore};
use crate::coordinator::model::{self, CoordinatorError, Fault, TaskHeader, TaskRec};
use crate::coordinator::vocab::{RetryDecision, RetryVerdict};
use crate::json;
use crate::numeral;
use crate::outside;
use crate::text::{self, Text};

verus! {

/// How many retries the policy of a task permits.
pub open spec fn retry_budget(h: TaskHeader) -> int {
    if h.retry_policy == "once"@ {
        1
    } else if h.retry_policy == "bounded"@ {
        if h.max_retries > 0 {
            h.max_retries as int
        } else {
            0
        }
    } else {
        0
    }
}

pub open spec fn suppressed_text(status: Text) -> Text {
    "retry suppressed: task is `"@ + status + "` (cooperative interruption)"@
}

pub open spec fn suppressed_json(status: Text, retry_count: int, budget: int) -> Text {
    let m = json::with_text(Seq::empty(), "suppressed_by"@, status);
    let m = json::with_number(m, "retry_count"@, retry_count);
    let m = json::with_number(m, "budget"@, budget);
    json::object(m)
}

pub open spec fn suppressed_reason(status: Text) -> Text {
    "task is `"@ + status
        + "` — retry suppressed by cooperative interruption (clear via task.resume / task.unfreeze)"@
}

pub open spec fn wrong_status_reason(status: Text) -> Text {
    "task is in status `"@ + status + "`, not failed/interrupted"@
}

pub open spec fn exhausted_text(retry_count: int, budget: int, policy: Text) -> Text {
    "retry_count="@ + numeral::dec(retry_count) + " budget="@ + numeral::dec(budget) + " policy="@ + policy
}

pub open spec fn exhausted_json(retry_count: int, budget: int, policy: Text) -> Text {
    let m = json::with_number(Seq::empty(), "retry_count"@, retry_count);
    let m = json::with_number(m, "budget"@, budget);
    let m = json::with_text(m, "policy"@, policy);
    json::object(m)
}

pub open spec fn requested_text(attempt: int, budget: int, policy: Text, prior: Text) -> Text {
    "attempt="@ + numeral::dec(attempt) + " of_budget="@ + numeral::dec(budget) + " policy="@ + policy
        + " prior_class="@ + prior
}

pub open spec fn requested_json(attempt: int, budget: int, policy: Text, prior: Text) -> Text {
    let m = json::with_number(Seq::empty(), "attempt"@, attempt);
    let m = json::with_number(m, "of_budget"@, budget);
    let m = json::with_text(m, "policy"@, policy);
    let m = json::with_text(m, "prior_class"@, prior);
    json::object(m)
}

/// The last failure class as it is shown; a dash where there is none.
pub open spec fn prior_class(h: TaskHeader) -> Text {
    match h.last_failure_class {
        Some(c) => c,
        None => "-"@,
    }
}

impl Ledger {
    /// What a retry request does and returns.
    pub open spec fn retry_requested(self, now: i64, id: Text) -> (Ledger, Result<RetryVerdict, Fault>) {
        if !self.has(id) {
            (self, Err(Fault::NotFound(id)))
        } else {
            let h = self.head(id);
            let count = h.retry_count as int;
            let budget = retry_budget(h);
            if h.status == "paused"@ || h.status == "frozen"@ {
                (
                    self.log(
                        id,
                        now,
                        "task.retry_suppressed"@,
                        suppressed_text(h.status),
                        None,
                        None,
                        suppressed_json(h.status, count, h.max_retries as int),
                    ),
                    Ok(RetryVerdict::Rejected { reason: suppressed_reason(h.status) }),
                )
            } else if h.status != "failed"@ && h.status != "interrupted"@ {
                (self, Ok(RetryVerdict::Rejected { reason: wrong_status_reason(h.status) }))
            } else if h.retry_policy == "none"@ {
                (self, Ok(RetryVerdict::Rejected { reason: "retry_policy=none on this"@ + " task"@ }))
            } else if count >= budget {
                (
                    self.log(
                        id,
                        now,
                        "task.retry_exhausted"@,
                        exhausted_text(count, budget, h.retry_policy),
                        None,
                        None,
                        exhausted_json(count, budget, h.retry_policy),
                    ),
                    Ok(RetryVerdict::Exhausted { retry_count: count, budget }),
                )
            } else {
                (
                    self.with_head(
                        id,
                        TaskHeader {
                            status: "retrying"@,
                            retry_count: (count + 1) as i64,
                            updated_at: now,
                            error_kind: None,
                            error_cause: None,
                            ..h
                        },
                    ).log(
                        id,
                        now,
                        "task.retry_requested"@,
                        requested_text(count + 1, budget, h.retry_policy, prior_class(h)),
                        None,
                        None,
                        requested_json(count + 1, budget, h.retry_policy, prior_class(h)),
                    ),
                    Ok(RetryVerdict::Accepted { new_retry_count: count + 1, budget }),
                )
            }
        }
    }
}

fn suppressed_strings(status: &str, retry_count: i64, budget: i64) -> (r: (String, String, String))
    ensures
        r.0@ == suppressed_text(status@),
        r.1@ == suppressed_json(status@, retry_count as int, budget as int),
        r.2@ == suppressed_reason(status@),
{
    let mut a = text::owned("retry suppressed: task is `");
    a.append(status);
    a.append("` (cooperative interruption)");
    let mut b = json::Members::new();
    b.text("suppressed_by", status);
    b.number("retry_count", retry_count as i128);
    b.number("budget", budget as i128);
    let mut c = text::owned("task is `");
    c.append(status);
    c.append("` — retry suppressed by cooperative interruption (clear via task.resume / task.unfreeze)");
    (a, b.object(), c)
}

fn exhausted_strings(retry_count: i64, budget: i64, policy: &str) -> (r: (String, String))
    ensures
        r.0@ == exhausted_text(retry_count as int, budget as int, policy@),
        r.1@ == exhausted_json(retry_count as int, budget as int, policy@),
{
    let mut a = text::owned("retry_count=");
    numeral::push_i64(&mut a, retry_count);
    a.append(" budget=");
    numeral::push_i64(&mut a, budget);
    a.append(" policy=");
    a.append(policy);
    let mut b = json::Members::new();
    b.number("retry_count", retry_count as i128);
    b.number("budget", budget as i128);
    b.text("policy", policy);
    (a, b.object())
}

fn requested_strings(attempt: i64, budget: i64, policy: &str, prior: &str) -> (r: (String, String))
    ensures
        r.0@ == requested_text(attempt as int, budget as int, policy@, prior@),
        r.1@ == requested_json(attempt as int, budget as int, policy@, prior@),
{
    let mut a = text::owned("attempt=");
    numeral::push_i64(&mut a, attempt);
    a.append(" of_budget=");
    numeral::push_i64(&mut a, budget);
    a.append(" policy=");
    a.append(policy);
    a.append(" prior_class=");
    a.append(prior);
    let mut b = json::Members::new();
    b.number("attempt", attempt as i128);
    b.number("of_budget", budget as i128);
    b.text("policy", policy);
    b.text("prior_class", prior);
    (a, b.object())
}

impl TaskStore {
    /// Requests a retry at a given time.
    pub fn request_retry_at(&mut self, now: i64, task_id: &str) -> (r: Result<RetryDecision, CoordinatorError>)
        requires
            old(self).wf(),
            old(self)@.roomy(),
        ensures
            (final(self)@, model::seen(r)) == old(self)@.retry_requested(now, task_id@),
            final(self).wf(),
    {
        let i = self.find_index(task_id);
        if i >= self.tasks.len() {
            return Err(CoordinatorError::NotFound(text::owned(task_id)));
        }
        let ghost l0 = self@;
        let ghost id = task_id@;
        assert(self.tasks@[i as int]@ == l0.tasks[i as int]);
        let mut head = self.tasks[i].head.dup();
        let status = head.status.clone();
        let policy = head.retry_policy.clone();
        let retry_count: i64 = head.retry_count;
        if text::same(status.as_str(), "paused") || text::same(status.as_str(), "frozen") {
            let (legacy, json, reason) = suppressed_strings(status.as_str(), retry_count, head.max_retries);
            self.insert_typed_event(task_id, now, "task.retry_suppressed", legacy, None, None, json);
            return Ok(RetryDecision::Rejected { reason });
        }
        if !text::same(status.as_str(), "failed") && !text::same(status.as_str(), "interrupted") {
            let mut reason = text::owned("task is in status `");
            reason.append(status.as_str());
            reason.append("`, not failed/interrupted");
            return Ok(RetryDecision::Rejected { reason });
        }
        if text::same(policy.as_str(), "none") {
            return Ok(RetryDecision::Rejected { reason: text::owned("retry_policy=none on this").concat(" task") });
        }
        let budget: i64 = if text::same(policy.as_str(), "once") {
            1
        } else if text::same(policy.as_str(), "bounded") {
            if head.max_retries > 0 {
                head.max_retries
            } else {
                0
            }
        } else {
            0
        };
        if retry_count >= budget {
            let (legacy, json) = exhausted_strings(retry_count, budget, policy.as_str());
            self.insert_typed_event(task_id, now, "task.retry_exhausted", legacy, None, None, json);
            return Ok(RetryDecision::Exhausted { retry_count, budget });
        }
        let new_count: i64 = retry_count + 1;
        let prior = match &head.last_failure_class {
            Some(c) => c.clone(),
            None => text::owned("-"),
        };
        let (legacy, json) = requested_strings(new_count, budget, policy.as_str(), prior.as_str());
        head.status = text::owned("retrying");
        head.retry_count = new_count;
        head.updated_at = now;
        head.error_kind = None;
        head.error_cause = None;
        proof {
            ledger::lemma_find(l0, id);
            assert(l0.task_sound(l0.tasks[i as int]));
            ledger::lemma_put_wf(l0, id, TaskRec { head: head@, ..l0.task(id) });
        }
        self.put_head(i, head);
        self.insert_typed_event(task_id, now, "task.retry_requested", legacy, None, None, json);
        Ok(RetryDecision::Accepted { new_retry_count: new_count, budget })
    }

    /// Operator-initiated retry request: checks status, policy and budget and, where they permit it,
    /// moves the task to `retrying`. Opens no attempt and runs nothing.
    pub fn request_retry(&mut self, task_id: &str) -> (r: Result<RetryDecision, CoordinatorError>)
        requires
            old(self).wf(),
            old(self)@.roomy(),
        ensures
            exists|now: i64| (final(self)@, model::seen(r)) == #[trigger] old(self)@.retry_requested(now, task_id@),
            final(self).wf(),
    {
        let now = outside::unix_secs();
        self.request_retry_at(now, task_id)
    }
}

} // verus!
