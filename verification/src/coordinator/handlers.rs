//! The capabilities that change the ledger: what their arguments mean and what they reply.
use vstd::prelude::*;
use crate::coordinator::edges;
use crate::coordinator::ledger::{Ledger, TaskStore};
use crate::coordinator::model::{CoordinatorError, EdgeProducerOutcome, Fault};
use crate::coordinator::render;
use crate::coordinator::todo;
use crate::coordinator::update::{self, ChangeRec, TaskChange};
use crate::coordinator::vocab::{FailureClass, RetryDecision, RetryPolicy, RetryVerdict};
use crate::dispatch::{self, CallRec, HandlerOutcome, InvocationCtx, Reply};
use crate::numeral;
use crate::redaction;
use crate::text::{self, Text};

verus! {

/// The reply to an operation that failed: what is missing or invalid is the caller's fault.
pub open spec fn fault_reply(name: Text, f: Fault) -> Reply {
    match f {
        Fault::NotFound(id) => Reply::invalid(name + ": not found: "@ + id),
        Fault::Invalid(m) => Reply::invalid(m),
        _ => Reply::internal(name + ": "@ + f.message()),
    }
}

/// The same of an operation that only what is missing makes the caller's fault.
pub open spec fn strict_reply(name: Text, f: Fault) -> Reply {
    match f {
        Fault::NotFound(id) => Reply::invalid(name + ": not found: "@ + id),
        _ => Reply::internal(name + ": "@ + f.message()),
    }
}

/// The same of an operation for which no failure is the caller's fault.
pub open spec fn internal_reply(name: Text, f: Fault) -> Reply {
    Reply::internal(name + ": "@ + f.message())
}

pub(crate) fn fault_outcome(name: &str, e: &CoordinatorError) -> (r: HandlerOutcome)
    ensures
        r@ == fault_reply(name@, e@),
{
    match e {
        CoordinatorError::NotFound(id) => dispatch::invalid(dispatch::glue(name, ": not found: ").concat(id.as_str())),
        CoordinatorError::Invalid(m) => dispatch::invalid(m.clone()),
        _ => {
            let m = e.message();
            dispatch::internal(dispatch::glue(name, ": ").concat(m.as_str()))
        },
    }
}

pub(crate) fn strict_outcome(name: &str, e: &CoordinatorError) -> (r: HandlerOutcome)
    ensures
        r@ == strict_reply(name@, e@),
{
    match e {
        CoordinatorError::NotFound(id) => dispatch::invalid(dispatch::glue(name, ": not found: ").concat(id.as_str())),
        _ => {
            let m = e.message();
            dispatch::internal(dispatch::glue(name, ": ").concat(m.as_str()))
        },
    }
}

pub(crate) fn internal_outcome(name: &str, e: &CoordinatorError) -> (r: HandlerOutcome)
    ensures
        r@ == internal_reply(name@, e@),
{
    let m = e.message();
    dispatch::internal(dispatch::glue(name, ": ").concat(m.as_str()))
}

/// What the arguments of `task.create` ask for, or why they are refused.
pub open spec fn create_policy(word: Text) -> Option<RetryPolicy> {
    if word.len() == 0 {
        Some(RetryPolicy::Never)
    } else {
        RetryPolicy::of_word(word)
    }
}

pub open spec fn create_retries(word: Text) -> Option<i64> {
    if word.len() == 0 {
        Some(0)
    } else {
        match numeral::parse_i64(word) {
            Some(v) => if v >= 0 {
                Some(v)
            } else {
                None
            },
            None => None,
        }
    }
}

/// A run time limit: `None` where the word is malformed, `Some(None)` where there is no limit.
pub open spec fn create_runtime(word: Text) -> Option<Option<i64>> {
    if word.len() == 0 {
        Some(None)
    } else {
        match numeral::parse_i64(word) {
            Some(v) => if v > 0 {
                Some(Some(v))
            } else {
                None
            },
            None => None,
        }
    }
}

/// What `task.create` does and replies.
pub open spec fn create_reply(l: Ledger, call: CallRec, now: i64, fresh: Option<Text>) -> (Ledger, Reply) {
    match call.text() {
        None => (l, call.bad_utf8("task.create utf8: "@)),
        Some(s) => {
            let p = text::splitn(s, '|', 8);
            let title = text::field(p, 0);
            let template = text::field(p, 1);
            let owner = text::field(p, 3);
            let policy = text::field(p, 4);
            let retries = text::field(p, 5);
            let runtime = text::field(p, 6);
            if title.len() == 0 || template.len() == 0 {
                (l, Reply::invalid("task.create: `title` and `flow_template` are required"@))
            } else if create_policy(policy) is None {
                (l, Reply::invalid("task.create: bad retry_policy: "@ + policy))
            } else if create_retries(retries) is None {
                (l, Reply::invalid("task.create: bad max_retries: "@ + retries))
            } else if create_runtime(runtime) is None {
                (l, Reply::invalid("task.create: bad max_runtime_secs: "@ + runtime))
            } else {
                let (m, r) = l.created_fresh(
                    fresh,
                    update::new_row(
                        now,
                        Seq::empty(),
                        title,
                        template,
                        text::field(p, 2),
                        if owner.len() == 0 {
                            call.caller
                        } else {
                            owner
                        },
                        create_policy(policy)->0,
                        create_retries(retries)->0,
                        create_runtime(runtime)->0,
                        text::non_empty(Some(text::trim(text::field(p, 7)))),
                    ),
                );
                (
                    m,
                    match r {
                        Ok(made) => Reply::body(made),
                        Err(f) => internal_reply("task.create"@, f),
                    },
                )
            }
        },
    }
}

/// `task.create`: makes a task at a given time under a fresh id.
pub fn handle_create(store: &mut TaskStore, ctx: &InvocationCtx, now: i64, fresh: Option<String>) -> (r: HandlerOutcome)
    requires
        old(store).wf(),
    ensures
        (final(store)@, r@) == create_reply(old(store)@, ctx@, now, text::opt_text(fresh)),
        final(store).wf(),
{
    let s = match ctx.text_or("task.create utf8: ") {
        Ok(s) => s,
        Err(e) => return e,
    };
    let p = text::cut_n(s.as_str(), '|', 8);
    let title = text::field_of(&p, 0);
    let template = text::field_of(&p, 1);
    let params = text::field_of(&p, 2);
    let owner_field = text::field_of(&p, 3);
    let policy_word = text::field_of(&p, 4);
    let retries_word = text::field_of(&p, 5);
    let runtime_word = text::field_of(&p, 6);
    let origin_field = text::trimmed(text::field_of(&p, 7));
    if title.is_empty() || template.is_empty() {
        return dispatch::invalid(text::owned("task.create: `title` and `flow_template` are required"));
    }
    let owner = if owner_field.is_empty() {
        ctx.caller_subject_id.as_str()
    } else {
        owner_field
    };
    let policy = if policy_word.is_empty() {
        RetryPolicy::Never
    } else {
        match RetryPolicy::parse(policy_word) {
            Some(x) => x,
            None => return dispatch::invalid(dispatch::glue("task.create: bad retry_policy: ", policy_word)),
        }
    };
    let mut retries: i64 = 0;
    if !retries_word.is_empty() {
        match numeral::read_i64(retries_word) {
            Some(v) => {
                if v < 0 {
                    return dispatch::invalid(dispatch::glue("task.create: bad max_retries: ", retries_word));
                }
                retries = v;
            },
            None => return dispatch::invalid(dispatch::glue("task.create: bad max_retries: ", retries_word)),
        }
    }
    let mut runtime: Option<i64> = None;
    if !runtime_word.is_empty() {
        match numeral::read_i64(runtime_word) {
            Some(v) => {
                if v <= 0 {
                    return dispatch::invalid(dispatch::glue("task.create: bad max_runtime_secs: ", runtime_word));
                }
                runtime = Some(v);
            },
            None => return dispatch::invalid(dispatch::glue("task.create: bad max_runtime_secs: ", runtime_word)),
        }
    }
    let origin = text::filled_opt(Some(origin_field.as_str()));
    match store.create_fresh(now, fresh, title, template, params, owner, policy, retries, runtime, origin) {
        Ok(id) => dispatch::body(id),
        Err(e) => internal_outcome("task.create", &e),
    }
}

/// Whether a character is a hexadecimal digit.
pub open spec fn is_hex(c: char) -> bool {
    let n = c as int;
    48 <= n <= 57 || 65 <= n <= 70 || 97 <= n <= 102
}

/// Whether a text is a trace id.
pub open spec fn is_trace_id(t: Text) -> bool {
    text::byte_len(t) == 32 && forall|i: int| 0 <= i < t.len() ==> is_hex(#[trigger] t[i])
}

fn trace_id_ok(s: &str) -> (r: bool)
    ensures
        r == is_trace_id(s@),
{
    if text::len_bytes(s) != 32 {
        return false;
    }
    let v = text::chars_of(s);
    let mut i: usize = 0;
    while i < v.len()
        invariant
            v@ == s@,
            i <= v@.len(),
            forall|k: int| 0 <= k < i ==> is_hex(#[trigger] v@[k]),
        decreases v@.len() - i,
    {
        let c = v[i];
        let hex = (c >= '0' && c <= '9') || (c >= 'A' && c <= 'F') || (c >= 'a' && c <= 'f');
        if !hex {
            return false;
        }
        i = i + 1;
    }
    true
}

/// The change that the arguments of `task.update` describe.
pub open spec fn update_change(p: Seq<Text>) -> ChangeRec {
    ChangeRec {
        status: text::non_empty(Some(text::field(p, 1))),
        result: text::non_empty(Some(text::field(p, 2))),
        flow_id: text::non_empty(Some(text::field(p, 3))),
        flow_log_path: text::non_empty(Some(text::field(p, 4))),
        error_kind: match text::non_empty(Some(text::field(p, 5))) {
            Some(t) => numeral::parse_i64(t),
            None => None,
        },
        error_cause: text::non_empty(Some(text::field(p, 6))),
        failure_class: text::non_empty(Some(text::field(p, 7))),
        trace_id: text::non_empty(Some(text::field(p, 8))),
    }
}

/// The error cause in the arguments of `task.update`.
pub open spec fn update_cause(call: CallRec) -> Option<Text> {
    match call.text() {
        Some(s) => text::non_empty(Some(text::field(text::splitn(s, '|', 9), 6))),
        None => None,
    }
}

/// What `task.update` does and replies; `safe` is the scrubbed error cause.
pub open spec fn update_reply(l: Ledger, call: CallRec, now: i64, safe: Option<Text>) -> (Ledger, Reply) {
    match call.text() {
        None => (l, call.bad_utf8("task.update utf8: "@)),
        Some(s) => {
            let p = text::splitn(s, '|', 9);
            let id = text::field(p, 0);
            let c = update_change(p);
            if id.len() == 0 {
                (l, Reply::invalid("task.update: task_id required"@))
            } else if c.failure_class is Some && FailureClass::of_word(c.failure_class->0) is None {
                (l, Reply::invalid("task.update: bad failure_class: "@ + c.failure_class->0))
            } else if c.trace_id is Some && !is_trace_id(c.trace_id->0) {
                (l, Reply::invalid("task.update: bad trace_id (want 32 hex chars): "@ + c.trace_id->0))
            } else {
                let (m, r) = l.updated(now, id, c, safe);
                (
                    m,
                    match r {
                        Ok(_) => Reply::body("ok\n"@),
                        Err(f) => strict_reply("task.update"@, f),
                    },
                )
            }
        },
    }
}

/// `task.update`: changes a task at a given time.
pub fn handle_update<R: Fn(&str) -> String>(store: &mut TaskStore, ctx: &InvocationCtx, now: i64, redact: &R) -> (r: HandlerOutcome)
    requires
        old(store).wf(),
        old(store)@.roomy(),
        redaction::total(*redact),
    ensures
        exists|safe: Option<Text>|
            redaction::redacts_opt(*redact, update_cause(ctx@), safe) && (final(store)@, r@) == #[trigger] update_reply(
                old(store)@,
                ctx@,
                now,
                safe,
            ),
        final(store).wf(),
{
    let s = match ctx.text_or("task.update utf8: ") {
        Ok(s) => s,
        Err(e) => {
            let safe = redaction::scrub_opt(redact, None);
            assert((store@, e@) == update_reply(store@, ctx@, now, text::opt_text(safe)));
            return e;
        },
    };
    let p = text::cut_n(s.as_str(), '|', 9);
    let cause = text::filled_field(&p, 6);
    let safe = redaction::scrub_opt(redact, cause);
    let ghost safe_text = text::opt_text(safe);
    assert(redaction::redacts_opt(*redact, update_cause(ctx@), safe_text));
    let out = update_from_fields(store, &p, now, text::slice_opt(&safe));
    assert((store@, out@) == update_reply(old(store)@, ctx@, now, safe_text));
    out
}

fn update_from_fields(store: &mut TaskStore, p: &Vec<String>, now: i64, safe: Option<&str>) -> (r: HandlerOutcome)
    requires
        old(store).wf(),
        old(store)@.roomy(),
    ensures
        ({
            let id = text::field(text::texts(p@), 0);
            let c = update_change(text::texts(p@));
            (final(store)@, r@) == if id.len() == 0 {
                (old(store)@, Reply::invalid("task.update: task_id required"@))
            } else if c.failure_class is Some && FailureClass::of_word(c.failure_class->0) is None {
                (old(store)@, Reply::invalid("task.update: bad failure_class: "@ + c.failure_class->0))
            } else if c.trace_id is Some && !is_trace_id(c.trace_id->0) {
                (
                    old(store)@,
                    Reply::invalid("task.update: bad trace_id (want 32 hex chars): "@ + c.trace_id->0),
                )
            } else {
                let (m, x) = old(store)@.updated(now, id, c, text::opt_slice(safe));
                (
                    m,
                    match x {
                        Ok(_) => Reply::body("ok\n"@),
                        Err(f) => strict_reply("task.update"@, f),
                    },
                )
            }
        }),
        final(store).wf(),
{
    let task_id = match text::filled_field(p, 0) {
        Some(t) => t,
        None => return dispatch::invalid(text::owned("task.update: task_id required")),
    };
    let error_kind: Option<i64> = match text::filled_field(p, 5) {
        Some(t) => numeral::read_i64(t),
        None => None,
    };
    let class = text::filled_field(p, 7);
    let trace = text::filled_field(p, 8);
    if let Some(fc) = class {
        if FailureClass::parse(fc).is_none() {
            return dispatch::invalid(dispatch::glue("task.update: bad failure_class: ", fc));
        }
    }
    if let Some(t) = trace {
        if !trace_id_ok(t) {
            return dispatch::invalid(dispatch::glue("task.update: bad trace_id (want 32 hex chars): ", t));
        }
    }
    let c = TaskChange {
        status: text::owned_opt(text::filled_field(p, 1)),
        result: text::owned_opt(text::filled_field(p, 2)),
        flow_id: text::owned_opt(text::filled_field(p, 3)),
        flow_log_path: text::owned_opt(text::filled_field(p, 4)),
        error_kind,
        error_cause: text::owned_opt(text::filled_field(p, 6)),
        failure_class: text::owned_opt(class),
        trace_id: text::owned_opt(trace),
    };
    assert(c@ == update_change(text::texts(p@)));
    match store.update_at(now, task_id, &c, safe) {
        Ok(_) => dispatch::body(text::owned("ok\n")),
        Err(e) => strict_outcome("task.update", &e),
    }
}

/// What `task.event` does and replies.
pub open spec fn event_reply(l: Ledger, call: CallRec, now: i64) -> (Ledger, Reply) {
    match call.text() {
        None => (l, call.bad_utf8("task.event utf8: "@)),
        Some(s) => {
            let p = text::splitn(s, '|', 3);
            if text::field(p, 0).len() == 0 || text::field(p, 1).len() == 0 {
                (l, Reply::invalid("task.event: task_id and event_type required"@))
            } else {
                let (m, r) = l.event_appended(now, text::field(p, 0), text::field(p, 1), text::field(p, 2));
                (
                    m,
                    match r {
                        Ok(n) => Reply::body(numeral::dec(n as int)),
                        Err(f) => strict_reply("task.event"@, f),
                    },
                )
            }
        },
    }
}

/// `task.event`: appends a free-form event at a given time.
pub fn handle_event(store: &mut TaskStore, ctx: &InvocationCtx, now: i64) -> (r: HandlerOutcome)
    requires
        old(store).wf(),
        old(store)@.roomy(),
    ensures
        (final(store)@, r@) == event_reply(old(store)@, ctx@, now),
        final(store).wf(),
{
    let s = match ctx.text_or("task.event utf8: ") {
        Ok(s) => s,
        Err(e) => return e,
    };
    let p = text::cut_n(s.as_str(), '|', 3);
    let task_id = text::field_of(&p, 0);
    let kind = text::field_of(&p, 1);
    if task_id.is_empty() || kind.is_empty() {
        return dispatch::invalid(text::owned("task.event: task_id and event_type required"));
    }
    match store.append_event_at(now, task_id, kind, text::field_of(&p, 2)) {
        Ok(n) => dispatch::body(numeral::i64_text(n)),
        Err(e) => strict_outcome("task.event", &e),
    }
}

/// What `task.replay` does and replies.
pub open spec fn replay_reply(l: Ledger, call: CallRec, now: i64, edge_now: i64, fresh: Option<Text>) -> (Ledger, Reply) {
    match call.text() {
        None => (l, call.bad_utf8("task.replay utf8: "@)),
        Some(s) => {
            let id = text::trim(s);
            if id.len() == 0 {
                (l, Reply::invalid("task.replay: original task_id required"@))
            } else {
                let (m, r) = l.replayed_fresh(now, edge_now, fresh, id, call.caller);
                (
                    m,
                    match r {
                        Ok(made) => Reply::body(made),
                        Err(f) => strict_reply("task.replay"@, f),
                    },
                )
            }
        },
    }
}

/// `task.replay`: clones a task under a fresh id.
pub fn handle_replay(store: &mut TaskStore, ctx: &InvocationCtx, now: i64, edge_now: i64, fresh: Option<String>) -> (r: HandlerOutcome)
    requires
        old(store).wf(),
        old(store)@.roomy(),
    ensures
        (final(store)@, r@) == replay_reply(old(store)@, ctx@, now, edge_now, text::opt_text(fresh)),
        final(store).wf(),
{
    let s = match ctx.text_or("task.replay utf8: ") {
        Ok(s) => s,
        Err(e) => return e,
    };
    let id = text::trimmed(s.as_str());
    if id.as_str().is_empty() {
        return dispatch::invalid(text::owned("task.replay: original task_id required"));
    }
    match store.replay_fresh(now, edge_now, fresh, id.as_str(), ctx.caller_subject_id.as_str()) {
        Ok(made) => dispatch::body(made),
        Err(e) => strict_outcome("task.replay", &e),
    }
}

/// The body that reports a retry decision, or the refusal.
pub open spec fn verdict_reply(v: RetryVerdict) -> Reply {
    match v {
        RetryVerdict::Accepted { new_retry_count, budget } => Reply::body(
            "accepted attempt="@ + numeral::dec(new_retry_count) + " of_budget="@ + numeral::dec(budget) + "\n"@,
        ),
        RetryVerdict::Exhausted { retry_count, budget } => Reply::body(
            "exhausted retry_count="@ + numeral::dec(retry_count) + " budget="@ + numeral::dec(budget) + "\n"@,
        ),
        RetryVerdict::Rejected { reason } => Reply::invalid("task.retry: "@ + reason),
    }
}

/// What `task.retry` does and replies.
pub open spec fn retry_reply(l: Ledger, call: CallRec, now: i64) -> (Ledger, Reply) {
    match call.text() {
        None => (l, call.bad_utf8("task.retry utf8: "@)),
        Some(s) => {
            let id = text::trim(s);
            if id.len() == 0 {
                (l, Reply::invalid("task.retry: task_id required"@))
            } else {
                let (m, r) = l.retry_requested(now, id);
                (
                    m,
                    match r {
                        Ok(v) => verdict_reply(v),
                        Err(f) => strict_reply("task.retry"@, f),
                    },
                )
            }
        },
    }
}

/// `task.retry`: operator-initiated retry request at a given time.
pub fn handle_retry(store: &mut TaskStore, ctx: &InvocationCtx, now: i64) -> (r: HandlerOutcome)
    requires
        old(store).wf(),
        old(store)@.roomy(),
    ensures
        (final(store)@, r@) == retry_reply(old(store)@, ctx@, now),
        final(store).wf(),
{
    let s = match ctx.text_or("task.retry utf8: ") {
        Ok(s) => s,
        Err(e) => return e,
    };
    let id = text::trimmed(s.as_str());
    if id.as_str().is_empty() {
        return dispatch::invalid(text::owned("task.retry: task_id required"));
    }
    match store.request_retry_at(now, id.as_str()) {
        Ok(RetryDecision::Accepted { new_retry_count, budget }) => {
            let mut b = text::owned("accepted attempt=");
            numeral::push_i64(&mut b, new_retry_count);
            b.append(" of_budget=");
            numeral::push_i64(&mut b, budget);
            b.append("\n");
            dispatch::body(b)
        },
        Ok(RetryDecision::Exhausted { retry_count, budget }) => {
            let mut b = text::owned("exhausted retry_count=");
            numeral::push_i64(&mut b, retry_count);
            b.append(" budget=");
            numeral::push_i64(&mut b, budget);
            b.append("\n");
            dispatch::body(b)
        },
        Ok(RetryDecision::Rejected { reason }) => dispatch::invalid(dispatch::glue("task.retry: ", reason.as_str())),
        Err(e) => strict_outcome("task.retry", &e),
    }
}

/// What `task.recover` does and replies.
pub open spec fn recover_reply(l: Ledger, now: i64) -> (Ledger, Reply) {
    let (m, ids) = l.recovered(now);
    (
        m,
        Reply::body(
            text::flat(ids.map_values(|t: Text| t + "\n"@)) + "recovered="@ + numeral::dec(ids.len() as int) + "\n"@,
        ),
    )
}

/// `task.recover`: the recovery scan on demand, at a given time. The argument is not read.
pub fn handle_recover(store: &mut TaskStore, _ctx: &InvocationCtx, now: i64) -> (r: HandlerOutcome)
    requires
        old(store).wf(),
        old(store)@.roomy(),
    ensures
        (final(store)@, r@) == recover_reply(old(store)@, now),
        final(store).wf(),
{
    match store.recover_interrupted(now) {
        Ok(ids) => {
            let mut lines: Vec<String> = Vec::new();
            let mut i: usize = 0;
            let ghost all = text::texts(ids@).map_values(|t: Text| t + "\n"@);
            while i < ids.len()
                invariant
                    i <= ids@.len(),
                    all == text::texts(ids@).map_values(|t: Text| t + "\n"@),
                    lines@.len() == i,
                    forall|k: int| 0 <= k < i ==> (#[trigger] lines@[k])@ == all[k],
                decreases ids@.len() - i,
            {
                assert(all[i as int] == ids@[i as int]@ + "\n"@);
                lines.push(ids[i].clone().concat("\n"));
                i = i + 1;
            }
            assert(text::texts(lines@) =~= all);
            let mut b = text::concat_all(&lines);
            b.append("recovered=");
            numeral::push_usize(&mut b, ids.len());
            b.append("\n");
            assert(text::texts(ids@).len() == ids@.len());
            dispatch::body(b)
        },
        Err(e) => internal_outcome("task.recover", &e),
    }
}

/// The item lines of a todo list: trimmed, without blank ones.
pub open spec fn todo_items(rest: Text) -> Seq<Text> {
    text::split_all(rest, '\n').filter_map(|t: Text| text::non_empty(Some(text::trim(t))))
}

/// The todo items in the arguments of `task.todo_set`.
pub open spec fn todo_set_items(call: CallRec) -> Seq<Text> {
    match call.text() {
        Some(s) => match text::split_once(s, '|') {
            Some((_, rest)) => todo_items(rest),
            None => Seq::empty(),
        },
        None => Seq::empty(),
    }
}

/// What `task.todo_set` does and replies; `safe` holds the scrubbed items.
pub open spec fn todo_set_reply(l: Ledger, call: CallRec, now: i64, safe: Seq<Text>) -> (Ledger, Reply) {
    match call.text() {
        None => (l, call.bad_utf8("task.todo_set utf8: "@)),
        Some(s) => match text::split_once(s, '|') {
            None => (l, Reply::invalid("task.todo_set: arg shape `<task_id>|<text...>`"@)),
            Some((head, rest)) => {
                let id = text::trim(head);
                if id.len() == 0 {
                    (l, Reply::invalid("task.todo_set: task_id required"@))
                } else {
                    let (m, r) = l.todos_set(now, id, todo_items(rest), safe);
                    (
                        m,
                        match r {
                            Ok(items) => Reply::body(render::todo_list(items)),
                            Err(Fault::NotFound(_)) => Reply::invalid("task.todo_set: task not found: "@ + id),
                            Err(Fault::Invalid(x)) => Reply::invalid(x),
                            Err(f) => internal_reply("task.todo_set"@, f),
                        },
                    )
                }
            },
        },
    }
}

fn split_todo_items(rest: &str) -> (r: Vec<String>)
    ensures
        text::texts(r@) == todo_items(rest@),
{
    let lines = text::cut_all(rest, '\n');
    let ghost all = text::texts(lines@);
    let ghost f = |t: Text| text::non_empty(Some(text::trim(t)));
    let mut out: Vec<String> = Vec::new();
    let mut i: usize = 0;
    assert(text::texts(out@) =~= all.take(0).filter_map(f));
    while i < lines.len()
        invariant
            i <= lines@.len(),
            all == text::texts(lines@),
            f == (|t: Text| text::non_empty(Some(text::trim(t)))),
            text::texts(out@) == all.take(i as int).filter_map(f),
        decreases lines@.len() - i,
    {
        proof {
            all.lemma_filter_map_take_succ(f, i as int);
        }
        let ghost before = text::texts(out@);
        let t = text::trimmed(lines[i].as_str());
        assert(all[i as int] == lines@[i as int]@);
        if !t.as_str().is_empty() {
            out.push(t);
            assert(text::texts(out@) =~= before + seq![t@]);
        } else {
            assert(before =~= before + Seq::<Text>::empty());
        }
        i = i + 1;
    }
    assert(all.take(all.len() as int) =~= all);
    out
}

/// `task.todo_set`: replaces a task's todo list at a given time.
pub fn handle_todo_set<R: Fn(&str) -> String>(store: &mut TaskStore, ctx: &InvocationCtx, now: i64, redact: &R) -> (r: HandlerOutcome)
    requires
        old(store).wf(),
        redaction::total(*redact),
    ensures
        exists|safe: Seq<Text>|
            todo::redacts_all(*redact, todo_set_items(ctx@), safe) && (final(store)@, r@) == #[trigger] todo_set_reply(
                old(store)@,
                ctx@,
                now,
                safe,
            ),
        final(store).wf(),
{
    let ghost none = Seq::<Text>::empty();
    let s = match ctx.text_or("task.todo_set utf8: ") {
        Ok(s) => s,
        Err(e) => {
            assert(todo::redacts_all(*redact, todo_set_items(ctx@), none));
            assert((store@, e@) == todo_set_reply(store@, ctx@, now, none));
            return e;
        },
    };
    let (head, rest) = match text::cut_once(s.as_str(), '|') {
        Some(p) => p,
        None => {
            let out = dispatch::invalid(text::owned("task.todo_set: arg shape `<task_id>|<text...>`"));
            assert(todo::redacts_all(*redact, todo_set_items(ctx@), none));
            assert((store@, out@) == todo_set_reply(store@, ctx@, now, none));
            return out;
        },
    };
    let id = text::trimmed(head.as_str());
    let items = split_todo_items(rest.as_str());
    let mut safe: Vec<String> = Vec::new();
    let mut refs: Vec<&str> = Vec::new();
    let mut i: usize = 0;
    while i < items.len()
        invariant
            i <= items@.len(),
            safe@.len() == i,
            refs@.len() == i,
            redaction::total(*redact),
            forall|k: int|
                0 <= k < i ==> redaction::redacts(*redact, #[trigger] text::texts(items@)[k], safe@[k]@),
            forall|k: int| 0 <= k < i ==> (#[trigger] refs@[k])@ == text::texts(items@)[k],
        decreases items@.len() - i,
    {
        let x = redaction::scrub(redact, items[i].as_str());
        assert(text::texts(items@)[i as int] == items@[i as int]@);
        safe.push(x);
        refs.push(items[i].as_str());
        i = i + 1;
    }
    let ghost safe_texts = text::texts(safe@);
    assert(todo::redacts_all(*redact, todo_set_items(ctx@), safe_texts));
    assert(todo::slices(refs@) =~= text::texts(items@));
    if id.as_str().is_empty() {
        let out = dispatch::invalid(text::owned("task.todo_set: task_id required"));
        assert((store@, out@) == todo_set_reply(store@, ctx@, now, safe_texts));
        return out;
    }
    let out = match store.set_task_todos_at(now, id.as_str(), refs.as_slice(), &safe) {
        Ok(v) => dispatch::body(render::render_todo_list(&v)),
        Err(CoordinatorError::NotFound(_)) => dispatch::invalid(
            dispatch::glue("task.todo_set: task not found: ", id.as_str()),
        ),
        Err(CoordinatorError::Invalid(m)) => dispatch::invalid(m),
        Err(e) => internal_outcome("task.todo_set", &e),
    };
    assert((store@, out@) == todo_set_reply(old(store)@, ctx@, now, safe_texts));
    out
}

/// What `task.todo_update` does and replies.
pub open spec fn todo_update_reply(l: Ledger, call: CallRec, now: i64) -> (Ledger, Reply) {
    match call.text() {
        None => (l, call.bad_utf8("task.todo_update utf8: "@)),
        Some(s) => {
            let p = text::splitn(s, '|', 3);
            if p.len() != 3 {
                (l, Reply::invalid("task.todo_update: arg shape `<task_id>|<todo_id>|<open|done>`"@))
            } else {
                match numeral::parse_i64(text::trim(p[1])) {
                    None => (l, Reply::invalid("task.todo_update: invalid todo_id '"@ + p[1] + "'"@)),
                    Some(n) => {
                        let (m, r) = l.todo_updated(now, text::trim(p[0]), n, text::trim(p[2]));
                        (
                            m,
                            match r {
                                Ok(item) => Reply::body(render::todo_row(item)),
                                Err(Fault::NotFound(x)) => Reply::invalid("task.todo_update: "@ + x),
                                Err(Fault::Invalid(x)) => Reply::invalid(x),
                                Err(f) => internal_reply("task.todo_update"@, f),
                            },
                        )
                    },
                }
            }
        },
    }
}

/// `task.todo_update`: changes the status of a todo at a given time.
pub fn handle_todo_update(store: &mut TaskStore, ctx: &InvocationCtx, now: i64) -> (r: HandlerOutcome)
    requires
        old(store).wf(),
    ensures
        (final(store)@, r@) == todo_update_reply(old(store)@, ctx@, now),
        final(store).wf(),
{
    let s = match ctx.text_or("task.todo_update utf8: ") {
        Ok(s) => s,
        Err(e) => return e,
    };
    let p = text::cut_n(s.as_str(), '|', 3);
    assert(text::texts(p@).len() == p@.len());
    if p.len() != 3 {
        return dispatch::invalid(text::owned("task.todo_update: arg shape `<task_id>|<todo_id>|<open|done>`"));
    }
    assert(forall|k: int| 0 <= k < 3 ==> #[trigger] text::texts(p@)[k] == p@[k]@);
    let task_id = text::trimmed(p[0].as_str());
    let number = text::trimmed(p[1].as_str());
    let status = text::trimmed(p[2].as_str());
    let todo_id: i64 = match numeral::read_i64(number.as_str()) {
        Some(n) => n,
        None => {
            let m = dispatch::glue("task.todo_update: invalid todo_id '", p[1].as_str());
            return dispatch::invalid(m.concat("'"));
        },
    };
    match store.update_task_todo_status_at(now, task_id.as_str(), todo_id, status.as_str()) {
        Ok(item) => dispatch::body(render::todo_row_string(&item)),
        Err(CoordinatorError::NotFound(m)) => dispatch::invalid(dispatch::glue("task.todo_update: ", m.as_str())),
        Err(CoordinatorError::Invalid(m)) => dispatch::invalid(m),
        Err(e) => internal_outcome("task.todo_update", &e),
    }
}

/// The note in the arguments of `task.note`.
pub open spec fn note_of(call: CallRec) -> Text {
    match call.text() {
        Some(s) => text::field(text::splitn(s, '|', 2), 1),
        None => Seq::empty(),
    }
}

/// What `task.note` does and replies; `safe` is the scrubbed note.
pub open spec fn note_reply(l: Ledger, call: CallRec, now: i64, safe: Text) -> (Ledger, Reply) {
    match call.text() {
        None => (l, call.bad_utf8("task.note utf8: "@)),
        Some(s) => {
            let p = text::splitn(s, '|', 2);
            if text::field(p, 0).len() == 0 {
                (l, Reply::invalid("task.note: task_id required (arg shape: task_id|note)"@))
            } else if text::field(p, 1).len() == 0 {
                (l, Reply::invalid("task.note: note text required (arg shape: task_id|note)"@))
            } else {
                let (m, r) = l.noted(now, text::field(p, 0), text::field(p, 1), safe, call.caller);
                (
                    m,
                    match r {
                        Ok(n) => Reply::body("event_id="@ + numeral::dec(n as int) + "\n"@),
                        Err(f) => fault_reply("task.note"@, f),
                    },
                )
            }
        },
    }
}

fn event_id_body(n: i64) -> (r: HandlerOutcome)
    ensures
        r@ == Reply::body("event_id="@ + numeral::dec(n as int) + "\n"@),
{
    let mut b = text::owned("event_id=");
    numeral::push_i64(&mut b, n);
    b.append("\n");
    dispatch::body(b)
}

/// `task.note`: appends an operator note at a given time.
pub fn handle_note<R: Fn(&str) -> String>(store: &mut TaskStore, ctx: &InvocationCtx, now: i64, redact: &R) -> (r: HandlerOutcome)
    requires
        old(store).wf(),
        old(store)@.roomy(),
        redaction::total(*redact),
    ensures
        exists|safe: Text|
            redaction::redacts(*redact, text::trim(note_of(ctx@)), safe) && (final(store)@, r@) == #[trigger] note_reply(
                old(store)@,
                ctx@,
                now,
                safe,
            ),
        final(store).wf(),
{
    let s = match ctx.text_or("task.note utf8: ") {
        Ok(s) => s,
        Err(e) => {
            let blank = text::trimmed("");
            proof {
                reveal_strlit("");
                assert(""@ =~= Seq::empty());
            }
            let safe = redaction::scrub(redact, blank.as_str());
            assert((store@, e@) == note_reply(store@, ctx@, now, safe@));
            return e;
        },
    };
    let p = text::cut_n(s.as_str(), '|', 2);
    let task_id = text::field_of(&p, 0);
    let note = text::field_of(&p, 1);
    let trimmed = text::trimmed(note);
    let safe = redaction::scrub(redact, trimmed.as_str());
    let ghost safe_text = safe@;
    assert(redaction::redacts(*redact, text::trim(note_of(ctx@)), safe_text));
    let out = if task_id.is_empty() {
        dispatch::invalid(text::owned("task.note: task_id required (arg shape: task_id|note)"))
    } else if note.is_empty() {
        dispatch::invalid(text::owned("task.note: note text required (arg shape: task_id|note)"))
    } else {
        match store.append_operator_note_at(now, task_id, note, safe.as_str(), ctx.caller_subject_id.as_str()) {
            Ok(n) => event_id_body(n),
            Err(e) => fault_outcome("task.note", &e),
        }
    };
    assert((store@, out@) == note_reply(old(store)@, ctx@, now, safe_text));
    out
}

/// The reason in the arguments of `task.pause` or `task.freeze`.
pub open spec fn reason_of(call: CallRec) -> Option<Text> {
    match call.text() {
        Some(s) => text::non_empty(Some(text::field(text::splitn(s, '|', 2), 1))),
        None => None,
    }
}

/// What `task.pause` does and replies; `safe` is the scrubbed reason.
pub open spec fn pause_reply(l: Ledger, call: CallRec, now: i64, safe: Option<Text>) -> (Ledger, Reply) {
    match call.text() {
        None => (l, call.bad_utf8("task.pause utf8: "@)),
        Some(s) => {
            let id = text::field(text::splitn(s, '|', 2), 0);
            if id.len() == 0 {
                (l, Reply::invalid("task.pause: task_id required"@))
            } else {
                let (m, r) = l.paused(now, id, reason_of(call), safe, call.caller);
                (
                    m,
                    match r {
                        Ok(prior) => Reply::body("prior_status="@ + prior + "\n"@),
                        Err(f) => fault_reply("task.pause"@, f),
                    },
                )
            }
        },
    }
}

/// What `task.freeze` does and replies; `safe` is the scrubbed reason.
pub open spec fn freeze_reply(l: Ledger, call: CallRec, now: i64, safe: Option<Text>) -> (Ledger, Reply) {
    match call.text() {
        None => (l, call.bad_utf8("task.freeze utf8: "@)),
        Some(s) => {
            let id = text::field(text::splitn(s, '|', 2), 0);
            if id.len() == 0 {
                (l, Reply::invalid("task.freeze: task_id required"@))
            } else {
                let (m, r) = l.frozen(now, id, reason_of(call), safe, call.caller);
                (
                    m,
                    match r {
                        Ok(prior) => Reply::body("prior_status="@ + prior + "\n"@),
                        Err(f) => fault_reply("task.freeze"@, f),
                    },
                )
            }
        },
    }
}

fn status_body(key: &str, status: &str) -> (r: HandlerOutcome)
    ensures
        r@ == Reply::body(key@ + status@ + "\n"@),
{
    let mut b = text::owned(key);
    b.append(status);
    b.append("\n");
    dispatch::body(b)
}

/// `task.pause`: operator-initiated pause at a given time.
pub fn handle_pause<R: Fn(&str) -> String>(store: &mut TaskStore, ctx: &InvocationCtx, now: i64, redact: &R) -> (r: HandlerOutcome)
    requires
        old(store).wf(),
        old(store)@.roomy(),
        redaction::total(*redact),
    ensures
        exists|safe: Option<Text>|
            redaction::redacts_opt(*redact, text::trim_opt(reason_of(ctx@)), safe) && (final(store)@, r@)
                == #[trigger] pause_reply(old(store)@, ctx@, now, safe),
        final(store).wf(),
{
    let s = match ctx.text_or("task.pause utf8: ") {
        Ok(s) => s,
        Err(e) => {
            let safe = redaction::scrub_opt(redact, None);
            assert((store@, e@) == pause_reply(store@, ctx@, now, text::opt_text(safe)));
            return e;
        },
    };
    let p = text::cut_n(s.as_str(), '|', 2);
    let task_id = text::field_of(&p, 0);
    let reason = text::filled_field(&p, 1);
    let trimmed = text::trimmed_opt(reason);
    let safe = redaction::scrub_opt(redact, text::slice_opt(&trimmed));
    let ghost safe_text = text::opt_text(safe);
    let out = if task_id.is_empty() {
        dispatch::invalid(text::owned("task.pause: task_id required"))
    } else {
        match store.set_paused_at(now, task_id, reason, text::slice_opt(&safe), ctx.caller_subject_id.as_str()) {
            Ok(prior) => status_body("prior_status=", prior.as_str()),
            Err(e) => fault_outcome("task.pause", &e),
        }
    };
    assert((store@, out@) == pause_reply(old(store)@, ctx@, now, safe_text));
    out
}

/// `task.freeze`: operator-initiated freeze at a given time.
pub fn handle_freeze<R: Fn(&str) -> String>(store: &mut TaskStore, ctx: &InvocationCtx, now: i64, redact: &R) -> (r: HandlerOutcome)
    requires
        old(store).wf(),
        old(store)@.roomy(),
        redaction::total(*redact),
    ensures
        exists|safe: Option<Text>|
            redaction::redacts_opt(*redact, text::trim_opt(reason_of(ctx@)), safe) && (final(store)@, r@)
                == #[trigger] freeze_reply(old(store)@, ctx@, now, safe),
        final(store).wf(),
{
    let s = match ctx.text_or("task.freeze utf8: ") {
        Ok(s) => s,
        Err(e) => {
            let safe = redaction::scrub_opt(redact, None);
            assert((store@, e@) == freeze_reply(store@, ctx@, now, text::opt_text(safe)));
            return e;
        },
    };
    let p = text::cut_n(s.as_str(), '|', 2);
    let task_id = text::field_of(&p, 0);
    let reason = text::filled_field(&p, 1);
    let trimmed = text::trimmed_opt(reason);
    let safe = redaction::scrub_opt(redact, text::slice_opt(&trimmed));
    let ghost safe_text = text::opt_text(safe);
    let out = if task_id.is_empty() {
        dispatch::invalid(text::owned("task.freeze: task_id required"))
    } else {
        match store.set_frozen_at(now, task_id, reason, text::slice_opt(&safe), ctx.caller_subject_id.as_str()) {
            Ok(prior) => status_body("prior_status=", prior.as_str()),
            Err(e) => fault_outcome("task.freeze", &e),
        }
    };
    assert((store@, out@) == freeze_reply(old(store)@, ctx@, now, safe_text));
    out
}

/// What `task.resume` does and replies.
pub open spec fn resume_reply(l: Ledger, call: CallRec, now: i64) -> (Ledger, Reply) {
    match call.text() {
        None => (l, call.bad_utf8("task.resume utf8: "@)),
        Some(s) => {
            let id = text::trim(s);
            if id.len() == 0 {
                (l, Reply::invalid("task.resume: task_id required"@))
            } else {
                let (m, r) = l.resumed(now, id, call.caller);
                (
                    m,
                    match r {
                        Ok(was) => Reply::body("pre_pause_status="@ + was + "\n"@),
                        Err(f) => fault_reply("task.resume"@, f),
                    },
                )
            }
        },
    }
}

/// `task.resume`: operator-initiated resume at a given time.
pub fn handle_resume(store: &mut TaskStore, ctx: &InvocationCtx, now: i64) -> (r: HandlerOutcome)
    requires
        old(store).wf(),
        old(store)@.roomy(),
    ensures
        (final(store)@, r@) == resume_reply(old(store)@, ctx@, now),
        final(store).wf(),
{
    let s = match ctx.text_or("task.resume utf8: ") {
        Ok(s) => s,
        Err(e) => return e,
    };
    let id = text::trimmed(s.as_str());
    if id.as_str().is_empty() {
        return dispatch::invalid(text::owned("task.resume: task_id required"));
    }
    match store.set_resumed_at(now, id.as_str(), ctx.caller_subject_id.as_str()) {
        Ok(was) => status_body("pre_pause_status=", was.as_str()),
        Err(e) => fault_outcome("task.resume", &e),
    }
}

/// What `task.unfreeze` does and replies.
pub open spec fn unfreeze_reply(l: Ledger, call: CallRec, now: i64) -> (Ledger, Reply) {
    match call.text() {
        None => (l, call.bad_utf8("task.unfreeze utf8: "@)),
        Some(s) => {
            let id = text::trim(s);
            if id.len() == 0 {
                (l, Reply::invalid("task.unfreeze: task_id required"@))
            } else {
                let (m, r) = l.unfrozen(now, id, call.caller);
                (
                    m,
                    match r {
                        Ok(was) => Reply::body("pre_freeze_status="@ + was + "\n"@),
                        Err(f) => fault_reply("task.unfreeze"@, f),
                    },
                )
            }
        },
    }
}

/// `task.unfreeze`: operator-initiated unfreeze at a given time.
pub fn handle_unfreeze(store: &mut TaskStore, ctx: &InvocationCtx, now: i64) -> (r: HandlerOutcome)
    requires
        old(store).wf(),
        old(store)@.roomy(),
    ensures
        (final(store)@, r@) == unfreeze_reply(old(store)@, ctx@, now),
        final(store).wf(),
{
    let s = match ctx.text_or("task.unfreeze utf8: ") {
        Ok(s) => s,
        Err(e) => return e,
    };
    let id = text::trimmed(s.as_str());
    if id.as_str().is_empty() {
        return dispatch::invalid(text::owned("task.unfreeze: task_id required"));
    }
    match store.set_unfrozen_at(now, id.as_str(), ctx.caller_subject_id.as_str()) {
        Ok(was) => status_body("pre_freeze_status=", was.as_str()),
        Err(e) => fault_outcome("task.unfreeze", &e),
    }
}

/// What `task.observe_interruption` does and replies.
pub open spec fn observe_reply(l: Ledger, call: CallRec, now: i64) -> (Ledger, Reply) {
    match call.text() {
        None => (l, call.bad_utf8("task.observe_interruption utf8: "@)),
        Some(s) => {
            let p = text::splitn(s, '|', 3);
            let id = text::trim(text::field(p, 0));
            let kind = text::trim(text::field(p, 1));
            let generation = text::trim(text::field(p, 2));
            if id.len() == 0 || kind.len() == 0 || generation.len() == 0 {
                (
                    l,
                    Reply::invalid("task.observe_interruption: arg shape `task_id|interruption_type|generation`"@),
                )
            } else {
                match numeral::parse_i64(generation) {
                    None => (
                        l,
                        Reply::invalid("task.observe_interruption: invalid generation '"@ + generation + "'"@),
                    ),
                    Some(n) => {
                        let (m, r) = l.observed(now, id, kind, n, call.caller);
                        (
                            m,
                            match r {
                                Ok(e) => Reply::body("event_id="@ + numeral::dec(e as int) + "\n"@),
                                Err(f) => fault_reply("task.observe_interruption"@, f),
                            },
                        )
                    },
                }
            }
        },
    }
}

/// `task.observe_interruption`: records at a given time that a worker noticed an interruption.
pub fn handle_observe_interruption(store: &mut TaskStore, ctx: &InvocationCtx, now: i64) -> (r: HandlerOutcome)
    requires
        old(store).wf(),
        old(store)@.roomy(),
    ensures
        (final(store)@, r@) == observe_reply(old(store)@, ctx@, now),
        final(store).wf(),
{
    let s = match ctx.text_or("task.observe_interruption utf8: ") {
        Ok(s) => s,
        Err(e) => return e,
    };
    let p = text::cut_n(s.as_str(), '|', 3);
    let id = text::trimmed(text::field_of(&p, 0));
    let kind = text::trimmed(text::field_of(&p, 1));
    let word = text::trimmed(text::field_of(&p, 2));
    if id.as_str().is_empty() || kind.as_str().is_empty() || word.as_str().is_empty() {
        return dispatch::invalid(
            text::owned("task.observe_interruption: arg shape `task_id|interruption_type|generation`"),
        );
    }
    let generation: i64 = match numeral::read_i64(word.as_str()) {
        Some(n) => n,
        None => {
            let m = dispatch::glue("task.observe_interruption: invalid generation '", word.as_str());
            return dispatch::invalid(m.concat("'"));
        },
    };
    match store.observe_interruption_at(
        now,
        id.as_str(),
        kind.as_str(),
        generation,
        ctx.caller_subject_id.as_str(),
    ) {
        Ok(n) => event_id_body(n),
        Err(e) => fault_outcome("task.observe_interruption", &e),
    }
}

/// What the flag of `task.mark_investigation` means.
pub open spec fn marked_flag(word: Text) -> Option<bool> {
    if word == "1"@ || word == "true"@ {
        Some(true)
    } else if word == "0"@ || word == "false"@ || word.len() == 0 {
        Some(false)
    } else {
        None
    }
}

/// The reason in the arguments of `task.mark_investigation`.
pub open spec fn mark_reason(call: CallRec) -> Option<Text> {
    match call.text() {
        Some(s) => text::non_empty(Some(text::field(text::splitn(s, '|', 3), 2))),
        None => None,
    }
}

/// What `task.mark_investigation` does and replies; `safe` is the scrubbed reason.
pub open spec fn mark_reply(l: Ledger, call: CallRec, now: i64, safe: Option<Text>) -> (Ledger, Reply) {
    match call.text() {
        None => (l, call.bad_utf8("task.mark_investigation utf8: "@)),
        Some(s) => {
            let p = text::splitn(s, '|', 3);
            let id = text::field(p, 0);
            let flag = text::field(p, 1);
            if id.len() == 0 {
                (
                    l,
                    Reply::invalid("task.mark_investigation: task_id required (arg shape: task_id|0|1|reason)"@),
                )
            } else {
                match marked_flag(flag) {
                    None => (
                        l,
                        Reply::invalid(
                            "task.mark_investigation: invalid marked flag '"@ + flag + "' (expected 0|1)"@,
                        ),
                    ),
                    Some(marked) => {
                        let (m, r) = l.investigation_set(now, id, marked, mark_reason(call), safe, call.caller);
                        (
                            m,
                            match r {
                                Ok(Some(ts)) => Reply::body("marked_at="@ + numeral::dec(ts as int) + "\n"@),
                                Ok(None) => Reply::body("marked_at=\n"@),
                                Err(f) => fault_reply("task.mark_investigation"@, f),
                            },
                        )
                    },
                }
            }
        },
    }
}

/// `task.mark_investigation`: sets or clears the investigation marker at a given time.
pub fn handle_mark_investigation<R: Fn(&str) -> String>(
    store: &mut TaskStore,
    ctx: &InvocationCtx,
    now: i64,
    redact: &R,
) -> (r: HandlerOutcome)
    requires
        old(store).wf(),
        old(store)@.roomy(),
        redaction::total(*redact),
    ensures
        exists|safe: Option<Text>|
            redaction::redacts_opt(*redact, text::trim_opt(mark_reason(ctx@)), safe) && (final(store)@, r@)
                == #[trigger] mark_reply(old(store)@, ctx@, now, safe),
        final(store).wf(),
{
    let s = match ctx.text_or("task.mark_investigation utf8: ") {
        Ok(s) => s,
        Err(e) => {
            let safe = redaction::scrub_opt(redact, None);
            assert((store@, e@) == mark_reply(store@, ctx@, now, text::opt_text(safe)));
            return e;
        },
    };
    let p = text::cut_n(s.as_str(), '|', 3);
    let task_id = text::field_of(&p, 0);
    let flag = text::field_of(&p, 1);
    let reason = text::filled_field(&p, 2);
    let trimmed = text::trimmed_opt(reason);
    let safe = redaction::scrub_opt(redact, text::slice_opt(&trimmed));
    let ghost safe_text = text::opt_text(safe);
    let on = text::same(flag, "1") || text::same(flag, "true");
    let off = text::same(flag, "0") || text::same(flag, "false") || flag.is_empty();
    let out = if task_id.is_empty() {
        dispatch::invalid(text::owned("task.mark_investigation: task_id required (arg shape: task_id|0|1|reason)"))
    } else if !on && !off {
        let m = dispatch::glue("task.mark_investigation: invalid marked flag '", flag);
        dispatch::invalid(m.concat("' (expected 0|1)"))
    } else {
        match store.set_investigation_marker_at(
            now,
            task_id,
            on,
            reason,
            text::slice_opt(&safe),
            ctx.caller_subject_id.as_str(),
        ) {
            Ok(Some(ts)) => {
                let mut b = text::owned("marked_at=");
                numeral::push_i64(&mut b, ts);
                b.append("\n");
                dispatch::body(b)
            },
            Ok(None) => dispatch::body(text::owned("marked_at=\n")),
            Err(e) => fault_outcome("task.mark_investigation", &e),
        }
    };
    assert((store@, out@) == mark_reply(old(store)@, ctx@, now, safe_text));
    out
}

/// The body that reports a recorded edge.
pub open spec fn edge_body(o: EdgeProducerOutcome) -> Reply {
    Reply::body(
        "edge_id="@ + numeral::dec(o.edge_id as int) + "\nevent_id="@ + numeral::dec(o.event_id as int) + "\n"@,
    )
}

fn edge_outcome(o: &EdgeProducerOutcome) -> (r: HandlerOutcome)
    ensures
        r@ == edge_body(*o),
{
    let mut b = text::owned("edge_id=");
    numeral::push_i64(&mut b, o.edge_id);
    b.append("\nevent_id=");
    numeral::push_i64(&mut b, o.event_id);
    b.append("\n");
    dispatch::body(b)
}

/// What `task.record_spawned` does and replies.
pub open spec fn spawned_reply(l: Ledger, call: CallRec, now: i64) -> (Ledger, Reply) {
    match call.text() {
        None => (l, call.bad_utf8("task.record_spawned utf8: "@)),
        Some(s) => {
            let p = text::splitn(s, '|', 4);
            let parent = text::trim(text::field(p, 0));
            let child = text::trim(text::field(p, 1));
            if parent.len() == 0 || child.len() == 0 {
                (
                    l,
                    Reply::invalid(
                        "task.record_spawned: arg shape `parent_task_id|child_task_id|branch_id|context_id`"@,
                    ),
                )
            } else {
                let (m, r) = l.edge_recorded(
                    now,
                    edges::spawned_request(
                        parent,
                        child,
                        text::non_empty(Some(text::field(p, 2))),
                        text::non_empty(Some(text::field(p, 3))),
                        call.caller,
                    ),
                );
                (
                    m,
                    match r {
                        Ok(o) => edge_body(o),
                        Err(f) => fault_reply("task.record_spawned"@, f),
                    },
                )
            }
        },
    }
}

/// `task.record_spawned`: records at a given time that a task spawned another.
pub fn handle_record_spawned(store: &mut TaskStore, ctx: &InvocationCtx, now: i64) -> (r: HandlerOutcome)
    requires
        old(store).wf(),
        old(store)@.roomy(),
    ensures
        (final(store)@, r@) == spawned_reply(old(store)@, ctx@, now),
        final(store).wf(),
{
    let s = match ctx.text_or("task.record_spawned utf8: ") {
        Ok(s) => s,
        Err(e) => return e,
    };
    let p = text::cut_n(s.as_str(), '|', 4);
    let parent = text::trimmed(text::field_of(&p, 0));
    let child = text::trimmed(text::field_of(&p, 1));
    if parent.as_str().is_empty() || child.as_str().is_empty() {
        return dispatch::invalid(
            text::owned("task.record_spawned: arg shape `parent_task_id|child_task_id|branch_id|context_id`"),
        );
    }
    match store.record_spawned_at(
        now,
        parent.as_str(),
        child.as_str(),
        text::filled_field(&p, 2),
        text::filled_field(&p, 3),
        ctx.caller_subject_id.as_str(),
    ) {
        Ok(o) => edge_outcome(&o),
        Err(e) => fault_outcome("task.record_spawned", &e),
    }
}

/// What `task.record_delegated` does and replies.
pub open spec fn delegated_reply(l: Ledger, call: CallRec, now: i64) -> (Ledger, Reply) {
    match call.text() {
        None => (l, call.bad_utf8("task.record_delegated utf8: "@)),
        Some(s) => {
            let p = text::splitn(s, '|', 3);
            let parent = text::trim(text::field(p, 0));
            let child = text::trim(text::field(p, 1));
            if parent.len() == 0 || child.len() == 0 {
                (l, Reply::invalid("task.record_delegated: arg shape `parent_task_id|child_task_id|reason`"@))
            } else {
                let (m, r) = l.edge_recorded(
                    now,
                    edges::delegated_request(
                        parent,
                        child,
                        text::non_empty(Some(text::field(p, 2))),
                        call.caller,
                    ),
                );
                (
                    m,
                    match r {
                        Ok(o) => edge_body(o),
                        Err(f) => fault_reply("task.record_delegated"@, f),
                    },
                )
            }
        },
    }
}

/// `task.record_delegated`: records at a given time that a task delegated to another.
pub fn handle_record_delegated(store: &mut TaskStore, ctx: &InvocationCtx, now: i64) -> (r: HandlerOutcome)
    requires
        old(store).wf(),
        old(store)@.roomy(),
    ensures
        (final(store)@, r@) == delegated_reply(old(store)@, ctx@, now),
        final(store).wf(),
{
    let s = match ctx.text_or("task.record_delegated utf8: ") {
        Ok(s) => s,
        Err(e) => return e,
    };
    let p = text::cut_n(s.as_str(), '|', 3);
    let parent = text::trimmed(text::field_of(&p, 0));
    let child = text::trimmed(text::field_of(&p, 1));
    if parent.as_str().is_empty() || child.as_str().is_empty() {
        return dispatch::invalid(
            text::owned("task.record_delegated: arg shape `parent_task_id|child_task_id|reason`"),
        );
    }
    match store.record_delegated_at(
        now,
        parent.as_str(),
        child.as_str(),
        text::filled_field(&p, 2),
        ctx.caller_subject_id.as_str(),
    ) {
        Ok(o) => edge_outcome(&o),
        Err(e) => fault_outcome("task.record_delegated", &e),
    }
}

/// What `task.record_awaited` does and replies.
pub open spec fn awaited_reply(l: Ledger, call: CallRec, now: i64) -> (Ledger, Reply) {
    match call.text() {
        None => (l, call.bad_utf8("task.record_awaited utf8: "@)),
        Some(s) => {
            let p = text::splitn(s, '|', 3);
            let waiter = text::trim(text::field(p, 0));
            let awaited = text::trim(text::field(p, 1));
            if waiter.len() == 0 || awaited.len() == 0 {
                (l, Reply::invalid("task.record_awaited: arg shape `task_id|awaited_task_id|reason`"@))
            } else {
                let (m, r) = l.edge_recorded(
                    now,
                    edges::awaited_request(
                        waiter,
                        awaited,
                        text::non_empty(Some(text::field(p, 2))),
                        call.caller,
                    ),
                );
                (
                    m,
                    match r {
                        Ok(o) => edge_body(o),
                        Err(f) => fault_reply("task.record_awaited"@, f),
                    },
                )
            }
        },
    }
}

/// `task.record_awaited`: records at a given time that a task waits for another.
pub fn handle_record_awaited(store: &mut TaskStore, ctx: &InvocationCtx, now: i64) -> (r: HandlerOutcome)
    requires
        old(store).wf(),
        old(store)@.roomy(),
    ensures
        (final(store)@, r@) == awaited_reply(old(store)@, ctx@, now),
        final(store).wf(),
{
    let s = match ctx.text_or("task.record_awaited utf8: ") {
        Ok(s) => s,
        Err(e) => return e,
    };
    let p = text::cut_n(s.as_str(), '|', 3);
    let waiter = text::trimmed(text::field_of(&p, 0));
    let awaited = text::trimmed(text::field_of(&p, 1));
    if waiter.as_str().is_empty() || awaited.as_str().is_empty() {
        return dispatch::invalid(text::owned("task.record_awaited: arg shape `task_id|awaited_task_id|reason`"));
    }
    match store.record_awaited_at(
        now,
        waiter.as_str(),
        awaited.as_str(),
        text::filled_field(&p, 2),
        ctx.caller_subject_id.as_str(),
    ) {
        Ok(o) => edge_outcome(&o),
        Err(e) => fault_outcome("task.record_awaited", &e),
    }
}

} // verus!
