//! What the events that the ledger writes by itself say, in words and in fields.
use vstd::prelude::*;
use crate::coordinator::attempts;
use crate::coordinator::edges::EdgeRequest;
use crate::coordinator::effects::{or_else, streak};
use crate::coordinator::ledger::{self, Ledger};
use crate::coordinator::model::EventRec;
use crate::coordinator::recover;
use crate::coordinator::update::{self, ChangeRec};
use crate::coordinator::vocab::{self, TaskState};
use crate::json;
use crate::numeral;
use crate::outside::{self, JsonScalar};
use crate::text::{self, Text};

verus! {

/// An event that says a thing in words and in the fields of an object.
pub open spec fn puts(e: EventRec, words: Text, object: Text) -> bool {
    e.payload == words && e.payload_json == Some(object) && e.schema_version == 1
}

/// A field that is null where there is no text.
pub open spec fn nullable(o: Option<Text>) -> JsonScalar {
    match o {
        Some(t) => JsonScalar::Text(t),
        None => JsonScalar::Null,
    }
}

/// A text without the white space around it, where that leaves anything.
pub open spec fn trimmed(o: Option<Text>) -> Option<Text> {
    match o {
        Some(t) => if text::trim(t).len() > 0 {
            Some(text::trim(t))
        } else {
            None
        },
        None => None,
    }
}

/// What a retry request writes: which status suppressed it; or the retries and the budget that they have
/// used up; or the number of the retry, the budget, the policy and the class of the failure before it.
pub proof fn law_retries_are_told(l: Ledger, now: i64, i: int)
    requires
        l.wf(),
        0 <= i < l.tasks.len(),
    ensures
        ({
            let h = l.tasks[i].head;
            let m = l.retry_requested(now, h.task_id).0;
            let e = m.events.last().event;
            let budget: int = if h.retry_policy == "once"@ {
                1
            } else if h.retry_policy == "bounded"@ && h.max_retries > 0 {
                h.max_retries as int
            } else {
                0
            };
            let class = match h.last_failure_class {
                Some(c) => c,
                None => "-"@,
            };
            let count = h.retry_count as int;
            let may = (h.status == "failed"@ || h.status == "interrupted"@) && h.retry_policy != "none"@;
            &&& h.status == "paused"@ || h.status == "frozen"@ ==> e.event_type == "task.retry_suppressed"@ && puts(
                e,
                "retry suppressed: task is `"@ + h.status + "` (cooperative interruption)"@,
                json::object(
                    seq![
                        ("suppressed_by"@, json::string(h.status)),
                        ("retry_count"@, numeral::dec(count)),
                        ("budget"@, numeral::dec(h.max_retries as int)),
                    ],
                ),
            )
            &&& may && count >= budget ==> e.event_type == "task.retry_exhausted"@ && puts(
                e,
                "retry_count="@ + numeral::dec(count) + " budget="@ + numeral::dec(budget) + " policy="@ + h.retry_policy,
                json::object(
                    seq![
                        ("retry_count"@, numeral::dec(count)),
                        ("budget"@, numeral::dec(budget)),
                        ("policy"@, json::string(h.retry_policy)),
                    ],
                ),
            )
            &&& may && count < budget ==> e.event_type == "task.retry_requested"@ && puts(
                e,
                "attempt="@ + numeral::dec(count + 1) + " of_budget="@ + numeral::dec(budget) + " policy="@ + h.retry_policy
                    + " prior_class="@ + class,
                json::object(
                    seq![
                        ("attempt"@, numeral::dec(count + 1)),
                        ("of_budget"@, numeral::dec(budget)),
                        ("policy"@, json::string(h.retry_policy)),
                        ("prior_class"@, json::string(class)),
                    ],
                ),
            )
        }),
{
    let h = l.tasks[i].head;
    ledger::lemma_find_is(l, i);
    vocab::lemma_state_words(TaskState::Paused);
    vocab::lemma_state_words(TaskState::Frozen);
    vocab::lemma_state_words(TaskState::Failed);
    vocab::lemma_state_words(TaskState::Interrupted);
    vocab::law_retry_policy_round_trip(vocab::RetryPolicy::Once);
    vocab::law_retry_policy_round_trip(vocab::RetryPolicy::Bounded);
    vocab::law_retry_policy_round_trip(vocab::RetryPolicy::Never);
    let budget = crate::coordinator::retry::retry_budget(h);
    let count = h.retry_count as int;
    let class = crate::coordinator::retry::prior_class(h);
    let none = Seq::<(Text, Text)>::empty();
    assert(none.push(("suppressed_by"@, json::string(h.status))).push(("retry_count"@, numeral::dec(count))).push(
        ("budget"@, numeral::dec(h.max_retries as int)),
    ) =~= seq![
        ("suppressed_by"@, json::string(h.status)),
        ("retry_count"@, numeral::dec(count)),
        ("budget"@, numeral::dec(h.max_retries as int)),
    ]);
    assert(none.push(("retry_count"@, numeral::dec(count))).push(("budget"@, numeral::dec(budget))).push(
        ("policy"@, json::string(h.retry_policy)),
    ) =~= seq![
        ("retry_count"@, numeral::dec(count)),
        ("budget"@, numeral::dec(budget)),
        ("policy"@, json::string(h.retry_policy)),
    ]);
    assert(none.push(("attempt"@, numeral::dec(count + 1))).push(("of_budget"@, numeral::dec(budget))).push(
        ("policy"@, json::string(h.retry_policy)),
    ).push(("prior_class"@, json::string(class))) =~= seq![
        ("attempt"@, numeral::dec(count + 1)),
        ("of_budget"@, numeral::dec(budget)),
        ("policy"@, json::string(h.retry_policy)),
        ("prior_class"@, json::string(class)),
    ]);
}

/// What a pause or freeze request writes: the status that it found, the counter after it, the scrubbed
/// reason where one was given, and who asked.
pub proof fn law_interruptions_are_told(l: Ledger, now: i64, i: int, reason: Option<Text>, safe: Option<Text>, who: Text)
    requires
        l.wf(),
        0 <= i < l.tasks.len(),
        l.tasks[i].head.pause_generation < i64::MAX,
        l.tasks[i].head.freeze_generation < i64::MAX,
    ensures
        ({
            let h = l.tasks[i].head;
            let kept = if trimmed(reason) is Some {
                safe
            } else {
                None
            };
            let why = match kept {
                Some(t) => " · "@ + t,
                None => Seq::empty(),
            };
            let (p, pr) = l.paused(now, h.task_id, reason, safe, who);
            let (f, fr) = l.frozen(now, h.task_id, reason, safe, who);
            &&& pr is Ok ==> puts(
                p.events.last().event,
                "from "@ + h.status + " · gen="@ + numeral::dec(h.pause_generation + 1) + why,
                outside::object_text(
                    Map::<Text, JsonScalar>::empty().insert("prior_status"@, JsonScalar::Text(h.status)).insert(
                        "reason"@,
                        nullable(kept),
                    ).insert("author"@, JsonScalar::Text(who)).insert(
                        "pause_generation"@,
                        JsonScalar::Number((h.pause_generation + 1) as i64),
                    ).insert("intent"@, JsonScalar::Text("request"@)),
                ),
            )
            &&& fr is Ok ==> puts(
                f.events.last().event,
                "from "@ + h.status + " · gen="@ + numeral::dec(h.freeze_generation + 1) + why,
                outside::object_text(
                    Map::<Text, JsonScalar>::empty().insert("prior_status"@, JsonScalar::Text(h.status)).insert(
                        "reason"@,
                        nullable(kept),
                    ).insert("author"@, JsonScalar::Text(who)).insert(
                        "freeze_generation"@,
                        JsonScalar::Number((h.freeze_generation + 1) as i64),
                    ).insert("intent"@, JsonScalar::Text("request"@)),
                ),
            )
        }),
{
    ledger::lemma_find_is(l, i);
    let h = l.tasks[i].head;
    let a = "from "@ + h.status + " · gen="@ + numeral::dec(h.pause_generation + 1);
    let b = "from "@ + h.status + " · gen="@ + numeral::dec(h.freeze_generation + 1);
    assert(a + Seq::<char>::empty() =~= a);
    assert(b + Seq::<char>::empty() =~= b);
    match safe {
        Some(t) => {
            assert(a + (" · "@ + t) =~= a + " · "@ + t);
            assert(b + (" · "@ + t) =~= b + " · "@ + t);
        },
        None => {},
    }
}

/// What a resume or unfreeze request writes: the status before the interruption, which it also returns, the
/// counter after it, and who asked.
pub proof fn law_releases_are_told(l: Ledger, now: i64, i: int, who: Text)
    requires
        l.wf(),
        0 <= i < l.tasks.len(),
        l.tasks[i].head.pause_generation < i64::MAX,
        l.tasks[i].head.freeze_generation < i64::MAX,
    ensures
        ({
            let h = l.tasks[i].head;
            let (p, pr) = l.resumed(now, h.task_id, who);
            let (f, fr) = l.unfrozen(now, h.task_id, who);
            &&& pr is Ok ==> puts(
                p.events.last().event,
                "paused→pending (was "@ + pr->Ok_0 + ") · gen="@ + numeral::dec(h.pause_generation + 1),
                outside::object_text(
                    Map::<Text, JsonScalar>::empty().insert("pre_pause_status"@, JsonScalar::Text(pr->Ok_0)).insert(
                        "new_status"@,
                        JsonScalar::Text("pending"@),
                    ).insert("author"@, JsonScalar::Text(who)).insert(
                        "pause_generation"@,
                        JsonScalar::Number((h.pause_generation + 1) as i64),
                    ).insert("intent"@, JsonScalar::Text("request"@)),
                ),
            )
            &&& fr is Ok ==> puts(
                f.events.last().event,
                "frozen→pending (was "@ + fr->Ok_0 + ") · gen="@ + numeral::dec(h.freeze_generation + 1),
                outside::object_text(
                    Map::<Text, JsonScalar>::empty().insert("pre_freeze_status"@, JsonScalar::Text(fr->Ok_0)).insert(
                        "new_status"@,
                        JsonScalar::Text("pending"@),
                    ).insert("author"@, JsonScalar::Text(who)).insert(
                        "freeze_generation"@,
                        JsonScalar::Number((h.freeze_generation + 1) as i64),
                    ).insert("intent"@, JsonScalar::Text("request"@)),
                ),
            )
        }),
{
    ledger::lemma_find_is(l, i);
    reveal_strlit("paused");
    reveal_strlit("frozen");
    reveal_strlit("→pending (was ");
    reveal_strlit("paused→pending (was ");
    reveal_strlit("frozen→pending (was ");
    assert("paused"@ + "→pending (was "@ =~= "paused→pending (was "@);
    assert("frozen"@ + "→pending (was "@ =~= "frozen→pending (was "@);
}

/// What an acknowledged interruption, a mark, its removal and a note write: each with who wrote it.
pub proof fn law_annotations_are_told(
    l: Ledger,
    now: i64,
    i: int,
    kind: Text,
    generation: i64,
    reason: Option<Text>,
    safe: Option<Text>,
    note: Text,
    clean: Text,
    who: Text,
)
    requires
        l.wf(),
        0 <= i < l.tasks.len(),
    ensures
        ({
            let id = l.tasks[i].head.task_id;
            let kept = if trimmed(reason) is Some {
                safe
            } else {
                None
            };
            let (o, or) = l.observed(now, id, kind, generation, who);
            let (a, ar) = l.investigation_set(now, id, true, reason, safe, who);
            let (c, cr) = l.investigation_set(now, id, false, reason, safe, who);
            let (n, nr) = l.noted(now, id, note, clean, who);
            &&& or is Ok ==> puts(
                o.events.last().event,
                kind + " observed at gen="@ + numeral::dec(generation as int) + " by "@ + who,
                outside::object_text(
                    Map::<Text, JsonScalar>::empty().insert("interruption_type"@, JsonScalar::Text(kind)).insert(
                        "generation_observed"@,
                        JsonScalar::Number(generation),
                    ).insert("observer"@, JsonScalar::Text(who)).insert("observed_at"@, JsonScalar::Number(now)).insert(
                        "intent"@,
                        JsonScalar::Text("ack"@),
                    ),
                ),
            )
            &&& ar is Ok ==> puts(
                a.events.last().event,
                match kept {
                    Some(t) => "marked · "@ + t,
                    None => "marked"@,
                },
                outside::object_text(
                    Map::<Text, JsonScalar>::empty().insert("marked"@, JsonScalar::Flag(true)).insert(
                        "reason"@,
                        nullable(kept),
                    ).insert("author"@, JsonScalar::Text(who)),
                ),
            )
            &&& cr is Ok ==> puts(
                c.events.last().event,
                "cleared"@,
                outside::object_text(
                    Map::<Text, JsonScalar>::empty().insert("marked"@, JsonScalar::Flag(false)).insert(
                        "author"@,
                        JsonScalar::Text(who),
                    ),
                ),
            )
            &&& nr is Ok ==> puts(
                n.events.last().event,
                clean,
                outside::object_text(
                    Map::<Text, JsonScalar>::empty().insert("note"@, JsonScalar::Text(clean)).insert(
                        "author"@,
                        JsonScalar::Text(who),
                    ),
                ),
            )
        }),
{
    ledger::lemma_find_is(l, i);
}

/// A text field that is left out where there is no text.
pub open spec fn and_text(fields: Map<Text, JsonScalar>, key: Text, o: Option<Text>) -> Map<Text, JsonScalar> {
    match o {
        Some(t) => fields.insert(key, JsonScalar::Text(t)),
        None => fields,
    }
}

/// What a recorded edge writes: the related task with branch and reason in words, and in fields also the
/// type, the context, who recorded it and when.
pub proof fn law_edges_are_told(l: Ledger, now: i64, q: EdgeRequest)
    requires
        l.wf(),
    ensures
        ({
            let (m, r) = l.edge_recorded(now, q);
            let branch = match trimmed(q.branch) {
                Some(t) => " · branch="@ + t,
                None => Seq::empty(),
            };
            let reason = match trimmed(q.reason) {
                Some(t) => " · "@ + t,
                None => Seq::empty(),
            };
            r is Ok ==> puts(
                m.events.last().event,
                match q.line {
                    Some(t) => t,
                    None => "→"@ + q.related + branch + reason,
                },
                outside::object_text(
                    and_text(
                        and_text(
                            and_text(
                                Map::<Text, JsonScalar>::empty().insert("edge_type"@, JsonScalar::Text(q.edge_type)).insert(
                                    "related_task_id"@,
                                    JsonScalar::Text(q.related),
                                ).insert("producer"@, JsonScalar::Text(q.producer)).insert(
                                    "produced_at"@,
                                    JsonScalar::Number(now),
                                ),
                                "branch_id"@,
                                trimmed(q.branch),
                            ),
                            "context_id"@,
                            trimmed(q.context),
                        ),
                        "reason"@,
                        trimmed(q.reason),
                    ),
                ),
            )
        }),
{
    let s = "→"@ + q.related;
    assert(s + Seq::<char>::empty() =~= s);
    match trimmed(q.branch) {
        Some(t) => {
            assert(s + (" · branch="@ + t) =~= s + " · branch="@ + t);
        },
        None => {},
    }
    let b = match trimmed(q.branch) {
        Some(t) => s + " · branch="@ + t,
        None => s,
    };
    assert(b + Seq::<char>::empty() =~= b);
    match trimmed(q.reason) {
        Some(t) => {
            assert(b + (" · "@ + t) =~= b + " · "@ + t);
        },
        None => {},
    }
}

/// Members with one more text, where there is one.
pub open spec fn and_member(members: Seq<(Text, Text)>, name: Text, o: Option<Text>) -> Seq<(Text, Text)> {
    match o {
        Some(t) => members.push((name, json::string(t))),
        None => members,
    }
}

proof fn lemma_thrash_words(class: Text, count: int)
    ensures
        update::thrash_json(class, count) == json::object(
            seq![("class"@, json::string(class)), ("count"@, numeral::dec(count)), ("threshold"@, numeral::dec(3))],
        ),
        update::auto_marked_json(class, count) == json::object(
            seq![
                (
                    "reason"@,
                    json::string("auto-marked: "@ + numeral::dec(count) + " consecutive failures with class="@ + class),
                ),
                ("auto"@, "true"@),
                ("thrash_class"@, json::string(class)),
                ("thrash_count"@, numeral::dec(count)),
            ],
        ),
{
    let none = Seq::<(Text, Text)>::empty();
    let n = numeral::dec(count);
    let x = json::string(class);
    let why = json::string("auto-marked: "@ + numeral::dec(count) + " consecutive failures with class="@ + class);
    assert(none.push(("class"@, x)).push(("count"@, n)).push(("threshold"@, numeral::dec(3))) =~= seq![
        ("class"@, x),
        ("count"@, n),
        ("threshold"@, numeral::dec(3)),
    ]);
    assert(none.push(("reason"@, why)).push(("auto"@, "true"@)).push(("thrash_class"@, x)).push(("thrash_count"@, n)) =~= seq![
        ("reason"@, why),
        ("auto"@, "true"@),
        ("thrash_class"@, x),
        ("thrash_count"@, n),
    ]);
}

proof fn lemma_started_words(aid: int, num: int, trace: Option<Text>)
    ensures
        attempts::started_text(aid, num, trace) == "attempt_id="@ + numeral::dec(aid) + " attempt_num="@ + numeral::dec(num)
            + (match trace {
            Some(x) => " trace_id="@ + x,
            None => Seq::empty(),
        }),
        attempts::started_json(aid, num, trace) == json::object(
            and_member(
                seq![("attempt_id"@, numeral::dec(aid)), ("attempt_num"@, numeral::dec(num))],
                "trace_id"@,
                trace,
            ),
        ),
{
    let s = "attempt_id="@ + numeral::dec(aid) + " attempt_num="@ + numeral::dec(num);
    match trace {
        Some(x) => assert(s + (" trace_id="@ + x) =~= s + " trace_id="@ + x),
        None => assert(s + Seq::<char>::empty() =~= s),
    }
    let none = Seq::<(Text, Text)>::empty();
    assert(none.push(("attempt_id"@, numeral::dec(aid))).push(("attempt_num"@, numeral::dec(num))) =~= seq![
        ("attempt_id"@, numeral::dec(aid)),
        ("attempt_num"@, numeral::dec(num)),
    ]);
}

proof fn lemma_finished_words(aid: int, status: Text, class: Option<Text>)
    ensures
        attempts::finished_text(aid, status, class) == "attempt_id="@ + numeral::dec(aid) + " status="@ + status
            + (match class {
            Some(x) => " failure_class="@ + x,
            None => Seq::empty(),
        }),
        attempts::finished_json(aid, status, class) == json::object(
            and_member(
                seq![("attempt_id"@, numeral::dec(aid)), ("status"@, json::string(status))],
                "failure_class"@,
                class,
            ),
        ),
{
    let s = "attempt_id="@ + numeral::dec(aid) + " status="@ + status;
    match class {
        Some(x) => assert(s + (" failure_class="@ + x) =~= s + " failure_class="@ + x),
        None => assert(s + Seq::<char>::empty() =~= s),
    }
    let none = Seq::<(Text, Text)>::empty();
    assert(none.push(("attempt_id"@, numeral::dec(aid))).push(("status"@, json::string(status))) =~= seq![
        ("attempt_id"@, numeral::dec(aid)),
        ("status"@, json::string(status)),
    ]);
}

proof fn lemma_summary_words(reason: Text, tries: int, retries: int, wall: int, class: Text)
    ensures
        attempts::summary_json(reason, tries, retries, wall, class) == json::object(
            seq![
                ("reason"@, json::string(reason)),
                ("attempts"@, numeral::dec(tries)),
                ("retries"@, numeral::dec(retries)),
                ("wall_clock_secs"@, numeral::dec(wall)),
                ("last_failure_class"@, json::string(class)),
                ("auto_emitted_by"@, json::string("update_task"@)),
            ],
        ),
        recover::deadline_summary_json(tries, retries, wall) == json::object(
            seq![
                ("reason"@, json::string("deadline_exceeded"@)),
                ("attempts"@, numeral::dec(tries)),
                ("retries"@, numeral::dec(retries)),
                ("wall_clock_secs"@, numeral::dec(wall)),
                ("last_failure_class"@, json::string("timeout"@)),
                ("auto_emitted_by"@, json::string("recover_interrupted"@)),
            ],
        ),
{
    let none = Seq::<(Text, Text)>::empty();
    let a = numeral::dec(tries);
    let b = numeral::dec(retries);
    let w = numeral::dec(wall);
    let r = json::string(reason);
    let c = json::string(class);
    let u = json::string("update_task"@);
    assert(none.push(("reason"@, r)).push(("attempts"@, a)).push(("retries"@, b)).push(("wall_clock_secs"@, w)).push(
        ("last_failure_class"@, c),
    ).push(("auto_emitted_by"@, u)) =~= seq![
        ("reason"@, r),
        ("attempts"@, a),
        ("retries"@, b),
        ("wall_clock_secs"@, w),
        ("last_failure_class"@, c),
        ("auto_emitted_by"@, u),
    ]);
    let d = json::string("deadline_exceeded"@);
    let t = json::string("timeout"@);
    let v = json::string("recover_interrupted"@);
    assert(none.push(("reason"@, d)).push(("attempts"@, a)).push(("retries"@, b)).push(("wall_clock_secs"@, w)).push(
        ("last_failure_class"@, t),
    ).push(("auto_emitted_by"@, v)) =~= seq![
        ("reason"@, d),
        ("attempts"@, a),
        ("retries"@, b),
        ("wall_clock_secs"@, w),
        ("last_failure_class"@, t),
        ("auto_emitted_by"@, v),
    ]);
}

proof fn lemma_deadline_words(started: int, limit: int, now: int, aid: int)
    ensures
        recover::interrupted_json(started, limit, now) == json::object(
            seq![
                ("started_at"@, numeral::dec(started)),
                ("max_runtime_secs"@, numeral::dec(limit)),
                ("now"@, numeral::dec(now)),
                ("reason"@, json::string("deadline_exceeded"@)),
            ],
        ),
        recover::timed_out_json(aid) == json::object(
            seq![
                ("attempt_id"@, numeral::dec(aid)),
                ("status"@, json::string("interrupted"@)),
                ("failure_class"@, json::string("timeout"@)),
            ],
        ),
{
    let none = Seq::<(Text, Text)>::empty();
    let a = numeral::dec(started);
    let b = numeral::dec(limit);
    let n = numeral::dec(now);
    let d = json::string("deadline_exceeded"@);
    assert(none.push(("started_at"@, a)).push(("max_runtime_secs"@, b)).push(("now"@, n)).push(("reason"@, d)) =~= seq![
        ("started_at"@, a),
        ("max_runtime_secs"@, b),
        ("now"@, n),
        ("reason"@, d),
    ]);
    let x = numeral::dec(aid);
    let i = json::string("interrupted"@);
    let t = json::string("timeout"@);
    assert(none.push(("attempt_id"@, x)).push(("status"@, i)).push(("failure_class"@, t)) =~= seq![
        ("attempt_id"@, x),
        ("status"@, i),
        ("failure_class"@, t),
    ]);
}

/// What an update writes, after the mark where it marks the task: the number of the attempt that it opened,
/// counted over all tasks and within this one, with the trace; or the attempt that it closed, with the
/// status and the failure class; and behind that the post-mortem, where it writes one.
pub proof fn law_attempts_are_told(l: Ledger, now: i64, i: int, k: int, c: ChangeRec, safe: Option<Text>)
    requires
        l.wf(),
        0 <= i < l.tasks.len(),
        l.attempt_seq < i64::MAX,
        l.tasks[i].head.attempt_count < i64::MAX,
        l.tasks[i].head.current_attempt_id matches Some(aid) ==> 0 <= k < l.attempts.len()
            && l.attempts[k].attempt.attempt_id == aid,
    ensures
        ({
            let t = l.tasks[i];
            let h = t.head;
            let m = l.updated(now, h.task_id, c, safe).0;
            let open = h.current_attempt_id is Some && l.attempts[k].attempt.finished_at is None;
            let ends = c.status == Some("completed"@) || c.status == Some("failed"@) || c.status == Some("cancelled"@);
            let times = streak(t, c.failure_class);
            let marks = c.failure_class is Some && times >= 3 && h.investigation_marked_at is None;
            let old = l.events.len() as int;
            let next = old + if marks {
                2int
            } else {
                0
            };
            let aid = l.attempt_seq + 1;
            let num = h.attempt_count + 1;
            let class = match or_else(c.failure_class, h.last_failure_class) {
                Some(x) => x,
                None => Seq::<char>::empty(),
            };
            let wall: int = match h.started_at {
                Some(s) => if now > s {
                    now - s
                } else {
                    0
                },
                None => 0,
            };
            &&& marks ==> m.events[old].event.event_type == "task.thrash_detected"@ && puts(
                m.events[old].event,
                "consecutive failures class="@ + c.failure_class->0 + " count="@ + numeral::dec(times) + " threshold="@
                    + numeral::dec(3),
                json::object(
                    seq![
                        ("class"@, json::string(c.failure_class->0)),
                        ("count"@, numeral::dec(times)),
                        ("threshold"@, numeral::dec(3)),
                    ],
                ),
            )
            &&& marks ==> m.events[old + 1].event.event_type == "task.investigation_marked"@ && puts(
                m.events[old + 1].event,
                "auto-marked (thrash): count="@ + numeral::dec(times) + " class="@ + c.failure_class->0,
                json::object(
                    seq![
                        (
                            "reason"@,
                            json::string(
                                "auto-marked: "@ + numeral::dec(times) + " consecutive failures with class="@
                                    + c.failure_class->0,
                            ),
                        ),
                        ("auto"@, "true"@),
                        ("thrash_class"@, json::string(c.failure_class->0)),
                        ("thrash_count"@, numeral::dec(times)),
                    ],
                ),
            )
            &&& c.status == Some("running"@) && !open ==> m.events[next].event.event_type == "task.attempt_started"@
                && m.events[next].event.attempt_id == Some(aid as i64) && m.events[next].event.trace_id == c.trace_id && puts(
                m.events[next].event,
                "attempt_id="@ + numeral::dec(aid) + " attempt_num="@ + numeral::dec(num) + (match c.trace_id {
                    Some(x) => " trace_id="@ + x,
                    None => Seq::empty(),
                }),
                json::object(
                    and_member(
                        seq![("attempt_id"@, numeral::dec(aid)), ("attempt_num"@, numeral::dec(num))],
                        "trace_id"@,
                        c.trace_id,
                    ),
                ),
            )
            &&& ends && open ==> m.events[next].event.event_type == "task.attempt_finished"@
                && m.events[next].event.attempt_id == h.current_attempt_id && puts(
                m.events[next].event,
                "attempt_id="@ + numeral::dec(h.current_attempt_id->0 as int) + " status="@ + c.status->0
                    + (match c.failure_class {
                    Some(x) => " failure_class="@ + x,
                    None => Seq::empty(),
                }),
                json::object(
                    and_member(
                        seq![
                            ("attempt_id"@, numeral::dec(h.current_attempt_id->0 as int)),
                            ("status"@, json::string(c.status->0)),
                        ],
                        "failure_class"@,
                        c.failure_class,
                    ),
                ),
            )
            &&& ends && m.events.len() > next + (if open {
                1int
            } else {
                0
            }) ==> puts(
                m.events.last().event,
                m.events.last().event.payload,
                json::object(
                    seq![
                        ("reason"@, json::string(c.status->0)),
                        ("attempts"@, numeral::dec(h.attempt_count as int)),
                        ("retries"@, numeral::dec(h.retry_count as int)),
                        ("wall_clock_secs"@, numeral::dec(wall)),
                        ("last_failure_class"@, json::string(class)),
                        ("auto_emitted_by"@, json::string("update_task"@)),
                    ],
                ),
            )
        }),
{
    let t = l.tasks[i];
    let h = t.head;
    let id = h.task_id;
    ledger::lemma_find_is(l, i);
    if h.current_attempt_id is Some {
        ledger::lemma_attempt_is(l, k);
        if c.status is Some {
            lemma_finished_words(h.current_attempt_id->0 as int, c.status->0, c.failure_class);
        }
    }
    let a = l.changed(now, id, c, safe);
    let p = l.put(id, update::changed_row(l.task(id), now, c, safe));
    ledger::lemma_find_same_ids(l.tasks, p.tasks, id, 0);
    ledger::lemma_find_same_ids(l.tasks, a.tasks, id, 0);
    assert(l.task_sound(l.tasks[i]));
    vocab::lemma_state_words(TaskState::Running);
    vocab::lemma_state_words(TaskState::Completed);
    vocab::lemma_state_words(TaskState::Failed);
    vocab::lemma_state_words(TaskState::Cancelled);
    if c.failure_class is Some {
        lemma_thrash_words(c.failure_class->0, streak(t, c.failure_class));
    }
    lemma_started_words(l.attempt_seq + 1, h.attempt_count + 1, c.trace_id);
    if c.status is Some {
        let s = c.status->0;
        let class = match or_else(c.failure_class, h.last_failure_class) {
            Some(x) => x,
            None => Seq::<char>::empty(),
        };
        let wall: int = match h.started_at {
            Some(s) => if now > s {
                now - s
            } else {
                0
            },
            None => 0,
        };
        lemma_summary_words(s, h.attempt_count as int, h.retry_count as int, wall, class);
        let b = a.attempt_closed(id, s, c.flow_id, c.flow_log_path, c.error_kind, c.error_cause, c.failure_class, now);
        assert(b.tasks == a.tasks);
    }
}

/// What the interruption of an overdue task writes: when its run began, its limit and the time; the attempt
/// that it cut short; and the post-mortem.
pub proof fn law_deadlines_are_told(l: Ledger, now: i64, i: int, k: int, started: i64, limit: i64)
    requires
        l.wf(),
        0 <= i < l.tasks.len(),
        l.tasks[i].head.max_runtime_secs == Some(limit),
        match l.tasks[i].head.current_attempt_id {
            Some(aid) => 0 <= k < l.attempts.len() && l.attempts[k].attempt.attempt_id == aid && started
                == l.attempts[k].attempt.started_at,
            None => l.tasks[i].head.started_at == Some(started),
        },
    ensures
        ({
            let h = l.tasks[i].head;
            let m = l.interrupted(h.task_id, now);
            let old = l.events.len() as int;
            let from = numeral::dec(started as int);
            let most = numeral::dec(limit as int);
            let at = numeral::dec(now as int);
            let wall: int = if now > started {
                now - started
            } else {
                0
            };
            &&& m.events[old].event.event_type == "task.interrupted"@ && puts(
                m.events[old].event,
                "started_at="@ + from + " max_runtime_secs="@ + most + " now="@ + at + " reason=deadline_exceeded"@,
                json::object(
                    seq![
                        ("started_at"@, from),
                        ("max_runtime_secs"@, most),
                        ("now"@, at),
                        ("reason"@, json::string("deadline_exceeded"@)),
                    ],
                ),
            )
            &&& h.current_attempt_id matches Some(aid) ==> m.events[old + 1].event.event_type == "task.attempt_finished"@ && puts(
                m.events[old + 1].event,
                "attempt_id="@ + numeral::dec(aid as int) + " status=interrupted failure_class=timeout"@,
                json::object(
                    seq![
                        ("attempt_id"@, numeral::dec(aid as int)),
                        ("status"@, json::string("interrupted"@)),
                        ("failure_class"@, json::string("timeout"@)),
                    ],
                ),
            )
            &&& m.events.last().event.event_type == "task.terminal_summary"@ && puts(
                m.events.last().event,
                "interrupted by deadline · attempts="@ + numeral::dec(h.attempt_count as int) + " retries="@ + numeral::dec(
                    h.retry_count as int,
                ) + " wall_clock_secs="@ + numeral::dec(wall) + " last_failure_class=timeout"@,
                json::object(
                    seq![
                        ("reason"@, json::string("deadline_exceeded"@)),
                        ("attempts"@, numeral::dec(h.attempt_count as int)),
                        ("retries"@, numeral::dec(h.retry_count as int)),
                        ("wall_clock_secs"@, numeral::dec(wall)),
                        ("last_failure_class"@, json::string("timeout"@)),
                        ("auto_emitted_by"@, json::string("recover_interrupted"@)),
                    ],
                ),
            )
            &&& m.tasks[i].head.last_failure_reason == Some(
                "deadline_exceeded: started_at="@ + from + " max_runtime_secs="@ + most + " now="@ + at,
            )
        }),
{
    let h = l.tasks[i].head;
    ledger::lemma_find_is(l, i);
    if h.current_attempt_id is Some {
        ledger::lemma_attempt_is(l, k);
        lemma_deadline_words(started as int, limit as int, now as int, h.current_attempt_id->0 as int);
    } else {
        lemma_deadline_words(started as int, limit as int, now as int, 0);
    }
    let wall: int = if now > started {
        now - started
    } else {
        0
    };
    lemma_summary_words(Seq::empty(), h.attempt_count as int, h.retry_count as int, wall, Seq::empty());
}

/// What the closing of an orphaned attempt writes: the attempt and the status in which its task stands.
pub proof fn law_orphans_are_told(l: Ledger, now: i64, i: int, k: int)
    requires
        l.wf(),
        0 <= k < l.attempts.len(),
        0 <= i < l.tasks.len(),
        l.attempts[k].task_id == l.tasks[i].head.task_id,
    ensures
        ({
            let m = l.orphan_closed(k, now);
            let e = m.events.last();
            let aid = l.attempts[k].attempt.attempt_id;
            let status = l.tasks[i].head.status;
            &&& e.task_id == l.attempts[k].task_id && e.event.attempt_id == Some(aid)
            &&& puts(
                e.event,
                "attempt_id="@ + numeral::dec(aid as int) + " closed_as=interrupted reason=orphan task_status="@ + status,
                json::object(
                    seq![
                        ("attempt_id"@, numeral::dec(aid as int)),
                        ("closed_as"@, json::string("interrupted"@)),
                        ("reason"@, json::string("orphan"@)),
                        ("task_status"@, json::string(status)),
                    ],
                ),
            )
        }),
{
    ledger::lemma_find_is(l, i);
    let none = Seq::<(Text, Text)>::empty();
    let cur = numeral::dec(l.attempts[k].attempt.attempt_id as int);
    let status = l.tasks[i].head.status;
    assert(none.push(("attempt_id"@, cur)).push(("closed_as"@, json::string("interrupted"@))).push(
        ("reason"@, json::string("orphan"@)),
    ).push(("task_status"@, json::string(status))) =~= seq![
        ("attempt_id"@, cur),
        ("closed_as"@, json::string("interrupted"@)),
        ("reason"@, json::string("orphan"@)),
        ("task_status"@, json::string(status)),
    ]);
}

} // verus!
