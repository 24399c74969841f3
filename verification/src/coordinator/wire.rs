//! How the capabilities read their arguments: what a caller writes is what the ledger is asked for.
use vstd::prelude::*;
use vstd::utf8::*;
use crate::coordinator::edges;
use crate::coordinator::handlers;
use crate::coordinator::ledger::Ledger;
use crate::coordinator::model::{CursorRec, Fault};
use crate::coordinator::reads;
use crate::coordinator::render;
use crate::coordinator::update::{self, ChangeRec};
use crate::coordinator::vocab::{self, ErrorKind, EventOrder, RetryPolicy, RetryVerdict};
use crate::dispatch::{CallRec, Reply};
use crate::numeral;
use crate::text::{self, Text};

verus! {

/// A call whose argument is a text.
pub open spec fn says(call: CallRec, t: Text) -> bool {
    call.args == encode_utf8(t)
}

/// A call whose argument holds fields with bars between them, of which at most `n` are told apart.
pub open spec fn lists(call: CallRec, fields: Seq<Text>, n: nat) -> bool {
    &&& says(call, text::joined(fields, seq!['|']))
    &&& 1 <= fields.len() <= n
    &&& forall|k: int| 0 <= k < fields.len() && k < n - 1 ==> !(#[trigger] fields[k]).contains('|')
}

/// The field at a place, empty where the caller left it out.
pub open spec fn at(fields: Seq<Text>, k: int) -> Text {
    if 0 <= k < fields.len() {
        fields[k]
    } else {
        Seq::empty()
    }
}

/// A field that may be left empty.
pub open spec fn given(t: Text) -> Option<Text> {
    if t.len() == 0 {
        None
    } else {
        Some(t)
    }
}

/// A field that is no number: empty, or with a character that is neither a digit nor a sign.
pub open spec fn no_number(t: Text) -> bool {
    t.len() == 0 || exists|k: int|
        0 <= k < t.len() && !(48 <= (#[trigger] t[k]) as int <= 57) && t[k] != '-' && t[k] != '+'
}

/// A field that asks for a number: by its numeral, or for the default by being none.
pub open spec fn counts(t: Text, n: int, default: int) -> bool {
    t == numeral::dec(n) || (n == default && no_number(t))
}

/// A refusal of the arguments.
pub open spec fn refused(r: Reply) -> bool {
    r matches Reply::Error { kind, .. } && kind == ErrorKind::InvalidArgs
}

/// The reply that hands out a text.
pub open spec fn told(r: Reply, t: Text) -> bool {
    r == Reply::Body(encode_utf8(t))
}

/// The reply to an operation that failed: what is missing is the caller's fault, and what the ledger
/// could not do is not.
pub open spec fn turned_down(r: Reply, f: Fault) -> bool {
    &&& r is Error
    &&& f is NotFound ==> refused(r)
    &&& !(f is NotFound) && !(f is Invalid) ==> (r matches Reply::Error { kind, .. } && kind
        == ErrorKind::ResponderInternal)
}

/// A text that was sent is the text that is read.
pub proof fn lemma_says(call: CallRec, t: Text)
    requires
        says(call, t),
    ensures
        call.text() == Some(t),
{
    encode_utf8_valid_utf8(t);
    encode_utf8_decode_utf8(t);
}

/// The fields that were sent are the fields that are read.
pub proof fn lemma_lists(call: CallRec, fields: Seq<Text>, n: nat)
    requires
        lists(call, fields, n),
    ensures
        call.text() == Some(text::joined(fields, seq!['|'])),
        text::splitn(text::joined(fields, seq!['|']), '|', n) == fields,
        forall|k: int| #[trigger] text::field(fields, k) == at(fields, k),
        forall|t: Text| #[trigger] text::non_empty(Some(t)) == given(t),
{
    lemma_says(call, text::joined(fields, seq!['|']));
    text::law_join_then_cut(fields, '|', n);
}

proof fn lemma_counts(fields: Seq<Text>, k: int, n: int, default: int)
    requires
        counts(at(fields, k), n, default),
    ensures
        0 <= n <= usize::MAX && 0 <= default <= usize::MAX ==> reads::usize_field(fields, k, default as usize) == n,
        i64::MIN <= n <= i64::MAX && i64::MIN <= default <= i64::MAX ==> reads::i64_field(fields, k, default as i64) == n,
{
    let t = at(fields, k);
    assert(text::field(fields, k) == t);
    if t == numeral::dec(n) {
        numeral::lemma_dec_chars(n);
        if 0 <= n <= usize::MAX {
            numeral::law_usize_round_trip(n as usize);
        }
        if i64::MIN <= n <= i64::MAX {
            numeral::law_i64_round_trip(n as i64);
        }
    } else {
        lemma_no_number(t);
    }
}

/// What is no number is read as none.
pub proof fn lemma_no_number(t: Text)
    requires
        no_number(t),
    ensures
        numeral::parse_i64(t) is None,
        numeral::parse_usize(t) is None,
{
    if t.len() > 0 {
        let k = choose|k: int|
            0 <= k < t.len() && !(48 <= (#[trigger] t[k]) as int <= 57) && t[k] != '-' && t[k] != '+';
        assert(!numeral::is_digit(t[k]));
    }
    numeral::law_other_texts_are_no_numbers(t);
}

/// A capability that takes a task's id finds it between white space, and tells what the ledger holds
/// of that task; without an id it is refused.
pub proof fn law_ids_are_read(l: Ledger, call: CallRec, now: i64, front: Text, id: Text, back: Text)
    requires
        text::blank(front),
        text::bare(id),
        text::blank(back),
        says(call, front + id + back),
    ensures
        id.len() == 0 ==> refused(reads::get_reply(l, call)) && refused(reads::export_reply(l, call, now)) && refused(
            reads::todo_list_reply(l, call),
        ) && refused(reads::attempts_reply(l, call)) && refused(reads::edges_reply(l, call)) && refused(
            reads::interruption_reply(l, call),
        ),
        id.len() > 0 ==> (match l.detail(id) {
            Some(v) => told(reads::get_reply(l, call), render::task_text(v)),
            None => refused(reads::get_reply(l, call)),
        }),
        id.len() > 0 ==> (match l.exported(now, id) {
            Ok(x) => told(reads::export_reply(l, call, now), render::export_json(x)),
            Err(f) => turned_down(reads::export_reply(l, call, now), f),
        }),
        id.len() > 0 ==> told(
            reads::todo_list_reply(l, call),
            render::todo_rows(l.todos_of(id)) + "count="@ + numeral::dec(l.todos_of(id).len() as int) + "\n"@,
        ),
        id.len() > 0 ==> told(reads::attempts_reply(l, call), render::attempt_rows(l.attempts_of(id))),
        id.len() > 0 ==> told(reads::edges_reply(l, call), render::edge_rows(l.edges_of(id))),
        id.len() > 0 ==> (match l.snapshot(id) {
            Ok(x) => told(
                reads::interruption_reply(l, call),
                "status="@ + x.status + "\npause_generation="@ + numeral::dec(x.pause_generation as int)
                    + "\nfreeze_generation="@ + numeral::dec(x.freeze_generation as int) + "\n"@,
            ),
            Err(f) => turned_down(reads::interruption_reply(l, call), f),
        }),
        told(reads::count_reply(l, call), "count="@ + numeral::dec(l.counted(given(id))) + "\n"@),
{
    lemma_says(call, front + id + back);
    text::law_trimming_takes_the_padding(front, id, back);
}

/// The same of the capabilities that change a task: the operation is done on the task that the caller
/// named and in the caller's name, and what it gave is told.
pub proof fn law_ids_are_acted_on(
    l: Ledger,
    call: CallRec,
    now: i64,
    edge_now: i64,
    fresh: Option<Text>,
    front: Text,
    id: Text,
    back: Text,
)
    requires
        text::blank(front),
        text::bare(id),
        text::blank(back),
        says(call, front + id + back),
    ensures
        id.len() == 0 ==> refused(handlers::retry_reply(l, call, now).1) && handlers::retry_reply(l, call, now).0 == l,
        id.len() == 0 ==> refused(handlers::resume_reply(l, call, now).1) && handlers::resume_reply(l, call, now).0 == l,
        id.len() == 0 ==> refused(handlers::unfreeze_reply(l, call, now).1) && handlers::unfreeze_reply(l, call, now).0
            == l,
        id.len() == 0 ==> refused(handlers::replay_reply(l, call, now, edge_now, fresh).1) && handlers::replay_reply(
            l,
            call,
            now,
            edge_now,
            fresh,
        ).0 == l,
        id.len() > 0 ==> handlers::retry_reply(l, call, now).0 == l.retry_requested(now, id).0 && (match l.retry_requested(
            now,
            id,
        ).1 {
            Ok(RetryVerdict::Accepted { new_retry_count, budget }) => told(
                handlers::retry_reply(l, call, now).1,
                "accepted attempt="@ + numeral::dec(new_retry_count) + " of_budget="@ + numeral::dec(budget) + "\n"@,
            ),
            Ok(RetryVerdict::Exhausted { retry_count, budget }) => told(
                handlers::retry_reply(l, call, now).1,
                "exhausted retry_count="@ + numeral::dec(retry_count) + " budget="@ + numeral::dec(budget) + "\n"@,
            ),
            Ok(RetryVerdict::Rejected { .. }) => refused(handlers::retry_reply(l, call, now).1),
            Err(f) => turned_down(handlers::retry_reply(l, call, now).1, f),
        }),
        id.len() > 0 ==> handlers::resume_reply(l, call, now).0 == l.resumed(now, id, call.caller).0 && (match l.resumed(
            now,
            id,
            call.caller,
        ).1 {
            Ok(was) => told(handlers::resume_reply(l, call, now).1, "pre_pause_status="@ + was + "\n"@),
            Err(f) => turned_down(handlers::resume_reply(l, call, now).1, f),
        }),
        id.len() > 0 ==> handlers::unfreeze_reply(l, call, now).0 == l.unfrozen(now, id, call.caller).0
            && (match l.unfrozen(now, id, call.caller).1 {
            Ok(was) => told(handlers::unfreeze_reply(l, call, now).1, "pre_freeze_status="@ + was + "\n"@),
            Err(f) => turned_down(handlers::unfreeze_reply(l, call, now).1, f),
        }),
        id.len() > 0 ==> handlers::replay_reply(l, call, now, edge_now, fresh).0 == l.replayed_fresh(
            now,
            edge_now,
            fresh,
            id,
            call.caller,
        ).0 && (match l.replayed_fresh(now, edge_now, fresh, id, call.caller).1 {
            Ok(made) => told(handlers::replay_reply(l, call, now, edge_now, fresh).1, made),
            Err(f) => turned_down(handlers::replay_reply(l, call, now, edge_now, fresh).1, f),
        }),
{
    lemma_says(call, front + id + back);
    text::law_trimming_takes_the_padding(front, id, back);
}

/// `task.create` reads eight fields: title and flow template are needed; the owner is the caller where
/// none is named; no policy means no retry, no count of retries none, and no limit no limit. Whatever
/// is malformed is refused and changes nothing.
pub proof fn law_creations_are_read(
    l: Ledger,
    call: CallRec,
    now: i64,
    fresh: Option<Text>,
    fields: Seq<Text>,
    policy: RetryPolicy,
    retries: i64,
    limit: Option<i64>,
)
    requires
        lists(call, fields, 8),
        text::bare(at(fields, 7)),
    ensures
        ({
            let (m, r) = handlers::create_reply(l, call, now, fresh);
            let owner = if at(fields, 3).len() == 0 {
                call.caller
            } else {
                at(fields, 3)
            };
            let (n, made) = l.created_fresh(
                fresh,
                update::new_row(
                    now,
                    Seq::empty(),
                    at(fields, 0),
                    at(fields, 1),
                    at(fields, 2),
                    owner,
                    policy,
                    retries,
                    limit,
                    given(at(fields, 7)),
                ),
            );
            let named = match policy {
                RetryPolicy::Never => at(fields, 4).len() == 0 || at(fields, 4) == "none"@,
                RetryPolicy::Once => at(fields, 4) == "once"@,
                RetryPolicy::Bounded => at(fields, 4) == "bounded"@,
            };
            let counted = if at(fields, 5).len() == 0 {
                retries == 0
            } else {
                at(fields, 5) == numeral::dec(retries as int) && retries >= 0
            };
            let limited = match limit {
                None => at(fields, 6).len() == 0,
                Some(x) => at(fields, 6) == numeral::dec(x as int) && x > 0,
            };
            &&& at(fields, 0).len() > 0 && at(fields, 1).len() > 0 && named && counted && limited ==> m == n && (match made {
                Ok(id) => told(r, id),
                Err(_) => r is Error,
            })
            &&& at(fields, 0).len() == 0 || at(fields, 1).len() == 0 ==> m == l && refused(r)
            &&& at(fields, 4).len() > 0 && at(fields, 4) != "none"@ && at(fields, 4) != "once"@ && at(fields, 4)
                != "bounded"@ ==> m == l && refused(r)
            &&& at(fields, 5).len() > 0 && no_number(at(fields, 5)) ==> m == l && refused(r)
            &&& at(fields, 5) == numeral::dec(retries as int) && retries < 0 ==> m == l && refused(r)
            &&& at(fields, 6).len() > 0 && no_number(at(fields, 6)) ==> m == l && refused(r)
            &&& at(fields, 6) == numeral::dec(retries as int) && retries <= 0 ==> m == l && refused(r)
        }),
{
    lemma_lists(call, fields, 8);
    text::lemma_bare(at(fields, 7));
    reveal_strlit("none");
    reveal_strlit("once");
    reveal_strlit("bounded");
    numeral::law_i64_round_trip(retries);
    numeral::lemma_dec_chars(retries as int);
    match limit {
        Some(x) => {
            numeral::law_i64_round_trip(x);
            numeral::lemma_dec_chars(x as int);
        },
        None => {},
    }
    if no_number(at(fields, 5)) {
        lemma_no_number(at(fields, 5));
    }
    if no_number(at(fields, 6)) {
        lemma_no_number(at(fields, 6));
    }
}

/// A trace id: thirty-two hexadecimal digits.
pub open spec fn traces(t: Text) -> bool {
    &&& t.len() == 32
    &&& forall|i: int|
        0 <= i < t.len() ==> (48 <= (#[trigger] t[i]) as int <= 57 || 65 <= t[i] as int <= 70 || 97 <= t[i] as int <= 102)
}

proof fn lemma_hex_bytes(t: Text)
    requires
        forall|i: int| 0 <= i < t.len() ==> handlers::is_hex(#[trigger] t[i]),
    ensures
        text::byte_len(t) == t.len(),
    decreases t.len(),
{
    if t.len() > 0 {
        assert(handlers::is_hex(t[0]));
        let rest = t.drop_first();
        assert forall|i: int| 0 <= i < rest.len() implies handlers::is_hex(#[trigger] rest[i]) by {
            assert(handlers::is_hex(t[i + 1]));
        }
        lemma_hex_bytes(rest);
    }
}

proof fn lemma_traces(t: Text)
    ensures
        handlers::is_trace_id(t) == traces(t),
{
    if forall|i: int| 0 <= i < t.len() ==> handlers::is_hex(#[trigger] t[i]) {
        lemma_hex_bytes(t);
        assert forall|i: int| 0 <= i < t.len() implies (48 <= (#[trigger] t[i]) as int <= 57 || 65 <= t[i] as int <= 70 || 97
            <= t[i] as int <= 102) by {
            assert(handlers::is_hex(t[i]));
        }
    } else {
        let i = choose|i: int| 0 <= i < t.len() && !handlers::is_hex(#[trigger] t[i]);
        assert(!(48 <= t[i] as int <= 57 || 65 <= t[i] as int <= 70 || 97 <= t[i] as int <= 102));
    }
}

/// `task.update` reads nine fields: the task, then status, result, flow, log path, error number and
/// cause, failure class and trace id, each left as it was where the field is empty. The error cause is
/// handed on to be scrubbed.
pub proof fn law_updates_are_read(
    l: Ledger,
    call: CallRec,
    now: i64,
    safe: Option<Text>,
    fields: Seq<Text>,
    error: Option<i64>,
)
    requires
        lists(call, fields, 9),
        match error {
            Some(n) => at(fields, 5) == numeral::dec(n as int),
            None => no_number(at(fields, 5)),
        },
    ensures
        ({
            let (m, r) = handlers::update_reply(l, call, now, safe);
            let c = ChangeRec {
                status: given(at(fields, 1)),
                result: given(at(fields, 2)),
                flow_id: given(at(fields, 3)),
                flow_log_path: given(at(fields, 4)),
                error_kind: error,
                error_cause: given(at(fields, 6)),
                failure_class: given(at(fields, 7)),
                trace_id: given(at(fields, 8)),
            };
            let (n, done) = l.updated(now, at(fields, 0), c, safe);
            let class = at(fields, 7);
            let classed = class.len() == 0 || class == "transient"@ || class == "permanent"@ || class == "policy_denied"@
                || class == "invalid_args"@ || class == "timeout"@ || class == "unavailable"@;
            let traced = at(fields, 8).len() == 0 || traces(at(fields, 8));
            &&& at(fields, 0).len() > 0 && classed && traced ==> m == n && (match done {
                Ok(_) => told(r, "ok\n"@),
                Err(f) => turned_down(r, f),
            })
            &&& at(fields, 0).len() == 0 || !classed || !traced ==> m == l && refused(r)
            &&& handlers::update_cause(call) == given(at(fields, 6))
        }),
{
    lemma_lists(call, fields, 9);
    lemma_traces(at(fields, 8));
    match error {
        Some(n) => {
            numeral::law_i64_round_trip(n);
            numeral::lemma_dec_chars(n as int);
        },
        None => lemma_no_number(at(fields, 5)),
    }
}

/// `task.event` reads three fields: task, type and payload, of which the payload may hold bars.
pub proof fn law_events_are_read(l: Ledger, call: CallRec, now: i64, fields: Seq<Text>)
    requires
        lists(call, fields, 3),
    ensures
        ({
            let (m, r) = handlers::event_reply(l, call, now);
            let (n, done) = l.event_appended(now, at(fields, 0), at(fields, 1), at(fields, 2));
            &&& at(fields, 0).len() > 0 && at(fields, 1).len() > 0 ==> m == n && (match done {
                Ok(e) => told(r, numeral::dec(e as int)),
                Err(f) => turned_down(r, f),
            })
            &&& at(fields, 0).len() == 0 || at(fields, 1).len() == 0 ==> m == l && refused(r)
        }),
{
    lemma_lists(call, fields, 3);
}

/// `task.note`, `task.pause` and `task.freeze` read two fields: the task and a text, which may hold
/// bars, is handed on to be scrubbed, and is needed for a note alone.
pub proof fn law_notes_and_reasons_are_read(
    l: Ledger,
    call: CallRec,
    now: i64,
    note: Text,
    safe: Option<Text>,
    fields: Seq<Text>,
)
    requires
        lists(call, fields, 2),
    ensures
        ({
            let (m, r) = handlers::note_reply(l, call, now, note);
            let (n, done) = l.noted(now, at(fields, 0), at(fields, 1), note, call.caller);
            &&& at(fields, 0).len() > 0 && at(fields, 1).len() > 0 ==> m == n && (match done {
                Ok(e) => told(r, "event_id="@ + numeral::dec(e as int) + "\n"@),
                Err(f) => turned_down(r, f),
            })
            &&& at(fields, 0).len() == 0 || at(fields, 1).len() == 0 ==> m == l && refused(r)
            &&& handlers::note_of(call) == at(fields, 1)
        }),
        ({
            let (m, r) = handlers::pause_reply(l, call, now, safe);
            let (n, done) = l.paused(now, at(fields, 0), given(at(fields, 1)), safe, call.caller);
            &&& at(fields, 0).len() > 0 ==> m == n && (match done {
                Ok(was) => told(r, "prior_status="@ + was + "\n"@),
                Err(f) => turned_down(r, f),
            })
            &&& at(fields, 0).len() == 0 ==> m == l && refused(r)
        }),
        ({
            let (m, r) = handlers::freeze_reply(l, call, now, safe);
            let (n, done) = l.frozen(now, at(fields, 0), given(at(fields, 1)), safe, call.caller);
            &&& at(fields, 0).len() > 0 ==> m == n && (match done {
                Ok(was) => told(r, "prior_status="@ + was + "\n"@),
                Err(f) => turned_down(r, f),
            })
            &&& at(fields, 0).len() == 0 ==> m == l && refused(r)
        }),
        handlers::reason_of(call) == given(at(fields, 1)),
{
    lemma_lists(call, fields, 2);
}

/// `task.mark_investigation` reads three fields: the task, whether to mark it, and why. `1` and `true`
/// mark; `0`, `false` and nothing take the mark away; any other word is refused.
pub proof fn law_marks_are_read(l: Ledger, call: CallRec, now: i64, safe: Option<Text>, fields: Seq<Text>, marked: bool)
    requires
        lists(call, fields, 3),
    ensures
        ({
            let (m, r) = handlers::mark_reply(l, call, now, safe);
            let (n, done) = l.investigation_set(now, at(fields, 0), marked, given(at(fields, 2)), safe, call.caller);
            let on = at(fields, 1) == "1"@ || at(fields, 1) == "true"@;
            let off = at(fields, 1) == "0"@ || at(fields, 1) == "false"@ || at(fields, 1).len() == 0;
            &&& at(fields, 0).len() > 0 && (if marked {
                on
            } else {
                off
            }) ==> m == n && (match done {
                Ok(Some(ts)) => told(r, "marked_at="@ + numeral::dec(ts as int) + "\n"@),
                Ok(None) => told(r, "marked_at=\n"@),
                Err(f) => turned_down(r, f),
            })
            &&& at(fields, 0).len() == 0 || !(on || off) ==> m == l && refused(r)
            &&& handlers::mark_reason(call) == given(at(fields, 2))
        }),
{
    lemma_lists(call, fields, 3);
    reveal_strlit("1");
    reveal_strlit("true");
    reveal_strlit("0");
    reveal_strlit("false");
    if marked {
        assert(at(fields, 1) == "1"@ ==> at(fields, 1)[0] == '1');
        assert("0"@[0] == '0');
    } else {
        assert(at(fields, 1) == "0"@ ==> at(fields, 1)[0] == '0');
        assert(at(fields, 1) == "false"@ ==> at(fields, 1)[0] == 'f');
        assert("1"@[0] == '1' && "true"@[0] == 't');
    }
}

/// `task.observe_interruption` reads three fields: task, kind and generation, each without the white
/// space around it. None of them may be missing, and the generation is a number.
pub proof fn law_observations_are_read(l: Ledger, call: CallRec, now: i64, fields: Seq<Text>, generation: i64)
    requires
        lists(call, fields, 3),
        forall|k: int| text::bare(#[trigger] at(fields, k)),
    ensures
        ({
            let (m, r) = handlers::observe_reply(l, call, now);
            let (n, done) = l.observed(now, at(fields, 0), at(fields, 1), generation, call.caller);
            &&& at(fields, 0).len() > 0 && at(fields, 1).len() > 0 && at(fields, 2) == numeral::dec(generation as int) ==> m
                == n && (match done {
                Ok(e) => told(r, "event_id="@ + numeral::dec(e as int) + "\n"@),
                Err(f) => turned_down(r, f),
            })
            &&& at(fields, 0).len() == 0 || at(fields, 1).len() == 0 || no_number(at(fields, 2)) ==> m == l && refused(r)
        }),
{
    lemma_lists(call, fields, 3);
    text::lemma_bare(at(fields, 0));
    text::lemma_bare(at(fields, 1));
    text::lemma_bare(at(fields, 2));
    numeral::law_i64_round_trip(generation);
    numeral::lemma_dec_chars(generation as int);
    if no_number(at(fields, 2)) {
        lemma_no_number(at(fields, 2));
    }
}

/// The capabilities that record an edge read the two tasks without the white space around them; both
/// are needed. What follows is the branch and context of a spawned task, or the reason of a delegation
/// or a wait. The caller is the one who records.
pub proof fn law_edges_are_read(l: Ledger, call: CallRec, now: i64, fields: Seq<Text>)
    requires
        text::bare(at(fields, 0)),
        text::bare(at(fields, 1)),
    ensures
        lists(call, fields, 4) ==> ({
            let (m, r) = handlers::spawned_reply(l, call, now);
            let (n, done) = l.edge_recorded(
                now,
                edges::spawned_request(
                    at(fields, 0),
                    at(fields, 1),
                    given(at(fields, 2)),
                    given(at(fields, 3)),
                    call.caller,
                ),
            );
            &&& at(fields, 0).len() > 0 && at(fields, 1).len() > 0 ==> m == n && (match done {
                Ok(o) => told(
                    r,
                    "edge_id="@ + numeral::dec(o.edge_id as int) + "\nevent_id="@ + numeral::dec(o.event_id as int) + "\n"@,
                ),
                Err(f) => turned_down(r, f),
            })
            &&& at(fields, 0).len() == 0 || at(fields, 1).len() == 0 ==> m == l && refused(r)
        }),
        lists(call, fields, 3) ==> ({
            let (m, r) = handlers::delegated_reply(l, call, now);
            let (n, done) = l.edge_recorded(
                now,
                edges::delegated_request(at(fields, 0), at(fields, 1), given(at(fields, 2)), call.caller),
            );
            &&& at(fields, 0).len() > 0 && at(fields, 1).len() > 0 ==> m == n && (match done {
                Ok(o) => told(
                    r,
                    "edge_id="@ + numeral::dec(o.edge_id as int) + "\nevent_id="@ + numeral::dec(o.event_id as int) + "\n"@,
                ),
                Err(f) => turned_down(r, f),
            })
            &&& at(fields, 0).len() == 0 || at(fields, 1).len() == 0 ==> m == l && refused(r)
        }),
        lists(call, fields, 3) ==> ({
            let (m, r) = handlers::awaited_reply(l, call, now);
            let (n, done) = l.edge_recorded(
                now,
                edges::awaited_request(at(fields, 0), at(fields, 1), given(at(fields, 2)), call.caller),
            );
            &&& at(fields, 0).len() > 0 && at(fields, 1).len() > 0 ==> m == n && (match done {
                Ok(o) => told(
                    r,
                    "edge_id="@ + numeral::dec(o.edge_id as int) + "\nevent_id="@ + numeral::dec(o.event_id as int) + "\n"@,
                ),
                Err(f) => turned_down(r, f),
            })
            &&& at(fields, 0).len() == 0 || at(fields, 1).len() == 0 ==> m == l && refused(r)
        }),
{
    text::lemma_bare(at(fields, 0));
    text::lemma_bare(at(fields, 1));
    if lists(call, fields, 4) {
        lemma_lists(call, fields, 4);
    }
    if lists(call, fields, 3) {
        lemma_lists(call, fields, 3);
    }
}

/// `task.todo_update` reads three fields, each without the white space around it: the task, the number
/// of the todo, and its new status. One of them missing, or no number, is refused.
pub proof fn law_todo_changes_are_read(l: Ledger, call: CallRec, now: i64, fields: Seq<Text>, todo: i64)
    requires
        lists(call, fields, 3),
        forall|k: int| text::bare(#[trigger] at(fields, k)),
    ensures
        ({
            let (m, r) = handlers::todo_update_reply(l, call, now);
            let (n, done) = l.todo_updated(now, at(fields, 0), todo, at(fields, 2));
            &&& fields.len() == 3 && at(fields, 1) == numeral::dec(todo as int) ==> m == n && (match done {
                Ok(item) => told(r, render::todo_row(item)),
                Err(f) => turned_down(r, f),
            })
            &&& fields.len() < 3 || no_number(at(fields, 1)) ==> m == l && refused(r)
        }),
{
    lemma_lists(call, fields, 3);
    text::lemma_bare(at(fields, 0));
    text::lemma_bare(at(fields, 1));
    text::lemma_bare(at(fields, 2));
    numeral::law_i64_round_trip(todo);
    if no_number(at(fields, 1)) {
        lemma_no_number(at(fields, 1));
    }
}

proof fn lemma_todo_items(lines: Seq<Text>, items: Seq<Text>)
    requires
        lines.len() == items.len(),
        forall|k: int| 0 <= k < lines.len() ==> text::trim(#[trigger] lines[k]) == items[k],
    ensures
        lines.filter_map(|t: Text| text::non_empty(Some(text::trim(t)))) == items.filter(|t: Text| t.len() > 0),
    decreases lines.len(),
{
    reveal(Seq::filter);
    if lines.len() > 0 {
        assert(text::trim(lines[lines.len() - 1]) == items[lines.len() - 1]);
        assert forall|k: int| 0 <= k < lines.drop_last().len() implies text::trim(#[trigger] lines.drop_last()[k])
            == items.drop_last()[k] by {
            assert(text::trim(lines[k]) == items[k]);
        }
        lemma_todo_items(lines.drop_last(), items.drop_last());
        let kept = items.drop_last().filter(|t: Text| t.len() > 0);
        assert(kept + seq![items.last()] =~= kept.push(items.last()));
    }
}

/// `task.todo_set` reads the task in front of the first bar and one item from each line behind it,
/// without the white space around it; blank lines are left out. The items are handed on to be scrubbed.
pub proof fn law_todo_lists_are_read(
    l: Ledger,
    call: CallRec,
    now: i64,
    safe: Seq<Text>,
    id: Text,
    lines: Seq<Text>,
    items: Seq<Text>,
)
    requires
        !id.contains('|'),
        text::bare(id),
        lines.len() == items.len() > 0,
        forall|k: int| 0 <= k < lines.len() ==> !(#[trigger] lines[k]).contains('\n'),
        forall|k: int| 0 <= k < lines.len() ==> text::trim(#[trigger] lines[k]) == items[k],
        says(call, id + seq!['|'] + text::joined(lines, seq!['\n'])),
    ensures
        ({
            let (m, r) = handlers::todo_set_reply(l, call, now, safe);
            let kept = items.filter(|t: Text| t.len() > 0);
            let (n, done) = l.todos_set(now, id, kept, safe);
            &&& id.len() > 0 ==> m == n && (match done {
                Ok(rows) => told(
                    r,
                    render::todo_rows(rows) + "count="@ + numeral::dec(rows.len() as int) + "\n"@,
                ),
                Err(f) => turned_down(r, f),
            })
            &&& id.len() == 0 ==> m == l && refused(r)
            &&& handlers::todo_set_items(call) == kept
        }),
{
    let rest = text::joined(lines, seq!['\n']);
    lemma_says(call, id + seq!['|'] + rest);
    text::law_join_then_cut_once(id, rest, '|');
    text::lemma_bare(id);
    text::law_join_then_split(lines, '\n');
    lemma_todo_items(lines, items);
}

/// The capabilities that list rows read how many, from where, and of which kind. What is left out, or
/// is no number, stands for the default.
pub proof fn law_listings_are_read(l: Ledger, call: CallRec, fields: Seq<Text>, first: int, second: int)
    requires
        text::bare(text::joined(fields, seq!['|'])),
    ensures
        lists(call, fields, 3) && 0 <= first <= usize::MAX && 0 <= second <= usize::MAX && counts(at(fields, 0), first, 50)
            && counts(at(fields, 1), second, 0) ==> told(
            reads::list_reply(l, call),
            render::summary_rows(l.listed(first as usize, second as usize, given(at(fields, 2)))),
        ),
        lists(call, fields, 3) && i64::MIN <= first <= i64::MAX && 0 <= second <= usize::MAX && counts(
            at(fields, 0),
            first,
            0,
        ) && counts(at(fields, 1), second, 100) ==> told(
            reads::recent_events_reply(l, call),
            reads::owned_event_lines(l.recent_events(first as i64, second as usize, given(at(fields, 2)))),
        ),
        lists(call, fields, 2) && i64::MIN <= first <= i64::MAX && 0 <= second <= usize::MAX && counts(
            at(fields, 0),
            first,
            0,
        ) && counts(at(fields, 1), second, 50) ==> told(
            reads::recent_edges_reply(l, call),
            render::recent_edge_rows(l.recent_edges(first as i64, second as usize)),
        ),
{
    text::lemma_bare(text::joined(fields, seq!['|']));
    if lists(call, fields, 3) {
        lemma_lists(call, fields, 3);
        if counts(at(fields, 0), first, 50) {
            lemma_counts(fields, 0, first, 50);
        }
        if counts(at(fields, 0), first, 0) {
            lemma_counts(fields, 0, first, 0);
        }
        if counts(at(fields, 1), second, 0) {
            lemma_counts(fields, 1, second, 0);
        }
        if counts(at(fields, 1), second, 100) {
            lemma_counts(fields, 1, second, 100);
        }
    }
    if lists(call, fields, 2) {
        lemma_lists(call, fields, 2);
        if counts(at(fields, 0), first, 0) {
            lemma_counts(fields, 0, first, 0);
        }
        if counts(at(fields, 1), second, 50) {
            lemma_counts(fields, 1, second, 50);
        }
    }
}

/// `task.list_cursor` reads how many rows, of which status, and from which cursor on: the one that an
/// earlier page ended with. The page ends with the cursor of the next one, or with none.
pub proof fn law_pages_are_read(l: Ledger, call: CallRec, fields: Seq<Text>, limit: usize, cursor: Option<CursorRec>)
    requires
        text::bare(text::joined(fields, seq!['|'])),
        lists(call, fields, 3),
        counts(at(fields, 0), limit as int, 50),
        match cursor {
            Some(c) => c.task_id.len() > 0 && at(fields, 2) == numeral::dec(c.updated_at as int) + ":"@ + c.task_id,
            None => !at(fields, 2).contains(':'),
        },
    ensures
        ({
            let page = l.page(cursor, limit, given(at(fields, 1)));
            let next = match page.next_cursor {
                Some(c) => numeral::dec(c.updated_at as int) + ":"@ + c.task_id,
                None => Seq::empty(),
            };
            told(reads::list_cursor_reply(l, call), render::page_rows(page.items) + "next_cursor="@ + next + "\n"@)
        }),
{
    text::lemma_bare(text::joined(fields, seq!['|']));
    lemma_lists(call, fields, 3);
    lemma_counts(fields, 0, limit as int, 50);
    reveal_strlit(":");
    let t = at(fields, 2);
    match cursor {
        Some(c) => {
            assert(":"@ =~= seq![':']);
            numeral::lemma_dec_lacks(c.updated_at as int, ':');
            text::law_join_then_cut_once(numeral::dec(c.updated_at as int), c.task_id, ':');
            numeral::law_i64_round_trip(c.updated_at);
            assert(t.len() > 0);
        },
        None => {
            text::lemma_index_from(t, ':', 0);
            if text::index_of(t, ':') < t.len() {
                assert(t[text::index_of(t, ':')] == ':');
            }
        },
    }
}

/// `task.events` reads task, last seen event, number of rows, type and direction; without them it gives
/// the first two hundred of all types, oldest first.
pub proof fn law_event_queries_are_read(
    l: Ledger,
    call: CallRec,
    fields: Seq<Text>,
    after: i64,
    limit: usize,
    newest_first: bool,
)
    requires
        lists(call, fields, 5),
        text::bare(at(fields, 0)),
        counts(at(fields, 1), after as int, 0),
        counts(at(fields, 2), limit as int, 200),
    ensures
        ({
            let r = reads::events_reply(l, call);
            let order = if newest_first {
                EventOrder::Desc
            } else {
                EventOrder::Asc
            };
            let asked = if newest_first {
                at(fields, 4) == "desc"@
            } else {
                at(fields, 4) == "asc"@ || at(fields, 4).len() == 0
            };
            &&& at(fields, 0).len() > 0 && asked ==> (match l.queried(
                at(fields, 0),
                after,
                limit,
                given(at(fields, 3)),
                order,
            ) {
                Ok(events) => told(r, reads::event_lines(events)),
                Err(f) => turned_down(r, f),
            })
            &&& at(fields, 0).len() == 0 ==> refused(r)
            &&& at(fields, 4).len() > 0 && at(fields, 4) != "asc"@ && at(fields, 4) != "desc"@ ==> refused(r)
        }),
{
    lemma_lists(call, fields, 5);
    text::lemma_bare(at(fields, 0));
    lemma_counts(fields, 1, after as int, 0);
    lemma_counts(fields, 2, limit as int, 200);
    reveal_strlit("asc");
    reveal_strlit("desc");
}

/// `task.lineage` and `task.subtree_metrics` read the task and how deep to walk from it: four edges
/// where no depth is given.
pub proof fn law_lineages_are_read(l: Ledger, call: CallRec, now: i64, fields: Seq<Text>, depth: usize, r: Reply)
    requires
        lists(call, fields, 2),
        text::bare(at(fields, 0)),
        counts(at(fields, 1), depth as int, 4),
    ensures
        at(fields, 0).len() > 0 ==> told(
            reads::lineage_reply(l, call),
            render::lineage_text(l.lineage(at(fields, 0), depth)),
        ),
        at(fields, 0).len() == 0 ==> refused(reads::lineage_reply(l, call)),
        reads::metrics_reply(l, call, now, r) ==> (if at(fields, 0).len() == 0 || !l.has(at(fields, 0)) {
            refused(r)
        } else {
            reads::measured(l, now, l.lineage(at(fields, 0), depth), r)
        }),
{
    lemma_lists(call, fields, 2);
    text::lemma_bare(at(fields, 0));
    lemma_counts(fields, 1, depth as int, 4);
}

/// `task.stuck` reads an age in seconds, five minutes where none is given; a negative one and what is no
/// number are refused.
pub proof fn law_ages_are_read(l: Ledger, call: CallRec, now: i64, front: Text, word: Text, back: Text, age: i64)
    requires
        text::blank(front),
        text::bare(word),
        text::blank(back),
        says(call, front + word + back),
    ensures
        ({
            let r = reads::stuck_reply(l, call, now);
            let rows = l.stuck(now, age);
            &&& (word.len() == 0 && age == 300) || (word == numeral::dec(age as int) && age >= 0) ==> told(
                r,
                render::stuck_rows(rows) + "count="@ + numeral::dec(rows.len() as int) + "\n"@,
            )
            &&& word.len() > 0 && no_number(word) ==> refused(r)
            &&& word == numeral::dec(age as int) && age < 0 ==> refused(r)
        }),
{
    lemma_says(call, front + word + back);
    text::law_trimming_takes_the_padding(front, word, back);
    numeral::law_i64_round_trip(age);
    numeral::lemma_dec_chars(age as int);
    if no_number(word) {
        lemma_no_number(word);
    }
}

/// `task.compact_events` reads an age in seconds and a mode: the age is needed and positive, the only
/// mode is the dry run, and events older than that age are reported.
pub proof fn law_retention_requests_are_read(l: Ledger, call: CallRec, now: i64, fields: Seq<Text>, age: i64)
    requires
        lists(call, fields, 2),
        text::bare(text::joined(fields, seq!['|'])),
        text::bare(at(fields, 0)),
        text::bare(at(fields, 1)),
    ensures
        ({
            let r = reads::compact_reply(l, call, now);
            let cutoff = if now - age < i64::MIN {
                i64::MIN as int
            } else {
                now - age
            };
            let modes = at(fields, 1).len() == 0 || at(fields, 1) == "dry-run"@;
            &&& at(fields, 0) == numeral::dec(age as int) && age > 0 && modes ==> told(
                r,
                render::compact_json(l.compactable(cutoff as i64), "dry-run"@),
            )
            &&& !modes || no_number(at(fields, 0)) || (at(fields, 0) == numeral::dec(age as int) && age <= 0) ==> refused(r)
        }),
{
    text::lemma_bare(text::joined(fields, seq!['|']));
    lemma_lists(call, fields, 2);
    text::lemma_bare(at(fields, 0));
    text::lemma_bare(at(fields, 1));
    numeral::law_i64_round_trip(age);
    numeral::lemma_dec_chars(age as int);
    if no_number(at(fields, 0)) {
        lemma_no_number(at(fields, 0));
    }
}

/// `task.transition_check` reads task and status, and tells whether that move is allowed from where the
/// task stands.
pub proof fn law_transition_checks_are_read(l: Ledger, call: CallRec, fields: Seq<Text>)
    requires
        lists(call, fields, 2),
        text::bare(at(fields, 0)),
        text::bare(at(fields, 1)),
    ensures
        ({
            let r = reads::transition_reply(l, call);
            if at(fields, 0).len() == 0 || at(fields, 1).len() == 0 {
                refused(r)
            } else {
                match l.detail(at(fields, 0)) {
                    None => refused(r),
                    Some(v) => told(
                        r,
                        "allowed="@ + (if vocab::allowed_transition(v.head.status, at(fields, 1)) {
                            "true"@
                        } else {
                            "false"@
                        }) + "\ncurrent_status="@ + v.head.status + "\ntarget_status="@ + at(fields, 1) + "\n"@,
                    ),
                }
            }
        }),
{
    lemma_lists(call, fields, 2);
    text::lemma_bare(at(fields, 0));
    text::lemma_bare(at(fields, 1));
}

/// What is no valid text is refused by every capability that reads one, and changes nothing.
pub proof fn law_broken_texts_are_refused(l: Ledger, call: CallRec, now: i64, safe: Option<Text>, fresh: Option<Text>)
    requires
        !valid_utf8(call.args),
    ensures
        refused(handlers::create_reply(l, call, now, fresh).1) && handlers::create_reply(l, call, now, fresh).0 == l,
        refused(handlers::update_reply(l, call, now, safe).1) && handlers::update_reply(l, call, now, safe).0 == l,
        refused(handlers::event_reply(l, call, now).1) && handlers::event_reply(l, call, now).0 == l,
        refused(handlers::retry_reply(l, call, now).1) && handlers::retry_reply(l, call, now).0 == l,
        refused(handlers::pause_reply(l, call, now, safe).1) && handlers::pause_reply(l, call, now, safe).0 == l,
        refused(handlers::freeze_reply(l, call, now, safe).1) && handlers::freeze_reply(l, call, now, safe).0 == l,
        refused(handlers::resume_reply(l, call, now).1) && handlers::resume_reply(l, call, now).0 == l,
        refused(handlers::unfreeze_reply(l, call, now).1) && handlers::unfreeze_reply(l, call, now).0 == l,
        refused(reads::get_reply(l, call)) && refused(reads::list_reply(l, call)) && refused(reads::events_reply(l, call)),
{
}

} // verus!
