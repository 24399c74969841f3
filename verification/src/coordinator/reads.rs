//! The capabilities that only read the ledger: what their arguments mean and what they reply.
use vstd::prelude::*;
use crate::channel;
use crate::coordinator::handlers;
use crate::coordinator::ledger::{Ledger, TaskStore};
use crate::coordinator::lineage;
use crate::coordinator::model::{self, CursorRec, Fault, OwnedEvent, SubtreeMetrics, TaskCursor, TaskEvent};
use crate::coordinator::query;
use crate::coordinator::render;
use crate::coordinator::vocab::{self, EventOrder};
use crate::dispatch::{self, CallRec, HandlerOutcome, InvocationCtx, Reply};
use crate::json;
use crate::numeral;
use crate::outside;
use crate::text::{self, Text};

verus! {

/// A field that holds a count; the default where it is empty or no number.
pub open spec fn usize_field(p: Seq<Text>, i: int, default: usize) -> usize {
    match numeral::parse_usize(text::field(p, i)) {
        Some(n) => if text::field(p, i).len() == 0 {
            default
        } else {
            n
        },
        None => default,
    }
}

/// A field that holds an id; the default where it is empty or no number.
pub open spec fn i64_field(p: Seq<Text>, i: int, default: i64) -> i64 {
    match numeral::parse_i64(text::field(p, i)) {
        Some(n) => if text::field(p, i).len() == 0 {
            default
        } else {
            n
        },
        None => default,
    }
}

fn read_usize_field(p: &Vec<String>, i: usize, default: usize) -> (r: usize)
    ensures
        r == usize_field(text::texts(p@), i as int, default),
{
    match text::filled_field(p, i) {
        Some(t) => match numeral::read_usize(t) {
            Some(n) => n,
            None => default,
        },
        None => default,
    }
}

fn read_i64_field(p: &Vec<String>, i: usize, default: i64) -> (r: i64)
    ensures
        r == i64_field(text::texts(p@), i as int, default),
{
    match text::filled_field(p, i) {
        Some(t) => match numeral::read_i64(t) {
            Some(n) => n,
            None => default,
        },
        None => default,
    }
}

/// What `task.todo_list` replies.
pub open spec fn todo_list_reply(l: Ledger, call: CallRec) -> Reply {
    match call.text() {
        None => call.bad_utf8("task.todo_list utf8: "@),
        Some(s) => {
            let id = text::trim(s);
            if id.len() == 0 {
                Reply::invalid("task.todo_list: task_id required"@)
            } else {
                Reply::body(render::todo_list(l.todos_of(id)))
            }
        },
    }
}

/// `task.todo_list`: a task's todo list.
pub fn handle_todo_list(store: &TaskStore, ctx: &InvocationCtx) -> (r: HandlerOutcome)
    ensures
        r@ == todo_list_reply(store@, ctx@),
{
    let s = match ctx.text_or("task.todo_list utf8: ") {
        Ok(s) => s,
        Err(e) => return e,
    };
    let id = text::trimmed(s.as_str());
    if id.as_str().is_empty() {
        return dispatch::invalid(text::owned("task.todo_list: task_id required"));
    }
    match store.list_task_todos(id.as_str()) {
        Ok(v) => dispatch::body(render::render_todo_list(&v)),
        Err(e) => handlers::internal_outcome("task.todo_list", &e),
    }
}

/// What `task.stuck` replies.
pub open spec fn stuck_reply(l: Ledger, call: CallRec, now: i64) -> Reply {
    match call.text() {
        None => call.bad_utf8("task.stuck utf8: "@),
        Some(s) => {
            let word = text::trim(s);
            match stuck_threshold(word) {
                Ok(n) => {
                    let rows = l.stuck(now, n);
                    Reply::body(render::line(render::stuck_rows(rows), "count="@, numeral::dec(rows.len() as int)))
                },
                Err(cause) => Reply::invalid(cause),
            }
        },
    }
}

/// The age in seconds that `task.stuck` asks for, or why it is refused.
pub open spec fn stuck_threshold(word: Text) -> Result<i64, Text> {
    if word.len() == 0 {
        Ok(300)
    } else {
        match numeral::parse_i64(word) {
            Some(n) => if n >= 0 {
                Ok(n)
            } else {
                Err("task.stuck: threshold must be non-negative"@)
            },
            None => Err("task.stuck: invalid threshold '"@ + word + "' (expected integer seconds)"@),
        }
    }
}

/// `task.stuck`: the running tasks that are older than a threshold at a given time.
pub fn handle_stuck(store: &TaskStore, ctx: &InvocationCtx, now: i64) -> (r: HandlerOutcome)
    requires
        store.wf(),
    ensures
        r@ == stuck_reply(store@, ctx@, now),
{
    let s = match ctx.text_or("task.stuck utf8: ") {
        Ok(s) => s,
        Err(e) => return e,
    };
    let word = text::trimmed(s.as_str());
    let mut threshold: i64 = 300;
    if !word.as_str().is_empty() {
        match numeral::read_i64(word.as_str()) {
            Some(n) => {
                if n < 0 {
                    return dispatch::invalid(text::owned("task.stuck: threshold must be non-negative"));
                }
                threshold = n;
            },
            None => {
                let m = dispatch::glue("task.stuck: invalid threshold '", word.as_str());
                return dispatch::invalid(m.concat("' (expected integer seconds)"));
            },
        }
    }
    match store.stuck_running(now, threshold) {
        Ok(rows) => {
            let mut b = render::stuck_rows_string(&rows);
            b.append("count=");
            numeral::push_usize(&mut b, rows.len());
            b.append("\n");
            assert(model::views(rows@).len() == rows@.len());
            dispatch::body(b)
        },
        Err(e) => handlers::internal_outcome("task.stuck", &e),
    }
}

/// What `task.get` replies.
pub open spec fn get_reply(l: Ledger, call: CallRec) -> Reply {
    match call.text() {
        None => call.bad_utf8("task.get utf8: "@),
        Some(s) => {
            let id = text::trim(s);
            if id.len() == 0 {
                Reply::invalid("task.get: task_id required"@)
            } else {
                match l.detail(id) {
                    Some(v) => Reply::body(render::task_text(v)),
                    None => Reply::invalid("task.get: not found: "@ + id),
                }
            }
        },
    }
}

/// `task.get`: one task with its chronicle.
pub fn handle_get(store: &TaskStore, ctx: &InvocationCtx) -> (r: HandlerOutcome)
    ensures
        r@ == get_reply(store@, ctx@),
{
    let s = match ctx.text_or("task.get utf8: ") {
        Ok(s) => s,
        Err(e) => return e,
    };
    let id = text::trimmed(s.as_str());
    if id.as_str().is_empty() {
        return dispatch::invalid(text::owned("task.get: task_id required"));
    }
    match store.get(id.as_str()) {
        Ok(Some(v)) => dispatch::body(render::render_task_view(&v)),
        Ok(None) => dispatch::invalid(dispatch::glue("task.get: not found: ", id.as_str())),
        Err(e) => handlers::internal_outcome("task.get", &e),
    }
}

/// What `task.list` replies.
pub open spec fn list_reply(l: Ledger, call: CallRec) -> Reply {
    match call.text() {
        None => call.bad_utf8("task.list utf8: "@),
        Some(s) => {
            let p = text::splitn(text::trim(s), '|', 3);
            Reply::body(
                render::summary_rows(
                    l.listed(
                        usize_field(p, 0, 50),
                        usize_field(p, 1, 0),
                        text::non_empty(Some(text::field(p, 2))),
                    ),
                ),
            )
        },
    }
}

/// `task.list`: task rows, most recently updated first, by `limit|offset|status`.
pub fn handle_list(store: &TaskStore, ctx: &InvocationCtx) -> (r: HandlerOutcome)
    ensures
        r@ == list_reply(store@, ctx@),
{
    let s = match ctx.text_or("task.list utf8: ") {
        Ok(s) => s,
        Err(e) => return e,
    };
    let t = text::trimmed(s.as_str());
    let p = text::cut_n(t.as_str(), '|', 3);
    let limit = read_usize_field(&p, 0, 50);
    let offset = read_usize_field(&p, 1, 0);
    match store.list_paginated(limit, offset, text::filled_field(&p, 2)) {
        Ok(rows) => dispatch::body(render::summary_rows_string(&rows)),
        Err(e) => handlers::internal_outcome("task.list", &e),
    }
}

/// Events as lines of one JSON object each.
pub open spec fn event_lines(events: Seq<model::EventRec>) -> Text {
    text::flat(events.map_values(|e: model::EventRec| render::event_json(e) + "\n"@))
}

fn event_lines_string(events: &Vec<TaskEvent>) -> (r: String)
    ensures
        r@ == event_lines(model::views(events@)),
{
    let mut out: Vec<String> = Vec::new();
    let mut i: usize = 0;
    let ghost all = model::views(events@).map_values(|e: model::EventRec| render::event_json(e) + "\n"@);
    while i < events.len()
        invariant
            i <= events@.len(),
            all == model::views(events@).map_values(|e: model::EventRec| render::event_json(e) + "\n"@),
            out@.len() == i,
            forall|k: int| 0 <= k < i ==> (#[trigger] out@[k])@ == all[k],
        decreases events@.len() - i,
    {
        assert(all[i as int] == render::event_json(events@[i as int]@) + "\n"@);
        out.push(render::render_event_json(&events[i]).concat("\n"));
        i = i + 1;
    }
    assert(text::texts(out@) =~= all);
    text::concat_all(&out)
}

/// What `task.events` replies.
pub open spec fn events_reply(l: Ledger, call: CallRec) -> Reply {
    match call.text() {
        None => call.bad_utf8("task.events utf8: "@),
        Some(s) => {
            let p = text::splitn(s, '|', 5);
            let id = text::trim(text::field(p, 0));
            let order = text::field(p, 4);
            if id.len() == 0 {
                Reply::invalid("task.events: task_id required"@)
            } else {
                match EventOrder::of_word(order) {
                    None => Reply::invalid("task.events: bad order: "@ + order),
                    Some(o) => match l.queried(
                        id,
                        i64_field(p, 1, 0),
                        usize_field(p, 2, 200),
                        text::non_empty(Some(text::field(p, 3))),
                        o,
                    ) {
                        Ok(events) => Reply::body(event_lines(events)),
                        Err(f) => handlers::strict_reply("task.events"@, f),
                    },
                }
            }
        },
    }
}

/// `task.events`: a slice of a task's chronicle, by `task_id|after_id|limit|type|order`.
pub fn handle_events(store: &TaskStore, ctx: &InvocationCtx) -> (r: HandlerOutcome)
    ensures
        r@ == events_reply(store@, ctx@),
{
    let s = match ctx.text_or("task.events utf8: ") {
        Ok(s) => s,
        Err(e) => return e,
    };
    let p = text::cut_n(s.as_str(), '|', 5);
    let id = text::trimmed(text::field_of(&p, 0));
    if id.as_str().is_empty() {
        return dispatch::invalid(text::owned("task.events: task_id required"));
    }
    let after = read_i64_field(&p, 1, 0);
    let limit = read_usize_field(&p, 2, 200);
    let word = text::field_of(&p, 4);
    let order = match EventOrder::parse(word) {
        Some(o) => o,
        None => return dispatch::invalid(dispatch::glue("task.events: bad order: ", word)),
    };
    match store.query_events(id.as_str(), after, limit, text::filled_field(&p, 3), order) {
        Ok(events) => dispatch::body(event_lines_string(&events)),
        Err(e) => handlers::strict_outcome("task.events", &e),
    }
}

/// What `task.export` replies.
pub open spec fn export_reply(l: Ledger, call: CallRec, now: i64) -> Reply {
    match call.text() {
        None => call.bad_utf8("task.export utf8: "@),
        Some(s) => {
            let id = text::trim(s);
            if id.len() == 0 {
                Reply::invalid("task.export: task_id required"@)
            } else {
                match l.exported(now, id) {
                    Ok(x) => Reply::body(render::export_json(x)),
                    Err(f) => handlers::strict_reply("task.export"@, f),
                }
            }
        },
    }
}

/// `task.export`: the archival snapshot of one task at a given time.
pub fn handle_export(store: &TaskStore, ctx: &InvocationCtx, now: i64) -> (r: HandlerOutcome)
    ensures
        r@ == export_reply(store@, ctx@, now),
{
    let s = match ctx.text_or("task.export utf8: ") {
        Ok(s) => s,
        Err(e) => return e,
    };
    let id = text::trimmed(s.as_str());
    if id.as_str().is_empty() {
        return dispatch::invalid(text::owned("task.export: task_id required"));
    }
    match store.export_task_at(now, id.as_str()) {
        Ok(x) => dispatch::body(render::render_task_export(&x)),
        Err(e) => handlers::strict_outcome("task.export", &e),
    }
}

/// The refusal of a retention mode.
pub open spec fn bad_mode(mode: Text) -> Text {
    "task.compact_events: mode "@ + outside::debug_text(mode)
        + " not implemented; only \"dry-run\" is shipped (see docs/chronicle-retention.md Step 3)"@
}

/// What `task.compact_events` replies.
pub open spec fn compact_reply(l: Ledger, call: CallRec, now: i64) -> Reply {
    match call.text() {
        None => call.bad_utf8("task.compact_events utf8: "@),
        Some(s) => {
            let p = text::splitn(text::trim(s), '|', 2);
            let age = text::trim(text::field(p, 0));
            let mode = text::trim(text::field(p, 1));
            if age.len() == 0 {
                Reply::invalid("task.compact_events: max_age_secs required"@)
            } else {
                match numeral::parse_i64(age) {
                    Some(n) => if n <= 0 {
                        Reply::invalid("task.compact_events: bad max_age_secs (must be positive integer): "@ + age)
                    } else if mode.len() != 0 && mode != "dry-run"@ {
                        Reply::invalid(bad_mode(mode))
                    } else {
                        Reply::body(render::compact_json(l.compactable(query::clipped(now - n)), "dry-run"@))
                    },
                    None => Reply::invalid(
                        "task.compact_events: bad max_age_secs (must be positive integer): "@ + age,
                    ),
                }
            }
        },
    }
}

/// `task.compact_events`: what a retention by age would delete at a given time.
pub fn handle_compact_events(store: &TaskStore, ctx: &InvocationCtx, now: i64) -> (r: HandlerOutcome)
    ensures
        r@ == compact_reply(store@, ctx@, now),
{
    let s = match ctx.text_or("task.compact_events utf8: ") {
        Ok(s) => s,
        Err(e) => return e,
    };
    let t = text::trimmed(s.as_str());
    let p = text::cut_n(t.as_str(), '|', 2);
    let age_word = text::trimmed(text::field_of(&p, 0));
    let mode = text::trimmed(text::field_of(&p, 1));
    if age_word.as_str().is_empty() {
        return dispatch::invalid(text::owned("task.compact_events: max_age_secs required"));
    }
    let mut age: i64 = 0;
    if let Some(n) = numeral::read_i64(age_word.as_str()) {
        age = n;
    }
    if age <= 0 {
        return dispatch::invalid(
            dispatch::glue(
                "task.compact_events: bad max_age_secs (must be positive integer): ",
                age_word.as_str(),
            ),
        );
    }
    if !mode.as_str().is_empty() && !text::same(mode.as_str(), "dry-run") {
        let quoted = outside::debug_quoted(mode.as_str());
        let m = dispatch::glue("task.compact_events: mode ", quoted.as_str());
        return dispatch::invalid(
            m.concat(
                " not implemented; only \"dry-run\" is shipped (see docs/chronicle-retention.md Step 3)",
            ),
        );
    }
    let cutoff = query::clip(now as i128 - age as i128);
    match store.count_compact_candidates(cutoff) {
        Ok(c) => dispatch::body(render::render_compact_dry_run(&c, "dry-run")),
        Err(e) => handlers::internal_outcome("task.compact_events", &e),
    }
}

/// The cursor in the arguments of `task.list_cursor`; what is malformed counts as none.
pub open spec fn cursor_field(p: Seq<Text>) -> Option<CursorRec> {
    match text::non_empty(Some(text::field(p, 2))) {
        Some(t) => CursorRec::of_wire(t),
        None => None,
    }
}

/// A page as rows and the cursor of the next one.
pub open spec fn page_text(page: model::PageRec) -> Text {
    let next = match page.next_cursor {
        Some(c) => c.wire(),
        None => Seq::empty(),
    };
    render::page_rows(page.items) + "next_cursor="@ + next + "\n"@
}

/// What `task.list_cursor` replies.
pub open spec fn list_cursor_reply(l: Ledger, call: CallRec) -> Reply {
    match call.text() {
        None => call.bad_utf8("task.list_cursor utf8: "@),
        Some(s) => {
            let p = text::splitn(text::trim(s), '|', 3);
            Reply::body(
                page_text(
                    l.page(cursor_field(p), usize_field(p, 0, 50), text::non_empty(Some(text::field(p, 1)))),
                ),
            )
        },
    }
}

/// `task.list_cursor`: one page of tasks, by `limit|status|cursor`.
pub fn handle_list_cursor(store: &TaskStore, ctx: &InvocationCtx) -> (r: HandlerOutcome)
    ensures
        r@ == list_cursor_reply(store@, ctx@),
{
    let s = match ctx.text_or("task.list_cursor utf8: ") {
        Ok(s) => s,
        Err(e) => return e,
    };
    let t = text::trimmed(s.as_str());
    let p = text::cut_n(t.as_str(), '|', 3);
    let limit = read_usize_field(&p, 0, 50);
    let cursor = match text::filled_field(&p, 2) {
        Some(w) => TaskCursor::parse(w),
        None => None,
    };
    match store.list_cursor(cursor, limit, text::filled_field(&p, 1)) {
        Ok(page) => {
            let mut b = render::page_rows_string(&page.items);
            b.append("next_cursor=");
            if let Some(c) = &page.next_cursor {
                let w = c.encode();
                b.append(w.as_str());
            } else {
                assert(b@ =~= b@ + Seq::<char>::empty());
            }
            b.append("\n");
            dispatch::body(b)
        },
        Err(e) => handlers::internal_outcome("task.list_cursor", &e),
    }
}

/// What `task.count` replies.
pub open spec fn count_reply(l: Ledger, call: CallRec) -> Reply {
    match call.text() {
        None => call.bad_utf8("task.count utf8: "@),
        Some(s) => Reply::body(
            "count="@ + numeral::dec(l.counted(text::non_empty(Some(text::trim(s))))) + "\n"@,
        ),
    }
}

/// `task.count`: how many tasks there are, of one status where one is given.
pub fn handle_count(store: &TaskStore, ctx: &InvocationCtx) -> (r: HandlerOutcome)
    requires
        store@.tasks.len() <= i64::MAX,
    ensures
        r@ == count_reply(store@, ctx@),
{
    let s = match ctx.text_or("task.count utf8: ") {
        Ok(s) => s,
        Err(e) => return e,
    };
    let t = text::trimmed(s.as_str());
    match store.count(text::filled_opt(Some(t.as_str()))) {
        Ok(n) => {
            let mut b = text::owned("count=");
            numeral::push_i64(&mut b, n);
            b.append("\n");
            dispatch::body(b)
        },
        Err(e) => handlers::internal_outcome("task.count", &e),
    }
}

/// What `task.attempts` replies.
pub open spec fn attempts_reply(l: Ledger, call: CallRec) -> Reply {
    match call.text() {
        None => call.bad_utf8("task.attempts utf8: "@),
        Some(s) => {
            let id = text::trim(s);
            if id.len() == 0 {
                Reply::invalid("task.attempts: task_id required"@)
            } else {
                Reply::body(render::attempt_rows(l.attempts_of(id)))
            }
        },
    }
}

/// `task.attempts`: the attempts of a task, oldest first.
pub fn handle_attempts(store: &TaskStore, ctx: &InvocationCtx) -> (r: HandlerOutcome)
    ensures
        r@ == attempts_reply(store@, ctx@),
{
    let s = match ctx.text_or("task.attempts utf8: ") {
        Ok(s) => s,
        Err(e) => return e,
    };
    let id = text::trimmed(s.as_str());
    if id.as_str().is_empty() {
        return dispatch::invalid(text::owned("task.attempts: task_id required"));
    }
    match store.list_attempts(id.as_str()) {
        Ok(rows) => dispatch::body(render::attempt_rows_string(&rows)),
        Err(e) => handlers::internal_outcome("task.attempts", &e),
    }
}

/// What `task.edges` replies.
pub open spec fn edges_reply(l: Ledger, call: CallRec) -> Reply {
    match call.text() {
        None => call.bad_utf8("task.edges utf8: "@),
        Some(s) => {
            let id = text::trim(s);
            if id.len() == 0 {
                Reply::invalid("task.edges: task_id required"@)
            } else {
                Reply::body(render::edge_rows(l.edges_of(id)))
            }
        },
    }
}

/// `task.edges`: the execution edges that touch a task.
pub fn handle_edges(store: &TaskStore, ctx: &InvocationCtx) -> (r: HandlerOutcome)
    ensures
        r@ == edges_reply(store@, ctx@),
{
    let s = match ctx.text_or("task.edges utf8: ") {
        Ok(s) => s,
        Err(e) => return e,
    };
    let id = text::trimmed(s.as_str());
    if id.as_str().is_empty() {
        return dispatch::invalid(text::owned("task.edges: task_id required"));
    }
    match store.list_edges_for_task(id.as_str()) {
        Ok(rows) => dispatch::body(render::edge_rows_string(&rows)),
        Err(e) => handlers::internal_outcome("task.edges", &e),
    }
}

/// What `task.recent_edges` replies.
pub open spec fn recent_edges_reply(l: Ledger, call: CallRec) -> Reply {
    match call.text() {
        None => call.bad_utf8("task.recent_edges utf8: "@),
        Some(s) => {
            let p = text::splitn(text::trim(s), '|', 2);
            Reply::body(render::recent_edge_rows(l.recent_edges(i64_field(p, 0, 0), usize_field(p, 1, 50))))
        },
    }
}

/// `task.recent_edges`: the newest edges of all tasks, by `since_edge_id|limit`.
pub fn handle_recent_edges(store: &TaskStore, ctx: &InvocationCtx) -> (r: HandlerOutcome)
    ensures
        r@ == recent_edges_reply(store@, ctx@),
{
    let s = match ctx.text_or("task.recent_edges utf8: ") {
        Ok(s) => s,
        Err(e) => return e,
    };
    let t = text::trimmed(s.as_str());
    let p = text::cut_n(t.as_str(), '|', 2);
    let since = read_i64_field(&p, 0, 0);
    let limit = read_usize_field(&p, 1, 50);
    match store.list_recent_edges(since, limit) {
        Ok(rows) => dispatch::body(render::recent_edge_rows_string(&rows)),
        Err(e) => handlers::internal_outcome("task.recent_edges", &e),
    }
}

/// An event as one JSON object that starts with its task's id.
pub open spec fn owned_event_line(x: OwnedEvent) -> Text {
    json::object(render::event_members(json::with_text(Seq::empty(), "task_id"@, x.task_id), x.event)) + "\n"@
}

/// The same of many, one for each line.
pub open spec fn owned_event_lines(rows: Seq<OwnedEvent>) -> Text {
    text::flat(rows.map_values(|x: OwnedEvent| owned_event_line(x)))
}

fn owned_event_line_string(task_id: &str, ev: &TaskEvent) -> (r: String)
    ensures
        r@ == owned_event_line(OwnedEvent { task_id: task_id@, event: ev@ }),
{
    let mut m = json::Members::new();
    m.text("task_id", task_id);
    render::put_event_members(&mut m, ev);
    let mut b = m.object();
    b.append("\n");
    b
}

fn owned_event_lines_string(rows: &Vec<(String, TaskEvent)>) -> (r: String)
    ensures
        r@ == owned_event_lines(query::owned_events(rows@)),
{
    let mut out: Vec<String> = Vec::new();
    let mut i: usize = 0;
    let ghost all = query::owned_events(rows@).map_values(|x: OwnedEvent| owned_event_line(x));
    while i < rows.len()
        invariant
            i <= rows@.len(),
            all == query::owned_events(rows@).map_values(|x: OwnedEvent| owned_event_line(x)),
            out@.len() == i,
            forall|k: int| 0 <= k < i ==> (#[trigger] out@[k])@ == all[k],
        decreases rows@.len() - i,
    {
        assert(all[i as int] == owned_event_line(
            (OwnedEvent { task_id: rows@[i as int].0@, event: rows@[i as int].1@ }),
        ));
        out.push(owned_event_line_string(rows[i].0.as_str(), &rows[i].1));
        i = i + 1;
    }
    assert(text::texts(out@) =~= all);
    text::concat_all(&out)
}

/// What `task.recent_events` replies.
pub open spec fn recent_events_reply(l: Ledger, call: CallRec) -> Reply {
    match call.text() {
        None => call.bad_utf8("task.recent_events utf8: "@),
        Some(s) => {
            let p = text::splitn(text::trim(s), '|', 3);
            Reply::body(
                owned_event_lines(
                    l.recent_events(
                        i64_field(p, 0, 0),
                        usize_field(p, 1, 100),
                        text::non_empty(Some(text::field(p, 2))),
                    ),
                ),
            )
        },
    }
}

/// `task.recent_events`: the newest events of all tasks, by `since_event_id|limit|type`.
pub fn handle_recent_events(store: &TaskStore, ctx: &InvocationCtx) -> (r: HandlerOutcome)
    ensures
        r@ == recent_events_reply(store@, ctx@),
{
    let s = match ctx.text_or("task.recent_events utf8: ") {
        Ok(s) => s,
        Err(e) => return e,
    };
    let t = text::trimmed(s.as_str());
    let p = text::cut_n(t.as_str(), '|', 3);
    let since = read_i64_field(&p, 0, 0);
    let limit = read_usize_field(&p, 1, 100);
    match store.recent_events_cross_task(since, limit, text::filled_field(&p, 2)) {
        Ok(rows) => dispatch::body(owned_event_lines_string(&rows)),
        Err(e) => handlers::internal_outcome("task.recent_events", &e),
    }
}

/// What `task.lineage` replies.
pub open spec fn lineage_reply(l: Ledger, call: CallRec) -> Reply {
    match call.text() {
        None => call.bad_utf8("task.lineage utf8: "@),
        Some(s) => {
            let p = text::splitn(s, '|', 2);
            let id = text::trim(text::field(p, 0));
            if id.len() == 0 {
                Reply::invalid("task.lineage: task_id required"@)
            } else {
                Reply::body(render::lineage_text(l.lineage(id, usize_field(p, 1, 4))))
            }
        },
    }
}

/// `task.lineage`: what a breadth-first walk from a task reaches, by `task_id|max_depth`.
pub fn handle_lineage(store: &TaskStore, ctx: &InvocationCtx) -> (r: HandlerOutcome)
    ensures
        r@ == lineage_reply(store@, ctx@),
{
    let s = match ctx.text_or("task.lineage utf8: ") {
        Ok(s) => s,
        Err(e) => return e,
    };
    let p = text::cut_n(s.as_str(), '|', 2);
    let id = text::trimmed(text::field_of(&p, 0));
    if id.as_str().is_empty() {
        return dispatch::invalid(text::owned("task.lineage: task_id required"));
    }
    let depth = read_usize_field(&p, 1, 4);
    match store.task_lineage(id.as_str(), depth) {
        Ok(g) => dispatch::body(render::lineage_string(&g)),
        Err(e) => handlers::internal_outcome("task.lineage", &e),
    }
}

/// Whether a reply holds the metrics of a lineage.
pub open spec fn measured(l: Ledger, now: i64, g: lineage::LineageRec, r: Reply) -> bool {
    exists|m: SubtreeMetrics| #[trigger] lineage::measures(l, now, g, m) && r == Reply::body(render::metrics_text(m))
}

fn metrics_outcome(m: &SubtreeMetrics, l: Ghost<Ledger>, now: Ghost<i64>, g: Ghost<lineage::LineageRec>) -> (r: HandlerOutcome)
    requires
        lineage::measures(l@, now@, g@, *m),
    ensures
        measured(l@, now@, g@, r@),
{
    dispatch::body(render::metrics_string(m))
}

/// Whether `task.subtree_metrics` may reply so.
pub open spec fn metrics_reply(l: Ledger, call: CallRec, now: i64, r: Reply) -> bool {
    match call.text() {
        None => r == call.bad_utf8("task.subtree_metrics utf8: "@),
        Some(s) => {
            let p = text::splitn(s, '|', 2);
            let id = text::trim(text::field(p, 0));
            if id.len() == 0 {
                r == Reply::invalid("task.subtree_metrics: task_id required"@)
            } else if !l.has(id) {
                r == handlers::strict_reply("task.subtree_metrics"@, Fault::NotFound(id))
            } else {
                measured(l, now, l.lineage(id, usize_field(p, 1, 4)), r)
            }
        },
    }
}

/// `task.subtree_metrics`: the metrics of what a walk from a task reaches, at a given time.
pub fn handle_subtree_metrics(store: &TaskStore, ctx: &InvocationCtx, now: i64) -> (r: HandlerOutcome)
    requires
        store.wf(),
    ensures
        metrics_reply(store@, ctx@, now, r@),
{
    let s = match ctx.text_or("task.subtree_metrics utf8: ") {
        Ok(s) => s,
        Err(e) => return e,
    };
    let p = text::cut_n(s.as_str(), '|', 2);
    let id = text::trimmed(text::field_of(&p, 0));
    if id.as_str().is_empty() {
        return dispatch::invalid(text::owned("task.subtree_metrics: task_id required"));
    }
    let depth = read_usize_field(&p, 1, 4);
    match store.subtree_metrics_at(now, id.as_str(), depth) {
        Ok(m) => metrics_outcome(&m, Ghost(store@), Ghost(now), Ghost(store@.lineage(id@, depth))),
        Err(e) => handlers::strict_outcome("task.subtree_metrics", &e),
    }
}

/// What `task.transition_check` replies.
pub open spec fn transition_reply(l: Ledger, call: CallRec) -> Reply {
    match call.text() {
        None => call.bad_utf8("task.transition_check utf8: "@),
        Some(s) => {
            let p = text::splitn(s, '|', 2);
            let id = text::trim(text::field(p, 0));
            let target = text::trim(text::field(p, 1));
            if id.len() == 0 || target.len() == 0 {
                Reply::invalid("task.transition_check: arg shape `task_id|target_status`"@)
            } else {
                match l.detail(id) {
                    Some(v) => Reply::body(
                        "allowed="@ + channel::bool_word(vocab::allowed_transition(v.head.status, target))
                            + "\ncurrent_status="@ + v.head.status + "\ntarget_status="@ + target + "\n"@,
                    ),
                    None => Reply::invalid("task.transition_check: not found: "@ + id),
                }
            }
        },
    }
}

/// `task.transition_check`: whether a task may move to a status, by `task_id|target_status`.
pub fn handle_transition_check(store: &TaskStore, ctx: &InvocationCtx) -> (r: HandlerOutcome)
    ensures
        r@ == transition_reply(store@, ctx@),
{
    let s = match ctx.text_or("task.transition_check utf8: ") {
        Ok(s) => s,
        Err(e) => return e,
    };
    let p = text::cut_n(s.as_str(), '|', 2);
    let id = text::trimmed(text::field_of(&p, 0));
    let target = text::trimmed(text::field_of(&p, 1));
    if id.as_str().is_empty() || target.as_str().is_empty() {
        return dispatch::invalid(text::owned("task.transition_check: arg shape `task_id|target_status`"));
    }
    match store.get(id.as_str()) {
        Ok(Some(v)) => {
            let word = if vocab::is_allowed_transition(v.status.as_str(), target.as_str()) {
                "true"
            } else {
                "false"
            };
            let mut b = text::owned("allowed=");
            b.append(word);
            b.append("\ncurrent_status=");
            b.append(v.status.as_str());
            b.append("\ntarget_status=");
            b.append(target.as_str());
            b.append("\n");
            dispatch::body(b)
        },
        Ok(None) => dispatch::invalid(dispatch::glue("task.transition_check: not found: ", id.as_str())),
        Err(e) => handlers::internal_outcome("task.transition_check", &e),
    }
}

/// What `task.interruption_check` replies.
pub open spec fn interruption_reply(l: Ledger, call: CallRec) -> Reply {
    match call.text() {
        None => call.bad_utf8("task.interruption_check utf8: "@),
        Some(s) => {
            let id = text::trim(s);
            if id.len() == 0 {
                Reply::invalid("task.interruption_check: task_id required"@)
            } else {
                match l.snapshot(id) {
                    Ok(x) => Reply::body(
                        "status="@ + x.status + "\npause_generation="@ + numeral::dec(x.pause_generation as int)
                            + "\nfreeze_generation="@ + numeral::dec(x.freeze_generation as int) + "\n"@,
                    ),
                    Err(f) => handlers::strict_reply("task.interruption_check"@, f),
                }
            }
        },
    }
}

/// `task.interruption_check`: status and interruption counters of a task.
pub fn handle_interruption_check(store: &TaskStore, ctx: &InvocationCtx) -> (r: HandlerOutcome)
    ensures
        r@ == interruption_reply(store@, ctx@),
{
    let s = match ctx.text_or("task.interruption_check utf8: ") {
        Ok(s) => s,
        Err(e) => return e,
    };
    let id = text::trimmed(s.as_str());
    if id.as_str().is_empty() {
        return dispatch::invalid(text::owned("task.interruption_check: task_id required"));
    }
    match store.interruption_snapshot(id.as_str()) {
        Ok(x) => {
            let mut b = text::owned("status=");
            b.append(x.status.as_str());
            b.append("\npause_generation=");
            numeral::push_i64(&mut b, x.pause_generation);
            b.append("\nfreeze_generation=");
            numeral::push_i64(&mut b, x.freeze_generation);
            b.append("\n");
            dispatch::body(b)
        },
        Err(e) => handlers::strict_outcome("task.interruption_check", &e),
    }
}

} // verus!
