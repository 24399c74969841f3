//! What listings show of the rows of the ledger: which rows, in which order, and how many.
use vstd::prelude::*;
use crate::coordinator::edges;
use crate::coordinator::ledger::{self, Ledger};
use crate::coordinator::model::{CursorRec, EventRec, ExportRec, Fault, OwnedEvent, SummaryRec, TaskRec};
use crate::coordinator::paging;
use crate::coordinator::query;
use crate::coordinator::vocab::EventOrder;
use crate::listing;
use crate::ordering;
use crate::text::Text;

verus! {

/// Whether a task has a status, where one is asked for.
pub open spec fn wanted(t: TaskRec, status: Option<Text>) -> bool {
    match status {
        Some(s) => t.head.status == s,
        None => true,
    }
}

/// Whether a row of a listing shows the columns of a task.
pub open spec fn shows(row: SummaryRec, t: TaskRec) -> bool {
    &&& row.task_id == t.head.task_id
    &&& row.title == t.head.title
    &&& row.status == t.head.status
    &&& row.updated_at == t.head.updated_at
}

/// Whether rows show every task that has the wanted status, and only those, each exactly once, the most
/// recently updated first.
pub open spec fn shows_each_once(all: Seq<SummaryRec>, l: Ledger, status: Option<Text>) -> bool {
    &&& forall|k: int|
        0 <= k < all.len() ==> exists|t: int|
            0 <= t < l.tasks.len() && wanted(l.tasks[t], status) && shows(#[trigger] all[k], #[trigger] l.tasks[t])
    &&& forall|t: int|
        0 <= t < l.tasks.len() && wanted(#[trigger] l.tasks[t], status) ==> exists|k: int|
            0 <= k < all.len() && shows(#[trigger] all[k], l.tasks[t])
    &&& forall|j: int, k: int|
        0 <= j < k < all.len() ==> (#[trigger] all[j]).updated_at >= (#[trigger] all[k]).updated_at
            && all[j].task_id != all[k].task_id
}

/// The rows of up to `n` pages of a listing, one page after the other, each `limit` rows behind the one
/// before it, until a page is empty.
pub open spec fn run_of_offsets(l: Ledger, limit: usize, offset: usize, status: Option<Text>, n: nat) -> Seq<SummaryRec>
    decreases n,
{
    let page = l.listed(limit, offset, status);
    if n == 0 || page.len() == 0 {
        Seq::empty()
    } else {
        page + run_of_offsets(l, limit, (offset + limit) as usize, status, (n - 1) as nat)
    }
}

/// All rows of a listing, newest first.
spec fn everything(l: Ledger, status: Option<Text>) -> Seq<SummaryRec> {
    ordering::sorted_by_key(l.tasks.filter_map(query::pick_summary(status)), query::newest_key())
}

proof fn lemma_everything(l: Ledger, status: Option<Text>)
    requires
        l.wf(),
    ensures
        ({
            let all = everything(l, status);
            &&& all.len() == l.tasks.filter(|t: TaskRec| wanted(t, status)).len()
            &&& all.len() <= l.tasks.len()
            &&& shows_each_once(all, l, status)
        }),
{
    let f = query::pick_summary(status);
    let key = query::newest_key();
    let rows = l.tasks.filter_map(f);
    let all = everything(l, status);
    listing::lemma_picked(l.tasks, f);
    listing::lemma_picked_places(l.tasks, f);
    listing::lemma_picked_len(l.tasks, f, |t: TaskRec| wanted(t, status));
    ordering::law_sorting_keeps_rows(rows, key);
    ordering::law_sorting_orders_rows(rows, key);
    let at = listing::picked_places(l.tasks, f);
    assert forall|j: int, k: int| 0 <= j < k < rows.len() implies (#[trigger] rows[j]).task_id != (
    #[trigger] rows[k]).task_id by {
        assert(at[j] < at[k]);
        assert(f(l.tasks[at[j]]) == Some(rows[j]) && f(l.tasks[at[k]]) == Some(rows[k]));
        assert(l.tasks[at[j]].head.task_id != l.tasks[at[k]].head.task_id);
    }
    assert(rows.no_duplicates());
    assert(all.len() <= l.tasks.len()) by {
        query::lemma_filter_map_len(l.tasks, f);
    }
    assert forall|k: int| 0 <= k < all.len() implies exists|t: int|
        0 <= t < l.tasks.len() && wanted(l.tasks[t], status) && shows(#[trigger] all[k], #[trigger] l.tasks[t]) by {
        assert(all.contains(all[k]));
        let t = choose|t: int| 0 <= t < l.tasks.len() && f(#[trigger] l.tasks[t]) == Some(all[k]);
        assert(shows(all[k], l.tasks[t]));
    }
    assert forall|t: int| 0 <= t < l.tasks.len() && wanted(#[trigger] l.tasks[t], status) implies exists|k: int|
        0 <= k < all.len() && shows(#[trigger] all[k], l.tasks[t]) by {
        let row = f(l.tasks[t])->0;
        assert(rows.contains(row));
        assert(all.contains(row));
        let k = choose|k: int| 0 <= k < all.len() && all[k] == row;
        assert(shows(all[k], l.tasks[t]));
    }
    assert forall|j: int, k: int| 0 <= j < k < all.len() implies (#[trigger] all[j]).updated_at >= (
    #[trigger] all[k]).updated_at && all[j].task_id != all[k].task_id by {
        assert(!key(all[k]).before(key(all[j])));
        ordering::lemma_text_before_irreflexive(Seq::empty());
        assert(all[j] != all[k]);
        assert(all.contains(all[j]) && all.contains(all[k]));
        let x = choose|x: int| 0 <= x < rows.len() && rows[x] == all[j];
        let y = choose|y: int| 0 <= y < rows.len() && rows[y] == all[k];
        if x < y {
            assert(rows[x].task_id != rows[y].task_id);
        } else {
            assert(rows[y].task_id != rows[x].task_id);
        }
    }
}

proof fn lemma_run_of_offsets(l: Ledger, limit: usize, offset: usize, status: Option<Text>, n: nat)
    requires
        l.wf(),
        1 <= limit <= l.max_list,
        everything(l, status).len() + limit <= i64::MAX,
        everything(l, status).len() + limit <= usize::MAX,
        offset <= everything(l, status).len() + limit,
        everything(l, status).len() <= offset + n,
    ensures
        run_of_offsets(l, limit, offset, status, n) == listing::behind(everything(l, status), offset as int),
    decreases n,
{
    let all = everything(l, status);
    let page = l.listed(limit, offset, status);
    let rest = listing::behind(all, offset as int);
    assert(page == listing::first(rest, limit as int));
    if n > 0 && page.len() > 0 {
        lemma_run_of_offsets(l, limit, (offset + limit) as usize, status, (n - 1) as nat);
        assert(page + listing::behind(all, offset + limit) =~= rest);
    } else {
        assert(rest =~= Seq::<SummaryRec>::empty());
    }
}

/// Pages of a listing at the offsets 0, `limit`, twice `limit` and so on show every task that has the
/// wanted status, and only those, each exactly once, the most recently updated first.
pub proof fn law_pages_by_offset_show_every_task_once(l: Ledger, limit: usize, status: Option<Text>, n: nat)
    requires
        l.wf(),
        1 <= limit <= l.max_list,
        l.tasks.len() + limit <= i64::MAX,
        l.tasks.len() + limit <= usize::MAX,
        l.tasks.len() <= n,
    ensures
        shows_each_once(run_of_offsets(l, limit, 0, status, n), l, status),
{
    lemma_everything(l, status);
    lemma_run_of_offsets(l, limit, 0, status, n);
}

/// A page holds as many rows as its limit, the limit of the ledger, and the matching tasks behind its
/// offset permit. An offset that does not fit a signed number counts as none.
pub proof fn law_pages_are_as_long_as_they_can_be(l: Ledger, limit: usize, offset: usize, status: Option<Text>)
    requires
        l.wf(),
        offset <= i64::MAX,
    ensures
        ({
            let page = l.listed(limit, offset, status);
            let left = l.tasks.filter(|t: TaskRec| wanted(t, status)).len() - offset;
            &&& page.len() <= limit
            &&& page.len() <= l.max_list
            &&& left <= 0 ==> page.len() == 0
            &&& left > 0 ==> page.len() == limit || page.len() == l.max_list || page.len() == left
            &&& left > 0 ==> page.len() <= left
        }),
{
    lemma_everything(l, status);
}

/// The count of a listing is the number of tasks with the wanted status.
pub proof fn law_counts_are_of_the_wanted_tasks(l: Ledger, status: Option<Text>)
    ensures
        l.counted(status) == l.tasks.filter(|t: TaskRec| wanted(t, status)).len(),
{
    listing::lemma_picked_len(l.tasks, query::pick_summary(status), |t: TaskRec| wanted(t, status));
}

/// A page behind a cursor shows tasks with the wanted status that stand behind the cursor, in order. A
/// matching task is left out only where the page is full, and then it stands behind its last row.
pub proof fn law_pages_by_cursor_go_by_the_columns(
    l: Ledger,
    cursor: Option<CursorRec>,
    limit: usize,
    status: Option<Text>,
    t: int,
)
    requires
        l.wf(),
        0 <= t < l.tasks.len(),
    ensures
        ({
            let items = l.page(cursor, limit, status).items;
            let h = l.tasks[t].head;
            let behind = match cursor {
                None => true,
                Some(c) => h.updated_at < c.updated_at || (h.updated_at == c.updated_at && ordering::text_before(
                    h.task_id,
                    c.task_id,
                )),
            };
            let shown = exists|k: int|
                0 <= k < items.len() && shows(#[trigger] items[k], l.tasks[t]) && items[k].investigation_marked_at
                    == h.investigation_marked_at;
            let cap = if limit == 0 {
                1
            } else if limit > l.max_list {
                l.max_list as int
            } else {
                limit as int
            };
            &&& items.len() <= cap
            &&& forall|j: int, k: int| 0 <= j < k < items.len() ==> paging::ahead(#[trigger] items[j], #[trigger] items[k])
            &&& (exists|k: int| 0 <= k < items.len() && (#[trigger] items[k]).task_id == h.task_id) ==> wanted(
                l.tasks[t],
                status,
            ) && behind
            &&& wanted(l.tasks[t], status) && behind && !shown ==> items.len() == cap && (h.updated_at < items.last().updated_at || (h.updated_at
                == items.last().updated_at && ordering::text_before(h.task_id, items.last().task_id)))
        }),
{
    let page = l.page(cursor, limit, status);
    let items = page.items;
    let h = l.tasks[t].head;
    paging::law_pages_are_sound(l, cursor, limit, status);
    if wanted(l.tasks[t], status) && query::behind_cursor(l.tasks[t], cursor) {
        paging::law_pages_neither_repeat_nor_skip(l, cursor, limit, status, t);
        let row = query::summary(l.tasks[t], true);
        if items.contains(row) {
            let k = choose|k: int| 0 <= k < items.len() && items[k] == row;
            assert(shows(items[k], l.tasks[t]));
        } else {
            paging::lemma_full_pages(l, cursor, limit, status, t);
        }
    }
    assert forall|k: int| 0 <= k < items.len() && (#[trigger] items[k]).task_id == h.task_id implies wanted(
        l.tasks[t],
        status,
    ) && query::behind_cursor(l.tasks[t], cursor) by {
        let i = choose|i: int|
            0 <= i < l.tasks.len() && paging::belongs(l.tasks[i], cursor, status) && items[k]
                == query::summary(#[trigger] l.tasks[i], true);
        ledger::lemma_find_is(l, i);
        ledger::lemma_find_is(l, t);
    }
    assert forall|j: int, k: int| 0 <= j < k < items.len() implies paging::ahead(
        #[trigger] items[j],
        #[trigger] items[k],
    ) by {
        assert(paging::ahead(items[j], items[k]));
    }
}

/// The number of rows that a caller gets who asks for `limit`: at least one, at most the ledger's limit.
pub open spec fn room(limit: usize, max: usize) -> int {
    if limit == 0 {
        1
    } else if limit > max {
        max as int
    } else {
        limit as int
    }
}

/// Whether an event of a task is one that a query asks for. An empty type asks for all.
pub open spec fn asked_for(x: OwnedEvent, after: i64, kind: Option<Text>) -> bool {
    x.event.event_id > after && match kind {
        Some(t) => t.len() == 0 || x.event.event_type == t,
        None => true,
    }
}

proof fn lemma_event_rows(l: Ledger, f: spec_fn(OwnedEvent) -> Option<EventRec>)
    requires
        l.wf(),
        forall|x: OwnedEvent| (#[trigger] f(x)) is Some ==> f(x) == Some(x.event),
    ensures
        ({
            let rows = l.events.filter_map(f);
            &&& forall|j: int, k: int|
                0 <= j < k < rows.len() ==> (#[trigger] rows[j]).event_id < (#[trigger] rows[k]).event_id
            &&& forall|k: int|
                0 <= k < rows.len() ==> exists|i: int|
                    0 <= i < l.events.len() && f(#[trigger] l.events[i]) == Some(#[trigger] rows[k])
            &&& forall|i: int|
                0 <= i < l.events.len() ==> (f(#[trigger] l.events[i]) is Some <==> rows.contains(l.events[i].event))
        }),
{
    let rows = l.events.filter_map(f);
    listing::lemma_picked_places(l.events, f);
    listing::lemma_picked(l.events, f);
    let at = listing::picked_places(l.events, f);
    assert forall|j: int, k: int| 0 <= j < k < rows.len() implies (#[trigger] rows[j]).event_id < (
    #[trigger] rows[k]).event_id by {
        assert(at[j] < at[k]);
        assert(f(l.events[at[j]]) == Some(rows[j]) && f(l.events[at[k]]) == Some(rows[k]));
        assert(l.events[at[j]].event.event_id < l.events[at[k]].event.event_id);
    }
    assert forall|i: int| 0 <= i < l.events.len() implies (f(#[trigger] l.events[i]) is Some <==> rows.contains(
        l.events[i].event,
    )) by {
        if rows.contains(l.events[i].event) {
            let j = choose|j: int| 0 <= j < l.events.len() && f(#[trigger] l.events[j]) == Some(l.events[i].event);
            if j < i {
                assert(l.events[j].event.event_id < l.events[i].event.event_id);
            } else if i < j {
                assert(l.events[i].event.event_id < l.events[j].event.event_id);
            }
        }
    }
}

/// A query for the events of a task returns those behind the given id that have the wanted type, by id
/// upwards or downwards. A matching event is left out only where the result is full, and then it comes
/// after all that are there.
pub proof fn law_event_queries_go_by_the_columns(
    l: Ledger,
    t: int,
    after: i64,
    limit: usize,
    kind: Option<Text>,
    order: EventOrder,
    i: int,
)
    requires
        l.wf(),
        0 <= t < l.tasks.len(),
        0 <= i < l.events.len(),
    ensures
        ({
            let id = l.tasks[t].head.task_id;
            let got = l.queried(id, after, limit, kind, order)->Ok_0;
            let x = l.events[i];
            let fits = x.task_id == id && asked_for(x, after, kind);
            &&& l.queried(id, after, limit, kind, order) is Ok
            &&& got.len() <= room(limit, l.max_list)
            &&& got.contains(x.event) ==> fits
            &&& fits && !got.contains(x.event) ==> got.len() == room(limit, l.max_list) && forall|k: int|
                0 <= k < got.len() ==> if order == EventOrder::Asc {
                    (#[trigger] got[k]).event_id < x.event.event_id
                } else {
                    got[k].event_id > x.event.event_id
                }
            &&& forall|k: int|
                0 <= k < got.len() ==> exists|j: int|
                    0 <= j < l.events.len() && (#[trigger] l.events[j]).task_id == id && l.events[j].event
                        == #[trigger] got[k]
            &&& forall|j: int, k: int|
                0 <= j < k < got.len() ==> if order == EventOrder::Asc {
                    (#[trigger] got[j]).event_id < (#[trigger] got[k]).event_id
                } else {
                    got[j].event_id > got[k].event_id
                }
        }),
{
    let id = l.tasks[t].head.task_id;
    ledger::lemma_find_is(l, t);
    let f = query::pick_event(id, after, crate::text::non_empty(kind));
    let rows = l.events.filter_map(f);
    let got = l.queried(id, after, limit, kind, order)->Ok_0;
    let x = l.events[i];
    lemma_event_rows(l, f);
    if kind is Some && kind->0.len() == 0 {
        assert(kind->0 =~= Seq::<char>::empty());
    }
    let n = rows.len() as int;
    let cap = room(limit, l.max_list);
    assert(cap == listing::bounded(limit, l.max_list));
    assert forall|k: int| 0 <= k < got.len() implies #[trigger] got[k] == if order == EventOrder::Asc {
        rows[k]
    } else {
        rows[n - 1 - k]
    } by {}
    assert forall|k: int| 0 <= k < got.len() implies exists|j: int|
        0 <= j < l.events.len() && (#[trigger] l.events[j]).task_id == id && l.events[j].event == #[trigger] got[k] by {
        let y = if order == EventOrder::Asc {
            rows[k]
        } else {
            rows[n - 1 - k]
        };
        let j = choose|j: int| 0 <= j < l.events.len() && f(#[trigger] l.events[j]) == Some(y);
        assert(l.events[j].event == got[k]);
    }
    if got.contains(x.event) {
        let k = choose|k: int| 0 <= k < got.len() && got[k] == x.event;
        assert(rows.contains(x.event));
    }
    if f(x) is Some && !got.contains(x.event) {
        let k = choose|k: int| 0 <= k < rows.len() && rows[k] == x.event;
        if order == EventOrder::Asc {
            if k < got.len() {
                assert(got[k] == x.event);
            }
        } else {
            if n - 1 - k < got.len() {
                assert(got[n - 1 - k] == x.event);
            }
        }
    }
}

/// A task that is not there has no events to query.
pub proof fn law_unknown_tasks_have_no_events(
    l: Ledger,
    id: Text,
    after: i64,
    limit: usize,
    kind: Option<Text>,
    order: EventOrder,
)
    requires
        forall|t: int| 0 <= t < l.tasks.len() ==> (#[trigger] l.tasks[t]).head.task_id != id,
    ensures
        l.queried(id, after, limit, kind, order) == Err::<Seq<EventRec>, Fault>(Fault::NotFound(id)),
        l.detail(id) is None,
        l.exported(after, id) == Err::<ExportRec, Fault>(Fault::NotFound(id)),
{
    ledger::lemma_find(l, id);
}

/// What is shown of a task are its columns and all its events, in the order in which they were written.
pub proof fn law_details_go_by_the_columns(l: Ledger, t: int, i: int, k: int)
    requires
        l.wf(),
        0 <= t < l.tasks.len(),
        0 <= i < l.events.len(),
    ensures
        ({
            let id = l.tasks[t].head.task_id;
            let d = l.detail(id)->0;
            &&& l.detail(id) is Some
            &&& d.head == l.tasks[t].head
            &&& d.events.contains(l.events[i].event) <==> l.events[i].task_id == id
            &&& forall|j: int, m: int|
                0 <= j < m < d.events.len() ==> (#[trigger] d.events[j]).event_id < (#[trigger] d.events[m]).event_id
            &&& 0 <= k < d.events.len() ==> exists|j: int|
                0 <= j < l.events.len() && (#[trigger] l.events[j]).task_id == id && l.events[j].event == d.events[k]
        }),
{
    let id = l.tasks[t].head.task_id;
    ledger::lemma_find_is(l, t);
    lemma_event_rows(l, query::pick_own(id));
}

/// A snapshot of a task holds what is shown of it and its attempts, under its id, with the time at which it
/// was made.
pub proof fn law_exports_go_by_the_columns(l: Ledger, now: i64, t: int)
    requires
        l.wf(),
        0 <= t < l.tasks.len(),
    ensures
        ({
            let id = l.tasks[t].head.task_id;
            let x = l.exported(now, id)->Ok_0;
            &&& l.exported(now, id) is Ok
            &&& x.task_id == id
            &&& x.exported_at == now
            &&& x.schema_version == 1
            &&& x.view.head == l.tasks[t].head
            &&& Some(x.view) == l.detail(id)
            &&& x.attempts == l.attempts_of(id)
        }),
{
    ledger::lemma_find_is(l, t);
}

/// The newest events of all tasks are those behind the given id that have the wanted type, the newest
/// first. A matching event is left out only where the result is full of newer ones.
pub proof fn law_recent_events_go_by_the_columns(l: Ledger, since: i64, limit: usize, kind: Option<Text>, i: int)
    requires
        l.wf(),
        0 <= i < l.events.len(),
    ensures
        ({
            let got = l.recent_events(since, limit, kind);
            let x = l.events[i];
            &&& got.len() <= room(limit, l.max_list)
            &&& got.contains(x) ==> asked_for(x, since, kind)
            &&& asked_for(x, since, kind) && !got.contains(x) ==> got.len() == room(limit, l.max_list) && forall|k: int|
                0 <= k < got.len() ==> (#[trigger] got[k]).event.event_id > x.event.event_id
            &&& forall|k: int| 0 <= k < got.len() ==> l.events.contains(#[trigger] got[k])
            &&& forall|j: int, k: int|
                0 <= j < k < got.len() ==> (#[trigger] got[j]).event.event_id > (#[trigger] got[k]).event.event_id
        }),
{
    let f = query::pick_any_event(since, crate::text::non_empty(kind));
    let rows = l.events.filter_map(f);
    let got = l.recent_events(since, limit, kind);
    let x = l.events[i];
    let n = rows.len() as int;
    if kind is Some && kind->0.len() == 0 {
        assert(kind->0 =~= Seq::<char>::empty());
    }
    assert(room(limit, l.max_list) == listing::bounded(limit, l.max_list));
    listing::lemma_picked_places(l.events, f);
    let at = listing::picked_places(l.events, f);
    assert forall|k: int| 0 <= k < got.len() implies l.events[at[n - 1 - k]] == #[trigger] got[k] by {
        assert(f(l.events[at[n - 1 - k]]) == Some(rows[n - 1 - k]));
    }
    assert forall|j: int, k: int| 0 <= j < k < got.len() implies (#[trigger] got[j]).event.event_id > (
    #[trigger] got[k]).event.event_id by {
        assert(at[n - 1 - k] < at[n - 1 - j]);
        assert(l.events[at[n - 1 - k]].event.event_id < l.events[at[n - 1 - j]].event.event_id);
    }
    if got.contains(x) {
        let k = choose|k: int| 0 <= k < got.len() && got[k] == x;
        assert(f(l.events[at[n - 1 - k]]) == Some(rows[n - 1 - k]));
    }
    if f(x) is Some && !got.contains(x) {
        let k = choose|k: int| 0 <= k < at.len() && at[k] == i;
        assert(rows[k] == x);
        if n - 1 - k < got.len() {
            assert(got[n - 1 - k] == x);
        }
        assert forall|j: int| 0 <= j < got.len() implies (#[trigger] got[j]).event.event_id > x.event.event_id by {
            assert(at[k] < at[n - 1 - j]);
            assert(l.events[at[k]].event.event_id < l.events[at[n - 1 - j]].event.event_id);
        }
    }
}

/// The edges of a task are those that begin or end at it, in the order in which they were recorded; the
/// newest edges of all tasks are those behind the given id, the newest first, as many as fit.
pub proof fn law_edge_listings_go_by_the_columns(l: Ledger, id: Text, since: i64, limit: usize, i: int)
    requires
        l.wf(),
        0 <= i < l.edges.len(),
    ensures
        ({
            let own = l.edges_of(id);
            let got = l.recent_edges(since, limit);
            let e = l.edges[i];
            &&& own.contains(e) <==> e.task_id == id || e.related_task_id == Some(id)
            &&& forall|j: int, k: int| 0 <= j < k < own.len() ==> (#[trigger] own[j]).edge_id < (#[trigger] own[k]).edge_id
            &&& forall|k: int| 0 <= k < own.len() ==> l.edges.contains(#[trigger] own[k])
            &&& got.len() <= room(limit, l.max_list)
            &&& got.contains(e) ==> e.edge_id > since
            &&& e.edge_id > since && !got.contains(e) ==> got.len() == room(limit, l.max_list) && forall|k: int|
                0 <= k < got.len() ==> (#[trigger] got[k]).edge_id > e.edge_id
            &&& forall|k: int| 0 <= k < got.len() ==> l.edges.contains(#[trigger] got[k])
            &&& forall|j: int, k: int| 0 <= j < k < got.len() ==> (#[trigger] got[j]).edge_id > (#[trigger] got[k]).edge_id
        }),
{
    let own = l.edges_of(id);
    let f = edges::pick_touching(id);
    let e = l.edges[i];
    listing::lemma_picked_places(l.edges, f);
    listing::lemma_picked(l.edges, f);
    let at = listing::picked_places(l.edges, f);
    assert forall|k: int| 0 <= k < own.len() implies l.edges[at[k]] == #[trigger] own[k] by {
        assert(f(l.edges[at[k]]) == Some(own[k]));
    }
    assert forall|j: int, k: int| 0 <= j < k < own.len() implies (#[trigger] own[j]).edge_id < (#[trigger] own[k]).edge_id by {
        assert(at[j] < at[k]);
        assert(l.edges[at[j]].edge_id < l.edges[at[k]].edge_id);
    }
    if own.contains(e) {
        let j = choose|j: int| 0 <= j < l.edges.len() && f(#[trigger] l.edges[j]) == Some(e);
        assert(l.edges[j] == e);
    }
    lemma_recent_edges(l, since, limit, i);
}

proof fn lemma_recent_edges(l: Ledger, since: i64, limit: usize, i: int)
    requires
        l.wf(),
        0 <= i < l.edges.len(),
    ensures
        ({
            let got = l.recent_edges(since, limit);
            let e = l.edges[i];
            &&& got.len() <= room(limit, l.max_list)
            &&& got.contains(e) ==> e.edge_id > since
            &&& e.edge_id > since && !got.contains(e) ==> got.len() == room(limit, l.max_list) && forall|k: int|
                0 <= k < got.len() ==> (#[trigger] got[k]).edge_id > e.edge_id
            &&& forall|k: int| 0 <= k < got.len() ==> l.edges.contains(#[trigger] got[k])
            &&& forall|j: int, k: int| 0 <= j < k < got.len() ==> (#[trigger] got[j]).edge_id > (#[trigger] got[k]).edge_id
        }),
{
    let f = edges::pick_since(since);
    let rows = l.edges.filter_map(f);
    let got = l.recent_edges(since, limit);
    let e = l.edges[i];
    let n = rows.len() as int;
    assert(room(limit, l.max_list) == listing::bounded(limit, l.max_list));
    listing::lemma_picked_places(l.edges, f);
    let at = listing::picked_places(l.edges, f);
    assert forall|k: int| 0 <= k < got.len() implies l.edges[at[n - 1 - k]] == #[trigger] got[k] by {
        assert(f(l.edges[at[n - 1 - k]]) == Some(rows[n - 1 - k]));
    }
    assert forall|j: int, k: int| 0 <= j < k < got.len() implies (#[trigger] got[j]).edge_id > (#[trigger] got[k]).edge_id by {
        assert(at[n - 1 - k] < at[n - 1 - j]);
        assert(l.edges[at[n - 1 - k]].edge_id < l.edges[at[n - 1 - j]].edge_id);
    }
    if got.contains(e) {
        let k = choose|k: int| 0 <= k < got.len() && got[k] == e;
        assert(f(l.edges[at[n - 1 - k]]) == Some(rows[n - 1 - k]));
    }
    if f(e) is Some && !got.contains(e) {
        let k = choose|k: int| 0 <= k < at.len() && at[k] == i;
        assert(rows[k] == e);
        if n - 1 - k < got.len() {
            assert(got[n - 1 - k] == e);
        }
        assert forall|j: int| 0 <= j < got.len() implies (#[trigger] got[j]).edge_id > e.edge_id by {
            assert(at[k] < at[n - 1 - j]);
            assert(l.edges[at[k]].edge_id < l.edges[at[n - 1 - j]].edge_id);
        }
    }
}

/// The attempts of a task are its own, in the order in which they were opened.
pub proof fn law_attempts_go_by_the_columns(l: Ledger, id: Text, i: int)
    requires
        l.wf(),
        0 <= i < l.attempts.len(),
    ensures
        ({
            let own = l.attempts_of(id);
            &&& own.contains(l.attempts[i].attempt) <==> l.attempts[i].task_id == id
            &&& forall|j: int, k: int|
                0 <= j < k < own.len() ==> (#[trigger] own[j]).attempt_id < (#[trigger] own[k]).attempt_id
            &&& forall|k: int|
                0 <= k < own.len() ==> exists|j: int|
                    0 <= j < l.attempts.len() && (#[trigger] l.attempts[j]).task_id == id && l.attempts[j].attempt
                        == #[trigger] own[k]
        }),
{
    let own = l.attempts_of(id);
    let f = query::pick_attempt(id);
    listing::lemma_picked_places(l.attempts, f);
    listing::lemma_picked(l.attempts, f);
    let at = listing::picked_places(l.attempts, f);
    assert forall|k: int| 0 <= k < own.len() implies exists|j: int|
        0 <= j < l.attempts.len() && (#[trigger] l.attempts[j]).task_id == id && l.attempts[j].attempt
            == #[trigger] own[k] by {
        assert(f(l.attempts[at[k]]) == Some(own[k]));
    }
    assert forall|j: int, k: int| 0 <= j < k < own.len() implies (#[trigger] own[j]).attempt_id < (
    #[trigger] own[k]).attempt_id by {
        assert(at[j] < at[k]);
        assert(f(l.attempts[at[j]]) == Some(own[j]) && f(l.attempts[at[k]]) == Some(own[k]));
        assert(l.attempts[at[j]].attempt.attempt_id < l.attempts[at[k]].attempt.attempt_id);
    }
    if own.contains(l.attempts[i].attempt) {
        let j = choose|j: int|
            0 <= j < l.attempts.len() && f(#[trigger] l.attempts[j]) == Some(l.attempts[i].attempt);
        ledger::lemma_attempt_is(l, i);
        ledger::lemma_attempt_is(l, j);
    }
}

/// The delegated tasks that wait are the pending ones that came from a delegation, the oldest first. One
/// is left out only where the result is full of tasks that are no younger.
pub proof fn law_delegations_go_by_the_columns(l: Ledger, limit: usize, t: int)
    requires
        l.wf(),
        0 <= t < l.tasks.len(),
    ensures
        ({
            let got = l.delegated(limit);
            let h = l.tasks[t].head;
            let fits = h.status == "pending"@ && h.origin_surface == Some("delegation"@);
            let shown = exists|k: int|
                0 <= k < got.len() && (#[trigger] got[k]).task_id == h.task_id && got[k].params_json == h.params_json
                    && got[k].owner_subject_id == h.owner_subject_id && got[k].created_at == h.created_at;
            &&& got.len() <= limit && got.len() <= l.max_list
            &&& (exists|k: int| 0 <= k < got.len() && (#[trigger] got[k]).task_id == h.task_id) ==> fits
            &&& fits && !shown ==> (got.len() == limit || got.len() == l.max_list) && forall|k: int|
                0 <= k < got.len() ==> (#[trigger] got[k]).created_at <= h.created_at
            &&& forall|j: int, k: int|
                0 <= j < k < got.len() ==> (#[trigger] got[j]).created_at <= (#[trigger] got[k]).created_at && got[j].task_id
                    != got[k].task_id
        }),
{
    let f = query::pick_delegated();
    let key = query::delegated_key();
    let rows = l.tasks.filter_map(f);
    let all = ordering::sorted_by_key(rows, key);
    let got = l.delegated(limit);
    let h = l.tasks[t].head;
    listing::lemma_picked(l.tasks, f);
    listing::lemma_picked_places(l.tasks, f);
    ordering::law_sorting_keeps_rows(rows, key);
    ordering::law_sorting_orders_rows(rows, key);
    let at = listing::picked_places(l.tasks, f);
    assert forall|j: int, k: int| 0 <= j < k < rows.len() implies (#[trigger] rows[j]).task_id != (
    #[trigger] rows[k]).task_id by {
        assert(at[j] < at[k]);
        assert(f(l.tasks[at[j]]) == Some(rows[j]) && f(l.tasks[at[k]]) == Some(rows[k]));
        assert(l.tasks[at[j]].head.task_id != l.tasks[at[k]].head.task_id);
    }
    assert(rows.no_duplicates());
    assert forall|j: int, k: int| 0 <= j < k < all.len() implies (#[trigger] all[j]).created_at <= (
    #[trigger] all[k]).created_at && all[j].task_id != all[k].task_id by {
        assert(!key(all[k]).before(key(all[j])));
        ordering::lemma_text_before_irreflexive(Seq::empty());
        assert(all[j] != all[k]);
        assert(all.contains(all[j]) && all.contains(all[k]));
        let x = choose|x: int| 0 <= x < rows.len() && rows[x] == all[j];
        let y = choose|y: int| 0 <= y < rows.len() && rows[y] == all[k];
        if x < y {
            assert(rows[x].task_id != rows[y].task_id);
        } else {
            assert(rows[y].task_id != rows[x].task_id);
        }
    }
    assert forall|k: int| 0 <= k < got.len() implies #[trigger] got[k] == all[k] by {}
    assert forall|k: int| 0 <= k < got.len() && (#[trigger] got[k]).task_id == h.task_id implies h.status
        == "pending"@ && h.origin_surface == Some("delegation"@) by {
        assert(all.contains(all[k]));
        let i = choose|i: int| 0 <= i < l.tasks.len() && f(#[trigger] l.tasks[i]) == Some(all[k]);
        ledger::lemma_find_is(l, i);
        ledger::lemma_find_is(l, t);
    }
    if f(l.tasks[t]) is Some {
        let row = f(l.tasks[t])->0;
        assert(rows.contains(row));
        assert(all.contains(row));
        let k = choose|k: int| 0 <= k < all.len() && all[k] == row;
        if k < got.len() {
            assert(got[k].task_id == h.task_id);
        }
    }
}

/// A task is reported as stuck exactly where it is running without a runtime limit and its run, which
/// began with its current attempt or else with the task, began longer ago than the threshold. The
/// longest running come first.
pub proof fn law_stuck_tasks_go_by_the_columns(
    l: Ledger,
    now: i64,
    threshold: i64,
    t: int,
    k: int,
    started: Option<i64>,
)
    requires
        l.wf(),
        0 <= t < l.tasks.len(),
        match l.tasks[t].head.current_attempt_id {
            Some(aid) => 0 <= k < l.attempts.len() && l.attempts[k].attempt.attempt_id == aid && started == Some(
                l.attempts[k].attempt.started_at,
            ),
            None => started == l.tasks[t].head.started_at,
        },
    ensures
        ({
            let got = l.stuck(now, threshold);
            let h = l.tasks[t].head;
            let age = now - started->0;
            let limit = if threshold > 0 {
                threshold as int
            } else {
                0
            };
            let fits = h.status == "running"@ && h.max_runtime_secs is None && started is Some && age > limit;
            &&& (exists|j: int| 0 <= j < got.len() && (#[trigger] got[j]).task_id == h.task_id) <==> fits
            &&& forall|j: int|
                0 <= j < got.len() && (#[trigger] got[j]).task_id == h.task_id ==> got[j].title == h.title
                    && got[j].started_at == started->0 && got[j].current_attempt_id == h.current_attempt_id && (age
                    <= i64::MAX ==> got[j].age_secs == age) && (age > i64::MAX ==> got[j].age_secs == i64::MAX)
            &&& forall|i: int, j: int|
                0 <= i < j < got.len() ==> (#[trigger] got[i]).started_at <= (#[trigger] got[j]).started_at
        }),
{
    let f = l.pick_stuck(now, threshold);
    let key = query::stuck_key();
    let rows = l.tasks.filter_map(f);
    let got = l.stuck(now, threshold);
    let h = l.tasks[t].head;
    if h.current_attempt_id is Some {
        ledger::lemma_attempt_is(l, k);
    }
    assert(l.run_start(h) == started);
    listing::lemma_picked(l.tasks, f);
    ordering::law_sorting_keeps_rows(rows, key);
    ordering::law_sorting_orders_rows(rows, key);
    ordering::lemma_text_before_irreflexive(Seq::empty());
    assert forall|i: int, j: int| 0 <= i < j < got.len() implies (#[trigger] got[i]).started_at <= (
    #[trigger] got[j]).started_at by {
        assert(!key(got[j]).before(key(got[i])));
    }
    assert forall|j: int| 0 <= j < got.len() && (#[trigger] got[j]).task_id == h.task_id implies f(l.tasks[t]) == Some(
        got[j],
    ) by {
        assert(got.contains(got[j]));
        let i = choose|i: int| 0 <= i < l.tasks.len() && f(#[trigger] l.tasks[i]) == Some(got[j]);
        ledger::lemma_find_is(l, i);
        ledger::lemma_find_is(l, t);
    }
    if f(l.tasks[t]) is Some {
        let row = f(l.tasks[t])->0;
        assert(rows.contains(row));
        assert(got.contains(row));
        let j = choose|j: int| 0 <= j < got.len() && got[j] == row;
        assert(got[j].task_id == h.task_id);
    }
}

} // verus!
