//! What holds of listings by pages and of polling.
use vstd::prelude::*;
use crate::coordinator::ledger::Ledger;
use crate::coordinator::model::{CursorRec, EventRec, OwnedEvent, SummaryRec, TaskRec};
use crate::coordinator::query;
use crate::coordinator::vocab::EventOrder;
use crate::listing;
use crate::ordering;
use crate::text::{self, Text};

verus! {

/// Whether a task belongs to a listing behind a cursor.
pub open spec fn belongs(t: TaskRec, cursor: Option<CursorRec>, status: Option<Text>) -> bool {
    (status is None || t.head.status == status->0) && match cursor {
        Some(c) => t.head.updated_at < c.updated_at || (t.head.updated_at == c.updated_at && ordering::text_before(
            t.head.task_id,
            c.task_id,
        )),
        None => true,
    }
}

proof fn lemma_page_rows(tasks: Seq<TaskRec>, cursor: Option<CursorRec>, status: Option<Text>, n: int)
    requires
        0 <= n <= tasks.len(),
        forall|i: int, j: int|
            0 <= i < j < tasks.len() ==> (#[trigger] tasks[i]).head.task_id != (#[trigger] tasks[j]).head.task_id,
    ensures
        ({
            let rows = tasks.take(n).filter_map(query::pick_page(cursor, status));
            &&& forall|k: int|
                0 <= k < rows.len() ==> exists|i: int|
                    0 <= i < n && belongs(tasks[i], cursor, status) && #[trigger] rows[k] == query::summary(
                        #[trigger] tasks[i],
                        true,
                    )
            &&& forall|i: int|
                0 <= i < n && belongs(#[trigger] tasks[i], cursor, status) ==> rows.contains(
                    query::summary(tasks[i], true),
                )
            &&& forall|j: int, k: int|
                0 <= j < k < rows.len() ==> (#[trigger] rows[j]).task_id != (#[trigger] rows[k]).task_id
        }),
    decreases n,
{
    let f = query::pick_page(cursor, status);
    let rows = tasks.take(n).filter_map(f);
    if n > 0 {
        lemma_page_rows(tasks, cursor, status, n - 1);
        tasks.lemma_filter_map_take_succ(f, n - 1);
        let before = tasks.take(n - 1).filter_map(f);
        let t = tasks[n - 1];
        assert forall|k: int| 0 <= k < rows.len() implies exists|i: int|
            0 <= i < n && belongs(tasks[i], cursor, status) && #[trigger] rows[k] == query::summary(
                #[trigger] tasks[i],
                true,
            ) by {
            if k < before.len() {
                assert(rows[k] == before[k]);
                let i = choose|i: int|
                    0 <= i < n - 1 && belongs(tasks[i], cursor, status) && before[k] == query::summary(
                        #[trigger] tasks[i],
                        true,
                    );
                assert(rows[k] == query::summary(tasks[i], true));
            } else {
                assert(rows[k] == query::summary(tasks[n - 1], true));
            }
        }
        assert forall|i: int| 0 <= i < n && belongs(#[trigger] tasks[i], cursor, status) implies rows.contains(
            query::summary(tasks[i], true),
        ) by {
            let x = query::summary(tasks[i], true);
            if i < n - 1 {
                let k = choose|k: int| 0 <= k < before.len() && before[k] == x;
                assert(rows[k] == x);
            } else {
                assert(rows[before.len() as int] == x);
            }
        }
        assert forall|j: int, k: int| 0 <= j < k < rows.len() implies (#[trigger] rows[j]).task_id != (
        #[trigger] rows[k]).task_id by {
            assert(rows[j] == before[j]);
            if k < before.len() {
                assert(rows[k] == before[k]);
            } else {
                let i = choose|i: int|
                    0 <= i < n - 1 && belongs(tasks[i], cursor, status) && before[j] == query::summary(
                        #[trigger] tasks[i],
                        true,
                    );
                assert(tasks[i].head.task_id != tasks[n - 1].head.task_id);
            }
        }
    } else {
        assert(tasks.take(0) =~= Seq::<TaskRec>::empty());
    }
}

/// The listing from which pages are cut.
pub open spec fn listing_of(l: Ledger, cursor: Option<CursorRec>, status: Option<Text>) -> Seq<SummaryRec> {
    ordering::sorted_by_key(l.tasks.filter_map(query::pick_page(cursor, status)), query::cursor_key()).reverse()
}

/// Whether a row stands before another in a listing: newer, or as new with a later id.
pub open spec fn ahead(a: SummaryRec, b: SummaryRec) -> bool {
    b.updated_at < a.updated_at || (b.updated_at == a.updated_at && ordering::text_before(b.task_id, a.task_id))
}

proof fn lemma_listing(l: Ledger, cursor: Option<CursorRec>, status: Option<Text>)
    requires
        l.wf(),
    ensures
        ({
            let all = listing_of(l, cursor, status);
            &&& forall|k: int|
                0 <= k < all.len() ==> exists|i: int|
                    0 <= i < l.tasks.len() && belongs(l.tasks[i], cursor, status) && #[trigger] all[k]
                        == query::summary(#[trigger] l.tasks[i], true)
            &&& forall|i: int|
                0 <= i < l.tasks.len() && belongs(#[trigger] l.tasks[i], cursor, status) ==> all.contains(
                    query::summary(l.tasks[i], true),
                )
            &&& forall|j: int, k: int| 0 <= j < k < all.len() ==> ahead(#[trigger] all[j], #[trigger] all[k])
        }),
{
    let rows = l.tasks.filter_map(query::pick_page(cursor, status));
    let n = rows.len() as int;
    let keys = rows.map_values(query::cursor_key());
    let places = ordering::sorted_places(keys, n);
    let sorted = ordering::sorted_by_key(rows, query::cursor_key());
    let all = listing_of(l, cursor, status);
    assert(l.tasks.take(l.tasks.len() as int) =~= l.tasks);
    lemma_page_rows(l.tasks, cursor, status, l.tasks.len() as int);
    ordering::law_sorted_places(keys, n);
    assert(all.len() == n);
    assert forall|k: int| 0 <= k < n implies 0 <= #[trigger] places[k] < n && sorted[k] == rows[places[k]] by {
        assert(places.contains(places[k]));
    }
    assert forall|k: int| 0 <= k < all.len() implies exists|i: int|
        0 <= i < l.tasks.len() && belongs(l.tasks[i], cursor, status) && #[trigger] all[k] == query::summary(
            #[trigger] l.tasks[i],
            true,
        ) by {
        let p = places[n - 1 - k];
        assert(all[k] == sorted[n - 1 - k]);
        assert(all[k] == rows[p]);
        let i = choose|i: int|
            0 <= i < l.tasks.len() && belongs(l.tasks[i], cursor, status) && rows[p] == query::summary(
                #[trigger] l.tasks[i],
                true,
            );
        assert(all[k] == query::summary(l.tasks[i], true));
    }
    assert forall|i: int| 0 <= i < l.tasks.len() && belongs(#[trigger] l.tasks[i], cursor, status) implies all.contains(
        query::summary(l.tasks[i], true),
    ) by {
        let x = query::summary(l.tasks[i], true);
        let p = choose|p: int| 0 <= p < rows.len() && rows[p] == x;
        assert(places.contains(p));
        let k = choose|k: int| 0 <= k < places.len() && places[k] == p;
        assert(sorted[k] == x);
        assert(all[n - 1 - k] == x);
    }
    assert forall|j: int, k: int| 0 <= j < k < all.len() implies ahead(#[trigger] all[j], #[trigger] all[k]) by {
        let a = n - 1 - j;
        let b = n - 1 - k;
        assert(all[j] == sorted[a] && all[k] == sorted[b]);
        assert(places[b] != places[a]);
        let x = rows[places[a]];
        let y = rows[places[b]];
        assert(keys[places[a]] == query::cursor_key()(x));
        assert(keys[places[b]] == query::cursor_key()(y));
        assert(!keys[places[a]].before(keys[places[b]]));
        if places[a] < places[b] {
            assert(x.task_id != y.task_id);
        } else {
            assert(y.task_id != x.task_id);
        }
        ordering::lemma_text_before_total(x.task_id, y.task_id);
    }
}

/// A page holds rows of tasks behind its cursor that have the wanted status, newest first, each once,
/// and no more than the limit.
pub proof fn law_pages_are_sound(l: Ledger, cursor: Option<CursorRec>, limit: usize, status: Option<Text>)
    requires
        l.wf(),
    ensures
        ({
            let items = l.page(cursor, limit, status).items;
            &&& items.len() <= listing::bounded(limit, l.max_list)
            &&& forall|k: int|
                0 <= k < items.len() ==> exists|i: int|
                    0 <= i < l.tasks.len() && belongs(l.tasks[i], cursor, status) && #[trigger] items[k]
                        == query::summary(#[trigger] l.tasks[i], true)
            &&& forall|j: int, k: int| 0 <= j < k < items.len() ==> ahead(#[trigger] items[j], #[trigger] items[k])
        }),
{
    lemma_listing(l, cursor, status);
    let all = listing_of(l, cursor, status);
    let items = l.page(cursor, limit, status).items;
    assert forall|k: int| 0 <= k < items.len() implies items[k] == all[k] by {}
}

/// Pages neither repeat nor skip: no row of a page stands behind the cursor that the page hands on,
/// and a task that belongs to the listing is on the page or behind that cursor. A page that hands on
/// no cursor is the end of the listing.
pub proof fn law_pages_neither_repeat_nor_skip(l: Ledger, cursor: Option<CursorRec>, limit: usize, status: Option<Text>, i: int)
    requires
        l.wf(),
        0 <= i < l.tasks.len(),
        belongs(l.tasks[i], cursor, status),
    ensures
        ({
            let page = l.page(cursor, limit, status);
            let row = query::summary(l.tasks[i], true);
            &&& page.next_cursor is Some
            &&& page.items.contains(row) ==> !query::behind_cursor(l.tasks[i], page.next_cursor)
            &&& !page.items.contains(row) ==> query::behind_cursor(l.tasks[i], page.next_cursor)
        }),
{
    lemma_listing(l, cursor, status);
    let all = listing_of(l, cursor, status);
    let page = l.page(cursor, limit, status);
    let items = page.items;
    let row = query::summary(l.tasks[i], true);
    let k = choose|k: int| 0 <= k < all.len() && all[k] == row;
    assert(listing::bounded(limit, l.max_list) >= 1);
    assert(items.len() >= 1);
    let end = items.len() - 1;
    let last = items[end];
    assert(last == all[end]);
    if k <= end {
        assert(items[k] == row);
        if k < end {
            assert(ahead(all[k], all[end]));
            lemma_ahead_is_strict(all[k], all[end]);
        } else {
            ordering::lemma_text_before_irreflexive(row.task_id);
        }
    } else {
        assert(ahead(all[end], all[k]));
        if items.contains(row) {
            let j = choose|j: int| 0 <= j < items.len() && items[j] == row;
            assert(ahead(all[j], all[k]));
            ordering::lemma_text_before_irreflexive(row.task_id);
        }
    }
}

/// A page leaves a task of its listing out only where it is full.
pub proof fn lemma_full_pages(l: Ledger, cursor: Option<CursorRec>, limit: usize, status: Option<Text>, i: int)
    requires
        l.wf(),
        0 <= i < l.tasks.len(),
        belongs(l.tasks[i], cursor, status),
        !l.page(cursor, limit, status).items.contains(query::summary(l.tasks[i], true)),
    ensures
        l.page(cursor, limit, status).items.len() == listing::bounded(limit, l.max_list),
{
    lemma_listing(l, cursor, status);
}

/// Pages are stable under writes between them: a task that was on a page is not on the next one, even
/// if it was written meanwhile, and a task that was neither on the page nor written meanwhile still
/// belongs to what follows the page.
pub proof fn law_pages_are_stable_under_writes(
    l: Ledger,
    m: Ledger,
    cursor: Option<CursorRec>,
    limit: usize,
    next_limit: usize,
    status: Option<Text>,
    i: int,
    j: int,
)
    requires
        l.wf(),
        m.wf(),
        0 <= i < l.tasks.len(),
        0 <= j < m.tasks.len(),
        belongs(l.tasks[i], cursor, status),
        m.tasks[j].head.task_id == l.tasks[i].head.task_id,
        m.tasks[j].head.updated_at >= l.tasks[i].head.updated_at,
    ensures
        ({
            let page = l.page(cursor, limit, status);
            let next = m.page(page.next_cursor, next_limit, status);
            let row = query::summary(l.tasks[i], true);
            &&& page.items.contains(row) ==> forall|k: int|
                0 <= k < next.items.len() ==> (#[trigger] next.items[k]).task_id != row.task_id
            &&& !page.items.contains(row) && m.tasks[j] == l.tasks[i] ==> listing_of(
                m,
                page.next_cursor,
                status,
            ).contains(row)
        }),
{
    law_pages_neither_repeat_nor_skip(l, cursor, limit, status, i);
    let page = l.page(cursor, limit, status);
    let row = query::summary(l.tasks[i], true);
    let next = m.page(page.next_cursor, next_limit, status);
    law_pages_are_sound(m, page.next_cursor, next_limit, status);
    lemma_listing(m, page.next_cursor, status);
    if page.items.contains(row) {
        assert(!query::behind_cursor(m.tasks[j], page.next_cursor));
        assert forall|k: int| 0 <= k < next.items.len() implies (#[trigger] next.items[k]).task_id != row.task_id by {
            let x = choose|x: int|
                0 <= x < m.tasks.len() && belongs(m.tasks[x], page.next_cursor, status) && next.items[k]
                    == query::summary(#[trigger] m.tasks[x], true);
            assert(m.tasks[x].head.task_id == next.items[k].task_id);
            assert(x != j);
        }
    }
}

proof fn lemma_ahead_is_strict(a: SummaryRec, b: SummaryRec)
    requires
        ahead(a, b),
    ensures
        !ahead(b, a),
{
    if a.updated_at == b.updated_at {
        if ordering::text_before(a.task_id, b.task_id) {
            ordering::lemma_text_before_transitive(a.task_id, b.task_id, a.task_id);
            ordering::lemma_text_before_irreflexive(a.task_id);
        }
    }
}

proof fn lemma_one_order(a: Seq<SummaryRec>, b: Seq<SummaryRec>)
    requires
        forall|j: int, k: int| 0 <= j < k < a.len() ==> ahead(#[trigger] a[j], #[trigger] a[k]),
        forall|j: int, k: int| 0 <= j < k < b.len() ==> ahead(#[trigger] b[j], #[trigger] b[k]),
        forall|x: SummaryRec| #[trigger] a.contains(x) <==> b.contains(x),
    ensures
        a == b,
    decreases a.len(),
{
    if a.len() == 0 {
        if b.len() > 0 {
            assert(b.contains(b[0]));
            assert(a.contains(b[0]));
        }
    } else {
        assert(a.contains(a[0]));
        assert(b.contains(a[0]));
        let j = choose|j: int| 0 <= j < b.len() && b[j] == a[0];
        assert(b.contains(b[0]));
        assert(a.contains(b[0]));
        let i = choose|i: int| 0 <= i < a.len() && a[i] == b[0];
        if j > 0 {
            lemma_ahead_is_strict(b[0], b[j]);
            if i > 0 {
                assert(ahead(a[0], a[i]));
            }
        }
        assert(a[0] == b[0]);
        let x = a.skip(1);
        let y = b.skip(1);
        assert forall|r: SummaryRec| #[trigger] x.contains(r) <==> y.contains(r) by {
            if x.contains(r) {
                let k = choose|k: int| 0 <= k < x.len() && x[k] == r;
                assert(a[k + 1] == r);
                assert(ahead(a[0], a[k + 1]));
                lemma_ahead_is_strict(a[0], a[k + 1]);
                assert(a.contains(r));
                let m = choose|m: int| 0 <= m < b.len() && b[m] == r;
                assert(y[m - 1] == r);
            }
            if y.contains(r) {
                let k = choose|k: int| 0 <= k < y.len() && y[k] == r;
                assert(b[k + 1] == r);
                assert(ahead(b[0], b[k + 1]));
                lemma_ahead_is_strict(b[0], b[k + 1]);
                assert(b.contains(r));
                assert(a.contains(r));
                let m = choose|m: int| 0 <= m < a.len() && a[m] == r;
                assert(x[m - 1] == r);
            }
        }
        assert forall|p: int, q: int| 0 <= p < q < x.len() implies ahead(#[trigger] x[p], #[trigger] x[q]) by {
            assert(ahead(a[p + 1], a[q + 1]));
        }
        assert forall|p: int, q: int| 0 <= p < q < y.len() implies ahead(#[trigger] y[p], #[trigger] y[q]) by {
            assert(ahead(b[p + 1], b[q + 1]));
        }
        lemma_one_order(x, y);
        assert(a =~= seq![a[0]] + x);
        assert(b =~= seq![b[0]] + y);
    }
}

/// What stands behind the cursor that a page hands on is what stands behind the page.
proof fn lemma_rest_of_listing(l: Ledger, cursor: Option<CursorRec>, limit: usize, status: Option<Text>)
    requires
        l.wf(),
        l.page(cursor, limit, status).items.len() > 0,
    ensures
        ({
            let page = l.page(cursor, limit, status);
            let all = listing_of(l, cursor, status);
            &&& page.items.len() <= all.len()
            &&& page.items == all.take(page.items.len() as int)
            &&& listing_of(l, page.next_cursor, status) == all.skip(page.items.len() as int)
        }),
{
    let page = l.page(cursor, limit, status);
    let next = page.next_cursor;
    let all = listing_of(l, cursor, status);
    let rest = listing_of(l, next, status);
    let n = page.items.len() as int;
    let tail = all.skip(n);
    lemma_listing(l, cursor, status);
    lemma_listing(l, next, status);
    assert(page.items =~= all.take(n));
    let last = all[n - 1];
    assert(page.items[n - 1] == last);
    let c = next->0;
    assert(c.updated_at == last.updated_at && c.task_id == last.task_id);
    let li = choose|i: int|
        0 <= i < l.tasks.len() && belongs(l.tasks[i], cursor, status) && last == query::summary(
            #[trigger] l.tasks[i],
            true,
        );
    assert(belongs(l.tasks[li], cursor, status));
    assert forall|r: SummaryRec| #[trigger] rest.contains(r) <==> tail.contains(r) by {
        if rest.contains(r) {
            let k = choose|k: int| 0 <= k < rest.len() && rest[k] == r;
            let i = choose|i: int|
                0 <= i < l.tasks.len() && belongs(l.tasks[i], next, status) && rest[k] == query::summary(
                    #[trigger] l.tasks[i],
                    true,
                );
            let t = l.tasks[i];
            if cursor is Some && t.head.updated_at == c.updated_at && c.updated_at == cursor->0.updated_at {
                ordering::lemma_text_before_transitive(t.head.task_id, c.task_id, cursor->0.task_id);
            }
            assert(belongs(t, cursor, status));
            assert(all.contains(r));
            let m = choose|m: int| 0 <= m < all.len() && all[m] == r;
            law_pages_neither_repeat_nor_skip(l, cursor, limit, status, i);
            if m < n {
                assert(page.items[m] == r);
                assert(page.items.contains(r));
            }
            assert(tail[m - n] == r);
        }
        if tail.contains(r) {
            let k = choose|k: int| 0 <= k < tail.len() && tail[k] == r;
            assert(all[k + n] == r);
            let i = choose|i: int|
                0 <= i < l.tasks.len() && belongs(l.tasks[i], cursor, status) && all[k + n] == query::summary(
                    #[trigger] l.tasks[i],
                    true,
                );
            law_pages_neither_repeat_nor_skip(l, cursor, limit, status, i);
            if page.items.contains(r) {
                let m = choose|m: int| 0 <= m < page.items.len() && page.items[m] == r;
                assert(all[m] == r);
                assert(ahead(all[m], all[k + n]));
                lemma_ahead_is_strict(all[m], all[k + n]);
            }
            assert(belongs(l.tasks[i], next, status));
            assert(rest.contains(query::summary(l.tasks[i], true)));
        }
    }
    assert forall|p: int, q: int| 0 <= p < q < tail.len() implies ahead(#[trigger] tail[p], #[trigger] tail[q]) by {
        assert(ahead(all[p + n], all[q + n]));
    }
    lemma_one_order(rest, tail);
}

/// The rows of up to `n` pages, one page after the other, each behind the cursor that the one before it
/// hands on, until a page is empty.
pub open spec fn run_of_pages(l: Ledger, cursor: Option<CursorRec>, limit: usize, status: Option<Text>, n: nat) -> Seq<
    SummaryRec,
>
    decreases n,
{
    let page = l.page(cursor, limit, status);
    if n == 0 || page.items.len() == 0 {
        Seq::empty()
    } else {
        page.items + run_of_pages(l, page.next_cursor, limit, status, (n - 1) as nat)
    }
}

proof fn lemma_run_of_pages(l: Ledger, cursor: Option<CursorRec>, limit: usize, status: Option<Text>, n: nat)
    requires
        l.wf(),
        listing_of(l, cursor, status).len() <= n,
    ensures
        run_of_pages(l, cursor, limit, status, n) == listing_of(l, cursor, status),
    decreases n,
{
    let page = l.page(cursor, limit, status);
    let all = listing_of(l, cursor, status);
    assert(listing::bounded(limit, l.max_list) >= 1);
    if page.items.len() == 0 {
        assert(all.len() == 0);
        assert(all =~= Seq::empty());
    } else {
        lemma_rest_of_listing(l, cursor, limit, status);
        lemma_run_of_pages(l, page.next_cursor, limit, status, (n - 1) as nat);
        assert(page.items + all.skip(page.items.len() as int) =~= all);
    }
}

proof fn lemma_no_longer(tasks: Seq<TaskRec>, cursor: Option<CursorRec>, status: Option<Text>, n: int)
    requires
        0 <= n <= tasks.len(),
    ensures
        tasks.take(n).filter_map(query::pick_page(cursor, status)).len() <= n,
    decreases n,
{
    let f = query::pick_page(cursor, status);
    if n > 0 {
        lemma_no_longer(tasks, cursor, status, n - 1);
        tasks.lemma_filter_map_take_succ(f, n - 1);
    } else {
        assert(tasks.take(0) =~= Seq::<TaskRec>::empty());
    }
}

/// Walking the pages from the first one to an empty one shows every task that has the wanted status, and
/// only those, each once, from the newest to the oldest and equal times by id downwards.
pub proof fn law_a_run_of_pages_shows_every_task_once(l: Ledger, limit: usize, status: Option<Text>, n: nat)
    requires
        l.wf(),
        n >= l.tasks.len(),
    ensures
        ({
            let all = run_of_pages(l, None, limit, status, n);
            &&& forall|j: int, k: int| 0 <= j < k < all.len() ==> ahead(#[trigger] all[j], #[trigger] all[k])
            &&& forall|j: int, k: int| 0 <= j < k < all.len() ==> (#[trigger] all[j]).task_id != (#[trigger] all[k]).task_id
            &&& forall|k: int|
                0 <= k < all.len() ==> exists|t: int|
                    0 <= t < l.tasks.len() && belongs(l.tasks[t], None, status) && #[trigger] all[k] == query::summary(
                        #[trigger] l.tasks[t],
                        true,
                    )
            &&& forall|t: int|
                0 <= t < l.tasks.len() && (status is None || (#[trigger] l.tasks[t]).head.status == status->0)
                    ==> all.contains(query::summary(l.tasks[t], true))
        }),
{
    let all = run_of_pages(l, None, limit, status, n);
    lemma_no_longer(l.tasks, None, status, l.tasks.len() as int);
    assert(l.tasks.take(l.tasks.len() as int) =~= l.tasks);
    let rows = l.tasks.filter_map(query::pick_page(None, status));
    ordering::law_sorted_places(rows.map_values(query::cursor_key()), rows.len() as int);
    lemma_listing(l, None, status);
    lemma_run_of_pages(l, None, limit, status, n);
    assert(all == listing_of(l, None, status));
    assert forall|j: int, k: int| 0 <= j < k < all.len() implies (#[trigger] all[j]).task_id != (#[trigger] all[k]).task_id by {
        assert(ahead(all[j], all[k]));
        let x = choose|t: int|
            0 <= t < l.tasks.len() && belongs(l.tasks[t], None, status) && all[j] == query::summary(
                #[trigger] l.tasks[t],
                true,
            );
        let y = choose|t: int|
            0 <= t < l.tasks.len() && belongs(l.tasks[t], None, status) && all[k] == query::summary(
                #[trigger] l.tasks[t],
                true,
            );
        if x == y {
            lemma_ahead_is_strict(all[j], all[k]);
        } else if x < y {
            assert(l.tasks[x].head.task_id != l.tasks[y].head.task_id);
        } else {
            assert(l.tasks[y].head.task_id != l.tasks[x].head.task_id);
        }
    }
    assert forall|t: int|
        0 <= t < l.tasks.len() && (status is None || (#[trigger] l.tasks[t]).head.status == status->0) implies all.contains(
        query::summary(l.tasks[t], true),
    ) by {
        assert(belongs(l.tasks[t], None, status));
    }
}

/// A page hands on the place of its last row, and no cursor exactly where it is empty.
pub proof fn law_pages_hand_on_their_last_row(l: Ledger, cursor: Option<CursorRec>, limit: usize, status: Option<Text>)
    ensures
        ({
            let page = l.page(cursor, limit, status);
            &&& page.next_cursor is None <==> page.items.len() == 0
            &&& page.next_cursor matches Some(c) ==> c.updated_at == page.items.last().updated_at && c.task_id
                == page.items.last().task_id
        }),
{
}

/// The events of a query without its limit.
pub open spec fn events_behind(l: Ledger, id: Text, after: i64, kind: Option<Text>) -> Seq<EventRec> {
    l.events.filter_map(query::pick_event(id, after, text::non_empty(kind)))
}

proof fn lemma_events_behind(events: Seq<OwnedEvent>, id: Text, after: i64, kind: Option<Text>, n: int)
    requires
        0 <= n <= events.len(),
        forall|i: int, j: int|
            0 <= i < j < events.len() ==> (#[trigger] events[i]).event.event_id < (#[trigger] events[j]).event.event_id,
    ensures
        ({
            let rows = events.take(n).filter_map(query::pick_event(id, after, kind));
            &&& forall|k: int|
                0 <= k < rows.len() ==> (#[trigger] rows[k]).event_id > after && exists|i: int|
                    0 <= i < n && (#[trigger] events[i]).task_id == id && events[i].event == rows[k]
            &&& forall|j: int, k: int|
                0 <= j < k < rows.len() ==> (#[trigger] rows[j]).event_id < (#[trigger] rows[k]).event_id
        }),
    decreases n,
{
    let f = query::pick_event(id, after, kind);
    if n > 0 {
        lemma_events_behind(events, id, after, kind, n - 1);
        events.lemma_filter_map_take_succ(f, n - 1);
        let before = events.take(n - 1).filter_map(f);
        let rows = events.take(n).filter_map(f);
        assert forall|k: int| 0 <= k < rows.len() implies (#[trigger] rows[k]).event_id > after && exists|i: int|
            0 <= i < n && (#[trigger] events[i]).task_id == id && events[i].event == rows[k] by {
            if k < before.len() {
                assert(rows[k] == before[k]);
            } else {
                assert(rows[k] == events[n - 1].event);
            }
        }
        assert forall|j: int, k: int| 0 <= j < k < rows.len() implies (#[trigger] rows[j]).event_id < (
        #[trigger] rows[k]).event_id by {
            assert(rows[j] == before[j]);
            if k < before.len() {
                assert(rows[k] == before[k]);
            } else {
                let i = choose|i: int|
                    0 <= i < n - 1 && (#[trigger] events[i]).task_id == id && events[i].event == before[j];
                assert(events[i].event.event_id < events[n - 1].event.event_id);
            }
        }
    } else {
        assert(events.take(0) =~= Seq::<OwnedEvent>::empty());
    }
}

proof fn lemma_events_cut(events: Seq<OwnedEvent>, id: Text, after: i64, at: i64, kind: Option<Text>, n: int)
    requires
        0 <= n <= events.len(),
        after <= at,
        forall|i: int, j: int|
            0 <= i < j < events.len() ==> (#[trigger] events[i]).event.event_id < (#[trigger] events[j]).event.event_id,
    ensures
        ({
            let all = events.take(n).filter_map(query::pick_event(id, after, kind));
            let rest = events.take(n).filter_map(query::pick_event(id, at, kind));
            &&& rest.len() <= all.len()
            &&& forall|k: int|
                0 <= k < all.len() - rest.len() ==> (#[trigger] all[k]).event_id <= at
            &&& rest == all.skip(all.len() - rest.len())
        }),
    decreases n,
{
    let f = query::pick_event(id, after, kind);
    let g = query::pick_event(id, at, kind);
    let all = events.take(n).filter_map(f);
    let rest = events.take(n).filter_map(g);
    if n > 0 {
        lemma_events_cut(events, id, after, at, kind, n - 1);
        events.lemma_filter_map_take_succ(f, n - 1);
        events.lemma_filter_map_take_succ(g, n - 1);
        let all0 = events.take(n - 1).filter_map(f);
        let rest0 = events.take(n - 1).filter_map(g);
        let e = events[n - 1];
        if g(e) is Some {
            assert(f(e) is Some);
            assert(rest =~= all.skip(all.len() - rest.len()));
            assert forall|k: int| 0 <= k < all.len() - rest.len() implies (#[trigger] all[k]).event_id <= at by {
                assert(all[k] == all0[k]);
            }
        } else if f(e) is Some {
            lemma_events_behind(events, id, at, kind, n - 1);
            if rest0.len() > 0 {
                let i = choose|i: int|
                    0 <= i < n - 1 && (#[trigger] events[i]).task_id == id && events[i].event == rest0[0];
                assert(events[i].event.event_id < e.event.event_id);
            }
            assert(rest =~= all.skip(all.len() - rest.len()));
            assert forall|k: int| 0 <= k < all.len() - rest.len() implies (#[trigger] all[k]).event_id <= at by {
                if k < all0.len() {
                    assert(all[k] == all0[k]);
                }
            }
        } else {
            assert(all =~= all0);
            assert(rest =~= rest0);
        }
    } else {
        assert(events.take(0) =~= Seq::<OwnedEvent>::empty());
        assert(rest =~= all.skip(0));
    }
}

/// Polling misses nothing: what an ascending query returns is the beginning of the events behind its
/// cursor, and the events behind the last one returned are exactly the others.
pub proof fn law_polling_misses_nothing(l: Ledger, id: Text, after: i64, limit: usize, kind: Option<Text>)
    requires
        l.wf(),
        l.has(id),
    ensures
        ({
            let got = l.queried(id, after, limit, kind, EventOrder::Asc)->Ok_0;
            let all = events_behind(l, id, after, kind);
            &&& l.queried(id, after, limit, kind, EventOrder::Asc) is Ok
            &&& forall|j: int, k: int|
                0 <= j < k < got.len() ==> (#[trigger] got[j]).event_id < (#[trigger] got[k]).event_id
            &&& got.len() > 0 ==> all == got + events_behind(l, id, got.last().event_id, kind)
            &&& got.len() == 0 ==> all.len() == 0
        }),
{
    let n = l.events.len() as int;
    let word = text::non_empty(kind);
    let all = events_behind(l, id, after, kind);
    let got = l.queried(id, after, limit, kind, EventOrder::Asc)->Ok_0;
    assert(l.events.take(n) =~= l.events);
    lemma_events_behind(l.events, id, after, word, n);
    assert(listing::bounded(limit, l.max_list) >= 1);
    assert forall|k: int| 0 <= k < got.len() implies got[k] == all[k] by {}
    if got.len() > 0 {
        let at = got.last().event_id;
        assert(got.last() == all[got.len() - 1]);
        let rest = events_behind(l, id, at, kind);
        lemma_events_cut(l.events, id, after, at, word, n);
        lemma_events_behind(l.events, id, at, word, n);
        let cut = all.len() - rest.len();
        if cut > got.len() {
            assert(all[got.len() as int].event_id > all[got.len() - 1].event_id);
        }
        if cut < got.len() {
            assert(rest[got.len() - 1 - cut] == all[got.len() - 1]);
        }
        assert(all =~= got + rest);
    }
}

} // verus!
