//! How the attempts of a task hang together: each is linked to the one that it retries.
use vstd::prelude::*;
use crate::coordinator::edges::EdgeRequest;
use crate::coordinator::history;
use crate::coordinator::laws;
use crate::coordinator::ledger::{self, Ledger};
use crate::coordinator::model::{AttemptRec, EdgeRec, OwnedAttempt, TaskRec};
use crate::coordinator::query;
use crate::coordinator::recovery_laws;
use crate::coordinator::update::{self, ChangeRec};
use crate::text::Text;

verus! {

/// Whether an edge links an attempt of a task to one that the task made before.
pub open spec fn is_retry(e: EdgeRec) -> bool {
    e.edge_type == "retried_from"@ && e.related_task_id == Some(e.task_id)
}

pub open spec fn pick_retry(id: Text) -> spec_fn(EdgeRec) -> Option<EdgeRec> {
    |e: EdgeRec| if e.task_id == id && is_retry(e) { Some(e) } else { None }
}

/// The links between a task's attempts, in the order in which they were recorded.
pub open spec fn retries_of(l: Ledger, id: Text) -> Seq<EdgeRec> {
    l.edges.filter_map(pick_retry(id))
}

/// Whether the links of a task lead from each of its attempts but the first back to the one before it.
pub open spec fn chained(l: Ledger, id: Text) -> bool {
    let a = l.attempts_of(id);
    let e = retries_of(l, id);
    &&& e.len() == if a.len() == 0 {
        0
    } else {
        a.len() - 1
    }
    &&& forall|k: int|
        0 <= k < e.len() ==> (#[trigger] e[k]).attempt_id == Some(a[k + 1].attempt_id) && e[k].related_attempt_id
            == Some(a[k].attempt_id)
}

/// Whether a ledger has the attempts of another, if with other outcomes, and no new links between them.
pub open spec fn same_links(l: Ledger, m: Ledger) -> bool {
    &&& m.attempts.len() == l.attempts.len()
    &&& forall|i: int|
        0 <= i < l.attempts.len() ==> (#[trigger] m.attempts[i]).task_id == l.attempts[i].task_id
            && m.attempts[i].attempt.attempt_id == l.attempts[i].attempt.attempt_id
    &&& l.edges.len() <= m.edges.len()
    &&& forall|i: int| 0 <= i < l.edges.len() ==> #[trigger] m.edges[i] == l.edges[i]
    &&& forall|i: int| l.edges.len() <= i < m.edges.len() ==> !is_retry(#[trigger] m.edges[i])
}

proof fn lemma_links_then(l: Ledger, m: Ledger, n: Ledger)
    requires
        same_links(l, m),
        same_links(m, n),
    ensures
        same_links(l, n),
{
    assert forall|i: int| 0 <= i < l.attempts.len() implies (#[trigger] n.attempts[i]).task_id == l.attempts[i].task_id
        && n.attempts[i].attempt.attempt_id == l.attempts[i].attempt.attempt_id by {
        assert(m.attempts[i].task_id == l.attempts[i].task_id);
    }
    assert forall|i: int| 0 <= i < l.edges.len() implies #[trigger] n.edges[i] == l.edges[i] by {
        assert(m.edges[i] == l.edges[i]);
    }
    assert forall|i: int| l.edges.len() <= i < n.edges.len() implies !is_retry(#[trigger] n.edges[i]) by {
        if i < m.edges.len() {
            assert(n.edges[i] == m.edges[i]);
        }
    }
}

proof fn lemma_same_attempts(a: Seq<OwnedAttempt>, b: Seq<OwnedAttempt>, id: Text, n: int)
    requires
        a.len() == b.len(),
        0 <= n <= a.len(),
        forall|i: int|
            0 <= i < a.len() ==> (#[trigger] b[i]).task_id == a[i].task_id && b[i].attempt.attempt_id
                == a[i].attempt.attempt_id,
    ensures
        ({
            let x = a.take(n).filter_map(query::pick_attempt(id));
            let y = b.take(n).filter_map(query::pick_attempt(id));
            x.len() == y.len() && forall|k: int| 0 <= k < x.len() ==> (#[trigger] y[k]).attempt_id == x[k].attempt_id
        }),
    decreases n,
{
    let f = query::pick_attempt(id);
    if n > 0 {
        lemma_same_attempts(a, b, id, n - 1);
        a.lemma_filter_map_take_succ(f, n - 1);
        b.lemma_filter_map_take_succ(f, n - 1);
        assert(b[n - 1].task_id == a[n - 1].task_id);
        let x = a.take(n).filter_map(f);
        let y = b.take(n).filter_map(f);
        let x0 = a.take(n - 1).filter_map(f);
        let y0 = b.take(n - 1).filter_map(f);
        assert forall|k: int| 0 <= k < x.len() implies (#[trigger] y[k]).attempt_id == x[k].attempt_id by {
            if k < x0.len() {
                assert(x[k] == x0[k] && y[k] == y0[k]);
            }
        }
    } else {
        assert(a.take(0) =~= Seq::empty());
        assert(b.take(0) =~= Seq::empty());
    }
}

proof fn lemma_same_retries(a: Seq<EdgeRec>, b: Seq<EdgeRec>, id: Text, n: int)
    requires
        a.len() <= n <= b.len(),
        forall|i: int| 0 <= i < a.len() ==> #[trigger] b[i] == a[i],
        forall|i: int| a.len() <= i < b.len() ==> !is_retry(#[trigger] b[i]),
    ensures
        b.take(n).filter_map(pick_retry(id)) == a.filter_map(pick_retry(id)),
    decreases n,
{
    let f = pick_retry(id);
    if n > a.len() {
        lemma_same_retries(a, b, id, n - 1);
        b.lemma_filter_map_take_succ(f, n - 1);
        assert(!is_retry(b[n - 1]));
        assert(b.take(n).filter_map(f) =~= b.take(n - 1).filter_map(f));
    } else {
        assert(b.take(n) =~= a);
    }
}

proof fn lemma_links_kept(l: Ledger, m: Ledger, id: Text)
    requires
        same_links(l, m),
        chained(l, id),
    ensures
        chained(m, id),
{
    let n = l.attempts.len() as int;
    lemma_same_attempts(l.attempts, m.attempts, id, n);
    assert(l.attempts.take(n) =~= l.attempts);
    assert(m.attempts.take(n) =~= m.attempts);
    lemma_same_retries(l.edges, m.edges, id, m.edges.len() as int);
    assert(m.edges.take(m.edges.len() as int) =~= m.edges);
    assert forall|k: int| 0 <= k < retries_of(m, id).len() implies (#[trigger] retries_of(m, id)[k]).attempt_id == Some(
        m.attempts_of(id)[k + 1].attempt_id,
    ) && retries_of(m, id)[k].related_attempt_id == Some(m.attempts_of(id)[k].attempt_id) by {
        assert(retries_of(m, id)[k] == retries_of(l, id)[k]);
        assert(m.attempts_of(id)[k].attempt_id == l.attempts_of(id)[k].attempt_id);
        assert(m.attempts_of(id)[k + 1].attempt_id == l.attempts_of(id)[k + 1].attempt_id);
    }
}

proof fn lemma_attempt_listed(attempts: Seq<OwnedAttempt>, id: Text, p: int, n: int)
    requires
        0 <= p < n <= attempts.len(),
        attempts[p].task_id == id,
    ensures
        attempts.take(n).filter_map(query::pick_attempt(id)).contains(attempts[p].attempt),
    decreases n,
{
    let f = query::pick_attempt(id);
    attempts.lemma_filter_map_take_succ(f, n - 1);
    let before = attempts.take(n - 1).filter_map(f);
    let rows = attempts.take(n).filter_map(f);
    if p == n - 1 {
        assert(rows[before.len() as int] == attempts[p].attempt);
    } else {
        lemma_attempt_listed(attempts, id, p, n - 1);
        let k = choose|k: int| 0 <= k < before.len() && before[k] == attempts[p].attempt;
        assert(rows[k] == before[k]);
    }
}

/// The current attempt of a task is its last one.
pub proof fn law_current_attempt_is_the_last(l: Ledger, id: Text)
    requires
        l.wf(),
        l.has(id),
    ensures
        l.head(id).current_attempt_id == if l.attempts_of(id).len() == 0 {
            None
        } else {
            Some(l.attempts_of(id).last().attempt_id)
        },
{
    ledger::lemma_find(l, id);
    assert(l.task_sound(l.tasks[l.find(id)]));
    laws::law_attempts_are_numbered(l, id);
    if l.head(id).current_attempt_id is Some {
        let aid = l.head(id).current_attempt_id->0;
        ledger::lemma_attempt_from(l.attempts, aid, 0);
        let p = l.find_attempt(aid);
        lemma_attempt_listed(l.attempts, id, p, l.attempts.len() as int);
        assert(l.attempts.take(l.attempts.len() as int) =~= l.attempts);
        let a = l.attempts_of(id);
        let k = choose|k: int| 0 <= k < a.len() && a[k] == l.attempts[p].attempt;
        assert(a[k].attempt_num == k + 1);
        assert(k == a.len() - 1);
    }
}

/// Every attempt of a task but the last has ended.
pub proof fn law_earlier_attempts_have_ended(l: Ledger, id: Text, k: int)
    requires
        l.wf(),
        l.has(id),
        0 <= k < l.attempts_of(id).len() - 1,
    ensures
        l.attempts_of(id)[k].finished_at is Some,
{
    law_current_attempt_is_the_last(l, id);
    laws::law_attempts_are_numbered(l, id);
    let a = l.attempts_of(id);
    let f = query::pick_attempt(id);
    assert(a.contains(a[k]));
    l.attempts.lemma_filter_map_contains(f, a[k]);
    let x = choose|x: OwnedAttempt| #[trigger] l.attempts.contains(x) && f(x) == Some(a[k]);
    let i = choose|i: int| 0 <= i < l.attempts.len() && l.attempts[i] == x;
    assert(a.contains(a.last()));
    l.attempts.lemma_filter_map_contains(f, a.last());
    let y = choose|y: OwnedAttempt| #[trigger] l.attempts.contains(y) && f(y) == Some(a.last());
    let j = choose|j: int| 0 <= j < l.attempts.len() && l.attempts[j] == y;
    assert(a[k].attempt_num != a.last().attempt_num);
    assert(i != j);
    if i < j {
        assert(l.attempts[i].attempt.attempt_id < l.attempts[j].attempt.attempt_id);
    } else {
        assert(l.attempts[j].attempt.attempt_id < l.attempts[i].attempt.attempt_id);
    }
}

/// The attempts of a task whose links are in order: they are numbered from one and counted, the last one
/// is the current one, all others have ended, and each but the first is linked to the one before it.
pub proof fn law_attempts_of_a_task(l: Ledger, id: Text)
    requires
        l.wf(),
        l.has(id),
        chained(l, id),
    ensures
        ({
            let a = l.attempts_of(id);
            let e = retries_of(l, id);
            let h = l.head(id);
            &&& a.len() == h.attempt_count
            &&& forall|k: int| 0 <= k < a.len() ==> (#[trigger] a[k]).attempt_num == k + 1
            &&& forall|k: int| 0 <= k < a.len() - 1 ==> (#[trigger] a[k]).finished_at is Some
            &&& a.len() == 0 ==> h.current_attempt_id is None && e.len() == 0
            &&& a.len() > 0 ==> h.current_attempt_id == Some(a.last().attempt_id) && e.len() == a.len() - 1
            &&& forall|k: int|
                0 <= k < e.len() ==> (#[trigger] e[k]).attempt_id == Some(a[k + 1].attempt_id)
                    && e[k].related_attempt_id == Some(a[k].attempt_id)
        }),
{
    laws::law_attempts_are_numbered(l, id);
    law_current_attempt_is_the_last(l, id);
    let a = l.attempts_of(id);
    assert forall|k: int| 0 <= k < a.len() - 1 implies (#[trigger] a[k]).finished_at is Some by {
        law_earlier_attempts_have_ended(l, id, k);
    }
}

proof fn lemma_opened(l: Ledger, a: Ledger, id: Text, trace: Option<Text>, now: i64, other: Text)
    requires
        l.wf(),
        l.attempt_seq < i64::MAX,
        l.has(id),
        chained(l, other),
        a.attempts == l.attempts,
        a.edges == l.edges,
        a.head(id).current_attempt_id == l.head(id).current_attempt_id,
        a.head(id).attempt_count == l.head(id).attempt_count,
    ensures
        chained(a.attempt_opened(id, trace, now), other),
{
    let m = a.attempt_opened(id, trace, now);
    if a.has_open_attempt(id) {
        assert(chained(a, other));
    } else {
        law_current_attempt_is_the_last(l, id);
        laws::law_attempts_are_numbered(l, id);
        ledger::lemma_find(l, id);
        assert(l.task_sound(l.tasks[l.find(id)]));
        let rec = a.next_attempt(id, trace, now);
        let f = query::pick_attempt(other);
        let g = pick_retry(other);
        let n = l.attempts.len() as int;
        m.attempts.lemma_filter_map_take_succ(f, n);
        assert(m.attempts == l.attempts.push(rec));
        assert(m.attempts.take(n + 1) =~= m.attempts);
        assert(m.attempts.take(n) =~= l.attempts);
        let e0 = retries_of(l, other);
        let e1 = retries_of(m, other);
        let a0 = l.attempts_of(other);
        let a1 = m.attempts_of(other);
        if l.head(id).current_attempt_id is Some {
            let k = l.edges.len() as int;
            assert(m.edges.len() == k + 1);
            m.edges.lemma_filter_map_take_succ(g, k);
            assert(m.edges.take(k + 1) =~= m.edges);
            assert(m.edges.take(k) =~= l.edges);
            assert(is_retry(m.edges[k]));
            if other == id {
                assert(e1 =~= e0.push(m.edges[k]));
                assert(a1 =~= a0.push(rec.attempt));
                assert forall|j: int| 0 <= j < e1.len() implies (#[trigger] e1[j]).attempt_id == Some(
                    a1[j + 1].attempt_id,
                ) && e1[j].related_attempt_id == Some(a1[j].attempt_id) by {
                    if j < e0.len() {
                        assert(e1[j] == e0[j]);
                    }
                }
            } else {
                assert(e1 =~= e0);
                assert(a1 =~= a0);
            }
        } else {
            assert(m.edges == l.edges);
            if other == id {
                assert(a1 =~= a0.push(rec.attempt));
            } else {
                assert(a1 =~= a0);
            }
        }
    }
}

proof fn lemma_updated(l: Ledger, now: i64, id: Text, c: ChangeRec, safe: Option<Text>, other: Text)
    requires
        l.wf(),
        l.attempt_seq < i64::MAX,
        chained(l, other),
    ensures
        chained(l.updated(now, id, c, safe).0, other),
{
    if l.has(id) {
        history::lemma_changed_only(l, now, id, c, safe);
        let a = l.changed(now, id, c, safe);
        assert(a.edges == l.edges);
        assert(same_links(l, a));
        lemma_links_kept(l, a, other);
        if c.status is Some {
            let s = c.status->0;
            if s == "running"@ {
                lemma_opened(l, a, id, c.trace_id, now, other);
            } else if update::closes_attempt(s) {
                let b = a.attempt_closed(
                    id,
                    s,
                    c.flow_id,
                    c.flow_log_path,
                    c.error_kind,
                    c.error_cause,
                    c.failure_class,
                    now,
                );
                if a.has_open_attempt(id) {
                    ledger::lemma_attempt_from(a.attempts, a.head(id).current_attempt_id->0, 0);
                }
                assert(same_links(a, b));
                assert(same_links(b, b.summarised(id, s, now)));
                lemma_links_kept(a, b, other);
                lemma_links_kept(b, b.summarised(id, s, now), other);
            }
        }
    }
}

/// The attempts of a task are a chain: a new task has neither attempts nor links, and every operation on
/// whichever task keeps the links of each task leading from its second attempt to its first, from its
/// third to its second, and so on.
pub proof fn law_attempts_are_chained(
    l: Ledger,
    now: i64,
    id: Text,
    c: ChangeRec,
    a: Option<Text>,
    b: Option<Text>,
    who: Text,
    word: Text,
    n: i64,
    marked: bool,
    other: Text,
)
    requires
        l.wf(),
        l.roomy(),
        chained(l, other),
    ensures
        chained(l.updated(now, id, c, a).0, other),
        chained(l.retry_requested(now, id).0, other),
        chained(l.retry_bumped(now, id).0, other),
        chained(l.event_appended(now, id, word, who).0, other),
        chained(l.paused(now, id, a, b, who).0, other),
        chained(l.resumed(now, id, who).0, other),
        chained(l.frozen(now, id, a, b, who).0, other),
        chained(l.unfrozen(now, id, who).0, other),
        chained(l.observed(now, id, word, n, who).0, other),
        chained(l.investigation_set(now, id, marked, a, b, who).0, other),
        chained(l.noted(now, id, word, word, who).0, other),
{
    lemma_updated(l, now, id, c, a, other);
}

proof fn lemma_recovered_edges(l: Ledger, now: i64, n: int)
    ensures
        l.recovered_first(now, n).0.edges == l.edges,
    decreases n,
{
    if n > 0 {
        lemma_recovered_edges(l, now, n - 1);
    }
}

proof fn lemma_orphan_links(l: Ledger, now: i64, n: int)
    requires
        n <= l.attempts.len(),
    ensures
        same_links(l, l.orphans_closed_first(now, n).0),
    decreases n,
{
    if n > 0 {
        lemma_orphan_links(l, now, n - 1);
        let m = l.orphans_closed_first(now, n - 1).0;
        assert(same_links(m, l.orphans_closed_first(now, n).0));
        lemma_links_then(l, m, l.orphans_closed_first(now, n).0);
    }
}

/// The same of the scans, of edges, of todos, and of new tasks and replays; a new task begins without
/// attempts and links.
pub proof fn law_chains_begin_and_stay(
    l: Ledger,
    now: i64,
    q: EdgeRequest,
    rec: TaskRec,
    edge_now: i64,
    new_id: Text,
    id: Text,
    who: Text,
    items: Seq<Text>,
    safe: Seq<Text>,
    todo_id: i64,
    other: Text,
)
    requires
        l.wf(),
    ensures
        l.created(rec).1 is Ok ==> chained(l.created(rec).0, rec.head.task_id) && l.created(rec).0.attempts_of(
            rec.head.task_id,
        ).len() == 0,
        chained(l, other) ==> {
            &&& chained(l.created(rec).0, other)
            &&& chained(l.replayed(now, edge_now, new_id, id, who).0, other)
            &&& chained(l.edge_recorded(now, q).0, other)
            &&& chained(l.recovered(now).0, other)
            &&& chained(l.orphans_closed(now).0, other)
            &&& chained(l.todos_set(now, id, items, safe).0, other)
            &&& chained(l.todo_updated(now, id, todo_id, who).0, other)
        },
{
    if l.created(rec).1 is Ok {
        let x = rec.head.task_id;
        lemma_no_rows(l, x, l.attempts.len() as int, l.edges.len() as int);
        assert(l.attempts.take(l.attempts.len() as int) =~= l.attempts);
        assert(l.edges.take(l.edges.len() as int) =~= l.edges);
    }
    if chained(l, other) {
        let n = l.tasks.len() as int;
        recovery_laws::lemma_linked(l);
        recovery_laws::lemma_recovered(l, now, n);
        lemma_recovered_edges(l, now, n);
        let m = l.recovered_first(now, n).0;
        lemma_orphan_links(m, now, m.attempts.len() as int);
        lemma_orphan_links(l, now, l.attempts.len() as int);
        assert(same_links(l, m));
        lemma_links_kept(l, m, other);
        lemma_links_kept(m, l.recovered(now).0, other);
        lemma_links_kept(l, l.orphans_closed(now).0, other);
        assert(same_links(l, l.edge_recorded(now, q).0));
        lemma_links_kept(l, l.edge_recorded(now, q).0, other);
        assert(same_links(l, l.replayed(now, edge_now, new_id, id, who).0));
        lemma_links_kept(l, l.replayed(now, edge_now, new_id, id, who).0, other);
    }
}

proof fn lemma_no_rows(l: Ledger, id: Text, n: int, k: int)
    requires
        l.wf(),
        !l.has(id),
        0 <= n <= l.attempts.len(),
        0 <= k <= l.edges.len(),
    ensures
        l.attempts.take(n).filter_map(query::pick_attempt(id)) == Seq::<AttemptRec>::empty(),
        l.edges.take(k).filter_map(pick_retry(id)) == Seq::<EdgeRec>::empty(),
    decreases n + k,
{
    if n > 0 {
        lemma_no_rows(l, id, n - 1, k);
        l.attempts.lemma_filter_map_take_succ(query::pick_attempt(id), n - 1);
        assert(l.has(l.attempts[n - 1].task_id));
    } else if k > 0 {
        lemma_no_rows(l, id, n, k - 1);
        l.edges.lemma_filter_map_take_succ(pick_retry(id), k - 1);
        assert(l.has(l.edges[k - 1].task_id));
        assert(l.attempts.take(0) =~= Seq::<OwnedAttempt>::empty());
    } else {
        assert(l.attempts.take(0) =~= Seq::<OwnedAttempt>::empty());
        assert(l.edges.take(0) =~= Seq::<EdgeRec>::empty());
    }
}

} // verus!
