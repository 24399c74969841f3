//! What the metrics of a lineage say of the rows of its tasks.
use vstd::prelude::*;
use crate::coordinator::ledger::Ledger;
use crate::coordinator::lineage;
use crate::coordinator::model::{EdgeRec, SubtreeMetrics, TaskHeader};
use crate::coordinator::reach;
use crate::coordinator::vocab::{self, TaskState};
use crate::listing;
use crate::text::Text;

verus! {

/// How many tasks of a list are there with a status.
pub open spec fn with_status(l: Ledger, ids: Seq<Text>, word: Text) -> int {
    ids.filter(|id: Text| l.has(id) && l.head(id).status == word).len() as int
}

/// Whether a status is none of the ten words that metrics tell apart.
pub open spec fn is_other(status: Text) -> bool {
    !(status == "completed"@ || status == "failed"@ || status == "cancelled"@ || status == "pending"@ || status
        == "running"@ || status == "retrying"@ || status == "paused"@ || status == "frozen"@ || status
        == "interrupted"@ || status == "awaiting_input"@)
}

/// The seconds that a row accounts for at a time: from its start to its last update where the task has
/// completed, failed or been cancelled, and to that time in every other status.
pub open spec fn seconds(h: TaskHeader, now: i64) -> int {
    let over = h.status == "completed"@ || h.status == "failed"@ || h.status == "cancelled"@;
    match h.started_at {
        None => 0,
        Some(s) => if over && h.updated_at > s {
            h.updated_at - s
        } else if !over && now > s {
            now - s
        } else {
            0
        },
    }
}

/// A number, or the largest one that a counter holds.
pub open spec fn counter(n: int) -> int {
    if n > i64::MAX {
        i64::MAX as int
    } else {
        n
    }
}

/// The sum of a measure over the rows of a list of tasks.
pub open spec fn total(l: Ledger, ids: Seq<Text>, f: spec_fn(TaskHeader) -> int) -> int {
    ids.filter(|id: Text| l.has(id)).fold_left(0int, |sum: int, id: Text| sum + f(l.head(id)))
}

proof fn lemma_total(l: Ledger, ids: Seq<Text>, n: int, f: spec_fn(TaskHeader) -> int)
    requires
        0 <= n <= ids.len(),
    ensures
        lineage::tally(l, ids, n, f) == total(l, ids.take(n), f),
    decreases n,
{
    reveal(Seq::filter);
    let keep = |id: Text| l.has(id);
    let plus = |sum: int, id: Text| sum + f(l.head(id));
    if n == 0 {
        assert(ids.take(0) =~= Seq::<Text>::empty());
        assert(ids.take(0).filter(keep) =~= Seq::<Text>::empty());
    } else {
        lemma_total(l, ids, n - 1, f);
        let rest = ids.take(n - 1).filter(keep);
        assert(ids.take(n).drop_last() =~= ids.take(n - 1));
        assert(ids.take(n).last() == ids[n - 1]);
        if keep(ids[n - 1]) {
            let all = ids.take(n).filter(keep);
            assert(all == rest.push(ids[n - 1]));
            assert(all.drop_last() =~= rest);
            assert(all.fold_left(0int, plus) == plus(rest.fold_left(0int, plus), ids[n - 1]));
        } else {
            assert(ids.take(n).filter(keep) == rest);
        }
    }
}

proof fn lemma_count(l: Ledger, ids: Seq<Text>, n: int, f: spec_fn(TaskHeader) -> int, p: spec_fn(TaskHeader) -> bool)
    requires
        0 <= n <= ids.len(),
        forall|h: TaskHeader| #[trigger] f(h) == if p(h) { 1int } else { 0int },
    ensures
        lineage::tally(l, ids, n, f) == ids.take(n).filter(|id: Text| l.has(id) && p(l.head(id))).len(),
    decreases n,
{
    reveal(Seq::filter);
    if n == 0 {
        assert(ids.take(0) =~= Seq::<Text>::empty());
    } else {
        lemma_count(l, ids, n - 1, f, p);
        assert(ids.take(n).drop_last() =~= ids.take(n - 1));
        assert(ids.take(n).last() == ids[n - 1]);
    }
}

proof fn lemma_with_status(l: Ledger, ids: Seq<Text>, word: Text)
    ensures
        lineage::tally(l, ids, ids.len() as int, lineage::has_status(word)) == with_status(l, ids, word),
{
    let f = lineage::has_status(word);
    let p = |h: TaskHeader| h.status == word;
    lemma_count(l, ids, ids.len() as int, f, p);
    assert(ids.take(ids.len() as int) =~= ids);
    assert((|id: Text| l.has(id) && p(l.head(id))) =~= (|id: Text| l.has(id) && l.head(id).status == word));
}

proof fn lemma_other_words(status: Text)
    ensures
        TaskState::of_word(status) is None <==> is_other(status),
{
    vocab::lemma_state_words(TaskState::Pending);
    vocab::lemma_state_words(TaskState::Running);
    vocab::lemma_state_words(TaskState::Retrying);
    vocab::lemma_state_words(TaskState::Completed);
    vocab::lemma_state_words(TaskState::Failed);
    vocab::lemma_state_words(TaskState::Interrupted);
    vocab::lemma_state_words(TaskState::Cancelled);
    vocab::lemma_state_words(TaskState::Paused);
    vocab::lemma_state_words(TaskState::Frozen);
    vocab::lemma_state_words(TaskState::AwaitingInput);
    vocab::law_task_states(status);
}

proof fn lemma_untimed(l: Ledger, ids: Seq<Text>, n: int)
    requires
        0 <= n <= ids.len(),
    ensures
        lineage::untimed(l, ids, n) == ids.take(n).filter(
            |id: Text| !(l.has(id) && l.head(id).started_at is Some),
        ).len(),
    decreases n,
{
    reveal(Seq::filter);
    if n == 0 {
        assert(ids.take(0) =~= Seq::<Text>::empty());
    } else {
        lemma_untimed(l, ids, n - 1);
        assert(ids.take(n).drop_last() =~= ids.take(n - 1));
        assert(ids.take(n).last() == ids[n - 1]);
    }
}

/// The metrics of a lineage count its rows by their status, add up their attempts and the seconds that
/// they account for, and count the tasks that have no start. The seconds of a task end with its last
/// update once it has completed, failed or been cancelled.
pub proof fn law_metrics_go_by_the_columns(l: Ledger, now: i64, root: Text, max_depth: usize, m: SubtreeMetrics)
    requires
        lineage::measures(l, now, l.lineage(root, max_depth), m),
    ensures
        ({
            let ids = l.lineage(root, max_depth).tasks;
            &&& m.root_task_id@ == root
            &&& m.total_tasks == counter(ids.len() as int)
            &&& m.terminal_completed == counter(with_status(l, ids, "completed"@))
            &&& m.terminal_failed == counter(with_status(l, ids, "failed"@))
            &&& m.terminal_cancelled == counter(with_status(l, ids, "cancelled"@))
            &&& m.active_pending == counter(with_status(l, ids, "pending"@))
            &&& m.active_running == counter(with_status(l, ids, "running"@))
            &&& m.active_retrying == counter(with_status(l, ids, "retrying"@))
            &&& m.active_paused == counter(with_status(l, ids, "paused"@))
            &&& m.active_frozen == counter(with_status(l, ids, "frozen"@))
            &&& m.active_interrupted == counter(with_status(l, ids, "interrupted"@))
            &&& m.active_awaiting_input == counter(with_status(l, ids, "awaiting_input"@))
            &&& m.other_status == counter(
                ids.filter(|id: Text| l.has(id) && is_other(l.head(id).status)).len() as int,
            )
            &&& (forall|k: int| 0 <= k < l.tasks.len() ==> (#[trigger] l.tasks[k]).head.attempt_count >= 0)
                ==> m.total_attempts == counter(total(l, ids, |h: TaskHeader| h.attempt_count as int))
            &&& m.total_wall_clock_secs == counter(total(l, ids, |h: TaskHeader| seconds(h, now)))
            &&& m.tasks_with_missing_timing == counter(
                ids.filter(|id: Text| !(l.has(id) && l.head(id).started_at is Some)).len() as int,
            )
            &&& m.max_depth_walked == if max_depth < 1 {
                1
            } else if max_depth > 16 {
                16
            } else {
                max_depth as int
            }
        }),
{
    let ids = l.lineage(root, max_depth).tasks;
    let n = ids.len() as int;
    assert(ids.take(n) =~= ids);
    lemma_with_status(l, ids, "completed"@);
    lemma_with_status(l, ids, "failed"@);
    lemma_with_status(l, ids, "cancelled"@);
    lemma_with_status(l, ids, "pending"@);
    lemma_with_status(l, ids, "running"@);
    lemma_with_status(l, ids, "retrying"@);
    lemma_with_status(l, ids, "paused"@);
    lemma_with_status(l, ids, "frozen"@);
    lemma_with_status(l, ids, "interrupted"@);
    lemma_with_status(l, ids, "awaiting_input"@);
    let other = |h: TaskHeader| is_other(h.status);
    assert forall|h: TaskHeader| #[trigger] lineage::has_other_status()(h) == if other(h) { 1int } else { 0int } by {
        lemma_other_words(h.status);
    }
    lemma_count(l, ids, n, lineage::has_other_status(), other);
    assert((|id: Text| l.has(id) && other(l.head(id))) =~= (|id: Text| l.has(id) && is_other(l.head(id).status)));
    let made = |h: TaskHeader| h.attempt_count as int;
    lemma_total(l, ids, n, made);
    assert(lineage::attempts_made() =~= made);
    if forall|k: int| 0 <= k < l.tasks.len() ==> (#[trigger] l.tasks[k]).head.attempt_count >= 0 {
        lemma_attempts_tally(l, ids, n);
    }
    let secs = |h: TaskHeader| seconds(h, now);
    lemma_total(l, ids, n, secs);
    assert(lineage::run_time_at(now as int) =~= secs);
    lemma_seconds_tally(l, ids, n, now);
    lemma_untimed(l, ids, n);
}

proof fn lemma_attempts_tally(l: Ledger, ids: Seq<Text>, n: int)
    requires
        forall|k: int| 0 <= k < l.tasks.len() ==> (#[trigger] l.tasks[k]).head.attempt_count >= 0,
    ensures
        lineage::tally(l, ids, n, lineage::attempts_made()) >= 0,
    decreases n,
{
    if n > 0 {
        lemma_attempts_tally(l, ids, n - 1);
        crate::coordinator::ledger::lemma_find(l, ids[n - 1]);
    }
}

proof fn lemma_seconds_tally(l: Ledger, ids: Seq<Text>, n: int, now: i64)
    ensures
        lineage::tally(l, ids, n, lineage::run_time_at(now as int)) >= 0,
    decreases n,
{
    if n > 0 {
        lemma_seconds_tally(l, ids, n - 1, now);
    }
}

/// The seconds of a lineage in which every task that started has ended do not depend on when they are
/// asked for.
pub proof fn law_ended_lineages_stand_still(
    l: Ledger,
    now: i64,
    later: i64,
    root: Text,
    max_depth: usize,
    m: SubtreeMetrics,
    again: SubtreeMetrics,
)
    requires
        lineage::measures(l, now, l.lineage(root, max_depth), m),
        lineage::measures(l, later, l.lineage(root, max_depth), again),
        forall|k: int|
            0 <= k < l.tasks.len() && (#[trigger] l.tasks[k]).head.started_at is Some && l.lineage(
                root,
                max_depth,
            ).tasks.contains(l.tasks[k].head.task_id) ==> l.tasks[k].head.status == "completed"@
                || l.tasks[k].head.status == "failed"@ || l.tasks[k].head.status == "cancelled"@,
    ensures
        m.total_wall_clock_secs == again.total_wall_clock_secs,
{
    let ids = l.lineage(root, max_depth).tasks;
    lemma_stands_still(l, now, later, ids, ids.len() as int);
}

proof fn lemma_stands_still(l: Ledger, now: i64, later: i64, ids: Seq<Text>, n: int)
    requires
        0 <= n <= ids.len(),
        forall|k: int|
            0 <= k < l.tasks.len() && (#[trigger] l.tasks[k]).head.started_at is Some && ids.contains(
                l.tasks[k].head.task_id,
            ) ==> l.tasks[k].head.status == "completed"@ || l.tasks[k].head.status == "failed"@
                || l.tasks[k].head.status == "cancelled"@,
    ensures
        lineage::tally(l, ids, n, lineage::run_time_at(now as int)) == lineage::tally(
            l,
            ids,
            n,
            lineage::run_time_at(later as int),
        ),
    decreases n,
{
    if n > 0 {
        lemma_stands_still(l, now, later, ids, n - 1);
        crate::coordinator::ledger::lemma_find(l, ids[n - 1]);
        assert(ids.contains(ids[n - 1]));
    }
}

/// The seconds of a lineage never shrink as time goes on.
pub proof fn law_lineages_only_age(
    l: Ledger,
    now: i64,
    later: i64,
    root: Text,
    max_depth: usize,
    m: SubtreeMetrics,
    again: SubtreeMetrics,
)
    requires
        now <= later,
        lineage::measures(l, now, l.lineage(root, max_depth), m),
        lineage::measures(l, later, l.lineage(root, max_depth), again),
    ensures
        m.total_wall_clock_secs <= again.total_wall_clock_secs,
{
    let ids = l.lineage(root, max_depth).tasks;
    lemma_ages(l, now, later, ids, ids.len() as int);
    lemma_seconds_tally(l, ids, ids.len() as int, now);
}

proof fn lemma_ages(l: Ledger, now: i64, later: i64, ids: Seq<Text>, n: int)
    requires
        now <= later,
    ensures
        lineage::tally(l, ids, n, lineage::run_time_at(now as int)) <= lineage::tally(
            l,
            ids,
            n,
            lineage::run_time_at(later as int),
        ),
    decreases n,
{
    if n > 0 {
        lemma_ages(l, now, later, ids, n - 1);
    }
}

/// Whether an edge joins two tasks and one of its ends is near the root.
pub open spec fn crossing_near(table: Seq<EdgeRec>, root: Text, d: int, e: EdgeRec) -> bool {
    &&& e.related_task_id is Some
    &&& e.related_task_id->0 != e.task_id
    &&& reach::near(table, root, d, e.task_id) || reach::near(table, root, d, e.related_task_id->0)
}

proof fn lemma_crossings(table: Seq<EdgeRec>, found: Seq<Text>, p: spec_fn(EdgeRec) -> bool)
    requires
        forall|e: EdgeRec| #[trigger] p(e) <==> lineage::touches_any(e, found) && lineage::crosses(e),
    ensures
        ({
            let es = table.filter_map(lineage::pick_touching_any(found));
            lineage::crossings(es, es.len() as int) == table.filter(p).len()
        }),
    decreases table.len(),
{
    reveal(Seq::filter);
    let f = lineage::pick_touching_any(found);
    let es = table.filter_map(f);
    if table.len() > 0 {
        let rest = table.drop_last();
        let last = table.last();
        lemma_crossings(rest, found, p);
        let before = rest.filter_map(f);
        assert(p(last) <==> lineage::touches_any(last, found) && lineage::crosses(last));
        if lineage::touches_any(last, found) {
            assert(es =~= before.push(last));
            lemma_crossings_prefix(before, es, before.len() as int);
        } else {
            assert(es =~= before);
        }
    }
}

proof fn lemma_crossings_prefix(a: Seq<EdgeRec>, b: Seq<EdgeRec>, n: int)
    requires
        0 <= n <= a.len() <= b.len(),
        forall|k: int| 0 <= k < a.len() ==> #[trigger] a[k] == b[k],
    ensures
        lineage::crossings(a, n) == lineage::crossings(b, n),
    decreases n,
{
    if n > 0 {
        lemma_crossings_prefix(a, b, n - 1);
        assert(a[n - 1] == b[n - 1]);
    }
}

/// A lineage counts the edges that lead from one task to another and have an end within the depth limit
/// of the root.
pub proof fn law_crossings_are_counted(l: Ledger, root: Text, max_depth: usize)
    ensures
        l.lineage(root, max_depth).cross_task_edge_count == l.edges.filter(
            |e: EdgeRec| crossing_near(l.edges, root, listing::bounded(max_depth, 16) as int, e),
        ).len(),
{
    let cap = listing::bounded(max_depth, 16) as int;
    let found = lineage::walk_end(l.edges, root, cap).seen;
    let p = |e: EdgeRec| crossing_near(l.edges, root, cap, e);
    assert forall|e: EdgeRec| #[trigger] p(e) <==> lineage::touches_any(e, found) && lineage::crosses(e) by {
        reach::lemma_found_is_near(l.edges, root, cap, e.task_id);
        if e.related_task_id is Some {
            reach::lemma_found_is_near(l.edges, root, cap, e.related_task_id->0);
        }
        if lineage::touches_any(e, found) {
            let i = choose|i: int|
                0 <= i < found.len() && crate::coordinator::edges::touches(e, #[trigger] found[i]);
            assert(found.contains(found[i]));
        }
        if found.contains(e.task_id) {
            let i = choose|i: int| 0 <= i < found.len() && found[i] == e.task_id;
            assert(crate::coordinator::edges::touches(e, found[i]));
        }
        if e.related_task_id is Some && found.contains(e.related_task_id->0) {
            let i = choose|i: int| 0 <= i < found.len() && found[i] == e.related_task_id->0;
            assert(crate::coordinator::edges::touches(e, found[i]));
        }
    }
    lemma_crossings(l.edges, found, p);
}

} // verus!
