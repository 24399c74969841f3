//! What a lineage holds: the tasks within a number of steps of the root, and the edges at them.
use vstd::prelude::*;
use crate::coordinator::edges;
use crate::coordinator::ledger::Ledger;
use crate::coordinator::lineage::{self, Walk};
use crate::coordinator::model::EdgeRec;
use crate::listing;
use crate::ordering;
use crate::text::Text;

verus! {

/// Whether an edge joins a task to another one.
pub open spec fn joins(e: EdgeRec, from: Text, to: Text) -> bool {
    to != from && ((e.task_id == from && e.related_task_id == Some(to)) || (e.related_task_id == Some(from) && e.task_id
        == to))
}

/// Whether a task is at most `d` edges away from the root, whichever way the edges point.
pub open spec fn near(table: Seq<EdgeRec>, root: Text, d: int, id: Text) -> bool
    decreases d + 1,
{
    d >= 0 && (id == root || exists|j: int, from: Text|
        0 <= j < table.len() && near(table, root, d - 1, from) && #[trigger] joins(table[j], from, id))
}

proof fn lemma_farther(table: Seq<EdgeRec>, root: Text, d: int, e: int, id: Text)
    requires
        near(table, root, d, id),
        d <= e,
    ensures
        near(table, root, e, id),
    decreases e,
{
    if d < e && id != root {
        let (j, from) = choose|j: int, from: Text|
            0 <= j < table.len() && near(table, root, d - 1, from) && #[trigger] joins(table[j], from, id);
        lemma_farther(table, root, d - 1, e - 1, from);
        assert(joins(table[j], from, id));
    }
}

/// Whether a walk has looked at the first `k` edges of a task.
spec fn looked(w: Walk, table: Seq<EdgeRec>, id: Text, k: int) -> bool {
    forall|j: int|
        0 <= j < k && edges::touches(#[trigger] table[j], id) && lineage::other_end(table[j], id) is Some
            ==> lineage::other_end(table[j], id)->0 == id || w.seen.contains(lineage::other_end(table[j], id)->0)
}

spec fn all_looked(w: Walk, table: Seq<EdgeRec>, id: Text) -> bool {
    looked(w, table, id, table.len() as int)
}

/// Whether an edge stands at a task within `d` steps of the root.
pub open spec fn edge_near(table: Seq<EdgeRec>, root: Text, d: int, e: EdgeRec) -> bool {
    table.contains(e) && (near(table, root, d, e.task_id) || (e.related_task_id is Some && near(
        table,
        root,
        d,
        e.related_task_id->0,
    )))
}

/// How a walk relates to one that it came from by looking at edges of a task.
spec fn grown(w: Walk, v: Walk, table: Seq<EdgeRec>, id: Text, depth: int, k: int) -> bool {
    &&& w.seen.len() <= v.seen.len()
    &&& v.seen.take(w.seen.len() as int) == w.seen
    &&& v.frontier.len() == w.frontier.len() + v.seen.len() - w.seen.len()
    &&& v.frontier.take(w.frontier.len() as int) == w.frontier
    &&& forall|i: int|
        0 <= i < v.seen.len() - w.seen.len() ==> (#[trigger] v.frontier[w.frontier.len() + i]) == (
            v.seen[w.seen.len() + i],
            depth + 1,
        )
    &&& forall|i: int| w.seen.len() <= i < v.seen.len() ==> !w.seen.contains(#[trigger] v.seen[i])
    &&& forall|i: int|
        w.seen.len() <= i < v.seen.len() ==> exists|j: int|
            0 <= j < table.len() && joins(#[trigger] table[j], id, #[trigger] v.seen[i])
    &&& looked(v, table, id, k)
    &&& w.seen.no_duplicates() ==> v.seen.no_duplicates()
}

proof fn lemma_kept<T>(a: Seq<T>, b: Seq<T>, x: T)
    requires
        a.len() <= b.len(),
        b.take(a.len() as int) == a,
        a.contains(x),
    ensures
        b.contains(x),
{
    let i = choose|i: int| 0 <= i < a.len() && a[i] == x;
    assert(b.take(a.len() as int)[i] == b[i]);
}

#[verifier::rlimit(40)]
proof fn lemma_follow_first(w: Walk, table: Seq<EdgeRec>, id: Text, depth: int, k: int)
    requires
        0 <= k <= table.len(),
    ensures
        grown(w, w.follow_first(table, id, depth, k), table, id, depth, k),
    decreases k,
{
    if k <= 0 {
        assert(w.seen.take(w.seen.len() as int) =~= w.seen);
        assert(w.frontier.take(w.frontier.len() as int) =~= w.frontier);
    } else {
        lemma_follow_first(w, table, id, depth, k - 1);
        let u = w.follow_first(table, id, depth, k - 1);
        let e = table[k - 1];
        let v = w.follow_first(table, id, depth, k);
        if edges::touches(e, id) {
            assert(v == u.follow(e, id, depth));
            assert(v.seen.take(w.seen.len() as int) =~= w.seen) by {
                assert forall|i: int| 0 <= i < w.seen.len() implies v.seen[i] == w.seen[i] by {
                    assert(u.seen.take(w.seen.len() as int)[i] == u.seen[i]);
                }
            }
            assert(v.frontier.take(w.frontier.len() as int) =~= w.frontier) by {
                assert forall|i: int| 0 <= i < w.frontier.len() implies v.frontier[i] == w.frontier[i] by {
                    assert(u.frontier.take(w.frontier.len() as int)[i] == u.frontier[i]);
                }
            }
            assert(v.seen.take(u.seen.len() as int) =~= u.seen);
            if u.discovers(e, id) {
                let o = lineage::other_end(e, id)->0;
                assert(joins(table[k - 1], id, o));
                assert(v.seen =~= u.seen.push(o));
                assert(v.frontier =~= u.frontier.push((o, depth + 1)));
                if w.seen.contains(o) {
                    lemma_kept(w.seen, u.seen, o);
                }
                assert(v.seen[v.seen.len() - 1] == o);
            }
            assert forall|i: int| 0 <= i < v.seen.len() - w.seen.len() implies (#[trigger] v.frontier[w.frontier.len()
                + i]) == (v.seen[w.seen.len() + i], depth + 1) by {
                if i < u.seen.len() - w.seen.len() {
                    assert(v.frontier[w.frontier.len() + i] == u.frontier[w.frontier.len() + i]);
                }
            }
            assert forall|i: int| w.seen.len() <= i < v.seen.len() implies exists|j: int|
                0 <= j < table.len() && joins(#[trigger] table[j], id, #[trigger] v.seen[i]) by {
                if i < u.seen.len() {
                    assert(v.seen[i] == u.seen[i]);
                    let j = choose|j: int| 0 <= j < table.len() && joins(#[trigger] table[j], id, u.seen[i]);
                    assert(joins(table[j], id, v.seen[i]));
                } else {
                    assert(joins(table[k - 1], id, v.seen[i]));
                }
            }
            assert(looked(v, table, id, k)) by {
                assert forall|j: int|
                    0 <= j < k && edges::touches(#[trigger] table[j], id) && lineage::other_end(table[j], id) is Some implies lineage::other_end(
                    table[j],
                    id,
                )->0 == id || v.seen.contains(lineage::other_end(table[j], id)->0) by {
                    let o = lineage::other_end(table[j], id)->0;
                    if u.seen.contains(o) {
                        lemma_kept(u.seen, v.seen, o);
                    } else if o != id {
                        assert(j == k - 1);
                        assert(v.seen[v.seen.len() - 1] == o);
                    }
                }
            }
        }
    }
}

/// Whether a task waits to be visited.
spec fn waits(f: Seq<(Text, int)>, id: Text) -> bool {
    exists|i: int| 0 <= i < f.len() && (#[trigger] f[i]).0 == id
}

/// What holds of a walk at any time.
spec fn sound(w: Walk, table: Seq<EdgeRec>, root: Text, cap: int) -> bool {
    &&& w.seen.len() > 0
    &&& w.seen[0] == root
    &&& w.seen.no_duplicates()
    &&& forall|i: int| 0 <= i < w.seen.len() ==> near(table, root, cap, #[trigger] w.seen[i])
}

/// What holds of a walk while tasks below the depth limit wait.
spec fn searching(w: Walk, table: Seq<EdgeRec>, root: Text, cap: int) -> bool {
    let f = w.frontier;
    &&& f.len() > 0
    &&& f[0].1 < cap
    &&& forall|i: int|
        0 <= i < f.len() ==> 0 <= (#[trigger] f[i]).1 && near(table, root, f[i].1, f[i].0) && !near(
            table,
            root,
            f[i].1 - 1,
            f[i].0,
        )
    &&& forall|i: int, j: int| 0 <= i <= j < f.len() ==> (#[trigger] f[i]).1 <= (#[trigger] f[j]).1 <= f[i].1 + 1
    &&& forall|id: Text| #[trigger] near(table, root, f[0].1, id) ==> w.seen.contains(id)
    &&& forall|i: int| 0 <= i < w.seen.len() ==> waits(f, #[trigger] w.seen[i]) || all_looked(w, table, w.seen[i])
}

/// What holds of a walk when no task below the depth limit waits.
spec fn searched(w: Walk, table: Seq<EdgeRec>, root: Text, cap: int) -> bool {
    &&& forall|i: int| 0 <= i < w.frontier.len() ==> (#[trigger] w.frontier[i]).1 >= cap
    &&& forall|id: Text| #[trigger] near(table, root, cap, id) ==> w.seen.contains(id)
}

/// Where everything found was looked at, everything near was found.
proof fn lemma_closed(w: Walk, table: Seq<EdgeRec>, root: Text, d: int, id: Text)
    requires
        w.seen.contains(root),
        forall|i: int| 0 <= i < w.seen.len() ==> all_looked(w, table, #[trigger] w.seen[i]),
        near(table, root, d, id),
    ensures
        w.seen.contains(id),
    decreases d,
{
    if id != root {
        let (j, from) = choose|j: int, from: Text|
            0 <= j < table.len() && near(table, root, d - 1, from) && #[trigger] joins(table[j], from, id);
        lemma_closed(w, table, root, d - 1, from);
        let i = choose|i: int| 0 <= i < w.seen.len() && w.seen[i] == from;
        assert(all_looked(w, table, w.seen[i]));
        assert(edges::touches(table[j], from));
    }
}

proof fn lemma_still_looked(w: Walk, v: Walk, table: Seq<EdgeRec>, id: Text)
    requires
        all_looked(w, table, id),
        w.seen.len() <= v.seen.len(),
        v.seen.take(w.seen.len() as int) == w.seen,
    ensures
        all_looked(v, table, id),
{
    assert forall|j: int|
        0 <= j < table.len() && edges::touches(#[trigger] table[j], id) && lineage::other_end(table[j], id) is Some implies lineage::other_end(
        table[j],
        id,
    )->0 == id || v.seen.contains(lineage::other_end(table[j], id)->0) by {
        if w.seen.contains(lineage::other_end(table[j], id)->0) {
            lemma_kept(w.seen, v.seen, lineage::other_end(table[j], id)->0);
        }
    }
}

/// A visit keeps what holds of a walk at any time.
proof fn lemma_step_sound(w: Walk, table: Seq<EdgeRec>, root: Text, cap: int)
    requires
        sound(w, table, root, cap),
        searching(w, table, root, cap),
    ensures
        sound(w.step(table, cap), table, root, cap),
{
    let (id, d) = w.frontier.first();
    let u = Walk { frontier: w.frontier.drop_first(), ..w };
    let v = w.step(table, cap);
    lemma_follow_first(u, table, id, d, table.len() as int);
    assert(w.frontier[0] == (id, d));
    assert(v.seen.take(w.seen.len() as int)[0] == v.seen[0]);
    assert forall|i: int| 0 <= i < v.seen.len() implies near(table, root, cap, #[trigger] v.seen[i]) by {
        if i < w.seen.len() {
            assert(v.seen.take(w.seen.len() as int)[i] == v.seen[i]);
        } else {
            let j = choose|j: int| 0 <= j < table.len() && joins(#[trigger] table[j], id, v.seen[i]);
            assert(near(table, root, d + 1, v.seen[i]));
            lemma_farther(table, root, d + 1, cap, v.seen[i]);
        }
    }
}

/// A visit brings a walk to the next task, or to its end.
#[verifier::rlimit(60)]
proof fn lemma_step(w: Walk, table: Seq<EdgeRec>, root: Text, cap: int)
    requires
        sound(w, table, root, cap),
        searching(w, table, root, cap),
    ensures
        searching(w.step(table, cap), table, root, cap) || searched(w.step(table, cap), table, root, cap),
{
    let (id, d) = w.frontier.first();
    let u = Walk { frontier: w.frontier.drop_first(), ..w };
    let v = w.step(table, cap);
    let f = v.frontier;
    let old_len = u.frontier.len() as int;
    lemma_step_sound(w, table, root, cap);
    lemma_follow_first(u, table, id, d, table.len() as int);
    assert(w.frontier[0] == (id, d));
    assert forall|i: int| 0 <= i < old_len implies (#[trigger] f[i]) == w.frontier[i + 1] by {
        assert(f.take(old_len)[i] == f[i]);
    }
    assert forall|i: int| old_len <= i < f.len() implies (#[trigger] f[i]).1 == d + 1 by {
        assert(f[old_len + (i - old_len)] == (v.seen[w.seen.len() + (i - old_len)], d + 1));
    }
    assert forall|i: int| 0 <= i < f.len() implies d <= (#[trigger] f[i]).1 && near(table, root, f[i].1, f[i].0)
        && !near(table, root, f[i].1 - 1, f[i].0) by {
        if i < old_len {
            assert(f[i] == w.frontier[i + 1]);
            assert(w.frontier[0].1 <= w.frontier[i + 1].1);
        } else {
            let k = w.seen.len() + (i - old_len);
            assert(f[old_len + (i - old_len)] == (v.seen[k], d + 1));
            let j = choose|j: int| 0 <= j < table.len() && joins(#[trigger] table[j], id, v.seen[k]);
            assert(joins(table[j], id, v.seen[k]));
            assert(!w.seen.contains(v.seen[k]));
        }
    }
    assert forall|i: int, j: int| 0 <= i <= j < f.len() implies (#[trigger] f[i]).1 <= (#[trigger] f[j]).1 <= f[i].1
        + 1 by {
        if j < old_len {
            assert(f[i] == w.frontier[i + 1]);
            assert(f[j] == w.frontier[j + 1]);
        } else if i < old_len {
            assert(f[i] == w.frontier[i + 1]);
            assert(w.frontier[0].1 <= w.frontier[i + 1].1 <= w.frontier[0].1 + 1);
        }
    }
    assert forall|i: int| 0 <= i < v.seen.len() implies waits(f, #[trigger] v.seen[i]) || all_looked(
        v,
        table,
        v.seen[i],
    ) by {
        if i >= w.seen.len() {
            let k = old_len + (i - w.seen.len());
            assert(f[old_len + (i - w.seen.len())] == (v.seen[w.seen.len() + (i - w.seen.len())], d + 1));
            assert(f[k].0 == v.seen[i]);
        } else {
            assert(v.seen.take(w.seen.len() as int)[i] == v.seen[i]);
            if w.seen[i] != id {
                if waits(w.frontier, w.seen[i]) {
                    let k = choose|k: int| 0 <= k < w.frontier.len() && (#[trigger] w.frontier[k]).0 == w.seen[i];
                    assert(k > 0);
                    assert(f[k - 1] == w.frontier[k]);
                } else {
                    lemma_still_looked(w, v, table, w.seen[i]);
                }
            }
        }
    }
    assert forall|x: Text| w.seen.contains(x) implies #[trigger] v.seen.contains(x) by {
        lemma_kept(w.seen, v.seen, x);
    }
    assert(v.seen.contains(root));
    if f.len() == 0 {
        assert forall|x: Text| #[trigger] near(table, root, cap, x) implies v.seen.contains(x) by {
            lemma_closed(v, table, root, cap, x);
        }
    } else if f[0].1 == d {
        assert forall|x: Text| #[trigger] near(table, root, f[0].1, x) implies v.seen.contains(x) by {
            assert(w.seen.contains(x));
        }
    } else {
        assert(f[0].1 == d + 1) by {
            if old_len > 0 {
                assert(f[0] == w.frontier[1]);
                assert(w.frontier[0].1 <= w.frontier[1].1 <= w.frontier[0].1 + 1);
            }
        }
        assert forall|x: Text| #[trigger] near(table, root, d, x) implies v.seen.contains(x) && all_looked(
            v,
            table,
            x,
        ) by {
            assert(w.seen.contains(x));
            let i = choose|i: int| 0 <= i < v.seen.len() && v.seen[i] == x;
            if waits(f, v.seen[i]) {
                let k = choose|k: int| 0 <= k < f.len() && (#[trigger] f[k]).0 == x;
                assert(f[0].1 <= f[k].1);
                lemma_farther(table, root, d, f[k].1 - 1, x);
            }
        }
        assert forall|x: Text| #[trigger] near(table, root, d + 1, x) implies v.seen.contains(x) by {
            if x != root {
                let (j, from) = choose|j: int, from: Text|
                    0 <= j < table.len() && near(table, root, d, from) && #[trigger] joins(table[j], from, x);
                assert(all_looked(v, table, from));
                assert(edges::touches(table[j], from));
            }
        }
        if f[0].1 >= cap {
            assert forall|i: int| 0 <= i < f.len() implies (#[trigger] f[i]).1 >= cap by {
                assert(f[0].1 <= f[i].1);
            }
        }
    }
}

proof fn lemma_walked(table: Seq<EdgeRec>, root: Text, cap: int, n: nat)
    requires
        cap >= 1,
    ensures
        sound(lineage::walked(table, root, cap, n), table, root, cap),
        searching(lineage::walked(table, root, cap, n), table, root, cap) || searched(
            lineage::walked(table, root, cap, n),
            table,
            root,
            cap,
        ),
    decreases n,
{
    if n == 0 {
        let w = Walk::start(root);
        assert(w.seen[0] == root);
        assert(w.frontier[0] == (root, 0int));
        assert(waits(w.frontier, w.seen[0]));
        assert forall|id: Text| #[trigger] near(table, root, 0, id) implies w.seen.contains(id) by {
            reveal_with_fuel(near, 2);
            assert(id == root);
        }
        assert(searching(w, table, root, cap));
    } else {
        lemma_walked(table, root, cap, (n - 1) as nat);
        let w = lineage::walked(table, root, cap, (n - 1) as nat);
        if searching(w, table, root, cap) {
            lemma_step_sound(w, table, root, cap);
            lemma_step(w, table, root, cap);
        } else if w.frontier.len() > 0 {
            let v = w.step(table, cap);
            assert(w.frontier[0].1 >= cap);
            assert(v.seen == w.seen);
            assert forall|i: int| 0 <= i < v.frontier.len() implies (#[trigger] v.frontier[i]).1 >= cap by {
                assert(v.frontier[i] == w.frontier[i + 1]);
            }
        }
    }
}

proof fn lemma_walk_end(table: Seq<EdgeRec>, root: Text, cap: int)
    requires
        cap >= 1,
    ensures
        sound(lineage::walk_end(table, root, cap), table, root, cap),
        searched(lineage::walk_end(table, root, cap), table, root, cap),
{
    lineage::law_walks_end(table, root, cap);
    let n = choose|n: nat| lineage::over(table, root, cap, n);
    lemma_walked(table, root, cap, n);
}

/// The walk of a lineage finds just the tasks that are near its root.
pub proof fn lemma_found_is_near(table: Seq<EdgeRec>, root: Text, cap: int, id: Text)
    requires
        cap >= 1,
    ensures
        lineage::walk_end(table, root, cap).seen.contains(id) <==> near(table, root, cap, id),
{
    let w = lineage::walk_end(table, root, cap);
    lemma_walk_end(table, root, cap);
    if w.seen.contains(id) {
        let i = choose|i: int| 0 <= i < w.seen.len() && w.seen[i] == id;
        assert(near(table, root, cap, w.seen[i]));
    }
}

proof fn lemma_kept_apart(s: Seq<Text>, keep: spec_fn(Text) -> bool)
    requires
        s.no_duplicates(),
    ensures
        s.filter(keep).no_duplicates(),
        forall|x: Text| #[trigger] s.filter(keep).contains(x) <==> s.contains(x) && keep(x),
    decreases s.len(),
{
    reveal(Seq::filter);
    let kept = s.filter(keep);
    if s.len() > 0 {
        let rest = s.drop_last();
        let before = rest.filter(keep);
        lemma_kept_apart(rest, keep);
        assert forall|x: Text| s.contains(x) <==> rest.contains(x) || x == s.last() by {
            if s.contains(x) {
                let i = choose|i: int| 0 <= i < s.len() && s[i] == x;
                assert(i < rest.len() ==> rest[i] == x);
            }
            if rest.contains(x) {
                let i = choose|i: int| 0 <= i < rest.len() && rest[i] == x;
                assert(s[i] == x);
            }
            assert(s[s.len() - 1] == s.last());
        }
        assert(!rest.contains(s.last()));
        if keep(s.last()) {
            assert(kept == before.push(s.last()));
            assert forall|x: Text| #[trigger] kept.contains(x) <==> before.contains(x) || x == s.last() by {
                if before.contains(x) {
                    let i = choose|i: int| 0 <= i < before.len() && before[i] == x;
                    assert(kept[i] == x);
                }
                assert(kept[before.len() as int] == s.last());
            }
            assert forall|i: int, j: int| 0 <= i < j < kept.len() implies kept[i] != kept[j] by {
                if j == before.len() {
                    assert(before.contains(before[i]));
                }
            }
        }
    }
}

/// A lineage lists, with the root first and the others behind it in the order of their names, no task
/// twice and just the tasks that are within the depth limit of the root.
pub proof fn law_lineage_lists_the_near_tasks(l: Ledger, root: Text, max_depth: usize)
    ensures
        ({
            let g = l.lineage(root, max_depth);
            &&& g.tasks.len() > 0
            &&& g.tasks[0] == root
            &&& g.tasks.no_duplicates()
            &&& forall|i: int, j: int|
                1 <= i < j < g.tasks.len() ==> ordering::text_before(#[trigger] g.tasks[i], #[trigger] g.tasks[j])
            &&& forall|id: Text|
                #[trigger] g.tasks.contains(id) <==> near(l.edges, root, listing::bounded(max_depth, 16) as int, id)
        }),
{
    let cap = listing::bounded(max_depth, 16) as int;
    let w = lineage::walk_end(l.edges, root, cap);
    lemma_walk_end(l.edges, root, cap);
    let keep = lineage::other_than(root);
    let rest = w.seen.filter(keep);
    let s = ordering::sorted_by_key(rest, lineage::name_key());
    lemma_kept_apart(w.seen, keep);
    ordering::law_sorting_keeps_rows(rest, lineage::name_key());
    ordering::law_sorting_orders_rows(rest, lineage::name_key());
    assert(w.seen.contains(root)) by {
        assert(w.seen.contains(w.seen[0]));
    }
    let t = lineage::root_first(w.seen, root);
    assert forall|k: int| 0 <= k < s.len() implies #[trigger] s[k] != root by {
        assert(s.contains(s[k]));
    }
    assert forall|id: Text| #[trigger] t.contains(id) <==> near(l.edges, root, cap, id) by {
        if t.contains(id) {
            let i = choose|i: int| 0 <= i < t.len() && t[i] == id;
            if i > 0 {
                assert(s.contains(s[i - 1]));
            }
            assert(w.seen.contains(id));
        }
        if s.contains(id) {
            let i = choose|i: int| 0 <= i < s.len() && s[i] == id;
            assert(t[i + 1] == id);
        }
        assert(t[0] == root);
        if w.seen.contains(id) {
            let i = choose|i: int| 0 <= i < w.seen.len() && w.seen[i] == id;
            assert(near(l.edges, root, cap, w.seen[i]));
        }
    }
    assert forall|i: int, j: int| 1 <= i < j < t.len() implies ordering::text_before(
        #[trigger] t[i],
        #[trigger] t[j],
    ) by {
        assert(t[i] == s[i - 1] && t[j] == s[j - 1]);
        ordering::lemma_text_before_total(t[i], t[j]);
    }
    assert forall|i: int, j: int| 0 <= i < j < t.len() implies t[i] != t[j] by {
        assert(t[j] == s[j - 1]);
        if i > 0 {
            assert(t[i] == s[i - 1]);
        }
    }
}

/// A lineage holds just the edges that stand at a task within the depth limit of the root.
pub proof fn law_lineage_holds_the_near_edges(l: Ledger, root: Text, max_depth: usize, e: EdgeRec)
    ensures
        l.lineage(root, max_depth).edges.contains(e) <==> edge_near(
            l.edges,
            root,
            listing::bounded(max_depth, 16) as int,
            e,
        ),
{
    let cap = listing::bounded(max_depth, 16) as int;
    let found = lineage::walk_end(l.edges, root, cap).seen;
    let f = lineage::pick_touching_any(found);
    let es = l.edges.filter_map(f);
    lemma_walk_end(l.edges, root, cap);
    ordering::law_sorting_keeps_rows(es, lineage::edge_key());
    if es.contains(e) {
        l.edges.lemma_filter_map_contains(f, e);
        let i = choose|i: int| 0 <= i < found.len() && edges::touches(e, #[trigger] found[i]);
        assert(near(l.edges, root, cap, found[i]));
    }
    if edge_near(l.edges, root, cap, e) {
        let id = if near(l.edges, root, cap, e.task_id) {
            e.task_id
        } else {
            e.related_task_id->0
        };
        assert(found.contains(id));
        let i = choose|i: int| 0 <= i < found.len() && found[i] == id;
        assert(edges::touches(e, found[i]));
        lemma_picked(l.edges, f, e);
    }
}

proof fn lemma_picked(table: Seq<EdgeRec>, f: spec_fn(EdgeRec) -> Option<EdgeRec>, e: EdgeRec)
    requires
        table.contains(e),
        f(e) == Some(e),
    ensures
        table.filter_map(f).contains(e),
    decreases table.len(),
{
    let rest = table.drop_last();
    let kept = rest.filter_map(f);
    let all = table.filter_map(f);
    if table.last() == e {
        assert(all[all.len() - 1] == e);
    } else {
        let i = choose|i: int| 0 <= i < table.len() && table[i] == e;
        assert(rest[i] == e);
        lemma_picked(rest, f, e);
        let k = choose|k: int| 0 <= k < kept.len() && kept[k] == e;
        assert(all[k] == e);
    }
}

} // verus!
