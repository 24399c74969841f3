//! The tasks related to a task, walked along the recorded edges, and metrics over them.
use vstd::prelude::*;
use crate::coordinator::attempts;
use crate::coordinator::edges;
use crate::coordinator::ledger::{Ledger, TaskStore};
use crate::coordinator::model::{
    self, CoordinatorError, EdgeRec, SubtreeMetrics, TaskEdge, TaskHeader, TaskLineageGraph,
};
use crate::coordinator::promises;
use crate::coordinator::query;
use crate::listing;
use crate::ordering::{self, KeyRec, SortKey};
use crate::outside;
use crate::text::{self, Text};

verus! {

/// A walk under way: the tasks found, and the tasks still to visit with their distance from the root.
pub struct Walk {
    pub seen: Seq<Text>,
    pub frontier: Seq<(Text, int)>,
}

/// The other end of an edge, seen from a task.
pub open spec fn other_end(e: EdgeRec, id: Text) -> Option<Text> {
    if e.task_id == id {
        e.related_task_id
    } else {
        Some(e.task_id)
    }
}

/// Whether an edge begins or ends at one of the tasks.
pub open spec fn touches_any(e: EdgeRec, ids: Seq<Text>) -> bool {
    exists|i: int| 0 <= i < ids.len() && edges::touches(e, #[trigger] ids[i])
}

pub open spec fn pick_touching_any(ids: Seq<Text>) -> spec_fn(EdgeRec) -> Option<EdgeRec> {
    |e: EdgeRec| if touches_any(e, ids) { Some(e) } else { None }
}

impl Walk {
    pub open spec fn start(root: Text) -> Walk {
        Walk { seen: seq![root], frontier: seq![(root, 0int)] }
    }

    /// Whether an edge leads from a task to one that was not found yet.
    pub open spec fn discovers(self, e: EdgeRec, id: Text) -> bool {
        match other_end(e, id) {
            Some(o) => o != id && !self.seen.contains(o),
            None => false,
        }
    }

    /// The walk after it looked at an edge of a task.
    pub open spec fn follow(self, e: EdgeRec, id: Text, depth: int) -> Walk {
        if self.discovers(e, id) {
            let o = other_end(e, id)->0;
            Walk { seen: self.seen.push(o), frontier: self.frontier.push((o, depth + 1)) }
        } else {
            self
        }
    }

    /// The walk after it looked at those of the first `k` edges that touch a task.
    pub open spec fn follow_first(self, table: Seq<EdgeRec>, id: Text, depth: int, k: int) -> Walk
        decreases k,
    {
        if k <= 0 {
            self
        } else {
            let w = self.follow_first(table, id, depth, k - 1);
            if edges::touches(table[k - 1], id) {
                w.follow(table[k - 1], id, depth)
            } else {
                w
            }
        }
    }

    /// The walk after one more task was visited, in the order in which tasks were found; tasks at the
    /// depth limit are not looked into.
    pub open spec fn step(self, table: Seq<EdgeRec>, cap: int) -> Walk {
        if self.frontier.len() == 0 {
            self
        } else {
            let (id, depth) = self.frontier.first();
            let w = Walk { frontier: self.frontier.drop_first(), ..self };
            if depth >= cap {
                w
            } else {
                w.follow_first(table, id, depth, table.len() as int)
            }
        }
    }
}

/// The walk from a root after `n` visits.
pub open spec fn walked(table: Seq<EdgeRec>, root: Text, cap: int, n: nat) -> Walk
    decreases n,
{
    if n == 0 {
        Walk::start(root)
    } else {
        walked(table, root, cap, (n - 1) as nat).step(table, cap)
    }
}

/// Whether a walk is over after `n` visits.
pub open spec fn over(table: Seq<EdgeRec>, root: Text, cap: int, n: nat) -> bool {
    walked(table, root, cap, n).frontier.len() == 0
}

/// The walk from a root when it is over.
pub open spec fn walk_end(table: Seq<EdgeRec>, root: Text, cap: int) -> Walk {
    walked(table, root, cap, choose|n: nat| over(table, root, cap, n))
}

proof fn lemma_over_stays(table: Seq<EdgeRec>, root: Text, cap: int, n: nat, m: nat)
    requires
        over(table, root, cap, n),
        n <= m,
    ensures
        walked(table, root, cap, m) == walked(table, root, cap, n),
    decreases m,
{
    if n < m {
        lemma_over_stays(table, root, cap, n, (m - 1) as nat);
    }
}

/// However long a walk is continued once it is over, it ends the same.
pub proof fn law_walk_end_is_unique(table: Seq<EdgeRec>, root: Text, cap: int, n: nat)
    requires
        over(table, root, cap, n),
    ensures
        walked(table, root, cap, n) == walk_end(table, root, cap),
{
    let m = choose|m: nat| over(table, root, cap, m);
    if n <= m {
        lemma_over_stays(table, root, cap, n, m);
    } else {
        lemma_over_stays(table, root, cap, m, n);
    }
}

/// The key of a task in a lineage.
pub open spec fn name_key() -> spec_fn(Text) -> KeyRec {
    |t: Text| KeyRec { num: 0, name: t }
}

/// The key of an edge in a lineage.
pub open spec fn edge_key() -> spec_fn(EdgeRec) -> KeyRec {
    |e: EdgeRec| KeyRec { num: e.edge_id as int, name: Seq::empty() }
}

/// Tells the tasks apart that are not the root.
pub open spec fn other_than(root: Text) -> spec_fn(Text) -> bool {
    |t: Text| t != root
}

/// The root, then the other tasks in the order of their names.
pub open spec fn root_first(found: Seq<Text>, root: Text) -> Seq<Text> {
    seq![root] + ordering::sorted_by_key(found.filter(other_than(root)), name_key())
}

/// Whether an edge joins two different tasks.
pub open spec fn crosses(e: EdgeRec) -> bool {
    e.related_task_id is Some && e.related_task_id->0 != e.task_id
}

/// How many of the first `n` edges join two different tasks.
pub open spec fn crossings(es: Seq<EdgeRec>, n: int) -> int
    decreases n,
{
    if n <= 0 {
        0
    } else {
        crossings(es, n - 1) + if crosses(es[n - 1]) { 1int } else { 0int }
    }
}

/// The mathematical model of [`TaskLineageGraph`].
pub struct LineageRec {
    pub root_task_id: Text,
    pub tasks: Seq<Text>,
    pub edges: Seq<EdgeRec>,
    pub cross_task_edge_count: int,
    pub max_depth_walked: int,
}

impl View for TaskLineageGraph {
    type V = LineageRec;

    open spec fn view(&self) -> LineageRec {
        LineageRec {
            root_task_id: self.root_task_id@,
            tasks: text::texts(self.tasks@),
            edges: model::views(self.edges@),
            cross_task_edge_count: self.cross_task_edge_count as int,
            max_depth_walked: self.max_depth_walked as int,
        }
    }
}

impl Ledger {
    /// The lineage of a task.
    pub open spec fn lineage(self, root: Text, max_depth: usize) -> LineageRec {
        let cap = listing::bounded(max_depth, 16) as int;
        let found = walk_end(self.edges, root, cap).seen;
        let es = self.edges.filter_map(pick_touching_any(found));
        LineageRec {
            root_task_id: root,
            tasks: root_first(found, root),
            edges: ordering::sorted_by_key(es, edge_key()),
            cross_task_edge_count: crossings(es, es.len() as int),
            max_depth_walked: cap,
        }
    }
}

/// How many ends of the first `k` edges have not been found yet.
spec fn unseen(table: Seq<EdgeRec>, seen: Seq<Text>, k: int) -> int
    decreases k,
{
    if k <= 0 {
        0
    } else {
        let e = table[k - 1];
        unseen(table, seen, k - 1) + (if seen.contains(e.task_id) {
            0int
        } else {
            1int
        }) + (if e.related_task_id is None || seen.contains(e.related_task_id->0) {
            0int
        } else {
            1int
        })
    }
}

proof fn lemma_unseen_push(table: Seq<EdgeRec>, seen: Seq<Text>, o: Text, k: int, j: int)
    requires
        0 <= k <= table.len(),
        !seen.contains(o),
    ensures
        0 <= unseen(table, seen.push(o), k) <= unseen(table, seen, k),
        0 <= j < k && (table[j].task_id == o || table[j].related_task_id == Some(o)) ==> unseen(table, seen.push(o), k)
            < unseen(table, seen, k),
    decreases k,
{
    if k > 0 {
        lemma_unseen_push(table, seen, o, k - 1, j);
        let e = table[k - 1];
        assert forall|x: Text| seen.contains(x) implies #[trigger] seen.push(o).contains(x) by {
            let i = choose|i: int| 0 <= i < seen.len() && seen[i] == x;
            assert(seen.push(o)[i] == x);
        }
        assert(seen.push(o)[seen.len() as int] == o);
        assert(seen.push(o).contains(o));
    }
}

proof fn lemma_unseen_nonneg(table: Seq<EdgeRec>, seen: Seq<Text>, k: int)
    ensures
        0 <= unseen(table, seen, k),
    decreases k,
{
    if k > 0 {
        lemma_unseen_nonneg(table, seen, k - 1);
    }
}

proof fn lemma_follow_narrows(w: Walk, table: Seq<EdgeRec>, id: Text, depth: int, k: int)
    requires
        0 <= k <= table.len(),
    ensures
        ({
            let v = w.follow_first(table, id, depth, k);
            2 * unseen(table, v.seen, table.len() as int) + v.frontier.len() <= 2 * unseen(
                table,
                w.seen,
                table.len() as int,
            ) + w.frontier.len()
        }),
    decreases k,
{
    if k > 0 {
        lemma_follow_narrows(w, table, id, depth, k - 1);
        let u = w.follow_first(table, id, depth, k - 1);
        let e = table[k - 1];
        if edges::touches(e, id) && u.discovers(e, id) {
            lemma_unseen_push(table, u.seen, other_end(e, id)->0, table.len() as int, k - 1);
        }
    }
}

proof fn lemma_walk_ends(table: Seq<EdgeRec>, root: Text, cap: int, n: nat)
    ensures
        exists|m: nat| over(table, root, cap, m),
    decreases
            2 * unseen(table, walked(table, root, cap, n).seen, table.len() as int) + walked(
                table,
                root,
                cap,
                n,
            ).frontier.len(),
{
    let w = walked(table, root, cap, n);
    if w.frontier.len() == 0 {
        assert(over(table, root, cap, n));
    } else {
        let (id, depth) = w.frontier.first();
        let u = Walk { frontier: w.frontier.drop_first(), ..w };
        lemma_follow_narrows(u, table, id, depth, table.len() as int);
        lemma_unseen_nonneg(table, w.seen, table.len() as int);
        lemma_unseen_nonneg(table, walked(table, root, cap, n + 1).seen, table.len() as int);
        lemma_walk_ends(table, root, cap, n + 1);
    }
}

/// Every walk ends.
pub proof fn law_walks_end(table: Seq<EdgeRec>, root: Text, cap: int)
    ensures
        exists|n: nat| over(table, root, cap, n),
{
    lemma_walk_ends(table, root, cap, 0);
}

fn holds_text(v: &Vec<String>, x: &str) -> (r: bool)
    ensures
        r == text::texts(v@).contains(x@),
{
    let mut i: usize = 0;
    while i < v.len()
        invariant
            i <= v@.len(),
            forall|k: int| 0 <= k < i ==> #[trigger] text::texts(v@)[k] != x@,
        decreases v@.len() - i,
    {
        assert(text::texts(v@)[i as int] == v@[i as int]@);
        if text::same(v[i].as_str(), x) {
            return true;
        }
        i = i + 1;
    }
    false
}

fn is_at_any(e: &TaskEdge, ids: &Vec<String>) -> (r: bool)
    ensures
        r == touches_any(e@, text::texts(ids@)),
{
    let mut i: usize = 0;
    while i < ids.len()
        invariant
            i <= ids@.len(),
            forall|k: int| 0 <= k < i ==> !edges::touches(e@, #[trigger] text::texts(ids@)[k]),
        decreases ids@.len() - i,
    {
        assert(text::texts(ids@)[i as int] == ids@[i as int]@);
        if edges::edge_touches(e, ids[i].as_str()) {
            return true;
        }
        i = i + 1;
    }
    false
}

/// The frontier of a walk as the model has it.
spec fn frontier_view(f: Seq<(String, usize)>) -> Seq<(Text, int)> {
    f.map_values(|p: (String, usize)| (p.0@, p.1 as int))
}

impl TaskStore {
    /// Visits one task of a walk.
    fn visit(
        &self,
        seen: &mut Vec<String>,
        frontier: &mut Vec<(String, usize)>,
        id: &str,
        depth: usize,
    )
        requires
            depth < usize::MAX,
        ensures
            (Walk {
                seen: text::texts(final(seen)@),
                frontier: frontier_view(final(frontier)@),
            }) == (Walk {
                seen: text::texts(old(seen)@),
                frontier: frontier_view(old(frontier)@),
            }).follow_first(self@.edges, id@, depth as int, self@.edges.len() as int),
            2 * unseen(self@.edges, text::texts(final(seen)@), self@.edges.len() as int) + final(frontier)@.len() <= 2
                * unseen(self@.edges, text::texts(old(seen)@), self@.edges.len() as int) + old(frontier)@.len(),
    {
        let ghost w0 = Walk {
            seen: text::texts(seen@),
            frontier: frontier_view(frontier@),
        };
        let ghost table = self@.edges;
        let ghost all = table.len() as int;
        let mut k: usize = 0;
        while k < self.edges.len()
            invariant
                k <= self.edges@.len(),
                depth < usize::MAX,
                table == self@.edges,
                all == table.len(),
                all == self.edges@.len(),
                (Walk {
                    seen: text::texts(seen@),
                    frontier: frontier_view(frontier@),
                }) == w0.follow_first(table, id@, depth as int, k as int),
                2 * unseen(table, text::texts(seen@), all) + frontier@.len() <= 2 * unseen(
                    table,
                    text::texts(old(seen)@),
                    all,
                ) + old(frontier)@.len(),
            decreases self.edges@.len() - k,
        {
            let e = &self.edges[k];
            assert(e@ == table[k as int]);
            let ghost w = w0.follow_first(table, id@, depth as int, k as int);
            if edges::edge_touches(e, id) {
                let other: Option<&str> = if text::same(e.task_id.as_str(), id) {
                    text::slice_opt(&e.related_task_id)
                } else {
                    Some(e.task_id.as_str())
                };
                assert(text::opt_slice(other) == other_end(e@, id@));
                if let Some(o) = other {
                    if !text::same(o, id) && !holds_text(seen, o) {
                        let ghost s0 = text::texts(seen@);
                        let ghost f0 = frontier_view(frontier@);
                        proof {
                            lemma_unseen_push(table, s0, o@, all, k as int);
                        }
                        seen.push(text::owned(o));
                        frontier.push((text::owned(o), depth + 1));
                        assert(text::texts(seen@) =~= s0.push(o@));
                        assert(frontier_view(frontier@) =~= f0.push((o@, depth + 1)));
                    }
                }
                assert((Walk {
                    seen: text::texts(seen@),
                    frontier: frontier_view(frontier@),
                }) == w.follow(e@, id@, depth as int));
            }
            k = k + 1;
        }
    }

    /// The edges that begin or end at one of the tasks.
    fn edges_at(&self, ids: &Vec<String>) -> (r: Vec<TaskEdge>)
        ensures
            model::views(r@) == self@.edges.filter_map(pick_touching_any(text::texts(ids@))),
    {
        let ghost f = pick_touching_any(text::texts(ids@));
        let mut out: Vec<TaskEdge> = Vec::new();
        let mut i: usize = 0;
        assert(model::views(out@) =~= self@.edges.take(0).filter_map(f));
        while i < self.edges.len()
            invariant
                i <= self.edges@.len(),
                f == pick_touching_any(text::texts(ids@)),
                model::views(out@) == self@.edges.take(i as int).filter_map(f),
            decreases self.edges@.len() - i,
        {
            proof {
                self@.edges.lemma_filter_map_take_succ(f, i as int);
            }
            let ghost before = model::views(out@);
            let e = &self.edges[i];
            assert(e@ == self@.edges[i as int]);
            if is_at_any(e, ids) {
                out.push(e.dup());
                assert(model::views(out@) =~= before + seq![e@]);
            } else {
                assert(before =~= before + Seq::<EdgeRec>::empty());
            }
            i = i + 1;
        }
        assert(self@.edges.take(self@.edges.len() as int) =~= self@.edges);
        out
    }

    /// The tasks related to a root, up to a depth, with the edges at them.
    pub fn task_lineage(&self, root_task_id: &str, max_depth: usize) -> (r: Result<TaskLineageGraph, CoordinatorError>)
        ensures
            r matches Ok(g) && g@ == self@.lineage(root_task_id@, max_depth),
    {
        let cap = listing::bound(max_depth, 16);
        let ghost table = self@.edges;
        let ghost root = root_task_id@;
        let mut seen: Vec<String> = Vec::new();
        seen.push(text::owned(root_task_id));
        let mut frontier: Vec<(String, usize)> = Vec::new();
        frontier.push((text::owned(root_task_id), 0));
        let ghost mut n: nat = 0;
        assert(text::texts(seen@) =~= seq![root]);
        assert(frontier_view(frontier@) =~= seq![(root, 0int)]);
        while frontier.len() > 0
            invariant
                cap <= 16,
                table == self@.edges,
                root == root_task_id@,
                (Walk {
                    seen: text::texts(seen@),
                    frontier: frontier_view(frontier@),
                }) == walked(table, root, cap as int, n),
            decreases 2 * unseen(table, text::texts(seen@), table.len() as int) + frontier@.len(),
        {
            let ghost w = walked(table, root, cap as int, n);
            proof {
                lemma_unseen_nonneg(table, text::texts(seen@), table.len() as int);
            }
            let ghost f0 = frontier_view(frontier@);
            let (id, depth) = frontier.remove(0);
            assert(frontier_view(frontier@) =~= f0.drop_first());
            assert(f0.first() == (id@, depth as int));
            if depth < cap {
                self.visit(&mut seen, &mut frontier, id.as_str(), depth);
            }
            proof {
                n = n + 1;
                lemma_unseen_nonneg(table, text::texts(seen@), table.len() as int);
            }
            assert((Walk {
                seen: text::texts(seen@),
                frontier: frontier_view(frontier@),
            }) == w.step(table, cap as int));
        }
        proof {
            assert(over(table, root, cap as int, n));
            law_walk_end_is_unique(table, root, cap as int, n);
        }
        let found = self.edges_at(&seen);
        let cross = count_crossings(&found);
        let tasks = sort_tasks(&seen, root_task_id);
        let sorted = sort_edges(&found);
        Ok(
            TaskLineageGraph {
                root_task_id: text::owned(root_task_id),
                tasks,
                edges: sorted,
                cross_task_edge_count: cross,
                max_depth_walked: cap,
            },
        )
    }
}

fn count_crossings(es: &Vec<TaskEdge>) -> (r: usize)
    ensures
        r == crossings(model::views(es@), es@.len() as int),
{
    let mut n: usize = 0;
    let mut i: usize = 0;
    while i < es.len()
        invariant
            i <= es@.len(),
            n <= i,
            n == crossings(model::views(es@), i as int),
        decreases es@.len() - i,
    {
        assert(model::views(es@)[i as int] == es@[i as int]@);
        if let Some(o) = &es[i].related_task_id {
            if !text::same(o.as_str(), es[i].task_id.as_str()) {
                n = n + 1;
            }
        }
        i = i + 1;
    }
    n
}

fn sort_edges(es: &Vec<TaskEdge>) -> (r: Vec<TaskEdge>)
    ensures
        model::views(r@) == ordering::sorted_by_key(model::views(es@), edge_key()),
{
    let mut keys: Vec<SortKey> = Vec::new();
    let mut i: usize = 0;
    while i < es.len()
        invariant
            i <= es@.len(),
            keys@.len() == i,
            forall|k: int| 0 <= k < i ==> (#[trigger] keys@[k])@ == edge_key()(es@[k]@),
        decreases es@.len() - i,
    {
        let key = SortKey { num: es[i].edge_id as i128, name: String::new() };
        assert(key@.name =~= Seq::empty());
        keys.push(key);
        i = i + 1;
    }
    assert(ordering::key_recs(keys@) =~= model::views(es@).map_values(edge_key()));
    let places = ordering::sort_places(&keys);
    let ghost all = ordering::sorted_by_key(model::views(es@), edge_key());
    assert(all.len() == places@.len());
    let mut out: Vec<TaskEdge> = Vec::new();
    let mut j: usize = 0;
    while j < places.len()
        invariant
            j <= places@.len(),
            places@.len() == es@.len(),
            all.len() == places@.len(),
            all == ordering::as_places(places@).map_values(|p: int| model::views(es@)[p]),
            forall|k: int| 0 <= k < places@.len() ==> (#[trigger] places@[k]) < es@.len(),
            model::views(out@) == all.take(j as int),
        decreases places@.len() - j,
    {
        let row = es[places[j]].dup();
        let ghost before = model::views(out@);
        assert(all[j as int] == row@);
        out.push(row);
        assert(model::views(out@) =~= before.push(row@));
        assert(all.take(j + 1) =~= all.take(j as int).push(all[j as int]));
        j = j + 1;
    }
    assert(all.take(places@.len() as int) =~= all);
    out
}

fn tasks_besides(seen: &Vec<String>, root: &str) -> (r: Vec<String>)
    ensures
        text::texts(r@) == text::texts(seen@).filter(other_than(root@)),
{
    let ghost all = text::texts(seen@);
    let ghost keep = other_than(root@);
    let mut out: Vec<String> = Vec::new();
    let mut i: usize = 0;
    assert(text::texts(out@) =~= all.take(0).filter(keep)) by {
        reveal(Seq::filter);
    }
    while i < seen.len()
        invariant
            i <= seen@.len(),
            all == text::texts(seen@),
            keep == other_than(root@),
            text::texts(out@) == all.take(i as int).filter(keep),
        decreases seen@.len() - i,
    {
        let ghost before = text::texts(out@);
        assert(all.take(i + 1).drop_last() =~= all.take(i as int));
        assert(all.take(i + 1).last() == seen@[i as int]@);
        proof {
            reveal(Seq::filter);
        }
        if !text::same(seen[i].as_str(), root) {
            out.push(seen[i].clone());
            assert(text::texts(out@) =~= before.push(seen@[i as int]@));
        }
        i = i + 1;
    }
    assert(all.take(i as int) =~= all);
    out
}

fn sort_tasks(seen: &Vec<String>, root: &str) -> (r: Vec<String>)
    ensures
        text::texts(r@) == root_first(text::texts(seen@), root@),
{
    let rest = tasks_besides(seen, root);
    let mut keys: Vec<SortKey> = Vec::new();
    let mut i: usize = 0;
    while i < rest.len()
        invariant
            i <= rest@.len(),
            keys@.len() == i,
            forall|k: int| 0 <= k < i ==> (#[trigger] keys@[k])@ == name_key()(rest@[k]@),
        decreases rest@.len() - i,
    {
        keys.push(SortKey { num: 0, name: rest[i].clone() });
        i = i + 1;
    }
    assert(ordering::key_recs(keys@) =~= text::texts(rest@).map_values(name_key()));
    let places = ordering::sort_places(&keys);
    let ghost all = ordering::sorted_by_key(text::texts(rest@), name_key());
    assert(all.len() == places@.len());
    let mut out: Vec<String> = Vec::new();
    out.push(text::owned(root));
    let ghost first = seq![root@];
    assert(text::texts(out@) =~= first + all.take(0));
    let mut j: usize = 0;
    while j < places.len()
        invariant
            j <= places@.len(),
            places@.len() == rest@.len(),
            all.len() == places@.len(),
            all == ordering::as_places(places@).map_values(|p: int| text::texts(rest@)[p]),
            forall|k: int| 0 <= k < places@.len() ==> (#[trigger] places@[k]) < rest@.len(),
            text::texts(out@) == first + all.take(j as int),
        decreases places@.len() - j,
    {
        let row = rest[places[j]].clone();
        let ghost before = text::texts(out@);
        assert(all[j as int] == row@);
        out.push(row);
        assert(text::texts(out@) =~= before.push(row@));
        assert(first + all.take(j + 1) =~= (first + all.take(j as int)).push(all[j as int]));
        j = j + 1;
    }
    assert(all.take(places@.len() as int) =~= all);
    out
}

/// The sum of a measure over the first `n` tasks of a list that exist.
pub open spec fn tally(l: Ledger, ids: Seq<Text>, n: int, f: spec_fn(TaskHeader) -> int) -> int
    decreases n,
{
    if n <= 0 {
        0
    } else {
        tally(l, ids, n - 1, f) + if l.has(ids[n - 1]) { f(l.head(ids[n - 1])) } else { 0 }
    }
}

/// Counts the tasks with a status.
pub open spec fn has_status(word: Text) -> spec_fn(TaskHeader) -> int {
    |h: TaskHeader| if h.status == word { 1 } else { 0 }
}

/// Counts the tasks with a status outside the vocabulary.
pub open spec fn has_other_status() -> spec_fn(TaskHeader) -> int {
    |h: TaskHeader| if crate::coordinator::vocab::TaskState::of_word(h.status) is None { 1 } else { 0 }
}

/// How long a task ran: to its last update where it has ended, else until now.
pub open spec fn run_time(h: TaskHeader, now: int) -> int {
    match h.started_at {
        Some(s) => attempts::elapsed(
            s as int,
            if h.status == "completed"@ || h.status == "failed"@ || h.status == "cancelled"@ {
                h.updated_at as int
            } else {
                now
            },
        ),
        None => 0,
    }
}

pub open spec fn run_time_at(now: int) -> spec_fn(TaskHeader) -> int {
    |h: TaskHeader| run_time(h, now)
}

pub open spec fn attempts_made() -> spec_fn(TaskHeader) -> int {
    |h: TaskHeader| h.attempt_count as int
}

/// How many of the first `n` tasks are missing or never started.
pub open spec fn untimed(l: Ledger, ids: Seq<Text>, n: int) -> int
    decreases n,
{
    if n <= 0 {
        0
    } else {
        untimed(l, ids, n - 1) + if l.has(ids[n - 1]) && l.head(ids[n - 1]).started_at is Some { 0int } else { 1int }
    }
}

/// The earliest start among the first `n` tasks.
pub open spec fn oldest_start(l: Ledger, ids: Seq<Text>, n: int) -> Option<i64>
    decreases n,
{
    if n <= 0 {
        None
    } else {
        let prev = oldest_start(l, ids, n - 1);
        if l.has(ids[n - 1]) && l.head(ids[n - 1]).started_at is Some {
            let s = l.head(ids[n - 1]).started_at->0;
            match prev {
                Some(p) => Some(if p < s { p } else { s }),
                None => Some(s),
            }
        } else {
            prev
        }
    }
}

/// The latest update among the first `n` tasks.
pub open spec fn newest_update(l: Ledger, ids: Seq<Text>, n: int) -> Option<i64>
    decreases n,
{
    if n <= 0 {
        None
    } else {
        let prev = newest_update(l, ids, n - 1);
        if l.has(ids[n - 1]) {
            let u = l.head(ids[n - 1]).updated_at;
            match prev {
                Some(p) => Some(if p > u { p } else { u }),
                None => Some(u),
            }
        } else {
            prev
        }
    }
}

/// The metrics of a lineage; sums are cut to what an `i64` holds.
pub open spec fn measures(l: Ledger, now: i64, g: LineageRec, m: SubtreeMetrics) -> bool {
    let ids = g.tasks;
    let n = ids.len() as int;
    &&& m.root_task_id@ == g.root_task_id
    &&& m.total_tasks == query::clipped(n)
    &&& m.cross_task_edge_count == query::clipped(g.cross_task_edge_count)
    &&& m.terminal_completed == query::clipped(tally(l, ids, n, has_status("completed"@)))
    &&& m.terminal_failed == query::clipped(tally(l, ids, n, has_status("failed"@)))
    &&& m.terminal_cancelled == query::clipped(tally(l, ids, n, has_status("cancelled"@)))
    &&& m.active_pending == query::clipped(tally(l, ids, n, has_status("pending"@)))
    &&& m.active_running == query::clipped(tally(l, ids, n, has_status("running"@)))
    &&& m.active_retrying == query::clipped(tally(l, ids, n, has_status("retrying"@)))
    &&& m.active_paused == query::clipped(tally(l, ids, n, has_status("paused"@)))
    &&& m.active_frozen == query::clipped(tally(l, ids, n, has_status("frozen"@)))
    &&& m.active_interrupted == query::clipped(tally(l, ids, n, has_status("interrupted"@)))
    &&& m.active_awaiting_input == query::clipped(tally(l, ids, n, has_status("awaiting_input"@)))
    &&& m.other_status == query::clipped(tally(l, ids, n, has_other_status()))
    &&& m.total_attempts == query::clipped(tally(l, ids, n, attempts_made()))
    &&& m.total_wall_clock_secs == query::clipped(tally(l, ids, n, run_time_at(now as int)))
    &&& m.oldest_started_at == oldest_start(l, ids, n)
    &&& m.newest_updated_at == newest_update(l, ids, n)
    &&& m.tasks_with_missing_timing == query::clipped(untimed(l, ids, n))
    &&& m.max_depth_walked == g.max_depth_walked
}

/// Adds a natural number to a sum that is cut to what an `i64` holds.
fn add_clipped(acc: i64, x: i128, Ghost(sum): Ghost<int>) -> (r: i64)
    requires
        acc == query::clipped(sum),
        0 <= sum,
        0 <= x < 0x1_0000_0000_0000_0000_0000,
    ensures
        r == query::clipped(sum + x),
{
    let t: i128 = acc as i128 + x;
    if t > i64::MAX as i128 {
        i64::MAX
    } else {
        t as i64
    }
}

impl TaskStore {
    /// How many of a list of tasks have a status.
    fn count_status(&self, ids: &Vec<String>, word: &str) -> (r: i64)
        ensures
            r == query::clipped(tally(self@, text::texts(ids@), ids@.len() as int, has_status(word@))),
    {
        let mut n: i64 = 0;
        let mut i: usize = 0;
        let ghost all = text::texts(ids@);
        let ghost f = has_status(word@);
        while i < ids.len()
            invariant
                i <= ids@.len(),
                all == text::texts(ids@),
                f == has_status(word@),
                n == query::clipped(tally(self@, all, i as int, f)),
                tally(self@, all, i as int, f) >= 0,
            decreases ids@.len() - i,
        {
            let k = self.find_index(ids[i].as_str());
            assert(all[i as int] == ids@[i as int]@);
            let mut hit: i128 = 0;
            if k < self.tasks.len() {
                assert(self.tasks@[k as int]@ == self@.tasks[k as int]);
                if text::same(self.tasks[k].head.status.as_str(), word) {
                    hit = 1;
                }
            }
            n = add_clipped(n, hit, Ghost(tally(self@, all, i as int, f)));
            i = i + 1;
        }
        n
    }

    /// How many of a list of tasks have a status outside the vocabulary.
    fn count_other_status(&self, ids: &Vec<String>) -> (r: i64)
        ensures
            r == query::clipped(tally(self@, text::texts(ids@), ids@.len() as int, has_other_status())),
    {
        let mut n: i64 = 0;
        let mut i: usize = 0;
        let ghost all = text::texts(ids@);
        let ghost f = has_other_status();
        while i < ids.len()
            invariant
                i <= ids@.len(),
                all == text::texts(ids@),
                f == has_other_status(),
                n == query::clipped(tally(self@, all, i as int, f)),
                tally(self@, all, i as int, f) >= 0,
            decreases ids@.len() - i,
        {
            let k = self.find_index(ids[i].as_str());
            assert(all[i as int] == ids@[i as int]@);
            let mut hit: i128 = 0;
            if k < self.tasks.len() {
                assert(self.tasks@[k as int]@ == self@.tasks[k as int]);
                if crate::coordinator::vocab::TaskState::parse(self.tasks[k].head.status.as_str()).is_none() {
                    hit = 1;
                }
            }
            n = add_clipped(n, hit, Ghost(tally(self@, all, i as int, f)));
            i = i + 1;
        }
        n
    }

    /// Attempts and run time of a list of tasks.
    fn sum_work(&self, ids: &Vec<String>, now: i64) -> (r: (i64, i64))
        requires
            self.wf(),
        ensures
            r.0 == query::clipped(tally(self@, text::texts(ids@), ids@.len() as int, attempts_made())),
            r.1 == query::clipped(tally(self@, text::texts(ids@), ids@.len() as int, run_time_at(now as int))),
    {
        let mut made: i64 = 0;
        let mut wall: i64 = 0;
        let mut i: usize = 0;
        let ghost all = text::texts(ids@);
        let ghost f = attempts_made();
        let ghost g = run_time_at(now as int);
        while i < ids.len()
            invariant
                self.wf(),
                i <= ids@.len(),
                all == text::texts(ids@),
                f == attempts_made(),
                g == run_time_at(now as int),
                made == query::clipped(tally(self@, all, i as int, f)),
                wall == query::clipped(tally(self@, all, i as int, g)),
                tally(self@, all, i as int, f) >= 0,
                tally(self@, all, i as int, g) >= 0,
            decreases ids@.len() - i,
        {
            let k = self.find_index(ids[i].as_str());
            assert(all[i as int] == ids@[i as int]@);
            let mut a: i128 = 0;
            let mut d: i128 = 0;
            if k < self.tasks.len() {
                let h = &self.tasks[k].head;
                assert(self.tasks@[k as int]@ == self@.tasks[k as int]);
                proof {
                    assert(self@.task_sound(self@.tasks[k as int]));
                    crate::coordinator::ledger::lemma_count_bounds(
                        self@.attempts,
                        h@.task_id,
                        self@.attempts.len() as int,
                    );
                }
                a = h.attempt_count as i128;
                if let Some(s) = h.started_at {
                    let ended = text::same(h.status.as_str(), "completed") || text::same(h.status.as_str(), "failed")
                        || text::same(h.status.as_str(), "cancelled");
                    let end: i64 = if ended {
                        h.updated_at
                    } else {
                        now
                    };
                    d = attempts::elapsed_secs(s, end);
                }
                assert(d == run_time(h@, now as int));
            }
            made = add_clipped(made, a, Ghost(tally(self@, all, i as int, f)));
            wall = add_clipped(wall, d, Ghost(tally(self@, all, i as int, g)));
            i = i + 1;
        }
        (made, wall)
    }

    /// The span of activity of a list of tasks, and how many of them never started.
    fn span(&self, ids: &Vec<String>) -> (r: (Option<i64>, Option<i64>, i64))
        ensures
            r.0 == oldest_start(self@, text::texts(ids@), ids@.len() as int),
            r.1 == newest_update(self@, text::texts(ids@), ids@.len() as int),
            r.2 == query::clipped(untimed(self@, text::texts(ids@), ids@.len() as int)),
    {
        let mut oldest: Option<i64> = None;
        let mut newest: Option<i64> = None;
        let mut missing: i64 = 0;
        let mut i: usize = 0;
        let ghost all = text::texts(ids@);
        while i < ids.len()
            invariant
                i <= ids@.len(),
                all == text::texts(ids@),
                oldest == oldest_start(self@, all, i as int),
                newest == newest_update(self@, all, i as int),
                missing == query::clipped(untimed(self@, all, i as int)),
                untimed(self@, all, i as int) >= 0,
            decreases ids@.len() - i,
        {
            let k = self.find_index(ids[i].as_str());
            assert(all[i as int] == ids@[i as int]@);
            let mut m: i128 = 1;
            if k < self.tasks.len() {
                let h = &self.tasks[k].head;
                assert(self.tasks@[k as int]@ == self@.tasks[k as int]);
                if let Some(s) = h.started_at {
                    m = 0;
                    oldest = match oldest {
                        Some(p) => Some(if p < s { p } else { s }),
                        None => Some(s),
                    };
                }
                let u: i64 = h.updated_at;
                newest = match newest {
                    Some(p) => Some(if p > u { p } else { u }),
                    None => Some(u),
                };
            }
            missing = add_clipped(missing, m, Ghost(untimed(self@, all, i as int)));
            i = i + 1;
        }
        (oldest, newest, missing)
    }

    /// Metrics over the lineage of a task as of a given time.
    pub fn subtree_metrics_at(&self, now: i64, root_task_id: &str, max_depth: usize) -> (r: Result<
        SubtreeMetrics,
        CoordinatorError,
    >)
        requires
            self.wf(),
        ensures
            match r {
                Ok(m) => {
                    let g = self@.lineage(root_task_id@, max_depth);
                    &&& self@.has(root_task_id@)
                    &&& measures(self@, now, g, m)
                    &&& promises::complete(self@, g.tasks) ==> promises::rolled_up(self@, g.tasks, m)
                },
                Err(e) => !self@.has(root_task_id@) && e@ == model::Fault::NotFound(root_task_id@),
            },
    {
        if self.find_index(root_task_id) >= self.tasks.len() {
            return Err(CoordinatorError::NotFound(text::owned(root_task_id)));
        }
        let g = match self.task_lineage(root_task_id, max_depth) {
            Ok(g) => g,
            Err(e) => return Err(e),
        };
        let ghost rec = g@;
        assert(rec.tasks.len() == g.tasks@.len());
        let (total_attempts, total_wall_clock_secs) = self.sum_work(&g.tasks, now);
        let (oldest_started_at, newest_updated_at, missing) = self.span(&g.tasks);
        let m = SubtreeMetrics {
            root_task_id: g.root_task_id,
            total_tasks: query::clip(g.tasks.len() as i128),
            cross_task_edge_count: query::clip(g.cross_task_edge_count as i128),
            terminal_completed: self.count_status(&g.tasks, "completed"),
            terminal_failed: self.count_status(&g.tasks, "failed"),
            terminal_cancelled: self.count_status(&g.tasks, "cancelled"),
            active_pending: self.count_status(&g.tasks, "pending"),
            active_running: self.count_status(&g.tasks, "running"),
            active_retrying: self.count_status(&g.tasks, "retrying"),
            active_paused: self.count_status(&g.tasks, "paused"),
            active_frozen: self.count_status(&g.tasks, "frozen"),
            active_interrupted: self.count_status(&g.tasks, "interrupted"),
            active_awaiting_input: self.count_status(&g.tasks, "awaiting_input"),
            other_status: self.count_other_status(&g.tasks),
            total_attempts,
            total_wall_clock_secs,
            oldest_started_at,
            newest_updated_at,
            tasks_with_missing_timing: missing,
            max_depth_walked: g.max_depth_walked as i64,
        };
        proof {
            if promises::complete(self@, rec.tasks) {
                promises::law_metrics_roll_up(self@, now, rec, m);
            }
        }
        Ok(m)
    }

    /// Metrics over the lineage of a task now.
    pub fn subtree_metrics(&self, root_task_id: &str, max_depth: usize) -> (r: Result<SubtreeMetrics, CoordinatorError>)
        requires
            self.wf(),
        ensures
            match r {
                Ok(m) => {
                    let g = self@.lineage(root_task_id@, max_depth);
                    &&& self@.has(root_task_id@)
                    &&& exists|now: i64| #[trigger] measures(self@, now, g, m)
                    &&& promises::complete(self@, g.tasks) ==> promises::rolled_up(self@, g.tasks, m)
                },
                Err(e) => !self@.has(root_task_id@) && e@ == model::Fault::NotFound(root_task_id@),
            },
    {
        let now = outside::unix_secs();
        self.subtree_metrics_at(now, root_task_id, max_depth)
    }
}

} // verus!
