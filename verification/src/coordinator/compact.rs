//! What a retention pass over the chronicle would delete, without deleting it.
use vstd::prelude::*;
use crate::coordinator::ledger::{Ledger, TaskStore};
use crate::coordinator::model::{CompactDryRun, CoordinatorError, OwnedEvent, TaskRec};
use crate::coordinator::query;
use crate::coordinator::vocab;
use crate::text::{self, Text};

verus! {

/// The mathematical model of [`CompactDryRun`].
pub struct CompactRec {
    pub cutoff_ts: i64,
    pub candidate_events: i64,
    pub candidate_tasks: i64,
    pub oldest_candidate_ts: Option<i64>,
    pub newest_candidate_ts: Option<i64>,
    pub by_task_status: Seq<(Text, i64)>,
}

/// The models of counts by status.
pub open spec fn status_counts(v: Seq<(String, i64)>) -> Seq<(Text, i64)> {
    v.map_values(|p: (String, i64)| (p.0@, p.1))
}

impl View for CompactDryRun {
    type V = CompactRec;

    open spec fn view(&self) -> CompactRec {
        CompactRec {
            cutoff_ts: self.cutoff_ts,
            candidate_events: self.candidate_events,
            candidate_tasks: self.candidate_tasks,
            oldest_candidate_ts: self.oldest_candidate_ts,
            newest_candidate_ts: self.newest_candidate_ts,
            by_task_status: status_counts(self.by_task_status@),
        }
    }
}

/// A list with a count of a status, where it is not zero.
pub open spec fn with_count(list: Seq<(Text, i64)>, status: Text, n: int) -> Seq<(Text, i64)> {
    if n > 0 {
        list.push((status, query::clipped(n)))
    } else {
        list
    }
}

impl Ledger {
    /// Whether an event is old enough and belongs to a task that has ended.
    pub open spec fn expendable(self, e: OwnedEvent, cutoff: i64) -> bool {
        e.event.ts < cutoff && self.has(e.task_id) && vocab::terminal(self.head(e.task_id).status)
    }

    /// How many of the first `n` events are expendable, of tasks with a status where one is given.
    pub open spec fn expendable_count(self, cutoff: i64, status: Option<Text>, n: int) -> int
        decreases n,
    {
        if n <= 0 {
            0
        } else {
            let e = self.events[n - 1];
            self.expendable_count(cutoff, status, n - 1) + if self.expendable(e, cutoff) && (status is None || self.head(
                e.task_id,
            ).status == status->0) {
                1int
            } else {
                0int
            }
        }
    }

    /// Whether a task has an expendable event.
    pub open spec fn has_expendable(self, id: Text, cutoff: i64) -> bool {
        exists|i: int|
            0 <= i < self.events.len() && (#[trigger] self.events[i]).task_id == id && self.expendable(
                self.events[i],
                cutoff,
            )
    }

    /// How many of the first `n` tasks have an expendable event.
    pub open spec fn expendable_tasks(self, cutoff: i64, n: int) -> int
        decreases n,
    {
        if n <= 0 {
            0
        } else {
            self.expendable_tasks(cutoff, n - 1) + if self.has_expendable(self.tasks[n - 1].head.task_id, cutoff) {
                1int
            } else {
                0int
            }
        }
    }

    /// The earliest time among the first `n` events that are expendable.
    pub open spec fn oldest_expendable(self, cutoff: i64, n: int) -> Option<i64>
        decreases n,
    {
        if n <= 0 {
            None
        } else {
            let prev = self.oldest_expendable(cutoff, n - 1);
            let e = self.events[n - 1];
            if self.expendable(e, cutoff) {
                match prev {
                    Some(p) => Some(if p < e.event.ts { p } else { e.event.ts }),
                    None => Some(e.event.ts),
                }
            } else {
                prev
            }
        }
    }

    /// The latest time among the first `n` events that are expendable.
    pub open spec fn newest_expendable(self, cutoff: i64, n: int) -> Option<i64>
        decreases n,
    {
        if n <= 0 {
            None
        } else {
            let prev = self.newest_expendable(cutoff, n - 1);
            let e = self.events[n - 1];
            if self.expendable(e, cutoff) {
                match prev {
                    Some(p) => Some(if p > e.event.ts { p } else { e.event.ts }),
                    None => Some(e.event.ts),
                }
            } else {
                prev
            }
        }
    }

    /// What a retention pass would delete.
    pub open spec fn compactable(self, cutoff: i64) -> CompactRec {
        let n = self.events.len() as int;
        CompactRec {
            cutoff_ts: cutoff,
            candidate_events: query::clipped(self.expendable_count(cutoff, None, n)),
            candidate_tasks: query::clipped(self.expendable_tasks(cutoff, self.tasks.len() as int)),
            oldest_candidate_ts: self.oldest_expendable(cutoff, n),
            newest_candidate_ts: self.newest_expendable(cutoff, n),
            by_task_status: with_count(
                with_count(
                    with_count(
                        with_count(
                            Seq::empty(),
                            "cancelled"@,
                            self.expendable_count(cutoff, Some("cancelled"@), n),
                        ),
                        "completed"@,
                        self.expendable_count(cutoff, Some("completed"@), n),
                    ),
                    "failed"@,
                    self.expendable_count(cutoff, Some("failed"@), n),
                ),
                "interrupted"@,
                self.expendable_count(cutoff, Some("interrupted"@), n),
            ),
        }
    }
}

/// The candidates of a status are among all candidates, and no more than the events there are.
pub proof fn law_candidates_are_events(l: Ledger, cutoff: i64, status: Option<Text>, n: int)
    requires
        0 <= n <= l.events.len(),
    ensures
        0 <= l.expendable_count(cutoff, status, n) <= l.expendable_count(cutoff, None, n) <= n,
    decreases n,
{
    if n > 0 {
        law_candidates_are_events(l, cutoff, status, n - 1);
    }
}

impl TaskStore {
    fn is_expendable(&self, i: usize, cutoff: i64) -> (r: bool)
        requires
            i < self.events@.len(),
        ensures
            r == self@.expendable(self@.events[i as int], cutoff),
    {
        let e = &self.events[i];
        assert(e@ == self@.events[i as int]);
        if e.event.ts >= cutoff {
            return false;
        }
        let k = self.find_index(e.task_id.as_str());
        if k >= self.tasks.len() {
            return false;
        }
        assert(self.tasks@[k as int]@ == self@.tasks[k as int]);
        vocab::is_terminal(self.tasks[k].head.status.as_str())
    }

    fn count_expendable(&self, cutoff: i64, status: Option<&str>) -> (r: usize)
        ensures
            r == self@.expendable_count(cutoff, text::opt_slice(status), self@.events.len() as int),
    {
        let mut n: usize = 0;
        let mut i: usize = 0;
        while i < self.events.len()
            invariant
                i <= self.events@.len(),
                n <= i,
                n == self@.expendable_count(cutoff, text::opt_slice(status), i as int),
            decreases self.events@.len() - i,
        {
            if self.is_expendable(i, cutoff) {
                assert(self.events@[i as int]@ == self@.events[i as int]);
                let k = self.find_index(self.events[i].task_id.as_str());
                assert(self.tasks@[k as int]@ == self@.tasks[k as int]);
                let fits = match status {
                    Some(s) => text::same(self.tasks[k].head.status.as_str(), s),
                    None => true,
                };
                if fits {
                    n = n + 1;
                }
            }
            i = i + 1;
        }
        n
    }

    fn count_expendable_tasks(&self, cutoff: i64) -> (r: usize)
        ensures
            r == self@.expendable_tasks(cutoff, self@.tasks.len() as int),
    {
        let mut n: usize = 0;
        let mut t: usize = 0;
        while t < self.tasks.len()
            invariant
                t <= self.tasks@.len(),
                n <= t,
                n == self@.expendable_tasks(cutoff, t as int),
            decreases self.tasks@.len() - t,
        {
            assert(self.tasks@[t as int]@ == self@.tasks[t as int]);
            let mut hit = false;
            let mut i: usize = 0;
            while i < self.events.len() && !hit
                invariant
                    t < self.tasks@.len(),
                    i <= self.events@.len(),
                    self.tasks@[t as int]@ == self@.tasks[t as int],
                    hit ==> self@.has_expendable(self@.tasks[t as int].head.task_id, cutoff),
                    !hit ==> forall|k: int|
                        0 <= k < i ==> !((#[trigger] self@.events[k]).task_id == self@.tasks[t as int].head.task_id
                            && self@.expendable(self@.events[k], cutoff)),
                decreases self.events@.len() - i,
            {
                assert(self.events@[i as int]@ == self@.events[i as int]);
                if text::same(self.events[i].task_id.as_str(), self.tasks[t].head.task_id.as_str()) && self.is_expendable(
                    i,
                    cutoff,
                ) {
                    hit = true;
                }
                i = i + 1;
            }
            if hit {
                n = n + 1;
            }
            t = t + 1;
        }
        n
    }

    fn expendable_span(&self, cutoff: i64) -> (r: (Option<i64>, Option<i64>))
        ensures
            r.0 == self@.oldest_expendable(cutoff, self@.events.len() as int),
            r.1 == self@.newest_expendable(cutoff, self@.events.len() as int),
    {
        let mut oldest: Option<i64> = None;
        let mut newest: Option<i64> = None;
        let mut i: usize = 0;
        while i < self.events.len()
            invariant
                i <= self.events@.len(),
                oldest == self@.oldest_expendable(cutoff, i as int),
                newest == self@.newest_expendable(cutoff, i as int),
            decreases self.events@.len() - i,
        {
            assert(self.events@[i as int]@ == self@.events[i as int]);
            if self.is_expendable(i, cutoff) {
                let ts: i64 = self.events[i].event.ts;
                oldest = match oldest {
                    Some(p) => Some(if p < ts { p } else { ts }),
                    None => Some(ts),
                };
                newest = match newest {
                    Some(p) => Some(if p > ts { p } else { ts }),
                    None => Some(ts),
                };
            }
            i = i + 1;
        }
        (oldest, newest)
    }

    fn push_count(&self, list: &mut Vec<(String, i64)>, cutoff: i64, status: &str)
        ensures
            status_counts(final(list)@) == with_count(
                status_counts(old(list)@),
                status@,
                self@.expendable_count(cutoff, Some(status@), self@.events.len() as int),
            ),
    {
        let n = self.count_expendable(cutoff, Some(status));
        if n > 0 {
            let ghost before = status_counts(list@);
            list.push((text::owned(status), query::clip(n as i128)));
            assert(status_counts(list@) =~= before.push((status@, query::clipped(n as int))));
        }
    }

    /// Counts the events that a retention pass would delete: older than the cutoff, of tasks that have
    /// ended.
    pub fn count_compact_candidates(&self, cutoff_ts: i64) -> (r: Result<CompactDryRun, CoordinatorError>)
        ensures
            r matches Ok(c) && c@ == self@.compactable(cutoff_ts),
    {
        let events = self.count_expendable(cutoff_ts, None);
        let tasks = self.count_expendable_tasks(cutoff_ts);
        let (oldest, newest) = self.expendable_span(cutoff_ts);
        let mut by: Vec<(String, i64)> = Vec::new();
        assert(status_counts(by@) =~= Seq::empty());
        self.push_count(&mut by, cutoff_ts, "cancelled");
        self.push_count(&mut by, cutoff_ts, "completed");
        self.push_count(&mut by, cutoff_ts, "failed");
        self.push_count(&mut by, cutoff_ts, "interrupted");
        Ok(
            CompactDryRun {
                cutoff_ts,
                candidate_events: query::clip(events as i128),
                candidate_tasks: query::clip(tasks as i128),
                oldest_candidate_ts: oldest,
                newest_candidate_ts: newest,
                by_task_status: by,
            },
        )
    }
}

/// Whether an event is older than the cutoff and its task has completed, failed, been cancelled or been
/// interrupted.
pub open spec fn outdated(l: Ledger, e: OwnedEvent, cutoff: i64) -> bool {
    let status = l.head(e.task_id).status;
    e.event.ts < cutoff && l.has(e.task_id) && (status == "completed"@ || status == "failed"@ || status == "cancelled"@
        || status == "interrupted"@)
}

proof fn lemma_outdated_count(l: Ledger, cutoff: i64, status: Option<Text>, n: int)
    requires
        0 <= n <= l.events.len(),
    ensures
        l.expendable_count(cutoff, status, n) == l.events.take(n).filter(
            |e: OwnedEvent| outdated(l, e, cutoff) && (status is None || l.head(e.task_id).status == status->0),
        ).len(),
    decreases n,
{
    reveal(Seq::filter);
    if n == 0 {
        assert(l.events.take(0) =~= Seq::<OwnedEvent>::empty());
    } else {
        lemma_outdated_count(l, cutoff, status, n - 1);
        assert(l.events.take(n).drop_last() =~= l.events.take(n - 1));
        assert(l.events.take(n).last() == l.events[n - 1]);
    }
}

proof fn lemma_outdated_tasks(l: Ledger, cutoff: i64, n: int)
    requires
        0 <= n <= l.tasks.len(),
    ensures
        l.expendable_tasks(cutoff, n) == l.tasks.take(n).filter(
            |t: TaskRec|
                exists|i: int|
                    0 <= i < l.events.len() && (#[trigger] l.events[i]).task_id == t.head.task_id && outdated(
                        l,
                        l.events[i],
                        cutoff,
                    ),
        ).len(),
    decreases n,
{
    reveal(Seq::filter);
    let p = |t: TaskRec|
        exists|i: int|
            0 <= i < l.events.len() && (#[trigger] l.events[i]).task_id == t.head.task_id && outdated(
                l,
                l.events[i],
                cutoff,
            );
    if n == 0 {
        assert(l.tasks.take(0) =~= Seq::<TaskRec>::empty());
    } else {
        lemma_outdated_tasks(l, cutoff, n - 1);
        let t = l.tasks[n - 1];
        assert(l.tasks.take(n).drop_last() =~= l.tasks.take(n - 1));
        assert(l.tasks.take(n).last() == t);
        let id = t.head.task_id;
        if l.has_expendable(id, cutoff) {
            let i = choose|i: int|
                0 <= i < l.events.len() && (#[trigger] l.events[i]).task_id == id && l.expendable(l.events[i], cutoff);
            assert(outdated(l, l.events[i], cutoff));
            assert(p(t));
        }
        if p(t) {
            let i = choose|i: int|
                0 <= i < l.events.len() && (#[trigger] l.events[i]).task_id == id && outdated(l, l.events[i], cutoff);
            assert(l.expendable(l.events[i], cutoff));
        }
    }
}

proof fn lemma_outdated_span(l: Ledger, cutoff: i64, n: int)
    requires
        0 <= n <= l.events.len(),
    ensures
        match l.oldest_expendable(cutoff, n) {
            Some(a) => (exists|i: int|
                0 <= i < n && outdated(l, #[trigger] l.events[i], cutoff) && l.events[i].event.ts == a) && forall|i: int|
                0 <= i < n && outdated(l, #[trigger] l.events[i], cutoff) ==> a <= l.events[i].event.ts,
            None => forall|i: int| 0 <= i < n ==> !outdated(l, #[trigger] l.events[i], cutoff),
        },
        match l.newest_expendable(cutoff, n) {
            Some(b) => (exists|i: int|
                0 <= i < n && outdated(l, #[trigger] l.events[i], cutoff) && l.events[i].event.ts == b) && forall|i: int|
                0 <= i < n && outdated(l, #[trigger] l.events[i], cutoff) ==> l.events[i].event.ts <= b,
            None => forall|i: int| 0 <= i < n ==> !outdated(l, #[trigger] l.events[i], cutoff),
        },
    decreases n,
{
    if n > 0 {
        lemma_outdated_span(l, cutoff, n - 1);
        let e = l.events[n - 1];
        assert(l.expendable(e, cutoff) == outdated(l, e, cutoff));
        let p = l.oldest_expendable(cutoff, n - 1);
        if p is Some {
            let i = choose|i: int|
                0 <= i < n - 1 && outdated(l, #[trigger] l.events[i], cutoff) && l.events[i].event.ts == p->0;
            assert(outdated(l, l.events[i], cutoff));
        }
        let q = l.newest_expendable(cutoff, n - 1);
        if q is Some {
            let i = choose|i: int|
                0 <= i < n - 1 && outdated(l, #[trigger] l.events[i], cutoff) && l.events[i].event.ts == q->0;
            assert(outdated(l, l.events[i], cutoff));
        }
        assert(l.events[n - 1] == e);
    }
}

/// How many events are outdated of tasks with a status.
pub open spec fn outdated_with(l: Ledger, cutoff: i64, word: Text) -> int {
    l.events.filter(|e: OwnedEvent| outdated(l, e, cutoff) && l.head(e.task_id).status == word).len() as int
}

/// A retention report counts the outdated events and the tasks that have one, tells the first and the last
/// time among them, and breaks the events down by the status of their task, with no entry for a status
/// without any.
pub proof fn law_retention_goes_by_the_columns(l: Ledger, cutoff: i64)
    requires
        l.events.len() <= i64::MAX,
        l.tasks.len() <= i64::MAX,
    ensures
        ({
            let c = l.compactable(cutoff);
            &&& c.cutoff_ts == cutoff
            &&& c.candidate_events == l.events.filter(|e: OwnedEvent| outdated(l, e, cutoff)).len()
            &&& c.candidate_tasks == l.tasks.filter(
                |t: TaskRec|
                    exists|i: int|
                        0 <= i < l.events.len() && (#[trigger] l.events[i]).task_id == t.head.task_id && outdated(
                            l,
                            l.events[i],
                            cutoff,
                        ),
            ).len()
            &&& match c.oldest_candidate_ts {
                Some(a) => (exists|i: int|
                    0 <= i < l.events.len() && outdated(l, #[trigger] l.events[i], cutoff) && l.events[i].event.ts == a)
                    && forall|i: int|
                    0 <= i < l.events.len() && outdated(l, #[trigger] l.events[i], cutoff) ==> a <= l.events[i].event.ts,
                None => c.candidate_events == 0,
            }
            &&& match c.newest_candidate_ts {
                Some(b) => (exists|i: int|
                    0 <= i < l.events.len() && outdated(l, #[trigger] l.events[i], cutoff) && l.events[i].event.ts == b)
                    && forall|i: int|
                    0 <= i < l.events.len() && outdated(l, #[trigger] l.events[i], cutoff) ==> l.events[i].event.ts <= b,
                None => c.candidate_events == 0,
            }
            &&& forall|k: int|
                0 <= k < c.by_task_status.len() ==> (#[trigger] c.by_task_status[k]).1 > 0 && c.by_task_status[k].1
                    == outdated_with(l, cutoff, c.by_task_status[k].0)
            &&& forall|w: Text|
                (w == "completed"@ || w == "failed"@ || w == "cancelled"@ || w == "interrupted"@)
                    && #[trigger] outdated_with(l, cutoff, w) > 0 ==> c.by_task_status.contains(
                    (w, outdated_with(l, cutoff, w) as i64),
                )
        }),
{
    let n = l.events.len() as int;
    let c = l.compactable(cutoff);
    assert(l.events.take(n) =~= l.events);
    assert(l.tasks.take(l.tasks.len() as int) =~= l.tasks);
    lemma_outdated_count(l, cutoff, None, n);
    let none: Option<Text> = None;
    assert((|e: OwnedEvent| outdated(l, e, cutoff) && (none is None || l.head(e.task_id).status == none->0)) =~= (
    |e: OwnedEvent| outdated(l, e, cutoff)));
    l.events.lemma_filter_len(|e: OwnedEvent| outdated(l, e, cutoff));
    lemma_outdated_tasks(l, cutoff, l.tasks.len() as int);
    l.tasks.lemma_filter_len(
        |t: TaskRec|
            exists|i: int|
                0 <= i < l.events.len() && (#[trigger] l.events[i]).task_id == t.head.task_id && outdated(
                    l,
                    l.events[i],
                    cutoff,
                ),
    );
    lemma_outdated_span(l, cutoff, n);
    if l.oldest_expendable(cutoff, n) is None || l.newest_expendable(cutoff, n) is None {
        let p = |e: OwnedEvent| outdated(l, e, cutoff);
        l.events.lemma_all_neg_filter_empty(p);
    }
    lemma_outdated_word(l, cutoff, "cancelled"@);
    lemma_outdated_word(l, cutoff, "completed"@);
    lemma_outdated_word(l, cutoff, "failed"@);
    lemma_outdated_word(l, cutoff, "interrupted"@);
    let a = with_count(Seq::empty(), "cancelled"@, outdated_with(l, cutoff, "cancelled"@));
    let b = with_count(a, "completed"@, outdated_with(l, cutoff, "completed"@));
    let d = with_count(b, "failed"@, outdated_with(l, cutoff, "failed"@));
    assert(c.by_task_status == with_count(d, "interrupted"@, outdated_with(l, cutoff, "interrupted"@)));
    lemma_with_count(Seq::empty(), "cancelled"@, outdated_with(l, cutoff, "cancelled"@));
    lemma_with_count(a, "completed"@, outdated_with(l, cutoff, "completed"@));
    lemma_with_count(b, "failed"@, outdated_with(l, cutoff, "failed"@));
    lemma_with_count(d, "interrupted"@, outdated_with(l, cutoff, "interrupted"@));
    assert forall|k: int| 0 <= k < c.by_task_status.len() implies (#[trigger] c.by_task_status[k]).1 > 0
        && c.by_task_status[k].1 == outdated_with(l, cutoff, c.by_task_status[k].0) by {
        assert(c.by_task_status.contains(c.by_task_status[k]));
    }
}

proof fn lemma_outdated_word(l: Ledger, cutoff: i64, word: Text)
    requires
        l.events.len() <= i64::MAX,
    ensures
        l.expendable_count(cutoff, Some(word), l.events.len() as int) == outdated_with(l, cutoff, word),
        0 <= outdated_with(l, cutoff, word) <= i64::MAX,
{
    let n = l.events.len() as int;
    let some = Some(word);
    assert(l.events.take(n) =~= l.events);
    lemma_outdated_count(l, cutoff, some, n);
    assert((|e: OwnedEvent| outdated(l, e, cutoff) && (some is None || l.head(e.task_id).status == some->0)) =~= (
    |e: OwnedEvent| outdated(l, e, cutoff) && l.head(e.task_id).status == word));
    l.events.lemma_filter_len(|e: OwnedEvent| outdated(l, e, cutoff) && l.head(e.task_id).status == word);
}

proof fn lemma_with_count(list: Seq<(Text, i64)>, word: Text, n: int)
    requires
        0 <= n <= i64::MAX,
    ensures
        forall|x: (Text, i64)| #[trigger]
            with_count(list, word, n).contains(x) <==> list.contains(x) || (n > 0 && x == (word, n as i64)),
{
    let new = with_count(list, word, n);
    assert forall|x: (Text, i64)| #[trigger] new.contains(x) <==> list.contains(x) || (n > 0 && x == (word, n as i64)) by {
        if list.contains(x) {
            let i = choose|i: int| 0 <= i < list.len() && list[i] == x;
            assert(new[i] == x);
        }
        if n > 0 {
            assert(new[list.len() as int] == (word, n as i64));
        }
    }
}

} // verus!
