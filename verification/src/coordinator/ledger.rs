//! The ledger: its tables, what holds of them at all times, and the elementary changes from which
//! every operation is made.
use vstd::prelude::*;
use crate::coordinator::model::{
    self, AttemptRow, CoordinatorError, EdgeRec, EventRec, EventRow, OwnedAttempt, OwnedEvent, OwnedTodo, TaskEdge, TaskEvent, TaskHead,
    TaskHeader, TaskRec, TaskRow, TodoRow,
};
use crate::text::{self, Text};

verus! {

/// The task ledger. The tables are kept in the order in which their rows were made; the `seq`
/// numbers are the last ids handed out.
#[derive(Debug, Clone)]
pub struct TaskStore {
    pub tasks: Vec<TaskRow>,
    pub events: Vec<EventRow>,
    pub attempts: Vec<AttemptRow>,
    pub edges: Vec<TaskEdge>,
    pub todos: Vec<TodoRow>,
    pub event_seq: i64,
    pub attempt_seq: i64,
    pub edge_seq: i64,
    pub todo_seq: i64,
    pub max_list: usize,
}

/// The mathematical model of [`TaskStore`].
pub struct Ledger {
    pub tasks: Seq<TaskRec>,
    pub events: Seq<OwnedEvent>,
    pub attempts: Seq<OwnedAttempt>,
    pub edges: Seq<EdgeRec>,
    pub todos: Seq<OwnedTodo>,
    pub event_seq: int,
    pub attempt_seq: int,
    pub edge_seq: int,
    pub todo_seq: int,
    pub max_list: usize,
}

impl View for TaskStore {
    type V = Ledger;

    open spec fn view(&self) -> Ledger {
        Ledger {
            tasks: model::views(self.tasks@),
            events: model::views(self.events@),
            attempts: model::views(self.attempts@),
            edges: model::views(self.edges@),
            todos: model::views(self.todos@),
            event_seq: self.event_seq as int,
            attempt_seq: self.attempt_seq as int,
            edge_seq: self.edge_seq as int,
            todo_seq: self.todo_seq as int,
            max_list: self.max_list,
        }
    }
}

/// The place of the first task with an id at or after `from`; the length where there is none.
pub open spec fn find_from(tasks: Seq<TaskRec>, id: Text, from: int) -> int
    decreases tasks.len() - from,
{
    if from < 0 || from >= tasks.len() {
        tasks.len() as int
    } else if tasks[from].head.task_id == id {
        from
    } else {
        find_from(tasks, id, from + 1)
    }
}

/// The place of the first attempt with an id at or after `from`; the length where there is none.
pub open spec fn attempt_from(attempts: Seq<OwnedAttempt>, aid: i64, from: int) -> int
    decreases attempts.len() - from,
{
    if from < 0 || from >= attempts.len() {
        attempts.len() as int
    } else if attempts[from].attempt.attempt_id == aid {
        from
    } else {
        attempt_from(attempts, aid, from + 1)
    }
}

/// How many of the first `n` attempts belong to a task.
pub open spec fn attempts_before(attempts: Seq<OwnedAttempt>, id: Text, n: int) -> int
    decreases n,
{
    if n <= 0 {
        0
    } else {
        attempts_before(attempts, id, n - 1) + if attempts[n - 1].task_id == id { 1int } else { 0int }
    }
}

impl Ledger {
    /// The ledger without rows.
    pub open spec fn blank(max_list: usize) -> Ledger {
        Ledger {
            tasks: Seq::empty(),
            events: Seq::empty(),
            attempts: Seq::empty(),
            edges: Seq::empty(),
            todos: Seq::empty(),
            event_seq: 0,
            attempt_seq: 0,
            edge_seq: 0,
            todo_seq: 0,
            max_list,
        }
    }

    pub open spec fn find(self, id: Text) -> int {
        find_from(self.tasks, id, 0)
    }

    /// Whether there is a task with this id.
    pub open spec fn has(self, id: Text) -> bool {
        self.find(id) < self.tasks.len()
    }

    /// The row of a task.
    pub open spec fn task(self, id: Text) -> TaskRec {
        self.tasks[self.find(id)]
    }

    pub open spec fn head(self, id: Text) -> TaskHeader {
        self.task(id).head
    }

    pub open spec fn find_attempt(self, aid: i64) -> int {
        attempt_from(self.attempts, aid, 0)
    }

    pub open spec fn has_attempt(self, aid: i64) -> bool {
        self.find_attempt(aid) < self.attempts.len()
    }

    pub open spec fn attempt(self, aid: i64) -> OwnedAttempt {
        self.attempts[self.find_attempt(aid)]
    }

    /// The ledger with another row for a task.
    pub open spec fn put(self, id: Text, rec: TaskRec) -> Ledger {
        Ledger { tasks: self.tasks.update(self.find(id), rec), ..self }
    }

    /// The ledger with other columns for a task.
    pub open spec fn with_head(self, id: Text, head: TaskHeader) -> Ledger {
        self.put(id, TaskRec { head, ..self.task(id) })
    }

    /// The ledger with one more event.
    pub open spec fn with_event(self, id: Text, event: EventRec) -> Ledger {
        Ledger {
            events: self.events.push(OwnedEvent { task_id: id, event }),
            event_seq: self.event_seq + 1,
            ..self
        }
    }

    /// The ledger with one more structured event.
    pub open spec fn log(
        self,
        id: Text,
        ts: i64,
        event_type: Text,
        payload: Text,
        attempt_id: Option<i64>,
        trace_id: Option<Text>,
        payload_json: Text,
    ) -> Ledger {
        self.with_event(
            id,
            EventRec {
                event_id: (self.event_seq + 1) as i64,
                ts,
                event_type,
                payload,
                schema_version: 1,
                attempt_id,
                trace_id,
                payload_json: Some(payload_json),
            },
        )
    }

    /// The ledger with one more free-form event.
    pub open spec fn note_event(self, id: Text, ts: i64, event_type: Text, payload: Text) -> Ledger {
        self.with_event(
            id,
            EventRec {
                event_id: (self.event_seq + 1) as i64,
                ts,
                event_type,
                payload,
                schema_version: 0,
                attempt_id: None,
                trace_id: None,
                payload_json: None,
            },
        )
    }

    /// The ledger with one more edge, whose id is the next one.
    pub open spec fn with_edge(self, edge: EdgeRec) -> Ledger {
        Ledger {
            edges: self.edges.push(EdgeRec { edge_id: (self.edge_seq + 1) as i64, ..edge }),
            edge_seq: self.edge_seq + 1,
            ..self
        }
    }

    /// The ledger with another row for an attempt.
    pub open spec fn put_attempt(self, aid: i64, rec: OwnedAttempt) -> Ledger {
        Ledger { attempts: self.attempts.update(self.find_attempt(aid), rec), ..self }
    }

    /// The attempts that belong to a task, by number.
    pub open spec fn attempt_total(self, id: Text) -> int {
        attempts_before(self.attempts, id, self.attempts.len() as int)
    }

    /// Task ids are unique.
    pub open spec fn tasks_keyed(self) -> bool {
        forall|i: int, j: int|
            0 <= i < j < self.tasks.len() ==> (#[trigger] self.tasks[i]).head.task_id != (#[trigger] self.tasks[j]).head.task_id
    }

    /// Event ids are positive, increase and are at most the last one handed out; every event belongs
    /// to a task.
    pub open spec fn events_keyed(self) -> bool {
        &&& self.event_seq >= 0
        &&& forall|i: int|
            0 <= i < self.events.len() ==> 1 <= (#[trigger] self.events[i]).event.event_id <= self.event_seq && self.has(
                self.events[i].task_id,
            )
        &&& forall|i: int, j: int|
            0 <= i < j < self.events.len() ==> (#[trigger] self.events[i]).event.event_id < (
            #[trigger] self.events[j]).event.event_id
    }

    /// The same of edges.
    pub open spec fn edges_keyed(self) -> bool {
        &&& self.edge_seq >= 0
        &&& forall|i: int|
            0 <= i < self.edges.len() ==> 1 <= (#[trigger] self.edges[i]).edge_id <= self.edge_seq && self.has(
                self.edges[i].task_id,
            )
        &&& forall|i: int, j: int|
            0 <= i < j < self.edges.len() ==> (#[trigger] self.edges[i]).edge_id < (#[trigger] self.edges[j]).edge_id
    }

    /// The same of todos.
    pub open spec fn todos_keyed(self) -> bool {
        &&& self.todo_seq >= 0
        &&& forall|i: int|
            0 <= i < self.todos.len() ==> 1 <= (#[trigger] self.todos[i]).item.todo_id <= self.todo_seq && self.has(
                self.todos[i].task_id,
            )
        &&& forall|i: int, j: int|
            0 <= i < j < self.todos.len() ==> (#[trigger] self.todos[i]).item.todo_id < (
            #[trigger] self.todos[j]).item.todo_id
    }

    /// The same of attempts; the attempts of a task are numbered from one in the order in which they
    /// were opened, and only the task's current attempt can be open.
    pub open spec fn attempts_keyed(self) -> bool {
        &&& self.attempt_seq >= 0
        &&& forall|i: int|
            #![trigger self.attempts[i]]
            0 <= i < self.attempts.len() ==> {
                let a = self.attempts[i];
                &&& 1 <= a.attempt.attempt_id <= self.attempt_seq
                &&& self.has(a.task_id)
                &&& a.attempt.attempt_num == 1 + attempts_before(self.attempts, a.task_id, i)
                &&& a.attempt.finished_at is None ==> self.head(a.task_id).current_attempt_id == Some(
                    a.attempt.attempt_id,
                )
            }
        &&& forall|i: int, j: int|
            0 <= i < j < self.attempts.len() ==> (#[trigger] self.attempts[i]).attempt.attempt_id < (
            #[trigger] self.attempts[j]).attempt.attempt_id
    }

    /// A task counts its attempts and points at the last one; its request counters never run ahead of
    /// the chronicle.
    pub open spec fn task_sound(self, t: TaskRec) -> bool {
        let h = t.head;
        &&& h.attempt_count == self.attempt_total(h.task_id)
        &&& h.attempt_count <= self.attempt_seq
        &&& 0 <= h.pause_generation <= self.event_seq
        &&& 0 <= h.freeze_generation <= self.event_seq
        &&& match h.current_attempt_id {
            Some(aid) => self.has_attempt(aid) && self.attempt(aid).task_id == h.task_id && self.attempt(
                aid,
            ).attempt.attempt_num == h.attempt_count,
            None => h.attempt_count == 0,
        }
    }

    pub open spec fn tasks_sound(self) -> bool {
        forall|i: int| 0 <= i < self.tasks.len() ==> self.task_sound(#[trigger] self.tasks[i])
    }

    /// What holds of the ledger at all times.
    pub open spec fn wf(self) -> bool {
        &&& self.max_list >= 1
        &&& self.tasks_keyed()
        &&& self.events_keyed()
        &&& self.edges_keyed()
        &&& self.todos_keyed()
        &&& self.attempts_keyed()
        &&& self.tasks_sound()
    }

    /// Whether the ids that one operation may hand out still fit.
    pub open spec fn roomy(self) -> bool {
        &&& self.event_seq + 4 * (self.tasks.len() + self.attempts.len()) + 8 <= i64::MAX
        &&& self.attempt_seq < i64::MAX
        &&& self.edge_seq < i64::MAX
    }
}

/// A search for a task gives its place.
pub proof fn lemma_find_from(tasks: Seq<TaskRec>, id: Text, from: int)
    requires
        0 <= from <= tasks.len(),
    ensures
        from <= find_from(tasks, id, from) <= tasks.len(),
        find_from(tasks, id, from) < tasks.len() ==> tasks[find_from(tasks, id, from)].head.task_id == id,
        forall|k: int| from <= k < find_from(tasks, id, from) ==> (#[trigger] tasks[k]).head.task_id != id,
    decreases tasks.len() - from,
{
    if from < tasks.len() && tasks[from].head.task_id != id {
        lemma_find_from(tasks, id, from + 1);
    }
}

pub proof fn lemma_find(l: Ledger, id: Text)
    ensures
        0 <= l.find(id) <= l.tasks.len(),
        l.has(id) ==> l.tasks[l.find(id)].head.task_id == id,
        forall|k: int| 0 <= k < l.find(id) ==> (#[trigger] l.tasks[k]).head.task_id != id,
{
    lemma_find_from(l.tasks, id, 0);
}

/// Where ids are unique, a search gives the only place that holds the id.
pub proof fn lemma_find_is(l: Ledger, i: int)
    requires
        l.tasks_keyed(),
        0 <= i < l.tasks.len(),
    ensures
        l.find(l.tasks[i].head.task_id) == i,
        l.has(l.tasks[i].head.task_id),
        l.task(l.tasks[i].head.task_id) == l.tasks[i],
{
    let id = l.tasks[i].head.task_id;
    lemma_find(l, id);
    let k = l.find(id);
    if k < i {
        assert(l.tasks[k].head.task_id != l.tasks[i].head.task_id);
    } else if k > i {
        assert(l.tasks[i].head.task_id != id);
    }
}

/// A search depends on the ids alone.
pub proof fn lemma_find_same_ids(a: Seq<TaskRec>, b: Seq<TaskRec>, id: Text, from: int)
    requires
        a.len() == b.len(),
        forall|k: int| 0 <= k < a.len() ==> (#[trigger] a[k]).head.task_id == b[k].head.task_id,
        0 <= from <= a.len(),
    ensures
        find_from(a, id, from) == find_from(b, id, from),
    decreases a.len() - from,
{
    if from < a.len() {
        assert(a[from].head.task_id == b[from].head.task_id);
        lemma_find_same_ids(a, b, id, from + 1);
    }
}

pub proof fn lemma_attempt_from(attempts: Seq<OwnedAttempt>, aid: i64, from: int)
    requires
        0 <= from <= attempts.len(),
    ensures
        from <= attempt_from(attempts, aid, from) <= attempts.len(),
        attempt_from(attempts, aid, from) < attempts.len() ==> attempts[attempt_from(
            attempts,
            aid,
            from,
        )].attempt.attempt_id == aid,
        forall|k: int|
            from <= k < attempt_from(attempts, aid, from) ==> (#[trigger] attempts[k]).attempt.attempt_id != aid,
    decreases attempts.len() - from,
{
    if from < attempts.len() && attempts[from].attempt.attempt_id != aid {
        lemma_attempt_from(attempts, aid, from + 1);
    }
}

/// Where attempt ids increase, a search gives the only place that holds the id.
pub proof fn lemma_attempt_is(l: Ledger, i: int)
    requires
        l.attempts_keyed(),
        0 <= i < l.attempts.len(),
    ensures
        l.find_attempt(l.attempts[i].attempt.attempt_id) == i,
{
    let aid = l.attempts[i].attempt.attempt_id;
    lemma_attempt_from(l.attempts, aid, 0);
    let k = l.find_attempt(aid);
    if k < i {
        assert(l.attempts[k].attempt.attempt_id < l.attempts[i].attempt.attempt_id);
    } else if k > i {
        assert(l.attempts[i].attempt.attempt_id != aid);
    }
}

/// A search for an attempt depends on the attempt ids alone.
pub proof fn lemma_attempt_same_ids(a: Seq<OwnedAttempt>, b: Seq<OwnedAttempt>, aid: i64, from: int)
    requires
        a.len() == b.len(),
        forall|k: int| 0 <= k < a.len() ==> (#[trigger] a[k]).attempt.attempt_id == b[k].attempt.attempt_id,
        0 <= from <= a.len(),
    ensures
        attempt_from(a, aid, from) == attempt_from(b, aid, from),
    decreases a.len() - from,
{
    if from < a.len() {
        assert(a[from].attempt.attempt_id == b[from].attempt.attempt_id);
        lemma_attempt_same_ids(a, b, aid, from + 1);
    }
}

/// Counting the attempts of a task depends on the owners of the attempts counted alone.
pub proof fn lemma_count_same_owners(a: Seq<OwnedAttempt>, b: Seq<OwnedAttempt>, id: Text, n: int)
    requires
        n <= a.len(),
        n <= b.len(),
        forall|k: int| 0 <= k < n ==> (#[trigger] a[k]).task_id == b[k].task_id,
    ensures
        attempts_before(a, id, n) == attempts_before(b, id, n),
    decreases n,
{
    if n > 0 {
        assert(a[n - 1].task_id == b[n - 1].task_id);
        lemma_count_same_owners(a, b, id, n - 1);
    }
}

pub proof fn lemma_count_bounds(a: Seq<OwnedAttempt>, id: Text, n: int)
    requires
        0 <= n,
    ensures
        0 <= attempts_before(a, id, n) <= n,
    decreases n,
{
    if n > 0 {
        lemma_count_bounds(a, id, n - 1);
    }
}

/// Replacing the columns of a task by others with the same id, attempts and sound counters keeps the
/// ledger well-formed.
pub proof fn lemma_put_wf(l: Ledger, id: Text, rec: TaskRec)
    requires
        l.wf(),
        l.has(id),
        rec.head.task_id == id,
        rec.head.attempt_count == l.head(id).attempt_count,
        rec.head.current_attempt_id == l.head(id).current_attempt_id,
        0 <= rec.head.pause_generation <= l.event_seq,
        0 <= rec.head.freeze_generation <= l.event_seq,
    ensures
        l.put(id, rec).wf(),
        l.put(id, rec).has(id),
        l.put(id, rec).task(id) == rec,
        forall|x: Text| #[trigger] l.put(id, rec).find(x) == l.find(x),
{
    let m = l.put(id, rec);
    lemma_find(l, id);
    let at = l.find(id);
    assert forall|x: Text| #[trigger] m.find(x) == l.find(x) by {
        lemma_find_same_ids(l.tasks, m.tasks, x, 0);
    }
    assert(m.tasks_keyed()) by {
        assert forall|i: int, j: int| 0 <= i < j < m.tasks.len() implies (#[trigger] m.tasks[i]).head.task_id != (
        #[trigger] m.tasks[j]).head.task_id by {
            assert(l.tasks[i].head.task_id != l.tasks[j].head.task_id);
        }
    }
    assert(m.events_keyed()) by {
        assert forall|i: int| 0 <= i < m.events.len() implies 1 <= (#[trigger] m.events[i]).event.event_id <= m.event_seq
            && m.has(m.events[i].task_id) by {
            assert(l.has(l.events[i].task_id));
        }
    }
    assert(m.edges_keyed()) by {
        assert forall|i: int| 0 <= i < m.edges.len() implies 1 <= (#[trigger] m.edges[i]).edge_id <= m.edge_seq && m.has(
            m.edges[i].task_id,
        ) by {
            assert(l.has(l.edges[i].task_id));
        }
    }
    assert(m.todos_keyed()) by {
        assert forall|i: int| 0 <= i < m.todos.len() implies 1 <= (#[trigger] m.todos[i]).item.todo_id <= m.todo_seq
            && m.has(m.todos[i].task_id) by {
            assert(l.has(l.todos[i].task_id));
        }
    }
    assert(m.attempts_keyed()) by {
        assert forall|i: int|
            #![trigger m.attempts[i]]
            0 <= i < m.attempts.len() implies {
            let a = m.attempts[i];
            &&& 1 <= a.attempt.attempt_id <= m.attempt_seq
            &&& m.has(a.task_id)
            &&& a.attempt.attempt_num == 1 + attempts_before(m.attempts, a.task_id, i)
            &&& a.attempt.finished_at is None ==> m.head(a.task_id).current_attempt_id == Some(a.attempt.attempt_id)
        } by {
            let a = l.attempts[i];
            assert(l.has(a.task_id));
            lemma_find(l, a.task_id);
        }
    }
    assert(m.tasks_sound()) by {
        assert forall|i: int| 0 <= i < m.tasks.len() implies m.task_sound(#[trigger] m.tasks[i]) by {
            assert(l.task_sound(l.tasks[i]));
        }
    }
}

/// Adding an event of an existing task keeps the ledger well-formed.
pub proof fn lemma_event_wf(l: Ledger, id: Text, event: EventRec)
    requires
        l.wf(),
        l.has(id),
        l.event_seq < i64::MAX,
        event.event_id == l.event_seq + 1,
    ensures
        l.with_event(id, event).wf(),
        forall|x: Text| #[trigger] l.with_event(id, event).find(x) == l.find(x),
{
    let m = l.with_event(id, event);
    assert forall|x: Text| #[trigger] m.find(x) == l.find(x) by {}
    assert(m.events_keyed()) by {
        assert forall|i: int| 0 <= i < m.events.len() implies 1 <= (#[trigger] m.events[i]).event.event_id <= m.event_seq
            && m.has(m.events[i].task_id) by {
            if i < l.events.len() {
                assert(m.events[i] == l.events[i]);
                assert(l.has(l.events[i].task_id));
            }
        }
        assert forall|i: int, j: int| 0 <= i < j < m.events.len() implies (#[trigger] m.events[i]).event.event_id < (
        #[trigger] m.events[j]).event.event_id by {
            assert(m.events[i] == l.events[i]);
            if j < l.events.len() {
                assert(m.events[j] == l.events[j]);
            }
        }
    }
    assert(m.attempts_keyed()) by {
        assert forall|i: int|
            #![trigger m.attempts[i]]
            0 <= i < m.attempts.len() implies {
            let a = m.attempts[i];
            &&& 1 <= a.attempt.attempt_id <= m.attempt_seq
            &&& m.has(a.task_id)
            &&& a.attempt.attempt_num == 1 + attempts_before(m.attempts, a.task_id, i)
            &&& a.attempt.finished_at is None ==> m.head(a.task_id).current_attempt_id == Some(a.attempt.attempt_id)
        } by {
            let a = l.attempts[i];
            assert(l.has(a.task_id));
        }
    }
    assert(m.tasks_sound()) by {
        assert forall|i: int| 0 <= i < m.tasks.len() implies m.task_sound(#[trigger] m.tasks[i]) by {
            assert(l.task_sound(l.tasks[i]));
        }
    }
}

/// Adding an edge of an existing task keeps the ledger well-formed.
pub proof fn lemma_edge_wf(l: Ledger, edge: EdgeRec)
    requires
        l.wf(),
        l.has(edge.task_id),
        l.edge_seq < i64::MAX,
    ensures
        l.with_edge(edge).wf(),
        forall|x: Text| #[trigger] l.with_edge(edge).find(x) == l.find(x),
{
    let m = l.with_edge(edge);
    assert forall|x: Text| #[trigger] m.find(x) == l.find(x) by {}
    assert(m.edges_keyed()) by {
        assert forall|i: int| 0 <= i < m.edges.len() implies 1 <= (#[trigger] m.edges[i]).edge_id <= m.edge_seq && m.has(
            m.edges[i].task_id,
        ) by {
            if i < l.edges.len() {
                assert(m.edges[i] == l.edges[i]);
                assert(l.has(l.edges[i].task_id));
            }
        }
        assert forall|i: int, j: int| 0 <= i < j < m.edges.len() implies (#[trigger] m.edges[i]).edge_id < (
        #[trigger] m.edges[j]).edge_id by {
            assert(m.edges[i] == l.edges[i]);
            if j < l.edges.len() {
                assert(m.edges[j] == l.edges[j]);
            }
        }
    }
    assert(m.attempts_keyed()) by {
        assert forall|i: int|
            #![trigger m.attempts[i]]
            0 <= i < m.attempts.len() implies {
            let a = m.attempts[i];
            &&& 1 <= a.attempt.attempt_id <= m.attempt_seq
            &&& m.has(a.task_id)
            &&& a.attempt.attempt_num == 1 + attempts_before(m.attempts, a.task_id, i)
            &&& a.attempt.finished_at is None ==> m.head(a.task_id).current_attempt_id == Some(a.attempt.attempt_id)
        } by {
            let a = l.attempts[i];
            assert(l.has(a.task_id));
        }
    }
    assert(m.tasks_sound()) by {
        assert forall|i: int| 0 <= i < m.tasks.len() implies m.task_sound(#[trigger] m.tasks[i]) by {
            assert(l.task_sound(l.tasks[i]));
        }
    }
}

/// Changing an attempt without reopening it keeps the ledger well-formed.
pub proof fn lemma_attempt_wf(l: Ledger, aid: i64, rec: OwnedAttempt)
    requires
        l.wf(),
        l.has_attempt(aid),
        rec.task_id == l.attempt(aid).task_id,
        rec.attempt.attempt_id == l.attempt(aid).attempt.attempt_id,
        rec.attempt.attempt_num == l.attempt(aid).attempt.attempt_num,
        rec.attempt.finished_at is None ==> l.attempt(aid).attempt.finished_at is None,
    ensures
        l.put_attempt(aid, rec).wf(),
        forall|x: Text| #[trigger] l.put_attempt(aid, rec).find(x) == l.find(x),
        forall|x: i64| #[trigger] l.put_attempt(aid, rec).find_attempt(x) == l.find_attempt(x),
        l.put_attempt(aid, rec).attempt(aid) == rec,
{
    let m = l.put_attempt(aid, rec);
    lemma_attempt_from(l.attempts, aid, 0);
    assert forall|x: Text| #[trigger] m.find(x) == l.find(x) by {}
    assert forall|x: i64| #[trigger] m.find_attempt(x) == l.find_attempt(x) by {
        lemma_attempt_same_ids(l.attempts, m.attempts, x, 0);
    }
    assert forall|x: Text, n: int| n <= l.attempts.len() implies #[trigger] attempts_before(m.attempts, x, n)
        == attempts_before(l.attempts, x, n) by {
        lemma_count_same_owners(m.attempts, l.attempts, x, n);
    }
    assert(m.attempts_keyed()) by {
        assert forall|i: int|
            #![trigger m.attempts[i]]
            0 <= i < m.attempts.len() implies {
            let a = m.attempts[i];
            &&& 1 <= a.attempt.attempt_id <= m.attempt_seq
            &&& m.has(a.task_id)
            &&& a.attempt.attempt_num == 1 + attempts_before(m.attempts, a.task_id, i)
            &&& a.attempt.finished_at is None ==> m.head(a.task_id).current_attempt_id == Some(a.attempt.attempt_id)
        } by {
            let a = l.attempts[i];
            assert(l.has(a.task_id));
        }
        assert forall|i: int, j: int| 0 <= i < j < m.attempts.len() implies (
        #[trigger] m.attempts[i]).attempt.attempt_id < (#[trigger] m.attempts[j]).attempt.attempt_id by {
            assert(l.attempts[i].attempt.attempt_id < l.attempts[j].attempt.attempt_id);
        }
    }
    assert(m.tasks_sound()) by {
        assert forall|i: int| 0 <= i < m.tasks.len() implies m.task_sound(#[trigger] m.tasks[i]) by {
            assert(l.task_sound(l.tasks[i]));
            let h = l.tasks[i].head;
            lemma_count_same_owners(m.attempts, l.attempts, h.task_id, l.attempts.len() as int);
            if h.current_attempt_id is Some {
                lemma_attempt_from(l.attempts, h.current_attempt_id->0, 0);
            }
        }
    }
}

impl Ledger {
    /// The ledger in which a task has one more attempt, which is now its current one.
    pub open spec fn with_attempt(self, id: Text, rec: OwnedAttempt) -> Ledger {
        let h = self.head(id);
        Ledger {
            attempts: self.attempts.push(rec),
            attempt_seq: self.attempt_seq + 1,
            ..self.with_head(
                id,
                TaskHeader {
                    attempt_count: rec.attempt.attempt_num,
                    current_attempt_id: Some(rec.attempt.attempt_id),
                    ..h
                },
            )
        }
    }

    /// The ledger with one more task.
    pub open spec fn with_task(self, rec: TaskRec) -> Ledger {
        Ledger { tasks: self.tasks.push(rec), ..self }
    }
}

/// Opening an attempt while no attempt of the task is open keeps the ledger well-formed.
pub proof fn lemma_open_wf(l: Ledger, id: Text, rec: OwnedAttempt)
    requires
        l.wf(),
        l.has(id),
        l.attempt_seq < i64::MAX,
        rec.task_id == id,
        rec.attempt.attempt_id == l.attempt_seq + 1,
        rec.attempt.attempt_num == l.head(id).attempt_count + 1,
        l.head(id).current_attempt_id matches Some(aid) ==> l.attempt(aid).attempt.finished_at is Some,
    ensures
        l.with_attempt(id, rec).wf(),
        forall|x: Text| #[trigger] l.with_attempt(id, rec).find(x) == l.find(x),
        l.with_attempt(id, rec).attempt(rec.attempt.attempt_id) == rec,
        l.with_attempt(id, rec).has_attempt(rec.attempt.attempt_id),
{
    let m = l.with_attempt(id, rec);
    let new_id = rec.attempt.attempt_id;
    let at = l.find(id);
    lemma_find(l, id);
    assert(m.tasks.len() == l.tasks.len());
    assert forall|x: Text| #[trigger] m.find(x) == l.find(x) by {
        lemma_find_same_ids(l.tasks, m.tasks, x, 0);
    }
    assert forall|x: Text, n: int| n <= l.attempts.len() implies #[trigger] attempts_before(m.attempts, x, n)
        == attempts_before(l.attempts, x, n) by {
        lemma_count_same_owners(m.attempts, l.attempts, x, n);
    }
    assert(m.tasks_keyed()) by {
        assert forall|i: int, j: int| 0 <= i < j < m.tasks.len() implies (#[trigger] m.tasks[i]).head.task_id != (
        #[trigger] m.tasks[j]).head.task_id by {
            assert(l.tasks[i].head.task_id != l.tasks[j].head.task_id);
        }
    }
    assert(m.events_keyed()) by {
        assert forall|i: int| 0 <= i < m.events.len() implies 1 <= (#[trigger] m.events[i]).event.event_id <= m.event_seq
            && m.has(m.events[i].task_id) by {
            assert(l.has(l.events[i].task_id));
        }
    }
    assert(m.edges_keyed()) by {
        assert forall|i: int| 0 <= i < m.edges.len() implies 1 <= (#[trigger] m.edges[i]).edge_id <= m.edge_seq && m.has(
            m.edges[i].task_id,
        ) by {
            assert(l.has(l.edges[i].task_id));
        }
    }
    assert(m.todos_keyed()) by {
        assert forall|i: int| 0 <= i < m.todos.len() implies 1 <= (#[trigger] m.todos[i]).item.todo_id <= m.todo_seq
            && m.has(m.todos[i].task_id) by {
            assert(l.has(l.todos[i].task_id));
        }
    }
    assert(l.task_sound(l.tasks[at]));
    assert(m.attempts_keyed()) by {
        assert forall|i: int|
            #![trigger m.attempts[i]]
            0 <= i < m.attempts.len() implies {
            let a = m.attempts[i];
            &&& 1 <= a.attempt.attempt_id <= m.attempt_seq
            &&& m.has(a.task_id)
            &&& a.attempt.attempt_num == 1 + attempts_before(m.attempts, a.task_id, i)
            &&& a.attempt.finished_at is None ==> m.head(a.task_id).current_attempt_id == Some(a.attempt.attempt_id)
        } by {
            if i < l.attempts.len() {
                let a = l.attempts[i];
                assert(m.attempts[i] == a);
                assert(l.has(a.task_id));
                lemma_find(l, a.task_id);
                if a.task_id == id && a.attempt.finished_at is None {
                    assert(l.head(id).current_attempt_id == Some(a.attempt.attempt_id));
                    lemma_attempt_is(l, i);
                    assert(false);
                }
            } else {
                assert(m.attempts[i] == rec);
                assert(l.head(id).attempt_count == l.attempt_total(id));
            }
        }
        assert forall|i: int, j: int| 0 <= i < j < m.attempts.len() implies (
        #[trigger] m.attempts[i]).attempt.attempt_id < (#[trigger] m.attempts[j]).attempt.attempt_id by {
            assert(m.attempts[i] == l.attempts[i]);
            if j < l.attempts.len() {
                assert(m.attempts[j] == l.attempts[j]);
            }
        }
    }
    let n = l.attempts.len() as int;
    lemma_attempt_is(m, n);
    assert(m.find_attempt(new_id) == n);
    assert(m.tasks_sound()) by {
        assert forall|i: int| 0 <= i < m.tasks.len() implies m.task_sound(#[trigger] m.tasks[i]) by {
            assert(l.task_sound(l.tasks[i]));
            let h = l.tasks[i].head;
            assert(attempts_before(m.attempts, h.task_id, n + 1) == attempts_before(m.attempts, h.task_id, n) + if rec.task_id
                == h.task_id { 1int } else { 0int });
            if i != at {
                assert(h.task_id != id) by {
                    if h.task_id == id {
                        lemma_find_is(l, i);
                    }
                }
                if h.current_attempt_id is Some {
                    let c = h.current_attempt_id->0;
                    lemma_attempt_from(l.attempts, c, 0);
                    let k = l.find_attempt(c);
                    assert(m.attempts[k] == l.attempts[k]);
                    lemma_attempt_is(m, k);
                }
            } else {
                assert(m.attempts[n] == rec);
            }
        }
    }
}

/// Adding a task with a fresh id and no attempts keeps the ledger well-formed.
pub proof fn lemma_task_wf(l: Ledger, rec: TaskRec)
    requires
        l.wf(),
        !l.has(rec.head.task_id),
        rec.head.attempt_count == 0,
        rec.head.current_attempt_id is None,
        rec.head.pause_generation == 0,
        rec.head.freeze_generation == 0,
    ensures
        l.with_task(rec).wf(),
        l.with_task(rec).find(rec.head.task_id) == l.tasks.len(),
        forall|x: Text| #[trigger] l.has(x) ==> l.with_task(rec).find(x) == l.find(x),
{
    let m = l.with_task(rec);
    let id = rec.head.task_id;
    let n = l.tasks.len() as int;
    lemma_find(l, id);
    assert(m.tasks_keyed()) by {
        assert forall|i: int, j: int| 0 <= i < j < m.tasks.len() implies (#[trigger] m.tasks[i]).head.task_id != (
        #[trigger] m.tasks[j]).head.task_id by {
            assert(m.tasks[i] == l.tasks[i]);
            if j < n {
                assert(m.tasks[j] == l.tasks[j]);
            } else {
                assert(l.tasks[i].head.task_id != id);
            }
        }
    }
    lemma_find_is(m, n);
    assert forall|x: Text| #[trigger] l.has(x) implies m.find(x) == l.find(x) by {
        lemma_find(l, x);
        let k = l.find(x);
        assert(m.tasks[k] == l.tasks[k]);
        lemma_find_is(m, k);
    }
    assert forall|x: Text| #[trigger] l.has(x) implies m.head(x) == l.head(x) by {
        lemma_find(l, x);
        assert(m.tasks[l.find(x)] == l.tasks[l.find(x)]);
    }
    assert(m.events_keyed()) by {
        assert forall|i: int| 0 <= i < m.events.len() implies 1 <= (#[trigger] m.events[i]).event.event_id <= m.event_seq
            && m.has(m.events[i].task_id) by {
            assert(l.has(l.events[i].task_id));
        }
    }
    assert(m.edges_keyed()) by {
        assert forall|i: int| 0 <= i < m.edges.len() implies 1 <= (#[trigger] m.edges[i]).edge_id <= m.edge_seq && m.has(
            m.edges[i].task_id,
        ) by {
            assert(l.has(l.edges[i].task_id));
        }
    }
    assert(m.todos_keyed()) by {
        assert forall|i: int| 0 <= i < m.todos.len() implies 1 <= (#[trigger] m.todos[i]).item.todo_id <= m.todo_seq
            && m.has(m.todos[i].task_id) by {
            assert(l.has(l.todos[i].task_id));
        }
    }
    assert(m.attempts_keyed()) by {
        assert forall|i: int|
            #![trigger m.attempts[i]]
            0 <= i < m.attempts.len() implies {
            let a = m.attempts[i];
            &&& 1 <= a.attempt.attempt_id <= m.attempt_seq
            &&& m.has(a.task_id)
            &&& a.attempt.attempt_num == 1 + attempts_before(m.attempts, a.task_id, i)
            &&& a.attempt.finished_at is None ==> m.head(a.task_id).current_attempt_id == Some(a.attempt.attempt_id)
        } by {
            let a = l.attempts[i];
            assert(l.has(a.task_id));
        }
    }
    assert(m.tasks_sound()) by {
        assert forall|i: int| 0 <= i < m.tasks.len() implies m.task_sound(#[trigger] m.tasks[i]) by {
            if i < n {
                assert(m.tasks[i] == l.tasks[i]);
                assert(l.task_sound(l.tasks[i]));
            } else {
                lemma_no_attempts(l, id, l.attempts.len() as int);
            }
        }
    }
}

/// A task that does not exist has no attempts.
proof fn lemma_no_attempts(l: Ledger, id: Text, n: int)
    requires
        l.attempts_keyed(),
        !l.has(id),
        0 <= n <= l.attempts.len(),
    ensures
        attempts_before(l.attempts, id, n) == 0,
    decreases n,
{
    if n > 0 {
        assert(l.has(l.attempts[n - 1].task_id));
        lemma_no_attempts(l, id, n - 1);
    }
}

impl TaskStore {
    /// What holds of the store at all times.
    pub open spec fn wf(&self) -> bool {
        self@.wf()
    }

    /// An empty ledger that lists up to 200 rows at once.
    pub fn in_memory() -> (r: Result<TaskStore, CoordinatorError>)
        ensures
            r matches Ok(s) && s@ == Ledger::blank(200) && s.wf(),
    {
        Ok(TaskStore::with_limit(200))
    }

    /// An empty ledger with a limit on the rows of one listing; a limit of zero counts as one.
    pub fn with_limit(max_list: usize) -> (r: TaskStore)
        ensures
            r@ == Ledger::blank(if max_list == 0 { 1 } else { max_list }),
            r.wf(),
    {
        let max_list: usize = if max_list == 0 { 1 } else { max_list };
        let r = TaskStore {
            tasks: Vec::new(),
            events: Vec::new(),
            attempts: Vec::new(),
            edges: Vec::new(),
            todos: Vec::new(),
            event_seq: 0,
            attempt_seq: 0,
            edge_seq: 0,
            todo_seq: 0,
            max_list,
        };
        assert(r@.tasks =~= Seq::empty());
        assert(r@.events =~= Seq::empty());
        assert(r@.attempts =~= Seq::empty());
        assert(r@.edges =~= Seq::empty());
        assert(r@.todos =~= Seq::empty());
        r
    }

    /// Whether the ids that one operation may hand out still fit.
    pub fn has_room(&self) -> (r: bool)
        ensures
            r == self@.roomy(),
    {
        let rows: u128 = self.tasks.len() as u128 + self.attempts.len() as u128;
        let need: i128 = self.event_seq as i128 + 4 * (rows as i128) + 8;
        need <= i64::MAX as i128 && self.attempt_seq < i64::MAX && self.edge_seq < i64::MAX
    }

    /// The place of a task; the number of tasks where there is none with this id.
    pub fn find_index(&self, id: &str) -> (r: usize)
        ensures
            r == self@.find(id@),
            r <= self.tasks@.len(),
    {
        let mut i: usize = 0;
        while i < self.tasks.len()
            invariant
                i <= self.tasks@.len(),
                self@.find(id@) == find_from(self@.tasks, id@, i as int),
            decreases self.tasks@.len() - i,
        {
            if text::same(self.tasks[i].head.task_id.as_str(), id) {
                return i;
            }
            i = i + 1;
        }
        i
    }

    /// The place of an attempt; the number of attempts where there is none with this id.
    pub fn attempt_index(&self, aid: i64) -> (r: usize)
        ensures
            r == self@.find_attempt(aid),
            r <= self.attempts@.len(),
    {
        let mut i: usize = 0;
        while i < self.attempts.len()
            invariant
                i <= self.attempts@.len(),
                self@.find_attempt(aid) == attempt_from(self@.attempts, aid, i as int),
            decreases self.attempts@.len() - i,
        {
            if self.attempts[i].attempt.attempt_id == aid {
                return i;
            }
            i = i + 1;
        }
        i
    }

    /// Replaces the row of a task.
    pub(crate) fn put_row(&mut self, i: usize, row: TaskRow)
        requires
            i < old(self).tasks@.len(),
        ensures
            final(self)@ == (Ledger { tasks: old(self)@.tasks.update(i as int, row@), ..old(self)@ }),
    {
        self.tasks.set(i, row);
        assert(self@.tasks =~= old(self)@.tasks.update(i as int, row@));
    }

    /// Replaces the shown columns of a task.
    pub(crate) fn put_head(&mut self, i: usize, head: TaskHead)
        requires
            i < old(self).tasks@.len(),
        ensures
            final(self)@ == (Ledger {
                tasks: old(self)@.tasks.update(i as int, TaskRec { head: head@, ..old(self)@.tasks[i as int] }),
                ..old(self)@
            }),
    {
        let count: i64 = self.tasks[i].consecutive_same_class_count;
        self.put_row(i, TaskRow { head, consecutive_same_class_count: count });
    }

    /// Replaces the row of an attempt.
    pub(crate) fn put_attempt_row(&mut self, i: usize, row: AttemptRow)
        requires
            i < old(self).attempts@.len(),
        ensures
            final(self)@ == (Ledger { attempts: old(self)@.attempts.update(i as int, row@), ..old(self)@ }),
    {
        self.attempts.set(i, row);
        assert(self@.attempts =~= old(self)@.attempts.update(i as int, row@));
    }

    /// Appends an event.
    pub(crate) fn push_event(&mut self, task_id: &str, event: TaskEvent)
        requires
            old(self)@.event_seq < i64::MAX,
        ensures
            final(self)@ == old(self)@.with_event(task_id@, event@),
    {
        let row = EventRow { task_id: text::owned(task_id), event };
        self.event_seq = self.event_seq + 1;
        self.events.push(row);
        assert(self@.events =~= old(self)@.events.push(row@));
    }

    /// Appends a structured event.
    pub(crate) fn insert_typed_event(
        &mut self,
        task_id: &str,
        ts: i64,
        event_type: &str,
        legacy_payload: String,
        attempt_id: Option<i64>,
        trace_id: Option<&str>,
        payload_json: String,
    )
        requires
            old(self)@.wf(),
            old(self)@.has(task_id@),
            old(self)@.event_seq < i64::MAX,
        ensures
            final(self)@ == old(self)@.log(
                task_id@,
                ts,
                event_type@,
                legacy_payload@,
                attempt_id,
                text::opt_slice(trace_id),
                payload_json@,
            ),
            final(self)@.wf(),
            forall|x: Text| #[trigger] final(self)@.find(x) == old(self)@.find(x),
    {
        let event_id: i64 = self.event_seq + 1;
        let event = TaskEvent {
            event_id,
            ts,
            event_type: text::owned(event_type),
            payload: legacy_payload,
            schema_version: 1,
            attempt_id,
            trace_id: text::owned_opt(trace_id),
            payload_json: Some(payload_json),
        };
        proof {
            lemma_event_wf(self@, task_id@, event@);
        }
        self.push_event(task_id, event);
    }
}

} // verus!
