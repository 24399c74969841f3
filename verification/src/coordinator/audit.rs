//! Whether a ledger put together from stored rows is in order.
use vstd::prelude::*;
use crate::coordinator::ledger::{self, TaskStore};
use crate::text;

verus! {

impl TaskStore {
    /// Whether no two tasks share an id.
    fn tasks_hold(&self) -> (r: bool)
        ensures
            r == self@.tasks_keyed(),
    {
        let mut j: usize = 0;
        while j < self.tasks.len()
            invariant
                j <= self.tasks@.len(),
                forall|k: int, m: int|
                    0 <= k < m < j ==> (#[trigger] self@.tasks[k]).head.task_id != (#[trigger] self@.tasks[m]).head.task_id,
            decreases self.tasks@.len() - j,
        {
            let at = self.find_index(self.tasks[j].head.task_id.as_str());
            assert(self@.tasks[j as int] == self.tasks@[j as int]@);
            proof {
                ledger::lemma_find(self@, self@.tasks[j as int].head.task_id);
            }
            if at < j {
                assert(self@.tasks[at as int].head.task_id == self@.tasks[j as int].head.task_id);
                return false;
            }
            j = j + 1;
        }
        true
    }

    /// Whether the events are in the order of their ids and belong to tasks.
    fn events_hold(&self) -> (r: bool)
        ensures
            r == self@.events_keyed(),
    {
        if self.event_seq < 0 {
            return false;
        }
        let mut i: usize = 0;
        while i < self.events.len()
            invariant
                i <= self.events@.len(),
                self.event_seq >= 0,
                forall|k: int|
                    0 <= k < i ==> 1 <= (#[trigger] self@.events[k]).event.event_id <= self.event_seq && self@.has(
                        self@.events[k].task_id,
                    ),
                forall|k: int, m: int|
                    0 <= k < m < i ==> (#[trigger] self@.events[k]).event.event_id < (#[trigger] self@.events[m]).event.event_id,
            decreases self.events@.len() - i,
        {
            let id = self.events[i].event.event_id;
            assert(self@.events[i as int] == self.events@[i as int]@);
            if id < 1 || id > self.event_seq || self.find_index(self.events[i].task_id.as_str()) >= self.tasks.len() {
                return false;
            }
            if i > 0 {
                assert(self@.events[i - 1] == self.events@[i - 1]@);
                if self.events[i - 1].event.event_id >= id {
                    return false;
                }
            }
            i = i + 1;
        }
        true
    }

    /// Whether the edges are in the order of their ids and belong to tasks.
    fn edges_hold(&self) -> (r: bool)
        ensures
            r == self@.edges_keyed(),
    {
        if self.edge_seq < 0 {
            return false;
        }
        let mut i: usize = 0;
        while i < self.edges.len()
            invariant
                i <= self.edges@.len(),
                self.edge_seq >= 0,
                forall|k: int|
                    0 <= k < i ==> 1 <= (#[trigger] self@.edges[k]).edge_id <= self.edge_seq && self@.has(
                        self@.edges[k].task_id,
                    ),
                forall|k: int, m: int|
                    0 <= k < m < i ==> (#[trigger] self@.edges[k]).edge_id < (#[trigger] self@.edges[m]).edge_id,
            decreases self.edges@.len() - i,
        {
            let id = self.edges[i].edge_id;
            assert(self@.edges[i as int] == self.edges@[i as int]@);
            if id < 1 || id > self.edge_seq || self.find_index(self.edges[i].task_id.as_str()) >= self.tasks.len() {
                return false;
            }
            if i > 0 {
                assert(self@.edges[i - 1] == self.edges@[i - 1]@);
                if self.edges[i - 1].edge_id >= id {
                    return false;
                }
            }
            i = i + 1;
        }
        true
    }

    /// Whether the todos are in the order of their ids and belong to tasks.
    fn todos_hold(&self) -> (r: bool)
        ensures
            r == self@.todos_keyed(),
    {
        if self.todo_seq < 0 {
            return false;
        }
        let mut i: usize = 0;
        while i < self.todos.len()
            invariant
                i <= self.todos@.len(),
                self.todo_seq >= 0,
                forall|k: int|
                    0 <= k < i ==> 1 <= (#[trigger] self@.todos[k]).item.todo_id <= self.todo_seq && self@.has(
                        self@.todos[k].task_id,
                    ),
                forall|k: int, m: int|
                    0 <= k < m < i ==> (#[trigger] self@.todos[k]).item.todo_id < (#[trigger] self@.todos[m]).item.todo_id,
            decreases self.todos@.len() - i,
        {
            let id = self.todos[i].item.todo_id;
            assert(self@.todos[i as int] == self.todos@[i as int]@);
            if id < 1 || id > self.todo_seq || self.find_index(self.todos[i].task_id.as_str()) >= self.tasks.len() {
                return false;
            }
            if i > 0 {
                assert(self@.todos[i - 1] == self.todos@[i - 1]@);
                if self.todos[i - 1].item.todo_id >= id {
                    return false;
                }
            }
            i = i + 1;
        }
        true
    }

    /// How many of the first `n` attempts belong to a task.
    fn attempts_among(&self, id: &str, n: usize) -> (r: usize)
        requires
            n <= self.attempts@.len(),
        ensures
            r == ledger::attempts_before(self@.attempts, id@, n as int),
            r <= n,
    {
        let mut total: usize = 0;
        let mut i: usize = 0;
        while i < n
            invariant
                i <= n <= self.attempts@.len(),
                total <= i,
                total == ledger::attempts_before(self@.attempts, id@, i as int),
            decreases n - i,
        {
            assert(self@.attempts[i as int] == self.attempts@[i as int]@);
            if text::same(self.attempts[i].task_id.as_str(), id) {
                total = total + 1;
            }
            i = i + 1;
        }
        total
    }

    /// Whether an attempt fits its task.
    fn attempt_holds(&self, i: usize) -> (r: bool)
        requires
            i < self.attempts@.len(),
        ensures
            r == ({
                let a = self@.attempts[i as int];
                &&& 1 <= a.attempt.attempt_id <= self.attempt_seq
                &&& self@.has(a.task_id)
                &&& a.attempt.attempt_num == 1 + ledger::attempts_before(self@.attempts, a.task_id, i as int)
                &&& a.attempt.finished_at is None ==> self@.head(a.task_id).current_attempt_id == Some(
                    a.attempt.attempt_id,
                )
            }),
    {
        let row = &self.attempts[i];
        let aid = row.attempt.attempt_id;
        if aid < 1 || aid > self.attempt_seq {
            return false;
        }
        let at = self.find_index(row.task_id.as_str());
        if at >= self.tasks.len() {
            return false;
        }
        let before = self.attempts_among(row.task_id.as_str(), i);
        if row.attempt.attempt_num as i128 != before as i128 + 1 {
            return false;
        }
        if row.attempt.finished_at.is_some() {
            return true;
        }
        match self.tasks[at].head.current_attempt_id {
            Some(current) => current == aid,
            None => false,
        }
    }

    /// Whether the attempts are in the order of their ids and fit their tasks.
    fn attempts_hold(&self) -> (r: bool)
        ensures
            r == self@.attempts_keyed(),
    {
        if self.attempt_seq < 0 {
            return false;
        }
        let mut i: usize = 0;
        while i < self.attempts.len()
            invariant
                i <= self.attempts@.len(),
                self.attempt_seq >= 0,
                forall|k: int|
                    #![trigger self@.attempts[k]]
                    0 <= k < i ==> {
                        let a = self@.attempts[k];
                        &&& 1 <= a.attempt.attempt_id <= self.attempt_seq
                        &&& self@.has(a.task_id)
                        &&& a.attempt.attempt_num == 1 + ledger::attempts_before(self@.attempts, a.task_id, k)
                        &&& a.attempt.finished_at is None ==> self@.head(a.task_id).current_attempt_id == Some(
                            a.attempt.attempt_id,
                        )
                    },
                forall|k: int, m: int|
                    0 <= k < m < i ==> (#[trigger] self@.attempts[k]).attempt.attempt_id < (
                    #[trigger] self@.attempts[m]).attempt.attempt_id,
            decreases self.attempts@.len() - i,
        {
            if !self.attempt_holds(i) {
                assert(!self@.attempts_keyed());
                return false;
            }
            assert(self@.attempts[i as int] == self.attempts@[i as int]@);
            if i > 0 {
                assert(self@.attempts[i - 1] == self.attempts@[i - 1]@);
                if self.attempts[i - 1].attempt.attempt_id >= self.attempts[i].attempt.attempt_id {
                    return false;
                }
            }
            i = i + 1;
        }
        true
    }

    /// Whether a task counts its attempts and points at the last one.
    fn task_holds(&self, i: usize) -> (r: bool)
        requires
            i < self.tasks@.len(),
        ensures
            r == self@.task_sound(self@.tasks[i as int]),
    {
        let h = &self.tasks[i].head;
        let total = self.attempts_among(h.task_id.as_str(), self.attempts.len());
        if h.attempt_count as i128 != total as i128 || h.attempt_count > self.attempt_seq {
            return false;
        }
        if h.pause_generation < 0 || h.pause_generation > self.event_seq || h.freeze_generation < 0
            || h.freeze_generation > self.event_seq {
            return false;
        }
        match h.current_attempt_id {
            Some(aid) => {
                let at = self.attempt_index(aid);
                if at >= self.attempts.len() {
                    return false;
                }
                text::same(self.attempts[at].task_id.as_str(), h.task_id.as_str()) && self.attempts[at].attempt.attempt_num
                    == h.attempt_count
            },
            None => h.attempt_count == 0,
        }
    }

    /// Whether a ledger is in order.
    pub fn is_sound(&self) -> (r: bool)
        ensures
            r == self.wf(),
    {
        if self.max_list < 1 || !self.tasks_hold() || !self.events_hold() || !self.edges_hold() || !self.todos_hold()
            || !self.attempts_hold() {
            return false;
        }
        let mut i: usize = 0;
        while i < self.tasks.len()
            invariant
                i <= self.tasks@.len(),
                forall|k: int| 0 <= k < i ==> self@.task_sound(#[trigger] self@.tasks[k]),
            decreases self.tasks@.len() - i,
        {
            if !self.task_holds(i) {
                assert(!self@.task_sound(self@.tasks[i as int]));
                return false;
            }
            i = i + 1;
        }
        true
    }
}

} // verus!
