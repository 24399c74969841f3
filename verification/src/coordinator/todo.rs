//! The todo list of a task.
use vstd::prelude::*;
use crate::coordinator::ledger::{self, Ledger, TaskStore};
use crate::coordinator::model::{self, CoordinatorError, Fault, OwnedTodo, TodoItem, TodoRec, TodoRow};
use crate::coordinator::vocab;
use crate::numeral;
use crate::ordering::{self, KeyRec, SortKey};
use crate::outside;
use crate::redaction;
use crate::text::{self, Text};

verus! {

/// The texts of a list of slices.
pub open spec fn slices(items: Seq<&str>) -> Seq<Text> {
    items.map_values(|s: &str| s@)
}

pub open spec fn pick_others(id: Text) -> spec_fn(OwnedTodo) -> Option<OwnedTodo> {
    |t: OwnedTodo| if t.task_id != id { Some(t) } else { None }
}

pub open spec fn pick_todo(id: Text) -> spec_fn(OwnedTodo) -> Option<TodoRec> {
    |t: OwnedTodo| if t.task_id == id { Some(t.item) } else { None }
}

/// The key by which todos are shown.
pub open spec fn position_key() -> spec_fn(TodoRec) -> KeyRec {
    |t: TodoRec| KeyRec { num: t.position as int, name: Seq::empty() }
}

/// The rows of a new todo list: the items in the order in which they were given.
pub open spec fn fresh_todos(id: Text, safe: Seq<Text>, now: i64, seq: int) -> Seq<OwnedTodo> {
    Seq::new(
        safe.len(),
        |k: int|
            OwnedTodo {
                task_id: id,
                item: TodoRec {
                    todo_id: (seq + 1 + k) as i64,
                    position: k as i64,
                    status: "open"@,
                    text: safe[k],
                    created_at: now,
                    updated_at: now,
                },
            },
    )
}

pub open spec fn some_blank(items: Seq<Text>) -> bool {
    exists|i: int| 0 <= i < items.len() && text::trim(#[trigger] items[i]).len() == 0
}

pub open spec fn some_oversize(items: Seq<Text>) -> bool {
    exists|i: int| 0 <= i < items.len() && text::byte_len(#[trigger] items[i]) > vocab::MAX_OPERATOR_NOTE_LEN
}

/// The place of the first todo of a task with an id at or after `from`; the length where there is none.
pub open spec fn todo_from(todos: Seq<OwnedTodo>, id: Text, todo_id: i64, from: int) -> int
    decreases todos.len() - from,
{
    if from < 0 || from >= todos.len() {
        todos.len() as int
    } else if todos[from].task_id == id && todos[from].item.todo_id == todo_id {
        from
    } else {
        todo_from(todos, id, todo_id, from + 1)
    }
}

pub open spec fn oversize_todo() -> Text {
    "task.todo_set: a todo exceeds "@ + numeral::dec(vocab::MAX_OPERATOR_NOTE_LEN as int) + " bytes"@
}

pub open spec fn bad_todo_status(status: Text) -> Text {
    "task.todo_update: status must be 'open' or 'done', got '"@ + status + "'"@
}

pub open spec fn todo_missing(id: Text, todo_id: int) -> Text {
    "todo not found: task="@ + id + " todo_id="@ + numeral::dec(todo_id)
}

impl Ledger {
    /// The todos of a task in the order in which they are shown.
    pub open spec fn todos_of(self, id: Text) -> Seq<TodoRec> {
        ordering::sorted_by_key(self.todos.filter_map(pick_todo(id)), position_key())
    }

    /// The ledger in which the todos of a task were replaced.
    pub open spec fn with_todos(self, now: i64, id: Text, safe: Seq<Text>) -> Ledger {
        Ledger {
            todos: self.todos.filter_map(pick_others(id)) + fresh_todos(id, safe, now, self.todo_seq),
            todo_seq: self.todo_seq + safe.len(),
            ..self
        }
    }

    /// What replacing the todos of a task does and returns: the new list. `safe` holds the scrubbed
    /// items; ids that would not fit are refused as a full table.
    pub open spec fn todos_set(self, now: i64, id: Text, items: Seq<Text>, safe: Seq<Text>) -> (
        Ledger,
        Result<Seq<TodoRec>, Fault>,
    ) {
        if some_blank(items) {
            (self, Err(Fault::Invalid("task.todo_set: every todo text must be non-empty (after trim)"@)))
        } else if some_oversize(items) {
            (self, Err(Fault::Invalid(oversize_todo())))
        } else if !self.has(id) {
            (self, Err(Fault::NotFound(id)))
        } else if self.todo_seq + safe.len() > i64::MAX {
            (self, Err(Fault::Db("database or disk is full"@)))
        } else {
            let l = self.with_todos(now, id, safe);
            (l, Ok(l.todos_of(id)))
        }
    }

    /// What changing the status of a todo does and returns: the changed item.
    pub open spec fn todo_updated(self, now: i64, id: Text, todo_id: i64, status: Text) -> (Ledger, Result<TodoRec, Fault>) {
        let k = todo_from(self.todos, id, todo_id, 0);
        if status != "open"@ && status != "done"@ {
            (self, Err(Fault::Invalid(bad_todo_status(status))))
        } else if k >= self.todos.len() {
            (self, Err(Fault::NotFound(todo_missing(id, todo_id as int))))
        } else {
            let item = TodoRec { status, updated_at: now, ..self.todos[k].item };
            (Ledger { todos: self.todos.update(k, OwnedTodo { item, ..self.todos[k] }), ..self }, Ok(item))
        }
    }
}

/// Replacing the todos by keyed ones keeps the ledger well-formed.
proof fn lemma_todos_wf(l: Ledger, todos: Seq<OwnedTodo>, seq: int)
    requires
        l.wf(),
        seq >= 0,
        forall|i: int|
            0 <= i < todos.len() ==> 1 <= (#[trigger] todos[i]).item.todo_id <= seq && l.has(todos[i].task_id),
        forall|i: int, j: int|
            0 <= i < j < todos.len() ==> (#[trigger] todos[i]).item.todo_id < (#[trigger] todos[j]).item.todo_id,
    ensures
        (Ledger { todos, todo_seq: seq, ..l }).wf(),
{
    let m = Ledger { todos, todo_seq: seq, ..l };
    assert(m.events_keyed()) by {
        assert forall|i: int| 0 <= i < m.events.len() implies 1 <= (#[trigger] m.events[i]).event.event_id <= m.event_seq
            && m.has(m.events[i].task_id) by {
            assert(l.has(l.events[i].task_id));
        }
    }
    assert(m.edges_keyed()) by {
        assert forall|i: int| 0 <= i < m.edges.len() implies 1 <= (#[trigger] m.edges[i]).edge_id <= m.edge_seq && m.has(
            m.edges[i].task_id,
        ) by {
            assert(l.has(l.edges[i].task_id));
        }
    }
    assert(m.todos_keyed()) by {
        assert forall|i: int| 0 <= i < m.todos.len() implies 1 <= (#[trigger] m.todos[i]).item.todo_id <= m.todo_seq
            && m.has(m.todos[i].task_id) by {
            assert(l.has(todos[i].task_id));
        }
    }
    assert(m.attempts_keyed()) by {
        assert forall|i: int|
            #![trigger m.attempts[i]]
            0 <= i < m.attempts.len() implies {
            let a = m.attempts[i];
            &&& 1 <= a.attempt.attempt_id <= m.attempt_seq
            &&& m.has(a.task_id)
            &&& a.attempt.attempt_num == 1 + ledger::attempts_before(m.attempts, a.task_id, i)
            &&& a.attempt.finished_at is None ==> m.head(a.task_id).current_attempt_id == Some(a.attempt.attempt_id)
        } by {
            let a = l.attempts[i];
            assert(l.has(a.task_id));
        }
    }
    assert(m.tasks_sound()) by {
        assert forall|i: int| 0 <= i < m.tasks.len() implies m.task_sound(#[trigger] m.tasks[i]) by {
            assert(l.task_sound(l.tasks[i]));
        }
    }
}

fn any_blank(items: &[&str]) -> (r: bool)
    ensures
        r == some_blank(slices(items@)),
{
    let mut i: usize = 0;
    while i < items.len()
        invariant
            i <= items@.len(),
            forall|k: int| 0 <= k < i ==> text::trim(#[trigger] slices(items@)[k]).len() > 0,
        decreases items@.len() - i,
    {
        let t = text::trimmed(items[i]);
        assert(slices(items@)[i as int] == items@[i as int]@);
        if t.as_str().is_empty() {
            return true;
        }
        i = i + 1;
    }
    false
}

fn any_oversize(items: &[&str]) -> (r: bool)
    ensures
        r == some_oversize(slices(items@)),
{
    let mut i: usize = 0;
    while i < items.len()
        invariant
            i <= items@.len(),
            forall|k: int|
                0 <= k < i ==> text::byte_len(#[trigger] slices(items@)[k]) <= vocab::MAX_OPERATOR_NOTE_LEN,
        decreases items@.len() - i,
    {
        assert(slices(items@)[i as int] == items@[i as int]@);
        if text::len_bytes(items[i]) > vocab::MAX_OPERATOR_NOTE_LEN {
            return true;
        }
        i = i + 1;
    }
    false
}

/// Whether each text of `safe` is what the scrubber may make of the item at its place.
pub open spec fn redacts_all<R: Fn(&str) -> String>(redact: R, items: Seq<Text>, safe: Seq<Text>) -> bool {
    items.len() == safe.len() && forall|i: int|
        0 <= i < items.len() ==> redaction::redacts(redact, #[trigger] items[i], safe[i])
}

impl TaskStore {
    /// Replaces a task's todos at a given time; `safe` holds the items with secrets scrubbed out.
    pub fn set_task_todos_at(&mut self, now: i64, task_id: &str, items: &[&str], safe: &Vec<String>) -> (r: Result<
        Vec<TodoItem>,
        CoordinatorError,
    >)
        requires
            old(self).wf(),
            safe@.len() == items@.len(),
        ensures
            (final(self)@, model::seen_rows(r)) == old(self)@.todos_set(
                now,
                task_id@,
                slices(items@),
                text::texts(safe@),
            ),
            final(self).wf(),
    {
        if any_blank(items) {
            return Err(
                CoordinatorError::Invalid(
                    text::owned("task.todo_set: every todo text must be non-empty (after trim)"),
                ),
            );
        }
        if any_oversize(items) {
            let mut m = text::owned("task.todo_set: a todo exceeds ");
            numeral::push_usize(&mut m, vocab::MAX_OPERATOR_NOTE_LEN);
            m.append(" bytes");
            return Err(CoordinatorError::Invalid(m));
        }
        if self.find_index(task_id) >= self.tasks.len() {
            return Err(CoordinatorError::NotFound(text::owned(task_id)));
        }
        if self.todo_seq as i128 + safe.len() as i128 > i64::MAX as i128 {
            return Err(CoordinatorError::Db(text::owned("database or disk is full")));
        }
        let ghost l0 = self@;
        let ghost id = task_id@;
        let ghost f = pick_others(id);
        let ghost texts = text::texts(safe@);
        let ghost fresh = fresh_todos(id, texts, now, l0.todo_seq);
        let seq: i64 = self.todo_seq;
        let mut out: Vec<TodoRow> = Vec::new();
        let mut i: usize = 0;
        assert(model::views(out@) =~= l0.todos.take(0).filter_map(f));
        while i < self.todos.len()
            invariant
                l0.wf(),
                self@ == l0,
                i <= self.todos@.len(),
                f == pick_others(id),
                id == task_id@,
                model::views(out@) == l0.todos.take(i as int).filter_map(f),
                forall|k: int|
                    0 <= k < out@.len() ==> 1 <= (#[trigger] out@[k]).item.todo_id <= l0.todo_seq && l0.has(
                        out@[k].task_id@,
                    ),
                forall|k: int|
                    0 <= k < out@.len() && i < l0.todos.len() ==> (#[trigger] out@[k]).item.todo_id
                        < l0.todos[i as int].item.todo_id,
                forall|k: int, m: int|
                    0 <= k < m < out@.len() ==> (#[trigger] out@[k]).item.todo_id < (#[trigger] out@[m]).item.todo_id,
            decreases self.todos@.len() - i,
        {
            proof {
                l0.todos.lemma_filter_map_take_succ(f, i as int);
            }
            let ghost before = model::views(out@);
            let row = &self.todos[i];
            assert(row@ == l0.todos[i as int]);
            assert(l0.has(l0.todos[i as int].task_id));
            if i + 1 < self.todos.len() {
                assert(l0.todos[i as int].item.todo_id < l0.todos[i + 1].item.todo_id);
            }
            if !text::same(row.task_id.as_str(), task_id) {
                out.push(row.dup());
                assert(model::views(out@) =~= before + seq![row@]);
            } else {
                assert(before =~= before + Seq::<OwnedTodo>::empty());
            }
            i = i + 1;
        }
        assert(l0.todos.take(l0.todos.len() as int) =~= l0.todos);
        let ghost kept = model::views(out@);
        assert(kept == l0.todos.filter_map(f));
        let mut k: usize = 0;
        assert(fresh.take(0) =~= Seq::empty());
        assert(kept + fresh.take(0) =~= kept);
        while k < safe.len()
            invariant
                l0.wf(),
                l0.has(id),
                id == task_id@,
                seq == l0.todo_seq,
                k <= safe@.len(),
                l0.todo_seq + safe@.len() <= i64::MAX,
                texts == text::texts(safe@),
                fresh == fresh_todos(id, texts, now, l0.todo_seq),
                model::views(out@) == kept + fresh.take(k as int),
                forall|j: int|
                    0 <= j < out@.len() ==> 1 <= (#[trigger] out@[j]).item.todo_id <= l0.todo_seq + k && l0.has(
                        out@[j].task_id@,
                    ),
                forall|j: int, m: int|
                    0 <= j < m < out@.len() ==> (#[trigger] out@[j]).item.todo_id < (#[trigger] out@[m]).item.todo_id,
            decreases safe@.len() - k,
        {
            let ghost before = model::views(out@);
            let row = TodoRow {
                task_id: text::owned(task_id),
                item: TodoItem {
                    todo_id: seq + 1 + k as i64,
                    position: k as i64,
                    status: text::owned("open"),
                    text: safe[k].clone(),
                    created_at: now,
                    updated_at: now,
                },
            };
            assert(row@ == fresh[k as int]);
            out.push(row);
            assert(model::views(out@) =~= before.push(row@));
            assert(fresh.take(k + 1) =~= fresh.take(k as int).push(fresh[k as int]));
            assert(before.push(row@) =~= kept + fresh.take(k + 1));
            k = k + 1;
        }
        assert(fresh.take(safe@.len() as int) =~= fresh);
        let n: i64 = safe.len() as i64;
        let ghost rows = model::views(out@);
        proof {
            assert forall|j: int| 0 <= j < rows.len() implies 1 <= (#[trigger] rows[j]).item.todo_id <= l0.todo_seq
                + safe@.len() && l0.has(rows[j].task_id) by {
                assert(rows[j] == out@[j]@);
            }
            assert forall|j: int, m: int| 0 <= j < m < rows.len() implies (#[trigger] rows[j]).item.todo_id < (
            #[trigger] rows[m]).item.todo_id by {
                assert(rows[j] == out@[j]@);
                assert(rows[m] == out@[m]@);
            }
            lemma_todos_wf(l0, rows, l0.todo_seq + safe@.len());
        }
        self.todos = out;
        self.todo_seq = seq + n;
        assert(self@ == l0.with_todos(now, id, texts));
        self.list_task_todos(task_id)
    }

    /// Replaces a task's todo list. Items must not be blank or too long; they are scrubbed before they
    /// are stored. Returns the new list.
    pub fn set_task_todos<R: Fn(&str) -> String>(&mut self, task_id: &str, items: &[&str], redact: &R) -> (r: Result<
        Vec<TodoItem>,
        CoordinatorError,
    >)
        requires
            old(self).wf(),
            redaction::total(*redact),
        ensures
            exists|now: i64, safe: Seq<Text>|
                redacts_all(*redact, slices(items@), safe) && (final(self)@, model::seen_rows(r))
                    == #[trigger] old(self)@.todos_set(now, task_id@, slices(items@), safe),
            final(self).wf(),
    {
        let now = outside::unix_secs();
        let mut safe: Vec<String> = Vec::new();
        let mut i: usize = 0;
        while i < items.len()
            invariant
                i <= items@.len(),
                safe@.len() == i,
                redaction::total(*redact),
                forall|k: int|
                    0 <= k < i ==> redaction::redacts(*redact, #[trigger] slices(items@)[k], safe@[k]@),
            decreases items@.len() - i,
        {
            let s = redaction::scrub(redact, items[i]);
            assert(slices(items@)[i as int] == items@[i as int]@);
            safe.push(s);
            i = i + 1;
        }
        assert(redacts_all(*redact, slices(items@), text::texts(safe@)));
        self.set_task_todos_at(now, task_id, items, &safe)
    }

    /// A task's todos in the order in which they are shown; empty where there is no such task.
    pub fn list_task_todos(&self, task_id: &str) -> (r: Result<Vec<TodoItem>, CoordinatorError>)
        ensures
            model::seen_rows(r) == Ok::<Seq<TodoRec>, Fault>(self@.todos_of(task_id@)),
    {
        let ghost f = pick_todo(task_id@);
        let mut rows: Vec<TodoItem> = Vec::new();
        let mut keys: Vec<SortKey> = Vec::new();
        let mut i: usize = 0;
        assert(model::views(rows@) =~= self@.todos.take(0).filter_map(f));
        while i < self.todos.len()
            invariant
                i <= self.todos@.len(),
                f == pick_todo(task_id@),
                model::views(rows@) == self@.todos.take(i as int).filter_map(f),
                keys@.len() == rows@.len(),
                forall|k: int| 0 <= k < keys@.len() ==> (#[trigger] keys@[k])@ == position_key()(rows@[k]@),
            decreases self.todos@.len() - i,
        {
            proof {
                self@.todos.lemma_filter_map_take_succ(f, i as int);
            }
            let ghost before = model::views(rows@);
            let row = &self.todos[i];
            assert(row@ == self@.todos[i as int]);
            if text::same(row.task_id.as_str(), task_id) {
                let key = SortKey { num: row.item.position as i128, name: String::new() };
                assert(key@.name =~= Seq::empty());
                keys.push(key);
                rows.push(row.item.dup());
                assert(model::views(rows@) =~= before + seq![row@.item]);
            } else {
                assert(before =~= before + Seq::<TodoRec>::empty());
            }
            i = i + 1;
        }
        assert(self@.todos.take(self@.todos.len() as int) =~= self@.todos);
        assert(ordering::key_recs(keys@) =~= model::views(rows@).map_values(position_key()));
        let places = ordering::sort_places(&keys);
        let ghost all = ordering::sorted_by_key(model::views(rows@), position_key());
        assert(all.len() == places@.len());
        let mut out: Vec<TodoItem> = Vec::new();
        let mut j: usize = 0;
        while j < places.len()
            invariant
                j <= places@.len(),
                places@.len() == rows@.len(),
                all.len() == places@.len(),
                all == ordering::as_places(places@).map_values(|p: int| model::views(rows@)[p]),
                forall|k: int| 0 <= k < places@.len() ==> (#[trigger] places@[k]) < rows@.len(),
                model::views(out@) == all.take(j as int),
            decreases places@.len() - j,
        {
            let row = rows[places[j]].dup();
            let ghost before = model::views(out@);
            assert(all[j as int] == row@);
            out.push(row);
            assert(model::views(out@) =~= before.push(row@));
            assert(all.take(j + 1) =~= all.take(j as int).push(all[j as int]));
            j = j + 1;
        }
        assert(all.take(places@.len() as int) =~= all);
        Ok(out)
    }

    /// Changes the status of a todo at a given time.
    pub fn update_task_todo_status_at(&mut self, now: i64, task_id: &str, todo_id: i64, new_status: &str) -> (r: Result<
        TodoItem,
        CoordinatorError,
    >)
        requires
            old(self).wf(),
        ensures
            (final(self)@, model::seen(r)) == old(self)@.todo_updated(now, task_id@, todo_id, new_status@),
            final(self).wf(),
    {
        if !text::same(new_status, "open") && !text::same(new_status, "done") {
            let mut m = text::owned("task.todo_update: status must be 'open' or 'done', got '");
            m.append(new_status);
            m.append("'");
            return Err(CoordinatorError::Invalid(m));
        }
        let ghost l0 = self@;
        let mut k: usize = 0;
        while k < self.todos.len()
            invariant
                self@ == l0,
                l0.wf(),
                k <= self.todos@.len(),
                todo_from(l0.todos, task_id@, todo_id, 0) == todo_from(l0.todos, task_id@, todo_id, k as int),
            ensures
                self@ == l0,
                l0.wf(),
                k <= self.todos@.len(),
                k == todo_from(l0.todos, task_id@, todo_id, 0),
            decreases self.todos@.len() - k,
        {
            let row = &self.todos[k];
            assert(row@ == l0.todos[k as int]);
            if text::same(row.task_id.as_str(), task_id) && row.item.todo_id == todo_id {
                break;
            }
            k = k + 1;
        }
        if k >= self.todos.len() {
            let mut m = text::owned("todo not found: task=");
            m.append(task_id);
            m.append(" todo_id=");
            numeral::push_i64(&mut m, todo_id);
            return Err(CoordinatorError::NotFound(m));
        }
        let mut row = self.todos[k].dup();
        assert(row@ == l0.todos[k as int]);
        row.item.status = text::owned(new_status);
        row.item.updated_at = now;
        let item = row.item.dup();
        let ghost rows = l0.todos.update(k as int, row@);
        proof {
            assert forall|j: int| 0 <= j < rows.len() implies 1 <= (#[trigger] rows[j]).item.todo_id <= l0.todo_seq
                && l0.has(rows[j].task_id) by {
                assert(l0.has(l0.todos[j].task_id));
            }
            assert forall|j: int, m: int| 0 <= j < m < rows.len() implies (#[trigger] rows[j]).item.todo_id < (
            #[trigger] rows[m]).item.todo_id by {
                assert(l0.todos[j].item.todo_id < l0.todos[m].item.todo_id);
            }
            lemma_todos_wf(l0, rows, l0.todo_seq);
        }
        self.todos.set(k, row);
        assert(self@.todos =~= rows);
        Ok(item)
    }

    /// Changes the status of a todo to `open` or `done`; returns the changed item.
    pub fn update_task_todo_status(&mut self, task_id: &str, todo_id: i64, new_status: &str) -> (r: Result<
        TodoItem,
        CoordinatorError,
    >)
        requires
            old(self).wf(),
        ensures
            exists|now: i64|
                (final(self)@, model::seen(r)) == #[trigger] old(self)@.todo_updated(now, task_id@, todo_id, new_status@),
            final(self).wf(),
    {
        let now = outside::unix_secs();
        self.update_task_todo_status_at(now, task_id, todo_id, new_status)
    }
}

proof fn lemma_others_only(todos: Seq<OwnedTodo>, id: Text)
    ensures
        todos.filter_map(pick_others(id)).filter_map(pick_todo(id)) == Seq::<TodoRec>::empty(),
    decreases todos.len(),
{
    if todos.len() > 0 {
        let rest = todos.drop_last();
        lemma_others_only(rest, id);
        if todos.last().task_id != id {
            let kept = rest.filter_map(pick_others(id)) + seq![todos.last()];
            assert(kept.drop_last() =~= rest.filter_map(pick_others(id)));
            assert(kept.last() == todos.last());
        }
    }
}

proof fn lemma_others_kept(todos: Seq<OwnedTodo>, id: Text, other: Text)
    requires
        other != id,
    ensures
        todos.filter_map(pick_others(id)).filter_map(pick_todo(other)) == todos.filter_map(pick_todo(other)),
    decreases todos.len(),
{
    if todos.len() > 0 {
        let rest = todos.drop_last();
        lemma_others_kept(rest, id, other);
        if todos.last().task_id != id {
            let kept = rest.filter_map(pick_others(id)) + seq![todos.last()];
            assert(kept.drop_last() =~= rest.filter_map(pick_others(id)));
            assert(kept.last() == todos.last());
        }
    }
}

proof fn lemma_behind(front: Seq<OwnedTodo>, fresh: Seq<OwnedTodo>, id: Text, other: Text, k: int)
    requires
        other != id,
        0 <= k <= fresh.len(),
        forall|i: int| 0 <= i < fresh.len() ==> (#[trigger] fresh[i]).task_id == id,
    ensures
        (front + fresh.take(k)).filter_map(pick_todo(id)) == front.filter_map(pick_todo(id)) + fresh.take(k).map_values(
            |t: OwnedTodo| t.item,
        ),
        (front + fresh.take(k)).filter_map(pick_todo(other)) == front.filter_map(pick_todo(other)),
    decreases k,
{
    let items = |t: OwnedTodo| t.item;
    if k == 0 {
        assert(front + fresh.take(0) =~= front);
        assert(front.filter_map(pick_todo(id)) + fresh.take(0).map_values(items) =~= front.filter_map(pick_todo(id)));
    } else {
        lemma_behind(front, fresh, id, other, k - 1);
        let s = front + fresh.take(k);
        assert(s.drop_last() =~= front + fresh.take(k - 1));
        assert(s.last() == fresh[k - 1]);
        assert(fresh.take(k).map_values(items) =~= fresh.take(k - 1).map_values(items).push(fresh[k - 1].item));
        assert(s.filter_map(pick_todo(id)) =~= front.filter_map(pick_todo(id)) + fresh.take(k).map_values(items));
    }
}

/// A todo list that was set is shown with its items open, in the order in which they were given, at the
/// positions from 0 on; the todo lists of other tasks are as before.
pub proof fn law_todo_list_is_replaced(l: Ledger, now: i64, id: Text, items: Seq<Text>, safe: Seq<Text>, other: Text)
    requires
        l.wf(),
        l.todos_set(now, id, items, safe).1 is Ok,
        other != id,
    ensures
        ({
            let (m, r) = l.todos_set(now, id, items, safe);
            &&& r->Ok_0 == m.todos_of(id)
            &&& m.todos_of(id).len() == safe.len()
            &&& forall|k: int|
                0 <= k < safe.len() ==> {
                    let t = #[trigger] m.todos_of(id)[k];
                    &&& t.position == k
                    &&& t.status == "open"@
                    &&& t.text == safe[k]
                    &&& t.todo_id == l.todo_seq + 1 + k
                    &&& t.created_at == now
                    &&& t.updated_at == now
                }
            &&& m.todos_of(other) == l.todos_of(other)
        }),
{
    let m = l.with_todos(now, id, safe);
    let front = l.todos.filter_map(pick_others(id));
    let fresh = fresh_todos(id, safe, now, l.todo_seq);
    let n = fresh.len() as int;
    lemma_others_only(l.todos, id);
    lemma_others_kept(l.todos, id, other);
    lemma_behind(front, fresh, id, other, n);
    assert(fresh.take(n) =~= fresh);
    let rows = fresh.map_values(|t: OwnedTodo| t.item);
    assert(m.todos.filter_map(pick_todo(id)) =~= rows);
    assert forall|i: int, j: int| 0 <= i < j < rows.len() implies !position_key()(#[trigger] rows[j]).before(
        position_key()(#[trigger] rows[i]),
    ) by {
        assert(rows[i].position == i && rows[j].position == j);
    }
    ordering::law_sorted_lists_stay(rows, position_key());
}

} // verus!
