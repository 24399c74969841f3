//! Reading the ledger: single tasks, listings, events and exports.
use vstd::prelude::*;
use crate::coordinator::ledger::{Ledger, TaskStore};
use crate::coordinator::model::{
    self, AttemptRec, AttemptView, CoordinatorError, CursorRec, EventRec, ExportRec, Fault, OwnedAttempt, OwnedEvent, PageRec,
    StuckRec, StuckTaskRow, SummaryRec, TaskCursor, TaskDetail, TaskEvent, TaskExport, TaskPage, TaskRec, TaskSummary,
    TaskView,
};
use crate::coordinator::vocab::EventOrder;
use crate::listing;
use crate::numeral;
use crate::ordering::{self, KeyRec, SortKey};
use crate::outside;
use crate::text::{self, Text};

verus! {

/// The events of a task.
pub open spec fn pick_own(id: Text) -> spec_fn(OwnedEvent) -> Option<EventRec> {
    |e: OwnedEvent| if e.task_id == id { Some(e.event) } else { None }
}

/// The events of a task behind an event id, of one type where one is given.
pub open spec fn pick_event(id: Text, after: i64, kind: Option<Text>) -> spec_fn(OwnedEvent) -> Option<EventRec> {
    |e: OwnedEvent|
        if e.task_id == id && e.event.event_id > after && (kind is None || e.event.event_type == kind->0) {
            Some(e.event)
        } else {
            None
        }
}

/// The events of all tasks behind an event id, of one type where one is given.
pub open spec fn pick_any_event(after: i64, kind: Option<Text>) -> spec_fn(OwnedEvent) -> Option<OwnedEvent> {
    |e: OwnedEvent|
        if e.event.event_id > after && (kind is None || e.event.event_type == kind->0) {
            Some(e)
        } else {
            None
        }
}

/// The attempts of a task.
pub open spec fn pick_attempt(id: Text) -> spec_fn(OwnedAttempt) -> Option<AttemptRec> {
    |a: OwnedAttempt| if a.task_id == id { Some(a.attempt) } else { None }
}

/// The compact form of a task; the marker only where it is asked for.
pub open spec fn summary(t: TaskRec, with_marker: bool) -> SummaryRec {
    SummaryRec {
        task_id: t.head.task_id,
        title: t.head.title,
        status: t.head.status,
        updated_at: t.head.updated_at,
        investigation_marked_at: if with_marker {
            t.head.investigation_marked_at
        } else {
            None
        },
    }
}

/// Whether a row stands behind a cursor in the listing, newest first.
pub open spec fn behind_cursor(t: TaskRec, c: Option<CursorRec>) -> bool {
    match c {
        Some(c) => t.head.updated_at < c.updated_at || (t.head.updated_at == c.updated_at && ordering::text_before(
            t.head.task_id,
            c.task_id,
        )),
        None => true,
    }
}

/// The compact forms of the tasks with a status, where one is given.
pub open spec fn pick_summary(status: Option<Text>) -> spec_fn(TaskRec) -> Option<SummaryRec> {
    |t: TaskRec| if status is None || t.head.status == status->0 { Some(summary(t, false)) } else { None }
}

/// The compact forms of the tasks behind a cursor with a status, where one is given.
pub open spec fn pick_page(cursor: Option<CursorRec>, status: Option<Text>) -> spec_fn(TaskRec) -> Option<SummaryRec> {
    |t: TaskRec|
        if (status is None || t.head.status == status->0) && behind_cursor(t, cursor) {
            Some(summary(t, true))
        } else {
            None
        }
}

/// The key of a listing by time, newest first.
pub open spec fn newest_key() -> spec_fn(SummaryRec) -> KeyRec {
    |s: SummaryRec| KeyRec { num: -(s.updated_at as int), name: Seq::empty() }
}

/// The key of a listing by time and id.
pub open spec fn cursor_key() -> spec_fn(SummaryRec) -> KeyRec {
    |s: SummaryRec| KeyRec { num: s.updated_at as int, name: s.task_id }
}

/// What a delegation executor is handed of a task: id, parameters and owner.
pub struct DelegatedRec {
    pub task_id: Text,
    pub params_json: Text,
    pub owner_subject_id: Text,
    pub created_at: i64,
}

pub open spec fn pick_delegated() -> spec_fn(TaskRec) -> Option<DelegatedRec> {
    |t: TaskRec|
        if t.head.origin_surface == Some("delegation"@) && t.head.status == "pending"@ {
            Some(
                DelegatedRec {
                    task_id: t.head.task_id,
                    params_json: t.head.params_json,
                    owner_subject_id: t.head.owner_subject_id,
                    created_at: t.head.created_at,
                },
            )
        } else {
            None
        }
}

pub open spec fn delegated_key() -> spec_fn(DelegatedRec) -> KeyRec {
    |d: DelegatedRec| KeyRec { num: d.created_at as int, name: Seq::empty() }
}

/// A number cut to what an `i64` holds.
pub open spec fn clipped(n: int) -> i64 {
    if n > i64::MAX {
        i64::MAX
    } else if n < i64::MIN {
        i64::MIN
    } else {
        n as i64
    }
}

pub(crate) fn clip(n: i128) -> (r: i64)
    ensures
        r == clipped(n as int),
{
    if n > i64::MAX as i128 {
        i64::MAX
    } else if n < i64::MIN as i128 {
        i64::MIN
    } else {
        n as i64
    }
}

pub open spec fn stuck_key() -> spec_fn(StuckRec) -> KeyRec {
    |s: StuckRec| KeyRec { num: s.started_at as int, name: Seq::empty() }
}

/// How many rows a listing skips: an offset that does not fit a signed number counts as none.
pub open spec fn skipped(offset: usize) -> int {
    if offset > i64::MAX {
        0
    } else {
        offset as int
    }
}

impl Ledger {
    /// One task and its events.
    pub open spec fn detail(self, id: Text) -> Option<TaskDetail> {
        if self.has(id) {
            Some(TaskDetail { head: self.head(id), events: self.events.filter_map(pick_own(id)) })
        } else {
            None
        }
    }

    /// What an event query returns.
    pub open spec fn queried(self, id: Text, after: i64, limit: usize, kind: Option<Text>, order: EventOrder) -> Result<
        Seq<EventRec>,
        Fault,
    > {
        if !self.has(id) {
            Err(Fault::NotFound(id))
        } else {
            let all = self.events.filter_map(pick_event(id, after, text::non_empty(kind)));
            let cap = listing::bounded(limit, self.max_list) as int;
            Ok(
                match order {
                    EventOrder::Asc => listing::first(all, cap),
                    EventOrder::Desc => listing::first(all.reverse(), cap),
                },
            )
        }
    }

    /// The newest events of all tasks.
    pub open spec fn recent_events(self, since: i64, limit: usize, kind: Option<Text>) -> Seq<OwnedEvent> {
        listing::first(
            self.events.filter_map(pick_any_event(since, text::non_empty(kind))).reverse(),
            listing::bounded(limit, self.max_list) as int,
        )
    }

    /// The attempts of a task in the order in which they were opened.
    pub open spec fn attempts_of(self, id: Text) -> Seq<AttemptRec> {
        self.attempts.filter_map(pick_attempt(id))
    }

    /// A page of the tasks, most recently updated first.
    pub open spec fn listed(self, limit: usize, offset: usize, status: Option<Text>) -> Seq<SummaryRec> {
        listing::first(
            listing::behind(
                ordering::sorted_by_key(self.tasks.filter_map(pick_summary(status)), newest_key()),
                skipped(offset),
            ),
            listing::lesser(limit, self.max_list) as int,
        )
    }

    /// A page of the tasks behind a cursor, most recently updated first, equal times by id downwards.
    pub open spec fn page(self, cursor: Option<CursorRec>, limit: usize, status: Option<Text>) -> PageRec {
        let items = listing::first(
            ordering::sorted_by_key(self.tasks.filter_map(pick_page(cursor, status)), cursor_key()).reverse(),
            listing::bounded(limit, self.max_list) as int,
        );
        PageRec {
            items,
            next_cursor: if items.len() > 0 {
                Some(CursorRec { updated_at: items.last().updated_at, task_id: items.last().task_id })
            } else {
                None
            },
        }
    }

    /// How many tasks there are with a status, where one is given.
    pub open spec fn counted(self, status: Option<Text>) -> int {
        self.tasks.filter_map(pick_summary(status)).len() as int
    }

    /// Pending tasks that were delegated, oldest first, up to a limit.
    pub open spec fn delegated(self, limit: usize) -> Seq<DelegatedRec> {
        listing::first(
            ordering::sorted_by_key(self.tasks.filter_map(pick_delegated()), delegated_key()),
            listing::lesser(limit, self.max_list) as int,
        )
    }

    /// The tasks without a deadline that have been running for longer than the threshold.
    pub open spec fn pick_stuck(self, now: i64, threshold: i64) -> spec_fn(TaskRec) -> Option<StuckRec> {
        |t: TaskRec|
            {
                let start = self.run_start(t.head);
                if t.head.status == "running"@ && t.head.max_runtime_secs is None && start is Some && start->0 < now
                    - if threshold > 0 { threshold as int } else { 0 } {
                    Some(
                        StuckRec {
                            task_id: t.head.task_id,
                            title: t.head.title,
                            started_at: start->0,
                            current_attempt_id: t.head.current_attempt_id,
                            age_secs: clipped(now - start->0),
                        },
                    )
                } else {
                    None
                }
            }
    }

    /// The same, the longest running first.
    pub open spec fn stuck(self, now: i64, threshold: i64) -> Seq<StuckRec> {
        ordering::sorted_by_key(self.tasks.filter_map(self.pick_stuck(now, threshold)), stuck_key())
    }

    /// What an export returns.
    pub open spec fn exported(self, now: i64, id: Text) -> Result<ExportRec, Fault> {
        match self.detail(id) {
            Some(view) => Ok(
                ExportRec { schema_version: 1, exported_at: now, task_id: id, view, attempts: self.attempts_of(id) },
            ),
            None => Err(Fault::NotFound(id)),
        }
    }
}

/// The model of an optional cursor.
pub open spec fn cursor_rec(c: Option<TaskCursor>) -> Option<CursorRec> {
    match c {
        Some(c) => Some(c@),
        None => None,
    }
}

impl CursorRec {
    /// A cursor as it is written on the wire.
    pub open spec fn wire(self) -> Text {
        numeral::dec(self.updated_at as int) + ":"@ + self.task_id
    }

    /// The cursor that a text stands for.
    pub open spec fn of_wire(t: Text) -> Option<CursorRec> {
        match text::split_once(t, ':') {
            Some((ts, id)) => match numeral::parse_i64(ts) {
                Some(n) => if id.len() > 0 {
                    Some(CursorRec { updated_at: n, task_id: id })
                } else {
                    None
                },
                None => None,
            },
            None => None,
        }
    }
}

impl TaskCursor {
    /// Writes the cursor as `<updated_at>:<task_id>`.
    pub fn encode(&self) -> (r: String)
        ensures
            r@ == self@.wire(),
    {
        let mut s = numeral::i64_text(self.updated_at);
        s.append(":");
        s.append(self.task_id.as_str());
        s
    }

    /// Reads a cursor; `None` where the text is malformed.
    pub fn parse(s: &str) -> (r: Option<Self>)
        ensures
            cursor_rec(r) == CursorRec::of_wire(s@),
    {
        match text::cut_once(s, ':') {
            Some((ts, id)) => match numeral::read_i64(ts.as_str()) {
                Some(n) => if id.as_str().is_empty() {
                    None
                } else {
                    Some(TaskCursor { updated_at: n, task_id: id })
                },
                None => None,
            },
            None => None,
        }
    }
}

/// A cursor with a task id is read back as it was written.
pub proof fn law_cursor_round_trip(c: CursorRec)
    requires
        c.task_id.len() > 0,
    ensures
        CursorRec::of_wire(c.wire()) == Some(c),
{
    let n = numeral::dec(c.updated_at as int);
    let t = c.wire();
    reveal_strlit(":");
    assert(":"@ =~= seq![':']);
    numeral::lemma_dec_chars(c.updated_at as int);
    numeral::law_i64_round_trip(c.updated_at);
    let k = n.len() as int;
    assert(t[k] == ':');
    assert forall|i: int| 0 <= i < k implies t[i] != ':' by {
        assert(t[i] == n[i]);
    }
    text::lemma_index_from(t, ':', 0);
    assert(text::index_of(t, ':') == k);
    assert(t.take(k) =~= n);
    assert(t.skip(k + 1) =~= c.task_id);
}

fn summary_row(t: &model::TaskRow, with_marker: bool) -> (r: TaskSummary)
    ensures
        r@ == summary(t@, with_marker),
{
    TaskSummary {
        task_id: t.head.task_id.clone(),
        title: t.head.title.clone(),
        status: t.head.status.clone(),
        updated_at: t.head.updated_at,
        investigation_marked_at: if with_marker {
            t.head.investigation_marked_at
        } else {
            None
        },
    }
}

fn status_matches(t: &model::TaskRow, status: Option<&str>) -> (r: bool)
    ensures
        r == (text::opt_slice(status) is None || t@.head.status == text::opt_slice(status)->0),
{
    match status {
        Some(s) => text::same(t.head.status.as_str(), s),
        None => true,
    }
}

fn is_behind(t: &model::TaskRow, cursor: &Option<TaskCursor>) -> (r: bool)
    ensures
        r == behind_cursor(t@, cursor_rec(*cursor)),
{
    match cursor {
        Some(c) => t.head.updated_at < c.updated_at || (t.head.updated_at == c.updated_at && ordering::is_before(
            t.head.task_id.as_str(),
            c.task_id.as_str(),
        )),
        None => true,
    }
}

/// The summaries in the order of their keys.
fn arrange_summaries(rows: &Vec<TaskSummary>, keys: &Vec<SortKey>, Ghost(key): Ghost<spec_fn(SummaryRec) -> KeyRec>) -> (r: Vec<
    TaskSummary,
>)
    requires
        ordering::key_recs(keys@) == model::views(rows@).map_values(key),
    ensures
        model::views(r@) == ordering::sorted_by_key(model::views(rows@), key),
{
    let places = ordering::sort_places(keys);
    assert(ordering::key_recs(keys@).len() == keys@.len());
    assert(model::views(rows@).map_values(key).len() == rows@.len());
    let mut out: Vec<TaskSummary> = Vec::new();
    let mut i: usize = 0;
    let ghost all = ordering::sorted_by_key(model::views(rows@), key);
    let ghost order = ordering::as_places(places@);
    assert(all.len() == places@.len());
    while i < places.len()
        invariant
            i <= places@.len(),
            places@.len() == rows@.len(),
            all.len() == places@.len(),
            order == ordering::as_places(places@),
            all == order.map_values(|p: int| model::views(rows@)[p]),
            forall|k: int| 0 <= k < places@.len() ==> (#[trigger] places@[k]) < rows@.len(),
            model::views(out@) == all.take(i as int),
        decreases places@.len() - i,
    {
        let row = rows[places[i]].dup();
        let ghost before = model::views(out@);
        assert(all[i as int] == row@);
        out.push(row);
        assert(model::views(out@) =~= before.push(row@));
        assert(all.take(i + 1) =~= all.take(i as int).push(all[i as int]));
        i = i + 1;
    }
    assert(all.take(places@.len() as int) =~= all);
    out
}

impl TaskStore {
    /// The events of a task.
    pub(crate) fn events_of(&self, task_id: &str) -> (r: Vec<TaskEvent>)
        ensures
            model::views(r@) == self@.events.filter_map(pick_own(task_id@)),
    {
        let ghost f = pick_own(task_id@);
        let mut out: Vec<TaskEvent> = Vec::new();
        let mut i: usize = 0;
        assert(model::views(out@) =~= self@.events.take(0).filter_map(f));
        while i < self.events.len()
            invariant
                i <= self.events@.len(),
                f == pick_own(task_id@),
                model::views(out@) == self@.events.take(i as int).filter_map(f),
            decreases self.events@.len() - i,
        {
            proof {
                self@.events.lemma_filter_map_take_succ(f, i as int);
            }
            let ghost before = model::views(out@);
            let row = &self.events[i];
            assert(row@ == self@.events[i as int]);
            if text::same(row.task_id.as_str(), task_id) {
                out.push(row.event.dup());
                assert(model::views(out@) =~= before + seq![row@.event]);
            } else {
                assert(before =~= before + Seq::<EventRec>::empty());
            }
            i = i + 1;
        }
        assert(self@.events.take(self@.events.len() as int) =~= self@.events);
        out
    }

    /// One task plus its event chronicle; `None` where the id is unknown.
    pub fn get(&self, task_id: &str) -> (r: Result<Option<TaskView>, CoordinatorError>)
        ensures
            r matches Ok(v) && (match v {
                Some(x) => Some(x@),
                None => None,
            }) == self@.detail(task_id@),
    {
        let i = self.find_index(task_id);
        if i >= self.tasks.len() {
            return Ok(None);
        }
        assert(self.tasks@[i as int]@ == self@.tasks[i as int]);
        let events = self.events_of(task_id);
        Ok(Some(self.tasks[i].head.with_events(events)))
    }

    /// A slice of a task's chronicle, oldest first.
    pub fn list_events_after(&self, task_id: &str, after_id: i64, limit: usize) -> (r: Result<
        Vec<TaskEvent>,
        CoordinatorError,
    >)
        ensures
            model::seen_rows(r) == self@.queried(task_id@, after_id, limit, None, EventOrder::Asc),
    {
        self.query_events(task_id, after_id, limit, None, EventOrder::Asc)
    }

    /// Events of a task behind an id, of one type where one is given, in either order.
    pub fn query_events(
        &self,
        task_id: &str,
        after_id: i64,
        limit: usize,
        type_filter: Option<&str>,
        order: EventOrder,
    ) -> (r: Result<Vec<TaskEvent>, CoordinatorError>)
        ensures
            model::seen_rows(r) == self@.queried(task_id@, after_id, limit, text::opt_slice(type_filter), order),
    {
        if self.find_index(task_id) >= self.tasks.len() {
            return Err(CoordinatorError::NotFound(text::owned(task_id)));
        }
        let cap = listing::bound(limit, self.max_list);
        let kind = text::filled_opt(type_filter);
        let ghost f = pick_event(task_id@, after_id, text::opt_slice(kind));
        let mut out: Vec<TaskEvent> = Vec::new();
        let mut i: usize = 0;
        assert(model::views(out@) =~= self@.events.take(0).filter_map(f));
        while i < self.events.len()
            invariant
                i <= self.events@.len(),
                f == pick_event(task_id@, after_id, text::opt_slice(kind)),
                model::views(out@) == self@.events.take(i as int).filter_map(f),
            decreases self.events@.len() - i,
        {
            proof {
                self@.events.lemma_filter_map_take_succ(f, i as int);
            }
            let ghost before = model::views(out@);
            let row = &self.events[i];
            assert(row@ == self@.events[i as int]);
            let of_kind = match kind {
                Some(k) => text::same(row.event.event_type.as_str(), k),
                None => true,
            };
            if text::same(row.task_id.as_str(), task_id) && row.event.event_id > after_id && of_kind {
                out.push(row.event.dup());
                assert(model::views(out@) =~= before + seq![row@.event]);
            } else {
                assert(before =~= before + Seq::<EventRec>::empty());
            }
            i = i + 1;
        }
        assert(self@.events.take(self@.events.len() as int) =~= self@.events);
        let ghost all = model::views(out@);
        let ordered = match order {
            EventOrder::Asc => out,
            EventOrder::Desc => listing::newest_first(out),
        };
        assert(order is Desc ==> model::views(ordered@) =~= all.reverse());
        let r = listing::keep_first(ordered, cap);
        assert(model::views(r@) =~= listing::first(model::views(ordered@), cap as int));
        Ok(r)
    }

    /// The newest events of all tasks behind an id, each with the task it belongs to.
    pub fn recent_events_cross_task(&self, since_event_id: i64, limit: usize, event_type_filter: Option<&str>) -> (r: Result<
        Vec<(String, TaskEvent)>,
        CoordinatorError,
    >)
        ensures
            r matches Ok(v) && owned_events(v@) == self@.recent_events(
                since_event_id,
                limit,
                text::opt_slice(event_type_filter),
            ),
    {
        let cap = listing::bound(limit, self.max_list);
        let kind = text::filled_opt(event_type_filter);
        let ghost f = pick_any_event(since_event_id, text::opt_slice(kind));
        let mut out: Vec<(String, TaskEvent)> = Vec::new();
        let mut i: usize = 0;
        assert(owned_events(out@) =~= self@.events.take(0).filter_map(f));
        while i < self.events.len()
            invariant
                i <= self.events@.len(),
                f == pick_any_event(since_event_id, text::opt_slice(kind)),
                owned_events(out@) == self@.events.take(i as int).filter_map(f),
            decreases self.events@.len() - i,
        {
            proof {
                self@.events.lemma_filter_map_take_succ(f, i as int);
            }
            let ghost before = owned_events(out@);
            let row = &self.events[i];
            assert(row@ == self@.events[i as int]);
            let of_kind = match kind {
                Some(k) => text::same(row.event.event_type.as_str(), k),
                None => true,
            };
            if row.event.event_id > since_event_id && of_kind {
                out.push((row.task_id.clone(), row.event.dup()));
                assert(owned_events(out@) =~= before + seq![row@]);
            } else {
                assert(before =~= before + Seq::<OwnedEvent>::empty());
            }
            i = i + 1;
        }
        assert(self@.events.take(self@.events.len() as int) =~= self@.events);
        let ghost all = owned_events(out@);
        let newest = listing::newest_first(out);
        assert(owned_events(newest@) =~= all.reverse());
        let r = listing::keep_first(newest, cap);
        assert(owned_events(r@) =~= listing::first(owned_events(newest@), cap as int));
        Ok(r)
    }

    /// All attempts of a task in the order in which they were opened.
    pub fn list_attempts(&self, task_id: &str) -> (r: Result<Vec<AttemptView>, CoordinatorError>)
        ensures
            model::seen_rows(r) == Ok::<Seq<AttemptRec>, Fault>(self@.attempts_of(task_id@)),
    {
        let ghost f = pick_attempt(task_id@);
        let mut out: Vec<AttemptView> = Vec::new();
        let mut i: usize = 0;
        assert(model::views(out@) =~= self@.attempts.take(0).filter_map(f));
        while i < self.attempts.len()
            invariant
                i <= self.attempts@.len(),
                f == pick_attempt(task_id@),
                model::views(out@) == self@.attempts.take(i as int).filter_map(f),
            decreases self.attempts@.len() - i,
        {
            proof {
                self@.attempts.lemma_filter_map_take_succ(f, i as int);
            }
            let ghost before = model::views(out@);
            let row = &self.attempts[i];
            assert(row@ == self@.attempts[i as int]);
            if text::same(row.task_id.as_str(), task_id) {
                out.push(row.attempt.dup());
                assert(model::views(out@) =~= before + seq![row@.attempt]);
            } else {
                assert(before =~= before + Seq::<AttemptRec>::empty());
            }
            i = i + 1;
        }
        assert(self@.attempts.take(self@.attempts.len() as int) =~= self@.attempts);
        Ok(out)
    }

    fn summaries(&self, status_filter: Option<&str>) -> (r: Vec<TaskSummary>)
        ensures
            model::views(r@) == self@.tasks.filter_map(pick_summary(text::opt_slice(status_filter))),
    {
        let ghost f = pick_summary(text::opt_slice(status_filter));
        let mut out: Vec<TaskSummary> = Vec::new();
        let mut i: usize = 0;
        assert(model::views(out@) =~= self@.tasks.take(0).filter_map(f));
        while i < self.tasks.len()
            invariant
                i <= self.tasks@.len(),
                f == pick_summary(text::opt_slice(status_filter)),
                model::views(out@) == self@.tasks.take(i as int).filter_map(f),
            decreases self.tasks@.len() - i,
        {
            proof {
                self@.tasks.lemma_filter_map_take_succ(f, i as int);
            }
            let ghost before = model::views(out@);
            let row = &self.tasks[i];
            assert(row@ == self@.tasks[i as int]);
            if status_matches(row, status_filter) {
                out.push(summary_row(row, false));
                assert(model::views(out@) =~= before + seq![summary(row@, false)]);
            } else {
                assert(before =~= before + Seq::<SummaryRec>::empty());
            }
            i = i + 1;
        }
        assert(self@.tasks.take(self@.tasks.len() as int) =~= self@.tasks);
        out
    }

    /// Most recently updated tasks first.
    pub fn list(&self, limit: usize) -> (r: Result<Vec<TaskSummary>, CoordinatorError>)
        ensures
            model::seen_rows(r) == Ok::<Seq<SummaryRec>, Fault>(self@.listed(limit, 0, None)),
    {
        self.list_paginated(limit, 0, None)
    }

    /// Most recently updated tasks first, with an offset and a status filter; no more rows than asked for.
    pub fn list_paginated(&self, limit: usize, offset: usize, status_filter: Option<&str>) -> (r: Result<
        Vec<TaskSummary>,
        CoordinatorError,
    >)
        ensures
            model::seen_rows(r) == Ok::<Seq<SummaryRec>, Fault>(
                self@.listed(limit, offset, text::opt_slice(status_filter)),
            ),
    {
        let cap = listing::smaller(limit, self.max_list);
        let rows = self.summaries(status_filter);
        let mut keys: Vec<SortKey> = Vec::new();
        let mut i: usize = 0;
        while i < rows.len()
            invariant
                i <= rows@.len(),
                keys@.len() == i,
                forall|k: int|
                    0 <= k < i ==> (#[trigger] keys@[k])@ == newest_key()(rows@[k]@),
            decreases rows@.len() - i,
        {
            let key = SortKey { num: -(rows[i].updated_at as i128), name: String::new() };
            assert(key@.name =~= Seq::empty());
            keys.push(key);
            i = i + 1;
        }
        assert(ordering::key_recs(keys@) =~= model::views(rows@).map_values(newest_key()));
        let sorted = arrange_summaries(&rows, &keys, Ghost(newest_key()));
        let skip: usize = if offset as u128 > i64::MAX as u128 {
            0
        } else {
            offset
        };
        let ghost all = model::views(sorted@);
        let mut out: Vec<TaskSummary> = Vec::new();
        let mut j: usize = skip;
        let ghost rest = listing::behind(all, skip as int);
        assert(model::views(out@) =~= rest.take(0));
        while j < sorted.len()
            invariant
                skip <= j,
                all == model::views(sorted@),
                rest == listing::behind(all, skip as int),
                j <= sorted@.len() || j == skip,
                skip <= sorted@.len() ==> model::views(out@) == rest.take(j - skip),
                skip > sorted@.len() ==> out@.len() == 0,
            decreases sorted@.len() - j,
        {
            out.push(sorted[j].dup());
            assert(rest[j - skip] == all[j as int]);
            assert(model::views(out@) =~= rest.take(j - skip + 1));
            j = j + 1;
        }
        assert(model::views(out@) =~= rest);
        let r = listing::keep_first(out, cap);
        assert(model::views(r@) =~= listing::first(rest, cap as int));
        Ok(r)
    }

    /// A page of the listing that is stable while tasks are added and updated.
    pub fn list_cursor(&self, cursor: Option<TaskCursor>, limit: usize, status_filter: Option<&str>) -> (r: Result<
        TaskPage,
        CoordinatorError,
    >)
        ensures
            model::seen(r) == Ok::<PageRec, Fault>(
                self@.page(cursor_rec(cursor), limit, text::opt_slice(status_filter)),
            ),
    {
        let cap = listing::bound(limit, self.max_list);
        let ghost from = cursor_rec(cursor);
        let ghost f = pick_page(from, text::opt_slice(status_filter));
        let mut rows: Vec<TaskSummary> = Vec::new();
        let mut keys: Vec<SortKey> = Vec::new();
        let mut i: usize = 0;
        assert(model::views(rows@) =~= self@.tasks.take(0).filter_map(f));
        while i < self.tasks.len()
            invariant
                i <= self.tasks@.len(),
                from == cursor_rec(cursor),
                f == pick_page(from, text::opt_slice(status_filter)),
                model::views(rows@) == self@.tasks.take(i as int).filter_map(f),
                keys@.len() == rows@.len(),
                forall|k: int| 0 <= k < keys@.len() ==> (#[trigger] keys@[k])@ == cursor_key()(rows@[k]@),
            decreases self.tasks@.len() - i,
        {
            proof {
                self@.tasks.lemma_filter_map_take_succ(f, i as int);
            }
            let ghost before = model::views(rows@);
            let row = &self.tasks[i];
            assert(row@ == self@.tasks[i as int]);
            if status_matches(row, status_filter) && is_behind(row, &cursor) {
                let s = summary_row(row, true);
                keys.push(SortKey { num: s.updated_at as i128, name: s.task_id.clone() });
                rows.push(s);
                assert(model::views(rows@) =~= before + seq![summary(row@, true)]);
            } else {
                assert(before =~= before + Seq::<SummaryRec>::empty());
            }
            i = i + 1;
        }
        assert(self@.tasks.take(self@.tasks.len() as int) =~= self@.tasks);
        assert(ordering::key_recs(keys@) =~= model::views(rows@).map_values(cursor_key()));
        let sorted = arrange_summaries(&rows, &keys, Ghost(cursor_key()));
        let ghost all = model::views(sorted@);
        let newest = listing::newest_first(sorted);
        assert(model::views(newest@) =~= all.reverse());
        let items = listing::keep_first(newest, cap);
        assert(model::views(items@) =~= listing::first(all.reverse(), cap as int));
        let n = items.len();
        let next_cursor = if n > 0 {
            Some(TaskCursor { updated_at: items[n - 1].updated_at, task_id: items[n - 1].task_id.clone() })
        } else {
            None
        };
        Ok(TaskPage { items, next_cursor })
    }

    /// Number of tasks, with a status where one is given.
    pub fn count(&self, status_filter: Option<&str>) -> (r: Result<i64, CoordinatorError>)
        requires
            self@.tasks.len() <= i64::MAX,
        ensures
            r matches Ok(n) && n == self@.counted(text::opt_slice(status_filter)),
    {
        let rows = self.summaries(status_filter);
        proof {
            lemma_filter_map_len(self@.tasks, pick_summary(text::opt_slice(status_filter)));
            assert(model::views(rows@).len() == rows@.len());
        }
        Ok(rows.len() as i64)
    }

    /// Up to `limit` pending delegated tasks, oldest first: id, parameters and owner of each.
    pub fn list_pending_delegated(&self, limit: usize) -> (r: Result<Vec<(String, String, String)>, CoordinatorError>)
        ensures
            r matches Ok(v) && v@.len() == self@.delegated(limit).len() && forall|k: int|
                0 <= k < v@.len() ==> {
                    let d = self@.delegated(limit)[k];
                    (#[trigger] v@[k]).0@ == d.task_id && v@[k].1@ == d.params_json && v@[k].2@ == d.owner_subject_id
                },
    {
        let cap = listing::smaller(limit, self.max_list);
        let ghost f = pick_delegated();
        let ghost mut recs: Seq<DelegatedRec> = Seq::empty();
        let mut rows: Vec<(String, String, String)> = Vec::new();
        let mut keys: Vec<SortKey> = Vec::new();
        let mut i: usize = 0;
        assert(recs =~= self@.tasks.take(0).filter_map(f));
        while i < self.tasks.len()
            invariant
                i <= self.tasks@.len(),
                f == pick_delegated(),
                recs == self@.tasks.take(i as int).filter_map(f),
                keys@.len() == recs.len(),
                rows@.len() == recs.len(),
                forall|k: int| 0 <= k < keys@.len() ==> (#[trigger] keys@[k])@ == delegated_key()(recs[k]),
                forall|k: int|
                    0 <= k < rows@.len() ==> (#[trigger] rows@[k]).0@ == recs[k].task_id && rows@[k].1@
                        == recs[k].params_json && rows@[k].2@ == recs[k].owner_subject_id,
            decreases self.tasks@.len() - i,
        {
            proof {
                self@.tasks.lemma_filter_map_take_succ(f, i as int);
            }
            let row = &self.tasks[i];
            assert(row@ == self@.tasks[i as int]);
            if text::same_opt(text::slice_opt(&row.head.origin_surface), Some("delegation")) && text::same(
                row.head.status.as_str(),
                "pending",
            ) {
                let key = SortKey { num: row.head.created_at as i128, name: String::new() };
                assert(key@.name =~= Seq::empty());
                keys.push(key);
                rows.push((row.head.task_id.clone(), row.head.params_json.clone(), row.head.owner_subject_id.clone()));
                proof {
                    recs = recs + seq![f(row@)->0];
                }
            } else {
                assert(recs =~= recs + Seq::<DelegatedRec>::empty());
            }
            i = i + 1;
        }
        assert(self@.tasks.take(self@.tasks.len() as int) =~= self@.tasks);
        assert(ordering::key_recs(keys@) =~= recs.map_values(delegated_key()));
        let places = ordering::sort_places(&keys);
        let ghost all = ordering::sorted_by_key(recs, delegated_key());
        assert(all.len() == places@.len());
        let mut out: Vec<(String, String, String)> = Vec::new();
        let mut j: usize = 0;
        while j < places.len() && j < cap
            invariant
                j <= places@.len(),
                j <= cap,
                out@.len() == j,
                rows@.len() == recs.len(),
                places@.len() == rows@.len(),
                all.len() == places@.len(),
                all == ordering::as_places(places@).map_values(|p: int| recs[p]),
                forall|k: int| 0 <= k < places@.len() ==> (#[trigger] places@[k]) < rows@.len(),
                forall|k: int|
                    0 <= k < rows@.len() ==> (#[trigger] rows@[k]).0@ == recs[k].task_id && rows@[k].1@
                        == recs[k].params_json && rows@[k].2@ == recs[k].owner_subject_id,
                forall|k: int|
                    0 <= k < out@.len() ==> (#[trigger] out@[k]).0@ == all[k].task_id && out@[k].1@ == all[k].params_json
                        && out@[k].2@ == all[k].owner_subject_id,
            decreases places@.len() - j,
        {
            let row = &rows[places[j]];
            assert(all[j as int] == recs[places@[j as int] as int]);
            out.push((row.0.clone(), row.1.clone(), row.2.clone()));
            j = j + 1;
        }
        Ok(out)
    }

    /// Tasks without a deadline that have been running longer than a threshold, the longest first.
    pub fn stuck_running(&self, now_secs: i64, stuck_threshold_secs: i64) -> (r: Result<
        Vec<StuckTaskRow>,
        CoordinatorError,
    >)
        requires
            self.wf(),
        ensures
            model::seen_rows(r) == Ok::<Seq<StuckRec>, Fault>(self@.stuck(now_secs, stuck_threshold_secs)),
    {
        let ghost f = self@.pick_stuck(now_secs, stuck_threshold_secs);
        let threshold: i128 = if stuck_threshold_secs > 0 {
            stuck_threshold_secs as i128
        } else {
            0
        };
        let cutoff: i128 = now_secs as i128 - threshold;
        let mut rows: Vec<StuckTaskRow> = Vec::new();
        let mut keys: Vec<SortKey> = Vec::new();
        let mut i: usize = 0;
        assert(model::views(rows@) =~= self@.tasks.take(0).filter_map(f));
        while i < self.tasks.len()
            invariant
                self.wf(),
                i <= self.tasks@.len(),
                cutoff == now_secs - if stuck_threshold_secs > 0 { stuck_threshold_secs as int } else { 0 },
                f == self@.pick_stuck(now_secs, stuck_threshold_secs),
                model::views(rows@) == self@.tasks.take(i as int).filter_map(f),
                keys@.len() == rows@.len(),
                forall|k: int| 0 <= k < keys@.len() ==> (#[trigger] keys@[k])@ == stuck_key()(rows@[k]@),
            decreases self.tasks@.len() - i,
        {
            proof {
                self@.tasks.lemma_filter_map_take_succ(f, i as int);
            }
            let ghost before = model::views(rows@);
            let row = &self.tasks[i];
            assert(row@ == self@.tasks[i as int]);
            let start = self.run_start_of(i);
            let mut hit: Option<i64> = None;
            if let Some(s) = start {
                if text::same(row.head.status.as_str(), "running") && row.head.max_runtime_secs.is_none() && (s as i128)
                    < cutoff {
                    hit = Some(s);
                }
            }
            match hit {
                Some(s) => {
                    let item = StuckTaskRow {
                        task_id: row.head.task_id.clone(),
                        title: row.head.title.clone(),
                        started_at: s,
                        current_attempt_id: row.head.current_attempt_id,
                        age_secs: clip(now_secs as i128 - s as i128),
                    };
                    let key = SortKey { num: s as i128, name: String::new() };
                    assert(key@.name =~= Seq::empty());
                    keys.push(key);
                    assert(f(row@) == Some(item@));
                    rows.push(item);
                    assert(model::views(rows@) =~= before + seq![item@]);
                },
                None => {
                    assert(f(row@) is None);
                    assert(before =~= before + Seq::<StuckRec>::empty());
                },
            }
            i = i + 1;
        }
        assert(self@.tasks.take(self@.tasks.len() as int) =~= self@.tasks);
        assert(ordering::key_recs(keys@) =~= model::views(rows@).map_values(stuck_key()));
        let places = ordering::sort_places(&keys);
        let ghost all = ordering::sorted_by_key(model::views(rows@), stuck_key());
        assert(all.len() == places@.len());
        let mut out: Vec<StuckTaskRow> = Vec::new();
        let mut j: usize = 0;
        while j < places.len()
            invariant
                j <= places@.len(),
                places@.len() == rows@.len(),
                all.len() == places@.len(),
                all == ordering::as_places(places@).map_values(|p: int| model::views(rows@)[p]),
                forall|k: int| 0 <= k < places@.len() ==> (#[trigger] places@[k]) < rows@.len(),
                model::views(out@) == all.take(j as int),
            decreases places@.len() - j,
        {
            let row = rows[places[j]].dup();
            let ghost before = model::views(out@);
            assert(all[j as int] == row@);
            out.push(row);
            assert(model::views(out@) =~= before.push(row@));
            assert(all.take(j + 1) =~= all.take(j as int).push(all[j as int]));
            j = j + 1;
        }
        assert(all.take(places@.len() as int) =~= all);
        Ok(out)
    }

    /// The archival snapshot of a task as of a given time.
    pub fn export_task_at(&self, now: i64, task_id: &str) -> (r: Result<TaskExport, CoordinatorError>)
        ensures
            model::seen(r) == self@.exported(now, task_id@),
    {
        let view = match self.get(task_id) {
            Ok(Some(v)) => v,
            _ => return Err(CoordinatorError::NotFound(text::owned(task_id))),
        };
        let attempts = match self.list_attempts(task_id) {
            Ok(a) => a,
            Err(e) => return Err(e),
        };
        Ok(TaskExport { schema_version: 1, exported_at: now, task_id: text::owned(task_id), view, attempts })
    }

    /// The archival snapshot of a task: columns, attempts and events.
    pub fn export_task(&self, task_id: &str) -> (r: Result<TaskExport, CoordinatorError>)
        ensures
            exists|now: i64| model::seen(r) == #[trigger] self@.exported(now, task_id@),
    {
        let now = outside::unix_secs();
        self.export_task_at(now, task_id)
    }
}

/// The models of events handed out with their tasks.
pub open spec fn owned_events(v: Seq<(String, TaskEvent)>) -> Seq<OwnedEvent> {
    v.map_values(|p: (String, TaskEvent)| OwnedEvent { task_id: p.0@, event: p.1@ })
}

/// A selection is no longer than what it was made from.
pub proof fn lemma_filter_map_len<A, B>(s: Seq<A>, f: spec_fn(A) -> Option<B>)
    ensures
        s.filter_map(f).len() <= s.len(),
    decreases s.len(),
{
    if s.len() > 0 {
        lemma_filter_map_len(s.drop_last(), f);
    }
}

} // verus!
