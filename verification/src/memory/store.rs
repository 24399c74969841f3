//! The memory store: conversation turns with their search index, and notes on each subject.
use vstd::prelude::*;
use crate::listing;
use crate::memory::curator::CuratorConfig;
use crate::memory::entries;
use crate::memory::fault::{MemoryError, MemoryFault};
use crate::ordering::{self, KeyRec, SortKey};
use crate::outside;
use crate::text::{self, Text};

verus! {

/// Configuration of the memory node.
#[derive(Clone, Debug)]
pub struct MemoryConfig {
    /// Path of the database.
    pub db_path: String,
    /// The most rows that a recall or a search returns, whatever the caller asks for.
    pub max_n: usize,
    /// The curator's configuration, where it is to run.
    pub curator: Option<CuratorConfig>,
}

impl Default for MemoryConfig {
    fn default() -> (r: Self)
        ensures
            r.db_path@ == Seq::<char>::empty(),
            r.max_n == 0,
            r.curator is None,
    {
        MemoryConfig { db_path: String::new(), max_n: 0, curator: None }
    }
}

/// The row limit of a configuration that names none.
pub fn default_max_n() -> (r: usize)
    ensures
        r == 100,
{
    100
}

/// One conversational turn.
#[derive(Clone, Debug, PartialEq, Eq)]
pub struct Turn {
    pub session_id: String,
    pub role: String,
    pub body: String,
    pub ts: i64,
}

/// The mathematical model of [`Turn`].
pub struct TurnRec {
    pub session_id: Text,
    pub role: Text,
    pub body: Text,
    pub ts: i64,
}

impl View for Turn {
    type V = TurnRec;

    open spec fn view(&self) -> TurnRec {
        TurnRec { session_id: self.session_id@, role: self.role@, body: self.body@, ts: self.ts }
    }
}

/// The content of one target of one subject.
#[derive(Clone, Debug, PartialEq, Eq)]
pub struct Note {
    pub subject_id: String,
    pub target: String,
    pub content: String,
    pub updated_at: i64,
}

/// The mathematical model of [`Note`].
pub struct NoteRec {
    pub subject_id: Text,
    pub target: Text,
    pub content: Text,
    pub updated_at: i64,
}

impl View for Note {
    type V = NoteRec;

    open spec fn view(&self) -> NoteRec {
        NoteRec {
            subject_id: self.subject_id@,
            target: self.target@,
            content: self.content@,
            updated_at: self.updated_at,
        }
    }
}

/// Outcome of a write action on persistent memory.
#[derive(Debug, Clone, PartialEq, Eq)]
pub enum AgentWriteOutcome {
    /// The target was written; it now has so many characters.
    Updated { chars: usize },
    /// The target was read.
    Read { content: String },
}

/// The mathematical model of [`AgentWriteOutcome`].
pub enum WriteRec {
    Updated { chars: int },
    Read { content: Text },
}

impl View for AgentWriteOutcome {
    type V = WriteRec;

    open spec fn view(&self) -> WriteRec {
        match *self {
            AgentWriteOutcome::Updated { chars } => WriteRec::Updated { chars: chars as int },
            AgentWriteOutcome::Read { content } => WriteRec::Read { content: content@ },
        }
    }
}

/// The memory store.
pub struct MemoryStore {
    turns: Vec<Turn>,
    notes: Vec<Note>,
    index: rusqlite::Connection,
    max_n: usize,
}

/// The mathematical model of [`MemoryStore`].
#[verifier::ext_equal]
pub struct Memory {
    pub turns: Seq<TurnRec>,
    pub notes: Seq<NoteRec>,
    pub max_n: usize,
}

/// The models of turns.
pub open spec fn turn_recs(v: Seq<Turn>) -> Seq<TurnRec> {
    v.map_values(|t: Turn| t@)
}

/// The models of notes.
pub open spec fn note_recs(v: Seq<Note>) -> Seq<NoteRec> {
    v.map_values(|n: Note| n@)
}

/// What a search index over turns holds: the body of each under its number, counted from one.
pub open spec fn bodies(turns: Seq<TurnRec>) -> Map<int, Text> {
    Map::new(|k: int| 1 <= k <= turns.len(), |k: int| turns[k - 1].body)
}

/// The place of a note from `from` on; the number of notes where there is none.
pub open spec fn note_from(notes: Seq<NoteRec>, subject: Text, target: Text, from: int) -> int
    decreases notes.len() - from,
{
    if from < 0 || from >= notes.len() {
        notes.len() as int
    } else if notes[from].subject_id == subject && notes[from].target == target {
        from
    } else {
        note_from(notes, subject, target, from + 1)
    }
}

/// Role and body of a turn of a session.
pub open spec fn pick_turn(session: Text) -> spec_fn(TurnRec) -> Option<(Text, Text)> {
    |t: TurnRec|
        if t.session_id == session {
            Some((t.role, t.body))
        } else {
            None
        }
}

/// The last `n` items, or all where there are fewer.
pub open spec fn last<T>(s: Seq<T>, n: int) -> Seq<T> {
    if n < s.len() {
        s.skip(s.len() - n)
    } else {
        s
    }
}

/// The summed lengths of the first `n` notes that are on a subject.
pub open spec fn subject_chars(notes: Seq<NoteRec>, subject: Text, n: int) -> int
    decreases n,
{
    if n <= 0 {
        0
    } else {
        subject_chars(notes, subject, n - 1) + if notes[n - 1].subject_id == subject {
            notes[n - 1].content.len() as int
        } else {
            0
        }
    }
}

/// The subjects of the first `n` notes, each once, in the order in which they first occur.
pub open spec fn subjects(notes: Seq<NoteRec>, n: int) -> Seq<Text>
    decreases n,
{
    if n <= 0 {
        Seq::empty()
    } else {
        let before = subjects(notes, n - 1);
        if before.contains(notes[n - 1].subject_id) {
            before
        } else {
            before.push(notes[n - 1].subject_id)
        }
    }
}

/// Subjects go by their ids.
pub open spec fn subject_key() -> spec_fn(Text) -> KeyRec {
    |t: Text| KeyRec { num: 0, name: t }
}

/// A sum cut to what a `usize` holds.
pub open spec fn cut_usize(n: int) -> usize {
    if n > usize::MAX {
        usize::MAX
    } else {
        n as usize
    }
}

impl Memory {
    /// The content of a target; empty where there is no note.
    pub open spec fn content(self, subject: Text, target: Text) -> Text {
        let i = note_from(self.notes, subject, target, 0);
        if i < self.notes.len() {
            self.notes[i].content
        } else {
            Seq::empty()
        }
    }

    /// The store with the content of a target set.
    pub open spec fn with_content(self, now: i64, subject: Text, target: Text, content: Text) -> Memory {
        let i = note_from(self.notes, subject, target, 0);
        let n = NoteRec { subject_id: subject, target, content, updated_at: now };
        Memory {
            notes: if i < self.notes.len() {
                self.notes.update(i, n)
            } else {
                self.notes.push(n)
            },
            ..self
        }
    }

    /// The store with one more turn.
    pub open spec fn with_turn(self, now: i64, session: Text, role: Text, body: Text) -> Memory {
        Memory { turns: self.turns.push(TurnRec { session_id: session, role, body, ts: now }), ..self }
    }

    /// The most recent turns of a session, oldest first.
    pub open spec fn recent(self, session: Text, n: usize) -> Seq<(Text, Text)> {
        last(self.turns.filter_map(pick_turn(session)), listing::bounded(n, self.max_n) as int)
    }

    /// The turns with the given numbers, cut to the limit.
    pub open spec fn found(self, order: Seq<i64>, n: usize) -> Seq<(Text, Text, Text)> {
        listing::first(
            order.map_values(
                |k: i64| (self.turns[k - 1].session_id, self.turns[k - 1].role, self.turns[k - 1].body),
            ),
            listing::bounded(n, self.max_n) as int,
        )
    }

    /// Whether turn numbers are what a search may rank: none twice, and, for a plain query, exactly
    /// those of the turns that it finds, with the turns of one body in the order in which they were
    /// written.
    pub open spec fn ranks(self, query: Text, order: Seq<i64>) -> bool {
        &&& order.no_duplicates()
        &&& forall|k: int| 0 <= k < order.len() ==> 1 <= #[trigger] order[k] <= self.turns.len()
        &&& outside::plain_query(query) ==> forall|id: i64|
            1 <= id <= self.turns.len() ==> (#[trigger] order.contains(id) <==> outside::fts_match(
                self.turns[id - 1].body,
                query,
            ))
        &&& outside::plain_query(query) ==> forall|i: int, j: int|
            0 <= i < j < order.len() && self.turns[order[i] - 1].body == self.turns[order[j] - 1].body
                ==> #[trigger] order[i] < #[trigger] order[j]
    }

    /// What a write action on a target does and returns.
    pub open spec fn written(self, now: i64, subject: Text, target: Text, action: Text, data: Text) -> (
        Memory,
        Result<WriteRec, MemoryFault>,
    ) {
        match entries::cap_of(target) {
            None => (self, Err(bad_target(target))),
            Some(cap) => if subject.len() == 0 {
                (self, Err(no_subject()))
            } else {
                let old = self.content(subject, target);
                match entries::edited(old, action, data) {
                    Err(f) => (self, Err(f)),
                    Ok(None) => (self, Ok(WriteRec::Read { content: old })),
                    Ok(Some(new)) => if new.len() > cap {
                        (
                            self,
                            Err(MemoryFault::CapExceeded { target, proposed: new.len() as int, cap: cap as int }),
                        )
                    } else {
                        (
                            self.with_content(now, subject, target, new),
                            Ok(WriteRec::Updated { chars: new.len() as int }),
                        )
                    },
                }
            },
        }
    }

    /// What setting the whole content of a target does and returns.
    pub open spec fn content_set(self, now: i64, subject: Text, target: Text, content: Text) -> (
        Memory,
        Result<(), MemoryFault>,
    ) {
        match entries::cap_of(target) {
            None => (self, Err(bad_target(target))),
            Some(cap) => if subject.len() == 0 {
                (self, Err(no_subject()))
            } else if content.len() > cap {
                (
                    self,
                    Err(MemoryFault::CapExceeded { target, proposed: content.len() as int, cap: cap as int }),
                )
            } else {
                (self.with_content(now, subject, target, content), Ok(()))
            },
        }
    }

    /// Every subject with the summed lengths of its contents, by id.
    pub open spec fn totals(self) -> Seq<(Text, usize)> {
        let n = self.notes.len() as int;
        ordering::sorted_by_key(subjects(self.notes, n), subject_key()).map_values(
            |t: Text| (t, cut_usize(subject_chars(self.notes, t, n))),
        )
    }

    /// Whether in every content the delimiter stands only between entries.
    pub open spec fn tidy(self) -> bool {
        forall|k: int| 0 <= k < self.notes.len() ==> entries::tidy((#[trigger] self.notes[k]).content)
    }

    /// Whether every content is within the cap of its target.
    pub open spec fn capped(self) -> bool {
        forall|k: int|
            0 <= k < self.notes.len() ==> entries::cap_of((#[trigger] self.notes[k]).target) is Some
                && self.notes[k].content.len() <= entries::cap_of(self.notes[k].target)->0
    }
}

pub open spec fn bad_target(target: Text) -> MemoryFault {
    MemoryFault::InvalidArg("target must be 'agent' or 'user', got '"@ + target + "'"@)
}

pub open spec fn no_subject() -> MemoryFault {
    MemoryFault::InvalidArg("subject_id required"@)
}

/// A result as the contracts speak of it.
pub open spec fn seen_write(r: Result<AgentWriteOutcome, MemoryError>) -> Result<WriteRec, MemoryFault> {
    match r {
        Ok(w) => Ok(w@),
        Err(e) => Err(e@),
    }
}

pub open spec fn seen_unit(r: Result<(), MemoryError>) -> Result<(), MemoryFault> {
    match r {
        Ok(_) => Ok(()),
        Err(e) => Err(e@),
    }
}

pub open spec fn pair_texts(v: Seq<(String, String)>) -> Seq<(Text, Text)> {
    v.map_values(|p: (String, String)| (p.0@, p.1@))
}

pub open spec fn triple_texts(v: Seq<(String, String, String)>) -> Seq<(Text, Text, Text)> {
    v.map_values(|p: (String, String, String)| (p.0@, p.1@, p.2@))
}

pub open spec fn total_texts(v: Seq<(String, usize)>) -> Seq<(Text, usize)> {
    v.map_values(|p: (String, usize)| (p.0@, p.1))
}

impl View for MemoryStore {
    type V = Memory;

    closed spec fn view(&self) -> Memory {
        Memory { turns: turn_recs(self.turns@), notes: note_recs(self.notes@), max_n: self.max_n }
    }
}

impl MemoryStore {
    /// Whether the search index holds the bodies of the turns and the row limit is positive.
    pub closed spec fn wf(&self) -> bool {
        &&& outside::indexed(self.index) == bodies(self@.turns)
        &&& self@.turns.len() < i64::MAX
        &&& self@.max_n >= 1
    }

    /// A store without turns and notes that returns up to a hundred rows.
    pub fn in_memory() -> (r: Result<Self, MemoryError>)
        ensures
            match r {
                Ok(m) => m.wf() && m@ == (Memory { turns: Seq::empty(), notes: Seq::empty(), max_n: 100 }),
                Err(e) => e is Db,
            },
    {
        Self::with_limit(100)
    }

    /// A store without turns and notes; the row limit is at least one.
    pub fn with_limit(max_n: usize) -> (r: Result<Self, MemoryError>)
        ensures
            match r {
                Ok(m) => m.wf() && m@ == (Memory {
                    turns: Seq::empty(),
                    notes: Seq::empty(),
                    max_n: if max_n < 1 {
                        1
                    } else {
                        max_n
                    },
                }),
                Err(e) => e is Db,
            },
    {
        let index = match outside::index_open() {
            Ok(c) => c,
            Err(e) => return Err(MemoryError::Db(e)),
        };
        let max: usize = if max_n < 1 {
            1
        } else {
            max_n
        };
        let m = MemoryStore { turns: Vec::new(), notes: Vec::new(), index, max_n: max };
        assert(m@.turns =~= Seq::empty());
        assert(m@.notes =~= Seq::empty());
        assert(bodies(m@.turns) =~= outside::nothing_indexed());
        Ok(m)
    }

    /// A store with given turns and notes.
    pub fn restore(turns: Vec<Turn>, notes: Vec<Note>, max_n: usize) -> (r: Result<Self, MemoryError>)
        requires
            turns@.len() < i64::MAX,
        ensures
            match r {
                Ok(m) => m.wf() && m@ == (Memory {
                    turns: turn_recs(turns@),
                    notes: note_recs(notes@),
                    max_n: if max_n < 1 {
                        1
                    } else {
                        max_n
                    },
                }),
                Err(e) => e is Db,
            },
    {
        let mut m = match Self::with_limit(max_n) {
            Ok(m) => m,
            Err(e) => return Err(e),
        };
        let ghost all = turn_recs(turns@);
        let ghost max = m@.max_n;
        let mut i: usize = 0;
        assert(all.take(0) =~= Seq::empty());
        while i < turns.len()
            invariant
                i <= turns@.len(),
                turns@.len() < i64::MAX,
                all == turn_recs(turns@),
                m.wf(),
                m@ == (Memory { turns: all.take(i as int), notes: Seq::empty(), max_n: max }),
            decreases turns@.len() - i,
        {
            let t = &turns[i];
            if let Err(e) = m.write_turn_at(t.ts, t.session_id.as_str(), t.role.as_str(), t.body.as_str()) {
                return Err(e);
            }
            assert(all[i as int] == turns@[i as int]@);
            assert(all.take(i + 1) =~= all.take(i as int).push(all[i as int]));
            i = i + 1;
        }
        assert(all.take(all.len() as int) =~= all);
        m.notes = notes;
        Ok(m)
    }

    /// The turns in the order in which they were written.
    pub fn turns(&self) -> (r: &Vec<Turn>)
        ensures
            turn_recs(r@) == self@.turns,
    {
        &self.turns
    }

    /// What is remembered of the subjects.
    pub fn notes(&self) -> (r: &Vec<Note>)
        ensures
            note_recs(r@) == self@.notes,
    {
        &self.notes
    }

    /// Appends a turn at a given time.
    pub fn write_turn_at(&mut self, now: i64, session_id: &str, role: &str, body: &str) -> (r: Result<(), MemoryError>)
        requires
            old(self).wf(),
            old(self)@.turns.len() < i64::MAX - 1,
        ensures
            match r {
                Ok(_) => final(self)@ == old(self)@.with_turn(now, session_id@, role@, body@),
                Err(e) => e is Db && final(self)@ == old(self)@,
            },
            final(self).wf(),
    {
        let ghost before = self@;
        let ghost turns = turn_recs(self.turns@);
        assert(turns.len() == self.turns@.len());
        let id: i64 = self.turns.len() as i64 + 1;
        assert(!bodies(turns).dom().contains(id as int));
        if let Err(e) = outside::index_put(&mut self.index, id, body) {
            return Err(MemoryError::Db(e));
        }
        let t = Turn { session_id: text::owned(session_id), role: text::owned(role), body: text::owned(body), ts: now };
        let ghost rec = t@;
        self.turns.push(t);
        assert(turn_recs(self.turns@) =~= turns.push(rec));
        assert(bodies(turns.push(rec)) =~= bodies(turns).insert(id as int, body@));
        Ok(())
    }

    /// Appends a turn now.
    pub fn write_turn(&mut self, session_id: &str, role: &str, body: &str) -> (r: Result<(), MemoryError>)
        requires
            old(self).wf(),
            old(self)@.turns.len() < i64::MAX - 1,
        ensures
            match r {
                Ok(_) => exists|now: i64|
                    final(self)@ == #[trigger] old(self)@.with_turn(now, session_id@, role@, body@),
                Err(e) => e is Db && final(self)@ == old(self)@,
            },
            final(self).wf(),
    {
        let now = outside::unix_secs();
        self.write_turn_at(now, session_id, role, body)
    }

    /// The most recent turns of a session as role and body, oldest first.
    pub fn recent_for_session(&self, session_id: &str, n: usize) -> (r: Result<Vec<(String, String)>, MemoryError>)
        ensures
            r matches Ok(v) && pair_texts(v@) == self@.recent(session_id@, n),
    {
        let limit = listing::bound(n, self.max_n);
        let ghost f = pick_turn(session_id@);
        let ghost all = self@.turns;
        let mut rows: Vec<(String, String)> = Vec::new();
        let mut i: usize = 0;
        assert(pair_texts(rows@) =~= all.take(0).filter_map(f));
        while i < self.turns.len()
            invariant
                i <= self.turns@.len(),
                f == pick_turn(session_id@),
                all == turn_recs(self.turns@),
                pair_texts(rows@) == all.take(i as int).filter_map(f),
            decreases self.turns@.len() - i,
        {
            proof {
                all.lemma_filter_map_take_succ(f, i as int);
                assert(all[i as int] == self.turns@[i as int]@);
            }
            let ghost before = pair_texts(rows@);
            let t = &self.turns[i];
            if text::same(t.session_id.as_str(), session_id) {
                let p = (t.role.clone(), t.body.clone());
                rows.push(p);
                assert(pair_texts(rows@) =~= before + seq![(t@.role, t@.body)]);
            } else {
                assert(before =~= before + Seq::<(Text, Text)>::empty());
            }
            i = i + 1;
        }
        assert(all.take(all.len() as int) =~= all);
        if limit < rows.len() {
            let from: usize = rows.len() - limit;
            let ghost whole = rows@;
            let tail = rows.split_off(from);
            assert(pair_texts(tail@) =~= pair_texts(whole).skip(from as int));
            Ok(tail)
        } else {
            Ok(rows)
        }
    }

    /// The turns with the given numbers, cut to the limit.
    pub fn hits(&self, order: &Vec<i64>, n: usize) -> (r: Vec<(String, String, String)>)
        requires
            forall|k: int| 0 <= k < order@.len() ==> 1 <= #[trigger] order@[k] <= self@.turns.len(),
        ensures
            triple_texts(r@) == self@.found(order@, n),
    {
        let limit = listing::bound(n, self.max_n);
        let ghost turns = self@.turns;
        let ghost all = order@.map_values(
            |k: i64| (turns[k - 1].session_id, turns[k - 1].role, turns[k - 1].body),
        );
        let total: usize = self.turns.len();
        let mut out: Vec<(String, String, String)> = Vec::new();
        let mut i: usize = 0;
        while i < order.len() && i < limit
            invariant
                total == turns.len(),
                i <= order@.len(),
                i <= limit,
                turns == turn_recs(self.turns@),
                forall|k: int| 0 <= k < order@.len() ==> 1 <= #[trigger] order@[k] <= turns.len(),
                all == order@.map_values(
                    |k: i64| (turns[k - 1].session_id, turns[k - 1].role, turns[k - 1].body),
                ),
                triple_texts(out@) == all.take(i as int),
            decreases order@.len() - i,
        {
            let k: i64 = order[i];
            let at: usize = (k - 1) as usize;
            let ghost before = triple_texts(out@);
            assert(turns[at as int] == self.turns@[at as int]@);
            let t = &self.turns[at];
            out.push((t.session_id.clone(), t.role.clone(), t.body.clone()));
            assert(triple_texts(out@) =~= before.push(all[i as int]));
            assert(all.take(i + 1) =~= all.take(i as int).push(all[i as int]));
            i = i + 1;
        }
        assert(all.take(all.len() as int) =~= all);
        out
    }

    /// The answer to a search that gave turn numbers, or failed.
    pub fn search_answered(&self, found: Result<Vec<i64>, String>, n: usize) -> (r: Result<
        Vec<(String, String, String)>,
        MemoryError,
    >)
        requires
            found matches Ok(order) ==> forall|k: int|
                0 <= k < order@.len() ==> 1 <= #[trigger] order@[k] <= self@.turns.len(),
        ensures
            match found {
                Ok(order) => r matches Ok(v) && triple_texts(v@) == self@.found(order@, n),
                Err(e) => r == Err::<Vec<(String, String, String)>, MemoryError>(MemoryError::Db(e)),
            },
    {
        match found {
            Ok(order) => Ok(self.hits(&order, n)),
            Err(e) => Err(MemoryError::Db(e)),
        }
    }

    /// Full-text search over all turns: session, role and body of each hit, most relevant first. A query
    /// that the index cannot read is an error.
    pub fn search(&self, query: &str, n: usize) -> (r: Result<Vec<(String, String, String)>, MemoryError>)
        requires
            self.wf(),
        ensures
            match r {
                Ok(v) => outside::fts_accepts(query@) && exists|order: Seq<i64>| #[trigger]
                    self@.ranks(query@, order) && triple_texts(v@) == self@.found(order, n),
                Err(e) => e is Db,
            },
    {
        let found = outside::index_find(&self.index, query);
        proof {
            if found is Ok {
                let order = found->Ok_0@;
                let b = bodies(self@.turns);
                assert forall|k: int| 0 <= k < order.len() implies 1 <= #[trigger] order[k] <= self@.turns.len() by {
                    assert(b.dom().contains(order[k] as int));
                }
                assert(self@.ranks(query@, order)) by {
                    if outside::plain_query(query@) {
                        assert forall|id: i64| 1 <= id <= self@.turns.len() implies (#[trigger] order.contains(id)
                            <==> outside::fts_match(self@.turns[id - 1].body, query@)) by {
                            assert(b.dom().contains(id as int));
                            assert(b[id as int] == self@.turns[id - 1].body);
                        }
                        assert forall|i: int, j: int|
                            0 <= i < j < order.len() && self@.turns[order[i] - 1].body == self@.turns[order[j] - 1].body implies #[trigger] order[i]
                            < #[trigger] order[j] by {
                            assert(b[order[i] as int] == b[order[j] as int]);
                        }
                    }
                }
            }
        }
        self.search_answered(found, n)
    }

    fn note_index(&self, subject_id: &str, target: &str) -> (r: usize)
        ensures
            r == note_from(self@.notes, subject_id@, target@, 0),
            r <= self@.notes.len(),
            self@.notes.len() == self.notes@.len(),
    {
        let ghost all = self@.notes;
        let mut i: usize = 0;
        while i < self.notes.len()
            invariant
                i <= self.notes@.len(),
                all == note_recs(self.notes@),
                note_from(all, subject_id@, target@, 0) == note_from(all, subject_id@, target@, i as int),
            decreases self.notes@.len() - i,
        {
            assert(all[i as int] == self.notes@[i as int]@);
            let n = &self.notes[i];
            if text::same(n.subject_id.as_str(), subject_id) && text::same(n.target.as_str(), target) {
                return i;
            }
            i = i + 1;
        }
        i
    }

    fn read_target(&self, subject_id: &str, target: &str) -> (r: String)
        ensures
            r@ == self@.content(subject_id@, target@),
    {
        let i = self.note_index(subject_id, target);
        if i < self.notes.len() {
            assert(self@.notes[i as int] == self.notes@[i as int]@);
            self.notes[i].content.clone()
        } else {
            String::new()
        }
    }

    fn upsert_target(&mut self, now: i64, subject_id: &str, target: &str, content: &str)
        ensures
            final(self)@ == old(self)@.with_content(now, subject_id@, target@, content@),
            old(self).wf() ==> final(self).wf(),
    {
        let i = self.note_index(subject_id, target);
        let n = Note {
            subject_id: text::owned(subject_id),
            target: text::owned(target),
            content: text::owned(content),
            updated_at: now,
        };
        let ghost rec = n@;
        let ghost before = self@.notes;
        if i < self.notes.len() {
            self.notes.set(i, n);
            assert(note_recs(self.notes@) =~= before.update(i as int, rec));
        } else {
            self.notes.push(n);
            assert(note_recs(self.notes@) =~= before.push(rec));
        }
    }

    /// The contents of both targets of a subject; empty where nothing was written.
    pub fn agent_read(&self, subject_id: &str) -> (r: Result<(String, String), MemoryError>)
        ensures
            r matches Ok(p) && p.0@ == self@.content(subject_id@, "agent"@) && p.1@ == self@.content(
                subject_id@,
                "user"@,
            ),
    {
        Ok((self.read_target(subject_id, "agent"), self.read_target(subject_id, "user")))
    }

    /// Carries out a write action on a target at a given time.
    pub fn agent_write_at(&mut self, now: i64, subject_id: &str, target: &str, action: &str, data: &str) -> (r: Result<
        AgentWriteOutcome,
        MemoryError,
    >)
        ensures
            (final(self)@, seen_write(r)) == old(self)@.written(now, subject_id@, target@, action@, data@),
            old(self).wf() ==> final(self).wf(),
    {
        let cap = match entries::target_cap(target) {
            Some(c) => c,
            None => return Err(bad_target_error(target)),
        };
        if subject_id.is_empty() {
            return Err(MemoryError::InvalidArg(text::owned("subject_id required")));
        }
        let current = self.read_target(subject_id, target);
        let new = match entries::edit(current.as_str(), action, data) {
            Ok(Some(s)) => s,
            Ok(None) => return Ok(AgentWriteOutcome::Read { content: current }),
            Err(e) => return Err(e),
        };
        let chars = text::len_chars(new.as_str());
        if chars > cap {
            return Err(MemoryError::CapExceeded { target: text::owned(target), proposed: chars, cap });
        }
        self.upsert_target(now, subject_id, target, new.as_str());
        Ok(AgentWriteOutcome::Updated { chars })
    }

    /// Carries out a write action on a target now.
    pub fn agent_write(&mut self, subject_id: &str, target: &str, action: &str, data: &str) -> (r: Result<
        AgentWriteOutcome,
        MemoryError,
    >)
        ensures
            exists|now: i64|
                (final(self)@, seen_write(r)) == #[trigger] old(self)@.written(
                    now,
                    subject_id@,
                    target@,
                    action@,
                    data@,
                ),
            old(self).wf() ==> final(self).wf(),
    {
        let now = outside::unix_secs();
        self.agent_write_at(now, subject_id, target, action, data)
    }

    /// Sets the whole content of a target at a given time.
    pub fn agent_set_content_at(&mut self, now: i64, subject_id: &str, target: &str, content: &str) -> (r: Result<
        (),
        MemoryError,
    >)
        ensures
            (final(self)@, seen_unit(r)) == old(self)@.content_set(now, subject_id@, target@, content@),
            old(self).wf() ==> final(self).wf(),
    {
        let cap = match entries::curator_target_cap(target) {
            Some(c) => c,
            None => return Err(bad_target_error(target)),
        };
        if subject_id.is_empty() {
            return Err(MemoryError::InvalidArg(text::owned("subject_id required")));
        }
        let chars = text::len_chars(content);
        if chars > cap {
            return Err(MemoryError::CapExceeded { target: text::owned(target), proposed: chars, cap });
        }
        self.upsert_target(now, subject_id, target, content);
        Ok(())
    }

    /// Sets the whole content of a target now.
    pub fn agent_set_content(&mut self, subject_id: &str, target: &str, content: &str) -> (r: Result<(), MemoryError>)
        ensures
            exists|now: i64|
                (final(self)@, seen_unit(r)) == #[trigger] old(self)@.content_set(now, subject_id@, target@, content@),
            old(self).wf() ==> final(self).wf(),
    {
        let now = outside::unix_secs();
        self.agent_set_content_at(now, subject_id, target, content)
    }

    fn sum_chars(&self, subject_id: &str) -> (r: usize)
        ensures
            r == cut_usize(subject_chars(self@.notes, subject_id@, self@.notes.len() as int)),
    {
        let ghost all = self@.notes;
        let mut sum: usize = 0;
        let mut i: usize = 0;
        while i < self.notes.len()
            invariant
                i <= self.notes@.len(),
                all == note_recs(self.notes@),
                0 <= subject_chars(all, subject_id@, i as int),
                sum == cut_usize(subject_chars(all, subject_id@, i as int)),
            decreases self.notes@.len() - i,
        {
            assert(all[i as int] == self.notes@[i as int]@);
            let n = &self.notes[i];
            if text::same(n.subject_id.as_str(), subject_id) {
                let len = text::len_chars(n.content.as_str());
                sum = if len > usize::MAX - sum {
                    usize::MAX
                } else {
                    sum + len
                };
            }
            i = i + 1;
        }
        sum
    }

    /// Every subject that has a note, by id, with the summed lengths of its contents.
    pub fn list_subjects_with_total_chars(&self) -> (r: Result<Vec<(String, usize)>, MemoryError>)
        ensures
            r matches Ok(v) && total_texts(v@) == self@.totals(),
    {
        let ghost all = self@.notes;
        let mut names: Vec<String> = Vec::new();
        let mut i: usize = 0;
        assert(text::texts(names@) =~= subjects(all, 0));
        while i < self.notes.len()
            invariant
                i <= self.notes@.len(),
                all == note_recs(self.notes@),
                text::texts(names@) == subjects(all, i as int),
            decreases self.notes@.len() - i,
        {
            assert(all[i as int] == self.notes@[i as int]@);
            let s = &self.notes[i].subject_id;
            let ghost before = text::texts(names@);
            if !holds(&names, s.as_str()) {
                names.push(s.clone());
                assert(text::texts(names@) =~= before.push(s@));
            }
            i = i + 1;
        }
        let mut keys: Vec<SortKey> = Vec::new();
        let mut k: usize = 0;
        while k < names.len()
            invariant
                k <= names@.len(),
                keys@.len() == k,
                forall|j: int| 0 <= j < k ==> (#[trigger] keys@[j])@ == subject_key()(text::texts(names@)[j]),
            decreases names@.len() - k,
        {
            keys.push(SortKey { num: 0, name: names[k].clone() });
            k = k + 1;
        }
        let ghost list = text::texts(names@);
        assert(ordering::key_recs(keys@) =~= list.map_values(subject_key()));
        let places = ordering::sort_places(&keys);
        let ghost sorted = ordering::sorted_by_key(list, subject_key());
        let mut out: Vec<(String, usize)> = Vec::new();
        let mut j: usize = 0;
        while j < places.len()
            invariant
                j <= places@.len(),
                list == text::texts(names@),
                all == self@.notes,
                sorted == ordering::sorted_by_key(list, subject_key()),
                sorted.len() == places@.len(),
                forall|m: int| 0 <= m < places@.len() ==> (#[trigger] places@[m]) < list.len() && sorted[m]
                    == list[places@[m] as int],
                total_texts(out@) == sorted.take(j as int).map_values(
                    |t: Text| (t, cut_usize(subject_chars(all, t, all.len() as int))),
                ),
            decreases places@.len() - j,
        {
            let p: usize = places[j];
            let ghost before = total_texts(out@);
            assert(list[p as int] == names@[p as int]@);
            let name = names[p].clone();
            let sum = self.sum_chars(name.as_str());
            let ghost item = (name@, sum);
            out.push((name, sum));
            assert(total_texts(out@) =~= before.push(item));
            assert(sorted.take(j + 1) =~= sorted.take(j as int).push(sorted[j as int]));
            assert(sorted.take(j + 1).map_values(
                |t: Text| (t, cut_usize(subject_chars(all, t, all.len() as int))),
            ) =~= sorted.take(j as int).map_values(
                |t: Text| (t, cut_usize(subject_chars(all, t, all.len() as int))),
            ).push(item));
            j = j + 1;
        }
        assert(sorted.take(sorted.len() as int) =~= sorted);
        Ok(out)
    }
}

fn bad_target_error(target: &str) -> (r: MemoryError)
    ensures
        r@ == bad_target(target@),
{
    let mut m = text::owned("target must be 'agent' or 'user', got '");
    m.append(target);
    m.append("'");
    MemoryError::InvalidArg(m)
}

fn holds(names: &Vec<String>, name: &str) -> (r: bool)
    ensures
        r == text::texts(names@).contains(name@),
{
    let mut i: usize = 0;
    let ghost all = text::texts(names@);
    while i < names.len()
        invariant
            i <= names@.len(),
            all == text::texts(names@),
            forall|k: int| 0 <= k < i ==> #[trigger] all[k] != name@,
        decreases names@.len() - i,
    {
        assert(all[i as int] == names@[i as int]@);
        if text::same(names[i].as_str(), name) {
            return true;
        }
        i = i + 1;
    }
    false
}

pub proof fn lemma_note_from(notes: Seq<NoteRec>, subject: Text, target: Text, from: int)
    requires
        0 <= from <= notes.len(),
    ensures
        from <= note_from(notes, subject, target, from) <= notes.len(),
        note_from(notes, subject, target, from) < notes.len() ==> notes[note_from(
            notes,
            subject,
            target,
            from,
        )].subject_id == subject && notes[note_from(notes, subject, target, from)].target == target,
        forall|k: int|
            from <= k < note_from(notes, subject, target, from) ==> (#[trigger] notes[k]).subject_id != subject
                || notes[k].target != target,
    decreases notes.len() - from,
{
    if from < notes.len() && !(notes[from].subject_id == subject && notes[from].target == target) {
        lemma_note_from(notes, subject, target, from + 1);
    }
}

proof fn lemma_note_is(notes: Seq<NoteRec>, subject: Text, target: Text, from: int, at: int)
    requires
        0 <= from <= at <= notes.len(),
        at < notes.len() ==> notes[at].subject_id == subject && notes[at].target == target,
        forall|k: int| from <= k < at ==> (#[trigger] notes[k]).subject_id != subject || notes[k].target != target,
    ensures
        note_from(notes, subject, target, from) == at,
    decreases at - from,
{
    if from < at {
        lemma_note_is(notes, subject, target, from + 1, at);
    }
}

/// What was written to a target is what a read of it gives back, and no other target, of this
/// subject or another, changes.
pub proof fn law_content_is_read_back(m: Memory, now: i64, subject: Text, target: Text, content: Text, s2: Text, t2: Text)
    ensures
        m.with_content(now, subject, target, content).content(subject, target) == content,
        (s2, t2) != (subject, target) ==> m.with_content(now, subject, target, content).content(s2, t2) == m.content(
            s2,
            t2,
        ),
{
    let new = m.with_content(now, subject, target, content);
    let i = note_from(m.notes, subject, target, 0);
    lemma_note_from(m.notes, subject, target, 0);
    lemma_note_is(new.notes, subject, target, 0, i);
    if (s2, t2) != (subject, target) {
        let j = note_from(m.notes, s2, t2, 0);
        lemma_note_from(m.notes, s2, t2, 0);
        if i == m.notes.len() && j == m.notes.len() {
            lemma_note_is(new.notes, s2, t2, 0, j + 1);
        } else {
            lemma_note_is(new.notes, s2, t2, 0, j);
        }
    }
}

/// No write brings a content over the cap of its target.
pub proof fn law_writes_keep_caps(m: Memory, now: i64, subject: Text, target: Text, action: Text, data: Text)
    requires
        m.capped(),
    ensures
        m.written(now, subject, target, action, data).0.capped(),
        m.content_set(now, subject, target, data).0.capped(),
{
    lemma_note_from(m.notes, subject, target, 0);
}

pub proof fn lemma_content_is_tidy(m: Memory, subject: Text, target: Text)
    requires
        m.tidy(),
    ensures
        entries::tidy(m.content(subject, target)),
{
    lemma_note_from(m.notes, subject, target, 0);
}

/// No write action leaves an empty entry in a memory that has none, nor does setting a content that has
/// none.
pub proof fn law_writes_keep_entries_filled(m: Memory, now: i64, subject: Text, target: Text, action: Text, data: Text)
    requires
        m.tidy(),
    ensures
        m.written(now, subject, target, action, data).0.tidy(),
        entries::tidy(data) ==> m.content_set(now, subject, target, data).0.tidy(),
{
    lemma_note_from(m.notes, subject, target, 0);
    lemma_content_is_tidy(m, subject, target);
    entries::law_writes_leave_no_empty_entry(m.content(subject, target), action, data);
}

/// A write that is refused, and a read, leave the memory as it was.
pub proof fn law_refused_write_changes_nothing(m: Memory, now: i64, subject: Text, target: Text, action: Text, data: Text)
    ensures
        !(m.written(now, subject, target, action, data).1 matches Ok(WriteRec::Updated { .. })) ==> m.written(
            now,
            subject,
            target,
            action,
            data,
        ).0 == m,
        m.content_set(now, subject, target, data).1 is Err ==> m.content_set(now, subject, target, data).0 == m,
{
}

/// A session's recall never holds more rows than the limit, and a new turn of the session is the
/// last row of it.
pub proof fn law_recent_ends_with_the_newest(m: Memory, now: i64, session: Text, role: Text, body: Text, n: usize)
    requires
        m.max_n >= 1,
    ensures
        m.recent(session, n).len() <= listing::bounded(n, m.max_n),
        m.with_turn(now, session, role, body).recent(session, n).last() == (role, body),
        m.with_turn(now, session, role, body).recent(session, n).len() >= 1,
{
    let new = m.with_turn(now, session, role, body);
    let f = pick_turn(session);
    let k = m.turns.len() as int;
    new.turns.lemma_filter_map_take_succ(f, k);
    assert(new.turns.take(k + 1) =~= new.turns);
    assert(new.turns.take(k) =~= m.turns);
}

/// Sessions are apart: a turn of one changes nothing in what is recalled of another.
pub proof fn law_sessions_are_apart(m: Memory, now: i64, session: Text, role: Text, body: Text, other: Text, n: usize)
    requires
        other != session,
    ensures
        m.with_turn(now, session, role, body).recent(other, n) == m.recent(other, n),
{
    let new = m.with_turn(now, session, role, body);
    let f = pick_turn(other);
    let k = m.turns.len() as int;
    new.turns.lemma_filter_map_take_succ(f, k);
    assert(new.turns.take(k + 1) =~= new.turns);
    assert(new.turns.take(k) =~= m.turns);
    assert(m.turns.filter_map(f) + Seq::<(Text, Text)>::empty() =~= m.turns.filter_map(f));
}

} // verus!
