//! What holds of recall whatever the index ranks, and of curation whatever the model replies.
use vstd::prelude::*;
use crate::listing;
use crate::memory::curator::{self, Exchange};
use crate::memory::entries;
use crate::memory::store::{self, Memory, NoteRec, TurnRec, WriteRec};
use crate::outside;
use crate::text::{self, Text};

verus! {

/// Whether every content that one memory holds is held by another too, if only in other words.
pub open spec fn wipes_nothing(before: Memory, after: Memory) -> bool {
    forall|s: Text, t: Text|
        before.content(s, t).len() > 0 ==> #[trigger] after.content(s, t).len() > 0
}

/// A reply that is taken is not empty and within the cap.
pub proof fn law_accepted_replies_are_sound(reply: Option<Text>, cap: int)
    ensures
        curator::accepted(reply, cap) matches Ok(t) ==> 0 < t.len() <= cap,
{
}

/// Where no reply is taken, a curation leaves the memory as it was.
pub proof fn law_failed_curation_changes_nothing(m: Memory, subject: Text, x: Exchange)
    requires
        curator::accepted(x.agent, entries::AGENT_MEMORY_CAP_CHARS as int) is Err,
        curator::accepted(x.user, entries::USER_MEMORY_CAP_CHARS as int) is Err,
    ensures
        m.subject_curated(subject, x).0 == m,
        m.subject_curated(subject, x).1 is Ok,
{
    assert(m.content(subject, "agent"@).len() == 0 ==> m.content(subject, "agent"@) =~= Seq::empty());
    assert(m.content(subject, "user"@).len() == 0 ==> m.content(subject, "user"@) =~= Seq::empty());
}

proof fn lemma_targets_differ()
    ensures
        "agent"@ != "user"@,
{
    reveal_strlit("agent");
    reveal_strlit("user");
    assert("agent"@.len() == 5);
    assert("user"@.len() == 4);
}

/// After the curation of a subject each target holds what its own reply leads to, whatever became
/// of the other, and the memory of other subjects is as it was.
pub proof fn law_targets_are_curated_apart(m: Memory, subject: Text, x: Exchange, other: Text, target: Text)
    requires
        subject.len() > 0,
        other != subject,
    ensures
        ({
            let after = m.subject_curated(subject, x).0;
            let a0 = m.content(subject, "agent"@);
            let u0 = m.content(subject, "user"@);
            &&& m.subject_curated(subject, x).1 is Ok
            &&& after.content(subject, "agent"@) == curator::kept(a0, entries::AGENT_MEMORY_CAP_CHARS as int, x.agent)
            &&& after.content(subject, "user"@) == curator::kept(u0, entries::USER_MEMORY_CAP_CHARS as int, x.user)
            &&& after.content(other, target) == m.content(other, target)
        }),
{
    lemma_targets_differ();
    let a0 = m.content(subject, "agent"@);
    let u0 = m.content(subject, "user"@);
    let a1 = curator::kept(a0, entries::AGENT_MEMORY_CAP_CHARS as int, x.agent);
    let u1 = curator::kept(u0, entries::USER_MEMORY_CAP_CHARS as int, x.user);
    let m1 = m.written_back(x.agent_at, subject, "agent"@, a0, a1).0;
    store::law_content_is_read_back(m, x.agent_at, subject, "agent"@, a1, subject, "user"@);
    store::law_content_is_read_back(m, x.agent_at, subject, "agent"@, a1, other, target);
    store::law_content_is_read_back(m1, x.user_at, subject, "user"@, u1, subject, "agent"@);
    store::law_content_is_read_back(m1, x.user_at, subject, "user"@, u1, other, target);
    assert(a0.len() == 0 ==> a0 =~= Seq::empty());
    assert(u0.len() == 0 ==> u0 =~= Seq::empty());
}

/// Whether a reply, without the space around it, has no empty entry.
pub open spec fn tidy_reply(reply: Option<Text>) -> bool {
    reply matches Some(t) ==> entries::tidy(text::trim(t))
}

/// The curation of a subject wipes nothing, keeps the caps, and brings in no empty entry but one that a
/// reply has.
pub proof fn law_curation_wipes_nothing(m: Memory, subject: Text, x: Exchange)
    ensures
        wipes_nothing(m, m.subject_curated(subject, x).0),
        m.capped() ==> m.subject_curated(subject, x).0.capped(),
        m.tidy() && tidy_reply(x.agent) && tidy_reply(x.user) ==> m.subject_curated(subject, x).0.tidy(),
{
    lemma_targets_differ();
    let after = m.subject_curated(subject, x).0;
    let a0 = m.content(subject, "agent"@);
    let u0 = m.content(subject, "user"@);
    let a1 = curator::kept(a0, entries::AGENT_MEMORY_CAP_CHARS as int, x.agent);
    let u1 = curator::kept(u0, entries::USER_MEMORY_CAP_CHARS as int, x.user);
    let (m1, ra) = m.written_back(x.agent_at, subject, "agent"@, a0, a1);
    assert forall|s: Text, t: Text| m.content(s, t).len() > 0 implies #[trigger] after.content(s, t).len() > 0 by {
        store::law_content_is_read_back(m, x.agent_at, subject, "agent"@, a1, s, t);
        store::law_content_is_read_back(m1, x.user_at, subject, "user"@, u1, s, t);
        store::law_content_is_read_back(m, x.agent_at, subject, "agent"@, a1, subject, "user"@);
    }
    if m.capped() {
        store::law_writes_keep_caps(m, x.agent_at, subject, "agent"@, Seq::empty(), a1);
        if ra is Ok {
            store::law_writes_keep_caps(m1, x.user_at, subject, "user"@, Seq::empty(), u1);
        }
    }
    if m.tidy() && tidy_reply(x.agent) && tidy_reply(x.user) {
        store::lemma_content_is_tidy(m, subject, "agent"@);
        store::lemma_content_is_tidy(m, subject, "user"@);
        store::law_writes_keep_entries_filled(m, x.agent_at, subject, "agent"@, Seq::empty(), a1);
        if ra is Ok {
            store::law_writes_keep_entries_filled(m1, x.user_at, subject, "user"@, Seq::empty(), u1);
        }
    }
}

/// A pass over any list of subjects wipes nothing, keeps the caps, brings in no empty entry but one that
/// a reply has, and curates no more subjects than it reviews.
pub proof fn law_sweep_wipes_nothing(m: Memory, list: Seq<(Text, usize)>, min: usize, xs: Seq<Exchange>, n: int)
    requires
        0 <= n <= list.len() <= usize::MAX,
    ensures
        wipes_nothing(m, curator::swept(m, list, min, xs, n).0),
        m.capped() ==> curator::swept(m, list, min, xs, n).0.capped(),
        m.tidy() && (forall|k: int| 0 <= k < n ==> tidy_reply((#[trigger] xs[k]).agent) && tidy_reply(xs[k].user))
            ==> curator::swept(m, list, min, xs, n).0.tidy(),
        curator::swept(m, list, min, xs, n).1.agents_reviewed == list.len(),
        curator::swept(m, list, min, xs, n).1.agents_curated <= n,
    decreases n,
{
    if n > 0 {
        law_sweep_wipes_nothing(m, list, min, xs, n - 1);
        let m0 = curator::swept(m, list, min, xs, n - 1).0;
        law_curation_wipes_nothing(m0, list[n - 1].0, xs[n - 1]);
        let after = curator::swept(m, list, min, xs, n).0;
        assert forall|s: Text, t: Text| m.content(s, t).len() > 0 implies #[trigger] after.content(s, t).len() > 0 by {
            assert(m0.content(s, t).len() > 0);
        }
    }
}

/// Subjects with too few characters are passed over: where none has enough, a pass changes nothing
/// and curates none.
pub proof fn law_small_memories_are_passed_over(m: Memory, list: Seq<(Text, usize)>, min: usize, xs: Seq<Exchange>, n: int)
    requires
        0 <= n <= list.len() <= usize::MAX,
        forall|k: int| 0 <= k < list.len() ==> (#[trigger] list[k]).1 <= min,
    ensures
        curator::swept(m, list, min, xs, n).0 == m,
        curator::swept(m, list, min, xs, n).1.agents_curated == 0,
    decreases n,
{
    if n > 0 {
        law_small_memories_are_passed_over(m, list, min, xs, n - 1);
    }
}

/// A turn is found by the queries that match its body, from when it was written: a search with room for
/// all that it ranks shows it. What a search shows are turns, and for a plain query ones that match.
pub proof fn law_written_turns_are_found(
    m: Memory,
    now: i64,
    session: Text,
    role: Text,
    body: Text,
    query: Text,
    order: Seq<i64>,
    n: usize,
    k: int,
)
    requires
        m.turns.len() < i64::MAX,
        outside::plain_query(query),
        m.with_turn(now, session, role, body).ranks(query, order),
    ensures
        outside::fts_match(body, query) && order.len() <= listing::bounded(n, m.max_n) ==> m.with_turn(
            now,
            session,
            role,
            body,
        ).found(order, n).contains((session, role, body)),
        0 <= k < m.with_turn(now, session, role, body).found(order, n).len() ==> outside::fts_match(
            m.with_turn(now, session, role, body).found(order, n)[k].2,
            query,
        ),
{
    let new = m.with_turn(now, session, role, body);
    let rows = new.found(order, n);
    let id = (m.turns.len() + 1) as i64;
    if outside::fts_match(body, query) && order.len() <= listing::bounded(n, m.max_n) {
        assert(order.contains(id));
        let at = order.index_of(id);
        assert(rows[at] == (session, role, body));
    }
    if 0 <= k < rows.len() {
        assert(order.contains(order[k]));
        assert(rows[k].2 == new.turns[order[k] - 1].body);
    }
}

/// The number of rows that a caller gets who asks for `n`: at least one, at most the store's limit.
pub open spec fn room(n: usize, max: usize) -> int {
    if n == 0 {
        1
    } else if n > max {
        max as int
    } else {
        n as int
    }
}

/// The recall of a session shows its own turns in the order in which they were written. A turn of the
/// session is left out only where there is no room, and then it is older than all that are shown.
pub proof fn law_recall_goes_by_the_turns(m: Memory, session: Text, n: usize)
    requires
        m.max_n >= 1,
    ensures
        ({
            let rows = m.recent(session, n);
            let own = m.turns.filter(|t: TurnRec| t.session_id == session);
            &&& rows.len() <= room(n, m.max_n)
            &&& rows.len() <= own.len()
            &&& rows.len() == room(n, m.max_n) || rows.len() == own.len()
            &&& forall|k: int|
                0 <= k < rows.len() ==> (#[trigger] rows[k]).0 == own[own.len() - rows.len() + k].role && rows[k].1
                    == own[own.len() - rows.len() + k].body
        }),
{
    let f = store::pick_turn(session);
    let keep = |t: TurnRec| t.session_id == session;
    lemma_own_turns(m.turns, session);
    assert(room(n, m.max_n) == listing::bounded(n, m.max_n));
    let all = m.turns.filter_map(f);
    let own = m.turns.filter(keep);
    let rows = m.recent(session, n);
    assert forall|k: int| 0 <= k < rows.len() implies (#[trigger] rows[k]).0 == own[own.len() - rows.len() + k].role
        && rows[k].1 == own[own.len() - rows.len() + k].body by {
        assert(rows[k] == all[all.len() - rows.len() + k]);
    }
}

proof fn lemma_own_turns(turns: Seq<TurnRec>, session: Text)
    ensures
        turns.filter_map(store::pick_turn(session)) == turns.filter(
            |t: TurnRec| t.session_id == session,
        ).map_values(|t: TurnRec| (t.role, t.body)),
    decreases turns.len(),
{
    reveal(Seq::filter);
    let f = store::pick_turn(session);
    let keep = |t: TurnRec| t.session_id == session;
    let show = |t: TurnRec| (t.role, t.body);
    if turns.len() > 0 {
        lemma_own_turns(turns.drop_last(), session);
        assert(turns.filter_map(f) =~= turns.filter(keep).map_values(show));
    } else {
        assert(turns.filter_map(f) =~= turns.filter(keep).map_values(show));
    }
}

/// A search shows the turns in the order in which they were ranked, as many as there is room for, each
/// with its session, role and body.
pub proof fn law_hits_go_by_the_turns(m: Memory, order: Seq<i64>, n: usize, k: int)
    requires
        m.max_n >= 1,
        forall|j: int| 0 <= j < order.len() ==> 1 <= #[trigger] order[j] <= m.turns.len(),
    ensures
        ({
            let rows = m.found(order, n);
            &&& rows.len() == if order.len() <= room(n, m.max_n) {
                order.len() as int
            } else {
                room(n, m.max_n)
            }
            &&& 0 <= k < rows.len() ==> rows[k].0 == m.turns[order[k] - 1].session_id && rows[k].1 == m.turns[order[k]
                - 1].role && rows[k].2 == m.turns[order[k] - 1].body
        }),
{
}

/// A write is taken exactly where the subject is named, the target is one of the two, the action can be
/// carried out and the result is within the cap of the target: 2200 characters for the agent's memory,
/// 1375 for the user's. What it writes is then what the target holds, and no other content changes.
pub proof fn law_writes_are_taken(m: Memory, now: i64, subject: Text, target: Text, action: Text, data: Text, s2: Text, t2: Text)
    ensures
        ({
            let (after, r) = m.written(now, subject, target, action, data);
            let edit = entries::edited(m.content(subject, target), action, data);
            let known = target == "agent"@ || target == "user"@;
            let cap: int = if target == "agent"@ {
                2200
            } else {
                1375
            };
            &&& r is Ok <==> known && subject.len() > 0 && edit is Ok && (edit->Ok_0 is Some ==> edit->Ok_0->0.len() <= cap)
            &&& r is Ok && edit->Ok_0 is None ==> after == m && r->Ok_0 == (WriteRec::Read {
                content: m.content(subject, target),
            })
            &&& r is Ok && edit->Ok_0 is Some ==> after.content(subject, target) == edit->Ok_0->0 && r->Ok_0 == (
            WriteRec::Updated { chars: edit->Ok_0->0.len() as int })
            &&& (s2, t2) != (subject, target) ==> after.content(s2, t2) == m.content(s2, t2)
            &&& r is Err ==> after == m
            &&& after.turns == m.turns
            &&& known && subject.len() > 0 && edit is Err ==> r->Err_0 == edit->Err_0
            &&& known && subject.len() > 0 && edit is Ok && r is Err ==> r->Err_0 is CapExceeded
            &&& !known || subject.len() == 0 ==> r->Err_0 is InvalidArg
        }),
{
    let edit = entries::edited(m.content(subject, target), action, data);
    if edit is Ok && edit->Ok_0 is Some {
        store::law_content_is_read_back(m, now, subject, target, edit->Ok_0->0, s2, t2);
    }
    lemma_targets_differ();
}

/// Setting a whole content is taken exactly where the subject is named, the target is one of the two and
/// the content is within its cap; the target then holds it, and no other content changes.
pub proof fn law_contents_are_set(m: Memory, now: i64, subject: Text, target: Text, content: Text, s2: Text, t2: Text)
    ensures
        ({
            let (after, r) = m.content_set(now, subject, target, content);
            let known = target == "agent"@ || target == "user"@;
            let cap: int = if target == "agent"@ {
                2200
            } else {
                1375
            };
            &&& r is Ok <==> known && subject.len() > 0 && content.len() <= cap
            &&& r is Ok ==> after.content(subject, target) == content
            &&& (s2, t2) != (subject, target) ==> after.content(s2, t2) == m.content(s2, t2)
            &&& r is Err ==> after == m
            &&& after.turns == m.turns
        }),
{
    store::law_content_is_read_back(m, now, subject, target, content, s2, t2);
    lemma_targets_differ();
}

/// A write leaves one note on its subject and target, with the new content and the time of the write; every
/// other note stays as it was, and none is taken away.
pub proof fn law_writes_are_dated(m: Memory, now: i64, subject: Text, target: Text, content: Text, k: int)
    requires
        0 <= k < m.notes.len(),
        m.content_set(now, subject, target, content).1 is Ok,
    ensures
        ({
            let after = m.content_set(now, subject, target, content).0;
            let n = m.notes[k];
            &&& exists|i: int|
                0 <= i < after.notes.len() && #[trigger] after.notes[i] == (NoteRec {
                    subject_id: subject,
                    target,
                    content,
                    updated_at: now,
                })
            &&& k < after.notes.len()
            &&& n.subject_id != subject || n.target != target ==> after.notes[k] == n
            &&& after.notes.len() <= m.notes.len() + 1
            &&& n.subject_id == subject && n.target == target ==> after.notes.len() == m.notes.len()
        }),
{
    let i = store::note_from(m.notes, subject, target, 0);
    store::lemma_note_from(m.notes, subject, target, 0);
    let after = m.with_content(now, subject, target, content);
    if i < m.notes.len() {
        assert(after.notes[i].content == content);
    } else {
        assert(after.notes[m.notes.len() as int].content == content);
    }
}

} // verus!
