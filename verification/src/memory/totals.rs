//! What the listing of subjects says of their notes, and which of them a pass of the curator reaches.
use vstd::prelude::*;
use vstd::utf8::*;
use crate::coordinator::vocab::ErrorKind;
use crate::dispatch::Reply;
use crate::memory::curator::{self, CuratorFault, CuratorRunSummary, Exchange, SubjectRec};
use crate::memory::entries;
use crate::memory::laws;
use crate::memory::store::{self, Memory, NoteRec};
use crate::numeral;
use crate::ordering;
use crate::text::{self, Text};

verus! {

/// Whether each note is on a named subject and one of the two targets, and no two notes are on the same.
pub open spec fn keyed(m: Memory) -> bool {
    &&& forall|i: int|
        0 <= i < m.notes.len() ==> (#[trigger] m.notes[i]).subject_id.len() > 0 && (m.notes[i].target == "agent"@
            || m.notes[i].target == "user"@)
    &&& forall|i: int, j: int|
        0 <= i < j < m.notes.len() ==> (#[trigger] m.notes[i]).subject_id != (#[trigger] m.notes[j]).subject_id
            || m.notes[i].target != m.notes[j].target
}

/// What a target holds is what its note says, and nothing where there is no note.
pub proof fn law_content_is_that_of_the_note(m: Memory, subject: Text, target: Text, i: int)
    requires
        keyed(m),
    ensures
        0 <= i < m.notes.len() && m.notes[i].subject_id == subject && m.notes[i].target == target ==> m.content(
            subject,
            target,
        ) == m.notes[i].content,
        (forall|k: int|
            0 <= k < m.notes.len() ==> (#[trigger] m.notes[k]).subject_id != subject || m.notes[k].target != target)
            ==> m.content(subject, target) == Seq::<char>::empty(),
{
    store::lemma_note_from(m.notes, subject, target, 0);
    let k = store::note_from(m.notes, subject, target, 0);
    if 0 <= i < m.notes.len() && m.notes[i].subject_id == subject && m.notes[i].target == target {
        if k < i {
            assert(m.notes[k].subject_id != m.notes[i].subject_id || m.notes[k].target != m.notes[i].target);
        }
    }
}

proof fn lemma_set_keeps_keys(m: Memory, now: i64, subject: Text, target: Text, content: Text)
    requires
        keyed(m),
        subject.len() > 0,
        target == "agent"@ || target == "user"@,
    ensures
        keyed(m.with_content(now, subject, target, content)),
{
    store::lemma_note_from(m.notes, subject, target, 0);
}

/// Every write keeps the notes keyed: one note for each subject and target.
pub proof fn law_writes_keep_notes_keyed(m: Memory, now: i64, subject: Text, target: Text, action: Text, data: Text)
    requires
        keyed(m),
    ensures
        keyed(m.written(now, subject, target, action, data).0),
        keyed(m.content_set(now, subject, target, data).0),
        keyed(m.with_turn(now, subject, target, data)),
{
    if subject.len() > 0 && (target == "agent"@ || target == "user"@) {
        let old = m.content(subject, target);
        if entries::edited(old, action, data) is Ok && entries::edited(old, action, data)->Ok_0 is Some {
            lemma_set_keeps_keys(m, now, subject, target, entries::edited(old, action, data)->Ok_0->0);
        }
        lemma_set_keeps_keys(m, now, subject, target, data);
    }
}

proof fn lemma_subjects(notes: Seq<NoteRec>, n: int)
    requires
        0 <= n <= notes.len(),
    ensures
        store::subjects(notes, n).no_duplicates(),
        forall|s: Text| #[trigger]
            store::subjects(notes, n).contains(s) <==> exists|i: int|
                0 <= i < n && (#[trigger] notes[i]).subject_id == s,
    decreases n,
{
    if n > 0 {
        lemma_subjects(notes, n - 1);
        let before = store::subjects(notes, n - 1);
        let all = store::subjects(notes, n);
        let x = notes[n - 1].subject_id;
        if !before.contains(x) {
            assert forall|s: Text| #[trigger] all.contains(s) <==> before.contains(s) || s == x by {
                if before.contains(s) {
                    let i = choose|i: int| 0 <= i < before.len() && before[i] == s;
                    assert(all[i] == s);
                }
                assert(all[before.len() as int] == x);
            }
            assert forall|i: int, j: int| 0 <= i < j < all.len() implies all[i] != all[j] by {
                if j == before.len() {
                    assert(before.contains(before[i]));
                }
            }
        }
        assert forall|s: Text| #[trigger] all.contains(s) <==> exists|i: int|
            0 <= i < n && (#[trigger] notes[i]).subject_id == s by {
            if all.contains(s) && s != x {
                assert(before.contains(s));
                let i = choose|i: int| 0 <= i < n - 1 && (#[trigger] notes[i]).subject_id == s;
                assert(notes[i].subject_id == s);
            }
            if exists|i: int| 0 <= i < n && (#[trigger] notes[i]).subject_id == s {
                let i = choose|i: int| 0 <= i < n && (#[trigger] notes[i]).subject_id == s;
                if i < n - 1 {
                    assert(before.contains(s));
                }
            }
        }
    }
}

/// The listing names each subject that has a note once, in the order of the ids.
pub proof fn law_listing_names_each_subject_once(m: Memory)
    ensures
        forall|k: int|
            0 <= k < m.totals().len() ==> exists|i: int|
                0 <= i < m.notes.len() && (#[trigger] m.notes[i]).subject_id == (#[trigger] m.totals()[k]).0,
        forall|i: int|
            0 <= i < m.notes.len() ==> exists|k: int|
                0 <= k < m.totals().len() && (#[trigger] m.totals()[k]).0 == (#[trigger] m.notes[i]).subject_id,
        forall|j: int, k: int|
            0 <= j < k < m.totals().len() ==> ordering::text_before(
                (#[trigger] m.totals()[j]).0,
                (#[trigger] m.totals()[k]).0,
            ),
{
    let n = m.notes.len() as int;
    let names = store::subjects(m.notes, n);
    let key = store::subject_key();
    let sorted = ordering::sorted_by_key(names, key);
    let list = m.totals();
    lemma_subjects(m.notes, n);
    ordering::law_sorting_keeps_rows(names, key);
    ordering::law_sorting_orders_rows(names, key);
    assert forall|k: int| 0 <= k < list.len() implies exists|i: int|
        0 <= i < m.notes.len() && (#[trigger] m.notes[i]).subject_id == (#[trigger] list[k]).0 by {
        assert(list[k].0 == sorted[k]);
        assert(sorted.contains(sorted[k]));
        assert(names.contains(sorted[k]));
    }
    assert forall|i: int| 0 <= i < m.notes.len() implies exists|k: int|
        0 <= k < list.len() && (#[trigger] list[k]).0 == (#[trigger] m.notes[i]).subject_id by {
        let s = m.notes[i].subject_id;
        assert(names.contains(s));
        assert(sorted.contains(s));
        let k = choose|k: int| 0 <= k < sorted.len() && sorted[k] == s;
        assert(list[k].0 == s);
    }
    assert forall|j: int, k: int| 0 <= j < k < list.len() implies ordering::text_before(
        (#[trigger] list[j]).0,
        (#[trigger] list[k]).0,
    ) by {
        assert(list[j].0 == sorted[j] && list[k].0 == sorted[k]);
        assert(!key(sorted[k]).before(key(sorted[j])));
        ordering::lemma_text_before_total(sorted[j], sorted[k]);
    }
}

/// The characters of a subject's two targets together.
pub open spec fn both(m: Memory, subject: Text) -> nat {
    m.content(subject, "agent"@).len() + m.content(subject, "user"@).len()
}

proof fn lemma_targets_differ()
    ensures
        "agent"@ != "user"@,
{
    reveal_strlit("agent");
    reveal_strlit("user");
    assert("agent"@.len() == 5);
    assert("user"@.len() == 4);
}

/// The length of the note on a subject and target among the first `n`; zero where there is none.
spec fn note_len(notes: Seq<NoteRec>, subject: Text, target: Text, n: int) -> int {
    let i = store::note_from(notes, subject, target, 0);
    if i < n {
        notes[i].content.len() as int
    } else {
        0
    }
}

proof fn lemma_chars(m: Memory, subject: Text, n: int)
    requires
        keyed(m),
        0 <= n <= m.notes.len(),
    ensures
        store::subject_chars(m.notes, subject, n) == note_len(m.notes, subject, "agent"@, n) + note_len(
            m.notes,
            subject,
            "user"@,
            n,
        ),
    decreases n,
{
    lemma_targets_differ();
    store::lemma_note_from(m.notes, subject, "agent"@, 0);
    store::lemma_note_from(m.notes, subject, "user"@, 0);
    if n > 0 {
        lemma_chars(m, subject, n - 1);
        let x = m.notes[n - 1];
        let a = store::note_from(m.notes, subject, "agent"@, 0);
        let u = store::note_from(m.notes, subject, "user"@, 0);
        if x.subject_id == subject {
            if x.target == "agent"@ {
                if a < n - 1 {
                    assert(m.notes[a].target != m.notes[n - 1].target);
                }
                assert(a == n - 1);
                assert(u != n - 1);
            } else {
                if u < n - 1 {
                    assert(m.notes[u].target != m.notes[n - 1].target);
                }
                assert(u == n - 1);
                assert(a != n - 1);
            }
        }
    }
}

/// The total listed for a subject is the length of its agent memory and its user memory together.
pub proof fn law_totals_count_both_targets(m: Memory, k: int)
    requires
        keyed(m),
        0 <= k < m.totals().len(),
    ensures
        both(m, m.totals()[k].0) <= usize::MAX ==> m.totals()[k].1 == both(m, m.totals()[k].0),
        both(m, m.totals()[k].0) > usize::MAX ==> m.totals()[k].1 == usize::MAX,
{
    let n = m.notes.len() as int;
    let s = m.totals()[k].0;
    lemma_chars(m, s, n);
}

/// The total listed for a subject is the summed length of its notes.
pub proof fn law_totals_add_up_the_notes(m: Memory, k: int)
    requires
        0 <= k < m.totals().len(),
    ensures
        ({
            let (s, sum) = m.totals()[k];
            let all = m.notes.filter(|x: NoteRec| x.subject_id == s).fold_left(
                0int,
                |n: int, x: NoteRec| n + x.content.len(),
            );
            sum == if all > usize::MAX {
                usize::MAX as int
            } else {
                all
            }
        }),
{
    let s = m.totals()[k].0;
    lemma_sum(m.notes, s, m.notes.len() as int);
    assert(m.notes.take(m.notes.len() as int) =~= m.notes);
}

proof fn lemma_sum(notes: Seq<NoteRec>, s: Text, n: int)
    requires
        0 <= n <= notes.len(),
    ensures
        store::subject_chars(notes, s, n) == notes.take(n).filter(|x: NoteRec| x.subject_id == s).fold_left(
            0int,
            |k: int, x: NoteRec| k + x.content.len(),
        ),
        store::subject_chars(notes, s, n) >= 0,
    decreases n,
{
    reveal(Seq::filter);
    let keep = |x: NoteRec| x.subject_id == s;
    let plus = |k: int, x: NoteRec| k + x.content.len();
    if n == 0 {
        assert(notes.take(0) =~= Seq::<NoteRec>::empty());
        assert(notes.take(0).filter(keep) =~= Seq::<NoteRec>::empty());
    } else {
        lemma_sum(notes, s, n - 1);
        let rest = notes.take(n - 1).filter(keep);
        assert(notes.take(n).drop_last() =~= notes.take(n - 1));
        assert(notes.take(n).last() == notes[n - 1]);
        if keep(notes[n - 1]) {
            let all = notes.take(n).filter(keep);
            assert(all == rest.push(notes[n - 1]));
            assert(all.drop_last() =~= rest);
            assert(all.fold_left(0int, plus) == plus(rest.fold_left(0int, plus), notes[n - 1]));
        } else {
            assert(notes.take(n).filter(keep) == rest);
        }
    }
}

/// What a target holds after a reply: the reply without the space around it, where there is something to
/// curate and the reply is neither empty nor too long; else what it held.
pub open spec fn settled(held: Text, reply: Option<Text>, cap: int) -> Text {
    match reply {
        Some(t) => if held.len() > 0 && 0 < text::trim(t).len() <= cap {
            text::trim(t)
        } else {
            held
        },
        None => held,
    }
}

proof fn lemma_swept(m: Memory, list: Seq<(Text, usize)>, min: usize, xs: Seq<Exchange>, n: int, subject: Text, at: int)
    requires
        0 <= n <= list.len(),
        forall|k: int| 0 <= k < list.len() ==> (#[trigger] list[k]).0.len() > 0,
        forall|k: int| 0 <= k < list.len() && k != at ==> (#[trigger] list[k]).0 != subject,
        0 <= at < list.len() ==> list[at].0 == subject,
    ensures
        ({
            let after = curator::swept(m, list, min, xs, n).0;
            let done = 0 <= at < n && list[at].1 > min;
            &&& after.content(subject, "agent"@) == if done {
                settled(m.content(subject, "agent"@), xs[at].agent, 2200)
            } else {
                m.content(subject, "agent"@)
            }
            &&& after.content(subject, "user"@) == if done {
                settled(m.content(subject, "user"@), xs[at].user, 1375)
            } else {
                m.content(subject, "user"@)
            }
        }),
    decreases n,
{
    if n > 0 {
        lemma_swept(m, list, min, xs, n - 1, subject, at);
        let m0 = curator::swept(m, list, min, xs, n - 1).0;
        let x = list[n - 1].0;
        if list[n - 1].1 > min {
            if x == subject {
                assert(at == n - 1);
                let other = subject.push('a');
                assert(other.len() != subject.len());
                laws::law_targets_are_curated_apart(m0, subject, xs[n - 1], other, "agent"@);
                let a0 = m0.content(subject, "agent"@);
                let u0 = m0.content(subject, "user"@);
                assert(a0.len() == 0 ==> a0 =~= Seq::empty());
                assert(u0.len() == 0 ==> u0 =~= Seq::empty());
            } else {
                laws::law_targets_are_curated_apart(m0, x, xs[n - 1], subject, "agent"@);
                laws::law_targets_are_curated_apart(m0, x, xs[n - 1], subject, "user"@);
            }
        }
    }
}

/// A pass of the curator reaches exactly the subjects whose two contents together have more characters
/// than the threshold: each of their targets then holds what its reply leads to. The contents of all
/// other subjects stay as they were.
pub proof fn law_passes_reach_what_is_due(m: Memory, min: usize, xs: Seq<Exchange>, subject: Text)
    requires
        keyed(m),
        both(m, subject) <= usize::MAX,
        xs.len() == m.totals().len(),
    ensures
        ({
            let after = curator::swept(m, m.totals(), min, xs, m.totals().len() as int).0;
            let a0 = m.content(subject, "agent"@);
            let u0 = m.content(subject, "user"@);
            &&& both(m, subject) <= min ==> after.content(subject, "agent"@) == a0 && after.content(subject, "user"@) == u0
            &&& both(m, subject) > min ==> exists|k: int|
                0 <= k < xs.len() && m.totals()[k].0 == subject && after.content(subject, "agent"@) == settled(
                    a0,
                    (#[trigger] xs[k]).agent,
                    2200,
                ) && after.content(subject, "user"@) == settled(u0, xs[k].user, 1375)
        }),
{
    let list = m.totals();
    let n = list.len() as int;
    law_listing_names_each_subject_once(m);
    assert forall|k: int| 0 <= k < list.len() implies (#[trigger] list[k]).0.len() > 0 by {
        let i = choose|i: int| 0 <= i < m.notes.len() && (#[trigger] m.notes[i]).subject_id == list[k].0;
        assert(m.notes[i].subject_id.len() > 0);
    }
    if exists|k: int| 0 <= k < list.len() && (#[trigger] list[k]).0 == subject {
        let at = choose|k: int| 0 <= k < list.len() && (#[trigger] list[k]).0 == subject;
        assert forall|k: int| 0 <= k < list.len() && k != at implies (#[trigger] list[k]).0 != subject by {
            ordering::lemma_text_before_irreflexive(subject);
            if k < at {
                assert(ordering::text_before(list[k].0, list[at].0));
            } else {
                assert(ordering::text_before(list[at].0, list[k].0));
            }
        }
        law_totals_count_both_targets(m, at);
        lemma_swept(m, list, min, xs, n, subject, at);
        assert(xs[at] == xs[at]);
    } else {
        assert forall|k: int| 0 <= k < m.notes.len() implies (#[trigger] m.notes[k]).subject_id != subject by {
            if m.notes[k].subject_id == subject {
                let j = choose|j: int| 0 <= j < list.len() && (#[trigger] list[j]).0 == m.notes[k].subject_id;
                assert(list[j].0 == subject);
            }
        }
        law_content_is_that_of_the_note(m, subject, "agent"@, 0);
        law_content_is_that_of_the_note(m, subject, "user"@, 0);
        lemma_swept(m, list, min, xs, n, subject, -1);
    }
}

/// A reply is taken exactly where there is one that, without the space around it, is neither empty nor
/// over the cap; what is taken is the reply without that space.
pub proof fn law_replies_are_taken(reply: Option<Text>, cap: int)
    ensures
        curator::accepted(reply, cap) is Ok <==> reply is Some && 0 < text::trim(reply->0).len() <= cap,
        curator::accepted(reply, cap) matches Ok(t) ==> t == text::trim(reply->0),
        reply is None ==> curator::accepted(reply, cap) == Err::<Text, CuratorFault>(CuratorFault::AiUnavailable),
        reply is Some && curator::accepted(reply, cap) is Err ==> curator::accepted(reply, cap)->Err_0
            is AiResponseRejected,
{
}

/// What stands in a target after a curation, by what stood there and the reply.
pub proof fn law_curation_settles_each_target(m: Memory, subject: Text, x: Exchange)
    requires
        subject.len() > 0,
    ensures
        ({
            let (after, r) = m.subject_curated(subject, x);
            let a0 = m.content(subject, "agent"@);
            let u0 = m.content(subject, "user"@);
            let a1 = settled(a0, x.agent, 2200);
            let u1 = settled(u0, x.user, 1375);
            let c = r->Ok_0;
            &&& r is Ok
            &&& after.content(subject, "agent"@) == a1
            &&& after.content(subject, "user"@) == u1
            &&& after.turns == m.turns
            &&& c.subject_id == subject
            &&& c.agent_chars_before == a0.len() && c.agent_chars_after == a1.len()
            &&& c.user_chars_before == u0.len() && c.user_chars_after == u1.len()
            &&& c.agent_entries_before == filled(a0) && c.agent_entries_after == filled(a1)
            &&& c.user_entries_before == filled(u0) && c.user_entries_after == filled(u1)
            &&& a0.len() + u0.len() <= usize::MAX ==> c.saved() == shrunk(a0, a1) + shrunk(u0, u1)
        }),
{
    let other = subject.push('a');
    assert(other.len() != subject.len());
    laws::law_targets_are_curated_apart(m, subject, x, other, "agent"@);
    let a0 = m.content(subject, "agent"@);
    let u0 = m.content(subject, "user"@);
    assert(a0.len() == 0 ==> a0 =~= Seq::empty());
    assert(u0.len() == 0 ==> u0 =~= Seq::empty());
}

/// How many entries of a content are not empty.
pub open spec fn filled(content: Text) -> nat {
    text::split_all(content, '§').filter(|t: Text| t.len() > 0).len()
}

/// By how many characters a content got shorter.
pub open spec fn shrunk(before: Text, after: Text) -> int {
    if before.len() > after.len() {
        before.len() - after.len()
    } else {
        0
    }
}

/// A curation, and a pass over all subjects, keeps one note for each subject and target.
pub proof fn law_curation_keeps_notes_keyed(m: Memory, subject: Text, x: Exchange)
    requires
        keyed(m),
    ensures
        keyed(m.subject_curated(subject, x).0),
{
    let a0 = m.content(subject, "agent"@);
    let u0 = m.content(subject, "user"@);
    let a1 = curator::kept(a0, entries::AGENT_MEMORY_CAP_CHARS as int, x.agent);
    let u1 = curator::kept(u0, entries::USER_MEMORY_CAP_CHARS as int, x.user);
    let m1 = m.written_back(x.agent_at, subject, "agent"@, a0, a1).0;
    law_writes_keep_notes_keyed(m, x.agent_at, subject, "agent"@, Seq::empty(), a1);
    law_writes_keep_notes_keyed(m1, x.user_at, subject, "user"@, Seq::empty(), u1);
}

/// A result counts as curated in the summary of a pass exactly where characters were saved or entries of
/// the agent's memory went; the characters saved are added up.
pub proof fn law_summaries_count_what_was_curated(s: CuratorRunSummary, c: SubjectRec)
    requires
        c.agent_chars_before + c.user_chars_before <= usize::MAX,
        0 <= c.agent_chars_after,
        0 <= c.user_chars_after,
        s.agents_curated < usize::MAX,
        s.total_chars_saved + c.agent_chars_before + c.user_chars_before <= usize::MAX,
        0 <= c.agent_chars_before,
        0 <= c.user_chars_before,
    ensures
        ({
            let n = s.with_result(Ok(c));
            let agent = if c.agent_chars_before > c.agent_chars_after {
                c.agent_chars_before - c.agent_chars_after
            } else {
                0
            };
            let user = if c.user_chars_before > c.user_chars_after {
                c.user_chars_before - c.user_chars_after
            } else {
                0
            };
            let better = agent + user > 0 || c.agent_entries_after < c.agent_entries_before;
            &&& n.agents_reviewed == s.agents_reviewed
            &&& n.agents_curated == s.agents_curated + if better {
                1int
            } else {
                0
            }
            &&& n.total_chars_saved == s.total_chars_saved + agent + user
        }),
        forall|f: CuratorFault| #[trigger] s.with_result(Err(f)) == s,
{
}

/// A target has room for its own number of characters, and there are just two targets.
pub proof fn law_targets_have_caps(target: Text)
    ensures
        entries::cap_of("agent"@) == Some(2200usize),
        entries::cap_of("user"@) == Some(1375usize),
        entries::cap_of(target) is Some <==> target == "agent"@ || target == "user"@,
{
    reveal_strlit("agent");
    reveal_strlit("user");
    assert("agent"@.len() != "user"@.len());
}

/// The next pass comes one interval after the last one ended, however long that took.
pub proof fn law_passes_are_an_interval_apart(start: i64, end: i64, interval: u64)
    ensures
        end + interval <= i64::MAX ==> curator::ended(start, end, interval) == end + interval,
        end + interval > i64::MAX ==> curator::ended(start, end, interval) == i64::MAX,
{
}

/// What a curation saved is what both targets lost, and a target that grew counts for nothing. The reply
/// tells each count under its name.
pub proof fn law_savings_are_told(x: SubjectRec)
    requires
        0 <= x.agent_chars_before <= 2200,
        0 <= x.user_chars_before <= 1375,
        0 <= x.agent_chars_after,
        0 <= x.user_chars_after,
    ensures
        ({
            let agent = if x.agent_chars_before > x.agent_chars_after {
                x.agent_chars_before - x.agent_chars_after
            } else {
                0
            };
            let user = if x.user_chars_before > x.user_chars_after {
                x.user_chars_before - x.user_chars_after
            } else {
                0
            };
            &&& x.saved() == agent + user
            &&& curator::curate_reply(Ok(x)) == Reply::Body(
                encode_utf8(
                    "subject_id="@ + x.subject_id + "|agent_entries_before="@ + numeral::dec(x.agent_entries_before)
                        + "|agent_entries_after="@ + numeral::dec(x.agent_entries_after) + "|agent_chars_before="@
                        + numeral::dec(x.agent_chars_before) + "|agent_chars_after="@ + numeral::dec(x.agent_chars_after)
                        + "|user_entries_before="@ + numeral::dec(x.user_entries_before) + "|user_entries_after="@
                        + numeral::dec(x.user_entries_after) + "|user_chars_before="@ + numeral::dec(x.user_chars_before)
                        + "|user_chars_after="@ + numeral::dec(x.user_chars_after) + "|chars_saved="@ + numeral::dec(
                        agent + user,
                    ) + "\n"@,
                ),
            )
        }),
{
}

/// A failed curation is the responder's fault, and so is one without a model to ask.
pub proof fn law_failed_curations_are_told(f: CuratorFault)
    ensures
        curator::curate_reply(Err(f)) matches Reply::Error { kind, .. } && kind == ErrorKind::ResponderInternal,
        curator::unconfigured() matches Reply::Error { kind, .. } && kind == ErrorKind::ResponderInternal,
{
}

} // verus!
