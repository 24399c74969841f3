//! Curation of persistent memory by a language model: what is asked, which replies are taken, and
//! what a pass over all subjects does. A failure never changes what is remembered.
use vstd::prelude::*;
use crate::coordinator::query;
use crate::dispatch::{self, CallRec, ErrorEnvelope, HandlerOutcome, InvocationCtx, Reply};
use crate::coordinator::vocab::ErrorKind;
use crate::memory::entries;
use crate::memory::fault::{MemoryError, MemoryFault};
use crate::memory::store::{self, Memory, MemoryStore};
use crate::numeral;
use crate::outside;
use crate::text::{self, Text};

verus! {

/// The peer that the curator asks.
#[derive(Clone, Debug, PartialEq, Eq)]
pub struct AiPeerConfig {
    /// Address of the peer.
    pub addr: String,
    /// Alias under which the peer is called.
    pub alias: String,
    /// Deadline of a call in seconds.
    pub deadline_secs: i64,
}

/// Configuration of the curator.
#[derive(Clone, Debug, PartialEq, Eq)]
pub struct CuratorConfig {
    /// Whether the scheduler runs.
    pub enabled: bool,
    /// Seconds between two passes.
    pub interval_secs: u64,
    /// Subjects with no more characters than this are passed over.
    pub min_chars_to_curate: usize,
    /// The peer to ask, where there is one.
    pub ai_peer: Option<AiPeerConfig>,
}

impl Default for CuratorConfig {
    fn default() -> (r: Self)
        ensures
            r.enabled,
            r.interval_secs == 3600,
            r.min_chars_to_curate == 100,
            r.ai_peer is None,
    {
        CuratorConfig {
            enabled: default_enabled(),
            interval_secs: default_interval_secs(),
            min_chars_to_curate: default_min_chars(),
            ai_peer: None,
        }
    }
}

pub fn default_enabled() -> (r: bool)
    ensures
        r,
{
    true
}

pub fn default_interval_secs() -> (r: u64)
    ensures
        r == 3600,
{
    3600
}

pub fn default_min_chars() -> (r: usize)
    ensures
        r == 100,
{
    100
}

pub fn default_ai_alias() -> (r: String)
    ensures
        r@ == "ai"@,
{
    text::owned("ai")
}

pub fn default_ai_deadline_secs() -> (r: i64)
    ensures
        r == 30,
{
    30
}

/// The way to the language model.
pub trait AiDispatcher {
    /// The model's reply, or `None` where there is none, for whatever reason.
    fn chat(&self, session_id: &str, prompt: &str, history: &str) -> Option<String>;
}

/// Whether a dispatcher may give such a reply to such a request.
pub open spec fn spoke<A: AiDispatcher>(ai: A, session: Text, prompt: Text, history: Text, reply: Option<Text>) -> bool {
    exists|s: &str, p: &str, h: &str, r: Option<String>|
        s@ == session && p@ == prompt && h@ == history && text::opt_text(r) == reply && #[trigger] call_ensures(
            A::chat,
            (&ai, s, p, h),
            r,
        )
}

/// The argument of a chat call: `session_id|prompt|history`.
pub fn chat_arg(session_id: &str, prompt: &str, history: &str) -> (r: String)
    ensures
        r@ == session_id@ + "|"@ + prompt@ + "|"@ + history@,
{
    let mut s = text::owned(session_id);
    s.append("|");
    s.append(prompt);
    s.append("|");
    s.append(history);
    s
}

/// What the scheduler did last and does now.
#[derive(Debug, Clone)]
pub struct CuratorState {
    /// Start of the last pass.
    pub last_run_at: Option<i64>,
    /// Summary of the last pass.
    pub last_run_summary: Option<CuratorRunSummary>,
    /// Time of the next pass.
    pub next_run_at: Option<i64>,
    /// Whether a pass is under way.
    pub running: bool,
}

impl Default for CuratorState {
    fn default() -> (r: Self)
        ensures
            r == (CuratorState { last_run_at: None, last_run_summary: None, next_run_at: None, running: false }),
    {
        CuratorState { last_run_at: None, last_run_summary: None, next_run_at: None, running: false }
    }
}

/// Summary of one pass.
#[derive(Debug, Clone, Copy, PartialEq, Eq)]
pub struct CuratorRunSummary {
    pub agents_reviewed: usize,
    pub agents_curated: usize,
    pub total_chars_saved: usize,
}

/// The summary of a pass that did nothing.
pub open spec fn no_summary() -> CuratorRunSummary {
    CuratorRunSummary { agents_reviewed: 0, agents_curated: 0, total_chars_saved: 0 }
}

impl Default for CuratorRunSummary {
    fn default() -> (r: Self)
        ensures
            r == no_summary(),
    {
        CuratorRunSummary { agents_reviewed: 0, agents_curated: 0, total_chars_saved: 0 }
    }
}

/// What a curation did to one subject.
#[derive(Debug, Clone, PartialEq, Eq)]
pub struct CuratorSubjectResult {
    pub subject_id: String,
    pub agent_entries_before: usize,
    pub agent_entries_after: usize,
    pub agent_chars_before: usize,
    pub agent_chars_after: usize,
    pub user_entries_before: usize,
    pub user_entries_after: usize,
    pub user_chars_before: usize,
    pub user_chars_after: usize,
}

/// The mathematical model of [`CuratorSubjectResult`].
pub struct SubjectRec {
    pub subject_id: Text,
    pub agent_entries_before: int,
    pub agent_entries_after: int,
    pub agent_chars_before: int,
    pub agent_chars_after: int,
    pub user_entries_before: int,
    pub user_entries_after: int,
    pub user_chars_before: int,
    pub user_chars_after: int,
}

impl View for CuratorSubjectResult {
    type V = SubjectRec;

    open spec fn view(&self) -> SubjectRec {
        SubjectRec {
            subject_id: self.subject_id@,
            agent_entries_before: self.agent_entries_before as int,
            agent_entries_after: self.agent_entries_after as int,
            agent_chars_before: self.agent_chars_before as int,
            agent_chars_after: self.agent_chars_after as int,
            user_entries_before: self.user_entries_before as int,
            user_entries_after: self.user_entries_after as int,
            user_chars_before: self.user_chars_before as int,
            user_chars_after: self.user_chars_after as int,
        }
    }
}

/// How much less `after` is than `before`; zero where it is not less.
pub open spec fn less(before: int, after: int) -> int {
    if before > after {
        before - after
    } else {
        0
    }
}

impl SubjectRec {
    /// The characters saved over both targets.
    pub open spec fn saved(self) -> usize {
        store::cut_usize(
            less(self.agent_chars_before, self.agent_chars_after) + less(self.user_chars_before, self.user_chars_after),
        )
    }

    /// The result as one line of `key=value` fields.
    pub open spec fn wire(self) -> Text {
        let s = "subject_id="@ + self.subject_id;
        let s = s + "|agent_entries_before="@ + numeral::dec(self.agent_entries_before);
        let s = s + "|agent_entries_after="@ + numeral::dec(self.agent_entries_after);
        let s = s + "|agent_chars_before="@ + numeral::dec(self.agent_chars_before);
        let s = s + "|agent_chars_after="@ + numeral::dec(self.agent_chars_after);
        let s = s + "|user_entries_before="@ + numeral::dec(self.user_entries_before);
        let s = s + "|user_entries_after="@ + numeral::dec(self.user_entries_after);
        let s = s + "|user_chars_before="@ + numeral::dec(self.user_chars_before);
        let s = s + "|user_chars_after="@ + numeral::dec(self.user_chars_after);
        s + "|chars_saved="@ + numeral::dec(self.saved() as int) + "\n"@
    }
}

fn sum_usize(a: usize, b: usize) -> (r: usize)
    ensures
        r == store::cut_usize(a + b),
{
    if a > usize::MAX - b {
        usize::MAX
    } else {
        a + b
    }
}

fn minus(a: usize, b: usize) -> (r: usize)
    ensures
        r == less(a as int, b as int),
{
    if a > b {
        a - b
    } else {
        0
    }
}

impl CuratorSubjectResult {
    /// The characters saved over both targets.
    pub fn chars_saved(&self) -> (r: usize)
        ensures
            r == self@.saved(),
    {
        sum_usize(
            minus(self.agent_chars_before, self.agent_chars_after),
            minus(self.user_chars_before, self.user_chars_after),
        )
    }

    /// The result as one line of `key=value` fields.
    pub fn to_wire(&self) -> (r: String)
        ensures
            r@ == self@.wire(),
    {
        let mut s = text::owned("subject_id=");
        s.append(self.subject_id.as_str());
        s.append("|agent_entries_before=");
        numeral::push_usize(&mut s, self.agent_entries_before);
        s.append("|agent_entries_after=");
        numeral::push_usize(&mut s, self.agent_entries_after);
        s.append("|agent_chars_before=");
        numeral::push_usize(&mut s, self.agent_chars_before);
        s.append("|agent_chars_after=");
        numeral::push_usize(&mut s, self.agent_chars_after);
        s.append("|user_entries_before=");
        numeral::push_usize(&mut s, self.user_entries_before);
        s.append("|user_entries_after=");
        numeral::push_usize(&mut s, self.user_entries_after);
        s.append("|user_chars_before=");
        numeral::push_usize(&mut s, self.user_chars_before);
        s.append("|user_chars_after=");
        numeral::push_usize(&mut s, self.user_chars_after);
        s.append("|chars_saved=");
        numeral::push_usize(&mut s, self.chars_saved());
        s.append("\n");
        s
    }
}

/// What can go wrong in a curation.
#[derive(Debug, Clone, PartialEq, Eq)]
pub enum CuratorError {
    /// The store failed.
    Store(MemoryError),
    /// There was no reply.
    AiUnavailable,
    /// The reply was refused.
    AiResponseRejected(String),
}

/// The mathematical model of [`CuratorError`].
pub enum CuratorFault {
    Store(MemoryFault),
    AiUnavailable,
    AiResponseRejected(Text),
}

impl View for CuratorError {
    type V = CuratorFault;

    open spec fn view(&self) -> CuratorFault {
        match *self {
            CuratorError::Store(e) => CuratorFault::Store(e@),
            CuratorError::AiUnavailable => CuratorFault::AiUnavailable,
            CuratorError::AiResponseRejected(m) => CuratorFault::AiResponseRejected(m@),
        }
    }
}

impl CuratorFault {
    /// The fault in words.
    pub open spec fn message(self) -> Text {
        match self {
            CuratorFault::Store(f) => "store: "@ + f.message(),
            CuratorFault::AiUnavailable => "ai peer unavailable"@,
            CuratorFault::AiResponseRejected(m) => "ai response rejected: "@ + m,
        }
    }
}

impl CuratorError {
    /// The error in words.
    pub fn message(&self) -> (r: String)
        ensures
            r@ == self@.message(),
    {
        match self {
            CuratorError::Store(e) => {
                let m = e.message();
                text::owned("store: ").concat(m.as_str())
            },
            CuratorError::AiUnavailable => text::owned("ai peer unavailable"),
            CuratorError::AiResponseRejected(m) => text::owned("ai response rejected: ").concat(m.as_str()),
        }
    }
}

/// How many entries of a content are not empty.
pub open spec fn entry_count(content: Text) -> nat {
    entries::entries_of(content).filter(|t: Text| t.len() > 0).len()
}

/// The number of entries of a content that are not empty.
pub fn count_entries(content: &str) -> (r: usize)
    ensures
        r == entry_count(content@),
{
    let parts = text::cut_all(content, entries::ENTRY_DELIMITER);
    let ghost all = text::texts(parts@);
    let ghost full = |t: Text| t.len() > 0;
    let mut n: usize = 0;
    let mut i: usize = 0;
    proof {
        reveal(Seq::filter);
        assert(all.take(0) =~= Seq::empty());
    }
    while i < parts.len()
        invariant
            i <= parts@.len(),
            all == text::texts(parts@),
            full == (|t: Text| t.len() > 0),
            n == all.take(i as int).filter(full).len(),
            n <= i,
        decreases parts@.len() - i,
    {
        assert(all[i as int] == parts@[i as int]@);
        proof {
            reveal(Seq::filter);
            assert(all.take(i + 1).drop_last() =~= all.take(i as int));
            assert(all.take(i + 1).last() == all[i as int]);
        }
        if !parts[i].as_str().is_empty() {
            n = n + 1;
        }
        i = i + 1;
    }
    assert(all.take(all.len() as int) =~= all);
    n
}

/// The request to curate a content.
pub open spec fn prompt_text(content: Text, cap: int) -> Text {
    "Curate the following agent memory. Rules:\n1. Remove duplicate or near-duplicate entries\n2. Consolidate related entries into one clear entry\n3. Remove entries that are outdated or no longer useful\n4. Keep entries that are specific and actionable\n5. Preserve § as the delimiter between entries\n6. Stay within "@
        + numeral::dec(cap)
        + " characters total\n7. Return ONLY the curated entries separated by §, nothing else\n\nCurrent entries:\n"@
        + content
}

/// The request to curate a content.
pub fn build_curation_prompt(content: &str, cap: usize) -> (r: String)
    ensures
        r@ == prompt_text(content@, cap as int),
{
    let mut s = text::owned(
        "Curate the following agent memory. Rules:\n1. Remove duplicate or near-duplicate entries\n2. Consolidate related entries into one clear entry\n3. Remove entries that are outdated or no longer useful\n4. Keep entries that are specific and actionable\n5. Preserve § as the delimiter between entries\n6. Stay within ",
    );
    numeral::push_usize(&mut s, cap);
    s.append(
        " characters total\n7. Return ONLY the curated entries separated by §, nothing else\n\nCurrent entries:\n",
    );
    s.append(content);
    s
}

/// What the model is told of its task, as the history of the chat.
pub const CURATION_SYSTEM_CONTEXT: &'static str = "You are a memory curator for an AI agent. Your job is to clean up the agent's persistent memory by removing duplicates, consolidating related entries, and removing stale information. Always preserve the § character as the entry delimiter. Never exceed the character cap. Return only the curated content with no explanation or preamble.";

/// The chat session of a target.
pub open spec fn session_text(subject: Text, target: Text) -> Text {
    "curate-"@ + subject + "-"@ + target
}

pub fn curation_session(subject_id: &str, target: &str) -> (r: String)
    ensures
        r@ == session_text(subject_id@, target@),
{
    let mut s = text::owned("curate-");
    s.append(subject_id);
    s.append("-");
    s.append(target);
    s
}

/// What is taken from a reply: its text without the space around it, unless it is empty or over
/// the cap.
pub open spec fn accepted(reply: Option<Text>, cap: int) -> Result<Text, CuratorFault> {
    match reply {
        None => Err(CuratorFault::AiUnavailable),
        Some(t) => {
            let new = text::trim(t);
            if new.len() == 0 {
                Err(CuratorFault::AiResponseRejected("empty reply — refusing to wipe existing memory"@))
            } else if new.len() > cap {
                Err(
                    CuratorFault::AiResponseRejected(
                        "curated content "@ + numeral::dec(new.len() as int) + " chars exceeds cap "@ + numeral::dec(cap)
                            + "; existing memory kept"@,
                    ),
                )
            } else {
                Ok(new)
            }
        },
    }
}

/// A result of a curation as the contracts speak of it.
pub open spec fn seen_curation(r: Result<String, CuratorError>) -> Result<Text, CuratorFault> {
    match r {
        Ok(s) => Ok(s@),
        Err(e) => Err(e@),
    }
}

pub fn accept_reply(reply: Option<&str>, cap: usize) -> (r: Result<String, CuratorError>)
    ensures
        seen_curation(r) == accepted(text::opt_slice(reply), cap as int),
{
    let t = match reply {
        Some(s) => text::trimmed(s),
        None => return Err(CuratorError::AiUnavailable),
    };
    if t.as_str().is_empty() {
        return Err(CuratorError::AiResponseRejected(text::owned("empty reply — refusing to wipe existing memory")));
    }
    let chars = text::len_chars(t.as_str());
    if chars > cap {
        let mut m = text::owned("curated content ");
        numeral::push_usize(&mut m, chars);
        m.append(" chars exceeds cap ");
        numeral::push_usize(&mut m, cap);
        m.append("; existing memory kept");
        return Err(CuratorError::AiResponseRejected(m));
    }
    Ok(t)
}

/// What a curation of one content gives; an empty content needs none.
pub open spec fn curated(current: Text, cap: int, reply: Option<Text>) -> Result<Text, CuratorFault> {
    if current.len() == 0 {
        Ok(Seq::empty())
    } else {
        accepted(reply, cap)
    }
}

/// Whether a reply is one to the request to curate a content; for an empty content nothing is asked.
pub open spec fn asked<A: AiDispatcher>(ai: A, subject: Text, target: Text, current: Text, cap: int, reply: Option<Text>) -> bool {
    current.len() == 0 || spoke(
        ai,
        session_text(subject, target),
        prompt_text(current, cap),
        CURATION_SYSTEM_CONTEXT@,
        reply,
    )
}

/// What the model is asked.
pub struct Question {
    pub session_id: String,
    pub prompt: String,
    pub history: String,
}

/// The question about a content; there is none about an empty one.
pub fn question(subject_id: &str, target: &str, current: &str, cap: usize) -> (r: Option<Question>)
    ensures
        match r {
            None => current@.len() == 0,
            Some(q) => current@.len() > 0 && q.session_id@ == session_text(subject_id@, target@) && q.prompt@
                == prompt_text(current@, cap as int) && q.history@ == CURATION_SYSTEM_CONTEXT@,
        },
{
    if current.is_empty() {
        return None;
    }
    Some(
        Question {
            session_id: curation_session(subject_id, target),
            prompt: build_curation_prompt(current, cap),
            history: text::owned(CURATION_SYSTEM_CONTEXT),
        },
    )
}

fn ask<A: AiDispatcher>(ai: &A, subject_id: &str, target: &str, current: &str, cap: usize) -> (r: Option<String>)
    ensures
        asked(*ai, subject_id@, target@, current@, cap as int, text::opt_text(r)),
{
    match question(subject_id, target, current, cap) {
        None => None,
        Some(q) => {
            let s = q.session_id.as_str();
            let p = q.prompt.as_str();
            let h = q.history.as_str();
            let r = ai.chat(s, p, h);
            assert(call_ensures(A::chat, (ai, s, p, h), r));
            r
        },
    }
}

/// Curates one content.
pub fn curate_one_target<A: AiDispatcher>(ai: &A, subject_id: &str, target: &str, current: &str, cap: usize) -> (r: Result<
    String,
    CuratorError,
>)
    ensures
        exists|reply: Option<Text>|
            #![trigger curated(current@, cap as int, reply)]
            asked(*ai, subject_id@, target@, current@, cap as int, reply) && seen_curation(r) == curated(
                current@,
                cap as int,
                reply,
            ),
{
    let reply = ask(ai, subject_id, target, current, cap);
    let ghost seen = text::opt_text(reply);
    let out = if current.is_empty() {
        Ok(String::new())
    } else {
        accept_reply(text::slice_opt(&reply), cap)
    };
    assert(seen_curation(out) == curated(current@, cap as int, seen));
    out
}

/// What stands in a target after a curation: what it gave, or what stood there where it failed.
pub open spec fn kept(current: Text, cap: int, reply: Option<Text>) -> Text {
    match curated(current, cap, reply) {
        Ok(t) => t,
        Err(_) => current,
    }
}

fn keep(current: &str, cap: usize, reply: Option<&str>) -> (r: String)
    ensures
        r@ == kept(current@, cap as int, text::opt_slice(reply)),
{
    if current.is_empty() {
        return String::new();
    }
    match accept_reply(reply, cap) {
        Ok(s) => s,
        Err(_) => text::owned(current),
    }
}

/// The replies of a subject's curation and the times at which its targets are written.
pub struct Exchange {
    pub agent: Option<Text>,
    pub user: Option<Text>,
    pub agent_at: i64,
    pub user_at: i64,
}

/// The result of a curation that led from two contents to two others.
pub open spec fn subject_rec(subject: Text, a0: Text, u0: Text, a1: Text, u1: Text) -> SubjectRec {
    SubjectRec {
        subject_id: subject,
        agent_entries_before: entry_count(a0) as int,
        agent_entries_after: entry_count(a1) as int,
        agent_chars_before: a0.len() as int,
        agent_chars_after: a1.len() as int,
        user_entries_before: entry_count(u0) as int,
        user_entries_after: entry_count(u1) as int,
        user_chars_before: u0.len() as int,
        user_chars_after: u1.len() as int,
    }
}

impl Memory {
    /// The store after a target was written back, where it changed.
    pub open spec fn written_back(self, now: i64, subject: Text, target: Text, before: Text, after: Text) -> (
        Memory,
        Result<(), MemoryFault>,
    ) {
        if after == before {
            (self, Ok(()))
        } else {
            self.content_set(now, subject, target, after)
        }
    }

    /// What the curation of a subject does and returns, where its contents were `a0` and `u0`.
    pub open spec fn curation(self, subject: Text, a0: Text, u0: Text, x: Exchange) -> (
        Memory,
        Result<SubjectRec, CuratorFault>,
    ) {
        let a1 = kept(a0, entries::AGENT_MEMORY_CAP_CHARS as int, x.agent);
        let u1 = kept(u0, entries::USER_MEMORY_CAP_CHARS as int, x.user);
        let (m1, ra) = self.written_back(x.agent_at, subject, "agent"@, a0, a1);
        match ra {
            Err(f) => (m1, Err(CuratorFault::Store(f))),
            Ok(_) => {
                let (m2, ru) = m1.written_back(x.user_at, subject, "user"@, u0, u1);
                match ru {
                    Err(f) => (m2, Err(CuratorFault::Store(f))),
                    Ok(_) => (m2, Ok(subject_rec(subject, a0, u0, a1, u1))),
                }
            },
        }
    }

    /// What the curation of a subject does to its present contents.
    pub open spec fn subject_curated(self, subject: Text, x: Exchange) -> (Memory, Result<SubjectRec, CuratorFault>) {
        self.curation(subject, self.content(subject, "agent"@), self.content(subject, "user"@), x)
    }
}

/// A result of a subject's curation as the contracts speak of it.
pub open spec fn seen_subject(r: Result<CuratorSubjectResult, CuratorError>) -> Result<SubjectRec, CuratorFault> {
    match r {
        Ok(x) => Ok(x@),
        Err(e) => Err(e@),
    }
}

impl MemoryStore {
    fn write_back(&mut self, now: i64, subject_id: &str, target: &str, before: &str, after: &str) -> (r: Result<(), MemoryError>)
        ensures
            (final(self)@, store::seen_unit(r)) == old(self)@.written_back(now, subject_id@, target@, before@, after@),
            old(self).wf() ==> final(self).wf(),
    {
        if text::same(after, before) {
            Ok(())
        } else {
            self.agent_set_content_at(now, subject_id, target, after)
        }
    }

    /// Carries out the curation of a subject whose contents were given, at given times.
    pub fn apply_curation(
        &mut self,
        agent_at: i64,
        user_at: i64,
        subject_id: &str,
        agent_before: &str,
        user_before: &str,
        agent_reply: Option<&str>,
        user_reply: Option<&str>,
    ) -> (r: Result<CuratorSubjectResult, CuratorError>)
        ensures
            (final(self)@, seen_subject(r)) == old(self)@.curation(
                subject_id@,
                agent_before@,
                user_before@,
                (Exchange {
                    agent: text::opt_slice(agent_reply),
                    user: text::opt_slice(user_reply),
                    agent_at,
                    user_at,
                }),
            ),
            old(self).wf() ==> final(self).wf(),
    {
        let agent_after = keep(agent_before, entries::AGENT_MEMORY_CAP_CHARS, agent_reply);
        let user_after = keep(user_before, entries::USER_MEMORY_CAP_CHARS, user_reply);
        if let Err(e) = self.write_back(agent_at, subject_id, "agent", agent_before, agent_after.as_str()) {
            return Err(CuratorError::Store(e));
        }
        if let Err(e) = self.write_back(user_at, subject_id, "user", user_before, user_after.as_str()) {
            return Err(CuratorError::Store(e));
        }
        Ok(
            CuratorSubjectResult {
                subject_id: text::owned(subject_id),
                agent_entries_before: count_entries(agent_before),
                agent_entries_after: count_entries(agent_after.as_str()),
                agent_chars_before: text::len_chars(agent_before),
                agent_chars_after: text::len_chars(agent_after.as_str()),
                user_entries_before: count_entries(user_before),
                user_entries_after: count_entries(user_after.as_str()),
                user_chars_before: text::len_chars(user_before),
                user_chars_after: text::len_chars(user_after.as_str()),
            },
        )
    }
}

/// Whether the replies of an exchange are ones to the requests to curate a subject's contents.
pub open spec fn exchanged<A: AiDispatcher>(ai: A, m: Memory, subject: Text, x: Exchange) -> bool {
    &&& asked(
        ai,
        subject,
        "agent"@,
        m.content(subject, "agent"@),
        entries::AGENT_MEMORY_CAP_CHARS as int,
        x.agent,
    )
    &&& asked(ai, subject, "user"@, m.content(subject, "user"@), entries::USER_MEMORY_CAP_CHARS as int, x.user)
}

fn curate_with<A: AiDispatcher>(memory: &mut MemoryStore, ai: &A, subject_id: &str) -> (out: (
    Result<CuratorSubjectResult, CuratorError>,
    Ghost<Exchange>,
))
    ensures
        exchanged(*ai, old(memory)@, subject_id@, out.1@),
        (final(memory)@, seen_subject(out.0)) == old(memory)@.subject_curated(subject_id@, out.1@),
        old(memory).wf() ==> final(memory).wf(),
{
    match memory.agent_read(subject_id) {
        Ok((agent, user)) => {
            let ar = ask(ai, subject_id, "agent", agent.as_str(), entries::AGENT_MEMORY_CAP_CHARS);
            let ur = ask(ai, subject_id, "user", user.as_str(), entries::USER_MEMORY_CAP_CHARS);
            let agent_at = outside::unix_secs();
            let user_at = outside::unix_secs();
            let ghost x = Exchange { agent: text::opt_text(ar), user: text::opt_text(ur), agent_at, user_at };
            let r = memory.apply_curation(
                agent_at,
                user_at,
                subject_id,
                agent.as_str(),
                user.as_str(),
                text::slice_opt(&ar),
                text::slice_opt(&ur),
            );
            (r, Ghost(x))
        },
        Err(e) => (Err(CuratorError::Store(e)), Ghost(arbitrary())),
    }
}

/// Curates both targets of a subject now.
pub fn curate_subject<A: AiDispatcher>(memory: &mut MemoryStore, ai: &A, subject_id: &str) -> (r: Result<
    CuratorSubjectResult,
    CuratorError,
>)
    ensures
        exists|x: Exchange| #[trigger]
            exchanged(*ai, old(memory)@, subject_id@, x) && (final(memory)@, seen_subject(r)) == old(
                memory,
            )@.subject_curated(subject_id@, x),
        old(memory).wf() ==> final(memory).wf(),
{
    let (r, x) = curate_with(memory, ai, subject_id);
    r
}

/// The subject in the arguments of `memory.agent_curate`, or the refusal.
pub open spec fn curate_request(call: CallRec) -> Result<Text, Reply> {
    match call.text() {
        None => Err(call.bad_utf8("memory.agent_curate arg utf8: "@)),
        Some(s) => {
            let subject = text::trim(text::field(text::splitn(s, '|', 2), 0));
            if subject.len() == 0 {
                Err(Reply::invalid("memory.agent_curate: subject_id required"@))
            } else {
                Ok(subject)
            }
        },
    }
}

/// The subject that a `memory.agent_curate` call names, or the refusal.
pub fn read_curate_request(ctx: &InvocationCtx) -> (r: Result<String, HandlerOutcome>)
    ensures
        match r {
            Ok(s) => curate_request(ctx@) == Ok::<Text, Reply>(s@),
            Err(e) => curate_request(ctx@) == Err::<Text, Reply>(e@),
        },
{
    let s = match ctx.text_or("memory.agent_curate arg utf8: ") {
        Ok(s) => s,
        Err(e) => return Err(e),
    };
    let p = text::cut_n(s.as_str(), '|', 2);
    let subject = text::trimmed(text::field_of(&p, 0));
    if subject.as_str().is_empty() {
        return Err(dispatch::invalid(text::owned("memory.agent_curate: subject_id required")));
    }
    Ok(subject)
}

/// The reply where no dispatcher is set.
pub open spec fn unconfigured() -> Reply {
    Reply::Error {
        kind: ErrorKind::ResponderInternal,
        cause: "memory.agent_curate: AI dispatcher not configured (missing [memory.curator.ai_peer])"@,
        retry_hint: 0,
        retry_after: None,
    }
}

/// The reply where no dispatcher is set.
pub fn unconfigured_outcome() -> (r: HandlerOutcome)
    ensures
        r@ == unconfigured(),
{
    HandlerOutcome::Failed(
        ErrorEnvelope {
            kind: ErrorKind::ResponderInternal,
            cause: text::owned(
                "memory.agent_curate: AI dispatcher not configured (missing [memory.curator.ai_peer])",
            ),
            retry_hint: 0,
            retry_after: None,
        },
    )
}

/// The reply to a curation's outcome.
pub open spec fn curate_reply(r: Result<SubjectRec, CuratorFault>) -> Reply {
    match r {
        Ok(x) => Reply::body(x.wire()),
        Err(CuratorFault::Store(f)) => Reply::internal("memory.agent_curate: "@ + f.message()),
        Err(f) => Reply::internal("memory.agent_curate: "@ + f.message()),
    }
}

/// The reply to a curation's outcome.
pub fn curate_outcome(r: &Result<CuratorSubjectResult, CuratorError>) -> (out: HandlerOutcome)
    ensures
        out@ == curate_reply(seen_subject(*r)),
{
    match r {
        Ok(x) => dispatch::body(x.to_wire()),
        Err(CuratorError::Store(e)) => {
            let m = e.message();
            dispatch::internal(dispatch::glue("memory.agent_curate: ", m.as_str()))
        },
        Err(e) => {
            let m = e.message();
            dispatch::internal(dispatch::glue("memory.agent_curate: ", m.as_str()))
        },
    }
}

/// `memory.agent_curate`: curates one subject on demand, by `subject_id` or `subject_id|alias`.
pub fn handle_agent_curate<A: AiDispatcher>(memory: &mut MemoryStore, ai: Option<&A>, ctx: &InvocationCtx) -> (r: HandlerOutcome)
    ensures
        curate_request(ctx@) is Err ==> r@ == curate_request(ctx@)->Err_0 && final(memory)@ == old(memory)@,
        curate_request(ctx@) is Ok && ai is None ==> r@ == unconfigured() && final(memory)@ == old(memory)@,
        curate_request(ctx@) is Ok && ai is Some ==> exists|x: Exchange| #[trigger]
            exchanged(*ai->0, old(memory)@, curate_request(ctx@)->Ok_0, x) && final(memory)@ == old(
                memory,
            )@.subject_curated(curate_request(ctx@)->Ok_0, x).0 && r@ == curate_reply(
                old(memory)@.subject_curated(curate_request(ctx@)->Ok_0, x).1,
            ),
        old(memory).wf() ==> final(memory).wf(),
{
    let subject = match read_curate_request(ctx) {
        Ok(s) => s,
        Err(e) => return e,
    };
    match ai {
        None => unconfigured_outcome(),
        Some(a) => {
            let ghost before = memory@;
            let (r, x) = curate_with(memory, a, subject.as_str());
            let out = curate_outcome(&r);
            let ghost named = curate_request(ctx@)->Ok_0;
            assert(named == subject@);
            assert(before == old(memory)@);
            assert(exchanged(*ai->0, old(memory)@, named, x@));
            assert(memory@ == old(memory)@.subject_curated(named, x@).0);
            assert(out@ == curate_reply(old(memory)@.subject_curated(named, x@).1));
            out
        },
    }
}

/// The seconds between two passes: at least a minute.
pub fn tick_interval(cfg: &CuratorConfig) -> (r: u64)
    ensures
        r == if cfg.interval_secs < 60 {
            60u64
        } else {
            cfg.interval_secs
        },
{
    if cfg.interval_secs < 60 {
        60
    } else {
        cfg.interval_secs
    }
}

impl CuratorState {
    /// The summary of the last pass, or that of one that did nothing.
    pub open spec fn summary(self) -> CuratorRunSummary {
        match self.last_run_summary {
            Some(s) => s,
            None => no_summary(),
        }
    }

    pub fn last_summary(&self) -> (r: CuratorRunSummary)
        ensures
            r == self.summary(),
    {
        match self.last_run_summary {
            Some(s) => s,
            None => CuratorRunSummary { agents_reviewed: 0, agents_curated: 0, total_chars_saved: 0 },
        }
    }

    /// Starts a pass, unless one is under way.
    pub fn begin(&mut self, now: i64) -> (r: bool)
        ensures
            r == !old(self).running,
            *final(self) == if old(self).running {
                *old(self)
            } else {
                (CuratorState { running: true, last_run_at: Some(now), ..*old(self) })
            },
    {
        if self.running {
            return false;
        }
        self.running = true;
        self.last_run_at = Some(now);
        true
    }

    /// Ends a pass that could not be made.
    pub fn give_up(&mut self, now: i64, interval_secs: u64)
        ensures
            *final(self) == (CuratorState {
                running: false,
                next_run_at: Some(query::clipped(now + interval_secs)),
                ..*old(self)
            }),
    {
        self.running = false;
        self.next_run_at = Some(query::clip(now as i128 + interval_secs as i128));
    }

    /// Ends a pass with its summary.
    pub fn finish(&mut self, now: i64, interval_secs: u64, summary: CuratorRunSummary)
        ensures
            *final(self) == (CuratorState {
                running: false,
                last_run_summary: Some(summary),
                next_run_at: Some(query::clipped(now + interval_secs)),
                ..*old(self)
            }),
    {
        self.last_run_summary = Some(summary);
        self.next_run_at = Some(query::clip(now as i128 + interval_secs as i128));
        self.running = false;
    }
}

impl CuratorRunSummary {
    /// The summary with a subject's result counted in: one that saved characters, or that has fewer
    /// agent entries, counts as curated.
    pub open spec fn with_result(self, r: Result<SubjectRec, CuratorFault>) -> CuratorRunSummary {
        match r {
            Ok(x) => if x.saved() > 0 || x.agent_entries_before > x.agent_entries_after {
                CuratorRunSummary {
                    agents_reviewed: self.agents_reviewed,
                    agents_curated: store::cut_usize(self.agents_curated + 1),
                    total_chars_saved: store::cut_usize(self.total_chars_saved + x.saved()),
                }
            } else {
                self
            },
            Err(_) => self,
        }
    }

    /// Counts a subject's result in.
    pub fn note(&mut self, r: &Result<CuratorSubjectResult, CuratorError>)
        ensures
            *final(self) == old(self).with_result(seen_subject(*r)),
    {
        if let Ok(x) = r {
            let saved = x.chars_saved();
            if saved > 0 || x.agent_entries_before > x.agent_entries_after {
                self.agents_curated = sum_usize(self.agents_curated, 1);
                self.total_chars_saved = sum_usize(self.total_chars_saved, saved);
            }
        }
    }
}

/// What a pass over the first `n` subjects of a list does, given an exchange for each. Subjects with
/// no more than `min` characters are passed over.
pub open spec fn swept(m: Memory, list: Seq<(Text, usize)>, min: usize, xs: Seq<Exchange>, n: int) -> (
    Memory,
    CuratorRunSummary,
)
    decreases n,
{
    if n <= 0 {
        (
            m,
            CuratorRunSummary { agents_reviewed: list.len() as usize, agents_curated: 0, total_chars_saved: 0 },
        )
    } else {
        let (m0, s0) = swept(m, list, min, xs, n - 1);
        if list[n - 1].1 <= min {
            (m0, s0)
        } else {
            let (m1, r) = m0.subject_curated(list[n - 1].0, xs[n - 1]);
            (m1, s0.with_result(r))
        }
    }
}

/// Whether the replies of a pass are ones to the requests that it makes.
pub open spec fn sweep_exchanged<A: AiDispatcher>(
    ai: A,
    m: Memory,
    list: Seq<(Text, usize)>,
    min: usize,
    xs: Seq<Exchange>,
) -> bool {
    &&& xs.len() == list.len()
    &&& forall|k: int|
        0 <= k < list.len() && (#[trigger] list[k]).1 > min ==> exchanged(
            ai,
            swept(m, list, min, xs, k).0,
            list[k].0,
            xs[k],
        )
}

proof fn lemma_swept_prefix(m: Memory, list: Seq<(Text, usize)>, min: usize, xs: Seq<Exchange>, x: Exchange, n: int)
    requires
        0 <= n <= xs.len(),
    ensures
        swept(m, list, min, xs.push(x), n) == swept(m, list, min, xs, n),
    decreases n,
{
    if n > 0 {
        lemma_swept_prefix(m, list, min, xs, x, n - 1);
    }
}

/// Whether a subject with so many characters is curated.
pub fn is_due(total_chars: usize, min_chars: usize) -> (r: bool)
    ensures
        r == (total_chars > min_chars),
{
    total_chars > min_chars
}

fn sweep<A: AiDispatcher>(memory: &mut MemoryStore, ai: &A, min_chars: usize) -> (r: CuratorRunSummary)
    ensures
        exists|xs: Seq<Exchange>| #[trigger]
            sweep_exchanged(*ai, old(memory)@, old(memory)@.totals(), min_chars, xs) && (final(memory)@, r) == swept(
                old(memory)@,
                old(memory)@.totals(),
                min_chars,
                xs,
                old(memory)@.totals().len() as int,
            ),
        old(memory).wf() ==> final(memory).wf(),
{
    let subjects = match memory.list_subjects_with_total_chars() {
        Ok(s) => s,
        Err(_) => Vec::new(),
    };
    let ghost m0 = memory@;
    let ghost list = m0.totals();
    assert(store::total_texts(subjects@) == list);
    assert(list.len() == subjects@.len());
    let mut summary = CuratorRunSummary { agents_reviewed: subjects.len(), agents_curated: 0, total_chars_saved: 0 };
    let ghost mut xs: Seq<Exchange> = Seq::empty();
    let mut i: usize = 0;
    while i < subjects.len()
        invariant
            i <= subjects@.len(),
            list == store::total_texts(subjects@),
            list.len() == subjects@.len(),
            m0 == old(memory)@,
            xs.len() == i,
            (memory@, summary) == swept(m0, list, min_chars, xs, i as int),
            forall|k: int|
                0 <= k < i && (#[trigger] list[k]).1 > min_chars ==> exchanged(
                    *ai,
                    swept(m0, list, min_chars, xs, k).0,
                    list[k].0,
                    xs[k],
                ),
            old(memory).wf() ==> memory.wf(),
        decreases subjects@.len() - i,
    {
        assert(list[i as int] == (subjects@[i as int].0@, subjects@[i as int].1));
        let ghost before = xs;
        if is_due(subjects[i].1, min_chars) {
            let ghost m1 = memory@;
            let (r, x) = curate_with(memory, ai, subjects[i].0.as_str());
            summary.note(&r);
            proof {
                xs = before.push(x@);
            }
        } else {
            proof {
                xs = before.push(arbitrary());
            }
        }
        proof {
            lemma_swept_prefix(m0, list, min_chars, before, xs.last(), i as int);
            assert(xs =~= before.push(xs.last()));
            assert forall|k: int| 0 <= k < i + 1 && (#[trigger] list[k]).1 > min_chars implies exchanged(
                *ai,
                swept(m0, list, min_chars, xs, k).0,
                list[k].0,
                xs[k],
            ) by {
                lemma_swept_prefix(m0, list, min_chars, before, xs.last(), k);
            }
        }
        i = i + 1;
    }
    assert(sweep_exchanged(*ai, m0, list, min_chars, xs));
    summary
}

/// One pass of the scheduler now: skipped while another is under way, given up where no dispatcher
/// is set.
pub fn run_one_tick<A: AiDispatcher>(
    memory: &mut MemoryStore,
    state: &mut CuratorState,
    ai: Option<&A>,
    min_chars: usize,
    interval_secs: u64,
) -> (r: CuratorRunSummary)
    ensures
        match ai {
            _ if old(state).running => r == old(state).summary() && *final(state) == *old(state) && final(memory)@
                == old(memory)@,
            None => r == old(state).summary() && final(memory)@ == old(memory)@ && exists|start: i64, end: i64|
                *final(state) == (CuratorState {
                    running: false,
                    last_run_at: Some(start),
                    next_run_at: Some(#[trigger] ended(start, end, interval_secs)),
                    ..*old(state)
                }),
            Some(a) => (exists|xs: Seq<Exchange>| #[trigger]
                sweep_exchanged(*a, old(memory)@, old(memory)@.totals(), min_chars, xs) && (final(memory)@, r) == swept(
                    old(memory)@,
                    old(memory)@.totals(),
                    min_chars,
                    xs,
                    old(memory)@.totals().len() as int,
                )) && exists|start: i64, end: i64|
                *final(state) == (CuratorState {
                    running: false,
                    last_run_at: Some(start),
                    last_run_summary: Some(r),
                    next_run_at: Some(#[trigger] ended(start, end, interval_secs)),
                }),
        },
        old(memory).wf() ==> final(memory).wf(),
{
    let start = outside::unix_secs();
    if !state.begin(start) {
        return state.last_summary();
    }
    match ai {
        None => {
            let end = outside::unix_secs();
            state.give_up(end, interval_secs);
            assert(state.next_run_at == Some(ended(start, end, interval_secs)));
            state.last_summary()
        },
        Some(a) => {
            let summary = sweep(memory, a, min_chars);
            let end = outside::unix_secs();
            state.finish(end, interval_secs, summary);
            assert(state.next_run_at == Some(ended(start, end, interval_secs)));
            summary
        },
    }
}

/// The time of the next pass, where the last one went from `start` to `end`.
pub open spec fn ended(start: i64, end: i64, interval_secs: u64) -> i64 {
    query::clipped(end + interval_secs)
}

} // verus!
