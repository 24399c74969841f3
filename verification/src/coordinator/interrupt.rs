//! Cooperative interruption and operator annotations: pause and resume, freeze and unfreeze,
//! acknowledgements, investigation markers and notes.
use vstd::prelude::*;
use crate::coordinator::attempts;
use crate::coordinator::ledger::{self, Ledger, TaskStore};
use crate::coordinator::model::{self, CoordinatorError, Fault, InterruptionSnapshot, SnapshotRec, TaskHeader, TaskRec};
use crate::coordinator::vocab;
use crate::numeral;
use crate::outside::{self, JsonField, JsonFields, JsonScalar};
use crate::redaction;
use crate::text::{self, Text};

verus! {

/// An optional text as a JSON value.
pub open spec fn text_or_null(o: Option<Text>) -> JsonScalar {
    match o {
        Some(t) => JsonScalar::Text(t),
        None => JsonScalar::Null,
    }
}

fn text_or_null_field(o: Option<&str>) -> (r: JsonField)
    ensures
        r@ == text_or_null(text::opt_slice(o)),
{
    match o {
        Some(t) => JsonField::Text(text::owned(t)),
        None => JsonField::Null,
    }
}

/// The refusal of an operator text that is too long.
pub open spec fn too_long(what: Text, len: int) -> Text {
    what + " exceeds "@ + numeral::dec(vocab::MAX_OPERATOR_NOTE_LEN as int) + " bytes (got "@ + numeral::dec(len) + ")"@
}

pub(crate) fn too_long_string(what: &str, len: usize) -> (r: String)
    ensures
        r@ == too_long(what@, len as int),
{
    let mut a = text::owned(what);
    a.append(" exceeds ");
    numeral::push_usize(&mut a, vocab::MAX_OPERATOR_NOTE_LEN);
    a.append(" bytes (got ");
    numeral::push_usize(&mut a, len);
    a.append(")");
    a
}

/// Whether an operator text is too long to be kept.
pub open spec fn oversize(o: Option<Text>) -> bool {
    o is Some && text::byte_len(o->0) > vocab::MAX_OPERATOR_NOTE_LEN
}

/// The text that is stored for an operator's reason: its scrubbed form where one was given.
pub open spec fn stored(reason: Option<Text>, safe: Option<Text>) -> Option<Text> {
    if text::trim_opt(reason) is Some {
        safe
    } else {
        None
    }
}

/// The shape of a status refusal.
pub open spec fn refused(what: Text, status: Text, why: Text) -> Text {
    what + ": status '"@ + status + "' is not "@ + why
}

fn refused_string(what: &str, status: &str, why: &str) -> (r: String)
    ensures
        r@ == refused(what@, status@, why@),
{
    let mut a = text::owned(what);
    a.append(": status '");
    a.append(status);
    a.append("' is not ");
    a.append(why);
    a
}

/// What a pause or freeze request is announced as.
pub open spec fn request_text(prior: Text, generation: int, reason: Option<Text>) -> Text {
    let s = "from "@ + prior + " · gen="@ + numeral::dec(generation);
    match reason {
        Some(r) => s + " · "@ + r,
        None => s,
    }
}

fn request_string(prior: &str, generation: i64, reason: Option<&str>) -> (r: String)
    ensures
        r@ == request_text(prior@, generation as int, text::opt_slice(reason)),
{
    let mut a = text::owned("from ");
    a.append(prior);
    a.append(" · gen=");
    numeral::push_i64(&mut a, generation);
    if let Some(x) = reason {
        a.append(" · ");
        a.append(x);
    }
    a
}

/// The fields of a pause or freeze request.
pub open spec fn request_fields(prior: Text, reason: Option<Text>, author: Text, counter: Text, generation: i64) -> JsonFields {
    outside::no_fields().insert("prior_status"@, JsonScalar::Text(prior)).insert("reason"@, text_or_null(reason)).insert(
        "author"@,
        JsonScalar::Text(author),
    ).insert(counter, JsonScalar::Number(generation)).insert("intent"@, JsonScalar::Text("request"@))
}

fn request_json(prior: &str, reason: Option<&str>, author: &str, counter: &str, generation: i64) -> (r: String)
    ensures
        r@ == outside::object_text(request_fields(prior@, text::opt_slice(reason), author@, counter@, generation)),
{
    let mut m = outside::json_object();
    outside::json_put(&mut m, "prior_status", JsonField::Text(text::owned(prior)));
    outside::json_put(&mut m, "reason", text_or_null_field(reason));
    outside::json_put(&mut m, "author", JsonField::Text(text::owned(author)));
    outside::json_put(&mut m, counter, JsonField::Number(generation));
    outside::json_put(&mut m, "intent", JsonField::Text(text::owned("request")));
    outside::json_write(m)
}

/// What a resume or unfreeze request is announced as.
pub open spec fn release_text(from: Text, was: Text, generation: int) -> Text {
    from + "→pending (was "@ + was + ") · gen="@ + numeral::dec(generation)
}

fn release_string(from: &str, was: &str, generation: i64) -> (r: String)
    ensures
        r@ == release_text(from@, was@, generation as int),
{
    let mut a = text::owned(from);
    a.append("→pending (was ");
    a.append(was);
    a.append(") · gen=");
    numeral::push_i64(&mut a, generation);
    a
}

/// The fields of a resume or unfreeze request.
pub open spec fn release_fields(key: Text, was: Text, author: Text, counter: Text, generation: i64) -> JsonFields {
    outside::no_fields().insert(key, JsonScalar::Text(was)).insert("new_status"@, JsonScalar::Text("pending"@)).insert(
        "author"@,
        JsonScalar::Text(author),
    ).insert(counter, JsonScalar::Number(generation)).insert("intent"@, JsonScalar::Text("request"@))
}

fn release_json(key: &str, was: &str, author: &str, counter: &str, generation: i64) -> (r: String)
    ensures
        r@ == outside::object_text(release_fields(key@, was@, author@, counter@, generation)),
{
    let mut m = outside::json_object();
    outside::json_put(&mut m, key, JsonField::Text(text::owned(was)));
    outside::json_put(&mut m, "new_status", JsonField::Text(text::owned("pending")));
    outside::json_put(&mut m, "author", JsonField::Text(text::owned(author)));
    outside::json_put(&mut m, counter, JsonField::Number(generation));
    outside::json_put(&mut m, "intent", JsonField::Text(text::owned("request")));
    outside::json_write(m)
}

/// The event that acknowledges a kind of interruption.
pub open spec fn observed_event(kind: Text) -> Option<Text> {
    if kind == "pause"@ {
        Some("task.pause_observed"@)
    } else if kind == "resume"@ {
        Some("task.resume_observed"@)
    } else if kind == "freeze"@ {
        Some("task.freeze_propagated"@)
    } else {
        None
    }
}

pub open spec fn unknown_interruption(kind: Text) -> Text {
    "task.observe_interruption: unknown interruption_type '"@ + kind + "' (expected pause|resume|freeze)"@
}

pub open spec fn observed_text(kind: Text, generation: int, observer: Text) -> Text {
    kind + " observed at gen="@ + numeral::dec(generation) + " by "@ + observer
}

pub open spec fn observed_fields(kind: Text, generation: i64, observer: Text, now: i64) -> JsonFields {
    outside::no_fields().insert("interruption_type"@, JsonScalar::Text(kind)).insert(
        "generation_observed"@,
        JsonScalar::Number(generation),
    ).insert("observer"@, JsonScalar::Text(observer)).insert("observed_at"@, JsonScalar::Number(now)).insert(
        "intent"@,
        JsonScalar::Text("ack"@),
    )
}

pub open spec fn marked_fields(reason: Option<Text>, author: Text) -> JsonFields {
    outside::no_fields().insert("marked"@, JsonScalar::Flag(true)).insert("reason"@, text_or_null(reason)).insert(
        "author"@,
        JsonScalar::Text(author),
    )
}

pub open spec fn cleared_fields(author: Text) -> JsonFields {
    outside::no_fields().insert("marked"@, JsonScalar::Flag(false)).insert("author"@, JsonScalar::Text(author))
}

pub open spec fn marked_text(reason: Option<Text>) -> Text {
    match reason {
        Some(r) => "marked · "@ + r,
        None => "marked"@,
    }
}

pub open spec fn note_fields(note: Text, author: Text) -> JsonFields {
    outside::no_fields().insert("note"@, JsonScalar::Text(note)).insert("author"@, JsonScalar::Text(author))
}

impl Ledger {
    /// What a pause request does and returns: the status before.
    pub open spec fn paused(self, now: i64, id: Text, reason: Option<Text>, safe: Option<Text>, author: Text) -> (
        Ledger,
        Result<Text, Fault>,
    ) {
        if oversize(text::trim_opt(reason)) {
            (
                self,
                Err(
                    Fault::Invalid(
                        too_long("task.pause: reason"@, text::byte_len(text::trim_opt(reason)->0) as int),
                    ),
                ),
            )
        } else if !self.has(id) {
            (self, Err(Fault::NotFound(id)))
        } else {
            let h = self.head(id);
            if !vocab::pausable(h.status) {
                (
                    self,
                    Err(
                        Fault::Invalid(
                            refused("task.pause"@, h.status, "pausable (allowed: pending, running, retrying)"@),
                        ),
                    ),
                )
            } else {
                let generation = (h.pause_generation + 1) as i64;
                let kept = stored(reason, safe);
                (
                    self.with_head(
                        id,
                        TaskHeader { status: "paused"@, updated_at: now, pause_generation: generation, ..h },
                    ).log(
                        id,
                        now,
                        "task.pause_requested"@,
                        request_text(h.status, generation as int, kept),
                        None,
                        None,
                        outside::object_text(request_fields(h.status, kept, author, "pause_generation"@, generation)),
                    ),
                    Ok(h.status),
                )
            }
        }
    }

    /// What a freeze request does and returns: the status before.
    pub open spec fn frozen(self, now: i64, id: Text, reason: Option<Text>, safe: Option<Text>, author: Text) -> (
        Ledger,
        Result<Text, Fault>,
    ) {
        if oversize(text::trim_opt(reason)) {
            (
                self,
                Err(
                    Fault::Invalid(
                        too_long("task.freeze: reason"@, text::byte_len(text::trim_opt(reason)->0) as int),
                    ),
                ),
            )
        } else if !self.has(id) {
            (self, Err(Fault::NotFound(id)))
        } else {
            let h = self.head(id);
            if !vocab::freezable(h.status) {
                (
                    self,
                    Err(
                        Fault::Invalid(
                            refused(
                                "task.freeze"@,
                                h.status,
                                "freezable (allowed: pending, running, retrying, paused, awaiting_input, interrupted)"@,
                            ),
                        ),
                    ),
                )
            } else {
                let generation = (h.freeze_generation + 1) as i64;
                let kept = stored(reason, safe);
                (
                    self.with_head(
                        id,
                        TaskHeader {
                            status: "frozen"@,
                            frozen_at: Some(now),
                            frozen_reason: kept,
                            updated_at: now,
                            freeze_generation: generation,
                            ..h
                        },
                    ).log(
                        id,
                        now,
                        "task.freeze_requested"@,
                        request_text(h.status, generation as int, kept),
                        None,
                        None,
                        outside::object_text(request_fields(h.status, kept, author, "freeze_generation"@, generation)),
                    ),
                    Ok(h.status),
                )
            }
        }
    }

    /// The structured payload of a task's last event that has one of two types.
    pub open spec fn latest_payload(self, id: Text, a: Text, b: Text) -> Option<Text> {
        let k = attempts::last_event(self.events, id, a, b, self.events.len() as int);
        if k >= 0 {
            self.events[k].event.payload_json
        } else {
            None
        }
    }

    /// The status that a request found, as its payload tells; `fallback` where it does not tell.
    pub open spec fn status_before(self, id: Text, a: Text, b: Text, fallback: Text) -> Text {
        match self.latest_payload(id, a, b) {
            Some(pj) => match outside::document_text_field(pj, "prior_status"@) {
                Some(t) => t,
                None => fallback,
            },
            None => fallback,
        }
    }

    /// The status that the last pause request found.
    pub open spec fn pre_pause(self, id: Text) -> Text {
        self.status_before(id, "task.pause_requested"@, "task.paused"@, "paused"@)
    }

    /// The status that the last freeze request found.
    pub open spec fn pre_freeze(self, id: Text) -> Text {
        self.status_before(id, "task.freeze_requested"@, "task.freeze_requested"@, "frozen"@)
    }

    /// Whether the last pause request of a task was recorded as one that found a given status.
    pub open spec fn paused_from(self, id: Text, status: Text) -> bool {
        exists|reason: Option<Text>, author: Text, generation: i64|
            self.latest_payload(id, "task.pause_requested"@, "task.paused"@) == Some(
                outside::object_text(#[trigger] request_fields(status, reason, author, "pause_generation"@, generation)),
            )
    }

    /// Whether the last freeze request of a task was recorded as one that found a given status.
    pub open spec fn frozen_from(self, id: Text, status: Text) -> bool {
        exists|reason: Option<Text>, author: Text, generation: i64|
            self.latest_payload(id, "task.freeze_requested"@, "task.freeze_requested"@) == Some(
                outside::object_text(#[trigger] request_fields(status, reason, author, "freeze_generation"@, generation)),
            )
    }

    /// What a resume request does and returns: the status before the pause.
    pub open spec fn resumed(self, now: i64, id: Text, author: Text) -> (Ledger, Result<Text, Fault>) {
        if !self.has(id) {
            (self, Err(Fault::NotFound(id)))
        } else {
            let h = self.head(id);
            if h.status != "paused"@ {
                (
                    self,
                    Err(Fault::Invalid(refused("task.resume"@, h.status, "resumable (only 'paused' is)"@))),
                )
            } else {
                let generation = (h.pause_generation + 1) as i64;
                let was = self.pre_pause(id);
                (
                    self.with_head(
                        id,
                        TaskHeader { status: "pending"@, updated_at: now, pause_generation: generation, ..h },
                    ).log(
                        id,
                        now,
                        "task.resume_requested"@,
                        release_text("paused"@, was, generation as int),
                        None,
                        None,
                        outside::object_text(
                            release_fields("pre_pause_status"@, was, author, "pause_generation"@, generation),
                        ),
                    ),
                    Ok(was),
                )
            }
        }
    }

    /// What an unfreeze request does and returns: the status before the freeze.
    pub open spec fn unfrozen(self, now: i64, id: Text, author: Text) -> (Ledger, Result<Text, Fault>) {
        if !self.has(id) {
            (self, Err(Fault::NotFound(id)))
        } else {
            let h = self.head(id);
            if h.status != "frozen"@ {
                (
                    self,
                    Err(Fault::Invalid(refused("task.unfreeze"@, h.status, "unfreezable (only 'frozen' is)"@))),
                )
            } else {
                let generation = (h.freeze_generation + 1) as i64;
                let was = self.pre_freeze(id);
                (
                    self.with_head(
                        id,
                        TaskHeader {
                            status: "pending"@,
                            frozen_at: None,
                            frozen_reason: None,
                            updated_at: now,
                            freeze_generation: generation,
                            ..h
                        },
                    ).log(
                        id,
                        now,
                        "task.unfreeze_requested"@,
                        release_text("frozen"@, was, generation as int),
                        None,
                        None,
                        outside::object_text(
                            release_fields("pre_freeze_status"@, was, author, "freeze_generation"@, generation),
                        ),
                    ),
                    Ok(was),
                )
            }
        }
    }

    /// What a read of the interruption state returns.
    pub open spec fn snapshot(self, id: Text) -> Result<SnapshotRec, Fault> {
        if self.has(id) {
            let h = self.head(id);
            Ok(
                SnapshotRec {
                    task_id: id,
                    status: h.status,
                    pause_generation: h.pause_generation,
                    freeze_generation: h.freeze_generation,
                },
            )
        } else {
            Err(Fault::NotFound(id))
        }
    }

    /// What an acknowledgement of an interruption does and returns: the id of its event.
    pub open spec fn observed(self, now: i64, id: Text, kind: Text, generation: i64, observer: Text) -> (
        Ledger,
        Result<i64, Fault>,
    ) {
        match observed_event(kind) {
            None => (self, Err(Fault::Invalid(unknown_interruption(kind)))),
            Some(event_type) => if generation < 0 {
                (
                    self,
                    Err(
                        Fault::Invalid("task.observe_interruption: generation_observed must be non-negative"@),
                    ),
                )
            } else if !self.has(id) {
                (self, Err(Fault::NotFound(id)))
            } else {
                (
                    self.log(
                        id,
                        now,
                        event_type,
                        observed_text(kind, generation as int, observer),
                        None,
                        None,
                        outside::object_text(observed_fields(kind, generation, observer, now)),
                    ),
                    Ok((self.event_seq + 1) as i64),
                )
            },
        }
    }

    /// What setting or clearing the investigation marker does and returns: the new marker.
    pub open spec fn investigation_set(
        self,
        now: i64,
        id: Text,
        marked: bool,
        reason: Option<Text>,
        safe: Option<Text>,
        author: Text,
    ) -> (Ledger, Result<Option<i64>, Fault>) {
        if marked && oversize(text::trim_opt(reason)) {
            (
                self,
                Err(
                    Fault::Invalid(
                        too_long("task.mark_investigation: reason"@, text::byte_len(text::trim_opt(reason)->0) as int),
                    ),
                ),
            )
        } else if !self.has(id) {
            (self, Err(Fault::NotFound(id)))
        } else if marked {
            let kept = stored(reason, safe);
            (
                self.with_head(
                    id,
                    TaskHeader {
                        investigation_marked_at: Some(now),
                        investigation_reason: kept,
                        updated_at: now,
                        ..self.head(id)
                    },
                ).log(
                    id,
                    now,
                    "task.investigation_marked"@,
                    marked_text(kept),
                    None,
                    None,
                    outside::object_text(marked_fields(kept, author)),
                ),
                Ok(Some(now)),
            )
        } else {
            (
                self.with_head(
                    id,
                    TaskHeader {
                        investigation_marked_at: None,
                        investigation_reason: None,
                        updated_at: now,
                        ..self.head(id)
                    },
                ).log(
                    id,
                    now,
                    "task.investigation_cleared"@,
                    "cleared"@,
                    None,
                    None,
                    outside::object_text(cleared_fields(author)),
                ),
                Ok(None),
            )
        }
    }

    /// What an operator note does and returns: the id of its event. `safe` is the scrubbed note.
    pub open spec fn noted(self, now: i64, id: Text, note: Text, safe: Text, author: Text) -> (Ledger, Result<i64, Fault>) {
        let t = text::trim(note);
        if t.len() == 0 {
            (self, Err(Fault::Invalid("task.note: note text required (non-empty after trim)"@)))
        } else if text::byte_len(t) > vocab::MAX_OPERATOR_NOTE_LEN {
            (self, Err(Fault::Invalid(too_long("task.note: note"@, text::byte_len(t) as int))))
        } else if !self.has(id) {
            (self, Err(Fault::NotFound(id)))
        } else {
            (
                self.log(
                    id,
                    now,
                    "task.operator_note"@,
                    safe,
                    None,
                    None,
                    outside::object_text(note_fields(safe, author)),
                ),
                Ok((self.event_seq + 1) as i64),
            )
        }
    }
}

/// A request tells the status that it found.
pub proof fn lemma_request_fields(prior: Text, kept: Option<Text>, who: Text, counter: Text, generation: i64)
    requires
        counter == "pause_generation"@ || counter == "freeze_generation"@,
    ensures
        outside::text_field(request_fields(prior, kept, who, counter, generation), "prior_status"@) == Some(prior),
        request_fields(prior, kept, who, counter, generation).dom().finite(),
{
    reveal_strlit("prior_status");
    reveal_strlit("reason");
    reveal_strlit("author");
    reveal_strlit("intent");
    reveal_strlit("pause_generation");
    reveal_strlit("freeze_generation");
    assert("prior_status"@.len() == 12);
    assert("reason"@.len() == 6);
    assert("author"@.len() == 6);
    assert("intent"@.len() == 6);
    assert("pause_generation"@.len() == 16);
    assert("freeze_generation"@.len() == 17);
}

/// A granted pause is recorded as one that found the status before it.
pub proof fn lemma_paused_from(l: Ledger, now: i64, id: Text, reason: Option<Text>, safe: Option<Text>, author: Text)
    requires
        l.paused(now, id, reason, safe, author).1 is Ok,
    ensures
        l.paused(now, id, reason, safe, author).0.paused_from(id, l.head(id).status),
{
    let m = l.paused(now, id, reason, safe, author).0;
    let f = request_fields(
        l.head(id).status,
        stored(reason, safe),
        author,
        "pause_generation"@,
        (l.head(id).pause_generation + 1) as i64,
    );
    assert(m.events.last().task_id == id);
    assert(m.latest_payload(id, "task.pause_requested"@, "task.paused"@) == Some(outside::object_text(f)));
}

/// The same of a freeze.
pub proof fn lemma_frozen_from(l: Ledger, now: i64, id: Text, reason: Option<Text>, safe: Option<Text>, author: Text)
    requires
        l.frozen(now, id, reason, safe, author).1 is Ok,
    ensures
        l.frozen(now, id, reason, safe, author).0.frozen_from(id, l.head(id).status),
{
    let m = l.frozen(now, id, reason, safe, author).0;
    let f = request_fields(
        l.head(id).status,
        stored(reason, safe),
        author,
        "freeze_generation"@,
        (l.head(id).freeze_generation + 1) as i64,
    );
    assert(m.events.last().task_id == id);
    assert(m.latest_payload(id, "task.freeze_requested"@, "task.freeze_requested"@) == Some(outside::object_text(f)));
}

impl TaskStore {
    /// Writes an event and then the columns of the task at a place.
    fn log_and_put(
        &mut self,
        i: usize,
        task_id: &str,
        now: i64,
        event_type: &str,
        legacy: String,
        json: String,
        head: model::TaskHead,
    )
        requires
            old(self).wf(),
            old(self)@.has(task_id@),
            i == old(self)@.find(task_id@),
            old(self)@.event_seq < i64::MAX,
            head@.task_id == task_id@,
            head@.attempt_count == old(self)@.head(task_id@).attempt_count,
            head@.current_attempt_id == old(self)@.head(task_id@).current_attempt_id,
            0 <= head@.pause_generation <= old(self)@.event_seq + 1,
            0 <= head@.freeze_generation <= old(self)@.event_seq + 1,
        ensures
            final(self)@ == old(self)@.with_head(task_id@, head@).log(
                task_id@,
                now,
                event_type@,
                legacy@,
                None,
                None,
                json@,
            ),
            final(self).wf(),
    {
        let ghost l0 = self@;
        self.insert_typed_event(task_id, now, event_type, legacy, None, None, json);
        let ghost l1 = self@;
        proof {
            assert(l1.find(task_id@) == l0.find(task_id@));
            ledger::lemma_put_wf(l1, task_id@, TaskRec { head: head@, ..l1.task(task_id@) });
        }
        self.put_head(i, head);
    }

    /// The status that a task's last event of one of two types tells as the one before it.
    fn status_before_of(&self, task_id: &str, a: &str, b: &str, fallback: &str) -> (r: String)
        ensures
            r@ == self@.status_before(task_id@, a@, b@, fallback@),
            forall|f: JsonFields|
                f.dom().finite() && self@.latest_payload(task_id@, a@, b@) == Some(#[trigger] outside::object_text(f))
                    ==> r@ == (match outside::text_field(f, "prior_status"@) {
                    Some(t) => t,
                    None => fallback@,
                }),
    {
        let at = self.last_event_of(task_id, a, b);
        if at > 0 {
            assert(self.events@[at - 1]@ == self@.events[at - 1]);
            if let Some(pj) = &self.events[at - 1].event.payload_json {
                if let Some(t) = outside::json_read_text(pj.as_str(), "prior_status") {
                    return t;
                }
            }
        }
        text::owned(fallback)
    }

    /// Pauses a task at a given time; `safe_reason` is the trimmed reason with secrets scrubbed out.
    pub fn set_paused_at(
        &mut self,
        now: i64,
        task_id: &str,
        reason: Option<&str>,
        safe_reason: Option<&str>,
        author_subject_id: &str,
    ) -> (r: Result<String, CoordinatorError>)
        requires
            old(self).wf(),
            old(self)@.roomy(),
        ensures
            (final(self)@, model::seen(r)) == old(self)@.paused(
                now,
                task_id@,
                text::opt_slice(reason),
                text::opt_slice(safe_reason),
                author_subject_id@,
            ),
            final(self).wf(),
            r matches Ok(prior) ==> final(self)@.paused_from(task_id@, prior@),
    {
        let trimmed = text::trimmed_opt(reason);
        let kept = if trimmed.is_some() {
            safe_reason
        } else {
            None
        };
        if let Some(t) = &trimmed {
            let n = text::len_bytes(t.as_str());
            if n > vocab::MAX_OPERATOR_NOTE_LEN {
                return Err(CoordinatorError::Invalid(too_long_string("task.pause: reason", n)));
            }
        }
        let i = self.find_index(task_id);
        if i >= self.tasks.len() {
            return Err(CoordinatorError::NotFound(text::owned(task_id)));
        }
        let ghost l0 = self@;
        proof {
            ledger::lemma_find(l0, task_id@);
            assert(l0.task_sound(l0.tasks[i as int]));
        }
        assert(self.tasks@[i as int]@ == l0.tasks[i as int]);
        let mut head = self.tasks[i].head.dup();
        let prior = head.status.clone();
        if !vocab::is_pausable(prior.as_str()) {
            return Err(
                CoordinatorError::Invalid(
                    refused_string("task.pause", prior.as_str(), "pausable (allowed: pending, running, retrying)"),
                ),
            );
        }
        let generation: i64 = head.pause_generation + 1;
        let legacy = request_string(prior.as_str(), generation, kept);
        let json = request_json(prior.as_str(), kept, author_subject_id, "pause_generation", generation);
        head.status = text::owned("paused");
        head.updated_at = now;
        head.pause_generation = generation;
        self.log_and_put(i, task_id, now, "task.pause_requested", legacy, json, head);
        assert(self@.paused_from(task_id@, prior@)) by {
            lemma_paused_from(l0, now, task_id@, text::opt_slice(reason), text::opt_slice(safe_reason), author_subject_id@);
        }
        Ok(prior)
    }

    /// Operator-initiated pause: records the request and returns the status before it.
    pub fn set_paused<R: Fn(&str) -> String>(
        &mut self,
        task_id: &str,
        reason: Option<&str>,
        author_subject_id: &str,
        redact: &R,
    ) -> (r: Result<String, CoordinatorError>)
        requires
            old(self).wf(),
            old(self)@.roomy(),
            redaction::total(*redact),
        ensures
            exists|now: i64, safe: Option<Text>|
                redaction::redacts_opt(*redact, text::trim_opt(text::opt_slice(reason)), safe) && (
                    final(self)@,
                    model::seen(r),
                ) == #[trigger] old(self)@.paused(now, task_id@, text::opt_slice(reason), safe, author_subject_id@),
            final(self).wf(),
            r matches Ok(prior) ==> final(self)@.paused_from(task_id@, prior@),
    {
        let trimmed = text::trimmed_opt(reason);
        let safe = redaction::scrub_opt(redact, text::slice_opt(&trimmed));
        let now = outside::unix_secs();
        self.set_paused_at(now, task_id, reason, text::slice_opt(&safe), author_subject_id)
    }

    /// Freezes a task at a given time; `safe_reason` is the trimmed reason with secrets scrubbed out.
    pub fn set_frozen_at(
        &mut self,
        now: i64,
        task_id: &str,
        reason: Option<&str>,
        safe_reason: Option<&str>,
        author_subject_id: &str,
    ) -> (r: Result<String, CoordinatorError>)
        requires
            old(self).wf(),
            old(self)@.roomy(),
        ensures
            (final(self)@, model::seen(r)) == old(self)@.frozen(
                now,
                task_id@,
                text::opt_slice(reason),
                text::opt_slice(safe_reason),
                author_subject_id@,
            ),
            final(self).wf(),
            r matches Ok(prior) ==> final(self)@.frozen_from(task_id@, prior@),
    {
        let trimmed = text::trimmed_opt(reason);
        let kept = if trimmed.is_some() {
            safe_reason
        } else {
            None
        };
        if let Some(t) = &trimmed {
            let n = text::len_bytes(t.as_str());
            if n > vocab::MAX_OPERATOR_NOTE_LEN {
                return Err(CoordinatorError::Invalid(too_long_string("task.freeze: reason", n)));
            }
        }
        let i = self.find_index(task_id);
        if i >= self.tasks.len() {
            return Err(CoordinatorError::NotFound(text::owned(task_id)));
        }
        let ghost l0 = self@;
        proof {
            ledger::lemma_find(l0, task_id@);
            assert(l0.task_sound(l0.tasks[i as int]));
        }
        assert(self.tasks@[i as int]@ == l0.tasks[i as int]);
        let mut head = self.tasks[i].head.dup();
        let prior = head.status.clone();
        if !vocab::is_freezable(prior.as_str()) {
            return Err(
                CoordinatorError::Invalid(
                    refused_string(
                        "task.freeze",
                        prior.as_str(),
                        "freezable (allowed: pending, running, retrying, paused, awaiting_input, interrupted)",
                    ),
                ),
            );
        }
        let generation: i64 = head.freeze_generation + 1;
        let legacy = request_string(prior.as_str(), generation, kept);
        let json = request_json(prior.as_str(), kept, author_subject_id, "freeze_generation", generation);
        head.status = text::owned("frozen");
        head.frozen_at = Some(now);
        head.frozen_reason = text::owned_opt(kept);
        head.updated_at = now;
        head.freeze_generation = generation;
        self.log_and_put(i, task_id, now, "task.freeze_requested", legacy, json, head);
        assert(self@.frozen_from(task_id@, prior@)) by {
            lemma_frozen_from(l0, now, task_id@, text::opt_slice(reason), text::opt_slice(safe_reason), author_subject_id@);
        }
        Ok(prior)
    }

    /// Operator-initiated freeze: records the request and returns the status before it.
    pub fn set_frozen<R: Fn(&str) -> String>(
        &mut self,
        task_id: &str,
        reason: Option<&str>,
        author_subject_id: &str,
        redact: &R,
    ) -> (r: Result<String, CoordinatorError>)
        requires
            old(self).wf(),
            old(self)@.roomy(),
            redaction::total(*redact),
        ensures
            exists|now: i64, safe: Option<Text>|
                redaction::redacts_opt(*redact, text::trim_opt(text::opt_slice(reason)), safe) && (
                    final(self)@,
                    model::seen(r),
                ) == #[trigger] old(self)@.frozen(now, task_id@, text::opt_slice(reason), safe, author_subject_id@),
            final(self).wf(),
            r matches Ok(prior) ==> final(self)@.frozen_from(task_id@, prior@),
    {
        let trimmed = text::trimmed_opt(reason);
        let safe = redaction::scrub_opt(redact, text::slice_opt(&trimmed));
        let now = outside::unix_secs();
        self.set_frozen_at(now, task_id, reason, text::slice_opt(&safe), author_subject_id)
    }

    /// Resumes a paused task at a given time; returns the status that the pause found.
    pub fn set_resumed_at(&mut self, now: i64, task_id: &str, author_subject_id: &str) -> (r: Result<
        String,
        CoordinatorError,
    >)
        requires
            old(self).wf(),
            old(self)@.roomy(),
        ensures
            (final(self)@, model::seen(r)) == old(self)@.resumed(now, task_id@, author_subject_id@),
            final(self).wf(),
            forall|status: Text| r is Ok && #[trigger] old(self)@.paused_from(task_id@, status) ==> r->Ok_0@ == status,
    {
        let i = self.find_index(task_id);
        if i >= self.tasks.len() {
            return Err(CoordinatorError::NotFound(text::owned(task_id)));
        }
        let ghost l0 = self@;
        proof {
            ledger::lemma_find(l0, task_id@);
            assert(l0.task_sound(l0.tasks[i as int]));
        }
        assert(self.tasks@[i as int]@ == l0.tasks[i as int]);
        let mut head = self.tasks[i].head.dup();
        if !text::same(head.status.as_str(), "paused") {
            return Err(
                CoordinatorError::Invalid(
                    refused_string("task.resume", head.status.as_str(), "resumable (only 'paused' is)"),
                ),
            );
        }
        let was = self.status_before_of(task_id, "task.pause_requested", "task.paused", "paused");
        let generation: i64 = head.pause_generation + 1;
        let legacy = release_string("paused", was.as_str(), generation);
        let json = release_json("pre_pause_status", was.as_str(), author_subject_id, "pause_generation", generation);
        head.status = text::owned("pending");
        head.updated_at = now;
        head.pause_generation = generation;
        self.log_and_put(i, task_id, now, "task.resume_requested", legacy, json, head);
        assert forall|status: Text| #[trigger] l0.paused_from(task_id@, status) implies was@ == status by {
            let (reason, author, generation) = choose|reason: Option<Text>, author: Text, generation: i64|
                l0.latest_payload(task_id@, "task.pause_requested"@, "task.paused"@) == Some(
                    outside::object_text(#[trigger] request_fields(status, reason, author, "pause_generation"@, generation)),
                );
            lemma_request_fields(status, reason, author, "pause_generation"@, generation);
        }
        Ok(was)
    }

    /// Operator-initiated resume: a paused task becomes pending; returns the status before the pause.
    pub fn set_resumed(&mut self, task_id: &str, author_subject_id: &str) -> (r: Result<String, CoordinatorError>)
        requires
            old(self).wf(),
            old(self)@.roomy(),
        ensures
            exists|now: i64|
                (final(self)@, model::seen(r)) == #[trigger] old(self)@.resumed(now, task_id@, author_subject_id@),
            final(self).wf(),
            forall|status: Text| r is Ok && #[trigger] old(self)@.paused_from(task_id@, status) ==> r->Ok_0@ == status,
    {
        let now = outside::unix_secs();
        self.set_resumed_at(now, task_id, author_subject_id)
    }

    /// Unfreezes a frozen task at a given time; returns the status that the freeze found.
    pub fn set_unfrozen_at(&mut self, now: i64, task_id: &str, author_subject_id: &str) -> (r: Result<
        String,
        CoordinatorError,
    >)
        requires
            old(self).wf(),
            old(self)@.roomy(),
        ensures
            (final(self)@, model::seen(r)) == old(self)@.unfrozen(now, task_id@, author_subject_id@),
            final(self).wf(),
            forall|status: Text| r is Ok && #[trigger] old(self)@.frozen_from(task_id@, status) ==> r->Ok_0@ == status,
    {
        let i = self.find_index(task_id);
        if i >= self.tasks.len() {
            return Err(CoordinatorError::NotFound(text::owned(task_id)));
        }
        let ghost l0 = self@;
        proof {
            ledger::lemma_find(l0, task_id@);
            assert(l0.task_sound(l0.tasks[i as int]));
        }
        assert(self.tasks@[i as int]@ == l0.tasks[i as int]);
        let mut head = self.tasks[i].head.dup();
        if !text::same(head.status.as_str(), "frozen") {
            return Err(
                CoordinatorError::Invalid(
                    refused_string("task.unfreeze", head.status.as_str(), "unfreezable (only 'frozen' is)"),
                ),
            );
        }
        let was = self.status_before_of(task_id, "task.freeze_requested", "task.freeze_requested", "frozen");
        let generation: i64 = head.freeze_generation + 1;
        let legacy = release_string("frozen", was.as_str(), generation);
        let json = release_json("pre_freeze_status", was.as_str(), author_subject_id, "freeze_generation", generation);
        head.status = text::owned("pending");
        head.frozen_at = None;
        head.frozen_reason = None;
        head.updated_at = now;
        head.freeze_generation = generation;
        self.log_and_put(i, task_id, now, "task.unfreeze_requested", legacy, json, head);
        assert forall|status: Text| #[trigger] l0.frozen_from(task_id@, status) implies was@ == status by {
            let (reason, author, generation) = choose|reason: Option<Text>, author: Text, generation: i64|
                l0.latest_payload(task_id@, "task.freeze_requested"@, "task.freeze_requested"@) == Some(
                    outside::object_text(#[trigger] request_fields(status, reason, author, "freeze_generation"@, generation)),
                );
            lemma_request_fields(status, reason, author, "freeze_generation"@, generation);
        }
        Ok(was)
    }

    /// Operator-initiated unfreeze: a frozen task becomes pending; returns the status before the freeze.
    pub fn set_unfrozen(&mut self, task_id: &str, author_subject_id: &str) -> (r: Result<String, CoordinatorError>)
        requires
            old(self).wf(),
            old(self)@.roomy(),
        ensures
            exists|now: i64|
                (final(self)@, model::seen(r)) == #[trigger] old(self)@.unfrozen(now, task_id@, author_subject_id@),
            final(self).wf(),
            forall|status: Text| r is Ok && #[trigger] old(self)@.frozen_from(task_id@, status) ==> r->Ok_0@ == status,
    {
        let now = outside::unix_secs();
        self.set_unfrozen_at(now, task_id, author_subject_id)
    }

    /// The interruption state of a task.
    pub fn interruption_snapshot(&self, task_id: &str) -> (r: Result<InterruptionSnapshot, CoordinatorError>)
        ensures
            model::seen(r) == self@.snapshot(task_id@),
    {
        let i = self.find_index(task_id);
        if i >= self.tasks.len() {
            return Err(CoordinatorError::NotFound(text::owned(task_id)));
        }
        assert(self.tasks@[i as int]@ == self@.tasks[i as int]);
        let head = &self.tasks[i].head;
        Ok(
            InterruptionSnapshot {
                task_id: text::owned(task_id),
                status: head.status.clone(),
                pause_generation: head.pause_generation,
                freeze_generation: head.freeze_generation,
            },
        )
    }

    /// Records at a given time that a worker noticed an interruption.
    pub fn observe_interruption_at(
        &mut self,
        now: i64,
        task_id: &str,
        interruption_type: &str,
        generation_observed: i64,
        observer_subject_id: &str,
    ) -> (r: Result<i64, CoordinatorError>)
        requires
            old(self).wf(),
            old(self)@.roomy(),
        ensures
            (final(self)@, model::seen(r)) == old(self)@.observed(
                now,
                task_id@,
                interruption_type@,
                generation_observed,
                observer_subject_id@,
            ),
            final(self).wf(),
    {
        let event_type = if text::same(interruption_type, "pause") {
            "task.pause_observed"
        } else if text::same(interruption_type, "resume") {
            "task.resume_observed"
        } else if text::same(interruption_type, "freeze") {
            "task.freeze_propagated"
        } else {
            let mut m = text::owned("task.observe_interruption: unknown interruption_type '");
            m.append(interruption_type);
            m.append("' (expected pause|resume|freeze)");
            return Err(CoordinatorError::Invalid(m));
        };
        if generation_observed < 0 {
            return Err(
                CoordinatorError::Invalid(
                    text::owned("task.observe_interruption: generation_observed must be non-negative"),
                ),
            );
        }
        if self.find_index(task_id) >= self.tasks.len() {
            return Err(CoordinatorError::NotFound(text::owned(task_id)));
        }
        let mut legacy = text::owned(interruption_type);
        legacy.append(" observed at gen=");
        numeral::push_i64(&mut legacy, generation_observed);
        legacy.append(" by ");
        legacy.append(observer_subject_id);
        let mut m = outside::json_object();
        outside::json_put(&mut m, "interruption_type", JsonField::Text(text::owned(interruption_type)));
        outside::json_put(&mut m, "generation_observed", JsonField::Number(generation_observed));
        outside::json_put(&mut m, "observer", JsonField::Text(text::owned(observer_subject_id)));
        outside::json_put(&mut m, "observed_at", JsonField::Number(now));
        outside::json_put(&mut m, "intent", JsonField::Text(text::owned("ack")));
        let json = outside::json_write(m);
        let event_id: i64 = self.event_seq + 1;
        self.insert_typed_event(task_id, now, event_type, legacy, None, None, json);
        Ok(event_id)
    }

    /// Records that a worker noticed an interruption; returns the id of the event.
    pub fn observe_interruption(
        &mut self,
        task_id: &str,
        interruption_type: &str,
        generation_observed: i64,
        observer_subject_id: &str,
    ) -> (r: Result<i64, CoordinatorError>)
        requires
            old(self).wf(),
            old(self)@.roomy(),
        ensures
            exists|now: i64|
                (final(self)@, model::seen(r)) == #[trigger] old(self)@.observed(
                    now,
                    task_id@,
                    interruption_type@,
                    generation_observed,
                    observer_subject_id@,
                ),
            final(self).wf(),
    {
        let now = outside::unix_secs();
        self.observe_interruption_at(now, task_id, interruption_type, generation_observed, observer_subject_id)
    }

    /// Sets or clears the investigation marker at a given time; `safe_reason` is the trimmed reason with
    /// secrets scrubbed out.
    pub fn set_investigation_marker_at(
        &mut self,
        now: i64,
        task_id: &str,
        marked: bool,
        reason: Option<&str>,
        safe_reason: Option<&str>,
        author_subject_id: &str,
    ) -> (r: Result<Option<i64>, CoordinatorError>)
        requires
            old(self).wf(),
            old(self)@.roomy(),
        ensures
            (final(self)@, model::seen(r)) == old(self)@.investigation_set(
                now,
                task_id@,
                marked,
                text::opt_slice(reason),
                text::opt_slice(safe_reason),
                author_subject_id@,
            ),
            final(self).wf(),
    {
        let trimmed = text::trimmed_opt(reason);
        let kept = if trimmed.is_some() {
            safe_reason
        } else {
            None
        };
        if let Some(t) = &trimmed {
            let n = text::len_bytes(t.as_str());
            if marked && n > vocab::MAX_OPERATOR_NOTE_LEN {
                return Err(CoordinatorError::Invalid(too_long_string("task.mark_investigation: reason", n)));
            }
        }
        let i = self.find_index(task_id);
        if i >= self.tasks.len() {
            return Err(CoordinatorError::NotFound(text::owned(task_id)));
        }
        let ghost l0 = self@;
        proof {
            ledger::lemma_find(l0, task_id@);
            assert(l0.task_sound(l0.tasks[i as int]));
        }
        assert(self.tasks@[i as int]@ == l0.tasks[i as int]);
        let mut head = self.tasks[i].head.dup();
        head.updated_at = now;
        if marked {
            head.investigation_marked_at = Some(now);
            head.investigation_reason = text::owned_opt(kept);
            let mut legacy = text::owned("marked");
            if let Some(x) = kept {
                legacy = text::owned("marked · ");
                legacy.append(x);
            }
            let mut m = outside::json_object();
            outside::json_put(&mut m, "marked", JsonField::Flag(true));
            outside::json_put(&mut m, "reason", text_or_null_field(kept));
            outside::json_put(&mut m, "author", JsonField::Text(text::owned(author_subject_id)));
            let json = outside::json_write(m);
            self.log_and_put(i, task_id, now, "task.investigation_marked", legacy, json, head);
            Ok(Some(now))
        } else {
            head.investigation_marked_at = None;
            head.investigation_reason = None;
            let mut m = outside::json_object();
            outside::json_put(&mut m, "marked", JsonField::Flag(false));
            outside::json_put(&mut m, "author", JsonField::Text(text::owned(author_subject_id)));
            let json = outside::json_write(m);
            self.log_and_put(i, task_id, now, "task.investigation_cleared", text::owned("cleared"), json, head);
            Ok(None)
        }
    }

    /// Sets or clears the operator's investigation marker; returns the new marker.
    pub fn set_investigation_marker<R: Fn(&str) -> String>(
        &mut self,
        task_id: &str,
        marked: bool,
        reason: Option<&str>,
        author_subject_id: &str,
        redact: &R,
    ) -> (r: Result<Option<i64>, CoordinatorError>)
        requires
            old(self).wf(),
            old(self)@.roomy(),
            redaction::total(*redact),
        ensures
            exists|now: i64, safe: Option<Text>|
                redaction::redacts_opt(*redact, text::trim_opt(text::opt_slice(reason)), safe) && (
                    final(self)@,
                    model::seen(r),
                ) == #[trigger] old(self)@.investigation_set(
                    now,
                    task_id@,
                    marked,
                    text::opt_slice(reason),
                    safe,
                    author_subject_id@,
                ),
            final(self).wf(),
    {
        let trimmed = text::trimmed_opt(reason);
        let safe = redaction::scrub_opt(redact, text::slice_opt(&trimmed));
        let now = outside::unix_secs();
        self.set_investigation_marker_at(now, task_id, marked, reason, text::slice_opt(&safe), author_subject_id)
    }

    /// Appends an operator note at a given time; `safe_note` is the trimmed note with secrets scrubbed out.
    pub fn append_operator_note_at(
        &mut self,
        now: i64,
        task_id: &str,
        note: &str,
        safe_note: &str,
        author_subject_id: &str,
    ) -> (r: Result<i64, CoordinatorError>)
        requires
            old(self).wf(),
            old(self)@.roomy(),
        ensures
            (final(self)@, model::seen(r)) == old(self)@.noted(now, task_id@, note@, safe_note@, author_subject_id@),
            final(self).wf(),
    {
        let trimmed = text::trimmed(note);
        if trimmed.as_str().is_empty() {
            return Err(
                CoordinatorError::Invalid(text::owned("task.note: note text required (non-empty after trim)")),
            );
        }
        let n = text::len_bytes(trimmed.as_str());
        if n > vocab::MAX_OPERATOR_NOTE_LEN {
            return Err(CoordinatorError::Invalid(too_long_string("task.note: note", n)));
        }
        if self.find_index(task_id) >= self.tasks.len() {
            return Err(CoordinatorError::NotFound(text::owned(task_id)));
        }
        let mut m = outside::json_object();
        outside::json_put(&mut m, "note", JsonField::Text(text::owned(safe_note)));
        outside::json_put(&mut m, "author", JsonField::Text(text::owned(author_subject_id)));
        let json = outside::json_write(m);
        let event_id: i64 = self.event_seq + 1;
        self.insert_typed_event(task_id, now, "task.operator_note", text::owned(safe_note), None, None, json);
        Ok(event_id)
    }

    /// Appends an operator note to a task's history; returns the id of the event.
    pub fn append_operator_note<R: Fn(&str) -> String>(
        &mut self,
        task_id: &str,
        note: &str,
        author_subject_id: &str,
        redact: &R,
    ) -> (r: Result<i64, CoordinatorError>)
        requires
            old(self).wf(),
            old(self)@.roomy(),
            redaction::total(*redact),
        ensures
            exists|now: i64, safe: Text|
                redaction::redacts(*redact, text::trim(note@), safe) && (final(self)@, model::seen(r))
                    == #[trigger] old(self)@.noted(now, task_id@, note@, safe, author_subject_id@),
            final(self).wf(),
    {
        let trimmed = text::trimmed(note);
        let safe = redaction::scrub(redact, trimmed.as_str());
        let now = outside::unix_secs();
        self.append_operator_note_at(now, task_id, note, safe.as_str(), author_subject_id)
    }
}

} // verus!
