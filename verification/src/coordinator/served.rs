//! What a caller gets under each method name.
use vstd::prelude::*;
use crate::coordinator::handlers;
use crate::coordinator::ledger::Ledger;
use crate::coordinator::reads;
use crate::coordinator::router::{self, Capability, MomentRec};
use crate::coordinator::spine::{self, Kind, Pending, SpineCall, SpineError, SpineEvent, StepRec};
use crate::coordinator::todo;
use crate::coordinator::vocab::ErrorKind;
use crate::coordinator::wire::{self, at, given, lists, refused, says, told};
use crate::dispatch::{CallRec, Reply};
use crate::numeral;
use crate::redaction;
use crate::text::{self, Text};

verus! {

/// Under the name of a capability that reads, the caller gets what that capability replies, and the ledger
/// stays as it is.
pub proof fn law_reads_are_served<R: Fn(&str) -> String>(
    method: Text,
    c: Capability,
    l: Ledger,
    call: CallRec,
    at: MomentRec,
    redact: R,
    l2: Ledger,
    r: Reply,
)
    requires
        Capability::of_word(method) == Some(c),
        router::answers(c, l, call, at, redact, l2, r),
    ensures
        method == "task.get"@ ==> (l2 == l && r == reads::get_reply(l, call)),
        method == "task.list"@ ==> (l2 == l && r == reads::list_reply(l, call)),
        method == "task.attempts"@ ==> (l2 == l && r == reads::attempts_reply(l, call)),
        method == "task.count"@ ==> (l2 == l && r == reads::count_reply(l, call)),
        method == "task.events"@ ==> (l2 == l && r == reads::events_reply(l, call)),
        method == "task.list_cursor"@ ==> (l2 == l && r == reads::list_cursor_reply(l, call)),
        method == "task.export"@ ==> (l2 == l && r == reads::export_reply(l, call, at.now)),
        method == "task.compact_events"@ ==> (l2 == l && r == reads::compact_reply(l, call, at.now)),
        method == "task.edges"@ ==> (l2 == l && r == reads::edges_reply(l, call)),
        method == "task.recent_edges"@ ==> (l2 == l && r == reads::recent_edges_reply(l, call)),
        method == "task.lineage"@ ==> (l2 == l && r == reads::lineage_reply(l, call)),
        method == "task.recent_events"@ ==> (l2 == l && r == reads::recent_events_reply(l, call)),
        method == "task.interruption_check"@ ==> (l2 == l && r == reads::interruption_reply(l, call)),
        method == "task.transition_check"@ ==> (l2 == l && r == reads::transition_reply(l, call)),
        method == "task.subtree_metrics"@ ==> (l2 == l && reads::metrics_reply(l, call, at.now, r)),
        method == "task.stuck"@ ==> (l2 == l && r == reads::stuck_reply(l, call, at.now)),
        method == "task.todo_list"@ ==> (l2 == l && r == reads::todo_list_reply(l, call)),
{
    reveal(router::answers);
    router::law_capability_names(Capability::Get);
    router::law_capability_names(Capability::List);
    router::law_capability_names(Capability::Attempts);
    router::law_capability_names(Capability::Count);
    router::law_capability_names(Capability::Events);
    router::law_capability_names(Capability::ListCursor);
    router::law_capability_names(Capability::Export);
    router::law_capability_names(Capability::CompactEvents);
    router::law_capability_names(Capability::Edges);
    router::law_capability_names(Capability::RecentEdges);
    router::law_capability_names(Capability::Lineage);
    router::law_capability_names(Capability::RecentEvents);
    router::law_capability_names(Capability::InterruptionCheck);
    router::law_capability_names(Capability::TransitionCheck);
    router::law_capability_names(Capability::SubtreeMetrics);
    router::law_capability_names(Capability::Stuck);
    router::law_capability_names(Capability::TodoList);
}

/// Under the name of a capability that changes the ledger, the caller gets what that capability does and
/// replies. The texts that people write are stored as the scrubber leaves them.
pub proof fn law_changes_are_served<R: Fn(&str) -> String>(
    method: Text,
    c: Capability,
    l: Ledger,
    call: CallRec,
    at: MomentRec,
    redact: R,
    l2: Ledger,
    r: Reply,
)
    requires
        Capability::of_word(method) == Some(c),
        router::answers(c, l, call, at, redact, l2, r),
    ensures
        method == "task.create"@ ==> ((l2, r) == handlers::create_reply(l, call, at.now, at.fresh_id)),
        method == "task.update"@ ==> (exists|safe: Option<Text>| redaction::redacts_opt(redact, handlers::update_cause(call), safe) && (l2, r) == #[trigger] handlers::update_reply(l, call, at.now, safe)),
        method == "task.event"@ ==> ((l2, r) == handlers::event_reply(l, call, at.now)),
        method == "task.recover"@ ==> ((l2, r) == handlers::recover_reply(l, at.now)),
        method == "task.retry"@ ==> ((l2, r) == handlers::retry_reply(l, call, at.now)),
        method == "task.replay"@ ==> ((l2, r) == handlers::replay_reply(l, call, at.now, at.edge_now, at.fresh_id)),
        method == "task.note"@ ==> (exists|safe: Text| redaction::redacts(redact, text::trim(handlers::note_of(call)), safe) && (l2, r) == #[trigger] handlers::note_reply(l, call, at.now, safe)),
        method == "task.mark_investigation"@ ==> (exists|safe: Option<Text>| redaction::redacts_opt(redact, text::trim_opt(handlers::mark_reason(call)), safe) && (l2, r) == #[trigger] handlers::mark_reply(l, call, at.now, safe)),
        method == "task.pause"@ ==> (exists|safe: Option<Text>| redaction::redacts_opt(redact, text::trim_opt(handlers::reason_of(call)), safe) && (l2, r) == #[trigger] handlers::pause_reply(l, call, at.now, safe)),
        method == "task.resume"@ ==> ((l2, r) == handlers::resume_reply(l, call, at.now)),
        method == "task.observe_interruption"@ ==> ((l2, r) == handlers::observe_reply(l, call, at.now)),
        method == "task.freeze"@ ==> (exists|safe: Option<Text>| redaction::redacts_opt(redact, text::trim_opt(handlers::reason_of(call)), safe) && (l2, r) == #[trigger] handlers::freeze_reply(l, call, at.now, safe)),
        method == "task.unfreeze"@ ==> ((l2, r) == handlers::unfreeze_reply(l, call, at.now)),
        method == "task.record_spawned"@ ==> ((l2, r) == handlers::spawned_reply(l, call, at.now)),
        method == "task.record_delegated"@ ==> ((l2, r) == handlers::delegated_reply(l, call, at.now)),
        method == "task.record_awaited"@ ==> ((l2, r) == handlers::awaited_reply(l, call, at.now)),
        method == "task.todo_set"@ ==> (exists|safe: Seq<Text>| todo::redacts_all(redact, handlers::todo_set_items(call), safe) && (l2, r) == #[trigger] handlers::todo_set_reply(l, call, at.now, safe)),
        method == "task.todo_update"@ ==> ((l2, r) == handlers::todo_update_reply(l, call, at.now)),
{
    reveal(router::answers);
    router::law_capability_names(Capability::Create);
    router::law_capability_names(Capability::Update);
    router::law_capability_names(Capability::Event);
    router::law_capability_names(Capability::Recover);
    router::law_capability_names(Capability::Retry);
    router::law_capability_names(Capability::Replay);
    router::law_capability_names(Capability::Note);
    router::law_capability_names(Capability::MarkInvestigation);
    router::law_capability_names(Capability::Pause);
    router::law_capability_names(Capability::Resume);
    router::law_capability_names(Capability::ObserveInterruption);
    router::law_capability_names(Capability::Freeze);
    router::law_capability_names(Capability::Unfreeze);
    router::law_capability_names(Capability::RecordSpawned);
    router::law_capability_names(Capability::RecordDelegated);
    router::law_capability_names(Capability::RecordAwaited);
    router::law_capability_names(Capability::TodoSet);
    router::law_capability_names(Capability::TodoUpdate);
}

/// `task.recover` tells the tasks that it interrupted, one in each line, and how many they are.
pub proof fn law_recoveries_are_told(l: Ledger, now: i64)
    ensures
        ({
            let (m, ids) = l.recovered(now);
            &&& handlers::recover_reply(l, now).0 == m
            &&& told(
                handlers::recover_reply(l, now).1,
                text::flat(ids.map_values(|t: Text| t + "\n"@)) + "recovered="@ + numeral::dec(ids.len() as int) + "\n"@,
            )
        }),
{
}

/// A reply that blames the responder.
pub open spec fn failed(r: Reply) -> bool {
    r matches Reply::Error { kind, .. } && kind == ErrorKind::ResponderInternal
}

/// A field, where it holds more than white space.
pub open spec fn filled(t: Text) -> Option<Text> {
    if text::blank(t) {
        None
    } else {
        Some(t)
    }
}

proof fn lemma_filled(fields: Seq<Text>, k: int)
    ensures
        spine::not_blank(fields, k) == filled(at(fields, k)),
{
    let t = at(fields, k);
    assert(text::field(fields, k) == t);
    text::law_only_blank_texts_trim_to_nothing(t);
}

proof fn lemma_method_names()
    ensures
        "mandate.get"@ != "mandate.create"@,
        "mandate.list"@ != "mandate.create"@,
        "mandate.list"@ != "mandate.get"@,
        "mandate.update"@ != "mandate.create"@,
        "mandate.update"@ != "mandate.get"@,
        "mandate.update"@ != "mandate.list"@,
        "campaign.create"@ != "mandate.create"@,
        "campaign.create"@ != "mandate.get"@,
        "campaign.create"@ != "mandate.list"@,
        "campaign.create"@ != "mandate.update"@,
        "campaign.get"@ != "mandate.create"@,
        "campaign.get"@ != "mandate.get"@,
        "campaign.get"@ != "mandate.list"@,
        "campaign.get"@ != "mandate.update"@,
        "campaign.get"@ != "campaign.create"@,
        "campaign.list"@ != "mandate.create"@,
        "campaign.list"@ != "mandate.get"@,
        "campaign.list"@ != "mandate.list"@,
        "campaign.list"@ != "mandate.update"@,
        "campaign.list"@ != "campaign.create"@,
        "campaign.list"@ != "campaign.get"@,
        "campaign.update"@ != "mandate.create"@,
        "campaign.update"@ != "mandate.get"@,
        "campaign.update"@ != "mandate.list"@,
        "campaign.update"@ != "mandate.update"@,
        "campaign.update"@ != "campaign.create"@,
        "campaign.update"@ != "campaign.get"@,
        "campaign.update"@ != "campaign.list"@,
{
    reveal_strlit("mandate.create");
    reveal_strlit("mandate.get");
    reveal_strlit("mandate.list");
    reveal_strlit("mandate.update");
    reveal_strlit("campaign.create");
    reveal_strlit("campaign.get");
    reveal_strlit("campaign.list");
    reveal_strlit("campaign.update");
    assert("mandate.get"@.len() != "mandate.create"@.len());
    assert("mandate.list"@.len() != "mandate.create"@.len());
    assert("mandate.list"@.len() != "mandate.get"@.len());
    assert("mandate.update"@[8] != "mandate.create"@[8]);
    assert("mandate.update"@.len() != "mandate.get"@.len());
    assert("mandate.update"@.len() != "mandate.list"@.len());
    assert("campaign.create"@.len() != "mandate.create"@.len());
    assert("campaign.create"@.len() != "mandate.get"@.len());
    assert("campaign.create"@.len() != "mandate.list"@.len());
    assert("campaign.create"@.len() != "mandate.update"@.len());
    assert("campaign.get"@.len() != "mandate.create"@.len());
    assert("campaign.get"@.len() != "mandate.get"@.len());
    assert("campaign.get"@[0] != "mandate.list"@[0]);
    assert("campaign.get"@.len() != "mandate.update"@.len());
    assert("campaign.get"@.len() != "campaign.create"@.len());
    assert("campaign.list"@.len() != "mandate.create"@.len());
    assert("campaign.list"@.len() != "mandate.get"@.len());
    assert("campaign.list"@.len() != "mandate.list"@.len());
    assert("campaign.list"@.len() != "mandate.update"@.len());
    assert("campaign.list"@.len() != "campaign.create"@.len());
    assert("campaign.list"@.len() != "campaign.get"@.len());
    assert("campaign.update"@.len() != "mandate.create"@.len());
    assert("campaign.update"@.len() != "mandate.get"@.len());
    assert("campaign.update"@.len() != "mandate.list"@.len());
    assert("campaign.update"@.len() != "mandate.update"@.len());
    assert("campaign.update"@[9] != "campaign.create"@[9]);
    assert("campaign.update"@.len() != "campaign.get"@.len());
    assert("campaign.update"@.len() != "campaign.list"@.len());
}

/// A mandate is made from title, description, owner and parent, and a campaign from title, mandate, lead
/// and workspace; the title alone is needed. Both are made for the tenant of the call.
pub proof fn law_objects_are_asked_for(call: CallRec, fields: Seq<Text>)
    requires
        lists(call, fields, 4),
        text::bare(at(fields, 0)),
    ensures
        at(fields, 0).len() > 0 ==> spine::first_step("mandate.create"@, call) == Some(
            StepRec::Call(
                SpineCall::CreateMandate {
                    tenant: call.tenant,
                    title: at(fields, 0),
                    description: at(fields, 1),
                    owner: filled(at(fields, 2)),
                    parent: filled(at(fields, 3)),
                },
                Pending::Create(Kind::Mandate),
            ),
        ),
        at(fields, 0).len() > 0 ==> spine::first_step("campaign.create"@, call) == Some(
            StepRec::Call(
                SpineCall::CreateCampaign {
                    tenant: call.tenant,
                    title: at(fields, 0),
                    mandate: filled(at(fields, 1)),
                    lead: filled(at(fields, 2)),
                    workspace: filled(at(fields, 3)),
                },
                Pending::Create(Kind::Campaign),
            ),
        ),
        at(fields, 0).len() == 0 ==> (spine::first_step("mandate.create"@, call) matches Some(StepRec::Done(r)) && refused(r)),
        at(fields, 0).len() == 0 ==> (spine::first_step("campaign.create"@, call) matches Some(StepRec::Done(r)) && refused(r)),
{
    lemma_method_names();
    wire::lemma_lists(call, fields, 4);
    text::lemma_bare(at(fields, 0));
    lemma_filled(fields, 1);
    lemma_filled(fields, 2);
    lemma_filled(fields, 3);
}

/// An object is looked for by its id, and a list by its filter, without the white space around them and
/// in the tenant of the call; an id is needed, a filter is not.
pub proof fn law_objects_are_looked_for(call: CallRec, front: Text, word: Text, back: Text)
    requires
        text::blank(front),
        text::bare(word),
        text::blank(back),
        says(call, front + word + back),
    ensures
        word.len() > 0 ==> spine::first_step("mandate.get"@, call) == Some(
            StepRec::Call(
                SpineCall::Find { kind: Kind::Mandate, tenant: call.tenant, id: word },
                Pending::Get { kind: Kind::Mandate, id: word },
            ),
        ),
        word.len() > 0 ==> spine::first_step("campaign.get"@, call) == Some(
            StepRec::Call(
                SpineCall::Find { kind: Kind::Campaign, tenant: call.tenant, id: word },
                Pending::Get { kind: Kind::Campaign, id: word },
            ),
        ),
        word.len() == 0 ==> (spine::first_step("mandate.get"@, call) matches Some(StepRec::Done(r)) && refused(r)),
        word.len() == 0 ==> (spine::first_step("campaign.get"@, call) matches Some(StepRec::Done(r)) && refused(r)),
        spine::first_step("mandate.list"@, call) == Some(
            StepRec::Call(
                SpineCall::List { kind: Kind::Mandate, tenant: call.tenant, filter: given(word) },
                Pending::List(Kind::Mandate),
            ),
        ),
        spine::first_step("campaign.list"@, call) == Some(
            StepRec::Call(
                SpineCall::List { kind: Kind::Campaign, tenant: call.tenant, filter: given(word) },
                Pending::List(Kind::Campaign),
            ),
        ),
{
    lemma_method_names();
    wire::lemma_says(call, front + word + back);
    text::law_trimming_takes_the_padding(front, word, back);
}

/// A change names object, field and value, of which the value may hold bars and white space; the object
/// is looked for in the tenant of the call first.
pub proof fn law_object_changes_are_asked_for(call: CallRec, fields: Seq<Text>)
    requires
        lists(call, fields, 3),
        text::bare(at(fields, 0)),
        text::bare(at(fields, 1)),
    ensures
        fields.len() == 3 ==> spine::first_step("mandate.update"@, call) == Some(
            StepRec::Call(
                SpineCall::Find { kind: Kind::Mandate, tenant: call.tenant, id: fields[0] },
                Pending::Guard { kind: Kind::Mandate, id: fields[0], field: fields[1], value: fields[2] },
            ),
        ),
        fields.len() == 3 ==> spine::first_step("campaign.update"@, call) == Some(
            StepRec::Call(
                SpineCall::Find { kind: Kind::Campaign, tenant: call.tenant, id: fields[0] },
                Pending::Guard { kind: Kind::Campaign, id: fields[0], field: fields[1], value: fields[2] },
            ),
        ),
        fields.len() < 3 ==> (spine::first_step("mandate.update"@, call) matches Some(StepRec::Done(r)) && refused(r)),
        fields.len() < 3 ==> (spine::first_step("campaign.update"@, call) matches Some(StepRec::Done(r)) && refused(r)),
{
    lemma_method_names();
    wire::lemma_lists(call, fields, 3);
    text::lemma_bare(at(fields, 0));
    text::lemma_bare(at(fields, 1));
}

/// What the store answered is what the caller is told: the id of a new object, the object or list as it
/// came, nothing after a change. What the caller asked for wrongly, or what is not there, is the
/// caller's fault; any other failure is not.
pub proof fn law_object_answers_are_told(
    kind: Kind,
    id: Text,
    field: Text,
    value: Text,
    bytes: Seq<u8>,
    what: Text,
    why: Text,
)
    ensures
        spine::resumed(Pending::Create(kind), SpineEvent::Created(id)) matches StepRec::Done(r) && told(r, id),
        spine::resumed(Pending::Get { kind, id }, SpineEvent::Found(Some(bytes))) == StepRec::Done(Reply::Body(bytes)),
        spine::resumed(Pending::Get { kind, id }, SpineEvent::Found(None)) matches StepRec::Done(r) && refused(r),
        spine::resumed(Pending::List(kind), SpineEvent::Listed(bytes)) == StepRec::Done(Reply::Body(bytes)),
        spine::resumed(Pending::Guard { kind, id, field, value }, SpineEvent::Found(Some(bytes))) == StepRec::Call(
            SpineCall::SetField { kind, id, field, value },
            Pending::Change(kind),
        ),
        spine::resumed(Pending::Guard { kind, id, field, value }, SpineEvent::Found(None)) matches StepRec::Done(r)
            && refused(r),
        spine::resumed(Pending::Change(kind), SpineEvent::Changed) == StepRec::Done(Reply::Body(Seq::empty())),
        spine::resumed(Pending::Create(kind), SpineEvent::Failed(SpineError::BadInput { what, text: why })) matches StepRec::Done(r)
            && refused(r),
        spine::resumed(Pending::Change(kind), SpineEvent::Failed(SpineError::BadInput { what, text: why })) matches StepRec::Done(r)
            && refused(r),
        spine::resumed(Pending::Change(kind), SpineEvent::Failed(SpineError::NotFound { what, text: why })) matches StepRec::Done(r)
            && refused(r),
        spine::resumed(Pending::Create(kind), SpineEvent::Failed(SpineError::Other { text: why })) matches StepRec::Done(r)
            && failed(r),
        spine::resumed(Pending::Change(kind), SpineEvent::Failed(SpineError::Other { text: why })) matches StepRec::Done(r)
            && failed(r),
        spine::resumed(Pending::Get { kind, id }, SpineEvent::Failed(SpineError::Other { text: why })) matches StepRec::Done(r)
            && failed(r),
        spine::resumed(Pending::List(kind), SpineEvent::Failed(SpineError::Other { text: why })) matches StepRec::Done(r)
            && failed(r),
{
}

} // verus!
