//! The capabilities on mandates and campaigns: what their arguments mean, which calls of the store
//! they lead to, and what they reply. The store is called by the caller, who hands back what came of
//! it. Every call is made for the tenant of the invocation, and a change is made only behind a guard
//! that found the object in that tenant.
use vstd::prelude::*;
use crate::dispatch::{self, CallRec, HandlerOutcome, InvocationCtx, Reply};
use crate::text::{self, Text};

verus! {

/// The two kinds of objects.
#[derive(Debug, Clone, Copy, PartialEq, Eq)]
pub enum Kind {
    Mandate,
    Campaign,
}

/// A call of the store.
#[derive(Debug, Clone, PartialEq, Eq)]
pub enum SpineCall<S> {
    CreateMandate { tenant: S, title: S, description: S, owner: Option<S>, parent: Option<S> },
    CreateCampaign { tenant: S, title: S, mandate: Option<S>, lead: Option<S>, workspace: Option<S> },
    /// Read an object of a tenant.
    Find { kind: Kind, tenant: S, id: S },
    /// List the objects of a tenant; mandates by status, campaigns by mandate.
    List { kind: Kind, tenant: S, filter: Option<S> },
    /// Change a field of an object.
    SetField { kind: Kind, id: S, field: S, value: S },
}

/// What a call is made for.
#[derive(Debug, Clone, PartialEq, Eq)]
pub enum Pending<S> {
    Create(Kind),
    Get { kind: Kind, id: S },
    List(Kind),
    /// The guard before a change.
    Guard { kind: Kind, id: S, field: S, value: S },
    Change(Kind),
}

/// How a call of the store failed. `text` is the failure in words.
#[derive(Debug, Clone, PartialEq, Eq)]
pub enum SpineError<S> {
    BadInput { what: S, text: S },
    NotFound { what: S, text: S },
    Other { text: S },
}

/// What came of a call; objects come as they are encoded.
#[derive(Debug, Clone, PartialEq, Eq)]
pub enum SpineEvent<S, B> {
    /// The id of the new object.
    Created(S),
    /// The object, where there is one.
    Found(Option<B>),
    Listed(B),
    Changed,
    /// The object could not be encoded.
    EncodeFailed(S),
    Failed(SpineError<S>),
}

/// The next step of a capability.
pub enum SpineStep {
    /// Make this call.
    Call(SpineCall<String>, Pending<String>),
    /// Reply so.
    Done(HandlerOutcome),
}

/// The mathematical model of [`SpineStep`].
pub enum StepRec {
    Call(SpineCall<Text>, Pending<Text>),
    Done(Reply),
}

impl View for SpineCall<String> {
    type V = SpineCall<Text>;

    open spec fn view(&self) -> SpineCall<Text> {
        match *self {
            SpineCall::CreateMandate { tenant, title, description, owner, parent } => SpineCall::CreateMandate {
                tenant: tenant@,
                title: title@,
                description: description@,
                owner: text::opt_text(owner),
                parent: text::opt_text(parent),
            },
            SpineCall::CreateCampaign { tenant, title, mandate, lead, workspace } => SpineCall::CreateCampaign {
                tenant: tenant@,
                title: title@,
                mandate: text::opt_text(mandate),
                lead: text::opt_text(lead),
                workspace: text::opt_text(workspace),
            },
            SpineCall::Find { kind, tenant, id } => SpineCall::Find { kind, tenant: tenant@, id: id@ },
            SpineCall::List { kind, tenant, filter } => SpineCall::List {
                kind,
                tenant: tenant@,
                filter: text::opt_text(filter),
            },
            SpineCall::SetField { kind, id, field, value } => SpineCall::SetField {
                kind,
                id: id@,
                field: field@,
                value: value@,
            },
        }
    }
}

impl View for Pending<String> {
    type V = Pending<Text>;

    open spec fn view(&self) -> Pending<Text> {
        match *self {
            Pending::Create(kind) => Pending::Create(kind),
            Pending::Get { kind, id } => Pending::Get { kind, id: id@ },
            Pending::List(kind) => Pending::List(kind),
            Pending::Guard { kind, id, field, value } => Pending::Guard {
                kind,
                id: id@,
                field: field@,
                value: value@,
            },
            Pending::Change(kind) => Pending::Change(kind),
        }
    }
}

impl View for SpineError<String> {
    type V = SpineError<Text>;

    open spec fn view(&self) -> SpineError<Text> {
        match *self {
            SpineError::BadInput { what, text } => SpineError::BadInput { what: what@, text: text@ },
            SpineError::NotFound { what, text } => SpineError::NotFound { what: what@, text: text@ },
            SpineError::Other { text } => SpineError::Other { text: text@ },
        }
    }
}

impl View for SpineEvent<String, Vec<u8>> {
    type V = SpineEvent<Text, Seq<u8>>;

    open spec fn view(&self) -> SpineEvent<Text, Seq<u8>> {
        match *self {
            SpineEvent::Created(id) => SpineEvent::Created(id@),
            SpineEvent::Found(o) => SpineEvent::Found(
                match o {
                    Some(b) => Some(b@),
                    None => None,
                },
            ),
            SpineEvent::Listed(b) => SpineEvent::Listed(b@),
            SpineEvent::Changed => SpineEvent::Changed,
            SpineEvent::EncodeFailed(m) => SpineEvent::EncodeFailed(m@),
            SpineEvent::Failed(e) => SpineEvent::Failed(e@),
        }
    }
}

impl View for SpineStep {
    type V = StepRec;

    open spec fn view(&self) -> StepRec {
        match *self {
            SpineStep::Call(c, p) => StepRec::Call(c@, p@),
            SpineStep::Done(r) => StepRec::Done(r@),
        }
    }
}

/// A field, where it holds more than space.
pub open spec fn not_blank(p: Seq<Text>, i: int) -> Option<Text> {
    if text::trim(text::field(p, i)).len() > 0 {
        Some(text::field(p, i))
    } else {
        None
    }
}

fn filled(p: &Vec<String>, i: usize) -> (r: Option<String>)
    ensures
        text::opt_text(r) == not_blank(text::texts(p@), i as int),
{
    let f = text::field_of(p, i);
    let t = text::trimmed(f);
    if t.as_str().is_empty() {
        None
    } else {
        Some(text::owned(f))
    }
}

fn refuse(cause: &str) -> (r: SpineStep)
    ensures
        r@ == StepRec::Done(Reply::invalid(cause@)),
{
    SpineStep::Done(dispatch::invalid(text::owned(cause)))
}

/// The first step of `mandate.create`.
pub open spec fn mandate_create(call: CallRec) -> StepRec {
    match call.text() {
        None => StepRec::Done(call.bad_utf8("mandate.create utf8: "@)),
        Some(s) => {
            let p = text::splitn(s, '|', 4);
            let title = text::trim(text::field(p, 0));
            if title.len() == 0 {
                StepRec::Done(Reply::invalid("mandate.create: title required (title|description|owner|parent)"@))
            } else {
                StepRec::Call(
                    SpineCall::CreateMandate {
                        tenant: call.tenant,
                        title,
                        description: text::field(p, 1),
                        owner: not_blank(p, 2),
                        parent: not_blank(p, 3),
                    },
                    Pending::Create(Kind::Mandate),
                )
            }
        },
    }
}

/// `mandate.create`, by `title|description|owner_agent_id|parent_mandate_id`.
pub fn handle_mandate_create(ctx: &InvocationCtx) -> (r: SpineStep)
    ensures
        r@ == mandate_create(ctx@),
{
    let s = match ctx.text_or("mandate.create utf8: ") {
        Ok(s) => s,
        Err(e) => return SpineStep::Done(e),
    };
    let p = text::cut_n(s.as_str(), '|', 4);
    let title = text::trimmed(text::field_of(&p, 0));
    if title.as_str().is_empty() {
        return refuse("mandate.create: title required (title|description|owner|parent)");
    }
    SpineStep::Call(
        SpineCall::CreateMandate {
            tenant: ctx.tenant_id.clone(),
            title,
            description: text::owned(text::field_of(&p, 1)),
            owner: filled(&p, 2),
            parent: filled(&p, 3),
        },
        Pending::Create(Kind::Mandate),
    )
}

/// The first step of `campaign.create`.
pub open spec fn campaign_create(call: CallRec) -> StepRec {
    match call.text() {
        None => StepRec::Done(call.bad_utf8("campaign.create utf8: "@)),
        Some(s) => {
            let p = text::splitn(s, '|', 4);
            let title = text::trim(text::field(p, 0));
            if title.len() == 0 {
                StepRec::Done(Reply::invalid("campaign.create: title required (title|mandate|lead|workspace)"@))
            } else {
                StepRec::Call(
                    SpineCall::CreateCampaign {
                        tenant: call.tenant,
                        title,
                        mandate: not_blank(p, 1),
                        lead: not_blank(p, 2),
                        workspace: not_blank(p, 3),
                    },
                    Pending::Create(Kind::Campaign),
                )
            }
        },
    }
}

/// `campaign.create`, by `title|mandate_id|lead_agent_id|workspace`.
pub fn handle_campaign_create(ctx: &InvocationCtx) -> (r: SpineStep)
    ensures
        r@ == campaign_create(ctx@),
{
    let s = match ctx.text_or("campaign.create utf8: ") {
        Ok(s) => s,
        Err(e) => return SpineStep::Done(e),
    };
    let p = text::cut_n(s.as_str(), '|', 4);
    let title = text::trimmed(text::field_of(&p, 0));
    if title.as_str().is_empty() {
        return refuse("campaign.create: title required (title|mandate|lead|workspace)");
    }
    SpineStep::Call(
        SpineCall::CreateCampaign {
            tenant: ctx.tenant_id.clone(),
            title,
            mandate: filled(&p, 1),
            lead: filled(&p, 2),
            workspace: filled(&p, 3),
        },
        Pending::Create(Kind::Campaign),
    )
}

/// The first step of `mandate.get`.
pub open spec fn mandate_get(call: CallRec) -> StepRec {
    match call.text() {
        None => StepRec::Done(call.bad_utf8("mandate.get utf8: "@)),
        Some(s) => {
            let id = text::trim(s);
            if id.len() == 0 {
                StepRec::Done(Reply::invalid("mandate.get: mandate_id required"@))
            } else {
                StepRec::Call(
                    SpineCall::Find { kind: Kind::Mandate, tenant: call.tenant, id },
                    Pending::Get { kind: Kind::Mandate, id },
                )
            }
        },
    }
}

/// `mandate.get`, by `mandate_id`.
pub fn handle_mandate_get(ctx: &InvocationCtx) -> (r: SpineStep)
    ensures
        r@ == mandate_get(ctx@),
{
    let s = match ctx.text_or("mandate.get utf8: ") {
        Ok(s) => s,
        Err(e) => return SpineStep::Done(e),
    };
    let id = text::trimmed(s.as_str());
    if id.as_str().is_empty() {
        return refuse("mandate.get: mandate_id required");
    }
    SpineStep::Call(
        SpineCall::Find { kind: Kind::Mandate, tenant: ctx.tenant_id.clone(), id: id.clone() },
        Pending::Get { kind: Kind::Mandate, id },
    )
}

/// The first step of `mandate.list`.
pub open spec fn mandate_list(call: CallRec) -> StepRec {
    match call.text() {
        None => StepRec::Done(call.bad_utf8("mandate.list utf8: "@)),
        Some(s) => StepRec::Call(
            SpineCall::List {
                kind: Kind::Mandate,
                tenant: call.tenant,
                filter: text::non_empty(Some(text::trim(s))),
            },
            Pending::List(Kind::Mandate),
        ),
    }
}

/// `mandate.list`, by a status or without one.
pub fn handle_mandate_list(ctx: &InvocationCtx) -> (r: SpineStep)
    ensures
        r@ == mandate_list(ctx@),
{
    let s = match ctx.text_or("mandate.list utf8: ") {
        Ok(s) => s,
        Err(e) => return SpineStep::Done(e),
    };
    let t = text::trimmed(s.as_str());
    SpineStep::Call(
        SpineCall::List {
            kind: Kind::Mandate,
            tenant: ctx.tenant_id.clone(),
            filter: text::owned_opt(text::filled_opt(Some(t.as_str()))),
        },
        Pending::List(Kind::Mandate),
    )
}

/// The first step of `mandate.update`: the guard.
pub open spec fn mandate_update(call: CallRec) -> StepRec {
    match call.text() {
        None => StepRec::Done(call.bad_utf8("mandate.update utf8: "@)),
        Some(s) => {
            let p = text::splitn(s, '|', 3);
            if p.len() < 3 {
                StepRec::Done(Reply::invalid("mandate.update: expected `mandate_id|field|value`"@))
            } else {
                let id = text::trim(p[0]);
                StepRec::Call(
                    SpineCall::Find { kind: Kind::Mandate, tenant: call.tenant, id },
                    Pending::Guard { kind: Kind::Mandate, id, field: text::trim(p[1]), value: p[2] },
                )
            }
        },
    }
}

/// `mandate.update`, by `mandate_id|field|value`.
pub fn handle_mandate_update(ctx: &InvocationCtx) -> (r: SpineStep)
    ensures
        r@ == mandate_update(ctx@),
{
    let s = match ctx.text_or("mandate.update utf8: ") {
        Ok(s) => s,
        Err(e) => return SpineStep::Done(e),
    };
    let p = text::cut_n(s.as_str(), '|', 3);
    assert(text::texts(p@).len() == p@.len());
    if p.len() < 3 {
        return refuse("mandate.update: expected `mandate_id|field|value`");
    }
    assert(forall|k: int| 0 <= k < p@.len() ==> #[trigger] text::texts(p@)[k] == p@[k]@);
    let id = text::trimmed(p[0].as_str());
    SpineStep::Call(
        SpineCall::Find { kind: Kind::Mandate, tenant: ctx.tenant_id.clone(), id: id.clone() },
        Pending::Guard {
            kind: Kind::Mandate,
            id,
            field: text::trimmed(p[1].as_str()),
            value: p[2].clone(),
        },
    )
}

/// The first step of `campaign.get`.
pub open spec fn campaign_get(call: CallRec) -> StepRec {
    match call.text() {
        None => StepRec::Done(call.bad_utf8("campaign.get utf8: "@)),
        Some(s) => {
            let id = text::trim(s);
            if id.len() == 0 {
                StepRec::Done(Reply::invalid("campaign.get: campaign_id required"@))
            } else {
                StepRec::Call(
                    SpineCall::Find { kind: Kind::Campaign, tenant: call.tenant, id },
                    Pending::Get { kind: Kind::Campaign, id },
                )
            }
        },
    }
}

/// `campaign.get`, by `campaign_id`.
pub fn handle_campaign_get(ctx: &InvocationCtx) -> (r: SpineStep)
    ensures
        r@ == campaign_get(ctx@),
{
    let s = match ctx.text_or("campaign.get utf8: ") {
        Ok(s) => s,
        Err(e) => return SpineStep::Done(e),
    };
    let id = text::trimmed(s.as_str());
    if id.as_str().is_empty() {
        return refuse("campaign.get: campaign_id required");
    }
    SpineStep::Call(
        SpineCall::Find { kind: Kind::Campaign, tenant: ctx.tenant_id.clone(), id: id.clone() },
        Pending::Get { kind: Kind::Campaign, id },
    )
}

/// The first step of `campaign.list`.
pub open spec fn campaign_list(call: CallRec) -> StepRec {
    match call.text() {
        None => StepRec::Done(call.bad_utf8("campaign.list utf8: "@)),
        Some(s) => StepRec::Call(
            SpineCall::List {
                kind: Kind::Campaign,
                tenant: call.tenant,
                filter: text::non_empty(Some(text::trim(s))),
            },
            Pending::List(Kind::Campaign),
        ),
    }
}

/// `campaign.list`, by a mandate or without one.
pub fn handle_campaign_list(ctx: &InvocationCtx) -> (r: SpineStep)
    ensures
        r@ == campaign_list(ctx@),
{
    let s = match ctx.text_or("campaign.list utf8: ") {
        Ok(s) => s,
        Err(e) => return SpineStep::Done(e),
    };
    let t = text::trimmed(s.as_str());
    SpineStep::Call(
        SpineCall::List {
            kind: Kind::Campaign,
            tenant: ctx.tenant_id.clone(),
            filter: text::owned_opt(text::filled_opt(Some(t.as_str()))),
        },
        Pending::List(Kind::Campaign),
    )
}

/// The first step of `campaign.update`: the guard.
pub open spec fn campaign_update(call: CallRec) -> StepRec {
    match call.text() {
        None => StepRec::Done(call.bad_utf8("campaign.update utf8: "@)),
        Some(s) => {
            let p = text::splitn(s, '|', 3);
            if p.len() < 3 {
                StepRec::Done(Reply::invalid("campaign.update: expected `campaign_id|field|value`"@))
            } else {
                let id = text::trim(p[0]);
                StepRec::Call(
                    SpineCall::Find { kind: Kind::Campaign, tenant: call.tenant, id },
                    Pending::Guard { kind: Kind::Campaign, id, field: text::trim(p[1]), value: p[2] },
                )
            }
        },
    }
}

/// `campaign.update`, by `campaign_id|field|value`.
pub fn handle_campaign_update(ctx: &InvocationCtx) -> (r: SpineStep)
    ensures
        r@ == campaign_update(ctx@),
{
    let s = match ctx.text_or("campaign.update utf8: ") {
        Ok(s) => s,
        Err(e) => return SpineStep::Done(e),
    };
    let p = text::cut_n(s.as_str(), '|', 3);
    assert(text::texts(p@).len() == p@.len());
    if p.len() < 3 {
        return refuse("campaign.update: expected `campaign_id|field|value`");
    }
    assert(forall|k: int| 0 <= k < p@.len() ==> #[trigger] text::texts(p@)[k] == p@[k]@);
    let id = text::trimmed(p[0].as_str());
    SpineStep::Call(
        SpineCall::Find { kind: Kind::Campaign, tenant: ctx.tenant_id.clone(), id: id.clone() },
        Pending::Guard {
            kind: Kind::Campaign,
            id,
            field: text::trimmed(p[1].as_str()),
            value: p[2].clone(),
        },
    )
}

/// The word for a kind.
pub open spec fn kind_word(kind: Kind) -> Text {
    match kind {
        Kind::Mandate => "mandate"@,
        Kind::Campaign => "campaign"@,
    }
}

/// A cause that begins with a capability's name.
pub open spec fn cause(kind: Kind, action: Text, rest: Text) -> Text {
    kind_word(kind) + action + rest
}

fn cause_string(kind: Kind, action: &str, rest: &str) -> (r: String)
    ensures
        r@ == cause(kind, action@, rest@),
{
    let mut s = match kind {
        Kind::Mandate => text::owned("mandate"),
        Kind::Campaign => text::owned("campaign"),
    };
    s.append(action);
    s.append(rest);
    s
}

/// The text of a failure.
pub open spec fn failure_text(e: SpineError<Text>) -> Text {
    match e {
        SpineError::BadInput { what, text } => text,
        SpineError::NotFound { what, text } => text,
        SpineError::Other { text } => text,
    }
}

fn failure_str(e: &SpineError<String>) -> (r: &str)
    ensures
        r@ == failure_text(e@),
{
    match e {
        SpineError::BadInput { what: _, text } => text.as_str(),
        SpineError::NotFound { what: _, text } => text.as_str(),
        SpineError::Other { text } => text.as_str(),
    }
}

/// The step after a call. What does not belong to it counts as a failure of the responder.
pub open spec fn resumed(pending: Pending<Text>, event: SpineEvent<Text, Seq<u8>>) -> StepRec {
    match (pending, event) {
        (Pending::Create(_), SpineEvent::Created(id)) => StepRec::Done(Reply::body(id)),
        (Pending::Create(kind), SpineEvent::Failed(e)) => StepRec::Done(
            match e {
                SpineError::BadInput { what, text } => Reply::invalid(cause(kind, ".create: "@, what)),
                _ => Reply::internal(cause(kind, ".create: "@, failure_text(e))),
            },
        ),
        (Pending::Get { kind, id }, SpineEvent::Found(found)) => StepRec::Done(
            match found {
                Some(b) => Reply::Body(b),
                None => Reply::invalid(cause(kind, ".get: not found: "@, id)),
            },
        ),
        (Pending::Get { kind, id }, SpineEvent::EncodeFailed(m)) => StepRec::Done(
            Reply::internal(cause(kind, ".get encode: "@, m)),
        ),
        (Pending::Get { kind, id }, SpineEvent::Failed(e)) => StepRec::Done(
            Reply::internal(cause(kind, ".get: "@, failure_text(e))),
        ),
        (Pending::List(_), SpineEvent::Listed(b)) => StepRec::Done(Reply::Body(b)),
        (Pending::List(kind), SpineEvent::EncodeFailed(m)) => StepRec::Done(
            Reply::internal(cause(kind, ".list encode: "@, m)),
        ),
        (Pending::List(kind), SpineEvent::Failed(e)) => StepRec::Done(
            Reply::internal(cause(kind, ".list: "@, failure_text(e))),
        ),
        (Pending::Guard { kind, id, field, value }, SpineEvent::Found(found)) => if found is Some {
            StepRec::Call(SpineCall::SetField { kind, id, field, value }, Pending::Change(kind))
        } else {
            StepRec::Done(Reply::invalid(cause(kind, ".update: not found in tenant: "@, id)))
        },
        (Pending::Guard { kind, id, field, value }, SpineEvent::Failed(e)) => StepRec::Done(
            Reply::internal(cause(kind, ".update: "@, failure_text(e))),
        ),
        (Pending::Change(_), SpineEvent::Changed) => StepRec::Done(Reply::Body(Seq::empty())),
        (Pending::Change(kind), SpineEvent::Failed(e)) => StepRec::Done(
            match e {
                SpineError::BadInput { what, text } => Reply::invalid(cause(kind, ".update: "@, what)),
                SpineError::NotFound { what, text } => Reply::invalid(cause(kind, ".update: not found: "@, what)),
                SpineError::Other { text } => Reply::internal(cause(kind, ".update: "@, text)),
            },
        ),
        _ => StepRec::Done(Reply::internal("spine: unexpected answer of the store"@)),
    }
}

fn deny(cause: String) -> (r: SpineStep)
    ensures
        r@ == StepRec::Done(Reply::invalid(cause@)),
{
    SpineStep::Done(dispatch::invalid(cause))
}

fn fail(cause: String) -> (r: SpineStep)
    ensures
        r@ == StepRec::Done(Reply::internal(cause@)),
{
    SpineStep::Done(dispatch::internal(cause))
}

/// Gives the step after a call.
pub fn resume(pending: Pending<String>, event: SpineEvent<String, Vec<u8>>) -> (r: SpineStep)
    ensures
        r@ == resumed(pending@, event@),
{
    match (pending, event) {
        (Pending::Create(_), SpineEvent::Created(id)) => SpineStep::Done(dispatch::body(id)),
        (Pending::Create(kind), SpineEvent::Failed(e)) => match e {
            SpineError::BadInput { what, text: _ } => deny(cause_string(kind, ".create: ", what.as_str())),
            e => fail(cause_string(kind, ".create: ", failure_str(&e))),
        },
        (Pending::Get { kind, id }, SpineEvent::Found(found)) => match found {
            Some(b) => SpineStep::Done(HandlerOutcome::Done(b)),
            None => deny(cause_string(kind, ".get: not found: ", id.as_str())),
        },
        (Pending::Get { kind, id: _ }, SpineEvent::EncodeFailed(m)) => fail(
            cause_string(kind, ".get encode: ", m.as_str()),
        ),
        (Pending::Get { kind, id: _ }, SpineEvent::Failed(e)) => fail(cause_string(kind, ".get: ", failure_str(&e))),
        (Pending::List(_), SpineEvent::Listed(b)) => SpineStep::Done(HandlerOutcome::Done(b)),
        (Pending::List(kind), SpineEvent::EncodeFailed(m)) => fail(cause_string(kind, ".list encode: ", m.as_str())),
        (Pending::List(kind), SpineEvent::Failed(e)) => fail(cause_string(kind, ".list: ", failure_str(&e))),
        (Pending::Guard { kind, id, field, value }, SpineEvent::Found(found)) => match found {
            Some(_) => SpineStep::Call(SpineCall::SetField { kind, id, field, value }, Pending::Change(kind)),
            None => deny(cause_string(kind, ".update: not found in tenant: ", id.as_str())),
        },
        (Pending::Guard { kind, id: _, field: _, value: _ }, SpineEvent::Failed(e)) => fail(
            cause_string(kind, ".update: ", failure_str(&e)),
        ),
        (Pending::Change(_), SpineEvent::Changed) => {
            let b: Vec<u8> = Vec::new();
            SpineStep::Done(HandlerOutcome::Done(b))
        },
        (Pending::Change(kind), SpineEvent::Failed(e)) => match e {
            SpineError::BadInput { what, text: _ } => deny(cause_string(kind, ".update: ", what.as_str())),
            SpineError::NotFound { what, text: _ } => deny(cause_string(kind, ".update: not found: ", what.as_str())),
            SpineError::Other { text } => fail(cause_string(kind, ".update: ", text.as_str())),
        },
        _ => fail(text::owned("spine: unexpected answer of the store")),
    }
}

/// The first step of a call by its method name; `None` where no capability has that name.
pub open spec fn first_step(method: Text, call: CallRec) -> Option<StepRec> {
    if method == "mandate.create"@ {
        Some(mandate_create(call))
    } else if method == "mandate.get"@ {
        Some(mandate_get(call))
    } else if method == "mandate.list"@ {
        Some(mandate_list(call))
    } else if method == "mandate.update"@ {
        Some(mandate_update(call))
    } else if method == "campaign.create"@ {
        Some(campaign_create(call))
    } else if method == "campaign.get"@ {
        Some(campaign_get(call))
    } else if method == "campaign.list"@ {
        Some(campaign_list(call))
    } else if method == "campaign.update"@ {
        Some(campaign_update(call))
    } else {
        None
    }
}

/// The first step of a call by its method name.
pub fn route(method: &str, ctx: &InvocationCtx) -> (r: Option<SpineStep>)
    ensures
        match r {
            Some(step) => first_step(method@, ctx@) == Some(step@),
            None => first_step(method@, ctx@) is None,
        },
{
    if text::same(method, "mandate.create") {
        Some(handle_mandate_create(ctx))
    } else if text::same(method, "mandate.get") {
        Some(handle_mandate_get(ctx))
    } else if text::same(method, "mandate.list") {
        Some(handle_mandate_list(ctx))
    } else if text::same(method, "mandate.update") {
        Some(handle_mandate_update(ctx))
    } else if text::same(method, "campaign.create") {
        Some(handle_campaign_create(ctx))
    } else if text::same(method, "campaign.get") {
        Some(handle_campaign_get(ctx))
    } else if text::same(method, "campaign.list") {
        Some(handle_campaign_list(ctx))
    } else if text::same(method, "campaign.update") {
        Some(handle_campaign_update(ctx))
    } else {
        None
    }
}

/// The names of all capabilities on mandates and campaigns.
pub open spec fn all_methods() -> Seq<Text> {
    seq![
        "mandate.create"@,
        "mandate.get"@,
        "mandate.list"@,
        "mandate.update"@,
        "campaign.create"@,
        "campaign.get"@,
        "campaign.list"@,
        "campaign.update"@,
    ]
}

/// The names of all capabilities on mandates and campaigns, in the order in which they are announced.
pub fn methods() -> (r: Vec<String>)
    ensures
        text::texts(r@) == all_methods(),
{
    let mut v: Vec<String> = Vec::new();
    v.push(text::owned("mandate.create"));
    v.push(text::owned("mandate.get"));
    v.push(text::owned("mandate.list"));
    v.push(text::owned("mandate.update"));
    v.push(text::owned("campaign.create"));
    v.push(text::owned("campaign.get"));
    v.push(text::owned("campaign.list"));
    v.push(text::owned("campaign.update"));
    assert(text::texts(v@) =~= all_methods());
    v
}

/// Just the announced names have a first step.
pub proof fn law_announced_methods_have_a_step(method: Text, call: CallRec)
    ensures
        first_step(method, call) is Some <==> all_methods().contains(method),
{
    let all = all_methods();
    assert(all[0] == "mandate.create"@ && all[1] == "mandate.get"@ && all[2] == "mandate.list"@);
    assert(all[3] == "mandate.update"@ && all[4] == "campaign.create"@ && all[5] == "campaign.get"@);
    assert(all[6] == "campaign.list"@ && all[7] == "campaign.update"@);
}

/// The tenant that a call of the store names; `None` for a change, which names none.
pub open spec fn tenant_of(c: SpineCall<Text>) -> Option<Text> {
    match c {
        SpineCall::CreateMandate { tenant, .. } => Some(tenant),
        SpineCall::CreateCampaign { tenant, .. } => Some(tenant),
        SpineCall::Find { tenant, .. } => Some(tenant),
        SpineCall::List { tenant, .. } => Some(tenant),
        SpineCall::SetField { .. } => None,
    }
}

/// Whether a first step, where it makes a call, makes it for the tenant of the invocation.
pub open spec fn for_tenant(call: CallRec, step: StepRec) -> bool {
    match step {
        StepRec::Call(c, _) => tenant_of(c) == Some(call.tenant),
        StepRec::Done(_) => true,
    }
}

/// Every capability calls the store for the tenant of its invocation first, whatever its arguments.
pub proof fn law_calls_are_for_the_tenant(call: CallRec)
    ensures
        for_tenant(call, mandate_create(call)),
        for_tenant(call, mandate_get(call)),
        for_tenant(call, mandate_list(call)),
        for_tenant(call, mandate_update(call)),
        for_tenant(call, campaign_create(call)),
        for_tenant(call, campaign_get(call)),
        for_tenant(call, campaign_list(call)),
        for_tenant(call, campaign_update(call)),
{
}

/// An object is changed only where the guard found it, and the object that is changed is the one
/// that was looked for.
pub proof fn law_changes_are_guarded(pending: Pending<Text>, event: SpineEvent<Text, Seq<u8>>)
    ensures
        match resumed(pending, event) {
            StepRec::Call(c, _) => match pending {
                Pending::Guard { kind, id, field, value } => event is Found && event->Found_0 is Some && c == (
                SpineCall::SetField { kind, id, field, value }),
                _ => false,
            },
            StepRec::Done(_) => true,
        },
{
}

} // verus!
