//! Execution edges: recording them, listing them, and replays of tasks.
use vstd::prelude::*;
use crate::coordinator::interrupt;
use crate::coordinator::ledger::{Ledger, TaskStore};
use crate::coordinator::model::{
    self, CoordinatorError, EdgeProducerOutcome, EdgeRec, Fault, TaskEdge, TaskRec,
};
use crate::coordinator::update;
use crate::coordinator::vocab::RetryPolicy;
use crate::listing;
use crate::outside::{self, JsonField, JsonFields, JsonScalar};
use crate::text::{self, Text};

verus! {

/// The fields of an object with one more text, where there is one.
pub open spec fn with_text(fields: JsonFields, key: Text, value: Option<Text>) -> JsonFields {
    match value {
        Some(t) => fields.insert(key, JsonScalar::Text(t)),
        None => fields,
    }
}

/// The fields that announce an edge.
pub open spec fn edge_fields(
    edge_type: Text,
    related: Text,
    producer: Text,
    now: i64,
    branch: Option<Text>,
    context: Option<Text>,
    reason: Option<Text>,
) -> JsonFields {
    with_text(
        with_text(
            with_text(
                outside::no_fields().insert("edge_type"@, JsonScalar::Text(edge_type)).insert(
                    "related_task_id"@,
                    JsonScalar::Text(related),
                ).insert("producer"@, JsonScalar::Text(producer)).insert("produced_at"@, JsonScalar::Number(now)),
                "branch_id"@,
                branch,
            ),
            "context_id"@,
            context,
        ),
        "reason"@,
        reason,
    )
}

/// What an edge is announced as.
pub open spec fn edge_text(related: Text, branch: Option<Text>, reason: Option<Text>) -> Text {
    let s = "→"@ + related;
    let b = match branch {
        Some(x) => s + " · branch="@ + x,
        None => s,
    };
    match reason {
        Some(r) => b + " · "@ + r,
        None => b,
    }
}

pub open spec fn self_edge(edge_type: Text) -> Text {
    edge_type + ": parent and related task_id must differ (intra-task edges have dedicated types)"@
}

/// What recording an edge is asked to write.
pub struct EdgeRequest {
    pub parent: Text,
    pub related: Text,
    pub edge_type: Text,
    pub event_type: Text,
    pub branch: Option<Text>,
    pub context: Option<Text>,
    pub reason: Option<Text>,
    pub producer: Text,
    /// What the event says in place of the edge's own line.
    pub line: Option<Text>,
}

impl Ledger {
    /// What recording an edge between two tasks does and returns.
    pub open spec fn edge_recorded(self, now: i64, q: EdgeRequest) -> (Ledger, Result<EdgeProducerOutcome, Fault>) {
        let branch = text::trim_opt(q.branch);
        let context = text::trim_opt(q.context);
        let reason = text::trim_opt(q.reason);
        if q.parent == q.related {
            (self, Err(Fault::Invalid(self_edge(q.edge_type))))
        } else if interrupt::oversize(reason) {
            (
                self,
                Err(
                    Fault::Invalid(
                        interrupt::too_long(q.edge_type + ": reason"@, text::byte_len(reason->0) as int),
                    ),
                ),
            )
        } else if !self.has(q.parent) {
            (self, Err(Fault::NotFound(q.parent)))
        } else if !self.has(q.related) {
            (self, Err(Fault::NotFound(q.related)))
        } else {
            let event_id = (self.event_seq + 1) as i64;
            (
                self.log(
                    q.parent,
                    now,
                    q.event_type,
                    match q.line {
                        Some(t) => t,
                        None => edge_text(q.related, branch, reason),
                    },
                    None,
                    None,
                    outside::object_text(
                        edge_fields(q.edge_type, q.related, q.producer, now, branch, context, reason),
                    ),
                ).with_edge(
                    EdgeRec {
                        edge_id: 0,
                        task_id: q.parent,
                        attempt_id: None,
                        edge_type: q.edge_type,
                        related_task_id: Some(q.related),
                        related_attempt_id: None,
                        spawned_by_event_id: Some(event_id),
                        created_at: now,
                    },
                ),
                Ok(EdgeProducerOutcome { edge_id: (self.edge_seq + 1) as i64, event_id }),
            )
        }
    }

    /// The row that a replay of a task begins with.
    pub open spec fn replay_row(self, now: i64, new_id: Text, id: Text) -> TaskRec {
        let h = self.head(id);
        update::new_row(
            now,
            new_id,
            h.title + " (replay)"@,
            h.flow_template,
            h.params_json,
            h.owner_subject_id,
            match RetryPolicy::of_word(h.retry_policy) {
                Some(p) => p,
                None => RetryPolicy::Never,
            },
            h.max_retries,
            h.max_runtime_secs,
            h.origin_surface,
        )
    }

    /// What replaying a task does and returns: a copy under a new id, with an edge back to the original.
    /// The copy is made at `now`, the edge at `edge_now`.
    pub open spec fn replayed(self, now: i64, edge_now: i64, new_id: Text, id: Text, producer: Text) -> (
        Ledger,
        Result<Text, Fault>,
    ) {
        if !self.has(id) {
            (self, Err(Fault::NotFound(id)))
        } else {
            let (l, made) = self.created(self.replay_row(now, new_id, id));
            match made {
                Err(e) => (l, Err(e)),
                Ok(_) => {
                    let (m, edge) = l.edge_recorded(
                        edge_now,
                        EdgeRequest {
                            parent: new_id,
                            related: id,
                            edge_type: "retried_from"@,
                            event_type: "task.replayed_from"@,
                            branch: None,
                            context: None,
                            reason: Some("replay of "@ + id),
                            producer,
                            line: Some("from="@ + id),
                        },
                    );
                    (
                        m,
                        match edge {
                            Ok(_) => Ok(new_id),
                            Err(e) => Err(e),
                        },
                    )
                },
            }
        }
    }

    /// What replaying a task under a fresh id does and returns; there may be no such id.
    pub open spec fn replayed_fresh(self, now: i64, edge_now: i64, fresh: Option<Text>, id: Text, producer: Text) -> (
        Ledger,
        Result<Text, Fault>,
    ) {
        match fresh {
            Some(new_id) => self.replayed(now, edge_now, new_id, id, producer),
            None => (
                self,
                Err(
                    if self.has(id) {
                        Fault::Io(outside::NO_FRESH_ID@)
                    } else {
                        Fault::NotFound(id)
                    },
                ),
            ),
        }
    }

    /// The edges that touch a task, in the order in which they were recorded.
    pub open spec fn edges_of(self, id: Text) -> Seq<EdgeRec> {
        self.edges.filter_map(pick_touching(id))
    }

    /// The newest edges of all tasks behind an edge id.
    pub open spec fn recent_edges(self, since: i64, limit: usize) -> Seq<EdgeRec> {
        listing::first(
            self.edges.filter_map(pick_since(since)).reverse(),
            listing::bounded(limit, self.max_list) as int,
        )
    }
}

/// Whether an edge begins or ends at a task.
pub open spec fn touches(e: EdgeRec, id: Text) -> bool {
    e.task_id == id || e.related_task_id == Some(id)
}

pub open spec fn pick_touching(id: Text) -> spec_fn(EdgeRec) -> Option<EdgeRec> {
    |e: EdgeRec| if touches(e, id) { Some(e) } else { None }
}

pub open spec fn pick_since(since: i64) -> spec_fn(EdgeRec) -> Option<EdgeRec> {
    |e: EdgeRec| if e.edge_id > since { Some(e) } else { None }
}

/// The task that delegated to another first, among the edges from place `k` on.
pub open spec fn delegator(edges: Seq<EdgeRec>, id: Text, k: int) -> Option<Text>
    decreases edges.len() - k,
{
    if k < 0 || k >= edges.len() {
        None
    } else if edges[k].related_task_id == Some(id) && edges[k].edge_type == "delegated_to"@ {
        Some(edges[k].task_id)
    } else {
        delegator(edges, id, k + 1)
    }
}

/// How many delegations lead down to a task, up to a limit.
pub open spec fn chain_depth(edges: Seq<EdgeRec>, id: Text, limit: nat) -> nat
    decreases limit,
{
    if limit == 0 {
        0
    } else {
        match delegator(edges, id, 0) {
            Some(parent) => if parent != id {
                1 + chain_depth(edges, parent, (limit - 1) as nat)
            } else {
                0
            },
            None => 0,
        }
    }
}

/// A chain is never reported as longer than the limit.
pub proof fn law_chain_depth_is_capped(edges: Seq<EdgeRec>, id: Text, limit: nat)
    ensures
        chain_depth(edges, id, limit) <= limit,
    decreases limit,
{
    if limit > 0 {
        match delegator(edges, id, 0) {
            Some(parent) => {
                if parent != id {
                    law_chain_depth_is_capped(edges, parent, (limit - 1) as nat);
                }
            },
            None => {},
        }
    }
}

fn edge_string(related: &str, branch: Option<&str>, reason: Option<&str>) -> (r: String)
    ensures
        r@ == edge_text(related@, text::opt_slice(branch), text::opt_slice(reason)),
{
    let mut a = text::owned("→");
    a.append(related);
    if let Some(b) = branch {
        a.append(" · branch=");
        a.append(b);
    }
    if let Some(x) = reason {
        a.append(" · ");
        a.append(x);
    }
    a
}

fn edge_json(
    edge_type: &str,
    related: &str,
    producer: &str,
    now: i64,
    branch: Option<&str>,
    context: Option<&str>,
    reason: Option<&str>,
) -> (r: String)
    ensures
        r@ == outside::object_text(
            edge_fields(
                edge_type@,
                related@,
                producer@,
                now,
                text::opt_slice(branch),
                text::opt_slice(context),
                text::opt_slice(reason),
            ),
        ),
{
    let mut m = outside::json_object();
    outside::json_put(&mut m, "edge_type", JsonField::Text(text::owned(edge_type)));
    outside::json_put(&mut m, "related_task_id", JsonField::Text(text::owned(related)));
    outside::json_put(&mut m, "producer", JsonField::Text(text::owned(producer)));
    outside::json_put(&mut m, "produced_at", JsonField::Number(now));
    if let Some(b) = branch {
        outside::json_put(&mut m, "branch_id", JsonField::Text(text::owned(b)));
    }
    if let Some(c) = context {
        outside::json_put(&mut m, "context_id", JsonField::Text(text::owned(c)));
    }
    if let Some(x) = reason {
        outside::json_put(&mut m, "reason", JsonField::Text(text::owned(x)));
    }
    outside::json_write(m)
}

impl TaskStore {
    /// Records an edge between two tasks at a given time, together with the event that announces it.
    pub(crate) fn record_cross_task_edge(
        &mut self,
        now: i64,
        parent_task_id: &str,
        related_task_id: &str,
        edge_type: &str,
        event_type: &str,
        branch_id: Option<&str>,
        context_id: Option<&str>,
        reason: Option<&str>,
        producer_subject_id: &str,
        line: Option<&str>,
    ) -> (r: Result<EdgeProducerOutcome, CoordinatorError>)
        requires
            old(self).wf(),
            old(self)@.event_seq < i64::MAX,
            old(self)@.edge_seq < i64::MAX,
        ensures
            (final(self)@, model::seen(r)) == old(self)@.edge_recorded(
                now,
                (EdgeRequest {
                    parent: parent_task_id@,
                    related: related_task_id@,
                    edge_type: edge_type@,
                    event_type: event_type@,
                    branch: text::opt_slice(branch_id),
                    context: text::opt_slice(context_id),
                    reason: text::opt_slice(reason),
                    producer: producer_subject_id@,
                    line: text::opt_slice(line),
                }),
            ),
            final(self).wf(),
    {
        if text::same(parent_task_id, related_task_id) {
            let mut m = text::owned(edge_type);
            m.append(": parent and related task_id must differ (intra-task edges have dedicated types)");
            return Err(CoordinatorError::Invalid(m));
        }
        let branch = text::trimmed_opt(branch_id);
        let context = text::trimmed_opt(context_id);
        let why = text::trimmed_opt(reason);
        if let Some(t) = &why {
            let n = text::len_bytes(t.as_str());
            if n > crate::coordinator::vocab::MAX_OPERATOR_NOTE_LEN {
                let what = text::owned(edge_type).concat(": reason");
                return Err(CoordinatorError::Invalid(interrupt::too_long_string(what.as_str(), n)));
            }
        }
        if self.find_index(parent_task_id) >= self.tasks.len() {
            return Err(CoordinatorError::NotFound(text::owned(parent_task_id)));
        }
        if self.find_index(related_task_id) >= self.tasks.len() {
            return Err(CoordinatorError::NotFound(text::owned(related_task_id)));
        }
        let legacy = match line {
            Some(t) => text::owned(t),
            None => edge_string(related_task_id, text::slice_opt(&branch), text::slice_opt(&why)),
        };
        let json = edge_json(
            edge_type,
            related_task_id,
            producer_subject_id,
            now,
            text::slice_opt(&branch),
            text::slice_opt(&context),
            text::slice_opt(&why),
        );
        let event_id: i64 = self.event_seq + 1;
        self.insert_typed_event(parent_task_id, now, event_type, legacy, None, None, json);
        let edge = TaskEdge {
            edge_id: 0,
            task_id: text::owned(parent_task_id),
            attempt_id: None,
            edge_type: text::owned(edge_type),
            related_task_id: Some(text::owned(related_task_id)),
            related_attempt_id: None,
            spawned_by_event_id: Some(event_id),
            created_at: now,
        };
        let edge_id = self.push_edge(edge);
        Ok(EdgeProducerOutcome { edge_id, event_id })
    }

    /// Records at a given time that a task spawned another.
    pub fn record_spawned_at(
        &mut self,
        now: i64,
        parent_task_id: &str,
        child_task_id: &str,
        branch_id: Option<&str>,
        context_id: Option<&str>,
        producer_subject_id: &str,
    ) -> (r: Result<EdgeProducerOutcome, CoordinatorError>)
        requires
            old(self).wf(),
            old(self)@.roomy(),
        ensures
            (final(self)@, model::seen(r)) == old(self)@.edge_recorded(
                now,
                spawned_request(
                    parent_task_id@,
                    child_task_id@,
                    text::opt_slice(branch_id),
                    text::opt_slice(context_id),
                    producer_subject_id@,
                ),
            ),
            final(self).wf(),
    {
        self.record_cross_task_edge(
            now,
            parent_task_id,
            child_task_id,
            "spawned",
            "task.spawned_child",
            branch_id,
            context_id,
            None,
            producer_subject_id,
            None,
        )
    }

    /// Records that a task spawned another.
    pub fn record_spawned(
        &mut self,
        parent_task_id: &str,
        child_task_id: &str,
        branch_id: Option<&str>,
        context_id: Option<&str>,
        producer_subject_id: &str,
    ) -> (r: Result<EdgeProducerOutcome, CoordinatorError>)
        requires
            old(self).wf(),
            old(self)@.roomy(),
        ensures
            exists|now: i64|
                (final(self)@, model::seen(r)) == #[trigger] old(self)@.edge_recorded(
                    now,
                    spawned_request(
                        parent_task_id@,
                        child_task_id@,
                        text::opt_slice(branch_id),
                        text::opt_slice(context_id),
                        producer_subject_id@,
                    ),
                ),
            final(self).wf(),
    {
        let now = outside::unix_secs();
        self.record_spawned_at(now, parent_task_id, child_task_id, branch_id, context_id, producer_subject_id)
    }

    /// Records at a given time that a task delegated to another.
    pub fn record_delegated_at(
        &mut self,
        now: i64,
        parent_task_id: &str,
        child_task_id: &str,
        delegation_reason: Option<&str>,
        producer_subject_id: &str,
    ) -> (r: Result<EdgeProducerOutcome, CoordinatorError>)
        requires
            old(self).wf(),
            old(self)@.roomy(),
        ensures
            (final(self)@, model::seen(r)) == old(self)@.edge_recorded(
                now,
                delegated_request(
                    parent_task_id@,
                    child_task_id@,
                    text::opt_slice(delegation_reason),
                    producer_subject_id@,
                ),
            ),
            final(self).wf(),
    {
        self.record_cross_task_edge(
            now,
            parent_task_id,
            child_task_id,
            "delegated_to",
            "task.delegated_to",
            None,
            None,
            delegation_reason,
            producer_subject_id,
            None,
        )
    }

    /// Records that a task delegated to another.
    pub fn record_delegated(
        &mut self,
        parent_task_id: &str,
        child_task_id: &str,
        delegation_reason: Option<&str>,
        producer_subject_id: &str,
    ) -> (r: Result<EdgeProducerOutcome, CoordinatorError>)
        requires
            old(self).wf(),
            old(self)@.roomy(),
        ensures
            exists|now: i64|
                (final(self)@, model::seen(r)) == #[trigger] old(self)@.edge_recorded(
                    now,
                    delegated_request(
                        parent_task_id@,
                        child_task_id@,
                        text::opt_slice(delegation_reason),
                        producer_subject_id@,
                    ),
                ),
            final(self).wf(),
    {
        let now = outside::unix_secs();
        self.record_delegated_at(now, parent_task_id, child_task_id, delegation_reason, producer_subject_id)
    }

    /// Records at a given time that a task waits for another.
    pub fn record_awaited_at(
        &mut self,
        now: i64,
        parent_task_id: &str,
        awaited_task_id: &str,
        await_reason: Option<&str>,
        producer_subject_id: &str,
    ) -> (r: Result<EdgeProducerOutcome, CoordinatorError>)
        requires
            old(self).wf(),
            old(self)@.roomy(),
        ensures
            (final(self)@, model::seen(r)) == old(self)@.edge_recorded(
                now,
                awaited_request(
                    parent_task_id@,
                    awaited_task_id@,
                    text::opt_slice(await_reason),
                    producer_subject_id@,
                ),
            ),
            final(self).wf(),
    {
        self.record_cross_task_edge(
            now,
            parent_task_id,
            awaited_task_id,
            "awaited",
            "task.awaiting",
            None,
            None,
            await_reason,
            producer_subject_id,
            None,
        )
    }

    /// Records that a task waits for another.
    pub fn record_awaited(
        &mut self,
        parent_task_id: &str,
        awaited_task_id: &str,
        await_reason: Option<&str>,
        producer_subject_id: &str,
    ) -> (r: Result<EdgeProducerOutcome, CoordinatorError>)
        requires
            old(self).wf(),
            old(self)@.roomy(),
        ensures
            exists|now: i64|
                (final(self)@, model::seen(r)) == #[trigger] old(self)@.edge_recorded(
                    now,
                    awaited_request(
                        parent_task_id@,
                        awaited_task_id@,
                        text::opt_slice(await_reason),
                        producer_subject_id@,
                    ),
                ),
            final(self).wf(),
    {
        let now = outside::unix_secs();
        self.record_awaited_at(now, parent_task_id, awaited_task_id, await_reason, producer_subject_id)
    }

    /// Replays a task at given times under a given id.
    pub fn replay_from_at(
        &mut self,
        now: i64,
        edge_now: i64,
        new_id: String,
        original_task_id: &str,
        producer_subject_id: &str,
    ) -> (r: Result<String, CoordinatorError>)
        requires
            old(self).wf(),
            old(self)@.roomy(),
        ensures
            (final(self)@, model::seen(r)) == old(self)@.replayed(
                now,
                edge_now,
                new_id@,
                original_task_id@,
                producer_subject_id@,
            ),
            final(self).wf(),
    {
        let i = self.find_index(original_task_id);
        if i >= self.tasks.len() {
            return Err(CoordinatorError::NotFound(text::owned(original_task_id)));
        }
        let ghost l0 = self@;
        assert(self.tasks@[i as int]@ == l0.tasks[i as int]);
        let head = self.tasks[i].head.dup();
        let policy = match RetryPolicy::parse(head.retry_policy.as_str()) {
            Some(p) => p,
            None => RetryPolicy::Never,
        };
        let title = head.title.clone().concat(" (replay)");
        let made = self.create_at(
            now,
            new_id,
            title.as_str(),
            head.flow_template.as_str(),
            head.params_json.as_str(),
            head.owner_subject_id.as_str(),
            policy,
            head.max_retries,
            head.max_runtime_secs,
            text::slice_opt(&head.origin_surface),
        );
        match made {
            Err(e) => Err(e),
            Ok(id) => {
                let reason = text::owned("replay of ").concat(original_task_id);
                let line = text::owned("from=").concat(original_task_id);
                match self.record_cross_task_edge(
                    edge_now,
                    id.as_str(),
                    original_task_id,
                    "retried_from",
                    "task.replayed_from",
                    None,
                    None,
                    Some(reason.as_str()),
                    producer_subject_id,
                    Some(line.as_str()),
                ) {
                    Ok(_) => Ok(id),
                    Err(e) => Err(e),
                }
            },
        }
    }

    /// Clones a task under a fresh id; fails where there is none.
    pub fn replay_fresh(
        &mut self,
        now: i64,
        edge_now: i64,
        fresh: Option<String>,
        original_task_id: &str,
        producer_subject_id: &str,
    ) -> (r: Result<String, CoordinatorError>)
        requires
            old(self).wf(),
            old(self)@.roomy(),
        ensures
            (final(self)@, model::seen(r)) == old(self)@.replayed_fresh(
                now,
                edge_now,
                text::opt_text(fresh),
                original_task_id@,
                producer_subject_id@,
            ),
            final(self).wf(),
    {
        match fresh {
            Some(new_id) => self.replay_from_at(now, edge_now, new_id, original_task_id, producer_subject_id),
            None => {
                if self.find_index(original_task_id) >= self.tasks.len() {
                    Err(CoordinatorError::NotFound(text::owned(original_task_id)))
                } else {
                    Err(CoordinatorError::Io(text::owned(outside::NO_FRESH_ID)))
                }
            },
        }
    }

    /// Clones a task into a new one, with an edge back to the original; returns the new id.
    pub fn replay_from(&mut self, original_task_id: &str, producer_subject_id: &str) -> (r: Result<
        String,
        CoordinatorError,
    >)
        requires
            old(self).wf(),
            old(self)@.roomy(),
        ensures
            exists|now: i64, edge_now: i64, fresh: Option<Text>|
                outside::may_be_drawn(fresh) && (final(self)@, model::seen(r)) == #[trigger] old(self)@.replayed_fresh(
                    now,
                    edge_now,
                    fresh,
                    original_task_id@,
                    producer_subject_id@,
                ),
            final(self).wf(),
    {
        let fresh = outside::new_task_id();
        let now = outside::unix_secs();
        let edge_now = outside::unix_secs();
        self.replay_fresh(now, edge_now, fresh, original_task_id, producer_subject_id)
    }

    /// The edges that touch a task, oldest first.
    pub fn list_edges_for_task(&self, task_id: &str) -> (r: Result<Vec<TaskEdge>, CoordinatorError>)
        ensures
            model::seen_rows(r) == Ok::<Seq<EdgeRec>, Fault>(self@.edges_of(task_id@)),
    {
        let ghost f = pick_touching(task_id@);
        let mut out: Vec<TaskEdge> = Vec::new();
        let mut i: usize = 0;
        assert(model::views(out@) =~= self@.edges.take(0).filter_map(f));
        while i < self.edges.len()
            invariant
                i <= self.edges@.len(),
                f == pick_touching(task_id@),
                model::views(out@) == self@.edges.take(i as int).filter_map(f),
            decreases self.edges@.len() - i,
        {
            proof {
                self@.edges.lemma_filter_map_take_succ(f, i as int);
            }
            let ghost before = model::views(out@);
            let row = &self.edges[i];
            assert(row@ == self@.edges[i as int]);
            if edge_touches(row, task_id) {
                out.push(row.dup());
                assert(model::views(out@) =~= before + seq![row@]);
            } else {
                assert(before =~= before + Seq::<EdgeRec>::empty());
            }
            i = i + 1;
        }
        assert(self@.edges.take(self@.edges.len() as int) =~= self@.edges);
        Ok(out)
    }

    /// The newest edges of all tasks behind an edge id.
    pub fn list_recent_edges(&self, since_edge_id: i64, limit: usize) -> (r: Result<Vec<TaskEdge>, CoordinatorError>)
        ensures
            model::seen_rows(r) == Ok::<Seq<EdgeRec>, Fault>(self@.recent_edges(since_edge_id, limit)),
    {
        let cap = listing::bound(limit, self.max_list);
        let ghost f = pick_since(since_edge_id);
        let mut out: Vec<TaskEdge> = Vec::new();
        let mut i: usize = 0;
        assert(model::views(out@) =~= self@.edges.take(0).filter_map(f));
        while i < self.edges.len()
            invariant
                i <= self.edges@.len(),
                f == pick_since(since_edge_id),
                model::views(out@) == self@.edges.take(i as int).filter_map(f),
            decreases self.edges@.len() - i,
        {
            proof {
                self@.edges.lemma_filter_map_take_succ(f, i as int);
            }
            let ghost before = model::views(out@);
            let row = &self.edges[i];
            assert(row@ == self@.edges[i as int]);
            if row.edge_id > since_edge_id {
                out.push(row.dup());
                assert(model::views(out@) =~= before + seq![row@]);
            } else {
                assert(before =~= before + Seq::<EdgeRec>::empty());
            }
            i = i + 1;
        }
        assert(self@.edges.take(self@.edges.len() as int) =~= self@.edges);
        let ghost all = model::views(out@);
        let newest = listing::newest_first(out);
        assert(model::views(newest@) =~= all.reverse());
        let r = listing::keep_first(newest, cap);
        assert(model::views(r@) =~= listing::first(all.reverse(), cap as int));
        Ok(r)
    }

    fn delegator_of(&self, task_id: &str) -> (r: Option<String>)
        ensures
            text::opt_text(r) == delegator(self@.edges, task_id@, 0),
    {
        let mut k: usize = 0;
        while k < self.edges.len()
            invariant
                k <= self.edges@.len(),
                delegator(self@.edges, task_id@, 0) == delegator(self@.edges, task_id@, k as int),
            decreases self.edges@.len() - k,
        {
            let e = &self.edges[k];
            assert(e@ == self@.edges[k as int]);
            if text::same_opt(text::slice_opt(&e.related_task_id), Some(task_id)) && text::same(
                e.edge_type.as_str(),
                "delegated_to",
            ) {
                return Some(e.task_id.clone());
            }
            k = k + 1;
        }
        None
    }

    /// How many delegations lead down to a task, up to `max_depth`.
    pub fn delegation_chain_depth(&self, task_id: &str, max_depth: usize) -> (r: Result<usize, CoordinatorError>)
        ensures
            r matches Ok(d) && d == chain_depth(self@.edges, task_id@, max_depth as nat),
    {
        let mut current = text::owned(task_id);
        let mut depth: usize = 0;
        let ghost edges = self@.edges;
        while depth < max_depth
            invariant
                depth <= max_depth,
                edges == self@.edges,
                chain_depth(edges, task_id@, max_depth as nat) == depth + chain_depth(
                    edges,
                    current@,
                    (max_depth - depth) as nat,
                ),
            ensures
                depth <= max_depth,
                chain_depth(edges, task_id@, max_depth as nat) == depth,
            decreases max_depth - depth,
        {
            match self.delegator_of(current.as_str()) {
                Some(parent) => {
                    if text::same(parent.as_str(), current.as_str()) {
                        break;
                    }
                    current = parent;
                    depth = depth + 1;
                },
                None => {
                    break;
                },
            }
        }
        Ok(depth)
    }
}

pub(crate) fn edge_touches(e: &TaskEdge, id: &str) -> (r: bool)
    ensures
        r == touches(e@, id@),
{
    text::same(e.task_id.as_str(), id) || text::same_opt(text::slice_opt(&e.related_task_id), Some(id))
}

/// The request that records a spawn.
pub open spec fn spawned_request(parent: Text, child: Text, branch: Option<Text>, context: Option<Text>, producer: Text) -> EdgeRequest {
    EdgeRequest {
        parent,
        related: child,
        edge_type: "spawned"@,
        event_type: "task.spawned_child"@,
        branch,
        context,
        reason: None,
        producer,
        line: None,
    }
}

/// The request that records a delegation.
pub open spec fn delegated_request(parent: Text, child: Text, reason: Option<Text>, producer: Text) -> EdgeRequest {
    EdgeRequest {
        parent,
        related: child,
        edge_type: "delegated_to"@,
        event_type: "task.delegated_to"@,
        branch: None,
        context: None,
        reason,
        producer,
        line: None,
    }
}

/// The request that records a wait.
pub open spec fn awaited_request(parent: Text, awaited: Text, reason: Option<Text>, producer: Text) -> EdgeRequest {
    EdgeRequest {
        parent,
        related: awaited,
        edge_type: "awaited"@,
        event_type: "task.awaiting"@,
        branch: None,
        context: None,
        reason,
        producer,
        line: None,
    }
}

} // verus!
