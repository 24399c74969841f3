//! The vector store behind semantic search: which collection a tenant uses, and which requests an
//! operation makes. Bodies hold vectors of floating-point numbers and are made by the caller.
use vstd::prelude::*;
use crate::numeral;
use crate::text::{self, Text};

verus! {

/// Configuration of the vector store.
#[derive(Clone, Debug, PartialEq, Eq)]
pub struct QdrantConfig {
    /// Base address of the server; empty where there is none.
    pub url: String,
    /// Collection of calls without tenant isolation.
    pub collection: String,
    /// Dimension of the vectors.
    pub dim: usize,
    /// Key that the server asks for; an empty one counts as none.
    pub api_key: Option<String>,
    /// Whether each tenant has a collection of its own.
    pub tenant_isolation: bool,
    /// What the names of the tenants' collections begin with.
    pub collection_prefix: String,
}

impl Default for QdrantConfig {
    fn default() -> (r: Self)
        ensures
            r.url@ == Seq::<char>::empty(),
            r.collection@ == Seq::<char>::empty(),
            r.dim == 0,
            r.api_key is None,
            !r.tenant_isolation,
            r.collection_prefix@ == Seq::<char>::empty(),
    {
        QdrantConfig {
            url: String::new(),
            collection: String::new(),
            dim: 0,
            api_key: None,
            tenant_isolation: false,
            collection_prefix: String::new(),
        }
    }
}

/// The collection of a configuration that names none.
pub fn default_collection() -> (r: String)
    ensures
        r@ == "relix_memory"@,
{
    text::owned("relix_memory")
}

/// The dimension of a configuration that names none.
pub fn default_dim() -> (r: usize)
    ensures
        r == 1536,
{
    1536
}

/// The prefix of a configuration that names none.
pub fn default_collection_prefix() -> (r: String)
    ensures
        r@ == "relix"@,
{
    text::owned("relix")
}

/// Whether a character may stand in a collection's name.
pub open spec fn is_name_char(c: char) -> bool {
    let n = c as int;
    48 <= n <= 57 || 65 <= n <= 90 || 97 <= n <= 122 || c == '_'
}

/// A tenant's id with an underscore for each character that may not stand in a name; `default`
/// where the id is empty.
pub open spec fn tenant_name(raw: Text) -> Text {
    if raw.len() == 0 {
        "default"@
    } else {
        raw.map_values(
            |c: char|
                if is_name_char(c) {
                    c
                } else {
                    '_'
                },
        )
    }
}

/// The collection that a call for a tenant uses.
pub open spec fn collection_name(cfg: QdrantConfig, tenant: Option<Text>) -> Text {
    if cfg.tenant_isolation {
        cfg.collection_prefix@ + "_"@ + tenant_name(
            match tenant {
                Some(t) => t,
                None => Seq::empty(),
            },
        )
    } else {
        cfg.collection@
    }
}

fn name_char(c: char) -> (r: bool)
    ensures
        r == is_name_char(c),
{
    (c >= '0' && c <= '9') || (c >= 'A' && c <= 'Z') || (c >= 'a' && c <= 'z') || c == '_'
}

/// The collection that a call for a tenant uses.
pub fn resolve_collection_name(cfg: &QdrantConfig, tenant_id: Option<&str>) -> (r: String)
    ensures
        r@ == collection_name(*cfg, text::opt_slice(tenant_id)),
{
    if !cfg.tenant_isolation {
        return cfg.collection.clone();
    }
    let mut s = cfg.collection_prefix.clone();
    s.append("_");
    let raw = match tenant_id {
        Some(t) => t,
        None => {
            proof {
                reveal_strlit("");
                assert(""@ =~= Seq::<char>::empty());
            }
            ""
        },
    };
    if raw.is_empty() {
        s.append("default");
        return s;
    }
    let ghost head = s@;
    let ghost all = tenant_name(raw@);
    let v = text::chars_of(raw);
    let mut i: usize = 0;
    assert(head + all.take(0) =~= head);
    while i < v.len()
        invariant
            i <= v@.len(),
            v@ == raw@,
            raw@.len() > 0,
            all == tenant_name(raw@),
            all.len() == v@.len(),
            s@ == head + all.take(i as int),
        decreases v@.len() - i,
    {
        let c = if name_char(v[i]) {
            v[i]
        } else {
            '_'
        };
        s.push(c);
        assert(all[i as int] == c);
        assert(all.take(i + 1) =~= all.take(i as int).push(c));
        assert(s@ =~= head + all.take(i + 1));
        i = i + 1;
    }
    assert(all.take(all.len() as int) =~= all);
    s
}

/// A tenant's part of a collection's name is made of letters, digits and underscores, and ids that
/// are made of these alone keep their own collection.
pub proof fn law_tenant_names(raw: Text, other: Text)
    ensures
        forall|i: int| 0 <= i < tenant_name(raw).len() ==> is_name_char(#[trigger] tenant_name(raw)[i]),
        tenant_name(raw).len() > 0,
        raw.len() > 0 && other.len() > 0 && raw != other && (forall|i: int|
            0 <= i < raw.len() ==> is_name_char(#[trigger] raw[i])) && (forall|i: int|
            0 <= i < other.len() ==> is_name_char(#[trigger] other[i])) ==> tenant_name(raw) != tenant_name(other),
{
    reveal_strlit("default");
    assert("default"@.len() == 7);
    if raw.len() > 0 && (forall|i: int| 0 <= i < raw.len() ==> is_name_char(#[trigger] raw[i])) {
        assert(tenant_name(raw) =~= raw);
    }
    if other.len() > 0 && (forall|i: int| 0 <= i < other.len() ==> is_name_char(#[trigger] other[i])) {
        assert(tenant_name(other) =~= other);
    }
}

/// With isolation on, tenants whose ids are different names use different collections.
pub proof fn law_tenants_are_isolated(cfg: QdrantConfig, a: Text, b: Text)
    requires
        cfg.tenant_isolation,
        tenant_name(a) != tenant_name(b),
    ensures
        collection_name(cfg, Some(a)) != collection_name(cfg, Some(b)),
{
    let head = cfg.collection_prefix@ + "_"@;
    let x = collection_name(cfg, Some(a));
    let y = collection_name(cfg, Some(b));
    if x == y {
        assert(x.skip(head.len() as int) =~= tenant_name(a));
        assert(y.skip(head.len() as int) =~= tenant_name(b));
    }
}

/// Errors of the vector store.
#[derive(Debug, Clone, PartialEq, Eq)]
pub enum QdrantError {
    /// The request did not get through.
    Http(String),
    /// The server refused.
    Api { status: u16, message: String },
    /// The answer could not be read.
    Serialization(String),
}

impl QdrantError {
    /// The error in words.
    pub open spec fn words(self) -> Text {
        match self {
            QdrantError::Http(m) => "qdrant http: "@ + m@,
            QdrantError::Api { status, message } => "qdrant api status="@ + numeral::dec(status as int) + " body="@
                + message@,
            QdrantError::Serialization(m) => "qdrant serialization: "@ + m@,
        }
    }

    /// The error in words.
    pub fn message(&self) -> (r: String)
        ensures
            r@ == self.words(),
    {
        match self {
            QdrantError::Http(m) => text::owned("qdrant http: ").concat(m.as_str()),
            QdrantError::Api { status, message } => {
                let mut s = text::owned("qdrant api status=");
                numeral::push_i64(&mut s, *status as i64);
                s.append(" body=");
                s.append(message.as_str());
                s
            },
            QdrantError::Serialization(m) => text::owned("qdrant serialization: ").concat(m.as_str()),
        }
    }
}

/// Whether a status is one of success.
pub open spec fn is_success(status: u16) -> bool {
    200 <= status < 300
}

/// What a server's answer means: an error unless its status is one of success.
pub fn check_status(status: u16, body: String) -> (r: Result<(), QdrantError>)
    ensures
        match r {
            Ok(_) => is_success(status),
            Err(e) => !is_success(status) && e == (QdrantError::Api { status, message: body }),
        },
{
    if status >= 200 && status < 300 {
        Ok(())
    } else {
        Err(QdrantError::Api { status, message: body })
    }
}

/// What the answer to a delete says: how many points went, where the server gave a number, and none
/// where there is no such collection.
pub fn delete_answered(status: u16, body: String, deleted: Option<u64>) -> (r: Result<u64, QdrantError>)
    ensures
        match r {
            Ok(n) => if is_success(status) {
                n == if deleted is Some {
                    deleted->0
                } else {
                    0
                }
            } else {
                status == 404 && n == 0
            },
            Err(e) => !is_success(status) && status != 404 && e == (QdrantError::Api { status, message: body }),
        },
{
    if status == 404 {
        return Ok(0);
    }
    match check_status(status, body) {
        Ok(_) => match deleted {
            Some(n) => Ok(n),
            None => Ok(0),
        },
        Err(e) => Err(e),
    }
}

/// The body of the request that makes a collection.
pub open spec fn collection_words(dim: int) -> Text {
    "{\"vectors\":{\"distance\":\"Cosine\",\"size\":"@ + numeral::dec(dim) + "}}"@
}

/// The body of the request that makes a collection: the dimension of its vectors and how their distance
/// is measured.
pub fn collection_body(cfg: &QdrantConfig) -> (r: String)
    ensures
        r@ == collection_words(cfg.dim as int),
{
    let mut s = text::owned("{\"vectors\":{\"distance\":\"Cosine\",\"size\":");
    numeral::push_usize(&mut s, cfg.dim);
    s.append("}}");
    s
}

/// What is done to a collection.
#[derive(Debug, Clone, Copy, PartialEq, Eq)]
pub enum Operation {
    /// Make the collection, unless it is there.
    Ensure,
    /// Write points.
    Upsert,
    /// Search for neighbours.
    Search,
    /// Delete points by a filter.
    Delete,
}

/// The method of a request.
#[derive(Debug, Clone, Copy, PartialEq, Eq)]
pub enum Verb {
    Put,
    Post,
}

/// A request to the server, but for its body.
#[derive(Debug, Clone, PartialEq, Eq)]
pub struct Request {
    pub operation: Operation,
    pub verb: Verb,
    pub url: String,
    /// The key to send, where there is one.
    pub api_key: Option<String>,
}

/// The mathematical model of [`Request`].
pub struct RequestRec {
    pub operation: Operation,
    pub verb: Verb,
    pub url: Text,
    pub api_key: Option<Text>,
}

impl View for Request {
    type V = RequestRec;

    open spec fn view(&self) -> RequestRec {
        RequestRec {
            operation: self.operation,
            verb: self.verb,
            url: self.url@,
            api_key: text::opt_text(self.api_key),
        }
    }
}

/// An address without the slashes at its end.
pub open spec fn without_slashes(t: Text) -> Text
    decreases t.len(),
{
    if t.len() > 0 && t.last() == '/' {
        without_slashes(t.drop_last())
    } else {
        t
    }
}

fn strip_slashes(s: &str) -> (r: String)
    ensures
        r@ == without_slashes(s@),
{
    let v = text::chars_of(s);
    let mut n: usize = v.len();
    assert(s@.take(n as int) =~= s@);
    while n > 0 && v[n - 1] == '/'
        invariant
            n <= v@.len(),
            v@ == s@,
            without_slashes(s@) == without_slashes(s@.take(n as int)),
        decreases n,
    {
        assert(s@.take(n as int).drop_last() =~= s@.take(n - 1));
        n = n - 1;
    }
    let r = text::text_of(&v, 0, n);
    assert(r@ =~= s@.take(n as int));
    r
}

/// The method of an operation.
pub open spec fn verb_of(op: Operation) -> Verb {
    match op {
        Operation::Ensure | Operation::Upsert => Verb::Put,
        Operation::Search | Operation::Delete => Verb::Post,
    }
}

/// What an operation's address has behind the collection's name.
pub open spec fn path_end(op: Operation) -> Text {
    match op {
        Operation::Ensure => Seq::empty(),
        Operation::Upsert => "/points?wait=true"@,
        Operation::Search => "/points/search"@,
        Operation::Delete => "/points/delete?wait=true"@,
    }
}

/// The request that an operation on a collection makes.
pub open spec fn request_rec(cfg: QdrantConfig, op: Operation, collection: Text) -> RequestRec {
    RequestRec {
        operation: op,
        verb: verb_of(op),
        url: without_slashes(cfg.url@) + "/collections/"@ + collection + path_end(op),
        api_key: text::non_empty(text::opt_text(cfg.api_key)),
    }
}

/// The client: its configuration, and the collections that are known to be there.
#[derive(Clone, Debug)]
pub struct QdrantClient {
    cfg: QdrantConfig,
    ensured: Vec<String>,
}

impl QdrantClient {
    /// The configuration.
    pub closed spec fn settings(self) -> QdrantConfig {
        self.cfg
    }

    /// The collections that are known to be there.
    pub closed spec fn known(self) -> Set<Text> {
        text::texts(self.ensured@).to_set()
    }

    /// A client that knows of no collection.
    pub fn new(cfg: QdrantConfig) -> (r: Self)
        ensures
            r.settings() == cfg,
            r.known() == Set::<Text>::empty(),
    {
        let r = QdrantClient { cfg, ensured: Vec::new() };
        assert(r.known() =~= Set::empty());
        r
    }

    /// The configuration.
    pub fn config(&self) -> (r: &QdrantConfig)
        ensures
            *r == self.settings(),
    {
        &self.cfg
    }

    /// The collection that a call for a tenant uses.
    pub fn collection_for_tenant(&self, tenant_id: Option<&str>) -> (r: String)
        ensures
            r@ == collection_name(self.settings(), text::opt_slice(tenant_id)),
    {
        resolve_collection_name(&self.cfg, tenant_id)
    }

    /// Whether a collection is known to be there.
    pub fn was_ensured(&self, name: &str) -> (r: bool)
        ensures
            r == self.known().contains(name@),
    {
        let ghost all = text::texts(self.ensured@);
        let mut i: usize = 0;
        while i < self.ensured.len()
            invariant
                i <= self.ensured@.len(),
                all == text::texts(self.ensured@),
                forall|k: int| 0 <= k < i ==> #[trigger] all[k] != name@,
            decreases self.ensured@.len() - i,
        {
            assert(all[i as int] == self.ensured@[i as int]@);
            if text::same(self.ensured[i].as_str(), name) {
                assert(all.contains(name@));
                return true;
            }
            i = i + 1;
        }
        assert(!all.contains(name@));
        false
    }

    /// Notes that a collection is there.
    pub fn mark_ensured(&mut self, name: &str)
        ensures
            final(self).settings() == old(self).settings(),
            final(self).known() == old(self).known().insert(name@),
    {
        let ghost before = text::texts(self.ensured@);
        self.ensured.push(text::owned(name));
        assert(text::texts(self.ensured@) =~= before.push(name@));
        assert(self.known() =~= old(self).known().insert(name@)) by {
            let after = before.push(name@);
            assert forall|t: Text| after.contains(t) <==> (before.contains(t) || t == name@) by {
                if before.contains(t) {
                    let k = choose|k: int| 0 <= k < before.len() && before[k] == t;
                    assert(after[k] == t);
                }
                if t == name@ {
                    assert(after[before.len() as int] == t);
                }
            }
        }
    }

    /// The request that an operation on a collection makes.
    pub fn request(&self, op: Operation, collection: &str) -> (r: Request)
        ensures
            r@ == request_rec(self.settings(), op, collection@),
    {
        let mut url = strip_slashes(self.cfg.url.as_str());
        url.append("/collections/");
        url.append(collection);
        let ghost head = url@;
        match op {
            Operation::Ensure => {
                assert(head =~= head + Seq::<char>::empty());
            },
            Operation::Upsert => url.append("/points?wait=true"),
            Operation::Search => url.append("/points/search"),
            Operation::Delete => url.append("/points/delete?wait=true"),
        }
        let verb = match op {
            Operation::Ensure | Operation::Upsert => Verb::Put,
            Operation::Search | Operation::Delete => Verb::Post,
        };
        let key = text::filled_opt(text::slice_opt(&self.cfg.api_key));
        Request { operation: op, verb, url, api_key: text::owned_opt(key) }
    }

    /// The requests that an operation on a collection makes, in their order. Where the collection
    /// is not known to be there it is made first, except for a deletion.
    pub fn plan(&self, op: Operation, collection: &str) -> (r: Vec<Request>)
        ensures
            requests(r@) == plan_of(self.settings(), self.known(), op, collection@),
    {
        let mut out: Vec<Request> = Vec::new();
        let known = self.was_ensured(collection);
        match op {
            Operation::Delete => {},
            _ => {
                if !known {
                    out.push(self.request(Operation::Ensure, collection));
                }
            },
        }
        match op {
            Operation::Ensure => {},
            _ => out.push(self.request(op, collection)),
        }
        assert(requests(out@) =~= plan_of(self.settings(), self.known(), op, collection@));
        out
    }

    /// Takes the server's answer to the request that makes a collection: it is known from then on
    /// where the status is one of success.
    pub fn collection_answered(&mut self, name: &str, status: u16, body: String) -> (r: Result<(), QdrantError>)
        ensures
            final(self).settings() == old(self).settings(),
            match r {
                Ok(_) => is_success(status) && final(self).known() == old(self).known().insert(name@),
                Err(e) => !is_success(status) && e == (QdrantError::Api { status, message: body }) && final(self).known()
                    == old(self).known(),
            },
    {
        match check_status(status, body) {
            Ok(_) => {
                self.mark_ensured(name);
                Ok(())
            },
            Err(e) => Err(e),
        }
    }
}

/// The models of requests.
pub open spec fn requests(v: Seq<Request>) -> Seq<RequestRec> {
    v.map_values(|r: Request| r@)
}

/// The requests that an operation on a collection makes.
pub open spec fn plan_of(cfg: QdrantConfig, known: Set<Text>, op: Operation, collection: Text) -> Seq<RequestRec> {
    let first = if op is Delete || known.contains(collection) {
        Seq::empty()
    } else {
        seq![request_rec(cfg, Operation::Ensure, collection)]
    };
    if op is Ensure {
        first
    } else {
        first.push(request_rec(cfg, op, collection))
    }
}

/// A collection that is known to be there is not made again, and every write or search is preceded
/// by the making of a collection that is not.
pub proof fn law_collections_are_made_once(cfg: QdrantConfig, known: Set<Text>, op: Operation, collection: Text)
    ensures
        known.contains(collection) ==> forall|k: int|
            0 <= k < plan_of(cfg, known, op, collection).len() ==> !((#[trigger] plan_of(
                cfg,
                known,
                op,
                collection,
            )[k]).operation is Ensure),
        !known.contains(collection) && !(op is Delete) ==> plan_of(cfg, known, op, collection)[0].operation is Ensure,
{
}

/// A call uses its tenant's collection where tenants are isolated, the shared name of those without one
/// included, and the one collection of the configuration where they are not.
pub proof fn law_collections_are_chosen(cfg: QdrantConfig, tenant: Option<Text>)
    ensures
        !cfg.tenant_isolation ==> collection_name(cfg, tenant) == cfg.collection@,
        cfg.tenant_isolation && (tenant is None || tenant->0.len() == 0) ==> collection_name(cfg, tenant)
            == cfg.collection_prefix@ + "_"@ + "default"@,
        cfg.tenant_isolation && tenant is Some && tenant->0.len() > 0 ==> {
            let head = cfg.collection_prefix@ + "_"@;
            let name = collection_name(cfg, tenant);
            &&& name.len() == head.len() + tenant->0.len()
            &&& name.take(head.len() as int) == head
            &&& forall|i: int|
                0 <= i < tenant->0.len() ==> #[trigger] name[head.len() + i] == {
                    let c = tenant->0[i];
                    let n = c as int;
                    if 48 <= n <= 57 || 65 <= n <= 90 || 97 <= n <= 122 || c == '_' {
                        c
                    } else {
                        '_'
                    }
                }
        },
{
    let head = cfg.collection_prefix@ + "_"@;
    if cfg.tenant_isolation && tenant is Some && tenant->0.len() > 0 {
        assert(collection_name(cfg, tenant).take(head.len() as int) =~= head);
    }
}

/// An operation makes its own request, and the one that makes the collection before it where the
/// collection is not known and nothing is deleted. Each goes to the address of the collection, without
/// the slashes at the end of the server's, and with the key where one is set.
pub proof fn law_plans_are_carried_out(cfg: QdrantConfig, known: Set<Text>, op: Operation, collection: Text, base: Text)
    requires
        base.len() > 0 ==> base.last() != '/',
        cfg.url@ == base || cfg.url@ == base + seq!['/'],
    ensures
        ({
            let plan = plan_of(cfg, known, op, collection);
            let makes = !(op is Delete) && !known.contains(collection);
            let last = plan.last();
            let at = base + "/collections/"@ + collection;
            &&& plan.len() == (if makes {
                1int
            } else {
                0
            }) + (if op is Ensure {
                0int
            } else {
                1
            })
            &&& makes ==> plan[0].operation is Ensure && plan[0].verb is Put && plan[0].url == at
            &&& !(op is Ensure) ==> last.operation == op
            &&& op is Upsert ==> last.verb is Put && last.url == at + "/points?wait=true"@
            &&& op is Search ==> last.verb is Post && last.url == at + "/points/search"@
            &&& op is Delete ==> last.verb is Post && last.url == at + "/points/delete?wait=true"@
            &&& forall|k: int|
                0 <= k < plan.len() ==> (#[trigger] plan[k]).api_key == match cfg.api_key {
                    Some(s) => if s@.len() > 0 {
                        Some(s@)
                    } else {
                        None
                    },
                    None => None,
                }
        }),
{
    let url = cfg.url@;
    if url == base + seq!['/'] {
        assert(url.last() == '/');
        assert(url.drop_last() =~= base);
        reveal_with_fuel(without_slashes, 2);
    }
    assert(without_slashes(url) == base);
    let at = base + "/collections/"@ + collection;
    assert(at + Seq::<char>::empty() =~= at);
}

/// A server's answer is one of success just where its status is in the two hundreds; a collection is made
/// for vectors of the configured size.
pub proof fn law_statuses_are_told_apart(status: u16, dim: int)
    ensures
        is_success(status) <==> status / 100 == 2,
        collection_words(dim) == "{\"vectors\":{\"distance\":\"Cosine\",\"size\":"@ + numeral::dec(dim) + "}}"@,
{
}

} // verus!
