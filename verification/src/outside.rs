//! Calls into other crates and into parts of the standard library that have no
//! specification of their own. The contracts here are taken on trust.
use vstd::prelude::*;
use vstd::utf8::*;
use crate::text::{self, Text};

verus! {

/// A value of one field of a flat JSON object.
pub enum JsonField {
    Null,
    Flag(bool),
    Number(i64),
    Text(String),
}

/// The mathematical model of [`JsonField`].
pub enum JsonScalar {
    Null,
    Flag(bool),
    Number(i64),
    Text(Text),
}

impl View for JsonField {
    type V = JsonScalar;

    open spec fn view(&self) -> JsonScalar {
        match *self {
            JsonField::Null => JsonScalar::Null,
            JsonField::Flag(b) => JsonScalar::Flag(b),
            JsonField::Number(n) => JsonScalar::Number(n),
            JsonField::Text(s) => JsonScalar::Text(s@),
        }
    }
}

/// The fields of a flat JSON object.
pub type JsonFields = Map<Text, JsonScalar>;

/// `serde_json::Value`, an outside type that is only carried.
#[verifier::external_type_specification]
#[verifier::external_body]
pub struct ExJsonValue(serde_json::Value);

/// `serde_json::Map`, an outside collection.
#[verifier::external_type_specification]
#[verifier::external_body]
#[verifier::reject_recursive_types(K)]
#[verifier::reject_recursive_types(V)]
pub struct ExJsonMap<K, V>(serde_json::Map<K, V>);

/// The fields that a `serde_json::Map` holds.
pub uninterp spec fn json_fields(m: serde_json::Map<String, serde_json::Value>) -> Map<Text, JsonScalar>;

/// The compact text that `serde_json` writes for an object with the given fields.
pub uninterp spec fn object_text(fields: Map<Text, JsonScalar>) -> Text;

/// What `serde_json` finds when it parses a document and looks up a text field of the object at its top.
pub uninterp spec fn document_text_field(document: Text, key: Text) -> Option<Text>;

/// The object without fields.
pub open spec fn no_fields() -> JsonFields {
    Map::empty()
}

/// The text field of a flat object; `None` where the field is missing or holds something else.
pub open spec fn text_field(fields: JsonFields, key: Text) -> Option<Text> {
    if fields.dom().contains(key) {
        match fields[key] {
            JsonScalar::Text(t) => Some(t),
            _ => None,
        }
    } else {
        None
    }
}

/// `serde_json::Map::new` makes an object without fields.
#[verifier::external_body]
pub(crate) fn json_object() -> (m: serde_json::Map<String, serde_json::Value>)
    ensures
        json_fields(m) == no_fields(),
{
    serde_json::Map::new()
}

/// `serde_json::Map::insert` sets one field and leaves the others as they were.
#[verifier::external_body]
pub(crate) fn json_put(m: &mut serde_json::Map<String, serde_json::Value>, key: &str, field: JsonField)
    ensures
        json_fields(*final(m)) == json_fields(*old(m)).insert(key@, field@),
{
    let value = match field {
        JsonField::Null => serde_json::Value::Null,
        JsonField::Flag(b) => serde_json::Value::Bool(b),
        JsonField::Number(n) => serde_json::Value::from(n),
        JsonField::Text(s) => serde_json::Value::String(s),
    };
    m.insert(key.to_owned(), value);
}

/// `serde_json::Value::to_string` writes an object as compact JSON. What it writes is a function
/// of the fields alone, because the map keeps its keys in order.
#[verifier::external_body]
pub(crate) fn json_write(m: serde_json::Map<String, serde_json::Value>) -> (r: String)
    ensures
        r@ == object_text(json_fields(m)),
{
    serde_json::Value::Object(m).to_string()
}

/// `serde_json::from_str` parses a document; then the text field `key` of the object at its top is
/// looked up. The result is a function of document and key, and of a document that was written for
/// a flat object it is that object's field.
#[verifier::external_body]
pub(crate) fn json_read_text(document: &str, key: &str) -> (r: Option<String>)
    ensures
        text::opt_text(r) == document_text_field(document@, key@),
        forall|fields: JsonFields|
            fields.dom().finite() && document@ == #[trigger] object_text(fields) ==> text::opt_text(r)
                == text_field(fields, key@),
{
    let value: serde_json::Value = serde_json::from_str(document).ok()?;
    let found = value.get(key)?.as_str()?;
    Some(found.to_owned())
}

/// The lower-case hexadecimal digits of a run of bytes, two for each.
pub open spec fn hex_of(bytes: Seq<u8>) -> Text {
    Seq::new(
        2 * bytes.len(),
        |i: int|
            if i % 2 == 0 {
                text::hex_digit(bytes[i / 2] as int / 16)
            } else {
                text::hex_digit(bytes[i / 2] as int % 16)
            },
    )
}

/// `hex::encode` writes each byte as two lower-case hexadecimal digits, the high one first.
#[verifier::external_body]
pub(crate) fn hex_text(bytes: &[u8]) -> (r: String)
    ensures
        r@ == hex_of(bytes@),
{
    hex::encode(bytes)
}

/// `rand::rngs::OsRng.try_fill_bytes` fills a buffer from the operating system's random source; `None`
/// where that source fails. Nothing is claimed of the bytes, nor of when it fails.
#[verifier::external_body]
pub(crate) fn random_bytes() -> (r: Option<[u8; 16]>) {
    let mut bytes = [0u8; 16];
    rand::RngCore::try_fill_bytes(&mut rand::rngs::OsRng, &mut bytes).ok()?;
    Some(bytes)
}

/// `std::time::SystemTime::now` as whole seconds since the Unix epoch; `None` before it. Nothing is
/// claimed of the number.
#[verifier::external_body]
pub(crate) fn epoch_seconds() -> (r: Option<u64>) {
    std::time::SystemTime::now().duration_since(std::time::UNIX_EPOCH).ok().map(|d| d.as_secs())
}

/// The text of the error that `std::str::from_utf8` gives for bytes that are not UTF-8.
pub uninterp spec fn utf8_fault(bytes: Seq<u8>) -> Text;

/// `std::str::from_utf8` accepts exactly the valid UTF-8 and then gives the text it encodes; the
/// text of its error is a function of the bytes.
#[verifier::external_body]
pub(crate) fn utf8_decode(bytes: &[u8]) -> (r: Result<String, String>)
    ensures
        r is Ok <==> valid_utf8(bytes@),
        r matches Ok(s) ==> s@ == decode_utf8(bytes@),
        r matches Err(m) ==> m@ == utf8_fault(bytes@),
{
    match std::str::from_utf8(bytes) {
        Ok(s) => Ok(s.to_owned()),
        Err(e) => Err(e.to_string()),
    }
}

/// A text in quotes with the escapes of Rust's `Debug` format.
pub uninterp spec fn debug_text(t: Text) -> Text;

/// The `Debug` format of `str`: the text in quotes, with escapes.
#[verifier::external_body]
pub(crate) fn debug_quoted(s: &str) -> (r: String)
    ensures
        r@ == debug_text(s@),
{
    format!("{s:?}")
}

/// A time stamp from the seconds since the Unix epoch; zero before it.
pub fn time_stamp(seconds: Option<u64>) -> (r: i64)
    ensures
        r == match seconds {
            Some(s) => s as i64,
            None => 0,
        },
{
    match seconds {
        Some(s) => s as i64,
        None => 0,
    }
}

/// The current time as a time stamp.
pub(crate) fn unix_secs() -> i64 {
    time_stamp(epoch_seconds())
}

/// Whether a text has the form of a task id: 32 lower-case hexadecimal digits.
pub open spec fn is_task_id(t: Text) -> bool {
    exists|b: Seq<u8>| b.len() == 16 && t == #[trigger] hex_of(b)
}

/// Why no task id can be made.
pub const NO_FRESH_ID: &'static str = "the random source of the operating system failed";

/// Whether a fresh task id may come out so: one of the proper form, or none.
pub open spec fn may_be_drawn(fresh: Option<Text>) -> bool {
    fresh matches Some(id) ==> is_task_id(id)
}

/// The task id that random bytes give: each byte as two hexadecimal digits.
pub fn task_id_of(bytes: Option<[u8; 16]>) -> (r: Option<String>)
    ensures
        match bytes {
            Some(b) => r matches Some(id) && id@ == hex_of(b@) && id@.len() == 32 && is_task_id(id@),
            None => r is None,
        },
{
    match bytes {
        Some(b) => {
            assert(b@.len() == 16);
            Some(hex_text(&b))
        },
        None => None,
    }
}

/// A fresh task id: 16 random bytes as 32 hexadecimal digits; `None` where there are no random bytes.
pub fn new_task_id() -> (r: Option<String>)
    ensures
        may_be_drawn(text::opt_text(r)),
        r matches Some(id) ==> id@.len() == 32,
{
    task_id_of(random_bytes())
}

/// A connection to an SQLite database.
#[verifier::external_type_specification]
#[verifier::external_body]
pub struct ExConnection(rusqlite::Connection);

/// The texts that a connection's full-text index holds, by their row ids.
pub uninterp spec fn indexed(c: rusqlite::Connection) -> Map<int, Text>;

/// Whether SQLite's full-text search finds a text by a query.
pub uninterp spec fn fts_match(t: Text, query: Text) -> bool;

/// Whether SQLite's full-text search can read a query.
pub uninterp spec fn fts_accepts(query: Text) -> bool;

/// The index without texts.
pub open spec fn nothing_indexed() -> Map<int, Text> {
    Map::empty()
}

/// Whether row ids are those of texts in an index, none of them twice.
pub open spec fn lists_rows(index: Map<int, Text>, ids: Seq<i64>) -> bool {
    &&& ids.no_duplicates()
    &&& forall|k: int| 0 <= k < ids.len() ==> index.dom().contains(#[trigger] ids[k] as int)
}

/// Whether a query is none of the index's own commands, which start with an asterisk.
pub open spec fn plain_query(query: Text) -> bool {
    query.len() == 0 || query[0] != '*'
}

/// `rusqlite::Connection::open_in_memory` opens an empty database; `execute_batch` makes the table
/// of turns and the full-text index over it, in which there is nothing yet.
#[verifier::external_body]
pub(crate) fn index_open() -> (r: Result<rusqlite::Connection, String>)
    ensures
        r matches Ok(c) ==> indexed(c) == nothing_indexed(),
{
    let c = rusqlite::Connection::open_in_memory().map_err(|e| e.to_string())?;
    let made = c.execute_batch(
        "CREATE TABLE turns (id INTEGER PRIMARY KEY, session_id TEXT, role TEXT, body TEXT NOT NULL);
         CREATE VIRTUAL TABLE turns_fts USING fts5(
             body, session_id UNINDEXED, role UNINDEXED, content='turns', content_rowid='id');
         CREATE TRIGGER turns_ai AFTER INSERT ON turns BEGIN
             INSERT INTO turns_fts(rowid, body) VALUES (new.id, new.body);
         END;",
    );
    made.map(|_| c).map_err(|e| e.to_string())
}

/// `rusqlite::Connection::execute` inserts one text under a row id that is not in use; where it
/// fails, the index is as it was.
#[verifier::external_body]
pub(crate) fn index_put(c: &mut rusqlite::Connection, id: i64, t: &str) -> (r: Result<(), String>)
    requires
        !indexed(*old(c)).dom().contains(id as int),
    ensures
        r is Ok ==> indexed(*final(c)) == indexed(*old(c)).insert(id as int, t@),
        r is Err ==> indexed(*final(c)) == indexed(*old(c)),
{
    let put = c.execute("INSERT INTO turns (id, body) VALUES (?1, ?2)", (id, t));
    put.map(|_| ()).map_err(|e| e.to_string())
}

/// Whether row ids of equal texts stand in rising order.
pub open spec fn equal_texts_in_turn(index: Map<int, Text>, ids: Seq<i64>) -> bool {
    forall|i: int, j: int|
        0 <= i < j < ids.len() && index[ids[i] as int] == index[ids[j] as int] ==> #[trigger] ids[i] < #[trigger] ids[j]
}

/// `rusqlite::Statement::query_map` on a full-text search lists the row ids of the texts that a
/// plain query finds, each once, by relevance and then by id. The relevance of a row comes from its
/// text, so rows with the same text stand in the order of their ids. It is a number in floating
/// point: nothing more is claimed of the order. A query that cannot be read is an error; whether one
/// can be read is a function of its text. Nothing is claimed of other failures, such as of memory.
#[verifier::external_body]
pub(crate) fn index_find(c: &rusqlite::Connection, query: &str) -> (r: Result<Vec<i64>, String>)
    ensures
        r is Ok ==> fts_accepts(query@),
        r matches Ok(ids) ==> lists_rows(indexed(*c), ids@),
        r matches Ok(ids) ==> plain_query(query@) ==> equal_texts_in_turn(indexed(*c), ids@),
        r matches Ok(ids) ==> plain_query(query@) ==> forall|id: i64|
            indexed(*c).dom().contains(id as int) ==> (#[trigger] ids@.contains(id) <==> fts_match(indexed(*c)[id as int], query@)),
{
    let sql = "SELECT t.id FROM turns_fts f JOIN turns t ON t.id = f.rowid \
               WHERE turns_fts MATCH ?1 ORDER BY bm25(turns_fts), t.id ASC";
    let mut find = c.prepare(sql).map_err(|e| e.to_string())?;
    let rows = find.query_map([query], |row| row.get(0)).map_err(|e| e.to_string())?;
    rows.collect::<rusqlite::Result<Vec<i64>>>().map_err(|e| e.to_string())
}

} // verus!
