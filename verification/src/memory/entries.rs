//! The entries of a memory target: delimiter, caps, and what the write actions make of them.
use vstd::prelude::*;
use crate::memory::fault::{MemoryError, MemoryFault};
use crate::numeral;
use crate::text::{self, Text};

verus! {

/// Cap of the `agent` target in characters.
pub const AGENT_MEMORY_CAP_CHARS: usize = 2200;

/// Cap of the `user` target in characters.
pub const USER_MEMORY_CAP_CHARS: usize = 1375;

/// The character between two entries.
pub const ENTRY_DELIMITER: char = '§';

/// The cap of a target; `None` where there is no target of that name.
pub open spec fn cap_of(target: Text) -> Option<usize> {
    if target == "agent"@ {
        Some(AGENT_MEMORY_CAP_CHARS)
    } else if target == "user"@ {
        Some(USER_MEMORY_CAP_CHARS)
    } else {
        None
    }
}

pub fn target_cap(target: &str) -> (r: Option<usize>)
    ensures
        r == cap_of(target@),
{
    if text::same(target, "agent") {
        Some(AGENT_MEMORY_CAP_CHARS)
    } else if text::same(target, "user") {
        Some(USER_MEMORY_CAP_CHARS)
    } else {
        None
    }
}

/// The cap that holds for curated content: that of the target.
pub fn curator_target_cap(target: &str) -> (r: Option<usize>)
    ensures
        r == cap_of(target@),
{
    target_cap(target)
}

/// The entries of a content.
pub open spec fn entries_of(content: Text) -> Seq<Text> {
    text::split_all(content, ENTRY_DELIMITER)
}

/// The content that entries make.
pub open spec fn content_of(entries: Seq<Text>) -> Text {
    text::joined(entries, seq![ENTRY_DELIMITER])
}

/// Whether the delimiter stands only between entries: no entry is empty.
pub open spec fn tidy(content: Text) -> bool {
    content.len() == 0 || forall|k: int|
        0 <= k < entries_of(content).len() ==> (#[trigger] entries_of(content)[k]).len() > 0
}

/// How many of the first `n` entries hold a text.
pub open spec fn hits(entries: Seq<Text>, part: Text, n: int) -> nat
    decreases n,
{
    if n <= 0 {
        0
    } else {
        hits(entries, part, n - 1) + if text::has_part(entries[n - 1], part) {
            1nat
        } else {
            0nat
        }
    }
}

/// The place of the first entry from `from` on that holds a text; the number of entries where
/// there is none.
pub open spec fn hit_from(entries: Seq<Text>, part: Text, from: int) -> int
    decreases entries.len() - from,
{
    if from < 0 || from >= entries.len() {
        entries.len() as int
    } else if text::has_part(entries[from], part) {
        from
    } else {
        hit_from(entries, part, from + 1)
    }
}

/// The one entry that holds a text, or why there is not exactly one; `what` begins the cause.
pub open spec fn unique_hit(entries: Seq<Text>, part: Text, what: Text) -> Result<int, MemoryFault> {
    let n = hits(entries, part, entries.len() as int);
    if n == 0 {
        Err(MemoryFault::NotFound(what + ": no entry contains '"@ + part + "'"@))
    } else if n > 1 {
        Err(
            MemoryFault::Ambiguous(
                what + ": "@ + numeral::dec(n as int) + " entries contain '"@ + part
                    + "' — pick a more unique substring"@,
            ),
        )
    } else {
        Ok(hit_from(entries, part, 0))
    }
}

proof fn lemma_hits(entries: Seq<Text>, part: Text, n: int)
    requires
        0 <= n <= entries.len(),
    ensures
        hits(entries, part, n) <= n,
        hits(entries, part, n) == 0 ==> forall|k: int| 0 <= k < n ==> !text::has_part(#[trigger] entries[k], part),
        hits(entries, part, n) == 0 ==> hit_from(entries, part, 0) == hit_from(entries, part, n),
        hits(entries, part, n) > 0 ==> 0 <= hit_from(entries, part, 0) < n,
    decreases n,
{
    if n > 0 {
        lemma_hits(entries, part, n - 1);
    }
}

/// Where exactly one entry holds a text, the search for it gives that entry and no other holds it.
pub proof fn law_unique_hit(entries: Seq<Text>, part: Text, what: Text)
    ensures
        match unique_hit(entries, part, what) {
            Ok(i) => 0 <= i < entries.len() && text::has_part(entries[i], part) && forall|k: int|
                0 <= k < entries.len() && k != i ==> !text::has_part(#[trigger] entries[k], part),
            Err(MemoryFault::NotFound(_)) => forall|k: int|
                0 <= k < entries.len() ==> !text::has_part(#[trigger] entries[k], part),
            Err(_) => exists|i: int, k: int|
                0 <= i < k < entries.len() && text::has_part(#[trigger] entries[i], part) && text::has_part(
                    #[trigger] entries[k],
                    part,
                ),
        },
{
    let n = entries.len() as int;
    lemma_hits(entries, part, n);
    lemma_hit_holds(entries, part, 0);
    if hits(entries, part, n) > 0 {
        lemma_hits_behind(entries, part, hit_from(entries, part, 0), n);
    }
}

proof fn lemma_hit_holds(entries: Seq<Text>, part: Text, from: int)
    requires
        0 <= from <= entries.len(),
    ensures
        from <= hit_from(entries, part, from) <= entries.len(),
        hit_from(entries, part, from) < entries.len() ==> text::has_part(
            entries[hit_from(entries, part, from)],
            part,
        ),
        forall|k: int| from <= k < hit_from(entries, part, from) ==> !text::has_part(#[trigger] entries[k], part),
    decreases entries.len() - from,
{
    if from < entries.len() && !text::has_part(entries[from], part) {
        lemma_hit_holds(entries, part, from + 1);
    }
}

proof fn lemma_hits_behind(entries: Seq<Text>, part: Text, i: int, n: int)
    requires
        0 <= i < n <= entries.len(),
        text::has_part(entries[i], part),
        forall|k: int| 0 <= k < i ==> !text::has_part(#[trigger] entries[k], part),
    ensures
        hits(entries, part, n) >= 1,
        hits(entries, part, n) == 1 ==> forall|k: int|
            i < k < n ==> !text::has_part(#[trigger] entries[k], part),
        hits(entries, part, n) > 1 ==> exists|k: int| i < k < n && text::has_part(#[trigger] entries[k], part),
    decreases n,
{
    if n == i + 1 {
        lemma_no_hits(entries, part, i);
    } else {
        lemma_hits_behind(entries, part, i, n - 1);
    }
}

proof fn lemma_no_hits(entries: Seq<Text>, part: Text, n: int)
    requires
        0 <= n <= entries.len(),
        forall|k: int| 0 <= k < n ==> !text::has_part(#[trigger] entries[k], part),
    ensures
        hits(entries, part, n) == 0,
    decreases n,
{
    if n > 0 {
        lemma_no_hits(entries, part, n - 1);
    }
}

/// What an `add` makes of a content.
pub open spec fn added(content: Text, data: Text) -> Result<Text, MemoryFault> {
    if data.len() == 0 {
        Err(MemoryFault::InvalidArg("add: data (new entry text) required"@))
    } else if data.contains(ENTRY_DELIMITER) {
        Err(MemoryFault::InvalidArg("add: entry text must not contain the entry delimiter '§'"@))
    } else if content.len() == 0 {
        Ok(data)
    } else {
        Ok(content + seq![ENTRY_DELIMITER] + data)
    }
}

/// Entries with one put in the place of another; an empty one leaves nothing in that place.
pub open spec fn with_entry(entries: Seq<Text>, i: int, entry: Text) -> Seq<Text> {
    if entry.len() == 0 {
        entries.remove(i)
    } else {
        entries.update(i, entry)
    }
}

/// What a `replace` makes of a content.
pub open spec fn replaced(content: Text, data: Text) -> Result<Text, MemoryFault> {
    match text::split_once(data, '\t') {
        None => Err(MemoryFault::InvalidArg("replace: data must be '<find>\\t<replacement>'"@)),
        Some((part, entry)) => if part.len() == 0 {
            Err(MemoryFault::InvalidArg("replace: <find> must not be empty"@))
        } else if entry.contains(ENTRY_DELIMITER) {
            Err(MemoryFault::InvalidArg("replace: <replacement> must not contain the entry delimiter '§'"@))
        } else {
            match unique_hit(entries_of(content), part, "replace"@) {
                Err(f) => Err(f),
                Ok(i) => Ok(content_of(with_entry(entries_of(content), i, entry))),
            }
        },
    }
}

/// What a `remove` makes of a content.
pub open spec fn removed(content: Text, data: Text) -> Result<Text, MemoryFault> {
    if data.len() == 0 {
        Err(MemoryFault::InvalidArg("remove: data (find substring) required"@))
    } else {
        match unique_hit(entries_of(content), data, "remove"@) {
            Err(f) => Err(f),
            Ok(i) => Ok(content_of(entries_of(content).remove(i))),
        }
    }
}

/// What a write action makes of a content; `None` for a read.
pub open spec fn edited(content: Text, action: Text, data: Text) -> Result<Option<Text>, MemoryFault> {
    if action == "read"@ {
        Ok(None)
    } else if action == "add"@ {
        made(added(content, data))
    } else if action == "replace"@ {
        made(replaced(content, data))
    } else if action == "remove"@ {
        made(removed(content, data))
    } else {
        Err(
            MemoryFault::InvalidArg(
                "action must be 'add', 'replace', 'remove', or 'read'; got '"@ + action + "'"@,
            ),
        )
    }
}

pub open spec fn made(r: Result<Text, MemoryFault>) -> Result<Option<Text>, MemoryFault> {
    match r {
        Ok(t) => Ok(Some(t)),
        Err(f) => Err(f),
    }
}

/// A result of a write action as the contracts speak of it.
pub open spec fn seen_text(r: Result<String, MemoryError>) -> Result<Text, MemoryFault> {
    match r {
        Ok(s) => Ok(s@),
        Err(e) => Err(e@),
    }
}

pub open spec fn seen_edit(r: Result<Option<String>, MemoryError>) -> Result<Option<Text>, MemoryFault> {
    match r {
        Ok(o) => Ok(text::opt_text(o)),
        Err(e) => Err(e@),
    }
}

fn has_delimiter(s: &str) -> (r: bool)
    ensures
        r == s@.contains(ENTRY_DELIMITER),
{
    let v = text::chars_of(s);
    let i = text::find_char(&v, ENTRY_DELIMITER, 0);
    proof {
        text::lemma_index_from(s@, ENTRY_DELIMITER, 0);
    }
    i < v.len()
}

/// Appends an entry to a content.
pub fn add_entry(content: &str, data: &str) -> (r: Result<String, MemoryError>)
    ensures
        seen_text(r) == added(content@, data@),
{
    if data.is_empty() {
        return Err(MemoryError::InvalidArg(text::owned("add: data (new entry text) required")));
    }
    if has_delimiter(data) {
        return Err(
            MemoryError::InvalidArg(text::owned("add: entry text must not contain the entry delimiter '§'")),
        );
    }
    if content.is_empty() {
        return Ok(text::owned(data));
    }
    let mut s = text::owned(content);
    s.push(ENTRY_DELIMITER);
    s.append(data);
    assert(s@ =~= content@ + seq![ENTRY_DELIMITER] + data@);
    Ok(s)
}

fn find_entry(entries: &Vec<String>, part: &str, what: &str) -> (r: Result<usize, MemoryError>)
    ensures
        match r {
            Ok(i) => unique_hit(text::texts(entries@), part@, what@) == Ok::<int, MemoryFault>(i as int),
            Err(e) => unique_hit(text::texts(entries@), part@, what@) == Err::<int, MemoryFault>(e@),
        },
        r matches Ok(i) ==> i < entries@.len(),
{
    let ghost all = text::texts(entries@);
    let mut n: usize = 0;
    let mut at: usize = entries.len();
    let mut i: usize = 0;
    proof {
        lemma_hits(all, part@, 0);
    }
    while i < entries.len()
        invariant
            i <= entries@.len(),
            all == text::texts(entries@),
            n == hits(all, part@, i as int),
            n <= i,
            n > 0 ==> at == hit_from(all, part@, 0),
        decreases entries@.len() - i,
    {
        proof {
            lemma_hits(all, part@, i as int);
            assert(all[i as int] == entries@[i as int]@);
        }
        if text::has(entries[i].as_str(), part) {
            if n == 0 {
                at = i;
            }
            n = n + 1;
        }
        i = i + 1;
    }
    if n == 0 {
        let mut m = text::owned(what);
        m.append(": no entry contains '");
        m.append(part);
        m.append("'");
        return Err(MemoryError::NotFound(m));
    }
    if n > 1 {
        let mut m = text::owned(what);
        m.append(": ");
        numeral::push_usize(&mut m, n);
        m.append(" entries contain '");
        m.append(part);
        m.append("' — pick a more unique substring");
        return Err(MemoryError::Ambiguous(m));
    }
    proof {
        lemma_hits(all, part@, all.len() as int);
    }
    Ok(at)
}

fn delimiter() -> (r: String)
    ensures
        r@ == seq![ENTRY_DELIMITER],
{
    let mut s = String::new();
    s.push(ENTRY_DELIMITER);
    assert(s@ =~= seq![ENTRY_DELIMITER]);
    s
}

/// Replaces the one entry of a content that holds a text; `data` is `<find>\t<replacement>`. With an
/// empty replacement the entry goes, and its delimiter with it.
pub fn replace_entry(content: &str, data: &str) -> (r: Result<String, MemoryError>)
    ensures
        seen_text(r) == replaced(content@, data@),
{
    let (part, entry) = match text::cut_once(data, '\t') {
        Some(p) => p,
        None => return Err(
            MemoryError::InvalidArg(text::owned("replace: data must be '<find>\\t<replacement>'")),
        ),
    };
    if part.as_str().is_empty() {
        return Err(MemoryError::InvalidArg(text::owned("replace: <find> must not be empty")));
    }
    if has_delimiter(entry.as_str()) {
        return Err(
            MemoryError::InvalidArg(
                text::owned("replace: <replacement> must not contain the entry delimiter '§'"),
            ),
        );
    }
    let mut entries = text::cut_all(content, ENTRY_DELIMITER);
    let i = match find_entry(&entries, part.as_str(), "replace") {
        Ok(i) => i,
        Err(e) => return Err(e),
    };
    let ghost before = text::texts(entries@);
    let ghost new = entry@;
    if entry.as_str().is_empty() {
        let _gone = entries.remove(i);
    } else {
        entries.set(i, entry);
    }
    assert(text::texts(entries@) =~= with_entry(before, i as int, new));
    let sep = delimiter();
    Ok(text::join_all(&entries, sep.as_str()))
}

/// Removes the one entry of a content that holds a text.
pub fn remove_entry(content: &str, data: &str) -> (r: Result<String, MemoryError>)
    ensures
        seen_text(r) == removed(content@, data@),
{
    if data.is_empty() {
        return Err(MemoryError::InvalidArg(text::owned("remove: data (find substring) required")));
    }
    let mut entries = text::cut_all(content, ENTRY_DELIMITER);
    let i = match find_entry(&entries, data, "remove") {
        Ok(i) => i,
        Err(e) => return Err(e),
    };
    let ghost before = text::texts(entries@);
    let _gone = entries.remove(i);
    assert(text::texts(entries@) =~= before.remove(i as int));
    let sep = delimiter();
    Ok(text::join_all(&entries, sep.as_str()))
}

/// Carries out a write action on a content; `None` for a read.
pub fn edit(content: &str, action: &str, data: &str) -> (r: Result<Option<String>, MemoryError>)
    ensures
        seen_edit(r) == edited(content@, action@, data@),
{
    if text::same(action, "read") {
        return Ok(None);
    }
    let out = if text::same(action, "add") {
        add_entry(content, data)
    } else if text::same(action, "replace") {
        replace_entry(content, data)
    } else if text::same(action, "remove") {
        remove_entry(content, data)
    } else {
        let mut m = text::owned("action must be 'add', 'replace', 'remove', or 'read'; got '");
        m.append(action);
        m.append("'");
        return Err(MemoryError::InvalidArg(m));
    };
    match out {
        Ok(s) => Ok(Some(s)),
        Err(e) => Err(e),
    }
}

/// An added entry becomes the last entry of a content that was not empty.
pub proof fn law_add_appends_an_entry(content: Text, data: Text)
    requires
        added(content, data) is Ok,
        content.len() > 0,
    ensures
        entries_of(added(content, data)->Ok_0) == entries_of(content).push(data),
{
    let old = entries_of(content);
    let new = old.push(data);
    text::law_split_then_join(content, ENTRY_DELIMITER);
    assert(new.drop_last() =~= old);
    assert(new.last() == data);
    assert(content_of(new) == content + seq![ENTRY_DELIMITER] + data);
    assert forall|k: int| 0 <= k < new.len() implies !(#[trigger] new[k]).contains(ENTRY_DELIMITER) by {
        if k < old.len() {
            assert(new[k] == old[k]);
        }
    }
    text::law_join_then_split(new, ENTRY_DELIMITER);
}

/// An entry added to an empty content is its only entry.
pub proof fn law_first_entry_stands_alone(data: Text)
    requires
        added(Seq::empty(), data) is Ok,
    ensures
        added(Seq::empty(), data)->Ok_0 == data,
        entries_of(data) == seq![data],
{
    text::lemma_index_from(data, ENTRY_DELIMITER, 0);
    if text::index_of(data, ENTRY_DELIMITER) < data.len() {
        assert(data[text::index_of(data, ENTRY_DELIMITER)] == ENTRY_DELIMITER);
    }
}

/// A replacement changes the one entry that holds the text, or drops it where the replacement is empty,
/// and leaves the others as they were.
pub proof fn law_replace_changes_one_entry(content: Text, data: Text)
    requires
        replaced(content, data) is Ok,
    ensures
        ({
            let (part, entry) = text::split_once(data, '\t')->0;
            let i = hit_from(entries_of(content), part, 0);
            let new = replaced(content, data)->Ok_0;
            &&& 0 <= i < entries_of(content).len()
            &&& text::has_part(entries_of(content)[i], part)
            &&& entry.len() > 0 ==> entries_of(new) == entries_of(content).update(i, entry)
            &&& entry.len() == 0 && entries_of(content).len() > 1 ==> entries_of(new) == entries_of(content).remove(i)
            &&& entry.len() == 0 && entries_of(content).len() == 1 ==> new == Seq::<char>::empty()
        }),
{
    let (part, entry) = text::split_once(data, '\t')->0;
    let old = entries_of(content);
    let i = hit_from(old, part, 0);
    law_unique_hit(old, part, "replace"@);
    text::law_split_then_join(content, ENTRY_DELIMITER);
    let new = with_entry(old, i, entry);
    if new.len() > 0 {
        assert forall|k: int| 0 <= k < new.len() implies !(#[trigger] new[k]).contains(ENTRY_DELIMITER) by {
            if entry.len() == 0 && k >= i {
                assert(new[k] == old[k + 1]);
            } else if entry.len() == 0 || k != i {
                assert(new[k] == old[k]);
            }
        }
        text::law_join_then_split(new, ENTRY_DELIMITER);
    } else {
        assert(new =~= Seq::<Text>::empty());
    }
}

/// A removal drops the one entry that holds the text and leaves the others as they were; the
/// content is empty where there was no other.
pub proof fn law_remove_drops_one_entry(content: Text, data: Text)
    requires
        removed(content, data) is Ok,
    ensures
        ({
            let old = entries_of(content);
            let i = hit_from(old, data, 0);
            let new = removed(content, data)->Ok_0;
            &&& 0 <= i < old.len()
            &&& text::has_part(old[i], data)
            &&& old.len() == 1 ==> new == Seq::<char>::empty()
            &&& old.len() > 1 ==> entries_of(new) == old.remove(i)
        }),
{
    let old = entries_of(content);
    let i = hit_from(old, data, 0);
    law_unique_hit(old, data, "remove"@);
    text::law_split_then_join(content, ENTRY_DELIMITER);
    let new = old.remove(i);
    if old.len() > 1 {
        assert forall|k: int| 0 <= k < new.len() implies !(#[trigger] new[k]).contains(ENTRY_DELIMITER) by {
            if k < i {
                assert(new[k] == old[k]);
            } else {
                assert(new[k] == old[k + 1]);
            }
        }
        text::law_join_then_split(new, ENTRY_DELIMITER);
    } else {
        assert(new =~= Seq::<Text>::empty());
    }
}

/// The delimiter stands only between entries: a content without empty entries has none after any write
/// action either.
pub proof fn law_writes_leave_no_empty_entry(content: Text, action: Text, data: Text)
    requires
        tidy(content),
    ensures
        edited(content, action, data) matches Ok(Some(new)) ==> tidy(new),
{
    if edited(content, action, data) is Ok && edited(content, action, data)->Ok_0 is Some {
        let new = edited(content, action, data)->Ok_0->0;
        let old = entries_of(content);
        if action == "add"@ {
            if content.len() == 0 {
                assert(content =~= Seq::empty());
                law_first_entry_stands_alone(data);
            } else {
                law_add_appends_an_entry(content, data);
                assert forall|k: int| 0 <= k < entries_of(new).len() implies (#[trigger] entries_of(new)[k]).len() > 0 by {
                    if k < old.len() {
                        assert(entries_of(new)[k] == old[k]);
                    }
                }
            }
        } else if action == "replace"@ {
            let (part, entry) = text::split_once(data, '\t')->0;
            law_replace_changes_one_entry(content, data);
            lemma_found_is_filled(content, part);
            let i = hit_from(old, part, 0);
            lemma_tidy_entries(old, i, entry, new);
        } else {
            law_remove_drops_one_entry(content, data);
            lemma_found_is_filled(content, data);
            let i = hit_from(old, data, 0);
            lemma_tidy_entries(old, i, Seq::empty(), new);
        }
    }
}

/// Where an entry holds a text that is not empty, the content is not empty.
proof fn lemma_found_is_filled(content: Text, part: Text)
    requires
        part.len() > 0,
        ({
            let i = hit_from(entries_of(content), part, 0);
            0 <= i < entries_of(content).len() && text::has_part(entries_of(content)[i], part)
        }),
    ensures
        content.len() > 0,
{
    if content.len() == 0 {
        assert(content =~= Seq::empty());
        text::law_split_then_join(content, ENTRY_DELIMITER);
        assert(entries_of(content) == seq![content]);
    }
}

proof fn lemma_tidy_entries(old: Seq<Text>, i: int, entry: Text, new: Text)
    requires
        0 <= i < old.len(),
        forall|k: int| 0 <= k < old.len() ==> (#[trigger] old[k]).len() > 0,
        entry.len() == 0 && old.len() == 1 ==> new.len() == 0,
        !(entry.len() == 0 && old.len() == 1) ==> entries_of(new) == with_entry(old, i, entry),
    ensures
        tidy(new),
{
    if !(entry.len() == 0 && old.len() == 1) {
        let rows = with_entry(old, i, entry);
        assert forall|k: int| 0 <= k < rows.len() implies (#[trigger] rows[k]).len() > 0 by {
            if entry.len() == 0 && k >= i {
                assert(rows[k] == old[k + 1]);
            } else if entry.len() == 0 || k != i {
                assert(rows[k] == old[k]);
            }
        }
    }
}

/// An entry is added exactly where it is not empty and has no delimiter in it.
pub proof fn law_adds_are_taken(content: Text, data: Text)
    ensures
        added(content, data) is Ok <==> data.len() > 0 && !data.contains('§'),
        added(content, data) is Err ==> added(content, data)->Err_0 is InvalidArg,
        added(content, data) is Ok && content.len() == 0 ==> added(content, data)->Ok_0 == data,
        added(content, data) is Ok && content.len() > 0 ==> added(content, data)->Ok_0 == content + seq!['§'] + data,
{
}

/// Whether exactly one entry holds a text, and which.
pub open spec fn only(entries: Seq<Text>, part: Text, i: int) -> bool {
    &&& 0 <= i < entries.len()
    &&& text::has_part(entries[i], part)
    &&& forall|k: int| 0 <= k < entries.len() && k != i ==> !text::has_part(#[trigger] entries[k], part)
}

/// A removal succeeds exactly where one entry, and one only, holds the text; no entry is not found, more
/// than one is ambiguous.
pub proof fn law_removals_are_taken(content: Text, data: Text, i: int)
    ensures
        data.len() == 0 ==> removed(content, data) is Err && removed(content, data)->Err_0 is InvalidArg,
        data.len() > 0 && only(text::split_all(content, '§'), data, i) ==> removed(content, data) is Ok
            && removed(content, data)->Ok_0 == text::joined(text::split_all(content, '§').remove(i), seq!['§']),
        removed(content, data) is Ok ==> data.len() > 0 && exists|k: int| #[trigger]
            only(text::split_all(content, '§'), data, k),
        data.len() > 0 && removed(content, data) is Err ==> (removed(content, data)->Err_0 is NotFound <==> forall|k: int|
            0 <= k < text::split_all(content, '§').len() ==> !text::has_part(
                #[trigger] text::split_all(content, '§')[k],
                data,
            )),
        data.len() > 0 && removed(content, data) is Err ==> removed(content, data)->Err_0 is NotFound || removed(
            content,
            data,
        )->Err_0 is Ambiguous,
{
    let old = entries_of(content);
    law_unique_hit(old, data, "remove"@);
    if data.len() > 0 && removed(content, data) is Ok {
        let k = hit_from(old, data, 0);
        assert(only(old, data, k));
        if only(old, data, i) && i != k {
            assert(!text::has_part(old[i], data));
        }
    }
}

/// A replacement succeeds exactly where the data has a tab, the text before it is not empty, the text
/// behind it has no delimiter, and one entry, and one only, holds the text before it.
pub proof fn law_replacements_are_taken(content: Text, part: Text, entry: Text, i: int)
    requires
        !part.contains('\t'),
    ensures
        ({
            let r = replaced(content, part + seq!['\t'] + entry);
            let old = text::split_all(content, '§');
            &&& part.len() == 0 || entry.contains('§') ==> r is Err && r->Err_0 is InvalidArg
            &&& part.len() > 0 && !entry.contains('§') && only(old, part, i) ==> r is Ok && r->Ok_0 == text::joined(
                if entry.len() == 0 {
                    old.remove(i)
                } else {
                    old.update(i, entry)
                },
                seq!['§'],
            )
            &&& r is Ok ==> part.len() > 0 && !entry.contains('§') && exists|k: int| #[trigger] only(old, part, k)
            &&& part.len() > 0 && !entry.contains('§') && r is Err ==> (r->Err_0 is NotFound <==> forall|k: int|
                0 <= k < old.len() ==> !text::has_part(#[trigger] old[k], part))
        }),
{
    let data = part + seq!['\t'] + entry;
    let old = entries_of(content);
    text::lemma_index_from(data, '\t', 0);
    let at = text::index_of(data, '\t');
    assert(data[part.len() as int] == '\t');
    if at < part.len() {
        assert(part.contains(data[at])) by {
            assert(part[at] == data[at]);
        }
    }
    assert(at == part.len());
    assert(data.take(at) =~= part);
    assert(data.skip(at + 1) =~= entry);
    assert(text::split_once(data, '\t') == Some((part, entry)));
    law_unique_hit(old, part, "replace"@);
    if replaced(content, data) is Ok {
        let k = hit_from(old, part, 0);
        assert(only(old, part, k));
        if only(old, part, i) && i != k {
            assert(!text::has_part(old[i], part));
        }
    }
}

/// Each action word does what it says: reading gives nothing to write, and an unknown word is refused.
pub proof fn law_actions_are_told_apart(content: Text, action: Text, data: Text)
    ensures
        action == "read"@ ==> edited(content, action, data) == Ok::<Option<Text>, MemoryFault>(None),
        action == "add"@ ==> edited(content, action, data) == made(added(content, data)),
        action == "replace"@ ==> edited(content, action, data) == made(replaced(content, data)),
        action == "remove"@ ==> edited(content, action, data) == made(removed(content, data)),
        !(action == "read"@ || action == "add"@ || action == "replace"@ || action == "remove"@) ==> edited(
            content,
            action,
            data,
        ) is Err && edited(content, action, data)->Err_0 is InvalidArg,
{
    reveal_strlit("read");
    reveal_strlit("add");
    reveal_strlit("replace");
    reveal_strlit("remove");
    assert("read"@.len() == 4 && "add"@.len() == 3 && "replace"@.len() == 7 && "remove"@.len() == 6);
}

} // verus!
