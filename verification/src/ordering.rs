//! Sorting: the order of texts, and the places of rows sorted by a key.
use vstd::prelude::*;
use vstd::std_specs::iter::IteratorSpec;
use crate::text::{self, Text};

verus! {

/// Whether a text comes before another, character by character.
pub open spec fn text_before(a: Text, b: Text) -> bool
    decreases b.len(),
{
    if b.len() == 0 {
        false
    } else if a.len() == 0 {
        true
    } else if a[0] != b[0] {
        (a[0] as int) < (b[0] as int)
    } else {
        text_before(a.skip(1), b.skip(1))
    }
}

/// A key to sort by: a number, then a text.
pub struct SortKey {
    pub num: i128,
    pub name: String,
}

/// The mathematical model of [`SortKey`].
pub struct KeyRec {
    pub num: int,
    pub name: Text,
}

impl View for SortKey {
    type V = KeyRec;

    open spec fn view(&self) -> KeyRec {
        KeyRec { num: self.num as int, name: self.name@ }
    }
}

impl KeyRec {
    /// Whether a key comes before another.
    pub open spec fn before(self, other: KeyRec) -> bool {
        self.num < other.num || (self.num == other.num && text_before(self.name, other.name))
    }
}

/// The place `x` put into sorted places, behind those that do not come after it.
pub open spec fn inserted(keys: Seq<KeyRec>, places: Seq<int>, x: int) -> Seq<int>
    decreases places.len(),
{
    if places.len() == 0 || !keys[x].before(keys[places.last()]) {
        places.push(x)
    } else {
        inserted(keys, places.drop_last(), x).push(places.last())
    }
}

/// The places `0..n` in the order of their keys; equal keys keep the order of their places.
pub open spec fn sorted_places(keys: Seq<KeyRec>, n: int) -> Seq<int>
    decreases n,
{
    if n <= 0 {
        Seq::empty()
    } else {
        inserted(keys, sorted_places(keys, n - 1), n - 1)
    }
}

/// A list in the order of its keys.
pub open spec fn sorted_by_key<T>(rows: Seq<T>, key: spec_fn(T) -> KeyRec) -> Seq<T> {
    sorted_places(rows.map_values(key), rows.len() as int).map_values(|p: int| rows[p])
}

pub proof fn lemma_text_before_irreflexive(a: Text)
    ensures
        !text_before(a, a),
    decreases a.len(),
{
    if a.len() > 0 {
        lemma_text_before_irreflexive(a.skip(1));
    }
}

pub proof fn lemma_text_before_transitive(a: Text, b: Text, c: Text)
    requires
        text_before(a, b),
        text_before(b, c),
    ensures
        text_before(a, c),
    decreases c.len(),
{
    if a.len() > 0 && a[0] == b[0] && b[0] == c[0] {
        lemma_text_before_transitive(a.skip(1), b.skip(1), c.skip(1));
    }
}

pub proof fn lemma_text_before_total(a: Text, b: Text)
    ensures
        text_before(a, b) || text_before(b, a) || a == b,
    decreases b.len(),
{
    if a.len() > 0 && b.len() > 0 {
        if a[0] == b[0] {
            lemma_text_before_total(a.skip(1), b.skip(1));
            if a.skip(1) == b.skip(1) {
                assert(a =~= b) by {
                    assert forall|i: int| 0 <= i < a.len() implies a[i] == b[i] by {
                        if i > 0 {
                            assert(a[i] == a.skip(1)[i - 1]);
                            assert(b[i] == b.skip(1)[i - 1]);
                        }
                    }
                    assert(a.len() == a.skip(1).len() + 1);
                }
            }
        } else {
            text::lemma_char_range(a[0]);
            text::lemma_char_range(b[0]);
        }
    } else if a.len() == 0 && b.len() == 0 {
        assert(a =~= b);
    }
}

/// Not coming after is transitive.
pub proof fn lemma_key_chain(a: KeyRec, b: KeyRec, c: KeyRec)
    requires
        !b.before(a),
        !c.before(b),
    ensures
        !c.before(a),
{
    if c.before(a) {
        lemma_text_before_total(a.name, b.name);
        lemma_text_before_total(b.name, c.name);
        if c.num == a.num {
            if text_before(a.name, b.name) {
                lemma_text_before_transitive(c.name, a.name, b.name);
            }
        }
    }
}

/// Whether places are in the order of their keys, equal keys by place.
pub open spec fn in_order(keys: Seq<KeyRec>, places: Seq<int>) -> bool {
    forall|i: int, j: int|
        0 <= i < j < places.len() ==> !keys[#[trigger] places[j]].before(keys[#[trigger] places[i]]) && (
        keys[places[i]].before(keys[places[j]]) || places[i] < places[j])
}

proof fn lemma_inserted(keys: Seq<KeyRec>, places: Seq<int>, x: int)
    requires
        in_order(keys, places),
        forall|i: int| 0 <= i < places.len() ==> 0 <= #[trigger] places[i] < x,
        forall|i: int, j: int| 0 <= i < j < places.len() ==> #[trigger] places[i] != #[trigger] places[j],
    ensures
        inserted(keys, places, x).len() == places.len() + 1,
        in_order(keys, inserted(keys, places, x)),
        forall|p: int| #[trigger] inserted(keys, places, x).contains(p) <==> p == x || places.contains(p),
        forall|i: int, j: int|
            0 <= i < j < inserted(keys, places, x).len() ==> #[trigger] inserted(keys, places, x)[i]
                != #[trigger] inserted(keys, places, x)[j],
    decreases places.len(),
{
    let out = inserted(keys, places, x);
    if places.len() == 0 || !keys[x].before(keys[places.last()]) {
        assert(out == places.push(x));
        assert forall|i: int, j: int| 0 <= i < j < out.len() implies !keys[#[trigger] out[j]].before(
            keys[#[trigger] out[i]],
        ) && (keys[out[i]].before(keys[out[j]]) || out[i] < out[j]) by {
            assert(out[i] == places[i]);
            if j < places.len() {
                assert(out[j] == places[j]);
            } else {
                let last = places.last();
                if i < places.len() - 1 {
                    assert(!keys[places[places.len() - 1]].before(keys[places[i]]));
                }
                lemma_text_before_irreflexive(keys[last].name);
                lemma_key_chain(keys[places[i]], keys[last], keys[x]);
            }
        }
        assert forall|p: int| #[trigger] out.contains(p) <==> p == x || places.contains(p) by {
            if places.contains(p) {
                let k = choose|k: int| 0 <= k < places.len() && places[k] == p;
                assert(out[k] == p);
            }
            if p == x {
                assert(out[places.len() as int] == x);
            }
            if out.contains(p) {
                let k = choose|k: int| 0 <= k < out.len() && out[k] == p;
                if k < places.len() {
                    assert(places[k] == p);
                }
            }
        }
    } else {
        let rest = places.drop_last();
        let last = places.last();
        lemma_inserted(keys, rest, x);
        let mid = inserted(keys, rest, x);
        assert(out == mid.push(last));
        assert forall|i: int, j: int| 0 <= i < j < out.len() implies !keys[#[trigger] out[j]].before(
            keys[#[trigger] out[i]],
        ) && (keys[out[i]].before(keys[out[j]]) || out[i] < out[j]) by {
            assert(out[i] == mid[i]);
            if j < mid.len() {
                assert(out[j] == mid[j]);
            } else {
                assert(mid.contains(mid[i]));
                if mid[i] != x {
                    assert(rest.contains(mid[i]));
                    let k = choose|k: int| 0 <= k < rest.len() && rest[k] == mid[i];
                    assert(places[k] == mid[i]);
                    assert(places[places.len() - 1] == last);
                } else {
                    if keys[last].before(keys[x]) {
                        if keys[last].num == keys[x].num {
                            lemma_text_before_transitive(keys[last].name, keys[x].name, keys[last].name);
                            lemma_text_before_irreflexive(keys[last].name);
                        }
                    }
                }
            }
        }
        assert forall|p: int| #[trigger] out.contains(p) <==> p == x || places.contains(p) by {
            if places.contains(p) {
                let k = choose|k: int| 0 <= k < places.len() && places[k] == p;
                if k < rest.len() {
                    assert(rest[k] == p);
                    assert(rest.contains(p));
                    assert(mid.contains(p));
                    let m = choose|m: int| 0 <= m < mid.len() && mid[m] == p;
                    assert(out[m] == p);
                } else {
                    assert(out[mid.len() as int] == p);
                }
            }
            if p == x {
                assert(mid.contains(p));
                let m = choose|m: int| 0 <= m < mid.len() && mid[m] == p;
                assert(out[m] == p);
            }
            if out.contains(p) {
                let k = choose|k: int| 0 <= k < out.len() && out[k] == p;
                if k < mid.len() {
                    assert(mid[k] == p);
                    assert(mid.contains(p));
                    if p != x {
                        assert(rest.contains(p));
                        let r = choose|r: int| 0 <= r < rest.len() && rest[r] == p;
                        assert(places[r] == p);
                    }
                } else {
                    assert(places[places.len() - 1] == p);
                }
            }
        }
        assert forall|i: int, j: int| 0 <= i < j < out.len() implies #[trigger] out[i] != #[trigger] out[j] by {
            assert(out[i] == mid[i]);
            if j < mid.len() {
                assert(out[j] == mid[j]);
            } else {
                assert(mid.contains(mid[i]));
                if mid[i] != x {
                    assert(rest.contains(mid[i]));
                    let k = choose|k: int| 0 <= k < rest.len() && rest[k] == mid[i];
                    assert(places[k] == mid[i]);
                    assert(places[places.len() - 1] == last);
                }
            }
        }
    }
}

/// Sorting gives every place once, in the order of the keys, and keeps equal keys in place order.
pub proof fn law_sorted_places(keys: Seq<KeyRec>, n: int)
    requires
        0 <= n <= keys.len(),
    ensures
        sorted_places(keys, n).len() == n,
        in_order(keys, sorted_places(keys, n)),
        forall|p: int| #[trigger] sorted_places(keys, n).contains(p) <==> 0 <= p < n,
        forall|i: int, j: int|
            0 <= i < j < n ==> #[trigger] sorted_places(keys, n)[i] != #[trigger] sorted_places(keys, n)[j],
    decreases n,
{
    if n > 0 {
        law_sorted_places(keys, n - 1);
        let prev = sorted_places(keys, n - 1);
        assert forall|i: int| 0 <= i < prev.len() implies 0 <= #[trigger] prev[i] < n - 1 by {
            assert(prev.contains(prev[i]));
        }
        lemma_inserted(keys, prev, n - 1);
    }
}

/// Whether a text comes before another.
pub fn is_before(a: &str, b: &str) -> (r: bool)
    ensures
        r == text_before(a@, b@),
{
    broadcast use vstd::string::axiom_spec_iter, vstd::string::next_postcondition;

    let mut x = a.chars();
    let mut y = b.chars();
    let ghost mut s = a@;
    let ghost mut t = b@;
    loop
        invariant
            x.remaining() == s,
            y.remaining() == t,
            text_before(a@, b@) == text_before(s, t),
        decreases s.len(),
    {
        match (x.next(), y.next()) {
            (_, None) => {
                return false;
            },
            (None, Some(_)) => {
                return true;
            },
            (Some(c), Some(d)) => {
                proof {
                    text::lemma_char_range(c);
                    text::lemma_char_range(d);
                }
                if c != d {
                    return (c as u32) < (d as u32);
                }
                assert(s.skip(1) =~= s.drop_first());
                assert(t.skip(1) =~= t.drop_first());
                proof {
                    s = s.skip(1);
                    t = t.skip(1);
                }
            },
        }
    }
}

impl SortKey {
    pub fn comes_before(&self, other: &SortKey) -> (r: bool)
        ensures
            r == self@.before(other@),
    {
        self.num < other.num || (self.num == other.num && is_before(self.name.as_str(), other.name.as_str()))
    }
}

/// The models of keys.
pub open spec fn key_recs(keys: Seq<SortKey>) -> Seq<KeyRec> {
    keys.map_values(|k: SortKey| k@)
}

/// Sorting keeps the rows of a list and makes none appear twice that did not before.
pub proof fn law_sorting_keeps_rows<T>(rows: Seq<T>, key: spec_fn(T) -> KeyRec)
    ensures
        sorted_by_key(rows, key).len() == rows.len(),
        forall|x: T| #[trigger] sorted_by_key(rows, key).contains(x) <==> rows.contains(x),
        rows.no_duplicates() ==> sorted_by_key(rows, key).no_duplicates(),
{
    let keys = rows.map_values(key);
    let n = rows.len() as int;
    let places = sorted_places(keys, n);
    let s = sorted_by_key(rows, key);
    law_sorted_places(keys, n);
    assert forall|i: int| 0 <= i < n implies 0 <= #[trigger] places[i] < n by {
        assert(places.contains(places[i]));
    }
    assert forall|x: T| #[trigger] s.contains(x) <==> rows.contains(x) by {
        if s.contains(x) {
            let i = choose|i: int| 0 <= i < s.len() && s[i] == x;
            assert(rows[places[i]] == x);
        }
        if rows.contains(x) {
            let p = choose|p: int| 0 <= p < rows.len() && rows[p] == x;
            assert(places.contains(p));
            let i = choose|i: int| 0 <= i < places.len() && places[i] == p;
            assert(s[i] == x);
        }
    }
    if rows.no_duplicates() {
        assert forall|i: int, j: int| 0 <= i < s.len() && 0 <= j < s.len() && i != j implies s[i] != s[j] by {
            let a = if i < j { i } else { j };
            let b = if i < j { j } else { i };
            assert(places[a] != places[b]);
            assert(rows[places[a]] != rows[places[b]]);
        }
    }
}

proof fn lemma_places_in_order(keys: Seq<KeyRec>, n: int)
    requires
        0 <= n <= keys.len(),
        forall|i: int, j: int| 0 <= i < j < keys.len() ==> !(#[trigger] keys[j]).before(#[trigger] keys[i]),
    ensures
        sorted_places(keys, n) == Seq::new(n as nat, |i: int| i),
    decreases n,
{
    if n > 0 {
        lemma_places_in_order(keys, n - 1);
        let rest = sorted_places(keys, n - 1);
        assert(inserted(keys, rest, n - 1) == rest.push(n - 1)) by {
            if n > 1 {
                assert(rest.last() == n - 2);
                assert(!keys[n - 1].before(keys[n - 2]));
            }
        }
    }
    assert(sorted_places(keys, n) =~= Seq::new(n as nat, |i: int| i));
}

/// Sorting puts the rows of a list in the order of their keys.
pub proof fn law_sorting_orders_rows<T>(rows: Seq<T>, key: spec_fn(T) -> KeyRec)
    ensures
        forall|i: int, j: int|
            0 <= i < j < sorted_by_key(rows, key).len() ==> !key(#[trigger] sorted_by_key(rows, key)[j]).before(
                key(#[trigger] sorted_by_key(rows, key)[i]),
            ),
{
    let keys = rows.map_values(key);
    let n = rows.len() as int;
    let places = sorted_places(keys, n);
    let s = sorted_by_key(rows, key);
    law_sorted_places(keys, n);
    assert forall|i: int, j: int| 0 <= i < j < s.len() implies !key(#[trigger] s[j]).before(key(#[trigger] s[i])) by {
        assert(places.contains(places[i]) && places.contains(places[j]));
        assert(keys[places[i]] == key(s[i]) && keys[places[j]] == key(s[j]));
    }
}

/// Sorting leaves a list alone that is in order.
pub proof fn law_sorted_lists_stay<T>(rows: Seq<T>, key: spec_fn(T) -> KeyRec)
    requires
        forall|i: int, j: int| 0 <= i < j < rows.len() ==> !key(#[trigger] rows[j]).before(key(#[trigger] rows[i])),
    ensures
        sorted_by_key(rows, key) == rows,
{
    let keys = rows.map_values(key);
    assert forall|i: int, j: int| 0 <= i < j < keys.len() implies !(#[trigger] keys[j]).before(#[trigger] keys[i]) by {
        assert(keys[j] == key(rows[j]) && keys[i] == key(rows[i]));
    }
    lemma_places_in_order(keys, rows.len() as int);
    assert(sorted_by_key(rows, key) =~= rows);
}

/// Places as numbers.
pub open spec fn as_places(v: Seq<usize>) -> Seq<int> {
    v.map_values(|p: usize| p as int)
}

proof fn lemma_key_asymmetric(a: KeyRec, b: KeyRec)
    requires
        a.before(b),
    ensures
        !b.before(a),
{
    if b.before(a) {
        lemma_text_before_transitive(a.name, b.name, a.name);
        lemma_text_before_irreflexive(a.name);
    }
}

/// Whether a place comes before another in the order of the keys.
spec fn ahead(keys: Seq<KeyRec>, p: int, q: int) -> bool {
    !keys[q].before(keys[p]) && (keys[p].before(keys[q]) || p < q)
}

proof fn lemma_ahead_chain(keys: Seq<KeyRec>, p: int, q: int, r: int)
    requires
        ahead(keys, p, q),
        ahead(keys, q, r),
    ensures
        ahead(keys, p, r),
{
    lemma_key_chain(keys[p], keys[q], keys[r]);
    if !keys[p].before(keys[r]) {
        if keys[p].before(keys[q]) {
            lemma_key_chain(keys[q], keys[r], keys[p]);
        } else if keys[q].before(keys[r]) {
            lemma_key_chain(keys[r], keys[p], keys[q]);
        }
    }
}

/// Two lists of the same places in the same order are equal.
proof fn lemma_one_order(keys: Seq<KeyRec>, a: Seq<int>, b: Seq<int>)
    requires
        in_order(keys, a),
        in_order(keys, b),
        forall|p: int| a.contains(p) <==> b.contains(p),
    ensures
        a == b,
    decreases a.len(),
{
    if a.len() == 0 {
        if b.len() > 0 {
            assert(b.contains(b[0]));
        }
        assert(a =~= b);
    } else {
        let x = a.last();
        assert(a.contains(x));
        let i = choose|i: int| 0 <= i < b.len() && b[i] == x;
        let y = b.last();
        assert(b.contains(y));
        let j = choose|j: int| 0 <= j < a.len() && a[j] == y;
        assert(x == y) by {
            if x != y {
                assert(ahead(keys, b[i], b[b.len() - 1]));
                assert(ahead(keys, a[j], a[a.len() - 1]));
            }
        }
        let c = a.drop_last();
        let d = b.drop_last();
        assert forall|m: int, k: int| 0 <= m < k < c.len() implies !keys[#[trigger] c[k]].before(
            keys[#[trigger] c[m]],
        ) && (keys[c[m]].before(keys[c[k]]) || c[m] < c[k]) by {
            assert(ahead(keys, a[m], a[k]));
        }
        assert forall|m: int, k: int| 0 <= m < k < d.len() implies !keys[#[trigger] d[k]].before(
            keys[#[trigger] d[m]],
        ) && (keys[d[m]].before(keys[d[k]]) || d[m] < d[k]) by {
            assert(ahead(keys, b[m], b[k]));
        }
        assert forall|p: int| c.contains(p) <==> d.contains(p) by {
            if c.contains(p) {
                let k = choose|k: int| 0 <= k < c.len() && c[k] == p;
                assert(a[k] == p);
                assert(ahead(keys, a[k], a[a.len() - 1]));
                assert(a.contains(p));
                let m = choose|m: int| 0 <= m < b.len() && b[m] == p;
                assert(m != b.len() - 1);
                assert(d[m] == p);
            }
            if d.contains(p) {
                let k = choose|k: int| 0 <= k < d.len() && d[k] == p;
                assert(b[k] == p);
                assert(ahead(keys, b[k], b[b.len() - 1]));
                assert(b.contains(p));
                let m = choose|m: int| 0 <= m < a.len() && a[m] == p;
                assert(m != a.len() - 1);
                assert(c[m] == p);
            }
        }
        lemma_one_order(keys, c, d);
        assert(a =~= c.push(x));
        assert(b =~= d.push(x));
    }
}

/// Whether places are those of `from..to`, in the order of the keys.
spec fn ranked(keys: Seq<KeyRec>, v: Seq<usize>, from: int, to: int) -> bool {
    &&& v.len() == to - from
    &&& forall|i: int| 0 <= i < v.len() ==> from <= (#[trigger] v[i]) < to
    &&& forall|i: int, j: int| 0 <= i < j < v.len() ==> ahead(keys, #[trigger] v[i] as int, #[trigger] v[j] as int)
    &&& forall|p: usize| from <= p < to ==> #[trigger] v.contains(p)
}

/// Two ranked lists as one; the first holds the lower places.
fn merge(keys: &Vec<SortKey>, left: &Vec<usize>, right: &Vec<usize>, Ghost(from): Ghost<int>, Ghost(mid): Ghost<int>, Ghost(
    to,
): Ghost<int>) -> (r: Vec<usize>)
    requires
        0 <= from <= mid <= to <= keys@.len(),
        ranked(key_recs(keys@), left@, from, mid),
        ranked(key_recs(keys@), right@, mid, to),
    ensures
        ranked(key_recs(keys@), r@, from, to),
{
    let ghost recs = key_recs(keys@);
    let mut out: Vec<usize> = Vec::new();
    let mut i: usize = 0;
    let mut j: usize = 0;
    while i < left.len() || j < right.len()
        invariant
            0 <= from <= mid <= to <= keys@.len(),
            recs == key_recs(keys@),
            ranked(recs, left@, from, mid),
            ranked(recs, right@, mid, to),
            i <= left@.len(),
            j <= right@.len(),
            out@.len() == i + j,
            forall|k: int| 0 <= k < out@.len() ==> from <= (#[trigger] out@[k]) < to,
            forall|k: int, m: int|
                0 <= k < m < out@.len() ==> ahead(recs, #[trigger] out@[k] as int, #[trigger] out@[m] as int),
            forall|k: int, m: int|
                0 <= k < out@.len() && i <= m < left@.len() ==> ahead(
                    recs,
                    #[trigger] out@[k] as int,
                    #[trigger] left@[m] as int,
                ),
            forall|k: int, m: int|
                0 <= k < out@.len() && j <= m < right@.len() ==> ahead(
                    recs,
                    #[trigger] out@[k] as int,
                    #[trigger] right@[m] as int,
                ),
            forall|m: int| 0 <= m < i ==> out@.contains(#[trigger] left@[m]),
            forall|m: int| 0 <= m < j ==> out@.contains(#[trigger] right@[m]),
        decreases left@.len() - i + right@.len() - j,
    {
        let ghost before = out@;
        let take_left = if i >= left.len() {
            false
        } else if j >= right.len() {
            true
        } else {
            assert(recs[right@[j as int] as int] == keys@[right@[j as int] as int]@);
            assert(recs[left@[i as int] as int] == keys@[left@[i as int] as int]@);
            !keys[right[j]].comes_before(&keys[left[i]])
        };
        let x = if take_left {
            left[i]
        } else {
            right[j]
        };
        proof {
            if take_left {
                assert forall|m: int| j <= m < right@.len() implies ahead(recs, x as int, #[trigger] right@[m] as int) by {
                    assert(ahead(recs, x as int, right@[j as int] as int));
                    if m > j {
                        lemma_ahead_chain(recs, x as int, right@[j as int] as int, right@[m] as int);
                    }
                }
            } else {
                assert forall|m: int| i <= m < left@.len() implies ahead(recs, x as int, #[trigger] left@[m] as int) by {
                    assert(ahead(recs, x as int, left@[i as int] as int)) by {
                        if recs[left@[i as int] as int].before(recs[x as int]) {
                            lemma_key_asymmetric(recs[x as int], recs[left@[i as int] as int]);
                        }
                    }
                    if m > i {
                        lemma_ahead_chain(recs, x as int, left@[i as int] as int, left@[m] as int);
                    }
                }
            }
        }
        out.push(x);
        proof {
            assert forall|p: usize| before.contains(p) implies #[trigger] out@.contains(p) by {
                let k = choose|k: int| 0 <= k < before.len() && before[k] == p;
                assert(out@[k] == p);
            }
            assert(out@[out@.len() - 1] == x);
            assert(out@.contains(x));
        }
        if take_left {
            i = i + 1;
        } else {
            j = j + 1;
        }
    }
    proof {
        assert forall|p: usize| from <= p < to implies #[trigger] out@.contains(p) by {
            if p < mid {
                assert(left@.contains(p));
                let m = choose|m: int| 0 <= m < left@.len() && left@[m] == p;
                assert(out@.contains(left@[m]));
            } else {
                assert(right@.contains(p));
                let m = choose|m: int| 0 <= m < right@.len() && right@[m] == p;
                assert(out@.contains(right@[m]));
            }
        }
    }
    out
}

fn sort_range(keys: &Vec<SortKey>, from: usize, to: usize) -> (r: Vec<usize>)
    requires
        from <= to <= keys@.len(),
    ensures
        ranked(key_recs(keys@), r@, from as int, to as int),
    decreases to - from,
{
    if to - from <= 1 {
        let mut out: Vec<usize> = Vec::new();
        if from < to {
            out.push(from);
            assert(out@[0] == from);
        }
        return out;
    }
    let mid: usize = from + (to - from) / 2;
    let left = sort_range(keys, from, mid);
    let right = sort_range(keys, mid, to);
    merge(keys, &left, &right, Ghost(from as int), Ghost(mid as int), Ghost(to as int))
}

/// The places of a list in the order of its keys.
pub fn sort_places(keys: &Vec<SortKey>) -> (r: Vec<usize>)
    ensures
        as_places(r@) == sorted_places(key_recs(keys@), keys@.len() as int),
        forall|i: int| 0 <= i < r@.len() ==> (#[trigger] r@[i]) < keys@.len(),
        r@.len() == keys@.len(),
{
    let r = sort_range(keys, 0, keys.len());
    proof {
        let recs = key_recs(keys@);
        let n = keys@.len() as int;
        let a = as_places(r@);
        let b = sorted_places(recs, n);
        law_sorted_places(recs, n);
        assert forall|i: int, j: int| 0 <= i < j < a.len() implies !recs[#[trigger] a[j]].before(recs[#[trigger] a[i]])
            && (recs[a[i]].before(recs[a[j]]) || a[i] < a[j]) by {
            assert(ahead(recs, r@[i] as int, r@[j] as int));
        }
        assert forall|p: int| a.contains(p) <==> b.contains(p) by {
            if a.contains(p) {
                let i = choose|i: int| 0 <= i < a.len() && a[i] == p;
                assert(r@[i] == p);
            }
            if b.contains(p) {
                assert(r@.contains(p as usize));
                let i = choose|i: int| 0 <= i < r@.len() && r@[i] == p as usize;
                assert(a[i] == p);
            }
        }
        lemma_one_order(recs, a, b);
    }
    r
}

} // verus!
