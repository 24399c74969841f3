//! Cutting lists to a limit and turning them round.
use vstd::prelude::*;

verus! {

/// The first `n` items, or all where there are fewer.
pub open spec fn first<T>(s: Seq<T>, n: int) -> Seq<T> {
    if n < 0 {
        Seq::empty()
    } else if n < s.len() {
        s.take(n)
    } else {
        s
    }
}

/// What is left behind the first `n` items.
pub open spec fn behind<T>(s: Seq<T>, n: int) -> Seq<T> {
    if n <= 0 {
        s
    } else if n < s.len() {
        s.skip(n)
    } else {
        Seq::empty()
    }
}

/// A number brought into `1..=max`.
pub open spec fn bounded(n: usize, max: usize) -> usize {
    if n < 1 {
        1
    } else if n > max {
        max
    } else {
        n
    }
}

pub fn bound(n: usize, max: usize) -> (r: usize)
    ensures
        r == bounded(n, max),
{
    if n < 1 {
        1
    } else if n > max {
        max
    } else {
        n
    }
}

/// The smaller of two numbers.
pub open spec fn lesser(a: usize, b: usize) -> usize {
    if a < b {
        a
    } else {
        b
    }
}

pub fn smaller(a: usize, b: usize) -> (r: usize)
    ensures
        r == lesser(a, b),
{
    if a < b {
        a
    } else {
        b
    }
}

pub fn keep_first<T>(v: Vec<T>, n: usize) -> (r: Vec<T>)
    ensures
        r@ == first(v@, n as int),
{
    let mut v = v;
    if n < v.len() {
        v.truncate(n);
    }
    v
}

pub fn newest_first<T>(v: Vec<T>) -> (r: Vec<T>)
    ensures
        r@ == v@.reverse(),
{
    let mut v = v;
    let ghost all = v@;
    let mut out: Vec<T> = Vec::new();
    while v.len() > 0
        invariant
            v@.len() <= all.len(),
            v@ == all.take(v@.len() as int),
            out@ == all.reverse().take(all.len() - v@.len()),
        decreases v@.len(),
    {
        let ghost n = v@.len() as int;
        match v.pop() {
            Some(x) => {
                assert(x == all[n - 1]);
                assert(all.reverse()[all.len() - n] == all[n - 1]);
                out.push(x);
                assert(out@ =~= all.reverse().take(all.len() - n + 1));
                assert(v@ =~= all.take(n - 1));
            },
            None => {},
        }
    }
    assert(out@ =~= all.reverse());
    out
}

/// The places of the items that a selection picks, in order.
pub open spec fn picked_places<A, B>(s: Seq<A>, f: spec_fn(A) -> Option<B>) -> Seq<int>
    decreases s.len(),
{
    if s.len() == 0 {
        Seq::empty()
    } else if f(s.last()) is Some {
        picked_places(s.drop_last(), f).push(s.len() - 1)
    } else {
        picked_places(s.drop_last(), f)
    }
}

/// A selection gives what it makes of the items that it picks, in their order, each once.
pub proof fn lemma_picked_places<A, B>(s: Seq<A>, f: spec_fn(A) -> Option<B>)
    ensures
        s.filter_map(f).len() == picked_places(s, f).len(),
        forall|k: int|
            0 <= k < picked_places(s, f).len() ==> 0 <= #[trigger] picked_places(s, f)[k] < s.len() && f(
                s[picked_places(s, f)[k]],
            ) == Some(s.filter_map(f)[k]),
        forall|j: int, k: int|
            0 <= j < k < picked_places(s, f).len() ==> #[trigger] picked_places(s, f)[j] < #[trigger] picked_places(
                s,
                f,
            )[k],
        forall|i: int| 0 <= i < s.len() && f(#[trigger] s[i]) is Some ==> picked_places(s, f).contains(i),
    decreases s.len(),
{
    if s.len() > 0 {
        let rest = s.drop_last();
        let before = picked_places(rest, f);
        let at = picked_places(s, f);
        let rows = s.filter_map(f);
        let kept = rest.filter_map(f);
        lemma_picked_places(rest, f);
        if f(s.last()) is Some {
            assert(rows =~= kept.push(f(s.last())->0));
            assert forall|k: int| 0 <= k < at.len() implies 0 <= #[trigger] at[k] < s.len() && f(s[at[k]]) == Some(
                rows[k],
            ) by {
                if k < before.len() {
                    assert(at[k] == before[k]);
                    assert(rest[before[k]] == s[before[k]]);
                    assert(rows[k] == kept[k]);
                }
            }
            assert forall|j: int, k: int| 0 <= j < k < at.len() implies #[trigger] at[j] < #[trigger] at[k] by {
                assert(at[j] == before[j]);
                if k < before.len() {
                    assert(at[k] == before[k]);
                }
            }
        } else {
            assert(rows =~= kept);
            assert forall|k: int| 0 <= k < at.len() implies 0 <= #[trigger] at[k] < s.len() && f(s[at[k]]) == Some(
                rows[k],
            ) by {
                assert(rest[before[k]] == s[before[k]]);
            }
        }
        assert forall|i: int| 0 <= i < s.len() && f(#[trigger] s[i]) is Some implies at.contains(i) by {
            if i < rest.len() {
                assert(rest[i] == s[i]);
                let k = choose|k: int| 0 <= k < before.len() && before[k] == i;
                assert(at[k] == i);
            } else {
                assert(at[before.len() as int] == i);
            }
        }
    }
}

/// A selection gives exactly what it makes of the items that it picks.
pub proof fn lemma_picked<A, B>(s: Seq<A>, f: spec_fn(A) -> Option<B>)
    ensures
        forall|b: B| #[trigger]
            s.filter_map(f).contains(b) <==> exists|i: int| 0 <= i < s.len() && f(#[trigger] s[i]) == Some(b),
        forall|i: int| 0 <= i < s.len() && f(#[trigger] s[i]) is Some ==> s.filter_map(f).contains(f(s[i])->0),
        forall|k: int|
            0 <= k < s.filter_map(f).len() ==> exists|i: int|
                0 <= i < s.len() && f(#[trigger] s[i]) == Some(#[trigger] s.filter_map(f)[k]),
{
    lemma_picked_places(s, f);
    let at = picked_places(s, f);
    let rows = s.filter_map(f);
    assert forall|k: int| 0 <= k < rows.len() implies exists|i: int|
        0 <= i < s.len() && f(#[trigger] s[i]) == Some(#[trigger] rows[k]) by {
        assert(f(s[at[k]]) == Some(rows[k]));
    }
    assert forall|i: int| 0 <= i < s.len() && f(#[trigger] s[i]) is Some implies rows.contains(f(s[i])->0) by {
        let k = choose|k: int| 0 <= k < at.len() && at[k] == i;
        assert(rows[k] == f(s[i])->0);
    }
    assert forall|b: B| #[trigger] rows.contains(b) <==> exists|i: int|
        0 <= i < s.len() && f(#[trigger] s[i]) == Some(b) by {
        if rows.contains(b) {
            let k = choose|k: int| 0 <= k < rows.len() && rows[k] == b;
            assert(f(s[at[k]]) == Some(rows[k]));
        }
    }
}

/// A selection gives as many rows as there are items of the kind that it picks.
pub proof fn lemma_picked_len<A, B>(s: Seq<A>, f: spec_fn(A) -> Option<B>, p: spec_fn(A) -> bool)
    requires
        forall|a: A| #[trigger] p(a) <==> f(a) is Some,
    ensures
        s.filter_map(f).len() == s.filter(p).len(),
    decreases s.len(),
{
    reveal(Seq::filter);
    if s.len() > 0 {
        lemma_picked_len(s.drop_last(), f, p);
        assert(p(s.last()) <==> f(s.last()) is Some);
    }
}

/// The beginning of a list and what is left behind its beginning make up the list; a limit beyond the
/// list leaves nothing out.
pub proof fn law_cutting_loses_nothing<T>(s: Seq<T>, n: int)
    requires
        0 <= n,
    ensures
        first(s, n) + behind(s, n) == s,
        first(s, n).len() == if n < s.len() {
            n
        } else {
            s.len() as int
        },
{
    assert(first(s, n) + behind(s, n) =~= s);
}

/// A number within bounds stays; another becomes the nearer bound.
pub proof fn law_bounds(n: usize, max: usize)
    ensures
        1 <= n <= max ==> bounded(n, max) == n,
        n == 0 ==> bounded(n, max) == 1,
        1 <= max < n ==> bounded(n, max) == max,
        lesser(n, max) <= n,
        lesser(n, max) <= max,
        lesser(n, max) == n || lesser(n, max) == max,
{
}

} // verus!
