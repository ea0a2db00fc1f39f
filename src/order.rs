//! Ordering items by integer keys with the standard library's sort, and
//! moving the items into that order.
use vstd::prelude::*;

verus! {

/// A sort key: three integers, then the item's index.
pub type SortKey = (i64, i64, i64, usize);

/// Whether `a` comes strictly before `b` in lexicographic order.
pub open spec fn key_lt(a: SortKey, b: SortKey) -> bool {
    ||| a.0 < b.0
    ||| a.0 == b.0 && a.1 < b.1
    ||| a.0 == b.0 && a.1 == b.1 && a.2 < b.2
    ||| a.0 == b.0 && a.1 == b.1 && a.2 == b.2 && a.3 < b.3
}

/// Relies on `slice::sort`: the same keys, in ascending order; tuples of
/// integers compare lexicographically.
#[verifier::external_body]
fn sort_keys(v: &mut Vec<SortKey>)
    ensures
        final(v)@.to_multiset() == old(v)@.to_multiset(),
        forall|i: int, j: int| 0 <= i < j < final(v)@.len() ==> !key_lt(#[trigger] final(v)@[j], #[trigger] final(v)@[i]),
{
    v.sort();
}

/// The indices of `keys` in ascending order of the keys, where each key
/// ends with its own index.
pub fn sorted_order(keys: Vec<SortKey>) -> (r: Vec<usize>)
    requires
        forall|i: int| 0 <= i < keys@.len() ==> (#[trigger] keys@[i]).3 == i,
    ensures
        r@.len() == keys@.len(),
        forall|t: int| 0 <= t < r@.len() ==> (#[trigger] r@[t]) < keys@.len(),
        forall|a: int, b: int| 0 <= a < r@.len() && 0 <= b < r@.len() && a != b ==> #[trigger] r@[a] != #[trigger] r@[b],
        forall|a: int, b: int| 0 <= a < b < r@.len() ==> key_lt(keys@[#[trigger] r@[a] as int], keys@[#[trigger] r@[b] as int]),
{
    let ghost orig = keys@;
    let mut sorted = keys;
    sort_keys(&mut sorted);
    let ghost s = sorted@;
    proof {
        broadcast use vstd::seq_lib::group_to_multiset_ensures;
        assert(s.len() == orig.len()) by {
            assert(s.to_multiset().len() == orig.to_multiset().len());
        }
        assert forall|t: int| 0 <= t < s.len() implies 0 <= (#[trigger] s[t]).3 < orig.len() && orig[s[t].3 as int] == s[t] by {
            assert(s.contains(s[t]));
            assert(orig.to_multiset().count(s[t]) > 0);
            assert(orig.contains(s[t]));
            let j = choose|j: int| 0 <= j < orig.len() && orig[j] == s[t];
        }
        assert(orig.no_duplicates()) by {
            assert forall|a: int, b: int| 0 <= a < orig.len() && 0 <= b < orig.len() && a != b implies orig[a] != orig[b] by {
                assert(orig[a].3 == a && orig[b].3 == b);
            }
        }
        orig.lemma_multiset_has_no_duplicates();
        s.lemma_multiset_has_no_duplicates_conv();
    }
    let mut r: Vec<usize> = Vec::new();
    let mut t: usize = 0;
    while t < sorted.len()
        invariant
            s == sorted@,
            t <= s.len(),
            r@.len() == t,
            forall|k: int| 0 <= k < t ==> #[trigger] r@[k] == s[k].3,
        decreases s.len() - t,
    {
        r.push(sorted[t].3);
        t = t + 1;
    }
    proof {
        assert forall|a: int, b: int| 0 <= a < r@.len() && 0 <= b < r@.len() && a != b implies #[trigger] r@[a] != #[trigger] r@[b] by {
            assert(s[a] != s[b]);
            assert(orig[s[a].3 as int] == s[a] && orig[s[b].3 as int] == s[b]);
        }
        assert forall|a: int, b: int| 0 <= a < b < r@.len() implies key_lt(keys_at(orig, #[trigger] r@[a]), keys_at(orig, #[trigger] r@[b])) by {
            assert(!key_lt(s[b], s[a]));
            assert(s[a] != s[b]);
            assert(orig[s[a].3 as int] == s[a] && orig[s[b].3 as int] == s[b]);
        }
    }
    r
}

spec fn keys_at(keys: Seq<SortKey>, i: usize) -> SortKey {
    keys[i as int]
}

/// The items in reverse order.
pub fn reversed<T>(v: Vec<T>) -> (r: Vec<T>)
    ensures
        r@.len() == v@.len(),
        forall|k: int| 0 <= k < r@.len() ==> #[trigger] r@[k] == v@[v@.len() - 1 - k],
{
    let ghost orig = v@;
    let mut rest = v;
    let mut r: Vec<T> = Vec::new();
    assert(rest@.take(orig.len() as int) =~= rest@);
    while rest.len() > 0
        invariant
            rest@.len() <= orig.len(),
            rest@ == orig.take(rest@.len() as int),
            r@.len() + rest@.len() == orig.len(),
            forall|k: int| 0 <= k < r@.len() ==> #[trigger] r@[k] == orig[orig.len() - 1 - k],
        decreases rest.len(),
    {
        let ghost before = rest@;
        match rest.pop() {
            Some(x) => {
                proof {
                    assert(x == before.last());
                    assert(before[before.len() - 1] == orig[before.len() - 1]);
                    assert(rest@ =~= orig.take(rest@.len() as int));
                }
                r.push(x);
            },
            None => {},
        }
    }
    r
}

/// Puts each item into a slot of its own, in the same order.
pub fn into_slots<T>(v: Vec<T>) -> (r: Vec<Option<T>>)
    ensures
        r@.len() == v@.len(),
        forall|k: int| 0 <= k < r@.len() ==> #[trigger] r@[k] == Some(v@[k]),
{
    let ghost orig = v@;
    let n = v.len();
    let mut r: Vec<Option<T>> = Vec::new();
    let mut i: usize = 0;
    while i < n
        invariant
            i <= n,
            r@.len() == i,
        decreases n - i,
    {
        r.push(None);
        i = i + 1;
    }
    let mut rest = v;
    assert(rest@.take(n as int) =~= rest@);
    while rest.len() > 0
        invariant
            n == orig.len(),
            r@.len() == n,
            rest@.len() <= n,
            rest@ == orig.take(rest@.len() as int),
            forall|k: int| rest@.len() <= k < n ==> #[trigger] r@[k] == Some(orig[k]),
        decreases rest.len(),
    {
        let ghost before = rest@;
        match rest.pop() {
            Some(x) => {
                let k = rest.len();
                proof {
                    assert(x == before.last());
                    assert(before[k as int] == orig[k as int]);
                    assert(rest@ =~= orig.take(k as int));
                }
                r.set(k, Some(x));
            },
            None => {},
        }
    }
    r
}

/// Moves the items out of their slots, in the order of `order`.
pub fn take_in_order<T>(slots: Vec<Option<T>>, order: &Vec<usize>) -> (r: Vec<T>)
    requires
        forall|t: int| 0 <= t < order@.len() ==> (#[trigger] order@[t]) < slots@.len(),
        forall|a: int, b: int| 0 <= a < order@.len() && 0 <= b < order@.len() && a != b ==> #[trigger] order@[a] != #[trigger] order@[b],
        forall|k: int| 0 <= k < slots@.len() ==> (#[trigger] slots@[k]) is Some,
    ensures
        r@.len() == order@.len(),
        forall|t: int| 0 <= t < r@.len() ==> Some(#[trigger] r@[t]) == slots@[order@[t] as int],
{
    let ghost orig = slots@;
    let mut slots = slots;
    let mut r: Vec<T> = Vec::new();
    let mut t: usize = 0;
    while t < order.len()
        invariant
            slots@.len() == orig.len(),
            t <= order@.len(),
            r@.len() == t,
            forall|u: int| 0 <= u < order@.len() ==> (#[trigger] order@[u]) < orig.len(),
            forall|a: int, b: int| 0 <= a < order@.len() && 0 <= b < order@.len() && a != b ==> #[trigger] order@[a] != #[trigger] order@[b],
            forall|k: int| 0 <= k < orig.len() ==> (#[trigger] orig[k]) is Some,
            forall|u: int| t <= u < order@.len() ==> slots@[#[trigger] order@[u] as int] == orig[order@[u] as int],
            forall|u: int| 0 <= u < t ==> Some(#[trigger] r@[u]) == orig[order@[u] as int],
        decreases order@.len() - t,
    {
        let p = order[t];
        let mut item: Option<T> = None;
        slots.set_and_swap(p, &mut item);
        match item {
            Some(x) => {
                r.push(x);
            },
            None => {
                assert(false);
            },
        }
        proof {
            assert forall|u: int| t + 1 <= u < order@.len() implies slots@[#[trigger] order@[u] as int] == orig[order@[u] as int] by {
                assert(order@[u] != order@[t as int]);
            }
        }
        t = t + 1;
    }
    r
}

} // verus!
