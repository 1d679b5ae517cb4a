//! Keeping each item of a sequence once, at its first occurrence, as a set
//! built from the items would hold it.

use vstd::prelude::*;

verus! {

/// The items of `s`, each at its first occurrence only.
pub open spec fn dedup<A>(s: Seq<A>) -> Seq<A>
    decreases s.len(),
{
    if s.len() == 0 {
        s
    } else {
        let d = dedup(s.drop_last());
        if s.drop_last().contains(s.last()) {
            d
        } else {
            d.push(s.last())
        }
    }
}

/// Whether no item of `s` occurs twice.
pub open spec fn no_repeats<A>(s: Seq<A>) -> bool {
    forall|i: int, j: int| 0 <= i < j < s.len() ==> s[i] != s[j]
}

/// Removing repeats keeps exactly the items that were there, each once.
pub proof fn lemma_dedup<A>(s: Seq<A>)
    ensures
        forall|x: A| dedup(s).contains(x) <==> s.contains(x),
        forall|i: int, j: int| 0 <= i < j < dedup(s).len() ==> dedup(s)[i] != dedup(s)[j],
    decreases s.len(),
{
    if s.len() > 0 {
        lemma_dedup(s.drop_last());
        let d = dedup(s.drop_last());
        assert forall|x: A| s.contains(x) <==> (s.drop_last().contains(x) || x == s.last()) by {
            if s.contains(x) {
                let k = choose|k: int| 0 <= k < s.len() && s[k] == x;
                if k < s.len() - 1 {
                    assert(s.drop_last()[k] == x);
                }
            }
            if x == s.last() {
                assert(s[s.len() - 1] == x);
            }
            if s.drop_last().contains(x) {
                let k = choose|k: int| 0 <= k < s.drop_last().len() && s.drop_last()[k] == x;
                assert(s[k] == x);
            }
        }
        if !s.drop_last().contains(s.last()) {
            assert forall|x: A| d.push(s.last()).contains(x) <==> (d.contains(x) || x == s.last()) by {
                if d.push(s.last()).contains(x) {
                    let k = choose|k: int| 0 <= k < d.push(s.last()).len() && d.push(s.last())[k] == x;
                    if k < d.len() {
                        assert(d[k] == x);
                    }
                }
                if x == s.last() {
                    assert(d.push(s.last())[d.len() as int] == x);
                }
                if d.contains(x) {
                    let k = choose|k: int| 0 <= k < d.len() && d[k] == x;
                    assert(d.push(s.last())[k] == x);
                }
            }
        }
    }
}

/// The views of a sequence of items.
pub open spec fn views<T: View>(s: Seq<T>) -> Seq<T::V> {
    s.map_values(|t: T| t@)
}

/// Items that can be compared and copied by what they are.
pub trait SameView: View + Sized {
    /// Whether the two items are the same.
    fn same_as(&self, other: &Self) -> (r: bool)
        ensures
            r == (self@ == other@),
    ;

    /// A copy of the item.
    fn duplicate(&self) -> (r: Self)
        ensures
            r@ == self@,
    ;
}

/// The items, each kept at its first occurrence.
pub fn dedup_items<T: SameView>(items: Vec<T>) -> (r: Vec<T>)
    ensures
        views(r@) == dedup(views(items@)),
{
    let ghost s = views(items@);
    let mut out: Vec<T> = Vec::new();
    let mut i: usize = 0;
    while i < items.len()
        invariant
            0 <= i <= items@.len(),
            s == views(items@),
            views(out@) == dedup(s.take(i as int)),
        decreases items@.len() - i,
    {
        proof {
            lemma_dedup(s.take(i as int));
            assert(s.take(i as int + 1).drop_last() =~= s.take(i as int));
        }
        let mut found = false;
        let mut j: usize = 0;
        while j < out.len()
            invariant
                0 <= j <= out@.len(),
                0 <= i < items@.len(),
                found == exists|k: int| 0 <= k < j && views(out@)[k] == items@[i as int]@,
            decreases out@.len() - j,
        {
            assert(views(out@)[j as int] == out@[j as int]@);
            if out[j].same_as(&items[i]) {
                found = true;
            }
            j += 1;
        }
        proof {
            if found {
                let k = choose|k: int| 0 <= k < j && views(out@)[k] == items@[i as int]@;
                assert(dedup(s.take(i as int)).contains(s[i as int]));
            } else {
                assert forall|k: int| 0 <= k < dedup(s.take(i as int)).len() implies dedup(
                    s.take(i as int),
                )[k] != s[i as int] by {
                    assert(views(out@)[k] == out@[k]@);
                }
            }
        }
        if !found {
            out.push(items[i].duplicate());
        }
        proof {
            assert(s.take(i as int + 1).last() == s[i as int]);
        }
        i += 1;
    }
    assert(s.take(items@.len() as int) =~= s);
    out
}

/// Whether every item of `a` is an item of `b`.
pub open spec fn subset_of<A>(a: Seq<A>, b: Seq<A>) -> bool {
    forall|i: int| 0 <= i < a.len() ==> b.contains(#[trigger] a[i])
}

/// Two sequences hold the same items, regardless of order and repeats,
/// exactly when each holds every item of the other.
pub proof fn lemma_same_set<A>(a: Seq<A>, b: Seq<A>)
    ensures
        (subset_of(a, b) && subset_of(b, a)) == (a.to_set() == b.to_set()),
{
    if subset_of(a, b) && subset_of(b, a) {
        assert forall|x: A| a.to_set().contains(x) <==> b.to_set().contains(x) by {
            if a.contains(x) {
                let i = choose|i: int| 0 <= i < a.len() && a[i] == x;
                assert(b.contains(a[i]));
            }
            if b.contains(x) {
                let i = choose|i: int| 0 <= i < b.len() && b[i] == x;
                assert(a.contains(b[i]));
            }
        }
        assert(a.to_set() =~= b.to_set());
    }
    if a.to_set() == b.to_set() {
        assert forall|i: int| 0 <= i < a.len() implies b.contains(#[trigger] a[i]) by {
            assert(a.to_set().contains(a[i]));
        }
        assert forall|i: int| 0 <= i < b.len() implies a.contains(#[trigger] b[i]) by {
            assert(b.to_set().contains(b[i]));
        }
    }
}

/// Whether every item of `a` is also in `b`.
pub fn contains_all<T: SameView>(a: &Vec<T>, b: &Vec<T>) -> (r: bool)
    ensures
        r == subset_of(views(a@), views(b@)),
{
    let mut i: usize = 0;
    while i < a.len()
        invariant
            0 <= i <= a@.len(),
            forall|k: int| 0 <= k < i ==> views(b@).contains(#[trigger] views(a@)[k]),
        decreases a@.len() - i,
    {
        let mut found = false;
        let mut j: usize = 0;
        while j < b.len()
            invariant
                0 <= j <= b@.len(),
                0 <= i < a@.len(),
                found == exists|k: int| 0 <= k < j && views(b@)[k] == a@[i as int]@,
            decreases b@.len() - j,
        {
            assert(views(b@)[j as int] == b@[j as int]@);
            if b[j].same_as(&a[i]) {
                found = true;
            }
            j += 1;
        }
        assert(views(a@)[i as int] == a@[i as int]@);
        if !found {
            assert(!views(b@).contains(views(a@)[i as int]));
            return false;
        }
        i += 1;
    }
    true
}

/// Two sequences make the same set exactly when they contain the same items.
pub proof fn lemma_same_items<A>(a: Seq<A>, b: Seq<A>)
    ensures
        (a.to_set() == b.to_set()) == (forall|x: A| a.contains(x) <==> b.contains(x)),
{
    if forall|x: A| a.contains(x) <==> b.contains(x) {
        assert(a.to_set() =~= b.to_set());
    }
    if a.to_set() == b.to_set() {
        assert forall|x: A| a.contains(x) <==> b.contains(x) by {
            assert(a.to_set().contains(x) == b.to_set().contains(x));
        }
    }
}

} // verus!
