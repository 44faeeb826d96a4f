//! Lists of ids kept in ascending order, searched by bisection.

use vstd::prelude::*;

verus! {

/// The list is in ascending order; equal neighbours are allowed.
pub open spec fn sorted(s: Seq<u64>) -> bool {
    forall|i: int, j: int| 0 <= i <= j < s.len() ==> s[i] <= s[j]
}

/// The list is in ascending order and holds nothing twice.
pub open spec fn strictly_sorted(s: Seq<u64>) -> bool {
    forall|i: int, j: int| 0 <= i < j < s.len() ==> s[i] < s[j]
}

/// The position just behind the last element that is not above `x`.
pub open spec fn insert_point(s: Seq<u64>, x: u64) -> int
    decreases s.len(),
{
    if s.len() == 0 {
        0
    } else if s.last() <= x {
        s.len() as int
    } else {
        insert_point(s.drop_last(), x)
    }
}

/// The list with `x` put in at its place.
pub open spec fn spec_insert(s: Seq<u64>, x: u64) -> Seq<u64> {
    s.insert(insert_point(s, x), x)
}

/// Whether the element in front of the insertion point of `x` is `x`.
pub open spec fn spec_has(s: Seq<u64>, x: u64) -> bool {
    insert_point(s, x) > 0 && s[insert_point(s, x) - 1] == x
}

/// The list without one occurrence of `x`; unchanged where it has none.
pub open spec fn spec_remove(s: Seq<u64>, x: u64) -> Seq<u64> {
    if spec_has(s, x) {
        s.remove(insert_point(s, x) - 1)
    } else {
        s
    }
}

/// The elements of `s` put in one after another, each at its place.
pub open spec fn spec_sort(s: Seq<u64>) -> Seq<u64>
    decreases s.len(),
{
    if s.len() == 0 {
        Seq::empty()
    } else {
        spec_insert(spec_sort(s.drop_last()), s.last())
    }
}

/// A position that parts the elements up to `x` from those above it is the
/// insertion point.
pub proof fn lemma_insert_point_is(s: Seq<u64>, x: u64, k: int)
    requires
        0 <= k <= s.len(),
        forall|i: int| 0 <= i < k ==> s[i] <= x,
        forall|i: int| k <= i < s.len() ==> s[i] > x,
    ensures
        insert_point(s, x) == k,
    decreases s.len(),
{
    if s.len() > 0 {
        if s.last() <= x {
            if k < s.len() {
                assert(s[s.len() - 1] > x);
            }
        } else {
            if k == s.len() {
                assert(s[s.len() - 1] <= x);
            }
            lemma_insert_point_is(s.drop_last(), x, k);
        }
    }
}

/// In a sorted list the insertion point parts the elements up to `x` from
/// those above it.
pub proof fn lemma_insert_point_parts(s: Seq<u64>, x: u64)
    requires
        sorted(s),
    ensures
        0 <= insert_point(s, x) <= s.len(),
        forall|i: int| 0 <= i < insert_point(s, x) ==> s[i] <= x,
        forall|i: int| insert_point(s, x) <= i < s.len() ==> s[i] > x,
    decreases s.len(),
{
    if s.len() > 0 {
        if s.last() <= x {
            assert forall|i: int| 0 <= i < s.len() implies s[i] <= x by {
                assert(s[i] <= s[s.len() - 1]);
            }
        } else {
            let rest = s.drop_last();
            assert(sorted(rest)) by {
                assert forall|i: int, j: int| 0 <= i <= j < rest.len() implies rest[i]
                    <= rest[j] by {
                    assert(rest[i] == s[i] && rest[j] == s[j]);
                }
            }
            lemma_insert_point_parts(rest, x);
            assert forall|i: int| insert_point(s, x) <= i < s.len() implies s[i] > x by {
                if i < rest.len() {
                    assert(rest[i] == s[i]);
                }
            }
            assert forall|i: int| 0 <= i < insert_point(s, x) implies s[i] <= x by {
                assert(rest[i] == s[i]);
            }
        }
    }
}

/// Putting an element in at its place keeps the list sorted.
pub proof fn lemma_insert_keeps_sorted(s: Seq<u64>, x: u64)
    requires
        sorted(s),
    ensures
        sorted(spec_insert(s, x)),
{
    lemma_insert_point_parts(s, x);
    let k = insert_point(s, x);
    let t = spec_insert(s, x);
    assert forall|i: int, j: int| 0 <= i <= j < t.len() implies t[i] <= t[j] by {
        let a = if i < k {
            s[i]
        } else if i == k {
            x
        } else {
            s[i - 1]
        };
        let b = if j < k {
            s[j]
        } else if j == k {
            x
        } else {
            s[j - 1]
        };
        assert(t[i] == a && t[j] == b);
        if i < k && j > k {
            assert(s[i] <= s[j - 1]);
        }
        if i > k {
            assert(s[i - 1] <= s[j - 1]);
        }
        if j < k {
            assert(s[i] <= s[j]);
        }
    }
}

/// Taking an element out keeps the list sorted.
pub proof fn lemma_remove_keeps_sorted(s: Seq<u64>, k: int)
    requires
        sorted(s),
        0 <= k < s.len(),
    ensures
        sorted(s.remove(k)),
{
    let t = s.remove(k);
    assert forall|i: int, j: int| 0 <= i <= j < t.len() implies t[i] <= t[j] by {
        let a = if i < k {
            i
        } else {
            i + 1
        };
        let b = if j < k {
            j
        } else {
            j + 1
        };
        assert(t[i] == s[a] && t[j] == s[b]);
        assert(s[a] <= s[b]);
    }
}

/// In a sorted list, `x` stands in front of its insertion point exactly when
/// the list holds it.
pub proof fn lemma_has_is_contains(s: Seq<u64>, x: u64)
    requires
        sorted(s),
    ensures
        spec_has(s, x) == s.contains(x),
{
    lemma_insert_point_parts(s, x);
    let k = insert_point(s, x);
    if spec_has(s, x) {
        assert(s[k - 1] == x);
    }
    if s.contains(x) {
        let i = choose|i: int| 0 <= i < s.len() && s[i] == x;
        assert(i < k);
        assert(s[i] <= s[k - 1]);
    }
}

/// A list that is already sorted is what sorting it gives.
pub proof fn lemma_sort_of_sorted(s: Seq<u64>)
    requires
        sorted(s),
    ensures
        spec_sort(s) == s,
    decreases s.len(),
{
    if s.len() > 0 {
        let rest = s.drop_last();
        assert(sorted(rest)) by {
            assert forall|i: int, j: int| 0 <= i <= j < rest.len() implies rest[i] <= rest[j] by {
                assert(rest[i] == s[i] && rest[j] == s[j]);
            }
        }
        lemma_sort_of_sorted(rest);
        assert forall|i: int| 0 <= i < rest.len() implies rest[i] <= s.last() by {
            assert(s[i] <= s[s.len() - 1]);
        }
        lemma_insert_point_is(rest, s.last(), rest.len() as int);
        assert(rest.insert(rest.len() as int, s.last()) =~= s);
    } else {
        assert(spec_sort(s) =~= s);
    }
}

/// Sorting gives a sorted list.
pub proof fn lemma_sort_sorted(s: Seq<u64>)
    ensures
        sorted(spec_sort(s)),
        spec_sort(s).len() == s.len(),
    decreases s.len(),
{
    if s.len() > 0 {
        lemma_sort_sorted(s.drop_last());
        lemma_insert_point_parts(spec_sort(s.drop_last()), s.last());
        lemma_insert_keeps_sorted(spec_sort(s.drop_last()), s.last());
    }
}

/// The insertion point of `x` in a sorted list, found by bisection.
pub fn upper_bound(v: &Vec<u64>, x: u64) -> (k: usize)
    requires
        sorted(v@),
    ensures
        k == insert_point(v@, x),
        k <= v.len(),
{
    let mut lo: usize = 0;
    let mut hi: usize = v.len();
    while lo < hi
        invariant
            lo <= hi <= v.len(),
            sorted(v@),
            forall|i: int| 0 <= i < lo ==> v@[i] <= x,
            forall|i: int| hi <= i < v.len() ==> v@[i] > x,
        decreases hi - lo,
    {
        let mid: usize = lo + (hi - lo) / 2;
        if v[mid] <= x {
            assert forall|i: int| 0 <= i < mid + 1 implies v@[i] <= x by {
                assert(v@[i] <= v@[mid as int]);
            }
            lo = mid + 1;
        } else {
            assert forall|i: int| mid <= i < v.len() implies v@[i] > x by {
                assert(v@[mid as int] <= v@[i]);
            }
            hi = mid;
        }
    }
    proof {
        lemma_insert_point_is(v@, x, lo as int);
    }
    lo
}

/// Whether a sorted list holds `x`.
pub fn contains_id(v: &Vec<u64>, x: u64) -> (r: bool)
    requires
        sorted(v@),
    ensures
        r == v@.contains(x),
{
    let k = upper_bound(v, x);
    proof {
        lemma_has_is_contains(v@, x);
    }
    k > 0 && v[k - 1] == x
}

/// Puts `x` into a sorted list at its place.
pub fn insert_id(v: &mut Vec<u64>, x: u64)
    requires
        sorted(old(v)@),
    ensures
        final(v)@ == spec_insert(old(v)@, x),
        sorted(final(v)@),
{
    let k = upper_bound(v, x);
    proof {
        lemma_insert_keeps_sorted(v@, x);
    }
    v.insert(k, x);
}

/// Takes one occurrence of `x` out of a sorted list and says whether there
/// was one.
pub fn remove_id(v: &mut Vec<u64>, x: u64) -> (found: bool)
    requires
        sorted(old(v)@),
    ensures
        found == old(v)@.contains(x),
        final(v)@ == spec_remove(old(v)@, x),
        sorted(final(v)@),
{
    let k = upper_bound(v, x);
    proof {
        lemma_has_is_contains(v@, x);
    }
    if k > 0 && v[k - 1] == x {
        proof {
            lemma_remove_keeps_sorted(v@, k - 1);
        }
        let _ = v.remove(k - 1);
        true
    } else {
        false
    }
}

/// The same ids in ascending order.
pub fn sort_ids(v: &Vec<u64>) -> (r: Vec<u64>)
    ensures
        r@ == spec_sort(v@),
        sorted(r@),
{
    let mut r: Vec<u64> = Vec::new();
    let mut i: usize = 0;
    assert(v@.take(0) =~= Seq::<u64>::empty());
    while i < v.len()
        invariant
            i <= v.len(),
            r@ == spec_sort(v@.take(i as int)),
            sorted(r@),
        decreases v.len() - i,
    {
        assert(v@.take(i + 1).drop_last() =~= v@.take(i as int));
        insert_id(&mut r, v[i]);
        i += 1;
    }
    assert(v@.take(v.len() as int) =~= v@);
    r
}

/// Removing an id that a sorted list does not hold changes nothing; removing
/// one that it holds takes out exactly one occurrence.
pub proof fn lemma_remove_effect(s: Seq<u64>, x: u64)
    requires
        sorted(s),
    ensures
        !s.contains(x) ==> spec_remove(s, x) == s,
        s.contains(x) ==> spec_remove(s, x).len() == s.len() - 1 && exists|k: int|
            0 <= k < s.len() && s[k] == x && spec_remove(s, x) == #[trigger] s.remove(k),
{
    lemma_has_is_contains(s, x);
    lemma_insert_point_parts(s, x);
    if s.contains(x) {
        let k = insert_point(s, x) - 1;
        assert(spec_remove(s, x) == s.remove(k));
    }
}

} // verus!
