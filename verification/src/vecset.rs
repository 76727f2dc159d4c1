//! Vectors that stand for finite sets: each member occurs once, and
//! membership is decided by comparing views.

use vstd::prelude::*;
use vstd::std_specs::cmp::PartialEqSpec;

verus! {

/// The set of views of the members of `s`.
pub open spec fn elements<T: View>(s: Seq<T>) -> Set<T::V> {
    Set::new(|x: T::V| exists|i: int| 0 <= i < s.len() && #[trigger] s[i]@ == x)
}

/// No two members of `s` have the same view.
pub open spec fn distinct<T: View>(s: Seq<T>) -> bool {
    forall|i: int, j: int| 0 <= i < j < s.len() ==> s[i]@ != s[j]@
}

/// `==` on `T` compares views.
pub open spec fn eq_by_view<T: View + PartialEq>() -> bool {
    &&& T::obeys_eq_spec()
    &&& forall|a: T, b: T| #[trigger] a.eq_spec(&b) == (a@ == b@)
}

/// A sequence without members stands for the empty set.
pub proof fn lemma_elements_empty<T: View>(s: Seq<T>)
    requires
        s.len() == 0,
    ensures
        elements(s) == Set::<T::V>::empty(),
{
    assert(elements(s) =~= Set::<T::V>::empty());
}

/// Appending a member adds its view to the set.
pub proof fn lemma_elements_push<T: View>(s: Seq<T>, x: T)
    ensures
        elements(s.push(x)) == elements(s).insert(x@),
{
    let t = s.push(x);
    assert forall|v: T::V| elements(t).contains(v) == elements(s).insert(x@).contains(v) by {
        if elements(t).contains(v) {
            let i = choose|i: int| 0 <= i < t.len() && #[trigger] t[i]@ == v;
            if i < s.len() {
                assert(s[i]@ == v);
            }
        }
        if elements(s).contains(v) {
            let i = choose|i: int| 0 <= i < s.len() && #[trigger] s[i]@ == v;
            assert(t[i]@ == v);
        }
        if v == x@ {
            assert(t[s.len() as int]@ == v);
        }
    }
    assert(elements(t) =~= elements(s).insert(x@));
}

/// Every member's view is in the set.
pub proof fn lemma_elements_member<T: View>(s: Seq<T>, i: int)
    requires
        0 <= i < s.len(),
    ensures
        elements(s).contains(s[i]@),
{
}

/// The set of a duplicate-free sequence has as many members as the
/// sequence.
pub proof fn lemma_elements_len<T: View>(s: Seq<T>)
    requires
        distinct(s),
    ensures
        elements(s).finite(),
        elements(s).len() == s.len(),
    decreases s.len(),
{
    if s.len() == 0 {
        lemma_elements_empty(s);
    } else {
        let init = s.drop_last();
        let last = s.last();
        lemma_elements_len(init);
        assert(s =~= init.push(last));
        lemma_elements_push(init, last);
        if elements(init).contains(last@) {
            let i = choose|i: int| 0 <= i < init.len() && #[trigger] init[i]@ == last@;
            assert(s[i]@ == s[s.len() - 1]@);
        }
    }
}

/// Index of the member of `v` whose view is that of `x`.
pub(crate) fn find<T: View + PartialEq>(v: &Vec<T>, x: &T) -> (r: Option<usize>)
    requires
        eq_by_view::<T>(),
    ensures
        match r {
            Some(i) => i < v.len() && v@[i as int]@ == x@,
            None => !elements(v@).contains(x@),
        },
{
    let mut i: usize = 0;
    while i < v.len()
        invariant
            i <= v.len(),
            eq_by_view::<T>(),
            forall|j: int| 0 <= j < i ==> v@[j]@ != x@,
        decreases v.len() - i,
    {
        if v[i] == *x {
            return Some(i);
        }
        i += 1;
    }
    None
}

/// Tells whether no two members of `v` have the same view.
pub(crate) fn all_distinct<T: View + PartialEq>(v: &Vec<T>) -> (r: bool)
    requires
        eq_by_view::<T>(),
    ensures
        r == distinct(v@),
{
    let mut j: usize = 0;
    while j < v.len()
        invariant
            j <= v.len(),
            eq_by_view::<T>(),
            forall|a: int, b: int| 0 <= a < b < j ==> v@[a]@ != v@[b]@,
        decreases v.len() - j,
    {
        let mut i: usize = 0;
        while i < j
            invariant
                i <= j < v.len(),
                eq_by_view::<T>(),
                forall|a: int| 0 <= a < i ==> v@[a]@ != v@[j as int]@,
            decreases j - i,
        {
            if v[i] == v[j] {
                return false;
            }
            i += 1;
        }
        j += 1;
    }
    true
}

/// Adds `x` unless a member with the same view is there already.
pub(crate) fn insert<T: View + PartialEq>(v: &mut Vec<T>, x: T) -> (added: bool)
    requires
        eq_by_view::<T>(),
        distinct(old(v)@),
    ensures
        distinct(final(v)@),
        elements(final(v)@) == elements(old(v)@).insert(x@),
        added == !elements(old(v)@).contains(x@),
        added ==> final(v)@ == old(v)@.push(x),
        !added ==> final(v)@ == old(v)@,
{
    match find(v, &x) {
        Some(i) => {
            proof {
                lemma_elements_member(v@, i as int);
                assert(elements(v@) =~= elements(v@).insert(x@));
            }
            false
        },
        None => {
            proof {
                lemma_elements_push(v@, x);
                assert forall|i: int| 0 <= i < v@.len() implies v@[i]@ != x@ by {
                    lemma_elements_member(v@, i);
                }
            }
            v.push(x);
            true
        },
    }
}

/// Takes out the member whose view is that of `x`, if there is one.
pub(crate) fn remove<T: View + PartialEq>(v: &mut Vec<T>, x: &T) -> (removed: bool)
    requires
        eq_by_view::<T>(),
        distinct(old(v)@),
    ensures
        distinct(final(v)@),
        elements(final(v)@) == elements(old(v)@).remove(x@),
        removed == elements(old(v)@).contains(x@),
        !removed ==> final(v)@ == old(v)@,
        final(v)@.len() <= old(v)@.len(),
{
    match find(v, x) {
        Some(i) => {
            let ghost before = v@;
            v.remove(i);
            proof {
                let after = v@;
                assert(after =~= before.remove(i as int));
                assert forall|y: T::V| elements(after).contains(y) == elements(before).remove(
                    x@,
                ).contains(y) by {
                    if elements(after).contains(y) {
                        let k = choose|k: int| 0 <= k < after.len() && #[trigger] after[k]@ == y;
                        if k < i {
                            assert(before[k]@ == y);
                        } else {
                            assert(before[k + 1]@ == y);
                        }
                    }
                    if elements(before).contains(y) && y != x@ {
                        let k = choose|k: int| 0 <= k < before.len() && #[trigger] before[k]@ == y;
                        if k < i {
                            assert(after[k]@ == y);
                        } else {
                            assert(after[k - 1]@ == y);
                        }
                    }
                }
                assert(elements(after) =~= elements(before).remove(x@));
                lemma_elements_member(before, i as int);
            }
            true
        },
        None => {
            proof {
                assert(elements(v@) =~= elements(v@).remove(x@));
            }
            false
        },
    }
}

} // verus!
