//! A stable sort of ranked entries.

use crate::order::{name_before, name_precedes, ranks_before};
use vstd::prelude::*;

verus! {

/// An entry that a ranking orders: by weight first, by name within a weight.
pub trait Ranked {
    /// The relevance weight; lower ranks first.
    spec fn rank_weight(&self) -> nat;

    /// The name that orders entries of one weight.
    spec fn rank_name(&self) -> Seq<char>;

    fn weight(&self) -> (w: usize)
        ensures
            w == self.rank_weight(),
    ;

    fn name(&self) -> (n: &str)
        ensures
            n@ == self.rank_name(),
    ;
}

/// Whether `a` ranks strictly before `b`.
pub open spec fn before<T: Ranked>(a: &T, b: &T) -> bool {
    ranks_before(a.rank_weight(), a.rank_name(), b.rank_weight(), b.rank_name())
}

/// Whether `a` may stand directly in front of `b` in a ranking: `a` ranks
/// before `b`, or at least `b` does not rank before `a`.
pub open spec fn in_order<T: Ranked>(a: &T, b: &T) -> bool {
    before(a, b) || !before(b, a)
}

/// Whether every entry of `s` may stand in front of its successor.
pub open spec fn ranked<T: Ranked>(s: Seq<T>) -> bool {
    forall|i: int| #![trigger s[i]] 0 <= i < s.len() - 1 ==> in_order(&s[i], &s[i + 1])
}

/// Whether `after` holds the entries of `before` in another order, and
/// `origin` gives for each place of `after` the place in `before` that its
/// entry came from, no place twice.
pub open spec fn rearranged<T>(before: Seq<T>, after: Seq<T>, origin: Seq<int>) -> bool {
    &&& origin.len() == after.len()
    &&& before.len() == after.len()
    &&& forall|i: int|
        #![trigger origin[i]]
        0 <= i < origin.len() ==> 0 <= origin[i] < before.len() && after[i] == before[origin[i]]
    &&& forall|i: int, j: int|
        #![trigger origin[i], origin[j]]
        0 <= i < j < origin.len() ==> origin[i] != origin[j]
}

/// Whether two entries of `after` have changed places, against where they
/// came from, only where the one now in front ranks strictly before the other.
pub open spec fn keeps_ties<T: Ranked>(after: Seq<T>, origin: Seq<int>) -> bool {
    forall|i: int, j: int|
        #![trigger origin[i], origin[j]]
        0 <= i < j < after.len() && origin[i] > origin[j] ==> before(&after[i], &after[j])
}

/// Where the entry at place `k` stood before the entry at place `i` was
/// taken out and put back at place `p`, for `p <= i`.
spec fn place_before_move(k: int, p: int, i: int) -> int {
    if k < p {
        k
    } else if k == p {
        i
    } else if k <= i {
        k - 1
    } else {
        k
    }
}

/// Whether `a` ranks strictly before `b`.
pub fn precedes<T: Ranked>(a: &T, b: &T) -> (r: bool)
    ensures
        r == before(a, b),
{
    let wa: usize = a.weight();
    let wb: usize = b.weight();
    if wa < wb {
        true
    } else if wa > wb {
        false
    } else {
        name_precedes(a.name(), b.name())
    }
}

/// Sorts `entries` by weight, and by name within a weight. The sort is
/// stable: two entries change places only where the one that ends in front
/// ranks strictly before the other.
pub fn sort_ranked<T: Ranked>(entries: &mut Vec<T>)
    ensures
        final(entries)@.to_multiset() == old(entries)@.to_multiset(),
        final(entries)@.len() == old(entries)@.len(),
        ranked(final(entries)@),
        exists|origin: Seq<int>|
            #![trigger keeps_ties(final(entries)@, origin)]
            rearranged(old(entries)@, final(entries)@, origin) && keeps_ties(
                final(entries)@,
                origin,
            ),
{
    let n: usize = entries.len();
    let ghost mut origin: Seq<int> = Seq::new(n as nat, |k: int| k);
    let mut i: usize = 1;
    while i < n
        invariant
            1 <= i,
            entries@.len() == n,
            rearranged(old(entries)@, entries@, origin),
            forall|k: int| #![trigger origin[k]] i <= k < n ==> origin[k] == k,
            forall|k: int| #![trigger origin[k]] 0 <= k < i && k < n ==> origin[k] < i,
            forall|a: int, b: int|
                #![trigger origin[a], origin[b]]
                0 <= a < b < i && b < n && origin[a] > origin[b] ==> before(
                    &entries@[a],
                    &entries@[b],
                ),
            entries@.to_multiset() == old(entries)@.to_multiset(),
            forall|k: int|
                #![trigger entries@[k]]
                0 <= k < i - 1 && k < n - 1 ==> in_order(&entries@[k], &entries@[k + 1]),
        decreases n - i,
    {
        let ghost start = entries@;
        let x = entries.remove(i);
        let ghost rest = entries@;
        let mut p: usize = i;
        while p > 0 && precedes(&x, &entries[p - 1])
            invariant
                p <= i,
                i < n,
                entries@ == rest,
                rest.len() == n - 1,
                forall|k: int| #![trigger rest[k]] p <= k < i ==> before(&x, &rest[k]),
            decreases p,
        {
            p = p - 1;
        }
        entries.insert(p, x);
        proof {
            let out = entries@;
            let moved = origin.remove(i as int).insert(p as int, i as int);
            assert forall|k: int| 0 <= k < n implies #[trigger] moved[k] == origin[place_before_move(
                k,
                p as int,
                i as int,
            )] && out[k] == start[place_before_move(k, p as int, i as int)] by {
                if k > p {
                    assert(out[k] == rest[k - 1]);
                    assert(moved[k] == origin.remove(i as int)[k - 1]);
                }
            }
            assert forall|a: int, b: int|
                #![trigger moved[a], moved[b]]
                0 <= a < b < i + 1 && b < n && moved[a] > moved[b] implies before(
                &out[a],
                &out[b],
            ) by {
                let a0 = place_before_move(a, p as int, i as int);
                let b0 = place_before_move(b, p as int, i as int);
                assert(moved[a] == origin[a0] && moved[b] == origin[b0]);
                if a == p {
                    assert(out[b] == rest[b - 1]);
                } else if b == p {
                    assert(origin[a0] < i);
                } else {
                    assert(0 <= a0 < b0 < i);
                }
            }
            assert forall|a: int, b: int|
                #![trigger moved[a], moved[b]]
                0 <= a < b < n implies moved[a] != moved[b] by {
                let a0 = place_before_move(a, p as int, i as int);
                let b0 = place_before_move(b, p as int, i as int);
                assert(moved[a] == origin[a0] && moved[b] == origin[b0]);
                if a0 < b0 {
                    assert(origin[a0] != origin[b0]);
                } else {
                    assert(b0 < a0);
                    assert(origin[b0] != origin[a0]);
                }
            }
            origin = moved;
            assert(out.to_multiset() == start.to_multiset()) by {
                vstd::seq_lib::to_multiset_remove(start, i as int);
                vstd::seq_lib::to_multiset_insert(rest, p as int, x);
                assert(start.to_multiset().count(x) > 0) by {
                    start.to_multiset_ensures();
                    assert(start.contains(x));
                }
                assert(start.to_multiset().remove(x).insert(x) =~= start.to_multiset());
            }
            assert forall|k: int| #![trigger out[k]] 0 <= k < i && k < n - 1 implies in_order(
                &out[k],
                &out[k + 1],
            ) by {
                if k + 1 < p {
                    assert(out[k] == start[k] && out[k + 1] == start[k + 1]);
                } else if k + 1 == p {
                    assert(out[k] == rest[p - 1]);
                    assert(out[k + 1] == x);
                } else if k == p {
                    assert(out[k] == x);
                    assert(out[k + 1] == rest[p as int]);
                } else {
                    assert(out[k] == rest[k - 1] && out[k + 1] == rest[k]);
                    assert(rest[k - 1] == start[k - 1] && rest[k] == start[k]);
                }
            }
        }
        i = i + 1;
    }
    proof {
        assert(keeps_ties(entries@, origin));
    }
}

/// In a ranking the weights never fall: of two entries, the earlier one has
/// the lower or the same weight.
pub proof fn lemma_ranked_weights_ascend<T: Ranked>(s: Seq<T>, i: int, j: int)
    requires
        ranked(s),
        0 <= i <= j < s.len(),
    ensures
        s[i].rank_weight() <= s[j].rank_weight(),
    decreases j - i,
{
    if i < j {
        lemma_ranked_weights_ascend(s, i, j - 1);
        assert(in_order(&s[j - 1], &s[j - 1 + 1]));
    }
}

/// In a ranking, neighbours of one weight stand in name order: the earlier
/// name is before the later one, or at least the later is not before it.
pub proof fn lemma_ranked_names_in_order<T: Ranked>(s: Seq<T>, i: int)
    requires
        ranked(s),
        0 <= i < s.len() - 1,
        s[i].rank_weight() == s[i + 1].rank_weight(),
    ensures
        name_before(s[i].rank_name(), s[i + 1].rank_name()) || !name_before(
            s[i + 1].rank_name(),
            s[i].rank_name(),
        ),
{
    assert(in_order(&s[i], &s[i + 1]));
}

} // verus!
