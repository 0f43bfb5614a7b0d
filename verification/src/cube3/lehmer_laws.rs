//! Every arrangement has its number, and no other arrangement has it:
//! taking the number of an arrangement and then the arrangement with that
//! number gives the arrangement back.
use crate::arrange::in_range;
use crate::cube3::lehmer::{
    bump,
    count_below,
    is_arrangement,
    lemma_arrangement_range,
    lemma_factorial_positive,
    lemma_rank_bound,
    rank,
    unrank,
};
use crate::math::factorial;
use crate::perm::distinct;
use vstd::arithmetic::div_mod::lemma_fundamental_div_mod_converse;
use vstd::prelude::*;

verus! {

/// The entries above `d` moved down by one, which closes the gap that `d` left.
pub open spec fn unbump(s: Seq<int>, d: int) -> Seq<int> {
    Seq::new(
        s.len(),
        |j: int|
            if s[j] > d {
                s[j] - 1
            } else {
                s[j]
            },
    )
}

/// Taking an entry out takes it out of the count of the entries below a value.
pub proof fn lemma_count_below_remove(s: Seq<int>, p: int, v: int)
    requires
        0 <= p < s.len(),
    ensures
        count_below(s, v) == count_below(s.remove(p), v) + if s[p] < v {
            1int
        } else {
            0int
        },
    decreases s.len(),
{
    if p == 0 {
        assert(s.remove(0) =~= s.drop_first());
    } else {
        assert(s.remove(p).drop_first() =~= s.drop_first().remove(p - 1));
        assert(s.remove(p)[0] == s[0]);
        lemma_count_below_remove(s.drop_first(), p - 1, v);
    }
}

/// If every entry is below a value, all of them are counted.
pub proof fn lemma_count_below_all(s: Seq<int>, v: int)
    requires
        forall|i: int| 0 <= i < s.len() ==> s[i] < v,
    ensures
        count_below(s, v) == s.len(),
    decreases s.len(),
{
    if s.len() > 0 {
        lemma_count_below_all(s.drop_first(), v);
    }
}

/// Values that are all different and below `n` are at most `n` values.
pub proof fn lemma_no_injection(s: Seq<int>, n: nat)
    requires
        distinct(s),
        forall|i: int| 0 <= i < s.len() ==> 0 <= #[trigger] s[i] < n,
    ensures
        s.len() <= n,
    decreases n,
{
    if n == 0 {
        if s.len() > 0 {
            let first = s[0];
            assert(0 <= first < n);
        }
    } else {
        if exists|p: int| 0 <= p < s.len() && s[p] == n - 1 {
            let p = choose|p: int| 0 <= p < s.len() && s[p] == n - 1;
            let t = s.remove(p);
            assert forall|i: int| 0 <= i < t.len() implies 0 <= #[trigger] t[i] < n - 1 by {
                let from = if i < p {
                    i
                } else {
                    i + 1
                };
                assert(t[i] == s[from]);
                assert(0 <= s[from] < n);
                assert(s[from] != s[p]);
            }
            assert forall|a: int, b: int|
                0 <= a < t.len() && 0 <= b < t.len() && a != b implies t[a] != t[b] by {
                let fa = if a < p {
                    a
                } else {
                    a + 1
                };
                let fb = if b < p {
                    b
                } else {
                    b + 1
                };
                assert(t[a] == s[fa] && t[b] == s[fb]);
            }
            lemma_no_injection(t, (n - 1) as nat);
        } else {
            assert forall|i: int| 0 <= i < s.len() implies 0 <= #[trigger] s[i] < n - 1 by {
                assert(0 <= s[i] < n);
            }
            lemma_no_injection(s, (n - 1) as nat);
        }
    }
}

/// As many different values as there are values below `n`, all below `n`,
/// are an arrangement: each of `0 .. n` is there once.
pub proof fn lemma_distinct_is_arrangement(s: Seq<int>)
    requires
        distinct(s),
        in_range(s),
    ensures
        is_arrangement(s),
    decreases s.len(),
{
    let n = s.len() as int;
    if n == 0 {
        assert forall|v: int| 0 <= v <= s.len() implies #[trigger] count_below(s, v) == v by {}
    } else {
        if !exists|p: int| 0 <= p < s.len() && s[p] == n - 1 {
            assert forall|i: int| 0 <= i < s.len() implies 0 <= #[trigger] s[i] < n - 1 by {
                assert(0 <= s[i] < n);
            }
            lemma_no_injection(s, (n - 1) as nat);
        }
        let p = choose|p: int| 0 <= p < s.len() && s[p] == n - 1;
        let t = s.remove(p);
        assert forall|i: int| 0 <= i < t.len() implies 0 <= #[trigger] t[i] < t.len() by {
            let from = if i < p {
                i
            } else {
                i + 1
            };
            assert(t[i] == s[from]);
            assert(0 <= s[from] < n);
            assert(s[from] != s[p]);
        }
        assert forall|a: int, b: int|
            0 <= a < t.len() && 0 <= b < t.len() && a != b implies t[a] != t[b] by {
            let fa = if a < p {
                a
            } else {
                a + 1
            };
            let fb = if b < p {
                b
            } else {
                b + 1
            };
            assert(t[a] == s[fa] && t[b] == s[fb]);
        }
        lemma_distinct_is_arrangement(t);
        assert forall|v: int| 0 <= v <= s.len() implies #[trigger] count_below(s, v) == v by {
            lemma_count_below_remove(s, p, v);
            if v == n {
                assert forall|i: int| 0 <= i < t.len() implies t[i] < v by {
                    assert(0 <= t[i] < t.len());
                }
                lemma_count_below_all(t, v);
            } else {
                assert(count_below(t, v) == v);
            }
        }
    }
}

/// An arrangement has no entry twice.
pub proof fn lemma_arrangement_distinct(s: Seq<int>, i: int, j: int)
    requires
        is_arrangement(s),
        0 <= i < j < s.len(),
    ensures
        s[i] != s[j],
{
    if s[i] == s[j] {
        let v = s[i];
        lemma_arrangement_range(s, i);
        lemma_count_below_remove(s, j, v);
        lemma_count_below_remove(s, j, v + 1);
        let t = s.remove(j);
        assert(t[i] == s[i]);
        lemma_count_below_remove(t, i, v);
        lemma_count_below_remove(t, i, v + 1);
        lemma_count_below_grows(t.remove(i), v);
        assert(count_below(s, v) == v);
        assert(count_below(s, v + 1) == v + 1);
    }
}

/// No fewer entries are below a greater value.
pub proof fn lemma_count_below_grows(s: Seq<int>, v: int)
    ensures
        count_below(s, v) <= count_below(s, v + 1),
    decreases s.len(),
{
    if s.len() > 0 {
        lemma_count_below_grows(s.drop_first(), v);
    }
}

/// Closing the gap that `d` left changes what is below a value as it changes the value.
proof fn lemma_count_below_unbump(s: Seq<int>, d: int, v: int)
    requires
        forall|i: int| 0 <= i < s.len() ==> s[i] != d,
    ensures
        v <= d ==> count_below(unbump(s, d), v) == count_below(s, v),
        v > d ==> count_below(unbump(s, d), v) == count_below(s, v + 1),
    decreases s.len(),
{
    if s.len() > 0 {
        assert(unbump(s, d).drop_first() =~= unbump(s.drop_first(), d));
        assert forall|i: int| 0 <= i < s.drop_first().len() implies s.drop_first()[i] != d by {
            assert(s.drop_first()[i] == s[i + 1]);
        }
        lemma_count_below_unbump(s.drop_first(), d, v);
        assert(s[0] != d);
    }
}

/// As many entries are below a value in one sequence as in another, if the
/// entries compare with the value in the same way.
pub proof fn lemma_count_below_alike(s: Seq<int>, v: int, t: Seq<int>, w: int)
    requires
        s.len() == t.len(),
        forall|j: int| 0 <= j < s.len() ==> (s[j] < v) == (t[j] < w),
    ensures
        count_below(s, v) == count_below(t, w),
    decreases s.len(),
{
    if s.len() > 0 {
        lemma_count_below_alike(s.drop_first(), v, t.drop_first(), w);
    }
}

/// Two arrangements whose entries are in the same order have the same number.
pub proof fn lemma_rank_alike(s: Seq<int>, t: Seq<int>)
    requires
        s.len() == t.len(),
        forall|i: int, j: int|
            0 <= i < s.len() && 0 <= j < s.len() ==> (s[i] < s[j]) == (t[i] < t[j]),
    ensures
        rank(s) == rank(t),
    decreases s.len(),
{
    if s.len() > 0 {
        let s1 = s.drop_first();
        let t1 = t.drop_first();
        assert forall|i: int, j: int| 0 <= i < s1.len() && 0 <= j < s1.len() implies (s1[i]
            < s1[j]) == (t1[i] < t1[j]) by {
            assert(s1[i] == s[i + 1] && s1[j] == s[j + 1]);
            assert(t1[i] == t[i + 1] && t1[j] == t[j + 1]);
        }
        lemma_rank_alike(s1, t1);
        assert forall|j: int| 0 <= j < s1.len() implies (s1[j] < s[0]) == (t1[j] < t[0]) by {
            assert(s1[j] == s[j + 1] && t1[j] == t[j + 1]);
        }
        lemma_count_below_alike(s1, s[0], t1, t[0]);
    }
}

/// The arrangement that has the number of an arrangement is that arrangement.
pub proof fn lemma_unrank_of_rank(s: Seq<int>)
    requires
        is_arrangement(s),
    ensures
        0 <= rank(s) < factorial(s.len()),
        unrank(rank(s), s.len()) == s,
    decreases s.len(),
{
    lemma_rank_bound(s);
    let n = s.len();
    if n == 0 {
        assert(unrank(rank(s), 0) =~= s);
    } else {
        let first = s[0];
        let tail = s.drop_first();
        let closed = unbump(tail, first);
        let weight = factorial((n - 1) as nat) as int;
        lemma_arrangement_range(s, 0);
        assert forall|i: int| 0 <= i < tail.len() implies tail[i] != first by {
            lemma_arrangement_distinct(s, 0, i + 1);
        }
        assert(count_below(s, first) == first);
        assert(count_below(tail, first) == first);
        assert forall|v: int| 0 <= v <= closed.len() implies #[trigger] count_below(closed, v)
            == v by {
            lemma_count_below_unbump(tail, first, v);
            if v <= first {
                assert(count_below(s, v) == v);
            } else {
                assert(count_below(s, v + 1) == v + 1);
            }
        }
        assert forall|i: int, j: int| 0 <= i < tail.len() && 0 <= j < tail.len() implies (tail[i]
            < tail[j]) == (closed[i] < closed[j]) by {
            assert(tail[i] != first && tail[j] != first);
        }
        lemma_rank_alike(tail, closed);
        lemma_unrank_of_rank(closed);
        lemma_rank_bound(closed);
        lemma_factorial_positive((n - 1) as nat);
        assert(first * weight == weight * first) by (nonlinear_arith);
        lemma_fundamental_div_mod_converse(rank(s), weight, first, rank(closed));
        assert(bump(closed, first) =~= tail);
        assert(unrank(rank(s), n) =~= seq![first] + bump(unrank(rank(closed), (n - 1) as nat), first));
        assert(seq![first] + tail =~= s);
    }
}

} // verus!
