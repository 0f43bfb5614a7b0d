//! The parity of an arrangement of pieces.
//!
//! An arrangement is a sequence of distinct integers: the piece that is in
//! each slot. Its parity is that of its number of inversions, the pairs of
//! slots whose pieces are out of order. Swapping two pieces changes it.
use vstd::prelude::*;

verus! {

/// The number of entries of `s` that are greater than `v`.
pub open spec fn count_above(s: Seq<int>, v: int) -> int
    decreases s.len(),
{
    if s.len() == 0 {
        0
    } else {
        count_above(s.drop_last(), v) + if s.last() > v {
            1int
        } else {
            0int
        }
    }
}

/// The number of pairs of slots `i < j` with `s[i] > s[j]`.
pub open spec fn inversions(s: Seq<int>) -> int
    decreases s.len(),
{
    if s.len() == 0 {
        0
    } else {
        inversions(s.drop_last()) + count_above(s.drop_last(), s.last())
    }
}

/// The parity of an arrangement: 0 if it is even, 1 if it is odd.
pub open spec fn parity(s: Seq<int>) -> int {
    inversions(s) % 2
}

/// No two slots hold the same piece.
pub open spec fn distinct(s: Seq<int>) -> bool {
    forall|i: int, j: int| 0 <= i < s.len() && 0 <= j < s.len() && i != j ==> s[i] != s[j]
}

/// The arrangement with the pieces of two slots swapped.
pub open spec fn swapped(s: Seq<int>, i: int, j: int) -> Seq<int> {
    s.update(i, s[j]).update(j, s[i])
}

/// The arrangement in which every piece is in its own slot.
pub open spec fn identity(n: nat) -> Seq<int> {
    Seq::new(n, |i: int| i)
}

/// Swapping two neighbours does not change how many entries are above a value.
proof fn lemma_count_above_adjacent(s: Seq<int>, k: int, v: int)
    requires
        0 <= k,
        k + 1 < s.len(),
    ensures
        count_above(swapped(s, k, k + 1), v) == count_above(s, v),
    decreases s.len(),
{
    let t = swapped(s, k, k + 1);
    if k + 1 == s.len() - 1 {
        let p = s.drop_last().drop_last();
        assert(t.drop_last().drop_last() =~= p);
        assert(t.last() == s[k]);
        assert(t.drop_last().last() == s[k + 1]);
        assert(s.drop_last().last() == s[k]);
        assert(count_above(s.drop_last(), v) == count_above(p, v) + if s[k] > v {
            1int
        } else {
            0int
        });
        assert(count_above(t.drop_last(), v) == count_above(p, v) + if s[k + 1] > v {
            1int
        } else {
            0int
        });
    } else {
        assert(t.drop_last() =~= swapped(s.drop_last(), k, k + 1));
        assert(t.last() == s.last());
        lemma_count_above_adjacent(s.drop_last(), k, v);
    }
}

/// Swapping two neighbours that differ changes the number of inversions by one.
proof fn lemma_inversions_adjacent(s: Seq<int>, k: int)
    requires
        0 <= k,
        k + 1 < s.len(),
        s[k] != s[k + 1],
    ensures
        inversions(swapped(s, k, k + 1)) == inversions(s) + if s[k] < s[k + 1] {
            1int
        } else {
            -1int
        },
    decreases s.len(),
{
    let t = swapped(s, k, k + 1);
    if k + 1 == s.len() - 1 {
        let p = s.drop_last().drop_last();
        let a = s[k];
        let b = s[k + 1];
        assert(t.drop_last().drop_last() =~= p);
        assert(t.last() == a);
        assert(t.drop_last().last() == b);
        assert(s.drop_last().last() == a);
        assert(s.last() == b);
        assert(inversions(s) == inversions(s.drop_last()) + count_above(s.drop_last(), b));
        assert(inversions(s.drop_last()) == inversions(p) + count_above(p, a));
        assert(count_above(s.drop_last(), b) == count_above(p, b) + if a > b {
            1int
        } else {
            0int
        });
        assert(inversions(t) == inversions(t.drop_last()) + count_above(t.drop_last(), a));
        assert(inversions(t.drop_last()) == inversions(p) + count_above(p, b));
        assert(count_above(t.drop_last(), a) == count_above(p, a) + if b > a {
            1int
        } else {
            0int
        });
    } else {
        assert(t.drop_last() =~= swapped(s.drop_last(), k, k + 1));
        assert(t.last() == s.last());
        lemma_inversions_adjacent(s.drop_last(), k);
        lemma_count_above_adjacent(s.drop_last(), k, s.last());
    }
}

/// Swapping two pieces keeps the pieces apart.
pub proof fn lemma_swapped_distinct(s: Seq<int>, i: int, j: int)
    requires
        distinct(s),
        0 <= i < s.len(),
        0 <= j < s.len(),
    ensures
        distinct(swapped(s, i, j)),
        swapped(s, i, j).len() == s.len(),
{
    let t = swapped(s, i, j);
    assert forall|a: int, b: int| 0 <= a < t.len() && 0 <= b < t.len() && a != b implies t[a]
        != t[b] by {
        let sa = if a == i {
            j
        } else if a == j {
            i
        } else {
            a
        };
        let sb = if b == i {
            j
        } else if b == j {
            i
        } else {
            b
        };
        assert(t[a] == s[sa]);
        assert(t[b] == s[sb]);
        assert(sa != sb);
    }
}

/// Swapping the pieces of two slots, the first before the second, changes the parity.
proof fn lemma_swap_ordered(s: Seq<int>, i: int, j: int)
    requires
        distinct(s),
        0 <= i < j < s.len(),
    ensures
        parity(swapped(s, i, j)) == 1 - parity(s),
    decreases j - i,
{
    if j == i + 1 {
        lemma_inversions_adjacent(s, i);
    } else {
        let s1 = swapped(s, i, i + 1);
        let s2 = swapped(s1, i + 1, j);
        let s3 = swapped(s2, i, i + 1);
        lemma_swapped_distinct(s, i, i + 1);
        lemma_swapped_distinct(s1, i + 1, j);
        assert(s3 =~= swapped(s, i, j));
        lemma_inversions_adjacent(s, i);
        lemma_swap_ordered(s1, i + 1, j);
        assert(s2[i] != s2[i + 1]);
        lemma_inversions_adjacent(s2, i);
    }
}

/// Swapping the pieces of two slots changes the parity of the arrangement.
pub proof fn lemma_swap_parity(s: Seq<int>, i: int, j: int)
    requires
        distinct(s),
        0 <= i < s.len(),
        0 <= j < s.len(),
        i != j,
    ensures
        parity(swapped(s, i, j)) == 1 - parity(s),
        distinct(swapped(s, i, j)),
{
    lemma_swapped_distinct(s, i, j);
    if i < j {
        lemma_swap_ordered(s, i, j);
    } else {
        assert(swapped(s, i, j) =~= swapped(s, j, i));
        lemma_swap_ordered(s, j, i);
    }
}

/// Passing four pieces round a cycle of four slots changes the parity: `t` is
/// `s` with the piece of `a1` in `a0`, that of `a2` in `a1`, that of `a3` in
/// `a2` and that of `a0` in `a3`.
pub proof fn lemma_cycle4_parity(s: Seq<int>, t: Seq<int>, a0: int, a1: int, a2: int, a3: int)
    requires
        distinct(s),
        t.len() == s.len(),
        0 <= a0 < s.len(),
        0 <= a1 < s.len(),
        0 <= a2 < s.len(),
        0 <= a3 < s.len(),
        a0 != a1 && a0 != a2 && a0 != a3 && a1 != a2 && a1 != a3 && a2 != a3,
        t[a0] == s[a1],
        t[a1] == s[a2],
        t[a2] == s[a3],
        t[a3] == s[a0],
        forall|i: int|
            0 <= i < s.len() && i != a0 && i != a1 && i != a2 && i != a3 ==> t[i] == s[i],
    ensures
        parity(t) == 1 - parity(s),
        distinct(t),
{
    let s1 = swapped(s, a0, a1);
    lemma_swap_parity(s, a0, a1);
    let s2 = swapped(s1, a1, a2);
    lemma_swap_parity(s1, a1, a2);
    let s3 = swapped(s2, a2, a3);
    lemma_swap_parity(s2, a2, a3);
    assert(s3 =~= t);
}

/// Swapping two pairs of pieces keeps the parity: `t` is `s` with the pieces
/// of `a0` and `a1` swapped, and those of `a2` and `a3`.
pub proof fn lemma_swap2_parity(s: Seq<int>, t: Seq<int>, a0: int, a1: int, a2: int, a3: int)
    requires
        distinct(s),
        t.len() == s.len(),
        0 <= a0 < s.len(),
        0 <= a1 < s.len(),
        0 <= a2 < s.len(),
        0 <= a3 < s.len(),
        a0 != a1 && a0 != a2 && a0 != a3 && a1 != a2 && a1 != a3 && a2 != a3,
        t[a0] == s[a1],
        t[a1] == s[a0],
        t[a2] == s[a3],
        t[a3] == s[a2],
        forall|i: int|
            0 <= i < s.len() && i != a0 && i != a1 && i != a2 && i != a3 ==> t[i] == s[i],
    ensures
        parity(t) == parity(s),
        distinct(t),
{
    let s1 = swapped(s, a0, a1);
    lemma_swap_parity(s, a0, a1);
    let s2 = swapped(s1, a2, a3);
    lemma_swap_parity(s1, a2, a3);
    assert(s2 =~= t);
}

/// The arrangement with every piece in its own slot has no inversion.
pub proof fn lemma_identity_even(n: nat)
    ensures
        inversions(identity(n)) == 0,
        distinct(identity(n)),
    decreases n,
{
    if n > 0 {
        let s = identity(n);
        assert(s.drop_last() =~= identity((n - 1) as nat));
        lemma_identity_even((n - 1) as nat);
        lemma_count_above_bounded(s.drop_last(), n - 1);
    }
}

/// No entry is above a value that bounds them all.
proof fn lemma_count_above_bounded(s: Seq<int>, v: int)
    requires
        forall|i: int| 0 <= i < s.len() ==> s[i] <= v,
    ensures
        count_above(s, v) == 0,
    decreases s.len(),
{
    if s.len() > 0 {
        lemma_count_above_bounded(s.drop_last(), v);
    }
}

} // verus!
