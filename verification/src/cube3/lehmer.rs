//! Numbering the arrangements of `n` things from 0 to `n! - 1`.
//!
//! The number of an arrangement is read off its Lehmer code: for each entry,
//! how many of the later entries are smaller. The code of the first entry
//! is the most significant digit, in the base of the factorials.
use crate::math::{factorial, lemma_factorial_bound};
use vstd::arithmetic::div_mod::{
    lemma_div_denominator, lemma_fundamental_div_mod, lemma_fundamental_div_mod_converse,
    lemma_mod_breakdown, lemma_mod_mod,
};
use vstd::prelude::*;

verus! {

/// The number of entries of `s` that are smaller than `v`.
pub open spec fn count_below(s: Seq<int>, v: int) -> int
    decreases s.len(),
{
    if s.len() == 0 {
        0
    } else {
        (if s[0] < v {
            1int
        } else {
            0int
        }) + count_below(s.drop_first(), v)
    }
}

/// The number of an arrangement: its Lehmer code read in the base of the factorials.
pub open spec fn rank(s: Seq<int>) -> int
    decreases s.len(),
{
    if s.len() == 0 {
        0
    } else {
        count_below(s.drop_first(), s[0]) * factorial((s.len() - 1) as nat) + rank(s.drop_first())
    }
}

/// The entries from `d` on moved up by one, which makes room for `d`.
pub open spec fn bump(s: Seq<int>, d: int) -> Seq<int> {
    Seq::new(
        s.len(),
        |j: int|
            if s[j] >= d {
                s[j] + 1
            } else {
                s[j]
            },
    )
}

/// The arrangement of `0 .. m` whose number is `index`.
pub open spec fn unrank(index: int, m: nat) -> Seq<int>
    decreases m,
{
    if m == 0 {
        Seq::empty()
    } else {
        let weight = factorial((m - 1) as nat) as int;
        seq![index / weight] + bump(unrank(index % weight, (m - 1) as nat), index / weight)
    }
}

/// Whether `s` is an arrangement of `0 .. s.len()`: for every `v` up to the
/// length, just `v` of the entries are smaller than `v`.
pub open spec fn is_arrangement(s: Seq<int>) -> bool {
    forall|v: int| 0 <= v <= s.len() ==> #[trigger] count_below(s, v) == v
}

/// The integers that bytes hold.
pub open spec fn as_ints(bytes: Seq<u8>) -> Seq<int> {
    Seq::new(bytes.len(), |j: int| bytes[j] as int)
}

/// At most as many entries are below a value as there are entries.
pub proof fn lemma_count_below_bound(s: Seq<int>, v: int)
    ensures
        0 <= count_below(s, v) <= s.len(),
    decreases s.len(),
{
    if s.len() > 0 {
        lemma_count_below_bound(s.drop_first(), v);
    }
}

/// The number of an arrangement of `n` things is less than `n!`.
pub proof fn lemma_rank_bound(s: Seq<int>)
    ensures
        0 <= rank(s) < factorial(s.len()),
    decreases s.len(),
{
    if s.len() > 0 {
        let tail = s.drop_first();
        lemma_rank_bound(tail);
        lemma_count_below_bound(tail, s[0]);
        let c = count_below(tail, s[0]);
        let w = factorial(tail.len()) as int;
        let n = s.len() as int;
        assert(c * w + rank(tail) < n * w && 0 <= c * w) by (nonlinear_arith)
            requires
                0 <= c <= n - 1,
                0 <= rank(tail) < w,
        ;
    }
}

/// An entry of an arrangement is one of `0 .. n`: else too few or too many
/// entries would be below some value.
pub proof fn lemma_arrangement_range(s: Seq<int>, i: int)
    requires
        is_arrangement(s),
        0 <= i < s.len(),
    ensures
        0 <= s[i] < s.len(),
{
    lemma_count_below_entry(s, i, 0);
    lemma_count_below_entry(s, i, s.len() as int);
    assert(count_below(s, 0) == 0);
    assert(count_below(s, s.len() as int) == s.len());
}

/// An entry that is not below `v` is not counted, and one that is leaves
/// room for one entry less.
proof fn lemma_count_below_entry(s: Seq<int>, i: int, v: int)
    requires
        0 <= i < s.len(),
    ensures
        s[i] < v ==> count_below(s, v) >= 1,
        s[i] >= v ==> count_below(s, v) <= s.len() - 1,
    decreases s.len(),
{
    lemma_count_below_bound(s.drop_first(), v);
    if i > 0 {
        lemma_count_below_entry(s.drop_first(), i - 1, v);
    }
}

/// Making room for `d` changes what is below a value as it changes the value.
proof fn lemma_count_below_bump(s: Seq<int>, d: int, v: int)
    ensures
        v <= d ==> count_below(bump(s, d), v) == count_below(s, v),
        v > d ==> count_below(bump(s, d), v) == count_below(s, v - 1),
    decreases s.len(),
{
    if s.len() > 0 {
        assert(bump(s, d).drop_first() =~= bump(s.drop_first(), d));
        lemma_count_below_bump(s.drop_first(), d, v);
    }
}

/// Making room for `d` keeps the order of the entries, and so the number of
/// the arrangement.
proof fn lemma_rank_bump(s: Seq<int>, d: int)
    ensures
        rank(bump(s, d)) == rank(s),
    decreases s.len(),
{
    if s.len() > 0 {
        let tail = s.drop_first();
        assert(bump(s, d).drop_first() =~= bump(tail, d));
        lemma_rank_bump(tail, d);
        if s[0] >= d {
            lemma_count_below_bump(tail, d, s[0] + 1);
        } else {
            lemma_count_below_bump(tail, d, s[0]);
        }
    }
}

/// The arrangement with a given number is an arrangement, and has that number.
pub proof fn lemma_unrank(index: int, m: nat)
    requires
        0 <= index < factorial(m),
    ensures
        unrank(index, m).len() == m,
        is_arrangement(unrank(index, m)),
        rank(unrank(index, m)) == index,
    decreases m,
{
    if m > 0 {
        let weight = factorial((m - 1) as nat) as int;
        let d = index / weight;
        let rest = index % weight;
        lemma_factorial_positive((m - 1) as nat);
        lemma_fundamental_div_mod(index, weight);
        assert(0 <= d < m) by (nonlinear_arith)
            requires
                0 <= index < m * weight,
                weight > 0,
                d == index / weight,
        ;
        lemma_unrank(rest, (m - 1) as nat);
        let inner = unrank(rest, (m - 1) as nat);
        let tail = bump(inner, d);
        let s = unrank(index, m);
        assert(s =~= seq![d] + tail);
        assert(s.drop_first() =~= tail);
        assert forall|v: int| 0 <= v <= m implies #[trigger] count_below(s, v) == v by {
            lemma_count_below_bump(inner, d, v);
            if v > d {
                assert(count_below(inner, v - 1) == v - 1);
            } else {
                assert(count_below(inner, v) == v);
            }
        }
        lemma_count_below_bump(inner, d, d);
        assert(count_below(inner, d) == d);
        lemma_rank_bump(inner, d);
        assert(rank(s) == d * weight + rest);
        assert(d * weight == weight * d) by (nonlinear_arith);
    }
}

/// A factorial is at least 1.
pub proof fn lemma_factorial_positive(n: nat)
    ensures
        factorial(n) >= 1,
    decreases n,
{
    if n > 0 {
        lemma_factorial_positive((n - 1) as nat);
        assert(n * factorial((n - 1) as nat) >= 1) by (nonlinear_arith)
            requires
                n >= 1,
                factorial((n - 1) as nat) >= 1,
        ;
    }
}

/// The number of the arrangement that some bytes are in.
///
/// No more than twelve bytes, so that the number fits in 32 bits.
pub fn rank_of(values: &[u8]) -> (index: usize)
    requires
        values.len() <= 12,
    ensures
        index as int == rank(as_ints(values@)),
        index < factorial(values.len() as nat),
{
    let n = values.len();
    let ghost s = as_ints(values@);
    let mut index: usize = 0;
    let mut weight: usize = 1;
    let mut i: usize = n;
    proof {
        assert(s.subrange(n as int, n as int) =~= Seq::<int>::empty());
        lemma_factorial_bound(0);
    }
    while i > 0
        invariant
            i <= n <= 12,
            n == values.len(),
            s == as_ints(values@),
            index as int == rank(s.subrange(i as int, n as int)),
            weight as int == factorial((n - i) as nat),
        decreases i,
    {
        let slot = i - 1;
        let ghost tail = s.subrange(i as int, n as int);
        let ghost suffix = s.subrange(slot as int, n as int);
        // Count the later entries that are smaller.
        let mut below: usize = 0;
        let mut j: usize = n;
        proof {
            assert(s.subrange(n as int, n as int) =~= Seq::<int>::empty());
        }
        while j > i
            invariant
                i <= j <= n <= 12,
                slot == i - 1,
                n == values.len(),
                s == as_ints(values@),
                below as int == count_below(s.subrange(j as int, n as int), s[slot as int]),
                below <= n - j,
            decreases j,
        {
            j -= 1;
            proof {
                assert(s.subrange(j as int, n as int).drop_first() =~= s.subrange(
                    j + 1,
                    n as int,
                ));
            }
            if values[j] < values[slot] {
                below += 1;
            }
        }
        proof {
            assert(suffix.drop_first() =~= tail);
            assert(suffix[0] == s[slot as int]);
            lemma_rank_bound(suffix);
            lemma_rank_bound(tail);
            lemma_factorial_bound((n - slot) as nat);
            lemma_factorial_bound((n - i) as nat);
            assert(factorial((n - slot) as nat) == (n - slot) * factorial((n - i) as nat));
            assert(0 <= below * weight <= rank(suffix)) by (nonlinear_arith)
                requires
                    rank(suffix) == below * weight + rank(tail),
                    0 <= rank(tail),
                    0 <= below,
                    0 <= weight,
            ;
            assert(weight * (n - slot) == (n - slot) * weight) by (nonlinear_arith);
        }
        index = index + below * weight;
        weight = weight * (n - slot);
        i = slot;
    }
    proof {
        assert(s.subrange(0, n as int) =~= s);
        lemma_rank_bound(s);
    }
    index
}

/// The arrangement of `0 .. n` that has the number `index`.
///
/// No more than twelve things, so that the number fits in 32 bits.
pub fn arrangement_of(index: usize, n: usize) -> (values: Vec<u8>)
    requires
        n <= 12,
        index < factorial(n as nat),
    ensures
        as_ints(values@) == unrank(index as int, n as nat),
        values.len() == n,
        forall|j: int| 0 <= j < n ==> values[j] < n,
{
    let mut values: Vec<u8> = Vec::new();
    let mut fill: usize = 0;
    while fill < n
        invariant
            fill <= n,
            values.len() == fill,
        decreases n - fill,
    {
        values.push(0);
        fill += 1;
    }
    let mut rest: usize = index;
    let mut m: usize = 0;
    proof {
        lemma_factorial_bound(0);
        assert(as_ints(values@).subrange(n as int, n as int) =~= unrank(index as int % 1, 0));
    }
    // The last `m` entries are in place: they are the arrangement of `0 .. m`
    // with the number `index % m!`.
    while m < n
        invariant
            m <= n <= 12,
            values.len() == n,
            index < factorial(n as nat),
            rest as int == index as int / (factorial(m as nat) as int),
            as_ints(values@).subrange(n - m, n as int) == unrank(
                index as int % (factorial(m as nat) as int),
                m as nat,
            ),
        decreases n - m,
    {
        let slot = n - m - 1;
        let ghost weight = factorial(m as nat) as int;
        let ghost inner = as_ints(values@).subrange(n - m, n as int);
        proof {
            lemma_factorial_positive(m as nat);
            lemma_factorial_bound(m as nat);
            lemma_factorial_bound((m + 1) as nat);
            assert(factorial((m + 1) as nat) == (m + 1) * factorial(m as nat));
            lemma_div_denominator(index as int, weight, m + 1);
            lemma_mod_breakdown(index as int, weight, m + 1);
            lemma_mod_mod(index as int, weight, m + 1);
            lemma_fundamental_div_mod(index as int, weight);
            vstd::arithmetic::div_mod::lemma_mod_bound(index as int, weight);
            vstd::arithmetic::div_mod::lemma_mod_bound(rest as int, m + 1);
            lemma_unrank(index as int % weight, m as nat);
        }
        let d: usize = rest % (m + 1);
        let ghost scaled = index as int % (weight * (m + 1));
        proof {
            assert(scaled == weight * (rest as int % (m + 1)) + index as int % weight);
            assert(weight * (rest as int % (m + 1)) == (d as int) * weight) by (nonlinear_arith)
                requires
                    d as int == rest as int % (m + 1),
            ;
            assert forall|k: int| 0 <= k < m implies 0 <= #[trigger] inner[k] < m by {
                lemma_arrangement_range(inner, k);
            }
            lemma_fundamental_div_mod_converse(scaled, weight, d as int, index as int % weight);
            assert(scaled / weight == d);
            assert(scaled % weight == index as int % weight);
            assert(weight * (m + 1) == factorial((m + 1) as nat)) by (nonlinear_arith)
                requires
                    factorial((m + 1) as nat) == (m + 1) * factorial(m as nat),
                    weight == factorial(m as nat),
            ;
        }
        values[slot] = d as u8;
        let mut j: usize = slot + 1;
        while j < n
            invariant
                slot + 1 <= j <= n <= 12,
                slot == n - m - 1,
                values.len() == n,
                d <= m,
                inner.len() == m,
                values[slot as int] == d,
                forall|k: int| 0 <= k < m ==> 0 <= #[trigger] inner[k] < m,
                forall|k: int|
                    slot < k < j ==> values[k] as int == bump(inner, d as int)[k - slot - 1],
                forall|k: int| j <= k < n ==> values[k] as int == inner[k - slot - 1],
            decreases n - j,
        {
            if values[j] >= d as u8 {
                let raised = values[j] + 1;
                values[j] = raised;
            }
            j += 1;
        }
        proof {
            assert(as_ints(values@).subrange(n - (m + 1), n as int) =~= seq![d as int] + bump(
                inner,
                d as int,
            ));
        }
        rest = rest / (m + 1);
        m += 1;
    }
    proof {
        lemma_fundamental_div_mod(index as int, factorial(n as nat) as int);
        vstd::arithmetic::div_mod::lemma_small_mod(index as nat, factorial(n as nat));
        assert(as_ints(values@).subrange(0, n as int) =~= as_ints(values@));
        lemma_unrank(index as int, n as nat);
        assert forall|j: int| 0 <= j < n implies values[j] < n by {
            lemma_arrangement_range(as_ints(values@), j);
        }
    }
    values
}

} // verus!
