//! The placement coordinate: which four of the twelve slots hold the edges
//! of the middle slice, the four edges that run along the Y axis.
//!
//! The slots are read from the last to the first. A slice edge in slot `i`,
//! with `r` slice edges still to come (itself among them), counts for `i`
//! choose `r`; this numbers the 495 placements from 0 to 494.
use crate::cube_n::edge::{self, Edge};
use crate::math::{binomial, binomial_coefficient};
use vstd::prelude::*;

verus! {

/// The number of placements: 12 choose 4.
pub const SLICE_PLACEMENTS: usize = 495;

/// Whether an edge is one of the four that run along the Y axis.
pub open spec fn in_slice(code: int) -> bool {
    edge::slot_normal(edge::home(code)) == 1
}

/// What the first `i` slots count for, with `r` slice edges to come.
pub open spec fn placement_rank(edges: Seq<int>, i: nat, r: nat) -> int
    decreases i,
{
    if i == 0 {
        0
    } else if r > 0 && in_slice(edges[i - 1]) {
        binomial((i - 1) as nat, r) + placement_rank(edges, (i - 1) as nat, (r - 1) as nat)
    } else {
        placement_rank(edges, (i - 1) as nat, r)
    }
}

/// The placement coordinate of twelve edges.
pub open spec fn placement_index(edges: Seq<int>) -> int {
    placement_rank(edges, 12, 4)
}

/// The first `i` edges of the placement that counts for `index`, with `r`
/// slice edges to place: the slice edges are placed from the last to the
/// first, and the other slots take the other edges in order.
pub open spec fn placement_fill(index: int, i: nat, r: nat) -> Seq<int>
    decreases i,
{
    if i == 0 {
        Seq::empty()
    } else if r > 0 && index >= binomial((i - 1) as nat, r) {
        placement_fill(index - binomial((i - 1) as nat, r), (i - 1) as nat, (r - 1) as nat).push(
            (r + 3) as int,
        )
    } else {
        placement_fill(index, (i - 1) as nat, r).push((i - 1 + 8 - r) % 12)
    }
}

/// The edges that the placement coordinate `index` stands for.
pub open spec fn placement_state(index: int) -> Seq<int> {
    placement_fill(index, 12, 4)
}

/// The binomial coefficients `n` choose `m` for `n` up to 12 and `m` up to 4.
pub open spec fn pascal(n: nat, m: nat) -> int {
    if m > 4 || n > 12 {
        0
    } else if n == 0 {
        if m == 0 { 1 } else if m == 1 { 0 } else if m == 2 { 0 } else if m == 3 { 0 } else { 0 }
    } else if n == 1 {
        if m == 0 { 1 } else if m == 1 { 1 } else if m == 2 { 0 } else if m == 3 { 0 } else { 0 }
    } else if n == 2 {
        if m == 0 { 1 } else if m == 1 { 2 } else if m == 2 { 1 } else if m == 3 { 0 } else { 0 }
    } else if n == 3 {
        if m == 0 { 1 } else if m == 1 { 3 } else if m == 2 { 3 } else if m == 3 { 1 } else { 0 }
    } else if n == 4 {
        if m == 0 { 1 } else if m == 1 { 4 } else if m == 2 { 6 } else if m == 3 { 4 } else { 1 }
    } else if n == 5 {
        if m == 0 { 1 } else if m == 1 { 5 } else if m == 2 { 10 } else if m == 3 { 10 } else { 5 }
    } else if n == 6 {
        if m == 0 { 1 } else if m == 1 { 6 } else if m == 2 { 15 } else if m == 3 { 20 } else { 15 }
    } else if n == 7 {
        if m == 0 { 1 } else if m == 1 { 7 } else if m == 2 { 21 } else if m == 3 { 35 } else { 35 }
    } else if n == 8 {
        if m == 0 { 1 } else if m == 1 { 8 } else if m == 2 { 28 } else if m == 3 { 56 } else { 70 }
    } else if n == 9 {
        if m == 0 { 1 } else if m == 1 { 9 } else if m == 2 { 36 } else if m == 3 { 84 } else { 126 }
    } else if n == 10 {
        if m == 0 { 1 } else if m == 1 { 10 } else if m == 2 { 45 } else if m == 3 { 120 } else { 210 }
    } else if n == 11 {
        if m == 0 { 1 } else if m == 1 { 11 } else if m == 2 { 55 } else if m == 3 { 165 } else { 330 }
    } else {
        if m == 0 { 1 } else if m == 1 { 12 } else if m == 2 { 66 } else if m == 3 { 220 } else { 495 }
    }
}

/// The coefficients of the table are the binomial coefficients.
pub proof fn lemma_pascal(n: nat, m: nat)
    requires
        n <= 12,
        m <= 4,
    ensures
        binomial(n, m) == pascal(n, m),
    decreases n,
{
    if n > 0 && m > 0 {
        lemma_pascal((n - 1) as nat, (m - 1) as nat);
        lemma_pascal((n - 1) as nat, m);
    }
}

/// What is still to be counted at most: `i` choose `r`, or 1 if there are
/// more slice edges to come than slots.
pub open spec fn room(i: nat, r: nat) -> int {
    if r <= i {
        pascal(i, r)
    } else {
        1
    }
}

/// What the first slots count for does not depend on the others.
pub proof fn lemma_placement_rank_ext(a: Seq<int>, b: Seq<int>, i: nat, r: nat)
    requires
        forall|k: int| 0 <= k < i ==> a[k] == b[k],
    ensures
        placement_rank(a, i, r) == placement_rank(b, i, r),
    decreases i,
{
    if i > 0 {
        lemma_placement_rank_ext(a, b, (i - 1) as nat, r);
        if r > 0 {
            lemma_placement_rank_ext(a, b, (i - 1) as nat, (r - 1) as nat);
        }
    }
}

/// The first slots count for less than there is room.
pub proof fn lemma_placement_rank_bound(edges: Seq<int>, i: nat, r: nat)
    requires
        i <= 12,
        r <= 4,
    ensures
        0 <= placement_rank(edges, i, r) < room(i, r),
    decreases i,
{
    if i > 0 {
        lemma_pascal((i - 1) as nat, r);
        lemma_placement_rank_bound(edges, (i - 1) as nat, r);
        if r > 0 {
            lemma_placement_rank_bound(edges, (i - 1) as nat, (r - 1) as nat);
        }
    }
}

/// The placement that counts for `index` is made of twelve edges, four of
/// them slice edges, and counts for `index`.
pub proof fn lemma_placement_fill(index: int, i: nat, r: nat)
    requires
        i <= 12,
        r <= 4,
        r <= i,
        i - r <= 8,
        0 <= index < pascal(i, r),
    ensures
        placement_fill(index, i, r).len() == i,
        forall|k: int| 0 <= k < i ==> 0 <= #[trigger] placement_fill(index, i, r)[k] < 12,
        placement_rank(placement_fill(index, i, r), i, r) == index,
    decreases i,
{
    if i > 0 {
        let fill = placement_fill(index, i, r);
        lemma_pascal((i - 1) as nat, r);
        if r > 0 && index >= binomial((i - 1) as nat, r) {
            let rest = placement_fill(
                index - binomial((i - 1) as nat, r),
                (i - 1) as nat,
                (r - 1) as nat,
            );
            lemma_placement_fill(
                index - binomial((i - 1) as nat, r),
                (i - 1) as nat,
                (r - 1) as nat,
            );
            lemma_placement_rank_ext(fill, rest, (i - 1) as nat, (r - 1) as nat);
            assert(fill[i - 1] == r + 3);
        } else {
            let rest = placement_fill(index, (i - 1) as nat, r);
            lemma_placement_fill(index, (i - 1) as nat, r);
            lemma_placement_rank_ext(fill, rest, (i - 1) as nat, r);
            assert(fill[i - 1] == (i - 1 + 8 - r) % 12);
        }
    }
}

/// Taking the coordinate of the edges that a placement coordinate stands
/// for gives the coordinate back.
pub proof fn lemma_placement_index_of_state(index: int)
    requires
        0 <= index < 495,
    ensures
        edge::all_valid(placement_state(index)),
        placement_index(placement_state(index)) == index,
{
    lemma_placement_fill(index, 12, 4);
    assert forall|k: int| 0 <= k < 12 implies edge::valid(#[trigger] placement_state(index)[k]) by {
        assert(0 <= placement_fill(index, 12, 4)[k] < 12);
    }
}

/// The placement coordinate of twelve edges.
pub fn slice_placement_index(edges: &[Edge; 12]) -> (index: usize)
    ensures
        index as int == placement_index(Edge::codes(*edges)),
        index < SLICE_PLACEMENTS,
{
    let ghost codes = Edge::codes(*edges);
    let mut index: usize = 0;
    let mut remaining: usize = 4;
    let mut i: usize = 12;
    proof {
        lemma_pascal(12, 4);
    }
    while i > 0
        invariant
            i <= 12,
            remaining <= 4,
            codes == Edge::codes(*edges),
            placement_index(codes) == index + placement_rank(codes, i as nat, remaining as nat),
            index + room(i as nat, remaining as nat) <= 495,
        decreases i,
    {
        let slot = i - 1;
        proof {
            lemma_pascal(slot as nat, remaining as nat);
            if remaining > 0 {
                lemma_pascal(slot as nat, (remaining - 1) as nat);
            }
            assert(codes[slot as int] == edges[slot as int]@);
        }
        if remaining > 0 && edges[slot].normal().u8() == 1 {
            index = index + binomial_coefficient(slot, remaining);
            remaining -= 1;
        }
        i = slot;
    }
    index
}

/// The edges that a placement coordinate stands for.
pub fn slice_placement_from_index(index: usize) -> (edges: [Edge; 12])
    requires
        index < SLICE_PLACEMENTS,
    ensures
        Edge::codes(edges) == placement_state(index as int),
{
    let mut edges = Edge::all_solved();
    let mut rest: usize = index;
    let mut remaining: usize = 4;
    let mut i: usize = 12;
    proof {
        assert(placement_state(index as int) =~= placement_fill(index as int, 12, 4)
            + Seq::<int>::empty());
    }
    while i > 0
        invariant
            i <= 12,
            remaining <= 4,
            placement_state(index as int) =~= placement_fill(
                rest as int,
                i as nat,
                remaining as nat,
            ) + Seq::new((12 - i) as nat, |k: int| edges[i + k]@),
        decreases i,
    {
        let slot = i - 1;
        let ghost before = Seq::new((12 - i) as nat, |k: int| edges[i + k]@);
        let ghost fill = placement_fill(rest as int, i as nat, remaining as nat);
        let count = binomial_coefficient(slot, remaining);
        if remaining > 0 && rest >= count {
            edges[slot] = Edge::solved((remaining + 3) as u8);
            rest = rest - count;
            remaining -= 1;
        } else {
            edges[slot] = Edge::solved(((slot + 8 - remaining) % 12) as u8);
        }
        proof {
            let after = Seq::new((12 - slot) as nat, |k: int| edges[slot + k]@);
            let inner = placement_fill(rest as int, slot as nat, remaining as nat);
            assert(fill =~= inner.push(edges[slot as int]@));
            assert(after =~= seq![edges[slot as int]@] + before);
            assert(fill + before =~= inner + after);
        }
        i = slot;
    }
    proof {
        assert(placement_fill(rest as int, 0, remaining as nat) =~= Seq::<int>::empty());
        assert(Edge::codes(edges) =~= Seq::new(12, |k: int| edges[0 + k]@));
    }
    edges
}

} // verus!
