//! The coordinates of the two-phase search: each one numbers what a part of
//! the cube can look like, from 0 up to the size of the coordinate.
//!
//! The orientation coordinates read the twists of the first seven corners, or
//! the flips of the first eleven edges, as the digits of a number in base 3 or
//! 2; the last piece is left out, for the others decide what it is.
use crate::cube3::radix::{
    all_digits, digit, digit_sum, digits, horner, lemma_digit_step, lemma_digits_of_horner,
    lemma_horner_bound, lemma_horner_ext, lemma_horner_of_digits, lemma_powers, power, shifted,
    sum,
};
use crate::cube_n::corner::{self, Corner, CornerPosition};
use crate::cube_n::edge::{self, Edge, EdgePosition};
use crate::types::{Direction, Orientation3};
use vstd::prelude::*;

verus! {

/// The number of ways to twist the corners: 3 to the power 7.
pub const CORNER_ORIENTATIONS: usize = 2187;

/// The number of ways to flip the edges: 2 to the power 11.
pub const EDGE_ORIENTATIONS: usize = 2048;

/// The twists of eight corners, slot by slot.
pub open spec fn twists(corners: Seq<int>) -> Seq<int> {
    Seq::new(8, |k: int| corner::twist(corners[k]))
}

/// The flips of twelve edges, slot by slot.
pub open spec fn flips(edges: Seq<int>) -> Seq<int> {
    Seq::new(12, |k: int| edge::flip(edges[k]))
}

/// The digit that makes the sum of the `n` last digits of `index` and of
/// itself a multiple of the base.
pub open spec fn closing_digit(index: int, base: int, n: nat) -> int {
    (base - digit_sum(index, base, n) % base) % base
}

/// The corner orientation coordinate: the twists of the first seven corners
/// as a number in base 3, the first corner being the most significant.
pub open spec fn twist_index(corners: Seq<int>) -> int {
    horner(twists(corners), 3, 7)
}

/// The corners that the corner orientation coordinate `index` stands for:
/// every piece in its home, the first seven twisted as the digits of `index`
/// say, and the last so that the twists add up to a multiple of 3.
pub open spec fn twist_state(index: int) -> Seq<int> {
    Seq::new(
        8,
        |k: int|
            k + 8 * (if k < 7 {
                digit(index, 3, (6 - k) as nat)
            } else {
                closing_digit(index, 3, 7)
            }),
    )
}

/// The edge orientation coordinate: the flips of the first eleven edges as a
/// number in base 2, the first edge being the most significant.
pub open spec fn flip_index(edges: Seq<int>) -> int {
    horner(flips(edges), 2, 11)
}

/// The edges that the edge orientation coordinate `index` stands for: every
/// piece in its home, the first eleven flipped as the digits of `index` say,
/// and the last so that the flips add up to a multiple of 2.
pub open spec fn flip_state(index: int) -> Seq<int> {
    Seq::new(
        12,
        |k: int|
            k + 16 * (if k < 11 {
                digit(index, 2, (10 - k) as nat)
            } else {
                closing_digit(index, 2, 11)
            }),
    )
}

/// The corners with every piece in its home and the twists of `corners`.
pub open spec fn twists_only(corners: Seq<int>) -> Seq<int> {
    Seq::new(8, |k: int| k + 8 * corner::twist(corners[k]))
}

/// The edges with every piece in its home and the flips of `edges`.
pub open spec fn flips_only(edges: Seq<int>) -> Seq<int> {
    Seq::new(12, |k: int| k + 16 * edge::flip(edges[k]))
}

/// The corner orientation coordinate of eight corners.
pub fn corner_orientation_index(corners: &[Corner; 8]) -> (index: usize)
    ensures
        index as int == twist_index(Corner::codes(*corners)),
        index < CORNER_ORIENTATIONS,
{
    let ghost tw = twists(Corner::codes(*corners));
    let mut index: usize = 0;
    let mut k: usize = 0;
    while k < 7
        invariant
            k <= 7,
            tw == twists(Corner::codes(*corners)),
            all_digits(tw, 3, k as nat),
            index as int == horner(tw, 3, k as nat),
        decreases 7 - k,
    {
        let piece = corners[k];
        proof {
            use_type_invariant(&piece);
            lemma_powers();
            lemma_horner_bound(tw, 3, k as nat);
            assert(tw[k as int] == corner::twist(piece@));
        }
        index = index * 3 + piece.orientation().u8() as usize;
        k += 1;
    }
    proof {
        lemma_powers();
        lemma_horner_bound(tw, 3, 7);
    }
    index
}

/// The corners that a corner orientation coordinate stands for.
pub fn corner_orientation_from_index(index: usize) -> (corners: [Corner; 8])
    requires
        index < CORNER_ORIENTATIONS,
    ensures
        Corner::codes(corners) == twist_state(index as int),
{
    let mut corners = Corner::all_solved();
    assert forall|j: int| 0 <= j < 8 implies corners[j]@ == j by {
        assert(Corner::codes(corners)[j] == corners[j]@);
    }
    let mut rest: usize = index;
    let mut total: u8 = 0;
    let mut k: u8 = 7;
    while k > 0
        invariant
            k <= 7,
            rest as int == shifted(index as int, 3, (7 - k) as nat),
            total as int == digit_sum(index as int, 3, (7 - k) as nat),
            total <= 2 * (7 - k),
            forall|j: int| 0 <= j < k ==> corners[j]@ == j,
            corners[7]@ == 7,
            forall|j: int|
                k <= j < 7 ==> corners[j]@ == j + 8 * digit(index as int, 3, (6 - j) as nat),
        decreases k,
    {
        proof {
            lemma_digit_step(index as int, 3, (7 - k) as nat);
        }
        let orientation = Orientation3::from_u8_mod3((rest % 3) as u8);
        let slot: u8 = k - 1;
        corners[slot as usize] = CornerPosition::from_index(slot).with_orientation(orientation);
        total = total + orientation.u8();
        rest = rest / 3;
        k = slot;
    }
    let last = Orientation3::from_u8_mod3(3 - total % 3);
    corners[7] = CornerPosition::from_index(7).with_orientation(last);
    assert(Corner::codes(corners) =~= twist_state(index as int));
    corners
}

/// The edge orientation coordinate of twelve edges.
pub fn edge_orientation_index(edges: &[Edge; 12]) -> (index: usize)
    ensures
        index as int == flip_index(Edge::codes(*edges)),
        index < EDGE_ORIENTATIONS,
{
    let ghost fl = flips(Edge::codes(*edges));
    let mut index: usize = 0;
    let mut k: usize = 0;
    while k < 11
        invariant
            k <= 11,
            fl == flips(Edge::codes(*edges)),
            all_digits(fl, 2, k as nat),
            index as int == horner(fl, 2, k as nat),
        decreases 11 - k,
    {
        let piece = edges[k];
        proof {
            use_type_invariant(&piece);
            lemma_powers();
            lemma_horner_bound(fl, 2, k as nat);
            assert(fl[k as int] == edge::flip(piece@));
        }
        index = index * 2 + piece.orientation().u8() as usize;
        k += 1;
    }
    proof {
        lemma_powers();
        lemma_horner_bound(fl, 2, 11);
    }
    index
}

/// The edges that an edge orientation coordinate stands for.
pub fn edge_orientation_from_index(index: usize) -> (edges: [Edge; 12])
    requires
        index < EDGE_ORIENTATIONS,
    ensures
        Edge::codes(edges) == flip_state(index as int),
{
    let mut edges = Edge::all_solved();
    assert forall|j: int| 0 <= j < 12 implies edges[j]@ == j by {
        assert(Edge::codes(edges)[j] == edges[j]@);
    }
    let mut rest: usize = index;
    let mut total: u8 = 0;
    let mut k: u8 = 11;
    while k > 0
        invariant
            k <= 11,
            rest as int == shifted(index as int, 2, (11 - k) as nat),
            total as int == digit_sum(index as int, 2, (11 - k) as nat),
            total <= 11 - k,
            forall|j: int| 0 <= j < k ==> edges[j]@ == j,
            edges[11]@ == 11,
            forall|j: int|
                k <= j < 11 ==> edges[j]@ == j + 16 * digit(index as int, 2, (10 - j) as nat),
        decreases k,
    {
        proof {
            lemma_digit_step(index as int, 2, (11 - k) as nat);
        }
        let flip = Direction::from_u8_mod2((rest % 2) as u8);
        let slot: u8 = k - 1;
        edges[slot as usize] = EdgePosition::from_index(slot).with_orientation(flip);
        total = total + flip.u8();
        rest = rest / 2;
        k = slot;
    }
    let last = Direction::from_u8_mod2(2 - total % 2);
    edges[11] = EdgePosition::from_index(11).with_orientation(last);
    assert(Edge::codes(edges) =~= flip_state(index as int));
    edges
}

/// The corners of a corner orientation coordinate are corners, each in its
/// home, and their twists add up to a multiple of 3.
pub proof fn lemma_twist_state(index: int)
    requires
        0 <= index < 2187,
    ensures
        corner::all_valid(twist_state(index)),
        corner::homes(twist_state(index)) == Seq::new(8, |k: int| k),
        corner::twist_sum(twist_state(index)) % 3 == 0,
        twist_index(twist_state(index)) == index,
{
    let state = twist_state(index);
    lemma_powers();
    lemma_horner_of_digits(index, 3, 7);
    let ds = digits(index, 3, 7);
    assert forall|k: int| 0 <= k < 7 implies corner::twist(#[trigger] state[k]) == ds[k]
        && corner::valid(state[k]) && corner::home(state[k]) == k by {
        assert(0 <= ds[k] < 3);
    }
    assert(corner::valid(state[7]) && corner::home(state[7]) == 7 && corner::twist(state[7])
        == closing_digit(index, 3, 7));
    assert(corner::homes(state) =~= Seq::new(8, |k: int| k));
    lemma_horner_ext(twists(state), ds, 3, 7);
    assert(corner::twist_sum(state) == sum(twists(state), 7) + corner::twist(state[7])) by {
        reveal_with_fuel(sum, 8);
    }
}

/// The corners that the coordinate of some corners stands for have the
/// twists of those corners, each piece in its home.
pub proof fn lemma_twist_state_of_index(corners: Seq<int>)
    requires
        corner::all_valid(corners),
        corner::twist_sum(corners) % 3 == 0,
    ensures
        0 <= twist_index(corners) < 2187,
        twist_state(twist_index(corners)) == twists_only(corners),
{
    let tw = twists(corners);
    let index = twist_index(corners);
    lemma_powers();
    assert(all_digits(tw, 3, 7));
    lemma_horner_bound(tw, 3, 7);
    lemma_horner_of_digits(index, 3, 7);
    assert forall|k: int| 0 <= k < 7 implies #[trigger] twist_state(index)[k] == twists_only(
        corners,
    )[k] && digits(index, 3, 7)[k] == tw[k] by {
        lemma_digits_of_horner(tw, 3, 7, (6 - k) as nat);
    }
    assert forall|k: int| 0 <= k < 7 implies #[trigger] digits(index, 3, 7)[k] == tw[k] by {
        lemma_digits_of_horner(tw, 3, 7, (6 - k) as nat);
    }
    lemma_horner_ext(digits(index, 3, 7), tw, 3, 7);
    assert(corner::twist_sum(corners) == sum(tw, 7) + corner::twist(corners[7])) by {
        reveal_with_fuel(sum, 8);
    }
    assert(closing_digit(index, 3, 7) == corner::twist(corners[7]));
    assert(twist_state(index) =~= twists_only(corners));
}

/// The edges of an edge orientation coordinate are edges, each in its
/// home, and their flips add up to a multiple of 2.
pub proof fn lemma_flip_state(index: int)
    requires
        0 <= index < 2048,
    ensures
        edge::all_valid(flip_state(index)),
        edge::homes(flip_state(index)) == Seq::new(12, |k: int| k),
        edge::flip_sum(flip_state(index)) % 2 == 0,
        flip_index(flip_state(index)) == index,
{
    let state = flip_state(index);
    lemma_powers();
    lemma_horner_of_digits(index, 2, 11);
    let ds = digits(index, 2, 11);
    assert forall|k: int| 0 <= k < 11 implies edge::flip(#[trigger] state[k]) == ds[k]
        && edge::valid(state[k]) && edge::home(state[k]) == k by {
        assert(0 <= ds[k] < 2);
    }
    assert(edge::valid(state[11]) && edge::home(state[11]) == 11 && edge::flip(state[11])
        == closing_digit(index, 2, 11));
    assert(edge::homes(state) =~= Seq::new(12, |k: int| k));
    lemma_horner_ext(flips(state), ds, 2, 11);
    assert(edge::flip_sum(state) == sum(flips(state), 11) + edge::flip(state[11])) by {
        reveal_with_fuel(sum, 12);
    }
}

/// The edges that the coordinate of some edges stands for have the flips of
/// those edges, each piece in its home.
pub proof fn lemma_flip_state_of_index(edges: Seq<int>)
    requires
        edge::all_valid(edges),
        edge::flip_sum(edges) % 2 == 0,
    ensures
        0 <= flip_index(edges) < 2048,
        flip_state(flip_index(edges)) == flips_only(edges),
{
    let fl = flips(edges);
    let index = flip_index(edges);
    lemma_powers();
    assert(all_digits(fl, 2, 11));
    lemma_horner_bound(fl, 2, 11);
    lemma_horner_of_digits(index, 2, 11);
    assert forall|k: int| 0 <= k < 11 implies #[trigger] flip_state(index)[k] == flips_only(
        edges,
    )[k] && digits(index, 2, 11)[k] == fl[k] by {
        lemma_digits_of_horner(fl, 2, 11, (10 - k) as nat);
    }
    assert forall|k: int| 0 <= k < 11 implies #[trigger] digits(index, 2, 11)[k] == fl[k] by {
        lemma_digits_of_horner(fl, 2, 11, (10 - k) as nat);
    }
    lemma_horner_ext(digits(index, 2, 11), fl, 2, 11);
    assert(edge::flip_sum(edges) == sum(fl, 11) + edge::flip(edges[11])) by {
        reveal_with_fuel(sum, 12);
    }
    assert(closing_digit(index, 2, 11) == edge::flip(edges[11]));
    assert(flip_state(index) =~= flips_only(edges));
}

} // verus!
