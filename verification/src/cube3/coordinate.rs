//! The six coordinates of the two-phase search as one type, and the three
//! of them that number arrangements.
//!
//! Before the cube is in G1 the search looks at the twists of the corners,
//! at the flips of the edges and at the slots of the four slice edges. In G1
//! it looks at the arrangement of the corners, at that of the eight edges off
//! the slice and at that of the four edges on it.
use crate::cube3::coord::{
    corner_orientation_from_index, corner_orientation_index, edge_orientation_from_index,
    edge_orientation_index, flip_index, flip_state, lemma_flip_state, lemma_twist_state,
    twist_index, twist_state,
};
use crate::cube3::cube::{Cube, CubeView};
use crate::cube3::lehmer::{
    arrangement_of, as_ints, lemma_arrangement_range, lemma_rank_bound, lemma_unrank, rank,
    rank_of, unrank,
};
use crate::cube3::lehmer_laws::lemma_rank_alike;
use crate::cube3::placement::{
    lemma_placement_index_of_state, lemma_placement_rank_bound, lemma_pascal, placement_index,
    placement_state, slice_placement_from_index, slice_placement_index,
};
use crate::cube_n::corner::{self, Corner};
use crate::cube_n::edge::{self, Edge};
use crate::cube_n::face::Face;
use crate::cube_n::mov::{Amount, Move};
use crate::math::lemma_factorial_bound;
use crate::types::Axis;
use vstd::prelude::*;

verus! {

/// The number of arrangements of eight things.
pub const ARRANGEMENTS_OF_8: usize = 40320;

/// The number of arrangements of four things.
pub const ARRANGEMENTS_OF_4: usize = 24;

/// The slot of the `k`-th edge off the slice: the eight slots whose edges do
/// not run along the Y axis, in order.
pub open spec fn ud_slot(k: int) -> int {
    if k < 4 {
        k
    } else {
        k + 4
    }
}

/// The homes of the eight edges that are in the slots off the slice.
pub open spec fn ud_homes(edges: Seq<int>) -> Seq<int> {
    Seq::new(8, |k: int| edge::home(edges[ud_slot(k)]))
}

/// The homes of the four edges that are in the slots of the slice.
pub open spec fn slice_homes(edges: Seq<int>) -> Seq<int> {
    Seq::new(4, |k: int| edge::home(edges[4 + k]))
}

/// The corners of the arrangement with the number `index`, untwisted.
pub open spec fn corner_arrangement(index: int) -> Seq<int> {
    unrank(index, 8)
}

/// The edges whose eight edges off the slice are in the arrangement with the
/// number `index`, with the slice edges at home and nothing flipped.
pub open spec fn ud_arrangement(index: int) -> Seq<int> {
    Seq::new(
        12,
        |slot: int|
            if 4 <= slot < 8 {
                slot
            } else {
                ud_slot(
                    unrank(index, 8)[if slot < 4 {
                        slot
                    } else {
                        slot - 4
                    }],
                )
            },
    )
}

/// The edges whose four slice edges are in the arrangement with the number
/// `index`, with the other edges at home and nothing flipped.
pub open spec fn slice_arrangement(index: int) -> Seq<int> {
    Seq::new(
        12,
        |slot: int|
            if 4 <= slot < 8 {
                4 + unrank(index, 4)[slot - 4]
            } else {
                slot
            },
    )
}

/// Whether a move keeps a cube of G1 in G1: a turn of the upper or the lower
/// face, or a half turn.
pub open spec fn is_g1_move(mov: Move) -> bool {
    mov.face().axis() == Axis::Y || mov.amount() == Amount::Double
}

/// The ten moves that keep a cube in G1, in order.
pub open spec fn g1_nth(k: int) -> Move {
    if k == 0 {
        Move::spec_new(Face::U, Amount::Single)
    } else if k == 1 {
        Move::spec_new(Face::U, Amount::Double)
    } else if k == 2 {
        Move::spec_new(Face::U, Amount::Reverse)
    } else if k == 3 {
        Move::spec_new(Face::D, Amount::Single)
    } else if k == 4 {
        Move::spec_new(Face::D, Amount::Double)
    } else if k == 5 {
        Move::spec_new(Face::D, Amount::Reverse)
    } else if k == 6 {
        Move::spec_new(Face::R, Amount::Double)
    } else if k == 7 {
        Move::spec_new(Face::L, Amount::Double)
    } else if k == 8 {
        Move::spec_new(Face::F, Amount::Double)
    } else {
        Move::spec_new(Face::B, Amount::Double)
    }
}

/// The moves that stay in G1.
pub fn g1_moves() -> (moves: [Move; 10])
    ensures
        forall|k: int| 0 <= k < 10 ==> moves[k] == g1_nth(k),
{
    [
        Move::new(Face::U, Amount::Single),
        Move::new(Face::U, Amount::Double),
        Move::new(Face::U, Amount::Reverse),
        Move::new(Face::D, Amount::Single),
        Move::new(Face::D, Amount::Double),
        Move::new(Face::D, Amount::Reverse),
        Move::new(Face::R, Amount::Double),
        Move::new(Face::L, Amount::Double),
        Move::new(Face::F, Amount::Double),
        Move::new(Face::B, Amount::Double),
    ]
}

/// Every move is one of the eighteen, and every move that stays in G1 is one of the ten.
pub proof fn lemma_moves_listed(mov: Move)
    requires
        mov.wf(),
    ensures
        exists|k: int| 0 <= k < 18 && #[trigger] Move::nth(k) == mov,
        is_g1_move(mov) ==> exists|k: int| 0 <= k < 10 && #[trigger] g1_nth(k) == mov,
        forall|k: int| 0 <= k < 10 ==> is_g1_move(#[trigger] g1_nth(k)),
{
    Move::lemma_determined(mov);
    let face_index: int = match mov.face() {
        Face::R => 0,
        Face::U => 1,
        Face::F => 2,
        Face::L => 3,
        Face::D => 4,
        Face::B => 5,
    };
    let k = 3 * face_index + mov.amount().code() - 1;
    assert(Face::ALL[k / 3] == mov.face());
    assert(Amount::ALL[k % 3] == mov.amount());
    assert(Move::nth(k) == mov);
    assert forall|j: int| 0 <= j < 10 implies is_g1_move(#[trigger] g1_nth(j)) by {
        Move::lemma_parts(Face::U, Amount::Single);
        Move::lemma_parts(Face::U, Amount::Double);
        Move::lemma_parts(Face::U, Amount::Reverse);
        Move::lemma_parts(Face::D, Amount::Single);
        Move::lemma_parts(Face::D, Amount::Double);
        Move::lemma_parts(Face::D, Amount::Reverse);
        Move::lemma_parts(Face::R, Amount::Double);
        Move::lemma_parts(Face::L, Amount::Double);
        Move::lemma_parts(Face::F, Amount::Double);
        Move::lemma_parts(Face::B, Amount::Double);
    }
    if is_g1_move(mov) {
        let g: int = if mov.face() == Face::U {
            mov.amount().code() - 1
        } else if mov.face() == Face::D {
            mov.amount().code() + 2
        } else if mov.face() == Face::R {
            6
        } else if mov.face() == Face::L {
            7
        } else if mov.face() == Face::F {
            8
        } else {
            9
        };
        assert(g1_nth(g) == mov);
    }
}

/// The number of the arrangement that eight corners are in.
pub fn corner_permutation_index(corners: &[Corner; 8]) -> (index: usize)
    ensures
        index as int == rank(corner::homes(Corner::codes(*corners))),
        index < ARRANGEMENTS_OF_8,
{
    let mut homes: [u8; 8] = [0u8;8];
    let mut k: usize = 0;
    while k < 8
        invariant
            k <= 8,
            forall|j: int| 0 <= j < k ==> homes[j] as int == corner::home(corners[j]@),
        decreases 8 - k,
    {
        homes[k] = corners[k].position().u8();
        k += 1;
    }
    proof {
        assert(as_ints(homes@) =~= corner::homes(Corner::codes(*corners)));
        lemma_factorial_bound(8);
    }
    rank_of(&homes)
}

/// The corners of the arrangement with a given number, untwisted.
pub fn corner_permutation_from_index(index: usize) -> (corners: [Corner; 8])
    requires
        index < ARRANGEMENTS_OF_8,
    ensures
        Corner::codes(corners) == corner_arrangement(index as int),
{
    proof {
        lemma_factorial_bound(8);
    }
    let values = arrangement_of(index, 8);
    let mut corners = Corner::all_solved();
    let mut k: usize = 0;
    while k < 8
        invariant
            k <= 8,
            values.len() == 8,
            forall|j: int| 0 <= j < 8 ==> values[j] < 8,
            forall|j: int| 0 <= j < k ==> corners[j]@ == values[j] as int,
        decreases 8 - k,
    {
        corners[k] = Corner::solved(values[k]);
        k += 1;
    }
    proof {
        assert(Corner::codes(corners) =~= as_ints(values@));
    }
    corners
}

/// The number of the arrangement that the eight edges off the slice are in.
pub fn ud_permutation_index(edges: &[Edge; 12]) -> (index: usize)
    ensures
        index as int == rank(ud_homes(Edge::codes(*edges))),
        index < ARRANGEMENTS_OF_8,
{
    let mut homes: [u8; 8] = [0u8;8];
    let mut k: usize = 0;
    while k < 8
        invariant
            k <= 8,
            forall|j: int| 0 <= j < k ==> homes[j] as int == edge::home(edges[ud_slot(j)]@),
        decreases 8 - k,
    {
        let slot = if k < 4 {
            k
        } else {
            k + 4
        };
        homes[k] = edges[slot].position().index();
        k += 1;
    }
    proof {
        assert(as_ints(homes@) =~= ud_homes(Edge::codes(*edges)));
        lemma_factorial_bound(8);
    }
    rank_of(&homes)
}

/// The edges whose eight edges off the slice are in the arrangement with a given number.
pub fn ud_permutation_from_index(index: usize) -> (edges: [Edge; 12])
    requires
        index < ARRANGEMENTS_OF_8,
    ensures
        Edge::codes(edges) == ud_arrangement(index as int),
{
    proof {
        lemma_factorial_bound(8);
    }
    let values = arrangement_of(index, 8);
    let mut edges = Edge::all_solved();
    assert forall|j: int| 0 <= j < 12 implies edges[j]@ == j by {
        assert(Edge::codes(edges)[j] == edges[j]@);
    }
    let mut k: usize = 0;
    while k < 8
        invariant
            k <= 8,
            values.len() == 8,
            forall|j: int| 0 <= j < 8 ==> values[j] < 8,
            forall|j: int| 4 <= j < 8 ==> edges[j]@ == j,
            forall|j: int| 0 <= j < k ==> edges[ud_slot(j)]@ == ud_slot(values[j] as int),
        decreases 8 - k,
    {
        let slot = if k < 4 {
            k
        } else {
            k + 4
        };
        let home = if values[k] < 4 {
            values[k]
        } else {
            values[k] + 4
        };
        edges[slot] = Edge::solved(home);
        k += 1;
    }
    proof {
        assert forall|slot: int| 0 <= slot < 12 implies Edge::codes(edges)[slot] == ud_arrangement(
            index as int,
        )[slot] by {
            if slot < 4 {
                assert(ud_slot(slot) == slot);
            } else if slot >= 8 {
                assert(ud_slot(slot - 4) == slot);
            }
            assert(as_ints(values@)[if slot < 4 {
                slot
            } else {
                slot - 4
            }] == values[if slot < 4 {
                slot
            } else {
                slot - 4
            }] as int);
        }
        assert(Edge::codes(edges) =~= ud_arrangement(index as int));
    }
    edges
}

/// The number of the arrangement that the four edges in the slice are in.
pub fn slice_permutation_index(edges: &[Edge; 12]) -> (index: usize)
    ensures
        index as int == rank(slice_homes(Edge::codes(*edges))),
        index < ARRANGEMENTS_OF_4,
{
    let mut homes: [u8; 4] = [0u8;4];
    let mut k: usize = 0;
    while k < 4
        invariant
            k <= 4,
            forall|j: int| 0 <= j < k ==> homes[j] as int == edge::home(edges[4 + j]@),
        decreases 4 - k,
    {
        homes[k] = edges[4 + k].position().index();
        k += 1;
    }
    proof {
        assert(as_ints(homes@) =~= slice_homes(Edge::codes(*edges)));
        lemma_factorial_bound(4);
    }
    rank_of(&homes)
}

/// The edges whose four slice edges are in the arrangement with a given number.
pub fn slice_permutation_from_index(index: usize) -> (edges: [Edge; 12])
    requires
        index < ARRANGEMENTS_OF_4,
    ensures
        Edge::codes(edges) == slice_arrangement(index as int),
{
    proof {
        lemma_factorial_bound(4);
    }
    let values = arrangement_of(index, 4);
    let mut edges = Edge::all_solved();
    assert forall|j: int| 0 <= j < 12 implies edges[j]@ == j by {
        assert(Edge::codes(edges)[j] == edges[j]@);
    }
    let mut k: usize = 0;
    while k < 4
        invariant
            k <= 4,
            values.len() == 4,
            forall|j: int| 0 <= j < 4 ==> values[j] < 4,
            forall|j: int| 0 <= j < 4 || 8 <= j < 12 ==> edges[j]@ == j,
            forall|j: int| 0 <= j < k ==> edges[4 + j]@ == 4 + values[j] as int,
        decreases 4 - k,
    {
        edges[4 + k] = Edge::solved(4 + values[k]);
        k += 1;
    }
    proof {
        assert forall|slot: int| 0 <= slot < 12 implies Edge::codes(edges)[slot]
            == slice_arrangement(index as int)[slot] by {
            if 4 <= slot < 8 {
                assert(edges[4 + (slot - 4)]@ == 4 + values[slot - 4] as int);
                assert(as_ints(values@)[slot - 4] == values[slot - 4] as int);
            }
        }
        assert(Edge::codes(edges) =~= slice_arrangement(index as int));
    }
    edges
}

/// One of the six coordinates of the two-phase search.
#[derive(Debug, Clone, Copy, PartialEq, Eq, Hash, Structural)]
pub enum Coord {
    /// How the corners are twisted.
    CornerOrientation,
    /// How the edges are flipped.
    EdgeOrientation,
    /// Which slots hold the four slice edges.
    SlicePlacement,
    /// How the corners are arranged.
    CornerPermutation,
    /// How the eight edges off the slice are arranged.
    UdPermutation,
    /// How the four edges in the slice are arranged.
    SlicePermutation,
}

impl Coord {
    pub const ALL: [Coord; 6] = [
        Coord::CornerOrientation,
        Coord::EdgeOrientation,
        Coord::SlicePlacement,
        Coord::CornerPermutation,
        Coord::UdPermutation,
        Coord::SlicePermutation,
    ];

    /// The number of values of the coordinate.
    pub open spec fn size(self) -> int {
        match self {
            Coord::CornerOrientation => 2187,
            Coord::EdgeOrientation => 2048,
            Coord::SlicePlacement => 495,
            Coord::CornerPermutation => 40320,
            Coord::UdPermutation => 40320,
            Coord::SlicePermutation => 24,
        }
    }

    /// Whether the coordinate belongs to the first phase, which may make
    /// any move, or to the second, which stays in G1.
    pub open spec fn spec_phase1(self) -> bool {
        match self {
            Coord::CornerOrientation | Coord::EdgeOrientation | Coord::SlicePlacement => true,
            _ => false,
        }
    }

    /// Whether the phase of the coordinate may make a move.
    pub open spec fn allows(self, mov: Move) -> bool {
        mov.wf() && (self.spec_phase1() || is_g1_move(mov))
    }

    /// The value of the coordinate on a cube.
    pub open spec fn index_of(self, cube: CubeView) -> int {
        match self {
            Coord::CornerOrientation => twist_index(cube.corners),
            Coord::EdgeOrientation => flip_index(cube.edges),
            Coord::SlicePlacement => placement_index(cube.edges),
            Coord::CornerPermutation => rank(corner::homes(cube.corners)),
            Coord::UdPermutation => rank(ud_homes(cube.edges)),
            Coord::SlicePermutation => rank(slice_homes(cube.edges)),
        }
    }

    /// The pieces that a value of the coordinate stands for, with the pieces
    /// that the coordinate does not look at in their homes.
    pub open spec fn state(self, index: int) -> CubeView {
        let solved = CubeView::solved();
        match self {
            Coord::CornerOrientation => CubeView { corners: twist_state(index), edges: solved.edges },
            Coord::EdgeOrientation => CubeView { corners: solved.corners, edges: flip_state(index) },
            Coord::SlicePlacement => CubeView {
                corners: solved.corners,
                edges: placement_state(index),
            },
            Coord::CornerPermutation => CubeView {
                corners: corner_arrangement(index),
                edges: solved.edges,
            },
            Coord::UdPermutation => CubeView {
                corners: solved.corners,
                edges: ud_arrangement(index),
            },
            Coord::SlicePermutation => CubeView {
                corners: solved.corners,
                edges: slice_arrangement(index),
            },
        }
    }

    /// The value that a move leads to from a value of the coordinate.
    pub open spec fn next(self, index: int, mov: Move) -> int {
        self.index_of(self.state(index).moved(mov))
    }

    /// The number of moves that the phase of the coordinate may make.
    pub open spec fn move_count(self) -> int {
        if self.spec_phase1() {
            18
        } else {
            10
        }
    }

    /// The moves that the phase of the coordinate may make, in order.
    pub open spec fn move_nth(self, k: int) -> Move {
        if self.spec_phase1() {
            Move::nth(k)
        } else {
            g1_nth(k)
        }
    }

    /// The moves that the phase of the coordinate may make.
    pub fn moves(self) -> (moves: Vec<Move>)
        ensures
            moves.len() == self.move_count(),
            forall|k: int| 0 <= k < moves.len() ==> moves[k] == self.move_nth(k),
    {
        let mut moves: Vec<Move> = Vec::new();
        if self.phase1() {
            let all = Move::all();
            let mut k: usize = 0;
            while k < 18
                invariant
                    k <= 18,
                    moves.len() == k,
                    self.spec_phase1(),
                    forall|j: int| 0 <= j < 18 ==> all[j] == Move::nth(j),
                    forall|j: int| 0 <= j < k ==> moves[j] == self.move_nth(j),
                decreases 18 - k,
            {
                moves.push(all[k]);
                k += 1;
            }
        } else {
            let all = g1_moves();
            let mut k: usize = 0;
            while k < 10
                invariant
                    k <= 10,
                    moves.len() == k,
                    !self.spec_phase1(),
                    forall|j: int| 0 <= j < 10 ==> all[j] == g1_nth(j),
                    forall|j: int| 0 <= j < k ==> moves[j] == self.move_nth(j),
                decreases 10 - k,
            {
                moves.push(all[k]);
                k += 1;
            }
        }
        moves
    }

    /// The number of values of the coordinate.
    pub fn max(self) -> (size: usize)
        ensures
            size as int == self.size(),
            0 < size <= 40320,
    {
        match self {
            Coord::CornerOrientation => 2187,
            Coord::EdgeOrientation => 2048,
            Coord::SlicePlacement => 495,
            Coord::CornerPermutation => 40320,
            Coord::UdPermutation => 40320,
            Coord::SlicePermutation => 24,
        }
    }

    #[verifier::when_used_as_spec(spec_phase1)]
    pub fn phase1(self) -> (phase1: bool)
        ensures
            phase1 == self.spec_phase1(),
    {
        match self {
            Coord::CornerOrientation | Coord::EdgeOrientation | Coord::SlicePlacement => true,
            _ => false,
        }
    }

    /// The value of the coordinate on a cube.
    pub fn index(self, cube: &Cube) -> (index: usize)
        ensures
            index as int == self.index_of(cube@),
            index < self.size(),
    {
        let corners = cube.corner_pieces();
        let edges = cube.edge_pieces();
        match self {
            Coord::CornerOrientation => corner_orientation_index(&corners),
            Coord::EdgeOrientation => edge_orientation_index(&edges),
            Coord::SlicePlacement => slice_placement_index(&edges),
            Coord::CornerPermutation => corner_permutation_index(&corners),
            Coord::UdPermutation => ud_permutation_index(&edges),
            Coord::SlicePermutation => slice_permutation_index(&edges),
        }
    }

    /// The value that a move leads to from a value of the coordinate.
    pub fn neighbor(self, index: usize, mov: Move) -> (next: usize)
        requires
            index < self.size(),
        ensures
            next as int == self.next(index as int, mov),
            next < self.size(),
    {
        match self {
            Coord::CornerOrientation => corner_orientation_index(
                &corner::move_pieces(corner_orientation_from_index(index), mov),
            ),
            Coord::EdgeOrientation => edge_orientation_index(
                &edge::move_pieces(edge_orientation_from_index(index), mov),
            ),
            Coord::SlicePlacement => slice_placement_index(
                &edge::move_pieces(slice_placement_from_index(index), mov),
            ),
            Coord::CornerPermutation => corner_permutation_index(
                &corner::move_pieces(corner_permutation_from_index(index), mov),
            ),
            Coord::UdPermutation => ud_permutation_index(
                &edge::move_pieces(ud_permutation_from_index(index), mov),
            ),
            Coord::SlicePermutation => slice_permutation_index(
                &edge::move_pieces(slice_permutation_from_index(index), mov),
            ),
        }
    }

    /// The value of the coordinate on the solved cube.
    pub fn start(self) -> (index: usize)
        ensures
            index as int == self.index_of(CubeView::solved()),
            index < self.size(),
    {
        self.index(&Cube::solved())
    }

    /// The pieces that a value of a coordinate stands for are pieces, and
    /// their coordinate is that value.
    pub proof fn lemma_index_of_state(self, index: int)
        requires
            0 <= index < self.size(),
        ensures
            self.state(index).valid(),
            self.index_of(self.state(index)) == index,
    {
        let state = self.state(index);
        CubeView::lemma_solved_wf();
        match self {
            Coord::CornerOrientation => {
                lemma_twist_state(index);
            },
            Coord::EdgeOrientation => {
                lemma_flip_state(index);
            },
            Coord::SlicePlacement => {
                lemma_placement_index_of_state(index);
            },
            Coord::CornerPermutation => {
                lemma_factorial_bound(8);
                lemma_unrank(index, 8);
                let s = unrank(index, 8);
                assert forall|slot: int| 0 <= slot < 8 implies corner::valid(
                    #[trigger] state.corners[slot],
                ) && corner::home(state.corners[slot]) == s[slot] by {
                    lemma_arrangement_range(s, slot);
                }
                assert(corner::homes(state.corners) =~= s);
            },
            Coord::UdPermutation => {
                lemma_factorial_bound(8);
                lemma_unrank(index, 8);
                let s = unrank(index, 8);
                assert forall|k: int| 0 <= k < 8 implies 0 <= #[trigger] s[k] < 8 by {
                    lemma_arrangement_range(s, k);
                }
                assert forall|slot: int| 0 <= slot < 12 implies edge::valid(
                    #[trigger] state.edges[slot],
                ) by {
                    if slot < 4 {
                        assert(0 <= s[slot] < 8);
                    } else if slot >= 8 {
                        assert(0 <= s[slot - 4] < 8);
                    }
                }
                let homes = ud_homes(state.edges);
                assert forall|k: int| 0 <= k < 8 implies #[trigger] homes[k] == ud_slot(s[k]) by {
                    assert(0 <= s[k] < 8);
                }
                lemma_rank_alike(homes, s);
            },
            Coord::SlicePermutation => {
                lemma_factorial_bound(4);
                lemma_unrank(index, 4);
                let s = unrank(index, 4);
                assert forall|k: int| 0 <= k < 4 implies 0 <= #[trigger] s[k] < 4 by {
                    lemma_arrangement_range(s, k);
                }
                assert forall|slot: int| 0 <= slot < 12 implies edge::valid(
                    #[trigger] state.edges[slot],
                ) by {
                    if 4 <= slot < 8 {
                        assert(0 <= s[slot - 4] < 4);
                    }
                }
                let homes = slice_homes(state.edges);
                assert forall|k: int| 0 <= k < 4 implies #[trigger] homes[k] == 4 + s[k] by {
                    assert(0 <= s[k] < 4);
                }
                lemma_rank_alike(homes, s);
            },
        }
    }

    /// The coordinate of any pieces is one of the values of the coordinate.
    pub proof fn lemma_index_in_range(self, cube: CubeView)
        requires
            cube.valid(),
        ensures
            0 <= self.index_of(cube) < self.size(),
    {
        lemma_factorial_bound(8);
        lemma_factorial_bound(4);
        match self {
            Coord::CornerOrientation => {
                crate::cube3::radix::lemma_powers();
                assert(crate::cube3::radix::all_digits(
                    crate::cube3::coord::twists(cube.corners),
                    3,
                    7,
                ));
                crate::cube3::radix::lemma_horner_bound(
                    crate::cube3::coord::twists(cube.corners),
                    3,
                    7,
                );
            },
            Coord::EdgeOrientation => {
                crate::cube3::radix::lemma_powers();
                assert(crate::cube3::radix::all_digits(
                    crate::cube3::coord::flips(cube.edges),
                    2,
                    11,
                ));
                crate::cube3::radix::lemma_horner_bound(
                    crate::cube3::coord::flips(cube.edges),
                    2,
                    11,
                );
            },
            Coord::SlicePlacement => {
                lemma_placement_rank_bound(cube.edges, 12, 4);
                lemma_pascal(12, 4);
            },
            Coord::CornerPermutation => {
                lemma_rank_bound(corner::homes(cube.corners));
            },
            Coord::UdPermutation => {
                lemma_rank_bound(ud_homes(cube.edges));
            },
            Coord::SlicePermutation => {
                lemma_rank_bound(slice_homes(cube.edges));
            },
        }
    }
}

} // verus!
