//! The state of a 3x3x3 cube: eight corners and twelve edges.
use crate::cube_n::corner::{self, Corner, CornerPosition};
use crate::cube_n::edge::{self, Edge, EdgePosition};
use crate::cube_n::face::Face;
use crate::cube_n::mov::{Amount, Move};
use crate::mov::InvertibleMove;
use crate::perm;
use vstd::prelude::*;

verus! {

/// The colour of a sticker is the face that it starts on.
pub type Sticker = Face;

/// What a cube is in contracts: the bytes of its corners and of its edges,
/// slot by slot.
pub struct CubeView {
    pub corners: Seq<int>,
    pub edges: Seq<int>,
}

impl CubeView {
    /// The cube with every piece in its home, untwisted and unflipped.
    pub open spec fn solved() -> CubeView {
        CubeView { corners: Seq::new(8, |slot: int| slot), edges: Seq::new(12, |slot: int| slot) }
    }

    /// Eight corners and twelve edges.
    pub open spec fn valid(self) -> bool {
        corner::all_valid(self.corners) && edge::all_valid(self.edges)
    }

    /// What holds of the cubes that turning the faces of a solved cube gives:
    /// no piece is there twice, the twists of the corners add up to a
    /// multiple of 3 and the flips of the edges to a multiple of 2, and the
    /// corners are in an arrangement of the same parity as the edges.
    pub open spec fn wf(self) -> bool {
        &&& self.valid()
        &&& corner::distinct_homes(self.corners)
        &&& edge::distinct_homes(self.edges)
        &&& corner::twist_sum(self.corners) % 3 == 0
        &&& edge::flip_sum(self.edges) % 2 == 0
        &&& perm::parity(corner::homes(self.corners)) == perm::parity(edge::homes(self.edges))
    }

    /// The cube after a turn of `face` by `amount`.
    pub open spec fn turned(self, face: Face, amount: Amount) -> CubeView {
        CubeView {
            corners: corner::moved(self.corners, face, amount),
            edges: edge::moved(self.edges, face, amount),
        }
    }

    /// The cube after a move.
    pub open spec fn moved(self, mov: Move) -> CubeView {
        self.turned(mov.face(), mov.amount())
    }

    /// The cube after the moves of an algorithm, applied from first to last.
    pub open spec fn moved_all(self, moves: Seq<Move>) -> CubeView
        decreases moves.len(),
    {
        if moves.len() == 0 {
            self
        } else {
            self.moved_all(moves.drop_last()).moved(moves.last())
        }
    }

    /// The sticker that shows on `face` in column `col` and row `row`, where
    /// the rows are counted from the side of the face `up` and the columns
    /// from the left as one looks at `face` with `up` above.
    pub open spec fn sticker_at(self, face: Face, up: Face, col: int, row: int) -> Face {
        let side = up.cross(face);
        let vertical = if row == 0 {
            up
        } else {
            up.opposite()
        };
        let horizontal = if col == 0 {
            side.opposite()
        } else {
            side
        };
        if col == 1 && row == 1 {
            face
        } else if (col + row) % 2 == 0 {
            self.corner_sticker(face, vertical, horizontal)
        } else if col == 1 {
            self.edge_sticker(face, vertical)
        } else {
            self.edge_sticker(face, horizontal)
        }
    }

    /// The sticker that shows on `face` at the corner where it meets two other faces.
    pub open spec fn corner_sticker(self, face: Face, second: Face, third: Face) -> Face {
        let slot = corner::face_weight(face) + corner::face_weight(second) + corner::face_weight(
            third,
        );
        corner::spec_sticker(self.corners[slot], slot, face)
    }

    /// The sticker that shows on `face` at the edge where it meets another face.
    pub open spec fn edge_sticker(self, face: Face, other: Face) -> Face {
        let slot = edge::slot_of_faces(face, other);
        edge::spec_sticker(self.edges[slot], slot, face)
    }

    /// Two cubes with the same pieces in the same slots are the same cube.
    pub proof fn lemma_ext(a: CubeView, b: CubeView)
        requires
            a.corners =~= b.corners,
            a.edges =~= b.edges,
        ensures
            a == b,
    {
    }

    /// Applying an algorithm and then one more move is applying the algorithm with the move added.
    pub proof fn lemma_moved_all_push(self, moves: Seq<Move>, mov: Move)
        ensures
            self.moved_all(moves.push(mov)) == self.moved_all(moves).moved(mov),
    {
        assert(moves.push(mov).drop_last() =~= moves);
    }

    /// Applying two algorithms one after the other is applying them joined.
    pub proof fn lemma_moved_all_concat(self, first: Seq<Move>, second: Seq<Move>)
        ensures
            self.moved_all(first + second) == self.moved_all(first).moved_all(second),
        decreases second.len(),
    {
        if second.len() == 0 {
            assert(first + second =~= first);
        } else {
            assert((first + second).drop_last() =~= first + second.drop_last());
            self.lemma_moved_all_concat(first, second.drop_last());
        }
    }

    /// The solved cube is a cube that can be reached.
    pub proof fn lemma_solved_wf()
        ensures
            CubeView::solved().wf(),
    {
        let solved = CubeView::solved();
        assert(corner::homes(solved.corners) =~= perm::identity(8));
        assert(edge::homes(solved.edges) =~= perm::identity(12));
        perm::lemma_identity_even(8);
        perm::lemma_identity_even(12);
    }

    /// Two turns of one face make the turn of both amounts together, and
    /// nothing at all if the amounts add up to a full turn.
    pub proof fn lemma_turns_compose(self, face: Face, first: Amount, second: Amount)
        requires
            self.valid(),
        ensures
            self.turned(face, first).valid(),
            (first.code() + second.code()) % 4 == 0 ==> self.turned(face, first).turned(
                face,
                second,
            ) == self,
            (first.code() + second.code()) % 4 != 0 ==> self.turned(face, first).turned(
                face,
                second,
            ) == self.turned(face, Amount::from_code((first.code() + second.code()) % 4)),
    {
        corner::lemma_moved_valid(self.corners, face, first);
        edge::lemma_moved_valid(self.edges, face, first);
        corner::lemma_compose(self.corners, face, first, second);
        edge::lemma_compose(self.edges, face, first, second);
    }

    /// A move and then its inverse leave every cube as it was.
    pub proof fn lemma_move_inverse(self, mov: Move)
        requires
            self.valid(),
            mov.wf(),
        ensures
            self.moved(mov).moved(mov.spec_inverse()) == self,
    {
        Move::lemma_parts(mov.face(), mov.amount().reverse());
        self.lemma_turns_compose(mov.face(), mov.amount(), mov.amount().reverse());
    }

    /// Four quarter turns of a face leave every cube as it was, and so do
    /// two half turns.
    pub proof fn lemma_move_order(self, face: Face)
        requires
            self.valid(),
        ensures
            self.turned(face, Amount::Single).turned(face, Amount::Single).turned(
                face,
                Amount::Single,
            ).turned(face, Amount::Single) == self,
            self.turned(face, Amount::Reverse).turned(face, Amount::Reverse).turned(
                face,
                Amount::Reverse,
            ).turned(face, Amount::Reverse) == self,
            self.turned(face, Amount::Double).turned(face, Amount::Double) == self,
    {
        self.lemma_turns_compose(face, Amount::Single, Amount::Single);
        self.lemma_turns_compose(face, Amount::Double, Amount::Single);
        self.lemma_turns_compose(face, Amount::Reverse, Amount::Single);
        self.lemma_turns_compose(face, Amount::Reverse, Amount::Reverse);
        self.lemma_turns_compose(face, Amount::Double, Amount::Reverse);
        self.lemma_turns_compose(face, Amount::Single, Amount::Reverse);
        self.lemma_turns_compose(face, Amount::Double, Amount::Double);
    }

    /// A quarter turn of a face and then a half turn of it make the
    /// quarter turn the other way.
    pub proof fn lemma_single_double_is_reverse(self, face: Face)
        requires
            self.valid(),
        ensures
            self.turned(face, Amount::Single).turned(face, Amount::Double) == self.turned(
                face,
                Amount::Reverse,
            ),
    {
        self.lemma_turns_compose(face, Amount::Single, Amount::Double);
    }

    /// A turn of a cube that can be reached gives a cube that can be reached:
    /// the pieces stay apart, the sums of the twists and of the flips stay
    /// multiples of 3 and of 2, and the two arrangements change parity together.
    pub proof fn lemma_turned_wf(self, face: Face, amount: Amount)
        requires
            self.wf(),
        ensures
            self.turned(face, amount).wf(),
    {
        corner::lemma_moved_valid(self.corners, face, amount);
        edge::lemma_moved_valid(self.edges, face, amount);
        corner::lemma_moved_parity(self.corners, face, amount);
        edge::lemma_moved_parity(self.edges, face, amount);
        corner::lemma_moved_twist_sum(self.corners, face, amount);
        edge::lemma_moved_flip_sum(self.edges, face, amount);
    }

    /// An algorithm takes a cube that can be reached to a cube that can be reached.
    pub proof fn lemma_moved_all_wf(self, moves: Seq<Move>)
        requires
            self.wf(),
        ensures
            self.moved_all(moves).wf(),
        decreases moves.len(),
    {
        if moves.len() > 0 {
            self.lemma_moved_all_wf(moves.drop_last());
            self.moved_all(moves.drop_last()).lemma_turned_wf(
                moves.last().face(),
                moves.last().amount(),
            );
        }
    }
}

/// A 3x3x3 cube that turning the faces of a solved cube can give.
#[derive(Debug, Clone, Copy, PartialEq, Eq, Hash)]
pub struct Cube {
    pub(crate) corners: [Corner; 8],
    pub(crate) edges: [Edge; 12],
}

impl View for Cube {
    type V = CubeView;

    closed spec fn view(&self) -> CubeView {
        CubeView { corners: Corner::codes(self.corners), edges: Edge::codes(self.edges) }
    }
}

impl Cube {
    /// Every cube is one that can be reached from the solved cube.
    #[verifier::type_invariant]
    pub open spec fn wf(self) -> bool {
        self@.wf()
    }

    /// The solved cube.
    pub fn solved() -> (cube: Cube)
        ensures
            cube@ == CubeView::solved(),
    {
        proof {
            CubeView::lemma_solved_wf();
        }
        Cube { corners: Corner::all_solved(), edges: Edge::all_solved() }
    }

    /// The cube with the given pieces, which must be pieces that a cube can
    /// have: see [`CubeView::wf`].
    pub fn new(corners: [Corner; 8], edges: [Edge; 12]) -> (cube: Cube)
        requires
            (CubeView { corners: Corner::codes(corners), edges: Edge::codes(edges) }).wf(),
        ensures
            cube@ == (CubeView { corners: Corner::codes(corners), edges: Edge::codes(edges) }),
    {
        Cube { corners, edges }
    }

    /// The corners, slot by slot.
    pub fn corner_pieces(&self) -> (corners: [Corner; 8])
        ensures
            Corner::codes(corners) == self@.corners,
            self@.wf(),
    {
        proof {
            use_type_invariant(self);
        }
        self.corners
    }

    /// The edges, slot by slot.
    pub fn edge_pieces(&self) -> (edges: [Edge; 12])
        ensures
            Edge::codes(edges) == self@.edges,
            self@.wf(),
    {
        proof {
            use_type_invariant(self);
        }
        self.edges
    }

    /// The sticker that shows on `face` in column `col` and row `row`, both
    /// from 0 to 2, as one looks at `face` with the face `up` above it.
    pub fn sticker_at(self, face: Face, up: Face, col: i32, row: i32) -> (sticker: Sticker)
        requires
            face.axis() != up.axis(),
            0 <= col <= 2,
            0 <= row <= 2,
        ensures
            sticker == self@.sticker_at(face, up, col as int, row as int),
    {
        // The sticker of the centre never moves.
        if col == 1 && row == 1 {
            return face;
        }
        let side = up.cross(face);
        let vertical = if row == 0 {
            up
        } else {
            up.opposite()
        };
        let horizontal = if col == 0 {
            side.opposite()
        } else {
            side
        };
        if (col + row) % 2 == 0 {
            self.corner_sticker_at(face, vertical, horizontal)
        } else if col == 1 {
            self.edge_sticker_at(face, vertical)
        } else {
            self.edge_sticker_at(face, horizontal)
        }
    }

    /// The sticker that shows on `face` at the corner where it meets two other faces.
    fn corner_sticker_at(&self, face: Face, second: Face, third: Face) -> (sticker: Sticker)
        requires
            face.axis() != second.axis(),
            second.axis() != third.axis(),
            third.axis() != face.axis(),
        ensures
            sticker == self@.corner_sticker(face, second, third),
    {
        let position = CornerPosition::from_faces([face, second, third]);
        let piece = position.pick(self.corners);
        corner::sticker(piece, position, face)
    }

    /// The sticker that shows on `face` at the edge where it meets another face.
    fn edge_sticker_at(&self, face: Face, other: Face) -> (sticker: Sticker)
        requires
            face.axis() != other.axis(),
        ensures
            sticker == self@.edge_sticker(face, other),
    {
        let position = EdgePosition::from_faces([face, other]);
        let piece = position.pick(&self.edges);
        edge::sticker(piece, position, face)
    }

    /// The cube after one move.
    pub fn mov_single(self, mov: Move) -> (cube: Cube)
        ensures
            cube@ == self@.moved(mov),
    {
        proof {
            use_type_invariant(&self);
            self@.lemma_turned_wf(mov.face(), mov.amount());
        }
        Cube {
            corners: corner::move_pieces(self.corners, mov),
            edges: edge::move_pieces(self.edges, mov),
        }
    }

    /// The cube after the moves of an algorithm, applied from first to last.
    pub fn mov(self, alg: &[Move]) -> (cube: Cube)
        ensures
            cube@ == self@.moved_all(alg@),
    {
        let mut cube = self;
        let mut i: usize = 0;
        while i < alg.len()
            invariant
                i <= alg.len(),
                cube@ == self@.moved_all(alg@.take(i as int)),
            decreases alg.len() - i,
        {
            proof {
                assert(alg@.take(i + 1).drop_last() =~= alg@.take(i as int));
            }
            cube = cube.mov_single(alg[i]);
            i += 1;
        }
        proof {
            assert(alg@.take(alg.len() as int) =~= alg@);
        }
        cube
    }

    /// Whether every piece is in its home, untwisted and unflipped.
    pub fn is_solved(self) -> (solved: bool)
        ensures
            solved == (self@ == CubeView::solved()),
    {
        self.equals(&Cube::solved())
    }

    /// Whether two cubes have the same pieces in the same slots.
    pub fn equals(&self, other: &Cube) -> (same: bool)
        ensures
            same == (self@ == other@),
    {
        let mut i: usize = 0;
        while i < 8
            invariant
                i <= 8,
                forall|j: int| 0 <= j < i ==> self.corners[j]@ == other.corners[j]@,
            decreases 8 - i,
        {
            if self.corners[i] != other.corners[i] {
                proof {
                    if self.corners[i as int]@ == other.corners[i as int]@ {
                        Corner::lemma_view_determines(
                            self.corners[i as int],
                            other.corners[i as int],
                        );
                    }
                    assert(self@.corners[i as int] != other@.corners[i as int]);
                }
                return false;
            }
            i += 1;
        }
        let mut i: usize = 0;
        while i < 12
            invariant
                i <= 12,
                forall|j: int| 0 <= j < 8 ==> self.corners[j]@ == other.corners[j]@,
                forall|j: int| 0 <= j < i ==> self.edges[j]@ == other.edges[j]@,
            decreases 12 - i,
        {
            if self.edges[i] != other.edges[i] {
                proof {
                    if self.edges[i as int]@ == other.edges[i as int]@ {
                        Edge::lemma_view_determines(self.edges[i as int], other.edges[i as int]);
                    }
                    assert(self@.edges[i as int] != other@.edges[i as int]);
                }
                return false;
            }
            i += 1;
        }
        proof {
            CubeView::lemma_ext(self@, other@);
        }
        true
    }

    /// The eighteen cubes that are one move away, each with the move that leads to it.
    pub fn neighbors(self) -> (neighbors: Vec<(Move, Cube)>)
        ensures
            neighbors.len() == 18,
            forall|k: int|
                0 <= k < 18 ==> (#[trigger] neighbors[k]).0 == Move::nth(k) && neighbors[k].1@
                    == self@.moved(Move::nth(k)),
    {
        let moves = Move::iter();
        let mut neighbors: Vec<(Move, Cube)> = Vec::new();
        let mut k: usize = 0;
        while k < 18
            invariant
                k <= 18,
                neighbors.len() == k,
                forall|j: int| 0 <= j < 18 ==> moves[j] == Move::nth(j),
                forall|j: int|
                    0 <= j < k ==> (#[trigger] neighbors[j]).0 == Move::nth(j) && neighbors[j].1@
                        == self@.moved(Move::nth(j)),
            decreases 18 - k,
        {
            neighbors.push((moves[k], self.mov_single(moves[k])));
            k += 1;
        }
        neighbors
    }

    /// The corners, each with the slot that it is in.
    pub fn corners(self) -> (corners: Vec<(CornerPosition, Corner)>)
        ensures
            corners.len() == 8,
            forall|slot: int|
                0 <= slot < 8 ==> (#[trigger] corners[slot]).0@ == slot && corners[slot].1@
                    == self@.corners[slot],
    {
        let mut corners: Vec<(CornerPosition, Corner)> = Vec::new();
        let mut slot: u8 = 0;
        while slot < 8
            invariant
                slot <= 8,
                corners.len() == slot,
                forall|j: int|
                    0 <= j < slot ==> (#[trigger] corners[j]).0@ == j && corners[j].1@
                        == self@.corners[j],
            decreases 8 - slot,
        {
            assert(self@.corners[slot as int] == self.corners[slot as int]@);
            corners.push((CornerPosition::from_index(slot), self.corners[slot as usize]));
            slot += 1;
        }
        corners
    }

    /// The edges, each with the slot that it is in.
    pub fn edges(self) -> (edges: Vec<(EdgePosition, Edge)>)
        ensures
            edges.len() == 12,
            forall|slot: int|
                0 <= slot < 12 ==> (#[trigger] edges[slot]).0@ == slot && edges[slot].1@
                    == self@.edges[slot],
    {
        let mut edges: Vec<(EdgePosition, Edge)> = Vec::new();
        let mut slot: u8 = 0;
        while slot < 12
            invariant
                slot <= 12,
                edges.len() == slot,
                forall|j: int|
                    0 <= j < slot ==> (#[trigger] edges[j]).0@ == j && edges[j].1@
                        == self@.edges[j],
            decreases 12 - slot,
        {
            assert(self@.edges[slot as int] == self.edges[slot as int]@);
            edges.push((EdgePosition::from_index(slot), self.edges[slot as usize]));
            slot += 1;
        }
        edges
    }
}

} // verus!
