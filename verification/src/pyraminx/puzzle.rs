//! The state of a Pyraminx.
use crate::pyraminx::center::Centers;
use crate::pyraminx::edge::{self, Edge};
use crate::pyraminx::mov::{CoreMove, Move};
use crate::pyraminx::piece::{spec_offset, Face, Vertex};
use crate::pyraminx::tip::Tips;
use crate::types::Orientation3;
use vstd::prelude::*;

verus! {

/// What a Pyraminx is in contracts: how its centres and its tips are
/// turned, and the bytes of its edges.
pub struct PyraminxView {
    pub centers: Seq<int>,
    pub edges: Seq<int>,
    pub tips: Seq<int>,
}

impl PyraminxView {
    /// The solved puzzle.
    pub open spec fn solved() -> PyraminxView {
        PyraminxView {
            centers: Seq::new(4, |vertex: int| 0int),
            edges: Seq::new(6, |slot: int| slot),
            tips: Seq::new(4, |vertex: int| 0int),
        }
    }

    /// The vertex opposite to the face whose colour shows at a place of the
    /// face opposite to the vertex `face`, looked at with the vertex `base`
    /// below. The places with an odd index are centres, and so is all of the
    /// tip row; the places `(1, 0)`, `(1, 2)` and `(2, 2)` are edges; the
    /// others are tips. An edge shows the face by which its flip is told
    /// where its slot has that face, if it is not flipped. A centre or a tip
    /// shows the face that comes to the place when it is turned back.
    pub open spec fn sticker_at(self, face: int, base: int, row: int, index: int) -> int {
        if (index == 2 || row == 1) && index % 2 == 0 {
            let other = spec_offset(face, base, (row + index / 2) % 3);
            let slot = edge::slot_between(face, other);
            let piece = self.edges[slot];
            if (face == edge::orientation_vertex(slot)) == (edge::flip(piece) == 0) {
                edge::orientation_vertex(edge::home(piece))
            } else {
                edge::non_orientation_vertex(edge::home(piece))
            }
        } else {
            let turns = if index % 2 != 0 {
                (if row >= index {
                    row
                } else {
                    index
                }) - 1
            } else {
                row / 2 + index / 4
            };
            let set = if index % 2 != 0 {
                self.centers
            } else {
                self.tips
            };
            let vertex = spec_offset(face, base, (3 - turns) % 3);
            spec_offset(vertex, face, (3 - set[vertex]) % 3)
        }
    }

    /// The puzzle after a turn: the tip turns with every move, and the
    /// centre and the edges with the moves that are not of the tip alone.
    pub open spec fn turned(self, mov: CoreMove, tip_only: bool) -> PyraminxView {
        if tip_only {
            PyraminxView { tips: Centers::moved(self.tips, mov), ..self }
        } else {
            PyraminxView {
                centers: Centers::moved(self.centers, mov),
                edges: edge::moved(self.edges, mov),
                tips: Centers::moved(self.tips, mov),
            }
        }
    }
}

/// The Pyraminx without its tips, which turn by themselves.
#[derive(Debug, Clone, Copy, PartialEq, Eq)]
pub struct CorePyraminx {
    pub centers: Centers,
    pub edges: [Edge; 6],
}

impl CorePyraminx {
    pub fn solved() -> (puzzle: CorePyraminx)
        ensures
            puzzle.centers@ == PyraminxView::solved().centers,
            Edge::codes(puzzle.edges) == PyraminxView::solved().edges,
    {
        CorePyraminx { centers: Centers::solved(), edges: Edge::all_solved() }
    }

    /// The puzzle after a move.
    pub fn mov(self, mov: CoreMove) -> (puzzle: CorePyraminx)
        ensures
            puzzle.centers@ == Centers::moved(self.centers@, mov),
            Edge::codes(puzzle.edges) == edge::moved(Edge::codes(self.edges), mov),
    {
        CorePyraminx { centers: self.centers.mov(mov), edges: edge::move_pieces(self.edges, mov) }
    }
}

/// A Pyraminx.
#[derive(Debug, Clone, Copy, PartialEq, Eq)]
pub struct Pyraminx {
    pub inner: CorePyraminx,
    pub tips: Tips,
}

impl View for Pyraminx {
    type V = PyraminxView;

    open spec fn view(&self) -> PyraminxView {
        PyraminxView {
            centers: self.inner.centers@,
            edges: Edge::codes(self.inner.edges),
            tips: self.tips@,
        }
    }
}

/// The puzzle after the moves of an algorithm, made from first to last.
pub open spec fn moved_all(puzzle: PyraminxView, moves: Seq<Move>) -> PyraminxView
    decreases moves.len(),
{
    if moves.len() == 0 {
        puzzle
    } else {
        moved_once(moved_all(puzzle, moves.drop_last()), moves.last())
    }
}

/// The puzzle after a move.
pub open spec fn moved_once(puzzle: PyraminxView, mov: Move) -> PyraminxView {
    puzzle.turned(core_of(mov), mov@ >= 8)
}

/// The turn of a move: the move without the bit of the tip.
pub open spec fn core_of(mov: Move) -> CoreMove {
    choose|c: CoreMove| c@ == mov@ % 8
}

impl Pyraminx {
    /// The solved puzzle.
    pub fn solved() -> (puzzle: Pyraminx)
        ensures
            puzzle@ == PyraminxView::solved(),
    {
        Pyraminx { inner: CorePyraminx::solved(), tips: Tips::solved() }
    }

    /// The puzzle after the moves of an algorithm, made from first to last.
    pub fn mov(self, moves: &[Move]) -> (puzzle: Pyraminx)
        ensures
            puzzle@ == moved_all(self@, moves@),
    {
        let mut puzzle = self;
        let mut i: usize = 0;
        while i < moves.len()
            invariant
                i <= moves.len(),
                puzzle@ == moved_all(self@, moves@.take(i as int)),
            decreases moves.len() - i,
        {
            proof {
                assert(moves@.take(i + 1).drop_last() =~= moves@.take(i as int));
            }
            puzzle = puzzle.mov_single(moves[i]);
            i += 1;
        }
        proof {
            assert(moves@.take(moves.len() as int) =~= moves@);
        }
        puzzle
    }

    /// The puzzle after one move.
    pub fn mov_single(self, mov: Move) -> (puzzle: Pyraminx)
        ensures
            puzzle@ == moved_once(self@, mov),
    {
        let turn = mov.core_move();
        proof {
            lemma_core_of(mov, turn);
        }
        if mov.is_tip_move() {
            Pyraminx { tips: self.tips.mov(turn), ..self }
        } else {
            Pyraminx { inner: self.inner.mov(turn), tips: self.tips.mov(turn) }
        }
    }

    /// The sticker at a place of a face. The face is looked at with the
    /// vertex `query_base` below; `row` counts the rows from that vertex, from
    /// 0 to 2, and `index` the stickers of the row, from 0 to twice the row.
    pub fn sticker_at(&self, query_face: Face, query_base: Vertex, row: u8, index: u8) -> (sticker:
        Face)
        requires
            query_face.vertex@ != query_base@,
            row <= 2,
            index <= 2 * row,
        ensures
            sticker.vertex@ == self@.sticker_at(
                query_face.vertex@,
                query_base@,
                row as int,
                index as int,
            ),
    {
        proof {
            use_type_invariant(&query_base);
            use_type_invariant(&query_face.vertex);
        }
        let is_center = index % 2 != 0;
        let is_edge_or_center = index == 2 || row == 1;
        if is_edge_or_center && !is_center {
            // Which of the three edges of the face: 0, 1 or 2.
            let i = row + index / 2 - 1;
            let other_vertex = query_face.vertex.offset(
                query_base,
                Orientation3::from_u8_mod3(i + 1),
            );
            let other_face = Face::new(other_vertex);
            let edge_position = Edge::position_from_faces([query_face, other_face]);
            let edge = self.inner.edges[edge_position.u8() as usize];
            proof {
                assert(Edge::codes(self.inner.edges)[edge_position@] == edge@);
            }
            if (query_face.vertex.u8() == edge_position.orientation_face().vertex.u8())
                == edge.is_oriented() {
                edge.orientation_face()
            } else {
                edge.non_orientation_face()
            }
        } else {
            let (i, set) = if is_center {
                (
                    if row >= index {
                        row - 1
                    } else {
                        index - 1
                    },
                    self.inner.centers,
                )
            } else {
                (row / 2 + index / 4, self.tips.as_centers())
            };
            // The vertex of the piece.
            let vertex = query_face.vertex.offset(query_base, Orientation3::from_u8(i).neg());
            // The colour is found by turning the piece back.
            vertex.offset_face(query_face, set.orientation_of(vertex).neg())
        }
    }
}

/// Three turns of a vertex the same way leave the centres and the tips as
/// they were, and so does a turn and then the turn the other way.
pub proof fn lemma_centers_turns(centers: Seq<int>, mov: CoreMove, back: CoreMove)
    requires
        centers.len() == 4,
        forall|vertex: int| 0 <= vertex < 4 ==> 0 <= #[trigger] centers[vertex] < 3,
        mov.wf(),
        back.wf(),
        back.spec_vertex() == mov.spec_vertex(),
        back.spec_amount() != mov.spec_amount(),
    ensures
        Centers::moved(Centers::moved(Centers::moved(centers, mov), mov), mov) == centers,
        Centers::moved(Centers::moved(centers, mov), back) == centers,
{
    let vertex = mov.spec_vertex();
    assert(0 <= centers[vertex] < 3);
    assert(Centers::moved(Centers::moved(Centers::moved(centers, mov), mov), mov) =~= centers);
    assert(Centers::moved(Centers::moved(centers, mov), back) =~= centers);
}

/// A turn with the bits of a move is the turn of the move.
proof fn lemma_core_of(mov: Move, turn: CoreMove)
    requires
        turn@ == mov@ % 8,
    ensures
        core_of(mov) == turn,
{
    let chosen = choose|c: CoreMove| c@ == mov@ % 8;
    CoreMove::lemma_view_determines(chosen, turn);
}

} // verus!
