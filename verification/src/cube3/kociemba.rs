//! Kociemba's algorithm: solving the cube in two phases.
//!
//! The first phase brings the cube into G1, the cubes that the turns of the
//! upper and the lower face and the half turns of the others give: the
//! cubes whose corners are untwisted, whose edges are unflipped and whose
//! slice edges are in the slice. The second phase solves the cube within G1.
use crate::cube3::coordinate::{g1_nth, is_g1_move};
use crate::cube3::cube::{Cube, CubeView};
use crate::cube3::prune_table::PruneTable;
use crate::cube3::search::{
    guided, idastar_path, is_path, lemma_path_moves, path_moves, search_idastar, Guide, GuideView,
    SearchSolution,
};
use crate::cube_n::face::Face;
use crate::cube_n::mov::Amount;
use crate::cube_n::corner::{self, Corner};
use crate::cube_n::edge::{self, Edge, EdgePosition};
use crate::cube_n::mov::Move;
use crate::types::Axis;
use vstd::prelude::*;

verus! {

impl CubeView {
    /// Whether the cube is in G1: every corner is untwisted, every edge is
    /// unflipped, and the edges that run along the Y axis are in the slots
    /// that run along it.
    pub open spec fn in_g1(self) -> bool {
        &&& forall|slot: int| 0 <= slot < 8 ==> corner::twist(#[trigger] self.corners[slot]) == 0
        &&& forall|slot: int| 0 <= slot < 12 ==> edge::flip(#[trigger] self.edges[slot]) == 0
        &&& forall|slot: int|
            0 <= slot < 12 ==> (edge::slot_normal(slot) == 1) == (edge::slot_normal(
                edge::home(#[trigger] self.edges[slot]),
            ) == 1)
    }

    /// The solved cube is in G1.
    pub proof fn lemma_solved_in_g1()
        ensures
            CubeView::solved().in_g1(),
    {
    }

    /// A turn of the upper or the lower face, and a half turn of any face,
    /// keep a cube of G1 in G1.
    pub proof fn lemma_g1_move(self, mov: Move)
        requires
            self.valid(),
            self.in_g1(),
            mov.wf(),
            is_g1_move(mov),
        ensures
            self.moved(mov).in_g1(),
    {
        let face = mov.face();
        let amount = mov.amount();
        let after = self.moved(mov);
        assert forall|slot: int| 0 <= slot < 8 implies corner::twist(
            #[trigger] after.corners[slot],
        ) == 0 by {
            corner::lemma_moved_corner(self.corners, face, amount, slot);
            corner::lemma_on_cycle(slot, face);
            corner::lemma_cycle(face, amount, corner::cycle_index(slot, face));
            assert(corner::twist(self.corners[corner::source_slot(slot, face, amount)]) == 0);
        }
        assert forall|slot: int| 0 <= slot < 12 implies edge::flip(#[trigger] after.edges[slot])
            == 0 && (edge::slot_normal(slot) == 1) == (edge::slot_normal(
            edge::home(after.edges[slot]),
        ) == 1) by {
            edge::lemma_moved_edge(self.edges, face, amount, slot);
            edge::lemma_on_cycle(slot, face);
            edge::lemma_cycle(face, amount, edge::cycle_index(slot, face));
            let from = edge::source_slot(slot, face, amount);
            assert(edge::flip(self.edges[from]) == 0);
            assert((edge::slot_normal(from) == 1) == (edge::slot_normal(
                edge::home(self.edges[from]),
            ) == 1));
            assert((edge::slot_normal(from) == 1) == (edge::slot_normal(slot) == 1));
        }
    }

    /// Moves that stay in G1, one after the other, keep a cube of G1 in G1.
    pub proof fn lemma_g1_moves(self, moves: Seq<Move>)
        requires
            self.valid(),
            self.in_g1(),
            forall|i: int| 0 <= i < moves.len() ==> (#[trigger] moves[i]).wf() && is_g1_move(moves[i]),
        ensures
            self.moved_all(moves).in_g1(),
            self.moved_all(moves).valid(),
        decreases moves.len(),
    {
        if moves.len() > 0 {
            let shorter = moves.drop_last();
            assert forall|i: int| 0 <= i < shorter.len() implies (#[trigger] shorter[i]).wf()
                && is_g1_move(shorter[i]) by {
                assert(shorter[i] == moves[i]);
            }
            self.lemma_g1_moves(shorter);
            let before = self.moved_all(shorter);
            before.lemma_g1_move(moves.last());
            corner::lemma_moved_valid(before.corners, moves.last().face(), moves.last().amount());
            edge::lemma_moved_valid(before.edges, moves.last().face(), moves.last().amount());
        }
    }
}

/// Each of the ten moves that stay in G1 is a move, and stays in G1.
pub proof fn lemma_g1_nth(k: int)
    requires
        0 <= k < 10,
    ensures
        g1_nth(k).wf(),
        is_g1_move(g1_nth(k)),
{
    assert forall|face: Face, amount: Amount|
        (#[trigger] Move::spec_new(face, amount)).wf() && Move::spec_new(face, amount).face()
            == face && Move::spec_new(face, amount).amount() == amount by {
        Move::lemma_parts(face, amount);
    }
}

/// A path by moves that stay in G1, from a cube of G1, passes cubes of G1 only.
pub proof fn lemma_path_in_g1(states: Seq<CubeView>, bytes: Seq<u8>, k: int)
    requires
        0 <= k < states.len(),
        states[0].valid(),
        states[0].in_g1(),
        GuideView::FromG1(bytes).leads(states),
    ensures
        states[k].valid(),
        states[k].in_g1(),
    decreases k,
{
    if k > 0 {
        lemma_path_in_g1(states, bytes, k - 1);
        let guide = GuideView::FromG1(bytes);
        let before = states[k - 1];
        assert(guide.joins(before, states[k - 1 + 1]));
        let j = choose|j: int|
            0 <= j < guide.move_count() && before.moved(#[trigger] guide.move_nth(j)) == states[k];
        let mov = g1_nth(j);
        lemma_g1_nth(j);
        before.lemma_g1_move(mov);
        corner::lemma_moved_valid(before.corners, mov.face(), mov.amount());
        edge::lemma_moved_valid(before.edges, mov.face(), mov.amount());
    }
}

/// What the two phases give for a cube with given tables: the way into G1
/// that the first search finds, and then the way within G1 that the second
/// search finds from where the first one ends. Nothing if either search
/// does not come back with a way to its goal by its moves.
pub open spec fn two_phase_path(cube: CubeView, bytes: Seq<u8>) -> Option<Seq<CubeView>> {
    match guided(idastar_path(cube, GuideView::ToG1(bytes)), cube, GuideView::ToG1(bytes)) {
        Some(first) => match guided(
            idastar_path(first.last(), GuideView::FromG1(bytes)),
            first.last(),
            GuideView::FromG1(bytes),
        ) {
            Some(second) => Some(first + second.skip(1)),
            None => None,
        },
        None => None,
    }
}

/// Whether a cube is in G1: all of the corners are oriented, all of the
/// edges are oriented, and the edges of the middle slice are in it.
pub fn is_in_g1(cube: Cube) -> (in_g1: bool)
    ensures
        in_g1 == cube@.in_g1(),
{
    let corners = cube.corner_pieces();
    let edges = cube.edge_pieces();
    let mut i: usize = 0;
    while i < 8
        invariant
            i <= 8,
            Corner::codes(corners) == cube@.corners,
            forall|slot: int| 0 <= slot < i ==> corner::twist(#[trigger] cube@.corners[slot]) == 0,
        decreases 8 - i,
    {
        assert(cube@.corners[i as int] == corners[i as int]@);
        if !corners[i].is_oriented() {
            return false;
        }
        i += 1;
    }
    let mut j: usize = 0;
    while j < 12
        invariant
            j <= 12,
            Edge::codes(edges) == cube@.edges,
            forall|slot: int| 0 <= slot < 8 ==> corner::twist(#[trigger] cube@.corners[slot]) == 0,
            forall|slot: int| 0 <= slot < j ==> edge::flip(#[trigger] cube@.edges[slot]) == 0,
            forall|slot: int|
                0 <= slot < j ==> (edge::slot_normal(slot) == 1) == (edge::slot_normal(
                    edge::home(#[trigger] cube@.edges[slot]),
                ) == 1),
        decreases 12 - j,
    {
        assert(cube@.edges[j as int] == edges[j as int]@);
        let piece = edges[j];
        let position = EdgePosition::from_index(j as u8);
        if !piece.is_oriented() {
            return false;
        }
        if (position.normal() == Axis::Y) != (piece.position().normal() == Axis::Y) {
            return false;
        }
        j += 1;
    }
    true
}

/// Brings a cube into G1: the way that the search finds, led by the
/// tables of the first phase, if it is a way into G1.
pub fn solve_to_g1(cube: Cube, prune_table: &PruneTable) -> (solution: Option<SearchSolution>)
    ensures
        match solution {
            Some(s) => Some(s@),
            None => None,
        } == guided(
            idastar_path(cube@, GuideView::ToG1(prune_table@)),
            cube@,
            GuideView::ToG1(prune_table@),
        ),
        solution matches Some(s) ==> s@[0] == cube@ && s@.last().in_g1(),
{
    search_idastar(cube, &Guide::ToG1(prune_table))
}

/// Solves a cube of G1 within G1: the way that the search finds, led by
/// the tables of the second phase, if it is a way to the solved cube by
/// moves that stay in G1. Every cube on that way is a cube of G1.
pub fn solve_from_g1(cube: Cube, prune_table: &PruneTable) -> (solution: Option<SearchSolution>)
    requires
        cube@.in_g1(),
    ensures
        match solution {
            Some(s) => Some(s@),
            None => None,
        } == guided(
            idastar_path(cube@, GuideView::FromG1(prune_table@)),
            cube@,
            GuideView::FromG1(prune_table@),
        ),
        solution matches Some(s) ==> s@[0] == cube@ && s@.last() == CubeView::solved(),
        solution matches Some(s) ==> GuideView::FromG1(prune_table@).leads(s@),
        solution matches Some(s) ==> forall|k: int| 0 <= k < s@.len() ==> (#[trigger] s@[k]).in_g1(),
{
    proof {
        use_type_invariant(&cube);
    }
    let solution = search_idastar(cube, &Guide::FromG1(prune_table));
    proof {
        if let Some(s) = &solution {
            assert forall|k: int| 0 <= k < s@.len() implies (#[trigger] s@[k]).in_g1() by {
                lemma_path_in_g1(s@, prune_table@, k);
            }
        }
    }
    solution
}

/// Solves a cube in two phases with given tables.
///
/// A solution that comes back leads from the cube to the solved cube. None
/// comes back only if one of the searches does not return a way to its goal.
pub fn solve_with_table(cube: Cube, prune_table: &PruneTable) -> (solution: Option<
    SearchSolution,
>)
    ensures
        match solution {
            Some(s) => Some(s@),
            None => None,
        } == two_phase_path(cube@, prune_table@),
        solution matches Some(s) ==> s@[0] == cube@ && s@.last() == CubeView::solved()
            && cube@.moved_all(path_moves(s@)) == CubeView::solved(),
{
    let phase1 = match solve_to_g1(cube, prune_table) {
        Some(solution) => solution,
        None => {
            return None;
        },
    };
    let phase2 = match solve_from_g1(phase1.final_state(), prune_table) {
        Some(solution) => solution,
        None => {
            return None;
        },
    };
    let joint = phase1.concat(phase2);
    proof {
        use_type_invariant(&joint);
        lemma_path_moves(joint@);
    }
    Some(joint)
}

/// Solves a cube in two phases, with tables filled from scratch.
///
/// What comes back is what [`solve_with_table`] gives with tables of exact distances.
pub fn solve(cube: Cube) -> (solution: Option<SearchSolution>)
    ensures
        exists|bytes: Seq<u8>|
            PruneTable::is_exact(bytes) && #[trigger] two_phase_path(cube@, bytes) == match solution {
                Some(s) => Some(s@),
                None => None,
            },
        solution matches Some(s) ==> s@[0] == cube@ && s@.last() == CubeView::solved()
            && cube@.moved_all(path_moves(s@)) == CubeView::solved(),
{
    let prune_table = PruneTable::load_or_generate(None);
    let solution = solve_with_table(cube, &prune_table);
    proof {
        assert(two_phase_path(cube@, prune_table@) == match solution {
            Some(s) => Some(s@),
            None => None,
        });
    }
    solution
}

/// The moves of a solution, made one after the other, solve the cube.
pub proof fn lemma_solution_solves(cube: CubeView, solution: Seq<CubeView>)
    requires
        is_path(solution),
        solution[0] == cube,
        solution.last() == CubeView::solved(),
    ensures
        cube.moved_all(path_moves(solution)) == CubeView::solved(),
{
    lemma_path_moves(solution);
}

} // verus!
