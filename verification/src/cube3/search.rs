//! Searching for a way from one cube to another.
//!
//! The searches themselves are those of the `pathfinding` crate. What comes
//! back from them is checked here, step by step, before it is called a
//! solution: a [`SearchSolution`] is a sequence of cubes in which each cube
//! is one move from the one before it.
use crate::alg::Alg;
use crate::cube3::coordinate::{g1_moves, g1_nth};
use crate::cube3::cube::{Cube, CubeView};
use crate::cube3::kociemba::is_in_g1;
use crate::cube3::prune_table::PruneTable;
use crate::cube_n::corner;
use crate::cube_n::edge;
use crate::cube_n::mov::Move;
use vstd::prelude::*;

verus! {

/// The first of the eighteen moves from the `k`-th on that leads from one
/// cube to another, as its place in [`Move::nth`]; 18 if none does.
pub open spec fn first_join(from: CubeView, to: CubeView, k: int) -> int
    decreases 18 - k,
{
    if k >= 18 {
        18
    } else if from.moved(Move::nth(k)) == to {
        k
    } else {
        first_join(from, to, k + 1)
    }
}

/// Whether one move leads from one cube to another.
pub open spec fn joined(from: CubeView, to: CubeView) -> bool {
    first_join(from, to, 0) < 18
}

/// The first move, in the order of [`Move::nth`], that leads from one cube to another.
pub open spec fn joining(from: CubeView, to: CubeView) -> Option<Move> {
    if joined(from, to) {
        Some(Move::nth(first_join(from, to, 0)))
    } else {
        None
    }
}

/// Whether cubes make a path: there is a first one, and each is one move from the one before.
pub open spec fn is_path(states: Seq<CubeView>) -> bool {
    &&& states.len() > 0
    &&& forall|i: int| 0 <= i < states.len() - 1 ==> joined(#[trigger] states[i], states[i + 1])
}

/// The moves of a path: from each cube to the next, the first move that leads there.
pub open spec fn path_moves(states: Seq<CubeView>) -> Seq<Move> {
    Seq::new(
        (states.len() - 1) as nat,
        |i: int| Move::nth(first_join(states[i], states[i + 1], 0)),
    )
}

/// The views of some cubes.
pub open spec fn views(states: Seq<Cube>) -> Seq<CubeView> {
    Seq::new(states.len(), |i: int| states[i]@)
}

/// The views of cubes that may not be there.
pub open spec fn option_views(states: Option<Vec<Cube>>) -> Option<Seq<CubeView>> {
    match states {
        Some(states) => Some(views(states@)),
        None => None,
    }
}

/// The first joining move is a move that joins, and none before it does.
pub proof fn lemma_first_join(from: CubeView, to: CubeView, k: int)
    requires
        0 <= k <= 18,
    ensures
        k <= first_join(from, to, k) <= 18,
        first_join(from, to, k) < 18 ==> from.moved(Move::nth(first_join(from, to, k))) == to,
        forall|j: int| k <= j < first_join(from, to, k) ==> from.moved(Move::nth(j)) != to,
    decreases 18 - k,
{
    if k < 18 && from.moved(Move::nth(k)) != to {
        lemma_first_join(from, to, k + 1);
    }
}

/// Making the moves of a path one after the other leads from its first cube to its last.
pub proof fn lemma_path_moves(states: Seq<CubeView>)
    requires
        is_path(states),
    ensures
        states[0].moved_all(path_moves(states)) == states.last(),
        path_moves(states).len() == states.len() - 1,
    decreases states.len(),
{
    if states.len() > 1 {
        let shorter = states.drop_last();
        assert forall|i: int| 0 <= i < shorter.len() - 1 implies joined(
            #[trigger] shorter[i],
            shorter[i + 1],
        ) by {
            assert(joined(states[i], states[i + 1]));
        }
        lemma_path_moves(shorter);
        assert(path_moves(states).drop_last() =~= path_moves(shorter));
        let n = states.len() as int;
        assert(joined(states[n - 2], states[n - 1]));
        lemma_first_join(states[n - 2], states[n - 1], 0);
        assert(shorter.last() == states[n - 2]);
    }
}

/// What a search is after.
#[derive(Debug, Clone, Copy, PartialEq, Eq, Hash, Structural)]
pub enum Goal {
    /// The solved cube.
    Solved,
    /// Any cube of G1.
    G1,
}

impl Goal {
    /// Whether a cube is what the search is after.
    pub open spec fn reached(self, cube: CubeView) -> bool {
        match self {
            Goal::Solved => cube == CubeView::solved(),
            Goal::G1 => cube.in_g1(),
        }
    }

    /// Whether a cube is what the search is after.
    pub fn holds(self, cube: &Cube) -> (reached: bool)
        ensures
            reached == self.reached(cube@),
    {
        match self {
            Goal::Solved => cube.is_solved(),
            Goal::G1 => is_in_g1(*cube),
        }
    }
}

/// What a path is if it leads from `start` to what the search is after, and
/// nothing if it does not.
pub open spec fn accepted(path: Option<Seq<CubeView>>, start: CubeView, goal: Goal) -> Option<
    Seq<CubeView>,
> {
    match path {
        Some(states) => if is_path(states) && states[0] == start && goal.reached(states.last()) {
            Some(states)
        } else {
            None
        },
        None => None,
    }
}

/// A way from one cube to another: the cubes that it passes, each one move
/// from the one before.
#[derive(Debug)]
pub struct SearchSolution {
    states: Vec<Cube>,
}

impl View for SearchSolution {
    type V = Seq<CubeView>;

    closed spec fn view(&self) -> Seq<CubeView> {
        views(self.states@)
    }
}

impl SearchSolution {
    /// The cubes of every solution make a path.
    #[verifier::type_invariant]
    pub open spec fn wf(self) -> bool {
        is_path(self@)
    }

    /// The move that leads from one cube to another: the first that does, in
    /// the order of [`Move::nth`].
    pub fn connect(start: Cube, end: Cube) -> (mov: Option<Move>)
        ensures
            mov == joining(start@, end@),
    {
        let moves = Move::iter();
        let mut k: usize = 0;
        while k < 18
            invariant
                k <= 18,
                forall|j: int| 0 <= j < 18 ==> moves[j] == Move::nth(j),
                first_join(start@, end@, 0) == first_join(start@, end@, k as int),
            decreases 18 - k,
        {
            if start.mov_single(moves[k]).equals(&end) {
                return Some(moves[k]);
            }
            k += 1;
        }
        None
    }

    /// The solution that passes the given cubes, if they make a path.
    pub fn from_states(states: Vec<Cube>) -> (solution: Option<SearchSolution>)
        ensures
            solution.is_some() == is_path(views(states@)),
            solution matches Some(s) ==> s@ == views(states@),
    {
        if states.len() == 0 {
            return None;
        }
        let mut i: usize = 0;
        while i + 1 < states.len()
            invariant
                i < states.len(),
                forall|j: int| 0 <= j < i ==> joined(#[trigger] states[j]@, states[j + 1]@),
            decreases states.len() - i,
        {
            if SearchSolution::connect(states[i], states[i + 1]).is_none() {
                proof {
                    assert(!joined(views(states@)[i as int], views(states@)[i + 1]));
                }
                return None;
            }
            i += 1;
        }
        proof {
            assert forall|j: int| 0 <= j < views(states@).len() - 1 implies joined(
                #[trigger] views(states@)[j],
                views(states@)[j + 1],
            ) by {
                assert(joined(states[j]@, states[j + 1]@));
            }
        }
        Some(SearchSolution { states })
    }

    /// What came back from a search, if it is a path from `start` to what
    /// the search was after.
    pub fn checked(path: Option<Vec<Cube>>, start: &Cube, goal: Goal) -> (solution: Option<
        SearchSolution,
    >)
        ensures
            match solution {
                Some(s) => Some(s@),
                None => None,
            } == accepted(option_views(path), start@, goal),
    {
        let states = match path {
            Some(states) => states,
            None => {
                return None;
            },
        };
        let ghost seen = views(states@);
        let solution = match SearchSolution::from_states(states) {
            Some(solution) => solution,
            None => {
                return None;
            },
        };
        if !solution.states[0].equals(start) {
            return None;
        }
        let last = solution.final_state();
        if !goal.holds(&last) {
            return None;
        }
        Some(solution)
    }

    /// Whether every step of the solution is one of the moves of a guide.
    pub fn follows(&self, guide: &Guide) -> (led: bool)
        ensures
            led == guide@.leads(self@),
    {
        proof {
            use_type_invariant(self);
        }
        let mut i: usize = 0;
        while i + 1 < self.states.len()
            invariant
                0 < self.states.len(),
                i < self.states.len(),
                forall|j: int| 0 <= j < i ==> guide@.joins(#[trigger] self@[j], self@[j + 1]),
            decreases self.states.len() - i,
        {
            if !guide.joins(&self.states[i], &self.states[i + 1]) {
                proof {
                    assert(!guide@.joins(self@[i as int], self@[i + 1]));
                }
                return false;
            }
            proof {
                assert(guide@.joins(self@[i as int], self@[i + 1]));
            }
            i += 1;
        }
        true
    }

    /// The cubes that the solution passes.
    pub fn states(&self) -> (states: &Vec<Cube>)
        ensures
            views(states@) == self@,
            is_path(self@),
    {
        proof {
            use_type_invariant(self);
        }
        &self.states
    }

    /// The moves of the solution.
    pub fn moves(self) -> (moves: Vec<Move>)
        ensures
            moves@ == path_moves(self@),
            self@[0].moved_all(moves@) == self@.last(),
    {
        proof {
            use_type_invariant(&self);
            lemma_path_moves(self@);
        }
        let mut moves: Vec<Move> = Vec::new();
        let mut i: usize = 0;
        while i + 1 < self.states.len()
            invariant
                i < self.states.len(),
                is_path(self@),
                moves.len() == i,
                forall|j: int|
                    0 <= j < i ==> moves[j] == Move::nth(
                        first_join(self.states[j]@, self.states[j + 1]@, 0),
                    ),
            decreases self.states.len() - i,
        {
            proof {
                assert(joined(self@[i as int], self@[i + 1]));
            }
            match SearchSolution::connect(self.states[i], self.states[i + 1]) {
                Some(mov) => {
                    moves.push(mov);
                },
                None => {
                    assert(false);
                },
            }
            i += 1;
        }
        proof {
            assert(moves@ =~= path_moves(self@));
        }
        moves
    }

    /// The moves of the solution as an algorithm.
    pub fn alg(self) -> (alg: Alg<Move>)
        ensures
            alg.moves@ == path_moves(self@),
            self@[0].moved_all(alg.moves@) == self@.last(),
    {
        Alg { moves: self.moves() }
    }

    /// The cube that the solution starts from.
    pub fn initial_state(&self) -> (cube: Cube)
        ensures
            self@.len() > 0,
            cube@ == self@[0],
    {
        proof {
            use_type_invariant(self);
        }
        self.states[0]
    }

    /// The cube that the solution ends with.
    pub fn final_state(&self) -> (cube: Cube)
        ensures
            self@.len() > 0,
            cube@ == self@.last(),
    {
        proof {
            use_type_invariant(self);
        }
        self.states[self.states.len() - 1]
    }

    /// This solution and then another, which starts where this one ends.
    pub fn concat(self, other: SearchSolution) -> (joint: SearchSolution)
        requires
            self@.last() == other@[0],
        ensures
            joint@ == self@ + other@.skip(1),
    {
        proof {
            use_type_invariant(&self);
            use_type_invariant(&other);
        }
        let ghost first = self@;
        let ghost second = other@;
        let mut states = self.states;
        let mut i: usize = 1;
        while i < other.states.len()
            invariant
                1 <= i <= other.states.len(),
                second == other@,
                is_path(first),
                is_path(second),
                first.last() == second[0],
                views(states@) =~= first + second.subrange(1, i as int),
            decreases other.states.len() - i,
        {
            let ghost before = views(states@);
            states.push(other.states[i]);
            proof {
                assert(second[i as int] == other.states[i as int]@);
                assert(views(states@) =~= before.push(second[i as int]));
                assert(second.subrange(1, i + 1) =~= second.subrange(1, i as int).push(
                    second[i as int],
                ));
            }
            i += 1;
        }
        proof {
            let all = views(states@);
            assert(second.subrange(1, second.len() as int) =~= second.skip(1));
            assert forall|j: int| 0 <= j < all.len() - 1 implies joined(
                #[trigger] all[j],
                all[j + 1],
            ) by {
                if j < first.len() - 1 {
                    assert(joined(first[j], first[j + 1]));
                } else {
                    let k = j - (first.len() - 1);
                    assert(joined(second[k], second[k + 1]));
                }
            }
        }
        SearchSolution { states }
    }
}

/// How a search is led: by what it takes for the distance that is left, and
/// with it what it is after and which moves it may make.
#[derive(Debug, Clone, Copy)]
pub enum Guide<'a> {
    /// Into G1 by any move, led by the tables of the first phase.
    ToG1(&'a PruneTable),
    /// From G1 to the solved cube by the moves that stay in G1, led by the
    /// tables of the second phase.
    FromG1(&'a PruneTable),
    /// To the solved cube by any move, led by the turn distances of the pieces.
    Manhattan,
}

/// A guide in contracts: the tables are the bytes that they hold.
pub enum GuideView {
    ToG1(Seq<u8>),
    FromG1(Seq<u8>),
    Manhattan,
}

impl<'a> View for Guide<'a> {
    type V = GuideView;

    open spec fn view(&self) -> GuideView {
        match self {
            Guide::ToG1(table) => GuideView::ToG1(table@),
            Guide::FromG1(table) => GuideView::FromG1(table@),
            Guide::Manhattan => GuideView::Manhattan,
        }
    }
}

impl GuideView {
    /// What the search is after.
    pub open spec fn goal(self) -> Goal {
        match self {
            GuideView::ToG1(_) => Goal::G1,
            _ => Goal::Solved,
        }
    }

    /// What the guide takes for the number of moves that are left.
    pub open spec fn estimate(self, cube: CubeView) -> int {
        match self {
            GuideView::ToG1(bytes) => PruneTable::phase1_bound(bytes, cube) as int,
            GuideView::FromG1(bytes) => PruneTable::phase2_bound(bytes, cube) as int,
            GuideView::Manhattan => manhattan(cube),
        }
    }

    /// The number of moves that the search may make from a cube.
    pub open spec fn move_count(self) -> int {
        match self {
            GuideView::FromG1(_) => 10,
            _ => 18,
        }
    }

    /// The moves that the search may make from a cube, in order.
    pub open spec fn move_nth(self, k: int) -> Move {
        match self {
            GuideView::FromG1(_) => g1_nth(k),
            _ => Move::nth(k),
        }
    }

    /// The cubes from which the search can get to what it is after: within
    /// G1, those of G1.
    pub open spec fn admits(self, cube: CubeView) -> bool {
        match self {
            GuideView::FromG1(_) => cube.in_g1(),
            _ => true,
        }
    }

    /// Whether one of the moves that the search may make leads from one cube to another.
    pub open spec fn joins(self, from: CubeView, to: CubeView) -> bool {
        exists|k: int| 0 <= k < self.move_count() && from.moved(#[trigger] self.move_nth(k)) == to
    }

    /// Whether every step of a path is one of the moves that the search may make.
    pub open spec fn leads(self, states: Seq<CubeView>) -> bool {
        forall|i: int| 0 <= i < states.len() - 1 ==> self.joins(#[trigger] states[i], states[i + 1])
    }
}

/// What a path is if it leads from `start` to what the guide is after by
/// the moves of the guide, and nothing if it does not.
pub open spec fn guided(path: Option<Seq<CubeView>>, start: CubeView, guide: GuideView) -> Option<
    Seq<CubeView>,
> {
    match accepted(path, start, guide.goal()) {
        Some(states) => if guide.leads(states) {
            Some(states)
        } else {
            None
        },
        None => None,
    }
}

impl<'a> Guide<'a> {
    /// What the search is after.
    pub fn goal(&self) -> (goal: Goal)
        ensures
            goal == self@.goal(),
    {
        match self {
            Guide::ToG1(_) => Goal::G1,
            _ => Goal::Solved,
        }
    }

    /// Whether a cube is what the search is after.
    pub fn is_goal(&self, cube: &Cube) -> (reached: bool)
        ensures
            reached == self@.goal().reached(cube@),
    {
        self.goal().holds(cube)
    }

    /// What the guide takes for the number of moves that are left.
    pub fn estimate(&self, cube: &Cube) -> (bound: u32)
        ensures
            bound as int == self@.estimate(cube@),
    {
        match self {
            Guide::ToG1(table) => table.phase1_distance_heuristic(*cube) as u32,
            Guide::FromG1(table) => table.phase2_distance_heuristic(*cube) as u32,
            Guide::Manhattan => manhattan_distance(*cube) as u32,
        }
    }

    /// The cubes that the search may go to from a cube, each at the cost of one move.
    pub fn successors(&self, cube: &Cube) -> (next: Vec<(Cube, u32)>)
        ensures
            next.len() == self@.move_count(),
            forall|k: int|
                0 <= k < next.len() ==> (#[trigger] next[k]).0@ == cube@.moved(self@.move_nth(k))
                    && next[k].1 == 1,
    {
        let mut next: Vec<(Cube, u32)> = Vec::new();
        match self {
            Guide::FromG1(_) => {
                let moves = g1_moves();
                let mut k: usize = 0;
                while k < 10
                    invariant
                        k <= 10,
                        next.len() == k,
                        self@.move_count() == 10,
                        forall|j: int| 0 <= j < 10 ==> moves[j] == self@.move_nth(j),
                        forall|j: int|
                            0 <= j < k ==> (#[trigger] next[j]).0@ == cube@.moved(
                                self@.move_nth(j),
                            ) && next[j].1 == 1,
                    decreases 10 - k,
                {
                    next.push((cube.mov_single(moves[k]), 1));
                    k += 1;
                }
            },
            _ => {
                let moves = Move::all();
                let mut k: usize = 0;
                while k < 18
                    invariant
                        k <= 18,
                        next.len() == k,
                        self@.move_count() == 18,
                        forall|j: int| 0 <= j < 18 ==> moves[j] == self@.move_nth(j),
                        forall|j: int|
                            0 <= j < k ==> (#[trigger] next[j]).0@ == cube@.moved(
                                self@.move_nth(j),
                            ) && next[j].1 == 1,
                    decreases 18 - k,
                {
                    next.push((cube.mov_single(moves[k]), 1));
                    k += 1;
                }
            },
        }
        next
    }

    /// Whether one of the moves that the search may make leads from one cube to another.
    pub fn joins(&self, from: &Cube, to: &Cube) -> (joined: bool)
        ensures
            joined == self@.joins(from@, to@),
    {
        let next = self.successors(from);
        let mut k: usize = 0;
        while k < next.len()
            invariant
                k <= next.len(),
                next.len() == self@.move_count(),
                forall|j: int|
                    0 <= j < next.len() ==> (#[trigger] next[j]).0@ == from@.moved(
                        self@.move_nth(j),
                    ),
                forall|j: int| 0 <= j < k ==> from@.moved(#[trigger] self@.move_nth(j)) != to@,
            decreases next.len() - k,
        {
            if next[k].0.equals(to) {
                assert(from@.moved(self@.move_nth(k as int)) == to@);
                return true;
            }
            k += 1;
        }
        false
    }
}

/// The sum over the first `n` slots of the turn distances of the corners from their homes.
pub open spec fn corner_distances(corners: Seq<int>, n: nat) -> int
    decreases n,
{
    if n == 0 {
        0
    } else {
        corner_distances(corners, (n - 1) as nat) + corner::turn_distance(
            n - 1,
            corner::home(corners[n - 1]),
        )
    }
}

/// The sum over the first `n` slots of the turn distances of the edges from their homes.
pub open spec fn edge_distances(edges: Seq<int>, n: nat) -> int
    decreases n,
{
    if n == 0 {
        0
    } else {
        edge_distances(edges, (n - 1) as nat) + edge::turn_distance(
            n - 1,
            edge::home(edges[n - 1]),
        )
    }
}

/// The sum of the turn distances of all the pieces from their homes.
pub open spec fn manhattan(cube: CubeView) -> int {
    corner_distances(cube.corners, 8) + edge_distances(cube.edges, 12)
}

/// The sum of the turn distances of all the pieces from their homes: how
/// many turns it would take to bring each piece home by itself.
pub fn manhattan_distance(state: Cube) -> (distance: u8)
    ensures
        distance as int == manhattan(state@),
        distance <= 40,
{
    let corners = state.corners();
    let edges = state.edges();
    let mut total: u8 = 0;
    let mut i: usize = 0;
    while i < 8
        invariant
            i <= 8,
            corners.len() == 8,
            forall|slot: int|
                0 <= slot < 8 ==> (#[trigger] corners[slot]).0@ == slot && corners[slot].1@
                    == state@.corners[slot],
            total as int == corner_distances(state@.corners, i as nat),
            total <= 2 * i,
        decreases 8 - i,
    {
        let (position, piece) = corners[i];
        total = total + position.turn_distance(piece.position());
        i += 1;
    }
    let mut j: usize = 0;
    while j < 12
        invariant
            j <= 12,
            edges.len() == 12,
            forall|slot: int|
                0 <= slot < 12 ==> (#[trigger] edges[slot]).0@ == slot && edges[slot].1@
                    == state@.edges[slot],
            total as int == corner_distances(state@.corners, 8) + edge_distances(
                state@.edges,
                j as nat,
            ),
            total <= 16 + 2 * j,
        decreases 12 - j,
    {
        let (position, piece) = edges[j];
        total = total + position.turn_distance(piece.position());
        j += 1;
    }
    total
}

/// The path that the iterative deepening A* search of `pathfinding` finds
/// from a cube, led by a guide.
pub uninterp spec fn idastar_path(start: CubeView, guide: GuideView) -> Option<Seq<CubeView>>;

/// The path that the breadth-first search of `pathfinding` finds from a cube to a goal.
pub uninterp spec fn bfs_path(start: CubeView, goal: Goal) -> Option<Seq<CubeView>>;

/// Calls `pathfinding::directed::idastar::idastar` with the cube as the start,
/// and with the successors, the estimate and the goal of the guide.
///
/// The contract only gives what the search returns a name: it finds its
/// path from its arguments alone. Nothing is taken from it about the path.
/// The start must be a cube from which the goal can be reached by the
/// moves of the guide, for the search does not come back if there is no way.
#[verifier::external_body]
fn idastar_states(start: &Cube, guide: &Guide) -> (path: Option<Vec<Cube>>)
    requires
        guide@.admits(start@),
    ensures
        option_views(path) == idastar_path(start@, guide@),
{
    pathfinding::directed::idastar::idastar(
        start,
        |cube| guide.successors(cube),
        |cube| guide.estimate(cube),
        |cube| guide.is_goal(cube),
    ).map(|found| found.0)
}

/// Calls `pathfinding::directed::bfs::bfs` with the cube as the start, the
/// eighteen neighbours of a cube as its successors, and the goal.
///
/// The contract only gives what the search returns a name: it finds its
/// path from its arguments alone. Nothing is taken from it about the path.
#[verifier::external_body]
fn bfs_states(start: &Cube, goal: Goal) -> (path: Option<Vec<Cube>>)
    ensures
        option_views(path) == bfs_path(start@, goal),
{
    pathfinding::directed::bfs::bfs(start, |cube| neighbor_states(cube), |cube| goal.holds(cube))
}

/// The eighteen cubes that are one move from a cube.
pub fn neighbor_states(cube: &Cube) -> (next: Vec<Cube>)
    ensures
        next.len() == 18,
        forall|k: int| 0 <= k < 18 ==> (#[trigger] next[k])@ == cube@.moved(Move::nth(k)),
{
    let moves = Move::all();
    let mut next: Vec<Cube> = Vec::new();
    let mut k: usize = 0;
    while k < 18
        invariant
            k <= 18,
            next.len() == k,
            forall|j: int| 0 <= j < 18 ==> moves[j] == Move::nth(j),
            forall|j: int| 0 <= j < k ==> (#[trigger] next[j])@ == cube@.moved(Move::nth(j)),
        decreases 18 - k,
    {
        next.push(cube.mov_single(moves[k]));
        k += 1;
    }
    next
}

/// Searches breadth first for a way from a cube to a goal.
///
/// Gives the path that `pathfinding` finds if it is a way from the cube to
/// the goal, and nothing if it is not.
pub fn search_bfs(initial_state: Cube, goal: Goal) -> (solution: Option<SearchSolution>)
    ensures
        match solution {
            Some(s) => Some(s@),
            None => None,
        } == accepted(bfs_path(initial_state@, goal), initial_state@, goal),
        solution matches Some(s) ==> s@[0] == initial_state@ && goal.reached(s@.last()),
{
    let path = bfs_states(&initial_state, goal);
    SearchSolution::checked(path, &initial_state, goal)
}

/// Searches breadth first for a way to the solved cube.
pub fn solve_bfs(state: Cube) -> (solution: Option<SearchSolution>)
    ensures
        match solution {
            Some(s) => Some(s@),
            None => None,
        } == accepted(bfs_path(state@, Goal::Solved), state@, Goal::Solved),
        solution matches Some(s) ==> s@[0] == state@ && s@.last() == CubeView::solved(),
{
    search_bfs(state, Goal::Solved)
}

/// Searches by iterative deepening A* for a way from a cube to the goal of a guide.
///
/// Gives the path that `pathfinding` finds if it is a way from the cube to
/// the goal by the moves of the guide, and nothing if it is not. Within G1
/// the cube must be of G1.
pub fn search_idastar(initial_state: Cube, guide: &Guide) -> (solution: Option<SearchSolution>)
    requires
        guide@.admits(initial_state@),
    ensures
        match solution {
            Some(s) => Some(s@),
            None => None,
        } == guided(idastar_path(initial_state@, guide@), initial_state@, guide@),
        solution matches Some(s) ==> s@[0] == initial_state@ && guide@.goal().reached(s@.last())
            && guide@.leads(s@),
{
    let path = idastar_states(&initial_state, guide);
    match SearchSolution::checked(path, &initial_state, guide.goal()) {
        Some(solution) => if solution.follows(guide) {
            Some(solution)
        } else {
            None
        },
        None => None,
    }
}

/// Searches for a way to the solved cube, led by the turn distances of the pieces.
pub fn solve_manhattan(state: Cube) -> (solution: Option<SearchSolution>)
    ensures
        match solution {
            Some(s) => Some(s@),
            None => None,
        } == guided(idastar_path(state@, GuideView::Manhattan), state@, GuideView::Manhattan),
        solution matches Some(s) ==> s@[0] == state@ && s@.last() == CubeView::solved(),
{
    search_idastar(state, &Guide::Manhattan)
}

} // verus!
