//! The bounds that the pruning tables give are lower bounds: no way to the
//! goal of a phase is shorter than what the tables say of the cube.
use crate::cube3::coord::{flips, twists};
use crate::cube3::coord_laws::{feature, fits, lemma_index_by_feature, marks, marks_before};
use crate::cube3::coordinate::{
    g1_nth,
    is_g1_move,
    lemma_moves_listed,
    slice_homes,
    ud_homes,
    Coord,
};
use crate::cube3::cube::CubeView;
use crate::cube3::fill::{is_distance_table, step};
use crate::cube3::lehmer::count_below;
use crate::cube3::lehmer_laws::lemma_distinct_is_arrangement;
use crate::cube3::placement::in_slice;
use crate::cube3::prune_table::{offset, PruneTable};
use crate::cube3::table_laws::{lemma_fits_moved, lemma_next_of_index, lemma_table_step};
use crate::cube_n::edge;
use crate::cube_n::mov::Move;
use vstd::prelude::*;

verus! {

/// Whether the phase of a coordinate may make every one of some moves.
pub open spec fn all_allowed(coord: Coord, moves: Seq<Move>) -> bool {
    forall|i: int| 0 <= i < moves.len() ==> coord.allows(#[trigger] moves[i])
}

/// The entries below a value, counted from the last entry on.
proof fn lemma_count_below_last(s: Seq<int>, v: int)
    requires
        s.len() > 0,
    ensures
        count_below(s, v) == count_below(s.drop_last(), v) + if s.last() < v {
            1int
        } else {
            0int
        },
    decreases s.len(),
{
    if s.len() > 1 {
        assert(s.drop_last().drop_first() =~= s.drop_first().drop_last());
        lemma_count_below_last(s.drop_first(), v);
    } else {
        assert(s.drop_last() =~= Seq::<int>::empty());
        assert(s.drop_first() =~= Seq::<int>::empty());
    }
}

/// The slice edges among the first homes are the homes from 4 up to 7.
proof fn lemma_marks_by_count(homes: Seq<int>, i: nat)
    requires
        i <= homes.len(),
        forall|k: int| 0 <= k < homes.len() ==> 0 <= #[trigger] homes[k] < 12,
    ensures
        marks_before(homes, i) == count_below(homes.take(i as int), 8) - count_below(
            homes.take(i as int),
            4,
        ),
    decreases i,
{
    if i > 0 {
        lemma_marks_by_count(homes, (i - 1) as nat);
        let prefix = homes.take(i as int);
        assert(prefix.drop_last() =~= homes.take(i - 1));
        lemma_count_below_last(prefix, 8);
        lemma_count_below_last(prefix, 4);
        assert(0 <= homes[i - 1] < 12);
    } else {
        assert(homes.take(0) =~= Seq::<int>::empty());
    }
}

/// A cube that can be reached has every feature as the coordinates take it
/// to be. For the arrangements of the edges the cube must be of G1.
pub proof fn lemma_wf_fits(coord: Coord, cube: CubeView)
    requires
        cube.wf(),
        coord == Coord::UdPermutation || coord == Coord::SlicePermutation ==> cube.in_g1(),
    ensures
        fits(coord, cube),
{
    let homes = edge::homes(cube.edges);
    match coord {
        Coord::SlicePlacement => {
            assert forall|k: int| 0 <= k < homes.len() implies 0 <= #[trigger] homes[k]
                < homes.len() by {
                assert(edge::valid(cube.edges[k]));
            }
            lemma_distinct_is_arrangement(homes);
            lemma_marks_by_count(homes, 12);
            assert(homes.take(12) =~= homes);
            assert(count_below(homes, 8) == 8);
            assert(count_below(homes, 4) == 4);
            assert forall|k: int| 0 <= k < 12 implies in_slice(cube.edges[k]) == in_slice(
                homes[k],
            ) by {
                assert(edge::valid(cube.edges[k]));
            }
            crate::cube3::coord_laws::lemma_placement_rank_marks(cube.edges, homes, 12, 0);
        },
        Coord::UdPermutation => {
            let ud = ud_homes(cube.edges);
            assert forall|a: int, b: int| 0 <= a < ud.len() && 0 <= b < ud.len() && a != b implies ud[a]
                != ud[b] by {
                let sa = crate::cube3::coordinate::ud_slot(a);
                let sb = crate::cube3::coordinate::ud_slot(b);
                assert(homes[sa] != homes[sb]);
            }
            assert forall|k: int| 0 <= k < 8 implies !in_slice(
                #[trigger] cube.edges[crate::cube3::coordinate::ud_slot(k)],
            ) by {
                let slot = crate::cube3::coordinate::ud_slot(k);
                assert((edge::slot_normal(slot) == 1) == (edge::slot_normal(
                    edge::home(cube.edges[slot]),
                ) == 1));
            }
        },
        Coord::SlicePermutation => {
            let slice = slice_homes(cube.edges);
            assert forall|a: int, b: int|
                0 <= a < slice.len() && 0 <= b < slice.len() && a != b implies slice[a]
                != slice[b] by {
                assert(homes[4 + a] != homes[4 + b]);
            }
            assert forall|k: int| 0 <= k < 4 implies in_slice(#[trigger] cube.edges[4 + k]) by {
                assert((edge::slot_normal(4 + k) == 1) == (edge::slot_normal(
                    edge::home(cube.edges[4 + k]),
                ) == 1));
            }
        },
        _ => {},
    }
}

/// Along moves that the phase of a coordinate may make, a table of
/// distances falls by one at most with every move: the entry of a cube is at
/// most the number of moves more than the entry of the cube that they lead to.
pub proof fn lemma_table_along(table: Seq<u8>, coord: Coord, cube: CubeView, moves: Seq<Move>)
    requires
        is_distance_table(table, coord),
        fits(coord, cube),
        all_allowed(coord, moves),
    ensures
        fits(coord, cube.moved_all(moves)),
        0 <= coord.index_of(cube) < coord.size(),
        0 <= coord.index_of(cube.moved_all(moves)) < coord.size(),
        table[coord.index_of(cube)] <= moves.len() + table[coord.index_of(cube.moved_all(moves))],
    decreases moves.len(),
{
    coord.lemma_index_in_range(cube);
    if moves.len() > 0 {
        let shorter = moves.drop_last();
        let last = moves.last();
        assert forall|i: int| 0 <= i < shorter.len() implies coord.allows(#[trigger] shorter[i]) by {
            assert(shorter[i] == moves[i]);
        }
        lemma_table_along(table, coord, cube, shorter);
        let before = cube.moved_all(shorter);
        assert(coord.allows(last));
        lemma_fits_moved(coord, before, last);
        lemma_next_of_index(coord, before, last);
        lemma_moves_listed(last);
        let k = if coord.spec_phase1() {
            choose|j: int| 0 <= j < 18 && #[trigger] Move::nth(j) == last
        } else {
            choose|j: int| 0 <= j < 10 && #[trigger] g1_nth(j) == last
        };
        assert(coord.move_nth(k) == last);
        lemma_table_step(table, coord, coord.index_of(before), k);
        assert(step(coord, coord.index_of(before), k) == coord.index_of(before.moved(last))) by {
            reveal(step);
        }
        coord.lemma_index_in_range(before.moved(last));
    }
}

/// A cube of G1 has the twists, the flips and the slice slots of the solved cube.
pub proof fn lemma_g1_indices(coord: Coord, cube: CubeView)
    requires
        cube.valid(),
        cube.in_g1(),
        coord.spec_phase1(),
    ensures
        coord.index_of(cube) == coord.index_of(CubeView::solved()),
{
    let solved = CubeView::solved();
    match coord {
        Coord::CornerOrientation => {
            assert(twists(cube.corners) =~= twists(solved.corners));
        },
        Coord::EdgeOrientation => {
            assert(flips(cube.edges) =~= flips(solved.edges));
        },
        _ => {
            assert forall|k: int| 0 <= k < 12 implies marks(cube.edges)[k] == marks(solved.edges)[k] by {
                assert((edge::slot_normal(k) == 1) == (edge::slot_normal(
                    edge::home(cube.edges[k]),
                ) == 1));
            }
            assert(marks(cube.edges) =~= marks(solved.edges));
        },
    }
    lemma_index_by_feature(coord, cube, solved);
}

/// The bound of the first phase is a lower bound: from a cube that can be
/// reached, no moves that lead into G1 are fewer than the tables say.
pub proof fn lemma_phase1_admissible(bytes: Seq<u8>, cube: CubeView, moves: Seq<Move>)
    requires
        PruneTable::is_exact(bytes),
        cube.wf(),
        forall|i: int| 0 <= i < moves.len() ==> (#[trigger] moves[i]).wf(),
        cube.moved_all(moves).in_g1(),
    ensures
        PruneTable::phase1_bound(bytes, cube) <= moves.len(),
{
    lemma_entry_bound(bytes, Coord::CornerOrientation, cube, moves);
    lemma_entry_bound(bytes, Coord::EdgeOrientation, cube, moves);
    lemma_entry_bound(bytes, Coord::SlicePlacement, cube, moves);
}

/// The entry of a cube in the table of a coordinate of the first phase is
/// at most the number of moves of any way into G1.
proof fn lemma_entry_bound(bytes: Seq<u8>, coord: Coord, cube: CubeView, moves: Seq<Move>)
    requires
        PruneTable::is_exact(bytes),
        coord.spec_phase1(),
        cube.wf(),
        forall|i: int| 0 <= i < moves.len() ==> (#[trigger] moves[i]).wf(),
        cube.moved_all(moves).in_g1(),
    ensures
        PruneTable::entry(bytes, coord, cube) <= moves.len(),
{
    let table = PruneTable::table_of(bytes, coord);
    assert(is_distance_table(table, coord));
    lemma_wf_fits(coord, cube);
    assert forall|i: int| 0 <= i < moves.len() implies coord.allows(#[trigger] moves[i]) by {
        assert(moves[i].wf());
    }
    lemma_table_along(table, coord, cube, moves);
    let end = cube.moved_all(moves);
    lemma_g1_indices(coord, end);
    CubeView::lemma_solved_wf();
    coord.lemma_index_in_range(CubeView::solved());
    assert(table[coord.index_of(CubeView::solved())] == 0);
    assert(table[coord.index_of(cube)] == bytes[offset(coord) + coord.index_of(cube)]);
}

/// The bound of the second phase is a lower bound: from a cube of G1, no
/// moves that stay in G1 and solve the cube are fewer than the tables say.
pub proof fn lemma_phase2_admissible(bytes: Seq<u8>, cube: CubeView, moves: Seq<Move>)
    requires
        PruneTable::is_exact(bytes),
        cube.wf(),
        cube.in_g1(),
        forall|i: int| 0 <= i < moves.len() ==> (#[trigger] moves[i]).wf() && is_g1_move(moves[i]),
        cube.moved_all(moves) == CubeView::solved(),
    ensures
        PruneTable::phase2_bound(bytes, cube) <= moves.len(),
{
    lemma_solved_bound(bytes, Coord::CornerPermutation, cube, moves);
    lemma_solved_bound(bytes, Coord::SlicePermutation, cube, moves);
    lemma_solved_bound(bytes, Coord::UdPermutation, cube, moves);
}

/// The entry of a cube of G1 in the table of a coordinate of the second
/// phase is at most the number of moves of any way within G1 to the solved cube.
proof fn lemma_solved_bound(bytes: Seq<u8>, coord: Coord, cube: CubeView, moves: Seq<Move>)
    requires
        PruneTable::is_exact(bytes),
        !coord.spec_phase1(),
        cube.wf(),
        cube.in_g1(),
        forall|i: int| 0 <= i < moves.len() ==> (#[trigger] moves[i]).wf() && is_g1_move(moves[i]),
        cube.moved_all(moves) == CubeView::solved(),
    ensures
        PruneTable::entry(bytes, coord, cube) <= moves.len(),
{
    let table = PruneTable::table_of(bytes, coord);
    assert(is_distance_table(table, coord));
    lemma_wf_fits(coord, cube);
    assert forall|i: int| 0 <= i < moves.len() implies coord.allows(#[trigger] moves[i]) by {
        assert(moves[i].wf() && is_g1_move(moves[i]));
    }
    lemma_table_along(table, coord, cube, moves);
    CubeView::lemma_solved_wf();
    coord.lemma_index_in_range(CubeView::solved());
    assert(table[coord.index_of(CubeView::solved())] == 0);
    assert(table[coord.index_of(cube)] == bytes[offset(coord) + coord.index_of(cube)]);
}

/// There is one set of exact tables: two sets of tables that are filled from
/// scratch are the same, byte by byte.
pub proof fn lemma_exact_unique(first: Seq<u8>, second: Seq<u8>)
    requires
        PruneTable::is_exact(first),
        PruneTable::is_exact(second),
    ensures
        first == second,
{
    assert forall|i: int| 0 <= i < first.len() implies first[i] == second[i] by {
        let coord = if i < 2187 {
            Coord::CornerOrientation
        } else if i < 4235 {
            Coord::EdgeOrientation
        } else if i < 4730 {
            Coord::SlicePlacement
        } else if i < 45050 {
            Coord::CornerPermutation
        } else if i < 85370 {
            Coord::UdPermutation
        } else {
            Coord::SlicePermutation
        };
        let one = PruneTable::table_of(first, coord);
        let other = PruneTable::table_of(second, coord);
        assert(is_distance_table(one, coord));
        assert(is_distance_table(other, coord));
        crate::cube3::table_laws::lemma_table_unique(one, other, coord);
        assert(one[i - offset(coord)] == first[i]);
        assert(other[i - offset(coord)] == second[i]);
    }
    assert(first =~= second);
}

} // verus!
