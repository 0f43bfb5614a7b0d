//! What the pruning tables say of neighbouring values: a move changes the
//! distance by one at most.
//!
//! A move on the pieces that a value stands for leads to the same value
//! whatever those pieces are, as long as they have the feature that the
//! coordinate looks at. So a move and the move back lead from a value to
//! that value again, and the table cannot fall by more than it can rise.
use crate::cube3::coord::{flips, lemma_flip_state, lemma_twist_state, twists};
use crate::cube3::coord_laws::{
    feature,
    fits,
    lemma_index_by_feature,
    lemma_placement_rank_marks,
    lemma_state_of_index,
    marks,
    marks_before,
    ud_place,
};
use crate::cube3::coordinate::{lemma_moves_listed, slice_homes, ud_homes, ud_slot, Coord};
use crate::cube3::cube::CubeView;
use crate::cube3::fill::{is_distance_table, step, UNKNOWN};
use crate::cube3::lehmer::{lemma_arrangement_range, lemma_unrank, unrank};
use crate::cube3::lehmer_laws::lemma_arrangement_distinct;
use crate::cube3::placement::{in_slice, lemma_pascal, pascal, placement_fill};
use crate::cube_n::corner;
use crate::cube_n::edge;
use crate::cube_n::face::Face;
use crate::cube_n::mov::{Amount, Move};
use crate::math::{binomial, lemma_factorial_bound};
use crate::mov::InvertibleMove;
use crate::perm;
use vstd::prelude::*;

verus! {

/// 1 if an edge is a slice edge, and 0 if it is not.
pub open spec fn mark(code: int) -> int {
    if in_slice(code) {
        1
    } else {
        0
    }
}

/// Two pieces that trade places take their marks along.
proof fn lemma_marks_swapped(s: Seq<int>, i: int, j: int, n: nat)
    requires
        0 <= i < s.len(),
        0 <= j < s.len(),
        n <= s.len(),
    ensures
        marks_before(perm::swapped(s, i, j), n) == marks_before(s, n) + (if i < n && !(j < n) {
            mark(s[j]) - mark(s[i])
        } else if j < n && !(i < n) {
            mark(s[i]) - mark(s[j])
        } else {
            0
        }),
    decreases n,
{
    if n > 0 {
        lemma_marks_swapped(s, i, j, (n - 1) as nat);
    }
}

/// A turn keeps the number of slice edges.
pub proof fn lemma_moved_marks(edges: Seq<int>, face: Face, amount: Amount)
    requires
        edge::all_valid(edges),
    ensures
        marks_before(edge::moved(edges, face, amount), 12) == marks_before(edges, 12),
{
    let after = edge::moved(edges, face, amount);
    let s = edge::homes(edges);
    let t = edge::homes(after);
    edge::lemma_moved_valid(edges, face, amount);
    assert forall|k: int| 0 <= k < 12 implies in_slice(edges[k]) == in_slice(s[k]) by {
        assert(edge::valid(edges[k]));
    }
    lemma_placement_rank_marks(edges, s, 12, 0);
    assert forall|k: int| 0 <= k < 12 implies in_slice(after[k]) == in_slice(t[k]) by {
        assert(edge::valid(after[k]));
    }
    lemma_placement_rank_marks(after, t, 12, 0);
    edge::lemma_moved_homes(edges, face, amount);
    let c0 = edge::cycle_slot(face, 0);
    let c1 = edge::cycle_slot(face, 1);
    let c2 = edge::cycle_slot(face, 2);
    let c3 = edge::cycle_slot(face, 3);
    match amount {
        Amount::Single => {
            let s1 = perm::swapped(s, c0, c3);
            let s2 = perm::swapped(s1, c3, c2);
            lemma_marks_swapped(s, c0, c3, 12);
            lemma_marks_swapped(s1, c3, c2, 12);
            lemma_marks_swapped(s2, c2, c1, 12);
        },
        Amount::Double => {
            let s1 = perm::swapped(s, c0, c2);
            lemma_marks_swapped(s, c0, c2, 12);
            lemma_marks_swapped(s1, c1, c3, 12);
        },
        Amount::Reverse => {
            let s1 = perm::swapped(s, c0, c1);
            let s2 = perm::swapped(s1, c1, c2);
            lemma_marks_swapped(s, c0, c1, 12);
            lemma_marks_swapped(s1, c1, c2, 12);
            lemma_marks_swapped(s2, c2, c3, 12);
        },
    }
}

/// The placement that counts for a number holds as many slice edges as were to be placed.
proof fn lemma_fill_marks(index: int, i: nat, r: nat)
    requires
        i <= 12,
        r <= 4,
        r <= i,
        i - r <= 8,
        0 <= index < pascal(i, r),
    ensures
        placement_fill(index, i, r).len() == i,
        marks_before(placement_fill(index, i, r), i) == r,
        forall|k: int| 0 <= k < i ==> 0 <= #[trigger] placement_fill(index, i, r)[k] < 12,
    decreases i,
{
    if i > 0 {
        let fill = placement_fill(index, i, r);
        let below = (i - 1) as nat;
        lemma_pascal(below, r);
        lemma_pascal(i, r);
        if r > 0 && index >= binomial(below, r) {
            let less = (r - 1) as nat;
            lemma_pascal(below, less);
            let inner = placement_fill(index - binomial(below, r), below, less);
            lemma_fill_marks(index - binomial(below, r), below, less);
            assert(fill =~= inner.push((r + 3) as int));
            assert forall|k: int| 0 <= k < below implies in_slice(fill[k]) == in_slice(inner[k]) by {
                assert(fill[k] == inner[k]);
            }
            lemma_placement_rank_marks(fill, inner, below, 0);
            assert forall|k: int| 0 <= k < i implies 0 <= #[trigger] fill[k] < 12 by {
                if k < below {
                    assert(fill[k] == inner[k]);
                }
            }
        } else {
            let inner = placement_fill(index, below, r);
            lemma_fill_marks(index, below, r);
            assert(fill =~= inner.push((i - 1 + 8 - r) % 12));
            assert forall|k: int| 0 <= k < below implies in_slice(fill[k]) == in_slice(inner[k]) by {
                assert(fill[k] == inner[k]);
            }
            lemma_placement_rank_marks(fill, inner, below, 0);
            assert forall|k: int| 0 <= k < i implies 0 <= #[trigger] fill[k] < 12 by {
                if k < below {
                    assert(fill[k] == inner[k]);
                }
            }
        }
    }
}

/// The pieces that a value of a coordinate stands for have their feature
/// as a cube that can be reached has it.
pub proof fn lemma_state_fits(coord: Coord, index: int)
    requires
        0 <= index < coord.size(),
    ensures
        fits(coord, coord.state(index)),
{
    coord.lemma_index_of_state(index);
    let state = coord.state(index);
    match coord {
        Coord::CornerOrientation => {
            lemma_twist_state(index);
        },
        Coord::EdgeOrientation => {
            lemma_flip_state(index);
        },
        Coord::SlicePlacement => {
            lemma_pascal(12, 4);
            lemma_fill_marks(index, 12, 4);
        },
        Coord::CornerPermutation => {
            lemma_factorial_bound(8);
            lemma_unrank(index, 8);
            let s = unrank(index, 8);
            assert forall|k: int| 0 <= k < 8 implies #[trigger] corner::homes(state.corners)[k]
                == s[k] by {
                lemma_arrangement_range(s, k);
            }
            let homes = corner::homes(state.corners);
            assert forall|a: int, b: int|
                0 <= a < homes.len() && 0 <= b < homes.len() && a != b implies homes[a]
                != homes[b] by {
                if a < b {
                    lemma_arrangement_distinct(s, a, b);
                } else {
                    lemma_arrangement_distinct(s, b, a);
                }
            }
            assert(perm::distinct(homes));
        },
        Coord::UdPermutation => {
            lemma_factorial_bound(8);
            lemma_unrank(index, 8);
            let s = unrank(index, 8);
            assert forall|k: int| 0 <= k < 8 implies #[trigger] ud_homes(state.edges)[k] == ud_slot(
                s[k],
            ) && 0 <= s[k] < 8 && !in_slice(state.edges[ud_slot(k)]) by {
                lemma_arrangement_range(s, k);
            }
            let homes = ud_homes(state.edges);
            assert forall|a: int, b: int|
                0 <= a < homes.len() && 0 <= b < homes.len() && a != b implies homes[a]
                != homes[b] by {
                assert(homes[a] == ud_slot(s[a]) && homes[b] == ud_slot(s[b]));
                if a < b {
                    lemma_arrangement_distinct(s, a, b);
                } else {
                    lemma_arrangement_distinct(s, b, a);
                }
            }
            assert(perm::distinct(homes));
            assert forall|k: int| 0 <= k < 8 implies !in_slice(#[trigger] state.edges[ud_slot(k)]) by {
                assert(homes[k] == ud_slot(s[k]) && 0 <= s[k] < 8);
            }
        },
        Coord::SlicePermutation => {
            lemma_factorial_bound(4);
            lemma_unrank(index, 4);
            let s = unrank(index, 4);
            assert forall|k: int| 0 <= k < 4 implies #[trigger] slice_homes(state.edges)[k] == 4
                + s[k] && 0 <= s[k] < 4 && in_slice(state.edges[4 + k]) by {
                lemma_arrangement_range(s, k);
            }
            let homes = slice_homes(state.edges);
            assert forall|a: int, b: int|
                0 <= a < homes.len() && 0 <= b < homes.len() && a != b implies homes[a]
                != homes[b] by {
                assert(homes[a] == 4 + s[a] && homes[b] == 4 + s[b]);
                if a < b {
                    lemma_arrangement_distinct(s, a, b);
                } else {
                    lemma_arrangement_distinct(s, b, a);
                }
            }
            assert(perm::distinct(homes));
            assert forall|k: int| 0 <= k < 4 implies in_slice(#[trigger] state.edges[4 + k]) by {
                assert(homes[k] == 4 + s[k] && 0 <= s[k] < 4);
            }
        },
    }
}

/// A move that the phase of a coordinate may make keeps the feature that
/// the coordinate looks at as a cube that can be reached has it.
pub proof fn lemma_fits_moved(coord: Coord, cube: CubeView, mov: Move)
    requires
        fits(coord, cube),
        coord.allows(mov),
    ensures
        fits(coord, cube.moved(mov)),
{
    let face = mov.face();
    let amount = mov.amount();
    let after = cube.moved(mov);
    corner::lemma_moved_valid(cube.corners, face, amount);
    edge::lemma_moved_valid(cube.edges, face, amount);
    match coord {
        Coord::CornerOrientation => {
            corner::lemma_moved_twist_sum(cube.corners, face, amount);
        },
        Coord::EdgeOrientation => {
            edge::lemma_moved_flip_sum(cube.edges, face, amount);
        },
        Coord::SlicePlacement => {
            lemma_moved_marks(cube.edges, face, amount);
        },
        Coord::CornerPermutation => {
            corner::lemma_moved_parity(cube.corners, face, amount);
        },
        Coord::UdPermutation => {
            assert forall|k: int| 0 <= k < 8 implies !in_slice(#[trigger] after.edges[ud_slot(k)])
                && ud_homes(after.edges)[k] == ud_homes(cube.edges)[ud_place(
                edge::source_slot(ud_slot(k), face, amount),
            )] && 0 <= ud_place(edge::source_slot(ud_slot(k), face, amount)) < 8 && ud_slot(
                ud_place(edge::source_slot(ud_slot(k), face, amount)),
            ) == edge::source_slot(ud_slot(k), face, amount) by {
                let slot = ud_slot(k);
                edge::lemma_slice_kept(slot, face, amount);
                edge::lemma_moved_edge(cube.edges, face, amount, slot);
                let from = edge::source_slot(slot, face, amount);
                assert(ud_slot(ud_place(from)) == from);
                assert(!in_slice(cube.edges[ud_slot(ud_place(from))]));
            }
            assert forall|a: int, b: int| 0 <= a < 8 && 0 <= b < 8 && a != b implies ud_homes(
                after.edges,
            )[a] != ud_homes(after.edges)[b] by {
                edge::lemma_source_back(ud_slot(a), face, amount);
                edge::lemma_source_back(ud_slot(b), face, amount);
                edge::lemma_slice_kept(ud_slot(a), face, amount);
                edge::lemma_slice_kept(ud_slot(b), face, amount);
                let from_a = edge::source_slot(ud_slot(a), face, amount);
                let from_b = edge::source_slot(ud_slot(b), face, amount);
                let pa = ud_place(from_a);
                let pb = ud_place(from_b);
                assert(ud_slot(pa) == from_a && ud_slot(pb) == from_b);
                assert(from_a != from_b);
                assert(0 <= pa < 8 && 0 <= pb < 8 && pa != pb);
                assert(ud_homes(after.edges)[a] == ud_homes(cube.edges)[pa]);
                assert(ud_homes(after.edges)[b] == ud_homes(cube.edges)[pb]);
                assert(ud_homes(cube.edges)[pa] != ud_homes(cube.edges)[pb]);
            }
        },
        Coord::SlicePermutation => {
            assert forall|k: int| 0 <= k < 4 implies in_slice(#[trigger] after.edges[4 + k])
                && slice_homes(after.edges)[k] == slice_homes(cube.edges)[edge::source_slot(
                4 + k,
                face,
                amount,
            ) - 4] && 4 <= edge::source_slot(4 + k, face, amount) < 8 by {
                let slot = 4 + k;
                edge::lemma_slice_kept(slot, face, amount);
                edge::lemma_moved_edge(cube.edges, face, amount, slot);
                let from = edge::source_slot(slot, face, amount);
                assert(in_slice(cube.edges[4 + (from - 4)]));
            }
            assert forall|a: int, b: int| 0 <= a < 4 && 0 <= b < 4 && a != b implies slice_homes(
                after.edges,
            )[a] != slice_homes(after.edges)[b] by {
                edge::lemma_source_back(4 + a, face, amount);
                edge::lemma_source_back(4 + b, face, amount);
                edge::lemma_slice_kept(4 + a, face, amount);
                edge::lemma_slice_kept(4 + b, face, amount);
                let pa = edge::source_slot(4 + a, face, amount) - 4;
                let pb = edge::source_slot(4 + b, face, amount) - 4;
                assert(0 <= pa < 4 && 0 <= pb < 4 && pa != pb);
                assert(slice_homes(after.edges)[a] == slice_homes(cube.edges)[pa]);
                assert(slice_homes(after.edges)[b] == slice_homes(cube.edges)[pb]);
                assert(slice_homes(cube.edges)[pa] != slice_homes(cube.edges)[pb]);
            }
        },
    }
}

/// A move that the phase of a coordinate may make leads from pieces with
/// the same feature to pieces with the same feature.
pub proof fn lemma_feature_moved(coord: Coord, a: CubeView, b: CubeView, mov: Move)
    requires
        a.valid(),
        b.valid(),
        feature(coord, a) == feature(coord, b),
        coord.allows(mov),
    ensures
        feature(coord, a.moved(mov)) == feature(coord, b.moved(mov)),
{
    let face = mov.face();
    let amount = mov.amount();
    let fa = feature(coord, a.moved(mov));
    let fb = feature(coord, b.moved(mov));
    match coord {
        Coord::CornerOrientation => {
            assert forall|slot: int| 0 <= slot < 8 implies fa[slot] == fb[slot] by {
                corner::lemma_moved_corner(a.corners, face, amount, slot);
                corner::lemma_moved_corner(b.corners, face, amount, slot);
                let from = corner::source_slot(slot, face, amount);
                assert(twists(a.corners)[from] == twists(b.corners)[from]);
            }
        },
        Coord::EdgeOrientation => {
            assert forall|slot: int| 0 <= slot < 12 implies fa[slot] == fb[slot] by {
                edge::lemma_moved_edge(a.edges, face, amount, slot);
                edge::lemma_moved_edge(b.edges, face, amount, slot);
                let from = edge::source_slot(slot, face, amount);
                assert(flips(a.edges)[from] == flips(b.edges)[from]);
            }
        },
        Coord::SlicePlacement => {
            assert forall|slot: int| 0 <= slot < 12 implies fa[slot] == fb[slot] by {
                edge::lemma_moved_edge(a.edges, face, amount, slot);
                edge::lemma_moved_edge(b.edges, face, amount, slot);
                let from = edge::source_slot(slot, face, amount);
                assert(marks(a.edges)[from] == marks(b.edges)[from]);
            }
        },
        Coord::CornerPermutation => {
            assert forall|slot: int| 0 <= slot < 8 implies fa[slot] == fb[slot] by {
                corner::lemma_moved_corner(a.corners, face, amount, slot);
                corner::lemma_moved_corner(b.corners, face, amount, slot);
                let from = corner::source_slot(slot, face, amount);
                assert(corner::homes(a.corners)[from] == corner::homes(b.corners)[from]);
            }
        },
        Coord::UdPermutation => {
            assert forall|k: int| 0 <= k < 8 implies fa[k] == fb[k] by {
                let slot = ud_slot(k);
                edge::lemma_slice_kept(slot, face, amount);
                edge::lemma_moved_edge(a.edges, face, amount, slot);
                edge::lemma_moved_edge(b.edges, face, amount, slot);
                let from = edge::source_slot(slot, face, amount);
                assert(ud_slot(ud_place(from)) == from);
                assert(ud_homes(a.edges)[ud_place(from)] == ud_homes(b.edges)[ud_place(from)]);
            }
        },
        Coord::SlicePermutation => {
            assert forall|k: int| 0 <= k < 4 implies fa[k] == fb[k] by {
                let slot = 4 + k;
                edge::lemma_slice_kept(slot, face, amount);
                edge::lemma_moved_edge(a.edges, face, amount, slot);
                edge::lemma_moved_edge(b.edges, face, amount, slot);
                let from = edge::source_slot(slot, face, amount);
                assert(slice_homes(a.edges)[from - 4] == slice_homes(b.edges)[from - 4]);
            }
        },
    }
    assert(fa =~= fb);
}

/// The value that a move leads to from the value of a cube is the value of the moved cube.
pub proof fn lemma_next_of_index(coord: Coord, cube: CubeView, mov: Move)
    requires
        fits(coord, cube),
        coord.allows(mov),
    ensures
        coord.next(coord.index_of(cube), mov) == coord.index_of(cube.moved(mov)),
{
    lemma_state_of_index(coord, cube);
    let state = coord.state(coord.index_of(cube));
    coord.lemma_index_of_state(coord.index_of(cube));
    lemma_feature_moved(coord, state, cube, mov);
    lemma_index_by_feature(coord, state.moved(mov), cube.moved(mov));
}

/// A move and then the move back lead from a value of a coordinate to that value again.
pub proof fn lemma_next_back(coord: Coord, index: int, mov: Move)
    requires
        0 <= index < coord.size(),
        coord.allows(mov),
    ensures
        0 <= coord.next(index, mov) < coord.size(),
        coord.allows(mov.spec_inverse()),
        coord.next(coord.next(index, mov), mov.spec_inverse()) == index,
{
    let state = coord.state(index);
    coord.lemma_index_of_state(index);
    lemma_state_fits(coord, index);
    let after = state.moved(mov);
    lemma_fits_moved(coord, state, mov);
    coord.lemma_index_in_range(after);
    Move::lemma_inverse_involution(mov);
    Move::lemma_parts(mov.face(), mov.amount().reverse());
    lemma_next_of_index(coord, after, mov.spec_inverse());
    state.lemma_move_inverse(mov);
}

/// Along a move, the entries of a table of distances differ by one at most.
pub proof fn lemma_table_step(table: Seq<u8>, coord: Coord, index: int, k: int)
    requires
        is_distance_table(table, coord),
        0 <= index < coord.size(),
        0 <= k < coord.move_count(),
    ensures
        0 <= step(coord, index, k) < coord.size(),
        -1 <= table[step(coord, index, k)] - table[index] <= 1,
{
    reveal(step);
    let mov = coord.move_nth(k);
    lemma_listed_allowed(coord, k);
    lemma_next_back(coord, index, mov);
    let next = coord.next(index, mov);
    let back = mov.spec_inverse();
    lemma_moves_listed(back);
    let k_back = if coord.spec_phase1() {
        choose|j: int| 0 <= j < 18 && #[trigger] Move::nth(j) == back
    } else {
        choose|j: int| 0 <= j < 10 && #[trigger] crate::cube3::coordinate::g1_nth(j) == back
    };
    assert(coord.move_nth(k_back) == back);
    assert(step(coord, next, k_back) == index);
    assert(step(coord, index, k) == next);
}

/// What one table of distances knows of a value, another knows as well, and
/// puts it no further.
proof fn lemma_table_below(first: Seq<u8>, second: Seq<u8>, coord: Coord, index: int)
    requires
        is_distance_table(first, coord),
        is_distance_table(second, coord),
        0 <= index < coord.size(),
        second[index] < UNKNOWN,
    ensures
        first[index] <= second[index],
    decreases second[index],
{
    if second[index] > 0 {
        assert(crate::cube3::fill::reached(second, index));
        let (j, k) = choose|j: int, k: int|
            #![trigger step(coord, j, k)]
            0 <= j < second.len() && 0 <= k < coord.move_count() && second[j] == second[index] - 1
                && step(coord, j, k) == index;
        lemma_table_below(first, second, coord, j);
        assert(first[step(coord, j, k)] <= first[j] + 1);
    }
}

/// There is one table of distances for a coordinate: two tables that are
/// filled from scratch are the same, byte by byte.
pub proof fn lemma_table_unique(first: Seq<u8>, second: Seq<u8>, coord: Coord)
    requires
        is_distance_table(first, coord),
        is_distance_table(second, coord),
    ensures
        first == second,
{
    assert forall|index: int| 0 <= index < first.len() implies first[index] == second[index] by {
        if second[index] < UNKNOWN {
            lemma_table_below(first, second, coord, index);
            lemma_table_below(second, first, coord, index);
        } else if first[index] < UNKNOWN {
            lemma_table_below(second, first, coord, index);
        }
    }
    assert(first =~= second);
}

/// The moves that a coordinate lists are moves that its phase may make.
pub proof fn lemma_listed_allowed(coord: Coord, k: int)
    requires
        0 <= k < coord.move_count(),
    ensures
        coord.allows(coord.move_nth(k)),
{
    if coord.spec_phase1() {
        Move::lemma_parts(Face::ALL[k / 3], Amount::ALL[k % 3]);
    } else {
        Move::lemma_parts(Face::U, Amount::Single);
        Move::lemma_parts(Face::U, Amount::Double);
        Move::lemma_parts(Face::U, Amount::Reverse);
        Move::lemma_parts(Face::D, Amount::Single);
        Move::lemma_parts(Face::D, Amount::Double);
        Move::lemma_parts(Face::D, Amount::Reverse);
        Move::lemma_parts(Face::R, Amount::Double);
        Move::lemma_parts(Face::L, Amount::Double);
        Move::lemma_parts(Face::F, Amount::Double);
        Move::lemma_parts(Face::B, Amount::Double);
        lemma_moves_listed(crate::cube3::coordinate::g1_nth(0));
    }
}

} // verus!
