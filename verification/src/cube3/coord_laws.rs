//! What the coordinates see of a cube, and what taking a coordinate and
//! going back from it keeps.
//!
//! A coordinate looks at one feature of the cube: the twists, the flips,
//! the slots of the slice edges, or the arrangement of some of the pieces.
//! Its value tells the feature, and the feature tells its value.
use crate::cube3::coord::{
    flips,
    flips_only,
    lemma_flip_state_of_index,
    lemma_twist_state_of_index,
    twists,
    twists_only,
};
use crate::cube3::coordinate::{slice_homes, ud_homes, ud_slot, Coord};
use crate::cube3::cube::CubeView;
use crate::cube3::lehmer::lemma_arrangement_range;
use crate::cube3::lehmer_laws::{
    lemma_distinct_is_arrangement,
    lemma_rank_alike,
    lemma_unrank_of_rank,
};
use crate::cube3::placement::{in_slice, lemma_pascal, pascal, placement_fill, placement_rank};
use crate::cube_n::corner;
use crate::cube_n::edge;
use crate::perm;
use vstd::prelude::*;

verus! {

/// For each slot, 1 if it holds a slice edge and 0 if not.
pub open spec fn marks(edges: Seq<int>) -> Seq<int> {
    Seq::new(
        12,
        |k: int|
            if in_slice(edges[k]) {
                1int
            } else {
                0int
            },
    )
}

/// The number of slice edges in the first `i` slots.
pub open spec fn marks_before(edges: Seq<int>, i: nat) -> int
    decreases i,
{
    if i == 0 {
        0
    } else {
        marks_before(edges, (i - 1) as nat) + if in_slice(edges[i - 1]) {
            1int
        } else {
            0int
        }
    }
}

/// The place among the eight slots off the slice of such a slot.
pub open spec fn ud_place(slot: int) -> int {
    if slot < 4 {
        slot
    } else {
        slot - 4
    }
}

/// What a coordinate looks at in a cube.
pub open spec fn feature(coord: Coord, cube: CubeView) -> Seq<int> {
    match coord {
        Coord::CornerOrientation => twists(cube.corners),
        Coord::EdgeOrientation => flips(cube.edges),
        Coord::SlicePlacement => marks(cube.edges),
        Coord::CornerPermutation => corner::homes(cube.corners),
        Coord::UdPermutation => ud_homes(cube.edges),
        Coord::SlicePermutation => slice_homes(cube.edges),
    }
}

/// Whether the feature that a coordinate looks at is as it is in a cube
/// that can be reached, and for the coordinates of the second phase in a
/// cube of G1: the twists add up to a multiple of 3, the flips to a multiple
/// of 2, four edges are slice edges, no corner is there twice, the eight
/// slots off the slice hold the eight edges off the slice, and the four
/// slots of the slice the four slice edges.
pub open spec fn fits(coord: Coord, cube: CubeView) -> bool {
    &&& cube.valid()
    &&& match coord {
        Coord::CornerOrientation => corner::twist_sum(cube.corners) % 3 == 0,
        Coord::EdgeOrientation => edge::flip_sum(cube.edges) % 2 == 0,
        Coord::SlicePlacement => marks_before(cube.edges, 12) == 4,
        Coord::CornerPermutation => corner::distinct_homes(cube.corners),
        Coord::UdPermutation => perm::distinct(ud_homes(cube.edges)) && forall|k: int|
            0 <= k < 8 ==> !in_slice(#[trigger] cube.edges[ud_slot(k)]),
        Coord::SlicePermutation => perm::distinct(slice_homes(cube.edges)) && forall|k: int|
            0 <= k < 4 ==> in_slice(#[trigger] cube.edges[4 + k]),
    }
}

/// What the first slots count for depends only on which of them hold slice edges.
pub proof fn lemma_placement_rank_marks(a: Seq<int>, b: Seq<int>, i: nat, r: nat)
    requires
        forall|k: int| 0 <= k < i ==> in_slice(a[k]) == in_slice(b[k]),
    ensures
        placement_rank(a, i, r) == placement_rank(b, i, r),
        marks_before(a, i) == marks_before(b, i),
    decreases i,
{
    if i > 0 {
        lemma_placement_rank_marks(a, b, (i - 1) as nat, r);
        if r > 0 {
            lemma_placement_rank_marks(a, b, (i - 1) as nat, (r - 1) as nat);
        }
    }
}

/// There are no more slice edges in the first slots than slots.
pub proof fn lemma_marks_bound(edges: Seq<int>, i: nat)
    ensures
        0 <= marks_before(edges, i) <= i,
    decreases i,
{
    if i > 0 {
        lemma_marks_bound(edges, (i - 1) as nat);
    }
}

/// The value of a coordinate depends only on the feature that it looks at.
pub proof fn lemma_index_by_feature(coord: Coord, a: CubeView, b: CubeView)
    requires
        feature(coord, a) == feature(coord, b),
    ensures
        coord.index_of(a) == coord.index_of(b),
{
    if coord == Coord::SlicePlacement {
        assert forall|k: int| 0 <= k < 12 implies in_slice(a.edges[k]) == in_slice(b.edges[k]) by {
            assert(marks(a.edges)[k] == marks(b.edges)[k]);
        }
        lemma_placement_rank_marks(a.edges, b.edges, 12, 4);
    }
}

/// The placement that counts for what some edges count for holds slice
/// edges in the slots in which those edges hold slice edges.
pub proof fn lemma_fill_of_rank(edges: Seq<int>, i: nat, r: nat)
    requires
        i <= 12,
        r <= 4,
        marks_before(edges, i) == r,
        i - r <= 8,
    ensures
        r <= i,
        0 <= placement_rank(edges, i, r) < pascal(i, r),
        placement_fill(placement_rank(edges, i, r), i, r).len() == i,
        forall|k: int|
            0 <= k < i ==> in_slice(
                #[trigger] placement_fill(placement_rank(edges, i, r), i, r)[k],
            ) == in_slice(edges[k]),
    decreases i,
{
    lemma_marks_bound(edges, i);
    lemma_pascal(i, r);
    if i > 0 {
        let index = placement_rank(edges, i, r);
        let fill = placement_fill(index, i, r);
        let below = (i - 1) as nat;
        lemma_marks_bound(edges, below);
        lemma_pascal(below, r);
        if in_slice(edges[i - 1]) {
            let less = (r - 1) as nat;
            lemma_pascal(below, less);
            lemma_fill_of_rank(edges, below, less);
            let inner = placement_fill(placement_rank(edges, below, less), below, less);
            assert(fill =~= inner.push((r + 3) as int));
            assert forall|k: int| 0 <= k < i implies in_slice(#[trigger] fill[k]) == in_slice(
                edges[k],
            ) by {
                if k < i - 1 {
                    assert(fill[k] == inner[k]);
                }
            }
        } else {
            lemma_fill_of_rank(edges, below, r);
            let inner = placement_fill(placement_rank(edges, below, r), below, r);
            assert(fill =~= inner.push((i - 1 + 8 - r) % 12));
            assert forall|k: int| 0 <= k < i implies in_slice(#[trigger] fill[k]) == in_slice(
                edges[k],
            ) by {
                if k < i - 1 {
                    assert(fill[k] == inner[k]);
                }
            }
        }
    }
}

/// The pieces that the value of a coordinate on some pieces stands for have
/// the feature of those pieces: what the coordinate looks at is kept, and
/// the rest is put in order.
pub proof fn lemma_state_of_index(coord: Coord, cube: CubeView)
    requires
        fits(coord, cube),
    ensures
        0 <= coord.index_of(cube) < coord.size(),
        feature(coord, coord.state(coord.index_of(cube))) == feature(coord, cube),
{
    coord.lemma_index_in_range(cube);
    let index = coord.index_of(cube);
    let state = coord.state(index);
    match coord {
        Coord::CornerOrientation => {
            lemma_twist_state_of_index(cube.corners);
            assert(twists(twists_only(cube.corners)) =~= twists(cube.corners));
        },
        Coord::EdgeOrientation => {
            lemma_flip_state_of_index(cube.edges);
            assert(flips(flips_only(cube.edges)) =~= flips(cube.edges));
        },
        Coord::SlicePlacement => {
            lemma_fill_of_rank(cube.edges, 12, 4);
            assert(marks(state.edges) =~= marks(cube.edges));
        },
        Coord::CornerPermutation => {
            let homes = corner::homes(cube.corners);
            assert forall|i: int| 0 <= i < homes.len() implies 0 <= #[trigger] homes[i]
                < homes.len() by {
                assert(corner::valid(cube.corners[i]));
            }
            lemma_distinct_is_arrangement(homes);
            lemma_unrank_of_rank(homes);
            assert forall|k: int| 0 <= k < 8 implies corner::home(#[trigger] state.corners[k])
                == homes[k] by {
                lemma_arrangement_range(homes, k);
            }
            assert(corner::homes(state.corners) =~= homes);
        },
        Coord::UdPermutation => {
            let homes = ud_homes(cube.edges);
            let places = Seq::new(8, |k: int| ud_place(homes[k]));
            assert forall|k: int| 0 <= k < 8 implies 0 <= #[trigger] places[k] < 8 && ud_slot(
                places[k],
            ) == homes[k] by {
                assert(edge::valid(cube.edges[ud_slot(k)]));
                assert(!in_slice(cube.edges[ud_slot(k)]));
            }
            assert forall|a: int, b: int|
                0 <= a < places.len() && 0 <= b < places.len() && a != b implies places[a]
                != places[b] by {
                assert(ud_slot(places[a]) == homes[a] && ud_slot(places[b]) == homes[b]);
            }
            lemma_distinct_is_arrangement(places);
            assert forall|a: int, b: int| 0 <= a < 8 && 0 <= b < 8 implies (homes[a] < homes[b])
                == (places[a] < places[b]) by {
                assert(ud_slot(places[a]) == homes[a] && ud_slot(places[b]) == homes[b]);
            }
            lemma_rank_alike(homes, places);
            lemma_unrank_of_rank(places);
            assert forall|k: int| 0 <= k < 8 implies #[trigger] ud_homes(state.edges)[k]
                == homes[k] by {
                assert(ud_slot(places[k]) == homes[k]);
                assert(0 <= places[k] < 8);
            }
            assert(ud_homes(state.edges) =~= homes);
        },
        Coord::SlicePermutation => {
            let homes = slice_homes(cube.edges);
            let places = Seq::new(4, |k: int| homes[k] - 4);
            assert forall|k: int| 0 <= k < 4 implies 0 <= #[trigger] places[k] < 4 by {
                assert(edge::valid(cube.edges[4 + k]));
                assert(in_slice(cube.edges[4 + k]));
            }
            assert forall|a: int, b: int|
                0 <= a < places.len() && 0 <= b < places.len() && a != b implies places[a]
                != places[b] by {
                assert(homes[a] != homes[b]);
            }
            lemma_distinct_is_arrangement(places);
            assert forall|a: int, b: int| 0 <= a < 4 && 0 <= b < 4 implies (homes[a] < homes[b])
                == (places[a] < places[b]) by {}
            lemma_rank_alike(homes, places);
            lemma_unrank_of_rank(places);
            assert forall|k: int| 0 <= k < 4 implies #[trigger] slice_homes(state.edges)[k]
                == homes[k] by {
                assert(0 <= places[k] < 4);
            }
            assert(slice_homes(state.edges) =~= homes);
        },
    }
}

} // verus!
