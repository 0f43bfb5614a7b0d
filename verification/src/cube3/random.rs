//! Making cubes out of pieces, and drawing them at random.
use crate::arrange::{all_distinct, count_swaps, ints, parity_of, swaps_from};
use crate::cube3::cube::{Cube, CubeView};
use crate::cube_n::corner::{self, Corner, CornerPosition};
use crate::cube_n::edge::{self, Edge, EdgePosition};
use crate::perm;
use crate::types::{Direction, Orientation3};
use rand::rngs::SmallRng;
use rand::seq::SliceRandom;
use rand::Rng;
use vstd::prelude::*;

verus! {

/// The small, fast generator of `rand`. What is in it is not looked at here.
#[verifier::external_type_specification]
#[verifier::external_body]
pub struct ExSmallRng(SmallRng);

/// Calls `Rng::random_range` of `rand` with the range from 0 up to, and
/// without, `bound`: a number below `bound`. The range must not be empty.
#[verifier::external_body]
pub(crate) fn random_below(rng: &mut SmallRng, bound: usize) -> (drawn: usize)
    requires
        bound > 0,
    ensures
        drawn < bound,
{
    rng.random_range(0..bound)
}

/// Calls `Rng::random` of `rand` for a `bool`: either of the two.
#[verifier::external_body]
fn random_flag(rng: &mut SmallRng) -> bool {
    rng.random()
}

/// Calls `SliceRandom::shuffle` of `rand`, which shuffles in place by
/// swapping: the same bytes come out, each as often as it went in.
#[verifier::external_body]
fn shuffle(values: &mut Vec<u8>, rng: &mut SmallRng)
    ensures
        final(values)@.to_multiset() == old(values)@.to_multiset(),
        final(values)@.len() == old(values)@.len(),
{
    values.shuffle(rng)
}

/// The bytes `0 .. n`, in order.
fn in_order(n: u8) -> (values: Vec<u8>)
    ensures
        values@ == Seq::new(n as nat, |i: int| i as u8),
{
    let mut values: Vec<u8> = Vec::new();
    let mut i: u8 = 0;
    while i < n
        invariant
            i <= n,
            values@ == Seq::new(i as nat, |k: int| k as u8),
        decreases n - i,
    {
        values.push(i);
        proof {
            assert(values@ =~= Seq::new((i + 1) as nat, |k: int| k as u8));
        }
        i += 1;
    }
    values
}

/// The bytes `0 .. n` shuffled: each of them is there once.
fn shuffled(n: u8, rng: &mut SmallRng) -> (values: Vec<u8>)
    ensures
        values.len() == n,
        perm::distinct(ints(values@)),
        forall|i: int| 0 <= i < n ==> values[i] < n,
{
    let mut values = in_order(n);
    let ghost before = values@;
    shuffle(&mut values, rng);
    proof {
        assert(before.no_duplicates());
        before.lemma_multiset_has_no_duplicates();
        values@.lemma_multiset_has_no_duplicates_conv();
        assert forall|i: int| 0 <= i < n implies values[i] < n by {
            let v = values[i];
            assert(values@.contains(v));
            vstd::seq_lib::to_multiset_contains(values@, v);
            vstd::seq_lib::to_multiset_contains(before, v);
            let k = choose|k: int| 0 <= k < before.len() && before[k] == v;
            assert(before[k] == k as u8);
        }
        assert forall|a: int, b: int|
            0 <= a < ints(values@).len() && 0 <= b < ints(values@).len() && a != b implies ints(
            values@,
        )[a] != ints(values@)[b] by {
            assert(values@[a] != values@[b]);
        }
    }
    values
}

/// The eight bytes of a vector of eight.
fn eight_of(values: &Vec<u8>) -> (array: [u8; 8])
    requires
        values.len() == 8,
    ensures
        array@ == values@,
{
    let mut array: [u8; 8] = [0u8;8];
    let mut k: usize = 0;
    while k < 8
        invariant
            k <= 8,
            values.len() == 8,
            forall|j: int| 0 <= j < k ==> array[j] == values[j],
        decreases 8 - k,
    {
        array[k] = values[k];
        k += 1;
    }
    proof {
        assert(array@ =~= values@);
    }
    array
}

/// The twelve bytes of a vector of twelve.
fn twelve_of(values: &Vec<u8>) -> (array: [u8; 12])
    requires
        values.len() == 12,
    ensures
        array@ == values@,
{
    let mut array: [u8; 12] = [0u8;12];
    let mut k: usize = 0;
    while k < 12
        invariant
            k <= 12,
            values.len() == 12,
            forall|j: int| 0 <= j < k ==> array[j] == values[j],
        decreases 12 - k,
    {
        array[k] = values[k];
        k += 1;
    }
    proof {
        assert(array@ =~= values@);
    }
    array
}

/// The corners that drawn homes and drawn twists make.
///
/// The slot `k` gets the piece whose home is `homes[k]`. Each of the first
/// seven is twisted by `twists[k]`, and the last one by what makes the sum
/// of all the twists a multiple of 3.
pub fn corners_from_draws(homes: &[u8; 8], twists: &[u8; 7]) -> (corners: [Corner; 8])
    requires
        forall|k: int| 0 <= k < 8 ==> homes[k] < 8,
        forall|k: int| 0 <= k < 7 ==> twists[k] < 3,
    ensures
        forall|k: int|
            0 <= k < 7 ==> #[trigger] corners[k]@ == homes[k] as int + 8 * twists[k] as int,
        corner::home(corners[7]@) == homes[7] as int,
        corner::all_valid(Corner::codes(corners)),
        corner::homes(Corner::codes(corners)) == ints(homes@),
        corner::twist_sum(Corner::codes(corners)) % 3 == 0,
{
    let mut corners = Corner::all_solved();
    let mut total: u8 = 0;
    let mut i: usize = 0;
    while i < 7
        invariant
            i <= 7,
            forall|k: int| 0 <= k < 8 ==> homes[k] < 8,
            forall|k: int| 0 <= k < 7 ==> twists[k] < 3,
            total < 3,
            forall|k: int|
                0 <= k < i ==> #[trigger] corners[k]@ == homes[k] as int + 8 * twists[k] as int,
            forall|k: int|
                0 <= k < i ==> corner::valid(#[trigger] corners[k]@) && corner::home(corners[k]@)
                    == homes[k] as int,
            total as int == partial_twists(Corner::codes(corners), i as int) % 3,
        decreases 7 - i,
    {
        let twist = Orientation3::from_u8(twists[i]);
        let ghost before = Corner::codes(corners);
        corners[i] = CornerPosition::from_index(homes[i]).with_orientation(twist);
        proof {
            lemma_partial_twists(before, Corner::codes(corners), i as int);
            assert(Corner::codes(corners)[i as int] == corners[i as int]@);
        }
        total = (total + twist.u8()) % 3;
        i += 1;
    }
    let last = Orientation3::from_u8((3 - total) % 3);
    let ghost before = Corner::codes(corners);
    corners[7] = CornerPosition::from_index(homes[7]).with_orientation(last);
    proof {
        let codes = Corner::codes(corners);
        lemma_partial_twists(before, codes, 7);
        assert(codes[7] == corners[7]@);
        assert(corner::twist_sum(codes) == partial_twists(codes, 7) + corner::twist(codes[7])) by {
            reveal_with_fuel(partial_twists, 8);
        }
        assert forall|slot: int| 0 <= slot < 8 implies corner::valid(#[trigger] codes[slot])
            && corner::home(codes[slot]) == homes[slot] as int by {
            assert(codes[slot] == corners[slot]@);
        }
        assert(corner::homes(codes) =~= ints(homes@));
    }
    corners
}

impl Corner {
    /// Eight corners drawn at random that can be the corners of a cube:
    /// every piece is there once, and the twists add up to a multiple of 3.
    ///
    /// The pieces are shuffled and seven twists are drawn; the corners are
    /// what [`corners_from_draws`] makes of them.
    pub fn random(rng: &mut SmallRng) -> (corners: [Corner; 8])
        ensures
            corner::all_valid(Corner::codes(corners)),
            corner::distinct_homes(Corner::codes(corners)),
            corner::twist_sum(Corner::codes(corners)) % 3 == 0,
    {
        let homes = eight_of(&shuffled(8, rng));
        let mut twists: [u8; 7] = [0u8;7];
        let mut i: usize = 0;
        while i < 7
            invariant
                i <= 7,
                forall|k: int| 0 <= k < 7 ==> twists[k] < 3,
            decreases 7 - i,
        {
            let drawn = random_below(rng, 3);
            twists[i] = byte_of(drawn);
            i += 1;
        }
        corners_from_draws(&homes, &twists)
    }

    /// The number of swaps that bring every corner home, twists apart: for
    /// each cycle of the arrangement, one less than its length.
    ///
    /// No corner may be there twice. The count is even or odd as the
    /// arrangement is, and it is 0 just when every corner is home.
    pub fn count_swaps(corners: [Corner; 8]) -> (swaps: u8)
        requires
            corner::distinct_homes(Corner::codes(corners)),
        ensures
            swaps as int == swaps_from(corner::homes(Corner::codes(corners)), 0),
            swaps as int % 2 == perm::parity(corner::homes(Corner::codes(corners))),
            swaps == 0 <==> corner::homes(Corner::codes(corners)) == perm::identity(8),
            swaps <= 8,
    {
        let homes = corner_homes(&corners);
        proof {
            crate::arrange::lemma_misplaced_bound(ints(homes@));
        }
        count_swaps(&homes)
    }
}

/// The homes of eight corners.
fn corner_homes(corners: &[Corner; 8]) -> (homes: [u8; 8])
    ensures
        ints(homes@) == corner::homes(Corner::codes(*corners)),
        forall|k: int| 0 <= k < 8 ==> homes[k] < 8,
{
    let mut homes: [u8; 8] = [0u8;8];
    let mut k: usize = 0;
    while k < 8
        invariant
            k <= 8,
            forall|j: int| 0 <= j < 8 ==> homes[j] < 8,
            forall|j: int| 0 <= j < k ==> homes[j] as int == corner::home(corners[j]@),
        decreases 8 - k,
    {
        homes[k] = corners[k].position().u8();
        k += 1;
    }
    proof {
        assert(ints(homes@) =~= corner::homes(Corner::codes(*corners)));
    }
    homes
}

/// The homes of twelve edges.
fn edge_homes(edges: &[Edge; 12]) -> (homes: [u8; 12])
    ensures
        ints(homes@) == edge::homes(Edge::codes(*edges)),
        forall|k: int| 0 <= k < 12 ==> homes[k] < 12,
{
    let mut homes: [u8; 12] = [0u8;12];
    let mut k: usize = 0;
    while k < 12
        invariant
            k <= 12,
            forall|j: int| 0 <= j < 12 ==> homes[j] < 12,
            forall|j: int| 0 <= j < k ==> homes[j] as int == edge::home(edges[j]@),
        decreases 12 - k,
    {
        homes[k] = edges[k].position().index();
        k += 1;
    }
    proof {
        assert(ints(homes@) =~= edge::homes(Edge::codes(*edges)));
    }
    homes
}

/// The sum of the twists of the first `n` corners.
pub open spec fn partial_twists(corners: Seq<int>, n: int) -> int
    decreases n,
{
    if n <= 0 {
        0
    } else {
        partial_twists(corners, n - 1) + corner::twist(corners[n - 1])
    }
}

/// The sum of the flips of the first `n` edges.
pub open spec fn partial_flips(edges: Seq<int>, n: int) -> int
    decreases n,
{
    if n <= 0 {
        0
    } else {
        partial_flips(edges, n - 1) + edge::flip(edges[n - 1])
    }
}

/// Changing a corner does not change the sum of the twists before it, and
/// adds its twist to the sum up to it.
proof fn lemma_partial_twists(before: Seq<int>, after: Seq<int>, at: int)
    requires
        0 <= at < before.len(),
        before.len() == after.len(),
        forall|k: int| 0 <= k < before.len() && k != at ==> before[k] == after[k],
    ensures
        partial_twists(after, at) == partial_twists(before, at),
        partial_twists(after, at + 1) == partial_twists(before, at) + corner::twist(after[at]),
{
    lemma_partial_twists_ext(before, after, at);
}

/// The sum of the first twists depends on the first corners only.
proof fn lemma_partial_twists_ext(a: Seq<int>, b: Seq<int>, n: int)
    requires
        forall|k: int| 0 <= k < n ==> a[k] == b[k],
    ensures
        partial_twists(a, n) == partial_twists(b, n),
    decreases n,
{
    if n > 0 {
        lemma_partial_twists_ext(a, b, n - 1);
    }
}

/// The sum of the first flips depends on the first edges only.
proof fn lemma_partial_flips_ext(a: Seq<int>, b: Seq<int>, n: int)
    requires
        forall|k: int| 0 <= k < n ==> a[k] == b[k],
    ensures
        partial_flips(a, n) == partial_flips(b, n),
    decreases n,
{
    if n > 0 {
        lemma_partial_flips_ext(a, b, n - 1);
    }
}

/// The edges that drawn homes and drawn flips make.
///
/// The slot `k` gets the piece whose home is `homes[k]`. Each of the first
/// eleven is flipped if `flips[k]` says so, and the last one if that makes
/// the number of flipped edges even.
pub fn edges_from_draws(homes: &[u8; 12], flips: &[bool; 11]) -> (edges: [Edge; 12])
    requires
        forall|k: int| 0 <= k < 12 ==> homes[k] < 12,
    ensures
        forall|k: int|
            0 <= k < 11 ==> #[trigger] edges[k]@ == homes[k] as int + 16 * (if flips[k] {
                1int
            } else {
                0int
            }),
        edge::home(edges[11]@) == homes[11] as int,
        edge::all_valid(Edge::codes(edges)),
        edge::homes(Edge::codes(edges)) == ints(homes@),
        edge::flip_sum(Edge::codes(edges)) % 2 == 0,
{
    let mut edges = Edge::all_solved();
    let mut odd = false;
    let mut i: usize = 0;
    while i < 11
        invariant
            i <= 11,
            forall|k: int| 0 <= k < 12 ==> homes[k] < 12,
            forall|k: int|
                0 <= k < i ==> #[trigger] edges[k]@ == homes[k] as int + 16 * (if flips[k] {
                    1int
                } else {
                    0int
                }),
            forall|k: int|
                0 <= k < i ==> edge::valid(#[trigger] edges[k]@) && edge::home(edges[k]@)
                    == homes[k] as int,
            odd == (partial_flips(Edge::codes(edges), i as int) % 2 == 1),
        decreases 11 - i,
    {
        let flipped = flips[i];
        let ghost before = Edge::codes(edges);
        edges[i] = EdgePosition::from_index(homes[i]).with_orientation(
            Direction::from_bool(flipped),
        );
        proof {
            lemma_partial_flips_ext(before, Edge::codes(edges), i as int);
            assert(Edge::codes(edges)[i as int] == edges[i as int]@);
        }
        odd = odd != flipped;
        i += 1;
    }
    let ghost before = Edge::codes(edges);
    edges[11] = EdgePosition::from_index(homes[11]).with_orientation(Direction::from_bool(odd));
    proof {
        let codes = Edge::codes(edges);
        lemma_partial_flips_ext(before, codes, 11);
        assert(codes[11] == edges[11]@);
        assert(edge::flip_sum(codes) == partial_flips(codes, 11) + edge::flip(codes[11])) by {
            reveal_with_fuel(partial_flips, 12);
        }
        assert forall|slot: int| 0 <= slot < 12 implies edge::valid(#[trigger] codes[slot])
            && edge::home(codes[slot]) == homes[slot] as int by {
            assert(codes[slot] == edges[slot]@);
        }
        assert(edge::homes(codes) =~= ints(homes@));
    }
    edges
}

impl Edge {
    /// Twelve edges drawn at random that can be the edges of a cube: every
    /// piece is there once, and the flips add up to a multiple of 2.
    ///
    /// The pieces are shuffled and eleven flips are drawn; the edges are
    /// what [`edges_from_draws`] makes of them.
    pub fn random(rng: &mut SmallRng) -> (edges: [Edge; 12])
        ensures
            edge::all_valid(Edge::codes(edges)),
            edge::distinct_homes(Edge::codes(edges)),
            edge::flip_sum(Edge::codes(edges)) % 2 == 0,
    {
        let homes = twelve_of(&shuffled(12, rng));
        let mut flips: [bool; 11] = [false;11];
        let mut i: usize = 0;
        while i < 11
            invariant
                i <= 11,
            decreases 11 - i,
        {
            flips[i] = random_flag(rng);
            i += 1;
        }
        edges_from_draws(&homes, &flips)
    }

    /// The number of swaps that bring every edge home, flips apart: for each
    /// cycle of the arrangement, one less than its length.
    ///
    /// No edge may be there twice. The count is even or odd as the
    /// arrangement is, and it is 0 just when every edge is home.
    pub fn count_swaps(edges: [Edge; 12]) -> (swaps: u8)
        requires
            edge::distinct_homes(Edge::codes(edges)),
        ensures
            swaps as int == swaps_from(edge::homes(Edge::codes(edges)), 0),
            swaps as int % 2 == perm::parity(edge::homes(Edge::codes(edges))),
            swaps == 0 <==> edge::homes(Edge::codes(edges)) == perm::identity(12),
            swaps <= 12,
    {
        let homes = edge_homes(&edges);
        proof {
            crate::arrange::lemma_misplaced_bound(ints(homes@));
        }
        count_swaps(&homes)
    }
}

impl Cube {
    /// The cube with the given pieces, if they are pieces that a cube can
    /// have: no piece twice, the twists a multiple of 3, the flips a
    /// multiple of 2, and both arrangements of the same parity.
    pub fn from_pieces(corners: [Corner; 8], edges: [Edge; 12]) -> (cube: Option<Cube>)
        ensures
            cube.is_some() == (CubeView {
                corners: Corner::codes(corners),
                edges: Edge::codes(edges),
            }).wf(),
            cube matches Some(c) ==> c@ == (CubeView {
                corners: Corner::codes(corners),
                edges: Edge::codes(edges),
            }),
    {
        let ghost view = CubeView { corners: Corner::codes(corners), edges: Edge::codes(edges) };
        let corner_homes = corner_homes(&corners);
        let edge_homes = edge_homes(&edges);
        let mut twists: u8 = 0;
        let mut i: usize = 0;
        while i < 8
            invariant
                i <= 8,
                twists as int == partial_twists(Corner::codes(corners), i as int),
                twists <= 2 * i,
                forall|k: int| 0 <= k < i ==> corner::valid(#[trigger] Corner::codes(corners)[k]),
            decreases 8 - i,
        {
            let piece = corners[i];
            proof {
                use_type_invariant(&piece);
                assert(Corner::codes(corners)[i as int] == piece@);
            }
            twists = twists + piece.orientation().u8();
            i += 1;
        }
        let mut flips: u8 = 0;
        let mut j: usize = 0;
        while j < 12
            invariant
                j <= 12,
                flips as int == partial_flips(Edge::codes(edges), j as int),
                flips <= j,
                forall|k: int| 0 <= k < j ==> edge::valid(#[trigger] Edge::codes(edges)[k]),
            decreases 12 - j,
        {
            let piece = edges[j];
            proof {
                use_type_invariant(&piece);
                assert(Edge::codes(edges)[j as int] == piece@);
            }
            flips = flips + piece.orientation().u8();
            j += 1;
        }
        if !all_distinct(&corner_homes) || !all_distinct(&edge_homes) {
            return None;
        }
        proof {
            assert(corner::twist_sum(view.corners) == partial_twists(view.corners, 8)) by {
                reveal_with_fuel(partial_twists, 9);
            }
            assert(edge::flip_sum(view.edges) == partial_flips(view.edges, 12)) by {
                reveal_with_fuel(partial_flips, 13);
            }
        }
        if twists % 3 != 0 || flips % 2 != 0 {
            return None;
        }
        if parity_of(&corner_homes) != parity_of(&edge_homes) {
            return None;
        }
        Some(Cube::new(corners, edges))
    }

    /// The cube with the given pieces if their two arrangements are of the
    /// same parity, and if not, the cube in which two of them have traded
    /// places: the corners, or else the edges, in the slot `first` and in
    /// the slot that `drawn` stands for among the others.
    pub fn with_matching_parity(
        corners: [Corner; 8],
        edges: [Edge; 12],
        swap_corners: bool,
        first: usize,
        drawn: usize,
    ) -> (cube: Cube)
        requires
            drawable(pieces(corners, edges)),
            !parities_match(pieces(corners, edges)) ==> if swap_corners {
                first < 8 && drawn < 7
            } else {
                first < 12 && drawn < 11
            },
        ensures
            cube@ == parity_matched(pieces(corners, edges), swap_corners, first as int, drawn as int),
            cube@.wf(),
    {
        let mut corners = corners;
        let mut edges = edges;
        let corner_parity = Corner::count_swaps(corners) % 2;
        let edge_parity = Edge::count_swaps(edges) % 2;
        if corner_parity != edge_parity {
            let other = if drawn >= first {
                drawn + 1
            } else {
                drawn
            };
            if swap_corners {
                let ghost before = Corner::codes(corners);
                let piece = corners[first];
                corners[first] = corners[other];
                corners[other] = piece;
                proof {
                    let after = Corner::codes(corners);
                    assert(after =~= perm::swapped(before, first as int, other as int));
                    assert(corner::homes(after) =~= perm::swapped(
                        corner::homes(before),
                        first as int,
                        other as int,
                    ));
                    perm::lemma_swap_parity(corner::homes(before), first as int, other as int);
                    lemma_swap_twists(before, first as int, other as int);
                }
            } else {
                let ghost before = Edge::codes(edges);
                let piece = edges[first];
                edges[first] = edges[other];
                edges[other] = piece;
                proof {
                    let after = Edge::codes(edges);
                    assert(after =~= perm::swapped(before, first as int, other as int));
                    assert(edge::homes(after) =~= perm::swapped(
                        edge::homes(before),
                        first as int,
                        other as int,
                    ));
                    perm::lemma_swap_parity(edge::homes(before), first as int, other as int);
                    lemma_swap_flips(before, first as int, other as int);
                }
            }
        }
        Cube::new(corners, edges)
    }

    /// A cube drawn at random, of those that turning the faces of a solved
    /// cube can give.
    ///
    /// The corners and the edges are drawn by themselves. If the two
    /// arrangements are not of the same parity, which pieces trade places
    /// is drawn too, and the cube is what [`Cube::with_matching_parity`]
    /// makes of the draws.
    pub fn random_with_rng(rng: &mut SmallRng) -> (cube: Cube)
        ensures
            cube@.wf(),
    {
        let corners = Corner::random(rng);
        let edges = Edge::random(rng);
        if Corner::count_swaps(corners) % 2 != Edge::count_swaps(edges) % 2 {
            let swap_corners = random_flag(rng);
            let slots: usize = if swap_corners {
                8
            } else {
                12
            };
            let first = random_below(rng, slots);
            let drawn = random_below(rng, slots - 1);
            Cube::with_matching_parity(corners, edges, swap_corners, first, drawn)
        } else {
            Cube::with_matching_parity(corners, edges, false, 0, 0)
        }
    }
}

/// The pieces of a cube in contracts.
pub open spec fn pieces(corners: [Corner; 8], edges: [Edge; 12]) -> CubeView {
    CubeView { corners: Corner::codes(corners), edges: Edge::codes(edges) }
}

/// What holds of corners and edges that were drawn by themselves: no piece
/// is there twice, the twists add up to a multiple of 3 and the flips to a
/// multiple of 2.
pub open spec fn drawable(pieces: CubeView) -> bool {
    &&& pieces.valid()
    &&& corner::distinct_homes(pieces.corners)
    &&& edge::distinct_homes(pieces.edges)
    &&& corner::twist_sum(pieces.corners) % 3 == 0
    &&& edge::flip_sum(pieces.edges) % 2 == 0
}

/// Whether the corners are in an arrangement of the same parity as the edges.
pub open spec fn parities_match(pieces: CubeView) -> bool {
    perm::parity(corner::homes(pieces.corners)) == perm::parity(edge::homes(pieces.edges))
}

/// The slot that a draw among the slots other than `first` stands for.
pub open spec fn other_slot(first: int, drawn: int) -> int {
    if drawn >= first {
        drawn + 1
    } else {
        drawn
    }
}

/// The pieces as they are if the parities of their arrangements match, and
/// if not, with two corners or else two edges trading places.
pub open spec fn parity_matched(pieces: CubeView, swap_corners: bool, first: int, drawn: int) -> CubeView {
    if parities_match(pieces) {
        pieces
    } else if swap_corners {
        CubeView {
            corners: perm::swapped(pieces.corners, first, other_slot(first, drawn)),
            edges: pieces.edges,
        }
    } else {
        CubeView {
            corners: pieces.corners,
            edges: perm::swapped(pieces.edges, first, other_slot(first, drawn)),
        }
    }
}

/// A number below 256 as a byte.
fn byte_of(value: usize) -> (byte: u8)
    requires
        value < 256,
    ensures
        byte as int == value as int,
{
    value as u8
}

/// Two corners that trade places leave corners that are corners, with the same sum of twists.
proof fn lemma_swap_twists(corners: Seq<int>, i: int, j: int)
    requires
        corner::all_valid(corners),
        0 <= i < 8,
        0 <= j < 8,
    ensures
        corner::all_valid(corners.update(i, corners[j]).update(j, corners[i])),
        corner::twist_sum(corners.update(i, corners[j]).update(j, corners[i])) == corner::twist_sum(
            corners,
        ),
{
    let after = corners.update(i, corners[j]).update(j, corners[i]);
    assert(corner::twist_sum(corners) == partial_twists(corners, 8)) by {
        reveal_with_fuel(partial_twists, 9);
    }
    assert(corner::twist_sum(after) == partial_twists(after, 8)) by {
        reveal_with_fuel(partial_twists, 9);
    }
    lemma_partial_swap(corners, i, j, 8);
}

/// The sum of the twists of the first `n` corners after two of them trade places.
proof fn lemma_partial_swap(corners: Seq<int>, i: int, j: int, n: int)
    requires
        0 <= i < corners.len(),
        0 <= j < corners.len(),
        0 <= n <= corners.len(),
    ensures
        partial_twists(corners.update(i, corners[j]).update(j, corners[i]), n) == partial_twists(
            corners,
            n,
        ) + (if i < n && !(j < n) {
            corner::twist(corners[j]) - corner::twist(corners[i])
        } else if j < n && !(i < n) {
            corner::twist(corners[i]) - corner::twist(corners[j])
        } else {
            0
        }),
    decreases n,
{
    if n > 0 {
        lemma_partial_swap(corners, i, j, n - 1);
    }
}

/// Two edges that trade places leave edges that are edges, with the same sum of flips.
proof fn lemma_swap_flips(edges: Seq<int>, i: int, j: int)
    requires
        edge::all_valid(edges),
        0 <= i < 12,
        0 <= j < 12,
    ensures
        edge::all_valid(edges.update(i, edges[j]).update(j, edges[i])),
        edge::flip_sum(edges.update(i, edges[j]).update(j, edges[i])) == edge::flip_sum(edges),
{
    let after = edges.update(i, edges[j]).update(j, edges[i]);
    assert(edge::flip_sum(edges) == partial_flips(edges, 12)) by {
        reveal_with_fuel(partial_flips, 13);
    }
    assert(edge::flip_sum(after) == partial_flips(after, 12)) by {
        reveal_with_fuel(partial_flips, 13);
    }
    lemma_partial_swap_flips(edges, i, j, 12);
}

/// The sum of the flips of the first `n` edges after two of them trade places.
proof fn lemma_partial_swap_flips(edges: Seq<int>, i: int, j: int, n: int)
    requires
        0 <= i < edges.len(),
        0 <= j < edges.len(),
        0 <= n <= edges.len(),
    ensures
        partial_flips(edges.update(i, edges[j]).update(j, edges[i]), n) == partial_flips(edges, n)
            + (if i < n && !(j < n) {
            edge::flip(edges[j]) - edge::flip(edges[i])
        } else if j < n && !(i < n) {
            edge::flip(edges[i]) - edge::flip(edges[j])
        } else {
            0
        }),
    decreases n,
{
    if n > 0 {
        lemma_partial_swap_flips(edges, i, j, n - 1);
    }
}

} // verus!
