//! Filling a pruning table: a search, breadth first, from the value that a
//! coordinate has on the solved cube.
use crate::cube3::coordinate::Coord;
use crate::cube3::cube::CubeView;
use crate::cube_n::mov::Move;
use vstd::prelude::*;

verus! {

/// The byte of a value that the filling has not reached.
pub const UNKNOWN: u8 = 255;

/// The value that the `k`-th move of the phase leads to from a value of a coordinate.
#[verifier::opaque]
pub open spec fn step(coord: Coord, index: int, k: int) -> int {
    coord.next(index, coord.move_nth(k))
}

/// Whether a value is known and is not the first: the table has it at 1 or more.
pub open spec fn reached(table: Seq<u8>, i: int) -> bool {
    0 <= i < table.len() && 0 < table[i] < UNKNOWN
}

/// What a table says of its moves: from a value that is known to be nearer
/// than `depth`, every move leads to a value that is at most one further.
pub open spec fn closed_to(table: Seq<u8>, coord: Coord, depth: int) -> bool {
    forall|i: int, k: int|
        #![trigger step(coord, i, k)]
        0 <= i < table.len() && 0 <= k < coord.move_count() && table[i] < depth ==> {
            &&& 0 <= step(coord, i, k) < table.len()
            &&& table[step(coord, i, k)] <= table[i] + 1
        }
}

/// Every value that is known, but the first, is one move from a value that is one nearer.
pub open spec fn witnessed(table: Seq<u8>, coord: Coord) -> bool {
    forall|i: int| #[trigger]
        reached(table, i) ==> exists|j: int, k: int|
            #![trigger step(coord, j, k)]
            0 <= j < table.len() && 0 <= k < coord.move_count() && table[j] == table[i] - 1
                && step(coord, j, k) == i
}

/// Only the value of the solved cube is no move away.
pub open spec fn rooted(table: Seq<u8>, coord: Coord) -> bool {
    forall|i: int|
        0 <= i < table.len() ==> (#[trigger] table[i] == 0 <==> i == coord.index_of(
            CubeView::solved(),
        ))
}

/// Every value is known to be at most `depth` moves away, or is unknown.
pub open spec fn known_up_to(table: Seq<u8>, depth: int) -> bool {
    forall|i: int| 0 <= i < table.len() ==> #[trigger] table[i] <= depth || table[i] == UNKNOWN
}

/// Whether a table holds, for every value of a coordinate, the least number
/// of moves of the coordinate's phase that lead to it from the value of the
/// solved cube, and [`UNKNOWN`] where none do: the value of the solved cube
/// and no other is at 0, every move from a known value leads at most one
/// further, and every other known value is one move from a value one nearer.
pub open spec fn is_distance_table(table: Seq<u8>, coord: Coord) -> bool {
    &&& table.len() == coord.size()
    &&& rooted(table, coord)
    &&& closed_to(table, coord, UNKNOWN as int)
    &&& witnessed(table, coord)
}

/// What holds of a table while the values at `depth` are being found: the
/// values nearer than `depth - 1` have been followed, and nothing further
/// than `depth` is known.
pub open spec fn filling(table: Seq<u8>, coord: Coord, depth: int) -> bool {
    &&& table.len() == coord.size()
    &&& 1 <= depth <= 255
    &&& rooted(table, coord)
    &&& known_up_to(table, depth)
    &&& closed_to(table, coord, depth - 1)
    &&& witnessed(table, coord)
}

/// The moves from the values at `depth - 1` among the first `upto` values
/// have been followed.
pub open spec fn followed(table: Seq<u8>, coord: Coord, depth: int, upto: int) -> bool {
    forall|j: int, k: int|
        #![trigger step(coord, j, k)]
        0 <= j < upto && j < table.len() && 0 <= k < coord.move_count() && table[j] == depth - 1
            ==> 0 <= step(coord, j, k) < table.len() && table[step(coord, j, k)] <= depth
}

/// The moves of a value at `depth - 1` have been followed as far as the `upto`-th.
pub open spec fn followed_from(table: Seq<u8>, coord: Coord, depth: int, i: int, upto: int) -> bool {
    forall|k: int|
        #![trigger step(coord, i, k)]
        0 <= k < upto ==> 0 <= step(coord, i, k) < table.len() && table[step(coord, i, k)] <= depth
}

/// Nothing has changed in a table but that values that were unknown are now at `depth`.
pub open spec fn grown(before: Seq<u8>, after: Seq<u8>, depth: int) -> bool {
    &&& before.len() == after.len()
    &&& forall|i: int|
        0 <= i < before.len() ==> #[trigger] after[i] == before[i] || (before[i] == UNKNOWN
            && after[i] == depth)
}

/// Writing the depth over an unknown value that a move from a value at
/// `depth - 1` leads to keeps a table that is being filled.
proof fn lemma_write(before: Seq<u8>, coord: Coord, from: int, k: int, depth: int)
    requires
        filling(before, coord, depth),
        0 <= from < before.len(),
        0 <= k < coord.move_count(),
        before[from] == depth - 1,
        0 <= step(coord, from, k) < before.len(),
        before[step(coord, from, k)] > depth,
    ensures
        filling(before.update(step(coord, from, k), depth as u8), coord, depth),
        grown(before, before.update(step(coord, from, k), depth as u8), depth),
        depth < 255,
{
    let at = step(coord, from, k);
    let after = before.update(at, depth as u8);
    assert(before[at] == UNKNOWN);
    assert forall|i: int, k2: int|
        #![trigger step(coord, i, k2)]
        0 <= i < after.len() && 0 <= k2 < coord.move_count() && after[i] < depth - 1 implies 0
        <= step(coord, i, k2) < after.len() && after[step(coord, i, k2)] <= after[i] + 1 by {
        assert(before[i] < depth - 1);
        assert(before[step(coord, i, k2)] <= before[i] + 1);
    }
    assert forall|i: int| 0 <= i < after.len() implies (#[trigger] after[i] == 0 <==> i
        == coord.index_of(CubeView::solved())) by {
        assert(before[i] == 0 <==> i == coord.index_of(CubeView::solved()));
    }
    assert forall|w: int| #[trigger] reached(after, w) implies exists|j: int, k2: int|
        #![trigger step(coord, j, k2)]
        0 <= j < after.len() && 0 <= k2 < coord.move_count() && after[j] == after[w] - 1 && step(
            coord,
            j,
            k2,
        ) == w by {
        if w == at {
            assert(after[from] == after[w] - 1 && step(coord, from, k) == w);
        } else {
            assert(reached(before, w));
            let (j, k1) = choose|j: int, k1: int|
                #![trigger step(coord, j, k1)]
                0 <= j < before.len() && 0 <= k1 < coord.move_count() && before[j] == before[w]
                    - 1 && step(coord, j, k1) == w;
            assert(after[j] == after[w] - 1 && step(coord, j, k1) == w);
        }
    }
    assert forall|i: int| 0 <= i < after.len() implies #[trigger] after[i] <= depth || after[i]
        == UNKNOWN by {
        assert(before[i] <= depth || before[i] == UNKNOWN);
    }
}

/// Values that become known at `depth` do not undo what has been followed.
proof fn lemma_grown_followed(
    before: Seq<u8>,
    after: Seq<u8>,
    coord: Coord,
    depth: int,
    upto: int,
)
    requires
        grown(before, after, depth),
        followed(before, coord, depth, upto),
        1 <= depth < 255,
    ensures
        followed(after, coord, depth, upto),
{
    assert forall|j: int, k: int|
        #![trigger step(coord, j, k)]
        0 <= j < upto && j < after.len() && 0 <= k < coord.move_count() && after[j] == depth
            - 1 implies 0 <= step(coord, j, k) < after.len() && after[step(coord, j, k)]
        <= depth by {
        assert(after[j] == before[j] || (before[j] == UNKNOWN && after[j] == depth));
        assert(before[j] == depth - 1);
        let s = step(coord, j, k);
        assert(after[s] == before[s] || (before[s] == UNKNOWN && after[s] == depth));
    }
}

/// Follows the moves from one value at `depth - 1`, and writes `depth` over
/// the unknown values that they lead to. Says whether it wrote.
fn follow(buffer: &mut Vec<u8>, coord: Coord, moves: &Vec<Move>, i: usize, depth: u8) -> (wrote:
    bool)
    requires
        filling(old(buffer)@, coord, depth as int),
        i < old(buffer).len(),
        old(buffer)[i as int] == depth - 1,
        moves.len() == coord.move_count(),
        forall|k: int| 0 <= k < moves.len() ==> moves[k] == coord.move_nth(k),
    ensures
        filling(final(buffer)@, coord, depth as int),
        grown(old(buffer)@, final(buffer)@, depth as int),
        followed_from(final(buffer)@, coord, depth as int, i as int, coord.move_count()),
        !wrote ==> final(buffer)@ == old(buffer)@,
        wrote ==> depth < 255,
{
    let mut wrote = false;
    let mut k: usize = 0;
    while k < moves.len()
        invariant
            k <= moves.len(),
            i < buffer.len(),
            buffer[i as int] == depth - 1,
            moves.len() == coord.move_count(),
            forall|k: int| 0 <= k < moves.len() ==> moves[k] == coord.move_nth(k),
            filling(buffer@, coord, depth as int),
            grown(old(buffer)@, buffer@, depth as int),
            followed_from(buffer@, coord, depth as int, i as int, k as int),
            !wrote ==> buffer@ == old(buffer)@,
            wrote ==> depth < 255,
        decreases moves.len() - k,
    {
        let next = coord.neighbor(i, moves[k]);
        proof {
            assert(step(coord, i as int, k as int) == next) by {
                reveal(step);
            }
        }
        if buffer[next] > depth {
            let ghost before = buffer@;
            proof {
                lemma_write(before, coord, i as int, k as int, depth as int);
            }
            buffer[next] = depth;
            wrote = true;
            proof {
                assert(buffer@ == before.update(next as int, depth));
                assert forall|k2: int|
                    #![trigger step(coord, i as int, k2)]
                    0 <= k2 < k + 1 implies 0 <= step(coord, i as int, k2) < buffer@.len()
                    && buffer@[step(coord, i as int, k2)] <= depth by {
                    if k2 < k {
                        assert(before[step(coord, i as int, k2)] <= depth);
                    }
                }
                assert forall|j: int| 0 <= j < buffer@.len() implies #[trigger] buffer@[j] == old(
                    buffer,
                )@[j] || (old(buffer)@[j] == UNKNOWN && buffer@[j] == depth) by {
                    assert(before[j] == old(buffer)@[j] || (old(buffer)@[j] == UNKNOWN
                        && before[j] == depth));
                }
            }
        }
        k += 1;
    }
    wrote
}

/// Follows the moves from every value at `depth - 1`. Says whether nothing
/// new was found, so that the table is complete.
fn follow_all(buffer: &mut Vec<u8>, coord: Coord, moves: &Vec<Move>, depth: u8) -> (complete: bool)
    requires
        filling(old(buffer)@, coord, depth as int),
        known_up_to(old(buffer)@, depth - 1),
        moves.len() == coord.move_count(),
        forall|k: int| 0 <= k < moves.len() ==> moves[k] == coord.move_nth(k),
    ensures
        filling(final(buffer)@, coord, depth as int),
        followed(final(buffer)@, coord, depth as int, final(buffer)@.len() as int),
        complete ==> final(buffer)@ == old(buffer)@,
        !complete ==> depth < 255,
{
    let mut complete = true;
    let max = buffer.len();
    let mut i: usize = 0;
    while i < max
        invariant
            i <= max,
            max == buffer.len(),
            moves.len() == coord.move_count(),
            forall|k: int| 0 <= k < moves.len() ==> moves[k] == coord.move_nth(k),
            filling(buffer@, coord, depth as int),
            followed(buffer@, coord, depth as int, i as int),
            complete ==> buffer@ == old(buffer)@,
            !complete ==> depth < 255,
        decreases max - i,
    {
        if buffer[i] == depth - 1 {
            let ghost before = buffer@;
            let wrote = follow(buffer, coord, moves, i, depth);
            if wrote {
                complete = false;
                proof {
                    lemma_grown_followed(before, buffer@, coord, depth as int, i as int);
                }
            }
        }
        i += 1;
    }
    complete
}

/// The table of one coordinate, filled breadth first from the solved cube.
pub fn generate_buffer(coord: Coord) -> (buffer: Vec<u8>)
    ensures
        is_distance_table(buffer@, coord),
{
    let max = coord.max();
    let start = coord.start();
    let moves = coord.moves();
    let mut buffer: Vec<u8> = Vec::new();
    let mut fill: usize = 0;
    while fill < max
        invariant
            fill <= max,
            buffer.len() == fill,
            forall|i: int| 0 <= i < fill ==> buffer[i] == UNKNOWN,
        decreases max - fill,
    {
        buffer.push(UNKNOWN);
        fill += 1;
    }
    buffer[start] = 0;
    let mut depth: u8 = 1;
    proof {
        assert forall|w: int| #[trigger] reached(buffer@, w) implies false by {}
    }
    loop
        invariant
            moves.len() == coord.move_count(),
            forall|k: int| 0 <= k < moves.len() ==> moves[k] == coord.move_nth(k),
            filling(buffer@, coord, depth as int),
            known_up_to(buffer@, depth - 1),
        ensures
            is_distance_table(buffer@, coord),
        decreases 255 - depth,
    {
        let complete = follow_all(&mut buffer, coord, &moves, depth);
        proof {
            // What was followed before and what has been followed now is
            // all that is nearer than `depth`.
            assert forall|j: int, k: int|
                #![trigger step(coord, j, k)]
                0 <= j < buffer@.len() && 0 <= k < coord.move_count() && buffer@[j]
                    < depth implies 0 <= step(coord, j, k) < buffer@.len() && buffer@[step(
                coord,
                j,
                k,
            )] <= buffer@[j] + 1 by {
                if buffer@[j] == depth - 1 {
                    assert(buffer@[step(coord, j, k)] <= depth);
                }
            }
        }
        if complete {
            break ;
        }
        depth += 1;
    }
    buffer
}

} // verus!
