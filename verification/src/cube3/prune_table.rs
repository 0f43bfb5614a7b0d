//! The pruning tables of the two-phase search: for every value of every
//! coordinate, how many moves it is away from the solved cube.
//!
//! A table is filled breadth first from the value of the solved cube. The
//! six tables together are 85394 bytes; kept in a file, they stand one after
//! the other in the order of [`Coord::ALL`], with nothing before or between.
use crate::cube3::coordinate::Coord;
use crate::cube3::cube::{Cube, CubeView};
use crate::cube3::fill::{generate_buffer, is_distance_table};
use vstd::prelude::*;

verus! {

/// The number of bytes of the six tables together.
pub const TABLE_BYTES: usize = 85394;

/// The greatest of three bytes.
pub open spec fn max3(a: u8, b: u8, c: u8) -> u8 {
    if a >= b && a >= c {
        a
    } else if b >= c {
        b
    } else {
        c
    }
}

/// Where the table of a coordinate begins among the bytes of the six tables.
pub open spec fn offset(coord: Coord) -> int {
    match coord {
        Coord::CornerOrientation => 0,
        Coord::EdgeOrientation => 2187,
        Coord::SlicePlacement => 4235,
        Coord::CornerPermutation => 4730,
        Coord::UdPermutation => 45050,
        Coord::SlicePermutation => 85370,
    }
}

/// The six pruning tables: for each coordinate, a byte for each value.
#[derive(Debug)]
pub struct PruneTable {
    orient_corners: Vec<u8>,
    orient_edges: Vec<u8>,
    place_slice_edges: Vec<u8>,
    permute_corners: Vec<u8>,
    permute_ud_edges: Vec<u8>,
    permute_slice_edges: Vec<u8>,
}

impl View for PruneTable {
    type V = Seq<u8>;

    /// The bytes of the six tables, one table after the other.
    closed spec fn view(&self) -> Seq<u8> {
        self.orient_corners@ + self.orient_edges@ + self.place_slice_edges@
            + self.permute_corners@ + self.permute_ud_edges@ + self.permute_slice_edges@
    }
}

impl PruneTable {
    /// Each table has a byte for each value of its coordinate.
    #[verifier::type_invariant]
    pub closed spec fn wf(self) -> bool {
        &&& self.orient_corners.len() == 2187
        &&& self.orient_edges.len() == 2048
        &&& self.place_slice_edges.len() == 495
        &&& self.permute_corners.len() == 40320
        &&& self.permute_ud_edges.len() == 40320
        &&& self.permute_slice_edges.len() == 24
    }

    /// The table of one coordinate, out of the bytes of the six.
    pub open spec fn table_of(bytes: Seq<u8>, coord: Coord) -> Seq<u8> {
        bytes.subrange(offset(coord), offset(coord) + coord.size())
    }

    /// Whether each of the six tables holds the distances of its coordinate.
    pub open spec fn is_exact(bytes: Seq<u8>) -> bool {
        &&& bytes.len() == TABLE_BYTES
        &&& forall|coord: Coord| is_distance_table(#[trigger] PruneTable::table_of(bytes, coord), coord)
    }

    /// The lower bound that the tables give for the moves to G1: the
    /// greatest of the entries of the three coordinates of the first phase.
    pub open spec fn phase1_bound(bytes: Seq<u8>, cube: CubeView) -> u8 {
        max3(
            PruneTable::entry(bytes, Coord::CornerOrientation, cube),
            PruneTable::entry(bytes, Coord::EdgeOrientation, cube),
            PruneTable::entry(bytes, Coord::SlicePlacement, cube),
        )
    }

    /// The lower bound that the tables give for the moves from G1 to the
    /// solved cube: the greatest of the entries of the three coordinates of
    /// the second phase.
    pub open spec fn phase2_bound(bytes: Seq<u8>, cube: CubeView) -> u8 {
        max3(
            PruneTable::entry(bytes, Coord::CornerPermutation, cube),
            PruneTable::entry(bytes, Coord::SlicePermutation, cube),
            PruneTable::entry(bytes, Coord::UdPermutation, cube),
        )
    }

    /// The entry of a cube in the table of a coordinate.
    pub open spec fn entry(bytes: Seq<u8>, coord: Coord, cube: CubeView) -> u8 {
        bytes[offset(coord) + coord.index_of(cube)]
    }

    /// The tables have 85394 bytes, and each table is where its offset says.
    pub proof fn lemma_layout(&self, coord: Coord)
        requires
            self.wf(),
        ensures
            self@.len() == TABLE_BYTES,
            PruneTable::table_of(self@, coord) == self.spec_table(coord),
            self.spec_table(coord).len() == coord.size(),
    {
        assert(PruneTable::table_of(self@, coord) =~= self.spec_table(coord));
    }

    /// The table of one coordinate.
    pub closed spec fn spec_table(self, coord: Coord) -> Seq<u8> {
        match coord {
            Coord::CornerOrientation => self.orient_corners@,
            Coord::EdgeOrientation => self.orient_edges@,
            Coord::SlicePlacement => self.place_slice_edges@,
            Coord::CornerPermutation => self.permute_corners@,
            Coord::UdPermutation => self.permute_ud_edges@,
            Coord::SlicePermutation => self.permute_slice_edges@,
        }
    }

    /// Fills the six tables from scratch.
    pub fn generate() -> (table: PruneTable)
        ensures
            PruneTable::is_exact(table@),
    {
        let table = PruneTable {
            orient_corners: generate_buffer(Coord::CornerOrientation),
            orient_edges: generate_buffer(Coord::EdgeOrientation),
            place_slice_edges: generate_buffer(Coord::SlicePlacement),
            permute_corners: generate_buffer(Coord::CornerPermutation),
            permute_ud_edges: generate_buffer(Coord::UdPermutation),
            permute_slice_edges: generate_buffer(Coord::SlicePermutation),
        };
        proof {
            assert forall|coord: Coord|
                is_distance_table(#[trigger] PruneTable::table_of(table@, coord), coord) by {
                table.lemma_layout(coord);
            }
            table.lemma_layout(Coord::CornerOrientation);
        }
        table
    }

    /// The tables that the bytes of a file hold, if there are as many bytes
    /// as the tables have; else the tables filled from scratch.
    pub fn load_or_generate(cached: Option<&[u8]>) -> (table: PruneTable)
        ensures
            match cached {
                Some(bytes) if bytes@.len() == TABLE_BYTES => table@ == bytes@,
                _ => PruneTable::is_exact(table@),
            },
    {
        match cached {
            Some(bytes) => match PruneTable::from_bytes(bytes) {
                Some(table) => table,
                None => PruneTable::generate(),
            },
            None => PruneTable::generate(),
        }
    }

    /// The bytes of the six tables, one table after the other, as a file keeps them.
    pub fn to_bytes(&self) -> (bytes: Vec<u8>)
        ensures
            bytes@ == self@,
            bytes.len() == TABLE_BYTES,
    {
        proof {
            use_type_invariant(self);
        }
        let mut bytes: Vec<u8> = Vec::new();
        append(&mut bytes, &self.orient_corners);
        append(&mut bytes, &self.orient_edges);
        append(&mut bytes, &self.place_slice_edges);
        append(&mut bytes, &self.permute_corners);
        append(&mut bytes, &self.permute_ud_edges);
        append(&mut bytes, &self.permute_slice_edges);
        assert(bytes@ =~= self@);
        bytes
    }

    /// The tables that the bytes of a file hold: the bytes must be as many as
    /// the tables have.
    pub fn from_bytes(bytes: &[u8]) -> (table: Option<PruneTable>)
        ensures
            table.is_some() == (bytes@.len() == TABLE_BYTES),
            table matches Some(t) ==> t@ == bytes@,
    {
        if bytes.len() != TABLE_BYTES {
            return None;
        }
        let table = PruneTable {
            orient_corners: copy_range(bytes, 0, 2187),
            orient_edges: copy_range(bytes, 2187, 4235),
            place_slice_edges: copy_range(bytes, 4235, 4730),
            permute_corners: copy_range(bytes, 4730, 45050),
            permute_ud_edges: copy_range(bytes, 45050, 85370),
            permute_slice_edges: copy_range(bytes, 85370, 85394),
        };
        assert(table@ =~= bytes@);
        Some(table)
    }

    /// The entry of a cube in the table of a coordinate.
    pub fn lookup(&self, coord: Coord, cube: &Cube) -> (entry: u8)
        ensures
            entry == PruneTable::entry(self@, coord, cube@),
    {
        proof {
            use_type_invariant(self);
            use_type_invariant(cube);
            self.lemma_layout(coord);
            assert(PruneTable::table_of(self@, coord)[coord.index_of(cube@)] == self@[offset(coord)
                + coord.index_of(cube@)]) by {
                coord.lemma_index_in_range(cube@);
            }
        }
        let index = coord.index(cube);
        match coord {
            Coord::CornerOrientation => self.orient_corners[index],
            Coord::EdgeOrientation => self.orient_edges[index],
            Coord::SlicePlacement => self.place_slice_edges[index],
            Coord::CornerPermutation => self.permute_corners[index],
            Coord::UdPermutation => self.permute_ud_edges[index],
            Coord::SlicePermutation => self.permute_slice_edges[index],
        }
    }

    /// A lower bound for the number of moves that bring the cube into G1.
    pub fn phase1_distance_heuristic(&self, cube: Cube) -> (bound: u8)
        ensures
            bound == PruneTable::phase1_bound(self@, cube@),
    {
        let co = self.lookup(Coord::CornerOrientation, &cube);
        let eo = self.lookup(Coord::EdgeOrientation, &cube);
        let slice = self.lookup(Coord::SlicePlacement, &cube);
        greatest(co, eo, slice)
    }

    /// A lower bound for the number of moves within G1 that solve the cube.
    pub fn phase2_distance_heuristic(&self, cube: Cube) -> (bound: u8)
        ensures
            bound == PruneTable::phase2_bound(self@, cube@),
    {
        let corners = self.lookup(Coord::CornerPermutation, &cube);
        let slice = self.lookup(Coord::SlicePermutation, &cube);
        let ud = self.lookup(Coord::UdPermutation, &cube);
        greatest(corners, slice, ud)
    }
}

/// The greatest of three bytes.
fn greatest(a: u8, b: u8, c: u8) -> (m: u8)
    ensures
        m == max3(a, b, c),
{
    if a >= b && a >= c {
        a
    } else if b >= c {
        b
    } else {
        c
    }
}

/// Adds the bytes of `from` to the end of `to`.
fn append(to: &mut Vec<u8>, from: &Vec<u8>)
    ensures
        final(to)@ == old(to)@ + from@,
{
    let mut i: usize = 0;
    while i < from.len()
        invariant
            i <= from.len(),
            to@ == old(to)@ + from@.take(i as int),
        decreases from.len() - i,
    {
        to.push(from[i]);
        proof {
            assert(from@.take(i + 1) =~= from@.take(i as int).push(from@[i as int]));
        }
        i += 1;
    }
    assert(from@.take(from.len() as int) =~= from@);
}

/// The bytes from `start` up to `end`.
fn copy_range(bytes: &[u8], start: usize, end: usize) -> (copy: Vec<u8>)
    requires
        start <= end <= bytes@.len(),
    ensures
        copy@ == bytes@.subrange(start as int, end as int),
{
    let mut copy: Vec<u8> = Vec::new();
    let mut i: usize = start;
    while i < end
        invariant
            start <= i <= end <= bytes@.len(),
            copy@ == bytes@.subrange(start as int, i as int),
        decreases end - i,
    {
        copy.push(bytes[i]);
        proof {
            assert(bytes@.subrange(start as int, i + 1) =~= bytes@.subrange(
                start as int,
                i as int,
            ).push(bytes@[i as int]));
        }
        i += 1;
    }
    copy
}

} // verus!
