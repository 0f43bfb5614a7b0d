//! The vertices and the faces of the Pyraminx.
use crate::types::{Axis, Direction, Orientation3};
use vstd::prelude::*;

verus! {

/// One of the four vertices of the Pyraminx, which give the moves their names.
///
/// Packed into two bits: U is 0, L is 1, B is 2 and R is 3.
#[derive(Debug, Clone, Copy, PartialEq, Eq, Hash, Structural)]
pub struct Vertex {
    data: u8,
}

impl View for Vertex {
    type V = int;

    /// The two bits of the vertex.
    closed spec fn view(&self) -> int {
        self.data as int
    }
}

/// The vertex that is `turns` clockwise turns on from `start`, going round
/// `anchor`. Round U the others follow each other as R, L, B; round R as
/// L, U, B; round L as U, R, B; and round B as R, U, L.
pub open spec fn spec_offset(anchor: int, start: int, turns: int) -> int {
    let place = cycle_place(anchor, start);
    cycle_vertex(anchor, (place + turns) % 3)
}

/// The `k`-th vertex of the cycle round `anchor`.
pub open spec fn cycle_vertex(anchor: int, k: int) -> int {
    if anchor == 0 {
        if k == 0 { 3 } else if k == 1 { 1 } else { 2 }
    } else if anchor == 3 {
        if k == 0 { 1 } else if k == 1 { 0 } else { 2 }
    } else if anchor == 1 {
        if k == 0 { 0 } else if k == 1 { 3 } else { 2 }
    } else {
        if k == 0 { 3 } else if k == 1 { 0 } else { 1 }
    }
}

/// The place of a vertex in the cycle round `anchor`.
pub open spec fn cycle_place(anchor: int, vertex: int) -> int {
    if cycle_vertex(anchor, 0) == vertex {
        0
    } else if cycle_vertex(anchor, 1) == vertex {
        1
    } else {
        2
    }
}

/// The direction bit of a vertex along an axis: along X the two bits of the
/// vertex told apart, along Y its low bit, along Z its high bit.
pub open spec fn vertex_bit(vertex: int, axis: Axis) -> int {
    match axis {
        Axis::X => (vertex % 2 + vertex / 2) % 2,
        Axis::Y => vertex % 2,
        Axis::Z => vertex / 2,
    }
}

impl Vertex {
    /// There are four vertices.
    #[verifier::type_invariant]
    pub open spec fn wf(self) -> bool {
        0 <= self@ < 4
    }

    #[allow(non_snake_case)]
    pub fn U() -> (vertex: Vertex)
        ensures
            vertex@ == 0,
    {
        Vertex { data: 0 }
    }

    #[allow(non_snake_case)]
    pub fn L() -> (vertex: Vertex)
        ensures
            vertex@ == 1,
    {
        Vertex { data: 1 }
    }

    #[allow(non_snake_case)]
    pub fn B() -> (vertex: Vertex)
        ensures
            vertex@ == 2,
    {
        Vertex { data: 2 }
    }

    #[allow(non_snake_case)]
    pub fn R() -> (vertex: Vertex)
        ensures
            vertex@ == 3,
    {
        Vertex { data: 3 }
    }

    /// The four vertices, in the order U, L, B, R.
    pub fn all() -> (vertices: [Vertex; 4])
        ensures
            forall|k: int| 0 <= k < 4 ==> vertices[k]@ == k,
    {
        [Vertex::U(), Vertex::L(), Vertex::B(), Vertex::R()]
    }

    #[inline(always)]
    pub fn u8(self) -> (v: u8)
        ensures
            v as int == self@,
            v < 4,
    {
        proof {
            use_type_invariant(&self);
        }
        self.data
    }

    #[inline(always)]
    pub fn from_u8(data: u8) -> (vertex: Vertex)
        requires
            data < 4,
        ensures
            vertex@ == data as int,
    {
        Vertex { data }
    }

    #[inline(always)]
    pub fn from_u8_mod4(data: u8) -> (vertex: Vertex)
        ensures
            vertex@ == data as int % 4,
    {
        Vertex { data: data % 4 }
    }

    #[inline(always)]
    pub fn x(self) -> (d: Direction)
        ensures
            d.code() == vertex_bit(self@, Axis::X),
    {
        self.direction_on_axis(Axis::X)
    }

    #[inline(always)]
    pub fn y(self) -> (d: Direction)
        ensures
            d.code() == vertex_bit(self@, Axis::Y),
    {
        self.direction_on_axis(Axis::Y)
    }

    #[inline(always)]
    pub fn z(self) -> (d: Direction)
        ensures
            d.code() == vertex_bit(self@, Axis::Z),
    {
        self.direction_on_axis(Axis::Z)
    }

    #[inline(always)]
    pub fn direction_on_axis(self, axis: Axis) -> (d: Direction)
        ensures
            d.code() == vertex_bit(self@, axis),
    {
        proof {
            use_type_invariant(&self);
        }
        let bit: u8 = match axis {
            Axis::X => (self.data % 2 + self.data / 2) % 2,
            Axis::Y => self.data % 2,
            Axis::Z => self.data / 2,
        };
        Direction::from_u8(bit)
    }

    /// Whether an edge is oriented when it looks towards the move of this
    /// vertex, or towards the other side: positive for R and U, negative for
    /// L and B.
    #[inline(always)]
    pub fn orientation_direction(self) -> (d: Direction)
        ensures
            d.code() == vertex_bit(self@, Axis::X),
    {
        self.x()
    }

    /// The vertex that is `orientation` clockwise turns on from `start`,
    /// going round `self`, which is not `start`.
    #[inline(always)]
    pub fn offset(self, start: Vertex, orientation: Orientation3) -> (vertex: Vertex)
        requires
            self@ != start@,
        ensures
            vertex@ == spec_offset(self@, start@, orientation.value()),
            vertex@ != self@,
    {
        proof {
            use_type_invariant(&self);
            use_type_invariant(&start);
        }
        let anchor = self.data;
        let turns = orientation.u8();
        // Round U and B the numbers of the vertices go up, round L and R down.
        let step: u8 = if anchor % 2 == 0 {
            turns
        } else {
            (3 - turns) % 3
        };
        // Seen from the anchor, the other vertices are at 0, 1 and 2.
        let seen = (start.data + (3 - anchor)) % 4;
        let end = (seen + step) % 3;
        Vertex { data: (end + anchor + 1) % 4 }
    }

    /// The face that is `orientation` clockwise turns on from `face`, going
    /// round `self`: the face opposite to the vertex that [`Vertex::offset`] gives.
    pub fn offset_face(self, face: Face, orientation: Orientation3) -> (turned: Face)
        requires
            self@ != face.vertex@,
        ensures
            turned.vertex@ == spec_offset(self@, face.vertex@, orientation.value()),
    {
        Face { vertex: self.offset(face.vertex, orientation) }
    }

    /// A vertex is its two bits, and nothing else.
    pub proof fn lemma_view_determines(a: Vertex, b: Vertex)
        requires
            a@ == b@,
        ensures
            a == b,
    {
    }

    /// Going round one of two vertices from the other leads to the same
    /// vertex as going round the other the opposite way.
    pub proof fn lemma_offset_mirrored(a: int, b: int, turns: int)
        requires
            0 <= a < 4,
            0 <= b < 4,
            a != b,
            1 <= turns <= 2,
        ensures
            spec_offset(a, b, turns) == spec_offset(b, a, 3 - turns),
    {
    }

    /// Three turns round a vertex lead back to the start.
    pub proof fn lemma_offset_cycle(anchor: int, start: int, first: int, second: int)
        requires
            0 <= anchor < 4,
            0 <= start < 4,
            anchor != start,
            0 <= first < 3,
            0 <= second < 3,
        ensures
            spec_offset(anchor, spec_offset(anchor, start, first), second) == spec_offset(
                anchor,
                start,
                (first + second) % 3,
            ),
            spec_offset(anchor, start, 0) == start,
    {
    }
}

/// A face of the Pyraminx, told by the vertex opposite to it.
#[derive(Debug, Clone, Copy, PartialEq, Eq, Hash, Structural)]
pub struct Face {
    pub vertex: Vertex,
}

/// The colour of a sticker is the face that it starts on.
pub type Sticker = Face;

impl Face {
    #[allow(non_snake_case)]
    pub fn R() -> (face: Face)
        ensures
            face.vertex@ == 3,
    {
        Face { vertex: Vertex::R() }
    }

    #[allow(non_snake_case)]
    pub fn L() -> (face: Face)
        ensures
            face.vertex@ == 1,
    {
        Face { vertex: Vertex::L() }
    }

    #[allow(non_snake_case)]
    pub fn B() -> (face: Face)
        ensures
            face.vertex@ == 2,
    {
        Face { vertex: Vertex::B() }
    }

    #[allow(non_snake_case)]
    pub fn U() -> (face: Face)
        ensures
            face.vertex@ == 0,
    {
        Face { vertex: Vertex::U() }
    }

    pub fn new(opposite_vertex: Vertex) -> (face: Face)
        ensures
            face.vertex == opposite_vertex,
    {
        Face { vertex: opposite_vertex }
    }
}

} // verus!
