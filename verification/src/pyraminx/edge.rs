//! The six edges of the Pyraminx.
//!
//! The slots of the edges are where the centres of the faces of a cube are,
//! if the Pyraminx is put into the cube: one at each end of each axis. An
//! edge is flipped or not; the turns of L and B flip the edges that move
//! onto or off the U face.
use crate::pyraminx::mov::{Amount, CoreMove};
use crate::pyraminx::piece::{vertex_bit, Face, Vertex};
use crate::types::{Axis, Direction};
use vstd::prelude::*;

verus! {

/// Whether an integer is the byte of an edge: a slot below 6 with a flip bit above it.
pub open spec fn valid(code: int) -> bool {
    0 <= code < 16 && code % 8 < 6
}

/// The home of the edge with the given byte.
pub open spec fn home(code: int) -> int {
    code % 8
}

/// The flip bit of the edge with the given byte.
pub open spec fn flip(code: int) -> int {
    code / 8
}

/// The byte with the flip bit changed if the slot is on the U face, which the odd slots are.
pub open spec fn toggled(code: int, slot: int) -> int {
    if slot % 2 == 1 {
        (code + 8) % 16
    } else {
        code
    }
}

/// The edges with the flip bits of three slots changed where the slot is on the U face.
pub open spec fn toggled_all(edges: Seq<int>, a: int, b: int, c: int) -> Seq<int> {
    edges.update(a, toggled(edges[a], a)).update(b, toggled(edges[b], b)).update(
        c,
        toggled(edges[c], c),
    )
}

/// The edges with the pieces of two slots swapped.
pub open spec fn swapped(edges: Seq<int>, i: int, j: int) -> Seq<int> {
    edges.update(i, edges[j]).update(j, edges[i])
}

/// The edges after a move. The three edges round the vertex trade places,
/// one way or the other; an edge that comes onto the U face by a single
/// turn, or leaves it by a reverse turn, is flipped.
pub open spec fn moved(edges: Seq<int>, mov: CoreMove) -> Seq<int> {
    let a = vertex_bit(mov.spec_vertex(), Axis::X);
    let b = vertex_bit(mov.spec_vertex(), Axis::Y) + 2;
    let c = vertex_bit(mov.spec_vertex(), Axis::Z) + 4;
    match mov.spec_amount() {
        Amount::Single => toggled_all(swapped(swapped(edges, a, b), b, c), a, b, c),
        Amount::Reverse => swapped(swapped(toggled_all(edges, a, b, c), b, c), a, b),
    }
}

/// The slot between two faces, told by the vertices opposite to them: the
/// faces share the axis along which these vertices agree, and the slot is
/// at the other end of it.
pub open spec fn slot_between(v1: int, v2: int) -> int {
    let axis = if v1 % 2 == v2 % 2 {
        Axis::Y
    } else if v1 / 2 == v2 / 2 {
        Axis::Z
    } else {
        Axis::X
    };
    (1 - vertex_bit(v1, axis)) + 2 * axis.code()
}

/// The first of the two vertices that an edge of a slot lies between.
pub open spec fn first_vertex(slot: int) -> int {
    let d = slot % 2;
    if slot / 2 == 2 {
        3 * d
    } else {
        d
    }
}

/// The second of the two vertices that an edge of a slot lies between.
pub open spec fn second_vertex(slot: int) -> int {
    let d = slot % 2;
    if slot / 2 == 0 {
        3 - d
    } else if slot / 2 == 1 {
        2 + d
    } else {
        1 + d
    }
}

/// The slot at the other end of the axis.
pub open spec fn opposite_slot(slot: int) -> int {
    if slot % 2 == 0 {
        slot + 1
    } else {
        slot - 1
    }
}

/// The vertex opposite to the face by which the flip of an edge is told: U
/// for the slots on the U face, else the face that follows U clockwise.
pub open spec fn orientation_vertex(slot: int) -> int {
    if slot % 2 == 1 {
        0
    } else {
        (4 - slot / 2) % 3 + 1
    }
}

/// The vertex opposite to the other face of a slot.
pub open spec fn non_orientation_vertex(slot: int) -> int {
    if slot % 2 == 1 {
        3 - slot / 2
    } else if slot / 2 == 0 {
        1
    } else if slot / 2 == 1 {
        3
    } else {
        2
    }
}

/// An edge of the Pyraminx: its home and its flip.
///
/// Packed into a byte as `----oaad`: the direction `d` and the axis `aa` of
/// the home, and above them the flip bit.
#[derive(Debug, Clone, Copy, PartialEq, Eq, Hash, Structural)]
pub struct Edge {
    data: u8,
}

impl View for Edge {
    type V = int;

    /// The byte of the edge.
    closed spec fn view(&self) -> int {
        self.data as int
    }
}

impl Edge {
    /// The axis of every edge is one of three, and the four high bits are clear.
    #[verifier::type_invariant]
    pub open spec fn wf(self) -> bool {
        valid(self@)
    }

    /// The bytes of six edges, slot by slot.
    pub open spec fn codes(edges: [Edge; 6]) -> Seq<int> {
        Seq::new(6, |slot: int| edges[slot]@)
    }

    /// The edge whose home is at the given end of the given axis, unflipped.
    #[inline(always)]
    pub fn solved(axis: Axis, direction: Direction) -> (edge: Edge)
        ensures
            edge@ == direction.code() + 2 * axis.code(),
    {
        Edge { data: direction.u8() + axis.u8() * 2 }
    }

    /// The six edges of the solved puzzle, each in its home.
    pub fn all_solved() -> (edges: [Edge; 6])
        ensures
            Edge::codes(edges) == Seq::new(6, |slot: int| slot),
    {
        let edges = [
            Edge::from_index(0),
            Edge::from_index(1),
            Edge::from_index(2),
            Edge::from_index(3),
            Edge::from_index(4),
            Edge::from_index(5),
        ];
        assert(Edge::codes(edges) =~= Seq::new(6, |slot: int| slot));
        edges
    }

    /// The edge whose home is the slot `index`, unflipped.
    #[inline(always)]
    pub fn from_index(index: u8) -> (edge: Edge)
        requires
            index < 6,
        ensures
            edge@ == index as int,
    {
        Edge { data: index }
    }

    #[inline(always)]
    pub fn u8(self) -> (v: u8)
        ensures
            v as int == self@,
            valid(self@),
    {
        proof {
            use_type_invariant(&self);
        }
        self.data
    }

    /// The end of its axis that the home of the edge is at.
    #[inline(always)]
    pub fn axis_direction(self) -> (d: Direction)
        ensures
            d.code() == self@ % 2,
    {
        Direction::from_u8_mod2(self.data)
    }

    /// The axis that the home of the edge is on.
    #[inline(always)]
    pub fn axis(self) -> (axis: Axis)
        ensures
            axis.code() == home(self@) / 2,
    {
        proof {
            use_type_invariant(&self);
        }
        Axis::from_u8(self.data % 8 / 2)
    }

    pub fn is_oriented(self) -> (oriented: bool)
        ensures
            oriented == (flip(self@) == 0),
    {
        self.data / 8 == 0
    }

    /// The edge whose home is between two faces, which differ.
    pub fn position_from_faces(faces: [Face; 2]) -> (edge: Edge)
        requires
            faces[0].vertex@ != faces[1].vertex@,
        ensures
            edge@ == slot_between(faces[0].vertex@, faces[1].vertex@),
            first_vertex(opposite_slot(edge@)) == faces[0].vertex@ && second_vertex(
                opposite_slot(edge@),
            ) == faces[1].vertex@ || first_vertex(opposite_slot(edge@)) == faces[1].vertex@
                && second_vertex(opposite_slot(edge@)) == faces[0].vertex@,
    {
        let v1 = faces[0].vertex;
        let v2 = faces[1].vertex;
        let shared_axis = if v1.y() == v2.y() {
            Axis::Y
        } else if v1.z() == v2.z() {
            Axis::Z
        } else {
            Axis::X
        };
        // The edge is at the end of the axis away from the two vertices.
        let direction = v1.direction_on_axis(shared_axis).flip();
        proof {
            use_type_invariant(&v1);
            use_type_invariant(&v2);
        }
        Edge { data: direction.u8() + shared_axis.u8() * 2 }
    }

    /// The two vertices that the home of the edge lies between.
    pub fn vertices(self) -> (vertices: [Vertex; 2])
        ensures
            vertices[0]@ == first_vertex(home(self@)),
            vertices[1]@ == second_vertex(home(self@)),
    {
        proof {
            use_type_invariant(&self);
        }
        let d = self.data % 2;
        let axis = self.data % 8 / 2;
        if axis == 0 {
            [Vertex::from_u8(d), Vertex::from_u8(3 - d)]
        } else if axis == 1 {
            [Vertex::from_u8(d), Vertex::from_u8(2 + d)]
        } else {
            [Vertex::from_u8(3 * d), Vertex::from_u8(1 + d)]
        }
    }

    /// The two faces that meet in the home of the edge: those opposite to
    /// the vertices at the other end of the axis.
    pub fn faces(self) -> (faces: [Face; 2])
        ensures
            faces[0].vertex@ == first_vertex(opposite_slot(home(self@))),
            faces[1].vertex@ == second_vertex(opposite_slot(home(self@))),
    {
        proof {
            use_type_invariant(&self);
        }
        let d = 1 - self.data % 2;
        let axis = self.data % 8 / 2;
        if axis == 0 {
            [Face::new(Vertex::from_u8(d)), Face::new(Vertex::from_u8(3 - d))]
        } else if axis == 1 {
            [Face::new(Vertex::from_u8(d)), Face::new(Vertex::from_u8(2 + d))]
        } else {
            [Face::new(Vertex::from_u8(3 * d)), Face::new(Vertex::from_u8(1 + d))]
        }
    }

    /// The face by which the flip of the edge is told: the U face, or for
    /// an edge off the U face the one of its faces that follows U clockwise.
    pub fn orientation_face(self) -> (face: Face)
        ensures
            face.vertex@ == orientation_vertex(home(self@)),
    {
        proof {
            use_type_invariant(&self);
        }
        if self.is_on_orientation_face() {
            Face::U()
        } else {
            Face { vertex: Vertex::from_u8((4 - self.axis().u8()) % 3 + 1) }
        }
    }

    /// The other face of the edge.
    pub fn non_orientation_face(self) -> (face: Face)
        ensures
            face.vertex@ == non_orientation_vertex(home(self@)),
    {
        proof {
            use_type_invariant(&self);
        }
        let axis = self.axis().u8();
        if self.is_on_orientation_face() {
            Face { vertex: Vertex::from_u8(3 - axis) }
        } else if axis == 0 {
            Face::L()
        } else if axis == 1 {
            Face::R()
        } else {
            Face::B()
        }
    }

    /// Whether the home of the edge is on the U face.
    pub fn is_on_orientation_face(self) -> (on_u: bool)
        ensures
            on_u == (self@ % 2 == 1),
    {
        self.data % 2 == 1
    }

    /// The edge with its flip bit changed if `slot` is on the U face.
    fn toggled_at(self, slot: usize) -> (edge: Edge)
        ensures
            edge@ == toggled(self@, slot as int),
    {
        proof {
            use_type_invariant(&self);
        }
        if slot % 2 == 1 {
            Edge { data: (self.data + 8) % 16 }
        } else {
            self
        }
    }

    /// An edge is its home and its flip, and nothing else.
    pub proof fn lemma_view_determines(a: Edge, b: Edge)
        requires
            a@ == b@,
        ensures
            a == b,
    {
    }
}

/// The edges after a move.
pub fn move_pieces(edges: [Edge; 6], mov: CoreMove) -> (out: [Edge; 6])
    ensures
        Edge::codes(out) == moved(Edge::codes(edges), mov),
{
    let mut out = edges;
    move_pieces_in_place(&mut out, mov);
    out
}

/// Swaps the edges of two slots.
fn swap(edges: &mut [Edge; 6], i: usize, j: usize)
    requires
        i < 6,
        j < 6,
    ensures
        Edge::codes(*final(edges)) == swapped(Edge::codes(*old(edges)), i as int, j as int),
{
    let first = edges[i];
    let second = edges[j];
    edges[i] = second;
    edges[j] = first;
    assert(Edge::codes(*edges) =~= swapped(Edge::codes(*old(edges)), i as int, j as int));
}

/// Changes the flip bits of three slots where the slot is on the U face.
fn toggle(edges: &mut [Edge; 6], a: usize, b: usize, c: usize)
    requires
        a < b < c < 6,
    ensures
        Edge::codes(*final(edges)) == toggled_all(
            Edge::codes(*old(edges)),
            a as int,
            b as int,
            c as int,
        ),
{
    let first = edges[a].toggled_at(a);
    edges[a] = first;
    let second = edges[b].toggled_at(b);
    edges[b] = second;
    let third = edges[c].toggled_at(c);
    edges[c] = third;
    assert(Edge::codes(*edges) =~= toggled_all(
        Edge::codes(*old(edges)),
        a as int,
        b as int,
        c as int,
    ));
}

/// Makes a move on the edges.
pub fn move_pieces_in_place(edges: &mut [Edge; 6], mov: CoreMove)
    ensures
        Edge::codes(*final(edges)) == moved(Edge::codes(*old(edges)), mov),
{
    let vertex = mov.vertex();
    let a = vertex.x().u8() as usize;
    let b = (vertex.y().u8() + 2) as usize;
    let c = (vertex.z().u8() + 4) as usize;
    match mov.amount() {
        Amount::Single => {
            swap(edges, a, b);
            swap(edges, b, c);
            // Flip what has come onto the U face.
            toggle(edges, a, b, c);
        },
        Amount::Reverse => {
            // Flip what is about to leave the U face.
            toggle(edges, a, b, c);
            swap(edges, b, c);
            swap(edges, a, b);
        },
    }
}

} // verus!
