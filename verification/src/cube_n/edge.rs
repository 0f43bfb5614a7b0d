//! The twelve edges of a cube: where each one sits, whether it is flipped,
//! and what a face turn does to them.
//!
//! A slot of the cube and the home of a piece are both packed as `nnba`: `nn`
//! is the axis that the edge runs along (its normal), `a` is the direction of
//! the edge along the axis after the normal and `b` along the axis before it.
//! In contracts an edge is the integer that its byte holds, and a set of edges
//! is the sequence of those integers, slot by slot.
use crate::cube_n::face::Face;
use crate::cube_n::mov::{Amount, Move};
use crate::perm;
use crate::types::{Axis, Direction};
use vstd::prelude::*;

verus! {

/// The colour of a sticker is the face that it starts on.
pub type Sticker = Face;

/// Whether an integer is the byte of an edge: one of twelve places, with a
/// flip bit above it.
pub open spec fn valid(code: int) -> bool {
    0 <= code < 32 && code % 16 < 12
}

/// The home of the edge with the given byte.
pub open spec fn home(code: int) -> int {
    code % 16
}

/// The flip bit of the edge with the given byte: 0 if it is oriented.
pub open spec fn flip(code: int) -> int {
    code / 16
}

/// The number of the axis that the edges of a slot run along.
pub open spec fn slot_normal(slot: int) -> int {
    slot / 4
}

/// The direction bit of a slot along an axis other than its normal.
pub open spec fn slot_dir(slot: int, axis: Axis) -> int {
    if axis.code() == (slot_normal(slot) + 1) % 3 {
        slot % 2
    } else {
        slot / 2 % 2
    }
}

/// Whether a slot touches a face.
pub open spec fn slot_on_face(slot: int, face: Face) -> bool {
    face.axis().code() != slot_normal(slot) && slot_dir(slot, face.axis()) == face.direction().code()
}

/// The slot between two perpendicular faces.
pub open spec fn slot_of_faces(f1: Face, f2: Face) -> int {
    let normal = (2 * f1.axis().code() + 3 - f2.axis().code()) % 3;
    if f1.axis().code() == (normal + 1) % 3 {
        f1.direction().code() + 2 * f2.direction().code() + 4 * normal
    } else {
        f2.direction().code() + 2 * f1.direction().code() + 4 * normal
    }
}

/// The face of a slot along an axis other than its normal.
pub open spec fn slot_face(slot: int, axis: Axis) -> Face {
    Face::spec_new(axis, Direction::from_code(slot_dir(slot, axis)))
}

/// The axis by which the flip of an edge is told: Y, or Z for the edges that run along Y.
pub open spec fn orientation_axis(slot: int) -> Axis {
    if slot_normal(slot) == 1 {
        Axis::Z
    } else {
        Axis::Y
    }
}

/// The third axis of a slot: neither its normal nor its orientation axis.
pub open spec fn non_orientation_axis(slot: int) -> Axis {
    if slot_normal(slot) == 0 {
        Axis::Z
    } else {
        Axis::X
    }
}

/// The slot whose piece a turn of `face` by `amount` brings to `slot`.
///
/// A slot off the face keeps its piece. On the face, a half turn brings the
/// piece from across the face: the slot with the same normal whose other
/// direction is the opposite one. A quarter turn rotates the two axes `(i, j)`
/// of the face's plane, taking the coordinates `(p_i, p_j)` to `(p_j, -p_i)`,
/// one way or the other according to the amount as seen from the positive end
/// of the axis; the piece comes from the slot between the face and the face
/// that this rotation sends to the other face of `slot`.
#[verifier::opaque]
pub open spec fn source_slot(slot: int, face: Face, amount: Amount) -> int {
    if !slot_on_face(slot, face) {
        slot
    } else {
        let next = Axis::from_code(face.axis().code() + 1);
        let prev = Axis::from_code(face.axis().code() + 2);
        match amount.seen_from(face.direction()) {
            Amount::Single => quarter_source(slot, face, next, prev),
            Amount::Double => across(slot, face),
            Amount::Reverse => quarter_source(slot, face, prev, next),
        }
    }
}

/// The slot across the face from `slot`.
pub open spec fn across(slot: int, face: Face) -> int {
    if face.axis().code() == (slot_normal(slot) + 1) % 3 {
        if slot / 2 % 2 == 0 {
            slot + 2
        } else {
            slot - 2
        }
    } else {
        if slot % 2 == 0 {
            slot + 1
        } else {
            slot - 1
        }
    }
}

/// The slot of `face` that a quarter turn taking `(p_i, p_j)` to `(p_j, -p_i)` carries to `slot`.
pub open spec fn quarter_source(slot: int, face: Face, i: Axis, j: Axis) -> int {
    if i.code() == slot_normal(slot) {
        slot_of_faces(Face::spec_new(i, Direction::from_code(1 - slot_dir(slot, j))), face)
    } else {
        slot_of_faces(Face::spec_new(j, Direction::from_code(slot_dir(slot, i))), face)
    }
}

/// What a turn of `face` by `amount` adds to the flip bit of the piece that
/// it brings to `slot`: 1 for a quarter turn of the front or the back face,
/// else nothing.
#[verifier::opaque]
pub open spec fn flip_delta(slot: int, face: Face, amount: Amount) -> int {
    if slot_on_face(slot, face) && face.axis() == Axis::Z && amount != Amount::Double {
        1
    } else {
        0
    }
}

/// The byte of an edge after `delta` flips.
#[verifier::opaque]
pub open spec fn flipped_by(code: int, delta: int) -> int {
    (code + 16 * delta) % 32
}

/// The edge that is in `slot` after a turn of `face` by `amount`.
pub open spec fn moved_edge(edges: Seq<int>, face: Face, amount: Amount, slot: int) -> int {
    flipped_by(edges[source_slot(slot, face, amount)], flip_delta(slot, face, amount))
}

/// The edges after a turn of `face` by `amount`.
pub open spec fn moved(edges: Seq<int>, face: Face, amount: Amount) -> Seq<int> {
    Seq::new(12, |slot: int| moved_edge(edges, face, amount, slot))
}

/// Twelve edges, each of them the byte of an edge.
pub open spec fn all_valid(edges: Seq<int>) -> bool {
    &&& edges.len() == 12
    &&& forall|slot: int| 0 <= slot < 12 ==> valid(#[trigger] edges[slot])
}

/// The number of faces that two slots share.
pub open spec fn shared_faces(a: int, b: int) -> int {
    let f1 = slot_face(a, Axis::from_code(slot_normal(a) + 1));
    let f2 = slot_face(a, Axis::from_code(slot_normal(a) + 2));
    let g1 = slot_face(b, Axis::from_code(slot_normal(b) + 1));
    let g2 = slot_face(b, Axis::from_code(slot_normal(b) + 2));
    (if f1 == g1 || f1 == g2 {
        1int
    } else {
        0int
    }) + (if f2 == g1 || f2 == g2 {
        1int
    } else {
        0int
    })
}

/// The least number of face turns that bring an edge from one slot to another.
pub open spec fn turn_distance(a: int, b: int) -> int {
    2 - shared_faces(a, b)
}

/// The sticker that shows on `face` for a piece with byte `code` in `slot`:
/// the piece shows the face of its orientation axis on the orientation axis
/// of the slot if it is oriented, and on the other axis if it is flipped.
pub open spec fn spec_sticker(code: int, slot: int, face: Face) -> Face {
    if (orientation_axis(slot) == face.axis()) == (flip(code) == 0) {
        slot_face(home(code), orientation_axis(home(code)))
    } else {
        slot_face(home(code), non_orientation_axis(home(code)))
    }
}

/// An edge piece: its home and its flip.
///
/// Packed into a byte as `---onnba`: the home in the four low bits and
/// above it the flip bit, which the quarter turns of the front and the back
/// face toggle.
#[derive(Debug, Clone, Copy, PartialEq, Eq, Hash, Structural)]
pub struct Edge {
    data: u8,
}

impl View for Edge {
    type V = int;

    /// The byte of the edge.
    closed spec fn view(&self) -> int {
        self.data as int
    }
}

impl Edge {
    /// The home of every edge is one of twelve, and the three high bits are clear.
    #[verifier::type_invariant]
    pub open spec fn wf(self) -> bool {
        valid(self@)
    }

    /// The bytes of twelve edges, slot by slot.
    pub open spec fn codes(edges: [Edge; 12]) -> Seq<int> {
        Seq::new(12, |slot: int| edges[slot]@)
    }

    /// The twelve edges of a solved cube, each in its home.
    pub fn all_solved() -> (edges: [Edge; 12])
        ensures
            Edge::codes(edges) == Seq::new(12, |slot: int| slot),
    {
        let edges = [
            Edge::solved(0),
            Edge::solved(1),
            Edge::solved(2),
            Edge::solved(3),
            Edge::solved(4),
            Edge::solved(5),
            Edge::solved(6),
            Edge::solved(7),
            Edge::solved(8),
            Edge::solved(9),
            Edge::solved(10),
            Edge::solved(11),
        ];
        assert(Edge::codes(edges) =~= Seq::new(12, |slot: int| slot));
        edges
    }

    /// The direction of the piece's home along the axis after its normal.
    #[inline]
    pub fn a(self) -> (d: Direction)
        ensures
            d.code() == home(self@) % 2,
    {
        self.position().a()
    }

    /// The direction of the piece's home along the axis before its normal.
    #[inline]
    pub fn b(self) -> (d: Direction)
        ensures
            d.code() == home(self@) / 2 % 2,
    {
        self.position().b()
    }

    /// The axis that the piece runs along when it is home.
    #[inline]
    pub fn normal(self) -> (axis: Axis)
        ensures
            axis.code() == slot_normal(home(self@)),
    {
        self.position().normal()
    }

    /// The flip of the piece: positive if it is oriented.
    #[inline]
    pub fn orientation(self) -> (d: Direction)
        ensures
            d.code() == flip(self@),
    {
        proof {
            use_type_invariant(&self);
        }
        Direction::from_u8(self.data / 16)
    }

    /// The piece whose home is the slot `index`, oriented.
    pub fn solved(index: u8) -> (edge: Edge)
        requires
            index < 12,
        ensures
            edge@ == index as int,
    {
        Edge { data: index }
    }

    #[inline]
    pub fn is_oriented(self) -> (b: bool)
        ensures
            b == (flip(self@) == 0),
    {
        self.data / 16 == 0
    }

    /// Sets the flip bit: clear if the piece is to be oriented.
    pub fn set_oriented(&mut self, oriented: bool)
        ensures
            final(self)@ == home(old(self)@) + 16 * (if oriented {
                0int
            } else {
                1int
            }),
    {
        *self = self.position().with_orientation(Direction::from_bool(!oriented));
    }

    /// The home of the piece: the place where it is when the cube is solved.
    #[inline]
    pub fn position(self) -> (position: EdgePosition)
        ensures
            position@ == home(self@),
    {
        proof {
            use_type_invariant(&self);
        }
        EdgePosition { data: self.data % 16 }
    }

    /// The two faces that the piece's home touches: the colours of the piece.
    pub fn faces(self) -> (faces: [Face; 2])
        ensures
            faces[0] == slot_face(home(self@), Axis::from_code(slot_normal(home(self@)) + 1)),
            faces[1] == slot_face(home(self@), Axis::from_code(slot_normal(home(self@)) + 2)),
    {
        self.position().faces()
    }

    /// The piece that is now in the home of this one.
    pub fn current(self, edges: &[Edge; 12]) -> (edge: Edge)
        ensures
            0 <= home(self@) < 12,
            edge == edges[home(self@)],
    {
        self.position().pick(edges)
    }

    /// The piece after `delta` flips.
    fn flipped_by(self, delta: u8) -> (edge: Edge)
        requires
            delta < 2,
        ensures
            edge@ == flipped_by(self@, delta as int),
    {
        proof {
            use_type_invariant(&self);
            reveal(flipped_by);
        }
        Edge { data: (self.data + delta * 16) % 32 }
    }

    /// An edge is its home and its flip, and nothing else.
    pub proof fn lemma_view_determines(a: Edge, b: Edge)
        requires
            a@ == b@,
        ensures
            a == b,
    {
    }
}

/// A place where an edge can be.
#[derive(Debug, Clone, Copy, PartialEq, Eq, Hash, Structural)]
pub struct EdgePosition {
    data: u8,
}

impl View for EdgePosition {
    type V = int;

    /// The slot, packed as `nnba`.
    closed spec fn view(&self) -> int {
        self.data as int
    }
}

impl EdgePosition {
    /// There are twelve slots.
    #[verifier::type_invariant]
    pub open spec fn wf(self) -> bool {
        0 <= self@ < 12
    }

    /// The twelve slots in order.
    pub fn all() -> (positions: [EdgePosition; 12])
        ensures
            forall|slot: int| 0 <= slot < 12 ==> positions[slot]@ == slot,
    {
        [
            EdgePosition::from_index(0),
            EdgePosition::from_index(1),
            EdgePosition::from_index(2),
            EdgePosition::from_index(3),
            EdgePosition::from_index(4),
            EdgePosition::from_index(5),
            EdgePosition::from_index(6),
            EdgePosition::from_index(7),
            EdgePosition::from_index(8),
            EdgePosition::from_index(9),
            EdgePosition::from_index(10),
            EdgePosition::from_index(11),
        ]
    }

    #[inline]
    pub fn a(self) -> (d: Direction)
        ensures
            d.code() == self@ % 2,
    {
        Direction::from_bool(self.data % 2 != 0)
    }

    #[inline]
    pub fn b(self) -> (d: Direction)
        ensures
            d.code() == self@ / 2 % 2,
    {
        Direction::from_bool(self.data / 2 % 2 != 0)
    }

    #[inline]
    pub fn normal(self) -> (axis: Axis)
        ensures
            axis.code() == slot_normal(self@),
    {
        proof {
            use_type_invariant(&self);
        }
        Axis::from_u8(self.data / 4)
    }

    /// The slot between two perpendicular faces, in either order.
    pub fn from_faces(faces: [Face; 2]) -> (position: EdgePosition)
        requires
            faces[0].axis() != faces[1].axis(),
        ensures
            position@ == slot_of_faces(faces[0], faces[1]),
            slot_on_face(position@, faces[0]),
            slot_on_face(position@, faces[1]),
    {
        let f1 = faces[0];
        let f2 = faces[1];
        let normal = Axis::other(f1.axis(), f2.axis());
        let properly_ordered = f1.axis() == normal.next();
        let (a, b) = if properly_ordered {
            (f1.direction(), f2.direction())
        } else {
            (f2.direction(), f1.direction())
        };
        EdgePosition { data: a.u8() + b.u8() * 2 + normal.u8() * 4 }
    }

    /// The faces that the slot touches: first the one along the axis after
    /// the normal, then the one along the axis before it.
    pub fn faces(self) -> (faces: [Face; 2])
        ensures
            faces[0] == slot_face(self@, Axis::from_code(slot_normal(self@) + 1)),
            faces[1] == slot_face(self@, Axis::from_code(slot_normal(self@) + 2)),
    {
        let normal = self.normal();
        [Face::new(normal.next(), self.a()), Face::new(normal.prev(), self.b())]
    }

    /// The piece that is in this slot.
    pub fn pick(self, edges: &[Edge; 12]) -> (edge: Edge)
        ensures
            0 <= self@ < 12,
            edge == edges[self@],
    {
        proof {
            use_type_invariant(&self);
        }
        edges[self.data as usize]
    }

    #[inline]
    pub fn from_index(index: u8) -> (position: EdgePosition)
        requires
            index < 12,
        ensures
            position@ == index as int,
    {
        EdgePosition { data: index }
    }

    /// The direction of the slot along an axis, which is not its normal.
    #[inline]
    pub fn direction_on_axis(self, axis: Axis) -> (d: Direction)
        requires
            axis.code() != slot_normal(self@),
        ensures
            d.code() == slot_dir(self@, axis),
    {
        if axis == self.normal().next() {
            self.a()
        } else {
            self.b()
        }
    }

    /// The face of the slot along an axis, which is not its normal.
    #[inline]
    pub fn face_on_axis(self, axis: Axis) -> (face: Face)
        requires
            axis.code() != slot_normal(self@),
        ensures
            face == slot_face(self@, axis),
    {
        Face::new(axis, self.direction_on_axis(axis))
    }

    #[inline]
    pub fn orientation_axis(self) -> (axis: Axis)
        ensures
            axis == orientation_axis(self@),
            axis.code() != slot_normal(self@),
    {
        match self.normal() {
            Axis::Y => Axis::Z,
            _ => Axis::Y,
        }
    }

    pub fn non_orientation_axis(self) -> (axis: Axis)
        ensures
            axis == non_orientation_axis(self@),
            axis.code() != slot_normal(self@),
    {
        match self.normal() {
            Axis::X => Axis::Z,
            Axis::Y => Axis::X,
            Axis::Z => Axis::X,
        }
    }

    pub fn orientation_face(self) -> (face: Face)
        ensures
            face == slot_face(self@, orientation_axis(self@)),
    {
        self.face_on_axis(self.orientation_axis())
    }

    pub fn other_face(self) -> (face: Face)
        ensures
            face == slot_face(self@, non_orientation_axis(self@)),
    {
        self.face_on_axis(self.non_orientation_axis())
    }

    pub fn contains_face(self, face: Face) -> (b: bool)
        ensures
            b == slot_on_face(self@, face),
    {
        face.axis() != self.normal() && face.direction() == self.direction_on_axis(face.axis())
    }

    /// The least number of turns that bring a piece from `self` to `other`.
    ///
    /// Of the twelve slots one is at distance 0 (the slot itself), six are at
    /// distance 1 and five are at distance 2.
    pub fn turn_distance(self, other: EdgePosition) -> (distance: u8)
        ensures
            distance as int == turn_distance(self@, other@),
    {
        let f = self.faces();
        let g = other.faces();
        let first: u8 = if f[0] == g[0] || f[0] == g[1] {
            1
        } else {
            0
        };
        let second: u8 = if f[1] == g[0] || f[1] == g[1] {
            1
        } else {
            0
        };
        2 - (first + second)
    }

    pub fn index(self) -> (v: u8)
        ensures
            v as int == self@,
            v < 12,
    {
        proof {
            use_type_invariant(&self);
        }
        self.data
    }

    /// The piece whose home is this slot, with the given flip.
    pub fn with_orientation(self, orientation: Direction) -> (edge: Edge)
        ensures
            edge@ == self@ + 16 * orientation.code(),
    {
        proof {
            use_type_invariant(&self);
        }
        Edge { data: self.data + orientation.u8() * 16 }
    }

    /// The slot across the face from this one.
    fn across(self, face: Face) -> (position: EdgePosition)
        requires
            slot_on_face(self@, face),
        ensures
            position@ == across(self@, face),
    {
        proof {
            use_type_invariant(&self);
        }
        if face.axis() == self.normal().next() {
            if self.b().bool() {
                EdgePosition { data: self.data - 2 }
            } else {
                EdgePosition { data: self.data + 2 }
            }
        } else {
            if self.a().bool() {
                EdgePosition { data: self.data - 1 }
            } else {
                EdgePosition { data: self.data + 1 }
            }
        }
    }

    /// The slot of `face` that a quarter turn taking `(p_i, p_j)` to
    /// `(p_j, -p_i)` carries here.
    fn quarter_source(self, face: Face, i: Axis, j: Axis) -> (position: EdgePosition)
        requires
            slot_on_face(self@, face),
            i.code() == (face.axis().code() + 1) % 3 && j.code() == (face.axis().code() + 2) % 3
                || i.code() == (face.axis().code() + 2) % 3 && j.code() == (face.axis().code()
                + 1) % 3,
        ensures
            position@ == quarter_source(self@, face, i, j),
    {
        proof {
            use_type_invariant(&self);
        }
        let other_face = if i == self.normal() {
            Face::new(i, self.direction_on_axis(j).flip())
        } else {
            Face::new(j, self.direction_on_axis(i))
        };
        EdgePosition::from_faces([other_face, face])
    }

    /// A slot is its four bits, and nothing else.
    pub proof fn lemma_view_determines(a: EdgePosition, b: EdgePosition)
        requires
            a@ == b.view(),
        ensures
            a == b,
    {
    }
}

/// The colour that shows on `face` of the slot `position` when `edge` is in
/// it. The face is one of the two that the slot touches.
pub fn sticker(edge: Edge, position: EdgePosition, face: Face) -> (sticker: Sticker)
    requires
        face.axis().code() != slot_normal(position@),
    ensures
        sticker == spec_sticker(edge@, position@, face),
{
    if (position.orientation_axis() == face.axis()) == edge.is_oriented() {
        edge.position().orientation_face()
    } else {
        edge.position().other_face()
    }
}

/// The piece that a move brings to `slot`.
fn moved_piece(edges: &[Edge; 12], mov: Move, slot: u8) -> (edge: Edge)
    requires
        slot < 12,
    ensures
        edge@ == moved_edge(Edge::codes(*edges), mov.face(), mov.amount(), slot as int),
{
    reveal(source_slot);
    reveal(flip_delta);
    let position = EdgePosition::from_index(slot);
    let face = mov.face();
    if !position.contains_face(face) {
        let piece = position.pick(edges);
        proof {
            use_type_invariant(&piece);
            reveal(flipped_by);
        }
        return piece;
    }
    let axis = face.axis();
    let source = match mov.amount().seen_from(face.direction()) {
        Amount::Single => position.quarter_source(face, axis.next(), axis.prev()),
        Amount::Double => position.across(face),
        Amount::Reverse => position.quarter_source(face, axis.prev(), axis.next()),
    };
    let piece = source.pick(edges);
    let delta: u8 = match (axis, mov.amount()) {
        (_, Amount::Double) => 0,
        (Axis::Z, _) => 1,
        (_, _) => 0,
    };
    piece.flipped_by(delta)
}

/// The edges after a move.
pub fn move_pieces(edges: [Edge; 12], mov: Move) -> (out: [Edge; 12])
    ensures
        Edge::codes(out) == moved(Edge::codes(edges), mov.face(), mov.amount()),
{
    let mut out = edges;
    let mut slot: u8 = 0;
    while slot < 12
        invariant
            slot <= 12,
            forall|j: int|
                0 <= j < slot ==> out[j]@ == moved_edge(
                    Edge::codes(edges),
                    mov.face(),
                    mov.amount(),
                    j,
                ),
        decreases 12 - slot,
    {
        out[slot as usize] = moved_piece(&edges, mov, slot);
        slot += 1;
    }
    assert(Edge::codes(out) =~= moved(Edge::codes(edges), mov.face(), mov.amount()));
    out
}

/// The sum of the flip bits of twelve edges.
pub open spec fn flip_sum(edges: Seq<int>) -> int {
    flip(edges[0]) + flip(edges[1]) + flip(edges[2]) + flip(edges[3]) + flip(edges[4]) + flip(
        edges[5],
    ) + flip(edges[6]) + flip(edges[7]) + flip(edges[8]) + flip(edges[9]) + flip(edges[10])
        + flip(edges[11])
}

/// The homes of the pieces, slot by slot: the arrangement that the edges are in.
pub open spec fn homes(edges: Seq<int>) -> Seq<int> {
    Seq::new(edges.len(), |slot: int| home(edges[slot]))
}

/// No two of the edges are the same piece.
pub open spec fn distinct_homes(edges: Seq<int>) -> bool {
    perm::distinct(homes(edges))
}

/// The four slots of a face, in the order in which a clockwise quarter turn
/// of the face passes a piece along: from the slot `k` to the slot `k + 1`,
/// and from the last to the first.
pub open spec fn cycle_slot(face: Face, k: int) -> int {
    let k = k % 4;
    match face {
        Face::R => if k == 0 { 4 } else if k == 1 { 8 } else if k == 2 { 5 } else { 10 },
        Face::U => if k == 0 { 0 } else if k == 1 { 9 } else if k == 2 { 2 } else { 8 },
        Face::F => if k == 0 { 0 } else if k == 1 { 4 } else if k == 2 { 1 } else { 6 },
        Face::L => if k == 0 { 6 } else if k == 1 { 11 } else if k == 2 { 7 } else { 9 },
        Face::D => if k == 0 { 1 } else if k == 1 { 10 } else if k == 2 { 3 } else { 11 },
        Face::B => if k == 0 { 2 } else if k == 1 { 7 } else if k == 2 { 3 } else { 5 },
    }
}

/// The four slots of the layer between a face and the opposite one: those
/// whose edges run along the axis of the face.
pub open spec fn middle_slot(face: Face, k: int) -> int {
    4 * face.axis().code() + k
}

/// The place of a slot in the cycle of a face, in that of the opposite
/// face, or in the layer between them.
pub open spec fn cycle_index(slot: int, face: Face) -> int {
    if slot == cycle_slot(face, 0) || slot == cycle_slot(face.opposite(), 0) || slot
        == middle_slot(face, 0) {
        0
    } else if slot == cycle_slot(face, 1) || slot == cycle_slot(face.opposite(), 1) || slot
        == middle_slot(face, 1) {
        1
    } else if slot == cycle_slot(face, 2) || slot == cycle_slot(face.opposite(), 2) || slot
        == middle_slot(face, 2) {
        2
    } else {
        3
    }
}

/// What a quarter turn of `face` adds to the flip bits of the face.
pub open spec fn quarter_flip(face: Face) -> int {
    if face.axis() == Axis::Z {
        1
    } else {
        0
    }
}

/// The number of slots at a given turn distance from `slot`.
pub open spec fn count_at_distance(slot: int, distance: int) -> int {
    at_distance(slot, 0, distance) + at_distance(slot, 1, distance) + at_distance(
        slot,
        2,
        distance,
    ) + at_distance(slot, 3, distance) + at_distance(slot, 4, distance) + at_distance(
        slot,
        5,
        distance,
    ) + at_distance(slot, 6, distance) + at_distance(slot, 7, distance) + at_distance(
        slot,
        8,
        distance,
    ) + at_distance(slot, 9, distance) + at_distance(slot, 10, distance) + at_distance(
        slot,
        11,
        distance,
    )
}

/// 1 if `other` is at the given turn distance from `slot`, else 0.
pub open spec fn at_distance(slot: int, other: int, distance: int) -> int {
    if turn_distance(slot, other) == distance {
        1
    } else {
        0
    }
}

/// What a turn does, told by the cycle of its face: the piece of the slot `k`
/// of the cycle goes `amount` slots on, flipped if the turn is a quarter turn
/// of the front or the back face; the slots of the opposite face and of the
/// layer between keep their pieces as they are.
pub proof fn lemma_cycle(face: Face, amount: Amount, k: int)
    requires
        0 <= k < 4,
    ensures
        0 <= cycle_slot(face, k) < 12,
        0 <= cycle_slot(face.opposite(), k) < 12,
        0 <= middle_slot(face, k) < 12,
        source_slot(cycle_slot(face, k), face, amount) == cycle_slot(face, k + 4 - amount.code()),
        flip_delta(cycle_slot(face, k), face, amount) == (if amount == Amount::Double {
            0
        } else {
            quarter_flip(face)
        }),
        source_slot(cycle_slot(face.opposite(), k), face, amount) == cycle_slot(face.opposite(), k),
        flip_delta(cycle_slot(face.opposite(), k), face, amount) == 0,
        source_slot(middle_slot(face, k), face, amount) == middle_slot(face, k),
        flip_delta(middle_slot(face, k), face, amount) == 0,
{
    reveal(source_slot);
    reveal(flip_delta);
}

/// Every slot is on a face, on the opposite one or between them.
pub proof fn lemma_on_cycle(slot: int, face: Face)
    requires
        0 <= slot < 12,
    ensures
        0 <= cycle_index(slot, face) < 4,
        slot == cycle_slot(face, cycle_index(slot, face)) || slot == cycle_slot(
            face.opposite(),
            cycle_index(slot, face),
        ) || slot == middle_slot(face, cycle_index(slot, face)),
{
}

/// What two turns of one face make, slot by slot: the piece comes from where
/// the one turn of both amounts together would bring it, with the same flip.
/// Amounts that add up to a full turn bring every piece back as it was.
#[verifier::rlimit(100)]
pub proof fn lemma_compose_slot(slot: int, face: Face, first: Amount, second: Amount)
    requires
        0 <= slot < 12,
    ensures
        ({
            let mid = source_slot(slot, face, second);
            let from = source_slot(mid, face, first);
            let delta = flip_delta(mid, face, first) + flip_delta(slot, face, second);
            let total = (first.code() + second.code()) % 4;
            &&& 0 <= mid < 12
            &&& 0 <= from < 12
            &&& 0 <= flip_delta(mid, face, first) <= 1
            &&& 0 <= flip_delta(slot, face, second) <= 1
            &&& total == 0 ==> from == slot && delta % 2 == 0
            &&& total != 0 ==> from == source_slot(slot, face, Amount::from_code(total)) && delta
                % 2 == flip_delta(slot, face, Amount::from_code(total))
        }),
{
    lemma_on_cycle(slot, face);
    let k = cycle_index(slot, face);
    let total = (first.code() + second.code()) % 4;
    lemma_cycle(face, second, k);
    if slot == cycle_slot(face, k) {
        let k2 = (k + 4 - second.code()) % 4;
        lemma_cycle(face, first, k2);
        if total != 0 {
            lemma_cycle(face, Amount::from_code(total), k);
        }
    } else {
        lemma_cycle(face, first, k);
        if total != 0 {
            lemma_cycle(face, Amount::from_code(total), k);
        }
    }
}

/// Flipping an edge keeps its home and adds to its flip bit modulo 2.
pub proof fn lemma_flipped_by(code: int, delta: int)
    requires
        valid(code),
        0 <= delta <= 1,
    ensures
        valid(flipped_by(code, delta)),
        home(flipped_by(code, delta)) == home(code),
        flip(flipped_by(code, delta)) == (flip(code) + delta) % 2,
        delta == 0 ==> flipped_by(code, delta) == code,
{
    reveal(flipped_by);
}

/// Flipping twice is flipping once by the sum, taken modulo 2.
pub proof fn lemma_flipped_twice(code: int, first: int, second: int)
    requires
        valid(code),
        0 <= first <= 1,
        0 <= second <= 1,
    ensures
        flipped_by(flipped_by(code, first), second) == flipped_by(code, (first + second) % 2),
{
    reveal(flipped_by);
    let once = code + 16 * first;
    assert(once % 32 == if once >= 32 {
        once - 32
    } else {
        once
    });
    let twice = once % 32 + 16 * second;
    assert(twice % 32 == if twice >= 32 {
        twice - 32
    } else {
        twice
    });
}

/// The edge that a turn brings to a slot is the edge of the slot that it
/// comes from, flipped or not.
pub proof fn lemma_moved_edge(edges: Seq<int>, face: Face, amount: Amount, slot: int)
    requires
        all_valid(edges),
        0 <= slot < 12,
    ensures
        0 <= source_slot(slot, face, amount) < 12,
        0 <= flip_delta(slot, face, amount) <= 1,
        valid(moved(edges, face, amount)[slot]),
        home(moved(edges, face, amount)[slot]) == home(edges[source_slot(slot, face, amount)]),
        flip(moved(edges, face, amount)[slot]) == (flip(edges[source_slot(slot, face, amount)])
            + flip_delta(slot, face, amount)) % 2,
{
    lemma_on_cycle(slot, face);
    let k = cycle_index(slot, face);
    lemma_cycle(face, amount, k);
    lemma_flipped_by(edges[source_slot(slot, face, amount)], flip_delta(slot, face, amount));
}

/// A turn leaves twelve edges that are edges.
pub proof fn lemma_moved_valid(edges: Seq<int>, face: Face, amount: Amount)
    requires
        all_valid(edges),
    ensures
        all_valid(moved(edges, face, amount)),
{
    assert forall|slot: int| 0 <= slot < 12 implies valid(
        #[trigger] moved(edges, face, amount)[slot],
    ) by {
        lemma_moved_edge(edges, face, amount, slot);
    }
}

/// Two turns of one face make the turn of both amounts together, and
/// nothing at all if the amounts add up to a full turn.
pub proof fn lemma_compose(edges: Seq<int>, face: Face, first: Amount, second: Amount)
    requires
        all_valid(edges),
    ensures
        (first.code() + second.code()) % 4 == 0 ==> moved(moved(edges, face, first), face, second)
            == edges,
        (first.code() + second.code()) % 4 != 0 ==> moved(moved(edges, face, first), face, second)
            == moved(edges, face, Amount::from_code((first.code() + second.code()) % 4)),
{
    let total = (first.code() + second.code()) % 4;
    let once = moved(edges, face, first);
    let twice = moved(once, face, second);
    let expected = if total == 0 {
        edges
    } else {
        moved(edges, face, Amount::from_code(total))
    };
    assert forall|slot: int| 0 <= slot < 12 implies twice[slot] == expected[slot] by {
        lemma_compose_slot(slot, face, first, second);
        let mid = source_slot(slot, face, second);
        let from = source_slot(mid, face, first);
        let d1 = flip_delta(mid, face, first);
        let d2 = flip_delta(slot, face, second);
        assert(once[mid] == flipped_by(edges[from], d1));
        assert(twice[slot] == flipped_by(once[mid], d2));
        lemma_flipped_twice(edges[from], d1, d2);
        lemma_flipped_by(edges[from], 0);
    }
    assert(twice =~= expected);
}

/// A turn keeps the pieces apart: if no two slots held the same piece, none do after it.
/// It changes the parity of the arrangement if it is a quarter turn, and keeps
/// it if it is a half turn.
pub proof fn lemma_moved_parity(edges: Seq<int>, face: Face, amount: Amount)
    requires
        all_valid(edges),
        distinct_homes(edges),
    ensures
        distinct_homes(moved(edges, face, amount)),
        perm::parity(homes(moved(edges, face, amount))) == (perm::parity(homes(edges))
            + amount.code()) % 2,
{
    let s = homes(edges);
    let t = homes(moved(edges, face, amount));
    let c0 = cycle_slot(face, 0);
    let c1 = cycle_slot(face, 1);
    let c2 = cycle_slot(face, 2);
    let c3 = cycle_slot(face, 3);
    lemma_cycle(face, amount, 0);
    lemma_cycle(face, amount, 1);
    lemma_cycle(face, amount, 2);
    lemma_cycle(face, amount, 3);
    assert forall|slot: int| 0 <= slot < 12 implies t[slot] == s[source_slot(slot, face, amount)]
        && (slot != c0 && slot != c1 && slot != c2 && slot != c3 ==> source_slot(
        slot,
        face,
        amount,
    ) == slot) by {
        lemma_moved_edge(edges, face, amount, slot);
        lemma_on_cycle(slot, face);
    }
    match amount {
        Amount::Single => {
            perm::lemma_cycle4_parity(s, t, c0, c3, c2, c1);
        },
        Amount::Double => {
            perm::lemma_swap2_parity(s, t, c0, c2, c1, c3);
        },
        Amount::Reverse => {
            perm::lemma_cycle4_parity(s, t, c0, c1, c2, c3);
        },
    }
}

/// The sum of the flip bits of four edges.
pub open spec fn flip_sum4(edges: Seq<int>, s0: int, s1: int, s2: int, s3: int) -> int {
    flip(edges[s0]) + flip(edges[s1]) + flip(edges[s2]) + flip(edges[s3])
}

/// The sum of the flip bits of the four edges of a face.
pub open spec fn face_flip_sum(edges: Seq<int>, face: Face) -> int {
    flip_sum4(
        edges,
        cycle_slot(face, 0),
        cycle_slot(face, 1),
        cycle_slot(face, 2),
        cycle_slot(face, 3),
    )
}

/// The sum of the flip bits of the four edges between a face and the opposite one.
pub open spec fn middle_flip_sum(edges: Seq<int>, face: Face) -> int {
    flip_sum4(
        edges,
        middle_slot(face, 0),
        middle_slot(face, 1),
        middle_slot(face, 2),
        middle_slot(face, 3),
    )
}

/// A turn of a face leaves the flips off the face as they are.
proof fn lemma_rest_flips(edges: Seq<int>, face: Face, amount: Amount)
    requires
        all_valid(edges),
    ensures
        face_flip_sum(moved(edges, face, amount), face.opposite()) == face_flip_sum(
            edges,
            face.opposite(),
        ),
        middle_flip_sum(moved(edges, face, amount), face) == middle_flip_sum(edges, face),
{
    let opposite = face.opposite();
    lemma_kept(edges, face, amount, cycle_slot(opposite, 0), 0);
    lemma_kept(edges, face, amount, cycle_slot(opposite, 1), 1);
    lemma_kept(edges, face, amount, cycle_slot(opposite, 2), 2);
    lemma_kept(edges, face, amount, cycle_slot(opposite, 3), 3);
    lemma_kept(edges, face, amount, middle_slot(face, 0), 0);
    lemma_kept(edges, face, amount, middle_slot(face, 1), 1);
    lemma_kept(edges, face, amount, middle_slot(face, 2), 2);
    lemma_kept(edges, face, amount, middle_slot(face, 3), 3);
}

/// A turn of a face leaves a slot off the face as it is.
proof fn lemma_kept(edges: Seq<int>, face: Face, amount: Amount, slot: int, k: int)
    requires
        all_valid(edges),
        0 <= k < 4,
        slot == cycle_slot(face.opposite(), k) || slot == middle_slot(face, k),
    ensures
        0 <= slot < 12,
        moved(edges, face, amount)[slot] == edges[slot],
{
    lemma_cycle(face, amount, k);
    lemma_flipped_by(edges[slot], 0);
}

/// A turn of a face keeps the sum of the flips of that face modulo 2.
proof fn lemma_face_flips(edges: Seq<int>, face: Face, amount: Amount)
    requires
        all_valid(edges),
    ensures
        face_flip_sum(moved(edges, face, amount), face) % 2 == face_flip_sum(edges, face) % 2,
{
    let (c0, c1, c2, c3) = (
        cycle_slot(face, 0),
        cycle_slot(face, 1),
        cycle_slot(face, 2),
        cycle_slot(face, 3),
    );
    lemma_cycle(face, amount, 0);
    lemma_cycle(face, amount, 1);
    lemma_cycle(face, amount, 2);
    lemma_cycle(face, amount, 3);
    lemma_moved_edge(edges, face, amount, c0);
    lemma_moved_edge(edges, face, amount, c1);
    lemma_moved_edge(edges, face, amount, c2);
    lemma_moved_edge(edges, face, amount, c3);
    let (t0, t1, t2, t3) = (
        flip(edges[source_slot(c0, face, amount)]),
        flip(edges[source_slot(c1, face, amount)]),
        flip(edges[source_slot(c2, face, amount)]),
        flip(edges[source_slot(c3, face, amount)]),
    );
    let d = flip_delta(c0, face, amount);
    assert(t0 + t1 + t2 + t3 == face_flip_sum(edges, face)) by {
        match amount {
            Amount::Single => {
                assert(source_slot(c0, face, amount) == c3);
                assert(source_slot(c1, face, amount) == c0);
                assert(source_slot(c2, face, amount) == c1);
                assert(source_slot(c3, face, amount) == c2);
            },
            Amount::Double => {
                assert(source_slot(c0, face, amount) == c2);
                assert(source_slot(c1, face, amount) == c3);
                assert(source_slot(c2, face, amount) == c0);
                assert(source_slot(c3, face, amount) == c1);
            },
            Amount::Reverse => {
                assert(source_slot(c0, face, amount) == c1);
                assert(source_slot(c1, face, amount) == c2);
                assert(source_slot(c2, face, amount) == c3);
                assert(source_slot(c3, face, amount) == c0);
            },
        }
    }
    lemma_sum_mod2(t0, t1, t2, t3, d);
}

/// Adding the same amount to four residues keeps their sum modulo 2.
proof fn lemma_sum_mod2(t0: int, t1: int, t2: int, t3: int, d: int)
    requires
        0 <= d,
        0 <= t0 && 0 <= t1 && 0 <= t2 && 0 <= t3,
    ensures
        ((t0 + d) % 2 + (t1 + d) % 2 + (t2 + d) % 2 + (t3 + d) % 2) % 2 == (t0 + t1 + t2 + t3) % 2,
{
    let (a0, a1, a2, a3) = ((t0 + d) % 2, (t1 + d) % 2, (t2 + d) % 2, (t3 + d) % 2);
    lemma_add_mod2(t0 + d, a1 + a2 + a3);
    lemma_add_mod2(t1 + d, t0 + d + a2 + a3);
    lemma_add_mod2(t2 + d, t0 + d + t1 + d + a3);
    lemma_add_mod2(t3 + d, t0 + d + t1 + d + t2 + d);
    lemma_add_mod2(4 * d, t0 + t1 + t2 + t3);
}

/// A summand may be replaced by its residue modulo 2.
proof fn lemma_add_mod2(x: int, y: int)
    ensures
        (x % 2 + y) % 2 == (x + y) % 2,
{
}

/// A turn keeps the sum of the flip bits modulo 2.
pub proof fn lemma_moved_flip_sum(edges: Seq<int>, face: Face, amount: Amount)
    requires
        all_valid(edges),
    ensures
        flip_sum(moved(edges, face, amount)) % 2 == flip_sum(edges) % 2,
{
    let after = moved(edges, face, amount);
    lemma_rest_flips(edges, face, amount);
    lemma_face_flips(edges, face, amount);
    lemma_flip_sum_by_face(edges, face);
    lemma_flip_sum_by_face(after, face);
    let rest = face_flip_sum(edges, face.opposite()) + middle_flip_sum(edges, face);
    lemma_add_mod2(face_flip_sum(after, face), rest);
    lemma_add_mod2(face_flip_sum(edges, face), rest);
}

/// The sum of the flip bits, taken layer by layer: round a face, round the
/// opposite one, and between them.
proof fn lemma_flip_sum_by_face(edges: Seq<int>, face: Face)
    ensures
        flip_sum(edges) == face_flip_sum(edges, face) + face_flip_sum(edges, face.opposite())
            + middle_flip_sum(edges, face),
{
}

/// Of the twelve slots, one is at turn distance 0 from a given one, six are
/// at distance 1 and five are at distance 2.
pub proof fn lemma_turn_distance_distribution(slot: int)
    requires
        0 <= slot < 12,
    ensures
        count_at_distance(slot, 0) == 1,
        count_at_distance(slot, 1) == 6,
        count_at_distance(slot, 2) == 5,
{
}

/// A turn of the upper or the lower face, and a half turn of any face, bring
/// to a slot of the middle slice a piece from such a slot, and to another
/// slot a piece from another slot.
pub proof fn lemma_slice_kept(slot: int, face: Face, amount: Amount)
    requires
        0 <= slot < 12,
        face.axis() == Axis::Y || amount == Amount::Double,
    ensures
        0 <= source_slot(slot, face, amount) < 12,
        (slot_normal(source_slot(slot, face, amount)) == 1) == (slot_normal(slot) == 1),
{
    lemma_on_cycle(slot, face);
    lemma_cycle(face, amount, cycle_index(slot, face));
}

/// The slot from which a turn brings the piece of a slot is the slot to
/// which the turn back brings the piece of that slot: no two slots get their
/// piece from the same slot.
pub proof fn lemma_source_back(slot: int, face: Face, amount: Amount)
    requires
        0 <= slot < 12,
    ensures
        0 <= source_slot(slot, face, amount) < 12,
        source_slot(source_slot(slot, face, amount), face, amount.reverse()) == slot,
{
    lemma_compose_slot(slot, face, amount.reverse(), amount);
}

/// The arrangement after a turn, made from the arrangement before it by
/// swaps: a quarter turn passes four pieces round, a half turn swaps two pairs.
pub proof fn lemma_moved_homes(edges: Seq<int>, face: Face, amount: Amount)
    requires
        all_valid(edges),
    ensures
        ({
            let s = homes(edges);
            let (c0, c1, c2, c3) = (
                cycle_slot(face, 0),
                cycle_slot(face, 1),
                cycle_slot(face, 2),
                cycle_slot(face, 3),
            );
            &&& 0 <= c0 < 12 && 0 <= c1 < 12 && 0 <= c2 < 12 && 0 <= c3 < 12
            &&& homes(moved(edges, face, amount)) == match amount {
                Amount::Single => perm::swapped(
                    perm::swapped(perm::swapped(s, c0, c3), c3, c2),
                    c2,
                    c1,
                ),
                Amount::Double => perm::swapped(perm::swapped(s, c0, c2), c1, c3),
                Amount::Reverse => perm::swapped(
                    perm::swapped(perm::swapped(s, c0, c1), c1, c2),
                    c2,
                    c3,
                ),
            }
        }),
{
    let s = homes(edges);
    let t = homes(moved(edges, face, amount));
    let c0 = cycle_slot(face, 0);
    let c1 = cycle_slot(face, 1);
    let c2 = cycle_slot(face, 2);
    let c3 = cycle_slot(face, 3);
    lemma_cycle(face, amount, 0);
    lemma_cycle(face, amount, 1);
    lemma_cycle(face, amount, 2);
    lemma_cycle(face, amount, 3);
    assert forall|slot: int| 0 <= slot < 12 implies t[slot] == s[source_slot(slot, face, amount)]
        && (slot != c0 && slot != c1 && slot != c2 && slot != c3 ==> source_slot(
        slot,
        face,
        amount,
    ) == slot) by {
        lemma_moved_edge(edges, face, amount, slot);
        lemma_on_cycle(slot, face);
    }
    match amount {
        Amount::Single => {
            assert(t =~= perm::swapped(perm::swapped(perm::swapped(s, c0, c3), c3, c2), c2, c1));
        },
        Amount::Double => {
            assert(t =~= perm::swapped(perm::swapped(s, c0, c2), c1, c3));
        },
        Amount::Reverse => {
            assert(t =~= perm::swapped(perm::swapped(perm::swapped(s, c0, c1), c1, c2), c2, c3));
        },
    }
}

/// A solved edge shows on each face that it touches the colour of that face.
pub proof fn lemma_solved_sticker(slot: int, face: Face)
    requires
        0 <= slot < 12,
        slot_on_face(slot, face),
    ensures
        spec_sticker(slot, slot, face) == face,
{
}

} // verus!
