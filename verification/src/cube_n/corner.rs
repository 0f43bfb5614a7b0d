//! The eight corners of a cube: where each one sits, how it is twisted, and
//! what a face turn does to them.
//!
//! A slot of the cube and the home of a piece are both octants, packed as
//! `zyx`: bit 0 is the direction along X, bit 1 along Y, bit 2 along Z. In
//! contracts a corner is the integer that its byte holds, and a set of
//! corners is the sequence of those integers, slot by slot.
use crate::cube_n::face::Face;
use crate::cube_n::mov::{Amount, Move};
use crate::perm;
use crate::types::{Axis, Direction, Orientation3};
use vstd::prelude::*;

verus! {

/// The colour of a sticker is the face that it starts on.
pub type Sticker = Face;

/// Whether an integer is the byte of a corner: an octant with a twist of 0, 1 or 2 above it.
pub open spec fn valid(code: int) -> bool {
    0 <= code < 24
}

/// The home octant of the corner with the given byte.
pub open spec fn home(code: int) -> int {
    code % 8
}

/// The twist of the corner with the given byte.
pub open spec fn twist(code: int) -> int {
    code / 8
}

/// The direction bit of an octant along an axis.
pub open spec fn slot_bit(slot: int, axis: Axis) -> int {
    match axis {
        Axis::X => slot % 2,
        Axis::Y => slot / 2 % 2,
        Axis::Z => slot / 4 % 2,
    }
}

/// The exclusive or of the three direction bits of an octant.
pub open spec fn slot_parity(slot: int) -> int {
    (slot_bit(slot, Axis::X) + slot_bit(slot, Axis::Y) + slot_bit(slot, Axis::Z)) % 2
}

/// Whether an octant touches a face.
pub open spec fn slot_on_face(slot: int, face: Face) -> bool {
    slot_bit(slot, face.axis()) == face.direction().code()
}

/// The octant that differs from `slot` along `axis` only.
pub open spec fn flipped(slot: int, axis: Axis) -> int {
    if slot_bit(slot, axis) == 0 {
        slot + axis.weight()
    } else {
        slot - axis.weight()
    }
}

/// The octant that a quarter turn carries to `slot`, where the turn takes the
/// coordinates `(a, b)` to `(b, -a)`: if the two bits agree, `a` changes, else `b`.
pub open spec fn rotated(slot: int, a: Axis, b: Axis) -> int {
    if slot_bit(slot, a) == slot_bit(slot, b) {
        flipped(slot, a)
    } else {
        flipped(slot, b)
    }
}

/// The slot whose piece a turn of `face` by `amount` brings to `slot`.
///
/// A slot off the face keeps its piece. On the face, a half turn brings the
/// piece from the slot diagonally across; a quarter turn rotates the two axes
/// of the face's plane, one way or the other according to the amount as seen
/// from the positive end of the axis.
#[verifier::opaque]
pub open spec fn source_slot(slot: int, face: Face, amount: Amount) -> int {
    if !slot_on_face(slot, face) {
        slot
    } else {
        let next = Axis::from_code(face.axis().code() + 1);
        let prev = Axis::from_code(face.axis().code() + 2);
        match amount.seen_from(face.direction()) {
            Amount::Single => rotated(slot, next, prev),
            Amount::Double => flipped(flipped(slot, next), prev),
            Amount::Reverse => rotated(slot, prev, next),
        }
    }
}

/// The twist that a turn of `face` by `amount` adds to the piece that it
/// brings to `slot`.
///
/// Nothing off the face, about the Y axis (the axis that twists are measured
/// about) or for a half turn. Else 1 or 2: `1 << (p ^ 1 ^ z)` where `p` is
/// the parity of the slot and `z` says whether the axis is Z.
#[verifier::opaque]
pub open spec fn twist_delta(slot: int, face: Face, amount: Amount) -> int {
    if !slot_on_face(slot, face) || face.axis() == Axis::Y || amount == Amount::Double {
        0
    } else if (slot_parity(slot) + 1 + face.axis().code() / 2) % 2 == 0 {
        1
    } else {
        2
    }
}

/// The byte of a corner after `delta` more clockwise twists.
#[verifier::opaque]
pub open spec fn twisted(code: int, delta: int) -> int {
    (code + 8 * delta) % 24
}

/// The corner that is in `slot` after a turn of `face` by `amount`.
pub open spec fn moved_corner(corners: Seq<int>, face: Face, amount: Amount, slot: int) -> int {
    twisted(corners[source_slot(slot, face, amount)], twist_delta(slot, face, amount))
}

/// The corners after a turn of `face` by `amount`.
pub open spec fn moved(corners: Seq<int>, face: Face, amount: Amount) -> Seq<int> {
    Seq::new(8, |slot: int| moved_corner(corners, face, amount, slot))
}

/// Eight corners, each of them the byte of a corner.
pub open spec fn all_valid(corners: Seq<int>) -> bool {
    &&& corners.len() == 8
    &&& forall|slot: int| 0 <= slot < 8 ==> valid(#[trigger] corners[slot])
}

/// What a face adds to the packed octants that touch it: the weight of its
/// axis if its direction is negative.
pub open spec fn face_weight(face: Face) -> int {
    if face.direction() == Direction::Negative {
        face.axis().weight()
    } else {
        0
    }
}

/// The number of coordinates in which two octants differ.
pub open spec fn differing(a: int, b: int) -> int {
    (if slot_bit(a, Axis::X) != slot_bit(b, Axis::X) {
        1int
    } else {
        0int
    }) + (if slot_bit(a, Axis::Y) != slot_bit(b, Axis::Y) {
        1int
    } else {
        0int
    }) + (if slot_bit(a, Axis::Z) != slot_bit(b, Axis::Z) {
        1int
    } else {
        0int
    })
}

/// The least number of face turns that bring a corner from one octant to another.
pub open spec fn turn_distance(a: int, b: int) -> int {
    (differing(a, b) + 1) / 2
}

/// The axis of the sticker that shows on a face of axis `face_axis`, for a
/// piece with byte `code` in `slot`.
///
/// Going round a corner, the three axes follow each other in one order at
/// octants of even parity and in the other at odd ones. So the face is first
/// counted from Y in the order of the slot, the twist of the piece is taken
/// off, and the result is counted from Y in the order of the piece's home.
pub open spec fn sticker_axis(code: int, slot: int, face_axis: Axis) -> Axis {
    let face_index = if slot_parity(slot) == 0 {
        1 - face_axis.code()
    } else {
        face_axis.code() - 1
    };
    let oriented = face_index - twist(code);
    if slot_parity(home(code)) == 0 {
        Axis::from_code(1 - oriented)
    } else {
        Axis::from_code(1 + oriented)
    }
}

/// The sticker that shows on `face` for a piece with byte `code` in `slot`.
pub open spec fn spec_sticker(code: int, slot: int, face: Face) -> Face {
    let axis = sticker_axis(code, slot, face.axis());
    Face::spec_new(axis, Direction::from_code(slot_bit(home(code), axis)))
}

/// A corner piece: its home octant and its twist.
///
/// Packed into a byte as `---oozyx`: the home octant in the three low bits and
/// above it the orientation, the number of clockwise twists that bring a
/// solved corner to this one (equally, of counterclockwise twists that
/// orient it), measured about the Y axis.
#[derive(Debug, Clone, Copy, PartialEq, Eq, Hash, Structural)]
pub struct Corner {
    data: u8,
}

impl View for Corner {
    type V = int;

    /// The byte of the corner.
    closed spec fn view(&self) -> int {
        self.data as int
    }
}

impl Corner {
    pub const ORIENTATION_AXIS: Axis = Axis::Y;

    /// The orientation of every corner is 0, 1 or 2, and the three high bits are clear.
    #[verifier::type_invariant]
    pub open spec fn wf(self) -> bool {
        valid(self@)
    }

    /// The bytes of eight corners, slot by slot.
    pub open spec fn codes(corners: [Corner; 8]) -> Seq<int> {
        Seq::new(8, |slot: int| corners[slot]@)
    }

    /// The eight corners of a solved cube, each in its home.
    pub fn all_solved() -> (corners: [Corner; 8])
        ensures
            Corner::codes(corners) == Seq::new(8, |slot: int| slot),
    {
        let corners = [
            Corner::solved(0),
            Corner::solved(1),
            Corner::solved(2),
            Corner::solved(3),
            Corner::solved(4),
            Corner::solved(5),
            Corner::solved(6),
            Corner::solved(7),
        ];
        assert(Corner::codes(corners) =~= Seq::new(8, |slot: int| slot));
        corners
    }

    /// The direction along X of the piece's home.
    #[inline]
    pub fn x(self) -> (d: Direction)
        ensures
            d.code() == slot_bit(home(self@), Axis::X),
    {
        self.direction_on_axis(Axis::X)
    }

    /// The direction along Y of the piece's home.
    #[inline]
    pub fn y(self) -> (d: Direction)
        ensures
            d.code() == slot_bit(home(self@), Axis::Y),
    {
        self.direction_on_axis(Axis::Y)
    }

    /// The direction along Z of the piece's home.
    #[inline]
    pub fn z(self) -> (d: Direction)
        ensures
            d.code() == slot_bit(home(self@), Axis::Z),
    {
        self.direction_on_axis(Axis::Z)
    }

    /// The number of clockwise twists that bring an oriented corner to this one.
    #[inline]
    pub fn orientation(self) -> (o: Orientation3)
        ensures
            o.value() == twist(self@),
    {
        proof {
            use_type_invariant(&self);
        }
        Orientation3::from_u8(self.data / 8)
    }

    #[inline]
    pub fn is_oriented(&self) -> (b: bool)
        ensures
            b == (twist(self@) == 0),
    {
        self.data / 8 == 0
    }

    #[inline]
    pub fn set_orientation(&mut self, orientation: Orientation3)
        ensures
            final(self)@ == home(old(self)@) + 8 * orientation.value(),
    {
        *self = self.position().with_orientation(orientation);
    }

    #[inline]
    pub fn direction_on_axis(self, axis: Axis) -> (d: Direction)
        ensures
            d.code() == slot_bit(home(self@), axis),
    {
        self.position().direction_on_axis(axis)
    }

    /// The piece whose home is the octant `index`, oriented.
    pub fn solved(index: u8) -> (corner: Corner)
        requires
            index < 8,
        ensures
            corner@ == index as int,
    {
        Corner { data: index }
    }

    /// The three faces that the piece's home touches: the colours of the piece.
    pub fn faces(self) -> (faces: [Face; 3])
        ensures
            faces[0] == Face::spec_new(Axis::X, Direction::from_code(slot_bit(home(self@), Axis::X))),
            faces[1] == Face::spec_new(Axis::Y, Direction::from_code(slot_bit(home(self@), Axis::Y))),
            faces[2] == Face::spec_new(Axis::Z, Direction::from_code(slot_bit(home(self@), Axis::Z))),
    {
        self.position().faces()
    }

    /// Whether the piece's home is on the given face.
    #[inline]
    pub fn on_face(self, face: Face) -> (b: bool)
        ensures
            b == slot_on_face(home(self@), face),
    {
        self.direction_on_axis(face.axis()) == face.direction()
    }

    /// The home of the piece: the place where it is when the cube is solved,
    /// which is what tells the pieces apart.
    #[inline]
    pub fn position(self) -> (position: CornerPosition)
        ensures
            position@ == home(self@),
    {
        CornerPosition { data: self.data % 8 }
    }

    /// The piece after `delta` more clockwise twists.
    fn twisted_by(self, delta: u8) -> (corner: Corner)
        requires
            delta < 3,
        ensures
            corner@ == twisted(self@, delta as int),
    {
        proof {
            use_type_invariant(&self);
            reveal(twisted);
        }
        Corner { data: (self.data + delta * 8) % 24 }
    }

    /// A corner is its home and its twist, and nothing else.
    pub proof fn lemma_view_determines(a: Corner, b: Corner)
        requires
            a@ == b@,
        ensures
            a == b,
    {
    }
}

/// An octant of the cube: a place where a corner can be.
#[derive(Debug, Clone, Copy, PartialEq, Eq, Hash, Structural)]
pub struct CornerPosition {
    data: u8,
}

impl View for CornerPosition {
    type V = int;

    /// The octant, packed as `zyx`.
    closed spec fn view(&self) -> int {
        self.data as int
    }
}

impl CornerPosition {
    /// There are eight octants.
    #[verifier::type_invariant]
    pub open spec fn wf(self) -> bool {
        0 <= self@ < 8
    }

    /// The eight octants in order.
    pub fn all() -> (positions: [CornerPosition; 8])
        ensures
            forall|slot: int| 0 <= slot < 8 ==> positions[slot]@ == slot,
    {
        [
            CornerPosition::from_index(0),
            CornerPosition::from_index(1),
            CornerPosition::from_index(2),
            CornerPosition::from_index(3),
            CornerPosition::from_index(4),
            CornerPosition::from_index(5),
            CornerPosition::from_index(6),
            CornerPosition::from_index(7),
        ]
    }

    #[inline]
    pub fn x(self) -> (d: Direction)
        ensures
            d.code() == slot_bit(self@, Axis::X),
    {
        self.direction_on_axis(Axis::X)
    }

    #[inline]
    pub fn y(self) -> (d: Direction)
        ensures
            d.code() == slot_bit(self@, Axis::Y),
    {
        self.direction_on_axis(Axis::Y)
    }

    #[inline]
    pub fn z(self) -> (d: Direction)
        ensures
            d.code() == slot_bit(self@, Axis::Z),
    {
        self.direction_on_axis(Axis::Z)
    }

    #[inline]
    pub fn direction_on_axis(self, axis: Axis) -> (d: Direction)
        ensures
            d.code() == slot_bit(self@, axis),
    {
        Direction::from_bool(
            match axis {
                Axis::X => self.data % 2 != 0,
                Axis::Y => self.data / 2 % 2 != 0,
                Axis::Z => self.data / 4 % 2 != 0,
            },
        )
    }

    /// The octant that three faces meet in, one face of each axis in any order.
    pub fn from_faces(faces: [Face; 3]) -> (position: CornerPosition)
        requires
            faces[0].axis() != faces[1].axis(),
            faces[1].axis() != faces[2].axis(),
            faces[2].axis() != faces[0].axis(),
        ensures
            slot_on_face(position@, faces[0]),
            slot_on_face(position@, faces[1]),
            slot_on_face(position@, faces[2]),
            position@ == face_weight(faces[0]) + face_weight(faces[1]) + face_weight(faces[2]),
    {
        let mut index: u8 = 0;
        let mut k: usize = 0;
        while k < 3
            invariant
                k <= 3,
                faces[0].axis() != faces[1].axis(),
                faces[1].axis() != faces[2].axis(),
                faces[2].axis() != faces[0].axis(),
                index as int == (if k > 0 {
                    face_weight(faces[0])
                } else {
                    0
                }) + (if k > 1 {
                    face_weight(faces[1])
                } else {
                    0
                }) + (if k > 2 {
                    face_weight(faces[2])
                } else {
                    0
                }),
            decreases 3 - k,
        {
            if faces[k].direction().bool() {
                index += faces[k].axis().bit();
            }
            k += 1;
        }
        CornerPosition { data: index }
    }

    /// The faces that meet in the octant, in the order X, Y, Z.
    pub fn faces(self) -> (faces: [Face; 3])
        ensures
            faces[0] == Face::spec_new(Axis::X, Direction::from_code(slot_bit(self@, Axis::X))),
            faces[1] == Face::spec_new(Axis::Y, Direction::from_code(slot_bit(self@, Axis::Y))),
            faces[2] == Face::spec_new(Axis::Z, Direction::from_code(slot_bit(self@, Axis::Z))),
    {
        [
            Face::new(Axis::X, self.x()),
            Face::new(Axis::Y, self.y()),
            Face::new(Axis::Z, self.z()),
        ]
    }

    pub fn from_index(index: u8) -> (position: CornerPosition)
        requires
            index < 8,
        ensures
            position@ == index as int,
    {
        CornerPosition { data: index }
    }

    /// The piece that is in this octant.
    pub fn pick(self, corners: [Corner; 8]) -> (corner: Corner)
        ensures
            0 <= self@ < 8,
            corner == corners[self@],
    {
        proof {
            use_type_invariant(&self);
        }
        corners[self.data as usize]
    }

    pub fn contains_face(self, face: Face) -> (b: bool)
        ensures
            b == slot_on_face(self@, face),
    {
        self.direction_on_axis(face.axis()) == face.direction()
    }

    /// The exclusive or of the three direction bits, 0 or 1.
    pub fn parity(self) -> (p: u8)
        ensures
            p as int == slot_parity(self@),
    {
        proof {
            use_type_invariant(&self);
        }
        (self.data % 2 + self.data / 2 % 2 + self.data / 4 % 2) % 2
    }

    /// The least number of turns that bring a piece from `self` to `other`.
    ///
    /// Of the eight octants one is at distance 0 (the octant itself), six are
    /// at distance 1 and one is at distance 2 (the opposite octant).
    pub fn turn_distance(self, other: CornerPosition) -> (distance: u8)
        ensures
            distance as int == turn_distance(self@, other@),
    {
        let x: u8 = if self.x() != other.x() {
            1
        } else {
            0
        };
        let y: u8 = if self.y() != other.y() {
            1
        } else {
            0
        };
        let z: u8 = if self.z() != other.z() {
            1
        } else {
            0
        };
        (x + y + z + 1) / 2
    }

    pub fn u8(self) -> (v: u8)
        ensures
            v as int == self@,
            v < 8,
    {
        proof {
            use_type_invariant(&self);
        }
        self.data
    }

    /// The piece whose home is this octant, with the given twist.
    pub fn with_orientation(self, orientation: Orientation3) -> (corner: Corner)
        ensures
            corner@ == self@ + 8 * orientation.value(),
    {
        proof {
            use_type_invariant(&self);
        }
        Corner { data: self.data + orientation.u8() * 8 }
    }

    /// The octant that differs from this one along `axis` only.
    fn flipped(self, axis: Axis) -> (position: CornerPosition)
        ensures
            position@ == flipped(self@, axis),
    {
        proof {
            use_type_invariant(&self);
        }
        if self.direction_on_axis(axis).bool() {
            CornerPosition { data: self.data - axis.bit() }
        } else {
            CornerPosition { data: self.data + axis.bit() }
        }
    }

    /// The octant that a quarter turn taking `(a, b)` to `(b, -a)` carries here.
    fn rotated(self, a: Axis, b: Axis) -> (position: CornerPosition)
        ensures
            position@ == rotated(self@, a, b),
    {
        if self.direction_on_axis(a) == self.direction_on_axis(b) {
            self.flipped(a)
        } else {
            self.flipped(b)
        }
    }

    /// An octant is its three bits, and nothing else.
    pub proof fn lemma_view_determines(a: CornerPosition, b: CornerPosition)
        requires
            a@ == b@,
        ensures
            a == b,
    {
    }
}

/// The colour that shows on `face` of the slot `position` when `corner` is in it.
pub fn sticker(corner: Corner, position: CornerPosition, face: Face) -> (sticker: Sticker)
    ensures
        sticker == spec_sticker(corner@, position@, face),
{
    let axis_offset: i8 = match face.axis() {
        Axis::X => -1,
        Axis::Y => 0,
        Axis::Z => 1,
    };
    let face_index: i8 = if position.parity() == 0 {
        -axis_offset
    } else {
        axis_offset
    };
    let twist: i8 = match corner.orientation().u8() {
        0 => 0,
        1 => 1,
        _ => 2,
    };
    let oriented: i8 = face_index - twist;
    let axis = if corner.position().parity() == 0 {
        Axis::from_i8_mod3(1 - oriented)
    } else {
        Axis::from_i8_mod3(1 + oriented)
    };
    Face::new(axis, corner.direction_on_axis(axis))
}

/// The piece that a move brings to `slot`.
fn moved_piece(corners: &[Corner; 8], mov: Move, slot: u8) -> (corner: Corner)
    requires
        slot < 8,
    ensures
        corner@ == moved_corner(Corner::codes(*corners), mov.face(), mov.amount(), slot as int),
{
    reveal(source_slot);
    reveal(twist_delta);
    let position = CornerPosition::from_index(slot);
    let face = mov.face();
    if !position.contains_face(face) {
        let piece = position.pick(*corners);
        proof {
            use_type_invariant(&piece);
            reveal(twisted);
        }
        return piece;
    }
    let axis = face.axis();
    let source = match mov.amount().seen_from(face.direction()) {
        Amount::Single => position.rotated(axis.next(), axis.prev()),
        Amount::Double => position.flipped(axis.next()).flipped(axis.prev()),
        Amount::Reverse => position.rotated(axis.prev(), axis.next()),
    };
    let piece = source.pick(*corners);
    let delta: u8 = match (axis, mov.amount()) {
        (Axis::Y, _) => 0,
        (_, Amount::Double) => 0,
        (_, _) => {
            if (position.parity() + 1 + axis.u8() / 2) % 2 == 0 {
                1
            } else {
                2
            }
        },
    };
    piece.twisted_by(delta)
}

/// The corners after a move.
pub fn move_pieces(corners: [Corner; 8], mov: Move) -> (out: [Corner; 8])
    ensures
        Corner::codes(out) == moved(Corner::codes(corners), mov.face(), mov.amount()),
{
    let mut out = corners;
    let mut slot: u8 = 0;
    while slot < 8
        invariant
            slot <= 8,
            forall|j: int|
                0 <= j < slot ==> out[j]@ == moved_corner(
                    Corner::codes(corners),
                    mov.face(),
                    mov.amount(),
                    j,
                ),
        decreases 8 - slot,
    {
        out[slot as usize] = moved_piece(&corners, mov, slot);
        slot += 1;
    }
    assert(Corner::codes(out) =~= moved(Corner::codes(corners), mov.face(), mov.amount()));
    out
}

/// The sum of the twists of eight corners.
pub open spec fn twist_sum(corners: Seq<int>) -> int {
    twist(corners[0]) + twist(corners[1]) + twist(corners[2]) + twist(corners[3]) + twist(
        corners[4],
    ) + twist(corners[5]) + twist(corners[6]) + twist(corners[7])
}

/// The homes of the pieces, slot by slot: the arrangement that the corners are in.
pub open spec fn homes(corners: Seq<int>) -> Seq<int> {
    Seq::new(corners.len(), |slot: int| home(corners[slot]))
}

/// No two of the corners are the same piece.
pub open spec fn distinct_homes(corners: Seq<int>) -> bool {
    perm::distinct(homes(corners))
}

/// The four octants of a face, in the order in which a clockwise quarter turn
/// of the face passes a piece along: from the octant `k` to the octant `k + 1`,
/// and from the last to the first.
pub open spec fn cycle_slot(face: Face, k: int) -> int {
    let k = k % 4;
    match face {
        Face::R => if k == 0 { 0 } else if k == 1 { 4 } else if k == 2 { 6 } else { 2 },
        Face::U => if k == 0 { 0 } else if k == 1 { 1 } else if k == 2 { 5 } else { 4 },
        Face::F => if k == 0 { 0 } else if k == 1 { 2 } else if k == 2 { 3 } else { 1 },
        Face::L => if k == 0 { 1 } else if k == 1 { 3 } else if k == 2 { 7 } else { 5 },
        Face::D => if k == 0 { 2 } else if k == 1 { 6 } else if k == 2 { 7 } else { 3 },
        Face::B => if k == 0 { 4 } else if k == 1 { 5 } else if k == 2 { 7 } else { 6 },
    }
}

/// The twist that a quarter turn of `face` adds to the piece that it brings
/// to the octant `k` of the face's cycle: none about the Y axis, else 1 and
/// 2 in turn round the face.
pub open spec fn quarter_twist(face: Face, k: int) -> int {
    if face.axis() == Axis::Y {
        0
    } else if (face == Face::R || face == Face::B) == (k % 2 == 0) {
        2
    } else {
        1
    }
}

/// The number of octants at a given turn distance from `slot`.
pub open spec fn count_at_distance(slot: int, distance: int) -> int {
    at_distance(slot, 0, distance) + at_distance(slot, 1, distance) + at_distance(
        slot,
        2,
        distance,
    ) + at_distance(slot, 3, distance) + at_distance(slot, 4, distance) + at_distance(
        slot,
        5,
        distance,
    ) + at_distance(slot, 6, distance) + at_distance(slot, 7, distance)
}

/// 1 if `other` is at the given turn distance from `slot`, else 0.
pub open spec fn at_distance(slot: int, other: int, distance: int) -> int {
    if turn_distance(slot, other) == distance {
        1
    } else {
        0
    }
}

/// What a turn does, told by the cycle of its face: the piece of the octant
/// `k` of the cycle goes `amount` octants on, with the twist of the place
/// where it arrives if the turn is a quarter turn; the octants of the
/// opposite face keep their pieces untwisted.
pub proof fn lemma_cycle(face: Face, amount: Amount, k: int)
    requires
        0 <= k < 4,
    ensures
        0 <= cycle_slot(face, k) < 8,
        0 <= cycle_slot(face.opposite(), k) < 8,
        source_slot(cycle_slot(face, k), face, amount) == cycle_slot(face, k + 4 - amount.code()),
        twist_delta(cycle_slot(face, k), face, amount) == (if amount == Amount::Double {
            0
        } else {
            quarter_twist(face, k)
        }),
        source_slot(cycle_slot(face.opposite(), k), face, amount) == cycle_slot(face.opposite(), k),
        twist_delta(cycle_slot(face.opposite(), k), face, amount) == 0,
{
    reveal(source_slot);
    reveal(twist_delta);
}

/// The place of an octant in the cycle of a face, or in that of the opposite face.
pub open spec fn cycle_index(slot: int, face: Face) -> int {
    if slot == cycle_slot(face, 0) || slot == cycle_slot(face.opposite(), 0) {
        0
    } else if slot == cycle_slot(face, 1) || slot == cycle_slot(face.opposite(), 1) {
        1
    } else if slot == cycle_slot(face, 2) || slot == cycle_slot(face.opposite(), 2) {
        2
    } else {
        3
    }
}

/// Every octant is on a face or on the opposite one.
pub proof fn lemma_on_cycle(slot: int, face: Face)
    requires
        0 <= slot < 8,
    ensures
        0 <= cycle_index(slot, face) < 4,
        slot == cycle_slot(face, cycle_index(slot, face)) || slot == cycle_slot(
            face.opposite(),
            cycle_index(slot, face),
        ),
{
}

/// What two turns of one face make, slot by slot: the piece comes from where
/// the one turn of both amounts together would bring it, with the same twist.
/// Amounts that add up to a full turn bring every piece back untwisted.
#[verifier::rlimit(100)]
pub proof fn lemma_compose_slot(slot: int, face: Face, first: Amount, second: Amount)
    requires
        0 <= slot < 8,
    ensures
        ({
            let mid = source_slot(slot, face, second);
            let from = source_slot(mid, face, first);
            let delta = twist_delta(mid, face, first) + twist_delta(slot, face, second);
            let total = (first.code() + second.code()) % 4;
            &&& 0 <= mid < 8
            &&& 0 <= from < 8
            &&& 0 <= twist_delta(mid, face, first) <= 2
            &&& 0 <= twist_delta(slot, face, second) <= 2
            &&& total == 0 ==> from == slot && delta % 3 == 0
            &&& total != 0 ==> from == source_slot(slot, face, Amount::from_code(total)) && delta
                % 3 == twist_delta(slot, face, Amount::from_code(total))
        }),
{
    lemma_on_cycle(slot, face);
    let k = cycle_index(slot, face);
    let total = (first.code() + second.code()) % 4;
    lemma_cycle(face, second, k);
    if slot == cycle_slot(face, k) {
        let k2 = (k + 4 - second.code()) % 4;
        lemma_cycle(face, first, k2);
        if total != 0 {
            lemma_cycle(face, Amount::from_code(total), k);
        }
    } else {
        lemma_cycle(face, first, k);
        if total != 0 {
            lemma_cycle(face, Amount::from_code(total), k);
        }
    }
}

/// Twisting a corner keeps its home and adds to its twist modulo 3.
pub proof fn lemma_twisted(code: int, delta: int)
    requires
        valid(code),
        0 <= delta,
    ensures
        valid(twisted(code, delta)),
        home(twisted(code, delta)) == home(code),
        twist(twisted(code, delta)) == (twist(code) + delta) % 3,
        delta == 0 ==> twisted(code, delta) == code,
{
    reveal(twisted);
}

/// Twisting twice is twisting once by the sum, taken modulo 3.
pub proof fn lemma_twisted_twice(code: int, first: int, second: int)
    requires
        valid(code),
        0 <= first <= 2,
        0 <= second <= 2,
    ensures
        twisted(twisted(code, first), second) == twisted(code, (first + second) % 3),
{
    reveal(twisted);
    let once = code + 8 * first;
    assert(once % 24 == if once >= 24 {
        once - 24
    } else {
        once
    });
    let twice = once % 24 + 8 * second;
    assert(twice % 24 == if twice >= 24 {
        twice - 24
    } else {
        twice
    });
    let sum = (first + second) % 3;
    assert(sum == if first + second >= 3 {
        first + second - 3
    } else {
        first + second
    });
    let direct = code + 8 * sum;
    assert(direct % 24 == if direct >= 24 {
        direct - 24
    } else {
        direct
    });
}

/// The corner that a turn brings to a slot is the corner of the slot that it
/// comes from, twisted.
pub proof fn lemma_moved_corner(corners: Seq<int>, face: Face, amount: Amount, slot: int)
    requires
        all_valid(corners),
        0 <= slot < 8,
    ensures
        0 <= source_slot(slot, face, amount) < 8,
        0 <= twist_delta(slot, face, amount) <= 2,
        valid(moved(corners, face, amount)[slot]),
        home(moved(corners, face, amount)[slot]) == home(
            corners[source_slot(slot, face, amount)],
        ),
        twist(moved(corners, face, amount)[slot]) == (twist(
            corners[source_slot(slot, face, amount)],
        ) + twist_delta(slot, face, amount)) % 3,
{
    lemma_on_cycle(slot, face);
    let k = cycle_index(slot, face);
    lemma_cycle(face, amount, k);
    lemma_twisted(corners[source_slot(slot, face, amount)], twist_delta(slot, face, amount));
}

/// A turn leaves eight corners that are corners.
pub proof fn lemma_moved_valid(corners: Seq<int>, face: Face, amount: Amount)
    requires
        all_valid(corners),
    ensures
        all_valid(moved(corners, face, amount)),
{
    assert forall|slot: int| 0 <= slot < 8 implies valid(
        #[trigger] moved(corners, face, amount)[slot],
    ) by {
        lemma_moved_corner(corners, face, amount, slot);
    }
}

/// Two turns of one face make the turn of both amounts together, and
/// nothing at all if the amounts add up to a full turn.
#[verifier::rlimit(100)]
pub proof fn lemma_compose(corners: Seq<int>, face: Face, first: Amount, second: Amount)
    requires
        all_valid(corners),
    ensures
        (first.code() + second.code()) % 4 == 0 ==> moved(moved(corners, face, first), face, second)
            == corners,
        (first.code() + second.code()) % 4 != 0 ==> moved(moved(corners, face, first), face, second)
            == moved(corners, face, Amount::from_code((first.code() + second.code()) % 4)),
{
    let total = (first.code() + second.code()) % 4;
    let once = moved(corners, face, first);
    let twice = moved(once, face, second);
    let expected = if total == 0 {
        corners
    } else {
        moved(corners, face, Amount::from_code(total))
    };
    assert forall|slot: int| 0 <= slot < 8 implies twice[slot] == expected[slot] by {
        lemma_compose_slot(slot, face, first, second);
        let mid = source_slot(slot, face, second);
        let from = source_slot(mid, face, first);
        let d1 = twist_delta(mid, face, first);
        let d2 = twist_delta(slot, face, second);
        assert(once[mid] == twisted(corners[from], d1));
        assert(twice[slot] == twisted(once[mid], d2));
        lemma_twisted_twice(corners[from], d1, d2);
        lemma_twisted(corners[from], 0);
    }
    assert(twice =~= expected);
}

/// A turn keeps the pieces apart: if no two slots held the same piece, none do after it.
/// It changes the parity of the arrangement if it is a quarter turn, and keeps
/// it if it is a half turn.
pub proof fn lemma_moved_parity(corners: Seq<int>, face: Face, amount: Amount)
    requires
        all_valid(corners),
        distinct_homes(corners),
    ensures
        distinct_homes(moved(corners, face, amount)),
        perm::parity(homes(moved(corners, face, amount))) == (perm::parity(homes(corners))
            + amount.code()) % 2,
{
    let s = homes(corners);
    let t = homes(moved(corners, face, amount));
    let c0 = cycle_slot(face, 0);
    let c1 = cycle_slot(face, 1);
    let c2 = cycle_slot(face, 2);
    let c3 = cycle_slot(face, 3);
    lemma_cycle(face, amount, 0);
    lemma_cycle(face, amount, 1);
    lemma_cycle(face, amount, 2);
    lemma_cycle(face, amount, 3);
    assert forall|slot: int| 0 <= slot < 8 implies t[slot] == s[source_slot(slot, face, amount)]
        && (slot != c0 && slot != c1 && slot != c2 && slot != c3 ==> source_slot(
        slot,
        face,
        amount,
    ) == slot) by {
        lemma_moved_corner(corners, face, amount, slot);
        lemma_on_cycle(slot, face);
    }
    match amount {
        Amount::Single => {
            perm::lemma_cycle4_parity(s, t, c0, c3, c2, c1);
        },
        Amount::Double => {
            perm::lemma_swap2_parity(s, t, c0, c2, c1, c3);
        },
        Amount::Reverse => {
            perm::lemma_cycle4_parity(s, t, c0, c1, c2, c3);
        },
    }
}

/// The sum of the twists of the four corners of a face.
pub open spec fn face_twist_sum(corners: Seq<int>, face: Face) -> int {
    twist(corners[cycle_slot(face, 0)]) + twist(corners[cycle_slot(face, 1)]) + twist(
        corners[cycle_slot(face, 2)],
    ) + twist(corners[cycle_slot(face, 3)])
}

/// A turn of a face leaves the twists of the opposite face as they are.
proof fn lemma_rest_twists(corners: Seq<int>, face: Face, amount: Amount)
    requires
        all_valid(corners),
    ensures
        face_twist_sum(moved(corners, face, amount), face.opposite()) == face_twist_sum(
            corners,
            face.opposite(),
        ),
{
    let opposite = face.opposite();
    lemma_cycle(face, amount, 0);
    lemma_cycle(face, amount, 1);
    lemma_cycle(face, amount, 2);
    lemma_cycle(face, amount, 3);
    lemma_moved_corner(corners, face, amount, cycle_slot(opposite, 0));
    lemma_moved_corner(corners, face, amount, cycle_slot(opposite, 1));
    lemma_moved_corner(corners, face, amount, cycle_slot(opposite, 2));
    lemma_moved_corner(corners, face, amount, cycle_slot(opposite, 3));
}

/// A turn of a face keeps the sum of the twists of that face modulo 3.
proof fn lemma_face_twists(corners: Seq<int>, face: Face, amount: Amount)
    requires
        all_valid(corners),
    ensures
        face_twist_sum(moved(corners, face, amount), face) % 3 == face_twist_sum(corners, face)
            % 3,
{
    let (c0, c1, c2, c3) = (
        cycle_slot(face, 0),
        cycle_slot(face, 1),
        cycle_slot(face, 2),
        cycle_slot(face, 3),
    );
    lemma_cycle(face, amount, 0);
    lemma_cycle(face, amount, 1);
    lemma_cycle(face, amount, 2);
    lemma_cycle(face, amount, 3);
    lemma_moved_corner(corners, face, amount, c0);
    lemma_moved_corner(corners, face, amount, c1);
    lemma_moved_corner(corners, face, amount, c2);
    lemma_moved_corner(corners, face, amount, c3);
    let (t0, t1, t2, t3) = (
        twist(corners[source_slot(c0, face, amount)]),
        twist(corners[source_slot(c1, face, amount)]),
        twist(corners[source_slot(c2, face, amount)]),
        twist(corners[source_slot(c3, face, amount)]),
    );
    let (d0, d1, d2, d3) = (
        twist_delta(c0, face, amount),
        twist_delta(c1, face, amount),
        twist_delta(c2, face, amount),
        twist_delta(c3, face, amount),
    );
    assert(t0 + t1 + t2 + t3 == face_twist_sum(corners, face)) by {
        match amount {
            Amount::Single => {
                assert(source_slot(c0, face, amount) == c3);
                assert(source_slot(c1, face, amount) == c0);
                assert(source_slot(c2, face, amount) == c1);
                assert(source_slot(c3, face, amount) == c2);
            },
            Amount::Double => {
                assert(source_slot(c0, face, amount) == c2);
                assert(source_slot(c1, face, amount) == c3);
                assert(source_slot(c2, face, amount) == c0);
                assert(source_slot(c3, face, amount) == c1);
            },
            Amount::Reverse => {
                assert(source_slot(c0, face, amount) == c1);
                assert(source_slot(c1, face, amount) == c2);
                assert(source_slot(c2, face, amount) == c3);
                assert(source_slot(c3, face, amount) == c0);
            },
        }
    }
    assert((d0 + d1 + d2 + d3) % 3 == 0);
    lemma_sum_mod3(t0, t1, t2, t3, d0, d1, d2, d3);
}

/// A turn keeps the sum of the twists modulo 3.
pub proof fn lemma_moved_twist_sum(corners: Seq<int>, face: Face, amount: Amount)
    requires
        all_valid(corners),
    ensures
        twist_sum(moved(corners, face, amount)) % 3 == twist_sum(corners) % 3,
{
    let after = moved(corners, face, amount);
    lemma_rest_twists(corners, face, amount);
    lemma_face_twists(corners, face, amount);
    lemma_twist_sum_by_face(corners, face);
    lemma_twist_sum_by_face(after, face);
    let rest = face_twist_sum(corners, face.opposite());
    lemma_add_mod3(face_twist_sum(after, face), rest);
    lemma_add_mod3(face_twist_sum(corners, face), rest);
}

/// The sum of the twists, taken face by face: first round a face, then
/// round the opposite one.
proof fn lemma_twist_sum_by_face(corners: Seq<int>, face: Face)
    ensures
        twist_sum(corners) == face_twist_sum(corners, face) + face_twist_sum(
            corners,
            face.opposite(),
        ),
{
}

/// Adding to four residues amounts that sum to a multiple of 3 keeps the sum
/// of the residues modulo 3.
proof fn lemma_sum_mod3(t0: int, t1: int, t2: int, t3: int, d0: int, d1: int, d2: int, d3: int)
    requires
        0 <= d0 && 0 <= d1 && 0 <= d2 && 0 <= d3,
        0 <= t0 && 0 <= t1 && 0 <= t2 && 0 <= t3,
        (d0 + d1 + d2 + d3) % 3 == 0,
    ensures
        ((t0 + d0) % 3 + (t1 + d1) % 3 + (t2 + d2) % 3 + (t3 + d3) % 3) % 3 == (t0 + t1 + t2 + t3)
            % 3,
{
    let (a0, a1, a2, a3) = ((t0 + d0) % 3, (t1 + d1) % 3, (t2 + d2) % 3, (t3 + d3) % 3);
    lemma_add_mod3(t0 + d0, a1 + a2 + a3);
    lemma_add_mod3(t1 + d1, t0 + d0 + a2 + a3);
    lemma_add_mod3(t2 + d2, t0 + d0 + t1 + d1 + a3);
    lemma_add_mod3(t3 + d3, t0 + d0 + t1 + d1 + t2 + d2);
    lemma_add_mod3(d0 + d1 + d2 + d3, t0 + t1 + t2 + t3);
}

/// A summand may be replaced by its residue modulo 3.
proof fn lemma_add_mod3(x: int, y: int)
    ensures
        (x % 3 + y) % 3 == (x + y) % 3,
{
}

/// Of the eight octants, one is at turn distance 0 from a given one, six are
/// at distance 1 and one is at distance 2.
pub proof fn lemma_turn_distance_distribution(slot: int)
    requires
        0 <= slot < 8,
    ensures
        count_at_distance(slot, 0) == 1,
        count_at_distance(slot, 1) == 6,
        count_at_distance(slot, 2) == 1,
{
}

/// A solved corner shows on each face that it touches the colour of that face.
pub proof fn lemma_solved_sticker(slot: int, face: Face)
    requires
        0 <= slot < 8,
        slot_on_face(slot, face),
    ensures
        spec_sticker(slot, slot, face) == face,
{
}

} // verus!
