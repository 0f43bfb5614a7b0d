//! The six faces of a cube.
use crate::types::{Axis, Direction};
use vstd::prelude::*;

verus! {

/// A face of the cube, and the colour of the stickers that start on it.
///
/// A face is packed into three bits as `axis | (direction << 2)`. Six of the
/// eight patterns are faces; 3 and 7 are not.
#[derive(Debug, Clone, Copy, PartialEq, Eq, Hash, Structural)]
pub enum Face {
    /// Right
    R,
    /// Up
    U,
    /// Front
    F,
    /// Left
    L,
    /// Down
    D,
    /// Back
    B,
}

impl Face {
    pub const ALL: [Face; 6] = [Face::R, Face::U, Face::F, Face::L, Face::D, Face::B];

    /// The three bits that the face is packed into.
    pub open spec fn code(self) -> int {
        match self {
            Face::R => 0,
            Face::U => 1,
            Face::F => 2,
            Face::L => 4,
            Face::D => 5,
            Face::B => 6,
        }
    }

    /// Whether three bits are the pattern of a face.
    pub open spec fn valid_code(code: int) -> bool {
        0 <= code < 7 && code != 3
    }

    /// The face with the given bit pattern.
    pub open spec fn from_code(code: int) -> Face {
        if code == 0 {
            Face::R
        } else if code == 1 {
            Face::U
        } else if code == 2 {
            Face::F
        } else if code == 4 {
            Face::L
        } else if code == 5 {
            Face::D
        } else {
            Face::B
        }
    }

    /// The face that lies in the given direction along the given axis.
    pub open spec fn spec_new(axis: Axis, direction: Direction) -> Face {
        Face::from_code(axis.code() + 4 * direction.code())
    }

    pub open spec fn spec_axis(self) -> Axis {
        match self {
            Face::R | Face::L => Axis::X,
            Face::U | Face::D => Axis::Y,
            Face::F | Face::B => Axis::Z,
        }
    }

    pub open spec fn spec_direction(self) -> Direction {
        match self {
            Face::R | Face::U | Face::F => Direction::Positive,
            Face::L | Face::D | Face::B => Direction::Negative,
        }
    }

    pub open spec fn spec_opposite(self) -> Face {
        Face::spec_new(self.spec_axis(), Direction::from_code(1 - self.spec_direction().code()))
    }

    /// The face perpendicular to two perpendicular faces that the right-hand
    /// rule gives: its axis is the third one, and its direction is positive
    /// exactly when an even number of these hold: `rhs` does not follow `self`
    /// cyclically, `self` is negative, `rhs` is negative.
    pub open spec fn spec_cross(self, rhs: Face) -> Face {
        let axis = Axis::from_code(2 * self.spec_axis().code() + 3 - rhs.spec_axis().code());
        let against: int = if (self.spec_axis().code() + 1) % 3 == rhs.spec_axis().code() {
            0
        } else {
            1
        };
        let direction = Direction::from_code(
            (against + self.spec_direction().code() + rhs.spec_direction().code()) % 2,
        );
        Face::spec_new(axis, direction)
    }

    pub fn u8(self) -> (v: u8)
        ensures
            v as int == self.code(),
    {
        match self {
            Face::R => 0,
            Face::U => 1,
            Face::F => 2,
            Face::L => 4,
            Face::D => 5,
            Face::B => 6,
        }
    }

    pub fn new(axis: Axis, direction: Direction) -> (face: Face)
        ensures
            face == Face::spec_new(axis, direction),
            face.axis() == axis,
            face.direction() == direction,
    {
        Face::from_u8(axis.u8() + direction.u8() * 4)
    }

    pub fn from_u8(index: u8) -> (face: Face)
        requires
            Face::valid_code(index as int),
        ensures
            face == Face::from_code(index as int),
            face.code() == index as int,
    {
        if index == 0 {
            Face::R
        } else if index == 1 {
            Face::U
        } else if index == 2 {
            Face::F
        } else if index == 4 {
            Face::L
        } else if index == 5 {
            Face::D
        } else {
            Face::B
        }
    }

    #[inline]
    #[verifier::when_used_as_spec(spec_axis)]
    pub fn axis(self) -> (axis: Axis)
        ensures
            axis == self.spec_axis(),
            axis.code() == self.code() % 4,
    {
        Axis::from_u8(self.u8() % 4)
    }

    #[inline]
    #[verifier::when_used_as_spec(spec_direction)]
    pub fn direction(self) -> (direction: Direction)
        ensures
            direction == self.spec_direction(),
            direction.code() == self.code() / 4,
    {
        Direction::from_bool(self.u8() / 4 != 0)
    }

    #[inline]
    #[verifier::when_used_as_spec(spec_opposite)]
    pub fn opposite(self) -> (face: Face)
        ensures
            face == self.spec_opposite(),
            face.axis() == self.axis(),
            face.direction() != self.direction(),
    {
        Face::new(self.axis(), self.direction().flip())
    }

    /// The "cross product" of two perpendicular faces: the face perpendicular
    /// to both that follows the right-hand rule.
    #[verifier::when_used_as_spec(spec_cross)]
    pub fn cross(self, rhs: Face) -> (face: Face)
        requires
            self.axis() != rhs.axis(),
        ensures
            face == self.spec_cross(rhs),
            face.axis() != self.axis(),
            face.axis() != rhs.axis(),
    {
        let axis = Axis::other(self.axis(), rhs.axis());
        let follows = self.axis().next() == rhs.axis();
        let direction = Direction::from_bool(!follows).xor(self.direction()).xor(rhs.direction());
        Face::new(axis, direction)
    }

    /// The six faces, in the order R, U, F, L, D, B.
    pub fn iter() -> (faces: [Face; 6])
        ensures
            faces == Face::ALL,
    {
        Face::ALL
    }

    /// The letter that names the face in move notation.
    pub fn char(self) -> (c: char)
        ensures
            c == self.letter(),
    {
        match self {
            Face::R => 'R',
            Face::U => 'U',
            Face::F => 'F',
            Face::L => 'L',
            Face::D => 'D',
            Face::B => 'B',
        }
    }

    /// The letter that names the face in move notation.
    pub open spec fn letter(self) -> char {
        match self {
            Face::R => 'R',
            Face::U => 'U',
            Face::F => 'F',
            Face::L => 'L',
            Face::D => 'D',
            Face::B => 'B',
        }
    }

    /// A face is made of its axis and its direction, and of nothing else.
    pub proof fn lemma_new_axis_direction(face: Face)
        ensures
            Face::spec_new(face.axis(), face.direction()) == face,
            Face::valid_code(face.code()),
            Face::from_code(face.code()) == face,
    {
    }

    /// The cross product is antisymmetric: swapping the operands gives the opposite face.
    pub proof fn lemma_cross_antisymmetric(a: Face, b: Face)
        requires
            a.axis() != b.axis(),
        ensures
            b.cross(a) == a.cross(b).opposite(),
    {
    }

    /// The cross product with the result gives back the other operand, as for
    /// unit vectors: `b x (a x b) = a`.
    pub proof fn lemma_cross_cycle(a: Face, b: Face)
        requires
            a.axis() != b.axis(),
        ensures
            b.cross(a.cross(b)) == a,
    {
    }
}

} // verus!
