//! Directions, axes and three-valued orientations: the byte-sized values
//! that the pieces of every puzzle are packed from.
use vstd::prelude::*;

verus! {

/// One of the two senses along an axis. As a bit, positive is 0 and negative is 1.
#[derive(Debug, Clone, Copy, PartialEq, Eq, Hash, Structural)]
pub enum Direction {
    Positive,
    Negative,
}

impl Direction {
    /// The bit that stands for the direction.
    pub open spec fn code(self) -> int {
        match self {
            Direction::Positive => 0,
            Direction::Negative => 1,
        }
    }

    /// The direction that a value stands for: zero is positive, anything else negative.
    pub open spec fn from_code(code: int) -> Direction {
        if code == 0 {
            Direction::Positive
        } else {
            Direction::Negative
        }
    }

    #[inline(always)]
    pub fn from_bool(value: bool) -> (d: Direction)
        ensures
            d == Direction::from_code(if value { 1int } else { 0int }),
    {
        if value {
            Direction::Negative
        } else {
            Direction::Positive
        }
    }

    #[inline(always)]
    pub fn bool(self) -> (b: bool)
        ensures
            b == (self.code() == 1),
    {
        match self {
            Direction::Positive => false,
            Direction::Negative => true,
        }
    }

    #[inline(always)]
    pub fn u8(self) -> (v: u8)
        ensures
            v as int == self.code(),
    {
        match self {
            Direction::Positive => 0,
            Direction::Negative => 1,
        }
    }

    pub fn is_positive(self) -> (b: bool)
        ensures
            b == (self == Direction::Positive),
    {
        !self.bool()
    }

    pub fn is_negative(self) -> (b: bool)
        ensures
            b == (self == Direction::Negative),
    {
        self.bool()
    }

    /// Maps 0 to positive and everything else to negative.
    ///
    /// Meant for a masked bit that has not been shifted down.
    #[inline(always)]
    pub fn from_u8_any(value: u8) -> (d: Direction)
        ensures
            d == Direction::from_code(value as int),
    {
        Direction::from_bool(value != 0)
    }

    /// The direction held in the lowest bit of `value`.
    pub fn from_u8_mod2(value: u8) -> (d: Direction)
        ensures
            d.code() == value as int % 2,
    {
        Direction::from_bool(value % 2 != 0)
    }

    /// Maps 0 to positive and 1 to negative; no other value is a direction.
    #[inline]
    pub fn from_u8(value: u8) -> (d: Direction)
        requires
            value < 2,
        ensures
            d.code() == value as int,
    {
        Direction::from_bool(value != 0)
    }

    #[inline]
    pub fn flip(self) -> (d: Direction)
        ensures
            d.code() == 1 - self.code(),
    {
        match self {
            Direction::Positive => Direction::Negative,
            Direction::Negative => Direction::Positive,
        }
    }

    /// Exclusive or of the two bits: positive exactly when the directions agree.
    pub fn xor(self, rhs: Direction) -> (d: Direction)
        ensures
            d.code() == (self.code() + rhs.code()) % 2,
    {
        Direction::from_bool(self.bool() != rhs.bool())
    }
}

/// One of the three axes of space, numbered X = 0, Y = 1, Z = 2.
#[derive(Debug, Clone, Copy, PartialEq, Eq, Hash, Structural)]
pub enum Axis {
    X,
    Y,
    Z,
}

impl Axis {
    pub const ALL: [Axis; 3] = [Axis::X, Axis::Y, Axis::Z];

    /// The number of the axis.
    pub open spec fn code(self) -> int {
        match self {
            Axis::X => 0,
            Axis::Y => 1,
            Axis::Z => 2,
        }
    }

    /// The axis with the given number, taken modulo 3.
    pub open spec fn from_code(code: int) -> Axis {
        if code % 3 == 0 {
            Axis::X
        } else if code % 3 == 1 {
            Axis::Y
        } else {
            Axis::Z
        }
    }

    /// The weight of the axis's bit in a packed octant: 1, 2 or 4.
    pub open spec fn weight(self) -> int {
        match self {
            Axis::X => 1,
            Axis::Y => 2,
            Axis::Z => 4,
        }
    }

    #[inline]
    pub fn u8(self) -> (v: u8)
        ensures
            v as int == self.code(),
    {
        match self {
            Axis::X => 0,
            Axis::Y => 1,
            Axis::Z => 2,
        }
    }

    /// The weight of the axis's bit in a packed octant, `1 << self.u8()`.
    #[inline]
    pub fn bit(self) -> (v: u8)
        ensures
            v as int == self.weight(),
    {
        match self {
            Axis::X => 1,
            Axis::Y => 2,
            Axis::Z => 4,
        }
    }

    #[inline]
    pub fn from_u8(value: u8) -> (a: Axis)
        requires
            value < 3,
        ensures
            a.code() == value as int,
    {
        Axis::from_u8_mod3(value)
    }

    #[inline]
    pub fn from_u8_mod3(value: u8) -> (a: Axis)
        ensures
            a == Axis::from_code(value as int),
            a.code() == value as int % 3,
    {
        let r: u8 = value % 3;
        if r == 0 {
            Axis::X
        } else if r == 1 {
            Axis::Y
        } else {
            Axis::Z
        }
    }

    /// The axis numbered by the least non-negative residue of `value` modulo 3.
    #[inline]
    pub fn from_i8_mod3(value: i8) -> (a: Axis)
        ensures
            a == Axis::from_code(value as int),
            a.code() == value as int % 3,
    {
        Axis::from_u8(residue3(value))
    }

    /// The axis after this one, cyclically: X, Y, Z, X.
    #[inline]
    pub fn next(self) -> (a: Axis)
        ensures
            a.code() == (self.code() + 1) % 3,
    {
        Axis::from_u8_mod3(self.u8() + 1)
    }

    /// The axis before this one, cyclically: X, Z, Y, X.
    #[inline]
    pub fn prev(self) -> (a: Axis)
        ensures
            a.code() == (self.code() + 2) % 3,
    {
        Axis::from_u8_mod3(self.u8() + 2)
    }

    /// The axis that is neither `a` nor `b`, which must differ.
    pub fn other(a: Axis, b: Axis) -> (c: Axis)
        requires
            a != b,
        ensures
            c.code() == (2 * a.code() + 3 - b.code()) % 3,
            c != a,
            c != b,
    {
        Axis::from_u8_mod3((2 * a.u8()) + 3 - b.u8())
    }
}

/// The least non-negative residue of `value` modulo 3.
fn residue3(value: i8) -> (r: u8)
    ensures
        r as int == value as int % 3,
        r < 3,
{
    if value >= 0 {
        (value % 3) as u8
    } else {
        // value = -(w + 1) with w >= 0, so value is congruent to 2 - w.
        let w: i8 = -(value + 1);
        2 - (w % 3) as u8
    }
}

/// An orientation with three states: a byte that holds 0, 1 or 2.
#[derive(Debug, Clone, Copy, PartialEq, Eq, Hash, Structural)]
pub struct Orientation3 {
    data: u8,
}

impl Orientation3 {
    /// The orientation of a piece that is not twisted.
    pub fn zero() -> (o: Orientation3)
        ensures
            o.value() == 0,
    {
        Orientation3 { data: 0 }
    }

    /// One clockwise twist.
    pub fn one() -> (o: Orientation3)
        ensures
            o.value() == 1,
    {
        Orientation3 { data: 1 }
    }

    /// Two clockwise twists, or one counterclockwise.
    pub fn two() -> (o: Orientation3)
        ensures
            o.value() == 2,
    {
        Orientation3 { data: 2 }
    }

    /// The number of twists that the orientation stands for.
    pub closed spec fn value(self) -> int {
        self.data as int
    }

    /// Every orientation holds 0, 1 or 2.
    #[verifier::type_invariant]
    pub open spec fn wf(self) -> bool {
        0 <= self.value() < 3
    }

    #[inline]
    pub fn from_u8_mod3(orientation: u8) -> (o: Orientation3)
        ensures
            o.value() == orientation as int % 3,
    {
        Orientation3 { data: orientation % 3 }
    }

    #[inline]
    pub fn from_i8_mod3(orientation: i8) -> (o: Orientation3)
        ensures
            o.value() == orientation as int % 3,
    {
        Orientation3 { data: residue3(orientation) }
    }

    pub fn from_u8(orientation: u8) -> (o: Orientation3)
        requires
            orientation < 3,
        ensures
            o.value() == orientation as int,
    {
        Orientation3 { data: orientation }
    }

    #[inline(always)]
    pub fn u8(self) -> (v: u8)
        ensures
            v as int == self.value(),
            v < 3,
    {
        proof {
            use_type_invariant(&self);
        }
        self.data
    }

    pub fn is_oriented(self) -> (b: bool)
        ensures
            b == (self.value() == 0),
    {
        self.data == 0
    }

    /// The orientation that undoes this one: 0 stays, 1 and 2 trade places.
    pub fn neg(self) -> (o: Orientation3)
        ensures
            o.value() == (3 - self.value()) % 3,
    {
        proof {
            use_type_invariant(&self);
        }
        Orientation3 { data: (3 - self.data) % 3 }
    }

    /// Two orientations with the same number of twists are the same orientation.
    pub proof fn lemma_value_determines(a: Orientation3, b: Orientation3)
        requires
            a.value() == b.value(),
        ensures
            a == b,
    {
    }
}

} // verus!
