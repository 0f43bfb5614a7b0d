//! Face turns: the eighteen moves of a cube.
use crate::cube_n::face::Face;
use crate::mov::InvertibleMove;
use crate::types::{Axis, Direction};
use vstd::prelude::*;

verus! {

/// How far a face is turned, in clockwise quarter turns.
#[derive(Debug, Clone, Copy, PartialEq, Eq, Hash, Structural)]
pub enum Amount {
    Single,
    Double,
    Reverse,
}

impl Amount {
    pub const ALL: [Amount; 3] = [Amount::Single, Amount::Double, Amount::Reverse];

    /// The number of clockwise quarter turns: 1, 2 or 3.
    pub open spec fn code(self) -> int {
        match self {
            Amount::Single => 1,
            Amount::Double => 2,
            Amount::Reverse => 3,
        }
    }

    /// The amount that is the given number of quarter turns.
    pub open spec fn from_code(code: int) -> Amount {
        if code == 1 {
            Amount::Single
        } else if code == 2 {
            Amount::Double
        } else {
            Amount::Reverse
        }
    }

    pub open spec fn spec_reverse(self) -> Amount {
        Amount::from_code(4 - self.code())
    }

    /// The amount that looks like `self` from the other side of the layer: a
    /// turn clockwise about a face is counterclockwise about the opposite one.
    pub open spec fn spec_seen_from(self, direction: Direction) -> Amount {
        match direction {
            Direction::Positive => self,
            Direction::Negative => self.spec_reverse(),
        }
    }

    #[inline]
    pub fn u8(self) -> (v: u8)
        ensures
            v as int == self.code(),
    {
        match self {
            Amount::Single => 1,
            Amount::Double => 2,
            Amount::Reverse => 3,
        }
    }

    #[inline]
    pub fn from_u8(x: u8) -> (amount: Amount)
        requires
            1 <= x <= 3,
        ensures
            amount.code() == x as int,
    {
        if x == 1 {
            Amount::Single
        } else if x == 2 {
            Amount::Double
        } else {
            Amount::Reverse
        }
    }

    /// The amount that does the opposite of itself.
    #[verifier::when_used_as_spec(spec_reverse)]
    pub fn reverse(self) -> (amount: Amount)
        ensures
            amount == self.spec_reverse(),
            amount.code() == 4 - self.code(),
    {
        match self {
            Amount::Single => Amount::Reverse,
            Amount::Double => Amount::Double,
            Amount::Reverse => Amount::Single,
        }
    }

    /// The same turn as an amount about the positive face of the axis.
    #[verifier::when_used_as_spec(spec_seen_from)]
    pub fn seen_from(self, direction: Direction) -> (amount: Amount)
        ensures
            amount == self.spec_seen_from(direction),
    {
        match direction {
            Direction::Positive => self,
            Direction::Negative => Amount::from_u8(4 - self.u8()),
        }
    }

    /// The three amounts, in the order single, double, reverse.
    pub fn iter() -> (amounts: [Amount; 3])
        ensures
            amounts == Amount::ALL,
    {
        Amount::ALL
    }
}

/// A turn of one face.
///
/// Packed into a byte as `---aafff`: the face in the three low bits, and
/// above it the amount.
#[derive(Debug, Clone, Copy, PartialEq, Eq, Hash, Structural)]
pub struct Move {
    data: u8,
}

impl Move {
    /// The byte that the move is packed into.
    pub closed spec fn code(self) -> int {
        self.data as int
    }

    /// The low bits of every move are a face, and the bits above an amount.
    #[verifier::type_invariant]
    pub open spec fn wf(self) -> bool {
        &&& Face::valid_code(self.code() % 8)
        &&& 1 <= self.code() / 8 <= 3
    }

    /// The turn of `face` by `amount`.
    pub closed spec fn spec_new(face: Face, amount: Amount) -> Move {
        Move { data: (face.code() + 8 * amount.code()) as u8 }
    }

    pub open spec fn spec_face(self) -> Face {
        Face::from_code(self.code() % 8)
    }

    pub open spec fn spec_amount(self) -> Amount {
        Amount::from_code(self.code() / 8)
    }

    pub open spec fn spec_axis(self) -> Axis {
        self.spec_face().spec_axis()
    }

    /// The eighteen moves in order: face by face as `Face::ALL` has them, and
    /// for each face single, double, reverse.
    pub open spec fn nth(k: int) -> Move {
        Move::spec_new(Face::ALL[k / 3], Amount::ALL[k % 3])
    }

    pub fn new(face: Face, amount: Amount) -> (mov: Move)
        ensures
            mov == Move::spec_new(face, amount),
            mov.face() == face,
            mov.amount() == amount,
    {
        Move { data: face.u8() + amount.u8() * 8 }
    }

    #[verifier::when_used_as_spec(spec_face)]
    pub fn face(self) -> (face: Face)
        ensures
            face == self.spec_face(),
    {
        proof {
            use_type_invariant(&self);
        }
        Face::from_u8(self.data % 8)
    }

    #[verifier::when_used_as_spec(spec_amount)]
    pub fn amount(self) -> (amount: Amount)
        ensures
            amount == self.spec_amount(),
    {
        proof {
            use_type_invariant(&self);
        }
        Amount::from_u8(self.data / 8)
    }

    #[verifier::when_used_as_spec(spec_axis)]
    pub fn axis(self) -> (axis: Axis)
        ensures
            axis == self.spec_axis(),
    {
        self.face().axis()
    }

    /// Every move, in the order of [`Move::nth`].
    pub fn iter() -> (moves: [Move; 18])
        ensures
            forall|k: int| 0 <= k < 18 ==> moves[k] == Move::nth(k),
    {
        Move::all()
    }

    /// Every move, in the order of [`Move::nth`].
    pub fn all() -> (moves: [Move; 18])
        ensures
            forall|k: int| 0 <= k < 18 ==> moves[k] == Move::nth(k),
    {
        let moves = [
            Move::new(Face::R, Amount::Single),
            Move::new(Face::R, Amount::Double),
            Move::new(Face::R, Amount::Reverse),
            Move::new(Face::U, Amount::Single),
            Move::new(Face::U, Amount::Double),
            Move::new(Face::U, Amount::Reverse),
            Move::new(Face::F, Amount::Single),
            Move::new(Face::F, Amount::Double),
            Move::new(Face::F, Amount::Reverse),
            Move::new(Face::L, Amount::Single),
            Move::new(Face::L, Amount::Double),
            Move::new(Face::L, Amount::Reverse),
            Move::new(Face::D, Amount::Single),
            Move::new(Face::D, Amount::Double),
            Move::new(Face::D, Amount::Reverse),
            Move::new(Face::B, Amount::Single),
            Move::new(Face::B, Amount::Double),
            Move::new(Face::B, Amount::Reverse),
        ];
        assert forall|k: int| 0 <= k < 18 implies moves[k] == Move::nth(k) by {
            assert(Face::ALL[k / 3] == Face::ALL@[k / 3]);
            assert(Amount::ALL[k % 3] == Amount::ALL@[k % 3]);
        }
        moves
    }

    /// The text of the move: the letter of its face, then a space for a
    /// single turn, `2` for a double one and `'` for a reverse one.
    pub fn notation(self) -> (text: (char, char))
        ensures
            text.0 == self.face().letter(),
            text.1 == Move::suffix(self.amount()),
    {
        let suffix = match self.amount() {
            Amount::Single => ' ',
            Amount::Double => '2',
            Amount::Reverse => '\'',
        };
        (self.face().char(), suffix)
    }

    /// The character that stands for an amount in move notation.
    pub open spec fn suffix(amount: Amount) -> char {
        match amount {
            Amount::Single => ' ',
            Amount::Double => '2',
            Amount::Reverse => '\'',
        }
    }

    /// The face that a letter of move notation names, if it names one.
    pub open spec fn face_named(letter: char) -> Option<Face> {
        if letter == 'R' {
            Some(Face::R)
        } else if letter == 'U' {
            Some(Face::U)
        } else if letter == 'F' {
            Some(Face::F)
        } else if letter == 'L' {
            Some(Face::L)
        } else if letter == 'D' {
            Some(Face::D)
        } else if letter == 'B' {
            Some(Face::B)
        } else {
            None
        }
    }

    /// The amount that a suffix of move notation names, if it names one:
    /// nothing or a space for a single turn, `2` for a double one and `'`
    /// for a reverse one.
    pub open spec fn amount_named(suffix: Option<char>) -> Option<Amount> {
        match suffix {
            None => Some(Amount::Single),
            Some(c) => if c == ' ' {
                Some(Amount::Single)
            } else if c == '2' {
                Some(Amount::Double)
            } else if c == '\'' {
                Some(Amount::Reverse)
            } else {
                None
            },
        }
    }

    /// The move that a face letter and a suffix name, if they name one.
    pub fn parse(letter: char, suffix: Option<char>) -> (mov: Option<Move>)
        ensures
            mov == match (Move::face_named(letter), Move::amount_named(suffix)) {
                (Some(face), Some(amount)) => Some(Move::spec_new(face, amount)),
                _ => None,
            },
    {
        let face = if letter == 'R' {
            Face::R
        } else if letter == 'U' {
            Face::U
        } else if letter == 'F' {
            Face::F
        } else if letter == 'L' {
            Face::L
        } else if letter == 'D' {
            Face::D
        } else if letter == 'B' {
            Face::B
        } else {
            return None;
        };
        let amount = match suffix {
            None => Amount::Single,
            Some(c) => {
                if c == ' ' {
                    Amount::Single
                } else if c == '2' {
                    Amount::Double
                } else if c == '\'' {
                    Amount::Reverse
                } else {
                    return None;
                }
            },
        };
        Some(Move::new(face, amount))
    }

    /// Reading back the notation of a move gives the move.
    pub proof fn lemma_notation_parses(mov: Move)
        requires
            mov.wf(),
        ensures
            Move::face_named(mov.face().letter()) == Some(mov.face()),
            Move::amount_named(Some(Move::suffix(mov.amount()))) == Some(mov.amount()),
    {
    }

    /// A move is made of its face and its amount, and of nothing else.
    pub proof fn lemma_parts(face: Face, amount: Amount)
        ensures
            Move::spec_new(face, amount).wf(),
            Move::spec_new(face, amount).face() == face,
            Move::spec_new(face, amount).amount() == amount,
    {
    }

    /// Two moves of the same face by the same amount are the same move.
    pub proof fn lemma_determined(mov: Move)
        requires
            mov.wf(),
        ensures
            mov == Move::spec_new(mov.face(), mov.amount()),
    {
    }

    /// Undoing a move twice is doing it.
    pub proof fn lemma_inverse_involution(mov: Move)
        requires
            mov.wf(),
        ensures
            mov.spec_inverse().wf(),
            mov.spec_inverse().spec_inverse() == mov,
    {
        Move::lemma_parts(mov.face(), mov.amount().reverse());
        Move::lemma_determined(mov);
    }
}

impl crate::mov::Move for Move {

}

impl InvertibleMove for Move {
    /// The same face, turned back by the same amount.
    open spec fn spec_inverse(&self) -> Move {
        Move::spec_new(self.spec_face(), self.spec_amount().spec_reverse())
    }

    fn inverse(&self) -> (inverse: Move) {
        Move::new(self.face(), self.amount().reverse())
    }
}

} // verus!
