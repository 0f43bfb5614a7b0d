//! The moves of the Pyraminx: a turn of a vertex by a third, either way,
//! of the tip alone or of the two layers under the vertex.
use crate::pyraminx::piece::Vertex;
use vstd::prelude::*;

verus! {

/// Which way a vertex is turned.
#[derive(Debug, Clone, Copy, PartialEq, Eq, Hash, Structural)]
pub enum Amount {
    Single,
    Reverse,
}

impl Amount {
    /// The bit that stands for the amount: 0 for single, 1 for reverse.
    pub open spec fn code(self) -> int {
        match self {
            Amount::Single => 0,
            Amount::Reverse => 1,
        }
    }

    #[inline(always)]
    pub fn u8(self) -> (v: u8)
        ensures
            v as int == self.code(),
    {
        match self {
            Amount::Single => 0,
            Amount::Reverse => 1,
        }
    }

    pub fn from_u8(data: u8) -> (amount: Amount)
        requires
            data < 2,
        ensures
            amount.code() == data as int,
    {
        Amount::from_u8_mod2(data)
    }

    pub fn from_u8_mod2(data: u8) -> (amount: Amount)
        ensures
            amount.code() == data as int % 2,
    {
        if data % 2 == 0 {
            Amount::Single
        } else {
            Amount::Reverse
        }
    }
}

/// A turn of the two layers under a vertex.
///
/// Packed into a byte as `-----avv`: the vertex in the two low bits, and
/// above it the amount.
#[derive(Debug, Clone, Copy, PartialEq, Eq, Hash, Structural)]
pub struct CoreMove {
    data: u8,
}

impl View for CoreMove {
    type V = int;

    closed spec fn view(&self) -> int {
        self.data as int
    }
}

impl CoreMove {
    /// Only the three low bits of a move are used.
    #[verifier::type_invariant]
    pub open spec fn wf(self) -> bool {
        0 <= self@ < 8
    }

    pub open spec fn spec_vertex(self) -> int {
        self@ % 4
    }

    pub open spec fn spec_amount(self) -> Amount {
        if self@ / 4 == 0 {
            Amount::Single
        } else {
            Amount::Reverse
        }
    }

    pub fn new(vertex: Vertex, amount: Amount) -> (mov: CoreMove)
        ensures
            mov@ == vertex@ + 4 * amount.code(),
            mov.spec_vertex() == vertex@,
            mov.spec_amount() == amount,
    {
        CoreMove { data: vertex.u8() + amount.u8() * 4 }
    }

    /// The eight moves: the four vertices turned one way, then the other.
    pub fn all() -> (moves: [CoreMove; 8])
        ensures
            moves[0]@ == 3 && moves[1]@ == 0 && moves[2]@ == 1 && moves[3]@ == 2,
            moves[4]@ == 7 && moves[5]@ == 4 && moves[6]@ == 5 && moves[7]@ == 6,
    {
        [
            CoreMove::new(Vertex::R(), Amount::Single),
            CoreMove::new(Vertex::U(), Amount::Single),
            CoreMove::new(Vertex::L(), Amount::Single),
            CoreMove::new(Vertex::B(), Amount::Single),
            CoreMove::new(Vertex::R(), Amount::Reverse),
            CoreMove::new(Vertex::U(), Amount::Reverse),
            CoreMove::new(Vertex::L(), Amount::Reverse),
            CoreMove::new(Vertex::B(), Amount::Reverse),
        ]
    }

    /// A turn is its three bits, and nothing else.
    pub proof fn lemma_view_determines(a: CoreMove, b: CoreMove)
        requires
            a@ == b@,
        ensures
            a == b,
    {
    }

    #[inline(always)]
    pub fn vertex(self) -> (vertex: Vertex)
        ensures
            vertex@ == self.spec_vertex(),
    {
        Vertex::from_u8_mod4(self.data % 4)
    }

    #[inline(always)]
    pub fn amount(self) -> (amount: Amount)
        ensures
            amount == self.spec_amount(),
    {
        proof {
            use_type_invariant(&self);
        }
        Amount::from_u8_mod2(self.data / 4)
    }
}

/// A move of the Pyraminx.
///
/// Packed into a byte as `----tavv`: a [`CoreMove`], and above it the bit
/// that says whether only the tip turns.
#[derive(Debug, Clone, Copy, PartialEq, Eq, Hash, Structural)]
pub struct Move {
    data: u8,
}

impl View for Move {
    type V = int;

    closed spec fn view(&self) -> int {
        self.data as int
    }
}

impl Move {
    /// Only the four low bits of a move are used.
    #[verifier::type_invariant]
    pub open spec fn wf(self) -> bool {
        0 <= self@ < 16
    }

    #[allow(non_snake_case)]
    pub fn R() -> (mov: Move)
        ensures
            mov@ == 3,
    {
        Move::new(Vertex::R(), Amount::Single, false)
    }

    #[allow(non_snake_case)]
    pub fn RP() -> (mov: Move)
        ensures
            mov@ == 7,
    {
        Move::new(Vertex::R(), Amount::Reverse, false)
    }

    #[allow(non_snake_case)]
    pub fn L() -> (mov: Move)
        ensures
            mov@ == 1,
    {
        Move::new(Vertex::L(), Amount::Single, false)
    }

    #[allow(non_snake_case)]
    pub fn LP() -> (mov: Move)
        ensures
            mov@ == 5,
    {
        Move::new(Vertex::L(), Amount::Reverse, false)
    }

    #[allow(non_snake_case)]
    pub fn B() -> (mov: Move)
        ensures
            mov@ == 2,
    {
        Move::new(Vertex::B(), Amount::Single, false)
    }

    #[allow(non_snake_case)]
    pub fn BP() -> (mov: Move)
        ensures
            mov@ == 6,
    {
        Move::new(Vertex::B(), Amount::Reverse, false)
    }

    #[allow(non_snake_case)]
    pub fn U() -> (mov: Move)
        ensures
            mov@ == 0,
    {
        Move::new(Vertex::U(), Amount::Single, false)
    }

    #[allow(non_snake_case)]
    pub fn UP() -> (mov: Move)
        ensures
            mov@ == 4,
    {
        Move::new(Vertex::U(), Amount::Reverse, false)
    }

    pub fn new(vertex: Vertex, amount: Amount, tip: bool) -> (mov: Move)
        ensures
            mov@ == vertex@ + 4 * amount.code() + (if tip {
                8int
            } else {
                0int
            }),
    {
        let tip_bit: u8 = if tip {
            8
        } else {
            0
        };
        Move { data: vertex.u8() + amount.u8() * 4 + tip_bit }
    }

    pub fn is_tip_move(self) -> (tip: bool)
        ensures
            tip == (self@ >= 8),
    {
        self.data >= 8
    }

    /// The turn of the move, whatever it is that turns.
    pub fn core_move(self) -> (mov: CoreMove)
        ensures
            mov@ == self@ % 8,
    {
        CoreMove::new(Vertex::from_u8_mod4(self.data % 4), Amount::from_u8_mod2(self.data / 4 % 2))
    }

    /// The same turn of the tip alone, if this is a turn of two layers, and
    /// of two layers if this is a turn of the tip.
    pub fn toggle_tip(self) -> (mov: Move)
        ensures
            mov@ == (self@ + 8) % 16,
    {
        proof {
            use_type_invariant(&self);
        }
        Move { data: (self.data + 8) % 16 }
    }

    /// The letter of a vertex, capital for a turn of two layers and small
    /// for a turn of the tip alone.
    pub open spec fn letter(vertex: int, tip: bool) -> char {
        if vertex == 0 {
            if tip { 'u' } else { 'U' }
        } else if vertex == 1 {
            if tip { 'l' } else { 'L' }
        } else if vertex == 2 {
            if tip { 'b' } else { 'B' }
        } else {
            if tip { 'r' } else { 'R' }
        }
    }

    /// The letter of the move and its suffix: the letter of the vertex, small
    /// for a turn of the tip, then a space, or `'` for a reverse turn.
    pub fn notation(self) -> (text: (char, char))
        ensures
            text.0 == Move::letter(self@ % 4, self@ >= 8),
            text.1 == (if self@ / 4 % 2 == 0 {
                ' '
            } else {
                '\''
            }),
    {
        proof {
            use_type_invariant(&self);
        }
        let suffix = match self.core_move().amount() {
            Amount::Single => ' ',
            Amount::Reverse => '\'',
        };
        let vertex = self.core_move().vertex().u8();
        let letter = if self.is_tip_move() {
            if vertex == 0 {
                'u'
            } else if vertex == 1 {
                'l'
            } else if vertex == 2 {
                'b'
            } else {
                'r'
            }
        } else {
            if vertex == 0 {
                'U'
            } else if vertex == 1 {
                'L'
            } else if vertex == 2 {
                'B'
            } else {
                'R'
            }
        };
        (letter, suffix)
    }
}

} // verus!
