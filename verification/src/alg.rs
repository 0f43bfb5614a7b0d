//! Algorithms: sequences of moves.
use crate::mov::InvertibleMove;
use vstd::prelude::*;

verus! {

/// A sequence of moves, to be made from first to last.
#[derive(Debug, Clone, PartialEq, Eq)]
pub struct Alg<M> {
    pub moves: Vec<M>,
}

/// The inverses of the moves, from the last to the first: the moves that undo `moves`.
pub open spec fn undoing<M: InvertibleMove>(moves: Seq<M>) -> Seq<M> {
    Seq::new(moves.len(), |i: int| moves[moves.len() - 1 - i].spec_inverse())
}

impl<M: InvertibleMove> Alg<M> {
    /// Turns the algorithm into the one that undoes it.
    pub fn reverse(&mut self)
        ensures
            final(self).moves@ == undoing(old(self).moves@),
    {
        let mut undone: Vec<M> = Vec::new();
        let mut i: usize = self.moves.len();
        while i > 0
            invariant
                i <= self.moves.len(),
                self.moves@ == old(self).moves@,
                undone.len() == self.moves.len() - i,
                forall|j: int|
                    0 <= j < undone.len() ==> undone[j] == self.moves[self.moves.len() - 1
                        - j].spec_inverse(),
            decreases i,
        {
            i -= 1;
            undone.push(self.moves[i].inverse());
        }
        proof {
            assert(undone@ =~= undoing(old(self).moves@));
        }
        self.moves = undone;
    }

    /// The algorithm that undoes this one.
    pub fn reversed(self) -> (undone: Alg<M>)
        ensures
            undone.moves@ == undoing(self.moves@),
    {
        let mut undone = self;
        undone.reverse();
        undone
    }
}

impl<M> Alg<M> {
    /// The number of moves.
    pub fn len(&self) -> (n: usize)
        ensures
            n == self.moves@.len(),
    {
        self.moves.len()
    }
}

} // verus!
