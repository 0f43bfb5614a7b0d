//! What the moves of every puzzle have in common.
use vstd::prelude::*;

verus! {

/// A move of some puzzle.
pub trait Move {

}

/// A move that another move of the same puzzle undoes.
pub trait InvertibleMove: Move + Sized {
    /// The move that undoes `self`.
    spec fn spec_inverse(&self) -> Self;

    /// The move that undoes `self`.
    fn inverse(&self) -> (inverse: Self)
        ensures
            inverse == self.spec_inverse(),
    ;
}

} // verus!
