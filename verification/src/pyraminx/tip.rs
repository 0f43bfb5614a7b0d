//! The four tips of the Pyraminx.
use crate::pyraminx::center::Centers;
use crate::pyraminx::mov::CoreMove;
use crate::pyraminx::piece::Vertex;
use crate::types::Orientation3;
use vstd::prelude::*;

verus! {

/// How the four tips are turned. A tip turns as a centre does, and is kept as one.
#[derive(Debug, Clone, Copy, PartialEq, Eq, Hash)]
pub struct Tips(pub Centers);

impl View for Tips {
    type V = Seq<int>;

    open spec fn view(&self) -> Seq<int> {
        self.0@
    }
}

impl Tips {
    /// The tips of the solved puzzle.
    pub fn solved() -> (tips: Tips)
        ensures
            tips@ == Seq::new(4, |vertex: int| 0int),
    {
        Tips(Centers::solved())
    }

    /// How far the tip of a vertex is turned.
    #[inline(always)]
    pub fn orientation_of(self, vertex: Vertex) -> (orientation: Orientation3)
        ensures
            orientation.value() == self@[vertex@],
    {
        self.0.orientation_of(vertex)
    }

    /// The tips after a move.
    #[inline(always)]
    pub fn mov(self, mov: CoreMove) -> (tips: Tips)
        ensures
            tips@ == Centers::moved(self@, mov),
    {
        Tips(self.0.mov(mov))
    }

    #[inline(always)]
    pub fn as_centers(self) -> (centers: Centers)
        ensures
            centers@ == self@,
    {
        self.0
    }
}

} // verus!
