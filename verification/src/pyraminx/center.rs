//! The four centres of the Pyraminx: the pieces under the tips.
use crate::pyraminx::mov::CoreMove;
use crate::pyraminx::piece::Vertex;
use crate::types::Orientation3;
use vstd::prelude::*;

verus! {

/// How the four centres are turned.
///
/// Packed into a byte as `RRBBLLUU`: two bits for each vertex, the number of
/// clockwise thirds of a turn that the centre under it is away from solved.
#[derive(Debug, Clone, Copy, PartialEq, Eq, Hash, Structural)]
pub struct Centers {
    data: u8,
}

/// The two bits of the vertex `vertex` in a byte.
pub open spec fn field(data: int, vertex: int) -> int {
    if vertex == 0 {
        data % 4
    } else if vertex == 1 {
        data / 4 % 4
    } else if vertex == 2 {
        data / 16 % 4
    } else {
        data / 64
    }
}

/// The weight of the two bits of a vertex: 4 to the power `vertex`.
pub open spec fn weight(vertex: int) -> int {
    if vertex == 0 {
        1
    } else if vertex == 1 {
        4
    } else if vertex == 2 {
        16
    } else {
        64
    }
}

impl View for Centers {
    type V = Seq<int>;

    /// The orientations of the four centres, in the order of the vertices.
    closed spec fn view(&self) -> Seq<int> {
        Seq::new(4, |vertex: int| field(self.data as int, vertex))
    }
}

impl Centers {
    /// Every centre is turned by 0, 1 or 2 thirds.
    #[verifier::type_invariant]
    pub open spec fn wf(self) -> bool {
        self@.len() == 4 && forall|vertex: int| 0 <= vertex < 4 ==> 0 <= #[trigger] self@[vertex] < 3
    }

    /// What a move makes of the orientations: the centre of the vertex of
    /// the move goes one third on for a single turn and two for a reverse one.
    pub open spec fn moved(centers: Seq<int>, mov: CoreMove) -> Seq<int> {
        centers.update(
            mov.spec_vertex(),
            (centers[mov.spec_vertex()] + mov.spec_amount().code() + 1) % 3,
        )
    }

    /// The centres of the solved puzzle.
    pub fn solved() -> (centers: Centers)
        ensures
            centers@ == Seq::new(4, |vertex: int| 0int),
    {
        let centers = Centers { data: 0 };
        assert(centers@ =~= Seq::new(4, |vertex: int| 0int));
        centers
    }

    /// How far the centre under a vertex is turned: 0 if it is solved, 1 if
    /// it is one clockwise third away from solved, 2 if it is two.
    #[inline(always)]
    pub fn orientation_of(self, vertex: Vertex) -> (orientation: Orientation3)
        ensures
            orientation.value() == self@[vertex@],
            0 <= vertex@ < 4,
    {
        let v = vertex.u8();
        let fields = self.fields();
        Orientation3::from_u8(fields[v as usize])
    }

    /// The two bits of each vertex.
    fn fields(self) -> (fields: [u8; 4])
        ensures
            forall|vertex: int| 0 <= vertex < 4 ==> fields[vertex] as int == self@[vertex],
            forall|vertex: int| 0 <= vertex < 4 ==> fields[vertex] < 3,
            self@.len() == 4,
    {
        proof {
            use_type_invariant(&self);
            assert(0 <= self@[0] < 3 && 0 <= self@[1] < 3 && 0 <= self@[2] < 3 && 0 <= self@[3] < 3);
        }
        [self.data % 4, self.data / 4 % 4, self.data / 16 % 4, self.data / 64]
    }

    /// The centres with the given two bits for each vertex.
    fn pack(fields: [u8; 4]) -> (centers: Centers)
        requires
            forall|vertex: int| 0 <= vertex < 4 ==> fields[vertex] < 3,
        ensures
            centers@ == Seq::new(4, |vertex: int| fields[vertex] as int),
    {
        let centers = Centers { data: fields[0] + fields[1] * 4 + fields[2] * 16 + fields[3] * 64 };
        proof {
            assert(centers@ =~= Seq::new(4, |vertex: int| fields[vertex] as int));
        }
        centers
    }

    /// The centres after a move.
    pub fn mov(self, mov: CoreMove) -> (centers: Centers)
        ensures
            centers@ == Centers::moved(self@, mov),
    {
        let vertex = mov.vertex().u8();
        let delta = mov.amount().u8() + 1;
        let mut fields = self.fields();
        fields[vertex as usize] = (fields[vertex as usize] + delta) % 3;
        let centers = Centers::pack(fields);
        proof {
            assert(centers@ =~= Centers::moved(self@, mov));
        }
        centers
    }
}

} // verus!
