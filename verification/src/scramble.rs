//! Scrambles for the events of the World Cube Association, and moves drawn at random.
use crate::alg::Alg;
use crate::cube3::algs;
use crate::cube_n::face::Face;
use crate::cube_n::mov::{Amount, Move};
use crate::event::Event;
use crate::cube3::random::random_below;
use rand::rngs::SmallRng;
use vstd::prelude::*;

verus! {

/// A move of any of the puzzles that scrambles are made for.
#[derive(Debug, Clone, Copy, PartialEq, Eq, Hash)]
pub enum DynMove {
    Cube3(Move),
}

impl crate::mov::Move for DynMove {

}

/// A move that can be drawn at random.
pub trait RandomMove: crate::mov::Move + Sized {
    /// A move drawn at random.
    fn random(rng: &mut SmallRng) -> Self;
}

impl RandomMove for Move {
    /// One of the eighteen face turns: the one whose place among them was drawn.
    fn random(rng: &mut SmallRng) -> (mov: Move)
        ensures
            exists|k: int| 0 <= k < 18 && mov == #[trigger] Move::nth(k),
    {
        let all = Move::all();
        let drawn = random_below(rng, 18);
        assert(all[drawn as int] == Move::nth(drawn as int));
        all[drawn]
    }
}

impl<M: RandomMove> Alg<M> {
    /// An algorithm of `len` moves drawn at random.
    pub fn random(len: usize, rng: &mut SmallRng) -> (alg: Alg<M>)
        ensures
            alg.moves.len() == len,
    {
        let mut moves: Vec<M> = Vec::new();
        let mut i: usize = 0;
        while i < len
            invariant
                i <= len,
                moves.len() == i,
            decreases len - i,
        {
            moves.push(M::random(rng));
            i += 1;
        }
        Alg { moves }
    }
}

/// The moves of a scramble for an event.
pub open spec fn scramble_moves(event: Event) -> Seq<DynMove> {
    match event {
        Event::Cube3 => Seq::new(14, |k: int| DynMove::Cube3(t_perm(k))),
        _ => Seq::empty(),
    }
}

/// The `k`-th move of the T permutation.
pub open spec fn t_perm(k: int) -> Move {
    if k == 0 {
        Move::spec_new(Face::R, Amount::Single)
    } else if k == 1 {
        Move::spec_new(Face::U, Amount::Single)
    } else if k == 2 {
        Move::spec_new(Face::R, Amount::Reverse)
    } else if k == 3 {
        Move::spec_new(Face::U, Amount::Reverse)
    } else if k == 4 {
        Move::spec_new(Face::R, Amount::Reverse)
    } else if k == 5 {
        Move::spec_new(Face::F, Amount::Single)
    } else if k == 6 {
        Move::spec_new(Face::R, Amount::Double)
    } else if k == 7 {
        Move::spec_new(Face::U, Amount::Reverse)
    } else if k == 8 {
        Move::spec_new(Face::R, Amount::Reverse)
    } else if k == 9 {
        Move::spec_new(Face::U, Amount::Reverse)
    } else if k == 10 {
        Move::spec_new(Face::R, Amount::Single)
    } else if k == 11 {
        Move::spec_new(Face::U, Amount::Single)
    } else if k == 12 {
        Move::spec_new(Face::R, Amount::Reverse)
    } else {
        Move::spec_new(Face::F, Amount::Reverse)
    }
}

/// A scramble for an event, as the regulations of the World Cube
/// Association ask for.
///
/// So far the 3x3x3 cube is given the T permutation, and the other events nothing.
pub fn gen_scramble(event: Event, rng: &mut SmallRng) -> (scramble: Alg<DynMove>)
    ensures
        scramble.moves@ == scramble_moves(event),
{
    let mut moves: Vec<DynMove> = Vec::new();
    match event {
        Event::Cube3 => {
            let t = algs::T();
            let mut k: usize = 0;
            while k < 14
                invariant
                    k <= 14,
                    moves.len() == k,
                    forall|j: int| 0 <= j < 14 ==> t[j] == t_perm(j),
                    forall|j: int| 0 <= j < k ==> moves[j] == DynMove::Cube3(t_perm(j)),
                decreases 14 - k,
            {
                moves.push(DynMove::Cube3(t[k]));
                k += 1;
            }
            assert(moves@ =~= scramble_moves(event));
        },
        _ => {
            assert(moves@ =~= scramble_moves(event));
        },
    }
    Alg { moves }
}

} // verus!
