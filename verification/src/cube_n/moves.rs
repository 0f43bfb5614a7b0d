//! The eighteen face turns by name: the letter of the face, then nothing for
//! a clockwise quarter turn, `2` for a half turn, `P` ("prime") for a
//! counterclockwise quarter turn.
#![allow(non_snake_case)]
use crate::cube_n::face::Face;
use crate::cube_n::mov::{Amount, Move};
use vstd::prelude::*;

verus! {

/// The right face, a quarter turn clockwise.
pub fn R() -> (mov: Move)
    ensures
        mov == Move::spec_new(Face::R, Amount::Single),
{
    Move::new(Face::R, Amount::Single)
}

/// The right face, a half turn.
pub fn R2() -> (mov: Move)
    ensures
        mov == Move::spec_new(Face::R, Amount::Double),
{
    Move::new(Face::R, Amount::Double)
}

/// The right face, a quarter turn counterclockwise.
pub fn RP() -> (mov: Move)
    ensures
        mov == Move::spec_new(Face::R, Amount::Reverse),
{
    Move::new(Face::R, Amount::Reverse)
}

/// The upper face, a quarter turn clockwise.
pub fn U() -> (mov: Move)
    ensures
        mov == Move::spec_new(Face::U, Amount::Single),
{
    Move::new(Face::U, Amount::Single)
}

/// The upper face, a half turn.
pub fn U2() -> (mov: Move)
    ensures
        mov == Move::spec_new(Face::U, Amount::Double),
{
    Move::new(Face::U, Amount::Double)
}

/// The upper face, a quarter turn counterclockwise.
pub fn UP() -> (mov: Move)
    ensures
        mov == Move::spec_new(Face::U, Amount::Reverse),
{
    Move::new(Face::U, Amount::Reverse)
}

/// The front face, a quarter turn clockwise.
pub fn F() -> (mov: Move)
    ensures
        mov == Move::spec_new(Face::F, Amount::Single),
{
    Move::new(Face::F, Amount::Single)
}

/// The front face, a half turn.
pub fn F2() -> (mov: Move)
    ensures
        mov == Move::spec_new(Face::F, Amount::Double),
{
    Move::new(Face::F, Amount::Double)
}

/// The front face, a quarter turn counterclockwise.
pub fn FP() -> (mov: Move)
    ensures
        mov == Move::spec_new(Face::F, Amount::Reverse),
{
    Move::new(Face::F, Amount::Reverse)
}

/// The left face, a quarter turn clockwise.
pub fn L() -> (mov: Move)
    ensures
        mov == Move::spec_new(Face::L, Amount::Single),
{
    Move::new(Face::L, Amount::Single)
}

/// The left face, a half turn.
pub fn L2() -> (mov: Move)
    ensures
        mov == Move::spec_new(Face::L, Amount::Double),
{
    Move::new(Face::L, Amount::Double)
}

/// The left face, a quarter turn counterclockwise.
pub fn LP() -> (mov: Move)
    ensures
        mov == Move::spec_new(Face::L, Amount::Reverse),
{
    Move::new(Face::L, Amount::Reverse)
}

/// The lower face, a quarter turn clockwise.
pub fn D() -> (mov: Move)
    ensures
        mov == Move::spec_new(Face::D, Amount::Single),
{
    Move::new(Face::D, Amount::Single)
}

/// The lower face, a half turn.
pub fn D2() -> (mov: Move)
    ensures
        mov == Move::spec_new(Face::D, Amount::Double),
{
    Move::new(Face::D, Amount::Double)
}

/// The lower face, a quarter turn counterclockwise.
pub fn DP() -> (mov: Move)
    ensures
        mov == Move::spec_new(Face::D, Amount::Reverse),
{
    Move::new(Face::D, Amount::Reverse)
}

/// The back face, a quarter turn clockwise.
pub fn B() -> (mov: Move)
    ensures
        mov == Move::spec_new(Face::B, Amount::Single),
{
    Move::new(Face::B, Amount::Single)
}

/// The back face, a half turn.
pub fn B2() -> (mov: Move)
    ensures
        mov == Move::spec_new(Face::B, Amount::Double),
{
    Move::new(Face::B, Amount::Double)
}

/// The back face, a quarter turn counterclockwise.
pub fn BP() -> (mov: Move)
    ensures
        mov == Move::spec_new(Face::B, Amount::Reverse),
{
    Move::new(Face::B, Amount::Reverse)
}

} // verus!
