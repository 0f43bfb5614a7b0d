//! Well-known algorithms, by name.
#![allow(non_snake_case)]
use crate::cube_n::face::Face;
use crate::cube_n::mov::{Amount, Move};
use vstd::prelude::*;

verus! {

/// The "sexy move": it has order six.
///
/// `R U R' U'`
pub fn SEXY() -> (alg: [Move; 4])
    ensures
        alg[0] == Move::spec_new(Face::R, Amount::Single),
        alg[1] == Move::spec_new(Face::U, Amount::Single),
        alg[2] == Move::spec_new(Face::R, Amount::Reverse),
        alg[3] == Move::spec_new(Face::U, Amount::Reverse),
{
    [
        Move::new(Face::R, Amount::Single),
        Move::new(Face::U, Amount::Single),
        Move::new(Face::R, Amount::Reverse),
        Move::new(Face::U, Amount::Reverse),
    ]
}

/// The sledgehammer.
///
/// `R' F R F'`
pub fn SLEDGEHAMMER() -> (alg: [Move; 4])
    ensures
        alg[0] == Move::spec_new(Face::R, Amount::Reverse),
        alg[1] == Move::spec_new(Face::F, Amount::Single),
        alg[2] == Move::spec_new(Face::R, Amount::Single),
        alg[3] == Move::spec_new(Face::F, Amount::Reverse),
{
    [
        Move::new(Face::R, Amount::Reverse),
        Move::new(Face::F, Amount::Single),
        Move::new(Face::R, Amount::Single),
        Move::new(Face::F, Amount::Reverse),
    ]
}

/// The T permutation: it swaps two corners and two edges of the upper face.
///
/// `R U R' U' R' F R2 U' R' U' R U R' F'`
pub fn T() -> (alg: [Move; 14])
    ensures
        alg[0] == Move::spec_new(Face::R, Amount::Single),
        alg[1] == Move::spec_new(Face::U, Amount::Single),
        alg[2] == Move::spec_new(Face::R, Amount::Reverse),
        alg[3] == Move::spec_new(Face::U, Amount::Reverse),
        alg[4] == Move::spec_new(Face::R, Amount::Reverse),
        alg[5] == Move::spec_new(Face::F, Amount::Single),
        alg[6] == Move::spec_new(Face::R, Amount::Double),
        alg[7] == Move::spec_new(Face::U, Amount::Reverse),
        alg[8] == Move::spec_new(Face::R, Amount::Reverse),
        alg[9] == Move::spec_new(Face::U, Amount::Reverse),
        alg[10] == Move::spec_new(Face::R, Amount::Single),
        alg[11] == Move::spec_new(Face::U, Amount::Single),
        alg[12] == Move::spec_new(Face::R, Amount::Reverse),
        alg[13] == Move::spec_new(Face::F, Amount::Reverse),
{
    [
        Move::new(Face::R, Amount::Single),
        Move::new(Face::U, Amount::Single),
        Move::new(Face::R, Amount::Reverse),
        Move::new(Face::U, Amount::Reverse),
        Move::new(Face::R, Amount::Reverse),
        Move::new(Face::F, Amount::Single),
        Move::new(Face::R, Amount::Double),
        Move::new(Face::U, Amount::Reverse),
        Move::new(Face::R, Amount::Reverse),
        Move::new(Face::U, Amount::Reverse),
        Move::new(Face::R, Amount::Single),
        Move::new(Face::U, Amount::Single),
        Move::new(Face::R, Amount::Reverse),
        Move::new(Face::F, Amount::Reverse),
    ]
}

/// The J permutation.
///
/// `R U R' F R U R' U' R' F' R2 U' R'`
pub fn J() -> (alg: [Move; 13])
    ensures
        alg[0] == Move::spec_new(Face::R, Amount::Single),
        alg[1] == Move::spec_new(Face::U, Amount::Single),
        alg[2] == Move::spec_new(Face::R, Amount::Reverse),
        alg[3] == Move::spec_new(Face::F, Amount::Single),
        alg[4] == Move::spec_new(Face::R, Amount::Single),
        alg[5] == Move::spec_new(Face::U, Amount::Single),
        alg[6] == Move::spec_new(Face::R, Amount::Reverse),
        alg[7] == Move::spec_new(Face::U, Amount::Reverse),
        alg[8] == Move::spec_new(Face::R, Amount::Reverse),
        alg[9] == Move::spec_new(Face::F, Amount::Reverse),
        alg[10] == Move::spec_new(Face::R, Amount::Double),
        alg[11] == Move::spec_new(Face::U, Amount::Reverse),
        alg[12] == Move::spec_new(Face::R, Amount::Reverse),
{
    [
        Move::new(Face::R, Amount::Single),
        Move::new(Face::U, Amount::Single),
        Move::new(Face::R, Amount::Reverse),
        Move::new(Face::F, Amount::Single),
        Move::new(Face::R, Amount::Single),
        Move::new(Face::U, Amount::Single),
        Move::new(Face::R, Amount::Reverse),
        Move::new(Face::U, Amount::Reverse),
        Move::new(Face::R, Amount::Reverse),
        Move::new(Face::F, Amount::Reverse),
        Move::new(Face::R, Amount::Double),
        Move::new(Face::U, Amount::Reverse),
        Move::new(Face::R, Amount::Reverse),
    ]
}

/// The first U permutation: it passes three edges of the upper face round.
///
/// `R2 U' R' U' R U R U R U' R`
pub fn U_A() -> (alg: [Move; 11])
    ensures
        alg[0] == Move::spec_new(Face::R, Amount::Double),
        alg[1] == Move::spec_new(Face::U, Amount::Reverse),
        alg[2] == Move::spec_new(Face::R, Amount::Reverse),
        alg[3] == Move::spec_new(Face::U, Amount::Reverse),
        alg[4] == Move::spec_new(Face::R, Amount::Single),
        alg[5] == Move::spec_new(Face::U, Amount::Single),
        alg[6] == Move::spec_new(Face::R, Amount::Single),
        alg[7] == Move::spec_new(Face::U, Amount::Single),
        alg[8] == Move::spec_new(Face::R, Amount::Single),
        alg[9] == Move::spec_new(Face::U, Amount::Reverse),
        alg[10] == Move::spec_new(Face::R, Amount::Single),
{
    [
        Move::new(Face::R, Amount::Double),
        Move::new(Face::U, Amount::Reverse),
        Move::new(Face::R, Amount::Reverse),
        Move::new(Face::U, Amount::Reverse),
        Move::new(Face::R, Amount::Single),
        Move::new(Face::U, Amount::Single),
        Move::new(Face::R, Amount::Single),
        Move::new(Face::U, Amount::Single),
        Move::new(Face::R, Amount::Single),
        Move::new(Face::U, Amount::Reverse),
        Move::new(Face::R, Amount::Single),
    ]
}

/// The second U permutation, which undoes the first.
///
/// `R' U R' U' R' U' R' U R U R2`
pub fn U_B() -> (alg: [Move; 11])
    ensures
        alg[0] == Move::spec_new(Face::R, Amount::Reverse),
        alg[1] == Move::spec_new(Face::U, Amount::Single),
        alg[2] == Move::spec_new(Face::R, Amount::Reverse),
        alg[3] == Move::spec_new(Face::U, Amount::Reverse),
        alg[4] == Move::spec_new(Face::R, Amount::Reverse),
        alg[5] == Move::spec_new(Face::U, Amount::Reverse),
        alg[6] == Move::spec_new(Face::R, Amount::Reverse),
        alg[7] == Move::spec_new(Face::U, Amount::Single),
        alg[8] == Move::spec_new(Face::R, Amount::Single),
        alg[9] == Move::spec_new(Face::U, Amount::Single),
        alg[10] == Move::spec_new(Face::R, Amount::Double),
{
    [
        Move::new(Face::R, Amount::Reverse),
        Move::new(Face::U, Amount::Single),
        Move::new(Face::R, Amount::Reverse),
        Move::new(Face::U, Amount::Reverse),
        Move::new(Face::R, Amount::Reverse),
        Move::new(Face::U, Amount::Reverse),
        Move::new(Face::R, Amount::Reverse),
        Move::new(Face::U, Amount::Single),
        Move::new(Face::R, Amount::Single),
        Move::new(Face::U, Amount::Single),
        Move::new(Face::R, Amount::Double),
    ]
}

/// The U permutation: the first of the two.
///
/// `R2 U' R' U' R U R U R U' R`
pub fn U() -> (alg: [Move; 11])
    ensures
        alg[0] == Move::spec_new(Face::R, Amount::Double),
        alg[1] == Move::spec_new(Face::U, Amount::Reverse),
        alg[2] == Move::spec_new(Face::R, Amount::Reverse),
        alg[3] == Move::spec_new(Face::U, Amount::Reverse),
        alg[4] == Move::spec_new(Face::R, Amount::Single),
        alg[5] == Move::spec_new(Face::U, Amount::Single),
        alg[6] == Move::spec_new(Face::R, Amount::Single),
        alg[7] == Move::spec_new(Face::U, Amount::Single),
        alg[8] == Move::spec_new(Face::R, Amount::Single),
        alg[9] == Move::spec_new(Face::U, Amount::Reverse),
        alg[10] == Move::spec_new(Face::R, Amount::Single),
{
    [
        Move::new(Face::R, Amount::Double),
        Move::new(Face::U, Amount::Reverse),
        Move::new(Face::R, Amount::Reverse),
        Move::new(Face::U, Amount::Reverse),
        Move::new(Face::R, Amount::Single),
        Move::new(Face::U, Amount::Single),
        Move::new(Face::R, Amount::Single),
        Move::new(Face::U, Amount::Single),
        Move::new(Face::R, Amount::Single),
        Move::new(Face::U, Amount::Reverse),
        Move::new(Face::R, Amount::Single),
    ]
}

/// The checkerboard: a half turn of every face.
///
/// `R2 L2 U2 D2 F2 B2`
pub fn CHECKER() -> (alg: [Move; 6])
    ensures
        alg[0] == Move::spec_new(Face::R, Amount::Double),
        alg[1] == Move::spec_new(Face::L, Amount::Double),
        alg[2] == Move::spec_new(Face::U, Amount::Double),
        alg[3] == Move::spec_new(Face::D, Amount::Double),
        alg[4] == Move::spec_new(Face::F, Amount::Double),
        alg[5] == Move::spec_new(Face::B, Amount::Double),
{
    [
        Move::new(Face::R, Amount::Double),
        Move::new(Face::L, Amount::Double),
        Move::new(Face::U, Amount::Double),
        Move::new(Face::D, Amount::Double),
        Move::new(Face::F, Amount::Double),
        Move::new(Face::B, Amount::Double),
    ]
}

} // verus!
