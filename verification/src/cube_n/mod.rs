//! The pieces and moves that cubes of every size are made of.
pub mod corner;
pub mod edge;
pub mod face;
pub mod mov;
pub mod moves;
pub mod notation;
