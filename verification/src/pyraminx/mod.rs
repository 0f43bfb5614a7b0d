//! The Pyraminx: a tetrahedron whose four vertices turn.
pub mod center;
pub mod edge;
pub mod mov;
pub mod piece;
pub mod puzzle;
pub mod tip;
