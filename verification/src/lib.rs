//! Models of twisty puzzles, and a two-phase solver for the 3x3x3 cube.
pub mod alg;
pub mod arrange;
pub mod cube3;
pub mod cube_n;
pub mod event;
pub mod math;
pub mod mov;
pub mod perm;
pub mod pesto;
pub mod pyraminx;
pub mod scramble;
pub mod types;
