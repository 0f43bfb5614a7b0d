//! The 3x3x3 cube and its solvers.
pub mod algs;
pub mod coord;
pub mod coord_laws;
pub mod coordinate;
pub mod cube;
pub mod fill;
pub mod heuristic_laws;
pub mod kociemba;
pub mod lehmer;
pub mod lehmer_laws;
pub mod placement;
pub mod prune_table;
pub mod radix;
pub mod random;
pub mod search;
pub mod table_laws;
