//! Solutions to a year of daily programming puzzles, together with the two
//! shared utilities they are built on: a dense rectangular / hyper-rectangular
//! array container and a small byte-stream parsing toolkit.
//!
//! Every puzzle module exposes the pure computation (parse the puzzle text,
//! run the algorithm, return the answer); reading input files and printing
//! answers is left to the surrounding binary.

pub mod aoc22d10;
pub mod aoc22d11;
pub mod aoc22d12;
pub mod aoc22d13;
pub mod aoc22d14;
pub mod aoc22d15;
pub mod aoc22d16;
pub mod aoc22d17;
pub mod aoc22d18;
pub mod aoc22d2;
pub mod aoc22d20;
pub mod aoc22d3;
pub mod aoc22d4;
pub mod aoc22d5;
pub mod aoc22d6;
pub mod aoc22d7;
pub mod aoc22d8;
pub mod aoc22d9;
pub mod arr2d;
pub mod arr_nd;
pub mod parse_utils;

pub use arr2d::ArrayError;
