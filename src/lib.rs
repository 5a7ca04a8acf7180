pub mod circuit;
pub mod codec;
pub mod grid;
pub mod hash;
pub mod params;
pub mod paths;
pub mod snark;
pub mod sudoku;

pub use crate::circuit::{constraint_plan, is_satisfied, Constraint};
pub use crate::codec::{hex_vec, ProofHexed, PubInputs, VkHexed};
pub use crate::grid::{read_grid, write_grid, Grid, GridError};
pub use crate::hash::hash_grid;
pub use crate::params::{mk_poseidon_config, HashParams};
pub use crate::snark::check_proof;
pub use crate::sudoku::{example_2, hash_puzzle, mk_sudoku, PuzSol, Puzzle, Solution, Sudoku};
