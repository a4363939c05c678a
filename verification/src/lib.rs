//! Tabular Q-learning on a fixed 5x5 grid maze, in integer arithmetic only,
//! and the token that shows what was learned.
//!
//! The agent starts in the top left corner and learns, by trial and reward,
//! which of four moves to take in each cell to reach the goal. The learned
//! values live in a flat table of 100 signed 32-bit integers, action values
//! are scaled integers, and the only source of chance is a linear-congruential
//! generator whose seed the caller passes along. Nothing here reads a clock,
//! allocates a table or touches a float: the same table, seed and parameters
//! always give the same result (`training::lemma_training_deterministic`).
//!
//! * `maze`: the layout, validity of positions, moves and rewards.
//! * `action`: the four moves and their ordinals.
//! * `prng`: the generator.
//! * `state`: `Contract`, the persistent state, and its model `ContractView`.
//! * `qtable`: reading and writing the four values of a cell, and the
//!   greedy policy of a table.
//! * `policy`: the epsilon-greedy choice of an action.
//! * `update`: the update rule and its 32-bit arithmetic.
//! * `training`: steps, episodes and whole runs.
//! * `bounds`: the runs that provably do not overflow.
//! * `token`: ownership of the single token and the interfaces it supports.
//! * `base64`, `render`: the picture of the maze and the token's metadata.

pub mod action;
pub mod base64;
pub mod bounds;
pub mod maze;
pub mod policy;
pub mod prng;
pub mod qtable;
pub mod render;
pub mod state;
pub mod token;
pub mod training;
pub mod update;

pub use action::{Action, ACTION_COUNT};
pub use maze::{Cell, MAZE_LAYOUT, MAZE_SIZE};
pub use state::{Contract, ContractView, ADDRESS_BYTES, Q_TABLE_SIZE};
pub use training::Rates;
