//! The persistent state and its mathematical model.

use vstd::prelude::*;
use crate::action::ACTION_COUNT;
use crate::maze::MAZE_SIZE;

verus! {

/// Number of entries of the Q-table: one per cell and action.
pub const Q_TABLE_SIZE: usize = MAZE_SIZE * MAZE_SIZE * ACTION_COUNT;

/// Length of an account address in bytes.
pub const ADDRESS_BYTES: usize = 20;

/// The persistent state: the token's owner, the Q-table and the seed of the
/// random number generator.
///
/// The table is flat. The value of `action` in cell `(row, col)` is stored at
/// `row * MAZE_SIZE * ACTION_COUNT + col * ACTION_COUNT + action`.
pub struct Contract {
    pub(crate) owner: [u8; ADDRESS_BYTES],
    pub(crate) q_table: [i32; Q_TABLE_SIZE],
    pub(crate) rng_seed: u32,
}

/// The mathematical content of a `Contract`.
pub struct ContractView {
    pub owner: Seq<u8>,
    pub q_table: Seq<i32>,
    pub rng_seed: u32,
}

impl ContractView {
    /// The sequences have the lengths of the arrays they stand for.
    pub open spec fn wf(self) -> bool {
        self.owner.len() == ADDRESS_BYTES && self.q_table.len() == Q_TABLE_SIZE
    }
}

impl View for Contract {
    type V = ContractView;

    open(crate) spec fn view(&self) -> ContractView {
        ContractView { owner: self.owner@, q_table: self.q_table@, rng_seed: self.rng_seed }
    }
}

impl Contract {
    /// The state before anything was minted or learned: no owner, a table of
    /// zeros and seed 0.
    pub fn new() -> (fresh: Contract)
        ensures
            fresh@.wf(),
            fresh@.owner == Seq::new(ADDRESS_BYTES as nat, |i: int| 0u8),
            fresh@.q_table == Seq::new(Q_TABLE_SIZE as nat, |i: int| 0i32),
            fresh@.rng_seed == 0,
    {
        Contract { owner: [0u8; ADDRESS_BYTES], q_table: [0i32; Q_TABLE_SIZE], rng_seed: 0 }
    }

    /// A state made of the given parts.
    pub fn from_parts(owner: [u8; ADDRESS_BYTES], q_table: [i32; Q_TABLE_SIZE], rng_seed: u32) -> (
        state: Contract
    )
        ensures
            state@.wf(),
            state@.owner == owner@,
            state@.q_table == q_table@,
            state@.rng_seed == rng_seed,
    {
        Contract { owner, q_table, rng_seed }
    }

    /// Every state is well formed.
    pub proof fn lemma_wf(&self)
        ensures
            self@.wf(),
    {
    }

    /// The address that `mint` recorded; 20 zero bytes before the first mint.
    pub fn owner(&self) -> (owner: [u8; ADDRESS_BYTES])
        ensures
            owner@ == self@.owner,
    {
        self.owner
    }

    /// The current seed of the random number generator.
    pub fn rng_seed(&self) -> (seed: u32)
        ensures
            seed == self@.rng_seed,
    {
        self.rng_seed
    }

    /// The whole Q-table, in storage order.
    pub fn get_qtable(&self) -> (table: [i32; Q_TABLE_SIZE])
        ensures
            table@ == self@.q_table,
    {
        self.q_table
    }
}

} // verus!
