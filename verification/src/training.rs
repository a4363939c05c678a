//! The training engine: single steps, episodes and whole runs.

use vstd::prelude::*;
use crate::action::Action;
use crate::maze::{cell_at, in_bounds, maze_cell, reward_at, start_position, transition, Cell};
use crate::policy::{choose_action_spec, max_q};
use crate::qtable::{decode_spec, lemma_encode_update, lemma_q_index, q_index};
use crate::state::{Contract, ContractView};
use crate::update::{q_update, updated_value};

verus! {

/// The three percentages that steer training.
pub struct Rates {
    /// Chance of exploring instead of exploiting.
    pub epsilon: u32,
    /// Learning rate.
    pub alpha: u32,
    /// Discount factor.
    pub gamma: u32,
}

/// The action taken in `pos`.
pub open spec fn step_action(s: ContractView, pos: (int, int), epsilon: u32) -> Action {
    choose_action_spec(decode_spec(s.q_table, pos.0, pos.1), epsilon, s.rng_seed).0
}

/// Where the step taken in `pos` leads.
pub open spec fn step_position(s: ContractView, pos: (int, int), epsilon: u32) -> (int, int) {
    transition(pos.0, pos.1, step_action(s, pos, epsilon))
}

/// The value that the step taken in `pos` writes for its action.
pub open spec fn step_value(s: ContractView, pos: (int, int), rates: Rates) -> i32 {
    let action = step_action(s, pos, rates.epsilon);
    let next = step_position(s, pos, rates.epsilon);
    q_update(
        s.q_table[q_index(pos.0, pos.1, action.ordinal())],
        reward_at(next.0, next.1),
        max_q(decode_spec(s.q_table, next.0, next.1)),
        rates.alpha,
        rates.gamma,
    )
}

/// The state after the step taken in `pos`: one table entry is replaced and
/// the seed has advanced by the draws of the action selection.
pub open spec fn step_state(s: ContractView, pos: (int, int), rates: Rates) -> ContractView {
    let choice = choose_action_spec(decode_spec(s.q_table, pos.0, pos.1), rates.epsilon, s.rng_seed);
    ContractView {
        owner: s.owner,
        q_table: s.q_table.update(
            q_index(pos.0, pos.1, choice.0.ordinal()),
            step_value(s, pos, rates),
        ),
        rng_seed: choice.1,
    }
}

/// The state after an episode that continues in `pos` with `steps` steps
/// left. The episode ends with the step that reaches the goal, or when no
/// step is left.
pub open spec fn episode(s: ContractView, pos: (int, int), steps: nat, rates: Rates) -> ContractView
    decreases steps,
{
    if steps == 0 {
        s
    } else {
        let next = step_position(s, pos, rates.epsilon);
        let after = step_state(s, pos, rates);
        if maze_cell(next.0, next.1) == Cell::Goal {
            after
        } else {
            episode(after, next, (steps - 1) as nat, rates)
        }
    }
}

/// The state after `episodes` episodes of at most `max_steps` steps, each
/// begun in the start cell.
pub open spec fn trained(s: ContractView, episodes: nat, max_steps: nat, rates: Rates) -> ContractView
    decreases episodes,
{
    if episodes == 0 {
        s
    } else {
        trained(
            episode(s, start_position(), max_steps, rates),
            (episodes - 1) as nat,
            max_steps,
            rates,
        )
    }
}

/// Training is a function of the table, the seed and the parameters: two
/// runs that start from the same table and seed end with the same table and
/// seed. The owner plays no part and is carried over.
pub proof fn lemma_training_deterministic(
    a: ContractView,
    b: ContractView,
    episodes: nat,
    max_steps: nat,
    rates: Rates,
)
    requires
        a.q_table == b.q_table,
        a.rng_seed == b.rng_seed,
    ensures
        trained(a, episodes, max_steps, rates).q_table == trained(
            b,
            episodes,
            max_steps,
            rates,
        ).q_table,
        trained(a, episodes, max_steps, rates).rng_seed == trained(
            b,
            episodes,
            max_steps,
            rates,
        ).rng_seed,
        trained(a, episodes, max_steps, rates).owner == a.owner,
    decreases episodes,
{
    if episodes > 0 {
        let a1 = episode(a, start_position(), max_steps, rates);
        let b1 = episode(b, start_position(), max_steps, rates);
        lemma_episode_deterministic(a, b, start_position(), max_steps, rates);
        lemma_training_deterministic(a1, b1, (episodes - 1) as nat, max_steps, rates);
    }
}

proof fn lemma_episode_deterministic(
    a: ContractView,
    b: ContractView,
    pos: (int, int),
    steps: nat,
    rates: Rates,
)
    requires
        a.q_table == b.q_table,
        a.rng_seed == b.rng_seed,
    ensures
        episode(a, pos, steps, rates).q_table == episode(b, pos, steps, rates).q_table,
        episode(a, pos, steps, rates).rng_seed == episode(b, pos, steps, rates).rng_seed,
        episode(a, pos, steps, rates).owner == a.owner,
    decreases steps,
{
    if steps > 0 {
        let next = step_position(a, pos, rates.epsilon);
        lemma_episode_deterministic(
            step_state(a, pos, rates),
            step_state(b, pos, rates),
            next,
            (steps - 1) as nat,
            rates,
        );
    }
}

impl Contract {
    /// One step of an episode from `pos`: selects an action, moves, and
    /// replaces the value of that action in `pos` by its update. Returns the
    /// new position.
    pub fn step(&mut self, pos: (usize, usize), epsilon: u32, alpha: u32, gamma: u32) -> (next: (
        usize,
        usize,
    ))
        requires
            in_bounds(pos.0 as int, pos.1 as int),
        ensures
            (next.0 as int, next.1 as int) == step_position(
                old(self)@,
                (pos.0 as int, pos.1 as int),
                epsilon,
            ),
            in_bounds(next.0 as int, next.1 as int),
            final(self)@ == step_state(
                old(self)@,
                (pos.0 as int, pos.1 as int),
                Rates { epsilon, alpha, gamma },
            ),
    {
        let ghost before = self@;
        let mut current_q = self.decode_q(pos.0, pos.1);
        let (action, new_seed) = Self::choose_action(&current_q, epsilon, self.rng_seed);
        self.rng_seed = new_seed;
        let next_pos = Self::next_state(pos.0, pos.1, action);
        let reward = Self::get_reward(next_pos.0, next_pos.1);
        let next_q = self.decode_q(next_pos.0, next_pos.1);
        let max_next = Self::max_q_value(&next_q);
        let a_index = action.index();
        current_q[a_index] = updated_value(current_q[a_index], reward, max_next, alpha, gamma);
        self.encode_q(pos.0, pos.1, current_q);
        proof {
            lemma_q_index(pos.0 as int, pos.1 as int, a_index as int);
            lemma_encode_update(
                before.q_table,
                pos.0 as int,
                pos.1 as int,
                a_index as int,
                current_q[a_index as int],
            );
            assert(current_q@ =~= decode_spec(before.q_table, pos.0 as int, pos.1 as int).update(
                a_index as int,
                current_q[a_index as int],
            ));
        }
        next_pos
    }

    /// Runs `episodes` episodes of at most `max_steps` steps from the start
    /// cell. An episode ends early with the step that reaches the goal.
    ///
    /// The three rates are percentages. A rate above 100 is not rejected: an
    /// `epsilon` of 100 or more explores at every step, and `alpha` and
    /// `gamma` enter the update with whatever value they have. The update
    /// is computed in wrapping 32-bit arithmetic (`q_update`);
    /// `lemma_training_bounded` gives the runs that are free of overflow.
    ///
    /// The engine never fails. Where the goal cannot be reached, every
    /// episode takes all its steps.
    pub fn train(&mut self, episodes: u32, max_steps: u32, epsilon: u32, alpha: u32, gamma: u32)
        ensures
            final(self)@ == trained(
                old(self)@,
                episodes as nat,
                max_steps as nat,
                Rates { epsilon, alpha, gamma },
            ),
    {
        let ghost rates = Rates { epsilon, alpha, gamma };
        let ghost initial = self@;
        let start = Self::get_start_position();
        let mut e: u32 = 0;
        while e < episodes
            invariant
                e <= episodes,
                rates == (Rates { epsilon, alpha, gamma }),
                (start.0 as int, start.1 as int) == start_position(),
                in_bounds(start.0 as int, start.1 as int),
                trained(self@, (episodes - e) as nat, max_steps as nat, rates) == trained(
                    initial,
                    episodes as nat,
                    max_steps as nat,
                    rates,
                ),
            decreases episodes - e,
        {
            let ghost before = self@;
            let mut pos = start;
            let mut s: u32 = 0;
            while s < max_steps
                invariant_except_break
                    s <= max_steps,
                    in_bounds(pos.0 as int, pos.1 as int),
                    episode(
                        self@,
                        (pos.0 as int, pos.1 as int),
                        (max_steps - s) as nat,
                        rates,
                    ) == episode(before, start_position(), max_steps as nat, rates),
                invariant
                    rates == (Rates { epsilon, alpha, gamma }),
                ensures
                    self@ == episode(before, start_position(), max_steps as nat, rates),
                decreases max_steps - s,
            {
                pos = self.step(pos, epsilon, alpha, gamma);
                s += 1;
                if cell_at(pos.0, pos.1) == Cell::Goal {
                    break ;
                }
            }
            e += 1;
        }
    }
}

} // verus!
