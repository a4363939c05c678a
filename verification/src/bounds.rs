//! Freedom from overflow: the runs on which the 32-bit update never wraps.

use vstd::prelude::*;
use crate::action::ACTION_COUNT;
use crate::maze::{
    goal_position, in_bounds, lemma_layout, maze_cell, reward_at, start_position, Cell,
};
use crate::policy::{greedy_index, lemma_greedy, max_q};
use crate::qtable::{decode_spec, lemma_q_index, q_index};
use crate::state::{ContractView, Q_TABLE_SIZE};
use crate::training::{episode, step_action, step_position, step_state, trained, Rates};
use crate::update::{lemma_update_fits, q_update, q_update_exact, trunc_div, update_fits};

verus! {

/// Every entry of `table` lies between `low` and `high`.
pub open spec fn table_within(table: Seq<i32>, low: int, high: int) -> bool {
    forall|i: int| 0 <= i < table.len() ==> low <= #[trigger] table[i] <= high
}

/// The update of the step taken in `pos` stays in the range of `i32` at
/// every operation.
pub open spec fn step_fits(s: ContractView, pos: (int, int), rates: Rates) -> bool {
    let action = step_action(s, pos, rates.epsilon);
    let next = step_position(s, pos, rates.epsilon);
    update_fits(
        s.q_table[q_index(pos.0, pos.1, action.ordinal())],
        reward_at(next.0, next.1),
        max_q(decode_spec(s.q_table, next.0, next.1)),
        rates.alpha,
        rates.gamma,
    )
}

/// Every step of the episode fits.
pub open spec fn episode_fits(s: ContractView, pos: (int, int), steps: nat, rates: Rates) -> bool
    decreases steps,
{
    steps == 0 || {
        let next = step_position(s, pos, rates.epsilon);
        &&& step_fits(s, pos, rates)
        &&& (maze_cell(next.0, next.1) == Cell::Goal || episode_fits(
            step_state(s, pos, rates),
            next,
            (steps - 1) as nat,
            rates,
        ))
    }
}

/// Every step of every episode fits: the whole run is free of overflow.
pub open spec fn training_fits(s: ContractView, episodes: nat, max_steps: nat, rates: Rates) -> bool
    decreases episodes,
{
    episodes == 0 || {
        &&& episode_fits(s, start_position(), max_steps, rates)
        &&& training_fits(
            episode(s, start_position(), max_steps, rates),
            (episodes - 1) as nat,
            max_steps,
            rates,
        )
    }
}

/// `i` addresses a value of the goal cell.
spec fn goal_entry(i: int) -> bool {
    q_index(goal_position().0, goal_position().1, 0) <= i < q_index(
        goal_position().0,
        goal_position().1,
        ACTION_COUNT as int,
    )
}

/// What holds of a table that began within `bound` of zero, after `steps`
/// steps: a step lowers the least entry by at most 10, no entry rises above
/// `bound + 1000`, and the goal cell is never written.
spec fn table_bounded(table: Seq<i32>, bound: int, steps: int) -> bool {
    &&& table.len() == Q_TABLE_SIZE
    &&& table_within(table, -(bound + 10 * steps), bound + 1000)
    &&& forall|i: int| goal_entry(i) ==> -bound <= #[trigger] table[i] <= bound
}

/// With a learning rate of at most 100 percent the new value lies between
/// the old value and a hundredth of `1000 * reward + gamma * max_next`.
proof fn lemma_exact_between(q: int, reward: int, max_next: int, alpha: int, gamma: int)
    requires
        0 <= alpha <= 100,
    ensures
        ({
            let target = 1000 * reward + gamma * max_next;
            let new = q_update_exact(q, reward, max_next, alpha, gamma);
            &&& 100 * q <= target ==> q <= new && 100 * new <= target
            &&& 100 * q >= target ==> new <= q && 100 * new >= target
        }),
{
    let target = 1000 * reward + gamma * max_next;
    let delta = target - 100 * q;
    let p = alpha * delta;
    if delta >= 0 {
        assert(0 <= p <= 100 * delta) by (nonlinear_arith)
            requires
                p == alpha * delta,
                0 <= alpha <= 100,
                delta >= 0,
        ;
        assert(trunc_div(p, 10000) == p / 10000);
    } else {
        assert(100 * delta <= p <= 0) by (nonlinear_arith)
            requires
                p == alpha * delta,
                0 <= alpha <= 100,
                delta < 0,
        ;
        if p == 0 {
            assert(trunc_div(p, 10000) == 0);
        } else {
            assert(trunc_div(p, 10000) == -((-p) / 10000));
        }
    }
}

/// A discount of at most 100 percent keeps `gamma * m` between `100 * m`
/// and zero.
proof fn lemma_discount(gamma: int, m: int)
    requires
        0 <= gamma <= 100,
    ensures
        m >= 0 ==> 0 <= gamma * m <= 100 * m,
        m <= 0 ==> 100 * m <= gamma * m <= 0,
{
    assert(m >= 0 ==> 0 <= gamma * m <= 100 * m) by (nonlinear_arith)
        requires
            0 <= gamma <= 100,
    ;
    assert(m <= 0 ==> 100 * m <= gamma * m <= 0) by (nonlinear_arith)
        requires
            0 <= gamma <= 100,
    ;
}

/// The arithmetic of one update on bounded inputs: nothing overflows, and
/// the new value respects the bounds of `table_bounded` one step later.
proof fn lemma_update_bounded(
    q: i32,
    reward: i32,
    max_next: i32,
    alpha: u32,
    gamma: u32,
    bound: int,
    steps: int,
)
    requires
        alpha <= 100,
        gamma <= 100,
        bound >= 0,
        steps >= 0,
        2 * bound + 10 * steps <= 212_000,
        -(bound + 10 * steps) <= q <= bound + 1000,
        -(bound + 10 * steps) <= max_next <= bound + 1000,
        reward == -1 || (reward == 100 && -bound <= max_next <= bound),
    ensures
        update_fits(q, reward, max_next, alpha, gamma),
        -(bound + 10 * (steps + 1)) <= q_update(q, reward, max_next, alpha, gamma) <= bound + 1000,
{
    let target = 1000 * reward + gamma * max_next;
    let delta = target - 100 * q;
    lemma_discount(gamma as int, max_next as int);
    lemma_exact_between(q as int, reward as int, max_next as int, alpha as int, gamma as int);
    assert(-21_400_000 <= delta <= 21_400_000);
    assert(-2_140_000_000 <= alpha * delta <= 2_140_000_000) by (nonlinear_arith)
        requires
            0 <= alpha <= 100,
            -21_400_000 <= delta <= 21_400_000,
    ;
    let new = q_update_exact(q as int, reward as int, max_next as int, alpha as int, gamma as int);
    assert(-(bound + 10 * (steps + 1)) <= new <= bound + 1000);
    assert(update_fits(q, reward, max_next, alpha, gamma));
    lemma_update_fits(q, reward, max_next, alpha, gamma);
}

/// The greatest value of a cell is one of the cell's entries.
proof fn lemma_max_is_entry(table: Seq<i32>, row: int, col: int) -> (i: int)
    requires
        table.len() == Q_TABLE_SIZE,
        in_bounds(row, col),
    ensures
        q_index(row, col, 0) <= i < q_index(row, col, ACTION_COUNT as int),
        0 <= i < Q_TABLE_SIZE,
        max_q(decode_spec(table, row, col)) == table[i],
{
    lemma_q_index(row, col, 0);
    let q = decode_spec(table, row, col);
    lemma_greedy(q);
    q_index(row, col, 0) + greedy_index(q)
}

/// One step from a cell that is not the goal keeps the table bounded and
/// does not overflow.
proof fn lemma_step_bounded(s: ContractView, pos: (int, int), rates: Rates, bound: int, steps: int)
    requires
        rates.alpha <= 100,
        rates.gamma <= 100,
        bound >= 0,
        steps >= 0,
        2 * bound + 10 * steps <= 212_000,
        table_bounded(s.q_table, bound, steps),
        in_bounds(pos.0, pos.1),
        maze_cell(pos.0, pos.1) != Cell::Goal,
    ensures
        step_fits(s, pos, rates),
        table_bounded(step_state(s, pos, rates).q_table, bound, steps + 1),
        in_bounds(step_position(s, pos, rates.epsilon).0, step_position(s, pos, rates.epsilon).1),
{
    lemma_layout();
    let action = step_action(s, pos, rates.epsilon);
    let next = step_position(s, pos, rates.epsilon);
    let a = action.ordinal();
    let at = q_index(pos.0, pos.1, a);
    lemma_q_index(pos.0, pos.1, a);
    lemma_q_index(goal_position().0, goal_position().1, 0);
    assert(in_bounds(next.0, next.1));
    let m = lemma_max_is_entry(s.q_table, next.0, next.1);
    let q = s.q_table[at];
    let max_next = s.q_table[m];
    let reward = reward_at(next.0, next.1);
    assert(!goal_entry(at));
    if maze_cell(next.0, next.1) == Cell::Goal {
        assert(next == goal_position());
        assert(goal_entry(m));
    }
    lemma_update_bounded(q, reward, max_next, rates.alpha, rates.gamma, bound, steps);
    let after = step_state(s, pos, rates).q_table;
    assert(after == s.q_table.update(at, q_update(q, reward, max_next, rates.alpha, rates.gamma)));
    assert forall|i: int| 0 <= i < after.len() implies -(bound + 10 * (steps + 1))
        <= #[trigger] after[i] <= bound + 1000 by {
        if i != at {
            assert(after[i] == s.q_table[i]);
        }
    }
    assert forall|i: int| goal_entry(i) implies -bound <= #[trigger] after[i] <= bound by {
        assert(after[i] == s.q_table[i]);
    }
}

/// More steps allow more: the bounds only widen.
proof fn lemma_bounded_later(table: Seq<i32>, bound: int, steps: int, later: int)
    requires
        table_bounded(table, bound, steps),
        steps <= later,
    ensures
        table_bounded(table, bound, later),
{
}

proof fn lemma_episode_bounded(
    s: ContractView,
    pos: (int, int),
    left: nat,
    rates: Rates,
    bound: int,
    steps: int,
)
    requires
        rates.alpha <= 100,
        rates.gamma <= 100,
        bound >= 0,
        steps >= 0,
        2 * bound + 10 * (steps + left) <= 212_000,
        table_bounded(s.q_table, bound, steps),
        in_bounds(pos.0, pos.1),
        maze_cell(pos.0, pos.1) != Cell::Goal,
    ensures
        episode_fits(s, pos, left, rates),
        table_bounded(episode(s, pos, left, rates).q_table, bound, steps + left),
    decreases left,
{
    if left > 0 {
        let next = step_position(s, pos, rates.epsilon);
        let after = step_state(s, pos, rates);
        lemma_step_bounded(s, pos, rates, bound, steps);
        if maze_cell(next.0, next.1) == Cell::Goal {
            lemma_bounded_later(after.q_table, bound, steps + 1, steps + left);
        } else {
            lemma_episode_bounded(after, next, (left - 1) as nat, rates, bound, steps + 1);
        }
    }
}

proof fn lemma_training_bounded_from(
    s: ContractView,
    episodes: nat,
    max_steps: nat,
    rates: Rates,
    bound: int,
    steps: int,
)
    requires
        rates.alpha <= 100,
        rates.gamma <= 100,
        bound >= 0,
        steps >= 0,
        2 * bound + 10 * (steps + episodes * max_steps) <= 212_000,
        table_bounded(s.q_table, bound, steps),
    ensures
        training_fits(s, episodes, max_steps, rates),
        table_bounded(
            trained(s, episodes, max_steps, rates).q_table,
            bound,
            steps + episodes * max_steps,
        ),
    decreases episodes,
{
    if episodes > 0 {
        lemma_layout();
        assert(episodes * max_steps == max_steps + (episodes - 1) * max_steps
            && (episodes - 1) * max_steps >= 0) by (nonlinear_arith)
            requires
                episodes > 0,
                max_steps >= 0,
        ;
        assert(in_bounds(start_position().0, start_position().1));
        lemma_episode_bounded(s, start_position(), max_steps, rates, bound, steps);
        lemma_training_bounded_from(
            episode(s, start_position(), max_steps, rates),
            (episodes - 1) as nat,
            max_steps,
            rates,
            bound,
            steps + max_steps,
        );
    }
}

/// Training with a learning rate and a discount factor of at most 100
/// percent does not overflow while `2 * bound + 10 * steps` stays within
/// 212 000, where `bound` limits the entries of the table at the beginning
/// and `steps` is the number of steps that the run may take at most. In
/// particular no run of 10 000 steps or fewer overflows on a table that
/// begins within 56 000 of zero.
///
/// During such a run every update equals the update in unbounded integers
/// (`training_fits`, `lemma_update_fits`), no entry falls below `-(bound + 10
/// * steps)`, and none rises above `bound + 1000`.
pub proof fn lemma_training_bounded(
    s: ContractView,
    episodes: nat,
    max_steps: nat,
    rates: Rates,
    bound: int,
)
    requires
        s.wf(),
        rates.alpha <= 100,
        rates.gamma <= 100,
        bound >= 0,
        table_within(s.q_table, -bound, bound),
        2 * bound + 10 * (episodes * max_steps) <= 212_000,
    ensures
        training_fits(s, episodes, max_steps, rates),
        table_within(
            trained(s, episodes, max_steps, rates).q_table,
            -(bound + 10 * (episodes * max_steps)),
            bound + 1000,
        ),
{
    assert(table_bounded(s.q_table, bound, 0));
    lemma_training_bounded_from(s, episodes, max_steps, rates, bound, 0);
}

/// A run of at most 10 000 steps on a table whose entries begin within
/// 56 000 of zero, with a learning rate and a discount factor of at most 100
/// percent, never overflows, whatever the seed and the exploration rate.
pub proof fn lemma_ten_thousand_steps_fit(
    s: ContractView,
    episodes: nat,
    max_steps: nat,
    rates: Rates,
)
    requires
        s.wf(),
        rates.alpha <= 100,
        rates.gamma <= 100,
        table_within(s.q_table, -56_000, 56_000),
        episodes * max_steps <= 10_000,
    ensures
        training_fits(s, episodes, max_steps, rates),
        table_within(trained(s, episodes, max_steps, rates).q_table, -156_000, 57_000),
{
    lemma_training_bounded(s, episodes, max_steps, rates, 56_000);
}

} // verus!
