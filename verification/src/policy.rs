//! The epsilon-greedy choice of an action.

use vstd::prelude::*;
use crate::action::{action_of, Action, ACTION_COUNT};
use crate::prng::{draw, next_seed};
use crate::state::Contract;

verus! {

/// `i` is the greedy choice among `q`: the first index that holds the
/// greatest value.
pub open spec fn is_greedy(q: Seq<i32>, i: int) -> bool {
    &&& 0 <= i < q.len()
    &&& forall|j: int| 0 <= j < q.len() ==> q[j] <= q[i]
    &&& forall|j: int| 0 <= j < i ==> q[j] < q[i]
}

/// The greedy choice among `q` (see `lemma_greedy` for existence and
/// `lemma_greedy_unique` for uniqueness).
pub open spec fn greedy_index(q: Seq<i32>) -> int {
    choose|i: int| is_greedy(q, i)
}

/// The greatest value in `q`.
pub open spec fn max_q(q: Seq<i32>) -> i32 {
    q[greedy_index(q)]
}

/// What `choose_action` returns: the action and the seed to use next.
///
/// The first draw decides between exploring and exploiting. Only exploring
/// takes a second draw, whose value modulo 4 is the ordinal of the action.
pub open spec fn choose_action_spec(q: Seq<i32>, epsilon: u32, seed: u32) -> (Action, u32) {
    if draw(seed) < epsilon {
        (action_of((draw(next_seed(seed)) % (ACTION_COUNT as u32)) as int), next_seed(next_seed(seed)))
    } else {
        (action_of(greedy_index(q)), next_seed(seed))
    }
}

/// Two greedy choices among the same values are the same index.
pub proof fn lemma_greedy_unique(q: Seq<i32>, i: int, j: int)
    requires
        is_greedy(q, i),
        is_greedy(q, j),
    ensures
        i == j,
{
    if i < j {
        assert(q[i] < q[j]);
    } else if j < i {
        assert(q[j] < q[i]);
    }
}

/// A non-empty sequence has a greedy choice, and `greedy_index` is it.
pub proof fn lemma_greedy(q: Seq<i32>)
    requires
        q.len() > 0,
    ensures
        is_greedy(q, greedy_index(q)),
        forall|j: int| 0 <= j < q.len() ==> q[j] <= max_q(q),
{
    let i = lemma_first_max(q, q.len());
    assert(is_greedy(q, i));
}

/// A first maximum among the first `n` values, found by induction on `n`.
proof fn lemma_first_max(q: Seq<i32>, n: nat) -> (i: int)
    requires
        0 < n <= q.len(),
    ensures
        0 <= i < n,
        forall|j: int| 0 <= j < n ==> q[j] <= q[i],
        forall|j: int| 0 <= j < i ==> q[j] < q[i],
    decreases n,
{
    if n == 1 {
        0
    } else {
        let k = lemma_first_max(q, (n - 1) as nat);
        if q[n - 1] > q[k] {
            n - 1
        } else {
            k
        }
    }
}

impl Contract {
    /// The greatest of the four values.
    pub fn max_q_value(q_values: &[i32; ACTION_COUNT]) -> (max: i32)
        ensures
            max == max_q(q_values@),
            forall|j: int| 0 <= j < ACTION_COUNT ==> q_values[j] <= max,
            exists|j: int| 0 <= j < ACTION_COUNT && q_values[j] == max,
    {
        let best = Self::greedy_action(q_values);
        q_values[best.index()]
    }

    /// The action with the greatest value; among equal values the one with
    /// the lowest ordinal.
    pub fn greedy_action(q_values: &[i32; ACTION_COUNT]) -> (best: Action)
        ensures
            is_greedy(q_values@, best.ordinal()),
            best == action_of(greedy_index(q_values@)),
    {
        let mut best_index: usize = 0;
        let mut best_val: i32 = q_values[0];
        let mut i: usize = 1;
        while i < ACTION_COUNT
            invariant
                1 <= i <= ACTION_COUNT,
                0 <= best_index < i,
                best_val == q_values[best_index as int],
                forall|j: int| 0 <= j < i ==> q_values[j] <= best_val,
                forall|j: int| 0 <= j < best_index ==> q_values[j] < best_val,
            decreases ACTION_COUNT - i,
        {
            if q_values[i] > best_val {
                best_val = q_values[i];
                best_index = i;
            }
            i += 1;
        }
        proof {
            assert(is_greedy(q_values@, best_index as int));
            lemma_greedy(q_values@);
            lemma_greedy_unique(q_values@, best_index as int, greedy_index(q_values@));
        }
        Action::from_index(best_index)
    }

    /// Chooses an action by the epsilon-greedy rule and returns it with the
    /// seed to use next.
    ///
    /// `epsilon` is a percentage: a draw below it explores, any other draw
    /// exploits. With `epsilon` at 100 or above every call explores.
    pub fn choose_action(q_values: &[i32; ACTION_COUNT], epsilon: u32, seed: u32) -> (out: (
        Action,
        u32,
    ))
        ensures
            out == choose_action_spec(q_values@, epsilon, seed),
            draw(seed) < epsilon ==> out.1 == next_seed(next_seed(seed)) && out.0.ordinal() == draw(
                next_seed(seed),
            ) % 4,
            draw(seed) >= epsilon ==> out.1 == next_seed(seed) && is_greedy(
                q_values@,
                out.0.ordinal(),
            ),
    {
        let (rand_val, new_seed) = Self::pseudo_random(seed);
        if rand_val < epsilon {
            let (rand_action, new_seed2) = Self::pseudo_random(new_seed);
            let index: usize = (rand_action as usize) % ACTION_COUNT;
            (Action::from_index(index), new_seed2)
        } else {
            (Self::greedy_action(q_values), new_seed)
        }
    }
}

} // verus!
