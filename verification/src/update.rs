//! The update rule of Q-learning in scaled integers.
//!
//! Values, rewards and rates are integers and the scale sits in three
//! constants: the reward counts a thousandfold, the discounted next value
//! once, the current value a hundredfold, and the product with the learning
//! rate is divided by ten thousand. The scales are uneven and look grown
//! rather than derived; stored tables were learned with them, so they stay.
//!
//! Every operation is 32-bit two's complement and wraps. Wider
//! intermediates would give other values as soon as a product leaves the
//! 32-bit range, so the wrap is part of the rule and not an accident of the
//! machine. `update_fits` says where no operation wraps, and the module
//! `bounds` proves that training from a moderate table stays there.

use vstd::prelude::*;
use vstd::arithmetic::div_mod::lemma_mod_multiples_basic;

verus! {

/// Factor applied to the reward inside the temporal difference.
pub const REWARD_SCALE: i32 = 1000;

/// Factor applied to the current value inside the temporal difference. The
/// discount factor, a percentage, multiplies the next value without a
/// factor of its own.
pub const VALUE_SCALE: i32 = 100;

/// Divisor of the product of learning rate and temporal difference.
pub const RATE_SCALE: i32 = 10000;

/// The value in the range of `i32` that differs from `x` by a multiple of
/// 2^32: what 32-bit two's-complement arithmetic keeps of `x`.
pub open spec fn wrap_i32(x: int) -> i32 {
    let m = x % 0x1_0000_0000;
    if m >= 0x8000_0000 {
        (m - 0x1_0000_0000) as i32
    } else {
        m as i32
    }
}

/// The quotient of `x` by a positive `d`, rounded towards zero.
pub open spec fn trunc_div(x: int, d: int) -> int {
    if x >= 0 {
        x / d
    } else {
        -((-x) / d)
    }
}

/// `x` is in the range of `i32`.
pub open spec fn fits_i32(x: int) -> bool {
    i32::MIN <= x <= i32::MAX
}

/// The temporal difference, scaled: `1000 * reward + gamma * max_next -
/// 100 * q`, kept to 32 bits.
pub open spec fn q_delta(q: i32, reward: i32, max_next: i32, gamma: u32) -> i32 {
    wrap_i32(REWARD_SCALE * reward + gamma * max_next - VALUE_SCALE * q)
}

/// The value that replaces `q`: `q + alpha * delta / 10000`, the product and
/// the sum each kept to 32 bits and the quotient rounded towards zero.
pub open spec fn q_update(q: i32, reward: i32, max_next: i32, alpha: u32, gamma: u32) -> i32 {
    wrap_i32(
        q + trunc_div(
            wrap_i32(alpha * q_delta(q, reward, max_next, gamma)) as int,
            RATE_SCALE as int,
        ),
    )
}

/// The same update computed in unbounded integers.
pub open spec fn q_update_exact(q: int, reward: int, max_next: int, alpha: int, gamma: int) -> int {
    q + trunc_div(
        alpha * (REWARD_SCALE * reward + gamma * max_next - VALUE_SCALE * q),
        RATE_SCALE as int,
    )
}

/// No operation of the update leaves the range of `i32` on these inputs.
pub open spec fn update_fits(q: i32, reward: i32, max_next: i32, alpha: u32, gamma: u32) -> bool {
    let delta = REWARD_SCALE * reward + gamma * max_next - VALUE_SCALE * q;
    &&& fits_i32(alpha as int)
    &&& fits_i32(gamma as int)
    &&& fits_i32(REWARD_SCALE * reward)
    &&& fits_i32(gamma * max_next)
    &&& fits_i32(REWARD_SCALE * reward + gamma * max_next)
    &&& fits_i32(VALUE_SCALE * q)
    &&& fits_i32(delta)
    &&& fits_i32(alpha * delta)
    &&& fits_i32(q_update_exact(q as int, reward as int, max_next as int, alpha as int, gamma as int))
}

/// `x` and `y` differ by a multiple of 2^32.
#[verifier::opaque]
spec fn congruent(x: int, y: int) -> bool {
    (x - y) % 0x1_0000_0000 == 0
}

proof fn lemma_wrap(x: int)
    ensures
        congruent(wrap_i32(x) as int, x),
{
    reveal(congruent);
}

proof fn lemma_wrap_congruent(x: int, y: int)
    requires
        congruent(x, y),
    ensures
        wrap_i32(x) == wrap_i32(y),
{
    reveal(congruent);
}

proof fn lemma_congruent_sum(a: int, b: int, c: int, d: int)
    requires
        congruent(a, b),
        congruent(c, d),
    ensures
        congruent(a + c, b + d),
        congruent(a - c, b - d),
{
    reveal(congruent);
}

proof fn lemma_congruent_chain(a: int, b: int, c: int)
    requires
        congruent(a, b),
        congruent(b, c),
    ensures
        congruent(a, c),
{
    reveal(congruent);
}

proof fn lemma_congruent_mul(a: int, b: int, m: int)
    requires
        congruent(a, b),
    ensures
        congruent(a * m, b * m),
{
    reveal(congruent);
    let k = (a - b) / 0x1_0000_0000;
    assert(a - b == k * 0x1_0000_0000);
    assert(a * m - b * m == (k * m) * 0x1_0000_0000) by (nonlinear_arith)
        requires
            a - b == k * 0x1_0000_0000,
    ;
    lemma_mod_multiples_basic(k * m, 0x1_0000_0000);
}

/// Wrapping after every operation gives what wrapping once at the end gives.
proof fn lemma_delta_wraps(q: i32, reward: i32, max_next: i32, gamma: u32)
    ensures
        wrap_i32(
            wrap_i32(
                wrap_i32(reward * REWARD_SCALE) + wrap_i32(wrap_i32(gamma as int) * max_next),
            ) - wrap_i32(q * VALUE_SCALE),
        ) == q_delta(q, reward, max_next, gamma),
{
    let r1 = wrap_i32(reward * REWARD_SCALE) as int;
    let g = wrap_i32(gamma as int) as int;
    let d1 = wrap_i32(g * max_next) as int;
    let q1 = wrap_i32(q * VALUE_SCALE) as int;
    let s1 = wrap_i32(r1 + d1) as int;
    lemma_wrap(reward * REWARD_SCALE);
    lemma_wrap(gamma as int);
    lemma_congruent_mul(g, gamma as int, max_next as int);
    lemma_wrap(g * max_next);
    lemma_congruent_chain(d1, g * max_next, gamma * max_next);
    lemma_wrap(q * VALUE_SCALE);
    lemma_congruent_sum(r1, reward * REWARD_SCALE, d1, gamma * max_next);
    lemma_wrap(r1 + d1);
    lemma_congruent_chain(s1, r1 + d1, reward * REWARD_SCALE + gamma * max_next);
    lemma_congruent_sum(s1, reward * REWARD_SCALE + gamma * max_next, q1, q * VALUE_SCALE);
    lemma_wrap_congruent(s1 - q1, reward * REWARD_SCALE + gamma * max_next - q * VALUE_SCALE);
    assert(reward * REWARD_SCALE + gamma * max_next - q * VALUE_SCALE == REWARD_SCALE * reward
        + gamma * max_next - VALUE_SCALE * q);
}

proof fn lemma_product_wraps(alpha: u32, delta: i32)
    ensures
        wrap_i32(wrap_i32(alpha as int) * delta) == wrap_i32(alpha * delta),
{
    lemma_wrap(alpha as int);
    lemma_congruent_mul(wrap_i32(alpha as int) as int, alpha as int, delta as int);
    lemma_wrap_congruent(wrap_i32(alpha as int) * delta, alpha * delta);
}

/// Where nothing overflows, the 32-bit update is the update in unbounded
/// integers.
pub proof fn lemma_update_fits(q: i32, reward: i32, max_next: i32, alpha: u32, gamma: u32)
    requires
        update_fits(q, reward, max_next, alpha, gamma),
    ensures
        q_update(q, reward, max_next, alpha, gamma) == q_update_exact(
            q as int,
            reward as int,
            max_next as int,
            alpha as int,
            gamma as int,
        ),
{
}

/// The signed reading of the 32 bits of `x`.
pub fn to_signed(x: u32) -> (r: i32)
    ensures
        r == wrap_i32(x as int),
        x <= i32::MAX ==> r == x,
{
    if x < 0x8000_0000 {
        x as i32
    } else {
        (x - 0x8000_0000) as i32 + i32::MIN
    }
}

/// The Q-learning update of one value.
///
/// `alpha` and `gamma` are percentages. The arithmetic is 32-bit and wraps:
/// products, sums and differences keep their low 32 bits, percentages of
/// 2^31 and above count as negative, and the quotient is rounded towards
/// zero. On inputs for which `update_fits` holds nothing wraps and the
/// result is `q_update_exact` (`lemma_update_fits`).
pub fn updated_value(q: i32, reward: i32, max_next: i32, alpha: u32, gamma: u32) -> (v: i32)
    ensures
        v == q_update(q, reward, max_next, alpha, gamma),
{
    let scaled_reward: i32 = reward.wrapping_mul(REWARD_SCALE);
    let discounted: i32 = to_signed(gamma).wrapping_mul(max_next);
    let scaled_q: i32 = q.wrapping_mul(VALUE_SCALE);
    let delta: i32 = wrapping_diff(wrapping_sum(scaled_reward, discounted), scaled_q);
    let product: i32 = to_signed(alpha).wrapping_mul(delta);
    let step: i32 = product / RATE_SCALE;
    proof {
        lemma_delta_wraps(q, reward, max_next, gamma);
        lemma_product_wraps(alpha, delta);
    }
    wrapping_sum(q, step)
}

/// `a + b`, kept to 32 bits.
fn wrapping_sum(a: i32, b: i32) -> (r: i32)
    ensures
        r == wrap_i32(a + b),
{
    a.wrapping_add(b)
}

/// `a - b`, kept to 32 bits.
fn wrapping_diff(a: i32, b: i32) -> (r: i32)
    ensures
        r == wrap_i32(a - b),
{
    a.wrapping_sub(b)
}

} // verus!
