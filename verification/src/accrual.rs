//! The accrual engine: how much is emitted over a block range, and a
//! receiver's pro-rata share of it.
//!
//! All arithmetic is unsigned 128-bit; an overflow is reported as
//! [`Error::ArithmeticOverflow`](crate::error::Error) rather than wrapped.

use vstd::prelude::*;

use crate::error::Error;
use crate::state::{ReceivableContractSettings, ScheduleUnit};

verus! {

/// Total emission over the half-open block range `(cursor, to]`, walking the
/// schedule from unit `i` on.  A unit whose `end_block` is at or before the
/// cursor contributes nothing; otherwise it contributes its rate for every
/// block from the cursor up to `min(to, end_block)`, and the cursor advances
/// there.  Blocks past the last unit emit nothing.
pub open spec fn emitted_from(cursor: int, to: int, s: Seq<ScheduleUnit>, i: int) -> int
    decreases s.len() - i,
{
    if i < 0 || i >= s.len() || cursor >= to {
        0
    } else if s[i].end_block <= cursor {
        emitted_from(cursor, to, s, i + 1)
    } else {
        let seg_end = if to <= s[i].end_block {
            to
        } else {
            s[i].end_block as int
        };
        (seg_end - cursor) * s[i].release_per_block + emitted_from(seg_end, to, s, i + 1)
    }
}

/// Total emission over the half-open block range `(from, to]` under the given
/// schedule.  Zero whenever `to <= from`.
pub open spec fn emitted_spec(from: int, to: int, s: Seq<ScheduleUnit>) -> int {
    emitted_from(from, to, s, 0)
}

/// The emission rate in force at block `b`, walking the schedule from unit
/// `i` on: the rate of the first unit whose `end_block` is at or after `b`,
/// and zero past the last unit.
pub open spec fn rate_at_from(b: int, s: Seq<ScheduleUnit>, i: int) -> int
    decreases s.len() - i,
{
    if i < 0 || i >= s.len() {
        0
    } else if b <= s[i].end_block {
        s[i].release_per_block as int
    } else {
        rate_at_from(b, s, i + 1)
    }
}

/// The emission rate in force at block `b`: the schedule is a step function
/// over block height.
pub open spec fn rate_at(b: int, s: Seq<ScheduleUnit>) -> int {
    rate_at_from(b, s, 0)
}

/// The emission summed block by block: `rate_at(from+1) + ... + rate_at(to)`.
pub open spec fn emitted_blockwise(from: int, to: int, s: Seq<ScheduleUnit>) -> int
    decreases to - from,
{
    if to <= from {
        0
    } else {
        emitted_blockwise(from, to - 1, s) + rate_at(to, s)
    }
}

/// Over a single block the segment walk picks exactly the rate in force:
/// both skip every unit ending before `b` and take the first that reaches it.
proof fn lemma_emitted_single_block(b: int, s: Seq<ScheduleUnit>, i: int)
    ensures
        emitted_from(b - 1, b, s, i) == rate_at_from(b, s, i),
    decreases s.len() - i,
{
    if 0 <= i < s.len() {
        if s[i].end_block <= b - 1 {
            lemma_emitted_single_block(b, s, i + 1);
        } else {
            assert(emitted_from(b, b, s, i + 1) == 0);
            assert((b - (b - 1)) * s[i].release_per_block == s[i].release_per_block)
                by (nonlinear_arith);
        }
    }
}

/// The segment walk computes the per-block sum of the step function: the
/// emission over `(from, to]` is the rate in force at each block of the
/// range, added up.  This holds for any schedule, sorted or not.
pub proof fn lemma_emitted_is_blockwise_sum(from: int, to: int, s: Seq<ScheduleUnit>)
    requires
        from <= to,
    ensures
        emitted_spec(from, to, s) == emitted_blockwise(from, to, s),
    decreases to - from,
{
    if from < to {
        lemma_emitted_is_blockwise_sum(from, to - 1, s);
        lemma_emitted_telescopes(from, to - 1, to, s);
        lemma_emitted_single_block(to, s, 0);
    }
}

/// Emission is never negative.
pub proof fn lemma_emitted_from_nonneg(cursor: int, to: int, s: Seq<ScheduleUnit>, i: int)
    ensures
        emitted_from(cursor, to, s, i) >= 0,
    decreases s.len() - i,
{
    if i < 0 || i >= s.len() || cursor >= to {
    } else if s[i].end_block <= cursor {
        lemma_emitted_from_nonneg(cursor, to, s, i + 1);
    } else {
        let seg_end = if to <= s[i].end_block {
            to
        } else {
            s[i].end_block as int
        };
        lemma_emitted_from_nonneg(seg_end, to, s, i + 1);
        assert((seg_end - cursor) * s[i].release_per_block >= 0) by (nonlinear_arith)
            requires
                seg_end > cursor,
                s[i].release_per_block >= 0,
        ;
    }
}

/// What `emitted` returns: the exact total, or an overflow report when the
/// total does not fit in 128 bits.
pub open spec fn emitted_result_spec(from: int, to: int, s: Seq<ScheduleUnit>) -> Result<
    u128,
    Error,
> {
    if emitted_spec(from, to, s) > u128::MAX {
        Err(Error::ArithmeticOverflow)
    } else {
        Ok(emitted_spec(from, to, s) as u128)
    }
}

/// Total emission integrated over the block range `(from_block, to_block]`.
///
/// Returns 0 when `to_block <= from_block`, and treats blocks beyond the last
/// schedule unit as emitting nothing.  An overflow during accumulation aborts
/// the computation instead of wrapping.
pub fn emitted(from_block: u64, to_block: u64, schedule: &Vec<ScheduleUnit>) -> (r: Result<
    u128,
    Error,
>)
    ensures
        r == emitted_result_spec(from_block as int, to_block as int, schedule@),
{
    let ghost total: int = emitted_spec(from_block as int, to_block as int, schedule@);
    let mut acc: u128 = 0;
    let mut cursor: u64 = from_block;
    let mut i: usize = 0;
    while i < schedule.len() && cursor < to_block
        invariant
            i <= schedule@.len(),
            from_block <= cursor,
            total == emitted_spec(from_block as int, to_block as int, schedule@),
            total == acc + emitted_from(cursor as int, to_block as int, schedule@, i as int),
        decreases schedule@.len() - i,
    {
        let unit = schedule[i];
        if unit.end_block > cursor {
            let seg_end = if to_block <= unit.end_block {
                to_block
            } else {
                unit.end_block
            };
            let span = (seg_end - cursor) as u128;
            proof {
                lemma_emitted_from_nonneg(seg_end as int, to_block as int, schedule@, i + 1);
                assert(emitted_from(cursor as int, to_block as int, schedule@, i as int) == (
                seg_end - cursor) * unit.release_per_block + emitted_from(
                    seg_end as int,
                    to_block as int,
                    schedule@,
                    i + 1,
                ));
            }
            let reward = match span.checked_mul(unit.release_per_block) {
                Some(p) => p,
                None => {
                    proof {
                        assert(total >= span * unit.release_per_block > u128::MAX);
                    }
                    return Err(Error::ArithmeticOverflow);
                },
            };
            acc = match acc.checked_add(reward) {
                Some(a) => a,
                None => {
                    proof {
                        assert(total >= acc + reward > u128::MAX);
                    }
                    return Err(Error::ArithmeticOverflow);
                },
            };
            cursor = seg_end;
        }
        i = i + 1;
    }
    proof {
        if i >= schedule@.len() || cursor >= to_block {
            assert(emitted_from(cursor as int, to_block as int, schedule@, i as int) == 0);
        }
    }
    Ok(acc)
}

/// A receiver's pro-rata share of the emission between its last settlement
/// and `current_block`: zero when the total weight is zero or no block has
/// elapsed, otherwise the emission times `weight / total_weight` with floor
/// division.  Fractional remainders are lost to rounding, not carried
/// forward.
pub open spec fn receiver_reward_spec(
    current_block: int,
    total_weight: int,
    s: Seq<ScheduleUnit>,
    r: ReceivableContractSettings,
) -> int {
    if total_weight == 0 || current_block <= r.last_update_block {
        0
    } else {
        emitted_spec(r.last_update_block as int, current_block, s) * r.weight / total_weight
    }
}

/// When computing the reward exceeds 128-bit arithmetic: the emission times
/// the weight does not fit.  (With weight zero nothing is computed, so
/// nothing can overflow.)
pub open spec fn reward_overflows(
    current_block: int,
    total_weight: int,
    s: Seq<ScheduleUnit>,
    r: ReceivableContractSettings,
) -> bool {
    &&& total_weight != 0
    &&& current_block > r.last_update_block
    &&& r.weight != 0
    &&& emitted_spec(r.last_update_block as int, current_block, s) * r.weight > u128::MAX
}

/// What `receiver_reward` returns: the exact reward, or an overflow report.
pub open spec fn reward_result_spec(
    current_block: int,
    total_weight: int,
    s: Seq<ScheduleUnit>,
    r: ReceivableContractSettings,
) -> Result<u128, Error> {
    if reward_overflows(current_block, total_weight, s, r) {
        Err(Error::ArithmeticOverflow)
    } else {
        Ok(receiver_reward_spec(current_block, total_weight, s, r) as u128)
    }
}

/// The reward owed to `receiver` for the blocks since its last settlement,
/// as of `current_block`.
///
/// Pure: it mutates nothing, so calling it twice with the same arguments and
/// no settlement in between returns the same value both times.  Callers that
/// pay out are responsible for advancing `last_update_block` themselves.
pub fn receiver_reward(
    current_block: u64,
    total_weight: u64,
    schedule: &Vec<ScheduleUnit>,
    receiver: &ReceivableContractSettings,
) -> (r: Result<u128, Error>)
    ensures
        r == reward_result_spec(current_block as int, total_weight as int, schedule@, *receiver),
{
    if total_weight == 0 || current_block <= receiver.last_update_block {
        return Ok(0);
    }
    if receiver.weight == 0 {
        proof {
            let e = emitted_spec(
                receiver.last_update_block as int,
                current_block as int,
                schedule@,
            );
            assert(e * receiver.weight == 0) by (nonlinear_arith)
                requires
                    receiver.weight == 0,
            ;
            assert(0int / (total_weight as int) == 0) by (nonlinear_arith)
                requires
                    total_weight > 0,
            ;
        }
        return Ok(0);
    }
    let ghost e = emitted_spec(receiver.last_update_block as int, current_block as int, schedule@);
    proof {
        lemma_emitted_from_nonneg(
            receiver.last_update_block as int,
            current_block as int,
            schedule@,
            0,
        );
        assert(e * receiver.weight >= e && e * receiver.weight >= 0) by (nonlinear_arith)
            requires
                e >= 0,
                receiver.weight >= 1,
        ;
    }
    let emission = match emitted(receiver.last_update_block, current_block, schedule) {
        Ok(v) => v,
        Err(err) => {
            return Err(err);
        },
    };
    let product = match emission.checked_mul(receiver.weight as u128) {
        Some(p) => p,
        None => {
            return Err(Error::ArithmeticOverflow);
        },
    };
    Ok(product / (total_weight as u128))
}

/// An empty block range emits nothing, and with a zero total weight nothing
/// is owed, whatever the schedule says.
pub proof fn lemma_accrual_boundary(
    b: int,
    current_block: int,
    s: Seq<ScheduleUnit>,
    r: ReceivableContractSettings,
)
    ensures
        emitted_spec(b, b, s) == 0,
        receiver_reward_spec(current_block, 0, s, r) == 0,
{
}

/// Computing the reward is idempotent: two results obtained for the same
/// block, the same weights and the same schedule, with no settlement in
/// between, are equal.
pub proof fn lemma_receiver_reward_idempotent(
    r1: Result<u128, Error>,
    r2: Result<u128, Error>,
    current_block: int,
    total_weight: int,
    s: Seq<ScheduleUnit>,
    r: ReceivableContractSettings,
)
    requires
        r1 == reward_result_spec(current_block, total_weight, s, r),
        r2 == reward_result_spec(current_block, total_weight, s, r),
    ensures
        r1 == r2,
{
}

proof fn lemma_emitted_from_split(c: int, m: int, t: int, s: Seq<ScheduleUnit>, i: int)
    requires
        c <= m <= t,
    ensures
        emitted_from(c, t, s, i) == emitted_from(c, m, s, i) + emitted_from(m, t, s, i),
    decreases s.len() - i,
{
    if i < 0 || i >= s.len() || c >= t {
        // every range is empty or the schedule is exhausted
    } else if s[i].end_block <= c {
        lemma_emitted_from_split(c, m, t, s, i + 1);
        assert(emitted_from(c, t, s, i) == emitted_from(c, t, s, i + 1));
        assert(emitted_from(c, m, s, i) == if c < m {
            emitted_from(c, m, s, i + 1)
        } else {
            0
        });
        assert(emitted_from(m, t, s, i) == if m < t {
            emitted_from(m, t, s, i + 1)
        } else {
            0
        });
    } else if m <= c {
        // the first range is empty, so the second is the whole range
        assert(m == c);
    } else {
        let e = s[i].end_block as int;
        let rate = s[i].release_per_block as int;
        if e <= m {
            // the unit is consumed entirely before the split point
            lemma_emitted_from_split(e, m, t, s, i + 1);
            assert(emitted_from(c, t, s, i) == (e - c) * rate + emitted_from(e, t, s, i + 1));
            assert(emitted_from(c, m, s, i) == (e - c) * rate + emitted_from(e, m, s, i + 1));
            assert(emitted_from(m, t, s, i) == if m < t {
                emitted_from(m, t, s, i + 1)
            } else {
                0
            });
        } else {
            // the split point falls inside the unit
            let seg = if t <= e {
                t
            } else {
                e
            };
            assert(emitted_from(c, t, s, i) == (seg - c) * rate + emitted_from(seg, t, s, i + 1));
            assert(emitted_from(c, m, s, i) == (m - c) * rate + emitted_from(m, m, s, i + 1));
            assert(emitted_from(m, m, s, i + 1) == 0);
            assert(emitted_from(m, t, s, i) == if m < t {
                (seg - m) * rate + emitted_from(seg, t, s, i + 1)
            } else {
                0
            });
            assert((m - c) * rate + (seg - m) * rate == (seg - c) * rate) by (nonlinear_arith);
            if m >= t {
                assert(m == t);
            }
        }
    }
}

/// Telescoping: the emission over `(b0, b2]` splits exactly at any
/// intermediate block `b1`.  Applied along a chain of settlement blocks this
/// says the per-interval emissions sum to the emission of the whole span.
pub proof fn lemma_emitted_telescopes(b0: int, b1: int, b2: int, s: Seq<ScheduleUnit>)
    requires
        b0 <= b1 <= b2,
    ensures
        emitted_spec(b0, b2, s) == emitted_spec(b0, b1, s) + emitted_spec(b1, b2, s),
{
    lemma_emitted_from_split(b0, b1, b2, s, 0);
}

/// Floor division loses to splitting: `x/d + y/d <= (x+y)/d`.
proof fn lemma_div_superadditive(x: int, y: int, d: int)
    requires
        x >= 0,
        y >= 0,
        d > 0,
    ensures
        x / d + y / d <= (x + y) / d,
{
    vstd::arithmetic::div_mod::lemma_fundamental_div_mod(x, d);
    vstd::arithmetic::div_mod::lemma_fundamental_div_mod(y, d);
    vstd::arithmetic::div_mod::lemma_mod_bound(x, d);
    vstd::arithmetic::div_mod::lemma_mod_bound(y, d);
    let q = x / d + y / d;
    vstd::arithmetic::mul::lemma_mul_is_distributive_add(d, x / d, y / d);
    vstd::arithmetic::div_mod::lemma_div_multiples_vanish(q, d);
    vstd::arithmetic::div_mod::lemma_div_is_ordered(d * q, x + y, d);
}

/// No double counting, the safe direction: settling at an intermediate block
/// `b1` and again at `b2` never pays more in total than a single settlement
/// from `b0` to `b2` would.  (Exact equality can fail: each settlement floors
/// its own quotient, so remainders smaller than `total_weight` are dropped.)
pub proof fn lemma_settlement_no_double_counting(
    b0: u64,
    b1: u64,
    b2: u64,
    total_weight: u64,
    s: Seq<ScheduleUnit>,
    weight: u64,
)
    requires
        b0 <= b1 <= b2,
        total_weight > 0,
    ensures
        receiver_reward_spec(
            b1 as int,
            total_weight as int,
            s,
            ReceivableContractSettings { weight, last_update_block: b0 },
        ) + receiver_reward_spec(
            b2 as int,
            total_weight as int,
            s,
            ReceivableContractSettings { weight, last_update_block: b1 },
        ) <= receiver_reward_spec(
            b2 as int,
            total_weight as int,
            s,
            ReceivableContractSettings { weight, last_update_block: b0 },
        ),
{
    let e1 = emitted_spec(b0 as int, b1 as int, s);
    let e2 = emitted_spec(b1 as int, b2 as int, s);
    lemma_emitted_telescopes(b0 as int, b1 as int, b2 as int, s);
    lemma_emitted_from_nonneg(b0 as int, b1 as int, s, 0);
    lemma_emitted_from_nonneg(b1 as int, b2 as int, s, 0);
    assert(e1 * weight >= 0 && e2 * weight >= 0 && (e1 + e2) * weight == e1 * weight + e2
        * weight) by (nonlinear_arith)
        requires
            e1 >= 0,
            e2 >= 0,
    ;
    lemma_div_superadditive(e1 * weight, e2 * weight, total_weight as int);
    if b1 == b0 {
        lemma_accrual_boundary(b0 as int, 0, s, ReceivableContractSettings { weight, last_update_block: b0 });
        vstd::arithmetic::div_mod::lemma_div_pos_is_pos(e2 * weight, total_weight as int);
    }
    if b2 == b1 {
        vstd::arithmetic::div_mod::lemma_div_pos_is_pos(e1 * weight, total_weight as int);
    }
}

/// A settlement chain: block heights in nondecreasing order.
pub open spec fn blocks_chain(blocks: Seq<u64>) -> bool {
    forall|i: int, j: int| 0 <= i <= j < blocks.len() ==> #[trigger] blocks[i] <= #[trigger] blocks[j]
}

/// The total emission over the consecutive ranges of a settlement chain:
/// `(B0, B1] + (B1, B2] + ...`.
pub open spec fn chain_emitted(blocks: Seq<u64>, s: Seq<ScheduleUnit>) -> int
    decreases blocks.len(),
{
    if blocks.len() <= 1 {
        0
    } else {
        chain_emitted(blocks.drop_last(), s) + emitted_spec(
            blocks[blocks.len() - 2] as int,
            blocks.last() as int,
            s,
        )
    }
}

/// Telescoping, chain form: over nondecreasing blocks `B0, ..., Bn` the
/// per-interval emissions sum exactly to the emission over `(B0, Bn]`.
pub proof fn lemma_emitted_chain_telescopes(blocks: Seq<u64>, s: Seq<ScheduleUnit>)
    requires
        blocks.len() >= 1,
        blocks_chain(blocks),
    ensures
        chain_emitted(blocks, s) == emitted_spec(blocks[0] as int, blocks.last() as int, s),
    decreases blocks.len(),
{
    if blocks.len() > 1 {
        let n = blocks.len() as int;
        assert(blocks.drop_last()[0] == blocks[0]);
        assert(blocks.drop_last().last() == blocks[n - 2]);
        lemma_emitted_chain_telescopes(blocks.drop_last(), s);
        lemma_emitted_telescopes(
            blocks[0] as int,
            blocks[n - 2] as int,
            blocks[n - 1] as int,
            s,
        );
    }
}

/// The total paid to one receiver of fixed weight across the consecutive
/// settlements of a chain: at each block the reward since the previous one.
pub open spec fn chain_rewards(
    blocks: Seq<u64>,
    total_weight: int,
    s: Seq<ScheduleUnit>,
    weight: u64,
) -> int
    decreases blocks.len(),
{
    if blocks.len() <= 1 {
        0
    } else {
        chain_rewards(blocks.drop_last(), total_weight, s, weight) + receiver_reward_spec(
            blocks.last() as int,
            total_weight,
            s,
            ReceivableContractSettings {
                weight,
                last_update_block: blocks[blocks.len() - 2],
            },
        )
    }
}

/// No double counting, chain form: settling a receiver at every block of a
/// chain `B0, ..., Bn` pays in total never more than the one reward
/// computed directly from `B0` to `Bn`.  (Equality can fail: each
/// settlement floors its own quotient.)
pub proof fn lemma_chain_no_double_counting(
    blocks: Seq<u64>,
    total_weight: u64,
    s: Seq<ScheduleUnit>,
    weight: u64,
)
    requires
        blocks.len() >= 1,
        blocks_chain(blocks),
        total_weight > 0,
    ensures
        chain_rewards(blocks, total_weight as int, s, weight) <= receiver_reward_spec(
            blocks.last() as int,
            total_weight as int,
            s,
            ReceivableContractSettings { weight, last_update_block: blocks[0] },
        ),
    decreases blocks.len(),
{
    if blocks.len() == 1 {
        let st = ReceivableContractSettings { weight, last_update_block: blocks[0] };
        lemma_emitted_from_nonneg(blocks[0] as int, blocks[0] as int, s, 0);
        assert(receiver_reward_spec(blocks[0] as int, total_weight as int, s, st) == 0);
    } else {
        let n = blocks.len() as int;
        assert(blocks.drop_last()[0] == blocks[0]);
        assert(blocks.drop_last().last() == blocks[n - 2]);
        lemma_chain_no_double_counting(blocks.drop_last(), total_weight, s, weight);
        lemma_settlement_no_double_counting(
            blocks[0],
            blocks[n - 2],
            blocks[n - 1],
            total_weight,
            s,
            weight,
        );
    }
}

/// For a receiver holding the full weight the chain is exact: the sum paid
/// across consecutive settlements equals the single reward over the whole
/// span, with nothing lost to rounding.
pub proof fn lemma_chain_telescopes_full_weight(
    blocks: Seq<u64>,
    total_weight: u64,
    s: Seq<ScheduleUnit>,
)
    requires
        blocks.len() >= 1,
        blocks_chain(blocks),
        total_weight > 0,
    ensures
        chain_rewards(blocks, total_weight as int, s, total_weight) == receiver_reward_spec(
            blocks.last() as int,
            total_weight as int,
            s,
            ReceivableContractSettings { weight: total_weight, last_update_block: blocks[0] },
        ),
    decreases blocks.len(),
{
    if blocks.len() == 1 {
        let st = ReceivableContractSettings {
            weight: total_weight,
            last_update_block: blocks[0],
        };
        assert(receiver_reward_spec(blocks[0] as int, total_weight as int, s, st) == 0);
    } else {
        let n = blocks.len() as int;
        assert(blocks.drop_last()[0] == blocks[0]);
        assert(blocks.drop_last().last() == blocks[n - 2]);
        lemma_chain_telescopes_full_weight(blocks.drop_last(), total_weight, s);
        lemma_settlement_telescopes_full_weight(
            blocks[0],
            blocks[n - 2],
            blocks[n - 1],
            total_weight,
            s,
        );
    }
}

/// For a receiver holding the full weight the telescoping is exact: the
/// division is by its own weight, so no remainder is dropped and the sum of
/// consecutive settlements equals the single settlement over the whole span.
pub proof fn lemma_settlement_telescopes_full_weight(
    b0: u64,
    b1: u64,
    b2: u64,
    total_weight: u64,
    s: Seq<ScheduleUnit>,
)
    requires
        b0 <= b1 <= b2,
        total_weight > 0,
    ensures
        receiver_reward_spec(
            b1 as int,
            total_weight as int,
            s,
            ReceivableContractSettings { weight: total_weight, last_update_block: b0 },
        ) + receiver_reward_spec(
            b2 as int,
            total_weight as int,
            s,
            ReceivableContractSettings { weight: total_weight, last_update_block: b1 },
        ) == receiver_reward_spec(
            b2 as int,
            total_weight as int,
            s,
            ReceivableContractSettings { weight: total_weight, last_update_block: b0 },
        ),
{
    let e1 = emitted_spec(b0 as int, b1 as int, s);
    let e2 = emitted_spec(b1 as int, b2 as int, s);
    lemma_emitted_telescopes(b0 as int, b1 as int, b2 as int, s);
    lemma_emitted_from_nonneg(b0 as int, b1 as int, s, 0);
    lemma_emitted_from_nonneg(b1 as int, b2 as int, s, 0);
    vstd::arithmetic::div_mod::lemma_div_by_multiple(e1, total_weight as int);
    vstd::arithmetic::div_mod::lemma_div_by_multiple(e2, total_weight as int);
    vstd::arithmetic::div_mod::lemma_div_by_multiple(e1 + e2, total_weight as int);
}

} // verus!

