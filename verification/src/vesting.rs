use vstd::prelude::*;

use crate::error::{outcome, Error, Outcome, Result};
use crate::model::{NodeModel, NodeRecord, RewardVestingBucket};
use crate::protocol::{REWARD_VESTING_QUANTIZATION_SECONDS, REWARD_VESTING_STEP_SECONDS};

verus! {

/// A share of an amount, rounded down.
pub open spec fn ratio_floor(amount: u128, numerator: u128, denominator: u128) -> Outcome<u128> {
    if denominator == 0 || numerator > denominator {
        Err("invalid Node reward vesting ratio"@)
    } else if (amount % denominator) * numerator > u128::MAX {
        Err("Node reward vesting calculation overflow"@)
    } else {
        Ok((amount * numerator / denominator as int) as u128)
    }
}

proof fn ratio_split(amount: int, numerator: int, denominator: int)
    requires
        amount >= 0,
        0 <= numerator <= denominator,
        denominator > 0,
    ensures
        amount * numerator / denominator == (amount / denominator) * numerator + ((amount
            % denominator) * numerator) / denominator,
        0 <= amount * numerator / denominator <= amount,
        0 <= (amount / denominator) * numerator <= amount,
        ((amount % denominator) * numerator) / denominator >= 0,
        (amount % denominator) * numerator >= 0,
{
    let quotient = amount / denominator;
    let rest = amount % denominator;
    assert(amount == quotient * denominator + rest) by {
        vstd::arithmetic::div_mod::lemma_fundamental_div_mod(amount, denominator);
        assert(denominator * quotient == quotient * denominator) by (nonlinear_arith);
    }
    assert(amount * numerator == denominator * (quotient * numerator) + rest * numerator)
        by (nonlinear_arith)
        requires
            amount == quotient * denominator + rest,
    ;
    assert(rest * numerator >= 0) by (nonlinear_arith)
        requires
            rest >= 0,
            numerator >= 0,
    ;
    vstd::arithmetic::div_mod::lemma_hoist_over_denominator(
        rest * numerator,
        quotient * numerator,
        denominator as nat,
    );
    assert(amount * numerator <= amount * denominator) by (nonlinear_arith)
        requires
            amount >= 0,
            numerator <= denominator,
    ;
    assert(amount * numerator >= 0) by (nonlinear_arith)
        requires
            amount >= 0,
            numerator >= 0,
    ;
    vstd::arithmetic::div_mod::lemma_div_is_ordered(
        amount * numerator,
        amount * denominator,
        denominator,
    );
    vstd::arithmetic::div_mod::lemma_div_by_multiple(amount, denominator);
    vstd::arithmetic::div_mod::lemma_div_pos_is_pos(rest * numerator, denominator);
    assert(quotient >= 0) by (nonlinear_arith)
        requires
            amount >= 0,
            denominator > 0,
            quotient == amount / denominator,
    ;
    assert(quotient * numerator >= 0) by (nonlinear_arith)
        requires
            quotient >= 0,
            numerator >= 0,
    ;
}

/// Takes a share of an amount, rounded down.
pub fn multiply_ratio_floor(amount: u128, numerator: u128, denominator: u128) -> (r: Result<u128>)
    ensures
        outcome(r) == ratio_floor(amount, numerator, denominator),
{
    if denominator == 0 || numerator > denominator {
        return Err(Error::msg("invalid Node reward vesting ratio"));
    }
    proof {
        ratio_split(amount as int, numerator as int, denominator as int);
    }
    let whole: u128 = (amount / denominator) * numerator;
    match (amount % denominator).checked_mul(numerator) {
        Some(product) => {
            let part: u128 = product / denominator;
            Ok(whole + part)
        },
        None => Err(Error::msg("Node reward vesting calculation overflow")),
    }
}

/// The first multiple of `unit`, counted from `offset`, that is not before a timestamp.
pub open spec fn quantized_up(timestamp: int, unit: int, offset: int) -> int {
    offset + ((timestamp - offset + unit - 1) / unit) * unit
}

/// What quantizing gives on 64-bit timestamps.
pub open spec fn quantized(timestamp: i64, unit: i64, offset: i64) -> Outcome<i64> {
    if unit <= 0 {
        Err("Node reward vesting quantization must be positive"@)
    } else if !(i64::MIN <= timestamp - offset <= i64::MAX) || !(i64::MIN <= quantized_up(
        timestamp as int,
        unit as int,
        offset as int,
    ) - offset <= i64::MAX) || !(i64::MIN <= quantized_up(
        timestamp as int,
        unit as int,
        offset as int,
    ) <= i64::MAX) {
        Err("Node reward vesting quantization overflow"@)
    } else {
        Ok(quantized_up(timestamp as int, unit as int, offset as int) as i64)
    }
}

/// Quantizing never moves a timestamp back, moves it by less than one unit, and always hits a
/// multiple of the unit.
pub proof fn quantized_up_is_next_multiple(timestamp: int, unit: int, offset: int)
    requires
        unit > 0,
    ensures
        timestamp <= quantized_up(timestamp, unit, offset) < timestamp + unit,
        (quantized_up(timestamp, unit, offset) - offset) % unit == 0,
{
    let raised = timestamp - offset + unit - 1;
    vstd::arithmetic::div_mod::lemma_fundamental_div_mod(raised, unit);
    assert((raised / unit) * unit == unit * (raised / unit)) by (nonlinear_arith);
    vstd::arithmetic::div_mod::lemma_mod_multiples_basic(raised / unit, unit);
}

/// Moves a timestamp up to the next multiple of a unit, counted from an offset.
pub fn quantize_timestamp_up(timestamp: i64, unit: i64, offset: i64) -> (r: Result<i64>)
    ensures
        outcome(r) == quantized(timestamp, unit, offset),
{
    if unit <= 0 {
        return Err(Error::msg("Node reward vesting quantization must be positive"));
    }
    proof {
        quantized_up_is_next_multiple(timestamp as int, unit as int, offset as int);
    }
    match timestamp.checked_sub(offset) {
        None => Err(Error::msg("Node reward vesting quantization overflow")),
        Some(delta) => {
            let rest: i64 = match delta.checked_rem_euclid(unit) {
                Some(rest) => rest,
                None => 0,
            };
            proof {
                let raised = delta + unit - 1;
                vstd::arithmetic::div_mod::lemma_fundamental_div_mod(delta as int, unit as int);
                vstd::arithmetic::div_mod::lemma_fundamental_div_mod(raised, unit as int);
                assert((raised / unit as int) * unit == unit * (raised / unit as int))
                    by (nonlinear_arith);
                assert((delta as int / unit as int) * unit == unit * (delta as int / unit as int))
                    by (nonlinear_arith);
                if rest == 0 {
                    vstd::arithmetic::div_mod::lemma_fundamental_div_mod_converse(
                        raised,
                        unit as int,
                        delta as int / unit as int,
                        unit - 1,
                    );
                } else {
                    assert(unit * (delta as int / unit as int + 1) == unit * (delta as int
                        / unit as int) + unit) by (nonlinear_arith);
                    vstd::arithmetic::div_mod::lemma_fundamental_div_mod_converse(
                        raised,
                        unit as int,
                        delta as int / unit as int + 1,
                        rest - 1,
                    );
                }
            }
            let missing: i64 = if rest == 0 {
                0
            } else {
                unit - rest
            };
            match delta.checked_add(missing) {
                None => Err(Error::msg("Node reward vesting quantization overflow")),
                Some(span) => match offset.checked_add(span) {
                    None => Err(Error::msg("Node reward vesting quantization overflow")),
                    Some(quantized_at) => Ok(quantized_at),
                },
            }
        },
    }
}

/// The sum of the amounts that are still vesting.
pub open spec fn buckets_total(buckets: Seq<RewardVestingBucket>) -> nat
    decreases buckets.len(),
{
    if buckets.len() == 0 {
        0
    } else {
        buckets_total(buckets.drop_last()) + buckets.last().amount as nat
    }
}

/// Whether the buckets are in order of the time at which they unlock, one for each time.
pub open spec fn buckets_ordered(buckets: Seq<RewardVestingBucket>) -> bool {
    forall|i: int, j: int|
        #![trigger buckets[i], buckets[j]]
        0 <= i < j < buckets.len() ==> buckets[i].unlock_at < buckets[j].unlock_at
}

/// How many buckets at the front unlock before a time.
pub open spec fn buckets_before(buckets: Seq<RewardVestingBucket>, at: int) -> nat
    decreases buckets.len(),
{
    if buckets.len() == 0 || buckets[0].unlock_at >= at {
        0
    } else {
        1 + buckets_before(buckets.drop_first(), at)
    }
}

proof fn buckets_before_bounds(buckets: Seq<RewardVestingBucket>, at: int)
    ensures
        buckets_before(buckets, at) <= buckets.len(),
        forall|i: int| 0 <= i < buckets_before(buckets, at) ==> buckets[i].unlock_at < at,
        buckets_before(buckets, at) < buckets.len() ==> buckets[buckets_before(
            buckets,
            at,
        ) as int].unlock_at >= at,
    decreases buckets.len(),
{
    if buckets.len() > 0 && buckets[0].unlock_at < at {
        let rest = buckets.drop_first();
        buckets_before_bounds(rest, at);
        assert forall|i: int| 0 <= i < buckets_before(buckets, at) implies buckets[i].unlock_at
            < at by {
            if i > 0 {
                assert(buckets[i] == rest[i - 1]);
            }
        }
        if buckets_before(buckets, at) < buckets.len() {
            assert(buckets[buckets_before(buckets, at) as int] == rest[buckets_before(
                rest,
                at,
            ) as int]);
        }
    }
}

fn count_before(buckets: &Vec<RewardVestingBucket>, at: i128) -> (r: usize)
    ensures
        r == buckets_before(buckets@, at as int),
        r <= buckets@.len(),
{
    let mut i: usize = 0;
    assert(buckets@.skip(0) =~= buckets@);
    while i < buckets.len() && (buckets[i].unlock_at as i128) < at
        invariant
            i <= buckets@.len(),
            buckets_before(buckets@, at as int) == i + buckets_before(
                buckets@.skip(i as int),
                at as int,
            ),
        decreases buckets@.len() - i,
    {
        assert(buckets@.skip(i as int).drop_first() =~= buckets@.skip(i as int + 1));
        i = i + 1;
    }
    i
}

/// The buckets after an amount has been added under the time at which it unlocks.
pub open spec fn bucket_added(
    buckets: Seq<RewardVestingBucket>,
    unlock_at: i64,
    amount: u128,
) -> Outcome<Seq<RewardVestingBucket>> {
    let at = buckets_before(buckets, unlock_at as int) as int;
    if at < buckets.len() && buckets[at].unlock_at == unlock_at {
        if buckets[at].amount + amount > u128::MAX {
            Err("Node reward vesting bucket overflow"@)
        } else {
            Ok(
                buckets.update(
                    at,
                    RewardVestingBucket {
                        unlock_at,
                        amount: (buckets[at].amount + amount) as u128,
                    },
                ),
            )
        }
    } else {
        Ok(buckets.insert(at, RewardVestingBucket { unlock_at, amount }))
    }
}

/// The buckets after the tranches that lie behind `elapsed` seconds have been added: after each
/// step the part that has vested is the share of the time that has passed.
pub open spec fn tranches_added(
    buckets: Seq<RewardVestingBucket>,
    amount: u128,
    starts_at: i64,
    seconds: i64,
    unit: i64,
    offset: i64,
    elapsed: i64,
    vested: u128,
) -> Outcome<Seq<RewardVestingBucket>>
    decreases seconds - elapsed,
{
    if elapsed >= seconds {
        Ok(buckets)
    } else if elapsed + REWARD_VESTING_STEP_SECONDS > i64::MAX {
        Err("Node reward vesting step overflow"@)
    } else {
        let next = if elapsed + REWARD_VESTING_STEP_SECONDS < seconds {
            (elapsed + REWARD_VESTING_STEP_SECONDS) as i64
        } else {
            seconds
        };
        match ratio_floor(amount, next as u128, seconds as u128) {
            Err(refusal) => Err(refusal),
            Ok(target) => if target < vested {
                Err("Node reward vesting amount regressed"@)
            } else if target == vested {
                tranches_added(
                    buckets,
                    amount,
                    starts_at,
                    seconds,
                    unit,
                    offset,
                    next,
                    target,
                )
            } else if starts_at + next > i64::MAX {
                Err("Node reward vesting boundary overflow"@)
            } else {
                match quantized((starts_at + next) as i64, unit, offset) {
                    Err(refusal) => Err(refusal),
                    Ok(unlock_at) => match bucket_added(
                        buckets,
                        unlock_at,
                        (target - vested) as u128,
                    ) {
                        Err(refusal) => Err(refusal),
                        Ok(added) => tranches_added(
                            added,
                            amount,
                            starts_at,
                            seconds,
                            unit,
                            offset,
                            next,
                            target,
                        ),
                    },
                }
            },
        }
    }
}

/// The unit to which unlock times are rounded: an hour, or half a step where steps are short.
pub open spec fn vesting_unit(seconds: i64) -> i64 {
    let step = if REWARD_VESTING_STEP_SECONDS < seconds {
        REWARD_VESTING_STEP_SECONDS
    } else {
        seconds
    };
    let half = if step / 2 >= 1 {
        (step / 2) as i64
    } else {
        1
    };
    if REWARD_VESTING_QUANTIZATION_SECONDS < half {
        REWARD_VESTING_QUANTIZATION_SECONDS
    } else {
        half
    }
}

/// The buckets after a reward has begun to vest.
pub open spec fn vesting_added(
    buckets: Seq<RewardVestingBucket>,
    amount: u128,
    starts_at: i64,
    seconds: i64,
    offset: i64,
) -> Outcome<Seq<RewardVestingBucket>> {
    if seconds <= 0 {
        Err("Node reward vesting duration must be positive"@)
    } else if amount == 0 {
        Ok(buckets)
    } else {
        tranches_added(
            buckets,
            amount,
            starts_at,
            seconds,
            vesting_unit(seconds),
            offset,
            0,
            0,
        )
    }
}

fn add_to_bucket(
    buckets: &mut Vec<RewardVestingBucket>,
    unlock_at: i64,
    amount: u128,
) -> (r: Result<()>)
    ensures
        match bucket_added(old(buckets)@, unlock_at, amount) {
            Ok(added) => r is Ok && final(buckets)@ == added,
            Err(refusal) => (r matches Err(error) && error@ == refusal) && final(buckets)@ == old(
                buckets,
            )@,
        },
{
    let at = count_before(buckets, unlock_at as i128);
    if at < buckets.len() && buckets[at].unlock_at == unlock_at {
        match buckets[at].amount.checked_add(amount) {
            Some(sum) => {
                buckets.set(at, RewardVestingBucket { unlock_at, amount: sum });
                Ok(())
            },
            None => Err(Error::msg("Node reward vesting bucket overflow")),
        }
    } else {
        buckets.insert(at, RewardVestingBucket { unlock_at, amount });
        Ok(())
    }
}

/// Lets a reward vest in steps over a number of seconds. Nothing is changed where it is refused.
pub fn add_node_reward_vesting(
    node: &mut NodeRecord,
    amount: u128,
    starts_at: i64,
    vesting_seconds: i64,
    quantization_offset: i64,
) -> (r: Result<()>)
    ensures
        match vesting_added(
            old(node).deep_view().reward_vesting_buckets,
            amount,
            starts_at,
            vesting_seconds,
            quantization_offset,
        ) {
            Ok(buckets) => r is Ok && final(node).deep_view() == (NodeModel {
                reward_vesting_buckets: buckets,
                ..old(node).deep_view()
            }),
            Err(refusal) => (r matches Err(error) && error@ == refusal) && final(node).deep_view()
                == old(node).deep_view(),
        },
{
    if vesting_seconds <= 0 {
        return Err(Error::msg("Node reward vesting duration must be positive"));
    }
    if amount == 0 {
        return Ok(());
    }
    let step: i64 = if REWARD_VESTING_STEP_SECONDS < vesting_seconds {
        REWARD_VESTING_STEP_SECONDS
    } else {
        vesting_seconds
    };
    let half: i64 = if step / 2 >= 1 {
        step / 2
    } else {
        1
    };
    let unit: i64 = if REWARD_VESTING_QUANTIZATION_SECONDS < half {
        REWARD_VESTING_QUANTIZATION_SECONDS
    } else {
        half
    };
    let mut buckets: Vec<RewardVestingBucket> = crate::model::copy_values(
        &node.reward_vesting_buckets,
    );
    let mut elapsed: i64 = 0;
    let mut vested: u128 = 0;
    let ghost first = node.reward_vesting_buckets@;
    while elapsed < vesting_seconds
        invariant
            0 <= elapsed <= vesting_seconds,
            unit == vesting_unit(vesting_seconds),
            amount > 0,
            first == old(node).deep_view().reward_vesting_buckets,
            node.deep_view() == old(node).deep_view(),
            tranches_added(
                first,
                amount,
                starts_at,
                vesting_seconds,
                unit,
                quantization_offset,
                0,
                0,
            ) == tranches_added(
                buckets@,
                amount,
                starts_at,
                vesting_seconds,
                unit,
                quantization_offset,
                elapsed,
                vested,
            ),
        decreases vesting_seconds - elapsed,
    {
        let next: i64 = match elapsed.checked_add(REWARD_VESTING_STEP_SECONDS) {
            None => {
                return Err(Error::msg("Node reward vesting step overflow"));
            },
            Some(reached) => if reached < vesting_seconds {
                reached
            } else {
                vesting_seconds
            },
        };
        let target = multiply_ratio_floor(amount, next as u128, vesting_seconds as u128)?;
        if target < vested {
            return Err(Error::msg("Node reward vesting amount regressed"));
        }
        let tranche: u128 = target - vested;
        if tranche > 0 {
            let vesting_at: i64 = match starts_at.checked_add(next) {
                None => {
                    return Err(Error::msg("Node reward vesting boundary overflow"));
                },
                Some(vesting_at) => vesting_at,
            };
            let unlock_at = quantize_timestamp_up(vesting_at, unit, quantization_offset)?;
            add_to_bucket(&mut buckets, unlock_at, tranche)?;
        }
        elapsed = next;
        vested = target;
    }
    node.reward_vesting_buckets = buckets;
    Ok(())
}

/// The sum of what is still vesting, if it fits.
pub open spec fn vesting_reward(node: NodeModel) -> Outcome<u128> {
    if buckets_total(node.reward_vesting_buckets) <= u128::MAX {
        Ok(buckets_total(node.reward_vesting_buckets) as u128)
    } else {
        Err("Node vesting reward overflow"@)
    }
}

proof fn buckets_total_grows(buckets: Seq<RewardVestingBucket>, count: int)
    requires
        0 <= count <= buckets.len(),
    ensures
        buckets_total(buckets.take(count)) <= buckets_total(buckets),
    decreases buckets.len(),
{
    if count == buckets.len() {
        assert(buckets.take(count) =~= buckets);
    } else {
        assert(buckets.drop_last().take(count) =~= buckets.take(count));
        buckets_total_grows(buckets.drop_last(), count);
    }
}

fn sum_buckets(buckets: &Vec<RewardVestingBucket>, count: usize) -> (r: Option<u128>)
    requires
        count <= buckets@.len(),
    ensures
        match r {
            Some(sum) => sum == buckets_total(buckets@.take(count as int)),
            None => buckets_total(buckets@.take(count as int)) > u128::MAX,
        },
{
    let ghost counted = buckets@.take(count as int);
    let mut sum: u128 = 0;
    let mut i: usize = 0;
    assert(counted.take(0) =~= Seq::empty());
    while i < count
        invariant
            i <= count <= buckets@.len(),
            counted == buckets@.take(count as int),
            sum == buckets_total(counted.take(i as int)),
        decreases count - i,
    {
        assert(counted.take(i as int + 1).drop_last() =~= counted.take(i as int));
        match sum.checked_add(buckets[i].amount) {
            Some(next) => {
                sum = next;
            },
            None => {
                proof {
                    buckets_total_grows(counted, i as int + 1);
                }
                return None;
            },
        }
        i = i + 1;
    }
    assert(counted.take(count as int) =~= counted);
    Some(sum)
}

/// Adds up what is still vesting.
pub fn node_vesting_reward(node: &NodeRecord) -> (r: Result<u128>)
    ensures
        outcome(r) == vesting_reward(node.deep_view()),
{
    let buckets = &node.reward_vesting_buckets;
    assert(buckets@.take(buckets@.len() as int) =~= buckets@);
    match sum_buckets(buckets, buckets.len()) {
        Some(sum) => Ok(sum),
        None => Err(Error::msg("Node vesting reward overflow")),
    }
}

/// A node after what has matured by a time has become claimable.
pub open spec fn vesting_settled(node: NodeModel, epoch_end: i64) -> Outcome<NodeModel> {
    let buckets = node.reward_vesting_buckets;
    let matured = buckets_before(buckets, epoch_end + 1) as int;
    let released = buckets_total(buckets.take(matured));
    if released > u128::MAX {
        Err("matured Node reward overflow"@)
    } else if node.claimable_reward + released > u128::MAX {
        Err("claimable Node reward overflow"@)
    } else {
        Ok(
            NodeModel {
                claimable_reward: (node.claimable_reward + released) as u128,
                reward_vesting_buckets: buckets.skip(matured),
                ..node
            },
        )
    }
}

/// Makes claimable what has matured by a time.
pub fn settle_node_reward_vesting(node: &mut NodeRecord, epoch_end: i64) -> (r: Result<()>)
    ensures
        match vesting_settled(old(node).deep_view(), epoch_end) {
            Ok(settled) => r is Ok && final(node).deep_view() == settled,
            Err(refusal) => (r matches Err(error) && error@ == refusal) && final(node).deep_view()
                == old(node).deep_view(),
        },
{
    let matured = count_before(&node.reward_vesting_buckets, epoch_end as i128 + 1);
    match sum_buckets(&node.reward_vesting_buckets, matured) {
        None => Err(Error::msg("matured Node reward overflow")),
        Some(released) => match node.claimable_reward.checked_add(released) {
            None => Err(Error::msg("claimable Node reward overflow")),
            Some(claimable) => {
                let rest = node.reward_vesting_buckets.split_off(matured);
                assert(rest@ =~= old(node).reward_vesting_buckets@.skip(matured as int));
                node.claimable_reward = claimable;
                node.reward_vesting_buckets = rest;
                Ok(())
            },
        },
    }
}

proof fn buckets_total_of_concat(
    front: Seq<RewardVestingBucket>,
    back: Seq<RewardVestingBucket>,
)
    ensures
        buckets_total(front + back) == buckets_total(front) + buckets_total(back),
    decreases back.len(),
{
    if back.len() == 0 {
        assert(front + back =~= front);
    } else {
        assert((front + back).drop_last() =~= front + back.drop_last());
        buckets_total_of_concat(front, back.drop_last());
    }
}

/// What is added to a bucket is added to the sum of all buckets, and their order is kept.
pub proof fn bucket_added_keeps_sum(
    buckets: Seq<RewardVestingBucket>,
    unlock_at: i64,
    amount: u128,
)
    requires
        bucket_added(buckets, unlock_at, amount) is Ok,
    ensures
        buckets_total(bucket_added(buckets, unlock_at, amount)->Ok_0) == buckets_total(buckets)
            + amount,
        buckets_ordered(buckets) ==> buckets_ordered(
            bucket_added(buckets, unlock_at, amount)->Ok_0,
        ),
{
    let at = buckets_before(buckets, unlock_at as int) as int;
    buckets_before_bounds(buckets, unlock_at as int);
    let added = bucket_added(buckets, unlock_at, amount)->Ok_0;
    let front = buckets.take(at);
    if at < buckets.len() && buckets[at].unlock_at == unlock_at {
        let back = buckets.skip(at + 1);
        assert(buckets =~= front.push(buckets[at]) + back);
        assert(added =~= front.push(added[at]) + back);
        buckets_total_of_concat(front.push(buckets[at]), back);
        buckets_total_of_concat(front.push(added[at]), back);
        assert(front.push(buckets[at]).drop_last() =~= front);
        assert(front.push(added[at]).drop_last() =~= front);
    } else {
        let back = buckets.skip(at);
        let fresh = RewardVestingBucket { unlock_at, amount };
        assert(buckets =~= front + back);
        assert(added =~= front.push(fresh) + back);
        buckets_total_of_concat(front, back);
        buckets_total_of_concat(front.push(fresh), back);
        assert(front.push(fresh).drop_last() =~= front);
        if buckets_ordered(buckets) {
            assert forall|i: int, j: int|
                #![trigger added[i], added[j]]
                0 <= i < j < added.len() implies added[i].unlock_at < added[j].unlock_at by {
                if j < at {
                    assert(added[i] == buckets[i] && added[j] == buckets[j]);
                } else if j == at {
                    assert(added[i] == buckets[i]);
                } else {
                    assert(added[j] == buckets[j - 1]);
                    if i == at {
                        if j - 1 > at {
                            assert(buckets[at].unlock_at < buckets[j - 1].unlock_at);
                        }
                    } else if i < at {
                        assert(added[i] == buckets[i]);
                    } else {
                        assert(added[i] == buckets[i - 1]);
                    }
                }
            }
        }
    }
}

proof fn tranches_keep_sum(
    buckets: Seq<RewardVestingBucket>,
    amount: u128,
    starts_at: i64,
    seconds: i64,
    unit: i64,
    offset: i64,
    elapsed: i64,
    vested: u128,
)
    requires
        0 <= elapsed < seconds,
        tranches_added(buckets, amount, starts_at, seconds, unit, offset, elapsed, vested) is Ok,
    ensures
        buckets_total(
            tranches_added(
                buckets,
                amount,
                starts_at,
                seconds,
                unit,
                offset,
                elapsed,
                vested,
            )->Ok_0,
        ) == buckets_total(buckets) + amount - vested,
        buckets_ordered(buckets) ==> buckets_ordered(
            tranches_added(
                buckets,
                amount,
                starts_at,
                seconds,
                unit,
                offset,
                elapsed,
                vested,
            )->Ok_0,
        ),
    decreases seconds - elapsed,
{
    reveal_with_fuel(tranches_added, 2);
    let next = if elapsed + REWARD_VESTING_STEP_SECONDS < seconds {
        (elapsed + REWARD_VESTING_STEP_SECONDS) as i64
    } else {
        seconds
    };
    let target = ratio_floor(amount, next as u128, seconds as u128)->Ok_0;
    if next == seconds {
        assert(amount * (seconds as u128) / (seconds as u128) as int == amount) by {
            vstd::arithmetic::div_mod::lemma_div_by_multiple(amount as int, seconds as int);
        }
    }
    if target == vested {
        if next < seconds {
            tranches_keep_sum(
                buckets,
                amount,
                starts_at,
                seconds,
                unit,
                offset,
                next,
                target,
            );
        }
    } else {
        let unlock_at = quantized((starts_at + next) as i64, unit, offset)->Ok_0;
        bucket_added_keeps_sum(buckets, unlock_at, (target - vested) as u128);
        let added = bucket_added(buckets, unlock_at, (target - vested) as u128)->Ok_0;
        if next < seconds {
            tranches_keep_sum(
                added,
                amount,
                starts_at,
                seconds,
                unit,
                offset,
                next,
                target,
            );
        }
    }
}

/// A reward that begins to vest is in the buckets to the last base unit, and the buckets stay in
/// order.
pub proof fn vesting_keeps_every_unit(
    buckets: Seq<RewardVestingBucket>,
    amount: u128,
    starts_at: i64,
    seconds: i64,
    offset: i64,
)
    requires
        vesting_added(buckets, amount, starts_at, seconds, offset) is Ok,
    ensures
        buckets_total(vesting_added(buckets, amount, starts_at, seconds, offset)->Ok_0)
            == buckets_total(buckets) + amount,
        buckets_ordered(buckets) ==> buckets_ordered(
            vesting_added(buckets, amount, starts_at, seconds, offset)->Ok_0,
        ),
{
    if amount > 0 {
        tranches_keep_sum(
            buckets,
            amount,
            starts_at,
            seconds,
            vesting_unit(seconds),
            offset,
            0,
            0,
        );
    }
}

/// Settling moves what has matured, and nothing else: what a node can claim and what is still
/// vesting add up to the same as before, and in ordered buckets nothing that is left has matured.
pub proof fn settling_moves_matured_rewards(node: NodeModel, epoch_end: i64)
    requires
        vesting_settled(node, epoch_end) is Ok,
    ensures
        ({
            let settled = vesting_settled(node, epoch_end)->Ok_0;
            &&& settled.claimable_reward + buckets_total(settled.reward_vesting_buckets)
                == node.claimable_reward + buckets_total(node.reward_vesting_buckets)
            &&& buckets_ordered(node.reward_vesting_buckets) ==> buckets_ordered(
                settled.reward_vesting_buckets,
            ) && forall|i: int|
                0 <= i < settled.reward_vesting_buckets.len()
                    ==> (#[trigger] settled.reward_vesting_buckets[i]).unlock_at > epoch_end
        }),
{
    let buckets = node.reward_vesting_buckets;
    let matured = buckets_before(buckets, epoch_end + 1) as int;
    buckets_before_bounds(buckets, epoch_end + 1);
    assert(buckets =~= buckets.take(matured) + buckets.skip(matured));
    buckets_total_of_concat(buckets.take(matured), buckets.skip(matured));
    let rest = buckets.skip(matured);
    if buckets_ordered(buckets) {
        assert forall|i: int| 0 <= i < rest.len() implies (#[trigger] rest[i]).unlock_at
            > epoch_end by {
            assert(rest[i] == buckets[matured + i]);
            if i > 0 {
                assert(buckets[matured].unlock_at < buckets[matured + i].unlock_at);
            }
        }
    }
}

/// What of some buckets has unlocked by a time.
pub open spec fn unlocked_by(buckets: Seq<RewardVestingBucket>, at: int) -> nat
    decreases buckets.len(),
{
    if buckets.len() == 0 {
        0
    } else {
        unlocked_by(buckets.drop_last(), at) + if buckets.last().unlock_at <= at {
            buckets.last().amount as nat
        } else {
            0
        }
    }
}

proof fn unlocked_of_concat(
    front: Seq<RewardVestingBucket>,
    back: Seq<RewardVestingBucket>,
    at: int,
)
    ensures
        unlocked_by(front + back, at) == unlocked_by(front, at) + unlocked_by(back, at),
    decreases back.len(),
{
    if back.len() == 0 {
        assert(front + back =~= front);
    } else {
        assert((front + back).drop_last() =~= front + back.drop_last());
        unlocked_of_concat(front, back.drop_last(), at);
    }
}

/// What is added to a bucket unlocks with the bucket.
proof fn added_amounts_unlock_with_their_bucket(
    buckets: Seq<RewardVestingBucket>,
    unlock_at: i64,
    amount: u128,
    at: int,
)
    requires
        bucket_added(buckets, unlock_at, amount) is Ok,
    ensures
        unlocked_by(bucket_added(buckets, unlock_at, amount)->Ok_0, at) == unlocked_by(buckets, at)
            + if unlock_at <= at {
            amount as nat
        } else {
            0
        },
{
    let place = buckets_before(buckets, unlock_at as int) as int;
    buckets_before_bounds(buckets, unlock_at as int);
    let added = bucket_added(buckets, unlock_at, amount)->Ok_0;
    let front = buckets.take(place);
    if place < buckets.len() && buckets[place].unlock_at == unlock_at {
        let back = buckets.skip(place + 1);
        assert(buckets =~= front.push(buckets[place]) + back);
        assert(added =~= front.push(added[place]) + back);
        unlocked_of_concat(front.push(buckets[place]), back, at);
        unlocked_of_concat(front.push(added[place]), back, at);
        assert(front.push(buckets[place]).drop_last() =~= front);
        assert(front.push(added[place]).drop_last() =~= front);
    } else {
        let back = buckets.skip(place);
        let fresh = RewardVestingBucket { unlock_at, amount };
        assert(buckets =~= front + back);
        assert(added =~= front.push(fresh) + back);
        unlocked_of_concat(front, back, at);
        unlocked_of_concat(front.push(fresh), back, at);
        assert(front.push(fresh).drop_last() =~= front);
    }
}

proof fn ratio_bounds(amount: u128, elapsed: i64, seconds: i64)
    requires
        0 < elapsed <= seconds,
        ratio_floor(amount, elapsed as u128, seconds as u128) is Ok,
    ensures
        ({
            let part = ratio_floor(amount, elapsed as u128, seconds as u128)->Ok_0;
            &&& part * seconds <= amount * elapsed
            &&& amount * elapsed < (part + 1) * seconds
            &&& part <= amount
            &&& elapsed == seconds ==> part == amount
        }),
{
    ratio_split(amount as int, elapsed as int, seconds as int);
    let product = amount * elapsed;
    let part = product / seconds as int;
    assert(product >= 0) by (nonlinear_arith)
        requires
            product == amount * elapsed,
            elapsed > 0,
    ;
    vstd::arithmetic::div_mod::lemma_fundamental_div_mod(product, seconds as int);
    vstd::arithmetic::div_mod::lemma_mod_bound(product, seconds as int);
    assert(part * seconds <= product && product < (part + 1) * seconds) by (nonlinear_arith)
        requires
            product == seconds * part + product % (seconds as int),
            0 <= product % (seconds as int) < seconds,
    ;
    if elapsed == seconds {
        vstd::arithmetic::div_mod::lemma_div_by_multiple(amount as int, seconds as int);
    }
}

proof fn tranches_unlock_with_time(
    buckets: Seq<RewardVestingBucket>,
    amount: u128,
    starts_at: i64,
    seconds: i64,
    unit: i64,
    offset: i64,
    elapsed: i64,
    vested: u128,
    at: int,
)
    requires
        0 <= elapsed < seconds,
        0 < unit,
        vested * seconds <= amount * elapsed,
        amount * elapsed < (vested + 1) * seconds,
        tranches_added(buckets, amount, starts_at, seconds, unit, offset, elapsed, vested) is Ok,
    ensures
        ({
            let grown = unlocked_by(
                tranches_added(
                    buckets,
                    amount,
                    starts_at,
                    seconds,
                    unit,
                    offset,
                    elapsed,
                    vested,
                )->Ok_0,
                at,
            ) - unlocked_by(buckets, at);
            let passed = at - starts_at;
            &&& grown >= 0
            &&& passed <= elapsed ==> grown == 0
            &&& passed > elapsed ==> (grown + vested) * seconds <= amount * passed
            &&& passed >= seconds + unit ==> grown + vested == amount
            &&& passed - unit - 86_400 <= seconds ==> (grown + vested + 1) * seconds > amount * (
            passed - unit - 86_400)
        }),
    decreases seconds - elapsed,
{
    reveal_with_fuel(tranches_added, 2);
    let next = if elapsed + REWARD_VESTING_STEP_SECONDS < seconds {
        (elapsed + REWARD_VESTING_STEP_SECONDS) as i64
    } else {
        seconds
    };
    let target = ratio_floor(amount, next as u128, seconds as u128)->Ok_0;
    ratio_bounds(amount, next, seconds);
    let passed = at - starts_at;
    let after = tranches_added(
        buckets,
        amount,
        starts_at,
        seconds,
        unit,
        offset,
        elapsed,
        vested,
    )->Ok_0;
    let grown = unlocked_by(after, at) - unlocked_by(buckets, at);
    let (between, came): (Seq<RewardVestingBucket>, int) = if target == vested {
        (buckets, 0)
    } else {
        let unlock_at = quantized((starts_at + next) as i64, unit, offset)->Ok_0;
        quantized_up_is_next_multiple(starts_at + next, unit as int, offset as int);
        let part = (target - vested) as u128;
        added_amounts_unlock_with_their_bucket(buckets, unlock_at, part, at);
        assert(starts_at + next <= unlock_at < starts_at + next + unit);
        (
            bucket_added(buckets, unlock_at, part)->Ok_0,
            if unlock_at <= at {
                target - vested
            } else {
                0
            },
        )
    };
    let later = unlocked_by(after, at) - unlocked_by(between, at);
    assert(grown == later + came);
    assert(passed >= next + unit ==> came == target - vested);
    assert(passed < next ==> came == 0);
    if next < seconds {
        tranches_unlock_with_time(
            between,
            amount,
            starts_at,
            seconds,
            unit,
            offset,
            next,
            target,
            at,
        );
    } else {
        assert(later == 0);
    }
    if passed > elapsed {
        if passed <= next {
            if came > 0 {
                assert(passed == next);
                assert((grown + vested) * seconds == target * seconds);
            } else {
                assert(grown == 0);
                assert(amount * elapsed <= amount * passed) by (nonlinear_arith)
                    requires
                        elapsed <= passed,
                ;
            }
        } else if next < seconds {
            assert((grown + vested) * seconds <= (later + target) * seconds) by (nonlinear_arith)
                requires
                    grown + vested <= later + target,
                    seconds > 0,
            ;
        } else {
            assert((grown + vested) * seconds <= target * seconds) by (nonlinear_arith)
                requires
                    grown + vested <= target,
                    seconds > 0,
            ;
            assert(amount * next <= amount * passed) by (nonlinear_arith)
                requires
                    next <= passed,
            ;
        }
    }
    let reached = passed - unit - 86_400;
    if reached <= seconds {
        if passed < next + unit {
            assert(reached <= elapsed);
            assert(amount * reached <= amount * elapsed) by (nonlinear_arith)
                requires
                    reached <= elapsed,
            ;
            assert((vested + 1) * seconds <= (grown + vested + 1) * seconds) by (nonlinear_arith)
                requires
                    grown >= 0,
                    seconds > 0,
            ;
        } else if next < seconds {
            assert(grown + vested == later + target);
        } else {
            assert(grown + vested == target == amount);
            assert(amount * reached <= amount * seconds) by (nonlinear_arith)
                requires
                    reached <= seconds,
            ;
        }
    }
}

/// A reward vests with the time that passes, never faster: nothing of it has unlocked when it begins,
/// at no time has a larger part of it unlocked than the part of the vesting time that has passed, and
/// no more is held back than a day and the rounding of an hour account for. An hour after the vesting
/// time is over the whole reward has unlocked.
pub proof fn rewards_vest_with_time(
    buckets: Seq<RewardVestingBucket>,
    amount: u128,
    starts_at: i64,
    seconds: i64,
    offset: i64,
    at: int,
)
    requires
        vesting_added(buckets, amount, starts_at, seconds, offset) is Ok,
    ensures
        ({
            let unlocked = unlocked_by(
                vesting_added(buckets, amount, starts_at, seconds, offset)->Ok_0,
                at,
            ) - unlocked_by(buckets, at);
            let passed = at - starts_at;
            &&& passed <= 0 ==> unlocked == 0
            &&& passed > 0 ==> unlocked * seconds <= amount * passed
            &&& passed >= seconds + 3_600 ==> unlocked == amount
            &&& passed - 90_000 <= seconds ==> (unlocked + 1) * seconds > amount * (passed - 90_000)
        }),
{
    let passed = at - starts_at;
    if amount == 0 {
        assert(0 * passed == 0 && 0 * (passed - 90_000) == 0) by (nonlinear_arith);
        assert(0 * seconds == 0 && 1 * seconds == seconds) by (nonlinear_arith);
    } else {
        let unit = vesting_unit(seconds);
        assert(0 < unit <= 3_600);
        assert(0 * seconds == 0 && amount * 0 == 0 && (0 + 1) * seconds == seconds)
            by (nonlinear_arith);
        tranches_unlock_with_time(
            buckets,
            amount,
            starts_at,
            seconds,
            unit,
            offset,
            0,
            0,
            at,
        );
        let after = vesting_added(buckets, amount, starts_at, seconds, offset)->Ok_0;
        let unlocked = unlocked_by(after, at) - unlocked_by(buckets, at);
        if passed - 90_000 <= seconds {
            assert(amount * (passed - 90_000) <= amount * (passed - unit - 86_400))
                by (nonlinear_arith)
                requires
                    unit <= 3_600,
            ;
            if passed - unit - 86_400 > seconds {
                assert(unlocked == amount);
                assert(amount * (passed - 90_000) <= amount * seconds) by (nonlinear_arith)
                    requires
                        passed - 90_000 <= seconds,
                ;
                assert((unlocked + 1) * seconds == amount * seconds + seconds) by (nonlinear_arith)
                    requires
                        unlocked == amount,
                ;
            }
        }
    }
}

proof fn unlocked_of_front(buckets: Seq<RewardVestingBucket>, at: int)
    ensures
        (forall|i: int| 0 <= i < buckets.len() ==> (#[trigger] buckets[i]).unlock_at <= at)
            ==> unlocked_by(buckets, at) == buckets_total(buckets),
        (forall|i: int| 0 <= i < buckets.len() ==> (#[trigger] buckets[i]).unlock_at > at)
            ==> unlocked_by(buckets, at) == 0,
    decreases buckets.len(),
{
    if buckets.len() > 0 {
        let rest = buckets.drop_last();
        unlocked_of_front(rest, at);
        assert(forall|i: int| 0 <= i < rest.len() ==> #[trigger] rest[i] == buckets[i]);
        assert(buckets.last() == buckets[buckets.len() - 1]);
    }
}

/// Settling makes claimable exactly what has unlocked by then: not a base unit of what unlocks later.
pub proof fn settling_pays_what_has_unlocked(node: NodeModel, epoch_end: i64)
    requires
        vesting_settled(node, epoch_end) is Ok,
        buckets_ordered(node.reward_vesting_buckets),
    ensures
        ({
            let settled = vesting_settled(node, epoch_end)->Ok_0;
            &&& settled.claimable_reward - node.claimable_reward == unlocked_by(
                node.reward_vesting_buckets,
                epoch_end as int,
            )
            &&& unlocked_by(settled.reward_vesting_buckets, epoch_end as int) == 0
            &&& settled.service_bond == node.service_bond
            &&& settled.total_eligible_seconds == node.total_eligible_seconds
        }),
{
    let buckets = node.reward_vesting_buckets;
    let matured = buckets_before(buckets, epoch_end + 1) as int;
    buckets_before_bounds(buckets, epoch_end + 1);
    settling_moves_matured_rewards(node, epoch_end);
    let front = buckets.take(matured);
    let rest = buckets.skip(matured);
    assert(buckets =~= front + rest);
    unlocked_of_concat(front, rest, epoch_end as int);
    assert forall|i: int| 0 <= i < front.len() implies (#[trigger] front[i]).unlock_at
        <= epoch_end by {
        assert(front[i] == buckets[i]);
    }
    unlocked_of_front(front, epoch_end as int);
    unlocked_of_front(rest, epoch_end as int);
}

} // verus!
