use vstd::prelude::*;

use crate::error::{outcome, Error, Outcome, Result};
use crate::model::{LedgerModel, LedgerState, UnsignedModel, UnsignedOperation};

verus! {

/// The fee multiplier of the next epoch: it moves with the load of this one, by at most the share
/// that the fee policy allows.
pub open spec fn next_multiplier(ledger: LedgerModel) -> Outcome<u32> {
    let policy = ledger.settings.fee_policy;
    let used = ledger.fee_units_used_in_epoch;
    let target = policy.target_units_per_epoch;
    let scale = target * policy.adjustment_denominator;
    if scale == 0 {
        Err("fee policy is invalid"@)
    } else if used >= target {
        let raised = ledger.fee_multiplier_bps + ledger.fee_multiplier_bps * (used - target) / scale;
        Ok(
            if raised > u32::MAX {
                u32::MAX
            } else {
                raised as u32
            },
        )
    } else {
        Ok(
            (ledger.fee_multiplier_bps - ledger.fee_multiplier_bps * (target - used)
                / scale) as u32,
        )
    }
}

proof fn step_bounded(current: int, distance: int, scale: int)
    requires
        current >= 0,
        0 <= distance <= scale,
        scale >= 1,
    ensures
        (current * distance) / scale <= current,
{
    assert(current * distance <= current * scale) by (nonlinear_arith)
        requires
            distance <= scale,
            current >= 0,
    ;
    vstd::arithmetic::div_mod::lemma_div_is_ordered(current * distance, current * scale, scale);
    vstd::arithmetic::div_mod::lemma_div_by_multiple(current, scale);
}

/// Computes the fee multiplier of the next epoch.
pub fn next_epoch_multiplier(ledger: &LedgerState) -> (r: Result<u32>)
    ensures
        outcome(r) == next_multiplier(ledger@),
{
    let policy = &ledger.settings.fee_policy;
    let used: u64 = ledger.fee_units_used_in_epoch;
    let target: u64 = policy.target_units_per_epoch;
    let current: u128 = ledger.fee_multiplier_bps as u128;
    assert(target * policy.adjustment_denominator <= u64::MAX * u32::MAX) by (nonlinear_arith)
        requires
            target <= u64::MAX,
            policy.adjustment_denominator <= u32::MAX,
    ;
    let scale: u128 = target as u128 * policy.adjustment_denominator as u128;
    if scale == 0 {
        return Err(Error::msg("fee policy is invalid"));
    }
    let distance: u64 = if used >= target {
        used - target
    } else {
        target - used
    };
    assert(current * distance <= u32::MAX * u64::MAX) by (nonlinear_arith)
        requires
            current <= u32::MAX,
            distance <= u64::MAX,
    ;
    let step: u128 = current * (distance as u128) / scale;
    assert(step <= current * distance) by (nonlinear_arith)
        requires
            step == (current * distance) / (scale as int),
            scale >= 1,
            current * distance >= 0,
    ;
    if used >= target {
        let raised: u128 = current + step;
        if raised > u32::MAX as u128 {
            Ok(u32::MAX)
        } else {
            Ok(raised as u32)
        }
    } else {
        proof {
            let whole = target as int;
            let parts = policy.adjustment_denominator as int;
            assert(whole * parts >= whole) by (nonlinear_arith)
                requires
                    parts >= 1,
                    whole >= 0,
            ;
            step_bounded(current as int, distance as int, scale as int);
        }
        Ok((current - step) as u32)
    }
}

/// What an operation costs.
#[derive(Clone, Copy, Debug, PartialEq, Eq, Structural)]
pub struct FeeQuote {
    pub policy_version: u64,
    pub units: u64,
    pub fee: u128,
    pub recommended_max_fee: u128,
}

impl DeepView for FeeQuote {
    type V = FeeQuote;

    open spec fn deep_view(&self) -> FeeQuote {
        *self
    }
}

/// What some fee units cost at the current multiplier.
pub open spec fn quoted(ledger: LedgerModel, units: u64) -> Outcome<FeeQuote> {
    let policy = ledger.settings.fee_policy;
    let base = units * policy.base_fee_per_unit;
    let scaled = base * ledger.fee_multiplier_bps;
    if base > u128::MAX || scaled > u128::MAX {
        Err("operation fee overflow"@)
    } else {
        let fee = (scaled / 10_000) as u128;
        Ok(
            FeeQuote {
                policy_version: policy.version,
                units,
                fee,
                recommended_max_fee: crate::number::clamped_u128(fee * 2),
            },
        )
    }
}

/// Quotes what some fee units cost.
pub fn quote(ledger: &LedgerState, units: u64) -> (r: Result<FeeQuote>)
    ensures
        outcome(r) == quoted(ledger@, units),
{
    let policy = &ledger.settings.fee_policy;
    match (units as u128).checked_mul(policy.base_fee_per_unit) {
        None => Err(Error::msg("operation fee overflow")),
        Some(base) => match base.checked_mul(ledger.fee_multiplier_bps as u128) {
            None => Err(Error::msg("operation fee overflow")),
            Some(scaled) => {
                let fee: u128 = scaled / 10_000;
                Ok(
                    FeeQuote {
                        policy_version: policy.version,
                        units,
                        fee,
                        recommended_max_fee: fee.saturating_add(fee),
                    },
                )
            },
        },
    }
}

/// The quote for an operation, which has to name the policy in force and allow for the fee.
pub open spec fn envelope_checked(
    ledger: LedgerModel,
    unsigned: UnsignedModel,
    units: u64,
) -> Outcome<FeeQuote> {
    match quoted(ledger, units) {
        Err(refusal) => Err(refusal),
        Ok(found) => if unsigned.fee_policy_version != found.policy_version {
            Err("operation fee policy version is not current"@)
        } else if unsigned.max_fee_base_units < found.fee {
            Err("operation fee exceeds the signed maximum fee"@)
        } else {
            Ok(found)
        },
    }
}

/// Quotes an operation and checks what its signer has allowed for.
pub fn validate_envelope(
    ledger: &LedgerState,
    unsigned: &UnsignedOperation,
    units: u64,
) -> (r: Result<FeeQuote>)
    ensures
        outcome(r) == envelope_checked(ledger@, unsigned.deep_view(), units),
{
    let found = quote(ledger, units)?;
    if unsigned.fee_policy_version != found.policy_version {
        return Err(Error::msg("operation fee policy version is not current"));
    }
    if unsigned.max_fee_base_units < found.fee {
        return Err(Error::msg("operation fee exceeds the signed maximum fee"));
    }
    Ok(found)
}

/// The multiplier follows the load: above the target it does not fall, below the target it does not
/// rise, and at the target it stays. It moves by its own part that the distance from the target is of
/// the target times the policy's denominator, rounded down.
pub proof fn multiplier_follows_the_load(ledger: LedgerModel)
    requires
        next_multiplier(ledger) is Ok,
    ensures
        ({
            let policy = ledger.settings.fee_policy;
            let scale = policy.target_units_per_epoch * policy.adjustment_denominator;
            let used = ledger.fee_units_used_in_epoch;
            let before = ledger.fee_multiplier_bps;
            let after = next_multiplier(ledger)->Ok_0;
            &&& used == policy.target_units_per_epoch ==> after == before
            &&& used >= policy.target_units_per_epoch ==> after >= before
            &&& used <= policy.target_units_per_epoch ==> after <= before
            &&& used >= policy.target_units_per_epoch && after < u32::MAX ==> {
                &&& (after - before) * scale <= before * (used - policy.target_units_per_epoch)
                &&& before * (used - policy.target_units_per_epoch) < (after - before + 1) * scale
            }
            &&& used <= policy.target_units_per_epoch ==> {
                &&& (before - after) * scale <= before * (policy.target_units_per_epoch - used)
                &&& before * (policy.target_units_per_epoch - used) < (before - after + 1) * scale
            }
        }),
{
    let policy = ledger.settings.fee_policy;
    let used = ledger.fee_units_used_in_epoch as int;
    let target = policy.target_units_per_epoch as int;
    let scale = policy.target_units_per_epoch * policy.adjustment_denominator;
    let before = ledger.fee_multiplier_bps as int;
    let distance = if used >= target {
        used - target
    } else {
        target - used
    };
    assert(scale > 0 && scale >= target) by (nonlinear_arith)
        requires
            scale == policy.target_units_per_epoch * policy.adjustment_denominator,
            target == policy.target_units_per_epoch,
            scale != 0,
    ;
    let product = before * distance;
    assert(product >= 0) by (nonlinear_arith)
        requires
            product == before * distance,
            before >= 0,
            distance >= 0,
    ;
    let step = product / scale;
    vstd::arithmetic::div_mod::lemma_fundamental_div_mod(product, scale);
    vstd::arithmetic::div_mod::lemma_mod_bound(product, scale);
    vstd::arithmetic::div_mod::lemma_div_pos_is_pos(product, scale);
    assert(step * scale <= product < (step + 1) * scale) by (nonlinear_arith)
        requires
            product == scale * step + product % scale,
            0 <= product % scale < scale,
    ;
    if distance == 0 {
        assert(product == 0) by (nonlinear_arith)
            requires
                product == before * distance,
                distance == 0,
        ;
        assert(step == 0) by (nonlinear_arith)
            requires
                step * scale <= 0,
                0 <= step,
                scale > 0,
        ;
    }
    if used < target {
        step_bounded(before, distance, scale);
    }
    if used == target {
        assert(before * (target - used) == product);
        assert(before * (used - target) == product);
    }
}

/// A busier epoch is never followed by a lower multiplier than a quieter one.
pub proof fn busier_epochs_are_not_cheaper(quiet: LedgerModel, busy: LedgerModel)
    requires
        quiet.settings.fee_policy == busy.settings.fee_policy,
        quiet.fee_multiplier_bps == busy.fee_multiplier_bps,
        quiet.fee_units_used_in_epoch <= busy.fee_units_used_in_epoch,
        next_multiplier(quiet) is Ok,
    ensures
        next_multiplier(busy) is Ok,
        next_multiplier(quiet)->Ok_0 <= next_multiplier(busy)->Ok_0,
{
    multiplier_follows_the_load(quiet);
    multiplier_follows_the_load(busy);
    let policy = quiet.settings.fee_policy;
    let target = policy.target_units_per_epoch as int;
    let scale = policy.target_units_per_epoch * policy.adjustment_denominator;
    let current = quiet.fee_multiplier_bps as int;
    let less = quiet.fee_units_used_in_epoch as int;
    let more = busy.fee_units_used_in_epoch as int;
    assert(scale > 0) by (nonlinear_arith)
        requires
            scale == policy.target_units_per_epoch * policy.adjustment_denominator,
            scale != 0,
    ;
    if less >= target {
        assert(current * (less - target) <= current * (more - target)) by (nonlinear_arith)
            requires
                less <= more,
                current >= 0,
        ;
        vstd::arithmetic::div_mod::lemma_div_is_ordered(
            current * (less - target),
            current * (more - target),
            scale,
        );
    } else if more < target {
        assert(current * (target - more) <= current * (target - less)) by (nonlinear_arith)
            requires
                less <= more,
                current >= 0,
        ;
        vstd::arithmetic::div_mod::lemma_div_is_ordered(
            current * (target - more),
            current * (target - less),
            scale,
        );
        step_bounded_below_target(current, target, less, more, scale, policy.adjustment_denominator);
    }
}

proof fn step_bounded_below_target(
    current: int,
    target: int,
    less: int,
    more: int,
    scale: int,
    denominator: u32,
)
    requires
        current >= 0,
        0 <= less <= more < target,
        scale == target * denominator,
        scale > 0,
    ensures
        current * (target - less) / scale <= current,
        current * (target - more) / scale <= current,
{
    assert(scale >= target) by (nonlinear_arith)
        requires
            scale == target * denominator,
            scale > 0,
            target > 0,
    ;
    step_bounded(current, target - less, scale);
    step_bounded(current, target - more, scale);
}

/// A fee is the price of its units at the base fee, times the multiplier, rounded down; the quote
/// names the policy in force, and recommends to allow for twice the fee.
pub proof fn fees_are_units_at_the_multiplier(ledger: LedgerModel, units: u64)
    requires
        quoted(ledger, units) is Ok,
    ensures
        ({
            let quote = quoted(ledger, units)->Ok_0;
            let price = units * ledger.settings.fee_policy.base_fee_per_unit;
            &&& quote.fee * 10_000 <= price * ledger.fee_multiplier_bps
            &&& price * ledger.fee_multiplier_bps < (quote.fee + 1) * 10_000
            &&& quote.units == units
            &&& quote.policy_version == ledger.settings.fee_policy.version
            &&& quote.fee <= u128::MAX / 2 ==> quote.recommended_max_fee == 2 * quote.fee
            &&& units == 0 ==> quote.fee == 0
            &&& ledger.fee_multiplier_bps == 10_000 ==> quote.fee == price
        }),
{
    let base = units * ledger.settings.fee_policy.base_fee_per_unit;
    assert(base >= 0 && (units == 0 ==> base == 0)) by (nonlinear_arith)
        requires
            base == units * ledger.settings.fee_policy.base_fee_per_unit,
    ;
    assert(base * ledger.fee_multiplier_bps >= 0 && (base == 0 ==> base * ledger.fee_multiplier_bps
        == 0) && (ledger.fee_multiplier_bps == 10_000 ==> base * ledger.fee_multiplier_bps == base
        * 10_000)) by (nonlinear_arith)
        requires
            base >= 0,
    ;
}

/// An operation is charged only under the policy that its signer has named, and never more than its
/// signer has allowed for; whoever has named the policy in force and allows for the fee is not refused.
pub proof fn fees_stay_within_what_was_signed(
    ledger: LedgerModel,
    unsigned: UnsignedModel,
    units: u64,
)
    requires
        quoted(ledger, units) is Ok,
    ensures
        envelope_checked(ledger, unsigned, units) is Ok <==> unsigned.fee_policy_version
            == ledger.settings.fee_policy.version && quoted(ledger, units)->Ok_0.fee
            <= unsigned.max_fee_base_units,
        envelope_checked(ledger, unsigned, units) matches Ok(quote) ==> quote.fee
            <= unsigned.max_fee_base_units && quote == quoted(ledger, units)->Ok_0,
{
}

} // verus!
