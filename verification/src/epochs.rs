use vstd::prelude::*;

use crate::committee::{
    committee_ready, committee_refreshed, multi_validator_ready, refresh_keeps_balances,
    refresh_validator_committee,
};
use crate::error::{outcome, Error, Outcome, Result};
use crate::fees::{next_epoch_multiplier, next_multiplier};
use crate::model::{
    copy_values, AvailabilityMode, ContextModel, EpochContext, LedgerModel, LedgerState,
};
use crate::protocol::{
    AVAILABILITY_FINALITY_GRACE_SECONDS, MIN_DECENTRALIZED_AVAILABILITY_VALIDATORS,
};
use crate::sequence::{filter_ends, filter_step};
use crate::settings::{apply_governance_parameter_changes, changes_applied};
use crate::text::{decimal, join3, u64_text};

verus! {

/// What an epoch that begins now is bound to.
pub open spec fn context_begun(ledger: LedgerModel) -> Outcome<ContextModel> {
    let ended_at = ledger.epoch_started_at + ledger.epoch_seconds_snapshot;
    if !(i64::MIN <= ended_at <= i64::MAX) {
        Err("Epoch boundary overflow"@)
    } else if ended_at + AVAILABILITY_FINALITY_GRACE_SECONDS > i64::MAX {
        Err("Epoch finality deadline overflow"@)
    } else {
        Ok(
            ContextModel {
                epoch: ledger.epoch_number,
                started_at: ledger.epoch_started_at,
                ended_at: ended_at as i64,
                submission_deadline: (ended_at + AVAILABILITY_FINALITY_GRACE_SECONDS) as i64,
                settings: ledger.settings,
                availability_mode: ledger.availability_mode,
                validator_ids: ledger.consensus.active_validators,
                validator_bonus_ids: Seq::empty(),
                node1_single_producer: !committee_ready(ledger, ledger.epoch_started_at),
            },
        )
    }
}

/// Fixes what an epoch that begins now is bound to.
pub fn new_epoch_context(ledger: &LedgerState) -> (r: Result<EpochContext>)
    ensures
        outcome(r) == context_begun(ledger@),
{
    let ended_at: i64 = match ledger.epoch_started_at.checked_add(ledger.epoch_seconds_snapshot) {
        None => {
            return Err(Error::msg("Epoch boundary overflow"));
        },
        Some(ended_at) => ended_at,
    };
    let submission_deadline: i64 = match ended_at.checked_add(AVAILABILITY_FINALITY_GRACE_SECONDS) {
        None => {
            return Err(Error::msg("Epoch finality deadline overflow"));
        },
        Some(deadline) => deadline,
    };
    let context = EpochContext {
        epoch: ledger.epoch_number,
        started_at: ledger.epoch_started_at,
        ended_at,
        submission_deadline,
        settings: ledger.settings,
        availability_mode: ledger.availability_mode,
        validator_ids: copy_values(&ledger.consensus.active_validators),
        validator_bonus_ids: Vec::new(),
        node1_single_producer: !multi_validator_ready(ledger, ledger.epoch_started_at),
    };
    assert(context.validator_bonus_ids@ =~= Seq::<u64>::empty());
    Ok(context)
}

/// The refusal of anything that belongs to an epoch which has been settled.
pub open spec fn epoch_closed(epoch: u64) -> Seq<char> {
    "Epoch "@ + decimal(epoch as nat) + " is no longer accepting operations"@
}

/// Finds what an epoch is bound to.
pub fn epoch_context(ledger: &LedgerState, epoch: u64) -> (r: Result<&EpochContext>)
    ensures
        match r {
            Ok(context) => ledger@.epoch_contexts.contains_key(epoch) && context.deep_view()
                == ledger@.epoch_contexts[epoch],
            Err(error) => !ledger@.epoch_contexts.contains_key(epoch) && error@ == epoch_closed(
                epoch,
            ),
        },
{
    match ledger.epoch_contexts.get(&epoch) {
        Some(context) => Ok(context),
        None => Err(
            Error::owned(
                join3(
                    "Epoch ",
                    u64_text(epoch).as_str(),
                    " is no longer accepting operations",
                ),
            ),
        ),
    }
}

/// The ledger with a context for the current epoch.
pub open spec fn current_context_ensured(ledger: LedgerModel) -> Outcome<LedgerModel> {
    if ledger.epoch_contexts.contains_key(ledger.epoch_number) {
        Ok(ledger)
    } else {
        match context_begun(ledger) {
            Err(refusal) => Err(refusal),
            Ok(context) => Ok(
                LedgerModel {
                    epoch_contexts: ledger.epoch_contexts.insert(ledger.epoch_number, context),
                    ..ledger
                },
            ),
        }
    }
}

pub fn ensure_current_epoch_context(ledger: &mut LedgerState) -> (r: Result<()>)
    ensures
        match current_context_ensured(old(ledger)@) {
            Ok(next) => r is Ok && final(ledger)@ == next,
            Err(refusal) => (r matches Err(error) && error@ == refusal) && final(ledger)@ == old(
                ledger,
            )@,
        },
{
    if !ledger.epoch_contexts.contains_key(&ledger.epoch_number) {
        let context = new_epoch_context(ledger)?;
        ledger.epoch_contexts.insert(ledger.epoch_number, context);
    }
    Ok(())
}

/// Whether a validator has signed often enough for its bonus.
pub open spec fn earns_bonus(ledger: LedgerModel, context: ContextModel, node_id: u64) -> bool {
    ledger.nodes.contains_key(node_id) && ledger.nodes[node_id].validator_signature_rate_bps
        >= context.settings.validator_signature_threshold_bps
}

/// The ledger after it has been fixed which validators get a bonus for the current epoch.
pub open spec fn current_context_closed(ledger: LedgerModel) -> Outcome<LedgerModel> {
    let epoch = ledger.epoch_number;
    let context = ledger.epoch_contexts[epoch];
    if !ledger.epoch_contexts.contains_key(epoch) {
        Err(epoch_closed(epoch))
    } else {
        Ok(
            LedgerModel {
                epoch_contexts: ledger.epoch_contexts.insert(
                    epoch,
                    ContextModel {
                        validator_bonus_ids: context.validator_ids.filter(
                            |id: u64| earns_bonus(ledger, context, id),
                        ),
                        ..context
                    },
                ),
                ..ledger
            },
        )
    }
}

pub fn close_current_epoch_context(ledger: &mut LedgerState) -> (r: Result<()>)
    ensures
        match current_context_closed(old(ledger)@) {
            Ok(next) => r is Ok && final(ledger)@ == next,
            Err(refusal) => (r matches Err(error) && error@ == refusal) && final(ledger)@ == old(
                ledger,
            )@,
        },
{
    let epoch: u64 = ledger.epoch_number;
    let context = epoch_context(ledger, epoch)?;
    let ghost bound = context.deep_view();
    let ghost chosen = |id: u64| earns_bonus(ledger@, bound, id);
    let mut bonus: Vec<u64> = Vec::new();
    let mut i: usize = 0;
    proof {
        filter_ends(context.validator_ids@, chosen);
    }
    while i < context.validator_ids.len()
        invariant
            i <= context.validator_ids@.len(),
            bound == context.deep_view(),
            chosen == (|id: u64| earns_bonus(ledger@, bound, id)),
            bonus@ == context.validator_ids@.take(i as int).filter(chosen),
        decreases context.validator_ids@.len() - i,
    {
        proof {
            filter_step(context.validator_ids@, i as int, chosen);
        }
        let node_id: u64 = context.validator_ids[i];
        if let Some(node) = ledger.nodes.get(&node_id) {
            if node.validator_signature_rate_bps
                >= context.settings.validator_signature_threshold_bps {
                bonus.push(node_id);
            }
        }
        i = i + 1;
    }
    proof {
        filter_ends(context.validator_ids@, chosen);
    }
    if let Some(current) = ledger.epoch_contexts.get_mut(&epoch) {
        current.validator_bonus_ids = bonus;
    }
    Ok(())
}

/// The ledger after the committee has taken over the attesting of reachability, where it can.
pub open spec fn availability_activated(ledger: LedgerModel, at: i64) -> LedgerModel {
    if ledger.availability_mode == AvailabilityMode::Node1Trusted
        && ledger.consensus.active_validators.len() >= MIN_DECENTRALIZED_AVAILABILITY_VALIDATORS {
        LedgerModel {
            availability_mode: AvailabilityMode::MultiValidator,
            availability_activated_at: match ledger.availability_activated_at {
                Some(before) => Some(before),
                None => Some(at),
            },
            availability_activated_epoch: match ledger.availability_activated_epoch {
                Some(before) => Some(before),
                None => Some(ledger.epoch_number),
            },
            ..ledger
        }
    } else {
        ledger
    }
}

pub fn activate_multi_validator_availability_if_ready(ledger: &mut LedgerState, activated_at: i64)
    ensures
        final(ledger)@ == availability_activated(old(ledger)@, activated_at),
{
    if ledger.availability_mode == AvailabilityMode::Node1Trusted
        && ledger.consensus.active_validators.len() >= MIN_DECENTRALIZED_AVAILABILITY_VALIDATORS {
        ledger.availability_mode = AvailabilityMode::MultiValidator;
        if ledger.availability_activated_at.is_none() {
            ledger.availability_activated_at = Some(activated_at);
        }
        if ledger.availability_activated_epoch.is_none() {
            ledger.availability_activated_epoch = Some(ledger.epoch_number);
        }
    }
}

/// A multiplier between the bounds of the fee policy.
pub open spec fn bounded_multiplier(multiplier: u32, min: u32, max: u32) -> u32 {
    if multiplier < min {
        min
    } else if multiplier > max {
        max
    } else {
        multiplier
    }
}

/// The ledger after the changes that were scheduled for its epoch have taken effect.
pub open spec fn scheduled_changes_taken(ledger: LedgerModel) -> Outcome<LedgerModel> {
    let epoch = ledger.epoch_number;
    if !ledger.scheduled_parameter_changes.contains_key(epoch) {
        Ok(ledger)
    } else {
        match changes_applied(ledger.settings, ledger.scheduled_parameter_changes[epoch]) {
            Err(refusal) => Err(refusal),
            Ok(settings) => Ok(
                LedgerModel {
                    settings,
                    scheduled_parameter_changes: ledger.scheduled_parameter_changes.remove(epoch),
                    ..ledger
                },
            ),
        }
    }
}

fn take_scheduled_changes(ledger: &mut LedgerState) -> (r: Result<()>)
    ensures
        match scheduled_changes_taken(old(ledger)@) {
            Ok(next) => r is Ok && final(ledger)@ == next,
            Err(refusal) => r matches Err(error) && error@ == refusal,
        },
{
    let epoch: u64 = ledger.epoch_number;
    match ledger.scheduled_parameter_changes.remove(&epoch) {
        None => Ok(()),
        Some(changes) => {
            let settings = apply_governance_parameter_changes(&ledger.settings, &changes)?;
            ledger.settings = settings;
            Ok(())
        },
    }
}

/// The ledger with the settings that are in force for the epoch that begins.
pub open spec fn epoch_settings_fixed(ledger: LedgerModel, multiplier: u32) -> LedgerModel {
    LedgerModel {
        fee_multiplier_bps: bounded_multiplier(
            multiplier,
            ledger.settings.fee_policy.min_multiplier_bps,
            ledger.settings.fee_policy.max_multiplier_bps,
        ),
        fee_units_used_in_epoch: 0,
        epoch_seconds_snapshot: ledger.settings.epoch_seconds,
        epoch_mint_amount_snapshot: ledger.settings.epoch_mint_amount,
        reward_immediate_bps_snapshot: ledger.settings.reward_immediate_bps,
        reward_vesting_seconds_snapshot: ledger.settings.reward_vesting_seconds,
        ..ledger
    }
}

fn fix_epoch_settings(ledger: &mut LedgerState, multiplier: u32)
    ensures
        final(ledger)@ == epoch_settings_fixed(old(ledger)@, multiplier),
{
    let policy = ledger.settings.fee_policy;
    ledger.fee_multiplier_bps = if multiplier < policy.min_multiplier_bps {
        policy.min_multiplier_bps
    } else if multiplier > policy.max_multiplier_bps {
        policy.max_multiplier_bps
    } else {
        multiplier
    };
    ledger.fee_units_used_in_epoch = 0;
    ledger.epoch_seconds_snapshot = ledger.settings.epoch_seconds;
    ledger.epoch_mint_amount_snapshot = ledger.settings.epoch_mint_amount;
    ledger.reward_immediate_bps_snapshot = ledger.settings.reward_immediate_bps;
    ledger.reward_vesting_seconds_snapshot = ledger.settings.reward_vesting_seconds;
}

/// The ledger after one epoch has ended and the next has begun.
pub open spec fn epoch_turned(ledger: LedgerModel, epoch_end: i64) -> Outcome<LedgerModel> {
    match next_multiplier(ledger) {
        Err(refusal) => Err(refusal),
        Ok(multiplier) => match current_context_closed(ledger) {
            Err(refusal) => Err(refusal),
            Ok(closed) => if closed.epoch_number == u64::MAX {
                Err("Epoch number overflow"@)
            } else {
                let numbered = LedgerModel {
                    epoch_started_at: epoch_end,
                    epoch_number: (closed.epoch_number + 1) as u64,
                    ..closed
                };
                match scheduled_changes_taken(numbered) {
                    Err(refusal) => Err(refusal),
                    Ok(changed) => {
                        let fixed = epoch_settings_fixed(changed, multiplier);
                        let seated = availability_activated(
                            committee_refreshed(fixed, epoch_end),
                            epoch_end,
                        );
                        match context_begun(seated) {
                            Err(refusal) => Err(refusal),
                            Ok(context) => Ok(
                                LedgerModel {
                                    epoch_contexts: seated.epoch_contexts.insert(
                                        seated.epoch_number,
                                        context,
                                    ),
                                    ..seated
                                },
                            ),
                        }
                    },
                }
            },
        },
    }
}

fn turn_epoch(ledger: &mut LedgerState, epoch_end: i64) -> (r: Result<()>)
    ensures
        match epoch_turned(old(ledger)@, epoch_end) {
            Ok(next) => r is Ok && final(ledger)@ == next,
            Err(refusal) => r matches Err(error) && error@ == refusal,
        },
        r is Ok ==> final(ledger)@.epoch_number == old(ledger)@.epoch_number + 1,
{
    let multiplier = next_epoch_multiplier(ledger)?;
    close_current_epoch_context(ledger)?;
    ledger.epoch_started_at = epoch_end;
    match ledger.epoch_number.checked_add(1) {
        None => {
            return Err(Error::msg("Epoch number overflow"));
        },
        Some(epoch) => {
            ledger.epoch_number = epoch;
        },
    }
    take_scheduled_changes(ledger)?;
    fix_epoch_settings(ledger, multiplier);
    proof {
        refresh_keeps_balances(ledger@, epoch_end);
    }
    refresh_validator_committee(ledger, epoch_end)?;
    activate_multi_validator_availability_if_ready(ledger, epoch_end);
    let context = new_epoch_context(ledger)?;
    ledger.epoch_contexts.insert(ledger.epoch_number, context);
    Ok(())
}

/// The ledger after all epochs that end by a time have ended.
pub open spec fn epochs_turned(ledger: LedgerModel, at: i64) -> Outcome<LedgerModel>
    decreases u64::MAX - ledger.epoch_number,
{
    let epoch = ledger.epoch_number;
    if !ledger.epoch_contexts.contains_key(epoch) {
        Err(epoch_closed(epoch))
    } else {
        let epoch_end = ledger.epoch_contexts[epoch].ended_at;
        if at < epoch_end {
            Ok(ledger)
        } else {
            match epoch_turned(ledger, epoch_end) {
                Err(refusal) => Err(refusal),
                Ok(next) => if next.epoch_number > epoch {
                    epochs_turned(next, at)
                } else {
                    Ok(next)
                },
            }
        }
    }
}

/// The ledger after the protocol clock has been moved to the time of a block.
pub open spec fn epochs_advanced(ledger: LedgerModel, at: i64) -> Outcome<LedgerModel> {
    match current_context_ensured(ledger) {
        Err(refusal) => Err(refusal),
        Ok(ensured) => epochs_turned(ensured, at),
    }
}

/// Moves the protocol clock to the time of a block.
/// On a refusal the ledger may be left half-way.
pub(crate) fn turn_epochs_until(ledger: &mut LedgerState, block_timestamp: i64) -> (r: Result<()>)
    ensures
        match epochs_advanced(old(ledger)@, block_timestamp) {
            Ok(next) => r is Ok && final(ledger)@ == next,
            Err(refusal) => r matches Err(error) && error@ == refusal,
        },
{
    ensure_current_epoch_context(ledger)?;
    let ghost first = ledger@;
    loop
        invariant
            epochs_advanced(old(ledger)@, block_timestamp) == epochs_turned(first, block_timestamp),
            epochs_turned(first, block_timestamp) == epochs_turned(ledger@, block_timestamp),
        decreases u64::MAX - ledger@.epoch_number,
    {
        let epoch_end: i64 = epoch_context(ledger, ledger.epoch_number)?.ended_at;
        if block_timestamp < epoch_end {
            return Ok(());
        }
        turn_epoch(ledger, epoch_end)?;
    }
}

/// Moves the protocol clock to the time of a block. Epochs that have just ended stay open for
/// attestations.
pub fn advance_epochs_for_block(ledger: &mut LedgerState, block_timestamp: i64) -> (r: Result<()>)
    ensures
        match epochs_advanced(old(ledger)@, block_timestamp) {
            Ok(next) => r is Ok && final(ledger)@ == next,
            Err(refusal) => final(ledger)@ == old(ledger)@ && (r matches Err(error) && error@
                == refusal),
        },
{
    let mut next = ledger.copy();
    turn_epochs_until(&mut next, block_timestamp)?;
    *ledger = next;
    Ok(())
}

proof fn one_turn_begins_one_epoch(ledger: LedgerModel, epoch_end: i64)
    requires
        epoch_turned(ledger, epoch_end) is Ok,
    ensures
        ({
            let next = epoch_turned(ledger, epoch_end)->Ok_0;
            let closed = current_context_closed(ledger)->Ok_0.epoch_contexts;
            let epoch = next.epoch_number;
            &&& epoch == ledger.epoch_number + 1
            &&& next.epoch_contexts == closed.insert(epoch, next.epoch_contexts[epoch])
            &&& next.epoch_contexts[epoch].epoch == epoch
            &&& next.epoch_contexts[epoch].started_at == epoch_end
            &&& next.scheduled_parameter_changes == ledger.scheduled_parameter_changes.remove(epoch)
        }),
{
    reveal(committee_refreshed);
    let next = epoch_turned(ledger, epoch_end)->Ok_0;
    assert(next.scheduled_parameter_changes =~= ledger.scheduled_parameter_changes.remove(
        next.epoch_number,
    ));
}

/// Whether the epochs of a ledger go on from those of another: those before the current one are as
/// they were, the current one has at most been given its bonuses, and every epoch since has begun
/// when the one before it ended, and has taken the changes that were scheduled for it.
pub open spec fn epochs_go_on(before: LedgerModel, after: LedgerModel) -> bool {
    let current = before.epoch_number;
    &&& current <= after.epoch_number
    &&& forall|epoch: u64| #[trigger]
        before.epoch_contexts.contains_key(epoch) ==> after.epoch_contexts.contains_key(epoch)
    &&& forall|epoch: u64|
        epoch < current && #[trigger] before.epoch_contexts.contains_key(epoch)
            ==> after.epoch_contexts[epoch] == before.epoch_contexts[epoch]
    &&& before.epoch_contexts.contains_key(current) ==> after.epoch_contexts[current] == (
    ContextModel {
        validator_bonus_ids: after.epoch_contexts[current].validator_bonus_ids,
        ..before.epoch_contexts[current]
    })
    &&& forall|epoch: u64|
        current < epoch <= after.epoch_number ==> {
            &&& #[trigger] after.epoch_contexts.contains_key(epoch)
            &&& after.epoch_contexts[epoch].epoch == epoch
            &&& after.epoch_contexts[epoch].started_at == after.epoch_contexts[(epoch
                - 1) as u64].ended_at
            &&& !after.scheduled_parameter_changes.contains_key(epoch)
        }
    &&& forall|epoch: u64| #[trigger]
        after.scheduled_parameter_changes.contains_key(epoch)
            ==> before.scheduled_parameter_changes.contains_key(epoch)
}

proof fn turning_goes_on(ledger: LedgerModel, at: i64)
    requires
        epochs_turned(ledger, at) is Ok,
    ensures
        ({
            let next = epochs_turned(ledger, at)->Ok_0;
            &&& next.epoch_contexts.contains_key(next.epoch_number)
            &&& at < next.epoch_contexts[next.epoch_number].ended_at
            &&& epochs_go_on(ledger, next)
        }),
    decreases u64::MAX - ledger.epoch_number,
{
    let epoch = ledger.epoch_number;
    let epoch_end = ledger.epoch_contexts[epoch].ended_at;
    if at >= epoch_end {
        let next = epoch_turned(ledger, epoch_end)->Ok_0;
        one_turn_begins_one_epoch(ledger, epoch_end);
        turning_goes_on(next, at);
        let end = epochs_turned(ledger, at)->Ok_0;
        assert forall|e: u64| #[trigger] ledger.epoch_contexts.contains_key(e) implies
            end.epoch_contexts.contains_key(e) && (e < epoch ==> end.epoch_contexts[e]
            == ledger.epoch_contexts[e]) by {
            assert(next.epoch_contexts.contains_key(e));
        }
        assert(next.epoch_contexts.contains_key(epoch));
        assert(end.epoch_contexts[epoch] == next.epoch_contexts[epoch]);
        assert forall|e: u64| epoch < e <= end.epoch_number implies {
            &&& #[trigger] end.epoch_contexts.contains_key(e)
            &&& end.epoch_contexts[e].epoch == e
            &&& end.epoch_contexts[e].started_at == end.epoch_contexts[(e - 1) as u64].ended_at
            &&& !end.scheduled_parameter_changes.contains_key(e)
        } by {
            if e == next.epoch_number {
                assert(next.epoch_contexts.contains_key(e));
                assert((e - 1) as u64 == epoch);
                if end.scheduled_parameter_changes.contains_key(e) {
                    assert(next.scheduled_parameter_changes.contains_key(e));
                }
            }
        }
        assert forall|e: u64| #[trigger] end.scheduled_parameter_changes.contains_key(e) implies
            ledger.scheduled_parameter_changes.contains_key(e) by {
            assert(next.scheduled_parameter_changes.contains_key(e));
        }
    }
}

/// Moving the clock to a time leaves the ledger in an epoch that has not ended by then. Epochs that
/// have ended stay open for attestations, every new epoch begins when the one before it ended, and no
/// change that was scheduled for an epoch which has begun is left.
pub proof fn epochs_follow_each_other(ledger: LedgerModel, at: i64)
    requires
        epochs_advanced(ledger, at) is Ok,
    ensures
        ({
            let next = epochs_advanced(ledger, at)->Ok_0;
            &&& next.epoch_contexts.contains_key(next.epoch_number)
            &&& at < next.epoch_contexts[next.epoch_number].ended_at
            &&& epochs_go_on(ledger, next)
        }),
{
    let ensured = current_context_ensured(ledger)->Ok_0;
    turning_goes_on(ensured, at);
    let next = epochs_advanced(ledger, at)->Ok_0;
    assert forall|epoch: u64| #[trigger] ledger.epoch_contexts.contains_key(epoch) implies
        next.epoch_contexts.contains_key(epoch) && (epoch < ledger.epoch_number
        ==> next.epoch_contexts[epoch] == ledger.epoch_contexts[epoch]) by {
        assert(ensured.epoch_contexts.contains_key(epoch));
    }
}

proof fn turning_in_steps(ledger: LedgerModel, first: i64, at: i64)
    requires
        first <= at,
        epochs_turned(ledger, at) is Ok,
    ensures
        epochs_turned(ledger, first) is Ok,
        epochs_turned(epochs_turned(ledger, first)->Ok_0, at) == epochs_turned(ledger, at),
    decreases u64::MAX - ledger.epoch_number,
{
    let epoch_end = ledger.epoch_contexts[ledger.epoch_number].ended_at;
    if first >= epoch_end {
        let next = epoch_turned(ledger, epoch_end)->Ok_0;
        one_turn_begins_one_epoch(ledger, epoch_end);
        turning_in_steps(next, first, at);
    }
}

/// It does not matter in how many steps the clock is moved: a call for an earlier time in between
/// gives the same ledger.
pub proof fn clock_moves_in_steps(ledger: LedgerModel, first: i64, at: i64)
    requires
        first <= at,
        epochs_advanced(ledger, at) is Ok,
    ensures
        epochs_advanced(ledger, first) is Ok,
        epochs_advanced(epochs_advanced(ledger, first)->Ok_0, at) == epochs_advanced(ledger, at),
{
    let ensured = current_context_ensured(ledger)->Ok_0;
    turning_in_steps(ensured, first, at);
    turning_goes_on(ensured, first);
}

/// An epoch that begins is bound to the settings in force, with the changes that were scheduled for it:
/// it lasts for the time that they name and takes attestations for half a minute longer, and what it
/// mints, pays at once and lets vest is what they say. The fee multiplier stays within the bounds of the
/// fee policy, and the load is counted anew. The committee of the epoch is the one that then sits.
pub proof fn epochs_take_their_settings(ledger: LedgerModel, epoch_end: i64)
    requires
        epoch_turned(ledger, epoch_end) is Ok,
    ensures
        ({
            let next = epoch_turned(ledger, epoch_end)->Ok_0;
            let context = next.epoch_contexts[next.epoch_number];
            let policy = next.settings.fee_policy;
            &&& next.epoch_number == ledger.epoch_number + 1
            &&& next.epoch_started_at == epoch_end
            &&& !ledger.scheduled_parameter_changes.contains_key(next.epoch_number)
                ==> next.settings == ledger.settings
            &&& next.fee_units_used_in_epoch == 0
            &&& policy.min_multiplier_bps <= policy.max_multiplier_bps ==> policy.min_multiplier_bps
                <= next.fee_multiplier_bps <= policy.max_multiplier_bps
            &&& next_multiplier(ledger) matches Ok(followed) ==> (policy.min_multiplier_bps
                <= followed <= policy.max_multiplier_bps ==> next.fee_multiplier_bps == followed)
            &&& next.epoch_mint_amount_snapshot == next.settings.epoch_mint_amount
            &&& next.reward_immediate_bps_snapshot == next.settings.reward_immediate_bps
            &&& next.reward_vesting_seconds_snapshot == next.settings.reward_vesting_seconds
            &&& context.epoch == next.epoch_number
            &&& context.started_at == epoch_end
            &&& context.ended_at == epoch_end + next.settings.epoch_seconds
            &&& context.submission_deadline == context.ended_at + 30
            &&& context.settings == next.settings
            &&& context.validator_ids == next.consensus.active_validators
            &&& context.validator_bonus_ids.len() == 0
            &&& context.availability_mode == next.availability_mode
        }),
{
    reveal(committee_refreshed);
}

/// When an epoch ends, the validators of its committee that have signed often enough earn their bonus,
/// and nobody else does.
pub proof fn bonuses_go_to_signing_validators(ledger: LedgerModel, epoch_end: i64, node_id: u64)
    requires
        epoch_turned(ledger, epoch_end) is Ok,
    ensures
        ({
            let next = epoch_turned(ledger, epoch_end)->Ok_0;
            let ended = ledger.epoch_contexts[ledger.epoch_number];
            &&& next.epoch_contexts[ledger.epoch_number].validator_bonus_ids.contains(node_id)
                <==> ended.validator_ids.contains(node_id) && ledger.nodes.contains_key(node_id)
                && ended.settings.validator_signature_threshold_bps
                <= ledger.nodes[node_id].validator_signature_rate_bps
            &&& next.epoch_contexts[ledger.epoch_number].ended_at == ended.ended_at
        }),
{
    one_turn_begins_one_epoch(ledger, epoch_end);
    let context = ledger.epoch_contexts[ledger.epoch_number];
    crate::sequence::filtered_are_chosen(
        context.validator_ids,
        |id: u64| earns_bonus(ledger, context, id),
    );
}

/// The committee attests reachability from the moment on at which it has seven members, and the first
/// node alone as long as it has fewer; the time at which the committee first took over is kept.
pub proof fn committees_of_seven_attest(ledger: LedgerModel, now: i64)
    ensures
        ({
            let next = availability_activated(committee_refreshed(ledger, now), now);
            let refreshed = committee_refreshed(ledger, now);
            &&& next.availability_mode == AvailabilityMode::Node1Trusted <==>
                next.consensus.active_validators.len() < 7
            &&& next.consensus == refreshed.consensus
            &&& ledger.availability_activated_at matches Some(first)
                ==> next.availability_activated_at == Some(first)
            &&& ledger.availability_activated_at is None && next.availability_activated_at is Some
                ==> next.availability_activated_at == Some(now) && next.availability_mode
                == AvailabilityMode::MultiValidator
        }),
{
    reveal(committee_refreshed);
}

} // verus!
