use vstd::prelude::*;
use vstd::string::*;

use crate::amount::{parse_mrk, read_mrk};
use crate::error::{outcome, Error, Outcome, Result};
use crate::model::{LedgerModel, LedgerSettings, LedgerState};
use crate::parameter::{Parameter, ParameterRange};
use crate::protocol::{MAX_BASE_FEE_PER_UNIT, MAX_SUPPLY, MIN_BASE_FEE_PER_UNIT};
use crate::table::{ordered, Replicate, Table};
use crate::text::{decimal, join2, join3, join4, join5, parse_u64, parsed_unsigned, u64_text};
use crate::views::{
    GovernanceParameterView, GovernanceParameterViewModel, ScheduledGovernanceParameterView,
    ScheduledGovernanceParameterViewModel,
};

verus! {

/// The number that a text gives for a parameter with bounds.
pub open spec fn number_for(parameter: Parameter, value: Seq<char>, min: u64, max: u64) -> Outcome<
    u128,
> {
    match parsed_unsigned(value, u64::MAX as nat) {
        None => Err(parameter.title() + " must be an unsigned integer"@),
        Some(number) => if min <= number <= max {
            Ok(number as u128)
        } else {
            Err(
                parameter.title() + " must be between "@ + decimal(min as nat) + " and "@ + decimal(
                    max as nat,
                ),
            )
        },
    }
}

/// The amount that a text gives for a parameter that holds one.
pub open spec fn amount_for(parameter: Parameter, value: Seq<char>, positive: bool) -> Outcome<
    u128,
> {
    match read_mrk(value) {
        Err(refusal) => Err(refusal),
        Ok(amount) => if positive && (amount == 0 || amount > MAX_SUPPLY) {
            Err(parameter.title() + " must be greater than zero and no more than MAX_SUPPLY"@)
        } else if amount > MAX_SUPPLY {
            Err(parameter.title() + " must not exceed MAX_SUPPLY"@)
        } else {
            Ok(amount)
        },
    }
}

/// The value that a text gives for a parameter.
pub open spec fn value_for(parameter: Parameter, value: Seq<char>) -> Outcome<u128> {
    match parameter.range_of() {
        ParameterRange::Number { min, max } => number_for(parameter, value, min, max),
        ParameterRange::Amount { positive } => amount_for(parameter, value, positive),
        ParameterRange::BaseFee => match read_mrk(value) {
            Err(refusal) => Err(refusal),
            Ok(amount) => if MIN_BASE_FEE_PER_UNIT <= amount <= MAX_BASE_FEE_PER_UNIT {
                Ok(amount)
            } else {
                Err("base-fee-per-unit must be between 0.0001 MRK and 0.1 MRK"@)
            },
        },
    }
}

/// The settings after one parameter has been set.
pub open spec fn parameter_set(
    settings: LedgerSettings,
    name: Seq<char>,
    value: Seq<char>,
) -> Outcome<LedgerSettings> {
    match Parameter::of_title(name) {
        None => Err("unsupported governance parameter '"@ + name + "'"@),
        Some(parameter) => match value_for(parameter, value) {
            Err(refusal) => Err(refusal),
            Ok(number) => Ok(parameter.replaced(settings, number)),
        },
    }
}

fn read_value(parameter: Parameter, value: &str) -> (r: Result<u128>)
    ensures
        outcome(r) == value_for(parameter, value@),
        parameter.range_of() matches ParameterRange::Number { min, max } ==> (r matches Ok(number)
            ==> number <= max),
{
    match parameter.range() {
        ParameterRange::Number { min, max } => match parse_u64(value) {
            None => Err(Error::owned(join2(parameter.name(), " must be an unsigned integer"))),
            Some(number) => if min <= number && number <= max {
                Ok(number as u128)
            } else {
                Err(
                    Error::owned(
                        join5(
                            parameter.name(),
                            " must be between ",
                            u64_text(min).as_str(),
                            " and ",
                            u64_text(max).as_str(),
                        ),
                    ),
                )
            },
        },
        ParameterRange::Amount { positive } => {
            let amount = parse_mrk(value)?;
            if positive && (amount == 0 || amount > MAX_SUPPLY) {
                Err(
                    Error::owned(
                        join2(
                            parameter.name(),
                            " must be greater than zero and no more than MAX_SUPPLY",
                        ),
                    ),
                )
            } else if amount > MAX_SUPPLY {
                Err(Error::owned(join2(parameter.name(), " must not exceed MAX_SUPPLY")))
            } else {
                Ok(amount)
            }
        },
        ParameterRange::BaseFee => {
            let amount = parse_mrk(value)?;
            if MIN_BASE_FEE_PER_UNIT <= amount && amount <= MAX_BASE_FEE_PER_UNIT {
                Ok(amount)
            } else {
                Err(Error::msg("base-fee-per-unit must be between 0.0001 MRK and 0.1 MRK"))
            }
        },
    }
}

/// Sets one parameter and returns how its old and its new value are shown.
pub fn set_governance_parameter_value(
    settings: &mut LedgerSettings,
    parameter: &str,
    value: &str,
) -> (r: Result<(String, String)>)
    ensures
        match parameter_set(*old(settings), parameter@, value@) {
            Ok(changed) => {
                &&& *final(settings) == changed
                &&& r matches Ok(shown) && shown.0@ == Parameter::of_title(parameter@).unwrap().shown(
                    *old(settings),
                ) && shown.1@ == Parameter::of_title(parameter@).unwrap().shown(changed)
            },
            Err(refusal) => *final(settings) == *old(settings) && (r matches Err(error) && error@
                == refusal),
        },
{
    match Parameter::named(parameter) {
        None => Err(Error::owned(join3("unsupported governance parameter '", parameter, "'"))),
        Some(known) => {
            let number = read_value(known, value)?;
            let before = known.show(settings);
            known.replace(settings, number);
            let after = known.show(settings);
            Ok((before, after))
        },
    }
}

/// What has to hold between the parameters of one configuration.
pub open spec fn settings_checked(settings: LedgerSettings) -> Outcome<()> {
    if settings.availability_slot_seconds == 0 || settings.epoch_seconds
        < settings.availability_slot_seconds || (settings.epoch_seconds as int) % (
    settings.availability_slot_seconds as int) != 0 {
        Err("epoch-seconds must be a multiple of availability-slot-seconds"@)
    } else if settings.probe_validity_seconds < settings.availability_slot_seconds {
        Err("probe-validity-seconds cannot be shorter than availability-slot-seconds"@)
    } else if settings.availability_quorum > settings.availability_verifier_count {
        Err("availability-quorum cannot exceed availability-verifier-count"@)
    } else if settings.availability_audit_quorum > settings.availability_auditor_count {
        Err("availability-audit-quorum cannot exceed availability-auditor-count"@)
    } else if settings.max_validator_rotations > settings.max_active_validators / 3 {
        Err("max-validator-rotations cannot replace more than one-third of the committee"@)
    } else if settings.fee_policy.min_multiplier_bps > settings.fee_policy.max_multiplier_bps {
        Err("fee-min-multiplier-bps cannot exceed fee-max-multiplier-bps"@)
    } else {
        Ok(())
    }
}

proof fn multiples_have_negatives(value: int, length: int)
    requires
        length != 0,
        value % length == 0,
    ensures
        (-value) % length == 0,
{
    let rest = (-value) % length;
    let times = value / length + (-value) / length;
    vstd::arithmetic::div_mod::lemma_fundamental_div_mod(value, length);
    vstd::arithmetic::div_mod::lemma_fundamental_div_mod(-value, length);
    assert(rest == -(length * times)) by (nonlinear_arith)
        requires
            value == length * (value / length),
            -value == length * ((-value) / length) + rest,
            times == value / length + (-value) / length,
    ;
    assert(0 <= rest && rest < length || 0 <= rest && rest < -length) by (nonlinear_arith)
        requires
            length != 0,
            rest == (-value) % length,
    ;
    assert(rest == 0) by (nonlinear_arith)
        requires
            rest == -(length * times),
            0 <= rest && rest < length || 0 <= rest && rest < -length,
    ;
}

/// Checks what has to hold between the parameters of one configuration.
pub fn validate_governance_settings(settings: &LedgerSettings) -> (r: Result<()>)
    ensures
        outcome(r) == settings_checked(*settings),
{
    proof {
        let length = settings.availability_slot_seconds as int;
        if length != 0 && (settings.epoch_seconds as int) % length == 0 {
            multiples_have_negatives(settings.epoch_seconds as int, length);
        }
        if length != 0 && (-settings.epoch_seconds) % length == 0 {
            multiples_have_negatives(-settings.epoch_seconds, length);
        }
    }
    if settings.availability_slot_seconds == 0 || settings.epoch_seconds
        < settings.availability_slot_seconds || settings.epoch_seconds
        % settings.availability_slot_seconds != 0 {
        return Err(
            Error::msg("epoch-seconds must be a multiple of availability-slot-seconds"),
        );
    }
    if settings.probe_validity_seconds < settings.availability_slot_seconds {
        return Err(
            Error::msg("probe-validity-seconds cannot be shorter than availability-slot-seconds"),
        );
    }
    if settings.availability_quorum > settings.availability_verifier_count {
        return Err(
            Error::msg("availability-quorum cannot exceed availability-verifier-count"),
        );
    }
    if settings.availability_audit_quorum > settings.availability_auditor_count {
        return Err(
            Error::msg("availability-audit-quorum cannot exceed availability-auditor-count"),
        );
    }
    if settings.max_validator_rotations > settings.max_active_validators / 3 {
        return Err(
            Error::msg(
                "max-validator-rotations cannot replace more than one-third of the committee",
            ),
        );
    }
    if settings.fee_policy.min_multiplier_bps > settings.fee_policy.max_multiplier_bps {
        return Err(Error::msg("fee-min-multiplier-bps cannot exceed fee-max-multiplier-bps"));
    }
    Ok(())
}

/// The settings after the named parameters have been set one after the other.
pub open spec fn parameters_set(
    settings: LedgerSettings,
    names: Seq<Seq<char>>,
    changes: Map<Seq<char>, Seq<char>>,
) -> Outcome<LedgerSettings>
    decreases names.len(),
{
    if names.len() == 0 {
        Ok(settings)
    } else {
        match parameters_set(settings, names.drop_last(), changes) {
            Err(refusal) => Err(refusal),
            Ok(so_far) => parameter_set(so_far, names.last(), changes[names.last()]),
        }
    }
}

/// A refusal among the first changes refuses them all.
proof fn refusal_stays(
    settings: LedgerSettings,
    names: Seq<Seq<char>>,
    changes: Map<Seq<char>, Seq<char>>,
    count: int,
)
    requires
        0 <= count <= names.len(),
        parameters_set(settings, names.take(count), changes) is Err,
    ensures
        parameters_set(settings, names, changes) == parameters_set(
            settings,
            names.take(count),
            changes,
        ),
    decreases names.len(),
{
    if count == names.len() {
        assert(names.take(count) =~= names);
    } else {
        assert(names.drop_last().take(count) =~= names.take(count));
        refusal_stays(settings, names.drop_last(), changes, count);
    }
}

/// The settings after a batch of changes, with the version of the fee policy raised if the policy
/// has changed.
pub open spec fn changes_applied(
    settings: LedgerSettings,
    changes: Map<Seq<char>, Seq<char>>,
) -> Outcome<LedgerSettings> {
    if changes == Map::<Seq<char>, Seq<char>>::empty() {
        Err("parameter changes cannot be empty"@)
    } else {
        match parameters_set(settings, ordered::<String>(changes.dom()), changes) {
            Err(refusal) => Err(refusal),
            Ok(candidate) => {
                let old_base = settings.fee_policy.base_fee_per_unit;
                let new_base = candidate.fee_policy.base_fee_per_unit;
                if candidate.fee_policy == settings.fee_policy {
                    match settings_checked(candidate) {
                        Err(refusal) => Err(refusal),
                        Ok(_) => Ok(candidate),
                    }
                } else if new_base > 2 * old_base || 2 * new_base < old_base {
                    Err("base-fee-per-unit may change by at most 2x or 50% per policy update"@)
                } else if settings.fee_policy.version == u64::MAX {
                    Err("fee policy version overflow"@)
                } else {
                    let versioned = LedgerSettings {
                        fee_policy: crate::model::FeePolicy {
                            version: (settings.fee_policy.version + 1) as u64,
                            ..candidate.fee_policy
                        },
                        ..candidate
                    };
                    match settings_checked(versioned) {
                        Err(refusal) => Err(refusal),
                        Ok(_) => Ok(versioned),
                    }
                }
            },
        }
    }
}

/// Applies a batch of changes to a copy of the settings.
pub fn apply_governance_parameter_changes(
    settings: &LedgerSettings,
    changes: &Table<String, String>,
) -> (r: Result<LedgerSettings>)
    ensures
        outcome(r) == changes_applied(*settings, changes@),
{
    if changes.is_empty() {
        return Err(Error::msg("parameter changes cannot be empty"));
    }
    let mut candidate: LedgerSettings = *settings;
    let mut i: usize = 0;
    let ghost names = changes.keys();
    assert(names.take(0) =~= Seq::empty());
    while i < changes.len()
        invariant
            i <= names.len(),
            names == changes.keys(),
            parameters_set(*settings, names.take(i as int), changes@) == Ok::<
                LedgerSettings,
                Seq<char>,
            >(candidate),
        decreases names.len() - i,
    {
        proof {
            let taken = names.take(i as int + 1);
            assert(taken.drop_last() =~= names.take(i as int));
            assert(taken.last() == names[i as int]);
            if parameters_set(*settings, taken, changes@) is Err {
                refusal_stays(*settings, names, changes@, i as int + 1);
            }
        }
        set_governance_parameter_value(
            &mut candidate,
            changes.key_at(i).as_str(),
            changes.value_at(i).as_str(),
        )?;
        i = i + 1;
    }
    assert(names.take(names.len() as int) =~= names);
    if candidate.fee_policy != settings.fee_policy {
        let old_base: u128 = settings.fee_policy.base_fee_per_unit;
        let new_base: u128 = candidate.fee_policy.base_fee_per_unit;
        let doubled_old: u128 = old_base.saturating_add(old_base);
        let doubled_new: u128 = new_base.saturating_add(new_base);
        if new_base > doubled_old || doubled_new < old_base {
            return Err(
                Error::msg("base-fee-per-unit may change by at most 2x or 50% per policy update"),
            );
        }
        match settings.fee_policy.version.checked_add(1) {
            Some(version) => {
                candidate.fee_policy.version = version;
            },
            None => {
                return Err(Error::msg("fee policy version overflow"));
            },
        }
    }
    validate_governance_settings(&candidate)?;
    Ok(candidate)
}

/// Sets one parameter, if the configuration that results is consistent.
pub fn set_governance_parameter(
    settings: &mut LedgerSettings,
    parameter: &str,
    value: &str,
) -> (r: Result<(String, String)>)
    ensures
        match parameter_set(*old(settings), parameter@, value@) {
            Ok(changed) => match settings_checked(changed) {
                Ok(_) => {
                    &&& *final(settings) == changed
                    &&& r matches Ok(shown) && shown.0@ == Parameter::of_title(
                        parameter@,
                    ).unwrap().shown(*old(settings)) && shown.1@ == Parameter::of_title(
                        parameter@,
                    ).unwrap().shown(changed)
                },
                Err(refusal) => *final(settings) == *old(settings) && (r matches Err(error)
                    && error@ == refusal),
            },
            Err(refusal) => *final(settings) == *old(settings) && (r matches Err(error) && error@
                == refusal),
        },
{
    let mut candidate: LedgerSettings = *settings;
    let shown = set_governance_parameter_value(&mut candidate, parameter, value)?;
    validate_governance_settings(&candidate)?;
    *settings = candidate;
    Ok(shown)
}

/// The settings after the changes of the given epochs have taken effect, in order.
pub open spec fn schedule_applied(
    settings: LedgerSettings,
    epochs: Seq<u64>,
    schedule: Map<u64, Map<Seq<char>, Seq<char>>>,
    current_epoch: u64,
) -> Outcome<LedgerSettings>
    decreases epochs.len(),
{
    if epochs.len() == 0 {
        Ok(settings)
    } else if epochs[0] <= current_epoch {
        Err(
            "scheduled governance parameter epoch "@ + decimal(epochs[0] as nat)
                + " is not after current epoch "@ + decimal(current_epoch as nat),
        )
    } else {
        match changes_applied(settings, schedule[epochs[0]]) {
            Err(refusal) => Err(refusal),
            Ok(changed) => schedule_applied(changed, epochs.drop_first(), schedule, current_epoch),
        }
    }
}

/// Whether every batch of a schedule can take effect in its turn.
pub open spec fn schedule_checked(
    settings: LedgerSettings,
    schedule: Map<u64, Map<Seq<char>, Seq<char>>>,
    current_epoch: u64,
) -> Outcome<()> {
    match schedule_applied(settings, ordered::<u64>(schedule.dom()), schedule, current_epoch) {
        Err(refusal) => Err(refusal),
        Ok(_) => Ok(()),
    }
}

/// Checks that every batch of a schedule can take effect in its turn.
pub fn validate_scheduled_governance_parameter_changes(
    settings: LedgerSettings,
    scheduled_changes: &Table<u64, Table<String, String>>,
    current_epoch: u64,
) -> (r: Result<()>)
    ensures
        outcome(r) == schedule_checked(settings, scheduled_changes@, current_epoch),
{
    let mut reached: LedgerSettings = settings;
    let mut i: usize = 0;
    let ghost epochs = scheduled_changes.keys();
    assert(epochs.skip(0) =~= epochs);
    while i < scheduled_changes.len()
        invariant
            i <= epochs.len(),
            epochs == scheduled_changes.keys(),
            schedule_applied(settings, epochs, scheduled_changes@, current_epoch)
                == schedule_applied(
                reached,
                epochs.skip(i as int),
                scheduled_changes@,
                current_epoch,
            ),
        decreases epochs.len() - i,
    {
        assert(epochs.skip(i as int)[0] == epochs[i as int]);
        assert(epochs.skip(i as int).drop_first() =~= epochs.skip(i as int + 1));
        let epoch: u64 = *scheduled_changes.key_at(i);
        if epoch <= current_epoch {
            return Err(
                Error::owned(
                    join4(
                        "scheduled governance parameter epoch ",
                        u64_text(epoch).as_str(),
                        " is not after current epoch ",
                        u64_text(current_epoch).as_str(),
                    ),
                ),
            );
        }
        reached = apply_governance_parameter_changes(&reached, scheduled_changes.value_at(i))?;
        i = i + 1;
    }
    Ok(())
}

/// Whether a name is that of a parameter which only a critical proposal may change.
pub open spec fn name_is_critical(name: Seq<char>) -> bool {
    match Parameter::of_title(name) {
        Some(parameter) => parameter.critical(),
        None => false,
    }
}

/// Whether a name is that of a parameter of the fee policy.
pub open spec fn name_is_fee_policy(name: Seq<char>) -> bool {
    match Parameter::of_title(name) {
        Some(parameter) => parameter.of_fee_policy(),
        None => false,
    }
}

pub fn governance_parameter_is_critical(parameter: &str) -> (r: bool)
    ensures
        r == name_is_critical(parameter@),
{
    match Parameter::named(parameter) {
        Some(known) => known.is_critical(),
        None => false,
    }
}

pub fn governance_parameter_is_fee_policy(parameter: &str) -> (r: bool)
    ensures
        r == name_is_fee_policy(parameter@),
{
    match Parameter::named(parameter) {
        Some(known) => known.is_fee_policy(),
        None => false,
    }
}

/// Whether a batch touches the fee policy.
pub open spec fn touches_fee_policy(changes: Map<Seq<char>, Seq<char>>) -> bool {
    exists|name: Seq<char>| #[trigger] changes.contains_key(name) && name_is_fee_policy(name)
}

/// Whether a batch touches a parameter which only a critical proposal may change.
pub open spec fn touches_critical(changes: Map<Seq<char>, Seq<char>>) -> bool {
    exists|name: Seq<char>| #[trigger] changes.contains_key(name) && name_is_critical(name)
}

/// Whether a batch sets every parameter of the fee policy.
pub open spec fn sets_whole_fee_policy(changes: Map<Seq<char>, Seq<char>>) -> bool {
    forall|parameter: Parameter| parameter.of_fee_policy() ==> #[trigger] changes.contains_key(
        parameter.title(),
    )
}

pub fn changes_touch_fee_policy(changes: &Table<String, String>) -> (r: bool)
    ensures
        r == touches_fee_policy(changes@),
{
    let mut i: usize = 0;
    while i < changes.len()
        invariant
            i <= changes.keys().len(),
            forall|j: int| 0 <= j < i ==> !name_is_fee_policy(#[trigger] changes.keys()[j]),
        decreases changes.keys().len() - i,
    {
        if governance_parameter_is_fee_policy(changes.key_at(i).as_str()) {
            return true;
        }
        i = i + 1;
    }
    false
}

pub fn changes_touch_critical(changes: &Table<String, String>) -> (r: bool)
    ensures
        r == touches_critical(changes@),
{
    let mut i: usize = 0;
    while i < changes.len()
        invariant
            i <= changes.keys().len(),
            forall|j: int| 0 <= j < i ==> !name_is_critical(#[trigger] changes.keys()[j]),
        decreases changes.keys().len() - i,
    {
        if governance_parameter_is_critical(changes.key_at(i).as_str()) {
            return true;
        }
        i = i + 1;
    }
    false
}

fn has_parameter(changes: &Table<String, String>, parameter: Parameter) -> (r: bool)
    ensures
        r == changes@.contains_key(parameter.title()),
{
    changes.contains_key(&parameter.name().to_owned())
}

pub fn changes_set_whole_fee_policy(changes: &Table<String, String>) -> (r: bool)
    ensures
        r == sets_whole_fee_policy(changes@),
{
    let parameters = Parameter::all();
    let mut i: usize = 0;
    while i < parameters.len()
        invariant
            i <= parameters@.len(),
            parameters@ == Parameter::listed(),
            forall|j: int|
                0 <= j < i && (#[trigger] parameters@[j]).of_fee_policy() ==> changes@.contains_key(
                    parameters@[j].title(),
                ),
        decreases parameters@.len() - i,
    {
        if parameters[i].is_fee_policy() && !has_parameter(changes, parameters[i]) {
            return false;
        }
        i = i + 1;
    }
    assert forall|parameter: Parameter| parameter.of_fee_policy() implies #[trigger] changes@.contains_key(
        parameter.title(),
    ) by {
        Parameter::listed_is_complete(parameter);
        let j = choose|j: int| 0 <= j < parameters@.len() && parameters@[j] == parameter;
        assert(parameters@[j].of_fee_policy());
    }
    true
}

/// A schedule with a batch added: where the epoch has a batch already, the new changes override it.
pub open spec fn schedule_with(
    schedule: Map<u64, Map<Seq<char>, Seq<char>>>,
    epoch: u64,
    changes: Map<Seq<char>, Seq<char>>,
) -> Map<u64, Map<Seq<char>, Seq<char>>> {
    let before = if schedule.contains_key(epoch) {
        schedule[epoch]
    } else {
        Map::empty()
    };
    schedule.insert(epoch, before.union_prefer_right(changes))
}

/// What an accepted batch leads to: the settings, the schedule and the epoch of activation.
pub open spec fn batch_accepted(
    ledger: LedgerModel,
    changes: Map<Seq<char>, Seq<char>>,
    effective_epoch: Option<u64>,
) -> Outcome<(LedgerSettings, Map<u64, Map<Seq<char>, Seq<char>>>, u64)> {
    let current = ledger.epoch_number;
    let earliest = if current <= u64::MAX - 2 {
        (current + 2) as u64
    } else {
        u64::MAX
    };
    if changes == Map::<Seq<char>, Seq<char>>::empty() {
        Err("parameter changes cannot be empty"@)
    } else if touches_fee_policy(changes) && !sets_whole_fee_policy(changes) {
        Err("fee policy changes must provide the complete atomic fee parameter set"@)
    } else if touches_fee_policy(changes) && effective_epoch is None {
        Err("fee policy changes require an explicit future effective Epoch"@)
    } else if touches_fee_policy(changes) && effective_epoch.unwrap() < earliest {
        Err("fee policy changes cannot activate before Epoch "@ + decimal(earliest as nat))
    } else {
        match effective_epoch {
            Some(epoch) => if epoch <= current {
                Err("effective epoch must be greater than current epoch "@ + decimal(current as nat))
            } else {
                let schedule = schedule_with(ledger.scheduled_parameter_changes, epoch, changes);
                match schedule_checked(ledger.settings, schedule, current) {
                    Err(refusal) => Err(refusal),
                    Ok(_) => Ok((ledger.settings, schedule, epoch)),
                }
            },
            None => match changes_applied(ledger.settings, changes) {
                Err(refusal) => Err(refusal),
                Ok(settings) => match schedule_checked(
                    settings,
                    ledger.scheduled_parameter_changes,
                    current,
                ) {
                    Err(refusal) => Err(refusal),
                    Ok(_) => Ok(
                        (
                            settings,
                            ledger.scheduled_parameter_changes,
                            if current < u64::MAX {
                                (current + 1) as u64
                            } else {
                                u64::MAX
                            },
                        ),
                    ),
                },
            },
        }
    }
}

/// Copies changes over those that are there already.
fn extend_changes(target: &mut Table<String, String>, changes: &Table<String, String>)
    ensures
        final(target)@ == old(target)@.union_prefer_right(changes@),
{
    let ghost names = changes.keys();
    let ghost before = target@;
    let mut i: usize = 0;
    while i < changes.len()
        invariant
            i <= names.len(),
            names == changes.keys(),
            forall|k: Seq<char>|
                #[trigger] target@.contains_key(k) <==> before.contains_key(k) || names.take(
                    i as int,
                ).contains(k),
            forall|k: Seq<char>| #[trigger]
                target@.contains_key(k) ==> target@[k] == if names.take(i as int).contains(k) {
                    changes@[k]
                } else {
                    before[k]
                },
        decreases names.len() - i,
    {
        let key = changes.key_at(i).clone();
        let value = changes.value_at(i).clone();
        target.insert(key, value);
        proof {
            let taken = names.take(i as int);
            let next = names.take(i as int + 1);
            assert(next =~= taken.push(names[i as int]));
            assert forall|k: Seq<char>| #[trigger] next.contains(k) <==> taken.contains(k) || k
                == names[i as int] by {
                if taken.contains(k) {
                    let j = choose|j: int| 0 <= j < taken.len() && taken[j] == k;
                    assert(next[j] == k);
                }
                assert(next[i as int] == names[i as int]);
                if next.contains(k) && k != names[i as int] {
                    let j = choose|j: int| 0 <= j < next.len() && next[j] == k;
                    assert(taken[j] == k);
                }
            }
        }
        i = i + 1;
    }
    proof {
        assert(names.take(names.len() as int) =~= names);
        assert(target@ =~= before.union_prefer_right(changes@));
    }
}

/// Checks a batch of changes against the settings and the schedule of a ledger.
pub fn validated_governance_parameter_schedule(
    ledger: &LedgerState,
    changes: &Table<String, String>,
    effective_epoch: Option<u64>,
) -> (r: Result<(LedgerSettings, Table<u64, Table<String, String>>, u64)>)
    ensures
        outcome(r) == batch_accepted(ledger@, changes@, effective_epoch),
{
    if changes.is_empty() {
        return Err(Error::msg("parameter changes cannot be empty"));
    }
    if changes_touch_fee_policy(changes) {
        if !changes_set_whole_fee_policy(changes) {
            return Err(
                Error::msg("fee policy changes must provide the complete atomic fee parameter set"),
            );
        }
        match effective_epoch {
            None => {
                return Err(
                    Error::msg("fee policy changes require an explicit future effective Epoch"),
                );
            },
            Some(epoch) => {
                let earliest: u64 = ledger.epoch_number.saturating_add(2);
                if epoch < earliest {
                    return Err(
                        Error::owned(
                            join2(
                                "fee policy changes cannot activate before Epoch ",
                                u64_text(earliest).as_str(),
                            ),
                        ),
                    );
                }
            },
        }
    }
    let mut schedule = ledger.scheduled_parameter_changes.replicate();
    match effective_epoch {
        Some(epoch) => {
            if epoch <= ledger.epoch_number {
                return Err(
                    Error::owned(
                        join2(
                            "effective epoch must be greater than current epoch ",
                            u64_text(ledger.epoch_number).as_str(),
                        ),
                    ),
                );
            }
            let batch = schedule.entry(epoch, Table::new());
            extend_changes(batch, changes);
            validate_scheduled_governance_parameter_changes(
                ledger.settings,
                &schedule,
                ledger.epoch_number,
            )?;
            Ok((ledger.settings, schedule, epoch))
        },
        None => {
            let settings = apply_governance_parameter_changes(&ledger.settings, changes)?;
            validate_scheduled_governance_parameter_changes(
                settings,
                &schedule,
                ledger.epoch_number,
            )?;
            Ok((settings, schedule, ledger.epoch_number.saturating_add(1)))
        },
    }
}

/// The epoch in which a batch would take effect.
pub fn validate_governance_parameter_batch(
    ledger: &LedgerState,
    changes: &Table<String, String>,
    effective_epoch: Option<u64>,
) -> (r: Result<u64>)
    ensures
        match batch_accepted(ledger@, changes@, effective_epoch) {
            Ok(accepted) => r matches Ok(epoch) && epoch == accepted.2,
            Err(refusal) => r matches Err(error) && error@ == refusal,
        },
{
    let (_, _, epoch) = validated_governance_parameter_schedule(ledger, changes, effective_epoch)?;
    Ok(epoch)
}

/// The ledger after a batch of changes: all of them are taken, or none.
pub open spec fn batch_applied(
    ledger: LedgerModel,
    changes: Map<Seq<char>, Seq<char>>,
    effective_epoch: Option<u64>,
) -> Outcome<LedgerModel> {
    match batch_accepted(ledger, changes, effective_epoch) {
        Err(refusal) => Err(refusal),
        Ok(accepted) => Ok(
            LedgerModel {
                settings: accepted.0,
                scheduled_parameter_changes: accepted.1,
                ..ledger
            },
        ),
    }
}

/// Takes a batch of changes over, and returns the epoch in which it takes effect.
pub fn apply_governance_parameter_batch(
    ledger: &mut LedgerState,
    changes: &Table<String, String>,
    effective_epoch: Option<u64>,
) -> (r: Result<u64>)
    ensures
        match batch_applied(old(ledger)@, changes@, effective_epoch) {
            Ok(changed) => final(ledger)@ == changed && (r matches Ok(epoch) && epoch
                == batch_accepted(old(ledger)@, changes@, effective_epoch)->Ok_0.2),
            Err(refusal) => final(ledger)@ == old(ledger)@ && (r matches Err(error) && error@
                == refusal),
        },
{
    let (settings, schedule, epoch) = validated_governance_parameter_schedule(
        ledger,
        changes,
        effective_epoch,
    )?;
    ledger.settings = settings;
    ledger.scheduled_parameter_changes = schedule;
    Ok(epoch)
}

/// The values that a parameter will have in the given epochs.
pub open spec fn scheduled_values(
    schedule: Map<u64, Map<Seq<char>, Seq<char>>>,
    epochs: Seq<u64>,
    name: Seq<char>,
) -> Seq<ScheduledGovernanceParameterViewModel>
    decreases epochs.len(),
{
    if epochs.len() == 0 {
        Seq::empty()
    } else {
        let earlier = scheduled_values(schedule, epochs.drop_last(), name);
        let epoch = epochs.last();
        if schedule[epoch].contains_key(name) {
            earlier.push(
                ScheduledGovernanceParameterViewModel {
                    effective_epoch: epoch,
                    value: schedule[epoch][name],
                },
            )
        } else {
            earlier
        }
    }
}

/// A parameter with the value in force, the value that has been set and those that are scheduled.
pub open spec fn parameter_shown(
    ledger: LedgerModel,
    parameter: Parameter,
) -> GovernanceParameterViewModel {
    GovernanceParameterViewModel {
        name: parameter.title(),
        category: parameter.group(),
        governance: if parameter.critical() {
            "CRITICAL"@
        } else {
            "STANDARD"@
        },
        current_value: parameter.in_force(ledger),
        configured_value: parameter.shown(ledger.settings),
        scheduled_changes: scheduled_values(
            ledger.scheduled_parameter_changes,
            ordered::<u64>(ledger.scheduled_parameter_changes.dom()),
            parameter.title(),
        ),
    }
}

fn scheduled_parameter_values(
    schedule: &Table<u64, Table<String, String>>,
    name: &str,
) -> (r: Vec<ScheduledGovernanceParameterView>)
    ensures
        r.deep_view() == scheduled_values(schedule@, schedule.keys(), name@),
{
    let key = name.to_owned();
    let mut values: Vec<ScheduledGovernanceParameterView> = Vec::new();
    let ghost epochs = schedule.keys();
    let mut i: usize = 0;
    assert(epochs.take(0) =~= Seq::empty());
    assert(values.deep_view() =~= Seq::empty());
    while i < schedule.len()
        invariant
            i <= epochs.len(),
            epochs == schedule.keys(),
            key@ == name@,
            values.deep_view() == scheduled_values(schedule@, epochs.take(i as int), name@),
        decreases epochs.len() - i,
    {
        assert(epochs.take(i as int + 1).drop_last() =~= epochs.take(i as int));
        let ghost before = values.deep_view();
        if let Some(value) = schedule.value_at(i).get(&key) {
            let entry = ScheduledGovernanceParameterView {
                effective_epoch: *schedule.key_at(i),
                value: value.clone(),
            };
            values.push(entry);
            assert(values.deep_view() =~= before.push(entry.deep_view()));
        }
        i = i + 1;
    }
    assert(epochs.take(epochs.len() as int) =~= epochs);
    values
}

/// Lists every parameter with its values.
pub fn governance_parameter_views(ledger: &LedgerState) -> (r: Vec<GovernanceParameterView>)
    ensures
        r.deep_view() == Parameter::listed().map_values(
            |parameter: Parameter| parameter_shown(ledger@, parameter),
        ),
        r@.len() == 37,
{
    let parameters = Parameter::all();
    let mut views: Vec<GovernanceParameterView> = Vec::new();
    let mut i: usize = 0;
    while i < parameters.len()
        invariant
            i <= parameters@.len(),
            parameters@ == Parameter::listed(),
            views@.len() == i,
            forall|j: int|
                0 <= j < i ==> (#[trigger] views@[j]).deep_view() == parameter_shown(
                    ledger@,
                    parameters@[j],
                ),
        decreases parameters@.len() - i,
    {
        let parameter = parameters[i];
        let governance: &'static str = if parameter.is_critical() {
            "CRITICAL"
        } else {
            "STANDARD"
        };
        let view = GovernanceParameterView {
            name: parameter.name().to_owned(),
            category: parameter.category().to_owned(),
            governance: governance.to_owned(),
            current_value: parameter.show_in_force(ledger),
            configured_value: parameter.show(&ledger.settings),
            scheduled_changes: scheduled_parameter_values(
                &ledger.scheduled_parameter_changes,
                parameter.name(),
            ),
        };
        assert(view.deep_view() == parameter_shown(ledger@, parameter));
        views.push(view);
        i = i + 1;
    }
    assert(views.deep_view() =~= Parameter::listed().map_values(
        |parameter: Parameter| parameter_shown(ledger@, parameter),
    ));
    views
}

/// Settings that a batch of changes has led to are consistent.
pub proof fn applied_settings_are_consistent(
    settings: LedgerSettings,
    changes: Map<Seq<char>, Seq<char>>,
)
    requires
        changes_applied(settings, changes) is Ok,
    ensures
        settings_checked(changes_applied(settings, changes)->Ok_0) is Ok,
{
}

/// The first batch of an accepted schedule takes effect without a refusal, and what remains of the
/// schedule is still accepted then.
pub proof fn accepted_schedule_activates(
    settings: LedgerSettings,
    schedule: Map<u64, Map<Seq<char>, Seq<char>>>,
    epochs: Seq<u64>,
    current_epoch: u64,
)
    requires
        epochs.len() > 0,
        schedule_applied(settings, epochs, schedule, current_epoch) is Ok,
    ensures
        epochs[0] > current_epoch,
        changes_applied(settings, schedule[epochs[0]]) is Ok,
        schedule_applied(
            changes_applied(settings, schedule[epochs[0]])->Ok_0,
            epochs.drop_first(),
            schedule,
            current_epoch,
        ) == schedule_applied(settings, epochs, schedule, current_epoch),
{
}

/// A batch that touches the fee policy never takes effect before the second epoch from now, and
/// leaves the settings in force as they are.
pub proof fn fee_policy_changes_are_delayed(
    ledger: LedgerModel,
    changes: Map<Seq<char>, Seq<char>>,
    effective_epoch: Option<u64>,
)
    requires
        touches_fee_policy(changes),
        batch_accepted(ledger, changes, effective_epoch) is Ok,
        ledger.epoch_number < u64::MAX - 2,
    ensures
        batch_accepted(ledger, changes, effective_epoch)->Ok_0.2 >= ledger.epoch_number + 2,
        batch_accepted(ledger, changes, effective_epoch)->Ok_0.0 == ledger.settings,
        sets_whole_fee_policy(changes),
{
}

/// A batch with an epoch of its own leaves the settings in force, and the batches of all other
/// epochs, as they are.
pub proof fn scheduling_keeps_other_epochs(
    ledger: LedgerModel,
    changes: Map<Seq<char>, Seq<char>>,
    epoch: u64,
    other: u64,
)
    requires
        batch_applied(ledger, changes, Some(epoch)) is Ok,
        other != epoch,
    ensures
        batch_applied(ledger, changes, Some(epoch))->Ok_0.settings == ledger.settings,
        batch_applied(ledger, changes, Some(epoch))->Ok_0.scheduled_parameter_changes.contains_key(
            other,
        ) == ledger.scheduled_parameter_changes.contains_key(other),
        ledger.scheduled_parameter_changes.contains_key(other) ==> batch_applied(
            ledger,
            changes,
            Some(epoch),
        )->Ok_0.scheduled_parameter_changes[other] == ledger.scheduled_parameter_changes[other],
        forall|name: Seq<char>| #[trigger]
            changes.contains_key(name) ==> batch_applied(
                ledger,
                changes,
                Some(epoch),
            )->Ok_0.scheduled_parameter_changes[epoch][name] == changes[name],
{
}

/// A parameter that has been set has the value that it was set to.
#[verifier::rlimit(60)]
#[verifier::spinoff_prover]
proof fn set_parameter_has_its_value(
    settings: LedgerSettings,
    parameter: Parameter,
    text: Seq<char>,
)
    requires
        value_for(parameter, text) is Ok,
    ensures
        parameter.value(parameter.replaced(settings, value_for(parameter, text)->Ok_0))
            == value_for(parameter, text)->Ok_0,
{
}

#[verifier::rlimit(60)]
#[verifier::spinoff_prover]
proof fn names_are_apart(first: Seq<char>, second: Seq<char>)
    requires
        Parameter::of_title(first) is Some,
        Parameter::of_title(first) == Parameter::of_title(second),
    ensures
        first == second,
{
}

proof fn named_parameters_are_set(
    settings: LedgerSettings,
    names: Seq<Seq<char>>,
    changes: Map<Seq<char>, Seq<char>>,
    parameter: Parameter,
)
    requires
        names.no_duplicates(),
        parameters_set(settings, names, changes) is Ok,
    ensures
        ({
            let after = parameters_set(settings, names, changes)->Ok_0;
            &&& forall|i: int|
                0 <= i < names.len() && Parameter::of_title(#[trigger] names[i]) == Some(parameter)
                    ==> (value_for(parameter, changes[names[i]]) matches Ok(number)
                    && parameter.value(after) == number)
            &&& (forall|i: int|
                0 <= i < names.len() ==> Parameter::of_title(#[trigger] names[i]) != Some(
                    parameter,
                )) ==> parameter.value(after) == parameter.value(settings)
            &&& forall|i: int|
                0 <= i < names.len() ==> Parameter::of_title(#[trigger] names[i]) is Some
        }),
    decreases names.len(),
{
    if names.len() > 0 {
        let rest = names.drop_last();
        let name = names.last();
        named_parameters_are_set(settings, rest, changes, parameter);
        let so_far = parameters_set(settings, rest, changes)->Ok_0;
        let after = parameters_set(settings, names, changes)->Ok_0;
        let set = Parameter::of_title(name).unwrap();
        let number = value_for(set, changes[name])->Ok_0;
        assert(after == set.replaced(so_far, number));
        assert(names[names.len() - 1] == name);
        if set == parameter {
            set_parameter_has_its_value(so_far, parameter, changes[name]);
            assert forall|i: int|
                0 <= i < names.len() && Parameter::of_title(#[trigger] names[i]) == Some(
                    parameter,
                ) implies (value_for(parameter, changes[names[i]]) matches Ok(number)
                && parameter.value(after) == number) by {
                names_are_apart(names[i], name);
            }
        } else {
            crate::parameter::replacing_keeps_other_parameters(so_far, set, parameter, number);
            assert forall|i: int|
                0 <= i < names.len() && Parameter::of_title(#[trigger] names[i]) == Some(
                    parameter,
                ) implies (value_for(parameter, changes[names[i]]) matches Ok(number)
                && parameter.value(after) == number) by {
                assert(rest[i] == names[i]);
            }
            if forall|i: int|
                0 <= i < names.len() ==> Parameter::of_title(#[trigger] names[i]) != Some(
                    parameter,
                ) {
                assert forall|i: int| 0 <= i < rest.len() implies Parameter::of_title(
                    #[trigger] rest[i],
                ) != Some(parameter) by {
                    assert(rest[i] == names[i]);
                }
            }
        }
        assert forall|i: int| 0 <= i < names.len() implies Parameter::of_title(
            #[trigger] names[i],
        ) is Some by {
            if i < rest.len() {
                assert(rest[i] == names[i]);
            }
        }
    }
}

/// A batch of changes sets the parameters that it names to the values that it gives, and leaves every
/// other parameter as it was.
pub proof fn changed_parameters_have_their_values(
    settings: LedgerSettings,
    changes: Map<Seq<char>, Seq<char>>,
    parameter: Parameter,
)
    requires
        changes.dom().finite(),
        changes_applied(settings, changes) is Ok,
    ensures
        ({
            let after = changes_applied(settings, changes)->Ok_0;
            &&& forall|name: Seq<char>| #[trigger]
                changes.contains_key(name) && Parameter::of_title(name) == Some(parameter) ==> (
                value_for(parameter, changes[name]) matches Ok(number) && parameter.value(after)
                    == number)
            &&& (forall|name: Seq<char>| #[trigger]
                changes.contains_key(name) ==> Parameter::of_title(name) != Some(parameter))
                ==> parameter.value(after) == parameter.value(settings)
            &&& forall|name: Seq<char>| #[trigger]
                changes.contains_key(name) ==> Parameter::of_title(name) is Some
        }),
{
    let names = ordered::<String>(changes.dom());
    crate::table::ordered_lists_all::<String>(changes.dom());
    named_parameters_are_set(settings, names, changes, parameter);
    let candidate = parameters_set(settings, names, changes)->Ok_0;
    let after = changes_applied(settings, changes)->Ok_0;
    versions_are_no_parameter(candidate, after, parameter);
    assert forall|name: Seq<char>| #[trigger] changes.contains_key(name) implies names.contains(
        name,
    ) by {
        assert(changes.dom().contains(name));
    }
    assert forall|name: Seq<char>| #[trigger]
        changes.contains_key(name) && Parameter::of_title(name) == Some(parameter) implies (
    value_for(parameter, changes[name]) matches Ok(number) && parameter.value(after) == number) by {
        assert(names.contains(name));
        let i = choose|i: int| 0 <= i < names.len() && names[i] == name;
        assert(names[i] == name);
    }
    assert forall|name: Seq<char>| #[trigger] changes.contains_key(name) implies
        Parameter::of_title(name) is Some by {
        assert(names.contains(name));
        let i = choose|i: int| 0 <= i < names.len() && names[i] == name;
        assert(Parameter::of_title(names[i]) is Some);
    }
    if forall|name: Seq<char>| #[trigger]
        changes.contains_key(name) ==> Parameter::of_title(name) != Some(parameter) {
        assert forall|i: int| 0 <= i < names.len() implies Parameter::of_title(#[trigger] names[i])
            != Some(parameter) by {
            assert(names.contains(names[i]));
            assert(changes.dom().contains(names[i]));
            assert(changes.contains_key(names[i]));
        }
    }
}

proof fn versions_are_no_parameter(
    first: LedgerSettings,
    second: LedgerSettings,
    parameter: Parameter,
)
    requires
        second == (LedgerSettings {
            fee_policy: crate::model::FeePolicy {
                version: second.fee_policy.version,
                ..first.fee_policy
            },
            ..first
        }),
    ensures
        parameter.value(second) == parameter.value(first),
{
}

/// Settings that a batch has led to fit together: an epoch is a whole number of slots, a probe is valid
/// for at least a slot, no quorum is larger than those who are asked, at most a third of the committee
/// rotates, and the bounds of the fee multiplier are in order. The base fee at most doubles and at most
/// halves, and the version of the fee policy rises by one exactly when the policy changes.
pub proof fn applied_settings_fit_together(
    settings: LedgerSettings,
    changes: Map<Seq<char>, Seq<char>>,
)
    requires
        changes_applied(settings, changes) is Ok,
    ensures
        ({
            let after = changes_applied(settings, changes)->Ok_0;
            let before = settings.fee_policy;
            let policy = after.fee_policy;
            &&& after.availability_slot_seconds != 0
            &&& after.availability_slot_seconds <= after.epoch_seconds
            &&& after.epoch_seconds as int % after.availability_slot_seconds as int == 0
            &&& after.availability_slot_seconds <= after.probe_validity_seconds
            &&& after.availability_quorum <= after.availability_verifier_count
            &&& after.availability_audit_quorum <= after.availability_auditor_count
            &&& 3 * after.max_validator_rotations <= after.max_active_validators
            &&& policy.min_multiplier_bps <= policy.max_multiplier_bps
            &&& policy != before ==> policy.base_fee_per_unit <= 2 * before.base_fee_per_unit
                && before.base_fee_per_unit <= 2 * policy.base_fee_per_unit
            &&& changes != Map::<Seq<char>, Seq<char>>::empty()
        }),
{
}

/// A batch with an epoch takes effect in that epoch, which lies ahead, and one without an epoch at
/// once.
pub proof fn batches_take_effect_in_their_epoch(
    ledger: LedgerModel,
    changes: Map<Seq<char>, Seq<char>>,
    effective_epoch: Option<u64>,
)
    requires
        batch_applied(ledger, changes, effective_epoch) is Ok,
    ensures
        ({
            let after = batch_applied(ledger, changes, effective_epoch)->Ok_0;
            &&& effective_epoch matches Some(epoch) ==> {
                &&& ledger.epoch_number < epoch
                &&& after.settings == ledger.settings
                &&& after.scheduled_parameter_changes.contains_key(epoch)
                &&& !ledger.scheduled_parameter_changes.contains_key(epoch)
                    ==> after.scheduled_parameter_changes[epoch] == changes
            }
            &&& effective_epoch is None ==> {
                &&& changes_applied(ledger.settings, changes) == Ok::<LedgerSettings, Seq<char>>(
                    after.settings,
                )
                &&& after.scheduled_parameter_changes == ledger.scheduled_parameter_changes
                &&& !touches_fee_policy(changes)
            }
            &&& after.accounts == ledger.accounts
            &&& after.nodes == ledger.nodes
        }),
{
    if effective_epoch is Some {
        let none = Map::<Seq<char>, Seq<char>>::empty();
        assert(none.union_prefer_right(changes) =~= changes);
    }
}

} // verus!
