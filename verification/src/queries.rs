use vstd::prelude::*;
use vstd::string::*;

use crate::accounts::{account_of, balance_of};
use crate::amount::{format_mrk, mrk_text};
use crate::crypto::{address_checked, validate_address};
use crate::error::{outcome, Error, Outcome, Result};
use crate::fees::{quote, quoted};
use crate::model::{
    LedgerModel, LedgerState, OperationModel, OperationRecord, SpendModel, TreasurySpendRecord,
};
use crate::nodes::{eligible_ids, governance_eligible_node_ids};
use crate::number::{clamped_i64, least, saturating_sub_i64};
use crate::protocol::{
    CRITICAL_GOVERNANCE_NODE_THRESHOLD, MIN_ACTIVE_VALIDATORS, SECONDS_PER_DAY,
    TREASURY_ANNUAL_SPEND_BPS, TREASURY_NINETY_DAY_SPEND_BPS, TREASURY_SINGLE_SPEND_BPS,
};
use crate::table::Replicate;
use crate::treasury::{spent_checked, treasury_limit, treasury_share, treasury_spent_since};
use crate::views::{
    BalanceView, BalanceViewModel, FeeQuoteView, FeeQuoteViewModel, TreasuryStatusView,
    TreasuryStatusViewModel,
};
use crate::voting::{treasury_governance_node_ids, treasury_ids};

verus! {

/// What an operation that takes some fee units would cost, as it is shown.
pub open spec fn quote_shown(ledger: LedgerModel, units: u64) -> Outcome<FeeQuoteViewModel> {
    match quoted(ledger, units) {
        Err(refusal) => Err(refusal),
        Ok(found) => Ok(
            FeeQuoteViewModel {
                policy_version: found.policy_version,
                multiplier_bps: ledger.fee_multiplier_bps,
                units: found.units,
                fee: found.fee,
                fee_display: mrk_text(found.fee as nat),
                recommended_max_fee: found.recommended_max_fee,
                recommended_max_fee_display: mrk_text(found.recommended_max_fee as nat),
            },
        ),
    }
}

/// Shows what an operation that takes some fee units would cost.
pub fn fee_quote(ledger: &LedgerState, units: u64) -> (r: Result<FeeQuoteView>)
    ensures
        outcome(r) == quote_shown(ledger@, units),
{
    let found = quote(ledger, units)?;
    Ok(
        FeeQuoteView {
            policy_version: found.policy_version,
            multiplier_bps: ledger.fee_multiplier_bps,
            units: found.units,
            fee: found.fee,
            fee_display: format_mrk(found.fee),
            recommended_max_fee: found.recommended_max_fee,
            recommended_max_fee_display: format_mrk(found.recommended_max_fee),
        },
    )
}

/// What an address has, as it is shown.
pub open spec fn balance_shown(ledger: LedgerModel, address: Seq<char>) -> Outcome<BalanceViewModel> {
    match address_checked(address) {
        Err(refusal) => Err(refusal),
        Ok(_) => Ok(
            BalanceViewModel {
                address,
                balance: balance_of(ledger, address),
                balance_display: mrk_text(balance_of(ledger, address) as nat),
                nonce: account_of(ledger, address).nonce,
            },
        ),
    }
}

/// Shows what an address has.
pub fn balance(ledger: &LedgerState, address: &str) -> (r: Result<BalanceView>)
    ensures
        outcome(r) == balance_shown(ledger@, address@),
{
    validate_address(address)?;
    let (balance, nonce): (u128, u64) = match ledger.accounts.get(&address.to_owned()) {
        Some(account) => (account.balance, account.nonce),
        None => (0, 0),
    };
    Ok(
        BalanceView {
            address: address.to_owned(),
            balance,
            balance_display: format_mrk(balance),
            nonce,
        },
    )
}

/// The operations of a list that are known, the last of the list first.
pub open spec fn known_backwards(
    operations: Map<Seq<char>, OperationModel>,
    ids: Seq<Seq<char>>,
) -> Seq<OperationModel>
    decreases ids.len(),
{
    if ids.len() == 0 {
        Seq::empty()
    } else if operations.contains_key(ids.last()) {
        seq![operations[ids.last()]] + known_backwards(operations, ids.drop_last())
    } else {
        known_backwards(operations, ids.drop_last())
    }
}

/// The latest operations of an address, the latest first.
pub open spec fn history_of(ledger: LedgerModel, address: Seq<char>, limit: usize) -> Outcome<
    Seq<OperationModel>,
> {
    match address_checked(address) {
        Err(refusal) => Err(refusal),
        Ok(_) => {
            let ids = account_of(ledger, address).operation_ids;
            Ok(
                known_backwards(
                    ledger.operations,
                    ids.skip(ids.len() - least(limit as int, ids.len() as int)),
                ),
            )
        },
    }
}

/// Lists the latest operations of an address, the latest first.
pub fn account_history(ledger: &LedgerState, address: &str, limit: usize) -> (r: Result<
    Vec<OperationRecord>,
>)
    ensures
        match history_of(ledger@, address@, limit) {
            Ok(operations) => r matches Ok(list) && list.deep_view() == operations,
            Err(refusal) => r matches Err(error) && error@ == refusal,
        },
{
    validate_address(address)?;
    let mut out: Vec<OperationRecord> = Vec::new();
    let account = match ledger.accounts.get(&address.to_owned()) {
        None => {
            assert(out.deep_view() =~= Seq::<OperationModel>::empty());
            return Ok(out);
        },
        Some(account) => account,
    };
    let ghost ids = account.operation_ids.deep_view();
    let count: usize = account.operation_ids.len();
    let end: usize = if limit < count {
        count - limit
    } else {
        0
    };
    let ghost shown = ids.skip(end as int);
    let mut i: usize = count;
    assert(shown.take(count - end) =~= shown);
    assert(out.deep_view() + known_backwards(ledger@.operations, shown) =~= known_backwards(
        ledger@.operations,
        shown,
    ));
    while i > end
        invariant
            end <= i <= count,
            count == ids.len(),
            ids == account.operation_ids.deep_view(),
            count == account.operation_ids@.len(),
            shown == ids.skip(end as int),
            out.deep_view() + known_backwards(ledger@.operations, shown.take(i - end))
                == known_backwards(ledger@.operations, shown),
        decreases i,
    {
        i = i - 1;
        let ghost before = out.deep_view();
        assert(shown.take(i - end + 1).drop_last() =~= shown.take(i - end));
        assert(shown.take(i - end + 1).last() == account.operation_ids@[i as int]@);
        if let Some(operation) = ledger.operations.get(&account.operation_ids[i]) {
            let copy = operation.replicate();
            out.push(copy);
            assert(out.deep_view() =~= before.push(copy.deep_view()));
            assert(before + (seq![copy.deep_view()] + known_backwards(
                ledger@.operations,
                shown.take(i - end),
            )) =~= out.deep_view() + known_backwards(ledger@.operations, shown.take(i - end)));
        }
    }
    assert(shown.take(0) =~= Seq::<Seq<char>>::empty());
    assert(out.deep_view() =~= known_backwards(ledger@.operations, shown));
    Ok(out)
}

/// All that was paid out of the treasury.
pub open spec fn spent_in_all(spends: Seq<SpendModel>) -> nat
    decreases spends.len(),
{
    if spends.len() == 0 {
        0
    } else {
        spent_in_all(spends.drop_last()) + spends.last().amount as nat
    }
}

proof fn spending_grows(spends: Seq<SpendModel>, count: int)
    requires
        0 <= count <= spends.len(),
    ensures
        spent_in_all(spends.take(count)) <= spent_in_all(spends),
    decreases spends.len(),
{
    if count == spends.len() {
        assert(spends.take(count) =~= spends);
    } else {
        assert(spends.drop_last().take(count) =~= spends.take(count));
        spending_grows(spends.drop_last(), count);
    }
}

fn sum_spent(spends: &Vec<TreasurySpendRecord>) -> (r: Option<u128>)
    ensures
        match r {
            Some(total) => total == spent_in_all(spends.deep_view()),
            None => spent_in_all(spends.deep_view()) > u128::MAX,
        },
{
    let ghost all = spends.deep_view();
    let mut total: u128 = 0;
    let mut i: usize = 0;
    assert(all.take(0) =~= Seq::<SpendModel>::empty());
    while i < spends.len()
        invariant
            i <= all.len(),
            all == spends.deep_view(),
            all.len() == spends@.len(),
            total == spent_in_all(all.take(i as int)),
        decreases all.len() - i,
    {
        assert(all.take(i + 1).drop_last() =~= all.take(i as int));
        assert(all.take(i + 1).last() == spends@[i as int].deep_view());
        match total.checked_add(spends[i].amount) {
            None => {
                proof {
                    spending_grows(all, i + 1);
                }
                return None;
            },
            Some(sum) => {
                total = sum;
            },
        }
        i = i + 1;
    }
    assert(all.take(all.len() as int) =~= all);
    Some(total)
}

/// The treasury and its limits, as they are shown.
pub open spec fn treasury_shown(ledger: LedgerModel, now: i64) -> Outcome<TreasuryStatusViewModel> {
    let total = spent_in_all(ledger.treasury_spends);
    let mature = treasury_ids(ledger, now).len();
    let active = ledger.consensus.active_validators.len();
    let limit = treasury_share(ledger.treasury, TREASURY_SINGLE_SPEND_BPS);
    let ninety_limit = treasury_share(ledger.treasury, TREASURY_NINETY_DAY_SPEND_BPS);
    let annual_limit = treasury_share(ledger.treasury, TREASURY_ANNUAL_SPEND_BPS);
    if total > u128::MAX {
        Err("treasury spend history overflow"@)
    } else {
        match spent_checked(ledger, clamped_i64(now - 90 * SECONDS_PER_DAY)) {
            Err(refusal) => Err(refusal),
            Ok(ninety) => match spent_checked(ledger, clamped_i64(now - 365 * SECONDS_PER_DAY)) {
                Err(refusal) => Err(refusal),
                Ok(annual) => Ok(
                    TreasuryStatusViewModel {
                        balance: ledger.treasury,
                        balance_display: mrk_text(ledger.treasury as nat),
                        genesis_allocation: ledger.genesis_treasury_minted,
                        genesis_allocation_display: mrk_text(
                            ledger.genesis_treasury_minted as nat,
                        ),
                        total_spent: total as u128,
                        total_spent_display: mrk_text(total),
                        spend_count: ledger.treasury_spends.len() as usize,
                        governance_eligible_count: eligible_ids(ledger, now).len() as usize,
                        active_validator_count: active as usize,
                        minimum_active_validators: MIN_ACTIVE_VALIDATORS,
                        spending_enabled: mature >= CRITICAL_GOVERNANCE_NODE_THRESHOLD && active
                            >= MIN_ACTIVE_VALIDATORS,
                        single_spend_limit_bps: TREASURY_SINGLE_SPEND_BPS,
                        current_single_spend_limit: limit,
                        current_single_spend_limit_display: mrk_text(limit as nat),
                        mature_governance_node_count: mature as usize,
                        minimum_mature_governance_nodes: CRITICAL_GOVERNANCE_NODE_THRESHOLD,
                        ninety_day_spent: ninety,
                        ninety_day_spent_display: mrk_text(ninety as nat),
                        ninety_day_limit: ninety_limit,
                        ninety_day_limit_display: mrk_text(ninety_limit as nat),
                        annual_spent: annual,
                        annual_spent_display: mrk_text(annual as nat),
                        annual_limit,
                        annual_limit_display: mrk_text(annual_limit as nat),
                    },
                ),
            },
        }
    }
}

/// Shows the treasury and its limits.
pub fn treasury_status(ledger: &LedgerState, now: i64) -> (r: Result<TreasuryStatusView>)
    ensures
        outcome(r) == treasury_shown(ledger@, now),
{
    let eligible: usize = governance_eligible_node_ids(ledger, now).len();
    let mature: usize = treasury_governance_node_ids(ledger, now).len();
    let active: usize = ledger.consensus.active_validators.len();
    let total_spent: u128 = match sum_spent(&ledger.treasury_spends) {
        None => {
            return Err(Error::msg("treasury spend history overflow"));
        },
        Some(total) => total,
    };
    let limit = treasury_limit(ledger.treasury, TREASURY_SINGLE_SPEND_BPS);
    let ninety_day_spent = treasury_spent_since(
        ledger,
        saturating_sub_i64(now, 90 * SECONDS_PER_DAY),
    )?;
    let annual_spent = treasury_spent_since(
        ledger,
        saturating_sub_i64(now, 365 * SECONDS_PER_DAY),
    )?;
    let ninety_day_limit = treasury_limit(ledger.treasury, TREASURY_NINETY_DAY_SPEND_BPS);
    let annual_limit = treasury_limit(ledger.treasury, TREASURY_ANNUAL_SPEND_BPS);
    Ok(
        TreasuryStatusView {
            balance: ledger.treasury,
            balance_display: format_mrk(ledger.treasury),
            genesis_allocation: ledger.genesis_treasury_minted,
            genesis_allocation_display: format_mrk(ledger.genesis_treasury_minted),
            total_spent,
            total_spent_display: format_mrk(total_spent),
            spend_count: ledger.treasury_spends.len(),
            governance_eligible_count: eligible,
            active_validator_count: active,
            minimum_active_validators: MIN_ACTIVE_VALIDATORS,
            spending_enabled: mature >= CRITICAL_GOVERNANCE_NODE_THRESHOLD && active
                >= MIN_ACTIVE_VALIDATORS,
            single_spend_limit_bps: TREASURY_SINGLE_SPEND_BPS,
            current_single_spend_limit: limit,
            current_single_spend_limit_display: format_mrk(limit),
            mature_governance_node_count: mature,
            minimum_mature_governance_nodes: CRITICAL_GOVERNANCE_NODE_THRESHOLD,
            ninety_day_spent,
            ninety_day_spent_display: format_mrk(ninety_day_spent),
            ninety_day_limit,
            ninety_day_limit_display: format_mrk(ninety_day_limit),
            annual_spent,
            annual_spent_display: format_mrk(annual_spent),
            annual_limit,
            annual_limit_display: format_mrk(annual_limit),
        },
    )
}

/// The latest payments out of the treasury, the latest first.
pub open spec fn latest_spends(spends: Seq<SpendModel>, limit: usize) -> Seq<SpendModel> {
    let shown = least(least(limit as int, 1_000), spends.len() as int);
    Seq::new(shown as nat, |i: int| spends[spends.len() - 1 - i])
}

/// Lists the latest payments out of the treasury, the latest first.
pub fn treasury_history(ledger: &LedgerState, limit: usize) -> (r: Vec<TreasurySpendRecord>)
    ensures
        r.deep_view() == latest_spends(ledger@.treasury_spends, limit),
{
    let ghost spends = ledger.treasury_spends.deep_view();
    let ghost wanted = latest_spends(spends, limit);
    let count: usize = ledger.treasury_spends.len();
    let bound: usize = if limit < 1_000 {
        limit
    } else {
        1_000
    };
    let shown: usize = if bound < count {
        bound
    } else {
        count
    };
    let mut out: Vec<TreasurySpendRecord> = Vec::new();
    let mut i: usize = 0;
    assert(out.deep_view() =~= wanted.take(0));
    while i < shown
        invariant
            i <= shown <= count,
            count == spends.len(),
            shown == wanted.len(),
            spends == ledger.treasury_spends.deep_view(),
            count == ledger.treasury_spends@.len(),
            wanted == latest_spends(spends, limit),
            out.deep_view() == wanted.take(i as int),
        decreases shown - i,
    {
        let ghost before = out.deep_view();
        let spend = ledger.treasury_spends[count - 1 - i].replicate();
        assert(spend.deep_view() == spends[spends.len() - 1 - i]);
        out.push(spend);
        assert(out.deep_view() =~= before.push(spend.deep_view()));
        assert(wanted.take(i + 1) =~= wanted.take(i as int).push(wanted[i as int]));
        i = i + 1;
    }
    assert(wanted.take(shown as int) =~= wanted);
    out
}

/// The history of an address lists its latest operations, as many as asked for, the latest first.
pub proof fn latest_operations_come_first(ledger: LedgerModel, address: Seq<char>, limit: usize)
    requires
        history_of(ledger, address, limit) is Ok,
        ledger.accounts.contains_key(address),
        forall|i: int|
            0 <= i < ledger.accounts[address].operation_ids.len() ==> ledger.operations.contains_key(
                #[trigger] ledger.accounts[address].operation_ids[i],
            ),
    ensures
        ({
            let ids = ledger.accounts[address].operation_ids;
            let listed = history_of(ledger, address, limit)->Ok_0;
            &&& limit <= ids.len() ==> listed.len() == limit
            &&& limit >= ids.len() ==> listed.len() == ids.len()
            &&& forall|i: int|
                0 <= i < listed.len() ==> #[trigger] listed[i] == ledger.operations[ids[ids.len() - 1
                    - i]]
        }),
{
    let ids = ledger.accounts[address].operation_ids;
    let shown = ids.skip(ids.len() - least(limit as int, ids.len() as int));
    assert forall|i: int| 0 <= i < shown.len() implies ledger.operations.contains_key(
        #[trigger] shown[i],
    ) by {
        assert(shown[i] == ids[ids.len() - shown.len() + i]);
    }
    backwards_is_from_the_end(ledger.operations, shown);
}

proof fn backwards_is_from_the_end(
    operations: Map<Seq<char>, OperationModel>,
    ids: Seq<Seq<char>>,
)
    requires
        forall|i: int| 0 <= i < ids.len() ==> operations.contains_key(#[trigger] ids[i]),
    ensures
        known_backwards(operations, ids).len() == ids.len(),
        forall|i: int|
            0 <= i < ids.len() ==> #[trigger] known_backwards(operations, ids)[i]
                == operations[ids[ids.len() - 1 - i]],
    decreases ids.len(),
{
    if ids.len() > 0 {
        let rest = ids.drop_last();
        assert forall|i: int| 0 <= i < rest.len() implies operations.contains_key(
            #[trigger] rest[i],
        ) by {
            assert(rest[i] == ids[i]);
        }
        backwards_is_from_the_end(operations, rest);
        assert(operations.contains_key(ids[ids.len() - 1]));
        assert forall|i: int| 0 <= i < ids.len() implies #[trigger] known_backwards(
            operations,
            ids,
        )[i] == operations[ids[ids.len() - 1 - i]] by {
            if i > 0 {
                assert(known_backwards(operations, ids)[i] == known_backwards(operations, rest)[i
                    - 1]);
                assert(rest[rest.len() - 1 - (i - 1)] == ids[ids.len() - 1 - i]);
            }
        }
    }
}

/// A single payment may take a hundredth of the treasury, those of ninety days a fiftieth, and those
/// of a year a twentieth, rounded down; and payments need fifty nodes that have served long and four
/// validators.
pub proof fn treasury_shows_its_limits(ledger: LedgerModel, now: i64)
    requires
        treasury_shown(ledger, now) is Ok,
        ledger.treasury <= u128::MAX / 10_000,
    ensures
        ({
            let shown = treasury_shown(ledger, now)->Ok_0;
            &&& shown.balance == ledger.treasury
            &&& shown.current_single_spend_limit * 100 <= ledger.treasury < (
            shown.current_single_spend_limit + 1) * 100
            &&& shown.ninety_day_limit * 50 <= ledger.treasury < (shown.ninety_day_limit + 1) * 50
            &&& shown.annual_limit * 20 <= ledger.treasury < (shown.annual_limit + 1) * 20
            &&& shown.total_spent == spent_in_all(ledger.treasury_spends)
            &&& shown.spending_enabled <==> treasury_ids(ledger, now).len() >= 50
                && ledger.consensus.active_validators.len() >= 4
        }),
{
}

/// Each payment out of the treasury adds its amount to what was spent in all.
pub proof fn payments_add_to_what_was_spent(spends: Seq<SpendModel>, spend: SpendModel)
    ensures
        spent_in_all(spends.push(spend)) == spent_in_all(spends) + spend.amount,
        spent_in_all(Seq::empty()) == 0,
{
    assert(spends.push(spend).drop_last() =~= spends);
}

} // verus!
