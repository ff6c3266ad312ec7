use vstd::prelude::*;
use vstd::string::*;
use vstd::utf8::*;

use crate::accounts::{paid_to, pay_account};
use crate::amount::{format_mrk, mrk_text};
use crate::crypto::{address_checked, validate_address};
use crate::error::{outcome, Error, Outcome, Result};
use crate::model::{LedgerModel, LedgerState, SpendModel};
use crate::number::{clamped_i64, clamped_u128, saturating_mul_u128, saturating_sub_i64};
use crate::protocol::{
    TREASURY_ANNUAL_SPEND_BPS, TREASURY_NINETY_DAY_SPEND_BPS, TREASURY_SINGLE_SPEND_BPS,
};
use crate::text::{bytes_have_prefix, has_prefix, is_hex_digest, is_hex_digest_at, join2, join5};

verus! {

/// What was paid out of the treasury after a time.
pub open spec fn spent_since(spends: Seq<SpendModel>, since: i64) -> nat
    decreases spends.len(),
{
    if spends.len() == 0 {
        0
    } else {
        spent_since(spends.drop_last(), since) + if spends.last().executed_at > since {
            spends.last().amount as nat
        } else {
            0
        }
    }
}

pub open spec fn spent_checked(ledger: LedgerModel, since: i64) -> Outcome<u128> {
    if spent_since(ledger.treasury_spends, since) > u128::MAX {
        Err("treasury rolling spend calculation overflow"@)
    } else {
        Ok(spent_since(ledger.treasury_spends, since) as u128)
    }
}

proof fn spent_grows(spends: Seq<SpendModel>, since: i64, count: int)
    requires
        0 <= count <= spends.len(),
    ensures
        spent_since(spends.take(count), since) <= spent_since(spends, since),
    decreases spends.len(),
{
    if count == spends.len() {
        assert(spends.take(count) =~= spends);
    } else {
        assert(spends.drop_last().take(count) =~= spends.take(count));
        spent_grows(spends.drop_last(), since, count);
    }
}

/// Adds up what was paid out of the treasury after a time.
pub fn treasury_spent_since(ledger: &LedgerState, since: i64) -> (r: Result<u128>)
    ensures
        outcome(r) == spent_checked(ledger@, since),
{
    let ghost spends = ledger.treasury_spends.deep_view();
    let mut total: u128 = 0;
    let mut i: usize = 0;
    assert(spends.take(0) =~= Seq::empty());
    while i < ledger.treasury_spends.len()
        invariant
            i <= spends.len(),
            spends == ledger.treasury_spends.deep_view(),
            total == spent_since(spends.take(i as int), since),
        decreases spends.len() - i,
    {
        assert(spends.take(i as int + 1).drop_last() =~= spends.take(i as int));
        assert(spends.take(i as int + 1).last() == ledger.treasury_spends@[i as int].deep_view());
        let spend = &ledger.treasury_spends[i];
        if spend.executed_at > since {
            match total.checked_add(spend.amount) {
                None => {
                    proof {
                        spent_grows(spends, since, i as int + 1);
                    }
                    return Err(Error::msg("treasury rolling spend calculation overflow"));
                },
                Some(sum) => {
                    total = sum;
                },
            }
        }
        i = i + 1;
    }
    assert(spends.take(spends.len() as int) =~= spends);
    Ok(total)
}

/// A share of the treasury, in basis points.
pub open spec fn treasury_share(treasury: u128, bps: u128) -> u128 {
    clamped_u128(treasury * bps) / 10_000
}

pub fn treasury_limit(treasury: u128, bps: u128) -> (r: u128)
    ensures
        r == treasury_share(treasury, bps),
{
    saturating_mul_u128(treasury, bps) / 10_000
}

/// Whether an amount may be paid out of the treasury: not more than is there, than one percent at
/// once, than two percent within ninety days, and than five percent within a year.
pub open spec fn spend_checked(ledger: LedgerModel, amount: u128, now: i64) -> Outcome<()> {
    let treasury = ledger.treasury;
    let single = treasury_share(treasury, TREASURY_SINGLE_SPEND_BPS);
    let ninety_days = treasury_share(treasury, TREASURY_NINETY_DAY_SPEND_BPS);
    let annual = treasury_share(treasury, TREASURY_ANNUAL_SPEND_BPS);
    if amount == 0 {
        Err("TreasurySpend amount must be greater than zero"@)
    } else if amount > treasury {
        Err("TreasurySpend exceeds the available treasury balance"@)
    } else if amount > single {
        Err("TreasurySpend exceeds the 1% single-proposal limit of "@ + mrk_text(single as nat))
    } else {
        match spent_checked(ledger, clamped_i64(now - 90 * 86_400)) {
            Err(refusal) => Err(refusal),
            Ok(recent) => if clamped_u128(recent + amount) > ninety_days {
                Err(
                    "TreasurySpend exceeds the rolling 90-day 2% limit of "@ + mrk_text(
                        ninety_days as nat,
                    ) + " (already spent "@ + mrk_text(recent as nat) + ")"@,
                )
            } else {
                match spent_checked(ledger, clamped_i64(now - 365 * 86_400)) {
                    Err(refusal) => Err(refusal),
                    Ok(yearly) => if clamped_u128(yearly + amount) > annual {
                        Err(
                            "TreasurySpend exceeds the rolling 365-day 5% limit of "@ + mrk_text(
                                annual as nat,
                            ) + " (already spent "@ + mrk_text(yearly as nat) + ")"@,
                        )
                    } else {
                        Ok(())
                    },
                }
            },
        }
    }
}

/// Checks an amount against the limits of the treasury.
pub fn validate_treasury_spend_amount(ledger: &LedgerState, amount: u128, now: i64) -> (r: Result<
    (),
>)
    ensures
        outcome(r) == spend_checked(ledger@, amount, now),
{
    let treasury: u128 = ledger.treasury;
    if amount == 0 {
        return Err(Error::msg("TreasurySpend amount must be greater than zero"));
    }
    if amount > treasury {
        return Err(Error::msg("TreasurySpend exceeds the available treasury balance"));
    }
    let single = treasury_limit(treasury, TREASURY_SINGLE_SPEND_BPS);
    if amount > single {
        return Err(
            Error::owned(
                join2(
                    "TreasurySpend exceeds the 1% single-proposal limit of ",
                    format_mrk(single).as_str(),
                ),
            ),
        );
    }
    let recent = treasury_spent_since(ledger, saturating_sub_i64(now, 90 * 86_400))?;
    let ninety_days = treasury_limit(treasury, TREASURY_NINETY_DAY_SPEND_BPS);
    if recent.saturating_add(amount) > ninety_days {
        return Err(
            Error::owned(
                join5(
                    "TreasurySpend exceeds the rolling 90-day 2% limit of ",
                    format_mrk(ninety_days).as_str(),
                    " (already spent ",
                    format_mrk(recent).as_str(),
                    ")",
                ),
            ),
        );
    }
    let yearly = treasury_spent_since(ledger, saturating_sub_i64(now, 365 * 86_400))?;
    let annual = treasury_limit(treasury, TREASURY_ANNUAL_SPEND_BPS);
    if yearly.saturating_add(amount) > annual {
        return Err(
            Error::owned(
                join5(
                    "TreasurySpend exceeds the rolling 365-day 5% limit of ",
                    format_mrk(annual).as_str(),
                    " (already spent ",
                    format_mrk(yearly).as_str(),
                    ")",
                ),
            ),
        );
    }
    Ok(())
}

/// Within any ninety days and any year the treasury pays out no more than its limits, counted with
/// the payment that is made.
pub proof fn spends_stay_within_limits(ledger: LedgerModel, amount: u128, now: i64)
    requires
        spend_checked(ledger, amount, now) is Ok,
    ensures
        0 < amount <= ledger.treasury,
        100 * amount <= ledger.treasury,
        50 * (spent_since(ledger.treasury_spends, clamped_i64(now - 90 * 86_400)) + amount)
            <= ledger.treasury,
        20 * (spent_since(ledger.treasury_spends, clamped_i64(now - 365 * 86_400)) + amount)
            <= ledger.treasury,
{
}

/// Whether a payment names what it is for: the SHA-256 digest of a document.
pub open spec fn reference_checked(reference: Seq<char>) -> Outcome<()> {
    let bytes = encode_utf8(reference);
    let prefix = encode_utf8("sha256:"@);
    if has_prefix(bytes, prefix) && is_hex_digest(bytes.skip(prefix.len() as int)) {
        Ok(())
    } else {
        Err("treasury reference must use the form sha256:<64 lowercase hex characters>"@)
    }
}

/// Checks the reference of a payment.
pub fn validate_treasury_reference_hash(reference_hash: &str) -> (r: Result<()>)
    ensures
        outcome(r) == reference_checked(reference_hash@),
{
    let prefix = "sha256:";
    let bytes = reference_hash.as_bytes();
    if !bytes_have_prefix(bytes, prefix.as_bytes()) || !is_hex_digest_at(
        bytes,
        prefix.as_bytes().len(),
    ) {
        return Err(
            Error::msg("treasury reference must use the form sha256:<64 lowercase hex characters>"),
        );
    }
    Ok(())
}

/// The ledger after a payment out of the treasury.
pub open spec fn treasury_spent(
    ledger: LedgerModel,
    recipient: Seq<char>,
    amount: u128,
    now: i64,
) -> Outcome<LedgerModel> {
    match address_checked(recipient) {
        Err(refusal) => Err(refusal),
        Ok(_) => match spend_checked(ledger, amount, now) {
            Err(refusal) => Err(refusal),
            Ok(_) => paid_to(
                LedgerModel { treasury: (ledger.treasury - amount) as u128, ..ledger },
                recipient,
                amount,
                "treasury recipient balance overflow"@,
            ),
        },
    }
}

/// Pays an amount out of the treasury.
pub fn spend_treasury(
    ledger: &mut LedgerState,
    recipient: &str,
    amount: u128,
    now: i64,
) -> (r: Result<()>)
    ensures
        match treasury_spent(old(ledger)@, recipient@, amount, now) {
            Ok(next) => r is Ok && final(ledger)@ == next,
            Err(refusal) => final(ledger)@ == old(ledger)@ && (r matches Err(error) && error@
                == refusal),
        },
{
    validate_address(recipient)?;
    validate_treasury_spend_amount(ledger, amount, now)?;
    pay_account(ledger, recipient, amount, "treasury recipient balance overflow")?;
    ledger.treasury = ledger.treasury - amount;
    Ok(())
}

/// What the treasury pays is what the recipient gets.
pub proof fn treasury_spend_moves_amount(
    ledger: LedgerModel,
    recipient: Seq<char>,
    amount: u128,
    now: i64,
)
    requires
        treasury_spent(ledger, recipient, amount, now) is Ok,
    ensures
        ({
            let after = treasury_spent(ledger, recipient, amount, now)->Ok_0;
            &&& after.treasury == ledger.treasury - amount
            &&& crate::accounts::balance_of(after, recipient) == crate::accounts::balance_of(
                ledger,
                recipient,
            ) + amount
            &&& forall|other: Seq<char>|
                other != recipient ==> #[trigger] crate::accounts::account_of(after, other)
                    == crate::accounts::account_of(ledger, other)
        }),
{
}

/// A payment out of the treasury counts in full until it is as old as the period that is looked at, and
/// no longer: a further payment adds its amount if it was made after the period began, and else nothing.
pub proof fn payments_count_until_they_are_old(
    spends: Seq<SpendModel>,
    payment: SpendModel,
    since: i64,
)
    ensures
        spent_since(spends.push(payment), since) == spent_since(spends, since)
            + if payment.executed_at > since {
            payment.amount as nat
        } else {
            0
        },
        spent_since(Seq::<SpendModel>::empty(), since) == 0,
{
    assert(spends.push(payment).drop_last() =~= spends);
}

/// A payment that keeps to the limits is allowed: one percent of the treasury at once, two percent
/// within ninety days and five percent within a year, counted with what was paid before.
pub proof fn payments_within_the_limits_are_allowed(ledger: LedgerModel, amount: u128, now: i64)
    requires
        0 < amount,
        100 * amount <= ledger.treasury,
        50 * (spent_since(ledger.treasury_spends, clamped_i64(now - 7_776_000)) + amount)
            <= ledger.treasury,
        20 * (spent_since(ledger.treasury_spends, clamped_i64(now - 31_536_000)) + amount)
            <= ledger.treasury,
        ledger.treasury * 500 <= u128::MAX,
    ensures
        spend_checked(ledger, amount, now) is Ok,
{
}

/// No payment goes beyond the limits, whatever was paid before: with it the payments of the last ninety
/// days are at most two percent of the treasury and those of the last year at most five percent.
pub proof fn limits_hold_with_the_payment(
    ledger: LedgerModel,
    recipient: Seq<char>,
    payment: SpendModel,
    now: i64,
)
    requires
        payment.executed_at == now,
        i64::MIN + 31_536_000 <= now,
        treasury_spent(ledger, recipient, payment.amount, now) is Ok,
    ensures
        50 * spent_since(ledger.treasury_spends.push(payment), (now - 7_776_000) as i64)
            <= ledger.treasury,
        20 * spent_since(ledger.treasury_spends.push(payment), (now - 31_536_000) as i64)
            <= ledger.treasury,
        100 * payment.amount <= ledger.treasury,
{
    payments_count_until_they_are_old(
        ledger.treasury_spends,
        payment,
        (now - 7_776_000) as i64,
    );
    payments_count_until_they_are_old(
        ledger.treasury_spends,
        payment,
        (now - 31_536_000) as i64,
    );
    spends_stay_within_limits(ledger, payment.amount, now);
}

} // verus!
