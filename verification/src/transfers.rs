use vstd::prelude::*;
use vstd::string::*;

use crate::accounts::{
    account_balance, account_of, add_history, balance_of, debit_account, debited, history_added,
    paid_to, pay_account,
};
use crate::amount::{format_mrk, mrk_text, parse_mrk, read_mrk};
use crate::crypto::{address_checked, validate_address};
use crate::drafts::{
    draft_committed, draft_operation, next_nonce, next_nonce_of, operation_drafted,
    valid_until_from, validity_end, Draft, DraftModel,
};
use crate::envelope::{
    check_signer, made_at, operation_made_at, prepare_signer, signer_checked, signer_prepared,
};
use crate::error::{outcome, Error, Outcome, Result};
use crate::fees::{envelope_checked, quote, quoted, validate_envelope};
use crate::model::{
    FieldModel, Intake, IntakeModel, KeyIdentity, KeyModel, LedgerModel, LedgerState,
    OperationStatus, Payload, SignedModel, SignedOperation, UnsignedModel, UnsignedOperation,
};
use crate::operations::{complete_operation, operation_finalized};
use crate::payload::{field_text, parse_payload_u128, required_amount, PayloadModel};
use crate::protocol::PROTOCOL_VERSION;
use crate::text::{decimal, decimal_reads_back, join4, text_same, u128_text};
use crate::views::{TransferPreview, TransferPreviewModel, TransferReceipt, TransferReceiptModel};

verus! {

/// What a transfer carries.
pub open spec fn transfer_fields(to: Seq<char>, amount: u128) -> PayloadModel {
    Map::<Seq<char>, FieldModel>::empty().insert("to"@, FieldModel::Text(to)).insert(
        "amount_base_units"@,
        FieldModel::Text(decimal(amount as nat)),
    )
}

/// Makes what a transfer carries.
pub fn transfer_payload(to: &str, amount: u128) -> (r: Payload)
    ensures
        r.deep_view() == transfer_fields(to@, amount),
{
    Payload::new().with_text("to", to).with_text("amount_base_units", u128_text(amount).as_str())
}

/// The amount of a transfer from one address to another.
pub open spec fn transfer_amount(from: Seq<char>, to: Seq<char>, text: Seq<char>) -> Outcome<u128> {
    match address_checked(to) {
        Err(refusal) => Err(refusal),
        Ok(_) => if from == to {
            Err("refusing to transfer MRK to the same address"@)
        } else {
            match read_mrk(text) {
                Err(refusal) => Err(refusal),
                Ok(amount) => if amount == 0 {
                    Err("transfer amount must be greater than zero"@)
                } else {
                    Ok(amount)
                },
            }
        },
    }
}

fn read_transfer_amount(from: &str, to: &str, text: &str) -> (r: Result<u128>)
    ensures
        outcome(r) == transfer_amount(from@, to@, text@),
{
    validate_address(to)?;
    if text_same(from, to) {
        return Err(Error::msg("refusing to transfer MRK to the same address"));
    }
    let amount = parse_mrk(text)?;
    if amount == 0 {
        return Err(Error::msg("transfer amount must be greater than zero"));
    }
    Ok(amount)
}

/// A transfer as it would be made now.
pub open spec fn transfer_previewed(
    ledger: LedgerModel,
    from: Seq<char>,
    to: Seq<char>,
    amount_text: Seq<char>,
    units: u64,
    now: i64,
) -> Outcome<TransferPreviewModel> {
    match transfer_amount(from, to, amount_text) {
        Err(refusal) => Err(refusal),
        Ok(amount) => match quoted(ledger, units) {
            Err(refusal) => Err(refusal),
            Ok(found) => {
                let total = amount + found.fee;
                let balance = balance_of(ledger, from);
                if total > u128::MAX {
                    Err("transfer total overflow"@)
                } else if balance < total {
                    Err(
                        "insufficient spendable MRK: available "@ + mrk_text(balance as nat)
                            + ", required "@ + mrk_text(total as nat),
                    )
                } else {
                    Ok(
                        TransferPreviewModel {
                            ledger_id: ledger.ledger_id,
                            from,
                            to,
                            amount,
                            fee: found.fee,
                            total: total as u128,
                            nonce: next_nonce_of(ledger, from),
                            valid_until: validity_end(now),
                        },
                    )
                }
            },
        },
    }
}

/// Shows a transfer as it would be made now, by the fee units that it takes.
pub fn preview_transfer(
    ledger: &LedgerState,
    from: &String,
    to: &str,
    amount_text: &str,
    units: u64,
    now: i64,
) -> (r: Result<TransferPreview>)
    ensures
        outcome(r) == transfer_previewed(ledger@, from@, to@, amount_text@, units, now),
{
    let amount = read_transfer_amount(from.as_str(), to, amount_text)?;
    let found = quote(ledger, units)?;
    let total: u128 = match amount.checked_add(found.fee) {
        None => {
            return Err(Error::msg("transfer total overflow"));
        },
        Some(total) => total,
    };
    let balance = account_balance(ledger, from.as_str());
    if balance < total {
        return Err(
            Error::owned(
                join4(
                    "insufficient spendable MRK: available ",
                    format_mrk(balance).as_str(),
                    ", required ",
                    format_mrk(total).as_str(),
                ),
            ),
        );
    }
    Ok(
        TransferPreview {
            ledger_id: ledger.ledger_id.clone(),
            from: from.clone(),
            to: to.to_owned(),
            amount,
            fee: found.fee,
            total,
            nonce: next_nonce(ledger, from),
            valid_until: valid_until_from(now),
        },
    )
}

/// The ledger after an amount has gone from one address to another.
pub open spec fn amount_moved(
    ledger: LedgerModel,
    from: Seq<char>,
    to: Seq<char>,
    amount: u128,
) -> Outcome<LedgerModel> {
    paid_to(debited(ledger, from, amount), to, amount, "recipient balance overflow"@)
}

fn move_amount(ledger: &mut LedgerState, from: &str, to: &str, amount: u128) -> (r: Result<()>)
    requires
        balance_of(old(ledger)@, from@) >= amount,
    ensures
        match amount_moved(old(ledger)@, from@, to@, amount) {
            Ok(next) => r is Ok && final(ledger)@ == next,
            Err(refusal) => r matches Err(error) && error@ == refusal,
        },
{
    debit_account(ledger, from, amount);
    pay_account(ledger, to, amount, "recipient balance overflow")
}

/// The draft of a transfer that has been previewed.
pub open spec fn transfer_drafted(
    ledger: LedgerModel,
    preview: TransferPreviewModel,
    now: i64,
) -> Outcome<DraftModel> {
    let balance = balance_of(ledger, preview.from);
    if now > preview.valid_until {
        Err("transfer expired before it could be submitted"@)
    } else if account_of(ledger, preview.from).nonce + 1 != preview.nonce {
        Err("account nonce changed; preview the transfer again"@)
    } else if balance < preview.total || balance < preview.amount {
        Err("account balance changed; preview the transfer again"@)
    } else {
        match amount_moved(ledger, preview.from, preview.to, preview.amount) {
            Err(refusal) => Err(refusal),
            Ok(moved) => Ok(
                DraftModel {
                    ledger: moved,
                    operation: operation_drafted(
                        ledger,
                        preview.from,
                        "Asset"@,
                        "Transfer"@,
                        preview.nonce,
                        preview.valid_until,
                        transfer_fields(preview.to, preview.amount),
                    ),
                },
            ),
        }
    }
}

/// Drafts a transfer that has been previewed.
pub fn transfer(ledger: &LedgerState, preview: &TransferPreview, now: i64) -> (r: Result<Draft>)
    ensures
        outcome(r) == transfer_drafted(ledger@, preview.deep_view(), now),
{
    if now > preview.valid_until {
        return Err(Error::msg("transfer expired before it could be submitted"));
    }
    let nonce: u64 = match ledger.accounts.get(&preview.from) {
        Some(account) => account.nonce,
        None => 0,
    };
    if nonce == u64::MAX || nonce + 1 != preview.nonce {
        return Err(Error::msg("account nonce changed; preview the transfer again"));
    }
    let balance = account_balance(ledger, preview.from.as_str());
    if balance < preview.total || balance < preview.amount {
        return Err(Error::msg("account balance changed; preview the transfer again"));
    }
    let operation = draft_operation(
        ledger,
        preview.from.as_str(),
        "Asset",
        "Transfer",
        preview.nonce,
        preview.valid_until,
        transfer_payload(preview.to.as_str(), preview.amount),
    );
    let mut next = ledger.copy();
    move_amount(&mut next, preview.from.as_str(), preview.to.as_str(), preview.amount)?;
    Ok(Draft { ledger: next, operation })
}

/// What the sender of a transfer gets back.
pub open spec fn transfer_receipt(
    preview: TransferPreviewModel,
    operation_id: Seq<char>,
    status: OperationStatus,
    submitted_at: i64,
) -> TransferReceiptModel {
    TransferReceiptModel {
        operation_id,
        status,
        from: preview.from,
        to: preview.to,
        amount: preview.amount,
        fee: preview.fee,
        submitted_at,
    }
}

/// The ledger after a transfer has been signed, and what its sender gets back. A transfer that is
/// known already is not made again.
pub open spec fn transfer_committed(
    ledger: LedgerModel,
    draft: DraftModel,
    preview: TransferPreviewModel,
    public_key: Seq<char>,
    signature: Seq<char>,
    intake: IntakeModel,
    now: i64,
) -> Outcome<(LedgerModel, TransferReceiptModel)> {
    let id = intake.operation_id;
    if ledger.operations.contains_key(id) {
        let existing = ledger.operations[id];
        Ok((ledger, transfer_receipt(preview, id, existing.status, existing.created_at)))
    } else {
        match draft_committed(draft, public_key, signature, intake, now) {
            Err(refusal) => Err(refusal),
            Ok(next) => Ok(
                (
                    history_added(next, preview.to, id),
                    transfer_receipt(preview, id, OperationStatus::Pending, now),
                ),
            ),
        }
    }
}

/// Puts a signed transfer in force. A refused transfer leaves the ledger as it was.
pub fn commit_transfer(
    ledger: &mut LedgerState,
    draft: Draft,
    preview: &TransferPreview,
    public_key: &str,
    signature: String,
    intake: Intake,
    now: i64,
) -> (r: Result<TransferReceipt>)
    ensures
        match transfer_committed(
            old(ledger)@,
            draft.deep_view(),
            preview.deep_view(),
            public_key@,
            signature@,
            intake.deep_view(),
            now,
        ) {
            Ok(next) => final(ledger)@ == next.0 && (r matches Ok(receipt) && receipt.deep_view()
                == next.1),
            Err(refusal) => final(ledger)@ == old(ledger)@ && (r matches Err(error) && error@
                == refusal),
        },
{
    if let Some(existing) = ledger.operations.get(&intake.operation_id) {
        return Ok(
            TransferReceipt {
                operation_id: intake.operation_id.clone(),
                status: existing.status,
                from: preview.from.clone(),
                to: preview.to.clone(),
                amount: preview.amount,
                fee: preview.fee,
                submitted_at: existing.created_at,
            },
        );
    }
    let operation_id = crate::drafts::commit_draft(
        ledger,
        draft,
        public_key,
        signature,
        intake,
        now,
    )?;
    add_history(ledger, preview.to.as_str(), operation_id.as_str());
    Ok(
        TransferReceipt {
            operation_id,
            status: OperationStatus::Pending,
            from: preview.from.clone(),
            to: preview.to.clone(),
            amount: preview.amount,
            fee: preview.fee,
            submitted_at: now,
        },
    )
}

/// What a signer wants of an operation that another node will submit.
pub struct PublicOperationSigningRequest<'a> {
    pub ledger_id: &'a str,
    pub module: &'a str,
    pub action: &'a str,
    pub nonce: u64,
    pub valid_until: i64,
    pub max_fee_base_units: u128,
    pub fee_policy_version: u64,
    pub payload: Payload,
}

/// The operation that a signer wants.
pub open spec fn operation_requested(
    signer: Seq<char>,
    request: PublicOperationSigningRequest,
) -> UnsignedModel {
    UnsignedModel {
        protocol_version: PROTOCOL_VERSION,
        ledger_id: request.ledger_id@,
        module: request.module@,
        action: request.action@,
        signer,
        account_nonce: request.nonce,
        valid_until: request.valid_until,
        max_fee_base_units: request.max_fee_base_units,
        fee_policy_version: request.fee_policy_version,
        payload: request.payload.deep_view(),
    }
}

/// Makes the operation that a signer wants and is about to sign.
pub fn public_operation(
    signer: &KeyIdentity,
    request: PublicOperationSigningRequest<'_>,
) -> (r: UnsignedOperation)
    ensures
        r.deep_view() == operation_requested(signer.deep_view().address, request),
{
    UnsignedOperation {
        protocol_version: PROTOCOL_VERSION,
        ledger_id: request.ledger_id.to_owned(),
        module: request.module.to_owned(),
        action: request.action.to_owned(),
        signer: signer.address.clone(),
        account_nonce: request.nonce,
        valid_until: request.valid_until,
        max_fee_base_units: request.max_fee_base_units,
        fee_policy_version: request.fee_policy_version,
        payload: request.payload,
    }
}

/// An operation with the signature of its signer, if the signer's key has made it.
pub open spec fn operation_signed(
    signer: KeyModel,
    unsigned: UnsignedModel,
    signature: Seq<char>,
    intake: IntakeModel,
) -> Outcome<SignedModel> {
    let signed = SignedModel { unsigned, signature, intake };
    match signer_checked(signer.public_key, signed) {
        Err(refusal) => Err(refusal),
        Ok(_) => Ok(signed),
    }
}

/// Puts the signature of its signer on an operation, which is over `intake.signing_bytes`.
pub fn sign_public_operation(
    signer: &KeyIdentity,
    request: PublicOperationSigningRequest<'_>,
    signature: String,
    intake: Intake,
) -> (r: Result<SignedOperation>)
    ensures
        outcome(r) == operation_signed(
            signer.deep_view(),
            operation_requested(signer.deep_view().address, request),
            signature@,
            intake.deep_view(),
        ),
        r matches Ok(signed) ==> signer_checked(
            signer.deep_view().public_key,
            signed.deep_view(),
        ) is Ok,
{
    let signed = SignedOperation {
        unsigned: public_operation(signer, request),
        signature,
        intake,
    };
    check_signer(signer.public_key.as_str(), &signed)?;
    Ok(signed)
}

/// What a signer wants of a transfer that another node will submit.
pub struct TransferSigningRequest<'a> {
    pub ledger_id: &'a str,
    pub to: &'a str,
    pub amount_text: &'a str,
    pub nonce: u64,
    pub valid_until: i64,
    pub max_fee_base_units: u128,
    pub fee_policy_version: u64,
}

/// The transfer that a signer wants.
pub open spec fn transfer_requested(from: Seq<char>, request: TransferSigningRequest) -> Outcome<
    UnsignedModel,
> {
    match transfer_amount(from, request.to@, request.amount_text@) {
        Err(refusal) => Err(refusal),
        Ok(amount) => Ok(
            UnsignedModel {
                protocol_version: PROTOCOL_VERSION,
                ledger_id: request.ledger_id@,
                module: "Asset"@,
                action: "Transfer"@,
                signer: from,
                account_nonce: request.nonce,
                valid_until: request.valid_until,
                max_fee_base_units: request.max_fee_base_units,
                fee_policy_version: request.fee_policy_version,
                payload: transfer_fields(request.to@, amount),
            },
        ),
    }
}

/// Makes the transfer that a signer wants and is about to sign.
pub fn transfer_operation(
    signer: &KeyIdentity,
    request: &TransferSigningRequest<'_>,
) -> (r: Result<UnsignedOperation>)
    ensures
        outcome(r) == transfer_requested(signer.deep_view().address, *request),
{
    let amount = read_transfer_amount(signer.address.as_str(), request.to, request.amount_text)?;
    Ok(
        UnsignedOperation {
            protocol_version: PROTOCOL_VERSION,
            ledger_id: request.ledger_id.to_owned(),
            module: "Asset".to_owned(),
            action: "Transfer".to_owned(),
            signer: signer.address.clone(),
            account_nonce: request.nonce,
            valid_until: request.valid_until,
            max_fee_base_units: request.max_fee_base_units,
            fee_policy_version: request.fee_policy_version,
            payload: transfer_payload(request.to, amount),
        },
    )
}

/// Puts the signature of its signer on a transfer.
pub fn sign_transfer_for_submission(
    signer: &KeyIdentity,
    request: &TransferSigningRequest<'_>,
    signature: String,
    intake: Intake,
) -> (r: Result<(String, SignedOperation)>)
    ensures
        match transfer_requested(signer.deep_view().address, *request) {
            Ok(unsigned) => match operation_signed(
                signer.deep_view(),
                unsigned,
                signature@,
                intake.deep_view(),
            ) {
                Ok(operation) => r matches Ok(signed) && signed.0@ == signer.deep_view().public_key
                    && signed.1.deep_view() == operation,
                Err(refusal) => r matches Err(error) && error@ == refusal,
            },
            Err(refusal) => r matches Err(error) && error@ == refusal,
        },
        r matches Ok(signed) ==> signer_checked(signed.0@, signed.1.deep_view()) is Ok,
{
    let unsigned = transfer_operation(signer, request)?;
    let signed = SignedOperation { unsigned, signature, intake };
    check_signer(signer.public_key.as_str(), &signed)?;
    Ok((signer.public_key.clone(), signed))
}

/// The recipient and the amount of a signed transfer.
pub open spec fn transfer_read(
    public_key: Seq<char>,
    operation: SignedModel,
    now: i64,
) -> Outcome<(Seq<char>, u128)> {
    match signer_checked(public_key, operation) {
        Err(refusal) => Err(refusal),
        Ok(_) => if operation.unsigned.protocol_version != PROTOCOL_VERSION
            || operation.unsigned.module != "Asset"@ || operation.unsigned.action != "Transfer"@ {
            Err("unsupported signed operation"@)
        } else if now > operation.unsigned.valid_until {
            Err("signed transfer has expired"@)
        } else {
            match field_text(operation.unsigned.payload, "to"@) {
                None => Err("signed transfer is missing recipient"@),
                Some(to) => match address_checked(to) {
                    Err(refusal) => Err(refusal),
                    Ok(_) => match required_amount(
                        operation.unsigned.payload,
                        "amount_base_units"@,
                    ) {
                        Err(refusal) => Err(refusal),
                        Ok(amount) => if amount == 0 {
                            Err("signed transfer amount is invalid"@)
                        } else {
                            Ok((to, amount))
                        },
                    },
                },
            }
        },
    }
}

fn read_transfer(public_key: &str, operation: &SignedOperation, now: i64) -> (r: Result<
    (String, u128),
>)
    ensures
        match transfer_read(public_key@, operation.deep_view(), now) {
            Ok(found) => r matches Ok(read) && read.0@ == found.0 && read.1 == found.1,
            Err(refusal) => r matches Err(error) && error@ == refusal,
        },
{
    check_signer(public_key, operation)?;
    if operation.unsigned.protocol_version != PROTOCOL_VERSION || !text_same(
        operation.unsigned.module.as_str(),
        "Asset",
    ) || !text_same(operation.unsigned.action.as_str(), "Transfer") {
        return Err(Error::msg("unsupported signed operation"));
    }
    if now > operation.unsigned.valid_until {
        return Err(Error::msg("signed transfer has expired"));
    }
    let to: String = match operation.unsigned.payload.text("to") {
        None => {
            return Err(Error::msg("signed transfer is missing recipient"));
        },
        Some(to) => to.clone(),
    };
    validate_address(to.as_str())?;
    let amount = parse_payload_u128(&operation.unsigned.payload, "amount_base_units")?;
    if amount == 0 {
        return Err(Error::msg("signed transfer amount is invalid"));
    }
    Ok((to, amount))
}

/// The ledger after the effect of a signed transfer, before it is charged and queued.
pub open spec fn transfer_applied(
    ledger: LedgerModel,
    public_key: Seq<char>,
    operation: SignedModel,
    to: Seq<char>,
    amount: u128,
    total: u128,
) -> Outcome<LedgerModel> {
    match signer_prepared(
        ledger,
        public_key,
        operation,
        "operation nonce is not the next account nonce"@,
    ) {
        Err(refusal) => Err(refusal),
        Ok(prepared) => if balance_of(prepared, operation.unsigned.signer) < total {
            Err("insufficient spendable MRK"@)
        } else {
            amount_moved(prepared, operation.unsigned.signer, to, amount)
        },
    }
}

/// The ledger after a signed transfer, and what its sender gets back.
pub open spec fn transfer_submitted(
    ledger: LedgerModel,
    public_key: Seq<char>,
    operation: SignedModel,
    now: i64,
) -> Outcome<(LedgerModel, TransferReceiptModel)> {
    match transfer_read(public_key, operation, now) {
        Err(refusal) => Err(refusal),
        Ok(found) => if operation.unsigned.ledger_id != ledger.ledger_id {
            Err("signed transfer targets a different ledger"@)
        } else {
            match envelope_checked(ledger, operation.unsigned, operation.intake.fee_units) {
                Err(refusal) => Err(refusal),
                Ok(price) => {
                    let (to, amount) = found;
                    let id = operation.intake.operation_id;
                    let receipt = TransferReceiptModel {
                        operation_id: id,
                        status: OperationStatus::Pending,
                        from: operation.unsigned.signer,
                        to,
                        amount,
                        fee: price.fee,
                        submitted_at: made_at(operation),
                    };
                    if amount + price.fee > u128::MAX {
                        Err("signed transfer total overflow"@)
                    } else if ledger.operations.contains_key(id) {
                        Ok(
                            (
                                ledger,
                                TransferReceiptModel {
                                    status: ledger.operations[id].status,
                                    submitted_at: ledger.operations[id].created_at,
                                    ..receipt
                                },
                            ),
                        )
                    } else {
                        match transfer_applied(
                            ledger,
                            public_key,
                            operation,
                            to,
                            amount,
                            (amount + price.fee) as u128,
                        ) {
                            Err(refusal) => Err(refusal),
                            Ok(moved) => match operation_finalized(
                                moved,
                                operation,
                                id,
                                made_at(operation),
                            ) {
                                Err(refusal) => Err(refusal),
                                Ok(next) => Ok((history_added(next, to, id), receipt)),
                            },
                        }
                    }
                },
            }
        },
    }
}

/// Takes over a signed transfer. A refused transfer leaves the ledger as it was.
pub fn submit_signed_transfer(
    ledger: &mut LedgerState,
    public_key: &str,
    operation: &SignedOperation,
    now: i64,
) -> (r: Result<TransferReceipt>)
    ensures
        match transfer_submitted(old(ledger)@, public_key@, operation.deep_view(), now) {
            Ok(next) => final(ledger)@ == next.0 && (r matches Ok(receipt) && receipt.deep_view()
                == next.1),
            Err(refusal) => final(ledger)@ == old(ledger)@ && (r matches Err(error) && error@
                == refusal),
        },
{
    let submitted_at = operation_made_at(operation);
    let (to, amount) = read_transfer(public_key, operation, now)?;
    if !text_same(operation.unsigned.ledger_id.as_str(), ledger.ledger_id.as_str()) {
        return Err(Error::msg("signed transfer targets a different ledger"));
    }
    let fee: u128 = validate_envelope(
        ledger,
        &operation.unsigned,
        operation.intake.fee_units,
    )?.fee;
    let total: u128 = match amount.checked_add(fee) {
        None => {
            return Err(Error::msg("signed transfer total overflow"));
        },
        Some(total) => total,
    };
    let operation_id = operation.intake.operation_id.clone();
    if let Some(existing) = ledger.operations.get(&operation_id) {
        return Ok(
            TransferReceipt {
                operation_id,
                status: existing.status,
                from: operation.unsigned.signer.clone(),
                to,
                amount,
                fee,
                submitted_at: existing.created_at,
            },
        );
    }
    let mut next = ledger.copy();
    prepare_signer(
        &mut next,
        public_key,
        operation,
        "operation nonce is not the next account nonce",
    )?;
    let signer = operation.unsigned.signer.as_str();
    if account_balance(&next, signer) < total {
        return Err(Error::msg("insufficient spendable MRK"));
    }
    move_amount(&mut next, signer, to.as_str(), amount)?;
    complete_operation(&mut next, operation, operation_id.as_str(), submitted_at)?;
    add_history(&mut next, to.as_str(), operation_id.as_str());
    *ledger = next;
    Ok(
        TransferReceipt {
            operation_id,
            status: OperationStatus::Pending,
            from: operation.unsigned.signer.clone(),
            to,
            amount,
            fee,
            submitted_at,
        },
    )
}

/// A transfer takes its amount from one address, gives it to the other and touches nobody else.
pub proof fn transfer_moves_amount(
    ledger: LedgerModel,
    from: Seq<char>,
    to: Seq<char>,
    other: Seq<char>,
    amount: u128,
)
    requires
        from != to,
        balance_of(ledger, from) >= amount,
    ensures
        amount_moved(ledger, from, to, amount) matches Ok(next) ==> {
            &&& balance_of(next, from) == balance_of(ledger, from) - amount
            &&& balance_of(next, to) == balance_of(ledger, to) + amount
            &&& other != from && other != to ==> balance_of(next, other) == balance_of(
                ledger,
                other,
            )
            &&& next == LedgerModel { accounts: next.accounts, ..ledger }
        },
        amount_moved(ledger, from, to, amount) is Err <==> balance_of(ledger, to) + amount
            > u128::MAX,
{
}

/// A transfer that is submitted again is not made again.
pub proof fn known_transfer_changes_nothing(
    ledger: LedgerModel,
    public_key: Seq<char>,
    operation: SignedModel,
    now: i64,
)
    requires
        ledger.operations.contains_key(operation.intake.operation_id),
    ensures
        transfer_submitted(ledger, public_key, operation, now) matches Ok(next) ==> next.0
            == ledger,
{
}

/// What a transfer carries says to whom it goes and how much.
pub proof fn transfer_fields_read_back(to: Seq<char>, amount: u128)
    ensures
        field_text(transfer_fields(to, amount), "to"@) == Some(to),
        required_amount(transfer_fields(to, amount), "amount_base_units"@) == Ok::<u128, Seq<char>>(
            amount,
        ),
{
    reveal_strlit("to");
    reveal_strlit("amount_base_units");
    assert("to"@ != "amount_base_units"@) by {
        assert("to"@.len() != "amount_base_units"@.len());
    }
    decimal_reads_back(amount as nat, u128::MAX as nat);
}

/// A transfer takes its amount from its signer and gives it to its recipient. The signer must have
/// the fee too, and the transfer must be the signer's next operation.
pub proof fn transfers_reach_their_recipient(
    ledger: LedgerModel,
    public_key: Seq<char>,
    operation: SignedModel,
    to: Seq<char>,
    amount: u128,
    total: u128,
)
    requires
        transfer_applied(ledger, public_key, operation, to, amount, total) is Ok,
        ledger.accounts.contains_key(operation.unsigned.signer),
        ledger.accounts.contains_key(to),
        to != operation.unsigned.signer,
        amount <= total,
    ensures
        ({
            let next = transfer_applied(ledger, public_key, operation, to, amount, total)->Ok_0;
            let signer = operation.unsigned.signer;
            &&& total <= ledger.accounts[signer].balance
            &&& next.accounts[signer].balance == ledger.accounts[signer].balance - amount
            &&& next.accounts[to].balance == ledger.accounts[to].balance + amount
            &&& operation.unsigned.account_nonce == ledger.accounts[signer].nonce + 1
            &&& next.accounts[signer].public_key == Some(public_key)
            &&& next == LedgerModel { accounts: next.accounts, ..ledger }
        }),
{
}

/// A transfer is taken until it expires, is signed by its sender, and moves something.
pub proof fn transfers_are_signed_and_in_time(
    public_key: Seq<char>,
    operation: SignedModel,
    now: i64,
)
    requires
        transfer_read(public_key, operation, now) is Ok,
    ensures
        ({
            let (to, amount) = transfer_read(public_key, operation, now)->Ok_0;
            &&& now <= operation.unsigned.valid_until
            &&& amount > 0
            &&& field_text(operation.unsigned.payload, "to"@) == Some(to)
            &&& signer_checked(public_key, operation) is Ok
        }),
{
}

} // verus!
