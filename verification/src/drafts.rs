use vstd::prelude::*;
use vstd::string::*;

use crate::accounts::account_of;
use crate::crypto::signature_checked;
use crate::envelope::verify_operation;
use crate::error::{Outcome, Result};
use crate::fees::{quote, quoted};
use crate::model::{
    Field, FieldModel, Intake, IntakeModel, LedgerModel, LedgerState, Payload, SignedModel,
    SignedOperation, UnsignedModel, UnsignedOperation,
};
use crate::number::{clamped_i64, clamped_u64, saturating_add_i64};
use crate::operations::{complete_operation, operation_finalized};
use crate::payload::PayloadModel;
use crate::protocol::{DEFAULT_OPERATION_VALIDITY_SECONDS, PROTOCOL_VERSION};
use crate::table::Table;

verus! {

/// An operation that its signer has yet to sign, and the ledger in which its effect has been
/// applied.
#[derive(Debug)]
pub struct Draft {
    pub ledger: LedgerState,
    pub operation: UnsignedOperation,
}

/// The contents of `Draft`.
#[verifier::ext_equal]
pub struct DraftModel {
    pub ledger: LedgerModel,
    pub operation: UnsignedModel,
}

impl DeepView for Draft {
    type V = DraftModel;

    open spec fn deep_view(&self) -> DraftModel {
        DraftModel { ledger: self.ledger@, operation: self.operation.deep_view() }
    }
}

impl Payload {
    /// A payload that carries nothing.
    pub fn new() -> (r: Payload)
        ensures
            r.deep_view() == Map::<Seq<char>, FieldModel>::empty(),
    {
        Payload { fields: Table::new() }
    }

    /// The payload with one more value.
    pub fn with(self, name: &str, field: Field) -> (r: Payload)
        ensures
            r.deep_view() == self.deep_view().insert(name@, field.deep_view()),
    {
        let mut fields = self.fields;
        fields.insert(name.to_owned(), field);
        Payload { fields }
    }

    /// The payload with one more text.
    pub fn with_text(self, name: &str, text: &str) -> (r: Payload)
        ensures
            r.deep_view() == self.deep_view().insert(name@, FieldModel::Text(text@)),
    {
        self.with(name, Field::Text(text.to_owned()))
    }

    /// The payload with one more number.
    pub fn with_number(self, name: &str, number: u64) -> (r: Payload)
        ensures
            r.deep_view() == self.deep_view().insert(name@, FieldModel::Integer(number as i128)),
    {
        self.with(name, Field::Integer(number as i128))
    }
}

/// The number of the next operation of an address.
pub open spec fn next_nonce_of(ledger: LedgerModel, address: Seq<char>) -> u64 {
    clamped_u64(account_of(ledger, address).nonce + 1)
}

pub fn next_nonce(ledger: &LedgerState, address: &String) -> (r: u64)
    ensures
        r == next_nonce_of(ledger@, address@),
{
    match ledger.accounts.get(address) {
        Some(account) => account.nonce.saturating_add(1),
        None => 1,
    }
}

/// The end of the validity of an operation that is made at a time.
pub open spec fn validity_end(now: i64) -> i64 {
    clamped_i64(now + DEFAULT_OPERATION_VALIDITY_SECONDS)
}

pub fn valid_until_from(now: i64) -> (r: i64)
    ensures
        r == validity_end(now),
{
    saturating_add_i64(now, DEFAULT_OPERATION_VALIDITY_SECONDS)
}

/// The operation that an address makes on a ledger. What it may cost is yet to be set.
pub open spec fn operation_drafted(
    ledger: LedgerModel,
    signer: Seq<char>,
    module: Seq<char>,
    action: Seq<char>,
    nonce: u64,
    valid_until: i64,
    payload: PayloadModel,
) -> UnsignedModel {
    UnsignedModel {
        protocol_version: PROTOCOL_VERSION,
        ledger_id: ledger.ledger_id,
        module,
        action,
        signer,
        account_nonce: nonce,
        valid_until,
        max_fee_base_units: 0,
        fee_policy_version: ledger.settings.fee_policy.version,
        payload,
    }
}

/// Makes the operation of an address on a ledger.
pub fn draft_operation(
    ledger: &LedgerState,
    signer: &str,
    module: &str,
    action: &str,
    nonce: u64,
    valid_until: i64,
    payload: Payload,
) -> (r: UnsignedOperation)
    ensures
        r.deep_view() == operation_drafted(
            ledger@,
            signer@,
            module@,
            action@,
            nonce,
            valid_until,
            payload.deep_view(),
        ),
{
    UnsignedOperation {
        protocol_version: PROTOCOL_VERSION,
        ledger_id: ledger.ledger_id.clone(),
        module: module.to_owned(),
        action: action.to_owned(),
        signer: signer.to_owned(),
        account_nonce: nonce,
        valid_until,
        max_fee_base_units: 0,
        fee_policy_version: ledger.settings.fee_policy.version,
        payload,
    }
}

/// The next operation of an address, valid for the usual time.
pub open spec fn next_operation(
    ledger: LedgerModel,
    signer: Seq<char>,
    module: Seq<char>,
    action: Seq<char>,
    payload: PayloadModel,
    now: i64,
) -> UnsignedModel {
    operation_drafted(
        ledger,
        signer,
        module,
        action,
        next_nonce_of(ledger, signer),
        validity_end(now),
        payload,
    )
}

/// Makes the next operation of an address.
pub fn draft_next_operation(
    ledger: &LedgerState,
    signer: &String,
    module: &str,
    action: &str,
    payload: Payload,
    now: i64,
) -> (r: UnsignedOperation)
    ensures
        r.deep_view() == next_operation(
            ledger@,
            signer@,
            module@,
            action@,
            payload.deep_view(),
            now,
        ),
{
    draft_operation(
        ledger,
        signer.as_str(),
        module,
        action,
        next_nonce(ledger, signer),
        valid_until_from(now),
        payload,
    )
}

/// The operation with what it may cost on a ledger, by the fee units that it takes.
pub open spec fn operation_priced(
    ledger: LedgerModel,
    operation: UnsignedModel,
    units: u64,
) -> Outcome<UnsignedModel> {
    match quoted(ledger, units) {
        Err(refusal) => Err(refusal),
        Ok(found) => Ok(
            UnsignedModel {
                max_fee_base_units: found.recommended_max_fee,
                fee_policy_version: found.policy_version,
                ..operation
            },
        ),
    }
}

/// Sets what an operation may cost.
pub fn price_operation(
    ledger: &LedgerState,
    operation: &mut UnsignedOperation,
    units: u64,
) -> (r: Result<()>)
    ensures
        match operation_priced(ledger@, old(operation).deep_view(), units) {
            Ok(next) => r is Ok && final(operation).deep_view() == next,
            Err(refusal) => (r matches Err(error) && error@ == refusal)
                && final(operation).deep_view() == old(operation).deep_view(),
        },
{
    let found = quote(ledger, units)?;
    operation.max_fee_base_units = found.recommended_max_fee;
    operation.fee_policy_version = found.policy_version;
    Ok(())
}

/// A draft whose signer has signed it.
pub open spec fn draft_signed(
    draft: DraftModel,
    signature: Seq<char>,
    intake: IntakeModel,
) -> SignedModel {
    SignedModel { unsigned: draft.operation, signature, intake }
}

/// The ledger after a draft has been signed, charged and queued.
pub open spec fn draft_committed(
    draft: DraftModel,
    public_key: Seq<char>,
    signature: Seq<char>,
    intake: IntakeModel,
    now: i64,
) -> Outcome<LedgerModel> {
    match signature_checked(public_key, intake.signing_bytes, signature) {
        Err(refusal) => Err(refusal),
        Ok(_) => operation_finalized(
            draft.ledger,
            draft_signed(draft, signature, intake),
            intake.operation_id,
            now,
        ),
    }
}

/// Puts a signed draft in force. A refused draft leaves the ledger as it was.
pub fn commit_draft(
    ledger: &mut LedgerState,
    draft: Draft,
    public_key: &str,
    signature: String,
    intake: Intake,
    now: i64,
) -> (r: Result<String>)
    ensures
        match draft_committed(
            draft.deep_view(),
            public_key@,
            signature@,
            intake.deep_view(),
            now,
        ) {
            Ok(next) => final(ledger)@ == next && (r matches Ok(id) && id@
                == intake.operation_id@),
            Err(refusal) => final(ledger)@ == old(ledger)@ && (r matches Err(error) && error@
                == refusal),
        },
{
    let ghost given = draft.deep_view();
    let id = intake.operation_id.clone();
    let mut next = draft.ledger;
    let signed = SignedOperation { unsigned: draft.operation, signature, intake };
    assert(signed.deep_view() == draft_signed(given, signature@, intake.deep_view()));
    verify_operation(&signed, public_key)?;
    complete_operation(&mut next, &signed, id.as_str(), now)?;
    *ledger = next;
    Ok(id)
}

} // verus!
