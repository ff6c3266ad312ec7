use vstd::prelude::*;
use vstd::string::*;

use crate::accounts::{account_of, bind_account_key, key_bound};
use crate::chain::finalized_state;
use crate::crypto::signature_checked;
use crate::envelope::{
    check_signer, is_current, made_at, operation_is_current, operation_made_at, prepare_signer,
    signer_checked, signer_prepared, verify_operation,
};
use crate::error::{outcome, Error, Outcome, Result};
use crate::fees::{envelope_checked, validate_envelope};
use crate::model::{
    Field, FieldModel, LedgerModel, LedgerState, OperationModel, OperationRecord, OperationStatus,
    Payload, SignedModel, SignedOperation,
};
use crate::network_operations::{network_operation_submitted, submit_signed_network_operation};
use crate::node_operations::{node_operation_submitted, submit_signed_node_operation};
use crate::number::{clamped_u64, least};
use crate::operations::{
    complete_operation, enqueue, enqueued, ensure_operation_fee_payable, fee_payable, make_record,
    operation_finalized, pending_fee_units, queued_operations_are_numbered, record_of, units_of,
    ChargeModel, OperationFeeCharge,
};
use crate::payload::{field_text, payload_str, required_text, PayloadModel};
use crate::proposals::{apply_replicated_governance_action, governance_action_applied};
use crate::protocol::MAX_BLOCK_OPERATIONS;
use crate::table::Replicate;
use crate::text::{join3, join4, text_same};
use crate::transfers::{submit_signed_transfer, transfer_submitted};

verus! {

/// A signed operation and the key that it was signed with.
#[derive(Debug)]
pub struct PendingOperationEnvelope {
    pub public_key: String,
    pub operation: SignedOperation,
}

/// The contents of `PendingOperationEnvelope`.
#[verifier::ext_equal]
pub struct EnvelopeModel {
    pub public_key: Seq<char>,
    pub operation: SignedModel,
}

impl DeepView for PendingOperationEnvelope {
    type V = EnvelopeModel;

    open spec fn deep_view(&self) -> EnvelopeModel {
        EnvelopeModel {
            public_key: self.public_key@,
            operation: self.operation.deep_view(),
        }
    }
}

impl Replicate for PendingOperationEnvelope {
    fn replicate(&self) -> (r: PendingOperationEnvelope) {
        PendingOperationEnvelope {
            public_key: self.public_key.clone(),
            operation: self.operation.replicate(),
        }
    }
}

/// Finds an operation by its identifier.
pub fn operation(ledger: &LedgerState, operation_id: &str) -> (r: Option<OperationRecord>)
    ensures
        r.deep_view() == if ledger@.operations.contains_key(operation_id@) {
            Some(ledger@.operations[operation_id@])
        } else {
            None
        },
{
    match ledger.operations.get(&operation_id.to_owned()) {
        Some(record) => Some(record.replicate()),
        None => None,
    }
}

/// The envelope of a pending operation.
pub open spec fn pending_envelope(ledger: LedgerModel, operation_id: Seq<char>) -> Outcome<
    EnvelopeModel,
> {
    if !ledger.operations.contains_key(operation_id) {
        Err("pending operation record is missing"@)
    } else {
        match ledger.operations[operation_id].signed_operation {
            None => Err("pending operation has no signed envelope"@),
            Some(operation) => match account_of(ledger, operation.unsigned.signer).public_key {
                None => Err("pending operation signer key is missing"@),
                Some(public_key) => Ok(EnvelopeModel { public_key, operation }),
            },
        }
    }
}

fn make_envelope(ledger: &LedgerState, operation_id: &String) -> (r: Result<
    PendingOperationEnvelope,
>)
    ensures
        outcome(r) == pending_envelope(ledger@, operation_id@),
{
    match ledger.operations.get(operation_id) {
        None => Err(Error::msg("pending operation record is missing")),
        Some(record) => match &record.signed_operation {
            None => Err(Error::msg("pending operation has no signed envelope")),
            Some(operation) => match ledger.accounts.get(&operation.unsigned.signer) {
                None => Err(Error::msg("pending operation signer key is missing")),
                Some(account) => match &account.public_key {
                    None => Err(Error::msg("pending operation signer key is missing")),
                    Some(public_key) => Ok(
                        PendingOperationEnvelope {
                            public_key: public_key.clone(),
                            operation: operation.replicate(),
                        },
                    ),
                },
            },
        },
    }
}

/// The envelopes of pending operations, or the first refusal.
pub open spec fn pending_envelopes(
    ledger: LedgerModel,
    ids: Seq<Seq<char>>,
    made: Seq<EnvelopeModel>,
) -> Outcome<Seq<EnvelopeModel>>
    decreases ids.len(),
{
    if ids.len() == 0 {
        Ok(made)
    } else {
        match pending_envelope(ledger, ids[0]) {
            Err(refusal) => Err(refusal),
            Ok(envelope) => pending_envelopes(ledger, ids.drop_first(), made.push(envelope)),
        }
    }
}

/// Lists the pending operations as they are sent to other nodes.
pub fn consensus_pending_operations(ledger: &LedgerState) -> (r: Result<
    Vec<PendingOperationEnvelope>,
>)
    ensures
        match pending_envelopes(ledger@, ledger@.pending_operation_ids, Seq::empty()) {
            Ok(envelopes) => r matches Ok(list) && list.deep_view() == envelopes,
            Err(refusal) => r matches Err(error) && error@ == refusal,
        },
{
    let ghost ids = ledger.pending_operation_ids.deep_view();
    let mut out: Vec<PendingOperationEnvelope> = Vec::new();
    let mut i: usize = 0;
    assert(ids.skip(0) =~= ids);
    assert(out.deep_view() =~= Seq::<EnvelopeModel>::empty());
    while i < ledger.pending_operation_ids.len()
        invariant
            i <= ids.len(),
            ids == ledger.pending_operation_ids.deep_view(),
            ids.len() == ledger.pending_operation_ids@.len(),
            pending_envelopes(ledger@, ids, Seq::empty()) == pending_envelopes(
                ledger@,
                ids.skip(i as int),
                out.deep_view(),
            ),
        decreases ids.len() - i,
    {
        assert(ids.skip(i as int)[0] == ledger.pending_operation_ids@[i as int]@);
        assert(ids.skip(i as int).drop_first() =~= ids.skip(i + 1));
        let ghost before = out.deep_view();
        let envelope = make_envelope(ledger, &ledger.pending_operation_ids[i])?;
        out.push(envelope);
        assert(out.deep_view() =~= before.push(envelope.deep_view()));
        i = i + 1;
    }
    Ok(out)
}

/// The ledger after a governance operation. One that is known already changes nothing.
pub open spec fn governance_operation_submitted(
    ledger: LedgerModel,
    public_key: Seq<char>,
    operation: SignedModel,
    now: i64,
) -> Outcome<LedgerModel> {
    let id = operation.intake.operation_id;
    match signer_checked(public_key, operation) {
        Err(refusal) => Err(refusal),
        Ok(_) => if !is_current(operation, now) || operation.unsigned.module != "Governance"@ {
            Err("signed governance operation is invalid or expired"@)
        } else if operation.unsigned.ledger_id != ledger.ledger_id {
            Err("signed governance operation targets another ledger"@)
        } else if ledger.operations.contains_key(id) {
            Ok(ledger)
        } else {
            match signer_prepared(
                ledger,
                public_key,
                operation,
                "operation nonce is not the next account nonce"@,
            ) {
                Err(refusal) => Err(refusal),
                Ok(prepared) => match governance_action_applied(
                    prepared,
                    public_key,
                    operation,
                    id,
                    made_at(operation),
                ) {
                    Err(refusal) => Err(refusal),
                    Ok(applied) => operation_finalized(applied, operation, id, made_at(operation)),
                },
            }
        },
    }
}

/// Takes over a governance operation. A refused operation leaves the ledger as it was.
pub fn submit_signed_governance_operation(
    ledger: &mut LedgerState,
    public_key: &str,
    operation: &SignedOperation,
    now: i64,
) -> (r: Result<()>)
    ensures
        match governance_operation_submitted(
            old(ledger)@,
            public_key@,
            operation.deep_view(),
            now,
        ) {
            Ok(next) => r is Ok && final(ledger)@ == next,
            Err(refusal) => final(ledger)@ == old(ledger)@ && (r matches Err(error) && error@
                == refusal),
        },
{
    check_signer(public_key, operation)?;
    if !operation_is_current(operation, now) || !text_same(
        operation.unsigned.module.as_str(),
        "Governance",
    ) {
        return Err(Error::msg("signed governance operation is invalid or expired"));
    }
    if !text_same(operation.unsigned.ledger_id.as_str(), ledger.ledger_id.as_str()) {
        return Err(Error::msg("signed governance operation targets another ledger"));
    }
    if ledger.operations.contains_key(&operation.intake.operation_id) {
        return Ok(());
    }
    let mut next = ledger.copy();
    prepare_signer(
        &mut next,
        public_key,
        operation,
        "operation nonce is not the next account nonce",
    )?;
    let id = operation.intake.operation_id.as_str();
    let at = operation_made_at(operation);
    apply_replicated_governance_action(&mut next, public_key, operation, id, at)?;
    complete_operation(&mut next, operation, id, at)?;
    *ledger = next;
    Ok(())
}

/// Who takes over the operations of a kind.
#[derive(Clone, Copy, Debug, PartialEq, Eq, Structural)]
pub enum Route {
    Transfer,
    Network,
    Governance,
    Node,
    Nobody,
}

/// Who takes over an operation.
pub open spec fn route_of(module: Seq<char>, action: Seq<char>) -> Route {
    if module == "Asset"@ && action == "Transfer"@ {
        Route::Transfer
    } else if module == "NetworkRegistry"@ || module == "NetworkEscrow"@ || module
        == "TrafficPayment"@ && (action == "ReserveSession"@ || action == "Refund"@) {
        Route::Network
    } else if module == "Governance"@ {
        Route::Governance
    } else if module == "NodeRegistry"@ || module == "NodeEmissionController"@ || module
        == "StakeVault"@ || module == "Availability"@ || module == "TrafficPayment"@ && action
        == "Settle"@ {
        Route::Node
    } else {
        Route::Nobody
    }
}

fn find_route(module: &str, action: &str) -> (r: Route)
    ensures
        r == route_of(module@, action@),
{
    if text_same(module, "Asset") && text_same(action, "Transfer") {
        Route::Transfer
    } else if text_same(module, "NetworkRegistry") || text_same(module, "NetworkEscrow")
        || text_same(module, "TrafficPayment") && (text_same(action, "ReserveSession")
        || text_same(action, "Refund")) {
        Route::Network
    } else if text_same(module, "Governance") {
        Route::Governance
    } else if text_same(module, "NodeRegistry") || text_same(module, "NodeEmissionController")
        || text_same(module, "StakeVault") || text_same(module, "Availability") || text_same(
        module,
        "TrafficPayment",
    ) && text_same(action, "Settle") {
        Route::Node
    } else {
        Route::Nobody
    }
}

/// The ledger after an operation has been applied. One that is known already changes nothing.
pub open spec fn operation_applied(
    ledger: LedgerModel,
    public_key: Seq<char>,
    operation: SignedModel,
    now: i64,
) -> Outcome<LedgerModel> {
    if ledger.operations.contains_key(operation.intake.operation_id) {
        Ok(ledger)
    } else {
        match route_of(operation.unsigned.module, operation.unsigned.action) {
            Route::Transfer => match transfer_submitted(ledger, public_key, operation, now) {
                Err(refusal) => Err(refusal),
                Ok(next) => Ok(next.0),
            },
            Route::Network => match network_operation_submitted(
                ledger,
                public_key,
                operation,
                now,
            ) {
                Err(refusal) => Err(refusal),
                Ok(next) => Ok(next.0),
            },
            Route::Governance => governance_operation_submitted(ledger, public_key, operation, now),
            Route::Node => node_operation_submitted(ledger, public_key, operation, now),
            Route::Nobody => Err(
                "consensus operation replay is not implemented for "@ + operation.unsigned.module
                    + "."@ + operation.unsigned.action,
            ),
        }
    }
}

/// Applies an operation. A refused operation leaves the ledger as it was.
pub fn submit_consensus_operation_strict(
    ledger: &mut LedgerState,
    envelope: &PendingOperationEnvelope,
    now: i64,
) -> (r: Result<String>)
    ensures
        match operation_applied(
            old(ledger)@,
            envelope.deep_view().public_key,
            envelope.deep_view().operation,
            now,
        ) {
            Ok(next) => final(ledger)@ == next && (r matches Ok(id) && id@
                == envelope.deep_view().operation.intake.operation_id),
            Err(refusal) => final(ledger)@ == old(ledger)@ && (r matches Err(error) && error@
                == refusal),
        },
{
    let operation = &envelope.operation;
    let public_key = envelope.public_key.as_str();
    let id = operation.intake.operation_id.clone();
    if ledger.operations.contains_key(&id) {
        return Ok(id);
    }
    let module = operation.unsigned.module.as_str();
    let action = operation.unsigned.action.as_str();
    match find_route(module, action) {
        Route::Transfer => {
            submit_signed_transfer(ledger, public_key, operation, now)?;
        },
        Route::Network => {
            submit_signed_network_operation(ledger, public_key, operation, now)?;
        },
        Route::Governance => {
            submit_signed_governance_operation(ledger, public_key, operation, now)?;
        },
        Route::Node => {
            submit_signed_node_operation(ledger, public_key, operation, now)?;
        },
        Route::Nobody => {
            return Err(
                Error::owned(
                    join4(
                        "consensus operation replay is not implemented for ",
                        module,
                        ".",
                        action,
                    ),
                ),
            );
        },
    }
    Ok(id)
}

/// The first characters of a reason.
pub open spec fn reason_kept(reason: Seq<char>) -> Seq<char> {
    reason.take(least(reason.len() as int, 512))
}

/// The ledger after an operation that could not be applied has been charged, numbered and queued as
/// rejected.
pub open spec fn operation_rejected(
    ledger: LedgerModel,
    public_key: Seq<char>,
    operation: SignedModel,
    now: i64,
    reason: Seq<char>,
) -> Outcome<LedgerModel> {
    let id = operation.intake.operation_id;
    match signature_checked(public_key, operation.intake.signing_bytes, operation.signature) {
        Err(refusal) => Err(refusal),
        Ok(_) => if operation.unsigned.ledger_id != ledger.ledger_id || !is_current(
            operation,
            now,
        ) {
            Err("rejected operation envelope is invalid or expired"@)
        } else {
            match signer_prepared(
                ledger,
                public_key,
                operation,
                "rejected operation nonce is not the next account nonce"@,
            ) {
                Err(refusal) => Err(refusal),
                Ok(prepared) => match operation_finalized(prepared, operation, id, now) {
                    Err(refusal) => Err(refusal),
                    Ok(next) => Ok(
                        LedgerModel {
                            operations: next.operations.insert(
                                id,
                                OperationModel {
                                    status: OperationStatus::Rejected,
                                    error: Some(reason_kept(reason)),
                                    ..next.operations[id]
                                },
                            ),
                            ..next
                        },
                    ),
                },
            }
        },
    }
}

proof fn finalized_operation_is_recorded(
    ledger: LedgerModel,
    operation: SignedModel,
    operation_id: Seq<char>,
    now: i64,
)
    ensures
        operation_finalized(ledger, operation, operation_id, now) matches Ok(next)
            ==> next.operations.contains_key(operation_id),
{
    reveal(operation_finalized);
}

/// Charges, numbers and queues an operation that could not be applied.
pub fn finalize_rejected_consensus_operation(
    ledger: &mut LedgerState,
    envelope: &PendingOperationEnvelope,
    now: i64,
    reason: &str,
) -> (r: Result<String>)
    ensures
        match operation_rejected(
            old(ledger)@,
            envelope.deep_view().public_key,
            envelope.deep_view().operation,
            now,
            reason@,
        ) {
            Ok(next) => final(ledger)@ == next && (r matches Ok(id) && id@
                == envelope.deep_view().operation.intake.operation_id),
            Err(refusal) => final(ledger)@ == old(ledger)@ && (r matches Err(error) && error@
                == refusal),
        },
{
    let operation = &envelope.operation;
    let public_key = envelope.public_key.as_str();
    verify_operation(operation, public_key)?;
    if !text_same(operation.unsigned.ledger_id.as_str(), ledger.ledger_id.as_str())
        || !operation_is_current(operation, now) {
        return Err(Error::msg("rejected operation envelope is invalid or expired"));
    }
    let mut next = ledger.copy();
    prepare_signer(
        &mut next,
        public_key,
        operation,
        "rejected operation nonce is not the next account nonce",
    )?;
    let id = operation.intake.operation_id.clone();
    proof {
        finalized_operation_is_recorded(next@, operation.deep_view(), id@, now);
    }
    complete_operation(&mut next, operation, id.as_str(), now)?;
    let count: usize = reason.unicode_len();
    let kept: &str = if count > 512 {
        reason.substring_char(0, 512)
    } else {
        reason
    };
    assert(kept@ =~= reason_kept(reason@));
    if let Some(record) = next.operations.get_mut(&id) {
        record.status = OperationStatus::Rejected;
        record.error = Some(kept.to_owned());
    }
    *ledger = next;
    Ok(id)
}

/// Whether the actions of a kind may wait for a block although they cannot be applied yet.
pub open spec fn may_be_candidate(module: Seq<char>, action: Seq<char>) -> bool {
    ||| module == "Asset"@ && action == "Transfer"@
    ||| module == "NetworkRegistry"@ && (action == "CreateNetwork"@ || action == "RevokeMember"@
        || action == "IssueMember"@)
    ||| module == "NetworkEscrow"@ && (action == "FundNetwork"@ || action == "SetSpendingPolicy"@)
    ||| module == "TrafficPayment"@ && (action == "ReserveSession"@ || action == "Refund"@ || action
        == "Settle"@)
    ||| module == "Governance"@ && is_governance_action(action)
    ||| module == "NodeRegistry"@ && is_registry_action(action)
    ||| module == "NodeEmissionController"@ && action == "ClaimNodeReward"@
    ||| module == "StakeVault"@ && is_stake_action(action)
    ||| module == "Availability"@ && action == "AttestProbe"@
}

pub open spec fn is_governance_action(action: Seq<char>) -> bool {
    action == "SetParameters"@ || action == "PauseEmission"@ || action == "ResumeEmission"@ || action
        == "CreateProposal"@ || action == "VoteProposal"@ || action == "ValidatorVoteProposal"@
        || action == "VetoTreasuryProposal"@ || action == "FinalizeProposal"@ || action
        == "ExecuteProposal"@
}

pub open spec fn is_registry_action(action: Seq<char>) -> bool {
    action == "RegisterNode"@ || action == "UpdateRewardIp"@ || action == "UpdatePrice"@ || action
        == "DrainNode"@ || action == "WithdrawServiceBond"@
}

pub open spec fn is_stake_action(action: Seq<char>) -> bool {
    action == "BondValidator"@ || action == "ExitValidator"@ || action == "WithdrawValidatorBond"@
        || action == "BondGovernance"@ || action == "ExitGovernance"@ || action
        == "WithdrawGovernanceBond"@
}

fn can_be_candidate(module: &str, action: &str) -> (r: bool)
    ensures
        r == may_be_candidate(module@, action@),
{
    if text_same(module, "Asset") && text_same(action, "Transfer") {
        return true;
    }
    if text_same(module, "NetworkRegistry") && (text_same(action, "CreateNetwork") || text_same(
        action,
        "RevokeMember",
    ) || text_same(action, "IssueMember")) {
        return true;
    }
    if text_same(module, "NetworkEscrow") && (text_same(action, "FundNetwork") || text_same(
        action,
        "SetSpendingPolicy",
    )) {
        return true;
    }
    if text_same(module, "TrafficPayment") && (text_same(action, "ReserveSession") || text_same(
        action,
        "Refund",
    ) || text_same(action, "Settle")) {
        return true;
    }
    if text_same(module, "Governance") && (text_same(action, "SetParameters") || text_same(
        action,
        "PauseEmission",
    ) || text_same(action, "ResumeEmission") || text_same(action, "CreateProposal") || text_same(
        action,
        "VoteProposal",
    ) || text_same(action, "ValidatorVoteProposal") || text_same(action, "VetoTreasuryProposal")
        || text_same(action, "FinalizeProposal") || text_same(action, "ExecuteProposal")) {
        return true;
    }
    if text_same(module, "NodeRegistry") && (text_same(action, "RegisterNode") || text_same(
        action,
        "UpdateRewardIp",
    ) || text_same(action, "UpdatePrice") || text_same(action, "DrainNode") || text_same(
        action,
        "WithdrawServiceBond",
    )) {
        return true;
    }
    if text_same(module, "NodeEmissionController") && text_same(action, "ClaimNodeReward") {
        return true;
    }
    if text_same(module, "StakeVault") && (text_same(action, "BondValidator") || text_same(
        action,
        "ExitValidator",
    ) || text_same(action, "WithdrawValidatorBond") || text_same(action, "BondGovernance")
        || text_same(action, "ExitGovernance") || text_same(action, "WithdrawGovernanceBond")) {
        return true;
    }
    text_same(module, "Availability") && text_same(action, "AttestProbe")
}

/// Whether an operation may wait for a block at all.
pub open spec fn candidate_checked(
    public_key: Seq<char>,
    operation: SignedModel,
    now: i64,
) -> Outcome<()> {
    match signer_checked(public_key, operation) {
        Err(refusal) => Err(refusal),
        Ok(_) => if !is_current(operation, now) {
            Err("consensus candidate is invalid or expired"@)
        } else if !may_be_candidate(operation.unsigned.module, operation.unsigned.action) {
            Err("unsupported consensus candidate action"@)
        } else if operation.intake.encoded_len > 262_144 {
            Err("consensus candidate exceeds 256 KiB"@)
        } else {
            Ok(())
        },
    }
}

fn check_candidate(public_key: &str, operation: &SignedOperation, now: i64) -> (r: Result<()>)
    ensures
        outcome(r) == candidate_checked(public_key@, operation.deep_view(), now),
{
    check_signer(public_key, operation)?;
    if !operation_is_current(operation, now) {
        return Err(Error::msg("consensus candidate is invalid or expired"));
    }
    if !can_be_candidate(operation.unsigned.module.as_str(), operation.unsigned.action.as_str()) {
        return Err(Error::msg("unsupported consensus candidate action"));
    }
    if operation.intake.encoded_len > 262_144 {
        return Err(Error::msg("consensus candidate exceeds 256 KiB"));
    }
    Ok(())
}

/// Whether a pending operation has a signer and a number.
pub open spec fn takes_number(
    ledger: LedgerModel,
    operation_id: Seq<char>,
    signer: Seq<char>,
    nonce: u64,
) -> bool {
    ledger.operations.contains_key(operation_id) && ledger.operations[operation_id].signer == signer
        && ledger.operations[operation_id].nonce == nonce
}

/// Whether a pending operation has a signer's number already.
pub open spec fn number_taken(ledger: LedgerModel, signer: Seq<char>, nonce: u64) -> bool {
    exists|i: int|
        0 <= i < ledger.pending_operation_ids.len() && takes_number(
            ledger,
            #[trigger] ledger.pending_operation_ids[i],
            signer,
            nonce,
        )
}

fn is_number_taken(ledger: &LedgerState, signer: &str, nonce: u64) -> (r: bool)
    ensures
        r == number_taken(ledger@, signer@, nonce),
{
    let ghost ids = ledger.pending_operation_ids.deep_view();
    let mut i: usize = 0;
    while i < ledger.pending_operation_ids.len()
        invariant
            i <= ids.len(),
            ids == ledger@.pending_operation_ids,
            ids == ledger.pending_operation_ids.deep_view(),
            ids.len() == ledger.pending_operation_ids@.len(),
            forall|j: int| 0 <= j < i ==> !takes_number(ledger@, #[trigger] ids[j], signer@, nonce),
        decreases ids.len() - i,
    {
        assert(ids[i as int] == ledger.pending_operation_ids@[i as int]@);
        if let Some(pending) = ledger.operations.get(&ledger.pending_operation_ids[i]) {
            if text_same(pending.signer.as_str(), signer) && pending.nonce == nonce {
                assert(takes_number(ledger@, ids[i as int], signer@, nonce));
                return true;
            }
        }
        i = i + 1;
    }
    false
}

/// The serial number of the credential in a payload.
pub open spec fn credential_serial(payload: PayloadModel) -> Option<u64> {
    if payload.contains_key("credential"@) {
        match payload["credential"@] {
            FieldModel::Credential(credential) => Some(credential.serial),
            FieldModel::Other(value) => value.serial,
            _ => None,
        }
    } else {
        None
    }
}

fn read_credential_serial(payload: &Payload) -> (r: Option<u64>)
    ensures
        r == credential_serial(payload.deep_view()),
{
    match payload.get("credential") {
        Some(Field::Credential(credential)) => Some(credential.serial),
        Some(Field::Other(value)) => value.serial,
        _ => None,
    }
}

/// Whether a pending operation admits a member with a name or a serial number to a network.
pub open spec fn takes_member(
    ledger: LedgerModel,
    operation_id: Seq<char>,
    commitment: Seq<char>,
    name: Seq<char>,
    serial: u64,
) -> bool {
    let pending = ledger.operations[operation_id];
    &&& ledger.operations.contains_key(operation_id)
    &&& pending.kind == "NetworkRegistry.IssueMember"@
    &&& field_text(pending.payload, "network_commitment"@) == Some(commitment)
    &&& field_text(pending.payload, "member_name"@) == Some(name) || credential_serial(
        pending.payload,
    ) == Some(serial)
}

/// Whether a pending operation admits such a member already.
pub open spec fn member_taken(
    ledger: LedgerModel,
    commitment: Seq<char>,
    name: Seq<char>,
    serial: u64,
) -> bool {
    exists|i: int|
        0 <= i < ledger.pending_operation_ids.len() && takes_member(
            ledger,
            #[trigger] ledger.pending_operation_ids[i],
            commitment,
            name,
            serial,
        )
}

fn admits_member(pending: &OperationRecord, commitment: &str, name: &str, serial: u64) -> (r: bool)
    ensures
        r == (pending.deep_view().kind == "NetworkRegistry.IssueMember"@ && field_text(
            pending.deep_view().payload,
            "network_commitment"@,
        ) == Some(commitment@) && (field_text(pending.deep_view().payload, "member_name"@) == Some(
            name@,
        ) || credential_serial(pending.deep_view().payload) == Some(serial))),
{
    if !text_same(pending.kind.as_str(), "NetworkRegistry.IssueMember") {
        return false;
    }
    let same_network = match pending.payload.text("network_commitment") {
        Some(text) => text_same(text.as_str(), commitment),
        None => false,
    };
    let same_name = match pending.payload.text("member_name") {
        Some(text) => text_same(text.as_str(), name),
        None => false,
    };
    let same_serial = match read_credential_serial(&pending.payload) {
        Some(number) => number == serial,
        None => false,
    };
    same_network && (same_name || same_serial)
}

fn is_member_taken(ledger: &LedgerState, commitment: &str, name: &str, serial: u64) -> (r: bool)
    ensures
        r == member_taken(ledger@, commitment@, name@, serial),
{
    let ghost ids = ledger.pending_operation_ids.deep_view();
    let mut i: usize = 0;
    while i < ledger.pending_operation_ids.len()
        invariant
            i <= ids.len(),
            ids == ledger@.pending_operation_ids,
            ids == ledger.pending_operation_ids.deep_view(),
            ids.len() == ledger.pending_operation_ids@.len(),
            forall|j: int|
                0 <= j < i ==> !takes_member(
                    ledger@,
                    #[trigger] ids[j],
                    commitment@,
                    name@,
                    serial,
                ),
        decreases ids.len() - i,
    {
        assert(ids[i as int] == ledger.pending_operation_ids@[i as int]@);
        if let Some(pending) = ledger.operations.get(&ledger.pending_operation_ids[i]) {
            if admits_member(pending, commitment, name, serial) {
                assert(takes_member(ledger@, ids[i as int], commitment@, name@, serial));
                return true;
            }
        }
        i = i + 1;
    }
    false
}

/// Whether an operation conflicts with a pending one, or with what is final.
pub open spec fn candidate_conflict(ledger: LedgerModel, operation: SignedModel) -> Outcome<()> {
    let payload = operation.unsigned.payload;
    let module = operation.unsigned.module;
    let action = operation.unsigned.action;
    if number_taken(ledger, operation.unsigned.signer, operation.unsigned.account_nonce) {
        Err("another pending operation already uses this signer nonce"@)
    } else if module == "NetworkRegistry"@ && action == "IssueMember"@ {
        match required_text(payload, "network_commitment"@) {
            Err(refusal) => Err(refusal),
            Ok(commitment) => match required_text(payload, "member_name"@) {
                Err(refusal) => Err(refusal),
                Ok(name) => match credential_serial(payload) {
                    None => Err("member credential serial is invalid"@),
                    Some(serial) => if member_taken(ledger, commitment, name, serial) {
                        Err("another pending member issue already uses this name or serial"@)
                    } else {
                        Ok(())
                    },
                },
            },
        }
    } else if module == "NetworkRegistry"@ && action == "CreateNetwork"@ {
        match required_text(payload, "alias"@) {
            Err(refusal) => Err(refusal),
            Ok(alias) => if ledger.finalized_checkpoint matches Some(checkpoint)
                && checkpoint.network_aliases.contains_key(alias) {
                Err("network alias '"@ + alias + "' already exists in finalized state"@)
            } else {
                Ok(())
            },
        }
    } else {
        Ok(())
    }
}

fn check_conflict(ledger: &LedgerState, operation: &SignedOperation) -> (r: Result<()>)
    ensures
        outcome(r) == candidate_conflict(ledger@, operation.deep_view()),
{
    let payload = &operation.unsigned.payload;
    let module = operation.unsigned.module.as_str();
    let action = operation.unsigned.action.as_str();
    if is_number_taken(
        ledger,
        operation.unsigned.signer.as_str(),
        operation.unsigned.account_nonce,
    ) {
        return Err(Error::msg("another pending operation already uses this signer nonce"));
    }
    if text_same(module, "NetworkRegistry") && text_same(action, "IssueMember") {
        let commitment = payload_str(payload, "network_commitment")?;
        let name = payload_str(payload, "member_name")?;
        return match read_credential_serial(payload) {
            None => Err(Error::msg("member credential serial is invalid")),
            Some(serial) => {
                if is_member_taken(ledger, commitment.as_str(), name.as_str(), serial) {
                    return Err(
                        Error::msg("another pending member issue already uses this name or serial"),
                    );
                }
                Ok(())
            },
        };
    }
    if text_same(module, "NetworkRegistry") && text_same(action, "CreateNetwork") {
        let alias = payload_str(payload, "alias")?;
        if let Some(checkpoint) = finalized_state(ledger) {
            if checkpoint.network_aliases.contains_key(&alias) {
                return Err(
                    Error::owned(
                        join3(
                            "network alias '",
                            alias.as_str(),
                            "' already exists in finalized state",
                        ),
                    ),
                );
            }
        }
    }
    Ok(())
}

/// The number of the last final operation of an address.
pub open spec fn final_nonce(ledger: LedgerModel, signer: Seq<char>) -> u64 {
    match ledger.finalized_checkpoint {
        Some(checkpoint) => account_of(*checkpoint, signer).nonce,
        None => 0,
    }
}

fn find_final_nonce(ledger: &LedgerState, signer: &String) -> (r: u64)
    ensures
        r == final_nonce(ledger@, signer@),
{
    match finalized_state(ledger) {
        Some(checkpoint) => match checkpoint.accounts.get(signer) {
            Some(account) => account.nonce,
            None => 0,
        },
        None => 0,
    }
}

/// The ledger after an operation has been queued as a candidate for the next block.
pub open spec fn candidate_queued(
    ledger: LedgerModel,
    public_key: Seq<char>,
    operation: SignedModel,
) -> Outcome<LedgerModel> {
    let id = operation.intake.operation_id;
    let last = final_nonce(ledger, operation.unsigned.signer);
    match candidate_conflict(ledger, operation) {
        Err(refusal) => Err(refusal),
        Ok(_) => if ledger.pending_operation_ids.len() >= MAX_BLOCK_OPERATIONS {
            Err("consensus candidate pool is full"@)
        } else if operation.unsigned.account_nonce <= last || operation.unsigned.account_nonce
            > clamped_u64(last + 64) {
            Err("consensus candidate nonce is outside the 64-operation pending window"@)
        } else {
            match key_bound(ledger, operation.unsigned.signer, public_key) {
                Err(refusal) => Err(refusal),
                Ok(bound) => match envelope_checked(
                    bound,
                    operation.unsigned,
                    operation.intake.fee_units,
                ) {
                    Err(refusal) => Err(refusal),
                    Ok(price) => match fee_payable(bound, operation, price.fee) {
                        Err(refusal) => Err(refusal),
                        Ok(_) => {
                            let units = clamped_u64(
                                units_of(bound, bound.pending_operation_ids) as int,
                            ) + operation.intake.fee_units;
                            if units > u64::MAX {
                                Err("pending operation fee units overflow"@)
                            } else if units > bound.settings.fee_policy.max_units_per_block {
                                Err("consensus candidate exceeds the fee-unit block limit"@)
                            } else {
                                Ok(
                                    enqueued(
                                        bound,
                                        id,
                                        record_of(
                                            operation,
                                            id,
                                            ChargeModel { payer: None, charged: 0, burned: 0 },
                                        ),
                                    ),
                                )
                            }
                        },
                    },
                },
            }
        },
    }
}

fn queue_candidate(
    ledger: &mut LedgerState,
    public_key: &str,
    operation: &SignedOperation,
) -> (r: Result<()>)
    ensures
        match candidate_queued(old(ledger)@, public_key@, operation.deep_view()) {
            Ok(next) => r is Ok && final(ledger)@ == next,
            Err(refusal) => r matches Err(error) && error@ == refusal,
        },
{
    check_conflict(ledger, operation)?;
    if ledger.pending_operation_ids.len() >= MAX_BLOCK_OPERATIONS {
        return Err(Error::msg("consensus candidate pool is full"));
    }
    let last = find_final_nonce(ledger, &operation.unsigned.signer);
    if operation.unsigned.account_nonce <= last || operation.unsigned.account_nonce
        > last.saturating_add(64) {
        return Err(
            Error::msg("consensus candidate nonce is outside the 64-operation pending window"),
        );
    }
    bind_account_key(ledger, operation.unsigned.signer.as_str(), public_key)?;
    let price = validate_envelope(ledger, &operation.unsigned, operation.intake.fee_units)?;
    ensure_operation_fee_payable(ledger, operation, price.fee)?;
    match pending_fee_units(ledger).checked_add(operation.intake.fee_units) {
        None => {
            return Err(Error::msg("pending operation fee units overflow"));
        },
        Some(units) => {
            if units > ledger.settings.fee_policy.max_units_per_block {
                return Err(Error::msg("consensus candidate exceeds the fee-unit block limit"));
            }
        },
    }
    let id = operation.intake.operation_id.as_str();
    let record = make_record(
        operation,
        id,
        OperationFeeCharge { payer: None, charged: 0, burned: 0 },
    );
    enqueue(ledger, id, record);
    Ok(())
}

/// The ledger after an operation has been staged as a candidate. One that is known already, in the
/// ledger or in what was archived, changes nothing.
pub open spec fn candidate_staged(
    ledger: LedgerModel,
    public_key: Seq<char>,
    operation: SignedModel,
    archived: bool,
    now: i64,
) -> Outcome<LedgerModel> {
    match candidate_checked(public_key, operation, now) {
        Err(refusal) => Err(refusal),
        Ok(_) => if archived {
            Ok(ledger)
        } else if operation.unsigned.ledger_id != ledger.ledger_id {
            Err("consensus candidate targets another ledger"@)
        } else if ledger.consensus.proposal is Some || ledger.consensus.valid_proposal is Some {
            Err("consensus candidate pool is frozen for a proposal"@)
        } else if ledger.operations.contains_key(operation.intake.operation_id) {
            Ok(ledger)
        } else {
            candidate_queued(ledger, public_key, operation)
        },
    }
}

/// Stages an operation as a candidate for the next block. A refused one leaves the ledger as it was.
pub fn stage_consensus_candidate(
    ledger: &mut LedgerState,
    envelope: &PendingOperationEnvelope,
    archived: bool,
    now: i64,
) -> (r: Result<String>)
    ensures
        match candidate_staged(
            old(ledger)@,
            envelope.deep_view().public_key,
            envelope.deep_view().operation,
            archived,
            now,
        ) {
            Ok(next) => final(ledger)@ == next && (r matches Ok(id) && id@
                == envelope.deep_view().operation.intake.operation_id),
            Err(refusal) => final(ledger)@ == old(ledger)@ && (r matches Err(error) && error@
                == refusal),
        },
{
    let operation = &envelope.operation;
    let public_key = envelope.public_key.as_str();
    check_candidate(public_key, operation, now)?;
    let id = operation.intake.operation_id.clone();
    if archived {
        return Ok(id);
    }
    if !text_same(operation.unsigned.ledger_id.as_str(), ledger.ledger_id.as_str()) {
        return Err(Error::msg("consensus candidate targets another ledger"));
    }
    if ledger.consensus.proposal.is_some() || ledger.consensus.valid_proposal.is_some() {
        return Err(Error::msg("consensus candidate pool is frozen for a proposal"));
    }
    if ledger.operations.contains_key(&id) {
        return Ok(id);
    }
    let mut next = ledger.copy();
    queue_candidate(&mut next, public_key, operation)?;
    *ledger = next;
    Ok(id)
}

/// Whether an operation that cannot be applied now is refused at once.
pub open spec fn refused_at_once(module: Seq<char>, action: Seq<char>) -> bool {
    module == "TrafficPayment"@ && (action == "Refund"@ || action == "ReserveSession"@) || module
        == "NetworkEscrow"@ && action == "SetSpendingPolicy"@
}

/// The ledger after an operation has been applied, or has been staged where it cannot be applied
/// yet. Where it cannot be staged either, it is refused for the reason why it cannot be applied.
pub open spec fn operation_taken(
    ledger: LedgerModel,
    public_key: Seq<char>,
    operation: SignedModel,
    archived: bool,
    now: i64,
) -> Outcome<LedgerModel> {
    match operation_applied(ledger, public_key, operation, now) {
        Ok(next) => Ok(next),
        Err(refusal) => if refused_at_once(operation.unsigned.module, operation.unsigned.action) {
            Err(refusal)
        } else {
            match candidate_staged(ledger, public_key, operation, archived, now) {
                Ok(next) => Ok(next),
                Err(_) => Err(refusal),
            }
        },
    }
}

/// Applies an operation, or stages it where it cannot be applied yet.
pub fn submit_consensus_operation(
    ledger: &mut LedgerState,
    envelope: &PendingOperationEnvelope,
    archived: bool,
    now: i64,
) -> (r: Result<String>)
    ensures
        match operation_taken(
            old(ledger)@,
            envelope.deep_view().public_key,
            envelope.deep_view().operation,
            archived,
            now,
        ) {
            Ok(next) => final(ledger)@ == next && (r matches Ok(id) && id@
                == envelope.deep_view().operation.intake.operation_id),
            Err(refusal) => final(ledger)@ == old(ledger)@ && (r matches Err(error) && error@
                == refusal),
        },
{
    match submit_consensus_operation_strict(ledger, envelope, now) {
        Ok(id) => Ok(id),
        Err(refusal) => {
            let module = envelope.operation.unsigned.module.as_str();
            let action = envelope.operation.unsigned.action.as_str();
            if text_same(module, "TrafficPayment") && (text_same(action, "Refund") || text_same(
                action,
                "ReserveSession",
            )) || text_same(module, "NetworkEscrow") && text_same(action, "SetSpendingPolicy") {
                return Err(refusal);
            }
            match stage_consensus_candidate(ledger, envelope, archived, now) {
                Ok(id) => Ok(id),
                Err(_) => Err(refusal),
            }
        },
    }
}

/// A candidate that has just been staged keeps its signer's number from being staged again.
pub proof fn staged_number_is_taken(
    ledger: LedgerModel,
    public_key: Seq<char>,
    operation: SignedModel,
    now: i64,
)
    requires
        candidate_queued(ledger, public_key, operation) is Ok,
    ensures
        ({
            let next = candidate_queued(ledger, public_key, operation)->Ok_0;
            &&& next.operations.contains_key(operation.intake.operation_id)
            &&& next.operations[operation.intake.operation_id].status == OperationStatus::Pending
            &&& candidate_staged(next, public_key, operation, false, now) matches Ok(again)
                ==> again == next
            &&& next.nodes == ledger.nodes && next.networks == ledger.networks && next.blocks
                == ledger.blocks
        }),
{
}

/// A candidate waits for a block only with a number that its signer has free, among the next
/// sixty-four after the last final one, and while the pool has room. It is not charged yet.
pub proof fn candidates_wait_in_their_window(
    ledger: LedgerModel,
    public_key: Seq<char>,
    operation: SignedModel,
)
    requires
        candidate_queued(ledger, public_key, operation) is Ok,
    ensures
        ({
            let next = candidate_queued(ledger, public_key, operation)->Ok_0;
            let id = operation.intake.operation_id;
            let signer = operation.unsigned.signer;
            let nonce = operation.unsigned.account_nonce;
            let last = match ledger.finalized_checkpoint {
                Some(state) => if state.accounts.contains_key(signer) {
                    state.accounts[signer].nonce as int
                } else {
                    0
                },
                None => 0,
            };
            &&& last < nonce <= last + 64
            &&& ledger.pending_operation_ids.len() < 10_000
            &&& next.operations[id].status == OperationStatus::Pending
            &&& next.operations[id].fee_charged == 0
            &&& next.operations[id].signer == signer && next.operations[id].nonce == nonce
            &&& forall|i: int|
                0 <= i < ledger.pending_operation_ids.len() && ledger.operations.contains_key(
                    #[trigger] ledger.pending_operation_ids[i],
                ) ==> ledger.operations[ledger.pending_operation_ids[i]].signer != signer
                    || ledger.operations[ledger.pending_operation_ids[i]].nonce != nonce
        }),
{
    let signer = operation.unsigned.signer;
    let nonce = operation.unsigned.account_nonce;
    assert forall|i: int|
        0 <= i < ledger.pending_operation_ids.len() && ledger.operations.contains_key(
            #[trigger] ledger.pending_operation_ids[i],
        ) implies ledger.operations[ledger.pending_operation_ids[i]].signer != signer
        || ledger.operations[ledger.pending_operation_ids[i]].nonce != nonce by {
        assert(!takes_number(ledger, ledger.pending_operation_ids[i], signer, nonce));
    }
}

/// An operation that could not be applied is charged and numbered like any other, and queued as
/// rejected for the reason given, of which the first five hundred and twelve characters are kept.
pub proof fn rejected_operations_count_all_the_same(
    ledger: LedgerModel,
    public_key: Seq<char>,
    operation: SignedModel,
    now: i64,
    reason: Seq<char>,
)
    requires
        operation_rejected(ledger, public_key, operation, now, reason) is Ok,
    ensures
        ({
            let next = operation_rejected(ledger, public_key, operation, now, reason)->Ok_0;
            let id = operation.intake.operation_id;
            let record = next.operations[id];
            &&& record.status == OperationStatus::Rejected
            &&& record.error matches Some(kept) && kept.is_prefix_of(reason) && kept.len() <= 512
                && (reason.len() <= 512 ==> kept.len() == reason.len()) && (reason.len() >= 512
                ==> kept.len() == 512)
            &&& next.accounts[operation.unsigned.signer].nonce == operation.unsigned.account_nonce
            &&& next.pending_operation_ids.to_multiset()
                == ledger.pending_operation_ids.to_multiset().insert(id)
            &&& next.burned == ledger.burned + record.fee_charged
            &&& record.nonce == operation.unsigned.account_nonce && record.signer
                == operation.unsigned.signer
            &&& operation.unsigned.ledger_id == ledger.ledger_id
        }),
{
    let prepared = signer_prepared(
        ledger,
        public_key,
        operation,
        "rejected operation nonce is not the next account nonce"@,
    )->Ok_0;
    queued_operations_are_numbered(prepared, operation, operation.intake.operation_id, now);
}

/// Whatever may wait for a block is something that can be applied.
pub proof fn candidates_can_be_applied(module: Seq<char>, action: Seq<char>)
    ensures
        may_be_candidate(module, action) ==> route_of(module, action) != Route::Nobody,
{
}

/// An operation that is known already changes nothing when it comes again.
pub proof fn known_operations_change_nothing(
    ledger: LedgerModel,
    public_key: Seq<char>,
    operation: SignedModel,
    archived: bool,
    now: i64,
)
    requires
        ledger.operations.contains_key(operation.intake.operation_id),
    ensures
        operation_taken(ledger, public_key, operation, archived, now) == Ok::<
            LedgerModel,
            Seq<char>,
        >(ledger),
        candidate_staged(ledger, public_key, operation, archived, now) matches Ok(next) ==> next
            == ledger,
{
}

} // verus!
