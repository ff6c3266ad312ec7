use vstd::prelude::*;

use crate::attestation::{apply_availability_attestation, attestation_applied};
use crate::bonds::{
    apply_claim, apply_drain, apply_governance_bond, apply_governance_exit,
    apply_governance_withdrawal, apply_service_withdrawal, apply_validator_bond,
    apply_validator_exit, apply_validator_withdrawal, governance_bond_withdrawn, governance_bonded,
    governance_exit_requested, node_drained, owned_node, read_owned_node, reward_claimed,
    service_bond_withdrawn, validator_bond_withdrawn, validator_bonded, validator_exit_requested,
};
use crate::envelope::{
    check_signer, is_current, made_at, operation_is_current, operation_made_at, prepare_signer,
    signer_checked, signer_prepared,
};
use crate::error::{Error, Outcome, Result};
use crate::model::{
    CheckpointModel, Field, FieldModel, LedgerModel, LedgerState, OperationModel, Payload,
    ReceiptModel, ReceiverReceipt, SenderCheckpoint, SignedModel, SignedOperation,
};
use crate::nodes::{apply_node_price_update, price_updated};
use crate::operations::{complete_operation, operation_finalized};
use crate::payload::{
    malformed, malformed_field, parse_payload_u128, payload_str, required_amount, required_text,
    PayloadModel,
};
use crate::registration::{
    apply_reward_ip_update, node_registered, register_node, reward_ip_updated,
};
use crate::text::text_same;
use crate::traffic::{settle_traffic, traffic_settled, TrafficProtocolFee};

verus! {

/// The ledger after a node's owner has moved it to another address.
pub open spec fn address_step(
    ledger: LedgerModel,
    payload: PayloadModel,
    signer: Seq<char>,
    public_key: Seq<char>,
    now: i64,
) -> Outcome<LedgerModel> {
    match owned_node(ledger, payload, signer, public_key) {
        Err(refusal) => Err(refusal),
        Ok(node_id) => match required_text(payload, "endpoint"@) {
            Err(refusal) => Err(refusal),
            Ok(endpoint) => match required_text(payload, "reward_ip"@) {
                Err(refusal) => Err(refusal),
                Ok(reward_ip) => match required_text(payload, "ip_slot"@) {
                    Err(refusal) => Err(refusal),
                    Ok(declared) => reward_ip_updated(
                        ledger,
                        node_id,
                        endpoint,
                        reward_ip,
                        declared,
                        now,
                    ),
                },
            },
        },
    }
}

fn apply_address_step(
    ledger: &mut LedgerState,
    payload: &Payload,
    signer: &str,
    public_key: &str,
    now: i64,
) -> (r: Result<()>)
    ensures
        match address_step(old(ledger)@, payload.deep_view(), signer@, public_key@, now) {
            Ok(next) => r is Ok && final(ledger)@ == next,
            Err(refusal) => final(ledger)@ == old(ledger)@ && (r matches Err(error) && error@
                == refusal),
        },
{
    let node_id = read_owned_node(ledger, payload, signer, public_key)?;
    let endpoint = payload_str(payload, "endpoint")?;
    let reward_ip = payload_str(payload, "reward_ip")?;
    let declared = payload_str(payload, "ip_slot")?;
    apply_reward_ip_update(
        ledger,
        node_id,
        endpoint.as_str(),
        reward_ip.as_str(),
        declared.as_str(),
        now,
    )
}

/// The ledger after a node's owner has set its price.
pub open spec fn price_step(
    ledger: LedgerModel,
    payload: PayloadModel,
    signer: Seq<char>,
    public_key: Seq<char>,
) -> Outcome<LedgerModel> {
    match owned_node(ledger, payload, signer, public_key) {
        Err(refusal) => Err(refusal),
        Ok(node_id) => match required_amount(payload, "price_per_gib_base_units"@) {
            Err(refusal) => Err(refusal),
            Ok(price) => price_updated(ledger, node_id, price),
        },
    }
}

fn apply_price_step(
    ledger: &mut LedgerState,
    payload: &Payload,
    signer: &str,
    public_key: &str,
) -> (r: Result<()>)
    ensures
        match price_step(old(ledger)@, payload.deep_view(), signer@, public_key@) {
            Ok(next) => r is Ok && final(ledger)@ == next,
            Err(refusal) => final(ledger)@ == old(ledger)@ && (r matches Err(error) && error@
                == refusal),
        },
{
    let node_id = read_owned_node(ledger, payload, signer, public_key)?;
    let price = parse_payload_u128(payload, "price_per_gib_base_units")?;
    apply_node_price_update(ledger, node_id, price)
}

/// The checkpoint and the receipt in a settlement.
pub open spec fn settlement_read(payload: PayloadModel) -> Outcome<(CheckpointModel, ReceiptModel)> {
    if !payload.contains_key("sender_checkpoint"@) {
        Err("traffic SenderCheckpoint is missing"@)
    } else {
        match payload["sender_checkpoint"@] {
            FieldModel::Checkpoint(checkpoint) => if !payload.contains_key("receiver_receipt"@) {
                Err("traffic ReceiverReceipt is missing"@)
            } else {
                match payload["receiver_receipt"@] {
                    FieldModel::Receipt(receipt) => Ok((checkpoint, receipt)),
                    _ => Err(malformed_field("receiver_receipt"@)),
                }
            },
            _ => Err(malformed_field("sender_checkpoint"@)),
        }
    }
}

/// The ledger after a session has been settled, and what the protocol keeps.
pub open spec fn settlement_step(
    ledger: LedgerModel,
    public_key: Seq<char>,
    operation: SignedModel,
) -> Outcome<(LedgerModel, TrafficProtocolFee)> {
    match settlement_read(operation.unsigned.payload) {
        Err(refusal) => Err(refusal),
        Ok(found) => traffic_settled(
            ledger,
            operation.unsigned.signer,
            public_key,
            operation.intake.operation_id,
            found.0,
            found.1,
            made_at(operation),
        ),
    }
}

fn apply_settlement_step(
    ledger: &mut LedgerState,
    public_key: &str,
    operation: &SignedOperation,
) -> (r: Result<TrafficProtocolFee>)
    ensures
        match settlement_step(old(ledger)@, public_key@, operation.deep_view()) {
            Ok(next) => final(ledger)@ == next.0 && (r matches Ok(fee) && fee == next.1),
            Err(refusal) => r matches Err(error) && error@ == refusal,
        },
{
    let payload = &operation.unsigned.payload;
    let checkpoint = match payload.get("sender_checkpoint") {
        None => {
            return Err(Error::msg("traffic SenderCheckpoint is missing"));
        },
        Some(Field::Checkpoint(checkpoint)) => checkpoint,
        Some(_) => {
            return Err(malformed("sender_checkpoint"));
        },
    };
    let receipt = match payload.get("receiver_receipt") {
        None => {
            return Err(Error::msg("traffic ReceiverReceipt is missing"));
        },
        Some(Field::Receipt(receipt)) => receipt,
        Some(_) => {
            return Err(malformed("receiver_receipt"));
        },
    };
    settle_traffic(
        ledger,
        operation.unsigned.signer.as_str(),
        public_key,
        operation.intake.operation_id.as_str(),
        checkpoint,
        receipt,
        operation_made_at(operation),
    )
}

/// What the protocol keeps of an operation that settles nothing.
pub open spec fn no_fee() -> TrafficProtocolFee {
    TrafficProtocolFee { charged: 0, burned: 0, to_treasury: 0 }
}

pub open spec fn without_fee(stepped: Outcome<LedgerModel>) -> Outcome<
    (LedgerModel, TrafficProtocolFee),
> {
    match stepped {
        Err(refusal) => Err(refusal),
        Ok(next) => Ok((next, no_fee())),
    }
}

/// What a registry operation does to the ledger.
#[verifier::opaque]
pub open spec fn registry_step(
    ledger: LedgerModel,
    public_key: Seq<char>,
    operation: SignedModel,
    now: i64,
) -> Outcome<LedgerModel> {
    let action = operation.unsigned.action;
    let payload = operation.unsigned.payload;
    let signer = operation.unsigned.signer;
    let id = operation.intake.operation_id;
    if action == "RegisterNode"@ {
        node_registered(ledger, payload, signer, public_key, made_at(operation), now)
    } else if action == "UpdateRewardIp"@ {
        address_step(ledger, payload, signer, public_key, now)
    } else if action == "UpdatePrice"@ {
        price_step(ledger, payload, signer, public_key)
    } else if action == "DrainNode"@ {
        node_drained(ledger, payload, signer, public_key)
    } else if action == "WithdrawServiceBond"@ {
        service_bond_withdrawn(ledger, payload, signer, public_key, id, now)
    } else {
        Err("unsupported signed Node operation"@)
    }
}

fn apply_registry_step(
    ledger: &mut LedgerState,
    public_key: &str,
    operation: &SignedOperation,
    now: i64,
) -> (r: Result<()>)
    ensures
        match registry_step(old(ledger)@, public_key@, operation.deep_view(), now) {
            Ok(next) => r is Ok && final(ledger)@ == next,
            Err(refusal) => final(ledger)@ == old(ledger)@ && (r matches Err(error) && error@
                == refusal),
        },
{
    proof {
        reveal(registry_step);
    }
    let action = operation.unsigned.action.as_str();
    let payload = &operation.unsigned.payload;
    let signer = operation.unsigned.signer.as_str();
    let id = operation.intake.operation_id.as_str();
    if text_same(action, "RegisterNode") {
        register_node(ledger, payload, signer, public_key, operation_made_at(operation), now)
    } else if text_same(action, "UpdateRewardIp") {
        apply_address_step(ledger, payload, signer, public_key, now)
    } else if text_same(action, "UpdatePrice") {
        apply_price_step(ledger, payload, signer, public_key)
    } else if text_same(action, "DrainNode") {
        apply_drain(ledger, payload, signer, public_key)
    } else if text_same(action, "WithdrawServiceBond") {
        apply_service_withdrawal(ledger, payload, signer, public_key, id, now)
    } else {
        Err(Error::msg("unsupported signed Node operation"))
    }
}

/// What an operation on bonds does to the ledger.
#[verifier::opaque]
pub open spec fn stake_step(
    ledger: LedgerModel,
    public_key: Seq<char>,
    operation: SignedModel,
    now: i64,
) -> Outcome<LedgerModel> {
    let action = operation.unsigned.action;
    let payload = operation.unsigned.payload;
    let signer = operation.unsigned.signer;
    let id = operation.intake.operation_id;
    let at = made_at(operation);
    if action == "BondGovernance"@ {
        governance_bonded(ledger, payload, signer, at)
    } else if action == "ExitGovernance"@ {
        governance_exit_requested(ledger, payload, signer, public_key, at)
    } else if action == "WithdrawGovernanceBond"@ {
        governance_bond_withdrawn(ledger, payload, signer, public_key, id, at)
    } else if action == "BondValidator"@ {
        validator_bonded(ledger, payload, signer, at)
    } else if action == "ExitValidator"@ {
        validator_exit_requested(ledger, payload, signer, public_key, at)
    } else if action == "WithdrawValidatorBond"@ {
        validator_bond_withdrawn(ledger, payload, signer, public_key, id, now)
    } else {
        Err("unsupported signed Node operation"@)
    }
}

fn apply_stake_step(
    ledger: &mut LedgerState,
    public_key: &str,
    operation: &SignedOperation,
    now: i64,
) -> (r: Result<()>)
    ensures
        match stake_step(old(ledger)@, public_key@, operation.deep_view(), now) {
            Ok(next) => r is Ok && final(ledger)@ == next,
            Err(refusal) => final(ledger)@ == old(ledger)@ && (r matches Err(error) && error@
                == refusal),
        },
{
    proof {
        reveal(stake_step);
    }
    let action = operation.unsigned.action.as_str();
    let payload = &operation.unsigned.payload;
    let signer = operation.unsigned.signer.as_str();
    let id = operation.intake.operation_id.as_str();
    let at = operation_made_at(operation);
    if text_same(action, "BondGovernance") {
        apply_governance_bond(ledger, payload, signer, at)
    } else if text_same(action, "ExitGovernance") {
        apply_governance_exit(ledger, payload, signer, public_key, at)
    } else if text_same(action, "WithdrawGovernanceBond") {
        apply_governance_withdrawal(ledger, payload, signer, public_key, id, at)
    } else if text_same(action, "BondValidator") {
        apply_validator_bond(ledger, payload, signer, at)
    } else if text_same(action, "ExitValidator") {
        apply_validator_exit(ledger, payload, signer, public_key, at)
    } else if text_same(action, "WithdrawValidatorBond") {
        apply_validator_withdrawal(ledger, payload, signer, public_key, id, now)
    } else {
        Err(Error::msg("unsupported signed Node operation"))
    }
}

/// What an operation of a node does to the ledger, before it is charged and queued.
#[verifier::opaque]
pub open spec fn node_step(
    ledger: LedgerModel,
    public_key: Seq<char>,
    operation: SignedModel,
    now: i64,
) -> Outcome<(LedgerModel, TrafficProtocolFee)> {
    let module = operation.unsigned.module;
    let action = operation.unsigned.action;
    let id = operation.intake.operation_id;
    if module == "NodeRegistry"@ {
        without_fee(registry_step(ledger, public_key, operation, now))
    } else if module == "StakeVault"@ {
        without_fee(stake_step(ledger, public_key, operation, now))
    } else if module == "NodeEmissionController"@ && action == "ClaimNodeReward"@ {
        without_fee(
            reward_claimed(
                ledger,
                operation.unsigned.payload,
                operation.unsigned.signer,
                public_key,
                id,
            ),
        )
    } else if module == "Availability"@ && action == "AttestProbe"@ {
        without_fee(
            attestation_applied(ledger, public_key, operation, id, made_at(operation)),
        )
    } else if module == "TrafficPayment"@ && action == "Settle"@ {
        settlement_step(ledger, public_key, operation)
    } else {
        Err("unsupported signed Node operation"@)
    }
}

fn apply_node_step(
    ledger: &mut LedgerState,
    public_key: &str,
    operation: &SignedOperation,
    now: i64,
) -> (r: Result<TrafficProtocolFee>)
    ensures
        match node_step(old(ledger)@, public_key@, operation.deep_view(), now) {
            Ok(next) => final(ledger)@ == next.0 && (r matches Ok(fee) && fee == next.1),
            Err(refusal) => r matches Err(error) && error@ == refusal,
        },
{
    proof {
        reveal(node_step);
    }
    let module = operation.unsigned.module.as_str();
    let action = operation.unsigned.action.as_str();
    let id = operation.intake.operation_id.as_str();
    if text_same(module, "TrafficPayment") && text_same(action, "Settle") {
        assert("TrafficPayment"@ != "NodeRegistry"@ && "TrafficPayment"@ != "StakeVault"@
            && "TrafficPayment"@ != "NodeEmissionController"@ && "TrafficPayment"@
            != "Availability"@) by {
            reveal_strlit("TrafficPayment");
            reveal_strlit("NodeRegistry");
            reveal_strlit("StakeVault");
            reveal_strlit("NodeEmissionController");
            reveal_strlit("Availability");
            assert("TrafficPayment"@.len() == 14);
            assert("NodeRegistry"@.len() == 12);
            assert("StakeVault"@.len() == 10);
            assert("NodeEmissionController"@.len() == 22);
            assert("Availability"@.len() == 12);
        }
        return apply_settlement_step(ledger, public_key, operation);
    }
    if text_same(module, "NodeRegistry") {
        apply_registry_step(ledger, public_key, operation, now)?;
    } else if text_same(module, "StakeVault") {
        apply_stake_step(ledger, public_key, operation, now)?;
    } else if text_same(module, "NodeEmissionController") && text_same(action, "ClaimNodeReward") {
        apply_claim(
            ledger,
            &operation.unsigned.payload,
            operation.unsigned.signer.as_str(),
            public_key,
            id,
        )?;
    } else if text_same(module, "Availability") && text_same(action, "AttestProbe") {
        apply_availability_attestation(
            ledger,
            public_key,
            operation,
            id,
            operation_made_at(operation),
        )?;
    } else {
        return Err(Error::msg("unsupported signed Node operation"));
    }
    Ok(TrafficProtocolFee { charged: 0, burned: 0, to_treasury: 0 })
}

/// The ledger after what the protocol keeps has been noted with an operation.
pub open spec fn fee_noted(
    ledger: LedgerModel,
    operation_id: Seq<char>,
    fee: TrafficProtocolFee,
) -> Outcome<LedgerModel> {
    let record = ledger.operations[operation_id];
    if fee.charged == 0 || !ledger.operations.contains_key(operation_id) {
        Ok(ledger)
    } else if record.fee_charged + fee.charged > u128::MAX {
        Err("operation fee record overflow"@)
    } else if record.fee_burned + fee.burned > u128::MAX {
        Err("operation burn fee record overflow"@)
    } else if record.fee_to_treasury + fee.to_treasury > u128::MAX {
        Err("operation treasury fee record overflow"@)
    } else {
        Ok(
            LedgerModel {
                operations: ledger.operations.insert(
                    operation_id,
                    OperationModel {
                        fee_charged: (record.fee_charged + fee.charged) as u128,
                        fee_burned: (record.fee_burned + fee.burned) as u128,
                        fee_to_treasury: (record.fee_to_treasury + fee.to_treasury) as u128,
                        ..record
                    },
                ),
                ..ledger
            },
        )
    }
}

fn note_fee(ledger: &mut LedgerState, operation_id: &String, fee: TrafficProtocolFee) -> (r: Result<
    (),
>)
    ensures
        match fee_noted(old(ledger)@, operation_id@, fee) {
            Ok(next) => r is Ok && final(ledger)@ == next,
            Err(refusal) => r matches Err(error) && error@ == refusal,
        },
{
    if fee.charged == 0 {
        return Ok(());
    }
    if let Some(record) = ledger.operations.get_mut(operation_id) {
        match record.fee_charged.checked_add(fee.charged) {
            None => {
                return Err(Error::msg("operation fee record overflow"));
            },
            Some(charged) => {
                record.fee_charged = charged;
            },
        }
        match record.fee_burned.checked_add(fee.burned) {
            None => {
                return Err(Error::msg("operation burn fee record overflow"));
            },
            Some(burned) => {
                record.fee_burned = burned;
            },
        }
        match record.fee_to_treasury.checked_add(fee.to_treasury) {
            None => {
                return Err(Error::msg("operation treasury fee record overflow"));
            },
            Some(to_treasury) => {
                record.fee_to_treasury = to_treasury;
            },
        }
    }
    Ok(())
}

/// The ledger after an operation of a node. One that is known already changes nothing.
pub open spec fn node_operation_submitted(
    ledger: LedgerModel,
    public_key: Seq<char>,
    operation: SignedModel,
    now: i64,
) -> Outcome<LedgerModel> {
    let id = operation.intake.operation_id;
    match signer_checked(public_key, operation) {
        Err(refusal) => Err(refusal),
        Ok(_) => if !is_current(operation, now) {
            Err("signed Node operation is invalid or expired"@)
        } else if operation.unsigned.ledger_id != ledger.ledger_id {
            Err("signed Node operation targets another ledger"@)
        } else if ledger.operations.contains_key(id) {
            Ok(ledger)
        } else {
            match signer_prepared(
                ledger,
                public_key,
                operation,
                "operation nonce is not the next account nonce"@,
            ) {
                Err(refusal) => Err(refusal),
                Ok(prepared) => match node_step(prepared, public_key, operation, now) {
                    Err(refusal) => Err(refusal),
                    Ok(stepped) => match operation_finalized(
                        stepped.0,
                        operation,
                        id,
                        made_at(operation),
                    ) {
                        Err(refusal) => Err(refusal),
                        Ok(next) => fee_noted(next, id, stepped.1),
                    },
                },
            }
        },
    }
}

/// Takes over an operation of a node. A refused operation leaves the ledger as it was.
pub fn submit_signed_node_operation(
    ledger: &mut LedgerState,
    public_key: &str,
    operation: &SignedOperation,
    now: i64,
) -> (r: Result<()>)
    ensures
        match node_operation_submitted(old(ledger)@, public_key@, operation.deep_view(), now) {
            Ok(next) => r is Ok && final(ledger)@ == next,
            Err(refusal) => final(ledger)@ == old(ledger)@ && (r matches Err(error) && error@
                == refusal),
        },
{
    check_signer(public_key, operation)?;
    if !operation_is_current(operation, now) {
        return Err(Error::msg("signed Node operation is invalid or expired"));
    }
    if !text_same(operation.unsigned.ledger_id.as_str(), ledger.ledger_id.as_str()) {
        return Err(Error::msg("signed Node operation targets another ledger"));
    }
    if ledger.operations.contains_key(&operation.intake.operation_id) {
        return Ok(());
    }
    let mut next = ledger.copy();
    prepare_signer(
        &mut next,
        public_key,
        operation,
        "operation nonce is not the next account nonce",
    )?;
    let fee = apply_node_step(&mut next, public_key, operation, now)?;
    complete_operation(
        &mut next,
        operation,
        operation.intake.operation_id.as_str(),
        operation_made_at(operation),
    )?;
    note_fee(&mut next, &operation.intake.operation_id, fee)?;
    *ledger = next;
    Ok(())
}

/// An operation of a node that is submitted again is not applied again.
pub proof fn known_node_operation_changes_nothing(
    ledger: LedgerModel,
    public_key: Seq<char>,
    operation: SignedModel,
    now: i64,
)
    requires
        ledger.operations.contains_key(operation.intake.operation_id),
    ensures
        node_operation_submitted(ledger, public_key, operation, now) matches Ok(next) ==> next
            == ledger,
{
}

/// An operation that has been taken over cannot be taken over again, even under another identifier:
/// its number is used up.
pub proof fn operations_are_numbered_once(
    ledger: LedgerModel,
    public_key: Seq<char>,
    operation: SignedModel,
    now: i64,
)
    requires
        !ledger.operations.contains_key(operation.intake.operation_id),
        node_operation_submitted(ledger, public_key, operation, now) is Ok,
    ensures
        ({
            let next = node_operation_submitted(ledger, public_key, operation, now)->Ok_0;
            &&& crate::accounts::account_of(next, operation.unsigned.signer).nonce
                == operation.unsigned.account_nonce
            &&& signer_prepared(
                next,
                public_key,
                operation,
                "operation nonce is not the next account nonce"@,
            ) is Err
            &&& next.operations.contains_key(operation.intake.operation_id)
        }),
{
    reveal(operation_finalized);
}

} // verus!
