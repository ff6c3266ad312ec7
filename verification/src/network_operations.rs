use vstd::prelude::*;

use crate::envelope::{
    check_signer, is_current, made_at, operation_is_current, operation_made_at, prepare_signer,
    signer_checked, signer_prepared,
};
use crate::error::{outcome, Error, Outcome, Result};
use crate::model::{
    LedgerModel, LedgerState, NetworkModel, NetworkRecord, SignedModel, SignedOperation,
};
use crate::networks::{
    found_network, fund_network_escrow, network_created, network_funded, policy_set,
    set_spending_policy, NetworkReply, ReplyModel,
};
use crate::operations::{complete_operation, operation_finalized};
use crate::sessions::{
    issue_member_credential, member_issued, member_revoked, refund_reservation,
    reservation_refunded, reserve_session, revoke_member_by_serial, session_reserved,
};
use crate::table::Replicate;
use crate::text::{join2, text_same};

verus! {

/// What a network operation does to the ledger, before it is charged and queued.
#[verifier::opaque]
pub open spec fn network_step(
    ledger: LedgerModel,
    public_key: Seq<char>,
    operation: SignedModel,
) -> Outcome<(LedgerModel, ReplyModel)> {
    let module = operation.unsigned.module;
    let action = operation.unsigned.action;
    let payload = operation.unsigned.payload;
    let signer = operation.unsigned.signer;
    let id = operation.intake.operation_id;
    let at = made_at(operation);
    if module == "NetworkRegistry"@ && action == "CreateNetwork"@ {
        network_created(ledger, payload, signer, public_key, at)
    } else if module == "NetworkEscrow"@ && action == "FundNetwork"@ {
        network_funded(ledger, payload, signer, id)
    } else if module == "NetworkEscrow"@ && action == "SetSpendingPolicy"@ {
        policy_set(ledger, payload, signer, public_key)
    } else if module == "TrafficPayment"@ && action == "ReserveSession"@ {
        session_reserved(ledger, payload, signer, public_key, id, at)
    } else if module == "TrafficPayment"@ && action == "Refund"@ {
        reservation_refunded(ledger, payload, signer, at)
    } else if module == "NetworkRegistry"@ && action == "RevokeMember"@ {
        member_revoked(ledger, payload, signer, id, at)
    } else if module == "NetworkRegistry"@ && action == "IssueMember"@ {
        member_issued(ledger, payload, signer, public_key, at)
    } else {
        Err("unsupported signed network operation"@)
    }
}

fn apply_network_step(
    ledger: &mut LedgerState,
    public_key: &str,
    operation: &SignedOperation,
) -> (r: Result<NetworkReply>)
    ensures
        match network_step(old(ledger)@, public_key@, operation.deep_view()) {
            Ok(next) => final(ledger)@ == next.0 && (r matches Ok(reply) && reply.deep_view()
                == next.1),
            Err(refusal) => final(ledger)@ == old(ledger)@ && (r matches Err(error) && error@
                == refusal),
        },
{
    proof {
        reveal(network_step);
    }
    let module = operation.unsigned.module.as_str();
    let action = operation.unsigned.action.as_str();
    let payload = &operation.unsigned.payload;
    let signer = operation.unsigned.signer.as_str();
    let id = operation.intake.operation_id.as_str();
    let at = operation_made_at(operation);
    if text_same(module, "NetworkRegistry") && text_same(action, "CreateNetwork") {
        found_network(ledger, payload, signer, public_key, at)
    } else if text_same(module, "NetworkEscrow") && text_same(action, "FundNetwork") {
        fund_network_escrow(ledger, payload, signer, id)
    } else if text_same(module, "NetworkEscrow") && text_same(action, "SetSpendingPolicy") {
        set_spending_policy(ledger, payload, signer, public_key)
    } else if text_same(module, "TrafficPayment") && text_same(action, "ReserveSession") {
        reserve_session(ledger, payload, signer, public_key, id, at)
    } else if text_same(module, "TrafficPayment") && text_same(action, "Refund") {
        refund_reservation(ledger, payload, signer, at)
    } else if text_same(module, "NetworkRegistry") && text_same(action, "RevokeMember") {
        revoke_member_by_serial(ledger, payload, signer, id, at)
    } else if text_same(module, "NetworkRegistry") && text_same(action, "IssueMember") {
        issue_member_credential(ledger, payload, signer, public_key, at)
    } else {
        Err(Error::msg("unsupported signed network operation"))
    }
}

/// The ledger after a network operation, and what its sender is told.
pub open spec fn network_operation_submitted(
    ledger: LedgerModel,
    public_key: Seq<char>,
    operation: SignedModel,
    now: i64,
) -> Outcome<(LedgerModel, ReplyModel)> {
    match signer_checked(public_key, operation) {
        Err(refusal) => Err(refusal),
        Ok(_) => if !is_current(operation, now) {
            Err("signed operation version or validity is invalid"@)
        } else if operation.unsigned.ledger_id != ledger.ledger_id {
            Err("signed operation targets a different ledger"@)
        } else {
            match signer_prepared(
                ledger,
                public_key,
                operation,
                "operation nonce is not the next account nonce"@,
            ) {
                Err(refusal) => Err(refusal),
                Ok(prepared) => match network_step(prepared, public_key, operation) {
                    Err(refusal) => Err(refusal),
                    Ok(stepped) => match operation_finalized(
                        stepped.0,
                        operation,
                        operation.intake.operation_id,
                        made_at(operation),
                    ) {
                        Err(refusal) => Err(refusal),
                        Ok(next) => Ok((next, stepped.1)),
                    },
                },
            }
        },
    }
}

/// Takes over an operation of a network. A refused operation leaves the ledger as it was.
pub fn submit_signed_network_operation(
    ledger: &mut LedgerState,
    public_key: &str,
    operation: &SignedOperation,
    now: i64,
) -> (r: Result<NetworkReply>)
    ensures
        match network_operation_submitted(
            old(ledger)@,
            public_key@,
            operation.deep_view(),
            now,
        ) {
            Ok(next) => final(ledger)@ == next.0 && (r matches Ok(reply) && reply.deep_view()
                == next.1),
            Err(refusal) => final(ledger)@ == old(ledger)@ && (r matches Err(error) && error@
                == refusal),
        },
{
    check_signer(public_key, operation)?;
    if !operation_is_current(operation, now) {
        return Err(Error::msg("signed operation version or validity is invalid"));
    }
    if !text_same(operation.unsigned.ledger_id.as_str(), ledger.ledger_id.as_str()) {
        return Err(Error::msg("signed operation targets a different ledger"));
    }
    let mut next = ledger.copy();
    prepare_signer(
        &mut next,
        public_key,
        operation,
        "operation nonce is not the next account nonce",
    )?;
    let reply = apply_network_step(&mut next, public_key, operation)?;
    complete_operation(
        &mut next,
        operation,
        operation.intake.operation_id.as_str(),
        operation_made_at(operation),
    )?;
    *ledger = next;
    Ok(reply)
}

/// The network that a commitment or an alias names.
pub open spec fn network_resolved(ledger: LedgerModel, name: Seq<char>) -> Outcome<Seq<char>> {
    if ledger.networks.contains_key(name) {
        Ok(name)
    } else if ledger.network_aliases.contains_key(name) {
        Ok(ledger.network_aliases[name])
    } else {
        Err("network not found: "@ + name)
    }
}

/// Resolves a commitment or an alias to a commitment.
pub fn resolve_network(ledger: &LedgerState, alias_or_commitment: &str) -> (r: Result<String>)
    ensures
        match network_resolved(ledger@, alias_or_commitment@) {
            Ok(commitment) => r matches Ok(text) && text@ == commitment,
            Err(refusal) => r matches Err(error) && error@ == refusal,
        },
{
    let name = alias_or_commitment.to_owned();
    if ledger.networks.contains_key(&name) {
        return Ok(name);
    }
    match ledger.network_aliases.get(&name) {
        Some(commitment) => Ok(commitment.clone()),
        None => Err(Error::owned(join2("network not found: ", alias_or_commitment))),
    }
}

/// The record of the network that a commitment or an alias names.
pub open spec fn network_record(ledger: LedgerModel, name: Seq<char>) -> Outcome<NetworkModel> {
    match network_resolved(ledger, name) {
        Err(refusal) => Err(refusal),
        Ok(commitment) => if ledger.networks.contains_key(commitment) {
            Ok(ledger.networks[commitment])
        } else {
            Err("network registry is inconsistent"@)
        },
    }
}

/// Finds the network that a commitment or an alias names.
pub fn network_by_alias(ledger: &LedgerState, alias: &str) -> (r: Result<NetworkRecord>)
    ensures
        outcome(r) == network_record(ledger@, alias@),
{
    let commitment = resolve_network(ledger, alias)?;
    match ledger.networks.get(&commitment) {
        Some(network) => Ok(network.replicate()),
        None => Err(Error::msg("network registry is inconsistent")),
    }
}

/// A network that has been founded is found by its alias.
pub proof fn created_network_is_found(
    ledger: LedgerModel,
    payload: crate::payload::PayloadModel,
    signer: Seq<char>,
    public_key: Seq<char>,
    at: i64,
)
    requires
        network_created(ledger, payload, signer, public_key, at) is Ok,
        !ledger.networks.contains_key(crate::payload::required_text(payload, "alias"@)->Ok_0),
    ensures
        ({
            let next = network_created(ledger, payload, signer, public_key, at)->Ok_0;
            let alias = crate::payload::required_text(payload, "alias"@)->Ok_0;
            &&& network_record(next.0, alias) matches Ok(network)
            &&& next.1 == ReplyModel::Created(network)
            &&& network.alias == alias && network.owner_address == signer
        }),
{
}

} // verus!
