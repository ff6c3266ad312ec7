use vstd::prelude::*;
use vstd::string::*;

use crate::accounts::{
    account_balance, add_history, balance_of, debit_account, debited, history_added, paid_to,
    pay_account,
};
use crate::committee::{committee_refreshed, refresh_validator_committee};
use crate::error::{outcome, Error, Outcome, Result};
use crate::governance::{ensure_replicated_node_owner, owner_checked};
use crate::model::{LedgerModel, LedgerState, NodeModel, NodeRecord, NodeStatus, Payload};
use crate::nodes::{ensure_node_can_drain, may_drain};
use crate::number::clamped_u128;
use crate::payload::{
    parse_payload_u128, payload_i64, payload_str, payload_u64, required_amount, required_i64,
    required_text, required_u64, PayloadModel,
};
use crate::protocol::VALIDATOR_BOND_UNLOCK_SECONDS;
use crate::text::{i64_text, join2, signed_decimal, text_same};

verus! {

/// The ledger with another state of one node.
pub open spec fn with_node(ledger: LedgerModel, node_id: u64, node: NodeModel) -> LedgerModel {
    LedgerModel { nodes: ledger.nodes.insert(node_id, node), ..ledger }
}

/// The node that an operation names, if the operation's signer is its owner.
pub open spec fn owned_node(
    ledger: LedgerModel,
    payload: PayloadModel,
    signer: Seq<char>,
    public_key: Seq<char>,
) -> Outcome<u64> {
    match required_u64(payload, "node_id"@, "Node ID is invalid"@) {
        Err(refusal) => Err(refusal),
        Ok(node_id) => match owner_checked(ledger, node_id, signer, public_key) {
            Err(refusal) => Err(refusal),
            Ok(_) => Ok(node_id),
        },
    }
}

/// Reads the node that an operation names and checks that the operation's signer is its owner.
pub fn read_owned_node(
    ledger: &LedgerState,
    payload: &Payload,
    signer: &str,
    public_key: &str,
) -> (r: Result<u64>)
    ensures
        outcome(r) == owned_node(ledger@, payload.deep_view(), signer@, public_key@),
        r matches Ok(node_id) ==> ledger@.nodes.contains_key(node_id),
{
    let node_id = payload_u64(payload, "node_id", "Node ID is invalid")?;
    ensure_replicated_node_owner(ledger, node_id, signer, public_key)?;
    Ok(node_id)
}

/// The ledger after a node has begun to leave.
pub open spec fn node_drained(
    ledger: LedgerModel,
    payload: PayloadModel,
    signer: Seq<char>,
    public_key: Seq<char>,
) -> Outcome<LedgerModel> {
    match owned_node(ledger, payload, signer, public_key) {
        Err(refusal) => Err(refusal),
        Ok(node_id) => match may_drain(ledger.nodes[node_id]) {
            Err(refusal) => Err(refusal),
            Ok(_) => Ok(draining(ledger, node_id)),
        },
    }
}

/// The ledger in which a node is leaving.
pub open spec fn draining(ledger: LedgerModel, node_id: u64) -> LedgerModel {
    with_node(
        ledger,
        node_id,
        NodeModel { status: NodeStatus::Draining, ..ledger.nodes[node_id] },
    )
}

/// Lets a node begin to leave.
pub fn apply_drain(
    ledger: &mut LedgerState,
    payload: &Payload,
    signer: &str,
    public_key: &str,
) -> (r: Result<()>)
    ensures
        match node_drained(old(ledger)@, payload.deep_view(), signer@, public_key@) {
            Ok(next) => r is Ok && final(ledger)@ == next,
            Err(refusal) => final(ledger)@ == old(ledger)@ && (r matches Err(error) && error@
                == refusal),
        },
{
    let node_id = read_owned_node(ledger, payload, signer, public_key)?;
    if let Some(node) = ledger.nodes.get_mut(&node_id) {
        ensure_node_can_drain(node)?;
        node.status = NodeStatus::Draining;
    }
    Ok(())
}

/// The ledger after a node's bond has gone to its reward account; `cleared` is the node without it.
pub open spec fn bond_paid_out(
    ledger: LedgerModel,
    node_id: u64,
    cleared: NodeModel,
    amount: u128,
) -> Outcome<LedgerModel> {
    paid_to(
        with_node(ledger, node_id, cleared),
        cleared.reward_address,
        amount,
        "Reward account balance overflow"@,
    )
}

/// A node without its service bond.
pub open spec fn without_service_bond(node: NodeModel) -> NodeModel {
    NodeModel { service_bond: 0, service_bond_unlock_at: None, ..node }
}

/// A node without its governance bond.
pub open spec fn without_governance_bond(node: NodeModel) -> NodeModel {
    NodeModel {
        governance_bond: 0,
        governance_bonded_at: None,
        governance_exit_requested_at: None,
        governance_bond_unlock_at: None,
        ..node
    }
}

/// A node without its validator bond.
pub open spec fn without_validator_bond(node: NodeModel) -> NodeModel {
    NodeModel {
        validator_bond: 0,
        validator_candidate_since: None,
        validator_exit_requested_at: None,
        validator_bond_unlock_at: None,
        ..node
    }
}

/// Pays a node's service bond to its reward account.
pub fn pay_out_service_bond(ledger: &mut LedgerState, node_id: u64) -> (r: Result<()>)
    requires
        old(ledger)@.nodes.contains_key(node_id),
    ensures
        match bond_paid_out(
            old(ledger)@,
            node_id,
            without_service_bond(old(ledger)@.nodes[node_id]),
            old(ledger)@.nodes[node_id].service_bond,
        ) {
            Ok(next) => r is Ok && final(ledger)@ == next,
            Err(refusal) => final(ledger)@ == old(ledger)@ && (r matches Err(error) && error@
                == refusal),
        },
{
    let (address, amount): (String, u128) = match ledger.nodes.get(&node_id) {
        None => {
            return Ok(());
        },
        Some(node) => (node.reward_address.clone(), node.service_bond),
    };
    pay_account(ledger, address.as_str(), amount, "Reward account balance overflow")?;
    if let Some(node) = ledger.nodes.get_mut(&node_id) {
        node.service_bond = 0;
        node.service_bond_unlock_at = None;
    }
    Ok(())
}

/// Pays a node's governance bond to its reward account.
pub fn pay_out_governance_bond(ledger: &mut LedgerState, node_id: u64) -> (r: Result<()>)
    requires
        old(ledger)@.nodes.contains_key(node_id),
    ensures
        match bond_paid_out(
            old(ledger)@,
            node_id,
            without_governance_bond(old(ledger)@.nodes[node_id]),
            old(ledger)@.nodes[node_id].governance_bond,
        ) {
            Ok(next) => r is Ok && final(ledger)@ == next,
            Err(refusal) => final(ledger)@ == old(ledger)@ && (r matches Err(error) && error@
                == refusal),
        },
{
    let (address, amount): (String, u128) = match ledger.nodes.get(&node_id) {
        None => {
            return Ok(());
        },
        Some(node) => (node.reward_address.clone(), node.governance_bond),
    };
    pay_account(ledger, address.as_str(), amount, "Reward account balance overflow")?;
    if let Some(node) = ledger.nodes.get_mut(&node_id) {
        node.governance_bond = 0;
        node.governance_bonded_at = None;
        node.governance_exit_requested_at = None;
        node.governance_bond_unlock_at = None;
    }
    Ok(())
}

/// Pays a node's validator bond to its reward account.
pub fn pay_out_validator_bond(ledger: &mut LedgerState, node_id: u64) -> (r: Result<()>)
    requires
        old(ledger)@.nodes.contains_key(node_id),
    ensures
        match bond_paid_out(
            old(ledger)@,
            node_id,
            without_validator_bond(old(ledger)@.nodes[node_id]),
            old(ledger)@.nodes[node_id].validator_bond,
        ) {
            Ok(next) => r is Ok && final(ledger)@ == next,
            Err(refusal) => final(ledger)@ == old(ledger)@ && (r matches Err(error) && error@
                == refusal),
        },
{
    let (address, amount): (String, u128) = match ledger.nodes.get(&node_id) {
        None => {
            return Ok(());
        },
        Some(node) => (node.reward_address.clone(), node.validator_bond),
    };
    pay_account(ledger, address.as_str(), amount, "Reward account balance overflow")?;
    if let Some(node) = ledger.nodes.get_mut(&node_id) {
        node.validator_bond = 0;
        node.validator_candidate_since = None;
        node.validator_exit_requested_at = None;
        node.validator_bond_unlock_at = None;
    }
    Ok(())
}

/// A withdrawal's node, amount and declared account.
pub open spec fn withdrawal_read(
    ledger: LedgerModel,
    payload: PayloadModel,
    signer: Seq<char>,
    public_key: Seq<char>,
) -> Outcome<(u64, u128, Seq<char>)> {
    match owned_node(ledger, payload, signer, public_key) {
        Err(refusal) => Err(refusal),
        Ok(node_id) => match required_amount(payload, "amount_base_units"@) {
            Err(refusal) => Err(refusal),
            Ok(amount) => match required_text(payload, "reward_address"@) {
                Err(refusal) => Err(refusal),
                Ok(declared) => Ok((node_id, amount, declared)),
            },
        },
    }
}

fn read_withdrawal(
    ledger: &LedgerState,
    payload: &Payload,
    signer: &str,
    public_key: &str,
) -> (r: Result<(u64, u128, String)>)
    ensures
        match withdrawal_read(ledger@, payload.deep_view(), signer@, public_key@) {
            Ok(found) => (r matches Ok(read) && read.0 == found.0 && read.1 == found.1 && read.2@
                == found.2) && ledger@.nodes.contains_key(found.0),
            Err(refusal) => r matches Err(error) && error@ == refusal,
        },
{
    let node_id = read_owned_node(ledger, payload, signer, public_key)?;
    let amount = parse_payload_u128(payload, "amount_base_units")?;
    let declared = payload_str(payload, "reward_address")?;
    Ok((node_id, amount, declared))
}

/// Whether a node's service bond may be taken out.
pub open spec fn service_bond_free(node: NodeModel, now: i64) -> Outcome<()> {
    if node.status != NodeStatus::Exited {
        Err("Service Bond can only be withdrawn after the Node has exited"@)
    } else {
        match node.service_bond_unlock_at {
            None => Err("Service Bond is not pending unlock"@),
            Some(unlock_at) => if now < unlock_at {
                Err("Service Bond remains locked until "@ + signed_decimal(unlock_at as int))
            } else {
                Ok(())
            },
        }
    }
}

/// Checks that a node's service bond may be taken out.
pub fn check_service_bond(node: &NodeRecord, now: i64) -> (r: Result<()>)
    ensures
        outcome(r) == service_bond_free(node.deep_view(), now),
{
    if node.status != NodeStatus::Exited {
        return Err(Error::msg("Service Bond can only be withdrawn after the Node has exited"));
    }
    match node.service_bond_unlock_at {
        None => Err(Error::msg("Service Bond is not pending unlock")),
        Some(unlock_at) => {
            if now < unlock_at {
                return Err(
                    Error::owned(
                        join2("Service Bond remains locked until ", i64_text(unlock_at).as_str()),
                    ),
                );
            }
            Ok(())
        },
    }
}

/// The ledger after a node's service bond has been taken out, and noted.
pub open spec fn service_bond_withdrawn(
    ledger: LedgerModel,
    payload: PayloadModel,
    signer: Seq<char>,
    public_key: Seq<char>,
    operation_id: Seq<char>,
    now: i64,
) -> Outcome<LedgerModel> {
    match withdrawal_read(ledger, payload, signer, public_key) {
        Err(refusal) => Err(refusal),
        Ok(found) => {
            let (node_id, amount, declared) = found;
            let node = ledger.nodes[node_id];
            match service_bond_free(node, now) {
                Err(refusal) => Err(refusal),
                Ok(_) => if amount == 0 || amount != node.service_bond {
                    Err("Service Bond withdrawal amount is invalid"@)
                } else if declared != node.reward_address {
                    Err("Service Bond reward address does not match Node"@)
                } else {
                    match bond_paid_out(ledger, node_id, without_service_bond(node), amount) {
                        Err(refusal) => Err(refusal),
                        Ok(paid) => Ok(history_added(paid, node.reward_address, operation_id)),
                    }
                },
            }
        },
    }
}

/// Takes a node's service bond out.
pub fn apply_service_withdrawal(
    ledger: &mut LedgerState,
    payload: &Payload,
    signer: &str,
    public_key: &str,
    operation_id: &str,
    now: i64,
) -> (r: Result<()>)
    ensures
        match service_bond_withdrawn(
            old(ledger)@,
            payload.deep_view(),
            signer@,
            public_key@,
            operation_id@,
            now,
        ) {
            Ok(next) => r is Ok && final(ledger)@ == next,
            Err(refusal) => final(ledger)@ == old(ledger)@ && (r matches Err(error) && error@
                == refusal),
        },
{
    let (node_id, amount, declared) = read_withdrawal(ledger, payload, signer, public_key)?;
    if let Some(node) = ledger.nodes.get(&node_id) {
        check_service_bond(node, now)?;
        if amount == 0 || amount != node.service_bond {
            return Err(Error::msg("Service Bond withdrawal amount is invalid"));
        }
        if !text_same(declared.as_str(), node.reward_address.as_str()) {
            return Err(Error::msg("Service Bond reward address does not match Node"));
        }
    }
    pay_out_service_bond(ledger, node_id)?;
    add_history(ledger, declared.as_str(), operation_id);
    Ok(())
}

/// The ledger after a node's reward has been claimed, and noted.
pub open spec fn reward_claimed(
    ledger: LedgerModel,
    payload: PayloadModel,
    signer: Seq<char>,
    public_key: Seq<char>,
    operation_id: Seq<char>,
) -> Outcome<LedgerModel> {
    match owned_node(ledger, payload, signer, public_key) {
        Err(refusal) => Err(refusal),
        Ok(node_id) => match required_amount(payload, "amount_base_units"@) {
            Err(refusal) => Err(refusal),
            Ok(amount) => {
                let node = ledger.nodes[node_id];
                if amount == 0 || amount > node.claimable_reward {
                    Err("claim amount exceeds unlocked Node reward"@)
                } else {
                    match reward_paid_out(ledger, node_id, amount) {
                        Err(refusal) => Err(refusal),
                        Ok(paid) => Ok(history_added(paid, node.reward_address, operation_id)),
                    }
                }
            },
        },
    }
}

/// The ledger after a part of a node's reward has gone to its reward account.
pub open spec fn reward_paid_out(ledger: LedgerModel, node_id: u64, amount: u128) -> Outcome<
    LedgerModel,
> {
    bond_paid_out(
        ledger,
        node_id,
        NodeModel {
            claimable_reward: (ledger.nodes[node_id].claimable_reward - amount) as u128,
            ..ledger.nodes[node_id]
        },
        amount,
    )
}

/// Pays a part of a node's reward to its reward account.
pub fn pay_out_reward(ledger: &mut LedgerState, node_id: u64, amount: u128) -> (r: Result<()>)
    requires
        old(ledger)@.nodes.contains_key(node_id),
        amount <= old(ledger)@.nodes[node_id].claimable_reward,
    ensures
        match reward_paid_out(old(ledger)@, node_id, amount) {
            Ok(next) => r is Ok && final(ledger)@ == next,
            Err(refusal) => final(ledger)@ == old(ledger)@ && (r matches Err(error) && error@
                == refusal),
        },
{
    let address: String = match ledger.nodes.get(&node_id) {
        None => {
            return Ok(());
        },
        Some(node) => node.reward_address.clone(),
    };
    pay_account(ledger, address.as_str(), amount, "Reward account balance overflow")?;
    if let Some(node) = ledger.nodes.get_mut(&node_id) {
        node.claimable_reward = node.claimable_reward - amount;
    }
    Ok(())
}

/// Pays out what a node's owner claims of its reward.
pub fn apply_claim(
    ledger: &mut LedgerState,
    payload: &Payload,
    signer: &str,
    public_key: &str,
    operation_id: &str,
) -> (r: Result<()>)
    ensures
        match reward_claimed(
            old(ledger)@,
            payload.deep_view(),
            signer@,
            public_key@,
            operation_id@,
        ) {
            Ok(next) => r is Ok && final(ledger)@ == next,
            Err(refusal) => final(ledger)@ == old(ledger)@ && (r matches Err(error) && error@
                == refusal),
        },
{
    let node_id = read_owned_node(ledger, payload, signer, public_key)?;
    let amount = parse_payload_u128(payload, "amount_base_units")?;
    let (claimable, address): (u128, String) = match ledger.nodes.get(&node_id) {
        None => {
            return Err(Error::msg("Node is missing"));
        },
        Some(node) => (node.claimable_reward, node.reward_address.clone()),
    };
    if amount == 0 || amount > claimable {
        return Err(Error::msg("claim amount exceeds unlocked Node reward"));
    }
    pay_out_reward(ledger, node_id, amount)?;
    add_history(ledger, address.as_str(), operation_id);
    Ok(())
}

/// Whether a node may add to its governance bond.
pub open spec fn governance_bond_open(node: NodeModel) -> Outcome<()> {
    if node.status == NodeStatus::Draining || node.status == NodeStatus::Exited || node.status
        == NodeStatus::Suspended {
        Err("Governance Bond cannot be added while the Node is draining, exited, or suspended"@)
    } else if node.governance_exit_requested_at is Some {
        Err("Governance exit is pending; withdraw the old bond before bonding again"@)
    } else {
        Ok(())
    }
}

/// Checks that a node may add to its governance bond.
pub fn check_governance_bond_open(node: &NodeRecord) -> (r: Result<()>)
    ensures
        outcome(r) == governance_bond_open(node.deep_view()),
{
    if matches!(node.status, NodeStatus::Draining | NodeStatus::Exited | NodeStatus::Suspended) {
        return Err(
            Error::msg(
                "Governance Bond cannot be added while the Node is draining, exited, or suspended",
            ),
        );
    }
    if node.governance_exit_requested_at.is_some() {
        return Err(
            Error::msg("Governance exit is pending; withdraw the old bond before bonding again"),
        );
    }
    Ok(())
}

/// The ledger after an account has added to a node's governance bond.
pub open spec fn governance_bond_added(
    ledger: LedgerModel,
    node_id: u64,
    payer: Seq<char>,
    amount: u128,
    at: i64,
) -> Outcome<LedgerModel> {
    let node = ledger.nodes[node_id];
    if node.governance_bond + amount > u128::MAX {
        Err("Governance Bond overflow"@)
    } else {
        Ok(
            with_node(
                debited(ledger, payer, amount),
                node_id,
                NodeModel {
                    governance_bond: (node.governance_bond + amount) as u128,
                    governance_bonded_at: Some(at),
                    ..node
                },
            ),
        )
    }
}

/// Adds to a node's governance bond out of an account that has the amount.
pub fn add_governance_bond(
    ledger: &mut LedgerState,
    node_id: u64,
    payer: &str,
    amount: u128,
    at: i64,
) -> (r: Result<()>)
    requires
        old(ledger)@.nodes.contains_key(node_id),
        balance_of(old(ledger)@, payer@) >= amount,
    ensures
        match governance_bond_added(old(ledger)@, node_id, payer@, amount, at) {
            Ok(next) => r is Ok && final(ledger)@ == next,
            Err(refusal) => final(ledger)@ == old(ledger)@ && (r matches Err(error) && error@
                == refusal),
        },
{
    let total: u128 = match ledger.nodes.get(&node_id) {
        None => {
            return Ok(());
        },
        Some(node) => match node.governance_bond.checked_add(amount) {
            None => {
                return Err(Error::msg("Governance Bond overflow"));
            },
            Some(total) => total,
        },
    };
    debit_account(ledger, payer, amount);
    if let Some(node) = ledger.nodes.get_mut(&node_id) {
        node.governance_bond = total;
        node.governance_bonded_at = Some(at);
    }
    Ok(())
}

/// The ledger after a node's reward account has added to its governance bond.
pub open spec fn governance_bonded(
    ledger: LedgerModel,
    payload: PayloadModel,
    signer: Seq<char>,
    made_at: i64,
) -> Outcome<LedgerModel> {
    match required_u64(payload, "node_id"@, "Node ID is invalid"@) {
        Err(refusal) => Err(refusal),
        Ok(node_id) => match required_amount(payload, "amount_base_units"@) {
            Err(refusal) => Err(refusal),
            Ok(amount) => match required_i64(
                payload,
                "bonded_at"@,
                "Governance Bond timestamp is invalid"@,
            ) {
                Err(refusal) => Err(refusal),
                Ok(bonded_at) => {
                    let node = ledger.nodes[node_id];
                    if bonded_at != made_at {
                        Err("Governance Bond timestamp is not deterministic"@)
                    } else if !ledger.nodes.contains_key(node_id) {
                        Err("Node is missing"@)
                    } else if node.reward_address != signer {
                        Err("Governance Bond signer is not Reward account"@)
                    } else {
                        match governance_bond_open(node) {
                            Err(refusal) => Err(refusal),
                            Ok(_) => if amount == 0 || clamped_u128(node.governance_bond + amount)
                                < ledger.settings.required_governance_bond {
                                Err("Governance Bond must reach the current required amount"@)
                            } else if balance_of(ledger, signer) < amount {
                                Err("insufficient Governance Bond balance"@)
                            } else {
                                governance_bond_added(ledger, node_id, signer, amount, bonded_at)
                            },
                        }
                    }
                },
            },
        },
    }
}

/// Adds to a node's governance bond out of its reward account.
pub fn apply_governance_bond(
    ledger: &mut LedgerState,
    payload: &Payload,
    signer: &str,
    made_at: i64,
) -> (r: Result<()>)
    ensures
        match governance_bonded(old(ledger)@, payload.deep_view(), signer@, made_at) {
            Ok(next) => r is Ok && final(ledger)@ == next,
            Err(refusal) => final(ledger)@ == old(ledger)@ && (r matches Err(error) && error@
                == refusal),
        },
{
    let node_id = payload_u64(payload, "node_id", "Node ID is invalid")?;
    let amount = parse_payload_u128(payload, "amount_base_units")?;
    let bonded_at = payload_i64(payload, "bonded_at", "Governance Bond timestamp is invalid")?;
    if bonded_at != made_at {
        return Err(Error::msg("Governance Bond timestamp is not deterministic"));
    }
    match ledger.nodes.get(&node_id) {
        None => {
            return Err(Error::msg("Node is missing"));
        },
        Some(node) => {
            if !text_same(node.reward_address.as_str(), signer) {
                return Err(Error::msg("Governance Bond signer is not Reward account"));
            }
            check_governance_bond_open(node)?;
            if amount == 0 || node.governance_bond.saturating_add(amount)
                < ledger.settings.required_governance_bond {
                return Err(Error::msg("Governance Bond must reach the current required amount"));
            }
        },
    }
    if account_balance(ledger, signer) < amount {
        return Err(Error::msg("insufficient Governance Bond balance"));
    }
    add_governance_bond(ledger, node_id, signer, amount, bonded_at)
}

/// A node that has asked to leave governance.
pub open spec fn leaving_governance(node: NodeModel, at: i64, unlock_at: i64) -> NodeModel {
    NodeModel {
        governance_exit_requested_at: Some(at),
        governance_bond_unlock_at: Some(unlock_at),
        ..node
    }
}

/// The ledger after a node has asked to leave governance.
pub open spec fn governance_exit_requested(
    ledger: LedgerModel,
    payload: PayloadModel,
    signer: Seq<char>,
    public_key: Seq<char>,
    made_at: i64,
) -> Outcome<LedgerModel> {
    match owned_node(ledger, payload, signer, public_key) {
        Err(refusal) => Err(refusal),
        Ok(node_id) => match required_i64(
            payload,
            "unlock_at"@,
            "Governance Bond unlock time is invalid"@,
        ) {
            Err(refusal) => Err(refusal),
            Ok(unlock_at) => {
                let node = ledger.nodes[node_id];
                let expected = made_at + ledger.settings.governance_bond_unlock_seconds;
                if !(i64::MIN <= expected <= i64::MAX) {
                    Err("Governance Bond unlock timestamp overflow"@)
                } else if node.governance_bond == 0 {
                    Err("node has no Governance Bond"@)
                } else if node.governance_exit_requested_at is Some {
                    Err("Governance exit is already pending"@)
                } else if unlock_at != expected {
                    Err("Governance Bond unlock timestamp is invalid"@)
                } else {
                    Ok(with_node(ledger, node_id, leaving_governance(node, made_at, unlock_at)))
                }
            },
        },
    }
}

/// Notes that a node has asked to leave governance.
pub fn apply_governance_exit(
    ledger: &mut LedgerState,
    payload: &Payload,
    signer: &str,
    public_key: &str,
    made_at: i64,
) -> (r: Result<()>)
    ensures
        match governance_exit_requested(
            old(ledger)@,
            payload.deep_view(),
            signer@,
            public_key@,
            made_at,
        ) {
            Ok(next) => r is Ok && final(ledger)@ == next,
            Err(refusal) => final(ledger)@ == old(ledger)@ && (r matches Err(error) && error@
                == refusal),
        },
{
    let node_id = read_owned_node(ledger, payload, signer, public_key)?;
    let unlock_at = payload_i64(payload, "unlock_at", "Governance Bond unlock time is invalid")?;
    let expected: i64 = match made_at.checked_add(ledger.settings.governance_bond_unlock_seconds) {
        None => {
            return Err(Error::msg("Governance Bond unlock timestamp overflow"));
        },
        Some(expected) => expected,
    };
    if let Some(node) = ledger.nodes.get_mut(&node_id) {
        if node.governance_bond == 0 {
            return Err(Error::msg("node has no Governance Bond"));
        }
        if node.governance_exit_requested_at.is_some() {
            return Err(Error::msg("Governance exit is already pending"));
        }
        if unlock_at != expected {
            return Err(Error::msg("Governance Bond unlock timestamp is invalid"));
        }
        node.governance_exit_requested_at = Some(made_at);
        node.governance_bond_unlock_at = Some(unlock_at);
    }
    Ok(())
}

/// Whether a node's governance bond may be taken out.
pub open spec fn governance_bond_free(node: NodeModel, at: i64) -> Outcome<()> {
    match node.governance_bond_unlock_at {
        None => Err("Governance exit has not been requested"@),
        Some(unlock_at) => if at < unlock_at {
            Err("Governance Bond remains locked until "@ + signed_decimal(unlock_at as int))
        } else {
            Ok(())
        },
    }
}

/// Checks that a node's governance bond may be taken out.
pub fn check_governance_bond_free(node: &NodeRecord, at: i64) -> (r: Result<()>)
    ensures
        outcome(r) == governance_bond_free(node.deep_view(), at),
{
    match node.governance_bond_unlock_at {
        None => Err(Error::msg("Governance exit has not been requested")),
        Some(unlock_at) => {
            if at < unlock_at {
                return Err(
                    Error::owned(
                        join2(
                            "Governance Bond remains locked until ",
                            i64_text(unlock_at).as_str(),
                        ),
                    ),
                );
            }
            Ok(())
        },
    }
}

/// The ledger after a node's governance bond has been taken out, and noted.
pub open spec fn governance_bond_withdrawn(
    ledger: LedgerModel,
    payload: PayloadModel,
    signer: Seq<char>,
    public_key: Seq<char>,
    operation_id: Seq<char>,
    made_at: i64,
) -> Outcome<LedgerModel> {
    match withdrawal_read(ledger, payload, signer, public_key) {
        Err(refusal) => Err(refusal),
        Ok(found) => {
            let (node_id, amount, declared) = found;
            let node = ledger.nodes[node_id];
            match governance_bond_free(node, made_at) {
                Err(refusal) => Err(refusal),
                Ok(_) => if amount == 0 || node.governance_bond != amount {
                    Err("Governance Bond is not withdrawable"@)
                } else if declared != node.reward_address {
                    Err("Governance Bond reward address does not match Node"@)
                } else {
                    match bond_paid_out(ledger, node_id, without_governance_bond(node), amount) {
                        Err(refusal) => Err(refusal),
                        Ok(paid) => Ok(history_added(paid, node.reward_address, operation_id)),
                    }
                },
            }
        },
    }
}

/// Takes a node's governance bond out.
pub fn apply_governance_withdrawal(
    ledger: &mut LedgerState,
    payload: &Payload,
    signer: &str,
    public_key: &str,
    operation_id: &str,
    made_at: i64,
) -> (r: Result<()>)
    ensures
        match governance_bond_withdrawn(
            old(ledger)@,
            payload.deep_view(),
            signer@,
            public_key@,
            operation_id@,
            made_at,
        ) {
            Ok(next) => r is Ok && final(ledger)@ == next,
            Err(refusal) => final(ledger)@ == old(ledger)@ && (r matches Err(error) && error@
                == refusal),
        },
{
    let (node_id, amount, declared) = read_withdrawal(ledger, payload, signer, public_key)?;
    if let Some(node) = ledger.nodes.get(&node_id) {
        check_governance_bond_free(node, made_at)?;
        if amount == 0 || node.governance_bond != amount {
            return Err(Error::msg("Governance Bond is not withdrawable"));
        }
        if !text_same(declared.as_str(), node.reward_address.as_str()) {
            return Err(Error::msg("Governance Bond reward address does not match Node"));
        }
    }
    pay_out_governance_bond(ledger, node_id)?;
    add_history(ledger, declared.as_str(), operation_id);
    Ok(())
}

/// The ledger after an account has added to a node's validator bond. A node whose bond reaches what
/// is required becomes a candidate.
pub open spec fn validator_bond_added(
    ledger: LedgerModel,
    node_id: u64,
    payer: Seq<char>,
    amount: u128,
    at: i64,
) -> Outcome<LedgerModel> {
    let node = ledger.nodes[node_id];
    let total = node.validator_bond + amount;
    if total > u128::MAX {
        Err("Validator Bond overflow"@)
    } else {
        Ok(
            with_node(
                debited(ledger, payer, amount),
                node_id,
                NodeModel {
                    validator_bond: total as u128,
                    validator_candidate_since: if total >= ledger.settings.validator_bond
                        && node.validator_candidate_since is None {
                        Some(at)
                    } else {
                        node.validator_candidate_since
                    },
                    ..node
                },
            ),
        )
    }
}

/// Adds to a node's validator bond out of an account that has the amount.
pub fn add_validator_bond(
    ledger: &mut LedgerState,
    node_id: u64,
    payer: &str,
    amount: u128,
    at: i64,
) -> (r: Result<()>)
    requires
        old(ledger)@.nodes.contains_key(node_id),
        balance_of(old(ledger)@, payer@) >= amount,
    ensures
        match validator_bond_added(old(ledger)@, node_id, payer@, amount, at) {
            Ok(next) => r is Ok && final(ledger)@ == next,
            Err(refusal) => final(ledger)@ == old(ledger)@ && (r matches Err(error) && error@
                == refusal),
        },
{
    let required: u128 = ledger.settings.validator_bond;
    let total: u128 = match ledger.nodes.get(&node_id) {
        None => {
            return Ok(());
        },
        Some(node) => match node.validator_bond.checked_add(amount) {
            None => {
                return Err(Error::msg("Validator Bond overflow"));
            },
            Some(total) => total,
        },
    };
    debit_account(ledger, payer, amount);
    if let Some(node) = ledger.nodes.get_mut(&node_id) {
        node.validator_bond = total;
        if total >= required && node.validator_candidate_since.is_none() {
            node.validator_candidate_since = Some(at);
        }
    }
    Ok(())
}

/// The ledger after a node's reward account has added to its validator bond.
pub open spec fn validator_bonded(
    ledger: LedgerModel,
    payload: PayloadModel,
    signer: Seq<char>,
    made_at: i64,
) -> Outcome<LedgerModel> {
    match required_u64(payload, "node_id"@, "Node ID is invalid"@) {
        Err(refusal) => Err(refusal),
        Ok(node_id) => match required_amount(payload, "amount_base_units"@) {
            Err(refusal) => Err(refusal),
            Ok(amount) => if !ledger.nodes.contains_key(node_id) {
                Err("Node is missing"@)
            } else if ledger.nodes[node_id].reward_address != signer {
                Err("Validator Bond signer is not Reward account"@)
            } else if balance_of(ledger, signer) < amount {
                Err("insufficient Validator Bond balance"@)
            } else {
                match validator_bond_added(ledger, node_id, signer, amount, made_at) {
                    Err(refusal) => Err(refusal),
                    Ok(bonded) => Ok(committee_refreshed(bonded, made_at)),
                }
            },
        },
    }
}

/// Adds to a node's validator bond out of its reward account.
pub fn apply_validator_bond(
    ledger: &mut LedgerState,
    payload: &Payload,
    signer: &str,
    made_at: i64,
) -> (r: Result<()>)
    ensures
        match validator_bonded(old(ledger)@, payload.deep_view(), signer@, made_at) {
            Ok(next) => r is Ok && final(ledger)@ == next,
            Err(refusal) => final(ledger)@ == old(ledger)@ && (r matches Err(error) && error@
                == refusal),
        },
{
    let node_id = payload_u64(payload, "node_id", "Node ID is invalid")?;
    let amount = parse_payload_u128(payload, "amount_base_units")?;
    match ledger.nodes.get(&node_id) {
        None => {
            return Err(Error::msg("Node is missing"));
        },
        Some(node) => {
            if !text_same(node.reward_address.as_str(), signer) {
                return Err(Error::msg("Validator Bond signer is not Reward account"));
            }
        },
    }
    if account_balance(ledger, signer) < amount {
        return Err(Error::msg("insufficient Validator Bond balance"));
    }
    add_validator_bond(ledger, node_id, signer, amount, made_at)?;
    refresh_validator_committee(ledger, made_at)
}

/// A node that has asked to leave the validators.
pub open spec fn leaving_validators(node: NodeModel, at: i64, unlock_at: i64) -> NodeModel {
    NodeModel {
        validator_exit_requested_at: Some(at),
        validator_bond_unlock_at: Some(unlock_at),
        ..node
    }
}

/// The ledger after a node has asked to leave the validators.
pub open spec fn validator_exit_requested(
    ledger: LedgerModel,
    payload: PayloadModel,
    signer: Seq<char>,
    public_key: Seq<char>,
    made_at: i64,
) -> Outcome<LedgerModel> {
    match owned_node(ledger, payload, signer, public_key) {
        Err(refusal) => Err(refusal),
        Ok(node_id) => match required_i64(
            payload,
            "unlock_at"@,
            "Validator unlock time is invalid"@,
        ) {
            Err(refusal) => Err(refusal),
            Ok(unlock_at) => {
                let node = ledger.nodes[node_id];
                let expected = made_at + VALIDATOR_BOND_UNLOCK_SECONDS;
                if expected > i64::MAX {
                    Err("Validator Bond unlock timestamp overflow"@)
                } else if node.validator_bond == 0 {
                    Err("node has no Validator Bond"@)
                } else if node.validator_exit_requested_at is Some {
                    Err("validator exit is already pending"@)
                } else if unlock_at != expected {
                    Err("Validator Bond unlock timestamp is invalid"@)
                } else {
                    Ok(with_node(ledger, node_id, leaving_validators(node, made_at, unlock_at)))
                }
            },
        },
    }
}

/// Notes that a node has asked to leave the validators.
pub fn apply_validator_exit(
    ledger: &mut LedgerState,
    payload: &Payload,
    signer: &str,
    public_key: &str,
    made_at: i64,
) -> (r: Result<()>)
    ensures
        match validator_exit_requested(
            old(ledger)@,
            payload.deep_view(),
            signer@,
            public_key@,
            made_at,
        ) {
            Ok(next) => r is Ok && final(ledger)@ == next,
            Err(refusal) => final(ledger)@ == old(ledger)@ && (r matches Err(error) && error@
                == refusal),
        },
{
    let node_id = read_owned_node(ledger, payload, signer, public_key)?;
    let unlock_at = payload_i64(payload, "unlock_at", "Validator unlock time is invalid")?;
    let expected: i64 = match made_at.checked_add(VALIDATOR_BOND_UNLOCK_SECONDS) {
        None => {
            return Err(Error::msg("Validator Bond unlock timestamp overflow"));
        },
        Some(expected) => expected,
    };
    if let Some(node) = ledger.nodes.get_mut(&node_id) {
        if node.validator_bond == 0 {
            return Err(Error::msg("node has no Validator Bond"));
        }
        if node.validator_exit_requested_at.is_some() {
            return Err(Error::msg("validator exit is already pending"));
        }
        if unlock_at != expected {
            return Err(Error::msg("Validator Bond unlock timestamp is invalid"));
        }
        node.validator_exit_requested_at = Some(made_at);
        node.validator_bond_unlock_at = Some(unlock_at);
    }
    Ok(())
}

/// Whether the time for a node's validator bond to be taken out has come.
pub open spec fn validator_bond_free(node: NodeModel, now: i64) -> Outcome<()> {
    match node.validator_bond_unlock_at {
        None => Err("validator exit has not been requested"@),
        Some(unlock_at) => if now < unlock_at {
            Err("Validator Bond remains locked until "@ + signed_decimal(unlock_at as int))
        } else {
            Ok(())
        },
    }
}

/// Checks that the time for a node's validator bond to be taken out has come.
pub fn check_validator_bond_free(node: &NodeRecord, now: i64) -> (r: Result<()>)
    ensures
        outcome(r) == validator_bond_free(node.deep_view(), now),
{
    match node.validator_bond_unlock_at {
        None => Err(Error::msg("validator exit has not been requested")),
        Some(unlock_at) => {
            if now < unlock_at {
                return Err(
                    Error::owned(
                        join2(
                            "Validator Bond remains locked until ",
                            i64_text(unlock_at).as_str(),
                        ),
                    ),
                );
            }
            Ok(())
        },
    }
}

/// The ledger after a node's validator bond has been taken out, and noted.
pub open spec fn validator_bond_withdrawn(
    ledger: LedgerModel,
    payload: PayloadModel,
    signer: Seq<char>,
    public_key: Seq<char>,
    operation_id: Seq<char>,
    now: i64,
) -> Outcome<LedgerModel> {
    match withdrawal_read(ledger, payload, signer, public_key) {
        Err(refusal) => Err(refusal),
        Ok(found) => {
            let (node_id, amount, declared) = found;
            let node = ledger.nodes[node_id];
            match validator_bond_free(node, now) {
                Err(refusal) => Err(refusal),
                Ok(_) => if node.validator || amount == 0 || node.validator_bond != amount {
                    Err("Validator Bond is not withdrawable"@)
                } else if declared != node.reward_address {
                    Err("Validator Bond reward address does not match Node"@)
                } else {
                    match bond_paid_out(ledger, node_id, without_validator_bond(node), amount) {
                        Err(refusal) => Err(refusal),
                        Ok(paid) => Ok(history_added(paid, node.reward_address, operation_id)),
                    }
                },
            }
        },
    }
}

/// Takes a node's validator bond out.
pub fn apply_validator_withdrawal(
    ledger: &mut LedgerState,
    payload: &Payload,
    signer: &str,
    public_key: &str,
    operation_id: &str,
    now: i64,
) -> (r: Result<()>)
    ensures
        match validator_bond_withdrawn(
            old(ledger)@,
            payload.deep_view(),
            signer@,
            public_key@,
            operation_id@,
            now,
        ) {
            Ok(next) => r is Ok && final(ledger)@ == next,
            Err(refusal) => final(ledger)@ == old(ledger)@ && (r matches Err(error) && error@
                == refusal),
        },
{
    let (node_id, amount, declared) = read_withdrawal(ledger, payload, signer, public_key)?;
    if let Some(node) = ledger.nodes.get(&node_id) {
        check_validator_bond_free(node, now)?;
        if node.validator || amount == 0 || node.validator_bond != amount {
            return Err(Error::msg("Validator Bond is not withdrawable"));
        }
        if !text_same(declared.as_str(), node.reward_address.as_str()) {
            return Err(Error::msg("Validator Bond reward address does not match Node"));
        }
    }
    pay_out_validator_bond(ledger, node_id)?;
    add_history(ledger, declared.as_str(), operation_id);
    Ok(())
}

/// A bond that is taken out goes to the node's reward account, unit for unit.
pub proof fn bond_goes_to_reward_account(
    ledger: LedgerModel,
    node_id: u64,
    cleared: NodeModel,
    amount: u128,
)
    requires
        ledger.nodes.contains_key(node_id),
    ensures
        bond_paid_out(ledger, node_id, cleared, amount) matches Ok(next) ==> {
            &&& balance_of(next, cleared.reward_address) == balance_of(
                ledger,
                cleared.reward_address,
            ) + amount
            &&& next.nodes == ledger.nodes.insert(node_id, cleared)
            &&& forall|other: Seq<char>|
                other != cleared.reward_address ==> #[trigger] balance_of(next, other)
                    == balance_of(ledger, other)
        },
{
}

/// What an account adds to a governance bond leaves the account, unit for unit.
pub proof fn governance_bond_leaves_account(
    ledger: LedgerModel,
    node_id: u64,
    payer: Seq<char>,
    amount: u128,
    at: i64,
)
    requires
        ledger.nodes.contains_key(node_id),
        balance_of(ledger, payer) >= amount,
    ensures
        governance_bond_added(ledger, node_id, payer, amount, at) matches Ok(next) ==> balance_of(
            next,
            payer,
        ) + next.nodes[node_id].governance_bond == balance_of(ledger, payer)
            + ledger.nodes[node_id].governance_bond,
{
}

/// What an account adds to a validator bond leaves the account, unit for unit.
pub proof fn validator_bond_leaves_account(
    ledger: LedgerModel,
    node_id: u64,
    payer: Seq<char>,
    amount: u128,
    at: i64,
)
    requires
        ledger.nodes.contains_key(node_id),
        balance_of(ledger, payer) >= amount,
    ensures
        validator_bond_added(ledger, node_id, payer, amount, at) matches Ok(next) ==> balance_of(
            next,
            payer,
        ) + next.nodes[node_id].validator_bond == balance_of(ledger, payer)
            + ledger.nodes[node_id].validator_bond,
{
}

/// Whoever leaves governance gets the bond back after the unlock time that the settings ask for, and
/// not before: the whole bond goes to the node's reward account, at the owner's request.
pub proof fn governance_bonds_wait_for_their_unlock(
    ledger: LedgerModel,
    exit: PayloadModel,
    signer: Seq<char>,
    public_key: Seq<char>,
    made_at: i64,
    withdrawal: PayloadModel,
    operation_id: Seq<char>,
    at: i64,
    node_id: u64,
)
    requires
        governance_exit_requested(ledger, exit, signer, public_key, made_at) is Ok,
        owned_node(ledger, exit, signer, public_key) == Ok::<u64, Seq<char>>(node_id),
        ({
            let left = governance_exit_requested(ledger, exit, signer, public_key, made_at)->Ok_0;
            &&& owned_node(left, withdrawal, signer, public_key) == Ok::<u64, Seq<char>>(node_id)
            &&& governance_bond_withdrawn(
                left,
                withdrawal,
                signer,
                public_key,
                operation_id,
                at,
            ) is Ok
        }),
    ensures
        ({
            let left = governance_exit_requested(ledger, exit, signer, public_key, made_at)->Ok_0;
            let after = governance_bond_withdrawn(
                left,
                withdrawal,
                signer,
                public_key,
                operation_id,
                at,
            )->Ok_0;
            let node = ledger.nodes[node_id];
            &&& at >= made_at + ledger.settings.governance_bond_unlock_seconds
            &&& left.nodes[node_id].governance_bond == node.governance_bond
            &&& left.nodes[node_id].governance_exit_requested_at == Some(made_at)
            &&& node.owner_address == signer
            &&& node.owner_public_key == public_key
            &&& after.nodes[node_id].governance_bond == 0
            &&& after.nodes[node_id].governance_bonded_at is None
            &&& after.nodes[node_id].governance_exit_requested_at is None
            &&& balance_of(after, node.reward_address) == balance_of(ledger, node.reward_address)
                + node.governance_bond
        }),
{
}

/// Whoever leaves the validators gets the bond back thirty days later, and not before, and only when
/// the node no longer sits in the committee: the whole bond goes to the node's reward account.
pub proof fn validator_bonds_wait_for_their_unlock(
    ledger: LedgerModel,
    exit: PayloadModel,
    signer: Seq<char>,
    public_key: Seq<char>,
    made_at: i64,
    withdrawal: PayloadModel,
    operation_id: Seq<char>,
    at: i64,
    node_id: u64,
)
    requires
        validator_exit_requested(ledger, exit, signer, public_key, made_at) is Ok,
        owned_node(ledger, exit, signer, public_key) == Ok::<u64, Seq<char>>(node_id),
        ({
            let left = validator_exit_requested(ledger, exit, signer, public_key, made_at)->Ok_0;
            &&& owned_node(left, withdrawal, signer, public_key) == Ok::<u64, Seq<char>>(node_id)
            &&& validator_bond_withdrawn(
                left,
                withdrawal,
                signer,
                public_key,
                operation_id,
                at,
            ) is Ok
        }),
    ensures
        ({
            let left = validator_exit_requested(ledger, exit, signer, public_key, made_at)->Ok_0;
            let after = validator_bond_withdrawn(
                left,
                withdrawal,
                signer,
                public_key,
                operation_id,
                at,
            )->Ok_0;
            let node = ledger.nodes[node_id];
            &&& at >= made_at + 2_592_000
            &&& !node.validator
            &&& left.nodes[node_id].validator_bond == node.validator_bond
            &&& left.nodes[node_id].validator_exit_requested_at == Some(made_at)
            &&& node.owner_address == signer
            &&& node.owner_public_key == public_key
            &&& after.nodes[node_id].validator_bond == 0
            &&& after.nodes[node_id].validator_candidate_since is None
            &&& after.nodes[node_id].validator_exit_requested_at is None
            &&& balance_of(after, node.reward_address) == balance_of(ledger, node.reward_address)
                + node.validator_bond
        }),
{
}

/// A bond whose time has come is free, and one whose time has not come is not: the service bond of a
/// node that has left, the governance bond and the validator bond of one that has asked to leave.
pub proof fn bonds_are_free_from_their_unlock_time(node: NodeModel, at: i64)
    ensures
        service_bond_free(node, at) is Ok <==> node.status == NodeStatus::Exited
            && node.service_bond_unlock_at is Some && node.service_bond_unlock_at.unwrap() <= at,
        governance_bond_free(node, at) is Ok <==> node.governance_bond_unlock_at is Some
            && node.governance_bond_unlock_at.unwrap() <= at,
        validator_bond_free(node, at) is Ok <==> node.validator_bond_unlock_at is Some
            && node.validator_bond_unlock_at.unwrap() <= at,
{
}

/// The service bond is given back whole to the reward account of a node that has left and whose
/// bond's time has come, at its owner's request, and once.
pub proof fn service_bonds_follow_the_exit(
    ledger: LedgerModel,
    payload: PayloadModel,
    signer: Seq<char>,
    public_key: Seq<char>,
    operation_id: Seq<char>,
    at: i64,
    node_id: u64,
)
    requires
        owned_node(ledger, payload, signer, public_key) == Ok::<u64, Seq<char>>(node_id),
        service_bond_withdrawn(ledger, payload, signer, public_key, operation_id, at) is Ok,
    ensures
        ({
            let after = service_bond_withdrawn(
                ledger,
                payload,
                signer,
                public_key,
                operation_id,
                at,
            )->Ok_0;
            let node = ledger.nodes[node_id];
            &&& node.status == NodeStatus::Exited
            &&& node.service_bond > 0
            &&& node.service_bond_unlock_at matches Some(unlock_at) && unlock_at <= at
            &&& node.owner_address == signer
            &&& node.owner_public_key == public_key
            &&& after.nodes[node_id].service_bond == 0
            &&& after.nodes[node_id].service_bond_unlock_at is None
            &&& after.nodes[node_id].claimable_reward == node.claimable_reward
            &&& after.nodes[node_id].status == NodeStatus::Exited
            &&& balance_of(after, node.reward_address) == balance_of(ledger, node.reward_address)
                + node.service_bond
            &&& forall|again: PayloadModel, later: i64, id: Seq<char>|
                owned_node(after, again, signer, public_key) == Ok::<u64, Seq<char>>(node_id)
                    ==> #[trigger] service_bond_withdrawn(
                    after,
                    again,
                    signer,
                    public_key,
                    id,
                    later,
                ) is Err
        }),
{
}

/// A claim moves what its owner asks for from what the node can claim to the node's reward account,
/// and never more than has become claimable; what is vesting and what is bonded stays.
pub proof fn claims_take_from_the_claimable(
    ledger: LedgerModel,
    payload: PayloadModel,
    signer: Seq<char>,
    public_key: Seq<char>,
    operation_id: Seq<char>,
    node_id: u64,
)
    requires
        owned_node(ledger, payload, signer, public_key) == Ok::<u64, Seq<char>>(node_id),
        reward_claimed(ledger, payload, signer, public_key, operation_id) is Ok,
    ensures
        ({
            let after = reward_claimed(ledger, payload, signer, public_key, operation_id)->Ok_0;
            let node = ledger.nodes[node_id];
            let paid = balance_of(after, node.reward_address) - balance_of(
                ledger,
                node.reward_address,
            );
            &&& node.owner_address == signer
            &&& node.owner_public_key == public_key
            &&& required_amount(payload, "amount_base_units"@) matches Ok(amount) && amount == paid
            &&& 0 < paid <= node.claimable_reward
            &&& after.nodes[node_id].claimable_reward == node.claimable_reward - paid
            &&& after.nodes[node_id].reward_vesting_buckets == node.reward_vesting_buckets
            &&& after.nodes[node_id].service_bond == node.service_bond
            &&& after.nodes[node_id].governance_bond == node.governance_bond
            &&& after.nodes[node_id].validator_bond == node.validator_bond
        }),
{
}

/// A governance bond that is added to begins to mature anew, at the time of the operation, and reaches
/// at least what is required; only the node's reward account adds to it, out of its balance, and not
/// while the node is leaving, suspended or on its way out of governance.
pub proof fn governance_bonds_mature_anew(
    ledger: LedgerModel,
    payload: PayloadModel,
    signer: Seq<char>,
    made_at: i64,
)
    requires
        governance_bonded(ledger, payload, signer, made_at) is Ok,
    ensures
        required_u64(payload, "node_id"@, "Node ID is invalid"@) matches Ok(node_id) && {
            let after = governance_bonded(ledger, payload, signer, made_at)->Ok_0;
            let node = ledger.nodes[node_id];
            let bonded = after.nodes[node_id];
            let added = bonded.governance_bond - node.governance_bond;
            &&& ledger.nodes.contains_key(node_id)
            &&& signer == node.reward_address
            &&& bonded.governance_bonded_at == Some(made_at)
            &&& added > 0
            &&& bonded.governance_bond >= ledger.settings.required_governance_bond
            &&& balance_of(after, signer) == balance_of(ledger, signer) - added
            &&& node.governance_exit_requested_at is None
            &&& node.status == NodeStatus::Active || node.status == NodeStatus::WarmingUp
        },
{
}

/// A node becomes a candidate for the committee when its bond reaches what is required, at the time of
/// the operation, not before, and stays the candidate that it was when more is added.
pub proof fn bonded_nodes_become_candidates(
    ledger: LedgerModel,
    node_id: u64,
    payer: Seq<char>,
    amount: u128,
    at: i64,
)
    requires
        ledger.nodes.contains_key(node_id),
        validator_bond_added(ledger, node_id, payer, amount, at) is Ok,
    ensures
        ({
            let after = validator_bond_added(ledger, node_id, payer, amount, at)->Ok_0;
            let node = ledger.nodes[node_id];
            let bonded = after.nodes[node_id];
            &&& bonded.validator_bond == node.validator_bond + amount
            &&& node.validator_candidate_since is Some ==> bonded.validator_candidate_since
                == node.validator_candidate_since
            &&& node.validator_candidate_since is None && bonded.validator_bond
                >= ledger.settings.validator_bond ==> bonded.validator_candidate_since == Some(at)
            &&& node.validator_candidate_since is None && bonded.validator_bond
                < ledger.settings.validator_bond ==> bonded.validator_candidate_since is None
        }),
{
}

} // verus!
