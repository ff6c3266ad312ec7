use vstd::prelude::*;
use vstd::string::*;
use vstd::utf8::*;

use crate::accounts::{
    account_balance, add_history, balance_of, ensure_account, history_added, key_bound,
};
use crate::amount::{format_mrk, mrk_text, parse_mrk, read_mrk};
use crate::availability::{probe_message, probe_text};
use crate::bonds::{
    add_governance_bond, add_validator_bond, bond_paid_out, check_governance_bond_free,
    check_governance_bond_open, check_service_bond, check_validator_bond_free, draining,
    governance_bond_added, governance_bond_free, governance_bond_open, leaving_governance,
    leaving_validators, pay_out_governance_bond, pay_out_reward, pay_out_service_bond,
    pay_out_validator_bond, reward_paid_out, service_bond_free, validator_bond_added,
    validator_bond_free, with_node, without_governance_bond, without_service_bond,
    without_validator_bond,
};
use crate::committee::{committee_refreshed, refresh_validator_committee};
use crate::crypto::{signature_checked, verify_bytes};
use crate::drafts::{
    commit_draft, draft_committed, draft_next_operation, next_operation, Draft, DraftModel,
};
use crate::error::{outcome, Error, Outcome, Result};
use crate::governance::{ensure_replicated_node_owner, owner_checked};
use crate::ip::{ip_slot, ip_text, slot_of, write_ip, IpAddress};
use crate::model::{
    Field, FieldModel, Intake, IntakeModel, KeyIdentity, KeyModel, LedgerModel, LedgerState,
    LocalNodeConfig, NodeConfigModel, NodeModel, NodeRecord, NodeStatus, OperationStatus, Payload,
    ProbeModel, ProbePayload,
};
use crate::nodes::{
    apply_node_price_update, ensure_node_can_drain, may_drain, price_checked, price_updated,
    validate_price_per_gib,
};
use crate::payload::PayloadModel;
use crate::protocol::VALIDATOR_BOND_UNLOCK_SECONDS;
use crate::registration::{move_node, node_moved};
use crate::table::Replicate;
use crate::text::{decimal, join4, text_same, u128_text};
use crate::views::{
    GovernanceBondReceipt, GovernanceBondReceiptModel, ValidatorBondReceipt,
    ValidatorBondReceiptModel,
};

verus! {

/// The number under which a local node is registered.
pub open spec fn registered_id(config: NodeConfigModel) -> Outcome<u64> {
    match config.node_id {
        Some(node_id) => Ok(node_id),
        None => Err("node is not registered"@),
    }
}

/// Reads the number under which a local node is registered.
pub fn local_node_id(config: &LocalNodeConfig) -> (r: Result<u64>)
    ensures
        outcome(r) == registered_id(config.deep_view()),
{
    match config.node_id {
        Some(node_id) => Ok(node_id),
        None => Err(Error::msg("node is not registered")),
    }
}

/// The number of a local node that is in the registry.
pub open spec fn listed_id(ledger: LedgerModel, config: NodeConfigModel) -> Outcome<u64> {
    match registered_id(config) {
        Err(refusal) => Err(refusal),
        Ok(node_id) => if ledger.nodes.contains_key(node_id) {
            Ok(node_id)
        } else {
            Err("registered node is missing from the ledger"@)
        },
    }
}

/// Reads the number of a local node that is in the registry.
pub fn listed_node_id(ledger: &LedgerState, config: &LocalNodeConfig) -> (r: Result<u64>)
    ensures
        outcome(r) == listed_id(ledger@, config.deep_view()),
        r matches Ok(node_id) ==> ledger@.nodes.contains_key(node_id),
{
    let node_id = local_node_id(config)?;
    if !ledger.nodes.contains_key(&node_id) {
        return Err(Error::msg("registered node is missing from the ledger"));
    }
    Ok(node_id)
}

/// The number of a local node that belongs to an owner.
pub open spec fn own_id(ledger: LedgerModel, config: NodeConfigModel, owner: Seq<char>) -> Outcome<
    u64,
> {
    match listed_id(ledger, config) {
        Err(refusal) => Err(refusal),
        Ok(node_id) => if ledger.nodes[node_id].owner_address != owner {
            Err("Node Owner key does not match the registry"@)
        } else {
            Ok(node_id)
        },
    }
}

fn own_node_id(ledger: &LedgerState, config: &LocalNodeConfig, owner: &KeyIdentity) -> (r: Result<
    u64,
>)
    ensures
        outcome(r) == own_id(ledger@, config.deep_view(), owner.deep_view().address),
        r matches Ok(node_id) ==> ledger@.nodes.contains_key(node_id),
{
    let node_id = listed_node_id(ledger, config)?;
    if let Some(node) = ledger.nodes.get(&node_id) {
        if !text_same(node.owner_address.as_str(), owner.address.as_str()) {
            return Err(Error::msg("Node Owner key does not match the registry"));
        }
    }
    Ok(node_id)
}

/// The number of a local node whose owner has its address and its key in the registry.
pub open spec fn keyed_id(ledger: LedgerModel, config: NodeConfigModel, owner: KeyModel) -> Outcome<
    u64,
> {
    match registered_id(config) {
        Err(refusal) => Err(refusal),
        Ok(node_id) => if owner_checked(ledger, node_id, owner.address, owner.public_key) is Ok {
            Ok(node_id)
        } else {
            Err("Node Owner key does not match the registry"@)
        },
    }
}

fn keyed_node_id(ledger: &LedgerState, config: &LocalNodeConfig, owner: &KeyIdentity) -> (r: Result<
    u64,
>)
    ensures
        outcome(r) == keyed_id(ledger@, config.deep_view(), owner.deep_view()),
{
    let node_id = local_node_id(config)?;
    match ensure_replicated_node_owner(
        ledger,
        node_id,
        owner.address.as_str(),
        owner.public_key.as_str(),
    ) {
        Ok(_) => Ok(node_id),
        Err(_) => Err(Error::msg("Node Owner key does not match the registry")),
    }
}

/// What an operation on one node carries.
pub open spec fn node_field(node_id: u64) -> PayloadModel {
    Map::<Seq<char>, FieldModel>::empty().insert("node_id"@, FieldModel::Integer(node_id as i128))
}

fn node_payload(node_id: u64) -> (r: Payload)
    ensures
        r.deep_view() == node_field(node_id),
{
    Payload::new().with_number("node_id", node_id)
}

/// What a payment to a node's reward account carries.
pub open spec fn payout_fields(node_id: u64, amount: u128, reward_address: Seq<char>) -> PayloadModel {
    node_field(node_id).insert(
        "amount_base_units"@,
        FieldModel::Text(decimal(amount as nat)),
    ).insert("reward_address"@, FieldModel::Text(reward_address))
}

fn payout_payload(node_id: u64, amount: u128, reward_address: &str) -> (r: Payload)
    ensures
        r.deep_view() == payout_fields(node_id, amount, reward_address@),
{
    node_payload(node_id).with_text("amount_base_units", u128_text(amount).as_str()).with_text(
        "reward_address",
        reward_address,
    )
}

/// The draft by which an owner moves its node.
pub open spec fn address_drafted(
    ledger: LedgerModel,
    config: NodeConfigModel,
    owner: KeyModel,
    endpoint: Seq<char>,
    reward_ip: IpAddress,
    now: i64,
) -> Outcome<DraftModel> {
    match keyed_id(ledger, config, owner) {
        Err(refusal) => Err(refusal),
        Ok(node_id) => match node_moved(
            ledger,
            node_id,
            endpoint,
            ip_text(reward_ip),
            slot_of(reward_ip),
            now,
        ) {
            Err(refusal) => Err(refusal),
            Ok(next) => Ok(
                DraftModel {
                    ledger: next,
                    operation: next_operation(
                        ledger,
                        owner.address,
                        "NodeRegistry"@,
                        "UpdateRewardIp"@,
                        node_field(node_id).insert("endpoint"@, FieldModel::Text(endpoint)).insert(
                            "reward_ip"@,
                            FieldModel::Text(ip_text(reward_ip)),
                        ).insert("ip_slot"@, FieldModel::Text(slot_of(reward_ip))),
                        now,
                    ),
                },
            ),
        },
    }
}

/// Drafts the move of a node to an endpoint and a public address that have been read and found.
pub fn update_reward_ip(
    ledger: &LedgerState,
    config: &LocalNodeConfig,
    owner: &KeyIdentity,
    endpoint: &str,
    reward_ip: IpAddress,
    now: i64,
) -> (r: Result<Draft>)
    ensures
        outcome(r) == address_drafted(
            ledger@,
            config.deep_view(),
            owner.deep_view(),
            endpoint@,
            reward_ip,
            now,
        ),
{
    let node_id = keyed_node_id(ledger, config, owner)?;
    let ip = write_ip(reward_ip);
    let slot = ip_slot(reward_ip);
    let operation = draft_next_operation(
        ledger,
        &owner.address,
        "NodeRegistry",
        "UpdateRewardIp",
        node_payload(node_id).with_text("endpoint", endpoint).with_text(
            "reward_ip",
            ip.as_str(),
        ).with_text("ip_slot", slot.as_str()),
        now,
    );
    let mut next = ledger.copy();
    move_node(&mut next, node_id, endpoint.to_owned(), ip.as_str(), slot.as_str(), now)?;
    Ok(Draft { ledger: next, operation })
}

/// The draft by which an owner sets the price of its node.
pub open spec fn price_drafted(
    ledger: LedgerModel,
    config: NodeConfigModel,
    owner: KeyModel,
    price_text: Seq<char>,
    now: i64,
) -> Outcome<DraftModel> {
    match read_mrk(price_text) {
        Err(refusal) => Err(refusal),
        Ok(price) => match price_checked(price) {
            Err(refusal) => Err(refusal),
            Ok(_) => match keyed_id(ledger, config, owner) {
                Err(refusal) => Err(refusal),
                Ok(node_id) => match price_updated(ledger, node_id, price) {
                    Err(refusal) => Err(refusal),
                    Ok(next) => Ok(
                        DraftModel {
                            ledger: next,
                            operation: next_operation(
                                ledger,
                                owner.address,
                                "NodeRegistry"@,
                                "UpdatePrice"@,
                                node_field(node_id).insert(
                                    "price_per_gib_base_units"@,
                                    FieldModel::Text(decimal(price as nat)),
                                ),
                                now,
                            ),
                        },
                    ),
                },
            },
        },
    }
}

/// Drafts a new price of a node.
pub fn update_node_price(
    ledger: &LedgerState,
    config: &LocalNodeConfig,
    owner: &KeyIdentity,
    price_text: &str,
    now: i64,
) -> (r: Result<Draft>)
    ensures
        outcome(r) == price_drafted(
            ledger@,
            config.deep_view(),
            owner.deep_view(),
            price_text@,
            now,
        ),
{
    let price = validate_price_per_gib(parse_mrk(price_text)?)?;
    let node_id = keyed_node_id(ledger, config, owner)?;
    let operation = draft_next_operation(
        ledger,
        &owner.address,
        "NodeRegistry",
        "UpdatePrice",
        node_payload(node_id).with_text("price_per_gib_base_units", u128_text(price).as_str()),
        now,
    );
    let mut next = ledger.copy();
    apply_node_price_update(&mut next, node_id, price)?;
    Ok(Draft { ledger: next, operation })
}

/// The node after a registry draft has been put in force.
pub fn commit_node_update(
    ledger: &mut LedgerState,
    draft: Draft,
    node_id: u64,
    public_key: &str,
    signature: String,
    intake: Intake,
    now: i64,
) -> (r: Result<(String, Option<NodeRecord>)>)
    ensures
        match draft_committed(draft.deep_view(), public_key@, signature@, intake.deep_view(), now) {
            Ok(next) => final(ledger)@ == next && (r matches Ok(done) && done.0@
                == intake.operation_id@ && done.1.deep_view() == if next.nodes.contains_key(
                node_id,
            ) {
                Some(next.nodes[node_id])
            } else {
                None
            }),
            Err(refusal) => final(ledger)@ == old(ledger)@ && (r matches Err(error) && error@
                == refusal),
        },
{
    let operation_id = commit_draft(ledger, draft, public_key, signature, intake, now)?;
    let node: Option<NodeRecord> = match ledger.nodes.get(&node_id) {
        Some(node) => Some(node.replicate()),
        None => None,
    };
    Ok((operation_id, node))
}

/// The draft by which an owner claims its node's reward, and the reward.
pub open spec fn claim_drafted(
    ledger: LedgerModel,
    config: NodeConfigModel,
    owner: Seq<char>,
    now: i64,
) -> Outcome<(DraftModel, u128)> {
    match listed_id(ledger, config) {
        Err(refusal) => Err(refusal),
        Ok(node_id) => {
            let claimable = ledger.nodes[node_id].claimable_reward;
            if claimable == 0 {
                Err("node has no claimable MRK reward"@)
            } else {
                match reward_paid_out(ledger, node_id, claimable) {
                    Err(refusal) => Err(refusal),
                    Ok(next) => Ok(
                        (
                            DraftModel {
                                ledger: next,
                                operation: next_operation(
                                    ledger,
                                    owner,
                                    "NodeEmissionController"@,
                                    "ClaimNodeReward"@,
                                    node_field(node_id).insert(
                                        "amount_base_units"@,
                                        FieldModel::Text(decimal(claimable as nat)),
                                    ),
                                    now,
                                ),
                            },
                            claimable,
                        ),
                    ),
                }
            }
        },
    }
}

/// Drafts the claim of a node's reward.
pub fn claim_node_rewards(
    ledger: &LedgerState,
    config: &LocalNodeConfig,
    owner: &KeyIdentity,
    now: i64,
) -> (r: Result<(Draft, u128)>)
    ensures
        outcome(r) == claim_drafted(ledger@, config.deep_view(), owner.deep_view().address, now),
{
    let node_id = listed_node_id(ledger, config)?;
    let claimable: u128 = match ledger.nodes.get(&node_id) {
        Some(node) => node.claimable_reward,
        None => 0,
    };
    if claimable == 0 {
        return Err(Error::msg("node has no claimable MRK reward"));
    }
    let operation = draft_next_operation(
        ledger,
        &owner.address,
        "NodeEmissionController",
        "ClaimNodeReward",
        node_payload(node_id).with_text("amount_base_units", u128_text(claimable).as_str()),
        now,
    );
    let mut next = ledger.copy();
    pay_out_reward(&mut next, node_id, claimable)?;
    Ok((Draft { ledger: next, operation }, claimable))
}

/// The ledger after a draft that pays an account has been put in force, and noted with the account.
pub open spec fn payout_committed(
    draft: DraftModel,
    beneficiary: Seq<char>,
    public_key: Seq<char>,
    signature: Seq<char>,
    intake: IntakeModel,
    now: i64,
) -> Outcome<LedgerModel> {
    match draft_committed(draft, public_key, signature, intake, now) {
        Err(refusal) => Err(refusal),
        Ok(next) => Ok(history_added(next, beneficiary, intake.operation_id)),
    }
}

/// Puts a signed draft that pays an account in force.
pub fn commit_payout(
    ledger: &mut LedgerState,
    draft: Draft,
    beneficiary: &str,
    public_key: &str,
    signature: String,
    intake: Intake,
    now: i64,
) -> (r: Result<String>)
    ensures
        match payout_committed(
            draft.deep_view(),
            beneficiary@,
            public_key@,
            signature@,
            intake.deep_view(),
            now,
        ) {
            Ok(next) => final(ledger)@ == next && (r matches Ok(id) && id@
                == intake.operation_id@),
            Err(refusal) => final(ledger)@ == old(ledger)@ && (r matches Err(error) && error@
                == refusal),
        },
{
    let operation_id = commit_draft(ledger, draft, public_key, signature, intake, now)?;
    add_history(ledger, beneficiary, operation_id.as_str());
    Ok(operation_id)
}

/// The draft by which an owner lets its node leave.
pub open spec fn drain_drafted(
    ledger: LedgerModel,
    config: NodeConfigModel,
    owner: Seq<char>,
    now: i64,
) -> Outcome<DraftModel> {
    match own_id(ledger, config, owner) {
        Err(refusal) => Err(refusal),
        Ok(node_id) => match may_drain(ledger.nodes[node_id]) {
            Err(refusal) => Err(refusal),
            Ok(_) => Ok(
                DraftModel {
                    ledger: draining(ledger, node_id),
                    operation: next_operation(
                        ledger,
                        owner,
                        "NodeRegistry"@,
                        "DrainNode"@,
                        node_field(node_id),
                        now,
                    ),
                },
            ),
        },
    }
}

/// Drafts that a node leaves.
pub fn drain_node(
    ledger: &LedgerState,
    config: &LocalNodeConfig,
    owner: &KeyIdentity,
    now: i64,
) -> (r: Result<Draft>)
    ensures
        outcome(r) == drain_drafted(ledger@, config.deep_view(), owner.deep_view().address, now),
{
    let node_id = own_node_id(ledger, config, owner)?;
    let mut next = ledger.copy();
    if let Some(node) = next.nodes.get_mut(&node_id) {
        ensure_node_can_drain(node)?;
        node.status = NodeStatus::Draining;
    }
    let operation = draft_next_operation(
        ledger,
        &owner.address,
        "NodeRegistry",
        "DrainNode",
        node_payload(node_id),
        now,
    );
    Ok(Draft { ledger: next, operation })
}

/// The draft by which an owner takes a bond of its node out, and the bond.
pub open spec fn payout_drafted(
    ledger: LedgerModel,
    owner: Seq<char>,
    module: Seq<char>,
    action: Seq<char>,
    node_id: u64,
    cleared: NodeModel,
    amount: u128,
    now: i64,
) -> Outcome<(DraftModel, u128)> {
    match bond_paid_out(ledger, node_id, cleared, amount) {
        Err(refusal) => Err(refusal),
        Ok(next) => Ok(
            (
                DraftModel {
                    ledger: next,
                    operation: next_operation(
                        ledger,
                        owner,
                        module,
                        action,
                        payout_fields(node_id, amount, cleared.reward_address),
                        now,
                    ),
                },
                amount,
            ),
        ),
    }
}

/// The draft by which an owner takes the service bond of its node out.
pub open spec fn service_payout_drafted(
    ledger: LedgerModel,
    config: NodeConfigModel,
    owner: Seq<char>,
    now: i64,
) -> Outcome<(DraftModel, u128)> {
    match own_id(ledger, config, owner) {
        Err(refusal) => Err(refusal),
        Ok(node_id) => {
            let node = ledger.nodes[node_id];
            match service_bond_free(node, now) {
                Err(refusal) => Err(refusal),
                Ok(_) => if node.service_bond == 0 {
                    Err("node has no Service Bond to withdraw"@)
                } else {
                    payout_drafted(
                        ledger,
                        owner,
                        "NodeRegistry"@,
                        "WithdrawServiceBond"@,
                        node_id,
                        without_service_bond(node),
                        node.service_bond,
                        now,
                    )
                },
            }
        },
    }
}

/// Drafts the withdrawal of a node's service bond.
pub fn withdraw_service_bond(
    ledger: &LedgerState,
    config: &LocalNodeConfig,
    owner: &KeyIdentity,
    now: i64,
) -> (r: Result<(Draft, u128)>)
    ensures
        outcome(r) == service_payout_drafted(
            ledger@,
            config.deep_view(),
            owner.deep_view().address,
            now,
        ),
{
    let node_id = own_node_id(ledger, config, owner)?;
    let (amount, address): (u128, String) = match ledger.nodes.get(&node_id) {
        None => {
            return Err(Error::msg("registered node is missing from the ledger"));
        },
        Some(node) => {
            check_service_bond(node, now)?;
            if node.service_bond == 0 {
                return Err(Error::msg("node has no Service Bond to withdraw"));
            }
            (node.service_bond, node.reward_address.clone())
        },
    };
    let operation = draft_next_operation(
        ledger,
        &owner.address,
        "NodeRegistry",
        "WithdrawServiceBond",
        payout_payload(node_id, amount, address.as_str()),
        now,
    );
    let mut next = ledger.copy();
    pay_out_service_bond(&mut next, node_id)?;
    Ok((Draft { ledger: next, operation }, amount))
}

/// The draft by which an owner takes the governance bond of its node out.
pub open spec fn governance_payout_drafted(
    ledger: LedgerModel,
    config: NodeConfigModel,
    owner: Seq<char>,
    now: i64,
) -> Outcome<(DraftModel, u128)> {
    match own_id(ledger, config, owner) {
        Err(refusal) => Err(refusal),
        Ok(node_id) => {
            let node = ledger.nodes[node_id];
            match governance_bond_free(node, now) {
                Err(refusal) => Err(refusal),
                Ok(_) => if node.governance_bond == 0 {
                    Err("node has no Governance Bond to withdraw"@)
                } else {
                    payout_drafted(
                        ledger,
                        owner,
                        "StakeVault"@,
                        "WithdrawGovernanceBond"@,
                        node_id,
                        without_governance_bond(node),
                        node.governance_bond,
                        now,
                    )
                },
            }
        },
    }
}

/// Drafts the withdrawal of a node's governance bond.
pub fn withdraw_governance_bond(
    ledger: &LedgerState,
    config: &LocalNodeConfig,
    owner: &KeyIdentity,
    now: i64,
) -> (r: Result<(Draft, u128)>)
    ensures
        outcome(r) == governance_payout_drafted(
            ledger@,
            config.deep_view(),
            owner.deep_view().address,
            now,
        ),
{
    let node_id = own_node_id(ledger, config, owner)?;
    let (amount, address): (u128, String) = match ledger.nodes.get(&node_id) {
        None => {
            return Err(Error::msg("registered node is missing from the ledger"));
        },
        Some(node) => {
            check_governance_bond_free(node, now)?;
            if node.governance_bond == 0 {
                return Err(Error::msg("node has no Governance Bond to withdraw"));
            }
            (node.governance_bond, node.reward_address.clone())
        },
    };
    let operation = draft_next_operation(
        ledger,
        &owner.address,
        "StakeVault",
        "WithdrawGovernanceBond",
        payout_payload(node_id, amount, address.as_str()),
        now,
    );
    let mut next = ledger.copy();
    pay_out_governance_bond(&mut next, node_id)?;
    Ok((Draft { ledger: next, operation }, amount))
}

/// The draft by which an owner takes the validator bond of its node out.
pub open spec fn validator_payout_drafted(
    ledger: LedgerModel,
    config: NodeConfigModel,
    owner: Seq<char>,
    now: i64,
) -> Outcome<(DraftModel, u128)> {
    match own_id(ledger, config, owner) {
        Err(refusal) => Err(refusal),
        Ok(node_id) => {
            let node = ledger.nodes[node_id];
            match validator_bond_free(node, now) {
                Err(refusal) => Err(refusal),
                Ok(_) => if node.validator {
                    Err(
                        "Validator Bond cannot be withdrawn while the node is in the active committee"@,
                    )
                } else if node.validator_bond == 0 {
                    Err("node has no Validator Bond to withdraw"@)
                } else {
                    payout_drafted(
                        ledger,
                        owner,
                        "StakeVault"@,
                        "WithdrawValidatorBond"@,
                        node_id,
                        without_validator_bond(node),
                        node.validator_bond,
                        now,
                    )
                },
            }
        },
    }
}

/// Drafts the withdrawal of a node's validator bond.
pub fn withdraw_validator_bond(
    ledger: &LedgerState,
    config: &LocalNodeConfig,
    owner: &KeyIdentity,
    now: i64,
) -> (r: Result<(Draft, u128)>)
    ensures
        outcome(r) == validator_payout_drafted(
            ledger@,
            config.deep_view(),
            owner.deep_view().address,
            now,
        ),
{
    let node_id = own_node_id(ledger, config, owner)?;
    let (amount, address): (u128, String) = match ledger.nodes.get(&node_id) {
        None => {
            return Err(Error::msg("registered node is missing from the ledger"));
        },
        Some(node) => {
            check_validator_bond_free(node, now)?;
            if node.validator {
                return Err(
                    Error::msg(
                        "Validator Bond cannot be withdrawn while the node is in the active committee",
                    ),
                );
            }
            if node.validator_bond == 0 {
                return Err(Error::msg("node has no Validator Bond to withdraw"));
            }
            (node.validator_bond, node.reward_address.clone())
        },
    };
    let operation = draft_next_operation(
        ledger,
        &owner.address,
        "StakeVault",
        "WithdrawValidatorBond",
        payout_payload(node_id, amount, address.as_str()),
        now,
    );
    let mut next = ledger.copy();
    pay_out_validator_bond(&mut next, node_id)?;
    Ok((Draft { ledger: next, operation }, amount))
}

/// The number of a local node whose owner and reward account are those of the registry.
pub open spec fn rewarded_id(
    ledger: LedgerModel,
    config: NodeConfigModel,
    reward: Seq<char>,
) -> Outcome<u64> {
    match listed_id(ledger, config) {
        Err(refusal) => Err(refusal),
        Ok(node_id) => if ledger.nodes[node_id].owner_address != config.owner_address
            || ledger.nodes[node_id].reward_address != reward {
            Err("local Node keys do not match the Node registry"@)
        } else {
            Ok(node_id)
        },
    }
}

fn rewarded_node_id(
    ledger: &LedgerState,
    config: &LocalNodeConfig,
    reward: &KeyIdentity,
) -> (r: Result<u64>)
    ensures
        outcome(r) == rewarded_id(ledger@, config.deep_view(), reward.deep_view().address),
        r matches Ok(node_id) ==> ledger@.nodes.contains_key(node_id),
{
    let node_id = listed_node_id(ledger, config)?;
    if let Some(node) = ledger.nodes.get(&node_id) {
        if !text_same(node.owner_address.as_str(), config.owner_address.as_str()) || !text_same(
            node.reward_address.as_str(),
            reward.address.as_str(),
        ) {
            return Err(Error::msg("local Node keys do not match the Node registry"));
        }
    }
    Ok(node_id)
}

/// What is left to pay of a required bond, if an account has it.
pub open spec fn bond_needed(
    ledger: LedgerModel,
    payer: Seq<char>,
    required: u128,
    held: u128,
    enough: Seq<char>,
    short: Seq<char>,
) -> Outcome<u128> {
    let balance = balance_of(ledger, payer);
    if held >= required {
        Err(enough)
    } else if balance < required - held {
        Err(
            short + mrk_text(balance as nat) + ", required "@ + mrk_text((required - held) as nat),
        )
    } else {
        Ok((required - held) as u128)
    }
}

fn need_bond(
    ledger: &LedgerState,
    payer: &str,
    required: u128,
    held: u128,
    enough: &str,
    short: &str,
) -> (r: Result<u128>)
    ensures
        outcome(r) == bond_needed(ledger@, payer@, required, held, enough@, short@),
{
    if held >= required {
        return Err(Error::msg(enough));
    }
    let needed: u128 = required - held;
    let balance = account_balance(ledger, payer);
    if balance < needed {
        return Err(
            Error::owned(
                join4(
                    short,
                    format_mrk(balance).as_str(),
                    ", required ",
                    format_mrk(needed).as_str(),
                ),
            ),
        );
    }
    Ok(needed)
}

/// What a draft of a bond pays: to which node, how much, and when the bond matures.
pub struct BondTerms {
    pub node_id: u64,
    pub needed: u128,
    pub matures_at: i64,
}

impl DeepView for BondTerms {
    type V = BondTerms;

    open spec fn deep_view(&self) -> BondTerms {
        *self
    }
}

/// The draft by which a node's reward account completes its governance bond.
pub open spec fn governance_bond_drafted(
    ledger: LedgerModel,
    config: NodeConfigModel,
    reward: KeyModel,
    now: i64,
) -> Outcome<(DraftModel, BondTerms)> {
    match registered_id(config) {
        Err(refusal) => Err(refusal),
        Ok(_) => match key_bound(ledger, reward.address, reward.public_key) {
            Err(refusal) => Err(refusal),
            Ok(bound) => match rewarded_id(bound, config, reward.address) {
                Err(refusal) => Err(refusal),
                Ok(node_id) => {
                    let node = bound.nodes[node_id];
                    match governance_bond_open(node) {
                        Err(refusal) => Err(refusal),
                        Ok(_) => match bond_needed(
                            bound,
                            reward.address,
                            bound.settings.required_governance_bond,
                            node.governance_bond,
                            "node already has the required Governance Bond"@,
                            "insufficient spendable MRK for Governance Bond: available "@,
                        ) {
                            Err(refusal) => Err(refusal),
                            Ok(needed) => {
                                let matures = now
                                    + bound.settings.governance_bond_maturity_seconds;
                                if !(i64::MIN <= matures <= i64::MAX) {
                                    Err("Governance Bond maturity timestamp overflow"@)
                                } else {
                                    match governance_bond_added(
                                        bound,
                                        node_id,
                                        reward.address,
                                        needed,
                                        now,
                                    ) {
                                        Err(refusal) => Err(refusal),
                                        Ok(next) => Ok(
                                            (
                                                DraftModel {
                                                    ledger: next,
                                                    operation: next_operation(
                                                        bound,
                                                        reward.address,
                                                        "StakeVault"@,
                                                        "BondGovernance"@,
                                                        node_field(node_id).insert(
                                                            "amount_base_units"@,
                                                            FieldModel::Text(
                                                                decimal(needed as nat),
                                                            ),
                                                        ).insert(
                                                            "bonded_at"@,
                                                            FieldModel::Integer(now as i128),
                                                        ),
                                                        now,
                                                    ),
                                                },
                                                BondTerms {
                                                    node_id,
                                                    needed,
                                                    matures_at: matures as i64,
                                                },
                                            ),
                                        ),
                                    }
                                }
                            },
                        },
                    }
                },
            },
        },
    }
}

/// Drafts the completion of a node's governance bond.
pub fn bond_governance(
    ledger: &LedgerState,
    config: &LocalNodeConfig,
    reward: &KeyIdentity,
    now: i64,
) -> (r: Result<(Draft, BondTerms)>)
    ensures
        outcome(r) == governance_bond_drafted(
            ledger@,
            config.deep_view(),
            reward.deep_view(),
            now,
        ),
{
    local_node_id(config)?;
    let mut next = ledger.copy();
    ensure_account(&mut next, reward)?;
    let node_id = rewarded_node_id(&next, config, reward)?;
    let held: u128 = match next.nodes.get(&node_id) {
        None => {
            return Err(Error::msg("registered node is missing from the ledger"));
        },
        Some(node) => {
            check_governance_bond_open(node)?;
            node.governance_bond
        },
    };
    let needed = need_bond(
        &next,
        reward.address.as_str(),
        next.settings.required_governance_bond,
        held,
        "node already has the required Governance Bond",
        "insufficient spendable MRK for Governance Bond: available ",
    )?;
    let matures_at: i64 = match now.checked_add(next.settings.governance_bond_maturity_seconds) {
        None => {
            return Err(Error::msg("Governance Bond maturity timestamp overflow"));
        },
        Some(matures_at) => matures_at,
    };
    let operation = draft_next_operation(
        &next,
        &reward.address,
        "StakeVault",
        "BondGovernance",
        node_payload(node_id).with_text("amount_base_units", u128_text(needed).as_str()).with(
            "bonded_at",
            Field::Integer(now as i128),
        ),
        now,
    );
    add_governance_bond(&mut next, node_id, reward.address.as_str(), needed, now)?;
    Ok((Draft { ledger: next, operation }, BondTerms { node_id, needed, matures_at }))
}

/// What is said of a governance bond that has been completed.
pub open spec fn governance_receipt(
    ledger: LedgerModel,
    terms: BondTerms,
    operation_id: Seq<char>,
    now: i64,
) -> GovernanceBondReceiptModel {
    let total = if ledger.nodes.contains_key(terms.node_id) {
        ledger.nodes[terms.node_id].governance_bond
    } else {
        0
    };
    GovernanceBondReceiptModel {
        operation_id,
        status: OperationStatus::Pending,
        node_id: terms.node_id,
        bonded: terms.needed,
        bonded_display: mrk_text(terms.needed as nat),
        total_governance_bond: total,
        total_governance_bond_display: mrk_text(total as nat),
        bonded_at: now,
        matures_at: terms.matures_at,
    }
}

/// Puts a signed governance bond in force.
pub fn commit_governance_bond(
    ledger: &mut LedgerState,
    draft: Draft,
    terms: BondTerms,
    public_key: &str,
    signature: String,
    intake: Intake,
    now: i64,
) -> (r: Result<GovernanceBondReceipt>)
    ensures
        match draft_committed(draft.deep_view(), public_key@, signature@, intake.deep_view(), now) {
            Ok(next) => final(ledger)@ == next && (r matches Ok(receipt) && receipt.deep_view()
                == governance_receipt(next, terms, intake.operation_id@, now)),
            Err(refusal) => final(ledger)@ == old(ledger)@ && (r matches Err(error) && error@
                == refusal),
        },
{
    let operation_id = commit_draft(ledger, draft, public_key, signature, intake, now)?;
    let total: u128 = match ledger.nodes.get(&terms.node_id) {
        Some(node) => node.governance_bond,
        None => 0,
    };
    Ok(
        GovernanceBondReceipt {
            operation_id,
            status: OperationStatus::Pending,
            node_id: terms.node_id,
            bonded: terms.needed,
            bonded_display: format_mrk(terms.needed),
            total_governance_bond: total,
            total_governance_bond_display: format_mrk(total),
            bonded_at: now,
            matures_at: terms.matures_at,
        },
    )
}

/// The draft by which an owner lets its node leave governance.
pub open spec fn governance_exit_drafted(
    ledger: LedgerModel,
    config: NodeConfigModel,
    owner: Seq<char>,
    now: i64,
) -> Outcome<DraftModel> {
    match own_id(ledger, config, owner) {
        Err(refusal) => Err(refusal),
        Ok(node_id) => {
            let node = ledger.nodes[node_id];
            let unlock = now + ledger.settings.governance_bond_unlock_seconds;
            if node.governance_bond == 0 {
                Err("node has no Governance Bond"@)
            } else if node.governance_exit_requested_at is Some {
                Err("Governance exit is already pending"@)
            } else if !(i64::MIN <= unlock <= i64::MAX) {
                Err("Governance Bond unlock timestamp overflow"@)
            } else {
                Ok(
                    DraftModel {
                        ledger: with_node(
                            ledger,
                            node_id,
                            leaving_governance(node, now, unlock as i64),
                        ),
                        operation: next_operation(
                            ledger,
                            owner,
                            "StakeVault"@,
                            "ExitGovernance"@,
                            node_field(node_id).insert(
                                "unlock_at"@,
                                FieldModel::Integer(unlock as i128),
                            ),
                            now,
                        ),
                    },
                )
            }
        },
    }
}

/// Drafts that a node leaves governance.
pub fn request_governance_exit(
    ledger: &LedgerState,
    config: &LocalNodeConfig,
    owner: &KeyIdentity,
    now: i64,
) -> (r: Result<Draft>)
    ensures
        outcome(r) == governance_exit_drafted(
            ledger@,
            config.deep_view(),
            owner.deep_view().address,
            now,
        ),
{
    let node_id = own_node_id(ledger, config, owner)?;
    let mut next = ledger.copy();
    let mut unlock_at: i64 = now;
    if let Some(node) = next.nodes.get_mut(&node_id) {
        if node.governance_bond == 0 {
            return Err(Error::msg("node has no Governance Bond"));
        }
        if node.governance_exit_requested_at.is_some() {
            return Err(Error::msg("Governance exit is already pending"));
        }
        match now.checked_add(ledger.settings.governance_bond_unlock_seconds) {
            None => {
                return Err(Error::msg("Governance Bond unlock timestamp overflow"));
            },
            Some(unlock) => {
                unlock_at = unlock;
            },
        }
        node.governance_exit_requested_at = Some(now);
        node.governance_bond_unlock_at = Some(unlock_at);
    }
    let operation = draft_next_operation(
        ledger,
        &owner.address,
        "StakeVault",
        "ExitGovernance",
        node_payload(node_id).with("unlock_at", Field::Integer(unlock_at as i128)),
        now,
    );
    Ok(Draft { ledger: next, operation })
}

/// The draft by which a node's reward account completes its validator bond.
pub open spec fn validator_bond_drafted(
    ledger: LedgerModel,
    config: NodeConfigModel,
    reward: KeyModel,
    now: i64,
) -> Outcome<(DraftModel, BondTerms)> {
    match registered_id(config) {
        Err(refusal) => Err(refusal),
        Ok(_) => match key_bound(ledger, reward.address, reward.public_key) {
            Err(refusal) => Err(refusal),
            Ok(bound) => match rewarded_id(bound, config, reward.address) {
                Err(refusal) => Err(refusal),
                Ok(node_id) => {
                    let node = bound.nodes[node_id];
                    if node.validator_exit_requested_at is Some {
                        Err("validator exit is pending; withdraw the old bond before joining again"@)
                    } else {
                        match bond_needed(
                            bound,
                            reward.address,
                            bound.settings.validator_bond,
                            node.validator_bond,
                            "node already has the required Validator Bond"@,
                            "insufficient spendable MRK for Validator Bond: available "@,
                        ) {
                            Err(refusal) => Err(refusal),
                            Ok(needed) => match validator_bond_added(
                                bound,
                                node_id,
                                reward.address,
                                needed,
                                now,
                            ) {
                                Err(refusal) => Err(refusal),
                                Ok(next) => Ok(
                                    (
                                        DraftModel {
                                            ledger: next,
                                            operation: next_operation(
                                                bound,
                                                reward.address,
                                                "StakeVault"@,
                                                "BondValidator"@,
                                                node_field(node_id).insert(
                                                    "amount_base_units"@,
                                                    FieldModel::Text(decimal(needed as nat)),
                                                ),
                                                now,
                                            ),
                                        },
                                        BondTerms { node_id, needed, matures_at: now },
                                    ),
                                ),
                            },
                        }
                    }
                },
            },
        },
    }
}

/// Drafts the completion of a node's validator bond, by which the node joins the candidates.
pub fn join_validator_pool(
    ledger: &LedgerState,
    config: &LocalNodeConfig,
    reward: &KeyIdentity,
    now: i64,
) -> (r: Result<(Draft, BondTerms)>)
    ensures
        outcome(r) == validator_bond_drafted(
            ledger@,
            config.deep_view(),
            reward.deep_view(),
            now,
        ),
{
    local_node_id(config)?;
    let mut next = ledger.copy();
    ensure_account(&mut next, reward)?;
    let node_id = rewarded_node_id(&next, config, reward)?;
    let held: u128 = match next.nodes.get(&node_id) {
        None => {
            return Err(Error::msg("registered node is missing from the ledger"));
        },
        Some(node) => {
            if node.validator_exit_requested_at.is_some() {
                return Err(
                    Error::msg(
                        "validator exit is pending; withdraw the old bond before joining again",
                    ),
                );
            }
            node.validator_bond
        },
    };
    let needed = need_bond(
        &next,
        reward.address.as_str(),
        next.settings.validator_bond,
        held,
        "node already has the required Validator Bond",
        "insufficient spendable MRK for Validator Bond: available ",
    )?;
    let operation = draft_next_operation(
        &next,
        &reward.address,
        "StakeVault",
        "BondValidator",
        node_payload(node_id).with_text("amount_base_units", u128_text(needed).as_str()),
        now,
    );
    add_validator_bond(&mut next, node_id, reward.address.as_str(), needed, now)?;
    Ok((Draft { ledger: next, operation }, BondTerms { node_id, needed, matures_at: now }))
}

/// What is said of a validator bond that has been completed.
pub open spec fn validator_receipt(
    ledger: LedgerModel,
    terms: BondTerms,
    operation_id: Seq<char>,
) -> ValidatorBondReceiptModel {
    let known = ledger.nodes.contains_key(terms.node_id);
    let node = ledger.nodes[terms.node_id];
    let total = if known {
        node.validator_bond
    } else {
        0
    };
    ValidatorBondReceiptModel {
        operation_id,
        status: OperationStatus::Pending,
        node_id: terms.node_id,
        bonded: terms.needed,
        bonded_display: mrk_text(terms.needed as nat),
        total_validator_bond: total,
        total_validator_bond_display: mrk_text(total as nat),
        candidate: known && node.validator_candidate_since is Some,
    }
}

/// Puts a signed validator bond in force; the committee is then chosen anew where that is due.
pub fn commit_validator_bond(
    ledger: &mut LedgerState,
    draft: Draft,
    terms: BondTerms,
    public_key: &str,
    signature: String,
    intake: Intake,
    now: i64,
) -> (r: Result<ValidatorBondReceipt>)
    ensures
        match draft_committed(draft.deep_view(), public_key@, signature@, intake.deep_view(), now) {
            Ok(next) => final(ledger)@ == committee_refreshed(next, now) && (r matches Ok(receipt)
                && receipt.deep_view() == validator_receipt(
                committee_refreshed(next, now),
                terms,
                intake.operation_id@,
            )),
            Err(refusal) => final(ledger)@ == old(ledger)@ && (r matches Err(error) && error@
                == refusal),
        },
{
    let operation_id = commit_draft(ledger, draft, public_key, signature, intake, now)?;
    refresh_validator_committee(ledger, now)?;
    let (total, candidate): (u128, bool) = match ledger.nodes.get(&terms.node_id) {
        Some(node) => (node.validator_bond, node.validator_candidate_since.is_some()),
        None => (0, false),
    };
    Ok(
        ValidatorBondReceipt {
            operation_id,
            status: OperationStatus::Pending,
            node_id: terms.node_id,
            bonded: terms.needed,
            bonded_display: format_mrk(terms.needed),
            total_validator_bond: total,
            total_validator_bond_display: format_mrk(total),
            candidate,
        },
    )
}

/// The draft by which an owner lets its node leave the validators.
pub open spec fn validator_exit_drafted(
    ledger: LedgerModel,
    config: NodeConfigModel,
    owner: Seq<char>,
    now: i64,
) -> Outcome<DraftModel> {
    match own_id(ledger, config, owner) {
        Err(refusal) => Err(refusal),
        Ok(node_id) => {
            let node = ledger.nodes[node_id];
            let unlock = now + VALIDATOR_BOND_UNLOCK_SECONDS;
            if node.validator_bond == 0 {
                Err("node has no Validator Bond"@)
            } else if node.validator_exit_requested_at is Some {
                Err("validator exit is already pending"@)
            } else if unlock > i64::MAX {
                Err("Validator Bond unlock timestamp overflow"@)
            } else {
                Ok(
                    DraftModel {
                        ledger: with_node(
                            ledger,
                            node_id,
                            leaving_validators(node, now, unlock as i64),
                        ),
                        operation: next_operation(
                            ledger,
                            owner,
                            "StakeVault"@,
                            "ExitValidator"@,
                            node_field(node_id).insert(
                                "unlock_at"@,
                                FieldModel::Integer(unlock as i128),
                            ),
                            now,
                        ),
                    },
                )
            }
        },
    }
}

/// Drafts that a node leaves the validators.
pub fn request_validator_exit(
    ledger: &LedgerState,
    config: &LocalNodeConfig,
    owner: &KeyIdentity,
    now: i64,
) -> (r: Result<Draft>)
    ensures
        outcome(r) == validator_exit_drafted(
            ledger@,
            config.deep_view(),
            owner.deep_view().address,
            now,
        ),
{
    let node_id = own_node_id(ledger, config, owner)?;
    let mut next = ledger.copy();
    let mut unlock_at: i64 = now;
    if let Some(node) = next.nodes.get_mut(&node_id) {
        if node.validator_bond == 0 {
            return Err(Error::msg("node has no Validator Bond"));
        }
        if node.validator_exit_requested_at.is_some() {
            return Err(Error::msg("validator exit is already pending"));
        }
        match now.checked_add(VALIDATOR_BOND_UNLOCK_SECONDS) {
            None => {
                return Err(Error::msg("Validator Bond unlock timestamp overflow"));
            },
            Some(unlock) => {
                unlock_at = unlock;
            },
        }
        node.validator_exit_requested_at = Some(now);
        node.validator_bond_unlock_at = Some(unlock_at);
    }
    let operation = draft_next_operation(
        ledger,
        &owner.address,
        "StakeVault",
        "ExitValidator",
        node_payload(node_id).with("unlock_at", Field::Integer(unlock_at as i128)),
        now,
    );
    Ok(Draft { ledger: next, operation })
}

/// The ledger after a local node has shown that it runs, and the node.
pub open spec fn node_ticked(ledger: LedgerModel, config: NodeConfigModel, now: i64) -> Outcome<
    (LedgerModel, NodeModel),
> {
    match listed_id(ledger, config) {
        Err(refusal) => Err(refusal),
        Ok(node_id) => {
            let node = ledger.nodes[node_id];
            let ticked = if node.status == NodeStatus::Exited || node.status
                == NodeStatus::Suspended {
                node
            } else {
                NodeModel { last_heartbeat: Some(now), ..node }
            };
            Ok((with_node(ledger, node_id, ticked), ticked))
        },
    }
}

/// Notes that a local node runs.
pub fn node_tick(ledger: &mut LedgerState, config: &LocalNodeConfig, now: i64) -> (r: Result<
    NodeRecord,
>)
    ensures
        match node_ticked(old(ledger)@, config.deep_view(), now) {
            Ok(next) => final(ledger)@ == next.0 && (r matches Ok(node) && node.deep_view()
                == next.1),
            Err(refusal) => final(ledger)@ == old(ledger)@ && (r matches Err(error) && error@
                == refusal),
        },
{
    let node_id = local_node_id(config)?;
    match ledger.nodes.get_mut(&node_id) {
        None => Err(Error::msg("registered node is missing from the ledger")),
        Some(node) => {
            if !matches!(node.status, NodeStatus::Exited | NodeStatus::Suspended) {
                node.last_heartbeat = Some(now);
            }
            Ok(node.replicate())
        },
    }
}

/// A relay's answer to a probe, which the relay has signed.
pub open spec fn probe_answered(
    node_id: u64,
    relay_public_key: Seq<char>,
    timestamp: i64,
    challenge: Seq<char>,
    signature: Seq<char>,
) -> Outcome<ProbeModel> {
    let length = encode_utf8(challenge).len();
    if length < 16 || length > 512 {
        Err("probe challenge must contain between 16 and 512 characters"@)
    } else {
        match signature_checked(
            relay_public_key,
            encode_utf8(probe_text(node_id, timestamp, challenge)),
            signature,
        ) {
            Err(refusal) => Err(refusal),
            Ok(_) => Ok(
                ProbeModel {
                    protocol: "mrk-probe-v1"@,
                    node_id,
                    relay_public_key,
                    timestamp,
                    challenge,
                    signature,
                },
            ),
        }
    }
}

/// Answers a probe with the relay's signature over `probe_message`.
pub fn node_probe_response(
    config: &LocalNodeConfig,
    relay_public_key: &str,
    challenge: &str,
    timestamp: i64,
    signature: &str,
) -> (r: Result<ProbePayload>)
    ensures
        outcome(r) == probe_answered(
            match config.node_id {
                Some(node_id) => node_id,
                None => 0,
            },
            relay_public_key@,
            timestamp,
            challenge@,
            signature@,
        ),
        r matches Ok(probe) ==> signature_checked(
            relay_public_key@,
            encode_utf8(probe_text(probe.node_id, probe.timestamp, probe.deep_view().challenge)),
            probe.deep_view().signature,
        ) is Ok,
{
    let length: usize = challenge.as_bytes().len();
    if length < 16 || length > 512 {
        return Err(Error::msg("probe challenge must contain between 16 and 512 characters"));
    }
    let node_id: u64 = match config.node_id {
        Some(node_id) => node_id,
        None => 0,
    };
    verify_bytes(
        relay_public_key,
        probe_message(node_id, timestamp, challenge).as_str().as_bytes(),
        signature,
    )?;
    Ok(
        ProbePayload {
            protocol: "mrk-probe-v1".to_owned(),
            node_id,
            relay_public_key: relay_public_key.to_owned(),
            timestamp,
            challenge: challenge.to_owned(),
            signature: signature.to_owned(),
        },
    )
}

} // verus!
