use vstd::prelude::*;
use vstd::string::*;

use crate::accounts::{account_of, ensure_account, key_bound, with_account};
use crate::amount::{parse_mrk, read_mrk};
use crate::crypto::{address_from_public_key, address_of, base64_decoded, decode_standard};
use crate::drafts::{draft_next_operation, next_operation, Draft, DraftModel};
use crate::endpoint::{endpoint_text, parse_wss_endpoint};
use crate::error::{outcome, Error, Outcome, Result};
use crate::ip::{
    ip_slot, ip_text, reward_slot, slot_of, validate_reward_ip_slot, write_ip, IpAddress,
};
use crate::model::{
    AccountModel, AccountState, Field, FieldModel, GenesisAuthority, GenesisModel, KeyIdentity,
    KeyModel, LedgerModel, LedgerState, NodeModel, NodeRecord, NodeStatus, Payload,
    RewardVestingBucket,
};
use crate::nodes::{
    bind_ip_slot_if_available, eligible_ids, endpoint_available, ensure_node_endpoint_available,
    governance_eligible_node_ids, initial_node_lifecycle, lifecycle_begun, median_price,
    network_median_price_per_gib, owner_may_register, price_checked, relay_prices,
    release_node_ip_slot, slot_bound, slot_held, slot_released, validate_node_owner_registration,
    validate_price_per_gib,
};
use crate::number::clamped_u64;
use crate::payload::{
    field_i64, field_u64, parse_payload_u128, payload_str, payload_u64, required_amount,
    required_text, required_u64, PayloadModel,
};
use crate::protocol::NODE1_DIRECT_GOVERNANCE_END_THRESHOLD;
use crate::table::{Replicate, Table};
use crate::text::{decimal, text_same, u128_text};

verus! {

/// What a node brings to the registry.
pub struct NodeEntry {
    pub node_id: u64,
    pub previous_node_id: Option<u64>,
    pub name: String,
    pub relay_public_key: String,
    pub reward_address: String,
    pub endpoint: String,
    pub reward_ip: String,
    pub ip_slot: String,
    pub price_per_gib: u128,
    pub status: NodeStatus,
    pub registered_at: i64,
    pub warmup_until: i64,
    pub active_since: Option<i64>,
}

/// The contents of `NodeEntry`.
#[verifier::ext_equal]
pub struct EntryModel {
    pub node_id: u64,
    pub previous_node_id: Option<u64>,
    pub name: Seq<char>,
    pub relay_public_key: Seq<char>,
    pub reward_address: Seq<char>,
    pub endpoint: Seq<char>,
    pub reward_ip: Seq<char>,
    pub ip_slot: Seq<char>,
    pub price_per_gib: u128,
    pub status: NodeStatus,
    pub registered_at: i64,
    pub warmup_until: i64,
    pub active_since: Option<i64>,
}

impl DeepView for NodeEntry {
    type V = EntryModel;

    open spec fn deep_view(&self) -> EntryModel {
        EntryModel {
            node_id: self.node_id,
            previous_node_id: self.previous_node_id,
            name: self.name@,
            relay_public_key: self.relay_public_key@,
            reward_address: self.reward_address@,
            endpoint: self.endpoint@,
            reward_ip: self.reward_ip@,
            ip_slot: self.ip_slot@,
            price_per_gib: self.price_per_gib,
            status: self.status,
            registered_at: self.registered_at,
            warmup_until: self.warmup_until,
            active_since: self.active_since,
        }
    }
}

/// A node that has just been registered.
pub open spec fn node_entered(
    entry: EntryModel,
    owner_address: Seq<char>,
    owner_public_key: Seq<char>,
) -> NodeModel {
    NodeModel {
        node_id: entry.node_id,
        previous_node_id: entry.previous_node_id,
        name: entry.name,
        owner_address,
        owner_public_key,
        relay_public_key: entry.relay_public_key,
        reward_address: entry.reward_address,
        endpoint: entry.endpoint,
        reward_ip: entry.reward_ip,
        ip_slot: entry.ip_slot,
        price_per_gib: entry.price_per_gib,
        status: entry.status,
        registered_at: entry.registered_at,
        warmup_until: entry.warmup_until,
        active_since: entry.active_since,
        last_heartbeat: None,
        last_probe_success: None,
        probe_success_count: 0,
        last_relay_receipt_at: None,
        eligible_seconds_by_epoch: Map::empty(),
        total_eligible_seconds: 0,
        service_bond: 0,
        service_bond_unlock_at: None,
        governance_bond: 0,
        governance_bonded_at: None,
        governance_exit_requested_at: None,
        governance_bond_unlock_at: None,
        offline_slashed_at: None,
        offline_slashed_service_bond: 0,
        offline_slashed_vesting_reward: 0,
        claimable_reward: 0,
        reward_vesting_buckets: Seq::empty(),
        validator: false,
        validator_signature_rate_bps: 0,
        validator_bond: 0,
        validator_candidate_since: None,
        validator_last_epoch: None,
        validator_consecutive_epochs: 0,
        validator_exit_requested_at: None,
        validator_bond_unlock_at: None,
    }
}

fn make_node(entry: &NodeEntry, owner_address: &str, owner_public_key: &str) -> (r: NodeRecord)
    ensures
        r.deep_view() == node_entered(entry.deep_view(), owner_address@, owner_public_key@),
{
    let reward_vesting_buckets: Vec<RewardVestingBucket> = Vec::new();
    assert(reward_vesting_buckets@ =~= Seq::<RewardVestingBucket>::empty());
    NodeRecord {
        node_id: entry.node_id,
        previous_node_id: entry.previous_node_id,
        name: entry.name.clone(),
        owner_address: owner_address.to_owned(),
        owner_public_key: owner_public_key.to_owned(),
        relay_public_key: entry.relay_public_key.clone(),
        reward_address: entry.reward_address.clone(),
        endpoint: entry.endpoint.clone(),
        reward_ip: entry.reward_ip.clone(),
        ip_slot: entry.ip_slot.clone(),
        price_per_gib: entry.price_per_gib,
        status: entry.status,
        registered_at: entry.registered_at,
        warmup_until: entry.warmup_until,
        active_since: entry.active_since,
        last_heartbeat: None,
        last_probe_success: None,
        probe_success_count: 0,
        last_relay_receipt_at: None,
        eligible_seconds_by_epoch: Table::new(),
        total_eligible_seconds: 0,
        service_bond: 0,
        service_bond_unlock_at: None,
        governance_bond: 0,
        governance_bonded_at: None,
        governance_exit_requested_at: None,
        governance_bond_unlock_at: None,
        offline_slashed_at: None,
        offline_slashed_service_bond: 0,
        offline_slashed_vesting_reward: 0,
        claimable_reward: 0,
        reward_vesting_buckets,
        validator: false,
        validator_signature_rate_bps: 0,
        validator_bond: 0,
        validator_candidate_since: None,
        validator_last_epoch: None,
        validator_consecutive_epochs: 0,
        validator_exit_requested_at: None,
        validator_bond_unlock_at: None,
    }
}

/// The ledger after a node has been put in the registry. The first node founds the ledger's
/// authority; every other one needs it.
pub open spec fn node_admitted(
    ledger: LedgerModel,
    entry: EntryModel,
    owner_address: Seq<char>,
    owner_public_key: Seq<char>,
    founded: Seq<char>,
    unfounded: Seq<char>,
    at: i64,
) -> Outcome<LedgerModel> {
    if entry.node_id == 1 && ledger.genesis_authority is Some {
        Err(founded)
    } else if entry.node_id != 1 && ledger.genesis_authority is None {
        Err(unfounded)
    } else {
        Ok(
            slot_bound(
                LedgerModel {
                    genesis_authority: if entry.node_id == 1 {
                        Some(
                            GenesisModel {
                                node_id: entry.node_id,
                                owner_address,
                                owner_public_key,
                                established_at: entry.registered_at,
                            },
                        )
                    } else {
                        ledger.genesis_authority
                    },
                    nodes: ledger.nodes.insert(
                        entry.node_id,
                        node_entered(entry, owner_address, owner_public_key),
                    ),
                    next_node_id: clamped_u64(ledger.next_node_id + 1),
                    ..ledger
                },
                entry.ip_slot,
                entry.node_id,
                at,
            ),
        )
    }
}

fn admit_node(
    ledger: &mut LedgerState,
    entry: &NodeEntry,
    owner_address: &str,
    owner_public_key: &str,
    founded: &str,
    unfounded: &str,
    at: i64,
) -> (r: Result<NodeRecord>)
    ensures
        match node_admitted(
            old(ledger)@,
            entry.deep_view(),
            owner_address@,
            owner_public_key@,
            founded@,
            unfounded@,
            at,
        ) {
            Ok(next) => final(ledger)@ == next && (r matches Ok(node) && node.deep_view()
                == node_entered(entry.deep_view(), owner_address@, owner_public_key@)),
            Err(refusal) => final(ledger)@ == old(ledger)@ && (r matches Err(error) && error@
                == refusal),
        },
{
    if entry.node_id == 1 {
        if ledger.genesis_authority.is_some() {
            return Err(Error::msg(founded));
        }
        ledger.genesis_authority = Some(
            GenesisAuthority {
                node_id: entry.node_id,
                owner_address: owner_address.to_owned(),
                owner_public_key: owner_public_key.to_owned(),
                established_at: entry.registered_at,
            },
        );
    } else if ledger.genesis_authority.is_none() {
        return Err(Error::msg(unfounded));
    }
    let record = make_node(entry, owner_address, owner_public_key);
    ledger.nodes.insert(entry.node_id, record.replicate());
    ledger.next_node_id = ledger.next_node_id.saturating_add(1);
    bind_ip_slot_if_available(ledger, entry.ip_slot.as_str(), entry.node_id, at);
    Ok(record)
}

/// The account and the key to which a node's rewards go.
pub open spec fn reward_account_read(payload: PayloadModel) -> Outcome<(Seq<char>, Seq<char>)> {
    match required_text(payload, "reward_address"@) {
        Err(refusal) => Err(refusal),
        Ok(address) => match required_text(payload, "reward_public_key"@) {
            Err(refusal) => Err(refusal),
            Ok(key) => match base64_decoded(key) {
                None => Err("Reward public key is invalid"@),
                Some(bytes) => if address_of(bytes) != address {
                    Err("Reward public key does not match address"@)
                } else {
                    Ok((address, key))
                },
            },
        },
    }
}

fn read_reward_account(payload: &Payload) -> (r: Result<(String, String)>)
    ensures
        match reward_account_read(payload.deep_view()) {
            Ok(found) => r matches Ok(read) && read.0@ == found.0 && read.1@ == found.1,
            Err(refusal) => r matches Err(error) && error@ == refusal,
        },
{
    let address = payload_str(payload, "reward_address")?;
    let key = payload_str(payload, "reward_public_key")?;
    match decode_standard(key.as_str()) {
        None => Err(Error::msg("Reward public key is invalid")),
        Some(bytes) => {
            let expected = address_from_public_key(bytes.as_slice());
            if !text_same(expected.as_str(), address.as_str()) {
                return Err(Error::msg("Reward public key does not match address"));
            }
            Ok((address, key))
        },
    }
}

/// Whether the signer of a registration may make it.
pub open spec fn registrant_checked(
    ledger: LedgerModel,
    payload: PayloadModel,
    signer: Seq<char>,
    public_key: Seq<char>,
) -> Outcome<u64> {
    match required_u64(payload, "node_id"@, "Node ID is invalid"@) {
        Err(refusal) => Err(refusal),
        Ok(node_id) => if node_id != ledger.next_node_id {
            Err("Node ID is not the next registry ID"@)
        } else {
            match required_text(payload, "owner_public_key"@) {
                Err(refusal) => Err(refusal),
                Ok(owner) => if owner != public_key {
                    Err("registered Owner key does not match signer"@)
                } else {
                    match owner_may_register(
                        ledger,
                        signer,
                        public_key,
                        field_u64(payload, "previous_node_id"@),
                    ) {
                        Err(refusal) => Err(refusal),
                        Ok(_) => Ok(node_id),
                    }
                },
            }
        },
    }
}

fn check_registrant(
    ledger: &LedgerState,
    payload: &Payload,
    signer: &str,
    public_key: &str,
) -> (r: Result<u64>)
    ensures
        outcome(r) == registrant_checked(ledger@, payload.deep_view(), signer@, public_key@),
{
    let node_id = payload_u64(payload, "node_id", "Node ID is invalid")?;
    if node_id != ledger.next_node_id {
        return Err(Error::msg("Node ID is not the next registry ID"));
    }
    let owner = payload_str(payload, "owner_public_key")?;
    if !text_same(owner.as_str(), public_key) {
        return Err(Error::msg("registered Owner key does not match signer"));
    }
    validate_node_owner_registration(
        ledger,
        signer,
        public_key,
        payload.u64_value("previous_node_id"),
    )?;
    Ok(node_id)
}

/// What a registration says of the node.
pub open spec fn entry_read(
    ledger: LedgerModel,
    payload: PayloadModel,
    node_id: u64,
    reward_address: Seq<char>,
    made_at: i64,
) -> Outcome<EntryModel> {
    match required_text(payload, "reward_ip"@) {
        Err(refusal) => Err(refusal),
        Ok(reward_ip) => match required_text(payload, "ip_slot"@) {
            Err(refusal) => Err(refusal),
            Ok(declared) => match reward_slot(reward_ip, declared) {
                Err(refusal) => Err(refusal),
                Ok(slot) => match required_amount(payload, "price_per_gib_base_units"@) {
                    Err(refusal) => Err(refusal),
                    Ok(price) => match price_checked(price) {
                        Err(refusal) => Err(refusal),
                        Ok(_) => match endpoint_read(ledger, payload) {
                            Err(refusal) => Err(refusal),
                            Ok(endpoint) => {
                                let registered_at = match field_i64(payload, "registered_at"@) {
                                    Some(at) => at,
                                    None => made_at,
                                };
                                match lifecycle_begun(
                                    node_id,
                                    registered_at,
                                    ledger.settings.warmup_seconds,
                                ) {
                                    Err(refusal) => Err(refusal),
                                    Ok(begun) => match required_text(payload, "name"@) {
                                        Err(refusal) => Err(refusal),
                                        Ok(name) => match required_text(
                                            payload,
                                            "relay_public_key"@,
                                        ) {
                                            Err(refusal) => Err(refusal),
                                            Ok(relay_public_key) => Ok(
                                                EntryModel {
                                                    node_id,
                                                    previous_node_id: field_u64(
                                                        payload,
                                                        "previous_node_id"@,
                                                    ),
                                                    name,
                                                    relay_public_key,
                                                    reward_address,
                                                    endpoint,
                                                    reward_ip,
                                                    ip_slot: slot,
                                                    price_per_gib: price,
                                                    status: begun.0,
                                                    registered_at,
                                                    warmup_until: begun.1,
                                                    active_since: begun.2,
                                                },
                                            ),
                                        },
                                    },
                                }
                            },
                        },
                    },
                },
            },
        },
    }
}

/// The endpoint in a registration, if no other node has it.
pub open spec fn endpoint_read(ledger: LedgerModel, payload: PayloadModel) -> Outcome<Seq<char>> {
    match required_text(payload, "endpoint"@) {
        Err(refusal) => Err(refusal),
        Ok(text) => match endpoint_text(text) {
            Err(refusal) => Err(refusal),
            Ok(endpoint) => match endpoint_available(ledger, endpoint, None) {
                Err(refusal) => Err(refusal),
                Ok(_) => Ok(endpoint),
            },
        },
    }
}

fn read_entry(
    ledger: &LedgerState,
    payload: &Payload,
    node_id: u64,
    reward_address: &str,
    made_at: i64,
) -> (r: Result<NodeEntry>)
    ensures
        outcome(r) == entry_read(
            ledger@,
            payload.deep_view(),
            node_id,
            reward_address@,
            made_at,
        ),
{
    let reward_ip = payload_str(payload, "reward_ip")?;
    let declared = payload_str(payload, "ip_slot")?;
    let slot = validate_reward_ip_slot(reward_ip.as_str(), declared.as_str())?;
    let price_per_gib = validate_price_per_gib(
        parse_payload_u128(payload, "price_per_gib_base_units")?,
    )?;
    let endpoint_given = payload_str(payload, "endpoint")?;
    let endpoint = parse_wss_endpoint(endpoint_given.as_str())?.text;
    ensure_node_endpoint_available(ledger, endpoint.as_str(), None)?;
    let registered_at: i64 = match payload.i64_value("registered_at") {
        Some(at) => at,
        None => made_at,
    };
    let (status, warmup_until, active_since) = initial_node_lifecycle(
        node_id,
        registered_at,
        ledger.settings.warmup_seconds,
    )?;
    let name = payload_str(payload, "name")?;
    let relay_public_key = payload_str(payload, "relay_public_key")?;
    Ok(
        NodeEntry {
            node_id,
            previous_node_id: payload.u64_value("previous_node_id"),
            name,
            relay_public_key,
            reward_address: reward_address.to_owned(),
            endpoint,
            reward_ip,
            ip_slot: slot,
            price_per_gib,
            status,
            registered_at,
            warmup_until,
            active_since,
        },
    )
}

/// The ledger after a node has been registered.
#[verifier::opaque]
pub open spec fn node_registered(
    ledger: LedgerModel,
    payload: PayloadModel,
    signer: Seq<char>,
    public_key: Seq<char>,
    made_at: i64,
    now: i64,
) -> Outcome<LedgerModel> {
    match registrant_checked(ledger, payload, signer, public_key) {
        Err(refusal) => Err(refusal),
        Ok(node_id) => match reward_account_read(payload) {
            Err(refusal) => Err(refusal),
            Ok(reward) => match entry_read(ledger, payload, node_id, reward.0, made_at) {
                Err(refusal) => Err(refusal),
                Ok(entry) => node_admitted(
                    with_account(
                        ledger,
                        reward.0,
                        AccountModel {
                            public_key: Some(reward.1),
                            ..account_of(ledger, reward.0)
                        },
                    ),
                    entry,
                    signer,
                    public_key,
                    "Genesis authority already exists"@,
                    "Genesis authority is missing"@,
                    now,
                ),
            },
        },
    }
}

/// Registers a node.
pub fn register_node(
    ledger: &mut LedgerState,
    payload: &Payload,
    signer: &str,
    public_key: &str,
    made_at: i64,
    now: i64,
) -> (r: Result<()>)
    ensures
        match node_registered(
            old(ledger)@,
            payload.deep_view(),
            signer@,
            public_key@,
            made_at,
            now,
        ) {
            Ok(next) => r is Ok && final(ledger)@ == next,
            Err(refusal) => final(ledger)@ == old(ledger)@ && (r matches Err(error) && error@
                == refusal),
        },
{
    proof {
        reveal(node_registered);
    }
    let node_id = check_registrant(ledger, payload, signer, public_key)?;
    let (reward_address, reward_key) = read_reward_account(payload)?;
    let entry = read_entry(ledger, payload, node_id, reward_address.as_str(), made_at)?;
    admit_node(
        ledger,
        &entry,
        signer,
        public_key,
        "Genesis authority already exists",
        "Genesis authority is missing",
        now,
    )?;
    let account = ledger.accounts.entry(reward_address, AccountState::default());
    account.public_key = Some(reward_key);
    Ok(())
}

/// How long a node waits after its address has changed. The first node does not wait while few
/// nodes govern.
pub open spec fn rewarm_seconds(ledger: LedgerModel, node_id: u64, at: i64) -> i64 {
    if node_id == 1 && eligible_ids(ledger, at).len() < NODE1_DIRECT_GOVERNANCE_END_THRESHOLD {
        0
    } else {
        ledger.settings.warmup_seconds
    }
}

/// The ledger after a node has moved to another address.
#[verifier::opaque]
pub open spec fn reward_ip_updated(
    ledger: LedgerModel,
    node_id: u64,
    endpoint: Seq<char>,
    reward_ip: Seq<char>,
    declared: Seq<char>,
    at: i64,
) -> Outcome<LedgerModel> {
    match endpoint_text(endpoint) {
        Err(refusal) => Err(refusal),
        Ok(endpoint) => node_moved(ledger, node_id, endpoint, reward_ip, declared, at),
    }
}

/// The ledger after a node has moved to another address, whose endpoint has been read.
pub open spec fn node_moved(
    ledger: LedgerModel,
    node_id: u64,
    endpoint: Seq<char>,
    reward_ip: Seq<char>,
    declared: Seq<char>,
    at: i64,
) -> Outcome<LedgerModel> {
    match endpoint_available(ledger, endpoint, Some(node_id)) {
        Err(refusal) => Err(refusal),
        Ok(_) => match reward_slot(reward_ip, declared) {
            Err(refusal) => Err(refusal),
            Ok(slot) => {
                let until = at + rewarm_seconds(ledger, node_id, at);
                let node = ledger.nodes[node_id];
                if !(i64::MIN <= until <= i64::MAX) {
                    Err("Node reward IP warmup timestamp overflow"@)
                } else if !ledger.nodes.contains_key(node_id) {
                    Err("registered node is missing from the ledger"@)
                } else if node.status == NodeStatus::Draining || node.status == NodeStatus::Exited
                    || node.status == NodeStatus::Suspended {
                    Err(
                        "reward IP cannot be updated while the node is draining, exited, or suspended"@,
                    )
                } else {
                    let left = if node.ip_slot != slot {
                        slot_released(ledger, node_id, at)
                    } else {
                        ledger
                    };
                    let moved = LedgerModel {
                        nodes: left.nodes.insert(
                            node_id,
                            NodeModel {
                                endpoint,
                                reward_ip,
                                ip_slot: slot,
                                status: NodeStatus::WarmingUp,
                                warmup_until: until as i64,
                                active_since: None,
                                ..node
                            },
                        ),
                        ..left
                    };
                    if node.ip_slot == slot && slot_held(moved, slot, node_id) {
                        Ok(
                            LedgerModel {
                                ip_slots: moved.ip_slots.insert(
                                    slot,
                                    crate::model::IpSlotRecord {
                                        bound_at: at,
                                        ..moved.ip_slots[slot]
                                    },
                                ),
                                ..moved
                            },
                        )
                    } else {
                        Ok(slot_bound(moved, slot, node_id, at))
                    }
                }
            },
        },
    }
}

/// Moves a node to another address.
pub fn apply_reward_ip_update(
    ledger: &mut LedgerState,
    node_id: u64,
    endpoint: &str,
    reward_ip: &str,
    declared_slot: &str,
    updated_at: i64,
) -> (r: Result<()>)
    ensures
        match reward_ip_updated(
            old(ledger)@,
            node_id,
            endpoint@,
            reward_ip@,
            declared_slot@,
            updated_at,
        ) {
            Ok(next) => r is Ok && final(ledger)@ == next,
            Err(refusal) => final(ledger)@ == old(ledger)@ && (r matches Err(error) && error@
                == refusal),
        },
{
    proof {
        reveal(reward_ip_updated);
    }
    let endpoint = parse_wss_endpoint(endpoint)?.text;
    move_node(ledger, node_id, endpoint, reward_ip, declared_slot, updated_at)
}

/// Moves a node to another address, whose endpoint has been read.
pub fn move_node(
    ledger: &mut LedgerState,
    node_id: u64,
    endpoint: String,
    reward_ip: &str,
    declared_slot: &str,
    updated_at: i64,
) -> (r: Result<()>)
    ensures
        match node_moved(
            old(ledger)@,
            node_id,
            endpoint@,
            reward_ip@,
            declared_slot@,
            updated_at,
        ) {
            Ok(next) => r is Ok && final(ledger)@ == next,
            Err(refusal) => final(ledger)@ == old(ledger)@ && (r matches Err(error) && error@
                == refusal),
        },
{
    ensure_node_endpoint_available(ledger, endpoint.as_str(), Some(node_id))?;
    let slot = validate_reward_ip_slot(reward_ip, declared_slot)?;
    let eligible = governance_eligible_node_ids(ledger, updated_at);
    let warmup: i64 = if node_id == 1 && eligible.len() < NODE1_DIRECT_GOVERNANCE_END_THRESHOLD {
        0
    } else {
        ledger.settings.warmup_seconds
    };
    let warmup_until: i64 = match updated_at.checked_add(warmup) {
        None => {
            return Err(Error::msg("Node reward IP warmup timestamp overflow"));
        },
        Some(until) => until,
    };
    let (old_slot, status): (String, NodeStatus) = match ledger.nodes.get(&node_id) {
        None => {
            return Err(Error::msg("registered node is missing from the ledger"));
        },
        Some(node) => (node.ip_slot.clone(), node.status),
    };
    if matches!(status, NodeStatus::Draining | NodeStatus::Exited | NodeStatus::Suspended) {
        return Err(
            Error::msg(
                "reward IP cannot be updated while the node is draining, exited, or suspended",
            ),
        );
    }
    let same_slot = text_same(old_slot.as_str(), slot.as_str());
    if !same_slot {
        release_node_ip_slot(ledger, node_id, updated_at);
    }
    if let Some(node) = ledger.nodes.get_mut(&node_id) {
        node.endpoint = endpoint;
        node.reward_ip = reward_ip.to_owned();
        node.ip_slot = slot.clone();
        node.status = NodeStatus::WarmingUp;
        node.warmup_until = warmup_until;
        node.active_since = None;
    }
    if same_slot {
        if let Some(held) = ledger.ip_slots.get_mut(&slot) {
            if held.node_id == node_id && held.released_at.is_none() {
                held.bound_at = updated_at;
                return Ok(());
            }
        }
    }
    bind_ip_slot_if_available(ledger, slot.as_str(), node_id, updated_at);
    Ok(())
}

/// The price at which a node relays: the one that it names, or the median of the network.
pub open spec fn price_chosen(ledger: LedgerModel, price_text: Option<Seq<char>>, now: i64) -> Outcome<
    u128,
> {
    match price_text {
        None => Ok(median_price(relay_prices(ledger, now))),
        Some(text) => match read_mrk(text) {
            Err(refusal) => Err(refusal),
            Ok(price) => price_checked(price),
        },
    }
}

fn choose_price(ledger: &LedgerState, price_text: Option<&str>, now: i64) -> (r: Result<u128>)
    ensures
        outcome(r) == price_chosen(ledger@, price_text.deep_view(), now),
{
    match price_text {
        None => Ok(network_median_price_per_gib(ledger, now)),
        Some(text) => validate_price_per_gib(parse_mrk(text)?),
    }
}

/// The keys that a node is run with.
pub struct NodeKeys {
    pub owner: KeyIdentity,
    pub relay_public_key: String,
    pub reward: KeyIdentity,
}

/// What a registration carries.
pub open spec fn registration_fields(
    entry: EntryModel,
    owner: KeyModel,
    reward: KeyModel,
) -> PayloadModel {
    let bare = Map::<Seq<char>, FieldModel>::empty().insert(
        "node_id"@,
        FieldModel::Integer(entry.node_id as i128),
    ).insert("name"@, FieldModel::Text(entry.name)).insert(
        "owner_public_key"@,
        FieldModel::Text(owner.public_key),
    ).insert("endpoint"@, FieldModel::Text(entry.endpoint)).insert(
        "reward_ip"@,
        FieldModel::Text(entry.reward_ip),
    ).insert("ip_slot"@, FieldModel::Text(entry.ip_slot)).insert(
        "relay_public_key"@,
        FieldModel::Text(entry.relay_public_key),
    ).insert("reward_address"@, FieldModel::Text(reward.address)).insert(
        "reward_public_key"@,
        FieldModel::Text(reward.public_key),
    ).insert("registered_at"@, FieldModel::Integer(entry.registered_at as i128)).insert(
        "price_per_gib_base_units"@,
        FieldModel::Text(decimal(entry.price_per_gib as nat)),
    );
    match entry.previous_node_id {
        Some(previous) => bare.insert(
            "previous_node_id"@,
            FieldModel::Integer(previous as i128),
        ),
        None => bare,
    }
}

fn registration_payload(entry: &NodeEntry, keys: &NodeKeys) -> (r: Payload)
    ensures
        r.deep_view() == registration_fields(
            entry.deep_view(),
            keys.owner.deep_view(),
            keys.reward.deep_view(),
        ),
{
    let bare = Payload::new().with_number("node_id", entry.node_id).with_text(
        "name",
        entry.name.as_str(),
    ).with_text("owner_public_key", keys.owner.public_key.as_str()).with_text(
        "endpoint",
        entry.endpoint.as_str(),
    ).with_text("reward_ip", entry.reward_ip.as_str()).with_text(
        "ip_slot",
        entry.ip_slot.as_str(),
    ).with_text("relay_public_key", entry.relay_public_key.as_str()).with_text(
        "reward_address",
        keys.reward.address.as_str(),
    ).with_text("reward_public_key", keys.reward.public_key.as_str()).with(
        "registered_at",
        Field::Integer(entry.registered_at as i128),
    ).with_text("price_per_gib_base_units", u128_text(entry.price_per_gib).as_str());
    match entry.previous_node_id {
        Some(previous) => bare.with_number("previous_node_id", previous),
        None => bare,
    }
}

/// The ledger in which the owner and the reward account of a node have their keys.
pub open spec fn node_keys_bound(ledger: LedgerModel, owner: KeyModel, reward: KeyModel) -> Outcome<
    LedgerModel,
> {
    match key_bound(ledger, owner.address, owner.public_key) {
        Err(refusal) => Err(refusal),
        Ok(bound) => key_bound(bound, reward.address, reward.public_key),
    }
}

/// The node that an owner registers itself, at an address that has been found.
pub open spec fn entry_made(
    ledger: LedgerModel,
    name: Seq<char>,
    previous_node_id: Option<u64>,
    relay_public_key: Seq<char>,
    reward_address: Seq<char>,
    endpoint: Seq<char>,
    reward_ip: IpAddress,
    price_per_gib: u128,
    now: i64,
) -> Outcome<EntryModel> {
    match lifecycle_begun(ledger.next_node_id, now, ledger.settings.warmup_seconds) {
        Err(refusal) => Err(refusal),
        Ok(begun) => Ok(
            EntryModel {
                node_id: ledger.next_node_id,
                previous_node_id,
                name,
                relay_public_key,
                reward_address,
                endpoint,
                reward_ip: ip_text(reward_ip),
                ip_slot: slot_of(reward_ip),
                price_per_gib,
                status: begun.0,
                registered_at: now,
                warmup_until: begun.1,
                active_since: begun.2,
            },
        ),
    }
}

/// The draft by which an owner registers its node, and the node.
pub open spec fn join_drafted(
    ledger: LedgerModel,
    name: Seq<char>,
    previous_node_id: Option<u64>,
    owner: KeyModel,
    relay_public_key: Seq<char>,
    reward: KeyModel,
    endpoint: Seq<char>,
    reward_ip: IpAddress,
    price_text: Option<Seq<char>>,
    now: i64,
) -> Outcome<(DraftModel, NodeModel)> {
    match price_chosen(ledger, price_text, now) {
        Err(refusal) => Err(refusal),
        Ok(price) => match node_keys_bound(ledger, owner, reward) {
            Err(refusal) => Err(refusal),
            Ok(bound) => match owner_may_register(
                bound,
                owner.address,
                owner.public_key,
                previous_node_id,
            ) {
                Err(refusal) => Err(refusal),
                Ok(_) => match endpoint_available(bound, endpoint, None) {
                    Err(refusal) => Err(refusal),
                    Ok(_) => match entry_made(
                        bound,
                        name,
                        previous_node_id,
                        relay_public_key,
                        reward.address,
                        endpoint,
                        reward_ip,
                        price,
                        now,
                    ) {
                        Err(refusal) => Err(refusal),
                        Ok(entry) => match node_admitted(
                            bound,
                            entry,
                            owner.address,
                            owner.public_key,
                            "Genesis Node authority is already established"@,
                            "ledger is missing its immutable Genesis Node authority"@,
                            now,
                        ) {
                            Err(refusal) => Err(refusal),
                            Ok(next) => Ok(
                                (
                                    DraftModel {
                                        ledger: next,
                                        operation: next_operation(
                                            bound,
                                            owner.address,
                                            "NodeRegistry"@,
                                            "RegisterNode"@,
                                            registration_fields(entry, owner, reward),
                                            now,
                                        ),
                                    },
                                    node_entered(entry, owner.address, owner.public_key),
                                ),
                            ),
                        },
                    },
                },
            },
        },
    }
}

/// Drafts the registration of a node at an endpoint and a public address that have been read and
/// found (`parse_wss_endpoint`, `resolve_endpoint_public_ip`).
pub fn join_node(
    ledger: &LedgerState,
    name: &str,
    previous_node_id: Option<u64>,
    keys: &NodeKeys,
    endpoint: &str,
    reward_ip: IpAddress,
    price_text: Option<&str>,
    now: i64,
) -> (r: Result<(Draft, NodeRecord)>)
    ensures
        match join_drafted(
            ledger@,
            name@,
            previous_node_id,
            keys.owner.deep_view(),
            keys.relay_public_key@,
            keys.reward.deep_view(),
            endpoint@,
            reward_ip,
            price_text.deep_view(),
            now,
        ) {
            Ok(made) => r matches Ok(found) && found.0.deep_view() == made.0
                && found.1.deep_view() == made.1,
            Err(refusal) => r matches Err(error) && error@ == refusal,
        },
{
    let price_per_gib = choose_price(ledger, price_text, now)?;
    let mut next = ledger.copy();
    ensure_account(&mut next, &keys.owner)?;
    ensure_account(&mut next, &keys.reward)?;
    validate_node_owner_registration(
        &next,
        keys.owner.address.as_str(),
        keys.owner.public_key.as_str(),
        previous_node_id,
    )?;
    ensure_node_endpoint_available(&next, endpoint, None)?;
    let node_id: u64 = next.next_node_id;
    let (status, warmup_until, active_since) = initial_node_lifecycle(
        node_id,
        now,
        next.settings.warmup_seconds,
    )?;
    let entry = NodeEntry {
        node_id,
        previous_node_id,
        name: name.to_owned(),
        relay_public_key: keys.relay_public_key.clone(),
        reward_address: keys.reward.address.clone(),
        endpoint: endpoint.to_owned(),
        reward_ip: write_ip(reward_ip),
        ip_slot: ip_slot(reward_ip),
        price_per_gib,
        status,
        registered_at: now,
        warmup_until,
        active_since,
    };
    let operation = draft_next_operation(
        &next,
        &keys.owner.address,
        "NodeRegistry",
        "RegisterNode",
        registration_payload(&entry, keys),
        now,
    );
    let node = admit_node(
        &mut next,
        &entry,
        keys.owner.address.as_str(),
        keys.owner.public_key.as_str(),
        "Genesis Node authority is already established",
        "ledger is missing its immutable Genesis Node authority",
        now,
    )?;
    Ok((Draft { ledger: next, operation }, node))
}

/// A registered node is in the registry under its number, and the next one gets another.
pub proof fn registered_node_is_listed(
    ledger: LedgerModel,
    payload: PayloadModel,
    signer: Seq<char>,
    public_key: Seq<char>,
    made_at: i64,
    now: i64,
)
    requires
        node_registered(ledger, payload, signer, public_key, made_at, now) is Ok,
        ledger.next_node_id < u64::MAX,
    ensures
        ({
            let next = node_registered(ledger, payload, signer, public_key, made_at, now)->Ok_0;
            let id = ledger.next_node_id;
            &&& next.nodes.contains_key(id)
            &&& next.nodes[id].owner_address == signer && next.nodes[id].owner_public_key
                == public_key
            &&& next.next_node_id == id + 1
            &&& next.genesis_authority is Some
            &&& id != 1 ==> next.genesis_authority == ledger.genesis_authority
            &&& forall|other: u64| other != id ==> (next.nodes.contains_key(other)
                == ledger.nodes.contains_key(other) && next.nodes[other] == ledger.nodes[other])
        }),
{
    reveal(node_registered);
}

/// A node that moves to another address earns nothing until it has warmed up again. The first node
/// alone does so at once while it governs directly.
pub proof fn moved_nodes_warm_up(
    ledger: LedgerModel,
    node_id: u64,
    endpoint: Seq<char>,
    reward_ip: Seq<char>,
    declared: Seq<char>,
    at: i64,
)
    requires
        reward_ip_updated(ledger, node_id, endpoint, reward_ip, declared, at) is Ok,
    ensures
        ({
            let next = reward_ip_updated(
                ledger,
                node_id,
                endpoint,
                reward_ip,
                declared,
                at,
            )->Ok_0;
            let skips = node_id == 1 && eligible_ids(ledger, at).len()
                < NODE1_DIRECT_GOVERNANCE_END_THRESHOLD;
            &&& next.nodes[node_id].status == NodeStatus::WarmingUp
            &&& next.nodes[node_id].active_since is None
            &&& next.nodes[node_id].warmup_until == at + if skips {
                0
            } else {
                ledger.settings.warmup_seconds as int
            }
        }),
{
    reveal(reward_ip_updated);
}

/// A node that is registered begins with nothing: without bonds, without rewards and without service,
/// outside the committee, and, but for the first node, in its warm-up for as long as the settings ask.
/// It gets the slot of its address if that is free.
pub proof fn registered_nodes_begin_with_nothing(
    ledger: LedgerModel,
    payload: PayloadModel,
    signer: Seq<char>,
    public_key: Seq<char>,
    made_at: i64,
    now: i64,
)
    requires
        node_registered(ledger, payload, signer, public_key, made_at, now) is Ok,
    ensures
        ({
            let after = node_registered(ledger, payload, signer, public_key, made_at, now)->Ok_0;
            let id = ledger.next_node_id;
            let node = after.nodes[id];
            let slot = node.ip_slot;
            &&& node.service_bond == 0 && node.governance_bond == 0 && node.validator_bond == 0
            &&& node.claimable_reward == 0 && node.reward_vesting_buckets.len() == 0
            &&& node.total_eligible_seconds == 0
            &&& node.eligible_seconds_by_epoch.dom() == Set::<u64>::empty()
            &&& node.last_probe_success is None
            &&& !node.validator && node.validator_candidate_since is None
            &&& id == 1 ==> node.status == NodeStatus::Active && node.active_since == Some(
                node.registered_at,
            )
            &&& id != 1 ==> node.status == NodeStatus::WarmingUp && node.active_since is None
                && node.warmup_until == node.registered_at + ledger.settings.warmup_seconds
            &&& !ledger.ip_slots.contains_key(slot) ==> after.ip_slots.contains_key(slot)
                && after.ip_slots[slot].node_id == id && after.ip_slots[slot].bound_at == now
                && after.ip_slots[slot].released_at is None
            &&& ledger.ip_slots.contains_key(slot) && ledger.ip_slots[slot].released_at is None
                ==> after.ip_slots == ledger.ip_slots
        }),
{
    reveal(node_registered);
}

/// A node that moves gives the slot of its old address up and asks for that of the new one; what it has
/// earned, bonded and served stays, and so does every other node.
pub proof fn moving_changes_the_slot(
    ledger: LedgerModel,
    node_id: u64,
    endpoint: Seq<char>,
    reward_ip: Seq<char>,
    declared: Seq<char>,
    at: i64,
)
    requires
        reward_ip_updated(ledger, node_id, endpoint, reward_ip, declared, at) is Ok,
    ensures
        ({
            let after = reward_ip_updated(
                ledger,
                node_id,
                endpoint,
                reward_ip,
                declared,
                at,
            )->Ok_0;
            let node = ledger.nodes[node_id];
            let moved = after.nodes[node_id];
            &&& node.status == NodeStatus::Active || node.status == NodeStatus::WarmingUp
            &&& moved.reward_ip == reward_ip
            &&& moved.ip_slot != node.ip_slot && slot_held(ledger, node.ip_slot, node_id)
                ==> after.ip_slots[node.ip_slot].released_at == Some(at)
            &&& moved.ip_slot != node.ip_slot && !ledger.ip_slots.contains_key(moved.ip_slot)
                ==> after.ip_slots[moved.ip_slot].node_id == node_id
                && after.ip_slots[moved.ip_slot].bound_at == at
                && after.ip_slots[moved.ip_slot].released_at is None
            &&& moved.service_bond == node.service_bond
            &&& moved.claimable_reward == node.claimable_reward
            &&& moved.reward_vesting_buckets == node.reward_vesting_buckets
            &&& moved.total_eligible_seconds == node.total_eligible_seconds
            &&& moved.owner_address == node.owner_address
            &&& forall|other: u64|
                other != node_id ==> #[trigger] after.nodes[other] == ledger.nodes[other]
        }),
{
    reveal(reward_ip_updated);
}

} // verus!
