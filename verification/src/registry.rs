use vstd::prelude::*;
use vstd::string::*;

use crate::amount::{format_mrk, mrk_text};
use crate::endpoint::{endpoint_at, verify_endpoint_ip, wss_endpoint};
use crate::error::{outcome, Error, Outcome, Result};
use crate::ip::{ip_read, parse_ip, IpAddress};
use crate::model::{
    IpSlotRecord, LedgerModel, LedgerState, LocalNodeConfig, NodeConfigModel, NodeModel, NodeRecord,
    NodeStatus,
};
use crate::node_drafts::{listed_id, listed_node_id};
use crate::nodes::{
    bond_matures_at, governance_bond_matures_at, governance_eligible, governance_node_is_eligible,
    node_ids, slot_free, slot_held,
};
use crate::number::{clamped_i64, saturating_add_i64, saturating_sub_i64};
use crate::payments::shown_first;
use crate::sequence::{filter_ends, filter_step};
use crate::table::Replicate;
use crate::text::{decimal, join3, u128_text, u64_text};
use crate::vesting::{node_vesting_reward, vesting_reward};
use crate::views::{
    GovernanceBondStatusView, GovernanceBondStatusViewModel, NodeRewardsView, NodeRewardsViewModel,
    RegistryNodeAvailability, RegistryNodeListView, RegistryNodeListViewModel, RegistryNodeView,
    RegistryNodeViewModel, RelayDiscoveryListView, RelayDiscoveryListViewModel, RelayDiscoveryView,
    RelayDiscoveryViewModel, ValidatorStatusView, ValidatorStatusViewModel,
};

verus! {

/// Whether a node has put up what candidates for the committee have to, and stays.
pub open spec fn is_candidate(ledger: LedgerModel, node: NodeModel) -> bool {
    node.validator_candidate_since is Some && node.validator_exit_requested_at is None
        && node.validator_bond >= ledger.settings.validator_bond
}

fn candidate(ledger: &LedgerState, node: &NodeRecord) -> (r: bool)
    ensures
        r == is_candidate(ledger@, node.deep_view()),
{
    node.validator_candidate_since.is_some() && node.validator_exit_requested_at.is_none()
        && node.validator_bond >= ledger.settings.validator_bond
}

/// Whether a node is to serve.
pub open spec fn is_serviceable(node: NodeModel) -> bool {
    node.status == NodeStatus::WarmingUp || node.status == NodeStatus::Active
}

/// Until when the last probe of a node counts.
pub open spec fn probe_end(ledger: LedgerModel, node: NodeModel) -> Option<i64> {
    match node.last_probe_success {
        None => None,
        Some(at) => Some(clamped_i64(at + ledger.settings.probe_validity_seconds)),
    }
}

/// When a node that stays unreachable has to leave.
pub open spec fn offline_exit(ledger: LedgerModel, node: NodeModel) -> Option<i64> {
    if is_serviceable(node) {
        Some(
            clamped_i64(
                match node.last_probe_success {
                    Some(at) => at,
                    None => node.registered_at,
                } + ledger.settings.offline_slash_seconds,
            ),
        )
    } else {
        None
    }
}

/// Whether another node holds the slot of a node's address, or held it too short a time ago.
pub open spec fn slot_unavailable(ledger: LedgerModel, node: NodeModel, now: i64) -> bool {
    ledger.ip_slots.contains_key(node.ip_slot) && !slot_held(ledger, node.ip_slot, node.node_id)
        && !slot_free(ledger, node.ip_slot, now)
}

/// How well a node can be reached.
pub open spec fn node_availability(ledger: LedgerModel, node: NodeModel, now: i64) -> Option<
    RegistryNodeAvailability,
> {
    if !is_serviceable(node) {
        None
    } else if now >= offline_exit(ledger, node).unwrap() {
        Some(RegistryNodeAvailability::ExitPending)
    } else if slot_unavailable(ledger, node, now) {
        Some(RegistryNodeAvailability::IpSlotUnavailable)
    } else if !slot_held(ledger, node.ip_slot, node.node_id) || node.last_probe_success is None {
        Some(RegistryNodeAvailability::Unverified)
    } else if node.last_probe_success.unwrap() <= now && now <= probe_end(ledger, node).unwrap() {
        Some(RegistryNodeAvailability::Online)
    } else {
        Some(RegistryNodeAvailability::ProbeStale)
    }
}

/// When the slot of a node's address, which the node does not hold, is free again.
pub open spec fn slot_reusable_at(ledger: LedgerModel, node: NodeModel, now: i64) -> Option<i64> {
    if slot_held(ledger, node.ip_slot, node.node_id) || !ledger.ip_slots.contains_key(
        node.ip_slot,
    ) {
        None
    } else {
        match ledger.ip_slots[node.ip_slot].released_at {
            None => None,
            Some(released_at) => {
                let at = clamped_i64(released_at + ledger.settings.ip_reuse_cooldown_seconds);
                if at > now {
                    Some(at)
                } else {
                    None
                }
            },
        }
    }
}

/// A node as the registry shows it.
pub open spec fn node_shown(ledger: LedgerModel, node: NodeModel, now: i64) -> RegistryNodeViewModel {
    RegistryNodeViewModel {
        node_id: node.node_id,
        previous_node_id: node.previous_node_id,
        name: node.name,
        owner_address: node.owner_address,
        owner_public_key: node.owner_public_key,
        relay_public_key: node.relay_public_key,
        reward_address: node.reward_address,
        endpoint: node.endpoint,
        reward_ip: node.reward_ip,
        price_per_gib_base_units: decimal(node.price_per_gib as nat),
        price_per_gib_display: mrk_text(node.price_per_gib as nat),
        status: node.status,
        registered_at: node.registered_at,
        warmup_until: node.warmup_until,
        active_since: node.active_since,
        last_probe_success: node.last_probe_success,
        probe_success_count: node.probe_success_count,
        availability: node_availability(ledger, node, now),
        probe_valid_until: probe_end(ledger, node),
        offline_exit_at: offline_exit(ledger, node),
        owns_ip_slot: slot_held(ledger, node.ip_slot, node.node_id),
        ip_slot_reusable_at: slot_reusable_at(ledger, node, now),
        service_bond_base_units: decimal(node.service_bond as nat),
        service_bond_display: mrk_text(node.service_bond as nat),
        service_bond_unlock_at: node.service_bond_unlock_at,
        governance_bond_base_units: decimal(node.governance_bond as nat),
        governance_bond_display: mrk_text(node.governance_bond as nat),
        governance_bonded_at: node.governance_bonded_at,
        governance_exit_requested_at: node.governance_exit_requested_at,
        governance_bond_unlock_at: node.governance_bond_unlock_at,
        offline_slashed_at: node.offline_slashed_at,
        validator: node.validator,
        validator_candidate: is_candidate(ledger, node),
    }
}

fn registry_node_view(node: &NodeRecord, ledger: &LedgerState, now: i64) -> (r: RegistryNodeView)
    ensures
        r.deep_view() == node_shown(ledger@, node.deep_view(), now),
{
    let settings = &ledger.settings;
    let slot: Option<IpSlotRecord> = match ledger.ip_slots.get(&node.ip_slot) {
        Some(slot) => Some(*slot),
        None => None,
    };
    let owns_ip_slot = match slot {
        Some(slot) => slot.node_id == node.node_id && slot.released_at.is_none(),
        None => false,
    };
    let released_at: Option<i64> = match slot {
        Some(slot) => slot.released_at,
        None => None,
    };
    let slot_is_free = match released_at {
        Some(released_at) => now >= released_at && saturating_sub_i64(now, released_at)
            >= settings.ip_reuse_cooldown_seconds,
        None => false,
    };
    let unavailable = slot.is_some() && !owns_ip_slot && !slot_is_free;
    let probe_valid_until: Option<i64> = match node.last_probe_success {
        Some(at) => Some(saturating_add_i64(at, settings.probe_validity_seconds)),
        None => None,
    };
    let serviceable = matches!(node.status, NodeStatus::WarmingUp | NodeStatus::Active);
    let offline_exit_at: Option<i64> = if serviceable {
        Some(
            saturating_add_i64(
                match node.last_probe_success {
                    Some(at) => at,
                    None => node.registered_at,
                },
                settings.offline_slash_seconds,
            ),
        )
    } else {
        None
    };
    let availability: Option<RegistryNodeAvailability> = match offline_exit_at {
        None => None,
        Some(exit_at) => {
            if now >= exit_at {
                Some(RegistryNodeAvailability::ExitPending)
            } else if unavailable {
                Some(RegistryNodeAvailability::IpSlotUnavailable)
            } else {
                match node.last_probe_success {
                    None => Some(RegistryNodeAvailability::Unverified),
                    Some(at) => {
                        if !owns_ip_slot {
                            Some(RegistryNodeAvailability::Unverified)
                        } else if at <= now && now <= saturating_add_i64(
                            at,
                            settings.probe_validity_seconds,
                        ) {
                            Some(RegistryNodeAvailability::Online)
                        } else {
                            Some(RegistryNodeAvailability::ProbeStale)
                        }
                    },
                }
            }
        },
    };
    let ip_slot_reusable_at: Option<i64> = if owns_ip_slot {
        None
    } else {
        match released_at {
            None => None,
            Some(released_at) => {
                let at: i64 = saturating_add_i64(released_at, settings.ip_reuse_cooldown_seconds);
                if at > now {
                    Some(at)
                } else {
                    None
                }
            },
        }
    };
    RegistryNodeView {
        node_id: node.node_id,
        previous_node_id: node.previous_node_id,
        name: node.name.clone(),
        owner_address: node.owner_address.clone(),
        owner_public_key: node.owner_public_key.clone(),
        relay_public_key: node.relay_public_key.clone(),
        reward_address: node.reward_address.clone(),
        endpoint: node.endpoint.clone(),
        reward_ip: node.reward_ip.clone(),
        price_per_gib_base_units: u128_text(node.price_per_gib),
        price_per_gib_display: format_mrk(node.price_per_gib),
        status: node.status,
        registered_at: node.registered_at,
        warmup_until: node.warmup_until,
        active_since: node.active_since,
        last_probe_success: node.last_probe_success,
        probe_success_count: node.probe_success_count,
        availability,
        probe_valid_until,
        offline_exit_at,
        owns_ip_slot,
        ip_slot_reusable_at,
        service_bond_base_units: u128_text(node.service_bond),
        service_bond_display: format_mrk(node.service_bond),
        service_bond_unlock_at: node.service_bond_unlock_at,
        governance_bond_base_units: u128_text(node.governance_bond),
        governance_bond_display: format_mrk(node.governance_bond),
        governance_bonded_at: node.governance_bonded_at,
        governance_exit_requested_at: node.governance_exit_requested_at,
        governance_bond_unlock_at: node.governance_bond_unlock_at,
        offline_slashed_at: node.offline_slashed_at,
        validator: node.validator,
        validator_candidate: candidate(ledger, node),
    }
}

/// Finds a node in the registry.
pub fn node_record_by_id_if_present(ledger: &LedgerState, node_id: u64) -> (r: Option<NodeRecord>)
    ensures
        r.deep_view() == if ledger@.nodes.contains_key(node_id) {
            Some(ledger@.nodes[node_id])
        } else {
            None
        },
{
    match ledger.nodes.get(&node_id) {
        Some(node) => Some(node.replicate()),
        None => None,
    }
}

/// The refusal where there is no node with a number.
pub open spec fn node_unknown(node_id: u64) -> Seq<char> {
    "node "@ + decimal(node_id as nat) + " is not registered"@
}

fn unknown_node(node_id: u64) -> (r: Error)
    ensures
        r@ == node_unknown(node_id),
{
    Error::owned(join3("node ", u64_text(node_id).as_str(), " is not registered"))
}

/// Finds a node in the registry, which has to be there.
pub fn node_record_by_id(ledger: &LedgerState, node_id: u64) -> (r: Result<NodeRecord>)
    ensures
        outcome(r) == if ledger@.nodes.contains_key(node_id) {
            Ok(ledger@.nodes[node_id])
        } else {
            Err(node_unknown(node_id))
        },
{
    match node_record_by_id_if_present(ledger, node_id) {
        Some(node) => Ok(node),
        None => Err(unknown_node(node_id)),
    }
}

/// The record of a local node.
pub open spec fn local_record(ledger: LedgerModel, config: NodeConfigModel) -> Outcome<NodeModel> {
    match listed_id(ledger, config) {
        Err(refusal) => Err(refusal),
        Ok(node_id) => Ok(ledger.nodes[node_id]),
    }
}

/// Finds the record of a local node.
pub fn node_record(ledger: &LedgerState, config: &LocalNodeConfig) -> (r: Result<NodeRecord>)
    ensures
        outcome(r) == local_record(ledger@, config.deep_view()),
{
    let node_id = listed_node_id(ledger, config)?;
    match ledger.nodes.get(&node_id) {
        Some(node) => Ok(node.replicate()),
        None => Err(Error::msg("registered node is missing from the ledger")),
    }
}

/// Checks that the endpoint of a local node is still at its registered address, by the addresses
/// that the endpoint's name has.
pub fn verify_registered_endpoint(
    ledger: &LedgerState,
    config: &LocalNodeConfig,
    found: &Vec<IpAddress>,
) -> (r: Result<IpAddress>)
    ensures
        outcome(r) == match local_record(ledger@, config.deep_view()) {
            Err(refusal) => Err(refusal),
            Ok(node) => match ip_read(node.reward_ip) {
                None => Err("registered node contains an invalid reward IP"@),
                Some(ip) => match wss_endpoint(node.endpoint) {
                    Err(refusal) => Err(refusal),
                    Ok(url) => match endpoint_at(url.3, ip, found@) {
                        Err(refusal) => Err(refusal),
                        Ok(_) => Ok(ip),
                    },
                },
            },
        },
{
    let node = node_record(ledger, config)?;
    match parse_ip(node.reward_ip.as_str()) {
        None => Err(Error::msg("registered node contains an invalid reward IP")),
        Some(ip) => {
            verify_endpoint_ip(node.endpoint.as_str(), ip, found)?;
            Ok(ip)
        },
    }
}

/// Shows a node.
pub fn registry_node_by_id(ledger: &LedgerState, node_id: u64, now: i64) -> (r: Result<
    RegistryNodeView,
>)
    ensures
        outcome(r) == if ledger@.nodes.contains_key(node_id) {
            Ok(node_shown(ledger@, ledger@.nodes[node_id], now))
        } else {
            Err(node_unknown(node_id))
        },
{
    match ledger.nodes.get(&node_id) {
        Some(node) => Ok(registry_node_view(node, ledger, now)),
        None => Err(unknown_node(node_id)),
    }
}

pub open spec fn page_checked(limit: usize) -> Outcome<()> {
    if 1 <= limit <= 1_000 {
        Ok(())
    } else {
        Err("page limit must be between 1 and 1000"@)
    }
}

/// Checks the length of a page.
pub fn validate_registry_page_limit(limit: usize) -> (r: Result<()>)
    ensures
        outcome(r) == page_checked(limit),
{
    if limit < 1 || limit > 1_000 {
        return Err(Error::msg("page limit must be between 1 and 1000"));
    }
    Ok(())
}

/// Where a page begins: after the node that it was left at.
pub open spec fn page_start(cursor: Option<u64>) -> u64 {
    match cursor {
        Some(node_id) => node_id,
        None => 0,
    }
}

/// Which nodes are listed.
pub open spec fn in_list(
    ledger: LedgerModel,
    status: Option<NodeStatus>,
    availability: Option<RegistryNodeAvailability>,
    validator_only: bool,
    cursor: Option<u64>,
    now: i64,
) -> spec_fn(u64) -> bool {
    |id: u64|
        {
            let node = ledger.nodes[id];
            &&& id > page_start(cursor)
            &&& status matches Some(wanted) ==> node.status == wanted
            &&& availability is Some ==> node_availability(ledger, node, now) == availability
            &&& validator_only ==> node.validator
        }
}

/// A page of the registry, and where the next one begins.
pub open spec fn nodes_listed(
    ledger: LedgerModel,
    status: Option<NodeStatus>,
    availability: Option<RegistryNodeAvailability>,
    validator_only: bool,
    cursor: Option<u64>,
    limit: usize,
    now: i64,
) -> Outcome<RegistryNodeListViewModel> {
    match page_checked(limit) {
        Err(refusal) => Err(refusal),
        Ok(_) => {
            let ids = node_ids(ledger).filter(
                in_list(ledger, status, availability, validator_only, cursor, now),
            );
            let all = ids.map_values(|id: u64| node_shown(ledger, ledger.nodes[id], now));
            Ok(
                RegistryNodeListViewModel {
                    nodes: shown_first(all, limit as int),
                    next_cursor: if all.len() > limit {
                        Some(all[limit - 1].node_id)
                    } else {
                        None
                    },
                },
            )
        },
    }
}

fn same_availability(
    a: Option<RegistryNodeAvailability>,
    b: Option<RegistryNodeAvailability>,
) -> (r: bool)
    ensures
        r == (a == b),
{
    match (a, b) {
        (Some(x), Some(y)) => x == y,
        (None, None) => true,
        _ => false,
    }
}

/// Lists nodes of the registry, a page at a time.
pub fn registry_nodes(
    ledger: &LedgerState,
    status: Option<NodeStatus>,
    availability: Option<RegistryNodeAvailability>,
    validator_only: bool,
    cursor: Option<u64>,
    limit: usize,
    now: i64,
) -> (r: Result<RegistryNodeListView>)
    ensures
        outcome(r) == nodes_listed(
            ledger@,
            status,
            availability,
            validator_only,
            cursor,
            limit,
            now,
        ),
{
    validate_registry_page_limit(limit)?;
    let start: u64 = match cursor {
        Some(node_id) => node_id,
        None => 0,
    };
    let ghost keys = ledger.nodes.keys();
    let ghost chosen = in_list(ledger@, status, availability, validator_only, cursor, now);
    let ghost show = |id: u64| node_shown(ledger@, ledger@.nodes[id], now);
    let mut out: Vec<RegistryNodeView> = Vec::new();
    let mut count: usize = 0;
    let mut i: usize = 0;
    proof {
        filter_ends(keys, chosen);
        assert(out.deep_view() =~= shown_first(
            keys.take(0).filter(chosen).map_values(show),
            limit as int,
        ));
    }
    while i < ledger.nodes.len()
        invariant
            i <= keys.len(),
            1 <= limit,
            keys == ledger.nodes.keys(),
            start == page_start(cursor),
            chosen == in_list(ledger@, status, availability, validator_only, cursor, now),
            show == (|id: u64| node_shown(ledger@, ledger@.nodes[id], now)),
            count == keys.take(i as int).filter(chosen).len(),
            count <= i,
            out@.len() <= limit,
            out.deep_view() == shown_first(
                keys.take(i as int).filter(chosen).map_values(show),
                limit as int,
            ),
        decreases keys.len() - i,
    {
        proof {
            filter_step(keys, i as int, chosen);
        }
        let ghost before = out.deep_view();
        let ghost earlier = keys.take(i as int).filter(chosen);
        let node_id: u64 = *ledger.nodes.key_at(i);
        let node = ledger.nodes.value_at(i);
        let view = registry_node_view(node, ledger, now);
        let status_fits = match status {
            Some(wanted) => node.status == wanted,
            None => true,
        };
        let availability_fits = availability.is_none() || same_availability(
            view.availability,
            availability,
        );
        if node_id > start && status_fits && availability_fits && (!validator_only
            || node.validator) {
            assert(chosen(keys[i as int]));
            assert(earlier.push(keys[i as int]).map_values(show) =~= earlier.map_values(show).push(
                show(keys[i as int]),
            ));
            if count < limit {
                out.push(view);
                assert(out.deep_view() =~= before.push(view.deep_view()));
            }
            count = count + 1;
            assert(out.deep_view() =~= shown_first(
                keys.take(i + 1).filter(chosen).map_values(show),
                limit as int,
            ));
        } else {
            assert(!chosen(keys[i as int]));
        }
        i = i + 1;
    }
    proof {
        filter_ends(keys, chosen);
    }
    let next_cursor: Option<u64> = if count > limit {
        assert(out.deep_view()[limit - 1] == out@[limit - 1].deep_view());
        Some(out[limit - 1].node_id)
    } else {
        None
    };
    Ok(RegistryNodeListView { nodes: out, next_cursor })
}

/// Whether a node relays traffic now.
pub open spec fn is_discoverable(ledger: LedgerModel, node: NodeModel, now: i64) -> bool {
    let validity = ledger.settings.probe_validity_seconds;
    &&& node.status == NodeStatus::Active
    &&& node.last_probe_success matches Some(at) && validity >= 0 && at <= now && clamped_i64(
        now - at,
    ) <= validity
    &&& slot_held(ledger, node.ip_slot, node.node_id)
}

/// Which nodes are found as relays.
pub open spec fn in_discovery(ledger: LedgerModel, cursor: Option<u64>, now: i64) -> spec_fn(
    u64,
) -> bool {
    |id: u64| id > page_start(cursor) && is_discoverable(ledger, ledger.nodes[id], now)
}

/// A relay as it is found.
pub open spec fn relay_found(ledger: LedgerModel, node: NodeModel) -> RelayDiscoveryViewModel {
    let at = node.last_probe_success.unwrap();
    RelayDiscoveryViewModel {
        node_id: node.node_id,
        endpoint: node.endpoint,
        reward_ip: node.reward_ip,
        price_per_gib_base_units: decimal(node.price_per_gib as nat),
        price_per_gib_display: mrk_text(node.price_per_gib as nat),
        last_probe_success: at,
        probe_valid_until: clamped_i64(at + ledger.settings.probe_validity_seconds),
        validator: node.validator,
    }
}

fn discover(ledger: &LedgerState, node: &NodeRecord, now: i64) -> (r: Option<RelayDiscoveryView>)
    ensures
        r.deep_view() == if is_discoverable(ledger@, node.deep_view(), now) {
            Some(relay_found(ledger@, node.deep_view()))
        } else {
            None
        },
{
    let validity: i64 = ledger.settings.probe_validity_seconds;
    let held = match ledger.ip_slots.get(&node.ip_slot) {
        Some(slot) => slot.node_id == node.node_id && slot.released_at.is_none(),
        None => false,
    };
    match node.last_probe_success {
        None => None,
        Some(at) => {
            if node.status == NodeStatus::Active && validity >= 0 && at <= now
                && saturating_sub_i64(now, at) <= validity && held {
                Some(
                    RelayDiscoveryView {
                        node_id: node.node_id,
                        endpoint: node.endpoint.clone(),
                        reward_ip: node.reward_ip.clone(),
                        price_per_gib_base_units: u128_text(node.price_per_gib),
                        price_per_gib_display: format_mrk(node.price_per_gib),
                        last_probe_success: at,
                        probe_valid_until: saturating_add_i64(at, validity),
                        validator: node.validator,
                    },
                )
            } else {
                None
            }
        },
    }
}

/// A page of the relays, and where the next one begins.
pub open spec fn relays_listed(
    ledger: LedgerModel,
    cursor: Option<u64>,
    limit: usize,
    now: i64,
) -> Outcome<RelayDiscoveryListViewModel> {
    match page_checked(limit) {
        Err(refusal) => Err(refusal),
        Ok(_) => {
            let ids = node_ids(ledger).filter(in_discovery(ledger, cursor, now));
            let all = ids.map_values(|id: u64| relay_found(ledger, ledger.nodes[id]));
            Ok(
                RelayDiscoveryListViewModel {
                    relays: shown_first(all, limit as int),
                    next_cursor: if all.len() > limit {
                        Some(all[limit - 1].node_id)
                    } else {
                        None
                    },
                },
            )
        },
    }
}

/// Lists the nodes that relay traffic now, a page at a time.
pub fn discover_relays(
    ledger: &LedgerState,
    cursor: Option<u64>,
    limit: usize,
    now: i64,
) -> (r: Result<RelayDiscoveryListView>)
    ensures
        outcome(r) == relays_listed(ledger@, cursor, limit, now),
{
    validate_registry_page_limit(limit)?;
    let start: u64 = match cursor {
        Some(node_id) => node_id,
        None => 0,
    };
    let ghost keys = ledger.nodes.keys();
    let ghost chosen = in_discovery(ledger@, cursor, now);
    let ghost show = |id: u64| relay_found(ledger@, ledger@.nodes[id]);
    let mut out: Vec<RelayDiscoveryView> = Vec::new();
    let mut count: usize = 0;
    let mut i: usize = 0;
    proof {
        filter_ends(keys, chosen);
        assert(out.deep_view() =~= shown_first(
            keys.take(0).filter(chosen).map_values(show),
            limit as int,
        ));
    }
    while i < ledger.nodes.len()
        invariant
            i <= keys.len(),
            1 <= limit,
            keys == ledger.nodes.keys(),
            start == page_start(cursor),
            chosen == in_discovery(ledger@, cursor, now),
            show == (|id: u64| relay_found(ledger@, ledger@.nodes[id])),
            count == keys.take(i as int).filter(chosen).len(),
            count <= i,
            out@.len() <= limit,
            out.deep_view() == shown_first(
                keys.take(i as int).filter(chosen).map_values(show),
                limit as int,
            ),
        decreases keys.len() - i,
    {
        proof {
            filter_step(keys, i as int, chosen);
        }
        let ghost before = out.deep_view();
        let ghost earlier = keys.take(i as int).filter(chosen);
        let node_id: u64 = *ledger.nodes.key_at(i);
        if node_id > start {
            if let Some(view) = discover(ledger, ledger.nodes.value_at(i), now) {
                assert(chosen(keys[i as int]));
                assert(earlier.push(keys[i as int]).map_values(show) =~= earlier.map_values(
                    show,
                ).push(show(keys[i as int])));
                if count < limit {
                    out.push(view);
                    assert(out.deep_view() =~= before.push(view.deep_view()));
                }
                count = count + 1;
                assert(out.deep_view() =~= shown_first(
                    keys.take(i + 1).filter(chosen).map_values(show),
                    limit as int,
                ));
            }
        }
        i = i + 1;
    }
    proof {
        filter_ends(keys, chosen);
    }
    let next_cursor: Option<u64> = if count > limit {
        assert(out.deep_view()[limit - 1] == out@[limit - 1].deep_view());
        Some(out[limit - 1].node_id)
    } else {
        None
    };
    Ok(RelayDiscoveryListView { relays: out, next_cursor })
}

/// What a local node has earned.
pub open spec fn rewards_shown(ledger: LedgerModel, config: NodeConfigModel) -> Outcome<
    NodeRewardsViewModel,
> {
    match listed_id(ledger, config) {
        Err(refusal) => Err(refusal),
        Ok(node_id) => {
            let node = ledger.nodes[node_id];
            match vesting_reward(node) {
                Err(refusal) => Err(refusal),
                Ok(vesting) => Ok(
                    NodeRewardsViewModel {
                        node_id,
                        status: node.status,
                        epoch_eligible_seconds: if node.eligible_seconds_by_epoch.contains_key(
                            ledger.epoch_number,
                        ) {
                            node.eligible_seconds_by_epoch[ledger.epoch_number]
                        } else {
                            0
                        },
                        total_eligible_seconds: node.total_eligible_seconds,
                        service_bond: node.service_bond,
                        service_bond_display: mrk_text(node.service_bond as nat),
                        service_bond_unlock_at: node.service_bond_unlock_at,
                        offline_slashed_at: node.offline_slashed_at,
                        offline_slashed_service_bond: node.offline_slashed_service_bond,
                        offline_slashed_service_bond_display: mrk_text(
                            node.offline_slashed_service_bond as nat,
                        ),
                        offline_slashed_vesting_reward: node.offline_slashed_vesting_reward,
                        offline_slashed_vesting_reward_display: mrk_text(
                            node.offline_slashed_vesting_reward as nat,
                        ),
                        claimable_reward: node.claimable_reward,
                        claimable_reward_display: mrk_text(node.claimable_reward as nat),
                        vesting_reward: vesting,
                        vesting_reward_display: mrk_text(vesting as nat),
                        vesting_bucket_count: node.reward_vesting_buckets.len() as usize,
                    },
                ),
            }
        },
    }
}

/// Shows what a local node has earned.
pub fn node_rewards(ledger: &LedgerState, config: &LocalNodeConfig) -> (r: Result<NodeRewardsView>)
    ensures
        outcome(r) == rewards_shown(ledger@, config.deep_view()),
{
    let node_id = listed_node_id(ledger, config)?;
    match ledger.nodes.get(&node_id) {
        None => Err(Error::msg("registered node is missing from the ledger")),
        Some(node) => {
            let vesting_reward = node_vesting_reward(node)?;
            let epoch_eligible_seconds: u64 = match node.eligible_seconds_by_epoch.get(
                &ledger.epoch_number,
            ) {
                Some(seconds) => *seconds,
                None => 0,
            };
            Ok(
                NodeRewardsView {
                    node_id,
                    status: node.status,
                    epoch_eligible_seconds,
                    total_eligible_seconds: node.total_eligible_seconds,
                    service_bond: node.service_bond,
                    service_bond_display: format_mrk(node.service_bond),
                    service_bond_unlock_at: node.service_bond_unlock_at,
                    offline_slashed_at: node.offline_slashed_at,
                    offline_slashed_service_bond: node.offline_slashed_service_bond,
                    offline_slashed_service_bond_display: format_mrk(
                        node.offline_slashed_service_bond,
                    ),
                    offline_slashed_vesting_reward: node.offline_slashed_vesting_reward,
                    offline_slashed_vesting_reward_display: format_mrk(
                        node.offline_slashed_vesting_reward,
                    ),
                    claimable_reward: node.claimable_reward,
                    claimable_reward_display: format_mrk(node.claimable_reward),
                    vesting_reward,
                    vesting_reward_display: format_mrk(vesting_reward),
                    vesting_bucket_count: node.reward_vesting_buckets.len(),
                },
            )
        },
    }
}

/// The governance bond of a local node.
pub open spec fn bond_shown(ledger: LedgerModel, config: NodeConfigModel, now: i64) -> Outcome<
    GovernanceBondStatusViewModel,
> {
    match listed_id(ledger, config) {
        Err(refusal) => Err(refusal),
        Ok(node_id) => {
            let node = ledger.nodes[node_id];
            let required = ledger.settings.required_governance_bond;
            Ok(
                GovernanceBondStatusViewModel {
                    node_id,
                    eligible: governance_eligible(ledger, node_id, now),
                    governance_bond: node.governance_bond,
                    governance_bond_display: mrk_text(node.governance_bond as nat),
                    required_bond: required,
                    required_bond_display: mrk_text(required as nat),
                    bonded_at: node.governance_bonded_at,
                    matures_at: bond_matures_at(node, ledger.settings),
                    exit_requested_at: node.governance_exit_requested_at,
                    bond_unlock_at: node.governance_bond_unlock_at,
                },
            )
        },
    }
}

/// Shows the governance bond of a local node.
pub fn governance_bond_status(ledger: &LedgerState, config: &LocalNodeConfig, now: i64) -> (r: Result<
    GovernanceBondStatusView,
>)
    ensures
        outcome(r) == bond_shown(ledger@, config.deep_view(), now),
{
    let node_id = listed_node_id(ledger, config)?;
    match ledger.nodes.get(&node_id) {
        None => Err(Error::msg("registered node is missing from the ledger")),
        Some(node) => Ok(
            GovernanceBondStatusView {
                node_id,
                eligible: governance_node_is_eligible(ledger, node_id, now),
                governance_bond: node.governance_bond,
                governance_bond_display: format_mrk(node.governance_bond),
                required_bond: ledger.settings.required_governance_bond,
                required_bond_display: format_mrk(ledger.settings.required_governance_bond),
                bonded_at: node.governance_bonded_at,
                matures_at: governance_bond_matures_at(node, &ledger.settings),
                exit_requested_at: node.governance_exit_requested_at,
                bond_unlock_at: node.governance_bond_unlock_at,
            },
        ),
    }
}

/// Where a local node stands among the validators.
pub open spec fn validator_shown(ledger: LedgerModel, config: NodeConfigModel) -> Outcome<
    ValidatorStatusViewModel,
> {
    match listed_id(ledger, config) {
        Err(refusal) => Err(refusal),
        Ok(node_id) => {
            let node = ledger.nodes[node_id];
            let required = ledger.settings.validator_bond;
            Ok(
                ValidatorStatusViewModel {
                    node_id,
                    candidate: is_candidate(ledger, node),
                    active_validator: node.validator,
                    validator_bond: node.validator_bond,
                    validator_bond_display: mrk_text(node.validator_bond as nat),
                    required_bond: required,
                    required_bond_display: mrk_text(required as nat),
                    candidate_since: node.validator_candidate_since,
                    last_validator_epoch: node.validator_last_epoch,
                    consecutive_epochs: node.validator_consecutive_epochs,
                    exit_requested_at: node.validator_exit_requested_at,
                    bond_unlock_at: node.validator_bond_unlock_at,
                },
            )
        },
    }
}

/// Shows where a local node stands among the validators.
pub fn validator_status(ledger: &LedgerState, config: &LocalNodeConfig) -> (r: Result<
    ValidatorStatusView,
>)
    ensures
        outcome(r) == validator_shown(ledger@, config.deep_view()),
{
    let node_id = listed_node_id(ledger, config)?;
    match ledger.nodes.get(&node_id) {
        None => Err(Error::msg("registered node is missing from the ledger")),
        Some(node) => Ok(
            ValidatorStatusView {
                node_id,
                candidate: candidate(ledger, node),
                active_validator: node.validator,
                validator_bond: node.validator_bond,
                validator_bond_display: format_mrk(node.validator_bond),
                required_bond: ledger.settings.validator_bond,
                required_bond_display: format_mrk(ledger.settings.validator_bond),
                candidate_since: node.validator_candidate_since,
                last_validator_epoch: node.validator_last_epoch,
                consecutive_epochs: node.validator_consecutive_epochs,
                exit_requested_at: node.validator_exit_requested_at,
                bond_unlock_at: node.validator_bond_unlock_at,
            },
        ),
    }
}

/// A node that is found as a relay is shown as online, as long as it need not leave.
pub proof fn discovered_relays_are_online(ledger: LedgerModel, node: NodeModel, now: i64)
    requires
        is_discoverable(ledger, node, now),
        now < offline_exit(ledger, node).unwrap(),
    ensures
        node_availability(ledger, node, now) == Some(RegistryNodeAvailability::Online),
{
}

/// A node that serves is shown as about to leave once it has been silent for the time after which nodes
/// lose their place, as online while its last probe counts and it holds its slot, and else as what it
/// lacks; of a node that does not serve nothing is shown.
pub proof fn availability_is_shown_as_it_is(ledger: LedgerModel, node: NodeModel, now: i64)
    requires
        0 <= ledger.settings.probe_validity_seconds <= 0x1_0000_0000,
        0 <= ledger.settings.offline_slash_seconds <= 0x1_0000_0000,
        node.registered_at <= 0x1_0000_0000_0000,
        node.last_probe_success matches Some(at) ==> at <= 0x1_0000_0000_0000,
    ensures
        ({
            let shown = node_availability(ledger, node, now);
            let serves = node.status == NodeStatus::WarmingUp || node.status == NodeStatus::Active;
            let reached = match node.last_probe_success {
                Some(at) => at,
                None => node.registered_at,
            };
            let silent = now >= reached + ledger.settings.offline_slash_seconds;
            &&& shown is None <==> !serves
            &&& shown == Some(RegistryNodeAvailability::ExitPending) <==> serves && silent
            &&& shown == Some(RegistryNodeAvailability::Online) <==> {
                &&& serves && !silent
                &&& ledger.ip_slots.contains_key(node.ip_slot)
                &&& ledger.ip_slots[node.ip_slot].node_id == node.node_id
                &&& ledger.ip_slots[node.ip_slot].released_at is None
                &&& node.last_probe_success matches Some(at) && at <= now && now <= at
                    + ledger.settings.probe_validity_seconds
            }
        }),
{
}

/// A page of relays lists only nodes that relay traffic now and that stand behind the cursor, no more
/// than asked for; where no next page is named it lists every one of them.
pub proof fn pages_list_the_relays(
    ledger: LedgerModel,
    cursor: Option<u64>,
    limit: usize,
    now: i64,
    node_id: u64,
)
    requires
        ledger.nodes.dom().finite(),
        forall|id: u64| #[trigger]
            ledger.nodes.contains_key(id) ==> ledger.nodes[id].node_id == id,
        relays_listed(ledger, cursor, limit, now) is Ok,
    ensures
        ({
            let page = relays_listed(ledger, cursor, limit, now)->Ok_0;
            let wanted = ledger.nodes.contains_key(node_id) && is_discoverable(
                ledger,
                ledger.nodes[node_id],
                now,
            ) && (cursor matches Some(from) ==> from < node_id) && 0 < node_id;
            let listed = exists|i: int|
                0 <= i < page.relays.len() && (#[trigger] page.relays[i]).node_id == node_id;
            &&& page.relays.len() <= limit <= 1_000
            &&& listed ==> wanted
            &&& wanted && page.next_cursor is None ==> listed
            &&& page.next_cursor is Some ==> page.relays.len() == limit && page.next_cursor == Some(
                page.relays.last().node_id,
            )
        }),
{
    let chosen = in_discovery(ledger, cursor, now);
    let keys = node_ids(ledger);
    crate::table::ordered_lists_all::<u64>(ledger.nodes.dom());
    crate::sequence::filtered_are_chosen(keys, chosen);
    let ids = keys.filter(chosen);
    let all = ids.map_values(|id: u64| relay_found(ledger, ledger.nodes[id]));
    let page = relays_listed(ledger, cursor, limit, now)->Ok_0;
    assert forall|i: int| 0 <= i < ids.len() implies (#[trigger] all[i]).node_id == ids[i]
        && keys.contains(ids[i]) && chosen(ids[i]) by {
        assert(ids.contains(ids[i]));
        assert(keys.contains(ids[i]));
        assert(ledger.nodes.contains_key(ids[i]));
    }
    if exists|i: int| 0 <= i < page.relays.len() && (#[trigger] page.relays[i]).node_id == node_id {
        let i = choose|i: int|
            0 <= i < page.relays.len() && (#[trigger] page.relays[i]).node_id == node_id;
        assert(page.relays[i] == all[i]);
        assert(ids[i] == node_id);
    }
    if ledger.nodes.contains_key(node_id) && chosen(node_id) && page.next_cursor is None {
        assert(keys.contains(node_id));
        assert(ids.contains(node_id));
        let i = choose|i: int| 0 <= i < ids.len() && ids[i] == node_id;
        assert(page.relays[i] == all[i]);
        assert(page.relays[i].node_id == node_id);
    }
}

} // verus!
