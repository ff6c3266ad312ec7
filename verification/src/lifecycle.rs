use vstd::prelude::*;

use crate::error::{Error, Outcome, Result};
use crate::model::{
    AvailabilityMode, ConsensusModel, LedgerModel, LedgerState, NodeModel, NodeRecord, NodeStatus,
};
use crate::nodes::{node_ids, release_node_ip_slot, slot_held, slot_released};
use crate::protocol::MIN_DECENTRALIZED_AVAILABILITY_VALIDATORS;
use crate::sequence::{contains_id, filter_ends, filter_step, filtered_are_chosen};
use crate::table::ordered_lists_all;
use crate::vesting::{buckets_total, node_vesting_reward, vesting_reward};

verus! {

/// The ledger after the first node alone attests reachability where the committee is too small.
pub open spec fn availability_fallback(ledger: LedgerModel) -> LedgerModel {
    if ledger.consensus.active_validators.len() < MIN_DECENTRALIZED_AVAILABILITY_VALIDATORS {
        LedgerModel { availability_mode: AvailabilityMode::Node1Trusted, ..ledger }
    } else {
        ledger
    }
}

/// Lets the first node alone attest reachability where the committee is too small.
pub fn fallback_to_node1_availability_if_needed(ledger: &mut LedgerState)
    ensures
        final(ledger)@ == availability_fallback(old(ledger)@),
{
    if ledger.consensus.active_validators.len() < MIN_DECENTRALIZED_AVAILABILITY_VALIDATORS {
        ledger.availability_mode = AvailabilityMode::Node1Trusted;
    }
}

/// The nodes that are leaving, in ascending order.
pub open spec fn draining_ids(ledger: LedgerModel) -> Seq<u64> {
    node_ids(ledger).filter(|id: u64| ledger.nodes[id].status == NodeStatus::Draining)
}

/// The ledger after one node has left: what was still vesting goes to the treasury, the service
/// bond stays locked for a while, and the address slot is free.
pub open spec fn node_exited(ledger: LedgerModel, node_id: u64, at: i64) -> Outcome<LedgerModel> {
    let node = ledger.nodes[node_id];
    let unlock_at = at + ledger.settings.service_bond_unlock_seconds;
    if !ledger.nodes.contains_key(node_id) {
        Ok(ledger)
    } else {
        match vesting_reward(node) {
            Err(refusal) => Err(refusal),
            Ok(forfeited) => if node.service_bond > 0 && !(i64::MIN <= unlock_at <= i64::MAX) {
                Err("Service Bond unlock timestamp overflow"@)
            } else if ledger.treasury + forfeited > u128::MAX {
                Err("Treasury balance overflow"@)
            } else {
                let released = slot_released(ledger, node_id, at);
                Ok(
                    LedgerModel {
                        treasury: (ledger.treasury + forfeited) as u128,
                        nodes: ledger.nodes.insert(
                            node_id,
                            NodeModel {
                                status: NodeStatus::Exited,
                                last_heartbeat: None,
                                reward_vesting_buckets: Seq::empty(),
                                service_bond_unlock_at: if node.service_bond > 0 {
                                    Some(unlock_at as i64)
                                } else {
                                    None
                                },
                                ..node
                            },
                        ),
                        ..released
                    },
                )
            },
        }
    }
}

/// The ledger after some nodes have left, one after the other.
pub open spec fn nodes_exited(ledger: LedgerModel, ids: Seq<u64>, at: i64) -> Outcome<LedgerModel>
    decreases ids.len(),
{
    if ids.len() == 0 {
        Ok(ledger)
    } else {
        match node_exited(ledger, ids[0], at) {
            Err(refusal) => Err(refusal),
            Ok(next) => nodes_exited(next, ids.drop_first(), at),
        }
    }
}

fn exit_node(ledger: &mut LedgerState, node_id: u64, at: i64) -> (r: Result<()>)
    ensures
        match node_exited(old(ledger)@, node_id, at) {
            Ok(next) => r is Ok && final(ledger)@ == next,
            Err(refusal) => final(ledger)@ == old(ledger)@ && (r matches Err(error) && error@
                == refusal),
        },
{
    let (forfeited, bonded): (u128, bool) = match ledger.nodes.get(&node_id) {
        None => {
            return Ok(());
        },
        Some(node) => (node_vesting_reward(node)?, node.service_bond > 0),
    };
    let unlock_at: Option<i64> = if bonded {
        match at.checked_add(ledger.settings.service_bond_unlock_seconds) {
            None => {
                return Err(Error::msg("Service Bond unlock timestamp overflow"));
            },
            Some(unlock_at) => Some(unlock_at),
        }
    } else {
        None
    };
    match ledger.treasury.checked_add(forfeited) {
        None => {
            return Err(Error::msg("Treasury balance overflow"));
        },
        Some(treasury) => {
            ledger.treasury = treasury;
        },
    }
    release_node_ip_slot(ledger, node_id, at);
    if let Some(node) = ledger.nodes.get_mut(&node_id) {
        node.status = NodeStatus::Exited;
        node.last_heartbeat = None;
        node.reward_vesting_buckets = Vec::new();
        node.service_bond_unlock_at = unlock_at;
        assert(node.reward_vesting_buckets@ =~= Seq::empty());
    }
    Ok(())
}

/// Lists the nodes that are leaving.
fn list_draining(ledger: &LedgerState) -> (r: Vec<u64>)
    ensures
        r@ == draining_ids(ledger@),
{
    let ghost keys = ledger.nodes.keys();
    let ghost chosen = |id: u64| ledger@.nodes[id].status == NodeStatus::Draining;
    let mut ids: Vec<u64> = Vec::new();
    let mut i: usize = 0;
    proof {
        filter_ends(keys, chosen);
    }
    while i < ledger.nodes.len()
        invariant
            i <= keys.len(),
            keys == ledger.nodes.keys(),
            chosen == (|id: u64| ledger@.nodes[id].status == NodeStatus::Draining),
            ids@ == keys.take(i as int).filter(chosen),
        decreases keys.len() - i,
    {
        proof {
            filter_step(keys, i as int, chosen);
        }
        if matches!(ledger.nodes.value_at(i).status, NodeStatus::Draining) {
            ids.push(*ledger.nodes.key_at(i));
        }
        i = i + 1;
    }
    proof {
        filter_ends(keys, chosen);
    }
    ids
}

/// Lets the draining nodes leave whose time has come.
/// On a refusal the ledger may be left half-way.
pub(crate) fn end_draining_nodes(ledger: &mut LedgerState, finalized_at: i64) -> (r: Result<()>)
    ensures
        match nodes_exited(old(ledger)@, draining_ids(old(ledger)@), finalized_at) {
            Ok(next) => r is Ok && final(ledger)@ == next,
            Err(refusal) => r matches Err(error) && error@ == refusal,
        },
{
    let ids = list_draining(ledger);
    let ghost before = ledger@;
    let mut i: usize = 0;
    assert(ids@.skip(0) =~= ids@);
    while i < ids.len()
        invariant
            i <= ids@.len(),
            before == old(ledger)@,
            ids@ == draining_ids(before),
            nodes_exited(before, ids@, finalized_at) == nodes_exited(
                ledger@,
                ids@.skip(i as int),
                finalized_at,
            ),
        decreases ids@.len() - i,
    {
        assert(ids@.skip(i as int).drop_first() =~= ids@.skip(i as int + 1));
        exit_node(ledger, ids[i], finalized_at)?;
        i = i + 1;
    }
    Ok(())
}

/// Lets the nodes that are leaving go.
pub fn finalize_draining_nodes(ledger: &mut LedgerState, finalized_at: i64) -> (r: Result<()>)
    ensures
        match nodes_exited(old(ledger)@, draining_ids(old(ledger)@), finalized_at) {
            Ok(next) => r is Ok && final(ledger)@ == next,
            Err(refusal) => final(ledger)@ == old(ledger)@ && (r matches Err(error) && error@
                == refusal),
        },
{
    let mut next = ledger.copy();
    end_draining_nodes(&mut next, finalized_at)?;
    *ledger = next;
    Ok(())
}

/// Whether a node has not been reachable for so long that it loses its place.
pub open spec fn is_offline(ledger: LedgerModel, node_id: u64, at: i64) -> bool {
    let node = ledger.nodes[node_id];
    let since = match node.last_probe_success {
        Some(probed_at) => probed_at,
        None => node.registered_at,
    };
    &&& node.status == NodeStatus::WarmingUp || node.status == NodeStatus::Active || node.status
        == NodeStatus::Draining
    &&& i64::MIN <= since + ledger.settings.offline_slash_seconds <= i64::MAX
    &&& at >= since + ledger.settings.offline_slash_seconds
}

/// The nodes that have not been reachable for too long, in ascending order.
pub open spec fn offline_ids(ledger: LedgerModel, at: i64) -> Seq<u64> {
    node_ids(ledger).filter(|id: u64| is_offline(ledger, id, at))
}

/// The ledger after one node has lost its place: its service bond and what was still vesting go to
/// the treasury.
pub open spec fn node_slashed(ledger: LedgerModel, node_id: u64, at: i64) -> Outcome<LedgerModel> {
    let node = ledger.nodes[node_id];
    if !ledger.nodes.contains_key(node_id) {
        Ok(ledger)
    } else {
        match vesting_reward(node) {
            Err(refusal) => Err(refusal),
            Ok(vesting) => if node.service_bond + vesting > u128::MAX {
                Err("offline slash amount overflow"@)
            } else if ledger.treasury + node.service_bond + vesting > u128::MAX {
                Err("Treasury balance overflow"@)
            } else if node.offline_slashed_service_bond + node.service_bond > u128::MAX {
                Err("slashed Service Bond total overflow"@)
            } else if node.offline_slashed_vesting_reward + vesting > u128::MAX {
                Err("slashed vesting reward total overflow"@)
            } else {
                let released = slot_released(ledger, node_id, at);
                Ok(
                    LedgerModel {
                        treasury: (ledger.treasury + node.service_bond + vesting) as u128,
                        nodes: ledger.nodes.insert(
                            node_id,
                            NodeModel {
                                status: NodeStatus::Exited,
                                last_heartbeat: None,
                                service_bond: 0,
                                service_bond_unlock_at: None,
                                reward_vesting_buckets: Seq::empty(),
                                offline_slashed_at: Some(at),
                                offline_slashed_service_bond: (node.offline_slashed_service_bond
                                    + node.service_bond) as u128,
                                offline_slashed_vesting_reward: (
                                node.offline_slashed_vesting_reward + vesting) as u128,
                                validator: false,
                                ..node
                            },
                        ),
                        ..released
                    },
                )
            },
        }
    }
}

pub open spec fn nodes_slashed(ledger: LedgerModel, ids: Seq<u64>, at: i64) -> Outcome<LedgerModel>
    decreases ids.len(),
{
    if ids.len() == 0 {
        Ok(ledger)
    } else {
        match node_slashed(ledger, ids[0], at) {
            Err(refusal) => Err(refusal),
            Ok(next) => nodes_slashed(next, ids.drop_first(), at),
        }
    }
}

/// The ledger after the nodes that were not reachable for too long have lost their places, also in
/// the committee.
pub open spec fn offline_settled(ledger: LedgerModel, at: i64) -> Outcome<LedgerModel> {
    let ids = offline_ids(ledger, at);
    if ledger.settings.offline_slash_seconds < 0 {
        Err("offline slash duration cannot be negative"@)
    } else if ids.len() == 0 {
        Ok(ledger)
    } else {
        match nodes_slashed(ledger, ids, at) {
            Err(refusal) => Err(refusal),
            Ok(slashed) => Ok(
                availability_fallback(
                    LedgerModel {
                        consensus: ConsensusModel {
                            active_validators: slashed.consensus.active_validators.filter(
                                |id: u64| !ids.contains(id),
                            ),
                            ..slashed.consensus
                        },
                        ..slashed
                    },
                ),
            ),
        }
    }
}

fn slash_node(ledger: &mut LedgerState, node_id: u64, at: i64) -> (r: Result<()>)
    ensures
        match node_slashed(old(ledger)@, node_id, at) {
            Ok(next) => r is Ok && final(ledger)@ == next,
            Err(refusal) => final(ledger)@ == old(ledger)@ && (r matches Err(error) && error@
                == refusal),
        },
{
    let (bond, vesting, slashed_bond, slashed_vesting): (u128, u128, u128, u128) =
        match ledger.nodes.get(&node_id) {
        None => {
            return Ok(());
        },
        Some(node) => (
            node.service_bond,
            node_vesting_reward(node)?,
            node.offline_slashed_service_bond,
            node.offline_slashed_vesting_reward,
        ),
    };
    let total: u128 = match bond.checked_add(vesting) {
        None => {
            return Err(Error::msg("offline slash amount overflow"));
        },
        Some(total) => total,
    };
    let treasury: u128 = match ledger.treasury.checked_add(total) {
        None => {
            return Err(Error::msg("Treasury balance overflow"));
        },
        Some(treasury) => treasury,
    };
    let bond_total: u128 = match slashed_bond.checked_add(bond) {
        None => {
            return Err(Error::msg("slashed Service Bond total overflow"));
        },
        Some(bond_total) => bond_total,
    };
    let vesting_total: u128 = match slashed_vesting.checked_add(vesting) {
        None => {
            return Err(Error::msg("slashed vesting reward total overflow"));
        },
        Some(vesting_total) => vesting_total,
    };
    ledger.treasury = treasury;
    release_node_ip_slot(ledger, node_id, at);
    if let Some(node) = ledger.nodes.get_mut(&node_id) {
        node.status = NodeStatus::Exited;
        node.last_heartbeat = None;
        node.service_bond = 0;
        node.service_bond_unlock_at = None;
        node.reward_vesting_buckets = Vec::new();
        node.offline_slashed_at = Some(at);
        node.offline_slashed_service_bond = bond_total;
        node.offline_slashed_vesting_reward = vesting_total;
        node.validator = false;
        assert(node.reward_vesting_buckets@ =~= Seq::empty());
    }
    Ok(())
}

fn node_is_offline(ledger: &LedgerState, node: &NodeRecord, at: i64) -> (r: bool)
    ensures
        forall|id: u64|
            ledger@.nodes[id] == node.deep_view() ==> r == #[trigger] is_offline(ledger@, id, at),
{
    if !matches!(node.status, NodeStatus::WarmingUp | NodeStatus::Active | NodeStatus::Draining) {
        return false;
    }
    let since: i64 = match node.last_probe_success {
        Some(probed_at) => probed_at,
        None => node.registered_at,
    };
    match since.checked_add(ledger.settings.offline_slash_seconds) {
        None => false,
        Some(slash_at) => at >= slash_at,
    }
}

fn list_offline(ledger: &LedgerState, at: i64) -> (r: Vec<u64>)
    ensures
        r@ == offline_ids(ledger@, at),
{
    let ghost keys = ledger.nodes.keys();
    let ghost chosen = |id: u64| is_offline(ledger@, id, at);
    let mut ids: Vec<u64> = Vec::new();
    let mut i: usize = 0;
    proof {
        filter_ends(keys, chosen);
    }
    while i < ledger.nodes.len()
        invariant
            i <= keys.len(),
            keys == ledger.nodes.keys(),
            chosen == (|id: u64| is_offline(ledger@, id, at)),
            ids@ == keys.take(i as int).filter(chosen),
        decreases keys.len() - i,
    {
        proof {
            filter_step(keys, i as int, chosen);
        }
        if node_is_offline(ledger, ledger.nodes.value_at(i), at) {
            ids.push(*ledger.nodes.key_at(i));
        }
        i = i + 1;
    }
    proof {
        filter_ends(keys, chosen);
    }
    ids
}

/// The numbers of a list that are not in another.
pub fn without_ids(ids: &Vec<u64>, removed: &Vec<u64>) -> (r: Vec<u64>)
    ensures
        r@ == ids@.filter(|id: u64| !removed@.contains(id)),
{
    let ghost chosen = |id: u64| !removed@.contains(id);
    let mut kept: Vec<u64> = Vec::new();
    let mut i: usize = 0;
    proof {
        filter_ends(ids@, chosen);
    }
    while i < ids.len()
        invariant
            i <= ids@.len(),
            chosen == (|id: u64| !removed@.contains(id)),
            kept@ == ids@.take(i as int).filter(chosen),
        decreases ids@.len() - i,
    {
        proof {
            filter_step(ids@, i as int, chosen);
        }
        if !contains_id(removed, ids[i]) {
            kept.push(ids[i]);
        }
        i = i + 1;
    }
    proof {
        filter_ends(ids@, chosen);
    }
    kept
}

/// Takes their places from the nodes that were not reachable for too long.
/// On a refusal the ledger may be left half-way.
pub(crate) fn end_offline_nodes(ledger: &mut LedgerState, finalized_at: i64) -> (r: Result<()>)
    ensures
        match offline_settled(old(ledger)@, finalized_at) {
            Ok(next) => r is Ok && final(ledger)@ == next,
            Err(refusal) => r matches Err(error) && error@ == refusal,
        },
{
    if ledger.settings.offline_slash_seconds < 0 {
        return Err(Error::msg("offline slash duration cannot be negative"));
    }
    let ids = list_offline(ledger, finalized_at);
    if ids.len() == 0 {
        return Ok(());
    }
    let ghost before = ledger@;
    let mut i: usize = 0;
    assert(ids@.skip(0) =~= ids@);
    while i < ids.len()
        invariant
            i <= ids@.len(),
            ids@.len() > 0,
            before == old(ledger)@,
            before.settings.offline_slash_seconds >= 0,
            ids@ == offline_ids(before, finalized_at),
            nodes_slashed(before, ids@, finalized_at) == nodes_slashed(
                ledger@,
                ids@.skip(i as int),
                finalized_at,
            ),
        decreases ids@.len() - i,
    {
        assert(ids@.skip(i as int).drop_first() =~= ids@.skip(i as int + 1));
        slash_node(ledger, ids[i], finalized_at)?;
        i = i + 1;
    }
    ledger.consensus.active_validators = without_ids(&ledger.consensus.active_validators, &ids);
    fallback_to_node1_availability_if_needed(ledger);
    Ok(())
}

/// Takes their places from the nodes that were not reachable for too long.
pub fn finalize_offline_nodes(ledger: &mut LedgerState, finalized_at: i64) -> (r: Result<()>)
    ensures
        match offline_settled(old(ledger)@, finalized_at) {
            Ok(next) => r is Ok && final(ledger)@ == next,
            Err(refusal) => final(ledger)@ == old(ledger)@ && (r matches Err(error) && error@
                == refusal),
        },
{
    let mut next = ledger.copy();
    end_offline_nodes(&mut next, finalized_at)?;
    *ledger = next;
    Ok(())
}

/// What a node that leaves forfeits is what the treasury gains.
pub proof fn exit_pays_treasury(ledger: LedgerModel, node_id: u64, at: i64)
    requires
        ledger.nodes.contains_key(node_id),
        node_exited(ledger, node_id, at) is Ok,
    ensures
        ({
            let after = node_exited(ledger, node_id, at)->Ok_0;
            &&& after.treasury == ledger.treasury + buckets_total(
                ledger.nodes[node_id].reward_vesting_buckets,
            )
            &&& buckets_total(after.nodes[node_id].reward_vesting_buckets) == 0
            &&& after.nodes[node_id].service_bond == ledger.nodes[node_id].service_bond
            &&& after.nodes[node_id].claimable_reward == ledger.nodes[node_id].claimable_reward
            &&& forall|other: u64|
                other != node_id && ledger.nodes.contains_key(other) ==> #[trigger] after.nodes[other]
                    == ledger.nodes[other]
        }),
{
}

/// What a node loses for not being reachable is what the treasury gains.
pub proof fn slash_pays_treasury(ledger: LedgerModel, node_id: u64, at: i64)
    requires
        ledger.nodes.contains_key(node_id),
        node_slashed(ledger, node_id, at) is Ok,
    ensures
        ({
            let after = node_slashed(ledger, node_id, at)->Ok_0;
            &&& after.treasury == ledger.treasury + ledger.nodes[node_id].service_bond
                + buckets_total(ledger.nodes[node_id].reward_vesting_buckets)
            &&& after.nodes[node_id].service_bond == 0
            &&& buckets_total(after.nodes[node_id].reward_vesting_buckets) == 0
            &&& after.nodes[node_id].claimable_reward == ledger.nodes[node_id].claimable_reward
            &&& forall|other: u64|
                other != node_id && ledger.nodes.contains_key(other) ==> #[trigger] after.nodes[other]
                    == ledger.nodes[other]
        }),
{
}

/// When a node was last known to be reachable: at its last successful probe, or when it was
/// registered.
pub open spec fn last_reached(node: NodeModel) -> i64 {
    match node.last_probe_success {
        Some(probed_at) => probed_at,
        None => node.registered_at,
    }
}

/// Whether a node has a place to lose: it serves, warms up or is leaving.
pub open spec fn has_a_place(node: NodeModel) -> bool {
    match node.status {
        NodeStatus::WarmingUp => true,
        NodeStatus::Active => true,
        NodeStatus::Draining => true,
        NodeStatus::Exited => false,
        NodeStatus::Suspended => false,
    }
}

/// Whether a node has a place and has not been reached for some seconds by a time.
pub open spec fn is_silent(node: NodeModel, seconds: i64, at: i64) -> bool {
    has_a_place(node) && at - last_reached(node) >= seconds
}

/// Whether a node has lost its place at a time: it is gone, and so are its bond, what was vesting
/// and its seat. What it could claim already is still its own.
pub open spec fn has_lost_its_place(before: NodeModel, after: NodeModel, at: i64) -> bool {
    &&& after.status == NodeStatus::Exited
    &&& after.service_bond == 0
    &&& after.service_bond_unlock_at is None
    &&& after.reward_vesting_buckets.len() == 0
    &&& !after.validator
    &&& after.offline_slashed_at == Some(at)
    &&& after.offline_slashed_service_bond == before.offline_slashed_service_bond
        + before.service_bond
    &&& after.offline_slashed_vesting_reward == before.offline_slashed_vesting_reward
        + buckets_total(before.reward_vesting_buckets)
    &&& after.claimable_reward == before.claimable_reward
    &&& after.governance_bond == before.governance_bond
    &&& after.validator_bond == before.validator_bond
    &&& after.ip_slot == before.ip_slot
    &&& after.reward_address == before.reward_address
    &&& after.owner_address == before.owner_address
}

proof fn slashing_reaches_the_listed(ledger: LedgerModel, ids: Seq<u64>, at: i64)
    requires
        ids.no_duplicates(),
        forall|i: int| 0 <= i < ids.len() ==> ledger.nodes.contains_key(#[trigger] ids[i]),
        nodes_slashed(ledger, ids, at) is Ok,
    ensures
        ({
            let after = nodes_slashed(ledger, ids, at)->Ok_0;
            &&& after.nodes.dom() == ledger.nodes.dom()
            &&& after.consensus == ledger.consensus
            &&& after.settings == ledger.settings
            &&& after.accounts == ledger.accounts
            &&& after.treasury >= ledger.treasury
            &&& forall|id: u64| #[trigger]
                ledger.nodes.contains_key(id) ==> if ids.contains(id) {
                    has_lost_its_place(ledger.nodes[id], after.nodes[id], at) && !slot_held(
                        after,
                        ledger.nodes[id].ip_slot,
                        id,
                    )
                } else {
                    after.nodes[id] == ledger.nodes[id]
                }
            &&& forall|slot: Seq<char>, id: u64| #[trigger]
                slot_held(after, slot, id) ==> slot_held(ledger, slot, id)
        }),
    decreases ids.len(),
{
    if ids.len() > 0 {
        let next = node_slashed(ledger, ids[0], at)->Ok_0;
        let rest = ids.drop_first();
        assert(ledger.nodes.contains_key(ids[0]));
        assert forall|i: int| 0 <= i < rest.len() implies next.nodes.contains_key(
            #[trigger] rest[i],
        ) by {
            assert(rest[i] == ids[i + 1]);
        }
        slashing_reaches_the_listed(next, rest, at);
        let after = nodes_slashed(ledger, ids, at)->Ok_0;
        assert(after.nodes.dom() =~= ledger.nodes.dom());
        assert forall|id: u64| #[trigger] ledger.nodes.contains_key(id) implies if ids.contains(
            id,
        ) {
            has_lost_its_place(ledger.nodes[id], after.nodes[id], at) && !slot_held(
                after,
                ledger.nodes[id].ip_slot,
                id,
            )
        } else {
            after.nodes[id] == ledger.nodes[id]
        } by {
            assert(next.nodes.contains_key(id));
            if id == ids[0] {
                assert(!rest.contains(id)) by {
                    if rest.contains(id) {
                        let j = choose|j: int| 0 <= j < rest.len() && rest[j] == id;
                        assert(ids[j + 1] == ids[0]);
                    }
                }
                assert(ids.contains(id));
                assert(!slot_held(next, ledger.nodes[id].ip_slot, id));
            } else if ids.contains(id) {
                let j = choose|j: int| 0 <= j < ids.len() && ids[j] == id;
                assert(rest[j - 1] == id);
                assert(rest.contains(id));
            } else {
                assert(!rest.contains(id)) by {
                    if rest.contains(id) {
                        let j = choose|j: int| 0 <= j < rest.len() && rest[j] == id;
                        assert(ids[j + 1] == id);
                    }
                }
            }
        }
    }
}

proof fn offline_nodes_are_silent(ledger: LedgerModel, at: i64)
    requires
        ledger.nodes.dom().finite(),
        ledger.settings.offline_slash_seconds >= 0,
    ensures
        offline_ids(ledger, at).no_duplicates(),
        forall|i: int|
            0 <= i < offline_ids(ledger, at).len() ==> ledger.nodes.contains_key(
                #[trigger] offline_ids(ledger, at)[i],
            ),
        forall|id: u64| #[trigger]
            ledger.nodes.contains_key(id) ==> (offline_ids(ledger, at).contains(id) <==> is_silent(
                ledger.nodes[id],
                ledger.settings.offline_slash_seconds,
                at,
            )),
{
    let all = node_ids(ledger);
    let chosen = |id: u64| is_offline(ledger, id, at);
    let ids = offline_ids(ledger, at);
    ordered_lists_all::<u64>(ledger.nodes.dom());
    filtered_are_chosen(all, chosen);
    assert forall|i: int| 0 <= i < ids.len() implies ledger.nodes.contains_key(
        #[trigger] ids[i],
    ) by {
        assert(ids.contains(ids[i]));
        assert(ledger.nodes.dom().contains(ids[i]));
    }
    assert forall|id: u64| #[trigger] ledger.nodes.contains_key(id) implies (ids.contains(id)
        <==> is_silent(ledger.nodes[id], ledger.settings.offline_slash_seconds, at)) by {
        assert(ledger.nodes.dom().contains(id));
        assert(all.contains(id));
        assert(ids.contains(id) <==> chosen(id));
    }
}

/// Settling the unreachable nodes takes the place of every node that serves, warms up or is leaving
/// and has not been reached for as long as may be, and of no other: no such node is left afterwards,
/// and every other node is as it was. Who loses its place loses its seat in the committee and its
/// address, and nobody else does.
pub proof fn unreachable_nodes_lose_their_places(ledger: LedgerModel, at: i64)
    requires
        ledger.nodes.dom().finite(),
        offline_settled(ledger, at) is Ok,
    ensures
        ({
            let after = offline_settled(ledger, at)->Ok_0;
            let seconds = ledger.settings.offline_slash_seconds;
            &&& after.nodes.dom() == ledger.nodes.dom()
            &&& forall|id: u64| #[trigger]
                after.nodes.contains_key(id) ==> !is_silent(after.nodes[id], seconds, at)
            &&& forall|id: u64| #[trigger]
                ledger.nodes.contains_key(id) ==> if is_silent(ledger.nodes[id], seconds, at) {
                    &&& has_lost_its_place(ledger.nodes[id], after.nodes[id], at)
                    &&& !slot_held(after, ledger.nodes[id].ip_slot, id)
                    &&& !after.consensus.active_validators.contains(id)
                } else {
                    &&& after.nodes[id] == ledger.nodes[id]
                    &&& after.consensus.active_validators.contains(id)
                        <==> ledger.consensus.active_validators.contains(id)
                }
            &&& after.accounts == ledger.accounts
            &&& after.treasury >= ledger.treasury
        }),
{
    let ids = offline_ids(ledger, at);
    let after = offline_settled(ledger, at)->Ok_0;
    offline_nodes_are_silent(ledger, at);
    if ids.len() == 0 {
        assert forall|id: u64| #[trigger] ledger.nodes.contains_key(id) implies !is_silent(
            ledger.nodes[id],
            ledger.settings.offline_slash_seconds,
            at,
        ) by {
            assert(!ids.contains(id));
        }
    } else {
        slashing_reaches_the_listed(ledger, ids, at);
        let slashed = nodes_slashed(ledger, ids, at)->Ok_0;
        let kept = |id: u64| !ids.contains(id);
        let active = ledger.consensus.active_validators;
        filtered_are_chosen(active, kept);
        assert forall|id: u64| #[trigger] ledger.nodes.contains_key(id) implies (
        after.consensus.active_validators.contains(id) <==> active.contains(id) && !ids.contains(
            id,
        )) by {
            assert(after.consensus.active_validators == active.filter(kept));
            assert(active.filter(kept).contains(id) <==> active.contains(id) && kept(id));
        }
    }
}

proof fn leaving_reaches_the_listed(ledger: LedgerModel, ids: Seq<u64>, at: i64)
    requires
        ids.no_duplicates(),
        forall|i: int| 0 <= i < ids.len() ==> ledger.nodes.contains_key(#[trigger] ids[i]),
        nodes_exited(ledger, ids, at) is Ok,
    ensures
        ({
            let after = nodes_exited(ledger, ids, at)->Ok_0;
            &&& after.nodes.dom() == ledger.nodes.dom()
            &&& after.settings == ledger.settings
            &&& after.accounts == ledger.accounts
            &&& forall|id: u64| #[trigger]
                ledger.nodes.contains_key(id) ==> if ids.contains(id) {
                    has_left(ledger, after, id, at)
                } else {
                    after.nodes[id] == ledger.nodes[id]
                }
            &&& forall|slot: Seq<char>, id: u64| #[trigger]
                slot_held(after, slot, id) ==> slot_held(ledger, slot, id)
        }),
    decreases ids.len(),
{
    if ids.len() > 0 {
        let next = node_exited(ledger, ids[0], at)->Ok_0;
        let rest = ids.drop_first();
        assert(ledger.nodes.contains_key(ids[0]));
        assert forall|i: int| 0 <= i < rest.len() implies next.nodes.contains_key(
            #[trigger] rest[i],
        ) by {
            assert(rest[i] == ids[i + 1]);
        }
        leaving_reaches_the_listed(next, rest, at);
        let after = nodes_exited(ledger, ids, at)->Ok_0;
        assert(after.nodes.dom() =~= ledger.nodes.dom());
        assert forall|id: u64| #[trigger] ledger.nodes.contains_key(id) implies if ids.contains(
            id,
        ) {
            has_left(ledger, after, id, at)
        } else {
            after.nodes[id] == ledger.nodes[id]
        } by {
            assert(next.nodes.contains_key(id));
            if id == ids[0] {
                assert(!rest.contains(id)) by {
                    if rest.contains(id) {
                        let j = choose|j: int| 0 <= j < rest.len() && rest[j] == id;
                        assert(ids[j + 1] == ids[0]);
                    }
                }
                assert(ids.contains(id));
                assert(!slot_held(next, ledger.nodes[id].ip_slot, id));
            } else if ids.contains(id) {
                let j = choose|j: int| 0 <= j < ids.len() && ids[j] == id;
                assert(rest[j - 1] == id);
                assert(rest.contains(id));
            } else {
                assert(!rest.contains(id)) by {
                    if rest.contains(id) {
                        let j = choose|j: int| 0 <= j < rest.len() && rest[j] == id;
                        assert(ids[j + 1] == id);
                    }
                }
            }
        }
    }
}

/// Whether a node has left in order at a time: it is gone with its address, what was still vesting
/// is lost, its service bond is its own and is locked for as long as is set, and all else is as it
/// was.
pub open spec fn has_left(before: LedgerModel, after: LedgerModel, id: u64, at: i64) -> bool {
    let node = before.nodes[id];
    let left = after.nodes[id];
    &&& left.status == NodeStatus::Exited
    &&& left.service_bond == node.service_bond
    &&& left.service_bond_unlock_at == if node.service_bond > 0 {
        Some((at + before.settings.service_bond_unlock_seconds) as i64)
    } else {
        None
    }
    &&& node.service_bond > 0 ==> i64::MIN <= at + before.settings.service_bond_unlock_seconds
        <= i64::MAX
    &&& left.reward_vesting_buckets.len() == 0
    &&& left.claimable_reward == node.claimable_reward
    &&& left.governance_bond == node.governance_bond
    &&& left.validator_bond == node.validator_bond
    &&& left.reward_address == node.reward_address
    &&& left.owner_address == node.owner_address
    &&& !slot_held(after, node.ip_slot, id)
}

/// Letting the leaving nodes go reaches every node that is leaving and no other.
pub proof fn leaving_nodes_go(ledger: LedgerModel, at: i64)
    requires
        ledger.nodes.dom().finite(),
        nodes_exited(ledger, draining_ids(ledger), at) is Ok,
    ensures
        ({
            let after = nodes_exited(ledger, draining_ids(ledger), at)->Ok_0;
            &&& after.nodes.dom() == ledger.nodes.dom()
            &&& forall|id: u64| #[trigger]
                after.nodes.contains_key(id) ==> after.nodes[id].status != NodeStatus::Draining
            &&& forall|id: u64| #[trigger]
                ledger.nodes.contains_key(id) ==> if ledger.nodes[id].status
                    == NodeStatus::Draining {
                    has_left(ledger, after, id, at)
                } else {
                    after.nodes[id] == ledger.nodes[id]
                }
            &&& after.accounts == ledger.accounts
        }),
{
    let all = node_ids(ledger);
    let chosen = |id: u64| ledger.nodes[id].status == NodeStatus::Draining;
    let ids = draining_ids(ledger);
    ordered_lists_all::<u64>(ledger.nodes.dom());
    filtered_are_chosen(all, chosen);
    assert forall|i: int| 0 <= i < ids.len() implies ledger.nodes.contains_key(
        #[trigger] ids[i],
    ) by {
        assert(ids.contains(ids[i]));
        assert(ledger.nodes.dom().contains(ids[i]));
    }
    assert forall|id: u64| #[trigger] ledger.nodes.contains_key(id) implies (ids.contains(id)
        <==> chosen(id)) by {
        assert(ledger.nodes.dom().contains(id));
        assert(all.contains(id));
        assert(ids.contains(id) <==> chosen(id));
    }
    leaving_reaches_the_listed(ledger, ids, at);
}

} // verus!
