use vstd::prelude::*;
use vstd::string::*;

use crate::error::{outcome, Error, Outcome, Result};
use crate::model::{
    IpSlotRecord, LedgerModel, LedgerSettings, LedgerState, NodeModel, NodeRecord, NodeStatus,
};
use crate::number::{clamped_i64, saturating_sub_i64};
use crate::protocol::{DEFAULT_RELAY_PRICE_PER_GIB, MAX_SUPPLY};
use crate::sequence::{
    arrange, arranged, filter_ends, filter_step, first_where, first_where_ends, first_where_step,
    last_where, last_where_ends, last_where_found, last_where_step,
};
use crate::table::ordered;
use crate::text::{decimal, join2, join3, text_same, u64_text};

verus! {

/// The identifiers of all nodes, in ascending order.
pub open spec fn node_ids(ledger: LedgerModel) -> Seq<u64> {
    ordered::<u64>(ledger.nodes.dom())
}

/// Whether an address slot may be bound: it never was, or it was released long enough ago.
pub open spec fn slot_free(ledger: LedgerModel, slot: Seq<char>, at: i64) -> bool {
    ledger.ip_slots.contains_key(slot) ==> match ledger.ip_slots[slot].released_at {
        None => false,
        Some(released_at) => at >= released_at && clamped_i64(at - released_at)
            >= ledger.settings.ip_reuse_cooldown_seconds,
    }
}

/// Whether a node holds an address slot.
pub open spec fn slot_held(ledger: LedgerModel, slot: Seq<char>, node_id: u64) -> bool {
    ledger.ip_slots.contains_key(slot) && ledger.ip_slots[slot].node_id == node_id
        && ledger.ip_slots[slot].released_at is None
}

/// The ledger after a node has asked for an address slot.
pub open spec fn slot_bound(ledger: LedgerModel, slot: Seq<char>, node_id: u64, at: i64) -> LedgerModel {
    if !slot_held(ledger, slot, node_id) && slot_free(ledger, slot, at) {
        LedgerModel {
            ip_slots: ledger.ip_slots.insert(
                slot,
                IpSlotRecord { node_id, bound_at: at, released_at: None },
            ),
            ..ledger
        }
    } else {
        ledger
    }
}

/// Whether a node holds the slot of its own address and did so at a time.
pub open spec fn owns_slot_at(ledger: LedgerModel, node_id: u64, at: i64) -> bool {
    &&& ledger.nodes.contains_key(node_id)
    &&& slot_held(ledger, ledger.nodes[node_id].ip_slot, node_id)
    &&& ledger.ip_slots[ledger.nodes[node_id].ip_slot].bound_at <= at
}

/// The ledger after a node has given its address slot up.
pub open spec fn slot_released(ledger: LedgerModel, node_id: u64, at: i64) -> LedgerModel {
    if ledger.nodes.contains_key(node_id) && slot_held(
        ledger,
        ledger.nodes[node_id].ip_slot,
        node_id,
    ) {
        let slot = ledger.nodes[node_id].ip_slot;
        LedgerModel {
            ip_slots: ledger.ip_slots.insert(
                slot,
                IpSlotRecord { released_at: Some(at), ..ledger.ip_slots[slot] },
            ),
            ..ledger
        }
    } else {
        ledger
    }
}

pub fn ip_slot_is_available(ledger: &LedgerState, slot_name: &str, at: i64) -> (r: bool)
    ensures
        r == slot_free(ledger@, slot_name@, at),
{
    match ledger.ip_slots.get(&slot_name.to_owned()) {
        None => true,
        Some(slot) => match slot.released_at {
            None => false,
            Some(released_at) => at >= released_at && saturating_sub_i64(at, released_at)
                >= ledger.settings.ip_reuse_cooldown_seconds,
        },
    }
}

/// Binds an address slot to a node, and tells whether the node holds it now.
pub fn bind_ip_slot_if_available(
    ledger: &mut LedgerState,
    slot_name: &str,
    node_id: u64,
    bound_at: i64,
) -> (r: bool)
    ensures
        final(ledger)@ == slot_bound(old(ledger)@, slot_name@, node_id, bound_at),
        r == (slot_held(old(ledger)@, slot_name@, node_id) || slot_free(
            old(ledger)@,
            slot_name@,
            bound_at,
        )),
        r == slot_held(final(ledger)@, slot_name@, node_id),
{
    let key = slot_name.to_owned();
    if let Some(slot) = ledger.ip_slots.get(&key) {
        if slot.node_id == node_id && slot.released_at.is_none() {
            return true;
        }
    }
    if !ip_slot_is_available(ledger, slot_name, bound_at) {
        return false;
    }
    ledger.ip_slots.insert(key, IpSlotRecord { node_id, bound_at, released_at: None });
    true
}

pub fn node_owns_ip_slot_at(ledger: &LedgerState, node_id: u64, observed_at: i64) -> (r: bool)
    ensures
        r == owns_slot_at(ledger@, node_id, observed_at),
{
    match ledger.nodes.get(&node_id) {
        None => false,
        Some(node) => match ledger.ip_slots.get(&node.ip_slot) {
            None => false,
            Some(slot) => slot.node_id == node_id && slot.released_at.is_none() && slot.bound_at
                <= observed_at,
        },
    }
}

/// Gives up the address slot of a node.
pub fn release_node_ip_slot(ledger: &mut LedgerState, node_id: u64, released_at: i64)
    ensures
        final(ledger)@ == slot_released(old(ledger)@, node_id, released_at),
{
    let slot_name = match ledger.nodes.get(&node_id) {
        None => {
            return ;
        },
        Some(node) => node.ip_slot.clone(),
    };
    let held = match ledger.ip_slots.get(&slot_name) {
        None => false,
        Some(slot) => slot.node_id == node_id && slot.released_at.is_none(),
    };
    if held {
        if let Some(slot) = ledger.ip_slots.get_mut(&slot_name) {
            slot.released_at = Some(released_at);
        }
    }
}

/// A slot that one node holds cannot be bound by another.
pub proof fn held_slot_has_one_owner(
    ledger: LedgerModel,
    slot: Seq<char>,
    owner: u64,
    other: u64,
    at: i64,
)
    requires
        slot_held(ledger, slot, owner),
        other != owner,
    ensures
        slot_bound(ledger, slot, other, at) == ledger,
        !slot_held(slot_bound(ledger, slot, other, at), slot, other),
{
}

/// No two nodes own the slot of the same address at a time.
pub proof fn slot_owner_is_unique(ledger: LedgerModel, first: u64, second: u64, at: i64)
    requires
        owns_slot_at(ledger, first, at),
        owns_slot_at(ledger, second, at),
        ledger.nodes[first].ip_slot == ledger.nodes[second].ip_slot,
    ensures
        first == second,
{
}

/// The time from which a governance bond counts.
pub open spec fn bond_matures_at(node: NodeModel, settings: LedgerSettings) -> Option<i64> {
    match node.governance_bonded_at {
        None => None,
        Some(bonded_at) => if i64::MIN <= bonded_at + settings.governance_bond_maturity_seconds
            <= i64::MAX {
            Some((bonded_at + settings.governance_bond_maturity_seconds) as i64)
        } else {
            None
        },
    }
}

/// Whether the governance bond of a node is large and old enough.
pub open spec fn bond_mature(node: NodeModel, settings: LedgerSettings, now: i64) -> bool {
    settings.required_governance_bond == 0 || {
        &&& node.governance_bond >= settings.required_governance_bond
        &&& node.governance_exit_requested_at is None
        &&& bond_matures_at(node, settings) matches Some(matures_at) && now >= matures_at
    }
}

/// Whether a node was probed successfully within the validity of a probe.
pub open spec fn probe_fresh(node: NodeModel, settings: LedgerSettings, now: i64) -> bool {
    node.last_probe_success matches Some(probed_at) && probed_at <= now && clamped_i64(
        now - probed_at,
    ) <= settings.probe_validity_seconds
}

/// Whether a node counts in governance.
pub open spec fn governance_eligible(ledger: LedgerModel, node_id: u64, now: i64) -> bool {
    &&& ledger.nodes.contains_key(node_id)
    &&& ledger.nodes[node_id].status == NodeStatus::Active
    &&& owns_slot_at(ledger, node_id, now)
    &&& ledger.nodes[node_id].service_bond >= ledger.settings.required_service_bond
    &&& ledger.nodes[node_id].total_eligible_seconds
        >= ledger.settings.governance_min_service_seconds
    &&& bond_mature(ledger.nodes[node_id], ledger.settings, now)
    &&& probe_fresh(ledger.nodes[node_id], ledger.settings, now)
}

/// The nodes that count in governance, in ascending order.
pub open spec fn eligible_ids(ledger: LedgerModel, now: i64) -> Seq<u64> {
    node_ids(ledger).filter(|node_id: u64| governance_eligible(ledger, node_id, now))
}

pub fn governance_bond_matures_at(node: &NodeRecord, settings: &LedgerSettings) -> (r: Option<i64>)
    ensures
        r == bond_matures_at(node.deep_view(), *settings),
{
    match node.governance_bonded_at {
        None => None,
        Some(bonded_at) => bonded_at.checked_add(settings.governance_bond_maturity_seconds),
    }
}

pub fn governance_bond_is_mature(
    node: &NodeRecord,
    settings: &LedgerSettings,
    now: i64,
) -> (r: bool)
    ensures
        r == bond_mature(node.deep_view(), *settings, now),
{
    if settings.required_governance_bond == 0 {
        return true;
    }
    node.governance_bond >= settings.required_governance_bond
        && node.governance_exit_requested_at.is_none() && match governance_bond_matures_at(
        node,
        settings,
    ) {
        None => false,
        Some(matures_at) => now >= matures_at,
    }
}

pub fn probe_is_fresh(node: &NodeRecord, settings: &LedgerSettings, now: i64) -> (r: bool)
    ensures
        r == probe_fresh(node.deep_view(), *settings, now),
{
    match node.last_probe_success {
        None => false,
        Some(probed_at) => probed_at <= now && saturating_sub_i64(now, probed_at)
            <= settings.probe_validity_seconds,
    }
}

pub fn governance_node_is_eligible(ledger: &LedgerState, node_id: u64, now: i64) -> (r: bool)
    ensures
        r == governance_eligible(ledger@, node_id, now),
{
    match ledger.nodes.get(&node_id) {
        None => false,
        Some(node) => matches!(node.status, NodeStatus::Active) && node_owns_ip_slot_at(
            ledger,
            node_id,
            now,
        ) && node.service_bond >= ledger.settings.required_service_bond
            && node.total_eligible_seconds >= ledger.settings.governance_min_service_seconds
            && governance_bond_is_mature(node, &ledger.settings, now) && probe_is_fresh(
            node,
            &ledger.settings,
            now,
        ),
    }
}

/// Lists the nodes that count in governance.
pub fn governance_eligible_node_ids(ledger: &LedgerState, now: i64) -> (r: Vec<u64>)
    ensures
        r@ == eligible_ids(ledger@, now),
{
    let ghost keys = ledger.nodes.keys();
    let ghost chosen = |node_id: u64| governance_eligible(ledger@, node_id, now);
    let mut ids: Vec<u64> = Vec::new();
    let mut i: usize = 0;
    proof {
        filter_ends(keys, chosen);
    }
    while i < ledger.nodes.len()
        invariant
            i <= keys.len(),
            keys == ledger.nodes.keys(),
            chosen == (|node_id: u64| governance_eligible(ledger@, node_id, now)),
            ids@ == keys.take(i as int).filter(chosen),
        decreases keys.len() - i,
    {
        let node_id: u64 = *ledger.nodes.key_at(i);
        proof {
            filter_step(keys, i as int, chosen);
        }
        if governance_node_is_eligible(ledger, node_id, now) {
            ids.push(node_id);
        }
        i = i + 1;
    }
    proof {
        filter_ends(keys, chosen);
    }
    ids
}

/// Two nodes with the same address are never both eligible.
pub proof fn one_eligible_node_per_address(
    ledger: LedgerModel,
    first: u64,
    second: u64,
    now: i64,
)
    requires
        governance_eligible(ledger, first, now),
        governance_eligible(ledger, second, now),
        ledger.nodes[first].ip_slot == ledger.nodes[second].ip_slot,
    ensures
        first == second,
{
    slot_owner_is_unique(ledger, first, second, now);
}

/// Whether a node may leave.
pub open spec fn may_drain(node: NodeModel) -> Outcome<()> {
    if node.status == NodeStatus::Draining || node.status == NodeStatus::Exited {
        Err("node is already draining or exited"@)
    } else if node.validator || node.validator_bond > 0 || node.validator_candidate_since is Some
        || node.validator_exit_requested_at is Some || node.validator_bond_unlock_at is Some {
        Err(
            "Validator role and Validator Bond must be fully exited and withdrawn before draining the Node"@,
        )
    } else if node.governance_bond > 0 || node.governance_bonded_at is Some
        || node.governance_exit_requested_at is Some || node.governance_bond_unlock_at is Some {
        Err(
            "Governance Bond must be fully exited and withdrawn before draining the Node"@,
        )
    } else {
        Ok(())
    }
}

/// Refuses to let a node leave that still has a role or a bond for one.
pub fn ensure_node_can_drain(node: &NodeRecord) -> (r: Result<()>)
    ensures
        outcome(r) == may_drain(node.deep_view()),
{
    if matches!(node.status, NodeStatus::Draining | NodeStatus::Exited) {
        return Err(Error::msg("node is already draining or exited"));
    }
    if node.validator || node.validator_bond > 0 || node.validator_candidate_since.is_some()
        || node.validator_exit_requested_at.is_some() || node.validator_bond_unlock_at.is_some() {
        return Err(
            Error::msg(
                "Validator role and Validator Bond must be fully exited and withdrawn before draining the Node",
            ),
        );
    }
    if node.governance_bond > 0 || node.governance_bonded_at.is_some()
        || node.governance_exit_requested_at.is_some() || node.governance_bond_unlock_at.is_some() {
        return Err(
            Error::msg(
                "Governance Bond must be fully exited and withdrawn before draining the Node",
            ),
        );
    }
    Ok(())
}

/// The node of an owner that the owner acts for: the last that has not exited, or the last.
pub open spec fn owner_node(ledger: LedgerModel, owner: Seq<char>) -> Option<u64> {
    match last_where(
        node_ids(ledger),
        |id: u64| ledger.nodes[id].owner_address == owner && ledger.nodes[id].status
            != NodeStatus::Exited,
    ) {
        Some(node_id) => Some(node_id),
        None => last_where(
            node_ids(ledger),
            |id: u64| ledger.nodes[id].owner_address == owner,
        ),
    }
}

/// Finds the node that an owner acts for.
pub fn preferred_owner_node_id(ledger: &LedgerState, owner_address: &str) -> (r: Option<u64>)
    ensures
        r == owner_node(ledger@, owner_address@),
{
    let ghost keys = ledger.nodes.keys();
    let ghost present = |id: u64|
        ledger@.nodes[id].owner_address == owner_address@ && ledger@.nodes[id].status
            != NodeStatus::Exited;
    let ghost owned = |id: u64| ledger@.nodes[id].owner_address == owner_address@;
    let mut active: Option<u64> = None;
    let mut latest: Option<u64> = None;
    let mut i: usize = 0;
    proof {
        last_where_ends(keys, present);
        last_where_ends(keys, owned);
    }
    while i < ledger.nodes.len()
        invariant
            i <= keys.len(),
            keys == ledger.nodes.keys(),
            present == (|id: u64|
                ledger@.nodes[id].owner_address == owner_address@ && ledger@.nodes[id].status
                    != NodeStatus::Exited),
            owned == (|id: u64| ledger@.nodes[id].owner_address == owner_address@),
            active == last_where(keys.take(i as int), present),
            latest == last_where(keys.take(i as int), owned),
        decreases keys.len() - i,
    {
        proof {
            last_where_step(keys, i as int, present);
            last_where_step(keys, i as int, owned);
        }
        let node = ledger.nodes.value_at(i);
        if text_same(node.owner_address.as_str(), owner_address) {
            latest = Some(*ledger.nodes.key_at(i));
            if node.status != NodeStatus::Exited {
                active = latest;
            }
        }
        i = i + 1;
    }
    match active {
        Some(node_id) => Some(node_id),
        None => latest,
    }
}

/// Whether an owner may register a node, after the node it names as its previous one.
pub open spec fn owner_may_register(
    ledger: LedgerModel,
    owner: Seq<char>,
    owner_key: Seq<char>,
    previous: Option<u64>,
) -> Outcome<()> {
    let active = first_where(
        node_ids(ledger),
        |id: u64| ledger.nodes[id].owner_address == owner && ledger.nodes[id].status
            != NodeStatus::Exited,
    );
    let latest = last_where(node_ids(ledger), |id: u64| ledger.nodes[id].owner_address == owner);
    if active is Some {
        Err(
            "Owner already controls non-EXITED Node "@ + decimal(
                ledger.nodes[active.unwrap()].node_id as nat,
            ),
        )
    } else {
        match (latest, previous) {
            (None, None) => Ok(()),
            (None, Some(_)) => Err("previous Node does not exist for this Owner"@),
            (Some(_), None) => Err(
                "Owner has prior Node history; join must continue from its latest Node ID"@,
            ),
            (Some(last), Some(named)) => {
                let node = ledger.nodes[named];
                if last != named {
                    Err("Node join must reference latest Owner Node "@ + decimal(last as nat))
                } else if named == 1 {
                    Err("Genesis Node 1 cannot join under a new Node ID"@)
                } else if node.owner_public_key != owner_key {
                    Err("previous Node Owner key does not match signer"@)
                } else if node.status != NodeStatus::Exited {
                    Err(
                        "Node "@ + decimal(named as nat)
                            + " must be EXITED before its Owner can join again"@,
                    )
                } else if node.claimable_reward != 0 || node.reward_vesting_buckets.len() != 0
                    || node.service_bond != 0 || node.governance_bond != 0 || node.validator_bond
                    != 0 {
                    Err(
                        "Node "@ + decimal(named as nat)
                            + " still has rewards or Bond balances; settle them before joining again"@,
                    )
                } else {
                    Ok(())
                }
            },
        }
    }
}

/// Checks that an owner may register a node.
pub fn validate_node_owner_registration(
    ledger: &LedgerState,
    owner_address: &str,
    owner_public_key: &str,
    previous_node_id: Option<u64>,
) -> (r: Result<()>)
    ensures
        outcome(r) == owner_may_register(
            ledger@,
            owner_address@,
            owner_public_key@,
            previous_node_id,
        ),
{
    let ghost keys = ledger.nodes.keys();
    let ghost present = |id: u64|
        ledger@.nodes[id].owner_address == owner_address@ && ledger@.nodes[id].status
            != NodeStatus::Exited;
    let ghost owned = |id: u64| ledger@.nodes[id].owner_address == owner_address@;
    let mut latest: Option<u64> = None;
    let mut i: usize = 0;
    proof {
        first_where_ends(keys, present);
        last_where_ends(keys, owned);
    }
    while i < ledger.nodes.len()
        invariant
            i <= keys.len(),
            keys == ledger.nodes.keys(),
            present == (|id: u64|
                ledger@.nodes[id].owner_address == owner_address@ && ledger@.nodes[id].status
                    != NodeStatus::Exited),
            owned == (|id: u64| ledger@.nodes[id].owner_address == owner_address@),
            first_where(keys, present) == first_where(keys.skip(i as int), present),
            latest == last_where(keys.take(i as int), owned),
        decreases keys.len() - i,
    {
        proof {
            first_where_step(keys, i as int, present);
            last_where_step(keys, i as int, owned);
        }
        let node = ledger.nodes.value_at(i);
        if text_same(node.owner_address.as_str(), owner_address) {
            if node.status != NodeStatus::Exited {
                return Err(
                    Error::owned(
                        join2(
                            "Owner already controls non-EXITED Node ",
                            u64_text(node.node_id).as_str(),
                        ),
                    ),
                );
            }
            latest = Some(*ledger.nodes.key_at(i));
        }
        i = i + 1;
    }
    proof {
        first_where_ends(keys, present);
        last_where_found(keys, owned);
        last_where_ends(keys, owned);
    }
    let (last, named): (u64, u64) = match (latest, previous_node_id) {
        (None, None) => {
            return Ok(());
        },
        (None, Some(_)) => {
            return Err(Error::msg("previous Node does not exist for this Owner"));
        },
        (Some(_), None) => {
            return Err(
                Error::msg(
                    "Owner has prior Node history; join must continue from its latest Node ID",
                ),
            );
        },
        (Some(last), Some(named)) => (last, named),
    };
    if last != named {
        return Err(
            Error::owned(
                join2("Node join must reference latest Owner Node ", u64_text(last).as_str()),
            ),
        );
    }
    if named == 1 {
        return Err(Error::msg("Genesis Node 1 cannot join under a new Node ID"));
    }
    let previous = match ledger.nodes.get(&named) {
        Some(previous) => previous,
        None => {
            return Ok(());
        },
    };
    if !text_same(previous.owner_public_key.as_str(), owner_public_key) {
        return Err(Error::msg("previous Node Owner key does not match signer"));
    }
    if previous.status != NodeStatus::Exited {
        return Err(
            Error::owned(
                join3(
                    "Node ",
                    u64_text(named).as_str(),
                    " must be EXITED before its Owner can join again",
                ),
            ),
        );
    }
    if previous.claimable_reward != 0 || previous.reward_vesting_buckets.len() != 0
        || previous.service_bond != 0 || previous.governance_bond != 0 || previous.validator_bond
        != 0 {
        return Err(
            Error::owned(
                join3(
                    "Node ",
                    u64_text(named).as_str(),
                    " still has rewards or Bond balances; settle them before joining again",
                ),
            ),
        );
    }
    Ok(())
}

/// How a node begins: the first node at once, every other after its warm-up.
pub open spec fn lifecycle_begun(node_id: u64, registered_at: i64, warmup_seconds: i64) -> Outcome<
    (NodeStatus, i64, Option<i64>),
> {
    if node_id == 1 {
        Ok((NodeStatus::Active, registered_at, Some(registered_at)))
    } else if i64::MIN <= registered_at + warmup_seconds <= i64::MAX {
        Ok((NodeStatus::WarmingUp, (registered_at + warmup_seconds) as i64, None))
    } else {
        Err("Node warmup boundary overflow"@)
    }
}

pub fn initial_node_lifecycle(node_id: u64, registered_at: i64, warmup_seconds: i64) -> (r: Result<
    (NodeStatus, i64, Option<i64>),
>)
    ensures
        outcome(r) == lifecycle_begun(node_id, registered_at, warmup_seconds),
{
    if node_id == 1 {
        return Ok((NodeStatus::Active, registered_at, Some(registered_at)));
    }
    match registered_at.checked_add(warmup_seconds) {
        Some(warmup_until) => Ok((NodeStatus::WarmingUp, warmup_until, None)),
        None => Err(Error::msg("Node warmup boundary overflow")),
    }
}

/// The node, other than the one named, that has an endpoint already.
pub open spec fn endpoint_holder(
    ledger: LedgerModel,
    endpoint: Seq<char>,
    except: Option<u64>,
) -> Option<u64> {
    first_where(
        node_ids(ledger),
        |id: u64|
            Some(ledger.nodes[id].node_id) != except && ledger.nodes[id].status
                != NodeStatus::Exited && ledger.nodes[id].endpoint == endpoint,
    )
}

pub open spec fn endpoint_available(
    ledger: LedgerModel,
    endpoint: Seq<char>,
    except: Option<u64>,
) -> Outcome<()> {
    match endpoint_holder(ledger, endpoint, except) {
        None => Ok(()),
        Some(holder) => Err(
            "WSS endpoint is already registered by Node "@ + decimal(
                ledger.nodes[holder].node_id as nat,
            ),
        ),
    }
}

/// Refuses an endpoint that another node has.
pub fn ensure_node_endpoint_available(
    ledger: &LedgerState,
    endpoint: &str,
    current_node_id: Option<u64>,
) -> (r: Result<()>)
    ensures
        outcome(r) == endpoint_available(ledger@, endpoint@, current_node_id),
{
    let ghost keys = ledger.nodes.keys();
    let ghost taken = |id: u64|
        Some(ledger@.nodes[id].node_id) != current_node_id && ledger@.nodes[id].status
            != NodeStatus::Exited && ledger@.nodes[id].endpoint == endpoint@;
    let mut i: usize = 0;
    proof {
        first_where_ends(keys, taken);
    }
    while i < ledger.nodes.len()
        invariant
            i <= keys.len(),
            keys == ledger.nodes.keys(),
            taken == (|id: u64|
                Some(ledger@.nodes[id].node_id) != current_node_id && ledger@.nodes[id].status
                    != NodeStatus::Exited && ledger@.nodes[id].endpoint == endpoint@),
            first_where(keys, taken) == first_where(keys.skip(i as int), taken),
        decreases keys.len() - i,
    {
        proof {
            first_where_step(keys, i as int, taken);
        }
        let node = ledger.nodes.value_at(i);
        let is_current = match current_node_id {
            Some(current) => node.node_id == current,
            None => false,
        };
        if !is_current && node.status != NodeStatus::Exited && text_same(
            node.endpoint.as_str(),
            endpoint,
        ) {
            return Err(
                Error::owned(
                    join2(
                        "WSS endpoint is already registered by Node ",
                        u64_text(node.node_id).as_str(),
                    ),
                ),
            );
        }
        i = i + 1;
    }
    proof {
        first_where_ends(keys, taken);
    }
    Ok(())
}

pub open spec fn price_checked(price_per_gib: u128) -> Outcome<u128> {
    if price_per_gib > MAX_SUPPLY {
        Err("price per GiB must not exceed MAX_SUPPLY"@)
    } else {
        Ok(price_per_gib)
    }
}

pub fn validate_price_per_gib(price_per_gib: u128) -> (r: Result<u128>)
    ensures
        outcome(r) == price_checked(price_per_gib),
{
    if price_per_gib > MAX_SUPPLY {
        return Err(Error::msg("price per GiB must not exceed MAX_SUPPLY"));
    }
    Ok(price_per_gib)
}

/// Whether clients can use a node as a relay.
pub open spec fn relays(ledger: LedgerModel, node_id: u64, now: i64) -> bool {
    &&& ledger.nodes[node_id].status == NodeStatus::Active
    &&& owns_slot_at(ledger, node_id, now)
    &&& probe_fresh(ledger.nodes[node_id], ledger.settings, now)
}

/// The prices of the nodes that relay.
pub open spec fn relay_prices(ledger: LedgerModel, now: i64) -> Seq<u128> {
    node_ids(ledger).filter(|node_id: u64| relays(ledger, node_id, now)).map_values(
        |node_id: u64| ledger.nodes[node_id].price_per_gib,
    )
}

/// The middle of some prices, or the mean of the two in the middle, rounded down.
pub open spec fn median_price(prices: Seq<u128>) -> u128 {
    let sorted = arranged::<u128>(prices);
    let middle = sorted.len() as int / 2;
    if sorted.len() == 0 {
        DEFAULT_RELAY_PRICE_PER_GIB
    } else if sorted.len() % 2 == 1 {
        sorted[middle]
    } else {
        (sorted[middle - 1] + (sorted[middle] - sorted[middle - 1]) / 2) as u128
    }
}

/// Whether a node relays, for a node of the registry.
pub fn node_relays(ledger: &LedgerState, node_id: u64, node: &NodeRecord, now: i64) -> (r: bool)
    requires
        ledger@.nodes.contains_key(node_id),
        node.deep_view() == ledger@.nodes[node_id],
    ensures
        r == relays(ledger@, node_id, now),
{
    node.status == NodeStatus::Active && node_owns_ip_slot_at(ledger, node_id, now)
        && probe_is_fresh(node, &ledger.settings, now)
}

proof fn sorted_prices_ascend(items: Seq<u128>)
    ensures
        forall|i: int, j: int|
            #![trigger arranged::<u128>(items)[i], arranged::<u128>(items)[j]]
            0 <= i < j < items.len() ==> arranged::<u128>(items)[i] <= arranged::<u128>(items)[j],
        arranged::<u128>(items).len() == items.len(),
    decreases items.len(),
{
    if items.len() > 0 {
        let earlier = arranged::<u128>(items.drop_last());
        sorted_prices_ascend(items.drop_last());
        let item = items.last();
        let at = crate::sequence::place::<u128>(earlier, item);
        crate::sequence::place_bounds::<u128>(earlier, item);
        let all = earlier.insert(at, item);
        assert forall|i: int, j: int|
            #![trigger all[i], all[j]]
            0 <= i < j < all.len() implies all[i] <= all[j] by {
            if i < at {
                assert(all[i] == earlier[i]);
                if j == at && i < at - 1 {
                    assert(earlier[i] <= earlier[at - 1]);
                } else if j > at {
                    assert(all[j] == earlier[j - 1]);
                } else if j < at {
                    assert(all[j] == earlier[j]);
                }
            } else if i == at {
                assert(all[j] == earlier[j - 1]);
            } else {
                assert(all[i] == earlier[i - 1] && all[j] == earlier[j - 1]);
            }
        }
    }
}

/// The price that the network asks for relayed traffic.
pub fn network_median_price_per_gib(ledger: &LedgerState, now: i64) -> (r: u128)
    ensures
        r == median_price(relay_prices(ledger@, now)),
{
    let ghost keys = ledger.nodes.keys();
    let ghost chosen = |node_id: u64| relays(ledger@, node_id, now);
    let ghost price = |node_id: u64| ledger@.nodes[node_id].price_per_gib;
    let mut prices: Vec<u128> = Vec::new();
    let mut i: usize = 0;
    proof {
        filter_ends(keys, chosen);
        assert(prices@ =~= Seq::<u64>::empty().map_values(price));
    }
    while i < ledger.nodes.len()
        invariant
            i <= keys.len(),
            keys == ledger.nodes.keys(),
            chosen == (|node_id: u64| relays(ledger@, node_id, now)),
            price == (|node_id: u64| ledger@.nodes[node_id].price_per_gib),
            prices@ == keys.take(i as int).filter(chosen).map_values(price),
        decreases keys.len() - i,
    {
        let node_id: u64 = *ledger.nodes.key_at(i);
        let node = ledger.nodes.value_at(i);
        proof {
            filter_step(keys, i as int, chosen);
        }
        let ghost before = keys.take(i as int).filter(chosen);
        if node_relays(ledger, node_id, node, now) {
            prices.push(node.price_per_gib);
            assert(prices@ =~= before.push(keys[i as int]).map_values(price));
        }
        i = i + 1;
    }
    proof {
        filter_ends(keys, chosen);
    }
    assert(prices.deep_view() =~= prices@);
    let sorted = arrange(&prices);
    assert(sorted.deep_view() =~= sorted@);
    proof {
        sorted_prices_ascend(prices@);
    }
    if sorted.len() == 0 {
        return DEFAULT_RELAY_PRICE_PER_GIB;
    }
    let middle: usize = sorted.len() / 2;
    if sorted.len() % 2 == 1 {
        sorted[middle]
    } else {
        let lower: u128 = sorted[middle - 1];
        assert(lower <= sorted@[middle as int]);
        lower + (sorted[middle] - lower) / 2
    }
}

/// The ledger after a node has asked another price.
pub open spec fn price_updated(ledger: LedgerModel, node_id: u64, price: u128) -> Outcome<
    LedgerModel,
> {
    match price_checked(price) {
        Err(refusal) => Err(refusal),
        Ok(_) => if !ledger.nodes.contains_key(node_id) {
            Err("registered node is missing from the ledger"@)
        } else if ledger.nodes[node_id].status == NodeStatus::Draining
            || ledger.nodes[node_id].status == NodeStatus::Exited {
            Err("price cannot be updated while the node is draining or exited"@)
        } else {
            Ok(
                LedgerModel {
                    nodes: ledger.nodes.insert(
                        node_id,
                        NodeModel { price_per_gib: price, ..ledger.nodes[node_id] },
                    ),
                    ..ledger
                },
            )
        },
    }
}

/// Sets the price that a node asks.
pub fn apply_node_price_update(
    ledger: &mut LedgerState,
    node_id: u64,
    price_per_gib: u128,
) -> (r: Result<()>)
    ensures
        match price_updated(old(ledger)@, node_id, price_per_gib) {
            Ok(updated) => r is Ok && final(ledger)@ == updated,
            Err(refusal) => (r matches Err(error) && error@ == refusal) && final(ledger)@ == old(
                ledger,
            )@,
        },
{
    let price = validate_price_per_gib(price_per_gib)?;
    let refused = match ledger.nodes.get(&node_id) {
        None => {
            return Err(Error::msg("registered node is missing from the ledger"));
        },
        Some(node) => matches!(node.status, NodeStatus::Draining | NodeStatus::Exited),
    };
    if refused {
        return Err(Error::msg("price cannot be updated while the node is draining or exited"));
    }
    if let Some(node) = ledger.nodes.get_mut(&node_id) {
        node.price_per_gib = price;
    }
    Ok(())
}

/// The ledger after every active node has been given a heartbeat.
pub open spec fn heartbeats_reset(ledger: LedgerModel, now: i64) -> LedgerModel {
    LedgerModel {
        nodes: ledger.nodes.map_values(
            |node: NodeModel|
                if node.status == NodeStatus::Active {
                    NodeModel { last_heartbeat: Some(now), ..node }
                } else {
                    node
                },
        ),
        ..ledger
    }
}

/// Gives every active node a heartbeat.
pub fn reset_active_heartbeats(ledger: &mut LedgerState, now: i64)
    ensures
        final(ledger)@ == heartbeats_reset(old(ledger)@, now),
{
    let ghost before = ledger@;
    let ghost keys = ledger.nodes.keys();
    let mut i: usize = 0;
    let count: usize = ledger.nodes.len();
    while i < count
        invariant
            i <= count,
            count == keys.len(),
            before == old(ledger)@,
            keys == ordered::<u64>(before.nodes.dom()),
            ledger@.nodes.dom() == before.nodes.dom(),
            ledger@ == (LedgerModel { nodes: ledger@.nodes, ..before }),
            keys.no_duplicates(),
            forall|j: int|
                0 <= j < count ==> before.nodes.contains_key(#[trigger] keys[j])
                    && ledger@.nodes[keys[j]] == if j < i && before.nodes[keys[j]].status
                    == NodeStatus::Active {
                    NodeModel { last_heartbeat: Some(now), ..before.nodes[keys[j]] }
                } else {
                    before.nodes[keys[j]]
                },
        decreases count - i,
    {
        let node = ledger.nodes.value_at_mut(i);
        if matches!(node.status, NodeStatus::Active) {
            node.last_heartbeat = Some(now);
        }
        i = i + 1;
    }
    proof {
        assert forall|k: u64| #[trigger] before.nodes.contains_key(k) implies ledger@.nodes[k]
            == heartbeats_reset(before, now).nodes[k] by {
            assert(keys.contains(k));
            let j = choose|j: int| 0 <= j < keys.len() && keys[j] == k;
            assert(keys[j] == k);
        }
        assert(ledger@.nodes =~= heartbeats_reset(before, now).nodes);
    }
}

/// A node that begins to leave has no part in the committee and holds no bond for a role.
pub proof fn leaving_nodes_hold_no_roles(node: NodeModel)
    requires
        may_drain(node) is Ok,
    ensures
        !node.validator,
        node.validator_bond == 0,
        node.governance_bond == 0,
        node.status != NodeStatus::Exited,
{
}

/// An owner has at most one node in service, and comes back only after everything that the latest
/// node had has been paid out.
pub proof fn owners_return_when_settled(
    ledger: LedgerModel,
    owner: Seq<char>,
    owner_key: Seq<char>,
    previous: Option<u64>,
    node_id: u64,
)
    requires
        owner_may_register(ledger, owner, owner_key, previous) is Ok,
        ledger.nodes.dom().finite(),
        ledger.nodes.contains_key(node_id),
        ledger.nodes[node_id].owner_address == owner,
    ensures
        ledger.nodes[node_id].status == NodeStatus::Exited,
        previous matches Some(named) && named != 1 && {
            let latest = ledger.nodes[named];
            &&& latest.owner_address == owner
            &&& latest.owner_public_key == owner_key
            &&& latest.claimable_reward == 0
            &&& latest.reward_vesting_buckets.len() == 0
            &&& latest.service_bond == 0
            &&& latest.governance_bond == 0
            &&& latest.validator_bond == 0
        },
{
    let keys = node_ids(ledger);
    let present = |id: u64|
        ledger.nodes[id].owner_address == owner && ledger.nodes[id].status != NodeStatus::Exited;
    let owned = |id: u64| ledger.nodes[id].owner_address == owner;
    crate::table::ordered_lists_all::<u64>(ledger.nodes.dom());
    crate::sequence::first_where_found(keys, present);
    crate::sequence::last_where_found(keys, owned);
    assert(keys.contains(node_id));
    let i = choose|i: int| 0 <= i < keys.len() && keys[i] == node_id;
    assert(!present(keys[i]));
    assert(owned(keys[i]));
}

/// A slot that a node has given up stays empty until the cooldown is over, and can be bound by any node
/// from then on.
pub proof fn released_slots_cool_down(
    ledger: LedgerModel,
    owner: u64,
    released_at: i64,
    other: u64,
    at: i64,
)
    requires
        ledger.nodes.contains_key(owner),
        slot_held(ledger, ledger.nodes[owner].ip_slot, owner),
        i64::MIN <= at - released_at <= i64::MAX,
        0 <= ledger.settings.ip_reuse_cooldown_seconds,
    ensures
        ({
            let slot = ledger.nodes[owner].ip_slot;
            let empty = slot_released(ledger, owner, released_at);
            let next = slot_bound(empty, slot, other, at);
            &&& !slot_held(empty, slot, owner)
            &&& at - released_at < ledger.settings.ip_reuse_cooldown_seconds ==> next == empty
                && !slot_held(next, slot, other)
            &&& at - released_at >= ledger.settings.ip_reuse_cooldown_seconds ==> slot_held(
                next,
                slot,
                other,
            ) && next.ip_slots[slot].bound_at == at
            &&& forall|elsewhere: Seq<char>|
                elsewhere != slot ==> #[trigger] next.ip_slots.contains_key(elsewhere)
                    == ledger.ip_slots.contains_key(elsewhere) && next.ip_slots[elsewhere]
                    == ledger.ip_slots[elsewhere]
        }),
{
}

/// A node counts in governance only while it serves: it is active, has held the slot of its own
/// address since before, has its bonds in place and its service time behind it, and has been reached
/// within the validity of a probe. A node that meets all this does count.
pub proof fn only_serving_nodes_count(ledger: LedgerModel, node_id: u64, now: i64)
    requires
        ledger.nodes.contains_key(node_id),
        ledger.nodes[node_id].last_probe_success matches Some(at) ==> now - at <= i64::MAX,
    ensures
        ({
            let node = ledger.nodes[node_id];
            let settings = ledger.settings;
            governance_eligible(ledger, node_id, now) <==> {
                &&& node.status == NodeStatus::Active
                &&& ledger.ip_slots.contains_key(node.ip_slot)
                &&& ledger.ip_slots[node.ip_slot].node_id == node_id
                &&& ledger.ip_slots[node.ip_slot].released_at is None
                &&& ledger.ip_slots[node.ip_slot].bound_at <= now
                &&& settings.required_service_bond <= node.service_bond
                &&& settings.governance_min_service_seconds <= node.total_eligible_seconds
                &&& node.last_probe_success matches Some(at) && at <= now && now - at
                    <= settings.probe_validity_seconds
                &&& settings.required_governance_bond > 0 ==> {
                    &&& settings.required_governance_bond <= node.governance_bond
                    &&& node.governance_exit_requested_at is None
                    &&& node.governance_bonded_at matches Some(bonded_at) && {
                        let since = bonded_at + settings.governance_bond_maturity_seconds;
                        i64::MIN <= since <= i64::MAX && since <= now
                    }
                }
            }
        }),
{
}

/// Time alone brings a governance bond to maturity and lets a probe go stale: a bond that is mature
/// stays so, and a probe that is stale stays so.
pub proof fn bonds_mature_and_probes_go_stale(
    node: NodeModel,
    settings: LedgerSettings,
    now: i64,
    later: i64,
)
    requires
        now <= later,
        node.last_probe_success matches Some(at) ==> at <= now && later - at <= i64::MAX,
    ensures
        bond_mature(node, settings, now) ==> bond_mature(node, settings, later),
        probe_fresh(node, settings, later) ==> probe_fresh(node, settings, now),
{
}

/// The median of some prices lies in their middle: there are two of the prices, or one twice, of which
/// it is the mean, rounded down, such that half of all prices are no higher than the one and half no
/// lower than the other. Where nobody relays it is a fiftieth of an MRK.
pub proof fn medians_lie_in_the_middle(prices: Seq<u128>) -> (around: (u128, u128))
    ensures
        prices.len() > 0 ==> {
            let (low, high) = around;
            let median = median_price(prices);
            &&& prices.contains(low) && prices.contains(high)
            &&& low <= median <= high
            &&& 2 * median <= low + high < 2 * median + 2
            &&& 2 * prices.filter(|price: u128| price <= low).len() >= prices.len()
            &&& 2 * prices.filter(|price: u128| price >= high).len() >= prices.len()
            &&& prices.len() % 2 == 1 ==> low == high
        },
        prices.len() == 0 ==> median_price(prices) == 20_000_000,
{
    let sorted = arranged::<u128>(prices);
    crate::sequence::arranged_keeps_items::<u128>(prices);
    crate::sequence::arranged_are_in_order::<u128>(prices);
    let middle = sorted.len() as int / 2;
    if prices.len() == 0 {
        (0, 0)
    } else {
        broadcast use vstd::seq_lib::group_to_multiset_ensures;

        let first = if sorted.len() % 2 == 1 {
            middle
        } else {
            middle - 1
        };
        let (low, high) = (sorted[first], sorted[middle]);
        assert(sorted.contains(low) && sorted.contains(high));
        assert(sorted.to_multiset().count(low) > 0 && sorted.to_multiset().count(high) > 0);
        assert(prices.contains(low) && prices.contains(high));
        if first < middle {
            assert(!<u128 as crate::sequence::Ranked>::precedes(sorted[middle], sorted[first]));
        }
        let below = |price: u128| price <= low;
        let above = |price: u128| price >= high;
        assert forall|i: int| 0 <= i < first + 1 implies below(#[trigger] sorted[i]) by {
            if i < first {
                assert(!<u128 as crate::sequence::Ranked>::precedes(sorted[first], sorted[i]));
            }
        }
        assert forall|i: int| middle <= i < sorted.len() implies above(#[trigger] sorted[i]) by {
            if middle < i {
                assert(!<u128 as crate::sequence::Ranked>::precedes(sorted[i], sorted[middle]));
            }
        }
        crate::sequence::ranges_are_counted(sorted, 0, first + 1, below);
        crate::sequence::ranges_are_counted(sorted, middle, sorted.len() as int, above);
        crate::sequence::arranged_keep_their_count::<u128>(prices, below);
        crate::sequence::arranged_keep_their_count::<u128>(prices, above);
        (low, high)
    }
}

/// Clients use the nodes as relays that are active, have held the slot of their own address since
/// before, and have been reached within the validity of a probe; a bond or a time in service is not
/// asked for.
pub proof fn reachable_nodes_relay(ledger: LedgerModel, node_id: u64, now: i64)
    requires
        ledger.nodes.contains_key(node_id),
        ledger.nodes[node_id].last_probe_success matches Some(at) ==> now - at <= i64::MAX,
    ensures
        relays(ledger, node_id, now) <==> {
            let node = ledger.nodes[node_id];
            &&& node.status == NodeStatus::Active
            &&& ledger.ip_slots.contains_key(node.ip_slot)
            &&& ledger.ip_slots[node.ip_slot].node_id == node_id
            &&& ledger.ip_slots[node.ip_slot].released_at is None
            &&& ledger.ip_slots[node.ip_slot].bound_at <= now
            &&& node.last_probe_success matches Some(at) && at <= now && now - at
                <= ledger.settings.probe_validity_seconds
        },
        governance_eligible(ledger, node_id, now) ==> relays(ledger, node_id, now),
{
}

/// The first node begins at once, every other one when its warm-up is over.
pub proof fn nodes_begin_with_a_warm_up(node_id: u64, registered_at: i64, warmup_seconds: i64)
    requires
        i64::MIN <= registered_at + warmup_seconds <= i64::MAX,
    ensures
        lifecycle_begun(node_id, registered_at, warmup_seconds) matches Ok(begun) && {
            &&& node_id == 1 ==> begun.0 == NodeStatus::Active && begun.1 == registered_at && begun.2
                == Some(registered_at)
            &&& node_id != 1 ==> begun.0 == NodeStatus::WarmingUp && begun.1 == registered_at
                + warmup_seconds && begun.2 is None
        },
{
}

/// An endpoint can be taken exactly if no other node that is still there has it.
pub proof fn endpoints_belong_to_one_node(
    ledger: LedgerModel,
    endpoint: Seq<char>,
    except: Option<u64>,
)
    requires
        ledger.nodes.dom().finite(),
    ensures
        endpoint_available(ledger, endpoint, except) is Ok <==> forall|id: u64| #[trigger]
            ledger.nodes.contains_key(id) && ledger.nodes[id].status != NodeStatus::Exited
                && Some(ledger.nodes[id].node_id) != except ==> ledger.nodes[id].endpoint != endpoint,
{
    let held = |id: u64|
        Some(ledger.nodes[id].node_id) != except && ledger.nodes[id].status != NodeStatus::Exited
            && ledger.nodes[id].endpoint == endpoint;
    let keys = node_ids(ledger);
    crate::table::ordered_lists_all::<u64>(ledger.nodes.dom());
    crate::sequence::first_where_found(keys, held);
    if endpoint_available(ledger, endpoint, except) is Ok {
        assert forall|id: u64| #[trigger]
            ledger.nodes.contains_key(id) && ledger.nodes[id].status != NodeStatus::Exited
                && Some(ledger.nodes[id].node_id) != except implies ledger.nodes[id].endpoint
            != endpoint by {
            assert(keys.contains(id));
            let i = choose|i: int| 0 <= i < keys.len() && keys[i] == id;
            assert(!held(keys[i]));
        }
    } else {
        let id = first_where(keys, held).unwrap();
        assert(keys.contains(id));
        assert(ledger.nodes.contains_key(id));
    }
}

/// A node changes its price while it is in service, and nothing else of it changes.
pub proof fn prices_change_alone(ledger: LedgerModel, node_id: u64, price: u128)
    requires
        price_updated(ledger, node_id, price) is Ok,
    ensures
        ({
            let after = price_updated(ledger, node_id, price)->Ok_0;
            let node = ledger.nodes[node_id];
            &&& after.nodes[node_id].price_per_gib == price
            &&& price <= 1_000_000_000_000_000_000
            &&& node.status != NodeStatus::Draining && node.status != NodeStatus::Exited
            &&& after.nodes[node_id].status == node.status
            &&& after.nodes[node_id].service_bond == node.service_bond
            &&& after.nodes[node_id].endpoint == node.endpoint
            &&& after.nodes[node_id].reward_address == node.reward_address
            &&& forall|other: u64|
                other != node_id ==> #[trigger] after.nodes[other] == ledger.nodes[other]
            &&& after.accounts == ledger.accounts
        }),
{
}

} // verus!
