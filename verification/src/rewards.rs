use vstd::prelude::*;

use crate::epochs::{epoch_closed, epoch_context, epochs_advanced, turn_epochs_until};
use crate::error::{Error, Outcome, Result};
use crate::model::{
    AvailabilitySlotRecord, ContextModel, EpochContext, LedgerModel, LedgerState, NodeModel,
    NodeRecord, SlotModel,
};
use crate::nodes::node_ids;
use crate::number::{least, min_u128};
use crate::protocol::{BPS_DENOMINATOR, NODE1_SINGLE_PRODUCER_WEIGHT_BPS};
use crate::sequence::{
    arrange, arranged, contains_id, filter_ends, filter_step, place, place_bounds, Ranked,
};
use crate::table::{ordered, Replicate, Table};
use crate::vesting::{
    add_node_reward_vesting, buckets_total, settle_node_reward_vesting, vesting_added,
    settling_moves_matured_rewards, vesting_keeps_every_unit, vesting_settled,
};

verus! {

/// The weight of a node's time in basis points: more for the first node while it makes the blocks
/// alone, more for a validator with a bonus, but never both.
pub open spec fn weight_bps(node_id: u64, context: ContextModel) -> u32 {
    if node_id == 1 && context.node1_single_producer {
        NODE1_SINGLE_PRODUCER_WEIGHT_BPS
    } else if context.validator_bonus_ids.contains(node_id) {
        context.settings.validator_weight_bps
    } else {
        10_000
    }
}

pub fn node_reward_weight_bps(node_id: u64, context: &EpochContext) -> (r: u32)
    ensures
        r == weight_bps(node_id, context.deep_view()),
{
    if node_id == 1 && context.node1_single_producer {
        NODE1_SINGLE_PRODUCER_WEIGHT_BPS
    } else if contains_id(&context.validator_bonus_ids, node_id) {
        context.settings.validator_weight_bps
    } else {
        10_000
    }
}

/// The ledger after every node has been given what has matured, in ascending order.
pub open spec fn rewards_matured(ledger: LedgerModel, ids: Seq<u64>, at: i64) -> Outcome<LedgerModel>
    decreases ids.len(),
{
    if ids.len() == 0 {
        Ok(ledger)
    } else {
        match vesting_settled(ledger.nodes[ids[0]], at) {
            Err(refusal) => Err(refusal),
            Ok(node) => rewards_matured(
                LedgerModel { nodes: ledger.nodes.insert(ids[0], node), ..ledger },
                ids.drop_first(),
                at,
            ),
        }
    }
}

/// Gives every node what has matured.
/// On a refusal the ledger may be left half-way.
fn mature_rewards(ledger: &mut LedgerState, epoch_end: i64) -> (r: Result<()>)
    ensures
        match rewards_matured(old(ledger)@, node_ids(old(ledger)@), epoch_end) {
            Ok(next) => r is Ok && final(ledger)@ == next,
            Err(refusal) => r matches Err(error) && error@ == refusal,
        },
        final(ledger)@.nodes.dom() == old(ledger)@.nodes.dom(),
{
    let ghost first = ledger@;
    let ghost ids = node_ids(ledger@);
    let count: usize = ledger.nodes.len();
    let mut i: usize = 0;
    assert(ids.skip(0) =~= ids);
    while i < count
        invariant
            i <= count,
            count == ids.len(),
            first == old(ledger)@,
            ids == node_ids(first),
            ledger@.nodes.dom() == first.nodes.dom(),
            rewards_matured(first, ids, epoch_end) == rewards_matured(
                ledger@,
                ids.skip(i as int),
                epoch_end,
            ),
        decreases count - i,
    {
        assert(ids.skip(i as int).drop_first() =~= ids.skip(i as int + 1));
        let node = ledger.nodes.value_at_mut(i);
        let settled = settle_node_reward_vesting(node, epoch_end);
        match settled {
            Ok(_) => {},
            Err(error) => {
                return Err(error);
            },
        }
        i = i + 1;
    }
    Ok(())
}

/// Gives every node what has matured.
pub fn settle_reward_vesting(ledger: &mut LedgerState, epoch_end: i64) -> (r: Result<()>)
    ensures
        match rewards_matured(old(ledger)@, node_ids(old(ledger)@), epoch_end) {
            Ok(next) => r is Ok && final(ledger)@ == next,
            Err(refusal) => final(ledger)@ == old(ledger)@ && (r matches Err(error) && error@
                == refusal),
        },
        final(ledger)@.nodes.dom() == old(ledger)@.nodes.dom(),
{
    let mut next = ledger.copy();
    mature_rewards(&mut next, epoch_end)?;
    *ledger = next;
    Ok(())
}

/// A node's claim to a part of an epoch's budget.
#[derive(Clone, Copy, Debug, PartialEq, Eq, Structural)]
pub struct Weight {
    pub node_id: u64,
    pub weight: u128,
}

/// A node's part of an epoch's budget, and what was lost to rounding.
#[derive(Clone, Copy, Debug, PartialEq, Eq, Structural)]
pub struct Allocation {
    pub node_id: u64,
    pub reward: u128,
    pub remainder: u128,
}

impl DeepView for Allocation {
    type V = Allocation;

    open spec fn deep_view(&self) -> Allocation {
        *self
    }
}

impl Replicate for Allocation {
    fn replicate(&self) -> (r: Allocation) {
        *self
    }
}

impl Ranked for Allocation {
    /// The larger remainder comes first; among equal ones, the lower identifier.
    open spec fn precedes(a: Allocation, b: Allocation) -> bool {
        a.remainder > b.remainder || (a.remainder == b.remainder && a.node_id < b.node_id)
    }

    fn comes_before(&self, other: &Allocation) -> (r: bool) {
        self.remainder > other.remainder || (self.remainder == other.remainder && self.node_id
            < other.node_id)
    }
}

/// The seconds of an epoch for which a node was reachable.
pub open spec fn eligible_seconds(node: NodeModel, epoch: u64) -> u64 {
    if node.eligible_seconds_by_epoch.contains_key(epoch) {
        node.eligible_seconds_by_epoch[epoch]
    } else {
        0
    }
}

pub open spec fn weights_total(weights: Seq<Weight>) -> nat
    decreases weights.len(),
{
    if weights.len() == 0 {
        0
    } else {
        weights_total(weights.drop_last()) + weights.last().weight as nat
    }
}

/// The claims of some nodes, added to those that are known already.
pub open spec fn weighed(
    ledger: LedgerModel,
    context: ContextModel,
    ids: Seq<u64>,
    known: Seq<Weight>,
) -> Outcome<Seq<Weight>>
    decreases ids.len(),
{
    if ids.len() == 0 {
        Ok(known)
    } else {
        let seconds = eligible_seconds(ledger.nodes[ids[0]], context.epoch);
        let weight = seconds * weight_bps(ids[0], context);
        if seconds > context.settings.epoch_seconds {
            Err("Node eligible seconds exceed the current Epoch duration"@)
        } else if weight == 0 {
            weighed(ledger, context, ids.drop_first(), known)
        } else if weights_total(known) + weight > u128::MAX {
            Err("total Node reward weight overflow"@)
        } else {
            weighed(
                ledger,
                context,
                ids.drop_first(),
                known.push(Weight { node_id: ids[0], weight: weight as u128 }),
            )
        }
    }
}

fn weigh_nodes(ledger: &LedgerState, context: &EpochContext) -> (r: Result<(Vec<Weight>, u128)>)
    requires
        context.settings.epoch_seconds >= 0,
    ensures
        match weighed(ledger@, context.deep_view(), node_ids(ledger@), Seq::empty()) {
            Ok(weights) => r matches Ok(found) && found.0@ == weights && found.1 == weights_total(
                weights,
            ),
            Err(refusal) => r matches Err(error) && error@ == refusal,
        },
{
    let epoch_seconds: u64 = context.settings.epoch_seconds as u64;
    let ghost ids = node_ids(ledger@);
    let ghost bound = context.deep_view();
    let mut weights: Vec<Weight> = Vec::new();
    let mut total: u128 = 0;
    let mut i: usize = 0;
    assert(ids.skip(0) =~= ids);
    assert(weights@ =~= Seq::<Weight>::empty());
    while i < ledger.nodes.len()
        invariant
            i <= ids.len(),
            ids == node_ids(ledger@),
            bound == context.deep_view(),
            epoch_seconds == bound.settings.epoch_seconds,
            total == weights_total(weights@),
            weighed(ledger@, bound, ids, Seq::empty()) == weighed(
                ledger@,
                bound,
                ids.skip(i as int),
                weights@,
            ),
        decreases ids.len() - i,
    {
        assert(ids.skip(i as int).drop_first() =~= ids.skip(i as int + 1));
        let node_id: u64 = *ledger.nodes.key_at(i);
        let node = ledger.nodes.value_at(i);
        let seconds: u64 = match node.eligible_seconds_by_epoch.get(&context.epoch) {
            Some(seconds) => *seconds,
            None => 0,
        };
        if seconds > epoch_seconds {
            return Err(Error::msg("Node eligible seconds exceed the current Epoch duration"));
        }
        let factor: u32 = node_reward_weight_bps(node_id, context);
        assert(seconds * factor <= u64::MAX * u32::MAX) by (nonlinear_arith)
            requires
                seconds <= u64::MAX,
                factor <= u32::MAX,
        ;
        let weight: u128 = seconds as u128 * factor as u128;
        if weight > 0 {
            match total.checked_add(weight) {
                None => {
                    return Err(Error::msg("total Node reward weight overflow"));
                },
                Some(sum) => {
                    total = sum;
                },
            }
            let ghost before = weights@;
            weights.push(Weight { node_id, weight });
            assert(weights@.drop_last() =~= before);
        }
        i = i + 1;
    }
    Ok((weights, total))
}

pub open spec fn rewards_total(allocations: Seq<Allocation>) -> nat
    decreases allocations.len(),
{
    if allocations.len() == 0 {
        0
    } else {
        rewards_total(allocations.drop_last()) + allocations.last().reward as nat
    }
}

/// The parts that some claims give, rounded down, added to those that are known already.
pub open spec fn shared(
    weights: Seq<Weight>,
    budget: u128,
    total: u128,
    known: Seq<Allocation>,
) -> Outcome<Seq<Allocation>>
    decreases weights.len(),
{
    if weights.len() == 0 {
        Ok(known)
    } else {
        let weight = weights[0].weight;
        if (budget / total) * weight > u128::MAX {
            Err("Node reward calculation overflow"@)
        } else if (budget % total) * weight > u128::MAX {
            Err("Node fractional reward calculation overflow"@)
        } else if budget * weight / total as int > u128::MAX {
            Err("Node reward calculation overflow"@)
        } else if rewards_total(known) + budget * weight / total as int > u128::MAX {
            Err("Node reward allocation overflow"@)
        } else {
            shared(
                weights.drop_first(),
                budget,
                total,
                known.push(
                    Allocation {
                        node_id: weights[0].node_id,
                        reward: (budget * weight / total as int) as u128,
                        remainder: (budget * weight % total as int) as u128,
                    },
                ),
            )
        }
    }
}

proof fn share_split(budget: int, weight: int, total: int)
    requires
        budget >= 0,
        weight >= 0,
        total > 0,
    ensures
        budget * weight / total == (budget / total) * weight + ((budget % total) * weight) / total,
        budget * weight % total == ((budget % total) * weight) % total,
        (budget / total) * weight >= 0,
        (budget % total) * weight >= 0,
        ((budget % total) * weight) / total >= 0,
        0 <= ((budget % total) * weight) % total < total,
{
    let quotient = budget / total;
    let rest = budget % total;
    vstd::arithmetic::div_mod::lemma_fundamental_div_mod(budget, total);
    assert(budget * weight == total * (quotient * weight) + rest * weight) by (nonlinear_arith)
        requires
            budget == total * quotient + rest,
    ;
    assert(rest * weight >= 0) by (nonlinear_arith)
        requires
            rest >= 0,
            weight >= 0,
    ;
    assert(quotient >= 0) by (nonlinear_arith)
        requires
            budget >= 0,
            total > 0,
            quotient == budget / total,
    ;
    assert(quotient * weight >= 0) by (nonlinear_arith)
        requires
            quotient >= 0,
            weight >= 0,
    ;
    vstd::arithmetic::div_mod::lemma_hoist_over_denominator(
        rest * weight,
        quotient * weight,
        total as nat,
    );
    vstd::arithmetic::div_mod::lemma_mod_multiples_vanish(quotient * weight, rest * weight, total);
    vstd::arithmetic::div_mod::lemma_div_pos_is_pos(rest * weight, total);
    assert(total * (quotient * weight) + rest * weight == rest * weight + (quotient * weight)
        * total) by (nonlinear_arith);
}

fn share_budget(weights: &Vec<Weight>, budget: u128, total: u128) -> (r: Result<
    (Vec<Allocation>, u128),
>)
    requires
        total > 0,
    ensures
        match shared(weights@, budget, total, Seq::empty()) {
            Ok(allocations) => r matches Ok(found) && found.0@ == allocations && found.1
                == rewards_total(allocations),
            Err(refusal) => r matches Err(error) && error@ == refusal,
        },
{
    let mut allocations: Vec<Allocation> = Vec::new();
    let mut allocated: u128 = 0;
    let mut i: usize = 0;
    assert(weights@.skip(0) =~= weights@);
    assert(allocations@ =~= Seq::<Allocation>::empty());
    while i < weights.len()
        invariant
            i <= weights@.len(),
            total > 0,
            allocated == rewards_total(allocations@),
            shared(weights@, budget, total, Seq::empty()) == shared(
                weights@.skip(i as int),
                budget,
                total,
                allocations@,
            ),
        decreases weights@.len() - i,
    {
        assert(weights@.skip(i as int).drop_first() =~= weights@.skip(i as int + 1));
        let weight: u128 = weights[i].weight;
        proof {
            share_split(budget as int, weight as int, total as int);
        }
        let whole: u128 = match (budget / total).checked_mul(weight) {
            None => {
                return Err(Error::msg("Node reward calculation overflow"));
            },
            Some(whole) => whole,
        };
        let fractional: u128 = match (budget % total).checked_mul(weight) {
            None => {
                return Err(Error::msg("Node fractional reward calculation overflow"));
            },
            Some(fractional) => fractional,
        };
        let reward: u128 = match whole.checked_add(fractional / total) {
            None => {
                return Err(Error::msg("Node reward calculation overflow"));
            },
            Some(reward) => reward,
        };
        let remainder: u128 = fractional % total;
        match allocated.checked_add(reward) {
            None => {
                return Err(Error::msg("Node reward allocation overflow"));
            },
            Some(sum) => {
                allocated = sum;
            },
        }
        let ghost before = allocations@;
        allocations.push(Allocation { node_id: weights[i].node_id, reward, remainder });
        assert(allocations@.drop_last() =~= before);
        i = i + 1;
    }
    Ok((allocations, allocated))
}

/// The parts with one base unit more for each of the first `count`.
pub open spec fn topped_up(allocations: Seq<Allocation>, count: int) -> Seq<Allocation> {
    Seq::new(
        allocations.len(),
        |i: int|
            if i < count {
                Allocation { reward: (allocations[i].reward + 1) as u128, ..allocations[i] }
            } else {
                allocations[i]
            },
    )
}

/// What each node gets of a budget: its share rounded down, and one base unit more for those that
/// lost most to rounding, until the budget is used up.
pub open spec fn budget_allocated(
    weights: Seq<Weight>,
    budget: u128,
    total: u128,
) -> Outcome<Seq<Allocation>> {
    match shared(weights, budget, total, Seq::empty()) {
        Err(refusal) => Err(refusal),
        Ok(allocations) => {
            let leftover = budget - rewards_total(allocations);
            if leftover < 0 {
                Err("Node reward allocation exceeds Epoch budget"@)
            } else if leftover > allocations.len() {
                Err("Epoch reward remainder exceeds active Node count"@)
            } else {
                Ok(topped_up(arranged::<Allocation>(allocations), leftover))
            }
        },
    }
}

fn allocate_budget(weights: &Vec<Weight>, budget: u128, total: u128) -> (r: Result<Vec<Allocation>>)
    requires
        total > 0,
    ensures
        match budget_allocated(weights@, budget, total) {
            Ok(allocations) => r matches Ok(found) && found@ == allocations,
            Err(refusal) => r matches Err(error) && error@ == refusal,
        },
{
    let (allocations, allocated) = share_budget(weights, budget, total)?;
    if allocated > budget {
        return Err(Error::msg("Node reward allocation exceeds Epoch budget"));
    }
    let leftover: u128 = budget - allocated;
    if leftover > allocations.len() as u128 {
        return Err(Error::msg("Epoch reward remainder exceeds active Node count"));
    }
    let count: usize = leftover as usize;
    assert(allocations.deep_view() =~= allocations@);
    let sorted = arrange(&allocations);
    assert(sorted.deep_view() =~= sorted@);
    let mut out: Vec<Allocation> = Vec::new();
    let mut i: usize = 0;
    proof {
        rewards_bounded(allocations@, sorted@);
    }
    while i < sorted.len()
        invariant
            i <= sorted@.len(),
            out@.len() == i,
            count > 0 ==> forall|j: int|
                0 <= j < sorted@.len() ==> (#[trigger] sorted@[j]).reward < u128::MAX,
            forall|j: int| 0 <= j < i ==> out@[j] == topped_up(sorted@, count as int)[j],
        decreases sorted@.len() - i,
    {
        let allocation: Allocation = sorted[i];
        if i < count {
            assert(sorted@[i as int].reward < u128::MAX);
            out.push(
                Allocation {
                    node_id: allocation.node_id,
                    reward: allocation.reward + 1,
                    remainder: allocation.remainder,
                },
            );
        } else {
            out.push(allocation);
        }
        i = i + 1;
    }
    assert(out@ =~= topped_up(sorted@, count as int));
    Ok(out)
}

proof fn rewards_total_of_concat(front: Seq<Allocation>, back: Seq<Allocation>)
    ensures
        rewards_total(front + back) == rewards_total(front) + rewards_total(back),
    decreases back.len(),
{
    if back.len() == 0 {
        assert(front + back =~= front);
    } else {
        assert((front + back).drop_last() =~= front + back.drop_last());
        rewards_total_of_concat(front, back.drop_last());
    }
}

proof fn reward_within_total(allocations: Seq<Allocation>, at: int)
    requires
        0 <= at < allocations.len(),
    ensures
        allocations[at].reward <= rewards_total(allocations),
    decreases allocations.len(),
{
    if at < allocations.len() - 1 {
        reward_within_total(allocations.drop_last(), at);
    }
}

proof fn arranging_keeps_total(allocations: Seq<Allocation>)
    ensures
        rewards_total(arranged::<Allocation>(allocations)) == rewards_total(allocations),
        arranged::<Allocation>(allocations).len() == allocations.len(),
    decreases allocations.len(),
{
    if allocations.len() > 0 {
        let earlier = arranged::<Allocation>(allocations.drop_last());
        arranging_keeps_total(allocations.drop_last());
        let item = allocations.last();
        let at = place::<Allocation>(earlier, item);
        place_bounds::<Allocation>(earlier, item);
        let front = earlier.take(at);
        let back = earlier.skip(at);
        assert(earlier =~= front + back);
        assert(earlier.insert(at, item) =~= front.push(item) + back);
        rewards_total_of_concat(front, back);
        rewards_total_of_concat(front.push(item), back);
        assert(front.push(item).drop_last() =~= front);
    }
}

proof fn rewards_bounded(allocations: Seq<Allocation>, sorted: Seq<Allocation>)
    requires
        sorted == arranged::<Allocation>(allocations),
    ensures
        forall|j: int|
            0 <= j < sorted.len() ==> (#[trigger] sorted[j]).reward <= rewards_total(allocations),
{
    arranging_keeps_total(allocations);
    assert forall|j: int| 0 <= j < sorted.len() implies (#[trigger] sorted[j]).reward
        <= rewards_total(allocations) by {
        reward_within_total(sorted, j);
    }
}

proof fn topping_up_adds_count(allocations: Seq<Allocation>, count: int)
    requires
        0 <= count <= allocations.len(),
        count > 0 ==> forall|j: int|
            0 <= j < allocations.len() ==> (#[trigger] allocations[j]).reward < u128::MAX,
    ensures
        rewards_total(topped_up(allocations, count)) == rewards_total(allocations) + count,
    decreases allocations.len(),
{
    if allocations.len() > 0 {
        let rest = allocations.drop_last();
        let topped = topped_up(allocations, count);
        if count == allocations.len() {
            assert(topped.drop_last() =~= topped_up(rest, count - 1));
            assert forall|j: int| 0 <= j < rest.len() && count - 1 > 0 implies (
            #[trigger] rest[j]).reward < u128::MAX by {
                assert(rest[j] == allocations[j]);
            }
            topping_up_adds_count(rest, count - 1);
            assert(allocations[allocations.len() - 1].reward < u128::MAX);
        } else {
            assert(topped.drop_last() =~= topped_up(rest, count));
            assert forall|j: int| 0 <= j < rest.len() && count > 0 implies (
            #[trigger] rest[j]).reward < u128::MAX by {
                assert(rest[j] == allocations[j]);
            }
            topping_up_adds_count(rest, count);
        }
    }
}

/// The nodes get the whole budget, to the last base unit.
pub proof fn allocation_uses_whole_budget(weights: Seq<Weight>, budget: u128, total: u128)
    requires
        budget_allocated(weights, budget, total) is Ok,
    ensures
        rewards_total(budget_allocated(weights, budget, total)->Ok_0) == budget,
{
    let allocations = shared(weights, budget, total, Seq::empty())->Ok_0;
    let leftover = budget - rewards_total(allocations);
    let sorted = arranged::<Allocation>(allocations);
    arranging_keeps_total(allocations);
    rewards_bounded(allocations, sorted);
    topping_up_adds_count(sorted, leftover);
}

/// A node after its part of a budget has been paid out: the service bond is filled up first, then
/// a part can be claimed at once, and the rest begins to vest.
pub open spec fn reward_paid(
    node: NodeModel,
    reward: u128,
    context: ContextModel,
    created_at: i64,
) -> Outcome<NodeModel> {
    let missing = if context.settings.required_service_bond > node.service_bond {
        context.settings.required_service_bond - node.service_bond
    } else {
        0
    };
    let to_bond = least(reward as int, missing);
    let rest = reward - to_bond;
    let product = rest * context.settings.reward_immediate_bps;
    let immediate = product / BPS_DENOMINATOR as int;
    if product > u128::MAX || immediate > rest {
        Err("immediate Node reward calculation overflow"@)
    } else if node.claimable_reward + immediate > u128::MAX {
        Err("claimable Node reward overflow"@)
    } else {
        match vesting_added(
            node.reward_vesting_buckets,
            (rest - immediate) as u128,
            context.ended_at,
            context.settings.reward_vesting_seconds,
            created_at,
        ) {
            Err(refusal) => Err(refusal),
            Ok(buckets) => Ok(
                NodeModel {
                    service_bond: (node.service_bond + to_bond) as u128,
                    claimable_reward: (node.claimable_reward + immediate) as u128,
                    reward_vesting_buckets: buckets,
                    ..node
                },
            ),
        }
    }
}

fn pay_reward(
    node: &mut NodeRecord,
    reward: u128,
    context: &EpochContext,
    created_at: i64,
) -> (r: Result<()>)
    ensures
        match reward_paid(old(node).deep_view(), reward, context.deep_view(), created_at) {
            Ok(paid) => r is Ok && final(node).deep_view() == paid,
            Err(refusal) => r matches Err(error) && error@ == refusal,
        },
{
    let missing: u128 = context.settings.required_service_bond.saturating_sub(node.service_bond);
    let to_bond: u128 = min_u128(reward, missing);
    let rest: u128 = reward - to_bond;
    let immediate: u128 = match rest.checked_mul(context.settings.reward_immediate_bps as u128) {
        None => {
            return Err(Error::msg("immediate Node reward calculation overflow"));
        },
        Some(product) => product / BPS_DENOMINATOR,
    };
    if immediate > rest {
        return Err(Error::msg("immediate Node reward calculation overflow"));
    }
    let claimable: u128 = match node.claimable_reward.checked_add(immediate) {
        None => {
            return Err(Error::msg("claimable Node reward overflow"));
        },
        Some(claimable) => claimable,
    };
    node.service_bond = node.service_bond + to_bond;
    node.claimable_reward = claimable;
    add_node_reward_vesting(
        node,
        rest - immediate,
        context.ended_at,
        context.settings.reward_vesting_seconds,
        created_at,
    )
}

/// All that a node has earned and still holds.
pub open spec fn node_earnings(node: NodeModel) -> nat {
    node.service_bond as nat + node.claimable_reward as nat + buckets_total(
        node.reward_vesting_buckets,
    )
}

/// What is paid out to a node is what the node holds more of.
pub proof fn reward_is_paid_in_full(
    node: NodeModel,
    reward: u128,
    context: ContextModel,
    created_at: i64,
)
    requires
        reward_paid(node, reward, context, created_at) is Ok,
    ensures
        node_earnings(reward_paid(node, reward, context, created_at)->Ok_0) == node_earnings(node)
            + reward,
        reward_paid(node, reward, context, created_at)->Ok_0.service_bond >= node.service_bond,
        node.service_bond + reward >= context.settings.required_service_bond ==> reward_paid(
            node,
            reward,
            context,
            created_at,
        )->Ok_0.service_bond >= context.settings.required_service_bond,
{
    let missing = if context.settings.required_service_bond > node.service_bond {
        context.settings.required_service_bond - node.service_bond
    } else {
        0
    };
    let to_bond = least(reward as int, missing);
    let rest = reward - to_bond;
    let immediate = rest * context.settings.reward_immediate_bps / BPS_DENOMINATOR as int;
    assert(rest * context.settings.reward_immediate_bps >= 0) by (nonlinear_arith)
        requires
            rest >= 0,
            context.settings.reward_immediate_bps >= 0,
    ;
    assert(immediate >= 0);
    vesting_keeps_every_unit(
        node.reward_vesting_buckets,
        (rest - immediate) as u128,
        context.ended_at,
        context.settings.reward_vesting_seconds,
        created_at,
    );
}

/// The ledger after the parts of a budget have been paid out.
pub open spec fn rewards_paid(
    ledger: LedgerModel,
    allocations: Seq<Allocation>,
    context: ContextModel,
) -> Outcome<LedgerModel>
    decreases allocations.len(),
{
    if allocations.len() == 0 {
        Ok(ledger)
    } else if !ledger.nodes.contains_key(allocations[0].node_id) {
        rewards_paid(ledger, allocations.drop_first(), context)
    } else {
        let node_id = allocations[0].node_id;
        match reward_paid(
            ledger.nodes[node_id],
            allocations[0].reward,
            context,
            ledger.created_at,
        ) {
            Err(refusal) => Err(refusal),
            Ok(node) => rewards_paid(
                LedgerModel { nodes: ledger.nodes.insert(node_id, node), ..ledger },
                allocations.drop_first(),
                context,
            ),
        }
    }
}

fn pay_rewards(
    ledger: &mut LedgerState,
    allocations: &Vec<Allocation>,
    context: &EpochContext,
) -> (r: Result<()>)
    ensures
        match rewards_paid(old(ledger)@, allocations@, context.deep_view()) {
            Ok(next) => r is Ok && final(ledger)@ == next,
            Err(refusal) => r matches Err(error) && error@ == refusal,
        },
{
    let ghost first = ledger@;
    let ghost bound = context.deep_view();
    let created_at: i64 = ledger.created_at;
    let mut i: usize = 0;
    assert(allocations@.skip(0) =~= allocations@);
    while i < allocations.len()
        invariant
            i <= allocations@.len(),
            first == old(ledger)@,
            bound == context.deep_view(),
            created_at == ledger@.created_at,
            rewards_paid(first, allocations@, bound) == rewards_paid(
                ledger@,
                allocations@.skip(i as int),
                bound,
            ),
        decreases allocations@.len() - i,
    {
        assert(allocations@.skip(i as int).drop_first() =~= allocations@.skip(i as int + 1));
        let allocation: Allocation = allocations[i];
        if let Some(node) = ledger.nodes.get_mut(&allocation.node_id) {
            let paid = pay_reward(node, allocation.reward, context, created_at);
            match paid {
                Ok(_) => {},
                Err(error) => {
                    return Err(error);
                },
            }
        }
        i = i + 1;
    }
    Ok(())
}

/// The ledger without what was counted for an epoch.
pub open spec fn epoch_forgotten(ledger: LedgerModel, epoch: u64) -> LedgerModel {
    LedgerModel {
        nodes: ledger.nodes.map_values(
            |node: NodeModel|
                NodeModel {
                    eligible_seconds_by_epoch: node.eligible_seconds_by_epoch.remove(epoch),
                    ..node
                },
        ),
        ..ledger
    }
}

fn forget_epoch(ledger: &mut LedgerState, epoch: u64)
    ensures
        final(ledger)@ == epoch_forgotten(old(ledger)@, epoch),
{
    let ghost before = ledger@;
    let ghost keys = ledger.nodes.keys();
    let count: usize = ledger.nodes.len();
    let mut i: usize = 0;
    while i < count
        invariant
            i <= count,
            count == keys.len(),
            before == old(ledger)@,
            keys == ordered::<u64>(before.nodes.dom()),
            keys.no_duplicates(),
            ledger@.nodes.dom() == before.nodes.dom(),
            ledger@ == (LedgerModel { nodes: ledger@.nodes, ..before }),
            forall|j: int|
                0 <= j < count ==> before.nodes.contains_key(#[trigger] keys[j])
                    && ledger@.nodes[keys[j]] == if j < i {
                    NodeModel {
                        eligible_seconds_by_epoch:
                            before.nodes[keys[j]].eligible_seconds_by_epoch.remove(epoch),
                        ..before.nodes[keys[j]]
                    }
                } else {
                    before.nodes[keys[j]]
                },
        decreases count - i,
    {
        let node = ledger.nodes.value_at_mut(i);
        let ghost seconds = node.eligible_seconds_by_epoch@;
        let removed = node.eligible_seconds_by_epoch.remove(&epoch);
        proof {
            if removed is None {
                assert(seconds.remove(epoch) =~= seconds);
            }
        }
        i = i + 1;
    }
    proof {
        let target = epoch_forgotten(before, epoch).nodes;
        assert forall|k: u64| #[trigger] before.nodes.contains_key(k) implies ledger@.nodes[k]
            == target[k] by {
            assert(keys.contains(k));
            let j = choose|j: int| 0 <= j < keys.len() && keys[j] == k;
            assert(keys[j] == k);
        }
        assert(ledger@.nodes =~= target);
    }
}

/// The ledger after the reward of one epoch has been paid out of the pool.
pub open spec fn epoch_settled(ledger: LedgerModel, context: ContextModel) -> Outcome<LedgerModel> {
    match rewards_matured(ledger, node_ids(ledger), context.ended_at) {
        Err(refusal) => Err(refusal),
        Ok(matured) => if context.settings.epoch_seconds < 0 {
            Err("current Epoch duration must be positive"@)
        } else {
            match weighed(matured, context, node_ids(matured), Seq::empty()) {
                Err(refusal) => Err(refusal),
                Ok(weights) => {
                    let total = weights_total(weights);
                    let budget = least(
                        context.settings.epoch_mint_amount as int,
                        matured.pool_remaining as int,
                    );
                    if total == 0 || budget == 0 {
                        Ok(epoch_forgotten(matured, context.epoch))
                    } else {
                        match budget_allocated(weights, budget as u128, total as u128) {
                            Err(refusal) => Err(refusal),
                            Ok(allocations) => match rewards_paid(matured, allocations, context) {
                                Err(refusal) => Err(refusal),
                                Ok(paid) => if paid.lifetime_minted + budget > u128::MAX {
                                    Err("lifetime minted amount overflow"@)
                                } else {
                                    let forgotten = epoch_forgotten(paid, context.epoch);
                                    Ok(
                                        LedgerModel {
                                            pool_remaining: (forgotten.pool_remaining
                                                - budget) as u128,
                                            lifetime_minted: (forgotten.lifetime_minted
                                                + budget) as u128,
                                            ..forgotten
                                        },
                                    )
                                },
                            },
                        }
                    }
                },
            }
        },
    }
}

/// Pays out the rewards of an epoch.
/// On a refusal the ledger may be left half-way.
fn pay_out_epoch(ledger: &mut LedgerState, context: &EpochContext) -> (r: Result<()>)
    ensures
        match epoch_settled(old(ledger)@, context.deep_view()) {
            Ok(next) => r is Ok && final(ledger)@ == next,
            Err(refusal) => r matches Err(error) && error@ == refusal,
        },
{
    mature_rewards(ledger, context.ended_at)?;
    if context.settings.epoch_seconds < 0 {
        return Err(Error::msg("current Epoch duration must be positive"));
    }
    let (weights, total) = weigh_nodes(ledger, context)?;
    let budget: u128 = min_u128(context.settings.epoch_mint_amount, ledger.pool_remaining);
    if total == 0 || budget == 0 {
        forget_epoch(ledger, context.epoch);
        return Ok(());
    }
    let allocations = allocate_budget(&weights, budget, total)?;
    proof {
        paying_keeps_pool(ledger@, allocations@, context.deep_view());
    }
    pay_rewards(ledger, &allocations, context)?;
    match ledger.lifetime_minted.checked_add(budget) {
        None => {
            return Err(Error::msg("lifetime minted amount overflow"));
        },
        Some(minted) => {
            forget_epoch(ledger, context.epoch);
            ledger.pool_remaining = ledger.pool_remaining - budget;
            ledger.lifetime_minted = minted;
        },
    }
    Ok(())
}

/// Pays the reward of one epoch out of the pool.
pub fn settle_one_epoch(ledger: &mut LedgerState, context: &EpochContext) -> (r: Result<()>)
    ensures
        match epoch_settled(old(ledger)@, context.deep_view()) {
            Ok(next) => r is Ok && final(ledger)@ == next,
            Err(refusal) => final(ledger)@ == old(ledger)@ && (r matches Err(error) && error@
                == refusal),
        },
{
    let mut next = ledger.copy();
    pay_out_epoch(&mut next, context)?;
    *ledger = next;
    Ok(())
}

proof fn paying_keeps_pool(
    ledger: LedgerModel,
    allocations: Seq<Allocation>,
    context: ContextModel,
)
    ensures
        rewards_paid(ledger, allocations, context) matches Ok(paid) ==> paid == (LedgerModel {
            nodes: paid.nodes,
            ..ledger
        }),
    decreases allocations.len(),
{
    if allocations.len() > 0 {
        if !ledger.nodes.contains_key(allocations[0].node_id) {
            paying_keeps_pool(ledger, allocations.drop_first(), context);
        } else {
            let node_id = allocations[0].node_id;
            match reward_paid(
                ledger.nodes[node_id],
                allocations[0].reward,
                context,
                ledger.created_at,
            ) {
                Err(_) => {},
                Ok(node) => {
                    paying_keeps_pool(
                        LedgerModel { nodes: ledger.nodes.insert(node_id, node), ..ledger },
                        allocations.drop_first(),
                        context,
                    );
                },
            }
        }
    }
}

proof fn maturing_keeps_pool(ledger: LedgerModel, ids: Seq<u64>, at: i64)
    ensures
        rewards_matured(ledger, ids, at) matches Ok(matured) ==> matured == (LedgerModel {
            nodes: matured.nodes,
            ..ledger
        }),
    decreases ids.len(),
{
    if ids.len() > 0 {
        match vesting_settled(ledger.nodes[ids[0]], at) {
            Err(_) => {},
            Ok(node) => {
                maturing_keeps_pool(
                    LedgerModel { nodes: ledger.nodes.insert(ids[0], node), ..ledger },
                    ids.drop_first(),
                    at,
                );
            },
        }
    }
}

/// Settling an epoch keeps the supply: what leaves the pool has been minted, and both together stay
/// what they were. Nothing but the nodes, the pool and the count of what was minted changes.
pub proof fn settling_keeps_supply(ledger: LedgerModel, context: ContextModel)
    requires
        epoch_settled(ledger, context) is Ok,
    ensures
        ({
            let after = epoch_settled(ledger, context)->Ok_0;
            &&& after.pool_remaining + after.lifetime_minted == ledger.pool_remaining
                + ledger.lifetime_minted
            &&& after.lifetime_minted - ledger.lifetime_minted <= context.settings.epoch_mint_amount
            &&& after == (LedgerModel {
                nodes: after.nodes,
                pool_remaining: after.pool_remaining,
                lifetime_minted: after.lifetime_minted,
                ..ledger
            })
        }),
{
    maturing_keeps_pool(ledger, node_ids(ledger), context.ended_at);
    let matured = rewards_matured(ledger, node_ids(ledger), context.ended_at)->Ok_0;
    let weights = weighed(matured, context, node_ids(matured), Seq::empty())->Ok_0;
    let budget = least(
        context.settings.epoch_mint_amount as int,
        matured.pool_remaining as int,
    );
    if weights_total(weights) != 0 && budget != 0 {
        let allocations = budget_allocated(
            weights,
            budget as u128,
            weights_total(weights) as u128,
        )->Ok_0;
        paying_keeps_pool(matured, allocations, context);
    }
}

/// Whether an epoch has ended and takes no more attestations at a time.
pub open spec fn epoch_is_final(ledger: LedgerModel, key: u64, at: i64) -> bool {
    ledger.epoch_contexts[key].epoch < ledger.epoch_number && at
        >= ledger.epoch_contexts[key].submission_deadline
}

/// The epochs that can be settled at a time.
pub open spec fn final_epochs(ledger: LedgerModel, at: i64) -> Seq<u64> {
    ordered::<u64>(ledger.epoch_contexts.dom()).filter(
        |key: u64| epoch_is_final(ledger, key, at),
    ).map_values(|key: u64| ledger.epoch_contexts[key].epoch)
}

/// The attestations that do not belong to an epoch.
pub open spec fn slots_without(slots: Map<Seq<char>, SlotModel>, epoch: u64) -> Map<
    Seq<char>,
    SlotModel,
> {
    Map::new(
        |key: Seq<char>| slots.contains_key(key) && slots[key].epoch != epoch,
        |key: Seq<char>| slots[key],
    )
}

/// The ledger after some epochs have been settled and forgotten.
pub open spec fn epochs_settled(ledger: LedgerModel, epochs: Seq<u64>) -> Outcome<LedgerModel>
    decreases epochs.len(),
{
    if epochs.len() == 0 {
        Ok(ledger)
    } else if !ledger.epoch_contexts.contains_key(epochs[0]) {
        Err(epoch_closed(epochs[0]))
    } else {
        match epoch_settled(ledger, ledger.epoch_contexts[epochs[0]]) {
            Err(refusal) => Err(refusal),
            Ok(settled) => epochs_settled(
                LedgerModel {
                    epoch_contexts: settled.epoch_contexts.remove(epochs[0]),
                    availability_slots: slots_without(settled.availability_slots, epochs[0]),
                    ..settled
                },
                epochs.drop_first(),
            ),
        }
    }
}

fn list_final_epochs(ledger: &LedgerState, at: i64) -> (r: Vec<u64>)
    ensures
        r@ == final_epochs(ledger@, at),
{
    let ghost keys = ledger.epoch_contexts.keys();
    let ghost chosen = |key: u64| epoch_is_final(ledger@, key, at);
    let ghost number = |key: u64| ledger@.epoch_contexts[key].epoch;
    let mut epochs: Vec<u64> = Vec::new();
    let mut i: usize = 0;
    proof {
        filter_ends(keys, chosen);
        assert(epochs@ =~= Seq::<u64>::empty().map_values(number));
    }
    while i < ledger.epoch_contexts.len()
        invariant
            i <= keys.len(),
            keys == ledger.epoch_contexts.keys(),
            chosen == (|key: u64| epoch_is_final(ledger@, key, at)),
            number == (|key: u64| ledger@.epoch_contexts[key].epoch),
            epochs@ == keys.take(i as int).filter(chosen).map_values(number),
        decreases keys.len() - i,
    {
        proof {
            filter_step(keys, i as int, chosen);
        }
        let ghost before = keys.take(i as int).filter(chosen);
        let context = ledger.epoch_contexts.value_at(i);
        if context.epoch < ledger.epoch_number && at >= context.submission_deadline {
            epochs.push(context.epoch);
            assert(epochs@ =~= before.push(keys[i as int]).map_values(number));
        }
        i = i + 1;
    }
    proof {
        filter_ends(keys, chosen);
    }
    epochs
}

fn drop_epoch_slots(
    slots: &Table<String, AvailabilitySlotRecord>,
    epoch: u64,
) -> (r: Table<String, AvailabilitySlotRecord>)
    ensures
        r@ == slots_without(slots@, epoch),
{
    let ghost keys = slots.keys();
    let mut kept: Table<String, AvailabilitySlotRecord> = Table::new();
    let mut i: usize = 0;
    while i < slots.len()
        invariant
            i <= keys.len(),
            keys == slots.keys(),
            forall|k: Seq<char>| #[trigger]
                kept@.contains_key(k) ==> slots@.contains_key(k) && slots@[k].epoch != epoch
                    && kept@[k] == slots@[k],
            forall|j: int|
                0 <= j < i && slots@[#[trigger] keys[j]].epoch != epoch ==> kept@.contains_key(
                    keys[j],
                ),
        decreases keys.len() - i,
    {
        let slot = slots.value_at(i);
        if slot.epoch != epoch {
            kept.insert(slots.key_at(i).clone(), slot.replicate());
        }
        i = i + 1;
    }
    proof {
        let target = slots_without(slots@, epoch);
        assert forall|k: Seq<char>| #[trigger] kept@.contains_key(k) <==> target.contains_key(
            k,
        ) by {
            if target.contains_key(k) {
                assert(keys.contains(k));
                let j = choose|j: int| 0 <= j < keys.len() && keys[j] == k;
                assert(slots@[keys[j]].epoch != epoch);
            }
        }
        assert(kept@ =~= target);
    }
    kept
}

/// Pays out the rewards of the epochs that are final at the time of a block.
/// On a refusal the ledger may be left half-way.
pub(crate) fn pay_out_epochs_until(
    ledger: &mut LedgerState,
    block_timestamp: i64,
) -> (r: Result<()>)
    ensures
        match epochs_settled(old(ledger)@, final_epochs(old(ledger)@, block_timestamp)) {
            Ok(next) => r is Ok && final(ledger)@ == next,
            Err(refusal) => r matches Err(error) && error@ == refusal,
        },
{
    let epochs = list_final_epochs(ledger, block_timestamp);
    let ghost first = ledger@;
    let mut i: usize = 0;
    assert(epochs@.skip(0) =~= epochs@);
    while i < epochs.len()
        invariant
            i <= epochs@.len(),
            first == old(ledger)@,
            epochs@ == final_epochs(first, block_timestamp),
            epochs_settled(first, epochs@) == epochs_settled(ledger@, epochs@.skip(i as int)),
        decreases epochs@.len() - i,
    {
        assert(epochs@.skip(i as int).drop_first() =~= epochs@.skip(i as int + 1));
        let epoch: u64 = epochs[i];
        let context = epoch_context(ledger, epoch)?.replicate();
        pay_out_epoch(ledger, &context)?;
        let ghost contexts = ledger@.epoch_contexts;
        let removed = ledger.epoch_contexts.remove(&epoch);
        proof {
            if removed is None {
                assert(contexts.remove(epoch) =~= contexts);
            }
        }
        let kept = drop_epoch_slots(&ledger.availability_slots, epoch);
        ledger.availability_slots = kept;
        i = i + 1;
    }
    Ok(())
}

/// Settles the epochs that take no more attestations at the time of a block.
pub fn settle_finalized_epochs_for_block(
    ledger: &mut LedgerState,
    block_timestamp: i64,
) -> (r: Result<()>)
    ensures
        match epochs_settled(old(ledger)@, final_epochs(old(ledger)@, block_timestamp)) {
            Ok(next) => r is Ok && final(ledger)@ == next,
            Err(refusal) => final(ledger)@ == old(ledger)@ && (r matches Err(error) && error@
                == refusal),
        },
{
    let mut next = ledger.copy();
    pay_out_epochs_until(&mut next, block_timestamp)?;
    *ledger = next;
    Ok(())
}

/// Moves the protocol clock to the time of a block and settles the epochs that are final then.
pub fn settle_elapsed_epochs_for_block(
    ledger: &mut LedgerState,
    block_timestamp: i64,
) -> (r: Result<()>)
    ensures
        match epochs_advanced(old(ledger)@, block_timestamp) {
            Err(refusal) => final(ledger)@ == old(ledger)@ && (r matches Err(error) && error@
                == refusal),
            Ok(advanced) => match epochs_settled(
                advanced,
                final_epochs(advanced, block_timestamp),
            ) {
                Ok(next) => r is Ok && final(ledger)@ == next,
                Err(refusal) => final(ledger)@ == old(ledger)@ && (r matches Err(error) && error@
                    == refusal),
            },
        },
{
    let mut next = ledger.copy();
    turn_epochs_until(&mut next, block_timestamp)?;
    pay_out_epochs_until(&mut next, block_timestamp)?;
    *ledger = next;
    Ok(())
}

/// Settling any number of epochs keeps the supply.
pub proof fn settling_epochs_keeps_supply(ledger: LedgerModel, epochs: Seq<u64>)
    requires
        epochs_settled(ledger, epochs) is Ok,
    ensures
        epochs_settled(ledger, epochs)->Ok_0.pool_remaining + epochs_settled(
            ledger,
            epochs,
        )->Ok_0.lifetime_minted == ledger.pool_remaining + ledger.lifetime_minted,
    decreases epochs.len(),
{
    if epochs.len() > 0 {
        let context = ledger.epoch_contexts[epochs[0]];
        settling_keeps_supply(ledger, context);
        let settled = epoch_settled(ledger, context)->Ok_0;
        settling_epochs_keeps_supply(
            LedgerModel {
                epoch_contexts: settled.epoch_contexts.remove(epochs[0]),
                availability_slots: slots_without(settled.availability_slots, epochs[0]),
                ..settled
            },
            epochs.drop_first(),
        );
    }
}

/// What a node's time in an epoch weighs: its seconds, twice over for the first node while it makes
/// the blocks alone, at the validators' rate for one that has earned their bonus, and else once.
pub open spec fn service_weight(node: NodeModel, node_id: u64, context: ContextModel) -> int {
    let seconds = if node.eligible_seconds_by_epoch.contains_key(context.epoch) {
        node.eligible_seconds_by_epoch[context.epoch] as int
    } else {
        0
    };
    if node_id == 1 && context.node1_single_producer {
        seconds * 20_000
    } else if context.validator_bonus_ids.contains(node_id) {
        seconds * context.settings.validator_weight_bps
    } else {
        seconds * 10_000
    }
}

/// What some parts of a budget give a node.
pub open spec fn allotted(allocations: Seq<Allocation>, node_id: u64) -> nat
    decreases allocations.len(),
{
    if allocations.len() == 0 {
        0
    } else {
        allotted(allocations.drop_first(), node_id) + if allocations[0].node_id == node_id {
            allocations[0].reward as nat
        } else {
            0
        }
    }
}

spec fn apart<A>(items: Seq<A>, id: spec_fn(A) -> u64) -> bool {
    forall|i: int, j: int|
        #![trigger items[i], items[j]]
        0 <= i < j < items.len() ==> id(items[i]) != id(items[j])
}

proof fn allotted_once(allocations: Seq<Allocation>, node_id: u64)
    requires
        apart(allocations, |part: Allocation| part.node_id),
    ensures
        forall|k: int|
            0 <= k < allocations.len() && (#[trigger] allocations[k]).node_id == node_id
                ==> allotted(allocations, node_id) == allocations[k].reward,
        (forall|k: int|
            0 <= k < allocations.len() ==> (#[trigger] allocations[k]).node_id != node_id)
            ==> allotted(allocations, node_id) == 0,
    decreases allocations.len(),
{
    if allocations.len() > 0 {
        let rest = allocations.drop_first();
        assert forall|i: int, j: int|
            #![trigger rest[i], rest[j]]
            0 <= i < j < rest.len() implies rest[i].node_id != rest[j].node_id by {
            assert(rest[i] == allocations[i + 1] && rest[j] == allocations[j + 1]);
        }
        allotted_once(rest, node_id);
        if allocations[0].node_id == node_id {
            assert forall|k: int| 0 <= k < rest.len() implies (#[trigger] rest[k]).node_id
                != node_id by {
                assert(rest[k] == allocations[k + 1]);
                assert(allocations[0].node_id != allocations[k + 1].node_id);
            }
            assert forall|k: int|
                0 <= k < allocations.len() && (#[trigger] allocations[k]).node_id
                    == node_id implies allotted(allocations, node_id) == allocations[k].reward by {
                if k > 0 {
                    assert(allocations[0].node_id != allocations[k].node_id);
                }
            }
        } else {
            assert forall|k: int|
                0 <= k < allocations.len() && (#[trigger] allocations[k]).node_id
                    == node_id implies allotted(allocations, node_id) == allocations[k].reward by {
                assert(rest[k - 1] == allocations[k]);
            }
            if forall|k: int|
                0 <= k < allocations.len() ==> (#[trigger] allocations[k]).node_id != node_id {
                assert forall|k: int| 0 <= k < rest.len() implies (#[trigger] rest[k]).node_id
                    != node_id by {
                    assert(rest[k] == allocations[k + 1]);
                }
            }
        }
    }
}

proof fn weights_are_of_service(
    ledger: LedgerModel,
    context: ContextModel,
    ids: Seq<u64>,
    known: Seq<Weight>,
)
    requires
        ids.no_duplicates(),
        weighed(ledger, context, ids, known) is Ok,
    ensures
        ({
            let found = weighed(ledger, context, ids, known)->Ok_0;
            &&& known.len() <= found.len()
            &&& found.take(known.len() as int) == known
            &&& forall|k: int|
                known.len() <= k < found.len() ==> ids.contains((#[trigger] found[k]).node_id)
                    && 0 < found[k].weight && found[k].weight == service_weight(
                    ledger.nodes[found[k].node_id],
                    found[k].node_id,
                    context,
                )
            &&& forall|i: int|
                0 <= i < ids.len() && service_weight(
                    ledger.nodes[#[trigger] ids[i]],
                    ids[i],
                    context,
                ) > 0 ==> exists|k: int|
                    known.len() <= k < found.len() && (#[trigger] found[k]).node_id == ids[i]
            &&& forall|i: int, j: int|
                #![trigger found[i], found[j]]
                known.len() <= i < j < found.len() ==> found[i].node_id != found[j].node_id
        }),
    decreases ids.len(),
{
    if ids.len() == 0 {
        assert(known.take(known.len() as int) =~= known);
    } else {
        let rest = ids.drop_first();
        let first = ids[0];
        let seconds = eligible_seconds(ledger.nodes[first], context.epoch);
        let weight = seconds * weight_bps(first, context);
        assert(weight == service_weight(ledger.nodes[first], first, context));
        assert(weight >= 0) by (nonlinear_arith)
            requires
                weight == seconds * weight_bps(first, context),
        ;
        let more = if weight == 0 {
            known
        } else {
            known.push(Weight { node_id: first, weight: weight as u128 })
        };
        assert(rest.no_duplicates());
        weights_are_of_service(ledger, context, rest, more);
        let found = weighed(ledger, context, ids, known)->Ok_0;
        assert(found == weighed(ledger, context, rest, more)->Ok_0);
        assert(found.take(known.len() as int) =~= known) by {
            assert(found.take(more.len() as int) == more);
            assert forall|k: int| 0 <= k < known.len() implies found[k] == known[k] by {
                assert(found.take(more.len() as int)[k] == more[k]);
            }
        }
        if weight > 0 {
            assert(found.take(more.len() as int)[known.len() as int] == more[known.len() as int]);
            assert(found[known.len() as int].node_id == first);
            assert(found[known.len() as int].weight == weight);
        }
        assert forall|k: int| known.len() <= k < found.len() implies ids.contains(
            (#[trigger] found[k]).node_id,
        ) && 0 < found[k].weight && found[k].weight == service_weight(
            ledger.nodes[found[k].node_id],
            found[k].node_id,
            context,
        ) by {
            if k >= more.len() {
                assert(rest.contains(found[k].node_id));
                let i = choose|i: int| 0 <= i < rest.len() && rest[i] == found[k].node_id;
                assert(ids[i + 1] == found[k].node_id);
            } else {
                assert(ids[0] == found[k].node_id);
            }
        }
        assert forall|i: int|
            0 <= i < ids.len() && service_weight(
                ledger.nodes[#[trigger] ids[i]],
                ids[i],
                context,
            ) > 0 implies exists|k: int|
            known.len() <= k < found.len() && (#[trigger] found[k]).node_id == ids[i] by {
            if i == 0 {
                assert(found[known.len() as int].node_id == ids[0]);
            } else {
                assert(rest[i - 1] == ids[i]);
                let k = choose|k: int|
                    more.len() <= k < found.len() && (#[trigger] found[k]).node_id == rest[i - 1];
                assert(found[k].node_id == ids[i]);
            }
        }
        assert forall|i: int, j: int|
            #![trigger found[i], found[j]]
            known.len() <= i < j < found.len() implies found[i].node_id != found[j].node_id by {
            if i < more.len() {
                assert(found[i].node_id == first);
                assert(rest.contains(found[j].node_id));
                let k = choose|k: int| 0 <= k < rest.len() && rest[k] == found[j].node_id;
                assert(ids[k + 1] == found[j].node_id);
                assert(ids[0] != ids[k + 1]);
            }
        }
    }
}

proof fn parts_are_rounded_down(
    weights: Seq<Weight>,
    budget: u128,
    total: u128,
    known: Seq<Allocation>,
)
    requires
        shared(weights, budget, total, known) is Ok,
    ensures
        ({
            let found = shared(weights, budget, total, known)->Ok_0;
            &&& found.len() == known.len() + weights.len()
            &&& forall|k: int|
                0 <= k < known.len() ==> #[trigger] found[k] == known[k]
            &&& forall|k: int|
                #![trigger weights[k]]
                0 <= k < weights.len() ==> found[known.len() + k].node_id == weights[k].node_id
                    && found[known.len() + k].reward == (budget * weights[k].weight
                    / total as int) as u128 && found[known.len() + k].remainder == (budget
                    * weights[k].weight % total as int) as u128
        }),
    decreases weights.len(),
{
    if weights.len() > 0 {
        let weight = weights[0].weight;
        let more = known.push(
            Allocation {
                node_id: weights[0].node_id,
                reward: (budget * weight / total as int) as u128,
                remainder: (budget * weight % total as int) as u128,
            },
        );
        let rest = weights.drop_first();
        parts_are_rounded_down(rest, budget, total, more);
        let found = shared(weights, budget, total, known)->Ok_0;
        assert(found == shared(rest, budget, total, more)->Ok_0);
        assert forall|k: int| 0 <= k < known.len() implies #[trigger] found[k] == known[k] by {
            assert(found[k] == more[k]);
        }
        assert forall|k: int|
            #![trigger weights[k]]
            0 <= k < weights.len() implies found[known.len() + k].node_id == weights[k].node_id
            && found[known.len() + k].reward == (budget * weights[k].weight / total as int) as u128
            && found[known.len() + k].remainder == (budget * weights[k].weight
            % total as int) as u128 by {
            if k == 0 {
                assert(found[known.len() as int] == more[known.len() as int]);
            } else {
                assert(rest[k - 1] == weights[k]);
                assert(found[more.len() + (k - 1)] == found[known.len() + k]);
            }
        }
    }
}

proof fn arranged_parts_descend(items: Seq<Allocation>)
    ensures
        arranged::<Allocation>(items).len() == items.len(),
        forall|i: int, j: int|
            #![trigger arranged::<Allocation>(items)[i], arranged::<Allocation>(items)[j]]
            0 <= i < j < items.len() ==> arranged::<Allocation>(items)[j].remainder
                <= arranged::<Allocation>(items)[i].remainder,
    decreases items.len(),
{
    if items.len() > 0 {
        let earlier = arranged::<Allocation>(items.drop_last());
        arranged_parts_descend(items.drop_last());
        let item = items.last();
        let at = place::<Allocation>(earlier, item);
        place_bounds::<Allocation>(earlier, item);
        let all = earlier.insert(at, item);
        assert forall|i: int, j: int|
            #![trigger all[i], all[j]]
            0 <= i < j < all.len() implies all[j].remainder <= all[i].remainder by {
            if i < at {
                assert(all[i] == earlier[i]);
                if j == at && i < at - 1 {
                    assert(earlier[at - 1].remainder <= earlier[i].remainder);
                } else if j > at {
                    assert(all[j] == earlier[j - 1]);
                } else if j < at {
                    assert(all[j] == earlier[j]);
                }
            } else if i == at {
                assert(all[j] == earlier[j - 1]);
                assert(Allocation::precedes(item, earlier[j - 1]));
            } else {
                assert(all[i] == earlier[i - 1] && all[j] == earlier[j - 1]);
            }
        }
    }
}

/// Where a claim's part stands among the parts of a budget, and what it is.
proof fn part_of_a_claim(weights: Seq<Weight>, budget: u128, total: u128, k: int) -> (at: int)
    requires
        total > 0,
        apart(weights, |claim: Weight| claim.node_id),
        0 <= k < weights.len(),
        budget_allocated(weights, budget, total) is Ok,
    ensures
        ({
            let parts = shared(weights, budget, total, Seq::empty())->Ok_0;
            let sorted = arranged::<Allocation>(parts);
            let leftover = budget - rewards_total(parts);
            &&& 0 <= at < sorted.len()
            &&& sorted[at] == parts[k]
            &&& sorted[at].node_id == weights[k].node_id
            &&& sorted[at].reward == budget * weights[k].weight / total as int
            &&& sorted[at].remainder == budget * weights[k].weight % total as int
            &&& allotted(budget_allocated(weights, budget, total)->Ok_0, weights[k].node_id)
                == sorted[at].reward + if at < leftover {
                1int
            } else {
                0
            }
        }),
{
    let parts = shared(weights, budget, total, Seq::empty())->Ok_0;
    parts_are_rounded_down(weights, budget, total, Seq::empty());
    let sorted = arranged::<Allocation>(parts);
    let leftover = budget - rewards_total(parts);
    assert forall|i: int, j: int|
        #![trigger parts[i], parts[j]]
        0 <= i < j < parts.len() implies parts[i].node_id != parts[j].node_id by {
        assert(weights[i].node_id != weights[j].node_id);
        assert(parts[0 + i].node_id == weights[i].node_id);
        assert(parts[0 + j].node_id == weights[j].node_id);
    }
    assert(parts.no_duplicates());
    crate::committee::arranged_stay_unique::<Allocation>(parts);
    assert(parts.contains(parts[k]));
    assert(sorted.contains(parts[k]));
    let at = choose|at: int| 0 <= at < sorted.len() && sorted[at] == parts[k];
    assert(parts[0 + k].node_id == weights[k].node_id);
    let product = budget * weights[k].weight;
    assert(product >= 0) by (nonlinear_arith)
        requires
            product == budget * weights[k].weight,
    ;
    vstd::arithmetic::div_mod::lemma_div_pos_is_pos(product, total as int);
    vstd::arithmetic::div_mod::lemma_mod_bound(product, total as int);
    assert(product / total as int <= u128::MAX) by {
        part_fits(weights, budget, total, Seq::empty(), k);
    }
    let result = topped_up(sorted, leftover);
    assert forall|i: int, j: int|
        #![trigger result[i], result[j]]
        0 <= i < j < result.len() implies result[i].node_id != result[j].node_id by {
        assert(sorted.contains(sorted[i]) && sorted.contains(sorted[j]));
        assert(parts.contains(sorted[i]) && parts.contains(sorted[j]));
        let p = choose|p: int| 0 <= p < parts.len() && parts[p] == sorted[i];
        let q = choose|q: int| 0 <= q < parts.len() && parts[q] == sorted[j];
        assert(sorted[i] != sorted[j]);
        if p < q {
            assert(parts[p].node_id != parts[q].node_id);
        } else {
            assert(parts[q].node_id != parts[p].node_id);
        }
    }
    allotted_once(result, weights[k].node_id);
    rewards_bounded(parts, sorted);
    assert(result[at].node_id == weights[k].node_id);
    at
}

proof fn part_fits(
    weights: Seq<Weight>,
    budget: u128,
    total: u128,
    known: Seq<Allocation>,
    k: int,
)
    requires
        0 <= k < weights.len(),
        shared(weights, budget, total, known) is Ok,
    ensures
        budget * weights[k].weight / total as int <= u128::MAX,
    decreases weights.len(),
{
    if k > 0 {
        let weight = weights[0].weight;
        part_fits(
            weights.drop_first(),
            budget,
            total,
            known.push(
                Allocation {
                    node_id: weights[0].node_id,
                    reward: (budget * weight / total as int) as u128,
                    remainder: (budget * weight % total as int) as u128,
                },
            ),
            k - 1,
        );
    }
}

proof fn product_bounds(budget: u128, weight: u128, total: u128) -> (parts: (int, int))
    requires
        total > 0,
    ensures
        parts.0 == budget * weight / total as int,
        parts.1 == budget * weight % total as int,
        budget * weight == parts.0 * total + parts.1,
        0 <= parts.0,
        0 <= parts.1 < total,
{
    let product = budget * weight;
    assert(product >= 0) by (nonlinear_arith)
        requires
            product == budget * weight,
    ;
    vstd::arithmetic::div_mod::lemma_fundamental_div_mod(product, total as int);
    vstd::arithmetic::div_mod::lemma_mod_bound(product, total as int);
    vstd::arithmetic::div_mod::lemma_div_pos_is_pos(product, total as int);
    let whole = product / total as int;
    assert(total * whole == whole * total) by (nonlinear_arith);
    (whole, product % total as int)
}

/// The parts of a budget follow the claims: a claim gets its share of the budget to within one base
/// unit, and a larger claim never gets less than a smaller one.
pub proof fn parts_follow_the_claims(
    weights: Seq<Weight>,
    budget: u128,
    total: u128,
    k: int,
    l: int,
)
    requires
        total > 0,
        forall|i: int, j: int|
            #![trigger weights[i], weights[j]]
            0 <= i < j < weights.len() ==> weights[i].node_id != weights[j].node_id,
        0 <= k < weights.len(),
        0 <= l < weights.len(),
        budget_allocated(weights, budget, total) is Ok,
    ensures
        ({
            let parts = budget_allocated(weights, budget, total)->Ok_0;
            let first = allotted(parts, weights[k].node_id);
            let second = allotted(parts, weights[l].node_id);
            &&& budget * weights[k].weight < (first + 1) * total
            &&& (first - 1) * total <= budget * weights[k].weight
            &&& weights[k].weight > weights[l].weight ==> first >= second
        }),
{
    let parts = shared(weights, budget, total, Seq::empty())->Ok_0;
    let sorted = arranged::<Allocation>(parts);
    let leftover = budget - rewards_total(parts);
    let result = budget_allocated(weights, budget, total)->Ok_0;
    let p = part_of_a_claim(weights, budget, total, k);
    let q = part_of_a_claim(weights, budget, total, l);
    let (whole, rest) = product_bounds(budget, weights[k].weight, total);
    let (other, left) = product_bounds(budget, weights[l].weight, total);
    let first = allotted(result, weights[k].node_id);
    let second = allotted(result, weights[l].node_id);
    assert(whole <= first <= whole + 1);
    assert(whole * total + rest < (first + 1) * total) by (nonlinear_arith)
        requires
            whole <= first,
            rest < total,
    ;
    assert((first - 1) * total <= whole * total + rest) by (nonlinear_arith)
        requires
            first <= whole + 1,
            0 <= rest,
            0 < total,
    ;
    if weights[k].weight > weights[l].weight {
        assert(budget * weights[l].weight <= budget * weights[k].weight && (budget > 0 ==> budget
            * weights[l].weight < budget * weights[k].weight)) by (nonlinear_arith)
            requires
                weights[k].weight > weights[l].weight,
        ;
        assert(whole >= other) by (nonlinear_arith)
            requires
                other * total + left <= whole * total + rest,
                0 <= left,
                rest < total,
                0 < total,
        ;
        if whole == other && q < leftover {
            assert(budget > 0);
            assert(rest > left);
            arranged_parts_descend(parts);
            if q < p {
                assert(sorted[p].remainder <= sorted[q].remainder);
            }
            assert(p <= q);
        }
    }
}

proof fn maturing_keeps_earnings(ledger: LedgerModel, ids: Seq<u64>, at: i64, node_id: u64)
    requires
        forall|i: int| 0 <= i < ids.len() ==> ledger.nodes.contains_key(#[trigger] ids[i]),
        rewards_matured(ledger, ids, at) is Ok,
    ensures
        ({
            let matured = rewards_matured(ledger, ids, at)->Ok_0;
            &&& matured.nodes.dom() =~= ledger.nodes.dom()
            &&& node_earnings(matured.nodes[node_id]) == node_earnings(ledger.nodes[node_id])
            &&& matured.nodes[node_id].eligible_seconds_by_epoch
                == ledger.nodes[node_id].eligible_seconds_by_epoch
        }),
    decreases ids.len(),
{
    if ids.len() > 0 {
        assert(ledger.nodes.contains_key(ids[0]));
        let node = vesting_settled(ledger.nodes[ids[0]], at)->Ok_0;
        settling_moves_matured_rewards(ledger.nodes[ids[0]], at);
        let next = LedgerModel { nodes: ledger.nodes.insert(ids[0], node), ..ledger };
        let rest = ids.drop_first();
        assert forall|i: int| 0 <= i < rest.len() implies next.nodes.contains_key(
            #[trigger] rest[i],
        ) by {
            assert(rest[i] == ids[i + 1]);
        }
        maturing_keeps_earnings(next, rest, at, node_id);
    }
}

proof fn paying_adds_what_is_allotted(
    ledger: LedgerModel,
    allocations: Seq<Allocation>,
    context: ContextModel,
    node_id: u64,
)
    requires
        ledger.nodes.contains_key(node_id),
        rewards_paid(ledger, allocations, context) is Ok,
    ensures
        ({
            let paid = rewards_paid(ledger, allocations, context)->Ok_0;
            &&& paid.nodes.dom() =~= ledger.nodes.dom()
            &&& node_earnings(paid.nodes[node_id]) == node_earnings(ledger.nodes[node_id])
                + allotted(allocations, node_id)
            &&& paid.nodes[node_id].eligible_seconds_by_epoch
                == ledger.nodes[node_id].eligible_seconds_by_epoch
        }),
    decreases allocations.len(),
{
    if allocations.len() > 0 {
        let rest = allocations.drop_first();
        let first = allocations[0].node_id;
        if !ledger.nodes.contains_key(first) {
            paying_adds_what_is_allotted(ledger, rest, context, node_id);
        } else {
            let node = reward_paid(
                ledger.nodes[first],
                allocations[0].reward,
                context,
                ledger.created_at,
            )->Ok_0;
            reward_is_paid_in_full(
                ledger.nodes[first],
                allocations[0].reward,
                context,
                ledger.created_at,
            );
            paying_adds_what_is_allotted(
                LedgerModel { nodes: ledger.nodes.insert(first, node), ..ledger },
                rest,
                context,
                node_id,
            );
        }
    }
}

/// What a node earns in an epoch follows its service in that epoch: a node that was never reachable
/// earns nothing, more service never earns less, and what two nodes earn stands in the proportion of
/// their service to within a base unit each. As soon as one node has served, the whole budget of the
/// epoch is paid out, as far as the pool reaches; else nothing is. What was counted for the epoch is
/// forgotten, so that it is not paid again.
pub proof fn rewards_follow_service(ledger: LedgerModel, context: ContextModel, a: u64, b: u64)
    requires
        ledger.nodes.dom().finite(),
        ledger.nodes.contains_key(a),
        ledger.nodes.contains_key(b),
        epoch_settled(ledger, context) is Ok,
    ensures
        ({
            let after = epoch_settled(ledger, context)->Ok_0;
            let earned = node_earnings(after.nodes[a]) - node_earnings(ledger.nodes[a]);
            let other = node_earnings(after.nodes[b]) - node_earnings(ledger.nodes[b]);
            let served = service_weight(ledger.nodes[a], a, context);
            let less = service_weight(ledger.nodes[b], b, context);
            let minted = after.lifetime_minted - ledger.lifetime_minted;
            &&& 0 <= earned
            &&& served == 0 ==> earned == 0
            &&& served > less ==> earned >= other
            &&& (earned - 1) * less <= (other + 1) * served
            &&& served > 0 ==> minted == least(
                context.settings.epoch_mint_amount as int,
                ledger.pool_remaining as int,
            )
            &&& !after.nodes[a].eligible_seconds_by_epoch.contains_key(context.epoch)
            &&& forall|epoch: u64|
                epoch != context.epoch ==> #[trigger] after.nodes[a].eligible_seconds_by_epoch[epoch]
                    == ledger.nodes[a].eligible_seconds_by_epoch[epoch]
        }),
{
    let ids = node_ids(ledger);
    crate::table::ordered_lists_all::<u64>(ledger.nodes.dom());
    assert forall|i: int| 0 <= i < ids.len() implies ledger.nodes.contains_key(
        #[trigger] ids[i],
    ) by {
        assert(ids.contains(ids[i]));
    }
    maturing_keeps_earnings(ledger, ids, context.ended_at, a);
    maturing_keeps_earnings(ledger, ids, context.ended_at, b);
    maturing_keeps_pool(ledger, ids, context.ended_at);
    let matured = rewards_matured(ledger, ids, context.ended_at)->Ok_0;
    assert(matured.nodes.dom() =~= ledger.nodes.dom());
    assert(node_ids(matured) == ids);
    weights_are_of_service(matured, context, ids, Seq::empty());
    let weights = weighed(matured, context, ids, Seq::empty())->Ok_0;
    let total = weights_total(weights);
    let budget = least(
        context.settings.epoch_mint_amount as int,
        matured.pool_remaining as int,
    );
    let served = service_weight(ledger.nodes[a], a, context);
    let less = service_weight(ledger.nodes[b], b, context);
    assert(served == service_weight(matured.nodes[a], a, context));
    assert(less == service_weight(matured.nodes[b], b, context));
    service_weighs_something(ledger.nodes[a], a, context);
    service_weighs_something(ledger.nodes[b], b, context);
    assert(ids.contains(a) && ids.contains(b));
    let i = choose|i: int| 0 <= i < ids.len() && ids[i] == a;
    let j = choose|j: int| 0 <= j < ids.len() && ids[j] == b;
    if served > 0 {
        assert(service_weight(matured.nodes[ids[i]], ids[i], context) > 0);
        let k = choose|k: int| 0 <= k < weights.len() && (#[trigger] weights[k]).node_id == ids[i];
        weight_counts(weights, k);
        assert(weights[k].weight > 0);
    }
    let after = epoch_settled(ledger, context)->Ok_0;
    let earned = node_earnings(after.nodes[a]) - node_earnings(ledger.nodes[a]);
    let other = node_earnings(after.nodes[b]) - node_earnings(ledger.nodes[b]);
    if total == 0 || budget == 0 {
        assert(earned == 0 && other == 0);
        assert((0int - 1) * less <= (0int + 1) * served) by (nonlinear_arith)
            requires
                0 <= less,
                0 <= served,
        ;
    } else {
        weights_fit(matured, context, ids, Seq::empty());
        let parts = budget_allocated(weights, budget as u128, total as u128)->Ok_0;
        paying_adds_what_is_allotted(matured, parts, context, a);
        paying_adds_what_is_allotted(matured, parts, context, b);
        paying_keeps_pool(matured, parts, context);
        assert(earned == allotted(parts, a) && other == allotted(parts, b));
        if served == 0 {
            nothing_for_no_claim(weights, budget as u128, total as u128, a);
        }
        if less == 0 {
            nothing_for_no_claim(weights, budget as u128, total as u128, b);
        }
        if served > 0 && less > 0 {
            assert(service_weight(matured.nodes[ids[j]], ids[j], context) > 0);
            let k = choose|k: int|
                0 <= k < weights.len() && (#[trigger] weights[k]).node_id == ids[i];
            let l = choose|l: int|
                0 <= l < weights.len() && (#[trigger] weights[l]).node_id == ids[j];
            assert(weights[k].weight == served && weights[l].weight == less);
            parts_follow_the_claims(weights, budget as u128, total as u128, k, l);
            parts_follow_the_claims(weights, budget as u128, total as u128, l, k);
            proportions_hold(earned, other, served, less, budget, total as int);
        } else if less == 0 {
            assert((earned - 1) * 0 <= (other + 1) * served) by (nonlinear_arith)
                requires
                    0 <= other,
                    0 <= served,
            ;
        } else {
            assert((0int - 1) * less <= (other + 1) * 0) by (nonlinear_arith)
                requires
                    0 <= less,
            ;
        }
    }
}

proof fn proportions_hold(
    earned: int,
    other: int,
    served: int,
    less: int,
    budget: int,
    total: int,
)
    requires
        0 < served,
        0 < less,
        0 < total,
        (earned - 1) * total <= budget * served,
        budget * less < (other + 1) * total,
    ensures
        (earned - 1) * less <= (other + 1) * served,
{
    assert((earned - 1) * total * less <= budget * served * less) by (nonlinear_arith)
        requires
            (earned - 1) * total <= budget * served,
            0 < less,
    ;
    assert(budget * less * served <= (other + 1) * total * served) by (nonlinear_arith)
        requires
            budget * less < (other + 1) * total,
            0 < served,
    ;
    assert(((earned - 1) * less) * total <= ((other + 1) * served) * total) by (nonlinear_arith)
        requires
            (earned - 1) * total * less <= budget * served * less,
            budget * less * served <= (other + 1) * total * served,
    ;
    assert((earned - 1) * less <= (other + 1) * served) by (nonlinear_arith)
        requires
            ((earned - 1) * less) * total <= ((other + 1) * served) * total,
            0 < total,
    ;
}

proof fn service_weighs_something(node: NodeModel, node_id: u64, context: ContextModel)
    ensures
        0 <= service_weight(node, node_id, context),
{
    let seconds = if node.eligible_seconds_by_epoch.contains_key(context.epoch) {
        node.eligible_seconds_by_epoch[context.epoch] as int
    } else {
        0
    };
    assert(0 <= seconds * context.settings.validator_weight_bps) by (nonlinear_arith)
        requires
            0 <= seconds,
    ;
}

proof fn weight_counts(weights: Seq<Weight>, k: int)
    requires
        0 <= k < weights.len(),
    ensures
        weights[k].weight <= weights_total(weights),
    decreases weights.len(),
{
    if k < weights.len() - 1 {
        weight_counts(weights.drop_last(), k);
    }
}

proof fn weights_fit(
    ledger: LedgerModel,
    context: ContextModel,
    ids: Seq<u64>,
    known: Seq<Weight>,
)
    requires
        weights_total(known) <= u128::MAX,
        weighed(ledger, context, ids, known) is Ok,
    ensures
        weights_total(weighed(ledger, context, ids, known)->Ok_0) <= u128::MAX,
    decreases ids.len(),
{
    if ids.len() > 0 {
        let seconds = eligible_seconds(ledger.nodes[ids[0]], context.epoch);
        let weight = seconds * weight_bps(ids[0], context);
        if weight == 0 {
            weights_fit(ledger, context, ids.drop_first(), known);
        } else {
            let more = known.push(Weight { node_id: ids[0], weight: weight as u128 });
            assert(more.drop_last() =~= known);
            assert(weight >= 0) by (nonlinear_arith)
                requires
                    weight == seconds * weight_bps(ids[0], context),
            ;
            weights_fit(ledger, context, ids.drop_first(), more);
        }
    }
}

proof fn nothing_for_no_claim(weights: Seq<Weight>, budget: u128, total: u128, node_id: u64)
    requires
        total > 0,
        apart(weights, |claim: Weight| claim.node_id),
        forall|k: int| 0 <= k < weights.len() ==> (#[trigger] weights[k]).node_id != node_id,
        budget_allocated(weights, budget, total) is Ok,
    ensures
        allotted(budget_allocated(weights, budget, total)->Ok_0, node_id) == 0,
{
    let parts = shared(weights, budget, total, Seq::empty())->Ok_0;
    parts_are_rounded_down(weights, budget, total, Seq::empty());
    let sorted = arranged::<Allocation>(parts);
    let leftover = budget - rewards_total(parts);
    let result = topped_up(sorted, leftover);
    crate::sequence::arranged_keeps_items::<Allocation>(parts);
    assert forall|k: int| 0 <= k < result.len() implies (#[trigger] result[k]).node_id
        != node_id by {
        broadcast use vstd::seq_lib::group_to_multiset_ensures;

        assert(sorted.contains(sorted[k]));
        assert(sorted.to_multiset().count(sorted[k]) > 0);
        assert(parts.contains(sorted[k]));
        let p = choose|p: int| 0 <= p < parts.len() && parts[p] == sorted[k];
        assert(parts[0 + p].node_id == weights[p].node_id);
    }
    nothing_allotted(result, node_id);
}

proof fn nothing_allotted(allocations: Seq<Allocation>, node_id: u64)
    requires
        forall|k: int| 0 <= k < allocations.len() ==> (#[trigger] allocations[k]).node_id != node_id,
    ensures
        allotted(allocations, node_id) == 0,
    decreases allocations.len(),
{
    if allocations.len() > 0 {
        let rest = allocations.drop_first();
        assert forall|k: int| 0 <= k < rest.len() implies (#[trigger] rest[k]).node_id
            != node_id by {
            assert(rest[k] == allocations[k + 1]);
        }
        nothing_allotted(rest, node_id);
    }
}

/// A reward fills the service bond up first, to what the epoch asked for and no further. Only what is
/// left becomes claimable, its immediate part rounded down, and the rest vests.
pub proof fn rewards_fill_the_bond_first(
    node: NodeModel,
    reward: u128,
    context: ContextModel,
    created_at: i64,
)
    requires
        reward_paid(node, reward, context, created_at) is Ok,
    ensures
        ({
            let paid = reward_paid(node, reward, context, created_at)->Ok_0;
            let bonded = paid.service_bond - node.service_bond;
            let at_once = paid.claimable_reward - node.claimable_reward;
            let vesting = buckets_total(paid.reward_vesting_buckets) - buckets_total(
                node.reward_vesting_buckets,
            );
            let rest = reward - bonded;
            &&& 0 <= bonded <= reward
            &&& bonded > 0 ==> paid.service_bond <= context.settings.required_service_bond
            &&& paid.service_bond < context.settings.required_service_bond ==> rest == 0
            &&& at_once * 10_000 <= rest * context.settings.reward_immediate_bps
            &&& rest * context.settings.reward_immediate_bps < (at_once + 1) * 10_000
            &&& vesting == rest - at_once
        }),
{
    reward_is_paid_in_full(node, reward, context, created_at);
    let missing = if context.settings.required_service_bond > node.service_bond {
        context.settings.required_service_bond - node.service_bond
    } else {
        0
    };
    let rest = reward - least(reward as int, missing);
    assert(rest * context.settings.reward_immediate_bps >= 0) by (nonlinear_arith)
        requires
            rest >= 0,
    ;
}

/// An epoch is settled only when it is over and takes no more attestations.
pub proof fn running_epochs_are_not_settled(ledger: LedgerModel, at: i64, epoch: u64)
    requires
        ledger.epoch_contexts.dom().finite(),
        forall|key: u64| #[trigger]
            ledger.epoch_contexts.contains_key(key) ==> ledger.epoch_contexts[key].epoch == key,
    ensures
        final_epochs(ledger, at).contains(epoch) <==> ledger.epoch_contexts.contains_key(epoch)
            && epoch < ledger.epoch_number && ledger.epoch_contexts[epoch].submission_deadline <= at,
{
    let keys = ordered::<u64>(ledger.epoch_contexts.dom());
    let chosen = |key: u64| epoch_is_final(ledger, key, at);
    let number = |key: u64| ledger.epoch_contexts[key].epoch;
    crate::table::ordered_lists_all::<u64>(ledger.epoch_contexts.dom());
    crate::sequence::filtered_are_chosen(keys, chosen);
    let kept = keys.filter(chosen);
    let found = final_epochs(ledger, at);
    assert(found == kept.map_values(number));
    if found.contains(epoch) {
        let i = choose|i: int| 0 <= i < found.len() && found[i] == epoch;
        assert(kept.contains(kept[i]));
        assert(keys.contains(kept[i]));
        assert(ledger.epoch_contexts.contains_key(kept[i]));
        assert(number(kept[i]) == epoch);
        assert(chosen(epoch));
    }
    if ledger.epoch_contexts.contains_key(epoch) && chosen(epoch) {
        assert(keys.contains(epoch));
        assert(kept.contains(epoch));
        let i = choose|i: int| 0 <= i < kept.len() && kept[i] == epoch;
        assert(found[i] == epoch);
    }
}

} // verus!
