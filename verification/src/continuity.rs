use vstd::prelude::*;
use vstd::string::*;
use vstd::utf8::*;

use crate::accounts::with_account;
use crate::attestation::attestation_applied;
use crate::bonds::{validator_bond_added, validator_bonded};
use crate::candidates::{operation_applied, route_of, EnvelopeModel, Route};
use crate::chain::chain_next_height;
use crate::committee::{arranged_stay_unique, committee_refreshed};
use crate::crypto::signature_checked;
use crate::envelope::{made_at, signer_prepared};
use crate::epochs::{
    current_context_closed, current_context_ensured, epoch_settings_fixed, epoch_turned,
    epochs_advanced, epochs_turned, scheduled_changes_taken,
};
use crate::execution::{
    block_ended, block_prepared, block_replayed, named_envelope, nothing_is_pending_after_a_block,
    operation_executed, operation_placed, operations_executed, operations_finalized,
    operations_placed, replay_base,
};
use crate::fees::{envelope_checked, next_multiplier};
use crate::governance::{direct_action_applied, genesis_fixed, genesis_of};
use crate::history::commitment_checked;
use crate::lifecycle::{
    draining_ids, node_exited, node_slashed, nodes_exited, nodes_slashed, offline_ids,
    offline_settled,
};
use crate::model::{
    AccountModel, CheckpointModel, ContextModel, KeyModel, LedgerModel, NodeConfigModel,
    OperationModel, OperationStatus, ReceiptModel, SignedModel,
};
use crate::network_operations::network_step;
use crate::node_operations::{
    address_step, node_step, registry_step, settlement_read, settlement_step, stake_step,
};
use crate::nodes::node_ids;
use crate::number::least;
use crate::operations::{
    cancellable_ids, enqueued, fee_charged, idle_voting_reset, operation_finalized, pending_of,
    proposal_cancelled, proposals_cancelled, record_of, Pending,
};
use crate::payload::{required_amount, required_u64, PayloadModel};
use crate::production::{may_produce, node1_state};
use crate::proposals::{governance_action_applied, proposal_executed};
use crate::protocol::MAX_BLOCK_OPERATIONS;
use crate::registration::{node_registered, reward_ip_updated};
use crate::rewards::{
    budget_allocated, epoch_forgotten, epoch_settled, epochs_settled, final_epochs, reward_paid,
    rewards_matured, rewards_paid, settling_keeps_supply, slots_without, weighed, weights_total,
    Allocation,
};
use crate::sequence::{arranged, arranged_keeps_items};
use crate::supply::leaves_chain;
use crate::table::ordered_lists_all;
use crate::traffic::{
    amounts_due, authorization_settled, claim_checked, escrow_released, income_shared, protocol_fee,
    released_amount, traffic_settled, TrafficProtocolFee,
};
use crate::transfers::{transfer_applied, transfer_read, transfer_submitted};
use crate::vesting::vesting_settled;

verus! {

/// Whether an account has a key.
pub open spec fn is_keyed(ledger: LedgerModel, address: Seq<char>) -> bool {
    ledger.accounts.contains_key(address) && ledger.accounts[address].public_key is Some
}

/// Whether there are finitely many nodes, none with a number that has not been given out yet.
pub open spec fn nodes_are_numbered(ledger: LedgerModel) -> bool {
    &&& ledger.nodes.dom().finite()
    &&& forall|node_id: u64| #[trigger]
        ledger.nodes.contains_key(node_id) ==> node_id < ledger.next_node_id
}

/// Whether every node of a ledger is in another, with the same owner.
pub open spec fn owners_stay(before: LedgerModel, after: LedgerModel) -> bool {
    forall|node_id: u64| #[trigger]
        before.nodes.contains_key(node_id) ==> after.nodes.contains_key(node_id)
            && after.nodes[node_id].owner_address == before.nodes[node_id].owner_address
            && after.nodes[node_id].owner_public_key == before.nodes[node_id].owner_public_key
            && after.nodes[node_id].registered_at == before.nodes[node_id].registered_at
}

/// Whether a ledger goes on from another: it has the same chain, every account that had a key still
/// has one, and, as long as there are numbers left for nodes, every node keeps its owner.
pub open spec fn goes_on(before: LedgerModel, after: LedgerModel) -> bool {
    &&& leaves_chain(before, after)
    &&& after.finalized_checkpoint == before.finalized_checkpoint
    &&& after.operation_history_from_height == before.operation_history_from_height
    &&& before.next_node_id <= after.next_node_id
    &&& forall|address: Seq<char>| #[trigger]
        is_keyed(before, address) ==> is_keyed(after, address)
    &&& nodes_are_numbered(before) && after.next_node_id < u64::MAX ==> nodes_are_numbered(after)
        && owners_stay(before, after) && (genesis_of(before) is Some ==> genesis_of(after)
        == genesis_of(before))
}

/// Whether a ledger goes on from another with the same operations, of which the same are pending.
pub open spec fn steps_on(before: LedgerModel, after: LedgerModel) -> bool {
    &&& goes_on(before, after)
    &&& after.operations == before.operations
    &&& after.pending_operation_ids == before.pending_operation_ids
}

proof fn steps_follow(first: LedgerModel, second: LedgerModel, third: LedgerModel)
    requires
        goes_on(first, second),
        goes_on(second, third),
    ensures
        goes_on(first, third),
{
    assert forall|address: Seq<char>| #[trigger] is_keyed(first, address) implies is_keyed(
        third,
        address,
    ) by {
        assert(is_keyed(second, address));
    }
}

proof fn cancelling_steps_on(ledger: LedgerModel, ids: Seq<u64>, now: i64)
    ensures
        steps_on(ledger, proposals_cancelled(ledger, ids, now)),
    decreases ids.len(),
{
    if ids.len() > 0 {
        let next = proposal_cancelled(ledger, ids[0], now);
        assert(steps_on(ledger, next));
        cancelling_steps_on(next, ids.drop_first(), now);
        steps_follow(ledger, next, proposals_cancelled(ledger, ids, now));
    }
}

/// Whether a ledger goes on from another with one more operation, which is kept as it was signed.
pub open spec fn takes_operation(
    before: LedgerModel,
    after: LedgerModel,
    operation: SignedModel,
) -> bool {
    let id = operation.intake.operation_id;
    &&& goes_on(before, after)
    &&& after.operations == before.operations.insert(id, after.operations[id])
    &&& is_record_of(after.operations[id], operation)
    &&& queues(before.pending_operation_ids, after.pending_operation_ids, id)
}

/// Whether one more operation is pending.
pub open spec fn queues(before: Seq<Seq<char>>, after: Seq<Seq<char>>, id: Seq<char>) -> bool {
    &&& after.len() <= MAX_BLOCK_OPERATIONS
    &&& before.no_duplicates() && !before.contains(id) ==> after.no_duplicates() && forall|
        other: Seq<char>,
    | #[trigger] after.contains(other) <==> before.contains(other) || other == id
}

proof fn enqueuing_queues(ledger: LedgerModel, id: Seq<char>, record: OperationModel)
    requires
        ledger.pending_operation_ids.len() < MAX_BLOCK_OPERATIONS,
    ensures
        queues(
            ledger.pending_operation_ids,
            enqueued(ledger, id, record).pending_operation_ids,
            id,
        ),
{
    let before = ledger.pending_operation_ids;
    let added = LedgerModel {
        operations: ledger.operations.insert(id, record),
        pending_operation_ids: before.push(id),
        ..ledger
    };
    let ids = before.push(id);
    let items = ids.map_values(|other: Seq<char>| pending_of(added, other));
    let sorted = arranged::<Pending>(items);
    let after = enqueued(ledger, id, record).pending_operation_ids;
    arranged_keeps_items::<Pending>(items);
    if before.no_duplicates() && !before.contains(id) {
        assert forall|i: int, j: int| 0 <= i < ids.len() && 0 <= j < ids.len() && i != j implies
            ids[i] != ids[j] by {
            assert(i < before.len() ==> before.contains(ids[i]));
            assert(j < before.len() ==> before.contains(ids[j]));
        }
        assert forall|i: int, j: int|
            0 <= i < items.len() && 0 <= j < items.len() && i != j implies items[i] != items[j] by {
            assert(items[i].operation_id == ids[i] && items[j].operation_id == ids[j]);
        }
        arranged_stay_unique::<Pending>(items);
        assert forall|i: int| 0 <= i < sorted.len() implies #[trigger] sorted[i] == pending_of(
            added,
            sorted[i].operation_id,
        ) && ids.contains(sorted[i].operation_id) by {
            assert(sorted.contains(sorted[i]));
            let j = choose|j: int| 0 <= j < items.len() && items[j] == sorted[i];
            assert(items[j].operation_id == ids[j]);
        }
        assert forall|i: int, j: int|
            0 <= i < after.len() && 0 <= j < after.len() && i != j implies after[i] != after[j] by {
            assert(after[i] == sorted[i].operation_id && after[j] == sorted[j].operation_id);
        }
        assert forall|other: Seq<char>| #[trigger] after.contains(other) <==> before.contains(other)
            || other == id by {
            if after.contains(other) {
                let i = choose|i: int| 0 <= i < after.len() && after[i] == other;
                assert(sorted[i].operation_id == other);
                let j = choose|j: int| 0 <= j < ids.len() && ids[j] == other;
                assert(j < before.len() ==> before[j] == other);
            }
            if before.contains(other) || other == id {
                if other == id {
                    assert(ids[before.len() as int] == other);
                } else {
                    let j = choose|j: int| 0 <= j < before.len() && before[j] == other;
                    assert(ids[j] == other);
                }
                assert(ids.contains(other));
                let j = choose|j: int| 0 <= j < ids.len() && ids[j] == other;
                assert(items[j] == pending_of(added, other));
                assert(items.contains(items[j]));
                assert(sorted.contains(items[j]));
                let i = choose|i: int| 0 <= i < sorted.len() && sorted[i] == items[j];
                assert(after[i] == other);
            }
        }
    }
}

/// Whether a record is that of a signed operation that is in no block yet.
pub open spec fn is_record_of(record: OperationModel, operation: SignedModel) -> bool {
    &&& record.operation_id == operation.intake.operation_id
    &&& record.signature == operation.signature
    &&& record.payload == operation.unsigned.payload
    &&& record.kind == operation.unsigned.module + "."@ + operation.unsigned.action
    &&& record.signed_operation == Some(operation)
    &&& record.block_height is None
}

proof fn queueing_takes_operation(ledger: LedgerModel, operation: SignedModel, now: i64)
    requires
        operation_finalized(ledger, operation, operation.intake.operation_id, now) is Ok,
    ensures
        takes_operation(
            ledger,
            operation_finalized(ledger, operation, operation.intake.operation_id, now)->Ok_0,
            operation,
        ),
        operation_finalized(
            ledger,
            operation,
            operation.intake.operation_id,
            now,
        )->Ok_0.operations[operation.intake.operation_id].status == OperationStatus::Pending,
{
    reveal(operation_finalized);
    let reset = idle_voting_reset(ledger, now);
    let ids = cancellable_ids(reset, now);
    let tidied = proposals_cancelled(reset, ids, now);
    assert(steps_on(ledger, reset));
    cancelling_steps_on(reset, ids, now);
    steps_follow(ledger, reset, tidied);
    let charged = fee_charged(tidied, operation)->Ok_0.0;
    assert(steps_on(tidied, charged));
    steps_follow(ledger, tidied, charged);
    let next = operation_finalized(ledger, operation, operation.intake.operation_id, now)->Ok_0;
    assert(goes_on(charged, next));
    steps_follow(ledger, charged, next);
    let signer = operation.unsigned.signer;
    let account = charged.accounts[signer];
    let numbered = with_account(
        charged,
        signer,
        AccountModel {
            nonce: operation.unsigned.account_nonce,
            operation_ids: account.operation_ids.push(operation.intake.operation_id),
            ..account
        },
    );
    enqueuing_queues(
        numbered,
        operation.intake.operation_id,
        record_of(
            operation,
            operation.intake.operation_id,
            fee_charged(tidied, operation)->Ok_0.1,
        ),
    );
}

proof fn refreshing_steps_on(ledger: LedgerModel, now: i64)
    ensures
        steps_on(ledger, committee_refreshed(ledger, now)),
{
    reveal(committee_refreshed);
    assert(committee_refreshed(ledger, now).nodes.dom() =~= ledger.nodes.dom());
}

proof fn registering_steps_on(
    ledger: LedgerModel,
    payload: PayloadModel,
    signer: Seq<char>,
    public_key: Seq<char>,
    at: i64,
    now: i64,
)
    requires
        node_registered(ledger, payload, signer, public_key, at, now) is Ok,
    ensures
        steps_on(ledger, node_registered(ledger, payload, signer, public_key, at, now)->Ok_0),
{
    reveal(node_registered);
}

proof fn moving_steps_on(
    ledger: LedgerModel,
    payload: PayloadModel,
    signer: Seq<char>,
    public_key: Seq<char>,
    now: i64,
)
    requires
        address_step(ledger, payload, signer, public_key, now) is Ok,
    ensures
        steps_on(ledger, address_step(ledger, payload, signer, public_key, now)->Ok_0),
{
    reveal(reward_ip_updated);
}

proof fn registry_steps_on(
    ledger: LedgerModel,
    public_key: Seq<char>,
    operation: SignedModel,
    now: i64,
)
    requires
        registry_step(ledger, public_key, operation, now) is Ok,
    ensures
        steps_on(ledger, registry_step(ledger, public_key, operation, now)->Ok_0),
{
    reveal(registry_step);
    let payload = operation.unsigned.payload;
    let signer = operation.unsigned.signer;
    let at = made_at(operation);
    if node_registered(ledger, payload, signer, public_key, at, now) is Ok {
        registering_steps_on(ledger, payload, signer, public_key, at, now);
    }
    if address_step(ledger, payload, signer, public_key, now) is Ok {
        moving_steps_on(ledger, payload, signer, public_key, now);
    }
}

proof fn bonding_steps_on(
    ledger: LedgerModel,
    payload: PayloadModel,
    signer: Seq<char>,
    at: i64,
)
    requires
        validator_bonded(ledger, payload, signer, at) is Ok,
    ensures
        steps_on(ledger, validator_bonded(ledger, payload, signer, at)->Ok_0),
{
    let node_id = required_u64(payload, "node_id"@, "Node ID is invalid"@)->Ok_0;
    let amount = required_amount(payload, "amount_base_units"@)->Ok_0;
    let bonded = validator_bond_added(ledger, node_id, signer, amount, at)->Ok_0;
    assert(steps_on(ledger, bonded));
    refreshing_steps_on(bonded, at);
    steps_follow(ledger, bonded, committee_refreshed(bonded, at));
}

proof fn stake_steps_on(
    ledger: LedgerModel,
    public_key: Seq<char>,
    operation: SignedModel,
    now: i64,
)
    requires
        stake_step(ledger, public_key, operation, now) is Ok,
    ensures
        steps_on(ledger, stake_step(ledger, public_key, operation, now)->Ok_0),
{
    reveal(stake_step);
    let payload = operation.unsigned.payload;
    let signer = operation.unsigned.signer;
    let at = made_at(operation);
    if validator_bonded(ledger, payload, signer, at) is Ok {
        bonding_steps_on(ledger, payload, signer, at);
    }
}

proof fn attesting_steps_on(
    ledger: LedgerModel,
    public_key: Seq<char>,
    operation: SignedModel,
    operation_id: Seq<char>,
    executed_at: i64,
)
    requires
        attestation_applied(ledger, public_key, operation, operation_id, executed_at) is Ok,
    ensures
        steps_on(
            ledger,
            attestation_applied(ledger, public_key, operation, operation_id, executed_at)->Ok_0,
        ),
{
    reveal(attestation_applied);
}

proof fn sharing_steps_on(
    ledger: LedgerModel,
    node_id: u64,
    amount: u128,
    fee: TrafficProtocolFee,
    received_at: i64,
    operation_id: Seq<char>,
)
    requires
        ledger.nodes.contains_key(node_id),
        income_shared(ledger, node_id, amount, fee, received_at, operation_id) is Ok,
    ensures
        steps_on(
            ledger,
            income_shared(ledger, node_id, amount, fee, received_at, operation_id)->Ok_0,
        ),
{
}

proof fn claims_name_a_node(
    ledger: LedgerModel,
    signer: Seq<char>,
    signer_key: Seq<char>,
    checkpoint: CheckpointModel,
    receipt: ReceiptModel,
    executed_at: i64,
)
    requires
        claim_checked(ledger, signer, signer_key, checkpoint, receipt, executed_at) is Ok,
    ensures
        ledger.nodes.contains_key(checkpoint.node_id),
{
}

proof fn settling_traffic_steps_on(
    ledger: LedgerModel,
    public_key: Seq<char>,
    operation: SignedModel,
)
    requires
        settlement_step(ledger, public_key, operation) is Ok,
    ensures
        steps_on(ledger, settlement_step(ledger, public_key, operation)->Ok_0.0),
{
    reveal(traffic_settled);
    let (checkpoint, receipt) = settlement_read(operation.unsigned.payload)->Ok_0;
    let at = made_at(operation);
    let authorization = ledger.payment_authorizations[checkpoint.authorization_id];
    claims_name_a_node(
        ledger,
        operation.unsigned.signer,
        public_key,
        checkpoint,
        receipt,
        at,
    );
    let due = amounts_due(authorization, checkpoint)->Ok_0;
    let settled = authorization_settled(authorization, checkpoint, receipt, due.0, at);
    let noted = LedgerModel {
        payment_authorizations: ledger.payment_authorizations.insert(
            checkpoint.authorization_id,
            settled,
        ),
        ..ledger
    };
    let released = escrow_released(
        noted,
        authorization.network_commitment,
        released_amount(authorization, checkpoint, due.0),
        "Network Fund overflow while closing Relay session"@,
    )->Ok_0;
    let counted = LedgerModel {
        total_settled_traffic_bytes: (released.total_settled_traffic_bytes + due.1) as u128,
        ..released
    };
    let fee = protocol_fee(
        due.0,
        authorization.traffic_protocol_fee_bps,
        authorization.traffic_treasury_share_bps,
    )->Ok_0;
    assert(steps_on(ledger, counted));
    let id = operation.intake.operation_id;
    sharing_steps_on(counted, checkpoint.node_id, due.0, fee, receipt.received_at, id);
    steps_follow(
        ledger,
        counted,
        income_shared(counted, checkpoint.node_id, due.0, fee, receipt.received_at, id)->Ok_0,
    );
}

proof fn node_steps_on(
    ledger: LedgerModel,
    public_key: Seq<char>,
    operation: SignedModel,
    now: i64,
)
    requires
        node_step(ledger, public_key, operation, now) is Ok,
    ensures
        steps_on(ledger, node_step(ledger, public_key, operation, now)->Ok_0.0),
{
    reveal(node_step);
    let id = operation.intake.operation_id;
    if registry_step(ledger, public_key, operation, now) is Ok {
        registry_steps_on(ledger, public_key, operation, now);
    }
    if stake_step(ledger, public_key, operation, now) is Ok {
        stake_steps_on(ledger, public_key, operation, now);
    }
    if attestation_applied(ledger, public_key, operation, id, made_at(operation)) is Ok {
        attesting_steps_on(ledger, public_key, operation, id, made_at(operation));
    }
    if settlement_step(ledger, public_key, operation) is Ok {
        settling_traffic_steps_on(ledger, public_key, operation);
    }
}

proof fn network_steps_on(
    ledger: LedgerModel,
    public_key: Seq<char>,
    operation: SignedModel,
)
    requires
        network_step(ledger, public_key, operation) is Ok,
    ensures
        steps_on(ledger, network_step(ledger, public_key, operation)->Ok_0.0),
{
    reveal(network_step);
}

proof fn governing_directly_steps_on(
    ledger: LedgerModel,
    public_key: Seq<char>,
    operation: SignedModel,
    operation_id: Seq<char>,
    executed_at: i64,
)
    requires
        direct_action_applied(ledger, public_key, operation, operation_id, executed_at) is Ok,
    ensures
        steps_on(
            ledger,
            direct_action_applied(ledger, public_key, operation, operation_id, executed_at)->Ok_0,
        ),
{
    let found = genesis_fixed(ledger)->Ok_0;
    let ids = cancellable_ids(found.0, executed_at);
    let tidied = proposals_cancelled(found.0, ids, executed_at);
    assert(steps_on(ledger, found.0));
    cancelling_steps_on(found.0, ids, executed_at);
    steps_follow(ledger, found.0, tidied);
    let next = direct_action_applied(
        ledger,
        public_key,
        operation,
        operation_id,
        executed_at,
    )->Ok_0;
    assert(next.nodes.dom() =~= tidied.nodes.dom());
    assert(steps_on(tidied, next));
    steps_follow(ledger, tidied, next);
}

proof fn carrying_out_steps_on(
    ledger: LedgerModel,
    payload: PayloadModel,
    operation_id: Seq<char>,
    executed_at: i64,
    proposal_id: u64,
)
    requires
        proposal_executed(ledger, payload, operation_id, executed_at, proposal_id) is Ok,
    ensures
        steps_on(
            ledger,
            proposal_executed(ledger, payload, operation_id, executed_at, proposal_id)->Ok_0,
        ),
{
    let next = proposal_executed(ledger, payload, operation_id, executed_at, proposal_id)->Ok_0;
    assert(next.nodes.dom() =~= ledger.nodes.dom());
}

proof fn governing_steps_on(
    ledger: LedgerModel,
    public_key: Seq<char>,
    operation: SignedModel,
    operation_id: Seq<char>,
    executed_at: i64,
)
    requires
        governance_action_applied(ledger, public_key, operation, operation_id, executed_at) is Ok,
    ensures
        steps_on(
            ledger,
            governance_action_applied(
                ledger,
                public_key,
                operation,
                operation_id,
                executed_at,
            )->Ok_0,
        ),
{
    reveal(governance_action_applied);
    let action = operation.unsigned.action;
    if action == "SetParameters"@ || action == "PauseEmission"@ || action == "ResumeEmission"@ {
        governing_directly_steps_on(ledger, public_key, operation, operation_id, executed_at);
    } else if action == "CreateProposal"@ {
    } else if action == "VoteProposal"@ {
    } else if action == "ValidatorVoteProposal"@ {
    } else {
        let payload = operation.unsigned.payload;
        let proposal_id = required_u64(payload, "proposal_id"@, "proposal ID is invalid"@)->Ok_0;
        if proposal_executed(ledger, payload, operation_id, executed_at, proposal_id) is Ok {
            carrying_out_steps_on(ledger, payload, operation_id, executed_at, proposal_id);
        }
    }
}

proof fn leaving_steps_on(ledger: LedgerModel, ids: Seq<u64>, at: i64)
    requires
        nodes_exited(ledger, ids, at) is Ok,
    ensures
        steps_on(ledger, nodes_exited(ledger, ids, at)->Ok_0),
    decreases ids.len(),
{
    if ids.len() > 0 {
        let next = node_exited(ledger, ids[0], at)->Ok_0;
        assert(steps_on(ledger, next));
        leaving_steps_on(next, ids.drop_first(), at);
        steps_follow(ledger, next, nodes_exited(ledger, ids, at)->Ok_0);
    }
}

proof fn slashing_steps_on(ledger: LedgerModel, ids: Seq<u64>, at: i64)
    requires
        nodes_slashed(ledger, ids, at) is Ok,
    ensures
        steps_on(ledger, nodes_slashed(ledger, ids, at)->Ok_0),
    decreases ids.len(),
{
    if ids.len() > 0 {
        let next = node_slashed(ledger, ids[0], at)->Ok_0;
        assert(steps_on(ledger, next));
        slashing_steps_on(next, ids.drop_first(), at);
        steps_follow(ledger, next, nodes_slashed(ledger, ids, at)->Ok_0);
    }
}

proof fn maturing_steps_on(ledger: LedgerModel, ids: Seq<u64>, at: i64)
    requires
        rewards_matured(ledger, ids, at) is Ok,
        forall|i: int| 0 <= i < ids.len() ==> ledger.nodes.contains_key(#[trigger] ids[i]),
    ensures
        steps_on(ledger, rewards_matured(ledger, ids, at)->Ok_0),
    decreases ids.len(),
{
    if ids.len() > 0 {
        let node = vesting_settled(ledger.nodes[ids[0]], at)->Ok_0;
        let next = LedgerModel { nodes: ledger.nodes.insert(ids[0], node), ..ledger };
        assert(steps_on(ledger, next));
        assert forall|i: int| 0 <= i < ids.drop_first().len() implies next.nodes.contains_key(
            #[trigger] ids.drop_first()[i],
        ) by {
            assert(ids.drop_first()[i] == ids[i + 1]);
        }
        maturing_steps_on(next, ids.drop_first(), at);
        steps_follow(ledger, next, rewards_matured(ledger, ids, at)->Ok_0);
    }
}

proof fn paying_steps_on(
    ledger: LedgerModel,
    allocations: Seq<Allocation>,
    context: ContextModel,
)
    requires
        rewards_paid(ledger, allocations, context) is Ok,
    ensures
        steps_on(ledger, rewards_paid(ledger, allocations, context)->Ok_0),
    decreases allocations.len(),
{
    if allocations.len() > 0 {
        let node_id = allocations[0].node_id;
        if !ledger.nodes.contains_key(node_id) {
            paying_steps_on(ledger, allocations.drop_first(), context);
        } else {
            let node = reward_paid(
                ledger.nodes[node_id],
                allocations[0].reward,
                context,
                ledger.created_at,
            )->Ok_0;
            let next = LedgerModel { nodes: ledger.nodes.insert(node_id, node), ..ledger };
            assert(steps_on(ledger, next));
            paying_steps_on(next, allocations.drop_first(), context);
            steps_follow(ledger, next, rewards_paid(ledger, allocations, context)->Ok_0);
        }
    }
}

proof fn forgetting_steps_on(ledger: LedgerModel, epoch: u64)
    ensures
        steps_on(ledger, epoch_forgotten(ledger, epoch)),
{
    assert(epoch_forgotten(ledger, epoch).nodes.dom() =~= ledger.nodes.dom());
}

proof fn settling_once_steps_on(ledger: LedgerModel, context: ContextModel)
    requires
        epoch_settled(ledger, context) is Ok,
    ensures
        steps_on(ledger, epoch_settled(ledger, context)->Ok_0),
{
    let next = epoch_settled(ledger, context)->Ok_0;
    settling_keeps_supply(ledger, context);
    if ledger.nodes.dom().finite() {
        ordered_lists_all::<u64>(ledger.nodes.dom());
        let ids = node_ids(ledger);
        assert forall|i: int| 0 <= i < ids.len() implies ledger.nodes.contains_key(
            #[trigger] ids[i],
        ) by {
            assert(ids.contains(ids[i]));
        }
        maturing_steps_on(ledger, ids, context.ended_at);
        let matured = rewards_matured(ledger, ids, context.ended_at)->Ok_0;
        let weights = weighed(matured, context, node_ids(matured), Seq::empty())->Ok_0;
        let budget = least(
            context.settings.epoch_mint_amount as int,
            matured.pool_remaining as int,
        );
        if weights_total(weights) == 0 || budget == 0 {
            forgetting_steps_on(matured, context.epoch);
        } else {
            let allocations = budget_allocated(
                weights,
                budget as u128,
                weights_total(weights) as u128,
            )->Ok_0;
            paying_steps_on(matured, allocations, context);
            let paid = rewards_paid(matured, allocations, context)->Ok_0;
            forgetting_steps_on(paid, context.epoch);
            steps_follow(matured, paid, epoch_forgotten(paid, context.epoch));
            assert(steps_on(epoch_forgotten(paid, context.epoch), next));
            steps_follow(matured, epoch_forgotten(paid, context.epoch), next);
        }
        steps_follow(ledger, matured, next);
    }
}

proof fn settling_steps_on(ledger: LedgerModel, epochs: Seq<u64>)
    requires
        epochs_settled(ledger, epochs) is Ok,
    ensures
        steps_on(ledger, epochs_settled(ledger, epochs)->Ok_0),
    decreases epochs.len(),
{
    if epochs.len() > 0 {
        let context = ledger.epoch_contexts[epochs[0]];
        settling_once_steps_on(ledger, context);
        let settled = epoch_settled(ledger, context)->Ok_0;
        let next = LedgerModel {
            epoch_contexts: settled.epoch_contexts.remove(epochs[0]),
            availability_slots: slots_without(settled.availability_slots, epochs[0]),
            ..settled
        };
        assert(steps_on(settled, next));
        settling_steps_on(next, epochs.drop_first());
        steps_follow(ledger, settled, next);
        steps_follow(ledger, next, epochs_settled(ledger, epochs)->Ok_0);
    }
}

proof fn ending_steps_on(ledger: LedgerModel, timestamp: i64)
    requires
        block_ended(ledger, timestamp) is Ok,
    ensures
        goes_on(ledger, block_ended(ledger, timestamp)->Ok_0),
        block_ended(ledger, timestamp)->Ok_0.operations == ledger.operations,
{
    reveal(block_ended);
    let epochs = final_epochs(ledger, timestamp);
    settling_steps_on(ledger, epochs);
    let settled = epochs_settled(ledger, epochs)->Ok_0;
    slashing_steps_on(settled, offline_ids(settled, timestamp), timestamp);
    let slashed = offline_settled(settled, timestamp)->Ok_0;
    leaving_steps_on(slashed, draining_ids(slashed), timestamp);
    let left = nodes_exited(slashed, draining_ids(slashed), timestamp)->Ok_0;
    steps_follow(ledger, settled, slashed);
    steps_follow(ledger, slashed, left);
    steps_follow(ledger, left, block_ended(ledger, timestamp)->Ok_0);
}

proof fn one_turn_steps_on(ledger: LedgerModel, epoch_end: i64)
    requires
        epoch_turned(ledger, epoch_end) is Ok,
    ensures
        steps_on(ledger, epoch_turned(ledger, epoch_end)->Ok_0),
{
    let closed = current_context_closed(ledger)->Ok_0;
    let numbered = LedgerModel {
        epoch_started_at: epoch_end,
        epoch_number: (closed.epoch_number + 1) as u64,
        ..closed
    };
    let changed = scheduled_changes_taken(numbered)->Ok_0;
    let multiplier = next_multiplier(ledger)->Ok_0;
    let fixed = epoch_settings_fixed(changed, multiplier);
    let refreshed = committee_refreshed(fixed, epoch_end);
    let next = epoch_turned(ledger, epoch_end)->Ok_0;
    assert(steps_on(ledger, fixed));
    refreshing_steps_on(fixed, epoch_end);
    steps_follow(ledger, fixed, refreshed);
    assert(steps_on(refreshed, next));
    steps_follow(ledger, refreshed, next);
}

proof fn turning_steps_on(ledger: LedgerModel, at: i64)
    requires
        epochs_turned(ledger, at) is Ok,
    ensures
        steps_on(ledger, epochs_turned(ledger, at)->Ok_0),
    decreases u64::MAX - ledger.epoch_number,
{
    let epoch = ledger.epoch_number;
    let epoch_end = ledger.epoch_contexts[epoch].ended_at;
    if at >= epoch_end {
        one_turn_steps_on(ledger, epoch_end);
        let next = epoch_turned(ledger, epoch_end)->Ok_0;
        if next.epoch_number > epoch {
            turning_steps_on(next, at);
            steps_follow(ledger, next, epochs_turned(ledger, at)->Ok_0);
        }
    }
}

pub(crate) proof fn advancing_steps_on(ledger: LedgerModel, at: i64)
    requires
        epochs_advanced(ledger, at) is Ok,
    ensures
        steps_on(ledger, epochs_advanced(ledger, at)->Ok_0),
{
    let ensured = current_context_ensured(ledger)->Ok_0;
    assert(steps_on(ledger, ensured));
    turning_steps_on(ensured, at);
    steps_follow(ledger, ensured, epochs_advanced(ledger, at)->Ok_0);
}


proof fn preparing_steps_on(
    ledger: LedgerModel,
    public_key: Seq<char>,
    operation: SignedModel,
    refusal: Seq<char>,
)
    requires
        signer_prepared(ledger, public_key, operation, refusal) is Ok,
    ensures
        ({
            let prepared = signer_prepared(ledger, public_key, operation, refusal)->Ok_0;
            steps_on(ledger, prepared) && is_keyed(prepared, operation.unsigned.signer)
        }),
{
}

proof fn transfers_take_operation(
    ledger: LedgerModel,
    public_key: Seq<char>,
    operation: SignedModel,
    now: i64,
)
    requires
        transfer_submitted(ledger, public_key, operation, now) is Ok,
        !ledger.operations.contains_key(operation.intake.operation_id),
    ensures
        ({
            let next = transfer_submitted(ledger, public_key, operation, now)->Ok_0.0;
            &&& takes_operation(ledger, next, operation)
            &&& is_keyed(next, operation.unsigned.signer)
            &&& next.operations[operation.intake.operation_id].status == OperationStatus::Pending
        }),
{
    let (to, amount) = transfer_read(public_key, operation, now)->Ok_0;
    let price = envelope_checked(ledger, operation.unsigned, operation.intake.fee_units)->Ok_0;
    let spent = (amount + price.fee) as u128;
    let moved = transfer_applied(ledger, public_key, operation, to, amount, spent)->Ok_0;
    assert(steps_on(ledger, moved));
    assert(is_keyed(moved, operation.unsigned.signer));
    queueing_takes_operation(moved, operation, made_at(operation));
    let next = transfer_submitted(ledger, public_key, operation, now)->Ok_0.0;
    steps_follow(ledger, moved, next);
}

pub(crate) proof fn applying_takes_operation(
    ledger: LedgerModel,
    public_key: Seq<char>,
    operation: SignedModel,
    now: i64,
)
    requires
        operation_applied(ledger, public_key, operation, now) is Ok,
        !ledger.operations.contains_key(operation.intake.operation_id),
    ensures
        ({
            let next = operation_applied(ledger, public_key, operation, now)->Ok_0;
            &&& takes_operation(ledger, next, operation)
            &&& is_keyed(next, operation.unsigned.signer)
            &&& next.operations[operation.intake.operation_id].status == OperationStatus::Pending
            &&& signature_checked(
                public_key,
                operation.intake.signing_bytes,
                operation.signature,
            ) is Ok
        }),
{
    let id = operation.intake.operation_id;
    let at = made_at(operation);
    let refusal = "operation nonce is not the next account nonce"@;
    let next = operation_applied(ledger, public_key, operation, now)->Ok_0;
    let route = route_of(operation.unsigned.module, operation.unsigned.action);
    if route is Transfer {
        transfers_take_operation(ledger, public_key, operation, now);
    } else {
        let prepared = signer_prepared(ledger, public_key, operation, refusal)->Ok_0;
        preparing_steps_on(ledger, public_key, operation, refusal);
        let stepped = match route {
            Route::Network => network_step(prepared, public_key, operation)->Ok_0.0,
            Route::Governance => governance_action_applied(
                prepared,
                public_key,
                operation,
                id,
                at,
            )->Ok_0,
            _ => node_step(prepared, public_key, operation, now)->Ok_0.0,
        };
        match route {
            Route::Network => {
                network_steps_on(prepared, public_key, operation);
            },
            Route::Governance => {
                governing_steps_on(prepared, public_key, operation, id, at);
            },
            _ => {
                node_steps_on(prepared, public_key, operation, now);
            },
        }
        steps_follow(ledger, prepared, stepped);
        queueing_takes_operation(stepped, operation, at);
        let queued = operation_finalized(stepped, operation, id, at)->Ok_0;
        steps_follow(ledger, stepped, queued);
        assert(next.operations =~= ledger.operations.insert(id, next.operations[id]));
        assert(goes_on(queued, next));
        steps_follow(ledger, queued, next);
    }
}

proof fn executing_takes_operation(state: LedgerModel, envelope: EnvelopeModel, timestamp: i64)
    requires
        operation_executed(state, envelope, timestamp) is Ok,
        !state.operations.contains_key(envelope.operation.intake.operation_id),
    ensures
        ({
            let next = operation_executed(state, envelope, timestamp)->Ok_0;
            &&& takes_operation(state, next, envelope.operation)
            &&& is_keyed(next, envelope.operation.unsigned.signer)
        }),
{
    reveal(operation_executed);
    let (key, operation) = (envelope.public_key, envelope.operation);
    if operation_applied(state, key, operation, timestamp) is Ok {
        applying_takes_operation(state, key, operation, timestamp);
    } else {
        let id = operation.intake.operation_id;
        let refusal = "rejected operation nonce is not the next account nonce"@;
        let prepared = signer_prepared(state, key, operation, refusal)->Ok_0;
        preparing_steps_on(state, key, operation, refusal);
        queueing_takes_operation(prepared, operation, timestamp);
        let queued = operation_finalized(prepared, operation, id, timestamp)->Ok_0;
        steps_follow(state, prepared, queued);
        let next = operation_executed(state, envelope, timestamp)->Ok_0;
        assert(next.operations =~= state.operations.insert(id, next.operations[id]));
        assert(goes_on(queued, next));
        steps_follow(state, queued, next);
    }
}

/// Whether a ledger names an operation by the identifier under which it keeps the operation.
spec fn is_named(ledger: LedgerModel, id: Seq<char>) -> bool {
    ledger.operations[id].signed_operation matches Some(signed) ==> signed.intake.operation_id
        == id
}

/// Whether a ledger has gone on from another by operations that a third one has signed.
spec fn takes_operations(
    ledger: LedgerModel,
    before: LedgerModel,
    after: LedgerModel,
    taken: Seq<Seq<char>>,
) -> bool {
    &&& goes_on(before, after)
    &&& taken.no_duplicates()
    &&& forall|id: Seq<char>| #[trigger]
        before.operations.contains_key(id) ==> after.operations.contains_key(id)
            && after.operations[id] == before.operations[id]
    &&& forall|id: Seq<char>| #[trigger]
        after.operations.contains_key(id) ==> before.operations.contains_key(id) || taken.contains(
            id,
        )
    &&& forall|i: int|
        0 <= i < taken.len() ==> !before.operations.contains_key(#[trigger] taken[i])
            && after.operations.contains_key(taken[i])
            && ledger.operations[taken[i]].signed_operation is Some && is_record_of(
            after.operations[taken[i]],
            ledger.operations[taken[i]].signed_operation->0,
        ) && is_keyed(
            after,
            ledger.operations[taken[i]].signed_operation->0.unsigned.signer,
        )
}

proof fn execution_takes_operations(
    ledger: LedgerModel,
    state: LedgerModel,
    ids: Seq<Seq<char>>,
    accepted: Seq<Seq<char>>,
    timestamp: i64,
    skip: bool,
)
    requires
        operations_executed(ledger, state, ids, accepted, timestamp, skip) is Ok,
        ids.no_duplicates(),
        forall|i: int|
            0 <= i < ids.len() ==> !state.operations.contains_key(#[trigger] ids[i]) && is_named(
                ledger,
                ids[i],
            ),
    ensures
        ({
            let (end, list) = operations_executed(
                ledger,
                state,
                ids,
                accepted,
                timestamp,
                skip,
            )->Ok_0;
            let taken = list.skip(accepted.len() as int);
            &&& accepted.len() <= list.len() <= accepted.len() + ids.len()
            &&& list.take(accepted.len() as int) == accepted
            &&& takes_operations(ledger, state, end, taken)
            &&& forall|i: int| 0 <= i < taken.len() ==> ids.contains(#[trigger] taken[i])
            &&& !skip ==> taken == ids
        }),
    decreases ids.len(),
{
    let (end, list) = operations_executed(ledger, state, ids, accepted, timestamp, skip)->Ok_0;
    let taken = list.skip(accepted.len() as int);
    if ids.len() == 0 {
        assert(list.take(accepted.len() as int) =~= accepted);
        assert(taken =~= ids);
    } else {
        let envelope = named_envelope(ledger, ids[0])->Ok_0;
        let rest = ids.drop_first();
        assert forall|i: int| 0 <= i < rest.len() implies #[trigger] rest[i] == ids[i + 1]
            && rest[i] != ids[0] by {}
        assert(rest.no_duplicates());
        match operation_executed(state, envelope, timestamp) {
            Ok(next) => {
                let id = ids[0];
                assert(is_named(ledger, ids[0]));
                assert(envelope.operation.intake.operation_id == id);
                executing_takes_operation(state, envelope, timestamp);
                let more = accepted.push(id);
                execution_takes_operations(ledger, next, rest, more, timestamp, skip);
                let others = list.skip(more.len() as int);
                assert(list[accepted.len() as int] == id) by {
                    assert(list.take(more.len() as int)[accepted.len() as int] == id);
                }
                assert(list.take(accepted.len() as int) =~= accepted) by {
                    assert(list.take(more.len() as int).take(accepted.len() as int)
                        =~= list.take(accepted.len() as int));
                    assert(more.take(accepted.len() as int) =~= accepted);
                }
                assert(taken =~= seq![id] + others);
                assert(ids =~= seq![id] + rest);
                steps_follow(state, next, end);
                assert forall|i: int| 0 <= i < taken.len() implies ids.contains(
                    #[trigger] taken[i],
                ) && (i > 0 ==> taken[i] != id) by {
                    if i > 0 {
                        assert(taken[i] == others[i - 1]);
                        assert(rest.contains(others[i - 1]));
                        let j = choose|j: int| 0 <= j < rest.len() && rest[j] == others[i - 1];
                        assert(ids[j + 1] == taken[i]);
                    }
                }
                assert forall|i: int, j: int|
                    0 <= i < taken.len() && 0 <= j < taken.len() && i != j implies taken[i]
                    != taken[j] by {
                    if i > 0 && j > 0 {
                        assert(taken[i] == others[i - 1] && taken[j] == others[j - 1]);
                    }
                }
                assert forall|i: int| 0 <= i < taken.len() implies !state.operations.contains_key(
                    #[trigger] taken[i],
                ) && end.operations.contains_key(taken[i])
                    && ledger.operations[taken[i]].signed_operation is Some && is_record_of(
                    end.operations[taken[i]],
                    ledger.operations[taken[i]].signed_operation->0,
                ) && is_keyed(
                    end,
                    ledger.operations[taken[i]].signed_operation->0.unsigned.signer,
                ) by {
                    if i > 0 {
                        assert(taken[i] == others[i - 1]);
                    } else {
                        assert(next.operations.contains_key(id));
                    }
                }
                assert forall|other: Seq<char>| #[trigger]
                    end.operations.contains_key(other) implies state.operations.contains_key(other)
                    || taken.contains(other) by {
                    if !next.operations.contains_key(other) {
                        let j = choose|j: int| 0 <= j < others.len() && others[j] == other;
                        assert(taken[j + 1] == other);
                    } else if other == id {
                        assert(taken[0] == other);
                    }
                }
                assert forall|other: Seq<char>| #[trigger]
                    state.operations.contains_key(other) implies end.operations.contains_key(other)
                    && end.operations[other] == state.operations[other] by {
                    assert(next.operations.contains_key(other));
                }
            },
            Err(_) => {
                execution_takes_operations(ledger, state, rest, accepted, timestamp, skip);
                assert forall|i: int| 0 <= i < taken.len() implies ids.contains(
                    #[trigger] taken[i],
                ) by {
                    assert(rest.contains(taken[i]));
                    let j = choose|j: int| 0 <= j < rest.len() && rest[j] == taken[i];
                    assert(ids[j + 1] == taken[i]);
                }
            },
        }
    }
}

proof fn placing_goes_on(ledger: LedgerModel, ids: Seq<Seq<char>>, height: u64)
    ensures
        ({
            let placed = operations_placed(ledger, ids, height);
            &&& goes_on(ledger, placed)
            &&& placed.operations.dom() == ledger.operations.dom()
            &&& forall|id: Seq<char>| #[trigger]
                placed.operations.contains_key(id) ==> placed.operations[id] == (if ids.contains(
                    id,
                ) {
                    OperationModel {
                        status: placed.operations[id].status,
                        block_height: Some(height),
                        ..ledger.operations[id]
                    }
                } else {
                    ledger.operations[id]
                }) && (ids.contains(id) ==> placed.operations[id].status
                    != OperationStatus::Pending)
        }),
    decreases ids.len(),
{
    if ids.len() > 0 {
        let next = operation_placed(ledger, ids[0], height);
        let rest = ids.drop_first();
        assert(goes_on(ledger, next));
        assert(next.operations.dom() =~= ledger.operations.dom());
        placing_goes_on(next, rest, height);
        let placed = operations_placed(ledger, ids, height);
        steps_follow(ledger, next, placed);
        assert forall|id: Seq<char>| #[trigger] placed.operations.contains_key(id) implies (
        ids.contains(id) <==> id == ids[0] || rest.contains(id)) by {
            if ids.contains(id) && id != ids[0] {
                let j = choose|j: int| 0 <= j < ids.len() && ids[j] == id;
                assert(rest[j - 1] == id);
            }
            if rest.contains(id) {
                let j = choose|j: int| 0 <= j < rest.len() && rest[j] == id;
                assert(ids[j + 1] == id);
            }
        }
    }
}

proof fn finalizing_goes_on(ledger: LedgerModel, ids: Seq<Seq<char>>, height: u64)
    requires
        operations_finalized(ledger, ids, height) is Ok,
    ensures
        ({
            let placed = operations_finalized(ledger, ids, height)->Ok_0;
            &&& goes_on(ledger, placed)
            &&& placed.operations.dom() == ledger.operations.dom()
            &&& forall|id: Seq<char>| #[trigger]
                placed.operations.contains_key(id) ==> placed.operations[id] == (if ids.contains(
                    id,
                ) {
                    OperationModel {
                        status: OperationStatus::Finalized,
                        block_height: Some(height),
                        ..ledger.operations[id]
                    }
                } else {
                    ledger.operations[id]
                })
        }),
    decreases ids.len(),
{
    if ids.len() > 0 {
        let next = LedgerModel {
            operations: ledger.operations.insert(
                ids[0],
                OperationModel {
                    status: OperationStatus::Finalized,
                    block_height: Some(height),
                    ..ledger.operations[ids[0]]
                },
            ),
            ..ledger
        };
        let rest = ids.drop_first();
        assert(goes_on(ledger, next));
        assert(next.operations.dom() =~= ledger.operations.dom());
        finalizing_goes_on(next, rest, height);
        let placed = operations_finalized(ledger, ids, height)->Ok_0;
        steps_follow(ledger, next, placed);
        assert forall|id: Seq<char>| #[trigger] placed.operations.contains_key(id) implies (
        ids.contains(id) <==> id == ids[0] || rest.contains(id)) by {
            if ids.contains(id) && id != ids[0] {
                let j = choose|j: int| 0 <= j < ids.len() && ids[j] == id;
                assert(rest[j - 1] == id);
            }
            if rest.contains(id) {
                let j = choose|j: int| 0 <= j < rest.len() && rest[j] == id;
                assert(ids[j + 1] == id);
            }
        }
    }
}

/// Whether an operation that a ledger had pending is in the block of a height.
pub open spec fn is_in_block(
    ledger: LedgerModel,
    after: LedgerModel,
    id: Seq<char>,
    height: u64,
) -> bool {
    let record = after.operations[id];
    &&& after.operations.contains_key(id)
    &&& record.operation_id == id
    &&& record.status != OperationStatus::Pending
    &&& record.block_height == Some(height)
    &&& record.signed_operation matches Some(signed) ==> {
        &&& ledger.operations[id].signed_operation == Some(signed)
        &&& signed.intake.operation_id == id
        &&& record.signature == signed.signature
        &&& record.payload == signed.unsigned.payload
        &&& record.kind == signed.unsigned.module + "."@ + signed.unsigned.action
        &&& is_keyed(after, signed.unsigned.signer)
    }
}

/// Whether a ledger has gone on from another by a block of operations that a third one had pending.
pub open spec fn takes_block(
    ledger: LedgerModel,
    before: LedgerModel,
    after: LedgerModel,
    ids: Seq<Seq<char>>,
    height: u64,
) -> bool {
    &&& goes_on(before, after)
    &&& ids.no_duplicates()
    &&& forall|id: Seq<char>| #[trigger]
        before.operations.contains_key(id) && !ids.contains(id)
            ==> after.operations.contains_key(id) && after.operations[id] == before.operations[id]
    &&& forall|id: Seq<char>| #[trigger]
        after.operations.contains_key(id) ==> before.operations.contains_key(id) || ids.contains(id)
    &&& forall|i: int|
        0 <= i < ids.len() ==> is_in_block(ledger, after, #[trigger] ids[i], height)
}

proof fn blocks_step_on(
    ledger: LedgerModel,
    before: LedgerModel,
    middle: LedgerModel,
    after: LedgerModel,
    ids: Seq<Seq<char>>,
    height: u64,
)
    requires
        takes_block(ledger, before, middle, ids, height),
        goes_on(middle, after),
        after.operations == middle.operations,
    ensures
        takes_block(ledger, before, after, ids, height),
{
    steps_follow(before, middle, after);
    assert forall|i: int| 0 <= i < ids.len() implies is_in_block(
        ledger,
        after,
        #[trigger] ids[i],
        height,
    ) by {
        assert(is_in_block(ledger, middle, ids[i], height));
    }
}

/// Whether the operations that are pending may go into a block: none stands twice or is in a block
/// already, and each is what its signer has signed.
pub open spec fn pending_is_sound(ledger: LedgerModel) -> bool {
    &&& ledger.pending_operation_ids.no_duplicates()
    &&& forall|i: int|
        0 <= i < ledger.pending_operation_ids.len() ==> may_enter_block(
            ledger,
            #[trigger] ledger.pending_operation_ids[i],
        )
}

/// Whether an operation is pending, is in no block, and is what its signer has signed.
pub open spec fn may_enter_block(ledger: LedgerModel, id: Seq<char>) -> bool {
    let record = ledger.operations[id];
    &&& ledger.operations.contains_key(id)
    &&& record.operation_id == id
    &&& record.status == OperationStatus::Pending
    &&& record.block_height is None
    &&& record.signed_operation matches Some(signed) ==> commitment_checked(
        ledger,
        id,
        record,
        signed,
    ) is Ok
    &&& forall|b: int|
        0 <= b < ledger.blocks.len() ==> !(#[trigger] ledger.blocks[b]).operation_ids.contains(id)
}

/// The state from which the next block is executed: the last final state with the chain, or the
/// ledger itself where there is none.
pub open spec fn execution_base(ledger: LedgerModel) -> LedgerModel {
    match ledger.finalized_checkpoint {
        Some(checkpoint) => replay_base(ledger, *checkpoint),
        None => ledger,
    }
}

pub(crate) proof fn replaying_takes_block(
    ledger: LedgerModel,
    ids: Seq<Seq<char>>,
    height: u64,
    timestamp: i64,
    skip: bool,
)
    requires
        ledger.finalized_checkpoint is Some,
        ids.no_duplicates(),
        forall|i: int| 0 <= i < ids.len() ==> may_enter_block(ledger, #[trigger] ids[i]),
        block_replayed(ledger, ids, height, timestamp, skip) is Ok,
    ensures
        ({
            let (after, taken) = block_replayed(ledger, ids, height, timestamp, skip)->Ok_0;
            &&& takes_block(ledger, execution_base(ledger), after, taken, height)
            &&& taken.len() <= ids.len()
            &&& forall|i: int| 0 <= i < taken.len() ==> ids.contains(#[trigger] taken[i])
            &&& !skip ==> taken == ids
        }),
{
    reveal(block_replayed);
    reveal(commitment_checked);
    let base = execution_base(ledger);
    let begun = epochs_advanced(base, timestamp)->Ok_0;
    advancing_steps_on(base, timestamp);
    assert forall|i: int| 0 <= i < ids.len() implies !begun.operations.contains_key(
        #[trigger] ids[i],
    ) && is_named(ledger, ids[i]) by {
        assert(may_enter_block(ledger, ids[i]));
    }
    execution_takes_operations(ledger, begun, ids, Seq::empty(), timestamp, skip);
    let (executed, taken) = operations_executed(
        ledger,
        begun,
        ids,
        Seq::empty(),
        timestamp,
        skip,
    )->Ok_0;
    assert(taken.skip(0) =~= taken);
    placing_goes_on(executed, taken, height);
    let placed = operations_placed(executed, taken, height);
    steps_follow(base, begun, executed);
    steps_follow(base, executed, placed);
    assert forall|i: int| 0 <= i < taken.len() implies is_in_block(
        ledger,
        placed,
        #[trigger] taken[i],
        height,
    ) by {
        let id = taken[i];
        assert(executed.operations.contains_key(id));
        assert(placed.operations.contains_key(id));
        assert(taken.contains(id));
        assert(is_named(ledger, id)) by {
            let j = choose|j: int| 0 <= j < ids.len() && ids[j] == id;
            assert(is_named(ledger, ids[j]));
        }
    }
    assert forall|id: Seq<char>| #[trigger]
        base.operations.contains_key(id) && !taken.contains(id) implies
        placed.operations.contains_key(id) && placed.operations[id] == base.operations[id] by {
        assert(begun.operations.contains_key(id));
        assert(executed.operations.contains_key(id));
        assert(placed.operations.contains_key(id));
    }
    assert forall|id: Seq<char>| #[trigger] placed.operations.contains_key(id) implies
        base.operations.contains_key(id) || taken.contains(id) by {
        assert(executed.operations.contains_key(id));
    }
    ending_steps_on(placed, timestamp);
    blocks_step_on(
        ledger,
        base,
        placed,
        block_ended(placed, timestamp)->Ok_0,
        taken,
        height,
    );
}

pub(crate) proof fn finishing_takes_block(
    ledger: LedgerModel,
    begun: LedgerModel,
    height: u64,
    timestamp: i64,
)
    requires
        pending_is_sound(ledger),
        steps_on(ledger, begun),
        operations_finalized(begun, ledger.pending_operation_ids, height) is Ok,
        block_ended(
            operations_finalized(begun, ledger.pending_operation_ids, height)->Ok_0,
            timestamp,
        ) is Ok,
    ensures
        takes_block(
            ledger,
            ledger,
            block_ended(
                operations_finalized(begun, ledger.pending_operation_ids, height)->Ok_0,
                timestamp,
            )->Ok_0,
            ledger.pending_operation_ids,
            height,
        ),
{
    reveal(commitment_checked);
    let ids = ledger.pending_operation_ids;
    let placed = operations_finalized(begun, ids, height)->Ok_0;
    finalizing_goes_on(begun, ids, height);
    steps_follow(ledger, begun, placed);
    assert forall|i: int| 0 <= i < ids.len() implies is_in_block(
        ledger,
        placed,
        #[trigger] ids[i],
        height,
    ) by {
        let id = ids[i];
        assert(may_enter_block(ledger, id));
        assert(placed.operations.contains_key(id));
        assert(ids.contains(id));
        if let Some(signed) = ledger.operations[id].signed_operation {
            assert(is_keyed(ledger, signed.unsigned.signer));
            assert(is_keyed(begun, signed.unsigned.signer));
        }
    }
    assert forall|id: Seq<char>| #[trigger]
        ledger.operations.contains_key(id) && !ids.contains(id) implies
        placed.operations.contains_key(id) && placed.operations[id] == ledger.operations[id] by {
        assert(placed.operations.contains_key(id));
    }
    ending_steps_on(placed, timestamp);
    blocks_step_on(
        ledger,
        ledger,
        placed,
        block_ended(placed, timestamp)->Ok_0,
        ids,
        height,
    );
}

pub(crate) proof fn producing_takes_block(
    ledger: LedgerModel,
    config: NodeConfigModel,
    owner: KeyModel,
    allow_empty: bool,
    now: i64,
)
    requires
        pending_is_sound(ledger),
        node1_state(ledger, config, owner, allow_empty, now) is Ok,
    ensures
        ({
            let (state, taken) = node1_state(ledger, config, owner, allow_empty, now)->Ok_0;
            let ids = ledger.pending_operation_ids;
            &&& takes_block(
                ledger,
                execution_base(ledger),
                state,
                taken,
                chain_next_height(ledger),
            )
            &&& taken.len() <= ids.len() <= MAX_BLOCK_OPERATIONS
            &&& forall|i: int| 0 <= i < taken.len() ==> ids.contains(#[trigger] taken[i])
            &&& state.pending_operation_ids.len() == 0
        }),
{
    reveal(block_prepared);
    let (found, genesis) = may_produce(ledger, config, owner, allow_empty, now)->Ok_0;
    let ids = ledger.pending_operation_ids;
    let height = chain_next_height(ledger);
    assert(steps_on(ledger, found));
    assert(found.pending_operation_ids == ids);
    assert(pending_is_sound(found)) by {
        reveal(commitment_checked);
        assert forall|i: int| 0 <= i < ids.len() implies may_enter_block(
            found,
            #[trigger] ids[i],
        ) by {
            assert(may_enter_block(ledger, ids[i]));
        }
    }
    let (prepared, taken) = block_prepared(found, ids, height, now, true)->Ok_0;
    nothing_is_pending_after_a_block(found, ids, height, now, true);
    if ledger.finalized_checkpoint is Some {
        replaying_takes_block(found, ids, height, now, true);
        assert(execution_base(found) == execution_base(ledger));
        assert(takes_block(ledger, execution_base(ledger), prepared, taken, height)) by {
            assert forall|i: int| 0 <= i < taken.len() implies is_in_block(
                ledger,
                prepared,
                #[trigger] taken[i],
                height,
            ) by {
                assert(is_in_block(found, prepared, taken[i], height));
            }
        }
    } else {
        let begun = epochs_advanced(found, now)->Ok_0;
        advancing_steps_on(found, now);
        steps_follow(ledger, found, begun);
        finishing_takes_block(ledger, begun, height, now);
    }
    let reset = idle_voting_reset(prepared, now);
    assert(steps_on(prepared, reset));
    blocks_step_on(ledger, execution_base(ledger), prepared, reset, taken, height);
    refreshing_steps_on(reset, now);
    let state = committee_refreshed(reset, now);
    blocks_step_on(ledger, execution_base(ledger), reset, state, taken, height);
    assert(state.pending_operation_ids == prepared.pending_operation_ids) by {
        reveal(committee_refreshed);
    }
}

} // verus!
