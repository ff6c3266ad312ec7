use vstd::prelude::*;
use vstd::string::*;
use vstd::utf8::*;

use crate::attestation::attestation_applied;
use crate::blocks::{block_signed, hash_of, previous_hash};
use crate::candidates::{operation_applied, route_of, EnvelopeModel, Route};
use crate::chain::{chain_height, chain_next_height};
use crate::committee::committee_refreshed;
use crate::crypto::signature_checked;
use crate::drafts::{draft_committed, DraftModel};
use crate::envelope::{made_at, signer_prepared};
use crate::epochs::{epoch_turned, epochs_advanced, epochs_turned};
use crate::execution::{
    block_ended, block_prepared, block_replayed, named_envelope, operation_executed,
    operations_executed, operations_finalized, operations_placed, replay_base,
};
use crate::lifecycle::{
    draining_ids, node_exited, node_slashed, nodes_exited, nodes_slashed, offline_ids,
    offline_settled,
};
use crate::model::{
    IntakeModel, KeyModel, LedgerModel, NodeConfigModel, OperationModel, OperationStatus,
    SignedModel,
};
use crate::network_operations::network_step;
use crate::node_operations::{node_step, registry_step, stake_step};
use crate::operations::{
    cancellable_ids, idle_voting_reset, operation_finalized, proposal_cancelled,
    proposals_cancelled,
};
use crate::production::{may_produce, node1_block_made};
use crate::proposals::governance_action_applied;
use crate::protocol::{initial_ledger, MAX_SUPPLY};
use crate::registration::{node_registered, reward_ip_updated};
use crate::rewards::{
    epoch_settled, epochs_settled, final_epochs, settling_epochs_keeps_supply,
    settling_keeps_supply, slots_without,
};
use crate::traffic::traffic_settled;
use crate::transfers::transfer_submitted;

verus! {

/// What has been minted and what is left to mint, together.
pub open spec fn supply(ledger: LedgerModel) -> int {
    ledger.pool_remaining + ledger.lifetime_minted
}

/// Whether one ledger has minted what the other has.
pub open spec fn mints_nothing(before: LedgerModel, after: LedgerModel) -> bool {
    &&& after.pool_remaining == before.pool_remaining
    &&& after.lifetime_minted == before.lifetime_minted
}

/// Whether two ledgers have the same chain.
pub open spec fn leaves_chain(before: LedgerModel, after: LedgerModel) -> bool {
    &&& after.ledger_id == before.ledger_id
    &&& after.blocks == before.blocks
    &&& after.pruned_through_height == before.pruned_through_height
    &&& after.pruned_tip_hash == before.pruned_tip_hash
    &&& after.pruned_tip_timestamp == before.pruned_tip_timestamp
}

/// Whether two ledgers have the same chain and have minted the same.
pub open spec fn stays_apart(before: LedgerModel, after: LedgerModel) -> bool {
    mints_nothing(before, after) && leaves_chain(before, after)
}

proof fn cancelling_mints_nothing(ledger: LedgerModel, ids: Seq<u64>, now: i64)
    ensures
        stays_apart(ledger, proposals_cancelled(ledger, ids, now)),
    decreases ids.len(),
{
    if ids.len() > 0 {
        cancelling_mints_nothing(
            proposal_cancelled(ledger, ids[0], now),
            ids.drop_first(),
            now,
        );
    }
}

proof fn queueing_mints_nothing(
    ledger: LedgerModel,
    operation: SignedModel,
    operation_id: Seq<char>,
    now: i64,
)
    requires
        operation_finalized(ledger, operation, operation_id, now) is Ok,
    ensures
        stays_apart(
            ledger,
            operation_finalized(ledger, operation, operation_id, now)->Ok_0,
        ),
{
    reveal(operation_finalized);
    let reset = idle_voting_reset(ledger, now);
    cancelling_mints_nothing(reset, cancellable_ids(reset, now), now);
}

proof fn refreshing_mints_nothing(ledger: LedgerModel, now: i64)
    ensures
        stays_apart(ledger, committee_refreshed(ledger, now)),
{
    reveal(committee_refreshed);
}

proof fn registry_steps_mint_nothing(
    ledger: LedgerModel,
    public_key: Seq<char>,
    operation: SignedModel,
    now: i64,
)
    requires
        registry_step(ledger, public_key, operation, now) is Ok,
    ensures
        stays_apart(ledger, registry_step(ledger, public_key, operation, now)->Ok_0),
{
    reveal(registry_step);
    reveal(node_registered);
    reveal(reward_ip_updated);
}

proof fn stake_steps_mint_nothing(
    ledger: LedgerModel,
    public_key: Seq<char>,
    operation: SignedModel,
    now: i64,
)
    requires
        stake_step(ledger, public_key, operation, now) is Ok,
    ensures
        stays_apart(ledger, stake_step(ledger, public_key, operation, now)->Ok_0),
{
    reveal(stake_step);
    reveal(committee_refreshed);
}

proof fn attesting_mints_nothing(
    ledger: LedgerModel,
    public_key: Seq<char>,
    operation: SignedModel,
    operation_id: Seq<char>,
    executed_at: i64,
)
    requires
        attestation_applied(ledger, public_key, operation, operation_id, executed_at) is Ok,
    ensures
        stays_apart(
            ledger,
            attestation_applied(ledger, public_key, operation, operation_id, executed_at)->Ok_0,
        ),
{
    reveal(attestation_applied);
}

proof fn node_steps_mint_nothing(
    ledger: LedgerModel,
    public_key: Seq<char>,
    operation: SignedModel,
    now: i64,
)
    requires
        node_step(ledger, public_key, operation, now) is Ok,
    ensures
        stays_apart(ledger, node_step(ledger, public_key, operation, now)->Ok_0.0),
{
    reveal(node_step);
    let id = operation.intake.operation_id;
    if registry_step(ledger, public_key, operation, now) is Ok {
        registry_steps_mint_nothing(ledger, public_key, operation, now);
    }
    if stake_step(ledger, public_key, operation, now) is Ok {
        stake_steps_mint_nothing(ledger, public_key, operation, now);
    }
    if attestation_applied(ledger, public_key, operation, id, made_at(operation)) is Ok {
        attesting_mints_nothing(ledger, public_key, operation, id, made_at(operation));
    }
    reveal(traffic_settled);
}

proof fn network_steps_mint_nothing(
    ledger: LedgerModel,
    public_key: Seq<char>,
    operation: SignedModel,
)
    requires
        network_step(ledger, public_key, operation) is Ok,
    ensures
        stays_apart(ledger, network_step(ledger, public_key, operation)->Ok_0.0),
{
    reveal(network_step);
}

proof fn governing_mints_nothing(
    ledger: LedgerModel,
    public_key: Seq<char>,
    operation: SignedModel,
    operation_id: Seq<char>,
    executed_at: i64,
)
    requires
        governance_action_applied(ledger, public_key, operation, operation_id, executed_at) is Ok,
    ensures
        stays_apart(
            ledger,
            governance_action_applied(
                ledger,
                public_key,
                operation,
                operation_id,
                executed_at,
            )->Ok_0,
        ),
{
    reveal(governance_action_applied);
    match crate::governance::genesis_fixed(ledger) {
        Ok(found) => {
            cancelling_mints_nothing(
                found.0,
                cancellable_ids(found.0, executed_at),
                executed_at,
            );
        },
        Err(_) => {},
    }
}

/// No operation mints anything, and none touches the chain: whatever an operation does, the pool, the
/// count of what has been minted and the blocks stay what they were.
pub proof fn operations_mint_nothing(
    ledger: LedgerModel,
    public_key: Seq<char>,
    operation: SignedModel,
    now: i64,
)
    requires
        operation_applied(ledger, public_key, operation, now) is Ok,
    ensures
        stays_apart(ledger, operation_applied(ledger, public_key, operation, now)->Ok_0),
{
    let id = operation.intake.operation_id;
    let at = made_at(operation);
    let refusal = "operation nonce is not the next account nonce"@;
    if !ledger.operations.contains_key(id) {
        match route_of(operation.unsigned.module, operation.unsigned.action) {
            Route::Transfer => {
                transfers_mint_nothing(ledger, public_key, operation, now);
            },
            Route::Network => {
                let prepared = signer_prepared(ledger, public_key, operation, refusal)->Ok_0;
                network_steps_mint_nothing(prepared, public_key, operation);
                let stepped = network_step(prepared, public_key, operation)->Ok_0.0;
                queueing_mints_nothing(stepped, operation, id, at);
            },
            Route::Governance => {
                let prepared = signer_prepared(ledger, public_key, operation, refusal)->Ok_0;
                governing_mints_nothing(prepared, public_key, operation, id, at);
                let applied = governance_action_applied(
                    prepared,
                    public_key,
                    operation,
                    id,
                    at,
                )->Ok_0;
                queueing_mints_nothing(applied, operation, id, at);
            },
            Route::Node => {
                let prepared = signer_prepared(ledger, public_key, operation, refusal)->Ok_0;
                node_steps_mint_nothing(prepared, public_key, operation, now);
                let stepped = node_step(prepared, public_key, operation, now)->Ok_0.0;
                queueing_mints_nothing(stepped, operation, id, at);
            },
            Route::Nobody => {},
        }
    }
}

proof fn transfers_mint_nothing(
    ledger: LedgerModel,
    public_key: Seq<char>,
    operation: SignedModel,
    now: i64,
)
    requires
        transfer_submitted(ledger, public_key, operation, now) is Ok,
    ensures
        stays_apart(ledger, transfer_submitted(ledger, public_key, operation, now)->Ok_0.0),
{
    let id = operation.intake.operation_id;
    if !ledger.operations.contains_key(id) {
        let (to, amount) = crate::transfers::transfer_read(public_key, operation, now)->Ok_0;
        let price = crate::fees::envelope_checked(
            ledger,
            operation.unsigned,
            operation.intake.fee_units,
        )->Ok_0;
        let moved = crate::transfers::transfer_applied(
            ledger,
            public_key,
            operation,
            to,
            amount,
            (amount + price.fee) as u128,
        )->Ok_0;
        queueing_mints_nothing(moved, operation, id, made_at(operation));
    }
}

/// Committing a signed draft mints nothing beyond what the draft holds, and touches no block.
pub proof fn committed_drafts_mint_nothing(
    draft: DraftModel,
    public_key: Seq<char>,
    signature: Seq<char>,
    intake: IntakeModel,
    now: i64,
)
    requires
        draft_committed(draft, public_key, signature, intake, now) is Ok,
    ensures
        stays_apart(
            draft.ledger,
            draft_committed(draft, public_key, signature, intake, now)->Ok_0,
        ),
{
    queueing_mints_nothing(
        draft.ledger,
        crate::drafts::draft_signed(draft, signature, intake),
        intake.operation_id,
        now,
    );
}

proof fn leaving_mints_nothing(ledger: LedgerModel, ids: Seq<u64>, at: i64)
    requires
        nodes_exited(ledger, ids, at) is Ok,
    ensures
        stays_apart(ledger, nodes_exited(ledger, ids, at)->Ok_0),
    decreases ids.len(),
{
    if ids.len() > 0 {
        let next = node_exited(ledger, ids[0], at)->Ok_0;
        leaving_mints_nothing(next, ids.drop_first(), at);
    }
}

proof fn slashing_mints_nothing(ledger: LedgerModel, ids: Seq<u64>, at: i64)
    requires
        nodes_slashed(ledger, ids, at) is Ok,
    ensures
        stays_apart(ledger, nodes_slashed(ledger, ids, at)->Ok_0),
    decreases ids.len(),
{
    if ids.len() > 0 {
        let next = node_slashed(ledger, ids[0], at)->Ok_0;
        slashing_mints_nothing(next, ids.drop_first(), at);
    }
}

proof fn settling_leaves_chain(ledger: LedgerModel, epochs: Seq<u64>)
    requires
        epochs_settled(ledger, epochs) is Ok,
    ensures
        leaves_chain(ledger, epochs_settled(ledger, epochs)->Ok_0),
    decreases epochs.len(),
{
    if epochs.len() > 0 {
        let context = ledger.epoch_contexts[epochs[0]];
        settling_keeps_supply(ledger, context);
        let settled = epoch_settled(ledger, context)->Ok_0;
        settling_leaves_chain(
            LedgerModel {
                epoch_contexts: settled.epoch_contexts.remove(epochs[0]),
                availability_slots: slots_without(settled.availability_slots, epochs[0]),
                ..settled
            },
            epochs.drop_first(),
        );
    }
}

proof fn ending_keeps_supply(ledger: LedgerModel, timestamp: i64)
    requires
        block_ended(ledger, timestamp) is Ok,
    ensures
        supply(block_ended(ledger, timestamp)->Ok_0) == supply(ledger),
        leaves_chain(ledger, block_ended(ledger, timestamp)->Ok_0),
{
    reveal(block_ended);
    let epochs = final_epochs(ledger, timestamp);
    settling_epochs_keeps_supply(ledger, epochs);
    settling_leaves_chain(ledger, epochs);
    let settled = epochs_settled(ledger, epochs)->Ok_0;
    slashing_mints_nothing(settled, offline_ids(settled, timestamp), timestamp);
    let slashed = offline_settled(settled, timestamp)->Ok_0;
    leaving_mints_nothing(slashed, draining_ids(slashed), timestamp);
}

proof fn one_turn_mints_nothing(ledger: LedgerModel, epoch_end: i64)
    requires
        epoch_turned(ledger, epoch_end) is Ok,
    ensures
        stays_apart(ledger, epoch_turned(ledger, epoch_end)->Ok_0),
{
    assert forall|before: LedgerModel| stays_apart(
        before,
        #[trigger] committee_refreshed(before, epoch_end),
    ) by {
        refreshing_mints_nothing(before, epoch_end);
    }
}

proof fn turning_mints_nothing(ledger: LedgerModel, at: i64)
    requires
        epochs_turned(ledger, at) is Ok,
    ensures
        stays_apart(ledger, epochs_turned(ledger, at)->Ok_0),
    decreases u64::MAX - ledger.epoch_number,
{
    let epoch = ledger.epoch_number;
    let epoch_end = ledger.epoch_contexts[epoch].ended_at;
    if at >= epoch_end {
        one_turn_mints_nothing(ledger, epoch_end);
        let next = epoch_turned(ledger, epoch_end)->Ok_0;
        if next.epoch_number > epoch {
            turning_mints_nothing(next, at);
        }
    }
}

proof fn advancing_mints_nothing(ledger: LedgerModel, at: i64)
    requires
        epochs_advanced(ledger, at) is Ok,
    ensures
        stays_apart(ledger, epochs_advanced(ledger, at)->Ok_0),
{
    turning_mints_nothing(crate::epochs::current_context_ensured(ledger)->Ok_0, at);
}

proof fn placing_mints_nothing(ledger: LedgerModel, ids: Seq<Seq<char>>, height: u64)
    ensures
        stays_apart(ledger, operations_placed(ledger, ids, height)),
    decreases ids.len(),
{
    if ids.len() > 0 {
        placing_mints_nothing(
            crate::execution::operation_placed(ledger, ids[0], height),
            ids.drop_first(),
            height,
        );
    }
}

proof fn finalizing_mints_nothing(ledger: LedgerModel, ids: Seq<Seq<char>>, height: u64)
    requires
        operations_finalized(ledger, ids, height) is Ok,
    ensures
        stays_apart(ledger, operations_finalized(ledger, ids, height)->Ok_0),
    decreases ids.len(),
{
    if ids.len() > 0 {
        let next = LedgerModel {
            operations: ledger.operations.insert(
                ids[0],
                OperationModel {
                    status: OperationStatus::Finalized,
                    block_height: Some(height),
                    ..ledger.operations[ids[0]]
                },
            ),
            ..ledger
        };
        finalizing_mints_nothing(next, ids.drop_first(), height);
    }
}

proof fn execution_mints_nothing(
    ledger: LedgerModel,
    state: LedgerModel,
    ids: Seq<Seq<char>>,
    accepted: Seq<Seq<char>>,
    timestamp: i64,
    skip: bool,
)
    requires
        operations_executed(ledger, state, ids, accepted, timestamp, skip) is Ok,
    ensures
        stays_apart(
            state,
            operations_executed(ledger, state, ids, accepted, timestamp, skip)->Ok_0.0,
        ),
    decreases ids.len(),
{
    if ids.len() > 0 {
        let envelope = named_envelope(ledger, ids[0])->Ok_0;
        match operation_executed(state, envelope, timestamp) {
            Ok(next) => {
                one_execution_mints_nothing(state, envelope, timestamp);
                execution_mints_nothing(
                    ledger,
                    next,
                    ids.drop_first(),
                    accepted.push(envelope.operation.intake.operation_id),
                    timestamp,
                    skip,
                );
            },
            Err(_) => {
                execution_mints_nothing(
                    ledger,
                    state,
                    ids.drop_first(),
                    accepted,
                    timestamp,
                    skip,
                );
            },
        }
    }
}

proof fn one_execution_mints_nothing(
    state: LedgerModel,
    envelope: EnvelopeModel,
    timestamp: i64,
)
    requires
        operation_executed(state, envelope, timestamp) is Ok,
    ensures
        stays_apart(state, operation_executed(state, envelope, timestamp)->Ok_0),
{
    reveal(operation_executed);
    let (key, operation) = (envelope.public_key, envelope.operation);
    if operation_applied(state, key, operation, timestamp) is Ok {
        operations_mint_nothing(state, key, operation, timestamp);
    } else {
        let prepared = signer_prepared(
            state,
            key,
            operation,
            "rejected operation nonce is not the next account nonce"@,
        )->Ok_0;
        queueing_mints_nothing(prepared, operation, operation.intake.operation_id, timestamp);
    }
}

/// A ledger begins with all there will ever be: what is not minted yet is in the pool.
pub proof fn new_ledgers_hold_the_whole_supply()
    ensures
        supply(initial_ledger()) == MAX_SUPPLY,
{
}

/// Executing a block keeps the supply, for what it mints leaves the pool, and touches no other block.
/// A block is executed from the last final state, or from the ledger itself where there is none.
pub proof fn blocks_keep_the_supply(
    ledger: LedgerModel,
    ids: Seq<Seq<char>>,
    height: u64,
    timestamp: i64,
    skip: bool,
)
    requires
        block_prepared(ledger, ids, height, timestamp, skip) is Ok,
    ensures
        supply(block_prepared(ledger, ids, height, timestamp, skip)->Ok_0.0) == supply(
            match ledger.finalized_checkpoint {
                Some(checkpoint) => *checkpoint,
                None => ledger,
            },
        ),
        leaves_chain(
            match ledger.finalized_checkpoint {
                Some(checkpoint) => replay_base(ledger, *checkpoint),
                None => ledger,
            },
            block_prepared(ledger, ids, height, timestamp, skip)->Ok_0.0,
        ),
{
    reveal(block_prepared);
    match ledger.finalized_checkpoint {
        None => {
            advancing_mints_nothing(ledger, timestamp);
            let begun = epochs_advanced(ledger, timestamp)->Ok_0;
            finalizing_mints_nothing(begun, ids, height);
            let placed = operations_finalized(begun, ids, height)->Ok_0;
            ending_keeps_supply(placed, timestamp);
        },
        Some(checkpoint) => {
            reveal(block_replayed);
            let base = replay_base(ledger, *checkpoint);
            advancing_mints_nothing(base, timestamp);
            let begun = epochs_advanced(base, timestamp)->Ok_0;
            execution_mints_nothing(ledger, begun, ids, Seq::empty(), timestamp, skip);
            let executed = operations_executed(
                ledger,
                begun,
                ids,
                Seq::empty(),
                timestamp,
                skip,
            )->Ok_0;
            placing_mints_nothing(executed.0, executed.1, height);
            ending_keeps_supply(operations_placed(executed.0, executed.1, height), timestamp);
        },
    }
}

/// A block that the first node makes extends the chain by one: it stands behind all other blocks, has
/// the next height, refers to the last block, and is signed by the owner of the node. The supply
/// stays whole.
pub proof fn produced_blocks_extend_the_chain(
    ledger: LedgerModel,
    config: NodeConfigModel,
    owner: KeyModel,
    allow_empty: bool,
    root: Seq<char>,
    signature: Seq<char>,
    now: i64,
)
    requires
        node1_block_made(ledger, config, owner, allow_empty, root, signature, now) is Ok,
    ensures
        ({
            let (next, block) = node1_block_made(
                ledger,
                config,
                owner,
                allow_empty,
                root,
                signature,
                now,
            )->Ok_0;
            &&& next.blocks == ledger.blocks.push(block)
            &&& block.height == chain_next_height(ledger)
            &&& block.previous_block_hash == previous_hash(ledger)
            &&& block.state_root == root
            &&& block.block_hash == hash_of(block_signed(block))
            &&& signature_checked(
                owner.public_key,
                encode_utf8(block_signed(block)),
                block.producer_signature,
            ) is Ok
            &&& chain_height(next) == block.height
            &&& next.finalized_checkpoint is Some
            &&& supply(next) == supply(
                match ledger.finalized_checkpoint {
                    Some(checkpoint) => *checkpoint,
                    None => ledger,
                },
            )
        }),
{
    let found = may_produce(ledger, config, owner, allow_empty, now)->Ok_0;
    let ids = found.0.pending_operation_ids;
    let height = chain_next_height(found.0);
    let prepared = block_prepared(found.0, ids, height, now, true)->Ok_0;
    blocks_keep_the_supply(found.0, ids, height, now, true);
    refreshing_mints_nothing(idle_voting_reset(prepared.0, now), now);
}

} // verus!
