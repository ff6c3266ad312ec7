use vstd::prelude::*;
use vstd::string::*;

use crate::accounts::account_of;
use crate::blocks::{among, keep_known};
use crate::candidates::{
    finalize_rejected_consensus_operation, operation_applied, operation_rejected,
    submit_consensus_operation_strict, EnvelopeModel, PendingOperationEnvelope,
};
use crate::chain::finalized_state;
use crate::epochs::{epochs_advanced, turn_epochs_until};
use crate::error::{outcome, Error, Outcome, Result};
use crate::lifecycle::{
    draining_ids, end_draining_nodes, end_offline_nodes, nodes_exited, offline_settled,
};
use crate::model::{
    AccountModel, AccountState, BlockModel, BlockRecord, ConsensusModel, LedgerModel, LedgerState,
    NodeModel, NodeRecord, OperationModel, OperationRecord, OperationStatus,
};
use crate::rewards::{epochs_settled, final_epochs, pay_out_epochs_until};
use crate::search::{change_all, entries_changed, entries_where, retain_where};
use crate::table::{Replicate, Table};
use crate::text::{join3, join5};

verus! {

/// The ledger without the proposals and the votes of the current round.
pub open spec fn votes_cleared(ledger: LedgerModel) -> LedgerModel {
    LedgerModel {
        consensus: ConsensusModel {
            proposal: None,
            valid_proposal: None,
            valid_round: None,
            prevotes: Map::empty(),
            precommits: Map::empty(),
            locks: Map::empty(),
            ..ledger.consensus
        },
        proposal_post_state: None,
        valid_post_state: None,
        ..ledger
    }
}

/// Forgets the proposals and the votes of the current round.
pub fn clear_votes(ledger: &mut LedgerState)
    ensures
        final(ledger)@ == votes_cleared(old(ledger)@),
{
    ledger.consensus.proposal = None;
    ledger.consensus.valid_proposal = None;
    ledger.consensus.valid_round = None;
    ledger.consensus.prevotes = Table::new();
    ledger.consensus.precommits = Table::new();
    ledger.consensus.locks = Table::new();
    ledger.proposal_post_state = None;
    ledger.valid_post_state = None;
}

/// The ledger at the end of a block: rewards are paid, nodes that were unreachable or wanted to
/// leave are gone, and nothing is pending.
#[verifier::opaque]
pub open spec fn block_ended(ledger: LedgerModel, timestamp: i64) -> Outcome<LedgerModel> {
    match epochs_settled(ledger, final_epochs(ledger, timestamp)) {
        Err(refusal) => Err(refusal),
        Ok(settled) => match offline_settled(settled, timestamp) {
            Err(refusal) => Err(refusal),
            Ok(slashed) => match nodes_exited(slashed, draining_ids(slashed), timestamp) {
                Err(refusal) => Err(refusal),
                Ok(left) => Ok(LedgerModel { pending_operation_ids: Seq::empty(), ..left }),
            },
        },
    }
}

fn end_block(ledger: &mut LedgerState, timestamp: i64) -> (r: Result<()>)
    ensures
        match block_ended(old(ledger)@, timestamp) {
            Ok(next) => r is Ok && final(ledger)@ == next,
            Err(refusal) => r matches Err(error) && error@ == refusal,
        },
{
    proof {
        reveal(block_ended);
    }
    pay_out_epochs_until(ledger, timestamp)?;
    end_offline_nodes(ledger, timestamp)?;
    end_draining_nodes(ledger, timestamp)?;
    ledger.pending_operation_ids = Vec::new();
    assert(ledger.pending_operation_ids.deep_view() =~= Seq::<Seq<char>>::empty());
    Ok(())
}

/// Which operations are in a block already.
pub open spec fn in_chain() -> spec_fn(OperationModel) -> bool {
    |operation: OperationModel|
        operation.status == OperationStatus::Finalized || operation.status
            == OperationStatus::Rejected
}

/// The account, with what its history is elsewhere as far as it is known.
pub open spec fn history_from(
    accounts: Map<Seq<char>, AccountModel>,
    known: Set<Seq<char>>,
) -> spec_fn(Seq<char>, AccountModel) -> AccountModel {
    |address: Seq<char>, account: AccountModel|
        AccountModel {
            operation_ids: if accounts.contains_key(address) {
                accounts[address].operation_ids.filter(among(known))
            } else {
                Seq::empty()
            },
            ..account
        }
}

/// The node, with its last sign of life.
pub open spec fn heartbeat_from(nodes: Map<u64, NodeModel>) -> spec_fn(u64, NodeModel) -> NodeModel {
    |node_id: u64, node: NodeModel|
        NodeModel {
            last_heartbeat: if nodes.contains_key(node_id) {
                nodes[node_id].last_heartbeat
            } else {
                None
            },
            ..node
        }
}

/// The state from which a block is executed: the one after the last final block, with the chain and
/// the operations in it.
pub open spec fn replay_base(ledger: LedgerModel, checkpoint: LedgerModel) -> LedgerModel {
    let operations = entries_where(ledger.operations, in_chain());
    votes_cleared(
        LedgerModel {
            finalized_checkpoint: None,
            blocks: ledger.blocks,
            pruned_through_height: ledger.pruned_through_height,
            pruned_tip_hash: ledger.pruned_tip_hash,
            pruned_tip_timestamp: ledger.pruned_tip_timestamp,
            pruned_operation_count: ledger.pruned_operation_count,
            operation_history_from_height: ledger.operation_history_from_height,
            operations,
            accounts: entries_changed(
                checkpoint.accounts,
                history_from(ledger.accounts, operations.dom()),
            ),
            nodes: entries_changed(checkpoint.nodes, heartbeat_from(ledger.nodes)),
            pending_operation_ids: Seq::empty(),
            ..checkpoint
        },
    )
}

fn take_history(
    address: &String,
    account: &AccountState,
    accounts: &Table<String, AccountState>,
    operations: &Table<String, OperationRecord>,
) -> (r: AccountState)
    ensures
        r.deep_view() == history_from(accounts@, operations@.dom())(
            address.deep_view(),
            account.deep_view(),
        ),
{
    let mut next = account.replicate();
    next.operation_ids = match accounts.get(address) {
        Some(current) => keep_known(&current.operation_ids, operations),
        None => Vec::new(),
    };
    proof {
        if !accounts@.contains_key(address@) {
            assert(next.operation_ids.deep_view() =~= Seq::<Seq<char>>::empty());
        }
    }
    next
}

fn take_heartbeat(
    node_id: &u64,
    node: &NodeRecord,
    nodes: &Table<u64, NodeRecord>,
) -> (r: NodeRecord)
    ensures
        r.deep_view() == heartbeat_from(nodes@)(*node_id, node.deep_view()),
{
    let mut next = node.replicate();
    next.last_heartbeat = match nodes.get(node_id) {
        Some(current) => current.last_heartbeat,
        None => None,
    };
    next
}

fn make_replay_base(ledger: &LedgerState, checkpoint: &LedgerState) -> (r: LedgerState)
    ensures
        r@ == replay_base(ledger@, checkpoint@),
{
    let mut base = checkpoint.copy();
    let test = |operation: &OperationRecord| -> (b: bool)
        ensures
            b == in_chain()(operation.deep_view()),
        { matches!(operation.status, OperationStatus::Finalized | OperationStatus::Rejected) };
    let operations = retain_where(&ledger.operations, Ghost(in_chain()), test);
    let history = |address: &String, account: &AccountState| -> (next: AccountState)
        ensures
            next.deep_view() == history_from(ledger@.accounts, operations@.dom())(
                address.deep_view(),
                account.deep_view(),
            ),
        { take_history(address, account, &ledger.accounts, &operations) };
    let accounts = change_all(
        &checkpoint.accounts,
        Ghost(history_from(ledger@.accounts, operations@.dom())),
        history,
    );
    let heartbeat = |node_id: &u64, node: &NodeRecord| -> (next: NodeRecord)
        ensures
            next.deep_view() == heartbeat_from(ledger@.nodes)(
                node_id.deep_view(),
                node.deep_view(),
            ),
        { take_heartbeat(node_id, node, &ledger.nodes) };
    let nodes = change_all(&checkpoint.nodes, Ghost(heartbeat_from(ledger@.nodes)), heartbeat);
    base.finalized_checkpoint = None;
    base.blocks = ledger.blocks.replicate();
    base.pruned_through_height = ledger.pruned_through_height;
    base.pruned_tip_hash = ledger.pruned_tip_hash.replicate();
    base.pruned_tip_timestamp = ledger.pruned_tip_timestamp;
    base.pruned_operation_count = ledger.pruned_operation_count;
    base.operation_history_from_height = ledger.operation_history_from_height;
    base.operations = operations;
    base.accounts = accounts;
    base.nodes = nodes;
    base.pending_operation_ids = Vec::new();
    assert(base.pending_operation_ids.deep_view() =~= Seq::<Seq<char>>::empty());
    clear_votes(&mut base);
    base
}

/// The envelope of an operation that a block names.
pub open spec fn named_envelope(ledger: LedgerModel, operation_id: Seq<char>) -> Outcome<
    EnvelopeModel,
> {
    if !ledger.operations.contains_key(operation_id) {
        Err("proposal operation "@ + operation_id + " is unavailable"@)
    } else {
        match ledger.operations[operation_id].signed_operation {
            None => Err("proposal operation "@ + operation_id + " has no signed envelope"@),
            Some(operation) => match account_of(ledger, operation.unsigned.signer).public_key {
                None => Err(
                    "proposal operation "@ + operation_id + " signer key is unavailable"@,
                ),
                Some(public_key) => Ok(EnvelopeModel { public_key, operation }),
            },
        }
    }
}

fn find_envelope(ledger: &LedgerState, operation_id: &String) -> (r: Result<
    PendingOperationEnvelope,
>)
    ensures
        outcome(r) == named_envelope(ledger@, operation_id@),
{
    match ledger.operations.get(operation_id) {
        None => Err(
            Error::owned(join3("proposal operation ", operation_id.as_str(), " is unavailable")),
        ),
        Some(record) => match &record.signed_operation {
            None => Err(
                Error::owned(
                    join3("proposal operation ", operation_id.as_str(), " has no signed envelope"),
                ),
            ),
            Some(operation) => {
                if let Some(account) = ledger.accounts.get(&operation.unsigned.signer) {
                    if let Some(public_key) = &account.public_key {
                        return Ok(
                            PendingOperationEnvelope {
                                public_key: public_key.clone(),
                                operation: operation.replicate(),
                            },
                        );
                    }
                }
                Err(
                    Error::owned(
                        join3(
                            "proposal operation ",
                            operation_id.as_str(),
                            " signer key is unavailable",
                        ),
                    ),
                )
            },
        },
    }
}

/// The state after one operation of a block, which is applied or, where that fails, rejected.
/// Nothing comes of an operation that can neither be applied nor rejected.
#[verifier::opaque]
pub open spec fn operation_executed(
    state: LedgerModel,
    envelope: EnvelopeModel,
    timestamp: i64,
) -> std::result::Result<LedgerModel, (Seq<char>, Seq<char>)> {
    match operation_applied(state, envelope.public_key, envelope.operation, timestamp) {
        Ok(next) => Ok(next),
        Err(refusal) => match operation_rejected(
            state,
            envelope.public_key,
            envelope.operation,
            timestamp,
            refusal,
        ) {
            Ok(next) => Ok(next),
            Err(rejection) => Err((refusal, rejection)),
        },
    }
}

/// The refusal of a block with an operation that can neither be applied nor rejected.
pub open spec fn execution_failed(
    operation_id: Seq<char>,
    refusal: Seq<char>,
    rejection: Seq<char>,
) -> Seq<char> {
    "proposal operation "@ + operation_id + " failed deterministic execution: "@ + refusal
        + "; fee-only rejection failed: "@ + rejection
}

/// The state after the operations of a block, and those of them that are in it. Where `skip` is
/// set, operations that can neither be applied nor rejected are left out.
pub open spec fn operations_executed(
    ledger: LedgerModel,
    state: LedgerModel,
    ids: Seq<Seq<char>>,
    accepted: Seq<Seq<char>>,
    timestamp: i64,
    skip: bool,
) -> Outcome<(LedgerModel, Seq<Seq<char>>)>
    decreases ids.len(),
{
    if ids.len() == 0 {
        Ok((state, accepted))
    } else {
        match named_envelope(ledger, ids[0]) {
            Err(refusal) => Err(refusal),
            Ok(envelope) => match operation_executed(state, envelope, timestamp) {
                Ok(next) => operations_executed(
                    ledger,
                    next,
                    ids.drop_first(),
                    accepted.push(envelope.operation.intake.operation_id),
                    timestamp,
                    skip,
                ),
                Err(refusals) => if skip {
                    operations_executed(
                        ledger,
                        state,
                        ids.drop_first(),
                        accepted,
                        timestamp,
                        skip,
                    )
                } else {
                    Err(execution_failed(ids[0], refusals.0, refusals.1))
                },
            },
        }
    }
}

enum Execution {
    Done(String),
    Failed(Error, Error),
}

fn execute_operation(
    state: &mut LedgerState,
    envelope: &PendingOperationEnvelope,
    timestamp: i64,
) -> (r: Execution)
    ensures
        match operation_executed(old(state)@, envelope.deep_view(), timestamp) {
            Ok(next) => final(state)@ == next && (r matches Execution::Done(id) && id@
                == envelope.deep_view().operation.intake.operation_id),
            Err(refusals) => final(state)@ == old(state)@ && (r matches Execution::Failed(
                refusal,
                rejection,
            ) && refusal@ == refusals.0 && rejection@ == refusals.1),
        },
{
    proof {
        reveal(operation_executed);
    }
    match submit_consensus_operation_strict(state, envelope, timestamp) {
        Ok(id) => Execution::Done(id),
        Err(refusal) => {
            match finalize_rejected_consensus_operation(
                state,
                envelope,
                timestamp,
                refusal.text(),
            ) {
                Ok(id) => Execution::Done(id),
                Err(rejection) => Execution::Failed(refusal, rejection),
            }
        },
    }
}

/// The ledger after an operation has been put in a block.
pub open spec fn operation_placed(
    ledger: LedgerModel,
    operation_id: Seq<char>,
    height: u64,
) -> LedgerModel {
    if ledger.operations.contains_key(operation_id) {
        let operation = ledger.operations[operation_id];
        LedgerModel {
            operations: ledger.operations.insert(
                operation_id,
                OperationModel {
                    status: if operation.status == OperationStatus::Pending {
                        OperationStatus::Finalized
                    } else {
                        operation.status
                    },
                    block_height: Some(height),
                    ..operation
                },
            ),
            ..ledger
        }
    } else {
        ledger
    }
}

/// The ledger after operations have been put in a block.
pub open spec fn operations_placed(
    ledger: LedgerModel,
    ids: Seq<Seq<char>>,
    height: u64,
) -> LedgerModel
    decreases ids.len(),
{
    if ids.len() == 0 {
        ledger
    } else {
        operations_placed(operation_placed(ledger, ids[0], height), ids.drop_first(), height)
    }
}

fn place_operations(ledger: &mut LedgerState, ids: &Vec<String>, height: u64)
    ensures
        final(ledger)@ == operations_placed(old(ledger)@, ids.deep_view(), height),
{
    let ghost all = ids.deep_view();
    let ghost first = ledger@;
    let mut i: usize = 0;
    assert(all.skip(0) =~= all);
    while i < ids.len()
        invariant
            i <= all.len(),
            all == ids.deep_view(),
            all.len() == ids@.len(),
            first == old(ledger)@,
            operations_placed(first, all, height) == operations_placed(
                ledger@,
                all.skip(i as int),
                height,
            ),
        decreases all.len() - i,
    {
        assert(all.skip(i as int)[0] == ids@[i as int]@);
        assert(all.skip(i as int).drop_first() =~= all.skip(i + 1));
        if let Some(operation) = ledger.operations.get_mut(&ids[i]) {
            if matches!(operation.status, OperationStatus::Pending) {
                operation.status = OperationStatus::Finalized;
            }
            operation.block_height = Some(height);
        }
        i = i + 1;
    }
}

/// The state after a block that is executed from the last final state, and the operations in it.
#[verifier::opaque]
pub open spec fn block_replayed(
    ledger: LedgerModel,
    ids: Seq<Seq<char>>,
    height: u64,
    timestamp: i64,
    skip: bool,
) -> Outcome<(LedgerModel, Seq<Seq<char>>)> {
    match ledger.finalized_checkpoint {
        None => Err("deterministic execution requires a finalized checkpoint"@),
        Some(checkpoint) => match epochs_advanced(replay_base(ledger, *checkpoint), timestamp) {
            Err(refusal) => Err(refusal),
            Ok(begun) => match operations_executed(
                ledger,
                begun,
                ids,
                Seq::empty(),
                timestamp,
                skip,
            ) {
                Err(refusal) => Err(refusal),
                Ok(executed) => match block_ended(
                    operations_placed(executed.0, executed.1, height),
                    timestamp,
                ) {
                    Err(refusal) => Err(refusal),
                    Ok(ended) => Ok((ended, executed.1)),
                },
            },
        },
    }
}

/// Executes a block from the last final state.
pub fn replay_block_operations(
    ledger: &LedgerState,
    operation_ids: &Vec<String>,
    height: u64,
    timestamp: i64,
    skip_invalid: bool,
) -> (r: Result<(LedgerState, Vec<String>)>)
    ensures
        match block_replayed(
            ledger@,
            operation_ids.deep_view(),
            height,
            timestamp,
            skip_invalid,
        ) {
            Ok(next) => r matches Ok(done) && done.0@ == next.0 && done.1.deep_view() == next.1,
            Err(refusal) => r matches Err(error) && error@ == refusal,
        },
{
    proof {
        reveal(block_replayed);
    }
    let checkpoint = match finalized_state(ledger) {
        None => {
            return Err(Error::msg("deterministic execution requires a finalized checkpoint"));
        },
        Some(checkpoint) => checkpoint,
    };
    let mut state = make_replay_base(ledger, checkpoint);
    turn_epochs_until(&mut state, timestamp)?;
    let ghost begun = state@;
    let ghost all = operation_ids.deep_view();
    let mut accepted: Vec<String> = Vec::new();
    let mut i: usize = 0;
    assert(all.skip(0) =~= all);
    assert(accepted.deep_view() =~= Seq::<Seq<char>>::empty());
    while i < operation_ids.len()
        invariant
            i <= all.len(),
            all == operation_ids.deep_view(),
            all.len() == operation_ids@.len(),
            operations_executed(ledger@, begun, all, Seq::empty(), timestamp, skip_invalid)
                == operations_executed(
                ledger@,
                state@,
                all.skip(i as int),
                accepted.deep_view(),
                timestamp,
                skip_invalid,
            ),
            match block_replayed(
                ledger@,
                operation_ids.deep_view(),
                height,
                timestamp,
                skip_invalid,
            ) {
                Err(refusal) => operations_executed(
                    ledger@,
                    begun,
                    all,
                    Seq::empty(),
                    timestamp,
                    skip_invalid,
                ) matches Err(reason) ==> reason == refusal,
                Ok(_) => operations_executed(
                    ledger@,
                    begun,
                    all,
                    Seq::empty(),
                    timestamp,
                    skip_invalid,
                ) is Ok,
            },
        decreases all.len() - i,
    {
        assert(all.skip(i as int)[0] == operation_ids@[i as int]@);
        assert(all.skip(i as int).drop_first() =~= all.skip(i + 1));
        let ghost before = accepted.deep_view();
        let envelope = find_envelope(ledger, &operation_ids[i])?;
        match execute_operation(&mut state, &envelope, timestamp) {
            Execution::Done(id) => {
                accepted.push(id);
                assert(accepted.deep_view() =~= before.push(id@));
            },
            Execution::Failed(refusal, rejection) => {
                if !skip_invalid {
                    let mut text = join5(
                        "proposal operation ",
                        operation_ids[i].as_str(),
                        " failed deterministic execution: ",
                        refusal.text(),
                        "; fee-only rejection failed: ",
                    );
                    text.append(rejection.text());
                    return Err(Error::owned(text));
                }
            },
        }
        i = i + 1;
    }
    place_operations(&mut state, &accepted, height);
    end_block(&mut state, timestamp)?;
    Ok((state, accepted))
}

/// The ledger after operations have been made final in a block, or the refusal where one is missing.
pub open spec fn operations_finalized(
    ledger: LedgerModel,
    ids: Seq<Seq<char>>,
    height: u64,
) -> Outcome<LedgerModel>
    decreases ids.len(),
{
    if ids.len() == 0 {
        Ok(ledger)
    } else if !ledger.operations.contains_key(ids[0]) {
        Err("pending operation is missing from the ledger"@)
    } else {
        operations_finalized(
            LedgerModel {
                operations: ledger.operations.insert(
                    ids[0],
                    OperationModel {
                        status: OperationStatus::Finalized,
                        block_height: Some(height),
                        ..ledger.operations[ids[0]]
                    },
                ),
                ..ledger
            },
            ids.drop_first(),
            height,
        )
    }
}

fn finalize_all(ledger: &mut LedgerState, ids: &Vec<String>, height: u64) -> (r: Result<()>)
    ensures
        match operations_finalized(old(ledger)@, ids.deep_view(), height) {
            Ok(next) => r is Ok && final(ledger)@ == next,
            Err(refusal) => r matches Err(error) && error@ == refusal,
        },
{
    let ghost all = ids.deep_view();
    let ghost first = ledger@;
    let mut i: usize = 0;
    assert(all.skip(0) =~= all);
    while i < ids.len()
        invariant
            i <= all.len(),
            all == ids.deep_view(),
            all.len() == ids@.len(),
            first == old(ledger)@,
            operations_finalized(first, all, height) == operations_finalized(
                ledger@,
                all.skip(i as int),
                height,
            ),
        decreases all.len() - i,
    {
        assert(all.skip(i as int)[0] == ids@[i as int]@);
        assert(all.skip(i as int).drop_first() =~= all.skip(i + 1));
        match ledger.operations.get_mut(&ids[i]) {
            None => {
                return Err(Error::msg("pending operation is missing from the ledger"));
            },
            Some(operation) => {
                operation.status = OperationStatus::Finalized;
                operation.block_height = Some(height);
            },
        }
        i = i + 1;
    }
    Ok(())
}

/// The state after a block, and the operations in it. Before the first final state there is nothing
/// to execute a block from: what is pending has been applied already.
#[verifier::opaque]
pub open spec fn block_prepared(
    ledger: LedgerModel,
    ids: Seq<Seq<char>>,
    height: u64,
    timestamp: i64,
    skip: bool,
) -> Outcome<(LedgerModel, Seq<Seq<char>>)> {
    if ledger.finalized_checkpoint is Some {
        block_replayed(ledger, ids, height, timestamp, skip)
    } else {
        match epochs_advanced(ledger, timestamp) {
            Err(refusal) => Err(refusal),
            Ok(begun) => match operations_finalized(begun, ids, height) {
                Err(refusal) => Err(refusal),
                Ok(placed) => match block_ended(placed, timestamp) {
                    Err(refusal) => Err(refusal),
                    Ok(ended) => Ok((ended, ids)),
                },
            },
        }
    }
}

/// Executes a block.
pub fn prepare_block_operations(
    ledger: &LedgerState,
    operation_ids: &Vec<String>,
    height: u64,
    timestamp: i64,
    skip_invalid: bool,
) -> (r: Result<(LedgerState, Vec<String>)>)
    ensures
        match block_prepared(
            ledger@,
            operation_ids.deep_view(),
            height,
            timestamp,
            skip_invalid,
        ) {
            Ok(next) => r matches Ok(done) && done.0@ == next.0 && done.1.deep_view() == next.1,
            Err(refusal) => r matches Err(error) && error@ == refusal,
        },
{
    proof {
        reveal(block_prepared);
    }
    if finalized_state(ledger).is_some() {
        return replay_block_operations(ledger, operation_ids, height, timestamp, skip_invalid);
    }
    let mut simulated = ledger.copy();
    turn_epochs_until(&mut simulated, timestamp)?;
    finalize_all(&mut simulated, operation_ids, height)?;
    end_block(&mut simulated, timestamp)?;
    Ok((simulated, operation_ids.replicate()))
}

/// The state after a proposed block.
pub open spec fn post_state(ledger: LedgerModel, block: BlockModel) -> Outcome<LedgerModel> {
    match block_prepared(ledger, block.operation_ids, block.height, block.timestamp, false) {
        Err(refusal) => Err(refusal),
        Ok(prepared) => Ok(
            LedgerModel { finalized_checkpoint: None, ..votes_cleared(prepared.0) },
        ),
    }
}

/// Executes a proposed block.
pub fn consensus_post_state(ledger: &LedgerState, block: &BlockRecord) -> (r: Result<LedgerState>)
    ensures
        outcome(r) == post_state(ledger@, block.deep_view()),
{
    let (mut simulated, _) = prepare_block_operations(
        ledger,
        &block.operation_ids,
        block.height,
        block.timestamp,
        false,
    )?;
    clear_votes(&mut simulated);
    simulated.finalized_checkpoint = None;
    Ok(simulated)
}

/// Execution is deterministic: what comes of a block depends on the last final state, the chain,
/// the operations that the block names and the keys that they were signed with, not on what else is
/// pending.
pub proof fn execution_ignores_other_pending(
    ledger: LedgerModel,
    pending: Seq<Seq<char>>,
    ids: Seq<Seq<char>>,
    height: u64,
    timestamp: i64,
    skip: bool,
)
    requires
        ledger.finalized_checkpoint is Some,
    ensures
        block_prepared(
            LedgerModel { pending_operation_ids: pending, ..ledger },
            ids,
            height,
            timestamp,
            skip,
        ) == block_prepared(ledger, ids, height, timestamp, skip),
{
    reveal(block_prepared);
    reveal(block_replayed);
    let other = LedgerModel { pending_operation_ids: pending, ..ledger };
    let checkpoint = *ledger.finalized_checkpoint.unwrap();
    assert(replay_base(other, checkpoint) == replay_base(ledger, checkpoint));
    if let Ok(begun) = epochs_advanced(replay_base(ledger, checkpoint), timestamp) {
        execution_reads_envelopes(other, ledger, begun, ids, Seq::empty(), timestamp, skip);
    }
}

proof fn execution_reads_envelopes(
    one: LedgerModel,
    other: LedgerModel,
    state: LedgerModel,
    ids: Seq<Seq<char>>,
    accepted: Seq<Seq<char>>,
    timestamp: i64,
    skip: bool,
)
    requires
        one.operations == other.operations,
        one.accounts == other.accounts,
    ensures
        operations_executed(one, state, ids, accepted, timestamp, skip) == operations_executed(
            other,
            state,
            ids,
            accepted,
            timestamp,
            skip,
        ),
    decreases ids.len(),
{
    if ids.len() > 0 {
        if let Ok(envelope) = named_envelope(one, ids[0]) {
            match operation_executed(state, envelope, timestamp) {
                Ok(next) => {
                    execution_reads_envelopes(
                        one,
                        other,
                        next,
                        ids.drop_first(),
                        accepted.push(envelope.operation.intake.operation_id),
                        timestamp,
                        skip,
                    );
                },
                Err(_) => {
                    execution_reads_envelopes(
                        one,
                        other,
                        state,
                        ids.drop_first(),
                        accepted,
                        timestamp,
                        skip,
                    );
                },
            }
        }
    }
}

/// After a block nothing is pending.
pub proof fn nothing_is_pending_after_a_block(
    ledger: LedgerModel,
    ids: Seq<Seq<char>>,
    height: u64,
    timestamp: i64,
    skip: bool,
)
    ensures
        block_prepared(ledger, ids, height, timestamp, skip) matches Ok(prepared)
            ==> prepared.0.pending_operation_ids.len() == 0,
{
    reveal(block_prepared);
    reveal(block_replayed);
    reveal(block_ended);
}

/// The operations of a block are in it afterwards: each has the height of the block, and none of them is
/// pending any more. Every other operation stays as it was.
pub proof fn placed_operations_are_in_the_block(
    ledger: LedgerModel,
    ids: Seq<Seq<char>>,
    height: u64,
    operation_id: Seq<char>,
)
    requires
        ledger.operations.contains_key(operation_id),
    ensures
        ({
            let before = ledger.operations[operation_id];
            let after = operations_placed(ledger, ids, height).operations;
            &&& after.contains_key(operation_id)
            &&& ids.contains(operation_id) ==> {
                &&& after[operation_id].block_height == Some(height)
                &&& after[operation_id].status != OperationStatus::Pending
                &&& before.status != OperationStatus::Pending ==> after[operation_id].status
                    == before.status
                &&& before.status == OperationStatus::Pending ==> after[operation_id].status
                    == OperationStatus::Finalized
            }
            &&& !ids.contains(operation_id) ==> after[operation_id] == before
        }),
    decreases ids.len(),
{
    if ids.len() > 0 {
        let rest = ids.drop_first();
        let next = operation_placed(ledger, ids[0], height);
        placed_operations_are_in_the_block(next, rest, height, operation_id);
        if ids.contains(operation_id) {
            let i = choose|i: int| 0 <= i < ids.len() && ids[i] == operation_id;
            if i > 0 {
                assert(rest[i - 1] == operation_id);
            }
            if !rest.contains(operation_id) {
                assert(ids[0] == operation_id);
            }
        } else {
            if rest.contains(operation_id) {
                let i = choose|i: int| 0 <= i < rest.len() && rest[i] == operation_id;
                assert(ids[i + 1] == operation_id);
            }
            assert(ids[0] != operation_id) by {
                assert(ids.contains(ids[0]));
            }
        }
    }
}

} // verus!
