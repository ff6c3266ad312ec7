use vstd::prelude::*;
use vstd::string::*;

use crate::accounts::contains_text;
use crate::blocks::{
    checkpoint_taken, find_previous_hash, previous_hash, update_finalized_checkpoint,
};
use crate::chain::{chain_height, height};
use crate::committee::{consensus_quorum, quorum_of};
use crate::error::{outcome, Error, Outcome, Result};
use crate::execution::heartbeat_from;
use crate::history::{chain_checked, verify_blockchain_inner};
use crate::model::{
    BlockConsensusMode, BlockModel, BlockRecord, LedgerModel, LedgerState, NodeRecord,
    OperationModel, OperationRecord,
};
use crate::protocol::MIN_ACTIVE_VALIDATORS;
use crate::search::{change_all, entries_changed};
use crate::sequence::{contains_id, same_ids};
use crate::table::{ordered, Replicate, Same, Table};
use crate::text::{decimal, join2, join4, text_same, u64_text};
use crate::views::ConsensusCatchUpChunk;

verus! {

/// Whether blocks extend a chain without a gap, from a height and a hash on.
pub open spec fn extends_chain(blocks: Seq<BlockModel>, from: int, previous: Seq<char>) -> bool
    decreases blocks.len(),
{
    blocks.len() == 0 || blocks[0].height == from + 1 && blocks[0].previous_block_hash == previous
        && extends_chain(blocks.drop_first(), from + 1, blocks[0].block_hash)
}

fn check_extension(blocks: &Vec<BlockRecord>, from: u64, previous: String) -> (r: bool)
    ensures
        r == extends_chain(blocks.deep_view(), from as int, previous@),
{
    let ghost all = blocks.deep_view();
    let mut expected: String = previous;
    let mut i: usize = 0;
    assert(all.skip(0) =~= all);
    while i < blocks.len()
        invariant
            i <= all.len(),
            all == blocks.deep_view(),
            all.len() == blocks@.len(),
            extends_chain(all, from as int, previous@) == extends_chain(
                all.skip(i as int),
                from + i,
                expected@,
            ),
        decreases all.len() - i,
    {
        assert(all.skip(i as int)[0] == blocks@[i as int].deep_view());
        assert(all.skip(i as int).drop_first() =~= all.skip(i + 1));
        let block = &blocks[i];
        if block.height as u128 != from as u128 + i as u128 + 1 || !text_same(
            block.previous_block_hash.as_str(),
            expected.as_str(),
        ) {
            return false;
        }
        expected = block.block_hash.clone();
        i = i + 1;
    }
    true
}

/// Whether an operation is in one of some blocks.
pub open spec fn in_blocks(blocks: Seq<BlockModel>, operation_id: Seq<char>) -> bool {
    exists|i: int|
        0 <= i < blocks.len() && (#[trigger] blocks[i]).operation_ids.contains(operation_id)
}

fn is_in_blocks(blocks: &Vec<BlockRecord>, operation_id: &str) -> (r: bool)
    ensures
        r == in_blocks(blocks.deep_view(), operation_id@),
{
    let ghost all = blocks.deep_view();
    let mut i: usize = 0;
    while i < blocks.len()
        invariant
            i <= all.len(),
            all == blocks.deep_view(),
            all.len() == blocks@.len(),
            forall|j: int|
                0 <= j < i ==> !(#[trigger] all[j]).operation_ids.contains(operation_id@),
        decreases all.len() - i,
    {
        if contains_text(&blocks[i].operation_ids, operation_id) {
            assert(all[i as int].operation_ids.contains(operation_id@));
            return true;
        }
        i = i + 1;
    }
    false
}

/// Whether a pending operation would be lost.
pub open spec fn is_lost(
    blocks: Seq<BlockModel>,
    pending: Seq<Seq<char>>,
    operation_id: Seq<char>,
) -> bool {
    !in_blocks(blocks, operation_id) && !pending.contains(operation_id)
}

/// Whether a pending operation would be lost in catching up.
pub open spec fn loses_pending(
    ids: Seq<Seq<char>>,
    blocks: Seq<BlockModel>,
    pending: Seq<Seq<char>>,
) -> bool {
    exists|i: int| 0 <= i < ids.len() && is_lost(blocks, pending, #[trigger] ids[i])
}

fn would_lose_pending(
    ids: &Vec<String>,
    blocks: &Vec<BlockRecord>,
    pending: &Vec<String>,
) -> (r: bool)
    ensures
        r == loses_pending(ids.deep_view(), blocks.deep_view(), pending.deep_view()),
{
    let ghost all = ids.deep_view();
    let mut i: usize = 0;
    while i < ids.len()
        invariant
            i <= all.len(),
            all == ids.deep_view(),
            all.len() == ids@.len(),
            forall|j: int|
                0 <= j < i ==> !is_lost(
                    blocks.deep_view(),
                    pending.deep_view(),
                    #[trigger] all[j],
                ),
        decreases all.len() - i,
    {
        assert(all[i as int] == ids@[i as int]@);
        if !is_in_blocks(blocks, ids[i].as_str()) && !contains_text(pending, ids[i].as_str()) {
            assert(is_lost(blocks.deep_view(), pending.deep_view(), all[i as int]));
            return true;
        }
        i = i + 1;
    }
    false
}

/// Whether a state is the one after the last of some blocks, of the same ledger.
pub open spec fn checkpoint_fits(
    ledger: LedgerModel,
    checkpoint: LedgerModel,
    last: BlockModel,
) -> bool {
    &&& checkpoint.ledger_id == ledger.ledger_id
    &&& checkpoint.genesis_authority == ledger.genesis_authority
    &&& checkpoint.pruned_through_height == last.height
    &&& checkpoint.pruned_tip_hash == Some(last.block_hash)
    &&& checkpoint.pruned_tip_timestamp == Some(last.timestamp)
}

fn check_checkpoint(ledger: &LedgerState, checkpoint: &LedgerState, last: &BlockRecord) -> (r: bool)
    ensures
        r == checkpoint_fits(ledger@, checkpoint@, last.deep_view()),
{
    let same_hash = match &checkpoint.pruned_tip_hash {
        Some(hash) => text_same(hash.as_str(), last.block_hash.as_str()),
        None => false,
    };
    let same_time = match checkpoint.pruned_tip_timestamp {
        Some(timestamp) => timestamp == last.timestamp,
        None => false,
    };
    text_same(checkpoint.ledger_id.as_str(), ledger.ledger_id.as_str()) && checkpoint.genesis_authority.same(
        &ledger.genesis_authority,
    ) && checkpoint.pruned_through_height == last.height && same_hash && same_time
}

/// Whether a state gives a node another owner.
pub open spec fn owner_differs(ledger: LedgerModel, checkpoint: LedgerModel, node_id: u64) -> bool {
    checkpoint.nodes.contains_key(node_id) && (checkpoint.nodes[node_id].owner_address
        != ledger.nodes[node_id].owner_address || checkpoint.nodes[node_id].owner_public_key
        != ledger.nodes[node_id].owner_public_key)
}

/// Whether a state leaves every node its owner, or the first that it does not.
pub open spec fn owners_kept(ledger: LedgerModel, checkpoint: LedgerModel, ids: Seq<u64>) -> Outcome<
    (),
>
    decreases ids.len(),
{
    if ids.len() == 0 {
        Ok(())
    } else if owner_differs(ledger, checkpoint, ids[0]) {
        Err(
            "catch-up attempted to replace immutable Owner identity for Node "@ + decimal(
                ids[0] as nat,
            ),
        )
    } else {
        owners_kept(ledger, checkpoint, ids.drop_first())
    }
}

fn check_owners(ledger: &LedgerState, checkpoint: &LedgerState) -> (r: Result<()>)
    ensures
        outcome(r) == owners_kept(
            ledger@,
            checkpoint@,
            ordered::<u64>(ledger@.nodes.dom()),
        ),
{
    let ghost keys = ledger.nodes.keys();
    let mut i: usize = 0;
    assert(keys.skip(0) =~= keys);
    while i < ledger.nodes.len()
        invariant
            i <= keys.len(),
            keys == ledger.nodes.keys(),
            owners_kept(ledger@, checkpoint@, keys) == owners_kept(
                ledger@,
                checkpoint@,
                keys.skip(i as int),
            ),
        decreases keys.len() - i,
    {
        assert(keys.skip(i as int)[0] == keys[i as int]);
        assert(keys.skip(i as int).drop_first() =~= keys.skip(i + 1));
        let node_id: u64 = *ledger.nodes.key_at(i);
        let local = ledger.nodes.value_at(i);
        if let Some(remote) = checkpoint.nodes.get(&node_id) {
            if !text_same(remote.owner_address.as_str(), local.owner_address.as_str())
                || !text_same(remote.owner_public_key.as_str(), local.owner_public_key.as_str()) {
                return Err(
                    Error::owned(
                        join2(
                            "catch-up attempted to replace immutable Owner identity for Node ",
                            u64_text(node_id).as_str(),
                        ),
                    ),
                );
            }
        }
        i = i + 1;
    }
    Ok(())
}

/// How many of some validators are among others.
pub open spec fn overlap_count(ids: Seq<u64>, others: Seq<u64>) -> nat
    decreases ids.len(),
{
    if ids.len() == 0 {
        0
    } else {
        overlap_count(ids.drop_last(), others) + if others.contains(ids.last()) {
            1nat
        } else {
            0nat
        }
    }
}

fn count_overlap(ids: &Vec<u64>, others: &Vec<u64>) -> (r: usize)
    ensures
        r == overlap_count(ids@, others@),
{
    let mut count: usize = 0;
    let mut i: usize = 0;
    assert(ids@.take(0) =~= Seq::<u64>::empty());
    while i < ids.len()
        invariant
            i <= ids@.len(),
            count <= i,
            count == overlap_count(ids@.take(i as int), others@),
        decreases ids@.len() - i,
    {
        assert(ids@.take(i + 1).drop_last() =~= ids@.take(i as int));
        if contains_id(others, ids[i]) {
            count = count + 1;
        }
        i = i + 1;
    }
    assert(ids@.take(ids@.len() as int) =~= ids@);
    count
}

/// Whether the validators that agree on blocks can be trusted: where there is a committee it agrees
/// on the first such block, and from one such block to the next a quorum stays. `trusted` are the
/// validators that the next such block is held against, and `exact` says that it has to have just
/// these.
pub open spec fn rotation_checked(
    blocks: Seq<BlockModel>,
    trusted: Option<Seq<u64>>,
    exact: bool,
) -> Outcome<()>
    decreases blocks.len(),
{
    if blocks.len() == 0 {
        Ok(())
    } else if blocks[0].consensus_mode != BlockConsensusMode::MultiValidator {
        rotation_checked(blocks.drop_first(), trusted, exact)
    } else if exact && Some(blocks[0].validator_node_ids) != trusted {
        Err("first catch-up Validator set does not match the locally trusted committee"@)
    } else if !exact && (trusted matches Some(previous) && overlap_count(
        blocks[0].validator_node_ids,
        previous,
    ) < quorum_of(previous.len())) {
        Err("catch-up Validator rotation does not preserve a trusted quorum"@)
    } else {
        rotation_checked(blocks.drop_first(), Some(blocks[0].validator_node_ids), false)
    }
}

fn check_rotation(ledger: &LedgerState, blocks: &Vec<BlockRecord>) -> (r: Result<()>)
    ensures
        outcome(r) == rotation_begun(ledger@, blocks.deep_view()),
{
    let ghost all = blocks.deep_view();
    let mut exact = ledger.consensus.active_validators.len() >= MIN_ACTIVE_VALIDATORS;
    let mut trusted: Option<Vec<u64>> = if exact {
        Some(crate::model::copy_values(&ledger.consensus.active_validators))
    } else {
        None
    };
    let ghost first = trusted_ids(trusted);
    let ghost begun = exact;
    let mut i: usize = 0;
    assert(all.skip(0) =~= all);
    while i < blocks.len()
        invariant
            i <= all.len(),
            all == blocks.deep_view(),
            all.len() == blocks@.len(),
            exact ==> trusted is Some,
            rotation_begun(ledger@, all) == rotation_checked(all, first, begun),
            rotation_checked(all, first, begun) == rotation_checked(
                all.skip(i as int),
                trusted_ids(trusted),
                exact,
            ),
        decreases all.len() - i,
    {
        assert(all.skip(i as int)[0] == blocks@[i as int].deep_view());
        assert(all.skip(i as int).drop_first() =~= all.skip(i + 1));
        let block = &blocks[i];
        if block.consensus_mode == BlockConsensusMode::MultiValidator {
            if let Some(previous) = &trusted {
                if exact {
                    if !same_ids(&block.validator_node_ids, previous) {
                        return Err(
                            Error::msg(
                                "first catch-up Validator set does not match the locally trusted committee",
                            ),
                        );
                    }
                } else if count_overlap(&block.validator_node_ids, previous) < consensus_quorum(
                    previous.len(),
                ) {
                    return Err(
                        Error::msg(
                            "catch-up Validator rotation does not preserve a trusted quorum",
                        ),
                    );
                }
            }
            trusted = Some(crate::model::copy_values(&block.validator_node_ids));
            exact = false;
        }
        i = i + 1;
    }
    Ok(())
}

pub open spec fn trusted_ids(trusted: Option<Vec<u64>>) -> Option<Seq<u64>> {
    match trusted {
        Some(ids) => Some(ids@),
        None => None,
    }
}

/// Whether the validators that agree on blocks can be trusted, from what a ledger knows.
pub open spec fn rotation_begun(ledger: LedgerModel, blocks: Seq<BlockModel>) -> Outcome<()> {
    let active = ledger.consensus.active_validators;
    if active.len() >= MIN_ACTIVE_VALIDATORS {
        rotation_checked(blocks, Some(active), true)
    } else {
        rotation_checked(blocks, None, false)
    }
}

/// Operations under their identifiers.
pub open spec fn operations_noted(
    known: Map<Seq<char>, OperationModel>,
    operations: Seq<OperationModel>,
) -> Map<Seq<char>, OperationModel>
    decreases operations.len(),
{
    if operations.len() == 0 {
        known
    } else {
        operations_noted(known, operations.drop_last()).insert(
            operations.last().operation_id,
            operations.last(),
        )
    }
}

fn note_operations(
    known: &Table<String, OperationRecord>,
    operations: &Vec<OperationRecord>,
    newest: &Table<String, OperationRecord>,
) -> (r: Table<String, OperationRecord>)
    ensures
        r@ == operations_noted(known@, operations.deep_view()).union_prefer_right(newest@),
{
    let ghost all = operations.deep_view();
    let mut out = known.replicate();
    let mut i: usize = 0;
    assert(all.take(0) =~= Seq::<OperationModel>::empty());
    while i < operations.len()
        invariant
            i <= all.len(),
            all == operations.deep_view(),
            all.len() == operations@.len(),
            out@ == operations_noted(known@, all.take(i as int)),
        decreases all.len() - i,
    {
        assert(all.take(i + 1).drop_last() =~= all.take(i as int));
        assert(all.take(i + 1).last() == operations@[i as int].deep_view());
        out.insert(operations[i].operation_id.clone(), operations[i].replicate());
        i = i + 1;
    }
    assert(all.take(all.len() as int) =~= all);
    let ghost noted = out@;
    let ghost keys = newest.keys();
    let mut j: usize = 0;
    while j < newest.len()
        invariant
            j <= keys.len(),
            keys == newest.keys(),
            forall|key: Seq<char>| #[trigger]
                out@.contains_key(key) <==> noted.contains_key(key) || exists|k: int|
                    0 <= k < j && keys[k] == key,
            forall|k: int| 0 <= k < j ==> out@[#[trigger] keys[k]] == newest@[keys[k]],
            forall|key: Seq<char>|
                #![trigger out@[key]]
                noted.contains_key(key) && !(exists|k: int| 0 <= k < j && keys[k] == key)
                    ==> out@[key] == noted[key],
        decreases keys.len() - j,
    {
        let ghost before = out@;
        out.insert(newest.key_at(j).replicate(), newest.value_at(j).replicate());
        j = j + 1;
        proof {
            assert forall|k: int| 0 <= k < j implies out@[#[trigger] keys[k]]
                == newest@[keys[k]] by {
                if keys[k] != keys[j - 1] {
                    assert(before[keys[k]] == newest@[keys[k]]);
                }
            }
            assert forall|key: Seq<char>| #[trigger]
                out@.contains_key(key) <==> noted.contains_key(key) || exists|k: int|
                    0 <= k < j && keys[k] == key by {
                if key == keys[j - 1] {
                    assert(0 <= j - 1 < j && keys[j - 1] == key);
                }
                if exists|k: int| 0 <= k < j && keys[k] == key {
                    let k = choose|k: int| 0 <= k < j && keys[k] == key;
                    if k < j - 1 {
                        assert(before.contains_key(key));
                    }
                }
            }
            assert forall|key: Seq<char>|
                #![trigger out@[key]]
                noted.contains_key(key) && !(exists|k: int| 0 <= k < j && keys[k] == key) implies out@[
            key] == noted[key] by {
                assert(keys[j - 1] != key);
                assert(!(exists|k: int| 0 <= k < j - 1 && keys[k] == key));
                assert(before[key] == noted[key]);
            }
        }
    }
    proof {
        let wanted = noted.union_prefer_right(newest@);
        assert forall|key: Seq<char>| #[trigger] out@.contains_key(key) <==> wanted.contains_key(
            key,
        ) by {
            if newest@.contains_key(key) {
                assert(keys.contains(key));
                let k = choose|k: int| 0 <= k < keys.len() && keys[k] == key;
                assert(0 <= k < j && keys[k] == key);
            }
        }
        assert forall|key: Seq<char>| wanted.contains_key(key) implies #[trigger] out@[key]
            == wanted[key] by {
            if newest@.contains_key(key) {
                assert(keys.contains(key));
                let k = choose|k: int| 0 <= k < keys.len() && keys[k] == key;
                assert(out@[keys[k]] == newest@[keys[k]]);
            } else {
                assert(!(exists|k: int| 0 <= k < j && keys[k] == key)) by {
                    if exists|k: int| 0 <= k < j && keys[k] == key {
                        let k = choose|k: int| 0 <= k < j && keys[k] == key;
                        assert(newest@.contains_key(keys[k]));
                    }
                }
            }
        }
        assert(out@ =~= wanted);
    }
    out
}

/// The ledger that has caught up, before its root has been checked.
pub open spec fn candidate_made(
    ledger: LedgerModel,
    blocks: Seq<BlockModel>,
    operations: Seq<OperationModel>,
    checkpoint: LedgerModel,
) -> LedgerModel {
    LedgerModel {
        nodes: entries_changed(checkpoint.nodes, heartbeat_from(ledger.nodes)),
        blocks: ledger.blocks + blocks,
        pruned_through_height: ledger.pruned_through_height,
        pruned_tip_hash: ledger.pruned_tip_hash,
        pruned_tip_timestamp: ledger.pruned_tip_timestamp,
        operations: operations_noted(ledger.operations, operations).union_prefer_right(
            checkpoint.operations,
        ),
        finalized_checkpoint: None,
        ..checkpoint
    }
}

fn keep_heartbeat(node_id: &u64, node: &NodeRecord, nodes: &Table<u64, NodeRecord>) -> (r:
    NodeRecord)
    ensures
        r.deep_view() == heartbeat_from(nodes@)(*node_id, node.deep_view()),
{
    let mut next = node.replicate();
    next.last_heartbeat = match nodes.get(node_id) {
        Some(local) => local.last_heartbeat,
        None => None,
    };
    next
}

fn make_candidate(
    ledger: &LedgerState,
    blocks: &Vec<BlockRecord>,
    operations: &Vec<OperationRecord>,
    checkpoint: &LedgerState,
) -> (r: LedgerState)
    ensures
        r@ == candidate_made(
            ledger@,
            blocks.deep_view(),
            operations.deep_view(),
            checkpoint@,
        ),
{
    let mut candidate = checkpoint.copy();
    let heartbeat = |node_id: &u64, node: &NodeRecord| -> (next: NodeRecord)
        ensures
            next.deep_view() == heartbeat_from(ledger@.nodes)(
                node_id.deep_view(),
                node.deep_view(),
            ),
        { keep_heartbeat(node_id, node, &ledger.nodes) };
    let nodes = change_all(&checkpoint.nodes, Ghost(heartbeat_from(ledger@.nodes)), heartbeat);
    let mut combined = ledger.blocks.replicate();
    let ghost mine = combined.deep_view();
    let ghost all = blocks.deep_view();
    let mut i: usize = 0;
    assert(mine + all.take(0) =~= mine);
    while i < blocks.len()
        invariant
            i <= all.len(),
            all == blocks.deep_view(),
            all.len() == blocks@.len(),
            combined.deep_view() == mine + all.take(i as int),
        decreases all.len() - i,
    {
        let ghost before = combined.deep_view();
        let block = blocks[i].replicate();
        combined.push(block);
        assert(combined.deep_view() =~= before.push(block.deep_view()));
        assert(mine + all.take(i + 1) =~= (mine + all.take(i as int)).push(all[i as int]));
        i = i + 1;
    }
    assert(all.take(all.len() as int) =~= all);
    candidate.nodes = nodes;
    candidate.blocks = combined;
    candidate.pruned_through_height = ledger.pruned_through_height;
    candidate.pruned_tip_hash = ledger.pruned_tip_hash.replicate();
    candidate.pruned_tip_timestamp = ledger.pruned_tip_timestamp;
    candidate.operations = note_operations(
        &ledger.operations,
        operations,
        &checkpoint.operations,
    );
    candidate.finalized_checkpoint = None;
    candidate
}

/// The ledger that has caught up, if what was sent fits, before its root has been checked.
pub open spec fn candidate_prepared(
    ledger: LedgerModel,
    blocks: Seq<BlockModel>,
    operations: Seq<OperationModel>,
    checkpoint: LedgerModel,
) -> Outcome<LedgerModel> {
    if blocks.len() == 0 || !extends_chain(
        blocks,
        chain_height(ledger) as int,
        previous_hash(ledger),
    ) {
        Err("catch-up blocks are not a contiguous chain extension"@)
    } else if loses_pending(
        ledger.pending_operation_ids,
        blocks,
        checkpoint.pending_operation_ids,
    ) {
        Err("catch-up would discard a locally pending operation"@)
    } else if !checkpoint_fits(ledger, checkpoint, blocks.last()) {
        Err("catch-up finalized checkpoint metadata is invalid"@)
    } else {
        match owners_kept(ledger, checkpoint, ordered::<u64>(ledger.nodes.dom())) {
            Err(refusal) => Err(refusal),
            Ok(_) => match rotation_begun(ledger, blocks) {
                Err(refusal) => Err(refusal),
                Ok(_) => Ok(candidate_made(ledger, blocks, operations, checkpoint)),
            },
        }
    }
}

/// Makes the ledger that has caught up, if what was sent fits, so that its root can be found.
pub fn prepare_catch_up(
    ledger: &LedgerState,
    blocks: &Vec<BlockRecord>,
    operations: &Vec<OperationRecord>,
    checkpoint: &LedgerState,
) -> (r: Result<LedgerState>)
    ensures
        outcome(r) == candidate_prepared(
            ledger@,
            blocks.deep_view(),
            operations.deep_view(),
            checkpoint@,
        ),
{
    if blocks.len() == 0 || !check_extension(
        blocks,
        height(ledger),
        find_previous_hash(ledger),
    ) {
        return Err(Error::msg("catch-up blocks are not a contiguous chain extension"));
    }
    if would_lose_pending(
        &ledger.pending_operation_ids,
        blocks,
        &checkpoint.pending_operation_ids,
    ) {
        return Err(Error::msg("catch-up would discard a locally pending operation"));
    }
    if !check_checkpoint(ledger, checkpoint, &blocks[blocks.len() - 1]) {
        return Err(Error::msg("catch-up finalized checkpoint metadata is invalid"));
    }
    check_owners(ledger, checkpoint)?;
    check_rotation(ledger, blocks)?;
    Ok(make_candidate(ledger, blocks, operations, checkpoint))
}

/// The ledger after it has caught up, and its height.
pub open spec fn caught_up(
    ledger: LedgerModel,
    blocks: Seq<BlockModel>,
    operations: Seq<OperationModel>,
    checkpoint: LedgerModel,
    root: Seq<char>,
) -> Outcome<(LedgerModel, u64)> {
    if blocks.len() == 0 {
        Ok((ledger, chain_height(ledger)))
    } else {
        match candidate_prepared(ledger, blocks, operations, checkpoint) {
            Err(refusal) => Err(refusal),
            Ok(candidate) => if root != blocks.last().state_root {
                Err(
                    "catch-up checkpoint root "@ + root + " does not match finalized root "@
                        + blocks.last().state_root,
                )
            } else {
                match chain_checked(candidate) {
                    Err(refusal) => Err(refusal),
                    Ok(_) => Ok((checkpoint_taken(candidate), blocks.last().height)),
                }
            },
        }
    }
}

/// Catches up with blocks that others have made. `root` is the root of the ledger that
/// `prepare_catch_up` makes. What is refused leaves the ledger as it was.
pub fn apply_consensus_catch_up(
    ledger: &mut LedgerState,
    blocks: &Vec<BlockRecord>,
    operations: &Vec<OperationRecord>,
    checkpoint: &LedgerState,
    root: &str,
) -> (r: Result<u64>)
    ensures
        match caught_up(
            old(ledger)@,
            blocks.deep_view(),
            operations.deep_view(),
            checkpoint@,
            root@,
        ) {
            Ok(next) => final(ledger)@ == next.0 && (r matches Ok(at) && at == next.1),
            Err(refusal) => final(ledger)@ == old(ledger)@ && (r matches Err(error) && error@
                == refusal),
        },
{
    if blocks.len() == 0 {
        return Ok(height(ledger));
    }
    let mut candidate = prepare_catch_up(ledger, blocks, operations, checkpoint)?;
    let last = &blocks[blocks.len() - 1];
    if !text_same(root, last.state_root.as_str()) {
        return Err(
            Error::owned(
                join4(
                    "catch-up checkpoint root ",
                    root,
                    " does not match finalized root ",
                    last.state_root.as_str(),
                ),
            ),
        );
    }
    verify_blockchain_inner(&candidate)?;
    update_finalized_checkpoint(&mut candidate);
    *ledger = candidate;
    Ok(last.height)
}

/// Catching up only ever adds to the chain, and leaves every node its owner.
pub proof fn catching_up_extends_the_chain(
    ledger: LedgerModel,
    blocks: Seq<BlockModel>,
    operations: Seq<OperationModel>,
    checkpoint: LedgerModel,
    root: Seq<char>,
)
    requires
        blocks.len() > 0,
    ensures
        caught_up(ledger, blocks, operations, checkpoint, root) matches Ok(next) ==> {
            &&& next.0.blocks == ledger.blocks + blocks
            &&& next.0.blocks.last() == blocks.last()
            &&& next.0.ledger_id == ledger.ledger_id
            &&& next.0.genesis_authority == ledger.genesis_authority
            &&& chain_checked(candidate_made(ledger, blocks, operations, checkpoint)) is Ok
        },
{
}

/// Puts together what a peer that has fallen behind is sent.
pub fn consensus_catch_up_chunk(
    tip_height: u64,
    blocks: Vec<BlockRecord>,
    operations: Vec<OperationRecord>,
    finalized_checkpoint: Option<Box<LedgerState>>,
) -> (r: ConsensusCatchUpChunk)
    ensures
        r.tip_height == tip_height,
        r.blocks == blocks,
        r.operations == operations,
        r.finalized_checkpoint == finalized_checkpoint,
{
    ConsensusCatchUpChunk { tip_height, blocks, operations, finalized_checkpoint }
}

/// Each further validator is counted as a common one exactly if it is among the others.
pub proof fn common_validators_are_counted(ids: Seq<u64>, id: u64, others: Seq<u64>)
    ensures
        overlap_count(ids.push(id), others) == overlap_count(ids, others) + if others.contains(id) {
            1int
        } else {
            0
        },
        overlap_count(Seq::<u64>::empty(), others) == 0,
{
    assert(ids.push(id).drop_last() =~= ids);
}

/// From one block that the committee has agreed on to the next, more than two thirds of the earlier
/// committee stay.
pub proof fn committees_change_by_less_than_a_third(
    blocks: Seq<BlockModel>,
    trusted: Option<Seq<u64>>,
    exact: bool,
    at: int,
)
    requires
        rotation_checked(blocks, trusted, exact) is Ok,
        0 <= at < blocks.len() - 1,
        blocks[at].consensus_mode == BlockConsensusMode::MultiValidator,
        blocks[at + 1].consensus_mode == BlockConsensusMode::MultiValidator,
    ensures
        blocks[at].validator_node_ids.len() > 0 ==> 3 * overlap_count(
            blocks[at + 1].validator_node_ids,
            blocks[at].validator_node_ids,
        ) > 2 * blocks[at].validator_node_ids.len(),
    decreases blocks.len(),
{
    let rest = blocks.drop_first();
    if at > 0 {
        assert(rest[at - 1] == blocks[at] && rest[at] == blocks[at + 1]);
        if blocks[0].consensus_mode != BlockConsensusMode::MultiValidator {
            committees_change_by_less_than_a_third(rest, trusted, exact, at - 1);
        } else {
            committees_change_by_less_than_a_third(
                rest,
                Some(blocks[0].validator_node_ids),
                false,
                at - 1,
            );
        }
    } else {
        assert(rest[0] == blocks[1]);
        assert(rotation_checked(rest, Some(blocks[0].validator_node_ids), false) is Ok);
    }
}

/// Where the local committee is at work, the first block that a committee has agreed on has to be its
/// own.
pub proof fn catching_up_begins_with_the_own_committee(
    ledger: LedgerModel,
    blocks: Seq<BlockModel>,
)
    requires
        rotation_begun(ledger, blocks) is Ok,
        4 <= ledger.consensus.active_validators.len(),
        blocks.len() > 0,
        blocks[0].consensus_mode == BlockConsensusMode::MultiValidator,
    ensures
        blocks[0].validator_node_ids == ledger.consensus.active_validators,
{
}

} // verus!
