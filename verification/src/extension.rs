use vstd::prelude::*;
use vstd::string::*;
use vstd::utf8::*;

use crate::accounts::account_of;
use crate::blocks::{
    checkpoint_taken, hash_of, multi_block_signed, previous_hash, set_entries, set_entry,
};
use crate::candidates::operation_applied;
use crate::chain::{chain_height, chain_next_height, chain_tip_timestamp};
use crate::committee::{proposer_of, quorum_of};
use crate::consensus::{block_decided, past_vote_checked, vote_checked, votes_checked, votes_for};
use crate::continuity::{
    advancing_steps_on, applying_takes_operation, execution_base, finishing_takes_block,
    is_in_block, is_keyed, may_enter_block, nodes_are_numbered, owners_stay, pending_is_sound,
    producing_takes_block, replaying_takes_block, takes_block, takes_operation,
};
use crate::crypto::signature_checked;
use crate::epochs::epochs_advanced;
use crate::execution::{block_prepared, nothing_is_pending_after_a_block};
use crate::governance::genesis_of;
use crate::history::{
    agreement_checked, block_walked, blocks_walked, chain_checked, claims_checked, claims_falsely,
    commit_fits, commitment_checked, commits_checked, head_checked, ids_ascend, is_state_root,
    link_checked, operation_walked, operations_walked, pending_checked, walk_begun, WalkModel,
};
use crate::model::{
    BlockConsensusMode, BlockModel, ConsensusVoteType, GenesisModel, KeyModel, LedgerModel,
    NodeConfigModel, OperationStatus, SignedModel, VoteModel,
};
use crate::production::{node1_block_made, node1_state};
use crate::proposing::{
    order_checked, places_of, position_of, proposal_checked, proposer_checked, strictly_ascend,
};
use crate::protocol::{MAX_BLOCK_OPERATIONS, MULTI_VALIDATOR_BLOCK_VERSION};
use crate::search::values_where;
use crate::sequence::filtered_are_members;
use crate::soundness::{claims_hold, claims_of_each};
use crate::table::{ordered, ordered_lists_all};

verus! {

/// Whether a ledger is sound: its chain can be verified, and so can the chain of the state from
/// which the next block is executed, which is a state of the same ledger; and what is pending may go
/// into that block.
pub open spec fn is_sound(ledger: LedgerModel) -> bool {
    let base = execution_base(ledger);
    &&& chain_checked(ledger) is Ok
    &&& chain_checked(base) is Ok
    &&& base.ledger_id == ledger.ledger_id
    &&& genesis_of(base) == genesis_of(ledger)
    &&& nodes_are_numbered(ledger)
    &&& nodes_are_numbered(base)
    &&& ledger.operations.dom().finite()
    &&& pending_is_sound(ledger)
}

/// Whether no account has been given another key.
pub open spec fn keys_stay(before: LedgerModel, after: LedgerModel) -> bool {
    forall|address: Seq<char>| #[trigger]
        is_keyed(before, address) && is_keyed(after, address)
            ==> after.accounts[address].public_key == before.accounts[address].public_key
}

/// Whether what stands in the blocks of a ledger stands in another, which has some more operations.
spec fn keeps_history(before: LedgerModel, after: LedgerModel, ids: Seq<Seq<char>>) -> bool {
    &&& after.ledger_id == before.ledger_id
    &&& after.pruned_through_height == before.pruned_through_height
    &&& after.operation_history_from_height == before.operation_history_from_height
    &&& owners_stay(before, after)
    &&& forall|address: Seq<char>| #[trigger]
        is_keyed(before, address) ==> is_keyed(after, address)
            && after.accounts[address].public_key == before.accounts[address].public_key
    &&& forall|id: Seq<char>| #[trigger]
        before.operations.contains_key(id) && !ids.contains(id) && before.operations[id].status
            != OperationStatus::Pending ==> after.operations.contains_key(id)
    &&& forall|id: Seq<char>| #[trigger]
        after.operations.contains_key(id) && !ids.contains(id) ==> before.operations.contains_key(
            id,
        ) && after.operations[id] == before.operations[id]
}

proof fn set_entries_stay(
    before: LedgerModel,
    after: LedgerModel,
    validators: Seq<u64>,
    listed: Seq<Seq<char>>,
)
    requires
        owners_stay(before, after),
        set_entries(before, validators, listed) is Ok,
    ensures
        set_entries(after, validators, listed) == set_entries(before, validators, listed),
    decreases validators.len(),
{
    if validators.len() > 0 {
        assert(before.nodes.contains_key(validators[0]));
        assert(set_entry(before, validators[0]) == set_entry(after, validators[0]));
        set_entries_stay(
            before,
            after,
            validators.drop_first(),
            listed.push(set_entry(before, validators[0])),
        );
    }
}

proof fn commits_stay(
    before: LedgerModel,
    after: LedgerModel,
    block: BlockModel,
    votes: Seq<VoteModel>,
    seen: Seq<u64>,
)
    requires
        after.ledger_id == before.ledger_id,
        owners_stay(before, after),
        commits_checked(before, block, votes, seen) is Ok,
    ensures
        commits_checked(after, block, votes, seen) == commits_checked(before, block, votes, seen),
    decreases votes.len(),
{
    if votes.len() > 0 {
        assert(before.nodes.contains_key(votes[0].validator_node_id));
        commits_stay(
            before,
            after,
            block,
            votes.drop_first(),
            seen.push(votes[0].validator_node_id),
        );
    }
}

proof fn agreement_stays(
    before: LedgerModel,
    after: LedgerModel,
    genesis: GenesisModel,
    block: BlockModel,
)
    requires
        after.ledger_id == before.ledger_id,
        owners_stay(before, after),
        agreement_checked(before, genesis, block) is Ok,
    ensures
        agreement_checked(after, genesis, block) is Ok,
{
    reveal(agreement_checked);
    if block.consensus_mode == BlockConsensusMode::MultiValidator {
        set_entries_stay(before, after, block.validator_node_ids, Seq::empty());
        let expected = proposer_of(
            block.validator_node_ids,
            block.height,
            block.consensus_round,
        )->0;
        assert(before.nodes.contains_key(expected));
        commits_stay(before, after, block, block.commit_signatures, Seq::empty());
    }
}

proof fn operations_walk_again(
    before: LedgerModel,
    after: LedgerModel,
    taken: Seq<Seq<char>>,
    height: u64,
    ids: Seq<Seq<char>>,
    walk: WalkModel,
)
    requires
        keeps_history(before, after, taken),
        operations_walked(before, height, ids, walk) is Ok,
        forall|i: int| 0 <= i < ids.len() ==> !taken.contains(#[trigger] ids[i]),
    ensures
        operations_walked(after, height, ids, walk) == operations_walked(before, height, ids, walk),
    decreases ids.len(),
{
    if ids.len() > 0 {
        let id = ids[0];
        let next = operation_walked(before, height, id, walk)->Ok_0;
        assert(operation_walked(after, height, id, walk) == operation_walked(
            before,
            height,
            id,
            walk,
        )) by {
            reveal(commitment_checked);
            assert(!taken.contains(id));
            assert(before.operations.contains_key(id) ==> after.operations.contains_key(id));
            assert(after.operations.contains_key(id) ==> before.operations.contains_key(id));
            if before.operations.contains_key(id) {
                if let Some(signed) = before.operations[id].signed_operation {
                    assert(is_keyed(before, signed.unsigned.signer));
                }
            }
        }
        let rest = ids.drop_first();
        assert forall|i: int| 0 <= i < rest.len() implies !taken.contains(#[trigger] rest[i]) by {
            assert(rest[i] == ids[i + 1]);
        }
        operations_walk_again(before, after, taken, height, rest, next);
    }
}

/// Whether no block holds any of some operations.
spec fn none_in_blocks(blocks: Seq<BlockModel>, ids: Seq<Seq<char>>) -> bool {
    forall|b: int, id: Seq<char>|
        0 <= b < blocks.len() && #[trigger] blocks[b].operation_ids.contains(id) ==> !ids.contains(
            id,
        )
}

proof fn blocks_walk_again(
    before: LedgerModel,
    after: LedgerModel,
    taken: Seq<Seq<char>>,
    genesis: GenesisModel,
    blocks: Seq<BlockModel>,
    index: nat,
    walk: WalkModel,
)
    requires
        keeps_history(before, after, taken),
        blocks_walked(before, genesis, blocks, index, walk) is Ok,
        none_in_blocks(blocks, taken),
    ensures
        blocks_walked(after, genesis, blocks, index, walk) == blocks_walked(
            before,
            genesis,
            blocks,
            index,
            walk,
        ),
    decreases blocks.len(),
{
    if blocks.len() > 0 {
        let block = blocks[0];
        assert(block_walked(after, genesis, block, index, walk) == block_walked(
            before,
            genesis,
            block,
            index,
            walk,
        )) by {
            reveal(block_walked);
            agreement_stays(before, after, genesis, block);
            assert forall|i: int| 0 <= i < block.operation_ids.len() implies !taken.contains(
                #[trigger] block.operation_ids[i],
            ) by {
                assert(blocks[0].operation_ids.contains(block.operation_ids[i]));
            }
            operations_walk_again(
                before,
                after,
                taken,
                block.height,
                block.operation_ids,
                walk,
            );
        }
        let rest = blocks.drop_first();
        assert forall|b: int, id: Seq<char>|
            0 <= b < rest.len() && #[trigger] rest[b].operation_ids.contains(id) implies
            !taken.contains(id) by {
            assert(blocks[b + 1].operation_ids.contains(id));
        }
        let next = block_walked(before, genesis, block, index, walk)->Ok_0;
        blocks_walk_again(before, after, taken, genesis, rest, index + 1, next);
    }
}

proof fn operations_walk_past(
    ledger: LedgerModel,
    height: u64,
    ids: Seq<Seq<char>>,
    walk: WalkModel,
    id: Seq<char>,
)
    requires
        operations_walked(ledger, height, ids, walk) is Ok,
        !ids.contains(id),
        !walk.included.contains_key(id),
    ensures
        !operations_walked(ledger, height, ids, walk)->Ok_0.included.contains_key(id),
    decreases ids.len(),
{
    if ids.len() > 0 {
        assert(ids.contains(ids[0]));
        let rest = ids.drop_first();
        if rest.contains(id) {
            let j = choose|j: int| 0 <= j < rest.len() && rest[j] == id;
            assert(ids[j + 1] == id);
        }
        let next = operation_walked(ledger, height, ids[0], walk)->Ok_0;
        operations_walk_past(ledger, height, rest, next, id);
    }
}

proof fn blocks_walk_past(
    ledger: LedgerModel,
    genesis: GenesisModel,
    blocks: Seq<BlockModel>,
    index: nat,
    walk: WalkModel,
    id: Seq<char>,
)
    requires
        blocks_walked(ledger, genesis, blocks, index, walk) is Ok,
        forall|b: int| 0 <= b < blocks.len() ==> !(#[trigger] blocks[b]).operation_ids.contains(id),
        !walk.included.contains_key(id),
    ensures
        !blocks_walked(ledger, genesis, blocks, index, walk)->Ok_0.included.contains_key(id),
    decreases blocks.len(),
{
    if blocks.len() > 0 {
        reveal(block_walked);
        let block = blocks[0];
        operations_walk_past(ledger, block.height, block.operation_ids, walk, id);
        let rest = blocks.drop_first();
        assert forall|b: int| 0 <= b < rest.len() implies !(
        #[trigger] rest[b]).operation_ids.contains(id) by {
            assert(rest[b] == blocks[b + 1]);
        }
        let next = block_walked(ledger, genesis, block, index, walk)->Ok_0;
        blocks_walk_past(ledger, genesis, rest, index + 1, next, id);
    }
}

proof fn walks_end_at_the_tip(
    ledger: LedgerModel,
    genesis: GenesisModel,
    blocks: Seq<BlockModel>,
    index: nat,
    walk: WalkModel,
)
    requires
        blocks_walked(ledger, genesis, blocks, index, walk) is Ok,
    ensures
        ({
            let end = blocks_walked(ledger, genesis, blocks, index, walk)->Ok_0;
            if blocks.len() == 0 {
                end == walk
            } else {
                &&& end.previous_hash == blocks.last().block_hash
                &&& end.previous_timestamp == blocks.last().timestamp
                &&& blocks.last().height == ledger.pruned_through_height + index + blocks.len()
            }
        }),
    decreases blocks.len(),
{
    if blocks.len() > 0 {
        reveal(block_walked);
        let next = block_walked(ledger, genesis, blocks[0], index, walk)->Ok_0;
        walks_end_at_the_tip(ledger, genesis, blocks.drop_first(), index + 1, next);
    }
}

proof fn walks_reach_the_next_block(
    ledger: LedgerModel,
    genesis: GenesisModel,
    blocks: Seq<BlockModel>,
    block: BlockModel,
    index: nat,
    walk: WalkModel,
)
    requires
        blocks_walked(ledger, genesis, blocks, index, walk) is Ok,
    ensures
        blocks_walked(ledger, genesis, blocks.push(block), index, walk) == block_walked(
            ledger,
            genesis,
            block,
            index + blocks.len(),
            blocks_walked(ledger, genesis, blocks, index, walk)->Ok_0,
        ),
    decreases blocks.len(),
{
    let longer = blocks.push(block);
    if blocks.len() == 0 {
        assert(longer.drop_first() =~= Seq::empty());
        if let Ok(next) = block_walked(ledger, genesis, block, index, walk) {
            assert(blocks_walked(ledger, genesis, longer.drop_first(), index + 1, next) == Ok::<
                WalkModel,
                Seq<char>,
            >(next));
        }
    } else {
        assert(longer.drop_first() =~= blocks.drop_first().push(block));
        let next = block_walked(ledger, genesis, blocks[0], index, walk)->Ok_0;
        walks_reach_the_next_block(
            ledger,
            genesis,
            blocks.drop_first(),
            block,
            index + 1,
            next,
        );
    }
}

proof fn new_operations_walk(
    ledger: LedgerModel,
    height: u64,
    ids: Seq<Seq<char>>,
    walk: WalkModel,
)
    requires
        ids.no_duplicates(),
        forall|i: int|
            0 <= i < ids.len() ==> is_walkable(ledger, #[trigger] ids[i], height)
                && !walk.included.contains_key(ids[i]),
    ensures
        operations_walked(ledger, height, ids, walk) is Ok,
        ({
            let end = operations_walked(ledger, height, ids, walk)->Ok_0;
            forall|id: Seq<char>|
                (walk.included.contains_key(id) || ids.contains(id))
                    ==> #[trigger] end.included.contains_key(id)
        }),
    decreases ids.len(),
{
    if ids.len() > 0 {
        assert(is_walkable(ledger, ids[0], height));
        let next = operation_walked(ledger, height, ids[0], walk)->Ok_0;
        let rest = ids.drop_first();
        assert forall|i: int| 0 <= i < rest.len() implies is_walkable(
            ledger,
            #[trigger] rest[i],
            height,
        ) && !next.included.contains_key(rest[i]) by {
            assert(rest[i] == ids[i + 1]);
        }
        assert(rest.no_duplicates());
        new_operations_walk(ledger, height, rest, next);
        let end = operations_walked(ledger, height, ids, walk)->Ok_0;
        assert forall|id: Seq<char>|
            (walk.included.contains_key(id) || ids.contains(id)) implies
            #[trigger] end.included.contains_key(id) by {
            if !next.included.contains_key(id) {
                let j = choose|j: int| 0 <= j < ids.len() && ids[j] == id;
                assert(rest[j - 1] == id);
            }
        }
    }
}

/// Whether an operation stands in the block of a height as it was signed.
spec fn is_walkable(ledger: LedgerModel, id: Seq<char>, height: u64) -> bool {
    let record = ledger.operations[id];
    &&& ledger.operations.contains_key(id)
    &&& record.status != OperationStatus::Pending
    &&& record.block_height == Some(height)
    &&& record.signed_operation matches Some(signed) ==> commitment_checked(
        ledger,
        id,
        record,
        signed,
    ) is Ok
}

proof fn block_operations_walk(
    ledger: LedgerModel,
    before: LedgerModel,
    state: LedgerModel,
    after: LedgerModel,
    ids: Seq<Seq<char>>,
    height: u64,
)
    requires
        pending_is_sound(ledger),
        takes_block(ledger, before, state, ids, height),
        forall|i: int|
            0 <= i < ids.len() ==> ledger.pending_operation_ids.contains(#[trigger] ids[i]),
        after.operations == state.operations,
        after.accounts == state.accounts,
        keys_stay(ledger, after),
    ensures
        forall|i: int| 0 <= i < ids.len() ==> is_walkable(after, #[trigger] ids[i], height),
{
    reveal(commitment_checked);
    assert forall|i: int| 0 <= i < ids.len() implies is_walkable(
        after,
        #[trigger] ids[i],
        height,
    ) by {
        let id = ids[i];
        assert(is_in_block(ledger, state, id, height));
        let pending = ledger.pending_operation_ids;
        let j = choose|j: int| 0 <= j < pending.len() && pending[j] == id;
        assert(may_enter_block(ledger, pending[j]));
        if let Some(signed) = after.operations[id].signed_operation {
            assert(is_keyed(ledger, signed.unsigned.signer));
            assert(is_keyed(state, signed.unsigned.signer));
            assert(is_keyed(after, signed.unsigned.signer));
        }
    }
}

/// Whether a ledger is what becomes of a state when a block is added to its chain and the state is
/// set aside as the last final one.
spec fn closes(state: LedgerModel, block: BlockModel, next: LedgerModel) -> bool {
    &&& next == checkpoint_taken(next)
    &&& next.blocks == state.blocks.push(block)
    &&& next.ledger_id == state.ledger_id
    &&& next.pruned_through_height == state.pruned_through_height
    &&& next.pruned_tip_hash == state.pruned_tip_hash
    &&& next.pruned_tip_timestamp == state.pruned_tip_timestamp
    &&& next.operation_history_from_height == state.operation_history_from_height
    &&& next.genesis_authority == state.genesis_authority
    &&& next.nodes == state.nodes
    &&& next.next_node_id == state.next_node_id
    &&& next.accounts == state.accounts
    &&& next.operations == state.operations
    &&& next.pending_operation_ids.len() == 0
}

/// Whether a block stands behind the chain of a ledger.
spec fn is_next_block(ledger: LedgerModel, block: BlockModel) -> bool {
    &&& block.height == chain_next_height(ledger)
    &&& block.ledger_id == ledger.ledger_id
    &&& block.previous_block_hash == previous_hash(ledger)
    &&& chain_tip_timestamp(ledger) matches Some(at) ==> block.timestamp >= at
    &&& block.operation_ids.len() <= MAX_BLOCK_OPERATIONS
    &&& is_state_root(block.state_root)
}

proof fn closed_blocks_keep_the_chain_sound(
    ledger: LedgerModel,
    state: LedgerModel,
    block: BlockModel,
    next: LedgerModel,
)
    requires
        is_sound(ledger),
        chain_height(ledger) < u64::MAX,
        is_next_block(ledger, block),
        takes_block(ledger, execution_base(ledger), state, block.operation_ids, block.height),
        forall|i: int|
            0 <= i < block.operation_ids.len() ==> ledger.pending_operation_ids.contains(
                #[trigger] block.operation_ids[i],
            ),
        closes(state, block, next),
        agreement_checked(next, genesis_of(ledger)->0, block) is Ok,
        keys_stay(ledger, next),
        keys_stay(execution_base(ledger), next),
        next.next_node_id < u64::MAX,
    ensures
        is_sound(next),
{
    let base = execution_base(ledger);
    let ids = block.operation_ids;
    let height = chain_next_height(ledger);
    let genesis = head_checked(base)->Ok_0;
    let pending = ledger.pending_operation_ids;
    assert(keeps_history(base, next, ids)) by {
        assert forall|address: Seq<char>| #[trigger] is_keyed(base, address) implies is_keyed(
            next,
            address,
        ) && next.accounts[address].public_key == base.accounts[address].public_key by {
            assert(is_keyed(state, address));
        }
    }
    assert(head_checked(next) == Ok::<GenesisModel, Seq<char>>(genesis)) by {
        assert(base.nodes.contains_key(1));
        assert(genesis_of(next) == genesis_of(state));
    }
    assert(none_in_blocks(base.blocks, ids)) by {
        assert forall|b: int, id: Seq<char>|
            0 <= b < base.blocks.len() && #[trigger] base.blocks[b].operation_ids.contains(
                id,
            ) implies !ids.contains(id) by {
            if ids.contains(id) {
                let i = choose|i: int| 0 <= i < ids.len() && ids[i] == id;
                assert(pending.contains(ids[i]));
                let j = choose|j: int| 0 <= j < pending.len() && pending[j] == id;
                assert(may_enter_block(ledger, pending[j]));
                assert(!ledger.blocks[b].operation_ids.contains(id));
            }
        }
    }
    let begun = walk_begun(base);
    let whole = blocks_walked(base, genesis, base.blocks, 0, begun)->Ok_0;
    assert(walk_begun(next) == begun);
    blocks_walk_again(base, next, ids, genesis, base.blocks, 0, begun);
    walks_end_at_the_tip(base, genesis, base.blocks, 0, begun);
    walks_reach_the_next_block(next, genesis, base.blocks, block, 0, begun);
    block_operations_walk(ledger, base, state, next, ids, height);
    assert forall|i: int| 0 <= i < ids.len() implies !whole.included.contains_key(
        #[trigger] ids[i],
    ) by {
        assert forall|b: int| 0 <= b < base.blocks.len() implies !(
        #[trigger] base.blocks[b]).operation_ids.contains(ids[i]) by {
            assert(ids.contains(ids[i]));
        }
        blocks_walk_past(base, genesis, base.blocks, 0, begun, ids[i]);
    }
    new_operations_walk(next, height, ids, whole);
    assert(link_checked(next, block, base.blocks.len(), whole) is Ok);
    assert(block_walked(next, genesis, block, base.blocks.len(), whole) is Ok) by {
        reveal(block_walked);
    }
    let end = blocks_walked(next, genesis, next.blocks, 0, begun)->Ok_0;
    assert(forall|id: Seq<char>|
        (whole.included.contains_key(id) || ids.contains(id))
            ==> #[trigger] end.included.contains_key(id)) by {
        reveal(block_walked);
    }
    assert(base.operations.dom().finite()) by {
        assert(base.operations.dom().subset_of(ledger.operations.dom()));
        vstd::set_lib::lemma_len_subset(base.operations.dom(), ledger.operations.dom());
    }
    assert forall|i: int| 0 <= i < ids.len() implies !claims_falsely(
        next,
        next.operations[#[trigger] ids[i]],
        end.included,
    ) by {
        assert(is_in_block(ledger, state, ids[i], height));
        assert(ids.contains(ids[i]));
        assert(end.included.contains_key(ids[i]));
    }
    claims_stay(base, next, ids, whole.included, end.included);
    operations_stay_finite(base, next, ids);
    let other = execution_base(next);
    assert(other.nodes.dom() =~= next.nodes.dom());
    assert(nodes_are_numbered(other));
    assert(keeps_history(next, other, Seq::empty())) by {
        assert forall|address: Seq<char>| #[trigger] is_keyed(next, address) implies is_keyed(
            other,
            address,
        ) && other.accounts[address].public_key == next.accounts[address].public_key by {}
    }
    history_stays_sound(next, other);
}

/// A sound chain stays sound when the first node adds a block to it: the block is linked to the one
/// before, was made by the node whose turn it is, and holds operations that are what their signers
/// have signed; and whatever the block does, every block before it can still be verified. This is
/// so as long as no account is given another key and there are numbers left for blocks and nodes.
pub proof fn produced_blocks_keep_the_chain_sound(
    ledger: LedgerModel,
    config: NodeConfigModel,
    owner: KeyModel,
    allow_empty: bool,
    root: Seq<char>,
    signature: Seq<char>,
    now: i64,
)
    requires
        is_sound(ledger),
        chain_height(ledger) < u64::MAX,
        is_state_root(root),
        node1_block_made(ledger, config, owner, allow_empty, root, signature, now) is Ok,
        ({
            let next = node1_block_made(
                ledger,
                config,
                owner,
                allow_empty,
                root,
                signature,
                now,
            )->Ok_0.0;
            &&& keys_stay(ledger, next)
            &&& keys_stay(execution_base(ledger), next)
            &&& next.next_node_id < u64::MAX
        }),
    ensures
        is_sound(
            node1_block_made(ledger, config, owner, allow_empty, root, signature, now)->Ok_0.0,
        ),
{
    let (state, ids) = node1_state(ledger, config, owner, allow_empty, now)->Ok_0;
    let (next, block) = node1_block_made(
        ledger,
        config,
        owner,
        allow_empty,
        root,
        signature,
        now,
    )->Ok_0;
    producing_takes_block(ledger, config, owner, allow_empty, now);
    assert(agreement_checked(next, genesis_of(ledger)->0, block) is Ok) by {
        reveal(agreement_checked);
    }
    closed_blocks_keep_the_chain_sound(ledger, state, block, next);
}

proof fn operations_stay_finite(before: LedgerModel, after: LedgerModel, ids: Seq<Seq<char>>)
    requires
        before.operations.dom().finite(),
        keeps_history(before, after, ids),
    ensures
        after.operations.dom().finite(),
{
    let known = before.operations.dom().union(ids.to_set());
    vstd::seq_lib::seq_to_set_is_finite(ids);
    assert(after.operations.dom().subset_of(known)) by {
        assert forall|id: Seq<char>| after.operations.dom().contains(id) implies known.contains(
            id,
        ) by {
            assert(after.operations.contains_key(id));
        }
    }
    vstd::set_lib::lemma_len_subset(after.operations.dom(), known);
}

proof fn claims_stay(
    before: LedgerModel,
    after: LedgerModel,
    ids: Seq<Seq<char>>,
    included: Map<Seq<char>, u64>,
    more: Map<Seq<char>, u64>,
)
    requires
        before.operations.dom().finite(),
        keeps_history(before, after, ids),
        claims_checked(before, ordered::<String>(before.operations.dom()), included) is Ok,
        forall|i: int|
            0 <= i < ids.len() ==> !claims_falsely(
                after,
                after.operations[#[trigger] ids[i]],
                more,
            ),
        forall|id: Seq<char>|
            included.contains_key(id) ==> #[trigger] more.contains_key(id),
    ensures
        claims_checked(after, ordered::<String>(after.operations.dom()), more) is Ok,
{
    let all = ordered::<String>(before.operations.dom());
    let keys = ordered::<String>(after.operations.dom());
    operations_stay_finite(before, after, ids);
    ordered_lists_all::<String>(before.operations.dom());
    ordered_lists_all::<String>(after.operations.dom());
    assert forall|i: int| 0 <= i < keys.len() implies !claims_falsely(
        after,
        after.operations[#[trigger] keys[i]],
        more,
    ) by {
        let id = keys[i];
        assert(keys.contains(id));
        assert(after.operations.contains_key(id));
        if ids.contains(id) {
            let j = choose|j: int| 0 <= j < ids.len() && ids[j] == id;
            assert(!claims_falsely(after, after.operations[ids[j]], more));
        } else {
            assert(before.operations.contains_key(id));
            assert(all.contains(id));
            let j = choose|j: int| 0 <= j < all.len() && all[j] == id;
            claims_of_each(before, all, included, j);
            let named = before.operations[id].operation_id;
            if included.contains_key(named) {
                assert(more.contains_key(named));
            }
        }
    }
    claims_hold(after, keys, more);
}

proof fn history_stays_sound(before: LedgerModel, after: LedgerModel)
    requires
        chain_checked(before) is Ok,
        before.operations.dom().finite(),
        keeps_history(before, after, Seq::empty()),
        after.blocks == before.blocks,
        after.pruned_tip_hash == before.pruned_tip_hash,
        after.pruned_tip_timestamp == before.pruned_tip_timestamp,
        genesis_of(after) == genesis_of(before),
        after.pending_operation_ids.len() == 0,
    ensures
        chain_checked(after) is Ok,
{
    let none = Seq::<Seq<char>>::empty();
    let genesis = head_checked(before)->Ok_0;
    let begun = walk_begun(before);
    assert(before.nodes.contains_key(1));
    assert(head_checked(after) == Ok::<GenesisModel, Seq<char>>(genesis));
    assert(walk_begun(after) == begun);
    blocks_walk_again(before, after, none, genesis, before.blocks, 0, begun);
    let whole = blocks_walked(before, genesis, before.blocks, 0, begun)->Ok_0;
    claims_stay(before, after, none, whole.included, whole.included);
}

proof fn pending_can_be_checked(ledger: LedgerModel, ids: Seq<Seq<char>>)
    requires
        forall|i: int| 0 <= i < ids.len() ==> may_enter_block(ledger, #[trigger] ids[i]),
    ensures
        pending_checked(ledger, ids) is Ok,
    decreases ids.len(),
{
    if ids.len() > 0 {
        assert(may_enter_block(ledger, ids[0]));
        let rest = ids.drop_first();
        assert forall|i: int| 0 <= i < rest.len() implies may_enter_block(
            ledger,
            #[trigger] rest[i],
        ) by {
            assert(rest[i] == ids[i + 1]);
        }
        pending_can_be_checked(ledger, rest);
    }
}

proof fn queueing_keeps_pending_sound(
    ledger: LedgerModel,
    next: LedgerModel,
    public_key: Seq<char>,
    operation: SignedModel,
)
    requires
        pending_is_sound(ledger),
        !ledger.operations.contains_key(operation.intake.operation_id),
        takes_operation(ledger, next, operation),
        next.operations[operation.intake.operation_id].status == OperationStatus::Pending,
        signature_checked(public_key, operation.intake.signing_bytes, operation.signature) is Ok,
        account_of(next, operation.unsigned.signer).public_key == Some(public_key),
        keys_stay(ledger, next),
        forall|b: int|
            0 <= b < ledger.blocks.len() ==> !(#[trigger] ledger.blocks[b]).operation_ids.contains(
                operation.intake.operation_id,
            ),
    ensures
        pending_is_sound(next),
{
    reveal(commitment_checked);
    let id = operation.intake.operation_id;
    let before = ledger.pending_operation_ids;
    let after = next.pending_operation_ids;
    assert(!before.contains(id)) by {
        if before.contains(id) {
            let i = choose|i: int| 0 <= i < before.len() && before[i] == id;
            assert(may_enter_block(ledger, before[i]));
        }
    }
    assert forall|i: int| 0 <= i < after.len() implies may_enter_block(
        next,
        #[trigger] after[i],
    ) by {
        let other = after[i];
        assert(after.contains(other));
        if other != id {
            let j = choose|j: int| 0 <= j < before.len() && before[j] == other;
            assert(may_enter_block(ledger, before[j]));
            if let Some(signed) = ledger.operations[other].signed_operation {
                assert(is_keyed(ledger, signed.unsigned.signer));
                assert(is_keyed(next, signed.unsigned.signer));
            }
        }
    }
}

/// A sound ledger stays sound when it takes over an operation: whatever the operation does, its
/// chain can still be verified, and the operation may go into the next block. This is so for
/// operations that are in no block yet, as long as no account is given another key and there are
/// numbers left for nodes.
pub proof fn accepted_operations_keep_the_chain_sound(
    ledger: LedgerModel,
    public_key: Seq<char>,
    operation: SignedModel,
    now: i64,
)
    requires
        is_sound(ledger),
        operation_applied(ledger, public_key, operation, now) is Ok,
        ({
            let next = operation_applied(ledger, public_key, operation, now)->Ok_0;
            &&& keys_stay(ledger, next)
            &&& account_of(next, operation.unsigned.signer).public_key == Some(public_key)
            &&& next.next_node_id < u64::MAX
        }),
        forall|b: int|
            0 <= b < ledger.blocks.len() ==> !(#[trigger] ledger.blocks[b]).operation_ids.contains(
                operation.intake.operation_id,
            ),
    ensures
        is_sound(operation_applied(ledger, public_key, operation, now)->Ok_0),
{
    let id = operation.intake.operation_id;
    let next = operation_applied(ledger, public_key, operation, now)->Ok_0;
    if !ledger.operations.contains_key(id) {
        applying_takes_operation(ledger, public_key, operation, now);
        queueing_keeps_pending_sound(ledger, next, public_key, operation);
        let ids = seq![id];
        assert(ids.contains(ids[0]));
        let genesis = head_checked(ledger)->Ok_0;
        let begun = walk_begun(ledger);
        let whole = blocks_walked(ledger, genesis, ledger.blocks, 0, begun)->Ok_0;
        assert(keeps_history(ledger, next, ids));
        assert(ledger.nodes.contains_key(1));
        assert(head_checked(next) == Ok::<GenesisModel, Seq<char>>(genesis));
        assert(none_in_blocks(ledger.blocks, ids));
        assert(walk_begun(next) == begun);
        blocks_walk_again(ledger, next, ids, genesis, ledger.blocks, 0, begun);
        claims_stay(ledger, next, ids, whole.included, whole.included);
        operations_stay_finite(ledger, next, ids);
        pending_can_be_checked(next, next.pending_operation_ids);
        let base = execution_base(ledger);
        let other = execution_base(next);
        if ledger.finalized_checkpoint is Some {
            assert(other.operations =~= base.operations);
            assert(other.nodes.dom() =~= base.nodes.dom());
            assert(nodes_are_numbered(other));
            assert(keeps_history(base, other, Seq::empty())) by {
                assert forall|address: Seq<char>| #[trigger] is_keyed(base, address) implies
                    is_keyed(other, address) && other.accounts[address].public_key
                    == base.accounts[address].public_key by {}
            }
            assert(base.operations.dom().finite()) by {
                assert(base.operations.dom().subset_of(ledger.operations.dom()));
                vstd::set_lib::lemma_len_subset(base.operations.dom(), ledger.operations.dom());
            }
            assert(genesis_of(other) == genesis_of(base));
            history_stays_sound(base, other);
        }
    }
}

proof fn position_is_found(texts: Seq<Seq<char>>, text: Seq<char>)
    ensures
        position_of(texts, text) matches Some(at) ==> 0 <= at < texts.len() && texts[at] == text,
    decreases texts.len(),
{
    if texts.len() > 0 && texts[0] != text {
        position_is_found(texts.drop_first(), text);
    }
}

/// Whether a text stands at a place of a list.
spec fn stands_at(texts: Seq<Seq<char>>, at: int, text: Seq<char>) -> bool {
    0 <= at < texts.len() && texts[at] == text
}

proof fn places_are_found(pending: Seq<Seq<char>>, ids: Seq<Seq<char>>, found: Seq<int>)
    requires
        places_of(pending, ids, found) is Ok,
    ensures
        ({
            let places = places_of(pending, ids, found)->Ok_0;
            &&& places.len() == found.len() + ids.len()
            &&& places.take(found.len() as int) == found
            &&& forall|i: int|
                0 <= i < ids.len() ==> stands_at(
                    pending,
                    places[found.len() + i],
                    #[trigger] ids[i],
                )
        }),
    decreases ids.len(),
{
    let places = places_of(pending, ids, found)->Ok_0;
    if ids.len() == 0 {
        assert(places.take(found.len() as int) =~= found);
    } else {
        position_is_found(pending, ids[0]);
        let at = position_of(pending, ids[0])->0;
        let more = found.push(at);
        let rest = ids.drop_first();
        places_are_found(pending, rest, more);
        assert(places[found.len() as int] == at) by {
            assert(places.take(more.len() as int)[found.len() as int] == at);
        }
        assert(places.take(found.len() as int) =~= found) by {
            assert(places.take(more.len() as int).take(found.len() as int) =~= places.take(
                found.len() as int,
            ));
            assert(more.take(found.len() as int) =~= found);
        }
        assert forall|i: int| 0 <= i < ids.len() implies stands_at(
            pending,
            places[found.len() + i],
            #[trigger] ids[i],
        ) by {
            if i > 0 {
                assert(rest[i - 1] == ids[i]);
                assert(more.len() + (i - 1) == found.len() + i);
            } else {
                assert(found.len() + i == found.len());
            }
        }
    }
}

proof fn ascending_is_ordered(places: Seq<int>, i: int, j: int)
    requires
        strictly_ascend(places),
        0 <= i < j < places.len(),
    ensures
        places[i] < places[j],
    decreases j - i,
{
    if i + 1 < j {
        ascending_is_ordered(places, i, j - 1);
        assert(places[j - 1] < places[j - 1 + 1]);
    } else {
        assert(places[i] < places[i + 1]);
    }
}

proof fn ordered_operations_are_pending(pending: Seq<Seq<char>>, ids: Seq<Seq<char>>)
    requires
        pending.no_duplicates(),
        order_checked(pending, ids) is Ok,
    ensures
        ids.no_duplicates(),
        ids.len() <= pending.len(),
        forall|i: int| 0 <= i < ids.len() ==> pending.contains(#[trigger] ids[i]),
{
    let none = Seq::<int>::empty();
    places_are_found(pending, ids, none);
    let places = places_of(pending, ids, none)->Ok_0;
    assert forall|i: int| 0 <= i < ids.len() implies stands_at(
        pending,
        places[i],
        #[trigger] ids[i],
    ) by {
        assert(none.len() + i == i);
        assert(stands_at(pending, places[none.len() + i], ids[i]));
    }
    assert forall|i: int| 0 <= i < ids.len() implies pending.contains(#[trigger] ids[i]) by {
        assert(stands_at(pending, places[i], ids[i]));
    }
    if ids.len() > 0 {
        let last = ids.len() - 1;
        assert(stands_at(pending, places[0], ids[0]));
        assert(stands_at(pending, places[last], ids[last]));
        places_keep_up(places, last);
    }
    assert forall|i: int, j: int| 0 <= i < ids.len() && 0 <= j < ids.len() && i != j implies ids[i]
        != ids[j] by {
        assert(stands_at(pending, places[i], ids[i]));
        assert(stands_at(pending, places[j], ids[j]));
        if i < j {
            ascending_is_ordered(places, i, j);
        } else {
            ascending_is_ordered(places, j, i);
        }
    }
}

proof fn places_keep_up(places: Seq<int>, i: int)
    requires
        strictly_ascend(places),
        0 <= i < places.len(),
        places[0] >= 0,
    ensures
        places[i] >= i,
    decreases i,
{
    if i > 0 {
        places_keep_up(places, i - 1);
        assert(places[i - 1] < places[i - 1 + 1]);
    }
}

/// Whether every vote to commit is filed under the validator that cast it.
pub open spec fn commits_are_filed(ledger: LedgerModel) -> bool {
    &&& ledger.consensus.precommits.dom().finite()
    &&& forall|node_id: u64| #[trigger]
        ledger.consensus.precommits.contains_key(node_id) ==> {
            &&& ledger.consensus.precommits[node_id].validator_node_id == node_id
            &&& ledger.consensus.precommits[node_id].vote_type == ConsensusVoteType::Precommit
        }
}

/// Whether the committee is listed in order, and its members are nodes of the last final state with
/// the owners that they have now.
pub open spec fn committee_is_final(ledger: LedgerModel) -> bool {
    let base = execution_base(ledger);
    &&& ids_ascend(ledger.consensus.active_validators)
    &&& forall|node_id: u64| #[trigger]
        ledger.consensus.active_validators.contains(node_id) && ledger.nodes.contains_key(node_id)
            ==> {
            &&& base.nodes.contains_key(node_id)
            &&& base.nodes[node_id].owner_address == ledger.nodes[node_id].owner_address
            &&& base.nodes[node_id].owner_public_key == ledger.nodes[node_id].owner_public_key
        }
}

proof fn vote_is_valid(ledger: LedgerModel, votes: Seq<VoteModel>, i: int)
    requires
        votes_checked(ledger, votes) is Ok,
        0 <= i < votes.len(),
    ensures
        vote_checked(ledger, votes[i]) is Ok,
    decreases votes.len(),
{
    if i > 0 {
        assert(votes.drop_first()[i - 1] == votes[i]);
        vote_is_valid(ledger, votes.drop_first(), i - 1);
    }
}

proof fn commits_are_found(
    ledger: LedgerModel,
    block: BlockModel,
    votes: Seq<VoteModel>,
    seen: Seq<u64>,
)
    requires
        forall|i: int|
            0 <= i < votes.len() ==> past_vote_checked(ledger, #[trigger] votes[i]) is Ok
                && commit_fits(block, votes[i], Seq::empty()) && !seen.contains(
                votes[i].validator_node_id,
            ),
        forall|i: int, j: int|
            0 <= i < j < votes.len() ==> (#[trigger] votes[i]).validator_node_id != (
            #[trigger] votes[j]).validator_node_id,
    ensures
        commits_checked(ledger, block, votes, seen) is Ok,
        commits_checked(ledger, block, votes, seen)->Ok_0.len() == seen.len() + votes.len(),
    decreases votes.len(),
{
    if votes.len() > 0 {
        assert(past_vote_checked(ledger, votes[0]) is Ok);
        let rest = votes.drop_first();
        let more = seen.push(votes[0].validator_node_id);
        assert forall|i: int| 0 <= i < rest.len() implies past_vote_checked(
            ledger,
            #[trigger] rest[i],
        ) is Ok && commit_fits(block, rest[i], Seq::empty()) && !more.contains(
            rest[i].validator_node_id,
        ) by {
            assert(rest[i] == votes[i + 1]);
            assert(votes[0].validator_node_id != votes[i + 1].validator_node_id);
        }
        assert forall|i: int, j: int| 0 <= i < j < rest.len() implies (
        #[trigger] rest[i]).validator_node_id != (#[trigger] rest[j]).validator_node_id by {
            assert(votes[i + 1].validator_node_id != votes[j + 1].validator_node_id);
        }
        commits_are_found(ledger, block, rest, more);
    }
}

proof fn executing_takes_block(ledger: LedgerModel, block: BlockModel)
    requires
        pending_is_sound(ledger),
        order_checked(ledger.pending_operation_ids, block.operation_ids) is Ok,
        ledger.finalized_checkpoint is None ==> block.operation_ids
            == ledger.pending_operation_ids,
        block_prepared(
            ledger,
            block.operation_ids,
            block.height,
            block.timestamp,
            false,
        ) is Ok,
    ensures
        ({
            let ids = block.operation_ids;
            let prepared = block_prepared(
                ledger,
                ids,
                block.height,
                block.timestamp,
                false,
            )->Ok_0.0;
            &&& takes_block(ledger, execution_base(ledger), prepared, ids, block.height)
            &&& ids.len() <= ledger.pending_operation_ids.len()
            &&& forall|i: int|
                0 <= i < ids.len() ==> ledger.pending_operation_ids.contains(#[trigger] ids[i])
            &&& prepared.pending_operation_ids.len() == 0
        }),
{
    reveal(block_prepared);
    let ids = block.operation_ids;
    let pending = ledger.pending_operation_ids;
    ordered_operations_are_pending(pending, ids);
    nothing_is_pending_after_a_block(ledger, ids, block.height, block.timestamp, false);
    if ledger.finalized_checkpoint is Some {
        assert forall|i: int| 0 <= i < ids.len() implies may_enter_block(
            ledger,
            #[trigger] ids[i],
        ) by {
            let j = choose|j: int| 0 <= j < pending.len() && pending[j] == ids[i];
            assert(may_enter_block(ledger, pending[j]));
        }
        replaying_takes_block(ledger, ids, block.height, block.timestamp, false);
    } else {
        advancing_steps_on(ledger, block.timestamp);
        finishing_takes_block(
            ledger,
            epochs_advanced(ledger, block.timestamp)->Ok_0,
            block.height,
            block.timestamp,
        );
    }
}

proof fn committee_entries_stay(
    ledger: LedgerModel,
    next: LedgerModel,
    validators: Seq<u64>,
    listed: Seq<Seq<char>>,
)
    requires
        set_entries(ledger, validators, listed) is Ok,
        forall|i: int|
            0 <= i < validators.len() && ledger.nodes.contains_key(#[trigger] validators[i])
                ==> has_owner_of(ledger, next, validators[i]),
    ensures
        set_entries(next, validators, listed) == set_entries(ledger, validators, listed),
        forall|i: int|
            0 <= i < validators.len() ==> ledger.nodes.contains_key(#[trigger] validators[i]),
    decreases validators.len(),
{
    if validators.len() > 0 {
        assert(has_owner_of(ledger, next, validators[0]));
        assert(set_entry(ledger, validators[0]) == set_entry(next, validators[0]));
        let rest = validators.drop_first();
        assert forall|i: int|
            0 <= i < rest.len() && ledger.nodes.contains_key(#[trigger] rest[i]) implies
            has_owner_of(ledger, next, rest[i]) by {
            assert(rest[i] == validators[i + 1]);
        }
        committee_entries_stay(
            ledger,
            next,
            rest,
            listed.push(set_entry(ledger, validators[0])),
        );
        assert forall|i: int| 0 <= i < validators.len() implies ledger.nodes.contains_key(
            #[trigger] validators[i],
        ) by {
            if i > 0 {
                assert(rest[i - 1] == validators[i]);
            }
        }
    }
}

/// Whether a node is in another ledger, with the same owner.
spec fn has_owner_of(ledger: LedgerModel, next: LedgerModel, node_id: u64) -> bool {
    &&& next.nodes.contains_key(node_id)
    &&& next.nodes[node_id].owner_address == ledger.nodes[node_id].owner_address
    &&& next.nodes[node_id].owner_public_key == ledger.nodes[node_id].owner_public_key
}

proof fn chosen_stay_unique(keys: Seq<u64>, chosen: spec_fn(u64) -> bool)
    requires
        keys.no_duplicates(),
    ensures
        keys.filter(chosen).no_duplicates(),
    decreases keys.len(),
{
    reveal(Seq::filter);
    if keys.len() > 0 {
        let rest = keys.drop_last();
        assert(rest.no_duplicates());
        chosen_stay_unique(rest, chosen);
        filtered_are_members(rest, chosen);
        let kept = rest.filter(chosen);
        assert forall|i: int| 0 <= i < kept.len() implies #[trigger] kept[i] != keys.last() by {
            assert(rest.contains(kept[i]));
            let j = choose|j: int| 0 <= j < rest.len() && rest[j] == kept[i];
            assert(keys[j] != keys[keys.len() - 1]);
        }
    }
}

proof fn decided_blocks_are_agreed_on(
    ledger: LedgerModel,
    next: LedgerModel,
    genesis: GenesisModel,
    block: BlockModel,
    key: Seq<char>,
)
    requires
        ids_ascend(ledger.consensus.active_validators),
        commits_are_filed(ledger),
        next.ledger_id == ledger.ledger_id,
        forall|node_id: u64| #[trigger]
            ledger.consensus.active_validators.contains(node_id) && ledger.nodes.contains_key(
                node_id,
            ) ==> has_owner_of(ledger, next, node_id),
        block.version == MULTI_VALIDATOR_BLOCK_VERSION,
        block.consensus_mode == BlockConsensusMode::MultiValidator,
        block.height == chain_next_height(ledger),
        block.consensus_round == ledger.consensus.round,
        block.validator_epoch == ledger.epoch_number,
        block.validator_node_ids == ledger.consensus.active_validators,
        proposer_checked(ledger, block) == Ok::<Seq<char>, Seq<char>>(key),
        block.block_hash == hash_of(multi_block_signed(block)),
        signature_checked(
            key,
            encode_utf8(multi_block_signed(block)),
            block.producer_signature,
        ) is Ok,
        block.commit_signatures == values_where::<u64, VoteModel>(
            ledger.consensus.precommits,
            votes_for(Some(block.block_hash)),
        ),
        votes_checked(ledger, block.commit_signatures) is Ok,
        block.commit_signatures.len() >= quorum_of(ledger.consensus.active_validators.len()),
    ensures
        agreement_checked(next, genesis, block) is Ok,
{
    reveal(agreement_checked);
    let active = ledger.consensus.active_validators;
    let votes = block.commit_signatures;
    let precommits = ledger.consensus.precommits;
    assert forall|i: int|
        0 <= i < active.len() && ledger.nodes.contains_key(#[trigger] active[i]) implies
        has_owner_of(ledger, next, active[i]) by {
        assert(active.contains(active[i]));
    }
    committee_entries_stay(ledger, next, active, Seq::empty());
    let expected = proposer_of(active, block.height, block.consensus_round)->0;
    assert(active.contains(expected));
    assert(has_owner_of(ledger, next, expected));
    let keys = ordered::<u64>(precommits.dom());
    let chosen = |node_id: u64| votes_for(Some(block.block_hash))(precommits[node_id]);
    ordered_lists_all::<u64>(precommits.dom());
    filtered_are_members(keys, chosen);
    let voters = keys.filter(chosen);
    chosen_stay_unique(keys, chosen);
    assert forall|i: int| 0 <= i < votes.len() implies past_vote_checked(
        next,
        #[trigger] votes[i],
    ) is Ok && commit_fits(block, votes[i], Seq::empty()) && votes[i].validator_node_id
        == voters[i] by {
        reveal(vote_checked);
        assert(votes[i] == precommits[voters[i]]);
        assert(voters.contains(voters[i]));
        assert(keys.contains(voters[i]));
        assert(precommits.contains_key(voters[i]));
        vote_is_valid(ledger, votes, i);
        assert(active.contains(votes[i].validator_node_id));
    }
    assert forall|i: int, j: int| 0 <= i < j < votes.len() implies (
    #[trigger] votes[i]).validator_node_id != (#[trigger] votes[j]).validator_node_id by {
        assert(voters[i] != voters[j]);
    }
    commits_are_found(next, block, votes, Seq::empty());
}

/// A sound chain stays sound when the validators make a block final: the block that was proposed,
/// with the votes of a quorum, can be verified, and so can every block before it. This is so for
/// proposals that were found valid, as long as the members of the committee are nodes of the last
/// final state, no account is given another key, and there are numbers left for blocks and nodes.
pub proof fn decided_blocks_keep_the_chain_sound(
    ledger: LedgerModel,
    block_hash: Seq<char>,
    root: Seq<char>,
    proposed_at: i64,
)
    requires
        is_sound(ledger),
        chain_height(ledger) < u64::MAX,
        commits_are_filed(ledger),
        committee_is_final(ledger),
        ledger.settings.block_interval_seconds >= 0,
        is_state_root(root),
        block_decided(ledger, block_hash) is Ok,
        block_decided(ledger, block_hash)->Ok_0.1 is Some,
        proposal_checked(
            ledger,
            ledger.consensus.proposal->0.block,
            root,
            proposed_at,
        ) == Ok::<LedgerModel, Seq<char>>(*ledger.proposal_post_state->0),
        ({
            let next = block_decided(ledger, block_hash)->Ok_0.0;
            &&& keys_stay(ledger, next)
            &&& keys_stay(execution_base(ledger), next)
            &&& next.next_node_id < u64::MAX
        }),
    ensures
        is_sound(block_decided(ledger, block_hash)->Ok_0.0),
{
    reveal(block_decided);
    let (next, decided) = block_decided(ledger, block_hash)->Ok_0;
    let block = decided->0;
    let proposed = ledger.consensus.proposal->0.block;
    let base = execution_base(ledger);
    let prepared = block_prepared(
        ledger,
        proposed.operation_ids,
        proposed.height,
        proposed.timestamp,
        false,
    )->Ok_0.0;
    executing_takes_block(ledger, proposed);
    assert(closes(prepared, block, next));
    assert(is_next_block(ledger, block));
    assert(owners_stay(base, prepared));
    assert forall|node_id: u64| #[trigger]
        ledger.consensus.active_validators.contains(node_id) && ledger.nodes.contains_key(
            node_id,
        ) implies has_owner_of(ledger, next, node_id) by {
        assert(base.nodes.contains_key(node_id));
    }
    assert(proposer_checked(ledger, block) == proposer_checked(ledger, proposed));
    assert(multi_block_signed(block) == multi_block_signed(proposed));
    decided_blocks_are_agreed_on(
        ledger,
        next,
        genesis_of(ledger)->0,
        block,
        proposer_checked(ledger, proposed)->Ok_0,
    );
    closed_blocks_keep_the_chain_sound(ledger, prepared, block, next);
}

proof fn nothing_is_claimed(
    ledger: LedgerModel,
    keys: Seq<Seq<char>>,
    included: Map<Seq<char>, u64>,
)
    requires
        forall|i: int|
            0 <= i < keys.len() ==> ledger.operations[#[trigger] keys[i]].block_height is None,
    ensures
        claims_checked(ledger, keys, included) is Ok,
{
    assert forall|i: int| 0 <= i < keys.len() implies !claims_falsely(
        ledger,
        ledger.operations[#[trigger] keys[i]],
        included,
    ) by {
        assert(ledger.operations[keys[i]].block_height is None);
    }
    claims_hold(ledger, keys, included);
}

/// A ledger in which the first node has been registered is sound before there is any block.
pub proof fn chains_begin_sound(ledger: LedgerModel)
    requires
        head_checked(ledger) is Ok,
        ledger.blocks.len() == 0,
        ledger.finalized_checkpoint is None,
        nodes_are_numbered(ledger),
        ledger.operations.dom().finite(),
        forall|id: Seq<char>| #[trigger]
            ledger.operations.contains_key(id) ==> ledger.operations[id].block_height is None,
        pending_is_sound(ledger),
    ensures
        is_sound(ledger),
{
    let keys = ordered::<String>(ledger.operations.dom());
    ordered_lists_all::<String>(ledger.operations.dom());
    assert forall|i: int| 0 <= i < keys.len() implies
        ledger.operations[#[trigger] keys[i]].block_height is None by {
        assert(keys.contains(keys[i]));
        assert(ledger.operations.contains_key(keys[i]));
    }
    let begun = walk_begun(ledger);
    nothing_is_claimed(ledger, keys, begun.included);
    pending_can_be_checked(ledger, ledger.pending_operation_ids);
}

} // verus!
