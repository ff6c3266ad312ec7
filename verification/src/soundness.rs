use vstd::prelude::*;
use vstd::string::*;

use crate::blocks::{set_entries, set_entry};
use crate::history::{
    agreement_checked, block_walked, blocks_walked, chain_checked, claims_checked, claims_falsely,
    commitment_checked, commits_checked, head_checked, operation_walked, operations_walked,
    pending_checked, walk_begun, WalkModel,
};
use crate::model::{BlockModel, GenesisModel, LedgerModel, VoteModel};
use crate::pruning::history_pruned;
use crate::table::ordered;

verus! {

/// Whether every operation is kept under its own identifier.
pub open spec fn operations_keyed(ledger: LedgerModel) -> bool {
    forall|id: Seq<char>| #[trigger]
        ledger.operations.contains_key(id) ==> ledger.operations[id].operation_id == id
}

/// Whether two ledgers have the same name, the same nodes and the same keys of their accounts.
spec fn same_signers(first: LedgerModel, second: LedgerModel) -> bool {
    &&& first.ledger_id == second.ledger_id
    &&& first.nodes == second.nodes
    &&& forall|address: Seq<char>| #[trigger]
        first.accounts.contains_key(address) == second.accounts.contains_key(address)
    &&& forall|address: Seq<char>| #[trigger]
        first.accounts.contains_key(address) ==> first.accounts[address].public_key
            == second.accounts[address].public_key
}

proof fn same_set_entries(
    first: LedgerModel,
    second: LedgerModel,
    validators: Seq<u64>,
    entries: Seq<Seq<char>>,
)
    requires
        same_signers(first, second),
    ensures
        set_entries(first, validators, entries) == set_entries(second, validators, entries),
    decreases validators.len(),
{
    if validators.len() > 0 && first.nodes.contains_key(validators[0]) {
        assert(set_entry(first, validators[0]) == set_entry(second, validators[0]));
        same_set_entries(
            first,
            second,
            validators.drop_first(),
            entries.push(set_entry(first, validators[0])),
        );
    }
}

proof fn same_commits(
    first: LedgerModel,
    second: LedgerModel,
    block: BlockModel,
    votes: Seq<VoteModel>,
    seen: Seq<u64>,
)
    requires
        same_signers(first, second),
    ensures
        commits_checked(first, block, votes, seen) == commits_checked(second, block, votes, seen),
    decreases votes.len(),
{
    if votes.len() > 0 {
        same_commits(
            first,
            second,
            block,
            votes.drop_first(),
            seen.push(votes[0].validator_node_id),
        );
    }
}

proof fn same_agreement(
    first: LedgerModel,
    second: LedgerModel,
    genesis: GenesisModel,
    block: BlockModel,
)
    requires
        same_signers(first, second),
    ensures
        agreement_checked(first, genesis, block) == agreement_checked(second, genesis, block),
{
    reveal(agreement_checked);
    same_set_entries(first, second, block.validator_node_ids, Seq::empty());
    same_commits(first, second, block, block.commit_signatures, Seq::empty());
}

/// The walk after the first blocks.
spec fn walk_after(
    ledger: LedgerModel,
    genesis: GenesisModel,
    blocks: Seq<BlockModel>,
    index: nat,
    walk: WalkModel,
    count: nat,
) -> WalkModel
    decreases count,
{
    if count == 0 || blocks.len() == 0 {
        walk
    } else {
        walk_after(
            ledger,
            genesis,
            blocks.drop_first(),
            index + 1,
            block_walked(ledger, genesis, blocks[0], index, walk)->Ok_0,
            (count - 1) as nat,
        )
    }
}

/// Whether a walk knows the heights of the operations in it, none of which is above a height.
spec fn is_faithful(ledger: LedgerModel, walk: WalkModel, height: int) -> bool {
    forall|id: Seq<char>| #[trigger]
        walk.included.contains_key(id) ==> walk.included[id] <= height && (
        ledger.operations.contains_key(id) ==> ledger.operations[id].block_height == Some(
            walk.included[id],
        ))
}

proof fn operations_keep_faith(
    ledger: LedgerModel,
    height: u64,
    ids: Seq<Seq<char>>,
    walk: WalkModel,
)
    requires
        operations_walked(ledger, height, ids, walk) is Ok,
        is_faithful(ledger, walk, height as int),
    ensures
        is_faithful(
            ledger,
            operations_walked(ledger, height, ids, walk)->Ok_0,
            height as int,
        ),
    decreases ids.len(),
{
    if ids.len() > 0 {
        let next = operation_walked(ledger, height, ids[0], walk)->Ok_0;
        operations_keep_faith(ledger, height, ids.drop_first(), next);
    }
}

proof fn blocks_keep_faith(
    ledger: LedgerModel,
    genesis: GenesisModel,
    blocks: Seq<BlockModel>,
    index: nat,
    walk: WalkModel,
)
    requires
        blocks_walked(ledger, genesis, blocks, index, walk) is Ok,
        is_faithful(ledger, walk, ledger.pruned_through_height + index),
    ensures
        is_faithful(
            ledger,
            blocks_walked(ledger, genesis, blocks, index, walk)->Ok_0,
            ledger.pruned_through_height + index + blocks.len(),
        ),
    decreases blocks.len(),
{
    reveal(block_walked);
    if blocks.len() > 0 {
        let block = blocks[0];
        operations_keep_faith(ledger, block.height, block.operation_ids, walk);
        let next = block_walked(ledger, genesis, block, index, walk)->Ok_0;
        blocks_keep_faith(ledger, genesis, blocks.drop_first(), index + 1, next);
    }
}

proof fn walks_split(
    ledger: LedgerModel,
    genesis: GenesisModel,
    blocks: Seq<BlockModel>,
    index: nat,
    walk: WalkModel,
    count: nat,
)
    requires
        blocks_walked(ledger, genesis, blocks, index, walk) is Ok,
        is_faithful(ledger, walk, ledger.pruned_through_height + index),
        count <= blocks.len(),
    ensures
        ({
            let middle = walk_after(ledger, genesis, blocks, index, walk, count);
            &&& blocks_walked(ledger, genesis, blocks.skip(count as int), index + count, middle)
                == blocks_walked(ledger, genesis, blocks, index, walk)
            &&& is_faithful(ledger, middle, ledger.pruned_through_height + index + count)
            &&& count > 0 ==> middle.previous_hash == blocks[count - 1].block_hash
                && middle.previous_timestamp == blocks[count - 1].timestamp
                && blocks[count - 1].height == ledger.pruned_through_height + index + count
        }),
    decreases count,
{
    reveal(block_walked);
    if count == 0 {
        assert(blocks.skip(0) =~= blocks);
    } else {
        let block = blocks[0];
        let rest = blocks.drop_first();
        operations_keep_faith(ledger, block.height, block.operation_ids, walk);
        let next = block_walked(ledger, genesis, block, index, walk)->Ok_0;
        walks_split(ledger, genesis, rest, index + 1, next, (count - 1) as nat);
        assert(rest.skip(count - 1) =~= blocks.skip(count as int));
        if count > 1 {
            assert(rest[count - 2] == blocks[count - 1]);
        }
    }
}

/// Whether a walk that began after a height is where another walk is.
spec fn keeps_up(walk: WalkModel, other: WalkModel, height: u64) -> bool {
    &&& other.previous_hash == walk.previous_hash
    &&& other.previous_timestamp == walk.previous_timestamp
    &&& forall|id: Seq<char>| #[trigger]
        other.included.contains_key(id) ==> walk.included.contains_key(id)
    &&& forall|id: Seq<char>| #[trigger]
        walk.included.contains_key(id) && walk.included[id] > height
            ==> other.included.contains_key(id)
}

proof fn operation_keeps_up(
    ledger: LedgerModel,
    retained: usize,
    count: usize,
    height: u64,
    id: Seq<char>,
    walk: WalkModel,
    other: WalkModel,
)
    requires
        retained < ledger.blocks.len(),
        operation_walked(ledger, height, id, walk) is Ok,
        height > history_pruned(ledger, retained, count).pruned_through_height,
        keeps_up(walk, other, history_pruned(ledger, retained, count).pruned_through_height),
    ensures
        ({
            let pruned = history_pruned(ledger, retained, count);
            &&& operation_walked(pruned, height, id, other) is Ok
            &&& keeps_up(
                operation_walked(ledger, height, id, walk)->Ok_0,
                operation_walked(pruned, height, id, other)->Ok_0,
                pruned.pruned_through_height,
            )
        }),
{
    reveal(commitment_checked);
}

proof fn operations_keep_up(
    ledger: LedgerModel,
    retained: usize,
    count: usize,
    height: u64,
    ids: Seq<Seq<char>>,
    walk: WalkModel,
    other: WalkModel,
)
    requires
        retained < ledger.blocks.len(),
        operations_walked(ledger, height, ids, walk) is Ok,
        height > history_pruned(ledger, retained, count).pruned_through_height,
        keeps_up(walk, other, history_pruned(ledger, retained, count).pruned_through_height),
    ensures
        ({
            let pruned = history_pruned(ledger, retained, count);
            &&& operations_walked(pruned, height, ids, other) is Ok
            &&& keeps_up(
                operations_walked(ledger, height, ids, walk)->Ok_0,
                operations_walked(pruned, height, ids, other)->Ok_0,
                pruned.pruned_through_height,
            )
        }),
    decreases ids.len(),
{
    if ids.len() > 0 {
        let pruned = history_pruned(ledger, retained, count);
        operation_keeps_up(ledger, retained, count, height, ids[0], walk, other);
        operations_keep_up(
            ledger,
            retained,
            count,
            height,
            ids.drop_first(),
            operation_walked(ledger, height, ids[0], walk)->Ok_0,
            operation_walked(pruned, height, ids[0], other)->Ok_0,
        );
    }
}

proof fn pruning_keeps_signers(ledger: LedgerModel, retained: usize, count: usize)
    ensures
        same_signers(ledger, history_pruned(ledger, retained, count)),
{
}

proof fn blocks_keep_up(
    ledger: LedgerModel,
    retained: usize,
    count: usize,
    genesis: GenesisModel,
    blocks: Seq<BlockModel>,
    index: nat,
    other_index: nat,
    walk: WalkModel,
    other: WalkModel,
)
    requires
        retained < ledger.blocks.len(),
        blocks_walked(ledger, genesis, blocks, index, walk) is Ok,
        ledger.pruned_through_height + index == history_pruned(
            ledger,
            retained,
            count,
        ).pruned_through_height + other_index,
        keeps_up(walk, other, history_pruned(ledger, retained, count).pruned_through_height),
    ensures
        ({
            let pruned = history_pruned(ledger, retained, count);
            &&& blocks_walked(pruned, genesis, blocks, other_index, other) is Ok
            &&& keeps_up(
                blocks_walked(ledger, genesis, blocks, index, walk)->Ok_0,
                blocks_walked(pruned, genesis, blocks, other_index, other)->Ok_0,
                pruned.pruned_through_height,
            )
        }),
    decreases blocks.len(),
{
    if blocks.len() > 0 {
        let pruned = history_pruned(ledger, retained, count);
        let block = blocks[0];
        assert(block_walked(pruned, genesis, block, other_index, other) is Ok && keeps_up(
            block_walked(ledger, genesis, block, index, walk)->Ok_0,
            block_walked(pruned, genesis, block, other_index, other)->Ok_0,
            pruned.pruned_through_height,
        )) by {
            reveal(block_walked);
            pruning_keeps_signers(ledger, retained, count);
            same_agreement(ledger, pruned, genesis, block);
            operations_keep_up(
                ledger,
                retained,
                count,
                block.height,
                block.operation_ids,
                walk,
                other,
            );
        }
        blocks_keep_up(
            ledger,
            retained,
            count,
            genesis,
            blocks.drop_first(),
            index + 1,
            other_index + 1,
            block_walked(ledger, genesis, block, index, walk)->Ok_0,
            block_walked(pruned, genesis, block, other_index, other)->Ok_0,
        );
    }
}

pub(crate) proof fn claims_of_each(
    ledger: LedgerModel,
    keys: Seq<Seq<char>>,
    included: Map<Seq<char>, u64>,
    i: int,
)
    requires
        claims_checked(ledger, keys, included) is Ok,
        0 <= i < keys.len(),
    ensures
        !claims_falsely(ledger, ledger.operations[keys[i]], included),
    decreases keys.len(),
{
    if i > 0 {
        assert(keys.drop_first()[i - 1] == keys[i]);
        claims_of_each(ledger, keys.drop_first(), included, i - 1);
    }
}

pub(crate) proof fn claims_hold(
    ledger: LedgerModel,
    keys: Seq<Seq<char>>,
    included: Map<Seq<char>, u64>,
)
    requires
        forall|i: int|
            0 <= i < keys.len() ==> !claims_falsely(
                ledger,
                ledger.operations[#[trigger] keys[i]],
                included,
            ),
    ensures
        claims_checked(ledger, keys, included) is Ok,
    decreases keys.len(),
{
    if keys.len() > 0 {
        assert(!claims_falsely(ledger, ledger.operations[keys[0]], included));
        let rest = keys.drop_first();
        assert forall|i: int| 0 <= i < rest.len() implies !claims_falsely(
            ledger,
            ledger.operations[#[trigger] rest[i]],
            included,
        ) by {
            assert(rest[i] == keys[i + 1]);
        }
        claims_hold(ledger, rest, included);
    }
}

proof fn pending_stay(ledger: LedgerModel, retained: usize, count: usize, ids: Seq<Seq<char>>)
    requires
        pending_checked(ledger, ids) is Ok,
    ensures
        pending_checked(history_pruned(ledger, retained, count), ids) is Ok,
    decreases ids.len(),
{
    if ids.len() > 0 {
        pending_stay(ledger, retained, count, ids.drop_first());
    }
}

/// Pruning leaves a sound chain sound, however much of it is given up.
pub proof fn pruned_chains_stay_sound(ledger: LedgerModel, retained: usize, count: usize)
    requires
        chain_checked(ledger) is Ok,
        operations_keyed(ledger),
        ledger.operations.dom().finite(),
    ensures
        chain_checked(history_pruned(ledger, retained, count)) is Ok,
{
    let pruned = history_pruned(ledger, retained, count);
    let genesis = head_checked(ledger)->Ok_0;
    let begun = walk_begun(ledger);
    let whole = blocks_walked(ledger, genesis, ledger.blocks, 0, begun)->Ok_0;
    pending_stay(ledger, retained, count, ledger.pending_operation_ids);
    if retained < ledger.blocks.len() {
        let cut = (ledger.blocks.len() - retained) as nat;
        walks_split(ledger, genesis, ledger.blocks, 0, begun, cut);
        let middle = walk_after(ledger, genesis, ledger.blocks, 0, begun, cut);
        let rest = ledger.blocks.skip(cut as int);
        blocks_keep_faith(ledger, genesis, ledger.blocks, 0, begun);
        blocks_keep_up(
            ledger,
            retained,
            count,
            genesis,
            rest,
            cut,
            0,
            middle,
            walk_begun(pruned),
        );
        let other = blocks_walked(pruned, genesis, rest, 0, walk_begun(pruned))->Ok_0;
        let keys = ordered::<String>(pruned.operations.dom());
        let all = ordered::<String>(ledger.operations.dom());
        assert(pruned.operations.dom().subset_of(ledger.operations.dom()));
        vstd::set_lib::lemma_len_subset(pruned.operations.dom(), ledger.operations.dom());
        crate::table::ordered_lists_all::<String>(pruned.operations.dom());
        crate::table::ordered_lists_all::<String>(ledger.operations.dom());
        assert forall|i: int| 0 <= i < keys.len() implies !claims_falsely(
            pruned,
            pruned.operations[#[trigger] keys[i]],
            other.included,
        ) by {
            let id = keys[i];
            assert(keys.contains(id));
            assert(pruned.operations.contains_key(id));
            assert(ledger.operations.contains_key(id));
            assert(all.contains(id));
            let j = choose|j: int| 0 <= j < all.len() && all[j] == id;
            claims_of_each(ledger, all, whole.included, j);
        }
        claims_hold(pruned, keys, other.included);
        assert(head_checked(pruned) == head_checked(ledger));
    } else {
        assert(walk_begun(pruned) == begun);
        unpruned_walks_agree(ledger, retained, count, genesis, ledger.blocks, 0, begun);
        let keys = ordered::<String>(ledger.operations.dom());
        assert forall|i: int| 0 <= i < keys.len() implies !claims_falsely(
            pruned,
            pruned.operations[#[trigger] keys[i]],
            whole.included,
        ) by {
            claims_of_each(ledger, keys, whole.included, i);
        }
        claims_hold(pruned, keys, whole.included);
    }
}

proof fn unpruned_operations_agree(
    ledger: LedgerModel,
    retained: usize,
    count: usize,
    height: u64,
    ids: Seq<Seq<char>>,
    walk: WalkModel,
)
    requires
        ledger.blocks.len() <= retained,
    ensures
        operations_walked(history_pruned(ledger, retained, count), height, ids, walk)
            == operations_walked(ledger, height, ids, walk),
    decreases ids.len(),
{
    reveal(commitment_checked);
    if ids.len() > 0 {
        let pruned = history_pruned(ledger, retained, count);
        assert(operation_walked(pruned, height, ids[0], walk) == operation_walked(
            ledger,
            height,
            ids[0],
            walk,
        ));
        if let Ok(next) = operation_walked(ledger, height, ids[0], walk) {
            unpruned_operations_agree(ledger, retained, count, height, ids.drop_first(), next);
        }
    }
}

proof fn unpruned_walks_agree(
    ledger: LedgerModel,
    retained: usize,
    count: usize,
    genesis: GenesisModel,
    blocks: Seq<BlockModel>,
    index: nat,
    walk: WalkModel,
)
    requires
        ledger.blocks.len() <= retained,
    ensures
        blocks_walked(history_pruned(ledger, retained, count), genesis, blocks, index, walk)
            == blocks_walked(ledger, genesis, blocks, index, walk),
    decreases blocks.len(),
{
    if blocks.len() > 0 {
        let pruned = history_pruned(ledger, retained, count);
        let block = blocks[0];
        assert(block_walked(pruned, genesis, block, index, walk) == block_walked(
            ledger,
            genesis,
            block,
            index,
            walk,
        )) by {
            reveal(block_walked);
            pruning_keeps_signers(ledger, retained, count);
            same_agreement(ledger, pruned, genesis, block);
            unpruned_operations_agree(
                ledger,
                retained,
                count,
                block.height,
                block.operation_ids,
                walk,
            );
        }
        if let Ok(next) = block_walked(ledger, genesis, block, index, walk) {
            unpruned_walks_agree(
                ledger,
                retained,
                count,
                genesis,
                blocks.drop_first(),
                index + 1,
                next,
            );
        }
    }
}

} // verus!
