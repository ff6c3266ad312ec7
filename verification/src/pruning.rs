use vstd::prelude::*;

use crate::blocks::{among, keep_known};
use crate::chain::{chain_height, chain_tip_hash, chain_tip_timestamp};
use crate::model::{
    AccountModel, AccountState, BlockRecord, LedgerModel, LedgerState, LocalNodeConfig,
    NodeConfigModel, NodeStorageMode, OperationModel, OperationRecord,
};
use crate::number::{clamped_u64, least};
use crate::search::{change_all, entries_changed, entries_where, retain_where};
use crate::table::{Replicate, Table};

verus! {

/// What pruning has left.
#[derive(Clone, Copy, Debug, PartialEq, Eq, Structural)]
pub struct HistoryPruneReport {
    pub pruned_blocks: usize,
    pub pruned_operations: usize,
    pub pruned_through_height: u64,
    pub retained_blocks: usize,
    pub retained_operations: usize,
}

impl DeepView for HistoryPruneReport {
    type V = HistoryPruneReport;

    open spec fn deep_view(&self) -> HistoryPruneReport {
        *self
    }
}

/// Which operations are in no block up to a height.
pub open spec fn after_height(height: u64) -> spec_fn(OperationModel) -> bool {
    |operation: OperationModel|
        match operation.block_height {
            None => true,
            Some(at) => at > height,
        }
}

/// The last of some texts.
pub open spec fn last_of(texts: Seq<Seq<char>>, count: usize) -> Seq<Seq<char>> {
    texts.skip(texts.len() - least(count as int, texts.len() as int))
}

/// The account, of whose history only the last is left of what is known.
pub open spec fn history_cut(known: Set<Seq<char>>, count: usize) -> spec_fn(
    Seq<char>,
    AccountModel,
) -> AccountModel {
    |address: Seq<char>, account: AccountModel|
        AccountModel {
            operation_ids: last_of(account.operation_ids.filter(among(known)), count),
            ..account
        }
}

/// The ledger with only its last blocks, the operations in them and the last of every history.
pub open spec fn history_pruned(ledger: LedgerModel, retained: usize, count: usize) -> LedgerModel {
    if ledger.blocks.len() <= retained {
        LedgerModel {
            accounts: entries_changed(
                ledger.accounts,
                history_cut(ledger.operations.dom(), count),
            ),
            ..ledger
        }
    } else {
        let cut = ledger.blocks.len() - retained;
        let last = ledger.blocks[cut - 1];
        let operations = entries_where(ledger.operations, after_height(last.height));
        LedgerModel {
            blocks: ledger.blocks.skip(cut),
            pruned_through_height: last.height,
            pruned_tip_hash: Some(last.block_hash),
            pruned_tip_timestamp: Some(last.timestamp),
            pruned_operation_count: clamped_u64(
                ledger.pruned_operation_count + ledger.operations.len() - operations.len(),
            ),
            operation_history_from_height: if ledger.operation_history_from_height
                > last.height {
                ledger.operation_history_from_height
            } else {
                clamped_u64(last.height + 1)
            },
            operations,
            accounts: entries_changed(ledger.accounts, history_cut(operations.dom(), count)),
            ..ledger
        }
    }
}

/// What is reported of pruning.
pub open spec fn pruning_reported(before: LedgerModel, after: LedgerModel) -> HistoryPruneReport {
    HistoryPruneReport {
        pruned_blocks: (before.blocks.len() - after.blocks.len()) as usize,
        pruned_operations: if before.operations.len() > after.operations.len() {
            (before.operations.len() - after.operations.len()) as usize
        } else {
            0
        },
        pruned_through_height: after.pruned_through_height,
        retained_blocks: after.blocks.len() as usize,
        retained_operations: after.operations.len() as usize,
    }
}

fn keep_last(texts: &Vec<String>, count: usize) -> (r: Vec<String>)
    ensures
        r.deep_view() == last_of(texts.deep_view(), count),
{
    let ghost all = texts.deep_view();
    let total: usize = texts.len();
    let start: usize = if total > count {
        total - count
    } else {
        0
    };
    let mut out: Vec<String> = Vec::new();
    let mut i: usize = start;
    assert(out.deep_view() =~= all.subrange(start as int, start as int));
    while i < total
        invariant
            start <= i <= total,
            total == all.len(),
            all == texts.deep_view(),
            total == texts@.len(),
            out.deep_view() == all.subrange(start as int, i as int),
        decreases total - i,
    {
        let ghost before = out.deep_view();
        let text = texts[i].clone();
        out.push(text);
        assert(out.deep_view() =~= before.push(text@));
        i = i + 1;
        assert(out.deep_view() =~= all.subrange(start as int, i as int));
    }
    assert(out.deep_view() =~= last_of(all, count));
    out
}

fn cut_history(
    account: &AccountState,
    operations: &Table<String, OperationRecord>,
    count: usize,
) -> (r: AccountState)
    ensures
        r.deep_view() == history_cut(operations@.dom(), count)(Seq::empty(), account.deep_view()),
{
    let mut cut = account.replicate();
    let known = keep_known(&account.operation_ids, operations);
    cut.operation_ids = keep_last(&known, count);
    cut
}

fn cut_histories(
    accounts: &Table<String, AccountState>,
    operations: &Table<String, OperationRecord>,
    count: usize,
) -> (r: Table<String, AccountState>)
    ensures
        r@ == entries_changed(accounts@, history_cut(operations@.dom(), count)),
{
    let cut = |address: &String, account: &AccountState| -> (next: AccountState)
        ensures
            next.deep_view() == history_cut(operations@.dom(), count)(
                address.deep_view(),
                account.deep_view(),
            ),
        { cut_history(account, operations, count) };
    change_all(accounts, Ghost(history_cut(operations@.dom(), count)), cut)
}

fn keep_last_blocks(blocks: &Vec<BlockRecord>, cut: usize) -> (r: Vec<BlockRecord>)
    requires
        cut <= blocks@.len(),
    ensures
        r.deep_view() == blocks.deep_view().skip(cut as int),
{
    let ghost all = blocks.deep_view();
    let mut out: Vec<BlockRecord> = Vec::new();
    let mut i: usize = cut;
    assert(out.deep_view() =~= all.subrange(cut as int, cut as int));
    while i < blocks.len()
        invariant
            cut <= i <= all.len(),
            all == blocks.deep_view(),
            all.len() == blocks@.len(),
            out.deep_view() == all.subrange(cut as int, i as int),
        decreases all.len() - i,
    {
        let ghost before = out.deep_view();
        let block = blocks[i].replicate();
        out.push(block);
        assert(out.deep_view() =~= before.push(block.deep_view()));
        i = i + 1;
        assert(out.deep_view() =~= all.subrange(cut as int, i as int));
    }
    assert(out.deep_view() =~= all.skip(cut as int));
    out
}

proof fn fewer_entries(table: Map<Seq<char>, OperationModel>, met: spec_fn(OperationModel) -> bool)
    requires
        table.dom().finite(),
    ensures
        entries_where(table, met).len() <= table.len(),
{
    let kept = entries_where(table, met);
    assert(kept.dom().subset_of(table.dom()));
    vstd::set_lib::lemma_len_subset(kept.dom(), table.dom());
}

/// Gives up all but the last blocks, with the operations in them, and all but the last of every
/// history.
pub fn prune_history(ledger: &mut LedgerState, retained_blocks: usize, retained_operations: usize) -> (r:
    HistoryPruneReport)
    ensures
        final(ledger)@ == history_pruned(old(ledger)@, retained_blocks, retained_operations),
        r == pruning_reported(old(ledger)@, final(ledger)@),
{
    let total: usize = ledger.blocks.len();
    let known: usize = ledger.operations.len();
    if total <= retained_blocks {
        let accounts = cut_histories(&ledger.accounts, &ledger.operations, retained_operations);
        ledger.accounts = accounts;
        return HistoryPruneReport {
            pruned_blocks: 0,
            pruned_operations: 0,
            pruned_through_height: ledger.pruned_through_height,
            retained_blocks: total,
            retained_operations: known,
        };
    }
    let cut: usize = total - retained_blocks;
    let last = ledger.blocks[cut - 1].replicate();
    let height: u64 = last.height;
    let test = |operation: &OperationRecord| -> (b: bool)
        ensures
            b == after_height(height)(operation.deep_view()),
        {
            match operation.block_height {
                None => true,
                Some(at) => at > height,
            }
        };
    let operations = retain_where(&ledger.operations, Ghost(after_height(height)), test);
    let accounts = cut_histories(&ledger.accounts, &operations, retained_operations);
    let left: usize = operations.len();
    proof {
        fewer_entries(ledger.operations@, after_height(height));
    }
    let pruned: usize = known - left;
    let blocks = keep_last_blocks(&ledger.blocks, cut);
    ledger.blocks = blocks;
    ledger.pruned_through_height = height;
    ledger.pruned_tip_hash = Some(last.block_hash.clone());
    ledger.pruned_tip_timestamp = Some(last.timestamp);
    ledger.pruned_operation_count = ledger.pruned_operation_count.saturating_add(pruned as u64);
    if ledger.operation_history_from_height <= height {
        ledger.operation_history_from_height = height.saturating_add(1);
    }
    ledger.operations = operations;
    ledger.accounts = accounts;
    HistoryPruneReport {
        pruned_blocks: cut,
        pruned_operations: pruned,
        pruned_through_height: height,
        retained_blocks,
        retained_operations: left,
    }
}

/// Whether a history is longer than a number.
pub open spec fn has_long_history(ledger: LedgerModel, count: usize) -> bool {
    exists|address: Seq<char>| #[trigger]
        ledger.accounts.contains_key(address) && ledger.accounts[address].operation_ids.len()
            > count
}

/// Whether the history of a node that keeps little of it is too long.
pub open spec fn needs_pruning(
    ledger: LedgerModel,
    config: NodeConfigModel,
    retained: usize,
    count: usize,
) -> bool {
    config.storage_mode == NodeStorageMode::Lite && (ledger.blocks.len() > retained
        || has_long_history(ledger, count))
}

fn has_long_histories(ledger: &LedgerState, count: usize) -> (r: bool)
    ensures
        r == has_long_history(ledger@, count),
{
    let ghost keys = ledger.accounts.keys();
    let mut i: usize = 0;
    while i < ledger.accounts.len()
        invariant
            i <= keys.len(),
            keys == ledger.accounts.keys(),
            forall|j: int|
                0 <= j < i ==> ledger@.accounts[#[trigger] keys[j]].operation_ids.len() <= count,
        decreases keys.len() - i,
    {
        if ledger.accounts.value_at(i).operation_ids.len() > count {
            assert(ledger@.accounts.contains_key(keys[i as int]));
            return true;
        }
        i = i + 1;
    }
    proof {
        if has_long_history(ledger@, count) {
            let address = choose|address: Seq<char>| #[trigger]
                ledger@.accounts.contains_key(address)
                    && ledger@.accounts[address].operation_ids.len() > count;
            assert(keys.contains(address));
            let j = choose|j: int| 0 <= j < keys.len() && keys[j] == address;
            assert(ledger@.accounts[keys[j]].operation_ids.len() <= count);
        }
    }
    false
}

/// How long a node that keeps little of the history keeps a block.
pub const LITE_BLOCK_RETENTION_SECONDS: i64 = 604_800;

/// How many operations of an account a node that keeps little of the history keeps.
pub const LITE_RETAIN_ACCOUNT_OPERATIONS: usize = 100;

/// How many blocks are made in the time for which a node that keeps little of the history keeps
/// them, but one at least.
pub open spec fn lite_blocks(block_interval_seconds: i64) -> usize {
    if block_interval_seconds <= 0 {
        LITE_BLOCK_RETENTION_SECONDS as usize
    } else if block_interval_seconds > LITE_BLOCK_RETENTION_SECONDS {
        1
    } else {
        (LITE_BLOCK_RETENTION_SECONDS / block_interval_seconds) as usize
    }
}

/// Computes how many blocks a node that keeps little of the history keeps.
pub fn lite_retain_blocks(block_interval_seconds: i64) -> (r: usize)
    ensures
        r == lite_blocks(block_interval_seconds),
        r >= 1,
{
    if block_interval_seconds <= 0 {
        return LITE_BLOCK_RETENTION_SECONDS as usize;
    }
    if block_interval_seconds > LITE_BLOCK_RETENTION_SECONDS {
        return 1;
    }
    let count: i64 = LITE_BLOCK_RETENTION_SECONDS / block_interval_seconds;
    proof {
        vstd::arithmetic::div_mod::lemma_div_non_zero(
            LITE_BLOCK_RETENTION_SECONDS as int,
            block_interval_seconds as int,
        );
        vstd::arithmetic::div_mod::lemma_div_is_ordered_by_denominator(
            LITE_BLOCK_RETENTION_SECONDS as int,
            1,
            block_interval_seconds as int,
        );
    }
    count as usize
}

/// Prunes the history of a node that keeps little of it, if it is too long: what lies further back
/// than a node keeps blocks, and what an account has too many operations of.
pub fn prune_lite_history(ledger: &mut LedgerState, config: &LocalNodeConfig) -> (r:
    HistoryPruneReport)
    ensures
        ({
            let blocks = lite_blocks(old(ledger)@.settings.block_interval_seconds);
            final(ledger)@ == if needs_pruning(
                old(ledger)@,
                config.deep_view(),
                blocks,
                LITE_RETAIN_ACCOUNT_OPERATIONS,
            ) {
                history_pruned(old(ledger)@, blocks, LITE_RETAIN_ACCOUNT_OPERATIONS)
            } else {
                old(ledger)@
            }
        }),
        r == pruning_reported(old(ledger)@, final(ledger)@),
{
    let retained_blocks = lite_retain_blocks(ledger.settings.block_interval_seconds);
    let retained_operations: usize = LITE_RETAIN_ACCOUNT_OPERATIONS;
    if config.storage_mode != NodeStorageMode::Lite || (ledger.blocks.len() <= retained_blocks
        && !has_long_histories(ledger, retained_operations)) {
        return HistoryPruneReport {
            pruned_blocks: 0,
            pruned_operations: 0,
            pruned_through_height: ledger.pruned_through_height,
            retained_blocks: ledger.blocks.len(),
            retained_operations: ledger.operations.len(),
        };
    }
    prune_history(ledger, retained_blocks, retained_operations)
}

/// Pruning leaves the tip of the chain and the balances as they are.
pub proof fn pruning_keeps_the_tip(
    ledger: LedgerModel,
    retained: usize,
    count: usize,
    address: Seq<char>,
)
    ensures
        chain_height(history_pruned(ledger, retained, count)) == chain_height(ledger),
        chain_tip_hash(history_pruned(ledger, retained, count)) == chain_tip_hash(ledger),
        chain_tip_timestamp(history_pruned(ledger, retained, count)) == chain_tip_timestamp(ledger),
        crate::accounts::balance_of(history_pruned(ledger, retained, count), address)
            == crate::accounts::balance_of(ledger, address),
        history_pruned(ledger, retained, count).nodes == ledger.nodes,
{
}

/// Pruning keeps the last blocks, the operations that are in them or in no block yet, and the last of
/// every account's history; what it drops is older than anything that it keeps of the chain.
pub proof fn pruning_keeps_the_latest(
    ledger: LedgerModel,
    retained: usize,
    count: usize,
    operation_id: Seq<char>,
    address: Seq<char>,
)
    requires
        retained < ledger.blocks.len(),
        ledger.accounts.contains_key(address),
    ensures
        ({
            let after = history_pruned(ledger, retained, count);
            let dropped = ledger.blocks.len() - retained;
            let last = ledger.blocks[dropped - 1];
            let history = after.accounts[address].operation_ids;
            &&& after.blocks.len() == retained
            &&& forall|i: int|
                0 <= i < retained ==> #[trigger] after.blocks[i] == ledger.blocks[i + dropped]
            &&& after.pruned_through_height == last.height
            &&& after.pruned_tip_hash == Some(last.block_hash)
            &&& after.operations.contains_key(operation_id) <==> ledger.operations.contains_key(
                operation_id,
            ) && (ledger.operations[operation_id].block_height matches Some(height) ==> height
                > last.height)
            &&& after.operations.contains_key(operation_id) ==> after.operations[operation_id]
                == ledger.operations[operation_id]
            &&& history.len() <= count
            &&& forall|i: int|
                0 <= i < history.len() ==> after.operations.contains_key(#[trigger] history[i])
                    && ledger.accounts[address].operation_ids.contains(history[i])
            &&& after.accounts[address].balance == ledger.accounts[address].balance
            &&& after.accounts[address].nonce == ledger.accounts[address].nonce
        }),
{
    let after = history_pruned(ledger, retained, count);
    let known = among(after.operations.dom());
    let whole = ledger.accounts[address].operation_ids;
    crate::sequence::filtered_are_members(whole, known);
    let kept = whole.filter(known);
    let history = after.accounts[address].operation_ids;
    assert(history == last_of(kept, count));
    assert forall|i: int| 0 <= i < history.len() implies after.operations.contains_key(
        #[trigger] history[i],
    ) && whole.contains(history[i]) by {
        let shift = kept.len() - history.len();
        assert(history[i] == kept[i + shift]);
        assert(known(kept[i + shift]));
    }
}

} // verus!
