use vstd::prelude::*;
use vstd::string::*;
use vstd::utf8::*;

use crate::amount::{format_mrk, mrk_text};
use crate::blocks::{
    block_signed, block_signing_text, checkpoint_taken, find_previous_hash, hash_block, hash_of,
    previous_hash, update_finalized_checkpoint,
};
use crate::chain::{
    block_is_due, chain_block_due, chain_height, chain_next_height, chain_tip_hash,
    chain_tip_timestamp, finalized_state, height, next_height, tip_hash, tip_timestamp,
};
use crate::committee::{
    committee_ready, committee_refreshed, multi_validator_ready, refresh_validator_committee,
};
use crate::crypto::{signature_checked, verify_bytes};
use crate::epochs::{epoch_closed, epoch_context};
use crate::error::{outcome, Error, Outcome, Result};
use crate::execution::{block_prepared, prepare_block_operations};
use crate::governance::{
    ensure_genesis_authority, genesis_fixed, genesis_of, known_genesis_authority,
};
use crate::model::{
    AvailabilityMode, BlockConsensusMode, BlockModel, BlockRecord, ConsensusVote, GenesisModel,
    KeyIdentity, KeyModel, LedgerModel, LedgerState, LocalNodeConfig, NodeConfigModel,
    OperationModel, OperationRecord, VoteModel,
};
use crate::node_drafts::{local_node_id, registered_id};
use crate::nodes::{eligible_ids, governance_eligible_node_ids};
use crate::number::least;
use crate::operations::{idle_voting_reset, reset_multi_validator_consensus_if_node1_mode};
use crate::payments::shown_first;
use crate::protocol::{
    MAX_BLOCK_OPERATIONS, MIN_ACTIVE_VALIDATORS, MIN_DECENTRALIZED_AVAILABILITY_VALIDATORS,
    MULTI_VALIDATOR_NODE_THRESHOLD, PROTOCOL_VERSION,
};
use crate::search::{count_where, values_where};
use crate::sequence::{first_where, first_where_ends, first_where_step};
use crate::table::{Replicate, Table};
use crate::text::{decimal, join3, join5, text_same, u128_text, u64_text, usize_text};
use crate::views::{
    BlockListView, BlockListViewModel, BlockOperationListView, BlockOperationListViewModel,
    BlockStatusView, BlockStatusViewModel, BlockSummaryView, BlockSummaryViewModel,
};

verus! {

/// How many bytes a unit holds.
pub open spec fn unit_scale(unit: nat) -> nat
    decreases unit,
{
    if unit == 0 {
        1
    } else {
        1_024 * unit_scale((unit - 1) as nat)
    }
}

/// The largest unit, from a unit on, of which some bytes are at least one.
pub open spec fn byte_unit(bytes: nat, unit: nat) -> nat
    decreases 8 - unit,
{
    if unit < 8 && bytes >= unit_scale(unit + 1) {
        byte_unit(bytes, unit + 1)
    } else {
        unit
    }
}

/// The name of a unit.
pub open spec fn unit_text(unit: nat) -> Seq<char> {
    if unit == 0 {
        "B"@
    } else if unit == 1 {
        "KiB"@
    } else if unit == 2 {
        "MiB"@
    } else if unit == 3 {
        "GiB"@
    } else if unit == 4 {
        "TiB"@
    } else if unit == 5 {
        "PiB"@
    } else if unit == 6 {
        "EiB"@
    } else if unit == 7 {
        "ZiB"@
    } else {
        "YiB"@
    }
}

fn unit_name(unit: usize) -> (r: &'static str)
    ensures
        r@ == unit_text(unit as nat),
{
    if unit == 0 {
        "B"
    } else if unit == 1 {
        "KiB"
    } else if unit == 2 {
        "MiB"
    } else if unit == 3 {
        "GiB"
    } else if unit == 4 {
        "TiB"
    } else if unit == 5 {
        "PiB"
    } else if unit == 6 {
        "EiB"
    } else if unit == 7 {
        "ZiB"
    } else {
        "YiB"
    }
}

/// Some hundredths after the point, without a zero at the end.
pub open spec fn hundredths_text(hundredths: nat) -> Seq<char> {
    if hundredths == 0 {
        Seq::empty()
    } else if hundredths % 10 == 0 {
        "."@ + decimal(hundredths / 10)
    } else if hundredths < 10 {
        ".0"@ + decimal(hundredths)
    } else {
        "."@ + decimal(hundredths)
    }
}

/// An amount of bytes as it is written: in the largest unit, to two digits after the point, rounded
/// down.
pub open spec fn bytes_text(bytes: nat) -> Seq<char> {
    let unit = byte_unit(bytes, 0);
    let scale = unit_scale(unit);
    decimal(bytes / scale) + hundredths_text((bytes % scale) * 100 / scale) + " "@ + unit_text(unit)
}

proof fn scale_bound(unit: nat)
    requires
        unit <= 8,
    ensures
        1 <= unit_scale(unit) <= 0x1_0000_0000_0000_0000_0000,
{
    reveal_with_fuel(unit_scale, 9);
}

/// Writes an amount of bytes.
pub fn format_bytes(bytes: u128) -> (r: String)
    ensures
        r@ == bytes_text(bytes as nat),
{
    let mut unit: usize = 0;
    let mut scale: u128 = 1;
    proof {
        reveal_with_fuel(unit_scale, 3);
    }
    while unit < 8 && bytes >= scale * 1_024
        invariant
            unit <= 8,
            scale == unit_scale(unit as nat),
            1 <= scale,
            unit < 8 ==> scale * 1_024 == unit_scale((unit + 1) as nat) && scale * 1_024
                <= 0x1_0000_0000_0000_0000_0000,
            scale <= 0x1_0000_0000_0000_0000_0000,
            byte_unit(bytes as nat, 0) == byte_unit(bytes as nat, unit as nat),
        decreases 8 - unit,
    {
        unit = unit + 1;
        scale = scale * 1_024;
        proof {
            if unit < 8 {
                scale_bound((unit + 1) as nat);
            }
        }
    }
    let hundredths: u128 = (bytes % scale) * 100 / scale;
    let mut text = u128_text(bytes / scale);
    let ghost whole = text@;
    proof {
        if unit == 0 {
            assert(bytes % 1 == 0);
        }
    }
    if hundredths > 0 {
        if hundredths % 10 == 0 {
            text.append(".");
            text.append(u128_text(hundredths / 10).as_str());
        } else {
            if hundredths < 10 {
                text.append(".0");
            } else {
                text.append(".");
            }
            text.append(u128_text(hundredths).as_str());
        }
    }
    assert(text@ =~= whole + hundredths_text(hundredths as nat));
    text.append(" ");
    text.append(unit_name(unit));
    text
}

/// What has been burned and how much traffic has been paid for, as far as it is final.
pub open spec fn final_totals(ledger: LedgerModel) -> (u128, u128) {
    match ledger.finalized_checkpoint {
        None => (0, 0),
        Some(checkpoint) => (checkpoint.burned, checkpoint.total_settled_traffic_bytes),
    }
}

/// Tells what has been burned and how much traffic has been paid for, as far as it is final.
pub fn finalized_network_totals(ledger: &LedgerState) -> (r: (u128, u128))
    ensures
        r == final_totals(ledger@),
{
    match finalized_state(ledger) {
        None => (0, 0),
        Some(checkpoint) => (checkpoint.burned, checkpoint.total_settled_traffic_bytes),
    }
}

/// Which operations are in no block.
pub open spec fn in_no_block() -> spec_fn(OperationModel) -> bool {
    |operation: OperationModel| operation.block_height is None
}

/// How many operations are pending. Before the first block all are that are in no block.
pub open spec fn pending_count(ledger: LedgerModel) -> nat {
    if ledger.blocks.len() == 0 && ledger.pending_operation_ids.len() == 0 {
        values_where::<String, OperationModel>(ledger.operations, in_no_block()).len()
    } else {
        ledger.pending_operation_ids.len()
    }
}

fn count_pending(ledger: &LedgerState) -> (r: usize)
    ensures
        r == pending_count(ledger@),
{
    if ledger.blocks.len() == 0 && ledger.pending_operation_ids.len() == 0 {
        let test = |operation: &OperationRecord| -> (b: bool)
            ensures
                b == in_no_block()(operation.deep_view()),
            { operation.block_height.is_none() };
        count_where(&ledger.operations, Ghost(in_no_block()), test)
    } else {
        ledger.pending_operation_ids.len()
    }
}

/// The state of the chain as it is shown.
pub open spec fn status_shown(ledger: LedgerModel, now: i64) -> Outcome<BlockStatusViewModel> {
    let totals = final_totals(ledger);
    let genesis = genesis_of(ledger);
    if !ledger.epoch_contexts.contains_key(ledger.epoch_number) {
        Err(epoch_closed(ledger.epoch_number))
    } else {
        let context = ledger.epoch_contexts[ledger.epoch_number];
        let enabled = genesis is Some && !committee_ready(ledger, now);
        Ok(
            BlockStatusViewModel {
                mode: if enabled {
                    "NODE1_SINGLE_PRODUCER"@
                } else if genesis is None {
                    "WAITING_FOR_GENESIS_NODE1"@
                } else {
                    "MULTI_VALIDATOR"@
                },
                height: chain_height(ledger),
                burned_base_units: decimal(totals.0 as nat),
                burned_display: mrk_text(totals.0 as nat),
                total_settled_traffic_bytes: decimal(totals.1 as nat),
                total_settled_traffic_display: bytes_text(totals.1 as nat),
                last_block_hash: chain_tip_hash(ledger),
                last_block_at: chain_tip_timestamp(ledger),
                pending_operation_count: pending_count(ledger) as usize,
                producer_node_id: match genesis {
                    Some(authority) => Some(authority.node_id),
                    None => None,
                },
                node1_production_enabled: enabled,
                governance_eligible_count: eligible_ids(ledger, now).len() as usize,
                threshold: MULTI_VALIDATOR_NODE_THRESHOLD,
                active_validator_count: ledger.consensus.active_validators.len() as usize,
                minimum_active_validators: MIN_ACTIVE_VALIDATORS,
                availability_mode: context.availability_mode,
                availability_earning_enabled: context.availability_mode
                    == AvailabilityMode::Node1Trusted || context.validator_ids.len()
                    >= MIN_DECENTRALIZED_AVAILABILITY_VALIDATORS,
                minimum_decentralized_availability_validators:
                    MIN_DECENTRALIZED_AVAILABILITY_VALIDATORS,
                pruned_through_height: ledger.pruned_through_height,
                retained_block_count: ledger.blocks.len() as usize,
                retained_operation_count: ledger.operations.len() as usize,
            },
        )
    }
}

/// Shows the state of the chain.
pub fn block_status(ledger: &LedgerState, now: i64) -> (r: Result<BlockStatusView>)
    ensures
        outcome(r) == status_shown(ledger@, now),
{
    let (burned, settled) = finalized_network_totals(ledger);
    let genesis = known_genesis_authority(ledger);
    let eligible: usize = governance_eligible_node_ids(ledger, now).len();
    let context = epoch_context(ledger, ledger.epoch_number)?;
    let enabled = genesis.is_some() && !multi_validator_ready(ledger, now);
    let pending_operation_count = count_pending(ledger);
    let mode: String = if enabled {
        "NODE1_SINGLE_PRODUCER".to_owned()
    } else if genesis.is_none() {
        "WAITING_FOR_GENESIS_NODE1".to_owned()
    } else {
        "MULTI_VALIDATOR".to_owned()
    };
    Ok(
        BlockStatusView {
            mode,
            height: height(ledger),
            burned_base_units: u128_text(burned),
            burned_display: format_mrk(burned),
            total_settled_traffic_bytes: u128_text(settled),
            total_settled_traffic_display: format_bytes(settled),
            last_block_hash: tip_hash(ledger),
            last_block_at: tip_timestamp(ledger),
            pending_operation_count,
            producer_node_id: match &genesis {
                Some(authority) => Some(authority.node_id),
                None => None,
            },
            node1_production_enabled: enabled,
            governance_eligible_count: eligible,
            threshold: MULTI_VALIDATOR_NODE_THRESHOLD,
            active_validator_count: ledger.consensus.active_validators.len(),
            minimum_active_validators: MIN_ACTIVE_VALIDATORS,
            availability_mode: context.availability_mode,
            availability_earning_enabled: context.availability_mode
                == AvailabilityMode::Node1Trusted || context.validator_ids.len()
                >= MIN_DECENTRALIZED_AVAILABILITY_VALIDATORS,
            minimum_decentralized_availability_validators:
                MIN_DECENTRALIZED_AVAILABILITY_VALIDATORS,
            pruned_through_height: ledger.pruned_through_height,
            retained_block_count: ledger.blocks.len(),
            retained_operation_count: ledger.operations.len(),
        },
    )
}

/// A block as it is listed.
pub open spec fn block_summary(block: BlockModel) -> BlockSummaryViewModel {
    BlockSummaryViewModel {
        height: block.height,
        block_hash: block.block_hash,
        timestamp: block.timestamp,
        producer_node_id: block.producer_node_id,
        operation_count: block.operation_ids.len() as usize,
        consensus_mode: block.consensus_mode,
    }
}

/// The length of a page: at least one, at most a hundred.
pub open spec fn page_length(limit: usize) -> usize {
    if limit < 1 {
        1
    } else if limit > 100 {
        100
    } else {
        limit
    }
}

/// Reads the length of a page.
pub fn clamp_page(limit: usize) -> (r: usize)
    ensures
        r == page_length(limit),
{
    if limit < 1 {
        1
    } else if limit > 100 {
        100
    } else {
        limit
    }
}

/// The refusal of a block that is not held.
pub open spec fn block_missing(ledger: LedgerModel, height: u64) -> Seq<char> {
    if 1 <= height <= ledger.pruned_through_height {
        "block "@ + decimal(height as nat) + " was pruned"@
    } else {
        "block "@ + decimal(height as nat) + " not found"@
    }
}

/// Finds the block of a height.
pub fn block_by_height(ledger: &LedgerState, height: u64) -> (r: Result<BlockRecord>)
    ensures
        match first_where(ledger@.blocks, |block: BlockModel| block.height == height) {
            Some(block) => r matches Ok(found) && found.deep_view() == block,
            None => r matches Err(error) && error@ == block_missing(ledger@, height),
        },
{
    let ghost all = ledger@.blocks;
    let ghost met = |block: BlockModel| block.height == height;
    let mut i: usize = 0;
    proof {
        first_where_ends(all, met);
    }
    while i < ledger.blocks.len()
        invariant
            i <= all.len(),
            all == ledger@.blocks,
            all == ledger.blocks.deep_view(),
            met == (|block: BlockModel| block.height == height),
            first_where(all, met) == first_where(all.skip(i as int), met),
        decreases all.len() - i,
    {
        proof {
            first_where_step(all, i as int, met);
        }
        if ledger.blocks[i].height == height {
            return Ok(ledger.blocks[i].replicate());
        }
        i = i + 1;
    }
    let ending = if 1 <= height && height <= ledger.pruned_through_height {
        " was pruned"
    } else {
        " not found"
    };
    Err(Error::owned(join3("block ", u64_text(height).as_str(), ending)))
}

/// Whether a block stands below a height, where one is given.
pub open spec fn stands_below(before: Option<u64>) -> spec_fn(BlockModel) -> bool {
    |block: BlockModel| before is None || block.height < before->0
}

/// A page of the blocks below a height, from the latest on, and the height from which to go on.
pub open spec fn blocks_shown(
    blocks: Seq<BlockModel>,
    before: Option<u64>,
    limit: usize,
) -> BlockListViewModel {
    let found = blocks.filter(stands_below(before)).reverse();
    let page = shown_first(found, page_length(limit) as int);
    BlockListViewModel {
        blocks: page.map_values(|block: BlockModel| block_summary(block)),
        next_cursor: if page.len() < found.len() {
            Some(page.last().height)
        } else {
            None
        },
    }
}

/// Lists the blocks below a height, from the latest on, a page at a time.
pub fn blocks(ledger: &LedgerState, before_height: Option<u64>, limit: usize) -> (r: BlockListView)
    ensures
        r.deep_view() == blocks_shown(ledger@.blocks, before_height, limit),
{
    let length: usize = clamp_page(limit);
    let ghost all = ledger@.blocks;
    let ghost below = stands_below(before_height);
    let ghost summary = |block: BlockModel| block_summary(block);
    let mut out: Vec<BlockSummaryView> = Vec::new();
    let mut next_cursor: Option<u64> = None;
    let mut last: u64 = 0;
    let mut i: usize = ledger.blocks.len();
    assert(all.skip(all.len() as int) =~= Seq::<BlockModel>::empty());
    assert(all.skip(all.len() as int).filter(below) =~= Seq::<BlockModel>::empty()) by {
        reveal(Seq::filter);
    }
    while i > 0
        invariant
            i <= all.len(),
            all == ledger@.blocks,
            all == ledger.blocks.deep_view(),
            all.len() == ledger.blocks@.len(),
            below == stands_below(before_height),
            summary == (|block: BlockModel| block_summary(block)),
            1 <= length,
            ({
                let found = all.skip(i as int).filter(below).reverse();
                let page = shown_first(found, length as int);
                &&& out.deep_view() == page.map_values(summary)
                &&& out@.len() == page.len()
                &&& page.len() > 0 ==> last == page.last().height
                &&& next_cursor == if page.len() < found.len() {
                    Some(page.last().height)
                } else {
                    None
                }
            }),
        decreases i,
    {
        let ghost rest = all.skip(i as int);
        let ghost found = rest.filter(below).reverse();
        i = i - 1;
        let block = &ledger.blocks[i];
        let ghost here = all[i as int];
        let ghost before = out.deep_view();
        proof {
            assert(all.skip(i as int) =~= seq![here] + rest);
            Seq::filter_distributes_over_add(seq![here], rest, below);
            reveal(Seq::filter);
            assert(seq![here].drop_last() =~= Seq::<BlockModel>::empty());
            assert(Seq::<BlockModel>::empty().filter(below) =~= Seq::<BlockModel>::empty());
            let now = all.skip(i as int).filter(below).reverse();
            if below(here) {
                assert(seq![here].filter(below) =~= seq![here]);
                assert(now =~= found.push(here));
            } else {
                assert(seq![here].filter(below) =~= Seq::<BlockModel>::empty());
                assert(now =~= found);
            }
        }
        let shown: bool = match before_height {
            None => true,
            Some(height) => block.height < height,
        };
        if shown {
            if out.len() < length {
                let item = BlockSummaryView {
                    height: block.height,
                    block_hash: block.block_hash.clone(),
                    timestamp: block.timestamp,
                    producer_node_id: block.producer_node_id,
                    operation_count: block.operation_ids.len(),
                    consensus_mode: block.consensus_mode,
                };
                assert(item.deep_view() == block_summary(here));
                out.push(item);
                last = block.height;
                assert(out.deep_view() =~= before.push(block_summary(here)));
                assert(found.push(here).map_values(summary) =~= found.map_values(summary).push(
                    block_summary(here),
                ));
            } else {
                next_cursor = Some(last);
                assert(found.push(here).take(length as int) =~= found.take(length as int));
                assert(found.take(found.len() as int) =~= found);
            }
        }
    }
    assert(all.skip(0) =~= all);
    BlockListView { blocks: out, next_cursor }
}

/// The page of a block's operations from a place on.
pub open spec fn operations_page(ids: Seq<Seq<char>>, cursor: usize, limit: usize) -> Seq<Seq<char>> {
    let end = least(cursor + page_length(limit), ids.len() as int);
    if cursor <= end {
        ids.subrange(cursor as int, end)
    } else {
        Seq::empty()
    }
}

/// Lists the page of a block's operations from a place on.
pub fn block_operation_ids(block: &BlockRecord, cursor: usize, limit: usize) -> (r: Vec<String>)
    ensures
        r.deep_view() == operations_page(block.deep_view().operation_ids, cursor, limit),
{
    let ghost ids = block.operation_ids.deep_view();
    let total: usize = block.operation_ids.len();
    let reach: usize = cursor.saturating_add(clamp_page(limit));
    let end: usize = if reach < total {
        reach
    } else {
        total
    };
    let mut out: Vec<String> = Vec::new();
    if cursor > end {
        assert(out.deep_view() =~= Seq::<Seq<char>>::empty());
        return out;
    }
    let mut i: usize = cursor;
    assert(out.deep_view() =~= ids.subrange(cursor as int, cursor as int));
    while i < end
        invariant
            cursor <= i <= end <= ids.len(),
            ids == block.operation_ids.deep_view(),
            ids.len() == block.operation_ids@.len(),
            out.deep_view() == ids.subrange(cursor as int, i as int),
        decreases end - i,
    {
        let ghost before = out.deep_view();
        let id = block.operation_ids[i].clone();
        out.push(id);
        assert(out.deep_view() =~= before.push(id@));
        i = i + 1;
        assert(out.deep_view() =~= ids.subrange(cursor as int, i as int));
    }
    out
}

/// The records of some operations, or the refusal that names the first one that is missing.
pub open spec fn operations_found(
    operations: Map<Seq<char>, OperationModel>,
    ids: Seq<Seq<char>>,
    found: Seq<OperationModel>,
) -> Outcome<Seq<OperationModel>>
    decreases ids.len(),
{
    if ids.len() == 0 {
        Ok(found)
    } else if !operations.contains_key(ids[0]) {
        Err("operation "@ + ids[0] + " not found"@)
    } else {
        operations_found(operations, ids.drop_first(), found.push(operations[ids[0]]))
    }
}

fn find_operations(
    operations: &Table<String, OperationRecord>,
    ids: &Vec<String>,
) -> (r: Result<Vec<OperationRecord>>)
    ensures
        match operations_found(operations@, ids.deep_view(), Seq::empty()) {
            Ok(found) => r matches Ok(list) && list.deep_view() == found,
            Err(refusal) => r matches Err(error) && error@ == refusal,
        },
{
    let ghost all = ids.deep_view();
    let mut out: Vec<OperationRecord> = Vec::new();
    let mut i: usize = 0;
    assert(all.skip(0) =~= all);
    assert(out.deep_view() =~= Seq::<OperationModel>::empty());
    while i < ids.len()
        invariant
            i <= all.len(),
            all == ids.deep_view(),
            all.len() == ids@.len(),
            operations_found(operations@, all, Seq::empty()) == operations_found(
                operations@,
                all.skip(i as int),
                out.deep_view(),
            ),
        decreases all.len() - i,
    {
        assert(all.skip(i as int)[0] == ids@[i as int]@);
        assert(all.skip(i as int).drop_first() =~= all.skip(i + 1));
        match operations.get(&ids[i]) {
            None => {
                return Err(Error::owned(join3("operation ", ids[i].as_str(), " not found")));
            },
            Some(operation) => {
                let ghost before = out.deep_view();
                let record = operation.replicate();
                out.push(record);
                assert(out.deep_view() =~= before.push(record.deep_view()));
            },
        }
        i = i + 1;
    }
    Ok(out)
}

/// A page of the operations of a block, and where the next page begins.
pub open spec fn block_operations_shown(
    ledger: LedgerModel,
    height: u64,
    cursor: usize,
    limit: usize,
) -> Outcome<BlockOperationListViewModel> {
    match first_where(ledger.blocks, |block: BlockModel| block.height == height) {
        None => Err(block_missing(ledger, height)),
        Some(block) => match operations_found(
            ledger.operations,
            operations_page(block.operation_ids, cursor, limit),
            Seq::empty(),
        ) {
            Err(refusal) => Err(refusal),
            Ok(operations) => Ok(
                BlockOperationListViewModel {
                    operations,
                    next_cursor: if cursor + operations.len() < block.operation_ids.len() {
                        Some((cursor + operations.len()) as u64)
                    } else {
                        None
                    },
                },
            ),
        },
    }
}

/// Lists the operations of a block, a page at a time.
pub fn block_operations(
    ledger: &LedgerState,
    height: u64,
    cursor: usize,
    limit: usize,
) -> (r: Result<BlockOperationListView>)
    ensures
        outcome(r) == block_operations_shown(ledger@, height, cursor, limit),
{
    let block = block_by_height(ledger, height)?;
    let ids = block_operation_ids(&block, cursor, limit);
    let operations = find_operations(&ledger.operations, &ids)?;
    let next: usize = cursor.saturating_add(operations.len());
    let next_cursor: Option<u64> = if next < block.operation_ids.len() {
        Some(next as u64)
    } else {
        None
    };
    Ok(BlockOperationListView { operations, next_cursor })
}

/// Whether the first node may make a block.
pub open spec fn may_produce(
    ledger: LedgerModel,
    config: NodeConfigModel,
    owner: KeyModel,
    allow_empty: bool,
    now: i64,
) -> Outcome<(LedgerModel, GenesisModel)> {
    match registered_id(config) {
        Err(refusal) => Err(refusal),
        Ok(node_id) => match genesis_fixed(ledger) {
            Err(refusal) => Err(refusal),
            Ok(fixed) => {
                let genesis = fixed.1;
                let reset = idle_voting_reset(fixed.0, now);
                let eligible = eligible_ids(fixed.0, now).len();
                let active = ledger.consensus.active_validators.len();
                if node_id != genesis.node_id || config.owner_address != genesis.owner_address
                    || owner.address != genesis.owner_address || owner.public_key
                    != genesis.owner_public_key {
                    Err("only the immutable Genesis Node 1 Owner key may produce bootstrap blocks"@)
                } else if eligible >= MULTI_VALIDATOR_NODE_THRESHOLD && active
                    >= MIN_ACTIVE_VALIDATORS {
                    Err(
                        "Node 1 block production is disabled at "@ + decimal(eligible)
                            + " Governance-Eligible Nodes and "@ + decimal(active)
                            + " Active Validators; multi-Validator consensus is required"@,
                    )
                } else if reset.pending_operation_ids.len() == 0 && !allow_empty {
                    Err("there are no pending operations to include"@)
                } else if reset.pending_operation_ids.len() > MAX_BLOCK_OPERATIONS {
                    Err(
                        "pending operation count exceeds the "@ + decimal(
                            MAX_BLOCK_OPERATIONS as nat,
                        )
                            + " operation block limit; an explicit legacy snapshot migration is required"@,
                    )
                } else if chain_tip_timestamp(reset) matches Some(timestamp) && now < timestamp {
                    Err("block timestamp cannot move backwards"@)
                } else {
                    Ok((reset, genesis))
                }
            },
        },
    }
}

fn check_producer(
    ledger: &mut LedgerState,
    config: &LocalNodeConfig,
    owner: &KeyIdentity,
    allow_empty: bool,
    now: i64,
) -> (r: Result<()>)
    ensures
        match may_produce(
            old(ledger)@,
            config.deep_view(),
            owner.deep_view(),
            allow_empty,
            now,
        ) {
            Ok(next) => r is Ok && final(ledger)@ == next.0,
            Err(refusal) => r matches Err(error) && error@ == refusal,
        },
{
    let node_id = local_node_id(config)?;
    let genesis = ensure_genesis_authority(ledger)?;
    if node_id != genesis.node_id || !text_same(
        config.owner_address.as_str(),
        genesis.owner_address.as_str(),
    ) || !text_same(owner.address.as_str(), genesis.owner_address.as_str()) || !text_same(
        owner.public_key.as_str(),
        genesis.owner_public_key.as_str(),
    ) {
        return Err(
            Error::msg("only the immutable Genesis Node 1 Owner key may produce bootstrap blocks"),
        );
    }
    let eligible: usize = governance_eligible_node_ids(ledger, now).len();
    let active: usize = ledger.consensus.active_validators.len();
    if eligible >= MULTI_VALIDATOR_NODE_THRESHOLD && active >= MIN_ACTIVE_VALIDATORS {
        return Err(
            Error::owned(
                join5(
                    "Node 1 block production is disabled at ",
                    usize_text(eligible).as_str(),
                    " Governance-Eligible Nodes and ",
                    usize_text(active).as_str(),
                    " Active Validators; multi-Validator consensus is required",
                ),
            ),
        );
    }
    reset_multi_validator_consensus_if_node1_mode(ledger, now);
    if ledger.pending_operation_ids.len() == 0 && !allow_empty {
        return Err(Error::msg("there are no pending operations to include"));
    }
    if ledger.pending_operation_ids.len() > MAX_BLOCK_OPERATIONS {
        return Err(
            Error::owned(
                join3(
                    "pending operation count exceeds the ",
                    usize_text(MAX_BLOCK_OPERATIONS).as_str(),
                    " operation block limit; an explicit legacy snapshot migration is required",
                ),
            ),
        );
    }
    if let Some(timestamp) = tip_timestamp(ledger) {
        if now < timestamp {
            return Err(Error::msg("block timestamp cannot move backwards"));
        }
    }
    Ok(())
}

/// The state after the next block of the first node, and the operations in it.
pub open spec fn node1_state(
    ledger: LedgerModel,
    config: NodeConfigModel,
    owner: KeyModel,
    allow_empty: bool,
    now: i64,
) -> Outcome<(LedgerModel, Seq<Seq<char>>)> {
    match may_produce(ledger, config, owner, allow_empty, now) {
        Err(refusal) => Err(refusal),
        Ok(found) => match block_prepared(
            found.0,
            found.0.pending_operation_ids,
            chain_next_height(found.0),
            now,
            true,
        ) {
            Err(refusal) => Err(refusal),
            Ok(prepared) => Ok(
                (committee_refreshed(idle_voting_reset(prepared.0, now), now), prepared.1),
            ),
        },
    }
}

/// Executes the next block of the first node.
pub fn prepare_node1_state(
    ledger: &LedgerState,
    config: &LocalNodeConfig,
    owner: &KeyIdentity,
    allow_empty: bool,
    now: i64,
) -> (r: Result<(LedgerState, Vec<String>)>)
    ensures
        match node1_state(ledger@, config.deep_view(), owner.deep_view(), allow_empty, now) {
            Ok(next) => r matches Ok(done) && done.0@ == next.0 && done.1.deep_view() == next.1,
            Err(refusal) => r matches Err(error) && error@ == refusal,
        },
{
    let mut base = ledger.copy();
    check_producer(&mut base, config, owner, allow_empty, now)?;
    let at = next_height(&base);
    let (mut state, operation_ids) = prepare_block_operations(
        &base,
        &base.pending_operation_ids,
        at,
        now,
        true,
    )?;
    reset_multi_validator_consensus_if_node1_mode(&mut state, now);
    refresh_validator_committee(&mut state, now)?;
    Ok((state, operation_ids))
}

/// A block of the first node, with its hash and signature.
pub open spec fn node1_block(
    ledger: LedgerModel,
    owner: Seq<char>,
    ids: Seq<Seq<char>>,
    root: Seq<char>,
    signature: Seq<char>,
    now: i64,
) -> BlockModel {
    let bare = BlockModel {
        version: PROTOCOL_VERSION,
        ledger_id: ledger.ledger_id,
        height: chain_next_height(ledger),
        previous_block_hash: previous_hash(ledger),
        timestamp: now,
        producer_node_id: 1,
        producer_owner_address: owner,
        operation_ids: ids,
        state_root: root,
        block_hash: ""@,
        producer_signature: signature,
        consensus_mode: BlockConsensusMode::Node1,
        consensus_round: 0,
        validator_set_hash: ""@,
        commit_signatures: Seq::empty(),
        validator_epoch: 0,
        validator_node_ids: Seq::empty(),
    };
    BlockModel { block_hash: hash_of(block_signed(bare)), ..bare }
}

/// Makes a block of the first node, with its signature over `block_signing_text` of it.
pub fn make_node1_block(
    ledger: &LedgerState,
    owner: &KeyIdentity,
    operation_ids: Vec<String>,
    state_root: &str,
    signature: &str,
    now: i64,
) -> (r: BlockRecord)
    ensures
        r.deep_view() == node1_block(
            ledger@,
            owner.deep_view().address,
            operation_ids.deep_view(),
            state_root@,
            signature@,
            now,
        ),
{
    let commit_signatures: Vec<ConsensusVote> = Vec::new();
    let validator_node_ids: Vec<u64> = Vec::new();
    assert(commit_signatures.deep_view() =~= Seq::<VoteModel>::empty());
    assert(validator_node_ids@ =~= Seq::<u64>::empty());
    let mut block = BlockRecord {
        version: PROTOCOL_VERSION,
        ledger_id: ledger.ledger_id.clone(),
        height: next_height(ledger),
        previous_block_hash: find_previous_hash(ledger),
        timestamp: now,
        producer_node_id: 1,
        producer_owner_address: owner.address.clone(),
        operation_ids,
        state_root: state_root.to_owned(),
        block_hash: "".to_owned(),
        producer_signature: signature.to_owned(),
        consensus_mode: BlockConsensusMode::Node1,
        consensus_round: 0,
        validator_set_hash: "".to_owned(),
        commit_signatures,
        validator_epoch: 0,
        validator_node_ids,
    };
    let signed = block_signing_text(&block);
    block.block_hash = hash_block(signed.as_str());
    block
}

/// The ledger after the first node has made a block, and the block.
pub open spec fn node1_block_made(
    ledger: LedgerModel,
    config: NodeConfigModel,
    owner: KeyModel,
    allow_empty: bool,
    root: Seq<char>,
    signature: Seq<char>,
    now: i64,
) -> Outcome<(LedgerModel, BlockModel)> {
    match node1_state(ledger, config, owner, allow_empty, now) {
        Err(refusal) => Err(refusal),
        Ok(found) => {
            let block = node1_block(ledger, owner.address, found.1, root, signature, now);
            match signature_checked(
                owner.public_key,
                encode_utf8(block_signed(block)),
                block.producer_signature,
            ) {
                Err(refusal) => Err(refusal),
                Ok(_) => Ok(
                    (
                        checkpoint_taken(
                            LedgerModel { blocks: found.0.blocks.push(block), ..found.0 },
                        ),
                        block,
                    ),
                ),
            }
        },
    }
}

/// Makes a block of the first node. `root` is the root of the state after it
/// (`prepare_node1_state`), and the signature is over `block_signing_text` of the block. A refused
/// block leaves the ledger as it was.
pub fn produce_node1_block(
    ledger: &mut LedgerState,
    config: &LocalNodeConfig,
    owner: &KeyIdentity,
    allow_empty: bool,
    root: &str,
    signature: &str,
    now: i64,
) -> (r: Result<BlockRecord>)
    ensures
        match node1_block_made(
            old(ledger)@,
            config.deep_view(),
            owner.deep_view(),
            allow_empty,
            root@,
            signature@,
            now,
        ) {
            Ok(next) => final(ledger)@ == next.0 && (r matches Ok(block) && block.deep_view()
                == next.1),
            Err(refusal) => final(ledger)@ == old(ledger)@ && (r matches Err(error) && error@
                == refusal),
        },
{
    let (mut state, operation_ids) = prepare_node1_state(ledger, config, owner, allow_empty, now)?;
    let block = make_node1_block(ledger, owner, operation_ids, root, signature, now);
    verify_bytes(
        owner.public_key.as_str(),
        block_signing_text(&block).as_str().as_bytes(),
        block.producer_signature.as_str(),
    )?;
    let ghost before = state.blocks.deep_view();
    state.blocks.push(block.replicate());
    assert(state.blocks.deep_view() =~= before.push(block.deep_view()));
    update_finalized_checkpoint(&mut state);
    *ledger = state;
    Ok(block)
}

/// Whether the first node is to make a block now.
pub open spec fn node1_due(ledger: LedgerModel, config: NodeConfigModel, now: i64) -> bool {
    &&& config.node_id == Some(1u64)
    &&& ledger.genesis_authority is Some || ledger.nodes.contains_key(1)
    &&& !committee_ready(ledger, now)
    &&& chain_block_due(ledger, now)
}

/// Tells whether the first node is to make a block now.
pub fn node1_block_is_due(ledger: &LedgerState, config: &LocalNodeConfig, now: i64) -> (r: bool)
    ensures
        r == node1_due(ledger@, config.deep_view(), now),
{
    let is_first = match config.node_id {
        Some(node_id) => node_id == 1,
        None => false,
    };
    is_first && (ledger.genesis_authority.is_some() || ledger.nodes.contains_key(&1))
        && !multi_validator_ready(ledger, now) && block_is_due(ledger, now)
}

/// Makes a block of the first node, empty or not, if it is due.
pub fn produce_node1_block_if_due(
    ledger: &mut LedgerState,
    config: &LocalNodeConfig,
    owner: &KeyIdentity,
    root: &str,
    signature: &str,
    now: i64,
) -> (r: Result<Option<BlockRecord>>)
    ensures
        if !node1_due(old(ledger)@, config.deep_view(), now) {
            final(ledger)@ == old(ledger)@ && (r matches Ok(block) && block is None)
        } else {
            match node1_block_made(
                old(ledger)@,
                config.deep_view(),
                owner.deep_view(),
                true,
                root@,
                signature@,
                now,
            ) {
                Ok(next) => final(ledger)@ == next.0 && (r matches Ok(Some(block))
                    && block.deep_view() == next.1),
                Err(refusal) => final(ledger)@ == old(ledger)@ && (r matches Err(error) && error@
                    == refusal),
            }
        },
{
    if !node1_block_is_due(ledger, config, now) {
        return Ok(None);
    }
    let block = produce_node1_block(ledger, config, owner, true, root, signature, now)?;
    Ok(Some(block))
}

/// Whether each block is higher than the ones before it.
pub open spec fn heights_ascend(blocks: Seq<BlockModel>) -> bool {
    forall|i: int, j: int|
        0 <= i < j < blocks.len() ==> (#[trigger] blocks[i]).height < (#[trigger] blocks[j]).height
}

/// All blocks, from the latest on, as they are shown.
pub open spec fn all_summaries(blocks: Seq<BlockModel>) -> Seq<BlockSummaryViewModel> {
    blocks.reverse().map_values(|block: BlockModel| block_summary(block))
}

/// The blocks on some pages, one page after the other.
pub open spec fn listed_summaries(pages: Seq<BlockListViewModel>) -> Seq<BlockSummaryViewModel>
    decreases pages.len(),
{
    if pages.len() == 0 {
        Seq::empty()
    } else {
        listed_summaries(pages.drop_last()) + pages.last().blocks
    }
}

/// The height from which a page is asked for: none for the first, and for each other page the one
/// that the page before it has given.
pub open spec fn page_start(pages: Seq<BlockListViewModel>, i: int) -> Option<u64> {
    if i == 0 {
        None
    } else {
        pages[i - 1].next_cursor
    }
}

/// Whether pages are those that are read one after the other, each from where the one before ended
/// and each with a limit of its own.
pub open spec fn are_listed_in_turn(
    blocks: Seq<BlockModel>,
    limits: Seq<usize>,
    pages: Seq<BlockListViewModel>,
) -> bool {
    &&& limits.len() == pages.len()
    &&& forall|i: int|
        0 <= i < pages.len() ==> #[trigger] pages[i] == blocks_shown(
            blocks,
            page_start(pages, i),
            limits[i],
        )
    &&& forall|i: int|
        0 <= i && i + 1 < pages.len() ==> (#[trigger] pages[i]).next_cursor is Some
}

proof fn filter_keeps_all(blocks: Seq<BlockModel>, met: spec_fn(BlockModel) -> bool)
    requires
        forall|i: int| 0 <= i < blocks.len() ==> met(#[trigger] blocks[i]),
    ensures
        blocks.filter(met) == blocks,
    decreases blocks.len(),
{
    reveal(Seq::filter);
    if blocks.len() > 0 {
        let rest = blocks.drop_last();
        assert forall|i: int| 0 <= i < rest.len() implies met(#[trigger] rest[i]) by {
            assert(rest[i] == blocks[i]);
        }
        filter_keeps_all(rest, met);
        assert(met(blocks[blocks.len() - 1]));
        assert(rest.push(blocks.last()) =~= blocks);
    }
}

proof fn filter_keeps_none(blocks: Seq<BlockModel>, met: spec_fn(BlockModel) -> bool)
    requires
        forall|i: int| 0 <= i < blocks.len() ==> !met(#[trigger] blocks[i]),
    ensures
        blocks.filter(met) == Seq::<BlockModel>::empty(),
    decreases blocks.len(),
{
    reveal(Seq::filter);
    if blocks.len() > 0 {
        let rest = blocks.drop_last();
        assert forall|i: int| 0 <= i < rest.len() implies !met(#[trigger] rest[i]) by {
            assert(rest[i] == blocks[i]);
        }
        filter_keeps_none(rest, met);
        assert(!met(blocks[blocks.len() - 1]));
    }
}

/// How many blocks are below a height, where there is one.
pub open spec fn is_count_below(blocks: Seq<BlockModel>, before: Option<u64>, count: int) -> bool {
    match before {
        None => count == blocks.len(),
        Some(height) => 0 <= count < blocks.len() && blocks[count].height == height,
    }
}

proof fn lower_blocks_come_first(blocks: Seq<BlockModel>, before: Option<u64>, count: int)
    requires
        heights_ascend(blocks),
        is_count_below(blocks, before, count),
    ensures
        blocks.filter(stands_below(before)) == blocks.take(count),
{
    let below = stands_below(before);
    let lower = blocks.take(count);
    let higher = blocks.skip(count);
    assert(blocks =~= lower + higher);
    Seq::filter_distributes_over_add(lower, higher, below);
    assert forall|i: int| 0 <= i < lower.len() implies below(#[trigger] lower[i]) by {
        assert(lower[i] == blocks[i]);
    }
    assert forall|i: int| 0 <= i < higher.len() implies !below(#[trigger] higher[i]) by {
        assert(higher[i] == blocks[count + i]);
    }
    filter_keeps_all(lower, below);
    filter_keeps_none(higher, below);
    assert(lower + Seq::empty() =~= lower);
}

/// A page lists the highest blocks below its start, from the latest on, and as many as it may. It
/// leads on to the blocks below its last one, where there are any.
pub proof fn pages_list_the_highest_blocks(
    blocks: Seq<BlockModel>,
    before: Option<u64>,
    limit: usize,
    count: int,
)
    requires
        heights_ascend(blocks),
        is_count_below(blocks, before, count),
    ensures
        ({
            let page = blocks_shown(blocks, before, limit);
            let length = least(page_length(limit) as int, count);
            let rest = count - length;
            &&& page.blocks.len() == length
            &&& page.blocks == all_summaries(blocks).subrange(
                blocks.len() - count,
                blocks.len() - rest,
            )
            &&& forall|i: int, j: int|
                0 <= i < j < length ==> (#[trigger] page.blocks[i]).height > (
                #[trigger] page.blocks[j]).height
            &&& forall|i: int|
                0 <= i < length && before is Some ==> (#[trigger] page.blocks[i]).height
                    < before->0
            &&& page.next_cursor is Some <==> rest > 0
            &&& rest > 0 ==> is_count_below(blocks, page.next_cursor, rest)
        }),
{
    lower_blocks_come_first(blocks, before, count);
    let page = blocks_shown(blocks, before, limit);
    let found = blocks.take(count).reverse();
    let length = least(page_length(limit) as int, count);
    let all = all_summaries(blocks);
    let shown = shown_first(found, page_length(limit) as int);
    assert(shown =~= found.take(length));
    assert forall|i: int| 0 <= i < length implies #[trigger] page.blocks[i] == block_summary(
        blocks[count - 1 - i],
    ) && page.blocks[i] == all[blocks.len() - count + i] by {
        assert(shown[i] == blocks[count - 1 - i]);
        assert(blocks.reverse()[blocks.len() - count + i] == blocks[count - 1 - i]);
    }
    assert(page.blocks =~= all.subrange(blocks.len() - count, blocks.len() - count + length));
    if length < count {
        assert(shown.last() == blocks[count - length]);
    }
}

proof fn pages_list_the_latest(
    blocks: Seq<BlockModel>,
    limits: Seq<usize>,
    pages: Seq<BlockListViewModel>,
    count: int,
)
    requires
        heights_ascend(blocks),
        are_listed_in_turn(blocks, limits, pages),
        0 < count <= pages.len(),
    ensures
        ({
            let listed = listed_summaries(pages.take(count));
            let rest = blocks.len() - listed.len();
            &&& rest >= 0
            &&& listed == all_summaries(blocks).take(listed.len() as int)
            &&& pages[count - 1].next_cursor is Some <==> rest > 0
            &&& rest > 0 ==> is_count_below(blocks, pages[count - 1].next_cursor, rest)
        }),
    decreases count,
{
    let taken = pages.take(count);
    let before = listed_summaries(pages.take(count - 1));
    assert(taken.last() == pages[count - 1]);
    assert(taken.drop_last() =~= pages.take(count - 1));
    if count > 1 {
        pages_list_the_latest(blocks, limits, pages, count - 1);
        assert(pages[count - 2].next_cursor is Some);
    } else {
        assert(pages.take(0) =~= Seq::empty());
    }
    let left = blocks.len() - before.len();
    pages_list_the_highest_blocks(
        blocks,
        page_start(pages, count - 1),
        limits[count - 1],
        left,
    );
    let listed = listed_summaries(taken);
    assert(listed =~= all_summaries(blocks).take(listed.len() as int));
}

/// The pages of the blocks, read one after the other until there is no cursor any more, list every
/// block once, from the latest on. A page has no more blocks than it may have.
pub proof fn pages_list_every_block_once(
    blocks: Seq<BlockModel>,
    limits: Seq<usize>,
    pages: Seq<BlockListViewModel>,
)
    requires
        heights_ascend(blocks),
        are_listed_in_turn(blocks, limits, pages),
        pages.len() > 0,
        pages.last().next_cursor is None,
    ensures
        listed_summaries(pages) == all_summaries(blocks),
        forall|i: int|
            0 <= i < pages.len() ==> (#[trigger] pages[i]).blocks.len() <= page_length(limits[i]),
{
    pages_list_the_latest(blocks, limits, pages, pages.len() as int);
    assert(pages.take(pages.len() as int) =~= pages);
    assert(all_summaries(blocks).take(blocks.len() as int) =~= all_summaries(blocks));
    assert forall|i: int| 0 <= i < pages.len() implies (#[trigger] pages[i]).blocks.len()
        <= page_length(limits[i]) by {
        assert(pages[i] == blocks_shown(blocks, page_start(pages, i), limits[i]));
    }
}

/// The operations of some pages, one page after the other.
pub open spec fn listed_operations(pages: Seq<BlockOperationListViewModel>) -> Seq<OperationModel>
    decreases pages.len(),
{
    if pages.len() == 0 {
        Seq::empty()
    } else {
        listed_operations(pages.drop_last()) + pages.last().operations
    }
}

/// The cursor with which a page of operations is asked for: the start for the first page, and for
/// each other page the cursor that the page before it has given.
pub open spec fn operations_start(pages: Seq<BlockOperationListViewModel>, i: int) -> usize {
    if i == 0 {
        0
    } else {
        pages[i - 1].next_cursor->0 as usize
    }
}

/// Whether a page of a block's operations is the one that is shown from a place on.
#[verifier::opaque]
pub open spec fn is_operations_page(
    ledger: LedgerModel,
    height: u64,
    cursor: usize,
    limit: usize,
    page: BlockOperationListViewModel,
) -> bool {
    block_operations_shown(ledger, height, cursor, limit) == Ok::<
        BlockOperationListViewModel,
        Seq<char>,
    >(page)
}

/// Whether a block with some operations stands at a height.
#[verifier::opaque]
pub open spec fn holds_operations(ledger: LedgerModel, height: u64, ids: Seq<Seq<char>>) -> bool {
    first_where(ledger.blocks, |block: BlockModel| block.height == height) matches Some(block)
        && block.operation_ids == ids
}

/// Whether pages are those of a block's operations that are read one after the other, each with the
/// cursor of the one before and with a limit of its own.
pub open spec fn operations_listed_in_turn(
    ledger: LedgerModel,
    height: u64,
    limits: Seq<usize>,
    pages: Seq<BlockOperationListViewModel>,
) -> bool {
    &&& limits.len() == pages.len()
    &&& forall|i: int|
        0 <= i < pages.len() ==> is_operations_page(
            ledger,
            height,
            operations_start(pages, i),
            limits[i],
            #[trigger] pages[i],
        )
    &&& forall|i: int|
        0 <= i && i + 1 < pages.len() ==> (#[trigger] pages[i]).next_cursor is Some
}

/// The records of some operations.
pub open spec fn operations_named(
    operations: Map<Seq<char>, OperationModel>,
    ids: Seq<Seq<char>>,
) -> Seq<OperationModel> {
    ids.map_values(|id: Seq<char>| operations[id])
}

proof fn found_operations_are_named(
    operations: Map<Seq<char>, OperationModel>,
    ids: Seq<Seq<char>>,
    found: Seq<OperationModel>,
)
    requires
        operations_found(operations, ids, found) is Ok,
    ensures
        operations_found(operations, ids, found)->Ok_0 == found + operations_named(operations, ids),
    decreases ids.len(),
{
    if ids.len() > 0 {
        let rest = ids.drop_first();
        found_operations_are_named(operations, rest, found.push(operations[ids[0]]));
        assert(found.push(operations[ids[0]]) + operations_named(operations, rest) =~= found
            + operations_named(operations, ids));
    } else {
        assert(found + operations_named(operations, ids) =~= found);
    }
}

proof fn one_page_lists_operations(
    ledger: LedgerModel,
    height: u64,
    cursor: usize,
    limit: usize,
    ids: Seq<Seq<char>>,
    page: BlockOperationListViewModel,
)
    requires
        ids.len() <= usize::MAX,
        holds_operations(ledger, height, ids),
        is_operations_page(ledger, height, cursor, limit, page),
        cursor <= ids.len(),
    ensures
        ({
            let end = least(cursor + page_length(limit), ids.len() as int);
            &&& cursor <= end <= ids.len()
            &&& page.operations == operations_named(
                ledger.operations,
                ids.subrange(cursor as int, end),
            )
            &&& page.operations.len() == end - cursor <= page_length(limit)
            &&& page.next_cursor == if end < ids.len() {
                Some(end as u64)
            } else {
                None
            }
        }),
{
    reveal(is_operations_page);
    reveal(holds_operations);
    let shown = operations_page(ids, cursor, limit);
    found_operations_are_named(ledger.operations, shown, Seq::empty());
    assert(Seq::<OperationModel>::empty() + operations_named(ledger.operations, shown)
        =~= operations_named(ledger.operations, shown));
}

proof fn pages_list_first_operations(
    ledger: LedgerModel,
    height: u64,
    limits: Seq<usize>,
    pages: Seq<BlockOperationListViewModel>,
    ids: Seq<Seq<char>>,
    count: int,
)
    requires
        ids.len() <= usize::MAX,
        holds_operations(ledger, height, ids),
        operations_listed_in_turn(ledger, height, limits, pages),
        0 < count <= pages.len(),
    ensures
        ({
            let listed = listed_operations(pages.take(count));
            &&& listed.len() <= ids.len()
            &&& listed == operations_named(ledger.operations, ids.take(listed.len() as int))
            &&& pages[count - 1].next_cursor == if listed.len() < ids.len() {
                Some(listed.len() as u64)
            } else {
                None
            }
            &&& pages[count - 1].operations.len() <= page_length(limits[count - 1])
        }),
    decreases count,
{
    let taken = pages.take(count);
    let last = pages[count - 1];
    let before = listed_operations(pages.take(count - 1));
    assert(taken.last() == last);
    assert(taken.drop_last() =~= pages.take(count - 1));
    if count > 1 {
        pages_list_first_operations(ledger, height, limits, pages, ids, count - 1);
        assert(pages[count - 2].next_cursor is Some);
    } else {
        assert(pages.take(0) =~= Seq::empty());
        assert(before =~= operations_named(ledger.operations, ids.take(0)));
    }
    let start = operations_start(pages, count - 1);
    assert(start == before.len());
    one_page_lists_operations(ledger, height, start, limits[count - 1], ids, last);
    let listed = listed_operations(taken);
    assert(listed == before + last.operations);
    assert(listed =~= operations_named(ledger.operations, ids.take(listed.len() as int)));
}

/// The pages of a block's operations, read one after the other until there is no cursor any more,
/// list every operation of the block once and in order. A page has no more operations than it may
/// have.
pub proof fn pages_list_every_operation_once(
    ledger: LedgerModel,
    height: u64,
    limits: Seq<usize>,
    pages: Seq<BlockOperationListViewModel>,
    ids: Seq<Seq<char>>,
)
    requires
        ids.len() <= usize::MAX,
        holds_operations(ledger, height, ids),
        operations_listed_in_turn(ledger, height, limits, pages),
        pages.len() > 0,
        pages.last().next_cursor is None,
    ensures
        listed_operations(pages) == operations_named(ledger.operations, ids),
        forall|i: int|
            0 <= i < pages.len() ==> (#[trigger] pages[i]).operations.len() <= page_length(
                limits[i],
            ),
{
    pages_list_first_operations(ledger, height, limits, pages, ids, pages.len() as int);
    assert(pages.take(pages.len() as int) =~= pages);
    assert(ids.take(ids.len() as int) =~= ids);
    assert forall|i: int| 0 <= i < pages.len() implies (#[trigger] pages[i]).operations.len()
        <= page_length(limits[i]) by {
        pages_list_first_operations(ledger, height, limits, pages, ids, i + 1);
    }
}

/// The first node makes blocks alone until twenty nodes count in governance and four validators sit in
/// the committee, with the key that the ledger was founded with and never back in time.
pub proof fn first_node_makes_blocks_until_the_committee_does(
    ledger: LedgerModel,
    config: NodeConfigModel,
    owner: KeyModel,
    allow_empty: bool,
    now: i64,
)
    requires
        may_produce(ledger, config, owner, allow_empty, now) is Ok,
        ledger.genesis_authority is Some,
    ensures
        ({
            let founder = ledger.genesis_authority.unwrap();
            &&& owner.address == founder.owner_address
            &&& owner.public_key == founder.owner_public_key
            &&& config.node_id == Some(founder.node_id)
            &&& eligible_ids(ledger, now).len() < 20 || ledger.consensus.active_validators.len() < 4
            &&& ledger.blocks.len() > 0 ==> ledger.blocks.last().timestamp <= now
            &&& !allow_empty ==> ledger.pending_operation_ids.len() > 0
        }),
{
}

/// The first node is to make a block exactly when the committee does not and the interval from the last
/// block is over.
pub proof fn first_node_is_due_in_its_interval(
    ledger: LedgerModel,
    config: NodeConfigModel,
    now: i64,
)
    requires
        config.node_id == Some(1u64),
        ledger.genesis_authority is Some,
        ledger.blocks.len() > 0,
        i64::MIN <= ledger.blocks.last().timestamp + ledger.settings.block_interval_seconds
            <= i64::MAX,
    ensures
        node1_due(ledger, config, now) <==> {
            &&& eligible_ids(ledger, now).len() < 20 || ledger.consensus.active_validators.len() < 4
            &&& ledger.blocks.last().timestamp + ledger.settings.block_interval_seconds <= now
        },
{
}

} // verus!
