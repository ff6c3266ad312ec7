use vstd::prelude::*;

use crate::model::{LedgerModel, LedgerState};
use crate::number::{clamped_i64, clamped_u64, saturating_add_i64};

verus! {

/// The state after the last final block, where it differs from what is being worked on.
pub fn finalized_state(ledger: &LedgerState) -> (r: Option<&LedgerState>)
    ensures
        match r {
            Some(state) => ledger@.finalized_checkpoint matches Some(checkpoint) && *checkpoint
                == state@,
            None => ledger@.finalized_checkpoint is None,
        },
{
    match &ledger.finalized_checkpoint {
        Some(state) => Some(&**state),
        None => None,
    }
}

/// The height of the last block, whether it is still kept or not.
pub open spec fn chain_height(ledger: LedgerModel) -> u64 {
    if ledger.blocks.len() == 0 {
        ledger.pruned_through_height
    } else {
        ledger.blocks.last().height
    }
}

/// The hash of the last block.
pub open spec fn chain_tip_hash(ledger: LedgerModel) -> Option<Seq<char>> {
    if ledger.blocks.len() == 0 {
        ledger.pruned_tip_hash
    } else {
        Some(ledger.blocks.last().block_hash)
    }
}

/// The time of the last block.
pub open spec fn chain_tip_timestamp(ledger: LedgerModel) -> Option<i64> {
    if ledger.blocks.len() == 0 {
        ledger.pruned_tip_timestamp
    } else {
        Some(ledger.blocks.last().timestamp)
    }
}

/// The height of the block that comes next.
pub open spec fn chain_next_height(ledger: LedgerModel) -> u64 {
    clamped_u64(chain_height(ledger) + 1)
}

/// The time from which the next block may be made.
pub open spec fn chain_next_block_at(ledger: LedgerModel) -> Option<i64> {
    match chain_tip_timestamp(ledger) {
        None => None,
        Some(timestamp) => Some(clamped_i64(timestamp + ledger.settings.block_interval_seconds)),
    }
}

/// Whether the next block may be made.
pub open spec fn chain_block_due(ledger: LedgerModel, now: i64) -> bool {
    match chain_next_block_at(ledger) {
        None => true,
        Some(at) => now >= at,
    }
}

/// When the timer of a round started: not before the next block may be made.
pub open spec fn chain_timer_start(ledger: LedgerModel, started_at: Option<i64>) -> Option<i64> {
    match (started_at, chain_next_block_at(ledger)) {
        (Some(started), Some(at)) => Some(
            if started >= at {
                started
            } else {
                at
            },
        ),
        (Some(started), None) => Some(started),
        (None, at) => at,
    }
}

pub fn height(ledger: &LedgerState) -> (r: u64)
    ensures
        r == chain_height(ledger@),
{
    if ledger.blocks.len() == 0 {
        ledger.pruned_through_height
    } else {
        ledger.blocks[ledger.blocks.len() - 1].height
    }
}

pub fn tip_hash(ledger: &LedgerState) -> (r: Option<String>)
    ensures
        r.deep_view() == chain_tip_hash(ledger@),
{
    if ledger.blocks.len() == 0 {
        match &ledger.pruned_tip_hash {
            Some(hash) => Some(hash.clone()),
            None => None,
        }
    } else {
        Some(ledger.blocks[ledger.blocks.len() - 1].block_hash.clone())
    }
}

pub fn tip_timestamp(ledger: &LedgerState) -> (r: Option<i64>)
    ensures
        r == chain_tip_timestamp(ledger@),
{
    if ledger.blocks.len() == 0 {
        ledger.pruned_tip_timestamp
    } else {
        Some(ledger.blocks[ledger.blocks.len() - 1].timestamp)
    }
}

pub fn next_height(ledger: &LedgerState) -> (r: u64)
    ensures
        r == chain_next_height(ledger@),
{
    height(ledger).saturating_add(1)
}

pub fn next_block_at(ledger: &LedgerState) -> (r: Option<i64>)
    ensures
        r == chain_next_block_at(ledger@),
{
    match tip_timestamp(ledger) {
        None => None,
        Some(timestamp) => Some(
            saturating_add_i64(timestamp, ledger.settings.block_interval_seconds),
        ),
    }
}

pub fn block_is_due(ledger: &LedgerState, now: i64) -> (r: bool)
    ensures
        r == chain_block_due(ledger@, now),
{
    match next_block_at(ledger) {
        None => true,
        Some(at) => now >= at,
    }
}

pub fn consensus_timer_started_at(ledger: &LedgerState, started_at: Option<i64>) -> (r: Option<i64>)
    ensures
        r == chain_timer_start(ledger@, started_at),
{
    match (started_at, next_block_at(ledger)) {
        (Some(started), Some(at)) => Some(
            if started >= at {
                started
            } else {
                at
            },
        ),
        (Some(started), None) => Some(started),
        (None, at) => at,
    }
}

/// The next block is one higher than the last, and may be made when the interval that the settings name
/// has passed since the last one; the first block may be made at once.
pub proof fn blocks_keep_their_distance(ledger: LedgerModel, now: i64)
    ensures
        ledger.blocks.len() > 0 ==> {
            let last = ledger.blocks[ledger.blocks.len() - 1];
            let due = last.timestamp + ledger.settings.block_interval_seconds;
            &&& last.height < u64::MAX ==> chain_next_height(ledger) == last.height + 1
            &&& chain_tip_hash(ledger) == Some(last.block_hash)
            &&& i64::MIN <= due <= i64::MAX ==> (chain_block_due(ledger, now) <==> due <= now)
        },
        ledger.blocks.len() == 0 ==> {
            &&& ledger.pruned_through_height < u64::MAX ==> chain_next_height(ledger)
                == ledger.pruned_through_height + 1
            &&& chain_tip_hash(ledger) == ledger.pruned_tip_hash
            &&& ledger.pruned_tip_timestamp is None ==> chain_block_due(ledger, now)
        },
{
}

} // verus!
