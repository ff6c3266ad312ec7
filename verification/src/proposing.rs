use vstd::prelude::*;
use vstd::string::*;
use vstd::utf8::*;

use crate::blocks::{
    find_previous_hash, hash_block, hash_of, multi_block_signed, multi_validator_block_signing_text,
    previous_hash, set_hash, validator_set_hash,
};
use crate::chain::{
    chain_block_due, chain_next_block_at, chain_next_height, finalized_state, next_block_at,
    next_height,
};
use crate::committee::{consensus_proposer, proposer_of};
use crate::crypto::{signature_checked, verify_bytes};
use crate::error::{outcome, Error, Outcome, Result};
use crate::execution::{block_prepared, consensus_post_state, post_state, prepare_block_operations};
use crate::model::{
    BlockConsensusMode, BlockModel, BlockRecord, ConsensusModel, ConsensusProposal, ConsensusVote,
    KeyIdentity, KeyModel, LedgerModel, LedgerState, LocalNodeConfig, NodeConfigModel,
    ProposedModel,
};
use crate::node_drafts::{local_node_id, registered_id};
use crate::nodes::{eligible_ids, governance_eligible_node_ids};
use crate::protocol::{
    MAX_BLOCK_OPERATIONS, MIN_ACTIVE_VALIDATORS, MULTI_VALIDATOR_BLOCK_VERSION,
    MULTI_VALIDATOR_NODE_THRESHOLD,
};
use crate::sequence::{contains_id, same_ids};
use crate::table::Replicate;
use crate::text::{
    decimal, i64_text, join3, join4, join5, signed_decimal, text_same, u32_text, u64_text,
    usize_text,
};
use crate::views::{ConsensusSubmissionView, ConsensusSubmissionViewModel};

verus! {

/// Whether several validators have to agree on blocks.
pub open spec fn multi_mode_checked(ledger: LedgerModel, now: i64) -> Outcome<()> {
    let eligible = eligible_ids(ledger, now).len();
    let active = ledger.consensus.active_validators.len();
    if eligible < MULTI_VALIDATOR_NODE_THRESHOLD {
        Err(
            "multi-Validator consensus requires at least "@ + decimal(
                MULTI_VALIDATOR_NODE_THRESHOLD as nat,
            ) + " Governance-Eligible Nodes; current count is "@ + decimal(eligible),
        )
    } else if active == 0 {
        Err("multi-Validator consensus has no active Validator committee"@)
    } else if active < MIN_ACTIVE_VALIDATORS {
        Err(
            "multi-Validator consensus requires at least "@ + decimal(MIN_ACTIVE_VALIDATORS as nat)
                + " Active Validators; current count is "@ + decimal(active)
                + " and Node 1 remains the block producer"@,
        )
    } else {
        Ok(())
    }
}

/// Checks that several validators have to agree on blocks.
pub fn ensure_multi_validator_mode(ledger: &LedgerState, now: i64) -> (r: Result<()>)
    ensures
        outcome(r) == multi_mode_checked(ledger@, now),
{
    let eligible: usize = governance_eligible_node_ids(ledger, now).len();
    if eligible < MULTI_VALIDATOR_NODE_THRESHOLD {
        return Err(
            Error::owned(
                join4(
                    "multi-Validator consensus requires at least ",
                    usize_text(MULTI_VALIDATOR_NODE_THRESHOLD).as_str(),
                    " Governance-Eligible Nodes; current count is ",
                    usize_text(eligible).as_str(),
                ),
            ),
        );
    }
    let active: usize = ledger.consensus.active_validators.len();
    if active == 0 {
        return Err(Error::msg("multi-Validator consensus has no active Validator committee"));
    }
    if active < MIN_ACTIVE_VALIDATORS {
        return Err(
            Error::owned(
                join5(
                    "multi-Validator consensus requires at least ",
                    usize_text(MIN_ACTIVE_VALIDATORS).as_str(),
                    " Active Validators; current count is ",
                    usize_text(active).as_str(),
                    " and Node 1 remains the block producer",
                ),
            ),
        );
    }
    Ok(())
}

/// Whether the time for the next block has come.
pub open spec fn due_checked(ledger: LedgerModel, now: i64) -> Outcome<()> {
    if chain_block_due(ledger, now) {
        Ok(())
    } else {
        Err(
            "next block is not due until timestamp "@ + signed_decimal(
                chain_next_block_at(ledger).unwrap() as int,
            ) + " under block-interval-seconds="@ + signed_decimal(
                ledger.settings.block_interval_seconds as int,
            ),
        )
    }
}

/// Checks that the time for the next block has come.
pub fn ensure_consensus_block_is_due(ledger: &LedgerState, now: i64) -> (r: Result<()>)
    ensures
        outcome(r) == due_checked(ledger@, now),
{
    match next_block_at(ledger) {
        None => Ok(()),
        Some(at) => {
            if now >= at {
                return Ok(());
            }
            Err(
                Error::owned(
                    join4(
                        "next block is not due until timestamp ",
                        i64_text(at).as_str(),
                        " under block-interval-seconds=",
                        i64_text(ledger.settings.block_interval_seconds).as_str(),
                    ),
                ),
            )
        },
    }
}

/// Whether a key is that of a validator of the committee.
pub open spec fn identity_checked(ledger: LedgerModel, node_id: u64, owner: KeyModel) -> Outcome<()> {
    if !ledger.consensus.active_validators.contains(node_id) {
        Err("Node "@ + decimal(node_id as nat) + " is not in the active Validator committee"@)
    } else if !ledger.nodes.contains_key(node_id) {
        Err("Validator Node is missing from the registry"@)
    } else if ledger.nodes[node_id].owner_address != owner.address
        || ledger.nodes[node_id].owner_public_key != owner.public_key {
        Err("Validator Owner key does not match the registry"@)
    } else {
        Ok(())
    }
}

/// Checks that a key is that of a validator of the committee.
pub fn ensure_active_validator_identity(
    ledger: &LedgerState,
    node_id: u64,
    owner: &KeyIdentity,
) -> (r: Result<()>)
    ensures
        outcome(r) == identity_checked(ledger@, node_id, owner.deep_view()),
{
    if !contains_id(&ledger.consensus.active_validators, node_id) {
        return Err(
            Error::owned(
                join3(
                    "Node ",
                    u64_text(node_id).as_str(),
                    " is not in the active Validator committee",
                ),
            ),
        );
    }
    match ledger.nodes.get(&node_id) {
        None => Err(Error::msg("Validator Node is missing from the registry")),
        Some(node) => {
            if !text_same(node.owner_address.as_str(), owner.address.as_str()) || !text_same(
                node.owner_public_key.as_str(),
                owner.public_key.as_str(),
            ) {
                return Err(Error::msg("Validator Owner key does not match the registry"));
            }
            Ok(())
        },
    }
}

/// Where a text first stands in a list.
pub open spec fn position_of(texts: Seq<Seq<char>>, text: Seq<char>) -> Option<int>
    decreases texts.len(),
{
    if texts.len() == 0 {
        None
    } else if texts[0] == text {
        Some(0)
    } else {
        match position_of(texts.drop_first(), text) {
            Some(at) => Some(at + 1),
            None => None,
        }
    }
}

fn find_position(texts: &Vec<String>, text: &str) -> (r: Option<usize>)
    ensures
        match position_of(texts.deep_view(), text@) {
            Some(at) => r matches Some(found) && found == at,
            None => r is None,
        },
{
    let ghost all = texts.deep_view();
    let mut i: usize = 0;
    assert(all.skip(0) =~= all);
    while i < texts.len()
        invariant
            i <= all.len(),
            all == texts.deep_view(),
            all.len() == texts@.len(),
            position_of(all, text@) == match position_of(all.skip(i as int), text@) {
                Some(at) => Some(at + i),
                None => None::<int>,
            },
        decreases all.len() - i,
    {
        assert(all.skip(i as int)[0] == texts@[i as int]@);
        assert(all.skip(i as int).drop_first() =~= all.skip(i + 1));
        if text_same(texts[i].as_str(), text) {
            return Some(i);
        }
        i = i + 1;
    }
    None
}

/// The places of the operations of a proposal among those that are pending, or the first that is
/// not pending.
pub open spec fn places_of(
    pending: Seq<Seq<char>>,
    ids: Seq<Seq<char>>,
    found: Seq<int>,
) -> Outcome<Seq<int>>
    decreases ids.len(),
{
    if ids.len() == 0 {
        Ok(found)
    } else {
        match position_of(pending, ids[0]) {
            None => Err(
                "proposal operation "@ + ids[0] + " is not in the local pending pool"@,
            ),
            Some(at) => places_of(pending, ids.drop_first(), found.push(at)),
        }
    }
}

/// Whether numbers strictly ascend.
pub open spec fn strictly_ascend(places: Seq<int>) -> bool {
    forall|i: int| 0 <= i && i + 1 < places.len() ==> #[trigger] places[i] < places[i + 1]
}

/// Whether the operations of a proposal are pending, in the order in which they are pending.
pub open spec fn order_checked(pending: Seq<Seq<char>>, ids: Seq<Seq<char>>) -> Outcome<()> {
    match places_of(pending, ids, Seq::empty()) {
        Err(refusal) => Err(refusal),
        Ok(places) => if strictly_ascend(places) {
            Ok(())
        } else {
            Err("proposal operations are not in canonical pending order"@)
        },
    }
}

fn check_order(pending: &Vec<String>, ids: &Vec<String>) -> (r: Result<()>)
    ensures
        outcome(r) == order_checked(pending.deep_view(), ids.deep_view()),
{
    let ghost all = ids.deep_view();
    let ghost mut places: Seq<int> = Seq::empty();
    let mut last: Option<usize> = None;
    let mut ascending = true;
    let mut i: usize = 0;
    assert(all.skip(0) =~= all);
    while i < ids.len()
        invariant
            i <= all.len(),
            all == ids.deep_view(),
            all.len() == ids@.len(),
            places.len() == i,
            places_of(pending.deep_view(), all, Seq::empty()) == places_of(
                pending.deep_view(),
                all.skip(i as int),
                places,
            ),
            last is None <==> i == 0,
            last matches Some(place) ==> places.last() == place,
            ascending == strictly_ascend(places),
        decreases all.len() - i,
    {
        assert(all.skip(i as int)[0] == ids@[i as int]@);
        assert(all.skip(i as int).drop_first() =~= all.skip(i + 1));
        match find_position(pending, ids[i].as_str()) {
            None => {
                return Err(
                    Error::owned(
                        join3(
                            "proposal operation ",
                            ids[i].as_str(),
                            " is not in the local pending pool",
                        ),
                    ),
                );
            },
            Some(at) => {
                let ghost before = places;
                proof {
                    places = places.push(at as int);
                }
                if let Some(place) = last {
                    if place >= at {
                        ascending = false;
                        assert(!(places[i - 1] < places[i as int]));
                    }
                }
                proof {
                    if ascending {
                        assert forall|k: int| 0 <= k && k + 1 < places.len() implies #[trigger]
                            places[k] < places[k + 1] by {
                            if k + 1 < before.len() {
                                assert(before[k] < before[k + 1]);
                            }
                        }
                    } else if !strictly_ascend(before) {
                        let k = choose|k: int|
                            0 <= k && k + 1 < before.len() && !(#[trigger] before[k]
                                < before[k + 1]);
                        assert(!(places[k] < places[k + 1]));
                    }
                }
                last = Some(at);
            },
        }
        i = i + 1;
    }
    if !ascending {
        return Err(Error::msg("proposal operations are not in canonical pending order"));
    }
    Ok(())
}

/// Whether two lists of texts are the same.
pub fn same_texts(a: &Vec<String>, b: &Vec<String>) -> (r: bool)
    ensures
        r == (a.deep_view() == b.deep_view()),
{
    if a.len() != b.len() {
        assert(a.deep_view().len() != b.deep_view().len());
        return false;
    }
    let mut i: usize = 0;
    while i < a.len()
        invariant
            i <= a@.len(),
            a@.len() == b@.len(),
            forall|j: int| 0 <= j < i ==> a.deep_view()[j] == b.deep_view()[j],
        decreases a@.len() - i,
    {
        if !text_same(a[i].as_str(), b[i].as_str()) {
            assert(a.deep_view()[i as int] != b.deep_view()[i as int]);
            return false;
        }
        i = i + 1;
    }
    assert(a.deep_view() =~= b.deep_view());
    true
}

/// Whether a proposal is for the current height and round, its time is right and it extends the
/// chain.
pub open spec fn proposal_placed(ledger: LedgerModel, block: BlockModel, now: i64) -> Outcome<()> {
    if block.version != MULTI_VALIDATOR_BLOCK_VERSION || block.consensus_mode
        != BlockConsensusMode::MultiValidator || block.ledger_id != ledger.ledger_id || block.height
        != chain_next_height(ledger) || block.consensus_round != ledger.consensus.round
        || block.validator_epoch != ledger.epoch_number || block.validator_node_ids
        != ledger.consensus.active_validators {
        Err("multi-Validator proposal has invalid consensus metadata"@)
    } else if block.timestamp > now + 30 || block.timestamp < now - 60 {
        Err("proposal timestamp is outside the allowed window"@)
    } else {
        match due_checked(ledger, now) {
            Err(refusal) => Err(refusal),
            Ok(_) => if chain_next_block_at(ledger) matches Some(at) && block.timestamp < at {
                Err("proposal timestamp is earlier than the configured block interval"@)
            } else if block.previous_block_hash != previous_hash(ledger) {
                Err("proposal does not extend the finalized chain"@)
            } else {
                Ok(())
            },
        }
    }
}

fn check_place(ledger: &LedgerState, block: &BlockRecord, now: i64) -> (r: Result<()>)
    ensures
        outcome(r) == proposal_placed(ledger@, block.deep_view(), now),
{
    if block.version != MULTI_VALIDATOR_BLOCK_VERSION || block.consensus_mode
        != BlockConsensusMode::MultiValidator || !text_same(
        block.ledger_id.as_str(),
        ledger.ledger_id.as_str(),
    ) || block.height != next_height(ledger) || block.consensus_round != ledger.consensus.round
        || block.validator_epoch != ledger.epoch_number || !same_ids(
        &block.validator_node_ids,
        &ledger.consensus.active_validators,
    ) {
        return Err(Error::msg("multi-Validator proposal has invalid consensus metadata"));
    }
    if block.timestamp as i128 > now as i128 + 30 || (block.timestamp as i128) < now as i128 - 60 {
        return Err(Error::msg("proposal timestamp is outside the allowed window"));
    }
    ensure_consensus_block_is_due(ledger, now)?;
    if let Some(at) = next_block_at(ledger) {
        if block.timestamp < at {
            return Err(
                Error::msg("proposal timestamp is earlier than the configured block interval"),
            );
        }
    }
    let expected = find_previous_hash(ledger);
    if !text_same(block.previous_block_hash.as_str(), expected.as_str()) {
        return Err(Error::msg("proposal does not extend the finalized chain"));
    }
    Ok(())
}

/// The key of the validator that has proposed a block, if it was its turn.
pub open spec fn proposer_checked(ledger: LedgerModel, block: BlockModel) -> Outcome<Seq<char>> {
    let active = ledger.consensus.active_validators;
    match set_hash(ledger, ledger.epoch_number, active) {
        Err(refusal) => Err(refusal),
        Ok(hash) => if block.validator_set_hash != hash {
            Err("proposal Validator set hash is invalid"@)
        } else {
            match proposer_of(active, block.height, block.consensus_round) {
                None => Err("active Validator committee is empty"@),
                Some(expected) => if block.producer_node_id != expected {
                    Err("proposal was signed by the wrong round proposer"@)
                } else if !ledger.nodes.contains_key(expected) {
                    Err("proposal Validator is missing"@)
                } else if block.producer_owner_address != ledger.nodes[expected].owner_address {
                    Err("proposal producer identity is invalid"@)
                } else {
                    Ok(ledger.nodes[expected].owner_public_key)
                },
            }
        },
    }
}

fn check_proposer(ledger: &LedgerState, block: &BlockRecord) -> (r: Result<String>)
    ensures
        outcome(r) == proposer_checked(ledger@, block.deep_view()),
{
    let active = &ledger.consensus.active_validators;
    let hash = validator_set_hash(ledger, active)?;
    if !text_same(block.validator_set_hash.as_str(), hash.as_str()) {
        return Err(Error::msg("proposal Validator set hash is invalid"));
    }
    match consensus_proposer(active, block.height, block.consensus_round) {
        None => Err(Error::msg("active Validator committee is empty")),
        Some(expected) => {
            if block.producer_node_id != expected {
                return Err(Error::msg("proposal was signed by the wrong round proposer"));
            }
            match ledger.nodes.get(&expected) {
                None => Err(Error::msg("proposal Validator is missing")),
                Some(node) => {
                    if !text_same(
                        block.producer_owner_address.as_str(),
                        node.owner_address.as_str(),
                    ) {
                        return Err(Error::msg("proposal producer identity is invalid"));
                    }
                    Ok(node.owner_public_key.clone())
                },
            }
        },
    }
}

/// The state after a proposed block, if the proposal is valid in every way. `root` is the root of
/// the state after the block, as it was found here.
pub open spec fn proposal_checked(
    ledger: LedgerModel,
    block: BlockModel,
    root: Seq<char>,
    now: i64,
) -> Outcome<LedgerModel> {
    match proposal_placed(ledger, block, now) {
        Err(refusal) => Err(refusal),
        Ok(_) => match proposer_checked(ledger, block) {
            Err(refusal) => Err(refusal),
            Ok(key) => if ledger.finalized_checkpoint is None && block.operation_ids
                != ledger.pending_operation_ids {
                Err("proposal operation ordering is invalid"@)
            } else {
                match order_checked(ledger.pending_operation_ids, block.operation_ids) {
                    Err(refusal) => Err(refusal),
                    Ok(_) => match post_state(ledger, block) {
                        Err(refusal) => Err(refusal),
                        Ok(state) => if block.state_root != root {
                            Err("proposal state root does not match local execution"@)
                        } else if block.block_hash != hash_of(multi_block_signed(block)) {
                            Err("proposal block hash does not match its contents"@)
                        } else {
                            match signature_checked(
                                key,
                                encode_utf8(multi_block_signed(block)),
                                block.producer_signature,
                            ) {
                                Err(refusal) => Err(refusal),
                                Ok(_) => Ok(state),
                            }
                        },
                    },
                }
            },
        },
    }
}

/// Checks a proposal in every way and gives the state after the block. `root` is the root of that
/// state, as it was found here.
pub fn verify_multi_validator_proposal(
    ledger: &LedgerState,
    block: &BlockRecord,
    root: &str,
    now: i64,
) -> (r: Result<LedgerState>)
    ensures
        outcome(r) == proposal_checked(ledger@, block.deep_view(), root@, now),
{
    check_place(ledger, block, now)?;
    let key = check_proposer(ledger, block)?;
    if finalized_state(ledger).is_none() && !same_texts(
        &block.operation_ids,
        &ledger.pending_operation_ids,
    ) {
        return Err(Error::msg("proposal operation ordering is invalid"));
    }
    check_order(&ledger.pending_operation_ids, &block.operation_ids)?;
    let state = consensus_post_state(ledger, block)?;
    if !text_same(block.state_root.as_str(), root) {
        return Err(Error::msg("proposal state root does not match local execution"));
    }
    let signed = multi_validator_block_signing_text(block);
    let hash = hash_block(signed.as_str());
    if !text_same(block.block_hash.as_str(), hash.as_str()) {
        return Err(Error::msg("proposal block hash does not match its contents"));
    }
    verify_bytes(key.as_str(), signed.as_str().as_bytes(), block.producer_signature.as_str())?;
    Ok(state)
}

/// The ledger in which a block is proposed.
pub open spec fn proposal_set(
    ledger: LedgerModel,
    block: BlockModel,
    state: LedgerModel,
    now: i64,
) -> LedgerModel {
    LedgerModel {
        consensus: ConsensusModel {
            height: block.height,
            round_started_at: Some(now),
            proposal: Some(ProposedModel { block, proposed_at: now }),
            ..ledger.consensus
        },
        proposal_post_state: Some(Box::new(state)),
        ..ledger
    }
}

fn set_proposal(ledger: &mut LedgerState, block: BlockRecord, state: LedgerState, now: i64)
    ensures
        final(ledger)@ == proposal_set(old(ledger)@, block.deep_view(), state@, now),
{
    ledger.consensus.height = block.height;
    ledger.consensus.round_started_at = Some(now);
    ledger.consensus.proposal = Some(ConsensusProposal { block, proposed_at: now });
    ledger.proposal_post_state = Some(Box::new(state));
}

/// The ledger after a proposal has come in, and what is answered.
pub open spec fn proposal_submitted(
    ledger: LedgerModel,
    block: BlockModel,
    root: Seq<char>,
    now: i64,
) -> Outcome<(LedgerModel, ConsensusSubmissionViewModel)> {
    match multi_mode_checked(ledger, now) {
        Err(refusal) => Err(refusal),
        Ok(_) => match ledger.consensus.proposal {
            Some(existing) => if existing.block.block_hash == block.block_hash {
                Ok(
                    (
                        ledger,
                        ConsensusSubmissionViewModel {
                            accepted: true,
                            duplicate: true,
                            double_sign_detected: false,
                            finalized_block: None,
                        },
                    ),
                )
            } else {
                Err("a conflicting proposal already exists for this height and round"@)
            },
            None => match proposal_checked(ledger, block, root, now) {
                Err(refusal) => Err(refusal),
                Ok(state) => Ok(
                    (
                        proposal_set(ledger, block, state, now),
                        ConsensusSubmissionViewModel {
                            accepted: true,
                            duplicate: false,
                            double_sign_detected: false,
                            finalized_block: None,
                        },
                    ),
                ),
            },
        },
    }
}

/// Takes a proposal in. `root` is the root of the state after the block, as it was found here
/// (`consensus_post_state`).
pub fn submit_consensus_proposal(
    ledger: &mut LedgerState,
    block: BlockRecord,
    root: &str,
    now: i64,
) -> (r: Result<ConsensusSubmissionView>)
    ensures
        match proposal_submitted(old(ledger)@, block.deep_view(), root@, now) {
            Ok(next) => final(ledger)@ == next.0 && (r matches Ok(view) && view.deep_view()
                == next.1),
            Err(refusal) => final(ledger)@ == old(ledger)@ && (r matches Err(error) && error@
                == refusal),
        },
{
    ensure_multi_validator_mode(ledger, now)?;
    if let Some(existing) = &ledger.consensus.proposal {
        if text_same(existing.block.block_hash.as_str(), block.block_hash.as_str()) {
            return Ok(
                ConsensusSubmissionView {
                    accepted: true,
                    duplicate: true,
                    double_sign_detected: false,
                    finalized_block: None,
                },
            );
        }
        return Err(
            Error::msg("a conflicting proposal already exists for this height and round"),
        );
    }
    let state = verify_multi_validator_proposal(ledger, &block, root, now)?;
    set_proposal(ledger, block, state, now);
    Ok(
        ConsensusSubmissionView {
            accepted: true,
            duplicate: false,
            double_sign_detected: false,
            finalized_block: None,
        },
    )
}

/// What a validator is about to propose: the operations, the state after them and, where the value
/// is one that a quorum has agreed to already, the root of that state.
pub struct PreparedProposal {
    pub operation_ids: Vec<String>,
    pub state: LedgerState,
    pub state_root: Option<String>,
}

/// The contents of `PreparedProposal`.
#[verifier::ext_equal]
pub struct PreparedModel {
    pub operation_ids: Seq<Seq<char>>,
    pub state: LedgerModel,
    pub state_root: Option<Seq<char>>,
}

impl DeepView for PreparedProposal {
    type V = PreparedModel;

    open spec fn deep_view(&self) -> PreparedModel {
        PreparedModel {
            operation_ids: self.operation_ids.deep_view(),
            state: self.state@,
            state_root: self.state_root.deep_view(),
        }
    }
}

/// Whether a local node may propose now.
pub open spec fn may_propose(
    ledger: LedgerModel,
    config: NodeConfigModel,
    owner: KeyModel,
    now: i64,
) -> Outcome<u64> {
    match registered_id(config) {
        Err(refusal) => Err(refusal),
        Ok(node_id) => match multi_mode_checked(ledger, now) {
            Err(refusal) => Err(refusal),
            Ok(_) => match identity_checked(ledger, node_id, owner) {
                Err(refusal) => Err(refusal),
                Ok(_) => match due_checked(ledger, now) {
                    Err(refusal) => Err(refusal),
                    Ok(_) => {
                        let height = chain_next_height(ledger);
                        let round = ledger.consensus.round;
                        match proposer_of(ledger.consensus.active_validators, height, round) {
                            None => Err("active Validator committee is empty"@),
                            Some(expected) => if node_id != expected {
                                Err(
                                    "Node "@ + decimal(node_id as nat)
                                        + " is not proposer for height "@ + decimal(height as nat)
                                        + " round "@ + decimal(round as nat) + "; expected Node "@
                                        + decimal(expected as nat),
                                )
                            } else if ledger.consensus.proposal is Some {
                                Err("a proposal already exists for the current round"@)
                            } else if ledger.pending_operation_ids.len() > MAX_BLOCK_OPERATIONS {
                                Err(
                                    "pending operation count exceeds the "@ + decimal(
                                        MAX_BLOCK_OPERATIONS as nat,
                                    ) + " operation block limit"@,
                                )
                            } else {
                                Ok(node_id)
                            },
                        }
                    },
                },
            },
        },
    }
}

fn check_turn(
    ledger: &LedgerState,
    config: &LocalNodeConfig,
    owner: &KeyIdentity,
    now: i64,
) -> (r: Result<u64>)
    ensures
        outcome(r) == may_propose(ledger@, config.deep_view(), owner.deep_view(), now),
{
    let node_id = local_node_id(config)?;
    ensure_multi_validator_mode(ledger, now)?;
    ensure_active_validator_identity(ledger, node_id, owner)?;
    ensure_consensus_block_is_due(ledger, now)?;
    let height = next_height(ledger);
    let round: u32 = ledger.consensus.round;
    match consensus_proposer(&ledger.consensus.active_validators, height, round) {
        None => {
            return Err(Error::msg("active Validator committee is empty"));
        },
        Some(expected) => {
            if node_id != expected {
                let mut text = join5(
                    "Node ",
                    u64_text(node_id).as_str(),
                    " is not proposer for height ",
                    u64_text(height).as_str(),
                    " round ",
                );
                text.append(u32_text(round).as_str());
                text.append("; expected Node ");
                text.append(u64_text(expected).as_str());
                return Err(Error::owned(text));
            }
        },
    }
    if ledger.consensus.proposal.is_some() {
        return Err(Error::msg("a proposal already exists for the current round"));
    }
    if ledger.pending_operation_ids.len() > MAX_BLOCK_OPERATIONS {
        return Err(
            Error::owned(
                join3(
                    "pending operation count exceeds the ",
                    usize_text(MAX_BLOCK_OPERATIONS).as_str(),
                    " operation block limit",
                ),
            ),
        );
    }
    Ok(node_id)
}

/// The value that is to be proposed: the one that a quorum has agreed to in an earlier round, or
/// what is pending.
pub open spec fn value_prepared(ledger: LedgerModel, now: i64) -> Outcome<PreparedModel> {
    let height = chain_next_height(ledger);
    match ledger.consensus.valid_proposal {
        Some(valid) => if valid.block.height != height {
            Err("consensus valid value belongs to another height"@)
        } else {
            match ledger.valid_post_state {
                None => Err("consensus valid value has no post-state"@),
                Some(state) => Ok(
                    PreparedModel {
                        operation_ids: valid.block.operation_ids,
                        state: *state,
                        state_root: Some(valid.block.state_root),
                    },
                ),
            }
        },
        None => match block_prepared(ledger, ledger.pending_operation_ids, height, now, true) {
            Err(refusal) => Err(refusal),
            Ok(prepared) => Ok(
                PreparedModel {
                    operation_ids: prepared.1,
                    state: prepared.0,
                    state_root: None,
                },
            ),
        },
    }
}

/// What a local node is about to propose.
pub open spec fn proposal_prepared(
    ledger: LedgerModel,
    config: NodeConfigModel,
    owner: KeyModel,
    now: i64,
) -> Outcome<PreparedModel> {
    match may_propose(ledger, config, owner, now) {
        Err(refusal) => Err(refusal),
        Ok(_) => match set_hash(
            ledger,
            ledger.epoch_number,
            ledger.consensus.active_validators,
        ) {
            Err(refusal) => Err(refusal),
            Ok(_) => value_prepared(ledger, now),
        },
    }
}

/// Prepares what a local node is about to propose.
pub fn prepare_consensus_proposal(
    ledger: &LedgerState,
    config: &LocalNodeConfig,
    owner: &KeyIdentity,
    now: i64,
) -> (r: Result<PreparedProposal>)
    ensures
        outcome(r) == proposal_prepared(ledger@, config.deep_view(), owner.deep_view(), now),
{
    check_turn(ledger, config, owner, now)?;
    validator_set_hash(ledger, &ledger.consensus.active_validators)?;
    let height = next_height(ledger);
    if let Some(valid) = &ledger.consensus.valid_proposal {
        if valid.block.height != height {
            return Err(Error::msg("consensus valid value belongs to another height"));
        }
        return match &ledger.valid_post_state {
            None => Err(Error::msg("consensus valid value has no post-state")),
            Some(state) => Ok(
                PreparedProposal {
                    operation_ids: valid.block.operation_ids.replicate(),
                    state: state.copy(),
                    state_root: Some(valid.block.state_root.clone()),
                },
            ),
        };
    }
    let (state, operation_ids) = prepare_block_operations(
        ledger,
        &ledger.pending_operation_ids,
        height,
        now,
        true,
    )?;
    Ok(PreparedProposal { operation_ids, state, state_root: None })
}

/// The block that a local node proposes, with its hash and signature.
pub open spec fn block_proposed(
    ledger: LedgerModel,
    node_id: u64,
    owner: Seq<char>,
    ids: Seq<Seq<char>>,
    root: Seq<char>,
    signature: Seq<char>,
    now: i64,
) -> Outcome<BlockModel> {
    match set_hash(ledger, ledger.epoch_number, ledger.consensus.active_validators) {
        Err(refusal) => Err(refusal),
        Ok(validator_set_hash) => {
            let bare = BlockModel {
                version: MULTI_VALIDATOR_BLOCK_VERSION,
                ledger_id: ledger.ledger_id,
                height: chain_next_height(ledger),
                previous_block_hash: previous_hash(ledger),
                timestamp: now,
                producer_node_id: node_id,
                producer_owner_address: owner,
                operation_ids: ids,
                state_root: root,
                block_hash: ""@,
                producer_signature: signature,
                consensus_mode: BlockConsensusMode::MultiValidator,
                consensus_round: ledger.consensus.round,
                validator_set_hash,
                commit_signatures: Seq::empty(),
                validator_epoch: ledger.epoch_number,
                validator_node_ids: ledger.consensus.active_validators,
            };
            Ok(BlockModel { block_hash: hash_of(multi_block_signed(bare)), ..bare })
        },
    }
}

/// Makes the block that a local node proposes, with its signature over
/// `multi_validator_block_signing_text` of it.
pub fn make_proposed_block(
    ledger: &LedgerState,
    node_id: u64,
    owner: &KeyIdentity,
    operation_ids: Vec<String>,
    state_root: &str,
    signature: &str,
    now: i64,
) -> (r: Result<BlockRecord>)
    ensures
        outcome(r) == block_proposed(
            ledger@,
            node_id,
            owner.deep_view().address,
            operation_ids.deep_view(),
            state_root@,
            signature@,
            now,
        ),
{
    let hash = validator_set_hash(ledger, &ledger.consensus.active_validators)?;
    let none: Vec<ConsensusVote> = Vec::new();
    assert(none.deep_view() =~= Seq::empty());
    let mut block = BlockRecord {
        version: MULTI_VALIDATOR_BLOCK_VERSION,
        ledger_id: ledger.ledger_id.clone(),
        height: next_height(ledger),
        previous_block_hash: find_previous_hash(ledger),
        timestamp: now,
        producer_node_id: node_id,
        producer_owner_address: owner.address.clone(),
        operation_ids,
        state_root: state_root.to_owned(),
        block_hash: "".to_owned(),
        producer_signature: signature.to_owned(),
        consensus_mode: BlockConsensusMode::MultiValidator,
        consensus_round: ledger.consensus.round,
        validator_set_hash: hash,
        commit_signatures: none,
        validator_epoch: ledger.epoch_number,
        validator_node_ids: crate::model::copy_values(&ledger.consensus.active_validators),
    };
    let signed = multi_validator_block_signing_text(&block);
    block.block_hash = hash_block(signed.as_str());
    Ok(block)
}

/// The ledger after a local node has proposed, and its block.
pub open spec fn proposal_made(
    ledger: LedgerModel,
    config: NodeConfigModel,
    owner: KeyModel,
    prepared: PreparedModel,
    root: Seq<char>,
    found: Seq<char>,
    signature: Seq<char>,
    now: i64,
) -> Outcome<(LedgerModel, BlockModel)> {
    match may_propose(ledger, config, owner, now) {
        Err(refusal) => Err(refusal),
        Ok(node_id) => match block_proposed(
            ledger,
            node_id,
            owner.address,
            prepared.operation_ids,
            root,
            signature,
            now,
        ) {
            Err(refusal) => Err(refusal),
            Ok(block) => match proposal_checked(ledger, block, found, now) {
                Err(refusal) => Err(refusal),
                Ok(_) => Ok((proposal_set(ledger, block, prepared.state, now), block)),
            },
        },
    }
}

/// Proposes what was prepared. `root` is the root of the prepared state, `found` the root of the
/// state after the block as it is executed again, and the signature is over
/// `multi_validator_block_signing_text` of the block.
pub fn propose_consensus_block(
    ledger: &mut LedgerState,
    config: &LocalNodeConfig,
    owner: &KeyIdentity,
    prepared: PreparedProposal,
    root: &str,
    found: &str,
    signature: &str,
    now: i64,
) -> (r: Result<BlockRecord>)
    ensures
        match proposal_made(
            old(ledger)@,
            config.deep_view(),
            owner.deep_view(),
            prepared.deep_view(),
            root@,
            found@,
            signature@,
            now,
        ) {
            Ok(next) => final(ledger)@ == next.0 && (r matches Ok(block) && block.deep_view()
                == next.1),
            Err(refusal) => final(ledger)@ == old(ledger)@ && (r matches Err(error) && error@
                == refusal),
        },
{
    let node_id = check_turn(ledger, config, owner, now)?;
    let block = make_proposed_block(
        ledger,
        node_id,
        owner,
        prepared.operation_ids,
        root,
        signature,
        now,
    )?;
    verify_multi_validator_proposal(ledger, &block, found, now)?;
    set_proposal(ledger, block.replicate(), prepared.state, now);
    Ok(block)
}

/// Whether the stored proposal is still the one that is being voted on.
pub open spec fn stored_checked(ledger: LedgerModel, block: BlockModel) -> Outcome<()> {
    match ledger.consensus.proposal {
        None => Err("consensus has no stored proposal"@),
        Some(stored) => if stored.block.block_hash != block.block_hash || block.height
            != chain_next_height(ledger) || block.consensus_round != ledger.consensus.round
            || block.validator_epoch != ledger.epoch_number || block.validator_node_ids
            != ledger.consensus.active_validators {
            Err(
                "stored consensus proposal no longer matches the active height, round or Validator set"@,
            )
        } else {
            match set_hash(ledger, ledger.epoch_number, ledger.consensus.active_validators) {
                Err(refusal) => Err(refusal),
                Ok(hash) => if block.validator_set_hash != hash {
                    Err(
                        "stored consensus proposal no longer matches the active height, round or Validator set"@,
                    )
                } else {
                    Ok(())
                },
            }
        },
    }
}

/// Checks that the stored proposal is still the one that is being voted on.
pub fn verify_stored_consensus_proposal(ledger: &LedgerState, block: &BlockRecord) -> (r: Result<
    (),
>)
    ensures
        outcome(r) == stored_checked(ledger@, block.deep_view()),
{
    match &ledger.consensus.proposal {
        None => Err(Error::msg("consensus has no stored proposal")),
        Some(stored) => {
            if !text_same(stored.block.block_hash.as_str(), block.block_hash.as_str())
                || block.height != next_height(ledger) || block.consensus_round
                != ledger.consensus.round || block.validator_epoch != ledger.epoch_number
                || !same_ids(&block.validator_node_ids, &ledger.consensus.active_validators) {
                return Err(
                    Error::msg(
                        "stored consensus proposal no longer matches the active height, round or Validator set",
                    ),
                );
            }
            let hash = validator_set_hash(ledger, &ledger.consensus.active_validators)?;
            if !text_same(block.validator_set_hash.as_str(), hash.as_str()) {
                return Err(
                    Error::msg(
                        "stored consensus proposal no longer matches the active height, round or Validator set",
                    ),
                );
            }
            Ok(())
        },
    }
}

/// Only the validator whose turn it is can propose, only on top of the chain, and only one proposal
/// is taken in a round.
pub proof fn accepted_proposal_extends_chain(
    ledger: LedgerModel,
    block: BlockModel,
    root: Seq<char>,
    now: i64,
)
    ensures
        proposal_submitted(ledger, block, root, now) matches Ok(next) ==> (!next.1.duplicate ==> {
            &&& ledger.consensus.proposal is None
            &&& block.height == chain_next_height(ledger)
            &&& block.previous_block_hash == previous_hash(ledger)
            &&& Some(block.producer_node_id) == proposer_of(
                ledger.consensus.active_validators,
                block.height,
                ledger.consensus.round,
            )
            &&& next.0.consensus.proposal == Some(ProposedModel { block, proposed_at: now })
            &&& next.0.blocks == ledger.blocks && next.0.accounts == ledger.accounts
        }),
{
}

/// A proposal is taken over only for the round under way and the committee that sits, when the next
/// block is due, with a time from a minute ago to half a minute ahead that keeps the interval from the
/// last block, and under the identity of the validator whose turn it is.
pub proof fn proposals_are_of_the_round(
    ledger: LedgerModel,
    block: BlockModel,
    root: Seq<char>,
    now: i64,
)
    requires
        proposal_submitted(ledger, block, root, now) is Ok,
        !proposal_submitted(ledger, block, root, now)->Ok_0.1.duplicate,
    ensures
        block.consensus_round == ledger.consensus.round,
        block.validator_epoch == ledger.epoch_number,
        block.validator_node_ids == ledger.consensus.active_validators,
        block.ledger_id == ledger.ledger_id,
        now - 60 <= block.timestamp <= now + 30,
        chain_block_due(ledger, now),
        chain_next_block_at(ledger) matches Some(at) ==> at <= block.timestamp,
        block.producer_owner_address == ledger.nodes[block.producer_node_id].owner_address,
{
}

/// The committee agrees on blocks only if twenty nodes count in governance and at least four validators
/// sit in it.
pub proof fn committees_need_members(ledger: LedgerModel, now: i64)
    ensures
        multi_mode_checked(ledger, now) is Ok <==> 20 <= eligible_ids(ledger, now).len() && 4
            <= ledger.consensus.active_validators.len(),
{
}

} // verus!
