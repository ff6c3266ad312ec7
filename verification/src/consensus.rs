use vstd::prelude::*;
use vstd::string::*;
use vstd::utf8::*;

use crate::blocks::{
    checkpoint_taken, consensus_value_id, set_hash, update_finalized_checkpoint, validator_set_hash,
    value_id, vote_signed, vote_signing_text,
};
use crate::chain::{
    chain_next_block_at, chain_next_height, chain_timer_start, consensus_timer_started_at,
    finalized_state, next_block_at, next_height,
};
use crate::committee::{
    candidate_ids, committee_ready, consensus_proposer, consensus_quorum, multi_validator_ready,
    proposer_of, quorum_of, restart_voting, validator_candidate_node_ids, voting_restarted,
};
use crate::crypto::{signature_checked, verify_bytes};
use crate::error::{outcome, Error, Outcome, Result};
use crate::execution::{clear_votes, votes_cleared};
use crate::model::{
    copy_values, BlockModel, BlockRecord, ConsensusModel, ConsensusProposal, ConsensusVote,
    ConsensusVoteType, DoubleSignEvidence, EvidenceModel, KeyIdentity, KeyModel, LedgerModel,
    LedgerState, LocalNodeConfig, NodeConfigModel, NodeModel, VoteModel,
};
use crate::node_drafts::{local_node_id, registered_id};
use crate::number::{clamped_i64, clamped_u64, least, saturating_sub_i64};
use crate::proposing::{
    ensure_active_validator_identity, ensure_multi_validator_mode, identity_checked,
    multi_mode_checked, same_texts, stored_checked, verify_stored_consensus_proposal,
};
use crate::search::{collect_where, count_where, values_where};
use crate::sequence::contains_id;
use crate::table::{ordered, Replicate, Table};
use crate::text::{decimal, i64_text, join3, join5, signed_decimal, text_same, u32_text, u64_text};
use crate::views::{
    ConsensusStatusView, ConsensusStatusViewModel, ConsensusSubmissionView,
    ConsensusSubmissionViewModel, ValidatorCommitteeView, ValidatorCommitteeViewModel,
};

verus! {

/// Whether two texts that may be missing are the same.
pub fn same_optional(a: &Option<String>, b: &Option<String>) -> (r: bool)
    ensures
        r == (a.deep_view() == b.deep_view()),
{
    match (a, b) {
        (Some(x), Some(y)) => text_same(x.as_str(), y.as_str()),
        (None, None) => true,
        _ => false,
    }
}

/// Whether a vote was signed by its validator.
pub open spec fn vote_signature_checked(ledger: LedgerModel, vote: VoteModel) -> Outcome<()> {
    signature_checked(
        ledger.nodes[vote.validator_node_id].owner_public_key,
        encode_utf8(vote_signed(vote)),
        vote.signature,
    )
}

/// Whether a vote is for the current height and round and from a validator of the committee.
#[verifier::opaque]
pub open spec fn vote_checked(ledger: LedgerModel, vote: VoteModel) -> Outcome<()> {
    let refusal = "consensus vote has invalid height, round or Validator set"@;
    if vote.ledger_id != ledger.ledger_id || vote.height != chain_next_height(ledger) || vote.round
        != ledger.consensus.round {
        Err(refusal)
    } else {
        match set_hash(ledger, ledger.epoch_number, ledger.consensus.active_validators) {
            Err(reason) => Err(reason),
            Ok(hash) => if vote.validator_set_hash != hash
                || !ledger.consensus.active_validators.contains(vote.validator_node_id) {
                Err(refusal)
            } else if !ledger.nodes.contains_key(vote.validator_node_id) {
                Err("consensus vote references a missing Validator"@)
            } else {
                vote_signature_checked(ledger, vote)
            },
        }
    }
}

/// Checks that a vote is for the current height and round and from a validator of the committee.
pub fn verify_consensus_vote(ledger: &LedgerState, vote: &ConsensusVote) -> (r: Result<()>)
    ensures
        outcome(r) == vote_checked(ledger@, vote.deep_view()),
        r is Ok ==> ledger@.nodes.contains_key(vote.validator_node_id),
{
    proof {
        reveal(vote_checked);
    }
    if !text_same(vote.ledger_id.as_str(), ledger.ledger_id.as_str()) || vote.height != next_height(
        ledger,
    ) || vote.round != ledger.consensus.round {
        return Err(Error::msg("consensus vote has invalid height, round or Validator set"));
    }
    let hash = validator_set_hash(ledger, &ledger.consensus.active_validators)?;
    if !text_same(vote.validator_set_hash.as_str(), hash.as_str()) || !contains_id(
        &ledger.consensus.active_validators,
        vote.validator_node_id,
    ) {
        return Err(Error::msg("consensus vote has invalid height, round or Validator set"));
    }
    match ledger.nodes.get(&vote.validator_node_id) {
        None => Err(Error::msg("consensus vote references a missing Validator")),
        Some(validator) => verify_bytes(
            validator.owner_public_key.as_str(),
            vote_signing_text(vote).as_str().as_bytes(),
            vote.signature.as_str(),
        ),
    }
}

/// Whether a vote of the past is of this ledger and was signed by its validator.
pub open spec fn past_vote_checked(ledger: LedgerModel, vote: VoteModel) -> Outcome<()> {
    if vote.ledger_id != ledger.ledger_id {
        Err("historical consensus vote has the wrong ledger domain"@)
    } else if !ledger.nodes.contains_key(vote.validator_node_id) {
        Err("historical vote Validator is missing"@)
    } else {
        vote_signature_checked(ledger, vote)
    }
}

/// Checks a vote of the past.
pub fn verify_consensus_vote_historical(ledger: &LedgerState, vote: &ConsensusVote) -> (r: Result<
    (),
>)
    ensures
        outcome(r) == past_vote_checked(ledger@, vote.deep_view()),
{
    if !text_same(vote.ledger_id.as_str(), ledger.ledger_id.as_str()) {
        return Err(Error::msg("historical consensus vote has the wrong ledger domain"));
    }
    match ledger.nodes.get(&vote.validator_node_id) {
        None => Err(Error::msg("historical vote Validator is missing")),
        Some(validator) => verify_bytes(
            validator.owner_public_key.as_str(),
            vote_signing_text(vote).as_str().as_bytes(),
            vote.signature.as_str(),
        ),
    }
}

/// Which votes are for a block, or for none.
pub open spec fn votes_for(block_hash: Option<Seq<char>>) -> spec_fn(VoteModel) -> bool {
    |vote: VoteModel| vote.block_hash == block_hash
}

/// How many votes are for a block.
pub open spec fn vote_count(votes: Map<u64, VoteModel>, block_hash: Option<Seq<char>>) -> nat {
    values_where::<u64, VoteModel>(votes, votes_for(block_hash)).len()
}

/// Counts the votes for a block.
pub fn count_votes(votes: &Table<u64, ConsensusVote>, block_hash: &Option<String>) -> (r: usize)
    ensures
        r == vote_count(votes@, block_hash.deep_view()),
{
    let test = |vote: &ConsensusVote| -> (b: bool)
        ensures
            b == (vote.deep_view().block_hash == block_hash.deep_view()),
        { same_optional(&vote.block_hash, block_hash) };
    count_where(votes, Ghost(votes_for(block_hash.deep_view())), test)
}

/// Whether all votes are valid, or the first refusal.
pub open spec fn votes_checked(ledger: LedgerModel, votes: Seq<VoteModel>) -> Outcome<()>
    decreases votes.len(),
{
    if votes.len() == 0 {
        Ok(())
    } else {
        match vote_checked(ledger, votes[0]) {
            Err(refusal) => Err(refusal),
            Ok(_) => votes_checked(ledger, votes.drop_first()),
        }
    }
}

fn check_votes(ledger: &LedgerState, votes: &Vec<ConsensusVote>) -> (r: Result<()>)
    ensures
        outcome(r) == votes_checked(ledger@, votes.deep_view()),
{
    let ghost all = votes.deep_view();
    let mut i: usize = 0;
    assert(all.skip(0) =~= all);
    while i < votes.len()
        invariant
            i <= all.len(),
            all == votes.deep_view(),
            all.len() == votes@.len(),
            votes_checked(ledger@, all) == votes_checked(ledger@, all.skip(i as int)),
        decreases all.len() - i,
    {
        assert(all.skip(i as int)[0] == votes@[i as int].deep_view());
        assert(all.skip(i as int).drop_first() =~= all.skip(i + 1));
        verify_consensus_vote(ledger, &votes[i])?;
        i = i + 1;
    }
    Ok(())
}

/// The ledger after a block that was voted on has become final.
pub open spec fn block_committed(state: LedgerModel, block: BlockModel) -> LedgerModel {
    checkpoint_taken(
        voting_restarted(
            LedgerModel { blocks: state.blocks.push(block), ..state },
            clamped_u64(block.height + 1),
            None,
        ),
    )
}

/// The ledger after the votes on a block have been counted, and the block if it is final.
#[verifier::opaque]
pub open spec fn block_decided(ledger: LedgerModel, block_hash: Seq<char>) -> Outcome<
    (LedgerModel, Option<BlockModel>),
> {
    let matching = values_where::<u64, VoteModel>(
        ledger.consensus.precommits,
        votes_for(Some(block_hash)),
    );
    if matching.len() < quorum_of(ledger.consensus.active_validators.len()) {
        Ok((ledger, None))
    } else {
        match ledger.consensus.proposal {
            None => Err("PRECOMMIT quorum references an unknown proposal"@),
            Some(proposal) => if proposal.block.block_hash != block_hash {
                Err("PRECOMMIT quorum references an unknown proposal"@)
            } else {
                match ledger.proposal_post_state {
                    None => Err("proposal is missing its verified post-state"@),
                    Some(state) => match votes_checked(ledger, matching) {
                        Err(refusal) => Err(refusal),
                        Ok(_) => if ledger.finalized_checkpoint is None
                            && ledger.pending_operation_ids != proposal.block.operation_ids {
                            Err("pending operation order changed after the block proposal"@)
                        } else {
                            let block = BlockModel {
                                commit_signatures: matching,
                                ..proposal.block
                            };
                            Ok((block_committed(*state, block), Some(block)))
                        },
                    },
                }
            },
        }
    }
}

/// Makes the proposed block final if enough validators have agreed to it.
pub fn finalize_consensus_block_if_quorum(ledger: &mut LedgerState, block_hash: &str) -> (r: Result<
    Option<BlockRecord>,
>)
    ensures
        match block_decided(old(ledger)@, block_hash@) {
            Ok(next) => final(ledger)@ == next.0 && (r matches Ok(block) && block.deep_view()
                == next.1),
            Err(refusal) => final(ledger)@ == old(ledger)@ && (r matches Err(error) && error@
                == refusal),
        },
{
    proof {
        reveal(block_decided);
    }
    let quorum = consensus_quorum(ledger.consensus.active_validators.len());
    let wanted: Option<String> = Some(block_hash.to_owned());
    let test = |vote: &ConsensusVote| -> (b: bool)
        ensures
            b == (vote.deep_view().block_hash == wanted.deep_view()),
        { same_optional(&vote.block_hash, &wanted) };
    let matching = collect_where(
        &ledger.consensus.precommits,
        Ghost(votes_for(wanted.deep_view())),
        test,
    );
    if matching.len() < quorum {
        return Ok(None);
    }
    let mut block = match &ledger.consensus.proposal {
        None => {
            return Err(Error::msg("PRECOMMIT quorum references an unknown proposal"));
        },
        Some(proposal) => {
            if !text_same(proposal.block.block_hash.as_str(), block_hash) {
                return Err(Error::msg("PRECOMMIT quorum references an unknown proposal"));
            }
            proposal.block.replicate()
        },
    };
    let mut state = match &ledger.proposal_post_state {
        None => {
            return Err(Error::msg("proposal is missing its verified post-state"));
        },
        Some(state) => state.copy(),
    };
    check_votes(ledger, &matching)?;
    if finalized_state(ledger).is_none() && !same_texts(
        &ledger.pending_operation_ids,
        &block.operation_ids,
    ) {
        return Err(Error::msg("pending operation order changed after the block proposal"));
    }
    block.commit_signatures = matching;
    let ghost before = state.blocks.deep_view();
    state.blocks.push(block.replicate());
    assert(state.blocks.deep_view() =~= before.push(block.deep_view()));
    restart_voting(&mut state, block.height.saturating_add(1), None);
    update_finalized_checkpoint(&mut state);
    *ledger = state;
    Ok(Some(block))
}

/// The votes of a kind.
pub open spec fn votes_of(ledger: LedgerModel, vote_type: ConsensusVoteType) -> Map<
    u64,
    VoteModel,
> {
    match vote_type {
        ConsensusVoteType::Prevote => ledger.consensus.prevotes,
        ConsensusVoteType::Precommit => ledger.consensus.precommits,
    }
}

fn find_vote(ledger: &LedgerState, vote_type: ConsensusVoteType, node_id: u64) -> (r: Option<
    ConsensusVote,
>)
    ensures
        r.deep_view() == if votes_of(ledger@, vote_type).contains_key(node_id) {
            Some(votes_of(ledger@, vote_type)[node_id])
        } else {
            None
        },
{
    let votes = match vote_type {
        ConsensusVoteType::Prevote => &ledger.consensus.prevotes,
        ConsensusVoteType::Precommit => &ledger.consensus.precommits,
    };
    match votes.get(&node_id) {
        Some(vote) => Some(vote.replicate()),
        None => None,
    }
}

/// The ledger after a first vote has been counted.
pub open spec fn vote_counted(ledger: LedgerModel, vote: VoteModel, now: i64) -> LedgerModel {
    let consensus = ledger.consensus;
    match vote.vote_type {
        ConsensusVoteType::Prevote => {
            let prevotes = consensus.prevotes.insert(vote.validator_node_id, vote);
            LedgerModel {
                consensus: ConsensusModel {
                    prevotes,
                    round_started_at: if vote_count(prevotes, vote.block_hash) == quorum_of(
                        consensus.active_validators.len(),
                    ) {
                        Some(now)
                    } else {
                        consensus.round_started_at
                    },
                    ..consensus
                },
                ..ledger
            }
        },
        ConsensusVoteType::Precommit => LedgerModel {
            consensus: ConsensusModel {
                precommits: consensus.precommits.insert(vote.validator_node_id, vote),
                locks: match vote.block_hash {
                    Some(target) => consensus.locks.insert(vote.validator_node_id, target),
                    None => consensus.locks,
                },
                ..consensus
            },
            ..ledger
        },
    }
}

fn count_vote(ledger: &mut LedgerState, vote: &ConsensusVote, now: i64)
    ensures
        final(ledger)@ == vote_counted(old(ledger)@, vote.deep_view(), now),
{
    let node_id: u64 = vote.validator_node_id;
    match vote.vote_type {
        ConsensusVoteType::Prevote => {
            ledger.consensus.prevotes.insert(node_id, vote.replicate());
            let matching = count_votes(&ledger.consensus.prevotes, &vote.block_hash);
            if matching == consensus_quorum(ledger.consensus.active_validators.len()) {
                ledger.consensus.round_started_at = Some(now);
            }
        },
        ConsensusVoteType::Precommit => {
            if let Some(target) = &vote.block_hash {
                ledger.consensus.locks.insert(node_id, target.clone());
            }
            ledger.consensus.precommits.insert(node_id, vote.replicate());
        },
    }
}

/// The ledger after a vote has been counted, and the block if it has become final.
pub open spec fn vote_settled(ledger: LedgerModel, vote: VoteModel, now: i64) -> Outcome<
    (LedgerModel, Option<BlockModel>),
> {
    let counted = vote_counted(ledger, vote, now);
    match (vote.vote_type, vote.block_hash) {
        (ConsensusVoteType::Precommit, Some(target)) => block_decided(counted, target),
        _ => Ok((counted, None)),
    }
}

fn settle_vote(ledger: &mut LedgerState, vote: &ConsensusVote, now: i64) -> (r: Result<
    Option<BlockRecord>,
>)
    ensures
        match vote_settled(old(ledger)@, vote.deep_view(), now) {
            Ok(next) => final(ledger)@ == next.0 && (r matches Ok(block) && block.deep_view()
                == next.1),
            Err(refusal) => r matches Err(error) && error@ == refusal,
        },
{
    count_vote(ledger, vote, now);
    match vote.vote_type {
        ConsensusVoteType::Prevote => Ok(None),
        ConsensusVoteType::Precommit => match &vote.block_hash {
            None => Ok(None),
            Some(target) => finalize_consensus_block_if_quorum(ledger, target.as_str()),
        },
    }
}

/// The ledger after a validator has been caught with two votes: it loses its bond and its
/// candidacy, and the round begins without proposals and votes, since the state has changed.
pub open spec fn double_vote_punished(
    ledger: LedgerModel,
    first: VoteModel,
    vote: VoteModel,
    now: i64,
) -> LedgerModel {
    let node_id = vote.validator_node_id;
    votes_cleared(
        LedgerModel {
            consensus: ConsensusModel {
                double_sign_evidence: ledger.consensus.double_sign_evidence.push(
                    EvidenceModel {
                        validator_node_id: node_id,
                        height: vote.height,
                        round: vote.round,
                        vote_type: vote.vote_type,
                        first_vote: first,
                        conflicting_vote: vote,
                        recorded_at: now,
                    },
                ),
                ..ledger.consensus
            },
            nodes: ledger.nodes.insert(
                node_id,
                NodeModel {
                    validator_bond: 0,
                    validator_candidate_since: None,
                    validator_signature_rate_bps: 0,
                    ..ledger.nodes[node_id]
                },
            ),
            ..ledger
        },
    )
}

fn punish_double_vote(
    ledger: &mut LedgerState,
    first: ConsensusVote,
    vote: &ConsensusVote,
    now: i64,
)
    requires
        old(ledger)@.nodes.contains_key(vote.validator_node_id),
    ensures
        final(ledger)@ == double_vote_punished(
            old(ledger)@,
            first.deep_view(),
            vote.deep_view(),
            now,
        ),
{
    let evidence = DoubleSignEvidence {
        validator_node_id: vote.validator_node_id,
        height: vote.height,
        round: vote.round,
        vote_type: vote.vote_type,
        first_vote: first,
        conflicting_vote: vote.replicate(),
        recorded_at: now,
    };
    let ghost before = ledger.consensus.double_sign_evidence.deep_view();
    ledger.consensus.double_sign_evidence.push(evidence);
    assert(ledger.consensus.double_sign_evidence.deep_view() =~= before.push(
        evidence.deep_view(),
    ));
    if let Some(validator) = ledger.nodes.get_mut(&vote.validator_node_id) {
        validator.validator_bond = 0;
        validator.validator_candidate_since = None;
        validator.validator_signature_rate_bps = 0;
    }
    clear_votes(ledger);
}

/// What is answered to a vote.
pub open spec fn vote_answer(
    accepted: bool,
    duplicate: bool,
    caught: bool,
    block: Option<BlockModel>,
) -> ConsensusSubmissionViewModel {
    ConsensusSubmissionViewModel {
        accepted,
        duplicate,
        double_sign_detected: caught,
        finalized_block: block,
    }
}

/// The ledger after a vote has come in, and what is answered.
pub open spec fn vote_submitted(ledger: LedgerModel, vote: VoteModel, now: i64) -> Outcome<
    (LedgerModel, ConsensusSubmissionViewModel),
> {
    let votes = votes_of(ledger, vote.vote_type);
    match multi_mode_checked(ledger, now) {
        Err(refusal) => Err(refusal),
        Ok(_) => if !(-60 <= now - vote.timestamp <= 60) {
            Err("consensus vote timestamp is stale"@)
        } else {
            match vote_checked(ledger, vote) {
                Err(refusal) => Err(refusal),
                Ok(_) => if votes.contains_key(vote.validator_node_id) {
                    let first = votes[vote.validator_node_id];
                    if first.block_hash == vote.block_hash {
                        Ok((ledger, vote_answer(true, true, false, None)))
                    } else {
                        Ok(
                            (
                                double_vote_punished(ledger, first, vote, now),
                                vote_answer(false, false, true, None),
                            ),
                        )
                    }
                } else {
                    match vote_settled(ledger, vote, now) {
                        Err(refusal) => Err(refusal),
                        Ok(settled) => Ok(
                            (settled.0, vote_answer(true, false, false, settled.1)),
                        ),
                    }
                },
            }
        },
    }
}

/// Takes a vote in. A refused vote leaves the ledger as it was.
pub fn submit_consensus_vote(ledger: &mut LedgerState, vote: &ConsensusVote, now: i64) -> (r: Result<
    ConsensusSubmissionView,
>)
    ensures
        match vote_submitted(old(ledger)@, vote.deep_view(), now) {
            Ok(next) => final(ledger)@ == next.0 && (r matches Ok(view) && view.deep_view()
                == next.1),
            Err(refusal) => final(ledger)@ == old(ledger)@ && (r matches Err(error) && error@
                == refusal),
        },
{
    ensure_multi_validator_mode(ledger, now)?;
    let age: i64 = saturating_sub_i64(now, vote.timestamp);
    if age > 60 || age < -60 {
        return Err(Error::msg("consensus vote timestamp is stale"));
    }
    verify_consensus_vote(ledger, vote)?;
    if let Some(first) = find_vote(ledger, vote.vote_type, vote.validator_node_id) {
        if same_optional(&first.block_hash, &vote.block_hash) {
            return Ok(
                ConsensusSubmissionView {
                    accepted: true,
                    duplicate: true,
                    double_sign_detected: false,
                    finalized_block: None,
                },
            );
        }
        punish_double_vote(ledger, first, vote, now);
        return Ok(
            ConsensusSubmissionView {
                accepted: false,
                duplicate: false,
                double_sign_detected: true,
                finalized_block: None,
            },
        );
    }
    let mut next = ledger.copy();
    let finalized_block = settle_vote(&mut next, vote, now)?;
    *ledger = next;
    Ok(
        ConsensusSubmissionView {
            accepted: true,
            duplicate: false,
            double_sign_detected: false,
            finalized_block,
        },
    )
}

/// Whether a proposal is the value that a quorum has agreed to in an earlier round.
pub open spec fn proposes_valid_value(ledger: LedgerModel) -> bool {
    match (ledger.consensus.valid_proposal, ledger.consensus.proposal) {
        (Some(valid), Some(current)) => value_id(valid.block) == value_id(current.block),
        _ => false,
    }
}

fn is_valid_value(ledger: &LedgerState) -> (r: bool)
    ensures
        r == proposes_valid_value(ledger@),
{
    match (&ledger.consensus.valid_proposal, &ledger.consensus.proposal) {
        (Some(valid), Some(current)) => {
            let one = consensus_value_id(&valid.block);
            let other = consensus_value_id(&current.block);
            text_same(one.as_str(), other.as_str())
        },
        _ => false,
    }
}

/// Whether a validator may vote for a block: it is the one that is proposed, the validator is not
/// locked on another, and for the second vote enough validators have cast the first.
pub open spec fn may_vote(
    ledger: LedgerModel,
    node_id: u64,
    vote_type: ConsensusVoteType,
    block_hash: Option<Seq<char>>,
) -> Outcome<()> {
    match target_checked(ledger, block_hash) {
        Err(refusal) => Err(refusal),
        Ok(_) => if ledger.consensus.locks.contains_key(node_id) && block_hash != Some(
            ledger.consensus.locks[node_id],
        ) && !(block_hash is Some && proposes_valid_value(ledger)) {
            Err(
                "Validator Node "@ + decimal(node_id as nat) + " is locked on "@
                    + ledger.consensus.locks[node_id] + " and cannot vote for another value"@,
            )
        } else if vote_type == ConsensusVoteType::Precommit && vote_count(
            ledger.consensus.prevotes,
            block_hash,
        ) < quorum_of(ledger.consensus.active_validators.len()) {
            Err("PRECOMMIT requires more than two-thirds matching PREVOTEs"@)
        } else {
            Ok(())
        },
    }
}

/// Whether a vote is for the block that is proposed.
pub open spec fn target_checked(ledger: LedgerModel, block_hash: Option<Seq<char>>) -> Outcome<()> {
    match block_hash {
        None => Ok(()),
        Some(target) => match ledger.consensus.proposal {
            None => Err("cannot vote for a block without a proposal"@),
            Some(proposal) => if proposal.block.block_hash != target {
                Err("vote block hash does not match the current proposal"@)
            } else {
                stored_checked(ledger, proposal.block)
            },
        },
    }
}

fn check_target(ledger: &LedgerState, block_hash: &Option<String>) -> (r: Result<()>)
    ensures
        outcome(r) == target_checked(ledger@, block_hash.deep_view()),
{
    match block_hash {
        None => Ok(()),
        Some(target) => match &ledger.consensus.proposal {
            None => Err(Error::msg("cannot vote for a block without a proposal")),
            Some(proposal) => {
                if !text_same(proposal.block.block_hash.as_str(), target.as_str()) {
                    return Err(Error::msg("vote block hash does not match the current proposal"));
                }
                verify_stored_consensus_proposal(ledger, &proposal.block)
            },
        },
    }
}

fn check_vote_allowed(
    ledger: &LedgerState,
    node_id: u64,
    vote_type: ConsensusVoteType,
    block_hash: &Option<String>,
) -> (r: Result<()>)
    ensures
        outcome(r) == may_vote(ledger@, node_id, vote_type, block_hash.deep_view()),
{
    check_target(ledger, block_hash)?;
    if let Some(locked) = ledger.consensus.locks.get(&node_id) {
        let same_lock = match block_hash {
            Some(target) => text_same(target.as_str(), locked.as_str()),
            None => false,
        };
        if !same_lock && !(block_hash.is_some() && is_valid_value(ledger)) {
            return Err(
                Error::owned(
                    join5(
                        "Validator Node ",
                        u64_text(node_id).as_str(),
                        " is locked on ",
                        locked.as_str(),
                        " and cannot vote for another value",
                    ),
                ),
            );
        }
    }
    if matches!(vote_type, ConsensusVoteType::Precommit) {
        let prevotes = count_votes(&ledger.consensus.prevotes, block_hash);
        if prevotes < consensus_quorum(ledger.consensus.active_validators.len()) {
            return Err(Error::msg("PRECOMMIT requires more than two-thirds matching PREVOTEs"));
        }
    }
    Ok(())
}

/// The vote that a local validator casts, with its signature.
pub open spec fn vote_drafted(
    ledger: LedgerModel,
    config: NodeConfigModel,
    owner: KeyModel,
    vote_type: ConsensusVoteType,
    block_hash: Option<Seq<char>>,
    signature: Seq<char>,
    now: i64,
) -> Outcome<VoteModel> {
    match registered_id(config) {
        Err(refusal) => Err(refusal),
        Ok(node_id) => match multi_mode_checked(ledger, now) {
            Err(refusal) => Err(refusal),
            Ok(_) => match identity_checked(ledger, node_id, owner) {
                Err(refusal) => Err(refusal),
                Ok(_) => match set_hash(
                    ledger,
                    ledger.epoch_number,
                    ledger.consensus.active_validators,
                ) {
                    Err(refusal) => Err(refusal),
                    Ok(validator_set_hash) => match may_vote(
                        ledger,
                        node_id,
                        vote_type,
                        block_hash,
                    ) {
                        Err(refusal) => Err(refusal),
                        Ok(_) => Ok(
                            VoteModel {
                                ledger_id: ledger.ledger_id,
                                height: chain_next_height(ledger),
                                round: ledger.consensus.round,
                                vote_type,
                                block_hash,
                                validator_set_hash,
                                validator_node_id: node_id,
                                timestamp: now,
                                signature,
                            },
                        ),
                    },
                },
            },
        },
    }
}

/// Makes the vote that a local validator casts, with its signature over `vote_signing_text` of it.
pub fn draft_consensus_vote(
    ledger: &LedgerState,
    config: &LocalNodeConfig,
    owner: &KeyIdentity,
    vote_type: ConsensusVoteType,
    block_hash: &Option<String>,
    signature: &str,
    now: i64,
) -> (r: Result<ConsensusVote>)
    ensures
        outcome(r) == vote_drafted(
            ledger@,
            config.deep_view(),
            owner.deep_view(),
            vote_type,
            block_hash.deep_view(),
            signature@,
            now,
        ),
{
    let node_id = local_node_id(config)?;
    ensure_multi_validator_mode(ledger, now)?;
    ensure_active_validator_identity(ledger, node_id, owner)?;
    let hash = validator_set_hash(ledger, &ledger.consensus.active_validators)?;
    check_vote_allowed(ledger, node_id, vote_type, block_hash)?;
    Ok(
        ConsensusVote {
            ledger_id: ledger.ledger_id.clone(),
            height: next_height(ledger),
            round: ledger.consensus.round,
            vote_type,
            block_hash: block_hash.replicate(),
            validator_set_hash: hash,
            validator_node_id: node_id,
            timestamp: now,
            signature: signature.to_owned(),
        },
    )
}

/// How the kind of a vote is called in a refusal.
pub open spec fn kind_text(vote_type: ConsensusVoteType) -> Seq<char> {
    match vote_type {
        ConsensusVoteType::Prevote => "Prevote"@,
        ConsensusVoteType::Precommit => "Precommit"@,
    }
}

fn kind_name(vote_type: ConsensusVoteType) -> (r: &'static str)
    ensures
        r@ == kind_text(vote_type),
{
    match vote_type {
        ConsensusVoteType::Prevote => "Prevote",
        ConsensusVoteType::Precommit => "Precommit",
    }
}

/// The ledger after a local validator has voted, its vote, and the block if it has become final.
pub open spec fn vote_cast(
    ledger: LedgerModel,
    config: NodeConfigModel,
    owner: KeyModel,
    vote_type: ConsensusVoteType,
    block_hash: Option<Seq<char>>,
    signature: Seq<char>,
    now: i64,
) -> Outcome<(LedgerModel, VoteModel, Option<BlockModel>)> {
    let votes = votes_of(ledger, vote_type);
    match vote_drafted(ledger, config, owner, vote_type, block_hash, signature, now) {
        Err(refusal) => Err(refusal),
        Ok(vote) => match vote_checked(ledger, vote) {
            Err(refusal) => Err(refusal),
            Ok(_) => if votes.contains_key(vote.validator_node_id) {
                if votes[vote.validator_node_id].block_hash == block_hash {
                    Ok((ledger, votes[vote.validator_node_id], None))
                } else {
                    Err(
                        "Validator Node "@ + decimal(vote.validator_node_id as nat)
                            + " attempted a conflicting "@ + kind_text(vote_type) + " at height "@
                            + decimal(vote.height as nat) + " round "@ + decimal(vote.round as nat),
                    )
                }
            } else {
                match vote_settled(ledger, vote, now) {
                    Err(refusal) => Err(refusal),
                    Ok(settled) => Ok((settled.0, vote, settled.1)),
                }
            },
        },
    }
}

/// Casts the vote of a local validator. A refused vote leaves the ledger as it was.
pub fn cast_consensus_vote(
    ledger: &mut LedgerState,
    config: &LocalNodeConfig,
    owner: &KeyIdentity,
    vote_type: ConsensusVoteType,
    block_hash: &Option<String>,
    signature: &str,
    now: i64,
) -> (r: Result<(ConsensusVote, Option<BlockRecord>)>)
    ensures
        match vote_cast(
            old(ledger)@,
            config.deep_view(),
            owner.deep_view(),
            vote_type,
            block_hash.deep_view(),
            signature@,
            now,
        ) {
            Ok(next) => final(ledger)@ == next.0 && (r matches Ok(done) && done.0.deep_view()
                == next.1 && done.1.deep_view() == next.2),
            Err(refusal) => final(ledger)@ == old(ledger)@ && (r matches Err(error) && error@
                == refusal),
        },
{
    let vote = draft_consensus_vote(
        ledger,
        config,
        owner,
        vote_type,
        block_hash,
        signature,
        now,
    )?;
    verify_consensus_vote(ledger, &vote)?;
    if let Some(existing) = find_vote(ledger, vote_type, vote.validator_node_id) {
        if same_optional(&existing.block_hash, block_hash) {
            return Ok((existing, None));
        }
        let mut text = join5(
            "Validator Node ",
            u64_text(vote.validator_node_id).as_str(),
            " attempted a conflicting ",
            kind_name(vote_type),
            " at height ",
        );
        text.append(u64_text(vote.height).as_str());
        text.append(" round ");
        text.append(u32_text(vote.round).as_str());
        return Err(Error::owned(text));
    }
    let mut next = ledger.copy();
    let finalized = settle_vote(&mut next, &vote, now)?;
    *ledger = next;
    Ok((vote, finalized))
}

/// By how much the time of a round grows with the rounds before it.
pub open spec fn round_multiplier(round: u32) -> int {
    if round == 0 {
        1
    } else if round == 1 {
        2
    } else if round == 2 {
        4
    } else if round == 3 {
        8
    } else if round == 4 {
        16
    } else {
        32
    }
}

/// How long a round lasts at least before it can be given up.
pub open spec fn round_timeout(ledger: LedgerModel) -> i64 {
    let seconds = ledger.settings.consensus_round_timeout_seconds * round_multiplier(
        ledger.consensus.round,
    );
    least(clamped_i64(seconds) as int, 60) as i64
}

fn find_round_timeout(ledger: &LedgerState) -> (r: i64)
    ensures
        r == round_timeout(ledger@),
{
    let round: u32 = ledger.consensus.round;
    let multiplier: i128 = if round == 0 {
        1
    } else if round == 1 {
        2
    } else if round == 2 {
        4
    } else if round == 3 {
        8
    } else if round == 4 {
        16
    } else {
        32
    };
    let seconds: i128 = ledger.settings.consensus_round_timeout_seconds as i128 * multiplier;
    if seconds > 60 {
        60
    } else if seconds < i64::MIN as i128 {
        i64::MIN
    } else {
        seconds as i64
    }
}

/// The ledger after a round has been given up. A proposal that enough validators have voted for
/// remains the value to propose.
pub open spec fn round_advanced(ledger: LedgerModel, now: i64) -> Outcome<LedgerModel> {
    let consensus = ledger.consensus;
    let started = match chain_timer_start(ledger, consensus.round_started_at) {
        Some(at) => at,
        None => now,
    };
    match multi_mode_checked(ledger, now) {
        Err(refusal) => Err(refusal),
        Ok(_) => if clamped_i64(now - started) < round_timeout(ledger) {
            Err(
                "consensus round timeout has not elapsed; requires "@ + signed_decimal(
                    round_timeout(ledger) as int,
                ) + "s"@,
            )
        } else {
            let agreed = proposal_agreed(ledger);
            Ok(
                LedgerModel {
                    consensus: ConsensusModel {
                        valid_proposal: if agreed {
                            consensus.proposal
                        } else {
                            consensus.valid_proposal
                        },
                        valid_round: if agreed {
                            Some(consensus.round)
                        } else {
                            consensus.valid_round
                        },
                        round: if consensus.round == u32::MAX {
                            u32::MAX
                        } else {
                            (consensus.round + 1) as u32
                        },
                        round_started_at: Some(now),
                        proposal: None,
                        prevotes: Map::empty(),
                        precommits: Map::empty(),
                        ..consensus
                    },
                    valid_post_state: if agreed {
                        ledger.proposal_post_state
                    } else {
                        ledger.valid_post_state
                    },
                    proposal_post_state: None,
                    ..ledger
                },
            )
        },
    }
}

/// Whether enough validators have voted for what is proposed.
pub open spec fn proposal_agreed(ledger: LedgerModel) -> bool {
    ledger.consensus.proposal matches Some(proposal) && vote_count(
        ledger.consensus.prevotes,
        Some(proposal.block.block_hash),
    ) >= quorum_of(ledger.consensus.active_validators.len())
}

fn is_agreed(ledger: &LedgerState) -> (r: bool)
    ensures
        r == proposal_agreed(ledger@),
{
    match &ledger.consensus.proposal {
        None => false,
        Some(proposal) => {
            let wanted: Option<String> = Some(proposal.block.block_hash.clone());
            let matching = count_votes(&ledger.consensus.prevotes, &wanted);
            matching >= consensus_quorum(ledger.consensus.active_validators.len())
        },
    }
}

/// Gives a round up that has lasted long enough.
pub fn advance_consensus_round(ledger: &mut LedgerState, now: i64) -> (r: Result<u32>)
    ensures
        match round_advanced(old(ledger)@, now) {
            Ok(next) => final(ledger)@ == next && (r matches Ok(round) && round
                == next.consensus.round),
            Err(refusal) => final(ledger)@ == old(ledger)@ && (r matches Err(error) && error@
                == refusal),
        },
{
    ensure_multi_validator_mode(ledger, now)?;
    let started: i64 = match consensus_timer_started_at(
        ledger,
        ledger.consensus.round_started_at,
    ) {
        Some(at) => at,
        None => now,
    };
    let timeout = find_round_timeout(ledger);
    if saturating_sub_i64(now, started) < timeout {
        return Err(
            Error::owned(
                join3(
                    "consensus round timeout has not elapsed; requires ",
                    i64_text(timeout).as_str(),
                    "s",
                ),
            ),
        );
    }
    let ghost before = ledger@;
    if is_agreed(ledger) {
        let round: u32 = ledger.consensus.round;
        let proposal: Option<ConsensusProposal> = match &ledger.consensus.proposal {
            Some(proposal) => Some(proposal.replicate()),
            None => None,
        };
        let state: Option<Box<LedgerState>> = match &ledger.proposal_post_state {
            Some(state) => Some(Box::new(state.copy())),
            None => None,
        };
        ledger.consensus.valid_proposal = proposal;
        ledger.valid_post_state = state;
        ledger.consensus.valid_round = Some(round);
    }
    ledger.consensus.round = ledger.consensus.round.saturating_add(1);
    ledger.consensus.round_started_at = Some(now);
    ledger.consensus.proposal = None;
    ledger.proposal_post_state = None;
    ledger.consensus.prevotes = Table::new();
    ledger.consensus.precommits = Table::new();
    Ok(ledger.consensus.round)
}

/// The ledger after the timer of the round has been started again, unless a block is proposed.
pub open spec fn timer_restarted(ledger: LedgerModel, now: i64) -> LedgerModel {
    if ledger.consensus.proposal is Some {
        ledger
    } else {
        LedgerModel {
            consensus: ConsensusModel {
                round_started_at: chain_timer_start(ledger, Some(now)),
                ..ledger.consensus
            },
            ..ledger
        }
    }
}

/// Starts the timer of the round again, unless a block is proposed.
pub fn restart_consensus_timer(ledger: &mut LedgerState, now: i64)
    ensures
        final(ledger)@ == timer_restarted(old(ledger)@, now),
{
    if ledger.consensus.proposal.is_none() {
        let started = consensus_timer_started_at(ledger, Some(now));
        ledger.consensus.round_started_at = started;
    }
}

/// The committee as it is shown.
pub open spec fn committee_shown(ledger: LedgerModel, now: i64) -> Outcome<
    ValidatorCommitteeViewModel,
> {
    let active = ledger.consensus.active_validators;
    let interval = ledger.settings.validator_rotation_interval_epochs;
    match set_hash(ledger, ledger.epoch_number, active) {
        Err(refusal) => Err(refusal),
        Ok(validator_set_hash) => Ok(
            ValidatorCommitteeViewModel {
                epoch: ledger.epoch_number,
                validator_set_hash,
                active_validator_ids: active,
                candidate_node_ids: candidate_ids(ledger, now),
                max_active_validators: ledger.settings.max_active_validators,
                max_rotations_per_selection: ledger.settings.max_validator_rotations,
                rotation_interval_epochs: interval,
                last_selection_epoch: ledger.consensus.last_selection_epoch,
                next_scheduled_rotation_epoch: match ledger.consensus.last_selection_epoch {
                    None => ledger.epoch_number,
                    Some(epoch) => clamped_u64(
                        epoch + if interval == 0 {
                            1
                        } else {
                            interval as int
                        },
                    ),
                },
                quorum: quorum_of(active.len()) as usize,
                next_height: chain_next_height(ledger),
                current_round: ledger.consensus.round,
                proposer_node_id: proposer_of(
                    active,
                    chain_next_height(ledger),
                    ledger.consensus.round,
                ),
            },
        ),
    }
}

/// Shows the committee.
pub fn validator_committee(ledger: &LedgerState, now: i64) -> (r: Result<ValidatorCommitteeView>)
    ensures
        outcome(r) == committee_shown(ledger@, now),
{
    let candidates = validator_candidate_node_ids(ledger, now);
    let active = copy_values(&ledger.consensus.active_validators);
    let hash = validator_set_hash(ledger, &active)?;
    let height = next_height(ledger);
    let proposer = consensus_proposer(&active, height, ledger.consensus.round);
    let interval: u64 = if ledger.settings.validator_rotation_interval_epochs == 0 {
        1
    } else {
        ledger.settings.validator_rotation_interval_epochs as u64
    };
    let next_scheduled_rotation_epoch: u64 = match ledger.consensus.last_selection_epoch {
        None => ledger.epoch_number,
        Some(epoch) => epoch.saturating_add(interval),
    };
    let quorum = consensus_quorum(active.len());
    Ok(
        ValidatorCommitteeView {
            epoch: ledger.epoch_number,
            validator_set_hash: hash,
            active_validator_ids: active,
            candidate_node_ids: candidates,
            max_active_validators: ledger.settings.max_active_validators,
            max_rotations_per_selection: ledger.settings.max_validator_rotations,
            rotation_interval_epochs: ledger.settings.validator_rotation_interval_epochs,
            last_selection_epoch: ledger.consensus.last_selection_epoch,
            next_scheduled_rotation_epoch,
            quorum,
            next_height: height,
            current_round: ledger.consensus.round,
            proposer_node_id: proposer,
        },
    )
}

/// The round of voting as it is shown. Where one node makes the blocks there is none.
pub open spec fn consensus_shown(ledger: LedgerModel, now: i64) -> Outcome<
    ConsensusStatusViewModel,
> {
    let consensus = ledger.consensus;
    let active = consensus.active_validators;
    let height = chain_next_height(ledger);
    match set_hash(ledger, ledger.epoch_number, active) {
        Err(refusal) => Err(refusal),
        Ok(validator_set_hash) => if committee_ready(ledger, now) {
            Ok(
                ConsensusStatusViewModel {
                    mode: "MULTI_VALIDATOR"@,
                    height,
                    round: consensus.round,
                    round_started_at: chain_timer_start(ledger, consensus.round_started_at),
                    next_block_at: chain_next_block_at(ledger),
                    proposer_node_id: proposer_of(active, height, consensus.round),
                    proposal_block_hash: match consensus.proposal {
                        Some(proposal) => Some(proposal.block.block_hash),
                        None => None,
                    },
                    prevote_count: consensus.prevotes.len() as usize,
                    precommit_count: consensus.precommits.len() as usize,
                    prevote_validator_ids: ordered::<u64>(consensus.prevotes.dom()),
                    precommit_validator_ids: ordered::<u64>(consensus.precommits.dom()),
                    quorum: quorum_of(active.len()) as usize,
                    active_validator_ids: active,
                    validator_set_hash,
                    locked_validators: consensus.locks,
                },
            )
        } else {
            Ok(
                ConsensusStatusViewModel {
                    mode: "NODE1_SINGLE_PRODUCER"@,
                    height,
                    round: consensus.round,
                    round_started_at: None,
                    next_block_at: None,
                    proposer_node_id: None,
                    proposal_block_hash: None,
                    prevote_count: 0,
                    precommit_count: 0,
                    prevote_validator_ids: Seq::empty(),
                    precommit_validator_ids: Seq::empty(),
                    quorum: 0,
                    active_validator_ids: active,
                    validator_set_hash,
                    locked_validators: consensus.locks,
                },
            )
        },
    }
}

/// The keys of a table of votes.
fn list_voters(votes: &Table<u64, ConsensusVote>) -> (r: Vec<u64>)
    ensures
        r@ == ordered::<u64>(votes@.dom()),
{
    let ghost keys = votes.keys();
    let mut out: Vec<u64> = Vec::new();
    let mut i: usize = 0;
    while i < votes.len()
        invariant
            i <= keys.len(),
            keys == votes.keys(),
            out@ == keys.take(i as int),
        decreases keys.len() - i,
    {
        out.push(*votes.key_at(i));
        i = i + 1;
        assert(out@ =~= keys.take(i as int));
    }
    assert(out@ =~= keys);
    out
}

/// Shows the round of voting.
pub fn consensus_status(ledger: &LedgerState, now: i64) -> (r: Result<ConsensusStatusView>)
    ensures
        outcome(r) == consensus_shown(ledger@, now),
{
    let active = copy_values(&ledger.consensus.active_validators);
    let height = next_height(ledger);
    let hash = validator_set_hash(ledger, &active)?;
    let locked_validators = ledger.consensus.locks.replicate();
    if !multi_validator_ready(ledger, now) {
        let none: Vec<u64> = Vec::new();
        assert(none@ =~= Seq::<u64>::empty());
        let no_others: Vec<u64> = Vec::new();
        assert(no_others@ =~= Seq::<u64>::empty());
        return Ok(
            ConsensusStatusView {
                mode: "NODE1_SINGLE_PRODUCER".to_owned(),
                height,
                round: ledger.consensus.round,
                round_started_at: None,
                next_block_at: None,
                proposer_node_id: None,
                proposal_block_hash: None,
                prevote_count: 0,
                precommit_count: 0,
                prevote_validator_ids: none,
                precommit_validator_ids: no_others,
                quorum: 0,
                active_validator_ids: active,
                validator_set_hash: hash,
                locked_validators,
            },
        );
    }
    let proposer = consensus_proposer(&active, height, ledger.consensus.round);
    let quorum = consensus_quorum(active.len());
    Ok(
        ConsensusStatusView {
            mode: "MULTI_VALIDATOR".to_owned(),
            height,
            round: ledger.consensus.round,
            round_started_at: consensus_timer_started_at(
                ledger,
                ledger.consensus.round_started_at,
            ),
            next_block_at: next_block_at(ledger),
            proposer_node_id: proposer,
            proposal_block_hash: match &ledger.consensus.proposal {
                Some(proposal) => Some(proposal.block.block_hash.clone()),
                None => None,
            },
            prevote_count: ledger.consensus.prevotes.len(),
            precommit_count: ledger.consensus.precommits.len(),
            prevote_validator_ids: list_voters(&ledger.consensus.prevotes),
            precommit_validator_ids: list_voters(&ledger.consensus.precommits),
            quorum,
            active_validator_ids: active,
            validator_set_hash: hash,
            locked_validators,
        },
    )
}

/// A block becomes final only with the votes of a quorum, and then it is the last of the chain.
pub proof fn final_block_has_a_quorum(ledger: LedgerModel, vote: VoteModel, now: i64)
    ensures
        vote_submitted(ledger, vote, now) matches Ok(next) ==> (next.1.finalized_block matches Some(
            block,
        ) ==> {
            &&& block.commit_signatures.len() >= quorum_of(ledger.consensus.active_validators.len())
            &&& next.0.blocks.len() > 0 && next.0.blocks.last() == block
            &&& ledger.consensus.proposal matches Some(proposal) && proposal.block.block_hash
                == block.block_hash
            &&& next.0.finalized_checkpoint is Some
            &&& next.0.consensus.proposal is None && next.0.consensus.round == 0
        }),
{
    reveal(block_decided);
}

/// A validator that votes twice for different blocks loses its bond and is no candidate any more.
pub proof fn double_vote_costs_the_bond(ledger: LedgerModel, vote: VoteModel, now: i64)
    requires
        votes_of(ledger, vote.vote_type).contains_key(vote.validator_node_id),
        votes_of(ledger, vote.vote_type)[vote.validator_node_id].block_hash != vote.block_hash,
    ensures
        vote_submitted(ledger, vote, now) matches Ok(next) ==> {
            &&& next.1.double_sign_detected && !next.1.accepted
            &&& next.0.nodes[vote.validator_node_id].validator_bond == 0
            &&& next.0.nodes[vote.validator_node_id].validator_candidate_since is None
            &&& next.0.consensus.proposal is None
            &&& next.0.blocks == ledger.blocks
        },
{
}

/// A local validator that is locked on a block does not vote for another one, unless the one that
/// is proposed is the value on which a quorum agreed in an earlier round.
pub proof fn locks_are_kept(
    ledger: LedgerModel,
    config: NodeConfigModel,
    owner: KeyModel,
    vote_type: ConsensusVoteType,
    block_hash: Option<Seq<char>>,
    signature: Seq<char>,
    now: i64,
)
    requires
        config.node_id matches Some(node_id) && ledger.consensus.locks.contains_key(node_id)
            && block_hash != Some(ledger.consensus.locks[node_id]),
        block_hash is None || !proposes_valid_value(ledger),
    ensures
        vote_cast(ledger, config, owner, vote_type, block_hash, signature, now) is Err,
{
}

/// A vote counts for the block that it names and for no other, and each validator once: one more vote
/// for a block is one more for that block, and leaves the count for every other as it was.
pub proof fn votes_count_for_their_block(
    votes: Map<u64, VoteModel>,
    voter: u64,
    vote: VoteModel,
    block_hash: Option<Seq<char>>,
)
    requires
        votes.dom().finite(),
        !votes.contains_key(voter),
    ensures
        vote_count(votes.insert(voter, vote), block_hash) == vote_count(votes, block_hash)
            + if vote.block_hash == block_hash {
            1int
        } else {
            0
        },
        vote_count(Map::<u64, VoteModel>::empty(), block_hash) == 0,
{
    crate::search::values_of_one_more::<u64, VoteModel>(votes, voter, vote, votes_for(block_hash));
}

/// Votes are taken over only from members of the committee, for the next block of this ledger and the
/// round under way, within a minute, and signed with the key of the member's owner. A first vote is
/// kept as it came; one that comes again changes nothing.
pub proof fn votes_are_of_the_round(ledger: LedgerModel, vote: VoteModel, now: i64)
    requires
        vote_submitted(ledger, vote, now) is Ok,
    ensures
        ({
            let (after, answer) = vote_submitted(ledger, vote, now)->Ok_0;
            let voter = vote.validator_node_id;
            let votes = votes_of(ledger, vote.vote_type);
            &&& vote.ledger_id == ledger.ledger_id
            &&& vote.height == chain_next_height(ledger)
            &&& vote.round == ledger.consensus.round
            &&& now - 60 <= vote.timestamp <= now + 60
            &&& ledger.consensus.active_validators.contains(voter)
            &&& signature_checked(
                ledger.nodes[voter].owner_public_key,
                encode_utf8(vote_signed(vote)),
                vote.signature,
            ) is Ok
            &&& votes.contains_key(voter) && votes[voter].block_hash == vote.block_hash ==> after
                == ledger && answer.duplicate && answer.accepted
            &&& !votes.contains_key(voter) ==> answer.accepted && !answer.duplicate
                && !answer.double_sign_detected
            &&& !votes.contains_key(voter) && vote.vote_type == ConsensusVoteType::Prevote ==> {
                &&& after.consensus.prevotes == ledger.consensus.prevotes.insert(voter, vote)
                &&& after.consensus.precommits == ledger.consensus.precommits
                &&& after.consensus.locks == ledger.consensus.locks
                &&& answer.finalized_block is None
                &&& after.blocks == ledger.blocks
            }
        }),
{
    reveal(vote_checked);
}

/// A precommit for a block locks its validator on that block. As soon as more than two thirds of the
/// committee have precommitted to the block that is proposed it is final, and not before.
pub proof fn precommits_decide_by_quorum(
    ledger: LedgerModel,
    vote: VoteModel,
    target: Seq<char>,
    now: i64,
)
    requires
        vote.vote_type == ConsensusVoteType::Precommit,
        vote.block_hash == Some(target),
        !ledger.consensus.precommits.contains_key(vote.validator_node_id),
        vote_submitted(ledger, vote, now) is Ok,
    ensures
        ({
            let (after, answer) = vote_submitted(ledger, vote, now)->Ok_0;
            let voter = vote.validator_node_id;
            let together = vote_count(
                ledger.consensus.precommits.insert(voter, vote),
                Some(target),
            );
            let members = ledger.consensus.active_validators.len();
            &&& members > 0 ==> (answer.finalized_block is Some <==> 3 * together > 2 * members)
            &&& answer.finalized_block is None ==> {
                &&& after.consensus.precommits == ledger.consensus.precommits.insert(voter, vote)
                &&& after.consensus.locks == ledger.consensus.locks.insert(voter, target)
                &&& after.consensus.prevotes == ledger.consensus.prevotes
                &&& after.blocks == ledger.blocks
            }
            &&& answer.finalized_block matches Some(block) ==> block.block_hash == target
                && block.commit_signatures.len() == together
        }),
{
    reveal(block_decided);
}

/// A validator precommits only to a block for which more than two thirds of the committee have cast
/// their prevotes, and only to the block that is proposed.
pub proof fn precommits_need_prevotes(
    ledger: LedgerModel,
    config: NodeConfigModel,
    owner: KeyModel,
    block_hash: Option<Seq<char>>,
    signature: Seq<char>,
    now: i64,
)
    requires
        vote_drafted(
            ledger,
            config,
            owner,
            ConsensusVoteType::Precommit,
            block_hash,
            signature,
            now,
        ) is Ok,
    ensures
        3 * vote_count(ledger.consensus.prevotes, block_hash) > 2
            * ledger.consensus.active_validators.len(),
        block_hash matches Some(target) ==> (ledger.consensus.proposal matches Some(proposal)
            && proposal.block.block_hash == target),
{
}

/// A round is given up only when its time is over: as many seconds as the settings name, twice as long
/// with every round up to the fifth, but at most a minute, counted from its beginning and not from
/// before the next block may be made. The next round has no proposal and no votes and keeps the locks;
/// a proposal that more than two thirds of the committee have voted for stays the value to propose.
pub proof fn rounds_last_their_time(ledger: LedgerModel, now: i64)
    requires
        round_advanced(ledger, now) is Ok,
        0 <= ledger.settings.consensus_round_timeout_seconds <= 0x1_0000_0000,
    ensures
        ({
            let after = round_advanced(ledger, now)->Ok_0;
            let seconds = ledger.settings.consensus_round_timeout_seconds;
            let round = ledger.consensus.round;
            let full = if round == 0 {
                seconds as int
            } else if round == 1 {
                2 * seconds
            } else if round == 2 {
                4 * seconds
            } else if round == 3 {
                8 * seconds
            } else if round == 4 {
                16 * seconds
            } else {
                32 * seconds
            };
            let members = ledger.consensus.active_validators.len();
            &&& ledger.consensus.round_started_at matches Some(started) ==> (i64::MIN <= now
                - started <= i64::MAX ==> now - started >= full || now - started >= 60)
            &&& chain_next_block_at(ledger) matches Some(due) ==> (i64::MIN <= now - due
                <= i64::MAX ==> now - due >= full || now - due >= 60)
            &&& round < u32::MAX ==> after.consensus.round == round + 1
            &&& after.consensus.round_started_at == Some(now)
            &&& after.consensus.proposal is None
            &&& after.consensus.prevotes.dom() == Set::<u64>::empty()
            &&& after.consensus.precommits.dom() == Set::<u64>::empty()
            &&& after.consensus.locks == ledger.consensus.locks
            &&& after.consensus.active_validators == ledger.consensus.active_validators
            &&& after.blocks == ledger.blocks
            &&& ledger.consensus.proposal matches Some(proposal) ==> {
                let agreed = vote_count(
                    ledger.consensus.prevotes,
                    Some(proposal.block.block_hash),
                );
                &&& 3 * agreed > 2 * members ==> after.consensus.valid_proposal == Some(proposal)
                    && after.consensus.valid_round == Some(round)
                &&& members > 0 && 3 * agreed <= 2 * members ==> after.consensus.valid_proposal
                    == ledger.consensus.valid_proposal && after.consensus.valid_round
                    == ledger.consensus.valid_round
            }
            &&& ledger.consensus.proposal is None ==> after.consensus.valid_proposal
                == ledger.consensus.valid_proposal
        }),
{
}

} // verus!
