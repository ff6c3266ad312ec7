use vstd::prelude::*;
use vstd::string::*;
use vstd::utf8::*;

use crate::accounts::account_of;
use crate::blocks::{
    block_signed, block_signing_text, hash_block, hash_of, multi_block_signed,
    multi_validator_block_signing_text, set_hash, validator_set_hash_for_epoch,
};
use crate::chain::{chain_height, height};
use crate::committee::{consensus_proposer, consensus_quorum, proposer_of, quorum_of};
use crate::comparison::same_payload;
use crate::consensus::{past_vote_checked, verify_consensus_vote_historical};
use crate::crypto::{signature_checked, verify_bytes};
use crate::envelope::verify_operation;
use crate::error::{outcome, Error, Outcome, Result};
use crate::governance::{genesis_of, known_genesis_authority};
use crate::model::{
    BlockConsensusMode, BlockModel, BlockRecord, ConsensusVote, ConsensusVoteType, GenesisAuthority,
    GenesisModel, LedgerModel, LedgerState, OperationModel, OperationRecord, OperationStatus,
    SignedModel, SignedOperation, VoteModel,
};
use crate::protocol::{
    GENESIS_PREVIOUS_BLOCK_HASH, MAX_BLOCK_OPERATIONS, MULTI_VALIDATOR_BLOCK_VERSION,
    PROTOCOL_VERSION,
};
use crate::sequence::contains_id;
use crate::table::{ordered, Table};
use crate::text::{
    decimal, has_prefix, join3, join4, join5, text_has_prefix, text_same, u128_text, u64_text,
    usize_text,
};
use crate::views::{BlockVerificationReport, BlockVerificationReportModel};

verus! {

/// A refusal that names a block.
pub open spec fn about_block(height: u64, what: Seq<char>) -> Seq<char> {
    "block "@ + decimal(height as nat) + what
}

fn block_error(height: u64, what: &str) -> (r: Error)
    ensures
        r@ == about_block(height, what@),
{
    Error::owned(join3("block ", u64_text(height).as_str(), what))
}

/// A refusal that names an operation.
pub open spec fn about_operation(operation_id: Seq<char>, what: Seq<char>) -> Seq<char> {
    "operation "@ + operation_id + what
}

fn operation_error(operation_id: &str, what: &str) -> (r: Error)
    ensures
        r@ == about_operation(operation_id@, what@),
{
    Error::owned(join3("operation ", operation_id, what))
}

/// Whether a text is the root of a state.
pub open spec fn is_state_root(text: Seq<char>) -> bool {
    has_prefix(encode_utf8(text), encode_utf8("state_"@)) && encode_utf8(text).len() == 70
}

/// Tells whether a text is the root of a state.
pub fn looks_like_state_root(text: &str) -> (r: bool)
    ensures
        r == is_state_root(text@),
{
    text_has_prefix(text, "state_") && text.as_bytes().len() == 70
}

/// The authority of the first node, if the chain can be verified at all.
pub open spec fn head_checked(ledger: LedgerModel) -> Outcome<GenesisModel> {
    if ledger.pending_operation_ids.len() > MAX_BLOCK_OPERATIONS {
        Err(
            "pending operation queue exceeds the "@ + decimal(MAX_BLOCK_OPERATIONS as nat)
                + " operation limit"@,
        )
    } else {
        match genesis_of(ledger) {
            None => Err("Genesis Node 1 has not been registered"@),
            Some(genesis) => if !ledger.nodes.contains_key(1) {
                Err("Genesis Node 1 is missing from the registry"@)
            } else if genesis.node_id != 1 || genesis.owner_address
                != ledger.nodes[1].owner_address || genesis.owner_public_key
                != ledger.nodes[1].owner_public_key {
                Err("Genesis authority does not match registered Node 1"@)
            } else if ledger.pruned_through_height == 0 && (ledger.pruned_tip_hash is Some
                || ledger.pruned_tip_timestamp is Some) {
                Err("history checkpoint exists without a pruned prefix"@)
            } else if ledger.pruned_through_height > 0 && (ledger.pruned_tip_hash is None
                || ledger.pruned_tip_timestamp is None) {
                Err("pruned history checkpoint is incomplete"@)
            } else {
                Ok(genesis)
            },
        }
    }
}

fn check_head(ledger: &LedgerState) -> (r: Result<GenesisAuthority>)
    ensures
        outcome(r) == head_checked(ledger@),
{
    if ledger.pending_operation_ids.len() > MAX_BLOCK_OPERATIONS {
        return Err(
            Error::owned(
                join3(
                    "pending operation queue exceeds the ",
                    usize_text(MAX_BLOCK_OPERATIONS).as_str(),
                    " operation limit",
                ),
            ),
        );
    }
    let genesis = match known_genesis_authority(ledger) {
        None => {
            return Err(Error::msg("Genesis Node 1 has not been registered"));
        },
        Some(genesis) => genesis,
    };
    match ledger.nodes.get(&1) {
        None => {
            return Err(Error::msg("Genesis Node 1 is missing from the registry"));
        },
        Some(registered) => {
            if genesis.node_id != 1 || !text_same(
                genesis.owner_address.as_str(),
                registered.owner_address.as_str(),
            ) || !text_same(
                genesis.owner_public_key.as_str(),
                registered.owner_public_key.as_str(),
            ) {
                return Err(Error::msg("Genesis authority does not match registered Node 1"));
            }
        },
    }
    if ledger.pruned_through_height == 0 && (ledger.pruned_tip_hash.is_some()
        || ledger.pruned_tip_timestamp.is_some()) {
        return Err(Error::msg("history checkpoint exists without a pruned prefix"));
    }
    if ledger.pruned_through_height > 0 && (ledger.pruned_tip_hash.is_none()
        || ledger.pruned_tip_timestamp.is_none()) {
        return Err(Error::msg("pruned history checkpoint is incomplete"));
    }
    Ok(genesis)
}

/// How far a chain has been walked.
#[verifier::ext_equal]
pub struct WalkModel {
    /// The hash that the next block refers to.
    pub previous_hash: Seq<char>,
    /// The time of the block before.
    pub previous_timestamp: i64,
    /// The operations that are in a block, with the height of the block.
    pub included: Map<Seq<char>, u64>,
    /// How many operations have been checked.
    pub checked: usize,
    /// How many of them came without their signed form.
    pub unsigned: usize,
}

struct Walk {
    previous_hash: String,
    previous_timestamp: i64,
    included: Table<String, u64>,
    checked: usize,
    unsigned: usize,
}

impl DeepView for Walk {
    type V = WalkModel;

    closed spec fn deep_view(&self) -> WalkModel {
        WalkModel {
            previous_hash: self.previous_hash@,
            previous_timestamp: self.previous_timestamp,
            included: self.included@,
            checked: self.checked,
            unsigned: self.unsigned,
        }
    }
}

/// The beginning of the walk: after what has been pruned.
pub open spec fn walk_begun(ledger: LedgerModel) -> WalkModel {
    WalkModel {
        previous_hash: match ledger.pruned_tip_hash {
            Some(hash) => hash,
            None => GENESIS_PREVIOUS_BLOCK_HASH@,
        },
        previous_timestamp: match ledger.pruned_tip_timestamp {
            Some(timestamp) => timestamp,
            None => i64::MIN,
        },
        included: Map::empty(),
        checked: 0,
        unsigned: 0,
    }
}

fn begin_walk(ledger: &LedgerState) -> (r: Walk)
    ensures
        r.deep_view() == walk_begun(ledger@),
{
    let previous_hash: String = match &ledger.pruned_tip_hash {
        Some(hash) => hash.clone(),
        None => GENESIS_PREVIOUS_BLOCK_HASH.to_owned(),
    };
    let previous_timestamp: i64 = match ledger.pruned_tip_timestamp {
        Some(timestamp) => timestamp,
        None => i64::MIN,
    };
    Walk {
        previous_hash,
        previous_timestamp,
        included: Table::new(),
        checked: 0,
        unsigned: 0,
    }
}

/// Whether a block is in its place: it has the next height, is of this ledger, refers to the block
/// before and is not older than it.
pub open spec fn link_checked(
    ledger: LedgerModel,
    block: BlockModel,
    index: nat,
    walk: WalkModel,
) -> Outcome<()> {
    let expected = ledger.pruned_through_height + index + 1;
    if block.height != expected {
        Err(
            "block height mismatch at index "@ + decimal(index) + ": expected "@ + decimal(
                expected as nat,
            ) + ", got "@ + decimal(block.height as nat),
        )
    } else if block.ledger_id != ledger.ledger_id {
        Err(about_block(block.height, " has an invalid protocol or ledger domain"@))
    } else if block.previous_block_hash != walk.previous_hash {
        Err(about_block(block.height, " does not link to its predecessor"@))
    } else if block.timestamp < walk.previous_timestamp {
        Err(about_block(block.height, " timestamp moves backwards"@))
    } else if block.operation_ids.len() > MAX_BLOCK_OPERATIONS {
        Err(about_block(block.height, " exceeds the operation limit"@))
    } else if !is_state_root(block.state_root) {
        Err(about_block(block.height, " contains an invalid state root"@))
    } else {
        Ok(())
    }
}

fn check_link(ledger: &LedgerState, block: &BlockRecord, index: usize, walk: &Walk) -> (r: Result<
    (),
>)
    ensures
        outcome(r) == link_checked(ledger@, block.deep_view(), index as nat, walk.deep_view()),
{
    let expected: u128 = ledger.pruned_through_height as u128 + index as u128 + 1;
    if block.height as u128 != expected {
        let mut text = join5(
            "block height mismatch at index ",
            usize_text(index).as_str(),
            ": expected ",
            u128_text(expected).as_str(),
            ", got ",
        );
        text.append(u64_text(block.height).as_str());
        return Err(Error::owned(text));
    }
    if !text_same(block.ledger_id.as_str(), ledger.ledger_id.as_str()) {
        return Err(block_error(block.height, " has an invalid protocol or ledger domain"));
    }
    if !text_same(block.previous_block_hash.as_str(), walk.previous_hash.as_str()) {
        return Err(block_error(block.height, " does not link to its predecessor"));
    }
    if block.timestamp < walk.previous_timestamp {
        return Err(block_error(block.height, " timestamp moves backwards"));
    }
    if block.operation_ids.len() > MAX_BLOCK_OPERATIONS {
        return Err(block_error(block.height, " exceeds the operation limit"));
    }
    if !looks_like_state_root(block.state_root.as_str()) {
        return Err(block_error(block.height, " contains an invalid state root"));
    }
    Ok(())
}

/// Whether the first node made a block.
pub open spec fn node1_checked(genesis: GenesisModel, block: BlockModel) -> Outcome<()> {
    if block.version != PROTOCOL_VERSION || block.producer_node_id != 1
        || block.producer_owner_address != genesis.owner_address {
        Err(about_block(block.height, " is not a valid Genesis Node 1 block"@))
    } else if block.block_hash != hash_of(block_signed(block)) {
        Err(about_block(block.height, " hash does not match its contents"@))
    } else {
        signature_checked(
            genesis.owner_public_key,
            encode_utf8(block_signed(block)),
            block.producer_signature,
        )
    }
}

fn check_node1_block(genesis: &GenesisAuthority, block: &BlockRecord) -> (r: Result<()>)
    ensures
        outcome(r) == node1_checked(genesis.deep_view(), block.deep_view()),
{
    if block.version != PROTOCOL_VERSION || block.producer_node_id != 1 || !text_same(
        block.producer_owner_address.as_str(),
        genesis.owner_address.as_str(),
    ) {
        return Err(block_error(block.height, " is not a valid Genesis Node 1 block"));
    }
    let signed = block_signing_text(block);
    let hash = hash_block(signed.as_str());
    if !text_same(block.block_hash.as_str(), hash.as_str()) {
        return Err(block_error(block.height, " hash does not match its contents"));
    }
    verify_bytes(
        genesis.owner_public_key.as_str(),
        signed.as_str().as_bytes(),
        block.producer_signature.as_str(),
    )
}

/// Whether numbers strictly ascend, so that each stands once and in its place.
pub open spec fn ids_ascend(ids: Seq<u64>) -> bool {
    forall|i: int| 0 <= i && i + 1 < ids.len() ==> #[trigger] ids[i] < ids[i + 1]
}

fn check_ascending(ids: &Vec<u64>) -> (r: bool)
    ensures
        r == ids_ascend(ids@),
{
    let mut i: usize = 1;
    while i < ids.len()
        invariant
            1 <= i,
            i <= ids@.len() || i == 1,
            forall|j: int| 0 <= j && j + 1 < i && j + 1 < ids@.len() ==> #[trigger] ids@[j] < ids@[
                j + 1],
        decreases ids@.len() - i,
    {
        if ids[i - 1] >= ids[i] {
            assert(!(ids@[i - 1] < ids@[i - 1 + 1]));
            return false;
        }
        i = i + 1;
    }
    true
}

/// Whether a vote that a block holds is for that block and from one of its validators that has not
/// voted yet.
pub open spec fn commit_fits(block: BlockModel, vote: VoteModel, seen: Seq<u64>) -> bool {
    &&& vote.height == block.height && vote.round == block.consensus_round
    &&& vote.vote_type == ConsensusVoteType::Precommit
    &&& vote.block_hash == Some(block.block_hash)
    &&& vote.validator_set_hash == block.validator_set_hash
    &&& block.validator_node_ids.contains(vote.validator_node_id)
    &&& !seen.contains(vote.validator_node_id)
}

fn check_commit(block: &BlockRecord, vote: &ConsensusVote, seen: &Vec<u64>) -> (r: bool)
    ensures
        r == commit_fits(block.deep_view(), vote.deep_view(), seen@),
{
    let same_hash = match &vote.block_hash {
        Some(hash) => text_same(hash.as_str(), block.block_hash.as_str()),
        None => false,
    };
    vote.height == block.height && vote.round == block.consensus_round && vote.vote_type
        == ConsensusVoteType::Precommit && same_hash && text_same(
        vote.validator_set_hash.as_str(),
        block.validator_set_hash.as_str(),
    ) && contains_id(&block.validator_node_ids, vote.validator_node_id) && !contains_id(
        seen,
        vote.validator_node_id,
    )
}

/// The validators that have signed a block, or the first refusal.
pub open spec fn commits_checked(
    ledger: LedgerModel,
    block: BlockModel,
    votes: Seq<VoteModel>,
    seen: Seq<u64>,
) -> Outcome<Seq<u64>>
    decreases votes.len(),
{
    if votes.len() == 0 {
        Ok(seen)
    } else if !commit_fits(block, votes[0], seen) {
        Err(about_block(block.height, " contains an invalid or duplicate PRECOMMIT"@))
    } else {
        match past_vote_checked(ledger, votes[0]) {
            Err(refusal) => Err(refusal),
            Ok(_) => commits_checked(
                ledger,
                block,
                votes.drop_first(),
                seen.push(votes[0].validator_node_id),
            ),
        }
    }
}

fn check_commits(ledger: &LedgerState, block: &BlockRecord) -> (r: Result<Vec<u64>>)
    ensures
        match commits_checked(
            ledger@,
            block.deep_view(),
            block.deep_view().commit_signatures,
            Seq::empty(),
        ) {
            Ok(seen) => r matches Ok(list) && list@ == seen,
            Err(refusal) => r matches Err(error) && error@ == refusal,
        },
{
    let ghost all = block.commit_signatures.deep_view();
    let mut seen: Vec<u64> = Vec::new();
    let mut i: usize = 0;
    assert(all.skip(0) =~= all);
    assert(seen@ =~= Seq::<u64>::empty());
    while i < block.commit_signatures.len()
        invariant
            i <= all.len(),
            all == block.commit_signatures.deep_view(),
            all.len() == block.commit_signatures@.len(),
            commits_checked(ledger@, block.deep_view(), all, Seq::empty()) == commits_checked(
                ledger@,
                block.deep_view(),
                all.skip(i as int),
                seen@,
            ),
        decreases all.len() - i,
    {
        let vote = &block.commit_signatures[i];
        assert(all.skip(i as int)[0] == vote.deep_view());
        assert(all.skip(i as int).drop_first() =~= all.skip(i + 1));
        if !check_commit(block, vote, &seen) {
            return Err(block_error(block.height, " contains an invalid or duplicate PRECOMMIT"));
        }
        verify_consensus_vote_historical(ledger, vote)?;
        seen.push(vote.validator_node_id);
        i = i + 1;
    }
    Ok(seen)
}

/// The key of the validator whose turn a block was.
pub open spec fn producer_checked(ledger: LedgerModel, block: BlockModel) -> Outcome<Seq<char>> {
    if block.version != MULTI_VALIDATOR_BLOCK_VERSION || block.validator_node_ids.len() == 0 {
        Err(about_block(block.height, " has invalid multi-Validator metadata"@))
    } else if !ids_ascend(block.validator_node_ids) {
        Err(about_block(block.height, " Validator list is not canonical"@))
    } else {
        match set_hash(ledger, block.validator_epoch, block.validator_node_ids) {
            Err(refusal) => Err(refusal),
            Ok(hash) => if block.validator_set_hash != hash {
                Err(about_block(block.height, " Validator set hash is invalid"@))
            } else {
                match proposer_of(block.validator_node_ids, block.height, block.consensus_round) {
                    None => Err("multi-Validator block has no proposer"@),
                    Some(expected) => if !ledger.nodes.contains_key(expected) {
                        Err(about_block(block.height, " proposer is missing"@))
                    } else if block.producer_node_id != expected || block.producer_owner_address
                        != ledger.nodes[expected].owner_address {
                        Err(about_block(block.height, " was produced by the wrong Validator"@))
                    } else {
                        Ok(ledger.nodes[expected].owner_public_key)
                    },
                }
            },
        }
    }
}

fn check_producer(ledger: &LedgerState, block: &BlockRecord) -> (r: Result<String>)
    ensures
        outcome(r) == producer_checked(ledger@, block.deep_view()),
{
    if block.version != MULTI_VALIDATOR_BLOCK_VERSION || block.validator_node_ids.len() == 0 {
        return Err(block_error(block.height, " has invalid multi-Validator metadata"));
    }
    if !check_ascending(&block.validator_node_ids) {
        return Err(block_error(block.height, " Validator list is not canonical"));
    }
    let hash = validator_set_hash_for_epoch(
        ledger,
        block.validator_epoch,
        &block.validator_node_ids,
    )?;
    if !text_same(block.validator_set_hash.as_str(), hash.as_str()) {
        return Err(block_error(block.height, " Validator set hash is invalid"));
    }
    match consensus_proposer(&block.validator_node_ids, block.height, block.consensus_round) {
        None => Err(Error::msg("multi-Validator block has no proposer")),
        Some(expected) => match ledger.nodes.get(&expected) {
            None => Err(block_error(block.height, " proposer is missing")),
            Some(proposer) => {
                if block.producer_node_id != expected || !text_same(
                    block.producer_owner_address.as_str(),
                    proposer.owner_address.as_str(),
                ) {
                    return Err(block_error(block.height, " was produced by the wrong Validator"));
                }
                Ok(proposer.owner_public_key.clone())
            },
        },
    }
}

/// Whether a block was proposed by the validator whose turn it was and signed by a quorum.
pub open spec fn multi_checked(ledger: LedgerModel, block: BlockModel) -> Outcome<()> {
    match producer_checked(ledger, block) {
        Err(refusal) => Err(refusal),
        Ok(key) => if block.block_hash != hash_of(multi_block_signed(block)) {
            Err(about_block(block.height, " hash does not match its contents"@))
        } else {
            match signature_checked(
                key,
                encode_utf8(multi_block_signed(block)),
                block.producer_signature,
            ) {
                Err(refusal) => Err(refusal),
                Ok(_) => match commits_checked(
                    ledger,
                    block,
                    block.commit_signatures,
                    Seq::empty(),
                ) {
                    Err(refusal) => Err(refusal),
                    Ok(seen) => if seen.len() < quorum_of(block.validator_node_ids.len()) {
                        Err(
                            about_block(
                                block.height,
                                " does not contain a greater-than-two-thirds PRECOMMIT quorum"@,
                            ),
                        )
                    } else {
                        Ok(())
                    },
                },
            }
        },
    }
}

fn check_multi_block(ledger: &LedgerState, block: &BlockRecord) -> (r: Result<()>)
    ensures
        outcome(r) == multi_checked(ledger@, block.deep_view()),
{
    let key = check_producer(ledger, block)?;
    let signed = multi_validator_block_signing_text(block);
    let hash = hash_block(signed.as_str());
    if !text_same(block.block_hash.as_str(), hash.as_str()) {
        return Err(block_error(block.height, " hash does not match its contents"));
    }
    verify_bytes(key.as_str(), signed.as_str().as_bytes(), block.producer_signature.as_str())?;
    let seen = check_commits(ledger, block)?;
    if seen.len() < consensus_quorum(block.validator_node_ids.len()) {
        return Err(
            block_error(
                block.height,
                " does not contain a greater-than-two-thirds PRECOMMIT quorum",
            ),
        );
    }
    Ok(())
}

/// Whether a block was agreed on.
#[verifier::opaque]
pub open spec fn agreement_checked(
    ledger: LedgerModel,
    genesis: GenesisModel,
    block: BlockModel,
) -> Outcome<()> {
    match block.consensus_mode {
        BlockConsensusMode::Node1 => node1_checked(genesis, block),
        BlockConsensusMode::MultiValidator => multi_checked(ledger, block),
    }
}

fn check_agreement(
    ledger: &LedgerState,
    genesis: &GenesisAuthority,
    block: &BlockRecord,
) -> (r: Result<()>)
    ensures
        outcome(r) == agreement_checked(ledger@, genesis.deep_view(), block.deep_view()),
{
    proof {
        reveal(agreement_checked);
    }
    match block.consensus_mode {
        BlockConsensusMode::Node1 => check_node1_block(genesis, block),
        BlockConsensusMode::MultiValidator => check_multi_block(ledger, block),
    }
}

/// One more, as far as it can be counted.
pub open spec fn counted(n: usize) -> usize {
    if n == usize::MAX {
        usize::MAX
    } else {
        (n + 1) as usize
    }
}

/// Whether the record of an operation is that of its signed form, which its signer has signed.
#[verifier::opaque]
pub open spec fn commitment_checked(
    ledger: LedgerModel,
    operation_id: Seq<char>,
    operation: OperationModel,
    signed: SignedModel,
) -> Outcome<()> {
    if signed.intake.operation_id != operation_id || signed.signature != operation.signature
        || signed.unsigned.payload != operation.payload || signed.unsigned.module + "."@
        + signed.unsigned.action != operation.kind {
        Err(about_operation(operation_id, " does not match its signed commitment"@))
    } else {
        match account_of(ledger, signed.unsigned.signer).public_key {
            None => Err(about_operation(operation_id, " signer key is missing"@)),
            Some(key) => signature_checked(key, signed.intake.signing_bytes, signed.signature),
        }
    }
}

fn check_commitment(
    ledger: &LedgerState,
    operation_id: &str,
    operation: &OperationRecord,
    signed: &SignedOperation,
) -> (r: Result<()>)
    ensures
        outcome(r) == commitment_checked(
            ledger@,
            operation_id@,
            operation.deep_view(),
            signed.deep_view(),
        ),
{
    proof {
        reveal(commitment_checked);
    }
    let kind = join3(signed.unsigned.module.as_str(), ".", signed.unsigned.action.as_str());
    if !text_same(signed.intake.operation_id.as_str(), operation_id) || !text_same(
        signed.signature.as_str(),
        operation.signature.as_str(),
    ) || !same_payload(&signed.unsigned.payload, &operation.payload) || !text_same(
        kind.as_str(),
        operation.kind.as_str(),
    ) {
        return Err(operation_error(operation_id, " does not match its signed commitment"));
    }
    if let Some(account) = ledger.accounts.get(&signed.unsigned.signer) {
        if let Some(key) = &account.public_key {
            return verify_operation(signed, key.as_str());
        }
    }
    Err(operation_error(operation_id, " signer key is missing"))
}

/// The walk after one operation of a block.
pub open spec fn operation_walked(
    ledger: LedgerModel,
    height: u64,
    operation_id: Seq<char>,
    walk: WalkModel,
) -> Outcome<WalkModel> {
    let included = walk.included.insert(operation_id, height);
    if walk.included.contains_key(operation_id) {
        Err(about_operation(operation_id, " appears in more than one block"@))
    } else if !ledger.operations.contains_key(operation_id) {
        if height < ledger.operation_history_from_height {
            Ok(WalkModel { included, ..walk })
        } else {
            Err(
                "block "@ + decimal(height as nat) + " references missing operation "@
                    + operation_id,
            )
        }
    } else {
        let operation = ledger.operations[operation_id];
        let checked = counted(walk.checked);
        if operation.status == OperationStatus::Pending || operation.block_height != Some(height) {
            Err(about_operation(operation_id, " has inconsistent finality metadata"@))
        } else {
            match operation.signed_operation {
                None => Ok(
                    WalkModel { included, checked, unsigned: counted(walk.unsigned), ..walk },
                ),
                Some(signed) => match commitment_checked(ledger, operation_id, operation, signed) {
                    Err(refusal) => Err(refusal),
                    Ok(_) => Ok(WalkModel { included, checked, ..walk }),
                },
            }
        }
    }
}

fn walk_operation(
    ledger: &LedgerState,
    height: u64,
    operation_id: &String,
    walk: &mut Walk,
) -> (r: Result<()>)
    ensures
        match operation_walked(ledger@, height, operation_id@, old(walk).deep_view()) {
            Ok(next) => r is Ok && final(walk).deep_view() == next,
            Err(refusal) => r matches Err(error) && error@ == refusal,
        },
{
    if walk.included.contains_key(operation_id) {
        return Err(operation_error(operation_id.as_str(), " appears in more than one block"));
    }
    walk.included.insert(operation_id.clone(), height);
    match ledger.operations.get(operation_id) {
        None => {
            if height < ledger.operation_history_from_height {
                return Ok(());
            }
            Err(
                Error::owned(
                    join4(
                        "block ",
                        u64_text(height).as_str(),
                        " references missing operation ",
                        operation_id.as_str(),
                    ),
                ),
            )
        },
        Some(operation) => {
            walk.checked = walk.checked.saturating_add(1);
            let placed = match operation.block_height {
                Some(at) => at == height,
                None => false,
            };
            if matches!(operation.status, OperationStatus::Pending) || !placed {
                return Err(
                    operation_error(
                        operation_id.as_str(),
                        " has inconsistent finality metadata",
                    ),
                );
            }
            match &operation.signed_operation {
                None => {
                    walk.unsigned = walk.unsigned.saturating_add(1);
                    Ok(())
                },
                Some(signed) => check_commitment(
                    ledger,
                    operation_id.as_str(),
                    operation,
                    signed,
                ),
            }
        },
    }
}

/// The walk after the operations of a block, or the first refusal.
pub open spec fn operations_walked(
    ledger: LedgerModel,
    height: u64,
    ids: Seq<Seq<char>>,
    walk: WalkModel,
) -> Outcome<WalkModel>
    decreases ids.len(),
{
    if ids.len() == 0 {
        Ok(walk)
    } else {
        match operation_walked(ledger, height, ids[0], walk) {
            Err(refusal) => Err(refusal),
            Ok(next) => operations_walked(ledger, height, ids.drop_first(), next),
        }
    }
}

fn walk_operations(ledger: &LedgerState, block: &BlockRecord, walk: &mut Walk) -> (r: Result<()>)
    ensures
        match operations_walked(
            ledger@,
            block.height,
            block.deep_view().operation_ids,
            old(walk).deep_view(),
        ) {
            Ok(next) => r is Ok && final(walk).deep_view() == next,
            Err(refusal) => r matches Err(error) && error@ == refusal,
        },
{
    let ghost all = block.operation_ids.deep_view();
    let ghost first = walk.deep_view();
    let mut i: usize = 0;
    assert(all.skip(0) =~= all);
    while i < block.operation_ids.len()
        invariant
            i <= all.len(),
            all == block.operation_ids.deep_view(),
            all.len() == block.operation_ids@.len(),
            first == old(walk).deep_view(),
            operations_walked(ledger@, block.height, all, first) == operations_walked(
                ledger@,
                block.height,
                all.skip(i as int),
                walk.deep_view(),
            ),
        decreases all.len() - i,
    {
        assert(all.skip(i as int)[0] == block.operation_ids@[i as int]@);
        assert(all.skip(i as int).drop_first() =~= all.skip(i + 1));
        walk_operation(ledger, block.height, &block.operation_ids[i], walk)?;
        i = i + 1;
    }
    Ok(())
}

/// The walk after one block.
#[verifier::opaque]
pub open spec fn block_walked(
    ledger: LedgerModel,
    genesis: GenesisModel,
    block: BlockModel,
    index: nat,
    walk: WalkModel,
) -> Outcome<WalkModel> {
    match link_checked(ledger, block, index, walk) {
        Err(refusal) => Err(refusal),
        Ok(_) => match agreement_checked(ledger, genesis, block) {
            Err(refusal) => Err(refusal),
            Ok(_) => match operations_walked(ledger, block.height, block.operation_ids, walk) {
                Err(refusal) => Err(refusal),
                Ok(next) => Ok(
                    WalkModel {
                        previous_hash: block.block_hash,
                        previous_timestamp: block.timestamp,
                        ..next
                    },
                ),
            },
        },
    }
}

fn walk_block(
    ledger: &LedgerState,
    genesis: &GenesisAuthority,
    block: &BlockRecord,
    index: usize,
    walk: &mut Walk,
) -> (r: Result<()>)
    ensures
        match block_walked(
            ledger@,
            genesis.deep_view(),
            block.deep_view(),
            index as nat,
            old(walk).deep_view(),
        ) {
            Ok(next) => r is Ok && final(walk).deep_view() == next,
            Err(refusal) => r matches Err(error) && error@ == refusal,
        },
{
    proof {
        reveal(block_walked);
    }
    check_link(ledger, block, index, walk)?;
    check_agreement(ledger, genesis, block)?;
    walk_operations(ledger, block, walk)?;
    walk.previous_hash = block.block_hash.clone();
    walk.previous_timestamp = block.timestamp;
    Ok(())
}

/// The walk after some blocks, of which the first has an index, or the first refusal.
pub open spec fn blocks_walked(
    ledger: LedgerModel,
    genesis: GenesisModel,
    blocks: Seq<BlockModel>,
    index: nat,
    walk: WalkModel,
) -> Outcome<WalkModel>
    decreases blocks.len(),
{
    if blocks.len() == 0 {
        Ok(walk)
    } else {
        match block_walked(ledger, genesis, blocks[0], index, walk) {
            Err(refusal) => Err(refusal),
            Ok(next) => blocks_walked(ledger, genesis, blocks.drop_first(), index + 1, next),
        }
    }
}

fn walk_blocks(ledger: &LedgerState, genesis: &GenesisAuthority) -> (r: Result<Walk>)
    ensures
        outcome(r) == blocks_walked(
            ledger@,
            genesis.deep_view(),
            ledger@.blocks,
            0,
            walk_begun(ledger@),
        ),
{
    let mut walk = begin_walk(ledger);
    let ghost all = ledger.blocks.deep_view();
    let mut i: usize = 0;
    assert(all.skip(0) =~= all);
    while i < ledger.blocks.len()
        invariant
            i <= all.len(),
            all == ledger.blocks.deep_view(),
            all.len() == ledger.blocks@.len(),
            blocks_walked(ledger@, genesis.deep_view(), all, 0, walk_begun(ledger@))
                == blocks_walked(
                ledger@,
                genesis.deep_view(),
                all.skip(i as int),
                i as nat,
                walk.deep_view(),
            ),
        decreases all.len() - i,
    {
        assert(all.skip(i as int)[0] == ledger.blocks@[i as int].deep_view());
        assert(all.skip(i as int).drop_first() =~= all.skip(i + 1));
        walk_block(ledger, genesis, &ledger.blocks[i], i, &mut walk)?;
        i = i + 1;
    }
    Ok(walk)
}

/// Whether an operation says that it is in a block which the chain does not have.
pub open spec fn claims_falsely(
    ledger: LedgerModel,
    operation: OperationModel,
    included: Map<Seq<char>, u64>,
) -> bool {
    operation.block_height matches Some(at) && at > ledger.pruned_through_height
        && !included.contains_key(operation.operation_id)
}

/// Whether all operations that say so are in the chain.
pub open spec fn claims_checked(
    ledger: LedgerModel,
    keys: Seq<Seq<char>>,
    included: Map<Seq<char>, u64>,
) -> Outcome<()>
    decreases keys.len(),
{
    if keys.len() == 0 {
        Ok(())
    } else if claims_falsely(ledger, ledger.operations[keys[0]], included) {
        Err(
            about_operation(
                ledger.operations[keys[0]].operation_id,
                " claims block finality but is absent from the chain"@,
            ),
        )
    } else {
        claims_checked(ledger, keys.drop_first(), included)
    }
}

fn check_claims(ledger: &LedgerState, included: &Table<String, u64>) -> (r: Result<()>)
    ensures
        outcome(r) == claims_checked(
            ledger@,
            ordered::<String>(ledger@.operations.dom()),
            included@,
        ),
{
    let ghost keys = ledger.operations.keys();
    let mut i: usize = 0;
    assert(keys.skip(0) =~= keys);
    while i < ledger.operations.len()
        invariant
            i <= keys.len(),
            keys == ledger.operations.keys(),
            claims_checked(ledger@, keys, included@) == claims_checked(
                ledger@,
                keys.skip(i as int),
                included@,
            ),
        decreases keys.len() - i,
    {
        assert(keys.skip(i as int)[0] == keys[i as int]);
        assert(keys.skip(i as int).drop_first() =~= keys.skip(i + 1));
        let operation = ledger.operations.value_at(i);
        if let Some(at) = operation.block_height {
            if at > ledger.pruned_through_height && !included.contains_key(
                &operation.operation_id,
            ) {
                return Err(
                    operation_error(
                        operation.operation_id.as_str(),
                        " claims block finality but is absent from the chain",
                    ),
                );
            }
        }
        i = i + 1;
    }
    Ok(())
}

/// Whether all pending operations are known and pending.
pub open spec fn pending_checked(ledger: LedgerModel, ids: Seq<Seq<char>>) -> Outcome<()>
    decreases ids.len(),
{
    if ids.len() == 0 {
        Ok(())
    } else if !ledger.operations.contains_key(ids[0]) {
        Err("pending operation "@ + ids[0] + " is missing from the ledger"@)
    } else if ledger.operations[ids[0]].status != OperationStatus::Pending
        || ledger.operations[ids[0]].block_height is Some {
        Err("pending operation "@ + ids[0] + " has inconsistent status"@)
    } else {
        pending_checked(ledger, ids.drop_first())
    }
}

fn check_pending(ledger: &LedgerState) -> (r: Result<()>)
    ensures
        outcome(r) == pending_checked(ledger@, ledger@.pending_operation_ids),
{
    let ghost all = ledger.pending_operation_ids.deep_view();
    let mut i: usize = 0;
    assert(all.skip(0) =~= all);
    while i < ledger.pending_operation_ids.len()
        invariant
            i <= all.len(),
            all == ledger.pending_operation_ids.deep_view(),
            all.len() == ledger.pending_operation_ids@.len(),
            pending_checked(ledger@, all) == pending_checked(ledger@, all.skip(i as int)),
        decreases all.len() - i,
    {
        assert(all.skip(i as int)[0] == ledger.pending_operation_ids@[i as int]@);
        assert(all.skip(i as int).drop_first() =~= all.skip(i + 1));
        let id = &ledger.pending_operation_ids[i];
        match ledger.operations.get(id) {
            None => {
                return Err(
                    Error::owned(
                        join3("pending operation ", id.as_str(), " is missing from the ledger"),
                    ),
                );
            },
            Some(operation) => {
                if !matches!(operation.status, OperationStatus::Pending)
                    || operation.block_height.is_some() {
                    return Err(
                        Error::owned(
                            join3("pending operation ", id.as_str(), " has inconsistent status"),
                        ),
                    );
                }
            },
        }
        i = i + 1;
    }
    Ok(())
}

/// How many operations of a chain have been checked, and how many of them came without their signed
/// form, if the chain is sound.
pub open spec fn chain_checked(ledger: LedgerModel) -> Outcome<(usize, usize)> {
    match head_checked(ledger) {
        Err(refusal) => Err(refusal),
        Ok(genesis) => match blocks_walked(
            ledger,
            genesis,
            ledger.blocks,
            0,
            walk_begun(ledger),
        ) {
            Err(refusal) => Err(refusal),
            Ok(walk) => match claims_checked(
                ledger,
                ordered::<String>(ledger.operations.dom()),
                walk.included,
            ) {
                Err(refusal) => Err(refusal),
                Ok(_) => match pending_checked(ledger, ledger.pending_operation_ids) {
                    Err(refusal) => Err(refusal),
                    Ok(_) => Ok((walk.checked, walk.unsigned)),
                },
            },
        },
    }
}

/// Checks the whole chain.
pub fn verify_blockchain_inner(ledger: &LedgerState) -> (r: Result<(usize, usize)>)
    ensures
        outcome(r) == chain_checked(ledger@),
{
    let genesis = check_head(ledger)?;
    let walk = walk_blocks(ledger, &genesis)?;
    check_claims(ledger, &walk.included)?;
    check_pending(ledger)?;
    Ok((walk.checked, walk.unsigned))
}

/// What is reported of the chain.
pub open spec fn chain_reported(ledger: LedgerModel) -> BlockVerificationReportModel {
    let (ok, checked, unsigned, detail) = match chain_checked(ledger) {
        Ok(counts) => (
            true,
            counts.0,
            counts.1,
            "block linkage, producer signatures, Validator commits and operation commitments are valid"@,
        ),
        Err(refusal) => (false, 0, 0, refusal),
    };
    BlockVerificationReportModel {
        ok,
        height: chain_height(ledger),
        checked_operations: checked,
        legacy_unverified_operations: unsigned,
        pruned_through_height: ledger.pruned_through_height,
        pruned_operation_count: ledger.pruned_operation_count,
        detail,
    }
}

/// Checks the whole chain and reports what was found.
pub fn verify_blockchain(ledger: &LedgerState) -> (r: BlockVerificationReport)
    ensures
        r.deep_view() == chain_reported(ledger@),
{
    match verify_blockchain_inner(ledger) {
        Ok(counts) => BlockVerificationReport {
            ok: true,
            height: height(ledger),
            checked_operations: counts.0,
            legacy_unverified_operations: counts.1,
            pruned_through_height: ledger.pruned_through_height,
            pruned_operation_count: ledger.pruned_operation_count,
            detail: "block linkage, producer signatures, Validator commits and operation commitments are valid".to_owned(),
        },
        Err(error) => BlockVerificationReport {
            ok: false,
            height: height(ledger),
            checked_operations: 0,
            legacy_unverified_operations: 0,
            pruned_through_height: ledger.pruned_through_height,
            pruned_operation_count: ledger.pruned_operation_count,
            detail: error.text().to_owned(),
        },
    }
}

/// Whether a block refers to the one before and is not older.
pub open spec fn follows(blocks: Seq<BlockModel>, i: int) -> bool {
    blocks[i].previous_block_hash == blocks[i - 1].block_hash && blocks[i].timestamp >= blocks[i
        - 1].timestamp
}

proof fn walked_blocks_are_linked(
    ledger: LedgerModel,
    genesis: GenesisModel,
    blocks: Seq<BlockModel>,
    index: nat,
    walk: WalkModel,
)
    requires
        blocks_walked(ledger, genesis, blocks, index, walk) is Ok,
    ensures
        forall|i: int|
            0 <= i < blocks.len() ==> (#[trigger] blocks[i]).height
                == ledger.pruned_through_height + index + i + 1 && blocks[i].ledger_id
                == ledger.ledger_id,
        blocks.len() > 0 ==> blocks[0].previous_block_hash == walk.previous_hash
            && blocks[0].timestamp >= walk.previous_timestamp,
        forall|i: int| 0 < i < blocks.len() ==> #[trigger] follows(blocks, i),
    decreases blocks.len(),
{
    reveal(block_walked);
    if blocks.len() > 0 {
        let next = block_walked(ledger, genesis, blocks[0], index, walk)->Ok_0;
        let rest = blocks.drop_first();
        walked_blocks_are_linked(ledger, genesis, rest, index + 1, next);
        operations_keep_the_tip(ledger, blocks[0].height, blocks[0].operation_ids, walk);
        assert forall|i: int| 0 <= i < blocks.len() implies (#[trigger] blocks[i]).height
            == ledger.pruned_through_height + index + i + 1 && blocks[i].ledger_id
            == ledger.ledger_id by {
            if i > 0 {
                assert(rest[i - 1] == blocks[i]);
            }
        }
        assert forall|i: int| 0 < i < blocks.len() implies #[trigger] follows(blocks, i) by {
            assert(rest[i - 1] == blocks[i]);
            if i > 1 {
                assert(follows(rest, i - 1));
            }
        }
    }
}

proof fn operations_keep_the_tip(
    ledger: LedgerModel,
    height: u64,
    ids: Seq<Seq<char>>,
    walk: WalkModel,
)
    ensures
        operations_walked(ledger, height, ids, walk) matches Ok(next) ==> next.previous_hash
            == walk.previous_hash && next.previous_timestamp == walk.previous_timestamp,
    decreases ids.len(),
{
    if ids.len() > 0 {
        if let Ok(next) = operation_walked(ledger, height, ids[0], walk) {
            operations_keep_the_tip(ledger, height, ids.drop_first(), next);
        }
    }
}

/// In a sound chain the blocks follow each other without a gap: each refers to the one before, has
/// the next height and is not older.
pub proof fn sound_chain_is_linked(ledger: LedgerModel)
    requires
        chain_checked(ledger) is Ok,
    ensures
        forall|i: int|
            0 <= i < ledger.blocks.len() ==> (#[trigger] ledger.blocks[i]).height
                == ledger.pruned_through_height + i + 1 && ledger.blocks[i].ledger_id
                == ledger.ledger_id,
        forall|i: int| 0 < i < ledger.blocks.len() ==> #[trigger] follows(ledger.blocks, i),
        ledger.blocks.len() > 0 ==> ledger.blocks[0].previous_block_hash == walk_begun(
            ledger,
        ).previous_hash,
{
    let genesis = head_checked(ledger)->Ok_0;
    walked_blocks_are_linked(ledger, genesis, ledger.blocks, 0, walk_begun(ledger));
}

proof fn walked_operations_are_new(
    ledger: LedgerModel,
    height: u64,
    ids: Seq<Seq<char>>,
    walk: WalkModel,
)
    requires
        operations_walked(ledger, height, ids, walk) is Ok,
    ensures
        ids.no_duplicates(),
        forall|i: int| 0 <= i < ids.len() ==> !walk.included.contains_key(#[trigger] ids[i]),
        forall|i: int|
            0 <= i < ids.len() ==> operations_walked(
                ledger,
                height,
                ids,
                walk,
            )->Ok_0.included.contains_key(#[trigger] ids[i]),
        forall|id: Seq<char>| #[trigger]
            walk.included.contains_key(id) ==> operations_walked(
                ledger,
                height,
                ids,
                walk,
            )->Ok_0.included.contains_key(id),
    decreases ids.len(),
{
    if ids.len() > 0 {
        let next = operation_walked(ledger, height, ids[0], walk)->Ok_0;
        let rest = ids.drop_first();
        walked_operations_are_new(ledger, height, rest, next);
        assert(next.included.contains_key(ids[0]));
        assert forall|i: int| 0 <= i < ids.len() implies !walk.included.contains_key(
            #[trigger] ids[i],
        ) && operations_walked(ledger, height, ids, walk)->Ok_0.included.contains_key(ids[i]) by {
            if i > 0 {
                assert(rest[i - 1] == ids[i]);
            }
        }
        assert forall|i: int, j: int| 0 <= i < ids.len() && 0 <= j < ids.len() && i
            != j implies ids[i] != ids[j] by {
            if i > 0 {
                assert(rest[i - 1] == ids[i]);
            }
            if j > 0 {
                assert(rest[j - 1] == ids[j]);
            }
        }
        assert forall|id: Seq<char>| #[trigger]
            walk.included.contains_key(id) implies operations_walked(
            ledger,
            height,
            ids,
            walk,
        )->Ok_0.included.contains_key(id) by {
            assert(next.included.contains_key(id));
        }
    }
}

/// Whether two places in a chain hold the same operation.
pub open spec fn same_operation(
    blocks: Seq<BlockModel>,
    first: (int, int),
    second: (int, int),
) -> bool {
    blocks[first.0].operation_ids[first.1] == blocks[second.0].operation_ids[second.1]
}

/// Whether a chain has a place.
pub open spec fn has_place(blocks: Seq<BlockModel>, place: (int, int)) -> bool {
    0 <= place.0 < blocks.len() && 0 <= place.1 < blocks[place.0].operation_ids.len()
}

proof fn walked_places_are_new(
    ledger: LedgerModel,
    genesis: GenesisModel,
    blocks: Seq<BlockModel>,
    index: nat,
    walk: WalkModel,
)
    requires
        blocks_walked(ledger, genesis, blocks, index, walk) is Ok,
    ensures
        forall|place: (int, int)| #[trigger]
            has_place(blocks, place) ==> !walk.included.contains_key(
                blocks[place.0].operation_ids[place.1],
            ),
        forall|first: (int, int), second: (int, int)|
            has_place(blocks, first) && has_place(blocks, second) && first != second
                ==> !#[trigger] same_operation(blocks, first, second),
    decreases blocks.len(),
{
    reveal(block_walked);
    if blocks.len() > 0 {
        let block = blocks[0];
        let next = block_walked(ledger, genesis, block, index, walk)->Ok_0;
        let rest = blocks.drop_first();
        walked_places_are_new(ledger, genesis, rest, index + 1, next);
        walked_operations_are_new(ledger, block.height, block.operation_ids, walk);
        assert forall|place: (int, int)| #[trigger]
            has_place(blocks, place) implies !walk.included.contains_key(
            blocks[place.0].operation_ids[place.1],
        ) by {
            if place.0 > 0 {
                assert(rest[place.0 - 1] == blocks[place.0]);
                assert(has_place(rest, (place.0 - 1, place.1)));
            }
        }
        assert forall|first: (int, int), second: (int, int)|
            has_place(blocks, first) && has_place(blocks, second) && first
                != second implies !#[trigger] same_operation(blocks, first, second) by {
            let ids = block.operation_ids;
            if first.0 > 0 {
                assert(rest[first.0 - 1] == blocks[first.0]);
                assert(has_place(rest, (first.0 - 1, first.1)));
            }
            if second.0 > 0 {
                assert(rest[second.0 - 1] == blocks[second.0]);
                assert(has_place(rest, (second.0 - 1, second.1)));
            }
            if first.0 > 0 && second.0 > 0 {
                assert(!same_operation(
                    rest,
                    (first.0 - 1, first.1),
                    (second.0 - 1, second.1),
                ));
            } else if first.0 == 0 && second.0 == 0 {
                assert(ids[first.1] != ids[second.1]);
            } else if first.0 == 0 {
                assert(next.included.contains_key(ids[first.1]));
            } else {
                assert(next.included.contains_key(ids[second.1]));
            }
        }
    }
}

/// In a sound chain no operation stands in two places.
pub proof fn operations_stand_in_one_place(
    ledger: LedgerModel,
    first: (int, int),
    second: (int, int),
)
    requires
        chain_checked(ledger) is Ok,
        has_place(ledger.blocks, first),
        has_place(ledger.blocks, second),
        first != second,
    ensures
        !same_operation(ledger.blocks, first, second),
{
    let genesis = head_checked(ledger)->Ok_0;
    walked_places_are_new(ledger, genesis, ledger.blocks, 0, walk_begun(ledger));
}

} // verus!
