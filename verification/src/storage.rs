use vstd::prelude::*;
use vstd::string::*;

use crate::blocks::mode_text;
use crate::error::{outcome, Error, Outcome, Result};
use crate::json::{
    json_list, json_member, json_quoted, list_numbers, list_texts, list_values, put_i64, put_text,
    put_u32, put_u64, put_value,
};
use crate::model::{
    copy_values, BlockConsensusMode, BlockModel, BlockRecord, ConsensusVote, ConsensusVoteType,
    VoteModel,
};
use crate::sequence::contains_id;
use crate::table::{ordered, Replicate, Table};
use crate::text::{decimal, i64_text, join3, join5, signed_decimal, text_same, u64_text};

verus! {

/// A vote that a block holds, as it is stored: the validator, the time and the signature. The rest
/// is the same as in the block.
#[derive(Debug)]
pub struct StoredCommitSignature(pub u64, pub i64, pub String);

impl DeepView for StoredCommitSignature {
    type V = (u64, i64, Seq<char>);

    open spec fn deep_view(&self) -> (u64, i64, Seq<char>) {
        (self.0, self.1, self.2@)
    }
}

/// A block as it is stored.
#[derive(Debug)]
pub struct StoredBlock {
    pub version: u32,
    pub ledger_id: String,
    pub height: u64,
    pub previous_block_hash: String,
    pub timestamp: i64,
    pub producer_node_id: u64,
    pub producer_owner_address: String,
    pub operation_ids: Vec<String>,
    pub state_root: String,
    pub block_hash: String,
    pub producer_signature: String,
    pub consensus_mode: BlockConsensusMode,
    pub consensus_round: u32,
    pub validator_set_hash: String,
    pub commit_signatures: Vec<StoredCommitSignature>,
    pub validator_epoch: u64,
    pub validator_node_ids: Vec<u64>,
}

/// The contents of `StoredBlock`.
#[verifier::ext_equal]
pub struct StoredModel {
    pub version: u32,
    pub ledger_id: Seq<char>,
    pub height: u64,
    pub previous_block_hash: Seq<char>,
    pub timestamp: i64,
    pub producer_node_id: u64,
    pub producer_owner_address: Seq<char>,
    pub operation_ids: Seq<Seq<char>>,
    pub state_root: Seq<char>,
    pub block_hash: Seq<char>,
    pub producer_signature: Seq<char>,
    pub consensus_mode: BlockConsensusMode,
    pub consensus_round: u32,
    pub validator_set_hash: Seq<char>,
    pub commit_signatures: Seq<(u64, i64, Seq<char>)>,
    pub validator_epoch: u64,
    pub validator_node_ids: Seq<u64>,
}

impl DeepView for StoredBlock {
    type V = StoredModel;

    open spec fn deep_view(&self) -> StoredModel {
        StoredModel {
            version: self.version,
            ledger_id: self.ledger_id@,
            height: self.height,
            previous_block_hash: self.previous_block_hash@,
            timestamp: self.timestamp,
            producer_node_id: self.producer_node_id,
            producer_owner_address: self.producer_owner_address@,
            operation_ids: self.operation_ids.deep_view(),
            state_root: self.state_root@,
            block_hash: self.block_hash@,
            producer_signature: self.producer_signature@,
            consensus_mode: self.consensus_mode,
            consensus_round: self.consensus_round,
            validator_set_hash: self.validator_set_hash@,
            commit_signatures: self.commit_signatures.deep_view(),
            validator_epoch: self.validator_epoch,
            validator_node_ids: self.validator_node_ids@,
        }
    }
}

/// Whether a vote says of its block what the block says of itself.
pub open spec fn commit_agrees(block: BlockModel, vote: VoteModel) -> bool {
    &&& vote.ledger_id == block.ledger_id && vote.height == block.height && vote.round
        == block.consensus_round
    &&& vote.vote_type == ConsensusVoteType::Precommit
    &&& vote.block_hash == Some(block.block_hash)
    &&& vote.validator_set_hash == block.validator_set_hash
}

/// What is stored of a vote.
pub open spec fn commit_stored(vote: VoteModel) -> (u64, i64, Seq<char>) {
    (vote.validator_node_id, vote.timestamp, vote.signature)
}

/// A block as it is stored, if its votes are for it.
pub open spec fn block_stored(block: BlockModel) -> Outcome<StoredModel> {
    if exists|i: int|
        0 <= i < block.commit_signatures.len() && !commit_agrees(
            block,
            #[trigger] block.commit_signatures[i],
        ) {
        Err(
            "block "@ + decimal(block.height as nat)
                + " contains a commit vote for different consensus fields"@,
        )
    } else {
        Ok(
            StoredModel {
                version: block.version,
                ledger_id: block.ledger_id,
                height: block.height,
                previous_block_hash: block.previous_block_hash,
                timestamp: block.timestamp,
                producer_node_id: block.producer_node_id,
                producer_owner_address: block.producer_owner_address,
                operation_ids: block.operation_ids,
                state_root: block.state_root,
                block_hash: block.block_hash,
                producer_signature: block.producer_signature,
                consensus_mode: block.consensus_mode,
                consensus_round: block.consensus_round,
                validator_set_hash: block.validator_set_hash,
                commit_signatures: block.commit_signatures.map_values(
                    |vote: VoteModel| commit_stored(vote),
                ),
                validator_epoch: block.validator_epoch,
                validator_node_ids: block.validator_node_ids,
            },
        )
    }
}

fn check_agrees(block: &BlockRecord, vote: &ConsensusVote) -> (r: bool)
    ensures
        r == commit_agrees(block.deep_view(), vote.deep_view()),
{
    let same_hash = match &vote.block_hash {
        Some(hash) => text_same(hash.as_str(), block.block_hash.as_str()),
        None => false,
    };
    text_same(vote.ledger_id.as_str(), block.ledger_id.as_str()) && vote.height == block.height
        && vote.round == block.consensus_round && vote.vote_type == ConsensusVoteType::Precommit
        && same_hash && text_same(
        vote.validator_set_hash.as_str(),
        block.validator_set_hash.as_str(),
    )
}

impl StoredBlock {
    /// Makes the stored form of a block.
    pub fn from_block(block: &BlockRecord) -> (r: Result<StoredBlock>)
        ensures
            outcome(r) == block_stored(block.deep_view()),
    {
        let ghost all = block.commit_signatures.deep_view();
        let ghost store = |vote: VoteModel| commit_stored(vote);
        let mut commits: Vec<StoredCommitSignature> = Vec::new();
        let mut i: usize = 0;
        assert(commits.deep_view() =~= all.take(0).map_values(store));
        while i < block.commit_signatures.len()
            invariant
                i <= all.len(),
                all == block.commit_signatures.deep_view(),
                all.len() == block.commit_signatures@.len(),
                store == (|vote: VoteModel| commit_stored(vote)),
                commits.deep_view() == all.take(i as int).map_values(store),
                forall|j: int| 0 <= j < i ==> commit_agrees(block.deep_view(), #[trigger] all[j]),
            decreases all.len() - i,
        {
            let vote = &block.commit_signatures[i];
            assert(all[i as int] == vote.deep_view());
            if !check_agrees(block, vote) {
                assert(!commit_agrees(
                    block.deep_view(),
                    block.deep_view().commit_signatures[i as int],
                ));
                return Err(
                    Error::owned(
                        join3(
                            "block ",
                            u64_text(block.height).as_str(),
                            " contains a commit vote for different consensus fields",
                        ),
                    ),
                );
            }
            let ghost before = commits.deep_view();
            let commit = StoredCommitSignature(
                vote.validator_node_id,
                vote.timestamp,
                vote.signature.clone(),
            );
            commits.push(commit);
            assert(commits.deep_view() =~= before.push(commit.deep_view()));
            assert(all.take(i + 1).map_values(store) =~= all.take(i as int).map_values(store).push(
                store(all[i as int]),
            ));
            i = i + 1;
        }
        assert(all.take(all.len() as int) =~= all);
        Ok(
            StoredBlock {
                version: block.version,
                ledger_id: block.ledger_id.clone(),
                height: block.height,
                previous_block_hash: block.previous_block_hash.clone(),
                timestamp: block.timestamp,
                producer_node_id: block.producer_node_id,
                producer_owner_address: block.producer_owner_address.clone(),
                operation_ids: block.operation_ids.replicate(),
                state_root: block.state_root.clone(),
                block_hash: block.block_hash.clone(),
                producer_signature: block.producer_signature.clone(),
                consensus_mode: block.consensus_mode,
                consensus_round: block.consensus_round,
                validator_set_hash: block.validator_set_hash.clone(),
                commit_signatures: commits,
                validator_epoch: block.validator_epoch,
                validator_node_ids: copy_values(&block.validator_node_ids),
            },
        )
    }

    /// Restores the block.
    pub fn into_block(self) -> (r: BlockRecord)
        ensures
            r.deep_view() == block_restored(self.deep_view()),
    {
        let ghost stored = self.deep_view();
        let ghost all = self.commit_signatures.deep_view();
        let ghost restore = |commit: (u64, i64, Seq<char>)| commit_restored(stored, commit);
        let mut commits: Vec<ConsensusVote> = Vec::new();
        let mut i: usize = 0;
        assert(commits.deep_view() =~= all.take(0).map_values(restore));
        while i < self.commit_signatures.len()
            invariant
                i <= all.len(),
                stored == self.deep_view(),
                all == self.commit_signatures.deep_view(),
                all.len() == self.commit_signatures@.len(),
                restore == (|commit: (u64, i64, Seq<char>)| commit_restored(stored, commit)),
                commits.deep_view() == all.take(i as int).map_values(restore),
            decreases all.len() - i,
        {
            let commit = &self.commit_signatures[i];
            assert(all[i as int] == commit.deep_view());
            let ghost before = commits.deep_view();
            let vote = ConsensusVote {
                ledger_id: self.ledger_id.clone(),
                height: self.height,
                round: self.consensus_round,
                vote_type: ConsensusVoteType::Precommit,
                block_hash: Some(self.block_hash.clone()),
                validator_set_hash: self.validator_set_hash.clone(),
                validator_node_id: commit.0,
                timestamp: commit.1,
                signature: commit.2.clone(),
            };
            commits.push(vote);
            assert(commits.deep_view() =~= before.push(vote.deep_view()));
            assert(all.take(i + 1).map_values(restore) =~= all.take(i as int).map_values(
                restore,
            ).push(restore(all[i as int])));
            i = i + 1;
        }
        assert(all.take(all.len() as int) =~= all);
        BlockRecord {
            version: self.version,
            ledger_id: self.ledger_id,
            height: self.height,
            previous_block_hash: self.previous_block_hash,
            timestamp: self.timestamp,
            producer_node_id: self.producer_node_id,
            producer_owner_address: self.producer_owner_address,
            operation_ids: self.operation_ids,
            state_root: self.state_root,
            block_hash: self.block_hash,
            producer_signature: self.producer_signature,
            consensus_mode: self.consensus_mode,
            consensus_round: self.consensus_round,
            validator_set_hash: self.validator_set_hash,
            commit_signatures: commits,
            validator_epoch: self.validator_epoch,
            validator_node_ids: self.validator_node_ids,
        }
    }
}

/// The vote that was stored.
pub open spec fn commit_restored(block: StoredModel, commit: (u64, i64, Seq<char>)) -> VoteModel {
    VoteModel {
        ledger_id: block.ledger_id,
        height: block.height,
        round: block.consensus_round,
        vote_type: ConsensusVoteType::Precommit,
        block_hash: Some(block.block_hash),
        validator_set_hash: block.validator_set_hash,
        validator_node_id: commit.0,
        timestamp: commit.1,
        signature: commit.2,
    }
}

/// The block that was stored.
pub open spec fn block_restored(block: StoredModel) -> BlockModel {
    BlockModel {
        version: block.version,
        ledger_id: block.ledger_id,
        height: block.height,
        previous_block_hash: block.previous_block_hash,
        timestamp: block.timestamp,
        producer_node_id: block.producer_node_id,
        producer_owner_address: block.producer_owner_address,
        operation_ids: block.operation_ids,
        state_root: block.state_root,
        block_hash: block.block_hash,
        producer_signature: block.producer_signature,
        consensus_mode: block.consensus_mode,
        consensus_round: block.consensus_round,
        validator_set_hash: block.validator_set_hash,
        commit_signatures: block.commit_signatures.map_values(
            |commit: (u64, i64, Seq<char>)| commit_restored(block, commit),
        ),
        validator_epoch: block.validator_epoch,
        validator_node_ids: block.validator_node_ids,
    }
}

/// A block that can be stored comes back as it was.
pub proof fn stored_block_comes_back(block: BlockModel)
    ensures
        block_stored(block) matches Ok(stored) ==> block_restored(stored) == block,
{
    if let Ok(stored) = block_stored(block) {
        let votes = block.commit_signatures;
        let restored = block_restored(stored).commit_signatures;
        assert forall|i: int| 0 <= i < votes.len() implies #[trigger] restored[i] == votes[i] by {
            assert(commit_agrees(block, votes[i]));
        }
        assert(restored =~= votes);
    }
}

/// How a stored block is written, with the short names that the store uses.
#[verifier::opaque]
pub open spec fn stored_text(block: StoredModel) -> Seq<char> {
    let a = json_member("{"@, "v"@, decimal(block.version as nat));
    let b = json_member(a, "l"@, json_quoted(block.ledger_id));
    let c = json_member(b, "h"@, decimal(block.height as nat));
    let d = json_member(c, "p"@, json_quoted(block.previous_block_hash));
    let e = json_member(d, "t"@, signed_decimal(block.timestamp as int));
    let f = json_member(e, "n"@, decimal(block.producer_node_id as nat));
    let g = json_member(f, "o"@, json_quoted(block.producer_owner_address));
    let h = json_member(
        g,
        "x"@,
        json_list(block.operation_ids.map_values(|text: Seq<char>| json_quoted(text))),
    );
    let i = json_member(h, "r"@, json_quoted(block.state_root));
    let j = json_member(i, "b"@, json_quoted(block.block_hash));
    let k = json_member(j, "s"@, json_quoted(block.producer_signature));
    let l = json_member(k, "m"@, json_quoted(mode_text(block.consensus_mode)));
    let m = json_member(l, "q"@, decimal(block.consensus_round as nat));
    let n = json_member(m, "z"@, json_quoted(block.validator_set_hash));
    let o = json_member(
        n,
        "c"@,
        json_list(
            block.commit_signatures.map_values(
                |commit: (u64, i64, Seq<char>)| commit_text(commit),
            ),
        ),
    );
    let p = json_member(o, "e"@, decimal(block.validator_epoch as nat));
    let q = json_member(
        p,
        "i"@,
        json_list(block.validator_node_ids.map_values(|id: u64| decimal(id as nat))),
    );
    q + "}"@
}

/// How a stored vote is written.
pub open spec fn commit_text(commit: (u64, i64, Seq<char>)) -> Seq<char> {
    "["@ + decimal(commit.0 as nat) + ","@ + signed_decimal(commit.1 as int) + ","@ + json_quoted(
        commit.2,
    ) + "]"@
}

fn write_commit(commit: &StoredCommitSignature) -> (r: String)
    ensures
        r@ == commit_text(commit.deep_view()),
{
    let mut text = join5(
        "[",
        u64_text(commit.0).as_str(),
        ",",
        i64_text(commit.1).as_str(),
        ",",
    );
    text.append(crate::json::quoted(commit.2.as_str()).as_str());
    text.append("]");
    text
}

fn write_commits(commits: &Vec<StoredCommitSignature>) -> (r: String)
    ensures
        r@ == json_list(
            commits.deep_view().map_values(
                |commit: (u64, i64, Seq<char>)| commit_text(commit),
            ),
        ),
{
    let ghost all = commits.deep_view();
    let ghost write = |commit: (u64, i64, Seq<char>)| commit_text(commit);
    let mut texts: Vec<String> = Vec::new();
    let mut i: usize = 0;
    assert(texts.deep_view() =~= all.take(0).map_values(write));
    while i < commits.len()
        invariant
            i <= all.len(),
            all == commits.deep_view(),
            all.len() == commits@.len(),
            write == (|commit: (u64, i64, Seq<char>)| commit_text(commit)),
            texts.deep_view() == all.take(i as int).map_values(write),
        decreases all.len() - i,
    {
        let ghost before = texts.deep_view();
        assert(all[i as int] == commits@[i as int].deep_view());
        let text = write_commit(&commits[i]);
        texts.push(text);
        assert(texts.deep_view() =~= before.push(text@));
        assert(all.take(i + 1).map_values(write) =~= all.take(i as int).map_values(write).push(
            write(all[i as int]),
        ));
        i = i + 1;
    }
    assert(all.take(all.len() as int) =~= all);
    list_values(&texts)
}

/// Writes a stored block.
pub fn write_stored_block(block: &StoredBlock) -> (r: String)
    ensures
        r@ == stored_text(block.deep_view()),
{
    proof {
        reveal(stored_text);
    }
    let mut text = "{".to_owned();
    put_u32(&mut text, "v", block.version);
    put_text(&mut text, "l", block.ledger_id.as_str());
    put_u64(&mut text, "h", block.height);
    put_text(&mut text, "p", block.previous_block_hash.as_str());
    put_i64(&mut text, "t", block.timestamp);
    put_u64(&mut text, "n", block.producer_node_id);
    put_text(&mut text, "o", block.producer_owner_address.as_str());
    let operations = list_texts(&block.operation_ids);
    put_value(&mut text, "x", operations.as_str());
    put_text(&mut text, "r", block.state_root.as_str());
    put_text(&mut text, "b", block.block_hash.as_str());
    put_text(&mut text, "s", block.producer_signature.as_str());
    put_text(&mut text, "m", crate::blocks::mode_name(block.consensus_mode));
    put_u32(&mut text, "q", block.consensus_round);
    put_text(&mut text, "z", block.validator_set_hash.as_str());
    let commits = write_commits(&block.commit_signatures);
    put_value(&mut text, "c", commits.as_str());
    put_u64(&mut text, "e", block.validator_epoch);
    let validators = list_numbers(&block.validator_node_ids);
    put_value(&mut text, "i", validators.as_str());
    text.append("}");
    text
}

/// The text under which a block is stored.
pub open spec fn block_encoded(block: BlockModel) -> Outcome<Seq<char>> {
    match block_stored(block) {
        Err(refusal) => Err(refusal),
        Ok(stored) => Ok(stored_text(stored)),
    }
}

/// Writes a block as it is stored.
pub fn encode_block(block: &BlockRecord) -> (r: Result<String>)
    ensures
        match block_encoded(block.deep_view()) {
            Ok(text) => r matches Ok(written) && written@ == text,
            Err(refusal) => r matches Err(error) && error@ == refusal,
        },
{
    let stored = StoredBlock::from_block(block)?;
    Ok(write_stored_block(&stored))
}

/// Blocks under their heights; of several with one height the last.
pub open spec fn by_height(blocks: Seq<BlockModel>) -> Map<u64, BlockModel>
    decreases blocks.len(),
{
    if blocks.len() == 0 {
        Map::empty()
    } else {
        by_height(blocks.drop_last()).insert(blocks.last().height, blocks.last())
    }
}

fn index_blocks(blocks: &Vec<BlockRecord>) -> (r: Table<u64, BlockRecord>)
    ensures
        r@ == by_height(blocks.deep_view()),
{
    let ghost all = blocks.deep_view();
    let mut out: Table<u64, BlockRecord> = Table::new();
    let mut i: usize = 0;
    assert(all.take(0) =~= Seq::<BlockModel>::empty());
    while i < blocks.len()
        invariant
            i <= all.len(),
            all == blocks.deep_view(),
            all.len() == blocks@.len(),
            out@ == by_height(all.take(i as int)),
        decreases all.len() - i,
    {
        assert(all.take(i + 1).drop_last() =~= all.take(i as int));
        assert(all.take(i + 1).last() == blocks@[i as int].deep_view());
        out.insert(blocks[i].height, blocks[i].replicate());
        i = i + 1;
    }
    assert(all.take(all.len() as int) =~= all);
    out
}

/// What is to be done to the stored blocks: which are removed, and which are added with their
/// texts.
#[derive(Debug)]
pub struct BlockChanges {
    pub removed: Vec<u64>,
    pub added: Vec<(u64, String)>,
}

/// The contents of `BlockChanges`.
#[verifier::ext_equal]
pub struct ChangesModel {
    pub removed: Seq<u64>,
    pub added: Seq<(u64, Seq<char>)>,
}

impl DeepView for BlockChanges {
    type V = ChangesModel;

    open spec fn deep_view(&self) -> ChangesModel {
        ChangesModel { removed: self.removed@, added: self.added.deep_view() }
    }
}

/// Which heights are no longer there.
pub open spec fn gone_from(after: Map<u64, BlockModel>) -> spec_fn(u64) -> bool {
    |height: u64| !after.contains_key(height)
}

/// Whether a block is put in below the end of the chain.
pub open spec fn is_inserted(before: Map<u64, BlockModel>, height: u64) -> bool {
    !before.contains_key(height) && exists|known: u64|
        #[trigger] before.contains_key(known) && height <= known
}

/// The first height of some at which a block is put in below the end of the chain.
pub open spec fn insertion_in(before: Map<u64, BlockModel>, heights: Seq<u64>) -> Option<u64>
    decreases heights.len(),
{
    if heights.len() == 0 {
        None
    } else if is_inserted(before, heights[0]) {
        Some(heights[0])
    } else {
        insertion_in(before, heights.drop_first())
    }
}

/// The blocks that are added, with their texts: blocks that are there already have to be the same.
pub open spec fn additions(
    before: Map<u64, BlockModel>,
    after: Map<u64, BlockModel>,
    stored: Seq<u64>,
    heights: Seq<u64>,
    added: Seq<(u64, Seq<char>)>,
) -> Outcome<Seq<(u64, Seq<char>)>>
    decreases heights.len(),
{
    if heights.len() == 0 {
        Ok(added)
    } else {
        let height = heights[0];
        match block_encoded(after[height]) {
            Err(refusal) => Err(refusal),
            Ok(text) => if before.contains_key(height) {
                match block_encoded(before[height]) {
                    Err(refusal) => Err(refusal),
                    Ok(known) => if known != text {
                        Err("append-only block "@ + decimal(height as nat) + " was modified"@)
                    } else {
                        additions(before, after, stored, heights.drop_first(), added)
                    },
                }
            } else if stored.contains(height) {
                Err("append-only block "@ + decimal(height as nat) + " already exists"@)
            } else {
                additions(before, after, stored, heights.drop_first(), added.push((height, text)))
            },
        }
    }
}

/// What is to be done to the stored blocks, given the heights at which blocks are stored.
pub open spec fn changes_planned(
    before: Seq<BlockModel>,
    after: Seq<BlockModel>,
    stored: Seq<u64>,
) -> Outcome<ChangesModel> {
    let old_blocks = by_height(before);
    let new_blocks = by_height(after);
    let heights = ordered::<u64>(new_blocks.dom());
    if new_blocks.len() != after.len() {
        Err("block history contains duplicate heights"@)
    } else {
        match insertion_in(old_blocks, heights) {
            Some(height) => Err(
                "block "@ + decimal(height as nat) + " is not an append to the existing chain"@,
            ),
            None => match additions(old_blocks, new_blocks, stored, heights, Seq::empty()) {
                Err(refusal) => Err(refusal),
                Ok(added) => Ok(
                    ChangesModel {
                        removed: ordered::<u64>(old_blocks.dom()).filter(gone_from(new_blocks)),
                        added,
                    },
                ),
            },
        }
    }
}

fn check_inserted(before: &Table<u64, BlockRecord>, height: u64) -> (r: bool)
    ensures
        r == is_inserted(before@, height),
{
    let count = before.len();
    if before.contains_key(&height) || count == 0 {
        proof {
            if is_inserted(before@, height) {
                let known = choose|known: u64| #[trigger]
                    before@.contains_key(known) && height <= known;
                assert(before.keys().contains(known));
            }
        }
        return false;
    }
    let last: u64 = *before.key_at(count - 1);
    proof {
        assert(before@.contains_key(last));
        if is_inserted(before@, height) {
            let known = choose|known: u64| #[trigger]
                before@.contains_key(known) && height <= known;
            assert(before.keys().contains(known));
            let i = choose|i: int| 0 <= i < before.keys().len() && before.keys()[i] == known;
            if i < count - 1 {
                assert(before.keys()[i] < before.keys()[count - 1]);
            }
        }
    }
    height <= last
}

fn find_insertion(before: &Table<u64, BlockRecord>, after: &Table<u64, BlockRecord>) -> (r: Option<
    u64,
>)
    ensures
        r == insertion_in(before@, ordered::<u64>(after@.dom())),
{
    let ghost keys = after.keys();
    let mut i: usize = 0;
    assert(keys.skip(0) =~= keys);
    while i < after.len()
        invariant
            i <= keys.len(),
            keys == after.keys(),
            insertion_in(before@, keys) == insertion_in(before@, keys.skip(i as int)),
        decreases keys.len() - i,
    {
        assert(keys.skip(i as int)[0] == keys[i as int]);
        assert(keys.skip(i as int).drop_first() =~= keys.skip(i + 1));
        let height: u64 = *after.key_at(i);
        if check_inserted(before, height) {
            return Some(height);
        }
        i = i + 1;
    }
    None
}

fn list_removed(before: &Table<u64, BlockRecord>, after: &Table<u64, BlockRecord>) -> (r: Vec<u64>)
    ensures
        r@ == ordered::<u64>(before@.dom()).filter(gone_from(after@)),
{
    let ghost keys = before.keys();
    let ghost gone = gone_from(after@);
    let mut out: Vec<u64> = Vec::new();
    let mut i: usize = 0;
    proof {
        crate::sequence::filter_ends(keys, gone);
        assert(out@ =~= keys.take(0).filter(gone));
    }
    while i < before.len()
        invariant
            i <= keys.len(),
            keys == before.keys(),
            gone == gone_from(after@),
            out@ == keys.take(i as int).filter(gone),
        decreases keys.len() - i,
    {
        proof {
            crate::sequence::filter_step(keys, i as int, gone);
        }
        let height: u64 = *before.key_at(i);
        if !after.contains_key(&height) {
            out.push(height);
        }
        i = i + 1;
    }
    proof {
        crate::sequence::filter_ends(keys, gone);
    }
    out
}

fn list_added(
    before: &Table<u64, BlockRecord>,
    after: &Table<u64, BlockRecord>,
    stored: &Vec<u64>,
) -> (r: Result<Vec<(u64, String)>>)
    ensures
        match additions(
            before@,
            after@,
            stored@,
            ordered::<u64>(after@.dom()),
            Seq::empty(),
        ) {
            Ok(added) => r matches Ok(list) && list.deep_view() == added,
            Err(refusal) => r matches Err(error) && error@ == refusal,
        },
{
    let ghost keys = after.keys();
    let mut out: Vec<(u64, String)> = Vec::new();
    let mut i: usize = 0;
    assert(keys.skip(0) =~= keys);
    assert(out.deep_view() =~= Seq::<(u64, Seq<char>)>::empty());
    while i < after.len()
        invariant
            i <= keys.len(),
            keys == after.keys(),
            additions(before@, after@, stored@, keys, Seq::empty()) == additions(
                before@,
                after@,
                stored@,
                keys.skip(i as int),
                out.deep_view(),
            ),
        decreases keys.len() - i,
    {
        assert(keys.skip(i as int)[0] == keys[i as int]);
        assert(keys.skip(i as int).drop_first() =~= keys.skip(i + 1));
        let height: u64 = *after.key_at(i);
        let text = encode_block(after.value_at(i))?;
        match before.get(&height) {
            Some(previous) => {
                let known = encode_block(previous)?;
                if !text_same(known.as_str(), text.as_str()) {
                    return Err(
                        Error::owned(
                            join3(
                                "append-only block ",
                                u64_text(height).as_str(),
                                " was modified",
                            ),
                        ),
                    );
                }
            },
            None => {
                if contains_id(stored, height) {
                    return Err(
                        Error::owned(
                            join3(
                                "append-only block ",
                                u64_text(height).as_str(),
                                " already exists",
                            ),
                        ),
                    );
                }
                let ghost list = out.deep_view();
                out.push((height, text));
                assert(out.deep_view() =~= list.push((height, text@)));
            },
        }
        i = i + 1;
    }
    Ok(out)
}

/// Plans what is to be done to the stored blocks so that they become the blocks after, given the
/// heights at which blocks are stored. Blocks are only added at the end and never changed.
pub fn plan_block_changes(
    before: &Vec<BlockRecord>,
    after: &Vec<BlockRecord>,
    stored: &Vec<u64>,
) -> (r: Result<BlockChanges>)
    ensures
        outcome(r) == changes_planned(before.deep_view(), after.deep_view(), stored@),
{
    let known = index_blocks(before);
    let wanted = index_blocks(after);
    if wanted.len() != after.len() {
        return Err(Error::msg("block history contains duplicate heights"));
    }
    if let Some(height) = find_insertion(&known, &wanted) {
        return Err(
            Error::owned(
                join3(
                    "block ",
                    u64_text(height).as_str(),
                    " is not an append to the existing chain",
                ),
            ),
        );
    }
    let added = list_added(&known, &wanted, stored)?;
    let removed = list_removed(&known, &wanted);
    Ok(BlockChanges { removed, added })
}

} // verus!
