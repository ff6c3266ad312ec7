use vstd::prelude::*;
use vstd::string::*;
use vstd::utf8::*;

use crate::chain::{
    chain_height, chain_tip_hash, chain_tip_timestamp, height, tip_hash, tip_timestamp,
};
use crate::crypto::{full_id, sha256_full_id};
use crate::error::{outcome, Error, Outcome, Result};
use crate::json::{
    json_list, json_member, json_optional, json_quoted, list_numbers, list_texts, list_values,
    put_i64, put_optional_text, put_text, put_u32, put_u64, put_value,
};
use crate::model::{
    AccountModel, AccountState, BlockConsensusMode, BlockModel, BlockRecord, ConsensusVote,
    ConsensusVoteType, LedgerModel, LedgerState, OperationModel, OperationRecord, VoteModel,
};
use crate::protocol::GENESIS_PREVIOUS_BLOCK_HASH;
use crate::search::{change_all, entries_changed, entries_where, keep_where, retain_where};
use crate::table::{Replicate, Table};
use crate::text::{decimal, join3, join5, signed_decimal, u64_text};

verus! {

/// How the way in which a block was agreed on is written.
pub open spec fn mode_text(mode: BlockConsensusMode) -> Seq<char> {
    match mode {
        BlockConsensusMode::Node1 => "NODE1"@,
        BlockConsensusMode::MultiValidator => "MULTI_VALIDATOR"@,
    }
}

pub fn mode_name(mode: BlockConsensusMode) -> (r: &'static str)
    ensures
        r@ == mode_text(mode),
{
    match mode {
        BlockConsensusMode::Node1 => "NODE1",
        BlockConsensusMode::MultiValidator => "MULTI_VALIDATOR",
    }
}

/// The members that every block's signature covers.
pub open spec fn block_members(block: BlockModel) -> Seq<char> {
    let a = json_member("{"@, "version"@, decimal(block.version as nat));
    let b = json_member(a, "ledger_id"@, json_quoted(block.ledger_id));
    let c = json_member(b, "height"@, decimal(block.height as nat));
    let d = json_member(c, "previous_block_hash"@, json_quoted(block.previous_block_hash));
    let e = json_member(d, "timestamp"@, signed_decimal(block.timestamp as int));
    let f = json_member(e, "producer_node_id"@, decimal(block.producer_node_id as nat));
    let g = json_member(f, "producer_owner_address"@, json_quoted(block.producer_owner_address));
    let h = json_member(
        g,
        "operation_ids"@,
        json_list(block.operation_ids.map_values(|text: Seq<char>| json_quoted(text))),
    );
    json_member(h, "state_root"@, json_quoted(block.state_root))
}

/// What the first node signs on a block.
pub open spec fn block_signed(block: BlockModel) -> Seq<char> {
    block_members(block) + "}"@
}

/// What a validator signs on a block that it proposes.
pub open spec fn multi_block_signed(block: BlockModel) -> Seq<char> {
    let a = json_member(
        block_members(block),
        "consensus_mode"@,
        json_quoted(mode_text(block.consensus_mode)),
    );
    let b = json_member(a, "consensus_round"@, decimal(block.consensus_round as nat));
    let c = json_member(b, "validator_set_hash"@, json_quoted(block.validator_set_hash));
    let d = json_member(c, "validator_epoch"@, decimal(block.validator_epoch as nat));
    let e = json_member(
        d,
        "validator_node_ids"@,
        json_list(block.validator_node_ids.map_values(|n: u64| decimal(n as nat))),
    );
    e + "}"@
}

/// The hash of a block whose signature covers a text.
pub open spec fn hash_of(signed: Seq<char>) -> Seq<char> {
    full_id("blk"@, encode_utf8(signed))
}

fn write_block_members(block: &BlockRecord) -> (r: String)
    ensures
        r@ == block_members(block.deep_view()),
{
    let mut text = "{".to_owned();
    put_u32(&mut text, "version", block.version);
    put_text(&mut text, "ledger_id", block.ledger_id.as_str());
    put_u64(&mut text, "height", block.height);
    put_text(&mut text, "previous_block_hash", block.previous_block_hash.as_str());
    put_i64(&mut text, "timestamp", block.timestamp);
    put_u64(&mut text, "producer_node_id", block.producer_node_id);
    put_text(&mut text, "producer_owner_address", block.producer_owner_address.as_str());
    let ids = list_texts(&block.operation_ids);
    put_value(&mut text, "operation_ids", ids.as_str());
    put_text(&mut text, "state_root", block.state_root.as_str());
    text
}

/// Writes what the first node signs on a block.
pub fn block_signing_text(block: &BlockRecord) -> (r: String)
    ensures
        r@ == block_signed(block.deep_view()),
{
    let mut text = write_block_members(block);
    text.append("}");
    text
}

/// Writes what a validator signs on a block that it proposes.
pub fn multi_validator_block_signing_text(block: &BlockRecord) -> (r: String)
    ensures
        r@ == multi_block_signed(block.deep_view()),
{
    let mut text = write_block_members(block);
    put_text(&mut text, "consensus_mode", mode_name(block.consensus_mode));
    put_u32(&mut text, "consensus_round", block.consensus_round);
    put_text(&mut text, "validator_set_hash", block.validator_set_hash.as_str());
    put_u64(&mut text, "validator_epoch", block.validator_epoch);
    let ids = list_numbers(&block.validator_node_ids);
    put_value(&mut text, "validator_node_ids", ids.as_str());
    text.append("}");
    text
}

/// Hashes what a block's signature covers.
pub fn hash_block(signed: &str) -> (r: String)
    ensures
        r@ == hash_of(signed@),
{
    sha256_full_id("blk", signed.as_bytes())
}

/// How the kind of a vote is written.
pub open spec fn vote_type_text(vote_type: ConsensusVoteType) -> Seq<char> {
    match vote_type {
        ConsensusVoteType::Prevote => "PREVOTE"@,
        ConsensusVoteType::Precommit => "PRECOMMIT"@,
    }
}

/// Names the kind of a vote.
pub fn vote_type_name(vote_type: ConsensusVoteType) -> (r: &'static str)
    ensures
        r@ == vote_type_text(vote_type),
{
    match vote_type {
        ConsensusVoteType::Prevote => "PREVOTE",
        ConsensusVoteType::Precommit => "PRECOMMIT",
    }
}

/// What a validator signs on its vote.
pub open spec fn vote_signed(vote: VoteModel) -> Seq<char> {
    let a = json_member("{"@, "ledger_id"@, json_quoted(vote.ledger_id));
    let b = json_member(a, "height"@, decimal(vote.height as nat));
    let c = json_member(b, "round"@, decimal(vote.round as nat));
    let d = json_member(c, "vote_type"@, json_quoted(vote_type_text(vote.vote_type)));
    let e = json_member(d, "block_hash"@, json_optional(vote.block_hash));
    let f = json_member(e, "validator_set_hash"@, json_quoted(vote.validator_set_hash));
    let g = json_member(f, "validator_node_id"@, decimal(vote.validator_node_id as nat));
    let h = json_member(g, "timestamp"@, signed_decimal(vote.timestamp as int));
    h + "}"@
}

/// Writes what a validator signs on its vote.
pub fn vote_signing_text(vote: &ConsensusVote) -> (r: String)
    ensures
        r@ == vote_signed(vote.deep_view()),
{
    let mut text = "{".to_owned();
    put_text(&mut text, "ledger_id", vote.ledger_id.as_str());
    put_u64(&mut text, "height", vote.height);
    put_u32(&mut text, "round", vote.round);
    put_text(&mut text, "vote_type", vote_type_name(vote.vote_type));
    put_optional_text(&mut text, "block_hash", &vote.block_hash);
    put_text(&mut text, "validator_set_hash", vote.validator_set_hash.as_str());
    put_u64(&mut text, "validator_node_id", vote.validator_node_id);
    put_i64(&mut text, "timestamp", vote.timestamp);
    text.append("}");
    text
}

/// A validator as it is listed for the hash of the set.
pub open spec fn set_entry(ledger: LedgerModel, node_id: u64) -> Seq<char> {
    let node = ledger.nodes[node_id];
    let a = json_member("{"@, "node_id"@, decimal(node_id as nat));
    let b = json_member(a, "owner_address"@, json_quoted(node.owner_address));
    let c = json_member(b, "owner_public_key"@, json_quoted(node.owner_public_key));
    c + "}"@
}

/// The validators as they are listed for the hash of the set, or the first that is missing.
pub open spec fn set_entries(
    ledger: LedgerModel,
    validators: Seq<u64>,
    listed: Seq<Seq<char>>,
) -> Outcome<Seq<Seq<char>>>
    decreases validators.len(),
{
    if validators.len() == 0 {
        Ok(listed)
    } else if !ledger.nodes.contains_key(validators[0]) {
        Err("Validator Node "@ + decimal(validators[0] as nat) + " is missing"@)
    } else {
        set_entries(
            ledger,
            validators.drop_first(),
            listed.push(set_entry(ledger, validators[0])),
        )
    }
}

/// What the hash of a set of validators covers.
pub open spec fn set_text(ledger_id: Seq<char>, epoch: u64, entries: Seq<Seq<char>>) -> Seq<char> {
    let a = json_member("{"@, "epoch"@, decimal(epoch as nat));
    let b = json_member(a, "ledger_id"@, json_quoted(ledger_id));
    let c = json_member(b, "validators"@, json_list(entries));
    c + "}"@
}

/// The hash of the validators of an epoch.
pub open spec fn set_hash(ledger: LedgerModel, epoch: u64, validators: Seq<u64>) -> Outcome<
    Seq<char>,
> {
    match set_entries(ledger, validators, Seq::empty()) {
        Err(refusal) => Err(refusal),
        Ok(entries) => Ok(
            full_id("vset"@, encode_utf8(set_text(ledger.ledger_id, epoch, entries))),
        ),
    }
}

fn write_set_entry(
    node_id: u64,
    owner_address: &str,
    owner_public_key: &str,
) -> (r: String)
    ensures
        r@ == ({
            let a = json_member("{"@, "node_id"@, decimal(node_id as nat));
            let b = json_member(a, "owner_address"@, json_quoted(owner_address@));
            let c = json_member(b, "owner_public_key"@, json_quoted(owner_public_key@));
            c + "}"@
        }),
{
    let mut text = "{".to_owned();
    put_u64(&mut text, "node_id", node_id);
    put_text(&mut text, "owner_address", owner_address);
    put_text(&mut text, "owner_public_key", owner_public_key);
    text.append("}");
    text
}

/// Hashes the validators of an epoch.
pub fn validator_set_hash_for_epoch(
    ledger: &LedgerState,
    epoch: u64,
    validators: &Vec<u64>,
) -> (r: Result<String>)
    ensures
        outcome(r) == set_hash(ledger@, epoch, validators@),
{
    let mut entries: Vec<String> = Vec::new();
    let mut i: usize = 0;
    assert(validators@.skip(0) =~= validators@);
    assert(entries.deep_view() =~= Seq::<Seq<char>>::empty());
    while i < validators.len()
        invariant
            i <= validators@.len(),
            set_entries(ledger@, validators@, Seq::empty()) == set_entries(
                ledger@,
                validators@.skip(i as int),
                entries.deep_view(),
            ),
        decreases validators@.len() - i,
    {
        assert(validators@.skip(i as int)[0] == validators@[i as int]);
        assert(validators@.skip(i as int).drop_first() =~= validators@.skip(i + 1));
        let node_id: u64 = validators[i];
        match ledger.nodes.get(&node_id) {
            None => {
                return Err(
                    Error::owned(
                        join3("Validator Node ", u64_text(node_id).as_str(), " is missing"),
                    ),
                );
            },
            Some(node) => {
                let ghost before = entries.deep_view();
                let entry = write_set_entry(
                    node_id,
                    node.owner_address.as_str(),
                    node.owner_public_key.as_str(),
                );
                assert(entry@ == set_entry(ledger@, node_id));
                entries.push(entry);
                assert(entries.deep_view() =~= before.push(entry@));
            },
        }
        i = i + 1;
    }
    let mut text = "{".to_owned();
    put_u64(&mut text, "epoch", epoch);
    put_text(&mut text, "ledger_id", ledger.ledger_id.as_str());
    let list = list_values(&entries);
    put_value(&mut text, "validators", list.as_str());
    text.append("}");
    Ok(sha256_full_id("vset", text.as_str().as_bytes()))
}

/// Hashes the validators of the current epoch.
pub fn validator_set_hash(ledger: &LedgerState, validators: &Vec<u64>) -> (r: Result<String>)
    ensures
        outcome(r) == set_hash(ledger@, ledger@.epoch_number, validators@),
{
    validator_set_hash_for_epoch(ledger, ledger.epoch_number, validators)
}

/// Texts with commas between them.
pub open spec fn comma_text(texts: Seq<Seq<char>>) -> Seq<char>
    decreases texts.len(),
{
    if texts.len() == 0 {
        Seq::empty()
    } else if texts.len() == 1 {
        texts[0]
    } else {
        comma_text(texts.drop_last()) + ","@ + texts.last()
    }
}

fn join_with_commas(texts: &Vec<String>) -> (r: String)
    ensures
        r@ == comma_text(texts.deep_view()),
{
    let ghost all = texts.deep_view();
    let mut out = "".to_owned();
    proof {
        reveal_strlit("");
        assert(""@ =~= Seq::<char>::empty());
    }
    assert(all.take(0) =~= Seq::<Seq<char>>::empty());
    let mut i: usize = 0;
    while i < texts.len()
        invariant
            i <= all.len(),
            all == texts.deep_view(),
            all.len() == texts@.len(),
            out@ == comma_text(all.take(i as int)),
        decreases all.len() - i,
    {
        assert(all.take(i + 1).drop_last() =~= all.take(i as int));
        assert(all.take(i + 1).last() == texts@[i as int]@);
        if i > 0 {
            out.append(",");
        }
        out.append(texts[i].as_str());
        proof {
            if i == 0 {
                assert(out@ =~= texts@[0]@);
            }
        }
        i = i + 1;
    }
    assert(all.take(all.len() as int) =~= all);
    out
}

/// What two proposals of different rounds have in common if they are the same block.
pub open spec fn value_id(block: BlockModel) -> Seq<char> {
    full_id(
        "consensus-value"@,
        encode_utf8(
            decimal(block.height as nat) + ":"@ + block.state_root + ":"@ + comma_text(
                block.operation_ids,
            ),
        ),
    )
}

/// Identifies what is agreed on, whoever proposes it and in whatever round.
pub fn consensus_value_id(block: &BlockRecord) -> (r: String)
    ensures
        r@ == value_id(block.deep_view()),
{
    let text = join5(
        u64_text(block.height).as_str(),
        ":",
        block.state_root.as_str(),
        ":",
        join_with_commas(&block.operation_ids).as_str(),
    );
    sha256_full_id("consensus-value", text.as_str().as_bytes())
}

/// The hash that the next block refers to.
pub open spec fn previous_hash(ledger: LedgerModel) -> Seq<char> {
    match chain_tip_hash(ledger) {
        Some(hash) => hash,
        None => GENESIS_PREVIOUS_BLOCK_HASH@,
    }
}

/// Finds the hash that the next block refers to.
pub fn find_previous_hash(ledger: &LedgerState) -> (r: String)
    ensures
        r@ == previous_hash(ledger@),
{
    match tip_hash(ledger) {
        Some(hash) => hash,
        None => GENESIS_PREVIOUS_BLOCK_HASH.to_owned(),
    }
}

/// Whether an operation is kept in the state after a block: it is pending or of that block.
pub open spec fn is_kept(operation: OperationModel, height: u64) -> bool {
    operation.block_height is None || operation.block_height == Some(height)
}

/// Which operations are kept.
pub open spec fn kept_at(height: u64) -> spec_fn(OperationModel) -> bool {
    |operation: OperationModel| is_kept(operation, height)
}

/// The account, of whose history only what is kept is left.
pub open spec fn history_kept(kept: Set<Seq<char>>) -> spec_fn(Seq<char>, AccountModel) -> AccountModel {
    |address: Seq<char>, account: AccountModel|
        AccountModel { operation_ids: account.operation_ids.filter(among(kept)), ..account }
}

/// Which texts are in a set.
pub open spec fn among(kept: Set<Seq<char>>) -> spec_fn(Seq<char>) -> bool {
    |id: Seq<char>| kept.contains(id)
}

/// The state that stands for a chain up to its last block.
pub open spec fn checkpoint_of(ledger: LedgerModel) -> LedgerModel {
    let height = chain_height(ledger);
    let operations = entries_where(ledger.operations, kept_at(height));
    LedgerModel {
        finalized_checkpoint: None,
        blocks: Seq::empty(),
        pruned_through_height: height,
        pruned_tip_hash: chain_tip_hash(ledger),
        pruned_tip_timestamp: chain_tip_timestamp(ledger),
        operations,
        accounts: entries_changed(ledger.accounts, history_kept(operations.dom())),
        ..ledger
    }
}

/// The ledger after the state after its last block has been set aside.
pub open spec fn checkpoint_taken(ledger: LedgerModel) -> LedgerModel {
    LedgerModel { finalized_checkpoint: Some(Box::new(checkpoint_of(ledger))), ..ledger }
}

/// The identifiers of a list that a table of operations holds.
pub fn keep_known(ids: &Vec<String>, operations: &Table<String, OperationRecord>) -> (r: Vec<String>)
    ensures
        r.deep_view() == ids.deep_view().filter(among(operations@.dom())),
{
    let test = |id: &String| -> (b: bool)
        ensures
            b == operations@.dom().contains(id.deep_view()),
        { operations.contains_key(id) };
    keep_where(ids, Ghost(among(operations@.dom())), test)
}

/// Makes the state that stands for a chain up to its last block.
pub fn make_checkpoint(ledger: &LedgerState) -> (r: LedgerState)
    ensures
        r@ == checkpoint_of(ledger@),
{
    let mut checkpoint = ledger.copy();
    let at: u64 = height(ledger);
    let hash = tip_hash(ledger);
    let timestamp = tip_timestamp(ledger);
    let test = |operation: &OperationRecord| -> (b: bool)
        ensures
            b == is_kept(operation.deep_view(), at),
        {
            match operation.block_height {
                None => true,
                Some(block_height) => block_height == at,
            }
        };
    let operations = retain_where(&ledger.operations, Ghost(kept_at(at)), test);
    let trim = |address: &String, account: &AccountState| -> (next: AccountState)
        ensures
            next.deep_view() == history_kept(operations@.dom())(
                address.deep_view(),
                account.deep_view(),
            ),
        { trim_history(account, &operations) };
    let accounts = change_all(&ledger.accounts, Ghost(history_kept(operations@.dom())), trim);
    checkpoint.finalized_checkpoint = None;
    checkpoint.blocks = Vec::new();
    checkpoint.pruned_through_height = at;
    checkpoint.pruned_tip_hash = hash;
    checkpoint.pruned_tip_timestamp = timestamp;
    checkpoint.operations = operations;
    checkpoint.accounts = accounts;
    assert(checkpoint.blocks.deep_view() =~= Seq::<BlockModel>::empty());
    checkpoint
}

fn trim_history(account: &AccountState, operations: &Table<String, OperationRecord>) -> (r:
    AccountState)
    ensures
        r.deep_view() == history_kept(operations@.dom())(Seq::empty(), account.deep_view()),
{
    let mut trimmed = account.replicate();
    trimmed.operation_ids = keep_known(&account.operation_ids, operations);
    trimmed
}

/// Sets the state after the last block aside.
pub fn update_finalized_checkpoint(ledger: &mut LedgerState)
    ensures
        final(ledger)@ == checkpoint_taken(old(ledger)@),
{
    let checkpoint = make_checkpoint(ledger);
    ledger.finalized_checkpoint = Some(Box::new(checkpoint));
}

/// The state after the last block stands for the same chain: it has the same height, tip and
/// balances.
pub proof fn checkpoint_keeps_the_tip(ledger: LedgerModel, address: Seq<char>)
    ensures
        chain_height(checkpoint_of(ledger)) == chain_height(ledger),
        chain_tip_hash(checkpoint_of(ledger)) == chain_tip_hash(ledger),
        chain_tip_timestamp(checkpoint_of(ledger)) == chain_tip_timestamp(ledger),
        crate::accounts::balance_of(checkpoint_of(ledger), address) == crate::accounts::balance_of(
            ledger,
            address,
        ),
        checkpoint_of(ledger).nodes == ledger.nodes,
        checkpoint_of(ledger).burned == ledger.burned,
{
}

} // verus!
