use mrk_core::blocks::block_signing_text;
use mrk_core::model::{
    AccountState, BlockConsensusMode, BlockRecord, ConsensusVote, ConsensusVoteType, LedgerState,
};
use mrk_core::overlays::{
    apply_overlay, ensure_contiguous, find_committed_rows, find_overlay, list_rows,
    restore_committed,
};
use mrk_core::storage::{encode_block, plan_block_changes, StoredBlock};
use mrk_core::table::{Replicate, Same, Table};

fn stored_test_block() -> BlockRecord {
    BlockRecord {
        version: 1,
        ledger_id: "ledger".to_owned(),
        height: 42,
        previous_block_hash: "previous".to_owned(),
        timestamp: 100,
        producer_node_id: 1,
        producer_owner_address: "owner".to_owned(),
        operation_ids: vec!["operation".to_owned()],
        state_root: "state".to_owned(),
        block_hash: "block".to_owned(),
        producer_signature: "producer-signature".to_owned(),
        consensus_mode: BlockConsensusMode::MultiValidator,
        consensus_round: 3,
        validator_set_hash: "validators".to_owned(),
        commit_signatures: vec![ConsensusVote {
            ledger_id: "ledger".to_owned(),
            height: 42,
            round: 3,
            vote_type: ConsensusVoteType::Precommit,
            block_hash: Some("block".to_owned()),
            validator_set_hash: "validators".to_owned(),
            validator_node_id: 2,
            timestamp: 101,
            signature: "validator-signature".to_owned(),
        }],
        validator_epoch: 7,
        validator_node_ids: vec![1, 2, 3, 4],
    }
}

/// The block with every field of its votes written out.
fn expanded(block: &BlockRecord) -> String {
    let votes = block
        .commit_signatures
        .iter()
        .map(|vote| {
            format!(
                "{{\"ledger_id\":\"{}\",\"height\":{},\"round\":{},\"vote_type\":\"PRECOMMIT\",\"block_hash\":\"{}\",\"validator_set_hash\":\"{}\",\"validator_node_id\":{},\"timestamp\":{},\"signature\":\"{}\"}}",
                vote.ledger_id,
                vote.height,
                vote.round,
                vote.block_hash.as_deref().unwrap(),
                vote.validator_set_hash,
                vote.validator_node_id,
                vote.timestamp,
                vote.signature
            )
        })
        .collect::<Vec<_>>()
        .join(",");
    let members = block_signing_text(block);
    format!(
        "{},\"block_hash\":\"{}\",\"producer_signature\":\"{}\",\"commit_signatures\":[{votes}]}}",
        members.strip_suffix('}').unwrap(),
        block.block_hash,
        block.producer_signature
    )
}

#[test]
fn stored_commit_omits_fields_repeated_by_its_block() {
    let block = stored_test_block();

    let compact = encode_block(&block).unwrap();
    let expanded = expanded(&block);
    assert!(compact.len() < expanded.len());
    let decoded = StoredBlock::from_block(&block).unwrap().into_block();
    assert!(decoded.same(&block));
}

#[test]
fn stored_blocks_are_written_as_json() {
    let compact = encode_block(&stored_test_block()).unwrap();
    let value: serde_json::Value = serde_json::from_str(&compact).unwrap();
    assert_eq!(value["h"], 42);
    assert_eq!(value["m"], "MULTI_VALIDATOR");
    assert_eq!(value["c"][0][2], "validator-signature");
    assert_eq!(value["c"][0].as_array().unwrap().len(), 3);
}

#[test]
fn commits_of_another_block_are_not_stored() {
    let mut block = stored_test_block();
    block.commit_signatures[0].height = 41;
    assert!(StoredBlock::from_block(&block).is_err());
}

fn account(balance: u128) -> AccountState {
    AccountState {
        balance,
        ..AccountState::default()
    }
}

#[test]
fn overlays_lead_from_one_table_to_the_other() {
    let mut live: Table<String, AccountState> = Table::new();
    live.insert("kept".to_owned(), account(1));
    live.insert("changed".to_owned(), account(2));
    live.insert("added".to_owned(), account(3));
    let mut committed: Table<String, AccountState> = Table::new();
    committed.insert("kept".to_owned(), account(1));
    committed.insert("changed".to_owned(), account(9));
    committed.insert("removed".to_owned(), account(4));
    let rows = find_overlay(&live, &committed);
    assert_eq!(rows.len(), 3);
    assert!(rows.get(&"kept".to_owned()).is_none());
    assert!(rows.get(&"added".to_owned()).unwrap().is_none());
    apply_overlay(&mut live, &rows);
    assert!(live.same(&committed));
}

#[test]
fn stored_states_come_back() {
    let mut live = LedgerState::default();
    live.accounts.insert("a".to_owned(), account(5));
    let mut committed = LedgerState::default();
    committed.accounts.insert("a".to_owned(), account(4));
    committed.burned = 7;
    let rows = find_committed_rows(&live, &committed);
    assert_eq!(rows.accounts.len(), 1);
    let mut stored = committed.copy();
    stored.accounts = Table::new();
    let restored = restore_committed(&live, &stored, &rows).unwrap();
    assert_eq!(restored.accounts.get(&"a".to_owned()).unwrap().balance, 4);
    assert_eq!(restored.burned, 7);
}

#[test]
fn gaps_in_a_list_are_refused() {
    let mut rows: Table<u64, u64> = Table::new();
    rows.insert(0, 5);
    rows.insert(2, 6);
    assert_eq!(
        ensure_contiguous(&rows).unwrap_err().text(),
        "indexed state table is not contiguous"
    );
    rows.insert(1, 7);
    ensure_contiguous(&rows).unwrap();
    assert_eq!(list_rows(&rows), vec![5, 7, 6]);
}

#[test]
fn blocks_are_only_appended() {
    let first = stored_test_block();
    let mut second = stored_test_block();
    second.height = 43;
    second.commit_signatures = Vec::new();
    let one = vec![first.replicate()];
    let both = vec![first.replicate(), second.replicate()];
    let changes = plan_block_changes(&one, &both, &vec![42]).unwrap();
    assert!(changes.removed.is_empty());
    assert_eq!(changes.added.len(), 1);
    assert_eq!(changes.added[0].0, 43);

    let mut altered = stored_test_block();
    altered.timestamp = 7;
    assert_eq!(
        plan_block_changes(&one, &vec![altered], &vec![42])
            .unwrap_err()
            .text(),
        "append-only block 42 was modified"
    );
    assert_eq!(
        plan_block_changes(&vec![second.replicate()], &both, &vec![43])
            .unwrap_err()
            .text(),
        "block 42 is not an append to the existing chain"
    );
    assert_eq!(
        plan_block_changes(&one, &vec![first.replicate(), first.replicate()], &vec![42])
            .unwrap_err()
            .text(),
        "block history contains duplicate heights"
    );
    assert_eq!(
        plan_block_changes(&both, &vec![second], &vec![42, 43])
            .unwrap()
            .removed,
        vec![42]
    );
}
