use mrk_core::epochs::{advance_epochs_for_block, new_epoch_context};
use mrk_core::model::{AccountState, BlockConsensusMode, BlockRecord, LedgerState};
use mrk_core::protocol::PROTOCOL_VERSION;
use mrk_core::ranking::{
    account_ranking_cursor, account_rankings, parse_account_ranking_cursor,
    snapshot_for_finalized_transition, AccountRankingBalance, AccountRankingSnapshot,
};
use mrk_core::table::Table;
use mrk_core::views::AccountRankingListView;

fn test_block(ledger_id: &str, height: u64, previous: &str, hash: &str, timestamp: i64) -> BlockRecord {
    BlockRecord {
        version: PROTOCOL_VERSION,
        ledger_id: ledger_id.to_owned(),
        height,
        previous_block_hash: previous.to_owned(),
        timestamp,
        producer_node_id: 1,
        producer_owner_address: "mrk1owner".to_owned(),
        operation_ids: Vec::new(),
        state_root: format!("state_{height}"),
        block_hash: hash.to_owned(),
        producer_signature: "signature".to_owned(),
        consensus_mode: BlockConsensusMode::Node1,
        consensus_round: 0,
        validator_set_hash: String::new(),
        commit_signatures: Vec::new(),
        validator_epoch: 0,
        validator_node_ids: Vec::new(),
    }
}

/// A ledger and the latest ranking that a change of it has led to.
struct Store {
    ledger: LedgerState,
    ranking: Option<AccountRankingSnapshot>,
}

impl Store {
    fn commit(&mut self, change: impl FnOnce(&mut LedgerState)) {
        let mut next = self.ledger.copy();
        change(&mut next);
        if let Some(ranking) = snapshot_for_finalized_transition(&self.ledger, &next).unwrap() {
            self.ranking = Some(ranking);
        }
        self.ledger = next;
    }

    fn rankings(
        &self,
        cursor: Option<&str>,
        limit: usize,
    ) -> mrk_core::error::Result<AccountRankingListView> {
        account_rankings(
            self.ranking.as_ref(),
            &self.ledger.ledger_id,
            self.ledger.epoch_number,
            cursor,
            limit,
        )
    }
}

fn account(balance: u128) -> AccountState {
    AccountState {
        balance,
        ..AccountState::default()
    }
}

#[test]
fn epoch_transition_records_the_previous_finalized_account_ranking_index() {
    let mut ledger = LedgerState {
        created_at: 0,
        epoch_started_at: 0,
        epoch_number: 0,
        epoch_seconds_snapshot: 60,
        ..LedgerState::default()
    };
    ledger.settings.epoch_seconds = 60;
    ledger.accounts.insert("mrk1beta".to_owned(), account(100));
    for address in ["mrk1gamma", "mrk1alpha"] {
        ledger.accounts.insert(address.to_owned(), account(200));
    }
    ledger.epoch_contexts = Table::new();
    let context = new_epoch_context(&ledger).unwrap();
    ledger.epoch_contexts.insert(ledger.epoch_number, context);
    let ledger_id = ledger.ledger_id.clone();
    ledger
        .blocks
        .push(test_block(&ledger_id, 1, "GENESIS", "blk_epoch_0", 30));
    let mut store = Store {
        ledger,
        ranking: None,
    };

    store.commit(|ledger| {
        advance_epochs_for_block(ledger, 60).unwrap();
        ledger
            .blocks
            .push(test_block(&ledger_id, 2, "blk_epoch_0", "blk_epoch_1", 60));
    });

    let first = store.rankings(None, 2).unwrap();
    assert_eq!(first.snapshot_epoch, 0);
    assert_eq!(first.snapshot_height, 1);
    assert_eq!(first.total_account_balance_base_units, "500");
    assert_eq!(first.accounts[0].address, "mrk1alpha");
    assert_eq!(first.accounts[1].address, "mrk1gamma");
    let cursor = first.next_cursor.unwrap();
    assert_eq!(
        store.rankings(Some(&cursor), 2).unwrap().accounts[0].address,
        "mrk1beta"
    );
    assert_eq!(
        store.rankings(None, 10).unwrap().accounts[0].address,
        "mrk1alpha"
    );

    store.commit(|ledger| {
        ledger.accounts.get_mut(&"mrk1beta".to_owned()).unwrap().balance = 1_000;
    });
    assert_eq!(
        store.rankings(None, 10).unwrap().total_account_balance_base_units,
        "500"
    );
    store.commit(|ledger| {
        ledger
            .blocks
            .push(test_block(&ledger_id, 3, "blk_epoch_1", "blk_epoch_1_mid", 90));
    });
    assert_eq!(
        store.rankings(None, 10).unwrap().total_account_balance_base_units,
        "500"
    );
    store.commit(|ledger| {
        advance_epochs_for_block(ledger, 120).unwrap();
        ledger
            .blocks
            .push(test_block(&ledger_id, 4, "blk_epoch_1_mid", "blk_epoch_2", 120));
    });
    assert!(store.rankings(Some(&cursor), 2).is_err());
    let refreshed = store.rankings(None, 10).unwrap();
    assert_eq!(refreshed.snapshot_epoch, 1);
    assert_eq!(refreshed.accounts[0].address, "mrk1beta");
    assert_eq!(refreshed.total_account_balance_base_units, "1400");
}

#[test]
fn malformed_cursors_are_refused() {
    let snapshot = AccountRankingSnapshot {
        ledger_id: "ledger".to_owned(),
        epoch: 3,
        height: 9,
        block_hash: None,
        total_balance: 0,
        accounts: Vec::new(),
    };
    let refused = |cursor: &str| {
        account_rankings(Some(&snapshot), "ledger", 4, Some(cursor), 5)
            .unwrap_err()
            .text()
            .to_owned()
    };
    assert_eq!(refused("***"), "account ranking cursor is invalid");
    let other = account_ranking_cursor(2, 9, 0);
    assert_eq!(
        refused(&other),
        "account ranking cursor belongs to another snapshot"
    );
}

#[test]
fn pages_of_a_ranking_list_every_account() {
    let balances = [70_u128, 60, 50, 40, 30, 20, 10];
    let snapshot = AccountRankingSnapshot {
        ledger_id: "ledger".to_owned(),
        epoch: 3,
        height: 9,
        block_hash: None,
        total_balance: balances.iter().sum(),
        accounts: balances
            .iter()
            .map(|balance| AccountRankingBalance {
                address: format!("mrk1{balance}"),
                balance: *balance,
            })
            .collect(),
    };
    for limit in 1..=8 {
        let mut listed = Vec::new();
        let mut cursor: Option<String> = None;
        loop {
            let page =
                account_rankings(Some(&snapshot), "ledger", 4, cursor.as_deref(), limit).unwrap();
            assert!(page.accounts.len() <= limit);
            listed.extend(page.accounts.into_iter().map(|entry| (entry.rank, entry.address)));
            cursor = page.next_cursor;
            if cursor.is_none() {
                break;
            }
        }
        let expected: Vec<(u64, String)> = balances
            .iter()
            .enumerate()
            .map(|(index, balance)| (index as u64 + 1, format!("mrk1{balance}")))
            .collect();
        assert_eq!(listed, expected);
    }
}

#[test]
fn epochs_follow_each_other_on_the_clock() {
    let clock = || {
        let mut ledger = LedgerState {
            created_at: 0,
            epoch_started_at: 0,
            epoch_number: 0,
            epoch_seconds_snapshot: 60,
            ..LedgerState::default()
        };
        ledger.settings.epoch_seconds = 60;
        ledger.epoch_contexts = Table::new();
        let context = new_epoch_context(&ledger).unwrap();
        ledger.epoch_contexts.insert(0, context);
        ledger
    };
    let mut at_once = clock();
    advance_epochs_for_block(&mut at_once, 200).unwrap();
    let mut in_steps = clock();
    for at in [59, 60, 121, 200] {
        advance_epochs_for_block(&mut in_steps, at).unwrap();
    }
    for ledger in [&at_once, &in_steps] {
        assert_eq!(ledger.epoch_number, 3);
        assert_eq!(ledger.epoch_started_at, 180);
        let context = ledger.epoch_contexts.get(&3).unwrap();
        assert_eq!((context.started_at, context.ended_at), (180, 240));
    }
}

#[test]
fn cursors_read_back() {
    let cursor = account_ranking_cursor(7, 120, 40);
    assert_eq!(parse_account_ranking_cursor(&cursor, 7, 120).unwrap(), 40);
    assert!(parse_account_ranking_cursor(&cursor, 7, 121).is_err());
}
