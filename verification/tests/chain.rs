use base64::engine::general_purpose::STANDARD;
use base64::Engine;
use ring::rand::SystemRandom;
use ring::signature::{Ed25519KeyPair, KeyPair};
use mrk_core::backups::{
    backup_file_name, backup_ledger, bootstrap_snapshot, confirm_written_backup,
    find_latest_checkpoint, init_node_with_storage_mode, restore_ledger_backup, seal_backup,
    verify_ledger_backup,
};
use mrk_core::blocks::block_signing_text;
use mrk_core::catchup::apply_consensus_catch_up;
use mrk_core::crypto::address_from_public_key;
use mrk_core::drafts::{commit_draft, price_operation};
use mrk_core::epochs::new_epoch_context;
use mrk_core::history::verify_blockchain;
use mrk_core::ip::parse_ip;
use mrk_core::model::{
    BlockRecord, Field, Intake, KeyIdentity, LedgerState, LocalNodeConfig, NodeStorageMode,
    OtherValue,
};
use mrk_core::production::{
    block_by_height, block_operation_ids, block_operations, block_status, blocks, make_node1_block,
    prepare_node1_state, produce_node1_block,
};
use mrk_core::protocol::MAX_SUPPLY;
use mrk_core::pruning::{lite_retain_blocks, prune_history, prune_lite_history};
use mrk_core::registration::{join_node, NodeKeys};
use mrk_core::steering::{commit_governance_action, governance_set_parameter};
use mrk_core::table::Replicate;

struct Keys {
    pair: Ed25519KeyPair,
    identity: KeyIdentity,
}

fn new_keys() -> Keys {
    let document = Ed25519KeyPair::generate_pkcs8(&SystemRandom::new()).unwrap();
    let pair = Ed25519KeyPair::from_pkcs8(document.as_ref()).unwrap();
    let identity = KeyIdentity {
        address: address_from_public_key(pair.public_key().as_ref()),
        public_key: STANDARD.encode(pair.public_key().as_ref()),
    };
    Keys { pair, identity }
}

fn sign(keys: &Keys, message: &[u8]) -> String {
    STANDARD.encode(keys.pair.sign(message).as_ref())
}

/// A signature of an operation, and what is known of it once it has been read.
fn signed(keys: &Keys, operation_id: &str) -> (String, Intake) {
    let signing_bytes = format!("signing {operation_id}").into_bytes();
    (
        sign(keys, &signing_bytes),
        Intake {
            operation_id: operation_id.to_owned(),
            signing_bytes,
            encoded_len: 256,
            fee_units: 0,
        },
    )
}

/// A ledger on which the first node has been registered.
struct Node {
    ledger: LedgerState,
    config: LocalNodeConfig,
    owner: Keys,
}

fn first_node(now: i64) -> Node {
    let owner = new_keys();
    let relay = new_keys();
    let reward = new_keys();
    let mut config = init_node_with_storage_mode(
        "node1",
        false,
        &owner.identity.address,
        &relay.identity.address,
        &reward.identity.address,
        NodeStorageMode::Lite,
    )
    .unwrap();
    let mut ledger = LedgerState {
        created_at: now,
        epoch_started_at: now,
        ..LedgerState::default()
    };
    let context = new_epoch_context(&ledger).unwrap();
    ledger.epoch_contexts.insert(ledger.epoch_number, context);
    let keys = NodeKeys {
        owner: owner.identity.replicate(),
        relay_public_key: relay.identity.public_key.clone(),
        reward: reward.identity.replicate(),
    };
    let (mut draft, node) = join_node(
        &ledger,
        "node1",
        None,
        &keys,
        "wss://1.1.1.1/v1/relay",
        parse_ip("1.1.1.1").unwrap(),
        Some("0.02MRK"),
        now,
    )
    .unwrap();
    price_operation(&ledger, &mut draft.operation, 0).unwrap();
    let (signature, intake) = signed(&owner, "join");
    commit_draft(
        &mut ledger,
        draft,
        &owner.identity.public_key,
        signature,
        intake,
        now,
    )
    .unwrap();
    config.node_id = Some(node.node_id);
    Node {
        ledger,
        config,
        owner,
    }
}

impl Node {
    fn set_parameter(&mut self, parameter: &str, value: &str, now: i64) {
        let (mut draft, node_id) = governance_set_parameter(
            &self.ledger,
            &self.config,
            &self.owner.identity,
            parameter,
            value,
            now,
        )
        .unwrap();
        price_operation(&self.ledger, &mut draft.operation, 0).unwrap();
        let (signature, intake) = signed(&self.owner, &format!("set {parameter} {value}"));
        let receipt = commit_governance_action(
            &mut self.ledger,
            draft,
            node_id,
            &self.owner.identity.public_key,
            signature,
            intake,
            now,
        )
        .unwrap();
        assert_eq!(receipt.action, "SetParameters");
        assert_eq!(receipt.signer_node_id, 1);
    }

    fn produce(&mut self, allow_empty: bool, now: i64) -> BlockRecord {
        let (_, operation_ids) = prepare_node1_state(
            &self.ledger,
            &self.config,
            &self.owner.identity,
            allow_empty,
            now,
        )
        .unwrap();
        let root = format!("state_{now:064x}");
        let unsigned = make_node1_block(
            &self.ledger,
            &self.owner.identity,
            operation_ids,
            &root,
            "",
            now,
        );
        let signature = sign(&self.owner, block_signing_text(&unsigned).as_bytes());
        produce_node1_block(
            &mut self.ledger,
            &self.config,
            &self.owner.identity,
            allow_empty,
            &root,
            &signature,
            now,
        )
        .unwrap()
    }
}

#[test]
fn lite_pruning_preserves_chain_tip_and_future_height() {
    let now = 1_900_000_000;
    let mut node = first_node(now);
    node.produce(false, now + 1);
    for (offset, value) in [(2, "6"), (3, "7"), (4, "8")] {
        node.set_parameter("block-interval-seconds", value, now + offset);
        node.produce(false, now + offset);
    }

    let report = prune_history(&mut node.ledger, 2, 1);
    assert_eq!(report.pruned_blocks, 2);
    assert_eq!(report.retained_blocks, 2);
    assert_eq!(report.pruned_through_height, 2);
    assert_eq!(node.ledger.operation_history_from_height, 3);
    for block in &node.ledger.blocks {
        for operation_id in &block.operation_ids {
            assert!(node.ledger.operations.contains_key(operation_id));
        }
    }
    assert!(block_by_height(&node.ledger, 1)
        .unwrap_err()
        .text()
        .contains("pruned"));
    assert_eq!(block_by_height(&node.ledger, 3).unwrap().height, 3);
    let newest = blocks(&node.ledger, None, 1);
    assert_eq!(newest.blocks.len(), 1);
    assert_eq!(newest.blocks[0].height, 4);
    assert_eq!(newest.next_cursor, Some(4));
    let older = blocks(&node.ledger, newest.next_cursor, 10);
    assert_eq!(
        older
            .blocks
            .iter()
            .map(|block| block.height)
            .collect::<Vec<_>>(),
        vec![3]
    );
    assert_eq!(older.next_cursor, None);
    let tip = block_by_height(&node.ledger, 4).unwrap();
    let operations = block_operations(&node.ledger, 4, 0, 100).unwrap();
    assert_eq!(operations.operations.len(), tip.operation_ids.len());
    let verification = verify_blockchain(&node.ledger);
    assert!(verification.ok, "{}", verification.detail);
    assert_eq!(verification.height, 4);
    let next = node.produce(true, now + 10);
    assert_eq!(next.height, 5);
    assert_eq!(
        next.previous_block_hash,
        block_by_height(&node.ledger, 4).unwrap().block_hash
    );
}

#[test]
fn fresh_backups_are_sound() {
    let now = 1_900_000_000;
    let mut node = first_node(now);
    node.produce(false, now + 1);
    let payload = backup_ledger(&node.ledger, "root", now + 2).unwrap();
    let backup = seal_backup(payload, b"encoded");
    let report =
        verify_ledger_backup(&backup, b"encoded", "root", Some("root"), "file", 7).unwrap();
    assert_eq!(report.height, 1);
    assert_eq!(
        verify_ledger_backup(&backup, b"altered", "root", None, "file", 7)
            .unwrap_err()
            .text(),
        "backup payload checksum does not match"
    );
    assert_eq!(
        verify_ledger_backup(&backup, b"encoded", "root", Some("other"), "file", 7)
            .unwrap_err()
            .text(),
        "backup state root root does not match expected root other"
    );
    let refused = |version: u32, ledger_id: &str, height: u64, expected: &str, encoded: &[u8]| {
        let mut payload = backup_ledger(&node.ledger, "root", now + 2).unwrap();
        payload.format_version = version;
        payload.ledger_id = ledger_id.to_owned();
        payload.height = height;
        let sealed = seal_backup(payload, b"encoded");
        restore_ledger_backup(sealed, encoded, "root", expected, "file", 7, &node.config)
            .unwrap_err()
            .text()
            .to_owned()
    };
    let own = node.ledger.ledger_id.clone();
    assert_eq!(
        refused(2, &own, 1, "root", b"encoded"),
        "unsupported backup format version 2"
    );
    assert_eq!(
        refused(1, "elsewhere", 1, "root", b"encoded"),
        "backup ledger ID does not match its payload metadata"
    );
    assert_eq!(
        refused(1, &own, 2, "root", b"encoded"),
        "backup height does not match its ledger"
    );
    assert_eq!(
        refused(1, &own, 1, "root", b"altered"),
        "backup payload checksum does not match"
    );
    assert_eq!(
        refused(1, &own, 1, "other", b"encoded"),
        "backup state root root does not match expected root other"
    );
    let (ledger, config, restored) =
        restore_ledger_backup(backup, b"encoded", "root", "root", "file", 7, &node.config).unwrap();
    assert_eq!(restored.height, report.height);
    assert_eq!(restored.state_root, "root");
    assert_eq!(restored.checksum, report.checksum);
    assert_eq!(ledger.blocks.len(), 1);
    assert_eq!(config.node_id, Some(1));
}

#[test]
fn written_backups_are_read_back() {
    let now = 1_900_000_000;
    let mut node = first_node(now);
    node.produce(false, now + 1);
    assert_eq!(backup_file_name(1, now), "mrk-1-1900000000.json");
    assert_eq!(backup_file_name(0, -5), "mrk-0--5.json");
    let sealed = |root: &str, encoded: &[u8]| {
        seal_backup(backup_ledger(&node.ledger, root, now).unwrap(), encoded)
    };
    let written = sealed("root", b"encoded");
    let report =
        confirm_written_backup(&written, &sealed("root", b"encoded"), b"encoded", "root", "f", 9)
            .unwrap();
    assert_eq!(report.checksum, written.checksum);
    assert_eq!((report.height, report.bytes), (1, 9));
    for (persisted, encoded, root) in [
        (sealed("root", b"altered"), b"encoded", "root"),
        (sealed("root", b"encoded"), b"altered", "root"),
        (sealed("other", b"encoded"), b"encoded", "root"),
        (sealed("root", b"encoded"), b"encoded", "other"),
    ] {
        assert_eq!(
            confirm_written_backup(&written, &persisted, encoded, root, "f", 9)
                .unwrap_err()
                .text(),
            "backup verification failed after writing the file"
        );
    }
}

#[test]
fn pages_of_blocks_list_every_block() {
    let now = 1_900_000_000;
    let mut node = first_node(now);
    for offset in 1..=5 {
        node.produce(offset > 1, now + offset);
    }
    for limit in 1..=6 {
        let mut listed = Vec::new();
        let mut cursor = None;
        loop {
            let page = blocks(&node.ledger, cursor, limit);
            assert!(page.blocks.len() <= limit);
            listed.extend(page.blocks.iter().map(|block| block.height));
            cursor = page.next_cursor;
            if cursor.is_none() {
                break;
            }
        }
        assert_eq!(listed, vec![5, 4, 3, 2, 1]);
    }
}

#[test]
fn missing_operations_are_reported() {
    let now = 1_900_000_000;
    let mut node = first_node(now);
    node.produce(false, now + 1);
    let block = block_by_height(&node.ledger, 1).unwrap();
    assert_eq!(block_operation_ids(&block, 0, 10), block.operation_ids);
    let shown = block_operations(&node.ledger, 1, 0, 10).unwrap();
    assert_eq!(shown.operations[0].operation_id, block.operation_ids[0]);
    assert_eq!(shown.next_cursor, None);
    for (offset, value) in [(2, "6"), (3, "7"), (4, "8")] {
        node.set_parameter("block-interval-seconds", value, now + offset);
    }
    let second = node.produce(false, now + 5);
    let mut listed = Vec::new();
    let mut cursor = 0;
    loop {
        let page = block_operations(&node.ledger, 2, cursor, 2).unwrap();
        assert!(page.operations.len() <= 2);
        listed.extend(page.operations.into_iter().map(|operation| operation.operation_id));
        match page.next_cursor {
            Some(next) => cursor = next as usize,
            None => break,
        }
    }
    assert_eq!(listed, second.operation_ids);
    node.ledger.operations.remove(&block.operation_ids[0]);
    assert_eq!(
        block_operations(&node.ledger, 1, 0, 10)
            .err()
            .unwrap()
            .text(),
        format!("operation {} not found", block.operation_ids[0])
    );
}

#[test]
fn nodes_with_little_history_keep_a_week_of_blocks() {
    assert_eq!(lite_retain_blocks(5), 120_960);
    assert_eq!(lite_retain_blocks(604_800), 1);
    assert_eq!(lite_retain_blocks(700_000), 1);
    assert_eq!(lite_retain_blocks(0), 604_800);
    let now = 1_900_000_000;
    let mut node = first_node(now);
    for offset in 1..=4 {
        node.produce(offset > 1, now + offset);
    }
    node.ledger.settings.block_interval_seconds = 302_400;
    node.config.storage_mode = NodeStorageMode::Full;
    let report = prune_lite_history(&mut node.ledger, &node.config);
    assert_eq!((report.pruned_blocks, report.retained_blocks), (0, 4));
    node.config.storage_mode = NodeStorageMode::Lite;
    let report = prune_lite_history(&mut node.ledger, &node.config);
    assert_eq!((report.pruned_blocks, report.retained_blocks), (2, 2));
    assert_eq!(report.pruned_through_height, 2);
}

#[test]
fn operations_and_blocks_keep_the_chain_sound() {
    let now = 1_900_000_000;
    let mut node = first_node(now);
    let begun = verify_blockchain(&node.ledger);
    assert!(begun.ok, "{}", begun.detail);
    assert_eq!((begun.height, begun.checked_operations), (0, 0));
    for (offset, value) in [(1, "6"), (2, "7"), (3, "8")] {
        node.produce(false, now + offset);
        let closed = verify_blockchain(&node.ledger);
        assert!(closed.ok, "{}", closed.detail);
        assert_eq!(closed.height, offset as u64);
        assert_eq!(closed.checked_operations, offset as usize);
        node.set_parameter("block-interval-seconds", value, now + offset);
        let queued = verify_blockchain(&node.ledger);
        assert!(queued.ok, "{}", queued.detail);
        assert_eq!(queued.checked_operations, offset as usize);
    }
}

#[test]
fn altered_chains_are_found_out() {
    let now = 1_900_000_000;
    let mut node = first_node(now);
    node.produce(false, now + 1);
    node.set_parameter("block-interval-seconds", "6", now + 2);
    node.produce(false, now + 2);
    assert!(verify_blockchain(&node.ledger).ok);

    let mut relinked = node.ledger.copy();
    relinked.blocks[1].previous_block_hash = "elsewhere".to_owned();
    assert!(!verify_blockchain(&relinked).ok);
    let mut signed_over = node.ledger.copy();
    signed_over.blocks[0].timestamp += 1;
    assert!(!verify_blockchain(&signed_over).ok);
    let mut shortened = node.ledger.copy();
    shortened.blocks[1].operation_ids.clear();
    assert!(!verify_blockchain(&shortened).ok);
    let mut repeated = node.ledger.copy();
    repeated.blocks[1].operation_ids = node.ledger.blocks[0].operation_ids.clone();
    assert!(!verify_blockchain(&repeated).ok);
}

#[test]
fn payloads_that_differ_from_the_signed_ones_are_found_out() {
    let now = 1_900_000_000;
    let mut node = first_node(now);
    node.produce(false, now + 1);
    let id = node.ledger.blocks[0].operation_ids[0].clone();
    let carried = |text: &str| {
        Field::Other(OtherValue {
            text: text.to_owned(),
            serial: None,
        })
    };
    let noted = |ledger: &LedgerState, recorded: &str, signed: &str| {
        let mut ledger = ledger.copy();
        let record = ledger.operations.get_mut(&id).unwrap();
        record.payload.fields.insert("note".to_owned(), carried(recorded));
        let operation = record.signed_operation.as_mut().unwrap();
        let payload = &mut operation.unsigned.payload;
        payload.fields.insert("note".to_owned(), carried(signed));
        verify_blockchain(&ledger).ok
    };
    assert!(noted(&node.ledger, "[1]", "[1]"));
    assert!(!noted(&node.ledger, "[1]", "[2]"));
}

#[test]
fn the_first_block_waits_for_an_operation() {
    let now = 1_900_000_000;
    let mut node = first_node(now);
    assert!(!node.ledger.pending_operation_ids.is_empty());
    node.produce(false, now + 1);
    assert!(node.ledger.pending_operation_ids.is_empty());
    assert!(prepare_node1_state(
        &node.ledger,
        &node.config,
        &node.owner.identity,
        false,
        now + 2,
    )
    .is_err());
    let status = block_status(&node.ledger, now + 2).unwrap();
    assert_eq!(status.height, 1);
}

#[test]
fn finalized_states_are_handed_out() {
    let now = 1_900_000_000;
    let mut node = first_node(now);
    assert!(find_latest_checkpoint(&node.ledger).is_err());
    node.produce(false, now + 1);
    let snapshot = bootstrap_snapshot(&node.ledger, "root").unwrap();
    assert_eq!(snapshot.height, 1);
    assert_eq!(snapshot.state_root, "root");
    assert!(snapshot.checkpoint.finalized_checkpoint.is_none());
}

#[test]
fn nothing_to_catch_up_with_changes_nothing() {
    let now = 1_900_000_000;
    let mut node = first_node(now);
    node.produce(false, now + 1);
    let checkpoint = node.ledger.copy();
    let height = apply_consensus_catch_up(
        &mut node.ledger,
        &Vec::new(),
        &Vec::new(),
        &checkpoint,
        "root",
    )
    .unwrap();
    assert_eq!(height, 1);
    let mut gap = block_by_height(&node.ledger, 1).unwrap();
    gap.height = 5;
    assert_eq!(
        apply_consensus_catch_up(
            &mut node.ledger,
            &vec![gap],
            &Vec::new(),
            &checkpoint,
            "root",
        )
        .unwrap_err()
        .text(),
        "catch-up blocks are not a contiguous chain extension"
    );
}

#[test]
fn a_node_that_was_away_catches_up() {
    let now = 1_900_000_000;
    let mut node = first_node(now);
    node.produce(false, now + 1);
    let mut away = node.ledger.copy();
    node.set_parameter("block-interval-seconds", "6", now + 2);
    let block = node.produce(false, now + 2);
    let checkpoint = find_latest_checkpoint(&node.ledger).unwrap();
    let operations = block
        .operation_ids
        .iter()
        .map(|id| node.ledger.operations.get(id).unwrap().replicate())
        .collect();
    let root = block.state_root.clone();
    let height = apply_consensus_catch_up(
        &mut away,
        &vec![block],
        &operations,
        &checkpoint,
        &root,
    )
    .unwrap();
    assert_eq!(height, 2);
    assert_eq!(away.blocks.len(), 2);
    assert_eq!(away.settings.block_interval_seconds, 6);
    assert!(verify_blockchain(&away).ok);
}

#[test]
fn blocks_keep_the_supply_whole() {
    let now = 1_900_000_000;
    let mut node = first_node(now);
    let supply = |ledger: &LedgerState| ledger.pool_remaining + ledger.lifetime_minted;
    assert_eq!(supply(&node.ledger), MAX_SUPPLY);
    node.produce(false, now + 1);
    node.set_parameter("block-interval-seconds", "6", now + 2);
    node.produce(false, now + 2);
    node.produce(true, now + 10_000);
    assert_eq!(supply(&node.ledger), MAX_SUPPLY);
    assert_eq!(node.ledger.blocks.len(), 3);
    let height = node.ledger.blocks[2].height;
    assert_eq!(height, 3);
}

/// All that a ledger holds, with what has been burned.
fn holdings(ledger: &LedgerState) -> u128 {
    let mut held = ledger.treasury + ledger.burned;
    for i in 0..ledger.accounts.len() {
        held += ledger.accounts.value_at(i).balance;
    }
    for i in 0..ledger.networks.len() {
        held += ledger.networks.value_at(i).escrow_balance;
    }
    for i in 0..ledger.nodes.len() {
        let node = ledger.nodes.value_at(i);
        held += node.service_bond + node.governance_bond + node.validator_bond;
        held += node.claimable_reward;
        held += node
            .reward_vesting_buckets
            .iter()
            .map(|bucket| bucket.amount)
            .sum::<u128>();
    }
    held
}

#[test]
fn everything_that_was_minted_is_held() {
    let now = 1_900_000_000;
    let mut node = first_node(now);
    assert_eq!(holdings(&node.ledger), node.ledger.lifetime_minted);
    node.produce(false, now + 1);
    let epoch = node.ledger.epoch_number;
    let minted = node.ledger.lifetime_minted;
    let record = node.ledger.nodes.get_mut(&1).unwrap();
    record.eligible_seconds_by_epoch.insert(epoch, 60);
    record.last_probe_success = Some(now);
    let checkpoint = node.ledger.copy();
    node.ledger.finalized_checkpoint = Some(Box::new(LedgerState {
        finalized_checkpoint: None,
        ..checkpoint
    }));
    node.produce(true, now + 10_000);
    assert!(node.ledger.lifetime_minted > minted);
    assert_eq!(holdings(&node.ledger), node.ledger.lifetime_minted);
}
