use base64::engine::general_purpose::STANDARD;
use base64::Engine;
use ring::rand::SystemRandom;
use ring::signature::{Ed25519KeyPair, KeyPair};
use mrk_core::accounts::{account_balance, ensure_account};
use mrk_core::backups::init_node;
use mrk_core::crypto::address_from_public_key;
use mrk_core::drafts::{commit_draft, Draft};
use mrk_core::epochs::new_epoch_context;
use mrk_core::error::Result;
use mrk_core::model::{
    Intake, KeyIdentity, LedgerState, LocalNodeConfig, NodeRecord, NodeStatus, NodeStorageMode,
};
use mrk_core::node_drafts::{
    bond_governance, claim_node_rewards, commit_governance_bond, commit_node_update, commit_payout,
    drain_node, request_governance_exit, update_node_price, withdraw_governance_bond,
};
use mrk_core::nodes::bind_ip_slot_if_available;
use mrk_core::protocol::MRK_SCALE;
use mrk_core::registry::{
    discover_relays, node_record_by_id, node_record_by_id_if_present, node_rewards,
    registry_node_by_id,
};
use mrk_core::table::Table;
use mrk_core::vesting::{add_node_reward_vesting, node_vesting_reward};

struct Keys {
    pair: Ed25519KeyPair,
    identity: KeyIdentity,
}

fn new_keys() -> Keys {
    let document = Ed25519KeyPair::generate_pkcs8(&SystemRandom::new()).unwrap();
    let pair = Ed25519KeyPair::from_pkcs8(document.as_ref()).unwrap();
    let identity = KeyIdentity {
        address: address_from_public_key(pair.public_key().as_ref()),
        public_key: STANDARD.encode(pair.public_key().as_ref()),
    };
    Keys { pair, identity }
}

fn sign(keys: &Keys, message: &[u8]) -> String {
    STANDARD.encode(keys.pair.sign(message).as_ref())
}

/// A signature of an operation, and what is known of it once it has been read.
fn signed(keys: &Keys, operation_id: &str) -> (String, Intake) {
    let signing_bytes = format!("signing {operation_id}").into_bytes();
    (
        sign(keys, &signing_bytes),
        Intake {
            operation_id: operation_id.to_owned(),
            signing_bytes,
            encoded_len: 256,
            fee_units: 0,
        },
    )
}

fn test_node(node_id: u64) -> NodeRecord {
    NodeRecord {
        node_id,
        previous_node_id: None,
        name: format!("node{node_id}"),
        owner_address: format!("owner{node_id}"),
        owner_public_key: format!("owner-key{node_id}"),
        relay_public_key: format!("relay-key{node_id}"),
        reward_address: format!("reward{node_id}"),
        endpoint: format!("wss://{node_id}.example/v1/relay"),
        reward_ip: format!("9.8.7.{node_id}"),
        ip_slot: format!("v4:9.8.7.{node_id}"),
        price_per_gib: 0,
        status: NodeStatus::Active,
        registered_at: 0,
        warmup_until: 0,
        active_since: Some(0),
        last_heartbeat: None,
        last_probe_success: Some(0),
        probe_success_count: 1,
        last_relay_receipt_at: None,
        eligible_seconds_by_epoch: Table::new(),
        total_eligible_seconds: 200 * 86_400,
        service_bond: 0,
        service_bond_unlock_at: None,
        governance_bond: 0,
        governance_bonded_at: None,
        governance_exit_requested_at: None,
        governance_bond_unlock_at: None,
        offline_slashed_at: None,
        offline_slashed_service_bond: 0,
        offline_slashed_vesting_reward: 0,
        claimable_reward: 0,
        reward_vesting_buckets: Vec::new(),
        validator: false,
        validator_signature_rate_bps: 10_000,
        validator_bond: 0,
        validator_candidate_since: None,
        validator_last_epoch: None,
        validator_consecutive_epochs: 0,
        validator_exit_requested_at: None,
        validator_bond_unlock_at: None,
    }
}

fn refusal<T>(result: Result<T>) -> String {
    match result {
        Ok(_) => panic!("the request was not refused"),
        Err(error) => error.text().to_owned(),
    }
}


/// A ledger with one node in service, and the keys of the node.
struct Service {
    ledger: LedgerState,
    config: LocalNodeConfig,
    owner: Keys,
    reward: Keys,
}

fn service() -> Service {
    let mut ledger = LedgerState::default();
    let context = new_epoch_context(&ledger).unwrap();
    ledger.epoch_contexts.insert(ledger.epoch_number, context);
    let owner = new_keys();
    let reward = new_keys();
    let mut node = test_node(2);
    node.owner_address = owner.identity.address.clone();
    node.owner_public_key = owner.identity.public_key.clone();
    node.reward_address = reward.identity.address.clone();
    ensure_account(&mut ledger, &owner.identity).unwrap();
    ensure_account(&mut ledger, &reward.identity).unwrap();
    ledger.accounts.get_mut(&reward.identity.address).unwrap().balance = 1_000_000 * MRK_SCALE;
    let slot = node.ip_slot.clone();
    ledger.nodes.insert(2, node);
    ledger.next_node_id = 3;
    assert!(bind_ip_slot_if_available(&mut ledger, &slot, 2, 0));
    let mut config = init_node(
        "node2",
        false,
        &owner.identity.address,
        "relay",
        &reward.identity.address,
    )
    .unwrap();
    config.node_id = Some(2);
    Service {
        ledger,
        config,
        owner,
        reward,
    }
}

impl Service {
    fn node(&self) -> &NodeRecord {
        self.ledger.nodes.get(&2).unwrap()
    }

    fn commit(&mut self, draft: Draft, id: &str, now: i64) -> Result<String> {
        let (signature, intake) = signed(&self.owner, id);
        commit_draft(
            &mut self.ledger,
            draft,
            &self.owner.identity.public_key,
            signature,
            intake,
            now,
        )
    }
}

#[test]
fn governance_bonds_are_paid_held_and_paid_back() {
    let mut service = service();
    let required = service.ledger.settings.required_governance_bond;
    let (draft, terms) =
        bond_governance(&service.ledger, &service.config, &service.reward.identity, 10).unwrap();
    let (signature, intake) = signed(&service.reward, "bond");
    let receipt = commit_governance_bond(
        &mut service.ledger,
        draft,
        terms,
        &service.reward.identity.public_key,
        signature,
        intake,
        10,
    )
    .unwrap();
    assert_eq!(receipt.bonded, required);
    assert_eq!(service.node().governance_bond, required);
    assert_eq!(
        account_balance(&service.ledger, &service.reward.identity.address),
        1_000_000 * MRK_SCALE - required
    );
    assert_eq!(
        refusal(bond_governance(
            &service.ledger,
            &service.config,
            &service.reward.identity,
            11,
        )),
        "node already has the required Governance Bond"
    );
    assert!(drain_node(&service.ledger, &service.config, &service.owner.identity, 12).is_err());

    let draft = request_governance_exit(
        &service.ledger,
        &service.config,
        &service.owner.identity,
        20,
    )
    .unwrap();
    service.commit(draft, "exit", 20).unwrap();
    assert!(withdraw_governance_bond(
        &service.ledger,
        &service.config,
        &service.owner.identity,
        21,
    )
    .is_err());
    let unlock = service.node().governance_bond_unlock_at.unwrap();
    let (draft, amount) = withdraw_governance_bond(
        &service.ledger,
        &service.config,
        &service.owner.identity,
        unlock,
    )
    .unwrap();
    assert_eq!(amount, required);
    let (signature, intake) = signed(&service.owner, "withdraw");
    let beneficiary = service.config.reward_address.clone();
    commit_payout(
        &mut service.ledger,
        draft,
        &beneficiary,
        &service.owner.identity.public_key,
        signature,
        intake,
        unlock,
    )
    .unwrap();
    assert_eq!(service.node().governance_bond, 0);
    assert_eq!(
        account_balance(&service.ledger, &service.reward.identity.address),
        1_000_000 * MRK_SCALE
    );
}

#[test]
fn rewards_are_claimed_into_the_reward_account() {
    let mut service = service();
    assert!(claim_node_rewards(
        &service.ledger,
        &service.config,
        &service.owner.identity,
        5,
    )
    .is_err());
    service.ledger.nodes.get_mut(&2).unwrap().claimable_reward = 77;
    let (draft, amount) = claim_node_rewards(
        &service.ledger,
        &service.config,
        &service.owner.identity,
        6,
    )
    .unwrap();
    assert_eq!(amount, 77);
    service.commit(draft, "claim", 6).unwrap();
    assert_eq!(service.node().claimable_reward, 0);
    assert_eq!(
        account_balance(&service.ledger, &service.reward.identity.address),
        1_000_000 * MRK_SCALE + 77
    );
    let rewards = node_rewards(&service.ledger, &service.config).unwrap();
    assert_eq!(rewards.claimable_reward, 0);
}

#[test]
fn prices_are_changed_by_the_owner() {
    let mut service = service();
    let stranger = new_keys();
    assert!(update_node_price(
        &service.ledger,
        &service.config,
        &stranger.identity,
        "0.05MRK",
        5,
    )
    .is_err());
    let draft = update_node_price(
        &service.ledger,
        &service.config,
        &service.owner.identity,
        "0.05MRK",
        5,
    )
    .unwrap();
    let (signature, intake) = signed(&service.owner, "price");
    let (_, record) = commit_node_update(
        &mut service.ledger,
        draft,
        2,
        &service.owner.identity.public_key,
        signature,
        intake,
        5,
    )
    .unwrap();
    assert_eq!(record.unwrap().price_per_gib, 50_000_000);
}

#[test]
fn relays_in_service_are_discovered() {
    let service = service();
    let online = discover_relays(&service.ledger, None, 10, 5).unwrap();
    assert_eq!(online.relays.len(), 1);
    assert_eq!(online.relays[0].node_id, 2);
    let mut suspended = service.ledger.copy();
    suspended.nodes.get_mut(&2).unwrap().status = NodeStatus::Suspended;
    assert!(discover_relays(&suspended, None, 10, 5).unwrap().relays.is_empty());
    assert!(discover_relays(&service.ledger, None, 0, 5).is_err());
    assert_eq!(registry_node_by_id(&service.ledger, 2, 5).unwrap().node_id, 2);
    assert!(node_record_by_id(&service.ledger, 9).is_err());
    assert!(node_record_by_id_if_present(&service.ledger, 9).is_none());
}

#[test]
fn draining_nodes_leave_in_order() {
    let mut service = service();
    let draft =
        drain_node(&service.ledger, &service.config, &service.owner.identity, 50).unwrap();
    service.commit(draft, "drain", 50).unwrap();
    assert_eq!(service.node().status, NodeStatus::Draining);
    assert_eq!(
        refusal(drain_node(
            &service.ledger,
            &service.config,
            &service.owner.identity,
            51,
        )),
        "node is already draining or exited"
    );
    assert!(discover_relays(&service.ledger, None, 10, 51)
        .unwrap()
        .relays
        .is_empty());
}

#[test]
fn names_of_new_nodes_are_checked() {
    assert_eq!(
        refusal(init_node("node2", true, "owner", "relay", "reward")),
        "node 'node2' already exists"
    );
    assert!(init_node("", false, "owner", "relay", "reward").is_err());
    let config = init_node("node2", false, "owner", "relay", "reward").unwrap();
    assert_eq!(config.storage_mode, NodeStorageMode::Full);
    assert!(config.node_id.is_none());
}

#[test]
fn unused_reward_shares_stay_whole() {
    for (amount, days) in [(1u128, 7i64), (10, 3), (1_000_003, 180)] {
        let mut node = test_node(1);
        add_node_reward_vesting(&mut node, amount, 1_000, days * 86_400, 0).unwrap();
        assert_eq!(node_vesting_reward(&node).unwrap(), amount);
    }
}
