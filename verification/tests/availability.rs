use base64::engine::general_purpose::STANDARD;
use base64::Engine;
use ring::rand::SystemRandom;
use ring::signature::{Ed25519KeyPair, KeyPair};
use mrk_core::attestation::apply_availability_attestation;
use mrk_core::availability::{
    availability_challenge, availability_scheduled_at, availability_ticket_message,
    availability_verifier_set,
};
use mrk_core::crypto::{address_from_public_key, verify_bytes};
use mrk_core::epochs::{advance_epochs_for_block, epoch_context, new_epoch_context};
use mrk_core::model::{
    AvailabilityMode, AvailabilityVerifierRole, Field, Intake, LedgerState, NodeRecord, NodeStatus,
    Payload, ProbePayload, SignedOperation, UnsignedOperation,
};
use mrk_core::nodes::bind_ip_slot_if_available;
use mrk_core::protocol::PROTOCOL_VERSION;
use mrk_core::rewards::settle_finalized_epochs_for_block;
use mrk_core::table::Table;

struct Keys {
    pair: Ed25519KeyPair,
    public_key: String,
    address: String,
}

fn new_keys() -> Keys {
    let document = Ed25519KeyPair::generate_pkcs8(&SystemRandom::new()).unwrap();
    let pair = Ed25519KeyPair::from_pkcs8(document.as_ref()).unwrap();
    let public_key = STANDARD.encode(pair.public_key().as_ref());
    let address = address_from_public_key(pair.public_key().as_ref());
    Keys {
        pair,
        public_key,
        address,
    }
}

fn sign(keys: &Keys, message: &[u8]) -> String {
    STANDARD.encode(keys.pair.sign(message).as_ref())
}

fn test_node(node_id: u64) -> NodeRecord {
    NodeRecord {
        node_id,
        previous_node_id: None,
        name: format!("node{node_id}"),
        owner_address: format!("owner{node_id}"),
        owner_public_key: format!("owner-key{node_id}"),
        relay_public_key: format!("relay-key{node_id}"),
        reward_address: format!("reward{node_id}"),
        endpoint: format!("wss://{node_id}.example/v1/relay"),
        reward_ip: format!("9.8.7.{node_id}"),
        ip_slot: format!("v4:9.8.7.{node_id}"),
        price_per_gib: 0,
        status: NodeStatus::Active,
        registered_at: 0,
        warmup_until: 0,
        active_since: Some(0),
        last_heartbeat: None,
        last_probe_success: Some(0),
        probe_success_count: 1,
        last_relay_receipt_at: None,
        eligible_seconds_by_epoch: Table::new(),
        total_eligible_seconds: 0,
        service_bond: 0,
        service_bond_unlock_at: None,
        governance_bond: 0,
        governance_bonded_at: None,
        governance_exit_requested_at: None,
        governance_bond_unlock_at: None,
        offline_slashed_at: None,
        offline_slashed_service_bond: 0,
        offline_slashed_vesting_reward: 0,
        claimable_reward: 0,
        reward_vesting_buckets: Vec::new(),
        validator: true,
        validator_signature_rate_bps: 10_000,
        validator_bond: 0,
        validator_candidate_since: None,
        validator_last_epoch: None,
        validator_consecutive_epochs: 0,
        validator_exit_requested_at: None,
        validator_bond_unlock_at: None,
    }
}

fn reset_epoch_context(ledger: &mut LedgerState) {
    ledger.epoch_contexts = Table::new();
    let context = new_epoch_context(ledger).unwrap();
    ledger.epoch_contexts.insert(ledger.epoch_number, context);
}

fn eligible_seconds(ledger: &LedgerState, node_id: u64, epoch: u64) -> u64 {
    ledger
        .nodes
        .get(&node_id)
        .unwrap()
        .eligible_seconds_by_epoch
        .get(&epoch)
        .copied()
        .unwrap_or_default()
}

struct Attestation {
    target: u64,
    verifier: u64,
    role: AvailabilityVerifierRole,
    nonce: u64,
    valid_until: i64,
    timestamp: Option<i64>,
}

/// The signed attestation of a verifier, and the time at which its probe was answered.
fn attestation(
    ledger: &LedgerState,
    owner: &Keys,
    relay: &Keys,
    wanted: Attestation,
) -> (SignedOperation, i64) {
    let ticket_signature = sign(
        owner,
        availability_ticket_message(
            &ledger.ledger_id,
            0,
            0,
            wanted.target,
            wanted.verifier,
            wanted.role,
        )
        .as_bytes(),
    );
    let challenge = availability_challenge(&ticket_signature);
    let timestamp = match wanted.timestamp {
        Some(timestamp) => timestamp,
        None => availability_scheduled_at(&ticket_signature, 0, 60, wanted.role).unwrap(),
    };
    let response = ProbePayload {
        protocol: "mrk-probe-v1".to_owned(),
        node_id: wanted.target,
        relay_public_key: relay.public_key.clone(),
        timestamp,
        challenge: challenge.clone(),
        signature: sign(
            relay,
            format!("mrk-probe-v1:{}:{timestamp}:{challenge}", wanted.target).as_bytes(),
        ),
    };
    let payload = Payload::new()
        .with_number("target_node_id", wanted.target)
        .with_number("verifier_node_id", wanted.verifier)
        .with("slot", Field::Integer(0))
        .with_number("epoch", 0)
        .with("role", Field::Role(wanted.role))
        .with_text("ticket_signature", &ticket_signature)
        .with("probe", Field::Probe(response));
    let signing_bytes = format!("attestation {}", wanted.nonce).into_bytes();
    let signature = sign(owner, &signing_bytes);
    let operation = SignedOperation {
        unsigned: UnsignedOperation {
            protocol_version: PROTOCOL_VERSION,
            ledger_id: ledger.ledger_id.clone(),
            module: "Availability".to_owned(),
            action: "AttestProbe".to_owned(),
            signer: owner.address.clone(),
            account_nonce: wanted.nonce,
            valid_until: wanted.valid_until,
            max_fee_base_units: 0,
            fee_policy_version: ledger.settings.fee_policy.version,
            payload,
        },
        signature,
        intake: Intake {
            operation_id: format!("attestation-{}", wanted.nonce),
            signing_bytes,
            encoded_len: 512,
            fee_units: 1,
        },
    };
    (operation, timestamp)
}

#[test]
fn owner_signed_probe_tickets_separate_primary_and_audit_windows() {
    let keys = new_keys();
    let message =
        availability_ticket_message("ledger", 2, 10, 4, 7, AvailabilityVerifierRole::Primary);
    let primary_ticket = sign(&keys, message.as_bytes());
    verify_bytes(&keys.public_key, message.as_bytes(), &primary_ticket).unwrap();
    let audit_ticket = sign(
        &keys,
        availability_ticket_message("ledger", 2, 10, 4, 7, AvailabilityVerifierRole::Audit)
            .as_bytes(),
    );
    assert_ne!(primary_ticket, audit_ticket);
    let slot_start = 600;
    let primary_at = availability_scheduled_at(
        &primary_ticket,
        slot_start,
        60,
        AvailabilityVerifierRole::Primary,
    )
    .unwrap();
    let audit_at = availability_scheduled_at(
        &audit_ticket,
        slot_start,
        60,
        AvailabilityVerifierRole::Audit,
    )
    .unwrap();
    assert!((slot_start + 2..=slot_start + 20).contains(&primary_at));
    assert!((slot_start + 32..=slot_start + 50).contains(&audit_at));
}

#[test]
fn audited_slot_credits_only_after_both_quorums() {
    let verifier = new_keys();
    let relay = new_keys();
    let mut ledger = LedgerState {
        created_at: 0,
        epoch_started_at: 0,
        epoch_number: 0,
        epoch_seconds_snapshot: 300,
        availability_mode: AvailabilityMode::MultiValidator,
        ..LedgerState::default()
    };
    ledger.settings.epoch_seconds = 300;
    ledger.settings.availability_slot_seconds = 60;
    ledger.settings.availability_audit_rate_bps = 10_000;
    ledger.settings.warmup_seconds = 0;
    ledger.settings.required_service_bond = 0;
    for node_id in 1..=9 {
        let mut node = test_node(node_id);
        node.owner_address = verifier.address.clone();
        node.owner_public_key = verifier.public_key.clone();
        ledger.nodes.insert(node_id, node);
    }
    let mut target = test_node(10);
    target.owner_address = "target-owner".to_owned();
    target.relay_public_key = relay.public_key.clone();
    target.eligible_seconds_by_epoch = Table::new();
    target.total_eligible_seconds = 0;
    ledger.nodes.insert(10, target);
    ledger.consensus.active_validators = (1..=9).collect();
    reset_epoch_context(&mut ledger);
    let set = availability_verifier_set(&ledger, epoch_context(&ledger, 0).unwrap(), 10, 0);
    assert!(set.audit_required);

    let apply = |ledger: &mut LedgerState,
                 verifier_node_id: u64,
                 role: AvailabilityVerifierRole,
                 operation_index: u64| {
        let (operation, timestamp) = attestation(
            ledger,
            &verifier,
            &relay,
            Attestation {
                target: 10,
                verifier: verifier_node_id,
                role,
                nonce: operation_index,
                valid_until: 600,
                timestamp: None,
            },
        );
        apply_availability_attestation(
            ledger,
            &verifier.public_key,
            &operation,
            &format!("attestation-{operation_index}"),
            timestamp,
        )
        .unwrap();
    };

    for (index, node_id) in set.primary_ids.iter().take(3).enumerate() {
        apply(
            &mut ledger,
            *node_id,
            AvailabilityVerifierRole::Primary,
            index as u64 + 1,
        );
    }
    assert_eq!(eligible_seconds(&ledger, 10, 0), 0);
    apply(
        &mut ledger,
        set.auditor_ids[0],
        AvailabilityVerifierRole::Audit,
        10,
    );
    assert_eq!(eligible_seconds(&ledger, 10, 0), 0);
    apply(
        &mut ledger,
        set.auditor_ids[1],
        AvailabilityVerifierRole::Audit,
        11,
    );
    assert_eq!(eligible_seconds(&ledger, 10, 0), 60);
    assert_eq!(ledger.nodes.get(&10).unwrap().total_eligible_seconds, 60);
    let record = ledger.availability_slots.get(&"0:10:0".to_owned()).unwrap();
    assert_eq!(record.primary_operation_ids.len(), 3);
    assert_eq!(record.audit_operation_ids.len(), 2);
    assert_eq!(record.credited_seconds, 60);
}

#[test]
fn closed_epoch_accepts_attestations_until_its_finality_deadline() {
    let owner = new_keys();
    let relay = new_keys();
    let mut ledger = LedgerState {
        created_at: 0,
        epoch_started_at: 0,
        epoch_number: 0,
        epoch_seconds_snapshot: 60,
        ..LedgerState::default()
    };
    ledger.settings.epoch_seconds = 60;
    ledger.settings.availability_slot_seconds = 60;
    ledger.settings.required_service_bond = 0;
    ledger.settings.warmup_seconds = 0;
    let mut verifier = test_node(1);
    verifier.owner_address = owner.address.clone();
    verifier.owner_public_key = owner.public_key.clone();
    ledger.nodes.insert(1, verifier);
    let mut target = test_node(2);
    target.relay_public_key = relay.public_key.clone();
    let ip_slot = target.ip_slot.clone();
    ledger.nodes.insert(2, target);
    assert!(bind_ip_slot_if_available(&mut ledger, &ip_slot, 2, 0));
    reset_epoch_context(&mut ledger);

    let (operation, _) = attestation(
        &ledger,
        &owner,
        &relay,
        Attestation {
            target: 2,
            verifier: 1,
            role: AvailabilityVerifierRole::Primary,
            nonce: 1,
            valid_until: 120,
            timestamp: Some(50),
        },
    );

    advance_epochs_for_block(&mut ledger, 61).unwrap();
    assert_eq!(ledger.epoch_number, 1);
    apply_availability_attestation(
        &mut ledger,
        &owner.public_key,
        &operation,
        "boundary-attestation",
        61,
    )
    .unwrap();
    assert_eq!(eligible_seconds(&ledger, 2, 0), 60);
    settle_finalized_epochs_for_block(&mut ledger, 89).unwrap();
    assert!(ledger.epoch_contexts.contains_key(&0));
    settle_finalized_epochs_for_block(&mut ledger, 90).unwrap();
    assert!(!ledger.epoch_contexts.contains_key(&0));
    assert_eq!(eligible_seconds(&ledger, 2, 0), 0);
    assert!(ledger.nodes.get(&2).unwrap().claimable_reward > 0);
}
