use base64::engine::general_purpose::STANDARD;
use base64::Engine;
use ring::rand::SystemRandom;
use ring::signature::{Ed25519KeyPair, KeyPair};
use mrk_core::accounts::{account_balance, ensure_account};
use mrk_core::crypto::address_from_public_key;
use mrk_core::drafts::commit_draft;
use mrk_core::error::Result;
use mrk_core::members::{
    create_network, draft_member, draft_receiver_receipt, draft_sender_checkpoint, fund_network,
    issue_member, sign_final_sender_checkpoint, sign_receiver_receipt, sign_sender_checkpoint,
    SenderCheckpointSigningRequest,
};
use mrk_core::model::{
    Field, Intake, KeyIdentity, LedgerState, MemberCredential, NodeRecord, NodeStatus,
    OperationRecord, OperationStatus, Payload, ReceiverReceipt, RelayDirection, SenderCheckpoint,
};
use mrk_core::networks::NetworkReply;
use mrk_core::payments::{payment_authorization, payment_history, validate_relay_open};
use mrk_core::protocol::{MRK_SCALE, PROTOCOL_VERSION};
use mrk_core::sessions::{credential_signing_text, reserve_session};
use mrk_core::table::{Same, Table};
use mrk_core::traffic::{
    apply_traffic_settlement, receiver_receipt_signing_text, sender_checkpoint_hash,
    sender_checkpoint_signing_text,
};

struct Keys {
    pair: Ed25519KeyPair,
    identity: KeyIdentity,
}

fn new_keys() -> Keys {
    let document = Ed25519KeyPair::generate_pkcs8(&SystemRandom::new()).unwrap();
    let pair = Ed25519KeyPair::from_pkcs8(document.as_ref()).unwrap();
    let identity = KeyIdentity {
        address: address_from_public_key(pair.public_key().as_ref()),
        public_key: STANDARD.encode(pair.public_key().as_ref()),
    };
    Keys { pair, identity }
}

fn sign(keys: &Keys, message: &[u8]) -> String {
    STANDARD.encode(keys.pair.sign(message).as_ref())
}

/// A signature of an operation, and what is known of it once it has been read.
fn signed(keys: &Keys, operation_id: &str) -> (String, Intake) {
    let signing_bytes = format!("signing {operation_id}").into_bytes();
    (
        sign(keys, &signing_bytes),
        Intake {
            operation_id: operation_id.to_owned(),
            signing_bytes,
            encoded_len: 256,
            fee_units: 0,
        },
    )
}

fn test_node(node_id: u64) -> NodeRecord {
    NodeRecord {
        node_id,
        previous_node_id: None,
        name: format!("node{node_id}"),
        owner_address: format!("owner{node_id}"),
        owner_public_key: format!("owner-key{node_id}"),
        relay_public_key: format!("relay-key{node_id}"),
        reward_address: format!("reward{node_id}"),
        endpoint: format!("wss://{node_id}.example/v1/relay"),
        reward_ip: format!("9.8.7.{node_id}"),
        ip_slot: format!("v4:9.8.7.{node_id}"),
        price_per_gib: 0,
        status: NodeStatus::Active,
        registered_at: 0,
        warmup_until: 0,
        active_since: Some(0),
        last_heartbeat: None,
        last_probe_success: Some(0),
        probe_success_count: 1,
        last_relay_receipt_at: None,
        eligible_seconds_by_epoch: Table::new(),
        total_eligible_seconds: 200 * 86_400,
        service_bond: 0,
        service_bond_unlock_at: None,
        governance_bond: 0,
        governance_bonded_at: None,
        governance_exit_requested_at: None,
        governance_bond_unlock_at: None,
        offline_slashed_at: None,
        offline_slashed_service_bond: 0,
        offline_slashed_vesting_reward: 0,
        claimable_reward: 0,
        reward_vesting_buckets: Vec::new(),
        validator: false,
        validator_signature_rate_bps: 10_000,
        validator_bond: 0,
        validator_candidate_since: None,
        validator_last_epoch: None,
        validator_consecutive_epochs: 0,
        validator_exit_requested_at: None,
        validator_bond_unlock_at: None,
    }
}

fn refusal<T>(result: Result<T>) -> String {
    match result {
        Ok(_) => panic!("the request was not refused"),
        Err(error) => error.text().to_owned(),
    }
}


const GIBIBYTE: u64 = 1_073_741_824;

/// A network with a fund and two members, and a node that relays between them.
struct Relay {
    ledger: LedgerState,
    commitment: String,
    network_id: String,
    node_owner: Keys,
    sender: Keys,
    receiver: Keys,
}

fn relay() -> Relay {
    let mut ledger = LedgerState::default();
    let owner = new_keys();
    ensure_account(&mut ledger, &owner.identity).unwrap();
    ledger.accounts.get_mut(&owner.identity.address).unwrap().balance = 100 * MRK_SCALE;
    let (draft, network) =
        create_network(&ledger, &owner.identity, "office", &[7; 32], 0).unwrap();
    let (signature, intake) = signed(&owner, "create");
    commit_draft(
        &mut ledger,
        draft,
        &owner.identity.public_key,
        signature,
        intake,
        0,
    )
    .unwrap();
    let draft = fund_network(&ledger, &owner.identity, "office", "10MRK", 1).unwrap();
    let (signature, intake) = signed(&owner, "fund");
    commit_draft(
        &mut ledger,
        draft,
        &owner.identity.public_key,
        signature,
        intake,
        1,
    )
    .unwrap();
    let sender = new_keys();
    let receiver = new_keys();
    for (name, keys) in [("sender", &sender), ("receiver", &receiver)] {
        ensure_account(&mut ledger, &keys.identity).unwrap();
        let public_key = &keys.identity.public_key;
        let draft =
            draft_member(&ledger, &owner.identity, "office", name, 30, name, public_key, 2)
                .unwrap();
        issue_member(
            &mut ledger,
            &owner.identity,
            "office",
            name,
            30,
            name,
            public_key,
            &sign(&owner, credential_signing_text(&draft).as_bytes()),
            2,
        )
        .unwrap();
    }
    let policy = &mut ledger
        .networks
        .get_mut(&network.commitment)
        .unwrap()
        .spending_policy;
    policy.revision = 1;
    policy.enabled = true;
    policy.max_session_amount = 5 * MRK_SCALE;
    policy.max_member_reserved = 6 * MRK_SCALE;
    policy.max_node_price_per_gib = MRK_SCALE;
    policy.max_session_minutes = 60;
    let node_owner = new_keys();
    let mut node = test_node(1);
    node.owner_address = node_owner.identity.address.clone();
    node.owner_public_key = node_owner.identity.public_key.clone();
    node.price_per_gib = MRK_SCALE;
    ledger.nodes.insert(1, node);
    Relay {
        ledger,
        commitment: network.commitment,
        network_id: network.network_id,
        node_owner,
        sender,
        receiver,
    }
}

fn session(byte: u8) -> String {
    format!("{byte:02x}").repeat(32)
}

impl Relay {
    fn reserve(&mut self, authorization: &str, session_id: &str, amount: u128) -> Result<u128> {
        let payload = Payload::new()
            .with_text("network_commitment", &self.commitment)
            .with_number("node_id", 1)
            .with_text("sender_member_id", "sender")
            .with_text("receiver_member_id", "receiver")
            .with_text("session_id", session_id)
            .with_text("max_amount_base_units", &amount.to_string())
            .with("authorization_valid_until", Field::Integer(1_000))
            .with_number("spending_policy_revision", 1)
            .with_text("expected_price_per_gib_base_units", &MRK_SCALE.to_string());
        let reply = reserve_session(
            &mut self.ledger,
            &payload,
            &self.sender.identity.address,
            &self.sender.identity.public_key,
            authorization,
            100,
        )?;
        match reply {
            NetworkReply::Reserved(record) => Ok(record.max_amount),
            _ => panic!("a session was reserved"),
        }
    }

    /// What the two ends sign about so many bytes.
    fn claim(
        &self,
        authorization: &str,
        session_id: &str,
        sequence: u64,
        bytes: u64,
    ) -> (SenderCheckpoint, ReceiverReceipt) {
        let mut checkpoint = SenderCheckpoint {
            ledger_id: self.ledger.ledger_id.clone(),
            protocol_version: PROTOCOL_VERSION,
            node_id: 1,
            authorization_id: authorization.to_owned(),
            session_id: session_id.to_owned(),
            direction: RelayDirection::SenderToReceiver,
            sequence,
            cumulative_sent_bytes: bytes,
            transcript_hash: format!("transcript {sequence}"),
            checkpoint_at: 200,
            sender_member_id: "sender".to_owned(),
            final_checkpoint: false,
            sender_signature: String::new(),
        };
        checkpoint.sender_signature = sign(
            &self.sender,
            sender_checkpoint_signing_text(&checkpoint).as_bytes(),
        );
        let mut receipt = ReceiverReceipt {
            ledger_id: checkpoint.ledger_id.clone(),
            protocol_version: PROTOCOL_VERSION,
            node_id: 1,
            authorization_id: checkpoint.authorization_id.clone(),
            session_id: checkpoint.session_id.clone(),
            direction: checkpoint.direction,
            sequence,
            cumulative_received_bytes: bytes,
            transcript_hash: checkpoint.transcript_hash.clone(),
            sender_checkpoint_hash: sender_checkpoint_hash(&checkpoint),
            received_at: 210,
            receiver_member_id: "receiver".to_owned(),
            receiver_signature: String::new(),
        };
        receipt.receiver_signature = sign(
            &self.receiver,
            receiver_receipt_signing_text(&receipt).as_bytes(),
        );
        (checkpoint, receipt)
    }

    fn settle(
        &mut self,
        operation_id: &str,
        claim: &(SenderCheckpoint, ReceiverReceipt),
    ) -> Result<()> {
        let mut next = self.ledger.copy();
        apply_traffic_settlement(
            &mut next,
            &self.node_owner.identity.address,
            &self.node_owner.identity.public_key,
            operation_id,
            &claim.0,
            &claim.1,
            220,
        )?;
        self.ledger = next;
        Ok(())
    }

    fn fund(&self) -> u128 {
        self.ledger.networks.get(&self.commitment).unwrap().escrow_balance
    }
}

#[test]
fn reservations_leave_the_fund() {
    let mut relay = relay();
    assert_eq!(relay.reserve("first", &session(1), 4 * MRK_SCALE).unwrap(), 4 * MRK_SCALE);
    assert_eq!(relay.fund(), 6 * MRK_SCALE);
    assert_eq!(relay.reserve("second", &session(2), 4 * MRK_SCALE).unwrap(), 2 * MRK_SCALE);
    assert_eq!(relay.fund(), 4 * MRK_SCALE);
    assert_eq!(
        refusal(relay.reserve("third", &session(3), MRK_SCALE)),
        "Network Fund or member reservation capacity is exhausted"
    );
    assert_eq!(
        refusal(relay.reserve("fourth", &session(1), MRK_SCALE)),
        "payment Session ID is already in use"
    );
    assert_eq!(
        refusal(relay.reserve("fifth", "short", MRK_SCALE)),
        "payment Session ID must be 32-byte lowercase hex"
    );
}

#[test]
fn settlements_conserve_value() {
    let mut relay = relay();
    relay.reserve("first", &session(1), 4 * MRK_SCALE).unwrap();
    let before = relay.ledger.copy();
    let claim = relay.claim("first", &session(1), 1, GIBIBYTE);
    relay.settle("settled", &claim).unwrap();
    let reserved = |ledger: &LedgerState| {
        ledger
            .payment_authorizations
            .get(&"first".to_owned())
            .unwrap()
            .reserved_remaining
    };
    assert_eq!(reserved(&before) - reserved(&relay.ledger), MRK_SCALE);
    let income = account_balance(&relay.ledger, "reward1");
    let kept = relay.ledger.treasury - before.treasury;
    let burned = relay.ledger.burned - before.burned;
    assert!(income > 0);
    assert_eq!(income + kept + burned, MRK_SCALE);
    assert_eq!(relay.ledger.total_settled_traffic_bytes, u128::from(GIBIBYTE));
}

#[test]
fn traffic_is_settled_once() {
    let mut relay = relay();
    relay.reserve("first", &session(1), 4 * MRK_SCALE).unwrap();
    let claim = relay.claim("first", &session(1), 1, GIBIBYTE);
    relay.settle("settled", &claim).unwrap();
    assert_eq!(
        refusal(relay.settle("again", &claim)),
        "traffic settlement is not a strictly newer prefix"
    );
    let more = relay.claim("first", &session(1), 2, 2 * GIBIBYTE);
    relay.settle("more", &more).unwrap();
    assert_eq!(
        relay
            .ledger
            .payment_authorizations
            .get(&"first".to_owned())
            .unwrap()
            .settled_amount,
        2 * MRK_SCALE
    );
    let excess = relay.claim("first", &session(1), 3, 100 * GIBIBYTE);
    assert_eq!(
        refusal(relay.settle("excess", &excess)),
        "traffic settlement exceeds the remaining payment authorization"
    );
}

#[test]
fn sessions_close_with_their_last_direction() {
    for directions in [1, 2] {
        let mut relay = relay();
        relay.reserve("first", &session(1), 4 * MRK_SCALE).unwrap();
        if directions == 1 {
            let record = relay.ledger.payment_authorizations.get_mut(&"first".to_owned());
            record.unwrap().receiver_to_sender = None;
        }
        let fund = relay.fund();
        let (mut checkpoint, mut receipt) = relay.claim("first", &session(1), 1, GIBIBYTE);
        checkpoint.final_checkpoint = true;
        checkpoint.sender_signature = sign(
            &relay.sender,
            sender_checkpoint_signing_text(&checkpoint).as_bytes(),
        );
        receipt.sender_checkpoint_hash = sender_checkpoint_hash(&checkpoint);
        receipt.receiver_signature = sign(
            &relay.receiver,
            receiver_receipt_signing_text(&receipt).as_bytes(),
        );
        relay.settle("settled", &(checkpoint, receipt)).unwrap();
        let record = relay.ledger.payment_authorizations.get(&"first".to_owned());
        let closed_at = record.unwrap().closed_at;
        if directions == 1 {
            assert_eq!(closed_at, Some(220));
            assert_eq!(relay.fund(), fund + 3 * MRK_SCALE);
        } else {
            assert_eq!(closed_at, None);
            assert_eq!(relay.fund(), fund);
        }
    }
}

#[test]
fn members_sign_what_they_send_and_receive() {
    let relay = relay();
    let credential = |keys: &Keys, member_id: &str| MemberCredential {
        version: PROTOCOL_VERSION,
        network_id: relay.network_id.clone(),
        member_id: member_id.to_owned(),
        member_public_key: keys.identity.public_key.clone(),
        permissions: Vec::new(),
        max_connections: 1,
        serial: 1,
        issued_at: 0,
        expires_at: 1_000,
        owner_signature: String::new(),
    };
    let sender = credential(&relay.sender, "sender");
    let receiver = credential(&relay.receiver, "receiver");
    let session_id = session(1);
    let request = SenderCheckpointSigningRequest {
        ledger_id: "ledger",
        node_id: 1,
        authorization_id: "first",
        session_id: &session_id,
        direction: RelayDirection::SenderToReceiver,
        sequence: 1,
        cumulative_sent_bytes: GIBIBYTE,
        transcript_hash: "transcript",
        checkpoint_at: 200,
    };
    let key = &relay.sender.identity;
    let open = draft_sender_checkpoint(&sender, key, &request, false).unwrap();
    let last = draft_sender_checkpoint(&sender, key, &request, true).unwrap();
    let open = sign(&relay.sender, sender_checkpoint_signing_text(&open).as_bytes());
    let last = sign(&relay.sender, sender_checkpoint_signing_text(&last).as_bytes());
    let checkpoint = sign_sender_checkpoint(&sender, key, &request, &open).unwrap();
    assert_eq!(checkpoint.sender_signature, open);
    assert!(sign_sender_checkpoint(&sender, key, &request, &last).is_err());
    assert!(sign_final_sender_checkpoint(&sender, key, &request, &open).is_err());
    assert!(sign_final_sender_checkpoint(&sender, key, &request, &last).is_ok());
    assert_eq!(
        refusal(sign_sender_checkpoint(&receiver, key, &request, &open)),
        "member credential and key do not match for traffic checkpoint"
    );
    let key = &relay.receiver.identity;
    let draft = draft_receiver_receipt(&receiver, key, &checkpoint, 210).unwrap();
    let signature = sign(&relay.receiver, receiver_receipt_signing_text(&draft).as_bytes());
    let receipt = sign_receiver_receipt(&receiver, key, &checkpoint, 210, &signature).unwrap();
    assert_eq!(receipt.receiver_signature, signature);
    assert!(sign_receiver_receipt(&receiver, key, &checkpoint, 211, &signature).is_err());
}

#[test]
fn refused_settlements_change_nothing() {
    let mut relay = relay();
    relay.reserve("first", &session(1), 4 * MRK_SCALE).unwrap();
    let claim = relay.claim("first", &session(1), 1, 100 * GIBIBYTE);
    let before = relay.ledger.copy();
    let refused = apply_traffic_settlement(
        &mut relay.ledger,
        &relay.node_owner.identity.address,
        &relay.node_owner.identity.public_key,
        "excess",
        &claim.0,
        &claim.1,
        220,
    );
    assert!(refused.is_err());
    assert!(relay.ledger.payment_authorizations.same(&before.payment_authorizations));
    assert!(relay.ledger.accounts.same(&before.accounts));
    assert!(relay.ledger.networks.same(&before.networks));
}

#[test]
fn forged_receipts_are_refused() {
    let mut relay = relay();
    relay.reserve("first", &session(1), 4 * MRK_SCALE).unwrap();
    let mut claim = relay.claim("first", &session(1), 1, GIBIBYTE);
    claim.1.receiver_signature = sign(&relay.sender, b"forged");
    assert!(relay.settle("forged", &claim).is_err());
    let mut claim = relay.claim("first", &session(1), 1, GIBIBYTE);
    claim.0.cumulative_sent_bytes = 2 * GIBIBYTE;
    assert_eq!(
        refusal(relay.settle("altered", &claim)),
        "traffic sender checkpoint and receiver receipt do not describe the same prefix"
    );
}

#[test]
fn reserved_sessions_are_opened_by_their_members() {
    let mut relay = relay();
    relay.reserve("first", &session(1), 4 * MRK_SCALE).unwrap();
    let network_id = relay.network_id.clone();
    let open = |ledger: &LedgerState, node_id, source: &str, destination: &str, now| {
        validate_relay_open(ledger, "first", node_id, &network_id, source, destination, now)
    };
    assert_eq!(
        refusal(open(&relay.ledger, 1, "sender", "receiver", 500)),
        "payment authorization is not finalized"
    );
    relay.ledger.operations.insert(
        "first".to_owned(),
        OperationRecord {
            operation_id: "first".to_owned(),
            kind: "Network.ReserveSession".to_owned(),
            signer: relay.sender.identity.address.clone(),
            nonce: 1,
            created_at: 100,
            status: OperationStatus::Finalized,
            error: None,
            payload: Payload::new(),
            signature: String::new(),
            block_height: Some(1),
            signed_operation: None,
            fee_payer: None,
            fee_charged: 0,
            fee_burned: 0,
            fee_to_treasury: 0,
        },
    );
    let view = open(&relay.ledger, 1, "sender", "receiver", 500).unwrap();
    assert_eq!(view.authorization.authorization_id, "first");
    assert!(open(&relay.ledger, 2, "sender", "receiver", 500).is_err());
    assert!(open(&relay.ledger, 1, "stranger", "receiver", 500).is_err());
    assert!(open(&relay.ledger, 1, "sender", "receiver", 5_000).is_err());
    assert_eq!(
        payment_authorization(&relay.ledger, "first").unwrap().session_id,
        session(1)
    );
    assert!(payment_authorization(&relay.ledger, "other").is_err());
    let history = payment_history(&relay.ledger, "office", None, 10).unwrap();
    assert_eq!(history.authorizations.len(), 1);
}
