use base64::engine::general_purpose::STANDARD;
use base64::Engine;
use ring::rand::SystemRandom;
use ring::signature::{Ed25519KeyPair, KeyPair};
use mrk_core::accounts::ensure_account;
use mrk_core::availability::probe_message;
use mrk_core::backups::init_node;
use mrk_core::blocks::{multi_validator_block_signing_text, vote_signing_text};
use mrk_core::candidates::{stage_consensus_candidate, PendingOperationEnvelope};
use mrk_core::committee::{consensus_proposer, consensus_quorum, refresh_validator_committee};
use mrk_core::consensus::{
    advance_consensus_round, cast_consensus_vote, draft_consensus_vote, submit_consensus_vote,
};
use mrk_core::crypto::address_from_public_key;
use mrk_core::epochs::new_epoch_context;
use mrk_core::error::Result;
use mrk_core::history::verify_blockchain;
use mrk_core::model::{
    BlockConsensusMode, BlockRecord, ConsensusVote, ConsensusVoteType, Field, Intake, KeyIdentity,
    LedgerState, LocalNodeConfig, NodeRecord, NodeStatus, OtherValue, Payload, SignedOperation,
    UnsignedOperation,
};
use mrk_core::node_drafts::node_probe_response;
use mrk_core::nodes::bind_ip_slot_if_available;
use mrk_core::peers::{
    authenticate_consensus_peer, challenge_signing_text, create_consensus_challenge,
    create_consensus_hello, draft_consensus_challenge, peer_hello_signing_text, ConsensusHello,
};
use mrk_core::probes::{
    availability_probe_request, availability_probe_requests, availability_ticket,
    availability_ticket_signer, ticket_message,
};
use mrk_core::proposing::{make_proposed_block, prepare_consensus_proposal, propose_consensus_block};
use mrk_core::protocol::PROTOCOL_VERSION;
use mrk_core::table::{Replicate, Table};

struct Keys {
    pair: Ed25519KeyPair,
    identity: KeyIdentity,
}

fn new_keys() -> Keys {
    let document = Ed25519KeyPair::generate_pkcs8(&SystemRandom::new()).unwrap();
    let pair = Ed25519KeyPair::from_pkcs8(document.as_ref()).unwrap();
    let identity = KeyIdentity {
        address: address_from_public_key(pair.public_key().as_ref()),
        public_key: STANDARD.encode(pair.public_key().as_ref()),
    };
    Keys { pair, identity }
}

fn sign(keys: &Keys, message: &[u8]) -> String {
    STANDARD.encode(keys.pair.sign(message).as_ref())
}

/// A signature of an operation, and what is known of it once it has been read.
fn signed(keys: &Keys, operation_id: &str) -> (String, Intake) {
    let signing_bytes = format!("signing {operation_id}").into_bytes();
    (
        sign(keys, &signing_bytes),
        Intake {
            operation_id: operation_id.to_owned(),
            signing_bytes,
            encoded_len: 256,
            fee_units: 0,
        },
    )
}

fn test_node(node_id: u64) -> NodeRecord {
    NodeRecord {
        node_id,
        previous_node_id: None,
        name: format!("node{node_id}"),
        owner_address: format!("owner{node_id}"),
        owner_public_key: format!("owner-key{node_id}"),
        relay_public_key: format!("relay-key{node_id}"),
        reward_address: format!("reward{node_id}"),
        endpoint: format!("wss://{node_id}.example/v1/relay"),
        reward_ip: format!("9.8.7.{node_id}"),
        ip_slot: format!("v4:9.8.7.{node_id}"),
        price_per_gib: 0,
        status: NodeStatus::Active,
        registered_at: 0,
        warmup_until: 0,
        active_since: Some(0),
        last_heartbeat: None,
        last_probe_success: Some(0),
        probe_success_count: 1,
        last_relay_receipt_at: None,
        eligible_seconds_by_epoch: Table::new(),
        total_eligible_seconds: 200 * 86_400,
        service_bond: 0,
        service_bond_unlock_at: None,
        governance_bond: 0,
        governance_bonded_at: None,
        governance_exit_requested_at: None,
        governance_bond_unlock_at: None,
        offline_slashed_at: None,
        offline_slashed_service_bond: 0,
        offline_slashed_vesting_reward: 0,
        claimable_reward: 0,
        reward_vesting_buckets: Vec::new(),
        validator: false,
        validator_signature_rate_bps: 10_000,
        validator_bond: 0,
        validator_candidate_since: None,
        validator_last_epoch: None,
        validator_consecutive_epochs: 0,
        validator_exit_requested_at: None,
        validator_bond_unlock_at: None,
    }
}


/// A ledger whose blocks are agreed on by four validators.
struct Committee {
    ledger: LedgerState,
    owners: Vec<Keys>,
}

const NOW: i64 = 10_000;

fn committee() -> Committee {
    let mut ledger = LedgerState::default();
    ledger.settings.required_service_bond = 0;
    ledger.settings.required_governance_bond = 0;
    ledger.settings.governance_min_service_seconds = 0;
    ledger.settings.probe_validity_seconds = 1_000 * 86_400;
    ledger.settings.max_active_validators = 7;
    ledger.epoch_started_at = NOW;
    let mut owners = Vec::new();
    for node_id in 1..=20 {
        let mut node = test_node(node_id);
        let owner = new_keys();
        node.owner_address = owner.identity.address.clone();
        node.owner_public_key = owner.identity.public_key.clone();
        ensure_account(&mut ledger, &owner.identity).unwrap();
        if node_id <= 4 {
            node.validator_bond = ledger.settings.validator_bond;
            node.validator_candidate_since = Some(0);
        }
        let slot = node.ip_slot.clone();
        ledger.nodes.insert(node_id, node);
        assert!(bind_ip_slot_if_available(&mut ledger, &slot, node_id, 0));
        owners.push(owner);
    }
    let context = new_epoch_context(&ledger).unwrap();
    ledger.epoch_contexts.insert(ledger.epoch_number, context);
    refresh_validator_committee(&mut ledger, NOW).unwrap();
    assert_eq!(ledger.consensus.active_validators, vec![1, 2, 3, 4]);
    Committee { ledger, owners }
}

impl Committee {
    fn config(&self, node_id: u64) -> LocalNodeConfig {
        let node = self.ledger.nodes.get(&node_id).unwrap();
        let mut config =
            init_node(&node.name, false, &node.owner_address, "relay", "reward").unwrap();
        config.node_id = Some(node_id);
        config
    }

    fn proposer(&self) -> u64 {
        let consensus = &self.ledger.consensus;
        consensus_proposer(&consensus.active_validators, consensus.height, consensus.round)
            .unwrap()
    }

    fn propose(&mut self, now: i64) -> BlockRecord {
        let node_id = self.proposer();
        let config = self.config(node_id);
        let owner = &self.owners[node_id as usize - 1];
        let prepared =
            prepare_consensus_proposal(&self.ledger, &config, &owner.identity, now).unwrap();
        let root = format!("state_{now:064x}");
        let unsigned = make_proposed_block(
            &self.ledger,
            node_id,
            &owner.identity,
            prepared.operation_ids.clone(),
            &root,
            "",
            now,
        )
        .unwrap();
        let signature = sign(
            owner,
            multi_validator_block_signing_text(&unsigned).as_bytes(),
        );
        propose_consensus_block(
            &mut self.ledger,
            &config,
            &owner.identity,
            prepared,
            &root,
            &root,
            &signature,
            now,
        )
        .unwrap()
    }

    fn vote(
        &mut self,
        node_id: u64,
        vote_type: ConsensusVoteType,
        block_hash: &Option<String>,
        now: i64,
    ) -> Result<(ConsensusVote, Option<BlockRecord>)> {
        let config = self.config(node_id);
        let owner = &self.owners[node_id as usize - 1];
        let unsigned = draft_consensus_vote(
            &self.ledger,
            &config,
            &owner.identity,
            vote_type,
            block_hash,
            "",
            now,
        )?;
        let signature = sign(owner, vote_signing_text(&unsigned).as_bytes());
        cast_consensus_vote(
            &mut self.ledger,
            &config,
            &owner.identity,
            vote_type,
            block_hash,
            &signature,
            now,
        )
    }
}

#[test]
fn a_block_is_final_with_three_of_four_votes() {
    let mut committee = committee();
    let now = NOW + 600;
    let block = committee.propose(now);
    assert_eq!(block.height, 1);
    assert_eq!(block.consensus_mode, BlockConsensusMode::MultiValidator);
    let hash = Some(block.block_hash.clone());
    for node_id in 1..=3 {
        let (_, made) = committee
            .vote(node_id, ConsensusVoteType::Prevote, &hash, now + 1)
            .unwrap();
        assert!(made.is_none());
    }
    for node_id in 1..=2 {
        let (_, made) = committee
            .vote(node_id, ConsensusVoteType::Precommit, &hash, now + 2)
            .unwrap();
        assert!(made.is_none());
    }
    let (_, made) = committee
        .vote(3, ConsensusVoteType::Precommit, &hash, now + 2)
        .unwrap();
    let made = made.unwrap();
    assert_eq!(made.block_hash, block.block_hash);
    assert_eq!(made.commit_signatures.len(), 3);
    assert_eq!(committee.ledger.blocks.len(), 1);
    assert_eq!(committee.ledger.consensus.height, 2);
    assert!(committee.ledger.consensus.proposal.is_none());
    assert!(committee.ledger.finalized_checkpoint.is_some());
    let report = verify_blockchain(&committee.ledger);
    assert!(report.ok, "{}", report.detail);
}

#[test]
fn a_validator_that_votes_twice_loses_its_bond() {
    let mut committee = committee();
    let now = NOW + 600;
    let block = committee.propose(now);
    let hash = Some(block.block_hash.clone());
    committee
        .vote(2, ConsensusVoteType::Prevote, &hash, now + 1)
        .unwrap();
    let bond = committee.ledger.nodes.get(&2).unwrap().validator_bond;
    assert!(bond > 0);
    let first = committee.ledger.consensus.prevotes.get(&2).unwrap().replicate();
    let mut second = first.replicate();
    second.block_hash = None;
    second.signature = sign(&committee.owners[1], vote_signing_text(&second).as_bytes());
    let _ = submit_consensus_vote(&mut committee.ledger, &second, now + 2);
    assert_eq!(committee.ledger.consensus.double_sign_evidence.len(), 1);
    assert_eq!(committee.ledger.nodes.get(&2).unwrap().validator_bond, 0);
}

#[test]
fn votes_with_a_wrong_signature_are_refused() {
    let mut committee = committee();
    let now = NOW + 600;
    let block = committee.propose(now);
    let hash = Some(block.block_hash.clone());
    let config = committee.config(3);
    let mut vote = draft_consensus_vote(
        &committee.ledger,
        &config,
        &committee.owners[2].identity,
        ConsensusVoteType::Prevote,
        &hash,
        "",
        now,
    )
    .unwrap();
    vote.signature = sign(&committee.owners[3], vote_signing_text(&vote).as_bytes());
    assert!(submit_consensus_vote(&mut committee.ledger, &vote, now).is_err());
    assert!(committee.ledger.consensus.prevotes.is_empty());
}

#[test]
fn only_the_proposer_proposes() {
    let committee = committee();
    let other = if committee.proposer() == 1 { 2 } else { 1 };
    let config = committee.config(other);
    assert!(prepare_consensus_proposal(
        &committee.ledger,
        &config,
        &committee.owners[other as usize - 1].identity,
        NOW + 600,
    )
    .is_err());
}

#[test]
fn rounds_advance_after_their_time() {
    let mut committee = committee();
    let started = committee.ledger.consensus.round_started_at.unwrap();
    assert!(advance_consensus_round(&mut committee.ledger, started).is_err());
    let late = NOW + 100_000;
    assert_eq!(advance_consensus_round(&mut committee.ledger, late).unwrap(), 1);
    assert_eq!(committee.ledger.consensus.round, 1);
}

#[test]
fn peers_prove_who_they_are() {
    let committee = committee();
    let server = committee.config(1);
    let draft = draft_consensus_challenge(
        &committee.ledger,
        &server,
        &committee.owners[0].identity,
        "drawn".to_owned(),
        NOW,
    )
    .unwrap();
    let asked = challenge_signing_text(&draft);
    assert_eq!(
        asked,
        format!(
            "{}:challenge:drawn:1:{}:{NOW}",
            draft.protocol, committee.owners[0].identity.public_key
        )
    );
    let challenged = |signature: String| {
        create_consensus_challenge(
            &committee.ledger,
            &server,
            &committee.owners[0].identity,
            "drawn".to_owned(),
            signature,
            NOW,
        )
    };
    assert!(challenged(sign(&committee.owners[1], asked.as_bytes())).is_err());
    let challenge = challenged(sign(&committee.owners[0], asked.as_bytes())).unwrap();
    let client = committee.config(2);
    let answer = peer_hello_signing_text(&challenge, 2, NOW + 1);
    let answered = |signature: String| {
        create_consensus_hello(
            &committee.ledger,
            &client,
            &committee.owners[1].identity,
            &challenge,
            signature,
            NOW + 1,
        )
    };
    assert!(answered(sign(&committee.owners[1], b"another text")).is_err());
    let mut hello = answered(sign(&committee.owners[1], answer.as_bytes())).unwrap();
    let accepted = |hello: &ConsensusHello, at: i64| {
        authenticate_consensus_peer(&committee.ledger, &challenge, hello, at)
    };
    assert_eq!(accepted(&hello, NOW + 2).unwrap(), 2);
    assert!(accepted(&hello, NOW + 900).is_err());
    hello.timestamp = NOW + 2;
    assert!(accepted(&hello, NOW + 2).is_err());
}

#[test]
fn tickets_are_signed_for_the_local_node() {
    let committee = committee();
    let signer =
        availability_ticket_signer(&committee.config(1), &committee.owners[0].identity).unwrap();
    assert_eq!(signer.node_id, 1);
    assert_eq!(
        signer.owner_public_key,
        committee.owners[0].identity.public_key
    );
    let requested = |node_id: u64, limit: usize| {
        let config = committee.config(node_id);
        availability_probe_requests(&committee.ledger, &config, &signer, &Table::new(), NOW, limit)
    };
    assert_eq!(
        requested(2, 5).err().unwrap().text(),
        "Availability Ticket signer does not match the local Node"
    );
    assert!(requested(2, 0).unwrap().is_empty());
    assert!(requested(1, 5).unwrap().is_empty());
    let mut unregistered = committee.config(1);
    unregistered.node_id = None;
    assert_eq!(
        availability_ticket_signer(&unregistered, &committee.owners[0].identity)
            .err()
            .unwrap()
            .text(),
        "Probe verifier Node is not registered"
    );
}

#[test]
fn probes_carry_signed_tickets() {
    let mut committee = committee();
    let context = new_epoch_context(&committee.ledger).unwrap();
    let epoch = committee.ledger.epoch_number;
    committee.ledger.epoch_contexts.insert(epoch, context);
    let config = committee.config(1);
    let owner = &committee.owners[0];
    let ticket = availability_ticket(&committee.ledger, &config, 5, NOW + 1).unwrap();
    let message = ticket_message(&committee.ledger, &ticket);
    let requested = |signature: &str| {
        availability_probe_request(
            &committee.ledger,
            &config,
            &owner.identity,
            5,
            signature,
            NOW + 1,
        )
    };
    let signature = sign(owner, message.as_bytes());
    let request = requested(&signature).unwrap();
    assert_eq!(request.ticket_signature, signature);
    assert_eq!(request.target.node_id, 5);
    assert!(requested(&sign(&committee.owners[1], message.as_bytes())).is_err());
    let signer = availability_ticket_signer(&config, &owner.identity).unwrap();
    let due = |signature: String| {
        let mut signatures = Table::new();
        signatures.insert(5, signature);
        availability_probe_requests(&committee.ledger, &config, &signer, &signatures, NOW + 1, 9)
            .unwrap()
            .len()
    };
    assert_eq!(due(signature), 1);
    assert_eq!(due(sign(&committee.owners[1], message.as_bytes())), 0);
}

#[test]
fn relays_sign_their_answers() {
    let committee = committee();
    let config = committee.config(3);
    let relay = &committee.owners[5];
    let key = &relay.identity.public_key;
    let challenge = "a challenge of some length";
    let signature = sign(relay, probe_message(3, NOW, challenge).as_bytes());
    let answer = node_probe_response(&config, key, challenge, NOW, &signature).unwrap();
    assert_eq!(answer.node_id, 3);
    assert_eq!(answer.signature, signature);
    assert!(node_probe_response(&config, key, challenge, NOW + 1, &signature).is_err());
    assert_eq!(
        node_probe_response(&config, key, "short", NOW, &signature).unwrap_err().text(),
        "probe challenge must contain between 16 and 512 characters"
    );
}

#[test]
fn candidates_need_a_serial_in_their_credential() {
    let committee = committee();
    let owner = &committee.owners[6];
    let staged = |ledger: &mut LedgerState, id: &str, nonce: u64, serial: Option<u64>| {
        let (signature, intake) = signed(owner, id);
        let operation = SignedOperation {
            unsigned: UnsignedOperation {
                protocol_version: PROTOCOL_VERSION,
                ledger_id: ledger.ledger_id.clone(),
                module: "NetworkRegistry".to_owned(),
                action: "IssueMember".to_owned(),
                signer: owner.identity.address.clone(),
                account_nonce: nonce,
                valid_until: NOW + 100,
                max_fee_base_units: 0,
                fee_policy_version: ledger.settings.fee_policy.version,
                payload: Payload::new()
                    .with_text("network_commitment", "network")
                    .with_text("member_name", id)
                    .with(
                        "credential",
                        Field::Other(OtherValue {
                            text: format!("credential {id}"),
                            serial,
                        }),
                    ),
            },
            signature,
            intake,
        };
        let envelope = PendingOperationEnvelope {
            public_key: owner.identity.public_key.clone(),
            operation,
        };
        stage_consensus_candidate(ledger, &envelope, false, NOW)
    };
    let mut ledger = committee.ledger.copy();
    assert_eq!(staged(&mut ledger, "one", 1, Some(7)).unwrap(), "one");
    assert_eq!(
        staged(&mut ledger, "two", 2, None).unwrap_err().text(),
        "member credential serial is invalid"
    );
    assert_eq!(
        staged(&mut ledger, "three", 3, Some(7)).unwrap_err().text(),
        "another pending member issue already uses this name or serial"
    );
    assert!(staged(&mut ledger, "four", 4, Some(8)).is_ok());
}

#[test]
fn quorums_of_the_committee_overlap() {
    for count in 1..=31 {
        let quorum = consensus_quorum(count);
        assert!(quorum <= count);
        assert!(3 * quorum > 2 * count);
    }
    assert_eq!(consensus_quorum(4), 3);
    assert_eq!(consensus_quorum(7), 5);
}
