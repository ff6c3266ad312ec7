use base64::engine::general_purpose::STANDARD;
use base64::Engine;
use ring::rand::SystemRandom;
use ring::signature::{Ed25519KeyPair, KeyPair};
use mrk_core::accounts::{account_balance, ensure_account};
use mrk_core::backups::init_node;
use mrk_core::ballots::{
    commit_ballot, commit_count, finalize_governance_proposal, governance_proposal,
    governance_proposals, validator_vote_governance_proposal, veto_treasury_proposal,
    vote_governance_proposal,
};
use mrk_core::crypto::address_from_public_key;
use mrk_core::drafts::commit_draft;
use mrk_core::epochs::new_epoch_context;
use mrk_core::error::Result;
use mrk_core::model::{
    GovernanceProposalAction, GovernanceProposalKind, GovernanceProposalRecord,
    GovernanceProposalStatus, GovernanceVoteChoice, Intake, KeyIdentity, LedgerState,
    LocalNodeConfig, NodeRecord, NodeStatus,
};
use mrk_core::nodes::bind_ip_slot_if_available;
use mrk_core::protocol::{
    CRITICAL_TIMELOCK_SECONDS, CRITICAL_VOTING_SECONDS, GOVERNANCE_PROPOSAL_BOND,
    STANDARD_VOTING_SECONDS,
};
use mrk_core::steering::{
    commit_governance_action, create_governance_proposal, execute_governance_proposal,
    governance_pause_emission, governance_resume_emission, governance_set_parameter,
    governance_status,
};
use mrk_core::table::{Replicate, Table};
use mrk_core::views::{GovernanceReceipt, GovernanceTallyView};

struct Keys {
    pair: Ed25519KeyPair,
    identity: KeyIdentity,
}

fn new_keys() -> Keys {
    let document = Ed25519KeyPair::generate_pkcs8(&SystemRandom::new()).unwrap();
    let pair = Ed25519KeyPair::from_pkcs8(document.as_ref()).unwrap();
    let identity = KeyIdentity {
        address: address_from_public_key(pair.public_key().as_ref()),
        public_key: STANDARD.encode(pair.public_key().as_ref()),
    };
    Keys { pair, identity }
}

fn sign(keys: &Keys, message: &[u8]) -> String {
    STANDARD.encode(keys.pair.sign(message).as_ref())
}

/// A signature of an operation, and what is known of it once it has been read.
fn signed(keys: &Keys, operation_id: &str) -> (String, Intake) {
    let signing_bytes = format!("signing {operation_id}").into_bytes();
    (
        sign(keys, &signing_bytes),
        Intake {
            operation_id: operation_id.to_owned(),
            signing_bytes,
            encoded_len: 256,
            fee_units: 0,
        },
    )
}

fn test_node(node_id: u64) -> NodeRecord {
    NodeRecord {
        node_id,
        previous_node_id: None,
        name: format!("node{node_id}"),
        owner_address: format!("owner{node_id}"),
        owner_public_key: format!("owner-key{node_id}"),
        relay_public_key: format!("relay-key{node_id}"),
        reward_address: format!("reward{node_id}"),
        endpoint: format!("wss://{node_id}.example/v1/relay"),
        reward_ip: format!("9.8.7.{node_id}"),
        ip_slot: format!("v4:9.8.7.{node_id}"),
        price_per_gib: 0,
        status: NodeStatus::Active,
        registered_at: 0,
        warmup_until: 0,
        active_since: Some(0),
        last_heartbeat: None,
        last_probe_success: Some(0),
        probe_success_count: 1,
        last_relay_receipt_at: None,
        eligible_seconds_by_epoch: Table::new(),
        total_eligible_seconds: 200 * 86_400,
        service_bond: 0,
        service_bond_unlock_at: None,
        governance_bond: 0,
        governance_bonded_at: None,
        governance_exit_requested_at: None,
        governance_bond_unlock_at: None,
        offline_slashed_at: None,
        offline_slashed_service_bond: 0,
        offline_slashed_vesting_reward: 0,
        claimable_reward: 0,
        reward_vesting_buckets: Vec::new(),
        validator: false,
        validator_signature_rate_bps: 10_000,
        validator_bond: 0,
        validator_candidate_since: None,
        validator_last_epoch: None,
        validator_consecutive_epochs: 0,
        validator_exit_requested_at: None,
        validator_bond_unlock_at: None,
    }
}

/// A ledger on which so many nodes count in governance, with the keys of the first ones.
struct Council {
    ledger: LedgerState,
    owners: Vec<Keys>,
    rewards: Vec<Keys>,
}

fn council(count: u64, keyed: u64) -> Council {
    let mut ledger = LedgerState::default();
    ledger.settings.required_service_bond = 0;
    ledger.settings.required_governance_bond = 0;
    ledger.settings.governance_min_service_seconds = 0;
    ledger.settings.probe_validity_seconds = 1_000 * 86_400;
    let context = new_epoch_context(&ledger).unwrap();
    ledger.epoch_contexts.insert(ledger.epoch_number, context);
    let mut owners = Vec::new();
    let mut rewards = Vec::new();
    for node_id in 1..=count {
        let mut node = test_node(node_id);
        if node_id <= keyed {
            let owner = new_keys();
            let reward = new_keys();
            node.owner_address = owner.identity.address.clone();
            node.owner_public_key = owner.identity.public_key.clone();
            node.reward_address = reward.identity.address.clone();
            ensure_account(&mut ledger, &owner.identity).unwrap();
            ensure_account(&mut ledger, &reward.identity).unwrap();
            ledger
                .accounts
                .get_mut(&reward.identity.address)
                .unwrap()
                .balance = 2 * GOVERNANCE_PROPOSAL_BOND;
            owners.push(owner);
            rewards.push(reward);
        }
        let slot = node.ip_slot.clone();
        ledger.nodes.insert(node_id, node);
        assert!(bind_ip_slot_if_available(&mut ledger, &slot, node_id, 0));
    }
    Council {
        ledger,
        owners,
        rewards,
    }
}

fn config_of(council: &Council, node_id: u64) -> LocalNodeConfig {
    let node = council.ledger.nodes.get(&node_id).unwrap();
    let mut config =
        init_node(&node.name, false, &node.owner_address, "relay", &node.reward_address).unwrap();
    config.node_id = Some(node_id);
    config
}

impl Council {
    fn propose(&mut self, action: GovernanceProposalAction, now: i64) -> GovernanceProposalRecord {
        let config = config_of(self, 1);
        let (draft, proposal) = create_governance_proposal(
            &self.ledger,
            &config,
            &self.rewards[0].identity,
            GovernanceProposalKind::Critical,
            "  A proposal ",
            action,
            now,
        )
        .unwrap();
        let (signature, intake) = signed(&self.rewards[0], "propose");
        commit_draft(
            &mut self.ledger,
            draft,
            &self.rewards[0].identity.public_key,
            signature,
            intake,
            now,
        )
        .unwrap();
        proposal
    }

    fn vote(
        &mut self,
        node_id: u64,
        choice: GovernanceVoteChoice,
        now: i64,
    ) -> Result<(String, GovernanceTallyView)> {
        let config = config_of(self, node_id);
        let owner = &self.owners[node_id as usize - 1];
        let (draft, ballot) = vote_governance_proposal(
            &self.ledger,
            &config,
            &owner.identity,
            1,
            choice,
            now,
        )?;
        let (signature, intake) = signed(owner, &format!("vote {node_id} {now}"));
        commit_ballot(
            &mut self.ledger,
            draft,
            ballot,
            &owner.identity.public_key,
            signature,
            intake,
            now,
        )
    }

    fn count(&mut self, now: i64) -> Result<GovernanceTallyView> {
        let config = config_of(self, 1);
        let owner = &self.owners[0];
        let (draft, refund, tally) =
            finalize_governance_proposal(&self.ledger, &config, &owner.identity, 1, now)?;
        let (signature, intake) = signed(owner, &format!("count {now}"));
        commit_count(
            &mut self.ledger,
            draft,
            &refund,
            &owner.identity.public_key,
            signature,
            intake,
            now,
        )?;
        Ok(tally)
    }

    fn execute(&mut self, now: i64) -> Result<GovernanceReceipt> {
        let config = config_of(self, 1);
        let owner = &self.owners[0];
        let (draft, node_id) =
            execute_governance_proposal(&self.ledger, &config, &owner.identity, 1, now)?;
        let (signature, intake) = signed(owner, &format!("execute {now}"));
        commit_governance_action(
            &mut self.ledger,
            draft,
            node_id,
            &owner.identity.public_key,
            signature,
            intake,
            now,
        )
    }
}

fn refusal<T>(result: Result<T>) -> String {
    match result {
        Ok(_) => panic!("the request was not refused"),
        Err(error) => error.text().to_owned(),
    }
}

#[test]
fn proposals_are_voted_on_counted_and_executed_once() {
    let mut council = council(50, 40);
    let proposal = council.propose(
        GovernanceProposalAction::PauseEmission {
            reason: "maintenance".to_owned(),
        },
        1_000,
    );
    assert_eq!(proposal.title, "A proposal");
    assert_eq!(proposal.voting_ends_at, 1_000 + CRITICAL_VOTING_SECONDS);
    assert_eq!(proposal.execute_after, proposal.voting_ends_at + CRITICAL_TIMELOCK_SECONDS);
    assert_eq!(
        account_balance(&council.ledger, &council.rewards[0].identity.address),
        GOVERNANCE_PROPOSAL_BOND
    );

    for node_id in 1..=40 {
        let (_, tally) = council
            .vote(node_id, GovernanceVoteChoice::Yes, 2_000)
            .unwrap();
        assert_eq!(tally.yes_power, 180 * u128::from(node_id));
    }
    assert_eq!(
        refusal(council.vote(3, GovernanceVoteChoice::No, 2_001)),
        "Node has already voted on this proposal"
    );
    assert_eq!(
        refusal(council.count(2_002)),
        format!("governance voting remains open until {}", proposal.voting_ends_at)
    );

    let tally = council.count(proposal.voting_ends_at).unwrap();
    assert_eq!(tally.status, GovernanceProposalStatus::Passed);
    assert_eq!(
        account_balance(&council.ledger, &council.rewards[0].identity.address),
        2 * GOVERNANCE_PROPOSAL_BOND
    );
    assert_eq!(
        refusal(council.vote(40, GovernanceVoteChoice::No, 2_003)),
        "governance proposal is not accepting votes"
    );
    assert_eq!(
        refusal(council.execute(proposal.execute_after - 1)),
        format!("proposal timelock remains active until {}", proposal.execute_after)
    );

    let receipt = council.execute(proposal.execute_after).unwrap();
    assert_eq!(receipt.action, "ExecuteProposal");
    assert!(council.ledger.governance.emission_paused);
    assert_eq!(
        refusal(council.execute(proposal.execute_after + 1)),
        "only a passed proposal can execute"
    );
    let (record, _) = governance_proposal(&council.ledger, 1).unwrap();
    assert_eq!(record.status, GovernanceProposalStatus::Executed);
    assert_eq!(governance_proposals(&council.ledger).len(), 1);
}

#[test]
fn a_failed_count_without_a_quorum_keeps_a_fifth_of_the_bond() {
    let mut council = council(50, 1);
    let config = config_of(&council, 1);
    let treasury = council.ledger.treasury;
    let (draft, _) = create_governance_proposal(
        &council.ledger,
        &config,
        &council.rewards[0].identity,
        GovernanceProposalKind::Standard,
        "resume",
        GovernanceProposalAction::ResumeEmission,
        0,
    )
    .unwrap();
    let (signature, intake) = signed(&council.rewards[0], "propose");
    commit_draft(
        &mut council.ledger,
        draft,
        &council.rewards[0].identity.public_key,
        signature,
        intake,
        0,
    )
    .unwrap();
    council.vote(1, GovernanceVoteChoice::No, 1).unwrap();
    let tally = council.count(STANDARD_VOTING_SECONDS).unwrap();
    assert_eq!(tally.status, GovernanceProposalStatus::Rejected);
    assert_eq!(council.ledger.treasury - treasury, GOVERNANCE_PROPOSAL_BOND / 5);
    assert_eq!(
        account_balance(&council.ledger, &council.rewards[0].identity.address),
        2 * GOVERNANCE_PROPOSAL_BOND - GOVERNANCE_PROPOSAL_BOND / 5
    );
}

#[test]
fn treasury_spends_take_validators_and_can_be_vetoed() {
    let mut council = council(50, 40);
    council.ledger.consensus.active_validators = vec![1, 2, 3, 4];
    let recipient = new_keys().identity.address;
    let proposal = council.propose(
        GovernanceProposalAction::TreasurySpend {
            recipient,
            amount: 1_000,
            reference_hash: format!("sha256:{}", "a".repeat(64)),
        },
        1_000,
    );
    assert_eq!(proposal.validator_snapshot, vec![1, 2, 3, 4]);
    for node_id in 1..=40 {
        council
            .vote(node_id, GovernanceVoteChoice::Yes, 2_000)
            .unwrap();
    }
    for node_id in 1..=3 {
        let config = config_of(&council, node_id);
        let owner = &council.owners[node_id as usize - 1];
        let (draft, ballot) = validator_vote_governance_proposal(
            &council.ledger,
            &config,
            &owner.identity,
            1,
            GovernanceVoteChoice::Yes,
            2_001,
        )
        .unwrap();
        let (signature, intake) = signed(owner, &format!("validator {node_id}"));
        let (_, tally) = commit_ballot(
            &mut council.ledger,
            draft,
            ballot,
            &owner.identity.public_key,
            signature,
            intake,
            2_001,
        )
        .unwrap();
        assert_eq!(tally.validator_yes, node_id as usize);
    }
    let config = config_of(&council, 5);
    assert_eq!(
        refusal(validator_vote_governance_proposal(
            &council.ledger,
            &config,
            &council.owners[4].identity,
            1,
            GovernanceVoteChoice::Yes,
            2_002,
        )),
        "Node was not an Active Validator at proposal snapshot"
    );
    let passed = council.count(proposal.voting_ends_at).unwrap();
    assert_eq!(passed.status, GovernanceProposalStatus::Passed);
    assert_eq!(passed.validator_quorum, 3);

    let now = proposal.voting_ends_at + 1;
    let mut status = GovernanceProposalStatus::Passed;
    for node_id in 1..=17 {
        assert_eq!(status, GovernanceProposalStatus::Passed);
        let config = config_of(&council, node_id);
        let owner = &council.owners[node_id as usize - 1];
        let (draft, ballot) =
            veto_treasury_proposal(&council.ledger, &config, &owner.identity, 1, now).unwrap();
        let (signature, intake) = signed(owner, &format!("veto {node_id}"));
        let (_, tally) = commit_ballot(
            &mut council.ledger,
            draft,
            ballot,
            &owner.identity.public_key,
            signature,
            intake,
            now,
        )
        .unwrap();
        status = tally.status;
    }
    assert_eq!(status, GovernanceProposalStatus::Cancelled);
    assert_eq!(
        refusal(council.execute(proposal.execute_after)),
        "only a passed proposal can execute"
    );
}

#[test]
fn proposals_name_what_is_wrong_with_them() {
    let council = council(50, 2);
    let config = config_of(&council, 1);
    let make = |kind, title: &str, action| {
        create_governance_proposal(
            &council.ledger,
            &config,
            &council.rewards[0].identity,
            kind,
            title,
            action,
            0,
        )
    };
    assert_eq!(
        refusal(make(
            GovernanceProposalKind::Standard,
            "   ",
            GovernanceProposalAction::ResumeEmission,
        )),
        "governance proposal title must contain between 1 and 128 characters"
    );
    assert_eq!(
        refusal(make(
            GovernanceProposalKind::Standard,
            "pause",
            GovernanceProposalAction::PauseEmission {
                reason: " ".to_owned(),
            },
        )),
        "pause reason must contain between 1 and 256 characters"
    );
    assert_eq!(
        refusal(create_governance_proposal(
            &council.ledger,
            &config,
            &council.rewards[1].identity,
            GovernanceProposalKind::Standard,
            "resume",
            GovernanceProposalAction::ResumeEmission,
            0,
        )),
        "Node Reward key does not match the registry"
    );
}

#[test]
fn distributed_governance_takes_enough_nodes() {
    let council = council(19, 1);
    let config = config_of(&council, 1);
    assert_eq!(
        refusal(vote_governance_proposal(
            &council.ledger,
            &config,
            &council.owners[0].identity,
            1,
            GovernanceVoteChoice::Yes,
            0,
        )),
        "distributed governance requires at least 20 Governance-Eligible Nodes; current count is 19"
    );
}

#[test]
fn direct_governance_ends_with_fifty_nodes() {
    let mut before = council(49, 1);
    let config = config_of(&before, 1);
    let owner = before.owners[0].identity.replicate();
    let (draft, node_id) =
        governance_pause_emission(&before.ledger, &config, &owner, " upgrade ", 5).unwrap();
    let (signature, intake) = signed(&before.owners[0], "pause");
    let receipt = commit_governance_action(
        &mut before.ledger,
        draft,
        node_id,
        &owner.public_key,
        signature,
        intake,
        5,
    )
    .unwrap();
    assert_eq!(receipt.payload.text("reason").unwrap(), "upgrade");
    assert_eq!(before.ledger.governance.pause_reason.as_deref(), Some("upgrade"));
    assert_eq!(before.ledger.governance.last_action_at, Some(5));
    assert_eq!(
        refusal(governance_pause_emission(&before.ledger, &config, &owner, "again", 6)),
        "node emission is already paused"
    );
    let (draft, _) = governance_resume_emission(&before.ledger, &config, &owner, 7).unwrap();
    assert!(!draft.ledger.governance.emission_paused);

    let after = council(50, 1);
    let config = config_of(&after, 1);
    assert_eq!(
        refusal(governance_set_parameter(
            &after.ledger,
            &config,
            &after.owners[0].identity,
            "block-interval-seconds",
            "6",
            0,
        )),
        "Node 1 direct governance is disabled at 50 Governance-Eligible Nodes; node voting is required"
    );
}

#[test]
fn status_tells_who_governs() {
    let few = council(3, 1);
    let status = governance_status(&few.ledger, 10).unwrap();
    assert_eq!(status.mode, "NODE1_DIRECT");
    assert_eq!(status.governance_eligible_node_ids, vec![1, 2, 3]);
    assert_eq!(status.genesis_node_id, Some(1));
    assert_eq!(status.parameters.len(), 37);
    assert_eq!(governance_status(&council(20, 1).ledger, 10).unwrap().mode, "HYBRID");
    assert_eq!(governance_status(&council(50, 1).ledger, 10).unwrap().mode, "NODE_VOTING");
}

#[test]
fn unknown_proposals_are_not_shown() {
    let council = council(1, 1);
    assert_eq!(
        refusal(governance_proposal(&council.ledger, 7)),
        "governance proposal 7 not found"
    );
}
