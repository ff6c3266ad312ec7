use std::collections::BTreeSet;
use mrk_core::amount::parse_mrk;
use mrk_core::availability::{active_availability_slot, availability_verifier_set};
use mrk_core::committee::refresh_validator_committee;
use mrk_core::epochs::{advance_epochs_for_block, epoch_context, new_epoch_context};
use mrk_core::ip::{ip_slot, is_public_ip, parse_ip};
use mrk_core::model::{
    AvailabilityMode, EpochContext, GovernanceProposalAction, GovernanceProposalKind,
    GovernanceProposalRecord, GovernanceProposalStatus, LedgerSettings, LedgerState, NodeRecord,
    NodeStatus, RewardVestingBucket, TreasurySpendRecord,
};
use mrk_core::nodes::{
    bind_ip_slot_if_available, ensure_node_can_drain, governance_eligible_node_ids,
    network_median_price_per_gib, release_node_ip_slot, validate_node_owner_registration,
};
use mrk_core::production::{finalized_network_totals, format_bytes};
use mrk_core::protocol::{
    BPS_DENOMINATOR, DEFAULT_RELAY_PRICE_PER_GIB, GENESIS_TREASURY_ALLOCATION,
    GOVERNANCE_PROPOSAL_BOND, MRK_SCALE, MULTI_VALIDATOR_NODE_THRESHOLD,
    NODE1_DIRECT_GOVERNANCE_END_THRESHOLD, REWARD_VESTING_STEP_SECONDS, STANDARD_TIMELOCK_SECONDS,
    STANDARD_VOTING_SECONDS,
};
use mrk_core::registration::apply_reward_ip_update;
use mrk_core::rewards::{node_reward_weight_bps, settle_elapsed_epochs_for_block};
use mrk_core::settings::{
    apply_governance_parameter_batch, governance_parameter_is_critical, governance_parameter_views,
    set_governance_parameter, validate_governance_settings,
};
use mrk_core::table::{Replicate, Same, Table};
use mrk_core::treasury::validate_treasury_spend_amount;
use mrk_core::vesting::{add_node_reward_vesting, node_vesting_reward, settle_node_reward_vesting};
use mrk_core::views::GovernanceTallyView;
use mrk_core::voting::{governance_power_snapshot_for_nodes, governance_tally_passed};

fn change_set(entries: &[(&str, &str)]) -> Table<String, String> {
    let mut set = Table::new();
    for (name, value) in entries {
        set.insert((*name).to_owned(), (*value).to_owned());
    }
    set
}

fn epoch_seconds(epoch: u64, seconds: u64) -> Table<u64, u64> {
    let mut table = Table::new();
    table.insert(epoch, seconds);
    table
}

#[test]
fn network_totals_use_only_finalized_state() {
    let mut ledger = LedgerState {
        burned: 25,
        total_settled_traffic_bytes: 5_000,
        ..LedgerState::default()
    };
    assert_eq!(finalized_network_totals(&ledger), (0, 0));

    let mut checkpoint = ledger.copy();
    checkpoint.burned = 10;
    checkpoint.total_settled_traffic_bytes = 2_048;
    checkpoint.finalized_checkpoint = None;
    ledger.finalized_checkpoint = Some(Box::new(checkpoint));
    assert_eq!(finalized_network_totals(&ledger), (10, 2_048));
}

#[test]
fn settled_traffic_uses_compact_binary_units() {
    assert_eq!(format_bytes(0), "0 B");
    assert_eq!(format_bytes(1_024), "1 KiB");
    assert_eq!(format_bytes(1_610_612_736), "1.5 GiB");
}

fn reset_epoch_context(ledger: &mut LedgerState) {
    ledger.epoch_contexts = Table::new();
    let context = new_epoch_context(ledger).unwrap();
    ledger.epoch_contexts.insert(ledger.epoch_number, context);
}

fn eligible_seconds(node: &NodeRecord, epoch: u64) -> u64 {
    node.eligible_seconds_by_epoch
        .get(&epoch)
        .copied()
        .unwrap_or_default()
}

fn set_eligible_seconds(node: &mut NodeRecord, epoch: u64, seconds: u64) {
    node.eligible_seconds_by_epoch.insert(epoch, seconds);
}

#[test]
fn governance_parameter_view_is_complete_and_shows_activation_layers() {
    let mut ledger = LedgerState {
        epoch_seconds_snapshot: 1_800,
        settings: LedgerSettings {
            epoch_seconds: 3_600,
            ..LedgerSettings::default()
        },
        ..LedgerState::default()
    };
    ledger.scheduled_parameter_changes.insert(
        3,
        change_set(&[("epoch-seconds", "600")]),
    );

    let parameters = governance_parameter_views(&ledger);
    assert_eq!(parameters.len(), 37);
    assert_eq!(
        parameters
            .iter()
            .map(|parameter| parameter.name.as_str())
            .collect::<BTreeSet<_>>()
            .len(),
        parameters.len()
    );
    let epoch = parameters
        .iter()
        .find(|parameter| parameter.name == "epoch-seconds")
        .unwrap();
    assert_eq!(epoch.current_value, "1800");
    assert_eq!(epoch.configured_value, "3600");
    assert_eq!(epoch.governance, "CRITICAL");
    assert_eq!(epoch.scheduled_changes[0].effective_epoch, 3);
    assert_eq!(epoch.scheduled_changes[0].value, "600");
    assert_eq!(
        parameters
            .iter()
            .find(|parameter| parameter.name == "service-bond")
            .unwrap()
            .governance,
        "STANDARD"
    );
    let node_lifecycle_positions = parameters
        .iter()
        .enumerate()
        .filter_map(|(position, parameter)| {
            (parameter.category == "Node lifecycle").then_some(position)
        })
        .collect::<Vec<_>>();
    assert!(
        node_lifecycle_positions
            .windows(2)
            .all(|positions| positions[1] == positions[0] + 1),
        "Node lifecycle parameters must remain contiguous"
    );
}

#[test]
fn availability_worker_waits_when_ledger_epoch_is_not_current() {
    let context = EpochContext {
        epoch: 4,
        started_at: 100,
        ended_at: 220,
        submission_deadline: 250,
        settings: LedgerSettings {
            availability_slot_seconds: 60,
            ..LedgerSettings::default()
        },
        availability_mode: AvailabilityMode::Node1Trusted,
        validator_ids: Vec::new(),
        validator_bonus_ids: Vec::new(),
        node1_single_producer: true,
    };

    assert_eq!(active_availability_slot(&context, 99).unwrap(), None);
    assert_eq!(active_availability_slot(&context, 100).unwrap(), Some(0));
    assert_eq!(active_availability_slot(&context, 159).unwrap(), Some(0));
    assert_eq!(active_availability_slot(&context, 160).unwrap(), Some(1));
    assert_eq!(active_availability_slot(&context, 219).unwrap(), Some(1));
    assert_eq!(active_availability_slot(&context, 220).unwrap(), None);
    assert_eq!(active_availability_slot(&context, 280).unwrap(), None);
}

#[test]
fn node1_reward_bonus_tracks_single_producer_mode_without_stacking() {
    let mut ledger = LedgerState {
        created_at: 0,
        epoch_started_at: 100,
        epoch_number: 1,
        ..LedgerState::default()
    };
    ledger.settings.required_service_bond = 0;
    ledger.settings.required_governance_bond = 0;
    ledger.settings.governance_min_service_seconds = 0;
    for node_id in 1..=MULTI_VALIDATOR_NODE_THRESHOLD as u64 {
        let mut node = availability_test_node(node_id);
        node.last_probe_success = Some(100);
        let slot = node.ip_slot.clone();
        ledger.nodes.insert(node_id, node);
        assert!(bind_ip_slot_if_available(&mut ledger, &slot, node_id, 100));
    }
    ledger.consensus.active_validators = vec![1, 2, 3, 4];

    let mut context = new_epoch_context(&ledger).unwrap();
    assert!(!context.node1_single_producer);
    context.validator_bonus_ids = vec![1, 2];
    assert_eq!(node_reward_weight_bps(1, &context), 12_500);
    assert_eq!(node_reward_weight_bps(2, &context), 12_500);

    ledger.consensus.active_validators.pop();
    let mut fallback = new_epoch_context(&ledger).unwrap();
    assert!(fallback.node1_single_producer);
    fallback.validator_bonus_ids = vec![1, 2];
    assert_eq!(node_reward_weight_bps(1, &fallback), 20_000);
    assert_eq!(node_reward_weight_bps(2, &fallback), 12_500);
    assert_eq!(node_reward_weight_bps(3, &fallback), 10_000);
}

#[test]
fn normalizes_public_ip_slots() {
    assert!(is_public_ip(parse_ip("1.1.1.1").unwrap()));
    assert!(!is_public_ip(parse_ip("127.0.0.1").unwrap()));
    assert!(!is_public_ip(parse_ip("100.64.0.1").unwrap()));
    assert_eq!(ip_slot(parse_ip("1.1.1.1").unwrap()), "v4:1.1.1.1");
    assert_eq!(
        ip_slot(parse_ip("2606:4700:4700::1111").unwrap()),
        "v6:2606:4700:4700:0::/64"
    );
}

#[test]
fn conflicting_ip_slot_has_only_one_governance_eligible_owner() {
    let mut ledger = LedgerState::default();
    ledger.settings.required_service_bond = 0;
    ledger.settings.governance_min_service_seconds = 0;
    ledger.settings.required_governance_bond = 0;
    let mut owner = availability_test_node(1);
    owner.last_probe_success = Some(100);
    let mut conflicting = availability_test_node(2);
    conflicting.reward_ip = owner.reward_ip.clone();
    conflicting.ip_slot = owner.ip_slot.clone();
    conflicting.last_probe_success = Some(100);
    let slot = owner.ip_slot.clone();
    ledger.nodes.insert(1, owner);
    ledger.nodes.insert(2, conflicting);
    assert!(bind_ip_slot_if_available(&mut ledger, &slot, 1, 0));
    assert!(!bind_ip_slot_if_available(&mut ledger, &slot, 2, 100));
    assert_eq!(governance_eligible_node_ids(&ledger, 100), vec![1]);
    release_node_ip_slot(&mut ledger, 1, 100);
    assert!(bind_ip_slot_if_available(&mut ledger, &slot, 2, 100));
    assert_eq!(governance_eligible_node_ids(&ledger, 100), vec![2]);
}

#[test]
fn standard_governance_requires_an_absolute_yes_majority() {
    let proposal = GovernanceProposalRecord {
        proposal_id: 1,
        proposer_node_id: 1,
        proposer_reward_address: "reward1".to_owned(),
        kind: GovernanceProposalKind::Standard,
        title: "standard threshold".to_owned(),
        action: GovernanceProposalAction::ResumeEmission,
        created_at: 0,
        voting_ends_at: STANDARD_VOTING_SECONDS,
        execute_after: STANDARD_VOTING_SECONDS + STANDARD_TIMELOCK_SECONDS,
        status: GovernanceProposalStatus::Voting,
        snapshot_epoch: 0,
        power_snapshot: Table::new(),
        total_power: 50,
        votes: Table::new(),
        validator_snapshot: Vec::new(),
        validator_votes: Table::new(),
        timelock_vetoes: Table::new(),
        proposal_bond: GOVERNANCE_PROPOSAL_BOND,
        finalized_at: None,
        executed_at: None,
    };
    let tally = |yes, no, abstain| GovernanceTallyView {
        proposal_id: 1,
        status: GovernanceProposalStatus::Voting,
        total_power: 50,
        yes_power: yes,
        no_power: no,
        abstain_power: abstain,
        participation_power: yes + no + abstain,
        validator_total: 0,
        validator_yes: 0,
        validator_no: 0,
        validator_abstain: 0,
        validator_quorum: 0,
        timelock_veto_power: 0,
        voting_ends_at: STANDARD_VOTING_SECONDS,
        execute_after: STANDARD_VOTING_SECONDS + STANDARD_TIMELOCK_SECONDS,
    };

    assert!(!governance_tally_passed(&proposal, &tally(1, 0, 24)));
    assert!(!governance_tally_passed(&proposal, &tally(25, 0, 0)));
    assert!(governance_tally_passed(&proposal, &tally(26, 0, 0)));
    assert!(governance_tally_passed(&proposal, &tally(26, 13, 0)));
    assert!(!governance_tally_passed(&proposal, &tally(26, 14, 0)));
    assert!(governance_tally_passed(&proposal, &tally(34, 16, 0)));
}

#[test]
fn bonded_roles_must_be_cleared_before_node_drain() {
    let mut node = availability_test_node(1);
    assert!(ensure_node_can_drain(&node).is_err());

    node.validator = false;
    node.validator_bond = 1;
    assert!(ensure_node_can_drain(&node).is_err());

    node.validator_bond = 0;
    node.validator_candidate_since = None;
    node.validator_exit_requested_at = None;
    node.validator_bond_unlock_at = None;
    assert!(ensure_node_can_drain(&node).is_ok());

    node.governance_bond = 1;
    node.governance_bonded_at = Some(0);
    assert!(ensure_node_can_drain(&node).is_err());

    node.governance_bond = 0;
    node.governance_bonded_at = None;
    assert!(ensure_node_can_drain(&node).is_ok());
}

#[test]
fn owner_join_requires_latest_settled_exited_node() {
    let mut ledger = LedgerState::default();
    let mut previous = availability_test_node(2);
    previous.owner_address = "returning-owner".to_owned();
    previous.owner_public_key = "returning-key".to_owned();
    previous.status = NodeStatus::Exited;
    ledger.nodes.insert(2, previous);

    assert!(
        validate_node_owner_registration(&ledger, "returning-owner", "returning-key", Some(2))
            .is_ok()
    );
    assert!(
        validate_node_owner_registration(&ledger, "returning-owner", "returning-key", None)
            .is_err()
    );

    ledger.nodes.get_mut(&2).unwrap().claimable_reward = 1;
    assert!(
        validate_node_owner_registration(&ledger, "returning-owner", "returning-key", Some(2))
            .is_err()
    );
    ledger.nodes.get_mut(&2).unwrap().claimable_reward = 0;
    ledger.nodes.get_mut(&2).unwrap().status = NodeStatus::Active;
    assert!(
        validate_node_owner_registration(&ledger, "returning-owner", "returning-key", Some(2))
            .is_err()
    );
}

fn availability_test_node(node_id: u64) -> NodeRecord {
    NodeRecord {
        node_id,
        previous_node_id: None,
        name: format!("node{node_id}"),
        owner_address: format!("owner{node_id}"),
        owner_public_key: format!("owner-key{node_id}"),
        relay_public_key: format!("relay-key{node_id}"),
        reward_address: format!("reward{node_id}"),
        endpoint: format!("wss://{node_id}.example/v1/relay"),
        reward_ip: format!("9.8.7.{node_id}"),
        ip_slot: format!("v4:9.8.7.{node_id}"),
        price_per_gib: 0,
        status: NodeStatus::Active,
        registered_at: 0,
        warmup_until: 0,
        active_since: Some(0),
        last_heartbeat: None,
        last_probe_success: Some(0),
        probe_success_count: 1,
        last_relay_receipt_at: None,
        eligible_seconds_by_epoch: Table::new(),
        total_eligible_seconds: 0,
        service_bond: 0,
        service_bond_unlock_at: None,
        governance_bond: 0,
        governance_bonded_at: None,
        governance_exit_requested_at: None,
        governance_bond_unlock_at: None,
        offline_slashed_at: None,
        offline_slashed_service_bond: 0,
        offline_slashed_vesting_reward: 0,
        claimable_reward: 0,
        reward_vesting_buckets: Vec::new(),
        validator: true,
        validator_signature_rate_bps: 10_000,
        validator_bond: 0,
        validator_candidate_since: None,
        validator_last_epoch: None,
        validator_consecutive_epochs: 0,
        validator_exit_requested_at: None,
        validator_bond_unlock_at: None,
    }
}

#[test]
fn relay_price_median_uses_only_active_reachable_nodes() {
    let now = 1_000;
    let mut ledger = LedgerState::default();
    ledger.settings.probe_validity_seconds = 300;
    assert_eq!(
        network_median_price_per_gib(&ledger, now),
        DEFAULT_RELAY_PRICE_PER_GIB
    );

    for (node_id, price_per_gib) in [(1, 100), (2, 300), (3, 500)] {
        let mut node = availability_test_node(node_id);
        node.price_per_gib = price_per_gib;
        node.last_probe_success = Some(now);
        let slot = node.ip_slot.clone();
        ledger.nodes.insert(node_id, node);
        assert!(bind_ip_slot_if_available(&mut ledger, &slot, node_id, now));
    }

    let mut warming = availability_test_node(4);
    warming.status = NodeStatus::WarmingUp;
    warming.price_per_gib = 200;
    warming.last_probe_success = Some(now);
    let warming_slot = warming.ip_slot.clone();
    ledger.nodes.insert(4, warming);
    assert!(bind_ip_slot_if_available(
        &mut ledger,
        &warming_slot,
        4,
        now
    ));

    let mut stale = availability_test_node(5);
    stale.price_per_gib = 400;
    stale.last_probe_success = Some(now - 301);
    let stale_slot = stale.ip_slot.clone();
    ledger.nodes.insert(5, stale);
    assert!(bind_ip_slot_if_available(&mut ledger, &stale_slot, 5, now));

    let mut unbound = availability_test_node(6);
    unbound.price_per_gib = 600;
    unbound.last_probe_success = Some(now);
    ledger.nodes.insert(6, unbound);

    assert_eq!(network_median_price_per_gib(&ledger, now), 300);

    ledger.nodes.get_mut(&3).unwrap().status = NodeStatus::Suspended;
    assert_eq!(network_median_price_per_gib(&ledger, now), 200);

    ledger.nodes.get_mut(&1).unwrap().status = NodeStatus::Suspended;
    ledger.nodes.get_mut(&2).unwrap().status = NodeStatus::Suspended;
    assert_eq!(
        network_median_price_per_gib(&ledger, now),
        DEFAULT_RELAY_PRICE_PER_GIB
    );
}

#[test]
fn node1_reward_ip_update_skips_timed_warmup_only_before_fifty_eligible_nodes() {
    let updated_at = 1_000;
    let mut ledger = LedgerState::default();
    ledger.settings.warmup_seconds = 86_400;
    ledger.settings.required_service_bond = 0;
    ledger.settings.required_governance_bond = 0;
    ledger.settings.governance_min_service_seconds = 0;
    for node_id in 1..NODE1_DIRECT_GOVERNANCE_END_THRESHOLD as u64 {
        let mut node = availability_test_node(node_id);
        node.last_probe_success = Some(updated_at);
        let slot = node.ip_slot.clone();
        ledger.nodes.insert(node_id, node);
        assert!(bind_ip_slot_if_available(
            &mut ledger,
            &slot,
            node_id,
            updated_at
        ));
    }

    let mut before_threshold = ledger.copy();
    apply_reward_ip_update(
        &mut before_threshold,
        1,
        "wss://node1-new.example/v1/relay",
        "1.1.1.1",
        "v4:1.1.1.1",
        updated_at,
    )
    .unwrap();
    let node1 = before_threshold.nodes.get(&1).unwrap();
    assert_eq!(node1.status, NodeStatus::WarmingUp);
    assert_eq!(node1.warmup_until, updated_at);
    assert_eq!(node1.active_since, None);

    let mut at_threshold = ledger.copy();
    let threshold_node_id = NODE1_DIRECT_GOVERNANCE_END_THRESHOLD as u64;
    let mut threshold_node = availability_test_node(threshold_node_id);
    threshold_node.last_probe_success = Some(updated_at);
    let threshold_slot = threshold_node.ip_slot.clone();
    at_threshold.nodes.insert(threshold_node_id, threshold_node);
    assert!(bind_ip_slot_if_available(
        &mut at_threshold,
        &threshold_slot,
        threshold_node_id,
        updated_at
    ));
    apply_reward_ip_update(
        &mut at_threshold,
        1,
        "wss://node1-new.example/v1/relay",
        "1.1.1.1",
        "v4:1.1.1.1",
        updated_at,
    )
    .unwrap();
    assert_eq!(
        at_threshold.nodes.get(&1).unwrap().warmup_until,
        updated_at + ledger.settings.warmup_seconds
    );

    let mut ordinary_node = ledger;
    apply_reward_ip_update(
        &mut ordinary_node,
        2,
        "wss://node2-new.example/v1/relay",
        "8.8.8.8",
        "v4:8.8.8.8",
        updated_at,
    )
    .unwrap();
    assert_eq!(
        ordinary_node.nodes.get(&2).unwrap().warmup_until,
        updated_at + ordinary_node.settings.warmup_seconds
    );
}

#[test]
fn availability_trust_transition_falls_back_to_node1_and_recovers() {
    let mut ledger = LedgerState {
        created_at: 0,
        epoch_started_at: 0,
        epoch_number: 0,
        epoch_seconds_snapshot: 300,
        ..LedgerState::default()
    };
    ledger.settings.epoch_seconds = 300;
    ledger.settings.governance_min_service_seconds = 0;
    ledger.settings.required_governance_bond = 0;
    ledger.settings.required_service_bond = 0;
    for node_id in 1..=7 {
        let mut node = availability_test_node(node_id);
        node.validator_bond = ledger.settings.validator_bond;
        node.validator_candidate_since = Some(0);
        let slot = node.ip_slot.clone();
        ledger.nodes.insert(node_id, node);
        assert!(bind_ip_slot_if_available(&mut ledger, &slot, node_id, 0));
    }
    reset_epoch_context(&mut ledger);
    let trusted = availability_verifier_set(&ledger, epoch_context(&ledger, 0).unwrap(), 1, 0);
    assert_eq!(trusted.mode, AvailabilityMode::Node1Trusted);
    assert_eq!(trusted.primary_ids, vec![1]);
    assert_eq!(trusted.primary_quorum, 1);

    refresh_validator_committee(&mut ledger, 0).unwrap();
    assert_eq!(ledger.consensus.active_validators.len(), 7);
    assert_eq!(ledger.availability_mode, AvailabilityMode::Node1Trusted);
    settle_elapsed_epochs_for_block(&mut ledger, 299).unwrap();
    assert_eq!(ledger.availability_mode, AvailabilityMode::Node1Trusted);
    settle_elapsed_epochs_for_block(&mut ledger, 300).unwrap();
    assert_eq!(ledger.availability_mode, AvailabilityMode::MultiValidator);
    assert_eq!(ledger.availability_activated_at, Some(300));
    let decentralized = availability_verifier_set(
        &ledger,
        epoch_context(&ledger, ledger.epoch_number).unwrap(),
        1,
        5,
    );
    assert_eq!(decentralized.primary_ids.len(), 5);
    assert_eq!(decentralized.primary_quorum, 3);
    assert!(!decentralized.primary_ids.contains(&1));

    ledger.nodes.get_mut(&7).unwrap().status = NodeStatus::Suspended;
    for node_id in 1..=6 {
        ledger.nodes.get_mut(&node_id).unwrap().last_probe_success = Some(600);
    }
    settle_elapsed_epochs_for_block(&mut ledger, 600).unwrap();
    assert_eq!(ledger.consensus.active_validators.len(), 6);
    assert_eq!(ledger.availability_mode, AvailabilityMode::Node1Trusted);
    let fallback = availability_verifier_set(
        &ledger,
        epoch_context(&ledger, ledger.epoch_number).unwrap(),
        1,
        10,
    );
    assert_eq!(fallback.primary_ids, vec![1]);
    assert_eq!(fallback.primary_quorum, 1);

    ledger.nodes.get_mut(&7).unwrap().status = NodeStatus::Active;
    for node_id in 1..=7 {
        ledger.nodes.get_mut(&node_id).unwrap().last_probe_success = Some(900);
    }
    settle_elapsed_epochs_for_block(&mut ledger, 900).unwrap();
    assert_eq!(ledger.consensus.active_validators.len(), 7);
    assert_eq!(ledger.availability_mode, AvailabilityMode::MultiValidator);
    assert_eq!(ledger.availability_activated_at, Some(300));
    assert_eq!(ledger.availability_activated_epoch, Some(1));
}

#[test]
fn thirty_one_seat_committee_respects_rotation_count_and_epoch_interval() {
    let mut ledger = LedgerState::default();
    ledger.settings.required_service_bond = 0;
    ledger.settings.governance_min_service_seconds = 0;
    ledger.settings.required_governance_bond = 0;
    ledger.settings.max_active_validators = 31;
    ledger.settings.max_validator_rotations = 10;
    ledger.settings.validator_rotation_interval_epochs = 3;
    for node_id in 1..=41 {
        let mut node = availability_test_node(node_id);
        node.validator = false;
        node.validator_bond = ledger.settings.validator_bond;
        node.validator_candidate_since = Some(0);
        let slot = node.ip_slot.clone();
        ledger.nodes.insert(node_id, node);
        assert!(bind_ip_slot_if_available(&mut ledger, &slot, node_id, 0));
    }

    refresh_validator_committee(&mut ledger, 0).unwrap();
    let first = ledger.consensus.active_validators.clone();
    assert_eq!(first, (1..=31).collect::<Vec<_>>());

    ledger.epoch_number += 1;
    for node_id in 1..=41 {
        ledger.nodes.get_mut(&node_id).unwrap().last_probe_success = Some(1);
    }
    refresh_validator_committee(&mut ledger, 1).unwrap();
    assert_eq!(ledger.consensus.active_validators, first);
    assert_eq!(ledger.consensus.last_selection_epoch, Some(0));

    ledger.epoch_number += 1;
    refresh_validator_committee(&mut ledger, 2).unwrap();
    assert_eq!(ledger.consensus.active_validators, first);
    assert_eq!(ledger.consensus.last_selection_epoch, Some(0));

    ledger.epoch_number += 1;
    refresh_validator_committee(&mut ledger, 3).unwrap();
    let second = ledger.consensus.active_validators.clone();
    let first_set = first.iter().copied().collect::<BTreeSet<_>>();
    let second_set = second.iter().copied().collect::<BTreeSet<_>>();
    assert_eq!(first_set.intersection(&second_set).count(), 21);
    assert_eq!(second_set.difference(&first_set).count(), 10);
    assert_eq!(second, (11..=41).collect::<Vec<_>>());
    assert_eq!(ledger.consensus.last_selection_epoch, Some(3));

    ledger.nodes.get_mut(&11).unwrap().status = NodeStatus::Suspended;
    ledger.epoch_number += 1;
    refresh_validator_committee(&mut ledger, 4).unwrap();
    assert_eq!(ledger.consensus.active_validators.len(), 31);
    assert!(!ledger.consensus.active_validators.contains(&11));
    assert_eq!(ledger.consensus.last_selection_epoch, Some(4));
}

#[test]
fn audited_slots_use_disjoint_primary_and_auditor_sets() {
    let mut ledger = LedgerState {
        availability_mode: AvailabilityMode::MultiValidator,
        ..LedgerState::default()
    };
    ledger.settings.availability_audit_rate_bps = 10_000;
    for node_id in 1..=9 {
        ledger
            .nodes
            .insert(node_id, availability_test_node(node_id));
    }
    ledger.consensus.active_validators = (1..=9).collect();
    reset_epoch_context(&mut ledger);
    let set = availability_verifier_set(&ledger, epoch_context(&ledger, 0).unwrap(), 1, 0);
    assert!(set.audit_required);
    assert_eq!(set.primary_ids.len(), 5);
    assert_eq!(set.auditor_ids.len(), 3);
    assert_eq!(set.audit_quorum, 2);
    assert!(!set.primary_ids.contains(&1));
    assert!(!set.auditor_ids.contains(&1));
    assert!(
        set.primary_ids
            .iter()
            .all(|node_id| !set.auditor_ids.contains(node_id))
    );
}

#[test]
fn parameter_batches_validate_and_activate_as_one_epoch_configuration() {
    let mut ledger = LedgerState {
        created_at: 0,
        epoch_started_at: 0,
        epoch_number: 0,
        ..LedgerState::default()
    };
    reset_epoch_context(&mut ledger);
    let initial = ledger.settings;
    let invalid = change_set(&[
        ("epoch-seconds", "300"),
        ("availability-slot-seconds", "70"),
    ]);
    assert!(apply_governance_parameter_batch(&mut ledger, &invalid, None).is_err());
    assert_eq!(ledger.settings.epoch_seconds, initial.epoch_seconds);
    assert_eq!(
        ledger.settings.availability_slot_seconds,
        initial.availability_slot_seconds
    );

    let changes = change_set(&[
        ("epoch-seconds", "300"),
        ("epoch-mint-amount", "100MRK"),
        ("availability-slot-seconds", "60"),
    ]);
    assert_eq!(
        apply_governance_parameter_batch(&mut ledger, &changes, None).unwrap(),
        1
    );
    assert_eq!(ledger.settings.epoch_seconds, 300);
    assert_eq!(
        epoch_context(&ledger, 0).unwrap().settings.epoch_seconds,
        1_800
    );
    advance_epochs_for_block(&mut ledger, 1_800).unwrap();
    let context = epoch_context(&ledger, 1).unwrap();
    assert_eq!(context.settings.epoch_seconds, 300);
    assert_eq!(
        context.settings.epoch_mint_amount,
        100 * MRK_SCALE
    );
    assert_eq!(context.settings.availability_slot_seconds, 60);
}

#[test]
fn parameter_batches_can_be_scheduled_for_a_future_epoch() {
    let mut ledger = LedgerState {
        created_at: 0,
        epoch_started_at: 0,
        epoch_number: 0,
        ..LedgerState::default()
    };
    reset_epoch_context(&mut ledger);
    let initial = ledger.settings;
    let changes = change_set(&[
        ("epoch-seconds", "300"),
        ("availability-slot-seconds", "60"),
    ]);

    assert_eq!(
        apply_governance_parameter_batch(&mut ledger, &changes, Some(2)).unwrap(),
        2
    );
    assert_eq!(ledger.settings.epoch_seconds, initial.epoch_seconds);
    assert!(ledger.scheduled_parameter_changes.get(&2).unwrap().same(&changes));

    advance_epochs_for_block(&mut ledger, 1_800).unwrap();
    assert_eq!(ledger.epoch_number, 1);
    assert_eq!(ledger.settings.epoch_seconds, initial.epoch_seconds);

    advance_epochs_for_block(&mut ledger, 3_600).unwrap();
    assert_eq!(ledger.epoch_number, 2);
    assert_eq!(ledger.settings.epoch_seconds, 300);
    assert_eq!(ledger.settings.availability_slot_seconds, 60);
    assert!(!ledger.scheduled_parameter_changes.contains_key(&2));
    assert_eq!(
        epoch_context(&ledger, 2).unwrap().settings.epoch_seconds,
        300
    );
}

#[test]
fn fee_policy_updates_are_atomic_versioned_and_delayed_two_epochs() {
    let mut ledger = LedgerState {
        created_at: 0,
        epoch_started_at: 0,
        epoch_number: 0,
        ..LedgerState::default()
    };
    reset_epoch_context(&mut ledger);
    let incomplete = change_set(&[("base-fee-per-unit", "0.002MRK")]);
    assert!(apply_governance_parameter_batch(&mut ledger, &incomplete, Some(2)).is_err());

    let changes = change_set(&[
        ("base-fee-per-unit", "0.002MRK"),
        ("fee-min-multiplier-bps", "2500"),
        ("fee-max-multiplier-bps", "100000"),
        ("fee-target-units-per-epoch", "800000"),
        ("fee-max-units-per-block", "12000"),
        ("fee-adjustment-denominator", "8"),
        ("traffic-protocol-fee-bps", "120"),
        ("traffic-treasury-share-bps", "6000"),
    ]);
    assert!(apply_governance_parameter_batch(&mut ledger, &changes, Some(1)).is_err());
    assert_eq!(
        apply_governance_parameter_batch(&mut ledger, &changes, Some(2)).unwrap(),
        2
    );
    assert_eq!(ledger.settings.fee_policy.version, 1);
    assert_eq!(
        ledger.settings.fee_policy.base_fee_per_unit,
        parse_mrk("0.001MRK").unwrap()
    );

    advance_epochs_for_block(&mut ledger, 1_800).unwrap();
    assert_eq!(ledger.settings.fee_policy.version, 1);
    advance_epochs_for_block(&mut ledger, 3_600).unwrap();
    assert_eq!(ledger.settings.fee_policy.version, 2);
    assert_eq!(
        ledger.settings.fee_policy.base_fee_per_unit,
        parse_mrk("0.002MRK").unwrap()
    );
    assert_eq!(ledger.settings.fee_policy.traffic_protocol_fee_bps, 120);
    assert_eq!(ledger.settings.fee_policy.traffic_treasury_share_bps, 6000);
}

#[test]
fn parameter_schedule_rejects_stale_epochs_and_future_constraint_conflicts() {
    let mut ledger = LedgerState {
        epoch_number: 4,
        ..LedgerState::default()
    };
    let epoch_change = change_set(&[("epoch-seconds", "300")]);
    assert!(apply_governance_parameter_batch(&mut ledger, &epoch_change, Some(4)).is_err());
    apply_governance_parameter_batch(&mut ledger, &epoch_change, Some(6)).unwrap();

    let earlier_conflict =
        change_set(&[("availability-slot-seconds", "120")]);
    assert!(apply_governance_parameter_batch(&mut ledger, &earlier_conflict, Some(5)).is_err());
    assert!(!ledger.scheduled_parameter_changes.contains_key(&5));
    assert!(ledger.scheduled_parameter_changes.get(&6).unwrap().same(&epoch_change));
}

#[test]
fn governance_power_uses_only_age_and_dynamic_one_percent_cap() {
    let mut ledger = LedgerState::default();
    let mut node_ids = Vec::new();
    for node_id in 1..=120 {
        let mature = node_id <= 60;
        ledger.nodes.insert(
            node_id,
            NodeRecord {
                node_id,
                previous_node_id: None,
                name: format!("node{node_id}"),
                owner_address: format!("owner{node_id}"),
                owner_public_key: format!("owner-key{node_id}"),
                relay_public_key: format!("relay-key{node_id}"),
                reward_address: format!("reward{node_id}"),
                endpoint: "wss://1.1.1.1/v1/relay".to_owned(),
                reward_ip: format!("9.8.7.{node_id}"),
                ip_slot: format!("v4:9.8.7.{node_id}"),
                price_per_gib: 0,
                status: NodeStatus::Active,
                registered_at: 0,
                warmup_until: 0,
                active_since: Some(0),
                last_heartbeat: Some(0),
                last_probe_success: Some(0),
                probe_success_count: 1,
                last_relay_receipt_at: None,
                eligible_seconds_by_epoch: Table::new(),
                total_eligible_seconds: if mature { 180 * 86_400 } else { 30 * 86_400 },
                service_bond: if node_id == 1 {
                    10_000_000 * MRK_SCALE
                } else {
                    100 * MRK_SCALE
                },
                service_bond_unlock_at: None,
                governance_bond: 0,
                governance_bonded_at: None,
                governance_exit_requested_at: None,
                governance_bond_unlock_at: None,
                offline_slashed_at: None,
                offline_slashed_service_bond: 0,
                offline_slashed_vesting_reward: 0,
                claimable_reward: 0,
                reward_vesting_buckets: Vec::new(),
                validator: node_id == 1,
                validator_signature_rate_bps: 10_000,
                validator_bond: if node_id == 1 {
                    50_000 * MRK_SCALE
                } else {
                    0
                },
                validator_candidate_since: None,
                validator_last_epoch: None,
                validator_consecutive_epochs: 0,
                validator_exit_requested_at: None,
                validator_bond_unlock_at: None,
            },
        );
        node_ids.push(node_id);
    }
    let power = governance_power_snapshot_for_nodes(&ledger, &node_ids).unwrap();
    assert_eq!(
        *power.get(&1).unwrap(), *power.get(&2).unwrap(),
        "MRK and Validator status must not add power"
    );
    assert_eq!(*power.get(&1).unwrap(), 45);
    assert_eq!(*power.get(&61).unwrap(), 30);
    let total = node_ids.iter().map(|id| *power.get(id).unwrap()).sum::<u128>();
    assert!(*power.get(&1).unwrap() * 100 <= total, "one Node must not exceed 1%");
}

#[test]
fn epoch_mints_fixed_budget_and_forms_bond_first() {
    let now = 1_700_000_000;
    let mut ledger = LedgerState {
        epoch_started_at: now,
        ..LedgerState::default()
    };
    ledger.settings.epoch_seconds = 60;
    ledger.epoch_seconds_snapshot = 60;
    ledger.settings.required_service_bond = 10;
    reset_epoch_context(&mut ledger);
    ledger.nodes.insert(
        1,
        NodeRecord {
            node_id: 1,
            previous_node_id: None,
            name: "n1".to_owned(),
            owner_address: "owner".to_owned(),
            owner_public_key: "key".to_owned(),
            relay_public_key: "relay".to_owned(),
            reward_address: "owner".to_owned(),
            endpoint: "wss://1.1.1.1".to_owned(),
            reward_ip: "1.1.1.1".to_owned(),
            ip_slot: "v4:1.1.1.1".to_owned(),
            price_per_gib: 0,
            status: NodeStatus::Active,
            registered_at: now,
            warmup_until: now,
            active_since: Some(now),
            last_heartbeat: Some(now + 60),
            last_probe_success: Some(now),
            probe_success_count: 1,
            last_relay_receipt_at: None,
            eligible_seconds_by_epoch: epoch_seconds(0, 60),
            total_eligible_seconds: 60,
            service_bond: 0,
            service_bond_unlock_at: None,
            governance_bond: 0,
            governance_bonded_at: None,
            governance_exit_requested_at: None,
            governance_bond_unlock_at: None,
            offline_slashed_at: None,
            offline_slashed_service_bond: 0,
            offline_slashed_vesting_reward: 0,
            claimable_reward: 0,
            reward_vesting_buckets: Vec::new(),
            validator: false,
            validator_signature_rate_bps: 0,
            validator_bond: 0,
            validator_candidate_since: None,
            validator_last_epoch: None,
            validator_consecutive_epochs: 0,
            validator_exit_requested_at: None,
            validator_bond_unlock_at: None,
        },
    );
    settle_elapsed_epochs_for_block(&mut ledger, now + 60).unwrap();
    assert_eq!(
        ledger.lifetime_minted,
        GENESIS_TREASURY_ALLOCATION,
        "closed Epoch rewards wait for the finality grace period"
    );
    settle_elapsed_epochs_for_block(&mut ledger, now + 90).unwrap();
    let node = ledger.nodes.get(&1).unwrap();
    let expected = 500 * MRK_SCALE;
    let reward_after_bond = expected - 10;
    let immediate = reward_after_bond * 2_500 / BPS_DENOMINATOR;
    let vesting = reward_after_bond - immediate;
    assert_eq!(node.service_bond, 10);
    assert_eq!(node.claimable_reward, immediate);
    assert_eq!(node_vesting_reward(node).unwrap(), vesting);
    assert_eq!(node.reward_vesting_buckets.len(), 180);
    assert_eq!(
        ledger.lifetime_minted,
        GENESIS_TREASURY_ALLOCATION + expected
    );
    ledger.settings.required_service_bond = 0;
    ledger.settings.epoch_seconds = 120;
    ledger.settings.epoch_mint_amount = 450 * MRK_SCALE;
    ledger.settings.reward_immediate_bps = 2_000;
    ledger.settings.reward_vesting_seconds = 1_000;
    set_eligible_seconds(ledger.nodes.get_mut(&1).unwrap(), 1, 60);
    let node_one_before = ledger.nodes.get(&1).unwrap().claimable_reward;
    let mut node_two = ledger.nodes.get(&1).unwrap().replicate();
    node_two.node_id = 2;
    set_eligible_seconds(&mut node_two, 1, 30);
    node_two.total_eligible_seconds = 30;
    node_two.service_bond = 0;
    node_two.claimable_reward = 0;
    node_two.reward_vesting_buckets.clear();
    ledger.nodes.insert(2, node_two);
    settle_elapsed_epochs_for_block(&mut ledger, now + 120).unwrap();
    settle_elapsed_epochs_for_block(&mut ledger, now + 150).unwrap();
    let second_budget = 500 * MRK_SCALE;
    let node_two_reward = second_budget / 5;
    let node_one_reward = second_budget - node_two_reward;
    assert_eq!(
        ledger.nodes.get(&1).unwrap().claimable_reward - node_one_before,
        node_one_reward * 2_500 / BPS_DENOMINATOR
    );
    assert_eq!(ledger.nodes.get(&2).unwrap().service_bond, 10);
    assert_eq!(
        ledger.nodes.get(&2).unwrap().claimable_reward,
        (node_two_reward - 10) * 2_500 / BPS_DENOMINATOR
    );
    assert_eq!(
        ledger.epoch_mint_amount_snapshot,
        450 * MRK_SCALE,
        "governance changes must become active in the next Epoch"
    );
    assert_eq!(ledger.epoch_seconds_snapshot, 120);
    assert_eq!(ledger.reward_immediate_bps_snapshot, 2_000);
    assert_eq!(ledger.reward_vesting_seconds_snapshot, 1_000);
    let epoch_number = ledger.epoch_number;
    set_eligible_seconds(ledger.nodes.get_mut(&1).unwrap(), epoch_number, 60);
    settle_elapsed_epochs_for_block(&mut ledger, now + 239).unwrap();
    assert_eq!(ledger.epoch_number, epoch_number);
    assert_eq!(eligible_seconds(ledger.nodes.get(&1).unwrap(), epoch_number), 60);
}

#[test]
fn reward_release_parameters_are_critical_and_bounded() {
    let mut settings = LedgerSettings::default();
    assert!(governance_parameter_is_critical("reward-immediate-bps"));
    assert!(governance_parameter_is_critical("reward-vesting-seconds"));
    assert!(governance_parameter_is_critical(
        "service-bond-unlock-seconds"
    ));
    assert!(governance_parameter_is_critical("offline-slash-seconds"));
    assert_eq!(
        set_governance_parameter(&mut settings, "reward-immediate-bps", "3000").unwrap(),
        ("2500".to_owned(), "3000".to_owned())
    );
    assert_eq!(settings.reward_immediate_bps, 3_000);
    assert!(set_governance_parameter(&mut settings, "reward-immediate-bps", "10001").is_err());
    assert_eq!(
        set_governance_parameter(&mut settings, "reward-vesting-seconds", "86400").unwrap(),
        ((180 * 86_400).to_string(), "86400".to_owned())
    );
    assert_eq!(settings.reward_vesting_seconds, 86_400);
    assert!(set_governance_parameter(&mut settings, "reward-vesting-seconds", "0").is_err());
    assert_eq!(
        set_governance_parameter(&mut settings, "service-bond-unlock-seconds", "86400")
            .unwrap(),
        ((30 * 86_400).to_string(), "86400".to_owned())
    );
    assert_eq!(settings.service_bond_unlock_seconds, 86_400);
    assert!(
        set_governance_parameter(
            &mut settings,
            "service-bond-unlock-seconds",
            &(365_i64 * 86_400 + 1).to_string(),
        )
        .is_err()
    );
    assert_eq!(
        set_governance_parameter(&mut settings, "offline-slash-seconds", "86400").unwrap(),
        ((7 * 86_400).to_string(), "86400".to_owned())
    );
    assert_eq!(settings.offline_slash_seconds, 86_400);
    assert!(set_governance_parameter(&mut settings, "offline-slash-seconds", "3599").is_err());
}

#[test]
fn validator_rotation_interval_is_critical_and_bounded() {
    let mut settings = LedgerSettings::default();
    assert!(governance_parameter_is_critical(
        "validator-rotation-interval-epochs"
    ));
    assert_eq!(settings.validator_rotation_interval_epochs, 1);
    assert_eq!(
        set_governance_parameter(&mut settings, "validator-rotation-interval-epochs", "6",)
            .unwrap(),
        ("1".to_owned(), "6".to_owned())
    );
    assert_eq!(settings.validator_rotation_interval_epochs, 6);
    assert!(
        set_governance_parameter(&mut settings, "validator-rotation-interval-epochs", "0",)
            .is_err()
    );
    assert!(
        set_governance_parameter(&mut settings, "validator-rotation-interval-epochs", "10001",)
            .is_err()
    );
}

#[test]
fn governance_bond_parameters_are_critical_and_bounded() {
    let mut settings = LedgerSettings::default();
    for parameter in [
        "governance-bond",
        "governance-bond-maturity-seconds",
        "governance-bond-unlock-seconds",
    ] {
        assert!(governance_parameter_is_critical(parameter));
    }
    assert_eq!(
        set_governance_parameter(&mut settings, "governance-bond", "12000MRK").unwrap(),
        ("10000 MRK".to_owned(), "12000 MRK".to_owned())
    );
    assert_eq!(
        settings.required_governance_bond,
        12_000 * MRK_SCALE
    );
    assert!(set_governance_parameter(&mut settings, "governance-bond", "0MRK").is_err());
    set_governance_parameter(&mut settings, "governance-bond-maturity-seconds", "5184000")
        .unwrap();
    set_governance_parameter(&mut settings, "governance-bond-unlock-seconds", "2592000")
        .unwrap();
    assert_eq!(settings.governance_bond_maturity_seconds, 60 * 86_400);
    assert_eq!(settings.governance_bond_unlock_seconds, 30 * 86_400);
}

#[test]
fn availability_audit_parameters_are_critical_and_cross_checked() {
    let mut settings = LedgerSettings::default();
    for parameter in [
        "availability-audit-rate-bps",
        "availability-auditor-count",
        "availability-audit-quorum",
    ] {
        assert!(governance_parameter_is_critical(parameter));
    }
    assert_eq!(settings.availability_verifier_count, 5);
    assert_eq!(settings.availability_quorum, 3);
    assert_eq!(settings.availability_audit_rate_bps, 500);
    assert_eq!(settings.availability_auditor_count, 3);
    assert_eq!(settings.availability_audit_quorum, 2);
    set_governance_parameter(&mut settings, "availability-audit-rate-bps", "750").unwrap();
    assert_eq!(settings.availability_audit_rate_bps, 750);
    assert!(
        set_governance_parameter(&mut settings, "availability-audit-rate-bps", "10001")
            .is_err()
    );
    assert!(
        set_governance_parameter(&mut settings, "availability-auditor-count", "1").is_err()
    );
    assert!(set_governance_parameter(&mut settings, "availability-audit-quorum", "4").is_err());
    assert!(
        set_governance_parameter(&mut settings, "availability-slot-seconds", "59").is_err()
    );
    assert!(set_governance_parameter(&mut settings, "max-active-validators", "6").is_err());
}

#[test]
fn reward_vesting_buckets_merge_by_quantized_unlock_time() {
    let mut node = NodeRecord {
        node_id: 1,
        previous_node_id: None,
        name: "n1".to_owned(),
        owner_address: "owner".to_owned(),
        owner_public_key: "key".to_owned(),
        relay_public_key: "relay".to_owned(),
        reward_address: "reward".to_owned(),
        endpoint: "wss://1.1.1.1".to_owned(),
        reward_ip: "1.1.1.1".to_owned(),
        ip_slot: "v4:1.1.1.1".to_owned(),
        price_per_gib: 0,
        status: NodeStatus::Active,
        registered_at: 0,
        warmup_until: 0,
        active_since: Some(0),
        last_heartbeat: None,
        last_probe_success: None,
        probe_success_count: 0,
        last_relay_receipt_at: None,
        eligible_seconds_by_epoch: Table::new(),
        total_eligible_seconds: 0,
        service_bond: 0,
        service_bond_unlock_at: None,
        governance_bond: 0,
        governance_bonded_at: None,
        governance_exit_requested_at: None,
        governance_bond_unlock_at: None,
        offline_slashed_at: None,
        offline_slashed_service_bond: 0,
        offline_slashed_vesting_reward: 0,
        claimable_reward: 10,
        reward_vesting_buckets: Vec::new(),
        validator: false,
        validator_signature_rate_bps: 0,
        validator_bond: 0,
        validator_candidate_since: None,
        validator_last_epoch: None,
        validator_consecutive_epochs: 0,
        validator_exit_requested_at: None,
        validator_bond_unlock_at: None,
    };

    let vesting_seconds = 180 * REWARD_VESTING_STEP_SECONDS;
    add_node_reward_vesting(&mut node, 180, 60, vesting_seconds, 0).unwrap();
    add_node_reward_vesting(&mut node, 360, 120, vesting_seconds, 0).unwrap();
    assert_eq!(node.reward_vesting_buckets.len(), 180);
    assert_eq!(node_vesting_reward(&node).unwrap(), 540);
    assert!(
        node.reward_vesting_buckets
            .iter()
            .all(|bucket| bucket.amount == 3)
    );

    let first_unlock = node.reward_vesting_buckets[0].unlock_at;
    settle_node_reward_vesting(&mut node, first_unlock - 1).unwrap();
    assert_eq!(node.claimable_reward, 10);
    settle_node_reward_vesting(&mut node, first_unlock).unwrap();
    assert_eq!(node.claimable_reward, 13);
    assert_eq!(node_vesting_reward(&node).unwrap(), 537);

    let last_unlock = node.reward_vesting_buckets.last().unwrap().unlock_at;
    settle_node_reward_vesting(&mut node, last_unlock).unwrap();
    assert_eq!(node.claimable_reward, 550);
    assert_eq!(node_vesting_reward(&node).unwrap(), 0);
    assert!(node.reward_vesting_buckets.is_empty());
}

#[test]
fn reward_vesting_cumulative_targets_preserve_small_amounts() {
    let mut node = availability_test_node(1);
    node.validator = false;
    add_node_reward_vesting(&mut node, 2, 0, 3 * REWARD_VESTING_STEP_SECONDS, 0).unwrap();
    assert_eq!(node.reward_vesting_buckets.len(), 2);
    assert_eq!(node_vesting_reward(&node).unwrap(), 2);
    assert!(
        node.reward_vesting_buckets
            .iter()
            .all(|bucket| bucket.amount == 1)
    );
}

#[test]
fn short_reward_vesting_uses_a_matching_quantization_unit() {
    let mut node = availability_test_node(1);
    node.validator = false;
    add_node_reward_vesting(&mut node, 10, 100, 1, 0).unwrap();
    assert_eq!(
        node.reward_vesting_buckets,
        vec![RewardVestingBucket {
            unlock_at: 101,
            amount: 10,
        }]
    );
    settle_node_reward_vesting(&mut node, 100).unwrap();
    assert_eq!(node.claimable_reward, 0);
    settle_node_reward_vesting(&mut node, 101).unwrap();
    assert_eq!(node.claimable_reward, 10);
}

#[test]
fn treasury_spending_enforces_single_and_rolling_limits() {
    let now = 1_800_000_000;
    let mut ledger = LedgerState::default();
    let one_percent = ledger.treasury / 100;
    assert!(validate_treasury_spend_amount(&ledger, one_percent, now).is_ok());
    assert!(validate_treasury_spend_amount(&ledger, one_percent + 1, now).is_err());

    ledger.treasury_spends.push(TreasurySpendRecord {
        proposal_id: 1,
        operation_id: "op_recent".to_owned(),
        recipient: "recipient".to_owned(),
        amount: ledger.treasury * 19 / 1_000,
        reference_hash: format!("sha256:{}", "a".repeat(64)),
        executed_at: now - 30 * 86_400,
    });
    assert!(
        validate_treasury_spend_amount(&ledger, ledger.treasury / 500, now).is_err(),
        "recent spend plus new amount must not exceed the rolling 2% limit"
    );

    ledger.treasury_spends.clear();
    ledger.treasury_spends.push(TreasurySpendRecord {
        proposal_id: 2,
        operation_id: "op_annual".to_owned(),
        recipient: "recipient".to_owned(),
        amount: ledger.treasury * 49 / 1_000,
        reference_hash: format!("sha256:{}", "b".repeat(64)),
        executed_at: now - 180 * 86_400,
    });
    assert!(
        validate_treasury_spend_amount(&ledger, ledger.treasury / 500, now).is_err(),
        "annual spend plus new amount must not exceed the rolling 5% limit"
    );
}

#[test]
fn slots_divide_the_epoch() {
    let checked = |epoch: i64, slot: i64| {
        let mut settings = LedgerState::default().settings;
        settings.epoch_seconds = epoch;
        settings.availability_slot_seconds = slot;
        settings.probe_validity_seconds = 3_600;
        validate_governance_settings(&settings).is_ok()
    };
    assert!(checked(300, 60));
    assert!(!checked(310, 60));
    assert!(!checked(60, 300));
    assert!(!checked(300, 0));
    assert!(checked(300, -60));
    assert!(checked(-60, -60));
    assert!(!checked(-60, -120));
    assert!(!checked(310, -60));
    assert!(!checked(-120, -60));
}
