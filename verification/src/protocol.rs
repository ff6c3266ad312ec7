use vstd::prelude::*;

use crate::model::{
    AccountModel, AccountState, AvailabilityMode, ConsensusModel, ConsensusState, DirectionModel,
    FeePolicy, GovernanceModel, GovernanceState, LedgerModel, LedgerSettings, LedgerState,
    NetworkSpendingPolicy, Payload, TrafficDirectionSettlement,
};
use crate::table::Table;

verus! {

/// Base units in one MRK.
pub const MRK_SCALE: u128 = 1_000_000_000;

/// All the base units there will ever be.
pub const MAX_SUPPLY: u128 = 1_000_000_000 * MRK_SCALE;

/// What the treasury holds when a ledger begins.
pub const GENESIS_TREASURY_ALLOCATION: u128 = 100_000_000 * MRK_SCALE;

pub const PROTOCOL_VERSION: u32 = 1;

pub const MULTI_VALIDATOR_BLOCK_VERSION: u32 = 2;

/// How many states a node retains for others to start from.
pub const BOOTSTRAP_CHECKPOINT_RETENTION: usize = 8;

/// The protocol by which validators talk to each other.
pub const CONSENSUS_PROTOCOL: &'static str = "mrk-consensus-v1";

/// What the first block refers to as its predecessor.
pub const GENESIS_PREVIOUS_BLOCK_HASH: &'static str = "GENESIS";

pub const SECONDS_PER_DAY: i64 = 86_400;

/// For how long a signed operation may be submitted.
pub const DEFAULT_OPERATION_VALIDITY_SECONDS: i64 = 300;

/// For how long after its end an epoch takes attestations.
pub const AVAILABILITY_FINALITY_GRACE_SECONDS: i64 = 30;

pub const REWARD_VESTING_STEP_SECONDS: i64 = 86_400;

pub const REWARD_VESTING_QUANTIZATION_SECONDS: i64 = 3_600;

pub const DEFAULT_RELAY_PRICE_PER_GIB: u128 = 20_000_000;

/// For how long after its end a session's traffic may be claimed.
pub const RELAY_PAYMENT_CLAIM_SECONDS: i64 = 86_400;

pub const GOVERNANCE_NODE_THRESHOLD: usize = 20;

pub const CRITICAL_GOVERNANCE_NODE_THRESHOLD: usize = 50;

pub const NODE1_DIRECT_GOVERNANCE_END_THRESHOLD: usize = 50;

pub const MULTI_VALIDATOR_NODE_THRESHOLD: usize = 20;

pub const MIN_ACTIVE_VALIDATORS: usize = 4;

pub const MIN_DECENTRALIZED_AVAILABILITY_VALIDATORS: usize = 7;

pub const MIN_AUDITED_AVAILABILITY_VALIDATORS: usize = 9;

pub const MAX_BLOCK_OPERATIONS: usize = 10_000;

pub const BPS_DENOMINATOR: u128 = 10_000;

pub const NODE1_SINGLE_PRODUCER_WEIGHT_BPS: u32 = 20_000;

pub const VALIDATOR_BOND_UNLOCK_SECONDS: i64 = 30 * SECONDS_PER_DAY;

pub const GOVERNANCE_PROPOSAL_BOND: u128 = 1_000 * MRK_SCALE;

pub const STANDARD_VOTING_SECONDS: i64 = 7 * SECONDS_PER_DAY;

pub const STANDARD_TIMELOCK_SECONDS: i64 = 7 * SECONDS_PER_DAY;

pub const CRITICAL_VOTING_SECONDS: i64 = 14 * SECONDS_PER_DAY;

pub const CRITICAL_TIMELOCK_SECONDS: i64 = 30 * SECONDS_PER_DAY;

pub const TREASURY_SINGLE_SPEND_BPS: u128 = 100;

pub const TREASURY_NINETY_DAY_SPEND_BPS: u128 = 200;

pub const TREASURY_ANNUAL_SPEND_BPS: u128 = 500;

pub const TREASURY_MATURE_SERVICE_SECONDS: u64 = 180 * 86_400;

pub const MIN_BASE_FEE_PER_UNIT: u128 = MRK_SCALE / 10_000;

pub const MAX_BASE_FEE_PER_UNIT: u128 = MRK_SCALE / 10;

/// The fee parameters of a new ledger.
pub open spec fn initial_fee_policy() -> FeePolicy {
    FeePolicy {
        version: 1,
        base_fee_per_unit: (MRK_SCALE / 1_000) as u128,
        min_multiplier_bps: 2_500,
        max_multiplier_bps: 100_000,
        target_units_per_epoch: 800_000,
        max_units_per_block: 12_000,
        adjustment_denominator: 8,
        traffic_protocol_fee_bps: 100,
        traffic_treasury_share_bps: 5_000,
    }
}

/// The parameters of a new ledger.
pub open spec fn initial_settings() -> LedgerSettings {
    LedgerSettings {
        epoch_seconds: 1_800,
        epoch_mint_amount: (500 * MRK_SCALE) as u128,
        reward_immediate_bps: 2_500,
        reward_vesting_seconds: (180 * SECONDS_PER_DAY) as i64,
        validator_weight_bps: 12_500,
        validator_signature_threshold_bps: 9_000,
        required_service_bond: (100 * MRK_SCALE) as u128,
        service_bond_unlock_seconds: (30 * SECONDS_PER_DAY) as i64,
        offline_slash_seconds: (7 * SECONDS_PER_DAY) as i64,
        warmup_seconds: SECONDS_PER_DAY,
        heartbeat_grace_seconds: 120,
        ip_reuse_cooldown_seconds: 0,
        probe_validity_seconds: 300,
        availability_slot_seconds: 60,
        availability_verifier_count: 5,
        availability_quorum: 3,
        availability_audit_rate_bps: 500,
        availability_auditor_count: 3,
        availability_audit_quorum: 2,
        governance_min_service_seconds: (30 * 86_400) as u64,
        required_governance_bond: (10_000 * MRK_SCALE) as u128,
        governance_bond_maturity_seconds: (30 * SECONDS_PER_DAY) as i64,
        governance_bond_unlock_seconds: (30 * SECONDS_PER_DAY) as i64,
        block_interval_seconds: 5,
        validator_bond: (50_000 * MRK_SCALE) as u128,
        max_active_validators: 21,
        max_validator_rotations: 5,
        validator_rotation_interval_epochs: 1,
        consensus_round_timeout_seconds: 10,
        fee_policy: initial_fee_policy(),
    }
}

impl Default for FeePolicy {
    fn default() -> (r: FeePolicy)
        ensures
            r == initial_fee_policy(),
    {
        FeePolicy {
            version: 1,
            base_fee_per_unit: MRK_SCALE / 1_000,
            min_multiplier_bps: 2_500,
            max_multiplier_bps: 100_000,
            target_units_per_epoch: 800_000,
            max_units_per_block: 12_000,
            adjustment_denominator: 8,
            traffic_protocol_fee_bps: 100,
            traffic_treasury_share_bps: 5_000,
        }
    }
}

impl Default for LedgerSettings {
    fn default() -> (r: LedgerSettings)
        ensures
            r == initial_settings(),
    {
        LedgerSettings {
            epoch_seconds: 1_800,
            epoch_mint_amount: 500 * MRK_SCALE,
            reward_immediate_bps: 2_500,
            reward_vesting_seconds: 180 * SECONDS_PER_DAY,
            validator_weight_bps: 12_500,
            validator_signature_threshold_bps: 9_000,
            required_service_bond: 100 * MRK_SCALE,
            service_bond_unlock_seconds: 30 * SECONDS_PER_DAY,
            offline_slash_seconds: 7 * SECONDS_PER_DAY,
            warmup_seconds: SECONDS_PER_DAY,
            heartbeat_grace_seconds: 120,
            ip_reuse_cooldown_seconds: 0,
            probe_validity_seconds: 300,
            availability_slot_seconds: 60,
            availability_verifier_count: 5,
            availability_quorum: 3,
            availability_audit_rate_bps: 500,
            availability_auditor_count: 3,
            availability_audit_quorum: 2,
            governance_min_service_seconds: 30 * 86_400,
            required_governance_bond: 10_000 * MRK_SCALE,
            governance_bond_maturity_seconds: 30 * SECONDS_PER_DAY,
            governance_bond_unlock_seconds: 30 * SECONDS_PER_DAY,
            block_interval_seconds: 5,
            validator_bond: 50_000 * MRK_SCALE,
            max_active_validators: 21,
            max_validator_rotations: 5,
            validator_rotation_interval_epochs: 1,
            consensus_round_timeout_seconds: 10,
            fee_policy: FeePolicy::default(),
        }
    }
}

/// An address that nothing has been sent to yet.
pub open spec fn initial_account() -> AccountModel {
    AccountModel { balance: 0, nonce: 0, public_key: None, operation_ids: Seq::empty() }
}

impl Default for AccountState {
    fn default() -> (r: AccountState)
        ensures
            r.deep_view() == initial_account(),
    {
        let r = AccountState { balance: 0, nonce: 0, public_key: None, operation_ids: Vec::new() };
        assert(r.operation_ids.deep_view() =~= Seq::<Seq<char>>::empty());
        r
    }
}

/// A direction of a session in which nothing has been settled.
pub open spec fn initial_direction() -> DirectionModel {
    DirectionModel {
        settled_sequence: 0,
        settled_payload_bytes: 0,
        settled_amount: 0,
        settled_transcript_hash: None,
        last_receipt_hash: None,
        last_receipt_at: None,
        finalized: false,
    }
}

impl Default for TrafficDirectionSettlement {
    fn default() -> (r: TrafficDirectionSettlement)
        ensures
            r.deep_view() == initial_direction(),
    {
        TrafficDirectionSettlement {
            settled_sequence: 0,
            settled_payload_bytes: 0,
            settled_amount: 0,
            settled_transcript_hash: None,
            last_receipt_hash: None,
            last_receipt_at: None,
            finalized: false,
        }
    }
}

/// The spending policy of a network whose owner has not set one.
pub open spec fn initial_spending_policy() -> NetworkSpendingPolicy {
    NetworkSpendingPolicy {
        revision: 0,
        enabled: false,
        max_session_amount: 0,
        max_member_reserved: 0,
        max_node_price_per_gib: 0,
        max_session_minutes: 0,
    }
}

impl Default for NetworkSpendingPolicy {
    fn default() -> (r: NetworkSpendingPolicy)
        ensures
            r == initial_spending_policy(),
    {
        NetworkSpendingPolicy {
            revision: 0,
            enabled: false,
            max_session_amount: 0,
            max_member_reserved: 0,
            max_node_price_per_gib: 0,
            max_session_minutes: 0,
        }
    }
}

impl Default for Payload {
    fn default() -> (r: Payload)
        ensures
            r.deep_view() == Map::<Seq<char>, crate::model::FieldModel>::empty(),
    {
        Payload { fields: Table::new() }
    }
}

/// A committee that has not been selected yet.
pub open spec fn initial_consensus() -> ConsensusModel {
    ConsensusModel {
        active_validators: Seq::empty(),
        last_selection_epoch: None,
        height: 0,
        round: 0,
        round_started_at: None,
        proposal: None,
        valid_proposal: None,
        valid_round: None,
        prevotes: Map::empty(),
        precommits: Map::empty(),
        locks: Map::empty(),
        double_sign_evidence: Seq::empty(),
    }
}

impl Default for ConsensusState {
    fn default() -> (r: ConsensusState)
        ensures
            r.deep_view() == initial_consensus(),
    {
        let r = ConsensusState {
            active_validators: Vec::new(),
            last_selection_epoch: None,
            height: 0,
            round: 0,
            round_started_at: None,
            proposal: None,
            valid_proposal: None,
            valid_round: None,
            prevotes: Table::new(),
            precommits: Table::new(),
            locks: Table::new(),
            double_sign_evidence: Vec::new(),
        };
        assert(r.double_sign_evidence.deep_view() =~= Seq::empty());
        r
    }
}

/// Governance before the first proposal.
pub open spec fn initial_governance() -> GovernanceModel {
    GovernanceModel {
        proposals: Map::empty(),
        next_proposal_id: 1,
        emission_paused: false,
        pause_reason: None,
        last_action_at: None,
        actions: Seq::empty(),
    }
}

impl Default for GovernanceState {
    fn default() -> (r: GovernanceState)
        ensures
            r.deep_view() == initial_governance(),
    {
        let r = GovernanceState {
            proposals: Table::new(),
            next_proposal_id: 1,
            emission_paused: false,
            pause_reason: None,
            last_action_at: None,
            actions: Vec::new(),
        };
        assert(r.actions.deep_view() =~= Seq::empty());
        r
    }
}

/// A ledger before the first node has been registered.
pub open spec fn initial_ledger() -> LedgerModel {
    LedgerModel {
        version: PROTOCOL_VERSION,
        ledger_id: "mrk"@,
        created_at: 0,
        settings: initial_settings(),
        accounts: Map::empty(),
        networks: Map::empty(),
        network_aliases: Map::empty(),
        nodes: Map::empty(),
        next_node_id: 1,
        operations: Map::empty(),
        blocks: Seq::empty(),
        pending_operation_ids: Seq::empty(),
        payment_authorizations: Map::empty(),
        ip_slots: Map::empty(),
        availability_slots: Map::empty(),
        epoch_contexts: Map::empty(),
        epoch_number: 0,
        epoch_started_at: 0,
        epoch_seconds_snapshot: initial_settings().epoch_seconds,
        epoch_mint_amount_snapshot: initial_settings().epoch_mint_amount,
        reward_immediate_bps_snapshot: initial_settings().reward_immediate_bps,
        reward_vesting_seconds_snapshot: initial_settings().reward_vesting_seconds,
        availability_mode: AvailabilityMode::Node1Trusted,
        availability_activated_at: None,
        availability_activated_epoch: None,
        consensus: initial_consensus(),
        governance: initial_governance(),
        scheduled_parameter_changes: Map::empty(),
        genesis_authority: None,
        treasury: GENESIS_TREASURY_ALLOCATION,
        burned: 0,
        pool_remaining: (MAX_SUPPLY - GENESIS_TREASURY_ALLOCATION) as u128,
        lifetime_minted: GENESIS_TREASURY_ALLOCATION,
        genesis_treasury_minted: GENESIS_TREASURY_ALLOCATION,
        treasury_spends: Seq::empty(),
        total_settled_traffic_bytes: 0,
        fee_multiplier_bps: 10_000,
        fee_units_used_in_epoch: 0,
        pruned_through_height: 0,
        pruned_tip_hash: None,
        pruned_tip_timestamp: None,
        pruned_operation_count: 0,
        operation_history_from_height: 1,
        proposal_post_state: None,
        valid_post_state: None,
        finalized_checkpoint: None,
    }
}

impl Default for LedgerState {
    fn default() -> (r: LedgerState)
        ensures
            r@ == initial_ledger(),
    {
        let settings = LedgerSettings::default();
        let r = LedgerState {
            version: PROTOCOL_VERSION,
            ledger_id: "mrk".to_owned(),
            created_at: 0,
            settings,
            accounts: Table::new(),
            networks: Table::new(),
            network_aliases: Table::new(),
            nodes: Table::new(),
            next_node_id: 1,
            operations: Table::new(),
            blocks: Vec::new(),
            pending_operation_ids: Vec::new(),
            payment_authorizations: Table::new(),
            ip_slots: Table::new(),
            availability_slots: Table::new(),
            epoch_contexts: Table::new(),
            epoch_number: 0,
            epoch_started_at: 0,
            epoch_seconds_snapshot: settings.epoch_seconds,
            epoch_mint_amount_snapshot: settings.epoch_mint_amount,
            reward_immediate_bps_snapshot: settings.reward_immediate_bps,
            reward_vesting_seconds_snapshot: settings.reward_vesting_seconds,
            availability_mode: AvailabilityMode::Node1Trusted,
            availability_activated_at: None,
            availability_activated_epoch: None,
            consensus: ConsensusState::default(),
            governance: GovernanceState::default(),
            scheduled_parameter_changes: Table::new(),
            genesis_authority: None,
            treasury: GENESIS_TREASURY_ALLOCATION,
            burned: 0,
            pool_remaining: MAX_SUPPLY - GENESIS_TREASURY_ALLOCATION,
            lifetime_minted: GENESIS_TREASURY_ALLOCATION,
            genesis_treasury_minted: GENESIS_TREASURY_ALLOCATION,
            treasury_spends: Vec::new(),
            total_settled_traffic_bytes: 0,
            fee_multiplier_bps: 10_000,
            fee_units_used_in_epoch: 0,
            pruned_through_height: 0,
            pruned_tip_hash: None,
            pruned_tip_timestamp: None,
            pruned_operation_count: 0,
            operation_history_from_height: 1,
            proposal_post_state: None,
            valid_post_state: None,
            finalized_checkpoint: None,
        };
        assert(r.blocks.deep_view() =~= Seq::empty());
        assert(r.pending_operation_ids.deep_view() =~= Seq::empty());
        assert(r.treasury_spends.deep_view() =~= Seq::empty());
        r
    }
}

} // verus!
