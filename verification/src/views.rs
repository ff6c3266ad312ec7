use vstd::prelude::*;

use crate::model::{
    AuthorizationModel, AvailabilityMode, AvailabilityVerifierRole, BlockConsensusMode, BlockModel,
    BlockRecord, FieldModel, GovernanceProposalStatus, LedgerModel, LedgerSettings, LedgerState,
    NodeModel, NodeRecord, NodeStatus, OperationModel, OperationRecord, OperationStatus, Payload,
    PaymentAuthorizationRecord, ProbeModel, ProbePayload, RelaySessionModel, UnsettledRelaySession,
};
use crate::table::Table;

verus! {

/// Whether a node of the registry can be reached.
#[derive(Clone, Copy, Debug, PartialEq, Eq, Structural)]
pub enum RegistryNodeAvailability {
    Online,
    ProbeStale,
    Unverified,
    IpSlotUnavailable,
    ExitPending,
}

/// The balance of an address, as it is shown.
#[derive(Debug)]
pub struct BalanceView {
    pub address: String,
    pub balance: u128,
    pub balance_display: String,
    pub nonce: u64,
}

/// The contents of `BalanceView`.
#[verifier::ext_equal]
pub struct BalanceViewModel {
    pub address: Seq<char>,
    pub balance: u128,
    pub balance_display: Seq<char>,
    pub nonce: u64,
}

impl DeepView for BalanceView {
    type V = BalanceViewModel;

    open spec fn deep_view(&self) -> BalanceViewModel {
        BalanceViewModel {
            address: self.address@,
            balance: self.balance,
            balance_display: self.balance_display@,
            nonce: self.nonce,
        }
    }
}

/// What an operation would cost.
#[derive(Debug)]
pub struct FeeQuoteView {
    pub policy_version: u64,
    pub multiplier_bps: u32,
    pub units: u64,
    pub fee: u128,
    pub fee_display: String,
    pub recommended_max_fee: u128,
    pub recommended_max_fee_display: String,
}

/// The contents of `FeeQuoteView`.
#[verifier::ext_equal]
pub struct FeeQuoteViewModel {
    pub policy_version: u64,
    pub multiplier_bps: u32,
    pub units: u64,
    pub fee: u128,
    pub fee_display: Seq<char>,
    pub recommended_max_fee: u128,
    pub recommended_max_fee_display: Seq<char>,
}

impl DeepView for FeeQuoteView {
    type V = FeeQuoteViewModel;

    open spec fn deep_view(&self) -> FeeQuoteViewModel {
        FeeQuoteViewModel {
            policy_version: self.policy_version,
            multiplier_bps: self.multiplier_bps,
            units: self.units,
            fee: self.fee,
            fee_display: self.fee_display@,
            recommended_max_fee: self.recommended_max_fee,
            recommended_max_fee_display: self.recommended_max_fee_display@,
        }
    }
}

/// One line of the ranking of accounts.
#[derive(Debug)]
pub struct AccountRankingEntryView {
    pub rank: u64,
    pub address: String,
    pub balance_base_units: String,
    pub balance_display: String,
    pub balance_share_bps: u32,
}

/// The contents of `AccountRankingEntryView`.
#[verifier::ext_equal]
pub struct AccountRankingEntryViewModel {
    pub rank: u64,
    pub address: Seq<char>,
    pub balance_base_units: Seq<char>,
    pub balance_display: Seq<char>,
    pub balance_share_bps: u32,
}

impl DeepView for AccountRankingEntryView {
    type V = AccountRankingEntryViewModel;

    open spec fn deep_view(&self) -> AccountRankingEntryViewModel {
        AccountRankingEntryViewModel {
            rank: self.rank,
            address: self.address@,
            balance_base_units: self.balance_base_units@,
            balance_display: self.balance_display@,
            balance_share_bps: self.balance_share_bps,
        }
    }
}

/// A page of the ranking of accounts.
#[derive(Debug)]
pub struct AccountRankingListView {
    pub accounts: Vec<AccountRankingEntryView>,
    pub funded_account_count: usize,
    pub total_account_balance_base_units: String,
    pub total_account_balance_display: String,
    pub snapshot_epoch: u64,
    pub snapshot_height: u64,
    pub next_cursor: Option<String>,
}

/// The contents of `AccountRankingListView`.
#[verifier::ext_equal]
pub struct AccountRankingListViewModel {
    pub accounts: Seq<AccountRankingEntryViewModel>,
    pub funded_account_count: usize,
    pub total_account_balance_base_units: Seq<char>,
    pub total_account_balance_display: Seq<char>,
    pub snapshot_epoch: u64,
    pub snapshot_height: u64,
    pub next_cursor: Option<Seq<char>>,
}

impl DeepView for AccountRankingListView {
    type V = AccountRankingListViewModel;

    open spec fn deep_view(&self) -> AccountRankingListViewModel {
        AccountRankingListViewModel {
            accounts: self.accounts.deep_view(),
            funded_account_count: self.funded_account_count,
            total_account_balance_base_units: self.total_account_balance_base_units@,
            total_account_balance_display: self.total_account_balance_display@,
            snapshot_epoch: self.snapshot_epoch,
            snapshot_height: self.snapshot_height,
            next_cursor: self.next_cursor.deep_view(),
        }
    }
}

/// A transfer before it is signed.
#[derive(Debug)]
pub struct TransferPreview {
    pub ledger_id: String,
    pub from: String,
    pub to: String,
    pub amount: u128,
    pub fee: u128,
    pub total: u128,
    pub nonce: u64,
    pub valid_until: i64,
}

/// The contents of `TransferPreview`.
#[verifier::ext_equal]
pub struct TransferPreviewModel {
    pub ledger_id: Seq<char>,
    pub from: Seq<char>,
    pub to: Seq<char>,
    pub amount: u128,
    pub fee: u128,
    pub total: u128,
    pub nonce: u64,
    pub valid_until: i64,
}

impl DeepView for TransferPreview {
    type V = TransferPreviewModel;

    open spec fn deep_view(&self) -> TransferPreviewModel {
        TransferPreviewModel {
            ledger_id: self.ledger_id@,
            from: self.from@,
            to: self.to@,
            amount: self.amount,
            fee: self.fee,
            total: self.total,
            nonce: self.nonce,
            valid_until: self.valid_until,
        }
    }
}

/// What the sender of a transfer gets back.
#[derive(Debug)]
pub struct TransferReceipt {
    pub operation_id: String,
    pub status: OperationStatus,
    pub from: String,
    pub to: String,
    pub amount: u128,
    pub fee: u128,
    pub submitted_at: i64,
}

/// The contents of `TransferReceipt`.
#[verifier::ext_equal]
pub struct TransferReceiptModel {
    pub operation_id: Seq<char>,
    pub status: OperationStatus,
    pub from: Seq<char>,
    pub to: Seq<char>,
    pub amount: u128,
    pub fee: u128,
    pub submitted_at: i64,
}

impl DeepView for TransferReceipt {
    type V = TransferReceiptModel;

    open spec fn deep_view(&self) -> TransferReceiptModel {
        TransferReceiptModel {
            operation_id: self.operation_id@,
            status: self.status,
            from: self.from@,
            to: self.to@,
            amount: self.amount,
            fee: self.fee,
            submitted_at: self.submitted_at,
        }
    }
}

/// What a node has earned.
#[derive(Debug)]
pub struct NodeRewardsView {
    pub node_id: u64,
    pub status: NodeStatus,
    pub epoch_eligible_seconds: u64,
    pub total_eligible_seconds: u64,
    pub service_bond: u128,
    pub service_bond_display: String,
    pub service_bond_unlock_at: Option<i64>,
    pub offline_slashed_at: Option<i64>,
    pub offline_slashed_service_bond: u128,
    pub offline_slashed_service_bond_display: String,
    pub offline_slashed_vesting_reward: u128,
    pub offline_slashed_vesting_reward_display: String,
    pub claimable_reward: u128,
    pub claimable_reward_display: String,
    pub vesting_reward: u128,
    pub vesting_reward_display: String,
    pub vesting_bucket_count: usize,
}

/// The contents of `NodeRewardsView`.
#[verifier::ext_equal]
pub struct NodeRewardsViewModel {
    pub node_id: u64,
    pub status: NodeStatus,
    pub epoch_eligible_seconds: u64,
    pub total_eligible_seconds: u64,
    pub service_bond: u128,
    pub service_bond_display: Seq<char>,
    pub service_bond_unlock_at: Option<i64>,
    pub offline_slashed_at: Option<i64>,
    pub offline_slashed_service_bond: u128,
    pub offline_slashed_service_bond_display: Seq<char>,
    pub offline_slashed_vesting_reward: u128,
    pub offline_slashed_vesting_reward_display: Seq<char>,
    pub claimable_reward: u128,
    pub claimable_reward_display: Seq<char>,
    pub vesting_reward: u128,
    pub vesting_reward_display: Seq<char>,
    pub vesting_bucket_count: usize,
}

impl DeepView for NodeRewardsView {
    type V = NodeRewardsViewModel;

    open spec fn deep_view(&self) -> NodeRewardsViewModel {
        NodeRewardsViewModel {
            node_id: self.node_id,
            status: self.status,
            epoch_eligible_seconds: self.epoch_eligible_seconds,
            total_eligible_seconds: self.total_eligible_seconds,
            service_bond: self.service_bond,
            service_bond_display: self.service_bond_display@,
            service_bond_unlock_at: self.service_bond_unlock_at,
            offline_slashed_at: self.offline_slashed_at,
            offline_slashed_service_bond: self.offline_slashed_service_bond,
            offline_slashed_service_bond_display: self.offline_slashed_service_bond_display@,
            offline_slashed_vesting_reward: self.offline_slashed_vesting_reward,
            offline_slashed_vesting_reward_display: self.offline_slashed_vesting_reward_display@,
            claimable_reward: self.claimable_reward,
            claimable_reward_display: self.claimable_reward_display@,
            vesting_reward: self.vesting_reward,
            vesting_reward_display: self.vesting_reward_display@,
            vesting_bucket_count: self.vesting_bucket_count,
        }
    }
}

/// A node of the registry, as it is shown.
#[derive(Debug)]
pub struct RegistryNodeView {
    pub node_id: u64,
    pub previous_node_id: Option<u64>,
    pub name: String,
    pub owner_address: String,
    pub owner_public_key: String,
    pub relay_public_key: String,
    pub reward_address: String,
    pub endpoint: String,
    pub reward_ip: String,
    pub price_per_gib_base_units: String,
    pub price_per_gib_display: String,
    pub status: NodeStatus,
    pub registered_at: i64,
    pub warmup_until: i64,
    pub active_since: Option<i64>,
    pub last_probe_success: Option<i64>,
    pub probe_success_count: u64,
    pub availability: Option<RegistryNodeAvailability>,
    pub probe_valid_until: Option<i64>,
    pub offline_exit_at: Option<i64>,
    pub owns_ip_slot: bool,
    pub ip_slot_reusable_at: Option<i64>,
    pub service_bond_base_units: String,
    pub service_bond_display: String,
    pub service_bond_unlock_at: Option<i64>,
    pub governance_bond_base_units: String,
    pub governance_bond_display: String,
    pub governance_bonded_at: Option<i64>,
    pub governance_exit_requested_at: Option<i64>,
    pub governance_bond_unlock_at: Option<i64>,
    pub offline_slashed_at: Option<i64>,
    pub validator: bool,
    pub validator_candidate: bool,
}

/// The contents of `RegistryNodeView`.
#[verifier::ext_equal]
pub struct RegistryNodeViewModel {
    pub node_id: u64,
    pub previous_node_id: Option<u64>,
    pub name: Seq<char>,
    pub owner_address: Seq<char>,
    pub owner_public_key: Seq<char>,
    pub relay_public_key: Seq<char>,
    pub reward_address: Seq<char>,
    pub endpoint: Seq<char>,
    pub reward_ip: Seq<char>,
    pub price_per_gib_base_units: Seq<char>,
    pub price_per_gib_display: Seq<char>,
    pub status: NodeStatus,
    pub registered_at: i64,
    pub warmup_until: i64,
    pub active_since: Option<i64>,
    pub last_probe_success: Option<i64>,
    pub probe_success_count: u64,
    pub availability: Option<RegistryNodeAvailability>,
    pub probe_valid_until: Option<i64>,
    pub offline_exit_at: Option<i64>,
    pub owns_ip_slot: bool,
    pub ip_slot_reusable_at: Option<i64>,
    pub service_bond_base_units: Seq<char>,
    pub service_bond_display: Seq<char>,
    pub service_bond_unlock_at: Option<i64>,
    pub governance_bond_base_units: Seq<char>,
    pub governance_bond_display: Seq<char>,
    pub governance_bonded_at: Option<i64>,
    pub governance_exit_requested_at: Option<i64>,
    pub governance_bond_unlock_at: Option<i64>,
    pub offline_slashed_at: Option<i64>,
    pub validator: bool,
    pub validator_candidate: bool,
}

impl DeepView for RegistryNodeView {
    type V = RegistryNodeViewModel;

    open spec fn deep_view(&self) -> RegistryNodeViewModel {
        RegistryNodeViewModel {
            node_id: self.node_id,
            previous_node_id: self.previous_node_id,
            name: self.name@,
            owner_address: self.owner_address@,
            owner_public_key: self.owner_public_key@,
            relay_public_key: self.relay_public_key@,
            reward_address: self.reward_address@,
            endpoint: self.endpoint@,
            reward_ip: self.reward_ip@,
            price_per_gib_base_units: self.price_per_gib_base_units@,
            price_per_gib_display: self.price_per_gib_display@,
            status: self.status,
            registered_at: self.registered_at,
            warmup_until: self.warmup_until,
            active_since: self.active_since,
            last_probe_success: self.last_probe_success,
            probe_success_count: self.probe_success_count,
            availability: self.availability,
            probe_valid_until: self.probe_valid_until,
            offline_exit_at: self.offline_exit_at,
            owns_ip_slot: self.owns_ip_slot,
            ip_slot_reusable_at: self.ip_slot_reusable_at,
            service_bond_base_units: self.service_bond_base_units@,
            service_bond_display: self.service_bond_display@,
            service_bond_unlock_at: self.service_bond_unlock_at,
            governance_bond_base_units: self.governance_bond_base_units@,
            governance_bond_display: self.governance_bond_display@,
            governance_bonded_at: self.governance_bonded_at,
            governance_exit_requested_at: self.governance_exit_requested_at,
            governance_bond_unlock_at: self.governance_bond_unlock_at,
            offline_slashed_at: self.offline_slashed_at,
            validator: self.validator,
            validator_candidate: self.validator_candidate,
        }
    }
}

/// A page of the registry.
#[derive(Debug)]
pub struct RegistryNodeListView {
    pub nodes: Vec<RegistryNodeView>,
    pub next_cursor: Option<u64>,
}

/// The contents of `RegistryNodeListView`.
#[verifier::ext_equal]
pub struct RegistryNodeListViewModel {
    pub nodes: Seq<RegistryNodeViewModel>,
    pub next_cursor: Option<u64>,
}

impl DeepView for RegistryNodeListView {
    type V = RegistryNodeListViewModel;

    open spec fn deep_view(&self) -> RegistryNodeListViewModel {
        RegistryNodeListViewModel {
            nodes: self.nodes.deep_view(),
            next_cursor: self.next_cursor,
        }
    }
}

/// A relay that clients may use.
#[derive(Debug)]
pub struct RelayDiscoveryView {
    pub node_id: u64,
    pub endpoint: String,
    pub reward_ip: String,
    pub price_per_gib_base_units: String,
    pub price_per_gib_display: String,
    pub last_probe_success: i64,
    pub probe_valid_until: i64,
    pub validator: bool,
}

/// The contents of `RelayDiscoveryView`.
#[verifier::ext_equal]
pub struct RelayDiscoveryViewModel {
    pub node_id: u64,
    pub endpoint: Seq<char>,
    pub reward_ip: Seq<char>,
    pub price_per_gib_base_units: Seq<char>,
    pub price_per_gib_display: Seq<char>,
    pub last_probe_success: i64,
    pub probe_valid_until: i64,
    pub validator: bool,
}

impl DeepView for RelayDiscoveryView {
    type V = RelayDiscoveryViewModel;

    open spec fn deep_view(&self) -> RelayDiscoveryViewModel {
        RelayDiscoveryViewModel {
            node_id: self.node_id,
            endpoint: self.endpoint@,
            reward_ip: self.reward_ip@,
            price_per_gib_base_units: self.price_per_gib_base_units@,
            price_per_gib_display: self.price_per_gib_display@,
            last_probe_success: self.last_probe_success,
            probe_valid_until: self.probe_valid_until,
            validator: self.validator,
        }
    }
}

/// A page of relays.
#[derive(Debug)]
pub struct RelayDiscoveryListView {
    pub relays: Vec<RelayDiscoveryView>,
    pub next_cursor: Option<u64>,
}

/// The contents of `RelayDiscoveryListView`.
#[verifier::ext_equal]
pub struct RelayDiscoveryListViewModel {
    pub relays: Seq<RelayDiscoveryViewModel>,
    pub next_cursor: Option<u64>,
}

impl DeepView for RelayDiscoveryListView {
    type V = RelayDiscoveryListViewModel;

    open spec fn deep_view(&self) -> RelayDiscoveryListViewModel {
        RelayDiscoveryListViewModel {
            relays: self.relays.deep_view(),
            next_cursor: self.next_cursor,
        }
    }
}

/// Whether a member is connected.
#[derive(Debug)]
pub struct MemberPresenceView {
    pub name: String,
    pub member_id: String,
    pub serial: u64,
    pub issued_at: i64,
    pub expires_at: i64,
    pub revoked_at: Option<i64>,
    pub online: bool,
    pub connection_count: usize,
}

/// The contents of `MemberPresenceView`.
#[verifier::ext_equal]
pub struct MemberPresenceViewModel {
    pub name: Seq<char>,
    pub member_id: Seq<char>,
    pub serial: u64,
    pub issued_at: i64,
    pub expires_at: i64,
    pub revoked_at: Option<i64>,
    pub online: bool,
    pub connection_count: usize,
}

impl DeepView for MemberPresenceView {
    type V = MemberPresenceViewModel;

    open spec fn deep_view(&self) -> MemberPresenceViewModel {
        MemberPresenceViewModel {
            name: self.name@,
            member_id: self.member_id@,
            serial: self.serial,
            issued_at: self.issued_at,
            expires_at: self.expires_at,
            revoked_at: self.revoked_at,
            online: self.online,
            connection_count: self.connection_count,
        }
    }
}

/// The members of a network and whether they are connected.
#[derive(Debug)]
pub struct MemberPresenceListView {
    pub network: String,
    pub network_id: String,
    pub relay_node_id: u64,
    pub observed_at: i64,
    pub members: Vec<MemberPresenceView>,
}

/// The contents of `MemberPresenceListView`.
#[verifier::ext_equal]
pub struct MemberPresenceListViewModel {
    pub network: Seq<char>,
    pub network_id: Seq<char>,
    pub relay_node_id: u64,
    pub observed_at: i64,
    pub members: Seq<MemberPresenceViewModel>,
}

impl DeepView for MemberPresenceListView {
    type V = MemberPresenceListViewModel;

    open spec fn deep_view(&self) -> MemberPresenceListViewModel {
        MemberPresenceListViewModel {
            network: self.network@,
            network_id: self.network_id@,
            relay_node_id: self.relay_node_id,
            observed_at: self.observed_at,
            members: self.members.deep_view(),
        }
    }
}

/// A probe that a verifier has to make.
#[derive(Debug)]
pub struct AvailabilityProbeRequest {
    pub target: NodeRecord,
    pub verifier_node_id: u64,
    pub epoch: u64,
    pub slot: i64,
    pub role: AvailabilityVerifierRole,
    pub ticket_signature: String,
    pub scheduled_at: i64,
    pub challenge: String,
}

/// The contents of `AvailabilityProbeRequest`.
#[verifier::ext_equal]
pub struct AvailabilityProbeRequestModel {
    pub target: NodeModel,
    pub verifier_node_id: u64,
    pub epoch: u64,
    pub slot: i64,
    pub role: AvailabilityVerifierRole,
    pub ticket_signature: Seq<char>,
    pub scheduled_at: i64,
    pub challenge: Seq<char>,
}

impl DeepView for AvailabilityProbeRequest {
    type V = AvailabilityProbeRequestModel;

    open spec fn deep_view(&self) -> AvailabilityProbeRequestModel {
        AvailabilityProbeRequestModel {
            target: self.target.deep_view(),
            verifier_node_id: self.verifier_node_id,
            epoch: self.epoch,
            slot: self.slot,
            role: self.role,
            ticket_signature: self.ticket_signature@,
            scheduled_at: self.scheduled_at,
            challenge: self.challenge@,
        }
    }
}

/// What an attestation has led to.
#[derive(Debug)]
pub struct AvailabilitySubmissionView {
    pub operation_id: String,
    pub target_node_id: u64,
    pub verifier_node_id: u64,
    pub slot: i64,
    pub role: AvailabilityVerifierRole,
    pub primary_attestation_count: usize,
    pub primary_quorum: u32,
    pub audit_required: bool,
    pub audit_attestation_count: usize,
    pub audit_quorum: u32,
    pub credited_seconds: u64,
}

/// The contents of `AvailabilitySubmissionView`.
#[verifier::ext_equal]
pub struct AvailabilitySubmissionViewModel {
    pub operation_id: Seq<char>,
    pub target_node_id: u64,
    pub verifier_node_id: u64,
    pub slot: i64,
    pub role: AvailabilityVerifierRole,
    pub primary_attestation_count: usize,
    pub primary_quorum: u32,
    pub audit_required: bool,
    pub audit_attestation_count: usize,
    pub audit_quorum: u32,
    pub credited_seconds: u64,
}

impl DeepView for AvailabilitySubmissionView {
    type V = AvailabilitySubmissionViewModel;

    open spec fn deep_view(&self) -> AvailabilitySubmissionViewModel {
        AvailabilitySubmissionViewModel {
            operation_id: self.operation_id@,
            target_node_id: self.target_node_id,
            verifier_node_id: self.verifier_node_id,
            slot: self.slot,
            role: self.role,
            primary_attestation_count: self.primary_attestation_count,
            primary_quorum: self.primary_quorum,
            audit_required: self.audit_required,
            audit_attestation_count: self.audit_attestation_count,
            audit_quorum: self.audit_quorum,
            credited_seconds: self.credited_seconds,
        }
    }
}

/// What a verifier attests.
#[derive(Debug)]
pub struct AvailabilityAttestationRequest {
    pub epoch: u64,
    pub slot: i64,
    pub role: AvailabilityVerifierRole,
    pub ticket_signature: String,
    pub response: ProbePayload,
    pub now: i64,
}

/// The contents of `AvailabilityAttestationRequest`.
#[verifier::ext_equal]
pub struct AvailabilityAttestationRequestModel {
    pub epoch: u64,
    pub slot: i64,
    pub role: AvailabilityVerifierRole,
    pub ticket_signature: Seq<char>,
    pub response: ProbeModel,
    pub now: i64,
}

impl DeepView for AvailabilityAttestationRequest {
    type V = AvailabilityAttestationRequestModel;

    open spec fn deep_view(&self) -> AvailabilityAttestationRequestModel {
        AvailabilityAttestationRequestModel {
            epoch: self.epoch,
            slot: self.slot,
            role: self.role,
            ticket_signature: self.ticket_signature@,
            response: self.response.deep_view(),
            now: self.now,
        }
    }
}

/// A finalized state that a new node can start from.
#[derive(Debug)]
pub struct BootstrapSnapshot {
    pub ledger_id: String,
    pub height: u64,
    pub state_root: String,
    pub checkpoint: LedgerState,
}

/// The contents of `BootstrapSnapshot`.
#[verifier::ext_equal]
pub struct BootstrapSnapshotModel {
    pub ledger_id: Seq<char>,
    pub height: u64,
    pub state_root: Seq<char>,
    pub checkpoint: LedgerModel,
}

impl DeepView for BootstrapSnapshot {
    type V = BootstrapSnapshotModel;

    open spec fn deep_view(&self) -> BootstrapSnapshotModel {
        BootstrapSnapshotModel {
            ledger_id: self.ledger_id@,
            height: self.height,
            state_root: self.state_root@,
            checkpoint: self.checkpoint.deep_view(),
        }
    }
}

/// A stored checkpoint, as it is listed.
#[derive(Debug)]
pub struct BootstrapCheckpointView {
    pub height: u64,
    pub finalized_at: i64,
    pub state_root: String,
}

/// The contents of `BootstrapCheckpointView`.
#[verifier::ext_equal]
pub struct BootstrapCheckpointViewModel {
    pub height: u64,
    pub finalized_at: i64,
    pub state_root: Seq<char>,
}

impl DeepView for BootstrapCheckpointView {
    type V = BootstrapCheckpointViewModel;

    open spec fn deep_view(&self) -> BootstrapCheckpointViewModel {
        BootstrapCheckpointViewModel {
            height: self.height,
            finalized_at: self.finalized_at,
            state_root: self.state_root@,
        }
    }
}

/// What a new node has started from.
#[derive(Debug)]
pub struct BootstrapInstallReport {
    pub ledger_id: String,
    pub height: u64,
    pub state_root: String,
    pub peer: String,
}

/// The contents of `BootstrapInstallReport`.
#[verifier::ext_equal]
pub struct BootstrapInstallReportModel {
    pub ledger_id: Seq<char>,
    pub height: u64,
    pub state_root: Seq<char>,
    pub peer: Seq<char>,
}

impl DeepView for BootstrapInstallReport {
    type V = BootstrapInstallReportModel;

    open spec fn deep_view(&self) -> BootstrapInstallReportModel {
        BootstrapInstallReportModel {
            ledger_id: self.ledger_id@,
            height: self.height,
            state_root: self.state_root@,
            peer: self.peer@,
        }
    }
}

/// The contents of a backup.
#[derive(Debug)]
pub struct LedgerBackupPayload {
    pub format_version: u32,
    pub created_at: i64,
    pub ledger_id: String,
    pub height: u64,
    pub state_root: String,
    pub ledger: LedgerState,
}

/// The contents of `LedgerBackupPayload`.
#[verifier::ext_equal]
pub struct LedgerBackupPayloadModel {
    pub format_version: u32,
    pub created_at: i64,
    pub ledger_id: Seq<char>,
    pub height: u64,
    pub state_root: Seq<char>,
    pub ledger: LedgerModel,
}

impl DeepView for LedgerBackupPayload {
    type V = LedgerBackupPayloadModel;

    open spec fn deep_view(&self) -> LedgerBackupPayloadModel {
        LedgerBackupPayloadModel {
            format_version: self.format_version,
            created_at: self.created_at,
            ledger_id: self.ledger_id@,
            height: self.height,
            state_root: self.state_root@,
            ledger: self.ledger.deep_view(),
        }
    }
}

/// A backup with its checksum.
#[derive(Debug)]
pub struct LedgerBackup {
    pub checksum: String,
    pub payload: LedgerBackupPayload,
}

/// The contents of `LedgerBackup`.
#[verifier::ext_equal]
pub struct LedgerBackupModel {
    pub checksum: Seq<char>,
    pub payload: LedgerBackupPayloadModel,
}

impl DeepView for LedgerBackup {
    type V = LedgerBackupModel;

    open spec fn deep_view(&self) -> LedgerBackupModel {
        LedgerBackupModel {
            checksum: self.checksum@,
            payload: self.payload.deep_view(),
        }
    }
}

/// What a backup or a restore has done.
#[derive(Debug)]
pub struct LedgerBackupReport {
    pub path: String,
    pub height: u64,
    pub state_root: String,
    pub checksum: String,
    pub bytes: u64,
}

/// The contents of `LedgerBackupReport`.
#[verifier::ext_equal]
pub struct LedgerBackupReportModel {
    pub path: Seq<char>,
    pub height: u64,
    pub state_root: Seq<char>,
    pub checksum: Seq<char>,
    pub bytes: u64,
}

impl DeepView for LedgerBackupReport {
    type V = LedgerBackupReportModel;

    open spec fn deep_view(&self) -> LedgerBackupReportModel {
        LedgerBackupReportModel {
            path: self.path@,
            height: self.height,
            state_root: self.state_root@,
            checksum: self.checksum@,
            bytes: self.bytes,
        }
    }
}

/// A value that a parameter will have.
#[derive(Debug)]
pub struct ScheduledGovernanceParameterView {
    pub effective_epoch: u64,
    pub value: String,
}

/// The contents of `ScheduledGovernanceParameterView`.
#[verifier::ext_equal]
pub struct ScheduledGovernanceParameterViewModel {
    pub effective_epoch: u64,
    pub value: Seq<char>,
}

impl DeepView for ScheduledGovernanceParameterView {
    type V = ScheduledGovernanceParameterViewModel;

    open spec fn deep_view(&self) -> ScheduledGovernanceParameterViewModel {
        ScheduledGovernanceParameterViewModel {
            effective_epoch: self.effective_epoch,
            value: self.value@,
        }
    }
}

/// A parameter, as it is shown.
#[derive(Debug)]
pub struct GovernanceParameterView {
    pub name: String,
    pub category: String,
    pub governance: String,
    pub current_value: String,
    pub configured_value: String,
    pub scheduled_changes: Vec<ScheduledGovernanceParameterView>,
}

/// The contents of `GovernanceParameterView`.
#[verifier::ext_equal]
pub struct GovernanceParameterViewModel {
    pub name: Seq<char>,
    pub category: Seq<char>,
    pub governance: Seq<char>,
    pub current_value: Seq<char>,
    pub configured_value: Seq<char>,
    pub scheduled_changes: Seq<ScheduledGovernanceParameterViewModel>,
}

impl DeepView for GovernanceParameterView {
    type V = GovernanceParameterViewModel;

    open spec fn deep_view(&self) -> GovernanceParameterViewModel {
        GovernanceParameterViewModel {
            name: self.name@,
            category: self.category@,
            governance: self.governance@,
            current_value: self.current_value@,
            configured_value: self.configured_value@,
            scheduled_changes: self.scheduled_changes.deep_view(),
        }
    }
}

/// The state of governance, as it is shown.
#[derive(Debug)]
pub struct GovernanceStatusView {
    pub mode: String,
    pub threshold: usize,
    pub critical_threshold: usize,
    pub node1_direct_end_threshold: usize,
    pub governance_eligible_count: usize,
    pub governance_eligible_node_ids: Vec<u64>,
    pub genesis_node_id: Option<u64>,
    pub genesis_owner_address: Option<String>,
    pub node1_direct_actions_enabled: bool,
    pub emission_paused: bool,
    pub pause_reason: Option<String>,
    pub current_epoch_number: u64,
    pub current_epoch_started_at: i64,
    pub current_epoch_ends_at: i64,
    pub current_epoch_seconds: i64,
    pub current_epoch_mint_amount: u128,
    pub current_epoch_mint_amount_display: String,
    pub current_reward_immediate_bps: u32,
    pub current_reward_vesting_seconds: i64,
    pub availability_mode: AvailabilityMode,
    pub availability_activated_at: Option<i64>,
    pub availability_activated_epoch: Option<u64>,
    pub minimum_decentralized_availability_validators: usize,
    pub settings: LedgerSettings,
    pub scheduled_parameter_changes: Table<u64, Table<String, String>>,
    pub parameters: Vec<GovernanceParameterView>,
    pub last_action_at: Option<i64>,
}

/// The contents of `GovernanceStatusView`.
#[verifier::ext_equal]
pub struct GovernanceStatusViewModel {
    pub mode: Seq<char>,
    pub threshold: usize,
    pub critical_threshold: usize,
    pub node1_direct_end_threshold: usize,
    pub governance_eligible_count: usize,
    pub governance_eligible_node_ids: Seq<u64>,
    pub genesis_node_id: Option<u64>,
    pub genesis_owner_address: Option<Seq<char>>,
    pub node1_direct_actions_enabled: bool,
    pub emission_paused: bool,
    pub pause_reason: Option<Seq<char>>,
    pub current_epoch_number: u64,
    pub current_epoch_started_at: i64,
    pub current_epoch_ends_at: i64,
    pub current_epoch_seconds: i64,
    pub current_epoch_mint_amount: u128,
    pub current_epoch_mint_amount_display: Seq<char>,
    pub current_reward_immediate_bps: u32,
    pub current_reward_vesting_seconds: i64,
    pub availability_mode: AvailabilityMode,
    pub availability_activated_at: Option<i64>,
    pub availability_activated_epoch: Option<u64>,
    pub minimum_decentralized_availability_validators: usize,
    pub settings: LedgerSettings,
    pub scheduled_parameter_changes: Map<u64, Map<Seq<char>, Seq<char>>>,
    pub parameters: Seq<GovernanceParameterViewModel>,
    pub last_action_at: Option<i64>,
}

impl DeepView for GovernanceStatusView {
    type V = GovernanceStatusViewModel;

    open spec fn deep_view(&self) -> GovernanceStatusViewModel {
        GovernanceStatusViewModel {
            mode: self.mode@,
            threshold: self.threshold,
            critical_threshold: self.critical_threshold,
            node1_direct_end_threshold: self.node1_direct_end_threshold,
            governance_eligible_count: self.governance_eligible_count,
            governance_eligible_node_ids: self.governance_eligible_node_ids@,
            genesis_node_id: self.genesis_node_id,
            genesis_owner_address: self.genesis_owner_address.deep_view(),
            node1_direct_actions_enabled: self.node1_direct_actions_enabled,
            emission_paused: self.emission_paused,
            pause_reason: self.pause_reason.deep_view(),
            current_epoch_number: self.current_epoch_number,
            current_epoch_started_at: self.current_epoch_started_at,
            current_epoch_ends_at: self.current_epoch_ends_at,
            current_epoch_seconds: self.current_epoch_seconds,
            current_epoch_mint_amount: self.current_epoch_mint_amount,
            current_epoch_mint_amount_display: self.current_epoch_mint_amount_display@,
            current_reward_immediate_bps: self.current_reward_immediate_bps,
            current_reward_vesting_seconds: self.current_reward_vesting_seconds,
            availability_mode: self.availability_mode,
            availability_activated_at: self.availability_activated_at,
            availability_activated_epoch: self.availability_activated_epoch,
            minimum_decentralized_availability_validators: self.minimum_decentralized_availability_validators,
            settings: self.settings,
            scheduled_parameter_changes: self.scheduled_parameter_changes@,
            parameters: self.parameters.deep_view(),
            last_action_at: self.last_action_at,
        }
    }
}

/// What a governance action has led to.
#[derive(Debug)]
pub struct GovernanceReceipt {
    pub operation_id: String,
    pub status: OperationStatus,
    pub action: String,
    pub signer_node_id: u64,
    pub executed_at: i64,
    pub payload: Payload,
}

/// The contents of `GovernanceReceipt`.
#[verifier::ext_equal]
pub struct GovernanceReceiptModel {
    pub operation_id: Seq<char>,
    pub status: OperationStatus,
    pub action: Seq<char>,
    pub signer_node_id: u64,
    pub executed_at: i64,
    pub payload: Map<Seq<char>, FieldModel>,
}

impl DeepView for GovernanceReceipt {
    type V = GovernanceReceiptModel;

    open spec fn deep_view(&self) -> GovernanceReceiptModel {
        GovernanceReceiptModel {
            operation_id: self.operation_id@,
            status: self.status,
            action: self.action@,
            signer_node_id: self.signer_node_id,
            executed_at: self.executed_at,
            payload: self.payload.deep_view(),
        }
    }
}

/// The governance bond of a node.
#[derive(Debug)]
pub struct GovernanceBondStatusView {
    pub node_id: u64,
    pub eligible: bool,
    pub governance_bond: u128,
    pub governance_bond_display: String,
    pub required_bond: u128,
    pub required_bond_display: String,
    pub bonded_at: Option<i64>,
    pub matures_at: Option<i64>,
    pub exit_requested_at: Option<i64>,
    pub bond_unlock_at: Option<i64>,
}

/// The contents of `GovernanceBondStatusView`.
#[verifier::ext_equal]
pub struct GovernanceBondStatusViewModel {
    pub node_id: u64,
    pub eligible: bool,
    pub governance_bond: u128,
    pub governance_bond_display: Seq<char>,
    pub required_bond: u128,
    pub required_bond_display: Seq<char>,
    pub bonded_at: Option<i64>,
    pub matures_at: Option<i64>,
    pub exit_requested_at: Option<i64>,
    pub bond_unlock_at: Option<i64>,
}

impl DeepView for GovernanceBondStatusView {
    type V = GovernanceBondStatusViewModel;

    open spec fn deep_view(&self) -> GovernanceBondStatusViewModel {
        GovernanceBondStatusViewModel {
            node_id: self.node_id,
            eligible: self.eligible,
            governance_bond: self.governance_bond,
            governance_bond_display: self.governance_bond_display@,
            required_bond: self.required_bond,
            required_bond_display: self.required_bond_display@,
            bonded_at: self.bonded_at,
            matures_at: self.matures_at,
            exit_requested_at: self.exit_requested_at,
            bond_unlock_at: self.bond_unlock_at,
        }
    }
}

/// What bonding has led to.
#[derive(Debug)]
pub struct GovernanceBondReceipt {
    pub operation_id: String,
    pub status: OperationStatus,
    pub node_id: u64,
    pub bonded: u128,
    pub bonded_display: String,
    pub total_governance_bond: u128,
    pub total_governance_bond_display: String,
    pub bonded_at: i64,
    pub matures_at: i64,
}

/// The contents of `GovernanceBondReceipt`.
#[verifier::ext_equal]
pub struct GovernanceBondReceiptModel {
    pub operation_id: Seq<char>,
    pub status: OperationStatus,
    pub node_id: u64,
    pub bonded: u128,
    pub bonded_display: Seq<char>,
    pub total_governance_bond: u128,
    pub total_governance_bond_display: Seq<char>,
    pub bonded_at: i64,
    pub matures_at: i64,
}

impl DeepView for GovernanceBondReceipt {
    type V = GovernanceBondReceiptModel;

    open spec fn deep_view(&self) -> GovernanceBondReceiptModel {
        GovernanceBondReceiptModel {
            operation_id: self.operation_id@,
            status: self.status,
            node_id: self.node_id,
            bonded: self.bonded,
            bonded_display: self.bonded_display@,
            total_governance_bond: self.total_governance_bond,
            total_governance_bond_display: self.total_governance_bond_display@,
            bonded_at: self.bonded_at,
            matures_at: self.matures_at,
        }
    }
}

/// The treasury and its limits.
#[derive(Debug)]
pub struct TreasuryStatusView {
    pub balance: u128,
    pub balance_display: String,
    pub genesis_allocation: u128,
    pub genesis_allocation_display: String,
    pub total_spent: u128,
    pub total_spent_display: String,
    pub spend_count: usize,
    pub governance_eligible_count: usize,
    pub active_validator_count: usize,
    pub minimum_active_validators: usize,
    pub spending_enabled: bool,
    pub single_spend_limit_bps: u128,
    pub current_single_spend_limit: u128,
    pub current_single_spend_limit_display: String,
    pub mature_governance_node_count: usize,
    pub minimum_mature_governance_nodes: usize,
    pub ninety_day_spent: u128,
    pub ninety_day_spent_display: String,
    pub ninety_day_limit: u128,
    pub ninety_day_limit_display: String,
    pub annual_spent: u128,
    pub annual_spent_display: String,
    pub annual_limit: u128,
    pub annual_limit_display: String,
}

/// The contents of `TreasuryStatusView`.
#[verifier::ext_equal]
pub struct TreasuryStatusViewModel {
    pub balance: u128,
    pub balance_display: Seq<char>,
    pub genesis_allocation: u128,
    pub genesis_allocation_display: Seq<char>,
    pub total_spent: u128,
    pub total_spent_display: Seq<char>,
    pub spend_count: usize,
    pub governance_eligible_count: usize,
    pub active_validator_count: usize,
    pub minimum_active_validators: usize,
    pub spending_enabled: bool,
    pub single_spend_limit_bps: u128,
    pub current_single_spend_limit: u128,
    pub current_single_spend_limit_display: Seq<char>,
    pub mature_governance_node_count: usize,
    pub minimum_mature_governance_nodes: usize,
    pub ninety_day_spent: u128,
    pub ninety_day_spent_display: Seq<char>,
    pub ninety_day_limit: u128,
    pub ninety_day_limit_display: Seq<char>,
    pub annual_spent: u128,
    pub annual_spent_display: Seq<char>,
    pub annual_limit: u128,
    pub annual_limit_display: Seq<char>,
}

impl DeepView for TreasuryStatusView {
    type V = TreasuryStatusViewModel;

    open spec fn deep_view(&self) -> TreasuryStatusViewModel {
        TreasuryStatusViewModel {
            balance: self.balance,
            balance_display: self.balance_display@,
            genesis_allocation: self.genesis_allocation,
            genesis_allocation_display: self.genesis_allocation_display@,
            total_spent: self.total_spent,
            total_spent_display: self.total_spent_display@,
            spend_count: self.spend_count,
            governance_eligible_count: self.governance_eligible_count,
            active_validator_count: self.active_validator_count,
            minimum_active_validators: self.minimum_active_validators,
            spending_enabled: self.spending_enabled,
            single_spend_limit_bps: self.single_spend_limit_bps,
            current_single_spend_limit: self.current_single_spend_limit,
            current_single_spend_limit_display: self.current_single_spend_limit_display@,
            mature_governance_node_count: self.mature_governance_node_count,
            minimum_mature_governance_nodes: self.minimum_mature_governance_nodes,
            ninety_day_spent: self.ninety_day_spent,
            ninety_day_spent_display: self.ninety_day_spent_display@,
            ninety_day_limit: self.ninety_day_limit,
            ninety_day_limit_display: self.ninety_day_limit_display@,
            annual_spent: self.annual_spent,
            annual_spent_display: self.annual_spent_display@,
            annual_limit: self.annual_limit,
            annual_limit_display: self.annual_limit_display@,
        }
    }
}

/// The votes on a proposal, counted.
#[derive(Clone, Copy, PartialEq, Eq, Debug, Structural)]
pub struct GovernanceTallyView {
    pub proposal_id: u64,
    pub status: GovernanceProposalStatus,
    pub total_power: u128,
    pub yes_power: u128,
    pub no_power: u128,
    pub abstain_power: u128,
    pub participation_power: u128,
    pub validator_total: usize,
    pub validator_yes: usize,
    pub validator_no: usize,
    pub validator_abstain: usize,
    pub validator_quorum: usize,
    pub timelock_veto_power: u128,
    pub voting_ends_at: i64,
    pub execute_after: i64,
}

impl DeepView for GovernanceTallyView {
    type V = GovernanceTallyView;

    open spec fn deep_view(&self) -> GovernanceTallyView {
        *self
    }
}

/// The state of the chain, as it is shown.
#[derive(Debug)]
pub struct BlockStatusView {
    pub mode: String,
    pub height: u64,
    pub burned_base_units: String,
    pub burned_display: String,
    pub total_settled_traffic_bytes: String,
    pub total_settled_traffic_display: String,
    pub last_block_hash: Option<String>,
    pub last_block_at: Option<i64>,
    pub pending_operation_count: usize,
    pub producer_node_id: Option<u64>,
    pub node1_production_enabled: bool,
    pub governance_eligible_count: usize,
    pub threshold: usize,
    pub active_validator_count: usize,
    pub minimum_active_validators: usize,
    pub availability_mode: AvailabilityMode,
    pub availability_earning_enabled: bool,
    pub minimum_decentralized_availability_validators: usize,
    pub pruned_through_height: u64,
    pub retained_block_count: usize,
    pub retained_operation_count: usize,
}

/// The contents of `BlockStatusView`.
#[verifier::ext_equal]
pub struct BlockStatusViewModel {
    pub mode: Seq<char>,
    pub height: u64,
    pub burned_base_units: Seq<char>,
    pub burned_display: Seq<char>,
    pub total_settled_traffic_bytes: Seq<char>,
    pub total_settled_traffic_display: Seq<char>,
    pub last_block_hash: Option<Seq<char>>,
    pub last_block_at: Option<i64>,
    pub pending_operation_count: usize,
    pub producer_node_id: Option<u64>,
    pub node1_production_enabled: bool,
    pub governance_eligible_count: usize,
    pub threshold: usize,
    pub active_validator_count: usize,
    pub minimum_active_validators: usize,
    pub availability_mode: AvailabilityMode,
    pub availability_earning_enabled: bool,
    pub minimum_decentralized_availability_validators: usize,
    pub pruned_through_height: u64,
    pub retained_block_count: usize,
    pub retained_operation_count: usize,
}

impl DeepView for BlockStatusView {
    type V = BlockStatusViewModel;

    open spec fn deep_view(&self) -> BlockStatusViewModel {
        BlockStatusViewModel {
            mode: self.mode@,
            height: self.height,
            burned_base_units: self.burned_base_units@,
            burned_display: self.burned_display@,
            total_settled_traffic_bytes: self.total_settled_traffic_bytes@,
            total_settled_traffic_display: self.total_settled_traffic_display@,
            last_block_hash: self.last_block_hash.deep_view(),
            last_block_at: self.last_block_at,
            pending_operation_count: self.pending_operation_count,
            producer_node_id: self.producer_node_id,
            node1_production_enabled: self.node1_production_enabled,
            governance_eligible_count: self.governance_eligible_count,
            threshold: self.threshold,
            active_validator_count: self.active_validator_count,
            minimum_active_validators: self.minimum_active_validators,
            availability_mode: self.availability_mode,
            availability_earning_enabled: self.availability_earning_enabled,
            minimum_decentralized_availability_validators: self.minimum_decentralized_availability_validators,
            pruned_through_height: self.pruned_through_height,
            retained_block_count: self.retained_block_count,
            retained_operation_count: self.retained_operation_count,
        }
    }
}

/// A block, as it is listed.
#[derive(Debug)]
pub struct BlockSummaryView {
    pub height: u64,
    pub block_hash: String,
    pub timestamp: i64,
    pub producer_node_id: u64,
    pub operation_count: usize,
    pub consensus_mode: BlockConsensusMode,
}

/// The contents of `BlockSummaryView`.
#[verifier::ext_equal]
pub struct BlockSummaryViewModel {
    pub height: u64,
    pub block_hash: Seq<char>,
    pub timestamp: i64,
    pub producer_node_id: u64,
    pub operation_count: usize,
    pub consensus_mode: BlockConsensusMode,
}

impl DeepView for BlockSummaryView {
    type V = BlockSummaryViewModel;

    open spec fn deep_view(&self) -> BlockSummaryViewModel {
        BlockSummaryViewModel {
            height: self.height,
            block_hash: self.block_hash@,
            timestamp: self.timestamp,
            producer_node_id: self.producer_node_id,
            operation_count: self.operation_count,
            consensus_mode: self.consensus_mode,
        }
    }
}

/// A page of blocks.
#[derive(Debug)]
pub struct BlockListView {
    pub blocks: Vec<BlockSummaryView>,
    pub next_cursor: Option<u64>,
}

/// The contents of `BlockListView`.
#[verifier::ext_equal]
pub struct BlockListViewModel {
    pub blocks: Seq<BlockSummaryViewModel>,
    pub next_cursor: Option<u64>,
}

impl DeepView for BlockListView {
    type V = BlockListViewModel;

    open spec fn deep_view(&self) -> BlockListViewModel {
        BlockListViewModel {
            blocks: self.blocks.deep_view(),
            next_cursor: self.next_cursor,
        }
    }
}

/// A page of the operations of a block.
#[derive(Debug)]
pub struct BlockOperationListView {
    pub operations: Vec<OperationRecord>,
    pub next_cursor: Option<u64>,
}

/// The contents of `BlockOperationListView`.
#[verifier::ext_equal]
pub struct BlockOperationListViewModel {
    pub operations: Seq<OperationModel>,
    pub next_cursor: Option<u64>,
}

impl DeepView for BlockOperationListView {
    type V = BlockOperationListViewModel;

    open spec fn deep_view(&self) -> BlockOperationListViewModel {
        BlockOperationListViewModel {
            operations: self.operations.deep_view(),
            next_cursor: self.next_cursor,
        }
    }
}

/// What checking the chain has shown.
#[derive(Debug)]
pub struct BlockVerificationReport {
    pub ok: bool,
    pub height: u64,
    pub checked_operations: usize,
    pub legacy_unverified_operations: usize,
    pub pruned_through_height: u64,
    pub pruned_operation_count: u64,
    pub detail: String,
}

/// The contents of `BlockVerificationReport`.
#[verifier::ext_equal]
pub struct BlockVerificationReportModel {
    pub ok: bool,
    pub height: u64,
    pub checked_operations: usize,
    pub legacy_unverified_operations: usize,
    pub pruned_through_height: u64,
    pub pruned_operation_count: u64,
    pub detail: Seq<char>,
}

impl DeepView for BlockVerificationReport {
    type V = BlockVerificationReportModel;

    open spec fn deep_view(&self) -> BlockVerificationReportModel {
        BlockVerificationReportModel {
            ok: self.ok,
            height: self.height,
            checked_operations: self.checked_operations,
            legacy_unverified_operations: self.legacy_unverified_operations,
            pruned_through_height: self.pruned_through_height,
            pruned_operation_count: self.pruned_operation_count,
            detail: self.detail@,
        }
    }
}

/// The blocks that a node lacks.
#[derive(Debug)]
pub struct ConsensusCatchUpChunk {
    pub tip_height: u64,
    pub blocks: Vec<BlockRecord>,
    pub operations: Vec<OperationRecord>,
    pub finalized_checkpoint: Option<Box<LedgerState>>,
}

/// The contents of `ConsensusCatchUpChunk`.
#[verifier::ext_equal]
pub struct ConsensusCatchUpChunkModel {
    pub tip_height: u64,
    pub blocks: Seq<BlockModel>,
    pub operations: Seq<OperationModel>,
    pub finalized_checkpoint: Option<Box<LedgerModel>>,
}

impl DeepView for ConsensusCatchUpChunk {
    type V = ConsensusCatchUpChunkModel;

    open spec fn deep_view(&self) -> ConsensusCatchUpChunkModel {
        ConsensusCatchUpChunkModel {
            tip_height: self.tip_height,
            blocks: self.blocks.deep_view(),
            operations: self.operations.deep_view(),
            finalized_checkpoint: match self.finalized_checkpoint {
                Some(state) => Some(Box::new((*state).model())),
                None => None,
            },
        }
    }
}

/// A node's part in the committee.
#[derive(Debug)]
pub struct ValidatorStatusView {
    pub node_id: u64,
    pub candidate: bool,
    pub active_validator: bool,
    pub validator_bond: u128,
    pub validator_bond_display: String,
    pub required_bond: u128,
    pub required_bond_display: String,
    pub candidate_since: Option<i64>,
    pub last_validator_epoch: Option<u64>,
    pub consecutive_epochs: u64,
    pub exit_requested_at: Option<i64>,
    pub bond_unlock_at: Option<i64>,
}

/// The contents of `ValidatorStatusView`.
#[verifier::ext_equal]
pub struct ValidatorStatusViewModel {
    pub node_id: u64,
    pub candidate: bool,
    pub active_validator: bool,
    pub validator_bond: u128,
    pub validator_bond_display: Seq<char>,
    pub required_bond: u128,
    pub required_bond_display: Seq<char>,
    pub candidate_since: Option<i64>,
    pub last_validator_epoch: Option<u64>,
    pub consecutive_epochs: u64,
    pub exit_requested_at: Option<i64>,
    pub bond_unlock_at: Option<i64>,
}

impl DeepView for ValidatorStatusView {
    type V = ValidatorStatusViewModel;

    open spec fn deep_view(&self) -> ValidatorStatusViewModel {
        ValidatorStatusViewModel {
            node_id: self.node_id,
            candidate: self.candidate,
            active_validator: self.active_validator,
            validator_bond: self.validator_bond,
            validator_bond_display: self.validator_bond_display@,
            required_bond: self.required_bond,
            required_bond_display: self.required_bond_display@,
            candidate_since: self.candidate_since,
            last_validator_epoch: self.last_validator_epoch,
            consecutive_epochs: self.consecutive_epochs,
            exit_requested_at: self.exit_requested_at,
            bond_unlock_at: self.bond_unlock_at,
        }
    }
}

/// The committee.
#[derive(Debug)]
pub struct ValidatorCommitteeView {
    pub epoch: u64,
    pub validator_set_hash: String,
    pub active_validator_ids: Vec<u64>,
    pub candidate_node_ids: Vec<u64>,
    pub max_active_validators: u32,
    pub max_rotations_per_selection: u32,
    pub rotation_interval_epochs: u32,
    pub last_selection_epoch: Option<u64>,
    pub next_scheduled_rotation_epoch: u64,
    pub quorum: usize,
    pub next_height: u64,
    pub current_round: u32,
    pub proposer_node_id: Option<u64>,
}

/// The contents of `ValidatorCommitteeView`.
#[verifier::ext_equal]
pub struct ValidatorCommitteeViewModel {
    pub epoch: u64,
    pub validator_set_hash: Seq<char>,
    pub active_validator_ids: Seq<u64>,
    pub candidate_node_ids: Seq<u64>,
    pub max_active_validators: u32,
    pub max_rotations_per_selection: u32,
    pub rotation_interval_epochs: u32,
    pub last_selection_epoch: Option<u64>,
    pub next_scheduled_rotation_epoch: u64,
    pub quorum: usize,
    pub next_height: u64,
    pub current_round: u32,
    pub proposer_node_id: Option<u64>,
}

impl DeepView for ValidatorCommitteeView {
    type V = ValidatorCommitteeViewModel;

    open spec fn deep_view(&self) -> ValidatorCommitteeViewModel {
        ValidatorCommitteeViewModel {
            epoch: self.epoch,
            validator_set_hash: self.validator_set_hash@,
            active_validator_ids: self.active_validator_ids@,
            candidate_node_ids: self.candidate_node_ids@,
            max_active_validators: self.max_active_validators,
            max_rotations_per_selection: self.max_rotations_per_selection,
            rotation_interval_epochs: self.rotation_interval_epochs,
            last_selection_epoch: self.last_selection_epoch,
            next_scheduled_rotation_epoch: self.next_scheduled_rotation_epoch,
            quorum: self.quorum,
            next_height: self.next_height,
            current_round: self.current_round,
            proposer_node_id: self.proposer_node_id,
        }
    }
}

/// What joining the pool of validators has led to.
#[derive(Debug)]
pub struct ValidatorBondReceipt {
    pub operation_id: String,
    pub status: OperationStatus,
    pub node_id: u64,
    pub bonded: u128,
    pub bonded_display: String,
    pub total_validator_bond: u128,
    pub total_validator_bond_display: String,
    pub candidate: bool,
}

/// The contents of `ValidatorBondReceipt`.
#[verifier::ext_equal]
pub struct ValidatorBondReceiptModel {
    pub operation_id: Seq<char>,
    pub status: OperationStatus,
    pub node_id: u64,
    pub bonded: u128,
    pub bonded_display: Seq<char>,
    pub total_validator_bond: u128,
    pub total_validator_bond_display: Seq<char>,
    pub candidate: bool,
}

impl DeepView for ValidatorBondReceipt {
    type V = ValidatorBondReceiptModel;

    open spec fn deep_view(&self) -> ValidatorBondReceiptModel {
        ValidatorBondReceiptModel {
            operation_id: self.operation_id@,
            status: self.status,
            node_id: self.node_id,
            bonded: self.bonded,
            bonded_display: self.bonded_display@,
            total_validator_bond: self.total_validator_bond,
            total_validator_bond_display: self.total_validator_bond_display@,
            candidate: self.candidate,
        }
    }
}

/// The round of voting, as it is shown.
#[derive(Debug)]
pub struct ConsensusStatusView {
    pub mode: String,
    pub height: u64,
    pub round: u32,
    pub round_started_at: Option<i64>,
    pub next_block_at: Option<i64>,
    pub proposer_node_id: Option<u64>,
    pub proposal_block_hash: Option<String>,
    pub prevote_count: usize,
    pub precommit_count: usize,
    pub prevote_validator_ids: Vec<u64>,
    pub precommit_validator_ids: Vec<u64>,
    pub quorum: usize,
    pub active_validator_ids: Vec<u64>,
    pub validator_set_hash: String,
    pub locked_validators: Table<u64, String>,
}

/// The contents of `ConsensusStatusView`.
#[verifier::ext_equal]
pub struct ConsensusStatusViewModel {
    pub mode: Seq<char>,
    pub height: u64,
    pub round: u32,
    pub round_started_at: Option<i64>,
    pub next_block_at: Option<i64>,
    pub proposer_node_id: Option<u64>,
    pub proposal_block_hash: Option<Seq<char>>,
    pub prevote_count: usize,
    pub precommit_count: usize,
    pub prevote_validator_ids: Seq<u64>,
    pub precommit_validator_ids: Seq<u64>,
    pub quorum: usize,
    pub active_validator_ids: Seq<u64>,
    pub validator_set_hash: Seq<char>,
    pub locked_validators: Map<u64, Seq<char>>,
}

impl DeepView for ConsensusStatusView {
    type V = ConsensusStatusViewModel;

    open spec fn deep_view(&self) -> ConsensusStatusViewModel {
        ConsensusStatusViewModel {
            mode: self.mode@,
            height: self.height,
            round: self.round,
            round_started_at: self.round_started_at,
            next_block_at: self.next_block_at,
            proposer_node_id: self.proposer_node_id,
            proposal_block_hash: self.proposal_block_hash.deep_view(),
            prevote_count: self.prevote_count,
            precommit_count: self.precommit_count,
            prevote_validator_ids: self.prevote_validator_ids@,
            precommit_validator_ids: self.precommit_validator_ids@,
            quorum: self.quorum,
            active_validator_ids: self.active_validator_ids@,
            validator_set_hash: self.validator_set_hash@,
            locked_validators: self.locked_validators@,
        }
    }
}

/// What a proposal or a vote has led to.
#[derive(Debug)]
pub struct ConsensusSubmissionView {
    pub accepted: bool,
    pub duplicate: bool,
    pub double_sign_detected: bool,
    pub finalized_block: Option<BlockRecord>,
}

/// The contents of `ConsensusSubmissionView`.
#[verifier::ext_equal]
pub struct ConsensusSubmissionViewModel {
    pub accepted: bool,
    pub duplicate: bool,
    pub double_sign_detected: bool,
    pub finalized_block: Option<BlockModel>,
}

impl DeepView for ConsensusSubmissionView {
    type V = ConsensusSubmissionViewModel;

    open spec fn deep_view(&self) -> ConsensusSubmissionViewModel {
        ConsensusSubmissionViewModel {
            accepted: self.accepted,
            duplicate: self.duplicate,
            double_sign_detected: self.double_sign_detected,
            finalized_block: self.finalized_block.deep_view(),
        }
    }
}

/// One check of the diagnostics.
#[derive(Debug)]
pub struct DiagnosticCheck {
    pub name: String,
    pub ok: bool,
    pub detail: String,
}

/// The contents of `DiagnosticCheck`.
#[verifier::ext_equal]
pub struct DiagnosticCheckModel {
    pub name: Seq<char>,
    pub ok: bool,
    pub detail: Seq<char>,
}

impl DeepView for DiagnosticCheck {
    type V = DiagnosticCheckModel;

    open spec fn deep_view(&self) -> DiagnosticCheckModel {
        DiagnosticCheckModel {
            name: self.name@,
            ok: self.ok,
            detail: self.detail@,
        }
    }
}

/// All checks of the diagnostics.
#[derive(Debug)]
pub struct DiagnosticReport {
    pub ok: bool,
    pub checks: Vec<DiagnosticCheck>,
}

/// The contents of `DiagnosticReport`.
#[verifier::ext_equal]
pub struct DiagnosticReportModel {
    pub ok: bool,
    pub checks: Seq<DiagnosticCheckModel>,
}

impl DeepView for DiagnosticReport {
    type V = DiagnosticReportModel;

    open spec fn deep_view(&self) -> DiagnosticReportModel {
        DiagnosticReportModel {
            ok: self.ok,
            checks: self.checks.deep_view(),
        }
    }
}

/// A reservation, as a relay sees it.
#[derive(Debug)]
pub struct RelayAuthorizationView {
    pub ledger_id: String,
    pub authorization: PaymentAuthorizationRecord,
    pub sender_public_key: String,
    pub receiver_public_key: String,
    pub finalized: bool,
}

/// The contents of `RelayAuthorizationView`.
#[verifier::ext_equal]
pub struct RelayAuthorizationViewModel {
    pub ledger_id: Seq<char>,
    pub authorization: AuthorizationModel,
    pub sender_public_key: Seq<char>,
    pub receiver_public_key: Seq<char>,
    pub finalized: bool,
}

impl DeepView for RelayAuthorizationView {
    type V = RelayAuthorizationViewModel;

    open spec fn deep_view(&self) -> RelayAuthorizationViewModel {
        RelayAuthorizationViewModel {
            ledger_id: self.ledger_id@,
            authorization: self.authorization.deep_view(),
            sender_public_key: self.sender_public_key@,
            receiver_public_key: self.receiver_public_key@,
            finalized: self.finalized,
        }
    }
}

/// A reservation, as it is shown.
#[derive(Debug)]
pub struct PaymentAuthorizationStatusView {
    pub authorization_id: String,
    pub session_id: String,
    pub status: OperationStatus,
    pub block_height: Option<u64>,
    pub authorization: Option<PaymentAuthorizationRecord>,
}

/// The contents of `PaymentAuthorizationStatusView`.
#[verifier::ext_equal]
pub struct PaymentAuthorizationStatusViewModel {
    pub authorization_id: Seq<char>,
    pub session_id: Seq<char>,
    pub status: OperationStatus,
    pub block_height: Option<u64>,
    pub authorization: Option<AuthorizationModel>,
}

impl DeepView for PaymentAuthorizationStatusView {
    type V = PaymentAuthorizationStatusViewModel;

    open spec fn deep_view(&self) -> PaymentAuthorizationStatusViewModel {
        PaymentAuthorizationStatusViewModel {
            authorization_id: self.authorization_id@,
            session_id: self.session_id@,
            status: self.status,
            block_height: self.block_height,
            authorization: self.authorization.deep_view(),
        }
    }
}

/// The reservations of a network.
#[derive(Debug)]
pub struct PaymentHistoryView {
    pub network: String,
    pub network_commitment: String,
    pub fund_balance: u128,
    pub total_settled: u128,
    pub total_reserved: u128,
    pub authorizations: Vec<PaymentAuthorizationRecord>,
}

/// The contents of `PaymentHistoryView`.
#[verifier::ext_equal]
pub struct PaymentHistoryViewModel {
    pub network: Seq<char>,
    pub network_commitment: Seq<char>,
    pub fund_balance: u128,
    pub total_settled: u128,
    pub total_reserved: u128,
    pub authorizations: Seq<AuthorizationModel>,
}

impl DeepView for PaymentHistoryView {
    type V = PaymentHistoryViewModel;

    open spec fn deep_view(&self) -> PaymentHistoryViewModel {
        PaymentHistoryViewModel {
            network: self.network@,
            network_commitment: self.network_commitment@,
            fund_balance: self.fund_balance,
            total_settled: self.total_settled,
            total_reserved: self.total_reserved,
            authorizations: self.authorizations.deep_view(),
        }
    }
}

/// A session that still has to be settled.
#[derive(Debug)]
pub struct UnsettledPaymentView {
    pub session: UnsettledRelaySession,
    pub authorization: PaymentAuthorizationRecord,
}

/// The contents of `UnsettledPaymentView`.
#[verifier::ext_equal]
pub struct UnsettledPaymentViewModel {
    pub session: RelaySessionModel,
    pub authorization: AuthorizationModel,
}

impl DeepView for UnsettledPaymentView {
    type V = UnsettledPaymentViewModel;

    open spec fn deep_view(&self) -> UnsettledPaymentViewModel {
        UnsettledPaymentViewModel {
            session: self.session.deep_view(),
            authorization: self.authorization.deep_view(),
        }
    }
}

/// A member that has proved who it is.
#[derive(Debug)]
pub struct AuthenticatedMember {
    pub network_id: String,
    pub member_id: String,
    pub max_connections: u32,
}

/// The contents of `AuthenticatedMember`.
#[verifier::ext_equal]
pub struct AuthenticatedMemberModel {
    pub network_id: Seq<char>,
    pub member_id: Seq<char>,
    pub max_connections: u32,
}

impl DeepView for AuthenticatedMember {
    type V = AuthenticatedMemberModel;

    open spec fn deep_view(&self) -> AuthenticatedMemberModel {
        AuthenticatedMemberModel {
            network_id: self.network_id@,
            member_id: self.member_id@,
            max_connections: self.max_connections,
        }
    }
}

} // verus!
