use vstd::prelude::*;
use vstd::string::*;

use crate::amount::{format_mrk, mrk_text};
use crate::model::{FeePolicy, LedgerModel, LedgerSettings, LedgerState};
use crate::text::{i64_text, signed_decimal, text_same, u32_text, u64_text};

verus! {

/// The parameters that governance can set.
#[derive(Clone, Copy, Debug, PartialEq, Eq, Structural)]
pub enum Parameter {
    EpochSeconds,
    EpochMintAmount,
    RewardImmediateBps,
    RewardVestingSeconds,
    ValidatorWeightBps,
    ValidatorSignatureThresholdBps,
    ServiceBond,
    ServiceBondUnlockSeconds,
    OfflineSlashSeconds,
    WarmupSeconds,
    HeartbeatGraceSeconds,
    IpReuseCooldownSeconds,
    ProbeValiditySeconds,
    AvailabilitySlotSeconds,
    AvailabilityVerifierCount,
    AvailabilityQuorum,
    AvailabilityAuditRateBps,
    AvailabilityAuditorCount,
    AvailabilityAuditQuorum,
    GovernanceMinServiceSeconds,
    GovernanceBond,
    GovernanceBondMaturitySeconds,
    GovernanceBondUnlockSeconds,
    BlockIntervalSeconds,
    ValidatorBond,
    MaxActiveValidators,
    MaxValidatorRotations,
    ValidatorRotationIntervalEpochs,
    ConsensusRoundTimeoutSeconds,
    BaseFeePerUnit,
    FeeMinMultiplierBps,
    FeeMaxMultiplierBps,
    FeeTargetUnitsPerEpoch,
    FeeMaxUnitsPerBlock,
    FeeAdjustmentDenominator,
    TrafficProtocolFeeBps,
    TrafficTreasuryShareBps,
}

/// The values that a parameter takes: a number between two bounds, an amount of MRK that may not be
/// more than there will ever be, or the base fee.
#[derive(Clone, Copy, Debug, PartialEq, Eq, Structural)]
pub enum ParameterRange {
    Number { min: u64, max: u64 },
    Amount { positive: bool },
    BaseFee,
}

impl Parameter {
    /// The name of the parameter.
    pub open spec fn title(self) -> Seq<char> {
        match self {
            Parameter::EpochSeconds => "epoch-seconds"@,
            Parameter::EpochMintAmount => "epoch-mint-amount"@,
            Parameter::RewardImmediateBps => "reward-immediate-bps"@,
            Parameter::RewardVestingSeconds => "reward-vesting-seconds"@,
            Parameter::ValidatorWeightBps => "validator-weight-bps"@,
            Parameter::ValidatorSignatureThresholdBps => "validator-signature-threshold-bps"@,
            Parameter::ServiceBond => "service-bond"@,
            Parameter::ServiceBondUnlockSeconds => "service-bond-unlock-seconds"@,
            Parameter::OfflineSlashSeconds => "offline-slash-seconds"@,
            Parameter::WarmupSeconds => "warmup-seconds"@,
            Parameter::HeartbeatGraceSeconds => "heartbeat-grace-seconds"@,
            Parameter::IpReuseCooldownSeconds => "ip-reuse-cooldown-seconds"@,
            Parameter::ProbeValiditySeconds => "probe-validity-seconds"@,
            Parameter::AvailabilitySlotSeconds => "availability-slot-seconds"@,
            Parameter::AvailabilityVerifierCount => "availability-verifier-count"@,
            Parameter::AvailabilityQuorum => "availability-quorum"@,
            Parameter::AvailabilityAuditRateBps => "availability-audit-rate-bps"@,
            Parameter::AvailabilityAuditorCount => "availability-auditor-count"@,
            Parameter::AvailabilityAuditQuorum => "availability-audit-quorum"@,
            Parameter::GovernanceMinServiceSeconds => "governance-min-service-seconds"@,
            Parameter::GovernanceBond => "governance-bond"@,
            Parameter::GovernanceBondMaturitySeconds => "governance-bond-maturity-seconds"@,
            Parameter::GovernanceBondUnlockSeconds => "governance-bond-unlock-seconds"@,
            Parameter::BlockIntervalSeconds => "block-interval-seconds"@,
            Parameter::ValidatorBond => "validator-bond"@,
            Parameter::MaxActiveValidators => "max-active-validators"@,
            Parameter::MaxValidatorRotations => "max-validator-rotations"@,
            Parameter::ValidatorRotationIntervalEpochs => "validator-rotation-interval-epochs"@,
            Parameter::ConsensusRoundTimeoutSeconds => "consensus-round-timeout-seconds"@,
            Parameter::BaseFeePerUnit => "base-fee-per-unit"@,
            Parameter::FeeMinMultiplierBps => "fee-min-multiplier-bps"@,
            Parameter::FeeMaxMultiplierBps => "fee-max-multiplier-bps"@,
            Parameter::FeeTargetUnitsPerEpoch => "fee-target-units-per-epoch"@,
            Parameter::FeeMaxUnitsPerBlock => "fee-max-units-per-block"@,
            Parameter::FeeAdjustmentDenominator => "fee-adjustment-denominator"@,
            Parameter::TrafficProtocolFeeBps => "traffic-protocol-fee-bps"@,
            Parameter::TrafficTreasuryShareBps => "traffic-treasury-share-bps"@,
        }
    }

    /// The name of the parameter.
    pub fn name(self) -> (r: &'static str)
        ensures
            r@ == self.title(),
    {
        match self {
            Parameter::EpochSeconds => "epoch-seconds",
            Parameter::EpochMintAmount => "epoch-mint-amount",
            Parameter::RewardImmediateBps => "reward-immediate-bps",
            Parameter::RewardVestingSeconds => "reward-vesting-seconds",
            Parameter::ValidatorWeightBps => "validator-weight-bps",
            Parameter::ValidatorSignatureThresholdBps => "validator-signature-threshold-bps",
            Parameter::ServiceBond => "service-bond",
            Parameter::ServiceBondUnlockSeconds => "service-bond-unlock-seconds",
            Parameter::OfflineSlashSeconds => "offline-slash-seconds",
            Parameter::WarmupSeconds => "warmup-seconds",
            Parameter::HeartbeatGraceSeconds => "heartbeat-grace-seconds",
            Parameter::IpReuseCooldownSeconds => "ip-reuse-cooldown-seconds",
            Parameter::ProbeValiditySeconds => "probe-validity-seconds",
            Parameter::AvailabilitySlotSeconds => "availability-slot-seconds",
            Parameter::AvailabilityVerifierCount => "availability-verifier-count",
            Parameter::AvailabilityQuorum => "availability-quorum",
            Parameter::AvailabilityAuditRateBps => "availability-audit-rate-bps",
            Parameter::AvailabilityAuditorCount => "availability-auditor-count",
            Parameter::AvailabilityAuditQuorum => "availability-audit-quorum",
            Parameter::GovernanceMinServiceSeconds => "governance-min-service-seconds",
            Parameter::GovernanceBond => "governance-bond",
            Parameter::GovernanceBondMaturitySeconds => "governance-bond-maturity-seconds",
            Parameter::GovernanceBondUnlockSeconds => "governance-bond-unlock-seconds",
            Parameter::BlockIntervalSeconds => "block-interval-seconds",
            Parameter::ValidatorBond => "validator-bond",
            Parameter::MaxActiveValidators => "max-active-validators",
            Parameter::MaxValidatorRotations => "max-validator-rotations",
            Parameter::ValidatorRotationIntervalEpochs => "validator-rotation-interval-epochs",
            Parameter::ConsensusRoundTimeoutSeconds => "consensus-round-timeout-seconds",
            Parameter::BaseFeePerUnit => "base-fee-per-unit",
            Parameter::FeeMinMultiplierBps => "fee-min-multiplier-bps",
            Parameter::FeeMaxMultiplierBps => "fee-max-multiplier-bps",
            Parameter::FeeTargetUnitsPerEpoch => "fee-target-units-per-epoch",
            Parameter::FeeMaxUnitsPerBlock => "fee-max-units-per-block",
            Parameter::FeeAdjustmentDenominator => "fee-adjustment-denominator",
            Parameter::TrafficProtocolFeeBps => "traffic-protocol-fee-bps",
            Parameter::TrafficTreasuryShareBps => "traffic-treasury-share-bps",
        }
    }

    /// The values that the parameter takes.
    pub open spec fn range_of(self) -> ParameterRange {
        match self {
            Parameter::EpochSeconds => ParameterRange::Number { min: 60, max: 31_536_000 },
            Parameter::EpochMintAmount => ParameterRange::Amount { positive: true },
            Parameter::RewardImmediateBps => ParameterRange::Number { min: 0, max: 10_000 },
            Parameter::RewardVestingSeconds => ParameterRange::Number { min: 1, max: 315_360_000 },
            Parameter::ValidatorWeightBps => ParameterRange::Number { min: 10_000, max: 20_000 },
            Parameter::ValidatorSignatureThresholdBps => ParameterRange::Number { min: 5_000, max: 10_000 },
            Parameter::ServiceBond => ParameterRange::Amount { positive: false },
            Parameter::ServiceBondUnlockSeconds => ParameterRange::Number { min: 0, max: 31_536_000 },
            Parameter::OfflineSlashSeconds => ParameterRange::Number { min: 3_600, max: 31_536_000 },
            Parameter::WarmupSeconds => ParameterRange::Number { min: 0, max: 31_536_000 },
            Parameter::HeartbeatGraceSeconds => ParameterRange::Number { min: 10, max: 3_600 },
            Parameter::IpReuseCooldownSeconds => ParameterRange::Number { min: 0, max: 31_536_000 },
            Parameter::ProbeValiditySeconds => ParameterRange::Number { min: 30, max: 3_600 },
            Parameter::AvailabilitySlotSeconds => ParameterRange::Number { min: 60, max: 300 },
            Parameter::AvailabilityVerifierCount => ParameterRange::Number { min: 3, max: 30 },
            Parameter::AvailabilityQuorum => ParameterRange::Number { min: 2, max: 21 },
            Parameter::AvailabilityAuditRateBps => ParameterRange::Number { min: 0, max: 10_000 },
            Parameter::AvailabilityAuditorCount => ParameterRange::Number { min: 1, max: 10 },
            Parameter::AvailabilityAuditQuorum => ParameterRange::Number { min: 1, max: 7 },
            Parameter::GovernanceMinServiceSeconds => ParameterRange::Number { min: 0, max: 31_536_000 },
            Parameter::GovernanceBond => ParameterRange::Amount { positive: true },
            Parameter::GovernanceBondMaturitySeconds => ParameterRange::Number { min: 0, max: 31_536_000 },
            Parameter::GovernanceBondUnlockSeconds => ParameterRange::Number { min: 0, max: 31_536_000 },
            Parameter::BlockIntervalSeconds => ParameterRange::Number { min: 1, max: 300 },
            Parameter::ValidatorBond => ParameterRange::Amount { positive: true },
            Parameter::MaxActiveValidators => ParameterRange::Number { min: 7, max: 31 },
            Parameter::MaxValidatorRotations => ParameterRange::Number { min: 1, max: 10 },
            Parameter::ValidatorRotationIntervalEpochs => ParameterRange::Number { min: 1, max: 10_000 },
            Parameter::ConsensusRoundTimeoutSeconds => ParameterRange::Number { min: 5, max: 30 },
            Parameter::BaseFeePerUnit => ParameterRange::BaseFee,
            Parameter::FeeMinMultiplierBps => ParameterRange::Number { min: 100, max: 10_000 },
            Parameter::FeeMaxMultiplierBps => ParameterRange::Number { min: 10_000, max: 100_000 },
            Parameter::FeeTargetUnitsPerEpoch => ParameterRange::Number { min: 1, max: 1_000_000_000_000 },
            Parameter::FeeMaxUnitsPerBlock => ParameterRange::Number { min: 1_000, max: 1_000_000_000 },
            Parameter::FeeAdjustmentDenominator => ParameterRange::Number { min: 8, max: 1_000 },
            Parameter::TrafficProtocolFeeBps => ParameterRange::Number { min: 0, max: 500 },
            Parameter::TrafficTreasuryShareBps => ParameterRange::Number { min: 0, max: 10_000 },
        }
    }

    /// The values that the parameter takes.
    pub fn range(self) -> (r: ParameterRange)
        ensures
            r == self.range_of(),
    {
        match self {
            Parameter::EpochSeconds => ParameterRange::Number { min: 60, max: 31_536_000 },
            Parameter::EpochMintAmount => ParameterRange::Amount { positive: true },
            Parameter::RewardImmediateBps => ParameterRange::Number { min: 0, max: 10_000 },
            Parameter::RewardVestingSeconds => ParameterRange::Number { min: 1, max: 315_360_000 },
            Parameter::ValidatorWeightBps => ParameterRange::Number { min: 10_000, max: 20_000 },
            Parameter::ValidatorSignatureThresholdBps => ParameterRange::Number { min: 5_000, max: 10_000 },
            Parameter::ServiceBond => ParameterRange::Amount { positive: false },
            Parameter::ServiceBondUnlockSeconds => ParameterRange::Number { min: 0, max: 31_536_000 },
            Parameter::OfflineSlashSeconds => ParameterRange::Number { min: 3_600, max: 31_536_000 },
            Parameter::WarmupSeconds => ParameterRange::Number { min: 0, max: 31_536_000 },
            Parameter::HeartbeatGraceSeconds => ParameterRange::Number { min: 10, max: 3_600 },
            Parameter::IpReuseCooldownSeconds => ParameterRange::Number { min: 0, max: 31_536_000 },
            Parameter::ProbeValiditySeconds => ParameterRange::Number { min: 30, max: 3_600 },
            Parameter::AvailabilitySlotSeconds => ParameterRange::Number { min: 60, max: 300 },
            Parameter::AvailabilityVerifierCount => ParameterRange::Number { min: 3, max: 30 },
            Parameter::AvailabilityQuorum => ParameterRange::Number { min: 2, max: 21 },
            Parameter::AvailabilityAuditRateBps => ParameterRange::Number { min: 0, max: 10_000 },
            Parameter::AvailabilityAuditorCount => ParameterRange::Number { min: 1, max: 10 },
            Parameter::AvailabilityAuditQuorum => ParameterRange::Number { min: 1, max: 7 },
            Parameter::GovernanceMinServiceSeconds => ParameterRange::Number { min: 0, max: 31_536_000 },
            Parameter::GovernanceBond => ParameterRange::Amount { positive: true },
            Parameter::GovernanceBondMaturitySeconds => ParameterRange::Number { min: 0, max: 31_536_000 },
            Parameter::GovernanceBondUnlockSeconds => ParameterRange::Number { min: 0, max: 31_536_000 },
            Parameter::BlockIntervalSeconds => ParameterRange::Number { min: 1, max: 300 },
            Parameter::ValidatorBond => ParameterRange::Amount { positive: true },
            Parameter::MaxActiveValidators => ParameterRange::Number { min: 7, max: 31 },
            Parameter::MaxValidatorRotations => ParameterRange::Number { min: 1, max: 10 },
            Parameter::ValidatorRotationIntervalEpochs => ParameterRange::Number { min: 1, max: 10_000 },
            Parameter::ConsensusRoundTimeoutSeconds => ParameterRange::Number { min: 5, max: 30 },
            Parameter::BaseFeePerUnit => ParameterRange::BaseFee,
            Parameter::FeeMinMultiplierBps => ParameterRange::Number { min: 100, max: 10_000 },
            Parameter::FeeMaxMultiplierBps => ParameterRange::Number { min: 10_000, max: 100_000 },
            Parameter::FeeTargetUnitsPerEpoch => ParameterRange::Number { min: 1, max: 1_000_000_000_000 },
            Parameter::FeeMaxUnitsPerBlock => ParameterRange::Number { min: 1_000, max: 1_000_000_000 },
            Parameter::FeeAdjustmentDenominator => ParameterRange::Number { min: 8, max: 1_000 },
            Parameter::TrafficProtocolFeeBps => ParameterRange::Number { min: 0, max: 500 },
            Parameter::TrafficTreasuryShareBps => ParameterRange::Number { min: 0, max: 10_000 },
        }
    }

    /// Whether only a critical proposal may change the parameter.
    pub open spec fn critical(self) -> bool {
        !(self == Parameter::ServiceBond
            || self == Parameter::HeartbeatGraceSeconds
            || self == Parameter::IpReuseCooldownSeconds
            || self == Parameter::ProbeValiditySeconds
            || self == Parameter::GovernanceMinServiceSeconds
            || self == Parameter::BlockIntervalSeconds)
    }

    pub fn is_critical(self) -> (r: bool)
        ensures
            r == self.critical(),
    {
        !matches!(
            self,
            Parameter::ServiceBond
            | Parameter::HeartbeatGraceSeconds
            | Parameter::IpReuseCooldownSeconds
            | Parameter::ProbeValiditySeconds
            | Parameter::GovernanceMinServiceSeconds
            | Parameter::BlockIntervalSeconds
        )
    }

    /// Whether the parameter is part of the fee policy.
    pub open spec fn of_fee_policy(self) -> bool {
        self == Parameter::BaseFeePerUnit
            || self == Parameter::FeeMinMultiplierBps
            || self == Parameter::FeeMaxMultiplierBps
            || self == Parameter::FeeTargetUnitsPerEpoch
            || self == Parameter::FeeMaxUnitsPerBlock
            || self == Parameter::FeeAdjustmentDenominator
            || self == Parameter::TrafficProtocolFeeBps
            || self == Parameter::TrafficTreasuryShareBps
    }

    pub fn is_fee_policy(self) -> (r: bool)
        ensures
            r == self.of_fee_policy(),
    {
        matches!(
            self,
            Parameter::BaseFeePerUnit
            | Parameter::FeeMinMultiplierBps
            | Parameter::FeeMaxMultiplierBps
            | Parameter::FeeTargetUnitsPerEpoch
            | Parameter::FeeMaxUnitsPerBlock
            | Parameter::FeeAdjustmentDenominator
            | Parameter::TrafficProtocolFeeBps
            | Parameter::TrafficTreasuryShareBps
        )
    }

    /// The heading that the parameter is listed under.
    pub open spec fn group(self) -> Seq<char> {
        match self {
            Parameter::EpochSeconds => "Emission"@,
            Parameter::EpochMintAmount => "Emission"@,
            Parameter::RewardImmediateBps => "Emission"@,
            Parameter::RewardVestingSeconds => "Emission"@,
            Parameter::ValidatorWeightBps => "Emission"@,
            Parameter::ValidatorSignatureThresholdBps => "Emission"@,
            Parameter::ServiceBond => "Node lifecycle"@,
            Parameter::ServiceBondUnlockSeconds => "Node lifecycle"@,
            Parameter::OfflineSlashSeconds => "Node lifecycle"@,
            Parameter::WarmupSeconds => "Node lifecycle"@,
            Parameter::HeartbeatGraceSeconds => "Node lifecycle"@,
            Parameter::IpReuseCooldownSeconds => "Node lifecycle"@,
            Parameter::ProbeValiditySeconds => "Availability"@,
            Parameter::AvailabilitySlotSeconds => "Availability"@,
            Parameter::AvailabilityVerifierCount => "Availability"@,
            Parameter::AvailabilityQuorum => "Availability"@,
            Parameter::AvailabilityAuditRateBps => "Availability"@,
            Parameter::AvailabilityAuditorCount => "Availability"@,
            Parameter::AvailabilityAuditQuorum => "Availability"@,
            Parameter::GovernanceMinServiceSeconds => "Governance"@,
            Parameter::GovernanceBond => "Governance"@,
            Parameter::GovernanceBondMaturitySeconds => "Governance"@,
            Parameter::GovernanceBondUnlockSeconds => "Governance"@,
            Parameter::BlockIntervalSeconds => "Consensus"@,
            Parameter::ValidatorBond => "Consensus"@,
            Parameter::MaxActiveValidators => "Consensus"@,
            Parameter::MaxValidatorRotations => "Consensus"@,
            Parameter::ValidatorRotationIntervalEpochs => "Consensus"@,
            Parameter::ConsensusRoundTimeoutSeconds => "Consensus"@,
            Parameter::BaseFeePerUnit => "Fees"@,
            Parameter::FeeMinMultiplierBps => "Fees"@,
            Parameter::FeeMaxMultiplierBps => "Fees"@,
            Parameter::FeeTargetUnitsPerEpoch => "Fees"@,
            Parameter::FeeMaxUnitsPerBlock => "Fees"@,
            Parameter::FeeAdjustmentDenominator => "Fees"@,
            Parameter::TrafficProtocolFeeBps => "Fees"@,
            Parameter::TrafficTreasuryShareBps => "Fees"@,
        }
    }

    pub fn category(self) -> (r: &'static str)
        ensures
            r@ == self.group(),
    {
        match self {
            Parameter::EpochSeconds => "Emission",
            Parameter::EpochMintAmount => "Emission",
            Parameter::RewardImmediateBps => "Emission",
            Parameter::RewardVestingSeconds => "Emission",
            Parameter::ValidatorWeightBps => "Emission",
            Parameter::ValidatorSignatureThresholdBps => "Emission",
            Parameter::ServiceBond => "Node lifecycle",
            Parameter::ServiceBondUnlockSeconds => "Node lifecycle",
            Parameter::OfflineSlashSeconds => "Node lifecycle",
            Parameter::WarmupSeconds => "Node lifecycle",
            Parameter::HeartbeatGraceSeconds => "Node lifecycle",
            Parameter::IpReuseCooldownSeconds => "Node lifecycle",
            Parameter::ProbeValiditySeconds => "Availability",
            Parameter::AvailabilitySlotSeconds => "Availability",
            Parameter::AvailabilityVerifierCount => "Availability",
            Parameter::AvailabilityQuorum => "Availability",
            Parameter::AvailabilityAuditRateBps => "Availability",
            Parameter::AvailabilityAuditorCount => "Availability",
            Parameter::AvailabilityAuditQuorum => "Availability",
            Parameter::GovernanceMinServiceSeconds => "Governance",
            Parameter::GovernanceBond => "Governance",
            Parameter::GovernanceBondMaturitySeconds => "Governance",
            Parameter::GovernanceBondUnlockSeconds => "Governance",
            Parameter::BlockIntervalSeconds => "Consensus",
            Parameter::ValidatorBond => "Consensus",
            Parameter::MaxActiveValidators => "Consensus",
            Parameter::MaxValidatorRotations => "Consensus",
            Parameter::ValidatorRotationIntervalEpochs => "Consensus",
            Parameter::ConsensusRoundTimeoutSeconds => "Consensus",
            Parameter::BaseFeePerUnit => "Fees",
            Parameter::FeeMinMultiplierBps => "Fees",
            Parameter::FeeMaxMultiplierBps => "Fees",
            Parameter::FeeTargetUnitsPerEpoch => "Fees",
            Parameter::FeeMaxUnitsPerBlock => "Fees",
            Parameter::FeeAdjustmentDenominator => "Fees",
            Parameter::TrafficProtocolFeeBps => "Fees",
            Parameter::TrafficTreasuryShareBps => "Fees",
        }
    }

    /// The value of the parameter in some settings, as it is shown.
    pub open spec fn shown(self, settings: LedgerSettings) -> Seq<char> {
        match self {
            Parameter::EpochSeconds => signed_decimal(settings.epoch_seconds as int),
            Parameter::EpochMintAmount => mrk_text(settings.epoch_mint_amount as nat),
            Parameter::RewardImmediateBps => signed_decimal(settings.reward_immediate_bps as int),
            Parameter::RewardVestingSeconds => signed_decimal(settings.reward_vesting_seconds as int),
            Parameter::ValidatorWeightBps => signed_decimal(settings.validator_weight_bps as int),
            Parameter::ValidatorSignatureThresholdBps => signed_decimal(settings.validator_signature_threshold_bps as int),
            Parameter::ServiceBond => mrk_text(settings.required_service_bond as nat),
            Parameter::ServiceBondUnlockSeconds => signed_decimal(settings.service_bond_unlock_seconds as int),
            Parameter::OfflineSlashSeconds => signed_decimal(settings.offline_slash_seconds as int),
            Parameter::WarmupSeconds => signed_decimal(settings.warmup_seconds as int),
            Parameter::HeartbeatGraceSeconds => signed_decimal(settings.heartbeat_grace_seconds as int),
            Parameter::IpReuseCooldownSeconds => signed_decimal(settings.ip_reuse_cooldown_seconds as int),
            Parameter::ProbeValiditySeconds => signed_decimal(settings.probe_validity_seconds as int),
            Parameter::AvailabilitySlotSeconds => signed_decimal(settings.availability_slot_seconds as int),
            Parameter::AvailabilityVerifierCount => signed_decimal(settings.availability_verifier_count as int),
            Parameter::AvailabilityQuorum => signed_decimal(settings.availability_quorum as int),
            Parameter::AvailabilityAuditRateBps => signed_decimal(settings.availability_audit_rate_bps as int),
            Parameter::AvailabilityAuditorCount => signed_decimal(settings.availability_auditor_count as int),
            Parameter::AvailabilityAuditQuorum => signed_decimal(settings.availability_audit_quorum as int),
            Parameter::GovernanceMinServiceSeconds => signed_decimal(settings.governance_min_service_seconds as int),
            Parameter::GovernanceBond => mrk_text(settings.required_governance_bond as nat),
            Parameter::GovernanceBondMaturitySeconds => signed_decimal(settings.governance_bond_maturity_seconds as int),
            Parameter::GovernanceBondUnlockSeconds => signed_decimal(settings.governance_bond_unlock_seconds as int),
            Parameter::BlockIntervalSeconds => signed_decimal(settings.block_interval_seconds as int),
            Parameter::ValidatorBond => mrk_text(settings.validator_bond as nat),
            Parameter::MaxActiveValidators => signed_decimal(settings.max_active_validators as int),
            Parameter::MaxValidatorRotations => signed_decimal(settings.max_validator_rotations as int),
            Parameter::ValidatorRotationIntervalEpochs => signed_decimal(settings.validator_rotation_interval_epochs as int),
            Parameter::ConsensusRoundTimeoutSeconds => signed_decimal(settings.consensus_round_timeout_seconds as int),
            Parameter::BaseFeePerUnit => mrk_text(settings.fee_policy.base_fee_per_unit as nat),
            Parameter::FeeMinMultiplierBps => signed_decimal(settings.fee_policy.min_multiplier_bps as int),
            Parameter::FeeMaxMultiplierBps => signed_decimal(settings.fee_policy.max_multiplier_bps as int),
            Parameter::FeeTargetUnitsPerEpoch => signed_decimal(settings.fee_policy.target_units_per_epoch as int),
            Parameter::FeeMaxUnitsPerBlock => signed_decimal(settings.fee_policy.max_units_per_block as int),
            Parameter::FeeAdjustmentDenominator => signed_decimal(settings.fee_policy.adjustment_denominator as int),
            Parameter::TrafficProtocolFeeBps => signed_decimal(settings.fee_policy.traffic_protocol_fee_bps as int),
            Parameter::TrafficTreasuryShareBps => signed_decimal(settings.fee_policy.traffic_treasury_share_bps as int),
        }
    }

    pub fn show(self, settings: &LedgerSettings) -> (r: String)
        ensures
            r@ == self.shown(*settings),
    {
        match self {
            Parameter::EpochSeconds => i64_text(settings.epoch_seconds),
            Parameter::EpochMintAmount => format_mrk(settings.epoch_mint_amount),
            Parameter::RewardImmediateBps => u32_text(settings.reward_immediate_bps),
            Parameter::RewardVestingSeconds => i64_text(settings.reward_vesting_seconds),
            Parameter::ValidatorWeightBps => u32_text(settings.validator_weight_bps),
            Parameter::ValidatorSignatureThresholdBps => u32_text(settings.validator_signature_threshold_bps),
            Parameter::ServiceBond => format_mrk(settings.required_service_bond),
            Parameter::ServiceBondUnlockSeconds => i64_text(settings.service_bond_unlock_seconds),
            Parameter::OfflineSlashSeconds => i64_text(settings.offline_slash_seconds),
            Parameter::WarmupSeconds => i64_text(settings.warmup_seconds),
            Parameter::HeartbeatGraceSeconds => i64_text(settings.heartbeat_grace_seconds),
            Parameter::IpReuseCooldownSeconds => i64_text(settings.ip_reuse_cooldown_seconds),
            Parameter::ProbeValiditySeconds => i64_text(settings.probe_validity_seconds),
            Parameter::AvailabilitySlotSeconds => i64_text(settings.availability_slot_seconds),
            Parameter::AvailabilityVerifierCount => u32_text(settings.availability_verifier_count),
            Parameter::AvailabilityQuorum => u32_text(settings.availability_quorum),
            Parameter::AvailabilityAuditRateBps => u32_text(settings.availability_audit_rate_bps),
            Parameter::AvailabilityAuditorCount => u32_text(settings.availability_auditor_count),
            Parameter::AvailabilityAuditQuorum => u32_text(settings.availability_audit_quorum),
            Parameter::GovernanceMinServiceSeconds => u64_text(settings.governance_min_service_seconds),
            Parameter::GovernanceBond => format_mrk(settings.required_governance_bond),
            Parameter::GovernanceBondMaturitySeconds => i64_text(settings.governance_bond_maturity_seconds),
            Parameter::GovernanceBondUnlockSeconds => i64_text(settings.governance_bond_unlock_seconds),
            Parameter::BlockIntervalSeconds => i64_text(settings.block_interval_seconds),
            Parameter::ValidatorBond => format_mrk(settings.validator_bond),
            Parameter::MaxActiveValidators => u32_text(settings.max_active_validators),
            Parameter::MaxValidatorRotations => u32_text(settings.max_validator_rotations),
            Parameter::ValidatorRotationIntervalEpochs => u32_text(settings.validator_rotation_interval_epochs),
            Parameter::ConsensusRoundTimeoutSeconds => i64_text(settings.consensus_round_timeout_seconds),
            Parameter::BaseFeePerUnit => format_mrk(settings.fee_policy.base_fee_per_unit),
            Parameter::FeeMinMultiplierBps => u32_text(settings.fee_policy.min_multiplier_bps),
            Parameter::FeeMaxMultiplierBps => u32_text(settings.fee_policy.max_multiplier_bps),
            Parameter::FeeTargetUnitsPerEpoch => u64_text(settings.fee_policy.target_units_per_epoch),
            Parameter::FeeMaxUnitsPerBlock => u64_text(settings.fee_policy.max_units_per_block),
            Parameter::FeeAdjustmentDenominator => u32_text(settings.fee_policy.adjustment_denominator),
            Parameter::TrafficProtocolFeeBps => u32_text(settings.fee_policy.traffic_protocol_fee_bps),
            Parameter::TrafficTreasuryShareBps => u32_text(settings.fee_policy.traffic_treasury_share_bps),
        }
    }

    /// The value of the parameter that is in force in the current epoch, as it is shown.
    pub open spec fn in_force(self, ledger: LedgerModel) -> Seq<char> {
        match self {
            Parameter::EpochSeconds => signed_decimal(ledger.epoch_seconds_snapshot as int),
            Parameter::EpochMintAmount => mrk_text(ledger.epoch_mint_amount_snapshot as nat),
            Parameter::RewardImmediateBps => signed_decimal(ledger.reward_immediate_bps_snapshot as int),
            Parameter::RewardVestingSeconds => signed_decimal(ledger.reward_vesting_seconds_snapshot as int),
            _ => self.shown(ledger.settings),
        }
    }

    pub fn show_in_force(self, ledger: &LedgerState) -> (r: String)
        ensures
            r@ == self.in_force(ledger@),
    {
        match self {
            Parameter::EpochSeconds => i64_text(ledger.epoch_seconds_snapshot),
            Parameter::EpochMintAmount => format_mrk(ledger.epoch_mint_amount_snapshot),
            Parameter::RewardImmediateBps => u32_text(ledger.reward_immediate_bps_snapshot),
            Parameter::RewardVestingSeconds => i64_text(ledger.reward_vesting_seconds_snapshot),
            _ => self.show(&ledger.settings),
        }
    }

    /// The number that the settings hold for the parameter.
    pub open spec fn value(self, settings: LedgerSettings) -> int {
        match self {
            Parameter::EpochSeconds => settings.epoch_seconds as int,
            Parameter::EpochMintAmount => settings.epoch_mint_amount as int,
            Parameter::RewardImmediateBps => settings.reward_immediate_bps as int,
            Parameter::RewardVestingSeconds => settings.reward_vesting_seconds as int,
            Parameter::ValidatorWeightBps => settings.validator_weight_bps as int,
            Parameter::ValidatorSignatureThresholdBps => settings.validator_signature_threshold_bps as int,
            Parameter::ServiceBond => settings.required_service_bond as int,
            Parameter::ServiceBondUnlockSeconds => settings.service_bond_unlock_seconds as int,
            Parameter::OfflineSlashSeconds => settings.offline_slash_seconds as int,
            Parameter::WarmupSeconds => settings.warmup_seconds as int,
            Parameter::HeartbeatGraceSeconds => settings.heartbeat_grace_seconds as int,
            Parameter::IpReuseCooldownSeconds => settings.ip_reuse_cooldown_seconds as int,
            Parameter::ProbeValiditySeconds => settings.probe_validity_seconds as int,
            Parameter::AvailabilitySlotSeconds => settings.availability_slot_seconds as int,
            Parameter::AvailabilityVerifierCount => settings.availability_verifier_count as int,
            Parameter::AvailabilityQuorum => settings.availability_quorum as int,
            Parameter::AvailabilityAuditRateBps => settings.availability_audit_rate_bps as int,
            Parameter::AvailabilityAuditorCount => settings.availability_auditor_count as int,
            Parameter::AvailabilityAuditQuorum => settings.availability_audit_quorum as int,
            Parameter::GovernanceMinServiceSeconds => settings.governance_min_service_seconds as int,
            Parameter::GovernanceBond => settings.required_governance_bond as int,
            Parameter::GovernanceBondMaturitySeconds => settings.governance_bond_maturity_seconds as int,
            Parameter::GovernanceBondUnlockSeconds => settings.governance_bond_unlock_seconds as int,
            Parameter::BlockIntervalSeconds => settings.block_interval_seconds as int,
            Parameter::ValidatorBond => settings.validator_bond as int,
            Parameter::MaxActiveValidators => settings.max_active_validators as int,
            Parameter::MaxValidatorRotations => settings.max_validator_rotations as int,
            Parameter::ValidatorRotationIntervalEpochs => settings.validator_rotation_interval_epochs as int,
            Parameter::ConsensusRoundTimeoutSeconds => settings.consensus_round_timeout_seconds as int,
            Parameter::BaseFeePerUnit => settings.fee_policy.base_fee_per_unit as int,
            Parameter::FeeMinMultiplierBps => settings.fee_policy.min_multiplier_bps as int,
            Parameter::FeeMaxMultiplierBps => settings.fee_policy.max_multiplier_bps as int,
            Parameter::FeeTargetUnitsPerEpoch => settings.fee_policy.target_units_per_epoch as int,
            Parameter::FeeMaxUnitsPerBlock => settings.fee_policy.max_units_per_block as int,
            Parameter::FeeAdjustmentDenominator => settings.fee_policy.adjustment_denominator as int,
            Parameter::TrafficProtocolFeeBps => settings.fee_policy.traffic_protocol_fee_bps as int,
            Parameter::TrafficTreasuryShareBps => settings.fee_policy.traffic_treasury_share_bps as int,
        }
    }

    /// The settings with another value for the parameter.
    pub open spec fn replaced(self, settings: LedgerSettings, value: u128) -> LedgerSettings {
        match self {
            Parameter::EpochSeconds => LedgerSettings { epoch_seconds: value as i64, ..settings },
            Parameter::EpochMintAmount => LedgerSettings { epoch_mint_amount: value, ..settings },
            Parameter::RewardImmediateBps => LedgerSettings { reward_immediate_bps: value as u32, ..settings },
            Parameter::RewardVestingSeconds => LedgerSettings { reward_vesting_seconds: value as i64, ..settings },
            Parameter::ValidatorWeightBps => LedgerSettings { validator_weight_bps: value as u32, ..settings },
            Parameter::ValidatorSignatureThresholdBps => LedgerSettings { validator_signature_threshold_bps: value as u32, ..settings },
            Parameter::ServiceBond => LedgerSettings { required_service_bond: value, ..settings },
            Parameter::ServiceBondUnlockSeconds => LedgerSettings { service_bond_unlock_seconds: value as i64, ..settings },
            Parameter::OfflineSlashSeconds => LedgerSettings { offline_slash_seconds: value as i64, ..settings },
            Parameter::WarmupSeconds => LedgerSettings { warmup_seconds: value as i64, ..settings },
            Parameter::HeartbeatGraceSeconds => LedgerSettings { heartbeat_grace_seconds: value as i64, ..settings },
            Parameter::IpReuseCooldownSeconds => LedgerSettings { ip_reuse_cooldown_seconds: value as i64, ..settings },
            Parameter::ProbeValiditySeconds => LedgerSettings { probe_validity_seconds: value as i64, ..settings },
            Parameter::AvailabilitySlotSeconds => LedgerSettings { availability_slot_seconds: value as i64, ..settings },
            Parameter::AvailabilityVerifierCount => LedgerSettings { availability_verifier_count: value as u32, ..settings },
            Parameter::AvailabilityQuorum => LedgerSettings { availability_quorum: value as u32, ..settings },
            Parameter::AvailabilityAuditRateBps => LedgerSettings { availability_audit_rate_bps: value as u32, ..settings },
            Parameter::AvailabilityAuditorCount => LedgerSettings { availability_auditor_count: value as u32, ..settings },
            Parameter::AvailabilityAuditQuorum => LedgerSettings { availability_audit_quorum: value as u32, ..settings },
            Parameter::GovernanceMinServiceSeconds => LedgerSettings { governance_min_service_seconds: value as u64, ..settings },
            Parameter::GovernanceBond => LedgerSettings { required_governance_bond: value, ..settings },
            Parameter::GovernanceBondMaturitySeconds => LedgerSettings { governance_bond_maturity_seconds: value as i64, ..settings },
            Parameter::GovernanceBondUnlockSeconds => LedgerSettings { governance_bond_unlock_seconds: value as i64, ..settings },
            Parameter::BlockIntervalSeconds => LedgerSettings { block_interval_seconds: value as i64, ..settings },
            Parameter::ValidatorBond => LedgerSettings { validator_bond: value, ..settings },
            Parameter::MaxActiveValidators => LedgerSettings { max_active_validators: value as u32, ..settings },
            Parameter::MaxValidatorRotations => LedgerSettings { max_validator_rotations: value as u32, ..settings },
            Parameter::ValidatorRotationIntervalEpochs => LedgerSettings { validator_rotation_interval_epochs: value as u32, ..settings },
            Parameter::ConsensusRoundTimeoutSeconds => LedgerSettings { consensus_round_timeout_seconds: value as i64, ..settings },
            Parameter::BaseFeePerUnit => LedgerSettings {
                fee_policy: FeePolicy { base_fee_per_unit: value, ..settings.fee_policy },
                ..settings
            },
            Parameter::FeeMinMultiplierBps => LedgerSettings {
                fee_policy: FeePolicy { min_multiplier_bps: value as u32, ..settings.fee_policy },
                ..settings
            },
            Parameter::FeeMaxMultiplierBps => LedgerSettings {
                fee_policy: FeePolicy { max_multiplier_bps: value as u32, ..settings.fee_policy },
                ..settings
            },
            Parameter::FeeTargetUnitsPerEpoch => LedgerSettings {
                fee_policy: FeePolicy { target_units_per_epoch: value as u64, ..settings.fee_policy },
                ..settings
            },
            Parameter::FeeMaxUnitsPerBlock => LedgerSettings {
                fee_policy: FeePolicy { max_units_per_block: value as u64, ..settings.fee_policy },
                ..settings
            },
            Parameter::FeeAdjustmentDenominator => LedgerSettings {
                fee_policy: FeePolicy { adjustment_denominator: value as u32, ..settings.fee_policy },
                ..settings
            },
            Parameter::TrafficProtocolFeeBps => LedgerSettings {
                fee_policy: FeePolicy { traffic_protocol_fee_bps: value as u32, ..settings.fee_policy },
                ..settings
            },
            Parameter::TrafficTreasuryShareBps => LedgerSettings {
                fee_policy: FeePolicy { traffic_treasury_share_bps: value as u32, ..settings.fee_policy },
                ..settings
            },
        }
    }

    /// Puts another value in the settings.
    pub fn replace(self, settings: &mut LedgerSettings, value: u128)
        requires
            self.range_of() matches ParameterRange::Number { min, max } ==> value <= max,
        ensures
            *final(settings) == self.replaced(*old(settings), value),
            self.value(*final(settings)) == value,
    {
        match self {
            Parameter::EpochSeconds => {
                settings.epoch_seconds = value as i64;
            },
            Parameter::EpochMintAmount => {
                settings.epoch_mint_amount = value;
            },
            Parameter::RewardImmediateBps => {
                settings.reward_immediate_bps = value as u32;
            },
            Parameter::RewardVestingSeconds => {
                settings.reward_vesting_seconds = value as i64;
            },
            Parameter::ValidatorWeightBps => {
                settings.validator_weight_bps = value as u32;
            },
            Parameter::ValidatorSignatureThresholdBps => {
                settings.validator_signature_threshold_bps = value as u32;
            },
            Parameter::ServiceBond => {
                settings.required_service_bond = value;
            },
            Parameter::ServiceBondUnlockSeconds => {
                settings.service_bond_unlock_seconds = value as i64;
            },
            Parameter::OfflineSlashSeconds => {
                settings.offline_slash_seconds = value as i64;
            },
            Parameter::WarmupSeconds => {
                settings.warmup_seconds = value as i64;
            },
            Parameter::HeartbeatGraceSeconds => {
                settings.heartbeat_grace_seconds = value as i64;
            },
            Parameter::IpReuseCooldownSeconds => {
                settings.ip_reuse_cooldown_seconds = value as i64;
            },
            Parameter::ProbeValiditySeconds => {
                settings.probe_validity_seconds = value as i64;
            },
            Parameter::AvailabilitySlotSeconds => {
                settings.availability_slot_seconds = value as i64;
            },
            Parameter::AvailabilityVerifierCount => {
                settings.availability_verifier_count = value as u32;
            },
            Parameter::AvailabilityQuorum => {
                settings.availability_quorum = value as u32;
            },
            Parameter::AvailabilityAuditRateBps => {
                settings.availability_audit_rate_bps = value as u32;
            },
            Parameter::AvailabilityAuditorCount => {
                settings.availability_auditor_count = value as u32;
            },
            Parameter::AvailabilityAuditQuorum => {
                settings.availability_audit_quorum = value as u32;
            },
            Parameter::GovernanceMinServiceSeconds => {
                settings.governance_min_service_seconds = value as u64;
            },
            Parameter::GovernanceBond => {
                settings.required_governance_bond = value;
            },
            Parameter::GovernanceBondMaturitySeconds => {
                settings.governance_bond_maturity_seconds = value as i64;
            },
            Parameter::GovernanceBondUnlockSeconds => {
                settings.governance_bond_unlock_seconds = value as i64;
            },
            Parameter::BlockIntervalSeconds => {
                settings.block_interval_seconds = value as i64;
            },
            Parameter::ValidatorBond => {
                settings.validator_bond = value;
            },
            Parameter::MaxActiveValidators => {
                settings.max_active_validators = value as u32;
            },
            Parameter::MaxValidatorRotations => {
                settings.max_validator_rotations = value as u32;
            },
            Parameter::ValidatorRotationIntervalEpochs => {
                settings.validator_rotation_interval_epochs = value as u32;
            },
            Parameter::ConsensusRoundTimeoutSeconds => {
                settings.consensus_round_timeout_seconds = value as i64;
            },
            Parameter::BaseFeePerUnit => {
                settings.fee_policy.base_fee_per_unit = value;
            },
            Parameter::FeeMinMultiplierBps => {
                settings.fee_policy.min_multiplier_bps = value as u32;
            },
            Parameter::FeeMaxMultiplierBps => {
                settings.fee_policy.max_multiplier_bps = value as u32;
            },
            Parameter::FeeTargetUnitsPerEpoch => {
                settings.fee_policy.target_units_per_epoch = value as u64;
            },
            Parameter::FeeMaxUnitsPerBlock => {
                settings.fee_policy.max_units_per_block = value as u64;
            },
            Parameter::FeeAdjustmentDenominator => {
                settings.fee_policy.adjustment_denominator = value as u32;
            },
            Parameter::TrafficProtocolFeeBps => {
                settings.fee_policy.traffic_protocol_fee_bps = value as u32;
            },
            Parameter::TrafficTreasuryShareBps => {
                settings.fee_policy.traffic_treasury_share_bps = value as u32;
            },
        }
    }

    /// The parameter of a name.
    pub open spec fn of_title(name: Seq<char>) -> Option<Parameter> {
        if name == "epoch-seconds"@ {
            Some(Parameter::EpochSeconds)
        } else if name == "epoch-mint-amount"@ {
            Some(Parameter::EpochMintAmount)
        } else if name == "reward-immediate-bps"@ {
            Some(Parameter::RewardImmediateBps)
        } else if name == "reward-vesting-seconds"@ {
            Some(Parameter::RewardVestingSeconds)
        } else if name == "validator-weight-bps"@ {
            Some(Parameter::ValidatorWeightBps)
        } else if name == "validator-signature-threshold-bps"@ {
            Some(Parameter::ValidatorSignatureThresholdBps)
        } else if name == "service-bond"@ {
            Some(Parameter::ServiceBond)
        } else if name == "service-bond-unlock-seconds"@ {
            Some(Parameter::ServiceBondUnlockSeconds)
        } else if name == "offline-slash-seconds"@ {
            Some(Parameter::OfflineSlashSeconds)
        } else if name == "warmup-seconds"@ {
            Some(Parameter::WarmupSeconds)
        } else if name == "heartbeat-grace-seconds"@ {
            Some(Parameter::HeartbeatGraceSeconds)
        } else if name == "ip-reuse-cooldown-seconds"@ {
            Some(Parameter::IpReuseCooldownSeconds)
        } else if name == "probe-validity-seconds"@ {
            Some(Parameter::ProbeValiditySeconds)
        } else if name == "availability-slot-seconds"@ {
            Some(Parameter::AvailabilitySlotSeconds)
        } else if name == "availability-verifier-count"@ {
            Some(Parameter::AvailabilityVerifierCount)
        } else if name == "availability-quorum"@ {
            Some(Parameter::AvailabilityQuorum)
        } else if name == "availability-audit-rate-bps"@ {
            Some(Parameter::AvailabilityAuditRateBps)
        } else if name == "availability-auditor-count"@ {
            Some(Parameter::AvailabilityAuditorCount)
        } else if name == "availability-audit-quorum"@ {
            Some(Parameter::AvailabilityAuditQuorum)
        } else if name == "governance-min-service-seconds"@ {
            Some(Parameter::GovernanceMinServiceSeconds)
        } else if name == "governance-bond"@ {
            Some(Parameter::GovernanceBond)
        } else if name == "governance-bond-maturity-seconds"@ {
            Some(Parameter::GovernanceBondMaturitySeconds)
        } else if name == "governance-bond-unlock-seconds"@ {
            Some(Parameter::GovernanceBondUnlockSeconds)
        } else if name == "block-interval-seconds"@ {
            Some(Parameter::BlockIntervalSeconds)
        } else if name == "validator-bond"@ {
            Some(Parameter::ValidatorBond)
        } else if name == "max-active-validators"@ {
            Some(Parameter::MaxActiveValidators)
        } else if name == "max-validator-rotations"@ {
            Some(Parameter::MaxValidatorRotations)
        } else if name == "validator-rotation-interval-epochs"@ {
            Some(Parameter::ValidatorRotationIntervalEpochs)
        } else if name == "consensus-round-timeout-seconds"@ {
            Some(Parameter::ConsensusRoundTimeoutSeconds)
        } else if name == "base-fee-per-unit"@ {
            Some(Parameter::BaseFeePerUnit)
        } else if name == "fee-min-multiplier-bps"@ {
            Some(Parameter::FeeMinMultiplierBps)
        } else if name == "fee-max-multiplier-bps"@ {
            Some(Parameter::FeeMaxMultiplierBps)
        } else if name == "fee-target-units-per-epoch"@ {
            Some(Parameter::FeeTargetUnitsPerEpoch)
        } else if name == "fee-max-units-per-block"@ {
            Some(Parameter::FeeMaxUnitsPerBlock)
        } else if name == "fee-adjustment-denominator"@ {
            Some(Parameter::FeeAdjustmentDenominator)
        } else if name == "traffic-protocol-fee-bps"@ {
            Some(Parameter::TrafficProtocolFeeBps)
        } else if name == "traffic-treasury-share-bps"@ {
            Some(Parameter::TrafficTreasuryShareBps)
        } else {
            None
        }
    }

    /// Looks a parameter up by its name.
    pub fn named(name: &str) -> (r: Option<Parameter>)
        ensures
            r == Parameter::of_title(name@),
            r matches Some(parameter) ==> parameter.title() == name@,
    {
        if text_same(name, "epoch-seconds") {
            Some(Parameter::EpochSeconds)
        } else if text_same(name, "epoch-mint-amount") {
            Some(Parameter::EpochMintAmount)
        } else if text_same(name, "reward-immediate-bps") {
            Some(Parameter::RewardImmediateBps)
        } else if text_same(name, "reward-vesting-seconds") {
            Some(Parameter::RewardVestingSeconds)
        } else if text_same(name, "validator-weight-bps") {
            Some(Parameter::ValidatorWeightBps)
        } else if text_same(name, "validator-signature-threshold-bps") {
            Some(Parameter::ValidatorSignatureThresholdBps)
        } else if text_same(name, "service-bond") {
            Some(Parameter::ServiceBond)
        } else if text_same(name, "service-bond-unlock-seconds") {
            Some(Parameter::ServiceBondUnlockSeconds)
        } else if text_same(name, "offline-slash-seconds") {
            Some(Parameter::OfflineSlashSeconds)
        } else if text_same(name, "warmup-seconds") {
            Some(Parameter::WarmupSeconds)
        } else if text_same(name, "heartbeat-grace-seconds") {
            Some(Parameter::HeartbeatGraceSeconds)
        } else if text_same(name, "ip-reuse-cooldown-seconds") {
            Some(Parameter::IpReuseCooldownSeconds)
        } else if text_same(name, "probe-validity-seconds") {
            Some(Parameter::ProbeValiditySeconds)
        } else if text_same(name, "availability-slot-seconds") {
            Some(Parameter::AvailabilitySlotSeconds)
        } else if text_same(name, "availability-verifier-count") {
            Some(Parameter::AvailabilityVerifierCount)
        } else if text_same(name, "availability-quorum") {
            Some(Parameter::AvailabilityQuorum)
        } else if text_same(name, "availability-audit-rate-bps") {
            Some(Parameter::AvailabilityAuditRateBps)
        } else if text_same(name, "availability-auditor-count") {
            Some(Parameter::AvailabilityAuditorCount)
        } else if text_same(name, "availability-audit-quorum") {
            Some(Parameter::AvailabilityAuditQuorum)
        } else if text_same(name, "governance-min-service-seconds") {
            Some(Parameter::GovernanceMinServiceSeconds)
        } else if text_same(name, "governance-bond") {
            Some(Parameter::GovernanceBond)
        } else if text_same(name, "governance-bond-maturity-seconds") {
            Some(Parameter::GovernanceBondMaturitySeconds)
        } else if text_same(name, "governance-bond-unlock-seconds") {
            Some(Parameter::GovernanceBondUnlockSeconds)
        } else if text_same(name, "block-interval-seconds") {
            Some(Parameter::BlockIntervalSeconds)
        } else if text_same(name, "validator-bond") {
            Some(Parameter::ValidatorBond)
        } else if text_same(name, "max-active-validators") {
            Some(Parameter::MaxActiveValidators)
        } else if text_same(name, "max-validator-rotations") {
            Some(Parameter::MaxValidatorRotations)
        } else if text_same(name, "validator-rotation-interval-epochs") {
            Some(Parameter::ValidatorRotationIntervalEpochs)
        } else if text_same(name, "consensus-round-timeout-seconds") {
            Some(Parameter::ConsensusRoundTimeoutSeconds)
        } else if text_same(name, "base-fee-per-unit") {
            Some(Parameter::BaseFeePerUnit)
        } else if text_same(name, "fee-min-multiplier-bps") {
            Some(Parameter::FeeMinMultiplierBps)
        } else if text_same(name, "fee-max-multiplier-bps") {
            Some(Parameter::FeeMaxMultiplierBps)
        } else if text_same(name, "fee-target-units-per-epoch") {
            Some(Parameter::FeeTargetUnitsPerEpoch)
        } else if text_same(name, "fee-max-units-per-block") {
            Some(Parameter::FeeMaxUnitsPerBlock)
        } else if text_same(name, "fee-adjustment-denominator") {
            Some(Parameter::FeeAdjustmentDenominator)
        } else if text_same(name, "traffic-protocol-fee-bps") {
            Some(Parameter::TrafficProtocolFeeBps)
        } else if text_same(name, "traffic-treasury-share-bps") {
            Some(Parameter::TrafficTreasuryShareBps)
        } else {
            None
        }
    }

    /// All parameters, in the order in which they are listed.
    pub open spec fn listed() -> Seq<Parameter> {
        seq![
            Parameter::EpochSeconds,
            Parameter::EpochMintAmount,
            Parameter::RewardImmediateBps,
            Parameter::RewardVestingSeconds,
            Parameter::ValidatorWeightBps,
            Parameter::ValidatorSignatureThresholdBps,
            Parameter::ServiceBond,
            Parameter::ServiceBondUnlockSeconds,
            Parameter::OfflineSlashSeconds,
            Parameter::WarmupSeconds,
            Parameter::HeartbeatGraceSeconds,
            Parameter::IpReuseCooldownSeconds,
            Parameter::ProbeValiditySeconds,
            Parameter::AvailabilitySlotSeconds,
            Parameter::AvailabilityVerifierCount,
            Parameter::AvailabilityQuorum,
            Parameter::AvailabilityAuditRateBps,
            Parameter::AvailabilityAuditorCount,
            Parameter::AvailabilityAuditQuorum,
            Parameter::GovernanceMinServiceSeconds,
            Parameter::GovernanceBond,
            Parameter::GovernanceBondMaturitySeconds,
            Parameter::GovernanceBondUnlockSeconds,
            Parameter::BlockIntervalSeconds,
            Parameter::ValidatorBond,
            Parameter::MaxActiveValidators,
            Parameter::MaxValidatorRotations,
            Parameter::ValidatorRotationIntervalEpochs,
            Parameter::ConsensusRoundTimeoutSeconds,
            Parameter::BaseFeePerUnit,
            Parameter::FeeMinMultiplierBps,
            Parameter::FeeMaxMultiplierBps,
            Parameter::FeeTargetUnitsPerEpoch,
            Parameter::FeeMaxUnitsPerBlock,
            Parameter::FeeAdjustmentDenominator,
            Parameter::TrafficProtocolFeeBps,
            Parameter::TrafficTreasuryShareBps,
        ]
    }

    pub fn all() -> (r: Vec<Parameter>)
        ensures
            r@ == Parameter::listed(),
    {
        let r: Vec<Parameter> = vec![
            Parameter::EpochSeconds,
            Parameter::EpochMintAmount,
            Parameter::RewardImmediateBps,
            Parameter::RewardVestingSeconds,
            Parameter::ValidatorWeightBps,
            Parameter::ValidatorSignatureThresholdBps,
            Parameter::ServiceBond,
            Parameter::ServiceBondUnlockSeconds,
            Parameter::OfflineSlashSeconds,
            Parameter::WarmupSeconds,
            Parameter::HeartbeatGraceSeconds,
            Parameter::IpReuseCooldownSeconds,
            Parameter::ProbeValiditySeconds,
            Parameter::AvailabilitySlotSeconds,
            Parameter::AvailabilityVerifierCount,
            Parameter::AvailabilityQuorum,
            Parameter::AvailabilityAuditRateBps,
            Parameter::AvailabilityAuditorCount,
            Parameter::AvailabilityAuditQuorum,
            Parameter::GovernanceMinServiceSeconds,
            Parameter::GovernanceBond,
            Parameter::GovernanceBondMaturitySeconds,
            Parameter::GovernanceBondUnlockSeconds,
            Parameter::BlockIntervalSeconds,
            Parameter::ValidatorBond,
            Parameter::MaxActiveValidators,
            Parameter::MaxValidatorRotations,
            Parameter::ValidatorRotationIntervalEpochs,
            Parameter::ConsensusRoundTimeoutSeconds,
            Parameter::BaseFeePerUnit,
            Parameter::FeeMinMultiplierBps,
            Parameter::FeeMaxMultiplierBps,
            Parameter::FeeTargetUnitsPerEpoch,
            Parameter::FeeMaxUnitsPerBlock,
            Parameter::FeeAdjustmentDenominator,
            Parameter::TrafficProtocolFeeBps,
            Parameter::TrafficTreasuryShareBps,
        ];
        assert(r@ =~= Parameter::listed());
        r
    }
}

impl Parameter {
    /// Every parameter is listed.
    pub proof fn listed_is_complete(parameter: Parameter)
        ensures
            exists|i: int|
                0 <= i < Parameter::listed().len() && #[trigger] Parameter::listed()[i] == parameter,
    {
        let at = match parameter {
            Parameter::EpochSeconds => 0int,
            Parameter::EpochMintAmount => 1int,
            Parameter::RewardImmediateBps => 2int,
            Parameter::RewardVestingSeconds => 3int,
            Parameter::ValidatorWeightBps => 4int,
            Parameter::ValidatorSignatureThresholdBps => 5int,
            Parameter::ServiceBond => 6int,
            Parameter::ServiceBondUnlockSeconds => 7int,
            Parameter::OfflineSlashSeconds => 8int,
            Parameter::WarmupSeconds => 9int,
            Parameter::HeartbeatGraceSeconds => 10int,
            Parameter::IpReuseCooldownSeconds => 11int,
            Parameter::ProbeValiditySeconds => 12int,
            Parameter::AvailabilitySlotSeconds => 13int,
            Parameter::AvailabilityVerifierCount => 14int,
            Parameter::AvailabilityQuorum => 15int,
            Parameter::AvailabilityAuditRateBps => 16int,
            Parameter::AvailabilityAuditorCount => 17int,
            Parameter::AvailabilityAuditQuorum => 18int,
            Parameter::GovernanceMinServiceSeconds => 19int,
            Parameter::GovernanceBond => 20int,
            Parameter::GovernanceBondMaturitySeconds => 21int,
            Parameter::GovernanceBondUnlockSeconds => 22int,
            Parameter::BlockIntervalSeconds => 23int,
            Parameter::ValidatorBond => 24int,
            Parameter::MaxActiveValidators => 25int,
            Parameter::MaxValidatorRotations => 26int,
            Parameter::ValidatorRotationIntervalEpochs => 27int,
            Parameter::ConsensusRoundTimeoutSeconds => 28int,
            Parameter::BaseFeePerUnit => 29int,
            Parameter::FeeMinMultiplierBps => 30int,
            Parameter::FeeMaxMultiplierBps => 31int,
            Parameter::FeeTargetUnitsPerEpoch => 32int,
            Parameter::FeeMaxUnitsPerBlock => 33int,
            Parameter::FeeAdjustmentDenominator => 34int,
            Parameter::TrafficProtocolFeeBps => 35int,
            Parameter::TrafficTreasuryShareBps => 36int,
        };
        assert(Parameter::listed()[at] == parameter);
    }
}

/// Changing one parameter leaves every other as it was.
#[verifier::rlimit(60)]
#[verifier::spinoff_prover]
pub proof fn replacing_keeps_other_parameters(
    settings: LedgerSettings,
    changed: Parameter,
    other: Parameter,
    value: u128,
)
    requires
        changed != other,
    ensures
        other.value(changed.replaced(settings, value)) == other.value(settings),
        other.shown(changed.replaced(settings, value)) == other.shown(settings),
{
}

} // verus!
