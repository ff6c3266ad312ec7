use vstd::prelude::*;

use crate::model::{
    AccountState, AvailabilitySlotRecord, BlockRecord, ConsensusVote, DoubleSignEvidence, Field,
    GenesisAuthority, GovernanceActionRecord, GovernanceProposalRecord,
    GovernanceValidatorVoteRecord, GovernanceVoteRecord, IpSlotRecord, MemberCredential,
    MemberRecord, NetworkRecord, NodeRecord, Payload, PaymentAuthorizationRecord, ProbePayload,
    ReceiverReceipt, RewardVestingBucket, SenderCheckpoint, TrafficDirectionSettlement,
    TreasurySpendRecord,
};
use crate::proposals::same_action;
use crate::proposing::same_texts;
use crate::sequence::same_ids;
use crate::table::Same;
use crate::text::text_same;

verus! {

impl Same for i64 {
    fn same(&self, other: &i64) -> (r: bool) {
        *self == *other
    }
}

impl Same for u32 {
    fn same(&self, other: &u32) -> (r: bool) {
        *self == *other
    }
}

impl<T: Same> Same for Option<T> {
    fn same(&self, other: &Option<T>) -> (r: bool) {
        match (self, other) {
            (Some(a), Some(b)) => a.same(b),
            (None, None) => true,
            _ => false,
        }
    }
}

impl<T: Same> Same for Vec<T> {
    fn same(&self, other: &Vec<T>) -> (r: bool) {
        if self.len() != other.len() {
            assert(self.deep_view().len() != other.deep_view().len());
            return false;
        }
        let mut i: usize = 0;
        while i < self.len()
            invariant
                i <= self@.len(),
                self@.len() == other@.len(),
                forall|j: int| 0 <= j < i ==> self.deep_view()[j] == other.deep_view()[j],
            decreases self@.len() - i,
        {
            if !self[i].same(&other[i]) {
                assert(self.deep_view()[i as int] != other.deep_view()[i as int]);
                return false;
            }
            i = i + 1;
        }
        assert(self.deep_view() =~= other.deep_view());
        true
    }
}

impl Same for IpSlotRecord {
    fn same(&self, other: &IpSlotRecord) -> (r: bool) {
        self.node_id == other.node_id && self.bound_at == other.bound_at && self.released_at.same(
            &other.released_at,
        )
    }
}

fn same_buckets(a: &Vec<RewardVestingBucket>, b: &Vec<RewardVestingBucket>) -> (r: bool)
    ensures
        r == (a@ == b@),
{
    if a.len() != b.len() {
        return false;
    }
    let mut i: usize = 0;
    while i < a.len()
        invariant
            i <= a@.len(),
            a@.len() == b@.len(),
            forall|j: int| 0 <= j < i ==> a@[j] == b@[j],
        decreases a@.len() - i,
    {
        if a[i] != b[i] {
            return false;
        }
        i = i + 1;
    }
    assert(a@ =~= b@);
    true
}

impl Same for AccountState {
    fn same(&self, other: &AccountState) -> (r: bool) {
        self.balance == other.balance
            && self.nonce == other.nonce
            && self.public_key.same(&other.public_key)
            && same_texts(&self.operation_ids, &other.operation_ids)
    }
}

impl Same for MemberRecord {
    fn same(&self, other: &MemberRecord) -> (r: bool) {
        text_same(self.name.as_str(), other.name.as_str())
            && text_same(self.member_id.as_str(), other.member_id.as_str())
            && text_same(self.public_key.as_str(), other.public_key.as_str())
            && self.serial == other.serial
            && self.issued_at == other.issued_at
            && self.expires_at == other.expires_at
            && self.revoked_at.same(&other.revoked_at)
            && text_same(self.credential_signature.as_str(), other.credential_signature.as_str())
    }
}

impl Same for NetworkRecord {
    fn same(&self, other: &NetworkRecord) -> (r: bool) {
        text_same(self.network_id.as_str(), other.network_id.as_str())
            && text_same(self.commitment.as_str(), other.commitment.as_str())
            && text_same(self.alias.as_str(), other.alias.as_str())
            && text_same(self.owner_address.as_str(), other.owner_address.as_str())
            && text_same(self.owner_public_key.as_str(), other.owner_public_key.as_str())
            && self.created_at == other.created_at
            && self.escrow_balance == other.escrow_balance
            && self.next_member_serial == other.next_member_serial
            && self.members.same(&other.members)
            && self.spending_policy == other.spending_policy
    }
}

impl Same for MemberCredential {
    fn same(&self, other: &MemberCredential) -> (r: bool) {
        self.version == other.version
            && text_same(self.network_id.as_str(), other.network_id.as_str())
            && text_same(self.member_id.as_str(), other.member_id.as_str())
            && text_same(self.member_public_key.as_str(), other.member_public_key.as_str())
            && same_texts(&self.permissions, &other.permissions)
            && self.max_connections == other.max_connections
            && self.serial == other.serial
            && self.issued_at == other.issued_at
            && self.expires_at == other.expires_at
            && text_same(self.owner_signature.as_str(), other.owner_signature.as_str())
    }
}

impl Same for SenderCheckpoint {
    fn same(&self, other: &SenderCheckpoint) -> (r: bool) {
        text_same(self.ledger_id.as_str(), other.ledger_id.as_str())
            && self.protocol_version == other.protocol_version
            && self.node_id == other.node_id
            && text_same(self.authorization_id.as_str(), other.authorization_id.as_str())
            && text_same(self.session_id.as_str(), other.session_id.as_str())
            && self.direction == other.direction
            && self.sequence == other.sequence
            && self.cumulative_sent_bytes == other.cumulative_sent_bytes
            && text_same(self.transcript_hash.as_str(), other.transcript_hash.as_str())
            && self.checkpoint_at == other.checkpoint_at
            && text_same(self.sender_member_id.as_str(), other.sender_member_id.as_str())
            && self.final_checkpoint == other.final_checkpoint
            && text_same(self.sender_signature.as_str(), other.sender_signature.as_str())
    }
}

impl Same for ReceiverReceipt {
    fn same(&self, other: &ReceiverReceipt) -> (r: bool) {
        text_same(self.ledger_id.as_str(), other.ledger_id.as_str())
            && self.protocol_version == other.protocol_version
            && self.node_id == other.node_id
            && text_same(self.authorization_id.as_str(), other.authorization_id.as_str())
            && text_same(self.session_id.as_str(), other.session_id.as_str())
            && self.direction == other.direction
            && self.sequence == other.sequence
            && self.cumulative_received_bytes == other.cumulative_received_bytes
            && text_same(self.transcript_hash.as_str(), other.transcript_hash.as_str())
            && text_same(self.sender_checkpoint_hash.as_str(), other.sender_checkpoint_hash.as_str())
            && self.received_at == other.received_at
            && text_same(self.receiver_member_id.as_str(), other.receiver_member_id.as_str())
            && text_same(self.receiver_signature.as_str(), other.receiver_signature.as_str())
    }
}

impl Same for ProbePayload {
    fn same(&self, other: &ProbePayload) -> (r: bool) {
        text_same(self.protocol.as_str(), other.protocol.as_str())
            && self.node_id == other.node_id
            && text_same(self.relay_public_key.as_str(), other.relay_public_key.as_str())
            && self.timestamp == other.timestamp
            && text_same(self.challenge.as_str(), other.challenge.as_str())
            && text_same(self.signature.as_str(), other.signature.as_str())
    }
}

impl Same for NodeRecord {
    fn same(&self, other: &NodeRecord) -> (r: bool) {
        self.node_id == other.node_id
            && self.previous_node_id.same(&other.previous_node_id)
            && text_same(self.name.as_str(), other.name.as_str())
            && text_same(self.owner_address.as_str(), other.owner_address.as_str())
            && text_same(self.owner_public_key.as_str(), other.owner_public_key.as_str())
            && text_same(self.relay_public_key.as_str(), other.relay_public_key.as_str())
            && text_same(self.reward_address.as_str(), other.reward_address.as_str())
            && text_same(self.endpoint.as_str(), other.endpoint.as_str())
            && text_same(self.reward_ip.as_str(), other.reward_ip.as_str())
            && text_same(self.ip_slot.as_str(), other.ip_slot.as_str())
            && self.price_per_gib == other.price_per_gib
            && self.status == other.status
            && self.registered_at == other.registered_at
            && self.warmup_until == other.warmup_until
            && self.active_since.same(&other.active_since)
            && self.last_heartbeat.same(&other.last_heartbeat)
            && self.last_probe_success.same(&other.last_probe_success)
            && self.probe_success_count == other.probe_success_count
            && self.last_relay_receipt_at.same(&other.last_relay_receipt_at)
            && self.eligible_seconds_by_epoch.same(&other.eligible_seconds_by_epoch)
            && self.total_eligible_seconds == other.total_eligible_seconds
            && self.service_bond == other.service_bond
            && self.service_bond_unlock_at.same(&other.service_bond_unlock_at)
            && self.governance_bond == other.governance_bond
            && self.governance_bonded_at.same(&other.governance_bonded_at)
            && self.governance_exit_requested_at.same(&other.governance_exit_requested_at)
            && self.governance_bond_unlock_at.same(&other.governance_bond_unlock_at)
            && self.offline_slashed_at.same(&other.offline_slashed_at)
            && self.offline_slashed_service_bond == other.offline_slashed_service_bond
            && self.offline_slashed_vesting_reward == other.offline_slashed_vesting_reward
            && self.claimable_reward == other.claimable_reward
            && same_buckets(&self.reward_vesting_buckets, &other.reward_vesting_buckets)
            && self.validator == other.validator
            && self.validator_signature_rate_bps == other.validator_signature_rate_bps
            && self.validator_bond == other.validator_bond
            && self.validator_candidate_since.same(&other.validator_candidate_since)
            && self.validator_last_epoch.same(&other.validator_last_epoch)
            && self.validator_consecutive_epochs == other.validator_consecutive_epochs
            && self.validator_exit_requested_at.same(&other.validator_exit_requested_at)
            && self.validator_bond_unlock_at.same(&other.validator_bond_unlock_at)
    }
}

impl Same for TrafficDirectionSettlement {
    fn same(&self, other: &TrafficDirectionSettlement) -> (r: bool) {
        self.settled_sequence == other.settled_sequence
            && self.settled_payload_bytes == other.settled_payload_bytes
            && self.settled_amount == other.settled_amount
            && self.settled_transcript_hash.same(&other.settled_transcript_hash)
            && self.last_receipt_hash.same(&other.last_receipt_hash)
            && self.last_receipt_at.same(&other.last_receipt_at)
            && self.finalized == other.finalized
    }
}

impl Same for PaymentAuthorizationRecord {
    fn same(&self, other: &PaymentAuthorizationRecord) -> (r: bool) {
        text_same(self.authorization_id.as_str(), other.authorization_id.as_str())
            && text_same(self.network_commitment.as_str(), other.network_commitment.as_str())
            && text_same(self.network_id.as_str(), other.network_id.as_str())
            && text_same(self.payer_address.as_str(), other.payer_address.as_str())
            && self.node_id == other.node_id
            && text_same(self.sender_member_id.as_str(), other.sender_member_id.as_str())
            && text_same(self.receiver_member_id.as_str(), other.receiver_member_id.as_str())
            && text_same(self.session_id.as_str(), other.session_id.as_str())
            && self.price_per_gib == other.price_per_gib
            && self.max_amount == other.max_amount
            && self.reserved_remaining == other.reserved_remaining
            && self.settled_amount == other.settled_amount
            && self.traffic_protocol_fee_bps == other.traffic_protocol_fee_bps
            && self.traffic_treasury_share_bps == other.traffic_treasury_share_bps
            && self.created_at == other.created_at
            && self.valid_until == other.valid_until
            && self.claim_until == other.claim_until
            && self.refunded_at.same(&other.refunded_at)
            && self.closed_at.same(&other.closed_at)
            && self.sender_to_receiver.same(&other.sender_to_receiver)
            && self.receiver_to_sender.same(&other.receiver_to_sender)
            && text_same(self.initiator_member_id.as_str(), other.initiator_member_id.as_str())
            && self.spending_policy_revision == other.spending_policy_revision
    }
}

impl Same for GenesisAuthority {
    fn same(&self, other: &GenesisAuthority) -> (r: bool) {
        self.node_id == other.node_id
            && text_same(self.owner_address.as_str(), other.owner_address.as_str())
            && text_same(self.owner_public_key.as_str(), other.owner_public_key.as_str())
            && self.established_at == other.established_at
    }
}

impl Same for TreasurySpendRecord {
    fn same(&self, other: &TreasurySpendRecord) -> (r: bool) {
        self.proposal_id == other.proposal_id
            && text_same(self.operation_id.as_str(), other.operation_id.as_str())
            && text_same(self.recipient.as_str(), other.recipient.as_str())
            && self.amount == other.amount
            && text_same(self.reference_hash.as_str(), other.reference_hash.as_str())
            && self.executed_at == other.executed_at
    }
}

impl Same for AvailabilitySlotRecord {
    fn same(&self, other: &AvailabilitySlotRecord) -> (r: bool) {
        self.epoch == other.epoch
            && self.target_node_id == other.target_node_id
            && self.slot == other.slot
            && self.mode == other.mode
            && same_ids(&self.selected_primary_ids, &other.selected_primary_ids)
            && self.primary_operation_ids.same(&other.primary_operation_ids)
            && self.primary_quorum == other.primary_quorum
            && self.audit_required == other.audit_required
            && same_ids(&self.selected_auditor_ids, &other.selected_auditor_ids)
            && self.audit_operation_ids.same(&other.audit_operation_ids)
            && self.audit_quorum == other.audit_quorum
            && self.credited_seconds == other.credited_seconds
            && self.credited_at.same(&other.credited_at)
    }
}

impl Same for ConsensusVote {
    fn same(&self, other: &ConsensusVote) -> (r: bool) {
        text_same(self.ledger_id.as_str(), other.ledger_id.as_str())
            && self.height == other.height
            && self.round == other.round
            && self.vote_type == other.vote_type
            && self.block_hash.same(&other.block_hash)
            && text_same(self.validator_set_hash.as_str(), other.validator_set_hash.as_str())
            && self.validator_node_id == other.validator_node_id
            && self.timestamp == other.timestamp
            && text_same(self.signature.as_str(), other.signature.as_str())
    }
}

impl Same for BlockRecord {
    fn same(&self, other: &BlockRecord) -> (r: bool) {
        self.version == other.version
            && text_same(self.ledger_id.as_str(), other.ledger_id.as_str())
            && self.height == other.height
            && text_same(self.previous_block_hash.as_str(), other.previous_block_hash.as_str())
            && self.timestamp == other.timestamp
            && self.producer_node_id == other.producer_node_id
            && text_same(self.producer_owner_address.as_str(), other.producer_owner_address.as_str())
            && same_texts(&self.operation_ids, &other.operation_ids)
            && text_same(self.state_root.as_str(), other.state_root.as_str())
            && text_same(self.block_hash.as_str(), other.block_hash.as_str())
            && text_same(self.producer_signature.as_str(), other.producer_signature.as_str())
            && self.consensus_mode == other.consensus_mode
            && self.consensus_round == other.consensus_round
            && text_same(self.validator_set_hash.as_str(), other.validator_set_hash.as_str())
            && self.commit_signatures.same(&other.commit_signatures)
            && self.validator_epoch == other.validator_epoch
            && same_ids(&self.validator_node_ids, &other.validator_node_ids)
    }
}

impl Same for DoubleSignEvidence {
    fn same(&self, other: &DoubleSignEvidence) -> (r: bool) {
        self.validator_node_id == other.validator_node_id
            && self.height == other.height
            && self.round == other.round
            && self.vote_type == other.vote_type
            && self.first_vote.same(&other.first_vote)
            && self.conflicting_vote.same(&other.conflicting_vote)
            && self.recorded_at == other.recorded_at
    }
}

impl Same for GovernanceVoteRecord {
    fn same(&self, other: &GovernanceVoteRecord) -> (r: bool) {
        self.node_id == other.node_id
            && self.choice == other.choice
            && self.power == other.power
            && text_same(self.operation_id.as_str(), other.operation_id.as_str())
            && self.voted_at == other.voted_at
    }
}

impl Same for GovernanceValidatorVoteRecord {
    fn same(&self, other: &GovernanceValidatorVoteRecord) -> (r: bool) {
        self.node_id == other.node_id
            && self.choice == other.choice
            && text_same(self.operation_id.as_str(), other.operation_id.as_str())
            && self.voted_at == other.voted_at
    }
}

impl Same for GovernanceProposalRecord {
    fn same(&self, other: &GovernanceProposalRecord) -> (r: bool) {
        self.proposal_id == other.proposal_id
            && self.proposer_node_id == other.proposer_node_id
            && text_same(self.proposer_reward_address.as_str(), other.proposer_reward_address.as_str())
            && self.kind == other.kind
            && text_same(self.title.as_str(), other.title.as_str())
            && same_action(&self.action, &other.action)
            && self.created_at == other.created_at
            && self.voting_ends_at == other.voting_ends_at
            && self.execute_after == other.execute_after
            && self.status == other.status
            && self.snapshot_epoch == other.snapshot_epoch
            && self.power_snapshot.same(&other.power_snapshot)
            && self.total_power == other.total_power
            && self.votes.same(&other.votes)
            && same_ids(&self.validator_snapshot, &other.validator_snapshot)
            && self.validator_votes.same(&other.validator_votes)
            && self.timelock_vetoes.same(&other.timelock_vetoes)
            && self.proposal_bond == other.proposal_bond
            && self.finalized_at.same(&other.finalized_at)
            && self.executed_at.same(&other.executed_at)
    }
}

impl Same for GovernanceActionRecord {
    fn same(&self, other: &GovernanceActionRecord) -> (r: bool) {
        text_same(self.operation_id.as_str(), other.operation_id.as_str())
            && text_same(self.action.as_str(), other.action.as_str())
            && self.signer_node_id == other.signer_node_id
            && self.executed_at == other.executed_at
            && same_payload(&self.payload, &other.payload)
    }
}

impl Same for Field {
    fn same(&self, other: &Field) -> (r: bool) {
        match (self, other) {
            (Field::Text(a), Field::Text(b)) => text_same(a.as_str(), b.as_str()),
            (Field::Integer(a), Field::Integer(b)) => *a == *b,
            (Field::Flag(a), Field::Flag(b)) => *a == *b,
            (Field::Role(a), Field::Role(b)) => *a == *b,
            (Field::Kind(a), Field::Kind(b)) => *a == *b,
            (Field::Choice(a), Field::Choice(b)) => *a == *b,
            (Field::Action(a), Field::Action(b)) => same_action(a, b),
            (Field::Credential(a), Field::Credential(b)) => a.same(b),
            (Field::Checkpoint(a), Field::Checkpoint(b)) => a.same(b),
            (Field::Receipt(a), Field::Receipt(b)) => a.same(b),
            (Field::Probe(a), Field::Probe(b)) => a.same(b),
            (Field::Changes(a), Field::Changes(b)) => a.same(b),
            (Field::Powers(a), Field::Powers(b)) => a.same(b),
            (Field::NodeIds(a), Field::NodeIds(b)) => same_ids(a, b),
            (Field::Other(a), Field::Other(b)) => text_same(a.text.as_str(), b.text.as_str())
                && a.serial.same(&b.serial),
            _ => false,
        }
    }
}

/// Whether two payloads carry the same.
pub fn same_payload(a: &Payload, b: &Payload) -> (r: bool)
    ensures
        r == (a.deep_view() == b.deep_view()),
{
    a.fields.same(&b.fields)
}

} // verus!
