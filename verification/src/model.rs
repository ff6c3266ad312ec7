use vstd::prelude::*;

use crate::table::{Replicate, Table};

verus! {

/// Where a node stands in its life.
#[derive(Clone, Copy, Debug, PartialEq, Eq, Structural)]
pub enum NodeStatus {
    WarmingUp,
    Active,
    Draining,
    Exited,
    Suspended,
}

impl DeepView for NodeStatus {
    type V = NodeStatus;

    open spec fn deep_view(&self) -> NodeStatus {
        *self
    }
}

impl Replicate for NodeStatus {
    fn replicate(&self) -> (r: NodeStatus) {
        *self
    }
}

/// Who attests that nodes are reachable.
#[derive(Clone, Copy, Debug, PartialEq, Eq, Structural)]
pub enum AvailabilityMode {
    Node1Trusted,
    MultiValidator,
}

impl DeepView for AvailabilityMode {
    type V = AvailabilityMode;

    open spec fn deep_view(&self) -> AvailabilityMode {
        *self
    }
}

impl Replicate for AvailabilityMode {
    fn replicate(&self) -> (r: AvailabilityMode) {
        *self
    }
}

/// The part a verifier plays in one slot.
#[derive(Clone, Copy, Debug, PartialEq, Eq, Structural)]
pub enum AvailabilityVerifierRole {
    Primary,
    Audit,
}

impl DeepView for AvailabilityVerifierRole {
    type V = AvailabilityVerifierRole;

    open spec fn deep_view(&self) -> AvailabilityVerifierRole {
        *self
    }
}

impl Replicate for AvailabilityVerifierRole {
    fn replicate(&self) -> (r: AvailabilityVerifierRole) {
        *self
    }
}

/// How far an operation has come.
#[derive(Clone, Copy, Debug, PartialEq, Eq, Structural)]
pub enum OperationStatus {
    Pending,
    Finalized,
    Rejected,
}

impl DeepView for OperationStatus {
    type V = OperationStatus;

    open spec fn deep_view(&self) -> OperationStatus {
        *self
    }
}

impl Replicate for OperationStatus {
    fn replicate(&self) -> (r: OperationStatus) {
        *self
    }
}

/// How a block was agreed on.
#[derive(Clone, Copy, Debug, PartialEq, Eq, Structural)]
pub enum BlockConsensusMode {
    Node1,
    MultiValidator,
}

impl DeepView for BlockConsensusMode {
    type V = BlockConsensusMode;

    open spec fn deep_view(&self) -> BlockConsensusMode {
        *self
    }
}

impl Replicate for BlockConsensusMode {
    fn replicate(&self) -> (r: BlockConsensusMode) {
        *self
    }
}

/// The two rounds of voting on a block.
#[derive(Clone, Copy, Debug, PartialEq, Eq, Structural)]
pub enum ConsensusVoteType {
    Prevote,
    Precommit,
}

impl DeepView for ConsensusVoteType {
    type V = ConsensusVoteType;

    open spec fn deep_view(&self) -> ConsensusVoteType {
        *self
    }
}

impl Replicate for ConsensusVoteType {
    fn replicate(&self) -> (r: ConsensusVoteType) {
        *self
    }
}

/// How much support a proposal needs.
#[derive(Clone, Copy, Debug, PartialEq, Eq, Structural)]
pub enum GovernanceProposalKind {
    Standard,
    Critical,
}

impl DeepView for GovernanceProposalKind {
    type V = GovernanceProposalKind;

    open spec fn deep_view(&self) -> GovernanceProposalKind {
        *self
    }
}

impl Replicate for GovernanceProposalKind {
    fn replicate(&self) -> (r: GovernanceProposalKind) {
        *self
    }
}

/// How far a proposal has come.
#[derive(Clone, Copy, Debug, PartialEq, Eq, Structural)]
pub enum GovernanceProposalStatus {
    Voting,
    Passed,
    Rejected,
    Executed,
    Cancelled,
}

impl DeepView for GovernanceProposalStatus {
    type V = GovernanceProposalStatus;

    open spec fn deep_view(&self) -> GovernanceProposalStatus {
        *self
    }
}

impl Replicate for GovernanceProposalStatus {
    fn replicate(&self) -> (r: GovernanceProposalStatus) {
        *self
    }
}

/// The choices on a ballot.
#[derive(Clone, Copy, Debug, PartialEq, Eq, Structural)]
pub enum GovernanceVoteChoice {
    Yes,
    No,
    Abstain,
}

impl DeepView for GovernanceVoteChoice {
    type V = GovernanceVoteChoice;

    open spec fn deep_view(&self) -> GovernanceVoteChoice {
        *self
    }
}

impl Replicate for GovernanceVoteChoice {
    fn replicate(&self) -> (r: GovernanceVoteChoice) {
        *self
    }
}

/// The two directions of a relayed session.
#[derive(Clone, Copy, Debug, PartialEq, Eq, Structural)]
pub enum RelayDirection {
    SenderToReceiver,
    ReceiverToSender,
}

impl DeepView for RelayDirection {
    type V = RelayDirection;

    open spec fn deep_view(&self) -> RelayDirection {
        *self
    }
}

impl Replicate for RelayDirection {
    fn replicate(&self) -> (r: RelayDirection) {
        *self
    }
}

/// How much history a node keeps.
#[derive(Clone, Copy, Debug, PartialEq, Eq, Structural)]
pub enum NodeStorageMode {
    Full,
    Lite,
}

impl DeepView for NodeStorageMode {
    type V = NodeStorageMode;

    open spec fn deep_view(&self) -> NodeStorageMode {
        *self
    }
}

impl Replicate for NodeStorageMode {
    fn replicate(&self) -> (r: NodeStorageMode) {
        *self
    }
}

/// The fee parameters in force.
#[derive(Clone, Copy, Debug, PartialEq, Eq, Structural)]
pub struct FeePolicy {
    pub version: u64,
    pub base_fee_per_unit: u128,
    pub min_multiplier_bps: u32,
    pub max_multiplier_bps: u32,
    pub target_units_per_epoch: u64,
    pub max_units_per_block: u64,
    pub adjustment_denominator: u32,
    pub traffic_protocol_fee_bps: u32,
    pub traffic_treasury_share_bps: u32,
}

impl DeepView for FeePolicy {
    type V = FeePolicy;

    open spec fn deep_view(&self) -> FeePolicy {
        *self
    }
}

impl Replicate for FeePolicy {
    fn replicate(&self) -> (r: FeePolicy) {
        *self
    }
}

/// The parameters that governance sets.
#[derive(Clone, Copy, Debug, PartialEq, Eq, Structural)]
pub struct LedgerSettings {
    pub epoch_seconds: i64,
    pub epoch_mint_amount: u128,
    pub reward_immediate_bps: u32,
    pub reward_vesting_seconds: i64,
    pub validator_weight_bps: u32,
    pub validator_signature_threshold_bps: u32,
    pub required_service_bond: u128,
    pub service_bond_unlock_seconds: i64,
    pub offline_slash_seconds: i64,
    pub warmup_seconds: i64,
    pub heartbeat_grace_seconds: i64,
    pub ip_reuse_cooldown_seconds: i64,
    pub probe_validity_seconds: i64,
    pub availability_slot_seconds: i64,
    pub availability_verifier_count: u32,
    pub availability_quorum: u32,
    pub availability_audit_rate_bps: u32,
    pub availability_auditor_count: u32,
    pub availability_audit_quorum: u32,
    pub governance_min_service_seconds: u64,
    pub required_governance_bond: u128,
    pub governance_bond_maturity_seconds: i64,
    pub governance_bond_unlock_seconds: i64,
    pub block_interval_seconds: i64,
    pub validator_bond: u128,
    pub max_active_validators: u32,
    pub max_validator_rotations: u32,
    pub validator_rotation_interval_epochs: u32,
    pub consensus_round_timeout_seconds: i64,
    pub fee_policy: FeePolicy,
}

impl DeepView for LedgerSettings {
    type V = LedgerSettings;

    open spec fn deep_view(&self) -> LedgerSettings {
        *self
    }
}

impl Replicate for LedgerSettings {
    fn replicate(&self) -> (r: LedgerSettings) {
        *self
    }
}

/// A part of a node's reward that unlocks at one time.
#[derive(Clone, Copy, Debug, PartialEq, Eq, Structural)]
pub struct RewardVestingBucket {
    pub unlock_at: i64,
    pub amount: u128,
}

impl DeepView for RewardVestingBucket {
    type V = RewardVestingBucket;

    open spec fn deep_view(&self) -> RewardVestingBucket {
        *self
    }
}

impl Replicate for RewardVestingBucket {
    fn replicate(&self) -> (r: RewardVestingBucket) {
        *self
    }
}

/// What the members of a network may spend.
#[derive(Clone, Copy, Debug, PartialEq, Eq, Structural)]
pub struct NetworkSpendingPolicy {
    pub revision: u64,
    pub enabled: bool,
    pub max_session_amount: u128,
    pub max_member_reserved: u128,
    pub max_node_price_per_gib: u128,
    pub max_session_minutes: u32,
}

impl DeepView for NetworkSpendingPolicy {
    type V = NetworkSpendingPolicy;

    open spec fn deep_view(&self) -> NetworkSpendingPolicy {
        *self
    }
}

impl Replicate for NetworkSpendingPolicy {
    fn replicate(&self) -> (r: NetworkSpendingPolicy) {
        *self
    }
}

/// The node that holds an address slot.
#[derive(Clone, Copy, Debug, PartialEq, Eq, Structural)]
pub struct IpSlotRecord {
    pub node_id: u64,
    pub bound_at: i64,
    pub released_at: Option<i64>,
}

impl DeepView for IpSlotRecord {
    type V = IpSlotRecord;

    open spec fn deep_view(&self) -> IpSlotRecord {
        *self
    }
}

impl Replicate for IpSlotRecord {
    fn replicate(&self) -> (r: IpSlotRecord) {
        *self
    }
}
/// Copies a list of plain values.
pub fn copy_values<T: Copy>(values: &Vec<T>) -> (r: Vec<T>)
    ensures
        r@ == values@,
{
    let mut copy: Vec<T> = Vec::new();
    let mut i: usize = 0;
    while i < values.len()
        invariant
            i <= values@.len(),
            copy@ == values@.take(i as int),
        decreases values@.len() - i,
    {
        copy.push(values[i]);
        assert(values@.take(i as int + 1) =~= values@.take(i as int).push(values@[i as int]));
        i = i + 1;
    }
    assert(values@.take(values@.len() as int) =~= values@);
    copy
}

/// What a governance proposal does when it is executed.
#[derive(Debug)]
pub enum GovernanceProposalAction {
    SetParameters { changes: Table<String, String>, effective_epoch: Option<u64> },
    PauseEmission { reason: String },
    ResumeEmission,
    TreasurySpend { recipient: String, amount: u128, reference_hash: String },
}

/// The contents of `GovernanceProposalAction`.
#[verifier::ext_equal]
pub enum ProposalActionModel {
    SetParameters { changes: Map<Seq<char>, Seq<char>>, effective_epoch: Option<u64> },
    PauseEmission { reason: Seq<char> },
    ResumeEmission,
    TreasurySpend { recipient: Seq<char>, amount: u128, reference_hash: Seq<char> },
}

impl DeepView for GovernanceProposalAction {
    type V = ProposalActionModel;

    open spec fn deep_view(&self) -> ProposalActionModel {
        match *self {
            GovernanceProposalAction::SetParameters { changes, effective_epoch } => {
                ProposalActionModel::SetParameters { changes: changes@, effective_epoch }
            },
            GovernanceProposalAction::PauseEmission { reason } => {
                ProposalActionModel::PauseEmission { reason: reason@ }
            },
            GovernanceProposalAction::ResumeEmission => ProposalActionModel::ResumeEmission,
            GovernanceProposalAction::TreasurySpend { recipient, amount, reference_hash } => {
                ProposalActionModel::TreasurySpend {
                    recipient: recipient@,
                    amount,
                    reference_hash: reference_hash@,
                }
            },
        }
    }
}

impl Replicate for GovernanceProposalAction {
    fn replicate(&self) -> (r: GovernanceProposalAction) {
        match self {
            GovernanceProposalAction::SetParameters { changes, effective_epoch } => {
                GovernanceProposalAction::SetParameters {
                    changes: changes.replicate(),
                    effective_epoch: *effective_epoch,
                }
            },
            GovernanceProposalAction::PauseEmission { reason } => {
                GovernanceProposalAction::PauseEmission { reason: reason.clone() }
            },
            GovernanceProposalAction::ResumeEmission => GovernanceProposalAction::ResumeEmission,
            GovernanceProposalAction::TreasurySpend { recipient, amount, reference_hash } => {
                GovernanceProposalAction::TreasurySpend {
                    recipient: recipient.clone(),
                    amount: *amount,
                    reference_hash: reference_hash.clone(),
                }
            },
        }
    }
}

impl Clone for GovernanceProposalAction {
    fn clone(&self) -> (r: GovernanceProposalAction)
        ensures
            r.deep_view() == self.deep_view(),
    {
        self.replicate()
    }
}

/// A value that is none of those that an operation is known to carry: its JSON text, and the serial
/// number in it, if it is an object that has one.
#[derive(Debug)]
pub struct OtherValue {
    pub text: String,
    pub serial: Option<u64>,
}

/// The contents of `OtherValue`.
#[verifier::ext_equal]
pub struct OtherModel {
    pub text: Seq<char>,
    pub serial: Option<u64>,
}

impl DeepView for OtherValue {
    type V = OtherModel;

    open spec fn deep_view(&self) -> OtherModel {
        OtherModel { text: self.text@, serial: self.serial }
    }
}

impl Replicate for OtherValue {
    fn replicate(&self) -> (r: OtherValue) {
        OtherValue { text: self.text.clone(), serial: self.serial }
    }
}

/// One value of an operation's payload.
#[derive(Debug)]
pub enum Field {
    Text(String),
    Integer(i128),
    Flag(bool),
    Role(AvailabilityVerifierRole),
    Kind(GovernanceProposalKind),
    Choice(GovernanceVoteChoice),
    Action(GovernanceProposalAction),
    Credential(MemberCredential),
    Checkpoint(SenderCheckpoint),
    Receipt(ReceiverReceipt),
    Probe(ProbePayload),
    Changes(Table<String, String>),
    Powers(Table<u64, u128>),
    NodeIds(Vec<u64>),
    Other(OtherValue),
}

/// The contents of `Field`.
#[verifier::ext_equal]
pub enum FieldModel {
    Text(Seq<char>),
    Integer(i128),
    Flag(bool),
    Role(AvailabilityVerifierRole),
    Kind(GovernanceProposalKind),
    Choice(GovernanceVoteChoice),
    Action(ProposalActionModel),
    Credential(CredentialModel),
    Checkpoint(CheckpointModel),
    Receipt(ReceiptModel),
    Probe(ProbeModel),
    Changes(Map<Seq<char>, Seq<char>>),
    Powers(Map<u64, u128>),
    NodeIds(Seq<u64>),
    Other(OtherModel),
}

impl DeepView for Field {
    type V = FieldModel;

    open spec fn deep_view(&self) -> FieldModel {
        match *self {
            Field::Text(text) => FieldModel::Text(text@),
            Field::Integer(value) => FieldModel::Integer(value),
            Field::Flag(value) => FieldModel::Flag(value),
            Field::Role(value) => FieldModel::Role(value),
            Field::Kind(value) => FieldModel::Kind(value),
            Field::Choice(value) => FieldModel::Choice(value),
            Field::Action(value) => FieldModel::Action(value.deep_view()),
            Field::Credential(value) => FieldModel::Credential(value.deep_view()),
            Field::Checkpoint(value) => FieldModel::Checkpoint(value.deep_view()),
            Field::Receipt(value) => FieldModel::Receipt(value.deep_view()),
            Field::Probe(value) => FieldModel::Probe(value.deep_view()),
            Field::Changes(value) => FieldModel::Changes(value@),
            Field::Powers(value) => FieldModel::Powers(value@),
            Field::NodeIds(value) => FieldModel::NodeIds(value@),
            Field::Other(value) => FieldModel::Other(value.deep_view()),
        }
    }
}

impl Replicate for Field {
    fn replicate(&self) -> (r: Field) {
        match self {
            Field::Text(text) => Field::Text(text.clone()),
            Field::Integer(value) => Field::Integer(*value),
            Field::Flag(value) => Field::Flag(*value),
            Field::Role(value) => Field::Role(*value),
            Field::Kind(value) => Field::Kind(*value),
            Field::Choice(value) => Field::Choice(*value),
            Field::Action(value) => Field::Action(value.replicate()),
            Field::Credential(value) => Field::Credential(value.replicate()),
            Field::Checkpoint(value) => Field::Checkpoint(value.replicate()),
            Field::Receipt(value) => Field::Receipt(value.replicate()),
            Field::Probe(value) => Field::Probe(value.replicate()),
            Field::Changes(value) => Field::Changes(value.replicate()),
            Field::Powers(value) => Field::Powers(value.replicate()),
            Field::NodeIds(value) => Field::NodeIds(copy_values(value)),
            Field::Other(value) => Field::Other(value.replicate()),
        }
    }
}

/// The named values that an operation carries.
#[derive(Debug)]
pub struct Payload {
    pub fields: Table<String, Field>,
}

impl DeepView for Payload {
    type V = Map<Seq<char>, FieldModel>;

    open spec fn deep_view(&self) -> Map<Seq<char>, FieldModel> {
        self.fields@
    }
}

impl Replicate for Payload {
    fn replicate(&self) -> (r: Payload) {
        Payload { fields: self.fields.replicate() }
    }
}

impl Clone for Payload {
    fn clone(&self) -> (r: Payload)
        ensures
            r.deep_view() == self.deep_view(),
    {
        self.replicate()
    }
}

/// The balance and history of one address.
#[derive(Debug)]
pub struct AccountState {
    pub balance: u128,
    pub nonce: u64,
    pub public_key: Option<String>,
    pub operation_ids: Vec<String>,
}

/// The contents of `AccountState`.
#[verifier::ext_equal]
pub struct AccountModel {
    pub balance: u128,
    pub nonce: u64,
    pub public_key: Option<Seq<char>>,
    pub operation_ids: Seq<Seq<char>>,
}

impl DeepView for AccountState {
    type V = AccountModel;

    open spec fn deep_view(&self) -> AccountModel {
        AccountModel {
            balance: self.balance,
            nonce: self.nonce,
            public_key: self.public_key.deep_view(),
            operation_ids: self.operation_ids.deep_view(),
        }
    }
}

impl Replicate for AccountState {
    fn replicate(&self) -> (r: AccountState) {
        AccountState {
            balance: self.balance,
            nonce: self.nonce,
            public_key: self.public_key.replicate(),
            operation_ids: self.operation_ids.replicate(),
        }
    }
}

impl Clone for AccountState {
    fn clone(&self) -> (r: AccountState)
        ensures
            r.deep_view() == self.deep_view(),
    {
        self.replicate()
    }
}

/// A member of a network as the registry knows it.
#[derive(Debug)]
pub struct MemberRecord {
    pub name: String,
    pub member_id: String,
    pub public_key: String,
    pub serial: u64,
    pub issued_at: i64,
    pub expires_at: i64,
    pub revoked_at: Option<i64>,
    pub credential_signature: String,
}

/// The contents of `MemberRecord`.
#[verifier::ext_equal]
pub struct MemberModel {
    pub name: Seq<char>,
    pub member_id: Seq<char>,
    pub public_key: Seq<char>,
    pub serial: u64,
    pub issued_at: i64,
    pub expires_at: i64,
    pub revoked_at: Option<i64>,
    pub credential_signature: Seq<char>,
}

impl DeepView for MemberRecord {
    type V = MemberModel;

    open spec fn deep_view(&self) -> MemberModel {
        MemberModel {
            name: self.name@,
            member_id: self.member_id@,
            public_key: self.public_key@,
            serial: self.serial,
            issued_at: self.issued_at,
            expires_at: self.expires_at,
            revoked_at: self.revoked_at,
            credential_signature: self.credential_signature@,
        }
    }
}

impl Replicate for MemberRecord {
    fn replicate(&self) -> (r: MemberRecord) {
        MemberRecord {
            name: self.name.clone(),
            member_id: self.member_id.clone(),
            public_key: self.public_key.clone(),
            serial: self.serial,
            issued_at: self.issued_at,
            expires_at: self.expires_at,
            revoked_at: self.revoked_at,
            credential_signature: self.credential_signature.clone(),
        }
    }
}

impl Clone for MemberRecord {
    fn clone(&self) -> (r: MemberRecord)
        ensures
            r.deep_view() == self.deep_view(),
    {
        self.replicate()
    }
}

/// A network, its members and the fund that pays for their traffic.
#[derive(Debug)]
pub struct NetworkRecord {
    pub network_id: String,
    pub commitment: String,
    pub alias: String,
    pub owner_address: String,
    pub owner_public_key: String,
    pub created_at: i64,
    pub escrow_balance: u128,
    pub next_member_serial: u64,
    pub members: Table<String, MemberRecord>,
    pub spending_policy: NetworkSpendingPolicy,
}

/// The contents of `NetworkRecord`.
#[verifier::ext_equal]
pub struct NetworkModel {
    pub network_id: Seq<char>,
    pub commitment: Seq<char>,
    pub alias: Seq<char>,
    pub owner_address: Seq<char>,
    pub owner_public_key: Seq<char>,
    pub created_at: i64,
    pub escrow_balance: u128,
    pub next_member_serial: u64,
    pub members: Map<Seq<char>, MemberModel>,
    pub spending_policy: NetworkSpendingPolicy,
}

impl DeepView for NetworkRecord {
    type V = NetworkModel;

    open spec fn deep_view(&self) -> NetworkModel {
        NetworkModel {
            network_id: self.network_id@,
            commitment: self.commitment@,
            alias: self.alias@,
            owner_address: self.owner_address@,
            owner_public_key: self.owner_public_key@,
            created_at: self.created_at,
            escrow_balance: self.escrow_balance,
            next_member_serial: self.next_member_serial,
            members: self.members@,
            spending_policy: self.spending_policy,
        }
    }
}

impl Replicate for NetworkRecord {
    fn replicate(&self) -> (r: NetworkRecord) {
        NetworkRecord {
            network_id: self.network_id.clone(),
            commitment: self.commitment.clone(),
            alias: self.alias.clone(),
            owner_address: self.owner_address.clone(),
            owner_public_key: self.owner_public_key.clone(),
            created_at: self.created_at,
            escrow_balance: self.escrow_balance,
            next_member_serial: self.next_member_serial,
            members: self.members.replicate(),
            spending_policy: self.spending_policy,
        }
    }
}

impl Clone for NetworkRecord {
    fn clone(&self) -> (r: NetworkRecord)
        ensures
            r.deep_view() == self.deep_view(),
    {
        self.replicate()
    }
}

/// What a network owner signs for a member.
#[derive(Debug)]
pub struct MemberCredential {
    pub version: u32,
    pub network_id: String,
    pub member_id: String,
    pub member_public_key: String,
    pub permissions: Vec<String>,
    pub max_connections: u32,
    pub serial: u64,
    pub issued_at: i64,
    pub expires_at: i64,
    pub owner_signature: String,
}

/// The contents of `MemberCredential`.
#[verifier::ext_equal]
pub struct CredentialModel {
    pub version: u32,
    pub network_id: Seq<char>,
    pub member_id: Seq<char>,
    pub member_public_key: Seq<char>,
    pub permissions: Seq<Seq<char>>,
    pub max_connections: u32,
    pub serial: u64,
    pub issued_at: i64,
    pub expires_at: i64,
    pub owner_signature: Seq<char>,
}

impl DeepView for MemberCredential {
    type V = CredentialModel;

    open spec fn deep_view(&self) -> CredentialModel {
        CredentialModel {
            version: self.version,
            network_id: self.network_id@,
            member_id: self.member_id@,
            member_public_key: self.member_public_key@,
            permissions: self.permissions.deep_view(),
            max_connections: self.max_connections,
            serial: self.serial,
            issued_at: self.issued_at,
            expires_at: self.expires_at,
            owner_signature: self.owner_signature@,
        }
    }
}

impl Replicate for MemberCredential {
    fn replicate(&self) -> (r: MemberCredential) {
        MemberCredential {
            version: self.version,
            network_id: self.network_id.clone(),
            member_id: self.member_id.clone(),
            member_public_key: self.member_public_key.clone(),
            permissions: self.permissions.replicate(),
            max_connections: self.max_connections,
            serial: self.serial,
            issued_at: self.issued_at,
            expires_at: self.expires_at,
            owner_signature: self.owner_signature.clone(),
        }
    }
}

impl Clone for MemberCredential {
    fn clone(&self) -> (r: MemberCredential)
        ensures
            r.deep_view() == self.deep_view(),
    {
        self.replicate()
    }
}

/// What a sender signs about the traffic it has sent.
#[derive(Debug)]
pub struct SenderCheckpoint {
    pub ledger_id: String,
    pub protocol_version: u32,
    pub node_id: u64,
    pub authorization_id: String,
    pub session_id: String,
    pub direction: RelayDirection,
    pub sequence: u64,
    pub cumulative_sent_bytes: u64,
    pub transcript_hash: String,
    pub checkpoint_at: i64,
    pub sender_member_id: String,
    pub final_checkpoint: bool,
    pub sender_signature: String,
}

/// The contents of `SenderCheckpoint`.
#[verifier::ext_equal]
pub struct CheckpointModel {
    pub ledger_id: Seq<char>,
    pub protocol_version: u32,
    pub node_id: u64,
    pub authorization_id: Seq<char>,
    pub session_id: Seq<char>,
    pub direction: RelayDirection,
    pub sequence: u64,
    pub cumulative_sent_bytes: u64,
    pub transcript_hash: Seq<char>,
    pub checkpoint_at: i64,
    pub sender_member_id: Seq<char>,
    pub final_checkpoint: bool,
    pub sender_signature: Seq<char>,
}

impl DeepView for SenderCheckpoint {
    type V = CheckpointModel;

    open spec fn deep_view(&self) -> CheckpointModel {
        CheckpointModel {
            ledger_id: self.ledger_id@,
            protocol_version: self.protocol_version,
            node_id: self.node_id,
            authorization_id: self.authorization_id@,
            session_id: self.session_id@,
            direction: self.direction,
            sequence: self.sequence,
            cumulative_sent_bytes: self.cumulative_sent_bytes,
            transcript_hash: self.transcript_hash@,
            checkpoint_at: self.checkpoint_at,
            sender_member_id: self.sender_member_id@,
            final_checkpoint: self.final_checkpoint,
            sender_signature: self.sender_signature@,
        }
    }
}

impl Replicate for SenderCheckpoint {
    fn replicate(&self) -> (r: SenderCheckpoint) {
        SenderCheckpoint {
            ledger_id: self.ledger_id.clone(),
            protocol_version: self.protocol_version,
            node_id: self.node_id,
            authorization_id: self.authorization_id.clone(),
            session_id: self.session_id.clone(),
            direction: self.direction,
            sequence: self.sequence,
            cumulative_sent_bytes: self.cumulative_sent_bytes,
            transcript_hash: self.transcript_hash.clone(),
            checkpoint_at: self.checkpoint_at,
            sender_member_id: self.sender_member_id.clone(),
            final_checkpoint: self.final_checkpoint,
            sender_signature: self.sender_signature.clone(),
        }
    }
}

impl Clone for SenderCheckpoint {
    fn clone(&self) -> (r: SenderCheckpoint)
        ensures
            r.deep_view() == self.deep_view(),
    {
        self.replicate()
    }
}

/// What a receiver signs about the traffic it has got.
#[derive(Debug)]
pub struct ReceiverReceipt {
    pub ledger_id: String,
    pub protocol_version: u32,
    pub node_id: u64,
    pub authorization_id: String,
    pub session_id: String,
    pub direction: RelayDirection,
    pub sequence: u64,
    pub cumulative_received_bytes: u64,
    pub transcript_hash: String,
    pub sender_checkpoint_hash: String,
    pub received_at: i64,
    pub receiver_member_id: String,
    pub receiver_signature: String,
}

/// The contents of `ReceiverReceipt`.
#[verifier::ext_equal]
pub struct ReceiptModel {
    pub ledger_id: Seq<char>,
    pub protocol_version: u32,
    pub node_id: u64,
    pub authorization_id: Seq<char>,
    pub session_id: Seq<char>,
    pub direction: RelayDirection,
    pub sequence: u64,
    pub cumulative_received_bytes: u64,
    pub transcript_hash: Seq<char>,
    pub sender_checkpoint_hash: Seq<char>,
    pub received_at: i64,
    pub receiver_member_id: Seq<char>,
    pub receiver_signature: Seq<char>,
}

impl DeepView for ReceiverReceipt {
    type V = ReceiptModel;

    open spec fn deep_view(&self) -> ReceiptModel {
        ReceiptModel {
            ledger_id: self.ledger_id@,
            protocol_version: self.protocol_version,
            node_id: self.node_id,
            authorization_id: self.authorization_id@,
            session_id: self.session_id@,
            direction: self.direction,
            sequence: self.sequence,
            cumulative_received_bytes: self.cumulative_received_bytes,
            transcript_hash: self.transcript_hash@,
            sender_checkpoint_hash: self.sender_checkpoint_hash@,
            received_at: self.received_at,
            receiver_member_id: self.receiver_member_id@,
            receiver_signature: self.receiver_signature@,
        }
    }
}

impl Replicate for ReceiverReceipt {
    fn replicate(&self) -> (r: ReceiverReceipt) {
        ReceiverReceipt {
            ledger_id: self.ledger_id.clone(),
            protocol_version: self.protocol_version,
            node_id: self.node_id,
            authorization_id: self.authorization_id.clone(),
            session_id: self.session_id.clone(),
            direction: self.direction,
            sequence: self.sequence,
            cumulative_received_bytes: self.cumulative_received_bytes,
            transcript_hash: self.transcript_hash.clone(),
            sender_checkpoint_hash: self.sender_checkpoint_hash.clone(),
            received_at: self.received_at,
            receiver_member_id: self.receiver_member_id.clone(),
            receiver_signature: self.receiver_signature.clone(),
        }
    }
}

impl Clone for ReceiverReceipt {
    fn clone(&self) -> (r: ReceiverReceipt)
        ensures
            r.deep_view() == self.deep_view(),
    {
        self.replicate()
    }
}

/// A relay's signed answer to a reachability probe.
#[derive(Debug)]
pub struct ProbePayload {
    pub protocol: String,
    pub node_id: u64,
    pub relay_public_key: String,
    pub timestamp: i64,
    pub challenge: String,
    pub signature: String,
}

/// The contents of `ProbePayload`.
#[verifier::ext_equal]
pub struct ProbeModel {
    pub protocol: Seq<char>,
    pub node_id: u64,
    pub relay_public_key: Seq<char>,
    pub timestamp: i64,
    pub challenge: Seq<char>,
    pub signature: Seq<char>,
}

impl DeepView for ProbePayload {
    type V = ProbeModel;

    open spec fn deep_view(&self) -> ProbeModel {
        ProbeModel {
            protocol: self.protocol@,
            node_id: self.node_id,
            relay_public_key: self.relay_public_key@,
            timestamp: self.timestamp,
            challenge: self.challenge@,
            signature: self.signature@,
        }
    }
}

impl Replicate for ProbePayload {
    fn replicate(&self) -> (r: ProbePayload) {
        ProbePayload {
            protocol: self.protocol.clone(),
            node_id: self.node_id,
            relay_public_key: self.relay_public_key.clone(),
            timestamp: self.timestamp,
            challenge: self.challenge.clone(),
            signature: self.signature.clone(),
        }
    }
}

impl Clone for ProbePayload {
    fn clone(&self) -> (r: ProbePayload)
        ensures
            r.deep_view() == self.deep_view(),
    {
        self.replicate()
    }
}

/// A node of the registry.
#[derive(Debug)]
pub struct NodeRecord {
    pub node_id: u64,
    pub previous_node_id: Option<u64>,
    pub name: String,
    pub owner_address: String,
    pub owner_public_key: String,
    pub relay_public_key: String,
    pub reward_address: String,
    pub endpoint: String,
    pub reward_ip: String,
    pub ip_slot: String,
    pub price_per_gib: u128,
    pub status: NodeStatus,
    pub registered_at: i64,
    pub warmup_until: i64,
    pub active_since: Option<i64>,
    pub last_heartbeat: Option<i64>,
    pub last_probe_success: Option<i64>,
    pub probe_success_count: u64,
    pub last_relay_receipt_at: Option<i64>,
    pub eligible_seconds_by_epoch: Table<u64, u64>,
    pub total_eligible_seconds: u64,
    pub service_bond: u128,
    pub service_bond_unlock_at: Option<i64>,
    pub governance_bond: u128,
    pub governance_bonded_at: Option<i64>,
    pub governance_exit_requested_at: Option<i64>,
    pub governance_bond_unlock_at: Option<i64>,
    pub offline_slashed_at: Option<i64>,
    pub offline_slashed_service_bond: u128,
    pub offline_slashed_vesting_reward: u128,
    pub claimable_reward: u128,
    pub reward_vesting_buckets: Vec<RewardVestingBucket>,
    pub validator: bool,
    pub validator_signature_rate_bps: u32,
    pub validator_bond: u128,
    pub validator_candidate_since: Option<i64>,
    pub validator_last_epoch: Option<u64>,
    pub validator_consecutive_epochs: u64,
    pub validator_exit_requested_at: Option<i64>,
    pub validator_bond_unlock_at: Option<i64>,
}

/// The contents of `NodeRecord`.
#[verifier::ext_equal]
pub struct NodeModel {
    pub node_id: u64,
    pub previous_node_id: Option<u64>,
    pub name: Seq<char>,
    pub owner_address: Seq<char>,
    pub owner_public_key: Seq<char>,
    pub relay_public_key: Seq<char>,
    pub reward_address: Seq<char>,
    pub endpoint: Seq<char>,
    pub reward_ip: Seq<char>,
    pub ip_slot: Seq<char>,
    pub price_per_gib: u128,
    pub status: NodeStatus,
    pub registered_at: i64,
    pub warmup_until: i64,
    pub active_since: Option<i64>,
    pub last_heartbeat: Option<i64>,
    pub last_probe_success: Option<i64>,
    pub probe_success_count: u64,
    pub last_relay_receipt_at: Option<i64>,
    pub eligible_seconds_by_epoch: Map<u64, u64>,
    pub total_eligible_seconds: u64,
    pub service_bond: u128,
    pub service_bond_unlock_at: Option<i64>,
    pub governance_bond: u128,
    pub governance_bonded_at: Option<i64>,
    pub governance_exit_requested_at: Option<i64>,
    pub governance_bond_unlock_at: Option<i64>,
    pub offline_slashed_at: Option<i64>,
    pub offline_slashed_service_bond: u128,
    pub offline_slashed_vesting_reward: u128,
    pub claimable_reward: u128,
    pub reward_vesting_buckets: Seq<RewardVestingBucket>,
    pub validator: bool,
    pub validator_signature_rate_bps: u32,
    pub validator_bond: u128,
    pub validator_candidate_since: Option<i64>,
    pub validator_last_epoch: Option<u64>,
    pub validator_consecutive_epochs: u64,
    pub validator_exit_requested_at: Option<i64>,
    pub validator_bond_unlock_at: Option<i64>,
}

impl DeepView for NodeRecord {
    type V = NodeModel;

    open spec fn deep_view(&self) -> NodeModel {
        NodeModel {
            node_id: self.node_id,
            previous_node_id: self.previous_node_id,
            name: self.name@,
            owner_address: self.owner_address@,
            owner_public_key: self.owner_public_key@,
            relay_public_key: self.relay_public_key@,
            reward_address: self.reward_address@,
            endpoint: self.endpoint@,
            reward_ip: self.reward_ip@,
            ip_slot: self.ip_slot@,
            price_per_gib: self.price_per_gib,
            status: self.status,
            registered_at: self.registered_at,
            warmup_until: self.warmup_until,
            active_since: self.active_since,
            last_heartbeat: self.last_heartbeat,
            last_probe_success: self.last_probe_success,
            probe_success_count: self.probe_success_count,
            last_relay_receipt_at: self.last_relay_receipt_at,
            eligible_seconds_by_epoch: self.eligible_seconds_by_epoch@,
            total_eligible_seconds: self.total_eligible_seconds,
            service_bond: self.service_bond,
            service_bond_unlock_at: self.service_bond_unlock_at,
            governance_bond: self.governance_bond,
            governance_bonded_at: self.governance_bonded_at,
            governance_exit_requested_at: self.governance_exit_requested_at,
            governance_bond_unlock_at: self.governance_bond_unlock_at,
            offline_slashed_at: self.offline_slashed_at,
            offline_slashed_service_bond: self.offline_slashed_service_bond,
            offline_slashed_vesting_reward: self.offline_slashed_vesting_reward,
            claimable_reward: self.claimable_reward,
            reward_vesting_buckets: self.reward_vesting_buckets@,
            validator: self.validator,
            validator_signature_rate_bps: self.validator_signature_rate_bps,
            validator_bond: self.validator_bond,
            validator_candidate_since: self.validator_candidate_since,
            validator_last_epoch: self.validator_last_epoch,
            validator_consecutive_epochs: self.validator_consecutive_epochs,
            validator_exit_requested_at: self.validator_exit_requested_at,
            validator_bond_unlock_at: self.validator_bond_unlock_at,
        }
    }
}

impl Replicate for NodeRecord {
    fn replicate(&self) -> (r: NodeRecord) {
        NodeRecord {
            node_id: self.node_id,
            previous_node_id: self.previous_node_id,
            name: self.name.clone(),
            owner_address: self.owner_address.clone(),
            owner_public_key: self.owner_public_key.clone(),
            relay_public_key: self.relay_public_key.clone(),
            reward_address: self.reward_address.clone(),
            endpoint: self.endpoint.clone(),
            reward_ip: self.reward_ip.clone(),
            ip_slot: self.ip_slot.clone(),
            price_per_gib: self.price_per_gib,
            status: self.status,
            registered_at: self.registered_at,
            warmup_until: self.warmup_until,
            active_since: self.active_since,
            last_heartbeat: self.last_heartbeat,
            last_probe_success: self.last_probe_success,
            probe_success_count: self.probe_success_count,
            last_relay_receipt_at: self.last_relay_receipt_at,
            eligible_seconds_by_epoch: self.eligible_seconds_by_epoch.replicate(),
            total_eligible_seconds: self.total_eligible_seconds,
            service_bond: self.service_bond,
            service_bond_unlock_at: self.service_bond_unlock_at,
            governance_bond: self.governance_bond,
            governance_bonded_at: self.governance_bonded_at,
            governance_exit_requested_at: self.governance_exit_requested_at,
            governance_bond_unlock_at: self.governance_bond_unlock_at,
            offline_slashed_at: self.offline_slashed_at,
            offline_slashed_service_bond: self.offline_slashed_service_bond,
            offline_slashed_vesting_reward: self.offline_slashed_vesting_reward,
            claimable_reward: self.claimable_reward,
            reward_vesting_buckets: copy_values(&self.reward_vesting_buckets),
            validator: self.validator,
            validator_signature_rate_bps: self.validator_signature_rate_bps,
            validator_bond: self.validator_bond,
            validator_candidate_since: self.validator_candidate_since,
            validator_last_epoch: self.validator_last_epoch,
            validator_consecutive_epochs: self.validator_consecutive_epochs,
            validator_exit_requested_at: self.validator_exit_requested_at,
            validator_bond_unlock_at: self.validator_bond_unlock_at,
        }
    }
}

impl Clone for NodeRecord {
    fn clone(&self) -> (r: NodeRecord)
        ensures
            r.deep_view() == self.deep_view(),
    {
        self.replicate()
    }
}

/// How much of one direction of a session has been settled.
#[derive(Debug)]
pub struct TrafficDirectionSettlement {
    pub settled_sequence: u64,
    pub settled_payload_bytes: u64,
    pub settled_amount: u128,
    pub settled_transcript_hash: Option<String>,
    pub last_receipt_hash: Option<String>,
    pub last_receipt_at: Option<i64>,
    pub finalized: bool,
}

/// The contents of `TrafficDirectionSettlement`.
#[verifier::ext_equal]
pub struct DirectionModel {
    pub settled_sequence: u64,
    pub settled_payload_bytes: u64,
    pub settled_amount: u128,
    pub settled_transcript_hash: Option<Seq<char>>,
    pub last_receipt_hash: Option<Seq<char>>,
    pub last_receipt_at: Option<i64>,
    pub finalized: bool,
}

impl DeepView for TrafficDirectionSettlement {
    type V = DirectionModel;

    open spec fn deep_view(&self) -> DirectionModel {
        DirectionModel {
            settled_sequence: self.settled_sequence,
            settled_payload_bytes: self.settled_payload_bytes,
            settled_amount: self.settled_amount,
            settled_transcript_hash: self.settled_transcript_hash.deep_view(),
            last_receipt_hash: self.last_receipt_hash.deep_view(),
            last_receipt_at: self.last_receipt_at,
            finalized: self.finalized,
        }
    }
}

impl Replicate for TrafficDirectionSettlement {
    fn replicate(&self) -> (r: TrafficDirectionSettlement) {
        TrafficDirectionSettlement {
            settled_sequence: self.settled_sequence,
            settled_payload_bytes: self.settled_payload_bytes,
            settled_amount: self.settled_amount,
            settled_transcript_hash: self.settled_transcript_hash.replicate(),
            last_receipt_hash: self.last_receipt_hash.replicate(),
            last_receipt_at: self.last_receipt_at,
            finalized: self.finalized,
        }
    }
}

impl Clone for TrafficDirectionSettlement {
    fn clone(&self) -> (r: TrafficDirectionSettlement)
        ensures
            r.deep_view() == self.deep_view(),
    {
        self.replicate()
    }
}

/// The reservation that pays for one relayed session.
#[derive(Debug)]
pub struct PaymentAuthorizationRecord {
    pub authorization_id: String,
    pub network_commitment: String,
    pub network_id: String,
    pub payer_address: String,
    pub node_id: u64,
    pub sender_member_id: String,
    pub receiver_member_id: String,
    pub session_id: String,
    pub price_per_gib: u128,
    pub max_amount: u128,
    pub reserved_remaining: u128,
    pub settled_amount: u128,
    pub traffic_protocol_fee_bps: u32,
    pub traffic_treasury_share_bps: u32,
    pub created_at: i64,
    pub valid_until: i64,
    pub claim_until: i64,
    pub refunded_at: Option<i64>,
    pub closed_at: Option<i64>,
    pub sender_to_receiver: Option<TrafficDirectionSettlement>,
    pub receiver_to_sender: Option<TrafficDirectionSettlement>,
    pub initiator_member_id: String,
    pub spending_policy_revision: u64,
}

/// The contents of `PaymentAuthorizationRecord`.
#[verifier::ext_equal]
pub struct AuthorizationModel {
    pub authorization_id: Seq<char>,
    pub network_commitment: Seq<char>,
    pub network_id: Seq<char>,
    pub payer_address: Seq<char>,
    pub node_id: u64,
    pub sender_member_id: Seq<char>,
    pub receiver_member_id: Seq<char>,
    pub session_id: Seq<char>,
    pub price_per_gib: u128,
    pub max_amount: u128,
    pub reserved_remaining: u128,
    pub settled_amount: u128,
    pub traffic_protocol_fee_bps: u32,
    pub traffic_treasury_share_bps: u32,
    pub created_at: i64,
    pub valid_until: i64,
    pub claim_until: i64,
    pub refunded_at: Option<i64>,
    pub closed_at: Option<i64>,
    pub sender_to_receiver: Option<DirectionModel>,
    pub receiver_to_sender: Option<DirectionModel>,
    pub initiator_member_id: Seq<char>,
    pub spending_policy_revision: u64,
}

impl DeepView for PaymentAuthorizationRecord {
    type V = AuthorizationModel;

    open spec fn deep_view(&self) -> AuthorizationModel {
        AuthorizationModel {
            authorization_id: self.authorization_id@,
            network_commitment: self.network_commitment@,
            network_id: self.network_id@,
            payer_address: self.payer_address@,
            node_id: self.node_id,
            sender_member_id: self.sender_member_id@,
            receiver_member_id: self.receiver_member_id@,
            session_id: self.session_id@,
            price_per_gib: self.price_per_gib,
            max_amount: self.max_amount,
            reserved_remaining: self.reserved_remaining,
            settled_amount: self.settled_amount,
            traffic_protocol_fee_bps: self.traffic_protocol_fee_bps,
            traffic_treasury_share_bps: self.traffic_treasury_share_bps,
            created_at: self.created_at,
            valid_until: self.valid_until,
            claim_until: self.claim_until,
            refunded_at: self.refunded_at,
            closed_at: self.closed_at,
            sender_to_receiver: self.sender_to_receiver.deep_view(),
            receiver_to_sender: self.receiver_to_sender.deep_view(),
            initiator_member_id: self.initiator_member_id@,
            spending_policy_revision: self.spending_policy_revision,
        }
    }
}

impl Replicate for PaymentAuthorizationRecord {
    fn replicate(&self) -> (r: PaymentAuthorizationRecord) {
        PaymentAuthorizationRecord {
            authorization_id: self.authorization_id.clone(),
            network_commitment: self.network_commitment.clone(),
            network_id: self.network_id.clone(),
            payer_address: self.payer_address.clone(),
            node_id: self.node_id,
            sender_member_id: self.sender_member_id.clone(),
            receiver_member_id: self.receiver_member_id.clone(),
            session_id: self.session_id.clone(),
            price_per_gib: self.price_per_gib,
            max_amount: self.max_amount,
            reserved_remaining: self.reserved_remaining,
            settled_amount: self.settled_amount,
            traffic_protocol_fee_bps: self.traffic_protocol_fee_bps,
            traffic_treasury_share_bps: self.traffic_treasury_share_bps,
            created_at: self.created_at,
            valid_until: self.valid_until,
            claim_until: self.claim_until,
            refunded_at: self.refunded_at,
            closed_at: self.closed_at,
            sender_to_receiver: self.sender_to_receiver.replicate(),
            receiver_to_sender: self.receiver_to_sender.replicate(),
            initiator_member_id: self.initiator_member_id.clone(),
            spending_policy_revision: self.spending_policy_revision,
        }
    }
}

impl Clone for PaymentAuthorizationRecord {
    fn clone(&self) -> (r: PaymentAuthorizationRecord)
        ensures
            r.deep_view() == self.deep_view(),
    {
        self.replicate()
    }
}

/// The owner of the first node.
#[derive(Debug)]
pub struct GenesisAuthority {
    pub node_id: u64,
    pub owner_address: String,
    pub owner_public_key: String,
    pub established_at: i64,
}

/// The contents of `GenesisAuthority`.
#[verifier::ext_equal]
pub struct GenesisModel {
    pub node_id: u64,
    pub owner_address: Seq<char>,
    pub owner_public_key: Seq<char>,
    pub established_at: i64,
}

impl DeepView for GenesisAuthority {
    type V = GenesisModel;

    open spec fn deep_view(&self) -> GenesisModel {
        GenesisModel {
            node_id: self.node_id,
            owner_address: self.owner_address@,
            owner_public_key: self.owner_public_key@,
            established_at: self.established_at,
        }
    }
}

impl Replicate for GenesisAuthority {
    fn replicate(&self) -> (r: GenesisAuthority) {
        GenesisAuthority {
            node_id: self.node_id,
            owner_address: self.owner_address.clone(),
            owner_public_key: self.owner_public_key.clone(),
            established_at: self.established_at,
        }
    }
}

impl Clone for GenesisAuthority {
    fn clone(&self) -> (r: GenesisAuthority)
        ensures
            r.deep_view() == self.deep_view(),
    {
        self.replicate()
    }
}

/// A payment out of the treasury.
#[derive(Debug)]
pub struct TreasurySpendRecord {
    pub proposal_id: u64,
    pub operation_id: String,
    pub recipient: String,
    pub amount: u128,
    pub reference_hash: String,
    pub executed_at: i64,
}

/// The contents of `TreasurySpendRecord`.
#[verifier::ext_equal]
pub struct SpendModel {
    pub proposal_id: u64,
    pub operation_id: Seq<char>,
    pub recipient: Seq<char>,
    pub amount: u128,
    pub reference_hash: Seq<char>,
    pub executed_at: i64,
}

impl DeepView for TreasurySpendRecord {
    type V = SpendModel;

    open spec fn deep_view(&self) -> SpendModel {
        SpendModel {
            proposal_id: self.proposal_id,
            operation_id: self.operation_id@,
            recipient: self.recipient@,
            amount: self.amount,
            reference_hash: self.reference_hash@,
            executed_at: self.executed_at,
        }
    }
}

impl Replicate for TreasurySpendRecord {
    fn replicate(&self) -> (r: TreasurySpendRecord) {
        TreasurySpendRecord {
            proposal_id: self.proposal_id,
            operation_id: self.operation_id.clone(),
            recipient: self.recipient.clone(),
            amount: self.amount,
            reference_hash: self.reference_hash.clone(),
            executed_at: self.executed_at,
        }
    }
}

impl Clone for TreasurySpendRecord {
    fn clone(&self) -> (r: TreasurySpendRecord)
        ensures
            r.deep_view() == self.deep_view(),
    {
        self.replicate()
    }
}

/// The attestations of one node in one slot.
#[derive(Debug)]
pub struct AvailabilitySlotRecord {
    pub epoch: u64,
    pub target_node_id: u64,
    pub slot: i64,
    pub mode: AvailabilityMode,
    pub selected_primary_ids: Vec<u64>,
    pub primary_operation_ids: Table<u64, String>,
    pub primary_quorum: u32,
    pub audit_required: bool,
    pub selected_auditor_ids: Vec<u64>,
    pub audit_operation_ids: Table<u64, String>,
    pub audit_quorum: u32,
    pub credited_seconds: u64,
    pub credited_at: Option<i64>,
}

/// The contents of `AvailabilitySlotRecord`.
#[verifier::ext_equal]
pub struct SlotModel {
    pub epoch: u64,
    pub target_node_id: u64,
    pub slot: i64,
    pub mode: AvailabilityMode,
    pub selected_primary_ids: Seq<u64>,
    pub primary_operation_ids: Map<u64, Seq<char>>,
    pub primary_quorum: u32,
    pub audit_required: bool,
    pub selected_auditor_ids: Seq<u64>,
    pub audit_operation_ids: Map<u64, Seq<char>>,
    pub audit_quorum: u32,
    pub credited_seconds: u64,
    pub credited_at: Option<i64>,
}

impl DeepView for AvailabilitySlotRecord {
    type V = SlotModel;

    open spec fn deep_view(&self) -> SlotModel {
        SlotModel {
            epoch: self.epoch,
            target_node_id: self.target_node_id,
            slot: self.slot,
            mode: self.mode,
            selected_primary_ids: self.selected_primary_ids@,
            primary_operation_ids: self.primary_operation_ids@,
            primary_quorum: self.primary_quorum,
            audit_required: self.audit_required,
            selected_auditor_ids: self.selected_auditor_ids@,
            audit_operation_ids: self.audit_operation_ids@,
            audit_quorum: self.audit_quorum,
            credited_seconds: self.credited_seconds,
            credited_at: self.credited_at,
        }
    }
}

impl Replicate for AvailabilitySlotRecord {
    fn replicate(&self) -> (r: AvailabilitySlotRecord) {
        AvailabilitySlotRecord {
            epoch: self.epoch,
            target_node_id: self.target_node_id,
            slot: self.slot,
            mode: self.mode,
            selected_primary_ids: copy_values(&self.selected_primary_ids),
            primary_operation_ids: self.primary_operation_ids.replicate(),
            primary_quorum: self.primary_quorum,
            audit_required: self.audit_required,
            selected_auditor_ids: copy_values(&self.selected_auditor_ids),
            audit_operation_ids: self.audit_operation_ids.replicate(),
            audit_quorum: self.audit_quorum,
            credited_seconds: self.credited_seconds,
            credited_at: self.credited_at,
        }
    }
}

impl Clone for AvailabilitySlotRecord {
    fn clone(&self) -> (r: AvailabilitySlotRecord)
        ensures
            r.deep_view() == self.deep_view(),
    {
        self.replicate()
    }
}

/// What was in force when an epoch began.
#[derive(Debug)]
pub struct EpochContext {
    pub epoch: u64,
    pub started_at: i64,
    pub ended_at: i64,
    pub submission_deadline: i64,
    pub settings: LedgerSettings,
    pub availability_mode: AvailabilityMode,
    pub validator_ids: Vec<u64>,
    pub validator_bonus_ids: Vec<u64>,
    pub node1_single_producer: bool,
}

/// The contents of `EpochContext`.
#[verifier::ext_equal]
pub struct ContextModel {
    pub epoch: u64,
    pub started_at: i64,
    pub ended_at: i64,
    pub submission_deadline: i64,
    pub settings: LedgerSettings,
    pub availability_mode: AvailabilityMode,
    pub validator_ids: Seq<u64>,
    pub validator_bonus_ids: Seq<u64>,
    pub node1_single_producer: bool,
}

impl DeepView for EpochContext {
    type V = ContextModel;

    open spec fn deep_view(&self) -> ContextModel {
        ContextModel {
            epoch: self.epoch,
            started_at: self.started_at,
            ended_at: self.ended_at,
            submission_deadline: self.submission_deadline,
            settings: self.settings,
            availability_mode: self.availability_mode,
            validator_ids: self.validator_ids@,
            validator_bonus_ids: self.validator_bonus_ids@,
            node1_single_producer: self.node1_single_producer,
        }
    }
}

impl Replicate for EpochContext {
    fn replicate(&self) -> (r: EpochContext) {
        EpochContext {
            epoch: self.epoch,
            started_at: self.started_at,
            ended_at: self.ended_at,
            submission_deadline: self.submission_deadline,
            settings: self.settings,
            availability_mode: self.availability_mode,
            validator_ids: copy_values(&self.validator_ids),
            validator_bonus_ids: copy_values(&self.validator_bonus_ids),
            node1_single_producer: self.node1_single_producer,
        }
    }
}

impl Clone for EpochContext {
    fn clone(&self) -> (r: EpochContext)
        ensures
            r.deep_view() == self.deep_view(),
    {
        self.replicate()
    }
}

/// What was established about an operation when it arrived: its identifier, the bytes that its signer signed, the length of its encoding and the fee units it takes.
#[derive(Debug)]
pub struct Intake {
    pub operation_id: String,
    pub signing_bytes: Vec<u8>,
    pub encoded_len: usize,
    pub fee_units: u64,
}

/// The contents of `Intake`.
#[verifier::ext_equal]
pub struct IntakeModel {
    pub operation_id: Seq<char>,
    pub signing_bytes: Seq<u8>,
    pub encoded_len: usize,
    pub fee_units: u64,
}

impl DeepView for Intake {
    type V = IntakeModel;

    open spec fn deep_view(&self) -> IntakeModel {
        IntakeModel {
            operation_id: self.operation_id@,
            signing_bytes: self.signing_bytes@,
            encoded_len: self.encoded_len,
            fee_units: self.fee_units,
        }
    }
}

impl Replicate for Intake {
    fn replicate(&self) -> (r: Intake) {
        Intake {
            operation_id: self.operation_id.clone(),
            signing_bytes: copy_values(&self.signing_bytes),
            encoded_len: self.encoded_len,
            fee_units: self.fee_units,
        }
    }
}

impl Clone for Intake {
    fn clone(&self) -> (r: Intake)
        ensures
            r.deep_view() == self.deep_view(),
    {
        self.replicate()
    }
}

/// A request to change the ledger.
#[derive(Debug)]
pub struct UnsignedOperation {
    pub protocol_version: u32,
    pub ledger_id: String,
    pub module: String,
    pub action: String,
    pub signer: String,
    pub account_nonce: u64,
    pub valid_until: i64,
    pub max_fee_base_units: u128,
    pub fee_policy_version: u64,
    pub payload: Payload,
}

/// The contents of `UnsignedOperation`.
#[verifier::ext_equal]
pub struct UnsignedModel {
    pub protocol_version: u32,
    pub ledger_id: Seq<char>,
    pub module: Seq<char>,
    pub action: Seq<char>,
    pub signer: Seq<char>,
    pub account_nonce: u64,
    pub valid_until: i64,
    pub max_fee_base_units: u128,
    pub fee_policy_version: u64,
    pub payload: Map<Seq<char>, FieldModel>,
}

impl DeepView for UnsignedOperation {
    type V = UnsignedModel;

    open spec fn deep_view(&self) -> UnsignedModel {
        UnsignedModel {
            protocol_version: self.protocol_version,
            ledger_id: self.ledger_id@,
            module: self.module@,
            action: self.action@,
            signer: self.signer@,
            account_nonce: self.account_nonce,
            valid_until: self.valid_until,
            max_fee_base_units: self.max_fee_base_units,
            fee_policy_version: self.fee_policy_version,
            payload: self.payload.deep_view(),
        }
    }
}

impl Replicate for UnsignedOperation {
    fn replicate(&self) -> (r: UnsignedOperation) {
        UnsignedOperation {
            protocol_version: self.protocol_version,
            ledger_id: self.ledger_id.clone(),
            module: self.module.clone(),
            action: self.action.clone(),
            signer: self.signer.clone(),
            account_nonce: self.account_nonce,
            valid_until: self.valid_until,
            max_fee_base_units: self.max_fee_base_units,
            fee_policy_version: self.fee_policy_version,
            payload: self.payload.replicate(),
        }
    }
}

impl Clone for UnsignedOperation {
    fn clone(&self) -> (r: UnsignedOperation)
        ensures
            r.deep_view() == self.deep_view(),
    {
        self.replicate()
    }
}

/// A request with its signature.
#[derive(Debug)]
pub struct SignedOperation {
    pub unsigned: UnsignedOperation,
    pub signature: String,
    pub intake: Intake,
}

/// The contents of `SignedOperation`.
#[verifier::ext_equal]
pub struct SignedModel {
    pub unsigned: UnsignedModel,
    pub signature: Seq<char>,
    pub intake: IntakeModel,
}

impl DeepView for SignedOperation {
    type V = SignedModel;

    open spec fn deep_view(&self) -> SignedModel {
        SignedModel {
            unsigned: self.unsigned.deep_view(),
            signature: self.signature@,
            intake: self.intake.deep_view(),
        }
    }
}

impl Replicate for SignedOperation {
    fn replicate(&self) -> (r: SignedOperation) {
        SignedOperation {
            unsigned: self.unsigned.replicate(),
            signature: self.signature.clone(),
            intake: self.intake.replicate(),
        }
    }
}

impl Clone for SignedOperation {
    fn clone(&self) -> (r: SignedOperation)
        ensures
            r.deep_view() == self.deep_view(),
    {
        self.replicate()
    }
}

/// An operation as the ledger keeps it.
#[derive(Debug)]
pub struct OperationRecord {
    pub operation_id: String,
    pub kind: String,
    pub signer: String,
    pub nonce: u64,
    pub created_at: i64,
    pub status: OperationStatus,
    pub error: Option<String>,
    pub payload: Payload,
    pub signature: String,
    pub block_height: Option<u64>,
    pub signed_operation: Option<SignedOperation>,
    pub fee_payer: Option<String>,
    pub fee_charged: u128,
    pub fee_burned: u128,
    pub fee_to_treasury: u128,
}

/// The contents of `OperationRecord`.
#[verifier::ext_equal]
pub struct OperationModel {
    pub operation_id: Seq<char>,
    pub kind: Seq<char>,
    pub signer: Seq<char>,
    pub nonce: u64,
    pub created_at: i64,
    pub status: OperationStatus,
    pub error: Option<Seq<char>>,
    pub payload: Map<Seq<char>, FieldModel>,
    pub signature: Seq<char>,
    pub block_height: Option<u64>,
    pub signed_operation: Option<SignedModel>,
    pub fee_payer: Option<Seq<char>>,
    pub fee_charged: u128,
    pub fee_burned: u128,
    pub fee_to_treasury: u128,
}

impl DeepView for OperationRecord {
    type V = OperationModel;

    open spec fn deep_view(&self) -> OperationModel {
        OperationModel {
            operation_id: self.operation_id@,
            kind: self.kind@,
            signer: self.signer@,
            nonce: self.nonce,
            created_at: self.created_at,
            status: self.status,
            error: self.error.deep_view(),
            payload: self.payload.deep_view(),
            signature: self.signature@,
            block_height: self.block_height,
            signed_operation: self.signed_operation.deep_view(),
            fee_payer: self.fee_payer.deep_view(),
            fee_charged: self.fee_charged,
            fee_burned: self.fee_burned,
            fee_to_treasury: self.fee_to_treasury,
        }
    }
}

impl Replicate for OperationRecord {
    fn replicate(&self) -> (r: OperationRecord) {
        OperationRecord {
            operation_id: self.operation_id.clone(),
            kind: self.kind.clone(),
            signer: self.signer.clone(),
            nonce: self.nonce,
            created_at: self.created_at,
            status: self.status,
            error: self.error.replicate(),
            payload: self.payload.replicate(),
            signature: self.signature.clone(),
            block_height: self.block_height,
            signed_operation: self.signed_operation.replicate(),
            fee_payer: self.fee_payer.replicate(),
            fee_charged: self.fee_charged,
            fee_burned: self.fee_burned,
            fee_to_treasury: self.fee_to_treasury,
        }
    }
}

impl Clone for OperationRecord {
    fn clone(&self) -> (r: OperationRecord)
        ensures
            r.deep_view() == self.deep_view(),
    {
        self.replicate()
    }
}

/// A validator's signed vote on a block.
#[derive(Debug)]
pub struct ConsensusVote {
    pub ledger_id: String,
    pub height: u64,
    pub round: u32,
    pub vote_type: ConsensusVoteType,
    pub block_hash: Option<String>,
    pub validator_set_hash: String,
    pub validator_node_id: u64,
    pub timestamp: i64,
    pub signature: String,
}

/// The contents of `ConsensusVote`.
#[verifier::ext_equal]
pub struct VoteModel {
    pub ledger_id: Seq<char>,
    pub height: u64,
    pub round: u32,
    pub vote_type: ConsensusVoteType,
    pub block_hash: Option<Seq<char>>,
    pub validator_set_hash: Seq<char>,
    pub validator_node_id: u64,
    pub timestamp: i64,
    pub signature: Seq<char>,
}

impl DeepView for ConsensusVote {
    type V = VoteModel;

    open spec fn deep_view(&self) -> VoteModel {
        VoteModel {
            ledger_id: self.ledger_id@,
            height: self.height,
            round: self.round,
            vote_type: self.vote_type,
            block_hash: self.block_hash.deep_view(),
            validator_set_hash: self.validator_set_hash@,
            validator_node_id: self.validator_node_id,
            timestamp: self.timestamp,
            signature: self.signature@,
        }
    }
}

impl Replicate for ConsensusVote {
    fn replicate(&self) -> (r: ConsensusVote) {
        ConsensusVote {
            ledger_id: self.ledger_id.clone(),
            height: self.height,
            round: self.round,
            vote_type: self.vote_type,
            block_hash: self.block_hash.replicate(),
            validator_set_hash: self.validator_set_hash.clone(),
            validator_node_id: self.validator_node_id,
            timestamp: self.timestamp,
            signature: self.signature.clone(),
        }
    }
}

impl Clone for ConsensusVote {
    fn clone(&self) -> (r: ConsensusVote)
        ensures
            r.deep_view() == self.deep_view(),
    {
        self.replicate()
    }
}

/// A block of the chain.
#[derive(Debug)]
pub struct BlockRecord {
    pub version: u32,
    pub ledger_id: String,
    pub height: u64,
    pub previous_block_hash: String,
    pub timestamp: i64,
    pub producer_node_id: u64,
    pub producer_owner_address: String,
    pub operation_ids: Vec<String>,
    pub state_root: String,
    pub block_hash: String,
    pub producer_signature: String,
    pub consensus_mode: BlockConsensusMode,
    pub consensus_round: u32,
    pub validator_set_hash: String,
    pub commit_signatures: Vec<ConsensusVote>,
    pub validator_epoch: u64,
    pub validator_node_ids: Vec<u64>,
}

/// The contents of `BlockRecord`.
#[verifier::ext_equal]
pub struct BlockModel {
    pub version: u32,
    pub ledger_id: Seq<char>,
    pub height: u64,
    pub previous_block_hash: Seq<char>,
    pub timestamp: i64,
    pub producer_node_id: u64,
    pub producer_owner_address: Seq<char>,
    pub operation_ids: Seq<Seq<char>>,
    pub state_root: Seq<char>,
    pub block_hash: Seq<char>,
    pub producer_signature: Seq<char>,
    pub consensus_mode: BlockConsensusMode,
    pub consensus_round: u32,
    pub validator_set_hash: Seq<char>,
    pub commit_signatures: Seq<VoteModel>,
    pub validator_epoch: u64,
    pub validator_node_ids: Seq<u64>,
}

impl DeepView for BlockRecord {
    type V = BlockModel;

    open spec fn deep_view(&self) -> BlockModel {
        BlockModel {
            version: self.version,
            ledger_id: self.ledger_id@,
            height: self.height,
            previous_block_hash: self.previous_block_hash@,
            timestamp: self.timestamp,
            producer_node_id: self.producer_node_id,
            producer_owner_address: self.producer_owner_address@,
            operation_ids: self.operation_ids.deep_view(),
            state_root: self.state_root@,
            block_hash: self.block_hash@,
            producer_signature: self.producer_signature@,
            consensus_mode: self.consensus_mode,
            consensus_round: self.consensus_round,
            validator_set_hash: self.validator_set_hash@,
            commit_signatures: self.commit_signatures.deep_view(),
            validator_epoch: self.validator_epoch,
            validator_node_ids: self.validator_node_ids@,
        }
    }
}

impl Replicate for BlockRecord {
    fn replicate(&self) -> (r: BlockRecord) {
        BlockRecord {
            version: self.version,
            ledger_id: self.ledger_id.clone(),
            height: self.height,
            previous_block_hash: self.previous_block_hash.clone(),
            timestamp: self.timestamp,
            producer_node_id: self.producer_node_id,
            producer_owner_address: self.producer_owner_address.clone(),
            operation_ids: self.operation_ids.replicate(),
            state_root: self.state_root.clone(),
            block_hash: self.block_hash.clone(),
            producer_signature: self.producer_signature.clone(),
            consensus_mode: self.consensus_mode,
            consensus_round: self.consensus_round,
            validator_set_hash: self.validator_set_hash.clone(),
            commit_signatures: self.commit_signatures.replicate(),
            validator_epoch: self.validator_epoch,
            validator_node_ids: copy_values(&self.validator_node_ids),
        }
    }
}

impl Clone for BlockRecord {
    fn clone(&self) -> (r: BlockRecord)
        ensures
            r.deep_view() == self.deep_view(),
    {
        self.replicate()
    }
}

/// Two conflicting votes of one validator.
#[derive(Debug)]
pub struct DoubleSignEvidence {
    pub validator_node_id: u64,
    pub height: u64,
    pub round: u32,
    pub vote_type: ConsensusVoteType,
    pub first_vote: ConsensusVote,
    pub conflicting_vote: ConsensusVote,
    pub recorded_at: i64,
}

/// The contents of `DoubleSignEvidence`.
#[verifier::ext_equal]
pub struct EvidenceModel {
    pub validator_node_id: u64,
    pub height: u64,
    pub round: u32,
    pub vote_type: ConsensusVoteType,
    pub first_vote: VoteModel,
    pub conflicting_vote: VoteModel,
    pub recorded_at: i64,
}

impl DeepView for DoubleSignEvidence {
    type V = EvidenceModel;

    open spec fn deep_view(&self) -> EvidenceModel {
        EvidenceModel {
            validator_node_id: self.validator_node_id,
            height: self.height,
            round: self.round,
            vote_type: self.vote_type,
            first_vote: self.first_vote.deep_view(),
            conflicting_vote: self.conflicting_vote.deep_view(),
            recorded_at: self.recorded_at,
        }
    }
}

impl Replicate for DoubleSignEvidence {
    fn replicate(&self) -> (r: DoubleSignEvidence) {
        DoubleSignEvidence {
            validator_node_id: self.validator_node_id,
            height: self.height,
            round: self.round,
            vote_type: self.vote_type,
            first_vote: self.first_vote.replicate(),
            conflicting_vote: self.conflicting_vote.replicate(),
            recorded_at: self.recorded_at,
        }
    }
}

impl Clone for DoubleSignEvidence {
    fn clone(&self) -> (r: DoubleSignEvidence)
        ensures
            r.deep_view() == self.deep_view(),
    {
        self.replicate()
    }
}

/// A block that is being voted on.
#[derive(Debug)]
pub struct ConsensusProposal {
    pub block: BlockRecord,
    pub proposed_at: i64,
}

/// The contents of `ConsensusProposal`.
#[verifier::ext_equal]
pub struct ProposedModel {
    pub block: BlockModel,
    pub proposed_at: i64,
}

impl DeepView for ConsensusProposal {
    type V = ProposedModel;

    open spec fn deep_view(&self) -> ProposedModel {
        ProposedModel {
            block: self.block.deep_view(),
            proposed_at: self.proposed_at,
        }
    }
}

impl Replicate for ConsensusProposal {
    fn replicate(&self) -> (r: ConsensusProposal) {
        ConsensusProposal {
            block: self.block.replicate(),
            proposed_at: self.proposed_at,
        }
    }
}

impl Clone for ConsensusProposal {
    fn clone(&self) -> (r: ConsensusProposal)
        ensures
            r.deep_view() == self.deep_view(),
    {
        self.replicate()
    }
}

/// The state of the current round of voting.
#[derive(Debug)]
pub struct ConsensusState {
    pub active_validators: Vec<u64>,
    pub last_selection_epoch: Option<u64>,
    pub height: u64,
    pub round: u32,
    pub round_started_at: Option<i64>,
    pub proposal: Option<ConsensusProposal>,
    pub valid_proposal: Option<ConsensusProposal>,
    pub valid_round: Option<u32>,
    pub prevotes: Table<u64, ConsensusVote>,
    pub precommits: Table<u64, ConsensusVote>,
    pub locks: Table<u64, String>,
    pub double_sign_evidence: Vec<DoubleSignEvidence>,
}

/// The contents of `ConsensusState`.
#[verifier::ext_equal]
pub struct ConsensusModel {
    pub active_validators: Seq<u64>,
    pub last_selection_epoch: Option<u64>,
    pub height: u64,
    pub round: u32,
    pub round_started_at: Option<i64>,
    pub proposal: Option<ProposedModel>,
    pub valid_proposal: Option<ProposedModel>,
    pub valid_round: Option<u32>,
    pub prevotes: Map<u64, VoteModel>,
    pub precommits: Map<u64, VoteModel>,
    pub locks: Map<u64, Seq<char>>,
    pub double_sign_evidence: Seq<EvidenceModel>,
}

impl DeepView for ConsensusState {
    type V = ConsensusModel;

    open spec fn deep_view(&self) -> ConsensusModel {
        ConsensusModel {
            active_validators: self.active_validators@,
            last_selection_epoch: self.last_selection_epoch,
            height: self.height,
            round: self.round,
            round_started_at: self.round_started_at,
            proposal: self.proposal.deep_view(),
            valid_proposal: self.valid_proposal.deep_view(),
            valid_round: self.valid_round,
            prevotes: self.prevotes@,
            precommits: self.precommits@,
            locks: self.locks@,
            double_sign_evidence: self.double_sign_evidence.deep_view(),
        }
    }
}

impl Replicate for ConsensusState {
    fn replicate(&self) -> (r: ConsensusState) {
        ConsensusState {
            active_validators: copy_values(&self.active_validators),
            last_selection_epoch: self.last_selection_epoch,
            height: self.height,
            round: self.round,
            round_started_at: self.round_started_at,
            proposal: self.proposal.replicate(),
            valid_proposal: self.valid_proposal.replicate(),
            valid_round: self.valid_round,
            prevotes: self.prevotes.replicate(),
            precommits: self.precommits.replicate(),
            locks: self.locks.replicate(),
            double_sign_evidence: self.double_sign_evidence.replicate(),
        }
    }
}

impl Clone for ConsensusState {
    fn clone(&self) -> (r: ConsensusState)
        ensures
            r.deep_view() == self.deep_view(),
    {
        self.replicate()
    }
}

/// A node's vote on a proposal.
#[derive(Debug)]
pub struct GovernanceVoteRecord {
    pub node_id: u64,
    pub choice: GovernanceVoteChoice,
    pub power: u128,
    pub operation_id: String,
    pub voted_at: i64,
}

/// The contents of `GovernanceVoteRecord`.
#[verifier::ext_equal]
pub struct BallotModel {
    pub node_id: u64,
    pub choice: GovernanceVoteChoice,
    pub power: u128,
    pub operation_id: Seq<char>,
    pub voted_at: i64,
}

impl DeepView for GovernanceVoteRecord {
    type V = BallotModel;

    open spec fn deep_view(&self) -> BallotModel {
        BallotModel {
            node_id: self.node_id,
            choice: self.choice,
            power: self.power,
            operation_id: self.operation_id@,
            voted_at: self.voted_at,
        }
    }
}

impl Replicate for GovernanceVoteRecord {
    fn replicate(&self) -> (r: GovernanceVoteRecord) {
        GovernanceVoteRecord {
            node_id: self.node_id,
            choice: self.choice,
            power: self.power,
            operation_id: self.operation_id.clone(),
            voted_at: self.voted_at,
        }
    }
}

impl Clone for GovernanceVoteRecord {
    fn clone(&self) -> (r: GovernanceVoteRecord)
        ensures
            r.deep_view() == self.deep_view(),
    {
        self.replicate()
    }
}

/// A validator's vote on a proposal.
#[derive(Debug)]
pub struct GovernanceValidatorVoteRecord {
    pub node_id: u64,
    pub choice: GovernanceVoteChoice,
    pub operation_id: String,
    pub voted_at: i64,
}

/// The contents of `GovernanceValidatorVoteRecord`.
#[verifier::ext_equal]
pub struct ValidatorBallotModel {
    pub node_id: u64,
    pub choice: GovernanceVoteChoice,
    pub operation_id: Seq<char>,
    pub voted_at: i64,
}

impl DeepView for GovernanceValidatorVoteRecord {
    type V = ValidatorBallotModel;

    open spec fn deep_view(&self) -> ValidatorBallotModel {
        ValidatorBallotModel {
            node_id: self.node_id,
            choice: self.choice,
            operation_id: self.operation_id@,
            voted_at: self.voted_at,
        }
    }
}

impl Replicate for GovernanceValidatorVoteRecord {
    fn replicate(&self) -> (r: GovernanceValidatorVoteRecord) {
        GovernanceValidatorVoteRecord {
            node_id: self.node_id,
            choice: self.choice,
            operation_id: self.operation_id.clone(),
            voted_at: self.voted_at,
        }
    }
}

impl Clone for GovernanceValidatorVoteRecord {
    fn clone(&self) -> (r: GovernanceValidatorVoteRecord)
        ensures
            r.deep_view() == self.deep_view(),
    {
        self.replicate()
    }
}

/// A governance proposal and the votes on it.
#[derive(Debug)]
pub struct GovernanceProposalRecord {
    pub proposal_id: u64,
    pub proposer_node_id: u64,
    pub proposer_reward_address: String,
    pub kind: GovernanceProposalKind,
    pub title: String,
    pub action: GovernanceProposalAction,
    pub created_at: i64,
    pub voting_ends_at: i64,
    pub execute_after: i64,
    pub status: GovernanceProposalStatus,
    pub snapshot_epoch: u64,
    pub power_snapshot: Table<u64, u128>,
    pub total_power: u128,
    pub votes: Table<u64, GovernanceVoteRecord>,
    pub validator_snapshot: Vec<u64>,
    pub validator_votes: Table<u64, GovernanceValidatorVoteRecord>,
    pub timelock_vetoes: Table<u64, GovernanceVoteRecord>,
    pub proposal_bond: u128,
    pub finalized_at: Option<i64>,
    pub executed_at: Option<i64>,
}

/// The contents of `GovernanceProposalRecord`.
#[verifier::ext_equal]
pub struct ProposalModel {
    pub proposal_id: u64,
    pub proposer_node_id: u64,
    pub proposer_reward_address: Seq<char>,
    pub kind: GovernanceProposalKind,
    pub title: Seq<char>,
    pub action: ProposalActionModel,
    pub created_at: i64,
    pub voting_ends_at: i64,
    pub execute_after: i64,
    pub status: GovernanceProposalStatus,
    pub snapshot_epoch: u64,
    pub power_snapshot: Map<u64, u128>,
    pub total_power: u128,
    pub votes: Map<u64, BallotModel>,
    pub validator_snapshot: Seq<u64>,
    pub validator_votes: Map<u64, ValidatorBallotModel>,
    pub timelock_vetoes: Map<u64, BallotModel>,
    pub proposal_bond: u128,
    pub finalized_at: Option<i64>,
    pub executed_at: Option<i64>,
}

impl DeepView for GovernanceProposalRecord {
    type V = ProposalModel;

    open spec fn deep_view(&self) -> ProposalModel {
        ProposalModel {
            proposal_id: self.proposal_id,
            proposer_node_id: self.proposer_node_id,
            proposer_reward_address: self.proposer_reward_address@,
            kind: self.kind,
            title: self.title@,
            action: self.action.deep_view(),
            created_at: self.created_at,
            voting_ends_at: self.voting_ends_at,
            execute_after: self.execute_after,
            status: self.status,
            snapshot_epoch: self.snapshot_epoch,
            power_snapshot: self.power_snapshot@,
            total_power: self.total_power,
            votes: self.votes@,
            validator_snapshot: self.validator_snapshot@,
            validator_votes: self.validator_votes@,
            timelock_vetoes: self.timelock_vetoes@,
            proposal_bond: self.proposal_bond,
            finalized_at: self.finalized_at,
            executed_at: self.executed_at,
        }
    }
}

impl Replicate for GovernanceProposalRecord {
    fn replicate(&self) -> (r: GovernanceProposalRecord) {
        GovernanceProposalRecord {
            proposal_id: self.proposal_id,
            proposer_node_id: self.proposer_node_id,
            proposer_reward_address: self.proposer_reward_address.clone(),
            kind: self.kind,
            title: self.title.clone(),
            action: self.action.replicate(),
            created_at: self.created_at,
            voting_ends_at: self.voting_ends_at,
            execute_after: self.execute_after,
            status: self.status,
            snapshot_epoch: self.snapshot_epoch,
            power_snapshot: self.power_snapshot.replicate(),
            total_power: self.total_power,
            votes: self.votes.replicate(),
            validator_snapshot: copy_values(&self.validator_snapshot),
            validator_votes: self.validator_votes.replicate(),
            timelock_vetoes: self.timelock_vetoes.replicate(),
            proposal_bond: self.proposal_bond,
            finalized_at: self.finalized_at,
            executed_at: self.executed_at,
        }
    }
}

impl Clone for GovernanceProposalRecord {
    fn clone(&self) -> (r: GovernanceProposalRecord)
        ensures
            r.deep_view() == self.deep_view(),
    {
        self.replicate()
    }
}

/// A governance action that took effect.
#[derive(Debug)]
pub struct GovernanceActionRecord {
    pub operation_id: String,
    pub action: String,
    pub signer_node_id: u64,
    pub executed_at: i64,
    pub payload: Payload,
}

/// The contents of `GovernanceActionRecord`.
#[verifier::ext_equal]
pub struct ActionModel {
    pub operation_id: Seq<char>,
    pub action: Seq<char>,
    pub signer_node_id: u64,
    pub executed_at: i64,
    pub payload: Map<Seq<char>, FieldModel>,
}

impl DeepView for GovernanceActionRecord {
    type V = ActionModel;

    open spec fn deep_view(&self) -> ActionModel {
        ActionModel {
            operation_id: self.operation_id@,
            action: self.action@,
            signer_node_id: self.signer_node_id,
            executed_at: self.executed_at,
            payload: self.payload.deep_view(),
        }
    }
}

impl Replicate for GovernanceActionRecord {
    fn replicate(&self) -> (r: GovernanceActionRecord) {
        GovernanceActionRecord {
            operation_id: self.operation_id.clone(),
            action: self.action.clone(),
            signer_node_id: self.signer_node_id,
            executed_at: self.executed_at,
            payload: self.payload.replicate(),
        }
    }
}

impl Clone for GovernanceActionRecord {
    fn clone(&self) -> (r: GovernanceActionRecord)
        ensures
            r.deep_view() == self.deep_view(),
    {
        self.replicate()
    }
}

/// A session that a relay has served and not yet settled.
#[derive(Debug)]
pub struct UnsettledRelaySession {
    pub authorization_id: String,
    pub session_id: String,
    pub disconnected_at: i64,
}

/// The contents of `UnsettledRelaySession`.
#[verifier::ext_equal]
pub struct RelaySessionModel {
    pub authorization_id: Seq<char>,
    pub session_id: Seq<char>,
    pub disconnected_at: i64,
}

impl DeepView for UnsettledRelaySession {
    type V = RelaySessionModel;

    open spec fn deep_view(&self) -> RelaySessionModel {
        RelaySessionModel {
            authorization_id: self.authorization_id@,
            session_id: self.session_id@,
            disconnected_at: self.disconnected_at,
        }
    }
}

impl Replicate for UnsettledRelaySession {
    fn replicate(&self) -> (r: UnsettledRelaySession) {
        UnsettledRelaySession {
            authorization_id: self.authorization_id.clone(),
            session_id: self.session_id.clone(),
            disconnected_at: self.disconnected_at,
        }
    }
}

impl Clone for UnsettledRelaySession {
    fn clone(&self) -> (r: UnsettledRelaySession)
        ensures
            r.deep_view() == self.deep_view(),
    {
        self.replicate()
    }
}

/// The public half of a key file.
#[derive(Debug)]
pub struct KeyIdentity {
    pub address: String,
    pub public_key: String,
}

/// The contents of `KeyIdentity`.
#[verifier::ext_equal]
pub struct KeyModel {
    pub address: Seq<char>,
    pub public_key: Seq<char>,
}

impl DeepView for KeyIdentity {
    type V = KeyModel;

    open spec fn deep_view(&self) -> KeyModel {
        KeyModel {
            address: self.address@,
            public_key: self.public_key@,
        }
    }
}

impl Replicate for KeyIdentity {
    fn replicate(&self) -> (r: KeyIdentity) {
        KeyIdentity {
            address: self.address.clone(),
            public_key: self.public_key.clone(),
        }
    }
}

impl Clone for KeyIdentity {
    fn clone(&self) -> (r: KeyIdentity)
        ensures
            r.deep_view() == self.deep_view(),
    {
        self.replicate()
    }
}

/// What a node keeps about itself.
#[derive(Debug)]
pub struct LocalNodeConfig {
    pub version: u32,
    pub name: String,
    pub owner_address: String,
    pub relay_address: String,
    pub reward_address: String,
    pub node_id: Option<u64>,
    pub storage_mode: NodeStorageMode,
    pub bootstrap_peer: Option<String>,
    pub trusted_checkpoint_root: Option<String>,
    pub trusted_checkpoint_height: Option<u64>,
    pub bootstrap_allow_insecure_local: bool,
    pub bootstrap_tls_ca: Option<String>,
}

/// The contents of `LocalNodeConfig`.
#[verifier::ext_equal]
pub struct NodeConfigModel {
    pub version: u32,
    pub name: Seq<char>,
    pub owner_address: Seq<char>,
    pub relay_address: Seq<char>,
    pub reward_address: Seq<char>,
    pub node_id: Option<u64>,
    pub storage_mode: NodeStorageMode,
    pub bootstrap_peer: Option<Seq<char>>,
    pub trusted_checkpoint_root: Option<Seq<char>>,
    pub trusted_checkpoint_height: Option<u64>,
    pub bootstrap_allow_insecure_local: bool,
    pub bootstrap_tls_ca: Option<Seq<char>>,
}

impl DeepView for LocalNodeConfig {
    type V = NodeConfigModel;

    open spec fn deep_view(&self) -> NodeConfigModel {
        NodeConfigModel {
            version: self.version,
            name: self.name@,
            owner_address: self.owner_address@,
            relay_address: self.relay_address@,
            reward_address: self.reward_address@,
            node_id: self.node_id,
            storage_mode: self.storage_mode,
            bootstrap_peer: self.bootstrap_peer.deep_view(),
            trusted_checkpoint_root: self.trusted_checkpoint_root.deep_view(),
            trusted_checkpoint_height: self.trusted_checkpoint_height,
            bootstrap_allow_insecure_local: self.bootstrap_allow_insecure_local,
            bootstrap_tls_ca: self.bootstrap_tls_ca.deep_view(),
        }
    }
}

impl Replicate for LocalNodeConfig {
    fn replicate(&self) -> (r: LocalNodeConfig) {
        LocalNodeConfig {
            version: self.version,
            name: self.name.clone(),
            owner_address: self.owner_address.clone(),
            relay_address: self.relay_address.clone(),
            reward_address: self.reward_address.clone(),
            node_id: self.node_id,
            storage_mode: self.storage_mode,
            bootstrap_peer: self.bootstrap_peer.replicate(),
            trusted_checkpoint_root: self.trusted_checkpoint_root.replicate(),
            trusted_checkpoint_height: self.trusted_checkpoint_height,
            bootstrap_allow_insecure_local: self.bootstrap_allow_insecure_local,
            bootstrap_tls_ca: self.bootstrap_tls_ca.replicate(),
        }
    }
}

impl Clone for LocalNodeConfig {
    fn clone(&self) -> (r: LocalNodeConfig)
        ensures
            r.deep_view() == self.deep_view(),
    {
        self.replicate()
    }
}

/// The state of governance.
#[derive(Debug)]
pub struct GovernanceState {
    pub proposals: Table<u64, GovernanceProposalRecord>,
    pub next_proposal_id: u64,
    pub emission_paused: bool,
    pub pause_reason: Option<String>,
    pub last_action_at: Option<i64>,
    pub actions: Vec<GovernanceActionRecord>,
}

/// The contents of `GovernanceState`.
#[verifier::ext_equal]
pub struct GovernanceModel {
    pub proposals: Map<u64, ProposalModel>,
    pub next_proposal_id: u64,
    pub emission_paused: bool,
    pub pause_reason: Option<Seq<char>>,
    pub last_action_at: Option<i64>,
    pub actions: Seq<ActionModel>,
}

impl DeepView for GovernanceState {
    type V = GovernanceModel;

    open spec fn deep_view(&self) -> GovernanceModel {
        GovernanceModel {
            proposals: self.proposals@,
            next_proposal_id: self.next_proposal_id,
            emission_paused: self.emission_paused,
            pause_reason: self.pause_reason.deep_view(),
            last_action_at: self.last_action_at,
            actions: self.actions.deep_view(),
        }
    }
}

impl Replicate for GovernanceState {
    fn replicate(&self) -> (r: GovernanceState) {
        GovernanceState {
            proposals: self.proposals.replicate(),
            next_proposal_id: self.next_proposal_id,
            emission_paused: self.emission_paused,
            pause_reason: self.pause_reason.replicate(),
            last_action_at: self.last_action_at,
            actions: self.actions.replicate(),
        }
    }
}

impl Clone for GovernanceState {
    fn clone(&self) -> (r: GovernanceState)
        ensures
            r.deep_view() == self.deep_view(),
    {
        self.replicate()
    }
}
/// The state of the ledger.
#[derive(Debug)]
pub struct LedgerState {
    pub version: u32,
    pub ledger_id: String,
    pub created_at: i64,
    pub settings: LedgerSettings,
    pub accounts: Table<String, AccountState>,
    pub networks: Table<String, NetworkRecord>,
    pub network_aliases: Table<String, String>,
    pub nodes: Table<u64, NodeRecord>,
    pub next_node_id: u64,
    pub operations: Table<String, OperationRecord>,
    pub blocks: Vec<BlockRecord>,
    pub pending_operation_ids: Vec<String>,
    pub payment_authorizations: Table<String, PaymentAuthorizationRecord>,
    pub ip_slots: Table<String, IpSlotRecord>,
    pub availability_slots: Table<String, AvailabilitySlotRecord>,
    pub epoch_contexts: Table<u64, EpochContext>,
    pub epoch_number: u64,
    pub epoch_started_at: i64,
    pub epoch_seconds_snapshot: i64,
    pub epoch_mint_amount_snapshot: u128,
    pub reward_immediate_bps_snapshot: u32,
    pub reward_vesting_seconds_snapshot: i64,
    pub availability_mode: AvailabilityMode,
    pub availability_activated_at: Option<i64>,
    pub availability_activated_epoch: Option<u64>,
    pub consensus: ConsensusState,
    pub governance: GovernanceState,
    pub scheduled_parameter_changes: Table<u64, Table<String, String>>,
    pub genesis_authority: Option<GenesisAuthority>,
    pub treasury: u128,
    pub burned: u128,
    pub pool_remaining: u128,
    pub lifetime_minted: u128,
    pub genesis_treasury_minted: u128,
    pub treasury_spends: Vec<TreasurySpendRecord>,
    pub total_settled_traffic_bytes: u128,
    pub fee_multiplier_bps: u32,
    pub fee_units_used_in_epoch: u64,
    pub pruned_through_height: u64,
    pub pruned_tip_hash: Option<String>,
    pub pruned_tip_timestamp: Option<i64>,
    pub pruned_operation_count: u64,
    pub operation_history_from_height: u64,
    pub proposal_post_state: Option<Box<LedgerState>>,
    pub valid_post_state: Option<Box<LedgerState>>,
    pub finalized_checkpoint: Option<Box<LedgerState>>,
}

/// The contents of `LedgerState`.
#[verifier::ext_equal]
pub struct LedgerModel {
    pub version: u32,
    pub ledger_id: Seq<char>,
    pub created_at: i64,
    pub settings: LedgerSettings,
    pub accounts: Map<Seq<char>, AccountModel>,
    pub networks: Map<Seq<char>, NetworkModel>,
    pub network_aliases: Map<Seq<char>, Seq<char>>,
    pub nodes: Map<u64, NodeModel>,
    pub next_node_id: u64,
    pub operations: Map<Seq<char>, OperationModel>,
    pub blocks: Seq<BlockModel>,
    pub pending_operation_ids: Seq<Seq<char>>,
    pub payment_authorizations: Map<Seq<char>, AuthorizationModel>,
    pub ip_slots: Map<Seq<char>, IpSlotRecord>,
    pub availability_slots: Map<Seq<char>, SlotModel>,
    pub epoch_contexts: Map<u64, ContextModel>,
    pub epoch_number: u64,
    pub epoch_started_at: i64,
    pub epoch_seconds_snapshot: i64,
    pub epoch_mint_amount_snapshot: u128,
    pub reward_immediate_bps_snapshot: u32,
    pub reward_vesting_seconds_snapshot: i64,
    pub availability_mode: AvailabilityMode,
    pub availability_activated_at: Option<i64>,
    pub availability_activated_epoch: Option<u64>,
    pub consensus: ConsensusModel,
    pub governance: GovernanceModel,
    pub scheduled_parameter_changes: Map<u64, Map<Seq<char>, Seq<char>>>,
    pub genesis_authority: Option<GenesisModel>,
    pub treasury: u128,
    pub burned: u128,
    pub pool_remaining: u128,
    pub lifetime_minted: u128,
    pub genesis_treasury_minted: u128,
    pub treasury_spends: Seq<SpendModel>,
    pub total_settled_traffic_bytes: u128,
    pub fee_multiplier_bps: u32,
    pub fee_units_used_in_epoch: u64,
    pub pruned_through_height: u64,
    pub pruned_tip_hash: Option<Seq<char>>,
    pub pruned_tip_timestamp: Option<i64>,
    pub pruned_operation_count: u64,
    pub operation_history_from_height: u64,
    pub proposal_post_state: Option<Box<LedgerModel>>,
    pub valid_post_state: Option<Box<LedgerModel>>,
    pub finalized_checkpoint: Option<Box<LedgerModel>>,
}

impl LedgerState {
    /// The contents of the state, with those of the states it refers to.
    pub open spec fn model(self) -> LedgerModel
        decreases self,
    {
        LedgerModel {
            version: self.version,
            ledger_id: self.ledger_id@,
            created_at: self.created_at,
            settings: self.settings,
            accounts: self.accounts@,
            networks: self.networks@,
            network_aliases: self.network_aliases@,
            nodes: self.nodes@,
            next_node_id: self.next_node_id,
            operations: self.operations@,
            blocks: self.blocks.deep_view(),
            pending_operation_ids: self.pending_operation_ids.deep_view(),
            payment_authorizations: self.payment_authorizations@,
            ip_slots: self.ip_slots@,
            availability_slots: self.availability_slots@,
            epoch_contexts: self.epoch_contexts@,
            epoch_number: self.epoch_number,
            epoch_started_at: self.epoch_started_at,
            epoch_seconds_snapshot: self.epoch_seconds_snapshot,
            epoch_mint_amount_snapshot: self.epoch_mint_amount_snapshot,
            reward_immediate_bps_snapshot: self.reward_immediate_bps_snapshot,
            reward_vesting_seconds_snapshot: self.reward_vesting_seconds_snapshot,
            availability_mode: self.availability_mode,
            availability_activated_at: self.availability_activated_at,
            availability_activated_epoch: self.availability_activated_epoch,
            consensus: self.consensus.deep_view(),
            governance: self.governance.deep_view(),
            scheduled_parameter_changes: self.scheduled_parameter_changes@,
            genesis_authority: self.genesis_authority.deep_view(),
            treasury: self.treasury,
            burned: self.burned,
            pool_remaining: self.pool_remaining,
            lifetime_minted: self.lifetime_minted,
            genesis_treasury_minted: self.genesis_treasury_minted,
            treasury_spends: self.treasury_spends.deep_view(),
            total_settled_traffic_bytes: self.total_settled_traffic_bytes,
            fee_multiplier_bps: self.fee_multiplier_bps,
            fee_units_used_in_epoch: self.fee_units_used_in_epoch,
            pruned_through_height: self.pruned_through_height,
            pruned_tip_hash: self.pruned_tip_hash.deep_view(),
            pruned_tip_timestamp: self.pruned_tip_timestamp,
            pruned_operation_count: self.pruned_operation_count,
            operation_history_from_height: self.operation_history_from_height,
            proposal_post_state: match self.proposal_post_state {
                Some(state) => Some(Box::new((*state).model())),
                None => None,
            },
            valid_post_state: match self.valid_post_state {
                Some(state) => Some(Box::new((*state).model())),
                None => None,
            },
            finalized_checkpoint: match self.finalized_checkpoint {
                Some(state) => Some(Box::new((*state).model())),
                None => None,
            },
        }
    }

    /// Copies the state in full.
    pub fn copy(&self) -> (r: LedgerState)
        ensures
            r@ == self@,
        decreases self,
    {
        LedgerState {
            version: self.version,
            ledger_id: self.ledger_id.clone(),
            created_at: self.created_at,
            settings: self.settings,
            accounts: self.accounts.replicate(),
            networks: self.networks.replicate(),
            network_aliases: self.network_aliases.replicate(),
            nodes: self.nodes.replicate(),
            next_node_id: self.next_node_id,
            operations: self.operations.replicate(),
            blocks: self.blocks.replicate(),
            pending_operation_ids: self.pending_operation_ids.replicate(),
            payment_authorizations: self.payment_authorizations.replicate(),
            ip_slots: self.ip_slots.replicate(),
            availability_slots: self.availability_slots.replicate(),
            epoch_contexts: self.epoch_contexts.replicate(),
            epoch_number: self.epoch_number,
            epoch_started_at: self.epoch_started_at,
            epoch_seconds_snapshot: self.epoch_seconds_snapshot,
            epoch_mint_amount_snapshot: self.epoch_mint_amount_snapshot,
            reward_immediate_bps_snapshot: self.reward_immediate_bps_snapshot,
            reward_vesting_seconds_snapshot: self.reward_vesting_seconds_snapshot,
            availability_mode: self.availability_mode,
            availability_activated_at: self.availability_activated_at,
            availability_activated_epoch: self.availability_activated_epoch,
            consensus: self.consensus.replicate(),
            governance: self.governance.replicate(),
            scheduled_parameter_changes: self.scheduled_parameter_changes.replicate(),
            genesis_authority: self.genesis_authority.replicate(),
            treasury: self.treasury,
            burned: self.burned,
            pool_remaining: self.pool_remaining,
            lifetime_minted: self.lifetime_minted,
            genesis_treasury_minted: self.genesis_treasury_minted,
            treasury_spends: self.treasury_spends.replicate(),
            total_settled_traffic_bytes: self.total_settled_traffic_bytes,
            fee_multiplier_bps: self.fee_multiplier_bps,
            fee_units_used_in_epoch: self.fee_units_used_in_epoch,
            pruned_through_height: self.pruned_through_height,
            pruned_tip_hash: self.pruned_tip_hash.replicate(),
            pruned_tip_timestamp: self.pruned_tip_timestamp,
            pruned_operation_count: self.pruned_operation_count,
            operation_history_from_height: self.operation_history_from_height,
            proposal_post_state: match &self.proposal_post_state {
                Some(state) => Some(Box::new(state.copy())),
                None => None,
            },
            valid_post_state: match &self.valid_post_state {
                Some(state) => Some(Box::new(state.copy())),
                None => None,
            },
            finalized_checkpoint: match &self.finalized_checkpoint {
                Some(state) => Some(Box::new(state.copy())),
                None => None,
            },
        }
    }
}

impl View for LedgerState {
    type V = LedgerModel;

    open spec fn view(&self) -> LedgerModel {
        self.model()
    }
}

impl DeepView for LedgerState {
    type V = LedgerModel;

    open spec fn deep_view(&self) -> LedgerModel {
        self.model()
    }
}

impl Replicate for LedgerState {
    fn replicate(&self) -> (r: LedgerState) {
        self.copy()
    }
}

impl Clone for LedgerState {
    fn clone(&self) -> (r: LedgerState)
        ensures
            r@ == self@,
    {
        self.copy()
    }
}

} // verus!
