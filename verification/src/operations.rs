use vstd::prelude::*;
use vstd::string::*;

use crate::accounts::{balance_of, credit_account, credited, with_account};
use crate::amount::{format_mrk, mrk_text};
use crate::chain::{chain_next_height, next_height};
use crate::committee::{committee_ready, multi_validator_ready, restart_voting, voting_restarted};
use crate::error::{outcome, Error, Outcome, Result};
use crate::fees::{envelope_checked, validate_envelope};
use crate::model::{
    AccountModel, GovernanceModel, GovernanceProposalStatus, LedgerModel, LedgerState, NetworkModel,
    OperationModel, OperationRecord, OperationStatus, ProposalModel, SignedModel, SignedOperation,
};
use crate::nodes::{eligible_ids, governance_eligible_node_ids};
use crate::number::{clamped_i64, clamped_u64, saturating_sub_i64};
use crate::payload::{
    field_text, payload_str, payload_u64, required_text, required_u64, PayloadModel,
};
use crate::protocol::{DEFAULT_OPERATION_VALIDITY_SECONDS, MAX_BLOCK_OPERATIONS};
use crate::sequence::{arrange, arranged, filter_ends, filter_step, Ranked};
use crate::table::{ordered, Replicate};
use crate::text::{
    decimal, join2, join3, join4, text_less, text_lt, text_same, u64_text, usize_text,
};
use crate::voting::{governance_proposal_node_threshold, threshold_of};

verus! {

/// The ledger in which a round of voting does not go on while the first node makes the blocks.
pub open spec fn idle_voting_reset(ledger: LedgerModel, now: i64) -> LedgerModel {
    if committee_ready(ledger, now) {
        ledger
    } else {
        voting_restarted(ledger, chain_next_height(ledger), None)
    }
}

pub fn reset_multi_validator_consensus_if_node1_mode(ledger: &mut LedgerState, now: i64)
    ensures
        final(ledger)@ == idle_voting_reset(old(ledger)@, now),
{
    if multi_validator_ready(ledger, now) {
        return ;
    }
    let height = next_height(ledger);
    restart_voting(ledger, height, None);
}

/// Whether a proposal is open although there are too few eligible nodes for its kind.
pub open spec fn is_cancellable(proposal: ProposalModel, eligible: nat) -> bool {
    (proposal.status == GovernanceProposalStatus::Voting || proposal.status
        == GovernanceProposalStatus::Passed) && eligible < threshold_of(proposal.kind)
}

pub open spec fn cancellable_ids(ledger: LedgerModel, now: i64) -> Seq<u64> {
    ordered::<u64>(ledger.governance.proposals.dom()).filter(
        |id: u64|
            is_cancellable(ledger.governance.proposals[id], eligible_ids(ledger, now).len()),
    )
}

/// The ledger with another state of one proposal.
pub open spec fn with_proposal(
    ledger: LedgerModel,
    proposal_id: u64,
    proposal: ProposalModel,
) -> LedgerModel {
    LedgerModel {
        governance: GovernanceModel {
            proposals: ledger.governance.proposals.insert(proposal_id, proposal),
            ..ledger.governance
        },
        ..ledger
    }
}

/// The ledger after one proposal has been cancelled and its bond been paid back.
pub open spec fn proposal_cancelled(ledger: LedgerModel, proposal_id: u64, now: i64) -> LedgerModel {
    if !ledger.governance.proposals.contains_key(proposal_id) {
        ledger
    } else {
        let proposal = ledger.governance.proposals[proposal_id];
        credited(
            with_proposal(
                ledger,
                proposal_id,
                ProposalModel {
                    status: GovernanceProposalStatus::Cancelled,
                    finalized_at: Some(now),
                    proposal_bond: 0,
                    ..proposal
                },
            ),
            proposal.proposer_reward_address,
            proposal.proposal_bond,
        )
    }
}

pub open spec fn proposals_cancelled(ledger: LedgerModel, ids: Seq<u64>, now: i64) -> LedgerModel
    decreases ids.len(),
{
    if ids.len() == 0 {
        ledger
    } else {
        proposals_cancelled(proposal_cancelled(ledger, ids[0], now), ids.drop_first(), now)
    }
}

/// The ledger after every proposal has been cancelled for which there are too few eligible nodes.
pub open spec fn starved_proposals_cancelled(ledger: LedgerModel, now: i64) -> LedgerModel {
    proposals_cancelled(ledger, cancellable_ids(ledger, now), now)
}

fn list_cancellable(ledger: &LedgerState, now: i64) -> (r: Vec<u64>)
    ensures
        r@ == cancellable_ids(ledger@, now),
{
    let eligible: usize = governance_eligible_node_ids(ledger, now).len();
    let ghost count = eligible_ids(ledger@, now).len();
    let ghost keys = ledger.governance.proposals.keys();
    let ghost chosen = |id: u64| is_cancellable(ledger@.governance.proposals[id], count);
    let mut ids: Vec<u64> = Vec::new();
    let mut i: usize = 0;
    proof {
        filter_ends(keys, chosen);
    }
    while i < ledger.governance.proposals.len()
        invariant
            i <= keys.len(),
            keys == ledger.governance.proposals.keys(),
            eligible == count,
            chosen == (|id: u64| is_cancellable(ledger@.governance.proposals[id], count)),
            ids@ == keys.take(i as int).filter(chosen),
        decreases keys.len() - i,
    {
        proof {
            filter_step(keys, i as int, chosen);
        }
        let proposal = ledger.governance.proposals.value_at(i);
        if matches!(
            proposal.status,
            GovernanceProposalStatus::Voting | GovernanceProposalStatus::Passed
        ) && eligible < governance_proposal_node_threshold(&proposal.kind) {
            ids.push(*ledger.governance.proposals.key_at(i));
        }
        i = i + 1;
    }
    proof {
        filter_ends(keys, chosen);
    }
    ids
}

fn cancel_proposal(ledger: &mut LedgerState, proposal_id: u64, now: i64)
    ensures
        final(ledger)@ == proposal_cancelled(old(ledger)@, proposal_id, now),
{
    let (refund, address): (u128, String) = match ledger.governance.proposals.get_mut(
        &proposal_id,
    ) {
        None => {
            return ;
        },
        Some(proposal) => {
            proposal.status = GovernanceProposalStatus::Cancelled;
            proposal.finalized_at = Some(now);
            let refund = proposal.proposal_bond;
            proposal.proposal_bond = 0;
            (refund, proposal.proposer_reward_address.clone())
        },
    };
    credit_account(ledger, address.as_str(), refund);
}

/// Cancels every proposal for which there are too few eligible nodes.
pub fn cancel_governance_proposals_below_threshold(ledger: &mut LedgerState, now: i64)
    ensures
        final(ledger)@ == starved_proposals_cancelled(old(ledger)@, now),
{
    let ids = list_cancellable(ledger, now);
    let ghost first = ledger@;
    let mut i: usize = 0;
    assert(ids@.skip(0) =~= ids@);
    while i < ids.len()
        invariant
            i <= ids@.len(),
            first == old(ledger)@,
            ids@ == cancellable_ids(first, now),
            proposals_cancelled(first, ids@, now) == proposals_cancelled(
                ledger@,
                ids@.skip(i as int),
                now,
            ),
        decreases ids@.len() - i,
    {
        assert(ids@.skip(i as int).drop_first() =~= ids@.skip(i as int + 1));
        cancel_proposal(ledger, ids[i], now);
        i = i + 1;
    }
}

/// Who pays for an operation.
pub enum OperationFeePayer {
    Account(String),
    NetworkEscrow(String),
}

/// The contents of `OperationFeePayer`.
pub enum PayerModel {
    Account(Seq<char>),
    NetworkEscrow(Seq<char>),
}

impl DeepView for OperationFeePayer {
    type V = PayerModel;

    open spec fn deep_view(&self) -> PayerModel {
        match *self {
            OperationFeePayer::Account(address) => PayerModel::Account(address@),
            OperationFeePayer::NetworkEscrow(commitment) => PayerModel::NetworkEscrow(commitment@),
        }
    }
}

/// The network that a payload names.
pub open spec fn named_network(ledger: LedgerModel, payload: PayloadModel) -> Outcome<Seq<char>> {
    match required_text(payload, "network_commitment"@) {
        Err(refusal) => Err(refusal),
        Ok(commitment) => if ledger.networks.contains_key(commitment) {
            Ok(commitment)
        } else {
            Err("network not found: "@ + commitment)
        },
    }
}

/// Finds the network that a payload names.
pub fn payload_network_commitment(
    ledger: &LedgerState,
    payload: &crate::model::Payload,
) -> (r: Result<String>)
    ensures
        outcome(r) == named_network(ledger@, payload.deep_view()),
{
    let commitment = payload_str(payload, "network_commitment")?;
    if !ledger.networks.contains_key(&commitment) {
        return Err(Error::owned(join2("network not found: ", commitment.as_str())));
    }
    Ok(commitment)
}

/// Who pays for an operation: the network for a session of its members, the reward account for what
/// concerns a node, and the signer for everything else.
pub open spec fn payer_of(ledger: LedgerModel, operation: SignedModel) -> Outcome<PayerModel> {
    let module = operation.unsigned.module;
    let action = operation.unsigned.action;
    let payload = operation.unsigned.payload;
    if module == "TrafficPayment"@ && action == "ReserveSession"@ {
        match named_network(ledger, payload) {
            Err(refusal) => Err(refusal),
            Ok(commitment) => Ok(PayerModel::NetworkEscrow(commitment)),
        }
    } else if module == "NodeRegistry"@ && action == "RegisterNode"@ {
        match field_text(payload, "reward_address"@) {
            Some(address) => Ok(PayerModel::Account(address)),
            None => Err("registration fee payer is invalid"@),
        }
    } else if module == "NodeRegistry"@ || module == "NodeEmissionController"@ || module
        == "StakeVault"@ {
        match required_u64(payload, "node_id"@, "fee-paying Node ID is invalid"@) {
            Err(refusal) => Err(refusal),
            Ok(node_id) => if ledger.nodes.contains_key(node_id) {
                Ok(PayerModel::Account(ledger.nodes[node_id].reward_address))
            } else {
                Err("fee-paying Node is missing"@)
            },
        }
    } else {
        Ok(PayerModel::Account(operation.unsigned.signer))
    }
}

pub fn operation_fee_payer(ledger: &LedgerState, operation: &SignedOperation) -> (r: Result<
    OperationFeePayer,
>)
    ensures
        outcome(r) == payer_of(ledger@, operation.deep_view()),
{
    let module = operation.unsigned.module.as_str();
    let action = operation.unsigned.action.as_str();
    let payload = &operation.unsigned.payload;
    if text_same(module, "TrafficPayment") && text_same(action, "ReserveSession") {
        return Ok(OperationFeePayer::NetworkEscrow(payload_network_commitment(ledger, payload)?));
    }
    if text_same(module, "NodeRegistry") && text_same(action, "RegisterNode") {
        return match payload.text("reward_address") {
            Some(address) => Ok(OperationFeePayer::Account(address.clone())),
            None => Err(Error::msg("registration fee payer is invalid")),
        };
    }
    if text_same(module, "NodeRegistry") || text_same(module, "NodeEmissionController")
        || text_same(module, "StakeVault") {
        let node_id = payload_u64(payload, "node_id", "fee-paying Node ID is invalid")?;
        return match ledger.nodes.get(&node_id) {
            Some(node) => Ok(OperationFeePayer::Account(node.reward_address.clone())),
            None => Err(Error::msg("fee-paying Node is missing")),
        };
    }
    Ok(OperationFeePayer::Account(operation.unsigned.signer.clone()))
}

/// The fee units of one pending operation.
pub open spec fn pending_units(ledger: LedgerModel, operation_id: Seq<char>) -> nat {
    if ledger.operations.contains_key(operation_id) {
        match ledger.operations[operation_id].signed_operation {
            Some(operation) => operation.intake.fee_units as nat,
            None => 0,
        }
    } else {
        0
    }
}

pub open spec fn units_of(ledger: LedgerModel, ids: Seq<Seq<char>>) -> nat
    decreases ids.len(),
{
    if ids.len() == 0 {
        0
    } else {
        units_of(ledger, ids.drop_last()) + pending_units(ledger, ids.last())
    }
}

/// Adds up the fee units of the pending operations.
pub fn pending_fee_units(ledger: &LedgerState) -> (r: u64)
    ensures
        r == clamped_u64(units_of(ledger@, ledger@.pending_operation_ids) as int),
{
    let ghost ids = ledger.pending_operation_ids.deep_view();
    let mut sum: u64 = 0;
    let mut i: usize = 0;
    assert(ids.take(0) =~= Seq::empty());
    while i < ledger.pending_operation_ids.len()
        invariant
            i <= ids.len(),
            ids == ledger.pending_operation_ids.deep_view(),
            sum == clamped_u64(units_of(ledger@, ids.take(i as int)) as int),
        decreases ids.len() - i,
    {
        assert(ids.take(i as int + 1).drop_last() =~= ids.take(i as int));
        assert(ids.take(i as int + 1).last() == ledger.pending_operation_ids@[i as int]@);
        if let Some(record) = ledger.operations.get(&ledger.pending_operation_ids[i]) {
            if let Some(operation) = &record.signed_operation {
                sum = sum.saturating_add(operation.intake.fee_units);
            }
        }
        i = i + 1;
    }
    assert(ids.take(ids.len() as int) =~= ids);
    sum
}

/// What a payer has.
pub open spec fn payer_funds(ledger: LedgerModel, payer: PayerModel) -> u128 {
    match payer {
        PayerModel::Account(address) => balance_of(ledger, address),
        PayerModel::NetworkEscrow(commitment) => if ledger.networks.contains_key(commitment) {
            ledger.networks[commitment].escrow_balance
        } else {
            0
        },
    }
}

/// Whether the payer of an operation has its fee.
pub open spec fn fee_payable(ledger: LedgerModel, operation: SignedModel, fee: u128) -> Outcome<()> {
    if fee == 0 {
        Ok(())
    } else {
        match payer_of(ledger, operation) {
            Err(refusal) => Err(refusal),
            Ok(payer) => if payer_funds(ledger, payer) < fee {
                Err(
                    "insufficient MRK for operation fee: available "@ + mrk_text(
                        payer_funds(ledger, payer) as nat,
                    ) + ", required "@ + mrk_text(fee as nat),
                )
            } else {
                Ok(())
            },
        }
    }
}

pub fn ensure_operation_fee_payable(
    ledger: &LedgerState,
    operation: &SignedOperation,
    fee: u128,
) -> (r: Result<()>)
    ensures
        outcome(r) == fee_payable(ledger@, operation.deep_view(), fee),
{
    if fee == 0 {
        return Ok(());
    }
    let available: u128 = match operation_fee_payer(ledger, operation)? {
        OperationFeePayer::Account(address) => match ledger.accounts.get(&address) {
            Some(account) => account.balance,
            None => 0,
        },
        OperationFeePayer::NetworkEscrow(commitment) => match ledger.networks.get(&commitment) {
            Some(network) => network.escrow_balance,
            None => 0,
        },
    };
    if available < fee {
        return Err(
            Error::owned(
                join4(
                    "insufficient MRK for operation fee: available ",
                    format_mrk(available).as_str(),
                    ", required ",
                    format_mrk(fee).as_str(),
                ),
            ),
        );
    }
    Ok(())
}

/// What an operation was charged.
pub struct OperationFeeCharge {
    pub payer: Option<String>,
    pub charged: u128,
    pub burned: u128,
}

/// The contents of `OperationFeeCharge`.
pub struct ChargeModel {
    pub payer: Option<Seq<char>>,
    pub charged: u128,
    pub burned: u128,
}

impl DeepView for OperationFeeCharge {
    type V = ChargeModel;

    open spec fn deep_view(&self) -> ChargeModel {
        ChargeModel {
            payer: self.payer.deep_view(),
            charged: self.charged,
            burned: self.burned,
        }
    }
}

/// The ledger after a payer has paid a fee, and how the payer is named in the record.
pub open spec fn fee_paid(ledger: LedgerModel, payer: PayerModel, fee: u128) -> Outcome<
    (LedgerModel, Seq<char>),
> {
    match payer {
        PayerModel::Account(address) => if !ledger.accounts.contains_key(address) {
            Err("operation fee payer account does not exist"@)
        } else if ledger.accounts[address].balance < fee {
            Err(
                "insufficient MRK for operation fee: available "@ + mrk_text(
                    ledger.accounts[address].balance as nat,
                ) + ", required "@ + mrk_text(fee as nat),
            )
        } else {
            Ok(
                (
                    with_account(
                        ledger,
                        address,
                        AccountModel {
                            balance: (ledger.accounts[address].balance - fee) as u128,
                            ..ledger.accounts[address]
                        },
                    ),
                    address,
                ),
            )
        },
        PayerModel::NetworkEscrow(commitment) => if !ledger.networks.contains_key(commitment) {
            Err("operation fee payer Network is missing"@)
        } else if ledger.networks[commitment].escrow_balance < fee {
            Err(
                "insufficient Network Escrow for operation fee: available "@ + mrk_text(
                    ledger.networks[commitment].escrow_balance as nat,
                ) + ", required "@ + mrk_text(fee as nat),
            )
        } else {
            Ok(
                (
                    LedgerModel {
                        networks: ledger.networks.insert(
                            commitment,
                            NetworkModel {
                                escrow_balance: (ledger.networks[commitment].escrow_balance
                                    - fee) as u128,
                                ..ledger.networks[commitment]
                            },
                        ),
                        ..ledger
                    },
                    "network:"@ + commitment,
                ),
            )
        },
    }
}

fn pay_fee(ledger: &mut LedgerState, payer: OperationFeePayer, fee: u128) -> (r: Result<String>)
    ensures
        match fee_paid(old(ledger)@, payer.deep_view(), fee) {
            Ok(paid) => final(ledger)@ == paid.0 && (r matches Ok(name) && name@ == paid.1),
            Err(refusal) => final(ledger)@ == old(ledger)@ && (r matches Err(error) && error@
                == refusal),
        },
{
    match payer {
        OperationFeePayer::Account(address) => match ledger.accounts.get_mut(&address) {
            None => Err(Error::msg("operation fee payer account does not exist")),
            Some(account) => {
                if account.balance < fee {
                    return Err(
                        Error::owned(
                            join4(
                                "insufficient MRK for operation fee: available ",
                                format_mrk(account.balance).as_str(),
                                ", required ",
                                format_mrk(fee).as_str(),
                            ),
                        ),
                    );
                }
                account.balance = account.balance - fee;
                Ok(address)
            },
        },
        OperationFeePayer::NetworkEscrow(commitment) => match ledger.networks.get_mut(&commitment) {
            None => Err(Error::msg("operation fee payer Network is missing")),
            Some(network) => {
                if network.escrow_balance < fee {
                    return Err(
                        Error::owned(
                            join4(
                                "insufficient Network Escrow for operation fee: available ",
                                format_mrk(network.escrow_balance).as_str(),
                                ", required ",
                                format_mrk(fee).as_str(),
                            ),
                        ),
                    );
                }
                network.escrow_balance = network.escrow_balance - fee;
                Ok(join2("network:", commitment.as_str()))
            },
        },
    }
}

/// The ledger after an operation has been charged its fee, which is burned.
pub open spec fn fee_charged(ledger: LedgerModel, operation: SignedModel) -> Outcome<
    (LedgerModel, ChargeModel),
> {
    match envelope_checked(ledger, operation.unsigned, operation.intake.fee_units) {
        Err(refusal) => Err(refusal),
        Ok(quote) => {
            let units = clamped_u64(units_of(ledger, ledger.pending_operation_ids) as int)
                + quote.units;
            if units > u64::MAX {
                Err("pending operation fee units overflow"@)
            } else if units > ledger.settings.fee_policy.max_units_per_block {
                Err(
                    "pending operation fee units exceed the per-block limit of "@ + decimal(
                        ledger.settings.fee_policy.max_units_per_block as nat,
                    ),
                )
            } else if quote.fee == 0 {
                Ok((ledger, ChargeModel { payer: None, charged: 0, burned: 0 }))
            } else {
                match payer_of(ledger, operation) {
                    Err(refusal) => Err(refusal),
                    Ok(payer) => match fee_paid(ledger, payer, quote.fee) {
                        Err(refusal) => Err(refusal),
                        Ok(paid) => if ledger.burned + quote.fee > u128::MAX {
                            Err("burn counter overflow"@)
                        } else if ledger.fee_units_used_in_epoch + quote.units > u64::MAX {
                            Err("Epoch fee units overflow"@)
                        } else {
                            Ok(
                                (
                                    LedgerModel {
                                        burned: (ledger.burned + quote.fee) as u128,
                                        fee_units_used_in_epoch: (ledger.fee_units_used_in_epoch
                                            + quote.units) as u64,
                                        ..paid.0
                                    },
                                    ChargeModel {
                                        payer: Some(paid.1),
                                        charged: quote.fee,
                                        burned: quote.fee,
                                    },
                                ),
                            )
                        },
                    },
                }
            }
        },
    }
}

/// Charges an operation its fee.
pub fn charge_operation_fee(ledger: &mut LedgerState, operation: &SignedOperation) -> (r: Result<
    OperationFeeCharge,
>)
    ensures
        match fee_charged(old(ledger)@, operation.deep_view()) {
            Ok(charged) => final(ledger)@ == charged.0 && (r matches Ok(charge)
                && charge.deep_view() == charged.1),
            Err(refusal) => final(ledger)@ == old(ledger)@ && (r matches Err(error) && error@
                == refusal),
        },
{
    let quote = validate_envelope(ledger, &operation.unsigned, operation.intake.fee_units)?;
    let units: u64 = match pending_fee_units(ledger).checked_add(quote.units) {
        None => {
            return Err(Error::msg("pending operation fee units overflow"));
        },
        Some(units) => units,
    };
    if units > ledger.settings.fee_policy.max_units_per_block {
        return Err(
            Error::owned(
                join2(
                    "pending operation fee units exceed the per-block limit of ",
                    u64_text(ledger.settings.fee_policy.max_units_per_block).as_str(),
                ),
            ),
        );
    }
    if quote.fee == 0 {
        return Ok(OperationFeeCharge { payer: None, charged: 0, burned: 0 });
    }
    let payer = operation_fee_payer(ledger, operation)?;
    let burned: Option<u128> = ledger.burned.checked_add(quote.fee);
    let used: Option<u64> = ledger.fee_units_used_in_epoch.checked_add(quote.units);
    match (burned, used) {
        (Some(burned), Some(used)) => {
            let name = pay_fee(ledger, payer, quote.fee)?;
            ledger.burned = burned;
            ledger.fee_units_used_in_epoch = used;
            Ok(OperationFeeCharge { payer: Some(name), charged: quote.fee, burned: quote.fee })
        },
        _ => {
            let mut trial = ledger.copy();
            pay_fee(&mut trial, payer, quote.fee)?;
            if burned.is_none() {
                return Err(Error::msg("burn counter overflow"));
            }
            Err(Error::msg("Epoch fee units overflow"))
        },
    }
}

/// A pending operation with what decides its place.
pub struct Pending {
    pub signer: String,
    pub nonce: u64,
    pub operation_id: String,
}

/// The contents of `Pending`.
#[verifier::ext_equal]
pub struct PendingModel {
    pub signer: Seq<char>,
    pub nonce: u64,
    pub operation_id: Seq<char>,
}

impl DeepView for Pending {
    type V = PendingModel;

    open spec fn deep_view(&self) -> PendingModel {
        PendingModel {
            signer: self.signer@,
            nonce: self.nonce,
            operation_id: self.operation_id@,
        }
    }
}

impl Replicate for Pending {
    fn replicate(&self) -> (r: Pending) {
        Pending {
            signer: self.signer.clone(),
            nonce: self.nonce,
            operation_id: self.operation_id.clone(),
        }
    }
}

impl Ranked for Pending {
    /// By signer, then in the order in which the signer numbered them, then by identifier.
    open spec fn precedes(a: PendingModel, b: PendingModel) -> bool {
        text_lt(a.signer, b.signer) || (a.signer == b.signer && (a.nonce < b.nonce || (a.nonce
            == b.nonce && text_lt(a.operation_id, b.operation_id))))
    }

    fn comes_before(&self, other: &Pending) -> (r: bool) {
        text_less(self.signer.as_str(), other.signer.as_str()) || (text_same(
            self.signer.as_str(),
            other.signer.as_str(),
        ) && (self.nonce < other.nonce || (self.nonce == other.nonce && text_less(
            self.operation_id.as_str(),
            other.operation_id.as_str(),
        ))))
    }
}

pub open spec fn pending_of(ledger: LedgerModel, operation_id: Seq<char>) -> PendingModel {
    if ledger.operations.contains_key(operation_id) {
        PendingModel {
            signer: ledger.operations[operation_id].signer,
            nonce: ledger.operations[operation_id].nonce,
            operation_id,
        }
    } else {
        PendingModel { signer: Seq::empty(), nonce: 0, operation_id }
    }
}

/// The pending operations in the order in which they are executed.
pub open spec fn pending_sorted(ledger: LedgerModel) -> Seq<Seq<char>> {
    arranged::<Pending>(
        ledger.pending_operation_ids.map_values(|id: Seq<char>| pending_of(ledger, id)),
    ).map_values(|pending: PendingModel| pending.operation_id)
}

/// Puts the pending operations in the order in which they are executed.
pub fn sort_pending_operation_ids(ledger: &mut LedgerState)
    ensures
        final(ledger)@ == (LedgerModel {
            pending_operation_ids: pending_sorted(old(ledger)@),
            ..old(ledger)@
        }),
{
    let ghost ids = ledger.pending_operation_ids.deep_view();
    let mut items: Vec<Pending> = Vec::new();
    let mut i: usize = 0;
    while i < ledger.pending_operation_ids.len()
        invariant
            i <= ids.len(),
            ids == ledger.pending_operation_ids.deep_view(),
            ledger@ == old(ledger)@,
            items@.len() == i,
            forall|j: int|
                0 <= j < i ==> (#[trigger] items@[j]).deep_view() == pending_of(ledger@, ids[j]),
        decreases ids.len() - i,
    {
        let id = &ledger.pending_operation_ids[i];
        assert(ids[i as int] == id@);
        let item = match ledger.operations.get(id) {
            Some(record) => Pending {
                signer: record.signer.clone(),
                nonce: record.nonce,
                operation_id: id.clone(),
            },
            None => Pending { signer: String::new(), nonce: 0, operation_id: id.clone() },
        };
        assert(item.deep_view() == pending_of(ledger@, ids[i as int]));
        items.push(item);
        i = i + 1;
    }
    assert(items.deep_view() =~= ids.map_values(|id: Seq<char>| pending_of(ledger@, id)));
    let sorted = arrange(&items);
    let mut out: Vec<String> = Vec::new();
    let mut j: usize = 0;
    while j < sorted.len()
        invariant
            j <= sorted@.len(),
            out@.len() == j,
            forall|k: int|
                0 <= k < j ==> (#[trigger] out@[k])@ == sorted.deep_view()[k].operation_id,
        decreases sorted@.len() - j,
    {
        out.push(sorted[j].operation_id.clone());
        j = j + 1;
    }
    assert(out.deep_view() =~= pending_sorted(ledger@));
    ledger.pending_operation_ids = out;
}

/// The record of an operation that has been taken over.
pub open spec fn record_of(
    operation: SignedModel,
    operation_id: Seq<char>,
    charge: ChargeModel,
) -> OperationModel {
    OperationModel {
        operation_id,
        kind: operation.unsigned.module + "."@ + operation.unsigned.action,
        signer: operation.unsigned.signer,
        nonce: operation.unsigned.account_nonce,
        created_at: clamped_i64(
            operation.unsigned.valid_until - DEFAULT_OPERATION_VALIDITY_SECONDS,
        ),
        status: OperationStatus::Pending,
        error: None,
        payload: operation.unsigned.payload,
        signature: operation.signature,
        block_height: None,
        signed_operation: Some(operation),
        fee_payer: charge.payer,
        fee_charged: charge.charged,
        fee_burned: charge.burned,
        fee_to_treasury: 0,
    }
}

pub fn make_record(
    operation: &SignedOperation,
    operation_id: &str,
    charge: OperationFeeCharge,
) -> (r: OperationRecord)
    ensures
        r.deep_view() == record_of(operation.deep_view(), operation_id@, charge.deep_view()),
{
    OperationRecord {
        operation_id: operation_id.to_owned(),
        kind: join3(
            operation.unsigned.module.as_str(),
            ".",
            operation.unsigned.action.as_str(),
        ),
        signer: operation.unsigned.signer.clone(),
        nonce: operation.unsigned.account_nonce,
        created_at: saturating_sub_i64(
            operation.unsigned.valid_until,
            DEFAULT_OPERATION_VALIDITY_SECONDS,
        ),
        status: OperationStatus::Pending,
        error: None,
        payload: operation.unsigned.payload.replicate(),
        signature: operation.signature.clone(),
        block_height: None,
        signed_operation: Some(operation.replicate()),
        fee_payer: charge.payer,
        fee_charged: charge.charged,
        fee_burned: charge.burned,
        fee_to_treasury: 0,
    }
}

/// The ledger with one more pending operation, in its place.
pub open spec fn enqueued(
    ledger: LedgerModel,
    operation_id: Seq<char>,
    record: OperationModel,
) -> LedgerModel {
    let added = LedgerModel {
        operations: ledger.operations.insert(operation_id, record),
        pending_operation_ids: ledger.pending_operation_ids.push(operation_id),
        ..ledger
    };
    LedgerModel { pending_operation_ids: pending_sorted(added), ..added }
}

pub fn enqueue(ledger: &mut LedgerState, operation_id: &str, record: OperationRecord)
    ensures
        final(ledger)@ == enqueued(old(ledger)@, operation_id@, record.deep_view()),
{
    let ghost before = ledger.pending_operation_ids.deep_view();
    ledger.operations.insert(operation_id.to_owned(), record);
    ledger.pending_operation_ids.push(operation_id.to_owned());
    assert(ledger.pending_operation_ids.deep_view() =~= before.push(operation_id@));
    sort_pending_operation_ids(ledger);
}

/// The ledger after an operation, whose effect has been applied already, has been charged, numbered
/// and queued for the next block.
#[verifier::opaque]
pub open spec fn operation_finalized(
    ledger: LedgerModel,
    operation: SignedModel,
    operation_id: Seq<char>,
    now: i64,
) -> Outcome<LedgerModel> {
    let tidied = starved_proposals_cancelled(idle_voting_reset(ledger, now), now);
    let signer = operation.unsigned.signer;
    if tidied.consensus.proposal is Some || tidied.consensus.valid_proposal is Some {
        Err(
            "a consensus proposal is in progress; retry the operation after finality or a round change"@,
        )
    } else if tidied.pending_operation_ids.len() >= MAX_BLOCK_OPERATIONS {
        Err(
            "pending operation queue reached the "@ + decimal(MAX_BLOCK_OPERATIONS as nat)
                + " operation block limit"@,
        )
    } else {
        match fee_charged(tidied, operation) {
            Err(refusal) => Err(refusal),
            Ok(charged) => if !charged.0.accounts.contains_key(signer) {
                Err("operation signer account does not exist"@)
            } else if operation.unsigned.account_nonce != charged.0.accounts[signer].nonce + 1 {
                Err("operation nonce is not the next account nonce"@)
            } else {
                let account = charged.0.accounts[signer];
                let numbered = with_account(
                    charged.0,
                    signer,
                    AccountModel {
                        nonce: operation.unsigned.account_nonce,
                        operation_ids: account.operation_ids.push(operation_id),
                        ..account
                    },
                );
                Ok(
                    enqueued(
                        numbered,
                        operation_id,
                        record_of(operation, operation_id, charged.1),
                    ),
                )
            },
        }
    }
}

/// Charges, numbers and queues an operation whose effect has been applied already.
/// On a refusal the ledger may be left half-way.
pub(crate) fn complete_operation(
    ledger: &mut LedgerState,
    operation: &SignedOperation,
    operation_id: &str,
    now: i64,
) -> (r: Result<()>)
    ensures
        match operation_finalized(old(ledger)@, operation.deep_view(), operation_id@, now) {
            Ok(next) => r is Ok && final(ledger)@ == next,
            Err(refusal) => r matches Err(error) && error@ == refusal,
        },
{
    proof {
        reveal(operation_finalized);
    }
    reset_multi_validator_consensus_if_node1_mode(ledger, now);
    cancel_governance_proposals_below_threshold(ledger, now);
    if ledger.consensus.proposal.is_some() || ledger.consensus.valid_proposal.is_some() {
        return Err(
            Error::msg(
                "a consensus proposal is in progress; retry the operation after finality or a round change",
            ),
        );
    }
    if ledger.pending_operation_ids.len() >= MAX_BLOCK_OPERATIONS {
        return Err(
            Error::owned(
                join3(
                    "pending operation queue reached the ",
                    usize_text(MAX_BLOCK_OPERATIONS).as_str(),
                    " operation block limit",
                ),
            ),
        );
    }
    let charge = charge_operation_fee(ledger, operation)?;
    number_operation(ledger, operation, operation_id)?;
    enqueue(ledger, operation_id, make_record(operation, operation_id, charge));
    Ok(())
}

/// Charges, numbers and queues an operation whose effect has been applied already.
pub fn finalize_operation(
    ledger: &mut LedgerState,
    operation: &SignedOperation,
    operation_id: &str,
    now: i64,
) -> (r: Result<()>)
    ensures
        match operation_finalized(old(ledger)@, operation.deep_view(), operation_id@, now) {
            Ok(next) => r is Ok && final(ledger)@ == next,
            Err(refusal) => final(ledger)@ == old(ledger)@ && (r matches Err(error) && error@
                == refusal),
        },
{
    let mut next = ledger.copy();
    complete_operation(&mut next, operation, operation_id, now)?;
    *ledger = next;
    Ok(())
}

fn number_operation(
    ledger: &mut LedgerState,
    operation: &SignedOperation,
    operation_id: &str,
) -> (r: Result<()>)
    ensures
        ({
            let signer = operation.deep_view().unsigned.signer;
            let account = old(ledger)@.accounts[signer];
            if !old(ledger)@.accounts.contains_key(signer) {
                r matches Err(error) && error@ == "operation signer account does not exist"@
            } else if operation.unsigned.account_nonce != account.nonce + 1 {
                r matches Err(error) && error@ == "operation nonce is not the next account nonce"@
            } else {
                r is Ok && final(ledger)@ == with_account(
                    old(ledger)@,
                    signer,
                    AccountModel {
                        nonce: operation.unsigned.account_nonce,
                        operation_ids: account.operation_ids.push(operation_id@),
                        ..account
                    },
                )
            }
        }),
{
    match ledger.accounts.get_mut(&operation.unsigned.signer) {
        None => Err(Error::msg("operation signer account does not exist")),
        Some(account) => {
            if account.nonce == u64::MAX || operation.unsigned.account_nonce != account.nonce + 1 {
                return Err(Error::msg("operation nonce is not the next account nonce"));
            }
            account.nonce = operation.unsigned.account_nonce;
            let ghost before = account.operation_ids.deep_view();
            account.operation_ids.push(operation_id.to_owned());
            assert(account.operation_ids.deep_view() =~= before.push(operation_id@));
            Ok(())
        },
    }
}

proof fn cancelling_keeps_proposals(ledger: LedgerModel, ids: Seq<u64>, now: i64, proposal_id: u64)
    requires
        ledger.governance.proposals.contains_key(proposal_id),
    ensures
        proposals_cancelled(ledger, ids, now).governance.proposals.contains_key(proposal_id),
    decreases ids.len(),
{
    if ids.len() > 0 {
        cancelling_keeps_proposals(
            proposal_cancelled(ledger, ids[0], now),
            ids.drop_first(),
            now,
            proposal_id,
        );
    }
}

/// Queueing an operation drops no proposal.
pub proof fn queueing_keeps_proposals(
    ledger: LedgerModel,
    operation: SignedModel,
    operation_id: Seq<char>,
    now: i64,
    proposal_id: u64,
)
    requires
        operation_finalized(ledger, operation, operation_id, now) is Ok,
        ledger.governance.proposals.contains_key(proposal_id),
    ensures
        operation_finalized(
            ledger,
            operation,
            operation_id,
            now,
        )->Ok_0.governance.proposals.contains_key(proposal_id),
{
    reveal(operation_finalized);
    let reset = idle_voting_reset(ledger, now);
    cancelling_keeps_proposals(reset, cancellable_ids(reset, now), now, proposal_id);
}

/// A fee leaves the funds of its payer, and all of it is burned.
pub proof fn fees_are_burned(ledger: LedgerModel, operation: SignedModel)
    requires
        fee_charged(ledger, operation) is Ok,
    ensures
        ({
            let (next, charge) = fee_charged(ledger, operation)->Ok_0;
            &&& charge.burned == charge.charged
            &&& next.burned == ledger.burned + charge.charged
            &&& charge.charged > 0 ==> {
                let payer = payer_of(ledger, operation)->Ok_0;
                payer_funds(next, payer) + charge.charged == payer_funds(ledger, payer)
            }
            &&& next.treasury == ledger.treasury
            &&& next.nodes == ledger.nodes
        }),
{
}

proof fn pending_are_in_order()
    ensures
        forall|a: PendingModel, b: PendingModel| #[trigger]
            Pending::precedes(a, b) ==> !Pending::precedes(b, a),
        forall|a: PendingModel, b: PendingModel, c: PendingModel|
            #![trigger Pending::precedes(b, a), Pending::precedes(c, b)]
            !Pending::precedes(b, a) && !Pending::precedes(c, b) ==> !Pending::precedes(c, a),
{
    assert forall|a: PendingModel, b: PendingModel| #[trigger] Pending::precedes(a, b) implies
        !Pending::precedes(b, a) by {
        crate::text::texts_are_in_order(a.signer, b.signer, a.signer);
        crate::text::texts_are_in_order(a.operation_id, b.operation_id, a.operation_id);
    }
    assert forall|a: PendingModel, b: PendingModel, c: PendingModel|
        #![trigger Pending::precedes(b, a), Pending::precedes(c, b)]
        !Pending::precedes(b, a) && !Pending::precedes(c, b) implies !Pending::precedes(c, a) by {
        crate::text::texts_are_in_order(a.signer, b.signer, c.signer);
        crate::text::texts_are_in_order(b.signer, c.signer, a.signer);
        crate::text::texts_are_in_order(c.signer, a.signer, b.signer);
        crate::text::texts_are_in_order(a.operation_id, b.operation_id, c.operation_id);
        crate::text::texts_are_in_order(b.operation_id, c.operation_id, a.operation_id);
        crate::text::texts_are_in_order(c.operation_id, a.operation_id, b.operation_id);
    }
}

/// The pending operations of a signer are executed in the order in which the signer has numbered them,
/// and every pending operation is executed once.
pub proof fn pending_operations_keep_their_numbers(ledger: LedgerModel, i: int, j: int)
    requires
        0 <= i < j < ledger.pending_operation_ids.len(),
        forall|k: int|
            0 <= k < ledger.pending_operation_ids.len() ==> ledger.operations.contains_key(
                #[trigger] ledger.pending_operation_ids[k],
            ),
    ensures
        pending_sorted(ledger).len() == ledger.pending_operation_ids.len(),
        pending_sorted(ledger).to_multiset() == ledger.pending_operation_ids.to_multiset(),
        ({
            let first = ledger.operations[pending_sorted(ledger)[i]];
            let second = ledger.operations[pending_sorted(ledger)[j]];
            first.signer == second.signer ==> first.nonce <= second.nonce
        }),
{
    let ids = ledger.pending_operation_ids;
    let items = ids.map_values(|id: Seq<char>| pending_of(ledger, id));
    let sorted = arranged::<Pending>(items);
    pending_are_in_order();
    crate::sequence::arranged_are_in_order::<Pending>(items);
    crate::sequence::arranged_all::<Pending>(
        items,
        |item: PendingModel|
            ledger.operations.contains_key(item.operation_id) && item == pending_of(
                ledger,
                item.operation_id,
            ),
    );
    assert(!Pending::precedes(sorted[j], sorted[i]));
    assert(pending_sorted(ledger)[i] == sorted[i].operation_id);
    assert(pending_sorted(ledger)[j] == sorted[j].operation_id);
    crate::text::texts_are_in_order(sorted[i].signer, sorted[j].signer, sorted[i].signer);
    sorted_ids_are_the_same(ledger, ids);
}

proof fn sorted_ids_are_the_same(ledger: LedgerModel, ids: Seq<Seq<char>>)
    ensures
        arranged::<Pending>(ids.map_values(|id: Seq<char>| pending_of(ledger, id))).map_values(
            |pending: PendingModel| pending.operation_id,
        ).to_multiset() == ids.to_multiset(),
    decreases ids.len(),
{
    broadcast use vstd::seq_lib::group_to_multiset_ensures;

    let seen = |id: Seq<char>| pending_of(ledger, id);
    let name = |pending: PendingModel| pending.operation_id;
    let items = ids.map_values(seen);
    if ids.len() == 0 {
        assert(arranged::<Pending>(items).map_values(name) =~= ids);
    } else {
        let rest = ids.drop_last();
        sorted_ids_are_the_same(ledger, rest);
        assert(items.drop_last() =~= rest.map_values(seen));
        let earlier = arranged::<Pending>(items.drop_last());
        let at = crate::sequence::place::<Pending>(earlier, items.last());
        crate::sequence::place_bounds::<Pending>(earlier, items.last());
        let all = arranged::<Pending>(items);
        assert(all == earlier.insert(at, items.last()));
        assert(all.map_values(name) =~= earlier.map_values(name).insert(at, ids.last()));
        assert(earlier.map_values(name).insert(at, ids.last()).to_multiset()
            =~= earlier.map_values(name).to_multiset().insert(ids.last()));
        assert(ids =~= rest.push(ids.last()));
        assert(ids.to_multiset() =~= rest.to_multiset().insert(ids.last()));
    }
}

/// A session is paid for by the fund of its network, what concerns a node by the node's reward account,
/// and everything else by its signer. What is paid is the quoted fee, and the load of the epoch grows
/// by the units of the operation.
pub proof fn operations_are_charged_to_their_payer(ledger: LedgerModel, operation: SignedModel)
    requires
        fee_charged(ledger, operation) is Ok,
    ensures
        ({
            let (next, charge) = fee_charged(ledger, operation)->Ok_0;
            let module = operation.unsigned.module;
            let action = operation.unsigned.action;
            let payload = operation.unsigned.payload;
            let of_node = module == "NodeRegistry"@ || module == "NodeEmissionController"@ || module
                == "StakeVault"@;
            &&& crate::fees::quoted(ledger, operation.intake.fee_units) matches Ok(quote)
                && charge.charged == quote.fee
            &&& charge.charged <= operation.unsigned.max_fee_base_units
            &&& charge.charged > 0 ==> {
                &&& next.fee_units_used_in_epoch == ledger.fee_units_used_in_epoch
                    + operation.intake.fee_units
                &&& module == "TrafficPayment"@ && action == "ReserveSession"@ ==> {
                    &&& required_text(payload, "network_commitment"@) matches Ok(commitment)
                        && charge.charged + next.networks[commitment].escrow_balance
                        == ledger.networks[commitment].escrow_balance
                    &&& next.accounts == ledger.accounts
                }
                &&& of_node && !(module == "NodeRegistry"@ && action == "RegisterNode"@) && !(module
                    == "TrafficPayment"@ && action == "ReserveSession"@) ==> {
                    &&& required_u64(payload, "node_id"@, "fee-paying Node ID is invalid"@) matches
                        Ok(node_id) && balance_of(next, ledger.nodes[node_id].reward_address)
                        == balance_of(ledger, ledger.nodes[node_id].reward_address) - charge.charged
                    &&& next.networks == ledger.networks
                }
                &&& !of_node && !(module == "TrafficPayment"@ && action == "ReserveSession"@) ==> {
                    &&& balance_of(next, operation.unsigned.signer) == balance_of(
                        ledger,
                        operation.unsigned.signer,
                    ) - charge.charged
                    &&& next.networks == ledger.networks
                }
            }
        }),
{
}

proof fn cancelling_ends_the_listed(
    ledger: LedgerModel,
    ids: Seq<u64>,
    now: i64,
    proposal_id: u64,
)
    requires
        ledger.governance.proposals.contains_key(proposal_id),
    ensures
        ({
            let after = proposals_cancelled(ledger, ids, now).governance.proposals;
            let before = ledger.governance.proposals[proposal_id];
            &&& after.contains_key(proposal_id)
            &&& !ids.contains(proposal_id) ==> after[proposal_id] == before
            &&& ids.contains(proposal_id) ==> after[proposal_id] == (ProposalModel {
                status: GovernanceProposalStatus::Cancelled,
                finalized_at: Some(now),
                proposal_bond: 0,
                ..before
            })
        }),
    decreases ids.len(),
{
    if ids.len() > 0 {
        let rest = ids.drop_first();
        let next = proposal_cancelled(ledger, ids[0], now);
        cancelling_ends_the_listed(next, rest, now, proposal_id);
        assert(ids.contains(proposal_id) <==> ids[0] == proposal_id || rest.contains(
            proposal_id,
        )) by {
            if ids.contains(proposal_id) {
                let i = choose|i: int| 0 <= i < ids.len() && ids[i] == proposal_id;
                if i > 0 {
                    assert(rest[i - 1] == proposal_id);
                }
            }
            if rest.contains(proposal_id) {
                let i = choose|i: int| 0 <= i < rest.len() && rest[i] == proposal_id;
                assert(ids[i + 1] == proposal_id);
            }
        }
    }
}

/// A proposal that is open or has passed is cancelled as soon as fewer nodes count in governance than
/// its kind asks for, twenty for a standard one and fifty for a critical one. Every other proposal stays
/// as it was.
pub proof fn starved_proposals_end(ledger: LedgerModel, now: i64, proposal_id: u64)
    requires
        ledger.governance.proposals.dom().finite(),
        ledger.governance.proposals.contains_key(proposal_id),
    ensures
        ({
            let before = ledger.governance.proposals[proposal_id];
            let after = starved_proposals_cancelled(
                ledger,
                now,
            ).governance.proposals[proposal_id];
            let needed = if before.kind == crate::model::GovernanceProposalKind::Critical {
                50int
            } else {
                20
            };
            let undecided = before.status == GovernanceProposalStatus::Voting || before.status
                == GovernanceProposalStatus::Passed;
            &&& undecided && eligible_ids(ledger, now).len() < needed ==> after.status
                == GovernanceProposalStatus::Cancelled && after.finalized_at == Some(now)
                && after.proposal_bond == 0
            &&& !(undecided && eligible_ids(ledger, now).len() < needed) ==> after == before
        }),
{
    let chosen = |id: u64|
        is_cancellable(ledger.governance.proposals[id], eligible_ids(ledger, now).len());
    let keys = ordered::<u64>(ledger.governance.proposals.dom());
    crate::table::ordered_lists_all::<u64>(ledger.governance.proposals.dom());
    crate::sequence::filtered_are_chosen(keys, chosen);
    assert(keys.contains(proposal_id));
    cancelling_ends_the_listed(ledger, cancellable_ids(ledger, now), now, proposal_id);
}

/// An operation that is taken over bears the next number of its signer's account, which is then the
/// account's number; its record is pending under its identifier and names what was charged. Nothing is
/// taken over while the committee decides on a block.
pub proof fn queued_operations_are_numbered(
    ledger: LedgerModel,
    operation: SignedModel,
    operation_id: Seq<char>,
    now: i64,
)
    requires
        operation_finalized(ledger, operation, operation_id, now) is Ok,
    ensures
        ({
            let after = operation_finalized(ledger, operation, operation_id, now)->Ok_0;
            let signer = operation.unsigned.signer;
            let record = after.operations[operation_id];
            &&& after.accounts.contains_key(signer)
            &&& after.accounts[signer].nonce == operation.unsigned.account_nonce
            &&& after.accounts[signer].operation_ids.last() == operation_id
            &&& after.operations.contains_key(operation_id)
            &&& record.status == OperationStatus::Pending
            &&& record.signer == signer
            &&& record.nonce == operation.unsigned.account_nonce
            &&& record.block_height is None
            &&& record.fee_charged == record.fee_burned
            &&& after.burned == ledger.burned + record.fee_charged
            &&& after.pending_operation_ids.len() == ledger.pending_operation_ids.len() + 1
            &&& after.pending_operation_ids.to_multiset()
                == ledger.pending_operation_ids.to_multiset().insert(operation_id)
            &&& after.consensus.proposal is None
            &&& after.consensus.valid_proposal is None
        }),
{
    broadcast use vstd::seq_lib::group_to_multiset_ensures;

    reveal(operation_finalized);
    let reset = idle_voting_reset(ledger, now);
    let tidied = starved_proposals_cancelled(reset, now);
    cancelling_keeps_the_queue(reset, cancellable_ids(reset, now), now);
    let charged = fee_charged(tidied, operation)->Ok_0;
    let signer = operation.unsigned.signer;
    let account = charged.0.accounts[signer];
    let numbered = with_account(
        charged.0,
        signer,
        AccountModel {
            nonce: operation.unsigned.account_nonce,
            operation_ids: account.operation_ids.push(operation_id),
            ..account
        },
    );
    let added = LedgerModel {
        operations: numbered.operations.insert(
            operation_id,
            record_of(operation, operation_id, charged.1),
        ),
        pending_operation_ids: numbered.pending_operation_ids.push(operation_id),
        ..numbered
    };
    sorted_ids_are_the_same(added, added.pending_operation_ids);
    crate::sequence::arranged_keeps_items::<Pending>(
        added.pending_operation_ids.map_values(|id: Seq<char>| pending_of(added, id)),
    );
    assert(added.pending_operation_ids.to_multiset()
        =~= ledger.pending_operation_ids.to_multiset().insert(operation_id));
}

proof fn cancelling_keeps_the_queue(ledger: LedgerModel, ids: Seq<u64>, now: i64)
    ensures
        ({
            let after = proposals_cancelled(ledger, ids, now);
            &&& after.pending_operation_ids == ledger.pending_operation_ids
            &&& after.burned == ledger.burned
            &&& after.consensus == ledger.consensus
        }),
    decreases ids.len(),
{
    if ids.len() > 0 {
        cancelling_keeps_the_queue(
            proposal_cancelled(ledger, ids[0], now),
            ids.drop_first(),
            now,
        );
    }
}

} // verus!
