use vstd::prelude::*;
use vstd::string::*;

use crate::accounts::{
    account_balance, add_history, balance_of, credit_account, credited, debit_account, debited,
    history_added,
};
use crate::error::{outcome, Error, Outcome, Result};
use crate::governance::{
    action_applied, action_checked, apply_governance_proposal_action, ensure_replicated_node_owner,
    owner_checked, validate_governance_proposal_action,
};
use crate::model::{
    copy_values, BallotModel, Field, FieldModel, GovernanceModel, GovernanceProposalAction,
    GovernanceProposalKind, GovernanceProposalRecord, GovernanceProposalStatus,
    GovernanceValidatorVoteRecord, GovernanceVoteChoice, GovernanceVoteRecord, LedgerModel,
    LedgerState, Payload, ProposalActionModel, ProposalModel, SignedModel, SignedOperation,
    SpendModel, TreasurySpendRecord, ValidatorBallotModel,
};
use crate::nodes::node_ids;
use crate::number::{clamped_u128, clamped_u64, saturating_mul_u128};
use crate::operations::with_proposal;
use crate::payload::{
    malformed, malformed_field, payload_i64, payload_str, payload_u64, required_i64, required_text,
    required_u64, PayloadModel,
};
use crate::protocol::GOVERNANCE_PROPOSAL_BOND;
use crate::sequence::{contains_id, first_where, first_where_ends, first_where_step, same_ids};
use crate::table::{ordered, Replicate, Same, Table};
use crate::text::{join2, text_same};
use crate::voting::{
    distributed_mode_checked, ensure_distributed_governance_mode,
    ensure_governance_proposal_node_threshold, governance_power_snapshot, governance_powers,
    governance_tally, governance_tally_passed, power_cast, sum_power, tally_of, tally_passes,
    threshold_checked, treasury_governance_power_snapshot, treasury_powers,
};

verus! {

/// The power of some nodes, added up.
pub open spec fn powers_sum(powers: Map<u64, u128>, ids: Seq<u64>) -> nat
    decreases ids.len(),
{
    if ids.len() == 0 {
        0
    } else {
        powers_sum(powers, ids.drop_last()) + powers[ids.last()] as nat
    }
}

/// All power of a snapshot.
pub open spec fn total_power(powers: Map<u64, u128>) -> u128 {
    clamped_u128(powers_sum(powers, ordered::<u64>(powers.dom())) as int)
}

pub fn sum_powers(powers: &Table<u64, u128>) -> (r: u128)
    ensures
        r == total_power(powers@),
{
    let ghost ids = powers.keys();
    let mut sum: u128 = 0;
    let mut i: usize = 0;
    assert(ids.take(0) =~= Seq::empty());
    while i < powers.len()
        invariant
            i <= ids.len(),
            ids == powers.keys(),
            sum == clamped_u128(powers_sum(powers@, ids.take(i as int)) as int),
        decreases ids.len() - i,
    {
        assert(ids.take(i as int + 1).drop_last() =~= ids.take(i as int));
        sum = sum.saturating_add(*powers.value_at(i));
        i = i + 1;
    }
    assert(ids.take(ids.len() as int) =~= ids);
    sum
}

/// Whether two actions are the same.
pub fn same_action(a: &GovernanceProposalAction, b: &GovernanceProposalAction) -> (r: bool)
    ensures
        r == (a.deep_view() == b.deep_view()),
{
    match (a, b) {
        (
            GovernanceProposalAction::SetParameters { changes: x, effective_epoch: e },
            GovernanceProposalAction::SetParameters { changes: y, effective_epoch: f },
        ) => {
            let epochs = match (e, f) {
                (Some(e), Some(f)) => *e == *f,
                (None, None) => true,
                _ => false,
            };
            epochs && x.same(y)
        },
        (
            GovernanceProposalAction::PauseEmission { reason: x },
            GovernanceProposalAction::PauseEmission { reason: y },
        ) => text_same(x.as_str(), y.as_str()),
        (GovernanceProposalAction::ResumeEmission, GovernanceProposalAction::ResumeEmission) => {
            true
        },
        (
            GovernanceProposalAction::TreasurySpend { recipient: x, amount: m, reference_hash: h },
            GovernanceProposalAction::TreasurySpend { recipient: y, amount: n, reference_hash: k },
        ) => text_same(x.as_str(), y.as_str()) && *m == *n && text_same(h.as_str(), k.as_str()),
        _ => false,
    }
}

pub open spec fn required_kind(payload: PayloadModel) -> Outcome<GovernanceProposalKind> {
    if payload.contains_key("kind"@) {
        match payload["kind"@] {
            FieldModel::Kind(kind) => Ok(kind),
            _ => Err(malformed_field("kind"@)),
        }
    } else {
        Err(malformed_field("kind"@))
    }
}

pub open spec fn required_action(payload: PayloadModel) -> Outcome<ProposalActionModel> {
    if payload.contains_key("action"@) {
        match payload["action"@] {
            FieldModel::Action(action) => Ok(action),
            _ => Err(malformed_field("action"@)),
        }
    } else {
        Err(malformed_field("action"@))
    }
}

pub open spec fn required_choice(payload: PayloadModel) -> Outcome<GovernanceVoteChoice> {
    if payload.contains_key("choice"@) {
        match payload["choice"@] {
            FieldModel::Choice(choice) => Ok(choice),
            _ => Err(malformed_field("choice"@)),
        }
    } else {
        Err(malformed_field("choice"@))
    }
}

pub open spec fn required_powers(payload: PayloadModel) -> Outcome<Map<u64, u128>> {
    if payload.contains_key("power_snapshot"@) {
        match payload["power_snapshot"@] {
            FieldModel::Powers(powers) => Ok(powers),
            _ => Err(malformed_field("power_snapshot"@)),
        }
    } else {
        Err(malformed_field("power_snapshot"@))
    }
}

pub open spec fn required_validators(payload: PayloadModel) -> Outcome<Seq<u64>> {
    if payload.contains_key("validator_snapshot"@) {
        match payload["validator_snapshot"@] {
            FieldModel::NodeIds(ids) => Ok(ids),
            _ => Err(malformed_field("validator_snapshot"@)),
        }
    } else {
        Err(malformed_field("validator_snapshot"@))
    }
}

fn payload_kind(payload: &Payload) -> (r: Result<GovernanceProposalKind>)
    ensures
        outcome(r) == required_kind(payload.deep_view()),
{
    match payload.get("kind") {
        Some(Field::Kind(kind)) => Ok(*kind),
        _ => Err(malformed("kind")),
    }
}

fn payload_action(payload: &Payload) -> (r: Result<GovernanceProposalAction>)
    ensures
        outcome(r) == required_action(payload.deep_view()),
{
    match payload.get("action") {
        Some(Field::Action(action)) => Ok(action.replicate()),
        _ => Err(malformed("action")),
    }
}

fn payload_choice(payload: &Payload) -> (r: Result<GovernanceVoteChoice>)
    ensures
        outcome(r) == required_choice(payload.deep_view()),
{
    match payload.get("choice") {
        Some(Field::Choice(choice)) => Ok(*choice),
        _ => Err(malformed("choice")),
    }
}

fn payload_powers(payload: &Payload) -> (r: Result<Table<u64, u128>>)
    ensures
        outcome(r) == required_powers(payload.deep_view()),
{
    match payload.get("power_snapshot") {
        Some(Field::Powers(powers)) => Ok(powers.replicate()),
        _ => Err(malformed("power_snapshot")),
    }
}

fn payload_validators(payload: &Payload) -> (r: Result<Vec<u64>>)
    ensures
        match r {
            Ok(ids) => required_validators(payload.deep_view()) == Ok::<Seq<u64>, Seq<char>>(ids@),
            Err(error) => required_validators(payload.deep_view()) == Err::<Seq<u64>, Seq<char>>(
                error@,
            ),
        },
{
    match payload.get("validator_snapshot") {
        Some(Field::NodeIds(ids)) => Ok(copy_values(ids)),
        _ => Err(malformed("validator_snapshot")),
    }
}

/// The node that a reward account belongs to.
pub open spec fn reward_node(ledger: LedgerModel, address: Seq<char>) -> Option<u64> {
    first_where(node_ids(ledger), |id: u64| ledger.nodes[id].reward_address == address)
}

fn find_reward_node(ledger: &LedgerState, address: &str) -> (r: Option<u64>)
    ensures
        match reward_node(ledger@, address@) {
            Some(key) => r == Some(ledger@.nodes[key].node_id),
            None => r is None,
        },
{
    let ghost keys = ledger.nodes.keys();
    let ghost met = |id: u64| ledger@.nodes[id].reward_address == address@;
    let mut i: usize = 0;
    proof {
        first_where_ends(keys, met);
    }
    while i < ledger.nodes.len()
        invariant
            i <= keys.len(),
            keys == ledger.nodes.keys(),
            met == (|id: u64| ledger@.nodes[id].reward_address == address@),
            first_where(keys, met) == first_where(keys.skip(i as int), met),
        decreases keys.len() - i,
    {
        proof {
            first_where_step(keys, i as int, met);
        }
        let node = ledger.nodes.value_at(i);
        if text_same(node.reward_address.as_str(), address) {
            return Some(node.node_id);
        }
        i = i + 1;
    }
    proof {
        first_where_ends(keys, met);
    }
    None
}

/// The power of those who decide on an action.
pub open spec fn deciding_powers(
    ledger: LedgerModel,
    action: ProposalActionModel,
    now: i64,
) -> Outcome<Map<u64, u128>> {
    if action is TreasurySpend {
        treasury_powers(ledger, now)
    } else {
        governance_powers(ledger, now)
    }
}

pub fn deciding_power_snapshot(
    ledger: &LedgerState,
    action: &GovernanceProposalAction,
    now: i64,
) -> (r: Result<Table<u64, u128>>)
    ensures
        outcome(r) == deciding_powers(ledger@, action.deep_view(), now),
{
    match action {
        GovernanceProposalAction::TreasurySpend { recipient: _, amount: _, reference_hash: _ } => {
            treasury_governance_power_snapshot(ledger, now)
        },
        _ => governance_power_snapshot(ledger, now),
    }
}

/// What a proposal is made of, apart from who made it and when.
pub struct ProposalDraftModel {
    pub proposal_id: u64,
    pub proposer_node_id: u64,
    pub kind: GovernanceProposalKind,
    pub action: ProposalActionModel,
    pub powers: Map<u64, u128>,
    pub validators: Seq<u64>,
}

/// Reads a proposal and checks it.
pub open spec fn draft_read(
    ledger: LedgerModel,
    operation: SignedModel,
    executed_at: i64,
) -> Outcome<ProposalDraftModel> {
    let payload = operation.unsigned.payload;
    let next_id = if ledger.governance.next_proposal_id < 1 {
        1
    } else {
        ledger.governance.next_proposal_id
    };
    match distributed_mode_checked(ledger, executed_at) {
        Err(refusal) => Err(refusal),
        Ok(_) => match required_u64(payload, "proposal_id"@, "proposal ID is invalid"@) {
            Err(refusal) => Err(refusal),
            Ok(proposal_id) => if proposal_id != next_id {
                Err("proposal ID is not the next ID"@)
            } else {
                match reward_node(ledger, operation.unsigned.signer) {
                    None => Err("proposal signer is not a Node Reward account"@),
                    Some(key) => match required_kind(payload) {
                        Err(refusal) => Err(refusal),
                        Ok(kind) => match required_action(payload) {
                            Err(refusal) => Err(refusal),
                            Ok(action) => match threshold_checked(ledger, kind, executed_at) {
                                Err(refusal) => Err(refusal),
                                Ok(_) => match action_checked(kind, action, ledger, executed_at) {
                                    Err(refusal) => Err(refusal),
                                    Ok(_) => match required_powers(payload) {
                                        Err(refusal) => Err(refusal),
                                        Ok(powers) => match required_validators(payload) {
                                            Err(refusal) => Err(refusal),
                                            Ok(validators) => match deciding_powers(
                                                ledger,
                                                action,
                                                executed_at,
                                            ) {
                                                Err(refusal) => Err(refusal),
                                                Ok(expected) => if powers != expected || (
                                                action is TreasurySpend && validators
                                                    != ledger.consensus.active_validators) {
                                                    Err(
                                                        "proposal snapshots are not deterministic"@,
                                                    )
                                                } else {
                                                    Ok(
                                                        ProposalDraftModel {
                                                            proposal_id,
                                                            proposer_node_id:
                                                                ledger.nodes[key].node_id,
                                                            kind,
                                                            action,
                                                            powers,
                                                            validators,
                                                        },
                                                    )
                                                },
                                            },
                                        },
                                    },
                                },
                            },
                        },
                    },
                }
            },
        },
    }
}

/// A proposal that is put to the vote.
pub open spec fn proposal_opened(
    draft: ProposalDraftModel,
    signer: Seq<char>,
    title: Seq<char>,
    created_at: i64,
    voting_ends_at: i64,
    execute_after: i64,
    snapshot_epoch: u64,
) -> ProposalModel {
    ProposalModel {
        proposal_id: draft.proposal_id,
        proposer_node_id: draft.proposer_node_id,
        proposer_reward_address: signer,
        kind: draft.kind,
        title,
        action: draft.action,
        created_at,
        voting_ends_at,
        execute_after,
        status: GovernanceProposalStatus::Voting,
        snapshot_epoch,
        power_snapshot: draft.powers,
        total_power: total_power(draft.powers),
        votes: Map::empty(),
        validator_snapshot: draft.validators,
        validator_votes: Map::empty(),
        timelock_vetoes: Map::empty(),
        proposal_bond: GOVERNANCE_PROPOSAL_BOND,
        finalized_at: None,
        executed_at: None,
    }
}

/// The ledger after a proposal has been put to the vote.
pub open spec fn proposal_added(ledger: LedgerModel, proposal: ProposalModel) -> LedgerModel {
    LedgerModel {
        governance: GovernanceModel {
            proposals: ledger.governance.proposals.insert(proposal.proposal_id, proposal),
            next_proposal_id: clamped_u64(proposal.proposal_id + 1),
            ..ledger.governance
        },
        ..ledger
    }
}

/// The ledger after the signer of an operation has made a proposal.
pub open spec fn proposal_created(
    ledger: LedgerModel,
    operation: SignedModel,
    executed_at: i64,
) -> Outcome<LedgerModel> {
    let payload = operation.unsigned.payload;
    let signer = operation.unsigned.signer;
    match draft_read(ledger, operation, executed_at) {
        Err(refusal) => Err(refusal),
        Ok(draft) => if balance_of(ledger, signer) < GOVERNANCE_PROPOSAL_BOND {
            Err("insufficient Proposal Bond"@)
        } else {
            match required_u64(
                payload,
                "snapshot_epoch"@,
                "proposal snapshot epoch is invalid"@,
            ) {
                Err(refusal) => Err(refusal),
                Ok(epoch) => if epoch != ledger.epoch_number {
                    Err("proposal snapshot epoch does not match"@)
                } else {
                    match required_text(payload, "title"@) {
                        Err(refusal) => Err(refusal),
                        Ok(title) => match required_i64(
                            payload,
                            "voting_ends_at"@,
                            "voting end is invalid"@,
                        ) {
                            Err(refusal) => Err(refusal),
                            Ok(voting_ends_at) => match required_i64(
                                payload,
                                "execute_after"@,
                                "execution time is invalid"@,
                            ) {
                                Err(refusal) => Err(refusal),
                                Ok(execute_after) => Ok(
                                    proposal_added(
                                        debited(ledger, signer, GOVERNANCE_PROPOSAL_BOND),
                                        proposal_opened(
                                            draft,
                                            signer,
                                            title,
                                            executed_at,
                                            voting_ends_at,
                                            execute_after,
                                            epoch,
                                        ),
                                    ),
                                ),
                            },
                        },
                    }
                },
            }
        },
    }
}

/// A proposal that is about to be opened.
#[derive(Debug)]
pub struct ProposalDraft {
    pub proposal_id: u64,
    pub proposer_node_id: u64,
    pub kind: GovernanceProposalKind,
    pub action: GovernanceProposalAction,
    pub powers: Table<u64, u128>,
    pub validators: Vec<u64>,
}

impl DeepView for ProposalDraft {
    type V = ProposalDraftModel;

    open spec fn deep_view(&self) -> ProposalDraftModel {
        ProposalDraftModel {
            proposal_id: self.proposal_id,
            proposer_node_id: self.proposer_node_id,
            kind: self.kind,
            action: self.action.deep_view(),
            powers: self.powers@,
            validators: self.validators@,
        }
    }
}

fn read_draft(ledger: &LedgerState, operation: &SignedOperation, executed_at: i64) -> (r: Result<
    ProposalDraft,
>)
    ensures
        outcome(r) == draft_read(ledger@, operation.deep_view(), executed_at),
{
    let payload = &operation.unsigned.payload;
    ensure_distributed_governance_mode(ledger, executed_at)?;
    let proposal_id = payload_u64(payload, "proposal_id", "proposal ID is invalid")?;
    let next_id: u64 = if ledger.governance.next_proposal_id < 1 {
        1
    } else {
        ledger.governance.next_proposal_id
    };
    if proposal_id != next_id {
        return Err(Error::msg("proposal ID is not the next ID"));
    }
    let proposer_node_id: u64 = match find_reward_node(ledger, operation.unsigned.signer.as_str()) {
        None => {
            return Err(Error::msg("proposal signer is not a Node Reward account"));
        },
        Some(node_id) => node_id,
    };
    let kind = payload_kind(payload)?;
    let action = payload_action(payload)?;
    ensure_governance_proposal_node_threshold(ledger, &kind, executed_at)?;
    validate_governance_proposal_action(&kind, &action, ledger, executed_at)?;
    let powers = payload_powers(payload)?;
    let validators = payload_validators(payload)?;
    let expected = deciding_power_snapshot(ledger, &action, executed_at)?;
    let spends = matches!(
        action,
        GovernanceProposalAction::TreasurySpend { recipient: _, amount: _, reference_hash: _ }
    );
    if !powers.same(&expected) || (spends && !same_ids(
        &validators,
        &ledger.consensus.active_validators,
    )) {
        return Err(Error::msg("proposal snapshots are not deterministic"));
    }
    Ok(ProposalDraft { proposal_id, proposer_node_id, kind, action, powers, validators })
}

/// Opens a proposal.
pub fn open_proposal(
    draft: ProposalDraft,
    signer: &str,
    title: String,
    created_at: i64,
    voting_ends_at: i64,
    execute_after: i64,
    snapshot_epoch: u64,
) -> (r: GovernanceProposalRecord)
    ensures
        r.deep_view() == proposal_opened(
            draft.deep_view(),
            signer@,
            title@,
            created_at,
            voting_ends_at,
            execute_after,
            snapshot_epoch,
        ),
{
    let total = sum_powers(&draft.powers);
    GovernanceProposalRecord {
        proposal_id: draft.proposal_id,
        proposer_node_id: draft.proposer_node_id,
        proposer_reward_address: signer.to_owned(),
        kind: draft.kind,
        title,
        action: draft.action,
        created_at,
        voting_ends_at,
        execute_after,
        status: GovernanceProposalStatus::Voting,
        snapshot_epoch,
        power_snapshot: draft.powers,
        total_power: total,
        votes: Table::new(),
        validator_snapshot: draft.validators,
        validator_votes: Table::new(),
        timelock_vetoes: Table::new(),
        proposal_bond: GOVERNANCE_PROPOSAL_BOND,
        finalized_at: None,
        executed_at: None,
    }
}

pub fn add_proposal(ledger: &mut LedgerState, proposal: GovernanceProposalRecord)
    ensures
        final(ledger)@ == proposal_added(old(ledger)@, proposal.deep_view()),
{
    let proposal_id: u64 = proposal.proposal_id;
    ledger.governance.proposals.insert(proposal_id, proposal);
    ledger.governance.next_proposal_id = proposal_id.saturating_add(1);
}

fn create_proposal(
    ledger: &mut LedgerState,
    operation: &SignedOperation,
    executed_at: i64,
) -> (r: Result<()>)
    ensures
        match proposal_created(old(ledger)@, operation.deep_view(), executed_at) {
            Ok(next) => r is Ok && final(ledger)@ == next,
            Err(refusal) => final(ledger)@ == old(ledger)@ && (r matches Err(error) && error@
                == refusal),
        },
{
    let payload = &operation.unsigned.payload;
    let signer = operation.unsigned.signer.as_str();
    let draft = read_draft(ledger, operation, executed_at)?;
    if account_balance(ledger, signer) < GOVERNANCE_PROPOSAL_BOND {
        return Err(Error::msg("insufficient Proposal Bond"));
    }
    let epoch = payload_u64(payload, "snapshot_epoch", "proposal snapshot epoch is invalid")?;
    if epoch != ledger.epoch_number {
        return Err(Error::msg("proposal snapshot epoch does not match"));
    }
    let title = payload_str(payload, "title")?;
    let voting_ends_at = payload_i64(payload, "voting_ends_at", "voting end is invalid")?;
    let execute_after = payload_i64(payload, "execute_after", "execution time is invalid")?;
    debit_account(ledger, signer, GOVERNANCE_PROPOSAL_BOND);
    let proposal = open_proposal(
        draft,
        signer,
        title,
        executed_at,
        voting_ends_at,
        execute_after,
        epoch,
    );
    add_proposal(ledger, proposal);
    Ok(())
}

/// The ledger after a node has voted on a proposal.
pub open spec fn vote_cast(
    ledger: LedgerModel,
    public_key: Seq<char>,
    operation: SignedModel,
    operation_id: Seq<char>,
    executed_at: i64,
) -> Outcome<LedgerModel> {
    let payload = operation.unsigned.payload;
    match required_u64(payload, "proposal_id"@, "proposal ID is invalid"@) {
        Err(refusal) => Err(refusal),
        Ok(proposal_id) => match required_u64(payload, "node_id"@, "vote Node ID is invalid"@) {
            Err(refusal) => Err(refusal),
            Ok(node_id) => match owner_checked(
                ledger,
                node_id,
                operation.unsigned.signer,
                public_key,
            ) {
                Err(refusal) => Err(refusal),
                Ok(_) => match required_choice(payload) {
                    Err(refusal) => Err(refusal),
                    Ok(choice) => if !ledger.governance.proposals.contains_key(proposal_id) {
                        Err("governance proposal is missing"@)
                    } else {
                        let proposal = ledger.governance.proposals[proposal_id];
                        match threshold_checked(ledger, proposal.kind, executed_at) {
                            Err(refusal) => Err(refusal),
                            Ok(_) => if !proposal.power_snapshot.contains_key(node_id) {
                                Err("Node is absent from proposal snapshot"@)
                            } else if proposal.status != GovernanceProposalStatus::Voting
                                || executed_at >= proposal.voting_ends_at
                                || proposal.votes.contains_key(node_id) {
                                Err("proposal is not accepting this vote"@)
                            } else {
                                Ok(
                                    with_proposal(
                                        ledger,
                                        proposal_id,
                                        ProposalModel {
                                            votes: proposal.votes.insert(
                                                node_id,
                                                BallotModel {
                                                    node_id,
                                                    choice,
                                                    power: proposal.power_snapshot[node_id],
                                                    operation_id,
                                                    voted_at: executed_at,
                                                },
                                            ),
                                            ..proposal
                                        },
                                    ),
                                )
                            },
                        }
                    },
                },
            },
        },
    }
}

fn proposal_kind(ledger: &LedgerState, proposal_id: u64) -> (r: Result<GovernanceProposalKind>)
    ensures
        match r {
            Ok(kind) => ledger@.governance.proposals.contains_key(proposal_id) && kind
                == ledger@.governance.proposals[proposal_id].kind,
            Err(error) => !ledger@.governance.proposals.contains_key(proposal_id) && error@
                == "governance proposal is missing"@,
        },
{
    match ledger.governance.proposals.get(&proposal_id) {
        None => Err(Error::msg("governance proposal is missing")),
        Some(proposal) => Ok(proposal.kind),
    }
}

fn cast_vote(
    ledger: &mut LedgerState,
    public_key: &str,
    operation: &SignedOperation,
    operation_id: &str,
    executed_at: i64,
) -> (r: Result<()>)
    ensures
        match vote_cast(
            old(ledger)@,
            public_key@,
            operation.deep_view(),
            operation_id@,
            executed_at,
        ) {
            Ok(next) => r is Ok && final(ledger)@ == next,
            Err(refusal) => final(ledger)@ == old(ledger)@ && (r matches Err(error) && error@
                == refusal),
        },
{
    let payload = &operation.unsigned.payload;
    let proposal_id = payload_u64(payload, "proposal_id", "proposal ID is invalid")?;
    let node_id = payload_u64(payload, "node_id", "vote Node ID is invalid")?;
    ensure_replicated_node_owner(
        ledger,
        node_id,
        operation.unsigned.signer.as_str(),
        public_key,
    )?;
    let choice = payload_choice(payload)?;
    let kind = proposal_kind(ledger, proposal_id)?;
    ensure_governance_proposal_node_threshold(ledger, &kind, executed_at)?;
    match ledger.governance.proposals.get_mut(&proposal_id) {
        None => Err(Error::msg("governance proposal is missing")),
        Some(proposal) => {
            let power: u128 = match proposal.power_snapshot.get(&node_id) {
                None => {
                    return Err(Error::msg("Node is absent from proposal snapshot"));
                },
                Some(power) => *power,
            };
            if proposal.status != GovernanceProposalStatus::Voting || executed_at
                >= proposal.voting_ends_at || proposal.votes.contains_key(&node_id) {
                return Err(Error::msg("proposal is not accepting this vote"));
            }
            proposal.votes.insert(
                node_id,
                GovernanceVoteRecord {
                    node_id,
                    choice,
                    power,
                    operation_id: operation_id.to_owned(),
                    voted_at: executed_at,
                },
            );
            Ok(())
        },
    }
}

/// The ledger after a validator has voted on a proposal.
pub open spec fn validator_vote_cast(
    ledger: LedgerModel,
    public_key: Seq<char>,
    operation: SignedModel,
    operation_id: Seq<char>,
    executed_at: i64,
) -> Outcome<LedgerModel> {
    let payload = operation.unsigned.payload;
    match required_u64(payload, "proposal_id"@, "proposal ID is invalid"@) {
        Err(refusal) => Err(refusal),
        Ok(proposal_id) => match required_u64(
            payload,
            "validator_node_id"@,
            "Validator Node ID is invalid"@,
        ) {
            Err(refusal) => Err(refusal),
            Ok(node_id) => match owner_checked(
                ledger,
                node_id,
                operation.unsigned.signer,
                public_key,
            ) {
                Err(refusal) => Err(refusal),
                Ok(_) => match required_choice(payload) {
                    Err(refusal) => Err(refusal),
                    Ok(choice) => if !ledger.governance.proposals.contains_key(proposal_id) {
                        Err("governance proposal is missing"@)
                    } else {
                        let proposal = ledger.governance.proposals[proposal_id];
                        match threshold_checked(ledger, proposal.kind, executed_at) {
                            Err(refusal) => Err(refusal),
                            Ok(_) => if proposal.status != GovernanceProposalStatus::Voting
                                || !proposal.validator_snapshot.contains(node_id)
                                || proposal.validator_votes.contains_key(node_id) {
                                Err("proposal is not accepting this Validator vote"@)
                            } else {
                                Ok(
                                    with_proposal(
                                        ledger,
                                        proposal_id,
                                        ProposalModel {
                                            validator_votes: proposal.validator_votes.insert(
                                                node_id,
                                                ValidatorBallotModel {
                                                    node_id,
                                                    choice,
                                                    operation_id,
                                                    voted_at: executed_at,
                                                },
                                            ),
                                            ..proposal
                                        },
                                    ),
                                )
                            },
                        }
                    },
                },
            },
        },
    }
}

fn cast_validator_vote(
    ledger: &mut LedgerState,
    public_key: &str,
    operation: &SignedOperation,
    operation_id: &str,
    executed_at: i64,
) -> (r: Result<()>)
    ensures
        match validator_vote_cast(
            old(ledger)@,
            public_key@,
            operation.deep_view(),
            operation_id@,
            executed_at,
        ) {
            Ok(next) => r is Ok && final(ledger)@ == next,
            Err(refusal) => final(ledger)@ == old(ledger)@ && (r matches Err(error) && error@
                == refusal),
        },
{
    let payload = &operation.unsigned.payload;
    let proposal_id = payload_u64(payload, "proposal_id", "proposal ID is invalid")?;
    let node_id = payload_u64(payload, "validator_node_id", "Validator Node ID is invalid")?;
    ensure_replicated_node_owner(
        ledger,
        node_id,
        operation.unsigned.signer.as_str(),
        public_key,
    )?;
    let choice = payload_choice(payload)?;
    let kind = proposal_kind(ledger, proposal_id)?;
    ensure_governance_proposal_node_threshold(ledger, &kind, executed_at)?;
    match ledger.governance.proposals.get_mut(&proposal_id) {
        None => Err(Error::msg("governance proposal is missing")),
        Some(proposal) => {
            if proposal.status != GovernanceProposalStatus::Voting || !contains_id(
                &proposal.validator_snapshot,
                node_id,
            ) || proposal.validator_votes.contains_key(&node_id) {
                return Err(Error::msg("proposal is not accepting this Validator vote"));
            }
            proposal.validator_votes.insert(
                node_id,
                GovernanceValidatorVoteRecord {
                    node_id,
                    choice,
                    operation_id: operation_id.to_owned(),
                    voted_at: executed_at,
                },
            );
            Ok(())
        },
    }
}

/// The ledger after a node has vetoed a payment out of the treasury. A tenth of all power stops it.
pub open spec fn veto_cast(
    ledger: LedgerModel,
    public_key: Seq<char>,
    operation: SignedModel,
    operation_id: Seq<char>,
    executed_at: i64,
    proposal_id: u64,
) -> Outcome<LedgerModel> {
    let payload = operation.unsigned.payload;
    let proposal = ledger.governance.proposals[proposal_id];
    match required_u64(payload, "node_id"@, "veto Node ID is invalid"@) {
        Err(refusal) => Err(refusal),
        Ok(node_id) => match owner_checked(
            ledger,
            node_id,
            operation.unsigned.signer,
            public_key,
        ) {
            Err(refusal) => Err(refusal),
            Ok(_) => if !proposal.power_snapshot.contains_key(node_id) {
                Err("Node is absent from veto snapshot"@)
            } else if proposal.status != GovernanceProposalStatus::Passed || executed_at
                >= proposal.execute_after || proposal.timelock_vetoes.contains_key(node_id) {
                Err("proposal is not accepting this veto"@)
            } else {
                let vetoes = proposal.timelock_vetoes.insert(
                    node_id,
                    BallotModel {
                        node_id,
                        choice: GovernanceVoteChoice::No,
                        power: proposal.power_snapshot[node_id],
                        operation_id,
                        voted_at: executed_at,
                    },
                );
                let power = clamped_u128(
                    power_cast(vetoes, ordered::<u64>(vetoes.dom())) as int,
                );
                if clamped_u128(power * 10) >= proposal.total_power {
                    Ok(
                        credited(
                            with_proposal(
                                ledger,
                                proposal_id,
                                ProposalModel {
                                    timelock_vetoes: vetoes,
                                    status: GovernanceProposalStatus::Rejected,
                                    finalized_at: Some(executed_at),
                                    proposal_bond: 0,
                                    ..proposal
                                },
                            ),
                            proposal.proposer_reward_address,
                            proposal.proposal_bond,
                        ),
                    )
                } else {
                    Ok(
                        with_proposal(
                            ledger,
                            proposal_id,
                            ProposalModel { timelock_vetoes: vetoes, ..proposal },
                        ),
                    )
                }
            },
        },
    }
}

fn cast_veto(
    ledger: &mut LedgerState,
    public_key: &str,
    operation: &SignedOperation,
    operation_id: &str,
    executed_at: i64,
    proposal_id: u64,
) -> (r: Result<()>)
    requires
        old(ledger)@.governance.proposals.contains_key(proposal_id),
    ensures
        match veto_cast(
            old(ledger)@,
            public_key@,
            operation.deep_view(),
            operation_id@,
            executed_at,
            proposal_id,
        ) {
            Ok(next) => r is Ok && final(ledger)@ == next,
            Err(refusal) => final(ledger)@ == old(ledger)@ && (r matches Err(error) && error@
                == refusal),
        },
{
    let payload = &operation.unsigned.payload;
    let node_id = payload_u64(payload, "node_id", "veto Node ID is invalid")?;
    ensure_replicated_node_owner(
        ledger,
        node_id,
        operation.unsigned.signer.as_str(),
        public_key,
    )?;
    let refund: Option<(String, u128)> = match ledger.governance.proposals.get_mut(&proposal_id) {
        None => None,
        Some(proposal) => {
            let power: u128 = match proposal.power_snapshot.get(&node_id) {
                None => {
                    return Err(Error::msg("Node is absent from veto snapshot"));
                },
                Some(power) => *power,
            };
            if proposal.status != GovernanceProposalStatus::Passed || executed_at
                >= proposal.execute_after || proposal.timelock_vetoes.contains_key(&node_id) {
                return Err(Error::msg("proposal is not accepting this veto"));
            }
            proposal.timelock_vetoes.insert(
                node_id,
                GovernanceVoteRecord {
                    node_id,
                    choice: GovernanceVoteChoice::No,
                    power,
                    operation_id: operation_id.to_owned(),
                    voted_at: executed_at,
                },
            );
            let veto_power = sum_power(&proposal.timelock_vetoes);
            if saturating_mul_u128(veto_power, 10) >= proposal.total_power {
                proposal.status = GovernanceProposalStatus::Rejected;
                proposal.finalized_at = Some(executed_at);
                let bond: u128 = proposal.proposal_bond;
                proposal.proposal_bond = 0;
                Some((proposal.proposer_reward_address.clone(), bond))
            } else {
                None
            }
        },
    };
    if let Some((address, bond)) = refund {
        credit_account(ledger, address.as_str(), bond);
    }
    Ok(())
}

/// What of a proposal's bond is not paid back: a fifth where a standard proposal failed without half
/// of all power taking part.
pub open spec fn bond_forfeited(proposal: ProposalModel) -> u128 {
    let tally = tally_of(proposal);
    if !tally_passes(proposal, tally) && proposal.kind == GovernanceProposalKind::Standard
        && clamped_u128(tally.participation_power * 2) < proposal.total_power {
        proposal.proposal_bond / 5
    } else {
        0
    }
}

/// A proposal whose votes have been counted.
pub open spec fn proposal_counted(proposal: ProposalModel, now: i64) -> ProposalModel {
    ProposalModel {
        status: if tally_passes(proposal, tally_of(proposal)) {
            GovernanceProposalStatus::Passed
        } else {
            GovernanceProposalStatus::Rejected
        },
        finalized_at: Some(now),
        proposal_bond: 0,
        ..proposal
    }
}

/// The ledger after the votes on a proposal have been counted. What is not paid back is burned.
pub open spec fn votes_counted(
    ledger: LedgerModel,
    executed_at: i64,
    proposal_id: u64,
) -> Outcome<LedgerModel> {
    let proposal = ledger.governance.proposals[proposal_id];
    let forfeited = bond_forfeited(proposal);
    if proposal.status != GovernanceProposalStatus::Voting || executed_at
        < proposal.voting_ends_at {
        Err("proposal cannot be finalized now"@)
    } else if ledger.burned + forfeited > u128::MAX {
        Err("burn counter overflow"@)
    } else {
        Ok(
            credited(
                LedgerModel {
                    burned: (ledger.burned + forfeited) as u128,
                    ..with_proposal(ledger, proposal_id, proposal_counted(proposal, executed_at))
                },
                proposal.proposer_reward_address,
                (proposal.proposal_bond - forfeited) as u128,
            ),
        )
    }
}

/// Counts the votes on a proposal and says what of its bond goes back to whom, and what does not.
pub fn count_proposal(proposal: &mut GovernanceProposalRecord, now: i64) -> (r: (
    String,
    u128,
    u128,
))
    ensures
        final(proposal).deep_view() == proposal_counted(old(proposal).deep_view(), now),
        r.0@ == old(proposal).deep_view().proposer_reward_address,
        r.1 == old(proposal).proposal_bond - bond_forfeited(old(proposal).deep_view()),
        r.2 == bond_forfeited(old(proposal).deep_view()),
{
    let tally = governance_tally(proposal);
    let passed = governance_tally_passed(proposal, &tally);
    let forfeited: u128 = if !passed && proposal.kind == GovernanceProposalKind::Standard
        && saturating_mul_u128(tally.participation_power, 2) < proposal.total_power {
        proposal.proposal_bond / 5
    } else {
        0
    };
    let refund: u128 = proposal.proposal_bond - forfeited;
    proposal.status = if passed {
        GovernanceProposalStatus::Passed
    } else {
        GovernanceProposalStatus::Rejected
    };
    proposal.finalized_at = Some(now);
    proposal.proposal_bond = 0;
    (proposal.proposer_reward_address.clone(), refund, forfeited)
}

fn count_votes(ledger: &mut LedgerState, executed_at: i64, proposal_id: u64) -> (r: Result<()>)
    requires
        old(ledger)@.governance.proposals.contains_key(proposal_id),
    ensures
        match votes_counted(old(ledger)@, executed_at, proposal_id) {
            Ok(next) => r is Ok && final(ledger)@ == next,
            Err(refusal) => final(ledger)@ == old(ledger)@ && (r matches Err(error) && error@
                == refusal),
        },
{
    let mut proposal: GovernanceProposalRecord = match ledger.governance.proposals.get(
        &proposal_id,
    ) {
        None => {
            return Err(Error::msg("proposal cannot be finalized now"));
        },
        Some(proposal) => proposal.replicate(),
    };
    if proposal.status != GovernanceProposalStatus::Voting || executed_at
        < proposal.voting_ends_at {
        return Err(Error::msg("proposal cannot be finalized now"));
    }
    let counted = count_proposal(&mut proposal, executed_at);
    match ledger.burned.checked_add(counted.2) {
        None => {
            return Err(Error::msg("burn counter overflow"));
        },
        Some(burned) => {
            ledger.burned = burned;
        },
    }
    ledger.governance.proposals.insert(proposal_id, proposal);
    credit_account(ledger, counted.0.as_str(), counted.1);
    Ok(())
}

/// The ledger after a payment out of the treasury has been noted.
pub open spec fn spend_noted(
    ledger: LedgerModel,
    proposal_id: u64,
    operation_id: Seq<char>,
    action: ProposalActionModel,
    executed_at: i64,
) -> LedgerModel {
    match action {
        ProposalActionModel::TreasurySpend { recipient, amount, reference_hash } => history_added(
            LedgerModel {
                treasury_spends: ledger.treasury_spends.push(
                    SpendModel {
                        proposal_id,
                        operation_id,
                        recipient,
                        amount,
                        reference_hash,
                        executed_at,
                    },
                ),
                ..ledger
            },
            recipient,
            operation_id,
        ),
        _ => ledger,
    }
}

pub fn note_spend(
    ledger: &mut LedgerState,
    proposal_id: u64,
    operation_id: &str,
    action: &GovernanceProposalAction,
    executed_at: i64,
)
    ensures
        final(ledger)@ == spend_noted(
            old(ledger)@,
            proposal_id,
            operation_id@,
            action.deep_view(),
            executed_at,
        ),
{
    if let GovernanceProposalAction::TreasurySpend { recipient, amount, reference_hash } = action {
        let spend = TreasurySpendRecord {
            proposal_id,
            operation_id: operation_id.to_owned(),
            recipient: recipient.clone(),
            amount: *amount,
            reference_hash: reference_hash.clone(),
            executed_at,
        };
        let ghost before = ledger.treasury_spends.deep_view();
        let ghost noted = spend.deep_view();
        ledger.treasury_spends.push(spend);
        assert(ledger.treasury_spends.deep_view() =~= before.push(noted));
        add_history(ledger, recipient.as_str(), operation_id);
    }
}

/// The ledger after a proposal that passed has taken effect.
pub open spec fn proposal_executed(
    ledger: LedgerModel,
    payload: PayloadModel,
    operation_id: Seq<char>,
    executed_at: i64,
    proposal_id: u64,
) -> Outcome<LedgerModel> {
    let proposal = ledger.governance.proposals[proposal_id];
    match required_action(payload) {
        Err(refusal) => Err(refusal),
        Ok(action) => if proposal.status != GovernanceProposalStatus::Passed || executed_at
            < proposal.execute_after || proposal.action != action {
            Err("proposal cannot execute this action"@)
        } else {
            match action_applied(ledger, action, executed_at) {
                Err(refusal) => Err(refusal),
                Ok(applied) => Ok(
                    spend_noted(
                        proposal_marked_executed(applied, proposal_id, executed_at),
                        proposal_id,
                        operation_id,
                        action,
                        executed_at,
                    ),
                ),
            }
        },
    }
}

/// The ledger in which a proposal is marked as executed.
pub open spec fn proposal_marked_executed(
    ledger: LedgerModel,
    proposal_id: u64,
    executed_at: i64,
) -> LedgerModel {
    if ledger.governance.proposals.contains_key(proposal_id) {
        with_proposal(
            ledger,
            proposal_id,
            ProposalModel {
                status: GovernanceProposalStatus::Executed,
                executed_at: Some(executed_at),
                ..ledger.governance.proposals[proposal_id]
            },
        )
    } else {
        ledger
    }
}

pub fn mark_executed(ledger: &mut LedgerState, proposal_id: u64, executed_at: i64)
    ensures
        final(ledger)@ == proposal_marked_executed(old(ledger)@, proposal_id, executed_at),
{
    if let Some(proposal) = ledger.governance.proposals.get_mut(&proposal_id) {
        proposal.status = GovernanceProposalStatus::Executed;
        proposal.executed_at = Some(executed_at);
    }
}

fn execute_proposal(
    ledger: &mut LedgerState,
    payload: &Payload,
    operation_id: &str,
    executed_at: i64,
    proposal_id: u64,
) -> (r: Result<()>)
    requires
        old(ledger)@.governance.proposals.contains_key(proposal_id),
    ensures
        match proposal_executed(
            old(ledger)@,
            payload.deep_view(),
            operation_id@,
            executed_at,
            proposal_id,
        ) {
            Ok(next) => r is Ok && final(ledger)@ == next,
            Err(refusal) => final(ledger)@ == old(ledger)@ && (r matches Err(error) && error@
                == refusal),
        },
{
    let action = payload_action(payload)?;
    match ledger.governance.proposals.get(&proposal_id) {
        None => {
            return Err(Error::msg("proposal cannot execute this action"));
        },
        Some(proposal) => {
            if proposal.status != GovernanceProposalStatus::Passed || executed_at
                < proposal.execute_after || !same_action(&proposal.action, &action) {
                return Err(Error::msg("proposal cannot execute this action"));
            }
        },
    }
    apply_governance_proposal_action(ledger, &action, executed_at)?;
    mark_executed(ledger, proposal_id, executed_at);
    note_spend(ledger, proposal_id, operation_id, &action, executed_at);
    Ok(())
}

/// The ledger after a proposal has been vetoed, counted or executed.
pub open spec fn terminal_action_applied(
    ledger: LedgerModel,
    public_key: Seq<char>,
    operation: SignedModel,
    operation_id: Seq<char>,
    executed_at: i64,
    action: Seq<char>,
) -> Outcome<LedgerModel> {
    let payload = operation.unsigned.payload;
    match required_u64(payload, "proposal_id"@, "proposal ID is invalid"@) {
        Err(refusal) => Err(refusal),
        Ok(proposal_id) => if !ledger.governance.proposals.contains_key(proposal_id) {
            Err("governance proposal is missing"@)
        } else {
            match threshold_checked(
                ledger,
                ledger.governance.proposals[proposal_id].kind,
                executed_at,
            ) {
                Err(refusal) => Err(refusal),
                Ok(_) => if action == "VetoTreasuryProposal"@ {
                    veto_cast(
                        ledger,
                        public_key,
                        operation,
                        operation_id,
                        executed_at,
                        proposal_id,
                    )
                } else if action == "FinalizeProposal"@ {
                    votes_counted(ledger, executed_at, proposal_id)
                } else if action == "ExecuteProposal"@ {
                    proposal_executed(ledger, payload, operation_id, executed_at, proposal_id)
                } else {
                    Err("unsupported signed governance action "@ + action)
                },
            }
        },
    }
}

/// Lets a proposal be vetoed, counted or executed.
pub fn apply_replicated_governance_terminal_action(
    ledger: &mut LedgerState,
    public_key: &str,
    operation: &SignedOperation,
    operation_id_value: &str,
    executed_at: i64,
    action_name: &str,
) -> (r: Result<()>)
    ensures
        match terminal_action_applied(
            old(ledger)@,
            public_key@,
            operation.deep_view(),
            operation_id_value@,
            executed_at,
            action_name@,
        ) {
            Ok(next) => r is Ok && final(ledger)@ == next,
            Err(refusal) => final(ledger)@ == old(ledger)@ && (r matches Err(error) && error@
                == refusal),
        },
{
    let payload = &operation.unsigned.payload;
    let proposal_id = payload_u64(payload, "proposal_id", "proposal ID is invalid")?;
    let kind = proposal_kind(ledger, proposal_id)?;
    ensure_governance_proposal_node_threshold(ledger, &kind, executed_at)?;
    if text_same(action_name, "VetoTreasuryProposal") {
        cast_veto(
            ledger,
            public_key,
            operation,
            operation_id_value,
            executed_at,
            proposal_id,
        )
    } else if text_same(action_name, "FinalizeProposal") {
        count_votes(ledger, executed_at, proposal_id)
    } else if text_same(action_name, "ExecuteProposal") {
        execute_proposal(ledger, payload, operation_id_value, executed_at, proposal_id)
    } else {
        Err(Error::owned(join2("unsupported signed governance action ", action_name)))
    }
}

/// The ledger after a governance operation.
#[verifier::opaque]
pub open spec fn governance_action_applied(
    ledger: LedgerModel,
    public_key: Seq<char>,
    operation: SignedModel,
    operation_id: Seq<char>,
    executed_at: i64,
) -> Outcome<LedgerModel> {
    let action = operation.unsigned.action;
    if action == "SetParameters"@ || action == "PauseEmission"@ || action == "ResumeEmission"@ {
        crate::governance::direct_action_applied(
            ledger,
            public_key,
            operation,
            operation_id,
            executed_at,
        )
    } else if action == "CreateProposal"@ {
        proposal_created(ledger, operation, executed_at)
    } else if action == "VoteProposal"@ {
        vote_cast(ledger, public_key, operation, operation_id, executed_at)
    } else if action == "ValidatorVoteProposal"@ {
        validator_vote_cast(ledger, public_key, operation, operation_id, executed_at)
    } else {
        terminal_action_applied(
            ledger,
            public_key,
            operation,
            operation_id,
            executed_at,
            action,
        )
    }
}

/// Applies a governance operation. Nothing is promised of the ledger where it is refused.
pub fn apply_replicated_governance_action(
    ledger: &mut LedgerState,
    public_key: &str,
    operation: &SignedOperation,
    operation_id_value: &str,
    executed_at: i64,
) -> (r: Result<()>)
    ensures
        match governance_action_applied(
            old(ledger)@,
            public_key@,
            operation.deep_view(),
            operation_id_value@,
            executed_at,
        ) {
            Ok(next) => r is Ok && final(ledger)@ == next,
            Err(refusal) => final(ledger)@ == old(ledger)@ && (r matches Err(error) && error@
                == refusal),
        },
{
    proof {
        reveal(governance_action_applied);
    }
    let action = operation.unsigned.action.as_str();
    if text_same(action, "SetParameters") || text_same(action, "PauseEmission") || text_same(
        action,
        "ResumeEmission",
    ) {
        crate::governance::apply_direct_action(
            ledger,
            public_key,
            operation,
            operation_id_value,
            executed_at,
        )
    } else if text_same(action, "CreateProposal") {
        create_proposal(ledger, operation, executed_at)
    } else if text_same(action, "VoteProposal") {
        cast_vote(ledger, public_key, operation, operation_id_value, executed_at)
    } else if text_same(action, "ValidatorVoteProposal") {
        cast_validator_vote(ledger, public_key, operation, operation_id_value, executed_at)
    } else {
        apply_replicated_governance_terminal_action(
            ledger,
            public_key,
            operation,
            operation_id_value,
            executed_at,
            action,
        )
    }
}

/// A node whose vote on a proposal has been taken over cannot vote on it again.
pub proof fn votes_are_taken_once(
    ledger: LedgerModel,
    public_key: Seq<char>,
    operation: SignedModel,
    operation_id: Seq<char>,
    executed_at: i64,
    again: SignedModel,
    again_id: Seq<char>,
    later: i64,
)
    requires
        vote_cast(ledger, public_key, operation, operation_id, executed_at) is Ok,
        ({
            let first = operation.unsigned.payload;
            let second = again.unsigned.payload;
            &&& required_u64(second, "proposal_id"@, "proposal ID is invalid"@) == required_u64(
                first,
                "proposal_id"@,
                "proposal ID is invalid"@,
            )
            &&& required_u64(second, "node_id"@, "vote Node ID is invalid"@) == required_u64(
                first,
                "node_id"@,
                "vote Node ID is invalid"@,
            )
        }),
    ensures
        vote_cast(
            vote_cast(ledger, public_key, operation, operation_id, executed_at)->Ok_0,
            public_key,
            again,
            again_id,
            later,
        ) is Err,
{
}

/// Counting the votes on a proposal shares its bond out: what does not go back is burned, and that
/// is at most a fifth.
pub proof fn counted_bond_is_shared_out(ledger: LedgerModel, executed_at: i64, proposal_id: u64)
    requires
        votes_counted(ledger, executed_at, proposal_id) is Ok,
        ({
            let proposal = ledger.governance.proposals[proposal_id];
            balance_of(ledger, proposal.proposer_reward_address) + proposal.proposal_bond
                <= u128::MAX
        }),
    ensures
        ({
            let proposal = ledger.governance.proposals[proposal_id];
            let maker = proposal.proposer_reward_address;
            let next = votes_counted(ledger, executed_at, proposal_id)->Ok_0;
            &&& next.governance.proposals[proposal_id].proposal_bond == 0
            &&& next.burned + balance_of(next, maker) == ledger.burned + balance_of(ledger, maker)
                + proposal.proposal_bond
            &&& next.burned - ledger.burned <= proposal.proposal_bond / 5
        }),
{
}

proof fn other_powers_stay(powers: Map<u64, u128>, ids: Seq<u64>, node_id: u64, power: u128)
    requires
        !ids.contains(node_id),
    ensures
        powers_sum(powers.insert(node_id, power), ids) == powers_sum(powers, ids),
    decreases ids.len(),
{
    if ids.len() > 0 {
        let rest = ids.drop_last();
        assert(ids[ids.len() - 1] != node_id);
        assert(!rest.contains(node_id)) by {
            if rest.contains(node_id) {
                let j = choose|j: int| 0 <= j < rest.len() && rest[j] == node_id;
                assert(ids[j] == node_id);
            }
        }
        other_powers_stay(powers, rest, node_id, power);
    }
}

proof fn powers_of_one_more(
    powers: Map<u64, u128>,
    ids: Seq<u64>,
    at: int,
    node_id: u64,
    power: u128,
)
    requires
        !ids.contains(node_id),
        0 <= at <= ids.len(),
    ensures
        powers_sum(powers.insert(node_id, power), ids.insert(at, node_id)) == powers_sum(
            powers,
            ids,
        ) + power,
    decreases ids.len(),
{
    let all = ids.insert(at, node_id);
    if at == ids.len() {
        assert(all.drop_last() =~= ids);
        other_powers_stay(powers, ids, node_id, power);
    } else {
        let rest = ids.drop_last();
        assert(ids[ids.len() - 1] == ids.last());
        assert(ids.contains(ids.last()));
        assert(!rest.contains(node_id)) by {
            if rest.contains(node_id) {
                let j = choose|j: int| 0 <= j < rest.len() && rest[j] == node_id;
                assert(ids[j] == node_id);
            }
        }
        assert(all.drop_last() =~= rest.insert(at, node_id));
        assert(all.last() == ids.last());
        powers_of_one_more(powers, rest, at, node_id, power);
    }
}

/// All power of a snapshot is the power of its nodes together: a further node adds its own power, and a
/// snapshot of nobody has none.
pub proof fn snapshots_add_up(powers: Map<u64, u128>, node_id: u64, power: u128)
    requires
        powers.dom().finite(),
        !powers.contains_key(node_id),
        total_power(powers) + power <= u128::MAX,
        total_power(powers) < u128::MAX,
    ensures
        total_power(powers.insert(node_id, power)) == total_power(powers) + power,
        powers.dom() == Set::<u64>::empty() ==> total_power(powers) == 0,
{
    let ids = ordered::<u64>(powers.dom());
    crate::table::ordered_lists_all::<u64>(powers.dom());
    let at = crate::table::ordered_takes_in::<u64>(powers.dom(), node_id);
    assert(!ids.contains(node_id));
    assert(powers.insert(node_id, power).dom() =~= powers.dom().insert(node_id));
    powers_of_one_more(powers, ids, at, node_id, power);
}

proof fn capped_powers_add_up(
    powers: Map<u64, u128>,
    raw: Map<u64, u128>,
    ids: Seq<u64>,
    cap: nat,
)
    requires
        forall|i: int|
            0 <= i < ids.len() ==> powers[#[trigger] ids[i]] == crate::number::least(
                raw[ids[i]] as int,
                cap as int,
            ),
    ensures
        powers_sum(powers, ids) == crate::voting::capped_total(raw, ids, cap),
    decreases ids.len(),
{
    if ids.len() > 0 {
        let rest = ids.drop_last();
        assert forall|i: int| 0 <= i < rest.len() implies powers[#[trigger] rest[i]]
            == crate::number::least(raw[rest[i]] as int, cap as int) by {
            assert(rest[i] == ids[i]);
        }
        capped_powers_add_up(powers, raw, rest, cap);
        assert(powers[ids[ids.len() - 1]] == crate::number::least(
            raw[ids[ids.len() - 1]] as int,
            cap as int,
        ));
    }
}

/// No node has more than one percent of all power of a snapshot, or more than an equal share of it,
/// rounded up to a basis point, where there are fewer than a hundred nodes.
pub proof fn no_node_outweighs_its_share(ledger: LedgerModel, ids: Seq<u64>, node_id: u64)
    requires
        ids.contains(node_id),
    ensures
        ({
            let powers = crate::voting::powers_of(ledger, ids);
            let all = powers_sum(powers, ordered::<u64>(powers.dom()));
            let count = powers.dom().len();
            ||| powers[node_id] * 100 <= all
            ||| powers[node_id] * 10_000 * count <= all * (10_000 + count - 1)
        }),
{
    let powers = crate::voting::powers_of(ledger, ids);
    let raw = crate::voting::raw_powers(ledger, ids);
    let cap = crate::voting::power_cap(raw);
    crate::voting::power_share_is_capped(ledger, ids, node_id);
    assert(powers.dom() =~= raw.dom());
    assert(raw.dom() =~= ids.to_set());
    vstd::seq_lib::seq_to_set_is_finite(ids);
    crate::table::ordered_lists_all::<u64>(raw.dom());
    let keys = ordered::<u64>(raw.dom());
    assert forall|i: int| 0 <= i < keys.len() implies powers[#[trigger] keys[i]]
        == crate::number::least(raw[keys[i]] as int, cap as int) by {
        assert(keys.contains(keys[i]));
        assert(raw.dom().contains(keys[i]));
    }
    assert(raw.contains_key(node_id));
    assert(raw.dom().contains(node_id));
    assert(keys.contains(node_id));
    capped_powers_add_up(powers, raw, keys, cap);
    let all = powers_sum(powers, keys) as int;
    let count = raw.dom().len() as int;
    let share = crate::voting::share_limit(raw.len()) as int;
    let equal = (10_000 + count - 1) / count;
    let power = powers[node_id] as int;
    vstd::arithmetic::div_mod::lemma_fundamental_div_mod(10_000 + count - 1, count);
    vstd::arithmetic::div_mod::lemma_mod_bound(10_000 + count - 1, count);
    if share == 100 {
        assert(power * 10_000 <= all * 100);
    } else {
        assert(power * 10_000 <= all * equal);
        assert(power * 10_000 * count <= all * (10_000 + count - 1)) by (nonlinear_arith)
            requires
                power * 10_000 <= all * equal,
                count * equal <= 10_000 + count - 1,
                0 <= all,
                0 < count,
        ;
    }
}

/// A vote is taken over only while its proposal is open to votes, from the owner of a node of the
/// snapshot, once, and counts for its choice with the node's power in the snapshot. Every other vote,
/// and every other proposal, stays as it was.
pub proof fn votes_are_taken_in_time(
    ledger: LedgerModel,
    public_key: Seq<char>,
    operation: SignedModel,
    operation_id: Seq<char>,
    executed_at: i64,
    proposal_id: u64,
    node_id: u64,
    choice: GovernanceVoteChoice,
)
    requires
        vote_cast(ledger, public_key, operation, operation_id, executed_at) is Ok,
        required_u64(operation.unsigned.payload, "proposal_id"@, "proposal ID is invalid"@) == Ok::<
            u64,
            Seq<char>,
        >(proposal_id),
        required_u64(operation.unsigned.payload, "node_id"@, "vote Node ID is invalid"@) == Ok::<
            u64,
            Seq<char>,
        >(node_id),
        required_choice(operation.unsigned.payload) == Ok::<GovernanceVoteChoice, Seq<char>>(choice),
    ensures
        ({
            let before = ledger.governance.proposals[proposal_id];
            let after = vote_cast(
                ledger,
                public_key,
                operation,
                operation_id,
                executed_at,
            )->Ok_0;
            let voted = after.governance.proposals[proposal_id];
            &&& before.status == GovernanceProposalStatus::Voting
            &&& executed_at < before.voting_ends_at
            &&& !before.votes.contains_key(node_id)
            &&& ledger.nodes[node_id].owner_address == operation.unsigned.signer
            &&& ledger.nodes[node_id].owner_public_key == public_key
            &&& before.power_snapshot.contains_key(node_id)
            &&& voted.votes == before.votes.insert(node_id, voted.votes[node_id])
            &&& voted.votes[node_id].choice == choice
            &&& voted.votes[node_id].power == before.power_snapshot[node_id]
            &&& voted.status == GovernanceProposalStatus::Voting
            &&& voted.total_power == before.total_power
            &&& voted.validator_votes == before.validator_votes
            &&& forall|other: u64|
                other != proposal_id ==> #[trigger] after.governance.proposals[other]
                    == ledger.governance.proposals[other]
        }),
{
}

/// The vote of a validator is taken over while its proposal is open, from a member of the committee of
/// the snapshot, once, and counts for its choice.
pub proof fn validator_votes_are_taken_once(
    ledger: LedgerModel,
    public_key: Seq<char>,
    operation: SignedModel,
    operation_id: Seq<char>,
    executed_at: i64,
    proposal_id: u64,
    node_id: u64,
    choice: GovernanceVoteChoice,
)
    requires
        validator_vote_cast(ledger, public_key, operation, operation_id, executed_at) is Ok,
        required_u64(operation.unsigned.payload, "proposal_id"@, "proposal ID is invalid"@) == Ok::<
            u64,
            Seq<char>,
        >(proposal_id),
        required_u64(
            operation.unsigned.payload,
            "validator_node_id"@,
            "Validator Node ID is invalid"@,
        ) == Ok::<u64, Seq<char>>(node_id),
        required_choice(operation.unsigned.payload) == Ok::<GovernanceVoteChoice, Seq<char>>(choice),
    ensures
        ({
            let before = ledger.governance.proposals[proposal_id];
            let voted = validator_vote_cast(
                ledger,
                public_key,
                operation,
                operation_id,
                executed_at,
            )->Ok_0.governance.proposals[proposal_id];
            &&& before.status == GovernanceProposalStatus::Voting
            &&& before.validator_snapshot.contains(node_id)
            &&& !before.validator_votes.contains_key(node_id)
            &&& ledger.nodes[node_id].owner_address == operation.unsigned.signer
            &&& voted.validator_votes == before.validator_votes.insert(
                node_id,
                voted.validator_votes[node_id],
            )
            &&& voted.validator_votes[node_id].choice == choice
            &&& voted.votes == before.votes
            &&& voted.status == GovernanceProposalStatus::Voting
        }),
{
}

/// A veto is taken over only against a proposal that has passed and not yet taken effect, once from each
/// node of the snapshot and with its power there. As soon as the vetoes together have a tenth of all
/// power the proposal is rejected and its maker gets the bond back; until then it stands.
pub proof fn vetoes_of_a_tenth_reject(
    ledger: LedgerModel,
    public_key: Seq<char>,
    operation: SignedModel,
    operation_id: Seq<char>,
    executed_at: i64,
    proposal_id: u64,
    node_id: u64,
)
    requires
        ledger.governance.proposals.contains_key(proposal_id),
        veto_cast(
            ledger,
            public_key,
            operation,
            operation_id,
            executed_at,
            proposal_id,
        ) is Ok,
        required_u64(operation.unsigned.payload, "node_id"@, "veto Node ID is invalid"@) == Ok::<
            u64,
            Seq<char>,
        >(node_id),
        ({
            let proposal = ledger.governance.proposals[proposal_id];
            balance_of(ledger, proposal.proposer_reward_address) + proposal.proposal_bond
                <= u128::MAX
        }),
    ensures
        ({
            let before = ledger.governance.proposals[proposal_id];
            let after = veto_cast(
                ledger,
                public_key,
                operation,
                operation_id,
                executed_at,
                proposal_id,
            )->Ok_0;
            let left = after.governance.proposals[proposal_id];
            let against = power_cast(
                left.timelock_vetoes,
                ordered::<u64>(left.timelock_vetoes.dom()),
            );
            let maker = before.proposer_reward_address;
            &&& before.status == GovernanceProposalStatus::Passed
            &&& executed_at < before.execute_after
            &&& !before.timelock_vetoes.contains_key(node_id)
            &&& ledger.nodes[node_id].owner_address == operation.unsigned.signer
            &&& left.timelock_vetoes == before.timelock_vetoes.insert(
                node_id,
                left.timelock_vetoes[node_id],
            )
            &&& left.timelock_vetoes[node_id].power == before.power_snapshot[node_id]
            &&& against * 10 >= before.total_power ==> {
                &&& left.status == GovernanceProposalStatus::Rejected
                &&& left.proposal_bond == 0
                &&& balance_of(after, maker) == balance_of(ledger, maker) + before.proposal_bond
            }
            &&& against * 10 < before.total_power ==> {
                &&& left.status == GovernanceProposalStatus::Passed
                &&& left.proposal_bond == before.proposal_bond
                &&& balance_of(after, maker) == balance_of(ledger, maker)
            }
        }),
{
}

/// The votes on a proposal are counted when its time is over and not before, and once. It has passed if
/// the tally passes and is rejected if not. The maker gets the whole bond back, but for the fifth that is
/// burned where a standard proposal fails with less than half of all power taking part.
pub proof fn votes_are_counted_when_time_is_over(
    ledger: LedgerModel,
    executed_at: i64,
    proposal_id: u64,
)
    requires
        ledger.governance.proposals.contains_key(proposal_id),
        votes_counted(ledger, executed_at, proposal_id) is Ok,
        tally_of(ledger.governance.proposals[proposal_id]).participation_power * 2 <= u128::MAX,
        ({
            let proposal = ledger.governance.proposals[proposal_id];
            balance_of(ledger, proposal.proposer_reward_address) + proposal.proposal_bond
                <= u128::MAX
        }),
    ensures
        ({
            let before = ledger.governance.proposals[proposal_id];
            let after = votes_counted(ledger, executed_at, proposal_id)->Ok_0;
            let left = after.governance.proposals[proposal_id];
            let tally = tally_of(before);
            let maker = before.proposer_reward_address;
            let burned = after.burned - ledger.burned;
            let dull = before.kind == GovernanceProposalKind::Standard && 2
                * tally.participation_power < before.total_power;
            &&& before.status == GovernanceProposalStatus::Voting
            &&& before.voting_ends_at <= executed_at
            &&& left.finalized_at == Some(executed_at)
            &&& tally_passes(before, tally) ==> left.status == GovernanceProposalStatus::Passed
                && burned == 0
            &&& !tally_passes(before, tally) ==> left.status == GovernanceProposalStatus::Rejected
            &&& !tally_passes(before, tally) && dull ==> 5 * burned <= before.proposal_bond
                && before.proposal_bond < 5 * (burned + 1)
            &&& !dull ==> burned == 0
            &&& balance_of(after, maker) == balance_of(ledger, maker) + before.proposal_bond - burned
            &&& left.votes == before.votes
            &&& votes_counted(after, executed_at, proposal_id) is Err
        }),
{
}

/// A proposal takes effect only when it has passed and its timelock is over, exactly as it was voted on,
/// and is then done. What it pays out of the treasury is noted with the time at which it did.
pub proof fn proposals_take_effect_after_their_timelock(
    ledger: LedgerModel,
    payload: PayloadModel,
    operation_id: Seq<char>,
    executed_at: i64,
    proposal_id: u64,
)
    requires
        ledger.governance.proposals.contains_key(proposal_id),
        proposal_executed(ledger, payload, operation_id, executed_at, proposal_id) is Ok,
    ensures
        ({
            let before = ledger.governance.proposals[proposal_id];
            let after = proposal_executed(
                ledger,
                payload,
                operation_id,
                executed_at,
                proposal_id,
            )->Ok_0;
            &&& before.status == GovernanceProposalStatus::Passed
            &&& before.execute_after <= executed_at
            &&& required_action(payload) == Ok::<ProposalActionModel, Seq<char>>(before.action)
            &&& before.action matches ProposalActionModel::TreasurySpend {
                recipient,
                amount,
                reference_hash,
            } ==> {
                &&& after.treasury == ledger.treasury - amount
                &&& balance_of(after, recipient) == balance_of(ledger, recipient) + amount
                &&& after.treasury_spends.len() == ledger.treasury_spends.len() + 1
                &&& after.treasury_spends.last().amount == amount
                &&& after.treasury_spends.last().executed_at == executed_at
                &&& after.treasury_spends.last().proposal_id == proposal_id
                &&& after.governance.proposals[proposal_id].status
                    == GovernanceProposalStatus::Executed
            }
            &&& before.action is PauseEmission ==> after.governance.emission_paused
                && !ledger.governance.emission_paused
            &&& before.action is ResumeEmission ==> !after.governance.emission_paused
                && ledger.governance.emission_paused
            &&& !(before.action is TreasurySpend) ==> after.treasury == ledger.treasury
                && after.accounts == ledger.accounts && after.treasury_spends
                == ledger.treasury_spends
        }),
{
}

/// A proposal is made by the reward account of a node, which leaves a bond of a thousand MRK; it bears
/// the next number, is open to votes and has none, and is decided on by the power of the time.
pub proof fn proposals_cost_their_bond(
    ledger: LedgerModel,
    operation: SignedModel,
    executed_at: i64,
    proposal_id: u64,
)
    requires
        proposal_created(ledger, operation, executed_at) is Ok,
        required_u64(operation.unsigned.payload, "proposal_id"@, "proposal ID is invalid"@) == Ok::<
            u64,
            Seq<char>,
        >(proposal_id),
    ensures
        ({
            let after = proposal_created(ledger, operation, executed_at)->Ok_0;
            let made = after.governance.proposals[proposal_id];
            let maker = operation.unsigned.signer;
            &&& after.governance.proposals.contains_key(proposal_id)
            &&& ledger.governance.next_proposal_id >= 1 ==> proposal_id
                == ledger.governance.next_proposal_id
            &&& proposal_id < u64::MAX ==> after.governance.next_proposal_id == proposal_id + 1
            &&& made.proposal_bond == 1_000_000_000_000
            &&& balance_of(after, maker) == balance_of(ledger, maker) - made.proposal_bond
            &&& made.proposer_reward_address == maker
            &&& made.status == GovernanceProposalStatus::Voting
            &&& made.created_at == executed_at
            &&& made.votes.dom() == Set::<u64>::empty()
            &&& made.validator_votes.dom() == Set::<u64>::empty()
            &&& made.timelock_vetoes.dom() == Set::<u64>::empty()
            &&& made.total_power == total_power(made.power_snapshot)
            &&& made.action is TreasurySpend ==> made.validator_snapshot
                == ledger.consensus.active_validators && treasury_powers(ledger, executed_at)
                == Ok::<Map<u64, u128>, Seq<char>>(made.power_snapshot)
            &&& !(made.action is TreasurySpend) ==> governance_powers(ledger, executed_at) == Ok::<
                Map<u64, u128>,
                Seq<char>,
            >(made.power_snapshot)
        }),
{
}

} // verus!
