use vstd::prelude::*;
use vstd::string::*;
use vstd::utf8::*;

use crate::accounts::{
    account_balance, balance_of, debit_account, debited, ensure_account, key_bound,
};
use crate::amount::{format_mrk, mrk_text};
use crate::ballots::{find_voter, spends_treasury, voter_found};
use crate::drafts::{
    commit_draft, draft_committed, draft_next_operation, next_operation, Draft, DraftModel,
};
use crate::epochs::{epoch_closed, epoch_context};
use crate::error::{outcome, Error, Outcome, Result};
use crate::governance::{
    action_applied, action_checked, action_noted, apply_governance_proposal_action, emission_paused,
    emission_resumed, ensure_genesis_authority, genesis_fixed, genesis_of, known_genesis_authority,
    note_action, pause_emission, resume_emission, validate_governance_proposal_action,
};
use crate::model::{
    copy_values, Field, FieldModel, GovernanceProposalAction, GovernanceProposalKind,
    GovernanceProposalRecord, GovernanceProposalStatus, Intake, IntakeModel, KeyIdentity, KeyModel,
    LedgerModel, LedgerState, LocalNodeConfig, NodeConfigModel, OperationStatus, OtherModel,
    OtherValue, Payload, ProposalActionModel, ProposalModel,
};
use crate::node_drafts::{local_node_id, registered_id};
use crate::nodes::{eligible_ids, governance_eligible_node_ids};
use crate::number::{clamped_i64, saturating_add_i64};
use crate::operations::{cancel_governance_proposals_below_threshold, starved_proposals_cancelled};
use crate::parameter::Parameter;
use crate::payload::PayloadModel;
use crate::proposals::{
    add_proposal, deciding_power_snapshot, deciding_powers, mark_executed, note_spend,
    open_proposal, proposal_added, proposal_marked_executed, proposal_opened, spend_noted,
    ProposalDraft, ProposalDraftModel,
};
use crate::protocol::{
    CRITICAL_GOVERNANCE_NODE_THRESHOLD, CRITICAL_TIMELOCK_SECONDS, CRITICAL_VOTING_SECONDS,
    GOVERNANCE_NODE_THRESHOLD, GOVERNANCE_PROPOSAL_BOND, MIN_ACTIVE_VALIDATORS,
    MIN_DECENTRALIZED_AVAILABILITY_VALIDATORS, NODE1_DIRECT_GOVERNANCE_END_THRESHOLD,
    STANDARD_TIMELOCK_SECONDS, STANDARD_VOTING_SECONDS,
};
use crate::sequence::contains_id;
use crate::settings::{
    apply_governance_parameter_batch, batch_accepted, batch_applied, governance_parameter_views,
    parameter_shown,
};
use crate::table::{Replicate, Table};
use crate::text::{
    decimal, i64_text, join2, join3, join4, signed_decimal, text_same, trim_text, trimmed,
    u128_text, usize_text,
};
use crate::views::{
    GovernanceReceipt, GovernanceReceiptModel, GovernanceStatusView, GovernanceStatusViewModel,
};
use crate::voting::{
    distributed_mode_checked, ensure_distributed_governance_mode,
    ensure_governance_proposal_node_threshold, threshold_checked, treasury_governance_node_ids,
    treasury_ids,
};

verus! {

/// Whether a text without the white space around it has a length that is allowed.
pub open spec fn stripped_within(text: Seq<char>, limit: nat, refusal: Seq<char>) -> Outcome<
    Seq<char>,
> {
    let stripped = trimmed(text);
    if stripped.len() == 0 || encode_utf8(stripped).len() > limit {
        Err(refusal)
    } else {
        Ok(stripped)
    }
}

fn strip_within(text: &str, limit: usize, refusal: &str) -> (r: Result<String>)
    ensures
        outcome(r) == stripped_within(text@, limit as nat, refusal@),
{
    let stripped = trim_text(text);
    if stripped.as_str().is_empty() || stripped.as_str().as_bytes().len() > limit {
        return Err(Error::msg(refusal));
    }
    Ok(stripped)
}

/// When the vote on a proposal of a kind ends, and when it may be executed.
pub open spec fn proposal_times(kind: GovernanceProposalKind, now: i64) -> (i64, i64) {
    let (voting, timelock) = match kind {
        GovernanceProposalKind::Standard => (STANDARD_VOTING_SECONDS, STANDARD_TIMELOCK_SECONDS),
        GovernanceProposalKind::Critical => (CRITICAL_VOTING_SECONDS, CRITICAL_TIMELOCK_SECONDS),
    };
    let ends = clamped_i64(now + voting);
    (ends, clamped_i64(ends + timelock))
}

fn plan_proposal(kind: &GovernanceProposalKind, now: i64) -> (r: (i64, i64))
    ensures
        r == proposal_times(*kind, now),
{
    let voting: i64 = match kind {
        GovernanceProposalKind::Standard => STANDARD_VOTING_SECONDS,
        GovernanceProposalKind::Critical => CRITICAL_VOTING_SECONDS,
    };
    let timelock: i64 = match kind {
        GovernanceProposalKind::Standard => STANDARD_TIMELOCK_SECONDS,
        GovernanceProposalKind::Critical => CRITICAL_TIMELOCK_SECONDS,
    };
    let ends = saturating_add_i64(now, voting);
    (ends, saturating_add_i64(ends, timelock))
}

/// Whether a node with a reward key may propose an action.
pub open spec fn proposer_checked(
    ledger: LedgerModel,
    node_id: u64,
    reward: KeyModel,
    kind: GovernanceProposalKind,
    action: ProposalActionModel,
    now: i64,
) -> Outcome<()> {
    match distributed_mode_checked(ledger, now) {
        Err(refusal) => Err(refusal),
        Ok(_) => match threshold_checked(ledger, kind, now) {
            Err(refusal) => Err(refusal),
            Ok(_) => match action_checked(kind, action, ledger, now) {
                Err(refusal) => Err(refusal),
                Ok(_) => if !eligible_ids(ledger, now).contains(node_id) {
                    Err("only a Governance-Eligible Node may create a proposal"@)
                } else if action is TreasurySpend && !treasury_ids(ledger, now).contains(node_id) {
                    Err(
                        "TreasurySpend proposals require 180 days of cumulative eligible Node service"@,
                    )
                } else if !ledger.nodes.contains_key(node_id) {
                    Err("proposal Node is missing"@)
                } else if ledger.nodes[node_id].reward_address != reward.address {
                    Err("Node Reward key does not match the registry"@)
                } else {
                    Ok(())
                },
            },
        },
    }
}

fn check_proposer(
    ledger: &LedgerState,
    node_id: u64,
    reward: &KeyIdentity,
    kind: &GovernanceProposalKind,
    action: &GovernanceProposalAction,
    now: i64,
) -> (r: Result<()>)
    ensures
        outcome(r) == proposer_checked(
            ledger@,
            node_id,
            reward.deep_view(),
            *kind,
            action.deep_view(),
            now,
        ),
{
    ensure_distributed_governance_mode(ledger, now)?;
    ensure_governance_proposal_node_threshold(ledger, kind, now)?;
    validate_governance_proposal_action(kind, action, ledger, now)?;
    if !contains_id(&governance_eligible_node_ids(ledger, now), node_id) {
        return Err(Error::msg("only a Governance-Eligible Node may create a proposal"));
    }
    if spends_treasury(action) && !contains_id(
        &treasury_governance_node_ids(ledger, now),
        node_id,
    ) {
        return Err(
            Error::msg(
                "TreasurySpend proposals require 180 days of cumulative eligible Node service",
            ),
        );
    }
    match ledger.nodes.get(&node_id) {
        None => Err(Error::msg("proposal Node is missing")),
        Some(node) => {
            if !text_same(node.reward_address.as_str(), reward.address.as_str()) {
                return Err(Error::msg("Node Reward key does not match the registry"));
            }
            Ok(())
        },
    }
}

/// The validators who decide on an action, besides the nodes.
pub open spec fn deciding_validators(ledger: LedgerModel, action: ProposalActionModel) -> Outcome<
    Seq<u64>,
> {
    if !(action is TreasurySpend) {
        Ok(Seq::<u64>::empty())
    } else if ledger.consensus.active_validators.len() < MIN_ACTIVE_VALIDATORS {
        Err("TreasurySpend requires at least 4 Active Validators"@)
    } else {
        Ok(ledger.consensus.active_validators)
    }
}

fn snapshot_validators(ledger: &LedgerState, action: &GovernanceProposalAction) -> (r: Result<
    Vec<u64>,
>)
    ensures
        match deciding_validators(ledger@, action.deep_view()) {
            Ok(validators) => r matches Ok(found) && found@ == validators,
            Err(refusal) => r matches Err(error) && error@ == refusal,
        },
{
    if !spends_treasury(action) {
        return Ok(Vec::new());
    }
    if ledger.consensus.active_validators.len() < MIN_ACTIVE_VALIDATORS {
        return Err(Error::msg("TreasurySpend requires at least 4 Active Validators"));
    }
    Ok(copy_values(&ledger.consensus.active_validators))
}

/// What a proposal of an action is made of.
pub open spec fn proposal_prepared(
    ledger: LedgerModel,
    node_id: u64,
    reward: KeyModel,
    kind: GovernanceProposalKind,
    action: ProposalActionModel,
    now: i64,
) -> Outcome<ProposalDraftModel> {
    let balance = balance_of(ledger, reward.address);
    if balance < GOVERNANCE_PROPOSAL_BOND {
        Err(
            "insufficient spendable MRK for Proposal Bond: available "@ + mrk_text(balance as nat)
                + ", required "@ + mrk_text(GOVERNANCE_PROPOSAL_BOND as nat),
        )
    } else {
        match deciding_powers(ledger, action, now) {
            Err(refusal) => Err(refusal),
            Ok(powers) => match deciding_validators(ledger, action) {
                Err(refusal) => Err(refusal),
                Ok(validators) => Ok(
                    ProposalDraftModel {
                        proposal_id: if ledger.governance.next_proposal_id < 1 {
                            1
                        } else {
                            ledger.governance.next_proposal_id
                        },
                        proposer_node_id: node_id,
                        kind,
                        action,
                        powers,
                        validators,
                    },
                ),
            },
        }
    }
}

fn prepare_proposal(
    ledger: &LedgerState,
    node_id: u64,
    reward: &KeyIdentity,
    kind: GovernanceProposalKind,
    action: GovernanceProposalAction,
    now: i64,
) -> (r: Result<ProposalDraft>)
    ensures
        outcome(r) == proposal_prepared(
            ledger@,
            node_id,
            reward.deep_view(),
            kind,
            action.deep_view(),
            now,
        ),
{
    let balance = account_balance(ledger, reward.address.as_str());
    if balance < GOVERNANCE_PROPOSAL_BOND {
        return Err(
            Error::owned(
                join4(
                    "insufficient spendable MRK for Proposal Bond: available ",
                    format_mrk(balance).as_str(),
                    ", required ",
                    format_mrk(GOVERNANCE_PROPOSAL_BOND).as_str(),
                ),
            ),
        );
    }
    let powers = deciding_power_snapshot(ledger, &action, now)?;
    let validators = snapshot_validators(ledger, &action)?;
    let proposal_id: u64 = if ledger.governance.next_proposal_id < 1 {
        1
    } else {
        ledger.governance.next_proposal_id
    };
    Ok(ProposalDraft { proposal_id, proposer_node_id: node_id, kind, action, powers, validators })
}

/// What the operation that makes a proposal carries.
pub open spec fn proposal_fields(proposal: ProposalModel) -> PayloadModel {
    Map::<Seq<char>, FieldModel>::empty().insert(
        "proposal_id"@,
        FieldModel::Integer(proposal.proposal_id as i128),
    ).insert("kind"@, FieldModel::Kind(proposal.kind)).insert(
        "title"@,
        FieldModel::Text(proposal.title),
    ).insert("action"@, FieldModel::Action(proposal.action)).insert(
        "snapshot_epoch"@,
        FieldModel::Integer(proposal.snapshot_epoch as i128),
    ).insert("power_snapshot"@, FieldModel::Powers(proposal.power_snapshot)).insert(
        "validator_snapshot"@,
        FieldModel::NodeIds(proposal.validator_snapshot),
    ).insert("voting_ends_at"@, FieldModel::Integer(proposal.voting_ends_at as i128)).insert(
        "execute_after"@,
        FieldModel::Integer(proposal.execute_after as i128),
    ).insert(
        "proposal_bond_base_units"@,
        FieldModel::Text(decimal(proposal.proposal_bond as nat)),
    )
}

fn proposal_payload(proposal: &GovernanceProposalRecord) -> (r: Payload)
    ensures
        r.deep_view() == proposal_fields(proposal.deep_view()),
{
    let payload = Payload::new().with_number("proposal_id", proposal.proposal_id).with(
        "kind",
        Field::Kind(proposal.kind),
    ).with_text("title", proposal.title.as_str()).with(
        "action",
        Field::Action(proposal.action.replicate()),
    ).with_number("snapshot_epoch", proposal.snapshot_epoch);
    payload.with("power_snapshot", Field::Powers(proposal.power_snapshot.replicate())).with(
        "validator_snapshot",
        Field::NodeIds(copy_values(&proposal.validator_snapshot)),
    ).with("voting_ends_at", Field::Integer(proposal.voting_ends_at as i128)).with(
        "execute_after",
        Field::Integer(proposal.execute_after as i128),
    ).with_text("proposal_bond_base_units", u128_text(proposal.proposal_bond).as_str())
}

/// The draft by which a node's reward account makes a proposal, and the proposal.
pub open spec fn proposal_drafted(
    ledger: LedgerModel,
    config: NodeConfigModel,
    reward: KeyModel,
    kind: GovernanceProposalKind,
    title: Seq<char>,
    action: ProposalActionModel,
    now: i64,
) -> Outcome<(DraftModel, ProposalModel)> {
    match stripped_within(
        title,
        128,
        "governance proposal title must contain between 1 and 128 characters"@,
    ) {
        Err(refusal) => Err(refusal),
        Ok(stripped) => match registered_id(config) {
            Err(refusal) => Err(refusal),
            Ok(node_id) => match proposer_checked(ledger, node_id, reward, kind, action, now) {
                Err(refusal) => Err(refusal),
                Ok(_) => match key_bound(ledger, reward.address, reward.public_key) {
                    Err(refusal) => Err(refusal),
                    Ok(bound) => match proposal_prepared(
                        bound,
                        node_id,
                        reward,
                        kind,
                        action,
                        now,
                    ) {
                        Err(refusal) => Err(refusal),
                        Ok(prepared) => {
                            let times = proposal_times(kind, now);
                            let proposal = proposal_opened(
                                prepared,
                                reward.address,
                                stripped,
                                now,
                                times.0,
                                times.1,
                                bound.epoch_number,
                            );
                            Ok(
                                (
                                    DraftModel {
                                        ledger: proposal_added(
                                            debited(
                                                bound,
                                                reward.address,
                                                GOVERNANCE_PROPOSAL_BOND,
                                            ),
                                            proposal,
                                        ),
                                        operation: next_operation(
                                            bound,
                                            reward.address,
                                            "Governance"@,
                                            "CreateProposal"@,
                                            proposal_fields(proposal),
                                            now,
                                        ),
                                    },
                                    proposal,
                                ),
                            )
                        },
                    },
                },
            },
        },
    }
}

/// Drafts a proposal. The bond is paid by the node's reward account.
pub fn create_governance_proposal(
    ledger: &LedgerState,
    config: &LocalNodeConfig,
    reward: &KeyIdentity,
    kind: GovernanceProposalKind,
    title: &str,
    action: GovernanceProposalAction,
    now: i64,
) -> (r: Result<(Draft, GovernanceProposalRecord)>)
    ensures
        outcome(r) == proposal_drafted(
            ledger@,
            config.deep_view(),
            reward.deep_view(),
            kind,
            title@,
            action.deep_view(),
            now,
        ),
{
    let stripped = strip_within(
        title,
        128,
        "governance proposal title must contain between 1 and 128 characters",
    )?;
    let node_id = local_node_id(config)?;
    check_proposer(ledger, node_id, reward, &kind, &action, now)?;
    let mut next = ledger.copy();
    ensure_account(&mut next, reward)?;
    let prepared = prepare_proposal(&next, node_id, reward, kind, action, now)?;
    let (voting_ends_at, execute_after) = plan_proposal(&kind, now);
    let proposal = open_proposal(
        prepared,
        reward.address.as_str(),
        stripped,
        now,
        voting_ends_at,
        execute_after,
        next.epoch_number,
    );
    let operation = draft_next_operation(
        &next,
        &reward.address,
        "Governance",
        "CreateProposal",
        proposal_payload(&proposal),
        now,
    );
    debit_account(&mut next, reward.address.as_str(), GOVERNANCE_PROPOSAL_BOND);
    add_proposal(&mut next, proposal.replicate());
    Ok((Draft { ledger: next, operation }, proposal))
}

/// What the operation that executes a proposal carries.
pub open spec fn execution_fields(proposal_id: u64, action: ProposalActionModel) -> PayloadModel {
    Map::<Seq<char>, FieldModel>::empty().insert(
        "proposal_id"@,
        FieldModel::Integer(proposal_id as i128),
    ).insert("action"@, FieldModel::Action(action))
}

/// The draft by which a proposal that passed takes effect.
pub open spec fn execution_drafted(
    ledger: LedgerModel,
    config: NodeConfigModel,
    owner: KeyModel,
    proposal_id: u64,
    now: i64,
) -> Outcome<(DraftModel, u64)> {
    match voter_found(ledger, config, owner, proposal_id, now) {
        Err(refusal) => Err(refusal),
        Ok(found) => if found.1.status != GovernanceProposalStatus::Passed {
            Err("only a passed proposal can execute"@)
        } else if now < found.1.execute_after {
            Err(
                "proposal timelock remains active until "@ + signed_decimal(
                    found.1.execute_after as int,
                ),
            )
        } else {
            match action_applied(ledger, found.1.action, now) {
                Err(refusal) => Err(refusal),
                Ok(applied) => Ok(
                    (
                        DraftModel {
                            ledger: proposal_marked_executed(applied, proposal_id, now),
                            operation: next_operation(
                                ledger,
                                owner.address,
                                "Governance"@,
                                "ExecuteProposal"@,
                                execution_fields(proposal_id, found.1.action),
                                now,
                            ),
                        },
                        found.0,
                    ),
                ),
            }
        },
    }
}

/// Drafts the execution of a proposal. The node that signs it is returned beside it.
pub fn execute_governance_proposal(
    ledger: &LedgerState,
    config: &LocalNodeConfig,
    owner: &KeyIdentity,
    proposal_id: u64,
    now: i64,
) -> (r: Result<(Draft, u64)>)
    ensures
        outcome(r) == execution_drafted(
            ledger@,
            config.deep_view(),
            owner.deep_view(),
            proposal_id,
            now,
        ),
{
    let (node_id, proposal) = find_voter(ledger, config, owner, proposal_id, now)?;
    if proposal.status != GovernanceProposalStatus::Passed {
        return Err(Error::msg("only a passed proposal can execute"));
    }
    if now < proposal.execute_after {
        return Err(
            Error::owned(
                join2(
                    "proposal timelock remains active until ",
                    i64_text(proposal.execute_after).as_str(),
                ),
            ),
        );
    }
    let operation = draft_next_operation(
        ledger,
        &owner.address,
        "Governance",
        "ExecuteProposal",
        Payload::new().with_number("proposal_id", proposal_id).with(
            "action",
            Field::Action(proposal.action.replicate()),
        ),
        now,
    );
    let mut next = ledger.copy();
    apply_governance_proposal_action(&mut next, &proposal.action, now)?;
    mark_executed(&mut next, proposal_id, now);
    Ok((Draft { ledger: next, operation }, node_id))
}

/// What is said of a governance action.
pub open spec fn action_receipt(
    draft: DraftModel,
    node_id: u64,
    operation_id: Seq<char>,
    now: i64,
) -> GovernanceReceiptModel {
    GovernanceReceiptModel {
        operation_id,
        status: OperationStatus::Pending,
        action: draft.operation.action,
        signer_node_id: node_id,
        executed_at: now,
        payload: draft.operation.payload,
    }
}

/// The payment out of the treasury that a proposal made.
pub open spec fn execution_spend(payload: PayloadModel) -> Option<(u64, ProposalActionModel)> {
    if payload.contains_key("proposal_id"@) && payload.contains_key("action"@) {
        match (payload["proposal_id"@], payload["action"@]) {
            (FieldModel::Integer(id), FieldModel::Action(action)) => if 0 <= id <= u64::MAX {
                Some((id as u64, action))
            } else {
                None
            },
            _ => None,
        }
    } else {
        None
    }
}

/// The ledger after a signed governance action.
pub open spec fn action_committed(
    draft: DraftModel,
    node_id: u64,
    public_key: Seq<char>,
    signature: Seq<char>,
    intake: IntakeModel,
    now: i64,
) -> Outcome<LedgerModel> {
    match draft_committed(draft, public_key, signature, intake, now) {
        Err(refusal) => Err(refusal),
        Ok(next) => {
            let spent = match execution_spend(draft.operation.payload) {
                Some((proposal_id, action)) => spend_noted(
                    next,
                    proposal_id,
                    intake.operation_id,
                    action,
                    now,
                ),
                None => next,
            };
            Ok(
                action_noted(
                    spent,
                    intake.operation_id,
                    draft.operation.action,
                    node_id,
                    now,
                    draft.operation.payload,
                ),
            )
        },
    }
}

/// Puts a signed governance action in force and notes it, with what it paid out of the treasury.
pub fn commit_governance_action(
    ledger: &mut LedgerState,
    draft: Draft,
    node_id: u64,
    public_key: &str,
    signature: String,
    intake: Intake,
    now: i64,
) -> (r: Result<GovernanceReceipt>)
    ensures
        match action_committed(
            draft.deep_view(),
            node_id,
            public_key@,
            signature@,
            intake.deep_view(),
            now,
        ) {
            Ok(next) => final(ledger)@ == next && (r matches Ok(receipt) && receipt.deep_view()
                == action_receipt(draft.deep_view(), node_id, intake.operation_id@, now)),
            Err(refusal) => final(ledger)@ == old(ledger)@ && (r matches Err(error) && error@
                == refusal),
        },
{
    let action = draft.operation.action.clone();
    let payload = draft.operation.payload.replicate();
    let operation_id = commit_draft(ledger, draft, public_key, signature, intake, now)?;
    if let Some(Field::Integer(proposal_id)) = payload.get("proposal_id") {
        if let Some(Field::Action(proposed)) = payload.get("action") {
            let number: i128 = *proposal_id;
            if 0 <= number && number <= u64::MAX as i128 {
                note_spend(ledger, number as u64, operation_id.as_str(), proposed, now);
            }
        }
    }
    note_action(ledger, operation_id.as_str(), action.as_str(), node_id, now, &payload);
    Ok(
        GovernanceReceipt {
            operation_id,
            status: OperationStatus::Pending,
            action,
            signer_node_id: node_id,
            executed_at: now,
            payload,
        },
    )
}

/// The ledger on which the owner of the first node may govern directly.
pub open spec fn direct_governance_begun(
    ledger: LedgerModel,
    config: NodeConfigModel,
    owner: KeyModel,
    now: i64,
) -> Outcome<(LedgerModel, u64)> {
    match registered_id(config) {
        Err(refusal) => Err(refusal),
        Ok(node_id) => match genesis_fixed(ledger) {
            Err(refusal) => Err(refusal),
            Ok(found) => {
                let eligible = eligible_ids(found.0, now).len();
                if node_id != found.1.node_id || config.owner_address != found.1.owner_address
                    || owner.address != found.1.owner_address || owner.public_key
                    != found.1.owner_public_key {
                    Err(
                        "only the immutable Genesis Node 1 Owner key may execute direct governance"@,
                    )
                } else if eligible >= NODE1_DIRECT_GOVERNANCE_END_THRESHOLD {
                    Err(
                        "Node 1 direct governance is disabled at "@ + decimal(eligible)
                            + " Governance-Eligible Nodes; node voting is required"@,
                    )
                } else {
                    match key_bound(
                        starved_proposals_cancelled(found.0, now),
                        owner.address,
                        owner.public_key,
                    ) {
                        Err(refusal) => Err(refusal),
                        Ok(bound) => Ok((bound, node_id)),
                    }
                }
            },
        },
    }
}

fn begin_direct_governance(
    ledger: &LedgerState,
    config: &LocalNodeConfig,
    owner: &KeyIdentity,
    now: i64,
) -> (r: Result<(LedgerState, u64)>)
    ensures
        match direct_governance_begun(ledger@, config.deep_view(), owner.deep_view(), now) {
            Ok(begun) => r matches Ok(made) && made.0@ == begun.0 && made.1 == begun.1,
            Err(refusal) => r matches Err(error) && error@ == refusal,
        },
{
    let node_id = local_node_id(config)?;
    let mut next = ledger.copy();
    let genesis = ensure_genesis_authority(&mut next)?;
    if node_id != genesis.node_id || !text_same(
        config.owner_address.as_str(),
        genesis.owner_address.as_str(),
    ) || !text_same(owner.address.as_str(), genesis.owner_address.as_str()) || !text_same(
        owner.public_key.as_str(),
        genesis.owner_public_key.as_str(),
    ) {
        return Err(
            Error::msg(
                "only the immutable Genesis Node 1 Owner key may execute direct governance",
            ),
        );
    }
    let eligible = governance_eligible_node_ids(&next, now);
    if eligible.len() >= NODE1_DIRECT_GOVERNANCE_END_THRESHOLD {
        return Err(
            Error::owned(
                join3(
                    "Node 1 direct governance is disabled at ",
                    usize_text(eligible.len()).as_str(),
                    " Governance-Eligible Nodes; node voting is required",
                ),
            ),
        );
    }
    cancel_governance_proposals_below_threshold(&mut next, now);
    ensure_account(&mut next, owner)?;
    Ok((next, node_id))
}

/// The draft of a direct governance action that leads to a ledger.
pub open spec fn direct_drafted(
    applied: LedgerModel,
    owner: Seq<char>,
    action: Seq<char>,
    payload: PayloadModel,
    now: i64,
) -> DraftModel {
    DraftModel {
        ledger: applied,
        operation: next_operation(applied, owner, "Governance"@, action, payload, now),
    }
}

fn draft_direct(
    applied: LedgerState,
    owner: &KeyIdentity,
    action: &str,
    payload: Payload,
    now: i64,
) -> (r: Draft)
    ensures
        r.deep_view() == direct_drafted(
            applied@,
            owner.deep_view().address,
            action@,
            payload.deep_view(),
            now,
        ),
{
    let operation = draft_next_operation(
        &applied,
        &owner.address,
        "Governance",
        action,
        payload,
        now,
    );
    Draft { ledger: applied, operation }
}

/// What the operation that sets parameters carries.
pub open spec fn parameter_fields(
    changes: Map<Seq<char>, Seq<char>>,
    activation: u64,
    effective_epoch: Option<u64>,
) -> PayloadModel {
    let fields = Map::<Seq<char>, FieldModel>::empty().insert(
        "changes"@,
        FieldModel::Changes(changes),
    ).insert("epoch_context_activation"@, FieldModel::Integer(activation as i128));
    match effective_epoch {
        Some(epoch) => fields.insert("effective_epoch"@, FieldModel::Integer(epoch as i128)),
        None => fields,
    }
}

/// The draft by which the owner of the first node sets parameters.
pub open spec fn parameters_drafted(
    ledger: LedgerModel,
    config: NodeConfigModel,
    owner: KeyModel,
    changes: Map<Seq<char>, Seq<char>>,
    effective_epoch: Option<u64>,
    now: i64,
) -> Outcome<(DraftModel, u64)> {
    match direct_governance_begun(ledger, config, owner, now) {
        Err(refusal) => Err(refusal),
        Ok(begun) => match batch_applied(begun.0, changes, effective_epoch) {
            Err(refusal) => Err(refusal),
            Ok(applied) => Ok(
                (
                    direct_drafted(
                        applied,
                        owner.address,
                        "SetParameters"@,
                        parameter_fields(
                            changes,
                            batch_accepted(begun.0, changes, effective_epoch)->Ok_0.2,
                            effective_epoch,
                        ),
                        now,
                    ),
                    begun.1,
                ),
            ),
        },
    }
}

/// Drafts a change of parameters from an epoch on.
pub fn governance_set_parameters_at_epoch(
    ledger: &LedgerState,
    config: &LocalNodeConfig,
    owner: &KeyIdentity,
    changes: Table<String, String>,
    effective_epoch: Option<u64>,
    now: i64,
) -> (r: Result<(Draft, u64)>)
    ensures
        outcome(r) == parameters_drafted(
            ledger@,
            config.deep_view(),
            owner.deep_view(),
            changes@,
            effective_epoch,
            now,
        ),
{
    let (mut next, node_id) = begin_direct_governance(ledger, config, owner, now)?;
    let activation: u64 = apply_governance_parameter_batch(&mut next, &changes, effective_epoch)?;
    let mut payload = Payload::new().with("changes", Field::Changes(changes)).with_number(
        "epoch_context_activation",
        activation,
    );
    if let Some(epoch) = effective_epoch {
        payload = payload.with_number("effective_epoch", epoch);
    }
    Ok((draft_direct(next, owner, "SetParameters", payload, now), node_id))
}

/// Drafts a change of parameters from the next epoch on.
pub fn governance_set_parameters(
    ledger: &LedgerState,
    config: &LocalNodeConfig,
    owner: &KeyIdentity,
    changes: Table<String, String>,
    now: i64,
) -> (r: Result<(Draft, u64)>)
    ensures
        outcome(r) == parameters_drafted(
            ledger@,
            config.deep_view(),
            owner.deep_view(),
            changes@,
            None,
            now,
        ),
{
    governance_set_parameters_at_epoch(ledger, config, owner, changes, None, now)
}

/// Drafts the change of one parameter.
pub fn governance_set_parameter(
    ledger: &LedgerState,
    config: &LocalNodeConfig,
    owner: &KeyIdentity,
    parameter: &str,
    value: &str,
    now: i64,
) -> (r: Result<(Draft, u64)>)
    ensures
        outcome(r) == parameters_drafted(
            ledger@,
            config.deep_view(),
            owner.deep_view(),
            Map::<Seq<char>, Seq<char>>::empty().insert(parameter@, value@),
            None,
            now,
        ),
{
    let mut changes: Table<String, String> = Table::new();
    changes.insert(parameter.to_owned(), value.to_owned());
    governance_set_parameters(ledger, config, owner, changes, now)
}

/// The draft by which the owner of the first node pauses the rewards.
pub open spec fn pause_drafted(
    ledger: LedgerModel,
    config: NodeConfigModel,
    owner: KeyModel,
    reason: Seq<char>,
    now: i64,
) -> Outcome<(DraftModel, u64)> {
    match stripped_within(
        reason,
        256,
        "pause reason must contain between 1 and 256 characters"@,
    ) {
        Err(refusal) => Err(refusal),
        Ok(stripped) => match direct_governance_begun(ledger, config, owner, now) {
            Err(refusal) => Err(refusal),
            Ok(begun) => match emission_paused(begun.0, stripped, now) {
                Err(refusal) => Err(refusal),
                Ok(applied) => Ok(
                    (
                        direct_drafted(
                            applied,
                            owner.address,
                            "PauseEmission"@,
                            Map::<Seq<char>, FieldModel>::empty().insert(
                                "reason"@,
                                FieldModel::Text(stripped),
                            ),
                            now,
                        ),
                        begun.1,
                    ),
                ),
            },
        },
    }
}

/// Drafts a pause of the rewards.
pub fn governance_pause_emission(
    ledger: &LedgerState,
    config: &LocalNodeConfig,
    owner: &KeyIdentity,
    reason: &str,
    now: i64,
) -> (r: Result<(Draft, u64)>)
    ensures
        outcome(r) == pause_drafted(
            ledger@,
            config.deep_view(),
            owner.deep_view(),
            reason@,
            now,
        ),
{
    let stripped = strip_within(
        reason,
        256,
        "pause reason must contain between 1 and 256 characters",
    )?;
    let (mut next, node_id) = begin_direct_governance(ledger, config, owner, now)?;
    pause_emission(&mut next, stripped.as_str(), now)?;
    let payload = Payload::new().with_text("reason", stripped.as_str());
    Ok((draft_direct(next, owner, "PauseEmission", payload, now), node_id))
}

/// The draft by which the owner of the first node lets the rewards go on.
pub open spec fn resume_drafted(
    ledger: LedgerModel,
    config: NodeConfigModel,
    owner: KeyModel,
    now: i64,
) -> Outcome<(DraftModel, u64)> {
    match direct_governance_begun(ledger, config, owner, now) {
        Err(refusal) => Err(refusal),
        Ok(begun) => match emission_resumed(begun.0, now) {
            Err(refusal) => Err(refusal),
            Ok(applied) => Ok(
                (
                    direct_drafted(
                        applied,
                        owner.address,
                        "ResumeEmission"@,
                        Map::<Seq<char>, FieldModel>::empty().insert(
                            "previous_reason"@,
                            match begun.0.governance.pause_reason {
                                Some(reason) => FieldModel::Text(reason),
                                None => FieldModel::Other(
                                    OtherModel { text: "null"@, serial: None },
                                ),
                            },
                        ),
                        now,
                    ),
                    begun.1,
                ),
            ),
        },
    }
}

/// Drafts the end of a pause of the rewards.
pub fn governance_resume_emission(
    ledger: &LedgerState,
    config: &LocalNodeConfig,
    owner: &KeyIdentity,
    now: i64,
) -> (r: Result<(Draft, u64)>)
    ensures
        outcome(r) == resume_drafted(ledger@, config.deep_view(), owner.deep_view(), now),
{
    let (mut next, node_id) = begin_direct_governance(ledger, config, owner, now)?;
    let previous = match &next.governance.pause_reason {
        Some(reason) => Field::Text(reason.clone()),
        None => Field::Other(OtherValue { text: "null".to_owned(), serial: None }),
    };
    resume_emission(&mut next, now)?;
    let payload = Payload::new().with("previous_reason", previous);
    Ok((draft_direct(next, owner, "ResumeEmission", payload, now), node_id))
}

/// Who governs where so many nodes count.
pub open spec fn mode_text(eligible: nat) -> Seq<char> {
    if eligible < GOVERNANCE_NODE_THRESHOLD {
        "NODE1_DIRECT"@
    } else if eligible < NODE1_DIRECT_GOVERNANCE_END_THRESHOLD {
        "HYBRID"@
    } else {
        "NODE_VOTING"@
    }
}

/// How a ledger is governed.
pub open spec fn governance_shown(ledger: LedgerModel, now: i64) -> Outcome<
    GovernanceStatusViewModel,
> {
    let eligible = eligible_ids(ledger, now);
    let ends = ledger.epoch_started_at + ledger.epoch_seconds_snapshot;
    if !(i64::MIN <= ends <= i64::MAX) {
        Err("Epoch boundary overflow"@)
    } else if !ledger.epoch_contexts.contains_key(ledger.epoch_number) {
        Err(epoch_closed(ledger.epoch_number))
    } else {
        Ok(
            GovernanceStatusViewModel {
                mode: mode_text(eligible.len()),
                threshold: GOVERNANCE_NODE_THRESHOLD,
                critical_threshold: CRITICAL_GOVERNANCE_NODE_THRESHOLD,
                node1_direct_end_threshold: NODE1_DIRECT_GOVERNANCE_END_THRESHOLD,
                governance_eligible_count: eligible.len() as usize,
                governance_eligible_node_ids: eligible,
                genesis_node_id: match genesis_of(ledger) {
                    Some(authority) => Some(authority.node_id),
                    None => None,
                },
                genesis_owner_address: match genesis_of(ledger) {
                    Some(authority) => Some(authority.owner_address),
                    None => None,
                },
                node1_direct_actions_enabled: eligible.len()
                    < NODE1_DIRECT_GOVERNANCE_END_THRESHOLD,
                emission_paused: ledger.governance.emission_paused,
                pause_reason: ledger.governance.pause_reason,
                current_epoch_number: ledger.epoch_number,
                current_epoch_started_at: ledger.epoch_started_at,
                current_epoch_ends_at: ends as i64,
                current_epoch_seconds: ledger.epoch_seconds_snapshot,
                current_epoch_mint_amount: ledger.epoch_mint_amount_snapshot,
                current_epoch_mint_amount_display: mrk_text(
                    ledger.epoch_mint_amount_snapshot as nat,
                ),
                current_reward_immediate_bps: ledger.reward_immediate_bps_snapshot,
                current_reward_vesting_seconds: ledger.reward_vesting_seconds_snapshot,
                availability_mode: ledger.epoch_contexts[ledger.epoch_number].availability_mode,
                availability_activated_at: ledger.availability_activated_at,
                availability_activated_epoch: ledger.availability_activated_epoch,
                minimum_decentralized_availability_validators:
                    MIN_DECENTRALIZED_AVAILABILITY_VALIDATORS,
                settings: ledger.settings,
                scheduled_parameter_changes: ledger.scheduled_parameter_changes,
                parameters: Parameter::listed().map_values(
                    |parameter: Parameter| parameter_shown(ledger, parameter),
                ),
                last_action_at: ledger.governance.last_action_at,
            },
        )
    }
}

/// Shows how a ledger is governed.
pub fn governance_status(ledger: &LedgerState, now: i64) -> (r: Result<GovernanceStatusView>)
    ensures
        outcome(r) == governance_shown(ledger@, now),
{
    let eligible = governance_eligible_node_ids(ledger, now);
    let direct = eligible.len() < NODE1_DIRECT_GOVERNANCE_END_THRESHOLD;
    let current_epoch_ends_at: i64 = match ledger.epoch_started_at.checked_add(
        ledger.epoch_seconds_snapshot,
    ) {
        None => {
            return Err(Error::msg("Epoch boundary overflow"));
        },
        Some(ends_at) => ends_at,
    };
    let availability_mode = epoch_context(ledger, ledger.epoch_number)?.availability_mode;
    let parameters = governance_parameter_views(ledger);
    let mode = if eligible.len() < GOVERNANCE_NODE_THRESHOLD {
        "NODE1_DIRECT"
    } else if direct {
        "HYBRID"
    } else {
        "NODE_VOTING"
    };
    let (genesis_node_id, genesis_owner_address): (Option<u64>, Option<String>) =
        match known_genesis_authority(ledger) {
        Some(authority) => (Some(authority.node_id), Some(authority.owner_address)),
        None => (None, None),
    };
    Ok(
        GovernanceStatusView {
            mode: mode.to_owned(),
            threshold: GOVERNANCE_NODE_THRESHOLD,
            critical_threshold: CRITICAL_GOVERNANCE_NODE_THRESHOLD,
            node1_direct_end_threshold: NODE1_DIRECT_GOVERNANCE_END_THRESHOLD,
            governance_eligible_count: eligible.len(),
            governance_eligible_node_ids: eligible,
            genesis_node_id,
            genesis_owner_address,
            node1_direct_actions_enabled: direct,
            emission_paused: ledger.governance.emission_paused,
            pause_reason: ledger.governance.pause_reason.replicate(),
            current_epoch_number: ledger.epoch_number,
            current_epoch_started_at: ledger.epoch_started_at,
            current_epoch_ends_at,
            current_epoch_seconds: ledger.epoch_seconds_snapshot,
            current_epoch_mint_amount: ledger.epoch_mint_amount_snapshot,
            current_epoch_mint_amount_display: format_mrk(ledger.epoch_mint_amount_snapshot),
            current_reward_immediate_bps: ledger.reward_immediate_bps_snapshot,
            current_reward_vesting_seconds: ledger.reward_vesting_seconds_snapshot,
            availability_mode,
            availability_activated_at: ledger.availability_activated_at,
            availability_activated_epoch: ledger.availability_activated_epoch,
            minimum_decentralized_availability_validators:
                MIN_DECENTRALIZED_AVAILABILITY_VALIDATORS,
            settings: ledger.settings.replicate(),
            scheduled_parameter_changes: ledger.scheduled_parameter_changes.replicate(),
            parameters,
            last_action_at: ledger.governance.last_action_at,
        },
    )
}

/// A proposal takes effect once: after its execution it cannot be executed again.
pub proof fn proposals_execute_once(
    ledger: LedgerModel,
    config: NodeConfigModel,
    owner: KeyModel,
    proposal_id: u64,
    now: i64,
    later: i64,
)
    requires
        ledger.governance.proposals.contains_key(proposal_id),
    ensures
        execution_drafted(
            proposal_marked_executed(ledger, proposal_id, now),
            config,
            owner,
            proposal_id,
            later,
        ) is Err,
{
}

/// Direct governance ends when enough nodes count: from then on its every form is refused.
pub proof fn direct_governance_ends(
    ledger: LedgerModel,
    config: NodeConfigModel,
    owner: KeyModel,
    changes: Map<Seq<char>, Seq<char>>,
    effective_epoch: Option<u64>,
    reason: Seq<char>,
    now: i64,
)
    requires
        genesis_fixed(ledger) matches Ok(fixed) ==> eligible_ids(fixed.0, now).len()
            >= NODE1_DIRECT_GOVERNANCE_END_THRESHOLD,
    ensures
        parameters_drafted(ledger, config, owner, changes, effective_epoch, now) is Err,
        pause_drafted(ledger, config, owner, reason, now) is Err,
        resume_drafted(ledger, config, owner, now) is Err,
{
}

/// The vote on a standard proposal takes seven days and its timelock seven more; the vote on a critical
/// one takes fourteen days and its timelock thirty.
pub proof fn proposals_take_their_time(kind: GovernanceProposalKind, now: i64)
    requires
        now <= i64::MAX - 3_801_600,
    ensures
        ({
            let (voting_ends_at, execute_after) = proposal_times(kind, now);
            match kind {
                GovernanceProposalKind::Standard => voting_ends_at == now + 604_800
                    && execute_after == voting_ends_at + 604_800,
                GovernanceProposalKind::Critical => voting_ends_at == now + 1_209_600
                    && execute_after == voting_ends_at + 2_592_000,
            }
        }),
{
}

} // verus!
