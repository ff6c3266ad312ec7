use vstd::prelude::*;
use vstd::string::*;

use crate::accounts::{add_history, balance_of, credit_account, credited, history_added};
use crate::drafts::{
    commit_draft, draft_committed, draft_next_operation, draft_signed, next_operation, Draft,
    DraftModel,
};
use crate::error::{outcome, Error, Outcome, Result};
use crate::model::{
    BallotModel, Field, FieldModel, GovernanceProposalAction, GovernanceProposalRecord,
    GovernanceProposalStatus, GovernanceValidatorVoteRecord, GovernanceVoteChoice,
    GovernanceVoteRecord, Intake, IntakeModel, KeyIdentity, KeyModel, LedgerModel, LedgerState,
    LocalNodeConfig, NodeConfigModel, Payload, ProposalModel, ValidatorBallotModel,
};
use crate::node_drafts::{local_node_id, registered_id};
use crate::number::{clamped_u128, saturating_mul_u128};
use crate::operations::{queueing_keeps_proposals, with_proposal};
use crate::payload::PayloadModel;
use crate::proposals::{bond_forfeited, count_proposal, proposal_counted};
use crate::sequence::contains_id;
use crate::table::{ordered, Replicate};
use crate::text::{decimal, i64_text, join2, join3, signed_decimal, text_same, u128_text, u64_text};
use crate::views::GovernanceTallyView;
use crate::voting::{
    distributed_mode_checked, ensure_distributed_governance_mode,
    ensure_governance_proposal_node_threshold, governance_tally, governance_tally_passed,
    power_cast, sum_power, tally_of, tally_passes, threshold_checked,
};

verus! {

/// Whether a key is that of a node's owner.
pub open spec fn identity_checked(ledger: LedgerModel, node_id: u64, owner: KeyModel) -> Outcome<
    (),
> {
    if !ledger.nodes.contains_key(node_id) {
        Err("governance Node is missing"@)
    } else if ledger.nodes[node_id].owner_address != owner.address
        || ledger.nodes[node_id].owner_public_key != owner.public_key {
        Err("Governance Node Owner key does not match the registry"@)
    } else {
        Ok(())
    }
}

/// Checks that a key is that of a node's owner.
pub fn ensure_governance_node_identity(
    ledger: &LedgerState,
    node_id: u64,
    owner_file: &KeyIdentity,
) -> (r: Result<()>)
    ensures
        outcome(r) == identity_checked(ledger@, node_id, owner_file.deep_view()),
{
    match ledger.nodes.get(&node_id) {
        None => Err(Error::msg("governance Node is missing")),
        Some(node) => {
            if !text_same(node.owner_address.as_str(), owner_file.address.as_str()) || !text_same(
                node.owner_public_key.as_str(),
                owner_file.public_key.as_str(),
            ) {
                return Err(Error::msg("Governance Node Owner key does not match the registry"));
            }
            Ok(())
        },
    }
}

/// Whether an action pays out of the treasury.
pub fn spends_treasury(action: &GovernanceProposalAction) -> (r: bool)
    ensures
        r == (action.deep_view() is TreasurySpend),
{
    matches!(
        action,
        GovernanceProposalAction::TreasurySpend { recipient: _, amount: _, reference_hash: _ }
    )
}

/// The proposal of a number.
pub open spec fn proposal_found(ledger: LedgerModel, proposal_id: u64) -> Outcome<ProposalModel> {
    if ledger.governance.proposals.contains_key(proposal_id) {
        Ok(ledger.governance.proposals[proposal_id])
    } else {
        Err("governance proposal "@ + decimal(proposal_id as nat) + " not found"@)
    }
}

fn find_proposal(ledger: &LedgerState, proposal_id: u64) -> (r: Result<&GovernanceProposalRecord>)
    ensures
        match r {
            Ok(proposal) => proposal_found(ledger@, proposal_id) == Ok::<_, Seq<char>>(
                proposal.deep_view(),
            ),
            Err(error) => proposal_found(ledger@, proposal_id) == Err::<ProposalModel, _>(error@),
        },
{
    match ledger.governance.proposals.get(&proposal_id) {
        Some(proposal) => Ok(proposal),
        None => Err(
            Error::owned(
                join3("governance proposal ", u64_text(proposal_id).as_str(), " not found"),
            ),
        ),
    }
}

/// Shows a proposal and the votes on it.
pub fn governance_proposal(ledger: &LedgerState, proposal_id: u64) -> (r: Result<
    (GovernanceProposalRecord, GovernanceTallyView),
>)
    ensures
        match proposal_found(ledger@, proposal_id) {
            Ok(proposal) => r matches Ok(shown) && shown.0.deep_view() == proposal && shown.1
                == tally_of(proposal),
            Err(refusal) => r matches Err(error) && error@ == refusal,
        },
{
    let proposal = find_proposal(ledger, proposal_id)?;
    let tally = governance_tally(proposal);
    Ok((proposal.replicate(), tally))
}

/// Shows all proposals, by their numbers.
pub fn governance_proposals(ledger: &LedgerState) -> (r: Vec<GovernanceProposalRecord>)
    ensures
        r.deep_view() == ordered::<u64>(ledger@.governance.proposals.dom()).map_values(
            |id: u64| ledger@.governance.proposals[id],
        ),
{
    let proposals = &ledger.governance.proposals;
    let ghost keys = proposals.keys();
    let mut shown: Vec<GovernanceProposalRecord> = Vec::new();
    let mut i: usize = 0;
    while i < proposals.len()
        invariant
            keys == proposals.keys(),
            proposals == ledger.governance.proposals,
            i <= keys.len(),
            shown.deep_view() == keys.take(i as int).map_values(|id: u64| proposals@[id]),
        decreases keys.len() - i,
    {
        let ghost before = shown.deep_view();
        let proposal = proposals.value_at(i).replicate();
        let ghost added = proposal.deep_view();
        shown.push(proposal);
        i = i + 1;
        assert(shown.deep_view() =~= before.push(added));
        assert(shown.deep_view() =~= keys.take(i as int).map_values(|id: u64| proposals@[id]));
    }
    assert(keys.take(i as int) =~= keys);
    assert(shown.deep_view() =~= keys.map_values(|id: u64| ledger@.governance.proposals[id]));
    shown
}

/// The node that takes part in deciding on a proposal, and the proposal.
pub open spec fn voter_found(
    ledger: LedgerModel,
    config: NodeConfigModel,
    owner: KeyModel,
    proposal_id: u64,
    now: i64,
) -> Outcome<(u64, ProposalModel)> {
    match registered_id(config) {
        Err(refusal) => Err(refusal),
        Ok(node_id) => match distributed_mode_checked(ledger, now) {
            Err(refusal) => Err(refusal),
            Ok(_) => match identity_checked(ledger, node_id, owner) {
                Err(refusal) => Err(refusal),
                Ok(_) => match proposal_found(ledger, proposal_id) {
                    Err(refusal) => Err(refusal),
                    Ok(proposal) => match threshold_checked(ledger, proposal.kind, now) {
                        Err(refusal) => Err(refusal),
                        Ok(_) => Ok((node_id, proposal)),
                    },
                },
            },
        },
    }
}

/// Finds the node that takes part in deciding on a proposal, and the proposal.
pub fn find_voter<'a>(
    ledger: &'a LedgerState,
    config: &LocalNodeConfig,
    owner: &KeyIdentity,
    proposal_id: u64,
    now: i64,
) -> (r: Result<(u64, &'a GovernanceProposalRecord)>)
    ensures
        match voter_found(ledger@, config.deep_view(), owner.deep_view(), proposal_id, now) {
            Ok(found) => r matches Ok(voter) && voter.0 == found.0 && voter.1.deep_view()
                == found.1,
            Err(refusal) => r matches Err(error) && error@ == refusal,
        },
{
    let node_id = local_node_id(config)?;
    ensure_distributed_governance_mode(ledger, now)?;
    ensure_governance_node_identity(ledger, node_id, owner)?;
    let proposal = find_proposal(ledger, proposal_id)?;
    ensure_governance_proposal_node_threshold(ledger, &proposal.kind, now)?;
    Ok((node_id, proposal))
}

/// In what way a node decides on a proposal.
#[derive(Clone, Copy, Debug, PartialEq, Eq, Structural)]
pub enum BallotKind {
    Vote,
    ValidatorVote,
    Veto,
}

/// A ballot that is yet to be signed.
#[derive(Clone, Copy, Debug, PartialEq, Eq, Structural)]
pub struct Ballot {
    pub kind: BallotKind,
    pub proposal_id: u64,
    pub node_id: u64,
    pub choice: GovernanceVoteChoice,
    pub power: u128,
}

/// The action by which a ballot is cast.
pub open spec fn ballot_action(kind: BallotKind) -> Seq<char> {
    match kind {
        BallotKind::Vote => "VoteProposal"@,
        BallotKind::ValidatorVote => "ValidatorVoteProposal"@,
        BallotKind::Veto => "VetoTreasuryProposal"@,
    }
}

/// What the operation that casts a ballot carries.
pub open spec fn ballot_fields(ballot: Ballot) -> PayloadModel {
    let fields = Map::<Seq<char>, FieldModel>::empty().insert(
        "proposal_id"@,
        FieldModel::Integer(ballot.proposal_id as i128),
    );
    match ballot.kind {
        BallotKind::Vote => fields.insert(
            "node_id"@,
            FieldModel::Integer(ballot.node_id as i128),
        ).insert("choice"@, FieldModel::Choice(ballot.choice)).insert(
            "snapshot_power"@,
            FieldModel::Text(decimal(ballot.power as nat)),
        ),
        BallotKind::ValidatorVote => fields.insert(
            "validator_node_id"@,
            FieldModel::Integer(ballot.node_id as i128),
        ).insert("choice"@, FieldModel::Choice(ballot.choice)),
        BallotKind::Veto => fields.insert(
            "node_id"@,
            FieldModel::Integer(ballot.node_id as i128),
        ).insert("snapshot_power"@, FieldModel::Text(decimal(ballot.power as nat))),
    }
}

fn ballot_payload(ballot: &Ballot) -> (r: Payload)
    ensures
        r.deep_view() == ballot_fields(*ballot),
{
    let payload = Payload::new().with_number("proposal_id", ballot.proposal_id);
    match ballot.kind {
        BallotKind::Vote => payload.with_number("node_id", ballot.node_id).with(
            "choice",
            Field::Choice(ballot.choice),
        ).with_text("snapshot_power", u128_text(ballot.power).as_str()),
        BallotKind::ValidatorVote => payload.with_number(
            "validator_node_id",
            ballot.node_id,
        ).with("choice", Field::Choice(ballot.choice)),
        BallotKind::Veto => payload.with_number("node_id", ballot.node_id).with_text(
            "snapshot_power",
            u128_text(ballot.power).as_str(),
        ),
    }
}

/// The draft by which a ballot is cast.
pub open spec fn ballot_drafted(
    ledger: LedgerModel,
    owner: Seq<char>,
    ballot: Ballot,
    now: i64,
) -> DraftModel {
    DraftModel {
        ledger,
        operation: next_operation(
            ledger,
            owner,
            "Governance"@,
            ballot_action(ballot.kind),
            ballot_fields(ballot),
            now,
        ),
    }
}

fn draft_ballot(ledger: &LedgerState, owner: &KeyIdentity, ballot: &Ballot, now: i64) -> (r: Draft)
    ensures
        r.deep_view() == ballot_drafted(ledger@, owner.deep_view().address, *ballot, now),
{
    let action = match ballot.kind {
        BallotKind::Vote => "VoteProposal",
        BallotKind::ValidatorVote => "ValidatorVoteProposal",
        BallotKind::Veto => "VetoTreasuryProposal",
    };
    let operation = draft_next_operation(
        ledger,
        &owner.address,
        "Governance",
        action,
        ballot_payload(ballot),
        now,
    );
    Draft { ledger: ledger.copy(), operation }
}

/// The ballot of a node on a proposal.
pub open spec fn vote_opened(
    node_id: u64,
    proposal_id: u64,
    proposal: ProposalModel,
    choice: GovernanceVoteChoice,
    now: i64,
) -> Outcome<Ballot> {
    if proposal.status != GovernanceProposalStatus::Voting || now >= proposal.voting_ends_at {
        Err("governance proposal is not accepting votes"@)
    } else if !proposal.power_snapshot.contains_key(node_id) {
        Err("Node was not Governance-Eligible at proposal snapshot"@)
    } else if proposal.votes.contains_key(node_id) {
        Err("Node has already voted on this proposal"@)
    } else {
        Ok(
            Ballot {
                kind: BallotKind::Vote,
                proposal_id,
                node_id,
                choice,
                power: proposal.power_snapshot[node_id],
            },
        )
    }
}

fn open_vote(
    node_id: u64,
    proposal_id: u64,
    proposal: &GovernanceProposalRecord,
    choice: GovernanceVoteChoice,
    now: i64,
) -> (r: Result<Ballot>)
    ensures
        match vote_opened(node_id, proposal_id, proposal.deep_view(), choice, now) {
            Ok(ballot) => r matches Ok(opened) && opened == ballot,
            Err(refusal) => r matches Err(error) && error@ == refusal,
        },
{
    if proposal.status != GovernanceProposalStatus::Voting || now >= proposal.voting_ends_at {
        return Err(Error::msg("governance proposal is not accepting votes"));
    }
    let power: u128 = match proposal.power_snapshot.get(&node_id) {
        None => {
            return Err(Error::msg("Node was not Governance-Eligible at proposal snapshot"));
        },
        Some(power) => *power,
    };
    if proposal.votes.contains_key(&node_id) {
        return Err(Error::msg("Node has already voted on this proposal"));
    }
    Ok(Ballot { kind: BallotKind::Vote, proposal_id, node_id, choice, power })
}

/// The ballot of a validator on a payment out of the treasury.
pub open spec fn validator_vote_opened(
    node_id: u64,
    proposal_id: u64,
    proposal: ProposalModel,
    choice: GovernanceVoteChoice,
    now: i64,
) -> Outcome<Ballot> {
    if !(proposal.action is TreasurySpend) {
        Err("Validator approval is required only for TreasurySpend proposals"@)
    } else if proposal.status != GovernanceProposalStatus::Voting || now
        >= proposal.voting_ends_at {
        Err("governance proposal is not accepting Validator votes"@)
    } else if !proposal.validator_snapshot.contains(node_id) {
        Err("Node was not an Active Validator at proposal snapshot"@)
    } else if proposal.validator_votes.contains_key(node_id) {
        Err("Validator has already voted on this proposal"@)
    } else {
        Ok(Ballot { kind: BallotKind::ValidatorVote, proposal_id, node_id, choice, power: 0 })
    }
}

fn open_validator_vote(
    node_id: u64,
    proposal_id: u64,
    proposal: &GovernanceProposalRecord,
    choice: GovernanceVoteChoice,
    now: i64,
) -> (r: Result<Ballot>)
    ensures
        match validator_vote_opened(node_id, proposal_id, proposal.deep_view(), choice, now) {
            Ok(ballot) => r matches Ok(opened) && opened == ballot,
            Err(refusal) => r matches Err(error) && error@ == refusal,
        },
{
    if !spends_treasury(&proposal.action) {
        return Err(
            Error::msg("Validator approval is required only for TreasurySpend proposals"),
        );
    }
    if proposal.status != GovernanceProposalStatus::Voting || now >= proposal.voting_ends_at {
        return Err(Error::msg("governance proposal is not accepting Validator votes"));
    }
    if !contains_id(&proposal.validator_snapshot, node_id) {
        return Err(Error::msg("Node was not an Active Validator at proposal snapshot"));
    }
    if proposal.validator_votes.contains_key(&node_id) {
        return Err(Error::msg("Validator has already voted on this proposal"));
    }
    Ok(Ballot { kind: BallotKind::ValidatorVote, proposal_id, node_id, choice, power: 0 })
}

/// The veto of a node against a payment out of the treasury.
pub open spec fn veto_opened(
    node_id: u64,
    proposal_id: u64,
    proposal: ProposalModel,
    now: i64,
) -> Outcome<Ballot> {
    if !(proposal.action is TreasurySpend) {
        Err("timelock veto applies only to TreasurySpend proposals"@)
    } else if proposal.status != GovernanceProposalStatus::Passed || now
        >= proposal.execute_after {
        Err("TreasurySpend vetoes are accepted only during the execution timelock"@)
    } else if !proposal.power_snapshot.contains_key(node_id) {
        Err("Node was not in the mature governance snapshot"@)
    } else if proposal.timelock_vetoes.contains_key(node_id) {
        Err("Node has already vetoed this proposal"@)
    } else {
        Ok(
            Ballot {
                kind: BallotKind::Veto,
                proposal_id,
                node_id,
                choice: GovernanceVoteChoice::No,
                power: proposal.power_snapshot[node_id],
            },
        )
    }
}

fn open_veto(
    node_id: u64,
    proposal_id: u64,
    proposal: &GovernanceProposalRecord,
    now: i64,
) -> (r: Result<Ballot>)
    ensures
        match veto_opened(node_id, proposal_id, proposal.deep_view(), now) {
            Ok(ballot) => r matches Ok(opened) && opened == ballot,
            Err(refusal) => r matches Err(error) && error@ == refusal,
        },
{
    if !spends_treasury(&proposal.action) {
        return Err(Error::msg("timelock veto applies only to TreasurySpend proposals"));
    }
    if proposal.status != GovernanceProposalStatus::Passed || now >= proposal.execute_after {
        return Err(
            Error::msg("TreasurySpend vetoes are accepted only during the execution timelock"),
        );
    }
    let power: u128 = match proposal.power_snapshot.get(&node_id) {
        None => {
            return Err(Error::msg("Node was not in the mature governance snapshot"));
        },
        Some(power) => *power,
    };
    if proposal.timelock_vetoes.contains_key(&node_id) {
        return Err(Error::msg("Node has already vetoed this proposal"));
    }
    Ok(
        Ballot {
            kind: BallotKind::Veto,
            proposal_id,
            node_id,
            choice: GovernanceVoteChoice::No,
            power,
        },
    )
}

/// Drafts the vote of a node on a proposal.
pub fn vote_governance_proposal(
    ledger: &LedgerState,
    config: &LocalNodeConfig,
    owner: &KeyIdentity,
    proposal_id: u64,
    choice: GovernanceVoteChoice,
    now: i64,
) -> (r: Result<(Draft, Ballot)>)
    ensures
        match voter_found(ledger@, config.deep_view(), owner.deep_view(), proposal_id, now) {
            Err(refusal) => r matches Err(error) && error@ == refusal,
            Ok(found) => match vote_opened(found.0, proposal_id, found.1, choice, now) {
                Err(refusal) => r matches Err(error) && error@ == refusal,
                Ok(ballot) => r matches Ok(made) && made.1 == ballot && made.0.deep_view()
                    == ballot_drafted(ledger@, owner.deep_view().address, ballot, now),
            },
        },
{
    let (node_id, proposal) = find_voter(ledger, config, owner, proposal_id, now)?;
    let ballot = open_vote(node_id, proposal_id, proposal, choice, now)?;
    Ok((draft_ballot(ledger, owner, &ballot, now), ballot))
}

/// Drafts the vote of a validator on a payment out of the treasury.
pub fn validator_vote_governance_proposal(
    ledger: &LedgerState,
    config: &LocalNodeConfig,
    owner: &KeyIdentity,
    proposal_id: u64,
    choice: GovernanceVoteChoice,
    now: i64,
) -> (r: Result<(Draft, Ballot)>)
    ensures
        match voter_found(ledger@, config.deep_view(), owner.deep_view(), proposal_id, now) {
            Err(refusal) => r matches Err(error) && error@ == refusal,
            Ok(found) => match validator_vote_opened(found.0, proposal_id, found.1, choice, now) {
                Err(refusal) => r matches Err(error) && error@ == refusal,
                Ok(ballot) => r matches Ok(made) && made.1 == ballot && made.0.deep_view()
                    == ballot_drafted(ledger@, owner.deep_view().address, ballot, now),
            },
        },
{
    let (node_id, proposal) = find_voter(ledger, config, owner, proposal_id, now)?;
    let ballot = open_validator_vote(node_id, proposal_id, proposal, choice, now)?;
    Ok((draft_ballot(ledger, owner, &ballot, now), ballot))
}

/// Drafts the veto of a node against a payment out of the treasury.
pub fn veto_treasury_proposal(
    ledger: &LedgerState,
    config: &LocalNodeConfig,
    owner: &KeyIdentity,
    proposal_id: u64,
    now: i64,
) -> (r: Result<(Draft, Ballot)>)
    ensures
        match voter_found(ledger@, config.deep_view(), owner.deep_view(), proposal_id, now) {
            Err(refusal) => r matches Err(error) && error@ == refusal,
            Ok(found) => match veto_opened(found.0, proposal_id, found.1, now) {
                Err(refusal) => r matches Err(error) && error@ == refusal,
                Ok(ballot) => r matches Ok(made) && made.1 == ballot && made.0.deep_view()
                    == ballot_drafted(ledger@, owner.deep_view().address, ballot, now),
            },
        },
{
    let (node_id, proposal) = find_voter(ledger, config, owner, proposal_id, now)?;
    let ballot = open_veto(node_id, proposal_id, proposal, now)?;
    Ok((draft_ballot(ledger, owner, &ballot, now), ballot))
}

/// The record of a node's ballot.
pub open spec fn ballot_record(ballot: Ballot, operation_id: Seq<char>, now: i64) -> BallotModel {
    BallotModel {
        node_id: ballot.node_id,
        choice: ballot.choice,
        power: ballot.power,
        operation_id,
        voted_at: now,
    }
}

/// A proposal on which a ballot has been cast. Vetoes of more than a third of all power call it
/// off.
pub open spec fn ballot_counted(
    proposal: ProposalModel,
    ballot: Ballot,
    operation_id: Seq<char>,
    now: i64,
) -> ProposalModel {
    let record = ballot_record(ballot, operation_id, now);
    match ballot.kind {
        BallotKind::Vote => ProposalModel {
            votes: proposal.votes.insert(ballot.node_id, record),
            ..proposal
        },
        BallotKind::ValidatorVote => ProposalModel {
            validator_votes: proposal.validator_votes.insert(
                ballot.node_id,
                ValidatorBallotModel {
                    node_id: ballot.node_id,
                    choice: ballot.choice,
                    operation_id,
                    voted_at: now,
                },
            ),
            ..proposal
        },
        BallotKind::Veto => {
            let vetoes = proposal.timelock_vetoes.insert(ballot.node_id, record);
            let power = clamped_u128(power_cast(vetoes, ordered::<u64>(vetoes.dom())) as int);
            let vetoed = ProposalModel { timelock_vetoes: vetoes, ..proposal };
            if clamped_u128(power * 3) > proposal.total_power {
                ProposalModel {
                    status: GovernanceProposalStatus::Cancelled,
                    finalized_at: Some(now),
                    ..vetoed
                }
            } else {
                vetoed
            }
        },
    }
}

fn count_ballot(
    proposal: &mut GovernanceProposalRecord,
    ballot: &Ballot,
    operation_id: &str,
    now: i64,
)
    ensures
        final(proposal).deep_view() == ballot_counted(
            old(proposal).deep_view(),
            *ballot,
            operation_id@,
            now,
        ),
{
    match ballot.kind {
        BallotKind::ValidatorVote => {
            let record = GovernanceValidatorVoteRecord {
                node_id: ballot.node_id,
                choice: ballot.choice,
                operation_id: operation_id.to_owned(),
                voted_at: now,
            };
            proposal.validator_votes.insert(ballot.node_id, record);
        },
        BallotKind::Vote => {
            let record = GovernanceVoteRecord {
                node_id: ballot.node_id,
                choice: ballot.choice,
                power: ballot.power,
                operation_id: operation_id.to_owned(),
                voted_at: now,
            };
            proposal.votes.insert(ballot.node_id, record);
        },
        BallotKind::Veto => {
            let record = GovernanceVoteRecord {
                node_id: ballot.node_id,
                choice: ballot.choice,
                power: ballot.power,
                operation_id: operation_id.to_owned(),
                voted_at: now,
            };
            proposal.timelock_vetoes.insert(ballot.node_id, record);
            let veto_power = sum_power(&proposal.timelock_vetoes);
            if saturating_mul_u128(veto_power, 3) > proposal.total_power {
                proposal.status = GovernanceProposalStatus::Cancelled;
                proposal.finalized_at = Some(now);
            }
        },
    }
}

/// The ledger after a signed ballot has been cast.
pub open spec fn ballot_committed(
    draft: DraftModel,
    ballot: Ballot,
    public_key: Seq<char>,
    signature: Seq<char>,
    intake: IntakeModel,
    now: i64,
) -> Outcome<LedgerModel> {
    match proposal_found(draft.ledger, ballot.proposal_id) {
        Err(refusal) => Err(refusal),
        Ok(proposal) => draft_committed(
            DraftModel {
                ledger: with_proposal(
                    draft.ledger,
                    ballot.proposal_id,
                    ballot_counted(proposal, ballot, intake.operation_id, now),
                ),
                ..draft
            },
            public_key,
            signature,
            intake,
            now,
        ),
    }
}

/// Casts a signed ballot and counts the votes on its proposal.
pub fn commit_ballot(
    ledger: &mut LedgerState,
    draft: Draft,
    ballot: Ballot,
    public_key: &str,
    signature: String,
    intake: Intake,
    now: i64,
) -> (r: Result<(String, GovernanceTallyView)>)
    ensures
        match ballot_committed(
            draft.deep_view(),
            ballot,
            public_key@,
            signature@,
            intake.deep_view(),
            now,
        ) {
            Ok(next) => final(ledger)@ == next && (r matches Ok(cast) && cast.0@
                == intake.operation_id@ && cast.1 == tally_of(
                next.governance.proposals[ballot.proposal_id],
            )),
            Err(refusal) => final(ledger)@ == old(ledger)@ && (r matches Err(error) && error@
                == refusal),
        },
{
    let ghost given = draft.deep_view();
    find_proposal(&draft.ledger, ballot.proposal_id)?;
    let mut next = draft;
    if let Some(proposal) = next.ledger.governance.proposals.get_mut(&ballot.proposal_id) {
        count_ballot(proposal, &ballot, intake.operation_id.as_str(), now);
    }
    let ghost counted = with_proposal(
        given.ledger,
        ballot.proposal_id,
        ballot_counted(
            given.ledger.governance.proposals[ballot.proposal_id],
            ballot,
            intake.operation_id@,
            now,
        ),
    );
    assert(next.ledger@ == counted);
    let ghost signed = draft_signed(next.deep_view(), signature@, intake.deep_view());
    let operation_id = commit_draft(ledger, next, public_key, signature, intake, now)?;
    proof {
        queueing_keeps_proposals(counted, signed, intake.operation_id@, now, ballot.proposal_id);
    }
    let proposal = find_proposal(ledger, ballot.proposal_id)?;
    Ok((operation_id, governance_tally(proposal)))
}

/// The draft by which the votes on a proposal are counted. What of the bond is not paid back goes
/// to the treasury.
pub open spec fn count_drafted(
    ledger: LedgerModel,
    config: NodeConfigModel,
    owner: KeyModel,
    proposal_id: u64,
    now: i64,
) -> Outcome<DraftModel> {
    match voter_found(ledger, config, owner, proposal_id, now) {
        Err(refusal) => Err(refusal),
        Ok(found) => {
            let proposal = found.1;
            let tally = tally_of(proposal);
            let forfeited = bond_forfeited(proposal);
            if proposal.status != GovernanceProposalStatus::Voting {
                Err("governance proposal is already finalized"@)
            } else if now < proposal.voting_ends_at {
                Err(
                    "governance voting remains open until "@ + signed_decimal(
                        proposal.voting_ends_at as int,
                    ),
                )
            } else if ledger.treasury + forfeited > u128::MAX {
                Err("treasury overflow"@)
            } else {
                Ok(
                    DraftModel {
                        ledger: credited(
                            LedgerModel {
                                treasury: (ledger.treasury + forfeited) as u128,
                                ..with_proposal(
                                    ledger,
                                    proposal_id,
                                    proposal_counted(proposal, now),
                                )
                            },
                            proposal.proposer_reward_address,
                            (proposal.proposal_bond - forfeited) as u128,
                        ),
                        operation: next_operation(
                            ledger,
                            owner.address,
                            "Governance"@,
                            "FinalizeProposal"@,
                            count_fields(proposal_id, tally_passes(proposal, tally), tally),
                            now,
                        ),
                    },
                )
            }
        },
    }
}

/// What the operation that counts the votes carries.
pub open spec fn count_fields(
    proposal_id: u64,
    passed: bool,
    tally: GovernanceTallyView,
) -> PayloadModel {
    Map::<Seq<char>, FieldModel>::empty().insert(
        "proposal_id"@,
        FieldModel::Integer(proposal_id as i128),
    ).insert(
        "result"@,
        FieldModel::Text(if passed {
            "PASSED"@
        } else {
            "REJECTED"@
        }),
    ).insert("yes_power"@, FieldModel::Text(decimal(tally.yes_power as nat))).insert(
        "no_power"@,
        FieldModel::Text(decimal(tally.no_power as nat)),
    ).insert("abstain_power"@, FieldModel::Text(decimal(tally.abstain_power as nat)))
}

/// A tally of which the outcome is known.
pub open spec fn tally_closed(proposal: ProposalModel) -> GovernanceTallyView {
    let tally = tally_of(proposal);
    GovernanceTallyView {
        status: if tally_passes(proposal, tally) {
            GovernanceProposalStatus::Passed
        } else {
            GovernanceProposalStatus::Rejected
        },
        ..tally
    }
}

/// Drafts the counting of the votes on a proposal.
pub fn finalize_governance_proposal(
    ledger: &LedgerState,
    config: &LocalNodeConfig,
    owner: &KeyIdentity,
    proposal_id: u64,
    now: i64,
) -> (r: Result<(Draft, String, GovernanceTallyView)>)
    ensures
        match count_drafted(ledger@, config.deep_view(), owner.deep_view(), proposal_id, now) {
            Err(refusal) => r matches Err(error) && error@ == refusal,
            Ok(draft) => r matches Ok(made) && made.0.deep_view() == draft && made.1@
                == ledger@.governance.proposals[proposal_id].proposer_reward_address && made.2
                == tally_closed(ledger@.governance.proposals[proposal_id]),
        },
{
    let (_, proposal) = find_voter(ledger, config, owner, proposal_id, now)?;
    if proposal.status != GovernanceProposalStatus::Voting {
        return Err(Error::msg("governance proposal is already finalized"));
    }
    if now < proposal.voting_ends_at {
        return Err(
            Error::owned(
                join2(
                    "governance voting remains open until ",
                    i64_text(proposal.voting_ends_at).as_str(),
                ),
            ),
        );
    }
    let mut tally = governance_tally(proposal);
    let passed = governance_tally_passed(proposal, &tally);
    let operation = draft_next_operation(
        ledger,
        &owner.address,
        "Governance",
        "FinalizeProposal",
        Payload::new().with_number("proposal_id", proposal_id).with_text(
            "result",
            if passed {
                "PASSED"
            } else {
                "REJECTED"
            },
        ).with_text("yes_power", u128_text(tally.yes_power).as_str()).with_text(
            "no_power",
            u128_text(tally.no_power).as_str(),
        ).with_text("abstain_power", u128_text(tally.abstain_power).as_str()),
        now,
    );
    tally.status = if passed {
        GovernanceProposalStatus::Passed
    } else {
        GovernanceProposalStatus::Rejected
    };
    let mut next = ledger.copy();
    let counted: (String, u128, u128) = match next.governance.proposals.get_mut(&proposal_id) {
        None => {
            return Err(Error::msg("governance proposal is missing"));
        },
        Some(proposal) => count_proposal(proposal, now),
    };
    match next.treasury.checked_add(counted.2) {
        None => {
            return Err(Error::msg("treasury overflow"));
        },
        Some(treasury) => {
            next.treasury = treasury;
        },
    }
    credit_account(&mut next, counted.0.as_str(), counted.1);
    Ok((Draft { ledger: next, operation }, counted.0, tally))
}

/// Puts a signed count in force. It is noted for the account that gets its bond back.
pub fn commit_count(
    ledger: &mut LedgerState,
    draft: Draft,
    refund_address: &str,
    public_key: &str,
    signature: String,
    intake: Intake,
    now: i64,
) -> (r: Result<String>)
    ensures
        match draft_committed(draft.deep_view(), public_key@, signature@, intake.deep_view(), now) {
            Ok(next) => final(ledger)@ == history_added(
                next,
                refund_address@,
                intake.operation_id@,
            ) && (r matches Ok(id) && id@ == intake.operation_id@),
            Err(refusal) => final(ledger)@ == old(ledger)@ && (r matches Err(error) && error@
                == refusal),
        },
{
    let operation_id = commit_draft(ledger, draft, public_key, signature, intake, now)?;
    add_history(ledger, refund_address, operation_id.as_str());
    Ok(operation_id)
}

/// A node that has cast a ballot on a proposal cannot cast another of the same kind on it.
pub proof fn ballots_are_cast_once(
    proposal: ProposalModel,
    ballot: Ballot,
    operation_id: Seq<char>,
    now: i64,
    choice: GovernanceVoteChoice,
    later: i64,
)
    ensures
        ({
            let counted = ballot_counted(proposal, ballot, operation_id, now);
            match ballot.kind {
                BallotKind::Vote => vote_opened(
                    ballot.node_id,
                    ballot.proposal_id,
                    counted,
                    choice,
                    later,
                ) is Err,
                BallotKind::ValidatorVote => validator_vote_opened(
                    ballot.node_id,
                    ballot.proposal_id,
                    counted,
                    choice,
                    later,
                ) is Err,
                BallotKind::Veto => veto_opened(
                    ballot.node_id,
                    ballot.proposal_id,
                    counted,
                    later,
                ) is Err,
            }
        }),
{
}

/// A ballot counts with the power that its node had when the proposal was made, and no other ballot
/// is touched.
pub proof fn votes_count_by_the_snapshot(
    node_id: u64,
    proposal_id: u64,
    proposal: ProposalModel,
    choice: GovernanceVoteChoice,
    operation_id: Seq<char>,
    now: i64,
)
    requires
        vote_opened(node_id, proposal_id, proposal, choice, now) is Ok,
    ensures
        ({
            let ballot = vote_opened(node_id, proposal_id, proposal, choice, now)->Ok_0;
            let counted = ballot_counted(proposal, ballot, operation_id, now);
            &&& counted.votes[node_id].power == proposal.power_snapshot[node_id]
            &&& counted.votes[node_id].choice == choice
            &&& counted.votes.remove(node_id) == proposal.votes
            &&& counted.status == proposal.status
        }),
{
    let ballot = vote_opened(node_id, proposal_id, proposal, choice, now)->Ok_0;
    let counted = ballot_counted(proposal, ballot, operation_id, now);
    assert(counted.votes.remove(node_id) =~= proposal.votes);
}

/// Counting the votes on a proposal shares its bond out between its maker and the treasury.
pub proof fn counting_shares_the_bond_out(
    ledger: LedgerModel,
    config: NodeConfigModel,
    owner: KeyModel,
    proposal_id: u64,
    now: i64,
)
    requires
        count_drafted(ledger, config, owner, proposal_id, now) is Ok,
        ({
            let proposal = ledger.governance.proposals[proposal_id];
            balance_of(ledger, proposal.proposer_reward_address) + proposal.proposal_bond
                <= u128::MAX
        }),
    ensures
        ({
            let proposal = ledger.governance.proposals[proposal_id];
            let maker = proposal.proposer_reward_address;
            let next = count_drafted(ledger, config, owner, proposal_id, now)->Ok_0.ledger;
            &&& next.governance.proposals[proposal_id].proposal_bond == 0
            &&& next.treasury + balance_of(next, maker) == ledger.treasury + balance_of(
                ledger,
                maker,
            ) + proposal.proposal_bond
            &&& next.treasury - ledger.treasury <= proposal.proposal_bond / 5
        }),
{
}

/// A veto that is drafted counts with the power of its node in the snapshot. As soon as the vetoes
/// together have more than a third of all power the proposal is called off; until then it stands.
pub proof fn vetoes_of_a_third_call_off(
    node_id: u64,
    proposal_id: u64,
    proposal: ProposalModel,
    operation_id: Seq<char>,
    now: i64,
)
    requires
        veto_opened(node_id, proposal_id, proposal, now) is Ok,
    ensures
        ({
            let ballot = veto_opened(node_id, proposal_id, proposal, now)->Ok_0;
            let left = ballot_counted(proposal, ballot, operation_id, now);
            let against = power_cast(
                left.timelock_vetoes,
                ordered::<u64>(left.timelock_vetoes.dom()),
            );
            &&& proposal.action is TreasurySpend
            &&& proposal.status == GovernanceProposalStatus::Passed
            &&& now < proposal.execute_after
            &&& left.timelock_vetoes[node_id].power == proposal.power_snapshot[node_id]
            &&& left.timelock_vetoes == proposal.timelock_vetoes.insert(
                node_id,
                left.timelock_vetoes[node_id],
            )
            &&& against * 3 > proposal.total_power && proposal.total_power < u128::MAX
                ==> left.status == GovernanceProposalStatus::Cancelled
            &&& against * 3 <= proposal.total_power ==> left.status
                == GovernanceProposalStatus::Passed
        }),
{
}

/// A node votes only while the proposal is open to votes and if it belongs to the snapshot, and every
/// such node that has not voted yet may.
pub proof fn votes_are_open_until_the_end(
    node_id: u64,
    proposal_id: u64,
    proposal: ProposalModel,
    choice: GovernanceVoteChoice,
    now: i64,
)
    ensures
        vote_opened(node_id, proposal_id, proposal, choice, now) is Ok <==> {
            &&& proposal.status == GovernanceProposalStatus::Voting
            &&& now < proposal.voting_ends_at
            &&& proposal.power_snapshot.contains_key(node_id)
            &&& !proposal.votes.contains_key(node_id)
        },
        validator_vote_opened(node_id, proposal_id, proposal, choice, now) is Ok <==> {
            &&& proposal.action is TreasurySpend
            &&& proposal.status == GovernanceProposalStatus::Voting
            &&& now < proposal.voting_ends_at
            &&& proposal.validator_snapshot.contains(node_id)
            &&& !proposal.validator_votes.contains_key(node_id)
        },
        veto_opened(node_id, proposal_id, proposal, now) is Ok <==> {
            &&& proposal.action is TreasurySpend
            &&& proposal.status == GovernanceProposalStatus::Passed
            &&& now < proposal.execute_after
            &&& proposal.power_snapshot.contains_key(node_id)
            &&& !proposal.timelock_vetoes.contains_key(node_id)
        },
{
}

} // verus!
