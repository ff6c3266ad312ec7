use vstd::prelude::*;

use crate::error::{outcome, Error, Outcome, Result};
use crate::model::{
    BallotModel, GovernanceProposalAction, GovernanceProposalKind, GovernanceProposalRecord,
    GovernanceValidatorVoteRecord, GovernanceVoteChoice, GovernanceVoteRecord, LedgerModel,
    LedgerState, ProposalModel, ValidatorBallotModel,
};
use crate::nodes::{eligible_ids, governance_eligible_node_ids};
use crate::number::{clamped_u128, least, saturating_mul_u128};
use crate::protocol::{
    CRITICAL_GOVERNANCE_NODE_THRESHOLD, GOVERNANCE_NODE_THRESHOLD, MIN_ACTIVE_VALIDATORS,
    TREASURY_MATURE_SERVICE_SECONDS,
};
use crate::sequence::{filter_ends, filter_step, filtered_are_members};
use crate::table::{ordered, ordered_lists_all, ordered_takes_in, Table};
use crate::text::{decimal, usize_text};
use crate::views::GovernanceTallyView;

verus! {

/// The power of the ballots for a choice among some nodes.
pub open spec fn power_for(
    votes: Map<u64, BallotModel>,
    ids: Seq<u64>,
    choice: GovernanceVoteChoice,
) -> nat
    decreases ids.len(),
{
    if ids.len() == 0 {
        0
    } else {
        power_for(votes, ids.drop_last(), choice) + if votes[ids.last()].choice == choice {
            votes[ids.last()].power as nat
        } else {
            0
        }
    }
}

/// The power of all ballots of some nodes.
pub open spec fn power_cast(votes: Map<u64, BallotModel>, ids: Seq<u64>) -> nat
    decreases ids.len(),
{
    if ids.len() == 0 {
        0
    } else {
        power_cast(votes, ids.drop_last()) + votes[ids.last()].power as nat
    }
}

/// How many validators among some have made a choice.
pub open spec fn validators_for(
    votes: Map<u64, ValidatorBallotModel>,
    ids: Seq<u64>,
    choice: GovernanceVoteChoice,
) -> nat
    decreases ids.len(),
{
    if ids.len() == 0 {
        0
    } else {
        validators_for(votes, ids.drop_last(), choice) + if votes[ids.last()].choice == choice {
            1nat
        } else {
            0nat
        }
    }
}

/// How many validators have to approve a payment out of the treasury: two thirds, rounded up.
pub open spec fn validator_quorum_of(count: nat) -> nat {
    (2 * count + 2) / 3
}

pub fn governance_validator_quorum(validator_count: usize) -> (r: usize)
    ensures
        r == validator_quorum_of(validator_count as nat),
{
    ((2 * (validator_count as u128) + 2) / 3) as usize
}

/// The votes on a proposal, counted.
pub open spec fn tally_of(proposal: ProposalModel) -> GovernanceTallyView {
    let ids = ordered::<u64>(proposal.votes.dom());
    let seats = ordered::<u64>(proposal.validator_votes.dom());
    let vetoes = ordered::<u64>(proposal.timelock_vetoes.dom());
    let yes = clamped_u128(power_for(proposal.votes, ids, GovernanceVoteChoice::Yes) as int);
    let no = clamped_u128(power_for(proposal.votes, ids, GovernanceVoteChoice::No) as int);
    let abstain = clamped_u128(
        power_for(proposal.votes, ids, GovernanceVoteChoice::Abstain) as int,
    );
    GovernanceTallyView {
        proposal_id: proposal.proposal_id,
        status: proposal.status,
        total_power: proposal.total_power,
        yes_power: yes,
        no_power: no,
        abstain_power: abstain,
        participation_power: clamped_u128(yes + no + abstain),
        validator_total: proposal.validator_snapshot.len() as usize,
        validator_yes: validators_for(
            proposal.validator_votes,
            seats,
            GovernanceVoteChoice::Yes,
        ) as usize,
        validator_no: validators_for(
            proposal.validator_votes,
            seats,
            GovernanceVoteChoice::No,
        ) as usize,
        validator_abstain: validators_for(
            proposal.validator_votes,
            seats,
            GovernanceVoteChoice::Abstain,
        ) as usize,
        validator_quorum: validator_quorum_of(proposal.validator_snapshot.len()) as usize,
        timelock_veto_power: clamped_u128(power_cast(proposal.timelock_vetoes, vetoes) as int),
        voting_ends_at: proposal.voting_ends_at,
        execute_after: proposal.execute_after,
    }
}

fn count_power(votes: &Table<u64, GovernanceVoteRecord>, choice: GovernanceVoteChoice) -> (r: u128)
    ensures
        r == clamped_u128(power_for(votes@, votes.keys(), choice) as int),
{
    let ghost ids = votes.keys();
    let mut sum: u128 = 0;
    let mut i: usize = 0;
    assert(ids.take(0) =~= Seq::empty());
    while i < votes.len()
        invariant
            i <= ids.len(),
            ids == votes.keys(),
            sum == clamped_u128(power_for(votes@, ids.take(i as int), choice) as int),
        decreases ids.len() - i,
    {
        assert(ids.take(i as int + 1).drop_last() =~= ids.take(i as int));
        let vote = votes.value_at(i);
        if vote.choice == choice {
            sum = sum.saturating_add(vote.power);
        }
        i = i + 1;
    }
    assert(ids.take(ids.len() as int) =~= ids);
    sum
}

/// Adds up the power of some ballots.
pub fn sum_power(votes: &Table<u64, GovernanceVoteRecord>) -> (r: u128)
    ensures
        r == clamped_u128(power_cast(votes@, votes.keys()) as int),
{
    let ghost ids = votes.keys();
    let mut sum: u128 = 0;
    let mut i: usize = 0;
    assert(ids.take(0) =~= Seq::empty());
    while i < votes.len()
        invariant
            i <= ids.len(),
            ids == votes.keys(),
            sum == clamped_u128(power_cast(votes@, ids.take(i as int)) as int),
        decreases ids.len() - i,
    {
        assert(ids.take(i as int + 1).drop_last() =~= ids.take(i as int));
        sum = sum.saturating_add(votes.value_at(i).power);
        i = i + 1;
    }
    assert(ids.take(ids.len() as int) =~= ids);
    sum
}

fn count_validators(
    votes: &Table<u64, GovernanceValidatorVoteRecord>,
    choice: GovernanceVoteChoice,
) -> (r: usize)
    ensures
        r == validators_for(votes@, votes.keys(), choice),
{
    let ghost ids = votes.keys();
    let mut count: usize = 0;
    let mut i: usize = 0;
    assert(ids.take(0) =~= Seq::empty());
    while i < votes.len()
        invariant
            i <= ids.len(),
            ids == votes.keys(),
            count <= i,
            count == validators_for(votes@, ids.take(i as int), choice),
        decreases ids.len() - i,
    {
        assert(ids.take(i as int + 1).drop_last() =~= ids.take(i as int));
        if votes.value_at(i).choice == choice {
            count = count + 1;
        }
        i = i + 1;
    }
    assert(ids.take(ids.len() as int) =~= ids);
    count
}

/// Counts the votes on a proposal.
pub fn governance_tally(proposal: &GovernanceProposalRecord) -> (r: GovernanceTallyView)
    ensures
        r == tally_of(proposal.deep_view()),
{
    let yes = count_power(&proposal.votes, GovernanceVoteChoice::Yes);
    let no = count_power(&proposal.votes, GovernanceVoteChoice::No);
    let abstain = count_power(&proposal.votes, GovernanceVoteChoice::Abstain);
    GovernanceTallyView {
        proposal_id: proposal.proposal_id,
        status: proposal.status,
        total_power: proposal.total_power,
        yes_power: yes,
        no_power: no,
        abstain_power: abstain,
        participation_power: yes.saturating_add(no).saturating_add(abstain),
        validator_total: proposal.validator_snapshot.len(),
        validator_yes: count_validators(&proposal.validator_votes, GovernanceVoteChoice::Yes),
        validator_no: count_validators(&proposal.validator_votes, GovernanceVoteChoice::No),
        validator_abstain: count_validators(
            &proposal.validator_votes,
            GovernanceVoteChoice::Abstain,
        ),
        validator_quorum: governance_validator_quorum(proposal.validator_snapshot.len()),
        timelock_veto_power: sum_power(&proposal.timelock_vetoes),
        voting_ends_at: proposal.voting_ends_at,
        execute_after: proposal.execute_after,
    }
}

/// Whether a proposal has passed. A standard one needs half of all power to take part, two thirds
/// of yes and no to be yes, and more than half of all power to be yes. A critical one needs two
/// thirds of all power, and to spend from the treasury the validators besides.
pub open spec fn tally_passes(proposal: ProposalModel, tally: GovernanceTallyView) -> bool {
    match proposal.kind {
        GovernanceProposalKind::Standard => {
            &&& clamped_u128(tally.participation_power * 2) >= proposal.total_power
            &&& clamped_u128(tally.yes_power * 3) >= clamped_u128(
                clamped_u128(tally.yes_power + tally.no_power) * 2,
            )
            &&& clamped_u128(tally.yes_power * 2) > proposal.total_power
        },
        GovernanceProposalKind::Critical => {
            &&& clamped_u128(tally.yes_power * 3) >= clamped_u128(proposal.total_power * 2)
            &&& proposal.action is TreasurySpend ==> tally.validator_total >= MIN_ACTIVE_VALIDATORS
                && tally.validator_yes >= tally.validator_quorum
        },
    }
}

/// Tells whether a proposal has passed.
pub fn governance_tally_passed(
    proposal: &GovernanceProposalRecord,
    tally: &GovernanceTallyView,
) -> (r: bool)
    ensures
        r == tally_passes(proposal.deep_view(), *tally),
{
    match proposal.kind {
        GovernanceProposalKind::Standard => saturating_mul_u128(tally.participation_power, 2)
            >= proposal.total_power && saturating_mul_u128(tally.yes_power, 3)
            >= saturating_mul_u128(tally.yes_power.saturating_add(tally.no_power), 2)
            && saturating_mul_u128(tally.yes_power, 2) > proposal.total_power,
        GovernanceProposalKind::Critical => {
            let approved = saturating_mul_u128(tally.yes_power, 3) >= saturating_mul_u128(
                proposal.total_power,
                2,
            );
            match &proposal.action {
                GovernanceProposalAction::TreasurySpend { recipient: _, amount: _, reference_hash: _ } => {
                    approved && tally.validator_total >= MIN_ACTIVE_VALIDATORS
                        && tally.validator_yes >= tally.validator_quorum
                },
                _ => approved,
            }
        },
    }
}

/// A standard proposal passes only with the yes of more than half of all power.
pub proof fn standard_needs_absolute_majority(proposal: ProposalModel, tally: GovernanceTallyView)
    requires
        proposal.kind == GovernanceProposalKind::Standard,
        tally_passes(proposal, tally),
    ensures
        2 * tally.yes_power > proposal.total_power,
        2 * tally.participation_power >= proposal.total_power,
{
}

/// A critical proposal passes only with the yes of two thirds of all power.
pub proof fn critical_needs_two_thirds(proposal: ProposalModel, tally: GovernanceTallyView)
    requires
        proposal.kind == GovernanceProposalKind::Critical,
        tally_passes(proposal, tally),
        2 * proposal.total_power <= u128::MAX,
    ensures
        3 * tally.yes_power >= 2 * proposal.total_power,
{
}

proof fn power_of_one_more(
    votes: Map<u64, BallotModel>,
    ids: Seq<u64>,
    at: int,
    voter: u64,
    ballot: BallotModel,
    choice: GovernanceVoteChoice,
)
    requires
        !ids.contains(voter),
        0 <= at <= ids.len(),
    ensures
        power_for(votes.insert(voter, ballot), ids.insert(at, voter), choice) == power_for(
            votes,
            ids,
            choice,
        ) + if ballot.choice == choice {
            ballot.power as nat
        } else {
            0
        },
        power_cast(votes.insert(voter, ballot), ids.insert(at, voter)) == power_cast(votes, ids)
            + ballot.power,
    decreases ids.len(),
{
    let more = votes.insert(voter, ballot);
    let all = ids.insert(at, voter);
    if at == ids.len() {
        assert(all.drop_last() =~= ids);
        other_ballots_stay(votes, ids, voter, ballot, choice);
    } else {
        let rest = ids.drop_last();
        assert(ids[ids.len() - 1] == ids.last());
        assert(ids.contains(ids.last()));
        assert(!rest.contains(voter)) by {
            if rest.contains(voter) {
                let j = choose|j: int| 0 <= j < rest.len() && rest[j] == voter;
                assert(ids[j] == voter);
            }
        }
        assert(all.drop_last() =~= rest.insert(at, voter));
        assert(all.last() == ids.last());
        power_of_one_more(votes, rest, at, voter, ballot, choice);
    }
}

proof fn other_ballots_stay(
    votes: Map<u64, BallotModel>,
    ids: Seq<u64>,
    voter: u64,
    ballot: BallotModel,
    choice: GovernanceVoteChoice,
)
    requires
        !ids.contains(voter),
    ensures
        power_for(votes.insert(voter, ballot), ids, choice) == power_for(votes, ids, choice),
        power_cast(votes.insert(voter, ballot), ids) == power_cast(votes, ids),
    decreases ids.len(),
{
    if ids.len() > 0 {
        let rest = ids.drop_last();
        assert(ids[ids.len() - 1] != voter);
        assert(!rest.contains(voter)) by {
            if rest.contains(voter) {
                let j = choose|j: int| 0 <= j < rest.len() && rest[j] == voter;
                assert(ids[j] == voter);
            }
        }
        other_ballots_stay(votes, rest, voter, ballot, choice);
    }
}

proof fn validators_of_one_more(
    votes: Map<u64, ValidatorBallotModel>,
    ids: Seq<u64>,
    at: int,
    voter: u64,
    ballot: ValidatorBallotModel,
    choice: GovernanceVoteChoice,
)
    requires
        !ids.contains(voter),
        0 <= at <= ids.len(),
    ensures
        validators_for(votes.insert(voter, ballot), ids.insert(at, voter), choice)
            == validators_for(votes, ids, choice) + if ballot.choice == choice {
            1nat
        } else {
            0nat
        },
    decreases ids.len(),
{
    let more = votes.insert(voter, ballot);
    let all = ids.insert(at, voter);
    if at == ids.len() {
        assert(all.drop_last() =~= ids);
        other_validators_stay(votes, ids, voter, ballot, choice);
    } else {
        let rest = ids.drop_last();
        assert(ids[ids.len() - 1] == ids.last());
        assert(ids.contains(ids.last()));
        assert(!rest.contains(voter)) by {
            if rest.contains(voter) {
                let j = choose|j: int| 0 <= j < rest.len() && rest[j] == voter;
                assert(ids[j] == voter);
            }
        }
        assert(all.drop_last() =~= rest.insert(at, voter));
        assert(all.last() == ids.last());
        validators_of_one_more(votes, rest, at, voter, ballot, choice);
    }
}

proof fn other_validators_stay(
    votes: Map<u64, ValidatorBallotModel>,
    ids: Seq<u64>,
    voter: u64,
    ballot: ValidatorBallotModel,
    choice: GovernanceVoteChoice,
)
    requires
        !ids.contains(voter),
    ensures
        validators_for(votes.insert(voter, ballot), ids, choice) == validators_for(
            votes,
            ids,
            choice,
        ),
    decreases ids.len(),
{
    if ids.len() > 0 {
        let rest = ids.drop_last();
        assert(ids[ids.len() - 1] != voter);
        assert(!rest.contains(voter)) by {
            if rest.contains(voter) {
                let j = choose|j: int| 0 <= j < rest.len() && rest[j] == voter;
                assert(ids[j] == voter);
            }
        }
        other_validators_stay(votes, rest, voter, ballot, choice);
    }
}

/// A count without ballots finds nothing for any choice.
pub proof fn nothing_is_counted_without_ballots(proposal: ProposalModel)
    requires
        proposal.votes == Map::<u64, BallotModel>::empty(),
        proposal.validator_votes == Map::<u64, ValidatorBallotModel>::empty(),
        proposal.timelock_vetoes == Map::<u64, BallotModel>::empty(),
    ensures
        ({
            let tally = tally_of(proposal);
            &&& tally.yes_power == 0 && tally.no_power == 0 && tally.abstain_power == 0
            &&& tally.participation_power == 0
            &&& tally.validator_yes == 0 && tally.validator_no == 0 && tally.validator_abstain == 0
            &&& tally.timelock_veto_power == 0
        }),
{
    ordered_lists_all::<u64>(proposal.votes.dom());
    ordered_lists_all::<u64>(proposal.validator_votes.dom());
    ordered_lists_all::<u64>(proposal.timelock_vetoes.dom());
}

/// A count says what the proposal says of itself, and all who take part have made one of the three
/// choices. Two thirds of the validators make their quorum, and nobody less.
pub proof fn counts_are_of_their_proposal(proposal: ProposalModel)
    requires
        proposal.validator_snapshot.len() <= usize::MAX / 2,
    ensures
        ({
            let tally = tally_of(proposal);
            &&& tally.proposal_id == proposal.proposal_id
            &&& tally.status == proposal.status
            &&& tally.total_power == proposal.total_power
            &&& tally.voting_ends_at == proposal.voting_ends_at
            &&& tally.execute_after == proposal.execute_after
            &&& tally.validator_total == proposal.validator_snapshot.len()
            &&& 3 * tally.validator_quorum >= 2 * tally.validator_total
            &&& 3 * (tally.validator_quorum - 1) < 2 * tally.validator_total
            &&& tally.yes_power + tally.no_power + tally.abstain_power <= u128::MAX
                ==> tally.participation_power == tally.yes_power + tally.no_power
                + tally.abstain_power
        }),
{
}

/// One more ballot adds its power to the choice that it makes, and to no other. All else of the
/// count stays as it was.
pub proof fn ballots_count_for_their_choice(
    proposal: ProposalModel,
    voter: u64,
    ballot: BallotModel,
)
    requires
        proposal.votes.dom().finite(),
        !proposal.votes.contains_key(voter),
        tally_of(proposal).participation_power + ballot.power < u128::MAX,
    ensures
        ({
            let before = tally_of(proposal);
            let after = tally_of(
                ProposalModel { votes: proposal.votes.insert(voter, ballot), ..proposal },
            );
            let power = ballot.power;
            &&& after.yes_power == before.yes_power + if ballot.choice
                == GovernanceVoteChoice::Yes {
                power as int
            } else {
                0
            }
            &&& after.no_power == before.no_power + if ballot.choice == GovernanceVoteChoice::No {
                power as int
            } else {
                0
            }
            &&& after.abstain_power == before.abstain_power + if ballot.choice
                == GovernanceVoteChoice::Abstain {
                power as int
            } else {
                0
            }
            &&& after.participation_power == before.participation_power + power
            &&& after.validator_yes == before.validator_yes
            &&& after.validator_no == before.validator_no
            &&& after.validator_abstain == before.validator_abstain
            &&& after.timelock_veto_power == before.timelock_veto_power
        }),
{
    let dom = proposal.votes.dom();
    ordered_lists_all::<u64>(dom);
    let at = ordered_takes_in::<u64>(dom, voter);
    let ids = ordered::<u64>(dom);
    assert(!ids.contains(voter)) by {
        assert(!dom.contains(voter));
    }
    assert(proposal.votes.insert(voter, ballot).dom() =~= dom.insert(voter));
    power_of_one_more(proposal.votes, ids, at, voter, ballot, GovernanceVoteChoice::Yes);
    power_of_one_more(proposal.votes, ids, at, voter, ballot, GovernanceVoteChoice::No);
    power_of_one_more(proposal.votes, ids, at, voter, ballot, GovernanceVoteChoice::Abstain);
}

/// One more ballot of a validator adds one to the choice that it makes, and to no other.
pub proof fn validators_count_for_their_choice(
    proposal: ProposalModel,
    voter: u64,
    ballot: ValidatorBallotModel,
)
    requires
        proposal.validator_votes.dom().finite(),
        proposal.validator_votes.dom().len() < usize::MAX,
        !proposal.validator_votes.contains_key(voter),
    ensures
        ({
            let before = tally_of(proposal);
            let after = tally_of(
                ProposalModel {
                    validator_votes: proposal.validator_votes.insert(voter, ballot),
                    ..proposal
                },
            );
            &&& after.validator_yes == before.validator_yes + if ballot.choice
                == GovernanceVoteChoice::Yes {
                1int
            } else {
                0
            }
            &&& after.validator_no == before.validator_no + if ballot.choice
                == GovernanceVoteChoice::No {
                1int
            } else {
                0
            }
            &&& after.validator_abstain == before.validator_abstain + if ballot.choice
                == GovernanceVoteChoice::Abstain {
                1int
            } else {
                0
            }
            &&& after.yes_power == before.yes_power
            &&& after.no_power == before.no_power
            &&& after.abstain_power == before.abstain_power
            &&& after.timelock_veto_power == before.timelock_veto_power
        }),
{
    let dom = proposal.validator_votes.dom();
    ordered_lists_all::<u64>(dom);
    let at = ordered_takes_in::<u64>(dom, voter);
    let ids = ordered::<u64>(dom);
    assert(!ids.contains(voter)) by {
        assert(!dom.contains(voter));
    }
    assert(proposal.validator_votes.insert(voter, ballot).dom() =~= dom.insert(voter));
    let votes = proposal.validator_votes;
    validators_of_one_more(votes, ids, at, voter, ballot, GovernanceVoteChoice::Yes);
    validators_of_one_more(votes, ids, at, voter, ballot, GovernanceVoteChoice::No);
    validators_of_one_more(votes, ids, at, voter, ballot, GovernanceVoteChoice::Abstain);
    validators_are_at_most(votes, ids, GovernanceVoteChoice::Yes);
    validators_are_at_most(votes, ids, GovernanceVoteChoice::No);
    validators_are_at_most(votes, ids, GovernanceVoteChoice::Abstain);
}

proof fn validators_are_at_most(
    votes: Map<u64, ValidatorBallotModel>,
    ids: Seq<u64>,
    choice: GovernanceVoteChoice,
)
    ensures
        validators_for(votes, ids, choice) <= ids.len(),
    decreases ids.len(),
{
    if ids.len() > 0 {
        validators_are_at_most(votes, ids.drop_last(), choice);
    }
}

/// One more veto adds its power to the vetoes and changes nothing else of the count.
pub proof fn vetoes_add_their_power(proposal: ProposalModel, voter: u64, ballot: BallotModel)
    requires
        proposal.timelock_vetoes.dom().finite(),
        !proposal.timelock_vetoes.contains_key(voter),
        tally_of(proposal).timelock_veto_power + ballot.power < u128::MAX,
    ensures
        ({
            let before = tally_of(proposal);
            let after = tally_of(
                ProposalModel {
                    timelock_vetoes: proposal.timelock_vetoes.insert(voter, ballot),
                    ..proposal
                },
            );
            &&& after.timelock_veto_power == before.timelock_veto_power + ballot.power
            &&& after.yes_power == before.yes_power
            &&& after.no_power == before.no_power
            &&& after.abstain_power == before.abstain_power
            &&& after.participation_power == before.participation_power
        }),
{
    let dom = proposal.timelock_vetoes.dom();
    ordered_lists_all::<u64>(dom);
    let at = ordered_takes_in::<u64>(dom, voter);
    let ids = ordered::<u64>(dom);
    assert(!ids.contains(voter)) by {
        assert(!dom.contains(voter));
    }
    assert(proposal.timelock_vetoes.insert(voter, ballot).dom() =~= dom.insert(voter));
    power_of_one_more(
        proposal.timelock_vetoes,
        ids,
        at,
        voter,
        ballot,
        GovernanceVoteChoice::Yes,
    );
}

/// A further ballot that does not say yes never lets a proposal pass that would have failed without
/// it, and a further yes never makes one fail that would have passed.
pub proof fn only_a_yes_helps_a_proposal(
    proposal: ProposalModel,
    voter: u64,
    ballot: BallotModel,
)
    requires
        proposal.votes.dom().finite(),
        !proposal.votes.contains_key(voter),
        3 * (tally_of(proposal).participation_power + ballot.power) < u128::MAX,
        2 * proposal.total_power <= u128::MAX,
    ensures
        ({
            let more = ProposalModel { votes: proposal.votes.insert(voter, ballot), ..proposal };
            let before = tally_passes(proposal, tally_of(proposal));
            let after = tally_passes(more, tally_of(more));
            &&& ballot.choice != GovernanceVoteChoice::Yes && after ==> before
            &&& ballot.choice == GovernanceVoteChoice::Yes && before ==> after
        }),
{
    ballots_count_for_their_choice(proposal, voter, ballot);
}

/// A proposal passes exactly if enough say yes: of a standard one more than half of all power and
/// two thirds of those who do not abstain; of a critical one two thirds of all power, and where it
/// spends from the treasury, at least the smallest committee and its quorum of validators.
pub proof fn proposals_pass_by_their_majority(proposal: ProposalModel)
    requires
        3 * tally_of(proposal).participation_power <= u128::MAX,
        2 * proposal.total_power <= u128::MAX,
        proposal.validator_snapshot.len() <= usize::MAX / 2,
    ensures
        ({
            let tally = tally_of(proposal);
            tally_passes(proposal, tally) <==> match proposal.kind {
                GovernanceProposalKind::Standard => {
                    &&& 2 * tally.yes_power > proposal.total_power
                    &&& tally.yes_power >= 2 * tally.no_power
                },
                GovernanceProposalKind::Critical => {
                    &&& 3 * tally.yes_power >= 2 * proposal.total_power
                    &&& proposal.action is TreasurySpend ==> {
                        &&& proposal.validator_snapshot.len() >= MIN_ACTIVE_VALIDATORS
                        &&& 3 * tally.validator_yes >= 2 * proposal.validator_snapshot.len()
                    }
                },
            }
        }),
{
}

/// How many nodes have to be eligible for a kind of proposal.
pub open spec fn threshold_of(kind: GovernanceProposalKind) -> usize {
    match kind {
        GovernanceProposalKind::Standard => GOVERNANCE_NODE_THRESHOLD,
        GovernanceProposalKind::Critical => CRITICAL_GOVERNANCE_NODE_THRESHOLD,
    }
}

pub fn governance_proposal_node_threshold(kind: &GovernanceProposalKind) -> (r: usize)
    ensures
        r == threshold_of(*kind),
{
    match kind {
        GovernanceProposalKind::Standard => GOVERNANCE_NODE_THRESHOLD,
        GovernanceProposalKind::Critical => CRITICAL_GOVERNANCE_NODE_THRESHOLD,
    }
}

/// Whether enough nodes are eligible for proposals at all.
pub open spec fn distributed_mode_checked(ledger: LedgerModel, now: i64) -> Outcome<()> {
    let count = eligible_ids(ledger, now).len();
    if count < GOVERNANCE_NODE_THRESHOLD {
        Err(
            "distributed governance requires at least "@ + decimal(GOVERNANCE_NODE_THRESHOLD as nat)
                + " Governance-Eligible Nodes; current count is "@ + decimal(count),
        )
    } else {
        Ok(())
    }
}

pub fn ensure_distributed_governance_mode(ledger: &LedgerState, now: i64) -> (r: Result<()>)
    ensures
        outcome(r) == distributed_mode_checked(ledger@, now),
{
    let count: usize = governance_eligible_node_ids(ledger, now).len();
    if count < GOVERNANCE_NODE_THRESHOLD {
        return Err(
            Error::owned(
                crate::text::join4(
                    "distributed governance requires at least ",
                    usize_text(GOVERNANCE_NODE_THRESHOLD).as_str(),
                    " Governance-Eligible Nodes; current count is ",
                    usize_text(count).as_str(),
                ),
            ),
        );
    }
    Ok(())
}

/// How a kind of proposal is written.
pub open spec fn kind_text(kind: GovernanceProposalKind) -> Seq<char> {
    match kind {
        GovernanceProposalKind::Standard => "STANDARD"@,
        GovernanceProposalKind::Critical => "CRITICAL"@,
    }
}

/// Whether enough nodes are eligible for a kind of proposal.
pub open spec fn threshold_checked(
    ledger: LedgerModel,
    kind: GovernanceProposalKind,
    now: i64,
) -> Outcome<()> {
    let count = eligible_ids(ledger, now).len();
    if count < threshold_of(kind) {
        Err(
            kind_text(kind) + " governance requires at least "@ + decimal(threshold_of(kind) as nat)
                + " Governance-Eligible Nodes; current count is "@ + decimal(count),
        )
    } else {
        Ok(())
    }
}

pub fn ensure_governance_proposal_node_threshold(
    ledger: &LedgerState,
    kind: &GovernanceProposalKind,
    now: i64,
) -> (r: Result<()>)
    ensures
        outcome(r) == threshold_checked(ledger@, *kind, now),
{
    let count: usize = governance_eligible_node_ids(ledger, now).len();
    let threshold: usize = governance_proposal_node_threshold(kind);
    if count < threshold {
        let name: &'static str = match kind {
            GovernanceProposalKind::Standard => "STANDARD",
            GovernanceProposalKind::Critical => "CRITICAL",
        };
        return Err(
            Error::owned(
                crate::text::join5(
                    name,
                    " governance requires at least ",
                    usize_text(threshold).as_str(),
                    " Governance-Eligible Nodes; current count is ",
                    usize_text(count).as_str(),
                ),
            ),
        );
    }
    Ok(())
}

/// The power that a node's time in service gives before the cap: one for a day, up to 180.
pub open spec fn age_power(seconds: u64) -> u128 {
    let days = seconds / 86_400;
    if days < 1 {
        1
    } else if days > 180 {
        180
    } else {
        days as u128
    }
}

/// The power of some nodes before the cap.
pub open spec fn raw_powers(ledger: LedgerModel, ids: Seq<u64>) -> Map<u64, u128> {
    Map::new(
        |id: u64| ids.contains(id),
        |id: u64| age_power(ledger.nodes[id].total_eligible_seconds),
    )
}

/// The power of some nodes with a cap on each.
pub open spec fn capped_total(raw: Map<u64, u128>, ids: Seq<u64>, cap: nat) -> nat
    decreases ids.len(),
{
    if ids.len() == 0 {
        0
    } else {
        capped_total(raw, ids.drop_last(), cap) + least(raw[ids.last()] as int, cap as int) as nat
    }
}

/// The largest share of all power that one node may have, in basis points: one percent, or an equal
/// share where there are fewer than a hundred nodes.
pub open spec fn share_limit(count: nat) -> nat {
    let equal = (10_000 + count - 1) as nat / count;
    if equal > 100 {
        equal
    } else {
        100
    }
}

/// Whether a cap keeps the share of a node within the limit.
pub open spec fn cap_fits(raw: Map<u64, u128>, cap: nat) -> bool {
    capped_total(raw, ordered::<u64>(raw.dom()), cap) * share_limit(raw.len()) >= cap * 10_000
}

/// The largest power that the cap may be.
pub open spec fn largest_power(raw: Map<u64, u128>, ids: Seq<u64>) -> nat
    decreases ids.len(),
{
    if ids.len() == 0 {
        0
    } else {
        crate::number::greatest(
            largest_power(raw, ids.drop_last()) as int,
            raw[ids.last()] as int,
        ) as nat
    }
}

/// Whether a cap is the largest that keeps the share of a node within the limit.
pub open spec fn is_cap(raw: Map<u64, u128>, cap: nat) -> bool {
    let most = largest_power(raw, ordered::<u64>(raw.dom()));
    &&& 1 <= cap <= most
    &&& cap == 1 || cap_fits(raw, cap)
    &&& forall|higher: nat| cap < higher <= most ==> !#[trigger] cap_fits(raw, higher)
}

pub open spec fn power_cap(raw: Map<u64, u128>) -> nat {
    choose|cap: nat| is_cap(raw, cap)
}

/// The power of some nodes in governance.
pub open spec fn powers_of(ledger: LedgerModel, ids: Seq<u64>) -> Map<u64, u128> {
    let raw = raw_powers(ledger, ids);
    raw.map_values(|power: u128| least(power as int, power_cap(raw) as int) as u128)
}

proof fn cap_is_unique(raw: Map<u64, u128>, first: nat, second: nat)
    requires
        is_cap(raw, first),
        is_cap(raw, second),
    ensures
        first == second,
{
    if first < second {
        assert(!cap_fits(raw, second));
    } else if second < first {
        assert(!cap_fits(raw, first));
    }
}

proof fn total_is_concave(raw: Map<u64, u128>, ids: Seq<u64>, low: nat, high: nat)
    requires
        low <= high,
    ensures
        capped_total(raw, ids, high) * low <= capped_total(raw, ids, low) * high,
    decreases ids.len(),
{
    if ids.len() > 0 {
        let rest = ids.drop_last();
        total_is_concave(raw, rest, low, high);
        let power = raw[ids.last()] as int;
        let at_high = least(power, high as int);
        let at_low = least(power, low as int);
        assert(at_high * low <= at_low * high) by (nonlinear_arith)
            requires
                0 <= low <= high,
                power >= 0,
                at_high == (if power <= high {
                    power
                } else {
                    high as int
                }),
                at_low == (if power <= low {
                    power
                } else {
                    low as int
                }),
        ;
        assert((capped_total(raw, rest, high) + at_high) * low == capped_total(raw, rest, high)
            * low + at_high * low) by (nonlinear_arith);
        assert((capped_total(raw, rest, low) + at_low) * high == capped_total(raw, rest, low) * high
            + at_low * high) by (nonlinear_arith);
    } else {
        assert(0 * low == 0 && 0 * high == 0) by (nonlinear_arith);
    }
}

/// A cap that is too high makes every higher cap too high.
proof fn misfit_stays(raw: Map<u64, u128>, cap: nat, higher: nat)
    requires
        1 <= cap <= higher,
        !cap_fits(raw, cap),
    ensures
        !cap_fits(raw, higher),
{
    let ids = ordered::<u64>(raw.dom());
    total_is_concave(raw, ids, cap, higher);
    let at_cap = capped_total(raw, ids, cap) as int;
    let at_higher = capped_total(raw, ids, higher) as int;
    let share = share_limit(raw.len()) as int;
    if cap_fits(raw, higher) {
        assert(at_higher * share * cap >= higher * 10_000 * cap) by (nonlinear_arith)
            requires
                at_higher * share >= higher * 10_000,
                cap >= 0,
        ;
        assert(at_higher * cap * share <= at_cap * higher * share) by (nonlinear_arith)
            requires
                at_higher * cap <= at_cap * higher,
                share >= 0,
        ;
        assert(at_higher * share * cap == at_higher * cap * share) by (nonlinear_arith);
        assert(at_cap * higher * share == (at_cap * share) * higher) by (nonlinear_arith);
        assert((at_cap * share) * higher < (cap * 10_000) * higher) by (nonlinear_arith)
            requires
                at_cap * share < cap * 10_000,
                higher >= 1,
        ;
        assert((cap * 10_000) * higher == higher * 10_000 * cap) by (nonlinear_arith);
    }
}

fn sum_capped(raw: &Table<u64, u128>, cap: u128) -> (r: u128)
    requires
        forall|id: u64| #[trigger] raw@.contains_key(id) ==> raw@[id] <= 180,
    ensures
        r == capped_total(raw@, raw.keys(), cap as nat),
        r <= 180 * raw.keys().len(),
{
    let ghost ids = raw.keys();
    let count: usize = raw.len();
    let mut sum: u128 = 0;
    let mut i: usize = 0;
    assert(ids.take(0) =~= Seq::empty());
    while i < count
        invariant
            i <= count,
            count == ids.len(),
            ids == raw.keys(),
            forall|id: u64| #[trigger] raw@.contains_key(id) ==> raw@[id] <= 180,
            sum == capped_total(raw@, ids.take(i as int), cap as nat),
            sum <= 180 * i,
        decreases ids.len() - i,
    {
        assert(ids.take(i as int + 1).drop_last() =~= ids.take(i as int));
        let power: u128 = *raw.value_at(i);
        sum = sum + if power <= cap {
            power
        } else {
            cap
        };
        i = i + 1;
    }
    assert(ids.take(ids.len() as int) =~= ids);
    sum
}

fn find_cap(raw: &Table<u64, u128>) -> (r: u128)
    requires
        raw@.len() > 0,
        forall|id: u64| #[trigger] raw@.contains_key(id) ==> 1 <= raw@[id] <= 180,
    ensures
        is_cap(raw@, r as nat),
        1 <= r <= 180,
{
    let ghost ids = raw.keys();
    let mut most: u128 = 0;
    let mut i: usize = 0;
    assert(ids.take(0) =~= Seq::empty());
    while i < raw.len()
        invariant
            i <= ids.len(),
            ids == raw.keys(),
            forall|id: u64| #[trigger] raw@.contains_key(id) ==> 1 <= raw@[id] <= 180,
            most == largest_power(raw@, ids.take(i as int)),
            most <= 180,
            i > 0 ==> most >= 1,
        decreases ids.len() - i,
    {
        assert(ids.take(i as int + 1).drop_last() =~= ids.take(i as int));
        let power: u128 = *raw.value_at(i);
        if power > most {
            most = power;
        }
        i = i + 1;
    }
    assert(ids.take(ids.len() as int) =~= ids);
    let count: u128 = raw.len() as u128;
    let equal: u128 = (10_000 + count - 1) / count;
    let share: u128 = if equal > 100 {
        equal
    } else {
        100
    };
    assert(equal <= 10_000) by (nonlinear_arith)
        requires
            count >= 1,
            equal == (10_000 + count - 1) / (count as int),
    ;
    let mut low: u128 = 1;
    let mut high: u128 = most;
    while low < high
        invariant
            1 <= low <= high <= most <= 180,
            raw@.len() > 0,
            count == raw@.len(),
            count <= usize::MAX,
            share == share_limit(raw@.len()),
            share <= 10_000,
            ids == raw.keys(),
            ids.len() == raw@.len(),
            forall|id: u64| #[trigger] raw@.contains_key(id) ==> 1 <= raw@[id] <= 180,
            most == largest_power(raw@, ids),
            low == 1 || cap_fits(raw@, low as nat),
            forall|higher: nat| high < higher <= most ==> !#[trigger] cap_fits(raw@, higher),
        decreases high - low,
    {
        let middle: u128 = low + (high - low + 1) / 2;
        let total = sum_capped(raw, middle);
        assert(total * share <= 180 * usize::MAX * 10_000) by (nonlinear_arith)
            requires
                total <= 180 * usize::MAX,
                share <= 10_000,
        ;
        if total * share >= middle * 10_000 {
            low = middle;
        } else {
            proof {
                assert forall|higher: nat| middle - 1 < higher <= most implies !#[trigger] cap_fits(
                    raw@,
                    higher,
                ) by {
                    misfit_stays(raw@, middle as nat, higher);
                }
            }
            high = middle - 1;
        }
    }
    low
}

/// Computes the power of some nodes in governance. Only their time in service counts, and none has
/// more than the limit.
pub fn governance_power_snapshot_for_nodes(ledger: &LedgerState, node_ids: &Vec<u64>) -> (r: Result<
    Table<u64, u128>,
>)
    requires
        node_ids@.len() > 0,
        forall|i: int|
            0 <= i < node_ids@.len() ==> ledger@.nodes.contains_key(#[trigger] node_ids@[i]),
    ensures
        r matches Ok(powers) && powers@ == powers_of(ledger@, node_ids@),
{
    let mut raw: Table<u64, u128> = Table::new();
    let mut i: usize = 0;
    while i < node_ids.len()
        invariant
            i <= node_ids@.len(),
            forall|j: int|
                0 <= j < node_ids@.len() ==> ledger@.nodes.contains_key(#[trigger] node_ids@[j]),
            raw@ == raw_powers(ledger@, node_ids@.take(i as int)),
        decreases node_ids@.len() - i,
    {
        let node_id: u64 = node_ids[i];
        assert(ledger@.nodes.contains_key(node_ids@[i as int]));
        let seconds: u64 = match ledger.nodes.get(&node_id) {
            Some(node) => node.total_eligible_seconds,
            None => 0,
        };
        let days: u64 = seconds / 86_400;
        let power: u128 = if days < 1 {
            1
        } else if days > 180 {
            180
        } else {
            days as u128
        };
        raw.insert(node_id, power);
        proof {
            let taken = node_ids@.take(i as int);
            let next = node_ids@.take(i as int + 1);
            assert forall|id: u64| #[trigger] next.contains(id) <==> taken.contains(id) || id
                == node_id by {
                if taken.contains(id) {
                    let j = choose|j: int| 0 <= j < taken.len() && taken[j] == id;
                    assert(next[j] == id);
                }
                assert(next[i as int] == node_id);
                if next.contains(id) && id != node_id {
                    let j = choose|j: int| 0 <= j < next.len() && next[j] == id;
                    assert(taken[j] == id);
                }
            }
            assert(raw@ =~= raw_powers(ledger@, next));
        }
        i = i + 1;
    }
    assert(node_ids@.take(node_ids@.len() as int) =~= node_ids@);
    assert(raw@.contains_key(node_ids@[0]));
    let count: usize = raw.len();
    assert(raw@.len() > 0) by {
        if raw@.len() == 0 {
            assert(raw@.dom() =~= Set::<u64>::empty());
        }
    }
    let cap = find_cap(&raw);
    proof {
        cap_is_unique(raw@, cap as nat, power_cap(raw@));
    }
    let ghost first = raw@;
    let ghost keys = raw.keys();
    let mut k: usize = 0;
    while k < count
        invariant
            k <= count,
            count == keys.len(),
            keys == ordered::<u64>(first.dom()),
            keys.no_duplicates(),
            raw@.dom() == first.dom(),
            cap == power_cap(first),
            forall|j: int|
                0 <= j < count ==> first.contains_key(#[trigger] keys[j]) && raw@[keys[j]] == if j
                    < k {
                    least(first[keys[j]] as int, cap as int) as u128
                } else {
                    first[keys[j]]
                },
        decreases count - k,
    {
        let power = raw.value_at_mut(k);
        if *power > cap {
            *power = cap;
        }
        k = k + 1;
    }
    proof {
        let target = first.map_values(
            |power: u128| least(power as int, power_cap(first) as int) as u128,
        );
        assert forall|id: u64| #[trigger] first.contains_key(id) implies raw@[id] == target[id] by {
            assert(keys.contains(id));
            let j = choose|j: int| 0 <= j < keys.len() && keys[j] == id;
            assert(keys[j] == id);
        }
        assert(raw@ =~= target);
    }
    Ok(raw)
}

/// Whether a node has served long enough to decide on the treasury.
pub open spec fn is_mature(ledger: LedgerModel, node_id: u64) -> bool {
    ledger.nodes[node_id].total_eligible_seconds >= TREASURY_MATURE_SERVICE_SECONDS
}

/// The nodes that decide on the treasury.
pub open spec fn treasury_ids(ledger: LedgerModel, now: i64) -> Seq<u64> {
    eligible_ids(ledger, now).filter(|id: u64| is_mature(ledger, id))
}

proof fn eligible_exist(ledger: LedgerModel, now: i64)
    ensures
        forall|i: int|
            0 <= i < eligible_ids(ledger, now).len() ==> ledger.nodes.contains_key(
                #[trigger] eligible_ids(ledger, now)[i],
            ),
{
    let chosen = |id: u64| crate::nodes::governance_eligible(ledger, id, now);
    filtered_are_members(crate::nodes::node_ids(ledger), chosen);
    assert forall|i: int| 0 <= i < eligible_ids(ledger, now).len() implies ledger.nodes.contains_key(
        #[trigger] eligible_ids(ledger, now)[i],
    ) by {
        assert(chosen(crate::nodes::node_ids(ledger).filter(chosen)[i]));
    }
}

/// Lists the nodes that decide on the treasury.
pub fn treasury_governance_node_ids(ledger: &LedgerState, now: i64) -> (r: Vec<u64>)
    ensures
        r@ == treasury_ids(ledger@, now),
        forall|i: int| 0 <= i < r@.len() ==> ledger@.nodes.contains_key(#[trigger] r@[i]),
{
    let eligible = governance_eligible_node_ids(ledger, now);
    let ghost chosen = |id: u64| is_mature(ledger@, id);
    let mut ids: Vec<u64> = Vec::new();
    let mut i: usize = 0;
    proof {
        eligible_exist(ledger@, now);
        filter_ends(eligible@, chosen);
    }
    while i < eligible.len()
        invariant
            i <= eligible@.len(),
            eligible@ == eligible_ids(ledger@, now),
            forall|j: int|
                0 <= j < eligible@.len() ==> ledger@.nodes.contains_key(#[trigger] eligible@[j]),
            forall|j: int| 0 <= j < ids@.len() ==> ledger@.nodes.contains_key(#[trigger] ids@[j]),
            chosen == (|id: u64| is_mature(ledger@, id)),
            ids@ == eligible@.take(i as int).filter(chosen),
        decreases eligible@.len() - i,
    {
        proof {
            filter_step(eligible@, i as int, chosen);
        }
        assert(ledger@.nodes.contains_key(eligible@[i as int]));
        if let Some(node) = ledger.nodes.get(&eligible[i]) {
            if node.total_eligible_seconds >= TREASURY_MATURE_SERVICE_SECONDS {
                ids.push(eligible[i]);
            }
        }
        i = i + 1;
    }
    proof {
        filter_ends(eligible@, chosen);
    }
    ids
}

/// The power of all nodes that count in governance.
pub open spec fn governance_powers(ledger: LedgerModel, now: i64) -> Outcome<Map<u64, u128>> {
    if eligible_ids(ledger, now).len() < GOVERNANCE_NODE_THRESHOLD {
        Err("not enough Governance-Eligible Nodes for a snapshot"@)
    } else {
        Ok(powers_of(ledger, eligible_ids(ledger, now)))
    }
}

pub fn governance_power_snapshot(ledger: &LedgerState, now: i64) -> (r: Result<Table<u64, u128>>)
    ensures
        outcome(r) == governance_powers(ledger@, now),
{
    let eligible = governance_eligible_node_ids(ledger, now);
    if eligible.len() < GOVERNANCE_NODE_THRESHOLD {
        return Err(Error::msg("not enough Governance-Eligible Nodes for a snapshot"));
    }
    proof {
        eligible_exist(ledger@, now);
    }
    governance_power_snapshot_for_nodes(ledger, &eligible)
}

/// The power of the nodes that decide on the treasury.
pub open spec fn treasury_powers(ledger: LedgerModel, now: i64) -> Outcome<Map<u64, u128>> {
    let count = treasury_ids(ledger, now).len();
    if count < CRITICAL_GOVERNANCE_NODE_THRESHOLD {
        Err(
            "TreasurySpend requires at least "@ + decimal(CRITICAL_GOVERNANCE_NODE_THRESHOLD as nat)
                + " Governance-Eligible Nodes with 180 days of service; current count is "@
                + decimal(count),
        )
    } else {
        Ok(powers_of(ledger, treasury_ids(ledger, now)))
    }
}

pub fn treasury_governance_power_snapshot(ledger: &LedgerState, now: i64) -> (r: Result<
    Table<u64, u128>,
>)
    ensures
        outcome(r) == treasury_powers(ledger@, now),
{
    let mature = treasury_governance_node_ids(ledger, now);
    if mature.len() < CRITICAL_GOVERNANCE_NODE_THRESHOLD {
        return Err(
            Error::owned(
                crate::text::join4(
                    "TreasurySpend requires at least ",
                    usize_text(CRITICAL_GOVERNANCE_NODE_THRESHOLD).as_str(),
                    " Governance-Eligible Nodes with 180 days of service; current count is ",
                    usize_text(mature.len()).as_str(),
                ),
            ),
        );
    }
    governance_power_snapshot_for_nodes(ledger, &mature)
}

proof fn total_of_ones(raw: Map<u64, u128>, ids: Seq<u64>)
    requires
        forall|i: int| 0 <= i < ids.len() ==> raw[#[trigger] ids[i]] >= 1,
    ensures
        capped_total(raw, ids, 1) == ids.len(),
    decreases ids.len(),
{
    if ids.len() > 0 {
        let rest = ids.drop_last();
        assert forall|i: int| 0 <= i < rest.len() implies raw[#[trigger] rest[i]] >= 1 by {
            assert(rest[i] == ids[i]);
        }
        total_of_ones(raw, rest);
        assert(raw[ids[ids.len() - 1]] >= 1);
    }
}

proof fn largest_power_bounds(raw: Map<u64, u128>, ids: Seq<u64>)
    requires
        ids.len() > 0,
        forall|i: int| 0 <= i < ids.len() ==> raw[#[trigger] ids[i]] >= 1,
    ensures
        largest_power(raw, ids) >= 1,
{
    assert(raw[ids[ids.len() - 1]] >= 1);
}

proof fn cap_found(raw: Map<u64, u128>, most: nat, cap: nat)
    requires
        1 <= cap <= most,
        most == largest_power(raw, ordered::<u64>(raw.dom())),
        forall|higher: nat| cap < higher <= most ==> !#[trigger] cap_fits(raw, higher),
    ensures
        exists|found: nat| is_cap(raw, found),
    decreases cap,
{
    if cap == 1 || cap_fits(raw, cap) {
        assert(is_cap(raw, cap));
    } else {
        assert forall|higher: nat| cap - 1 < higher <= most implies !#[trigger] cap_fits(
            raw,
            higher,
        ) by {}
        cap_found(raw, most, (cap - 1) as nat);
    }
}

/// No node has more than one percent of all power, or more than an equal share where there are
/// fewer than a hundred nodes.
pub proof fn power_share_is_capped(ledger: LedgerModel, ids: Seq<u64>, node_id: u64)
    requires
        ids.contains(node_id),
    ensures
        ({
            let powers = powers_of(ledger, ids);
            let raw = raw_powers(ledger, ids);
            &&& powers.contains_key(node_id)
            &&& 1 <= powers[node_id] <= age_power(ledger.nodes[node_id].total_eligible_seconds)
            &&& powers[node_id] * 10_000 <= capped_total(
                raw,
                ordered::<u64>(raw.dom()),
                power_cap(raw),
            ) * share_limit(raw.len())
        }),
{
    let raw = raw_powers(ledger, ids);
    assert(raw.dom() =~= ids.to_set());
    vstd::seq_lib::seq_to_set_is_finite(ids);
    ordered_lists_all::<u64>(raw.dom());
    let keys = ordered::<u64>(raw.dom());
    assert(raw.contains_key(node_id));
    assert(keys.contains(node_id));
    assert forall|i: int| 0 <= i < keys.len() implies raw[#[trigger] keys[i]] >= 1 by {
        assert(keys.contains(keys[i]));
        assert(raw.dom().contains(keys[i]));
    }
    largest_power_bounds(raw, keys);
    let most = largest_power(raw, keys);
    cap_found(raw, most, most);
    let cap = power_cap(raw);
    assert(is_cap(raw, cap));
    if cap == 1 {
        total_of_ones(raw, keys);
        let count = raw.len() as int;
        let share = share_limit(raw.len()) as int;
        let equal = (10_000 + count - 1) / count;
        vstd::arithmetic::div_mod::lemma_fundamental_div_mod(10_000 + count - 1, count);
        assert(count * equal >= 10_000) by (nonlinear_arith)
            requires
                10_000 + count - 1 == count * equal + (10_000 + count - 1) % count,
                0 <= (10_000 + count - 1) % count < count,
        ;
        assert(count * share >= count * equal) by (nonlinear_arith)
            requires
                share >= equal,
                count >= 0,
        ;
    }
}

/// Nothing but the time in service decides a node's power: ledgers that agree on it give the same
/// power to the same nodes, whatever else they hold.
pub proof fn power_follows_service_alone(first: LedgerModel, second: LedgerModel, ids: Seq<u64>)
    requires
        forall|i: int|
            0 <= i < ids.len() ==> first.nodes[#[trigger] ids[i]].total_eligible_seconds
                == second.nodes[ids[i]].total_eligible_seconds,
    ensures
        powers_of(first, ids) == powers_of(second, ids),
{
    assert(raw_powers(first, ids) =~= raw_powers(second, ids)) by {
        assert forall|id: u64| ids.contains(id) implies age_power(
            first.nodes[id].total_eligible_seconds,
        ) == age_power(second.nodes[id].total_eligible_seconds) by {
            let i = choose|i: int| 0 <= i < ids.len() && ids[i] == id;
            assert(first.nodes[ids[i]].total_eligible_seconds
                == second.nodes[ids[i]].total_eligible_seconds);
        }
    }
}

/// A payment out of the treasury needs the approval of two thirds of the validators, rounded up and no
/// more.
pub proof fn validator_quorums_are_two_thirds(count: nat)
    ensures
        3 * validator_quorum_of(count) >= 2 * count,
        count > 0 ==> 3 * (validator_quorum_of(count) - 1) < 2 * count,
        validator_quorum_of(count) <= count,
{
}

/// Power grows with service and with nothing else: one for each whole day, at least one and at most a
/// hundred and eighty. Longer service never gives less power.
pub proof fn longer_service_gives_no_less_power(
    ledger: LedgerModel,
    ids: Seq<u64>,
    a: u64,
    b: u64,
)
    requires
        ids.contains(a),
        ids.contains(b),
        ledger.nodes[a].total_eligible_seconds <= ledger.nodes[b].total_eligible_seconds,
    ensures
        ({
            let powers = powers_of(ledger, ids);
            &&& powers.contains_key(a) && powers.contains_key(b)
            &&& powers[a] <= powers[b]
            &&& 1 <= powers[a] <= 180
            &&& powers[a] > 1 ==> powers[a] * 86_400 <= ledger.nodes[a].total_eligible_seconds
        }),
{
    power_share_is_capped(ledger, ids, a);
    power_share_is_capped(ledger, ids, b);
}

proof fn equal_powers_add_up(raw: Map<u64, u128>, ids: Seq<u64>, power: u128)
    requires
        forall|i: int| 0 <= i < ids.len() ==> raw[#[trigger] ids[i]] == power,
    ensures
        capped_total(raw, ids, power as nat) == ids.len() * power,
        ids.len() > 0 ==> largest_power(raw, ids) == power,
    decreases ids.len(),
{
    if ids.len() == 0 {
        assert(0 * power == 0) by (nonlinear_arith);
    } else {
        let rest = ids.drop_last();
        assert forall|i: int| 0 <= i < rest.len() implies raw[#[trigger] rest[i]] == power by {
            assert(rest[i] == ids[i]);
        }
        equal_powers_add_up(raw, rest, power);
        assert(raw[ids[ids.len() - 1]] == power);
        reveal_with_fuel(largest_power, 2);
        assert(ids.len() * power == rest.len() * power + power) by (nonlinear_arith)
            requires
                ids.len() == rest.len() + 1,
        ;
    }
}

/// Power is cut only where somebody would have too much of it: nodes that have all served for the same
/// time keep the whole power that their service gives, one for each day up to a hundred and eighty.
pub proof fn equal_service_is_not_cut(ledger: LedgerModel, ids: Seq<u64>, node_id: u64)
    requires
        ids.contains(node_id),
        forall|id: u64| #[trigger]
            ids.contains(id) ==> ledger.nodes[id].total_eligible_seconds
                == ledger.nodes[node_id].total_eligible_seconds,
    ensures
        ({
            let seconds = ledger.nodes[node_id].total_eligible_seconds;
            let power = powers_of(ledger, ids)[node_id];
            &&& seconds < 86_400 ==> power == 1
            &&& 86_400 <= seconds < 15_552_000 ==> power * 86_400 <= seconds && seconds < (power
                + 1) * 86_400
            &&& 15_552_000 <= seconds ==> power == 180
        }),
{
    let raw = raw_powers(ledger, ids);
    let power = age_power(ledger.nodes[node_id].total_eligible_seconds);
    assert(raw.dom() =~= ids.to_set());
    vstd::seq_lib::seq_to_set_is_finite(ids);
    ordered_lists_all::<u64>(raw.dom());
    let keys = ordered::<u64>(raw.dom());
    assert(raw.contains_key(node_id));
    assert(keys.contains(node_id));
    assert forall|i: int| 0 <= i < keys.len() implies raw[#[trigger] keys[i]] == power by {
        assert(keys.contains(keys[i]));
        assert(raw.dom().contains(keys[i]));
        assert(ids.contains(keys[i]));
    }
    equal_powers_add_up(raw, keys, power);
    let count = raw.len() as int;
    let share = share_limit(raw.len()) as int;
    let equal = (10_000 + count - 1) / count;
    vstd::arithmetic::div_mod::lemma_fundamental_div_mod(10_000 + count - 1, count);
    assert(count * equal >= 10_000) by (nonlinear_arith)
        requires
            10_000 + count - 1 == count * equal + (10_000 + count - 1) % count,
            0 <= (10_000 + count - 1) % count < count,
    ;
    assert(count * share >= count * equal) by (nonlinear_arith)
        requires
            share >= equal,
            count >= 0,
    ;
    assert((count * power) * share >= power * 10_000) by (nonlinear_arith)
        requires
            count * share >= 10_000,
            power >= 0,
    ;
    assert(is_cap(raw, power as nat));
    cap_is_unique(raw, power_cap(raw), power as nat);
}

/// The treasury is decided on by the nodes that count in governance and have served for a hundred and
/// eighty days, and by no others, and only if there are fifty of them. Everything else takes twenty
/// nodes that count.
pub proof fn treasury_is_for_long_service(ledger: LedgerModel, now: i64, node_id: u64)
    ensures
        treasury_ids(ledger, now).contains(node_id) <==> eligible_ids(ledger, now).contains(node_id)
            && 15_552_000 <= ledger.nodes[node_id].total_eligible_seconds,
        treasury_powers(ledger, now) is Ok <==> 50 <= treasury_ids(ledger, now).len(),
        governance_powers(ledger, now) is Ok <==> 20 <= eligible_ids(ledger, now).len(),
        treasury_powers(ledger, now) matches Ok(powers) ==> (powers.contains_key(node_id)
            <==> treasury_ids(ledger, now).contains(node_id)),
        governance_powers(ledger, now) matches Ok(powers) ==> (powers.contains_key(node_id)
            <==> eligible_ids(ledger, now).contains(node_id)),
        distributed_mode_checked(ledger, now) is Ok <==> 20 <= eligible_ids(ledger, now).len(),
{
    crate::sequence::filtered_are_chosen(
        eligible_ids(ledger, now),
        |id: u64| is_mature(ledger, id),
    );
}

} // verus!
