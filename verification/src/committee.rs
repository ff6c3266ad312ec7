use vstd::prelude::*;

use crate::chain::{chain_next_height, next_height};
use crate::error::Result;
use crate::lifecycle::{availability_fallback, fallback_to_node1_availability_if_needed};
use crate::model::{copy_values, ConsensusModel, LedgerModel, LedgerState, NodeModel, NodeRecord};
use crate::nodes::{eligible_ids, governance_eligible_node_ids, node_ids};
use crate::number::{clamped_u64, least};
use crate::protocol::{MIN_ACTIVE_VALIDATORS, MULTI_VALIDATOR_NODE_THRESHOLD};
use crate::sequence::{
    arrange, arranged, arranged_keeps_items, contains_id, filter_ends, filter_step,
    filtered_are_chosen, filtered_are_members, place, place_bounds, same_ids, Ranked,
};
use crate::table::{ordered, Replicate, Table};

verus! {

/// How many validators have to agree: more than two thirds of them.
pub open spec fn quorum_of(count: nat) -> nat {
    if count == 0 {
        0
    } else {
        2 * count / 3 + 1
    }
}

/// How many validators have to agree.
pub fn consensus_quorum(validator_count: usize) -> (r: usize)
    ensures
        r == quorum_of(validator_count as nat),
{
    if validator_count == 0 {
        0
    } else {
        ((2 * (validator_count as u128)) / 3 + 1) as usize
    }
}

/// Two quorums of one committee share more than a third of its members.
pub proof fn quorums_overlap(committee: Set<u64>, first: Set<u64>, second: Set<u64>)
    requires
        committee.finite(),
        committee.len() > 0,
        first.subset_of(committee),
        second.subset_of(committee),
        first.len() >= quorum_of(committee.len()),
        second.len() >= quorum_of(committee.len()),
    ensures
        3 * first.intersect(second).len() > committee.len(),
{
    vstd::set_lib::lemma_len_subset(first, committee);
    vstd::set_lib::lemma_len_subset(second, committee);
    let both = first.union(second);
    assert(both.subset_of(committee));
    vstd::set_lib::lemma_len_subset(both, committee);
    vstd::set_lib::lemma_set_intersect_union_lens(first, second);
}

/// The validator whose turn it is to propose.
pub open spec fn proposer_of(validators: Seq<u64>, height: u64, round: u32) -> Option<u64> {
    if validators.len() == 0 {
        None
    } else {
        Some(
            validators[(clamped_u64(height - 1) + round) % (validators.len() as int)],
        )
    }
}

/// Finds the validator whose turn it is to propose.
pub fn consensus_proposer(validators: &Vec<u64>, height: u64, round: u32) -> (r: Option<u64>)
    ensures
        r == proposer_of(validators@, height, round),
{
    if validators.len() == 0 {
        return None;
    }
    let turn: u128 = height.saturating_sub(1) as u128 + round as u128;
    let index: usize = (turn % (validators.len() as u128)) as usize;
    Some(validators[index])
}

/// Whether a node may sit in the committee.
pub open spec fn is_candidate(ledger: LedgerModel, node_id: u64, now: i64) -> bool {
    &&& eligible_ids(ledger, now).contains(node_id)
    &&& ledger.nodes[node_id].validator_bond >= ledger.settings.validator_bond
    &&& ledger.nodes[node_id].validator_candidate_since is Some
    &&& ledger.nodes[node_id].validator_exit_requested_at is None
}

/// The nodes that may sit in the committee, in ascending order.
pub open spec fn candidate_ids(ledger: LedgerModel, now: i64) -> Seq<u64> {
    node_ids(ledger).filter(|id: u64| is_candidate(ledger, id, now))
}

/// Lists the nodes that may sit in the committee.
pub fn validator_candidate_node_ids(ledger: &LedgerState, now: i64) -> (r: Vec<u64>)
    ensures
        r@ == candidate_ids(ledger@, now),
{
    let eligible = governance_eligible_node_ids(ledger, now);
    let ghost keys = ledger.nodes.keys();
    let ghost chosen = |id: u64| is_candidate(ledger@, id, now);
    let mut ids: Vec<u64> = Vec::new();
    let mut i: usize = 0;
    proof {
        filter_ends(keys, chosen);
    }
    while i < ledger.nodes.len()
        invariant
            i <= keys.len(),
            keys == ledger.nodes.keys(),
            eligible@ == eligible_ids(ledger@, now),
            chosen == (|id: u64| is_candidate(ledger@, id, now)),
            ids@ == keys.take(i as int).filter(chosen),
        decreases keys.len() - i,
    {
        proof {
            filter_step(keys, i as int, chosen);
        }
        let node_id: u64 = *ledger.nodes.key_at(i);
        let node = ledger.nodes.value_at(i);
        if contains_id(&eligible, node_id) && node.validator_bond >= ledger.settings.validator_bond
            && node.validator_candidate_since.is_some()
            && node.validator_exit_requested_at.is_none() {
            ids.push(node_id);
        }
        i = i + 1;
    }
    proof {
        filter_ends(keys, chosen);
    }
    ids
}

/// Whether blocks are agreed on by the committee.
pub open spec fn committee_ready(ledger: LedgerModel, now: i64) -> bool {
    eligible_ids(ledger, now).len() >= MULTI_VALIDATOR_NODE_THRESHOLD
        && ledger.consensus.active_validators.len() >= MIN_ACTIVE_VALIDATORS
}

pub fn multi_validator_ready(ledger: &LedgerState, now: i64) -> (r: bool)
    ensures
        r == committee_ready(ledger@, now),
{
    governance_eligible_node_ids(ledger, now).len() >= MULTI_VALIDATOR_NODE_THRESHOLD
        && ledger.consensus.active_validators.len() >= MIN_ACTIVE_VALIDATORS
}

/// A node with what decides its turn for a seat.
#[derive(Clone, Copy, Debug, PartialEq, Eq, Structural)]
pub struct Seat {
    pub turn: i128,
    pub since: i64,
    pub node_id: u64,
}

impl DeepView for Seat {
    type V = Seat;

    open spec fn deep_view(&self) -> Seat {
        *self
    }
}

impl Replicate for Seat {
    fn replicate(&self) -> (r: Seat) {
        *self
    }
}

impl Ranked for Seat {
    open spec fn precedes(a: Seat, b: Seat) -> bool {
        a.turn < b.turn || (a.turn == b.turn && (a.since < b.since || (a.since == b.since
            && a.node_id < b.node_id)))
    }

    fn comes_before(&self, other: &Seat) -> (r: bool) {
        self.turn < other.turn || (self.turn == other.turn && (self.since < other.since || (
        self.since == other.since && self.node_id < other.node_id)))
    }
}

/// The orders in which nodes get or give up a seat: by the time at which they became candidates, by
/// the last epoch in which they sat and that time, or by how long they have been sitting.
#[derive(Clone, Copy, Debug, PartialEq, Eq, Structural)]
pub enum SeatOrder {
    Candidacy,
    Waiting,
    Tenure,
}

pub open spec fn seat_of(nodes: Map<u64, NodeModel>, order: SeatOrder, node_id: u64) -> Seat {
    let node = nodes[node_id];
    let since = match node.validator_candidate_since {
        Some(since) => since,
        None => i64::MAX,
    };
    match order {
        SeatOrder::Candidacy => Seat { turn: 0, since, node_id },
        SeatOrder::Waiting => Seat {
            turn: match node.validator_last_epoch {
                Some(epoch) => epoch as i128,
                None => 0,
            },
            since,
            node_id,
        },
        SeatOrder::Tenure => Seat {
            turn: (-(node.validator_consecutive_epochs as int)) as i128,
            since: 0,
            node_id,
        },
    }
}

/// Some nodes in the order in which their turn comes.
pub open spec fn in_turn(nodes: Map<u64, NodeModel>, order: SeatOrder, ids: Seq<u64>) -> Seq<u64> {
    arranged::<Seat>(ids.map_values(|id: u64| seat_of(nodes, order, id))).map_values(
        |seat: Seat| seat.node_id,
    )
}

fn make_seat(ledger: &LedgerState, order: SeatOrder, node_id: u64) -> (r: Seat)
    requires
        ledger@.nodes.contains_key(node_id),
    ensures
        r == seat_of(ledger@.nodes, order, node_id),
{
    match ledger.nodes.get(&node_id) {
        None => Seat { turn: 0, since: 0, node_id },
        Some(node) => {
            let since: i64 = match node.validator_candidate_since {
                Some(since) => since,
                None => i64::MAX,
            };
            match order {
                SeatOrder::Candidacy => Seat { turn: 0, since, node_id },
                SeatOrder::Waiting => Seat {
                    turn: match node.validator_last_epoch {
                        Some(epoch) => epoch as i128,
                        None => 0,
                    },
                    since,
                    node_id,
                },
                SeatOrder::Tenure => Seat {
                    turn: -(node.validator_consecutive_epochs as i128),
                    since: 0,
                    node_id,
                },
            }
        },
    }
}

fn order_by_turn(ledger: &LedgerState, order: SeatOrder, ids: &Vec<u64>) -> (r: Vec<u64>)
    requires
        forall|i: int| 0 <= i < ids@.len() ==> ledger@.nodes.contains_key(#[trigger] ids@[i]),
    ensures
        r@ == in_turn(ledger@.nodes, order, ids@),
{
    let ghost seat = |id: u64| seat_of(ledger@.nodes, order, id);
    let mut seats: Vec<Seat> = Vec::new();
    let mut i: usize = 0;
    while i < ids.len()
        invariant
            i <= ids@.len(),
            forall|j: int| 0 <= j < ids@.len() ==> ledger@.nodes.contains_key(#[trigger] ids@[j]),
            seats@.len() == i,
            forall|j: int| 0 <= j < i ==> seats@[j] == seat_of(ledger@.nodes, order, ids@[j]),
        decreases ids@.len() - i,
    {
        let node_id: u64 = ids[i];
        assert(ledger@.nodes.contains_key(ids@[i as int]));
        seats.push(make_seat(ledger, order, node_id));
        i = i + 1;
    }
    assert(seats.deep_view() =~= ids@.map_values(seat));
    let sorted = arrange(&seats);
    let mut out: Vec<u64> = Vec::new();
    let mut j: usize = 0;
    while j < sorted.len()
        invariant
            j <= sorted@.len(),
            out@.len() == j,
            forall|k: int| 0 <= k < j ==> out@[k] == sorted@[k].node_id,
        decreases sorted@.len() - j,
    {
        out.push(sorted[j].node_id);
        j = j + 1;
    }
    assert(sorted.deep_view() =~= sorted@);
    assert(out@ =~= in_turn(ledger@.nodes, order, ids@));
    out
}

/// A committee to which waiting nodes have been added while there are seats.
pub open spec fn seats_filled(selected: Seq<u64>, waiting: Seq<u64>, seats: nat) -> Seq<u64>
    decreases waiting.len(),
{
    if waiting.len() == 0 || selected.len() >= seats {
        selected
    } else if selected.contains(waiting[0]) {
        seats_filled(selected, waiting.drop_first(), seats)
    } else {
        seats_filled(selected.push(waiting[0]), waiting.drop_first(), seats)
    }
}

/// How many seats the committee has.
pub open spec fn seat_count(ledger: LedgerModel) -> nat {
    if ledger.settings.max_active_validators < 1 {
        1
    } else if ledger.settings.max_active_validators > 31 {
        31
    } else {
        ledger.settings.max_active_validators as nat
    }
}

/// The committee that follows: all candidates where there are seats for them; where nobody stays,
/// those who have been candidates for longest; else those who stay, less the ones who have sat for
/// longest where others wait, and then those whose turn it is.
pub open spec fn next_committee(ledger: LedgerModel, candidates: Seq<u64>) -> Seq<u64> {
    let seats = seat_count(ledger);
    let staying = ledger.consensus.active_validators.filter(|id: u64| candidates.contains(id));
    let rotations = least(10, ledger.settings.max_validator_rotations as int);
    let chosen = if candidates.len() <= seats {
        candidates
    } else if staying.len() == 0 {
        in_turn(ledger.nodes, SeatOrder::Candidacy, candidates).take(seats as int)
    } else {
        let waiting = in_turn(
            ledger.nodes,
            SeatOrder::Waiting,
            candidates.filter(|id: u64| !staying.contains(id)),
        );
        let kept = if staying.len() == seats && waiting.len() > 0 {
            in_turn(ledger.nodes, SeatOrder::Tenure, staying).skip(
                least(least(rotations, waiting.len() as int), staying.len() as int),
            )
        } else {
            staying
        };
        seats_filled(kept, waiting, seats)
    };
    arranged::<u64>(chosen)
}

/// Whether a new committee is due: there is none, its term is over, a member may no longer sit, or
/// there are free seats before the committee takes over.
pub open spec fn selection_due(ledger: LedgerModel, now: i64) -> bool {
    let candidates = candidate_ids(ledger, now);
    let active = ledger.consensus.active_validators;
    let interval = if ledger.settings.validator_rotation_interval_epochs < 1 {
        1
    } else {
        ledger.settings.validator_rotation_interval_epochs
    };
    ||| active.len() == 0
    ||| match ledger.consensus.last_selection_epoch {
        None => true,
        Some(last) => clamped_u64(ledger.epoch_number - last) >= interval,
    }
    ||| (!committee_ready(ledger, now) && ledger.consensus.proposal is None && candidates.len()
        <= ledger.settings.max_active_validators && candidates != active)
    ||| exists|i: int| 0 <= i < active.len() && !candidates.contains(#[trigger] active[i])
}

/// A node after a committee has been selected.
pub open spec fn seated(
    node: NodeModel,
    node_id: u64,
    previous: Seq<u64>,
    selected: Seq<u64>,
    epoch: u64,
) -> NodeModel {
    if selected.contains(node_id) {
        NodeModel {
            validator: true,
            validator_consecutive_epochs: if previous.contains(node_id) {
                if node.validator_consecutive_epochs == u64::MAX {
                    u64::MAX
                } else {
                    (node.validator_consecutive_epochs + 1) as u64
                }
            } else {
                1
            },
            validator_last_epoch: Some(epoch),
            ..node
        }
    } else {
        NodeModel { validator: false, validator_consecutive_epochs: 0, ..node }
    }
}

/// A round of voting that begins anew.
pub open spec fn round_cleared(
    consensus: ConsensusModel,
    height: u64,
    started_at: Option<i64>,
) -> ConsensusModel {
    ConsensusModel {
        height,
        round: 0,
        round_started_at: started_at,
        proposal: None,
        valid_proposal: None,
        valid_round: None,
        prevotes: Map::empty(),
        precommits: Map::empty(),
        locks: Map::empty(),
        ..consensus
    }
}

/// The ledger with a round of voting that begins anew.
pub open spec fn voting_restarted(
    ledger: LedgerModel,
    height: u64,
    started_at: Option<i64>,
) -> LedgerModel {
    LedgerModel {
        consensus: round_cleared(ledger.consensus, height, started_at),
        proposal_post_state: None,
        valid_post_state: None,
        ..ledger
    }
}

/// Begins a round of voting anew.
pub fn restart_voting(ledger: &mut LedgerState, height: u64, started_at: Option<i64>)
    ensures
        final(ledger)@ == voting_restarted(old(ledger)@, height, started_at),
{
    ledger.consensus.height = height;
    ledger.consensus.round = 0;
    ledger.consensus.round_started_at = started_at;
    ledger.consensus.proposal = None;
    ledger.consensus.valid_proposal = None;
    ledger.consensus.valid_round = None;
    ledger.consensus.prevotes = Table::new();
    ledger.consensus.precommits = Table::new();
    ledger.consensus.locks = Table::new();
    ledger.proposal_post_state = None;
    ledger.valid_post_state = None;
}

/// The ledger after the committee has been brought up to date.
#[verifier::opaque]
pub open spec fn committee_refreshed(ledger: LedgerModel, now: i64) -> LedgerModel {
    let checked = availability_fallback(ledger);
    if !selection_due(checked, now) {
        checked
    } else {
        let selected = next_committee(checked, candidate_ids(checked, now));
        let previous = checked.consensus.active_validators;
        let seated_nodes = LedgerModel {
            nodes: Map::new(
                |id: u64| checked.nodes.contains_key(id),
                |id: u64| seated(checked.nodes[id], id, previous, selected, checked.epoch_number),
            ),
            consensus: ConsensusModel {
                active_validators: selected,
                last_selection_epoch: Some(checked.epoch_number),
                ..checked.consensus
            },
            ..checked
        };
        availability_fallback(
            voting_restarted(seated_nodes, chain_next_height(checked), Some(now)),
        )
    }
}

fn is_selection_due(ledger: &LedgerState, candidates: &Vec<u64>, now: i64) -> (r: bool)
    requires
        candidates@ == candidate_ids(ledger@, now),
    ensures
        r == selection_due(ledger@, now),
{
    let active = &ledger.consensus.active_validators;
    if active.len() == 0 {
        return true;
    }
    let interval: u64 = if ledger.settings.validator_rotation_interval_epochs < 1 {
        1
    } else {
        ledger.settings.validator_rotation_interval_epochs as u64
    };
    match ledger.consensus.last_selection_epoch {
        None => {
            return true;
        },
        Some(last) => {
            if ledger.epoch_number.saturating_sub(last) >= interval {
                return true;
            }
        },
    }
    if !multi_validator_ready(ledger, now) && ledger.consensus.proposal.is_none()
        && candidates.len() <= ledger.settings.max_active_validators as usize && !same_ids(
        candidates,
        active,
    ) {
        return true;
    }
    let mut i: usize = 0;
    while i < active.len()
        invariant
            i <= active@.len(),
            active@ == ledger@.consensus.active_validators,
            candidates@ == candidate_ids(ledger@, now),
            forall|j: int| 0 <= j < i ==> candidates@.contains(#[trigger] active@[j]),
        decreases active@.len() - i,
    {
        if !contains_id(candidates, active[i]) {
            assert(!candidate_ids(ledger@, now).contains(
                ledger@.consensus.active_validators[i as int],
            ));
            return true;
        }
        i = i + 1;
    }
    false
}

fn keep_ids(ids: &Vec<u64>, among: &Vec<u64>, inside: bool) -> (r: Vec<u64>)
    ensures
        r@ == ids@.filter(|id: u64| among@.contains(id) == inside),
{
    let ghost chosen = |id: u64| among@.contains(id) == inside;
    let mut kept: Vec<u64> = Vec::new();
    let mut i: usize = 0;
    proof {
        filter_ends(ids@, chosen);
    }
    while i < ids.len()
        invariant
            i <= ids@.len(),
            chosen == (|id: u64| among@.contains(id) == inside),
            kept@ == ids@.take(i as int).filter(chosen),
        decreases ids@.len() - i,
    {
        proof {
            filter_step(ids@, i as int, chosen);
        }
        if contains_id(among, ids[i]) == inside {
            kept.push(ids[i]);
        }
        i = i + 1;
    }
    proof {
        filter_ends(ids@, chosen);
    }
    kept
}

fn fill_seats(selected: Vec<u64>, waiting: &Vec<u64>, seats: usize) -> (r: Vec<u64>)
    ensures
        r@ == seats_filled(selected@, waiting@, seats as nat),
{
    let ghost first = selected@;
    let mut filled: Vec<u64> = selected;
    let mut i: usize = 0;
    assert(waiting@.skip(0) =~= waiting@);
    while i < waiting.len() && filled.len() < seats
        invariant
            i <= waiting@.len(),
            seats_filled(first, waiting@, seats as nat) == seats_filled(
                filled@,
                waiting@.skip(i as int),
                seats as nat,
            ),
        decreases waiting@.len() - i,
    {
        assert(waiting@.skip(i as int).drop_first() =~= waiting@.skip(i as int + 1));
        if !contains_id(&filled, waiting[i]) {
            filled.push(waiting[i]);
        }
        i = i + 1;
    }
    filled
}

proof fn in_turn_members(nodes: Map<u64, NodeModel>, order: SeatOrder, ids: Seq<u64>)
    ensures
        in_turn(nodes, order, ids).len() == ids.len(),
        forall|i: int|
            0 <= i < ids.len() ==> ids.contains(#[trigger] in_turn(nodes, order, ids)[i]),
{
    broadcast use vstd::seq_lib::group_to_multiset_ensures;

    let seats = ids.map_values(|id: u64| seat_of(nodes, order, id));
    let sorted = arranged::<Seat>(seats);
    arranged_keeps_items::<Seat>(seats);
    let out = in_turn(nodes, order, ids);
    assert forall|i: int| 0 <= i < ids.len() implies ids.contains(#[trigger] out[i]) by {
        assert(sorted.to_multiset().count(sorted[i]) > 0) by {
            assert(sorted.contains(sorted[i]));
        }
        assert(seats.to_multiset().count(sorted[i]) > 0);
        assert(seats.contains(sorted[i]));
        let j = choose|j: int| 0 <= j < seats.len() && seats[j] == sorted[i];
        assert(ids[j] == out[i]);
    }
}

fn choose_committee(ledger: &LedgerState, candidates: &Vec<u64>) -> (r: Vec<u64>)
    requires
        forall|i: int|
            0 <= i < candidates@.len() ==> ledger@.nodes.contains_key(#[trigger] candidates@[i]),
    ensures
        r@ == next_committee(ledger@, candidates@),
{
    let seats: usize = if ledger.settings.max_active_validators < 1 {
        1
    } else if ledger.settings.max_active_validators > 31 {
        31
    } else {
        ledger.settings.max_active_validators as usize
    };
    let rotations: usize = if ledger.settings.max_validator_rotations < 10 {
        ledger.settings.max_validator_rotations as usize
    } else {
        10
    };
    let staying = keep_ids(&ledger.consensus.active_validators, candidates, true);
    proof {
        assert(staying@ =~= ledger@.consensus.active_validators.filter(
            |id: u64| candidates@.contains(id),
        )) by {
            assert((|id: u64| candidates@.contains(id) == true) =~= (|id: u64|
                candidates@.contains(id)));
        }
    }
    let chosen: Vec<u64> = if candidates.len() <= seats {
        copy_values(candidates)
    } else if staying.len() == 0 {
        let mut initial = order_by_turn(ledger, SeatOrder::Candidacy, candidates);
        proof {
            in_turn_members(ledger@.nodes, SeatOrder::Candidacy, candidates@);
        }
        initial.truncate(seats);
        assert(initial@ =~= in_turn(ledger@.nodes, SeatOrder::Candidacy, candidates@).take(
            seats as int,
        ));
        initial
    } else {
        let others = keep_ids(candidates, &staying, false);
        proof {
            filtered_are_members(candidates@, |id: u64| staying@.contains(id) == false);
            filtered_are_members(
                ledger@.consensus.active_validators,
                |id: u64| candidates@.contains(id),
            );
            assert((|id: u64| staying@.contains(id) == false) =~= (|id: u64|
                !staying@.contains(id)));
            assert forall|i: int| 0 <= i < others@.len() implies ledger@.nodes.contains_key(
                #[trigger] others@[i],
            ) by {
                assert(candidates@.contains(others@[i]));
            }
            assert forall|i: int| 0 <= i < staying@.len() implies ledger@.nodes.contains_key(
                #[trigger] staying@[i],
            ) by {
                assert(candidates@.contains(staying@[i]));
            }
        }
        let waiting = order_by_turn(ledger, SeatOrder::Waiting, &others);
        if staying.len() == seats && waiting.len() > 0 {
            let mut tenured = order_by_turn(ledger, SeatOrder::Tenure, &staying);
            proof {
                in_turn_members(ledger@.nodes, SeatOrder::Tenure, staying@);
            }
            let mut leaving: usize = rotations;
            if waiting.len() < leaving {
                leaving = waiting.len();
            }
            if staying.len() < leaving {
                leaving = staying.len();
            }
            let kept = tenured.split_off(leaving);
            assert(kept@ =~= in_turn(ledger@.nodes, SeatOrder::Tenure, staying@).skip(
                leaving as int,
            ));
            fill_seats(kept, &waiting, seats)
        } else {
            fill_seats(staying, &waiting, seats)
        }
    };
    assert(chosen.deep_view() =~= chosen@);
    let sorted = arrange(&chosen);
    assert(sorted.deep_view() =~= sorted@);
    sorted
}

fn seat_node(
    node: &mut NodeRecord,
    node_id: u64,
    previous: &Vec<u64>,
    selected: &Vec<u64>,
    epoch: u64,
)
    ensures
        final(node).deep_view() == seated(
            old(node).deep_view(),
            node_id,
            previous@,
            selected@,
            epoch,
        ),
{
    if contains_id(selected, node_id) {
        node.validator = true;
        node.validator_consecutive_epochs = if contains_id(previous, node_id) {
            node.validator_consecutive_epochs.saturating_add(1)
        } else {
            1
        };
        node.validator_last_epoch = Some(epoch);
    } else {
        node.validator = false;
        node.validator_consecutive_epochs = 0;
    }
}

fn seat_nodes(ledger: &mut LedgerState, previous: &Vec<u64>, selected: &Vec<u64>)
    ensures
        final(ledger)@ == (LedgerModel {
            nodes: Map::new(
                |id: u64| old(ledger)@.nodes.contains_key(id),
                |id: u64|
                    seated(
                        old(ledger)@.nodes[id],
                        id,
                        previous@,
                        selected@,
                        old(ledger)@.epoch_number,
                    ),
            ),
            ..old(ledger)@
        }),
{
    let ghost before = ledger@;
    let ghost keys = ledger.nodes.keys();
    let count: usize = ledger.nodes.len();
    let epoch: u64 = ledger.epoch_number;
    let mut i: usize = 0;
    while i < count
        invariant
            i <= count,
            count == keys.len(),
            before == old(ledger)@,
            epoch == before.epoch_number,
            keys == ordered::<u64>(before.nodes.dom()),
            keys.no_duplicates(),
            ledger@.nodes.dom() == before.nodes.dom(),
            ledger@ == (LedgerModel { nodes: ledger@.nodes, ..before }),
            forall|j: int|
                0 <= j < count ==> before.nodes.contains_key(#[trigger] keys[j])
                    && ledger@.nodes[keys[j]] == if j < i {
                    seated(before.nodes[keys[j]], keys[j], previous@, selected@, epoch)
                } else {
                    before.nodes[keys[j]]
                },
        decreases count - i,
    {
        let node_id: u64 = *ledger.nodes.key_at(i);
        let node = ledger.nodes.value_at_mut(i);
        seat_node(node, node_id, previous, selected, epoch);
        i = i + 1;
    }
    proof {
        let target = Map::new(
            |id: u64| before.nodes.contains_key(id),
            |id: u64| seated(before.nodes[id], id, previous@, selected@, epoch),
        );
        assert forall|k: u64| #[trigger] before.nodes.contains_key(k) implies ledger@.nodes[k]
            == target[k] by {
            assert(keys.contains(k));
            let j = choose|j: int| 0 <= j < keys.len() && keys[j] == k;
            assert(keys[j] == k);
        }
        assert(ledger@.nodes =~= target);
    }
}

/// Brings the committee up to date.
pub fn refresh_validator_committee(ledger: &mut LedgerState, now: i64) -> (r: Result<()>)
    ensures
        r is Ok,
        final(ledger)@ == committee_refreshed(old(ledger)@, now),
{
    proof {
        reveal(committee_refreshed);
    }
    fallback_to_node1_availability_if_needed(ledger);
    let candidates = validator_candidate_node_ids(ledger, now);
    if !is_selection_due(ledger, &candidates, now) {
        return Ok(());
    }
    proof {
        filtered_are_members(node_ids(ledger@), |id: u64| is_candidate(ledger@, id, now));
        assert forall|i: int| 0 <= i < candidates@.len() implies ledger@.nodes.contains_key(
            #[trigger] candidates@[i],
        ) by {
            eligible_are_nodes(ledger@, candidates@[i], now);
        }
    }
    let selected = choose_committee(ledger, &candidates);
    let previous = copy_values(&ledger.consensus.active_validators);
    let height = next_height(ledger);
    seat_nodes(ledger, &previous, &selected);
    ledger.consensus.active_validators = selected;
    ledger.consensus.last_selection_epoch = Some(ledger.epoch_number);
    restart_voting(ledger, height, Some(now));
    fallback_to_node1_availability_if_needed(ledger);
    Ok(())
}

proof fn eligible_are_nodes(ledger: LedgerModel, node_id: u64, now: i64)
    requires
        eligible_ids(ledger, now).contains(node_id),
    ensures
        ledger.nodes.contains_key(node_id),
        crate::nodes::governance_eligible(ledger, node_id, now),
{
    let chosen = |id: u64| crate::nodes::governance_eligible(ledger, id, now);
    filtered_are_members(node_ids(ledger), chosen);
    let i = choose|i: int|
        0 <= i < eligible_ids(ledger, now).len() && eligible_ids(ledger, now)[i] == node_id;
    assert(chosen(node_ids(ledger).filter(chosen)[i]));
}

proof fn filled_seats_bounds(selected: Seq<u64>, waiting: Seq<u64>, seats: nat, pool: Seq<u64>)
    requires
        selected.len() <= seats,
        forall|i: int| 0 <= i < selected.len() ==> pool.contains(#[trigger] selected[i]),
        forall|i: int| 0 <= i < waiting.len() ==> pool.contains(#[trigger] waiting[i]),
    ensures
        seats_filled(selected, waiting, seats).len() <= seats,
        forall|i: int|
            0 <= i < seats_filled(selected, waiting, seats).len() ==> pool.contains(
                #[trigger] seats_filled(selected, waiting, seats)[i],
            ),
    decreases waiting.len(),
{
    if waiting.len() > 0 && selected.len() < seats {
        let rest = waiting.drop_first();
        assert forall|i: int| 0 <= i < rest.len() implies pool.contains(#[trigger] rest[i]) by {
            assert(rest[i] == waiting[i + 1]);
        }
        if selected.contains(waiting[0]) {
            filled_seats_bounds(selected, rest, seats, pool);
        } else {
            assert(pool.contains(waiting[0]));
            filled_seats_bounds(selected.push(waiting[0]), rest, seats, pool);
        }
    }
}

proof fn arranged_members(items: Seq<u64>, pool: Seq<u64>)
    requires
        forall|i: int| 0 <= i < items.len() ==> pool.contains(#[trigger] items[i]),
    ensures
        arranged::<u64>(items).len() == items.len(),
        forall|i: int|
            0 <= i < items.len() ==> pool.contains(#[trigger] arranged::<u64>(items)[i]),
{
    broadcast use vstd::seq_lib::group_to_multiset_ensures;

    arranged_keeps_items::<u64>(items);
    let sorted = arranged::<u64>(items);
    assert forall|i: int| 0 <= i < items.len() implies pool.contains(#[trigger] sorted[i]) by {
        assert(sorted.contains(sorted[i]));
        assert(sorted.to_multiset().count(sorted[i]) > 0);
        assert(items.contains(sorted[i]));
        let j = choose|j: int| 0 <= j < items.len() && items[j] == sorted[i];
        assert(pool.contains(items[j]));
    }
}

/// Only candidates sit in the committee, and never more than there are seats, unless the committee
/// was larger than that before.
pub proof fn committee_is_bounded(ledger: LedgerModel, candidates: Seq<u64>)
    requires
        ledger.consensus.active_validators.len() <= seat_count(ledger),
    ensures
        next_committee(ledger, candidates).len() <= seat_count(ledger),
        forall|i: int|
            0 <= i < next_committee(ledger, candidates).len() ==> candidates.contains(
                #[trigger] next_committee(ledger, candidates)[i],
            ),
{
    let seats = seat_count(ledger);
    let among = |id: u64| candidates.contains(id);
    let staying = ledger.consensus.active_validators.filter(among);
    filtered_are_members(ledger.consensus.active_validators, among);
    if candidates.len() <= seats {
        arranged_members(candidates, candidates);
    } else if staying.len() == 0 {
        in_turn_members(ledger.nodes, SeatOrder::Candidacy, candidates);
        let chosen = in_turn(ledger.nodes, SeatOrder::Candidacy, candidates).take(seats as int);
        arranged_members(chosen, candidates);
    } else {
        let apart = |id: u64| !staying.contains(id);
        let others = candidates.filter(apart);
        filtered_are_members(candidates, apart);
        let waiting = in_turn(ledger.nodes, SeatOrder::Waiting, others);
        in_turn_members(ledger.nodes, SeatOrder::Waiting, others);
        in_turn_members(ledger.nodes, SeatOrder::Tenure, staying);
        let tenured = in_turn(ledger.nodes, SeatOrder::Tenure, staying);
        let rotations = least(10, ledger.settings.max_validator_rotations as int);
        let kept = if staying.len() == seats && waiting.len() > 0 {
            tenured.skip(least(least(rotations, waiting.len() as int), staying.len() as int))
        } else {
            staying
        };
        assert forall|i: int| 0 <= i < waiting.len() implies candidates.contains(
            #[trigger] waiting[i],
        ) by {
            assert(others.contains(waiting[i]));
            let j = choose|j: int| 0 <= j < others.len() && others[j] == waiting[i];
            assert(candidates.contains(others[j]));
        }
        assert forall|i: int| 0 <= i < kept.len() implies candidates.contains(
            #[trigger] kept[i],
        ) by {
            if staying.len() == seats && waiting.len() > 0 {
                let shift = least(
                    least(rotations, waiting.len() as int),
                    staying.len() as int,
                );
                assert(kept[i] == tenured[i + shift]);
                assert(staying.contains(tenured[i + shift]));
                let j = choose|j: int| 0 <= j < staying.len() && staying[j] == kept[i];
                assert(among(staying[j]));
            } else {
                assert(among(staying[i]));
            }
        }
        filled_seats_bounds(kept, waiting, seats, candidates);
        arranged_members(seats_filled(kept, waiting, seats), candidates);
    }
}

/// Bringing the committee up to date leaves the epoch, the settings and every balance as they are.
pub proof fn refresh_keeps_balances(ledger: LedgerModel, now: i64)
    ensures
        ({
            let after = committee_refreshed(ledger, now);
            &&& after.epoch_number == ledger.epoch_number
            &&& after.settings == ledger.settings
            &&& after.accounts == ledger.accounts
            &&& after.networks == ledger.networks
            &&& after.treasury == ledger.treasury
            &&& after.pool_remaining == ledger.pool_remaining
            &&& after.lifetime_minted == ledger.lifetime_minted
            &&& after.nodes.dom() =~= ledger.nodes.dom()
            &&& forall|id: u64| #[trigger]
                ledger.nodes.contains_key(id) ==> after.nodes[id].service_bond
                    == ledger.nodes[id].service_bond && after.nodes[id].claimable_reward
                    == ledger.nodes[id].claimable_reward && after.nodes[id].reward_vesting_buckets
                    == ledger.nodes[id].reward_vesting_buckets && after.nodes[id].governance_bond
                    == ledger.nodes[id].governance_bond && after.nodes[id].validator_bond
                    == ledger.nodes[id].validator_bond
        }),
{
    reveal(committee_refreshed);
}

proof fn filter_keeps_all<A>(items: Seq<A>, met: spec_fn(A) -> bool)
    requires
        forall|i: int| 0 <= i < items.len() ==> met(#[trigger] items[i]),
    ensures
        items.filter(met) == items,
    decreases items.len(),
{
    reveal(Seq::filter);
    if items.len() > 0 {
        let rest = items.drop_last();
        assert forall|i: int| 0 <= i < rest.len() implies met(#[trigger] rest[i]) by {
            assert(rest[i] == items[i]);
        }
        filter_keeps_all(rest, met);
        assert(met(items[items.len() - 1]));
        assert(items =~= rest.push(items.last()));
    }
    assert(items.filter(met) =~= items);
}

pub(crate) proof fn arranged_stay_unique<T: Ranked>(items: Seq<T::V>)
    requires
        items.no_duplicates(),
    ensures
        arranged::<T>(items).no_duplicates(),
        arranged::<T>(items).len() == items.len(),
        forall|item: T::V| #[trigger]
            arranged::<T>(items).contains(item) <==> items.contains(item),
{
    broadcast use vstd::seq_lib::group_to_multiset_ensures;

    arranged_keeps_items::<T>(items);
    let sorted = arranged::<T>(items);
    items.lemma_multiset_has_no_duplicates();
    sorted.lemma_multiset_has_no_duplicates_conv();
    assert forall|item: T::V| #[trigger] sorted.contains(item) <==> items.contains(item) by {
        assert(sorted.to_multiset().count(item) == items.to_multiset().count(item));
    }
}

proof fn turns_stay_unique(nodes: Map<u64, NodeModel>, order: SeatOrder, ids: Seq<u64>)
    requires
        ids.no_duplicates(),
    ensures
        in_turn(nodes, order, ids).no_duplicates(),
        in_turn(nodes, order, ids).len() == ids.len(),
        forall|i: int|
            0 <= i < ids.len() ==> ids.contains(#[trigger] in_turn(nodes, order, ids)[i]),
{
    let seats = ids.map_values(|id: u64| seat_of(nodes, order, id));
    assert(seats.no_duplicates()) by {
        assert forall|i: int, j: int| 0 <= i < seats.len() && 0 <= j < seats.len() && i
            != j implies seats[i] != seats[j] by {
            assert(seats[i].node_id == ids[i]);
            assert(seats[j].node_id == ids[j]);
        }
    }
    arranged_stay_unique::<Seat>(seats);
    let sorted = arranged::<Seat>(seats);
    let turns = in_turn(nodes, order, ids);
    assert forall|i: int| 0 <= i < turns.len() implies ids.contains(#[trigger] turns[i])
        && sorted[i] == seat_of(nodes, order, turns[i]) by {
        assert(sorted.contains(sorted[i]));
        assert(seats.contains(sorted[i]));
        let j = choose|j: int| 0 <= j < seats.len() && seats[j] == sorted[i];
        assert(seats[j].node_id == ids[j]);
        assert(turns[i] == sorted[i].node_id);
    }
    assert forall|i: int, j: int| 0 <= i < turns.len() && 0 <= j < turns.len() && i
        != j implies turns[i] != turns[j] by {
        if turns[i] == turns[j] {
            assert(sorted[i] == sorted[j]);
        }
    }
}

proof fn filling_keeps_the_selected(selected: Seq<u64>, waiting: Seq<u64>, seats: nat)
    ensures
        forall|id: u64| #[trigger]
            selected.contains(id) ==> seats_filled(selected, waiting, seats).contains(id),
    decreases waiting.len(),
{
    if waiting.len() > 0 && selected.len() < seats {
        let rest = waiting.drop_first();
        if selected.contains(waiting[0]) {
            filling_keeps_the_selected(selected, rest, seats);
        } else {
            let more = selected.push(waiting[0]);
            filling_keeps_the_selected(more, rest, seats);
            assert forall|id: u64| #[trigger] selected.contains(id) implies seats_filled(
                more,
                rest,
                seats,
            ).contains(id) by {
                let i = choose|i: int| 0 <= i < selected.len() && selected[i] == id;
                assert(more[i] == id);
                assert(more.contains(id));
            }
        }
    }
}

/// Where every member of a full committee may stay, no more of them give up their seats at once than
/// may rotate.
pub proof fn rotation_is_bounded(ledger: LedgerModel, candidates: Seq<u64>)
    requires
        ledger.consensus.active_validators.no_duplicates(),
        ledger.consensus.active_validators.len() == seat_count(ledger),
        forall|i: int|
            0 <= i < ledger.consensus.active_validators.len() ==> candidates.contains(
                #[trigger] ledger.consensus.active_validators[i],
            ),
    ensures
        ledger.consensus.active_validators.to_set().intersect(
            next_committee(ledger, candidates).to_set(),
        ).len() + least(10, ledger.settings.max_validator_rotations as int) >= seat_count(ledger),
{
    let active = ledger.consensus.active_validators;
    let seats = seat_count(ledger);
    let rotations = least(10, ledger.settings.max_validator_rotations as int);
    let among = |id: u64| candidates.contains(id);
    let staying = active.filter(among);
    filter_keeps_all(active, among);
    let next = next_committee(ledger, candidates);
    let (kept, chosen) = if candidates.len() <= seats {
        (active, candidates)
    } else {
        let apart = |id: u64| !staying.contains(id);
        let waiting = in_turn(ledger.nodes, SeatOrder::Waiting, candidates.filter(apart));
        turns_stay_unique(ledger.nodes, SeatOrder::Tenure, staying);
        let kept = if staying.len() == seats && waiting.len() > 0 {
            in_turn(ledger.nodes, SeatOrder::Tenure, staying).skip(
                least(least(rotations, waiting.len() as int), staying.len() as int),
            )
        } else {
            staying
        };
        filling_keeps_the_selected(kept, waiting, seats);
        (kept, seats_filled(kept, waiting, seats))
    };
    assert(next == arranged::<u64>(chosen));
    assert(kept.no_duplicates());
    assert(kept.len() + rotations >= seats);
    arranged_keeps_items::<u64>(chosen);
    let both = active.to_set().intersect(next.to_set());
    assert forall|id: u64| kept.to_set().contains(id) implies both.contains(id) by {
        broadcast use vstd::seq_lib::group_to_multiset_ensures;

        let i = choose|i: int| 0 <= i < kept.len() && kept[i] == id;
        assert(active.contains(id)) by {
            if candidates.len() > seats && kept != staying {
                let tenured = in_turn(ledger.nodes, SeatOrder::Tenure, staying);
                let shift = tenured.len() - kept.len();
                assert(kept[i] == tenured[i + shift]);
                assert(staying.contains(tenured[i + shift]));
            }
        }
        assert(chosen.contains(id)) by {
            if candidates.len() <= seats {
                assert(candidates.contains(active[i]));
            } else {
                assert(kept.contains(id));
            }
        }
        assert(chosen.to_multiset().count(id) > 0);
        assert(next.to_multiset().count(id) > 0);
        assert(next.contains(id));
    }
    kept.unique_seq_to_set();
    vstd::set_lib::lemma_len_subset(kept.to_set(), both);
}

proof fn candidates_ignore_the_fallback(ledger: LedgerModel, now: i64)
    ensures
        eligible_ids(availability_fallback(ledger), now) == eligible_ids(ledger, now),
        candidate_ids(availability_fallback(ledger), now) == candidate_ids(ledger, now),
{
    let other = availability_fallback(ledger);
    let first = |id: u64| crate::nodes::governance_eligible(ledger, id, now);
    let second = |id: u64| crate::nodes::governance_eligible(other, id, now);
    assert(first =~= second);
    let third = |id: u64| is_candidate(ledger, id, now);
    let fourth = |id: u64| is_candidate(other, id, now);
    assert(third =~= fourth);
}

/// A committee that is at work and whose members all may stay is not changed before its term is
/// over.
pub proof fn committee_keeps_its_term(ledger: LedgerModel, now: i64)
    requires
        ledger.consensus.active_validators.len() > 0,
        committee_ready(ledger, now),
        ledger.consensus.last_selection_epoch matches Some(last) && ledger.epoch_number - last
            < ledger.settings.validator_rotation_interval_epochs,
        forall|i: int|
            0 <= i < ledger.consensus.active_validators.len() ==> candidate_ids(
                ledger,
                now,
            ).contains(#[trigger] ledger.consensus.active_validators[i]),
    ensures
        committee_refreshed(ledger, now).consensus == ledger.consensus,
        committee_refreshed(ledger, now).nodes == ledger.nodes,
{
    reveal(committee_refreshed);
    candidates_ignore_the_fallback(ledger, now);
}

/// A quorum is the least number of validators that is more than two thirds of them.
pub proof fn quorums_are_least_majorities(count: nat)
    requires
        count > 0,
    ensures
        3 * quorum_of(count) > 2 * count,
        3 * (quorum_of(count) - 1) <= 2 * count,
        quorum_of(count) <= count,
{
}

/// The validators propose in turn, in the order of the committee: when a round ends without a block
/// the next in the list proposes, behind the last again the first, and the next height begins with the
/// one behind the proposer of the height before.
pub proof fn proposers_take_turns(validators: Seq<u64>, height: u64, round: u32, at: int)
    requires
        0 <= at < validators.len(),
        validators.no_duplicates(),
        proposer_of(validators, height, round) == Some(validators[at]),
    ensures
        round < u32::MAX ==> proposer_of(validators, height, (round + 1) as u32) == Some(
            if at + 1 < validators.len() {
                validators[at + 1]
            } else {
                validators[0]
            },
        ),
        0 < height < u64::MAX ==> proposer_of(validators, (height + 1) as u64, round) == Some(
            if at + 1 < validators.len() {
                validators[at + 1]
            } else {
                validators[0]
            },
        ),
        proposer_of(validators, 1, 0) == Some(validators[0]),
{
    let count = validators.len() as int;
    let turn = clamped_u64(height - 1) + round;
    vstd::arithmetic::div_mod::lemma_fundamental_div_mod(turn, count);
    vstd::arithmetic::div_mod::lemma_mod_bound(turn, count);
    let times = turn / count;
    assert(turn % count == at);
    if at + 1 < count {
        vstd::arithmetic::div_mod::lemma_fundamental_div_mod_converse(
            turn + 1,
            count,
            times,
            at + 1,
        );
    } else {
        assert(count * (times + 1) == count * times + count) by (nonlinear_arith);
        vstd::arithmetic::div_mod::lemma_fundamental_div_mod_converse(
            turn + 1,
            count,
            times + 1,
            0,
        );
    }
    vstd::arithmetic::div_mod::lemma_small_mod(0, count as nat);
}

/// Seats that have been put in order ascend by turn, then by time, then by node.
proof fn arranged_seats_ascend(items: Seq<Seat>)
    ensures
        arranged::<Seat>(items).len() == items.len(),
        forall|i: int, j: int|
            #![trigger arranged::<Seat>(items)[i], arranged::<Seat>(items)[j]]
            0 <= i < j < items.len() ==> !Seat::precedes(
                arranged::<Seat>(items)[j],
                arranged::<Seat>(items)[i],
            ),
    decreases items.len(),
{
    if items.len() > 0 {
        let earlier = arranged::<Seat>(items.drop_last());
        arranged_seats_ascend(items.drop_last());
        let item = items.last();
        let at = place::<Seat>(earlier, item);
        place_bounds::<Seat>(earlier, item);
        let all = earlier.insert(at, item);
        assert forall|i: int, j: int|
            #![trigger all[i], all[j]]
            0 <= i < j < all.len() implies !Seat::precedes(all[j], all[i]) by {
            if i < at {
                assert(all[i] == earlier[i]);
                if j == at && i < at - 1 {
                    assert(!Seat::precedes(earlier[at - 1], earlier[i]));
                } else if j > at {
                    assert(all[j] == earlier[j - 1]);
                } else if j < at {
                    assert(all[j] == earlier[j]);
                }
            } else if i == at {
                assert(all[j] == earlier[j - 1]);
                assert(Seat::precedes(item, earlier[j - 1]));
            } else {
                assert(all[i] == earlier[i - 1] && all[j] == earlier[j - 1]);
            }
        }
    }
}

/// Nodes that have been put in their turn are the same nodes, and of two of them the one whose turn
/// comes first stands first.
proof fn turns_are_in_order(nodes: Map<u64, NodeModel>, order: SeatOrder, ids: Seq<u64>)
    requires
        ids.no_duplicates(),
    ensures
        in_turn(nodes, order, ids).no_duplicates(),
        in_turn(nodes, order, ids).len() == ids.len(),
        forall|id: u64| #[trigger] in_turn(nodes, order, ids).contains(id) <==> ids.contains(id),
        forall|i: int, j: int|
            #![trigger in_turn(nodes, order, ids)[i], in_turn(nodes, order, ids)[j]]
            0 <= i < j < ids.len() ==> !Seat::precedes(
                seat_of(nodes, order, in_turn(nodes, order, ids)[j]),
                seat_of(nodes, order, in_turn(nodes, order, ids)[i]),
            ),
{
    let seats = ids.map_values(|id: u64| seat_of(nodes, order, id));
    turns_stay_unique(nodes, order, ids);
    assert(seats.no_duplicates()) by {
        assert forall|i: int, j: int| 0 <= i < seats.len() && 0 <= j < seats.len() && i
            != j implies seats[i] != seats[j] by {
            assert(seats[i].node_id == ids[i]);
            assert(seats[j].node_id == ids[j]);
        }
    }
    arranged_stay_unique::<Seat>(seats);
    arranged_seats_ascend(seats);
    let sorted = arranged::<Seat>(seats);
    let turns = in_turn(nodes, order, ids);
    assert forall|i: int| 0 <= i < turns.len() implies sorted[i] == seat_of(
        nodes,
        order,
        #[trigger] turns[i],
    ) by {
        assert(sorted.contains(sorted[i]));
        assert(seats.contains(sorted[i]));
        let j = choose|j: int| 0 <= j < seats.len() && seats[j] == sorted[i];
        assert(seats[j].node_id == ids[j]);
        assert(turns[i] == sorted[i].node_id);
    }
    assert forall|id: u64| #[trigger] turns.contains(id) <==> ids.contains(id) by {
        if turns.contains(id) {
            let i = choose|i: int| 0 <= i < turns.len() && turns[i] == id;
            assert(ids.contains(turns[i]));
        }
        if ids.contains(id) {
            let j = choose|j: int| 0 <= j < ids.len() && ids[j] == id;
            assert(seats.contains(seats[j]));
            assert(sorted.contains(seats[j]));
            let i = choose|i: int| 0 <= i < sorted.len() && sorted[i] == seats[j];
            assert(turns[i] == id);
        }
    }
}

/// Filling seats adds the first of those who wait, as many as there are free seats.
proof fn filling_takes_the_first(selected: Seq<u64>, waiting: Seq<u64>, seats: nat)
    requires
        waiting.no_duplicates(),
        forall|id: u64| #[trigger] waiting.contains(id) ==> !selected.contains(id),
        selected.len() <= seats,
    ensures
        seats_filled(selected, waiting, seats) == selected + waiting.take(
            least(seats - selected.len(), waiting.len() as int),
        ),
    decreases waiting.len(),
{
    let free = least(seats - selected.len(), waiting.len() as int);
    if waiting.len() == 0 || selected.len() >= seats {
        assert(selected + waiting.take(free) =~= selected);
    } else {
        let rest = waiting.drop_first();
        let more = selected.push(waiting[0]);
        assert(waiting.contains(waiting[0]));
        assert forall|id: u64| #[trigger] rest.contains(id) implies !more.contains(id) by {
            let i = choose|i: int| 0 <= i < rest.len() && rest[i] == id;
            assert(waiting[i + 1] == id);
            assert(waiting.contains(id));
            if more.contains(id) {
                let k = choose|k: int| 0 <= k < more.len() && more[k] == id;
                if k < selected.len() {
                    assert(selected[k] == id);
                }
            }
        }
        filling_takes_the_first(more, rest, seats);
        assert(more + rest.take(least(seats - more.len(), rest.len() as int)) =~= selected
            + waiting.take(free));
    }
}

/// The members of the committee who may stay.
pub open spec fn may_stay(ledger: LedgerModel, candidates: Seq<u64>, id: u64) -> bool {
    ledger.consensus.active_validators.contains(id) && candidates.contains(id)
}

/// How a committee for which there are more candidates than seats is put together, where somebody
/// stays: of those who stay the last ones in the order of tenure, of those who wait the first ones.
proof fn committee_parts(ledger: LedgerModel, candidates: Seq<u64>) -> (parts: (
    Seq<u64>,
    Seq<u64>,
    int,
    int,
))
    requires
        candidates.no_duplicates(),
        ledger.consensus.active_validators.no_duplicates(),
        ledger.consensus.active_validators.len() <= seat_count(ledger),
        candidates.len() > seat_count(ledger),
        exists|id: u64| #[trigger] may_stay(ledger, candidates, id),
    ensures
        ({
            let (tenured, waiting, gone, come) = parts;
            let next = next_committee(ledger, candidates);
            let seats = seat_count(ledger);
            &&& tenured.no_duplicates()
            &&& waiting.no_duplicates()
            &&& 0 < tenured.len() <= seats
            &&& tenured.len() + waiting.len() == candidates.len()
            &&& forall|id: u64| #[trigger]
                tenured.contains(id) <==> may_stay(ledger, candidates, id)
            &&& forall|id: u64| #[trigger]
                waiting.contains(id) <==> candidates.contains(id)
                    && !ledger.consensus.active_validators.contains(id)
            &&& 0 <= gone <= tenured.len()
            &&& 0 <= come <= waiting.len()
            &&& tenured.len() - gone + come == seats
            &&& tenured.len() < seats ==> gone == 0
            &&& tenured.len() == seats ==> gone == least(
                least(10, ledger.settings.max_validator_rotations as int),
                least(waiting.len() as int, tenured.len() as int),
            )
            &&& next.no_duplicates()
            &&& next.len() == seats
            &&& forall|id: u64| #[trigger]
                next.contains(id) <==> tenured.skip(gone).contains(id) || waiting.take(
                    come,
                ).contains(id)
            &&& forall|i: int, j: int|
                #![trigger tenured[i], tenured[j]]
                0 <= i < j < tenured.len() ==> !Seat::precedes(
                    seat_of(ledger.nodes, SeatOrder::Tenure, tenured[j]),
                    seat_of(ledger.nodes, SeatOrder::Tenure, tenured[i]),
                )
            &&& forall|i: int, j: int|
                #![trigger waiting[i], waiting[j]]
                0 <= i < j < waiting.len() ==> !Seat::precedes(
                    seat_of(ledger.nodes, SeatOrder::Waiting, waiting[j]),
                    seat_of(ledger.nodes, SeatOrder::Waiting, waiting[i]),
                )
        }),
{
    let seats = seat_count(ledger);
    let active = ledger.consensus.active_validators;
    let among = |id: u64| candidates.contains(id);
    let staying = active.filter(among);
    filtered_are_chosen(active, among);
    let apart = |id: u64| !staying.contains(id);
    let others = candidates.filter(apart);
    filtered_are_chosen(candidates, apart);
    filtered_are_members(active, among);
    let waiting = in_turn(ledger.nodes, SeatOrder::Waiting, others);
    let tenured = in_turn(ledger.nodes, SeatOrder::Tenure, staying);
    turns_are_in_order(ledger.nodes, SeatOrder::Waiting, others);
    turns_are_in_order(ledger.nodes, SeatOrder::Tenure, staying);
    let rotations = least(10, ledger.settings.max_validator_rotations as int);
    let someone = choose|id: u64| #[trigger] may_stay(ledger, candidates, id);
    assert(staying.contains(someone));
    assert(staying.len() + others.len() == candidates.len()) by {
        let all = candidates.to_set();
        candidates.unique_seq_to_set();
        staying.unique_seq_to_set();
        others.unique_seq_to_set();
        assert(staying.to_set().disjoint(others.to_set()));
        assert(staying.to_set() + others.to_set() =~= all);
        vstd::set_lib::lemma_set_disjoint_lens(staying.to_set(), others.to_set());
    }
    let full = staying.len() == seats;
    let gone = if full {
        least(least(rotations, waiting.len() as int), staying.len() as int)
    } else {
        0
    };
    let kept = if full {
        tenured.skip(gone)
    } else {
        staying
    };
    let come = seats - kept.len();
    let part = tenured.skip(gone);
    assert forall|id: u64| #[trigger] kept.contains(id) <==> part.contains(id) by {
        if !full {
            assert(part =~= tenured);
            assert(tenured.contains(id) <==> staying.contains(id));
        }
    }
    assert forall|id: u64| #[trigger] waiting.contains(id) implies !kept.contains(id) by {
        assert(others.contains(id));
        if kept.contains(id) && full {
            let i = choose|i: int| 0 <= i < kept.len() && kept[i] == id;
            assert(tenured[i + gone] == id);
            assert(tenured.contains(id));
            assert(staying.contains(id));
        }
    }
    filling_takes_the_first(kept, waiting, seats);
    let came = waiting.take(come);
    let chosen = seats_filled(kept, waiting, seats);
    assert(chosen =~= kept + came);
    assert(chosen.no_duplicates()) by {
        assert forall|i: int, j: int|
            0 <= i < chosen.len() && 0 <= j < chosen.len() && i != j implies chosen[i]
            != chosen[j] by {
            if i < kept.len() && j >= kept.len() {
                assert(chosen[j] == waiting[j - kept.len()]);
                assert(waiting.contains(chosen[j]));
                assert(kept.contains(chosen[i]));
            } else if i >= kept.len() && j < kept.len() {
                assert(chosen[i] == waiting[i - kept.len()]);
                assert(waiting.contains(chosen[i]));
                assert(kept.contains(chosen[j]));
            } else if i < kept.len() {
                assert(chosen[i] == kept[i] && chosen[j] == kept[j]);
            } else {
                assert(chosen[i] == waiting[i - kept.len()]);
                assert(chosen[j] == waiting[j - kept.len()]);
            }
        }
    }
    arranged_stay_unique::<u64>(chosen);
    let next = next_committee(ledger, candidates);
    assert(next == arranged::<u64>(chosen));
    assert forall|id: u64| #[trigger] next.contains(id) <==> part.contains(id) || came.contains(
        id,
    ) by {
        assert(next.contains(id) <==> chosen.contains(id));
        if chosen.contains(id) {
            let i = choose|i: int| 0 <= i < chosen.len() && chosen[i] == id;
            if i < kept.len() {
                assert(kept[i] == id);
                assert(kept.contains(id));
            } else {
                assert(came[i - kept.len()] == id);
            }
        }
        if part.contains(id) {
            assert(kept.contains(id));
            let i = choose|i: int| 0 <= i < kept.len() && kept[i] == id;
            assert(chosen[i] == id);
        }
        if came.contains(id) {
            let i = choose|i: int| 0 <= i < came.len() && came[i] == id;
            assert(chosen[i + kept.len()] == id);
        }
    }
    assert forall|id: u64| #[trigger] tenured.contains(id) <==> may_stay(
        ledger,
        candidates,
        id,
    ) by {
        assert(tenured.contains(id) <==> staying.contains(id));
    }
    assert forall|id: u64| #[trigger] waiting.contains(id) <==> candidates.contains(id)
        && !active.contains(id) by {
        assert(waiting.contains(id) <==> others.contains(id));
    }
    (tenured, waiting, gone, come)
}

/// The epoch in which a node last sat in the committee; a node that never has counts as one that sat
/// in epoch 0.
pub open spec fn last_sat(node: NodeModel) -> int {
    match node.validator_last_epoch {
        Some(epoch) => epoch as int,
        None => 0,
    }
}

/// Whether a node has been a candidate for longer than another; of two that became candidates at the
/// same time the one with the lower number goes first.
pub open spec fn longer_a_candidate(nodes: Map<u64, NodeModel>, a: u64, b: u64) -> bool {
    match (nodes[a].validator_candidate_since, nodes[b].validator_candidate_since) {
        (Some(first), Some(second)) => first < second || (first == second && a < b),
        _ => false,
    }
}

/// Of two candidates who wait for a seat, the one whose last epoch in the committee is earlier is
/// seated whenever the other one is, and of two with the same last epoch the one who has been a
/// candidate for longer.
pub proof fn longest_absent_are_seated_first(
    ledger: LedgerModel,
    candidates: Seq<u64>,
    a: u64,
    b: u64,
)
    requires
        candidates.no_duplicates(),
        ledger.consensus.active_validators.no_duplicates(),
        ledger.consensus.active_validators.len() <= seat_count(ledger),
        exists|id: u64| #[trigger] may_stay(ledger, candidates, id),
        candidates.contains(a),
        candidates.contains(b),
        !ledger.consensus.active_validators.contains(a),
        !ledger.consensus.active_validators.contains(b),
        last_sat(ledger.nodes[a]) < last_sat(ledger.nodes[b]) || (last_sat(ledger.nodes[a])
            == last_sat(ledger.nodes[b]) && longer_a_candidate(ledger.nodes, a, b)),
    ensures
        next_committee(ledger, candidates).contains(b) ==> next_committee(
            ledger,
            candidates,
        ).contains(a),
{
    let next = next_committee(ledger, candidates);
    if candidates.len() <= seat_count(ledger) {
        arranged_stay_unique::<u64>(candidates);
    } else if next.contains(b) {
        let (tenured, waiting, gone, come) = committee_parts(ledger, candidates);
        assert(waiting.contains(a) && waiting.contains(b));
        let i = choose|i: int| 0 <= i < waiting.len() && waiting[i] == a;
        if tenured.skip(gone).contains(b) {
            let k = choose|k: int| 0 <= k < tenured.skip(gone).len() && tenured.skip(gone)[k] == b;
            assert(tenured[k + gone] == b);
            assert(tenured.contains(b));
        }
        let j = choose|j: int| 0 <= j < waiting.take(come).len() && waiting.take(come)[j] == b;
        assert(waiting[j] == b);
        if j < i {
            assert(!Seat::precedes(
                seat_of(ledger.nodes, SeatOrder::Waiting, waiting[i]),
                seat_of(ledger.nodes, SeatOrder::Waiting, waiting[j]),
            ));
        }
        assert(waiting.take(come)[i] == a);
    }
}

/// Of two members of the committee who may stay, the one who has been sitting for more epochs keeps
/// the seat only if the other one does; of two who have been sitting for as long the one with the
/// higher number stays longer.
pub proof fn longest_sitting_leave_first(
    ledger: LedgerModel,
    candidates: Seq<u64>,
    a: u64,
    b: u64,
)
    requires
        candidates.no_duplicates(),
        ledger.consensus.active_validators.no_duplicates(),
        ledger.consensus.active_validators.len() <= seat_count(ledger),
        may_stay(ledger, candidates, a),
        may_stay(ledger, candidates, b),
        ledger.nodes[a].validator_consecutive_epochs < ledger.nodes[b].validator_consecutive_epochs
            || (ledger.nodes[a].validator_consecutive_epochs
            == ledger.nodes[b].validator_consecutive_epochs && a > b),
    ensures
        next_committee(ledger, candidates).contains(b) ==> next_committee(
            ledger,
            candidates,
        ).contains(a),
{
    let next = next_committee(ledger, candidates);
    if candidates.len() <= seat_count(ledger) {
        arranged_stay_unique::<u64>(candidates);
    } else if next.contains(b) {
        let (tenured, waiting, gone, come) = committee_parts(ledger, candidates);
        let part = tenured.skip(gone);
        assert(tenured.contains(a) && tenured.contains(b));
        let i = choose|i: int| 0 <= i < tenured.len() && tenured[i] == a;
        if waiting.take(come).contains(b) {
            let k = choose|k: int| 0 <= k < waiting.take(come).len() && waiting.take(come)[k] == b;
            assert(waiting[k] == b);
            assert(waiting.contains(b));
        }
        let j = choose|j: int| 0 <= j < part.len() && part[j] == b;
        assert(tenured[j + gone] == b);
        if i < j + gone {
            assert(!Seat::precedes(
                seat_of(ledger.nodes, SeatOrder::Tenure, tenured[j + gone]),
                seat_of(ledger.nodes, SeatOrder::Tenure, tenured[i]),
            ));
        }
        assert(part[i - gone] == a);
    }
}

/// Where nobody of the old committee may stay, of two candidates the one who has been a candidate for
/// longer is seated whenever the other one is, and every seat for which there is a candidate is
/// filled.
pub proof fn first_committee_is_by_candidacy(
    ledger: LedgerModel,
    candidates: Seq<u64>,
    a: u64,
    b: u64,
)
    requires
        candidates.no_duplicates(),
        forall|id: u64| !#[trigger] may_stay(ledger, candidates, id),
        candidates.contains(a),
        candidates.contains(b),
        longer_a_candidate(ledger.nodes, a, b),
    ensures
        next_committee(ledger, candidates).contains(b) ==> next_committee(
            ledger,
            candidates,
        ).contains(a),
        next_committee(ledger, candidates).len() == least(
            seat_count(ledger) as int,
            candidates.len() as int,
        ),
{
    let seats = seat_count(ledger);
    let active = ledger.consensus.active_validators;
    let among = |id: u64| candidates.contains(id);
    let next = next_committee(ledger, candidates);
    filtered_are_chosen(active, among);
    if candidates.len() <= seats {
        arranged_stay_unique::<u64>(candidates);
    } else {
        assert(active.filter(among).len() == 0) by {
            if active.filter(among).len() > 0 {
                let id = active.filter(among)[0];
                assert(active.filter(among).contains(id));
                assert(may_stay(ledger, candidates, id));
            }
        }
        let turns = in_turn(ledger.nodes, SeatOrder::Candidacy, candidates);
        turns_are_in_order(ledger.nodes, SeatOrder::Candidacy, candidates);
        let chosen = turns.take(seats as int);
        assert(chosen.no_duplicates());
        arranged_stay_unique::<u64>(chosen);
        assert(next == arranged::<u64>(chosen));
        assert(turns.contains(a));
        let i = choose|i: int| 0 <= i < turns.len() && turns[i] == a;
        if next.contains(b) {
            assert(chosen.contains(b));
            let j = choose|j: int| 0 <= j < chosen.len() && chosen[j] == b;
            assert(turns[j] == b);
            if j < i {
                assert(!Seat::precedes(
                    seat_of(ledger.nodes, SeatOrder::Candidacy, turns[i]),
                    seat_of(ledger.nodes, SeatOrder::Candidacy, turns[j]),
                ));
            }
            assert(chosen[i] == a);
        }
    }
}

/// No seat stays free while there is a candidate for it, and nobody sits twice or without being a
/// candidate: the committee has as many members as there are seats, or all candidates where they are
/// no more than the seats. As long as there are free seats everybody who may stay does.
pub proof fn committees_are_filled(ledger: LedgerModel, candidates: Seq<u64>)
    requires
        candidates.no_duplicates(),
        ledger.consensus.active_validators.no_duplicates(),
        ledger.consensus.active_validators.len() <= seat_count(ledger),
        exists|id: u64| #[trigger] may_stay(ledger, candidates, id),
    ensures
        next_committee(ledger, candidates).len() == least(
            seat_count(ledger) as int,
            candidates.len() as int,
        ),
        next_committee(ledger, candidates).no_duplicates(),
        forall|id: u64| #[trigger]
            next_committee(ledger, candidates).contains(id) ==> candidates.contains(id),
        candidates.len() <= seat_count(ledger) ==> forall|id: u64| #[trigger]
            candidates.contains(id) ==> next_committee(ledger, candidates).contains(id),
        ledger.consensus.active_validators.filter(|id: u64| candidates.contains(id)).len()
            < seat_count(ledger) ==> forall|id: u64| #[trigger]
            may_stay(ledger, candidates, id) ==> next_committee(ledger, candidates).contains(id),
{
    let active = ledger.consensus.active_validators;
    let next = next_committee(ledger, candidates);
    let among = |id: u64| candidates.contains(id);
    filtered_are_chosen(active, among);
    if candidates.len() <= seat_count(ledger) {
        arranged_stay_unique::<u64>(candidates);
        assert forall|id: u64| #[trigger] may_stay(ledger, candidates, id) implies next.contains(
            id,
        ) by {
            assert(candidates.contains(id));
        }
    } else {
        let (tenured, waiting, gone, come) = committee_parts(ledger, candidates);
        let staying = active.filter(among);
        let part = tenured.skip(gone);
        assert forall|id: u64| #[trigger] next.contains(id) implies candidates.contains(id) by {
            if part.contains(id) {
                let i = choose|i: int| 0 <= i < part.len() && part[i] == id;
                assert(tenured[i + gone] == id);
                assert(tenured.contains(id));
            } else {
                let i = choose|i: int|
                    0 <= i < waiting.take(come).len() && waiting.take(come)[i] == id;
                assert(waiting[i] == id);
                assert(waiting.contains(id));
            }
        }
        assert(tenured.len() == staying.len()) by {
            tenured.unique_seq_to_set();
            staying.unique_seq_to_set();
            assert forall|id: u64| tenured.to_set().contains(id) <==> staying.to_set().contains(
                id,
            ) by {
                assert(tenured.contains(id) <==> may_stay(ledger, candidates, id));
            }
            assert(tenured.to_set() =~= staying.to_set());
        }
        if staying.len() < seat_count(ledger) {
            assert forall|id: u64| #[trigger]
                may_stay(ledger, candidates, id) implies next.contains(id) by {
                assert(tenured.contains(id));
                let i = choose|i: int| 0 <= i < tenured.len() && tenured[i] == id;
                assert(part[i] == id);
            }
        }
    }
}

/// When a full committee rotates, exactly as many members leave as may rotate at once, or as wait where
/// fewer wait: the seats of the others stay theirs.
pub proof fn rotation_is_exact(ledger: LedgerModel, candidates: Seq<u64>)
    requires
        candidates.no_duplicates(),
        ledger.consensus.active_validators.no_duplicates(),
        ledger.consensus.active_validators.len() == seat_count(ledger),
        forall|i: int|
            0 <= i < ledger.consensus.active_validators.len() ==> candidates.contains(
                #[trigger] ledger.consensus.active_validators[i],
            ),
    ensures
        ledger.consensus.active_validators.to_set().intersect(
            next_committee(ledger, candidates).to_set(),
        ).len() == seat_count(ledger) - least(
            least(10, ledger.settings.max_validator_rotations as int),
            least(candidates.len() - seat_count(ledger), seat_count(ledger) as int),
        ),
{
    let active = ledger.consensus.active_validators;
    let seats = seat_count(ledger);
    let next = next_committee(ledger, candidates);
    let both = active.to_set().intersect(next.to_set());
    assert(candidates.contains(active[0]) && active.contains(active[0]));
    assert(may_stay(ledger, candidates, active[0]));
    active.unique_seq_to_set();
    candidates.unique_seq_to_set();
    assert(active.to_set().subset_of(candidates.to_set())) by {
        assert forall|id: u64| active.to_set().contains(id) implies candidates.to_set().contains(
            id,
        ) by {
            let i = choose|i: int| 0 <= i < active.len() && active[i] == id;
            assert(candidates.contains(active[i]));
        }
    }
    vstd::set_lib::lemma_len_subset(active.to_set(), candidates.to_set());
    if candidates.len() <= seats {
        arranged_stay_unique::<u64>(candidates);
        assert(both =~= active.to_set()) by {
            assert forall|id: u64| active.to_set().contains(id) implies both.contains(id) by {
                assert(candidates.to_set().contains(id));
                assert(next.contains(id));
            }
        }
    } else {
        let (tenured, waiting, gone, come) = committee_parts(ledger, candidates);
        let part = tenured.skip(gone);
        tenured.unique_seq_to_set();
        assert(tenured.to_set() =~= active.to_set()) by {
            assert forall|id: u64| tenured.to_set().contains(id) <==> active.to_set().contains(
                id,
            ) by {
                assert(tenured.contains(id) <==> may_stay(ledger, candidates, id));
                if active.contains(id) {
                    assert(candidates.to_set().contains(id));
                }
            }
        }
        assert(part.no_duplicates());
        part.unique_seq_to_set();
        assert(both =~= part.to_set()) by {
            assert forall|id: u64| both.contains(id) <==> part.to_set().contains(id) by {
                if part.contains(id) {
                    let i = choose|i: int| 0 <= i < part.len() && part[i] == id;
                    assert(tenured[i + gone] == id);
                    assert(tenured.to_set().contains(id));
                    assert(next.contains(id));
                } else if both.contains(id) {
                    assert(next.contains(id));
                    let i = choose|i: int|
                        0 <= i < waiting.take(come).len() && waiting.take(come)[i] == id;
                    assert(waiting[i] == id);
                    assert(waiting.contains(id));
                }
            }
        }
    }
}

/// A selection that is due seats the next committee from the nodes that may sit, and from then on the
/// nodes tell who sits: a member is marked and its last epoch is this one, it counts one more epoch in
/// a row if it sat before and begins with one if it did not; whoever does not sit is not marked and
/// begins anew. Voting begins anew too. The committee is due when there is none, when its term is over,
/// or when one of its members may no longer sit.
pub proof fn selected_members_take_their_seats(ledger: LedgerModel, now: i64, node_id: u64)
    requires
        ledger.nodes.contains_key(node_id),
        ledger.consensus.active_validators.len() == 0 || ledger.consensus.last_selection_epoch
            is None || (ledger.consensus.last_selection_epoch matches Some(last)
            && ledger.epoch_number - last >= ledger.settings.validator_rotation_interval_epochs
            && ledger.epoch_number - last >= 1) || exists|id: u64|
            ledger.consensus.active_validators.contains(id) && !#[trigger] candidate_ids(
                ledger,
                now,
            ).contains(id),
    ensures
        ({
            let after = committee_refreshed(ledger, now);
            let members = after.consensus.active_validators;
            let sat = ledger.consensus.active_validators.contains(node_id);
            let before = ledger.nodes[node_id];
            let node = after.nodes[node_id];
            &&& members == next_committee(ledger, candidate_ids(ledger, now))
            &&& after.consensus.last_selection_epoch == Some(ledger.epoch_number)
            &&& after.consensus.round == 0
            &&& after.consensus.proposal is None
            &&& after.consensus.prevotes.dom() == Set::<u64>::empty()
            &&& after.consensus.precommits.dom() == Set::<u64>::empty()
            &&& node.validator == members.contains(node_id)
            &&& members.contains(node_id) ==> node.validator_last_epoch == Some(
                ledger.epoch_number,
            )
            &&& members.contains(node_id) && !sat ==> node.validator_consecutive_epochs == 1
            &&& members.contains(node_id) && sat && before.validator_consecutive_epochs < u64::MAX
                ==> node.validator_consecutive_epochs == before.validator_consecutive_epochs + 1
            &&& !members.contains(node_id) ==> node.validator_consecutive_epochs == 0
                && node.validator_last_epoch == before.validator_last_epoch
        }),
{
    reveal(committee_refreshed);
    candidates_ignore_the_fallback(ledger, now);
    let active = ledger.consensus.active_validators;
    let candidates = candidate_ids(ledger, now);
    if exists|id: u64| active.contains(id) && !#[trigger] candidates.contains(id) {
        let id = choose|id: u64| active.contains(id) && !#[trigger] candidates.contains(id);
        let i = choose|i: int| 0 <= i < active.len() && active[i] == id;
        assert(!candidates.contains(active[i]));
    }
}

/// Whoever may sit in the committee counts in governance, has the validators' bond in place, has asked
/// for a seat and has not asked to leave; and every such node may sit.
pub proof fn candidates_are_bonded_and_willing(ledger: LedgerModel, now: i64, node_id: u64)
    requires
        ledger.nodes.dom().finite(),
    ensures
        candidate_ids(ledger, now).no_duplicates(),
        candidate_ids(ledger, now).contains(node_id) <==> {
            &&& crate::nodes::governance_eligible(ledger, node_id, now)
            &&& ledger.settings.validator_bond <= ledger.nodes[node_id].validator_bond
            &&& ledger.nodes[node_id].validator_candidate_since is Some
            &&& ledger.nodes[node_id].validator_exit_requested_at is None
        },
{
    crate::table::ordered_lists_all::<u64>(ledger.nodes.dom());
    let chosen = |id: u64| is_candidate(ledger, id, now);
    let counting = |id: u64| crate::nodes::governance_eligible(ledger, id, now);
    filtered_are_chosen(node_ids(ledger), chosen);
    filtered_are_chosen(node_ids(ledger), counting);
    assert(node_ids(ledger).contains(node_id) <==> ledger.nodes.contains_key(node_id));
}

} // verus!
