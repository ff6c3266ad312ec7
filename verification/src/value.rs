use vstd::prelude::*;

use crate::accounts::{
    account_of, balance_of, credited, debited, history_added, key_bound, paid_to, with_account,
};
use crate::attestation::{attestation_applied, attestation_read, later};
use crate::bonds::{
    bond_paid_out, owned_node, validator_bond_added, with_node, without_governance_bond,
    without_service_bond, without_validator_bond,
};
use crate::candidates::{operation_applied, route_of, Route};
use crate::committee::{committee_refreshed, refresh_keeps_balances};
use crate::envelope::{made_at, signer_prepared};
use crate::epochs::{current_context_ensured, epoch_turned, epochs_advanced, epochs_turned};
use crate::execution::block_ended;
use crate::fees::envelope_checked;
use crate::governance::{
    action_applied, direct_action_applied, emission_paused, emission_resumed, genesis_fixed,
};
use crate::lifecycle::{
    draining_ids, exit_pays_treasury, node_exited, node_slashed, nodes_exited, nodes_slashed,
    offline_ids, offline_settled, slash_pays_treasury,
};
use crate::model::{
    AccountModel, AuthorizationModel, CheckpointModel, ContextModel, FieldModel, GovernanceModel,
    GovernanceProposalStatus, LedgerModel, NetworkModel, NodeModel, ProposalActionModel,
    ProposalModel, ReceiptModel, RewardVestingBucket, SignedModel, SpendModel,
};
use crate::network_operations::network_step;
use crate::networks::{
    expired_reclaimed, expired_total, member_reserved, network_created, reclaimed_from,
    with_network,
};
use crate::node_operations::{node_step, registry_step, settlement_read, stake_step};
use crate::nodes::{heartbeats_reset, node_ids};
use crate::number::{clamped_u128, least};
use crate::operations::{
    cancellable_ids, fee_charged, idle_voting_reset, named_network, operation_finalized, payer_of,
    proposal_cancelled, proposals_cancelled, starved_proposals_cancelled, with_proposal, PayerModel,
};
use crate::payload::{required_amount, required_text, required_u64, PayloadModel};
use crate::proposals::{
    bond_forfeited, draft_read, governance_action_applied, proposal_counted, proposal_created,
    proposal_executed, proposal_marked_executed, required_action, veto_cast,
};
use crate::protocol::{initial_ledger, GOVERNANCE_PROPOSAL_BOND};
use crate::registration::{
    entry_read, node_entered, node_registered, registrant_checked, reward_account_read,
    reward_ip_updated,
};
use crate::rewards::{
    allocation_uses_whole_budget, budget_allocated, eligible_seconds, epoch_forgotten,
    epoch_settled, epochs_settled, final_epochs, reward_is_paid_in_full, reward_paid,
    rewards_matured, rewards_paid, rewards_total, shared, slots_without, weighed, weight_bps,
    weights_total, Allocation, Weight,
};
use crate::sequence::{arranged, arranged_all};
use crate::sessions::{authorization_made, session_limit, session_read, session_reserved};
use crate::table::{ordered, ordered_lists_all};
use crate::traffic::{
    amounts_due, authorization_settled, escrow_released, released_amount, traffic_settled,
};
use crate::transfers::{transfer_applied, transfer_read, transfer_submitted};
use crate::treasury::spends_stay_within_limits;
use crate::vesting::{buckets_total, settling_moves_matured_rewards, vesting_settled};

verus! {

/// What the entries of a table are worth together.
pub open spec fn total<A, W>(table: Map<A, W>, worth: spec_fn(W) -> int) -> int
    decreases table.dom().len(),
{
    if table.dom().finite() && table.dom().len() > 0 {
        let key = table.dom().choose();
        worth(table[key]) + total(table.remove(key), worth)
    } else {
        0
    }
}

proof fn total_splits<A, W>(table: Map<A, W>, worth: spec_fn(W) -> int, key: A)
    requires
        table.dom().finite(),
        table.contains_key(key),
    ensures
        total(table, worth) == worth(table[key]) + total(table.remove(key), worth),
    decreases table.dom().len(),
{
    let other = table.dom().choose();
    assert(table.dom().contains(other));
    if other != key {
        let without = table.remove(other);
        total_splits(without, worth, key);
        total_splits(table.remove(key), worth, other);
        assert(without.remove(key) =~= table.remove(key).remove(other));
    }
}

/// What an entry is worth, where there is one.
pub open spec fn worth_at<A, W>(table: Map<A, W>, worth: spec_fn(W) -> int, key: A) -> int {
    if table.contains_key(key) {
        worth(table[key])
    } else {
        0
    }
}

proof fn total_changes<A, W>(table: Map<A, W>, worth: spec_fn(W) -> int, key: A, value: W)
    requires
        table.dom().finite(),
    ensures
        total(table.insert(key, value), worth) == total(table, worth) - worth_at(
            table,
            worth,
            key,
        ) + worth(value),
        table.insert(key, value).dom().finite(),
{
    let next = table.insert(key, value);
    total_splits(next, worth, key);
    if table.contains_key(key) {
        total_splits(table, worth, key);
        assert(next.remove(key) =~= table.remove(key));
    } else {
        assert(next.remove(key) =~= table);
    }
}

proof fn total_covers<A, W>(table: Map<A, W>, worth: spec_fn(W) -> int, key: A)
    requires
        table.dom().finite(),
        forall|value: W| #[trigger] worth(value) >= 0,
    ensures
        0 <= worth_at(table, worth, key) <= total(table, worth),
    decreases table.dom().len(),
{
    if table.dom().len() > 0 {
        let other = table.dom().choose();
        assert(table.dom().contains(other));
        if table.contains_key(key) {
            total_splits(table, worth, key);
            if table.remove(key).dom().len() > 0 {
                total_covers(table.remove(key), worth, key);
            }
        } else {
            total_covers(table.remove(other), worth, key);
        }
    } else {
        assert(!table.dom().contains(key));
    }
}

proof fn total_agrees<A, W>(first: Map<A, W>, second: Map<A, W>, worth: spec_fn(W) -> int)
    requires
        first.dom().finite(),
        first.dom() == second.dom(),
        forall|key: A| #[trigger]
            first.contains_key(key) ==> worth(first[key]) == worth(second[key]),
    ensures
        total(first, worth) == total(second, worth),
    decreases first.dom().len(),
{
    if first.dom().len() > 0 {
        let key = first.dom().choose();
        assert(first.dom().contains(key));
        let rest = first.remove(key);
        assert forall|other: A| #[trigger] rest.contains_key(other) implies worth(rest[other])
            == worth(second.remove(key)[other]) by {
            assert(first.contains_key(other));
        }
        assert(rest.dom() =~= second.remove(key).dom());
        total_agrees(rest, second.remove(key), worth);
    }
}

/// The balance of an account.
pub open spec fn account_worth() -> spec_fn(AccountModel) -> int {
    |account: AccountModel| account.balance as int
}

/// The fund of a network.
pub open spec fn network_worth() -> spec_fn(NetworkModel) -> int {
    |network: NetworkModel| network.escrow_balance as int
}

/// The bonds of a node and its rewards, those that it can claim and those that still vest.
pub open spec fn node_worth() -> spec_fn(NodeModel) -> int {
    |node: NodeModel|
        node.service_bond + node.governance_bond + node.validator_bond + node.claimable_reward
            + buckets_total(node.reward_vesting_buckets)
}

/// What is left of a reservation.
pub open spec fn authorization_worth() -> spec_fn(AuthorizationModel) -> int {
    |authorization: AuthorizationModel| authorization.reserved_remaining as int
}

/// The bond of a proposal.
pub open spec fn proposal_worth() -> spec_fn(ProposalModel) -> int {
    |proposal: ProposalModel| proposal.proposal_bond as int
}

/// All that accounts, networks, nodes, reservations, proposals and the treasury hold, with what has
/// been burned.
pub open spec fn holdings(ledger: LedgerModel) -> int {
    ledger.treasury + ledger.burned + total(ledger.accounts, account_worth()) + total(
        ledger.networks,
        network_worth(),
    ) + total(ledger.nodes, node_worth()) + total(
        ledger.payment_authorizations,
        authorization_worth(),
    ) + total(ledger.governance.proposals, proposal_worth())
}

/// Whether the tables of a ledger are finite.
pub open spec fn is_finite(ledger: LedgerModel) -> bool {
    &&& ledger.accounts.dom().finite()
    &&& ledger.networks.dom().finite()
    &&& ledger.nodes.dom().finite()
    &&& ledger.payment_authorizations.dom().finite()
    &&& ledger.governance.proposals.dom().finite()
}

/// Whether a ledger holds what another holds.
pub open spec fn conserves(before: LedgerModel, after: LedgerModel) -> bool {
    is_finite(after) && holdings(after) == holdings(before)
}

proof fn account_changes(ledger: LedgerModel, address: Seq<char>, account: AccountModel)
    requires
        is_finite(ledger),
    ensures
        is_finite(with_account(ledger, address, account)),
        holdings(with_account(ledger, address, account)) == holdings(ledger) - balance_of(
            ledger,
            address,
        ) + account.balance,
{
    total_changes(ledger.accounts, account_worth(), address, account);
}

proof fn network_changes(ledger: LedgerModel, commitment: Seq<char>, network: NetworkModel)
    requires
        is_finite(ledger),
    ensures
        is_finite(with_network(ledger, commitment, network)),
        holdings(with_network(ledger, commitment, network)) == holdings(ledger) - worth_at(
            ledger.networks,
            network_worth(),
            commitment,
        ) + network.escrow_balance,
{
    total_changes(ledger.networks, network_worth(), commitment, network);
}

proof fn node_changes(ledger: LedgerModel, node_id: u64, node: NodeModel)
    requires
        is_finite(ledger),
    ensures
        is_finite(with_node(ledger, node_id, node)),
        holdings(with_node(ledger, node_id, node)) == holdings(ledger) - worth_at(
            ledger.nodes,
            node_worth(),
            node_id,
        ) + node_worth()(node),
{
    total_changes(ledger.nodes, node_worth(), node_id, node);
}

/// The ledger with another state of one reservation.
spec fn with_authorization(
    ledger: LedgerModel,
    id: Seq<char>,
    authorization: AuthorizationModel,
) -> LedgerModel {
    LedgerModel {
        payment_authorizations: ledger.payment_authorizations.insert(id, authorization),
        ..ledger
    }
}

proof fn authorization_changes(
    ledger: LedgerModel,
    id: Seq<char>,
    authorization: AuthorizationModel,
)
    requires
        is_finite(ledger),
    ensures
        is_finite(with_authorization(ledger, id, authorization)),
        holdings(with_authorization(ledger, id, authorization)) == holdings(ledger) - worth_at(
            ledger.payment_authorizations,
            authorization_worth(),
            id,
        ) + authorization.reserved_remaining,
{
    total_changes(ledger.payment_authorizations, authorization_worth(), id, authorization);
}

proof fn proposal_changes(ledger: LedgerModel, proposal_id: u64, proposal: ProposalModel)
    requires
        is_finite(ledger),
    ensures
        is_finite(with_proposal(ledger, proposal_id, proposal)),
        holdings(with_proposal(ledger, proposal_id, proposal)) == holdings(ledger) - worth_at(
            ledger.governance.proposals,
            proposal_worth(),
            proposal_id,
        ) + proposal.proposal_bond,
{
    total_changes(ledger.governance.proposals, proposal_worth(), proposal_id, proposal);
}

proof fn parts_are_covered(ledger: LedgerModel, address: Seq<char>)
    requires
        is_finite(ledger),
    ensures
        balance_of(ledger, address) <= holdings(ledger),
{
    total_covers(ledger.accounts, account_worth(), address);
    total_covers(ledger.networks, network_worth(), address);
    total_covers(ledger.nodes, node_worth(), 0);
    total_covers(ledger.payment_authorizations, authorization_worth(), address);
    total_covers(ledger.governance.proposals, proposal_worth(), 0);
}

proof fn crediting_adds(ledger: LedgerModel, address: Seq<char>, amount: u128)
    requires
        is_finite(ledger),
        holdings(ledger) + amount <= u128::MAX,
    ensures
        is_finite(credited(ledger, address, amount)),
        holdings(credited(ledger, address, amount)) == holdings(ledger) + amount,
{
    parts_are_covered(ledger, address);
    account_changes(
        ledger,
        address,
        AccountModel {
            balance: clamped_u128(balance_of(ledger, address) + amount),
            ..account_of(ledger, address)
        },
    );
}

proof fn debiting_takes(ledger: LedgerModel, address: Seq<char>, amount: u128)
    requires
        is_finite(ledger),
        balance_of(ledger, address) >= amount,
    ensures
        is_finite(debited(ledger, address, amount)),
        holdings(debited(ledger, address, amount)) == holdings(ledger) - amount,
{
    account_changes(
        ledger,
        address,
        AccountModel {
            balance: (balance_of(ledger, address) - amount) as u128,
            ..account_of(ledger, address)
        },
    );
}

proof fn noting_conserves(ledger: LedgerModel, address: Seq<char>, operation_id: Seq<char>)
    requires
        is_finite(ledger),
    ensures
        conserves(ledger, history_added(ledger, address, operation_id)),
{
    let account = account_of(ledger, address);
    account_changes(
        ledger,
        address,
        AccountModel {
            operation_ids: if account.operation_ids.contains(operation_id) {
                account.operation_ids
            } else {
                account.operation_ids.push(operation_id)
            },
            ..account
        },
    );
}

proof fn binding_conserves(ledger: LedgerModel, address: Seq<char>, public_key: Seq<char>)
    requires
        is_finite(ledger),
        key_bound(ledger, address, public_key) is Ok,
    ensures
        conserves(ledger, key_bound(ledger, address, public_key)->Ok_0),
{
    let account = account_of(ledger, address);
    account_changes(ledger, address, account);
    account_changes(ledger, address, AccountModel { public_key: Some(public_key), ..account });
}

proof fn cancelling_conserves(ledger: LedgerModel, ids: Seq<u64>, now: i64)
    requires
        is_finite(ledger),
        holdings(ledger) <= u128::MAX,
    ensures
        conserves(ledger, proposals_cancelled(ledger, ids, now)),
    decreases ids.len(),
{
    if ids.len() > 0 {
        let id = ids[0];
        let next = proposal_cancelled(ledger, id, now);
        if ledger.governance.proposals.contains_key(id) {
            let proposal = ledger.governance.proposals[id];
            let closed = ProposalModel {
                status: GovernanceProposalStatus::Cancelled,
                finalized_at: Some(now),
                proposal_bond: 0,
                ..proposal
            };
            proposal_changes(ledger, id, closed);
            crediting_adds(
                with_proposal(ledger, id, closed),
                proposal.proposer_reward_address,
                proposal.proposal_bond,
            );
        }
        cancelling_conserves(next, ids.drop_first(), now);
    }
}

proof fn fees_conserve(ledger: LedgerModel, operation: SignedModel)
    requires
        is_finite(ledger),
        fee_charged(ledger, operation) is Ok,
    ensures
        conserves(ledger, fee_charged(ledger, operation)->Ok_0.0),
{
    let quote = envelope_checked(
        ledger,
        operation.unsigned,
        operation.intake.fee_units,
    )->Ok_0;
    if quote.fee != 0 {
        match payer_of(ledger, operation)->Ok_0 {
            PayerModel::Account(address) => {
                account_changes(
                    ledger,
                    address,
                    AccountModel {
                        balance: (ledger.accounts[address].balance - quote.fee) as u128,
                        ..ledger.accounts[address]
                    },
                );
            },
            PayerModel::NetworkEscrow(commitment) => {
                network_changes(
                    ledger,
                    commitment,
                    NetworkModel {
                        escrow_balance: (ledger.networks[commitment].escrow_balance
                            - quote.fee) as u128,
                        ..ledger.networks[commitment]
                    },
                );
            },
        }
    }
}

proof fn queueing_conserves(
    ledger: LedgerModel,
    operation: SignedModel,
    operation_id: Seq<char>,
    now: i64,
)
    requires
        is_finite(ledger),
        holdings(ledger) <= u128::MAX,
        operation_finalized(ledger, operation, operation_id, now) is Ok,
    ensures
        conserves(ledger, operation_finalized(ledger, operation, operation_id, now)->Ok_0),
{
    reveal(operation_finalized);
    let reset = idle_voting_reset(ledger, now);
    cancelling_conserves(reset, cancellable_ids(reset, now), now);
    let tidied = starved_proposals_cancelled(reset, now);
    fees_conserve(tidied, operation);
    let charged = fee_charged(tidied, operation)->Ok_0.0;
    let account = charged.accounts[operation.unsigned.signer];
    account_changes(
        charged,
        operation.unsigned.signer,
        AccountModel {
            nonce: operation.unsigned.account_nonce,
            operation_ids: account.operation_ids.push(operation_id),
            ..account
        },
    );
}

proof fn preparing_conserves(
    ledger: LedgerModel,
    public_key: Seq<char>,
    operation: SignedModel,
    refusal: Seq<char>,
)
    requires
        is_finite(ledger),
        signer_prepared(ledger, public_key, operation, refusal) is Ok,
    ensures
        conserves(ledger, signer_prepared(ledger, public_key, operation, refusal)->Ok_0),
{
    binding_conserves(ledger, operation.unsigned.signer, public_key);
}

proof fn paying_adds(ledger: LedgerModel, address: Seq<char>, amount: u128, refusal: Seq<char>)
    requires
        is_finite(ledger),
        holdings(ledger) + amount <= u128::MAX,
    ensures
        paid_to(ledger, address, amount, refusal) matches Ok(next) ==> is_finite(next)
            && holdings(next) == holdings(ledger) + amount,
{
    crediting_adds(ledger, address, amount);
}

proof fn transfers_conserve(
    ledger: LedgerModel,
    public_key: Seq<char>,
    operation: SignedModel,
    now: i64,
)
    requires
        is_finite(ledger),
        holdings(ledger) <= u128::MAX,
        transfer_submitted(ledger, public_key, operation, now) is Ok,
    ensures
        conserves(ledger, transfer_submitted(ledger, public_key, operation, now)->Ok_0.0),
{
    let id = operation.intake.operation_id;
    let signer = operation.unsigned.signer;
    let refusal = "operation nonce is not the next account nonce"@;
    if !ledger.operations.contains_key(id) {
        let (to, amount) = transfer_read(public_key, operation, now)->Ok_0;
        let price = envelope_checked(ledger, operation.unsigned, operation.intake.fee_units)->Ok_0;
        preparing_conserves(ledger, public_key, operation, refusal);
        let prepared = signer_prepared(ledger, public_key, operation, refusal)->Ok_0;
        debiting_takes(prepared, signer, amount);
        paying_adds(debited(prepared, signer, amount), to, amount, "recipient balance overflow"@);
        let moved = transfer_applied(
            ledger,
            public_key,
            operation,
            to,
            amount,
            (amount + price.fee) as u128,
        )->Ok_0;
        queueing_conserves(moved, operation, id, made_at(operation));
        let queued = operation_finalized(moved, operation, id, made_at(operation))->Ok_0;
        noting_conserves(queued, to, id);
    }
}

/// What some keys of a table are worth together.
spec fn keys_total<A, W>(table: Map<A, W>, worth: spec_fn(W) -> int, keys: Seq<A>) -> int
    decreases keys.len(),
{
    if keys.len() == 0 {
        0
    } else {
        keys_total(table, worth, keys.drop_last()) + worth(table[keys.last()])
    }
}

proof fn keys_ignore_others<A, W>(
    table: Map<A, W>,
    worth: spec_fn(W) -> int,
    keys: Seq<A>,
    key: A,
)
    requires
        !keys.contains(key),
    ensures
        keys_total(table.remove(key), worth, keys) == keys_total(table, worth, keys),
    decreases keys.len(),
{
    if keys.len() > 0 {
        assert(keys.contains(keys.last()));
        assert forall|i: int| 0 <= i < keys.drop_last().len() implies keys.drop_last()[i] != key by {
            assert(keys.contains(keys[i]));
        }
        keys_ignore_others(table, worth, keys.drop_last(), key);
    }
}

proof fn keys_cover<A, W>(table: Map<A, W>, worth: spec_fn(W) -> int, keys: Seq<A>)
    requires
        table.dom().finite(),
        keys.no_duplicates(),
        keys.to_set() == table.dom(),
    ensures
        keys_total(table, worth, keys) == total(table, worth),
    decreases keys.len(),
{
    if keys.len() == 0 {
        assert(table.dom() =~= Set::empty());
    } else {
        let last = keys.last();
        let rest = keys.drop_last();
        assert(keys.to_set().contains(last));
        total_splits(table, worth, last);
        assert(rest.to_set() =~= table.remove(last).dom()) by {
            assert forall|key: A| rest.to_set().contains(key) implies table.remove(
                last,
            ).dom().contains(key) by {
                let i = choose|i: int| 0 <= i < rest.len() && rest[i] == key;
                assert(keys[i] == key);
                assert(keys.to_set().contains(key));
            }
            assert forall|key: A| table.remove(last).dom().contains(key) implies rest.to_set().contains(
                key,
            ) by {
                assert(keys.to_set().contains(key));
                let i = choose|i: int| 0 <= i < keys.len() && keys[i] == key;
                assert(rest[i] == key);
            }
        }
        keys_cover(table.remove(last), worth, rest);
        assert(!rest.contains(last)) by {
            if rest.contains(last) {
                let i = choose|i: int| 0 <= i < rest.len() && rest[i] == last;
                assert(keys[i] == keys[keys.len() - 1]);
            }
        }
        keys_ignore_others(table, worth, rest, last);
    }
}

proof fn expired_are_counted(
    authorizations: Map<Seq<char>, AuthorizationModel>,
    ids: Seq<Seq<char>>,
    commitment: Seq<char>,
    at: i64,
)
    requires
        forall|i: int| 0 <= i < ids.len() ==> authorizations.contains_key(#[trigger] ids[i]),
    ensures
        keys_total(
            authorizations.map_values(
                |authorization: AuthorizationModel| reclaimed_from(authorization, commitment, at),
            ),
            authorization_worth(),
            ids,
        ) + expired_total(authorizations, ids, commitment, at) == keys_total(
            authorizations,
            authorization_worth(),
            ids,
        ),
    decreases ids.len(),
{
    if ids.len() > 0 {
        let rest = ids.drop_last();
        assert forall|i: int| 0 <= i < rest.len() implies authorizations.contains_key(
            #[trigger] rest[i],
        ) by {
            assert(rest[i] == ids[i]);
        }
        expired_are_counted(authorizations, rest, commitment, at);
        assert(authorizations.contains_key(ids[ids.len() - 1]));
    }
}

proof fn reclaiming_conserves(ledger: LedgerModel, commitment: Seq<char>, at: i64)
    requires
        is_finite(ledger),
        ledger.networks.contains_key(commitment),
        expired_reclaimed(ledger, commitment, at) is Ok,
    ensures
        conserves(ledger, expired_reclaimed(ledger, commitment, at)->Ok_0),
{
    let authorizations = ledger.payment_authorizations;
    let reclaimed = authorizations.map_values(
        |authorization: AuthorizationModel| reclaimed_from(authorization, commitment, at),
    );
    let ids = ordered::<String>(authorizations.dom());
    ordered_lists_all::<String>(authorizations.dom());
    assert(reclaimed.dom() =~= authorizations.dom());
    assert(ids.to_set() =~= authorizations.dom()) by {
        assert forall|id: Seq<char>| ids.to_set().contains(id) == authorizations.dom().contains(
            id,
        ) by {
            assert(ids.to_set().contains(id) == ids.contains(id));
        }
    }
    assert forall|i: int| 0 <= i < ids.len() implies authorizations.contains_key(
        #[trigger] ids[i],
    ) by {
        assert(ids.to_set().contains(ids[i]));
    }
    keys_cover(authorizations, authorization_worth(), ids);
    keys_cover(reclaimed, authorization_worth(), ids);
    expired_are_counted(authorizations, ids, commitment, at);
    let given = expired_total(authorizations, ids, commitment, at);
    let noted = LedgerModel { payment_authorizations: reclaimed, ..ledger };
    network_changes(
        noted,
        commitment,
        NetworkModel {
            escrow_balance: (ledger.networks[commitment].escrow_balance + given) as u128,
            ..ledger.networks[commitment]
        },
    );
}

/// Whether an operation founds a network that is there already, with the fund that it has.
pub open spec fn founds_again(ledger: LedgerModel, operation: SignedModel) -> bool {
    operation.unsigned.module == "NetworkRegistry"@ && operation.unsigned.action
        == "CreateNetwork"@ && operation.unsigned.payload.contains_key("network_commitment"@)
        && (operation.unsigned.payload["network_commitment"@] matches FieldModel::Text(name)
        && ledger.networks.contains_key(name))
}

proof fn reserving_conserves(
    ledger: LedgerModel,
    payload: PayloadModel,
    signer: Seq<char>,
    public_key: Seq<char>,
    operation_id: Seq<char>,
    at: i64,
)
    requires
        is_finite(ledger),
        !ledger.payment_authorizations.contains_key(operation_id),
        session_reserved(ledger, payload, signer, public_key, operation_id, at) is Ok,
    ensures
        conserves(
            ledger,
            session_reserved(ledger, payload, signer, public_key, operation_id, at)->Ok_0.0,
        ),
{
    let commitment = named_network(ledger, payload)->Ok_0;
    reclaiming_conserves(ledger, commitment, at);
    let reclaimed = expired_reclaimed(ledger, commitment, at)->Ok_0;
    let session = session_read(reclaimed, payload)->Ok_0;
    let reserved = member_reserved(reclaimed, commitment, session.sender)->Ok_0;
    let network = reclaimed.networks[commitment];
    let amount = session_limit(network, session, reserved);
    let record = authorization_made(reclaimed, commitment, session, amount, operation_id, at);
    let paid = NetworkModel {
        escrow_balance: (network.escrow_balance - amount) as u128,
        ..network
    };
    network_changes(reclaimed, commitment, paid);
    authorization_changes(with_network(reclaimed, commitment, paid), operation_id, record);
}

proof fn network_steps_conserve(
    ledger: LedgerModel,
    public_key: Seq<char>,
    operation: SignedModel,
)
    requires
        is_finite(ledger),
        !founds_again(ledger, operation),
        !ledger.payment_authorizations.contains_key(operation.intake.operation_id),
        network_step(ledger, public_key, operation) is Ok,
    ensures
        conserves(ledger, network_step(ledger, public_key, operation)->Ok_0.0),
{
    reveal(network_step);
    let module = operation.unsigned.module;
    let action = operation.unsigned.action;
    let payload = operation.unsigned.payload;
    let signer = operation.unsigned.signer;
    let id = operation.intake.operation_id;
    let at = made_at(operation);
    let next = network_step(ledger, public_key, operation)->Ok_0.0;
    if module == "NetworkRegistry"@ && action == "CreateNetwork"@ {
        let reply = network_created(ledger, payload, signer, public_key, at)->Ok_0.1;
        let network = reply->Created_0;
        network_changes(ledger, network.commitment, network);
    } else if module == "NetworkEscrow"@ && action == "FundNetwork"@ {
        let commitment = named_network(ledger, payload)->Ok_0;
        let amount = required_amount(payload, "amount_base_units"@)->Ok_0;
        debiting_takes(ledger, signer, amount);
        network_changes(
            debited(ledger, signer, amount),
            commitment,
            next.networks[commitment],
        );
    } else if module == "NetworkEscrow"@ && action == "SetSpendingPolicy"@ {
        let commitment = named_network(ledger, payload)->Ok_0;
        network_changes(ledger, commitment, next.networks[commitment]);
    } else if module == "TrafficPayment"@ && action == "ReserveSession"@ {
        reserving_conserves(ledger, payload, signer, public_key, id, at);
    } else if module == "TrafficPayment"@ && action == "Refund"@ {
        let named = required_text(payload, "authorization_id"@)->Ok_0;
        let commitment = ledger.payment_authorizations[named].network_commitment;
        network_changes(ledger, commitment, next.networks[commitment]);
        authorization_changes(
            with_network(ledger, commitment, next.networks[commitment]),
            named,
            next.payment_authorizations[named],
        );
    } else {
        let commitment = named_network(ledger, payload)->Ok_0;
        network_changes(ledger, commitment, next.networks[commitment]);
    }
}

proof fn refreshing_conserves(ledger: LedgerModel, now: i64)
    requires
        is_finite(ledger),
    ensures
        conserves(ledger, committee_refreshed(ledger, now)),
{
    refresh_keeps_balances(ledger, now);
    reveal(committee_refreshed);
    let after = committee_refreshed(ledger, now);
    assert(after.nodes.dom() =~= ledger.nodes.dom());
    assert forall|id: u64| #[trigger] ledger.nodes.contains_key(id) implies node_worth()(
        ledger.nodes[id],
    ) == node_worth()(after.nodes[id]) by {}
    total_agrees(ledger.nodes, after.nodes, node_worth());
}

/// Whether an operation registers a node under a number that is taken.
pub open spec fn registers_again(ledger: LedgerModel) -> bool {
    ledger.nodes.contains_key(ledger.next_node_id)
}

proof fn payouts_conserve(ledger: LedgerModel, node_id: u64, cleared: NodeModel, amount: u128)
    requires
        is_finite(ledger),
        holdings(ledger) <= u128::MAX,
        ledger.nodes.contains_key(node_id),
        node_worth()(cleared) + amount == node_worth()(ledger.nodes[node_id]),
    ensures
        bond_paid_out(ledger, node_id, cleared, amount) matches Ok(next) ==> conserves(ledger, next),
{
    node_changes(ledger, node_id, cleared);
    paying_adds(
        with_node(ledger, node_id, cleared),
        cleared.reward_address,
        amount,
        "Reward account balance overflow"@,
    );
}

proof fn noted_payouts_conserve(
    ledger: LedgerModel,
    node_id: u64,
    cleared: NodeModel,
    amount: u128,
    address: Seq<char>,
    operation_id: Seq<char>,
)
    requires
        is_finite(ledger),
        holdings(ledger) <= u128::MAX,
        ledger.nodes.contains_key(node_id),
        node_worth()(cleared) + amount == node_worth()(ledger.nodes[node_id]),
    ensures
        bond_paid_out(ledger, node_id, cleared, amount) matches Ok(next) ==> conserves(
            ledger,
            history_added(next, address, operation_id),
        ),
{
    payouts_conserve(ledger, node_id, cleared, amount);
    if let Ok(next) = bond_paid_out(ledger, node_id, cleared, amount) {
        noting_conserves(next, address, operation_id);
    }
}

proof fn registering_conserves(
    ledger: LedgerModel,
    payload: PayloadModel,
    signer: Seq<char>,
    public_key: Seq<char>,
    made_at: i64,
    now: i64,
)
    requires
        is_finite(ledger),
        !registers_again(ledger),
        node_registered(ledger, payload, signer, public_key, made_at, now) is Ok,
    ensures
        conserves(
            ledger,
            node_registered(ledger, payload, signer, public_key, made_at, now)->Ok_0,
        ),
{
    reveal(node_registered);
    let node_id = registrant_checked(ledger, payload, signer, public_key)->Ok_0;
    let reward = reward_account_read(payload)->Ok_0;
    let entry = entry_read(ledger, payload, node_id, reward.0, made_at)->Ok_0;
    let account = AccountModel { public_key: Some(reward.1), ..account_of(ledger, reward.0) };
    account_changes(ledger, reward.0, account);
    let keyed = with_account(ledger, reward.0, account);
    let node = node_entered(entry, signer, public_key);
    node_changes(keyed, entry.node_id, node);
    assert(buckets_total(Seq::<RewardVestingBucket>::empty()) == 0);
}

proof fn registry_steps_conserve(
    ledger: LedgerModel,
    public_key: Seq<char>,
    operation: SignedModel,
    now: i64,
)
    requires
        is_finite(ledger),
        holdings(ledger) <= u128::MAX,
        !registers_again(ledger),
        registry_step(ledger, public_key, operation, now) is Ok,
    ensures
        conserves(ledger, registry_step(ledger, public_key, operation, now)->Ok_0),
{
    reveal(registry_step);
    let action = operation.unsigned.action;
    let payload = operation.unsigned.payload;
    let signer = operation.unsigned.signer;
    let id = operation.intake.operation_id;
    let next = registry_step(ledger, public_key, operation, now)->Ok_0;
    if action == "RegisterNode"@ {
        registering_conserves(ledger, payload, signer, public_key, made_at(operation), now);
    } else {
        let node_id = owned_node(ledger, payload, signer, public_key)->Ok_0;
        let node = ledger.nodes[node_id];
        if action == "UpdateRewardIp"@ {
            reveal(reward_ip_updated);
            node_changes(ledger, node_id, next.nodes[node_id]);
        } else if action == "UpdatePrice"@ || action == "DrainNode"@ {
            node_changes(ledger, node_id, next.nodes[node_id]);
        } else {
            noted_payouts_conserve(
                ledger,
                node_id,
                without_service_bond(node),
                node.service_bond,
                node.reward_address,
                id,
            );
        }
    }
}

proof fn bonding_conserves(
    ledger: LedgerModel,
    node_id: u64,
    payer: Seq<char>,
    node: NodeModel,
    amount: u128,
)
    requires
        is_finite(ledger),
        ledger.nodes.contains_key(node_id),
        balance_of(ledger, payer) >= amount,
        node_worth()(node) == node_worth()(ledger.nodes[node_id]) + amount,
    ensures
        conserves(ledger, with_node(debited(ledger, payer, amount), node_id, node)),
{
    debiting_takes(ledger, payer, amount);
    node_changes(debited(ledger, payer, amount), node_id, node);
}

proof fn stake_steps_conserve(
    ledger: LedgerModel,
    public_key: Seq<char>,
    operation: SignedModel,
    now: i64,
)
    requires
        is_finite(ledger),
        holdings(ledger) <= u128::MAX,
        stake_step(ledger, public_key, operation, now) is Ok,
    ensures
        conserves(ledger, stake_step(ledger, public_key, operation, now)->Ok_0),
{
    reveal(stake_step);
    let action = operation.unsigned.action;
    let payload = operation.unsigned.payload;
    let signer = operation.unsigned.signer;
    let id = operation.intake.operation_id;
    let at = made_at(operation);
    let next = stake_step(ledger, public_key, operation, now)->Ok_0;
    if action == "BondGovernance"@ {
        let node_id = required_u64(payload, "node_id"@, "Node ID is invalid"@)->Ok_0;
        let amount = required_amount(payload, "amount_base_units"@)->Ok_0;
        bonding_conserves(ledger, node_id, signer, next.nodes[node_id], amount);
    } else if action == "ExitGovernance"@ {
        let node_id = owned_node(ledger, payload, signer, public_key)->Ok_0;
        node_changes(ledger, node_id, next.nodes[node_id]);
    } else if action == "WithdrawGovernanceBond"@ {
        let node_id = owned_node(ledger, payload, signer, public_key)->Ok_0;
        let node = ledger.nodes[node_id];
        noted_payouts_conserve(
            ledger,
            node_id,
            without_governance_bond(node),
            node.governance_bond,
            node.reward_address,
            id,
        );
    } else if action == "BondValidator"@ {
        let node_id = required_u64(payload, "node_id"@, "Node ID is invalid"@)->Ok_0;
        let amount = required_amount(payload, "amount_base_units"@)->Ok_0;
        let bonded = validator_bond_added(ledger, node_id, signer, amount, at)->Ok_0;
        bonding_conserves(ledger, node_id, signer, bonded.nodes[node_id], amount);
        refreshing_conserves(bonded, at);
    } else if action == "ExitValidator"@ {
        let node_id = owned_node(ledger, payload, signer, public_key)->Ok_0;
        node_changes(ledger, node_id, next.nodes[node_id]);
    } else {
        let node_id = owned_node(ledger, payload, signer, public_key)->Ok_0;
        let node = ledger.nodes[node_id];
        noted_payouts_conserve(
            ledger,
            node_id,
            without_validator_bond(node),
            node.validator_bond,
            node.reward_address,
            id,
        );
    }
}

proof fn attesting_conserves(
    ledger: LedgerModel,
    public_key: Seq<char>,
    operation: SignedModel,
    operation_id: Seq<char>,
    executed_at: i64,
)
    requires
        is_finite(ledger),
        attestation_applied(ledger, public_key, operation, operation_id, executed_at) is Ok,
    ensures
        conserves(
            ledger,
            attestation_applied(ledger, public_key, operation, operation_id, executed_at)->Ok_0,
        ),
{
    reveal(attestation_applied);
    let at = attestation_read(ledger, operation.unsigned.payload, executed_at)->Ok_0;
    let next = attestation_applied(
        ledger,
        public_key,
        operation,
        operation_id,
        executed_at,
    )->Ok_0;
    if next.nodes != ledger.nodes {
        node_changes(ledger, at.target, next.nodes[at.target]);
    }
}

proof fn settling_conserves(
    ledger: LedgerModel,
    signer: Seq<char>,
    signer_key: Seq<char>,
    operation_id: Seq<char>,
    checkpoint: CheckpointModel,
    receipt: ReceiptModel,
    executed_at: i64,
)
    requires
        is_finite(ledger),
        holdings(ledger) <= u128::MAX,
        traffic_settled(
            ledger,
            signer,
            signer_key,
            operation_id,
            checkpoint,
            receipt,
            executed_at,
        ) is Ok,
    ensures
        conserves(
            ledger,
            traffic_settled(
                ledger,
                signer,
                signer_key,
                operation_id,
                checkpoint,
                receipt,
                executed_at,
            )->Ok_0.0,
        ),
{
    reveal(traffic_settled);
    let (next, fee) = traffic_settled(
        ledger,
        signer,
        signer_key,
        operation_id,
        checkpoint,
        receipt,
        executed_at,
    )->Ok_0;
    let authorization = ledger.payment_authorizations[checkpoint.authorization_id];
    let due = amounts_due(authorization, checkpoint)->Ok_0;
    let settled = authorization_settled(authorization, checkpoint, receipt, due.0, executed_at);
    let commitment = authorization.network_commitment;
    let released = released_amount(authorization, checkpoint, due.0);
    authorization_changes(ledger, checkpoint.authorization_id, settled);
    let noted = with_authorization(ledger, checkpoint.authorization_id, settled);
    let returned = escrow_released(
        noted,
        commitment,
        released,
        "Network Fund overflow while closing Relay session"@,
    )->Ok_0;
    network_changes(
        noted,
        commitment,
        NetworkModel {
            escrow_balance: (noted.networks[commitment].escrow_balance + released) as u128,
            ..noted.networks[commitment]
        },
    );
    assert(is_finite(returned) && holdings(returned) == holdings(ledger) - due.0);
    let counted = LedgerModel {
        total_settled_traffic_bytes: (returned.total_settled_traffic_bytes + due.1) as u128,
        ..returned
    };
    let node = counted.nodes[checkpoint.node_id];
    let kept = LedgerModel {
        treasury: (counted.treasury + fee.to_treasury) as u128,
        burned: (counted.burned + fee.burned) as u128,
        ..counted
    };
    let income = (due.0 - fee.charged) as u128;
    assert(holdings(kept) == holdings(ledger) - income);
    paying_adds(kept, node.reward_address, income, "Node traffic income overflow"@);
    let paid = paid_to(kept, node.reward_address, income, "Node traffic income overflow"@)->Ok_0;
    let served = NodeModel {
        last_relay_receipt_at: later(node.last_relay_receipt_at, Some(receipt.received_at)),
        ..node
    };
    node_changes(paid, checkpoint.node_id, served);
    noting_conserves(
        with_node(paid, checkpoint.node_id, served),
        node.reward_address,
        operation_id,
    );
}

proof fn node_steps_conserve(
    ledger: LedgerModel,
    public_key: Seq<char>,
    operation: SignedModel,
    now: i64,
)
    requires
        is_finite(ledger),
        holdings(ledger) <= u128::MAX,
        !registers_again(ledger),
        node_step(ledger, public_key, operation, now) is Ok,
    ensures
        conserves(ledger, node_step(ledger, public_key, operation, now)->Ok_0.0),
{
    reveal(node_step);
    let module = operation.unsigned.module;
    let action = operation.unsigned.action;
    let id = operation.intake.operation_id;
    let signer = operation.unsigned.signer;
    let at = made_at(operation);
    if module == "NodeRegistry"@ {
        registry_steps_conserve(ledger, public_key, operation, now);
    } else if module == "StakeVault"@ {
        stake_steps_conserve(ledger, public_key, operation, now);
    } else if module == "NodeEmissionController"@ && action == "ClaimNodeReward"@ {
        let payload = operation.unsigned.payload;
        let node_id = owned_node(ledger, payload, signer, public_key)->Ok_0;
        let amount = required_amount(payload, "amount_base_units"@)->Ok_0;
        let node = ledger.nodes[node_id];
        noted_payouts_conserve(
            ledger,
            node_id,
            NodeModel { claimable_reward: (node.claimable_reward - amount) as u128, ..node },
            amount,
            node.reward_address,
            id,
        );
    } else if module == "Availability"@ && action == "AttestProbe"@ {
        attesting_conserves(ledger, public_key, operation, id, at);
    } else {
        let (checkpoint, receipt) = settlement_read(operation.unsigned.payload)->Ok_0;
        settling_conserves(ledger, signer, public_key, id, checkpoint, receipt, at);
    }
}

proof fn resetting_conserves(ledger: LedgerModel, now: i64)
    requires
        is_finite(ledger),
    ensures
        conserves(ledger, heartbeats_reset(ledger, now)),
{
    let after = heartbeats_reset(ledger, now);
    assert(after.nodes.dom() =~= ledger.nodes.dom());
    total_agrees(ledger.nodes, after.nodes, node_worth());
}

proof fn actions_conserve(ledger: LedgerModel, action: ProposalActionModel, now: i64)
    requires
        is_finite(ledger),
        holdings(ledger) <= u128::MAX,
        action_applied(ledger, action, now) is Ok,
    ensures
        conserves(ledger, action_applied(ledger, action, now)->Ok_0),
{
    match action {
        ProposalActionModel::SetParameters { changes, effective_epoch } => {},
        ProposalActionModel::PauseEmission { reason } => {
            pausing_conserves(ledger, reason, now);
        },
        ProposalActionModel::ResumeEmission => {
            resuming_conserves(ledger, now);
        },
        ProposalActionModel::TreasurySpend { recipient, amount, reference_hash } => {
            spends_stay_within_limits(ledger, amount, now);
            let spent = LedgerModel { treasury: (ledger.treasury - amount) as u128, ..ledger };
            paying_adds(spent, recipient, amount, "treasury recipient balance overflow"@);
        },
    }
}

proof fn pausing_conserves(ledger: LedgerModel, reason: Seq<char>, now: i64)
    requires
        is_finite(ledger),
        emission_paused(ledger, reason, now) is Ok,
    ensures
        conserves(ledger, emission_paused(ledger, reason, now)->Ok_0),
{
    resetting_conserves(
        LedgerModel {
            governance: GovernanceModel {
                emission_paused: true,
                pause_reason: Some(reason),
                ..ledger.governance
            },
            ..ledger
        },
        now,
    );
}

proof fn resuming_conserves(ledger: LedgerModel, now: i64)
    requires
        is_finite(ledger),
        emission_resumed(ledger, now) is Ok,
    ensures
        conserves(ledger, emission_resumed(ledger, now)->Ok_0),
{
    resetting_conserves(
        LedgerModel {
            governance: GovernanceModel {
                emission_paused: false,
                pause_reason: None,
                ..ledger.governance
            },
            ..ledger
        },
        now,
    );
}

proof fn direct_governance_conserves(
    ledger: LedgerModel,
    public_key: Seq<char>,
    operation: SignedModel,
    operation_id: Seq<char>,
    executed_at: i64,
)
    requires
        is_finite(ledger),
        holdings(ledger) <= u128::MAX,
        direct_action_applied(ledger, public_key, operation, operation_id, executed_at) is Ok,
    ensures
        conserves(
            ledger,
            direct_action_applied(
                ledger,
                public_key,
                operation,
                operation_id,
                executed_at,
            )->Ok_0,
        ),
{
    let fixed = genesis_fixed(ledger)->Ok_0.0;
    cancelling_conserves(fixed, cancellable_ids(fixed, executed_at), executed_at);
    let tidied = starved_proposals_cancelled(fixed, executed_at);
    let payload = operation.unsigned.payload;
    if let Ok(reason) = required_text(payload, "reason"@) {
        if emission_paused(tidied, reason, executed_at) is Ok {
            pausing_conserves(tidied, reason, executed_at);
        }
    }
    if emission_resumed(tidied, executed_at) is Ok {
        resuming_conserves(tidied, executed_at);
    }
}

/// Whether the next proposal would get a number that is taken.
pub open spec fn proposes_again(ledger: LedgerModel) -> bool {
    ledger.governance.proposals.contains_key(
        if ledger.governance.next_proposal_id < 1 {
            1
        } else {
            ledger.governance.next_proposal_id
        },
    )
}

proof fn proposing_conserves(ledger: LedgerModel, operation: SignedModel, executed_at: i64)
    requires
        is_finite(ledger),
        !proposes_again(ledger),
        proposal_created(ledger, operation, executed_at) is Ok,
    ensures
        conserves(ledger, proposal_created(ledger, operation, executed_at)->Ok_0),
{
    let signer = operation.unsigned.signer;
    let draft = draft_read(ledger, operation, executed_at)->Ok_0;
    let next = proposal_created(ledger, operation, executed_at)->Ok_0;
    debiting_takes(ledger, signer, GOVERNANCE_PROPOSAL_BOND);
    let debited = debited(ledger, signer, GOVERNANCE_PROPOSAL_BOND);
    let proposal = next.governance.proposals[draft.proposal_id];
    proposal_changes(debited, draft.proposal_id, proposal);
}

proof fn closing_conserves(
    ledger: LedgerModel,
    proposal_id: u64,
    closed: ProposalModel,
    burned: u128,
)
    requires
        is_finite(ledger),
        holdings(ledger) <= u128::MAX,
        ledger.governance.proposals.contains_key(proposal_id),
        closed.proposal_bond == 0,
        burned <= ledger.governance.proposals[proposal_id].proposal_bond,
        ledger.burned + burned <= u128::MAX,
    ensures
        ({
            let proposal = ledger.governance.proposals[proposal_id];
            conserves(
                ledger,
                credited(
                    LedgerModel {
                        burned: (ledger.burned + burned) as u128,
                        ..with_proposal(ledger, proposal_id, closed)
                    },
                    proposal.proposer_reward_address,
                    (proposal.proposal_bond - burned) as u128,
                ),
            )
        }),
{
    let proposal = ledger.governance.proposals[proposal_id];
    proposal_changes(ledger, proposal_id, closed);
    crediting_adds(
        LedgerModel {
            burned: (ledger.burned + burned) as u128,
            ..with_proposal(ledger, proposal_id, closed)
        },
        proposal.proposer_reward_address,
        (proposal.proposal_bond - burned) as u128,
    );
}

proof fn executing_conserves(
    ledger: LedgerModel,
    payload: PayloadModel,
    operation_id: Seq<char>,
    executed_at: i64,
    proposal_id: u64,
)
    requires
        is_finite(ledger),
        holdings(ledger) <= u128::MAX,
        proposal_executed(ledger, payload, operation_id, executed_at, proposal_id) is Ok,
    ensures
        conserves(
            ledger,
            proposal_executed(ledger, payload, operation_id, executed_at, proposal_id)->Ok_0,
        ),
{
    let action = required_action(payload)->Ok_0;
    actions_conserve(ledger, action, executed_at);
    let applied = action_applied(ledger, action, executed_at)->Ok_0;
    let marked = proposal_marked_executed(applied, proposal_id, executed_at);
    if applied.governance.proposals.contains_key(proposal_id) {
        proposal_changes(applied, proposal_id, marked.governance.proposals[proposal_id]);
    }
    if let ProposalActionModel::TreasurySpend { recipient, amount, reference_hash } = action {
        let listed = LedgerModel {
            treasury_spends: marked.treasury_spends.push(
                SpendModel {
                    proposal_id,
                    operation_id,
                    recipient,
                    amount,
                    reference_hash,
                    executed_at,
                },
            ),
            ..marked
        };
        noting_conserves(listed, recipient, operation_id);
    }
}

proof fn vetoing_conserves(
    ledger: LedgerModel,
    public_key: Seq<char>,
    operation: SignedModel,
    operation_id: Seq<char>,
    executed_at: i64,
    proposal_id: u64,
)
    requires
        is_finite(ledger),
        holdings(ledger) <= u128::MAX,
        ledger.governance.proposals.contains_key(proposal_id),
        veto_cast(ledger, public_key, operation, operation_id, executed_at, proposal_id) is Ok,
    ensures
        conserves(
            ledger,
            veto_cast(
                ledger,
                public_key,
                operation,
                operation_id,
                executed_at,
                proposal_id,
            )->Ok_0,
        ),
{
    let next = veto_cast(
        ledger,
        public_key,
        operation,
        operation_id,
        executed_at,
        proposal_id,
    )->Ok_0;
    let vetoed = next.governance.proposals[proposal_id];
    proposal_changes(ledger, proposal_id, vetoed);
    if vetoed.proposal_bond == 0 {
        closing_conserves(ledger, proposal_id, vetoed, 0);
    }
}

proof fn governing_conserves(
    ledger: LedgerModel,
    public_key: Seq<char>,
    operation: SignedModel,
    operation_id: Seq<char>,
    executed_at: i64,
)
    requires
        is_finite(ledger),
        holdings(ledger) <= u128::MAX,
        !proposes_again(ledger),
        governance_action_applied(ledger, public_key, operation, operation_id, executed_at) is Ok,
    ensures
        conserves(
            ledger,
            governance_action_applied(
                ledger,
                public_key,
                operation,
                operation_id,
                executed_at,
            )->Ok_0,
        ),
{
    reveal(governance_action_applied);
    let action = operation.unsigned.action;
    let payload = operation.unsigned.payload;
    let next = governance_action_applied(
        ledger,
        public_key,
        operation,
        operation_id,
        executed_at,
    )->Ok_0;
    if action == "SetParameters"@ || action == "PauseEmission"@ || action == "ResumeEmission"@ {
        direct_governance_conserves(ledger, public_key, operation, operation_id, executed_at);
    } else if action == "CreateProposal"@ {
        proposing_conserves(ledger, operation, executed_at);
    } else {
        let proposal_id = required_u64(
            payload,
            "proposal_id"@,
            "proposal ID is invalid"@,
        )->Ok_0;
        let proposal = ledger.governance.proposals[proposal_id];
        if action == "VoteProposal"@ || action == "ValidatorVoteProposal"@ {
            proposal_changes(ledger, proposal_id, next.governance.proposals[proposal_id]);
        } else if action == "VetoTreasuryProposal"@ {
            vetoing_conserves(
                ledger,
                public_key,
                operation,
                operation_id,
                executed_at,
                proposal_id,
            );
        } else if action == "FinalizeProposal"@ {
            closing_conserves(
                ledger,
                proposal_id,
                proposal_counted(proposal, executed_at),
                bond_forfeited(proposal),
            );
        } else {
            executing_conserves(ledger, payload, operation_id, executed_at, proposal_id);
        }
    }
}

/// Every operation conserves value: what accounts, networks, nodes, reservations, proposals and the
/// treasury hold, with what has been burned, is the same before and after it. Left out are operations
/// that would take the place of a record which is there already: a node, a proposal, a reservation or
/// a network of the same name.
pub proof fn operations_conserve_value(
    ledger: LedgerModel,
    public_key: Seq<char>,
    operation: SignedModel,
    now: i64,
)
    requires
        operation_applied(ledger, public_key, operation, now) is Ok,
        is_finite(ledger),
        holdings(ledger) <= u128::MAX,
        !founds_again(ledger, operation),
        !registers_again(ledger),
        !proposes_again(ledger),
        !ledger.payment_authorizations.contains_key(operation.intake.operation_id),
    ensures
        conserves(ledger, operation_applied(ledger, public_key, operation, now)->Ok_0),
{
    let id = operation.intake.operation_id;
    let at = made_at(operation);
    let refusal = "operation nonce is not the next account nonce"@;
    if !ledger.operations.contains_key(id) {
        let prepared = signer_prepared(ledger, public_key, operation, refusal)->Ok_0;
        match route_of(operation.unsigned.module, operation.unsigned.action) {
            Route::Transfer => {
                transfers_conserve(ledger, public_key, operation, now);
            },
            Route::Network => {
                preparing_conserves(ledger, public_key, operation, refusal);
                network_steps_conserve(prepared, public_key, operation);
                let stepped = network_step(prepared, public_key, operation)->Ok_0.0;
                queueing_conserves(stepped, operation, id, at);
            },
            Route::Governance => {
                preparing_conserves(ledger, public_key, operation, refusal);
                governing_conserves(prepared, public_key, operation, id, at);
                let applied = governance_action_applied(
                    prepared,
                    public_key,
                    operation,
                    id,
                    at,
                )->Ok_0;
                queueing_conserves(applied, operation, id, at);
            },
            Route::Node => {
                preparing_conserves(ledger, public_key, operation, refusal);
                node_steps_conserve(prepared, public_key, operation, now);
                let stepped = node_step(prepared, public_key, operation, now)->Ok_0.0;
                queueing_conserves(stepped, operation, id, at);
            },
            Route::Nobody => {},
        }
    }
}

proof fn maturing_conserves(ledger: LedgerModel, ids: Seq<u64>, at: i64)
    requires
        is_finite(ledger),
        forall|i: int| 0 <= i < ids.len() ==> ledger.nodes.contains_key(#[trigger] ids[i]),
        rewards_matured(ledger, ids, at) is Ok,
    ensures
        conserves(ledger, rewards_matured(ledger, ids, at)->Ok_0),
        rewards_matured(ledger, ids, at)->Ok_0.nodes.dom() == ledger.nodes.dom(),
        rewards_matured(ledger, ids, at)->Ok_0.lifetime_minted == ledger.lifetime_minted,
    decreases ids.len(),
{
    if ids.len() > 0 {
        let id = ids[0];
        assert(ledger.nodes.contains_key(ids[0]));
        let node = vesting_settled(ledger.nodes[id], at)->Ok_0;
        settling_moves_matured_rewards(ledger.nodes[id], at);
        node_changes(ledger, id, node);
        let next = with_node(ledger, id, node);
        let rest = ids.drop_first();
        assert(next.nodes.dom() =~= ledger.nodes.dom());
        assert forall|i: int| 0 <= i < rest.len() implies next.nodes.contains_key(
            #[trigger] rest[i],
        ) by {
            assert(rest[i] == ids[i + 1]);
        }
        maturing_conserves(next, rest, at);
    }
}

proof fn first_reward_counts(allocations: Seq<Allocation>)
    requires
        allocations.len() > 0,
    ensures
        rewards_total(allocations) == allocations[0].reward + rewards_total(
            allocations.drop_first(),
        ),
    decreases allocations.len(),
{
    if allocations.len() == 1 {
        assert(allocations.drop_last() =~= Seq::empty());
        assert(allocations.drop_first() =~= Seq::empty());
        assert(rewards_total(allocations.drop_last()) == 0);
    } else {
        first_reward_counts(allocations.drop_last());
        assert(allocations.drop_last().drop_first() =~= allocations.drop_first().drop_last());
    }
}

proof fn paying_out_adds(
    ledger: LedgerModel,
    allocations: Seq<Allocation>,
    context: ContextModel,
)
    requires
        is_finite(ledger),
        forall|i: int|
            0 <= i < allocations.len() ==> ledger.nodes.contains_key(
                (#[trigger] allocations[i]).node_id,
            ),
        rewards_paid(ledger, allocations, context) is Ok,
    ensures
        ({
            let paid = rewards_paid(ledger, allocations, context)->Ok_0;
            &&& is_finite(paid)
            &&& holdings(paid) == holdings(ledger) + rewards_total(allocations)
            &&& paid.lifetime_minted == ledger.lifetime_minted
        }),
    decreases allocations.len(),
{
    if allocations.len() > 0 {
        let first = allocations[0];
        let rest = allocations.drop_first();
        first_reward_counts(allocations);
        let node = reward_paid(
            ledger.nodes[first.node_id],
            first.reward,
            context,
            ledger.created_at,
        )->Ok_0;
        reward_is_paid_in_full(
            ledger.nodes[first.node_id],
            first.reward,
            context,
            ledger.created_at,
        );
        node_changes(ledger, first.node_id, node);
        let next = with_node(ledger, first.node_id, node);
        assert forall|i: int| 0 <= i < rest.len() implies next.nodes.contains_key(
            (#[trigger] rest[i]).node_id,
        ) by {
            assert(rest[i] == allocations[i + 1]);
        }
        paying_out_adds(next, rest, context);
    }
}

proof fn weighed_are_nodes(
    ledger: LedgerModel,
    context: ContextModel,
    ids: Seq<u64>,
    known: Seq<Weight>,
)
    requires
        forall|i: int| 0 <= i < ids.len() ==> ledger.nodes.contains_key(#[trigger] ids[i]),
        forall|i: int|
            0 <= i < known.len() ==> ledger.nodes.contains_key((#[trigger] known[i]).node_id),
        weighed(ledger, context, ids, known) is Ok,
    ensures
        forall|i: int|
            0 <= i < weighed(ledger, context, ids, known)->Ok_0.len()
                ==> ledger.nodes.contains_key(
                (#[trigger] weighed(ledger, context, ids, known)->Ok_0[i]).node_id,
            ),
    decreases ids.len(),
{
    if ids.len() > 0 {
        let rest = ids.drop_first();
        assert(ledger.nodes.contains_key(ids[0]));
        assert forall|i: int| 0 <= i < rest.len() implies ledger.nodes.contains_key(
            #[trigger] rest[i],
        ) by {
            assert(rest[i] == ids[i + 1]);
        }
        let seconds = eligible_seconds(ledger.nodes[ids[0]], context.epoch);
        let weight = seconds * weight_bps(ids[0], context);
        if weight == 0 {
            weighed_are_nodes(ledger, context, rest, known);
        } else {
            weighed_are_nodes(
                ledger,
                context,
                rest,
                known.push(Weight { node_id: ids[0], weight: weight as u128 }),
            );
        }
    }
}

proof fn shares_are_for_nodes(
    nodes: Map<u64, NodeModel>,
    weights: Seq<Weight>,
    budget: u128,
    total: u128,
    known: Seq<Allocation>,
)
    requires
        forall|i: int|
            0 <= i < weights.len() ==> nodes.contains_key((#[trigger] weights[i]).node_id),
        forall|i: int| 0 <= i < known.len() ==> nodes.contains_key((#[trigger] known[i]).node_id),
        shared(weights, budget, total, known) is Ok,
    ensures
        forall|i: int|
            0 <= i < shared(weights, budget, total, known)->Ok_0.len() ==> nodes.contains_key(
                (#[trigger] shared(weights, budget, total, known)->Ok_0[i]).node_id,
            ),
    decreases weights.len(),
{
    if weights.len() > 0 {
        let rest = weights.drop_first();
        let weight = weights[0].weight;
        assert(nodes.contains_key(weights[0].node_id));
        assert forall|i: int| 0 <= i < rest.len() implies nodes.contains_key(
            (#[trigger] rest[i]).node_id,
        ) by {
            assert(rest[i] == weights[i + 1]);
        }
        shares_are_for_nodes(
            nodes,
            rest,
            budget,
            total,
            known.push(
                Allocation {
                    node_id: weights[0].node_id,
                    reward: (budget * weight / total as int) as u128,
                    remainder: (budget * weight % total as int) as u128,
                },
            ),
        );
    }
}

proof fn allocations_are_for_nodes(
    nodes: Map<u64, NodeModel>,
    weights: Seq<Weight>,
    budget: u128,
    total: u128,
)
    requires
        forall|i: int|
            0 <= i < weights.len() ==> nodes.contains_key((#[trigger] weights[i]).node_id),
        budget_allocated(weights, budget, total) is Ok,
    ensures
        forall|i: int|
            0 <= i < budget_allocated(weights, budget, total)->Ok_0.len() ==> nodes.contains_key(
                (#[trigger] budget_allocated(weights, budget, total)->Ok_0[i]).node_id,
            ),
{
    let met = |allocation: Allocation| nodes.contains_key(allocation.node_id);
    shares_are_for_nodes(nodes, weights, budget, total, Seq::empty());
    let found = shared(weights, budget, total, Seq::empty())->Ok_0;
    assert forall|i: int| 0 <= i < found.len() implies met(#[trigger] found[i]) by {}
    arranged_all::<Allocation>(found, met);
    let sorted = arranged::<Allocation>(found);
    let allocated = budget_allocated(weights, budget, total)->Ok_0;
    assert forall|i: int| 0 <= i < allocated.len() implies nodes.contains_key(
        (#[trigger] allocated[i]).node_id,
    ) by {
        assert(met(sorted[i]));
    }
}

proof fn forgetting_conserves(ledger: LedgerModel, epoch: u64)
    requires
        is_finite(ledger),
    ensures
        conserves(ledger, epoch_forgotten(ledger, epoch)),
{
    let after = epoch_forgotten(ledger, epoch);
    assert(after.nodes.dom() =~= ledger.nodes.dom());
    total_agrees(ledger.nodes, after.nodes, node_worth());
}

/// Whether a ledger holds more than another by what it has minted more.
pub open spec fn pays_what_it_mints(before: LedgerModel, after: LedgerModel) -> bool {
    is_finite(after) && holdings(after) - after.lifetime_minted == holdings(before)
        - before.lifetime_minted
}

proof fn ids_are_nodes(ledger: LedgerModel)
    requires
        ledger.nodes.dom().finite(),
    ensures
        forall|i: int|
            0 <= i < node_ids(ledger).len() ==> ledger.nodes.contains_key(
                #[trigger] node_ids(ledger)[i],
            ),
{
    ordered_lists_all::<u64>(ledger.nodes.dom());
    assert forall|i: int| 0 <= i < node_ids(ledger).len() implies ledger.nodes.contains_key(
        #[trigger] node_ids(ledger)[i],
    ) by {
        assert(node_ids(ledger).contains(node_ids(ledger)[i]));
        assert(ledger.nodes.dom().contains(node_ids(ledger)[i]));
    }
}

/// Settling an epoch pays out to the nodes exactly what it mints.
pub proof fn settling_pays_what_it_mints(ledger: LedgerModel, context: ContextModel)
    requires
        is_finite(ledger),
        epoch_settled(ledger, context) is Ok,
    ensures
        pays_what_it_mints(ledger, epoch_settled(ledger, context)->Ok_0),
{
    ids_are_nodes(ledger);
    maturing_conserves(ledger, node_ids(ledger), context.ended_at);
    let matured = rewards_matured(ledger, node_ids(ledger), context.ended_at)->Ok_0;
    ids_are_nodes(matured);
    weighed_are_nodes(matured, context, node_ids(matured), Seq::empty());
    let weights = weighed(matured, context, node_ids(matured), Seq::empty())->Ok_0;
    let budget = least(context.settings.epoch_mint_amount as int, matured.pool_remaining as int);
    let all = weights_total(weights);
    if all == 0 || budget == 0 {
        forgetting_conserves(matured, context.epoch);
    } else {
        let allocations = budget_allocated(weights, budget as u128, all as u128)->Ok_0;
        allocations_are_for_nodes(matured.nodes, weights, budget as u128, all as u128);
        allocation_uses_whole_budget(weights, budget as u128, all as u128);
        paying_out_adds(matured, allocations, context);
        let paid = rewards_paid(matured, allocations, context)->Ok_0;
        forgetting_conserves(paid, context.epoch);
    }
}

proof fn settling_all_pays_what_it_mints(ledger: LedgerModel, epochs: Seq<u64>)
    requires
        is_finite(ledger),
        epochs_settled(ledger, epochs) is Ok,
    ensures
        pays_what_it_mints(ledger, epochs_settled(ledger, epochs)->Ok_0),
    decreases epochs.len(),
{
    if epochs.len() > 0 {
        let context = ledger.epoch_contexts[epochs[0]];
        settling_pays_what_it_mints(ledger, context);
        let settled = epoch_settled(ledger, context)->Ok_0;
        settling_all_pays_what_it_mints(
            LedgerModel {
                epoch_contexts: settled.epoch_contexts.remove(epochs[0]),
                availability_slots: slots_without(settled.availability_slots, epochs[0]),
                ..settled
            },
            epochs.drop_first(),
        );
    }
}

proof fn leaving_conserves(ledger: LedgerModel, ids: Seq<u64>, at: i64)
    requires
        is_finite(ledger),
        nodes_exited(ledger, ids, at) is Ok,
    ensures
        pays_what_it_mints(ledger, nodes_exited(ledger, ids, at)->Ok_0),
    decreases ids.len(),
{
    if ids.len() > 0 {
        let next = node_exited(ledger, ids[0], at)->Ok_0;
        if ledger.nodes.contains_key(ids[0]) {
            node_changes(ledger, ids[0], next.nodes[ids[0]]);
            exit_pays_treasury(ledger, ids[0], at);
        }
        leaving_conserves(next, ids.drop_first(), at);
    }
}

proof fn slashing_conserves(ledger: LedgerModel, ids: Seq<u64>, at: i64)
    requires
        is_finite(ledger),
        nodes_slashed(ledger, ids, at) is Ok,
    ensures
        pays_what_it_mints(ledger, nodes_slashed(ledger, ids, at)->Ok_0),
    decreases ids.len(),
{
    if ids.len() > 0 {
        let next = node_slashed(ledger, ids[0], at)->Ok_0;
        if ledger.nodes.contains_key(ids[0]) {
            node_changes(ledger, ids[0], next.nodes[ids[0]]);
            slash_pays_treasury(ledger, ids[0], at);
        }
        slashing_conserves(next, ids.drop_first(), at);
    }
}

/// What happens at the end of a block conserves value but for what is minted: rewards are paid out of
/// what is minted, and what nodes lose or leave behind goes to the treasury.
pub proof fn block_ends_pay_what_they_mint(ledger: LedgerModel, timestamp: i64)
    requires
        is_finite(ledger),
        block_ended(ledger, timestamp) is Ok,
    ensures
        pays_what_it_mints(ledger, block_ended(ledger, timestamp)->Ok_0),
{
    reveal(block_ended);
    let epochs = final_epochs(ledger, timestamp);
    settling_all_pays_what_it_mints(ledger, epochs);
    let settled = epochs_settled(ledger, epochs)->Ok_0;
    slashing_conserves(settled, offline_ids(settled, timestamp), timestamp);
    let slashed = offline_settled(settled, timestamp)->Ok_0;
    leaving_conserves(slashed, draining_ids(slashed), timestamp);
}

proof fn one_turn_conserves(ledger: LedgerModel, epoch_end: i64)
    requires
        is_finite(ledger),
        epoch_turned(ledger, epoch_end) is Ok,
    ensures
        conserves(ledger, epoch_turned(ledger, epoch_end)->Ok_0),
{
    assert forall|before: LedgerModel| is_finite(before) implies conserves(
        before,
        #[trigger] committee_refreshed(before, epoch_end),
    ) by {
        refreshing_conserves(before, epoch_end);
    }
}

proof fn turning_conserves(ledger: LedgerModel, at: i64)
    requires
        is_finite(ledger),
        epochs_turned(ledger, at) is Ok,
    ensures
        conserves(ledger, epochs_turned(ledger, at)->Ok_0),
    decreases u64::MAX - ledger.epoch_number,
{
    let epoch = ledger.epoch_number;
    let epoch_end = ledger.epoch_contexts[epoch].ended_at;
    if at >= epoch_end {
        one_turn_conserves(ledger, epoch_end);
        let next = epoch_turned(ledger, epoch_end)->Ok_0;
        if next.epoch_number > epoch {
            turning_conserves(next, at);
        }
    }
}

/// Moving the protocol clock conserves value.
pub proof fn advancing_conserves_value(ledger: LedgerModel, at: i64)
    requires
        is_finite(ledger),
        epochs_advanced(ledger, at) is Ok,
    ensures
        conserves(ledger, epochs_advanced(ledger, at)->Ok_0),
{
    turning_conserves(current_context_ensured(ledger)->Ok_0, at);
}

/// In a new ledger everything that was minted is in the treasury.
pub proof fn new_ledgers_hold_what_was_minted()
    ensures
        is_finite(initial_ledger()),
        holdings(initial_ledger()) == initial_ledger().lifetime_minted,
{
}

} // verus!
