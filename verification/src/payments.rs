use vstd::prelude::*;
use vstd::string::*;

use crate::error::{outcome, Error, Outcome, Result};
use crate::model::{
    AuthorizationModel, LedgerModel, LedgerState, NetworkModel, NetworkRecord, OperationModel,
    OperationRecord, OperationStatus, PaymentAuthorizationRecord, RelaySessionModel,
    UnsettledRelaySession,
};
use crate::network_operations::{network_resolved, resolve_network};
use crate::number::{least, min_usize};
use crate::payload::{field_text, payload_str, required_text};
use crate::search::{collect_where, find_where, value_where, values_where};
use crate::sequence::{arrange, arranged, Ranked};
use crate::table::Replicate;
use crate::text::{text_less, text_lt, text_same};
use crate::traffic::{find_member, member_named};
use crate::views::{
    PaymentAuthorizationStatusView, PaymentAuthorizationStatusViewModel, PaymentHistoryView,
    PaymentHistoryViewModel, RelayAuthorizationView, RelayAuthorizationViewModel,
    UnsettledPaymentView, UnsettledPaymentViewModel,
};

verus! {

/// Finds a reservation by its identifier.
pub fn payment_authorization(ledger: &LedgerState, authorization_id: &str) -> (r: Result<
    PaymentAuthorizationRecord,
>)
    ensures
        outcome(r) == if ledger@.payment_authorizations.contains_key(authorization_id@) {
            Ok(ledger@.payment_authorizations[authorization_id@])
        } else {
            Err("payment authorization was not found"@)
        },
{
    match ledger.payment_authorizations.get(&authorization_id.to_owned()) {
        Some(authorization) => Ok(authorization.replicate()),
        None => Err(Error::msg("payment authorization was not found")),
    }
}

/// Which reservations are for a session.
pub open spec fn for_session(session_id: Seq<char>) -> spec_fn(AuthorizationModel) -> bool {
    |authorization: AuthorizationModel| authorization.session_id == session_id
}

/// The reservation that an identifier or a session names.
pub open spec fn authorization_named(ledger: LedgerModel, name: Seq<char>) -> Option<
    AuthorizationModel,
> {
    if ledger.payment_authorizations.contains_key(name) {
        Some(ledger.payment_authorizations[name])
    } else {
        value_where::<String, AuthorizationModel>(ledger.payment_authorizations, for_session(name))
    }
}

fn find_authorization<'a>(ledger: &'a LedgerState, name: &str) -> (r: Option<
    &'a PaymentAuthorizationRecord,
>)
    ensures
        match authorization_named(ledger@, name@) {
            Some(authorization) => r matches Some(found) && found.deep_view() == authorization,
            None => r is None,
        },
{
    match ledger.payment_authorizations.get(&name.to_owned()) {
        Some(authorization) => Some(authorization),
        None => {
            let test = |authorization: &PaymentAuthorizationRecord| -> (b: bool)
                ensures
                    b == (authorization.deep_view().session_id == name@),
                { text_same(authorization.session_id.as_str(), name) };
            find_where(&ledger.payment_authorizations, Ghost(for_session(name@)), test)
        },
    }
}

/// Which operations reserve a session.
pub open spec fn reserves_session(session_id: Seq<char>) -> spec_fn(OperationModel) -> bool {
    |operation: OperationModel|
        operation.kind == "TrafficPayment.ReserveSession"@ && field_text(
            operation.payload,
            "session_id"@,
        ) == Some(session_id)
}

/// The operation by which a reservation was asked for, under its identifier or its session.
pub open spec fn reservation_asked(ledger: LedgerModel, name: Seq<char>) -> Option<OperationModel> {
    if ledger.operations.contains_key(name) && ledger.operations[name].kind
        == "TrafficPayment.ReserveSession"@ {
        Some(ledger.operations[name])
    } else {
        value_where::<String, OperationModel>(ledger.operations, reserves_session(name))
    }
}

fn find_reservation<'a>(ledger: &'a LedgerState, name: &str) -> (r: Option<&'a OperationRecord>)
    ensures
        match reservation_asked(ledger@, name@) {
            Some(operation) => r matches Some(found) && found.deep_view() == operation,
            None => r is None,
        },
{
    if let Some(operation) = ledger.operations.get(&name.to_owned()) {
        if text_same(operation.kind.as_str(), "TrafficPayment.ReserveSession") {
            return Some(operation);
        }
    }
    let test = |operation: &OperationRecord| -> (b: bool)
        ensures
            b == reserves_session(name@)(operation.deep_view()),
        {
            if !text_same(operation.kind.as_str(), "TrafficPayment.ReserveSession") {
                false
            } else {
                match operation.payload.text("session_id") {
                    Some(session_id) => text_same(session_id.as_str(), name),
                    None => false,
                }
            }
        };
    find_where(&ledger.operations, Ghost(reserves_session(name@)), test)
}

/// Where a reservation stands.
pub open spec fn authorization_status(ledger: LedgerModel, name: Seq<char>) -> Outcome<
    PaymentAuthorizationStatusViewModel,
> {
    match authorization_named(ledger, name) {
        Some(authorization) => {
            let id = authorization.authorization_id;
            let known = ledger.operations.contains_key(id);
            Ok(
                PaymentAuthorizationStatusViewModel {
                    authorization_id: id,
                    session_id: authorization.session_id,
                    status: if known {
                        ledger.operations[id].status
                    } else {
                        OperationStatus::Finalized
                    },
                    block_height: if known {
                        ledger.operations[id].block_height
                    } else {
                        None
                    },
                    authorization: Some(authorization),
                },
            )
        },
        None => match reservation_asked(ledger, name) {
            None => Err("payment authorization was not found"@),
            Some(operation) => match required_text(operation.payload, "session_id"@) {
                Err(refusal) => Err(refusal),
                Ok(session_id) => Ok(
                    PaymentAuthorizationStatusViewModel {
                        authorization_id: operation.operation_id,
                        session_id,
                        status: operation.status,
                        block_height: operation.block_height,
                        authorization: None,
                    },
                ),
            },
        },
    }
}

/// Tells where a reservation stands, under its identifier or its session.
pub fn payment_authorization_status(
    ledger: &LedgerState,
    authorization_id_or_session_id: &str,
) -> (r: Result<PaymentAuthorizationStatusView>)
    ensures
        outcome(r) == authorization_status(ledger@, authorization_id_or_session_id@),
{
    if let Some(authorization) = find_authorization(ledger, authorization_id_or_session_id) {
        let (status, block_height): (OperationStatus, Option<u64>) = match ledger.operations.get(
            &authorization.authorization_id,
        ) {
            Some(operation) => (operation.status, operation.block_height),
            None => (OperationStatus::Finalized, None),
        };
        return Ok(
            PaymentAuthorizationStatusView {
                authorization_id: authorization.authorization_id.clone(),
                session_id: authorization.session_id.clone(),
                status,
                block_height,
                authorization: Some(authorization.replicate()),
            },
        );
    }
    match find_reservation(ledger, authorization_id_or_session_id) {
        None => Err(Error::msg("payment authorization was not found")),
        Some(operation) => {
            let session_id = payload_str(&operation.payload, "session_id")?;
            Ok(
                PaymentAuthorizationStatusView {
                    authorization_id: operation.operation_id.clone(),
                    session_id,
                    status: operation.status,
                    block_height: operation.block_height,
                    authorization: None,
                },
            )
        },
    }
}

/// The identifier of the member that a name or an identifier stands for.
pub open spec fn member_identifier(
    network: NetworkModel,
    member: Seq<char>,
    refusal: Seq<char>,
) -> Outcome<Seq<char>> {
    if network.members.contains_key(member) {
        Ok(network.members[member].member_id)
    } else {
        match member_named(network.members, member) {
            Some(name) => Ok(network.members[name].member_id),
            None => Err(refusal),
        }
    }
}

fn identify_member(network: &NetworkRecord, member: &str, refusal: &str) -> (r: Result<String>)
    ensures
        match member_identifier(network.deep_view(), member@, refusal@) {
            Ok(id) => r matches Ok(text) && text@ == id,
            Err(text) => r matches Err(error) && error@ == text,
        },
{
    match network.members.get(&member.to_owned()) {
        Some(record) => Ok(record.member_id.clone()),
        None => match find_member(&network.members, member) {
            Some(record) => Ok(record.member_id.clone()),
            None => Err(Error::msg(refusal)),
        },
    }
}

/// What limits the payments that are shown: a network, a member and a node.
pub struct FilterModel {
    pub commitment: Option<Seq<char>>,
    pub member_id: Option<Seq<char>>,
    pub node_id: Option<u64>,
}

/// The limits that a network, a member and a node set.
pub open spec fn filter_read(
    ledger: LedgerModel,
    network: Option<Seq<char>>,
    member: Option<Seq<char>>,
    node_id: Option<u64>,
) -> Outcome<FilterModel> {
    match network {
        None => if member is Some {
            Err("an unsettled payment Member filter requires a Network"@)
        } else {
            Ok(FilterModel { commitment: None, member_id: None, node_id })
        },
        Some(name) => match network_resolved(ledger, name) {
            Err(refusal) => Err(refusal),
            Ok(commitment) => match member {
                None => Ok(FilterModel { commitment: Some(commitment), member_id: None, node_id }),
                Some(member) => if !ledger.networks.contains_key(commitment) {
                    Err("network registry is inconsistent"@)
                } else {
                    match member_identifier(
                        ledger.networks[commitment],
                        member,
                        "unsettled payment Member was not found"@,
                    ) {
                        Err(refusal) => Err(refusal),
                        Ok(id) => Ok(
                            FilterModel {
                                commitment: Some(commitment),
                                member_id: Some(id),
                                node_id,
                            },
                        ),
                    }
                },
            },
        },
    }
}

/// Whether a reservation is open and within the limits.
pub open spec fn is_unsettled(authorization: AuthorizationModel, limits: FilterModel) -> bool {
    &&& authorization.refunded_at is None
    &&& authorization.closed_at is None
    &&& authorization.reserved_remaining > 0
    &&& limits.commitment matches Some(commitment) ==> authorization.network_commitment
        == commitment
    &&& limits.node_id matches Some(node_id) ==> authorization.node_id == node_id
    &&& limits.member_id matches Some(id) ==> (authorization.sender_member_id == id
        || authorization.receiver_member_id == id)
}

/// The open payments of some interrupted sessions, in their order.
pub open spec fn unsettled_of(
    ledger: LedgerModel,
    sessions: Seq<RelaySessionModel>,
    limits: FilterModel,
) -> Seq<UnsettledPaymentViewModel>
    decreases sessions.len(),
{
    if sessions.len() == 0 {
        Seq::empty()
    } else {
        let earlier = unsettled_of(ledger, sessions.drop_last(), limits);
        let session = sessions.last();
        let id = session.authorization_id;
        if ledger.payment_authorizations.contains_key(id) && is_unsettled(
            ledger.payment_authorizations[id],
            limits,
        ) {
            earlier.push(
                UnsettledPaymentViewModel {
                    session,
                    authorization: ledger.payment_authorizations[id],
                },
            )
        } else {
            earlier
        }
    }
}

impl Replicate for UnsettledPaymentView {
    fn replicate(&self) -> (r: UnsettledPaymentView) {
        UnsettledPaymentView {
            session: self.session.replicate(),
            authorization: self.authorization.replicate(),
        }
    }
}

impl Ranked for UnsettledPaymentView {
    open spec fn precedes(a: UnsettledPaymentViewModel, b: UnsettledPaymentViewModel) -> bool {
        a.session.disconnected_at > b.session.disconnected_at
    }

    fn comes_before(&self, other: &UnsettledPaymentView) -> (r: bool) {
        self.session.disconnected_at > other.session.disconnected_at
    }
}

/// The open payments of the interrupted sessions, the latest first.
pub open spec fn unsettled_shown(
    ledger: LedgerModel,
    sessions: Seq<RelaySessionModel>,
    network: Option<Seq<char>>,
    member: Option<Seq<char>>,
    node_id: Option<u64>,
) -> Outcome<Seq<UnsettledPaymentViewModel>> {
    match filter_read(ledger, network, member, node_id) {
        Err(refusal) => Err(refusal),
        Ok(limits) => Ok(
            arranged::<UnsettledPaymentView>(unsettled_of(ledger, sessions, limits)),
        ),
    }
}

struct Filter {
    commitment: Option<String>,
    member_id: Option<String>,
    node_id: Option<u64>,
}

impl DeepView for Filter {
    type V = FilterModel;

    closed spec fn deep_view(&self) -> FilterModel {
        FilterModel {
            commitment: self.commitment.deep_view(),
            member_id: self.member_id.deep_view(),
            node_id: self.node_id,
        }
    }
}

fn read_filter(
    ledger: &LedgerState,
    network: Option<&str>,
    member: Option<&str>,
    node_id: Option<u64>,
) -> (r: Result<Filter>)
    ensures
        outcome(r) == filter_read(ledger@, network.deep_view(), member.deep_view(), node_id),
{
    match network {
        None => match member {
            Some(_) => Err(Error::msg("an unsettled payment Member filter requires a Network")),
            None => Ok(Filter { commitment: None, member_id: None, node_id }),
        },
        Some(name) => {
            let commitment = resolve_network(ledger, name)?;
            match member {
                None => Ok(Filter { commitment: Some(commitment), member_id: None, node_id }),
                Some(member) => match ledger.networks.get(&commitment) {
                    None => Err(Error::msg("network registry is inconsistent")),
                    Some(network) => {
                        let id = identify_member(
                            network,
                            member,
                            "unsettled payment Member was not found",
                        )?;
                        Ok(Filter { commitment: Some(commitment), member_id: Some(id), node_id })
                    },
                },
            }
        },
    }
}

fn passes(authorization: &PaymentAuthorizationRecord, limits: &Filter) -> (r: bool)
    ensures
        r == is_unsettled(authorization.deep_view(), limits.deep_view()),
{
    if authorization.refunded_at.is_some() || authorization.closed_at.is_some()
        || authorization.reserved_remaining == 0 {
        return false;
    }
    if let Some(commitment) = &limits.commitment {
        if !text_same(authorization.network_commitment.as_str(), commitment.as_str()) {
            return false;
        }
    }
    if let Some(node_id) = limits.node_id {
        if authorization.node_id != node_id {
            return false;
        }
    }
    if let Some(id) = &limits.member_id {
        return text_same(authorization.sender_member_id.as_str(), id.as_str()) || text_same(
            authorization.receiver_member_id.as_str(),
            id.as_str(),
        );
    }
    true
}

/// Lists the open payments of the interrupted sessions, the latest first.
pub fn unsettled_payments(
    ledger: &LedgerState,
    sessions: &Vec<UnsettledRelaySession>,
    network_alias: Option<&str>,
    member: Option<&str>,
    node_id: Option<u64>,
) -> (r: Result<Vec<UnsettledPaymentView>>)
    ensures
        match unsettled_shown(
            ledger@,
            sessions.deep_view(),
            network_alias.deep_view(),
            member.deep_view(),
            node_id,
        ) {
            Ok(shown) => r matches Ok(list) && list.deep_view() == shown,
            Err(refusal) => r matches Err(error) && error@ == refusal,
        },
{
    let limits = read_filter(ledger, network_alias, member, node_id)?;
    let ghost all = sessions.deep_view();
    let mut out: Vec<UnsettledPaymentView> = Vec::new();
    assert(out.deep_view() =~= unsettled_of(ledger@, all.take(0), limits.deep_view()));
    let mut i: usize = 0;
    while i < sessions.len()
        invariant
            i <= all.len(),
            all == sessions.deep_view(),
            all.len() == sessions@.len(),
            out.deep_view() == unsettled_of(ledger@, all.take(i as int), limits.deep_view()),
        decreases all.len() - i,
    {
        assert(all.take(i + 1).drop_last() =~= all.take(i as int));
        assert(all.take(i + 1).last() == sessions@[i as int].deep_view());
        let ghost before = out.deep_view();
        let session = &sessions[i];
        if let Some(authorization) = ledger.payment_authorizations.get(&session.authorization_id) {
            if passes(authorization, &limits) {
                let item = UnsettledPaymentView {
                    session: session.replicate(),
                    authorization: authorization.replicate(),
                };
                out.push(item);
                assert(out.deep_view() =~= before.push(item.deep_view()));
            }
        }
        i = i + 1;
    }
    assert(all.take(all.len() as int) =~= all);
    Ok(arrange(&out))
}

/// Which reservations of a network, and where one is given of a member, are shown.
pub open spec fn in_history(commitment: Seq<char>, member_id: Option<Seq<char>>) -> spec_fn(
    AuthorizationModel,
) -> bool {
    |authorization: AuthorizationModel|
        {
            &&& authorization.network_commitment == commitment
            &&& member_id matches Some(id) ==> (authorization.sender_member_id == id
                || authorization.receiver_member_id == id || authorization.initiator_member_id == id)
        }
}

/// The sum of what reservations have paid and hold, or the first total that is too large.
pub open spec fn settled_total(items: Seq<AuthorizationModel>, total: u128) -> Outcome<u128>
    decreases items.len(),
{
    if items.len() == 0 {
        Ok(total)
    } else if total + items[0].settled_amount > u128::MAX {
        Err("payment history settled total overflow"@)
    } else {
        settled_total(items.drop_first(), (total + items[0].settled_amount) as u128)
    }
}

/// The sum of what reservations hold.
pub open spec fn reserved_total(items: Seq<AuthorizationModel>, total: u128) -> Outcome<u128>
    decreases items.len(),
{
    if items.len() == 0 {
        Ok(total)
    } else if total + items[0].reserved_remaining > u128::MAX {
        Err("payment history reservation total overflow"@)
    } else {
        reserved_total(items.drop_first(), (total + items[0].reserved_remaining) as u128)
    }
}

impl Ranked for PaymentAuthorizationRecord {
    open spec fn precedes(a: AuthorizationModel, b: AuthorizationModel) -> bool {
        a.created_at > b.created_at || a.created_at == b.created_at && text_lt(
            b.authorization_id,
            a.authorization_id,
        )
    }

    fn comes_before(&self, other: &PaymentAuthorizationRecord) -> (r: bool) {
        self.created_at > other.created_at || self.created_at == other.created_at && text_less(
            other.authorization_id.as_str(),
            self.authorization_id.as_str(),
        )
    }
}

/// The payments of a network, the latest first.
pub open spec fn history_shown(
    ledger: LedgerModel,
    network: Seq<char>,
    member: Option<Seq<char>>,
    limit: usize,
) -> Outcome<PaymentHistoryViewModel> {
    match network_resolved(ledger, network) {
        Err(refusal) => Err(refusal),
        Ok(commitment) => if !ledger.networks.contains_key(commitment) {
            Err("network registry is inconsistent"@)
        } else {
            let found = ledger.networks[commitment];
            match history_member(found, member) {
                Err(refusal) => Err(refusal),
                Ok(member_id) => {
                    let items = values_where::<String, AuthorizationModel>(
                        ledger.payment_authorizations,
                        in_history(commitment, member_id),
                    );
                    match settled_total(items, 0) {
                        Err(refusal) => Err(refusal),
                        Ok(total_settled) => match reserved_total(items, 0) {
                            Err(refusal) => Err(refusal),
                            Ok(total_reserved) => Ok(
                                PaymentHistoryViewModel {
                                    network: found.alias,
                                    network_commitment: commitment,
                                    fund_balance: found.escrow_balance,
                                    total_settled,
                                    total_reserved,
                                    authorizations: shown_first(
                                        arranged::<PaymentAuthorizationRecord>(items),
                                        least(limit as int, 1_000),
                                    ),
                                },
                            ),
                        },
                    }
                },
            }
        },
    }
}

/// The first items of a sequence, up to a number of them.
pub open spec fn shown_first<A>(items: Seq<A>, limit: int) -> Seq<A> {
    if items.len() <= limit {
        items
    } else {
        items.take(limit)
    }
}

pub open spec fn history_member(network: NetworkModel, member: Option<Seq<char>>) -> Outcome<
    Option<Seq<char>>,
> {
    match member {
        None => Ok(None),
        Some(member) => match member_identifier(
            network,
            member,
            "payment history member was not found"@,
        ) {
            Err(refusal) => Err(refusal),
            Ok(id) => Ok(Some(id)),
        },
    }
}

fn total_history(items: &Vec<PaymentAuthorizationRecord>) -> (r: Result<(u128, u128)>)
    ensures
        outcome(r) == match settled_total(items.deep_view(), 0) {
            Err(refusal) => Err(refusal),
            Ok(settled) => match reserved_total(items.deep_view(), 0) {
                Err(refusal) => Err(refusal),
                Ok(reserved) => Ok((settled, reserved)),
            },
        },
{
    let ghost all = items.deep_view();
    let mut settled: u128 = 0;
    let mut i: usize = 0;
    assert(all.skip(0) =~= all);
    while i < items.len()
        invariant
            i <= all.len(),
            all == items.deep_view(),
            all.len() == items@.len(),
            settled_total(all, 0) == settled_total(all.skip(i as int), settled),
        decreases all.len() - i,
    {
        assert(all.skip(i as int)[0] == items@[i as int].deep_view());
        assert(all.skip(i as int).drop_first() =~= all.skip(i + 1));
        match settled.checked_add(items[i].settled_amount) {
            None => {
                return Err(Error::msg("payment history settled total overflow"));
            },
            Some(next) => {
                settled = next;
            },
        }
        i = i + 1;
    }
    assert(all.skip(all.len() as int) =~= Seq::empty());
    let mut reserved: u128 = 0;
    let mut j: usize = 0;
    while j < items.len()
        invariant
            j <= all.len(),
            all == items.deep_view(),
            all.len() == items@.len(),
            settled_total(all, 0) == Ok::<u128, Seq<char>>(settled),
            reserved_total(all, 0) == reserved_total(all.skip(j as int), reserved),
        decreases all.len() - j,
    {
        assert(all.skip(j as int)[0] == items@[j as int].deep_view());
        assert(all.skip(j as int).drop_first() =~= all.skip(j + 1));
        match reserved.checked_add(items[j].reserved_remaining) {
            None => {
                return Err(Error::msg("payment history reservation total overflow"));
            },
            Some(next) => {
                reserved = next;
            },
        }
        j = j + 1;
    }
    Ok((settled, reserved))
}

fn belongs_to_history(
    authorization: &PaymentAuthorizationRecord,
    commitment: &str,
    member_id: &Option<String>,
) -> (r: bool)
    ensures
        r == in_history(commitment@, member_id.deep_view())(authorization.deep_view()),
{
    if !text_same(authorization.network_commitment.as_str(), commitment) {
        return false;
    }
    match member_id {
        None => true,
        Some(id) => text_same(authorization.sender_member_id.as_str(), id.as_str()) || text_same(
            authorization.receiver_member_id.as_str(),
            id.as_str(),
        ) || text_same(authorization.initiator_member_id.as_str(), id.as_str()),
    }
}

/// Lists the payments of a network, the latest first.
pub fn payment_history(
    ledger: &LedgerState,
    network_alias: &str,
    member: Option<&str>,
    limit: usize,
) -> (r: Result<PaymentHistoryView>)
    ensures
        outcome(r) == history_shown(ledger@, network_alias@, member.deep_view(), limit),
{
    let commitment = resolve_network(ledger, network_alias)?;
    let network = match ledger.networks.get(&commitment) {
        None => {
            return Err(Error::msg("network registry is inconsistent"));
        },
        Some(network) => network,
    };
    let member_id: Option<String> = match member {
        None => None,
        Some(member) => Some(
            identify_member(network, member, "payment history member was not found")?,
        ),
    };
    let test = |authorization: &PaymentAuthorizationRecord| -> (b: bool)
        ensures
            b == in_history(commitment@, member_id.deep_view())(authorization.deep_view()),
        { belongs_to_history(authorization, commitment.as_str(), &member_id) };
    let items = collect_where(
        &ledger.payment_authorizations,
        Ghost(in_history(commitment@, member_id.deep_view())),
        test,
    );
    let (total_settled, total_reserved) = total_history(&items)?;
    let mut authorizations = arrange(&items);
    let bound: usize = min_usize(limit, 1_000);
    let ghost sorted = authorizations.deep_view();
    if authorizations.len() > bound {
        authorizations.truncate(bound);
    }
    assert(authorizations.deep_view() =~= shown_first(sorted, least(limit as int, 1_000)));
    Ok(
        PaymentHistoryView {
            network: network.alias.clone(),
            network_commitment: commitment.clone(),
            fund_balance: network.escrow_balance,
            total_settled,
            total_reserved,
            authorizations,
        },
    )
}

/// The key of a member of a session.
pub open spec fn participant_key(network: NetworkModel, member_id: Seq<char>) -> Outcome<Seq<char>> {
    match member_named(network.members, member_id) {
        Some(name) => Ok(network.members[name].public_key),
        None => Err("payment authorization Member is missing"@),
    }
}

fn find_participant_key(network: &NetworkRecord, member_id: &str) -> (r: Result<String>)
    ensures
        match participant_key(network.deep_view(), member_id@) {
            Ok(key) => r matches Ok(text) && text@ == key,
            Err(refusal) => r matches Err(error) && error@ == refusal,
        },
{
    match find_member(&network.members, member_id) {
        Some(member) => Ok(member.public_key.clone()),
        None => Err(Error::msg("payment authorization Member is missing")),
    }
}

/// A reservation as a relay sees it.
pub open spec fn relay_shown(ledger: LedgerModel, name: Seq<char>) -> Outcome<
    RelayAuthorizationViewModel,
> {
    match authorization_named(ledger, name) {
        None => Err("payment authorization was not found"@),
        Some(authorization) => {
            let commitment = authorization.network_commitment;
            if !ledger.networks.contains_key(commitment) {
                Err("payment authorization Network is missing"@)
            } else {
                let network = ledger.networks[commitment];
                let id = authorization.authorization_id;
                match participant_key(network, authorization.sender_member_id) {
                    Err(refusal) => Err(refusal),
                    Ok(sender_public_key) => match participant_key(
                        network,
                        authorization.receiver_member_id,
                    ) {
                        Err(refusal) => Err(refusal),
                        Ok(receiver_public_key) => Ok(
                            RelayAuthorizationViewModel {
                                ledger_id: ledger.ledger_id,
                                authorization,
                                sender_public_key,
                                receiver_public_key,
                                finalized: ledger.operations.contains_key(id)
                                    && ledger.operations[id].status == OperationStatus::Finalized,
                            },
                        ),
                    },
                }
            }
        },
    }
}

/// Shows a reservation to a relay.
pub fn relay_authorization_view(
    ledger: &LedgerState,
    authorization_id_or_session_id: &str,
) -> (r: Result<RelayAuthorizationView>)
    ensures
        outcome(r) == relay_shown(ledger@, authorization_id_or_session_id@),
{
    let authorization = match find_authorization(ledger, authorization_id_or_session_id) {
        None => {
            return Err(Error::msg("payment authorization was not found"));
        },
        Some(authorization) => authorization.replicate(),
    };
    match ledger.networks.get(&authorization.network_commitment) {
        None => Err(Error::msg("payment authorization Network is missing")),
        Some(network) => {
            let finalized = match ledger.operations.get(&authorization.authorization_id) {
                Some(operation) => matches!(operation.status, OperationStatus::Finalized),
                None => false,
            };
            let sender_public_key = find_participant_key(
                network,
                authorization.sender_member_id.as_str(),
            )?;
            let receiver_public_key = find_participant_key(
                network,
                authorization.receiver_member_id.as_str(),
            )?;
            Ok(
                RelayAuthorizationView {
                    ledger_id: ledger.ledger_id.clone(),
                    authorization,
                    sender_public_key,
                    receiver_public_key,
                    finalized,
                },
            )
        },
    }
}

/// A relay channel: the node, the network and the two members.
pub struct ChannelModel {
    pub node_id: u64,
    pub network_id: Seq<char>,
    pub source: Seq<char>,
    pub destination: Seq<char>,
}

/// The reservation of a relay channel, if it is final, for that channel and still open.
pub open spec fn channel_checked(
    ledger: LedgerModel,
    name: Seq<char>,
    channel: ChannelModel,
) -> Outcome<RelayAuthorizationViewModel> {
    match relay_shown(ledger, name) {
        Err(refusal) => Err(refusal),
        Ok(view) => {
            let authorization = view.authorization;
            if !view.finalized {
                Err("payment authorization is not finalized"@)
            } else if authorization.node_id != channel.node_id || authorization.network_id
                != channel.network_id || authorization.sender_member_id != channel.source
                || authorization.receiver_member_id != channel.destination {
                Err("payment authorization does not match this Relay channel"@)
            } else if authorization.refunded_at is Some || authorization.reserved_remaining == 0 {
                Err("payment authorization is not active"@)
            } else {
                Ok(view)
            }
        },
    }
}

fn validate_relay_open_participants(
    ledger: &LedgerState,
    authorization_id: &str,
    node_id: u64,
    network_id: &str,
    source_member_id: &str,
    destination_member_id: &str,
) -> (r: Result<RelayAuthorizationView>)
    ensures
        outcome(r) == channel_checked(
            ledger@,
            authorization_id@,
            ChannelModel {
                node_id,
                network_id: network_id@,
                source: source_member_id@,
                destination: destination_member_id@,
            },
        ),
{
    let view = relay_authorization_view(ledger, authorization_id)?;
    let authorization = &view.authorization;
    if !view.finalized {
        return Err(Error::msg("payment authorization is not finalized"));
    }
    if authorization.node_id != node_id || !text_same(
        authorization.network_id.as_str(),
        network_id,
    ) || !text_same(authorization.sender_member_id.as_str(), source_member_id) || !text_same(
        authorization.receiver_member_id.as_str(),
        destination_member_id,
    ) {
        return Err(Error::msg("payment authorization does not match this Relay channel"));
    }
    if authorization.refunded_at.is_some() || authorization.reserved_remaining == 0 {
        return Err(Error::msg("payment authorization is not active"));
    }
    Ok(view)
}

/// The reservation of a relay channel that may be opened at a time.
pub open spec fn channel_opened(
    ledger: LedgerModel,
    name: Seq<char>,
    channel: ChannelModel,
    now: i64,
) -> Outcome<RelayAuthorizationViewModel> {
    match channel_checked(ledger, name, channel) {
        Err(refusal) => Err(refusal),
        Ok(view) => if view.authorization.created_at <= now < view.authorization.valid_until {
            Ok(view)
        } else {
            Err("payment authorization is not active"@)
        },
    }
}

/// Checks that a relay channel may be opened.
pub fn validate_relay_open(
    ledger: &LedgerState,
    authorization_id: &str,
    node_id: u64,
    network_id: &str,
    source_member_id: &str,
    destination_member_id: &str,
    now: i64,
) -> (r: Result<RelayAuthorizationView>)
    ensures
        outcome(r) == channel_opened(
            ledger@,
            authorization_id@,
            ChannelModel {
                node_id,
                network_id: network_id@,
                source: source_member_id@,
                destination: destination_member_id@,
            },
            now,
        ),
{
    let view = validate_relay_open_participants(
        ledger,
        authorization_id,
        node_id,
        network_id,
        source_member_id,
        destination_member_id,
    )?;
    if now < view.authorization.created_at || now >= view.authorization.valid_until {
        return Err(Error::msg("payment authorization is not active"));
    }
    Ok(view)
}

/// The reservation of a relay channel that may be opened again at a time.
pub open spec fn channel_recovered(
    ledger: LedgerModel,
    name: Seq<char>,
    channel: ChannelModel,
    now: i64,
) -> Outcome<RelayAuthorizationViewModel> {
    match channel_checked(ledger, name, channel) {
        Err(refusal) => Err(refusal),
        Ok(view) => if view.authorization.created_at <= now < view.authorization.claim_until {
            Ok(view)
        } else {
            Err("payment authorization recovery window has expired"@)
        },
    }
}

/// Checks that a relay channel may be opened again, to settle what it carried.
pub fn validate_relay_recovery_open(
    ledger: &LedgerState,
    authorization_id: &str,
    node_id: u64,
    network_id: &str,
    source_member_id: &str,
    destination_member_id: &str,
    now: i64,
) -> (r: Result<RelayAuthorizationView>)
    ensures
        outcome(r) == channel_recovered(
            ledger@,
            authorization_id@,
            ChannelModel {
                node_id,
                network_id: network_id@,
                source: source_member_id@,
                destination: destination_member_id@,
            },
            now,
        ),
{
    let view = validate_relay_open_participants(
        ledger,
        authorization_id,
        node_id,
        network_id,
        source_member_id,
        destination_member_id,
    )?;
    if now < view.authorization.created_at || now >= view.authorization.claim_until {
        return Err(Error::msg("payment authorization recovery window has expired"));
    }
    Ok(view)
}

/// A channel that may be opened may also be opened again, since a reservation can be claimed for
/// longer than it can be used.
pub proof fn open_channels_recover(
    ledger: LedgerModel,
    name: Seq<char>,
    channel: ChannelModel,
    now: i64,
)
    requires
        channel_opened(ledger, name, channel, now) matches Ok(view)
            && view.authorization.valid_until <= view.authorization.claim_until,
    ensures
        channel_recovered(ledger, name, channel, now) == channel_opened(ledger, name, channel, now),
{
}

/// The open payments of interrupted sessions are listed from the latest interruption to the earliest.
pub proof fn latest_interruptions_come_first(
    ledger: LedgerModel,
    sessions: Seq<RelaySessionModel>,
    network: Option<Seq<char>>,
    member: Option<Seq<char>>,
    node_id: Option<u64>,
    i: int,
    j: int,
)
    requires
        unsettled_shown(ledger, sessions, network, member, node_id) is Ok,
        0 <= i < j < unsettled_shown(ledger, sessions, network, member, node_id)->Ok_0.len(),
    ensures
        ({
            let shown = unsettled_shown(ledger, sessions, network, member, node_id)->Ok_0;
            &&& shown[i].session.disconnected_at >= shown[j].session.disconnected_at
            &&& shown[i].authorization.reserved_remaining > 0
            &&& shown[i].authorization.refunded_at is None
            &&& shown[i].authorization.closed_at is None
            &&& shown[i].authorization
                == ledger.payment_authorizations[shown[i].session.authorization_id]
        }),
{
    let limits = filter_read(ledger, network, member, node_id)->Ok_0;
    let items = unsettled_of(ledger, sessions, limits);
    crate::sequence::arranged_are_in_order::<UnsettledPaymentView>(items);
    let open = |item: UnsettledPaymentViewModel|
        item.authorization.reserved_remaining > 0 && item.authorization.refunded_at is None
            && item.authorization.closed_at is None && item.authorization
            == ledger.payment_authorizations[item.session.authorization_id];
    unsettled_are_open(ledger, sessions, limits, open);
    crate::sequence::arranged_all::<UnsettledPaymentView>(items, open);
    let shown = arranged::<UnsettledPaymentView>(items);
    assert(!UnsettledPaymentView::precedes(shown[j], shown[i]));
    assert(open(shown[i]));
}

proof fn unsettled_are_open(
    ledger: LedgerModel,
    sessions: Seq<RelaySessionModel>,
    limits: FilterModel,
    open: spec_fn(UnsettledPaymentViewModel) -> bool,
)
    requires
        open == (|item: UnsettledPaymentViewModel|
            item.authorization.reserved_remaining > 0 && item.authorization.refunded_at is None
                && item.authorization.closed_at is None && item.authorization
                == ledger.payment_authorizations[item.session.authorization_id]),
    ensures
        forall|i: int|
            0 <= i < unsettled_of(ledger, sessions, limits).len() ==> open(
                #[trigger] unsettled_of(ledger, sessions, limits)[i],
            ),
    decreases sessions.len(),
{
    if sessions.len() > 0 {
        let earlier = unsettled_of(ledger, sessions.drop_last(), limits);
        unsettled_are_open(ledger, sessions.drop_last(), limits, open);
        let all = unsettled_of(ledger, sessions, limits);
        assert forall|i: int| 0 <= i < all.len() implies open(#[trigger] all[i]) by {
            if i < earlier.len() {
                assert(all[i] == earlier[i]);
            }
        }
    }
}

/// The payments of a network are listed from the latest to the earliest, and no more of them than asked
/// for; the totals are those of all payments that belong to what was asked for.
pub proof fn latest_payments_come_first(
    ledger: LedgerModel,
    network: Seq<char>,
    member: Option<Seq<char>>,
    limit: usize,
    i: int,
    j: int,
)
    requires
        history_shown(ledger, network, member, limit) is Ok,
        0 <= i < j < history_shown(ledger, network, member, limit)->Ok_0.authorizations.len(),
    ensures
        ({
            let shown = history_shown(ledger, network, member, limit)->Ok_0;
            &&& shown.authorizations[i].created_at >= shown.authorizations[j].created_at
            &&& shown.authorizations.len() <= limit
            &&& shown.authorizations.len() <= 1_000
            &&& shown.authorizations[i].network_commitment == shown.network_commitment
            &&& shown.fund_balance == ledger.networks[shown.network_commitment].escrow_balance
        }),
{
    let commitment = network_resolved(ledger, network)->Ok_0;
    let member_id = history_member(ledger.networks[commitment], member)->Ok_0;
    let met = in_history(commitment, member_id);
    let items = values_where::<String, AuthorizationModel>(ledger.payment_authorizations, met);
    assert forall|a: AuthorizationModel, b: AuthorizationModel| #[trigger]
        PaymentAuthorizationRecord::precedes(a, b) implies !PaymentAuthorizationRecord::precedes(
        b,
        a,
    ) by {
        crate::text::texts_are_in_order(a.authorization_id, b.authorization_id, a.authorization_id);
    }
    assert forall|a: AuthorizationModel, b: AuthorizationModel, c: AuthorizationModel|
        #![trigger PaymentAuthorizationRecord::precedes(b, a), PaymentAuthorizationRecord::precedes(c, b)]
        !PaymentAuthorizationRecord::precedes(b, a) && !PaymentAuthorizationRecord::precedes(
            c,
            b,
        ) implies !PaymentAuthorizationRecord::precedes(c, a) by {
        let (x, y, z) = (a.authorization_id, b.authorization_id, c.authorization_id);
        crate::text::texts_are_in_order(x, z, y);
        crate::text::texts_are_in_order(y, x, z);
        crate::text::texts_are_in_order(z, y, x);
    }
    crate::sequence::arranged_are_in_order::<PaymentAuthorizationRecord>(items);
    let keys = crate::table::ordered::<String>(ledger.payment_authorizations.dom());
    let chosen = |key: Seq<char>| met(ledger.payment_authorizations[key]);
    crate::sequence::filtered_are_members(keys, chosen);
    assert forall|k: int| 0 <= k < items.len() implies met(#[trigger] items[k]) by {
        assert(chosen(keys.filter(chosen)[k]));
    }
    crate::sequence::arranged_all::<PaymentAuthorizationRecord>(items, met);
    let sorted = arranged::<PaymentAuthorizationRecord>(items);
    assert(!PaymentAuthorizationRecord::precedes(sorted[j], sorted[i]));
    assert(met(sorted[i]));
}

/// The totals of a list of payments are the sums of what the payments have paid and hold: a payment in
/// front of others adds its own amounts.
pub proof fn payment_totals_add_up(
    items: Seq<AuthorizationModel>,
    payment: AuthorizationModel,
    start: u128,
)
    requires
        start + payment.settled_amount <= u128::MAX,
        start + payment.reserved_remaining <= u128::MAX,
    ensures
        settled_total(seq![payment] + items, start) == settled_total(
            items,
            (start + payment.settled_amount) as u128,
        ),
        reserved_total(seq![payment] + items, start) == reserved_total(
            items,
            (start + payment.reserved_remaining) as u128,
        ),
        settled_total(Seq::<AuthorizationModel>::empty(), start) == Ok::<u128, Seq<char>>(start),
        reserved_total(Seq::<AuthorizationModel>::empty(), start) == Ok::<u128, Seq<char>>(start),
{
    assert((seq![payment] + items).drop_first() =~= items);
}

} // verus!
