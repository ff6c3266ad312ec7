use vstd::prelude::*;
use vstd::string::*;
use vstd::utf8::*;

use crate::crypto::{
    address_from_public_key, address_of, base64_decoded, decode_standard, signature_checked,
    verify_bytes,
};
use crate::envelope::{name_checked, validate_name};
use crate::error::{outcome, Error, Outcome, Result};
use crate::json::{
    json_list, json_member, json_quoted, list_texts, put_i64, put_text, put_u32, put_u64, put_value,
};
use crate::model::{
    AuthorizationModel, CredentialModel, Field, FieldModel, LedgerModel, LedgerState,
    MemberCredential, MemberModel, MemberRecord, NetworkModel, NetworkRecord, NodeStatus, Payload,
    PaymentAuthorizationRecord, TrafficDirectionSettlement,
};
use crate::networks::{
    expired_reclaimed, member_reserved, session_id_checked, session_in_use, take_back_expired,
    validate_payment_session_id, with_network, NetworkReply, ReplyModel,
};
use crate::nodes::{price_checked, validate_price_per_gib};
use crate::number::{clamped_i64, least, min_u128, saturating_add_i64, saturating_sub_i64};
use crate::operations::{named_network, payload_network_commitment};
use crate::payload::{
    malformed, malformed_field, parse_payload_u128, payload_i64, payload_str, payload_u64,
    required_amount, required_i64, required_text, required_u64, PayloadModel,
};
use crate::protocol::{initial_direction, PROTOCOL_VERSION, RELAY_PAYMENT_CLAIM_SECONDS};
use crate::sequence::{first_where, first_where_ends, first_where_step};
use crate::table::{ordered, Replicate, Table};
use crate::text::{decimal, join3, signed_decimal, text_same, u64_text};
use crate::traffic::{find_member, member_named};

verus! {

/// What a member asks for when it reserves a session.
pub struct SessionModel {
    pub node_id: u64,
    pub sender: Seq<char>,
    pub receiver: Seq<char>,
    pub session_id: Seq<char>,
    pub amount: u128,
    pub valid_until: i64,
    pub policy_revision: u64,
    pub price: u128,
}

/// The session in a payload.
pub open spec fn session_read(ledger: LedgerModel, payload: PayloadModel) -> Outcome<SessionModel> {
    match required_u64(payload, "node_id"@, "payment Node ID is invalid"@) {
        Err(refusal) => Err(refusal),
        Ok(node_id) => match required_text(payload, "sender_member_id"@) {
            Err(refusal) => Err(refusal),
            Ok(sender) => match required_text(payload, "receiver_member_id"@) {
                Err(refusal) => Err(refusal),
                Ok(receiver) => match required_text(payload, "session_id"@) {
                    Err(refusal) => Err(refusal),
                    Ok(session_id) => if sender == receiver {
                        Err("payment sender and receiver must be different members"@)
                    } else {
                        match session_id_checked(session_id) {
                            Err(refusal) => Err(refusal),
                            Ok(_) => if session_in_use(ledger, session_id) {
                                Err("payment Session ID is already in use"@)
                            } else {
                                match terms_read(payload) {
                                    Err(refusal) => Err(refusal),
                                    Ok(terms) => Ok(
                                        SessionModel {
                                            node_id,
                                            sender,
                                            receiver,
                                            session_id,
                                            amount: terms.0,
                                            valid_until: terms.1,
                                            policy_revision: terms.2,
                                            price: terms.3,
                                        },
                                    ),
                                }
                            },
                        }
                    },
                },
            },
        },
    }
}

/// The amount, the end, the policy and the price of a session in a payload.
pub open spec fn terms_read(payload: PayloadModel) -> Outcome<(u128, i64, u64, u128)> {
    match required_amount(payload, "max_amount_base_units"@) {
        Err(refusal) => Err(refusal),
        Ok(amount) => if amount == 0 {
            Err("payment maximum amount must be greater than zero"@)
        } else {
            match required_i64(
                payload,
                "authorization_valid_until"@,
                "payment authorization expiry is invalid"@,
            ) {
                Err(refusal) => Err(refusal),
                Ok(valid_until) => match required_u64(
                    payload,
                    "spending_policy_revision"@,
                    "spending policy revision is invalid"@,
                ) {
                    Err(refusal) => Err(refusal),
                    Ok(policy_revision) => match required_amount(
                        payload,
                        "expected_price_per_gib_base_units"@,
                    ) {
                        Err(refusal) => Err(refusal),
                        Ok(price) => match price_checked(price) {
                            Err(refusal) => Err(refusal),
                            Ok(_) => Ok((amount, valid_until, policy_revision, price)),
                        },
                    },
                },
            }
        },
    }
}

struct Session {
    node_id: u64,
    sender: String,
    receiver: String,
    session_id: String,
    amount: u128,
    valid_until: i64,
    policy_revision: u64,
    price: u128,
}

impl DeepView for Session {
    type V = SessionModel;

    closed spec fn deep_view(&self) -> SessionModel {
        SessionModel {
            node_id: self.node_id,
            sender: self.sender@,
            receiver: self.receiver@,
            session_id: self.session_id@,
            amount: self.amount,
            valid_until: self.valid_until,
            policy_revision: self.policy_revision,
            price: self.price,
        }
    }
}

fn read_terms(payload: &Payload) -> (r: Result<(u128, i64, u64, u128)>)
    ensures
        outcome(r) == terms_read(payload.deep_view()),
{
    let amount = parse_payload_u128(payload, "max_amount_base_units")?;
    if amount == 0 {
        return Err(Error::msg("payment maximum amount must be greater than zero"));
    }
    let valid_until = payload_i64(
        payload,
        "authorization_valid_until",
        "payment authorization expiry is invalid",
    )?;
    let policy_revision = payload_u64(
        payload,
        "spending_policy_revision",
        "spending policy revision is invalid",
    )?;
    let price = validate_price_per_gib(
        parse_payload_u128(payload, "expected_price_per_gib_base_units")?,
    )?;
    Ok((amount, valid_until, policy_revision, price))
}

fn read_session(ledger: &LedgerState, payload: &Payload) -> (r: Result<Session>)
    ensures
        outcome(r) == session_read(ledger@, payload.deep_view()),
{
    let node_id = payload_u64(payload, "node_id", "payment Node ID is invalid")?;
    let sender = payload_str(payload, "sender_member_id")?;
    let receiver = payload_str(payload, "receiver_member_id")?;
    let session_id = payload_str(payload, "session_id")?;
    if text_same(sender.as_str(), receiver.as_str()) {
        return Err(Error::msg("payment sender and receiver must be different members"));
    }
    validate_payment_session_id(session_id.as_str())?;
    if crate::networks::is_session_in_use(ledger, session_id.as_str()) {
        return Err(Error::msg("payment Session ID is already in use"));
    }
    let (amount, valid_until, policy_revision, price) = read_terms(payload)?;
    Ok(
        Session {
            node_id,
            sender,
            receiver,
            session_id,
            amount,
            valid_until,
            policy_revision,
            price,
        },
    )
}

/// Whether a node takes a session at a price.
pub open spec fn relay_checked(ledger: LedgerModel, session: SessionModel) -> Outcome<()> {
    if !ledger.nodes.contains_key(session.node_id) {
        Err("payment Node is not registered"@)
    } else {
        let node = ledger.nodes[session.node_id];
        if node.status == NodeStatus::Draining || node.status == NodeStatus::Exited || node.status
            == NodeStatus::Suspended {
            Err("payment Node is not accepting new sessions"@)
        } else if node.price_per_gib != session.price {
            Err("Relay Node price changed; refresh the quote before reserving a session"@)
        } else {
            Ok(())
        }
    }
}

/// Whether a network's policy allows a session.
pub open spec fn policy_allows(network: NetworkModel, session: SessionModel, at: i64) -> Outcome<()> {
    let policy = network.spending_policy;
    if !policy.enabled {
        Err("member spending is disabled for this Network"@)
    } else if policy.revision != session.policy_revision {
        Err("spending policy revision is stale"@)
    } else if session.price > policy.max_node_price_per_gib {
        Err("Relay Node price exceeds the Network policy"@)
    } else if session.valid_until <= at || clamped_i64(session.valid_until - at)
        > policy.max_session_minutes * 60 {
        Err("payment authorization exceeds the Network session duration policy"@)
    } else {
        Ok(())
    }
}

/// Whether a member may take part in a session that ends at a time.
pub open spec fn member_lasts(network: NetworkModel, member_id: Seq<char>, until: i64) -> Outcome<
    (),
> {
    match member_named(network.members, member_id) {
        None => Err("payment member is not registered"@),
        Some(name) => if network.members[name].revoked_at is Some || network.members[name].expires_at
            < until {
            Err("payment member is revoked or expires before the authorization"@)
        } else {
            Ok(())
        },
    }
}

/// Whether the signer is the member that starts a session, and both members last.
pub open spec fn members_allowed(
    network: NetworkModel,
    session: SessionModel,
    signer: Seq<char>,
    public_key: Seq<char>,
) -> Outcome<()> {
    match member_named(network.members, session.sender) {
        None => Err("payment sender member is not registered"@),
        Some(name) => {
            let sender = network.members[name];
            if sender.public_key != public_key {
                Err("only the initiating Network member can reserve a session"@)
            } else {
                match base64_decoded(sender.public_key) {
                    None => Err("member public key is not valid base64"@),
                    Some(key) => if address_of(key) != signer {
                        Err("only the initiating Network member can reserve a session"@)
                    } else {
                        match member_lasts(network, session.sender, session.valid_until) {
                            Err(refusal) => Err(refusal),
                            Ok(_) => member_lasts(network, session.receiver, session.valid_until),
                        }
                    },
                }
            }
        },
    }
}

/// How much a session may cost: what was asked for, as far as the policy, the member's reservations
/// and the network's fund allow.
pub open spec fn session_limit(
    network: NetworkModel,
    session: SessionModel,
    reserved: u128,
) -> u128 {
    let policy = network.spending_policy;
    let capacity = if policy.max_member_reserved > reserved {
        policy.max_member_reserved - reserved
    } else {
        0
    };
    least(
        least(least(session.amount as int, policy.max_session_amount as int), capacity),
        network.escrow_balance as int,
    ) as u128
}

/// A reservation that has just been made.
pub open spec fn authorization_made(
    ledger: LedgerModel,
    commitment: Seq<char>,
    session: SessionModel,
    amount: u128,
    operation_id: Seq<char>,
    at: i64,
) -> AuthorizationModel {
    let network = ledger.networks[commitment];
    AuthorizationModel {
        authorization_id: operation_id,
        network_commitment: commitment,
        network_id: network.network_id,
        payer_address: network.owner_address,
        node_id: session.node_id,
        sender_member_id: session.sender,
        receiver_member_id: session.receiver,
        session_id: session.session_id,
        price_per_gib: session.price,
        max_amount: amount,
        reserved_remaining: amount,
        settled_amount: 0,
        traffic_protocol_fee_bps: ledger.settings.fee_policy.traffic_protocol_fee_bps,
        traffic_treasury_share_bps: ledger.settings.fee_policy.traffic_treasury_share_bps,
        created_at: at,
        valid_until: session.valid_until,
        claim_until: clamped_i64(session.valid_until + RELAY_PAYMENT_CLAIM_SECONDS),
        refunded_at: None,
        closed_at: None,
        sender_to_receiver: Some(initial_direction()),
        receiver_to_sender: Some(initial_direction()),
        initiator_member_id: session.sender,
        spending_policy_revision: session.policy_revision,
    }
}

/// The ledger after a member has reserved a session out of its network's fund.
pub open spec fn session_reserved(
    ledger: LedgerModel,
    payload: PayloadModel,
    signer: Seq<char>,
    public_key: Seq<char>,
    operation_id: Seq<char>,
    at: i64,
) -> Outcome<(LedgerModel, ReplyModel)> {
    match named_network(ledger, payload) {
        Err(refusal) => Err(refusal),
        Ok(commitment) => match expired_reclaimed(ledger, commitment, at) {
            Err(refusal) => Err(refusal),
            Ok(reclaimed) => match session_read(reclaimed, payload) {
                Err(refusal) => Err(refusal),
                Ok(session) => match relay_checked(reclaimed, session) {
                    Err(refusal) => Err(refusal),
                    Ok(_) => match policy_allows(reclaimed.networks[commitment], session, at) {
                        Err(refusal) => Err(refusal),
                        Ok(_) => match members_allowed(
                            reclaimed.networks[commitment],
                            session,
                            signer,
                            public_key,
                        ) {
                            Err(refusal) => Err(refusal),
                            Ok(_) => match member_reserved(
                                reclaimed,
                                commitment,
                                session.sender,
                            ) {
                                Err(refusal) => Err(refusal),
                                Ok(reserved) => {
                                    let network = reclaimed.networks[commitment];
                                    let amount = session_limit(network, session, reserved);
                                    let record = authorization_made(
                                        reclaimed,
                                        commitment,
                                        session,
                                        amount,
                                        operation_id,
                                        at,
                                    );
                                    if amount == 0 {
                                        Err(
                                            "Network Fund or member reservation capacity is exhausted"@,
                                        )
                                    } else {
                                        Ok(
                                            (
                                                LedgerModel {
                                                    payment_authorizations:
                                                        reclaimed.payment_authorizations.insert(
                                                        operation_id,
                                                        record,
                                                    ),
                                                    ..with_network(
                                                        reclaimed,
                                                        commitment,
                                                        NetworkModel {
                                                            escrow_balance: (network.escrow_balance
                                                                - amount) as u128,
                                                            ..network
                                                        },
                                                    )
                                                },
                                                ReplyModel::Reserved(record),
                                            ),
                                        )
                                    }
                                },
                            },
                        },
                    },
                },
            },
        },
    }
}

fn check_relay(ledger: &LedgerState, session: &Session) -> (r: Result<()>)
    ensures
        outcome(r) == relay_checked(ledger@, session.deep_view()),
{
    match ledger.nodes.get(&session.node_id) {
        None => Err(Error::msg("payment Node is not registered")),
        Some(node) => {
            if matches!(
                node.status,
                NodeStatus::Draining | NodeStatus::Exited | NodeStatus::Suspended
            ) {
                return Err(Error::msg("payment Node is not accepting new sessions"));
            }
            if node.price_per_gib != session.price {
                return Err(
                    Error::msg(
                        "Relay Node price changed; refresh the quote before reserving a session",
                    ),
                );
            }
            Ok(())
        },
    }
}

fn check_policy(network: &NetworkRecord, session: &Session, at: i64) -> (r: Result<()>)
    ensures
        outcome(r) == policy_allows(network.deep_view(), session.deep_view(), at),
{
    let policy = &network.spending_policy;
    if !policy.enabled {
        return Err(Error::msg("member spending is disabled for this Network"));
    }
    if policy.revision != session.policy_revision {
        return Err(Error::msg("spending policy revision is stale"));
    }
    if session.price > policy.max_node_price_per_gib {
        return Err(Error::msg("Relay Node price exceeds the Network policy"));
    }
    if session.valid_until <= at || saturating_sub_i64(session.valid_until, at)
        > policy.max_session_minutes as i64 * 60 {
        return Err(
            Error::msg("payment authorization exceeds the Network session duration policy"),
        );
    }
    Ok(())
}

fn check_member_lasts(network: &NetworkRecord, member_id: &str, until: i64) -> (r: Result<()>)
    ensures
        outcome(r) == member_lasts(network.deep_view(), member_id@, until),
{
    match find_member(&network.members, member_id) {
        None => Err(Error::msg("payment member is not registered")),
        Some(member) => {
            if member.revoked_at.is_some() || member.expires_at < until {
                return Err(
                    Error::msg("payment member is revoked or expires before the authorization"),
                );
            }
            Ok(())
        },
    }
}

fn check_members(
    network: &NetworkRecord,
    session: &Session,
    signer: &str,
    public_key: &str,
) -> (r: Result<()>)
    ensures
        outcome(r) == members_allowed(
            network.deep_view(),
            session.deep_view(),
            signer@,
            public_key@,
        ),
{
    match find_member(&network.members, session.sender.as_str()) {
        None => {
            return Err(Error::msg("payment sender member is not registered"));
        },
        Some(sender) => {
            if !text_same(sender.public_key.as_str(), public_key) {
                return Err(
                    Error::msg("only the initiating Network member can reserve a session"),
                );
            }
            match decode_standard(sender.public_key.as_str()) {
                None => {
                    return Err(Error::msg("member public key is not valid base64"));
                },
                Some(key) => {
                    let address = address_from_public_key(key.as_slice());
                    if !text_same(address.as_str(), signer) {
                        return Err(
                            Error::msg("only the initiating Network member can reserve a session"),
                        );
                    }
                },
            }
        },
    }
    check_member_lasts(network, session.sender.as_str(), session.valid_until)?;
    check_member_lasts(network, session.receiver.as_str(), session.valid_until)
}

fn limit_session(network: &NetworkRecord, session: &Session, reserved: u128) -> (r: u128)
    ensures
        r == session_limit(network.deep_view(), session.deep_view(), reserved),
        r <= network.escrow_balance,
{
    let policy = &network.spending_policy;
    let capacity: u128 = policy.max_member_reserved.saturating_sub(reserved);
    min_u128(
        min_u128(min_u128(session.amount, policy.max_session_amount), capacity),
        network.escrow_balance,
    )
}

fn make_authorization(
    ledger: &LedgerState,
    network: &NetworkRecord,
    commitment: &String,
    session: &Session,
    amount: u128,
    operation_id: &str,
    at: i64,
) -> (r: PaymentAuthorizationRecord)
    requires
        network.deep_view() == ledger@.networks[commitment@],
    ensures
        r.deep_view() == authorization_made(
            ledger@,
            commitment@,
            session.deep_view(),
            amount,
            operation_id@,
            at,
        ),
{
    PaymentAuthorizationRecord {
        authorization_id: operation_id.to_owned(),
        network_commitment: commitment.clone(),
        network_id: network.network_id.clone(),
        payer_address: network.owner_address.clone(),
        node_id: session.node_id,
        sender_member_id: session.sender.clone(),
        receiver_member_id: session.receiver.clone(),
        session_id: session.session_id.clone(),
        price_per_gib: session.price,
        max_amount: amount,
        reserved_remaining: amount,
        settled_amount: 0,
        traffic_protocol_fee_bps: ledger.settings.fee_policy.traffic_protocol_fee_bps,
        traffic_treasury_share_bps: ledger.settings.fee_policy.traffic_treasury_share_bps,
        created_at: at,
        valid_until: session.valid_until,
        claim_until: saturating_add_i64(session.valid_until, RELAY_PAYMENT_CLAIM_SECONDS),
        refunded_at: None,
        closed_at: None,
        sender_to_receiver: Some(TrafficDirectionSettlement::default()),
        receiver_to_sender: Some(TrafficDirectionSettlement::default()),
        initiator_member_id: session.sender.clone(),
        spending_policy_revision: session.policy_revision,
    }
}

/// Reserves an amount for a session.
/// On a refusal the ledger may be left half-way.
fn open_reservation(
    ledger: &mut LedgerState,
    payload: &Payload,
    signer: &str,
    public_key: &str,
    operation_id: &str,
    at: i64,
) -> (r: Result<NetworkReply>)
    ensures
        match session_reserved(
            old(ledger)@,
            payload.deep_view(),
            signer@,
            public_key@,
            operation_id@,
            at,
        ) {
            Ok(next) => final(ledger)@ == next.0 && (r matches Ok(reply) && reply.deep_view()
                == next.1),
            Err(refusal) => r matches Err(error) && error@ == refusal,
        },
{
    let commitment = payload_network_commitment(ledger, payload)?;
    take_back_expired(ledger, &commitment, at)?;
    let session = read_session(ledger, payload)?;
    check_relay(ledger, &session)?;
    let (record, amount): (PaymentAuthorizationRecord, u128) = match ledger.networks.get(
        &commitment,
    ) {
        None => {
            assert(false) by {
                reclaiming_keeps_networks(old(ledger)@, commitment@, at);
            }
            return Err(Error::msg("payment Network is missing"));
        },
        Some(network) => {
            check_policy(network, &session, at)?;
            check_members(network, &session, signer, public_key)?;
            let reserved = crate::networks::sum_member_reserved(
                ledger,
                commitment.as_str(),
                session.sender.as_str(),
            )?;
            let amount = limit_session(network, &session, reserved);
            if amount == 0 {
                return Err(
                    Error::msg("Network Fund or member reservation capacity is exhausted"),
                );
            }
            (
                make_authorization(
                    ledger,
                    network,
                    &commitment,
                    &session,
                    amount,
                    operation_id,
                    at,
                ),
                amount,
            )
        },
    };
    if let Some(network) = ledger.networks.get_mut(&commitment) {
        network.escrow_balance = network.escrow_balance - amount;
    }
    ledger.payment_authorizations.insert(operation_id.to_owned(), record.replicate());
    Ok(NetworkReply::Reserved(record))
}

/// Reserves a session out of a network's fund.
pub fn reserve_session(
    ledger: &mut LedgerState,
    payload: &Payload,
    signer: &str,
    public_key: &str,
    operation_id: &str,
    at: i64,
) -> (r: Result<NetworkReply>)
    ensures
        match session_reserved(
            old(ledger)@,
            payload.deep_view(),
            signer@,
            public_key@,
            operation_id@,
            at,
        ) {
            Ok(next) => final(ledger)@ == next.0 && (r matches Ok(reply) && reply.deep_view()
                == next.1),
            Err(refusal) => final(ledger)@ == old(ledger)@ && (r matches Err(error) && error@
                == refusal),
        },
{
    let mut next = ledger.copy();
    let done = open_reservation(&mut next, payload, signer, public_key, operation_id, at)?;
    *ledger = next;
    Ok(done)
}

proof fn reclaiming_keeps_networks(ledger: LedgerModel, commitment: Seq<char>, at: i64)
    ensures
        expired_reclaimed(ledger, commitment, at) matches Ok(after) ==> (
        ledger.networks.contains_key(commitment) ==> after.networks.contains_key(commitment)),
{
}

/// The ledger after a reservation has been given back to its network.
pub open spec fn reservation_refunded(
    ledger: LedgerModel,
    payload: PayloadModel,
    signer: Seq<char>,
    at: i64,
) -> Outcome<(LedgerModel, ReplyModel)> {
    match required_text(payload, "authorization_id"@) {
        Err(refusal) => Err(refusal),
        Ok(id) => if !ledger.payment_authorizations.contains_key(id) {
            Err("payment authorization was not found"@)
        } else {
            let authorization = ledger.payment_authorizations[id];
            let by_payer = authorization.payer_address == signer;
            let by_node = ledger.nodes.contains_key(authorization.node_id)
                && ledger.nodes[authorization.node_id].owner_address == signer;
            let commitment = authorization.network_commitment;
            let refund = authorization.reserved_remaining;
            if !by_payer && !by_node {
                Err("only the payment owner or serving Node Owner can request a refund"@)
            } else if by_payer && at <= authorization.claim_until {
                Err("payment authorization claim window is still open"@)
            } else if authorization.refunded_at is Some {
                Err("payment authorization was already refunded"@)
            } else if !ledger.networks.contains_key(commitment) {
                Err("payment Network is missing"@)
            } else if ledger.networks[commitment].escrow_balance + refund > u128::MAX {
                Err("Network Escrow overflow"@)
            } else {
                Ok(
                    (
                        LedgerModel {
                            payment_authorizations: ledger.payment_authorizations.insert(
                                id,
                                AuthorizationModel {
                                    reserved_remaining: 0,
                                    refunded_at: Some(at),
                                    ..authorization
                                },
                            ),
                            ..with_network(
                                ledger,
                                commitment,
                                NetworkModel {
                                    escrow_balance: (ledger.networks[commitment].escrow_balance
                                        + refund) as u128,
                                    ..ledger.networks[commitment]
                                },
                            )
                        },
                        ReplyModel::Refunded { authorization_id: id, amount: refund },
                    ),
                )
            }
        },
    }
}

/// Gives a reservation back to its network.
pub fn refund_reservation(
    ledger: &mut LedgerState,
    payload: &Payload,
    signer: &str,
    at: i64,
) -> (r: Result<NetworkReply>)
    ensures
        match reservation_refunded(old(ledger)@, payload.deep_view(), signer@, at) {
            Ok(next) => final(ledger)@ == next.0 && (r matches Ok(reply) && reply.deep_view()
                == next.1),
            Err(refusal) => final(ledger)@ == old(ledger)@ && (r matches Err(error) && error@
                == refusal),
        },
{
    let id = payload_str(payload, "authorization_id")?;
    let (commitment, refund): (String, u128) = match ledger.payment_authorizations.get(&id) {
        None => {
            return Err(Error::msg("payment authorization was not found"));
        },
        Some(authorization) => {
            let by_payer = text_same(authorization.payer_address.as_str(), signer);
            let by_node = match ledger.nodes.get(&authorization.node_id) {
                None => false,
                Some(node) => text_same(node.owner_address.as_str(), signer),
            };
            if !by_payer && !by_node {
                return Err(
                    Error::msg(
                        "only the payment owner or serving Node Owner can request a refund",
                    ),
                );
            }
            if by_payer && at <= authorization.claim_until {
                return Err(Error::msg("payment authorization claim window is still open"));
            }
            if authorization.refunded_at.is_some() {
                return Err(Error::msg("payment authorization was already refunded"));
            }
            (authorization.network_commitment.clone(), authorization.reserved_remaining)
        },
    };
    match ledger.networks.get_mut(&commitment) {
        None => {
            return Err(Error::msg("payment Network is missing"));
        },
        Some(network) => match network.escrow_balance.checked_add(refund) {
            None => {
                return Err(Error::msg("Network Escrow overflow"));
            },
            Some(balance) => {
                network.escrow_balance = balance;
            },
        },
    }
    if let Some(authorization) = ledger.payment_authorizations.get_mut(&id) {
        authorization.reserved_remaining = 0;
        authorization.refunded_at = Some(at);
    }
    Ok(NetworkReply::Refunded { authorization_id: id, amount: refund })
}

/// The name of the member with a serial number.
pub open spec fn member_with_serial(
    members: Map<Seq<char>, MemberModel>,
    serial: u64,
) -> Option<Seq<char>> {
    first_where(
        ordered::<String>(members.dom()),
        |name: Seq<char>| members[name].serial == serial,
    )
}

/// The ledger after a member has been revoked.
pub open spec fn member_revoked(
    ledger: LedgerModel,
    payload: PayloadModel,
    signer: Seq<char>,
    operation_id: Seq<char>,
    at: i64,
) -> Outcome<(LedgerModel, ReplyModel)> {
    match named_network(ledger, payload) {
        Err(refusal) => Err(refusal),
        Ok(commitment) => match required_u64(
            payload,
            "serial"@,
            "member serial is invalid"@,
        ) {
            Err(refusal) => Err(refusal),
            Ok(serial) => {
                let network = ledger.networks[commitment];
                if network.owner_address != signer {
                    Err("only the Network Owner can revoke members"@)
                } else {
                    match member_with_serial(network.members, serial) {
                        None => Err("member serial "@ + decimal(serial as nat) + " not found"@),
                        Some(name) => if network.members[name].revoked_at is Some {
                            Err("member is already revoked"@)
                        } else {
                            Ok(
                                (
                                    with_network(
                                        ledger,
                                        commitment,
                                        NetworkModel {
                                            members: network.members.insert(
                                                name,
                                                MemberModel {
                                                    revoked_at: Some(at),
                                                    ..network.members[name]
                                                },
                                            ),
                                            ..network
                                        },
                                    ),
                                    ReplyModel::Submitted(operation_id),
                                ),
                            )
                        },
                    }
                }
            },
        },
    }
}

/// What became of the revocation of a member.
pub enum Revocation {
    Done,
    Unknown,
    Already,
}

/// Revokes the member with a serial number.
pub fn revoke_in(members: &mut Table<String, MemberRecord>, serial: u64, at: i64) -> (r: Revocation)
    ensures
        match member_with_serial(old(members)@, serial) {
            None => r is Unknown && final(members)@ == old(members)@,
            Some(name) => if old(members)@[name].revoked_at is Some {
                r is Already && final(members)@ == old(members)@
            } else {
                r is Done && final(members)@ == old(members)@.insert(
                    name,
                    MemberModel { revoked_at: Some(at), ..old(members)@[name] },
                )
            },
        },
{
    let ghost before = members@;
    let ghost keys = members.keys();
    let ghost met = |name: Seq<char>| before[name].serial == serial;
    let mut i: usize = 0;
    proof {
        first_where_ends(keys, met);
    }
    while i < members.len()
        invariant
            i <= keys.len(),
            before == old(members)@,
            members@ == before,
            keys == members.keys(),
            met == (|name: Seq<char>| before[name].serial == serial),
            first_where(keys, met) == first_where(keys.skip(i as int), met),
        decreases keys.len() - i,
    {
        proof {
            first_where_step(keys, i as int, met);
        }
        if members.value_at(i).serial == serial {
            if members.value_at(i).revoked_at.is_some() {
                return Revocation::Already;
            }
            let member = members.value_at_mut(i);
            member.revoked_at = Some(at);
            return Revocation::Done;
        }
        i = i + 1;
    }
    proof {
        first_where_ends(keys, met);
    }
    Revocation::Unknown
}

/// Revokes a member.
pub fn revoke_member_by_serial(
    ledger: &mut LedgerState,
    payload: &Payload,
    signer: &str,
    operation_id: &str,
    at: i64,
) -> (r: Result<NetworkReply>)
    ensures
        match member_revoked(old(ledger)@, payload.deep_view(), signer@, operation_id@, at) {
            Ok(next) => final(ledger)@ == next.0 && (r matches Ok(reply) && reply.deep_view()
                == next.1),
            Err(refusal) => final(ledger)@ == old(ledger)@ && (r matches Err(error) && error@
                == refusal),
        },
{
    let commitment = payload_network_commitment(ledger, payload)?;
    let serial = payload_u64(payload, "serial", "member serial is invalid")?;
    if let Some(network) = ledger.networks.get_mut(&commitment) {
        if !text_same(network.owner_address.as_str(), signer) {
            return Err(Error::msg("only the Network Owner can revoke members"));
        }
        match revoke_in(&mut network.members, serial, at) {
            Revocation::Done => {},
            Revocation::Unknown => {
                return Err(
                    Error::owned(join3("member serial ", u64_text(serial).as_str(), " not found")),
                );
            },
            Revocation::Already => {
                return Err(Error::msg("member is already revoked"));
            },
        }
    }
    Ok(NetworkReply::Submitted(operation_id.to_owned()))
}

/// What a network's owner signs for a member.
pub open spec fn credential_signed(credential: CredentialModel) -> Seq<char> {
    let a = json_member("{"@, "version"@, decimal(credential.version as nat));
    let b = json_member(a, "network_id"@, json_quoted(credential.network_id));
    let c = json_member(b, "member_id"@, json_quoted(credential.member_id));
    let d = json_member(c, "member_public_key"@, json_quoted(credential.member_public_key));
    let e = json_member(
        d,
        "permissions"@,
        json_list(credential.permissions.map_values(|text: Seq<char>| json_quoted(text))),
    );
    let f = json_member(e, "max_connections"@, decimal(credential.max_connections as nat));
    let g = json_member(f, "serial"@, decimal(credential.serial as nat));
    let h = json_member(g, "issued_at"@, signed_decimal(credential.issued_at as int));
    let i = json_member(h, "expires_at"@, signed_decimal(credential.expires_at as int));
    i + "}"@
}

/// Writes what a network's owner signs for a member.
pub fn credential_signing_text(credential: &MemberCredential) -> (r: String)
    ensures
        r@ == credential_signed(credential.deep_view()),
{
    let mut text = "{".to_owned();
    put_u32(&mut text, "version", credential.version);
    put_text(&mut text, "network_id", credential.network_id.as_str());
    put_text(&mut text, "member_id", credential.member_id.as_str());
    put_text(&mut text, "member_public_key", credential.member_public_key.as_str());
    let permissions = list_texts(&credential.permissions);
    put_value(&mut text, "permissions", permissions.as_str());
    put_u32(&mut text, "max_connections", credential.max_connections);
    put_u64(&mut text, "serial", credential.serial);
    put_i64(&mut text, "issued_at", credential.issued_at);
    put_i64(&mut text, "expires_at", credential.expires_at);
    text.append("}");
    text
}

/// The credential in a payload.
pub open spec fn required_credential(payload: PayloadModel) -> Outcome<CredentialModel> {
    if !payload.contains_key("credential"@) {
        Err("member credential is missing"@)
    } else {
        match payload["credential"@] {
            FieldModel::Credential(credential) => Ok(credential),
            _ => Err(malformed_field("credential"@)),
        }
    }
}

/// The network after a member has been admitted.
pub open spec fn member_admitted(
    network: NetworkModel,
    name: Seq<char>,
    credential: CredentialModel,
    signer: Seq<char>,
    public_key: Seq<char>,
    at: i64,
) -> Outcome<NetworkModel> {
    if network.owner_address != signer || network.owner_public_key != public_key {
        Err("only the Network Owner can issue members"@)
    } else if network.members.contains_key(name) || credential.network_id != network.network_id
        || credential.serial != network.next_member_serial || credential.version
        != PROTOCOL_VERSION || credential.issued_at > at || clamped_i64(at - credential.issued_at)
        > 30 || credential.expires_at <= at {
        Err("member credential state is invalid"@)
    } else {
        match signature_checked(
            public_key,
            encode_utf8(credential_signed(credential)),
            credential.owner_signature,
        ) {
            Err(refusal) => Err(refusal),
            Ok(_) => if network.next_member_serial == u64::MAX {
                Err("member serial overflow"@)
            } else {
                Ok(
                    NetworkModel {
                        next_member_serial: (network.next_member_serial + 1) as u64,
                        members: network.members.insert(
                            name,
                            MemberModel {
                                name,
                                member_id: credential.member_id,
                                public_key: credential.member_public_key,
                                serial: credential.serial,
                                issued_at: credential.issued_at,
                                expires_at: credential.expires_at,
                                revoked_at: None,
                                credential_signature: credential.owner_signature,
                            },
                        ),
                        ..network
                    },
                )
            },
        }
    }
}

/// The ledger after a member has been admitted to a network.
pub open spec fn member_issued(
    ledger: LedgerModel,
    payload: PayloadModel,
    signer: Seq<char>,
    public_key: Seq<char>,
    at: i64,
) -> Outcome<(LedgerModel, ReplyModel)> {
    match named_network(ledger, payload) {
        Err(refusal) => Err(refusal),
        Ok(commitment) => match required_text(payload, "member_name"@) {
            Err(refusal) => Err(refusal),
            Ok(name) => match name_checked(name) {
                Err(refusal) => Err(refusal),
                Ok(_) => match required_credential(payload) {
                    Err(refusal) => Err(refusal),
                    Ok(credential) => match member_admitted(
                        ledger.networks[commitment],
                        name,
                        credential,
                        signer,
                        public_key,
                        at,
                    ) {
                        Err(refusal) => Err(refusal),
                        Ok(network) => Ok(
                            (
                                with_network(ledger, commitment, network),
                                ReplyModel::Issued(credential),
                            ),
                        ),
                    },
                },
            },
        },
    }
}

fn admit_member(
    network: &mut NetworkRecord,
    name: String,
    credential: &MemberCredential,
    signer: &str,
    public_key: &str,
    at: i64,
) -> (r: Result<()>)
    ensures
        match member_admitted(
            old(network).deep_view(),
            name@,
            credential.deep_view(),
            signer@,
            public_key@,
            at,
        ) {
            Ok(next) => r is Ok && final(network).deep_view() == next,
            Err(refusal) => final(network).deep_view() == old(network).deep_view() && (
            r matches Err(error) && error@ == refusal),
        },
{
    if !text_same(network.owner_address.as_str(), signer) || !text_same(
        network.owner_public_key.as_str(),
        public_key,
    ) {
        return Err(Error::msg("only the Network Owner can issue members"));
    }
    if network.members.contains_key(&name) || !text_same(
        credential.network_id.as_str(),
        network.network_id.as_str(),
    ) || credential.serial != network.next_member_serial || credential.version
        != PROTOCOL_VERSION || credential.issued_at > at || saturating_sub_i64(
        at,
        credential.issued_at,
    ) > 30 || credential.expires_at <= at {
        return Err(Error::msg("member credential state is invalid"));
    }
    verify_bytes(
        public_key,
        credential_signing_text(credential).as_str().as_bytes(),
        credential.owner_signature.as_str(),
    )?;
    match network.next_member_serial.checked_add(1) {
        None => {
            return Err(Error::msg("member serial overflow"));
        },
        Some(next) => {
            network.next_member_serial = next;
        },
    }
    network.members.insert(
        name.clone(),
        MemberRecord {
            name,
            member_id: credential.member_id.clone(),
            public_key: credential.member_public_key.clone(),
            serial: credential.serial,
            issued_at: credential.issued_at,
            expires_at: credential.expires_at,
            revoked_at: None,
            credential_signature: credential.owner_signature.clone(),
        },
    );
    Ok(())
}

/// Admits a member to a network.
pub fn issue_member_credential(
    ledger: &mut LedgerState,
    payload: &Payload,
    signer: &str,
    public_key: &str,
    at: i64,
) -> (r: Result<NetworkReply>)
    ensures
        match member_issued(old(ledger)@, payload.deep_view(), signer@, public_key@, at) {
            Ok(next) => final(ledger)@ == next.0 && (r matches Ok(reply) && reply.deep_view()
                == next.1),
            Err(refusal) => final(ledger)@ == old(ledger)@ && (r matches Err(error) && error@
                == refusal),
        },
{
    let commitment = payload_network_commitment(ledger, payload)?;
    let name = payload_str(payload, "member_name")?;
    validate_name(name.as_str())?;
    let credential = match payload.get("credential") {
        None => {
            return Err(Error::msg("member credential is missing"));
        },
        Some(Field::Credential(credential)) => credential.replicate(),
        Some(_) => {
            return Err(malformed("credential"));
        },
    };
    if let Some(network) = ledger.networks.get_mut(&commitment) {
        admit_member(network, name, &credential, signer, public_key, at)?;
    }
    Ok(NetworkReply::Issued(credential))
}

/// A session reserves at most what was asked for and what the network has, and what it reserves
/// leaves the network's fund.
pub proof fn reservation_leaves_the_fund(
    ledger: LedgerModel,
    payload: PayloadModel,
    signer: Seq<char>,
    public_key: Seq<char>,
    operation_id: Seq<char>,
    at: i64,
)
    requires
        session_reserved(ledger, payload, signer, public_key, operation_id, at) is Ok,
    ensures
        ({
            let commitment = named_network(ledger, payload)->Ok_0;
            let before = expired_reclaimed(ledger, commitment, at)->Ok_0;
            let after = session_reserved(
                ledger,
                payload,
                signer,
                public_key,
                operation_id,
                at,
            )->Ok_0.0;
            let reserved = after.payment_authorizations[operation_id].reserved_remaining;
            &&& 0 < reserved <= before.networks[commitment].escrow_balance
            &&& reserved <= before.networks[commitment].spending_policy.max_session_amount
            &&& after.networks[commitment].escrow_balance + reserved
                == before.networks[commitment].escrow_balance
        }),
{
}

/// A reservation keeps to the policy of its network and to what the node asks: the network allows
/// spending under the revision that the member has seen, the price is the node's and within the limit,
/// the session is not longer than allowed, and neither one session nor all of the member's together
/// take more than allowed. Within these bounds and the network's fund it takes all that was asked for.
/// It can be claimed for a day after the session's end, and is bound to the fees of the time.
pub proof fn reservations_keep_to_the_policy(
    ledger: LedgerModel,
    payload: PayloadModel,
    signer: Seq<char>,
    public_key: Seq<char>,
    operation_id: Seq<char>,
    at: i64,
)
    requires
        session_reserved(ledger, payload, signer, public_key, operation_id, at) is Ok,
    ensures
        required_text(payload, "network_commitment"@) matches Ok(commitment) && {
            let before = expired_reclaimed(ledger, commitment, at)->Ok_0;
            let after = session_reserved(
                ledger,
                payload,
                signer,
                public_key,
                operation_id,
                at,
            )->Ok_0.0;
            let made = after.payment_authorizations[operation_id];
            let network = before.networks[commitment];
            let policy = network.spending_policy;
            let node = before.nodes[made.node_id];
            let amount = made.reserved_remaining;
            &&& policy.enabled
            &&& made.spending_policy_revision == policy.revision
            &&& before.nodes.contains_key(made.node_id)
            &&& node.status == NodeStatus::Active || node.status == NodeStatus::WarmingUp
            &&& made.price_per_gib == node.price_per_gib
            &&& made.price_per_gib <= policy.max_node_price_per_gib
            &&& at < made.valid_until
            &&& i64::MIN <= made.valid_until - at <= i64::MAX ==> made.valid_until - at
                <= policy.max_session_minutes * 60
            &&& made.claim_until == made.valid_until + 86_400 || made.claim_until == i64::MAX
            &&& made.created_at == at
            &&& made.max_amount == amount
            &&& made.settled_amount == 0
            &&& made.refunded_at is None
            &&& made.closed_at is None
            &&& made.network_commitment == commitment
            &&& made.payer_address == network.owner_address
            &&& made.sender_member_id != made.receiver_member_id
            &&& made.initiator_member_id == made.sender_member_id
            &&& made.traffic_protocol_fee_bps
                == ledger.settings.fee_policy.traffic_protocol_fee_bps
            &&& made.traffic_treasury_share_bps
                == ledger.settings.fee_policy.traffic_treasury_share_bps
            &&& !session_in_use(before, made.session_id)
            &&& member_reserved(before, commitment, made.sender_member_id) matches Ok(reserved) && (
            required_amount(payload, "max_amount_base_units"@) matches Ok(asked) && {
                &&& 0 < amount <= asked
                &&& amount <= policy.max_session_amount
                &&& reserved + amount <= policy.max_member_reserved
                &&& amount <= network.escrow_balance
                &&& amount == asked || amount == policy.max_session_amount || reserved + amount
                    == policy.max_member_reserved || amount == network.escrow_balance
                &&& after.networks[commitment].escrow_balance == network.escrow_balance - amount
            })
        },
{
}

/// Both members of a session belong to the network, have not been revoked and stay valid to the end of
/// the session; the one who starts it signs for it with its own key.
pub proof fn sessions_are_between_valid_members(
    ledger: LedgerModel,
    payload: PayloadModel,
    signer: Seq<char>,
    public_key: Seq<char>,
    operation_id: Seq<char>,
    at: i64,
)
    requires
        forall|commitment: Seq<char>| #[trigger]
            ledger.networks.contains_key(commitment)
                ==> ledger.networks[commitment].members.dom().finite(),
        session_reserved(ledger, payload, signer, public_key, operation_id, at) is Ok,
    ensures
        required_text(payload, "network_commitment"@) matches Ok(commitment) && {
            let made = session_reserved(
                ledger,
                payload,
                signer,
                public_key,
                operation_id,
                at,
            )->Ok_0.0.payment_authorizations[operation_id];
            let members = ledger.networks[commitment].members;
            &&& exists|name: Seq<char>|
                {
                    let sender = #[trigger] members[name];
                    &&& members.contains_key(name)
                    &&& sender.member_id == made.sender_member_id
                    &&& sender.revoked_at is None
                    &&& made.valid_until <= sender.expires_at
                    &&& sender.public_key == public_key
                }
            &&& exists|name: Seq<char>|
                {
                    let receiver = #[trigger] members[name];
                    &&& members.contains_key(name)
                    &&& receiver.member_id == made.receiver_member_id
                    &&& receiver.revoked_at is None
                    &&& made.valid_until <= receiver.expires_at
                }
        },
{
    let commitment = named_network(ledger, payload)->Ok_0;
    let before = expired_reclaimed(ledger, commitment, at)->Ok_0;
    let session = session_read(before, payload)->Ok_0;
    assert(ledger.networks.contains_key(commitment));
    let members = ledger.networks[commitment].members;
    assert(before.networks[commitment].members == members);
    let names = ordered::<String>(members.dom());
    crate::table::ordered_lists_all::<String>(members.dom());
    crate::sequence::first_where_found(
        names,
        |name: Seq<char>| members[name].member_id == session.sender,
    );
    crate::sequence::first_where_found(
        names,
        |name: Seq<char>| members[name].member_id == session.receiver,
    );
    let sender_name = member_named(members, session.sender).unwrap();
    let receiver_name = member_named(members, session.receiver).unwrap();
    assert(members.contains_key(sender_name) && members.contains_key(receiver_name));
    assert(members[sender_name].member_id == session.sender);
    assert(members[receiver_name].member_id == session.receiver);
}

/// A refund gives the network what is left of a reservation, once: the owner of the network gets it
/// only when the time to claim is over, the owner of the node gives it up at any time, and nobody else
/// can ask for it. Nothing can be claimed afterwards.
pub proof fn refunds_come_once(
    ledger: LedgerModel,
    payload: PayloadModel,
    signer: Seq<char>,
    at: i64,
)
    requires
        reservation_refunded(ledger, payload, signer, at) is Ok,
    ensures
        required_text(payload, "authorization_id"@) matches Ok(id) && {
            let after = reservation_refunded(ledger, payload, signer, at)->Ok_0.0;
            let reserved = ledger.payment_authorizations[id];
            let left = after.payment_authorizations[id];
            let network = reserved.network_commitment;
            &&& signer == reserved.payer_address || signer
                == ledger.nodes[reserved.node_id].owner_address
            &&& signer == reserved.payer_address ==> at > reserved.claim_until
            &&& after.networks[network].escrow_balance == ledger.networks[network].escrow_balance
                + reserved.reserved_remaining
            &&& left.reserved_remaining == 0
            &&& left.refunded_at == Some(at)
            &&& left.settled_amount == reserved.settled_amount
            &&& after.accounts == ledger.accounts
            &&& forall|other: Seq<char>|
                other != id ==> #[trigger] after.payment_authorizations[other]
                    == ledger.payment_authorizations[other]
            &&& forall|who: Seq<char>, later: i64|
                #[trigger] reservation_refunded(after, payload, who, later) is Err
        },
{
}

/// A node's owner who is not the payer gives a reservation back at any time, and the payer once the
/// time to claim is over.
pub proof fn refunds_are_owed(
    ledger: LedgerModel,
    payload: PayloadModel,
    signer: Seq<char>,
    at: i64,
    id: Seq<char>,
)
    requires
        required_text(payload, "authorization_id"@) == Ok::<Seq<char>, Seq<char>>(id),
        ledger.payment_authorizations.contains_key(id),
        ledger.payment_authorizations[id].refunded_at is None,
        ledger.networks.contains_key(ledger.payment_authorizations[id].network_commitment),
        ledger.networks[ledger.payment_authorizations[id].network_commitment].escrow_balance
            + ledger.payment_authorizations[id].reserved_remaining <= u128::MAX,
        ({
            let reserved = ledger.payment_authorizations[id];
            ||| signer == reserved.payer_address && at > reserved.claim_until
            ||| signer != reserved.payer_address && ledger.nodes.contains_key(reserved.node_id)
                && signer == ledger.nodes[reserved.node_id].owner_address
        }),
    ensures
        reservation_refunded(ledger, payload, signer, at) is Ok,
{
}

/// Revoking marks the member with the serial number that the owner of the network names, at the time
/// of the operation, and leaves every other member as it was.
pub proof fn revocations_reach_their_member(
    ledger: LedgerModel,
    payload: PayloadModel,
    signer: Seq<char>,
    operation_id: Seq<char>,
    at: i64,
)
    requires
        forall|commitment: Seq<char>| #[trigger]
            ledger.networks.contains_key(commitment)
                ==> ledger.networks[commitment].members.dom().finite(),
        member_revoked(ledger, payload, signer, operation_id, at) is Ok,
    ensures
        required_text(payload, "network_commitment"@) matches Ok(commitment) && (required_u64(
            payload,
            "serial"@,
            "member serial is invalid"@,
        ) matches Ok(serial) && {
            let after = member_revoked(ledger, payload, signer, operation_id, at)->Ok_0.0;
            let members = ledger.networks[commitment].members;
            let left = after.networks[commitment].members;
            &&& ledger.networks[commitment].owner_address == signer
            &&& exists|name: Seq<char>|
                {
                    &&& members.contains_key(name)
                    &&& members[name].serial == serial
                    &&& members[name].revoked_at is None
                    &&& (#[trigger] left[name]).revoked_at == Some(at)
                    &&& left[name].public_key == members[name].public_key
                    &&& left == members.insert(name, left[name])
                }
            &&& after.networks[commitment].escrow_balance
                == ledger.networks[commitment].escrow_balance
        }),
{
    let commitment = named_network(ledger, payload)->Ok_0;
    let serial = required_u64(payload, "serial"@, "member serial is invalid"@)->Ok_0;
    assert(ledger.networks.contains_key(commitment));
    let members = ledger.networks[commitment].members;
    crate::table::ordered_lists_all::<String>(members.dom());
    crate::sequence::first_where_found(
        ordered::<String>(members.dom()),
        |name: Seq<char>| members[name].serial == serial,
    );
    let name = member_with_serial(members, serial).unwrap();
    assert(members.contains_key(name) && members[name].serial == serial);
    let after = member_revoked(ledger, payload, signer, operation_id, at)->Ok_0.0;
    let left = after.networks[commitment].members;
    assert(left[name].revoked_at == Some(at));
    assert(left =~= members.insert(name, left[name]));
}

/// A member is admitted under a new name and the next serial number, by the owner of the network, on a
/// credential that the owner has signed within the last half minute and that has not expired. The
/// member has what the credential says, and the others stay as they were.
pub proof fn admissions_follow_the_credential(
    network: NetworkModel,
    name: Seq<char>,
    credential: CredentialModel,
    signer: Seq<char>,
    public_key: Seq<char>,
    at: i64,
)
    requires
        member_admitted(network, name, credential, signer, public_key, at) is Ok,
    ensures
        ({
            let after = member_admitted(network, name, credential, signer, public_key, at)->Ok_0;
            let member = after.members[name];
            &&& network.owner_address == signer
            &&& network.owner_public_key == public_key
            &&& !network.members.contains_key(name)
            &&& member.serial == network.next_member_serial
            &&& after.next_member_serial == network.next_member_serial + 1
            &&& member.member_id == credential.member_id
            &&& member.public_key == credential.member_public_key
            &&& member.issued_at == credential.issued_at
            &&& member.expires_at == credential.expires_at
            &&& member.revoked_at is None
            &&& credential.network_id == network.network_id
            &&& at - 30 <= credential.issued_at <= at
            &&& at < credential.expires_at
            &&& signature_checked(
                network.owner_public_key,
                encode_utf8(credential_signed(credential)),
                credential.owner_signature,
            ) is Ok
            &&& after.members == network.members.insert(name, member)
            &&& after.escrow_balance == network.escrow_balance
        }),
{
}

} // verus!
