use vstd::prelude::*;
use vstd::string::*;
use vstd::utf8::*;

use crate::accounts::{account_balance, balance_of, debit_account, debited};
use crate::crypto::{base64url_decoded, decode_url_safe, sha256_id, short_id};
use crate::envelope::{name_checked, validate_name};
use crate::error::{outcome, Error, Outcome, Result};
use crate::model::{
    AuthorizationModel, CredentialModel, LedgerModel, LedgerState, MemberCredential, NetworkModel,
    NetworkRecord, NetworkSpendingPolicy, Payload, PaymentAuthorizationRecord,
};
use crate::number::clamped_u64;
use crate::operations::{named_network, payload_network_commitment};
use crate::payload::{
    field_flag, field_u64, parse_payload_u128, payload_str, payload_u64, required_amount,
    required_text, required_u64, PayloadModel,
};
use crate::protocol::{initial_spending_policy, MAX_SUPPLY};
use crate::table::{ordered, Replicate, Table};
use crate::text::{is_hex_digest, is_hex_digest_at, join3, text_same};

verus! {

/// What a network operation tells its sender.
#[derive(Debug)]
pub enum NetworkReply {
    Created(NetworkRecord),
    Submitted(String),
    Policy(NetworkSpendingPolicy),
    Reserved(PaymentAuthorizationRecord),
    Refunded { authorization_id: String, amount: u128 },
    Issued(MemberCredential),
}

/// The contents of `NetworkReply`.
#[verifier::ext_equal]
pub enum ReplyModel {
    Created(NetworkModel),
    Submitted(Seq<char>),
    Policy(NetworkSpendingPolicy),
    Reserved(AuthorizationModel),
    Refunded { authorization_id: Seq<char>, amount: u128 },
    Issued(CredentialModel),
}

impl DeepView for NetworkReply {
    type V = ReplyModel;

    open spec fn deep_view(&self) -> ReplyModel {
        match *self {
            NetworkReply::Created(network) => ReplyModel::Created(network.deep_view()),
            NetworkReply::Submitted(id) => ReplyModel::Submitted(id@),
            NetworkReply::Policy(policy) => ReplyModel::Policy(policy),
            NetworkReply::Reserved(record) => ReplyModel::Reserved(record.deep_view()),
            NetworkReply::Refunded { authorization_id, amount } => ReplyModel::Refunded {
                authorization_id: authorization_id@,
                amount,
            },
            NetworkReply::Issued(credential) => ReplyModel::Issued(credential.deep_view()),
        }
    }
}

/// The ledger with another state of one network.
pub open spec fn with_network(
    ledger: LedgerModel,
    commitment: Seq<char>,
    network: NetworkModel,
) -> LedgerModel {
    LedgerModel { networks: ledger.networks.insert(commitment, network), ..ledger }
}

/// The ledger after a network has been founded.
pub open spec fn network_created(
    ledger: LedgerModel,
    payload: PayloadModel,
    signer: Seq<char>,
    public_key: Seq<char>,
    at: i64,
) -> Outcome<(LedgerModel, ReplyModel)> {
    match required_text(payload, "alias"@) {
        Err(refusal) => Err(refusal),
        Ok(alias) => match name_checked(alias) {
            Err(refusal) => Err(refusal),
            Ok(_) => if ledger.network_aliases.contains_key(alias) {
                Err("network alias '"@ + alias + "' already exists"@)
            } else {
                match required_text(payload, "network_id"@) {
                    Err(refusal) => Err(refusal),
                    Ok(network_id) => match base64url_decoded(network_id) {
                        None => Err("network ID is not valid base64url"@),
                        Some(bytes) => match required_text(payload, "network_commitment"@) {
                            Err(refusal) => Err(refusal),
                            Ok(declared) => {
                                let commitment = short_id("net"@, bytes);
                                let network = NetworkModel {
                                    network_id,
                                    commitment,
                                    alias,
                                    owner_address: signer,
                                    owner_public_key: public_key,
                                    created_at: at,
                                    escrow_balance: 0,
                                    next_member_serial: 1,
                                    members: Map::empty(),
                                    spending_policy: initial_spending_policy(),
                                };
                                if declared != commitment {
                                    Err("network commitment does not match network ID"@)
                                } else {
                                    Ok(
                                        (
                                            LedgerModel {
                                                network_aliases: ledger.network_aliases.insert(
                                                    alias,
                                                    commitment,
                                                ),
                                                ..with_network(ledger, commitment, network)
                                            },
                                            ReplyModel::Created(network),
                                        ),
                                    )
                                }
                            },
                        },
                    },
                }
            },
        },
    }
}

pub fn found_network(
    ledger: &mut LedgerState,
    payload: &Payload,
    signer: &str,
    public_key: &str,
    at: i64,
) -> (r: Result<NetworkReply>)
    ensures
        match network_created(old(ledger)@, payload.deep_view(), signer@, public_key@, at) {
            Ok(next) => final(ledger)@ == next.0 && (r matches Ok(reply) && reply.deep_view()
                == next.1),
            Err(refusal) => final(ledger)@ == old(ledger)@ && (r matches Err(error) && error@
                == refusal),
        },
{
    let alias = payload_str(payload, "alias")?;
    validate_name(alias.as_str())?;
    if ledger.network_aliases.contains_key(&alias) {
        return Err(
            Error::owned(join3("network alias '", alias.as_str(), "' already exists")),
        );
    }
    let network_id = payload_str(payload, "network_id")?;
    let bytes = match decode_url_safe(network_id.as_str()) {
        None => {
            return Err(Error::msg("network ID is not valid base64url"));
        },
        Some(bytes) => bytes,
    };
    let commitment = sha256_id("net", bytes.as_slice());
    let declared = payload_str(payload, "network_commitment")?;
    if !text_same(declared.as_str(), commitment.as_str()) {
        return Err(Error::msg("network commitment does not match network ID"));
    }
    let network = NetworkRecord {
        network_id,
        commitment: commitment.clone(),
        alias: alias.clone(),
        owner_address: signer.to_owned(),
        owner_public_key: public_key.to_owned(),
        created_at: at,
        escrow_balance: 0,
        next_member_serial: 1,
        members: Table::new(),
        spending_policy: NetworkSpendingPolicy::default(),
    };
    ledger.network_aliases.insert(alias, commitment.clone());
    ledger.networks.insert(commitment, network.replicate());
    Ok(NetworkReply::Created(network))
}

/// The ledger after a network's owner has put money in its fund.
pub open spec fn network_funded(
    ledger: LedgerModel,
    payload: PayloadModel,
    signer: Seq<char>,
    operation_id: Seq<char>,
) -> Outcome<(LedgerModel, ReplyModel)> {
    match named_network(ledger, payload) {
        Err(refusal) => Err(refusal),
        Ok(commitment) => match required_amount(payload, "amount_base_units"@) {
            Err(refusal) => Err(refusal),
            Ok(amount) => {
                let network = ledger.networks[commitment];
                if amount == 0 {
                    Err("fund amount must be greater than zero"@)
                } else if network.owner_address != signer {
                    Err("only the Network Owner can fund this network"@)
                } else if balance_of(ledger, signer) < amount {
                    Err("insufficient spendable MRK"@)
                } else if network.escrow_balance + amount > u128::MAX {
                    Err("Network Escrow overflow"@)
                } else {
                    Ok(
                        (
                            with_network(
                                debited(ledger, signer, amount),
                                commitment,
                                NetworkModel {
                                    escrow_balance: (network.escrow_balance + amount) as u128,
                                    ..network
                                },
                            ),
                            ReplyModel::Submitted(operation_id),
                        ),
                    )
                }
            },
        },
    }
}

pub fn fund_network_escrow(
    ledger: &mut LedgerState,
    payload: &Payload,
    signer: &str,
    operation_id: &str,
) -> (r: Result<NetworkReply>)
    ensures
        match network_funded(old(ledger)@, payload.deep_view(), signer@, operation_id@) {
            Ok(next) => final(ledger)@ == next.0 && (r matches Ok(reply) && reply.deep_view()
                == next.1),
            Err(refusal) => final(ledger)@ == old(ledger)@ && (r matches Err(error) && error@
                == refusal),
        },
{
    let commitment = payload_network_commitment(ledger, payload)?;
    let amount = parse_payload_u128(payload, "amount_base_units")?;
    if amount == 0 {
        return Err(Error::msg("fund amount must be greater than zero"));
    }
    let escrow: u128 = match ledger.networks.get(&commitment) {
        None => 0,
        Some(network) => {
            if !text_same(network.owner_address.as_str(), signer) {
                return Err(Error::msg("only the Network Owner can fund this network"));
            }
            network.escrow_balance
        },
    };
    if account_balance(ledger, signer) < amount {
        return Err(Error::msg("insufficient spendable MRK"));
    }
    let funded: u128 = match escrow.checked_add(amount) {
        None => {
            return Err(Error::msg("Network Escrow overflow"));
        },
        Some(funded) => funded,
    };
    debit_account(ledger, signer, amount);
    if let Some(network) = ledger.networks.get_mut(&commitment) {
        network.escrow_balance = funded;
    }
    Ok(NetworkReply::Submitted(operation_id.to_owned()))
}

/// Whether a spending policy is consistent.
pub open spec fn policy_checked(policy: NetworkSpendingPolicy) -> Outcome<()> {
    if policy.max_session_amount == 0 || policy.max_session_amount > MAX_SUPPLY
        || policy.max_member_reserved < policy.max_session_amount || policy.max_member_reserved
        > MAX_SUPPLY {
        Err(
            "spending policy amounts must be positive and member capacity must cover one session"@,
        )
    } else if policy.max_node_price_per_gib == 0 || policy.max_node_price_per_gib > MAX_SUPPLY {
        Err("spending policy Node price limit is invalid"@)
    } else if !(1 <= policy.max_session_minutes <= 30 * 24 * 60) {
        Err("spending policy session duration must be between 1 minute and 30 days"@)
    } else {
        Ok(())
    }
}

/// Checks that a spending policy is consistent.
pub fn validate_network_spending_policy(policy: &NetworkSpendingPolicy) -> (r: Result<()>)
    ensures
        outcome(r) == policy_checked(*policy),
{
    if policy.max_session_amount == 0 || policy.max_session_amount > MAX_SUPPLY
        || policy.max_member_reserved < policy.max_session_amount || policy.max_member_reserved
        > MAX_SUPPLY {
        return Err(
            Error::msg(
                "spending policy amounts must be positive and member capacity must cover one session",
            ),
        );
    }
    if policy.max_node_price_per_gib == 0 || policy.max_node_price_per_gib > MAX_SUPPLY {
        return Err(Error::msg("spending policy Node price limit is invalid"));
    }
    if policy.max_session_minutes < 1 || policy.max_session_minutes > 30 * 24 * 60 {
        return Err(
            Error::msg("spending policy session duration must be between 1 minute and 30 days"),
        );
    }
    Ok(())
}

/// The spending policy in a payload.
pub open spec fn policy_read(payload: PayloadModel) -> Outcome<NetworkSpendingPolicy> {
    match required_u64(payload, "revision"@, "spending policy revision is invalid"@) {
        Err(refusal) => Err(refusal),
        Ok(revision) => match field_flag(payload, "enabled"@) {
            None => Err("spending policy enabled flag is invalid"@),
            Some(enabled) => match required_amount(payload, "max_session_amount_base_units"@) {
                Err(refusal) => Err(refusal),
                Ok(max_session_amount) => match required_amount(
                    payload,
                    "max_member_reserved_base_units"@,
                ) {
                    Err(refusal) => Err(refusal),
                    Ok(max_member_reserved) => match required_amount(
                        payload,
                        "max_node_price_per_gib_base_units"@,
                    ) {
                        Err(refusal) => Err(refusal),
                        Ok(max_node_price_per_gib) => match field_u64(
                            payload,
                            "max_session_minutes"@,
                        ) {
                            None => Err("spending policy session duration is invalid"@),
                            Some(minutes) => if minutes > u32::MAX {
                                Err("spending policy session duration is invalid"@)
                            } else {
                                Ok(
                                    NetworkSpendingPolicy {
                                        revision,
                                        enabled,
                                        max_session_amount,
                                        max_member_reserved,
                                        max_node_price_per_gib,
                                        max_session_minutes: minutes as u32,
                                    },
                                )
                            },
                        },
                    },
                },
            },
        },
    }
}

fn read_policy(payload: &Payload) -> (r: Result<NetworkSpendingPolicy>)
    ensures
        outcome(r) == policy_read(payload.deep_view()),
{
    let revision = payload_u64(payload, "revision", "spending policy revision is invalid")?;
    let enabled = match payload.flag("enabled") {
        None => {
            return Err(Error::msg("spending policy enabled flag is invalid"));
        },
        Some(enabled) => enabled,
    };
    let max_session_amount = parse_payload_u128(payload, "max_session_amount_base_units")?;
    let max_member_reserved = parse_payload_u128(payload, "max_member_reserved_base_units")?;
    let max_node_price_per_gib = parse_payload_u128(payload, "max_node_price_per_gib_base_units")?;
    let minutes: u32 = match payload.u64_value("max_session_minutes") {
        None => {
            return Err(Error::msg("spending policy session duration is invalid"));
        },
        Some(minutes) => {
            if minutes > u32::MAX as u64 {
                return Err(Error::msg("spending policy session duration is invalid"));
            }
            minutes as u32
        },
    };
    Ok(
        NetworkSpendingPolicy {
            revision,
            enabled,
            max_session_amount,
            max_member_reserved,
            max_node_price_per_gib,
            max_session_minutes: minutes,
        },
    )
}

/// The ledger after a network's owner has set its spending policy.
pub open spec fn policy_set(
    ledger: LedgerModel,
    payload: PayloadModel,
    signer: Seq<char>,
    public_key: Seq<char>,
) -> Outcome<(LedgerModel, ReplyModel)> {
    match named_network(ledger, payload) {
        Err(refusal) => Err(refusal),
        Ok(commitment) => match policy_read(payload) {
            Err(refusal) => Err(refusal),
            Ok(policy) => {
                let network = ledger.networks[commitment];
                if network.owner_address != signer || network.owner_public_key != public_key {
                    Err("only the Network Owner can update its spending policy"@)
                } else if policy.revision != clamped_u64(network.spending_policy.revision + 1) {
                    Err("spending policy revision is stale"@)
                } else {
                    match policy_checked(policy) {
                        Err(refusal) => Err(refusal),
                        Ok(_) => Ok(
                            (
                                with_network(
                                    ledger,
                                    commitment,
                                    NetworkModel { spending_policy: policy, ..network },
                                ),
                                ReplyModel::Policy(policy),
                            ),
                        ),
                    }
                }
            },
        },
    }
}

pub fn set_spending_policy(
    ledger: &mut LedgerState,
    payload: &Payload,
    signer: &str,
    public_key: &str,
) -> (r: Result<NetworkReply>)
    ensures
        match policy_set(old(ledger)@, payload.deep_view(), signer@, public_key@) {
            Ok(next) => final(ledger)@ == next.0 && (r matches Ok(reply) && reply.deep_view()
                == next.1),
            Err(refusal) => final(ledger)@ == old(ledger)@ && (r matches Err(error) && error@
                == refusal),
        },
{
    let commitment = payload_network_commitment(ledger, payload)?;
    let policy = read_policy(payload)?;
    if let Some(network) = ledger.networks.get_mut(&commitment) {
        if !text_same(network.owner_address.as_str(), signer) || !text_same(
            network.owner_public_key.as_str(),
            public_key,
        ) {
            return Err(Error::msg("only the Network Owner can update its spending policy"));
        }
        if policy.revision != network.spending_policy.revision.saturating_add(1) {
            return Err(Error::msg("spending policy revision is stale"));
        }
        validate_network_spending_policy(&policy)?;
        network.spending_policy = policy;
    }
    Ok(NetworkReply::Policy(policy))
}

/// Whether a text can name a session.
pub open spec fn session_id_checked(session_id: Seq<char>) -> Outcome<()> {
    if is_hex_digest(encode_utf8(session_id)) {
        Ok(())
    } else {
        Err("payment Session ID must be 32-byte lowercase hex"@)
    }
}

pub fn validate_payment_session_id(session_id: &str) -> (r: Result<()>)
    ensures
        outcome(r) == session_id_checked(session_id@),
{
    let bytes = session_id.as_bytes();
    assert(bytes@.skip(0) =~= bytes@);
    if !is_hex_digest_at(bytes, 0) {
        return Err(Error::msg("payment Session ID must be 32-byte lowercase hex"));
    }
    Ok(())
}

/// Whether a reservation of a network can no longer be claimed.
pub open spec fn is_expired(
    authorization: AuthorizationModel,
    commitment: Seq<char>,
    at: i64,
) -> bool {
    authorization.network_commitment == commitment && authorization.refunded_at is None
        && authorization.closed_at is None && at > authorization.claim_until
}

/// What the expired reservations among some still hold.
pub open spec fn expired_total(
    authorizations: Map<Seq<char>, AuthorizationModel>,
    ids: Seq<Seq<char>>,
    commitment: Seq<char>,
    at: i64,
) -> nat
    decreases ids.len(),
{
    if ids.len() == 0 {
        0
    } else {
        expired_total(authorizations, ids.drop_last(), commitment, at) + if is_expired(
            authorizations[ids.last()],
            commitment,
            at,
        ) {
            authorizations[ids.last()].reserved_remaining as nat
        } else {
            0
        }
    }
}

/// A reservation after the expired ones have been given back.
pub open spec fn reclaimed_from(
    authorization: AuthorizationModel,
    commitment: Seq<char>,
    at: i64,
) -> AuthorizationModel {
    if is_expired(authorization, commitment, at) {
        AuthorizationModel { reserved_remaining: 0, refunded_at: Some(at), ..authorization }
    } else {
        authorization
    }
}

/// The ledger after the expired reservations of a network have been given back to it.
pub open spec fn expired_reclaimed(
    ledger: LedgerModel,
    commitment: Seq<char>,
    at: i64,
) -> Outcome<LedgerModel> {
    let total = expired_total(
        ledger.payment_authorizations,
        ordered::<String>(ledger.payment_authorizations.dom()),
        commitment,
        at,
    );
    let noted = LedgerModel {
        payment_authorizations: ledger.payment_authorizations.map_values(
            |authorization: AuthorizationModel| reclaimed_from(authorization, commitment, at),
        ),
        ..ledger
    };
    if total > u128::MAX {
        Err("automatic reservation reclaim overflow"@)
    } else {
        crate::traffic::escrow_released(
            noted,
            commitment,
            total as u128,
            "Network Fund overflow during reclaim"@,
        )
    }
}

proof fn expired_total_grows(
    authorizations: Map<Seq<char>, AuthorizationModel>,
    ids: Seq<Seq<char>>,
    commitment: Seq<char>,
    at: i64,
    count: int,
)
    requires
        0 <= count <= ids.len(),
    ensures
        expired_total(authorizations, ids.take(count), commitment, at) <= expired_total(
            authorizations,
            ids,
            commitment,
            at,
        ),
    decreases ids.len(),
{
    if count == ids.len() {
        assert(ids.take(count) =~= ids);
    } else {
        assert(ids.drop_last().take(count) =~= ids.take(count));
        expired_total_grows(authorizations, ids.drop_last(), commitment, at, count);
    }
}

fn reclaim_one(
    authorization: &mut PaymentAuthorizationRecord,
    commitment: &str,
    at: i64,
) -> (r: u128)
    ensures
        final(authorization).deep_view() == reclaimed_from(
            old(authorization).deep_view(),
            commitment@,
            at,
        ),
        r == if is_expired(old(authorization).deep_view(), commitment@, at) {
            old(authorization).reserved_remaining
        } else {
            0
        },
{
    if text_same(authorization.network_commitment.as_str(), commitment)
        && authorization.refunded_at.is_none() && authorization.closed_at.is_none() && at
        > authorization.claim_until {
        let amount: u128 = authorization.reserved_remaining;
        authorization.reserved_remaining = 0;
        authorization.refunded_at = Some(at);
        amount
    } else {
        0
    }
}

/// Gives the expired reservations of a network back to it.
/// On a refusal the ledger may be left half-way.
pub(crate) fn take_back_expired(ledger: &mut LedgerState, commitment: &String, at: i64) -> (r: Result<()>)
    ensures
        match expired_reclaimed(old(ledger)@, commitment@, at) {
            Ok(next) => r is Ok && final(ledger)@ == next,
            Err(refusal) => r matches Err(error) && error@ == refusal,
        },
{
    let ghost before = ledger@;
    let ghost records = ledger@.payment_authorizations;
    let ghost keys = ledger.payment_authorizations.keys();
    let count: usize = ledger.payment_authorizations.len();
    let mut total: u128 = 0;
    let mut i: usize = 0;
    assert(keys.take(0) =~= Seq::empty());
    while i < count
        invariant
            i <= count,
            count == keys.len(),
            before == old(ledger)@,
            records == before.payment_authorizations,
            keys == ordered::<String>(records.dom()),
            keys.no_duplicates(),
            ledger@.payment_authorizations.dom() == records.dom(),
            ledger@ == (LedgerModel {
                payment_authorizations: ledger@.payment_authorizations,
                ..before
            }),
            total == expired_total(records, keys.take(i as int), commitment@, at),
            forall|j: int|
                0 <= j < count ==> records.contains_key(#[trigger] keys[j])
                    && ledger@.payment_authorizations[keys[j]] == if j < i {
                    reclaimed_from(records[keys[j]], commitment@, at)
                } else {
                    records[keys[j]]
                },
        decreases count - i,
    {
        assert(keys.take(i as int + 1).drop_last() =~= keys.take(i as int));
        let authorization = ledger.payment_authorizations.value_at_mut(i);
        let amount = reclaim_one(authorization, commitment.as_str(), at);
        match total.checked_add(amount) {
            None => {
                proof {
                    expired_total_grows(records, keys, commitment@, at, i as int + 1);
                }
                return Err(Error::msg("automatic reservation reclaim overflow"));
            },
            Some(sum) => {
                total = sum;
            },
        }
        i = i + 1;
    }
    proof {
        assert(keys.take(keys.len() as int) =~= keys);
        let target = records.map_values(
            |authorization: AuthorizationModel| reclaimed_from(authorization, commitment@, at),
        );
        assert forall|k: Seq<char>| #[trigger] records.contains_key(k) implies
            ledger@.payment_authorizations[k] == target[k] by {
            assert(keys.contains(k));
            let j = choose|j: int| 0 <= j < keys.len() && keys[j] == k;
            assert(keys[j] == k);
        }
        assert(ledger@.payment_authorizations =~= target);
    }
    crate::traffic::release_escrow(
        ledger,
        commitment,
        total,
        "Network Fund overflow during reclaim",
    )
}

/// Gives the expired reservations of a network back to it.
pub fn reclaim_expired(ledger: &mut LedgerState, commitment: &String, at: i64) -> (r: Result<()>)
    ensures
        match expired_reclaimed(old(ledger)@, commitment@, at) {
            Ok(next) => r is Ok && final(ledger)@ == next,
            Err(refusal) => final(ledger)@ == old(ledger)@ && (r matches Err(error) && error@
                == refusal),
        },
{
    let mut next = ledger.copy();
    take_back_expired(&mut next, commitment, at)?;
    *ledger = next;
    Ok(())
}

/// Whether a session has been reserved already.
pub open spec fn session_in_use(ledger: LedgerModel, session_id: Seq<char>) -> bool {
    exists|id: Seq<char>| #[trigger]
        ledger.payment_authorizations.contains_key(id)
            && ledger.payment_authorizations[id].session_id == session_id
}

pub fn is_session_in_use(ledger: &LedgerState, session_id: &str) -> (r: bool)
    ensures
        r == session_in_use(ledger@, session_id@),
{
    let ghost keys = ledger.payment_authorizations.keys();
    let mut i: usize = 0;
    while i < ledger.payment_authorizations.len()
        invariant
            i <= keys.len(),
            keys == ledger.payment_authorizations.keys(),
            forall|j: int|
                0 <= j < i ==> ledger@.payment_authorizations[#[trigger] keys[j]].session_id
                    != session_id@,
        decreases keys.len() - i,
    {
        let authorization = ledger.payment_authorizations.value_at(i);
        if text_same(authorization.session_id.as_str(), session_id) {
            assert(ledger@.payment_authorizations.contains_key(keys[i as int]));
            return true;
        }
        i = i + 1;
    }
    proof {
        assert forall|id: Seq<char>| #[trigger]
            ledger@.payment_authorizations.contains_key(id) implies
            ledger@.payment_authorizations[id].session_id != session_id@ by {
            assert(keys.contains(id));
            let j = choose|j: int| 0 <= j < keys.len() && keys[j] == id;
            assert(keys[j] == id);
        }
    }
    false
}

/// What a member has reserved among some reservations.
pub open spec fn reserved_by(
    authorizations: Map<Seq<char>, AuthorizationModel>,
    ids: Seq<Seq<char>>,
    commitment: Seq<char>,
    member_id: Seq<char>,
) -> nat
    decreases ids.len(),
{
    if ids.len() == 0 {
        0
    } else {
        let last = authorizations[ids.last()];
        reserved_by(authorizations, ids.drop_last(), commitment, member_id)
            + if last.network_commitment == commitment && last.initiator_member_id == member_id
            && last.refunded_at is None {
            last.reserved_remaining as nat
        } else {
            0
        }
    }
}

/// What a member has reserved.
pub open spec fn member_reserved(
    ledger: LedgerModel,
    commitment: Seq<char>,
    member_id: Seq<char>,
) -> Outcome<u128> {
    let total = reserved_by(
        ledger.payment_authorizations,
        ordered::<String>(ledger.payment_authorizations.dom()),
        commitment,
        member_id,
    );
    if total > u128::MAX {
        Err("member reservation total overflow"@)
    } else {
        Ok(total as u128)
    }
}

proof fn reserved_by_grows(
    authorizations: Map<Seq<char>, AuthorizationModel>,
    ids: Seq<Seq<char>>,
    commitment: Seq<char>,
    member_id: Seq<char>,
    count: int,
)
    requires
        0 <= count <= ids.len(),
    ensures
        reserved_by(authorizations, ids.take(count), commitment, member_id) <= reserved_by(
            authorizations,
            ids,
            commitment,
            member_id,
        ),
    decreases ids.len(),
{
    if count == ids.len() {
        assert(ids.take(count) =~= ids);
    } else {
        assert(ids.drop_last().take(count) =~= ids.take(count));
        reserved_by_grows(authorizations, ids.drop_last(), commitment, member_id, count);
    }
}

pub fn sum_member_reserved(ledger: &LedgerState, commitment: &str, member_id: &str) -> (r: Result<u128>)
    ensures
        outcome(r) == member_reserved(ledger@, commitment@, member_id@),
{
    let ghost records = ledger@.payment_authorizations;
    let ghost keys = ledger.payment_authorizations.keys();
    let mut total: u128 = 0;
    let mut i: usize = 0;
    assert(keys.take(0) =~= Seq::empty());
    while i < ledger.payment_authorizations.len()
        invariant
            i <= keys.len(),
            keys == ledger.payment_authorizations.keys(),
            records == ledger@.payment_authorizations,
            total == reserved_by(records, keys.take(i as int), commitment@, member_id@),
        decreases keys.len() - i,
    {
        assert(keys.take(i as int + 1).drop_last() =~= keys.take(i as int));
        let authorization = ledger.payment_authorizations.value_at(i);
        if text_same(authorization.network_commitment.as_str(), commitment) && text_same(
            authorization.initiator_member_id.as_str(),
            member_id,
        ) && authorization.refunded_at.is_none() {
            match total.checked_add(authorization.reserved_remaining) {
                None => {
                    proof {
                        reserved_by_grows(records, keys, commitment@, member_id@, i as int + 1);
                    }
                    return Err(Error::msg("member reservation total overflow"));
                },
                Some(sum) => {
                    total = sum;
                },
            }
        }
        i = i + 1;
    }
    assert(keys.take(keys.len() as int) =~= keys);
    Ok(total)
}

/// Funding a network moves the amount that its owner names from the owner's account to the network's
/// fund, and nothing else.
pub proof fn funding_moves_the_amount(
    ledger: LedgerModel,
    payload: PayloadModel,
    signer: Seq<char>,
    operation_id: Seq<char>,
)
    requires
        network_funded(ledger, payload, signer, operation_id) is Ok,
    ensures
        required_text(payload, "network_commitment"@) matches Ok(commitment) && {
            let after = network_funded(ledger, payload, signer, operation_id)->Ok_0.0;
            let amount = balance_of(ledger, signer) - balance_of(after, signer);
            &&& ledger.networks.contains_key(commitment)
            &&& ledger.networks[commitment].owner_address == signer
            &&& required_amount(payload, "amount_base_units"@) matches Ok(asked) && asked == amount
            &&& amount > 0
            &&& after.networks[commitment].escrow_balance
                == ledger.networks[commitment].escrow_balance + amount
            &&& after.networks[commitment].spending_policy
                == ledger.networks[commitment].spending_policy
            &&& after.networks[commitment].members == ledger.networks[commitment].members
            &&& forall|other: Seq<char>|
                other != commitment ==> #[trigger] after.networks[other] == ledger.networks[other]
            &&& forall|other: Seq<char>|
                other != signer ==> #[trigger] balance_of(after, other) == balance_of(ledger, other)
        },
{
}

/// Only the owner of a network sets its spending policy, each revision follows the one before, and a
/// policy that is set is consistent: a session costs something, a member may reserve at least one
/// session, and a session lasts between a minute and thirty days.
pub proof fn policies_follow_each_other(
    ledger: LedgerModel,
    payload: PayloadModel,
    signer: Seq<char>,
    public_key: Seq<char>,
)
    requires
        policy_set(ledger, payload, signer, public_key) is Ok,
    ensures
        required_text(payload, "network_commitment"@) matches Ok(commitment) && {
            let after = policy_set(ledger, payload, signer, public_key)->Ok_0.0;
            let network = ledger.networks[commitment];
            let policy = after.networks[commitment].spending_policy;
            &&& network.owner_address == signer
            &&& network.owner_public_key == public_key
            &&& network.spending_policy.revision < u64::MAX ==> policy.revision
                == network.spending_policy.revision + 1
            &&& 0 < policy.max_session_amount <= policy.max_member_reserved
            &&& 0 < policy.max_node_price_per_gib
            &&& 1 <= policy.max_session_minutes <= 43_200
            &&& after.networks[commitment].escrow_balance == network.escrow_balance
            &&& after.networks[commitment].members == network.members
            &&& forall|other: Seq<char>|
                other != commitment ==> #[trigger] after.networks[other] == ledger.networks[other]
            &&& after.payment_authorizations == ledger.payment_authorizations
        },
{
}

/// Reclaiming gives back the reservations of a network that can no longer be claimed, and no others: a
/// reservation stays as it is while it can be claimed, once it is closed or refunded, and if it belongs
/// to another network. Only the fund of that network grows, and by no less than any one of them held.
pub proof fn expired_reservations_come_back(
    ledger: LedgerModel,
    commitment: Seq<char>,
    at: i64,
    id: Seq<char>,
)
    requires
        ledger.payment_authorizations.dom().finite(),
        ledger.payment_authorizations.contains_key(id),
        ledger.networks.contains_key(commitment),
        expired_reclaimed(ledger, commitment, at) is Ok,
    ensures
        ({
            let after = expired_reclaimed(ledger, commitment, at)->Ok_0;
            let reserved = ledger.payment_authorizations[id];
            let left = after.payment_authorizations[id];
            let returned = after.networks[commitment].escrow_balance
                - ledger.networks[commitment].escrow_balance;
            let over = reserved.network_commitment == commitment && reserved.refunded_at is None
                && reserved.closed_at is None && reserved.claim_until < at;
            &&& over ==> left.reserved_remaining == 0 && left.refunded_at == Some(at)
                && left.settled_amount == reserved.settled_amount && returned
                >= reserved.reserved_remaining
            &&& !over ==> left == reserved
            &&& returned >= 0
            &&& forall|other: Seq<char>|
                other != commitment ==> #[trigger] after.networks[other] == ledger.networks[other]
            &&& after.accounts == ledger.accounts
        }),
{
    let records = ledger.payment_authorizations;
    let ids = ordered::<String>(records.dom());
    crate::table::ordered_lists_all::<String>(records.dom());
    assert(ids.contains(id));
    let k = choose|k: int| 0 <= k < ids.len() && ids[k] == id;
    expired_total_grows(records, ids, commitment, at, k + 1);
    assert(ids.take(k + 1).drop_last() =~= ids.take(k));
    assert(ids.take(k + 1).last() == id);
}

proof fn reserved_by_one_more(
    authorizations: Map<Seq<char>, AuthorizationModel>,
    ids: Seq<Seq<char>>,
    at: int,
    id: Seq<char>,
    reserved: AuthorizationModel,
    commitment: Seq<char>,
    member_id: Seq<char>,
)
    requires
        !ids.contains(id),
        0 <= at <= ids.len(),
    ensures
        reserved_by(authorizations.insert(id, reserved), ids, commitment, member_id)
            == reserved_by(authorizations, ids, commitment, member_id),
        reserved_by(authorizations.insert(id, reserved), ids.insert(at, id), commitment, member_id)
            == reserved_by(authorizations, ids, commitment, member_id)
            + if reserved.network_commitment == commitment && reserved.initiator_member_id
            == member_id && reserved.refunded_at is None {
            reserved.reserved_remaining as nat
        } else {
            0
        },
    decreases ids.len(),
{
    let more = authorizations.insert(id, reserved);
    let all = ids.insert(at, id);
    if ids.len() > 0 {
        let rest = ids.drop_last();
        assert(ids[ids.len() - 1] == ids.last());
        assert(ids.contains(ids.last()));
        assert(!rest.contains(id)) by {
            if rest.contains(id) {
                let j = choose|j: int| 0 <= j < rest.len() && rest[j] == id;
                assert(ids[j] == id);
            }
        }
        let spot = if at < ids.len() {
            at
        } else {
            0
        };
        reserved_by_one_more(authorizations, rest, spot, id, reserved, commitment, member_id);
        if at < ids.len() {
            assert(all.drop_last() =~= rest.insert(at, id));
            assert(all.last() == ids.last());
        }
    }
    if at == ids.len() {
        assert(all.drop_last() =~= ids);
        assert(all.last() == id);
    }
}

/// What a member has reserved is what is left of the reservations that the member has started in the
/// network and that have not been refunded: one more reservation adds what it holds if it is such a
/// one, and nothing if it is not. A member without reservations has reserved nothing.
pub proof fn members_reserve_what_they_start(
    ledger: LedgerModel,
    id: Seq<char>,
    reserved: AuthorizationModel,
    commitment: Seq<char>,
    member_id: Seq<char>,
)
    requires
        ledger.payment_authorizations.dom().finite(),
        !ledger.payment_authorizations.contains_key(id),
    ensures
        ({
            let more = LedgerModel {
                payment_authorizations: ledger.payment_authorizations.insert(id, reserved),
                ..ledger
            };
            let counts = reserved.network_commitment == commitment && reserved.initiator_member_id
                == member_id && reserved.refunded_at is None;
            &&& member_reserved(more, commitment, member_id) matches Ok(total) ==> (member_reserved(
                ledger,
                commitment,
                member_id,
            ) matches Ok(before) && total == before + if counts {
                reserved.reserved_remaining as int
            } else {
                0
            })
            &&& !counts ==> member_reserved(more, commitment, member_id) == member_reserved(
                ledger,
                commitment,
                member_id,
            )
        }),
        ledger.payment_authorizations.dom() == Set::<Seq<char>>::empty() ==> member_reserved(
            ledger,
            commitment,
            member_id,
        ) == Ok::<u128, Seq<char>>(0),
{
    let records = ledger.payment_authorizations;
    let ids = ordered::<String>(records.dom());
    crate::table::ordered_lists_all::<String>(records.dom());
    let at = crate::table::ordered_takes_in::<String>(records.dom(), id);
    assert(!ids.contains(id));
    assert(records.insert(id, reserved).dom() =~= records.dom().insert(id));
    reserved_by_one_more(records, ids, at, id, reserved, commitment, member_id);
}

} // verus!
