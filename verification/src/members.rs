use vstd::prelude::*;
use vstd::string::*;
use vstd::utf8::*;

use crate::accounts::{
    account_balance, balance_of, contains_text, debit_account, debited, ensure_account, key_bound,
};
use crate::amount::{format_mrk, mrk_text, parse_mrk, read_mrk};
use crate::crypto::{
    base64url_encoded, encode_url_safe, sha256_id, short_id, signature_checked, verify_bytes,
};
use crate::drafts::{draft_next_operation, next_operation, Draft, DraftModel};
use crate::envelope::{name_checked, validate_name};
use crate::error::{outcome, Error, Outcome, Result};
use crate::json::{json_member, json_quoted, put_i64, put_text, put_value};
use crate::model::{
    CheckpointModel, CredentialModel, Field, FieldModel, KeyIdentity, KeyModel, LedgerModel,
    LedgerState, MemberCredential, MemberModel, MemberRecord, NetworkModel, NetworkRecord,
    NetworkSpendingPolicy, Payload, ReceiptModel, ReceiverReceipt, RelayDirection, SenderCheckpoint,
    UnsignedModel, UnsignedOperation,
};
use crate::network_operations::{network_resolved, resolve_network};
use crate::networks::with_network;
use crate::number::{clamped_i64, saturating_add_i64, saturating_sub_i64};
use crate::payload::PayloadModel;
use crate::protocol::{initial_spending_policy, PROTOCOL_VERSION};
use crate::search::{find_where, value_where};
use crate::sequence::{first_where, first_where_ends, first_where_step};
use crate::sessions::{
    credential_signed, credential_signing_text, member_with_serial, revoke_in, Revocation,
};
use crate::table::{Replicate, Table};
use crate::text::{decimal, join3, join4, signed_decimal, text_same, u128_text, u64_text};
use crate::traffic::{
    checkpoint_hash, checkpoint_signed, receipt_signed, receiver_receipt_signing_text,
    sender_checkpoint_hash, sender_checkpoint_signing_text,
};
use crate::views::{AuthenticatedMember, AuthenticatedMemberModel};

verus! {

/// The identifier and the commitment of a network, from the bytes that it was drawn with.
pub fn new_network_identity(network_bytes: &[u8; 32]) -> (r: (String, String))
    ensures
        r.0@ == base64url_encoded(network_bytes@),
        r.1@ == short_id("net"@, network_bytes@),
{
    let bytes = network_bytes.as_slice();
    (encode_url_safe(bytes), sha256_id("net", bytes))
}

/// A network that has just been founded.
pub open spec fn network_made(
    owner: KeyModel,
    alias: Seq<char>,
    network_bytes: Seq<u8>,
    now: i64,
) -> NetworkModel {
    NetworkModel {
        network_id: base64url_encoded(network_bytes),
        commitment: short_id("net"@, network_bytes),
        alias,
        owner_address: owner.address,
        owner_public_key: owner.public_key,
        created_at: now,
        escrow_balance: 0,
        next_member_serial: 1,
        members: Map::empty(),
        spending_policy: initial_spending_policy(),
    }
}

/// The draft by which an owner founds a network.
pub open spec fn network_drafted(
    ledger: LedgerModel,
    owner: KeyModel,
    alias: Seq<char>,
    network_bytes: Seq<u8>,
    now: i64,
) -> Outcome<(DraftModel, NetworkModel)> {
    let network = network_made(owner, alias, network_bytes, now);
    match name_checked(alias) {
        Err(refusal) => Err(refusal),
        Ok(_) => if ledger.network_aliases.contains_key(alias) {
            Err("network alias '"@ + alias + "' already exists"@)
        } else {
            match key_bound(ledger, owner.address, owner.public_key) {
                Err(refusal) => Err(refusal),
                Ok(bound) => Ok(
                    (
                        DraftModel {
                            ledger: LedgerModel {
                                network_aliases: bound.network_aliases.insert(
                                    alias,
                                    network.commitment,
                                ),
                                ..with_network(bound, network.commitment, network)
                            },
                            operation: next_operation(
                                bound,
                                owner.address,
                                "NetworkRegistry"@,
                                "CreateNetwork"@,
                                Map::<Seq<char>, FieldModel>::empty().insert(
                                    "network_commitment"@,
                                    FieldModel::Text(network.commitment),
                                ).insert("alias"@, FieldModel::Text(alias)),
                                now,
                            ),
                        },
                        network,
                    ),
                ),
            }
        },
    }
}

/// Drafts the founding of a network.
pub fn create_network(
    ledger: &LedgerState,
    owner: &KeyIdentity,
    alias: &str,
    network_bytes: &[u8; 32],
    now: i64,
) -> (r: Result<(Draft, NetworkRecord)>)
    ensures
        match network_drafted(ledger@, owner.deep_view(), alias@, network_bytes@, now) {
            Ok(made) => r matches Ok(found) && found.0.deep_view() == made.0
                && found.1.deep_view() == made.1,
            Err(refusal) => r matches Err(error) && error@ == refusal,
        },
{
    validate_name(alias)?;
    if ledger.network_aliases.contains_key(&alias.to_owned()) {
        return Err(Error::owned(join3("network alias '", alias, "' already exists")));
    }
    let mut next = ledger.copy();
    ensure_account(&mut next, owner)?;
    let (network_id, commitment) = new_network_identity(network_bytes);
    let operation = draft_next_operation(
        &next,
        &owner.address,
        "NetworkRegistry",
        "CreateNetwork",
        Payload::new().with_text("network_commitment", commitment.as_str()).with_text(
            "alias",
            alias,
        ),
        now,
    );
    let network = NetworkRecord {
        network_id,
        commitment: commitment.clone(),
        alias: alias.to_owned(),
        owner_address: owner.address.clone(),
        owner_public_key: owner.public_key.clone(),
        created_at: now,
        escrow_balance: 0,
        next_member_serial: 1,
        members: Table::new(),
        spending_policy: NetworkSpendingPolicy::default(),
    };
    next.network_aliases.insert(alias.to_owned(), commitment.clone());
    next.networks.insert(commitment, network.replicate());
    Ok((Draft { ledger: next, operation }, network))
}

/// The draft by which an owner puts money in a network's fund.
pub open spec fn funding_drafted(
    ledger: LedgerModel,
    owner: Seq<char>,
    network: Seq<char>,
    amount_text: Seq<char>,
    now: i64,
) -> Outcome<DraftModel> {
    match read_mrk(amount_text) {
        Err(refusal) => Err(refusal),
        Ok(amount) => if amount == 0 {
            Err("fund amount must be greater than zero"@)
        } else {
            match network_resolved(ledger, network) {
                Err(refusal) => Err(refusal),
                Ok(commitment) => {
                    let found = ledger.networks[commitment];
                    let balance = balance_of(ledger, owner);
                    if !ledger.networks.contains_key(commitment) {
                        Err("network registry is inconsistent"@)
                    } else if found.owner_address != owner {
                        Err("only the Network Owner account can fund this local network"@)
                    } else if balance < amount {
                        Err(
                            "insufficient spendable MRK: available "@ + mrk_text(balance as nat)
                                + ", required "@ + mrk_text(amount as nat),
                        )
                    } else if found.escrow_balance + amount > u128::MAX {
                        Err("Network Escrow overflow"@)
                    } else {
                        Ok(
                            DraftModel {
                                ledger: with_network(
                                    debited(ledger, owner, amount),
                                    commitment,
                                    NetworkModel {
                                        escrow_balance: (found.escrow_balance + amount) as u128,
                                        ..found
                                    },
                                ),
                                operation: next_operation(
                                    ledger,
                                    owner,
                                    "NetworkEscrow"@,
                                    "FundNetwork"@,
                                    Map::<Seq<char>, FieldModel>::empty().insert(
                                        "network_commitment"@,
                                        FieldModel::Text(commitment),
                                    ).insert(
                                        "amount_base_units"@,
                                        FieldModel::Text(decimal(amount as nat)),
                                    ),
                                    now,
                                ),
                            },
                        )
                    }
                },
            }
        },
    }
}

/// Drafts a payment into a network's fund.
pub fn fund_network(
    ledger: &LedgerState,
    owner: &KeyIdentity,
    network_alias: &str,
    amount_text: &str,
    now: i64,
) -> (r: Result<Draft>)
    ensures
        outcome(r) == funding_drafted(
            ledger@,
            owner.deep_view().address,
            network_alias@,
            amount_text@,
            now,
        ),
{
    let amount = parse_mrk(amount_text)?;
    if amount == 0 {
        return Err(Error::msg("fund amount must be greater than zero"));
    }
    let commitment = resolve_network(ledger, network_alias)?;
    let escrow: u128 = match ledger.networks.get(&commitment) {
        None => {
            return Err(Error::msg("network registry is inconsistent"));
        },
        Some(network) => {
            if !text_same(network.owner_address.as_str(), owner.address.as_str()) {
                return Err(
                    Error::msg("only the Network Owner account can fund this local network"),
                );
            }
            network.escrow_balance
        },
    };
    let balance = account_balance(ledger, owner.address.as_str());
    if balance < amount {
        return Err(
            Error::owned(
                join4(
                    "insufficient spendable MRK: available ",
                    format_mrk(balance).as_str(),
                    ", required ",
                    format_mrk(amount).as_str(),
                ),
            ),
        );
    }
    let funded: u128 = match escrow.checked_add(amount) {
        None => {
            return Err(Error::msg("Network Escrow overflow"));
        },
        Some(funded) => funded,
    };
    let operation = draft_next_operation(
        ledger,
        &owner.address,
        "NetworkEscrow",
        "FundNetwork",
        Payload::new().with_text("network_commitment", commitment.as_str()).with_text(
            "amount_base_units",
            u128_text(amount).as_str(),
        ),
        now,
    );
    let mut next = ledger.copy();
    debit_account(&mut next, owner.address.as_str(), amount);
    if let Some(network) = next.networks.get_mut(&commitment) {
        network.escrow_balance = funded;
    }
    Ok(Draft { ledger: next, operation })
}

/// What a member may do.
pub open spec fn member_permissions() -> Seq<Seq<char>> {
    seq!["connect"@, "send"@, "receive"@]
}

/// The credential of a new member, before its network's owner has signed it.
pub open spec fn credential_made(
    network: NetworkModel,
    member_id: Seq<char>,
    member_public_key: Seq<char>,
    valid_days: i64,
    now: i64,
) -> CredentialModel {
    CredentialModel {
        version: PROTOCOL_VERSION,
        network_id: network.network_id,
        member_id,
        member_public_key,
        permissions: member_permissions(),
        max_connections: 1,
        serial: network.next_member_serial,
        issued_at: now,
        expires_at: clamped_i64(now + valid_days * 86_400),
        owner_signature: ""@,
    }
}

pub open spec fn validity_checked(valid_days: i64) -> Outcome<()> {
    if 1 <= valid_days <= 365 {
        Ok(())
    } else {
        Err("member credential validity must be between 1 and 365 days"@)
    }
}

fn check_validity(valid_days: i64) -> (r: Result<()>)
    ensures
        outcome(r) == validity_checked(valid_days),
{
    if valid_days < 1 || valid_days > 365 {
        return Err(Error::msg("member credential validity must be between 1 and 365 days"));
    }
    Ok(())
}

fn make_credential(
    network: &NetworkRecord,
    member_id: &str,
    member_public_key: &str,
    valid_days: i64,
    now: i64,
) -> (r: MemberCredential)
    requires
        1 <= valid_days <= 365,
    ensures
        r.deep_view() == credential_made(
            network.deep_view(),
            member_id@,
            member_public_key@,
            valid_days,
            now,
        ),
{
    let mut permissions: Vec<String> = Vec::new();
    permissions.push("connect".to_owned());
    permissions.push("send".to_owned());
    permissions.push("receive".to_owned());
    assert(permissions.deep_view() =~= member_permissions());
    let owner_signature = "".to_owned();
    MemberCredential {
        version: PROTOCOL_VERSION,
        network_id: network.network_id.clone(),
        member_id: member_id.to_owned(),
        member_public_key: member_public_key.to_owned(),
        permissions,
        max_connections: 1,
        serial: network.next_member_serial,
        issued_at: now,
        expires_at: saturating_add_i64(now, valid_days * 86_400),
        owner_signature,
    }
}

/// What a network's owner wants of a member that another node will register.
pub struct MemberIssueSigningRequest<'a> {
    pub ledger_id: &'a str,
    pub network: &'a NetworkRecord,
    pub member_name: &'a str,
    pub valid_days: i64,
    pub nonce: u64,
    pub now: i64,
    pub max_fee_base_units: u128,
    pub fee_policy_version: u64,
}

/// The credential that a network's owner is about to sign.
pub open spec fn member_prepared(
    owner: Seq<char>,
    network: NetworkModel,
    member_name: Seq<char>,
    valid_days: i64,
    member_id: Seq<char>,
    member_public_key: Seq<char>,
    now: i64,
) -> Outcome<CredentialModel> {
    match name_checked(member_name) {
        Err(refusal) => Err(refusal),
        Ok(_) => match validity_checked(valid_days) {
            Err(refusal) => Err(refusal),
            Ok(_) => if network.owner_address != owner {
                Err("only the Network Owner can issue members"@)
            } else {
                Ok(credential_made(network, member_id, member_public_key, valid_days, now))
            },
        },
    }
}

/// Prepares the credential of a new member, which its network's owner is about to sign.
pub fn prepare_member_issue(
    owner: &KeyIdentity,
    request: &MemberIssueSigningRequest<'_>,
    member_id: &str,
    member_public_key: &str,
) -> (r: Result<MemberCredential>)
    ensures
        outcome(r) == member_prepared(
            owner.deep_view().address,
            request.network.deep_view(),
            request.member_name@,
            request.valid_days,
            member_id@,
            member_public_key@,
            request.now,
        ),
{
    validate_name(request.member_name)?;
    check_validity(request.valid_days)?;
    if !text_same(request.network.owner_address.as_str(), owner.address.as_str()) {
        return Err(Error::msg("only the Network Owner can issue members"));
    }
    Ok(
        make_credential(
            request.network,
            member_id,
            member_public_key,
            request.valid_days,
            request.now,
        ),
    )
}

/// What the registration of a member carries.
pub open spec fn member_fields(
    commitment: Seq<char>,
    member_name: Seq<char>,
    credential: CredentialModel,
) -> PayloadModel {
    Map::<Seq<char>, FieldModel>::empty().insert(
        "network_commitment"@,
        FieldModel::Text(commitment),
    ).insert("member_name"@, FieldModel::Text(member_name)).insert(
        "credential"@,
        FieldModel::Credential(credential),
    )
}

/// Makes what the registration of a member carries.
pub fn member_issue_payload(
    request: &MemberIssueSigningRequest<'_>,
    credential: &MemberCredential,
) -> (r: Payload)
    ensures
        r.deep_view() == member_fields(
            request.network.deep_view().commitment,
            request.member_name@,
            credential.deep_view(),
        ),
{
    Payload::new().with_text(
        "network_commitment",
        request.network.commitment.as_str(),
    ).with_text("member_name", request.member_name).with(
        "credential",
        Field::Credential(credential.replicate()),
    )
}

/// The network to which its owner wants to admit a member, and the credential of the member before
/// the owner has signed it.
pub open spec fn member_drafted(
    ledger: LedgerModel,
    owner: Seq<char>,
    network: Seq<char>,
    member_name: Seq<char>,
    valid_days: i64,
    member_id: Seq<char>,
    member_public_key: Seq<char>,
    now: i64,
) -> Outcome<(Seq<char>, CredentialModel)> {
    match name_checked(member_name) {
        Err(refusal) => Err(refusal),
        Ok(_) => match validity_checked(valid_days) {
            Err(refusal) => Err(refusal),
            Ok(_) => match network_resolved(ledger, network) {
                Err(refusal) => Err(refusal),
                Ok(commitment) => {
                    let found = ledger.networks[commitment];
                    if !ledger.networks.contains_key(commitment) {
                        Err("network registry is inconsistent"@)
                    } else if found.owner_address != owner {
                        Err("only the Network Owner can issue members"@)
                    } else if found.members.contains_key(member_name) {
                        Err("member '"@ + member_name + "' already exists"@)
                    } else if found.next_member_serial == u64::MAX {
                        Err("member serial overflow"@)
                    } else {
                        Ok(
                            (
                                commitment,
                                credential_made(
                                    found,
                                    member_id,
                                    member_public_key,
                                    valid_days,
                                    now,
                                ),
                            ),
                        )
                    }
                },
            },
        },
    }
}

fn find_member_draft(
    ledger: &LedgerState,
    owner: &KeyIdentity,
    network_alias: &str,
    member_name: &str,
    valid_days: i64,
    member_id: &str,
    member_public_key: &str,
    now: i64,
) -> (r: Result<(String, MemberCredential)>)
    ensures
        match member_drafted(
            ledger@,
            owner.deep_view().address,
            network_alias@,
            member_name@,
            valid_days,
            member_id@,
            member_public_key@,
            now,
        ) {
            Ok(draft) => r matches Ok(found) && found.0@ == draft.0 && found.1.deep_view()
                == draft.1,
            Err(refusal) => r matches Err(error) && error@ == refusal,
        },
{
    validate_name(member_name)?;
    check_validity(valid_days)?;
    let commitment = resolve_network(ledger, network_alias)?;
    let network = match ledger.networks.get(&commitment) {
        None => {
            return Err(Error::msg("network registry is inconsistent"));
        },
        Some(network) => network,
    };
    if !text_same(network.owner_address.as_str(), owner.address.as_str()) {
        return Err(Error::msg("only the Network Owner can issue members"));
    }
    if network.members.contains_key(&member_name.to_owned()) {
        return Err(Error::owned(join3("member '", member_name, "' already exists")));
    }
    if network.next_member_serial == u64::MAX {
        return Err(Error::msg("member serial overflow"));
    }
    let credential = make_credential(network, member_id, member_public_key, valid_days, now);
    Ok((commitment, credential))
}

/// Makes the credential of a member whom the owner of a network wants to admit. It is not signed
/// yet.
pub fn draft_member(
    ledger: &LedgerState,
    owner: &KeyIdentity,
    network_alias: &str,
    member_name: &str,
    valid_days: i64,
    member_id: &str,
    member_public_key: &str,
    now: i64,
) -> (r: Result<MemberCredential>)
    ensures
        match member_drafted(
            ledger@,
            owner.deep_view().address,
            network_alias@,
            member_name@,
            valid_days,
            member_id@,
            member_public_key@,
            now,
        ) {
            Ok(draft) => r matches Ok(credential) && credential.deep_view() == draft.1,
            Err(refusal) => r matches Err(error) && error@ == refusal,
        },
{
    let (_, credential) = find_member_draft(
        ledger,
        owner,
        network_alias,
        member_name,
        valid_days,
        member_id,
        member_public_key,
        now,
    )?;
    Ok(credential)
}

/// The ledger after a network's owner has admitted a member itself, and the credential, which the
/// owner has signed.
pub open spec fn member_added(
    ledger: LedgerModel,
    owner: KeyModel,
    network: Seq<char>,
    member_name: Seq<char>,
    valid_days: i64,
    member_id: Seq<char>,
    member_public_key: Seq<char>,
    owner_signature: Seq<char>,
    now: i64,
) -> Outcome<(LedgerModel, CredentialModel)> {
    match member_drafted(
        ledger,
        owner.address,
        network,
        member_name,
        valid_days,
        member_id,
        member_public_key,
        now,
    ) {
        Err(refusal) => Err(refusal),
        Ok(draft) => {
            let commitment = draft.0;
            let found = ledger.networks[commitment];
            let credential = CredentialModel { owner_signature, ..draft.1 };
            match signature_checked(
                owner.public_key,
                encode_utf8(credential_signed(credential)),
                owner_signature,
            ) {
                Err(refusal) => Err(refusal),
                Ok(_) => Ok(
                    (
                        with_network(
                            ledger,
                            commitment,
                            NetworkModel {
                                next_member_serial: (found.next_member_serial + 1) as u64,
                                members: found.members.insert(
                                    member_name,
                                    MemberModel {
                                        name: member_name,
                                        member_id,
                                        public_key: member_public_key,
                                        serial: credential.serial,
                                        issued_at: now,
                                        expires_at: credential.expires_at,
                                        revoked_at: None,
                                        credential_signature: owner_signature,
                                    },
                                ),
                                ..found
                            },
                        ),
                        credential,
                    ),
                ),
            }
        },
    }
}

/// Admits a member to a network of the caller's own, with the owner's signature over
/// `credential_signing_text` of the draft.
pub fn issue_member(
    ledger: &mut LedgerState,
    owner: &KeyIdentity,
    network_alias: &str,
    member_name: &str,
    valid_days: i64,
    member_id: &str,
    member_public_key: &str,
    owner_signature: &str,
    now: i64,
) -> (r: Result<MemberCredential>)
    ensures
        match member_added(
            old(ledger)@,
            owner.deep_view(),
            network_alias@,
            member_name@,
            valid_days,
            member_id@,
            member_public_key@,
            owner_signature@,
            now,
        ) {
            Ok(next) => final(ledger)@ == next.0 && (r matches Ok(credential)
                && credential.deep_view() == next.1),
            Err(refusal) => final(ledger)@ == old(ledger)@ && (r matches Err(error) && error@
                == refusal),
        },
        r matches Ok(credential) ==> signature_checked(
            owner.deep_view().public_key,
            encode_utf8(credential_signed(credential.deep_view())),
            owner_signature@,
        ) is Ok,
{
    let (commitment, mut credential) = find_member_draft(
        ledger,
        owner,
        network_alias,
        member_name,
        valid_days,
        member_id,
        member_public_key,
        now,
    )?;
    credential.owner_signature = owner_signature.to_owned();
    verify_bytes(
        owner.public_key.as_str(),
        credential_signing_text(&credential).as_str().as_bytes(),
        owner_signature,
    )?;
    let mut network = match ledger.networks.get(&commitment) {
        None => {
            return Err(Error::msg("network registry is inconsistent"));
        },
        Some(network) => network.replicate(),
    };
    let name = member_name.to_owned();
    network.next_member_serial = network.next_member_serial + 1;
    network.members.insert(
        name,
        MemberRecord {
            name: member_name.to_owned(),
            member_id: member_id.to_owned(),
            public_key: member_public_key.to_owned(),
            serial: credential.serial,
            issued_at: now,
            expires_at: credential.expires_at,
            revoked_at: None,
            credential_signature: owner_signature.to_owned(),
        },
    );
    ledger.networks.insert(commitment, network);
    Ok(credential)
}

/// The draft by which an owner revokes a member.
pub open spec fn revocation_drafted(
    ledger: LedgerModel,
    owner: Seq<char>,
    network: Seq<char>,
    serial: u64,
    now: i64,
) -> Outcome<DraftModel> {
    match network_resolved(ledger, network) {
        Err(refusal) => Err(refusal),
        Ok(commitment) => {
            let found = ledger.networks[commitment];
            if !ledger.networks.contains_key(commitment) {
                Err("network registry is inconsistent"@)
            } else if found.owner_address != owner {
                Err("only the Network Owner can revoke members"@)
            } else {
                match member_with_serial(found.members, serial) {
                    None => Err("member serial "@ + decimal(serial as nat) + " not found"@),
                    Some(name) => if found.members[name].revoked_at is Some {
                        Err("member serial "@ + decimal(serial as nat) + " is already revoked"@)
                    } else {
                        Ok(
                            DraftModel {
                                ledger: with_network(
                                    ledger,
                                    commitment,
                                    NetworkModel {
                                        members: found.members.insert(
                                            name,
                                            MemberModel {
                                                revoked_at: Some(now),
                                                ..found.members[name]
                                            },
                                        ),
                                        ..found
                                    },
                                ),
                                operation: next_operation(
                                    ledger,
                                    owner,
                                    "NetworkRegistry"@,
                                    "RevokeMember"@,
                                    Map::<Seq<char>, FieldModel>::empty().insert(
                                        "network_commitment"@,
                                        FieldModel::Text(commitment),
                                    ).insert("serial"@, FieldModel::Integer(serial as i128)),
                                    now,
                                ),
                            },
                        )
                    },
                }
            }
        },
    }
}

/// Drafts the revocation of a member.
pub fn revoke_member(
    ledger: &LedgerState,
    owner: &KeyIdentity,
    network_alias: &str,
    serial: u64,
    now: i64,
) -> (r: Result<Draft>)
    ensures
        outcome(r) == revocation_drafted(
            ledger@,
            owner.deep_view().address,
            network_alias@,
            serial,
            now,
        ),
{
    let commitment = resolve_network(ledger, network_alias)?;
    let mut network = match ledger.networks.get(&commitment) {
        None => {
            return Err(Error::msg("network registry is inconsistent"));
        },
        Some(network) => network.replicate(),
    };
    if !text_same(network.owner_address.as_str(), owner.address.as_str()) {
        return Err(Error::msg("only the Network Owner can revoke members"));
    }
    match revoke_in(&mut network.members, serial, now) {
        Revocation::Unknown => {
            return Err(
                Error::owned(join3("member serial ", u64_text(serial).as_str(), " not found")),
            );
        },
        Revocation::Already => {
            return Err(
                Error::owned(
                    join3("member serial ", u64_text(serial).as_str(), " is already revoked"),
                ),
            );
        },
        Revocation::Done => {},
    }
    let operation = draft_next_operation(
        ledger,
        &owner.address,
        "NetworkRegistry",
        "RevokeMember",
        Payload::new().with_text("network_commitment", commitment.as_str()).with_number(
            "serial",
            serial,
        ),
        now,
    );
    let mut next = ledger.copy();
    next.networks.insert(commitment, network);
    Ok(Draft { ledger: next, operation })
}

/// What a member presents when it connects.
#[derive(Debug)]
pub struct HelloPayload {
    pub credential: MemberCredential,
    pub timestamp: i64,
    pub proof: String,
}

/// The contents of `HelloPayload`.
#[verifier::ext_equal]
pub struct HelloModel {
    pub credential: CredentialModel,
    pub timestamp: i64,
    pub proof: Seq<char>,
}

impl DeepView for HelloPayload {
    type V = HelloModel;

    open spec fn deep_view(&self) -> HelloModel {
        HelloModel {
            credential: self.credential.deep_view(),
            timestamp: self.timestamp,
            proof: self.proof@,
        }
    }
}

/// What a member signs when it is given a challenge: the challenge, its credential with the
/// signature of the owner, and the time.
pub open spec fn hello_signed(
    challenge: Seq<char>,
    credential: CredentialModel,
    timestamp: i64,
) -> Seq<char> {
    let a = json_member("{"@, "challenge"@, json_quoted(challenge));
    let b = json_member(a, "credential"@, credential_signed(credential));
    let c = json_member(b, "owner_signature"@, json_quoted(credential.owner_signature));
    let d = json_member(c, "timestamp"@, signed_decimal(timestamp as int));
    d + "}"@
}

/// Writes what a member signs when it is given a challenge.
pub fn hello_signing_text(
    challenge: &str,
    credential: &MemberCredential,
    timestamp: i64,
) -> (r: String)
    ensures
        r@ == hello_signed(challenge@, credential.deep_view(), timestamp),
{
    let mut text = "{".to_owned();
    put_text(&mut text, "challenge", challenge);
    let signed = credential_signing_text(credential);
    put_value(&mut text, "credential", signed.as_str());
    put_text(&mut text, "owner_signature", credential.owner_signature.as_str());
    put_i64(&mut text, "timestamp", timestamp);
    text.append("}");
    text
}

/// What a member presents in answer to a challenge, if the key is the one of its credential and has
/// signed the answer.
pub open spec fn hello_answered(
    credential: CredentialModel,
    key: KeyModel,
    challenge: Seq<char>,
    now: i64,
    signature: Seq<char>,
) -> Outcome<HelloModel> {
    if key.public_key != credential.member_public_key {
        Err("member credential and member keystore do not match"@)
    } else {
        match signature_checked(
            key.public_key,
            encode_utf8(hello_signed(challenge, credential, now)),
            signature,
        ) {
            Err(refusal) => Err(refusal),
            Ok(_) => Ok(HelloModel { credential, timestamp: now, proof: signature }),
        }
    }
}

/// Makes what a member presents in answer to a challenge, with its signature over
/// `hello_signing_text`.
pub fn create_member_hello(
    credential: MemberCredential,
    key: &KeyIdentity,
    challenge: &str,
    now: i64,
    signature: String,
) -> (r: Result<HelloPayload>)
    ensures
        outcome(r) == hello_answered(
            credential.deep_view(),
            key.deep_view(),
            challenge@,
            now,
            signature@,
        ),
{
    if !text_same(key.public_key.as_str(), credential.member_public_key.as_str()) {
        return Err(Error::msg("member credential and member keystore do not match"));
    }
    verify_bytes(
        key.public_key.as_str(),
        hello_signing_text(challenge, &credential, now).as_str().as_bytes(),
        signature.as_str(),
    )?;
    Ok(HelloPayload { credential, timestamp: now, proof: signature })
}

/// Which networks have an identifier.
pub open spec fn has_network_id(network_id: Seq<char>) -> spec_fn(NetworkModel) -> bool {
    |network: NetworkModel| network.network_id == network_id
}

/// Whether a credential is of this protocol, valid now and complete.
pub open spec fn credential_current(hello: HelloModel, now: i64) -> Outcome<()> {
    let credential = hello.credential;
    if !(-30 <= now - hello.timestamp <= 30) {
        Err("member HELLO timestamp is outside the 30 second window"@)
    } else if credential.version != PROTOCOL_VERSION {
        Err("unsupported member credential version"@)
    } else if now < credential.issued_at || now >= credential.expires_at {
        Err("member credential is not currently valid"@)
    } else if !credential.permissions.contains("connect"@) {
        Err("member credential is missing 'connect' permission"@)
    } else if !credential.permissions.contains("send"@) {
        Err("member credential is missing 'send' permission"@)
    } else if !credential.permissions.contains("receive"@) {
        Err("member credential is missing 'receive' permission"@)
    } else {
        Ok(())
    }
}

fn check_credential(hello: &HelloPayload, now: i64) -> (r: Result<()>)
    ensures
        outcome(r) == credential_current(hello.deep_view(), now),
{
    let credential = &hello.credential;
    let age: i64 = saturating_sub_i64(now, hello.timestamp);
    if age > 30 || age < -30 {
        return Err(Error::msg("member HELLO timestamp is outside the 30 second window"));
    }
    if credential.version != PROTOCOL_VERSION {
        return Err(Error::msg("unsupported member credential version"));
    }
    if now < credential.issued_at || now >= credential.expires_at {
        return Err(Error::msg("member credential is not currently valid"));
    }
    if !contains_text(&credential.permissions, "connect") {
        return Err(Error::msg("member credential is missing 'connect' permission"));
    }
    if !contains_text(&credential.permissions, "send") {
        return Err(Error::msg("member credential is missing 'send' permission"));
    }
    if !contains_text(&credential.permissions, "receive") {
        return Err(Error::msg("member credential is missing 'receive' permission"));
    }
    Ok(())
}

/// Whether the registry knows a credential.
pub open spec fn credential_registered(
    members: Map<Seq<char>, MemberModel>,
    credential: CredentialModel,
) -> Outcome<()> {
    match member_with_serial(members, credential.serial) {
        None => Err("member credential serial is unknown"@),
        Some(name) => {
            let member = members[name];
            if member.revoked_at is Some || member.member_id != credential.member_id
                || member.public_key != credential.member_public_key || member.credential_signature
                != credential.owner_signature {
                Err("member credential is revoked or does not match registry"@)
            } else {
                Ok(())
            }
        },
    }
}

fn check_registered(
    members: &Table<String, MemberRecord>,
    credential: &MemberCredential,
) -> (r: Result<()>)
    ensures
        outcome(r) == credential_registered(members@, credential.deep_view()),
{
    let ghost keys = members.keys();
    let ghost met = |name: Seq<char>| members@[name].serial == credential.serial;
    let mut i: usize = 0;
    proof {
        first_where_ends(keys, met);
    }
    while i < members.len()
        invariant
            i <= keys.len(),
            keys == members.keys(),
            met == (|name: Seq<char>| members@[name].serial == credential.serial),
            first_where(keys, met) == first_where(keys.skip(i as int), met),
        decreases keys.len() - i,
    {
        proof {
            first_where_step(keys, i as int, met);
        }
        let member = members.value_at(i);
        if member.serial == credential.serial {
            if member.revoked_at.is_some() || !text_same(
                member.member_id.as_str(),
                credential.member_id.as_str(),
            ) || !text_same(member.public_key.as_str(), credential.member_public_key.as_str())
                || !text_same(
                member.credential_signature.as_str(),
                credential.owner_signature.as_str(),
            ) {
                return Err(Error::msg("member credential is revoked or does not match registry"));
            }
            return Ok(());
        }
        i = i + 1;
    }
    proof {
        first_where_ends(keys, met);
    }
    Err(Error::msg("member credential serial is unknown"))
}

/// The member that presents itself, if its credential is valid, signed by the network's owner and
/// registered, and the member has signed the challenge, the credential and the time.
pub open spec fn member_authenticated(
    ledger: LedgerModel,
    challenge: Seq<char>,
    hello: HelloModel,
    now: i64,
) -> Outcome<AuthenticatedMemberModel> {
    let credential = hello.credential;
    match credential_current(hello, now) {
        Err(refusal) => Err(refusal),
        Ok(_) => match value_where::<String, NetworkModel>(
            ledger.networks,
            has_network_id(credential.network_id),
        ) {
            None => Err("member credential references an unknown network"@),
            Some(network) => match signature_checked(
                network.owner_public_key,
                encode_utf8(credential_signed(credential)),
                credential.owner_signature,
            ) {
                Err(refusal) => Err(refusal),
                Ok(_) => match credential_registered(network.members, credential) {
                    Err(refusal) => Err(refusal),
                    Ok(_) => match signature_checked(
                        credential.member_public_key,
                        encode_utf8(hello_signed(challenge, credential, hello.timestamp)),
                        hello.proof,
                    ) {
                        Err(refusal) => Err(refusal),
                        Ok(_) => Ok(
                            AuthenticatedMemberModel {
                                network_id: credential.network_id,
                                member_id: credential.member_id,
                                max_connections: credential.max_connections,
                            },
                        ),
                    },
                },
            },
        },
    }
}

/// Checks what a member presents in answer to a challenge.
pub fn authenticate_member(
    ledger: &LedgerState,
    challenge: &str,
    hello: &HelloPayload,
    now: i64,
) -> (r: Result<AuthenticatedMember>)
    ensures
        outcome(r) == member_authenticated(ledger@, challenge@, hello.deep_view(), now),
{
    check_credential(hello, now)?;
    let credential = &hello.credential;
    let test = |network: &NetworkRecord| -> (b: bool)
        ensures
            b == (network.deep_view().network_id == credential.deep_view().network_id),
        { text_same(network.network_id.as_str(), credential.network_id.as_str()) };
    match find_where(
        &ledger.networks,
        Ghost(has_network_id(credential.deep_view().network_id)),
        test,
    ) {
        None => Err(Error::msg("member credential references an unknown network")),
        Some(network) => {
            verify_bytes(
                network.owner_public_key.as_str(),
                credential_signing_text(credential).as_str().as_bytes(),
                credential.owner_signature.as_str(),
            )?;
            check_registered(&network.members, credential)?;
            verify_bytes(
                credential.member_public_key.as_str(),
                hello_signing_text(challenge, credential, hello.timestamp).as_str().as_bytes(),
                hello.proof.as_str(),
            )?;
            Ok(
                AuthenticatedMember {
                    network_id: credential.network_id.clone(),
                    member_id: credential.member_id.clone(),
                    max_connections: credential.max_connections,
                },
            )
        },
    }
}

/// A member that has been revoked is not let in again.
pub proof fn revoked_members_are_refused(
    ledger: LedgerModel,
    challenge: Seq<char>,
    hello: HelloModel,
    now: i64,
)
    requires
        value_where::<String, NetworkModel>(
            ledger.networks,
            has_network_id(hello.credential.network_id),
        ) matches Some(network) && (member_with_serial(network.members, hello.credential.serial)
            matches Some(name) && network.members[name].revoked_at is Some),
    ensures
        member_authenticated(ledger, challenge, hello, now) is Err,
{
}

/// What a member presents is accepted only in answer to the challenge that it was made for: the
/// member's key has signed that challenge, the credential and the time.
pub proof fn admitted_members_have_answered(
    ledger: LedgerModel,
    challenge: Seq<char>,
    hello: HelloModel,
    now: i64,
)
    requires
        member_authenticated(ledger, challenge, hello, now) is Ok,
    ensures
        signature_checked(
            hello.credential.member_public_key,
            encode_utf8(hello_signed(challenge, hello.credential, hello.timestamp)),
            hello.proof,
        ) is Ok,
        -30 <= now - hello.timestamp <= 30,
{
}

/// What a sender wants to sign about the traffic that it has sent.
pub struct SenderCheckpointSigningRequest<'a> {
    pub ledger_id: &'a str,
    pub node_id: u64,
    pub authorization_id: &'a str,
    pub session_id: &'a str,
    pub direction: RelayDirection,
    pub sequence: u64,
    pub cumulative_sent_bytes: u64,
    pub transcript_hash: &'a str,
    pub checkpoint_at: i64,
}

/// A checkpoint that a member is about to sign.
pub open spec fn checkpoint_drafted(
    credential: CredentialModel,
    key: KeyModel,
    request: SenderCheckpointSigningRequest,
    last: bool,
) -> Outcome<CheckpointModel> {
    if key.public_key != credential.member_public_key {
        Err("member credential and key do not match for traffic checkpoint"@)
    } else {
        Ok(
            CheckpointModel {
                ledger_id: request.ledger_id@,
                protocol_version: PROTOCOL_VERSION,
                node_id: request.node_id,
                authorization_id: request.authorization_id@,
                session_id: request.session_id@,
                direction: request.direction,
                sequence: request.sequence,
                cumulative_sent_bytes: request.cumulative_sent_bytes,
                transcript_hash: request.transcript_hash@,
                checkpoint_at: request.checkpoint_at,
                sender_member_id: credential.member_id,
                final_checkpoint: last,
                sender_signature: ""@,
            },
        )
    }
}

/// Makes a checkpoint that a member is about to sign over `sender_checkpoint_signing_text` of it.
pub fn draft_sender_checkpoint(
    credential: &MemberCredential,
    key: &KeyIdentity,
    request: &SenderCheckpointSigningRequest<'_>,
    final_checkpoint: bool,
) -> (r: Result<SenderCheckpoint>)
    ensures
        outcome(r) == checkpoint_drafted(
            credential.deep_view(),
            key.deep_view(),
            *request,
            final_checkpoint,
        ),
{
    if !text_same(key.public_key.as_str(), credential.member_public_key.as_str()) {
        return Err(Error::msg("member credential and key do not match for traffic checkpoint"));
    }
    Ok(
        SenderCheckpoint {
            ledger_id: request.ledger_id.to_owned(),
            protocol_version: PROTOCOL_VERSION,
            node_id: request.node_id,
            authorization_id: request.authorization_id.to_owned(),
            session_id: request.session_id.to_owned(),
            direction: request.direction,
            sequence: request.sequence,
            cumulative_sent_bytes: request.cumulative_sent_bytes,
            transcript_hash: request.transcript_hash.to_owned(),
            checkpoint_at: request.checkpoint_at,
            sender_member_id: credential.member_id.clone(),
            final_checkpoint,
            sender_signature: "".to_owned(),
        },
    )
}

/// A checkpoint that a member has signed.
pub open spec fn checkpoint_requested(
    credential: CredentialModel,
    key: KeyModel,
    request: SenderCheckpointSigningRequest,
    signature: Seq<char>,
    last: bool,
) -> Outcome<CheckpointModel> {
    match checkpoint_drafted(credential, key, request, last) {
        Err(refusal) => Err(refusal),
        Ok(draft) => match signature_checked(
            key.public_key,
            encode_utf8(checkpoint_signed(draft)),
            signature,
        ) {
            Err(refusal) => Err(refusal),
            Ok(_) => Ok(CheckpointModel { sender_signature: signature, ..draft }),
        },
    }
}

/// A checkpoint that a member has signed carries a signature that its key verifies.
pub proof fn signed_checkpoints_verify(
    credential: CredentialModel,
    key: KeyModel,
    request: SenderCheckpointSigningRequest,
    signature: Seq<char>,
    last: bool,
)
    requires
        checkpoint_requested(credential, key, request, signature, last) is Ok,
    ensures
        ({
            let checkpoint = checkpoint_requested(credential, key, request, signature, last)->Ok_0;
            signature_checked(
                credential.member_public_key,
                encode_utf8(checkpoint_signed(checkpoint)),
                checkpoint.sender_signature,
            ) is Ok
        }),
{
}

fn sign_sender_checkpoint_with_final(
    credential: &MemberCredential,
    key: &KeyIdentity,
    request: &SenderCheckpointSigningRequest<'_>,
    signature: &str,
    final_checkpoint: bool,
) -> (r: Result<SenderCheckpoint>)
    ensures
        outcome(r) == checkpoint_requested(
            credential.deep_view(),
            key.deep_view(),
            *request,
            signature@,
            final_checkpoint,
        ),
{
    let mut checkpoint = draft_sender_checkpoint(credential, key, request, final_checkpoint)?;
    verify_bytes(
        key.public_key.as_str(),
        sender_checkpoint_signing_text(&checkpoint).as_str().as_bytes(),
        signature,
    )?;
    checkpoint.sender_signature = signature.to_owned();
    Ok(checkpoint)
}

/// Makes a checkpoint with the sender's signature, which is over
/// `sender_checkpoint_signing_text` of it.
pub fn sign_sender_checkpoint(
    credential: &MemberCredential,
    key: &KeyIdentity,
    request: &SenderCheckpointSigningRequest<'_>,
    signature: &str,
) -> (r: Result<SenderCheckpoint>)
    ensures
        outcome(r) == checkpoint_requested(
            credential.deep_view(),
            key.deep_view(),
            *request,
            signature@,
            false,
        ),
{
    sign_sender_checkpoint_with_final(credential, key, request, signature, false)
}

/// Makes the last checkpoint of a session with the sender's signature.
pub fn sign_final_sender_checkpoint(
    credential: &MemberCredential,
    key: &KeyIdentity,
    request: &SenderCheckpointSigningRequest<'_>,
    signature: &str,
) -> (r: Result<SenderCheckpoint>)
    ensures
        outcome(r) == checkpoint_requested(
            credential.deep_view(),
            key.deep_view(),
            *request,
            signature@,
            true,
        ),
{
    sign_sender_checkpoint_with_final(credential, key, request, signature, true)
}

/// The receipt that a member is about to sign for a checkpoint.
pub open spec fn receipt_drafted(
    credential: CredentialModel,
    key: KeyModel,
    checkpoint: CheckpointModel,
    received_at: i64,
) -> Outcome<ReceiptModel> {
    if key.public_key != credential.member_public_key {
        Err("member credential and key do not match for traffic receipt"@)
    } else {
        Ok(
            ReceiptModel {
                ledger_id: checkpoint.ledger_id,
                protocol_version: checkpoint.protocol_version,
                node_id: checkpoint.node_id,
                authorization_id: checkpoint.authorization_id,
                session_id: checkpoint.session_id,
                direction: checkpoint.direction,
                sequence: checkpoint.sequence,
                cumulative_received_bytes: checkpoint.cumulative_sent_bytes,
                transcript_hash: checkpoint.transcript_hash,
                sender_checkpoint_hash: checkpoint_hash(checkpoint),
                received_at,
                receiver_member_id: credential.member_id,
                receiver_signature: ""@,
            },
        )
    }
}

/// Makes the receipt that a member is about to sign over `receiver_receipt_signing_text` of it.
pub fn draft_receiver_receipt(
    credential: &MemberCredential,
    key: &KeyIdentity,
    checkpoint: &SenderCheckpoint,
    received_at: i64,
) -> (r: Result<ReceiverReceipt>)
    ensures
        outcome(r) == receipt_drafted(
            credential.deep_view(),
            key.deep_view(),
            checkpoint.deep_view(),
            received_at,
        ),
{
    if !text_same(key.public_key.as_str(), credential.member_public_key.as_str()) {
        return Err(Error::msg("member credential and key do not match for traffic receipt"));
    }
    Ok(
        ReceiverReceipt {
            ledger_id: checkpoint.ledger_id.clone(),
            protocol_version: checkpoint.protocol_version,
            node_id: checkpoint.node_id,
            authorization_id: checkpoint.authorization_id.clone(),
            session_id: checkpoint.session_id.clone(),
            direction: checkpoint.direction,
            sequence: checkpoint.sequence,
            cumulative_received_bytes: checkpoint.cumulative_sent_bytes,
            transcript_hash: checkpoint.transcript_hash.clone(),
            sender_checkpoint_hash: sender_checkpoint_hash(checkpoint),
            received_at,
            receiver_member_id: credential.member_id.clone(),
            receiver_signature: "".to_owned(),
        },
    )
}

/// The receipt that a member has signed for a checkpoint.
pub open spec fn receipt_requested(
    credential: CredentialModel,
    key: KeyModel,
    checkpoint: CheckpointModel,
    received_at: i64,
    signature: Seq<char>,
) -> Outcome<ReceiptModel> {
    match receipt_drafted(credential, key, checkpoint, received_at) {
        Err(refusal) => Err(refusal),
        Ok(draft) => match signature_checked(
            key.public_key,
            encode_utf8(receipt_signed(draft)),
            signature,
        ) {
            Err(refusal) => Err(refusal),
            Ok(_) => Ok(ReceiptModel { receiver_signature: signature, ..draft }),
        },
    }
}

/// A receipt that a member has signed carries a signature that its key verifies.
pub proof fn signed_receipts_verify(
    credential: CredentialModel,
    key: KeyModel,
    checkpoint: CheckpointModel,
    received_at: i64,
    signature: Seq<char>,
)
    requires
        receipt_requested(credential, key, checkpoint, received_at, signature) is Ok,
    ensures
        ({
            let receipt = receipt_requested(
                credential,
                key,
                checkpoint,
                received_at,
                signature,
            )->Ok_0;
            signature_checked(
                credential.member_public_key,
                encode_utf8(receipt_signed(receipt)),
                receipt.receiver_signature,
            ) is Ok
        }),
{
}

/// Makes the receipt of a checkpoint with the receiver's signature, which is over
/// `receiver_receipt_signing_text` of it.
pub fn sign_receiver_receipt(
    credential: &MemberCredential,
    key: &KeyIdentity,
    checkpoint: &SenderCheckpoint,
    received_at: i64,
    signature: &str,
) -> (r: Result<ReceiverReceipt>)
    ensures
        outcome(r) == receipt_requested(
            credential.deep_view(),
            key.deep_view(),
            checkpoint.deep_view(),
            received_at,
            signature@,
        ),
{
    let mut receipt = draft_receiver_receipt(credential, key, checkpoint, received_at)?;
    verify_bytes(
        key.public_key.as_str(),
        receiver_receipt_signing_text(&receipt).as_str().as_bytes(),
        signature,
    )?;
    receipt.receiver_signature = signature.to_owned();
    Ok(receipt)
}

/// The operation by which a node's owner claims what a session has cost.
pub fn submit_traffic_settlement(
    ledger: &LedgerState,
    owner: &KeyIdentity,
    checkpoint: &SenderCheckpoint,
    receipt: &ReceiverReceipt,
    now: i64,
) -> (r: UnsignedOperation)
    ensures
        r.deep_view() == next_operation(
            ledger@,
            owner.deep_view().address,
            "TrafficPayment"@,
            "Settle"@,
            Map::<Seq<char>, FieldModel>::empty().insert(
                "sender_checkpoint"@,
                FieldModel::Checkpoint(checkpoint.deep_view()),
            ).insert("receiver_receipt"@, FieldModel::Receipt(receipt.deep_view())),
            now,
        ),
{
    draft_next_operation(
        ledger,
        &owner.address,
        "TrafficPayment",
        "Settle",
        Payload::new().with(
            "sender_checkpoint",
            Field::Checkpoint(checkpoint.replicate()),
        ).with("receiver_receipt", Field::Receipt(receipt.replicate())),
        now,
    )
}

/// The operation by which a node's owner gives up a reservation.
pub open spec fn abandonment_drafted(
    ledger: LedgerModel,
    owner: Seq<char>,
    node_name: Seq<char>,
    authorization_id: Seq<char>,
    note: Seq<char>,
    now: i64,
) -> Outcome<UnsignedModel> {
    if !ledger.payment_authorizations.contains_key(authorization_id) {
        Err("payment authorization was not found"@)
    } else {
        let authorization = ledger.payment_authorizations[authorization_id];
        if !ledger.nodes.contains_key(authorization.node_id) {
            Err("serving Node was not found"@)
        } else if ledger.nodes[authorization.node_id].name != node_name
            || ledger.nodes[authorization.node_id].owner_address != owner {
            Err("payment authorization does not belong to this Node"@)
        } else if authorization.refunded_at is Some || authorization.closed_at is Some
            || authorization.reserved_remaining == 0 {
            Err("payment authorization is already closed"@)
        } else {
            Ok(
                next_operation(
                    ledger,
                    owner,
                    "TrafficPayment"@,
                    "Refund"@,
                    Map::<Seq<char>, FieldModel>::empty().insert(
                        "authorization_id"@,
                        FieldModel::Text(authorization_id),
                    ).insert("note"@, FieldModel::Text(note)),
                    now,
                ),
            )
        }
    }
}

/// Makes the operation by which a node's owner gives up a reservation, with a note.
pub fn abandon_traffic_authorization_with_note(
    ledger: &LedgerState,
    owner: &KeyIdentity,
    node_name: &str,
    authorization_id: &str,
    note: &str,
    now: i64,
) -> (r: Result<UnsignedOperation>)
    ensures
        outcome(r) == abandonment_drafted(
            ledger@,
            owner.deep_view().address,
            node_name@,
            authorization_id@,
            note@,
            now,
        ),
{
    match ledger.payment_authorizations.get(&authorization_id.to_owned()) {
        None => {
            return Err(Error::msg("payment authorization was not found"));
        },
        Some(authorization) => {
            match ledger.nodes.get(&authorization.node_id) {
                None => {
                    return Err(Error::msg("serving Node was not found"));
                },
                Some(node) => {
                    if !text_same(node.name.as_str(), node_name) || !text_same(
                        node.owner_address.as_str(),
                        owner.address.as_str(),
                    ) {
                        return Err(
                            Error::msg("payment authorization does not belong to this Node"),
                        );
                    }
                },
            }
            if authorization.refunded_at.is_some() || authorization.closed_at.is_some()
                || authorization.reserved_remaining == 0 {
                return Err(Error::msg("payment authorization is already closed"));
            }
        },
    }
    Ok(
        draft_next_operation(
            ledger,
            &owner.address,
            "TrafficPayment",
            "Refund",
            Payload::new().with_text("authorization_id", authorization_id).with_text("note", note),
            now,
        ),
    )
}

/// Makes the operation by which a node's owner gives up a reservation.
pub fn abandon_traffic_authorization(
    ledger: &LedgerState,
    owner: &KeyIdentity,
    node_name: &str,
    authorization_id: &str,
    now: i64,
) -> (r: Result<UnsignedOperation>)
    ensures
        outcome(r) == abandonment_drafted(
            ledger@,
            owner.deep_view().address,
            node_name@,
            authorization_id@,
            "node abandoned interrupted Relay session"@,
            now,
        ),
{
    abandon_traffic_authorization_with_note(
        ledger,
        owner,
        node_name,
        authorization_id,
        "node abandoned interrupted Relay session",
        now,
    )
}

/// A credential that an owner prepares is valid from now for the days that were asked for, between
/// one and a year, and has the next serial number of the network.
pub proof fn credentials_last_their_days(
    owner: Seq<char>,
    network: NetworkModel,
    member_name: Seq<char>,
    valid_days: i64,
    member_id: Seq<char>,
    member_public_key: Seq<char>,
    now: i64,
)
    requires
        member_prepared(
            owner,
            network,
            member_name,
            valid_days,
            member_id,
            member_public_key,
            now,
        ) is Ok,
        0 <= now <= i64::MAX - 31_536_000,
    ensures
        ({
            let credential = member_prepared(
                owner,
                network,
                member_name,
                valid_days,
                member_id,
                member_public_key,
                now,
            )->Ok_0;
            &&& owner == network.owner_address
            &&& 1 <= valid_days <= 365
            &&& credential.issued_at == now
            &&& credential.expires_at == now + valid_days * 86_400
            &&& credential.serial == network.next_member_serial
            &&& credential.network_id == network.network_id
            &&& credential.member_id == member_id && credential.member_public_key
                == member_public_key
        }),
{
}

/// A member that is let in shows a credential that is valid now, and that a member of the network
/// holds who has not been revoked.
pub proof fn admitted_members_are_registered(
    ledger: LedgerModel,
    challenge: Seq<char>,
    hello: HelloModel,
    now: i64,
)
    requires
        member_authenticated(ledger, challenge, hello, now) is Ok,
    ensures
        ({
            let credential = hello.credential;
            let admitted = member_authenticated(ledger, challenge, hello, now)->Ok_0;
            &&& credential.issued_at <= now < credential.expires_at
            &&& credential.permissions.contains("connect"@) && credential.permissions.contains(
                "send"@,
            ) && credential.permissions.contains("receive"@)
            &&& admitted.network_id == credential.network_id && admitted.member_id
                == credential.member_id && admitted.max_connections == credential.max_connections
            &&& value_where::<String, NetworkModel>(
                ledger.networks,
                has_network_id(credential.network_id),
            ) matches Some(network) && network.network_id == credential.network_id
                && signature_checked(
                network.owner_public_key,
                encode_utf8(credential_signed(credential)),
                credential.owner_signature,
            ) is Ok && exists|name: Seq<char>|
                {
                    let member = #[trigger] network.members[name];
                    &&& member.serial == credential.serial && member.revoked_at is None
                    &&& member.member_id == credential.member_id && member.public_key
                        == credential.member_public_key && member.credential_signature
                        == credential.owner_signature
                }
        }),
{
    let credential = hello.credential;
    let met = has_network_id(credential.network_id);
    crate::sequence::first_where_found(
        crate::table::ordered::<String>(ledger.networks.dom()),
        |key: Seq<char>| met(ledger.networks[key]),
    );
    let network = value_where::<String, NetworkModel>(ledger.networks, met)->0;
    crate::sequence::first_where_found(
        crate::table::ordered::<String>(network.members.dom()),
        |name: Seq<char>| network.members[name].serial == credential.serial,
    );
    let name = member_with_serial(network.members, credential.serial)->0;
    assert(network.members[name].serial == credential.serial);
}

} // verus!
