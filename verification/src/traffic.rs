use vstd::prelude::*;
use vstd::string::*;
use vstd::utf8::*;

use crate::accounts::{add_history, balance_of, history_added, paid_to, pay_account};
use crate::crypto::{full_id, sha256_full_id, signature_checked, verify_bytes};
use crate::error::{outcome, Error, Outcome, Result};
use crate::json::{
    json_flag, json_member, json_quoted, put_flag, put_i64, put_text, put_u32, put_u64,
};
use crate::model::{
    AuthorizationModel, CheckpointModel, DirectionModel, LedgerModel, LedgerState, MemberModel,
    MemberRecord, NetworkModel, NetworkRecord, NodeModel, PaymentAuthorizationRecord, ReceiptModel,
    ReceiverReceipt, RelayDirection, SenderCheckpoint, TrafficDirectionSettlement,
};
use crate::number::{clamped_i64, saturating_sub_i64};
use crate::protocol::{initial_direction, BPS_DENOMINATOR, PROTOCOL_VERSION};
use crate::sequence::{first_where, first_where_ends, first_where_found, first_where_step};
use crate::table::{ordered, ordered_lists_all, Replicate, Table};
use crate::text::{decimal, signed_decimal, text_same};

verus! {

/// Bytes in one GiB.
pub const GIB: u128 = 1_073_741_824;

/// How a direction is written.
pub open spec fn direction_text(direction: RelayDirection) -> Seq<char> {
    match direction {
        RelayDirection::SenderToReceiver => "SENDER_TO_RECEIVER"@,
        RelayDirection::ReceiverToSender => "RECEIVER_TO_SENDER"@,
    }
}

fn direction_name(direction: RelayDirection) -> (r: &'static str)
    ensures
        r@ == direction_text(direction),
{
    match direction {
        RelayDirection::SenderToReceiver => "SENDER_TO_RECEIVER",
        RelayDirection::ReceiverToSender => "RECEIVER_TO_SENDER",
    }
}

/// The members of a checkpoint that its sender signs.
pub open spec fn checkpoint_members(checkpoint: CheckpointModel) -> Seq<char> {
    let a = json_member("{"@, "ledger_id"@, json_quoted(checkpoint.ledger_id));
    let b = json_member(a, "protocol_version"@, decimal(checkpoint.protocol_version as nat));
    let c = json_member(b, "node_id"@, decimal(checkpoint.node_id as nat));
    let d = json_member(c, "authorization_id"@, json_quoted(checkpoint.authorization_id));
    let e = json_member(d, "session_id"@, json_quoted(checkpoint.session_id));
    let f = json_member(e, "direction"@, json_quoted(direction_text(checkpoint.direction)));
    let g = json_member(f, "sequence"@, decimal(checkpoint.sequence as nat));
    let h = json_member(
        g,
        "cumulative_sent_bytes"@,
        decimal(checkpoint.cumulative_sent_bytes as nat),
    );
    let i = json_member(h, "transcript_hash"@, json_quoted(checkpoint.transcript_hash));
    let j = json_member(i, "checkpoint_at"@, signed_decimal(checkpoint.checkpoint_at as int));
    let k = json_member(j, "sender_member_id"@, json_quoted(checkpoint.sender_member_id));
    json_member(k, "final_checkpoint"@, json_flag(checkpoint.final_checkpoint))
}

/// What a sender signs.
pub open spec fn checkpoint_signed(checkpoint: CheckpointModel) -> Seq<char> {
    checkpoint_members(checkpoint) + "}"@
}

/// The identifier of a signed checkpoint.
pub open spec fn checkpoint_hash(checkpoint: CheckpointModel) -> Seq<char> {
    full_id(
        "sender-checkpoint"@,
        encode_utf8(
            json_member(
                checkpoint_members(checkpoint),
                "sender_signature"@,
                json_quoted(checkpoint.sender_signature),
            ) + "}"@,
        ),
    )
}

fn write_checkpoint_members(checkpoint: &SenderCheckpoint) -> (r: String)
    ensures
        r@ == checkpoint_members(checkpoint.deep_view()),
{
    let mut text = "{".to_owned();
    put_text(&mut text, "ledger_id", checkpoint.ledger_id.as_str());
    put_u32(&mut text, "protocol_version", checkpoint.protocol_version);
    put_u64(&mut text, "node_id", checkpoint.node_id);
    put_text(&mut text, "authorization_id", checkpoint.authorization_id.as_str());
    put_text(&mut text, "session_id", checkpoint.session_id.as_str());
    put_text(&mut text, "direction", direction_name(checkpoint.direction));
    put_u64(&mut text, "sequence", checkpoint.sequence);
    put_u64(&mut text, "cumulative_sent_bytes", checkpoint.cumulative_sent_bytes);
    put_text(&mut text, "transcript_hash", checkpoint.transcript_hash.as_str());
    put_i64(&mut text, "checkpoint_at", checkpoint.checkpoint_at);
    put_text(&mut text, "sender_member_id", checkpoint.sender_member_id.as_str());
    put_flag(&mut text, "final_checkpoint", checkpoint.final_checkpoint);
    text
}

/// Writes what a sender signs.
pub fn sender_checkpoint_signing_text(checkpoint: &SenderCheckpoint) -> (r: String)
    ensures
        r@ == checkpoint_signed(checkpoint.deep_view()),
{
    let mut text = write_checkpoint_members(checkpoint);
    text.append("}");
    text
}

/// The identifier of a signed checkpoint.
pub fn sender_checkpoint_hash(checkpoint: &SenderCheckpoint) -> (r: String)
    ensures
        r@ == checkpoint_hash(checkpoint.deep_view()),
{
    let mut text = write_checkpoint_members(checkpoint);
    put_text(&mut text, "sender_signature", checkpoint.sender_signature.as_str());
    text.append("}");
    sha256_full_id("sender-checkpoint", text.as_str().as_bytes())
}

/// The members of a receipt that its receiver signs.
pub open spec fn receipt_members(receipt: ReceiptModel) -> Seq<char> {
    let a = json_member("{"@, "ledger_id"@, json_quoted(receipt.ledger_id));
    let b = json_member(a, "protocol_version"@, decimal(receipt.protocol_version as nat));
    let c = json_member(b, "node_id"@, decimal(receipt.node_id as nat));
    let d = json_member(c, "authorization_id"@, json_quoted(receipt.authorization_id));
    let e = json_member(d, "session_id"@, json_quoted(receipt.session_id));
    let f = json_member(e, "direction"@, json_quoted(direction_text(receipt.direction)));
    let g = json_member(f, "sequence"@, decimal(receipt.sequence as nat));
    let h = json_member(
        g,
        "cumulative_received_bytes"@,
        decimal(receipt.cumulative_received_bytes as nat),
    );
    let i = json_member(h, "transcript_hash"@, json_quoted(receipt.transcript_hash));
    let j = json_member(i, "sender_checkpoint_hash"@, json_quoted(receipt.sender_checkpoint_hash));
    let k = json_member(j, "received_at"@, signed_decimal(receipt.received_at as int));
    json_member(k, "receiver_member_id"@, json_quoted(receipt.receiver_member_id))
}

/// What a receiver signs.
pub open spec fn receipt_signed(receipt: ReceiptModel) -> Seq<char> {
    receipt_members(receipt) + "}"@
}

/// The identifier of a signed receipt.
pub open spec fn receipt_hash(receipt: ReceiptModel) -> Seq<char> {
    full_id(
        "receiver-receipt"@,
        encode_utf8(
            json_member(
                receipt_members(receipt),
                "receiver_signature"@,
                json_quoted(receipt.receiver_signature),
            ) + "}"@,
        ),
    )
}

fn write_receipt_members(receipt: &ReceiverReceipt) -> (r: String)
    ensures
        r@ == receipt_members(receipt.deep_view()),
{
    let mut text = "{".to_owned();
    put_text(&mut text, "ledger_id", receipt.ledger_id.as_str());
    put_u32(&mut text, "protocol_version", receipt.protocol_version);
    put_u64(&mut text, "node_id", receipt.node_id);
    put_text(&mut text, "authorization_id", receipt.authorization_id.as_str());
    put_text(&mut text, "session_id", receipt.session_id.as_str());
    put_text(&mut text, "direction", direction_name(receipt.direction));
    put_u64(&mut text, "sequence", receipt.sequence);
    put_u64(&mut text, "cumulative_received_bytes", receipt.cumulative_received_bytes);
    put_text(&mut text, "transcript_hash", receipt.transcript_hash.as_str());
    put_text(&mut text, "sender_checkpoint_hash", receipt.sender_checkpoint_hash.as_str());
    put_i64(&mut text, "received_at", receipt.received_at);
    put_text(&mut text, "receiver_member_id", receipt.receiver_member_id.as_str());
    text
}

/// Writes what a receiver signs.
pub fn receiver_receipt_signing_text(receipt: &ReceiverReceipt) -> (r: String)
    ensures
        r@ == receipt_signed(receipt.deep_view()),
{
    let mut text = write_receipt_members(receipt);
    text.append("}");
    text
}

/// The identifier of a signed receipt.
pub fn receiver_receipt_hash(receipt: &ReceiverReceipt) -> (r: String)
    ensures
        r@ == receipt_hash(receipt.deep_view()),
{
    let mut text = write_receipt_members(receipt);
    put_text(&mut text, "receiver_signature", receipt.receiver_signature.as_str());
    text.append("}");
    sha256_full_id("receiver-receipt", text.as_str().as_bytes())
}

/// The name of the member with an identifier.
pub open spec fn member_named(
    members: Map<Seq<char>, MemberModel>,
    member_id: Seq<char>,
) -> Option<Seq<char>> {
    first_where(
        ordered::<String>(members.dom()),
        |name: Seq<char>| members[name].member_id == member_id,
    )
}

/// Finds the member with an identifier.
pub fn find_member<'a>(members: &'a Table<String, MemberRecord>, member_id: &str) -> (r: Option<
    &'a MemberRecord,
>)
    ensures
        match member_named(members@, member_id@) {
            Some(name) => members@.contains_key(name) && (r matches Some(member)
                && member.deep_view() == members@[name]),
            None => r is None,
        },
{
    let ghost keys = members.keys();
    let ghost met = |name: Seq<char>| members@[name].member_id == member_id@;
    let mut i: usize = 0;
    proof {
        first_where_ends(keys, met);
    }
    while i < members.len()
        invariant
            i <= keys.len(),
            keys == members.keys(),
            met == (|name: Seq<char>| members@[name].member_id == member_id@),
            first_where(keys, met) == first_where(keys.skip(i as int), met),
        decreases keys.len() - i,
    {
        proof {
            first_where_step(keys, i as int, met);
        }
        let member = members.value_at(i);
        if text_same(member.member_id.as_str(), member_id) {
            return Some(member);
        }
        i = i + 1;
    }
    proof {
        first_where_ends(keys, met);
    }
    None
}

/// Whether a member was valid at a time.
pub open spec fn member_valid_at(member: MemberModel, at: i64) -> bool {
    member.issued_at <= at && at < member.expires_at && match member.revoked_at {
        None => true,
        Some(revoked_at) => at < revoked_at,
    }
}

fn member_was_valid(member: &MemberRecord, at: i64) -> (r: bool)
    ensures
        r == member_valid_at(member.deep_view(), at),
{
    member.issued_at <= at && at < member.expires_at && match member.revoked_at {
        None => true,
        Some(revoked_at) => at < revoked_at,
    }
}

/// Whether a checkpoint and a receipt describe the same traffic of this ledger.
pub open spec fn prefix_checked(
    ledger: LedgerModel,
    checkpoint: CheckpointModel,
    receipt: ReceiptModel,
) -> Outcome<()> {
    if checkpoint.protocol_version != PROTOCOL_VERSION || receipt.protocol_version
        != PROTOCOL_VERSION || checkpoint.ledger_id != ledger.ledger_id || receipt.ledger_id
        != ledger.ledger_id {
        Err("traffic receipt targets another protocol or ledger"@)
    } else if checkpoint.node_id != receipt.node_id || checkpoint.authorization_id
        != receipt.authorization_id || checkpoint.session_id != receipt.session_id
        || checkpoint.direction != receipt.direction || checkpoint.sequence != receipt.sequence
        || checkpoint.cumulative_sent_bytes != receipt.cumulative_received_bytes
        || checkpoint.transcript_hash != receipt.transcript_hash {
        Err("traffic sender checkpoint and receiver receipt do not describe the same prefix"@)
    } else if !checkpoint.final_checkpoint && (checkpoint.sequence == 0
        || checkpoint.cumulative_sent_bytes == 0) {
        Err("traffic settlement cannot contain an empty prefix"@)
    } else if receipt.sender_checkpoint_hash != checkpoint_hash(checkpoint) {
        Err("traffic ReceiverReceipt does not bind the submitted SenderCheckpoint"@)
    } else {
        Ok(())
    }
}

fn check_prefix(
    ledger: &LedgerState,
    checkpoint: &SenderCheckpoint,
    receipt: &ReceiverReceipt,
) -> (r: Result<()>)
    ensures
        outcome(r) == prefix_checked(ledger@, checkpoint.deep_view(), receipt.deep_view()),
{
    if checkpoint.protocol_version != PROTOCOL_VERSION || receipt.protocol_version
        != PROTOCOL_VERSION || !text_same(checkpoint.ledger_id.as_str(), ledger.ledger_id.as_str())
        || !text_same(receipt.ledger_id.as_str(), ledger.ledger_id.as_str()) {
        return Err(Error::msg("traffic receipt targets another protocol or ledger"));
    }
    if checkpoint.node_id != receipt.node_id || !text_same(
        checkpoint.authorization_id.as_str(),
        receipt.authorization_id.as_str(),
    ) || !text_same(checkpoint.session_id.as_str(), receipt.session_id.as_str())
        || checkpoint.direction != receipt.direction || checkpoint.sequence != receipt.sequence
        || checkpoint.cumulative_sent_bytes != receipt.cumulative_received_bytes || !text_same(
        checkpoint.transcript_hash.as_str(),
        receipt.transcript_hash.as_str(),
    ) {
        return Err(
            Error::msg(
                "traffic sender checkpoint and receiver receipt do not describe the same prefix",
            ),
        );
    }
    if !checkpoint.final_checkpoint && (checkpoint.sequence == 0
        || checkpoint.cumulative_sent_bytes == 0) {
        return Err(Error::msg("traffic settlement cannot contain an empty prefix"));
    }
    let expected = sender_checkpoint_hash(checkpoint);
    if !text_same(receipt.sender_checkpoint_hash.as_str(), expected.as_str()) {
        return Err(
            Error::msg("traffic ReceiverReceipt does not bind the submitted SenderCheckpoint"),
        );
    }
    Ok(())
}

/// Who sends and who receives in a direction of a session.
pub open spec fn session_ends(
    authorization: AuthorizationModel,
    direction: RelayDirection,
) -> (Seq<char>, Seq<char>) {
    match direction {
        RelayDirection::SenderToReceiver => (
            authorization.sender_member_id,
            authorization.receiver_member_id,
        ),
        RelayDirection::ReceiverToSender => (
            authorization.receiver_member_id,
            authorization.sender_member_id,
        ),
    }
}

/// Whether both ends of a session are members that were valid and have signed.
pub open spec fn ends_checked(
    network: NetworkModel,
    ends: (Seq<char>, Seq<char>),
    checkpoint: CheckpointModel,
    receipt: ReceiptModel,
) -> Outcome<()> {
    match member_named(network.members, ends.0) {
        None => Err("traffic sender Member is missing"@),
        Some(sender_name) => match member_named(network.members, ends.1) {
            None => Err("traffic receiver Member is missing"@),
            Some(receiver_name) => {
                let sender = network.members[sender_name];
                let receiver = network.members[receiver_name];
                if !member_valid_at(sender, checkpoint.checkpoint_at) || !member_valid_at(
                    receiver,
                    receipt.received_at,
                ) {
                    Err("traffic receipt uses an invalid or revoked Member"@)
                } else {
                    match signature_checked(
                        sender.public_key,
                        encode_utf8(checkpoint_signed(checkpoint)),
                        checkpoint.sender_signature,
                    ) {
                        Err(refusal) => Err(refusal),
                        Ok(_) => signature_checked(
                            receiver.public_key,
                            encode_utf8(receipt_signed(receipt)),
                            receipt.receiver_signature,
                        ),
                    }
                }
            },
        },
    }
}

fn check_ends(
    network: &NetworkRecord,
    sender_id: &str,
    receiver_id: &str,
    checkpoint: &SenderCheckpoint,
    receipt: &ReceiverReceipt,
) -> (r: Result<()>)
    ensures
        outcome(r) == ends_checked(
            network.deep_view(),
            (sender_id@, receiver_id@),
            checkpoint.deep_view(),
            receipt.deep_view(),
        ),
{
    let sender = match find_member(&network.members, sender_id) {
        None => {
            return Err(Error::msg("traffic sender Member is missing"));
        },
        Some(sender) => sender,
    };
    let receiver = match find_member(&network.members, receiver_id) {
        None => {
            return Err(Error::msg("traffic receiver Member is missing"));
        },
        Some(receiver) => receiver,
    };
    if !member_was_valid(sender, checkpoint.checkpoint_at) || !member_was_valid(
        receiver,
        receipt.received_at,
    ) {
        return Err(Error::msg("traffic receipt uses an invalid or revoked Member"));
    }
    verify_bytes(
        sender.public_key.as_str(),
        sender_checkpoint_signing_text(checkpoint).as_str().as_bytes(),
        checkpoint.sender_signature.as_str(),
    )?;
    verify_bytes(
        receiver.public_key.as_str(),
        receiver_receipt_signing_text(receipt).as_str().as_bytes(),
        receipt.receiver_signature.as_str(),
    )
}

/// Whether the signer may claim the traffic under a reservation that is still open.
pub open spec fn claim_checked(
    ledger: LedgerModel,
    signer: Seq<char>,
    signer_key: Seq<char>,
    checkpoint: CheckpointModel,
    receipt: ReceiptModel,
    executed_at: i64,
) -> Outcome<()> {
    if !ledger.payment_authorizations.contains_key(checkpoint.authorization_id) {
        Err("traffic payment authorization was not found"@)
    } else {
        let authorization = ledger.payment_authorizations[checkpoint.authorization_id];
        let ends = session_ends(authorization, checkpoint.direction);
        if authorization.refunded_at is Some || authorization.reserved_remaining == 0 {
            Err("traffic payment authorization is no longer claimable"@)
        } else if authorization.node_id != checkpoint.node_id || authorization.session_id
            != checkpoint.session_id {
            Err("traffic receipt does not match its payment authorization"@)
        } else if executed_at > authorization.claim_until || checkpoint.checkpoint_at
            < authorization.created_at || receipt.received_at < checkpoint.checkpoint_at
            || clamped_i64(receipt.received_at - checkpoint.checkpoint_at) > 30
            || receipt.received_at > authorization.valid_until {
            Err("traffic receipt is outside its authorized time window"@)
        } else if !ledger.nodes.contains_key(authorization.node_id) {
            Err("traffic settlement Node is missing"@)
        } else if ledger.nodes[authorization.node_id].owner_address != signer
            || ledger.nodes[authorization.node_id].owner_public_key != signer_key {
            Err("only the authorized Node Owner can submit traffic settlement"@)
        } else if checkpoint.sender_member_id != ends.0 || receipt.receiver_member_id != ends.1 {
            Err("traffic receipt member roles do not match the authorization"@)
        } else if !ledger.networks.contains_key(authorization.network_commitment) {
            Err("traffic payment Network is missing"@)
        } else {
            ends_checked(
                ledger.networks[authorization.network_commitment],
                ends,
                checkpoint,
                receipt,
            )
        }
    }
}

fn check_claim(
    ledger: &LedgerState,
    signer: &str,
    signer_key: &str,
    checkpoint: &SenderCheckpoint,
    receipt: &ReceiverReceipt,
    executed_at: i64,
) -> (r: Result<()>)
    ensures
        outcome(r) == claim_checked(
            ledger@,
            signer@,
            signer_key@,
            checkpoint.deep_view(),
            receipt.deep_view(),
            executed_at,
        ),
{
    let authorization = match ledger.payment_authorizations.get(&checkpoint.authorization_id) {
        None => {
            return Err(Error::msg("traffic payment authorization was not found"));
        },
        Some(authorization) => authorization,
    };
    if authorization.refunded_at.is_some() || authorization.reserved_remaining == 0 {
        return Err(Error::msg("traffic payment authorization is no longer claimable"));
    }
    if authorization.node_id != checkpoint.node_id || !text_same(
        authorization.session_id.as_str(),
        checkpoint.session_id.as_str(),
    ) {
        return Err(Error::msg("traffic receipt does not match its payment authorization"));
    }
    if executed_at > authorization.claim_until || checkpoint.checkpoint_at
        < authorization.created_at || receipt.received_at < checkpoint.checkpoint_at
        || saturating_sub_i64(receipt.received_at, checkpoint.checkpoint_at) > 30
        || receipt.received_at > authorization.valid_until {
        return Err(Error::msg("traffic receipt is outside its authorized time window"));
    }
    match ledger.nodes.get(&authorization.node_id) {
        None => {
            return Err(Error::msg("traffic settlement Node is missing"));
        },
        Some(node) => {
            if !text_same(node.owner_address.as_str(), signer) || !text_same(
                node.owner_public_key.as_str(),
                signer_key,
            ) {
                return Err(
                    Error::msg("only the authorized Node Owner can submit traffic settlement"),
                );
            }
        },
    }
    let (sender_id, receiver_id): (&str, &str) = match checkpoint.direction {
        RelayDirection::SenderToReceiver => (
            authorization.sender_member_id.as_str(),
            authorization.receiver_member_id.as_str(),
        ),
        RelayDirection::ReceiverToSender => (
            authorization.receiver_member_id.as_str(),
            authorization.sender_member_id.as_str(),
        ),
    };
    if !text_same(checkpoint.sender_member_id.as_str(), sender_id) || !text_same(
        receipt.receiver_member_id.as_str(),
        receiver_id,
    ) {
        return Err(Error::msg("traffic receipt member roles do not match the authorization"));
    }
    match ledger.networks.get(&authorization.network_commitment) {
        None => Err(Error::msg("traffic payment Network is missing")),
        Some(network) => check_ends(network, sender_id, receiver_id, checkpoint, receipt),
    }
}

/// What is recorded of a direction of a session, if anything is.
pub open spec fn direction_recorded(
    authorization: AuthorizationModel,
    direction: RelayDirection,
) -> Option<DirectionModel> {
    match direction {
        RelayDirection::SenderToReceiver => authorization.sender_to_receiver,
        RelayDirection::ReceiverToSender => authorization.receiver_to_sender,
    }
}

/// What has been settled in a direction of a session.
pub open spec fn direction_of(
    authorization: AuthorizationModel,
    direction: RelayDirection,
) -> DirectionModel {
    match direction_recorded(authorization, direction) {
        Some(settled) => settled,
        None => initial_direction(),
    }
}

fn find_direction(
    authorization: &PaymentAuthorizationRecord,
    direction: RelayDirection,
) -> (r: TrafficDirectionSettlement)
    ensures
        r.deep_view() == direction_of(authorization.deep_view(), direction),
{
    let recorded = match direction {
        RelayDirection::SenderToReceiver => &authorization.sender_to_receiver,
        RelayDirection::ReceiverToSender => &authorization.receiver_to_sender,
    };
    match recorded {
        Some(settled) => settled.replicate(),
        None => TrafficDirectionSettlement::default(),
    }
}

/// Whether a direction of a session is recorded and still open.
pub open spec fn is_open(recorded: Option<DirectionModel>) -> bool {
    recorded matches Some(settled) && !settled.finalized
}

/// The direction other than the one of a checkpoint.
pub open spec fn other_direction(
    authorization: AuthorizationModel,
    direction: RelayDirection,
) -> Option<DirectionModel> {
    match direction {
        RelayDirection::SenderToReceiver => authorization.receiver_to_sender,
        RelayDirection::ReceiverToSender => authorization.sender_to_receiver,
    }
}

/// What the traffic of a session costs: the price per GiB, rounded up to the next base unit.
pub open spec fn traffic_price(bytes: u64, price_per_gib: u128) -> int {
    (bytes * price_per_gib + GIB - 1) / GIB as int
}

/// What a checkpoint adds to what has been settled: the amount and the bytes.
pub open spec fn amounts_due(
    authorization: AuthorizationModel,
    checkpoint: CheckpointModel,
) -> Outcome<(u128, u64)> {
    let previous = direction_of(authorization, checkpoint.direction);
    let bytes = checkpoint.cumulative_sent_bytes;
    let owed = traffic_price(bytes, authorization.price_per_gib);
    if checkpoint.sequence < previous.settled_sequence || bytes < previous.settled_payload_bytes
        || (!checkpoint.final_checkpoint && checkpoint.sequence == previous.settled_sequence
        && bytes == previous.settled_payload_bytes) || previous.finalized {
        Err("traffic settlement is not a strictly newer prefix"@)
    } else if bytes * authorization.price_per_gib > u128::MAX {
        Err("traffic settlement amount overflow"@)
    } else if bytes * authorization.price_per_gib + GIB - 1 > u128::MAX {
        Err("traffic settlement rounding overflow"@)
    } else if owed < previous.settled_amount {
        Err("traffic settlement amount moved backwards"@)
    } else if owed - previous.settled_amount > authorization.reserved_remaining {
        Err("traffic settlement exceeds the remaining payment authorization"@)
    } else {
        Ok(
            (
                (owed - previous.settled_amount) as u128,
                (bytes - previous.settled_payload_bytes) as u64,
            ),
        )
    }
}

fn compute_amounts(
    authorization: &PaymentAuthorizationRecord,
    checkpoint: &SenderCheckpoint,
) -> (r: Result<(u128, u64)>)
    ensures
        outcome(r) == amounts_due(authorization.deep_view(), checkpoint.deep_view()),
{
    let previous = find_direction(authorization, checkpoint.direction);
    let bytes: u64 = checkpoint.cumulative_sent_bytes;
    let backwards = checkpoint.sequence < previous.settled_sequence || bytes
        < previous.settled_payload_bytes;
    let stalled = checkpoint.sequence == previous.settled_sequence && bytes
        == previous.settled_payload_bytes;
    if backwards || (!checkpoint.final_checkpoint && stalled) || previous.finalized {
        return Err(Error::msg("traffic settlement is not a strictly newer prefix"));
    }
    let product: u128 = match (bytes as u128).checked_mul(authorization.price_per_gib) {
        None => {
            return Err(Error::msg("traffic settlement amount overflow"));
        },
        Some(product) => product,
    };
    let owed: u128 = match product.checked_add(GIB - 1) {
        None => {
            return Err(Error::msg("traffic settlement rounding overflow"));
        },
        Some(sum) => sum / GIB,
    };
    if owed < previous.settled_amount {
        return Err(Error::msg("traffic settlement amount moved backwards"));
    }
    let amount: u128 = owed - previous.settled_amount;
    if amount > authorization.reserved_remaining {
        return Err(
            Error::msg("traffic settlement exceeds the remaining payment authorization"),
        );
    }
    Ok((amount, bytes - previous.settled_payload_bytes))
}

/// What the protocol keeps of a settlement.
#[derive(Clone, Copy, Debug, PartialEq, Eq, Structural)]
pub struct TrafficProtocolFee {
    pub charged: u128,
    pub burned: u128,
    pub to_treasury: u128,
}

impl DeepView for TrafficProtocolFee {
    type V = TrafficProtocolFee;

    open spec fn deep_view(&self) -> TrafficProtocolFee {
        *self
    }
}

/// What the protocol keeps of an amount: a share of it, of which a share goes to the treasury and the
/// rest is burned.
pub open spec fn protocol_fee(amount: u128, fee_bps: u32, treasury_bps: u32) -> Outcome<
    TrafficProtocolFee,
> {
    let charged = amount * fee_bps / BPS_DENOMINATOR as int;
    let to_treasury = charged * treasury_bps / BPS_DENOMINATOR as int;
    if amount * fee_bps > u128::MAX || charged > amount {
        Err("traffic protocol fee overflow"@)
    } else if charged * treasury_bps > u128::MAX || to_treasury > charged {
        Err("traffic Treasury fee overflow"@)
    } else {
        Ok(
            TrafficProtocolFee {
                charged: charged as u128,
                burned: (charged - to_treasury) as u128,
                to_treasury: to_treasury as u128,
            },
        )
    }
}

fn compute_fee(amount: u128, fee_bps: u32, treasury_bps: u32) -> (r: Result<TrafficProtocolFee>)
    ensures
        outcome(r) == protocol_fee(amount, fee_bps, treasury_bps),
        r matches Ok(fee) ==> fee.charged <= amount,
{
    let charged: u128 = match amount.checked_mul(fee_bps as u128) {
        None => {
            return Err(Error::msg("traffic protocol fee overflow"));
        },
        Some(product) => product / BPS_DENOMINATOR,
    };
    if charged > amount {
        return Err(Error::msg("traffic protocol fee overflow"));
    }
    let to_treasury: u128 = match charged.checked_mul(treasury_bps as u128) {
        None => {
            return Err(Error::msg("traffic Treasury fee overflow"));
        },
        Some(product) => product / BPS_DENOMINATOR,
    };
    if to_treasury > charged {
        return Err(Error::msg("traffic Treasury fee overflow"));
    }
    Ok(TrafficProtocolFee { charged, burned: charged - to_treasury, to_treasury })
}

/// A reservation after a checkpoint has been settled. It is closed once all recorded directions are
/// final.
pub open spec fn authorization_settled(
    authorization: AuthorizationModel,
    checkpoint: CheckpointModel,
    receipt: ReceiptModel,
    amount: u128,
    executed_at: i64,
) -> AuthorizationModel {
    let direction = DirectionModel {
        settled_sequence: checkpoint.sequence,
        settled_payload_bytes: checkpoint.cumulative_sent_bytes,
        settled_amount: (direction_of(authorization, checkpoint.direction).settled_amount
            + amount) as u128,
        settled_transcript_hash: Some(checkpoint.transcript_hash),
        last_receipt_hash: Some(receipt_hash(receipt)),
        last_receipt_at: Some(receipt.received_at),
        finalized: checkpoint.final_checkpoint,
    };
    let closes = direction.finalized && !is_open(
        other_direction(authorization, checkpoint.direction),
    );
    AuthorizationModel {
        reserved_remaining: if closes {
            0
        } else {
            (authorization.reserved_remaining - amount) as u128
        },
        settled_amount: (authorization.settled_amount + amount) as u128,
        sender_to_receiver: match checkpoint.direction {
            RelayDirection::SenderToReceiver => Some(direction),
            RelayDirection::ReceiverToSender => authorization.sender_to_receiver,
        },
        receiver_to_sender: match checkpoint.direction {
            RelayDirection::SenderToReceiver => authorization.receiver_to_sender,
            RelayDirection::ReceiverToSender => Some(direction),
        },
        closed_at: if closes {
            Some(executed_at)
        } else {
            authorization.closed_at
        },
        ..authorization
    }
}

/// What a settlement gives back to the network.
pub open spec fn released_amount(
    authorization: AuthorizationModel,
    checkpoint: CheckpointModel,
    amount: u128,
) -> u128 {
    if checkpoint.final_checkpoint && !is_open(
        other_direction(authorization, checkpoint.direction),
    ) {
        (authorization.reserved_remaining - amount) as u128
    } else {
        0
    }
}

fn check_open(recorded: &Option<TrafficDirectionSettlement>) -> (r: bool)
    ensures
        r == is_open(recorded.deep_view()),
{
    match recorded {
        Some(settled) => !settled.finalized,
        None => false,
    }
}

fn settle_authorization(
    authorization: &mut PaymentAuthorizationRecord,
    checkpoint: &SenderCheckpoint,
    receipt: &ReceiverReceipt,
    amount: u128,
    executed_at: i64,
) -> (r: u128)
    requires
        amount <= old(authorization).reserved_remaining,
        old(authorization).settled_amount + amount <= u128::MAX,
        direction_of(
            old(authorization).deep_view(),
            checkpoint.direction,
        ).settled_amount + amount <= u128::MAX,
    ensures
        final(authorization).deep_view() == authorization_settled(
            old(authorization).deep_view(),
            checkpoint.deep_view(),
            receipt.deep_view(),
            amount,
            executed_at,
        ),
        r == released_amount(old(authorization).deep_view(), checkpoint.deep_view(), amount),
{
    let previous: u128 = find_direction(authorization, checkpoint.direction).settled_amount;
    let other_open = match checkpoint.direction {
        RelayDirection::SenderToReceiver => check_open(&authorization.receiver_to_sender),
        RelayDirection::ReceiverToSender => check_open(&authorization.sender_to_receiver),
    };
    let direction = TrafficDirectionSettlement {
        settled_sequence: checkpoint.sequence,
        settled_payload_bytes: checkpoint.cumulative_sent_bytes,
        settled_amount: previous + amount,
        settled_transcript_hash: Some(checkpoint.transcript_hash.clone()),
        last_receipt_hash: Some(receiver_receipt_hash(receipt)),
        last_receipt_at: Some(receipt.received_at),
        finalized: checkpoint.final_checkpoint,
    };
    authorization.reserved_remaining = authorization.reserved_remaining - amount;
    authorization.settled_amount = authorization.settled_amount + amount;
    match checkpoint.direction {
        RelayDirection::SenderToReceiver => {
            authorization.sender_to_receiver = Some(direction);
        },
        RelayDirection::ReceiverToSender => {
            authorization.receiver_to_sender = Some(direction);
        },
    }
    if checkpoint.final_checkpoint && !other_open {
        let released: u128 = authorization.reserved_remaining;
        authorization.reserved_remaining = 0;
        authorization.closed_at = Some(executed_at);
        released
    } else {
        0
    }
}

/// The ledger after an amount has gone back to a network.
pub open spec fn escrow_released(
    ledger: LedgerModel,
    commitment: Seq<char>,
    amount: u128,
    refusal: Seq<char>,
) -> Outcome<LedgerModel> {
    if amount == 0 || !ledger.networks.contains_key(commitment) {
        Ok(ledger)
    } else if ledger.networks[commitment].escrow_balance + amount > u128::MAX {
        Err(refusal)
    } else {
        Ok(
            LedgerModel {
                networks: ledger.networks.insert(
                    commitment,
                    NetworkModel {
                        escrow_balance: (ledger.networks[commitment].escrow_balance
                            + amount) as u128,
                        ..ledger.networks[commitment]
                    },
                ),
                ..ledger
            },
        )
    }
}

/// Gives an amount back to a network.
pub fn release_escrow(
    ledger: &mut LedgerState,
    commitment: &String,
    amount: u128,
    refusal: &str,
) -> (r: Result<()>)
    ensures
        match escrow_released(old(ledger)@, commitment@, amount, refusal@) {
            Ok(next) => r is Ok && final(ledger)@ == next,
            Err(text) => final(ledger)@ == old(ledger)@ && (r matches Err(error) && error@ == text),
        },
{
    if amount == 0 {
        return Ok(());
    }
    match ledger.networks.get_mut(commitment) {
        None => Ok(()),
        Some(network) => match network.escrow_balance.checked_add(amount) {
            None => Err(Error::msg(refusal)),
            Some(balance) => {
                network.escrow_balance = balance;
                Ok(())
            },
        },
    }
}

/// The ledger after the protocol and the node have got their parts of an amount.
pub open spec fn income_shared(
    ledger: LedgerModel,
    node_id: u64,
    amount: u128,
    fee: TrafficProtocolFee,
    received_at: i64,
    operation_id: Seq<char>,
) -> Outcome<LedgerModel> {
    let node = ledger.nodes[node_id];
    if ledger.treasury + fee.to_treasury > u128::MAX {
        Err("Treasury balance overflow"@)
    } else if ledger.burned + fee.burned > u128::MAX {
        Err("burn counter overflow"@)
    } else {
        let kept = LedgerModel {
            treasury: (ledger.treasury + fee.to_treasury) as u128,
            burned: (ledger.burned + fee.burned) as u128,
            ..ledger
        };
        match paid_to(
            kept,
            node.reward_address,
            (amount - fee.charged) as u128,
            "Node traffic income overflow"@,
        ) {
            Err(refusal) => Err(refusal),
            Ok(paid) => Ok(
                history_added(
                    LedgerModel {
                        nodes: paid.nodes.insert(
                            node_id,
                            NodeModel {
                                last_relay_receipt_at: crate::attestation::later(
                                    node.last_relay_receipt_at,
                                    Some(received_at),
                                ),
                                ..node
                            },
                        ),
                        ..paid
                    },
                    node.reward_address,
                    operation_id,
                ),
            ),
        }
    }
}

fn share_income(
    ledger: &mut LedgerState,
    node_id: u64,
    amount: u128,
    fee: TrafficProtocolFee,
    received_at: i64,
    operation_id: &str,
) -> (r: Result<()>)
    requires
        old(ledger)@.nodes.contains_key(node_id),
        fee.charged <= amount,
    ensures
        match income_shared(
            old(ledger)@,
            node_id,
            amount,
            fee,
            received_at,
            operation_id@,
        ) {
            Ok(next) => r is Ok && final(ledger)@ == next,
            Err(refusal) => r matches Err(error) && error@ == refusal,
        },
{
    let reward_address = match ledger.nodes.get(&node_id) {
        None => {
            return Ok(());
        },
        Some(node) => node.reward_address.clone(),
    };
    match ledger.treasury.checked_add(fee.to_treasury) {
        None => {
            return Err(Error::msg("Treasury balance overflow"));
        },
        Some(treasury) => {
            ledger.treasury = treasury;
        },
    }
    match ledger.burned.checked_add(fee.burned) {
        None => {
            return Err(Error::msg("burn counter overflow"));
        },
        Some(burned) => {
            ledger.burned = burned;
        },
    }
    pay_account(
        ledger,
        reward_address.as_str(),
        amount - fee.charged,
        "Node traffic income overflow",
    )?;
    if let Some(node) = ledger.nodes.get_mut(&node_id) {
        node.last_relay_receipt_at = match node.last_relay_receipt_at {
            Some(before) => Some(
                if before >= received_at {
                    before
                } else {
                    received_at
                },
            ),
            None => Some(received_at),
        };
    }
    add_history(ledger, reward_address.as_str(), operation_id);
    Ok(())
}

/// The ledger after traffic has been settled: the reservation pays the node, the treasury and what is
/// burned, and what is left of a reservation that is closed goes back to the network.
#[verifier::opaque]
pub open spec fn traffic_settled(
    ledger: LedgerModel,
    signer: Seq<char>,
    signer_key: Seq<char>,
    operation_id: Seq<char>,
    checkpoint: CheckpointModel,
    receipt: ReceiptModel,
    executed_at: i64,
) -> Outcome<(LedgerModel, TrafficProtocolFee)> {
    match prefix_checked(ledger, checkpoint, receipt) {
        Err(refusal) => Err(refusal),
        Ok(_) => match claim_checked(
            ledger,
            signer,
            signer_key,
            checkpoint,
            receipt,
            executed_at,
        ) {
            Err(refusal) => Err(refusal),
            Ok(_) => {
                let authorization = ledger.payment_authorizations[checkpoint.authorization_id];
                match amounts_due(authorization, checkpoint) {
                    Err(refusal) => Err(refusal),
                    Ok(due) => if authorization.settled_amount + due.0 > u128::MAX {
                        Err("traffic settled amount overflow"@)
                    } else {
                        let noted = LedgerModel {
                            payment_authorizations: ledger.payment_authorizations.insert(
                                checkpoint.authorization_id,
                                authorization_settled(
                                    authorization,
                                    checkpoint,
                                    receipt,
                                    due.0,
                                    executed_at,
                                ),
                            ),
                            ..ledger
                        };
                        match escrow_released(
                            noted,
                            authorization.network_commitment,
                            released_amount(authorization, checkpoint, due.0),
                            "Network Fund overflow while closing Relay session"@,
                        ) {
                            Err(refusal) => Err(refusal),
                            Ok(released) => if released.total_settled_traffic_bytes + due.1
                                > u128::MAX {
                                Err("total settled traffic overflow"@)
                            } else {
                                let counted = LedgerModel {
                                    total_settled_traffic_bytes: (
                                    released.total_settled_traffic_bytes + due.1) as u128,
                                    ..released
                                };
                                match protocol_fee(
                                    due.0,
                                    authorization.traffic_protocol_fee_bps,
                                    authorization.traffic_treasury_share_bps,
                                ) {
                                    Err(refusal) => Err(refusal),
                                    Ok(fee) => match income_shared(
                                        counted,
                                        checkpoint.node_id,
                                        due.0,
                                        fee,
                                        receipt.received_at,
                                        operation_id,
                                    ) {
                                        Err(refusal) => Err(refusal),
                                        Ok(next) => Ok((next, fee)),
                                    },
                                }
                            },
                        }
                    },
                }
            },
        },
    }
}

/// Settles what a checkpoint and its receipt claim.
/// On a refusal the ledger may be left half-way.
pub(crate) fn settle_traffic(
    ledger: &mut LedgerState,
    signer_address: &str,
    signer_public_key: &str,
    operation_id_value: &str,
    checkpoint: &SenderCheckpoint,
    receipt: &ReceiverReceipt,
    executed_at: i64,
) -> (r: Result<TrafficProtocolFee>)
    ensures
        match traffic_settled(
            old(ledger)@,
            signer_address@,
            signer_public_key@,
            operation_id_value@,
            checkpoint.deep_view(),
            receipt.deep_view(),
            executed_at,
        ) {
            Ok(next) => final(ledger)@ == next.0 && r == Ok::<TrafficProtocolFee, Error>(next.1),
            Err(refusal) => r matches Err(error) && error@ == refusal,
        },
{
    proof {
        reveal(traffic_settled);
    }
    check_prefix(ledger, checkpoint, receipt)?;
    check_claim(
        ledger,
        signer_address,
        signer_public_key,
        checkpoint,
        receipt,
        executed_at,
    )?;
    let (amount, bytes, commitment, fee_bps, treasury_bps): (u128, u64, String, u32, u32) =
        match ledger.payment_authorizations.get(&checkpoint.authorization_id) {
        None => {
            return Err(Error::msg("traffic payment authorization was not found"));
        },
        Some(authorization) => {
            let (amount, bytes) = compute_amounts(authorization, checkpoint)?;
            if authorization.settled_amount.checked_add(amount).is_none() {
                return Err(Error::msg("traffic settled amount overflow"));
            }
            (
                amount,
                bytes,
                authorization.network_commitment.clone(),
                authorization.traffic_protocol_fee_bps,
                authorization.traffic_treasury_share_bps,
            )
        },
    };
    let released: u128 = match ledger.payment_authorizations.get_mut(
        &checkpoint.authorization_id,
    ) {
        None => 0,
        Some(authorization) => settle_authorization(
            authorization,
            checkpoint,
            receipt,
            amount,
            executed_at,
        ),
    };
    release_escrow(
        ledger,
        &commitment,
        released,
        "Network Fund overflow while closing Relay session",
    )?;
    match ledger.total_settled_traffic_bytes.checked_add(bytes as u128) {
        None => {
            return Err(Error::msg("total settled traffic overflow"));
        },
        Some(total) => {
            ledger.total_settled_traffic_bytes = total;
        },
    }
    let fee = compute_fee(amount, fee_bps, treasury_bps)?;
    share_income(
        ledger,
        checkpoint.node_id,
        amount,
        fee,
        receipt.received_at,
        operation_id_value,
    )?;
    Ok(fee)
}

/// Settles traffic. Nothing is promised of the ledger where the settlement is refused.
pub fn apply_traffic_settlement(
    ledger: &mut LedgerState,
    signer_address: &str,
    signer_public_key: &str,
    operation_id_value: &str,
    checkpoint: &SenderCheckpoint,
    receipt: &ReceiverReceipt,
    executed_at: i64,
) -> (r: Result<TrafficProtocolFee>)
    ensures
        match traffic_settled(
            old(ledger)@,
            signer_address@,
            signer_public_key@,
            operation_id_value@,
            checkpoint.deep_view(),
            receipt.deep_view(),
            executed_at,
        ) {
            Ok(next) => final(ledger)@ == next.0 && r == Ok::<TrafficProtocolFee, Error>(next.1),
            Err(refusal) => final(ledger)@ == old(ledger)@ && (r matches Err(error) && error@
                == refusal),
        },
{
    let mut next = ledger.copy();
    let done = settle_traffic(
        &mut next,
        signer_address,
        signer_public_key,
        operation_id_value,
        checkpoint,
        receipt,
        executed_at,
    )?;
    *ledger = next;
    Ok(done)
}

/// Settling traffic neither makes nor loses a base unit: what leaves the reservation arrives at the
/// node's reward account, in the treasury, in what is burned, or back in the network's fund.
pub proof fn settlement_conserves_value(
    ledger: LedgerModel,
    signer: Seq<char>,
    signer_key: Seq<char>,
    operation_id: Seq<char>,
    checkpoint: CheckpointModel,
    receipt: ReceiptModel,
    executed_at: i64,
)
    requires
        traffic_settled(
            ledger,
            signer,
            signer_key,
            operation_id,
            checkpoint,
            receipt,
            executed_at,
        ) is Ok,
    ensures
        ({
            let after = traffic_settled(
                ledger,
                signer,
                signer_key,
                operation_id,
                checkpoint,
                receipt,
                executed_at,
            )->Ok_0.0;
            let id = checkpoint.authorization_id;
            let network = ledger.payment_authorizations[id].network_commitment;
            let reward = ledger.nodes[checkpoint.node_id].reward_address;
            &&& after.payment_authorizations[id].reserved_remaining
                + after.networks[network].escrow_balance + after.treasury + after.burned
                + balance_of(after, reward) == ledger.payment_authorizations[id].reserved_remaining
                + ledger.networks[network].escrow_balance + ledger.treasury + ledger.burned
                + balance_of(ledger, reward)
            &&& forall|other: Seq<char>|
                other != reward ==> #[trigger] crate::accounts::account_of(after, other)
                    == crate::accounts::account_of(ledger, other)
            &&& after.total_settled_traffic_bytes >= ledger.total_settled_traffic_bytes
        }),
{
    reveal(traffic_settled);
}

/// Traffic that has been settled is never settled again: a settlement that is not the final one is
/// refused unless it goes beyond the last.
pub proof fn settled_traffic_is_not_settled_again(
    authorization: AuthorizationModel,
    checkpoint: CheckpointModel,
)
    requires
        amounts_due(authorization, checkpoint) is Ok,
    ensures
        checkpoint.cumulative_sent_bytes >= direction_of(
            authorization,
            checkpoint.direction,
        ).settled_payload_bytes,
        !direction_of(authorization, checkpoint.direction).finalized,
        amounts_due(authorization, checkpoint)->Ok_0.0 + direction_of(
            authorization,
            checkpoint.direction,
        ).settled_amount == traffic_price(
            checkpoint.cumulative_sent_bytes,
            authorization.price_per_gib,
        ),
        amounts_due(authorization, checkpoint)->Ok_0.0 <= authorization.reserved_remaining,
{
}

/// Of an amount the protocol keeps its share, rounded down, and no more: the fee is the whole number
/// of base units at or just below the amount times the fee's basis points. The treasury's part of the
/// fee is its share of the fee, rounded down, and the rest of the fee is burned. A fee of no basis
/// points takes nothing, one of all of them takes everything.
pub proof fn fees_are_shares_rounded_down(amount: u128, fee_bps: u32, treasury_bps: u32)
    requires
        protocol_fee(amount, fee_bps, treasury_bps) is Ok,
    ensures
        ({
            let fee = protocol_fee(amount, fee_bps, treasury_bps)->Ok_0;
            &&& fee.charged * 10_000 <= amount * fee_bps
            &&& amount * fee_bps < (fee.charged + 1) * 10_000
            &&& fee.to_treasury * 10_000 <= fee.charged * treasury_bps
            &&& fee.charged * treasury_bps < (fee.to_treasury + 1) * 10_000
            &&& fee.to_treasury + fee.burned == fee.charged
            &&& fee.charged <= amount
            &&& fee_bps == 0 ==> fee.charged == 0
            &&& fee_bps == 10_000 ==> fee.charged == amount
            &&& treasury_bps == 0 ==> fee.burned == fee.charged
            &&& treasury_bps == 10_000 ==> fee.burned == 0
        }),
{
    let charged = amount * fee_bps / 10_000;
    assert(0 <= amount * fee_bps && (fee_bps == 0 ==> amount * fee_bps == 0)) by (nonlinear_arith);
    assert(fee_bps == 10_000 ==> amount * fee_bps == amount * 10_000) by (nonlinear_arith);
    assert(0 <= charged * treasury_bps && (treasury_bps == 0 ==> charged * treasury_bps == 0))
        by (nonlinear_arith)
        requires
            0 <= charged,
    ;
    assert(treasury_bps == 10_000 ==> charged * treasury_bps == charged * 10_000)
        by (nonlinear_arith);
}

/// A fee is owed of every amount and every share that the protocol allows: shares of up to all of the
/// amount are refused for nothing but an amount that is too large to reckon with.
pub proof fn fees_up_to_the_whole_are_reckoned(amount: u128, fee_bps: u32, treasury_bps: u32)
    requires
        fee_bps <= 10_000,
        treasury_bps <= 10_000,
        amount * 10_000 <= u128::MAX,
    ensures
        protocol_fee(amount, fee_bps, treasury_bps) is Ok,
{
    let charged = amount * fee_bps / 10_000;
    assert(0 <= amount * fee_bps <= amount * 10_000) by (nonlinear_arith)
        requires
            fee_bps <= 10_000,
    ;
    assert(0 <= charged * treasury_bps <= charged * 10_000) by (nonlinear_arith)
        requires
            0 <= charged,
            treasury_bps <= 10_000,
    ;
}

/// A higher fee never leaves the node more, and never takes less of the same amount; of a larger
/// amount the same fee never takes less and never leaves the node less.
pub proof fn higher_fees_leave_no_more(
    lower_amount: u128,
    amount: u128,
    lower_bps: u32,
    fee_bps: u32,
    treasury_bps: u32,
)
    requires
        lower_amount <= amount,
        lower_bps <= fee_bps <= 10_000,
        protocol_fee(amount, fee_bps, treasury_bps) is Ok,
        protocol_fee(amount, lower_bps, treasury_bps) is Ok,
        protocol_fee(lower_amount, fee_bps, treasury_bps) is Ok,
    ensures
        protocol_fee(amount, lower_bps, treasury_bps)->Ok_0.charged <= protocol_fee(
            amount,
            fee_bps,
            treasury_bps,
        )->Ok_0.charged,
        protocol_fee(lower_amount, fee_bps, treasury_bps)->Ok_0.charged <= protocol_fee(
            amount,
            fee_bps,
            treasury_bps,
        )->Ok_0.charged,
        lower_amount - protocol_fee(lower_amount, fee_bps, treasury_bps)->Ok_0.charged <= amount
            - protocol_fee(amount, fee_bps, treasury_bps)->Ok_0.charged,
{
    fees_are_shares_rounded_down(amount, fee_bps, treasury_bps);
    fees_are_shares_rounded_down(amount, lower_bps, treasury_bps);
    fees_are_shares_rounded_down(lower_amount, fee_bps, treasury_bps);
    assert(amount * lower_bps <= amount * fee_bps) by (nonlinear_arith)
        requires
            lower_bps <= fee_bps,
    ;
    assert(lower_amount * fee_bps <= amount * fee_bps) by (nonlinear_arith)
        requires
            lower_amount <= amount,
    ;
    assert(amount * fee_bps - lower_amount * fee_bps <= (amount - lower_amount) * 10_000)
        by (nonlinear_arith)
        requires
            lower_amount <= amount,
            fee_bps <= 10_000,
    ;
}

/// What has been settled of a direction of a session: the bytes and the amount, nothing as long as
/// nothing is recorded.
pub open spec fn settled_so_far(recorded: Option<DirectionModel>) -> (int, int) {
    match recorded {
        None => (0, 0),
        Some(settled) => (settled.settled_payload_bytes as int, settled.settled_amount as int),
    }
}

/// A settlement pays by the price of the reservation for all bytes of the direction so far, each
/// begun part of a base unit as a whole one, less what the direction has paid before. The node's
/// reward account gets that amount less the protocol's fee, at the rate that the reservation was made
/// with; the treasury gets its share of the fee and the rest of the fee is burned. The other direction
/// stays as it was.
pub proof fn settlements_pay_by_price_and_fee(
    ledger: LedgerModel,
    signer: Seq<char>,
    signer_key: Seq<char>,
    operation_id: Seq<char>,
    checkpoint: CheckpointModel,
    receipt: ReceiptModel,
    executed_at: i64,
)
    requires
        traffic_settled(
            ledger,
            signer,
            signer_key,
            operation_id,
            checkpoint,
            receipt,
            executed_at,
        ) is Ok,
    ensures
        ({
            let settled = traffic_settled(
                ledger,
                signer,
                signer_key,
                operation_id,
                checkpoint,
                receipt,
                executed_at,
            )->Ok_0;
            let after = settled.0;
            let id = checkpoint.authorization_id;
            let reserved = ledger.payment_authorizations[id];
            let left = after.payment_authorizations[id];
            let reward = ledger.nodes[checkpoint.node_id].reward_address;
            let paid = left.settled_amount - reserved.settled_amount;
            let income = balance_of(after, reward) - balance_of(ledger, reward);
            let fee = paid - income;
            let to_treasury = after.treasury - ledger.treasury;
            let forth = checkpoint.direction == RelayDirection::SenderToReceiver;
            let before = settled_so_far(
                if forth {
                    reserved.sender_to_receiver
                } else {
                    reserved.receiver_to_sender
                },
            );
            let now = settled_so_far(
                if forth {
                    left.sender_to_receiver
                } else {
                    left.receiver_to_sender
                },
            );
            &&& 0 <= income <= paid
            &&& fee * 10_000 <= paid * reserved.traffic_protocol_fee_bps
            &&& paid * reserved.traffic_protocol_fee_bps < (fee + 1) * 10_000
            &&& reserved.traffic_protocol_fee_bps == 0 ==> income == paid
            &&& to_treasury * 10_000 <= fee * reserved.traffic_treasury_share_bps
            &&& fee * reserved.traffic_treasury_share_bps < (to_treasury + 1) * 10_000
            &&& after.burned - ledger.burned == fee - to_treasury
            &&& settled.1.charged == fee
            &&& settled.1.to_treasury == to_treasury
            &&& settled.1.burned == fee - to_treasury
            &&& now.0 == checkpoint.cumulative_sent_bytes == receipt.cumulative_received_bytes
            &&& now.1 * 1_073_741_824 >= now.0 * reserved.price_per_gib
            &&& (now.1 - 1) * 1_073_741_824 < now.0 * reserved.price_per_gib
            &&& paid == now.1 - before.1
            &&& after.total_settled_traffic_bytes - ledger.total_settled_traffic_bytes == now.0
                - before.0
            &&& forth ==> left.receiver_to_sender == reserved.receiver_to_sender
            &&& !forth ==> left.sender_to_receiver == reserved.sender_to_receiver
        }),
{
    reveal(traffic_settled);
    let reserved = ledger.payment_authorizations[checkpoint.authorization_id];
    let due = amounts_due(reserved, checkpoint)->Ok_0;
    fees_are_shares_rounded_down(
        due.0,
        reserved.traffic_protocol_fee_bps,
        reserved.traffic_treasury_share_bps,
    );
    let product = checkpoint.cumulative_sent_bytes * reserved.price_per_gib;
    let owed = traffic_price(checkpoint.cumulative_sent_bytes, reserved.price_per_gib);
    assert(owed == (product + 1_073_741_823) / 1_073_741_824);
    assert(owed * 1_073_741_824 >= product && (owed - 1) * 1_073_741_824 < product);
}

/// A settlement that is final in its direction closes the reservation unless the other direction is
/// still open, and what is then left of it goes back to the network's fund; any other settlement takes
/// what it pays out of the reservation and gives nothing back.
pub proof fn final_settlements_give_the_rest_back(
    ledger: LedgerModel,
    signer: Seq<char>,
    signer_key: Seq<char>,
    operation_id: Seq<char>,
    checkpoint: CheckpointModel,
    receipt: ReceiptModel,
    executed_at: i64,
)
    requires
        traffic_settled(
            ledger,
            signer,
            signer_key,
            operation_id,
            checkpoint,
            receipt,
            executed_at,
        ) is Ok,
    ensures
        ({
            let after = traffic_settled(
                ledger,
                signer,
                signer_key,
                operation_id,
                checkpoint,
                receipt,
                executed_at,
            )->Ok_0.0;
            let id = checkpoint.authorization_id;
            let reserved = ledger.payment_authorizations[id];
            let left = after.payment_authorizations[id];
            let network = reserved.network_commitment;
            let paid = left.settled_amount - reserved.settled_amount;
            let other = if checkpoint.direction == RelayDirection::SenderToReceiver {
                reserved.receiver_to_sender
            } else {
                reserved.sender_to_receiver
            };
            let returned = after.networks[network].escrow_balance
                - ledger.networks[network].escrow_balance;
            &&& paid <= reserved.reserved_remaining
            &&& checkpoint.final_checkpoint && (other matches Some(open) ==> open.finalized) ==> {
                &&& left.closed_at == Some(executed_at)
                &&& left.reserved_remaining == 0
                &&& returned == reserved.reserved_remaining - paid
            }
            &&& !checkpoint.final_checkpoint || (other matches Some(open) && !open.finalized) ==> {
                &&& left.closed_at == reserved.closed_at
                &&& left.reserved_remaining == reserved.reserved_remaining - paid
                &&& returned == 0
            }
        }),
{
    reveal(traffic_settled);
}

/// Only what both ends have signed is settled: the sender and the receiver of the direction are
/// members of the network that paid, both were valid when they signed, their signatures fit their
/// keys, and they agree on the bytes and their transcript. Only the owner of the node may hand it in,
/// within the time of the reservation, of which something must be left.
pub proof fn settlements_are_signed_by_both_ends(
    ledger: LedgerModel,
    signer: Seq<char>,
    signer_key: Seq<char>,
    operation_id: Seq<char>,
    checkpoint: CheckpointModel,
    receipt: ReceiptModel,
    executed_at: i64,
)
    requires
        traffic_settled(
            ledger,
            signer,
            signer_key,
            operation_id,
            checkpoint,
            receipt,
            executed_at,
        ) is Ok,
        forall|commitment: Seq<char>| #[trigger]
            ledger.networks.contains_key(commitment)
                ==> ledger.networks[commitment].members.dom().finite(),
    ensures
        ledger.payment_authorizations.contains_key(checkpoint.authorization_id),
        ({
            let reserved = ledger.payment_authorizations[checkpoint.authorization_id];
            let members = ledger.networks[reserved.network_commitment].members;
            let forth = checkpoint.direction == RelayDirection::SenderToReceiver;
            let sender_id = if forth {
                reserved.sender_member_id
            } else {
                reserved.receiver_member_id
            };
            let receiver_id = if forth {
                reserved.receiver_member_id
            } else {
                reserved.sender_member_id
            };
            &&& ledger.nodes.contains_key(checkpoint.node_id)
            &&& signer == ledger.nodes[checkpoint.node_id].owner_address
            &&& signer_key == ledger.nodes[checkpoint.node_id].owner_public_key
            &&& reserved.node_id == checkpoint.node_id == receipt.node_id
            &&& reserved.session_id == checkpoint.session_id
            &&& reserved.refunded_at is None
            &&& reserved.reserved_remaining > 0
            &&& reserved.created_at <= checkpoint.checkpoint_at <= receipt.received_at
            &&& receipt.received_at - checkpoint.checkpoint_at <= 30
            &&& receipt.received_at <= reserved.valid_until
            &&& executed_at <= reserved.claim_until
            &&& checkpoint.ledger_id == ledger.ledger_id
            &&& receipt.ledger_id == ledger.ledger_id
            &&& checkpoint.authorization_id == receipt.authorization_id
            &&& checkpoint.session_id == receipt.session_id
            &&& checkpoint.direction == receipt.direction
            &&& checkpoint.sequence == receipt.sequence
            &&& checkpoint.cumulative_sent_bytes == receipt.cumulative_received_bytes
            &&& checkpoint.transcript_hash == receipt.transcript_hash
            &&& checkpoint.sender_member_id == sender_id
            &&& receipt.receiver_member_id == receiver_id
            &&& exists|name: Seq<char>|
                {
                    let sender = #[trigger] members[name];
                    &&& members.contains_key(name)
                    &&& sender.member_id == sender_id
                    &&& sender.issued_at <= checkpoint.checkpoint_at < sender.expires_at
                    &&& sender.revoked_at matches Some(at) ==> checkpoint.checkpoint_at < at
                    &&& signature_checked(
                        sender.public_key,
                        encode_utf8(checkpoint_signed(checkpoint)),
                        checkpoint.sender_signature,
                    ) is Ok
                }
            &&& exists|name: Seq<char>|
                {
                    let receiver = #[trigger] members[name];
                    &&& members.contains_key(name)
                    &&& receiver.member_id == receiver_id
                    &&& receiver.issued_at <= receipt.received_at < receiver.expires_at
                    &&& receiver.revoked_at matches Some(at) ==> receipt.received_at < at
                    &&& signature_checked(
                        receiver.public_key,
                        encode_utf8(receipt_signed(receipt)),
                        receipt.receiver_signature,
                    ) is Ok
                }
        }),
{
    reveal(traffic_settled);
    let reserved = ledger.payment_authorizations[checkpoint.authorization_id];
    let members = ledger.networks[reserved.network_commitment].members;
    let ends = session_ends(reserved, checkpoint.direction);
    let names = ordered::<String>(members.dom());
    first_where_found(names, |name: Seq<char>| members[name].member_id == ends.0);
    first_where_found(names, |name: Seq<char>| members[name].member_id == ends.1);
    ordered_lists_all::<String>(members.dom());
    let sender_name = member_named(members, ends.0).unwrap();
    let receiver_name = member_named(members, ends.1).unwrap();
    assert(members.contains_key(sender_name) && members.contains_key(receiver_name));
    assert(members[sender_name].member_id == ends.0);
    assert(members[receiver_name].member_id == ends.1);
}

} // verus!
