use vstd::prelude::*;
use vstd::string::*;
use vstd::utf8::*;

use crate::availability::{
    active_availability_slot, availability_challenge, availability_role_text,
    availability_scheduled_at, availability_slot_bounds, availability_slot_key,
    availability_ticket_message, availability_verifier_set, challenge_of, role_text, scheduled_at,
    slot_at, slot_bounds, slot_key, ticket_text, verifier_set, AvailabilityVerifierSet,
    VerifierSetModel,
};
use crate::crypto::{full_id, sha256_full_id, signature_checked, verify_bytes};
use crate::drafts::{draft_next_operation, next_operation};
use crate::epochs::{epoch_closed, epoch_context};
use crate::error::{outcome, Error, Outcome, Result};
use crate::model::{
    AvailabilityMode, AvailabilityVerifierRole, ContextModel, EpochContext, Field, FieldModel,
    KeyIdentity, KeyModel, LedgerModel, LedgerState, LocalNodeConfig, NodeConfigModel, NodeStatus,
    Payload, SignedOperation, SlotModel, UnsignedOperation,
};
use crate::node_operations::{node_operation_submitted, submit_signed_node_operation};
use crate::nodes::node_ids;
use crate::number::{clamped_i64, saturating_add_i64};
use crate::payload::PayloadModel;
use crate::payments::shown_first;
use crate::sequence::{arrange, arranged, contains_id, Ranked};
use crate::table::{Replicate, Table};
use crate::text::{decimal, i64_text, join5, signed_decimal, text_less, text_lt, u64_text};
use crate::views::{
    AvailabilityAttestationRequest, AvailabilityAttestationRequestModel, AvailabilityProbeRequest,
    AvailabilityProbeRequestModel, AvailabilitySubmissionView, AvailabilitySubmissionViewModel,
};

verus! {

impl Replicate for AvailabilityProbeRequest {
    fn replicate(&self) -> (r: AvailabilityProbeRequest) {
        AvailabilityProbeRequest {
            target: self.target.replicate(),
            verifier_node_id: self.verifier_node_id,
            epoch: self.epoch,
            slot: self.slot,
            role: self.role,
            ticket_signature: self.ticket_signature.clone(),
            scheduled_at: self.scheduled_at,
            challenge: self.challenge.clone(),
        }
    }
}

/// The number of the local node that verifies.
pub open spec fn verifier_id(config: NodeConfigModel) -> Outcome<u64> {
    match config.node_id {
        Some(node_id) => Ok(node_id),
        None => Err("Probe verifier Node is not registered"@),
    }
}

/// Reads the number of the local node that verifies.
pub fn verifier_node_id(config: &LocalNodeConfig) -> (r: Result<u64>)
    ensures
        outcome(r) == verifier_id(config.deep_view()),
{
    match config.node_id {
        Some(node_id) => Ok(node_id),
        None => Err(Error::msg("Probe verifier Node is not registered")),
    }
}

/// Who signs the tickets of a local verifier: the number of its node and the key of its owner.
#[derive(Debug)]
pub struct AvailabilityTicketSigner {
    pub node_id: u64,
    pub owner_public_key: String,
}

/// The contents of `AvailabilityTicketSigner`.
#[verifier::ext_equal]
pub struct TicketSignerModel {
    pub node_id: u64,
    pub owner_public_key: Seq<char>,
}

impl DeepView for AvailabilityTicketSigner {
    type V = TicketSignerModel;

    open spec fn deep_view(&self) -> TicketSignerModel {
        TicketSignerModel { node_id: self.node_id, owner_public_key: self.owner_public_key@ }
    }
}

/// Says who signs the tickets of a local verifier.
pub fn availability_ticket_signer(config: &LocalNodeConfig, owner: &KeyIdentity) -> (r: Result<
    AvailabilityTicketSigner,
>)
    ensures
        outcome(r) == match verifier_id(config.deep_view()) {
            Err(refusal) => Err(refusal),
            Ok(node_id) => Ok(
                TicketSignerModel { node_id, owner_public_key: owner.deep_view().public_key },
            ),
        },
{
    let node_id = verifier_node_id(config)?;
    Ok(AvailabilityTicketSigner { node_id, owner_public_key: owner.public_key.clone() })
}

/// The part that a node plays among the verifiers.
pub open spec fn role_in(set: VerifierSetModel, verifier: u64) -> Option<AvailabilityVerifierRole> {
    if set.primary_ids.contains(verifier) {
        Some(AvailabilityVerifierRole::Primary)
    } else if set.auditor_ids.contains(verifier) {
        Some(AvailabilityVerifierRole::Audit)
    } else {
        None
    }
}

fn find_role(set: &AvailabilityVerifierSet, verifier: u64) -> (r: Option<AvailabilityVerifierRole>)
    ensures
        r == role_in(set.deep_view(), verifier),
{
    if contains_id(&set.primary_ids, verifier) {
        Some(AvailabilityVerifierRole::Primary)
    } else if contains_id(&set.auditor_ids, verifier) {
        Some(AvailabilityVerifierRole::Audit)
    } else {
        None
    }
}

/// The probe that a verifier is to make with a ticket.
pub open spec fn request_built(
    ledger: LedgerModel,
    context: ContextModel,
    target: u64,
    verifier: u64,
    role: AvailabilityVerifierRole,
    slot: i64,
    ticket: Seq<char>,
) -> Outcome<AvailabilityProbeRequestModel> {
    match slot_bounds(context, slot) {
        Err(refusal) => Err(refusal),
        Ok(bounds) => match scheduled_at(
            ticket,
            bounds.0,
            context.settings.availability_slot_seconds,
            role,
        ) {
            Err(refusal) => Err(refusal),
            Ok(at) => if !ledger.nodes.contains_key(target) {
                Err("Probe target Node is not registered"@)
            } else {
                Ok(
                    AvailabilityProbeRequestModel {
                        target: ledger.nodes[target],
                        verifier_node_id: verifier,
                        epoch: context.epoch,
                        slot,
                        role,
                        ticket_signature: ticket,
                        scheduled_at: at,
                        challenge: challenge_of(ticket),
                    },
                )
            },
        },
    }
}

fn build_availability_probe_request(
    ledger: &LedgerState,
    context: &EpochContext,
    target_node_id: u64,
    verifier_node_id: u64,
    role: AvailabilityVerifierRole,
    slot: i64,
    ticket_signature: &str,
) -> (r: Result<AvailabilityProbeRequest>)
    ensures
        outcome(r) == request_built(
            ledger@,
            context.deep_view(),
            target_node_id,
            verifier_node_id,
            role,
            slot,
            ticket_signature@,
        ),
{
    let (slot_start, _) = availability_slot_bounds(context, slot)?;
    let at = availability_scheduled_at(
        ticket_signature,
        slot_start,
        context.settings.availability_slot_seconds,
        role,
    )?;
    match ledger.nodes.get(&target_node_id) {
        None => Err(Error::msg("Probe target Node is not registered")),
        Some(target) => Ok(
            AvailabilityProbeRequest {
                target: target.replicate(),
                verifier_node_id,
                epoch: context.epoch,
                slot,
                role,
                ticket_signature: ticket_signature.to_owned(),
                scheduled_at: at,
                challenge: availability_challenge(ticket_signature),
            },
        ),
    }
}

/// A ticket that a verifier has to sign before it probes a node.
#[derive(Clone, Copy, Debug)]
pub struct Ticket {
    pub epoch: u64,
    pub slot: i64,
    pub target_node_id: u64,
    pub verifier_node_id: u64,
    pub role: AvailabilityVerifierRole,
    pub mode: AvailabilityMode,
}

impl DeepView for Ticket {
    type V = Ticket;

    open spec fn deep_view(&self) -> Ticket {
        *self
    }
}

/// What a verifier signs on its ticket.
pub fn ticket_message(ledger: &LedgerState, ticket: &Ticket) -> (r: String)
    ensures
        r@ == ticket_text(
            ledger@.ledger_id,
            ticket.epoch,
            ticket.slot,
            ticket.target_node_id,
            ticket.verifier_node_id,
            ticket.role,
        ),
{
    availability_ticket_message(
        ledger.ledger_id.as_str(),
        ticket.epoch,
        ticket.slot,
        ticket.target_node_id,
        ticket.verifier_node_id,
        ticket.role,
    )
}

/// Whether a verifier has signed a ticket with a key.
pub open spec fn ticket_checked(
    ledger_id: Seq<char>,
    ticket: Ticket,
    public_key: Seq<char>,
    signature: Seq<char>,
) -> Outcome<()> {
    signature_checked(
        public_key,
        encode_utf8(
            ticket_text(
                ledger_id,
                ticket.epoch,
                ticket.slot,
                ticket.target_node_id,
                ticket.verifier_node_id,
                ticket.role,
            ),
        ),
        signature,
    )
}

fn check_ticket(ledger: &LedgerState, ticket: &Ticket, public_key: &str, signature: &str) -> (r:
    Result<()>)
    ensures
        outcome(r) == ticket_checked(ledger@.ledger_id, *ticket, public_key@, signature@),
{
    verify_bytes(public_key, ticket_message(ledger, ticket).as_str().as_bytes(), signature)
}

/// The ticket with which a verifier probes one node now.
pub open spec fn ticket_for(
    ledger: LedgerModel,
    config: NodeConfigModel,
    target: u64,
    now: i64,
) -> Outcome<Ticket> {
    match verifier_id(config) {
        Err(refusal) => Err(refusal),
        Ok(verifier) => {
            let epoch = ledger.epoch_number;
            if !ledger.epoch_contexts.contains_key(epoch) {
                Err(epoch_closed(epoch))
            } else {
                let context = ledger.epoch_contexts[epoch];
                match slot_at(context, now) {
                    Err(refusal) => Err(refusal),
                    Ok(None) => Err("availability timestamp is outside the current Epoch"@),
                    Ok(Some(slot)) => {
                        let set = verifier_set(ledger, context, target, slot);
                        match role_in(set, verifier) {
                            None => Err(
                                "Node "@ + decimal(verifier as nat)
                                    + " is not selected to Probe Node "@ + decimal(target as nat)
                                    + " in availability slot "@ + signed_decimal(slot as int),
                            ),
                            Some(role) => Ok(
                                Ticket {
                                    epoch: context.epoch,
                                    slot,
                                    target_node_id: target,
                                    verifier_node_id: verifier,
                                    role,
                                    mode: set.mode,
                                },
                            ),
                        }
                    },
                }
            }
        },
    }
}

/// Makes the ticket with which a verifier probes one node now.
pub fn availability_ticket(
    ledger: &LedgerState,
    config: &LocalNodeConfig,
    target_node_id: u64,
    now: i64,
) -> (r: Result<Ticket>)
    ensures
        outcome(r) == ticket_for(ledger@, config.deep_view(), target_node_id, now),
{
    let verifier = verifier_node_id(config)?;
    let context = epoch_context(ledger, ledger.epoch_number)?;
    let slot: i64 = match active_availability_slot(context, now)? {
        None => {
            return Err(Error::msg("availability timestamp is outside the current Epoch"));
        },
        Some(slot) => slot,
    };
    let set = availability_verifier_set(ledger, context, target_node_id, slot);
    match find_role(&set, verifier) {
        None => {
            let mut text = join5(
                "Node ",
                u64_text(verifier).as_str(),
                " is not selected to Probe Node ",
                u64_text(target_node_id).as_str(),
                " in availability slot ",
            );
            text.append(i64_text(slot).as_str());
            Err(Error::owned(text))
        },
        Some(role) => Ok(
            Ticket {
                epoch: context.epoch,
                slot,
                target_node_id,
                verifier_node_id: verifier,
                role,
                mode: set.mode,
            },
        ),
    }
}

/// A probe request whose time is now where one node alone is trusted.
pub open spec fn request_timed(
    request: AvailabilityProbeRequestModel,
    mode: AvailabilityMode,
    now: i64,
) -> AvailabilityProbeRequestModel {
    if mode == AvailabilityMode::Node1Trusted {
        AvailabilityProbeRequestModel { scheduled_at: now, ..request }
    } else {
        request
    }
}

/// The last second in which a probe may be made.
pub open spec fn request_ends(request: AvailabilityProbeRequestModel) -> i64 {
    clamped_i64(request.scheduled_at + 10)
}

/// The probe of one node that a verifier is to make, with the ticket that its owner has signed.
pub open spec fn probe_requested(
    ledger: LedgerModel,
    config: NodeConfigModel,
    owner: KeyModel,
    target: u64,
    signature: Seq<char>,
    now: i64,
) -> Outcome<AvailabilityProbeRequestModel> {
    match ticket_for(ledger, config, target, now) {
        Err(refusal) => Err(refusal),
        Ok(ticket) => match ticket_checked(
            ledger.ledger_id,
            ticket,
            owner.public_key,
            signature,
        ) {
            Err(refusal) => Err(refusal),
            Ok(_) => match request_built(
                ledger,
                ledger.epoch_contexts[ledger.epoch_number],
                target,
                ticket.verifier_node_id,
                ticket.role,
                ticket.slot,
                signature,
            ) {
                Err(refusal) => Err(refusal),
                Ok(built) => {
                    let request = request_timed(built, ticket.mode, now);
                    if now > request_ends(request) {
                        Err(
                            "Probe Ticket window ended at "@ + signed_decimal(
                                request_ends(request) as int,
                            ) + "; current time is "@ + signed_decimal(now as int),
                        )
                    } else {
                        Ok(request)
                    }
                },
            },
        },
    }
}

/// Tells a verifier when and with which challenge to probe a node, with the signature of its owner
/// over `ticket_message`.
pub fn availability_probe_request(
    ledger: &LedgerState,
    config: &LocalNodeConfig,
    owner: &KeyIdentity,
    target_node_id: u64,
    ticket_signature: &str,
    now: i64,
) -> (r: Result<AvailabilityProbeRequest>)
    ensures
        outcome(r) == probe_requested(
            ledger@,
            config.deep_view(),
            owner.deep_view(),
            target_node_id,
            ticket_signature@,
            now,
        ),
        r matches Ok(request) ==> signature_checked(
            owner.deep_view().public_key,
            encode_utf8(
                ticket_text(
                    ledger@.ledger_id,
                    request.epoch,
                    request.slot,
                    target_node_id,
                    request.verifier_node_id,
                    request.role,
                ),
            ),
            request.deep_view().ticket_signature,
        ) is Ok,
{
    let ticket = availability_ticket(ledger, config, target_node_id, now)?;
    check_ticket(ledger, &ticket, owner.public_key.as_str(), ticket_signature)?;
    let context = epoch_context(ledger, ledger.epoch_number)?;
    let mut request = build_availability_probe_request(
        ledger,
        context,
        target_node_id,
        ticket.verifier_node_id,
        ticket.role,
        ticket.slot,
        ticket_signature,
    )?;
    if ticket.mode == AvailabilityMode::Node1Trusted {
        request.scheduled_at = now;
    }
    let end: i64 = saturating_add_i64(request.scheduled_at, 10);
    if now > end {
        let mut text = join5(
            "Probe Ticket window ended at ",
            i64_text(end).as_str(),
            "; current time is ",
            i64_text(now).as_str(),
            "",
        );
        proof {
            reveal_strlit("");
            assert(""@ =~= Seq::<char>::empty());
            assert(text@ =~= "Probe Ticket window ended at "@ + signed_decimal(end as int)
                + "; current time is "@ + signed_decimal(now as int));
        }
        return Err(Error::owned(text));
    }
    Ok(request)
}

/// Whether a verifier has attested already.
pub open spec fn has_attested(
    record: SlotModel,
    role: AvailabilityVerifierRole,
    verifier: u64,
) -> bool {
    match role {
        AvailabilityVerifierRole::Primary => record.primary_operation_ids.contains_key(verifier),
        AvailabilityVerifierRole::Audit => record.audit_operation_ids.contains_key(verifier),
    }
}

/// The ticket that a verifier has to sign for a node in a slot, if it has anything to do there.
pub open spec fn work_on(
    ledger: LedgerModel,
    context: ContextModel,
    verifier: u64,
    slot: i64,
    target: u64,
) -> Option<Ticket> {
    let node = ledger.nodes[target];
    let set = verifier_set(ledger, context, target, slot);
    let key = slot_key(context.epoch, target, slot);
    if node.status == NodeStatus::Draining || node.status == NodeStatus::Exited || node.status
        == NodeStatus::Suspended {
        None
    } else {
        match role_in(set, verifier) {
            None => None,
            Some(role) => if ledger.availability_slots.contains_key(key) && has_attested(
                ledger.availability_slots[key],
                role,
                verifier,
            ) {
                None
            } else {
                Some(
                    Ticket {
                        epoch: context.epoch,
                        slot,
                        target_node_id: target,
                        verifier_node_id: verifier,
                        role,
                        mode: set.mode,
                    },
                )
            },
        }
    }
}

fn find_work(
    ledger: &LedgerState,
    context: &EpochContext,
    verifier: u64,
    slot: i64,
    i: usize,
) -> (r: Option<Ticket>)
    requires
        i < ledger.nodes.keys().len(),
    ensures
        r == work_on(ledger@, context.deep_view(), verifier, slot, ledger.nodes.keys()[i as int]),
{
    let target: u64 = *ledger.nodes.key_at(i);
    let node = ledger.nodes.value_at(i);
    if matches!(node.status, NodeStatus::Draining | NodeStatus::Exited | NodeStatus::Suspended) {
        return None;
    }
    let set = availability_verifier_set(ledger, context, target, slot);
    let role = match find_role(&set, verifier) {
        None => {
            return None;
        },
        Some(role) => role,
    };
    if let Some(record) = ledger.availability_slots.get(
        &availability_slot_key(context.epoch, target, slot),
    ) {
        let attested = match role {
            AvailabilityVerifierRole::Primary => record.primary_operation_ids.contains_key(
                &verifier,
            ),
            AvailabilityVerifierRole::Audit => record.audit_operation_ids.contains_key(&verifier),
        };
        if attested {
            return None;
        }
    }
    Some(
        Ticket {
            epoch: context.epoch,
            slot,
            target_node_id: target,
            verifier_node_id: verifier,
            role,
            mode: set.mode,
        },
    )
}

/// The tickets that a verifier has to sign for some nodes.
pub open spec fn work_on_all(
    ledger: LedgerModel,
    context: ContextModel,
    verifier: u64,
    slot: i64,
    targets: Seq<u64>,
) -> Seq<Ticket>
    decreases targets.len(),
{
    if targets.len() == 0 {
        Seq::empty()
    } else {
        let earlier = work_on_all(ledger, context, verifier, slot, targets.drop_last());
        match work_on(ledger, context, verifier, slot, targets.last()) {
            Some(ticket) => earlier.push(ticket),
            None => earlier,
        }
    }
}

/// The tickets that a verifier has to sign now.
pub open spec fn tickets_due(ledger: LedgerModel, config: NodeConfigModel, now: i64) -> Outcome<
    Seq<Ticket>,
> {
    match verifier_id(config) {
        Err(refusal) => Err(refusal),
        Ok(verifier) => {
            let epoch = ledger.epoch_number;
            if !ledger.epoch_contexts.contains_key(epoch) {
                Err(epoch_closed(epoch))
            } else {
                let context = ledger.epoch_contexts[epoch];
                match slot_at(context, now) {
                    Err(refusal) => Err(refusal),
                    Ok(None) => Ok(Seq::empty()),
                    Ok(Some(slot)) => Ok(
                        work_on_all(ledger, context, verifier, slot, node_ids(ledger)),
                    ),
                }
            }
        },
    }
}

/// Lists the tickets that a verifier has to sign now.
pub fn availability_tickets(ledger: &LedgerState, config: &LocalNodeConfig, now: i64) -> (r: Result<
    Vec<Ticket>,
>)
    ensures
        match tickets_due(ledger@, config.deep_view(), now) {
            Ok(tickets) => r matches Ok(list) && list@ == tickets,
            Err(refusal) => r matches Err(error) && error@ == refusal,
        },
{
    let verifier = verifier_node_id(config)?;
    let context = epoch_context(ledger, ledger.epoch_number)?;
    let mut out: Vec<Ticket> = Vec::new();
    let slot: i64 = match active_availability_slot(context, now)? {
        None => {
            assert(out@ =~= Seq::<Ticket>::empty());
            return Ok(out);
        },
        Some(slot) => slot,
    };
    let ghost keys = ledger.nodes.keys();
    let mut i: usize = 0;
    assert(out@ =~= work_on_all(ledger@, context.deep_view(), verifier, slot, keys.take(0)));
    while i < ledger.nodes.len()
        invariant
            i <= keys.len(),
            keys == ledger.nodes.keys(),
            out@ == work_on_all(
                ledger@,
                context.deep_view(),
                verifier,
                slot,
                keys.take(i as int),
            ),
        decreases keys.len() - i,
    {
        assert(keys.take(i + 1).drop_last() =~= keys.take(i as int));
        assert(keys.take(i + 1).last() == keys[i as int]);
        if let Some(ticket) = find_work(ledger, context, verifier, slot, i) {
            out.push(ticket);
        }
        i = i + 1;
    }
    assert(keys.take(keys.len() as int) =~= keys);
    Ok(out)
}

/// A probe and its place in the order of work.
pub struct Work {
    pub order: String,
    pub request: AvailabilityProbeRequest,
}

/// The contents of `Work`.
#[verifier::ext_equal]
pub struct WorkModel {
    pub order: Seq<char>,
    pub request: AvailabilityProbeRequestModel,
}

impl DeepView for Work {
    type V = WorkModel;

    open spec fn deep_view(&self) -> WorkModel {
        WorkModel { order: self.order@, request: self.request.deep_view() }
    }
}

impl Replicate for Work {
    fn replicate(&self) -> (r: Work) {
        Work { order: self.order.clone(), request: self.request.replicate() }
    }
}

impl Ranked for Work {
    open spec fn precedes(a: WorkModel, b: WorkModel) -> bool {
        text_lt(a.order, b.order)
    }

    fn comes_before(&self, other: &Work) -> (r: bool) {
        text_less(self.order.as_str(), other.order.as_str())
    }
}

/// The place of a probe in the order of work.
pub open spec fn work_order(
    ledger_id: Seq<char>,
    slot: i64,
    verifier: u64,
    target: u64,
    role: AvailabilityVerifierRole,
) -> Seq<char> {
    full_id(
        "availability-work"@,
        encode_utf8(
            ledger_id + ":"@ + signed_decimal(slot as int) + ":"@ + decimal(verifier as nat) + ":"@
                + decimal(target as nat) + ":"@ + role_text(role),
        ),
    )
}

fn order_work(
    ledger_id: &str,
    slot: i64,
    verifier: u64,
    target: u64,
    role: AvailabilityVerifierRole,
) -> (r: String)
    ensures
        r@ == work_order(ledger_id@, slot, verifier, target, role),
{
    let mut text = join5(
        ledger_id,
        ":",
        i64_text(slot).as_str(),
        ":",
        u64_text(verifier).as_str(),
    );
    text.append(":");
    text.append(u64_text(target).as_str());
    text.append(":");
    text.append(availability_role_text(role));
    sha256_full_id("availability-work", text.as_str().as_bytes())
}

/// The probe that a ticket leads to, if it has been signed and its time is now.
pub open spec fn ticket_request(
    ledger: LedgerModel,
    ticket: Ticket,
    public_key: Seq<char>,
    signature: Seq<char>,
    now: i64,
) -> Option<AvailabilityProbeRequestModel> {
    if ticket_checked(ledger.ledger_id, ticket, public_key, signature) is Err {
        None
    } else {
        match request_built(
            ledger,
            ledger.epoch_contexts[ledger.epoch_number],
            ticket.target_node_id,
            ticket.verifier_node_id,
            ticket.role,
            ticket.slot,
            signature,
        ) {
            Err(_) => None,
            Ok(built) => {
                let request = request_timed(built, ticket.mode, now);
                if request.scheduled_at <= now <= request_ends(request) {
                    Some(request)
                } else {
                    None
                }
            },
        }
    }
}

fn request_now(
    ledger: &LedgerState,
    context: &EpochContext,
    ticket: &Ticket,
    public_key: &str,
    signature: &str,
    now: i64,
) -> (r: Option<AvailabilityProbeRequest>)
    requires
        context.deep_view() == ledger@.epoch_contexts[ledger@.epoch_number],
    ensures
        r.deep_view() == ticket_request(ledger@, *ticket, public_key@, signature@, now),
{
    if check_ticket(ledger, ticket, public_key, signature).is_err() {
        return None;
    }
    match build_availability_probe_request(
        ledger,
        context,
        ticket.target_node_id,
        ticket.verifier_node_id,
        ticket.role,
        ticket.slot,
        signature,
    ) {
        Err(_) => None,
        Ok(built) => {
            let mut request = built;
            if ticket.mode == AvailabilityMode::Node1Trusted {
                request.scheduled_at = now;
            }
            if now >= request.scheduled_at && now <= saturating_add_i64(request.scheduled_at, 10) {
                Some(request)
            } else {
                None
            }
        },
    }
}

/// The probes that signed tickets lead to.
pub open spec fn tickets_requests(
    ledger: LedgerModel,
    tickets: Seq<Ticket>,
    public_key: Seq<char>,
    signatures: Map<u64, Seq<char>>,
    now: i64,
) -> Seq<WorkModel>
    decreases tickets.len(),
{
    if tickets.len() == 0 {
        Seq::empty()
    } else {
        let earlier = tickets_requests(ledger, tickets.drop_last(), public_key, signatures, now);
        let ticket = tickets.last();
        if !signatures.contains_key(ticket.target_node_id) {
            earlier
        } else {
            match ticket_request(
                ledger,
                ticket,
                public_key,
                signatures[ticket.target_node_id],
                now,
            ) {
                None => earlier,
                Some(request) => earlier.push(
                    WorkModel {
                        order: work_order(
                            ledger.ledger_id,
                            ticket.slot,
                            ticket.verifier_node_id,
                            request.target.node_id,
                            request.role,
                        ),
                        request,
                    },
                ),
            }
        }
    }
}

/// The first probes that a verifier is to make now, in the order of work, of those whose tickets
/// the signer has signed.
pub open spec fn probes_due(
    ledger: LedgerModel,
    config: NodeConfigModel,
    signer: TicketSignerModel,
    signatures: Map<u64, Seq<char>>,
    now: i64,
    limit: usize,
) -> Outcome<Seq<AvailabilityProbeRequestModel>> {
    if limit == 0 {
        Ok(Seq::empty())
    } else {
        match verifier_id(config) {
            Err(refusal) => Err(refusal),
            Ok(verifier) => if signer.node_id != verifier {
                Err("Availability Ticket signer does not match the local Node"@)
            } else {
                match tickets_due(ledger, config, now) {
                    Err(refusal) => Err(refusal),
                    Ok(tickets) => Ok(
                        shown_first(
                            in_order(
                                tickets_requests(
                                    ledger,
                                    tickets,
                                    signer.owner_public_key,
                                    signatures,
                                    now,
                                ),
                            ),
                            limit as int,
                        ),
                    ),
                }
            },
        }
    }
}

/// Some probes in the order of work.
pub open spec fn in_order(work: Seq<WorkModel>) -> Seq<AvailabilityProbeRequestModel> {
    arranged::<Work>(work).map_values(|item: WorkModel| item.request)
}

/// Probes in the order of work are the same probes.
pub proof fn work_is_ordered(work: Seq<WorkModel>)
    ensures
        in_order(work).len() == work.len(),
        in_order(work).to_multiset() == work.map_values(
            |item: WorkModel| item.request,
        ).to_multiset(),
{
    broadcast use vstd::seq_lib::group_to_multiset_ensures;

    crate::sequence::arranged_keeps_items::<Work>(work);
    mapped_multisets(arranged::<Work>(work), work);
}

proof fn mapped_multisets(a: Seq<WorkModel>, b: Seq<WorkModel>)
    requires
        a.to_multiset() == b.to_multiset(),
    ensures
        a.map_values(|item: WorkModel| item.request).to_multiset() == b.map_values(
            |item: WorkModel| item.request,
        ).to_multiset(),
    decreases a.len(),
{
    broadcast use vstd::seq_lib::group_to_multiset_ensures;

    let pick = |item: WorkModel| item.request;
    assert(a.to_multiset().len() == a.len() && b.to_multiset().len() == b.len());
    if a.len() == 0 {
        assert(a.map_values(pick) =~= Seq::empty());
        assert(b.map_values(pick) =~= Seq::empty());
    } else {
        let item = a.last();
        assert(a.contains(item));
        assert(b.to_multiset().count(item) > 0);
        assert(b.contains(item));
        let i = choose|i: int| 0 <= i < b.len() && b[i] == item;
        let fewer = b.remove(i);
        a.drop_last().to_multiset();
        assert(a =~= a.drop_last().push(item));
        assert(a.drop_last().to_multiset() =~= a.to_multiset().remove(item));
        assert(fewer.to_multiset() =~= b.to_multiset().remove(item));
        mapped_multisets(a.drop_last(), fewer);
        assert(a.map_values(pick) =~= a.drop_last().map_values(pick).push(pick(item)));
        assert(fewer.map_values(pick) =~= b.map_values(pick).remove(i));
        assert(b.map_values(pick).remove(i).to_multiset() =~= b.map_values(
            pick,
        ).to_multiset().remove(pick(item)));
        assert(b.map_values(pick)[i] == pick(item));
        assert(b.map_values(pick).to_multiset() =~= fewer.map_values(pick).to_multiset().insert(
            pick(item),
        ));
    }
}

/// Tells a verifier which nodes to probe now, with the tickets that it has signed, by target. Where
/// the verifier has no more time than for some of them, the order of work decides.
pub fn availability_probe_requests(
    ledger: &LedgerState,
    config: &LocalNodeConfig,
    signer: &AvailabilityTicketSigner,
    signatures: &Table<u64, String>,
    now: i64,
    limit: usize,
) -> (r: Result<Vec<AvailabilityProbeRequest>>)
    ensures
        match probes_due(
            ledger@,
            config.deep_view(),
            signer.deep_view(),
            signatures@,
            now,
            limit,
        ) {
            Ok(due) => r matches Ok(list) && list.deep_view() == due,
            Err(refusal) => r matches Err(error) && error@ == refusal,
        },
{
    let mut out: Vec<AvailabilityProbeRequest> = Vec::new();
    if limit == 0 {
        assert(out.deep_view() =~= Seq::<AvailabilityProbeRequestModel>::empty());
        return Ok(out);
    }
    let verifier = verifier_node_id(config)?;
    if signer.node_id != verifier {
        return Err(Error::msg("Availability Ticket signer does not match the local Node"));
    }
    let tickets = availability_tickets(ledger, config, now)?;
    if tickets.len() == 0 {
        proof {
            assert(tickets@ =~= Seq::<Ticket>::empty());
            let none = tickets_requests(
                ledger@,
                tickets@,
                signer.owner_public_key@,
                signatures@,
                now,
            );
            assert(none =~= Seq::<WorkModel>::empty());
            work_is_ordered(none);
            assert(out.deep_view() =~= in_order(none));
        }
        return Ok(out);
    }
    let context = epoch_context(ledger, ledger.epoch_number)?;
    let mut work: Vec<Work> = Vec::new();
    let mut i: usize = 0;
    assert(work.deep_view() =~= tickets_requests(
        ledger@,
        tickets@.take(0),
        signer.owner_public_key@,
        signatures@,
        now,
    ));
    while i < tickets.len()
        invariant
            i <= tickets@.len(),
            ledger@.epoch_contexts.contains_key(ledger@.epoch_number),
            context.deep_view() == ledger@.epoch_contexts[ledger@.epoch_number],
            work.deep_view() == tickets_requests(
                ledger@,
                tickets@.take(i as int),
                signer.owner_public_key@,
                signatures@,
                now,
            ),
        decreases tickets@.len() - i,
    {
        assert(tickets@.take(i + 1).drop_last() =~= tickets@.take(i as int));
        let ghost before = work.deep_view();
        let ticket = tickets[i];
        if let Some(signature) = signatures.get(&ticket.target_node_id) {
            if let Some(request) = request_now(
                ledger,
                context,
                &ticket,
                signer.owner_public_key.as_str(),
                signature.as_str(),
                now,
            ) {
                let order = order_work(
                    ledger.ledger_id.as_str(),
                    ticket.slot,
                    ticket.verifier_node_id,
                    request.target.node_id,
                    request.role,
                );
                let item = Work { order, request };
                work.push(item);
                assert(work.deep_view() =~= before.push(item.deep_view()));
            }
        }
        i = i + 1;
    }
    assert(tickets@.take(tickets@.len() as int) =~= tickets@);
    let sorted = arrange(&work);
    let ghost all = in_order(work.deep_view());
    let mut j: usize = 0;
    while j < sorted.len() && j < limit
        invariant
            j <= sorted@.len(),
            j <= limit,
            all == sorted.deep_view().map_values(|item: WorkModel| item.request),
            all.len() == sorted@.len(),
            out.deep_view() == all.take(j as int),
        decreases sorted@.len() - j,
    {
        let ghost before = out.deep_view();
        let request = sorted[j].request.replicate();
        out.push(request);
        assert(out.deep_view() =~= before.push(request.deep_view()));
        assert(all.take(j + 1) =~= all.take(j as int).push(all[j as int]));
        j = j + 1;
    }
    assert(out.deep_view() =~= shown_first(all, limit as int));
    Ok(out)
}

/// What an attestation carries.
pub open spec fn attestation_fields(
    verifier: u64,
    request: AvailabilityAttestationRequestModel,
) -> PayloadModel {
    Map::<Seq<char>, FieldModel>::empty().insert(
        "target_node_id"@,
        FieldModel::Integer(request.response.node_id as i128),
    ).insert("verifier_node_id"@, FieldModel::Integer(verifier as i128)).insert(
        "slot"@,
        FieldModel::Integer(request.slot as i128),
    ).insert("epoch"@, FieldModel::Integer(request.epoch as i128)).insert(
        "role"@,
        FieldModel::Role(request.role),
    ).insert("ticket_signature"@, FieldModel::Text(request.ticket_signature)).insert(
        "probe"@,
        FieldModel::Probe(request.response),
    )
}

/// Makes the operation by which a verifier attests what it has probed.
pub fn attestation_operation(
    ledger: &LedgerState,
    config: &LocalNodeConfig,
    owner: &KeyIdentity,
    request: &AvailabilityAttestationRequest,
) -> (r: Result<UnsignedOperation>)
    ensures
        outcome(r) == match verifier_id(config.deep_view()) {
            Err(refusal) => Err(refusal),
            Ok(verifier) => Ok(
                next_operation(
                    ledger@,
                    owner.deep_view().address,
                    "Availability"@,
                    "AttestProbe"@,
                    attestation_fields(verifier, request.deep_view()),
                    request.now,
                ),
            ),
        },
{
    let verifier = verifier_node_id(config)?;
    let payload = Payload::new().with_number(
        "target_node_id",
        request.response.node_id,
    ).with_number("verifier_node_id", verifier).with(
        "slot",
        Field::Integer(request.slot as i128),
    ).with_number("epoch", request.epoch).with("role", Field::Role(request.role)).with_text(
        "ticket_signature",
        request.ticket_signature.as_str(),
    ).with("probe", Field::Probe(request.response.replicate()));
    Ok(
        draft_next_operation(
            ledger,
            &owner.address,
            "Availability",
            "AttestProbe",
            payload,
            request.now,
        ),
    )
}

/// What an attestation that has been submitted has led to.
pub open spec fn attestation_shown(
    ledger: LedgerModel,
    operation_id: Seq<char>,
    verifier: u64,
    request: AvailabilityAttestationRequestModel,
) -> Outcome<AvailabilitySubmissionViewModel> {
    let key = slot_key(request.epoch, request.response.node_id, request.slot);
    if !ledger.availability_slots.contains_key(key) {
        Err("availability attestation was not recorded"@)
    } else {
        let record = ledger.availability_slots[key];
        Ok(
            AvailabilitySubmissionViewModel {
                operation_id,
                target_node_id: record.target_node_id,
                verifier_node_id: verifier,
                slot: request.slot,
                role: request.role,
                primary_attestation_count: record.primary_operation_ids.len() as usize,
                primary_quorum: record.primary_quorum,
                audit_required: record.audit_required,
                audit_attestation_count: record.audit_operation_ids.len() as usize,
                audit_quorum: record.audit_quorum,
                credited_seconds: record.credited_seconds,
            },
        )
    }
}

/// Shows what an attestation that has been submitted has led to.
pub fn attestation_view(
    ledger: &LedgerState,
    operation_id: &str,
    verifier_node_id: u64,
    request: &AvailabilityAttestationRequest,
) -> (r: Result<AvailabilitySubmissionView>)
    ensures
        outcome(r) == attestation_shown(
            ledger@,
            operation_id@,
            verifier_node_id,
            request.deep_view(),
        ),
{
    match ledger.availability_slots.get(
        &availability_slot_key(request.epoch, request.response.node_id, request.slot),
    ) {
        None => Err(Error::msg("availability attestation was not recorded")),
        Some(record) => Ok(
            AvailabilitySubmissionView {
                operation_id: operation_id.to_owned(),
                target_node_id: record.target_node_id,
                verifier_node_id,
                slot: request.slot,
                role: request.role,
                primary_attestation_count: record.primary_operation_ids.len(),
                primary_quorum: record.primary_quorum,
                audit_required: record.audit_required,
                audit_attestation_count: record.audit_operation_ids.len(),
                audit_quorum: record.audit_quorum,
                credited_seconds: record.credited_seconds,
            },
        ),
    }
}

/// Submits a signed attestation and shows what it has led to.
pub fn submit_node_probe_attestation(
    ledger: &mut LedgerState,
    config: &LocalNodeConfig,
    public_key: &str,
    operation: &SignedOperation,
    request: &AvailabilityAttestationRequest,
) -> (r: Result<AvailabilitySubmissionView>)
    ensures
        match verifier_id(config.deep_view()) {
            Err(refusal) => final(ledger)@ == old(ledger)@ && (r matches Err(error) && error@
                == refusal),
            Ok(verifier) => match node_operation_submitted(
                old(ledger)@,
                public_key@,
                operation.deep_view(),
                request.now,
            ) {
                Err(refusal) => final(ledger)@ == old(ledger)@ && (r matches Err(error) && error@
                    == refusal),
                Ok(next) => final(ledger)@ == next && outcome(r) == attestation_shown(
                    next,
                    operation.intake.operation_id@,
                    verifier,
                    request.deep_view(),
                ),
            },
        },
{
    let verifier = verifier_node_id(config)?;
    submit_signed_node_operation(ledger, public_key, operation, request.now)?;
    attestation_view(ledger, operation.intake.operation_id.as_str(), verifier, request)
}

/// A probe is made in the ten seconds from the time that its ticket gives it, by a verifier that was
/// drawn for the node, and with a ticket that its owner has signed.
pub proof fn probes_keep_to_their_window(
    ledger: LedgerModel,
    config: NodeConfigModel,
    owner: KeyModel,
    target: u64,
    signature: Seq<char>,
    now: i64,
)
    requires
        probe_requested(ledger, config, owner, target, signature, now) is Ok,
    ensures
        ({
            let request = probe_requested(ledger, config, owner, target, signature, now)->Ok_0;
            let context = ledger.epoch_contexts[ledger.epoch_number];
            let set = verifier_set(ledger, context, target, request.slot);
            &&& now <= request.scheduled_at + 10
            &&& Some(request.verifier_node_id) == config.node_id
            &&& set.primary_ids.contains(request.verifier_node_id) || set.auditor_ids.contains(
                request.verifier_node_id,
            )
            &&& request.target == ledger.nodes[target] && request.epoch == context.epoch
            &&& request.ticket_signature == signature && request.challenge == challenge_of(
                signature,
            )
            &&& set.mode == AvailabilityMode::Node1Trusted ==> request.scheduled_at == now
        }),
{
}

/// A ticket leads to a probe from the time that it gives for ten seconds, and only with the
/// signature that it asks for.
pub proof fn tickets_are_good_for_ten_seconds(
    ledger: LedgerModel,
    ticket: Ticket,
    public_key: Seq<char>,
    signature: Seq<char>,
    now: i64,
)
    ensures
        ticket_request(ledger, ticket, public_key, signature, now) matches Some(request) ==> {
            &&& request.scheduled_at <= now <= request.scheduled_at + 10
            &&& ticket_checked(ledger.ledger_id, ticket, public_key, signature) is Ok
            &&& request.verifier_node_id == ticket.verifier_node_id
            &&& request.target == ledger.nodes[ticket.target_node_id]
        },
{
}

/// A verifier has a node to probe in a slot if it was drawn for it, the node is in service, and the
/// verifier has not attested yet.
pub proof fn verifiers_work_where_they_are_drawn(
    ledger: LedgerModel,
    context: ContextModel,
    verifier: u64,
    slot: i64,
    target: u64,
)
    ensures
        ({
            let status = ledger.nodes[target].status;
            let set = verifier_set(ledger, context, target, slot);
            let key = slot_key(context.epoch, target, slot);
            let record = ledger.availability_slots[key];
            let known = ledger.availability_slots.contains_key(key);
            let first = set.primary_ids.contains(verifier);
            let second = !first && set.auditor_ids.contains(verifier);
            work_on(ledger, context, verifier, slot, target) is Some <==> {
                &&& status == NodeStatus::WarmingUp || status == NodeStatus::Active
                &&& first || second
                &&& known && first ==> !record.primary_operation_ids.contains_key(verifier)
                &&& known && second ==> !record.audit_operation_ids.contains_key(verifier)
            }
        }),
        work_on(ledger, context, verifier, slot, target) matches Some(ticket) ==> ticket.slot == slot
            && ticket.target_node_id == target && ticket.verifier_node_id == verifier
            && ticket.epoch == context.epoch,
{
}

} // verus!
