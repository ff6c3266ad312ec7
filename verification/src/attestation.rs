use vstd::prelude::*;
use vstd::string::*;
use vstd::utf8::*;

use crate::availability::{
    availability_challenge, availability_scheduled_at, availability_slot_bounds,
    availability_slot_key, availability_ticket_message, availability_verifier_set, challenge_of,
    probe_checked, scheduled_at, slot_bounds, slot_key, ticket_text, verifier_set,
    verify_node_probe_payload, AvailabilityVerifierSet, VerifierSetModel,
};
use crate::crypto::{signature_checked, verify_bytes};
use crate::epochs::{epoch_closed, epoch_context};
use crate::error::{outcome, Error, Outcome, Result};
use crate::model::{
    copy_values, AvailabilityMode, AvailabilitySlotRecord, AvailabilityVerifierRole, ContextModel,
    EpochContext, Field, FieldModel, LedgerModel, LedgerState, NodeModel, NodeRecord, NodeStatus,
    ProbeModel, ProbePayload, SignedModel, SignedOperation, SlotModel,
};
use crate::nodes::{
    bind_ip_slot_if_available, node_owns_ip_slot_at, owns_slot_at, slot_bound, slot_held,
};
use crate::number::{
    clamped_i64, clamped_u64, greatest, least, max_i64, min_i64, saturating_add_i64,
    saturating_sub_i64,
};
use crate::payload::{
    field_text, malformed, malformed_field, payload_i64, payload_u64, required_i64, required_u64,
    PayloadModel,
};
use crate::rewards::eligible_seconds;
use crate::sequence::{contains_id, same_ids};
use crate::table::{ordered, ordered_lists_all, Replicate, Table};
use crate::text::text_same;

verus! {

/// What a verifier attests: which node it probed in which slot, as what, and the answer.
pub struct AttestationModel {
    pub target: u64,
    pub verifier: u64,
    pub slot: i64,
    pub epoch: u64,
    pub role: AvailabilityVerifierRole,
    pub ticket: Seq<char>,
    pub probe: ProbeModel,
}

/// The role in a payload.
pub open spec fn required_role(payload: PayloadModel) -> Outcome<AvailabilityVerifierRole> {
    if !payload.contains_key("role"@) {
        Err("availability verifier role is missing"@)
    } else {
        match payload["role"@] {
            FieldModel::Role(role) => Ok(role),
            _ => Err(malformed_field("role"@)),
        }
    }
}

/// The answer to a probe in a payload.
pub open spec fn required_probe(payload: PayloadModel) -> Outcome<ProbeModel> {
    if !payload.contains_key("probe"@) {
        Err("availability Probe response is missing"@)
    } else {
        match payload["probe"@] {
            FieldModel::Probe(probe) => Ok(probe),
            _ => Err(malformed_field("probe"@)),
        }
    }
}

/// Reads an attestation and the context of the epoch that it belongs to.
pub open spec fn attestation_read(
    ledger: LedgerModel,
    payload: PayloadModel,
    executed_at: i64,
) -> Outcome<AttestationModel> {
    match required_u64(payload, "target_node_id"@, "availability target Node ID is invalid"@) {
        Err(refusal) => Err(refusal),
        Ok(target) => match required_u64(
            payload,
            "verifier_node_id"@,
            "availability verifier Node ID is invalid"@,
        ) {
            Err(refusal) => Err(refusal),
            Ok(verifier) => match required_i64(payload, "slot"@, "availability slot is invalid"@) {
                Err(refusal) => Err(refusal),
                Ok(slot) => match required_u64(
                    payload,
                    "epoch"@,
                    "availability Epoch is invalid"@,
                ) {
                    Err(refusal) => Err(refusal),
                    Ok(epoch) => if !ledger.epoch_contexts.contains_key(epoch) {
                        Err(epoch_closed(epoch))
                    } else if executed_at > ledger.epoch_contexts[epoch].submission_deadline {
                        Err("availability attestation missed its Epoch finality deadline"@)
                    } else {
                        match required_role(payload) {
                            Err(refusal) => Err(refusal),
                            Ok(role) => match field_text(payload, "ticket_signature"@) {
                                None => Err(
                                    "availability Probe Ticket signature is invalid"@,
                                ),
                                Some(ticket) => match required_probe(payload) {
                                    Err(refusal) => Err(refusal),
                                    Ok(probe) => Ok(
                                        AttestationModel {
                                            target,
                                            verifier,
                                            slot,
                                            epoch,
                                            role,
                                            ticket,
                                            probe,
                                        },
                                    ),
                                },
                            },
                        }
                    },
                },
            },
        },
    }
}

/// Whether the times of a probe and of its attestation fit the slot and the ticket.
pub open spec fn times_checked(
    context: ContextModel,
    at: AttestationModel,
    executed_at: i64,
) -> Outcome<()> {
    match slot_bounds(context, at.slot) {
        Err(refusal) => Err(refusal),
        Ok(bounds) => match scheduled_at(
            at.ticket,
            bounds.0,
            context.settings.availability_slot_seconds,
            at.role,
        ) {
            Err(refusal) => Err(refusal),
            Ok(scheduled) => {
                let probed = at.probe.timestamp;
                if context.availability_mode == AvailabilityMode::Node1Trusted && !(-30
                    <= executed_at - probed <= 30) {
                    Err(
                        "trusted Node 1 Probe observation is outside the 30 second operation window"@,
                    )
                } else if context.availability_mode != AvailabilityMode::Node1Trusted && (probed
                    < clamped_i64(scheduled - 2) || probed > clamped_i64(scheduled + 10)
                    || executed_at < clamped_i64(scheduled - 2) || executed_at > clamped_i64(
                    scheduled + 20,
                )) {
                    Err("availability Probe observation is outside its signed Ticket window"@)
                } else if probed < bounds.0 || probed >= bounds.1 {
                    Err("availability Probe timestamp does not belong to the declared slot"@)
                } else {
                    Ok(())
                }
            },
        },
    }
}

/// Whether an attestation comes from a verifier that was drawn for it and answers its ticket.
pub open spec fn attestation_checked(
    ledger: LedgerModel,
    context: ContextModel,
    at: AttestationModel,
    signer: Seq<char>,
    public_key: Seq<char>,
    executed_at: i64,
) -> Outcome<()> {
    let set = verifier_set(ledger, context, at.target, at.slot);
    let selected = match at.role {
        AvailabilityVerifierRole::Primary => set.primary_ids,
        AvailabilityVerifierRole::Audit => set.auditor_ids,
    };
    let ticket = ticket_text(
        ledger.ledger_id,
        at.epoch,
        at.slot,
        at.target,
        at.verifier,
        at.role,
    );
    if !ledger.nodes.contains_key(at.verifier) {
        Err("availability verifier Node is missing"@)
    } else if ledger.nodes[at.verifier].owner_address != signer
        || ledger.nodes[at.verifier].owner_public_key != public_key {
        Err("availability attestation signer is not the selected Node Owner"@)
    } else if at.probe.node_id != at.target {
        Err("availability Probe response identifies another target Node"@)
    } else {
        match signature_checked(
            ledger.nodes[at.verifier].owner_public_key,
            encode_utf8(ticket),
            at.ticket,
        ) {
            Err(refusal) => Err(refusal),
            Ok(_) => match probe_checked(ledger, at.probe) {
                Err(refusal) => Err(refusal),
                Ok(_) => match times_checked(context, at, executed_at) {
                    Err(refusal) => Err(refusal),
                    Ok(_) => if !selected.contains(at.verifier) {
                        Err(
                            "availability attestation signer was not selected for this target, slot, and role"@,
                        )
                    } else if at.probe.challenge != challenge_of(at.ticket) {
                        Err(
                            "availability Probe challenge is not deterministic for this slot"@,
                        )
                    } else {
                        Ok(())
                    },
                },
            },
        }
    }
}

/// The record of a slot in which nobody has attested yet.
pub open spec fn slot_begun(at: AttestationModel, set: VerifierSetModel) -> SlotModel {
    SlotModel {
        epoch: at.epoch,
        target_node_id: at.target,
        slot: at.slot,
        mode: set.mode,
        selected_primary_ids: set.primary_ids,
        primary_operation_ids: Map::empty(),
        primary_quorum: set.primary_quorum,
        audit_required: set.audit_required,
        selected_auditor_ids: set.auditor_ids,
        audit_operation_ids: Map::empty(),
        audit_quorum: set.audit_quorum,
        credited_seconds: 0,
        credited_at: None,
    }
}

/// The record of a slot with one more attestation.
pub open spec fn slot_attested(
    record: SlotModel,
    set: VerifierSetModel,
    at: AttestationModel,
    operation_id: Seq<char>,
) -> Outcome<SlotModel> {
    let operations = match at.role {
        AvailabilityVerifierRole::Primary => record.primary_operation_ids,
        AvailabilityVerifierRole::Audit => record.audit_operation_ids,
    };
    if record.mode != set.mode || record.selected_primary_ids != set.primary_ids
        || record.primary_quorum != set.primary_quorum || record.audit_required
        != set.audit_required || record.selected_auditor_ids != set.auditor_ids
        || record.audit_quorum != set.audit_quorum {
        Err("availability verifier selection changed within a slot"@)
    } else if operations.contains_key(at.verifier) {
        Err("availability verifier already attested this target, slot, and role"@)
    } else {
        Ok(
            match at.role {
                AvailabilityVerifierRole::Primary => SlotModel {
                    primary_operation_ids: operations.insert(at.verifier, operation_id),
                    ..record
                },
                AvailabilityVerifierRole::Audit => SlotModel {
                    audit_operation_ids: operations.insert(at.verifier, operation_id),
                    ..record
                },
            },
        )
    }
}

/// Whether enough have attested, and audited where an audit is required.
pub open spec fn slot_ready(record: SlotModel) -> bool {
    record.primary_operation_ids.len() >= record.primary_quorum && (!record.audit_required
        || record.audit_operation_ids.len() >= record.audit_quorum)
}

/// The attestations of a slot, those of the primaries first.
pub open spec fn slot_operations(record: SlotModel) -> Seq<Seq<char>> {
    ordered::<u64>(record.primary_operation_ids.dom()).map_values(
        |id: u64| record.primary_operation_ids[id],
    ) + ordered::<u64>(record.audit_operation_ids.dom()).map_values(
        |id: u64| record.audit_operation_ids[id],
    )
}

/// The time of the probe that an attestation reports, if it is known.
pub open spec fn reported_probe(
    ledger: LedgerModel,
    attestation: Seq<char>,
    own: Seq<char>,
    probed: i64,
) -> Option<i64> {
    if attestation == own {
        Some(probed)
    } else if ledger.operations.contains_key(attestation)
        && ledger.operations[attestation].payload.contains_key("probe"@) {
        match ledger.operations[attestation].payload["probe"@] {
            FieldModel::Probe(probe) => Some(probe.timestamp),
            _ => None,
        }
    } else {
        None
    }
}

/// The later of two times, if there are any.
pub open spec fn later(a: Option<i64>, b: Option<i64>) -> Option<i64> {
    match (a, b) {
        (Some(x), Some(y)) => Some(
            if x >= y {
                x
            } else {
                y
            },
        ),
        (Some(x), None) => Some(x),
        (None, y) => y,
    }
}

/// The latest probe that some attestations report.
pub open spec fn latest_reported(
    ledger: LedgerModel,
    attestations: Seq<Seq<char>>,
    own: Seq<char>,
    probed: i64,
) -> Option<i64>
    decreases attestations.len(),
{
    if attestations.len() == 0 {
        None
    } else {
        later(
            latest_reported(ledger, attestations.drop_last(), own, probed),
            reported_probe(ledger, attestations.last(), own, probed),
        )
    }
}

/// The ledger after a slot with enough attestations has been credited to the node: for the time of
/// the slot that lies behind the node's warm-up, once, if the node is in service, holds its address
/// slot and rewards are not paused.
pub open spec fn slot_credited(
    ledger: LedgerModel,
    context: ContextModel,
    record: SlotModel,
    bounds: (i64, i64),
    at: AttestationModel,
    operation_id: Seq<char>,
) -> Outcome<LedgerModel> {
    let latest = match latest_reported(
        ledger,
        slot_operations(record),
        operation_id,
        at.probe.timestamp,
    ) {
        Some(latest) => latest,
        None => at.probe.timestamp,
    };
    let node = ledger.nodes[at.target];
    let start = greatest(greatest(bounds.0 as int, context.started_at as int), node.warmup_until as int);
    let end = least(bounds.1 as int, context.ended_at as int);
    let first = record.credited_at is None;
    let serviceable = node.status != NodeStatus::Draining && node.status != NodeStatus::Exited
        && node.status != NodeStatus::Suspended;
    let bound = if serviceable {
        slot_bound(ledger, node.ip_slot, at.target, latest)
    } else {
        ledger
    };
    let owns = serviceable && slot_held(bound, node.ip_slot, at.target) && owns_slot_at(
        bound,
        at.target,
        latest,
    );
    let credited = if first && !ledger.governance.emission_paused && serviceable && owns && end
        > start {
        (end - start) as u64
    } else {
        0
    };
    let probed = if first && serviceable && owns {
        NodeModel {
            last_probe_success: Some(latest),
            probe_success_count: clamped_u64(node.probe_success_count + 1),
            status: if end > start {
                NodeStatus::Active
            } else {
                node.status
            },
            active_since: if end > start && node.active_since is None {
                Some(start as i64)
            } else {
                node.active_since
            },
            ..node
        }
    } else if !first && serviceable {
        NodeModel { last_probe_success: later(node.last_probe_success, Some(latest)), ..node }
    } else {
        node
    };
    let counted = if credited > 0 {
        NodeModel {
            eligible_seconds_by_epoch: probed.eligible_seconds_by_epoch.insert(
                at.epoch,
                clamped_u64(
                    eligible_seconds(probed, at.epoch) + credited,
                ),
            ),
            total_eligible_seconds: clamped_u64(probed.total_eligible_seconds + credited),
            ..probed
        }
    } else {
        probed
    };
    if !ledger.nodes.contains_key(at.target) {
        Err("availability target Node is missing"@)
    } else {
        let noted = LedgerModel { nodes: bound.nodes.insert(at.target, counted), ..bound };
        if first {
            Ok(
                LedgerModel {
                    availability_slots: noted.availability_slots.insert(
                        slot_key(at.epoch, at.target, at.slot),
                        SlotModel {
                            credited_seconds: credited,
                            credited_at: Some(bounds.1),
                            ..record
                        },
                    ),
                    ..noted
                },
            )
        } else {
            Ok(noted)
        }
    }
}

/// The ledger after an attestation.
#[verifier::opaque]
pub open spec fn attestation_applied(
    ledger: LedgerModel,
    public_key: Seq<char>,
    operation: SignedModel,
    operation_id: Seq<char>,
    executed_at: i64,
) -> Outcome<LedgerModel> {
    match attestation_read(ledger, operation.unsigned.payload, executed_at) {
        Err(refusal) => Err(refusal),
        Ok(at) => {
            let context = ledger.epoch_contexts[at.epoch];
            match attestation_checked(
                ledger,
                context,
                at,
                operation.unsigned.signer,
                public_key,
                executed_at,
            ) {
                Err(refusal) => Err(refusal),
                Ok(_) => {
                    let set = verifier_set(ledger, context, at.target, at.slot);
                    let key = slot_key(at.epoch, at.target, at.slot);
                    let record = if ledger.availability_slots.contains_key(key) {
                        ledger.availability_slots[key]
                    } else {
                        slot_begun(at, set)
                    };
                    match slot_attested(record, set, at, operation_id) {
                        Err(refusal) => Err(refusal),
                        Ok(attested) => {
                            let noted = LedgerModel {
                                availability_slots: ledger.availability_slots.insert(
                                    key,
                                    attested,
                                ),
                                ..ledger
                            };
                            if slot_ready(attested) {
                                slot_credited(
                                    noted,
                                    context,
                                    attested,
                                    slot_bounds(context, at.slot)->Ok_0,
                                    at,
                                    operation_id,
                                )
                            } else {
                                Ok(noted)
                            }
                        },
                    }
                },
            }
        },
    }
}

struct Attestation {
    target: u64,
    verifier: u64,
    slot: i64,
    epoch: u64,
    role: AvailabilityVerifierRole,
    ticket: String,
    probe: ProbePayload,
}

impl DeepView for Attestation {
    type V = AttestationModel;

    closed spec fn deep_view(&self) -> AttestationModel {
        AttestationModel {
            target: self.target,
            verifier: self.verifier,
            slot: self.slot,
            epoch: self.epoch,
            role: self.role,
            ticket: self.ticket@,
            probe: self.probe.deep_view(),
        }
    }
}

fn read_attestation(
    ledger: &LedgerState,
    operation: &SignedOperation,
    executed_at: i64,
) -> (r: Result<Attestation>)
    ensures
        outcome(r) == attestation_read(
            ledger@,
            operation.deep_view().unsigned.payload,
            executed_at,
        ),
        r matches Ok(at) ==> ledger@.epoch_contexts.contains_key(at.epoch),
{
    let payload = &operation.unsigned.payload;
    let target = payload_u64(payload, "target_node_id", "availability target Node ID is invalid")?;
    let verifier = payload_u64(
        payload,
        "verifier_node_id",
        "availability verifier Node ID is invalid",
    )?;
    let slot = payload_i64(payload, "slot", "availability slot is invalid")?;
    let epoch = payload_u64(payload, "epoch", "availability Epoch is invalid")?;
    let context = epoch_context(ledger, epoch)?;
    if executed_at > context.submission_deadline {
        return Err(Error::msg("availability attestation missed its Epoch finality deadline"));
    }
    let role: AvailabilityVerifierRole = match payload.get("role") {
        None => {
            return Err(Error::msg("availability verifier role is missing"));
        },
        Some(Field::Role(role)) => *role,
        Some(_) => {
            return Err(malformed("role"));
        },
    };
    let ticket = match payload.text("ticket_signature") {
        None => {
            return Err(Error::msg("availability Probe Ticket signature is invalid"));
        },
        Some(ticket) => ticket.clone(),
    };
    let probe = match payload.get("probe") {
        None => {
            return Err(Error::msg("availability Probe response is missing"));
        },
        Some(Field::Probe(probe)) => probe.replicate(),
        Some(_) => {
            return Err(malformed("probe"));
        },
    };
    Ok(Attestation { target, verifier, slot, epoch, role, ticket, probe })
}

fn check_times(context: &EpochContext, at: &Attestation, executed_at: i64) -> (r: Result<
    (i64, i64),
>)
    ensures
        match times_checked(context.deep_view(), at.deep_view(), executed_at) {
            Ok(_) => r matches Ok(bounds) && slot_bounds(context.deep_view(), at.slot) == Ok::<
                (i64, i64),
                Seq<char>,
            >(bounds),
            Err(refusal) => r matches Err(error) && error@ == refusal,
        },
{
    let (start, end) = availability_slot_bounds(context, at.slot)?;
    let scheduled = availability_scheduled_at(
        at.ticket.as_str(),
        start,
        context.settings.availability_slot_seconds,
        at.role,
    )?;
    let probed: i64 = at.probe.timestamp;
    if context.availability_mode == AvailabilityMode::Node1Trusted {
        let difference: i128 = executed_at as i128 - probed as i128;
        if difference < -30 || difference > 30 {
            return Err(
                Error::msg(
                    "trusted Node 1 Probe observation is outside the 30 second operation window",
                ),
            );
        }
    } else if probed < saturating_sub_i64(scheduled, 2) || probed > saturating_add_i64(
        scheduled,
        10,
    ) || executed_at < saturating_sub_i64(scheduled, 2) || executed_at > saturating_add_i64(
        scheduled,
        20,
    ) {
        return Err(
            Error::msg("availability Probe observation is outside its signed Ticket window"),
        );
    }
    if probed < start || probed >= end {
        return Err(
            Error::msg("availability Probe timestamp does not belong to the declared slot"),
        );
    }
    Ok((start, end))
}

fn check_attestation(
    ledger: &LedgerState,
    context: &EpochContext,
    at: &Attestation,
    signer: &str,
    public_key: &str,
    executed_at: i64,
) -> (r: Result<((i64, i64), AvailabilityVerifierSet)>)
    ensures
        match attestation_checked(
            ledger@,
            context.deep_view(),
            at.deep_view(),
            signer@,
            public_key@,
            executed_at,
        ) {
            Ok(_) => {
                &&& r matches Ok(found) && slot_bounds(context.deep_view(), at.slot) == Ok::<
                    (i64, i64),
                    Seq<char>,
                >(found.0) && found.1.deep_view() == verifier_set(
                    ledger@,
                    context.deep_view(),
                    at.target,
                    at.slot,
                )
            },
            Err(refusal) => r matches Err(error) && error@ == refusal,
        },
{
    let verifier = match ledger.nodes.get(&at.verifier) {
        None => {
            return Err(Error::msg("availability verifier Node is missing"));
        },
        Some(verifier) => verifier,
    };
    if !text_same(verifier.owner_address.as_str(), signer) || !text_same(
        verifier.owner_public_key.as_str(),
        public_key,
    ) {
        return Err(
            Error::msg("availability attestation signer is not the selected Node Owner"),
        );
    }
    if at.probe.node_id != at.target {
        return Err(Error::msg("availability Probe response identifies another target Node"));
    }
    let ticket = availability_ticket_message(
        ledger.ledger_id.as_str(),
        at.epoch,
        at.slot,
        at.target,
        at.verifier,
        at.role,
    );
    verify_bytes(
        verifier.owner_public_key.as_str(),
        ticket.as_str().as_bytes(),
        at.ticket.as_str(),
    )?;
    verify_node_probe_payload(ledger, &at.probe)?;
    let bounds = check_times(context, at, executed_at)?;
    let set = availability_verifier_set(ledger, context, at.target, at.slot);
    let selected = match at.role {
        AvailabilityVerifierRole::Primary => contains_id(&set.primary_ids, at.verifier),
        AvailabilityVerifierRole::Audit => contains_id(&set.auditor_ids, at.verifier),
    };
    if !selected {
        return Err(
            Error::msg(
                "availability attestation signer was not selected for this target, slot, and role",
            ),
        );
    }
    let challenge = availability_challenge(at.ticket.as_str());
    if !text_same(at.probe.challenge.as_str(), challenge.as_str()) {
        return Err(
            Error::msg("availability Probe challenge is not deterministic for this slot"),
        );
    }
    Ok((bounds, set))
}

fn begin_slot(at: &Attestation, set: &AvailabilityVerifierSet) -> (r: AvailabilitySlotRecord)
    ensures
        r.deep_view() == slot_begun(at.deep_view(), set.deep_view()),
{
    AvailabilitySlotRecord {
        epoch: at.epoch,
        target_node_id: at.target,
        slot: at.slot,
        mode: set.mode,
        selected_primary_ids: copy_values(&set.primary_ids),
        primary_operation_ids: Table::new(),
        primary_quorum: set.primary_quorum,
        audit_required: set.audit_required,
        selected_auditor_ids: copy_values(&set.auditor_ids),
        audit_operation_ids: Table::new(),
        audit_quorum: set.audit_quorum,
        credited_seconds: 0,
        credited_at: None,
    }
}

fn attest_slot(
    record: &mut AvailabilitySlotRecord,
    set: &AvailabilityVerifierSet,
    at: &Attestation,
    operation_id: &str,
) -> (r: Result<()>)
    ensures
        match slot_attested(
            old(record).deep_view(),
            set.deep_view(),
            at.deep_view(),
            operation_id@,
        ) {
            Ok(attested) => r is Ok && final(record).deep_view() == attested,
            Err(refusal) => r matches Err(error) && error@ == refusal,
        },
{
    if record.mode != set.mode || !same_ids(&record.selected_primary_ids, &set.primary_ids)
        || record.primary_quorum != set.primary_quorum || record.audit_required
        != set.audit_required || !same_ids(&record.selected_auditor_ids, &set.auditor_ids)
        || record.audit_quorum != set.audit_quorum {
        return Err(Error::msg("availability verifier selection changed within a slot"));
    }
    let already = match at.role {
        AvailabilityVerifierRole::Primary => record.primary_operation_ids.contains_key(
            &at.verifier,
        ),
        AvailabilityVerifierRole::Audit => record.audit_operation_ids.contains_key(&at.verifier),
    };
    if already {
        return Err(
            Error::msg("availability verifier already attested this target, slot, and role"),
        );
    }
    match at.role {
        AvailabilityVerifierRole::Primary => {
            record.primary_operation_ids.insert(at.verifier, operation_id.to_owned());
        },
        AvailabilityVerifierRole::Audit => {
            record.audit_operation_ids.insert(at.verifier, operation_id.to_owned());
        },
    }
    Ok(())
}

fn later_time(a: Option<i64>, b: Option<i64>) -> (r: Option<i64>)
    ensures
        r == later(a, b),
{
    match (a, b) {
        (Some(x), Some(y)) => Some(
            if x >= y {
                x
            } else {
                y
            },
        ),
        (Some(x), None) => Some(x),
        (None, y) => y,
    }
}

fn find_reported(ledger: &LedgerState, attestation: &String, own: &str, probed: i64) -> (r: Option<
    i64,
>)
    ensures
        r == reported_probe(ledger@, attestation@, own@, probed),
{
    if text_same(attestation.as_str(), own) {
        return Some(probed);
    }
    match ledger.operations.get(attestation) {
        None => None,
        Some(record) => match record.payload.get("probe") {
            Some(Field::Probe(probe)) => Some(probe.timestamp),
            _ => None,
        },
    }
}

fn latest_in(
    ledger: &LedgerState,
    operations: &Table<u64, String>,
    own: &str,
    probed: i64,
    before: Option<i64>,
    Ghost(earlier): Ghost<Seq<Seq<char>>>,
) -> (r: Option<i64>)
    requires
        before == latest_reported(ledger@, earlier, own@, probed),
    ensures
        r == latest_reported(
            ledger@,
            earlier + ordered::<u64>(operations@.dom()).map_values(|id: u64| operations@[id]),
            own@,
            probed,
        ),
{
    let ghost keys = operations.keys();
    let ghost listed = keys.map_values(|id: u64| operations@[id]);
    let mut latest: Option<i64> = before;
    let mut i: usize = 0;
    assert(earlier + listed.take(0) =~= earlier);
    while i < operations.len()
        invariant
            i <= keys.len(),
            keys == operations.keys(),
            listed == keys.map_values(|id: u64| operations@[id]),
            latest == latest_reported(ledger@, earlier + listed.take(i as int), own@, probed),
        decreases keys.len() - i,
    {
        let ghost next = earlier + listed.take(i as int + 1);
        assert(next.drop_last() =~= earlier + listed.take(i as int));
        assert(next.last() == listed[i as int]);
        latest = later_time(
            latest,
            find_reported(ledger, operations.value_at(i), own, probed),
        );
        i = i + 1;
    }
    assert(listed.take(keys.len() as int) =~= listed);
    latest
}

fn latest_probe(
    ledger: &LedgerState,
    record: &AvailabilitySlotRecord,
    own: &str,
    probed: i64,
) -> (r: i64)
    ensures
        r == match latest_reported(ledger@, slot_operations(record.deep_view()), own@, probed) {
            Some(latest) => latest,
            None => probed,
        },
{
    let ghost none = Seq::<Seq<char>>::empty();
    let primaries = latest_in(
        ledger,
        &record.primary_operation_ids,
        own,
        probed,
        None,
        Ghost(none),
    );
    let ghost first = ordered::<u64>(record.primary_operation_ids@.dom()).map_values(
        |id: u64| record.primary_operation_ids@[id],
    );
    assert(none + first =~= first);
    let all = latest_in(
        ledger,
        &record.audit_operation_ids,
        own,
        probed,
        primaries,
        Ghost(first),
    );
    match all {
        Some(latest) => latest,
        None => probed,
    }
}

fn count_slot(
    node: &mut NodeRecord,
    first: bool,
    serviceable: bool,
    owns: bool,
    latest: i64,
    start: i64,
    end: i64,
    credited: u64,
    epoch: u64,
)
    ensures
        ({
            let before = old(node).deep_view();
            let probed = if first && serviceable && owns {
                NodeModel {
                    last_probe_success: Some(latest),
                    probe_success_count: clamped_u64(before.probe_success_count + 1),
                    status: if end > start {
                        NodeStatus::Active
                    } else {
                        before.status
                    },
                    active_since: if end > start && before.active_since is None {
                        Some(start)
                    } else {
                        before.active_since
                    },
                    ..before
                }
            } else if !first && serviceable {
                NodeModel {
                    last_probe_success: later(before.last_probe_success, Some(latest)),
                    ..before
                }
            } else {
                before
            };
            final(node).deep_view() == if credited > 0 {
                NodeModel {
                    eligible_seconds_by_epoch: probed.eligible_seconds_by_epoch.insert(
                        epoch,
                        clamped_u64(crate::rewards::eligible_seconds(probed, epoch) + credited),
                    ),
                    total_eligible_seconds: clamped_u64(probed.total_eligible_seconds + credited),
                    ..probed
                }
            } else {
                probed
            }
        }),
{
    if first && serviceable && owns {
        node.last_probe_success = Some(latest);
        node.probe_success_count = node.probe_success_count.saturating_add(1);
        if end > start {
            node.status = NodeStatus::Active;
            if node.active_since.is_none() {
                node.active_since = Some(start);
            }
        }
    } else if !first && serviceable {
        node.last_probe_success = later_time(node.last_probe_success, Some(latest));
    }
    if credited > 0 {
        let before: u64 = match node.eligible_seconds_by_epoch.get(&epoch) {
            Some(seconds) => *seconds,
            None => 0,
        };
        node.eligible_seconds_by_epoch.insert(epoch, before.saturating_add(credited));
        node.total_eligible_seconds = node.total_eligible_seconds.saturating_add(credited);
    }
}

fn credit_slot(
    ledger: &mut LedgerState,
    context: &EpochContext,
    record: &AvailabilitySlotRecord,
    bounds: (i64, i64),
    at: &Attestation,
    operation_id: &str,
) -> (r: Result<()>)
    requires
        bounds.1 - bounds.0 <= i64::MAX,
    ensures
        match slot_credited(
            old(ledger)@,
            context.deep_view(),
            record.deep_view(),
            bounds,
            at.deep_view(),
            operation_id@,
        ) {
            Ok(next) => r is Ok && final(ledger)@ == next,
            Err(refusal) => final(ledger)@ == old(ledger)@ && (r matches Err(error) && error@
                == refusal),
        },
{
    let latest = latest_probe(ledger, record, operation_id, at.probe.timestamp);
    let (warmup_until, ip_slot, status): (i64, String, NodeStatus) = match ledger.nodes.get(
        &at.target,
    ) {
        None => {
            return Err(Error::msg("availability target Node is missing"));
        },
        Some(node) => (node.warmup_until, node.ip_slot.clone(), node.status),
    };
    let start: i64 = max_i64(max_i64(bounds.0, context.started_at), warmup_until);
    let end: i64 = min_i64(bounds.1, context.ended_at);
    let first = record.credited_at.is_none();
    let serviceable = !matches!(
        status,
        NodeStatus::Draining | NodeStatus::Exited | NodeStatus::Suspended
    );
    let held = if serviceable {
        bind_ip_slot_if_available(ledger, ip_slot.as_str(), at.target, latest)
    } else {
        false
    };
    let owns = serviceable && held && node_owns_ip_slot_at(ledger, at.target, latest);
    let credited: u64 = if first && !ledger.governance.emission_paused && serviceable && owns && end
        > start {
        (end - start) as u64
    } else {
        0
    };
    if let Some(node) = ledger.nodes.get_mut(&at.target) {
        count_slot(
            node,
            first,
            serviceable,
            owns,
            latest,
            start,
            end,
            credited,
            at.epoch,
        );
    }
    if first {
        let mut done = record.replicate();
        done.credited_seconds = credited;
        done.credited_at = Some(bounds.1);
        ledger.availability_slots.insert(
            availability_slot_key(at.epoch, at.target, at.slot),
            done,
        );
    }
    Ok(())
}

/// Takes an attestation over. A refused one leaves the ledger as it was.
pub fn apply_availability_attestation(
    ledger: &mut LedgerState,
    public_key: &str,
    operation: &SignedOperation,
    operation_id_value: &str,
    executed_at: i64,
) -> (r: Result<()>)
    ensures
        match attestation_applied(
            old(ledger)@,
            public_key@,
            operation.deep_view(),
            operation_id_value@,
            executed_at,
        ) {
            Ok(next) => r is Ok && final(ledger)@ == next,
            Err(refusal) => final(ledger)@ == old(ledger)@ && (r matches Err(error) && error@
                == refusal),
        },
{
    proof {
        reveal(attestation_applied);
    }
    let at = read_attestation(ledger, operation, executed_at)?;
    let context = epoch_context(ledger, at.epoch)?.replicate();
    let (bounds, set) = check_attestation(
        ledger,
        &context,
        &at,
        operation.unsigned.signer.as_str(),
        public_key,
        executed_at,
    )?;
    let key = availability_slot_key(at.epoch, at.target, at.slot);
    let mut record = match ledger.availability_slots.get(&key) {
        Some(record) => record.replicate(),
        None => begin_slot(&at, &set),
    };
    attest_slot(&mut record, &set, &at, operation_id_value)?;
    ledger.availability_slots.insert(key, record.replicate());
    let primary_ready = record.primary_operation_ids.len() >= record.primary_quorum as usize;
    let audit_ready = !record.audit_required || record.audit_operation_ids.len()
        >= record.audit_quorum as usize;
    if primary_ready && audit_ready {
        credit_slot(ledger, &context, &record, bounds, &at, operation_id_value)
    } else {
        Ok(())
    }
}

/// What an attestation that is applied attests.
pub open spec fn attested_slot(
    ledger: LedgerModel,
    operation: SignedModel,
    executed_at: i64,
) -> (u64, Seq<char>) {
    let at = attestation_read(ledger, operation.unsigned.payload, executed_at)->Ok_0;
    (at.target, slot_key(at.epoch, at.target, at.slot))
}

/// A node's time of service grows only by a slot in which a quorum of the primaries has attested,
/// and a quorum of the auditors where the slot is audited.
pub proof fn credit_needs_both_quorums(
    ledger: LedgerModel,
    public_key: Seq<char>,
    operation: SignedModel,
    operation_id: Seq<char>,
    executed_at: i64,
)
    requires
        attestation_applied(ledger, public_key, operation, operation_id, executed_at) is Ok,
    ensures
        ({
            let next = attestation_applied(
                ledger,
                public_key,
                operation,
                operation_id,
                executed_at,
            )->Ok_0;
            let (target, key) = attested_slot(ledger, operation, executed_at);
            next.nodes[target].total_eligible_seconds
                != ledger.nodes[target].total_eligible_seconds
                || next.nodes[target].eligible_seconds_by_epoch
                != ledger.nodes[target].eligible_seconds_by_epoch ==> {
                let record = next.availability_slots[key];
                &&& record.primary_operation_ids.len() >= record.primary_quorum
                &&& record.audit_required ==> record.audit_operation_ids.len()
                    >= record.audit_quorum
            }
        }),
{
    reveal(attestation_applied);
}

/// A slot that has been credited is not credited again by a further attestation.
pub proof fn slots_are_credited_once(
    ledger: LedgerModel,
    public_key: Seq<char>,
    operation: SignedModel,
    operation_id: Seq<char>,
    executed_at: i64,
)
    requires
        attestation_applied(ledger, public_key, operation, operation_id, executed_at) is Ok,
        ({
            let (_, key) = attested_slot(ledger, operation, executed_at);
            ledger.availability_slots.contains_key(key)
                && ledger.availability_slots[key].credited_at is Some
        }),
    ensures
        ({
            let next = attestation_applied(
                ledger,
                public_key,
                operation,
                operation_id,
                executed_at,
            )->Ok_0;
            let (target, key) = attested_slot(ledger, operation, executed_at);
            &&& next.nodes[target].total_eligible_seconds
                == ledger.nodes[target].total_eligible_seconds
            &&& next.nodes[target].eligible_seconds_by_epoch
                == ledger.nodes[target].eligible_seconds_by_epoch
            &&& next.availability_slots[key].credited_seconds
                == ledger.availability_slots[key].credited_seconds
        }),
{
    reveal(attestation_applied);
}

/// How much of a slot counts for a node: the seconds of the slot, of its epoch and behind the node's
/// warm-up.
pub open spec fn counted_part(context: ContextModel, slot: i64, warmup_until: i64) -> int {
    let length = context.settings.availability_slot_seconds;
    let begins = context.started_at + slot * length;
    let ends = begins + length;
    let from = if warmup_until > begins {
        warmup_until as int
    } else {
        begins
    };
    let to = if ends > context.ended_at {
        context.ended_at as int
    } else {
        ends
    };
    if to > from {
        to - from
    } else {
        0
    }
}

/// A node is credited for no second before its warm-up ends: an attestation adds either nothing or
/// just the part of the slot that lies in the epoch and behind the warm-up, to the node and to the
/// epoch alike, and a slot that is over by then neither adds anything nor makes the node active.
/// Nothing is added while rewards are paused, nor to a node that is out of service or has no
/// address. Other nodes and other epochs are not touched.
pub proof fn credit_waits_for_the_warm_up(
    ledger: LedgerModel,
    public_key: Seq<char>,
    operation: SignedModel,
    operation_id: Seq<char>,
    executed_at: i64,
)
    requires
        attestation_applied(ledger, public_key, operation, operation_id, executed_at) is Ok,
    ensures
        ({
            let next = attestation_applied(
                ledger,
                public_key,
                operation,
                operation_id,
                executed_at,
            )->Ok_0;
            let at = attestation_read(ledger, operation.unsigned.payload, executed_at)->Ok_0;
            let before = ledger.nodes[at.target];
            let after = next.nodes[at.target];
            let part = counted_part(
                ledger.epoch_contexts[at.epoch],
                at.slot,
                before.warmup_until,
            );
            let gained = after.total_eligible_seconds - before.total_eligible_seconds;
            let out_of_service = before.status == NodeStatus::Draining || before.status
                == NodeStatus::Exited || before.status == NodeStatus::Suspended;
            &&& 0 <= gained <= part
            &&& gained == 0 || gained == part || after.total_eligible_seconds == u64::MAX
            &&& eligible_seconds(before, at.epoch) <= eligible_seconds(after, at.epoch)
                <= eligible_seconds(before, at.epoch) + part
            &&& gained > 0 && eligible_seconds(before, at.epoch) + part <= u64::MAX
                && after.total_eligible_seconds < u64::MAX ==> eligible_seconds(after, at.epoch)
                == eligible_seconds(before, at.epoch) + part
            &&& forall|epoch: u64|
                epoch != at.epoch ==> #[trigger] eligible_seconds(after, epoch)
                    == eligible_seconds(before, epoch)
            &&& part == 0 ==> after.status == before.status && after.active_since
                == before.active_since && after.total_eligible_seconds
                == before.total_eligible_seconds && after.eligible_seconds_by_epoch
                == before.eligible_seconds_by_epoch
            &&& ledger.governance.emission_paused ==> gained == 0
            &&& out_of_service ==> after == before
            &&& after.status == before.status || after.status == NodeStatus::Active
            &&& after.warmup_until == before.warmup_until
            &&& gained > 0 ==> slot_held(next, before.ip_slot, at.target)
                && next.availability_slots[slot_key(
                at.epoch,
                at.target,
                at.slot,
            )].credited_seconds == part
            &&& before.last_probe_success is Some ==> after.last_probe_success is Some
            &&& next.accounts == ledger.accounts
            &&& next.nodes.dom() =~= ledger.nodes.dom()
            &&& forall|other: u64|
                other != at.target && ledger.nodes.contains_key(other) ==> #[trigger] next.nodes[other]
                    == ledger.nodes[other]
        }),
{
    reveal(attestation_applied);
}

/// An attestation is refused once its epoch is settled or the time for it is over.
pub proof fn late_attestations_are_refused(
    ledger: LedgerModel,
    public_key: Seq<char>,
    operation: SignedModel,
    operation_id: Seq<char>,
    executed_at: i64,
    epoch: u64,
)
    requires
        required_u64(
            operation.unsigned.payload,
            "epoch"@,
            "availability Epoch is invalid"@,
        ) == Ok::<u64, Seq<char>>(epoch),
        !ledger.epoch_contexts.contains_key(epoch)
            || ledger.epoch_contexts[epoch].submission_deadline < executed_at,
    ensures
        attestation_applied(ledger, public_key, operation, operation_id, executed_at) is Err,
{
    reveal(attestation_applied);
}

/// An attestation as it is handed in.
#[verifier::ext_equal]
pub struct SubmissionModel {
    pub public_key: Seq<char>,
    pub operation: SignedModel,
    pub operation_id: Seq<char>,
    pub executed_at: i64,
}

/// The ledger after some attestations have been taken over one after the other, all of them for one
/// slot of a node, or the first refusal.
pub open spec fn run_applied(
    ledger: LedgerModel,
    run: Seq<SubmissionModel>,
    target: u64,
    epoch: u64,
    slot: i64,
) -> Outcome<LedgerModel>
    decreases run.len(),
{
    if run.len() == 0 {
        Ok(ledger)
    } else {
        match run_applied(ledger, run.drop_last(), target, epoch, slot) {
            Err(refusal) => Err(refusal),
            Ok(next) => {
                let last = run.last();
                match attestation_read(next, last.operation.unsigned.payload, last.executed_at) {
                    Err(refusal) => Err(refusal),
                    Ok(at) => if at.target != target || at.epoch != epoch || at.slot != slot {
                        Err("attestation is for another slot"@)
                    } else {
                        attestation_applied(
                            next,
                            last.public_key,
                            last.operation,
                            last.operation_id,
                            last.executed_at,
                        )
                    },
                }
            },
        }
    }
}

/// The time of the probe that an attestation reports.
pub open spec fn probed_at(submission: SubmissionModel) -> i64 {
    required_probe(submission.operation.unsigned.payload)->Ok_0.timestamp
}

/// Whether the address slot of a node is its own at a time, or is free for it then.
pub open spec fn has_address_at(ledger: LedgerModel, target: u64, at: i64) -> bool {
    owns_slot_at(slot_bound(ledger, ledger.nodes[target].ip_slot, target, at), target, at)
}

proof fn addresses_stay(ledger: LedgerModel, target: u64, first: i64, at: i64)
    requires
        has_address_at(ledger, target, first),
        first <= at,
    ensures
        has_address_at(ledger, target, at),
{
}

/// Whether a node may be credited for a slot that begins at a time: rewards are not paused, and the
/// node is in service and has warmed up.
pub open spec fn may_be_credited(ledger: LedgerModel, target: u64, start: i64) -> bool {
    let node = ledger.nodes[target];
    &&& ledger.nodes.contains_key(target)
    &&& !ledger.governance.emission_paused
    &&& node.status != NodeStatus::Draining && node.status != NodeStatus::Exited && node.status
        != NodeStatus::Suspended
    &&& node.warmup_until <= start
}

proof fn own_probe_counts(
    ledger: LedgerModel,
    attestations: Seq<Seq<char>>,
    own: Seq<char>,
    probed: i64,
)
    requires
        attestations.contains(own),
    ensures
        latest_reported(ledger, attestations, own, probed) matches Some(latest) && latest >= probed,
    decreases attestations.len(),
{
    if attestations.last() != own {
        let i = choose|i: int| 0 <= i < attestations.len() && attestations[i] == own;
        assert(attestations.drop_last()[i] == own);
        own_probe_counts(ledger, attestations.drop_last(), own, probed);
    }
}

proof fn own_attestation_is_listed(record: SlotModel, verifier: u64, operation_id: Seq<char>)
    requires
        record.primary_operation_ids.dom().finite(),
        record.audit_operation_ids.dom().finite(),
        (record.primary_operation_ids.contains_key(verifier)
            && record.primary_operation_ids[verifier] == operation_id) || (
        record.audit_operation_ids.contains_key(verifier) && record.audit_operation_ids[verifier]
            == operation_id),
    ensures
        slot_operations(record).contains(operation_id),
{
    let primaries = ordered::<u64>(record.primary_operation_ids.dom());
    let auditors = ordered::<u64>(record.audit_operation_ids.dom());
    let listed = slot_operations(record);
    ordered_lists_all::<u64>(record.primary_operation_ids.dom());
    ordered_lists_all::<u64>(record.audit_operation_ids.dom());
    if record.primary_operation_ids.contains_key(verifier)
        && record.primary_operation_ids[verifier] == operation_id {
        assert(primaries.contains(verifier));
        let i = choose|i: int| 0 <= i < primaries.len() && primaries[i] == verifier;
        assert(listed[i] == operation_id);
    } else {
        assert(auditors.contains(verifier));
        let i = choose|i: int| 0 <= i < auditors.len() && auditors[i] == verifier;
        assert(listed[primaries.len() + i] == operation_id);
    }
}

/// Whether a slot has a record in which finitely many have attested.
pub open spec fn is_recorded(ledger: LedgerModel, key: Seq<char>) -> bool {
    let record = ledger.availability_slots[key];
    &&& ledger.availability_slots.contains_key(key)
    &&& record.primary_operation_ids.dom().finite()
    &&& record.audit_operation_ids.dom().finite()
}

proof fn one_attestation_counts(
    ledger: LedgerModel,
    last: SubmissionModel,
    target: u64,
    epoch: u64,
    slot: i64,
)
    requires
        ({
            let at = attestation_read(
                ledger,
                last.operation.unsigned.payload,
                last.executed_at,
            )->Ok_0;
            at.target == target && at.epoch == epoch && at.slot == slot
        }),
        attestation_applied(
            ledger,
            last.public_key,
            last.operation,
            last.operation_id,
            last.executed_at,
        ) is Ok,
        ledger.availability_slots.contains_key(slot_key(epoch, target, slot)) ==> is_recorded(
            ledger,
            slot_key(epoch, target, slot),
        ),
    ensures
        ({
            let next = attestation_applied(
                ledger,
                last.public_key,
                last.operation,
                last.operation_id,
                last.executed_at,
            )->Ok_0;
            let key = slot_key(epoch, target, slot);
            let known = ledger.availability_slots.contains_key(key);
            let before = ledger.availability_slots[key];
            let after = next.availability_slots[key];
            let bounds = slot_bounds(ledger.epoch_contexts[epoch], slot)->Ok_0;
            let node = ledger.nodes[target];
            let length = bounds.1 - bounds.0;
            &&& is_recorded(next, key)
            &&& bounds.0 < bounds.1
            &&& known && slot_ready(before) ==> slot_ready(after)
            &&& !slot_ready(after) ==> next == (LedgerModel {
                availability_slots: next.availability_slots,
                ..ledger
            }) && after.credited_at == (if known {
                before.credited_at
            } else {
                None
            })
            &&& slot_ready(after) ==> after.credited_at is Some && next.epoch_contexts
                == ledger.epoch_contexts
            &&& slot_ready(after) && known && before.credited_at is Some ==> {
                &&& next.nodes[target].total_eligible_seconds == node.total_eligible_seconds
                &&& next.nodes[target].eligible_seconds_by_epoch == node.eligible_seconds_by_epoch
            }
            &&& slot_ready(after) && (known ==> before.credited_at is None) && may_be_credited(
                ledger,
                target,
                bounds.0,
            ) && has_address_at(ledger, target, probed_at(last)) ==> {
                &&& next.nodes[target].total_eligible_seconds == clamped_u64(
                    node.total_eligible_seconds + length,
                )
                &&& next.nodes[target].eligible_seconds_by_epoch
                    == node.eligible_seconds_by_epoch.insert(
                    epoch,
                    clamped_u64(eligible_seconds(node, epoch) + length),
                )
            }
        }),
{
    reveal(attestation_applied);
    let at = attestation_read(ledger, last.operation.unsigned.payload, last.executed_at)->Ok_0;
    let context = ledger.epoch_contexts[epoch];
    let key = slot_key(epoch, target, slot);
    let set = verifier_set(ledger, context, target, slot);
    let record = if ledger.availability_slots.contains_key(key) {
        ledger.availability_slots[key]
    } else {
        slot_begun(at, set)
    };
    let attested = slot_attested(record, set, at, last.operation_id)->Ok_0;
    let bounds = slot_bounds(context, slot)->Ok_0;
    let noted = LedgerModel {
        availability_slots: ledger.availability_slots.insert(key, attested),
        ..ledger
    };
    assert(record.primary_operation_ids.dom().finite());
    assert(record.audit_operation_ids.dom().finite());
    assert(attested.primary_operation_ids.dom().finite());
    assert(attested.audit_operation_ids.dom().finite());
    assert(attested.primary_operation_ids.len() >= record.primary_operation_ids.len());
    assert(attested.audit_operation_ids.len() >= record.audit_operation_ids.len());
    own_attestation_is_listed(attested, at.verifier, last.operation_id);
    own_probe_counts(noted, slot_operations(attested), last.operation_id, at.probe.timestamp);
    let latest = latest_reported(
        noted,
        slot_operations(attested),
        last.operation_id,
        at.probe.timestamp,
    )->0;
    if has_address_at(ledger, target, probed_at(last)) {
        addresses_stay(ledger, target, probed_at(last), latest);
        assert(has_address_at(noted, target, latest));
    }
}

/// A probe that completes the quorums of a slot, or comes after, is noted as a success of a node
/// that is in service and has its address: from then on the node counts as reached at that probe, or
/// later.
pub proof fn successful_probes_are_noted(
    ledger: LedgerModel,
    submission: SubmissionModel,
    target: u64,
    epoch: u64,
    slot: i64,
)
    requires
        ({
            let at = attestation_read(
                ledger,
                submission.operation.unsigned.payload,
                submission.executed_at,
            )->Ok_0;
            at.target == target && at.epoch == epoch && at.slot == slot
        }),
        attestation_applied(
            ledger,
            submission.public_key,
            submission.operation,
            submission.operation_id,
            submission.executed_at,
        ) is Ok,
        ledger.availability_slots.contains_key(slot_key(epoch, target, slot)) ==> is_recorded(
            ledger,
            slot_key(epoch, target, slot),
        ),
        ledger.nodes[target].status == NodeStatus::WarmingUp || ledger.nodes[target].status
            == NodeStatus::Active,
        has_address_at(ledger, target, probed_at(submission)),
    ensures
        ({
            let next = attestation_applied(
                ledger,
                submission.public_key,
                submission.operation,
                submission.operation_id,
                submission.executed_at,
            )->Ok_0;
            let record = next.availability_slots[slot_key(epoch, target, slot)];
            record.primary_operation_ids.len() >= record.primary_quorum && (record.audit_required
                ==> record.audit_operation_ids.len() >= record.audit_quorum) ==> (
            next.nodes[target].last_probe_success matches Some(noted) && noted >= probed_at(
                submission,
            ))
        }),
{
    reveal(attestation_applied);
    let payload = submission.operation.unsigned.payload;
    let at = attestation_read(ledger, payload, submission.executed_at)->Ok_0;
    let context = ledger.epoch_contexts[epoch];
    let key = slot_key(epoch, target, slot);
    let set = verifier_set(ledger, context, target, slot);
    let record = if ledger.availability_slots.contains_key(key) {
        ledger.availability_slots[key]
    } else {
        slot_begun(at, set)
    };
    let attested = slot_attested(record, set, at, submission.operation_id)->Ok_0;
    let noted = LedgerModel {
        availability_slots: ledger.availability_slots.insert(key, attested),
        ..ledger
    };
    assert(attested.primary_operation_ids.dom().finite());
    assert(attested.audit_operation_ids.dom().finite());
    own_attestation_is_listed(attested, at.verifier, submission.operation_id);
    own_probe_counts(
        noted,
        slot_operations(attested),
        submission.operation_id,
        at.probe.timestamp,
    );
    let latest = latest_reported(
        noted,
        slot_operations(attested),
        submission.operation_id,
        at.probe.timestamp,
    )->0;
    addresses_stay(ledger, target, probed_at(submission), latest);
    assert(has_address_at(noted, target, latest));
}

/// A whole run of attestations for a slot that had no record before, of a node that has its address
/// by the time of the probes, credits the node for the length of the slot exactly once: nothing until enough have attested, and audited where an audit is
/// required, and once for all from then on. Since this holds of every beginning of the run, the
/// credit comes with the attestation that completes the quorums, which no later one takes back.
pub proof fn runs_credit_a_slot_once(
    ledger: LedgerModel,
    run: Seq<SubmissionModel>,
    target: u64,
    epoch: u64,
    slot: i64,
)
    requires
        run_applied(ledger, run, target, epoch, slot) is Ok,
        !ledger.availability_slots.contains_key(slot_key(epoch, target, slot)),
        ({
            let bounds = slot_bounds(ledger.epoch_contexts[epoch], slot)->Ok_0;
            may_be_credited(ledger, target, bounds.0)
        }),
        forall|i: int|
            0 <= i < run.len() ==> has_address_at(ledger, target, probed_at(#[trigger] run[i])),
    ensures
        ({
            let next = run_applied(ledger, run, target, epoch, slot)->Ok_0;
            let key = slot_key(epoch, target, slot);
            let record = next.availability_slots[key];
            let bounds = slot_bounds(ledger.epoch_contexts[epoch], slot)->Ok_0;
            let length = bounds.1 - bounds.0;
            let node = ledger.nodes[target];
            let credited = next.nodes[target];
            &&& run.len() > 0 ==> is_recorded(next, key)
            &&& next.epoch_contexts == ledger.epoch_contexts
            &&& if run.len() > 0 && slot_ready(record) {
                &&& record.credited_at is Some
                &&& credited.total_eligible_seconds == clamped_u64(
                    node.total_eligible_seconds + length,
                )
                &&& credited.eligible_seconds_by_epoch == node.eligible_seconds_by_epoch.insert(
                    epoch,
                    clamped_u64(eligible_seconds(node, epoch) + length),
                )
            } else {
                &&& run.len() > 0 ==> record.credited_at is None
                &&& next == (LedgerModel {
                    availability_slots: next.availability_slots,
                    ..ledger
                })
            }
        }),
        run.len() > 1 && slot_ready(
            run_applied(
                ledger,
                run.drop_last(),
                target,
                epoch,
                slot,
            )->Ok_0.availability_slots[slot_key(epoch, target, slot)],
        ) ==> slot_ready(
            run_applied(ledger, run, target, epoch, slot)->Ok_0.availability_slots[slot_key(
                epoch,
                target,
                slot,
            )],
        ),
    decreases run.len(),
{
    if run.len() > 0 {
        let before = run.drop_last();
        let middle = run_applied(ledger, before, target, epoch, slot)->Ok_0;
        let bounds = slot_bounds(ledger.epoch_contexts[epoch], slot)->Ok_0;
        let key = slot_key(epoch, target, slot);
        assert forall|i: int| 0 <= i < before.len() implies has_address_at(
            ledger,
            target,
            probed_at(#[trigger] before[i]),
        ) by {
            assert(before[i] == run[i]);
        }
        runs_credit_a_slot_once(ledger, before, target, epoch, slot);
        if before.len() == 0 || !slot_ready(middle.availability_slots[key]) {
            assert(may_be_credited(middle, target, bounds.0));
            assert(has_address_at(ledger, target, probed_at(run[run.len() - 1])));
            assert(has_address_at(middle, target, probed_at(run.last())));
        }
        one_attestation_counts(middle, run.last(), target, epoch, slot);
    }
}

} // verus!
