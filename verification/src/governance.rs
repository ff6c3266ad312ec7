use vstd::prelude::*;
use vstd::string::*;
use vstd::utf8::*;

use crate::crypto::{address_checked, validate_address};
use crate::error::{outcome, Error, Outcome, Result};
use crate::model::{
    ActionModel, Field, FieldModel, GenesisAuthority, GenesisModel, GovernanceActionRecord,
    GovernanceModel, GovernanceProposalAction, GovernanceProposalKind, LedgerModel, LedgerState,
    Payload, ProposalActionModel, SignedModel, SignedOperation,
};
use crate::nodes::{
    eligible_ids, governance_eligible_node_ids, heartbeats_reset, reset_active_heartbeats,
};
use crate::operations::{cancel_governance_proposals_below_threshold, starved_proposals_cancelled};
use crate::payload::{
    field_u64, malformed, malformed_field, payload_str, required_text, PayloadModel,
};
use crate::protocol::NODE1_DIRECT_GOVERNANCE_END_THRESHOLD;
use crate::settings::{
    apply_governance_parameter_batch, batch_accepted, batch_applied, changes_touch_critical,
    touches_critical, validate_governance_parameter_batch,
};
use crate::table::Replicate;
use crate::text::{text_same, trim_text, trimmed};
use crate::treasury::{
    reference_checked, spend_checked, spend_treasury, treasury_spent,
    validate_treasury_reference_hash, validate_treasury_spend_amount,
};

verus! {

/// The authority of the first node, taken from the registry.
pub open spec fn registry_authority(ledger: LedgerModel) -> Option<GenesisModel> {
    if ledger.nodes.contains_key(1) {
        Some(
            GenesisModel {
                node_id: 1,
                owner_address: ledger.nodes[1].owner_address,
                owner_public_key: ledger.nodes[1].owner_public_key,
                established_at: ledger.nodes[1].registered_at,
            },
        )
    } else {
        None
    }
}

/// The authority that a ledger has fixed, or else the one of the registry.
pub open spec fn genesis_of(ledger: LedgerModel) -> Option<GenesisModel> {
    match ledger.genesis_authority {
        Some(authority) => Some(authority),
        None => registry_authority(ledger),
    }
}

pub fn legacy_genesis_authority(ledger: &LedgerState) -> (r: Option<GenesisAuthority>)
    ensures
        r.deep_view() == registry_authority(ledger@),
{
    match ledger.nodes.get(&1) {
        None => None,
        Some(node) => Some(
            GenesisAuthority {
                node_id: 1,
                owner_address: node.owner_address.clone(),
                owner_public_key: node.owner_public_key.clone(),
                established_at: node.registered_at,
            },
        ),
    }
}

pub fn known_genesis_authority(ledger: &LedgerState) -> (r: Option<GenesisAuthority>)
    ensures
        r.deep_view() == genesis_of(ledger@),
{
    match &ledger.genesis_authority {
        Some(authority) => Some(authority.replicate()),
        None => legacy_genesis_authority(ledger),
    }
}

/// The ledger in which the authority of the first node is fixed.
pub open spec fn genesis_fixed(ledger: LedgerModel) -> Outcome<(LedgerModel, GenesisModel)> {
    match genesis_of(ledger) {
        None => Err("Genesis Node 1 has not been registered"@),
        Some(authority) => if authority.node_id != 1 {
            Err("Genesis authority must reference Node ID 1"@)
        } else if !ledger.nodes.contains_key(1) {
            Err("Genesis Node 1 is missing from the registry"@)
        } else if ledger.nodes[1].owner_address != authority.owner_address
            || ledger.nodes[1].owner_public_key != authority.owner_public_key {
            Err("Genesis Node 1 authority does not match the registry"@)
        } else {
            Ok((LedgerModel { genesis_authority: Some(authority), ..ledger }, authority))
        },
    }
}

/// Fixes the authority of the first node.
pub fn ensure_genesis_authority(ledger: &mut LedgerState) -> (r: Result<GenesisAuthority>)
    ensures
        match genesis_fixed(old(ledger)@) {
            Ok(found) => final(ledger)@ == found.0 && (r matches Ok(authority)
                && authority.deep_view() == found.1),
            Err(refusal) => (r matches Err(error) && error@ == refusal) && final(ledger)@ == old(
                ledger,
            )@,
        },
{
    let authority = match known_genesis_authority(ledger) {
        None => {
            return Err(Error::msg("Genesis Node 1 has not been registered"));
        },
        Some(authority) => authority,
    };
    if authority.node_id != 1 {
        return Err(Error::msg("Genesis authority must reference Node ID 1"));
    }
    match ledger.nodes.get(&1) {
        None => {
            return Err(Error::msg("Genesis Node 1 is missing from the registry"));
        },
        Some(node) => {
            if !text_same(node.owner_address.as_str(), authority.owner_address.as_str())
                || !text_same(
                node.owner_public_key.as_str(),
                authority.owner_public_key.as_str(),
            ) {
                return Err(Error::msg("Genesis Node 1 authority does not match the registry"));
            }
        },
    }
    ledger.genesis_authority = Some(authority.replicate());
    Ok(authority)
}

/// Whether a signer is the owner of a node.
pub open spec fn owner_checked(
    ledger: LedgerModel,
    node_id: u64,
    signer: Seq<char>,
    public_key: Seq<char>,
) -> Outcome<()> {
    if !ledger.nodes.contains_key(node_id) {
        Err("Node is missing"@)
    } else if ledger.nodes[node_id].owner_address != signer
        || ledger.nodes[node_id].owner_public_key != public_key {
        Err("operation signer does not match Node Owner"@)
    } else {
        Ok(())
    }
}

pub fn ensure_replicated_node_owner(
    ledger: &LedgerState,
    node_id: u64,
    signer: &str,
    public_key: &str,
) -> (r: Result<()>)
    ensures
        outcome(r) == owner_checked(ledger@, node_id, signer@, public_key@),
{
    match ledger.nodes.get(&node_id) {
        None => Err(Error::msg("Node is missing")),
        Some(node) => {
            if !text_same(node.owner_address.as_str(), signer) || !text_same(
                node.owner_public_key.as_str(),
                public_key,
            ) {
                return Err(Error::msg("operation signer does not match Node Owner"));
            }
            Ok(())
        },
    }
}

/// Whether an action may be proposed as a proposal of a kind.
pub open spec fn action_checked(
    kind: GovernanceProposalKind,
    action: ProposalActionModel,
    ledger: LedgerModel,
    now: i64,
) -> Outcome<()> {
    match action {
        ProposalActionModel::SetParameters { changes, effective_epoch } => match batch_accepted(
            ledger,
            changes,
            effective_epoch,
        ) {
            Err(refusal) => Err(refusal),
            Ok(_) => if touches_critical(changes) && kind != GovernanceProposalKind::Critical {
                Err("parameter batch requires a CRITICAL proposal"@)
            } else {
                Ok(())
            },
        },
        ProposalActionModel::PauseEmission { reason } => if trimmed(reason).len() == 0
            || encode_utf8(reason).len() > 256 {
            Err("pause reason must contain between 1 and 256 characters"@)
        } else {
            Ok(())
        },
        ProposalActionModel::ResumeEmission => Ok(()),
        ProposalActionModel::TreasurySpend { recipient, amount, reference_hash } => if kind
            != GovernanceProposalKind::Critical {
            Err("TreasurySpend requires a CRITICAL proposal"@)
        } else {
            match address_checked(recipient) {
                Err(refusal) => Err(refusal),
                Ok(_) => match reference_checked(reference_hash) {
                    Err(refusal) => Err(refusal),
                    Ok(_) => spend_checked(ledger, amount, now),
                },
            }
        },
    }
}

/// Checks whether an action may be proposed.
pub fn validate_governance_proposal_action(
    kind: &GovernanceProposalKind,
    action: &GovernanceProposalAction,
    ledger: &LedgerState,
    now: i64,
) -> (r: Result<()>)
    ensures
        outcome(r) == action_checked(*kind, action.deep_view(), ledger@, now),
{
    match action {
        GovernanceProposalAction::SetParameters { changes, effective_epoch } => {
            validate_governance_parameter_batch(ledger, changes, *effective_epoch)?;
            if changes_touch_critical(changes) && *kind != GovernanceProposalKind::Critical {
                return Err(Error::msg("parameter batch requires a CRITICAL proposal"));
            }
            Ok(())
        },
        GovernanceProposalAction::PauseEmission { reason } => {
            let stripped = trim_text(reason.as_str());
            if stripped.as_str().is_empty() || reason.as_str().as_bytes().len() > 256 {
                return Err(Error::msg("pause reason must contain between 1 and 256 characters"));
            }
            Ok(())
        },
        GovernanceProposalAction::ResumeEmission => Ok(()),
        GovernanceProposalAction::TreasurySpend { recipient, amount, reference_hash } => {
            if *kind != GovernanceProposalKind::Critical {
                return Err(Error::msg("TreasurySpend requires a CRITICAL proposal"));
            }
            validate_address(recipient.as_str())?;
            validate_treasury_reference_hash(reference_hash.as_str())?;
            validate_treasury_spend_amount(ledger, *amount, now)
        },
    }
}

/// The ledger in which the rewards are paused.
pub open spec fn emission_paused(ledger: LedgerModel, reason: Seq<char>, now: i64) -> Outcome<
    LedgerModel,
> {
    if ledger.governance.emission_paused {
        Err("node emission is already paused"@)
    } else {
        Ok(
            heartbeats_reset(
                LedgerModel {
                    governance: GovernanceModel {
                        emission_paused: true,
                        pause_reason: Some(reason),
                        ..ledger.governance
                    },
                    ..ledger
                },
                now,
            ),
        )
    }
}

/// The ledger in which the rewards go on.
pub open spec fn emission_resumed(ledger: LedgerModel, now: i64) -> Outcome<LedgerModel> {
    if !ledger.governance.emission_paused {
        Err("node emission is not paused"@)
    } else {
        Ok(
            heartbeats_reset(
                LedgerModel {
                    governance: GovernanceModel {
                        emission_paused: false,
                        pause_reason: None,
                        ..ledger.governance
                    },
                    ..ledger
                },
                now,
            ),
        )
    }
}

pub fn pause_emission(ledger: &mut LedgerState, reason: &str, now: i64) -> (r: Result<()>)
    ensures
        match emission_paused(old(ledger)@, reason@, now) {
            Ok(next) => r is Ok && final(ledger)@ == next,
            Err(refusal) => (r matches Err(error) && error@ == refusal) && final(ledger)@ == old(
                ledger,
            )@,
        },
{
    if ledger.governance.emission_paused {
        return Err(Error::msg("node emission is already paused"));
    }
    ledger.governance.emission_paused = true;
    ledger.governance.pause_reason = Some(reason.to_owned());
    reset_active_heartbeats(ledger, now);
    Ok(())
}

pub fn resume_emission(ledger: &mut LedgerState, now: i64) -> (r: Result<()>)
    ensures
        match emission_resumed(old(ledger)@, now) {
            Ok(next) => r is Ok && final(ledger)@ == next,
            Err(refusal) => (r matches Err(error) && error@ == refusal) && final(ledger)@ == old(
                ledger,
            )@,
        },
{
    if !ledger.governance.emission_paused {
        return Err(Error::msg("node emission is not paused"));
    }
    ledger.governance.emission_paused = false;
    ledger.governance.pause_reason = None;
    reset_active_heartbeats(ledger, now);
    Ok(())
}

/// The ledger after the action of a proposal has taken effect.
pub open spec fn action_applied(
    ledger: LedgerModel,
    action: ProposalActionModel,
    now: i64,
) -> Outcome<LedgerModel> {
    match action {
        ProposalActionModel::SetParameters { changes, effective_epoch } => batch_applied(
            ledger,
            changes,
            effective_epoch,
        ),
        ProposalActionModel::PauseEmission { reason } => emission_paused(ledger, reason, now),
        ProposalActionModel::ResumeEmission => emission_resumed(ledger, now),
        ProposalActionModel::TreasurySpend { recipient, amount, .. } => treasury_spent(
            ledger,
            recipient,
            amount,
            now,
        ),
    }
}

/// Lets the action of a proposal take effect.
pub fn apply_governance_proposal_action(
    ledger: &mut LedgerState,
    action: &GovernanceProposalAction,
    now: i64,
) -> (r: Result<()>)
    ensures
        match action_applied(old(ledger)@, action.deep_view(), now) {
            Ok(next) => r is Ok && final(ledger)@ == next,
            Err(refusal) => final(ledger)@ == old(ledger)@ && (r matches Err(error) && error@
                == refusal),
        },
{
    match action {
        GovernanceProposalAction::SetParameters { changes, effective_epoch } => {
            apply_governance_parameter_batch(ledger, changes, *effective_epoch)?;
            Ok(())
        },
        GovernanceProposalAction::PauseEmission { reason } => pause_emission(
            ledger,
            reason.as_str(),
            now,
        ),
        GovernanceProposalAction::ResumeEmission => resume_emission(ledger, now),
        GovernanceProposalAction::TreasurySpend { recipient, amount, reference_hash: _ } => {
            spend_treasury(ledger, recipient.as_str(), *amount, now)
        },
    }
}

/// The ledger after a governance action has been noted.
pub open spec fn action_noted(
    ledger: LedgerModel,
    operation_id: Seq<char>,
    action: Seq<char>,
    signer_node_id: u64,
    executed_at: i64,
    payload: PayloadModel,
) -> LedgerModel {
    LedgerModel {
        governance: GovernanceModel {
            last_action_at: Some(executed_at),
            actions: ledger.governance.actions.push(
                ActionModel { operation_id, action, signer_node_id, executed_at, payload },
            ),
            ..ledger.governance
        },
        ..ledger
    }
}

pub fn note_action(
    ledger: &mut LedgerState,
    operation_id: &str,
    action: &str,
    signer_node_id: u64,
    executed_at: i64,
    payload: &Payload,
)
    ensures
        final(ledger)@ == action_noted(
            old(ledger)@,
            operation_id@,
            action@,
            signer_node_id,
            executed_at,
            payload.deep_view(),
        ),
{
    let ghost before = ledger.governance.actions.deep_view();
    let record = GovernanceActionRecord {
        operation_id: operation_id.to_owned(),
        action: action.to_owned(),
        signer_node_id,
        executed_at,
        payload: payload.replicate(),
    };
    let ghost noted = record.deep_view();
    ledger.governance.last_action_at = Some(executed_at);
    ledger.governance.actions.push(record);
    assert(ledger.governance.actions.deep_view() =~= before.push(noted));
}

/// The changes in a payload.
pub open spec fn required_changes(payload: PayloadModel) -> Outcome<Map<Seq<char>, Seq<char>>> {
    if !payload.contains_key("changes"@) {
        Err("governance parameter changes are missing"@)
    } else {
        match payload["changes"@] {
            FieldModel::Changes(changes) => Ok(changes),
            _ => Err(malformed_field("changes"@)),
        }
    }
}

/// The ledger after the first node's owner has governed directly.
pub open spec fn direct_action_applied(
    ledger: LedgerModel,
    public_key: Seq<char>,
    operation: SignedModel,
    operation_id: Seq<char>,
    executed_at: i64,
) -> Outcome<LedgerModel> {
    let action = operation.unsigned.action;
    let payload = operation.unsigned.payload;
    match genesis_fixed(ledger) {
        Err(refusal) => Err(refusal),
        Ok(found) => if found.1.owner_address != operation.unsigned.signer
            || found.1.owner_public_key != public_key || eligible_ids(found.0, executed_at).len()
            >= NODE1_DIRECT_GOVERNANCE_END_THRESHOLD {
            Err("direct governance signer or mode is invalid"@)
        } else {
            let tidied = starved_proposals_cancelled(found.0, executed_at);
            let applied = if action == "SetParameters"@ {
                match required_changes(payload) {
                    Err(refusal) => Err(refusal),
                    Ok(changes) => batch_applied(
                        tidied,
                        changes,
                        field_u64(payload, "effective_epoch"@),
                    ),
                }
            } else if action == "PauseEmission"@ {
                if tidied.governance.emission_paused {
                    Err("node emission is already paused"@)
                } else {
                    match required_text(payload, "reason"@) {
                        Err(refusal) => Err(refusal),
                        Ok(reason) => emission_paused(tidied, reason, executed_at),
                    }
                }
            } else {
                emission_resumed(tidied, executed_at)
            };
            match applied {
                Err(refusal) => Err(refusal),
                Ok(next) => Ok(
                    action_noted(
                        next,
                        operation_id,
                        action,
                        found.1.node_id,
                        executed_at,
                        payload,
                    ),
                ),
            }
        },
    }
}

/// Lets an action of the owner of the first node take effect.
/// On a refusal the ledger may be left half-way.
fn take_direct_action(
    ledger: &mut LedgerState,
    public_key: &str,
    operation: &SignedOperation,
    operation_id: &str,
    executed_at: i64,
) -> (r: Result<()>)
    ensures
        match direct_action_applied(
            old(ledger)@,
            public_key@,
            operation.deep_view(),
            operation_id@,
            executed_at,
        ) {
            Ok(next) => r is Ok && final(ledger)@ == next,
            Err(refusal) => r matches Err(error) && error@ == refusal,
        },
{
    let action = operation.unsigned.action.as_str();
    let payload = &operation.unsigned.payload;
    let genesis = ensure_genesis_authority(ledger)?;
    if !text_same(genesis.owner_address.as_str(), operation.unsigned.signer.as_str())
        || !text_same(genesis.owner_public_key.as_str(), public_key)
        || governance_eligible_node_ids(ledger, executed_at).len()
        >= NODE1_DIRECT_GOVERNANCE_END_THRESHOLD {
        return Err(Error::msg("direct governance signer or mode is invalid"));
    }
    cancel_governance_proposals_below_threshold(ledger, executed_at);
    if text_same(action, "SetParameters") {
        let changes = match payload.get("changes") {
            None => {
                return Err(Error::msg("governance parameter changes are missing"));
            },
            Some(Field::Changes(changes)) => changes,
            Some(_) => {
                return Err(malformed("changes"));
            },
        };
        apply_governance_parameter_batch(ledger, changes, payload.u64_value("effective_epoch"))?;
    } else if text_same(action, "PauseEmission") {
        if ledger.governance.emission_paused {
            return Err(Error::msg("node emission is already paused"));
        }
        let reason = payload_str(payload, "reason")?;
        pause_emission(ledger, reason.as_str(), executed_at)?;
    } else {
        resume_emission(ledger, executed_at)?;
    }
    note_action(ledger, operation_id, action, genesis.node_id, executed_at, payload);
    Ok(())
}

pub fn apply_direct_action(
    ledger: &mut LedgerState,
    public_key: &str,
    operation: &SignedOperation,
    operation_id: &str,
    executed_at: i64,
) -> (r: Result<()>)
    ensures
        match direct_action_applied(
            old(ledger)@,
            public_key@,
            operation.deep_view(),
            operation_id@,
            executed_at,
        ) {
            Ok(next) => r is Ok && final(ledger)@ == next,
            Err(refusal) => final(ledger)@ == old(ledger)@ && (r matches Err(error) && error@
                == refusal),
        },
{
    let mut next = ledger.copy();
    take_direct_action(&mut next, public_key, operation, operation_id, executed_at)?;
    *ledger = next;
    Ok(())
}

/// Rewards are paused once and resumed once: a pause holds until the rewards are resumed, and resuming
/// undoes it. Every active node begins anew with a heartbeat of the time, and no balance changes.
pub proof fn emission_pauses_and_resumes(
    ledger: LedgerModel,
    reason: Seq<char>,
    now: i64,
    later: i64,
)
    requires
        !ledger.governance.emission_paused,
    ensures
        emission_resumed(ledger, now) is Err,
        emission_paused(ledger, reason, now) matches Ok(paused) && {
            &&& paused.governance.emission_paused
            &&& paused.governance.pause_reason == Some(reason)
            &&& emission_paused(paused, reason, later) is Err
            &&& paused.accounts == ledger.accounts
            &&& paused.nodes.dom() == ledger.nodes.dom()
            &&& forall|id: u64| #[trigger]
                ledger.nodes.contains_key(id) ==> {
                    &&& ledger.nodes[id].status == crate::model::NodeStatus::Active
                        ==> paused.nodes[id].last_heartbeat == Some(now)
                    &&& ledger.nodes[id].status != crate::model::NodeStatus::Active ==> paused.nodes[id]
                        == ledger.nodes[id]
                    &&& paused.nodes[id].total_eligible_seconds
                        == ledger.nodes[id].total_eligible_seconds
                    &&& paused.nodes[id].status == ledger.nodes[id].status
                }
            &&& emission_resumed(paused, later) matches Ok(resumed)
                && !resumed.governance.emission_paused && resumed.governance.pause_reason is None
                && resumed.accounts == ledger.accounts
        },
{
    let paused = emission_paused(ledger, reason, now)->Ok_0;
    assert(paused.nodes.dom() =~= ledger.nodes.dom());
}

/// An operation on a node is taken from the node's owner alone, by address and key.
pub proof fn nodes_obey_their_owner(
    ledger: LedgerModel,
    node_id: u64,
    signer: Seq<char>,
    public_key: Seq<char>,
)
    ensures
        owner_checked(ledger, node_id, signer, public_key) is Ok <==> ledger.nodes.contains_key(
            node_id,
        ) && signer == ledger.nodes[node_id].owner_address && public_key
            == ledger.nodes[node_id].owner_public_key,
{
}

} // verus!
