use vstd::prelude::*;
use vstd::string::*;
use vstd::utf8::*;

use crate::crypto::{
    deterministic_mod, drawn_number, full_id, sha256_full_id, signature_checked, verify_bytes,
};
use crate::error::{outcome, Error, Outcome, Result};
use crate::model::{
    copy_values, AvailabilityMode, AvailabilityVerifierRole, ContextModel, EpochContext,
    LedgerModel, LedgerState, ProbeModel, ProbePayload,
};
use crate::protocol::{
    MIN_AUDITED_AVAILABILITY_VALIDATORS, MIN_DECENTRALIZED_AVAILABILITY_VALIDATORS,
};
use crate::sequence::{
    arrange, arranged, arranged_all, filter_ends, filter_step, filtered_are_members, Ranked,
};
use crate::table::Replicate;
use crate::text::{
    decimal, i64_text, join3, join5, signed_decimal, text_less, text_lt, text_same, u64_text,
};

verus! {

/// The name under which the attestations of a node in a slot are kept.
pub open spec fn slot_key(epoch: u64, target: u64, slot: i64) -> Seq<char> {
    decimal(epoch as nat) + ":"@ + decimal(target as nat) + ":"@ + signed_decimal(slot as int)
}

pub fn availability_slot_key(epoch: u64, target_node_id: u64, slot: i64) -> (r: String)
    ensures
        r@ == slot_key(epoch, target_node_id, slot),
{
    join5(
        u64_text(epoch).as_str(),
        ":",
        u64_text(target_node_id).as_str(),
        ":",
        i64_text(slot).as_str(),
    )
}

/// The start and the end of a slot of an epoch.
pub open spec fn slot_bounds(context: ContextModel, slot: i64) -> Outcome<(i64, i64)> {
    let seconds = context.settings.availability_slot_seconds;
    let start = context.started_at + slot * seconds;
    let end = start + seconds;
    if slot < 0 {
        Err("availability slot is outside its Epoch"@)
    } else if !(i64::MIN <= slot * seconds <= i64::MAX) || !(i64::MIN <= start <= i64::MAX) {
        Err("availability slot timestamp overflow"@)
    } else if !(i64::MIN <= end <= i64::MAX) {
        Err("availability slot end overflow"@)
    } else if start < context.started_at || end > context.ended_at {
        Err("availability slot is outside its Epoch"@)
    } else {
        Ok((start as i64, end as i64))
    }
}

/// Computes the start and the end of a slot.
pub fn availability_slot_bounds(context: &EpochContext, slot: i64) -> (r: Result<(i64, i64)>)
    ensures
        outcome(r) == slot_bounds(context.deep_view(), slot),
{
    if slot < 0 {
        return Err(Error::msg("availability slot is outside its Epoch"));
    }
    let seconds: i64 = context.settings.availability_slot_seconds;
    let start: i64 = match slot.checked_mul(seconds) {
        None => {
            return Err(Error::msg("availability slot timestamp overflow"));
        },
        Some(offset) => match context.started_at.checked_add(offset) {
            None => {
                return Err(Error::msg("availability slot timestamp overflow"));
            },
            Some(start) => start,
        },
    };
    let end: i64 = match start.checked_add(seconds) {
        None => {
            return Err(Error::msg("availability slot end overflow"));
        },
        Some(end) => end,
    };
    if start < context.started_at || end > context.ended_at {
        return Err(Error::msg("availability slot is outside its Epoch"));
    }
    Ok((start, end))
}

/// The slot that a time falls in, if the time is within the epoch.
pub open spec fn slot_at(context: ContextModel, timestamp: i64) -> Outcome<Option<i64>> {
    let seconds = context.settings.availability_slot_seconds;
    let elapsed = timestamp - context.started_at;
    if seconds <= 0 {
        Err("availability slot duration is invalid"@)
    } else if timestamp < context.started_at || timestamp >= context.ended_at {
        Ok(None)
    } else if elapsed > i64::MAX {
        Err("availability timestamp overflow"@)
    } else {
        match slot_bounds(context, (elapsed / seconds as int) as i64) {
            Err(refusal) => Err(refusal),
            Ok(_) => Ok(Some((elapsed / seconds as int) as i64)),
        }
    }
}

/// Finds the slot that a time falls in.
pub fn active_availability_slot(context: &EpochContext, timestamp: i64) -> (r: Result<Option<i64>>)
    ensures
        outcome(r) == slot_at(context.deep_view(), timestamp),
{
    let seconds: i64 = context.settings.availability_slot_seconds;
    if seconds <= 0 {
        return Err(Error::msg("availability slot duration is invalid"));
    }
    if timestamp < context.started_at || timestamp >= context.ended_at {
        return Ok(None);
    }
    match timestamp.checked_sub(context.started_at) {
        None => Err(Error::msg("availability timestamp overflow")),
        Some(elapsed) => {
            let slot: i64 = elapsed / seconds;
            availability_slot_bounds(context, slot)?;
            Ok(Some(slot))
        },
    }
}

/// A time falls between the bounds of its slot.
pub proof fn slot_holds_its_times(context: ContextModel, timestamp: i64)
    requires
        slot_at(context, timestamp) matches Ok(Some(_)),
    ensures
        ({
            let slot = slot_at(context, timestamp)->Ok_0.unwrap();
            let bounds = slot_bounds(context, slot)->Ok_0;
            slot_bounds(context, slot) is Ok && bounds.0 <= timestamp < bounds.1
                && context.started_at <= bounds.0 && bounds.1 <= context.ended_at
        }),
{
    let seconds = context.settings.availability_slot_seconds as int;
    let elapsed = timestamp - context.started_at;
    vstd::arithmetic::div_mod::lemma_fundamental_div_mod(elapsed, seconds);
    assert(seconds * (elapsed / seconds) == (elapsed / seconds) * seconds) by (nonlinear_arith);
    assert(elapsed / seconds <= elapsed) by (nonlinear_arith)
        requires
            elapsed >= 0,
            seconds >= 1,
    ;
    assert(elapsed / seconds >= 0) by (nonlinear_arith)
        requires
            elapsed >= 0,
            seconds >= 1,
    ;
}

/// Two different slots of an epoch do not overlap.
pub proof fn slots_are_disjoint(context: ContextModel, earlier: i64, later: i64)
    requires
        earlier < later,
        context.settings.availability_slot_seconds > 0,
        slot_bounds(context, earlier) is Ok,
        slot_bounds(context, later) is Ok,
    ensures
        slot_bounds(context, earlier)->Ok_0.1 <= slot_bounds(context, later)->Ok_0.0,
{
    let seconds = context.settings.availability_slot_seconds as int;
    assert((earlier + 1) * seconds <= later * seconds) by (nonlinear_arith)
        requires
            earlier + 1 <= later,
            seconds > 0,
    ;
    assert((earlier + 1) * seconds == earlier * seconds + seconds) by (nonlinear_arith);
}

/// A node with the lot that it has drawn.
#[derive(Debug)]
pub struct Lot {
    pub lot: String,
    pub node_id: u64,
}

/// The contents of `Lot`.
#[verifier::ext_equal]
pub struct LotModel {
    pub lot: Seq<char>,
    pub node_id: u64,
}

impl DeepView for Lot {
    type V = LotModel;

    open spec fn deep_view(&self) -> LotModel {
        LotModel { lot: self.lot@, node_id: self.node_id }
    }
}

impl Replicate for Lot {
    fn replicate(&self) -> (r: Lot) {
        Lot { lot: self.lot.clone(), node_id: self.node_id }
    }
}

impl Ranked for Lot {
    open spec fn precedes(a: LotModel, b: LotModel) -> bool {
        text_lt(a.lot, b.lot)
    }

    fn comes_before(&self, other: &Lot) -> (r: bool) {
        text_less(self.lot.as_str(), other.lot.as_str())
    }
}

/// What a draw for one target and slot is made from.
pub open spec fn draw_subject(ledger_id: Seq<char>, epoch: u64, target: u64, slot: i64) -> Seq<char> {
    ledger_id + ":"@ + decimal(epoch as nat) + ":"@ + decimal(target as nat) + ":"@
        + signed_decimal(slot as int)
}

/// The lot that a node draws.
pub open spec fn lot_of(domain: Seq<char>, subject: Seq<char>, node_id: u64) -> LotModel {
    LotModel {
        lot: full_id(domain, encode_utf8(subject + ":"@ + decimal(node_id as nat))),
        node_id,
    }
}

/// Some nodes in the order of the lots that they have drawn.
pub open spec fn drawn(domain: Seq<char>, subject: Seq<char>, ids: Seq<u64>) -> Seq<u64> {
    arranged::<Lot>(ids.map_values(|id: u64| lot_of(domain, subject, id))).map_values(
        |lot: LotModel| lot.node_id,
    )
}

fn draw_subject_text(ledger_id: &str, epoch: u64, target: u64, slot: i64) -> (r: String)
    ensures
        r@ == draw_subject(ledger_id@, epoch, target, slot),
{
    let mut text = join5(
        ledger_id,
        ":",
        u64_text(epoch).as_str(),
        ":",
        u64_text(target).as_str(),
    );
    text.append(":");
    text.append(i64_text(slot).as_str());
    text
}

fn draw_lots(domain: &str, subject: &str, ids: &Vec<u64>) -> (r: Vec<u64>)
    ensures
        r@ == drawn(domain@, subject@, ids@),
        r@.len() == ids@.len(),
{
    let ghost lot = |id: u64| lot_of(domain@, subject@, id);
    let mut lots: Vec<Lot> = Vec::new();
    let mut i: usize = 0;
    while i < ids.len()
        invariant
            i <= ids@.len(),
            lots@.len() == i,
            forall|j: int|
                0 <= j < i ==> (#[trigger] lots@[j]).deep_view() == lot_of(
                    domain@,
                    subject@,
                    ids@[j],
                ),
        decreases ids@.len() - i,
    {
        let node_id: u64 = ids[i];
        let text = join3(subject, ":", u64_text(node_id).as_str());
        lots.push(Lot { lot: sha256_full_id(domain, text.as_str().as_bytes()), node_id });
        i = i + 1;
    }
    assert(lots.deep_view() =~= ids@.map_values(lot));
    let sorted = arrange(&lots);
    let mut out: Vec<u64> = Vec::new();
    let mut j: usize = 0;
    while j < sorted.len()
        invariant
            j <= sorted@.len(),
            out@.len() == j,
            forall|k: int| 0 <= k < j ==> out@[k] == sorted.deep_view()[k].node_id,
        decreases sorted@.len() - j,
    {
        out.push(sorted[j].node_id);
        j = j + 1;
    }
    assert(out@ =~= drawn(domain@, subject@, ids@));
    out
}

/// The verifiers of a node in a slot.
#[derive(Debug)]
pub struct AvailabilityVerifierSet {
    pub mode: AvailabilityMode,
    pub primary_ids: Vec<u64>,
    pub primary_quorum: u32,
    pub audit_required: bool,
    pub auditor_ids: Vec<u64>,
    pub audit_quorum: u32,
}

/// The contents of `AvailabilityVerifierSet`.
#[verifier::ext_equal]
pub struct VerifierSetModel {
    pub mode: AvailabilityMode,
    pub primary_ids: Seq<u64>,
    pub primary_quorum: u32,
    pub audit_required: bool,
    pub auditor_ids: Seq<u64>,
    pub audit_quorum: u32,
}

impl DeepView for AvailabilityVerifierSet {
    type V = VerifierSetModel;

    open spec fn deep_view(&self) -> VerifierSetModel {
        VerifierSetModel {
            mode: self.mode,
            primary_ids: self.primary_ids@,
            primary_quorum: self.primary_quorum,
            audit_required: self.audit_required,
            auditor_ids: self.auditor_ids@,
            audit_quorum: self.audit_quorum,
        }
    }
}

/// The set without verifiers: nobody can attest the node in the slot.
pub open spec fn no_verifiers(context: ContextModel) -> VerifierSetModel {
    VerifierSetModel {
        mode: AvailabilityMode::MultiValidator,
        primary_ids: Seq::empty(),
        primary_quorum: context.settings.availability_quorum,
        audit_required: false,
        auditor_ids: Seq::empty(),
        audit_quorum: 0,
    }
}

/// Every node but one.
pub open spec fn all_but(except: u64) -> spec_fn(u64) -> bool {
    |id: u64| id != except
}

/// The validators that may verify a target, in the order of their lots.
pub open spec fn primary_draw(
    ledger: LedgerModel,
    context: ContextModel,
    target: u64,
    slot: i64,
) -> Seq<u64> {
    drawn(
        "availability-primary-selector-v1"@,
        draw_subject(ledger.ledger_id, context.epoch, target, slot),
        context.validator_ids.filter(all_but(target)),
    )
}

/// Whether a slot of a target has been sampled for an audit.
pub open spec fn audit_sampled(
    ledger: LedgerModel,
    context: ContextModel,
    target: u64,
    slot: i64,
) -> bool {
    drawn_number(
        "availability-audit-sample-v1"@,
        encode_utf8(draw_subject(ledger.ledger_id, context.epoch, target, slot)),
        10_000,
    ) < context.settings.availability_audit_rate_bps
}

/// The verifiers of a node in a slot: the first node while it is trusted to attest alone, else
/// validators that are drawn by lot, and for sampled slots auditors drawn from the others.
pub open spec fn verifier_set(
    ledger: LedgerModel,
    context: ContextModel,
    target: u64,
    slot: i64,
) -> VerifierSetModel {
    let settings = context.settings;
    let candidates = primary_draw(ledger, context, target, slot);
    let primaries = arranged::<u64>(
        candidates.take(settings.availability_verifier_count as int),
    );
    let others = drawn(
        "availability-auditor-selector-v1"@,
        draw_subject(ledger.ledger_id, context.epoch, target, slot),
        candidates.filter(|id: u64| !primaries.contains(id)),
    );
    let audited = audit_sampled(ledger, context, target, slot) && context.validator_ids.len()
        >= MIN_AUDITED_AVAILABILITY_VALIDATORS && others.len()
        >= settings.availability_auditor_count && settings.availability_audit_quorum
        <= settings.availability_auditor_count;
    if context.availability_mode == AvailabilityMode::Node1Trusted {
        VerifierSetModel {
            mode: AvailabilityMode::Node1Trusted,
            primary_ids: if ledger.nodes.contains_key(1) {
                seq![1u64]
            } else {
                Seq::empty()
            },
            primary_quorum: 1,
            audit_required: false,
            auditor_ids: Seq::empty(),
            audit_quorum: 0,
        }
    } else if context.validator_ids.len() < MIN_DECENTRALIZED_AVAILABILITY_VALIDATORS
        || candidates.len() < settings.availability_verifier_count || settings.availability_quorum
        > settings.availability_verifier_count {
        no_verifiers(context)
    } else {
        VerifierSetModel {
            mode: AvailabilityMode::MultiValidator,
            primary_ids: primaries,
            primary_quorum: settings.availability_quorum,
            audit_required: audited,
            auditor_ids: if audited {
                arranged::<u64>(others.take(settings.availability_auditor_count as int))
            } else {
                Seq::empty()
            },
            audit_quorum: if audited {
                settings.availability_audit_quorum
            } else {
                0
            },
        }
    }
}

fn ids_except(ids: &Vec<u64>, except: u64) -> (r: Vec<u64>)
    ensures
        r@ == ids@.filter(all_but(except)),
{
    let ghost chosen = all_but(except);
    let mut kept: Vec<u64> = Vec::new();
    let mut i: usize = 0;
    proof {
        filter_ends(ids@, chosen);
    }
    while i < ids.len()
        invariant
            i <= ids@.len(),
            chosen == all_but(except),
            kept@ == ids@.take(i as int).filter(chosen),
        decreases ids@.len() - i,
    {
        proof {
            filter_step(ids@, i as int, chosen);
        }
        if ids[i] != except {
            kept.push(ids[i]);
        }
        i = i + 1;
    }
    proof {
        filter_ends(ids@, chosen);
    }
    kept
}

fn sort_ids(ids: &Vec<u64>) -> (r: Vec<u64>)
    ensures
        r@ == arranged::<u64>(ids@),
{
    assert(ids.deep_view() =~= ids@);
    let sorted = arrange(ids);
    assert(sorted.deep_view() =~= sorted@);
    sorted
}

fn take_ids(ids: &Vec<u64>, count: usize) -> (r: Vec<u64>)
    requires
        count <= ids@.len(),
    ensures
        r@ == ids@.take(count as int),
{
    let mut copy = copy_values(ids);
    copy.truncate(count);
    assert(copy@ =~= ids@.take(count as int));
    copy
}

fn without_verifiers(context: &EpochContext) -> (r: AvailabilityVerifierSet)
    ensures
        r.deep_view() == no_verifiers(context.deep_view()),
{
    let set = AvailabilityVerifierSet {
        mode: AvailabilityMode::MultiValidator,
        primary_ids: Vec::new(),
        primary_quorum: context.settings.availability_quorum,
        audit_required: false,
        auditor_ids: Vec::new(),
        audit_quorum: 0,
    };
    assert(set.primary_ids@ =~= Seq::<u64>::empty());
    assert(set.auditor_ids@ =~= Seq::<u64>::empty());
    set
}

/// Draws the verifiers of a node in a slot.
pub fn availability_verifier_set(
    ledger: &LedgerState,
    context: &EpochContext,
    target_node_id: u64,
    slot: i64,
) -> (r: AvailabilityVerifierSet)
    ensures
        r.deep_view() == verifier_set(ledger@, context.deep_view(), target_node_id, slot),
{
    if context.availability_mode == AvailabilityMode::Node1Trusted {
        let mut primary_ids: Vec<u64> = Vec::new();
        if ledger.nodes.contains_key(&1) {
            primary_ids.push(1);
        }
        let set = AvailabilityVerifierSet {
            mode: AvailabilityMode::Node1Trusted,
            primary_ids,
            primary_quorum: 1,
            audit_required: false,
            auditor_ids: Vec::new(),
            audit_quorum: 0,
        };
        assert(set.auditor_ids@ =~= Seq::<u64>::empty());
        assert(set.primary_ids@ =~= verifier_set(
            ledger@,
            context.deep_view(),
            target_node_id,
            slot,
        ).primary_ids);
        return set;
    }
    if context.validator_ids.len() < MIN_DECENTRALIZED_AVAILABILITY_VALIDATORS {
        return without_verifiers(context);
    }
    let subject = draw_subject_text(
        ledger.ledger_id.as_str(),
        context.epoch,
        target_node_id,
        slot,
    );
    let eligible = ids_except(&context.validator_ids, target_node_id);
    let candidates = draw_lots(
        "availability-primary-selector-v1",
        subject.as_str(),
        &eligible,
    );
    let primary_count: usize = context.settings.availability_verifier_count as usize;
    if candidates.len() < primary_count || context.settings.availability_quorum
        > context.settings.availability_verifier_count {
        return without_verifiers(context);
    }
    let primary_ids = sort_ids(&take_ids(&candidates, primary_count));
    let sampled = deterministic_mod(
        "availability-audit-sample-v1",
        subject.as_str().as_bytes(),
        10_000,
    ) < context.settings.availability_audit_rate_bps as u64;
    let others = draw_lots(
        "availability-auditor-selector-v1",
        subject.as_str(),
        &crate::lifecycle::without_ids(&candidates, &primary_ids),
    );
    let auditor_count: usize = context.settings.availability_auditor_count as usize;
    let audit_required = sampled && context.validator_ids.len()
        >= MIN_AUDITED_AVAILABILITY_VALIDATORS && others.len() >= auditor_count
        && context.settings.availability_audit_quorum
        <= context.settings.availability_auditor_count;
    let auditor_ids: Vec<u64> = if audit_required {
        sort_ids(&take_ids(&others, auditor_count))
    } else {
        Vec::new()
    };
    let set = AvailabilityVerifierSet {
        mode: AvailabilityMode::MultiValidator,
        primary_ids,
        primary_quorum: context.settings.availability_quorum,
        audit_required,
        auditor_ids,
        audit_quorum: if audit_required {
            context.settings.availability_audit_quorum
        } else {
            0
        },
    };
    assert(set.deep_view().auditor_ids =~= verifier_set(
        ledger@,
        context.deep_view(),
        target_node_id,
        slot,
    ).auditor_ids);
    set
}

proof fn drawn_all(
    domain: Seq<char>,
    subject: Seq<char>,
    ids: Seq<u64>,
    met: spec_fn(u64) -> bool,
)
    requires
        forall|i: int| 0 <= i < ids.len() ==> met(#[trigger] ids[i]),
    ensures
        drawn(domain, subject, ids).len() == ids.len(),
        forall|i: int| 0 <= i < ids.len() ==> met(#[trigger] drawn(domain, subject, ids)[i]),
{
    let lots = ids.map_values(|id: u64| lot_of(domain, subject, id));
    let holds = |lot: LotModel| met(lot.node_id);
    assert forall|i: int| 0 <= i < lots.len() implies holds(#[trigger] lots[i]) by {
        assert(met(ids[i]));
    }
    arranged_all::<Lot>(lots, holds);
    let sorted = arranged::<Lot>(lots);
    assert forall|i: int| 0 <= i < ids.len() implies met(
        #[trigger] drawn(domain, subject, ids)[i],
    ) by {
        assert(holds(sorted[i]));
    }
}

/// In the decentralized mode a node never verifies itself, nobody both attests and audits a slot,
/// and as many are drawn as the settings ask for.
pub proof fn verifiers_are_independent(
    ledger: LedgerModel,
    context: ContextModel,
    target: u64,
    slot: i64,
)
    requires
        context.availability_mode == AvailabilityMode::MultiValidator,
    ensures
        ({
            let set = verifier_set(ledger, context, target, slot);
            &&& !set.primary_ids.contains(target)
            &&& !set.auditor_ids.contains(target)
            &&& forall|id: u64|
                #![trigger set.primary_ids.contains(id)]
                #![trigger set.auditor_ids.contains(id)]
                set.primary_ids.contains(id) ==> !set.auditor_ids.contains(id)
            &&& set.primary_ids.len() == 0 || set.primary_ids.len()
                == context.settings.availability_verifier_count
            &&& set.audit_required ==> set.auditor_ids.len()
                == context.settings.availability_auditor_count && set.audit_quorum
                <= set.auditor_ids.len()
            &&& set.primary_ids.len() > 0 ==> set.primary_quorum <= set.primary_ids.len()
        }),
{
    let set = verifier_set(ledger, context, target, slot);
    let settings = context.settings;
    let subject = draw_subject(ledger.ledger_id, context.epoch, target, slot);
    let eligible = context.validator_ids.filter(all_but(target));
    filtered_are_members(context.validator_ids, all_but(target));
    let other = |id: u64| id != target;
    assert forall|i: int| 0 <= i < eligible.len() implies other(#[trigger] eligible[i]) by {
        assert(all_but(target)(eligible[i]));
    }
    drawn_all("availability-primary-selector-v1"@, subject, eligible, other);
    let candidates = primary_draw(ledger, context, target, slot);
    let count = settings.availability_verifier_count as int;
    if !(context.validator_ids.len() < MIN_DECENTRALIZED_AVAILABILITY_VALIDATORS
        || candidates.len() < count || settings.availability_quorum
        > settings.availability_verifier_count) {
        let front = candidates.take(count);
        assert forall|i: int| 0 <= i < front.len() implies other(#[trigger] front[i]) by {
            assert(other(candidates[i]));
        }
        arranged_all::<u64>(front, other);
        let primaries = arranged::<u64>(front);
        if set.primary_ids.contains(target) {
            let i = choose|i: int| 0 <= i < primaries.len() && primaries[i] == target;
            assert(other(primaries[i]));
        }
        let apart = |id: u64| !primaries.contains(id);
        let rest = candidates.filter(apart);
        filtered_are_members(candidates, apart);
        let clear = |id: u64| id != target && !primaries.contains(id);
        assert forall|i: int| 0 <= i < rest.len() implies clear(#[trigger] rest[i]) by {
            assert(apart(rest[i]));
            assert(candidates.contains(rest[i]));
            let j = choose|j: int| 0 <= j < candidates.len() && candidates[j] == rest[i];
            assert(other(candidates[j]));
        }
        drawn_all("availability-auditor-selector-v1"@, subject, rest, clear);
        let others = drawn("availability-auditor-selector-v1"@, subject, rest);
        if set.audit_required {
            let auditors = others.take(settings.availability_auditor_count as int);
            assert forall|i: int| 0 <= i < auditors.len() implies clear(
                #[trigger] auditors[i],
            ) by {
                assert(clear(others[i]));
            }
            arranged_all::<u64>(auditors, clear);
            let sorted = arranged::<u64>(auditors);
            assert(set.auditor_ids == sorted);
            if set.auditor_ids.contains(target) {
                let i = choose|i: int| 0 <= i < sorted.len() && sorted[i] == target;
                assert(clear(sorted[i]));
            }
            assert forall|id: u64| set.primary_ids.contains(id) implies
                !set.auditor_ids.contains(id) by {
                if set.auditor_ids.contains(id) {
                    let i = choose|i: int| 0 <= i < sorted.len() && sorted[i] == id;
                    assert(clear(sorted[i]));
                }
            }
        }
    }
}

/// How a role is written.
pub open spec fn role_text(role: AvailabilityVerifierRole) -> Seq<char> {
    match role {
        AvailabilityVerifierRole::Primary => "PRIMARY"@,
        AvailabilityVerifierRole::Audit => "AUDIT"@,
    }
}

pub fn availability_role_text(role: AvailabilityVerifierRole) -> (r: &'static str)
    ensures
        r@ == role_text(role),
{
    match role {
        AvailabilityVerifierRole::Primary => "PRIMARY",
        AvailabilityVerifierRole::Audit => "AUDIT",
    }
}

/// What a verifier signs to get its ticket.
pub open spec fn ticket_text(
    ledger_id: Seq<char>,
    epoch: u64,
    slot: i64,
    target: u64,
    verifier: u64,
    role: AvailabilityVerifierRole,
) -> Seq<char> {
    "mrk-availability-ticket-v1:"@ + ledger_id + ":"@ + decimal(epoch as nat) + ":"@
        + signed_decimal(slot as int) + ":"@ + decimal(target as nat) + ":"@ + decimal(
        verifier as nat,
    ) + ":"@ + role_text(role)
}

/// Writes what a verifier signs to get its ticket.
pub fn availability_ticket_message(
    ledger_id: &str,
    epoch: u64,
    slot: i64,
    target_node_id: u64,
    verifier_node_id: u64,
    role: AvailabilityVerifierRole,
) -> (r: String)
    ensures
        r@ == ticket_text(ledger_id@, epoch, slot, target_node_id, verifier_node_id, role),
{
    let mut text = join5(
        "mrk-availability-ticket-v1:",
        ledger_id,
        ":",
        u64_text(epoch).as_str(),
        ":",
    );
    text.append(i64_text(slot).as_str());
    text.append(":");
    text.append(u64_text(target_node_id).as_str());
    text.append(":");
    text.append(u64_text(verifier_node_id).as_str());
    text.append(":");
    text.append(availability_role_text(role));
    text
}

/// The challenge that a ticket stands for.
pub open spec fn challenge_of(ticket: Seq<char>) -> Seq<char> {
    full_id("availability-challenge-v1"@, encode_utf8(ticket))
}

pub fn availability_challenge(ticket_signature: &str) -> (r: String)
    ensures
        r@ == challenge_of(ticket_signature@),
{
    sha256_full_id("availability-challenge-v1", ticket_signature.as_bytes())
}

/// The first and the last second of the window in which a role probes, counted from the start of
/// the slot.
pub open spec fn probe_window(seconds: i64, role: AvailabilityVerifierRole) -> (int, int) {
    match role {
        AvailabilityVerifierRole::Primary => (2, seconds / 2 - 10),
        AvailabilityVerifierRole::Audit => (seconds / 2 + 2, seconds - 10),
    }
}

/// The time at which the holder of a ticket probes.
pub open spec fn scheduled_at(
    ticket: Seq<char>,
    slot_start: i64,
    seconds: i64,
    role: AvailabilityVerifierRole,
) -> Outcome<i64> {
    let window = probe_window(seconds, role);
    let at = slot_start + window.0 + drawn_number(
        "availability-schedule-v1"@,
        encode_utf8(ticket),
        (window.1 - window.0 + 1) as u64,
    );
    if seconds < 60 {
        Err("Availability requires slots of at least 60 seconds"@)
    } else if at > i64::MAX {
        Err("availability Probe schedule overflow"@)
    } else {
        Ok(at as i64)
    }
}

/// Computes the time at which the holder of a ticket probes.
pub fn availability_scheduled_at(
    ticket_signature: &str,
    slot_start: i64,
    slot_seconds: i64,
    role: AvailabilityVerifierRole,
) -> (r: Result<i64>)
    ensures
        outcome(r) == scheduled_at(ticket_signature@, slot_start, slot_seconds, role),
{
    if slot_seconds < 60 {
        return Err(Error::msg("Availability requires slots of at least 60 seconds"));
    }
    let (start, end): (i64, i64) = match role {
        AvailabilityVerifierRole::Primary => (2, slot_seconds / 2 - 10),
        AvailabilityVerifierRole::Audit => (slot_seconds / 2 + 2, slot_seconds - 10),
    };
    let width: u64 = (end - start + 1) as u64;
    let drawn_at: u64 = deterministic_mod(
        "availability-schedule-v1",
        ticket_signature.as_bytes(),
        width,
    );
    let offset: i64 = start + drawn_at as i64;
    match slot_start.checked_add(offset) {
        Some(at) => Ok(at),
        None => Err(Error::msg("availability Probe schedule overflow")),
    }
}

/// Whoever attests probes in the first half of the slot, whoever audits in the second, and both
/// before the slot ends.
pub proof fn probes_stay_in_their_half(
    ticket: Seq<char>,
    slot_start: i64,
    seconds: i64,
    role: AvailabilityVerifierRole,
)
    requires
        scheduled_at(ticket, slot_start, seconds, role) is Ok,
    ensures
        ({
            let at = scheduled_at(ticket, slot_start, seconds, role)->Ok_0;
            match role {
                AvailabilityVerifierRole::Primary => slot_start + 2 <= at <= slot_start + seconds
                    / 2 - 10,
                AvailabilityVerifierRole::Audit => slot_start + seconds / 2 + 2 <= at <= slot_start
                    + seconds - 10,
            }
        }),
{
    let window = probe_window(seconds, role);
    let width = (window.1 - window.0 + 1) as u64;
    assert(width > 0);
    assert(0 <= drawn_number("availability-schedule-v1"@, encode_utf8(ticket), width) < width);
}

/// What a relay signs in answer to a probe.
pub open spec fn probe_text(node_id: u64, timestamp: i64, challenge: Seq<char>) -> Seq<char> {
    "mrk-probe-v1:"@ + decimal(node_id as nat) + ":"@ + signed_decimal(timestamp as int) + ":"@
        + challenge
}

/// Writes what a relay signs in answer to a probe.
pub fn probe_message(node_id: u64, timestamp: i64, challenge: &str) -> (r: String)
    ensures
        r@ == probe_text(node_id, timestamp, challenge@),
{
    let mut text = join5(
        "mrk-probe-v1:",
        u64_text(node_id).as_str(),
        ":",
        i64_text(timestamp).as_str(),
        ":",
    );
    text.append(challenge);
    text
}

/// Whether an answer to a probe comes from the node that it names.
pub open spec fn probe_checked(ledger: LedgerModel, probe: ProbeModel) -> Outcome<()> {
    let length = encode_utf8(probe.challenge).len();
    if probe.protocol != "mrk-probe-v1"@ {
        Err("unsupported node Probe protocol"@)
    } else if length < 16 || length > 512 {
        Err("node Probe challenge has an invalid length"@)
    } else if !ledger.nodes.contains_key(probe.node_id) {
        Err("node Probe references an unknown node"@)
    } else if ledger.nodes[probe.node_id].relay_public_key != probe.relay_public_key {
        Err("node Probe Relay key does not match registry"@)
    } else {
        signature_checked(
            probe.relay_public_key,
            encode_utf8(probe_text(probe.node_id, probe.timestamp, probe.challenge)),
            probe.signature,
        )
    }
}

/// Checks that an answer to a probe comes from the node that it names.
pub fn verify_node_probe_payload(ledger: &LedgerState, response: &ProbePayload) -> (r: Result<()>)
    ensures
        outcome(r) == probe_checked(ledger@, response.deep_view()),
{
    if !text_same(response.protocol.as_str(), "mrk-probe-v1") {
        return Err(Error::msg("unsupported node Probe protocol"));
    }
    let length: usize = response.challenge.as_str().as_bytes().len();
    if length < 16 || length > 512 {
        return Err(Error::msg("node Probe challenge has an invalid length"));
    }
    match ledger.nodes.get(&response.node_id) {
        None => Err(Error::msg("node Probe references an unknown node")),
        Some(node) => {
            if !text_same(node.relay_public_key.as_str(), response.relay_public_key.as_str()) {
                return Err(Error::msg("node Probe Relay key does not match registry"));
            }
            let message = probe_message(
                response.node_id,
                response.timestamp,
                response.challenge.as_str(),
            );
            verify_bytes(
                node.relay_public_key.as_str(),
                message.as_str().as_bytes(),
                response.signature.as_str(),
            )
        },
    }
}

proof fn lots_are_in_order()
    ensures
        forall|a: LotModel, b: LotModel| #[trigger] Lot::precedes(a, b) ==> !Lot::precedes(b, a),
        forall|a: LotModel, b: LotModel, c: LotModel|
            #![trigger Lot::precedes(b, a), Lot::precedes(c, b)]
            !Lot::precedes(b, a) && !Lot::precedes(c, b) ==> !Lot::precedes(c, a),
{
    assert forall|a: LotModel, b: LotModel| #[trigger] Lot::precedes(a, b) implies !Lot::precedes(
        b,
        a,
    ) by {
        crate::text::texts_are_in_order(a.lot, b.lot, a.lot);
    }
    assert forall|a: LotModel, b: LotModel, c: LotModel|
        #![trigger Lot::precedes(b, a), Lot::precedes(c, b)]
        !Lot::precedes(b, a) && !Lot::precedes(c, b) implies !Lot::precedes(c, a) by {
        crate::text::texts_are_in_order(a.lot, b.lot, c.lot);
        crate::text::texts_are_in_order(b.lot, c.lot, a.lot);
        crate::text::texts_are_in_order(c.lot, a.lot, b.lot);
    }
}

/// Nodes that have drawn lots are the same nodes, and a lower lot stands first.
proof fn draws_follow_the_lots(domain: Seq<char>, subject: Seq<char>, ids: Seq<u64>)
    requires
        ids.no_duplicates(),
    ensures
        drawn(domain, subject, ids).no_duplicates(),
        drawn(domain, subject, ids).len() == ids.len(),
        forall|id: u64| #[trigger] drawn(domain, subject, ids).contains(id) <==> ids.contains(id),
        forall|i: int, j: int|
            #![trigger drawn(domain, subject, ids)[i], drawn(domain, subject, ids)[j]]
            0 <= i < j < ids.len() ==> !text_lt(
                lot_of(domain, subject, drawn(domain, subject, ids)[j]).lot,
                lot_of(domain, subject, drawn(domain, subject, ids)[i]).lot,
            ),
{
    let lots = ids.map_values(|id: u64| lot_of(domain, subject, id));
    assert(lots.no_duplicates()) by {
        assert forall|i: int, j: int| 0 <= i < lots.len() && 0 <= j < lots.len() && i
            != j implies lots[i] != lots[j] by {
            assert(lots[i].node_id == ids[i]);
            assert(lots[j].node_id == ids[j]);
        }
    }
    crate::committee::arranged_stay_unique::<Lot>(lots);
    lots_are_in_order();
    crate::sequence::arranged_are_in_order::<Lot>(lots);
    let sorted = arranged::<Lot>(lots);
    let order = drawn(domain, subject, ids);
    assert forall|i: int| 0 <= i < order.len() implies sorted[i] == lot_of(
        domain,
        subject,
        #[trigger] order[i],
    ) && ids.contains(order[i]) by {
        assert(sorted.contains(sorted[i]));
        assert(lots.contains(sorted[i]));
        let j = choose|j: int| 0 <= j < lots.len() && lots[j] == sorted[i];
        assert(lots[j].node_id == ids[j]);
        assert(order[i] == sorted[i].node_id);
    }
    assert forall|i: int, j: int| 0 <= i < order.len() && 0 <= j < order.len() && i
        != j implies order[i] != order[j] by {
        if order[i] == order[j] {
            assert(sorted[i] == sorted[j]);
        }
    }
    assert forall|id: u64| #[trigger] order.contains(id) <==> ids.contains(id) by {
        if order.contains(id) {
            let i = choose|i: int| 0 <= i < order.len() && order[i] == id;
            assert(ids.contains(order[i]));
        }
        if ids.contains(id) {
            let j = choose|j: int| 0 <= j < ids.len() && ids[j] == id;
            assert(lots.contains(lots[j]));
            assert(sorted.contains(lots[j]));
            let i = choose|i: int| 0 <= i < sorted.len() && sorted[i] == lots[j];
            assert(order[i] == id);
        }
    }
    assert forall|i: int, j: int|
        #![trigger order[i], order[j]]
        0 <= i < j < ids.len() implies !text_lt(
        lot_of(domain, subject, order[j]).lot,
        lot_of(domain, subject, order[i]).lot,
    ) by {
        assert(!Lot::precedes(sorted[j], sorted[i]));
    }
}

/// Who attests a slot in the decentralized mode is drawn by lot from the committee of the epoch: of two
/// members other than the node itself the one with the lower lot attests whenever the other one does.
/// As soon as the committee has seven members and enough of them besides the node, as many attest as the
/// settings ask for, each once, and only members.
pub proof fn attesting_validators_are_drawn(
    ledger: LedgerModel,
    context: ContextModel,
    target: u64,
    slot: i64,
    a: u64,
    b: u64,
)
    requires
        context.availability_mode == AvailabilityMode::MultiValidator,
        context.validator_ids.no_duplicates(),
        context.validator_ids.contains(a),
        context.validator_ids.contains(b),
        a != target,
        b != target,
        ({
            let subject = draw_subject(ledger.ledger_id, context.epoch, target, slot);
            text_lt(
                lot_of("availability-primary-selector-v1"@, subject, a).lot,
                lot_of("availability-primary-selector-v1"@, subject, b).lot,
            )
        }),
    ensures
        ({
            let set = verifier_set(ledger, context, target, slot);
            let count = context.settings.availability_verifier_count;
            &&& set.primary_ids.contains(b) ==> set.primary_ids.contains(a)
            &&& set.primary_ids.no_duplicates()
            &&& forall|id: u64| #[trigger]
                set.primary_ids.contains(id) ==> context.validator_ids.contains(id) && id != target
            &&& 7 <= context.validator_ids.len() && count < context.validator_ids.len()
                && context.settings.availability_quorum <= count ==> set.primary_ids.len() == count
                && set.primary_quorum == context.settings.availability_quorum
            &&& context.validator_ids.len() < 7 ==> set.primary_ids.len() == 0
        }),
{
    let set = verifier_set(ledger, context, target, slot);
    let domain = "availability-primary-selector-v1"@;
    let subject = draw_subject(ledger.ledger_id, context.epoch, target, slot);
    let eligible = context.validator_ids.filter(all_but(target));
    crate::sequence::filtered_are_chosen(context.validator_ids, all_but(target));
    draws_follow_the_lots(domain, subject, eligible);
    let candidates = primary_draw(ledger, context, target, slot);
    assert(candidates == drawn(domain, subject, eligible));
    let count = context.settings.availability_verifier_count as int;
    assert(eligible.len() + 1 >= context.validator_ids.len()) by {
        context.validator_ids.unique_seq_to_set();
        eligible.unique_seq_to_set();
        let all = context.validator_ids.to_set();
        assert(all.subset_of(eligible.to_set().insert(target))) by {
            assert forall|id: u64| all.contains(id) implies eligible.to_set().insert(
                target,
            ).contains(id) by {
                if id != target {
                    assert(context.validator_ids.contains(id));
                    assert(all_but(target)(id));
                    assert(eligible.contains(id));
                }
            }
        }
        vstd::set_lib::lemma_len_subset(all, eligible.to_set().insert(target));
    }
    if candidates.len() >= count {
        let front = candidates.take(count);
        assert(front.no_duplicates());
        crate::committee::arranged_stay_unique::<u64>(front);
        let primaries = arranged::<u64>(front);
        assert forall|id: u64| #[trigger] primaries.contains(id) implies
            context.validator_ids.contains(id) && id != target by {
            assert(front.contains(id));
            let i = choose|i: int| 0 <= i < front.len() && front[i] == id;
            assert(candidates[i] == id);
            assert(candidates.contains(id));
            assert(eligible.contains(id));
            assert(all_but(target)(id));
        }
        assert(eligible.contains(a)) by {
            assert(all_but(target)(a));
        }
        assert(candidates.contains(a));
        let i = choose|i: int| 0 <= i < candidates.len() && candidates[i] == a;
        if primaries.contains(b) {
            assert(front.contains(b));
            let j = choose|j: int| 0 <= j < front.len() && front[j] == b;
            assert(candidates[j] == b);
            if j < i {
                assert(!text_lt(
                    lot_of(domain, subject, candidates[i]).lot,
                    lot_of(domain, subject, candidates[j]).lot,
                ));
            }
            assert(front[i] == a);
            assert(front.contains(a));
            assert(primaries.contains(a));
        }
    }
}

/// While the first node is trusted to attest alone, it does, and nobody audits.
pub proof fn first_node_attests_alone(
    ledger: LedgerModel,
    context: ContextModel,
    target: u64,
    slot: i64,
)
    requires
        context.availability_mode == AvailabilityMode::Node1Trusted,
        ledger.nodes.contains_key(1),
    ensures
        ({
            let set = verifier_set(ledger, context, target, slot);
            &&& set.primary_ids.len() == 1 && set.primary_ids[0] == 1
            &&& set.primary_quorum == 1
            &&& !set.audit_required
            &&& set.auditor_ids.len() == 0
        }),
{
}

/// An answer to a probe counts only if the node that it names has signed it with its relay key.
pub proof fn answers_are_signed_by_the_node(ledger: LedgerModel, probe: ProbeModel)
    requires
        probe_checked(ledger, probe) is Ok,
    ensures
        ledger.nodes.contains_key(probe.node_id),
        signature_checked(
            ledger.nodes[probe.node_id].relay_public_key,
            encode_utf8(probe_text(probe.node_id, probe.timestamp, probe.challenge)),
            probe.signature,
        ) is Ok,
        16 <= encode_utf8(probe.challenge).len() <= 512,
{
}

} // verus!
