use vstd::prelude::*;
use vstd::string::*;

use crate::error::{outcome, Outcome, Result};
use crate::history::{chain_checked, verify_blockchain_inner};
use crate::ip::{ip_text, write_ip, IpAddress};
use crate::model::{LedgerModel, LedgerState, LocalNodeConfig, NodeModel, NodeRecord, NodeStatus};
use crate::number::{clamped_i64, saturating_sub_i64};
use crate::protocol::{GENESIS_TREASURY_ALLOCATION, MAX_SUPPLY};
use crate::registry::{local_record, node_record};
use crate::text::{
    decimal, i64_text, join2, join3, join5, signed_decimal, text_same, u128_text, usize_text,
};
use crate::views::{DiagnosticCheck, DiagnosticCheckModel, DiagnosticReport, DiagnosticReportModel};

verus! {

/// What was found in one respect.
pub open spec fn check_of(name: Seq<char>, ok: bool, detail: Seq<char>) -> DiagnosticCheckModel {
    DiagnosticCheckModel { name, ok, detail }
}

fn make_check(name: &str, ok: bool, detail: String) -> (r: DiagnosticCheck)
    ensures
        r.deep_view() == check_of(name@, ok, detail@),
{
    DiagnosticCheck { name: name.to_owned(), ok, detail }
}

/// Whether all is well.
pub open spec fn all_ok(checks: Seq<DiagnosticCheckModel>) -> bool {
    forall|i: int| 0 <= i < checks.len() ==> (#[trigger] checks[i]).ok
}

impl DiagnosticReport {
    /// Makes the report of some checks.
    pub fn new(checks: Vec<DiagnosticCheck>) -> (r: DiagnosticReport)
        ensures
            r.deep_view() == (DiagnosticReportModel {
                ok: all_ok(checks.deep_view()),
                checks: checks.deep_view(),
            }),
    {
        let mut ok = true;
        let mut i: usize = 0;
        while i < checks.len()
            invariant
                i <= checks@.len(),
                ok == (forall|j: int| 0 <= j < i ==> (#[trigger] checks.deep_view()[j]).ok),
            decreases checks@.len() - i,
        {
            assert(checks.deep_view()[i as int] == checks@[i as int].deep_view());
            ok = ok && checks[i].ok;
            i = i + 1;
        }
        DiagnosticReport { ok, checks }
    }
}

/// Whether all that can be issued is either issued or left.
pub open spec fn supply_check(ledger: LedgerModel) -> DiagnosticCheckModel {
    check_of(
        "supply_invariant"@,
        ledger.pool_remaining + ledger.lifetime_minted == MAX_SUPPLY,
        "pool_remaining="@ + decimal(ledger.pool_remaining as nat) + " lifetime_minted="@ + decimal(
            ledger.lifetime_minted as nat,
        ) + " max_supply="@ + decimal(MAX_SUPPLY as nat),
    )
}

fn check_supply(ledger: &LedgerState) -> (r: DiagnosticCheck)
    ensures
        r.deep_view() == supply_check(ledger@),
{
    let ok = match ledger.pool_remaining.checked_add(ledger.lifetime_minted) {
        Some(total) => total == MAX_SUPPLY,
        None => false,
    };
    let mut text = join5(
        "pool_remaining=",
        u128_text(ledger.pool_remaining).as_str(),
        " lifetime_minted=",
        u128_text(ledger.lifetime_minted).as_str(),
        " max_supply=",
    );
    text.append(u128_text(MAX_SUPPLY).as_str());
    make_check("supply_invariant", ok, text)
}

/// Whether the treasury got its share at the beginning, and no more.
pub open spec fn allocation_check(ledger: LedgerModel) -> DiagnosticCheckModel {
    check_of(
        "genesis_treasury_invariant"@,
        ledger.genesis_treasury_minted == GENESIS_TREASURY_ALLOCATION && ledger.lifetime_minted
            >= ledger.genesis_treasury_minted,
        "genesis_treasury_minted="@ + decimal(ledger.genesis_treasury_minted as nat)
            + " expected="@ + decimal(GENESIS_TREASURY_ALLOCATION as nat) + " current_treasury="@
            + decimal(ledger.treasury as nat),
    )
}

fn check_allocation(ledger: &LedgerState) -> (r: DiagnosticCheck)
    ensures
        r.deep_view() == allocation_check(ledger@),
{
    let ok = ledger.genesis_treasury_minted == GENESIS_TREASURY_ALLOCATION
        && ledger.lifetime_minted >= ledger.genesis_treasury_minted;
    let mut text = join5(
        "genesis_treasury_minted=",
        u128_text(ledger.genesis_treasury_minted).as_str(),
        " expected=",
        u128_text(GENESIS_TREASURY_ALLOCATION).as_str(),
        " current_treasury=",
    );
    text.append(u128_text(ledger.treasury).as_str());
    make_check("genesis_treasury_invariant", ok, text)
}

/// How much a ledger holds.
pub open spec fn contents_check(ledger: LedgerModel) -> DiagnosticCheckModel {
    check_of(
        "ledger_readable"@,
        true,
        "accounts="@ + decimal(ledger.accounts.len()) + " networks="@ + decimal(
            ledger.networks.len(),
        ) + " nodes="@ + decimal(ledger.nodes.len()) + " operations="@ + decimal(
            ledger.operations.len(),
        ),
    )
}

fn check_contents(ledger: &LedgerState) -> (r: DiagnosticCheck)
    ensures
        r.deep_view() == contents_check(ledger@),
{
    let mut text = join5(
        "accounts=",
        usize_text(ledger.accounts.len()).as_str(),
        " networks=",
        usize_text(ledger.networks.len()).as_str(),
        " nodes=",
    );
    text.append(usize_text(ledger.nodes.len()).as_str());
    text.append(" operations=");
    text.append(usize_text(ledger.operations.len()).as_str());
    make_check("ledger_readable", true, text)
}

/// Whether the authority of the first node is that of the registry.
pub open spec fn authority_check(ledger: LedgerModel) -> DiagnosticCheckModel {
    let (ok, detail) = match ledger.genesis_authority {
        None => if !ledger.nodes.contains_key(1) {
            if ledger.nodes.len() == 0 {
                (true, "Genesis Node 1 is not registered yet"@)
            } else {
                (false, "Genesis authority is missing or does not match registered Node 1"@)
            }
        } else {
            (
                true,
                "legacy ledger; Node 1 owner="@ + ledger.nodes[1].owner_address
                    + " will be pinned on first governance action"@,
            )
        },
        Some(authority) => if ledger.nodes.contains_key(1) && authority.node_id == 1
            && authority.owner_address == ledger.nodes[1].owner_address
            && authority.owner_public_key == ledger.nodes[1].owner_public_key {
            (true, "Node 1 owner="@ + authority.owner_address)
        } else {
            (false, "Genesis authority is missing or does not match registered Node 1"@)
        },
    };
    check_of("genesis_authority_integrity"@, ok, detail)
}

fn check_authority(ledger: &LedgerState) -> (r: DiagnosticCheck)
    ensures
        r.deep_view() == authority_check(ledger@),
{
    let empty = ledger.nodes.len() == 0;
    let (ok, detail): (bool, String) = match (ledger.nodes.get(&1), &ledger.genesis_authority) {
        (None, None) => {
            if empty {
                (true, "Genesis Node 1 is not registered yet".to_owned())
            } else {
                (
                    false,
                    "Genesis authority is missing or does not match registered Node 1".to_owned(),
                )
            }
        },
        (Some(node), None) => (
            true,
            join3(
                "legacy ledger; Node 1 owner=",
                node.owner_address.as_str(),
                " will be pinned on first governance action",
            ),
        ),
        (Some(node), Some(authority)) => {
            if authority.node_id == 1 && text_same(
                authority.owner_address.as_str(),
                node.owner_address.as_str(),
            ) && text_same(authority.owner_public_key.as_str(), node.owner_public_key.as_str()) {
                (true, join2("Node 1 owner=", authority.owner_address.as_str()))
            } else {
                (
                    false,
                    "Genesis authority is missing or does not match registered Node 1".to_owned(),
                )
            }
        },
        (None, Some(_)) => (
            false,
            "Genesis authority is missing or does not match registered Node 1".to_owned(),
        ),
    };
    make_check("genesis_authority_integrity", ok, detail)
}

/// Whether the chain is sound.
pub open spec fn chain_check(ledger: LedgerModel) -> DiagnosticCheckModel {
    let (ok, detail) = if ledger.nodes.len() == 0 {
        (true, "waiting for Genesis Node 1"@)
    } else {
        match chain_checked(ledger) {
            Ok(counts) => (
                true,
                "height="@ + decimal(ledger.blocks.len()) + " committed_operations="@ + decimal(
                    counts.0 as nat,
                ) + " legacy_unverified="@ + decimal(counts.1 as nat),
            ),
            Err(refusal) => (false, refusal),
        }
    };
    check_of("blockchain_integrity"@, ok, detail)
}

fn check_chain(ledger: &LedgerState) -> (r: DiagnosticCheck)
    ensures
        r.deep_view() == chain_check(ledger@),
{
    if ledger.nodes.len() == 0 {
        return make_check("blockchain_integrity", true, "waiting for Genesis Node 1".to_owned());
    }
    match verify_blockchain_inner(ledger) {
        Ok(counts) => {
            let mut text = join5(
                "height=",
                usize_text(ledger.blocks.len()).as_str(),
                " committed_operations=",
                usize_text(counts.0).as_str(),
                " legacy_unverified=",
            );
            text.append(usize_text(counts.1).as_str());
            make_check("blockchain_integrity", true, text)
        },
        Err(error) => make_check("blockchain_integrity", false, error.text().to_owned()),
    }
}

/// What was found of a ledger; the permissions of its directory have been looked at before.
pub open spec fn system_checks(ledger: LedgerModel, permissions: DiagnosticCheckModel) -> Seq<
    DiagnosticCheckModel,
> {
    seq![
        supply_check(ledger),
        allocation_check(ledger),
        permissions,
        contents_check(ledger),
        authority_check(ledger),
        chain_check(ledger),
    ]
}

/// Checks a ledger; the permissions of its directory have been looked at before.
pub fn system_diagnostics(ledger: &LedgerState, permissions: DiagnosticCheck) -> (r:
    DiagnosticReport)
    ensures
        r.deep_view() == (DiagnosticReportModel {
            ok: all_ok(system_checks(ledger@, permissions.deep_view())),
            checks: system_checks(ledger@, permissions.deep_view()),
        }),
{
    let mut checks: Vec<DiagnosticCheck> = Vec::new();
    checks.push(check_supply(ledger));
    checks.push(check_allocation(ledger));
    checks.push(permissions);
    checks.push(check_contents(ledger));
    checks.push(check_authority(ledger));
    checks.push(check_chain(ledger));
    assert(checks.deep_view() =~= system_checks(ledger@, permissions.deep_view()));
    DiagnosticReport::new(checks)
}

/// How the state of a node is written.
pub open spec fn status_text(status: NodeStatus) -> Seq<char> {
    match status {
        NodeStatus::WarmingUp => "WARMING_UP"@,
        NodeStatus::Active => "ACTIVE"@,
        NodeStatus::Draining => "DRAINING"@,
        NodeStatus::Exited => "EXITED"@,
        NodeStatus::Suspended => "SUSPENDED"@,
    }
}

/// Names the state of a node.
pub fn status_name(status: NodeStatus) -> (r: &'static str)
    ensures
        r@ == status_text(status),
{
    match status {
        NodeStatus::WarmingUp => "WARMING_UP",
        NodeStatus::Active => "ACTIVE",
        NodeStatus::Draining => "DRAINING",
        NodeStatus::Exited => "EXITED",
        NodeStatus::Suspended => "SUSPENDED",
    }
}

/// Whether a node takes part.
pub open spec fn state_check(node: NodeModel) -> DiagnosticCheckModel {
    check_of(
        "node_state"@,
        node.status != NodeStatus::Exited && node.status != NodeStatus::Suspended,
        status_text(node.status),
    )
}

/// Whether the endpoint of a node is at its address, as it was found.
pub open spec fn endpoint_check(node: NodeModel, found: Outcome<IpAddress>) -> DiagnosticCheckModel {
    match found {
        Ok(ip) => check_of(
            "endpoint_dns"@,
            true,
            node.endpoint + " resolves to registered "@ + ip_text(ip),
        ),
        Err(refusal) => check_of("endpoint_dns"@, false, refusal),
    }
}

fn check_endpoint(node: &NodeRecord, found: Result<IpAddress>) -> (r: DiagnosticCheck)
    ensures
        r.deep_view() == endpoint_check(node.deep_view(), outcome(found)),
{
    match found {
        Ok(ip) => make_check(
            "endpoint_dns",
            true,
            join3(node.endpoint.as_str(), " resolves to registered ", write_ip(ip).as_str()),
        ),
        Err(error) => make_check("endpoint_dns", false, error.text().to_owned()),
    }
}

/// Whether a node has been probed lately.
pub open spec fn freshness_check(ledger: LedgerModel, node: NodeModel, now: i64) -> DiagnosticCheckModel {
    let validity = ledger.settings.probe_validity_seconds;
    match node.last_probe_success {
        None => check_of("probe_freshness"@, false, "no successful Probe recorded"@),
        Some(at) => {
            let age = clamped_i64(now - at);
            check_of(
                "probe_freshness"@,
                age <= validity,
                "last success "@ + signed_decimal(age as int) + "s ago; validity "@
                    + signed_decimal(validity as int) + "s"@,
            )
        },
    }
}

fn check_freshness(ledger: &LedgerState, node: &NodeRecord, now: i64) -> (r: DiagnosticCheck)
    ensures
        r.deep_view() == freshness_check(ledger@, node.deep_view(), now),
{
    let validity: i64 = ledger.settings.probe_validity_seconds;
    match node.last_probe_success {
        None => make_check(
            "probe_freshness",
            false,
            "no successful Probe recorded".to_owned(),
        ),
        Some(at) => {
            let age: i64 = saturating_sub_i64(now, at);
            make_check(
                "probe_freshness",
                age <= validity,
                join5(
                    "last success ",
                    i64_text(age).as_str(),
                    "s ago; validity ",
                    i64_text(validity).as_str(),
                    "s",
                ),
            )
        },
    }
}

/// What was found of a local node; its endpoint and the permissions of its keys have been looked at
/// before.
pub open spec fn node_checks(
    ledger: LedgerModel,
    node: NodeModel,
    endpoint: Outcome<IpAddress>,
    owner_key: DiagnosticCheckModel,
    relay_key: DiagnosticCheckModel,
    reward_key: DiagnosticCheckModel,
    now: i64,
) -> Seq<DiagnosticCheckModel> {
    seq![
        state_check(node),
        endpoint_check(node, endpoint),
        freshness_check(ledger, node, now),
        owner_key,
        relay_key,
        reward_key,
    ]
}

/// Checks a local node; its endpoint (`verify_registered_endpoint`) and the permissions of its keys
/// have been looked at before.
pub fn node_diagnostics(
    ledger: &LedgerState,
    config: &LocalNodeConfig,
    endpoint: Result<IpAddress>,
    owner_key: DiagnosticCheck,
    relay_key: DiagnosticCheck,
    reward_key: DiagnosticCheck,
    now: i64,
) -> (r: Result<DiagnosticReport>)
    ensures
        outcome(r) == match local_record(ledger@, config.deep_view()) {
            Err(refusal) => Err(refusal),
            Ok(node) => {
                let checks = node_checks(
                    ledger@,
                    node,
                    outcome(endpoint),
                    owner_key.deep_view(),
                    relay_key.deep_view(),
                    reward_key.deep_view(),
                    now,
                );
                Ok(DiagnosticReportModel { ok: all_ok(checks), checks })
            },
        },
{
    let node = node_record(ledger, config)?;
    let ok = !matches!(node.status, NodeStatus::Exited | NodeStatus::Suspended);
    let mut checks: Vec<DiagnosticCheck> = Vec::new();
    checks.push(make_check("node_state", ok, status_name(node.status).to_owned()));
    checks.push(check_endpoint(&node, endpoint));
    checks.push(check_freshness(ledger, &node, now));
    checks.push(owner_key);
    checks.push(relay_key);
    checks.push(reward_key);
    assert(checks.deep_view() =~= node_checks(
        ledger@,
        node.deep_view(),
        outcome(endpoint),
        owner_key.deep_view(),
        relay_key.deep_view(),
        reward_key.deep_view(),
        now,
    ));
    Ok(DiagnosticReport::new(checks))
}

/// Whether nobody but the owner may get at a file or a directory.
pub open spec fn is_private(mode: u32, directory: bool) -> bool {
    if directory {
        mode % 0o100 == 0
    } else {
        mode % 0o100 == 0 && (mode / 0o100) % 2 == 0
    }
}

/// Tells whether nobody but the owner may get at a file or a directory, by the permission bits.
pub fn permissions_are_private(mode: u32, directory: bool) -> (r: bool)
    requires
        mode <= 0o777,
    ensures
        r == is_private(mode, directory),
{
    if directory {
        mode % 64 == 0
    } else {
        mode % 64 == 0 && (mode / 64) % 2 == 0
    }
}

/// What is private has no permission bit for anybody but its owner, and a private file cannot be run
/// either.
pub proof fn private_means_for_the_owner(mode: u32)
    requires
        mode <= 0o777,
    ensures
        is_private(mode, true) <==> mode & 0o077 == 0,
        is_private(mode, false) <==> mode & 0o177 == 0,
{
    assert(mode % 64 == 0 <==> mode & 63 == 0) by (bit_vector);
    assert((mode % 64 == 0 && (mode / 64) % 2 == 0) <==> mode & 127 == 0) by (bit_vector);
}

/// A node counts as probed lately while its last successful probe is no older than the validity.
pub proof fn probes_are_fresh_while_valid(ledger: LedgerModel, node: NodeModel, now: i64)
    requires
        ledger.settings.probe_validity_seconds < i64::MAX,
    ensures
        freshness_check(ledger, node, now).ok <==> (node.last_probe_success matches Some(at) && now
            <= at + ledger.settings.probe_validity_seconds),
{
}

/// A report is good only if every part is: nothing is lost of what can be issued, the treasury got
/// its share, and the first node is the one that has the authority.
pub proof fn good_reports_are_good_in_every_part(
    ledger: LedgerModel,
    permissions: DiagnosticCheckModel,
)
    ensures
        all_ok(system_checks(ledger, permissions)) ==> {
            &&& permissions.ok
            &&& ledger.pool_remaining + ledger.lifetime_minted == MAX_SUPPLY
            &&& ledger.genesis_treasury_minted == GENESIS_TREASURY_ALLOCATION
            &&& ledger.genesis_authority matches Some(authority) ==> authority.node_id == 1
                && ledger.nodes.contains_key(1) && authority.owner_address
                == ledger.nodes[1].owner_address
            &&& ledger.nodes.len() > 0 ==> chain_checked(ledger) is Ok
        },
{
    let checks = system_checks(ledger, permissions);
    if all_ok(checks) {
        assert(checks[0].ok && checks[1].ok && checks[2].ok && checks[4].ok && checks[5].ok);
    }
}

} // verus!
