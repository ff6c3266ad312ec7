use vstd::prelude::*;
use vstd::string::*;
use vstd::utf8::*;

use crate::chain::{chain_height, chain_tip_timestamp, finalized_state, height, tip_timestamp};
use crate::crypto::{full_id, sha256_full_id};
use crate::endpoint::{
    complete_websocket_url, parse_url, url_parsed, websocket_url_of, RPC_PATH, UrlParts,
};
use crate::envelope::{name_checked, validate_name};
use crate::error::{outcome, Error, Outcome, Result};
use crate::history::{chain_checked, is_state_root, looks_like_state_root, verify_blockchain_inner};
use crate::model::{
    KeyIdentity, KeyModel, LedgerModel, LedgerState, LocalNodeConfig, NodeConfigModel,
    NodeStorageMode,
};
use crate::nodes::{owner_node, preferred_owner_node_id};
use crate::protocol::{BOOTSTRAP_CHECKPOINT_RETENTION, PROTOCOL_VERSION};
use crate::table::Replicate;
use crate::text::{
    decimal, i64_text, join2, join3, join4, join5, signed_decimal, text_same, u32_text, u64_text,
    usize_text,
};
use crate::views::{
    BootstrapCheckpointView, BootstrapCheckpointViewModel, BootstrapInstallReport,
    BootstrapInstallReportModel, BootstrapSnapshot, BootstrapSnapshotModel, LedgerBackup,
    LedgerBackupModel, LedgerBackupPayload, LedgerBackupPayloadModel, LedgerBackupReport,
    LedgerBackupReportModel,
};

verus! {

/// A state without the one that it refers to.
pub open spec fn alone(state: LedgerModel) -> LedgerModel {
    LedgerModel { finalized_checkpoint: None, ..state }
}

/// The last final state, from which another node can start.
pub open spec fn latest_checkpoint(ledger: LedgerModel) -> Outcome<LedgerModel> {
    match ledger.finalized_checkpoint {
        None => Err("chain has no finalized checkpoint to bootstrap from"@),
        Some(checkpoint) => if chain_height(*checkpoint) == 0 {
            Err("chain has not finalized its first block"@)
        } else {
            Ok(alone(*checkpoint))
        },
    }
}

/// Finds the last final state, so that its root can be found.
pub fn find_latest_checkpoint(ledger: &LedgerState) -> (r: Result<LedgerState>)
    ensures
        outcome(r) == latest_checkpoint(ledger@),
{
    match finalized_state(ledger) {
        None => Err(Error::msg("chain has no finalized checkpoint to bootstrap from")),
        Some(state) => {
            if height(state) == 0 {
                return Err(Error::msg("chain has not finalized its first block"));
            }
            let mut checkpoint = state.copy();
            checkpoint.finalized_checkpoint = None;
            Ok(checkpoint)
        },
    }
}

/// What another node can start from.
pub open spec fn snapshot_of(checkpoint: LedgerModel, root: Seq<char>) -> BootstrapSnapshotModel {
    BootstrapSnapshotModel {
        ledger_id: checkpoint.ledger_id,
        height: chain_height(checkpoint),
        state_root: root,
        checkpoint,
    }
}

/// What another node can start from now.
pub open spec fn latest_snapshot(ledger: LedgerModel, root: Seq<char>) -> Outcome<
    BootstrapSnapshotModel,
> {
    match latest_checkpoint(ledger) {
        Err(refusal) => Err(refusal),
        Ok(checkpoint) => Ok(snapshot_of(checkpoint, root)),
    }
}

/// Makes what another node can start from now. `root` is the root of the last final state.
pub fn bootstrap_snapshot(ledger: &LedgerState, root: &str) -> (r: Result<BootstrapSnapshot>)
    ensures
        outcome(r) == latest_snapshot(ledger@, root@),
{
    let checkpoint = find_latest_checkpoint(ledger)?;
    Ok(
        BootstrapSnapshot {
            ledger_id: checkpoint.ledger_id.clone(),
            height: height(&checkpoint),
            state_root: root.to_owned(),
            checkpoint,
        },
    )
}

/// A retained state, as it is listed.
pub open spec fn checkpoint_listed(at: u64, checkpoint: LedgerModel, root: Seq<char>) -> Outcome<
    BootstrapCheckpointViewModel,
> {
    if chain_height(checkpoint) != at {
        Err(
            "retained bootstrap checkpoint at height "@ + decimal(at as nat)
                + " has inconsistent metadata"@,
        )
    } else {
        match chain_tip_timestamp(checkpoint) {
            None => Err(
                "retained bootstrap checkpoint at height "@ + decimal(at as nat)
                    + " has no finalized timestamp"@,
            ),
            Some(finalized_at) => Ok(
                BootstrapCheckpointViewModel { height: at, finalized_at, state_root: root },
            ),
        }
    }
}

/// A state that is retained at a height, with its root.
pub struct RetainedCheckpoint {
    pub height: u64,
    pub checkpoint: LedgerState,
    pub root: String,
}

impl DeepView for RetainedCheckpoint {
    type V = (u64, LedgerModel, Seq<char>);

    open spec fn deep_view(&self) -> (u64, LedgerModel, Seq<char>) {
        (self.height, self.checkpoint@, self.root@)
    }
}

/// The retained states, as they are listed, or the first refusal.
pub open spec fn checkpoints_listed(
    retained: Seq<(u64, LedgerModel, Seq<char>)>,
    listed: Seq<BootstrapCheckpointViewModel>,
) -> Outcome<Seq<BootstrapCheckpointViewModel>>
    decreases retained.len(),
{
    if retained.len() == 0 {
        Ok(listed)
    } else {
        match checkpoint_listed(retained[0].0, retained[0].1, retained[0].2) {
            Err(refusal) => Err(refusal),
            Ok(view) => checkpoints_listed(retained.drop_first(), listed.push(view)),
        }
    }
}

fn list_checkpoint(retained: &RetainedCheckpoint) -> (r: Result<BootstrapCheckpointView>)
    ensures
        outcome(r) == checkpoint_listed(retained.height, retained.checkpoint@, retained.root@),
{
    if height(&retained.checkpoint) != retained.height {
        return Err(
            Error::owned(
                join3(
                    "retained bootstrap checkpoint at height ",
                    u64_text(retained.height).as_str(),
                    " has inconsistent metadata",
                ),
            ),
        );
    }
    match tip_timestamp(&retained.checkpoint) {
        None => Err(
            Error::owned(
                join3(
                    "retained bootstrap checkpoint at height ",
                    u64_text(retained.height).as_str(),
                    " has no finalized timestamp",
                ),
            ),
        ),
        Some(finalized_at) => Ok(
            BootstrapCheckpointView {
                height: retained.height,
                finalized_at,
                state_root: retained.root.clone(),
            },
        ),
    }
}

/// Lists the retained states.
pub fn bootstrap_checkpoints(retained: &Vec<RetainedCheckpoint>) -> (r: Result<
    Vec<BootstrapCheckpointView>,
>)
    ensures
        match checkpoints_listed(retained.deep_view(), Seq::empty()) {
            Ok(views) => r matches Ok(list) && list.deep_view() == views,
            Err(refusal) => r matches Err(error) && error@ == refusal,
        },
{
    let ghost all = retained.deep_view();
    let mut out: Vec<BootstrapCheckpointView> = Vec::new();
    let mut i: usize = 0;
    assert(all.skip(0) =~= all);
    assert(out.deep_view() =~= Seq::<BootstrapCheckpointViewModel>::empty());
    while i < retained.len()
        invariant
            i <= all.len(),
            all == retained.deep_view(),
            all.len() == retained@.len(),
            checkpoints_listed(all, Seq::empty()) == checkpoints_listed(
                all.skip(i as int),
                out.deep_view(),
            ),
        decreases all.len() - i,
    {
        assert(all.skip(i as int)[0] == retained@[i as int].deep_view());
        assert(all.skip(i as int).drop_first() =~= all.skip(i + 1));
        let ghost before = out.deep_view();
        let view = list_checkpoint(&retained[i])?;
        out.push(view);
        assert(out.deep_view() =~= before.push(view.deep_view()));
        i = i + 1;
    }
    Ok(out)
}

/// What another node can start from at a height: the last final state, or a retained one.
pub open spec fn snapshot_found(
    latest: BootstrapSnapshotModel,
    at: u64,
    retained: Option<LedgerModel>,
    root: Seq<char>,
) -> Outcome<BootstrapSnapshotModel> {
    if at == latest.height {
        Ok(latest)
    } else if at > latest.height {
        Err(
            "bootstrap checkpoint height "@ + decimal(at as nat)
                + " is ahead of the finalized height "@ + decimal(latest.height as nat),
        )
    } else {
        match retained {
            None => Err(
                "bootstrap checkpoint at height "@ + decimal(at as nat)
                    + " is not retained; inspect the latest "@ + decimal(
                    BOOTSTRAP_CHECKPOINT_RETENTION as nat,
                )
                    + " retained checkpoints with 'mrk node block checkpoints' on the peer or its /explorer/checkpoints page"@,
            ),
            Some(checkpoint) => if chain_height(checkpoint) != at {
                Err("retained bootstrap checkpoint has inconsistent height metadata"@)
            } else {
                Ok(snapshot_of(alone(checkpoint), root))
            },
        }
    }
}

/// Finds what another node can start from at a height. `root` is the root of the retained state.
pub fn bootstrap_snapshot_at(
    latest: BootstrapSnapshot,
    at: u64,
    retained: Option<LedgerState>,
    root: &str,
) -> (r: Result<BootstrapSnapshot>)
    ensures
        outcome(r) == snapshot_found(latest.deep_view(), at, retained.deep_view(), root@),
{
    if at == latest.height {
        return Ok(latest);
    }
    if at > latest.height {
        return Err(
            Error::owned(
                join4(
                    "bootstrap checkpoint height ",
                    u64_text(at).as_str(),
                    " is ahead of the finalized height ",
                    u64_text(latest.height).as_str(),
                ),
            ),
        );
    }
    match retained {
        None => Err(
            Error::owned(
                join5(
                    "bootstrap checkpoint at height ",
                    u64_text(at).as_str(),
                    " is not retained; inspect the latest ",
                    usize_text(BOOTSTRAP_CHECKPOINT_RETENTION).as_str(),
                    " retained checkpoints with 'mrk node block checkpoints' on the peer or its /explorer/checkpoints page",
                ),
            ),
        ),
        Some(state) => {
            let mut checkpoint = state;
            if height(&checkpoint) != at {
                return Err(
                    Error::msg("retained bootstrap checkpoint has inconsistent height metadata"),
                );
            }
            checkpoint.finalized_checkpoint = None;
            Ok(
                BootstrapSnapshot {
                    ledger_id: checkpoint.ledger_id.clone(),
                    height: at,
                    state_root: root.to_owned(),
                    checkpoint,
                },
            )
        },
    }
}

/// What the operator of a new node trusts.
pub struct BootstrapInstallRequest<'a> {
    pub name: &'a str,
    pub peer: &'a str,
    pub expected_height: u64,
    pub expected_state_root: &'a str,
    pub allow_insecure_local: bool,
    pub tls_ca: Option<&'a str>,
}

/// The address of a peer, as it was read.
pub open spec fn peer_checked(
    url: Option<(Seq<char>, Seq<char>, Seq<char>, Option<Seq<char>>)>,
) -> Outcome<Seq<char>> {
    match websocket_url_of(url, RPC_PATH@) {
        Err(refusal) => Err(refusal),
        Ok(url) => if url.1 != RPC_PATH@ {
            Err("bootstrap peer path must be "@ + RPC_PATH@)
        } else {
            Ok(url.2)
        },
    }
}

fn check_peer(url: Option<UrlParts>) -> (r: Result<String>)
    ensures
        outcome(r) == peer_checked(url.deep_view()),
{
    let url = complete_websocket_url(url, RPC_PATH)?;
    if !text_same(url.path.as_str(), RPC_PATH) {
        return Err(Error::owned(join2("bootstrap peer path must be ", RPC_PATH)));
    }
    Ok(url.text)
}

/// Whether a state that was sent is the one that is trusted, and complete. `root` is its root, as
/// it was found here.
pub open spec fn snapshot_checked(
    expected_height: u64,
    expected_root: Seq<char>,
    snapshot: BootstrapSnapshotModel,
    root: Seq<char>,
) -> Outcome<()> {
    let checkpoint = snapshot.checkpoint;
    if !is_state_root(expected_root) {
        Err("trusted checkpoint root must be a full state_ SHA-256 identifier"@)
    } else if snapshot.height != expected_height {
        Err(
            "downloaded checkpoint height "@ + decimal(snapshot.height as nat)
                + " does not match trusted height "@ + decimal(expected_height as nat),
        )
    } else if snapshot.state_root != expected_root {
        Err(
            "downloaded checkpoint root "@ + snapshot.state_root + " does not match trusted root "@
                + expected_root,
        )
    } else if checkpoint.version != PROTOCOL_VERSION || checkpoint.ledger_id != snapshot.ledger_id
        || chain_height(checkpoint) != snapshot.height || root != snapshot.state_root
        || checkpoint.pending_operation_ids.len() != 0 || checkpoint.genesis_authority is None {
        Err("downloaded bootstrap checkpoint metadata or state root is invalid"@)
    } else {
        Ok(())
    }
}

fn check_snapshot(
    expected_height: u64,
    expected_root: &str,
    snapshot: &BootstrapSnapshot,
    root: &str,
) -> (r: Result<()>)
    ensures
        outcome(r) == snapshot_checked(
            expected_height,
            expected_root@,
            snapshot.deep_view(),
            root@,
        ),
{
    if !looks_like_state_root(expected_root) {
        return Err(
            Error::msg("trusted checkpoint root must be a full state_ SHA-256 identifier"),
        );
    }
    if snapshot.height != expected_height {
        return Err(
            Error::owned(
                join4(
                    "downloaded checkpoint height ",
                    u64_text(snapshot.height).as_str(),
                    " does not match trusted height ",
                    u64_text(expected_height).as_str(),
                ),
            ),
        );
    }
    if !text_same(snapshot.state_root.as_str(), expected_root) {
        return Err(
            Error::owned(
                join4(
                    "downloaded checkpoint root ",
                    snapshot.state_root.as_str(),
                    " does not match trusted root ",
                    expected_root,
                ),
            ),
        );
    }
    let checkpoint = &snapshot.checkpoint;
    if checkpoint.version != PROTOCOL_VERSION || !text_same(
        checkpoint.ledger_id.as_str(),
        snapshot.ledger_id.as_str(),
    ) || height(checkpoint) != snapshot.height || !text_same(root, snapshot.state_root.as_str())
        || checkpoint.pending_operation_ids.len() != 0 || checkpoint.genesis_authority.is_none() {
        return Err(
            Error::msg("downloaded bootstrap checkpoint metadata or state root is invalid"),
        );
    }
    Ok(())
}

/// Whether a ledger holds nothing yet.
pub open spec fn is_fresh(ledger: LedgerModel) -> bool {
    ledger.blocks.len() == 0 && ledger.pending_operation_ids.len() == 0
        && ledger.genesis_authority is None && ledger.nodes.len() == 0
}

/// Whether a state leaves a local node its owner.
pub open spec fn owner_kept(
    checkpoint: LedgerModel,
    config: NodeConfigModel,
    owner: KeyModel,
) -> Outcome<()> {
    match config.node_id {
        None => Ok(()),
        Some(node_id) => if checkpoint.nodes.contains_key(node_id) && (
        checkpoint.nodes[node_id].owner_address != config.owner_address
            || checkpoint.nodes[node_id].owner_address != owner.address
            || checkpoint.nodes[node_id].owner_public_key != owner.public_key) {
            Err(
                "trusted bootstrap checkpoint assigns Node "@ + decimal(node_id as nat)
                    + " to a different Owner"@,
            )
        } else {
            Ok(())
        },
    }
}

fn check_owner_kept(
    checkpoint: &LedgerState,
    config: &LocalNodeConfig,
    owner: &KeyIdentity,
) -> (r: Result<()>)
    ensures
        outcome(r) == owner_kept(checkpoint@, config.deep_view(), owner.deep_view()),
{
    if let Some(node_id) = config.node_id {
        if let Some(node) = checkpoint.nodes.get(&node_id) {
            if !text_same(node.owner_address.as_str(), config.owner_address.as_str())
                || !text_same(node.owner_address.as_str(), owner.address.as_str()) || !text_same(
                node.owner_public_key.as_str(),
                owner.public_key.as_str(),
            ) {
                return Err(
                    Error::owned(
                        join3(
                            "trusted bootstrap checkpoint assigns Node ",
                            u64_text(node_id).as_str(),
                            " to a different Owner",
                        ),
                    ),
                );
            }
        }
    }
    Ok(())
}

/// The ledger and the configuration of a node that starts from a trusted state, and what is
/// reported.
pub open spec fn snapshot_installed(
    local: LedgerModel,
    config: NodeConfigModel,
    owner: KeyModel,
    peer: Option<(Seq<char>, Seq<char>, Seq<char>, Option<Seq<char>>)>,
    expected_height: u64,
    expected_root: Seq<char>,
    allow_insecure_local: bool,
    tls_ca: Option<Seq<char>>,
    snapshot: BootstrapSnapshotModel,
    root: Seq<char>,
) -> Outcome<(LedgerModel, NodeConfigModel, BootstrapInstallReportModel)> {
    match peer_checked(peer) {
        Err(refusal) => Err(refusal),
        Ok(address) => match snapshot_checked(expected_height, expected_root, snapshot, root) {
            Err(refusal) => Err(refusal),
            Ok(_) => if !is_fresh(local) {
                Err("bootstrap requires an initialized Node with an otherwise empty local chain"@)
            } else {
                match owner_kept(snapshot.checkpoint, config, owner) {
                    Err(refusal) => Err(refusal),
                    Ok(_) => Ok(
                        (
                            LedgerModel {
                                finalized_checkpoint: Some(Box::new(alone(snapshot.checkpoint))),
                                ..snapshot.checkpoint
                            },
                            NodeConfigModel {
                                bootstrap_peer: Some(address),
                                trusted_checkpoint_root: Some(expected_root),
                                trusted_checkpoint_height: Some(expected_height),
                                bootstrap_allow_insecure_local: allow_insecure_local,
                                bootstrap_tls_ca: tls_ca,
                                ..config
                            },
                            BootstrapInstallReportModel {
                                ledger_id: snapshot.ledger_id,
                                height: snapshot.height,
                                state_root: snapshot.state_root,
                                peer: address,
                            },
                        ),
                    ),
                }
            },
        },
    }
}

/// Makes the ledger and the configuration of a node that starts from a trusted state. `root` is the
/// root of the state that was sent, as it was found here.
pub fn install_bootstrap_snapshot(
    local: &LedgerState,
    config: &LocalNodeConfig,
    owner: &KeyIdentity,
    request: &BootstrapInstallRequest<'_>,
    snapshot: &BootstrapSnapshot,
    root: &str,
) -> (r: Result<(LedgerState, LocalNodeConfig, BootstrapInstallReport)>)
    ensures
        match snapshot_installed(
            local@,
            config.deep_view(),
            owner.deep_view(),
            url_parsed(request.peer@),
            request.expected_height,
            request.expected_state_root@,
            request.allow_insecure_local,
            request.tls_ca.deep_view(),
            snapshot.deep_view(),
            root@,
        ) {
            Ok(made) => r matches Ok(done) && done.0@ == made.0 && done.1.deep_view() == made.1
                && done.2.deep_view() == made.2,
            Err(refusal) => r matches Err(error) && error@ == refusal,
        },
{
    install_snapshot_from(local, config, owner, request, parse_url(request.peer), snapshot, root)
}

/// Makes the ledger and the configuration of a node that starts from a trusted state, with the
/// address of the peer as it was read.
pub fn install_snapshot_from(
    local: &LedgerState,
    config: &LocalNodeConfig,
    owner: &KeyIdentity,
    request: &BootstrapInstallRequest<'_>,
    peer: Option<UrlParts>,
    snapshot: &BootstrapSnapshot,
    root: &str,
) -> (r: Result<(LedgerState, LocalNodeConfig, BootstrapInstallReport)>)
    ensures
        match snapshot_installed(
            local@,
            config.deep_view(),
            owner.deep_view(),
            peer.deep_view(),
            request.expected_height,
            request.expected_state_root@,
            request.allow_insecure_local,
            request.tls_ca.deep_view(),
            snapshot.deep_view(),
            root@,
        ) {
            Ok(made) => r matches Ok(done) && done.0@ == made.0 && done.1.deep_view() == made.1
                && done.2.deep_view() == made.2,
            Err(refusal) => r matches Err(error) && error@ == refusal,
        },
{
    let address = check_peer(peer)?;
    check_snapshot(request.expected_height, request.expected_state_root, snapshot, root)?;
    if local.blocks.len() != 0 || local.pending_operation_ids.len() != 0
        || local.genesis_authority.is_some() || local.nodes.len() != 0 {
        return Err(
            Error::msg(
                "bootstrap requires an initialized Node with an otherwise empty local chain",
            ),
        );
    }
    check_owner_kept(&snapshot.checkpoint, config, owner)?;
    let mut finalized = snapshot.checkpoint.copy();
    finalized.finalized_checkpoint = None;
    let mut ledger = snapshot.checkpoint.copy();
    ledger.finalized_checkpoint = Some(Box::new(finalized));
    assert(finalized@ == alone(snapshot.checkpoint@));
    assert(ledger@ == (LedgerModel {
        finalized_checkpoint: Some(Box::new(alone(snapshot.checkpoint@))),
        ..snapshot.checkpoint@
    }));
    let mut next = config.replicate();
    next.bootstrap_peer = Some(address.clone());
    next.trusted_checkpoint_root = Some(request.expected_state_root.to_owned());
    next.trusted_checkpoint_height = Some(request.expected_height);
    next.bootstrap_allow_insecure_local = request.allow_insecure_local;
    next.bootstrap_tls_ca = match request.tls_ca {
        Some(path) => Some(path.to_owned()),
        None => None,
    };
    assert(next.bootstrap_tls_ca.deep_view() == request.tls_ca.deep_view());
    Ok(
        (
            ledger,
            next,
            BootstrapInstallReport {
                ledger_id: snapshot.ledger_id.clone(),
                height: snapshot.height,
                state_root: snapshot.state_root.clone(),
                peer: address,
            },
        ),
    )
}

/// What a backup holds, if the chain is sound.
pub open spec fn backup_made(ledger: LedgerModel, root: Seq<char>, now: i64) -> Outcome<
    LedgerBackupPayloadModel,
> {
    match chain_checked(ledger) {
        Err(refusal) => Err(refusal),
        Ok(_) => Ok(
            LedgerBackupPayloadModel {
                format_version: 1,
                created_at: now,
                ledger_id: ledger.ledger_id,
                height: chain_height(ledger),
                state_root: root,
                ledger,
            },
        ),
    }
}

/// Makes what a backup holds. `root` is the root of the ledger.
pub fn backup_ledger(ledger: &LedgerState, root: &str, now: i64) -> (r: Result<LedgerBackupPayload>)
    ensures
        outcome(r) == backup_made(ledger@, root@, now),
{
    verify_blockchain_inner(ledger)?;
    Ok(
        LedgerBackupPayload {
            format_version: 1,
            created_at: now,
            ledger_id: ledger.ledger_id.clone(),
            height: height(ledger),
            state_root: root.to_owned(),
            ledger: ledger.copy(),
        },
    )
}

/// The checksum of what a backup holds, by its encoding.
pub open spec fn backup_checksum(encoded: Seq<u8>) -> Seq<char> {
    full_id("backup"@, encoded)
}

/// Puts the checksum on what a backup holds, by its encoding.
pub fn seal_backup(payload: LedgerBackupPayload, encoded: &[u8]) -> (r: LedgerBackup)
    ensures
        r.deep_view() == (LedgerBackupModel {
            checksum: backup_checksum(encoded@),
            payload: payload.deep_view(),
        }),
{
    LedgerBackup { checksum: sha256_full_id("backup", encoded), payload }
}

/// The name of the file of a backup.
pub open spec fn backup_named(height: u64, now: i64) -> Seq<char> {
    "mrk-"@ + decimal(height as nat) + "-"@ + signed_decimal(now as int) + ".json"@
}

/// Names the file of a backup.
pub fn backup_file_name(height: u64, now: i64) -> (r: String)
    ensures
        r@ == backup_named(height, now),
{
    join5("mrk-", u64_text(height).as_str(), "-", i64_text(now).as_str(), ".json")
}

/// What is reported of a backup that has been written, if what was read back is what was written.
/// `encoded` is the encoding of what was read back, and `root` the root of its ledger.
pub open spec fn backup_written(
    written: LedgerBackupModel,
    persisted: LedgerBackupModel,
    encoded: Seq<u8>,
    root: Seq<char>,
    path: Seq<char>,
    bytes: u64,
) -> Outcome<LedgerBackupReportModel> {
    let payload = written.payload;
    if persisted.checksum != written.checksum || backup_checksum(encoded) != written.checksum
        || persisted.payload.state_root != payload.state_root || root != payload.state_root {
        Err("backup verification failed after writing the file"@)
    } else {
        Ok(
            LedgerBackupReportModel {
                path,
                height: payload.height,
                state_root: payload.state_root,
                checksum: written.checksum,
                bytes,
            },
        )
    }
}

/// Checks that the backup that was read back is the one that was written.
pub fn confirm_written_backup(
    written: &LedgerBackup,
    persisted: &LedgerBackup,
    encoded: &[u8],
    root: &str,
    path: &str,
    bytes: u64,
) -> (r: Result<LedgerBackupReport>)
    ensures
        outcome(r) == backup_written(
            written.deep_view(),
            persisted.deep_view(),
            encoded@,
            root@,
            path@,
            bytes,
        ),
{
    let payload = &written.payload;
    let checksum = sha256_full_id("backup", encoded);
    if !text_same(persisted.checksum.as_str(), written.checksum.as_str()) || !text_same(
        checksum.as_str(),
        written.checksum.as_str(),
    ) || !text_same(persisted.payload.state_root.as_str(), payload.state_root.as_str())
        || !text_same(root, payload.state_root.as_str()) {
        return Err(Error::msg("backup verification failed after writing the file"));
    }
    Ok(
        LedgerBackupReport {
            path: path.to_owned(),
            height: payload.height,
            state_root: payload.state_root.clone(),
            checksum,
            bytes,
        },
    )
}

/// What is reported of a backup that was read, if it is sound. `encoded` is the encoding of what it
/// holds, and `root` the root of its ledger, as they were found here.
pub open spec fn backup_checked(
    backup: LedgerBackupModel,
    encoded: Seq<u8>,
    root: Seq<char>,
    expected: Option<Seq<char>>,
    path: Seq<char>,
    bytes: u64,
) -> Outcome<LedgerBackupReportModel> {
    let payload = backup.payload;
    if payload.format_version != 1 {
        Err("unsupported backup format version "@ + decimal(payload.format_version as nat))
    } else if backup.checksum != backup_checksum(encoded) {
        Err("backup payload checksum does not match"@)
    } else if payload.ledger_id != payload.ledger.ledger_id {
        Err("backup ledger ID does not match its payload metadata"@)
    } else if payload.height != chain_height(payload.ledger) {
        Err("backup height does not match its ledger"@)
    } else if payload.state_root != root {
        Err("backup state root does not match its ledger"@)
    } else if expected is Some && expected != Some(root) {
        Err(
            "backup state root "@ + root + " does not match expected root "@ + expected.unwrap(),
        )
    } else {
        match chain_checked(payload.ledger) {
            Err(refusal) => Err(refusal),
            Ok(_) => Ok(
                LedgerBackupReportModel {
                    path,
                    height: payload.height,
                    state_root: root,
                    checksum: backup.checksum,
                    bytes,
                },
            ),
        }
    }
}

/// Checks a backup that was read.
pub fn verify_ledger_backup(
    backup: &LedgerBackup,
    encoded: &[u8],
    root: &str,
    expected_state_root: Option<&str>,
    path: &str,
    bytes: u64,
) -> (r: Result<LedgerBackupReport>)
    ensures
        outcome(r) == backup_checked(
            backup.deep_view(),
            encoded@,
            root@,
            expected_state_root.deep_view(),
            path@,
            bytes,
        ),
{
    let payload = &backup.payload;
    if payload.format_version != 1 {
        return Err(
            Error::owned(
                join2(
                    "unsupported backup format version ",
                    u32_text(payload.format_version).as_str(),
                ),
            ),
        );
    }
    let checksum = sha256_full_id("backup", encoded);
    if !text_same(backup.checksum.as_str(), checksum.as_str()) {
        return Err(Error::msg("backup payload checksum does not match"));
    }
    if !text_same(payload.ledger_id.as_str(), payload.ledger.ledger_id.as_str()) {
        return Err(Error::msg("backup ledger ID does not match its payload metadata"));
    }
    if payload.height != height(&payload.ledger) {
        return Err(Error::msg("backup height does not match its ledger"));
    }
    if !text_same(payload.state_root.as_str(), root) {
        return Err(Error::msg("backup state root does not match its ledger"));
    }
    if let Some(expected) = expected_state_root {
        if !text_same(expected, root) {
            return Err(
                Error::owned(
                    join4("backup state root ", root, " does not match expected root ", expected),
                ),
            );
        }
    }
    verify_blockchain_inner(&payload.ledger)?;
    Ok(
        LedgerBackupReport {
            path: path.to_owned(),
            height: payload.height,
            state_root: root.to_owned(),
            checksum,
            bytes,
        },
    )
}

/// A backup that has just been made is sound, what it holds comes back, and what is reported of it
/// is what it was made of.
pub proof fn fresh_backup_is_sound(
    ledger: LedgerModel,
    root: Seq<char>,
    now: i64,
    encoded: Seq<u8>,
    path: Seq<char>,
    bytes: u64,
)
    requires
        backup_made(ledger, root, now) is Ok,
    ensures
        ({
            let payload = backup_made(ledger, root, now)->Ok_0;
            let backup = LedgerBackupModel { checksum: backup_checksum(encoded), payload };
            &&& payload.ledger == ledger
            &&& backup_checked(backup, encoded, root, Some(root), path, bytes) == Ok::<
                LedgerBackupReportModel,
                Seq<char>,
            >(
                LedgerBackupReportModel {
                    path,
                    height: chain_height(ledger),
                    state_root: root,
                    checksum: backup_checksum(encoded),
                    bytes,
                },
            )
        }),
{
}

/// The configuration of a local node with the number that a ledger gives it.
pub open spec fn config_reconciled(ledger: LedgerModel, config: NodeConfigModel) -> NodeConfigModel {
    NodeConfigModel { node_id: owner_node(ledger, config.owner_address), ..config }
}

/// Gives a local node the number that a ledger gives it.
pub fn reconcile_local_node_registration(ledger: &LedgerState, config: &mut LocalNodeConfig) -> (r:
    Option<u64>)
    ensures
        final(config).deep_view() == config_reconciled(ledger@, old(config).deep_view()),
        r == owner_node(ledger@, old(config).deep_view().owner_address),
{
    let node_id = preferred_owner_node_id(ledger, config.owner_address.as_str());
    config.node_id = node_id;
    node_id
}

/// Checks a backup that was read, and gives the ledger and the configuration after it has been
/// restored. A backup is restored only if it is sound and its root is the expected one.
pub fn restore_ledger_backup(
    backup: LedgerBackup,
    encoded: &[u8],
    root: &str,
    expected_state_root: &str,
    path: &str,
    bytes: u64,
    config: &LocalNodeConfig,
) -> (r: Result<(LedgerState, LocalNodeConfig, LedgerBackupReport)>)
    ensures
        match backup_checked(
            backup.deep_view(),
            encoded@,
            root@,
            Some(expected_state_root@),
            path@,
            bytes,
        ) {
            Err(refusal) => r matches Err(error) && error@ == refusal,
            Ok(report) => r matches Ok(done) && {
                &&& done.0@ == backup.deep_view().payload.ledger
                &&& done.1.deep_view() == config_reconciled(
                    backup.deep_view().payload.ledger,
                    config.deep_view(),
                )
                &&& done.2.deep_view() == report
            },
        },
{
    let report = verify_ledger_backup(
        &backup,
        encoded,
        root,
        Some(expected_state_root),
        path,
        bytes,
    )?;
    let mut next = config.replicate();
    next.node_id = preferred_owner_node_id(&backup.payload.ledger, config.owner_address.as_str());
    Ok((backup.payload.ledger, next, report))
}

/// Whether what is stored is of this protocol.
pub open spec fn versions_checked(config: NodeConfigModel, ledger: LedgerModel) -> Outcome<()> {
    if config.version != PROTOCOL_VERSION || ledger.version != PROTOCOL_VERSION {
        Err(
            "unsupported on-disk version: Node config "@ + decimal(config.version as nat)
                + ", Ledger "@ + decimal(ledger.version as nat) + "; this binary requires "@
                + decimal(PROTOCOL_VERSION as nat)
                + ". Back up the data directory and use an explicit upgrade tool"@,
        )
    } else {
        Ok(())
    }
}

/// Checks that what is stored is of this protocol.
pub fn ensure_runtime_compatibility(config: &LocalNodeConfig, ledger: &LedgerState) -> (r: Result<
    (),
>)
    ensures
        outcome(r) == versions_checked(config.deep_view(), ledger@),
{
    if config.version != PROTOCOL_VERSION || ledger.version != PROTOCOL_VERSION {
        let mut text = join5(
            "unsupported on-disk version: Node config ",
            u32_text(config.version).as_str(),
            ", Ledger ",
            u32_text(ledger.version).as_str(),
            "; this binary requires ",
        );
        text.append(u32_text(PROTOCOL_VERSION).as_str());
        text.append(". Back up the data directory and use an explicit upgrade tool");
        return Err(Error::owned(text));
    }
    Ok(())
}

/// The configuration of a new node.
pub open spec fn config_made(
    name: Seq<char>,
    owner: Seq<char>,
    relay: Seq<char>,
    reward: Seq<char>,
    storage_mode: NodeStorageMode,
) -> NodeConfigModel {
    NodeConfigModel {
        version: PROTOCOL_VERSION,
        name,
        owner_address: owner,
        relay_address: relay,
        reward_address: reward,
        node_id: None,
        storage_mode,
        bootstrap_peer: None,
        trusted_checkpoint_root: None,
        trusted_checkpoint_height: None,
        bootstrap_allow_insecure_local: false,
        bootstrap_tls_ca: None,
    }
}

/// The configuration of a new node, if its name is free and it may hold the named ledger.
pub open spec fn node_begun(
    name: Seq<char>,
    taken: bool,
    owner: Seq<char>,
    relay: Seq<char>,
    reward: Seq<char>,
    storage_mode: NodeStorageMode,
    ledger_id: Option<Seq<char>>,
) -> Outcome<NodeConfigModel> {
    match name_checked(name) {
        Err(refusal) => Err(refusal),
        Ok(_) => if ledger_id is Some && name_checked(ledger_id->0) is Err {
            Err("ledger ID is invalid"@)
        } else if taken {
            Err("node '"@ + name + "' already exists"@)
        } else {
            Ok(config_made(name, owner, relay, reward, storage_mode))
        },
    }
}

/// Makes the configuration of a new node, by the addresses of its keys. `taken` says that there is
/// a node with this name.
pub fn init_node_with_storage_mode_and_ledger_id(
    name: &str,
    taken: bool,
    owner: &str,
    relay: &str,
    reward: &str,
    storage_mode: NodeStorageMode,
    ledger_id: Option<&str>,
) -> (r: Result<LocalNodeConfig>)
    ensures
        outcome(r) == node_begun(
            name@,
            taken,
            owner@,
            relay@,
            reward@,
            storage_mode,
            match ledger_id {
                Some(id) => Some(id@),
                None => None,
            },
        ),
{
    validate_name(name)?;
    if let Some(id) = ledger_id {
        if validate_name(id).is_err() {
            return Err(Error::msg("ledger ID is invalid"));
        }
    }
    if taken {
        return Err(Error::owned(join3("node '", name, "' already exists")));
    }
    Ok(
        LocalNodeConfig {
            version: PROTOCOL_VERSION,
            name: name.to_owned(),
            owner_address: owner.to_owned(),
            relay_address: relay.to_owned(),
            reward_address: reward.to_owned(),
            node_id: None,
            storage_mode,
            bootstrap_peer: None,
            trusted_checkpoint_root: None,
            trusted_checkpoint_height: None,
            bootstrap_allow_insecure_local: false,
            bootstrap_tls_ca: None,
        },
    )
}

/// Makes the configuration of a new node on a ledger that is yet to be named.
pub fn init_node_with_storage_mode(
    name: &str,
    taken: bool,
    owner: &str,
    relay: &str,
    reward: &str,
    storage_mode: NodeStorageMode,
) -> (r: Result<LocalNodeConfig>)
    ensures
        outcome(r) == node_begun(name@, taken, owner@, relay@, reward@, storage_mode, None),
{
    init_node_with_storage_mode_and_ledger_id(
        name,
        taken,
        owner,
        relay,
        reward,
        storage_mode,
        None,
    )
}

/// Makes the configuration of a new node that keeps the whole history.
pub fn init_node(name: &str, taken: bool, owner: &str, relay: &str, reward: &str) -> (r: Result<
    LocalNodeConfig,
>)
    ensures
        outcome(r) == node_begun(
            name@,
            taken,
            owner@,
            relay@,
            reward@,
            NodeStorageMode::Full,
            None,
        ),
{
    init_node_with_storage_mode(name, taken, owner, relay, reward, NodeStorageMode::Full)
}

/// A backup that is accepted is whole: its checksum is that of what it holds, its ledger has the
/// height and the root that it names, the root is the expected one, and the chain is sound.
pub proof fn accepted_backups_are_whole(
    backup: LedgerBackupModel,
    encoded: Seq<u8>,
    root: Seq<char>,
    expected: Option<Seq<char>>,
    path: Seq<char>,
    bytes: u64,
)
    requires
        backup_checked(backup, encoded, root, expected, path, bytes) is Ok,
    ensures
        backup.checksum == backup_checksum(encoded),
        backup.payload.ledger_id == backup.payload.ledger.ledger_id,
        backup.payload.height == chain_height(backup.payload.ledger),
        backup.payload.state_root == root,
        expected matches Some(wanted) ==> wanted == root,
        chain_checked(backup.payload.ledger) is Ok,
{
}

/// A node starts only from the state that it trusts, and only while its own chain is empty: its
/// ledger is then that state, which is final, and its configuration remembers what was trusted.
pub proof fn trusted_states_are_taken_over(
    local: LedgerModel,
    config: NodeConfigModel,
    owner: KeyModel,
    peer: Option<(Seq<char>, Seq<char>, Seq<char>, Option<Seq<char>>)>,
    expected_height: u64,
    expected_root: Seq<char>,
    allow_insecure_local: bool,
    tls_ca: Option<Seq<char>>,
    snapshot: BootstrapSnapshotModel,
    root: Seq<char>,
)
    requires
        snapshot_installed(
            local,
            config,
            owner,
            peer,
            expected_height,
            expected_root,
            allow_insecure_local,
            tls_ca,
            snapshot,
            root,
        ) is Ok,
    ensures
        ({
            let (ledger, next, report) = snapshot_installed(
                local,
                config,
                owner,
                peer,
                expected_height,
                expected_root,
                allow_insecure_local,
                tls_ca,
                snapshot,
                root,
            )->Ok_0;
            &&& local.blocks.len() == 0 && local.nodes.len() == 0
                && local.pending_operation_ids.len() == 0 && local.genesis_authority is None
            &&& root == expected_root && snapshot.state_root == expected_root
            &&& snapshot.height == expected_height && chain_height(snapshot.checkpoint)
                == expected_height
            &&& snapshot.checkpoint.pending_operation_ids.len() == 0
            &&& ledger.blocks == snapshot.checkpoint.blocks && ledger.accounts
                == snapshot.checkpoint.accounts && ledger.nodes == snapshot.checkpoint.nodes
            &&& ledger.finalized_checkpoint matches Some(last) && last.accounts == ledger.accounts
                && last.blocks == ledger.blocks && last.finalized_checkpoint is None
            &&& next.trusted_checkpoint_root == Some(expected_root)
                && next.trusted_checkpoint_height == Some(expected_height)
            &&& report.height == expected_height && report.state_root == expected_root
            &&& config.node_id matches Some(node_id) ==> (snapshot.checkpoint.nodes.contains_key(
                node_id,
            ) ==> snapshot.checkpoint.nodes[node_id].owner_address == owner.address)
        }),
{
}

} // verus!
