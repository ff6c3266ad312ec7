use vstd::prelude::*;
use vstd::string::*;

use crate::error::{outcome, Error, Outcome, Result};
use crate::model::{
    AccountModel, AccountState, ActionModel, AuthorizationModel, AvailabilitySlotRecord,
    DoubleSignEvidence, EvidenceModel, GovernanceActionRecord, GovernanceProposalRecord,
    IpSlotRecord, LedgerModel, LedgerState, NetworkModel, NetworkRecord, NodeModel, NodeRecord,
    PaymentAuthorizationRecord, ProposalModel, SlotModel, SpendModel, TreasurySpendRecord,
};
use crate::table::{ordered, orders, Replicate, Same, Table, TableKey};
use crate::text::{join3, join4};

verus! {

/// What a table has under a key.
pub open spec fn entry_of<A, W>(table: Map<A, W>, key: A) -> Option<W> {
    if table.contains_key(key) {
        Some(table[key])
    } else {
        None
    }
}

/// The rows in which a table differs from another: what the other has there.
pub open spec fn overlay_of<A, W>(table: Map<A, W>, wanted: Map<A, W>) -> Map<A, Option<W>> {
    Map::new(
        |key: A| entry_of(table, key) != entry_of(wanted, key),
        |key: A| entry_of(wanted, key),
    )
}

/// A table with some of its rows replaced or removed.
pub open spec fn overlaid<A, W>(table: Map<A, W>, rows: Map<A, Option<W>>) -> Map<A, W> {
    Map::new(
        |key: A|
            if rows.contains_key(key) {
                rows[key] is Some
            } else {
                table.contains_key(key)
            },
        |key: A|
            if rows.contains_key(key) {
                rows[key].unwrap()
            } else {
                table[key]
            },
    )
}

/// Replacing the rows in which two tables differ turns one into the other.
pub proof fn overlay_gives_the_other<A, W>(table: Map<A, W>, wanted: Map<A, W>)
    ensures
        overlaid(table, overlay_of(table, wanted)) == wanted,
{
    let rows = overlay_of(table, wanted);
    assert forall|key: A| #[trigger] overlaid(table, rows).contains_key(key)
        <==> wanted.contains_key(key) by {
        assert(rows.contains_key(key) <==> entry_of(table, key) != entry_of(wanted, key));
    }
    assert forall|key: A| wanted.contains_key(key) implies #[trigger] overlaid(table, rows)[key]
        == wanted[key] by {
        assert(rows.contains_key(key) <==> entry_of(table, key) != entry_of(wanted, key));
    }
    assert(overlaid(table, rows) =~= wanted);
}

fn same_entry<V: Replicate + Same>(a: Option<&V>, b: Option<&V>) -> (r: bool)
    ensures
        r == (a.deep_view() == b.deep_view()),
{
    match (a, b) {
        (Some(x), Some(y)) => x.same(y),
        (None, None) => true,
        _ => false,
    }
}

fn copy_entry<V: Replicate>(a: Option<&V>) -> (r: Option<V>)
    ensures
        r.deep_view() == a.deep_view(),
{
    match a {
        Some(x) => Some(x.replicate()),
        None => None,
    }
}

/// Finds the rows in which a table differs from another. Written to the table they turn it into the
/// other: `None` removes a row.
pub fn find_overlay<K: TableKey, V: Replicate + Same>(
    table: &Table<K, V>,
    wanted: &Table<K, V>,
) -> (r: Table<K, Option<V>>)
    ensures
        r@ == overlay_of(table@, wanted@),
{
    let ghost mine = table.keys();
    let ghost theirs = wanted.keys();
    let mut out: Table<K, Option<V>> = Table::new();
    let mut i: usize = 0;
    while i < table.len()
        invariant
            i <= mine.len(),
            mine == table.keys(),
            forall|key: K::V| #[trigger]
                out@.contains_key(key) <==> (exists|j: int| 0 <= j < i && mine[j] == key)
                    && entry_of(table@, key) != entry_of(wanted@, key),
            forall|key: K::V| #[trigger]
                out@.contains_key(key) ==> out@[key] == entry_of(wanted@, key),
        decreases mine.len() - i,
    {
        let key = table.key_at(i);
        let other = wanted.get(key);
        if !same_entry(Some(table.value_at(i)), other) {
            out.insert(key.replicate(), copy_entry(other));
        }
        i = i + 1;
    }
    let mut k: usize = 0;
    while k < wanted.len()
        invariant
            k <= theirs.len(),
            mine == table.keys(),
            theirs == wanted.keys(),
            i == mine.len(),
            forall|key: K::V| #[trigger] table@.contains_key(key) <==> mine.contains(key),
            forall|key: K::V| #[trigger]
                out@.contains_key(key) <==> ((exists|j: int| 0 <= j < i && mine[j] == key) || (
                exists|j: int| 0 <= j < k && theirs[j] == key)) && entry_of(table@, key)
                    != entry_of(wanted@, key),
            forall|key: K::V| #[trigger]
                out@.contains_key(key) ==> out@[key] == entry_of(wanted@, key),
        decreases theirs.len() - k,
    {
        let key = wanted.key_at(k);
        if !table.contains_key(key) {
            out.insert(key.replicate(), Some(wanted.value_at(k).replicate()));
        } else {
            proof {
                assert(mine.contains(theirs[k as int]));
                let j = choose|j: int| 0 <= j < mine.len() && mine[j] == theirs[k as int];
                assert(0 <= j < i && mine[j] == theirs[k as int]);
            }
        }
        k = k + 1;
    }
    proof {
        let rows = overlay_of(table@, wanted@);
        assert forall|key: K::V| #[trigger] out@.contains_key(key) <==> rows.contains_key(key) by {
            if rows.contains_key(key) {
                if table@.contains_key(key) {
                    assert(mine.contains(key));
                    let j = choose|j: int| 0 <= j < mine.len() && mine[j] == key;
                    assert(0 <= j < i && mine[j] == key);
                } else {
                    assert(wanted@.contains_key(key));
                    assert(theirs.contains(key));
                    let j = choose|j: int| 0 <= j < theirs.len() && theirs[j] == key;
                    assert(0 <= j < k && theirs[j] == key);
                }
            }
        }
        assert(out@ =~= rows);
    }
    out
}

/// Whether a key is one of the first of some.
pub open spec fn among_first<A>(keys: Seq<A>, count: int, key: A) -> bool {
    exists|j: int| 0 <= j < count && keys[j] == key
}

/// Replaces and removes rows of a table.
pub fn apply_overlay<K: TableKey, V: Replicate>(
    table: &mut Table<K, V>,
    rows: &Table<K, Option<V>>,
)
    ensures
        final(table)@ == overlaid(old(table)@, rows@),
{
    let ghost first = table@;
    let ghost keys = rows.keys();
    let mut i: usize = 0;
    while i < rows.len()
        invariant
            i <= keys.len(),
            keys == rows.keys(),
            first == old(table)@,
            forall|key: K::V| #[trigger]
                table@.contains_key(key) <==> if among_first(keys, i as int, key) {
                    rows@[key] is Some
                } else {
                    first.contains_key(key)
                },
            forall|key: K::V| #[trigger]
                table@.contains_key(key) ==> table@[key] == if among_first(keys, i as int, key) {
                    rows@[key].unwrap()
                } else {
                    first[key]
                },
        decreases keys.len() - i,
    {
        let ghost before = table@;
        let key = rows.key_at(i);
        match rows.value_at(i) {
            Some(value) => {
                table.insert(key.replicate(), value.replicate());
            },
            None => {
                table.remove(key);
            },
        }
        i = i + 1;
        proof {
            assert forall|other: K::V| #[trigger]
                among_first(keys, i as int, other) <==> (other == keys[i - 1] || among_first(
                    keys,
                    i - 1,
                    other,
                )) by {
                if other == keys[i - 1] {
                    assert(0 <= i - 1 < i && keys[i - 1] == other);
                }
            }
        }
    }
    proof {
        let wanted = overlaid(first, rows@);
        assert forall|key: K::V|
            among_first(keys, i as int, key) <==> #[trigger] rows@.contains_key(key) by {
            if rows@.contains_key(key) {
                assert(keys.contains(key));
                let j = choose|j: int| 0 <= j < keys.len() && keys[j] == key;
                assert(0 <= j < i && keys[j] == key);
            }
        }
        assert forall|key: K::V| #[trigger] table@.contains_key(key) <==> wanted.contains_key(
            key,
        ) by {
            assert(rows@.contains_key(key) || !rows@.contains_key(key));
        }
        assert forall|key: K::V| wanted.contains_key(key) implies #[trigger] table@[key]
            == wanted[key] by {
            assert(rows@.contains_key(key) || !rows@.contains_key(key));
            assert(table@.contains_key(key));
        }
        assert(table@ =~= wanted);
    }
}

/// A list as a table by place.
pub open spec fn indexed<W>(items: Seq<W>) -> Map<u64, W> {
    Map::new(|index: u64| index < items.len(), |index: u64| items[index as int])
}

/// Makes a table by place of a list.
pub fn index_items<V: Replicate>(items: &Vec<V>) -> (r: Table<u64, V>)
    ensures
        r@ == indexed(items.deep_view()),
{
    let ghost all = items.deep_view();
    let count: usize = items.len();
    let mut out: Table<u64, V> = Table::new();
    let mut i: usize = 0;
    while i < count
        invariant
            i <= all.len(),
            all == items.deep_view(),
            all.len() == items@.len(),
            all.len() == count,
            forall|key: u64| #[trigger] out@.contains_key(key) <==> key < i,
            forall|key: u64| #[trigger] out@.contains_key(key) ==> out@[key] == all[key as int],
        decreases all.len() - i,
    {
        out.insert(i as u64, items[i].replicate());
        i = i + 1;
    }
    assert(out@ =~= indexed(all));
    out
}

/// Whether a table has just the places of a list.
pub open spec fn is_contiguous<W>(rows: Map<u64, W>) -> bool {
    forall|key: u64| #[trigger] rows.contains_key(key) <==> key < rows.len()
}

/// Checks that a table has just the places of a list.
pub fn ensure_contiguous<V: Replicate>(rows: &Table<u64, V>) -> (r: Result<()>)
    ensures
        outcome(r) == if is_contiguous(rows@) {
            Ok(())
        } else {
            Err("indexed state table is not contiguous"@)
        },
{
    let ghost keys = rows.keys();
    let mut i: usize = 0;
    while i < rows.len()
        invariant
            i <= keys.len(),
            keys == rows.keys(),
            forall|j: int| 0 <= j < i ==> #[trigger] keys[j] == j,
        decreases keys.len() - i,
    {
        if *rows.key_at(i) != i as u64 {
            proof {
                contiguous_keys(rows@, keys, i as int);
            }
            return Err(Error::msg("indexed state table is not contiguous"));
        }
        i = i + 1;
    }
    proof {
        assert forall|key: u64| #[trigger] rows@.contains_key(key) <==> key < rows@.len() by {
            if rows@.contains_key(key) {
                assert(keys.contains(key));
                let j = choose|j: int| 0 <= j < keys.len() && keys[j] == key;
                assert(keys[j] == j);
            }
            if key < rows@.len() {
                assert(keys[key as int] == key);
                assert(rows@.contains_key(keys[key as int]));
            }
        }
    }
    Ok(())
}

proof fn contiguous_keys<W>(rows: Map<u64, W>, keys: Seq<u64>, at: int)
    requires
        orders::<u64>(keys, rows.dom()),
        keys.len() == rows.len(),
        0 <= at < keys.len(),
        forall|j: int| 0 <= j < at ==> #[trigger] keys[j] == j,
        keys[at] != at,
    ensures
        !is_contiguous(rows),
{
    if at > 0 {
        assert(keys[at - 1] < keys[at]);
        assert(keys[at - 1] == at - 1);
    }
    assert(keys[at] > at);
    if is_contiguous(rows) {
        assert(keys.contains(keys[at]));
        assert(rows.dom().contains(keys[at]));
        assert(rows.contains_key(keys[at]));
        assert(rows.contains_key(at as u64));
        assert(rows.dom().contains(at as u64));
        assert(keys.contains(at as u64));
        let j = choose|j: int| 0 <= j < keys.len() && keys[j] == at as u64;
        if j < at {
            assert(keys[j] == j);
        } else if j > at {
            assert(keys[at] < keys[j]);
        }
    }
}

/// The list that a table by place stands for.
pub open spec fn listed<W>(rows: Map<u64, W>) -> Seq<W> {
    Seq::new(rows.len(), |i: int| rows[i as u64])
}

/// A list with some of its places replaced or removed.
pub open spec fn list_overlaid<W>(items: Seq<W>, rows: Map<u64, Option<W>>) -> Outcome<Seq<W>> {
    let table = overlaid(indexed(items), rows);
    if is_contiguous(table) {
        Ok(listed(table))
    } else {
        Err("indexed state table is not contiguous"@)
    }
}

/// Replaces and removes places of a list.
pub fn apply_list_overlay<V: Replicate>(items: &Vec<V>, rows: &Table<u64, Option<V>>) -> (r: Result<
    Vec<V>,
>)
    ensures
        match list_overlaid(items.deep_view(), rows@) {
            Ok(list) => r matches Ok(found) && found.deep_view() == list,
            Err(refusal) => r matches Err(error) && error@ == refusal,
        },
{
    let mut table = index_items(items);
    apply_overlay(&mut table, rows);
    ensure_contiguous(&table)?;
    Ok(list_rows(&table))
}

/// Makes a list of a table that has just the places of one.
pub fn list_rows<V: Replicate>(rows: &Table<u64, V>) -> (r: Vec<V>)
    requires
        is_contiguous(rows@),
    ensures
        r.deep_view() == listed(rows@),
{
    let count: usize = rows.len();
    let mut out: Vec<V> = Vec::new();
    let mut i: usize = 0;
    assert(out.deep_view() =~= listed(rows@).take(0));
    while i < count
        invariant
            i <= count,
            count == rows@.len(),
            is_contiguous(rows@),
            out.deep_view() == listed(rows@).take(i as int),
        decreases count - i,
    {
        assert(rows@.contains_key(i as u64));
        if let Some(value) = rows.get(&(i as u64)) {
            let ghost before = out.deep_view();
            let copy = value.replicate();
            out.push(copy);
            assert(out.deep_view() =~= before.push(copy.deep_view()));
            assert(listed(rows@).take(i + 1) =~= listed(rows@).take(i as int).push(
                listed(rows@)[i as int],
            ));
        }
        i = i + 1;
    }
    assert(listed(rows@).take(count as int) =~= listed(rows@));
    out
}

proof fn indexed_is_contiguous<W>(items: Seq<W>)
    requires
        items.len() <= u64::MAX,
    ensures
        is_contiguous(indexed(items)),
        listed(indexed(items)) == items,
        indexed(items).len() == items.len(),
    decreases items.len(),
{
    let table = indexed(items);
    if items.len() == 0 {
        assert(table =~= Map::<u64, W>::empty());
    } else {
        let shorter = items.drop_last();
        indexed_is_contiguous(shorter);
        let last = (items.len() - 1) as u64;
        assert(table =~= indexed(shorter).insert(last, items.last()));
        assert(!indexed(shorter).contains_key(last));
        assert(indexed(shorter).dom().finite()) by {
            indexed_is_finite(shorter);
        }
        assert(table.dom() =~= indexed(shorter).dom().insert(last));
    }
    assert(listed(table) =~= items);
}

proof fn indexed_is_finite<W>(items: Seq<W>)
    requires
        items.len() <= u64::MAX,
    ensures
        indexed(items).dom().finite(),
    decreases items.len(),
{
    if items.len() == 0 {
        assert(indexed(items).dom() =~= Set::<u64>::empty());
    } else {
        let shorter = items.drop_last();
        indexed_is_finite(shorter);
        let last = (items.len() - 1) as u64;
        assert(indexed(items).dom() =~= indexed(shorter).dom().insert(last));
    }
}

/// Replacing the places in which two lists differ turns one into the other.
pub proof fn list_overlay_gives_the_other<W>(items: Seq<W>, wanted: Seq<W>)
    requires
        wanted.len() <= u64::MAX,
    ensures
        list_overlaid(items, overlay_of(indexed(items), indexed(wanted))) == Ok::<Seq<W>, Seq<char>>(
            wanted,
        ),
{
    overlay_gives_the_other(indexed(items), indexed(wanted));
    indexed_is_contiguous(wanted);
}

/// The aliases of networks, or the refusal of a network that is under another commitment or has the
/// alias of one before.
pub open spec fn aliases_of(
    networks: Map<Seq<char>, NetworkModel>,
    keys: Seq<Seq<char>>,
    aliases: Map<Seq<char>, Seq<char>>,
) -> Outcome<Map<Seq<char>, Seq<char>>>
    decreases keys.len(),
{
    if keys.len() == 0 {
        Ok(aliases)
    } else {
        let network = networks[keys[0]];
        if network.commitment != keys[0] {
            Err(
                "network table key "@ + keys[0] + " does not match its record commitment "@
                    + network.commitment,
            )
        } else if aliases.contains_key(network.alias) {
            Err("network alias '"@ + network.alias + "' is duplicated in persisted state"@)
        } else {
            aliases_of(networks, keys.drop_first(), aliases.insert(network.alias, keys[0]))
        }
    }
}

/// Lists the aliases of networks.
pub fn network_aliases(networks: &Table<String, NetworkRecord>) -> (r: Result<Table<String, String>>)
    ensures
        match aliases_of(networks@, ordered::<String>(networks@.dom()), Map::empty()) {
            Ok(aliases) => r matches Ok(table) && table@ == aliases,
            Err(refusal) => r matches Err(error) && error@ == refusal,
        },
{
    let ghost keys = networks.keys();
    let mut aliases: Table<String, String> = Table::new();
    let mut i: usize = 0;
    assert(keys.skip(0) =~= keys);
    while i < networks.len()
        invariant
            i <= keys.len(),
            keys == networks.keys(),
            aliases_of(networks@, keys, Map::empty()) == aliases_of(
                networks@,
                keys.skip(i as int),
                aliases@,
            ),
        decreases keys.len() - i,
    {
        assert(keys.skip(i as int)[0] == keys[i as int]);
        assert(keys.skip(i as int).drop_first() =~= keys.skip(i + 1));
        let commitment = networks.key_at(i);
        let network = networks.value_at(i);
        if !network.commitment.same(commitment) {
            return Err(
                Error::owned(
                    join4(
                        "network table key ",
                        commitment.as_str(),
                        " does not match its record commitment ",
                        network.commitment.as_str(),
                    ),
                ),
            );
        }
        if aliases.contains_key(&network.alias) {
            return Err(
                Error::owned(
                    join3(
                        "network alias '",
                        network.alias.as_str(),
                        "' is duplicated in persisted state",
                    ),
                ),
            );
        }
        aliases.insert(network.alias.clone(), commitment.clone());
        i = i + 1;
    }
    Ok(aliases)
}

/// Where the last final state differs from the current one.
pub struct CommittedRows {
    pub accounts: Table<String, Option<AccountState>>,
    pub networks: Table<String, Option<NetworkRecord>>,
    pub nodes: Table<u64, Option<NodeRecord>>,
    pub ip_slots: Table<String, Option<IpSlotRecord>>,
    pub availability_slots: Table<String, Option<AvailabilitySlotRecord>>,
    pub payment_authorizations: Table<String, Option<PaymentAuthorizationRecord>>,
    pub treasury_spends: Table<u64, Option<TreasurySpendRecord>>,
    pub governance_actions: Table<u64, Option<GovernanceActionRecord>>,
    pub governance_proposals: Table<u64, Option<GovernanceProposalRecord>>,
    pub double_sign_evidence: Table<u64, Option<DoubleSignEvidence>>,
}

/// The contents of `CommittedRows`.
#[verifier::ext_equal]
pub struct RowsModel {
    pub accounts: Map<Seq<char>, Option<AccountModel>>,
    pub networks: Map<Seq<char>, Option<NetworkModel>>,
    pub nodes: Map<u64, Option<NodeModel>>,
    pub ip_slots: Map<Seq<char>, Option<IpSlotRecord>>,
    pub availability_slots: Map<Seq<char>, Option<SlotModel>>,
    pub payment_authorizations: Map<Seq<char>, Option<AuthorizationModel>>,
    pub treasury_spends: Map<u64, Option<SpendModel>>,
    pub governance_actions: Map<u64, Option<ActionModel>>,
    pub governance_proposals: Map<u64, Option<ProposalModel>>,
    pub double_sign_evidence: Map<u64, Option<EvidenceModel>>,
}

impl DeepView for CommittedRows {
    type V = RowsModel;

    open spec fn deep_view(&self) -> RowsModel {
        RowsModel {
            accounts: self.accounts@,
            networks: self.networks@,
            nodes: self.nodes@,
            ip_slots: self.ip_slots@,
            availability_slots: self.availability_slots@,
            payment_authorizations: self.payment_authorizations@,
            treasury_spends: self.treasury_spends@,
            governance_actions: self.governance_actions@,
            governance_proposals: self.governance_proposals@,
            double_sign_evidence: self.double_sign_evidence@,
        }
    }
}

/// The rows in which the last final state differs from the current one.
pub open spec fn committed_rows(current: LedgerModel, committed: LedgerModel) -> RowsModel {
    RowsModel {
        accounts: overlay_of(current.accounts, committed.accounts),
        networks: overlay_of(current.networks, committed.networks),
        nodes: overlay_of(current.nodes, committed.nodes),
        ip_slots: overlay_of(current.ip_slots, committed.ip_slots),
        availability_slots: overlay_of(current.availability_slots, committed.availability_slots),
        payment_authorizations: overlay_of(
            current.payment_authorizations,
            committed.payment_authorizations,
        ),
        treasury_spends: overlay_of(
            indexed(current.treasury_spends),
            indexed(committed.treasury_spends),
        ),
        governance_actions: overlay_of(
            indexed(current.governance.actions),
            indexed(committed.governance.actions),
        ),
        governance_proposals: overlay_of(
            current.governance.proposals,
            committed.governance.proposals,
        ),
        double_sign_evidence: overlay_of(
            indexed(current.consensus.double_sign_evidence),
            indexed(committed.consensus.double_sign_evidence),
        ),
    }
}

/// Finds the rows in which the last final state differs from the current one.
pub fn find_committed_rows(current: &LedgerState, committed: &LedgerState) -> (r: CommittedRows)
    ensures
        r.deep_view() == committed_rows(current@, committed@),
{
    CommittedRows {
        accounts: find_overlay(&current.accounts, &committed.accounts),
        networks: find_overlay(&current.networks, &committed.networks),
        nodes: find_overlay(&current.nodes, &committed.nodes),
        ip_slots: find_overlay(&current.ip_slots, &committed.ip_slots),
        availability_slots: find_overlay(
            &current.availability_slots,
            &committed.availability_slots,
        ),
        payment_authorizations: find_overlay(
            &current.payment_authorizations,
            &committed.payment_authorizations,
        ),
        treasury_spends: find_overlay(
            &index_items(&current.treasury_spends),
            &index_items(&committed.treasury_spends),
        ),
        governance_actions: find_overlay(
            &index_items(&current.governance.actions),
            &index_items(&committed.governance.actions),
        ),
        governance_proposals: find_overlay(
            &current.governance.proposals,
            &committed.governance.proposals,
        ),
        double_sign_evidence: find_overlay(
            &index_items(&current.consensus.double_sign_evidence),
            &index_items(&committed.consensus.double_sign_evidence),
        ),
    }
}

/// The last final state, from what is stored of it apart from the tables, the tables of the current
/// state and the rows in which they differ.
pub open spec fn committed_restored(
    current: LedgerModel,
    stored: LedgerModel,
    rows: RowsModel,
) -> Outcome<LedgerModel> {
    match list_overlaid(current.treasury_spends, rows.treasury_spends) {
        Err(refusal) => Err(refusal),
        Ok(treasury_spends) => match list_overlaid(
            current.governance.actions,
            rows.governance_actions,
        ) {
            Err(refusal) => Err(refusal),
            Ok(actions) => match list_overlaid(
                current.consensus.double_sign_evidence,
                rows.double_sign_evidence,
            ) {
                Err(refusal) => Err(refusal),
                Ok(evidence) => {
                    let networks = overlaid(current.networks, rows.networks);
                    match aliases_of(
                        networks,
                        ordered::<String>(networks.dom()),
                        Map::empty(),
                    ) {
                        Err(refusal) => Err(refusal),
                        Ok(network_aliases) => Ok(
                            LedgerModel {
                                accounts: overlaid(current.accounts, rows.accounts),
                                networks,
                                network_aliases,
                                nodes: overlaid(current.nodes, rows.nodes),
                                ip_slots: overlaid(current.ip_slots, rows.ip_slots),
                                availability_slots: overlaid(
                                    current.availability_slots,
                                    rows.availability_slots,
                                ),
                                payment_authorizations: overlaid(
                                    current.payment_authorizations,
                                    rows.payment_authorizations,
                                ),
                                treasury_spends,
                                governance: crate::model::GovernanceModel {
                                    actions,
                                    proposals: overlaid(
                                        current.governance.proposals,
                                        rows.governance_proposals,
                                    ),
                                    ..stored.governance
                                },
                                consensus: crate::model::ConsensusModel {
                                    double_sign_evidence: evidence,
                                    ..stored.consensus
                                },
                                ..stored
                            },
                        ),
                    }
                },
            },
        },
    }
}

/// Restores the last final state.
pub fn restore_committed(current: &LedgerState, stored: &LedgerState, rows: &CommittedRows) -> (r:
    Result<LedgerState>)
    ensures
        outcome(r) == committed_restored(current@, stored@, rows.deep_view()),
{
    let mut committed = stored.copy();
    committed.accounts = current.accounts.replicate();
    apply_overlay(&mut committed.accounts, &rows.accounts);
    committed.networks = current.networks.replicate();
    apply_overlay(&mut committed.networks, &rows.networks);
    committed.nodes = current.nodes.replicate();
    apply_overlay(&mut committed.nodes, &rows.nodes);
    committed.ip_slots = current.ip_slots.replicate();
    apply_overlay(&mut committed.ip_slots, &rows.ip_slots);
    committed.availability_slots = current.availability_slots.replicate();
    apply_overlay(&mut committed.availability_slots, &rows.availability_slots);
    committed.payment_authorizations = current.payment_authorizations.replicate();
    apply_overlay(&mut committed.payment_authorizations, &rows.payment_authorizations);
    committed.treasury_spends = apply_list_overlay(
        &current.treasury_spends,
        &rows.treasury_spends,
    )?;
    committed.governance.actions = apply_list_overlay(
        &current.governance.actions,
        &rows.governance_actions,
    )?;
    committed.governance.proposals = current.governance.proposals.replicate();
    apply_overlay(&mut committed.governance.proposals, &rows.governance_proposals);
    committed.consensus.double_sign_evidence = apply_list_overlay(
        &current.consensus.double_sign_evidence,
        &rows.double_sign_evidence,
    )?;
    committed.network_aliases = network_aliases(&committed.networks)?;
    Ok(committed)
}

/// A state without the tables that are stored row by row, as it is stored itself.
pub open spec fn tables_cleared(ledger: LedgerModel) -> LedgerModel {
    LedgerModel {
        accounts: Map::empty(),
        networks: Map::empty(),
        network_aliases: Map::empty(),
        nodes: Map::empty(),
        ip_slots: Map::empty(),
        availability_slots: Map::empty(),
        payment_authorizations: Map::empty(),
        treasury_spends: Seq::empty(),
        governance: crate::model::GovernanceModel {
            actions: Seq::empty(),
            proposals: Map::empty(),
            ..ledger.governance
        },
        consensus: crate::model::ConsensusModel {
            double_sign_evidence: Seq::empty(),
            ..ledger.consensus
        },
        ..ledger
    }
}

/// Whether the aliases of a ledger are those of its networks.
pub open spec fn aliases_agree(ledger: LedgerModel) -> bool {
    aliases_of(ledger.networks, ordered::<String>(ledger.networks.dom()), Map::empty()) == Ok::<
        Map<Seq<char>, Seq<char>>,
        Seq<char>,
    >(ledger.network_aliases)
}

/// What is stored of the last final state gives it back: what it has apart from the tables, the
/// tables of the current state and the rows in which they differ.
pub proof fn stored_state_comes_back(current: LedgerModel, committed: LedgerModel)
    requires
        aliases_agree(committed),
        committed.treasury_spends.len() <= u64::MAX,
        committed.governance.actions.len() <= u64::MAX,
        committed.consensus.double_sign_evidence.len() <= u64::MAX,
    ensures
        committed_restored(
            current,
            tables_cleared(committed),
            committed_rows(current, committed),
        ) == Ok::<LedgerModel, Seq<char>>(committed),
{
    overlay_gives_the_other(current.accounts, committed.accounts);
    overlay_gives_the_other(current.networks, committed.networks);
    overlay_gives_the_other(current.nodes, committed.nodes);
    overlay_gives_the_other(current.ip_slots, committed.ip_slots);
    overlay_gives_the_other(current.availability_slots, committed.availability_slots);
    overlay_gives_the_other(current.payment_authorizations, committed.payment_authorizations);
    overlay_gives_the_other(current.governance.proposals, committed.governance.proposals);
    list_overlay_gives_the_other(current.treasury_spends, committed.treasury_spends);
    list_overlay_gives_the_other(current.governance.actions, committed.governance.actions);
    list_overlay_gives_the_other(
        current.consensus.double_sign_evidence,
        committed.consensus.double_sign_evidence,
    );
}

} // verus!
