use vstd::prelude::*;
use vstd::string::*;
use vstd::utf8::*;

use crate::amount::{format_mrk, mrk_text};
use crate::chain::{chain_height, chain_tip_hash, height, tip_hash};
use crate::crypto::{base64url_decoded, base64url_encoded, decode_url_safe, encode_url_safe};
use crate::error::{outcome, Error, Outcome, Result};
use crate::model::{AccountModel, AccountState, LedgerModel, LedgerState};
use crate::number::{clamped_u128, clamped_u64, least, saturating_mul_u128};
use crate::protocol::BPS_DENOMINATOR;
use crate::registry::{page_checked, validate_registry_page_limit};
use crate::sequence::{arrange, arranged, Ranked};
use crate::table::{ordered, Replicate, Table};
use crate::text::{
    all_digits, decimal, decimal_digits, decimal_is_short, digits_value, join5, parse_digits,
    text_less, text_lt, text_same, u128_text, u64_text, unsigned_digits, usize_text,
};
use crate::views::{
    AccountRankingEntryView, AccountRankingEntryViewModel, AccountRankingListView,
    AccountRankingListViewModel,
};

verus! {

/// What an address had when the ranking was made.
#[derive(Debug)]
pub struct AccountRankingBalance {
    pub address: String,
    pub balance: u128,
}

/// The contents of `AccountRankingBalance`.
#[verifier::ext_equal]
pub struct RankedBalance {
    pub address: Seq<char>,
    pub balance: u128,
}

impl DeepView for AccountRankingBalance {
    type V = RankedBalance;

    open spec fn deep_view(&self) -> RankedBalance {
        RankedBalance { address: self.address@, balance: self.balance }
    }
}

impl Replicate for AccountRankingBalance {
    fn replicate(&self) -> (r: AccountRankingBalance) {
        AccountRankingBalance { address: self.address.clone(), balance: self.balance }
    }
}

impl Ranked for AccountRankingBalance {
    open spec fn precedes(a: RankedBalance, b: RankedBalance) -> bool {
        a.balance > b.balance || a.balance == b.balance && text_lt(a.address, b.address)
    }

    fn comes_before(&self, other: &AccountRankingBalance) -> (r: bool) {
        self.balance > other.balance || self.balance == other.balance && text_less(
            self.address.as_str(),
            other.address.as_str(),
        )
    }
}

/// The ranking of the accounts at the end of an epoch.
#[derive(Debug)]
pub struct AccountRankingSnapshot {
    pub ledger_id: String,
    pub epoch: u64,
    pub height: u64,
    pub block_hash: Option<String>,
    pub total_balance: u128,
    pub accounts: Vec<AccountRankingBalance>,
}

/// The contents of `AccountRankingSnapshot`.
#[verifier::ext_equal]
pub struct RankingModel {
    pub ledger_id: Seq<char>,
    pub epoch: u64,
    pub height: u64,
    pub block_hash: Option<Seq<char>>,
    pub total_balance: u128,
    pub accounts: Seq<RankedBalance>,
}

impl DeepView for AccountRankingSnapshot {
    type V = RankingModel;

    open spec fn deep_view(&self) -> RankingModel {
        RankingModel {
            ledger_id: self.ledger_id@,
            epoch: self.epoch,
            height: self.height,
            block_hash: self.block_hash.deep_view(),
            total_balance: self.total_balance,
            accounts: self.accounts.deep_view(),
        }
    }
}

/// The sum of the balances of some addresses.
pub open spec fn balances_sum(accounts: Map<Seq<char>, AccountModel>, keys: Seq<Seq<char>>) -> nat
    decreases keys.len(),
{
    if keys.len() == 0 {
        0
    } else {
        balances_sum(accounts, keys.drop_last()) + accounts[keys.last()].balance as nat
    }
}

/// The balances of those of some addresses that have one.
pub open spec fn funded(accounts: Map<Seq<char>, AccountModel>, keys: Seq<Seq<char>>) -> Seq<
    RankedBalance,
>
    decreases keys.len(),
{
    if keys.len() == 0 {
        Seq::empty()
    } else {
        let earlier = funded(accounts, keys.drop_last());
        let balance = accounts[keys.last()].balance;
        if balance > 0 {
            earlier.push(RankedBalance { address: keys.last(), balance })
        } else {
            earlier
        }
    }
}

/// The ranking that is made when a block ends an epoch: of the state before the block.
pub open spec fn ranking_made(before: LedgerModel, after: LedgerModel) -> Outcome<
    Option<RankingModel>,
> {
    let keys = ordered::<String>(before.accounts.dom());
    if after.epoch_number <= before.epoch_number || chain_height(after) != clamped_u64(
        chain_height(before) + 1,
    ) {
        Ok(None)
    } else if balances_sum(before.accounts, keys) > u128::MAX {
        Err("total account balance overflow"@)
    } else {
        Ok(
            Some(
                RankingModel {
                    ledger_id: before.ledger_id,
                    epoch: (after.epoch_number - 1) as u64,
                    height: chain_height(before),
                    block_hash: chain_tip_hash(before),
                    total_balance: balances_sum(before.accounts, keys) as u128,
                    accounts: arranged::<AccountRankingBalance>(funded(before.accounts, keys)),
                },
            ),
        )
    }
}

proof fn sums_grow(accounts: Map<Seq<char>, AccountModel>, keys: Seq<Seq<char>>, count: int)
    requires
        0 <= count <= keys.len(),
    ensures
        balances_sum(accounts, keys.take(count)) <= balances_sum(accounts, keys),
    decreases keys.len(),
{
    if count < keys.len() {
        sums_grow(accounts, keys.drop_last(), count);
        assert(keys.drop_last().take(count) =~= keys.take(count));
    } else {
        assert(keys.take(count) =~= keys);
    }
}

fn list_balances(accounts: &Table<String, AccountState>) -> (r: Option<
    (u128, Vec<AccountRankingBalance>),
>)
    ensures
        ({
            let keys = ordered::<String>(accounts@.dom());
            match r {
                None => balances_sum(accounts@, keys) > u128::MAX,
                Some(found) => found.0 == balances_sum(accounts@, keys) && found.1.deep_view()
                    == funded(accounts@, keys),
            }
        }),
{
    let ghost keys = accounts.keys();
    let mut total: u128 = 0;
    let mut out: Vec<AccountRankingBalance> = Vec::new();
    let mut i: usize = 0;
    assert(keys.take(0) =~= Seq::<Seq<char>>::empty());
    assert(out.deep_view() =~= Seq::<RankedBalance>::empty());
    while i < accounts.len()
        invariant
            i <= keys.len(),
            keys == accounts.keys(),
            total == balances_sum(accounts@, keys.take(i as int)),
            out.deep_view() == funded(accounts@, keys.take(i as int)),
        decreases keys.len() - i,
    {
        assert(keys.take(i + 1).drop_last() =~= keys.take(i as int));
        assert(keys.take(i + 1).last() == keys[i as int]);
        let account = accounts.value_at(i);
        match total.checked_add(account.balance) {
            None => {
                proof {
                    sums_grow(accounts@, keys, i + 1);
                }
                return None;
            },
            Some(sum) => {
                total = sum;
            },
        }
        if account.balance > 0 {
            let ghost before = out.deep_view();
            let item = AccountRankingBalance {
                address: accounts.key_at(i).clone(),
                balance: account.balance,
            };
            out.push(item);
            assert(out.deep_view() =~= before.push(item.deep_view()));
        }
        i = i + 1;
    }
    assert(keys.take(keys.len() as int) =~= keys);
    Some((total, out))
}

/// Makes the ranking of the accounts when a block ends an epoch.
pub fn snapshot_for_finalized_transition(before: &LedgerState, after: &LedgerState) -> (r: Result<
    Option<AccountRankingSnapshot>,
>)
    ensures
        match ranking_made(before@, after@) {
            Ok(ranking) => r matches Ok(made) && made.deep_view() == ranking,
            Err(refusal) => r matches Err(error) && error@ == refusal,
        },
{
    if after.epoch_number <= before.epoch_number || height(after) != height(before).saturating_add(
        1,
    ) {
        return Ok(None);
    }
    match list_balances(&before.accounts) {
        None => Err(Error::msg("total account balance overflow")),
        Some((total_balance, found)) => Ok(
            Some(
                AccountRankingSnapshot {
                    ledger_id: before.ledger_id.clone(),
                    epoch: after.epoch_number - 1,
                    height: height(before),
                    block_hash: tip_hash(before),
                    total_balance,
                    accounts: arrange(&found),
                },
            ),
        ),
    }
}

/// What a cursor says: the ranking that it belongs to and a place in it.
pub open spec fn cursor_text(epoch: u64, height: u64, offset: usize) -> Seq<char> {
    decimal(epoch as nat) + ":"@ + decimal(height as nat) + ":"@ + decimal(offset as nat)
}

proof fn cursor_is_ascii(epoch: u64, height: u64, offset: usize)
    ensures
        is_ascii_chars(cursor_text(epoch, height, offset)),
{
    reveal_strlit(":");
    let one = decimal(epoch as nat);
    let two = decimal(height as nat);
    let three = decimal(offset as nat);
    let text = cursor_text(epoch, height, offset);
    decimal_digits(epoch as nat);
    decimal_digits(height as nat);
    decimal_digits(offset as nat);
    let a = one.len() as int;
    let b = a + 1 + two.len();
    assert forall|i: int| 0 <= i < text.len() implies 0 <= #[trigger] (text[i] as nat) < 128 by {
        if i < a {
            assert(text[i] == one[i]);
        } else if a < i < b {
            assert(text[i] == two[i - a - 1]);
        } else if i > b {
            assert(text[i] == three[i - b - 1]);
        }
    }
}

proof fn cursor_is_short(epoch: u64, height: u64, offset: usize)
    ensures
        encode_utf8(cursor_text(epoch, height, offset)).len() <= 62,
{
    reveal_strlit(":");
    decimal_is_short(epoch as nat);
    decimal_is_short(height as nat);
    decimal_is_short(offset as nat);
    cursor_is_ascii(epoch, height, offset);
    is_ascii_chars_encode_utf8(cursor_text(epoch, height, offset));
}

/// Makes a cursor.
pub fn account_ranking_cursor(epoch: u64, height: u64, offset: usize) -> (r: String)
    ensures
        r@ == base64url_encoded(encode_utf8(cursor_text(epoch, height, offset))),
        base64url_decoded(r@) == Some(encode_utf8(cursor_text(epoch, height, offset))),
{
    let text = join5(
        u64_text(epoch).as_str(),
        ":",
        u64_text(height).as_str(),
        ":",
        usize_text(offset).as_str(),
    );
    proof {
        cursor_is_short(epoch, height, offset);
    }
    encode_url_safe(text.as_str().as_bytes())
}

/// The unsigned number that some bytes denote, if it is at most `max`.
pub open spec fn number_read(bytes: Seq<u8>, max: nat) -> Option<nat> {
    let digits = unsigned_digits(bytes);
    if digits.len() > 0 && all_digits(digits) && digits_value(digits) <= max {
        Some(digits_value(digits))
    } else {
        None
    }
}

fn read_number(bytes: &[u8], start: usize, end: usize, max: u64) -> (r: Option<u64>)
    requires
        start <= end <= bytes@.len(),
    ensures
        match number_read(bytes@.subrange(start as int, end as int), max as nat) {
            Some(number) => r matches Some(value) && value == number,
            None => r is None,
        },
{
    let ghost text = bytes@.subrange(start as int, end as int);
    if start == end {
        return None;
    }
    let from: usize = if end - start > 1 && bytes[start] == 43 {
        start + 1
    } else {
        start
    };
    assert(text[0] == bytes@[start as int]);
    assert(bytes@.subrange(from as int, end as int) =~= unsigned_digits(text));
    match parse_digits(bytes, from, end) {
        Some(value) => if value <= max as u128 {
            Some(value as u64)
        } else {
            None
        },
        None => None,
    }
}

/// The fields of a cursor: two numbers of 64 bits and a place, with colons between them.
pub open spec fn cursor_fields(bytes: Seq<u8>) -> Option<(u64, u64, usize)> {
    if exists|a: int, b: int| colons_at(bytes, a, b) {
        let (a, b) = choose|a: int, b: int| colons_at(bytes, a, b);
        match (
            number_read(bytes.take(a), u64::MAX as nat),
            number_read(bytes.subrange(a + 1, b), u64::MAX as nat),
            number_read(bytes.skip(b + 1), usize::MAX as nat),
        ) {
            (Some(epoch), Some(height), Some(offset)) => Some(
                (epoch as u64, height as u64, offset as usize),
            ),
            _ => None,
        }
    } else {
        None
    }
}

/// Whether the only two colons are at two places.
pub open spec fn colons_at(bytes: Seq<u8>, a: int, b: int) -> bool {
    &&& 0 <= a < b < bytes.len()
    &&& bytes[a] == 58 && bytes[b] == 58
    &&& forall|i: int| 0 <= i < bytes.len() && i != a && i != b ==> #[trigger] bytes[i] != 58
}

proof fn colons_are_unique(bytes: Seq<u8>, a: int, b: int, c: int, d: int)
    requires
        colons_at(bytes, a, b),
        colons_at(bytes, c, d),
    ensures
        a == c && b == d,
{
    assert(bytes[a] == 58 && bytes[b] == 58 && bytes[c] == 58 && bytes[d] == 58);
}

fn find_colons(bytes: &[u8]) -> (r: Option<(usize, usize)>)
    ensures
        match r {
            Some(found) => colons_at(bytes@, found.0 as int, found.1 as int),
            None => forall|a: int, b: int| !colons_at(bytes@, a, b),
        },
{
    let mut count: usize = 0;
    let mut first: usize = 0;
    let mut second: usize = 0;
    let mut i: usize = 0;
    while i < bytes.len()
        invariant
            i <= bytes@.len(),
            count <= 2,
            count >= 1 ==> first < i && bytes@[first as int] == 58,
            count >= 2 ==> first < second < i && bytes@[second as int] == 58,
            forall|j: int|
                0 <= j < i && !(count >= 1 && j == first) && !(count >= 2 && j == second)
                    ==> #[trigger] bytes@[j] != 58,
        decreases bytes@.len() - i,
    {
        if bytes[i] == 58 {
            if count == 0 {
                first = i;
                count = 1;
            } else if count == 1 {
                second = i;
                count = 2;
            } else {
                proof {
                    assert forall|a: int, b: int| !colons_at(bytes@, a, b) by {
                        if colons_at(bytes@, a, b) {
                            assert(bytes@[first as int] == 58);
                            assert(bytes@[second as int] == 58);
                            assert(bytes@[i as int] == 58);
                        }
                    }
                }
                return None;
            }
        }
        i = i + 1;
    }
    if count < 2 {
        proof {
            assert forall|a: int, b: int| !colons_at(bytes@, a, b) by {
                if colons_at(bytes@, a, b) {
                    assert(bytes@[a] == 58);
                    assert(bytes@[b] == 58);
                }
            }
        }
        return None;
    }
    Some((first, second))
}

fn read_cursor_fields(bytes: &[u8]) -> (r: Option<(u64, u64, usize)>)
    ensures
        r == cursor_fields(bytes@),
{
    match find_colons(bytes) {
        None => None,
        Some((a, b)) => {
            let end: usize = bytes.len();
            proof {
                let (c, d) = choose|c: int, d: int| colons_at(bytes@, c, d);
                colons_are_unique(bytes@, a as int, b as int, c, d);
                assert(bytes@.take(a as int) =~= bytes@.subrange(0, a as int));
                assert(bytes@.skip(b + 1) =~= bytes@.subrange(b + 1, end as int));
            }
            match (
                read_number(bytes, 0, a, u64::MAX),
                read_number(bytes, a + 1, b, u64::MAX),
                read_number(bytes, b + 1, end, usize::MAX as u64),
            ) {
                (Some(epoch), Some(height), Some(offset)) => Some(
                    (epoch, height, offset as usize),
                ),
                _ => None,
            }
        },
    }
}

/// The place that a cursor of a ranking stands for, by what was decoded from it.
pub open spec fn cursor_read(decoded: Option<Seq<u8>>, epoch: u64, height: u64) -> Outcome<usize> {
    match decoded {
        None => Err("account ranking cursor is invalid"@),
        Some(bytes) => match cursor_fields(bytes) {
            None => Err("account ranking cursor is invalid"@),
            Some(fields) => if fields.0 != epoch || fields.1 != height {
                Err("account ranking cursor belongs to another snapshot"@)
            } else {
                Ok(fields.2)
            },
        },
    }
}

/// Reads a cursor that has been decoded.
pub fn read_account_ranking_cursor(decoded: &Option<Vec<u8>>, epoch: u64, height: u64) -> (r: Result<
    usize,
>)
    ensures
        outcome(r) == cursor_read(
            match *decoded {
                Some(bytes) => Some(bytes@),
                None => None,
            },
            epoch,
            height,
        ),
{
    match decoded {
        None => Err(Error::msg("account ranking cursor is invalid")),
        Some(bytes) => match read_cursor_fields(bytes.as_slice()) {
            None => Err(Error::msg("account ranking cursor is invalid")),
            Some((cursor_epoch, cursor_height, offset)) => {
                if cursor_epoch != epoch || cursor_height != height {
                    return Err(Error::msg("account ranking cursor belongs to another snapshot"));
                }
                Ok(offset)
            },
        },
    }
}

/// Reads a cursor of a ranking.
pub fn parse_account_ranking_cursor(cursor: &str, epoch: u64, height: u64) -> (r: Result<usize>)
    ensures
        outcome(r) == cursor_read(base64url_decoded(cursor@), epoch, height),
{
    let decoded = decode_url_safe(cursor);
    read_account_ranking_cursor(&decoded, epoch, height)
}

/// A cursor leads back to its place.
pub proof fn cursor_leads_back(epoch: u64, height: u64, offset: usize)
    ensures
        cursor_read(
            Some(encode_utf8(cursor_text(epoch, height, offset))),
            epoch,
            height,
        ) == Ok::<usize, Seq<char>>(offset),
{
    cursor_holds_its_fields(epoch, height, offset);
}

/// A cursor of one ranking leads nowhere in a ranking of another epoch or height.
pub proof fn cursors_stay_with_their_ranking(
    epoch: u64,
    height: u64,
    offset: usize,
    other_epoch: u64,
    other_height: u64,
)
    requires
        epoch != other_epoch || height != other_height,
    ensures
        cursor_read(
            Some(encode_utf8(cursor_text(epoch, height, offset))),
            other_epoch,
            other_height,
        ) == Err::<usize, Seq<char>>("account ranking cursor belongs to another snapshot"@),
{
    cursor_holds_its_fields(epoch, height, offset);
}

proof fn cursor_holds_its_fields(epoch: u64, height: u64, offset: usize)
    ensures
        cursor_fields(encode_utf8(cursor_text(epoch, height, offset))) == Some(
            (epoch, height, offset),
        ),
{
    reveal_strlit(":");
    let one = decimal(epoch as nat);
    let two = decimal(height as nat);
    let three = decimal(offset as nat);
    let text = cursor_text(epoch, height, offset);
    decimal_digits(epoch as nat);
    decimal_digits(height as nat);
    decimal_digits(offset as nat);
    is_ascii_chars_encode_utf8(one);
    is_ascii_chars_encode_utf8(two);
    is_ascii_chars_encode_utf8(three);
    let a = one.len() as int;
    let b = a + 1 + two.len();
    assert(text.len() == b + 1 + three.len());
    cursor_is_ascii(epoch, height, offset);
    is_ascii_chars_encode_utf8(text);
    let bytes = encode_utf8(text);
    assert(bytes.take(a) =~= encode_utf8(one));
    assert(bytes.subrange(a + 1, b) =~= encode_utf8(two));
    assert(bytes.skip(b + 1) =~= encode_utf8(three));
    assert(colons_at(bytes, a, b)) by {
        assert forall|i: int| 0 <= i < bytes.len() && i != a && i != b implies #[trigger] bytes[i]
            != 58 by {
            if i < a {
                assert(bytes[i] == encode_utf8(one)[i]);
            } else if i < b {
                assert(bytes[i] == encode_utf8(two)[i - a - 1]);
            } else {
                assert(bytes[i] == encode_utf8(three)[i - b - 1]);
            }
        }
    }
    let (c, d) = choose|c: int, d: int| colons_at(bytes, c, d);
    colons_are_unique(bytes, a, b, c, d);
    assert(encode_utf8(one)[0] != 43);
    assert(encode_utf8(two)[0] != 43);
    assert(encode_utf8(three)[0] != 43);
}

/// The share of a balance in all balances, in hundredths of a percent.
pub open spec fn balance_share(balance: u128, total: u128) -> u32 {
    if total == 0 {
        0
    } else {
        let share = clamped_u128(balance * BPS_DENOMINATOR) / total;
        if share > u32::MAX {
            u32::MAX
        } else {
            share as u32
        }
    }
}

fn share_of(balance: u128, total: u128) -> (r: u32)
    ensures
        r == balance_share(balance, total),
{
    if total == 0 {
        return 0;
    }
    let share: u128 = saturating_mul_u128(balance, BPS_DENOMINATOR) / total;
    if share > u32::MAX as u128 {
        u32::MAX
    } else {
        share as u32
    }
}

/// One line of the ranking.
pub open spec fn entry_shown(ranking: RankingModel, index: int) -> AccountRankingEntryViewModel {
    let account = ranking.accounts[index];
    AccountRankingEntryViewModel {
        rank: (index + 1) as u64,
        address: account.address,
        balance_base_units: decimal(account.balance as nat),
        balance_display: mrk_text(account.balance as nat),
        balance_share_bps: balance_share(account.balance, ranking.total_balance),
    }
}

/// The ranking that is current: that of the epoch before.
pub open spec fn ranking_current(
    ranking: Option<RankingModel>,
    ledger_id: Seq<char>,
    epoch: u64,
) -> Outcome<RankingModel> {
    match ranking {
        None => Err("account ranking will be available after the first completed Epoch"@),
        Some(ranking) => if ranking.ledger_id != ledger_id || ranking.epoch + 1 != epoch {
            Err("account ranking is waiting for this Node's next completed Epoch"@)
        } else {
            Ok(ranking)
        },
    }
}

/// A page of the ranking, by what was decoded from its cursor where there is one.
pub open spec fn ranking_shown(
    ranking: Option<RankingModel>,
    ledger_id: Seq<char>,
    epoch: u64,
    cursor: Option<Option<Seq<u8>>>,
    limit: usize,
) -> Outcome<AccountRankingListViewModel> {
    match page_checked(limit) {
        Err(refusal) => Err(refusal),
        Ok(_) => match ranking_current(ranking, ledger_id, epoch) {
            Err(refusal) => Err(refusal),
            Ok(ranking) => match page_offset(ranking, cursor) {
                Err(refusal) => Err(refusal),
                Ok(offset) => {
                    let count = ranking.accounts.len();
                    let end = least(offset + limit, count as int);
                    Ok(
                        AccountRankingListViewModel {
                            accounts: Seq::new(
                                (end - offset) as nat,
                                |i: int| entry_shown(ranking, offset + i),
                            ),
                            funded_account_count: count as usize,
                            total_account_balance_base_units: decimal(
                                ranking.total_balance as nat,
                            ),
                            total_account_balance_display: mrk_text(ranking.total_balance as nat),
                            snapshot_epoch: ranking.epoch,
                            snapshot_height: ranking.height,
                            next_cursor: if end < count {
                                Some(
                                    base64url_encoded(
                                        encode_utf8(
                                            cursor_text(
                                                ranking.epoch,
                                                ranking.height,
                                                end as usize,
                                            ),
                                        ),
                                    ),
                                )
                            } else {
                                None
                            },
                        },
                    )
                },
            },
        },
    }
}

/// Where a page of the ranking begins.
pub open spec fn page_offset(ranking: RankingModel, cursor: Option<Option<Seq<u8>>>) -> Outcome<
    usize,
> {
    match cursor {
        None => Ok(0),
        Some(decoded) => match cursor_read(decoded, ranking.epoch, ranking.height) {
            Err(refusal) => Err(refusal),
            Ok(offset) => if offset > ranking.accounts.len() {
                Err("account ranking cursor is out of range"@)
            } else {
                Ok(offset)
            },
        },
    }
}

/// What is decoded from a cursor, where there is one.
pub open spec fn cursor_decoded(cursor: Option<Seq<char>>) -> Option<Option<Seq<u8>>> {
    match cursor {
        None => None,
        Some(text) => Some(base64url_decoded(text)),
    }
}

/// Whether the cursor of a page can be read: it leads to the place behind the last line.
pub open spec fn page_leads_on(page: AccountRankingListViewModel) -> bool {
    page.next_cursor matches Some(cursor) ==> page.accounts.len() > 0 && base64url_decoded(cursor)
        == Some(
        encode_utf8(
            cursor_text(
                page.snapshot_epoch,
                page.snapshot_height,
                page.accounts.last().rank as usize,
            ),
        ),
    )
}

fn check_snapshot<'a>(
    snapshot: Option<&'a AccountRankingSnapshot>,
    ledger_id: &str,
    epoch: u64,
) -> (r: Result<&'a AccountRankingSnapshot>)
    ensures
        match ranking_current(snapshot.deep_view(), ledger_id@, epoch) {
            Ok(ranking) => r matches Ok(found) && found.deep_view() == ranking,
            Err(refusal) => r matches Err(error) && error@ == refusal,
        },
{
    match snapshot {
        None => Err(
            Error::msg("account ranking will be available after the first completed Epoch"),
        ),
        Some(snapshot) => {
            if !text_same(snapshot.ledger_id.as_str(), ledger_id) || snapshot.epoch == u64::MAX
                || snapshot.epoch + 1 != epoch {
                return Err(
                    Error::msg("account ranking is waiting for this Node's next completed Epoch"),
                );
            }
            Ok(snapshot)
        },
    }
}

/// Lists the accounts by what they have, a page at a time.
pub fn account_rankings(
    snapshot: Option<&AccountRankingSnapshot>,
    ledger_id: &str,
    epoch: u64,
    cursor: Option<&str>,
    limit: usize,
) -> (r: Result<AccountRankingListView>)
    ensures
        outcome(r) == ranking_shown(
            snapshot.deep_view(),
            ledger_id@,
            epoch,
            cursor_decoded(cursor.deep_view()),
            limit,
        ),
        r matches Ok(view) ==> page_leads_on(view.deep_view()),
{
    validate_registry_page_limit(limit)?;
    let ranking = check_snapshot(snapshot, ledger_id, epoch)?;
    let count: usize = ranking.accounts.len();
    let offset: usize = match cursor {
        None => 0,
        Some(text) => {
            let offset = parse_account_ranking_cursor(text, ranking.epoch, ranking.height)?;
            if offset > count {
                return Err(Error::msg("account ranking cursor is out of range"));
            }
            offset
        },
    };
    let reach: usize = offset.saturating_add(limit);
    let end: usize = if reach < count {
        reach
    } else {
        count
    };
    let ghost all = ranking.deep_view();
    let ghost shown = Seq::new((end - offset) as nat, |i: int| entry_shown(all, offset + i));
    let mut accounts: Vec<AccountRankingEntryView> = Vec::new();
    let mut i: usize = offset;
    assert(accounts.deep_view() =~= shown.take(0));
    while i < end
        invariant
            offset <= i <= end <= count,
            count == ranking.accounts@.len(),
            count <= usize::MAX,
            all == ranking.deep_view(),
            shown == Seq::new((end - offset) as nat, |i: int| entry_shown(all, offset + i)),
            accounts.deep_view() == shown.take(i - offset),
        decreases end - i,
    {
        let account = &ranking.accounts[i];
        assert(all.accounts[i as int] == account.deep_view());
        let ghost before = accounts.deep_view();
        let entry = AccountRankingEntryView {
            rank: i as u64 + 1,
            address: account.address.clone(),
            balance_base_units: u128_text(account.balance),
            balance_display: format_mrk(account.balance),
            balance_share_bps: share_of(account.balance, ranking.total_balance),
        };
        accounts.push(entry);
        assert(accounts.deep_view() =~= before.push(entry.deep_view()));
        assert(shown.take(i - offset + 1) =~= shown.take(i - offset).push(shown[i - offset]));
        i = i + 1;
    }
    assert(shown.take(end - offset) =~= shown);
    assert(end < count ==> shown.len() > 0 && shown.last().rank as usize == end);
    let next_cursor: Option<String> = if end < count {
        Some(account_ranking_cursor(ranking.epoch, ranking.height, end))
    } else {
        None
    };
    Ok(
        AccountRankingListView {
            accounts,
            funded_account_count: count,
            total_account_balance_base_units: u128_text(ranking.total_balance),
            total_account_balance_display: format_mrk(ranking.total_balance),
            snapshot_epoch: ranking.epoch,
            snapshot_height: ranking.height,
            next_cursor,
        },
    )
}

/// All lines of a ranking.
pub open spec fn all_entries(ranking: RankingModel) -> Seq<AccountRankingEntryViewModel> {
    Seq::new(ranking.accounts.len(), |i: int| entry_shown(ranking, i))
}

/// The lines of some pages, one page after the other.
pub open spec fn listed_entries(pages: Seq<AccountRankingListViewModel>) -> Seq<
    AccountRankingEntryViewModel,
>
    decreases pages.len(),
{
    if pages.len() == 0 {
        Seq::empty()
    } else {
        listed_entries(pages.drop_last()) + pages.last().accounts
    }
}

/// The cursor with which a page is asked for: none for the first, and for each other page the one
/// that the page before it has given.
pub open spec fn page_cursor(pages: Seq<AccountRankingListViewModel>, i: int) -> Option<Seq<char>> {
    if i == 0 {
        None
    } else {
        pages[i - 1].next_cursor
    }
}

/// Whether pages are those that are read one after the other, each with the cursor of the one
/// before.
pub open spec fn are_read_in_turn(
    ranking: RankingModel,
    ledger_id: Seq<char>,
    epoch: u64,
    limit: usize,
    pages: Seq<AccountRankingListViewModel>,
) -> bool {
    &&& forall|i: int|
        0 <= i < pages.len() ==> page_leads_on(#[trigger] pages[i]) && ranking_shown(
            Some(ranking),
            ledger_id,
            epoch,
            cursor_decoded(page_cursor(pages, i)),
            limit,
        ) == Ok::<AccountRankingListViewModel, Seq<char>>(pages[i])
    &&& forall|i: int|
        0 <= i && i + 1 < pages.len() ==> (#[trigger] pages[i]).next_cursor is Some
}

/// A page that is not the last leads to a page that can be read, and that goes on where it ends.
pub proof fn pages_lead_to_the_next(
    ranking: RankingModel,
    ledger_id: Seq<char>,
    epoch: u64,
    limit: usize,
    cursor: Option<Option<Seq<u8>>>,
    page: AccountRankingListViewModel,
)
    requires
        ranking.accounts.len() <= usize::MAX,
        ranking_shown(Some(ranking), ledger_id, epoch, cursor, limit) == Ok::<
            AccountRankingListViewModel,
            Seq<char>,
        >(page),
        page_leads_on(page),
        page.next_cursor is Some,
    ensures
        ({
            let decoded = cursor_decoded(page.next_cursor);
            &&& page_offset(ranking, decoded) == Ok::<usize, Seq<char>>(
                (page_offset(ranking, cursor)->Ok_0 + page.accounts.len()) as usize,
            )
            &&& page.accounts.len() == limit
            &&& ranking_shown(Some(ranking), ledger_id, epoch, decoded, limit) is Ok
        }),
{
    let offset = page_offset(ranking, cursor)->Ok_0;
    let end = least(offset + limit, ranking.accounts.len() as int);
    assert(page.accounts.last() == entry_shown(ranking, end - 1));
    cursor_leads_back(ranking.epoch, ranking.height, end as usize);
}

#[verifier::rlimit(60)]
#[verifier::spinoff_prover]
proof fn pages_list_a_beginning(
    ranking: RankingModel,
    ledger_id: Seq<char>,
    epoch: u64,
    limit: usize,
    pages: Seq<AccountRankingListViewModel>,
    count: int,
)
    requires
        ranking.accounts.len() <= usize::MAX,
        are_read_in_turn(ranking, ledger_id, epoch, limit, pages),
        0 < count <= pages.len(),
    ensures
        ({
            let listed = listed_entries(pages.take(count));
            let last = pages[count - 1];
            let offset = page_offset(
                ranking,
                cursor_decoded(page_cursor(pages, count - 1)),
            );
            &&& offset is Ok
            &&& offset->Ok_0 + last.accounts.len() == listed.len() <= ranking.accounts.len()
            &&& listed == all_entries(ranking).take(listed.len() as int)
            &&& last.next_cursor is None ==> listed.len() == ranking.accounts.len()
        }),
    decreases count,
{
    let taken = pages.take(count);
    let last = pages[count - 1];
    assert(page_leads_on(pages[count - 1]));
    assert(taken.last() == last);
    assert(taken.drop_last() =~= pages.take(count - 1));
    let before = listed_entries(pages.take(count - 1));
    if count > 1 {
        let previous = pages[count - 2];
        pages_list_a_beginning(ranking, ledger_id, epoch, limit, pages, count - 1);
        assert(page_leads_on(pages[count - 2]));
        assert(pages[count - 2].next_cursor is Some);
        pages_lead_to_the_next(
            ranking,
            ledger_id,
            epoch,
            limit,
            cursor_decoded(page_cursor(pages, count - 2)),
            previous,
        );
    } else {
        assert(pages.take(0) =~= Seq::empty());
    }
    let offset = page_offset(ranking, cursor_decoded(page_cursor(pages, count - 1)))->Ok_0;
    assert(offset == before.len());
    let listed = listed_entries(taken);
    assert(listed =~= all_entries(ranking).take(listed.len() as int));
}

/// The pages of a ranking, read one after the other until there is no cursor any more, list every
/// account once and in order, with ranks from one on and its share in all balances. Every page but
/// the last is full, and every page says how many accounts there are.
pub proof fn pages_list_every_account_once(
    ranking: RankingModel,
    ledger_id: Seq<char>,
    epoch: u64,
    limit: usize,
    pages: Seq<AccountRankingListViewModel>,
)
    requires
        ranking.accounts.len() <= usize::MAX,
        are_read_in_turn(ranking, ledger_id, epoch, limit, pages),
        pages.len() > 0,
        pages.last().next_cursor is None,
    ensures
        listed_entries(pages) == all_entries(ranking),
        forall|i: int|
            0 <= i < pages.len() ==> (#[trigger] pages[i]).funded_account_count
                == ranking.accounts.len() && (i + 1 < pages.len() ==> pages[i].accounts.len()
                == limit),
        forall|i: int|
            0 <= i < ranking.accounts.len() ==> {
                let entry = #[trigger] all_entries(ranking)[i];
                let balance = ranking.accounts[i].balance;
                &&& entry.rank == i + 1
                &&& entry.address == ranking.accounts[i].address
                &&& 0 < ranking.total_balance && balance <= ranking.total_balance && balance
                    * BPS_DENOMINATOR <= u128::MAX ==> entry.balance_share_bps == (balance
                    * BPS_DENOMINATOR) / (ranking.total_balance as int)
            },
{
    pages_list_a_beginning(ranking, ledger_id, epoch, limit, pages, pages.len() as int);
    assert(pages.take(pages.len() as int) =~= pages);
    assert(all_entries(ranking).take(ranking.accounts.len() as int) =~= all_entries(ranking));
    assert forall|i: int| 0 <= i < pages.len() implies (#[trigger] pages[i]).funded_account_count
        == ranking.accounts.len() && (i + 1 < pages.len() ==> pages[i].accounts.len() == limit) by {
        pages_are_full(ranking, ledger_id, epoch, limit, pages, i);
    }
    assert forall|i: int| 0 <= i < ranking.accounts.len() implies {
        let entry = #[trigger] all_entries(ranking)[i];
        let balance = ranking.accounts[i].balance;
        0 < ranking.total_balance && balance <= ranking.total_balance && balance * BPS_DENOMINATOR
            <= u128::MAX ==> entry.balance_share_bps == (balance * BPS_DENOMINATOR) / (
        ranking.total_balance as int)
    } by {
        shares_are_parts(ranking.accounts[i].balance, ranking.total_balance);
    }
}

proof fn shares_are_parts(balance: u128, total: u128)
    ensures
        0 < total && balance <= total && balance * BPS_DENOMINATOR <= u128::MAX ==> balance_share(
            balance,
            total,
        ) == (balance * BPS_DENOMINATOR) / (total as int),
{
    if 0 < total && balance <= total {
        let share = (balance * BPS_DENOMINATOR) / (total as int);
        assert(0 <= share <= BPS_DENOMINATOR) by (nonlinear_arith)
            requires
                share == (balance * BPS_DENOMINATOR) / (total as int),
                0 <= balance <= total,
                0 < total,
                BPS_DENOMINATOR == 10_000,
        ;
    }
}

proof fn pages_are_full(
    ranking: RankingModel,
    ledger_id: Seq<char>,
    epoch: u64,
    limit: usize,
    pages: Seq<AccountRankingListViewModel>,
    i: int,
)
    requires
        ranking.accounts.len() <= usize::MAX,
        are_read_in_turn(ranking, ledger_id, epoch, limit, pages),
        0 <= i < pages.len(),
    ensures
        pages[i].funded_account_count == ranking.accounts.len(),
        i + 1 < pages.len() ==> pages[i].accounts.len() == limit,
{
    assert(page_leads_on(pages[i]));
    if i + 1 < pages.len() {
        assert(pages[i].next_cursor is Some);
        pages_lead_to_the_next(
            ranking,
            ledger_id,
            epoch,
            limit,
            cursor_decoded(page_cursor(pages, i)),
            pages[i],
        );
    }
}

} // verus!
