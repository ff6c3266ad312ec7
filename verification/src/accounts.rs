use vstd::prelude::*;
use vstd::string::*;

use crate::envelope::{name_checked, validate_name};
use crate::error::{outcome, Error, Outcome, Result};
use crate::model::{AccountModel, AccountState, KeyIdentity, KeyModel, LedgerModel, LedgerState};
use crate::number::clamped_u128;
use crate::protocol::initial_account;
use crate::text::{join3, text_same};

verus! {

/// The account of an address; one that has never been used is empty.
pub open spec fn account_of(ledger: LedgerModel, address: Seq<char>) -> AccountModel {
    if ledger.accounts.contains_key(address) {
        ledger.accounts[address]
    } else {
        initial_account()
    }
}

/// The balance of an address.
pub open spec fn balance_of(ledger: LedgerModel, address: Seq<char>) -> u128 {
    account_of(ledger, address).balance
}

/// The ledger with another state of one account.
pub open spec fn with_account(
    ledger: LedgerModel,
    address: Seq<char>,
    account: AccountModel,
) -> LedgerModel {
    LedgerModel { accounts: ledger.accounts.insert(address, account), ..ledger }
}

/// The ledger after an amount has been added to an account, as far as it fits.
pub open spec fn credited(ledger: LedgerModel, address: Seq<char>, amount: u128) -> LedgerModel {
    with_account(
        ledger,
        address,
        AccountModel {
            balance: clamped_u128(balance_of(ledger, address) + amount),
            ..account_of(ledger, address)
        },
    )
}

/// The ledger after an amount has been added to an account, or the refusal where it does not fit.
pub open spec fn paid_to(
    ledger: LedgerModel,
    address: Seq<char>,
    amount: u128,
    refusal: Seq<char>,
) -> Outcome<LedgerModel> {
    if balance_of(ledger, address) + amount > u128::MAX {
        Err(refusal)
    } else {
        Ok(credited(ledger, address, amount))
    }
}

/// The ledger after an amount has been taken from an account.
pub open spec fn debited(ledger: LedgerModel, address: Seq<char>, amount: u128) -> LedgerModel {
    with_account(
        ledger,
        address,
        AccountModel {
            balance: (balance_of(ledger, address) - amount) as u128,
            ..account_of(ledger, address)
        },
    )
}

pub fn account_balance(ledger: &LedgerState, address: &str) -> (r: u128)
    ensures
        r == balance_of(ledger@, address@),
{
    match ledger.accounts.get(&address.to_owned()) {
        Some(account) => account.balance,
        None => 0,
    }
}

/// Adds an amount to an account, as far as it fits.
pub fn credit_account(ledger: &mut LedgerState, address: &str, amount: u128)
    ensures
        final(ledger)@ == credited(old(ledger)@, address@, amount),
{
    let account = ledger.accounts.entry(address.to_owned(), AccountState::default());
    account.balance = account.balance.saturating_add(amount);
}

/// Adds an amount to an account, or refuses where it does not fit.
pub fn pay_account(
    ledger: &mut LedgerState,
    address: &str,
    amount: u128,
    refusal: &str,
) -> (r: Result<()>)
    ensures
        match paid_to(old(ledger)@, address@, amount, refusal@) {
            Ok(next) => r is Ok && final(ledger)@ == next,
            Err(text) => (r matches Err(error) && error@ == text) && final(ledger)@ == old(
                ledger,
            )@,
        },
{
    match account_balance(ledger, address).checked_add(amount) {
        None => Err(Error::msg(refusal)),
        Some(_) => {
            credit_account(ledger, address, amount);
            Ok(())
        },
    }
}

/// Takes an amount from an account that has it.
pub fn debit_account(ledger: &mut LedgerState, address: &str, amount: u128)
    requires
        balance_of(old(ledger)@, address@) >= amount,
    ensures
        final(ledger)@ == debited(old(ledger)@, address@, amount),
{
    let account = ledger.accounts.entry(address.to_owned(), AccountState::default());
    account.balance = account.balance - amount;
}

/// The ledger after an operation has been noted in the history of an account.
pub open spec fn history_added(
    ledger: LedgerModel,
    address: Seq<char>,
    operation_id: Seq<char>,
) -> LedgerModel {
    let account = account_of(ledger, address);
    with_account(
        ledger,
        address,
        AccountModel {
            operation_ids: if account.operation_ids.contains(operation_id) {
                account.operation_ids
            } else {
                account.operation_ids.push(operation_id)
            },
            ..account
        },
    )
}

/// Whether a list of texts holds a text.
pub fn contains_text(texts: &Vec<String>, text: &str) -> (r: bool)
    ensures
        r == texts.deep_view().contains(text@),
{
    let mut i: usize = 0;
    while i < texts.len()
        invariant
            i <= texts@.len(),
            forall|j: int| 0 <= j < i ==> texts.deep_view()[j] != text@,
        decreases texts@.len() - i,
    {
        if text_same(texts[i].as_str(), text) {
            assert(texts.deep_view()[i as int] == text@);
            return true;
        }
        i = i + 1;
    }
    false
}

/// Notes an operation in the history of an account.
pub fn add_history(ledger: &mut LedgerState, address: &str, operation_id: &str)
    ensures
        final(ledger)@ == history_added(old(ledger)@, address@, operation_id@),
{
    let account = ledger.accounts.entry(address.to_owned(), AccountState::default());
    if !contains_text(&account.operation_ids, operation_id) {
        let ghost before = account.operation_ids.deep_view();
        account.operation_ids.push(operation_id.to_owned());
        assert(account.operation_ids.deep_view() =~= before.push(operation_id@));
    }
}

/// The ledger in which an address has its public key, or the refusal where it has another.
pub open spec fn key_bound(
    ledger: LedgerModel,
    address: Seq<char>,
    public_key: Seq<char>,
) -> Outcome<LedgerModel> {
    let account = account_of(ledger, address);
    match account.public_key {
        Some(existing) => if existing != public_key {
            Err("account public key mismatch"@)
        } else {
            Ok(with_account(ledger, address, account))
        },
        None => Ok(
            with_account(
                ledger,
                address,
                AccountModel { public_key: Some(public_key), ..account },
            ),
        ),
    }
}

/// Binds an address to its public key.
pub fn bind_account_key(ledger: &mut LedgerState, address: &str, public_key: &str) -> (r: Result<()>)
    ensures
        match key_bound(old(ledger)@, address@, public_key@) {
            Ok(next) => r is Ok && final(ledger)@ == next,
            Err(refusal) => final(ledger)@ == old(ledger)@ && (r matches Err(error) && error@
                == refusal),
        },
{
    let account = ledger.accounts.entry(address.to_owned(), AccountState::default());
    match &account.public_key {
        Some(existing) => {
            if !text_same(existing.as_str(), public_key) {
                return Err(Error::msg("account public key mismatch"));
            }
        },
        None => {
            account.public_key = Some(public_key.to_owned());
        },
    }
    Ok(())
}

/// Binds the address of a key file to its public key.
pub fn ensure_account(ledger: &mut LedgerState, keyfile: &KeyIdentity) -> (r: Result<()>)
    ensures
        match key_bound(
            old(ledger)@,
            keyfile.deep_view().address,
            keyfile.deep_view().public_key,
        ) {
            Ok(next) => r is Ok && final(ledger)@ == next,
            Err(refusal) => final(ledger)@ == old(ledger)@ && (r matches Err(error) && error@
                == refusal),
        },
{
    bind_account_key(ledger, keyfile.address.as_str(), keyfile.public_key.as_str())
}

/// The keys of a new account, if its name may be used and is free.
pub open spec fn account_begun(name: Seq<char>, taken: bool, keys: KeyModel) -> Outcome<KeyModel> {
    match name_checked(name) {
        Err(refusal) => Err(refusal),
        Ok(_) => if taken {
            Err("account '"@ + name + "' already exists"@)
        } else {
            Ok(keys)
        },
    }
}

/// Gives a new account the keys that were made for it. `taken` says that there is an account with
/// this name.
pub fn create_local_account(name: &str, taken: bool, keys: KeyIdentity) -> (r: Result<KeyIdentity>)
    ensures
        outcome(r) == account_begun(name@, taken, keys.deep_view()),
{
    validate_name(name)?;
    if taken {
        return Err(Error::owned(join3("account '", name, "' already exists")));
    }
    Ok(keys)
}

/// Gives a new account its keys and enters it in a ledger. A refused account leaves the ledger as it
/// was.
pub fn create_account(ledger: &mut LedgerState, name: &str, taken: bool, keys: KeyIdentity) -> (r:
    Result<KeyIdentity>)
    ensures
        match account_begun(name@, taken, keys.deep_view()) {
            Err(refusal) => final(ledger)@ == old(ledger)@ && (r matches Err(error) && error@
                == refusal),
            Ok(made) => match key_bound(old(ledger)@, made.address, made.public_key) {
                Err(refusal) => final(ledger)@ == old(ledger)@ && (r matches Err(error) && error@
                    == refusal),
                Ok(next) => final(ledger)@ == next && (r matches Ok(entered)
                    && entered.deep_view() == made),
            },
        },
{
    let made = create_local_account(name, taken, keys)?;
    let mut next = ledger.copy();
    ensure_account(&mut next, &made)?;
    *ledger = next;
    Ok(made)
}

/// Where the keys of an account are kept.
#[derive(Debug)]
pub enum KeyPlace {
    /// With the node of this name, as its reward keys.
    NodeReward(String),
    /// With the accounts, under this name.
    Account(String),
}

/// The contents of `KeyPlace`.
pub enum KeyPlaceModel {
    NodeReward(Seq<char>),
    Account(Seq<char>),
}

impl DeepView for KeyPlace {
    type V = KeyPlaceModel;

    open spec fn deep_view(&self) -> KeyPlaceModel {
        match *self {
            KeyPlace::NodeReward(name) => KeyPlaceModel::NodeReward(name@),
            KeyPlace::Account(name) => KeyPlaceModel::Account(name@),
        }
    }
}

/// Where the keys of an account are kept, by its name. `node:` in front of a name asks for the
/// reward keys of the node of that name.
pub open spec fn keys_placed(name: Seq<char>) -> Outcome<KeyPlaceModel> {
    if "node:"@.is_prefix_of(name) {
        let node = name.skip("node:"@.len() as int);
        match name_checked(node) {
            Err(refusal) => Err(refusal),
            Ok(_) => Ok(KeyPlaceModel::NodeReward(node)),
        }
    } else {
        Ok(KeyPlaceModel::Account(name))
    }
}

/// Finds where the keys of an account are kept.
pub fn account_keyfile(name: &str) -> (r: Result<KeyPlace>)
    ensures
        outcome(r) == keys_placed(name@),
{
    let length: usize = name.unicode_len();
    proof {
        reveal_strlit("node:");
    }
    if length >= 5 && text_same(name.substring_char(0, 5), "node:") {
        assert("node:"@ =~= name@.subrange(0, 5));
        let node = name.substring_char(5, length);
        assert(node@ =~= name@.skip(5));
        validate_name(node)?;
        return Ok(KeyPlace::NodeReward(node.to_owned()));
    }
    assert(!"node:"@.is_prefix_of(name@)) by {
        if "node:"@.is_prefix_of(name@) {
            assert(name@.subrange(0, 5) =~= "node:"@);
        }
    }
    Ok(KeyPlace::Account(name.to_owned()))
}

/// A key is bound to an address once: from then on no other key can be, and what the account holds
/// stays as it was.
pub proof fn keys_are_bound_once(
    ledger: LedgerModel,
    address: Seq<char>,
    public_key: Seq<char>,
    other: Seq<char>,
)
    requires
        key_bound(ledger, address, public_key) is Ok,
    ensures
        ({
            let next = key_bound(ledger, address, public_key)->Ok_0;
            let before = ledger.accounts[address];
            let after = next.accounts[address];
            &&& next.accounts.contains_key(address) && after.public_key == Some(public_key)
            &&& key_bound(next, address, other) is Ok <==> other == public_key
            &&& if ledger.accounts.contains_key(address) {
                &&& before.public_key is Some ==> before.public_key == Some(public_key)
                &&& after.balance == before.balance && after.nonce == before.nonce
                &&& after.operation_ids == before.operation_ids
            } else {
                after.balance == 0 && after.nonce == 0 && after.operation_ids.len() == 0
            }
            &&& next == LedgerModel { accounts: ledger.accounts.insert(address, after), ..ledger }
        }),
{
}

/// The history of an account names each operation once, in the order in which they came.
pub proof fn histories_name_an_operation_once(
    ledger: LedgerModel,
    address: Seq<char>,
    operation_id: Seq<char>,
)
    requires
        ledger.accounts.contains_key(address),
    ensures
        ({
            let before = ledger.accounts[address];
            let after = history_added(ledger, address, operation_id).accounts[address];
            &&& after.operation_ids.contains(operation_id)
            &&& before.operation_ids.is_prefix_of(after.operation_ids)
            &&& before.operation_ids.no_duplicates() ==> after.operation_ids.no_duplicates()
            &&& before.operation_ids.contains(operation_id) ==> after == before
            &&& !before.operation_ids.contains(operation_id) ==> after.operation_ids.last()
                == operation_id && after.operation_ids.len() == before.operation_ids.len() + 1
            &&& after.balance == before.balance && after.nonce == before.nonce
        }),
{
    let before = ledger.accounts[address];
    let after = history_added(ledger, address, operation_id).accounts[address];
    if !before.operation_ids.contains(operation_id) {
        assert(after.operation_ids.last() == operation_id);
        assert(after.operation_ids[after.operation_ids.len() - 1] == operation_id);
    }
}

/// What is paid to an account adds to its balance and to nothing else, and is refused only where it
/// does not fit.
pub proof fn payments_add_to_the_balance(
    ledger: LedgerModel,
    address: Seq<char>,
    amount: u128,
    refusal: Seq<char>,
)
    requires
        ledger.accounts.contains_key(address),
    ensures
        paid_to(ledger, address, amount, refusal) is Ok <==> ledger.accounts[address].balance
            + amount <= u128::MAX,
        paid_to(ledger, address, amount, refusal) matches Ok(next) ==> {
            let before = ledger.accounts[address];
            let after = next.accounts[address];
            &&& after.balance == before.balance + amount
            &&& after.nonce == before.nonce && after.public_key == before.public_key
                && after.operation_ids == before.operation_ids
            &&& next == LedgerModel { accounts: ledger.accounts.insert(address, after), ..ledger }
        },
{
}

} // verus!
