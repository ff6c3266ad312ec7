use vstd::prelude::*;
use vstd::string::*;
use vstd::utf8::*;

use crate::accounts::{account_of, bind_account_key, key_bound};
use crate::crypto::{
    address_from_public_key, address_of, base64_decoded, decode_standard, signature_checked,
    verify_bytes,
};
use crate::error::{outcome, Error, Outcome, Result};
use crate::model::{LedgerModel, LedgerState, SignedModel, SignedOperation};
use crate::number::{clamped_i64, saturating_sub_i64};
use crate::protocol::{DEFAULT_OPERATION_VALIDITY_SECONDS, PROTOCOL_VERSION};
use crate::text::text_same;

verus! {

/// The time at which an operation was made, which its validity tells.
pub open spec fn made_at(operation: SignedModel) -> i64 {
    clamped_i64(operation.unsigned.valid_until - DEFAULT_OPERATION_VALIDITY_SECONDS)
}

pub fn operation_made_at(operation: &SignedOperation) -> (r: i64)
    ensures
        r == made_at(operation.deep_view()),
{
    saturating_sub_i64(operation.unsigned.valid_until, DEFAULT_OPERATION_VALIDITY_SECONDS)
}

/// Whether an operation was signed with the key of its signer.
pub open spec fn signer_checked(public_key: Seq<char>, operation: SignedModel) -> Outcome<()> {
    match base64_decoded(public_key) {
        None => Err("operation public key is not valid base64"@),
        Some(key) => if address_of(key) != operation.unsigned.signer {
            Err("operation public key does not match signer"@)
        } else {
            signature_checked(public_key, operation.intake.signing_bytes, operation.signature)
        },
    }
}

/// Checks the signature of an operation against a key.
pub fn verify_operation(operation: &SignedOperation, public_key: &str) -> (r: Result<()>)
    ensures
        outcome(r) == signature_checked(
            public_key@,
            operation.deep_view().intake.signing_bytes,
            operation.deep_view().signature,
        ),
{
    verify_bytes(
        public_key,
        operation.intake.signing_bytes.as_slice(),
        operation.signature.as_str(),
    )
}

/// Checks that an operation was signed with the key of its signer.
pub fn check_signer(public_key: &str, operation: &SignedOperation) -> (r: Result<()>)
    ensures
        outcome(r) == signer_checked(public_key@, operation.deep_view()),
{
    match decode_standard(public_key) {
        None => Err(Error::msg("operation public key is not valid base64")),
        Some(key) => {
            let address = address_from_public_key(key.as_slice());
            if !text_same(address.as_str(), operation.unsigned.signer.as_str()) {
                return Err(Error::msg("operation public key does not match signer"));
            }
            verify_operation(operation, public_key)
        },
    }
}

/// Whether an operation is of this protocol and still valid.
pub open spec fn is_current(operation: SignedModel, now: i64) -> bool {
    operation.unsigned.protocol_version == PROTOCOL_VERSION && now
        <= operation.unsigned.valid_until
}

pub fn operation_is_current(operation: &SignedOperation, now: i64) -> (r: bool)
    ensures
        r == is_current(operation.deep_view(), now),
{
    operation.unsigned.protocol_version == PROTOCOL_VERSION && now
        <= operation.unsigned.valid_until
}

/// The ledger in which the signer of an operation has its key, if the operation is the next one of
/// the signer.
pub open spec fn signer_prepared(
    ledger: LedgerModel,
    public_key: Seq<char>,
    operation: SignedModel,
    refusal: Seq<char>,
) -> Outcome<LedgerModel> {
    match key_bound(ledger, operation.unsigned.signer, public_key) {
        Err(mismatch) => Err(mismatch),
        Ok(bound) => if operation.unsigned.account_nonce != account_of(
            bound,
            operation.unsigned.signer,
        ).nonce + 1 {
            Err(refusal)
        } else {
            Ok(bound)
        },
    }
}

/// Binds the signer of an operation to its key and checks that the operation is its next one.
pub fn prepare_signer(
    ledger: &mut LedgerState,
    public_key: &str,
    operation: &SignedOperation,
    refusal: &str,
) -> (r: Result<()>)
    ensures
        match signer_prepared(old(ledger)@, public_key@, operation.deep_view(), refusal@) {
            Ok(next) => r is Ok && final(ledger)@ == next,
            Err(text) => r matches Err(error) && error@ == text,
        },
{
    bind_account_key(ledger, operation.unsigned.signer.as_str(), public_key)?;
    let nonce: u64 = match ledger.accounts.get(&operation.unsigned.signer) {
        Some(account) => account.nonce,
        None => 0,
    };
    if nonce == u64::MAX || operation.unsigned.account_nonce != nonce + 1 {
        return Err(Error::msg(refusal));
    }
    Ok(())
}

/// Whether a text can name an account, a network, a member or a node: one to 64 letters, digits,
/// hyphens and underscores.
pub open spec fn is_name(text: Seq<char>) -> bool {
    let bytes = encode_utf8(text);
    1 <= bytes.len() <= 64 && forall|i: int| 0 <= i < bytes.len() ==> is_name_byte(#[trigger] bytes[i])
}

pub open spec fn is_name_byte(byte: u8) -> bool {
    48 <= byte <= 57 || 65 <= byte <= 90 || 97 <= byte <= 122 || byte == 45 || byte == 95
}

pub open spec fn name_checked(text: Seq<char>) -> Outcome<()> {
    if is_name(text) {
        Ok(())
    } else {
        Err("names must contain 1 to 64 letters, digits, '-' or '_'"@)
    }
}

/// Refuses a text that cannot be a name.
pub fn validate_name(name: &str) -> (r: Result<()>)
    ensures
        outcome(r) == name_checked(name@),
{
    let bytes = name.as_bytes();
    if bytes.len() < 1 || bytes.len() > 64 {
        return Err(Error::msg("names must contain 1 to 64 letters, digits, '-' or '_'"));
    }
    let mut i: usize = 0;
    while i < bytes.len()
        invariant
            i <= bytes@.len(),
            bytes@ == encode_utf8(name@),
            forall|j: int| 0 <= j < i ==> is_name_byte(#[trigger] bytes@[j]),
        decreases bytes@.len() - i,
    {
        let byte: u8 = bytes[i];
        if !((48 <= byte && byte <= 57) || (65 <= byte && byte <= 90) || (97 <= byte && byte
            <= 122) || byte == 45 || byte == 95) {
            assert(!is_name_byte(bytes@[i as int]));
            return Err(Error::msg("names must contain 1 to 64 letters, digits, '-' or '_'"));
        }
        i = i + 1;
    }
    Ok(())
}

/// An operation counts only if the key that it comes with belongs to the address of its signer and has
/// signed what the operation says.
pub proof fn operations_come_from_their_signer(public_key: Seq<char>, operation: SignedModel)
    ensures
        signer_checked(public_key, operation) is Ok <==> (base64_decoded(public_key) matches Some(key)
            && address_of(key) == operation.unsigned.signer && signature_checked(
            public_key,
            operation.intake.signing_bytes,
            operation.signature,
        ) is Ok),
{
}

/// An operation is valid for five minutes from the time at which it was made, and no longer: one that
/// is not current stays so.
pub proof fn operations_expire(operation: SignedModel, now: i64, later: i64)
    requires
        now <= later,
    ensures
        is_current(operation, later) ==> is_current(operation, now),
        operation.unsigned.valid_until >= i64::MIN + 300 ==> made_at(operation) + 300
            == operation.unsigned.valid_until,
        is_current(operation, now) ==> now <= operation.unsigned.valid_until,
        operation.unsigned.valid_until < later ==> !is_current(operation, later),
{
}

/// An operation is the next one of its signer: it bears the number after the account's own, and the
/// account keeps the key that it has been used with first.
pub proof fn operations_follow_each_other(
    ledger: LedgerModel,
    public_key: Seq<char>,
    operation: SignedModel,
    refusal: Seq<char>,
)
    requires
        signer_prepared(ledger, public_key, operation, refusal) is Ok,
    ensures
        ({
            let signer = operation.unsigned.signer;
            let after = signer_prepared(ledger, public_key, operation, refusal)->Ok_0;
            &&& operation.unsigned.account_nonce == account_of(ledger, signer).nonce + 1
            &&& account_of(after, signer).public_key == Some(public_key)
            &&& account_of(ledger, signer).public_key matches Some(known) ==> known == public_key
            &&& account_of(after, signer).balance == account_of(ledger, signer).balance
            &&& account_of(after, signer).nonce == account_of(ledger, signer).nonce
        }),
{
}

} // verus!
