use base64::engine::general_purpose::STANDARD;
use base64::Engine;
use ring::rand::SystemRandom;
use ring::signature::{Ed25519KeyPair, KeyPair};
use mrk_core::accounts::{
    account_balance, account_keyfile, create_account, create_local_account, ensure_account,
    KeyPlace,
};
use mrk_core::crypto::address_from_public_key;
use mrk_core::drafts::{commit_draft, price_operation};
use mrk_core::error::Result;
use mrk_core::members::{
    authenticate_member, create_member_hello, create_network, draft_member, fund_network,
    hello_signing_text, issue_member, revoke_member,
};
use mrk_core::model::{Intake, KeyIdentity, LedgerState, Payload};
use mrk_core::network_operations::{network_by_alias, resolve_network};
use mrk_core::protocol::{DEFAULT_OPERATION_VALIDITY_SECONDS, MRK_SCALE};
use mrk_core::queries::{account_history, balance, fee_quote};
use mrk_core::sessions::credential_signing_text;
use mrk_core::table::Replicate;
use mrk_core::transfers::{
    commit_transfer, preview_transfer, sign_public_operation, sign_transfer_for_submission,
    submit_signed_transfer, transfer, PublicOperationSigningRequest, TransferSigningRequest,
};

struct Keys {
    pair: Ed25519KeyPair,
    identity: KeyIdentity,
}

fn new_keys() -> Keys {
    let document = Ed25519KeyPair::generate_pkcs8(&SystemRandom::new()).unwrap();
    let pair = Ed25519KeyPair::from_pkcs8(document.as_ref()).unwrap();
    let identity = KeyIdentity {
        address: address_from_public_key(pair.public_key().as_ref()),
        public_key: STANDARD.encode(pair.public_key().as_ref()),
    };
    Keys { pair, identity }
}

fn sign(keys: &Keys, message: &[u8]) -> String {
    STANDARD.encode(keys.pair.sign(message).as_ref())
}

/// A signature of an operation, and what is known of it once it has been read.
fn signed(keys: &Keys, operation_id: &str) -> (String, Intake) {
    let signing_bytes = format!("signing {operation_id}").into_bytes();
    (
        sign(keys, &signing_bytes),
        Intake {
            operation_id: operation_id.to_owned(),
            signing_bytes,
            encoded_len: 256,
            fee_units: 0,
        },
    )
}

fn account(ledger: &mut LedgerState, balance: u128) -> Keys {
    let keys = new_keys();
    ensure_account(ledger, &keys.identity).unwrap();
    ledger.accounts.get_mut(&keys.identity.address).unwrap().balance = balance;
    keys
}

fn refusal<T>(result: Result<T>) -> String {
    match result {
        Ok(_) => panic!("the request was not refused"),
        Err(error) => error.text().to_owned(),
    }
}

#[test]
fn transfers_move_their_amount() {
    let mut ledger = LedgerState::default();
    let from = account(&mut ledger, 10 * MRK_SCALE);
    let to = account(&mut ledger, 0);
    let preview = preview_transfer(
        &ledger,
        &from.identity.address,
        &to.identity.address,
        "2.5MRK",
        0,
        100,
    )
    .unwrap();
    assert_eq!(preview.amount, 2_500_000_000);
    assert_eq!(preview.nonce, 1);
    assert_eq!(preview.valid_until, 100 + DEFAULT_OPERATION_VALIDITY_SECONDS);
    let draft = transfer(&ledger, &preview, 100).unwrap();
    let (signature, intake) = signed(&from, "transfer");
    let receipt = commit_transfer(
        &mut ledger,
        draft,
        &preview,
        &from.identity.public_key,
        signature,
        intake,
        100,
    )
    .unwrap();
    assert_eq!(receipt.operation_id, "transfer");
    assert_eq!(balance(&ledger, &to.identity.address).unwrap().balance, 2_500_000_000);
    assert_eq!(
        balance(&ledger, &from.identity.address).unwrap().balance,
        7_500_000_000
    );
    let history = account_history(&ledger, &to.identity.address, 10).unwrap();
    assert_eq!(history.len(), 1);
    assert_eq!(history[0].operation_id, "transfer");
}

#[test]
fn forged_transfers_change_nothing() {
    let mut ledger = LedgerState::default();
    let from = account(&mut ledger, MRK_SCALE);
    let to = account(&mut ledger, 0);
    let thief = new_keys();
    let preview = preview_transfer(
        &ledger,
        &from.identity.address,
        &to.identity.address,
        "1MRK",
        0,
        0,
    )
    .unwrap();
    let draft = transfer(&ledger, &preview, 0).unwrap();
    let (signature, intake) = signed(&thief, "transfer");
    assert_eq!(
        refusal(commit_transfer(
            &mut ledger,
            draft,
            &preview,
            &from.identity.public_key,
            signature,
            intake,
            0,
        )),
        "signature verification failed"
    );
    assert_eq!(account_balance(&ledger, &from.identity.address), MRK_SCALE);
    assert_eq!(account_balance(&ledger, &to.identity.address), 0);
    assert!(ledger.pending_operation_ids.is_empty());
}

#[test]
fn transfers_beyond_the_balance_are_refused() {
    let mut ledger = LedgerState::default();
    let from = account(&mut ledger, MRK_SCALE);
    let to = account(&mut ledger, 0);
    let result = preview_transfer(
        &ledger,
        &from.identity.address,
        &to.identity.address,
        "2MRK",
        0,
        0,
    );
    assert!(result.is_err());
    assert!(preview_transfer(&ledger, &from.identity.address, "nowhere", "1MRK", 0, 0).is_err());
}

#[test]
fn submitted_transfers_are_applied_once() {
    let mut ledger = LedgerState::default();
    let from = account(&mut ledger, 5 * MRK_SCALE);
    let to = account(&mut ledger, 0);
    let request = TransferSigningRequest {
        ledger_id: &ledger.ledger_id.clone(),
        to: &to.identity.address,
        amount_text: "1MRK",
        nonce: 1,
        valid_until: 200,
        max_fee_base_units: 0,
        fee_policy_version: ledger.settings.fee_policy.version,
    };
    let (signature, intake) = signed(&to, "submitted");
    assert!(sign_transfer_for_submission(&from.identity, &request, signature, intake).is_err());
    let public = |keys: &Keys| {
        let (signature, intake) = signed(keys, "public");
        let request = PublicOperationSigningRequest {
            ledger_id: "ledger",
            module: "Asset",
            action: "Transfer",
            nonce: 1,
            valid_until: 200,
            max_fee_base_units: 0,
            fee_policy_version: 1,
            payload: Payload::new(),
        };
        sign_public_operation(&from.identity, request, signature, intake)
    };
    assert!(public(&to).is_err());
    assert_eq!(public(&from).unwrap().unsigned.signer, from.identity.address);
    let (signature, intake) = signed(&from, "submitted");
    let (_, operation) =
        sign_transfer_for_submission(&from.identity, &request, signature, intake).unwrap();
    submit_signed_transfer(&mut ledger, &from.identity.public_key, &operation, 100).unwrap();
    assert_eq!(account_balance(&ledger, &to.identity.address), MRK_SCALE);
    submit_signed_transfer(&mut ledger, &from.identity.public_key, &operation, 101).unwrap();
    assert_eq!(account_balance(&ledger, &to.identity.address), MRK_SCALE);
    assert_eq!(ledger.accounts.get(&from.identity.address).unwrap().nonce, 1);
    assert!(
        submit_signed_transfer(&mut ledger, &from.identity.public_key, &operation, 900).is_err()
    );
}

#[test]
fn fees_are_burned_in_full() {
    let mut ledger = LedgerState::default();
    let from = account(&mut ledger, 10 * MRK_SCALE);
    let to = account(&mut ledger, 0);
    let quote = fee_quote(&ledger, 3).unwrap();
    let preview = preview_transfer(
        &ledger,
        &from.identity.address,
        &to.identity.address,
        "1MRK",
        3,
        0,
    )
    .unwrap();
    let mut draft = transfer(&ledger, &preview, 0).unwrap();
    price_operation(&ledger, &mut draft.operation, 3).unwrap();
    let (signature, mut intake) = signed(&from, "paid");
    intake.fee_units = 3;
    commit_transfer(
        &mut ledger,
        draft,
        &preview,
        &from.identity.public_key,
        signature,
        intake,
        0,
    )
    .unwrap();
    let record = ledger.operations.get(&"paid".to_owned()).unwrap();
    assert_eq!(record.fee_charged, preview.fee);
    assert_eq!(record.fee_burned, record.fee_charged);
    assert_eq!(ledger.burned, record.fee_charged);
    assert_eq!(
        account_balance(&ledger, &from.identity.address),
        9 * MRK_SCALE - record.fee_charged
    );
    assert_eq!(quote.units, 3);
}

#[test]
fn created_networks_are_found_and_funded() {
    let mut ledger = LedgerState::default();
    let owner = account(&mut ledger, 10 * MRK_SCALE);
    let (draft, network) =
        create_network(&ledger, &owner.identity, "office", &[7; 32], 50).unwrap();
    let (signature, intake) = signed(&owner, "create");
    commit_draft(
        &mut ledger,
        draft,
        &owner.identity.public_key,
        signature,
        intake,
        50,
    )
    .unwrap();
    let found = network_by_alias(&ledger, "office").unwrap();
    assert_eq!(found.network_id, network.network_id);
    assert_eq!(resolve_network(&ledger, "office").unwrap(), found.commitment);
    assert_eq!(found.escrow_balance, 0);
    assert!(create_network(&ledger, &owner.identity, "office", &[8; 32], 51).is_err());

    let draft = fund_network(&ledger, &owner.identity, "office", "4MRK", 60).unwrap();
    let (signature, intake) = signed(&owner, "fund");
    commit_draft(
        &mut ledger,
        draft,
        &owner.identity.public_key,
        signature,
        intake,
        60,
    )
    .unwrap();
    assert_eq!(network_by_alias(&ledger, "office").unwrap().escrow_balance, 4 * MRK_SCALE);
    assert_eq!(account_balance(&ledger, &owner.identity.address), 6 * MRK_SCALE);
    assert!(network_by_alias(&ledger, "home").is_err());
}

#[test]
fn members_are_admitted_until_they_are_revoked() {
    let mut ledger = LedgerState::default();
    let owner = account(&mut ledger, MRK_SCALE);
    let (draft, _) = create_network(&ledger, &owner.identity, "office", &[7; 32], 0).unwrap();
    let (signature, intake) = signed(&owner, "create");
    commit_draft(
        &mut ledger,
        draft,
        &owner.identity.public_key,
        signature,
        intake,
        0,
    )
    .unwrap();
    let member = new_keys();
    let unsigned = draft_member(
        &ledger,
        &owner.identity,
        "office",
        "laptop",
        30,
        "member",
        &member.identity.public_key,
        10,
    )
    .unwrap();
    assert!(issue_member(
        &mut ledger,
        &owner.identity,
        "office",
        "laptop",
        30,
        "member",
        &member.identity.public_key,
        &sign(&member, credential_signing_text(&unsigned).as_bytes()),
        10,
    )
    .is_err());
    let signature = sign(&owner, credential_signing_text(&unsigned).as_bytes());
    let credential = issue_member(
        &mut ledger,
        &owner.identity,
        "office",
        "laptop",
        30,
        "member",
        &member.identity.public_key,
        &signature,
        10,
    )
    .unwrap();
    let text = hello_signing_text("challenge", &credential, 20);
    let value: serde_json::Value = serde_json::from_str(&text).unwrap();
    assert_eq!(value["challenge"], "challenge");
    assert_eq!(value["timestamp"], 20);
    assert!(create_member_hello(
        credential.replicate(),
        &member.identity,
        "challenge",
        20,
        sign(&owner, text.as_bytes()),
    )
    .is_err());
    let hello = create_member_hello(
        credential,
        &member.identity,
        "challenge",
        20,
        sign(&member, text.as_bytes()),
    )
    .unwrap();
    let admitted = authenticate_member(&ledger, "challenge", &hello, 21).unwrap();
    assert_eq!(admitted.member_id, "member");
    assert_eq!(
        refusal(authenticate_member(&ledger, "challenge", &hello, 80)),
        "member HELLO timestamp is outside the 30 second window"
    );
    assert!(authenticate_member(&ledger, "another", &hello, 21).is_err());

    let draft = revoke_member(&ledger, &owner.identity, "office", 1, 22).unwrap();
    let (signature, intake) = signed(&owner, "revoke");
    commit_draft(
        &mut ledger,
        draft,
        &owner.identity.public_key,
        signature,
        intake,
        22,
    )
    .unwrap();
    assert!(authenticate_member(&ledger, "challenge", &hello, 23).is_err());
}

#[test]
fn credentials_last_a_year_at_most() {
    let mut ledger = LedgerState::default();
    let owner = account(&mut ledger, 0);
    assert_eq!(
        refusal(issue_member(
            &mut ledger,
            &owner.identity,
            "office",
            "laptop",
            366,
            "member",
            "key",
            "",
            0,
        )),
        "member credential validity must be between 1 and 365 days"
    );
}

#[test]
fn accounts_are_created_once() {
    let mut ledger = LedgerState::default();
    let keys = new_keys();
    let made = create_account(&mut ledger, "main", false, keys.identity.replicate()).unwrap();
    assert_eq!(made.address, keys.identity.address);
    assert!(ledger.accounts.contains_key(&keys.identity.address));
    assert_eq!(
        refusal(create_account(&mut ledger, "main", true, keys.identity.replicate())),
        "account 'main' already exists"
    );
    assert!(create_local_account("a b", false, keys.identity.replicate()).is_err());
    match account_keyfile("node:relay").unwrap() {
        KeyPlace::NodeReward(name) => assert_eq!(name, "relay"),
        KeyPlace::Account(_) => panic!("a node was asked for"),
    }
    match account_keyfile("main").unwrap() {
        KeyPlace::Account(name) => assert_eq!(name, "main"),
        KeyPlace::NodeReward(_) => panic!("an account was asked for"),
    }
    assert!(account_keyfile("node:a b").is_err());
}
