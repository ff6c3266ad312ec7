use base64::engine::general_purpose::STANDARD;
use base64::Engine;
use ring::rand::SystemRandom;
use ring::signature::{Ed25519KeyPair, KeyPair};
use mrk_core::amount::{format_mrk, parse_mrk};
use mrk_core::blocks::block_signing_text;
use mrk_core::crypto::{
    address_from_public_key, deterministic_mod, digest_bytes, hex_lower, sha256_full_id, sha256_id,
    validate_address, verify_bytes,
};
use mrk_core::endpoint::{
    normalize_websocket_url, parse_wss_endpoint, resolve_endpoint_public_ip, RPC_PATH,
};
use mrk_core::ip::{ip_slot, is_public_ip, parse_ip, write_ip};
use mrk_core::json::quoted;
use mrk_core::model::{BlockConsensusMode, BlockRecord};
use mrk_core::text::trim_text;

#[test]
fn digests_are_those_of_sha_256() {
    assert_eq!(
        hex_lower(&digest_bytes(b"abc")),
        "ba7816bf8f01cfea414140de5dae2223b00361a396177a9cb410ff61f20015ad"
    );
    assert_eq!(
        hex_lower(&digest_bytes(b"")),
        "e3b0c44298fc1c149afbf4c8996fb92427ae41e4649b934ca495991b7852b855"
    );
}

#[test]
fn signatures_are_checked() {
    let document = Ed25519KeyPair::generate_pkcs8(&SystemRandom::new()).unwrap();
    let pair = Ed25519KeyPair::from_pkcs8(document.as_ref()).unwrap();
    let public_key = STANDARD.encode(pair.public_key().as_ref());
    let signature = STANDARD.encode(pair.sign(b"message").as_ref());
    verify_bytes(&public_key, b"message", &signature).unwrap();
    assert_eq!(
        verify_bytes(&public_key, b"another", &signature)
            .unwrap_err()
            .text(),
        "signature verification failed"
    );
    assert_eq!(
        verify_bytes("?", b"message", &signature).unwrap_err().text(),
        "public key is not valid base64"
    );
    assert_eq!(
        verify_bytes(&public_key, b"message", "?").unwrap_err().text(),
        "signature is not valid base64"
    );
}

#[test]
fn known_signatures_are_accepted() {
    let public_key = "11qYAYKxCrfVS/7TyWQHOg7hcvPapiMlrwIaaPcHURo=";
    let signature =
        "5VZDAMNgrHKQhuLMgG6CioSHfx645dl02HPgZSJJAVVfuIIVkKM7rMYeOXAc+bRr0lv18FlbviRlUUFDjnoQCw==";
    verify_bytes(public_key, b"", signature).unwrap();
}

#[test]
fn addresses_are_drawn_from_keys() {
    let address = address_from_public_key(b"abc");
    assert_eq!(address, "mrk1ba7816bf8f01cfea414140de5dae2223b00361a3");
    validate_address(&address).unwrap();
    assert_eq!(
        validate_address("mrk1xyz").unwrap_err().text(),
        "invalid MRK address"
    );
    assert!(validate_address(&address.to_uppercase()).is_err());
}

#[test]
fn identifiers_name_their_domain() {
    let full = sha256_full_id("op", b"data");
    assert!(full.starts_with("op_"));
    assert_eq!(full.len(), 3 + 64);
    assert_eq!(sha256_id("op", b"data"), full[..3 + 32]);
    assert_ne!(sha256_full_id("op", b"other"), full);
}

#[test]
fn draws_stay_below_their_modulus() {
    for modulus in 1..50 {
        let drawn = deterministic_mod("draw", b"seed", modulus);
        assert!(drawn < modulus);
        assert_eq!(drawn, deterministic_mod("draw", b"seed", modulus));
    }
}

#[test]
fn signed_texts_quote_what_they_hold() {
    let block = BlockRecord {
        version: 1,
        ledger_id: "a \"quoted\" ledger\n".to_owned(),
        height: 1,
        previous_block_hash: "GENESIS".to_owned(),
        timestamp: -5,
        producer_node_id: 1,
        producer_owner_address: "owner".to_owned(),
        operation_ids: vec!["one".to_owned(), "two".to_owned()],
        state_root: "state".to_owned(),
        block_hash: String::new(),
        producer_signature: String::new(),
        consensus_mode: BlockConsensusMode::Node1,
        consensus_round: 0,
        validator_set_hash: String::new(),
        commit_signatures: Vec::new(),
        validator_epoch: 0,
        validator_node_ids: Vec::new(),
    };
    let text = block_signing_text(&block);
    let value: serde_json::Value = serde_json::from_str(&text).unwrap();
    assert_eq!(value["ledger_id"], "a \"quoted\" ledger\n");
    assert_eq!(value["timestamp"], -5);
    assert_eq!(value["operation_ids"][1], "two");
}

#[test]
fn endpoints_are_written_as_the_web_writes_them() {
    let url = parse_wss_endpoint("WSS://Relay.Example.COM").unwrap();
    assert_eq!(url.text, "wss://relay.example.com/v1/relay");
    assert_eq!(url.host.as_deref(), Some("relay.example.com"));
    assert!(parse_wss_endpoint("ws://relay.example.com").is_err());
    assert!(parse_wss_endpoint("not an address").is_err());
    let rpc = normalize_websocket_url("ws://10.0.0.1:9000", RPC_PATH).unwrap();
    assert_eq!(rpc.path, RPC_PATH);
}

#[test]
fn endpoints_keep_their_query() {
    let url = parse_wss_endpoint("wss://relay.example.com/?a/").unwrap();
    assert_eq!(url.text, "wss://relay.example.com/v1/relay?a/");
    assert_eq!(url.path, "/v1/relay");
    let url = parse_wss_endpoint("wss://relay.example.com?a=b").unwrap();
    assert_eq!(url.text, "wss://relay.example.com/v1/relay?a=b");
    let url = parse_wss_endpoint("wss://relay.example.com/#end/").unwrap();
    assert_eq!(url.text, "wss://relay.example.com/v1/relay#end/");
    let url = parse_wss_endpoint("wss://relay.example.com/v1/relay?a").unwrap();
    assert_eq!(url.text, "wss://relay.example.com/v1/relay?a");
    assert_eq!(
        parse_wss_endpoint("wss://relay.example.com/elsewhere?/")
            .err()
            .unwrap()
            .text(),
        "node endpoint path must be /v1/relay"
    );
}

#[test]
fn white_space_is_taken_off() {
    assert_eq!(trim_text(" \t\u{2003}a b\u{a0}\u{3000}\r\n"), "a b");
    assert_eq!(trim_text("\u{200b}a"), "\u{200b}a");
    assert_eq!(trim_text("  "), "");
    assert_eq!(trim_text(""), "");
}

#[test]
fn quoted_texts_are_escaped() {
    assert_eq!(quoted("plain"), "\"plain\"");
    assert_eq!(quoted("\"\\/"), "\"\\\"\\\\/\"");
    assert_eq!(
        quoted("\u{8}\u{c}\n\r\t\u{0}\u{1f}\u{7f}\u{2028}"),
        "\"\\b\\f\\n\\r\\t\\u0000\\u001f\u{7f}\u{2028}\""
    );
}

#[test]
fn endpoints_resolve_to_public_addresses() {
    let public = parse_ip("1.1.1.1").unwrap();
    let private = parse_ip("10.0.0.1").unwrap();
    assert_eq!(
        resolve_endpoint_public_ip("wss://relay.example.com", &vec![public]).unwrap(),
        public
    );
    assert!(resolve_endpoint_public_ip("wss://relay.example.com", &vec![private]).is_err());
    assert_eq!(
        resolve_endpoint_public_ip("wss://8.8.8.8/v1/relay", &Vec::new()).unwrap(),
        parse_ip("8.8.8.8").unwrap()
    );
}

#[test]
fn addresses_of_one_network_share_a_slot() {
    let first = parse_ip("2606:4700:4700:1::1").unwrap();
    let second = parse_ip("2606:4700:4700:1:ffff::9").unwrap();
    let third = parse_ip("2606:4700:4700:2::1").unwrap();
    assert_eq!(ip_slot(first), ip_slot(second));
    assert_ne!(ip_slot(first), ip_slot(third));
    assert!(parse_ip("1.2.3").is_none());
    assert!(parse_ip("1.2.3.256").is_none());
    assert!(!is_public_ip(parse_ip("::1").unwrap()));
    assert!(!is_public_ip(parse_ip("192.168.0.1").unwrap()));
    assert_eq!(write_ip(parse_ip("8.8.8.8").unwrap()), "8.8.8.8");
}

#[test]
fn amounts_are_read_and_written() {
    assert_eq!(parse_mrk("1.5MRK").unwrap(), 1_500_000_000);
    assert_eq!(parse_mrk("0.000000001MRK").unwrap(), 1);
    assert!(parse_mrk("0.0000000001MRK").is_err());
    assert!(parse_mrk("MRK").is_err());
    assert_eq!(format_mrk(1_500_000_000), "1.5 MRK");
    assert_eq!(format_mrk(0), "0 MRK");
}
