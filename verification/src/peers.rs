use vstd::prelude::*;
use vstd::string::*;
use vstd::utf8::*;

use crate::crypto::{signature_checked, verify_bytes};
use crate::error::{outcome, Error, Outcome, Result};
use crate::model::{
    KeyIdentity, KeyModel, LedgerModel, LedgerState, LocalNodeConfig, NodeConfigModel,
};
use crate::node_drafts::{local_node_id, registered_id};
use crate::number::saturating_sub_i64;
use crate::proposing::{ensure_active_validator_identity, identity_checked};
use crate::protocol::CONSENSUS_PROTOCOL;
use crate::sequence::contains_id;
use crate::text::{decimal, i64_text, join5, signed_decimal, text_same, u64_text};

verus! {

/// What a validator asks another to sign before they talk.
#[derive(Debug)]
pub struct ConsensusChallenge {
    pub protocol: String,
    pub challenge: String,
    pub server_node_id: u64,
    pub server_owner_public_key: String,
    pub timestamp: i64,
    pub signature: String,
}

/// The contents of `ConsensusChallenge`.
#[verifier::ext_equal]
pub struct ChallengeModel {
    pub protocol: Seq<char>,
    pub challenge: Seq<char>,
    pub server_node_id: u64,
    pub server_owner_public_key: Seq<char>,
    pub timestamp: i64,
    pub signature: Seq<char>,
}

impl DeepView for ConsensusChallenge {
    type V = ChallengeModel;

    open spec fn deep_view(&self) -> ChallengeModel {
        ChallengeModel {
            protocol: self.protocol@,
            challenge: self.challenge@,
            server_node_id: self.server_node_id,
            server_owner_public_key: self.server_owner_public_key@,
            timestamp: self.timestamp,
            signature: self.signature@,
        }
    }
}

/// What a validator answers to a challenge.
#[derive(Debug)]
pub struct ConsensusHello {
    pub protocol: String,
    pub validator_node_id: u64,
    pub timestamp: i64,
    pub signature: String,
}

/// The contents of `ConsensusHello`.
#[verifier::ext_equal]
pub struct PeerHelloModel {
    pub protocol: Seq<char>,
    pub validator_node_id: u64,
    pub timestamp: i64,
    pub signature: Seq<char>,
}

impl DeepView for ConsensusHello {
    type V = PeerHelloModel;

    open spec fn deep_view(&self) -> PeerHelloModel {
        PeerHelloModel {
            protocol: self.protocol@,
            validator_node_id: self.validator_node_id,
            timestamp: self.timestamp,
            signature: self.signature@,
        }
    }
}

/// Whether a time is within half a minute of another.
pub open spec fn is_recent(timestamp: i64, now: i64) -> bool {
    -30 <= now - timestamp <= 30
}

fn check_recent(timestamp: i64, now: i64) -> (r: bool)
    ensures
        r == is_recent(timestamp, now),
{
    let age: i64 = saturating_sub_i64(now, timestamp);
    -30 <= age && age <= 30
}

/// What the sender of a challenge signs.
pub open spec fn challenge_signed(challenge: ChallengeModel) -> Seq<char> {
    challenge.protocol + ":challenge:"@ + challenge.challenge + ":"@ + decimal(
        challenge.server_node_id as nat,
    ) + ":"@ + challenge.server_owner_public_key + ":"@ + signed_decimal(
        challenge.timestamp as int,
    )
}

/// Writes what the sender of a challenge signs.
pub fn challenge_signing_text(challenge: &ConsensusChallenge) -> (r: String)
    ensures
        r@ == challenge_signed(challenge.deep_view()),
{
    let mut text = join5(
        challenge.protocol.as_str(),
        ":challenge:",
        challenge.challenge.as_str(),
        ":",
        u64_text(challenge.server_node_id).as_str(),
    );
    text.append(":");
    text.append(challenge.server_owner_public_key.as_str());
    text.append(":");
    text.append(i64_text(challenge.timestamp).as_str());
    text
}

/// What a validator signs in answer to a challenge: the challenge, its own number and the time.
pub open spec fn peer_hello_signed(
    challenge: ChallengeModel,
    node_id: u64,
    timestamp: i64,
) -> Seq<char> {
    challenge.protocol + ":hello:"@ + challenge.challenge + ":"@ + decimal(node_id as nat) + ":"@
        + signed_decimal(timestamp as int)
}

/// Writes what a validator signs in answer to a challenge.
pub fn peer_hello_signing_text(
    challenge: &ConsensusChallenge,
    node_id: u64,
    timestamp: i64,
) -> (r: String)
    ensures
        r@ == peer_hello_signed(challenge.deep_view(), node_id, timestamp),
{
    let mut text = join5(
        challenge.protocol.as_str(),
        ":hello:",
        challenge.challenge.as_str(),
        ":",
        u64_text(node_id).as_str(),
    );
    text.append(":");
    text.append(i64_text(timestamp).as_str());
    text
}

/// The answer of a local validator to a challenge, which is recent and signed by its sender.
/// The validator has signed its answer.
pub open spec fn hello_made(
    ledger: LedgerModel,
    config: NodeConfigModel,
    owner: KeyModel,
    challenge: ChallengeModel,
    signature: Seq<char>,
    now: i64,
) -> Outcome<PeerHelloModel> {
    match registered_id(config) {
        Err(refusal) => Err(refusal),
        Ok(node_id) => if challenge.protocol != CONSENSUS_PROTOCOL@ {
            Err("unsupported consensus challenge protocol"@)
        } else if !is_recent(challenge.timestamp, now) {
            Err("consensus challenge timestamp is stale"@)
        } else if !ledger.nodes.contains_key(challenge.server_node_id) {
            Err("consensus challenge references an unknown server Node"@)
        } else if ledger.nodes[challenge.server_node_id].owner_public_key
            != challenge.server_owner_public_key {
            Err("consensus challenge Owner key does not match the Node registry"@)
        } else {
            match signature_checked(
                challenge.server_owner_public_key,
                encode_utf8(challenge_signed(challenge)),
                challenge.signature,
            ) {
                Err(refusal) => Err(refusal),
                Ok(_) => match identity_checked(ledger, node_id, owner) {
                    Err(refusal) => Err(refusal),
                    Ok(_) => match signature_checked(
                        owner.public_key,
                        encode_utf8(peer_hello_signed(challenge, node_id, now)),
                        signature,
                    ) {
                        Err(refusal) => Err(refusal),
                        Ok(_) => Ok(
                            PeerHelloModel {
                                protocol: CONSENSUS_PROTOCOL@,
                                validator_node_id: node_id,
                                timestamp: now,
                                signature,
                            },
                        ),
                    },
                },
            }
        },
    }
}

/// Answers a challenge for a local validator, with its signature over `peer_hello_signing_text`.
pub fn create_consensus_hello(
    ledger: &LedgerState,
    config: &LocalNodeConfig,
    owner: &KeyIdentity,
    challenge: &ConsensusChallenge,
    signature: String,
    now: i64,
) -> (r: Result<ConsensusHello>)
    ensures
        outcome(r) == hello_made(
            ledger@,
            config.deep_view(),
            owner.deep_view(),
            challenge.deep_view(),
            signature@,
            now,
        ),
{
    let node_id = local_node_id(config)?;
    if !text_same(challenge.protocol.as_str(), CONSENSUS_PROTOCOL) {
        return Err(Error::msg("unsupported consensus challenge protocol"));
    }
    if !check_recent(challenge.timestamp, now) {
        return Err(Error::msg("consensus challenge timestamp is stale"));
    }
    match ledger.nodes.get(&challenge.server_node_id) {
        None => {
            return Err(Error::msg("consensus challenge references an unknown server Node"));
        },
        Some(server) => {
            if !text_same(
                server.owner_public_key.as_str(),
                challenge.server_owner_public_key.as_str(),
            ) {
                return Err(
                    Error::msg("consensus challenge Owner key does not match the Node registry"),
                );
            }
        },
    }
    verify_bytes(
        challenge.server_owner_public_key.as_str(),
        challenge_signing_text(challenge).as_str().as_bytes(),
        challenge.signature.as_str(),
    )?;
    ensure_active_validator_identity(ledger, node_id, owner)?;
    verify_bytes(
        owner.public_key.as_str(),
        peer_hello_signing_text(challenge, node_id, now).as_str().as_bytes(),
        signature.as_str(),
    )?;
    Ok(
        ConsensusHello {
            protocol: CONSENSUS_PROTOCOL.to_owned(),
            validator_node_id: node_id,
            timestamp: now,
            signature,
        },
    )
}

/// The challenge of a local validator, with what it has drawn, before it is signed.
pub open spec fn challenge_drafted(
    ledger: LedgerModel,
    config: NodeConfigModel,
    owner: KeyModel,
    drawn: Seq<char>,
    now: i64,
) -> Outcome<ChallengeModel> {
    match registered_id(config) {
        Err(refusal) => Err(refusal),
        Ok(node_id) => match identity_checked(ledger, node_id, owner) {
            Err(refusal) => Err(refusal),
            Ok(_) => Ok(
                ChallengeModel {
                    protocol: CONSENSUS_PROTOCOL@,
                    challenge: drawn,
                    server_node_id: node_id,
                    server_owner_public_key: owner.public_key,
                    timestamp: now,
                    signature: ""@,
                },
            ),
        },
    }
}

/// Makes the challenge of a local validator, from what it has drawn by chance. It is not signed yet.
pub fn draft_consensus_challenge(
    ledger: &LedgerState,
    config: &LocalNodeConfig,
    owner: &KeyIdentity,
    drawn: String,
    now: i64,
) -> (r: Result<ConsensusChallenge>)
    ensures
        outcome(r) == challenge_drafted(
            ledger@,
            config.deep_view(),
            owner.deep_view(),
            drawn@,
            now,
        ),
{
    let node_id = local_node_id(config)?;
    ensure_active_validator_identity(ledger, node_id, owner)?;
    Ok(
        ConsensusChallenge {
            protocol: CONSENSUS_PROTOCOL.to_owned(),
            challenge: drawn,
            server_node_id: node_id,
            server_owner_public_key: owner.public_key.clone(),
            timestamp: now,
            signature: "".to_owned(),
        },
    )
}

/// The challenge of a local validator, which it has signed.
pub open spec fn challenge_made(
    ledger: LedgerModel,
    config: NodeConfigModel,
    owner: KeyModel,
    drawn: Seq<char>,
    signature: Seq<char>,
    now: i64,
) -> Outcome<ChallengeModel> {
    match challenge_drafted(ledger, config, owner, drawn, now) {
        Err(refusal) => Err(refusal),
        Ok(challenge) => match signature_checked(
            owner.public_key,
            encode_utf8(challenge_signed(challenge)),
            signature,
        ) {
            Err(refusal) => Err(refusal),
            Ok(_) => Ok(ChallengeModel { signature, ..challenge }),
        },
    }
}

/// Makes the challenge of a local validator, from what it has drawn by chance and with its
/// signature over `challenge_signing_text` of the draft.
pub fn create_consensus_challenge(
    ledger: &LedgerState,
    config: &LocalNodeConfig,
    owner: &KeyIdentity,
    drawn: String,
    signature: String,
    now: i64,
) -> (r: Result<ConsensusChallenge>)
    ensures
        outcome(r) == challenge_made(
            ledger@,
            config.deep_view(),
            owner.deep_view(),
            drawn@,
            signature@,
            now,
        ),
{
    let mut challenge = draft_consensus_challenge(ledger, config, owner, drawn, now)?;
    verify_bytes(
        owner.public_key.as_str(),
        challenge_signing_text(&challenge).as_str().as_bytes(),
        signature.as_str(),
    )?;
    challenge.signature = signature;
    Ok(challenge)
}

/// The validator that has answered a challenge, if it has signed the challenge, its number and the
/// time.
pub open spec fn peer_authenticated(
    ledger: LedgerModel,
    challenge: ChallengeModel,
    hello: PeerHelloModel,
    now: i64,
) -> Outcome<u64> {
    let node_id = hello.validator_node_id;
    if challenge.protocol != CONSENSUS_PROTOCOL@ || hello.protocol != CONSENSUS_PROTOCOL@
        || !is_recent(challenge.timestamp, now) || !is_recent(hello.timestamp, now) {
        Err("invalid or stale consensus peer handshake"@)
    } else if !ledger.nodes.contains_key(node_id) {
        Err("consensus peer references an unknown Node"@)
    } else if !ledger.consensus.active_validators.contains(node_id) {
        Err("consensus peer is not an active Validator"@)
    } else {
        match signature_checked(
            ledger.nodes[node_id].owner_public_key,
            encode_utf8(peer_hello_signed(challenge, node_id, hello.timestamp)),
            hello.signature,
        ) {
            Err(refusal) => Err(refusal),
            Ok(_) => Ok(node_id),
        }
    }
}

/// Checks the answer to a challenge.
pub fn authenticate_consensus_peer(
    ledger: &LedgerState,
    challenge: &ConsensusChallenge,
    hello: &ConsensusHello,
    now: i64,
) -> (r: Result<u64>)
    ensures
        outcome(r) == peer_authenticated(
            ledger@,
            challenge.deep_view(),
            hello.deep_view(),
            now,
        ),
{
    if !text_same(challenge.protocol.as_str(), CONSENSUS_PROTOCOL) || !text_same(
        hello.protocol.as_str(),
        CONSENSUS_PROTOCOL,
    ) || !check_recent(challenge.timestamp, now) || !check_recent(hello.timestamp, now) {
        return Err(Error::msg("invalid or stale consensus peer handshake"));
    }
    match ledger.nodes.get(&hello.validator_node_id) {
        None => Err(Error::msg("consensus peer references an unknown Node")),
        Some(validator) => {
            if !contains_id(&ledger.consensus.active_validators, hello.validator_node_id) {
                return Err(Error::msg("consensus peer is not an active Validator"));
            }
            let signed = peer_hello_signing_text(
                challenge,
                hello.validator_node_id,
                hello.timestamp,
            );
            verify_bytes(
                validator.owner_public_key.as_str(),
                signed.as_str().as_bytes(),
                hello.signature.as_str(),
            )?;
            Ok(hello.validator_node_id)
        },
    }
}

/// A challenge that a validator has made is answered by another, and the answer is accepted: where
/// the registry knows both with these keys, the member of the committee is let in.
pub proof fn answered_challenges_are_accepted(
    ledger: LedgerModel,
    config: NodeConfigModel,
    owner: KeyModel,
    challenge: ChallengeModel,
    signature: Seq<char>,
    answered_at: i64,
    now: i64,
)
    requires
        hello_made(ledger, config, owner, challenge, signature, answered_at) is Ok,
        is_recent(challenge.timestamp, now),
        is_recent(answered_at, now),
    ensures
        ({
            let hello = hello_made(
                ledger,
                config,
                owner,
                challenge,
                signature,
                answered_at,
            )->Ok_0;
            &&& Some(hello.validator_node_id) == config.node_id
            &&& peer_authenticated(ledger, challenge, hello, now) == Ok::<u64, Seq<char>>(
                hello.validator_node_id,
            )
        }),
{
}

/// Only a validator of the committee is let in: one that has signed the answer with the key that
/// the registry has of it, within half a minute of the challenge and of its own time.
pub proof fn let_in_peers_are_validators(
    ledger: LedgerModel,
    challenge: ChallengeModel,
    hello: PeerHelloModel,
    now: i64,
)
    requires
        peer_authenticated(ledger, challenge, hello, now) is Ok,
    ensures
        peer_authenticated(ledger, challenge, hello, now)->Ok_0 == hello.validator_node_id,
        ledger.consensus.active_validators.contains(hello.validator_node_id),
        ledger.nodes.contains_key(hello.validator_node_id),
        signature_checked(
            ledger.nodes[hello.validator_node_id].owner_public_key,
            encode_utf8(
                peer_hello_signed(challenge, hello.validator_node_id, hello.timestamp),
            ),
            hello.signature,
        ) is Ok,
        challenge.timestamp - 30 <= now <= challenge.timestamp + 30,
        hello.timestamp - 30 <= now <= hello.timestamp + 30,
{
}

} // verus!
