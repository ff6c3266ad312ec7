use base64::engine::general_purpose::{STANDARD, URL_SAFE_NO_PAD};
use base64::Engine;
use ring::digest::{digest, SHA256};
use ring::signature::{UnparsedPublicKey, ED25519};
use vstd::prelude::*;
use vstd::string::*;
use vstd::utf8::*;

use crate::error::{outcome, Error, Outcome, Result};
use crate::text::{has_prefix, is_lower_hex, text_has_prefix};

verus! {

/// What `base64` reads from a text in the standard alphabet with padding.
pub uninterp spec fn base64_decoded(text: Seq<char>) -> Option<Seq<u8>>;

/// What `base64` reads from a text in the URL-safe alphabet without padding.
pub uninterp spec fn base64url_decoded(text: Seq<char>) -> Option<Seq<u8>>;

/// How `base64` writes bytes in the URL-safe alphabet without padding.
pub uninterp spec fn base64url_encoded(bytes: Seq<u8>) -> Seq<char>;

/// The SHA-256 digest that `ring` computes.
pub uninterp spec fn sha256_of(bytes: Seq<u8>) -> Seq<u8>;

/// Whether `ring` accepts an Ed25519 signature of a message under a public key.
pub uninterp spec fn ed25519_valid(key: Seq<u8>, message: Seq<u8>, signature: Seq<u8>) -> bool;

/// `Engine::decode` of the engine `STANDARD` of `base64`: the bytes that a text stands for, or none
/// where the text is not valid base64. Which texts are valid is left to the crate.
#[verifier::external_body]
pub(crate) fn decode_standard(text: &str) -> (r: Option<Vec<u8>>)
    ensures
        match r {
            Some(bytes) => base64_decoded(text@) == Some(bytes@),
            None => base64_decoded(text@) is None,
        },
{
    STANDARD.decode(text).ok()
}

/// `Engine::decode` of the engine `URL_SAFE_NO_PAD` of `base64`: the bytes that a text stands for, or
/// none where the text is not valid base64. Which texts are valid is left to the crate.
#[verifier::external_body]
pub(crate) fn decode_url_safe(text: &str) -> (r: Option<Vec<u8>>)
    ensures
        match r {
            Some(bytes) => base64url_decoded(text@) == Some(bytes@),
            None => base64url_decoded(text@) is None,
        },
{
    URL_SAFE_NO_PAD.decode(text).ok()
}

/// `Engine::encode` of the engine `URL_SAFE_NO_PAD` of `base64`: a text for some bytes, from which the
/// same engine reads the same bytes back. It gives up where the text would not fit in memory, so it
/// is asked for short ones only.
#[verifier::external_body]
pub(crate) fn encode_url_safe(bytes: &[u8]) -> (r: String)
    requires
        bytes@.len() <= 4_096,
    ensures
        r@ == base64url_encoded(bytes@),
        base64url_decoded(r@) == Some(bytes@),
{
    URL_SAFE_NO_PAD.encode(bytes)
}

/// `ring::digest::digest` with `SHA256`: 32 bytes that depend on the data alone. It is defined for
/// data of less than 2^61 bytes.
#[verifier::external_body]
fn sha256(data: &[u8]) -> (r: Vec<u8>)
    requires
        data@.len() < 0x2000_0000_0000_0000,
    ensures
        r@ == sha256_of(data@),
        r@.len() == 32,
{
    digest(&SHA256, data).as_ref().to_vec()
}

/// `UnparsedPublicKey::verify` of `ring` with `ED25519`: whether a signature is accepted. The answer
/// depends on the key, the message and the signature alone.
#[verifier::external_body]
fn ed25519_verify(key: &[u8], message: &[u8], signature: &[u8]) -> (r: bool)
    ensures
        r == ed25519_valid(key@, message@, signature@),
{
    UnparsedPublicKey::new(&ED25519, key).verify(message, signature).is_ok()
}

/// The digest of some data. Data that is longer than SHA-256 is defined for has none.
pub open spec fn digest_of(data: Seq<u8>) -> Seq<u8> {
    if data.len() < 0x2000_0000_0000_0000 {
        sha256_of(data)
    } else {
        Seq::empty()
    }
}

pub fn digest_bytes(data: &[u8]) -> (r: Vec<u8>)
    ensures
        r@ == digest_of(data@),
        r@.len() <= 32,
{
    if (data.len() as u64) < 0x2000_0000_0000_0000u64 {
        sha256(data)
    } else {
        let empty: Vec<u8> = Vec::new();
        assert(empty@ =~= Seq::<u8>::empty());
        empty
    }
}

/// The hexadecimal digit of a number below sixteen.
pub open spec fn hex_char(nibble: nat) -> char {
    if nibble == 10 {
        'a'
    } else if nibble == 11 {
        'b'
    } else if nibble == 12 {
        'c'
    } else if nibble == 13 {
        'd'
    } else if nibble == 14 {
        'e'
    } else if nibble == 15 {
        'f'
    } else {
        crate::text::digit_char(nibble)
    }
}

/// Bytes in lowercase hexadecimal notation.
pub open spec fn hex_text(bytes: Seq<u8>) -> Seq<char>
    decreases bytes.len(),
{
    if bytes.len() == 0 {
        Seq::empty()
    } else {
        hex_text(bytes.drop_last()) + seq![
            hex_char((bytes.last() / 16) as nat),
            hex_char((bytes.last() % 16) as nat),
        ]
    }
}

/// A number in lowercase hexadecimal notation, without leading zeros.
pub open spec fn hex_number(n: nat) -> Seq<char>
    decreases n,
{
    if n < 16 {
        seq![hex_char(n)]
    } else {
        hex_number(n / 16).push(hex_char(n % 16))
    }
}

fn nibble_text(nibble: u8) -> (r: &'static str)
    requires
        nibble < 16,
    ensures
        r@ == seq![hex_char(nibble as nat)],
{
    proof {
        reveal_strlit("0");
        reveal_strlit("1");
        reveal_strlit("2");
        reveal_strlit("3");
        reveal_strlit("4");
        reveal_strlit("5");
        reveal_strlit("6");
        reveal_strlit("7");
        reveal_strlit("8");
        reveal_strlit("9");
        reveal_strlit("a");
        reveal_strlit("b");
        reveal_strlit("c");
        reveal_strlit("d");
        reveal_strlit("e");
        reveal_strlit("f");
    }
    let r: &'static str = match nibble {
        0 => "0",
        1 => "1",
        2 => "2",
        3 => "3",
        4 => "4",
        5 => "5",
        6 => "6",
        7 => "7",
        8 => "8",
        9 => "9",
        10 => "a",
        11 => "b",
        12 => "c",
        13 => "d",
        14 => "e",
        _ => "f",
    };
    assert(r@ =~= seq![hex_char(nibble as nat)]);
    r
}

/// Writes bytes in lowercase hexadecimal notation.
pub fn hex_lower(bytes: &[u8]) -> (r: String)
    ensures
        r@ == hex_text(bytes@),
{
    let mut text = String::new();
    let mut i: usize = 0;
    assert(bytes@.take(0) =~= Seq::<u8>::empty());
    while i < bytes.len()
        invariant
            i <= bytes@.len(),
            text@ == hex_text(bytes@.take(i as int)),
        decreases bytes@.len() - i,
    {
        let ghost before = text@;
        text.append(nibble_text(bytes[i] / 16));
        text.append(nibble_text(bytes[i] % 16));
        assert(bytes@.take(i as int + 1).drop_last() =~= bytes@.take(i as int));
        assert(text@ =~= before + seq![
            hex_char((bytes@[i as int] / 16) as nat),
            hex_char((bytes@[i as int] % 16) as nat),
        ]);
        i = i + 1;
    }
    assert(bytes@.take(bytes@.len() as int) =~= bytes@);
    text
}

/// Writes a number in lowercase hexadecimal notation.
pub fn hex_u16(n: u16) -> (r: String)
    ensures
        r@ == hex_number(n as nat),
    decreases n,
{
    if n < 16 {
        nibble_text(n as u8).to_owned()
    } else {
        let mut text = hex_u16(n / 16);
        text.append(nibble_text((n % 16) as u8));
        assert(text@ =~= hex_number((n / 16) as nat).push(hex_char((n % 16) as nat)));
        text
    }
}

/// What is hashed for an identifier: its domain, a zero byte and the data.
pub open spec fn id_message(domain: Seq<char>, data: Seq<u8>) -> Seq<u8> {
    encode_utf8(domain) + seq![0u8] + data
}

/// An identifier: its domain and the digest of what it stands for.
pub open spec fn full_id(domain: Seq<char>, data: Seq<u8>) -> Seq<char> {
    domain + "_"@ + hex_text(digest_of(id_message(domain, data)))
}

/// An identifier with the first half of the digest only.
pub open spec fn short_id(domain: Seq<char>, data: Seq<u8>) -> Seq<char> {
    domain + "_"@ + hex_text(front_half(digest_of(id_message(domain, data))))
}

/// The first sixteen bytes of a digest.
pub open spec fn front_half(digest: Seq<u8>) -> Seq<u8> {
    if digest.len() > 16 {
        digest.take(16)
    } else {
        digest
    }
}

fn append_bytes(target: &mut Vec<u8>, bytes: &[u8])
    ensures
        final(target)@ == old(target)@ + bytes@,
{
    let ghost before = target@;
    let mut i: usize = 0;
    assert(before + bytes@.take(0) =~= before);
    while i < bytes.len()
        invariant
            i <= bytes@.len(),
            target@ == before + bytes@.take(i as int),
        decreases bytes@.len() - i,
    {
        target.push(bytes[i]);
        assert(target@ =~= before + bytes@.take(i as int + 1));
        i = i + 1;
    }
    assert(bytes@.take(bytes@.len() as int) =~= bytes@);
}

fn id_digest(domain: &str, data: &[u8]) -> (r: Vec<u8>)
    ensures
        r@ == digest_of(id_message(domain@, data@)),
        r@.len() <= 32,
{
    let mut message: Vec<u8> = Vec::new();
    append_bytes(&mut message, domain.as_bytes());
    message.push(0);
    append_bytes(&mut message, data);
    assert(message@ =~= id_message(domain@, data@));
    digest_bytes(message.as_slice())
}

/// The identifier of some data in a domain.
pub fn sha256_full_id(domain: &str, data: &[u8]) -> (r: String)
    ensures
        r@ == full_id(domain@, data@),
{
    let digest = id_digest(domain, data);
    crate::text::join3(domain, "_", hex_lower(digest.as_slice()).as_str())
}

/// The short identifier of some data in a domain.
pub fn sha256_id(domain: &str, data: &[u8]) -> (r: String)
    ensures
        r@ == short_id(domain@, data@),
{
    let mut digest = id_digest(domain, data);
    let ghost whole = digest@;
    if digest.len() > 16 {
        digest.truncate(16);
    }
    assert(digest@ =~= front_half(whole));
    crate::text::join3(domain, "_", hex_lower(digest.as_slice()).as_str())
}

/// The number that bytes denote, the first one being the most significant.
pub open spec fn big_endian(bytes: Seq<u8>) -> nat
    decreases bytes.len(),
{
    if bytes.len() == 0 {
        0
    } else {
        big_endian(bytes.drop_last()) * 256 + bytes.last() as nat
    }
}

/// The last eight bytes of a digest.
pub open spec fn back_eight(digest: Seq<u8>) -> Seq<u8> {
    if digest.len() > 8 {
        digest.skip(digest.len() - 8)
    } else {
        digest
    }
}

/// A number below `modulus` that some data decides.
pub open spec fn drawn_number(domain: Seq<char>, data: Seq<u8>, modulus: u64) -> nat {
    big_endian(back_eight(digest_of(id_message(domain, data)))) % (modulus as nat)
}

spec fn byte_power(n: nat) -> nat
    decreases n,
{
    if n == 0 {
        1
    } else {
        256 * byte_power((n - 1) as nat)
    }
}

proof fn big_endian_bound(bytes: Seq<u8>)
    ensures
        big_endian(bytes) < byte_power(bytes.len()),
    decreases bytes.len(),
{
    if bytes.len() > 0 {
        big_endian_bound(bytes.drop_last());
    }
}

/// Draws a number below `modulus` from some data.
pub fn deterministic_mod(domain: &str, data: &[u8], modulus: u64) -> (r: u64)
    requires
        modulus > 0,
    ensures
        r == drawn_number(domain@, data@, modulus),
        r < modulus,
{
    let digest = id_digest(domain, data);
    let start: usize = if digest.len() > 8 {
        digest.len() - 8
    } else {
        0
    };
    let ghost tail = back_eight(digest@);
    assert(tail =~= digest@.skip(start as int));
    let mut value: u128 = 0;
    let mut i: usize = start;
    assert(tail.take(0) =~= Seq::<u8>::empty());
    while i < digest.len()
        invariant
            start <= i <= digest@.len(),
            digest@.len() - start <= 8,
            tail == digest@.skip(start as int),
            value == big_endian(tail.take(i - start)),
        decreases digest@.len() - i,
    {
        proof {
            big_endian_bound(tail.take(i - start));
            reveal_with_fuel(byte_power, 9);
            assert(tail.take(i - start + 1).drop_last() =~= tail.take(i - start));
            assert(tail.take(i - start + 1).last() == digest@[i as int]);
        }
        value = value * 256 + digest[i] as u128;
        i = i + 1;
    }
    assert(tail.take(tail.len() as int) =~= tail);
    (value % (modulus as u128)) as u64
}

/// The address that belongs to a public key.
pub open spec fn address_of(key: Seq<u8>) -> Seq<char> {
    "mrk1"@ + hex_text(address_part(digest_of(key)))
}

/// The twenty bytes of a digest that an address shows.
pub open spec fn address_part(digest: Seq<u8>) -> Seq<u8> {
    if digest.len() > 20 {
        digest.take(20)
    } else {
        digest
    }
}

/// The address that belongs to a public key.
pub fn address_from_public_key(key: &[u8]) -> (r: String)
    ensures
        r@ == address_of(key@),
{
    let mut digest = digest_bytes(key);
    let ghost whole = digest@;
    if digest.len() > 20 {
        digest.truncate(20);
    }
    assert(digest@ =~= address_part(whole));
    crate::text::join2("mrk1", hex_lower(digest.as_slice()).as_str())
}

/// Whether a text has the form of an address: the prefix and forty hexadecimal digits.
pub open spec fn is_address(text: Seq<char>) -> bool {
    let bytes = encode_utf8(text);
    &&& has_prefix(bytes, encode_utf8("mrk1"@))
    &&& bytes.len() == 44
    &&& forall|i: int| 4 <= i < bytes.len() ==> is_lower_hex(#[trigger] bytes[i])
}

pub open spec fn address_checked(text: Seq<char>) -> Outcome<()> {
    if is_address(text) {
        Ok(())
    } else {
        Err("invalid MRK address"@)
    }
}

/// Refuses a text that does not have the form of an address.
pub fn validate_address(address: &str) -> (r: Result<()>)
    ensures
        outcome(r) == address_checked(address@),
{
    let bytes = address.as_bytes();
    if !text_has_prefix(address, "mrk1") || bytes.len() != 44 {
        return Err(Error::msg("invalid MRK address"));
    }
    let mut i: usize = 4;
    while i < bytes.len()
        invariant
            4 <= i <= bytes@.len(),
            bytes@ == encode_utf8(address@),
            forall|j: int| 4 <= j < i ==> is_lower_hex(#[trigger] bytes@[j]),
        decreases bytes@.len() - i,
    {
        let byte: u8 = bytes[i];
        if !((48 <= byte && byte <= 57) || (97 <= byte && byte <= 102)) {
            assert(!is_lower_hex(bytes@[i as int]));
            return Err(Error::msg("invalid MRK address"));
        }
        i = i + 1;
    }
    Ok(())
}

/// What checking a signature gives. Keys and signatures are written in base64.
pub open spec fn signature_checked(
    public_key: Seq<char>,
    message: Seq<u8>,
    signature: Seq<char>,
) -> Outcome<()> {
    match base64_decoded(public_key) {
        None => Err("public key is not valid base64"@),
        Some(key) => match base64_decoded(signature) {
            None => Err("signature is not valid base64"@),
            Some(signed) => if ed25519_valid(key, message, signed) {
                Ok(())
            } else {
                Err("signature verification failed"@)
            },
        },
    }
}

/// Checks the signature of a message.
pub fn verify_bytes(public_key: &str, message: &[u8], signature: &str) -> (r: Result<()>)
    ensures
        outcome(r) == signature_checked(public_key@, message@, signature@),
{
    match decode_standard(public_key) {
        None => Err(Error::msg("public key is not valid base64")),
        Some(key) => match decode_standard(signature) {
            None => Err(Error::msg("signature is not valid base64")),
            Some(signed) => if ed25519_verify(key.as_slice(), message, signed.as_slice()) {
                Ok(())
            } else {
                Err(Error::msg("signature verification failed"))
            },
        },
    }
}

} // verus!
