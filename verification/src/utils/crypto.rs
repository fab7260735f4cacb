//! Digests, signatures, text encodings and the clock, each made by the crate
//! that owns it. The contracts in this file are taken on trust from those crates.

use crate::error::{owned, BlockchainError};
use vstd::prelude::*;

verus! {

/// The digest that SHA-256 gives for a message.
pub uninterp spec fn spec_sha256(data: Seq<u8>) -> Seq<u8>;

/// The digest that RIPEMD-160 gives for a message.
pub uninterp spec fn spec_ripemd160(data: Seq<u8>) -> Seq<u8>;

/// The Base58 text (Bitcoin alphabet) of a byte string.
pub uninterp spec fn spec_base58_encode(data: Seq<u8>) -> Seq<char>;

/// The bytes that a Base58 text stands for, if it is Base58 at all.
pub uninterp spec fn spec_base58_decode(text: Seq<char>) -> Option<Seq<u8>>;

/// Whether `signature` is an ECDSA P-256 / SHA-256 signature (fixed-length
/// form) of `message` under `public_key`.
pub uninterp spec fn spec_ecdsa_verify(
    public_key: Seq<u8>,
    signature: Seq<u8>,
    message: Seq<u8>,
) -> bool;

/// The public key of the key pair that a PKCS#8 document holds, if the
/// document is one for ECDSA P-256: what the document says, whether or not a
/// reader gets to read it.
pub uninterp spec fn spec_public_key(pkcs8: Seq<u8>) -> Option<Seq<u8>>;

/// The sixteen lower-case hexadecimal digits.
pub open spec fn hex_digits() -> Seq<char> {
    seq!['0', '1', '2', '3', '4', '5', '6', '7', '8', '9', 'a', 'b', 'c', 'd', 'e', 'f']
}

/// Lower-case hexadecimal text of `data`: two digits per byte, high nibble first.
pub open spec fn spec_hex_encode(data: Seq<u8>) -> Seq<char> {
    Seq::new(
        2 * data.len(),
        |i: int|
            if i % 2 == 0 {
                hex_digits()[data[i / 2] as int / 16]
            } else {
                hex_digits()[data[i / 2] as int % 16]
            },
    )
}

/// Calls `ring::digest::digest` with `ring::digest::SHA256`: the result is the
/// SHA-256 digest of `data`, which is 32 bytes long.
#[verifier::external_body]
pub fn sha256_digest(data: &[u8]) -> (out: Vec<u8>)
    ensures
        out@ == spec_sha256(data@),
        out@.len() == 32,
{
    ring::digest::digest(&ring::digest::SHA256, data).as_ref().to_vec()
}

/// Feeds `data` to `ripemd::Ripemd160` and finalizes: the result is the
/// RIPEMD-160 digest of `data`, which is 20 bytes long.
#[verifier::external_body]
pub fn ripemd160_digest(data: &[u8]) -> (out: Vec<u8>)
    ensures
        out@ == spec_ripemd160(data@),
        out@.len() == 20,
{
    let mut hasher = <ripemd::Ripemd160 as ripemd::Digest>::new();
    ripemd::Digest::update(&mut hasher, data);
    ripemd::Digest::finalize(hasher).to_vec()
}

/// Calls `bs58::encode(..).into_string()`. Base58 with leading-zero marks is
/// one-to-one, so decoding the text gives `data` back.
#[verifier::external_body]
pub fn base58_encode(data: &[u8]) -> (text: String)
    ensures
        text@ == spec_base58_encode(data@),
        spec_base58_decode(text@) == Some(data@),
{
    bs58::encode(data).into_string()
}

/// Calls `bs58::decode(..).into_vec()` and drops the detail of its error.
#[verifier::external_body]
fn base58_decode_raw(text: &str) -> (out: Option<Vec<u8>>)
    ensures
        match spec_base58_decode(text@) {
            Some(bytes) => out is Some && out->Some_0@ == bytes,
            None => out is None,
        },
{
    bs58::decode(text).into_vec().ok()
}

/// The bytes of a Base58 text, or `InvalidAddress` where the text is not Base58.
pub fn base58_decode(data: &str) -> (out: Result<Vec<u8>, BlockchainError>)
    ensures
        match spec_base58_decode(data@) {
            Some(bytes) => out is Ok && out->Ok_0@ == bytes,
            None => out is Err && out->Err_0 is InvalidAddress,
        },
{
    match base58_decode_raw(data) {
        Some(bytes) => Ok(bytes),
        None => Err(BlockchainError::InvalidAddress(owned("Invalid base58 encoding"))),
    }
}

/// Calls `data_encoding::HEXLOWER.encode`: two lower-case digits per byte.
#[verifier::external_body]
pub(crate) fn hex_encode(data: &[u8]) -> (text: String)
    ensures
        text@ == spec_hex_encode(data@),
{
    data_encoding::HEXLOWER.encode(data)
}

/// Makes a new ECDSA P-256 key pair with `ring`'s
/// `EcdsaKeyPair::generate_pkcs8` and the system's random numbers. Which key
/// pair comes back is chance; a document that comes back is the key pair in
/// PKCS#8 form, its public key included.
#[verifier::external_body]
fn generate_pkcs8() -> (out: Option<Vec<u8>>)
    ensures
        out is Some ==> spec_public_key(out->Some_0@) is Some,
{
    let rng = ring::rand::SystemRandom::new();
    ring::signature::EcdsaKeyPair::generate_pkcs8(
        &ring::signature::ECDSA_P256_SHA256_FIXED_SIGNING,
        &rng,
    ).ok().map(|document| document.as_ref().to_vec())
}

/// A new key pair as a PKCS#8 document, or `Crypto` where none could be made.
/// A document that comes back holds a key pair.
pub fn new_key_pair() -> (out: Result<Vec<u8>, BlockchainError>)
    ensures
        out is Ok ==> spec_public_key(out->Ok_0@) is Some,
        out is Err ==> out->Err_0 is Crypto,
{
    key_pair_of(generate_pkcs8())
}

/// What the making of a key pair gives for what the generator gave: the
/// document where one came back, else `Crypto`.
pub fn key_pair_of(made: Option<Vec<u8>>) -> (out: Result<Vec<u8>, BlockchainError>)
    ensures
        match made {
            Some(pkcs8) => out == Ok::<Vec<u8>, BlockchainError>(pkcs8),
            None => out is Err && out->Err_0 is Crypto,
        },
{
    match made {
        Some(pkcs8) => Ok(pkcs8),
        None => Err(BlockchainError::Crypto(owned("Failed to generate ECDSA key pair"))),
    }
}

/// Reads the key pair with `ring`'s `EcdsaKeyPair::from_pkcs8` and returns its
/// public key. A key that comes back is the public key that the document
/// holds, a point of the curve P-256 in uncompressed form, which is 65 bytes
/// long; none comes back where the document holds no key pair. Reading
/// draws from the system's random numbers, so that a document which holds a
/// key pair may give nothing all the same.
#[verifier::external_body]
pub(crate) fn public_key_of_pkcs8(pkcs8: &[u8]) -> (out: Option<Vec<u8>>)
    ensures
        out is Some ==> spec_public_key(pkcs8@) == Some(out->Some_0@),
        out is Some ==> out->Some_0@.len() == 65,
        spec_public_key(pkcs8@) is None ==> out is None,
{
    let rng = ring::rand::SystemRandom::new();
    ring::signature::EcdsaKeyPair::from_pkcs8(
        &ring::signature::ECDSA_P256_SHA256_FIXED_SIGNING,
        pkcs8,
        &rng,
    ).ok().map(|pair| ring::signature::KeyPair::public_key(&pair).as_ref().to_vec())
}

/// Signs `message` with `ring`'s `EcdsaKeyPair::sign`. The signature depends
/// on fresh random numbers. Whichever comes back, it is 64 bytes long (the
/// fixed-length form), the document held a key pair, and the signature is
/// one of `message` under that pair's public key.
#[verifier::external_body]
fn ecdsa_sign_raw(pkcs8: &[u8], message: &[u8]) -> (out: Option<Vec<u8>>)
    ensures
        out is Some ==> out->Some_0@.len() == 64,
        out is Some ==> spec_signs(pkcs8@, out->Some_0@, message@),
{
    let rng = ring::rand::SystemRandom::new();
    let pair = ring::signature::EcdsaKeyPair::from_pkcs8(
        &ring::signature::ECDSA_P256_SHA256_FIXED_SIGNING,
        pkcs8,
        &rng,
    ).ok()?;
    pair.sign(&rng, message).ok().map(|signature| signature.as_ref().to_vec())
}

/// Whether `signature` is one of `message` under the public key of the key
/// pair that the document `pkcs8` holds.
pub open spec fn spec_signs(pkcs8: Seq<u8>, signature: Seq<u8>, message: Seq<u8>) -> bool {
    match spec_public_key(pkcs8) {
        Some(key) => spec_ecdsa_verify(key, signature, message),
        None => false,
    }
}

/// A signature of `message` under the key of `pkcs8`, or `Crypto` where the
/// document cannot be read or signing fails. A signature that comes back
/// verifies under the public key of the document.
pub fn ecdsa_p256_sha256_sign_digest(pkcs8: &[u8], message: &[u8]) -> (out: Result<
    Vec<u8>,
    BlockchainError,
>)
    ensures
        out is Ok ==> out->Ok_0@.len() == 64,
        out is Ok ==> spec_signs(pkcs8@, out->Ok_0@, message@),
        spec_public_key(pkcs8@) is None ==> out is Err,
        out is Err ==> out->Err_0 is Crypto,
{
    match ecdsa_sign_raw(pkcs8, message) {
        Some(signature) => Ok(signature),
        None => Err(BlockchainError::Crypto(owned("Failed to sign message"))),
    }
}

/// Checks the signature with `ring`'s `UnparsedPublicKey::verify` for
/// `ECDSA_P256_SHA256_FIXED`.
#[verifier::external_body]
pub fn ecdsa_p256_sha256_sign_verify(public_key: &[u8], signature: &[u8], message: &[u8]) -> (ok:
    bool)
    ensures
        ok == spec_ecdsa_verify(public_key@, signature@, message@),
{
    ring::signature::UnparsedPublicKey::new(
        &ring::signature::ECDSA_P256_SHA256_FIXED,
        public_key,
    ).verify(message, signature).is_ok()
}

/// Milliseconds since the Unix epoch by `std::time::SystemTime::now`, or
/// `None` where the clock stands before the epoch.
#[verifier::external_body]
fn unix_millis() -> (out: Option<u128>) {
    std::time::SystemTime::now().duration_since(std::time::UNIX_EPOCH).ok().map(
        |since| since.as_millis(),
    )
}

/// What `current_timestamp` makes of a clock reading.
pub open spec fn spec_timestamp_of(reading: Option<u128>) -> Option<i64> {
    match reading {
        Some(millis) if millis <= i64::MAX as u128 => Some(millis as i64),
        _ => None,
    }
}

/// Turns a clock reading into a timestamp: the milliseconds where they fit in
/// an `i64`, else `Crypto`.
pub fn timestamp_of(reading: Option<u128>) -> (out: Result<i64, BlockchainError>)
    ensures
        match spec_timestamp_of(reading) {
            Some(t) => out == Ok::<i64, BlockchainError>(t),
            None => out is Err && out->Err_0 is Crypto,
        },
{
    match reading {
        None => Err(BlockchainError::Crypto(owned("System time error"))),
        Some(millis) => {
            if millis > 9_223_372_036_854_775_807u128 {
                Err(BlockchainError::Crypto(owned("Timestamp overflow")))
            } else {
                Ok(millis as i64)
            }
        },
    }
}

/// The time now in milliseconds since the Unix epoch. Every timestamp that
/// comes back is non-negative.
pub fn current_timestamp() -> (out: Result<i64, BlockchainError>)
    ensures
        out is Ok ==> out->Ok_0 >= 0,
        out is Err ==> out->Err_0 is Crypto,
{
    timestamp_of(unix_millis())
}

} // verus!
