//! A key pair and the Base58Check address of its public key.

use crate::error::BlockchainError;
use crate::storage::encrypted::cipher::SecureMemory;
use crate::utils::crypto::{
    base58_decode, base58_encode, new_key_pair, public_key_of_pkcs8, ripemd160_digest,
    sha256_digest, spec_base58_decode, spec_base58_encode, spec_public_key, spec_ripemd160,
    spec_sha256,
};
use crate::error::owned;
use vstd::prelude::*;

verus! {

/// The version byte that starts every address payload.
pub const VERSION: u8 = 0x00;

/// Length of the checksum that ends an address payload.
pub const ADDRESS_CHECK_SUM_LEN: usize = 4;

/// The hash that locks an output to a public key: RIPEMD-160 of SHA-256.
pub open spec fn spec_hash_pub_key(pub_key: Seq<u8>) -> Seq<u8> {
    spec_ripemd160(spec_sha256(pub_key))
}

/// The first four bytes of SHA-256 applied twice.
pub open spec fn spec_checksum(payload: Seq<u8>) -> Seq<u8> {
    spec_sha256(spec_sha256(payload)).take(4)
}

/// Version byte, key hash and checksum, in this order.
pub open spec fn spec_address_payload(pub_key_hash: Seq<u8>) -> Seq<u8> {
    (seq![VERSION] + pub_key_hash) + spec_checksum(seq![VERSION] + pub_key_hash)
}

/// The address of a key hash.
pub open spec fn spec_address(pub_key_hash: Seq<u8>) -> Seq<char> {
    spec_base58_encode(spec_address_payload(pub_key_hash))
}

/// Whether a decoded payload is long enough and ends in the checksum of what
/// stands before it.
pub open spec fn spec_payload_valid(payload: Seq<u8>) -> bool {
    payload.len() >= ADDRESS_CHECK_SUM_LEN + 1 && payload.skip(payload.len() - 4) == spec_checksum(
        payload.take(payload.len() - 4),
    )
}

/// Whether `address` is Base58 text of a valid payload.
pub open spec fn spec_validate_address(address: Seq<char>) -> bool {
    match spec_base58_decode(address) {
        Some(payload) => spec_payload_valid(payload),
        None => false,
    }
}

/// The key hash inside a valid address.
pub open spec fn spec_address_key_hash(address: Seq<char>) -> Option<Seq<u8>> {
    match spec_base58_decode(address) {
        Some(payload) => if spec_payload_valid(payload) {
            Some(payload.subrange(1, payload.len() - 4))
        } else {
            None
        },
        None => None,
    }
}

/// A key pair: the PKCS#8 document and the public key read from it.
pub struct Wallet {
    pkcs8: Vec<u8>,
    public_key: Vec<u8>,
}

impl Wallet {
    /// The PKCS#8 document, as a sequence.
    pub closed spec fn spec_pkcs8(&self) -> Seq<u8> {
        self.pkcs8@
    }

    /// The public key, as a sequence.
    pub closed spec fn spec_key(&self) -> Seq<u8> {
        self.public_key@
    }

    /// A wallet is well formed when its public key is the one of its
    /// document, a point of the curve in 65 bytes.
    pub open spec fn wf(&self) -> bool {
        spec_public_key(self.spec_pkcs8()) == Some(self.spec_key()) && self.spec_key().len() == 65
    }

    /// A wallet with a fresh key pair, or `Crypto` where none could be made
    /// or read back.
    pub fn new() -> (out: Result<Wallet, BlockchainError>)
        ensures
            out is Ok ==> out->Ok_0.wf(),
            out is Err ==> out->Err_0 is Crypto,
    {
        let pkcs8 = match new_key_pair() {
            Ok(pkcs8) => pkcs8,
            Err(e) => { return Err(e); },
        };
        Wallet::from_pkcs8(pkcs8)
    }

    /// The wallet of a PKCS#8 document. A wallet that comes back holds the
    /// document and the public key of its key pair. `Crypto` where the
    /// document holds no ECDSA P-256 key pair, and where the key pair could
    /// not be read.
    pub fn from_pkcs8(pkcs8: Vec<u8>) -> (out: Result<Wallet, BlockchainError>)
        ensures
            out is Ok ==> out->Ok_0.wf() && out->Ok_0.spec_pkcs8() == pkcs8@,
            spec_public_key(pkcs8@) is None ==> out is Err,
            out is Err ==> out->Err_0 is Crypto,
    {
        let read = public_key_of_pkcs8(pkcs8.as_slice());
        Wallet::of_key(pkcs8, read)
    }

    /// The wallet of a PKCS#8 document and what was read from it: the
    /// wallet of the document and the key where a key was read, else
    /// `Crypto`.
    pub fn of_key(pkcs8: Vec<u8>, read: Option<Vec<u8>>) -> (out: Result<Wallet, BlockchainError>)
        ensures
            match read {
                Some(key) => out is Ok && out->Ok_0.spec_pkcs8() == pkcs8@ && out->Ok_0.spec_key()
                    == key@,
                None => out is Err && out->Err_0 is Crypto,
            },
    {
        match read {
            Some(public_key) => Ok(Wallet { pkcs8, public_key }),
            None => Err(
                BlockchainError::Crypto(owned("Failed to create key pair from PKCS8")),
            ),
        }
    }

    /// A wallet of a key document and a public key as they are: nothing says
    /// that the one holds the other.
    pub fn from_parts(pkcs8: Vec<u8>, public_key: Vec<u8>) -> (out: Wallet)
        ensures
            out.spec_pkcs8() == pkcs8@,
            out.spec_key() == public_key@,
    {
        Wallet { pkcs8, public_key }
    }

    /// The address of the wallet's public key.
    pub fn get_address(&self) -> (address: String)
        ensures
            address@ == spec_address(spec_hash_pub_key(self.spec_key())),
            spec_validate_address(address@),
            spec_address_key_hash(address@) == Some(spec_hash_pub_key(self.spec_key())),
    {
        let pub_key_hash = hash_pub_key(self.public_key.as_slice());
        convert_address(pub_key_hash.as_slice())
    }

    /// The public key.
    pub fn get_public_key(&self) -> (key: &[u8])
        ensures
            key@ == self.spec_key(),
    {
        self.public_key.as_slice()
    }

    /// The PKCS#8 document.
    pub fn get_pkcs8(&self) -> (document: &[u8])
        ensures
            document@ == self.spec_pkcs8(),
    {
        self.pkcs8.as_slice()
    }

    /// A copy of the wallet.
    pub fn copy(&self) -> (out: Wallet)
        ensures
            out.spec_pkcs8() == self.spec_pkcs8(),
            out.spec_key() == self.spec_key(),
    {
        Wallet { pkcs8: self.pkcs8.clone(), public_key: self.public_key.clone() }
    }
}

/// RIPEMD-160 of SHA-256 of a public key.
pub fn hash_pub_key(pub_key: &[u8]) -> (out: Vec<u8>)
    ensures
        out@ == spec_hash_pub_key(pub_key@),
        out@.len() == 20,
{
    let pub_key_sha256 = sha256_digest(pub_key);
    ripemd160_digest(pub_key_sha256.as_slice())
}

/// The four checksum bytes of a payload.
fn checksum(payload: &[u8]) -> (out: Vec<u8>)
    ensures
        out@ == spec_checksum(payload@),
        out@.len() == 4,
{
    let first_sha = sha256_digest(payload);
    let second_sha = sha256_digest(first_sha.as_slice());
    let out = vstd::slice::slice_to_vec(
        vstd::slice::slice_subrange(second_sha.as_slice(), 0, ADDRESS_CHECK_SUM_LEN),
    );
    assert(out@ =~= spec_checksum(payload@));
    out
}

/// Whether `address` is Base58 text whose payload is at least five bytes long
/// and ends in the checksum of what stands before it.
pub fn validate_address(address: &str) -> (ok: bool)
    ensures
        ok == spec_validate_address(address@),
{
    let payload = match base58_decode(address) {
        Ok(payload) => payload,
        Err(_) => { return false; },
    };
    if payload.len() < ADDRESS_CHECK_SUM_LEN + 1 {
        return false;
    }
    let split = payload.len() - ADDRESS_CHECK_SUM_LEN;
    let actual_checksum = vstd::slice::slice_subrange(payload.as_slice(), split, payload.len());
    let body = vstd::slice::slice_subrange(payload.as_slice(), 0, split);
    let target_checksum = checksum(body);
    assert(actual_checksum@ =~= payload@.skip(payload@.len() - 4));
    assert(body@ =~= payload@.take(payload@.len() - 4));
    SecureMemory::constant_time_eq(actual_checksum, target_checksum.as_slice())
}

/// The key hash inside `address`, where the address is valid.
pub fn address_key_hash(address: &str) -> (out: Option<Vec<u8>>)
    ensures
        match spec_address_key_hash(address@) {
            Some(hash) => out is Some && out->Some_0@ == hash,
            None => out is None,
        },
{
    if !validate_address(address) {
        return None;
    }
    let payload = match base58_decode(address) {
        Ok(payload) => payload,
        Err(_) => { return None; },
    };
    let end = payload.len() - ADDRESS_CHECK_SUM_LEN;
    let hash = vstd::slice::slice_to_vec(vstd::slice::slice_subrange(payload.as_slice(), 1, end));
    assert(hash@ =~= payload@.subrange(1, payload@.len() - 4));
    Some(hash)
}

/// The address of a key hash: Base58 of version byte, hash and checksum.
/// The address decodes to these bytes, so it is valid, and the hash read
/// back from it is `pub_hash_key`.
pub fn convert_address(pub_hash_key: &[u8]) -> (address: String)
    ensures
        address@ == spec_address(pub_hash_key@),
        spec_base58_decode(address@) == Some(spec_address_payload(pub_hash_key@)),
        spec_address_payload(pub_hash_key@) == seq![VERSION] + pub_hash_key@ + spec_checksum(
            seq![VERSION] + pub_hash_key@,
        ),
        spec_validate_address(address@),
        spec_address_key_hash(address@) == Some(pub_hash_key@),
{
    let mut payload: Vec<u8> = Vec::new();
    payload.push(VERSION);
    payload.extend_from_slice(pub_hash_key);
    let ghost body = payload@;
    let check = checksum(payload.as_slice());
    payload.extend_from_slice(check.as_slice());
    proof {
        assert(body =~= seq![VERSION] + pub_hash_key@);
        assert(payload@ =~= spec_address_payload(pub_hash_key@));
        assert(payload@.take(payload@.len() - 4) =~= body);
        assert(payload@.skip(payload@.len() - 4) =~= check@);
        assert(payload@.subrange(1, payload@.len() - 4) =~= pub_hash_key@);
    }
    base58_encode(payload.as_slice())
}

} // verus!
