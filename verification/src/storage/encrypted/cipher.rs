//! Key material and the operations on secrets in memory.

use crate::error::{owned, BlockchainError};
use crate::storage::encrypted::generate_random_bytes;
use vstd::prelude::*;

verus! {

/// What an encryption gives: the ciphertext and the nonce that was used.
#[derive(Debug)]
pub struct EncryptionResult {
    /// The ciphertext with its tag.
    pub ciphertext: Vec<u8>,
    /// The nonce.
    pub nonce: Vec<u8>,
}

/// The ciphertext, tag included, that AES-256-GCM gives for a key of 32
/// bytes, a nonce of 12 bytes and a plaintext; `None` where it gives none.
pub uninterp spec fn spec_aes_gcm_encrypt(key: Seq<u8>, nonce: Seq<u8>, plaintext: Seq<u8>)
    -> Option<Seq<u8>>;

/// The plaintext that AES-256-GCM gives back for a key, a nonce and a
/// ciphertext; `None` where the tag does not fit.
pub uninterp spec fn spec_aes_gcm_decrypt(key: Seq<u8>, nonce: Seq<u8>, ciphertext: Seq<u8>)
    -> Option<Seq<u8>>;

/// Encrypts with `aes_gcm::Aes256Gcm` (`Aead::encrypt`). What it returns is
/// decrypted to the plaintext under the same key and nonce.
#[verifier::external_body]
fn aes_gcm_encrypt(key: &[u8], nonce: &[u8], plaintext: &[u8]) -> (out: Option<Vec<u8>>)
    requires
        key@.len() == 32,
        nonce@.len() == 12,
    ensures
        match spec_aes_gcm_encrypt(key@, nonce@, plaintext@) {
            Some(ciphertext) => out is Some && out->Some_0@ == ciphertext && spec_aes_gcm_decrypt(
                key@,
                nonce@,
                ciphertext,
            ) == Some(plaintext@),
            None => out is None,
        },
{
    let cipher = <aes_gcm::Aes256Gcm as aes_gcm::KeyInit>::new(
        aes_gcm::Key::<aes_gcm::Aes256Gcm>::from_slice(key),
    );
    aes_gcm::aead::Aead::encrypt(&cipher, aes_gcm::Nonce::from_slice(nonce), plaintext).ok()
}

/// Decrypts with `aes_gcm::Aes256Gcm` (`Aead::decrypt`).
#[verifier::external_body]
fn aes_gcm_decrypt(key: &[u8], nonce: &[u8], ciphertext: &[u8]) -> (out: Option<Vec<u8>>)
    requires
        key@.len() == 32,
        nonce@.len() == 12,
    ensures
        match spec_aes_gcm_decrypt(key@, nonce@, ciphertext@) {
            Some(plaintext) => out is Some && out->Some_0@ == plaintext,
            None => out is None,
        },
{
    let cipher = <aes_gcm::Aes256Gcm as aes_gcm::KeyInit>::new(
        aes_gcm::Key::<aes_gcm::Aes256Gcm>::from_slice(key),
    );
    aes_gcm::aead::Aead::decrypt(&cipher, aes_gcm::Nonce::from_slice(nonce), ciphertext).ok()
}

/// A secret key held as bytes.
pub struct SecureKey {
    key: Vec<u8>,
}

impl View for SecureKey {
    type V = Seq<u8>;

    closed spec fn view(&self) -> Seq<u8> {
        self.key@
    }
}

impl SecureKey {
    /// Wraps the bytes of a key.
    pub fn new(key: Vec<u8>) -> (out: Self)
        ensures
            out@ == key@,
    {
        SecureKey { key }
    }

    /// The bytes of the key.
    pub fn as_bytes(&self) -> (out: &[u8])
        ensures
            out@ == self@,
    {
        self.key.as_slice()
    }

    /// How many bytes the key has.
    pub fn len(&self) -> (n: usize)
        ensures
            n == self@.len(),
    {
        self.key.len()
    }

    /// Whether the key has no bytes.
    pub fn is_empty(&self) -> (empty: bool)
        ensures
            empty == (self@.len() == 0),
    {
        self.key.len() == 0
    }
}

impl Clone for SecureKey {
    fn clone(&self) -> (out: Self)
        ensures
            out@ == self@,
    {
        SecureKey { key: self.key.clone() }
    }
}

/// AES-256-GCM under one key of 32 bytes.
pub struct Aes256GcmCipher {
    key: SecureKey,
}

impl Aes256GcmCipher {
    /// The key.
    pub closed spec fn spec_key(&self) -> Seq<u8> {
        self.key@
    }

    #[verifier::type_invariant]
    closed spec fn wf(&self) -> bool {
        self.key@.len() == 32
    }

    /// A cipher under `key`; `Encryption` where the key is not 32 bytes
    /// long.
    pub fn new(key: SecureKey) -> (out: Result<Self, BlockchainError>)
        ensures
            out is Ok <==> key@.len() == 32,
            out is Ok ==> out->Ok_0.spec_key() == key@,
            out is Err ==> out->Err_0 is Encryption,
    {
        if key.len() != 32 {
            return Err(BlockchainError::Encryption(owned("AES-256-GCM requires a 32-byte key")));
        }
        Ok(Self { key })
    }

    /// A cipher under the key of the given bytes.
    pub fn from_key_bytes(key_bytes: &[u8]) -> (out: Result<Self, BlockchainError>)
        ensures
            out is Ok <==> key_bytes@.len() == 32,
            out is Ok ==> out->Ok_0.spec_key() == key_bytes@,
            out is Err ==> out->Err_0 is Encryption,
    {
        let key = SecureKey::new(vstd::slice::slice_to_vec(key_bytes));
        Self::new(key)
    }

    /// Encrypts under a fresh random nonce of 12 bytes. What comes back is
    /// decrypted to the plaintext under its nonce.
    pub fn encrypt(&self, plaintext: &[u8]) -> (out: Result<EncryptionResult, BlockchainError>)
        ensures
            out is Ok ==> out->Ok_0.nonce@.len() == 12 && spec_aes_gcm_encrypt(
                self.spec_key(),
                out->Ok_0.nonce@,
                plaintext@,
            ) == Some(out->Ok_0.ciphertext@) && spec_aes_gcm_decrypt(
                self.spec_key(),
                out->Ok_0.nonce@,
                out->Ok_0.ciphertext@,
            ) == Some(plaintext@),
            out is Err ==> out->Err_0 is Encryption,
    {
        let nonce = match generate_random_bytes(12) {
            Ok(nonce) => nonce,
            Err(e) => {
                return Err(BlockchainError::Encryption(owned("No nonce")));
            },
        };
        match self.encrypt_with_nonce(plaintext, nonce.as_slice()) {
            Ok(ciphertext) => Ok(EncryptionResult { ciphertext, nonce }),
            Err(e) => Err(e),
        }
    }

    /// Encrypts under the given nonce: `Encryption` where the nonce is not
    /// 12 bytes long or the cipher gives no ciphertext.
    pub fn encrypt_with_nonce(&self, plaintext: &[u8], nonce_bytes: &[u8]) -> (out: Result<
        Vec<u8>,
        BlockchainError,
    >)
        ensures
            out is Ok <==> nonce_bytes@.len() == 12 && spec_aes_gcm_encrypt(
                self.spec_key(),
                nonce_bytes@,
                plaintext@,
            ) is Some,
            out is Ok ==> spec_aes_gcm_encrypt(self.spec_key(), nonce_bytes@, plaintext@) == Some(
                out->Ok_0@,
            ) && spec_aes_gcm_decrypt(self.spec_key(), nonce_bytes@, out->Ok_0@) == Some(
                plaintext@,
            ),
            out is Err ==> out->Err_0 is Encryption,
    {
        proof {
            use_type_invariant(self);
        }
        if nonce_bytes.len() != 12 {
            return Err(BlockchainError::Encryption(owned("AES-256-GCM requires a 12-byte nonce")));
        }
        match aes_gcm_encrypt(self.key.as_bytes(), nonce_bytes, plaintext) {
            Some(ciphertext) => Ok(ciphertext),
            None => Err(BlockchainError::Encryption(owned("AES-256-GCM encryption failed"))),
        }
    }

    /// Decrypts under the given nonce: `Encryption` where the nonce is not
    /// 12 bytes long or the tag does not fit.
    pub fn decrypt(&self, ciphertext: &[u8], nonce_bytes: &[u8]) -> (out: Result<
        Vec<u8>,
        BlockchainError,
    >)
        ensures
            out is Ok <==> nonce_bytes@.len() == 12 && spec_aes_gcm_decrypt(
                self.spec_key(),
                nonce_bytes@,
                ciphertext@,
            ) is Some,
            out is Ok ==> spec_aes_gcm_decrypt(self.spec_key(), nonce_bytes@, ciphertext@) == Some(
                out->Ok_0@,
            ),
            out is Err ==> out->Err_0 is Encryption,
    {
        proof {
            use_type_invariant(self);
        }
        if nonce_bytes.len() != 12 {
            return Err(BlockchainError::Encryption(owned("AES-256-GCM requires a 12-byte nonce")));
        }
        match aes_gcm_decrypt(self.key.as_bytes(), nonce_bytes, ciphertext) {
            Some(plaintext) => Ok(plaintext),
            None => Err(BlockchainError::Encryption(owned("AES-256-GCM decryption failed"))),
        }
    }

    /// `Ok` exactly for a key of 32 bytes, else `Encryption`.
    pub fn validate_key(key: &[u8]) -> (out: Result<(), BlockchainError>)
        ensures
            out is Ok <==> key@.len() == 32,
            out is Err ==> out->Err_0 is Encryption,
    {
        if key.len() != 32 {
            return Err(BlockchainError::Encryption(owned("AES-256-GCM requires a 32-byte key")));
        }
        Ok(())
    }

    /// The length of a key: 32 bytes.
    pub fn key_length() -> (out: usize)
        ensures
            out == 32,
    {
        32
    }

    /// The length of a nonce: 12 bytes.
    pub fn nonce_length() -> (out: usize)
        ensures
            out == 12,
    {
        12
    }

    /// The length of the tag: 16 bytes.
    pub fn tag_length() -> (out: usize)
        ensures
            out == 16,
    {
        16
    }

    /// The name of the algorithm.
    pub fn algorithm_name() -> (out: &'static str)
        ensures
            out@ == "AES-256-GCM"@,
    {
        "AES-256-GCM"
    }
}

/// A random key of 32 bytes; it never fails.
pub fn generate_key() -> (out: Result<SecureKey, BlockchainError>)
    ensures
        out is Ok,
        out->Ok_0@.len() == 32,
{
    match generate_random_bytes(32) {
        Ok(bytes) => Ok(SecureKey::new(bytes)),
        Err(e) => Err(e),
    }
}

/// Operations on secrets in memory.
pub struct SecureMemory;

/// Overwrites `data` with `zeroize::Zeroize::zeroize`: every byte becomes
/// zero and the length stays.
#[verifier::external_body]
fn zeroize_bytes(data: &mut [u8])
    ensures
        final(data)@.len() == old(data)@.len(),
        forall|i: int| 0 <= i < final(data)@.len() ==> final(data)@[i] == 0u8,
{
    zeroize::Zeroize::zeroize(data);
}

impl SecureMemory {
    /// Sets every byte of `data` to zero.
    pub fn clear(data: &mut [u8])
        ensures
            final(data)@.len() == old(data)@.len(),
            forall|i: int| 0 <= i < final(data)@.len() ==> final(data)@[i] == 0u8,
    {
        zeroize_bytes(data);
    }

    /// Whether `a` and `b` are the same bytes. Where the lengths agree, every
    /// pair of bytes is looked at, whatever the earlier ones were.
    pub fn constant_time_eq(a: &[u8], b: &[u8]) -> (same: bool)
        ensures
            same == (a@ == b@),
    {
        if a.len() != b.len() {
            return false;
        }
        let mut result: u8 = 0;
        let mut i: usize = 0;
        assert(a@.take(0) =~= b@.take(0));
        while i < a.len()
            invariant
                i <= a@.len(),
                a@.len() == b@.len(),
                (result == 0) == (a@.take(i as int) == b@.take(i as int)),
            decreases a@.len() - i,
        {
            let x: u8 = a[i];
            let y: u8 = b[i];
            let d: u8 = x ^ y;
            assert((d == 0) == (x == y)) by (bit_vector)
                requires
                    d == x ^ y,
            ;
            let merged: u8 = result | d;
            assert((merged == 0) == (result == 0 && d == 0)) by (bit_vector)
                requires
                    merged == result | d,
            ;
            proof {
                let ta = a@.take(i + 1);
                let tb = b@.take(i + 1);
                assert(ta.drop_last() =~= a@.take(i as int));
                assert(tb.drop_last() =~= b@.take(i as int));
                assert(ta.last() == x && tb.last() == y);
                if a@.take(i as int) == b@.take(i as int) && x == y {
                    assert(ta =~= tb);
                }
            }
            result = merged;
            i += 1;
        }
        assert(a@.take(a@.len() as int) =~= a@);
        assert(b@.take(b@.len() as int) =~= b@);
        result == 0
    }
}

} // verus!
