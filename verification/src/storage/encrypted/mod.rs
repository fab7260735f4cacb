//! Protection of wallet keys.

pub mod cipher;
pub mod wallet_encryption;

pub use cipher::{Aes256GcmCipher, EncryptionResult, SecureKey, SecureMemory};
pub use wallet_encryption::{EncryptedWallets, WalletEncryptionConfig};

use crate::error::BlockchainError;
use vstd::prelude::*;

verus! {

/// Whether wallets are encrypted, and how.
#[derive(Debug, Clone, Copy)]
pub struct WalletEncryptionSettings {
    /// Whether wallet encryption is on.
    pub enabled: bool,
    /// The least length of a password.
    pub min_password_length: usize,
    /// Whether encrypted backups are made.
    pub backup_enabled: bool,
}

impl Default for WalletEncryptionSettings {
    fn default() -> (out: Self)
        ensures
            !out.enabled,
            out.min_password_length == 8,
            out.backup_enabled,
    {
        Self { enabled: false, min_password_length: 8, backup_enabled: true }
    }
}

/// Fills a new vector of `length` bytes with `rand::RngCore::fill_bytes` on
/// `rand::thread_rng()`. The bytes are random. Where the system gives no
/// random numbers the call panics; no argument brings that about.
#[verifier::external_body]
fn random_bytes(length: usize) -> (out: Vec<u8>)
    ensures
        out@.len() == length,
{
    let mut bytes = vec![0u8; length];
    rand::RngCore::fill_bytes(&mut rand::thread_rng(), &mut bytes);
    bytes
}

/// `length` random bytes; it never fails.
pub fn generate_random_bytes(length: usize) -> (out: Result<Vec<u8>, BlockchainError>)
    ensures
        out is Ok,
        out->Ok_0@.len() == length,
{
    Ok(random_bytes(length))
}

/// Sets every byte of `data` to zero.
pub fn secure_clear(data: &mut [u8])
    ensures
        final(data)@.len() == old(data)@.len(),
        forall|i: int| 0 <= i < final(data)@.len() ==> final(data)@[i] == 0u8,
{
    SecureMemory::clear(data);
}

} // verus!
