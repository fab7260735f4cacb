//! Wallets that are kept encrypted under a password.

use crate::error::{decimal_text, owned, spec_decimal, BlockchainError};
use crate::storage::encrypted::cipher::{
    spec_aes_gcm_decrypt, spec_aes_gcm_encrypt, Aes256GcmCipher, SecureKey,
};
use crate::utils::serialization::{
    decode_bytes, decode_texts, decode_u64, encode_bytes, encode_texts, encode_u64,
    lemma_bytes_round_trip, lemma_texts_round_trip, lemma_u64_round_trip, spec_encode_bytes,
    spec_encode_list, spec_encode_u64, spec_parse_bytes, spec_parse_list, spec_parse_u64,
    spec_text_encoder, spec_text_parser, text_views, texts_wf,
};
use crate::wallet::stored::HeldWallet;
use crate::wallet::wallet::Wallet;
use crate::wallet::wallets::{spec_stored_wallets, Wallets};
use vstd::prelude::*;
use vstd::string::*;

verus! {

/// How the wallets of a node are kept.
#[derive(Debug)]
pub struct WalletEncryptionConfig {
    /// Whether encryption is on.
    pub enabled: bool,
    /// The file that holds the wallets.
    pub wallet_file: String,
    /// Whether encrypted backups are made.
    pub backup_enabled: bool,
    /// The directory of the backups.
    pub backup_dir: String,
    /// The least length of a password, in bytes.
    pub min_password_length: usize,
}

impl Default for WalletEncryptionConfig {
    fn default() -> (out: Self)
        ensures
            !out.enabled,
            out.wallet_file@ == "wallet.dat"@,
            out.backup_enabled,
            out.backup_dir@ == "wallet_backups"@,
            out.min_password_length == 8,
    {
        Self {
            enabled: false,
            wallet_file: owned("wallet.dat"),
            backup_enabled: true,
            backup_dir: owned("wallet_backups"),
            min_password_length: 8,
        }
    }
}

/// What the file of encrypted wallets holds.
#[derive(Debug)]
pub struct EncryptedWalletData {
    /// The encrypted wallets.
    pub ciphertext: Vec<u8>,
    /// The nonce of the encryption.
    pub nonce: Vec<u8>,
    /// The salt of the key derivation.
    pub salt: Vec<u8>,
    /// The number of wallets.
    pub wallet_count: usize,
    /// The addresses of the wallets.
    pub addresses: Vec<String>,
    /// When the file was made, in seconds since the Unix epoch.
    pub created_at: u64,
    /// When the file was last written.
    pub modified_at: u64,
}

/// The key that Argon2id gives for a password and a salt with the given
/// memory in KiB, passes, lanes and length; `None` where it gives none.
pub uninterp spec fn spec_argon2id(
    password: Seq<u8>,
    salt: Seq<u8>,
    memory_kib: u32,
    passes: u32,
    lanes: u32,
    length: usize,
) -> Option<Seq<u8>>;

/// Derives a key with `argon2::Argon2::hash_password_into` (Argon2id,
/// version 0x13). A key that comes back has the length asked for. The
/// number of lanes is kept within the range that `argon2::Params::new`
/// allows, below 2^24: it multiplies the number by eight before it tests it.
#[verifier::external_body]
fn argon2id(password: &[u8], salt: &[u8], memory_kib: u32, passes: u32, lanes: u32, length: usize)
    -> (out: Option<Vec<u8>>)
    requires
        lanes <= 0x00FF_FFFF,
    ensures
        match spec_argon2id(password@, salt@, memory_kib, passes, lanes, length) {
            Some(key) => out is Some && out->Some_0@ == key && key.len() == length,
            None => out is None,
        },
{
    let params = argon2::Params::new(memory_kib, passes, lanes, Some(length)).ok()?;
    let hasher = argon2::Argon2::new(argon2::Algorithm::Argon2id, argon2::Version::V0x13, params);
    let mut key = vec![0u8; length];
    hasher.hash_password_into(password, salt, &mut key).ok()?;
    Some(key)
}

/// How the wallets of a node are kept and protected: whether encryption is
/// asked for, whether backups are, the least length of a password, the key
/// and the salt it was derived with, and whether the wallets are encrypted
/// and loaded.
pub struct KeyringModel {
    pub enabled: bool,
    pub backup_enabled: bool,
    pub min_password_length: usize,
    pub master_key: Option<Seq<u8>>,
    pub salt: Option<Seq<u8>>,
    pub encrypted: bool,
    pub loaded: bool,
}

/// The wallets of a node, with the key that protects them.
pub struct EncryptedWallets {
    wallets: Wallets,
    config: WalletEncryptionConfig,
    master_key: Option<SecureKey>,
    current_salt: Option<Vec<u8>>,
    is_encrypted: bool,
    is_loaded: bool,
}

/// The key of a password and a salt: Argon2id with 64 MiB, three passes,
/// one lane and 32 bytes.
pub open spec fn spec_password_key(password: Seq<char>, salt: Seq<u8>) -> Option<Seq<u8>> {
    spec_argon2id(vstd::utf8::encode_utf8(password), salt, 65536, 3, 1, 32)
}

/// What the start of encryption under a password and a salt leaves:
/// `Encryption` where the password is too short or no key comes back, and
/// then nothing changes; else the key and the salt are kept, and the wallets
/// count as encrypted and loaded.
pub open spec fn spec_sealing_started(
    before: KeyringModel,
    after: KeyringModel,
    password: Seq<char>,
    salt: Seq<u8>,
    out: Result<(), BlockchainError>,
) -> bool {
    if vstd::utf8::encode_utf8(password).len() < before.min_password_length {
        out is Err && out->Err_0 is Encryption && after == before
    } else {
        match spec_password_key(password, salt) {
            None => out is Err && out->Err_0 is Encryption && after == before,
            Some(key) => out is Ok && after == (KeyringModel {
                master_key: Some(key),
                salt: Some(salt),
                encrypted: true,
                loaded: true,
                ..before
            }),
        }
    }
}

impl EncryptedWallets {
    /// The wallets.
    pub closed spec fn spec_wallets(&self) -> Wallets {
        self.wallets
    }

    /// How the wallets are kept and protected.
    pub closed spec fn spec_state(&self) -> KeyringModel {
        KeyringModel {
            enabled: self.config.enabled,
            backup_enabled: self.config.backup_enabled,
            min_password_length: self.config.min_password_length,
            master_key: match self.master_key {
                Some(key) => Some(key@),
                None => None,
            },
            salt: match self.current_salt {
                Some(salt) => Some(salt@),
                None => None,
            },
            encrypted: self.is_encrypted,
            loaded: self.is_loaded,
        }
    }

    /// Whether the wallets are encrypted.
    pub open spec fn spec_encrypted(&self) -> bool {
        self.spec_state().encrypted
    }

    /// Whether the wallets were loaded.
    pub open spec fn spec_loaded(&self) -> bool {
        self.spec_state().loaded
    }

    /// The least length of a password.
    pub open spec fn spec_min_password_length(&self) -> usize {
        self.spec_state().min_password_length
    }

    /// The key that protects the wallets, where there is one.
    pub open spec fn spec_master_key(&self) -> Option<Seq<u8>> {
        self.spec_state().master_key
    }

    /// No wallets, not encrypted, not loaded.
    pub fn new(config: WalletEncryptionConfig) -> (out: Self)
        ensures
            out.spec_master_key() is None,
            out.spec_wallets().spec_entries().len() == 0,
            !out.spec_encrypted(),
            !out.spec_loaded(),
            out.spec_min_password_length() == config.min_password_length,
            out.spec_state() == (KeyringModel {
                enabled: config.enabled,
                backup_enabled: config.backup_enabled,
                min_password_length: config.min_password_length,
                master_key: None,
                salt: None,
                encrypted: false,
                loaded: false,
            }),
            crate::wallet::wallets::spec_apart(out.spec_wallets().spec_held()),
    {
        Self {
            wallets: Wallets::new(),
            config,
            master_key: None,
            current_salt: None,
            is_encrypted: false,
            is_loaded: false,
        }
    }

    /// `Ok` exactly where the UTF-8 bytes of the password are at least as
    /// many as the configuration asks for, else `Encryption`.
    pub fn validate_password(&self, password: &str) -> (out: Result<(), BlockchainError>)
        ensures
            out is Ok <==> vstd::utf8::encode_utf8(password@).len()
                >= self.spec_min_password_length(),
            out is Err ==> out->Err_0 is Encryption,
    {
        if password.as_bytes().len() < self.config.min_password_length {
            return Err(BlockchainError::Encryption(owned("Password is too short")));
        }
        Ok(())
    }

    /// The key of a password and a salt: Argon2id with 64 MiB, three passes,
    /// one lane and 32 bytes. `Encryption` where no key comes back.
    pub fn derive_key_from_password(&self, password: &str, salt: &[u8]) -> (out: Result<
        SecureKey,
        BlockchainError,
    >)
        ensures
            match spec_argon2id(vstd::utf8::encode_utf8(password@), salt@, 65536, 3, 1, 32) {
                Some(key) => out is Ok && out->Ok_0@ == key && key.len() == 32,
                None => out is Err && out->Err_0 is Encryption,
            },
    {
        match argon2id(password.as_bytes(), salt, 65536, 3, 1, 32) {
            Some(key) => Ok(SecureKey::new(key)),
            None => Err(BlockchainError::Encryption(owned("Key derivation failed"))),
        }
    }

    /// Starts encryption under the key of `password` and `salt`:
    /// `Encryption` where the password is too short or no key comes back,
    /// and then nothing changes.
    pub fn create_encrypted(&mut self, password: &str, salt: Vec<u8>) -> (out: Result<
        (),
        BlockchainError,
    >)
        ensures
            final(self).spec_wallets() == old(self).spec_wallets(),
            spec_sealing_started(old(self).spec_state(), final(self).spec_state(), password@, salt@, out),
    {
        match self.validate_password(password) {
            Ok(()) => {},
            Err(e) => { return Err(e); },
        }
        let key = match self.derive_key_from_password(password, salt.as_slice()) {
            Ok(key) => key,
            Err(e) => { return Err(e); },
        };
        self.master_key = Some(key);
        self.current_salt = Some(salt);
        self.is_encrypted = true;
        self.is_loaded = true;
        Ok(())
    }

    /// Makes a wallet with a fresh key pair and keeps it: `Wallet` where the
    /// wallets were not loaded, `Crypto` where no key pair could be made.
    pub fn create_wallet(&mut self) -> (out: Result<String, BlockchainError>)
        ensures
            !old(self).spec_loaded() ==> out is Err && out->Err_0 is Wallet,
            out is Err ==> out->Err_0 is Wallet || out->Err_0 is Crypto,
            out is Ok ==> final(self).spec_wallets().spec_has(out->Ok_0@),
            out is Ok ==> final(self).spec_wallets().spec_wallet(out->Ok_0@) is Some && out->Ok_0@
                == crate::wallet::wallets::spec_wallet_address(
                final(self).spec_wallets().spec_wallet(out->Ok_0@)->Some_0,
            ),
            out is Ok ==> forall|other: Seq<char>|
                other != out->Ok_0@ ==> #[trigger] final(self).spec_wallets().spec_wallet(other)
                    == old(self).spec_wallets().spec_wallet(other),
            out is Err ==> final(self).spec_wallets() == old(self).spec_wallets(),
            final(self).spec_state() == old(self).spec_state(),
            crate::wallet::wallets::spec_apart(old(self).spec_wallets().spec_held())
                ==> crate::wallet::wallets::spec_apart(final(self).spec_wallets().spec_held()),
    {
        if !self.is_loaded {
            return Err(
                BlockchainError::Wallet(
                    owned("Wallets not loaded. Call initialize_encryption first."),
                ),
            );
        }
        let wallet = match Wallet::new() {
            Ok(wallet) => wallet,
            Err(e) => { return Err(e); },
        };
        let mut wallets = Wallets::new();
        core::mem::swap(&mut wallets, &mut self.wallets);
        let address = wallets.insert(wallet);
        self.wallets = wallets;
        Ok(address)
    }

    /// The wallet under `address`.
    pub fn get_wallet(&self, address: &str) -> (out: Option<&Wallet>)
        ensures
            out is Some <==> self.spec_wallets().spec_has(address@),
            match self.spec_wallets().spec_wallet(address@) {
                Some(wallet) => out is Some && *out->Some_0 == wallet,
                None => out is None,
            },
    {
        self.wallets.get_wallet(address)
    }

    /// The addresses of the wallets.
    pub fn get_addresses(&self) -> (out: Vec<String>)
        ensures
            out@.len() == self.spec_wallets().spec_entries().len(),
            forall|i: int|
                0 <= i < out@.len() ==> (#[trigger] out@[i])@ == self.spec_wallets().spec_entries()[i].address@,
    {
        self.wallets.get_addresses()
    }

    /// The number of wallets.
    pub fn wallet_count(&self) -> (out: usize)
        ensures
            out == self.spec_wallets().spec_entries().len(),
    {
        self.wallets.get_addresses().len()
    }

    /// Whether the wallets are encrypted.
    pub fn is_encryption_enabled(&self) -> (out: bool)
        ensures
            out == self.spec_encrypted(),
    {
        self.is_encrypted
    }

    /// Encrypts `wallet_data` under the master key with a fresh nonce:
    /// `Wallet` where there is no master key, `Encryption` where the cipher
    /// fails. What comes back is decrypted to `wallet_data` under that key.
    pub fn seal(&self, wallet_data: &[u8]) -> (out: Result<
        crate::storage::encrypted::cipher::EncryptionResult,
        BlockchainError,
    >)
        ensures
            self.spec_master_key() is None ==> out is Err && out->Err_0 is Wallet,
            self.spec_master_key() is Some && self.spec_master_key()->Some_0.len() != 32 ==> out
                is Err && out->Err_0 is Encryption,
            out is Err ==> out->Err_0 is Wallet || out->Err_0 is Encryption,
            self.spec_master_key() is Some && out is Err ==> out->Err_0 is Encryption,
            out is Ok ==> out->Ok_0.nonce@.len() == 12 && spec_aes_gcm_encrypt(
                self.spec_master_key()->Some_0,
                out->Ok_0.nonce@,
                wallet_data@,
            ) == Some(out->Ok_0.ciphertext@) && spec_aes_gcm_decrypt(
                self.spec_master_key()->Some_0,
                out->Ok_0.nonce@,
                out->Ok_0.ciphertext@,
            ) == Some(wallet_data@),
    {
        let master_key = match &self.master_key {
            Some(key) => key,
            None => {
                return Err(BlockchainError::Wallet(owned("No master key available")));
            },
        };
        let cipher = match Aes256GcmCipher::new(master_key.clone()) {
            Ok(cipher) => cipher,
            Err(e) => { return Err(e); },
        };
        cipher.encrypt(wallet_data)
    }

    /// Decrypts what the file of encrypted wallets holds under the key of
    /// `password` and the salt of the file.
    pub fn unseal(&self, data: &EncryptedWalletData, password: &str) -> (out: Result<
        Vec<u8>,
        BlockchainError,
    >)
        ensures
            match spec_argon2id(vstd::utf8::encode_utf8(password@), data.salt@, 65536, 3, 1, 32) {
                Some(key) => out is Ok <==> data.nonce@.len() == 12 && spec_aes_gcm_decrypt(
                    key,
                    data.nonce@,
                    data.ciphertext@,
                ) is Some,
                None => out is Err,
            },
            out is Ok ==> Some(out->Ok_0@) == spec_aes_gcm_decrypt(
                spec_argon2id(
                    vstd::utf8::encode_utf8(password@),
                    data.salt@,
                    65536,
                    3,
                    1,
                    32,
                )->Some_0,
                data.nonce@,
                data.ciphertext@,
            ),
            out is Err ==> out->Err_0 is Encryption,
    {
        let master_key = match self.derive_key_from_password(password, data.salt.as_slice()) {
            Ok(key) => key,
            Err(e) => { return Err(e); },
        };
        let cipher = match Aes256GcmCipher::new(master_key) {
            Ok(cipher) => cipher,
            Err(e) => { return Err(e); },
        };
        cipher.decrypt(data.ciphertext.as_slice(), data.nonce.as_slice())
    }
}

} // verus!

verus! {

/// What the file of encrypted wallets stands for.
pub struct SealedModel {
    pub ciphertext: Seq<u8>,
    pub nonce: Seq<u8>,
    pub salt: Seq<u8>,
    pub wallet_count: usize,
    pub addresses: Seq<Seq<char>>,
    pub created_at: u64,
    pub modified_at: u64,
}

impl View for EncryptedWalletData {
    type V = SealedModel;

    open spec fn view(&self) -> SealedModel {
        SealedModel {
            ciphertext: self.ciphertext@,
            nonce: self.nonce@,
            salt: self.salt@,
            wallet_count: self.wallet_count,
            addresses: text_views(self.addresses@),
            created_at: self.created_at,
            modified_at: self.modified_at,
        }
    }
}

impl SealedModel {
    /// Every part can be held in memory.
    pub open spec fn wf(self) -> bool {
        &&& self.ciphertext.len() <= usize::MAX
        &&& self.nonce.len() <= usize::MAX
        &&& self.salt.len() <= usize::MAX
        &&& texts_wf(self.addresses)
    }

    /// The encoding: ciphertext, nonce, salt, number of wallets, addresses,
    /// time of making, time of writing.
    pub open spec fn encoding(self) -> Seq<u8> {
        spec_encode_bytes(self.ciphertext) + spec_encode_bytes(self.nonce) + spec_encode_bytes(
            self.salt,
        ) + spec_encode_u64(self.wallet_count as u64) + spec_encode_list(
            self.addresses,
            spec_text_encoder(),
        ) + spec_encode_u64(self.created_at) + spec_encode_u64(self.modified_at)
    }

    /// Reads the file from the front of `bytes`.
    pub open spec fn parse(bytes: Seq<u8>) -> Option<(SealedModel, Seq<u8>)> {
        match spec_parse_bytes(bytes) {
            Some((ciphertext, r1)) => match spec_parse_bytes(r1) {
                Some((nonce, r2)) => match spec_parse_bytes(r2) {
                    Some((salt, r3)) => match spec_parse_u64(r3) {
                        Some((wallet_count, r4)) => match spec_parse_list(r4, spec_text_parser()) {
                            Some((addresses, r5)) => match spec_parse_u64(r5) {
                                Some((created_at, r6)) => match spec_parse_u64(r6) {
                                    Some((modified_at, r7)) => if wallet_count <= usize::MAX {
                                        Some(
                                            (
                                                SealedModel {
                                                    ciphertext,
                                                    nonce,
                                                    salt,
                                                    wallet_count: wallet_count as usize,
                                                    addresses,
                                                    created_at,
                                                    modified_at,
                                                },
                                                r7,
                                            ),
                                        )
                                    } else {
                                        None
                                    },
                                    None => None,
                                },
                                None => None,
                            },
                            None => None,
                        },
                        None => None,
                    },
                    None => None,
                },
                None => None,
            },
            None => None,
        }
    }

    /// Reading an encoded file gives it back, whatever follows it.
    pub proof fn lemma_round_trip(self, rest: Seq<u8>)
        requires
            self.wf(),
        ensures
            SealedModel::parse(self.encoding() + rest) == Some((self, rest)),
    {
        let e1 = spec_encode_bytes(self.ciphertext);
        let e2 = spec_encode_bytes(self.nonce);
        let e3 = spec_encode_bytes(self.salt);
        let e4 = spec_encode_u64(self.wallet_count as u64);
        let e5 = spec_encode_list(self.addresses, spec_text_encoder());
        let e6 = spec_encode_u64(self.created_at);
        let e7 = spec_encode_u64(self.modified_at);
        let r6 = e7 + rest;
        let r5 = e6 + r6;
        let r4 = e5 + r5;
        let r3 = e4 + r4;
        let r2 = e3 + r3;
        let r1 = e2 + r2;
        assert(self.encoding() + rest =~= e1 + r1);
        assert(spec_parse_bytes(e1 + r1) == Some((self.ciphertext, r1))) by {
            lemma_bytes_round_trip(self.ciphertext, r1);
        }
        assert(spec_parse_bytes(r1) == Some((self.nonce, r2))) by {
            lemma_bytes_round_trip(self.nonce, r2);
        }
        assert(spec_parse_bytes(r2) == Some((self.salt, r3))) by {
            lemma_bytes_round_trip(self.salt, r3);
        }
        assert(spec_parse_u64(r3) == Some((self.wallet_count as u64, r4))) by {
            lemma_u64_round_trip(self.wallet_count as u64, r4);
        }
        assert(spec_parse_list(r4, spec_text_parser()) == Some((self.addresses, r5))) by {
            lemma_texts_round_trip(self.addresses, r5);
        }
        assert(spec_parse_u64(r5) == Some((self.created_at, r6))) by {
            lemma_u64_round_trip(self.created_at, r6);
        }
        assert(spec_parse_u64(r6) == Some((self.modified_at, rest))) by {
            lemma_u64_round_trip(self.modified_at, rest);
        }
    }
}

impl EncryptedWalletData {
    /// Every part in memory can be held in memory.
    fn note_well_formed(&self)
        ensures
            self@.wf(),
    {
        let _ = self.ciphertext.len();
        let _ = self.nonce.len();
        let _ = self.salt.len();
        let count = self.addresses.len();
        let mut i: usize = 0;
        while i < count
            invariant
                i <= count,
                count == self.addresses@.len(),
                forall|k: int|
                    0 <= k < i ==> vstd::utf8::encode_utf8(
                        (#[trigger] self.addresses@[k])@,
                    ).len() <= usize::MAX,
            decreases count - i,
        {
            let _ = self.addresses[i].as_str().as_bytes().len();
            i += 1;
        }
        assert forall|k: int| 0 <= k < self@.addresses.len() implies vstd::utf8::encode_utf8(
            #[trigger] self@.addresses[k],
        ).len() <= usize::MAX by {
            assert(self@.addresses[k] == self.addresses@[k]@);
        }
    }

    /// The bytes of the file. Read back, they give the file.
    pub fn encoded(&self) -> (out: Vec<u8>)
        ensures
            out@ == self@.encoding(),
            SealedModel::parse(out@) == Some((self@, Seq::<u8>::empty())),
    {
        let mut out: Vec<u8> = Vec::new();
        encode_bytes(self.ciphertext.as_slice(), &mut out);
        encode_bytes(self.nonce.as_slice(), &mut out);
        encode_bytes(self.salt.as_slice(), &mut out);
        encode_u64(self.wallet_count as u64, &mut out);
        encode_texts(self.addresses.as_slice(), &mut out);
        encode_u64(self.created_at, &mut out);
        encode_u64(self.modified_at, &mut out);
        self.note_well_formed();
        proof {
            assert(out@ =~= self@.encoding());
            self@.lemma_round_trip(Seq::empty());
            assert(out@ + Seq::<u8>::empty() =~= out@);
        }
        out
    }

    /// The file that the bytes hold, or nothing where they hold none.
    pub fn decode(bytes: &[u8]) -> (out: Option<EncryptedWalletData>)
        ensures
            match SealedModel::parse(bytes@) {
                Some((value, rest)) => out is Some && out->Some_0@ == value,
                None => out is None,
            },
    {
        assert(bytes@.skip(0) =~= bytes@);
        let (ciphertext, at) = match decode_bytes(bytes, 0) {
            Some(found) => found,
            None => { return None; },
        };
        let (nonce, at) = match decode_bytes(bytes, at) {
            Some(found) => found,
            None => { return None; },
        };
        let (salt, at) = match decode_bytes(bytes, at) {
            Some(found) => found,
            None => { return None; },
        };
        let (wallet_count, at) = match decode_u64(bytes, at) {
            Some(found) => found,
            None => { return None; },
        };
        let (addresses, at) = match decode_texts(bytes, at) {
            Some(found) => found,
            None => { return None; },
        };
        let (created_at, at) = match decode_u64(bytes, at) {
            Some(found) => found,
            None => { return None; },
        };
        let (modified_at, _) = match decode_u64(bytes, at) {
            Some(found) => found,
            None => { return None; },
        };
        if wallet_count > usize::MAX as u64 {
            return None;
        }
        Some(
            EncryptedWalletData {
                ciphertext,
                nonce,
                salt,
                wallet_count: wallet_count as usize,
                addresses,
                created_at,
                modified_at,
            },
        )
    }
}

/// The name of the backup that is made at the time `timestamp`.
pub open spec fn spec_backup_file_name(timestamp: u64) -> Seq<char> {
    "wallet_backup_"@ + spec_decimal(timestamp as nat) + ".dat"@
}

/// What reading the wallets from a file without encryption leaves: without
/// a file, no wallets; with one, the wallets that it holds, or `Wallet`
/// where it holds none, and then nothing changes. The wallets then count as
/// loaded.
pub open spec fn spec_plain_loaded(
    before: KeyringModel,
    held: Seq<HeldWallet>,
    after: KeyringModel,
    then: Seq<HeldWallet>,
    contents: Option<Seq<u8>>,
    out: Result<(), BlockchainError>,
) -> bool {
    match contents {
        None => out is Ok && then == held && after == (KeyringModel { loaded: true, ..before }),
        Some(bytes) => match spec_stored_wallets(bytes) {
            Some(stored) => out is Ok && then == stored && after == (KeyringModel {
                loaded: true,
                ..before
            }),
            None => out is Err && out->Err_0 is Wallet && then == held && after == before,
        },
    }
}

/// What opening the file of encrypted wallets under a password leaves:
/// `Wallet` where the bytes hold no such file, `Encryption` where no key
/// comes back or the key does not open the file, `Wallet` where what it
/// opens holds no wallets; then nothing changes. Else the wallets are those
/// of the file, the key and the salt are kept, and the wallets count as
/// encrypted and loaded.
pub open spec fn spec_sealed_loaded(
    before: KeyringModel,
    held: Seq<HeldWallet>,
    after: KeyringModel,
    then: Seq<HeldWallet>,
    contents: Seq<u8>,
    password: Seq<char>,
    out: Result<(), BlockchainError>,
) -> bool {
    let unchanged = then == held && after == before;
    match SealedModel::parse(contents) {
        None => out is Err && out->Err_0 is Wallet && unchanged,
        Some((sealed, rest)) => match spec_password_key(password, sealed.salt) {
            None => out is Err && out->Err_0 is Encryption && unchanged,
            Some(key) => if sealed.nonce.len() != 12 {
                out is Err && out->Err_0 is Encryption && unchanged
            } else {
                match spec_aes_gcm_decrypt(key, sealed.nonce, sealed.ciphertext) {
                    None => out is Err && out->Err_0 is Encryption && unchanged,
                    Some(plain) => match spec_stored_wallets(plain) {
                        None => out is Err && out->Err_0 is Wallet && unchanged,
                        Some(stored) => out is Ok && then == stored && after == (KeyringModel {
                            master_key: Some(key),
                            salt: Some(sealed.salt),
                            encrypted: true,
                            loaded: true,
                            ..before
                        }),
                    },
                }
            },
        },
    }
}

/// What the bytes of the file of encrypted wallets are when they are
/// written at the time `now`: a file whose ciphertext opens under the key to
/// the bytes of the wallets, with the salt of the key (a fresh one where
/// none is kept), the number and the addresses of the wallets, and `now` as
/// both of its times.
pub open spec fn spec_sealed_file(
    state: KeyringModel,
    held: Seq<HeldWallet>,
    fresh_salt: Seq<u8>,
    now: u64,
    bytes: Seq<u8>,
) -> bool {
    match SealedModel::parse(bytes) {
        None => false,
        Some((sealed, rest)) => {
            &&& rest.len() == 0
            &&& sealed.nonce.len() == 12
            &&& spec_aes_gcm_decrypt(state.master_key->Some_0, sealed.nonce, sealed.ciphertext)
                == Some(spec_encode_list(held, HeldWallet::encoder()))
            &&& sealed.salt == (match state.salt {
                Some(salt) => salt,
                None => fresh_salt,
            })
            &&& sealed.wallet_count == held.len()
            &&& sealed.addresses == held.map_values(|h: HeldWallet| h.address)
            &&& sealed.created_at == now
            &&& sealed.modified_at == now
        },
    }
}

impl EncryptedWallets {
    /// The name of the backup that is made at the time `timestamp`, in
    /// seconds since the Unix epoch.
    pub fn backup_file_name(timestamp: u64) -> (name: String)
        ensures
            name@ == spec_backup_file_name(timestamp),
    {
        String::from_str("wallet_backup_").concat(decimal_text(timestamp).as_str()).concat(".dat")
    }

    /// Whether a backup is made when the wallets are written: where they are
    /// encrypted and the configuration asks for backups.
    pub fn wants_backup(&self) -> (wanted: bool)
        ensures
            wanted == (self.spec_state().encrypted && self.spec_state().backup_enabled),
    {
        self.is_encrypted && self.config.backup_enabled
    }

    /// The bytes of the file of wallets without encryption.
    pub fn save_unencrypted(&self) -> (out: Vec<u8>)
        ensures
            out@ == spec_encode_list(self.spec_wallets().spec_held(), HeldWallet::encoder()),
    {
        self.wallets.encoded()
    }

    /// The bytes of the file of the wallets, written at the time `now`:
    /// those of `save_unencrypted` where the wallets are not encrypted; else
    /// a file as `spec_sealed_file` describes it. `Wallet` where the wallets
    /// are encrypted and no key is kept, `Encryption` where encryption
    /// fails.
    pub fn save_encrypted(&self, fresh_salt: Vec<u8>, now: u64) -> (out: Result<
        Vec<u8>,
        BlockchainError,
    >)
        ensures
            !self.spec_state().encrypted ==> out is Ok && out->Ok_0@ == spec_encode_list(
                self.spec_wallets().spec_held(),
                HeldWallet::encoder(),
            ),
            self.spec_state().encrypted && self.spec_state().master_key is None ==> out is Err
                && out->Err_0 is Wallet,
            self.spec_state().encrypted && self.spec_state().master_key is Some ==> {
                &&& out is Err ==> out->Err_0 is Encryption
                &&& out is Ok ==> spec_sealed_file(
                    self.spec_state(),
                    self.spec_wallets().spec_held(),
                    fresh_salt@,
                    now,
                    out->Ok_0@,
                )
            },
    {
        if !self.is_encrypted {
            return Ok(self.save_unencrypted());
        }
        let wallet_data = self.wallets.encoded();
        let sealed = match self.seal(wallet_data.as_slice()) {
            Ok(sealed) => sealed,
            Err(e) => { return Err(e); },
        };
        let salt = match &self.current_salt {
            Some(salt) => salt.clone(),
            None => fresh_salt,
        };
        let addresses = self.wallets.get_addresses();
        let data = EncryptedWalletData {
            ciphertext: sealed.ciphertext,
            nonce: sealed.nonce,
            salt,
            wallet_count: addresses.len(),
            addresses,
            created_at: now,
            modified_at: now,
        };
        let out = data.encoded();
        proof {
            let held = self.spec_wallets().spec_held();
            assert(data@.addresses =~= held.map_values(|h: HeldWallet| h.address)) by {
                assert forall|i: int| 0 <= i < held.len() implies data@.addresses[i]
                    == held[i].address by {
                    assert(held[i] == self.spec_wallets().spec_entries()[i]@);
                }
            }
        }
        Ok(out)
    }

    /// Reads the wallets from a file without encryption; see
    /// `spec_plain_loaded`.
    pub fn load_unencrypted(&mut self, contents: Option<&[u8]>) -> (out: Result<
        (),
        BlockchainError,
    >)
        ensures
            spec_plain_loaded(
                old(self).spec_state(),
                old(self).spec_wallets().spec_held(),
                final(self).spec_state(),
                final(self).spec_wallets().spec_held(),
                match contents {
                    Some(bytes) => Some(bytes@),
                    None => None,
                },
                out,
            ),
    {
        match contents {
            None => {
                self.is_loaded = true;
                Ok(())
            },
            Some(bytes) => {
                let wallets = match Wallets::decode(bytes) {
                    Ok(wallets) => wallets,
                    Err(e) => { return Err(e); },
                };
                self.wallets = wallets;
                self.is_loaded = true;
                Ok(())
            },
        }
    }

    /// Opens the file of encrypted wallets under a password; see
    /// `spec_sealed_loaded`.
    pub fn load_encrypted(&mut self, contents: &[u8], password: &str) -> (out: Result<
        (),
        BlockchainError,
    >)
        ensures
            spec_sealed_loaded(
                old(self).spec_state(),
                old(self).spec_wallets().spec_held(),
                final(self).spec_state(),
                final(self).spec_wallets().spec_held(),
                contents@,
                password@,
                out,
            ),
    {
        let data = match EncryptedWalletData::decode(contents) {
            Some(data) => data,
            None => {
                return Err(BlockchainError::Wallet(owned("Failed to deserialize wallet data")));
            },
        };
        let master_key = match self.derive_key_from_password(password, data.salt.as_slice()) {
            Ok(key) => key,
            Err(e) => { return Err(e); },
        };
        let cipher = match Aes256GcmCipher::new(master_key.clone()) {
            Ok(cipher) => cipher,
            Err(e) => { return Err(e); },
        };
        let plain = match cipher.decrypt(data.ciphertext.as_slice(), data.nonce.as_slice()) {
            Ok(plain) => plain,
            Err(e) => { return Err(e); },
        };
        let wallets = match Wallets::decode(plain.as_slice()) {
            Ok(wallets) => wallets,
            Err(e) => { return Err(e); },
        };
        self.wallets = wallets;
        self.master_key = Some(master_key);
        self.current_salt = Some(data.salt);
        self.is_encrypted = true;
        self.is_loaded = true;
        Ok(())
    }

    /// Loads or starts the wallets. Without encryption in the configuration
    /// the file is read as it is. With it, a password that is too short
    /// gives `Encryption`; else a file that is there is opened under the
    /// password, and where none is there encryption starts under the
    /// password and `fresh_salt`.
    pub fn initialize_encryption(
        &mut self,
        password: &str,
        contents: Option<&[u8]>,
        fresh_salt: Vec<u8>,
    ) -> (out: Result<(), BlockchainError>)
        ensures
            ({
                let before = old(self).spec_state();
                let held = old(self).spec_wallets().spec_held();
                let after = final(self).spec_state();
                let then = final(self).spec_wallets().spec_held();
                let bytes = match contents {
                    Some(bytes) => Some(bytes@),
                    None => None,
                };
                if !before.enabled {
                    spec_plain_loaded(before, held, after, then, bytes, out)
                } else if vstd::utf8::encode_utf8(password@).len() < before.min_password_length {
                    out is Err && out->Err_0 is Encryption && after == before && then == held
                } else {
                    match bytes {
                        Some(bytes) => spec_sealed_loaded(
                            before,
                            held,
                            after,
                            then,
                            bytes,
                            password@,
                            out,
                        ),
                        None => then == held && spec_sealing_started(
                            before,
                            after,
                            password@,
                            fresh_salt@,
                            out,
                        ),
                    }
                }
            }),
    {
        if !self.config.enabled {
            return self.load_unencrypted(contents);
        }
        match self.validate_password(password) {
            Ok(()) => {},
            Err(e) => { return Err(e); },
        }
        match contents {
            Some(bytes) => self.load_encrypted(bytes, password),
            None => self.create_encrypted(password, fresh_salt),
        }
    }
}

/// What was written opens again: the file of encrypted wallets that was
/// written under a key of a password and the kept salt opens under that
/// password to the wallets that were written, where these stand under
/// addresses of their own.
pub proof fn lemma_sealed_file_opens(
    state: KeyringModel,
    held: Seq<HeldWallet>,
    fresh_salt: Seq<u8>,
    now: u64,
    bytes: Seq<u8>,
    password: Seq<char>,
    before: KeyringModel,
    earlier: Seq<HeldWallet>,
    after: KeyringModel,
    then: Seq<HeldWallet>,
    out: Result<(), BlockchainError>,
)
    requires
        spec_sealed_file(state, held, fresh_salt, now, bytes),
        state.master_key is Some,
        state.salt is Some,
        spec_password_key(password, state.salt->Some_0) == state.master_key,
        crate::wallet::stored::entries_wf(held),
        crate::wallet::wallets::spec_apart(held),
        spec_sealed_loaded(before, earlier, after, then, bytes, password, out),
    ensures
        out is Ok,
        then == held,
        after.master_key == state.master_key,
        after.salt == state.salt,
        after.encrypted && after.loaded,
{
    crate::wallet::wallets::lemma_stored_wallets_come_back(held);
}

} // verus!
