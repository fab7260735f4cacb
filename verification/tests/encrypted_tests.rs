use architect_chain::error::BlockchainError;
use architect_chain::storage::encrypted::cipher::{
    generate_key, Aes256GcmCipher, SecureKey, SecureMemory,
};
use architect_chain::storage::encrypted::wallet_encryption::{
    EncryptedWalletData, EncryptedWallets, WalletEncryptionConfig,
};
use architect_chain::storage::encrypted::{
    generate_random_bytes, secure_clear, WalletEncryptionSettings,
};
use architect_chain::wallet::wallet::Wallet;
use architect_chain::wallet::wallets::Wallets;

#[test]
fn test_secure_key() {
    let key_bytes = vec![1u8; 32];
    let key = SecureKey::new(key_bytes.clone());
    assert_eq!(key.len(), 32);
    assert!(!key.is_empty());
    assert_eq!(key.as_bytes(), &key_bytes);
}

#[test]
fn test_cipher_creation() {
    let key = SecureKey::new(vec![0u8; 32]);
    let cipher = Aes256GcmCipher::new(key);
    assert!(cipher.is_ok());
    let invalid_key = SecureKey::new(vec![0u8; 16]);
    let cipher = Aes256GcmCipher::new(invalid_key);
    assert!(cipher.is_err());
}

#[test]
fn test_encryption_decryption() {
    let key = SecureKey::new(vec![1u8; 32]);
    let cipher = Aes256GcmCipher::new(key).unwrap();
    let plaintext = b"Hello, World! This is a test of AES-256-GCM encryption.";
    let result = cipher.encrypt(plaintext).unwrap();
    assert!(!result.ciphertext.is_empty());
    assert_eq!(result.nonce.len(), 12);
    let decrypted = cipher.decrypt(&result.ciphertext, &result.nonce).unwrap();
    assert_eq!(decrypted, plaintext);
}

#[test]
fn test_encryption_with_specific_nonce() {
    let key = SecureKey::new(vec![1u8; 32]);
    let cipher = Aes256GcmCipher::new(key).unwrap();
    let plaintext = b"Hello, World!";
    let nonce = vec![2u8; 12];
    let ciphertext = cipher.encrypt_with_nonce(plaintext, &nonce).unwrap();
    assert!(!ciphertext.is_empty());
    let decrypted = cipher.decrypt(&ciphertext, &nonce).unwrap();
    assert_eq!(decrypted, plaintext);
}

#[test]
fn test_different_keys_produce_different_results() {
    let key1 = SecureKey::new(vec![1u8; 32]);
    let key2 = SecureKey::new(vec![2u8; 32]);
    let cipher1 = Aes256GcmCipher::new(key1).unwrap();
    let cipher2 = Aes256GcmCipher::new(key2).unwrap();
    let plaintext = b"Hello, World!";
    let nonce = vec![0u8; 12];
    let ciphertext1 = cipher1.encrypt_with_nonce(plaintext, &nonce).unwrap();
    let ciphertext2 = cipher2.encrypt_with_nonce(plaintext, &nonce).unwrap();
    assert_ne!(ciphertext1, ciphertext2);
}

#[test]
fn test_key_validation() {
    assert!(Aes256GcmCipher::validate_key(&[0u8; 32]).is_ok());
    assert!(Aes256GcmCipher::validate_key(&[0u8; 16]).is_err());
    assert!(Aes256GcmCipher::validate_key(&[0u8; 64]).is_err());
}

#[test]
fn test_constants() {
    assert_eq!(Aes256GcmCipher::key_length(), 32);
    assert_eq!(Aes256GcmCipher::nonce_length(), 12);
    assert_eq!(Aes256GcmCipher::tag_length(), 16);
    assert_eq!(Aes256GcmCipher::algorithm_name(), "AES-256-GCM");
}

#[test]
fn test_secure_memory_operations() {
    let mut data = vec![1, 2, 3, 4, 5];
    SecureMemory::clear(&mut data);
    assert_eq!(data, vec![0, 0, 0, 0, 0]);

    let a = vec![1, 2, 3];
    let b = vec![1, 2, 3];
    let c = vec![1, 2, 4];
    assert!(SecureMemory::constant_time_eq(&a, &b));
    assert!(!SecureMemory::constant_time_eq(&a, &c));
    assert!(!SecureMemory::constant_time_eq(&a, &[1, 2]));
}

#[test]
fn test_key_generation() {
    let key1 = generate_key().unwrap();
    let key2 = generate_key().unwrap();
    assert_eq!(key1.len(), 32);
    assert_eq!(key2.len(), 32);
    assert_ne!(key1.as_bytes(), key2.as_bytes());
}

#[test]
fn test_wallet_encryption_settings_default() {
    let settings = WalletEncryptionSettings::default();
    assert!(!settings.enabled);
    assert_eq!(settings.min_password_length, 8);
    assert!(settings.backup_enabled);
}

#[test]
fn test_generate_random_bytes() {
    let bytes1 = generate_random_bytes(32).unwrap();
    let bytes2 = generate_random_bytes(32).unwrap();
    assert_eq!(bytes1.len(), 32);
    assert_eq!(bytes2.len(), 32);
    assert_ne!(bytes1, bytes2);
}

#[test]
fn test_secure_clear() {
    let mut data = vec![1, 2, 3, 4, 5];
    secure_clear(&mut data);
    assert_eq!(data, vec![0, 0, 0, 0, 0]);
}

#[test]
fn test_encrypted_wallets_creation() {
    let config = WalletEncryptionConfig {
        wallet_file: "test_wallet.dat".to_string(),
        ..Default::default()
    };
    let wallets = EncryptedWallets::new(config);
    assert!(!wallets.is_encryption_enabled());
    assert_eq!(wallets.wallet_count(), 0);
}

#[test]
fn test_password_validation() {
    let config = WalletEncryptionConfig::default();
    let wallets = EncryptedWallets::new(config);
    assert!(wallets.validate_password("short").is_err());
    assert!(wallets.validate_password("long_enough_password").is_ok());
}

#[test]
fn test_encrypted_wallet_operations() {
    let mut config = WalletEncryptionConfig {
        wallet_file: "test_wallet.dat".to_string(),
        ..Default::default()
    };
    config.enabled = true;
    let mut wallets = EncryptedWallets::new(config);
    assert!(matches!(
        wallets.create_wallet(),
        Err(BlockchainError::Wallet(_))
    ));
    assert!(wallets
        .initialize_encryption("TestPassword123", None, vec![7u8; 32])
        .is_ok());
    assert!(wallets.is_encryption_enabled());

    let address = wallets.create_wallet().unwrap();
    assert_eq!(wallets.wallet_count(), 1);
    assert!(wallets.get_wallet(&address).is_some());

    let addresses = wallets.get_addresses();
    assert_eq!(addresses.len(), 1);
    assert_eq!(addresses[0], address);
}

#[test]
fn sealed_wallet_data_opens_under_the_password_only() {
    let mut wallets = EncryptedWallets::new(WalletEncryptionConfig::default());
    assert!(matches!(
        wallets.seal(b"secret"),
        Err(BlockchainError::Wallet(_))
    ));
    assert!(matches!(
        wallets.create_encrypted("short", vec![7u8; 32]),
        Err(BlockchainError::Encryption(_))
    ));
    assert!(!wallets.is_encryption_enabled());
    wallets
        .create_encrypted("TestPassword123", vec![7u8; 32])
        .unwrap();
    let sealed = wallets.seal(b"secret").unwrap();
    assert_ne!(sealed.ciphertext, b"secret");
    let data = EncryptedWalletData {
        ciphertext: sealed.ciphertext,
        nonce: sealed.nonce,
        salt: vec![7u8; 32],
        wallet_count: 0,
        addresses: vec![],
        created_at: 0,
        modified_at: 0,
    };
    assert_eq!(wallets.unseal(&data, "TestPassword123").unwrap(), b"secret");
    assert!(matches!(
        wallets.unseal(&data, "AnotherPassword"),
        Err(BlockchainError::Encryption(_))
    ));
    let key1 = wallets
        .derive_key_from_password("TestPassword123", &[7u8; 32])
        .unwrap();
    let key2 = wallets
        .derive_key_from_password("TestPassword123", &[7u8; 32])
        .unwrap();
    let key3 = wallets
        .derive_key_from_password("TestPassword123", &[8u8; 32])
        .unwrap();
    assert_eq!(key1.len(), 32);
    assert_eq!(key1.as_bytes(), key2.as_bytes());
    assert_ne!(key1.as_bytes(), key3.as_bytes());
    assert!(wallets
        .derive_key_from_password("TestPassword123", &[1u8; 2])
        .is_err());
}

#[test]
fn a_changed_ciphertext_is_rejected() {
    let cipher = Aes256GcmCipher::from_key_bytes(&[5u8; 32]).unwrap();
    let nonce = [1u8; 12];
    let mut ciphertext = cipher.encrypt_with_nonce(b"data", &nonce).unwrap();
    assert_eq!(ciphertext.len(), 4 + 16);
    ciphertext[0] ^= 1;
    assert!(matches!(
        cipher.decrypt(&ciphertext, &nonce),
        Err(BlockchainError::Encryption(_))
    ));
    assert!(cipher.encrypt_with_nonce(b"data", &[1u8; 11]).is_err());
    assert!(cipher.decrypt(b"data", &[1u8; 13]).is_err());
    assert!(Aes256GcmCipher::from_key_bytes(&[5u8; 31]).is_err());
}

fn sealing_config() -> WalletEncryptionConfig {
    WalletEncryptionConfig {
        enabled: true,
        ..Default::default()
    }
}

#[test]
fn test_wallet_persistence() {
    let (address, file) = {
        let mut wallets = EncryptedWallets::new(sealing_config());
        wallets
            .initialize_encryption("TestPassword123", None, vec![7u8; 32])
            .unwrap();
        let address = wallets.create_wallet().unwrap();
        assert!(wallets.wants_backup());
        (address, wallets.save_encrypted(vec![9u8; 32], 1_700_000_000).unwrap())
    };

    let mut wallets2 = EncryptedWallets::new(sealing_config());
    wallets2
        .initialize_encryption("TestPassword123", Some(&file), vec![1u8; 32])
        .unwrap();
    assert_eq!(wallets2.wallet_count(), 1);
    assert!(wallets2.get_wallet(&address).is_some());
    assert!(wallets2.is_encryption_enabled());
    assert_eq!(wallets2.get_wallet(&address).unwrap().get_address(), address);
}

#[test]
fn the_file_of_encrypted_wallets_holds_what_was_written() {
    let mut wallets = EncryptedWallets::new(sealing_config());
    wallets
        .initialize_encryption("TestPassword123", None, vec![7u8; 32])
        .unwrap();
    let first = wallets.create_wallet().unwrap();
    let second = wallets.create_wallet().unwrap();
    let file = wallets.save_encrypted(vec![9u8; 32], 1_700_000_000).unwrap();
    let data = EncryptedWalletData::decode(&file).unwrap();
    // the salt of the key stays; the fresh one is for wallets without one
    assert_eq!(data.salt, vec![7u8; 32]);
    assert_eq!(data.nonce.len(), 12);
    assert_eq!(data.wallet_count, 2);
    assert_eq!(data.addresses, vec![first.clone(), second.clone()]);
    assert_eq!(data.created_at, 1_700_000_000);
    assert_eq!(data.modified_at, 1_700_000_000);
    assert_eq!(data.encoded(), file);
    let plain = wallets.unseal(&data, "TestPassword123").unwrap();
    assert_eq!(plain, wallets.save_unencrypted());
    let read = Wallets::decode(&plain).unwrap();
    assert_eq!(read.get_addresses(), vec![first, second]);
}

#[test]
fn a_file_that_does_not_open_changes_nothing() {
    let mut wallets = EncryptedWallets::new(sealing_config());
    wallets
        .initialize_encryption("TestPassword123", None, vec![7u8; 32])
        .unwrap();
    wallets.create_wallet().unwrap();
    let file = wallets.save_encrypted(vec![9u8; 32], 5).unwrap();

    let mut other = EncryptedWallets::new(sealing_config());
    assert!(matches!(
        other.initialize_encryption("short", Some(&file), vec![1u8; 32]),
        Err(BlockchainError::Encryption(_))
    ));
    assert!(matches!(
        other.initialize_encryption("AnotherPassword", Some(&file), vec![1u8; 32]),
        Err(BlockchainError::Encryption(_))
    ));
    assert!(matches!(
        other.initialize_encryption("TestPassword123", Some(&file[..file.len() - 1]), vec![1u8; 32]),
        Err(BlockchainError::Wallet(_))
    ));
    assert!(matches!(
        other.load_encrypted(&[], "TestPassword123"),
        Err(BlockchainError::Wallet(_))
    ));
    assert_eq!(other.wallet_count(), 0);
    assert!(!other.is_encryption_enabled());
    // not loaded yet
    assert!(matches!(
        other.create_wallet(),
        Err(BlockchainError::Wallet(_))
    ));
    assert!(EncryptedWalletData::decode(&[]).is_none());
}

#[test]
fn wallets_without_encryption_are_kept_as_they_are() {
    let mut wallets = EncryptedWallets::new(WalletEncryptionConfig::default());
    wallets.initialize_encryption("", None, vec![]).unwrap();
    assert!(!wallets.is_encryption_enabled());
    assert!(!wallets.wants_backup());
    let address = wallets.create_wallet().unwrap();
    let file = wallets.save_encrypted(vec![], 0).unwrap();
    assert_eq!(file, wallets.save_unencrypted());

    let mut again = EncryptedWallets::new(WalletEncryptionConfig::default());
    again.initialize_encryption("", Some(&file), vec![]).unwrap();
    assert_eq!(again.get_addresses(), vec![address]);
    assert!(matches!(
        again.load_unencrypted(Some(&[1, 2, 3])),
        Err(BlockchainError::Wallet(_))
    ));
    assert_eq!(again.wallet_count(), 1);
    assert_eq!(
        EncryptedWallets::backup_file_name(1_700_000_000),
        "wallet_backup_1700000000.dat"
    );
}

#[test]
fn the_bytes_of_the_wallets_are_read_back() {
    let mut wallets = Wallets::new();
    assert_eq!(wallets.encoded(), vec![0]);
    let first = wallets.create_wallet().unwrap();
    let second = wallets.create_wallet().unwrap();
    let bytes = wallets.encoded();
    let read = Wallets::decode(&bytes).unwrap();
    assert_eq!(read.get_addresses(), vec![first.clone(), second]);
    assert_eq!(
        read.get_wallet(&first).unwrap().get_pkcs8(),
        wallets.get_wallet(&first).unwrap().get_pkcs8()
    );
    assert_eq!(
        read.get_wallet(&first).unwrap().get_public_key(),
        wallets.get_wallet(&first).unwrap().get_public_key()
    );
    assert_eq!(read.encoded(), bytes);
    assert!(matches!(
        Wallets::decode(&bytes[..bytes.len() - 1]),
        Err(BlockchainError::Wallet(_))
    ));
    assert!(matches!(
        Wallets::decode(&[]),
        Err(BlockchainError::Wallet(_))
    ));
    let mut loaded = Wallets::new();
    loaded.load_from_file(None);
    assert!(loaded.get_addresses().is_empty());
    loaded.load_from_file(Some(&bytes));
    assert_eq!(loaded.get_addresses(), wallets.get_addresses());
    loaded.load_from_file(Some(&[9, 9]));
    assert_eq!(loaded.get_addresses(), wallets.get_addresses());
}

#[test]
fn of_two_wallets_under_one_address_the_later_stays() {
    // two wallets under the address "a", then one under "b"
    let bytes = vec![
        3, 1, b'a', 1, 10, 1, 11, 1, b'b', 1, 20, 1, 21, 1, b'a', 1, 30, 1, 31,
    ];
    let read = Wallets::decode(&bytes).unwrap();
    assert_eq!(read.get_addresses(), vec!["a".to_string(), "b".to_string()]);
    assert_eq!(read.get_wallet("a").unwrap().get_pkcs8(), &[30]);
    assert_eq!(read.get_wallet("a").unwrap().get_public_key(), &[31]);
    assert_eq!(read.get_wallet("b").unwrap().get_pkcs8(), &[20]);
    let made = Wallet::from_parts(vec![1], vec![2]);
    assert_eq!(made.get_pkcs8(), &[1]);
    assert_eq!(made.get_public_key(), &[2]);
}
