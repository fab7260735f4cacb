use architect_chain::error::BlockchainError;
use architect_chain::utils::crypto::{
    base58_decode, base58_encode, current_timestamp, ecdsa_p256_sha256_sign_digest,
    ecdsa_p256_sha256_sign_verify, key_pair_of, new_key_pair, ripemd160_digest, sha256_digest,
    timestamp_of,
};
use architect_chain::wallet::wallet::{
    address_key_hash, convert_address, hash_pub_key, validate_address, Wallet,
};
use architect_chain::wallet::Wallets;

fn hex(bytes: &[u8]) -> String {
    data_encoding::HEXLOWER.encode(bytes)
}

#[test]
fn sha256_of_known_messages() {
    assert_eq!(
        hex(&sha256_digest(b"")),
        "e3b0c44298fc1c149afbf4c8996fb92427ae41e4649b934ca495991b7852b855"
    );
    assert_eq!(
        hex(&sha256_digest(b"abc")),
        "ba7816bf8f01cfea414140de5dae2223b00361a396177a9cb410ff61f20015ad"
    );
}

#[test]
fn ripemd160_of_known_messages() {
    assert_eq!(
        hex(&ripemd160_digest(b"")),
        "9c1185a5c5e9fc54612808977ee8f548b2258d31"
    );
    assert_eq!(
        hex(&ripemd160_digest(b"abc")),
        "8eb208f7e05d987a9b044a8e98c6b087f15a0bfc"
    );
}

#[test]
fn base58_of_known_bytes() {
    assert_eq!(base58_encode(b"hello world"), "StV1DL6CwTryKyV");
    assert_eq!(base58_encode(&[0, 0, 1]), "112");
    assert_eq!(base58_decode("StV1DL6CwTryKyV").unwrap(), b"hello world");
    assert_eq!(base58_decode("112").unwrap(), vec![0, 0, 1]);
    assert!(matches!(
        base58_decode("0OIl"),
        Err(BlockchainError::InvalidAddress(_))
    ));
}

#[test]
fn base58_gives_back_what_it_took() {
    for len in 0..40usize {
        let data: Vec<u8> = (0..len).map(|i| (i * 37 % 256) as u8).collect();
        assert_eq!(base58_decode(&base58_encode(&data)).unwrap(), data);
        let zeros = vec![0u8; len];
        assert_eq!(base58_decode(&base58_encode(&zeros)).unwrap(), zeros);
    }
}

#[test]
fn a_known_address_is_valid() {
    assert!(validate_address("1A1zP1eP5QGefi2DMPTfTL5SLmv7DivfNa"));
    assert_eq!(
        hex(&address_key_hash("1A1zP1eP5QGefi2DMPTfTL5SLmv7DivfNa").unwrap()),
        "62e907b15cbf27d5425399ebf6f0fb50ebb88f18"
    );
    assert_eq!(
        convert_address(
            &data_encoding::HEXLOWER
                .decode(b"62e907b15cbf27d5425399ebf6f0fb50ebb88f18")
                .unwrap()
        ),
        "1A1zP1eP5QGefi2DMPTfTL5SLmv7DivfNa"
    );
}

#[test]
fn a_changed_address_is_not_valid() {
    assert!(!validate_address("1A1zP1eP5QGefi2DMPTfTL5SLmv7DivfNb"));
    assert!(!validate_address(""));
    assert!(!validate_address("1111"));
    assert!(!validate_address("not base58 at all!"));
    assert!(address_key_hash("1A1zP1eP5QGefi2DMPTfTL5SLmv7DivfNb").is_none());
}

#[test]
fn address_round_trip_recovers_the_key_hash() {
    for seed in 0..20u8 {
        let key_hash: Vec<u8> = (0..20).map(|i| seed.wrapping_mul(31).wrapping_add(i)).collect();
        let address = convert_address(&key_hash);
        assert!(validate_address(&address));
        assert_eq!(address_key_hash(&address).unwrap(), key_hash);
    }
    let wallet = Wallet::new().unwrap();
    let address = wallet.get_address();
    assert!(validate_address(&address));
    assert_eq!(
        address_key_hash(&address).unwrap(),
        hash_pub_key(wallet.get_public_key())
    );
    assert_eq!(hash_pub_key(wallet.get_public_key()).len(), 20);
}

#[test]
fn signature_verifies_and_a_flipped_bit_does_not() {
    let pkcs8 = new_key_pair().unwrap();
    let wallet = Wallet::from_pkcs8(pkcs8.clone()).unwrap();
    let digest = sha256_digest(b"a message");
    let signature = ecdsa_p256_sha256_sign_digest(&pkcs8, &digest).unwrap();
    assert_eq!(signature.len(), 64);
    assert!(ecdsa_p256_sha256_sign_verify(
        wallet.get_public_key(),
        &signature,
        &digest
    ));
    for bit in 0..8 {
        let mut flipped = digest.clone();
        flipped[bit * 4] ^= 1 << bit;
        assert!(!ecdsa_p256_sha256_sign_verify(
            wallet.get_public_key(),
            &signature,
            &flipped
        ));
    }
    let other = Wallet::new().unwrap();
    assert!(!ecdsa_p256_sha256_sign_verify(
        other.get_public_key(),
        &signature,
        &digest
    ));
}

#[test]
fn signing_needs_a_key_document() {
    assert!(matches!(
        ecdsa_p256_sha256_sign_digest(&[1, 2, 3], b"message"),
        Err(BlockchainError::Crypto(_))
    ));
    assert!(matches!(
        Wallet::from_pkcs8(vec![1, 2, 3]),
        Err(BlockchainError::Crypto(_))
    ));
}

#[test]
fn key_pairs_are_fresh() {
    let a = new_key_pair().unwrap();
    let b = new_key_pair().unwrap();
    assert_ne!(a, b);
    let wallet = Wallet::from_pkcs8(a.clone()).unwrap();
    assert_eq!(wallet.get_pkcs8(), &a[..]);
    let copy = wallet.copy();
    assert_eq!(copy.get_public_key(), wallet.get_public_key());
}

#[test]
fn timestamps_fit_in_64_bits() {
    let now = current_timestamp().unwrap();
    assert!(now > 1_600_000_000_000);
    assert_eq!(timestamp_of(Some(5)).unwrap(), 5);
    assert_eq!(timestamp_of(Some(i64::MAX as u128)).unwrap(), i64::MAX);
    assert!(matches!(
        timestamp_of(Some(i64::MAX as u128 + 1)),
        Err(BlockchainError::Crypto(_))
    ));
    assert!(matches!(timestamp_of(None), Err(BlockchainError::Crypto(_))));
}

#[test]
fn wallets_are_kept_by_address() {
    let mut wallets = Wallets::new();
    assert!(wallets.get_addresses().is_empty());
    let first = wallets.create_wallet().unwrap();
    let second = wallets.create_wallet().unwrap();
    assert_ne!(first, second);
    assert_eq!(wallets.get_addresses(), vec![first.clone(), second.clone()]);
    let wallet = wallets.get_wallet(&first).unwrap();
    assert_eq!(wallet.get_address(), first);
    assert!(wallets.get_wallet("nobody").is_none());
    let again = wallets.insert(wallet.copy());
    assert_eq!(again, first);
    assert_eq!(wallets.get_addresses().len(), 2);
}

#[test]
fn error_messages_name_their_kind() {
    assert_eq!(
        BlockchainError::Database("gone".to_string()).to_string(),
        "Database error: gone"
    );
    assert_eq!(
        BlockchainError::Crypto("c".to_string()).to_string(),
        "Cryptographic error: c"
    );
    assert_eq!(
        BlockchainError::Network("n".to_string()).to_string(),
        "Network error: n"
    );
    assert_eq!(
        BlockchainError::Transaction("t".to_string()).to_string(),
        "Transaction error: t"
    );
    assert_eq!(
        BlockchainError::Wallet("w".to_string()).to_string(),
        "Wallet error: w"
    );
    assert_eq!(
        BlockchainError::Config("c".to_string()).to_string(),
        "Configuration error: c"
    );
    assert_eq!(
        BlockchainError::Serialization("s".to_string()).to_string(),
        "Serialization error: s"
    );
    assert_eq!(BlockchainError::Io("i".to_string()).to_string(), "I/O error: i");
    assert_eq!(
        BlockchainError::InvalidAddress("a".to_string()).to_string(),
        "Invalid address: a"
    );
    assert_eq!(
        BlockchainError::InsufficientFunds {
            required: 1001,
            available: 0
        }
        .to_string(),
        "Insufficient funds: required 1001, available 0"
    );
    assert_eq!(
        BlockchainError::InvalidBlock("b".to_string()).to_string(),
        "Invalid block: b"
    );
    assert_eq!(
        BlockchainError::Mining("m".to_string()).to_string(),
        "Mining error: m"
    );
    assert_eq!(
        BlockchainError::Encryption("e".to_string()).to_string(),
        "Encryption error: e"
    );
}

#[test]
fn a_key_document_that_was_made_holds_a_key_pair() {
    for _ in 0..3 {
        let document = new_key_pair().unwrap();
        assert!(!document.is_empty());
        let wallet = Wallet::from_pkcs8(document.clone()).unwrap();
        // the public key is an uncompressed point of the curve
        assert_eq!(wallet.get_public_key().len(), 65);
        assert_eq!(wallet.get_public_key()[0], 4);
        let signature = ecdsa_p256_sha256_sign_digest(&document, b"message").unwrap();
        assert!(ecdsa_p256_sha256_sign_verify(
            wallet.get_public_key(),
            &signature,
            b"message"
        ));
    }
    assert_eq!(key_pair_of(Some(vec![1, 2, 3])).unwrap(), vec![1, 2, 3]);
    assert!(matches!(key_pair_of(None), Err(BlockchainError::Crypto(_))));
}

#[test]
fn an_address_decodes_to_version_hash_and_checksum() {
    let hash = [7u8; 20];
    let address = convert_address(&hash);
    let payload = base58_decode(&address).unwrap();
    assert_eq!(payload.len(), 25);
    assert_eq!(payload[0], 0);
    assert_eq!(&payload[1..21], &hash);
    let twice = sha256_digest(&sha256_digest(&payload[..21]));
    assert_eq!(&payload[21..], &twice[..4]);
}

#[test]
fn a_wallet_is_made_of_what_was_read_from_its_document() {
    let wallet = Wallet::of_key(vec![1, 2], Some(vec![3; 65])).unwrap();
    assert_eq!(wallet.get_pkcs8(), &[1, 2]);
    assert_eq!(wallet.get_public_key(), &[3; 65]);
    assert!(matches!(
        Wallet::of_key(vec![1, 2], None),
        Err(BlockchainError::Crypto(_))
    ));
    // a document that holds no key pair gives no wallet
    assert!(matches!(
        Wallet::from_pkcs8(vec![1, 2]),
        Err(BlockchainError::Crypto(_))
    ));
    let made = Wallet::new().unwrap();
    assert_eq!(made.get_public_key().len(), 65);
    let again = Wallet::from_pkcs8(made.get_pkcs8().to_vec()).unwrap();
    assert_eq!(again.get_public_key(), made.get_public_key());
}
