use architect_chain::chain::transaction::{TXInput, TXOutput};
use architect_chain::chain::{Block, Transaction};
use architect_chain::error::BlockchainError;
use architect_chain::storage::encrypted::wallet_encryption::EncryptedWalletData;
use architect_chain::utils::serialization::{
    decode_bytes, decode_i64, decode_text, decode_texts, decode_u64, encode_bytes, encode_i64,
    encode_text, encode_texts, encode_u64, push_i64_be, push_u32_be, push_u64_be,
};
use architect_chain::wallet::wallets::Wallets;

fn standard_u64(v: u64) -> Vec<u8> {
    bincode::encode_to_vec(v, bincode::config::standard()).unwrap()
}

fn sample_transaction() -> Transaction {
    let inputs = vec![
        TXInput::from_parts(vec![7u8; 32], 3, vec![9u8; 64], vec![4u8; 65]),
        TXInput::from_parts(vec![], 300, vec![], vec![1, 2, 3]),
    ];
    let outputs = vec![
        TXOutput::from_parts(5_000_000_000, vec![1u8; 20]),
        TXOutput::from_parts(1, vec![]),
    ];
    Transaction::from_parts(vec![0xabu8; 32], inputs, outputs, 70_000)
}

#[test]
fn test_serialize_deserialize() {
    // id: u64, name: text, values: a list of signed numbers
    let id: u64 = 42;
    let name = "test";
    let values: Vec<i64> = vec![1, 2, 3, 4, 5];

    let mut serialized = Vec::new();
    encode_u64(id, &mut serialized);
    encode_text(name, &mut serialized);
    encode_u64(values.len() as u64, &mut serialized);
    for value in &values {
        encode_i64(*value, &mut serialized);
    }

    let (id_back, at) = decode_u64(&serialized, 0).expect("Deserialization should work");
    let (name_back, at) = decode_text(&serialized, at).expect("Deserialization should work");
    let (count, mut at) = decode_u64(&serialized, at).expect("Deserialization should work");
    let mut values_back = Vec::new();
    for _ in 0..count {
        let (value, next) = decode_i64(&serialized, at).expect("Deserialization should work");
        values_back.push(value);
        at = next;
    }
    assert_eq!(at, serialized.len());
    assert_eq!((id, name.to_string(), values), (id_back, name_back, values_back));
}

#[test]
fn test_serialize_empty_data() {
    let empty_vec: Vec<u8> = vec![];
    let mut serialized = Vec::new();
    encode_bytes(&empty_vec, &mut serialized);
    let (deserialized, _) = decode_bytes(&serialized, 0).expect("Should deserialize empty vector");
    assert_eq!(empty_vec, deserialized);
}

#[test]
fn test_deserialize_invalid_data() {
    let invalid_bytes = vec![0xFF, 0xFF, 0xFF, 0xFF];
    assert!(decode_u64(&invalid_bytes, 0).is_none());
    assert!(decode_text(&invalid_bytes, 0).is_none());
    assert!(Transaction::deserialize(&invalid_bytes).is_err());
    assert!(Block::deserialize(&invalid_bytes).is_err());
}

#[test]
fn unsigned_numbers_are_written_as_by_the_standard_configuration() {
    for v in [
        0u64,
        1,
        250,
        251,
        255,
        256,
        65_535,
        65_536,
        4_294_967_295,
        4_294_967_296,
        5_000_000_000,
        u64::MAX,
    ] {
        let mut out = vec![0xee];
        encode_u64(v, &mut out);
        assert_eq!(&out[1..], &standard_u64(v)[..], "value {v}");
        assert_eq!(decode_u64(&out, 1), Some((v, out.len())));
    }
}

#[test]
fn signed_numbers_are_written_as_by_the_standard_configuration() {
    for n in [0i64, 1, -1, 2, -2, 125, -126, 1_000_000, -1_000_000, i64::MAX, i64::MIN] {
        let mut out = Vec::new();
        encode_i64(n, &mut out);
        let standard = bincode::encode_to_vec(n, bincode::config::standard()).unwrap();
        assert_eq!(out, standard, "value {n}");
        assert_eq!(decode_i64(&out, 0), Some((n, out.len())));
    }
}

#[test]
fn texts_and_bytes_carry_their_length() {
    let mut out = Vec::new();
    encode_text("héllo", &mut out);
    assert_eq!(out, vec![6, b'h', 0xc3, 0xa9, b'l', b'l', b'o']);
    assert_eq!(decode_text(&out, 0), Some(("héllo".to_string(), 7)));
    // bytes that are no UTF-8 are no text
    assert_eq!(decode_text(&[2, 0xff, 0xfe], 0), None);
    // a length that the bytes do not reach
    assert_eq!(decode_bytes(&[5, 1, 2], 0), None);
    assert_eq!(decode_bytes(&[251, 1], 0), None);
    // a number need not be written in its shortest form to be read
    assert_eq!(decode_u64(&[251, 5, 0], 0), Some((5, 3)));
    assert_eq!(decode_u64(&[254, 0, 0], 0), None);
    assert_eq!(decode_u64(&[], 0), None);
}

#[test]
fn transaction_bytes_are_those_of_the_standard_configuration() {
    let tx = sample_transaction();
    let as_tuple: (
        Vec<u8>,
        Vec<(Vec<u8>, usize, Vec<u8>, Vec<u8>)>,
        Vec<(u64, Vec<u8>)>,
        u64,
    ) = (
        vec![0xabu8; 32],
        vec![
            (vec![7u8; 32], 3, vec![9u8; 64], vec![4u8; 65]),
            (vec![], 300, vec![], vec![1, 2, 3]),
        ],
        vec![(5_000_000_000, vec![1u8; 20]), (1, vec![])],
        70_000,
    );
    let standard = bincode::encode_to_vec(&as_tuple, bincode::config::standard()).unwrap();
    assert_eq!(tx.serialize().unwrap(), standard);
}

#[test]
fn transaction_round_trip() {
    let tx = sample_transaction();
    let bytes = tx.serialize().unwrap();
    let back = Transaction::deserialize(&bytes).unwrap();
    assert_eq!(back.get_id(), tx.get_id());
    assert_eq!(back.get_fee(), 70_000);
    assert_eq!(back.get_vin().len(), 2);
    assert_eq!(back.get_vin()[0].get_txid(), &[7u8; 32][..]);
    assert_eq!(back.get_vin()[0].get_vout(), 3);
    assert_eq!(back.get_vin()[0].get_signature(), &[9u8; 64][..]);
    assert_eq!(back.get_vin()[1].get_vout(), 300);
    assert_eq!(back.get_vin()[1].get_pub_key(), &[1, 2, 3][..]);
    assert_eq!(back.get_vout().len(), 2);
    assert_eq!(back.get_vout()[0].get_value(), 5_000_000_000);
    assert_eq!(back.get_vout()[0].get_pub_key_hash(), &[1u8; 20][..]);
    assert_eq!(back.serialize().unwrap(), bytes);
    // what follows a transaction is ignored
    let mut longer = bytes.clone();
    longer.extend_from_slice(&[1, 2, 3]);
    assert_eq!(Transaction::deserialize(&longer).unwrap().serialize().unwrap(), bytes);
    // a transaction that is cut short is none
    assert!(matches!(
        Transaction::deserialize(&bytes[..bytes.len() - 1]),
        Err(BlockchainError::Serialization(_))
    ));
    // equal values give equal bytes
    assert_eq!(sample_transaction().serialize().unwrap(), bytes);
    assert_eq!(tx.clone().serialize().unwrap(), bytes);
}

#[test]
fn block_round_trip() {
    let tx = sample_transaction();
    let block = Block::from_parts(
        -5,
        "None".to_string(),
        "00ab".to_string(),
        vec![tx.clone(), tx],
        i64::MAX,
        77,
        12,
        vec![3u8; 32],
    );
    let bytes = block.serialize().unwrap();
    assert_eq!(block.get_block_size().unwrap(), bytes.len());
    let back = Block::deserialize(&bytes).unwrap();
    assert_eq!(back.get_timestamp(), -5);
    assert_eq!(back.get_pre_block_hash(), "None");
    assert_eq!(back.get_hash(), "00ab");
    assert_eq!(back.get_hash_bytes(), b"00ab".to_vec());
    assert_eq!(back.get_transactions().len(), 2);
    assert_eq!(back.get_nonce(), i64::MAX);
    assert_eq!(back.get_height(), 77);
    assert_eq!(back.get_difficulty(), 12);
    assert_eq!(back.get_merkle_root(), &[3u8; 32][..]);
    assert_eq!(back.serialize().unwrap(), bytes);
    assert!(matches!(
        Block::deserialize(&bytes[..bytes.len() - 1]),
        Err(BlockchainError::Serialization(_))
    ));

    let tx_tuple: (
        Vec<u8>,
        Vec<(Vec<u8>, usize, Vec<u8>, Vec<u8>)>,
        Vec<(u64, Vec<u8>)>,
        u64,
    ) = (
        vec![0xabu8; 32],
        vec![
            (vec![7u8; 32], 3, vec![9u8; 64], vec![4u8; 65]),
            (vec![], 300, vec![], vec![1, 2, 3]),
        ],
        vec![(5_000_000_000, vec![1u8; 20]), (1, vec![])],
        70_000,
    );
    let as_tuple = (
        -5i64,
        "None".to_string(),
        "00ab".to_string(),
        vec![tx_tuple.clone(), tx_tuple],
        i64::MAX,
        77usize,
        12u32,
        vec![3u8; 32],
    );
    let standard = bincode::encode_to_vec(&as_tuple, bincode::config::standard()).unwrap();
    assert_eq!(bytes, standard);
}

#[test]
fn big_endian_bytes() {
    let mut out = Vec::new();
    push_u64_be(0x0102_0304_0506_0708, &mut out);
    assert_eq!(out, 0x0102_0304_0506_0708u64.to_be_bytes());
    let mut out = Vec::new();
    push_u32_be(0xdead_beef, &mut out);
    assert_eq!(out, 0xdead_beefu32.to_be_bytes());
    for n in [0i64, 1, -1, i64::MAX, i64::MIN, 1_700_000_000_000] {
        let mut out = Vec::new();
        push_i64_be(n, &mut out);
        assert_eq!(out, n.to_be_bytes());
    }
}

#[test]
fn the_wallets_are_written_as_the_standard_format_writes_them() {
    let mut wallets = Wallets::new();
    let address = wallets.create_wallet().unwrap();
    let wallet = wallets.get_wallet(&address).unwrap();
    let mut map = std::collections::HashMap::new();
    map.insert(
        address.clone(),
        (wallet.get_pkcs8().to_vec(), wallet.get_public_key().to_vec()),
    );
    assert_eq!(
        wallets.encoded(),
        bincode::encode_to_vec(&map, bincode::config::standard()).unwrap()
    );

    let texts = vec!["one".to_string(), String::new(), "drei".to_string()];
    let mut bytes = vec![0xffu8];
    encode_texts(&texts, &mut bytes);
    assert_eq!(
        bytes[1..],
        bincode::encode_to_vec(&texts, bincode::config::standard()).unwrap()[..]
    );
    assert_eq!(decode_texts(&bytes, 1), Some((texts.clone(), bytes.len())));
    assert_eq!(decode_texts(&bytes[..bytes.len() - 1], 1), None);

    let data = EncryptedWalletData {
        ciphertext: vec![1, 2, 3],
        nonce: vec![4; 12],
        salt: vec![5; 32],
        wallet_count: 300,
        addresses: texts,
        created_at: 1_700_000_000,
        modified_at: 1_700_000_001,
    };
    let as_tuple = (
        data.ciphertext.clone(),
        data.nonce.clone(),
        data.salt.clone(),
        data.wallet_count,
        data.addresses.clone(),
        data.created_at,
        data.modified_at,
    );
    assert_eq!(
        data.encoded(),
        bincode::encode_to_vec(&as_tuple, bincode::config::standard()).unwrap()
    );
    let back = EncryptedWalletData::decode(&data.encoded()).unwrap();
    assert_eq!(back.wallet_count, 300);
    assert_eq!(back.addresses, data.addresses);
    assert_eq!(back.modified_at, 1_700_000_001);
}
