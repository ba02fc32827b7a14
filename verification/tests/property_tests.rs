use aes::AESBlock;
use aes::AESData;
use aes::AESError;
use aes::DecryptedState;
use aes::EncryptedState;

fn sample_schedule() -> Vec<Vec<u8>> {
    let key: Vec<u8> = (0u8..16).collect();
    AESData::<DecryptedState>::generate_roundkeys(&key)
}

#[test]
fn multiply_identity_all_bytes() {
    let block = AESBlock::<DecryptedState>::new(vec![0; 16]).unwrap();
    for a in 0u8..=255 {
        assert_eq!(block.multiply(a, 1), a);
        assert_eq!(block.multiply(a, 0), 0);
    }
}

#[test]
fn multiply_known_products() {
    let block = AESBlock::<DecryptedState>::new(vec![0; 16]).unwrap();
    assert_eq!(block.multiply(0x02, 0xdb), 0xad);
    assert_eq!(block.multiply(0x03, 0xf2), 0x0d);
    assert_eq!(block.multiply(0x53, 0xca), 0x01);
}

#[test]
fn block_round_trip_samples() {
    let roundkeys = sample_schedule();
    for seed in 0u8..8 {
        let data: Vec<u8> = (0u8..16).map(|i| i.wrapping_mul(31).wrapping_add(seed)).collect();
        let block = AESBlock::<DecryptedState>::new(data.clone()).unwrap();
        let encrypted = block.encrypt(&roundkeys).unwrap();
        assert_ne!(&data, encrypted.bytes());
        let decrypted = encrypted.decrypt(&roundkeys).unwrap();
        assert_eq!(&data, decrypted.bytes());
    }
}

#[test]
fn encrypt_is_deterministic() {
    let roundkeys = sample_schedule();
    let data: Vec<u8> = (100u8..116).collect();
    let first = AESBlock::<DecryptedState>::new(data.clone()).unwrap().encrypt(&roundkeys).unwrap();
    let second = AESBlock::<DecryptedState>::new(data.clone()).unwrap().encrypt(&roundkeys).unwrap();
    assert_eq!(first.bytes(), second.bytes());
    let msg: Vec<u8> = (0u8..50).collect();
    let once = AESData::<DecryptedState>::new(msg.clone()).encrypt(&roundkeys).unwrap();
    let twice = AESData::<DecryptedState>::new(msg).encrypt(&roundkeys).unwrap();
    assert_eq!(once.bytes(), twice.bytes());
}

#[test]
fn block_rejects_wrong_length() {
    assert_eq!(
        AESBlock::<DecryptedState>::new(vec![0; 15]).unwrap_err(),
        AESError::InvalidBlockLength
    );
    assert_eq!(
        AESBlock::<EncryptedState>::new(vec![0; 17]).unwrap_err(),
        AESError::InvalidBlockLength
    );
    assert!(AESBlock::<DecryptedState>::new(vec![0; 16]).is_ok());
}

#[test]
fn block_rejects_short_schedule() {
    let block = AESBlock::<DecryptedState>::new(vec![0; 16]).unwrap();
    let one_key: Vec<Vec<u8>> = vec![vec![0; 16]];
    assert_eq!(block.encrypt(&one_key).unwrap_err(), AESError::ShortSchedule);
    let bad_key_len: Vec<Vec<u8>> = vec![vec![0; 16], vec![0; 15]];
    assert_eq!(block.encrypt(&bad_key_len).unwrap_err(), AESError::ShortSchedule);
    let cipher = AESBlock::<EncryptedState>::new(vec![0; 16]).unwrap();
    assert_eq!(cipher.decrypt(&one_key).unwrap_err(), AESError::ShortSchedule);
}

#[test]
fn encode_rejects_empty_message() {
    let roundkeys = sample_schedule();
    let empty = AESData::<DecryptedState>::new(Vec::new());
    assert_eq!(empty.encrypt(&roundkeys).unwrap_err(), AESError::EmptyMessage);
}

#[test]
fn encode_rejects_short_schedule() {
    let one_key: Vec<Vec<u8>> = vec![vec![0; 16]];
    let data = AESData::<DecryptedState>::new(vec![1, 2, 3]);
    assert_eq!(data.encrypt(&one_key).unwrap_err(), AESError::ShortSchedule);
}

#[test]
fn decode_rejects_bad_lengths() {
    let roundkeys = sample_schedule();
    let empty = AESData::<EncryptedState>::new(Vec::new());
    assert_eq!(empty.decrypt(&roundkeys).unwrap_err(), AESError::InvalidBlockLength);
    let ragged = AESData::<EncryptedState>::new(vec![0; 20]);
    assert_eq!(ragged.decrypt(&roundkeys).unwrap_err(), AESError::InvalidBlockLength);
    let one_key: Vec<Vec<u8>> = vec![vec![0; 16]];
    let aligned = AESData::<EncryptedState>::new(vec![0; 32]);
    assert_eq!(aligned.decrypt(&one_key).unwrap_err(), AESError::ShortSchedule);
}

#[test]
fn substitution_tables_are_inverse() {
    let forward = AESBlock::<DecryptedState>::new(vec![0; 16]).unwrap();
    let backward = AESBlock::<EncryptedState>::new(vec![0; 16]).unwrap();
    let all_bytes: Vec<u8> = (0u8..=255).collect();
    let substituted = forward.sub_bytes(&all_bytes);
    assert_ne!(all_bytes, substituted);
    let recovered = backward.sub_bytes(&substituted);
    assert_eq!(all_bytes, recovered);
}

#[test]
fn zero_key_expansion_second_entry() {
    let roundkeys = AESData::<DecryptedState>::generate_roundkeys(&[0u8; 16]);
    let expected: Vec<u8> = vec![
        0x62, 0x63, 0x63, 0x63, 0x62, 0x63, 0x63, 0x63, 0x62, 0x63, 0x63, 0x63, 0x62, 0x63, 0x63,
        0x63,
    ];
    assert_eq!(roundkeys[1], expected);
}
