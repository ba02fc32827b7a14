use aes::AESData;
use aes::DecryptedState;
use aes::EncryptedState;

#[test]
fn generate_roundkeys() {
    let init_key: Vec<u8> = vec![
        0x00, 0x00, 0x00, 0x00, 0x00, 0x00, 0x00, 0x00, 0x00, 0x00, 0x00, 0x00, 0x00, 0x00, 0x00,
        0x00,
    ];
    let roundkeys = AESData::<EncryptedState>::generate_roundkeys(&init_key);
    let expected_result: Vec<Vec<u8>> = vec![
        vec![
            0x00, 0x00, 0x00, 0x00, 0x00, 0x00, 0x00, 0x00, 0x00, 0x00, 0x00, 0x00, 0x00, 0x00,
            0x00, 0x00,
        ],
        vec![
            0x62, 0x63, 0x63, 0x63, 0x62, 0x63, 0x63, 0x63, 0x62, 0x63, 0x63, 0x63, 0x62, 0x63,
            0x63, 0x63,
        ],
        vec![
            0x9b, 0x98, 0x98, 0xc9, 0xf9, 0xfb, 0xfb, 0xaa, 0x9b, 0x98, 0x98, 0xc9, 0xf9, 0xfb,
            0xfb, 0xaa,
        ],
        vec![
            0x90, 0x97, 0x34, 0x50, 0x69, 0x6c, 0xcf, 0xfa, 0xf2, 0xf4, 0x57, 0x33, 0x0b, 0x0f,
            0xac, 0x99,
        ],
        vec![
            0xee, 0x06, 0xda, 0x7b, 0x87, 0x6a, 0x15, 0x81, 0x75, 0x9e, 0x42, 0xb2, 0x7e, 0x91,
            0xee, 0x2b,
        ],
        vec![
            0x7f, 0x2e, 0x2b, 0x88, 0xf8, 0x44, 0x3e, 0x09, 0x8d, 0xda, 0x7c, 0xbb, 0xf3, 0x4b,
            0x92, 0x90,
        ],
        vec![
            0xec, 0x61, 0x4b, 0x85, 0x14, 0x25, 0x75, 0x8c, 0x99, 0xff, 0x09, 0x37, 0x6a, 0xb4,
            0x9b, 0xa7,
        ],
        vec![
            0x21, 0x75, 0x17, 0x87, 0x35, 0x50, 0x62, 0x0b, 0xac, 0xaf, 0x6b, 0x3c, 0xc6, 0x1b,
            0xf0, 0x9b,
        ],
        vec![
            0x0e, 0xf9, 0x03, 0x33, 0x3b, 0xa9, 0x61, 0x38, 0x97, 0x06, 0x0a, 0x04, 0x51, 0x1d,
            0xfa, 0x9f,
        ],
        vec![
            0xb1, 0xd4, 0xd8, 0xe2, 0x8a, 0x7d, 0xb9, 0xda, 0x1d, 0x7b, 0xb3, 0xde, 0x4c, 0x66,
            0x49, 0x41,
        ],
        vec![
            0xb4, 0xef, 0x5b, 0xcb, 0x3e, 0x92, 0xe2, 0x11, 0x23, 0xe9, 0x51, 0xcf, 0x6f, 0x8f,
            0x18, 0x8e,
        ],
    ];
    assert_eq!(expected_result, roundkeys);
}

#[test]
fn full_crypt_decrypt() {
    let data = vec![
        0x00, 0x00, 0x01, 0x01, 0x03, 0x03, 0x07, 0x07, 0x0f, 0x0f, 0x1f, 0x1f, 0x3f, 0x3f, 0x7f,
        0x7f,
    ];
    let init_key: Vec<u8> = vec![
        0x00, 0x00, 0x00, 0x00, 0x00, 0x00, 0x00, 0x00, 0x00, 0x00, 0x00, 0x00, 0x00, 0x00, 0x00,
        0x00,
    ];
    let roundkeys = AESData::<EncryptedState>::generate_roundkeys(&init_key);
    let aes_data = AESData::<DecryptedState>::new(data.clone());
    let encrypted = aes_data.encrypt(&roundkeys).unwrap();
    let decrypted = encrypted.decrypt(&roundkeys).unwrap();
    assert_eq!(&data, decrypted.bytes());
}

#[test]
fn round_trip_one_byte() {
    let data = vec![0x41];
    let key: Vec<u8> = vec![9, 8, 7, 6, 5, 4, 3, 2, 1, 0, 1, 2, 3, 4, 5, 6];
    let roundkeys = AESData::<DecryptedState>::generate_roundkeys(&key);
    let encrypted = AESData::<DecryptedState>::new(data.clone()).encrypt(&roundkeys).unwrap();
    // one byte of message plus 31 bytes of padding: two blocks of ciphertext
    assert_eq!(encrypted.bytes().len(), 32);
    let decrypted = AESData::<EncryptedState>::new(encrypted.bytes().clone())
        .decrypt(&roundkeys)
        .unwrap();
    assert_eq!(&data, decrypted.bytes());
}

#[test]
fn round_trip_block_aligned() {
    // an aligned message still gains a full 32 bytes of padding
    let data: Vec<u8> = (0u8..32).collect();
    let key: Vec<u8> = vec![1; 16];
    let roundkeys = AESData::<DecryptedState>::generate_roundkeys(&key);
    let encrypted = AESData::<DecryptedState>::new(data.clone()).encrypt(&roundkeys).unwrap();
    assert_eq!(encrypted.bytes().len(), 64);
    let decrypted = AESData::<EncryptedState>::new(encrypted.bytes().clone())
        .decrypt(&roundkeys)
        .unwrap();
    assert_eq!(&data, decrypted.bytes());
}

#[test]
fn round_trip_unaligned_lengths() {
    let key: Vec<u8> = vec![42; 16];
    let roundkeys = AESData::<DecryptedState>::generate_roundkeys(&key);
    for len in [1usize, 2, 15, 16, 17, 31, 33, 100] {
        let data: Vec<u8> = (0..len).map(|i| (i * 7 + 3) as u8).collect();
        let encrypted = AESData::<DecryptedState>::new(data.clone()).encrypt(&roundkeys).unwrap();
        assert_eq!(encrypted.bytes().len() % 16, 0);
        let decrypted = AESData::<EncryptedState>::new(encrypted.bytes().clone())
            .decrypt(&roundkeys)
            .unwrap();
        assert_eq!(&data, decrypted.bytes());
    }
}

#[test]
fn round_trip_message_ending_near_sentinel() {
    // bytes equal to the sentinel inside the message do not confuse the
    // decoder: the run stops at the message's last byte
    let data = vec![1, 1, 1, 0];
    let key: Vec<u8> = vec![3; 16];
    let roundkeys = AESData::<DecryptedState>::generate_roundkeys(&key);
    let encrypted = AESData::<DecryptedState>::new(data.clone()).encrypt(&roundkeys).unwrap();
    let decrypted = AESData::<EncryptedState>::new(encrypted.bytes().clone())
        .decrypt(&roundkeys)
        .unwrap();
    assert_eq!(&data, decrypted.bytes());
}

#[test]
fn roundkeys_always_eleven() {
    for seed in 0u8..8 {
        let key: Vec<u8> = (0u8..16).map(|i| i.wrapping_mul(seed).wrapping_add(seed)).collect();
        let roundkeys = AESData::<DecryptedState>::generate_roundkeys(&key);
        assert_eq!(roundkeys.len(), 11);
        for rk in &roundkeys {
            assert_eq!(rk.len(), 16);
        }
        assert_eq!(roundkeys[0], key);
    }
}

#[test]
fn generate_key_pads_and_truncates() {
    let short = aes::generate_key(b"abc");
    assert_eq!(short.len(), 16);
    assert_eq!(&short[..3], b"abc");
    assert_eq!(&short[3..], &[0u8; 13]);
    let long = aes::generate_key(b"a password that is longer than sixteen bytes");
    assert_eq!(long.len(), 16);
    assert_eq!(&long[..], b"a password that ");
}
