use aes::AESBlock;
use aes::DecryptedState;
use aes::EncryptedState;

#[test]
fn test_add_roundkey() {
    let aes_block = AESBlock::<DecryptedState>::new(vec![
        0, 1, 2, 3, 4, 5, 6, 7, 8, 9, 10, 11, 12, 13, 14, 15,
    ])
    .unwrap();
    let expected_result: Vec<u8> = vec![0, 3, 6, 11, 8, 4, 5, 2, 15, 0, 1, 6, 3, 15, 13, 11];
    let roundkey: Vec<u8> = vec![0, 2, 4, 8, 12, 1, 3, 5, 7, 9, 11, 13, 15, 2, 3, 4];
    let grid: Vec<u8> = vec![0, 1, 2, 3, 4, 5, 6, 7, 8, 9, 10, 11, 12, 13, 14, 15];
    let result: Vec<u8> = aes_block.add_roundkey(&grid, &roundkey);
    assert_eq!(expected_result, result);
}

#[test]
fn test_shift_row0() {
    let aes_block: AESBlock = AESBlock::<DecryptedState>::new(vec![
        0, 1, 2, 3, 4, 5, 6, 7, 8, 9, 10, 11, 12, 13, 14, 15,
    ])
    .unwrap();
    let expected_result: Vec<u8> = vec![1, 2, 3, 4];
    let row: Vec<u8> = vec![1, 2, 3, 4];
    let result = aes_block.shift_row(&row, &0);
    assert_eq!(expected_result, result);
}

#[test]
fn test_shift_row1() {
    let aes_block: AESBlock = AESBlock::<DecryptedState>::new(vec![
        0, 1, 2, 3, 4, 5, 6, 7, 8, 9, 10, 11, 12, 13, 14, 15,
    ])
    .unwrap();
    let expected_result = vec![2, 3, 4, 1];
    let row = vec![1, 2, 3, 4];
    let result = aes_block.shift_row(&row, &1);
    assert_eq!(expected_result, result);
}

#[test]
fn test_shift_row2() {
    let aes_block: AESBlock = AESBlock::<DecryptedState>::new(vec![
        0, 1, 2, 3, 4, 5, 6, 7, 8, 9, 10, 11, 12, 13, 14, 15,
    ])
    .unwrap();
    let expected_result = vec![3, 4, 1, 2];
    let row = vec![1, 2, 3, 4];
    let result = aes_block.shift_row(&row, &2);
    assert_eq!(expected_result, result);
}

#[test]
fn test_shift_row3() {
    let aes_block: AESBlock = AESBlock::<DecryptedState>::new(vec![
        0, 1, 2, 3, 4, 5, 6, 7, 8, 9, 10, 11, 12, 13, 14, 15,
    ])
    .unwrap();
    let expected_result = vec![4, 1, 2, 3];
    let row = vec![1, 2, 3, 4];
    let result = aes_block.shift_row(&row, &3);
    assert_eq!(expected_result, result);
}

#[test]
fn test_shift_grid() {
    let aes_block: AESBlock = AESBlock::<DecryptedState>::new(vec![
        0, 1, 2, 3, 4, 5, 6, 7, 8, 9, 10, 11, 12, 13, 14, 15,
    ])
    .unwrap();
    let expected_result: Vec<u8> = vec![0, 1, 2, 3, 5, 6, 7, 4, 10, 11, 8, 9, 15, 12, 13, 14];
    let grid: Vec<u8> = vec![0, 1, 2, 3, 4, 5, 6, 7, 8, 9, 10, 11, 12, 13, 14, 15];
    let result: Vec<u8> = aes_block.shift_grid(&grid);
    assert_eq!(expected_result, result);
}

#[test]
fn test_shift_grid_reverse() {
    let aes_block: AESBlock<EncryptedState> = AESBlock::<EncryptedState>::new(vec![
        0, 1, 2, 3, 4, 5, 6, 7, 8, 9, 10, 11, 12, 13, 14, 15,
    ])
    .unwrap();
    let expected_result: Vec<u8> = vec![0, 1, 2, 3, 4, 5, 6, 7, 8, 9, 10, 11, 12, 13, 14, 15];
    let grid: Vec<u8> = vec![0, 1, 2, 3, 5, 6, 7, 4, 10, 11, 8, 9, 15, 12, 13, 14];
    let result: Vec<u8> = aes_block.shift_grid(&grid);
    assert_eq!(expected_result, result);
}

#[test]
fn test_mix_column() {
    let aes_block: AESBlock = AESBlock::<DecryptedState>::new(vec![
        0, 1, 2, 3, 4, 5, 6, 7, 8, 9, 10, 11, 12, 13, 14, 15,
    ])
    .unwrap();
    let expected_result: Vec<u8> = vec![1, 1, 1, 1];
    let data: &[u8] = &[1, 1, 1, 1];
    let result: Vec<u8> = aes_block.mix_column(data);
    assert_eq!(expected_result, result);
}

#[test]
fn test_inverse_mix_column() {
    let aes_block: AESBlock<EncryptedState> = AESBlock::<EncryptedState>::new(vec![
        0, 1, 2, 3, 4, 5, 6, 7, 8, 9, 10, 11, 12, 13, 14, 15,
    ])
    .unwrap();
    let expected_result: Vec<u8> = vec![1, 1, 1, 1];
    let data: &[u8] = &[1, 1, 1, 1];
    let result: Vec<u8> = aes_block.mix_column(data);
    assert_eq!(expected_result, result);
}

#[test]
fn test_mix_column2() {
    let aes_block: AESBlock = AESBlock::<DecryptedState>::new(vec![
        0, 1, 2, 3, 4, 5, 6, 7, 8, 9, 10, 11, 12, 13, 14, 15,
    ])
    .unwrap();
    let expected_result: Vec<u8> = vec![142, 77, 161, 188];
    let data: &[u8] = &[219, 19, 83, 69];
    let result: Vec<u8> = aes_block.mix_column(data);
    assert_eq!(expected_result, result);
}

#[test]
fn test_inverse_mix_column2() {
    let aes_block: AESBlock<EncryptedState> = AESBlock::<EncryptedState>::new(vec![
        0, 1, 2, 3, 4, 5, 6, 7, 8, 9, 10, 11, 12, 13, 14, 15,
    ])
    .unwrap();
    let expected_result: Vec<u8> = vec![219, 19, 83, 69];
    let data: &[u8] = &[142, 77, 161, 188];
    let result: Vec<u8> = aes_block.mix_column(data);
    assert_eq!(expected_result, result);
}

#[test]
fn test_mix_column3() {
    let aes_block: AESBlock = AESBlock::<DecryptedState>::new(vec![
        0, 1, 2, 3, 4, 5, 6, 7, 8, 9, 10, 11, 12, 13, 14, 15,
    ])
    .unwrap();
    let expected_result: Vec<u8> = vec![159, 220, 88, 157];
    let data: &[u8] = &[242, 10, 34, 92];
    let result: Vec<u8> = aes_block.mix_column(data);
    assert_eq!(expected_result, result);
}

#[test]
fn test_inverse_mix_column3() {
    let aes_block: AESBlock<EncryptedState> = AESBlock::<EncryptedState>::new(vec![
        0, 1, 2, 3, 4, 5, 6, 7, 8, 9, 10, 11, 12, 13, 14, 15,
    ])
    .unwrap();
    let expected_result: Vec<u8> = vec![242, 10, 34, 92];
    let data: &[u8] = &[159, 220, 88, 157];
    let result: Vec<u8> = aes_block.mix_column(data);
    assert_eq!(expected_result, result);
}

#[test]
fn test_mix_columns() {
    let aes_block: AESBlock = AESBlock::<DecryptedState>::new(vec![
        0, 1, 2, 3, 4, 5, 6, 7, 8, 9, 10, 11, 12, 13, 14, 15,
    ])
    .unwrap();
    let expected_result: Vec<u8> = vec![1, 1, 1, 1, 1, 1, 1, 1, 1, 1, 1, 1, 1, 1, 1, 1];
    let grid: Vec<u8> = vec![1, 1, 1, 1, 1, 1, 1, 1, 1, 1, 1, 1, 1, 1, 1, 1];
    let result: Vec<u8> = aes_block.mix_columns(&grid);
    assert_eq!(expected_result, result);
}

#[test]
fn test_inverse_mix_columns() {
    let aes_block: AESBlock<EncryptedState> = AESBlock::<EncryptedState>::new(vec![
        0, 1, 2, 3, 4, 5, 6, 7, 8, 9, 10, 11, 12, 13, 14, 15,
    ])
    .unwrap();
    let expected_result: Vec<u8> = vec![1, 1, 1, 1, 1, 1, 1, 1, 1, 1, 1, 1, 1, 1, 1, 1];
    let grid: Vec<u8> = vec![1, 1, 1, 1, 1, 1, 1, 1, 1, 1, 1, 1, 1, 1, 1, 1];
    let result: Vec<u8> = aes_block.mix_columns(&grid);
    assert_eq!(expected_result, result);
}

#[test]
fn test_mix_columns2() {
    let aes_block: AESBlock = AESBlock::<DecryptedState>::new(vec![
        0, 1, 2, 3, 4, 5, 6, 7, 8, 9, 10, 11, 12, 13, 14, 15,
    ])
    .unwrap();
    let expected_result: Vec<u8> = vec![
        142, 159, 1, 198, 77, 220, 1, 198, 161, 88, 1, 198, 188, 157, 1, 198,
    ];
    let grid: Vec<u8> = vec![219, 242, 1, 198, 19, 10, 1, 198, 83, 34, 1, 198, 69, 92, 1, 198];
    let result: Vec<u8> = aes_block.mix_columns(&grid);
    assert_eq!(expected_result, result);
}

#[test]
fn test_inverse_mix_columns2() {
    let aes_block: AESBlock<EncryptedState> = AESBlock::<EncryptedState>::new(vec![
        0, 1, 2, 3, 4, 5, 6, 7, 8, 9, 10, 11, 12, 13, 14, 15,
    ])
    .unwrap();
    let expected_result: Vec<u8> = vec![
        219, 242, 1, 198, 19, 10, 1, 198, 83, 34, 1, 198, 69, 92, 1, 198,
    ];
    let grid: Vec<u8> = vec![142, 159, 1, 198, 77, 220, 1, 198, 161, 88, 1, 198, 188, 157, 1, 198];
    let result: Vec<u8> = aes_block.mix_columns(&grid);
    assert_eq!(expected_result, result);
}

#[test]
fn test_sub_bytes() {
    let aes_block: AESBlock = AESBlock::<DecryptedState>::new(vec![
        0, 1, 2, 3, 4, 5, 6, 7, 8, 9, 10, 11, 12, 13, 14, 15,
    ])
    .unwrap();
    let expected_result: Vec<u8> = vec![
        185, 137, 124, 180, 125, 103, 124, 180, 237, 147, 124, 180, 110, 74, 124, 180,
    ];
    let grid: Vec<u8> = vec![219, 242, 1, 198, 19, 10, 1, 198, 83, 34, 1, 198, 69, 92, 1, 198];
    let result: Vec<u8> = aes_block.sub_bytes(&grid);
    assert_eq!(expected_result, result);
}

#[test]
fn test_sub_bytes_inverse() {
    let aes_block: AESBlock<EncryptedState> = AESBlock::<EncryptedState>::new(vec![
        0, 1, 2, 3, 4, 5, 6, 7, 8, 9, 10, 11, 12, 13, 14, 15,
    ])
    .unwrap();
    let expected_result: Vec<u8> = vec![
        219, 242, 1, 198, 19, 10, 1, 198, 83, 34, 1, 198, 69, 92, 1, 198,
    ];
    let grid: Vec<u8> = vec![
        185, 137, 124, 180, 125, 103, 124, 180, 237, 147, 124, 180, 110, 74, 124, 180,
    ];
    let result: Vec<u8> = aes_block.sub_bytes(&grid);
    assert_eq!(expected_result, result);
}

#[test]
fn test_encrypt() {
    let aes_block: AESBlock = AESBlock::<DecryptedState>::new(vec![
        0, 1, 2, 3, 4, 5, 6, 7, 8, 9, 10, 11, 12, 13, 14, 15,
    ])
    .unwrap();
    let roundkeys: Vec<Vec<u8>> = vec![
        vec![0, 2, 4, 8, 12, 1, 3, 5, 7, 9, 11, 13, 15, 2, 3, 4],
        vec![0, 2, 4, 8, 12, 1, 3, 5, 7, 9, 11, 13, 15, 2, 3, 4],
        vec![0, 2, 4, 8, 12, 1, 3, 5, 7, 9, 11, 13, 15, 2, 3, 4],
        vec![0, 2, 4, 8, 12, 1, 3, 5, 7, 9, 11, 13, 15, 2, 3, 4],
        vec![0, 2, 4, 8, 12, 1, 3, 5, 7, 9, 11, 13, 15, 2, 3, 4],
        vec![0, 2, 4, 8, 12, 1, 3, 5, 7, 9, 11, 13, 15, 2, 3, 4],
        vec![0, 2, 4, 8, 12, 1, 3, 5, 7, 9, 11, 13, 15, 2, 3, 4],
        vec![0, 2, 4, 8, 12, 1, 3, 5, 7, 9, 11, 13, 15, 2, 3, 4],
        vec![0, 2, 4, 8, 12, 1, 3, 5, 7, 9, 11, 13, 15, 2, 3, 4],
        vec![0, 2, 4, 8, 12, 1, 3, 5, 7, 9, 11, 13, 15, 2, 3, 4],
        vec![0, 2, 4, 8, 12, 1, 3, 5, 7, 9, 11, 13, 15, 2, 3, 4],
    ];
    let result: AESBlock<EncryptedState> = aes_block.encrypt(&roundkeys).unwrap();
    let expected_result: Vec<u8> = vec![
        128, 249, 176, 188, 201, 213, 195, 110, 192, 161, 230, 165, 31, 182, 33, 44,
    ];
    assert_eq!(&expected_result, result.bytes());
}

#[test]
fn test_decrypt() {
    let aes_block: AESBlock<EncryptedState> = AESBlock::<EncryptedState>::new(vec![
        128, 249, 176, 188, 201, 213, 195, 110, 192, 161, 230, 165, 31, 182, 33, 44,
    ])
    .unwrap();
    let roundkeys: Vec<Vec<u8>> = vec![
        vec![0, 2, 4, 8, 12, 1, 3, 5, 7, 9, 11, 13, 15, 2, 3, 4],
        vec![0, 2, 4, 8, 12, 1, 3, 5, 7, 9, 11, 13, 15, 2, 3, 4],
        vec![0, 2, 4, 8, 12, 1, 3, 5, 7, 9, 11, 13, 15, 2, 3, 4],
        vec![0, 2, 4, 8, 12, 1, 3, 5, 7, 9, 11, 13, 15, 2, 3, 4],
        vec![0, 2, 4, 8, 12, 1, 3, 5, 7, 9, 11, 13, 15, 2, 3, 4],
        vec![0, 2, 4, 8, 12, 1, 3, 5, 7, 9, 11, 13, 15, 2, 3, 4],
        vec![0, 2, 4, 8, 12, 1, 3, 5, 7, 9, 11, 13, 15, 2, 3, 4],
        vec![0, 2, 4, 8, 12, 1, 3, 5, 7, 9, 11, 13, 15, 2, 3, 4],
        vec![0, 2, 4, 8, 12, 1, 3, 5, 7, 9, 11, 13, 15, 2, 3, 4],
        vec![0, 2, 4, 8, 12, 1, 3, 5, 7, 9, 11, 13, 15, 2, 3, 4],
        vec![0, 2, 4, 8, 12, 1, 3, 5, 7, 9, 11, 13, 15, 2, 3, 4],
    ];
    let result: AESBlock<DecryptedState> = aes_block.decrypt(&roundkeys).unwrap();
    let expected_result: Vec<u8> = vec![0, 1, 2, 3, 4, 5, 6, 7, 8, 9, 10, 11, 12, 13, 14, 15];
    assert_eq!(&expected_result, result.bytes());
}
