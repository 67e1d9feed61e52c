use srt::serialization::{
    join_with_commas, matrices_encoded_size, u32s_to_le_bytes, write_matrixes_to_buffer,
    BufferTooSmall, MatrixData,
};

#[test]
fn u32_little_endian() {
    assert_eq!(u32s_to_le_bytes(&[]), Vec::<u8>::new());
    assert_eq!(
        u32s_to_le_bytes(&[0x0403_0201, 0xffff_ffff, 7]),
        vec![1, 2, 3, 4, 0xff, 0xff, 0xff, 0xff, 7, 0, 0, 0]
    );
    let values = [0u32, 1, 256, 0xdead_beef];
    let bytes = u32s_to_le_bytes(&values);
    for (i, v) in values.iter().enumerate() {
        assert_eq!(u32::from_le_bytes(bytes[4 * i..4 * i + 4].try_into().unwrap()), *v);
    }
}

#[test]
fn comma_separated() {
    assert_eq!(join_with_commas(&vec![]), "");
    assert_eq!(join_with_commas(&vec!["a".to_string()]), "a");
    assert_eq!(
        join_with_commas(&vec!["ab".to_string(), "".to_string(), "c,d".to_string()]),
        "ab,,c,d"
    );
}

#[test]
fn matrices_layout() {
    let matrices = vec![
        MatrixData { width: 2, values: vec![1, 2, 3, 4, 5, 6] },
        MatrixData { width: 1, values: vec![0x0102_0304] },
    ];
    let mut buffer = vec![0xaa; 50];
    let written = write_matrixes_to_buffer(&matrices, &mut buffer).unwrap();
    // 4 (count) + 2 * 8 (dimensions) + 7 * 4 (entries)
    assert_eq!(written, 48);
    let expected: Vec<u8> = vec![
        2, 0, 0, 0, // count
        3, 0, 0, 0, 2, 0, 0, 0, // height 3, width 2
        1, 0, 0, 0, 1, 0, 0, 0, // height 1, width 1
        1, 0, 0, 0, 2, 0, 0, 0, 3, 0, 0, 0, 4, 0, 0, 0, 5, 0, 0, 0, 6, 0, 0, 0,
        4, 3, 2, 1,
    ];
    assert_eq!(&buffer[..48], &expected[..]);
    assert_eq!(&buffer[48..], &[0xaa, 0xaa]);
}

#[test]
fn matrices_buffer_too_small() {
    let matrices = vec![MatrixData { width: 3, values: vec![9; 6] }];
    // 4 + 8 + 6 * 4 = 36 bytes are needed.
    let mut buffer = vec![7u8; 35];
    let result = write_matrixes_to_buffer(&matrices, &mut buffer);
    assert_eq!(result, Err(BufferTooSmall { needed: 36, available: 35 }));
    assert_eq!(buffer, vec![7u8; 35]);
    let mut exact = vec![0u8; 36];
    assert_eq!(write_matrixes_to_buffer(&matrices, &mut exact), Ok(36));
    let mut empty: Vec<u8> = vec![];
    assert_eq!(write_matrixes_to_buffer(&vec![], &mut empty), Err(BufferTooSmall { needed: 4, available: 0 }));
    let mut four = vec![5u8; 4];
    assert_eq!(write_matrixes_to_buffer(&vec![], &mut four), Ok(4));
    assert_eq!(four, vec![0, 0, 0, 0]);
}

#[test]
fn zero_width_matrix_with_small_buffer() {
    let matrices = vec![MatrixData { width: 0, values: vec![] }];
    let mut buffer = vec![3u8; 1];
    assert_eq!(
        write_matrixes_to_buffer(&matrices, &mut buffer),
        Err(BufferTooSmall { needed: 12, available: 1 })
    );
    assert_eq!(buffer, vec![3u8]);
}

#[test]
fn encoded_sizes() {
    assert_eq!(matrices_encoded_size(&vec![]), Some(4));
    let matrices = vec![
        MatrixData { width: 2, values: vec![1, 2, 3, 4] },
        MatrixData { width: 3, values: vec![0; 9] },
    ];
    assert_eq!(matrices_encoded_size(&matrices), Some(4 + 16 + 52));
}
