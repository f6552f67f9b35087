use nvme::wire::{
    le_array, read_array, read_le, read_u128, read_u16, read_u16s, read_u32, read_u32s, read_u64,
    u16_of, u32_of, u64_of, u8_of,
};

#[test]
fn numbers_are_read_low_byte_first() {
    let bytes: Vec<u8> = (1u8..=20).collect();
    assert_eq!(read_le(&bytes, 0, 0), 0);
    assert_eq!(read_le(&bytes, 20, 0), 0);
    assert_eq!(read_le(&bytes, 0, 1), 0x01);
    assert_eq!(read_le(&bytes, 3, 3), 0x06_05_04);
    assert_eq!(read_u16(&bytes, 0), 0x0201);
    assert_eq!(read_u16(&bytes, 18), 0x1413);
    assert_eq!(read_u32(&bytes, 1), 0x0504_0302);
    assert_eq!(read_u64(&bytes, 2), 0x0a09_0807_0605_0403);
    assert_eq!(read_u128(&bytes, 4), 0x1413_1211_100f_0e0d_0c0b_0a09_0807_0605);
    assert_eq!(read_le(&bytes, 4, 16), 0x1413_1211_100f_0e0d_0c0b_0a09_0807_0605);
    assert_eq!(read_u128(&[0xff; 16], 0), u128::MAX);
}

#[test]
fn reading_agrees_with_the_standard_conversions() {
    let bytes: Vec<u8> = (0..64u32).map(|i| (i * 37 + 11) as u8).collect();
    for at in 0..48 {
        assert_eq!(read_u16(&bytes, at), u16::from_le_bytes([bytes[at], bytes[at + 1]]));
        let mut four = [0u8; 4];
        four.copy_from_slice(&bytes[at..at + 4]);
        assert_eq!(read_u32(&bytes, at), u32::from_le_bytes(four));
        assert_eq!(u32_of(four), u32::from_le_bytes(four));
        let mut eight = [0u8; 8];
        eight.copy_from_slice(&bytes[at..at + 8]);
        assert_eq!(read_u64(&bytes, at), u64::from_le_bytes(eight));
        assert_eq!(u64_of(eight), u64::from_le_bytes(eight));
        let mut sixteen = [0u8; 16];
        sixteen.copy_from_slice(&bytes[at..at + 16]);
        assert_eq!(read_u128(&bytes, at), u128::from_le_bytes(sixteen));
    }
    assert_eq!(u8_of([0xab]), 0xab);
    assert_eq!(u16_of([0x34, 0x12]), 0x1234);
}

#[test]
fn runs_of_numbers_and_bytes() {
    let bytes: Vec<u8> = (1u8..=20).collect();
    assert_eq!(read_u16s::<3>(&bytes, 1), [0x0302, 0x0504, 0x0706]);
    assert_eq!(read_u32s::<2>(&bytes, 12), [0x100f_0e0d, 0x1413_1211]);
    assert_eq!(read_u16s::<0>(&bytes, 20), []);
    assert_eq!(read_array::<4>(&bytes, 16), [17, 18, 19, 20]);
    assert_eq!(read_array::<0>(&bytes, 20), []);
}

#[test]
fn numbers_are_written_low_byte_first() {
    assert_eq!(le_array::<2>(0x1234), [0x34, 0x12]);
    assert_eq!(le_array::<4>(0xdead_beef), [0xef, 0xbe, 0xad, 0xde]);
    assert_eq!(le_array::<3>(0xdead_beef), [0xef, 0xbe, 0xad]);
    assert_eq!(le_array::<1>(0x1ff), [0xff]);
    assert_eq!(le_array::<0>(7), []);
    assert_eq!(le_array::<16>(u128::MAX), [0xff; 16]);
    for value in [0u64, 1, 0xff, 0x100, 0xdead_beef_cafe_f00d, u64::MAX] {
        assert_eq!(le_array::<8>(value as u128), value.to_le_bytes());
        assert_eq!(u64_of(le_array::<8>(value as u128)), value);
    }
}
