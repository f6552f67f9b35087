use nvme::bitfield::{get_field, get_flag, put_field, with_field, with_flag};

#[test]
fn get_field_reads_the_bits_of_the_field() {
    assert_eq!(get_field(0x2e, 1, 8), 0x17);
    assert_eq!(get_field(0xdead_beef_cafe_f00d, 0, 64), 0xdead_beef_cafe_f00d);
    assert_eq!(get_field(0xdead_beef_cafe_f00d, 0, 16), 0xf00d);
    assert_eq!(get_field(0xdead_beef_cafe_f00d, 16, 16), 0xcafe);
    assert_eq!(get_field(0xdead_beef_cafe_f00d, 32, 32), 0xdead_beef);
    assert_eq!(get_field(0xdead_beef_cafe_f00d, 60, 4), 0xd);
    assert_eq!(get_field(0xdead_beef_cafe_f00d, 63, 1), 1);
    assert_eq!(get_field(0xdead_beef_cafe_f00d, 4, 8), 0x00);
    assert_eq!(get_field(u64::MAX, 17, 0), 0);
    assert_eq!(get_field(u64::MAX, 64, 0), 0);
    assert_eq!(get_field(0b1011_0100, 2, 3), 0b101);
}

#[test]
fn bits_past_the_end_read_as_zeros() {
    assert_eq!(get_field(u64::MAX, 60, 8), 0xf);
    assert_eq!(get_field(u64::MAX, 1, 64), u64::MAX >> 1);
    assert_eq!(get_field(u64::MAX, 63, u32::MAX), 1);
    assert_eq!(get_field(u64::MAX, 64, 1), 0);
    assert_eq!(get_field(u64::MAX, 70, 3), 0);
    assert_eq!(get_field(u64::MAX, u32::MAX, u32::MAX), 0);
    assert!(!get_flag(u64::MAX, 64));
    assert!(!get_flag(u64::MAX, u32::MAX));
}

#[test]
fn with_field_replaces_the_bits_of_the_field() {
    assert_eq!(with_field(0, 12, 2, 3), Ok(0x3000));
    assert_eq!(with_field(0xffff, 12, 2, 1), Ok(0xdfff));
    assert_eq!(with_field(0xdead_beef_cafe_f00d, 16, 16, 0x1234), Ok(0xdead_beef_1234_f00d));
    assert_eq!(with_field(0xdead_beef_cafe_f00d, 0, 64, 7), Ok(7));
    assert_eq!(with_field(0xdead_beef_cafe_f00d, 63, 1, 0), Ok(0x5ead_beef_cafe_f00d));
    assert_eq!(with_field(0xdead_beef_cafe_f00d, 9, 0, 0), Ok(0xdead_beef_cafe_f00d));
    assert_eq!(with_field(0xdead_beef_cafe_f00d, 64, 0, 0), Ok(0xdead_beef_cafe_f00d));
}

#[test]
fn with_field_rejects_a_value_that_is_too_wide() {
    assert_eq!(with_field(0, 12, 2, 4), Err(4));
    assert_eq!(with_field(0, 12, 2, 5), Err(5));
    assert_eq!(with_field(0xffff, 0, 8, 256), Err(256));
    assert_eq!(with_field(0, 63, 1, 2), Err(2));
    assert_eq!(with_field(0, 5, 0, 1), Err(1));
    assert_eq!(with_field(0, 1, 63, 1 << 63), Err(1 << 63));
    assert_eq!(with_field(0, 0, 64, u64::MAX), Ok(u64::MAX));
}

#[test]
fn a_field_reads_back_what_was_written_and_the_rest_stays() {
    let backings = [0u64, u64::MAX, 0xdead_beef_cafe_f00d, 0x0123_4567_89ab_cdef];
    for backing in backings {
        for offset in 0u32..64 {
            for width in 1u32..=8 {
                if offset + width > 64 {
                    continue;
                }
                for value in [0u64, 1, (1 << width) - 1, 0x55 & ((1 << width) - 1)] {
                    let changed = with_field(backing, offset, width, value).unwrap();
                    assert_eq!(get_field(changed, offset, width), value);
                    for bit in 0u32..64 {
                        if bit < offset || bit >= offset + width {
                            assert_eq!(get_flag(changed, bit), get_flag(backing, bit));
                        }
                    }
                    assert_eq!(put_field(backing, offset, width, value), changed);
                }
            }
        }
    }
}

#[test]
fn writing_back_what_a_field_holds_changes_nothing() {
    let backing = 0x0123_4567_89ab_cdefu64;
    for offset in 0u32..=64 {
        for width in 0u32..=(64 - offset) {
            let held = get_field(backing, offset, width);
            assert_eq!(with_field(backing, offset, width, held), Ok(backing));
        }
    }
}

#[test]
fn flags_are_fields_of_one_bit() {
    assert!(get_flag(0b100, 2));
    assert!(!get_flag(0b100, 1));
    assert!(get_flag(1 << 63, 63));
    assert_eq!(with_flag(0, 3, true), 0b1000);
    assert_eq!(with_flag(0xff, 3, false), 0xf7);
    assert_eq!(with_flag(0xff, 3, true), 0xff);
    assert_eq!(with_flag(0, 63, true), 1 << 63);
    for offset in 0u32..64 {
        assert_eq!(get_flag(with_flag(0, offset, true), offset), true);
        assert_eq!(get_flag(with_flag(u64::MAX, offset, false), offset), false);
        assert_eq!(get_field(u64::MAX, offset, 1), 1);
    }
}
