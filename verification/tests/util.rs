use nvme::{
    BitArray, ErrLogEntry, FixedStr, FromBytes, Records, Reserved, SmartLog, TransmuteSafe,
};
use std::borrow::Cow;
use std::mem;

#[test]
fn fixed_str_rejects_a_source_that_is_too_long() {
    assert_eq!(FixedStr::<8>::try_from(&b"123456789"[..]).err(), Some(9));
    assert_eq!(FixedStr::<8>::try_from(&[0u8; 300][..]).err(), Some(300));
    assert_eq!(FixedStr::<0>::try_from(&b"x"[..]).err(), Some(1));
    assert_eq!(FixedStr::<8>::try_from("123456789".to_string()).err(), Some(9));
    // four characters, but nine bytes
    assert_eq!(FixedStr::<8>::try_from("a\u{20ac}\u{20ac}zz".to_string()).err(), Some(9));
}

#[test]
fn fixed_str_of_full_length_reads_back_as_the_source() {
    let held = FixedStr::<8>::try_from(&b"12345678"[..]).unwrap();
    assert_eq!(held.as_bytes(), b"12345678");
    assert_eq!(held.to_string_lossy(), "12345678");
    assert_eq!(String::from(held), "12345678");

    let text = "a\u{20ac}\u{20ac}z".to_string();
    assert_eq!(text.len(), 8);
    let held = FixedStr::<8>::try_from(text.clone()).unwrap();
    assert_eq!(held.to_string_lossy(), text);
    assert_eq!(String::from(held), text);

    let held = FixedStr::<0>::try_from(&b""[..]).unwrap();
    assert_eq!(held.to_string_lossy(), "");
}

#[test]
fn fixed_str_of_shorter_text_reads_back_as_the_source() {
    let held = FixedStr::<8>::try_from(&b"abc"[..]).unwrap();
    assert_eq!(held.to_string_lossy(), "abc");
    assert_eq!(String::from(held), "abc");
    assert_eq!(held.as_bytes(), b"abc\0\0\0\0\0");
    assert!(matches!(held.to_string_lossy(), Cow::Borrowed("abc")));

    let held = FixedStr::<4>::try_from(String::new()).unwrap();
    assert_eq!(held.as_bytes(), [0, 0, 0, 0]);
    assert_eq!(held.to_string_lossy(), "");
    assert_eq!(String::from(held), "");

    // text that ends in blanks keeps them, and so does text with a NUL inside
    let held = FixedStr::<8>::try_from("ab  ".to_string()).unwrap();
    assert_eq!(held.to_string_lossy(), "ab  ");
    let held = FixedStr::<8>::try_from(&b"a\0b"[..]).unwrap();
    assert_eq!(held.to_string_lossy(), "a\0b");

    // every text that fits and does not end in NUL comes back as it went in
    for text in ["", "a", "\u{20ac}", "a\u{20ac}b", "\u{10ffff}", "\u{7ff}\u{800}", "1234567", "12345678"] {
        let held = FixedStr::<8>::try_from(text.to_string()).unwrap();
        assert_eq!(held.to_string_lossy(), text);
        let held = FixedStr::<8>::try_from(text.as_bytes()).unwrap();
        assert_eq!(String::from(held), text);
    }
}

#[test]
fn fixed_str_cannot_tell_a_last_nul_from_padding() {
    let held = FixedStr::<8>::try_from(&b"ab\0\0"[..]).unwrap();
    assert_eq!(held.to_string_lossy(), "ab");
    let held = FixedStr::<4>::try_from("ab\0\0".to_string()).unwrap();
    assert_eq!(held.to_string_lossy(), "ab");
    assert_eq!(held.as_bytes(), b"ab\0\0");
}

#[test]
fn fixed_str_shows_what_is_not_text_as_the_replacement_character() {
    let held = FixedStr::<2>::try_from(&[0x41u8, 0xff][..]).unwrap();
    assert_eq!(held.to_string_lossy(), "A\u{fffd}");
    assert_eq!(held.as_bytes(), [0x41, 0xff]);
    let held = FixedStr::<4>::try_from(&[0x41u8, 0xff][..]).unwrap();
    assert_eq!(held.to_string_lossy(), "A\u{fffd}");
    let held = FixedStr::from_array([b'o', b'k', 0xff, b'!']);
    assert_eq!(held.to_string_lossy(), "ok\u{fffd}!");
    assert!(matches!(held.to_string_lossy(), Cow::Owned(_)));
    assert_eq!(String::from(held), "ok\u{fffd}!");
    // every ill-formed byte at the end shows
    assert_eq!(FixedStr::from_array([b'a', 0xff, 0xff]).to_string_lossy(), "a\u{fffd}\u{fffd}");
    assert_eq!(FixedStr::from_array([0xff, 0xff]).to_string_lossy(), "\u{fffd}\u{fffd}");
    assert_eq!(FixedStr::from_array([b'a', 0xff, 0x00]).to_string_lossy(), "a\u{fffd}");
    // a sequence that is cut short
    let held = FixedStr::from_array([0xe2, 0x82, b'a']);
    assert_eq!(held.to_string_lossy(), "\u{fffd}a");
    assert_eq!(FixedStr::from_array([b'a', 0xe2, 0x82]).to_string_lossy(), "a\u{fffd}");
    // well-formed text is borrowed
    let held = FixedStr::from_array(*b"plain");
    assert!(matches!(held.to_string_lossy(), Cow::Borrowed("plain")));
}

#[test]
fn fixed_str_reads_the_text_before_the_padding() {
    assert_eq!(FixedStr::from_array([b'a', 0x00, 0x00]).to_string_lossy(), "a");
    assert_eq!(FixedStr::from_array([0x00, 0x00, 0x00]).to_string_lossy(), "");
    assert_eq!(FixedStr::from_array([0x00, b'a', 0x00]).to_string_lossy(), "\0a");
    assert_eq!(FixedStr::from_array([b'a', b' ', b' ']).to_string_lossy(), "a  ");
    assert_eq!(FixedStr::from_array([]).to_string_lossy(), "");
    assert_eq!(nvme::util::text_before_padding(b"rev 1\0\0\0"), "rev 1");
    assert_eq!(nvme::util::text_before_padding(b"rev 1\xff\0"), "rev 1\u{fffd}");
    assert_eq!(nvme::util::text_before_padding(b""), "");
    assert_eq!(nvme::util::PADDING, 0x00);
}

#[test]
fn primitives_take_exactly_their_bytes() {
    assert_eq!(mem::size_of::<Reserved<7>>(), 7);
    assert_eq!(mem::size_of::<Reserved<448>>(), 448);
    assert_eq!(mem::size_of::<Reserved<0>>(), 0);
    assert_eq!(mem::size_of::<FixedStr<20>>(), 20);
    assert_eq!(mem::size_of::<BitArray<2>>(), 2);
    assert_eq!(mem::align_of::<Reserved<7>>(), 1);
    assert_eq!(mem::align_of::<FixedStr<20>>(), 1);
    assert_eq!(mem::align_of::<BitArray<2>>(), 1);
    let _padding: Reserved<9> = Reserved::default();
}

#[test]
fn bit_array_get_is_absent_past_the_last_bit() {
    let bits = BitArray::from_array([0b0000_0101u8, 0b1000_0000]);
    assert_eq!(bits.get(0), Some(true));
    assert_eq!(bits.get(1), Some(false));
    assert_eq!(bits.get(2), Some(true));
    assert_eq!(bits.get(7), Some(false));
    assert_eq!(bits.get(8), Some(false));
    assert_eq!(bits.get(15), Some(true));
    assert_eq!(bits.get(16), None);
    assert_eq!(bits.get(17), None);
    assert_eq!(bits.get(usize::MAX), None);
    let none = BitArray::from_array([]);
    assert_eq!(none.get(0), None);
}

#[test]
fn bit_array_set_changes_one_bit_only() {
    for start in [[0u8; 3], [0xff; 3], [0xa5, 0x3c, 0x81]] {
        for index in 0..24 {
            for val in [false, true] {
                let before = BitArray::from_array(start);
                let mut after = before;
                after.set(index, val);
                assert_eq!(after.get(index), Some(val));
                for other in 0..24 {
                    if other != index {
                        assert_eq!(after.get(other), before.get(other));
                    }
                }
                assert_eq!(after.get(24), None);
            }
        }
    }
}

#[test]
fn bit_array_from_and_into_flags() {
    let flags = vec![true, false, false, true, true, false, true, false, true];
    let bits = BitArray::<2>::try_from(flags.clone()).unwrap();
    assert_eq!(bits.get(0), Some(true));
    assert_eq!(bits.get(3), Some(true));
    assert_eq!(bits.get(8), Some(true));
    assert_eq!(bits.get(9), Some(false));
    let back: Vec<bool> = bits.into();
    assert_eq!(back.len(), 16);
    assert_eq!(&back[..9], &flags[..]);
    assert!(back[9..].iter().all(|flag| !flag));

    let full = vec![true; 16];
    let back: Vec<bool> = BitArray::<2>::try_from(full.clone()).unwrap().into();
    assert_eq!(back, full);

    assert_eq!(BitArray::<2>::try_from(vec![false; 17]).err(), Some(17));
    assert_eq!(BitArray::<0>::try_from(vec![true]).err(), Some(1));
    let empty: Vec<bool> = BitArray::<0>::try_from(Vec::new()).unwrap().into();
    assert!(empty.is_empty());

    let flags: Vec<bool> = BitArray::from_array([0b0000_0110u8]).into();
    assert_eq!(flags, [false, true, true, false, false, false, false, false]);
}

#[test]
fn a_record_is_viewed_only_over_bytes_of_its_length() {
    let bytes = vec![0u8; 64];
    assert!(ErrLogEntry::from_bytes(&bytes).is_ok());
    assert_eq!(ErrLogEntry::from_bytes(&bytes[..63]).err(), Some(63));
    assert_eq!(ErrLogEntry::from_bytes(&[]).err(), Some(0));
    let bytes = vec![0u8; 65];
    assert_eq!(ErrLogEntry::from_bytes(&bytes).err(), Some(65));
    let bytes = vec![0u8; 128];
    assert_eq!(ErrLogEntry::from_bytes(&bytes).err(), Some(128));
    assert_eq!(SmartLog::from_bytes(&bytes).err(), Some(128));
}

#[test]
fn a_view_borrows_the_bytes_it_was_made_of() {
    let bytes: Vec<u8> = (0..64).collect();
    let entry = ErrLogEntry::from_bytes(&bytes).unwrap();
    assert!(std::ptr::eq(entry.as_bytes(), &bytes[..]));
    assert_eq!(entry.as_bytes().len(), ErrLogEntry::byte_len());
}

#[test]
fn a_run_of_records_needs_a_multiple_of_the_record_length() {
    for len in 0..=200usize {
        let bytes: Vec<u8> = (0..len).map(|i| i as u8).collect();
        let viewed = <[ErrLogEntry]>::from_bytes(&bytes);
        if len % 64 == 0 {
            let entries = viewed.unwrap();
            assert_eq!(entries.len(), len / 64);
            assert_eq!(entries.is_empty(), len == 0);
            assert!(std::ptr::eq(entries.as_bytes(), &bytes[..]));
            for i in 0..entries.len() {
                let entry = entries.get(i).unwrap();
                assert_eq!(entry.as_bytes(), &bytes[64 * i..64 * (i + 1)]);
                assert!(std::ptr::eq(entry.as_bytes(), &bytes[64 * i..64 * (i + 1)]));
            }
            assert!(entries.get(entries.len()).is_none());
            assert!(entries.get(usize::MAX).is_none());
        } else {
            assert_eq!(viewed.err(), Some(len));
        }
    }
}

#[test]
fn a_run_is_as_large_as_a_slice() {
    assert_eq!(mem::size_of::<Records<ErrLogEntry>>(), mem::size_of::<&[u8]>());
}
