//! Numbers as bytes.
use hana::bytes::{
    append, bytes_eq, copy_range, push_u64_le, read_u64_le, trim_zeros, u64_to_word, word_at,
    word_to_u64,
};
use hana::uint::U256;

#[test]
fn little_endian_numbers() {
    let mut out = vec![0xaa];
    push_u64_le(&mut out, 0x0102030405060708);
    assert_eq!(out, vec![0xaa, 8, 7, 6, 5, 4, 3, 2, 1]);
    assert_eq!(read_u64_le(&out, 1), 0x0102030405060708);
    for x in [0u64, 1, 255, 256, 3_141_592, u64::MAX - 1, u64::MAX] {
        let mut out = Vec::new();
        push_u64_le(&mut out, x);
        assert_eq!(out, x.to_le_bytes());
        assert_eq!(read_u64_le(&out, 0), x);
    }
}

#[test]
fn big_endian_words() {
    let word = u64_to_word(0x0102030405060708);
    assert_eq!(&word[..24], &[0u8; 24]);
    assert_eq!(&word[24..], &[1, 2, 3, 4, 5, 6, 7, 8]);
    assert_eq!(u64_to_word(0), [0u8; 32]);
    assert_eq!(word_to_u64(&word), Some(0x0102030405060708));
    assert_eq!(word_to_u64(&[0; 32]), Some(0));
    assert_eq!(word_to_u64(&u64_to_word(u64::MAX)), Some(u64::MAX));
    let mut too_large = [0u8; 32];
    too_large[23] = 1;
    assert_eq!(word_to_u64(&too_large), None);
    assert_eq!(word_to_u64(&[0xff; 32]), None);
}

#[test]
fn trimming() {
    assert_eq!(trim_zeros(&[]), Vec::<u8>::new());
    assert_eq!(trim_zeros(&[0, 0, 0]), Vec::<u8>::new());
    assert_eq!(trim_zeros(&[0, 0, 5, 0, 6]), vec![5, 0, 6]);
    assert_eq!(trim_zeros(&[9, 0]), vec![9, 0]);
}

#[test]
fn copying_and_comparing() {
    let data: Vec<u8> = (0..100u8).collect();
    assert_eq!(copy_range(&data, 10, 13), vec![10, 11, 12]);
    assert_eq!(copy_range(&data, 5, 5), Vec::<u8>::new());
    let word = word_at(&data, 3);
    assert_eq!(&word[..], &data[3..35]);
    let mut out = vec![1u8];
    append(&mut out, &[2, 3]);
    assert_eq!(out, vec![1, 2, 3]);
    assert!(bytes_eq(&[1, 2, 3], &[1, 2, 3]));
    assert!(!bytes_eq(&[1, 2, 3], &[1, 2, 4]));
    assert!(!bytes_eq(&[1, 2, 3], &[1, 2]));
    assert!(bytes_eq(&[], &[]));
}

#[test]
fn uint_conversions() {
    let x = U256::from_u64(0xdead_beef);
    assert_eq!(&x.to_be_bytes()[28..], &[0xde, 0xad, 0xbe, 0xef]);
    assert_eq!(&x.to_be_bytes()[..28], &[0u8; 28]);
    assert_eq!(x.to_u64(), Some(0xdead_beef));
    let max = U256::from_be_bytes([0xff; 32]);
    assert_eq!(max.to_u64(), None);
    assert_eq!(max.to_be_bytes(), [0xff; 32]);
    assert_eq!(U256::from_be_bytes(x.to_be_bytes()), x);
    let reference = alloy_primitives::U256::from(0xdead_beefu64);
    assert_eq!(x.to_be_bytes(), reference.to_be_bytes::<32>());
}
