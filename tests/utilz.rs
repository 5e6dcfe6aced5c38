use balloon::{be_u8_from_u32, hashcash_balloon, hashcash_input, leading_zeros, meets_difficulty, balloon, SpaceHandler};

#[test]
fn big_endian_bytes_of_u32() {
    assert_eq!(be_u8_from_u32(0x0102_0304), [1, 2, 3, 4]);
    assert_eq!(be_u8_from_u32(0), [0, 0, 0, 0]);
    assert_eq!(be_u8_from_u32(u32::MAX), [0xff, 0xff, 0xff, 0xff]);
    assert_eq!(be_u8_from_u32(0x80), [0, 0, 0, 0x80]);
}

#[test]
fn leading_zero_bits_are_counted() {
    assert_eq!(leading_zeros(&[]), 0);
    assert_eq!(leading_zeros(&[0x80, 0]), 0);
    assert_eq!(leading_zeros(&[0x01]), 7);
    assert_eq!(leading_zeros(&[0, 0, 0x10, 0xff]), 19);
    assert_eq!(leading_zeros(&[0, 0]), 16);
    assert_eq!(leading_zeros(&[0u8; 32]), 256);
}

#[test]
fn difficulty_threshold() {
    assert!(meets_difficulty(&[0, 0x0f], 12));
    assert!(!meets_difficulty(&[0, 0x0f], 13));
    assert!(meets_difficulty(&[0xff], 0));
}

#[test]
fn hashcash_input_appends_the_nonce() {
    assert_eq!(hashcash_input(b"ab", 0x0102), vec![b'a', b'b', 2, 1, 0, 0, 0, 0, 0, 0]);
    assert_eq!(hashcash_input(b"", u64::MAX), vec![0xff; 8]);
}

#[test]
fn hashcash_balloon_uses_the_salt_prefix() {
    let salt_digest = [7u8, 6, 5, 4, 3, 2, 1, 0, 9, 9, 9];
    let expected = balloon(b"organism", &salt_digest[..8], 16, 20, 4).unwrap();
    assert_eq!(hashcash_balloon(b"organism", &salt_digest), expected);
}

#[test]
fn space_handler_slots() {
    let mut s: SpaceHandler<u32> = SpaceHandler::allocate(3, 7);
    assert_eq!(s.len(), 3);
    assert_eq!(*s.index(2), 7);
    s.set(1, 9);
    assert_eq!(*s.index(1), 9);
    s.insert(11);
    assert_eq!(s.len(), 4);
    assert_eq!(*s.index(3), 11);
    s.resize(2, 0);
    assert_eq!(s.len(), 2);
    assert_eq!(*s.index(1), 9);
    s.resize(5, 1);
    assert_eq!(s.len(), 5);
    assert_eq!(*s.index(0), 7);
    assert_eq!(*s.index(1), 9);
    assert_eq!(*s.index(4), 1);
    let empty: SpaceHandler<u8> = SpaceHandler::allocate(0, 0);
    assert_eq!(empty.len(), 0);
}
