use balloon::{balloon, compare_ct, verify, Balloon, Error};

fn h(parts: &[&[u8]]) -> [u8; 32] {
    let mut input: Vec<u8> = Vec::new();
    for p in parts {
        input.extend_from_slice(p);
    }
    *blake3::hash(&input).as_bytes()
}

#[test]
fn it_works2() {
    let password = [0u8, 1u8, 2u8, 3u8, 0u8, 1u8, 2u8, 3u8];
    let salt = [0u8, 1u8, 2u8, 3u8, 3u8];
    let test = balloon(&password, &salt, 24, 18, 5).unwrap();
    assert!(verify(&test, &password, &salt, 24, 18, 5).unwrap());
}

#[test]
fn same_arguments_give_same_digest() {
    let password = b"correct horse battery staple";
    let salt = b"pepper and salt";
    let a = balloon(password, salt, 16, 3, 3).unwrap();
    let b = balloon(password, salt, 16, 3, 3).unwrap();
    assert_eq!(a, b);
}

#[test]
fn one_changed_byte_changes_the_digest() {
    let password = [0u8, 1, 2, 3, 0, 1, 2, 3];
    let salt = [0u8, 1, 2, 3, 3];
    let base = balloon(&password, &salt, 8, 2, 3).unwrap();
    for i in 0..password.len() {
        let mut p = password;
        p[i] ^= 1;
        assert_ne!(balloon(&p, &salt, 8, 2, 3).unwrap(), base);
    }
    for i in 0..salt.len() {
        let mut s = salt;
        s[i] ^= 0x80;
        assert_ne!(balloon(&password, &s, 8, 2, 3).unwrap(), base);
    }
}

#[test]
fn zero_space_is_refused() {
    assert_eq!(balloon(b"pw", b"salty", 0, 1, 1), Err(Error::InvalidSpace));
    assert_eq!(balloon(b"pw", b"abc", 0, 0, 1), Err(Error::InvalidSpace));
}

#[test]
fn zero_time_is_refused() {
    assert_eq!(balloon(b"pw", b"salty", 4, 0, 1), Err(Error::InvalidTime));
    assert_eq!(balloon(b"pw", b"abc", 4, 0, 1), Err(Error::InvalidTime));
}

#[test]
fn short_salt_is_refused() {
    assert_eq!(balloon(b"pw", &[0u8, 0, 0], 4, 2, 1), Err(Error::InvalidSalt));
    assert_eq!(balloon(b"pw", &[], 1, 1, 0), Err(Error::InvalidSalt));
    assert!(balloon(b"pw", &[0u8, 0, 0, 0], 1, 1, 0).is_ok());
}

#[test]
fn verify_propagates_parameter_errors() {
    let d = [0u8; 32];
    assert_eq!(verify(&d, b"pw", b"salty", 0, 1, 1), Err(Error::InvalidSpace));
    assert_eq!(verify(&d, b"pw", b"salty", 1, 0, 1), Err(Error::InvalidTime));
    assert_eq!(verify(&d, b"pw", b"sal", 1, 1, 1), Err(Error::InvalidSalt));
}

#[test]
fn mutated_password_does_not_verify() {
    let password = [0u8, 1, 2, 3, 0, 1, 2, 3];
    let salt = [0u8, 1, 2, 3, 3];
    let digest = balloon(&password, &salt, 24, 18, 5).unwrap();
    let mut wrong = password;
    wrong[0] ^= 0xff;
    assert!(!verify(&digest, &wrong, &salt, 24, 18, 5).unwrap());
    let mut other = digest;
    other[31] ^= 1;
    assert!(!verify(&other, &password, &salt, 24, 18, 5).unwrap());
}

#[test]
fn other_costs_give_other_digests() {
    let d = balloon(b"pw", b"salty", 4, 2, 1).unwrap();
    assert!(!verify(&d, b"pw", b"salty", 4, 3, 1).unwrap());
    assert!(!verify(&d, b"pw", b"salty", 5, 2, 1).unwrap());
    assert!(!verify(&d, b"pw", b"salty", 4, 2, 2).unwrap());
}

#[test]
fn single_block_digest_matches_the_construction() {
    let pass = b"password";
    let salt = b"saltsalt";
    let b0 = h(&[&0u64.to_le_bytes(), salt, pass]);
    let b0 = h(&[&1u64.to_le_bytes(), &b0]);
    let expected = h(&[&b0]);
    assert_eq!(balloon(pass, salt, 1, 1, 0).unwrap(), expected);
}

#[test]
fn two_block_digest_with_one_dependency_matches_the_construction() {
    let pass = b"pw";
    let salt = b"NaCl!";
    let space = 2u64;
    let mut blocks = [h(&[&0u64.to_le_bytes(), salt, pass]), [0u8; 32]];
    blocks[1] = h(&[&1u64.to_le_bytes(), &blocks[0]]);
    let mut counter = 2u64;
    for m in 0..2u64 {
        let prev = ((m + space - 1) % space) as usize;
        blocks[m as usize] = h(&[&counter.to_le_bytes(), &blocks[prev]]);
        counter += 1;
        let q = h(&[&counter.to_le_bytes(), salt, &0u64.to_le_bytes(), &m.to_le_bytes(), &0u64.to_le_bytes()]);
        counter += 1;
        let x = u64::from_le_bytes(q[..8].try_into().unwrap());
        let other = (x % space) as usize;
        blocks[m as usize] = h(&[&counter.to_le_bytes(), &blocks[m as usize], &blocks[other]]);
        counter += 1;
    }
    let expected = h(&[&blocks[1]]);
    assert_eq!(balloon(pass, salt, 2, 1, 1).unwrap(), expected);
}

#[test]
fn engine_output_hashes_to_the_digest() {
    let mut engine = Balloon::new(8, 2, 2);
    let block = engine.process(b"pw", b"salty");
    assert_eq!(*blake3::hash(&block).as_bytes(), balloon(b"pw", b"salty", 8, 2, 2).unwrap());
}

#[test]
fn engine_reuse_leaves_no_residue() {
    let mut engine = Balloon::new(8, 2, 2);
    let first = engine.process(b"pw", b"salty");
    let _ = engine.process(b"another password", b"another salt");
    assert_eq!(engine.process(b"pw", b"salty"), first);
    engine.reconfigure(3, 1, 0);
    let small = engine.process(b"pw", b"salty");
    engine.reconfigure(20, 1, 0);
    let _ = engine.process(b"pw", b"salty");
    engine.reconfigure(3, 1, 0);
    assert_eq!(engine.process(b"pw", b"salty"), small);
    let mut fresh = Balloon::new(3, 1, 0);
    assert_eq!(fresh.process(b"pw", b"salty"), small);
}

#[test]
fn compare_ct_accepts_equal_bytes() {
    assert_eq!(compare_ct(&[1, 2, 3], &[1, 2, 3]), None);
    assert_eq!(compare_ct(&[], &[]), None);
}

#[test]
fn compare_ct_rejects_different_bytes() {
    assert_eq!(compare_ct(&[1, 2, 3], &[0, 2, 3]), Some(Error::InvalidFormat));
    assert_eq!(compare_ct(&[1, 2, 3], &[1, 2, 4]), Some(Error::InvalidFormat));
}

#[test]
fn compare_ct_rejects_different_lengths() {
    assert_eq!(compare_ct(&[1, 2, 3], &[1, 2]), Some(Error::InvalidFormat));
    assert_eq!(compare_ct(&[], &[0]), Some(Error::InvalidFormat));
}

#[test]
fn error_messages() {
    assert_eq!(Error::InvalidSalt.message(), "salt must be at least 4 bytes long");
    assert_eq!(Error::InvalidTime.message(), "time must be greater than or equal to 1");
}
