use std::collections::HashSet;

use qubee::security::secure_rng::random;
use qubee::security::secure_rng::{
    should_reseed, SecureRng, RESEED_THRESHOLD, RESEED_TIME_THRESHOLD,
};

#[test]
fn test_secure_rng_creation() {
    let _rng = SecureRng::new().expect("Should create RNG");
}

#[test]
fn test_random_bytes_generation() {
    let mut rng = SecureRng::new().expect("Should create RNG");
    let mut buffer = vec![0u8; 32];
    rng.fill_bytes(&mut buffer).expect("Should generate bytes");

    assert!(buffer.iter().any(|&b| b != 0));
}

#[test]
fn test_random_uniqueness() {
    let mut rng = SecureRng::new().expect("Should create RNG");
    let mut values = HashSet::new();

    for _ in 0..1000 {
        let value = rng.next_u64().expect("Should generate u64");
        values.insert(value);
    }

    assert!(values.len() > 990);
}

#[test]
fn test_reseed_functionality() {
    let mut rng = SecureRng::new().expect("Should create RNG");

    rng.reseed().expect("Should reseed successfully");

    let value = rng.next_u64().expect("Should generate after reseed");
    assert!(value != 0);
}

#[test]
fn test_convenience_functions() {
    let bytes = random::bytes(32).expect("Should generate bytes");
    assert_eq!(bytes.len(), 32);

    let array = random::array::<16>().expect("Should generate array");
    assert_eq!(array.len(), 16);

    let _value = random::u64().expect("Should generate u64");
    let _value = random::u32().expect("Should generate u32");
    let _value = random::bool().expect("Should generate bool");
}

#[test]
fn reseeding_goes_by_use_and_by_age() {
    assert!(!should_reseed(0, 100, 100));
    assert!(!should_reseed(RESEED_THRESHOLD - 1, 100, 100 + RESEED_TIME_THRESHOLD - 1));
    assert!(should_reseed(RESEED_THRESHOLD, 100, 100));
    assert!(should_reseed(0, 100, 100 + RESEED_TIME_THRESHOLD));
    assert!(!should_reseed(0, 100, 50));
}

#[test]
fn the_generator_counts_what_it_gives_out() {
    let mut rng = SecureRng::from_entropy(&[1u8; 32], &[2u8; 64], u64::MAX);
    assert_eq!(rng.reseed_counter(), 0);
    let bytes = rng.bytes(100).expect("Should generate bytes");
    assert_eq!(bytes.len(), 100);
    assert_eq!(rng.reseed_counter(), 100);
    rng.next_u64().expect("Should generate u64");
    rng.next_u32().expect("Should generate u32");
    assert_eq!(rng.reseed_counter(), 112);
    rng.bytes(1_000_000).expect("Should generate bytes");
    assert_eq!(rng.reseed_counter(), 1_000_112);
    rng.bytes(5).expect("Should generate bytes");
    assert_eq!(rng.reseed_counter(), 5);
}

#[test]
fn one_seed_gives_one_stream_and_a_reseed_another() {
    let mut first = SecureRng::from_entropy(&[1u8; 32], &[2u8; 64], u64::MAX);
    let mut second = SecureRng::from_entropy(&[1u8; 32], &[2u8; 64], u64::MAX);
    assert_eq!(first.bytes(16).unwrap(), second.bytes(16).unwrap());
    second.reseed_with(&[1u8; 32], &[3u8; 64], u64::MAX);
    assert_eq!(second.reseed_counter(), 0);
    assert_ne!(first.bytes(16).unwrap(), second.bytes(16).unwrap());
    assert_eq!(random::high_word(0x1234_5678_9abc_def0), 0x1234_5678);
    assert!(random::low_bit(3));
    assert!(!random::low_bit(2));
}

#[test]
fn a_new_seed_mixes_fresh_entropy_with_pool_and_count() {
    let seed = qubee::security::secure_rng::reseed_seed(&[1u8; 32], &[2u8; 64], 7);
    let mut input = vec![1u8; 32];
    input.extend_from_slice(&[2u8; 64]);
    input.extend_from_slice(&7u64.to_le_bytes());
    assert_eq!(seed, *blake3::hash(&input).as_bytes());
    let mixed = qubee::security::secure_rng::mix_entropy(b"from the system", b"from elsewhere");
    assert_eq!(mixed, *blake3::hash(b"from the systemfrom elsewhere").as_bytes());
}
