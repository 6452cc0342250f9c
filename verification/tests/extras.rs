use qubee::calling::media_encryption::{MediaEncryption, MediaError, MediaKey, StreamEncryption};
use qubee::crypto::keys::DhKeyPair;
use qubee::groups::group_crypto::{GroupCrypto, GroupCryptoError};
use qubee::groups::group_manager::GroupId;
use qubee::oob_secrets::generate_oob_secret;
use qubee::sas::{generate_sas_code, sas_code, sas_digits};
use qubee::testing::security_tests::{
    bucket_histogram, byte_histogram, SecurityTestConfig, BUCKET_COUNT,
};

#[test]
fn frames_are_encrypted_per_stream() {
    let media = MediaEncryption::new(MediaKey::new([7u8; 32]));
    let hk = hkdf::Hkdf::<sha2::Sha256>::new(None, &[7u8; 32]);
    let mut expected = [0u8; 32];
    hk.expand(&5u64.to_le_bytes(), &mut expected).unwrap();
    assert_eq!(media.derive_stream_key(5), expected);
    assert_ne!(media.derive_stream_key(5), media.derive_stream_key(6));

    let frame = media.encrypt_frame_with(0, b"audio frame", &[1u8; 12]).expect("a frame");
    assert_eq!(&frame[..12], &[1u8; 12]);
    assert_eq!(frame.len(), 12 + 11 + 16);
    assert_eq!(media.decrypt_frame(0, &frame), Ok(b"audio frame".to_vec()));
    assert_eq!(media.decrypt_frame(1, &frame), Err(MediaError::DecryptionFailed));
    assert_eq!(media.decrypt_frame(0, &frame[..11]), Err(MediaError::DecryptionFailed));

    let video = StreamEncryption::new(&media, 1);
    let first = video.encrypt(b"video frame").expect("a frame");
    let second = video.encrypt(b"video frame").expect("a frame");
    assert_ne!(first, second);
    assert_eq!(video.decrypt(&first), Ok(b"video frame".to_vec()));
    assert_eq!(media.decrypt_frame(1, &second), Ok(b"video frame".to_vec()));
}

#[test]
fn group_messages_go_under_the_group_key() {
    let mut crypto = GroupCrypto::new().expect("group crypto");
    let team = GroupId::from_bytes([1u8; 32]);
    let club = GroupId::from_bytes([2u8; 32]);
    assert_eq!(crypto.encrypt_message(&team, b"hi"), Err(GroupCryptoError::KeyNotFound));
    assert!(crypto.get_group_key(&team).is_none());
    crypto.create_group_key_with(team, [9u8; 32], 100);
    crypto.create_group_key(club).expect("a key");
    assert_eq!(crypto.get_group_key(&team).map(|k| (k.key, k.created_at)), Some(([9u8; 32], 100)));

    let message = crypto.encrypt_message(&team, b"hi team").expect("a message");
    assert_eq!(crypto.decrypt_message(&team, &message), Ok(b"hi team".to_vec()));
    assert_eq!(crypto.decrypt_message(&club, &message), Err(GroupCryptoError::DecryptionFailed));
    assert_eq!(crypto.decrypt_message(&team, &message[..5]), Err(GroupCryptoError::DecryptionFailed));
    assert_eq!(
        crypto.decrypt_message(&GroupId::from_bytes([3u8; 32]), &message),
        Err(GroupCryptoError::KeyNotFound)
    );

    let rotation = crypto.rotate_group_key_with(team, [8u8; 32], 200);
    assert_eq!(rotation.old_key_created_at, 100);
    assert_eq!(rotation.new_key_created_at, 200);
    assert_eq!(rotation.rotated_at, 200);
    assert_eq!(crypto.decrypt_message(&team, &message), Err(GroupCryptoError::DecryptionFailed));
    let fresh = crypto.rotate_group_key(GroupId::from_bytes([4u8; 32])).expect("a rotation");
    assert_eq!(fresh.old_key_created_at, 0);
    let fixed = crypto.encrypt_message_with(&team, b"x", &[3u8; 12]).expect("a message");
    assert_eq!(&fixed[..12], &[3u8; 12]);
}

#[test]
fn authentication_strings_have_eight_digits() {
    assert_eq!(sas_code(0), "00000000");
    assert_eq!(sas_code(42), "00000042");
    assert_eq!(sas_code(12345678), "12345678");
    assert_eq!(sas_code(99999999), "99999999");
    assert_eq!(sas_code(100000000), "00000000");
    assert_eq!(sas_code(u32::MAX), "94967295");
    assert_eq!(sas_digits(9876543), [0, 9, 8, 7, 6, 5, 4, 3]);
    let code = generate_sas_code().expect("a code");
    assert_eq!(code.len(), 8);
    assert!(code.chars().all(|c| c.is_ascii_digit()));
    assert_eq!(generate_oob_secret().expect("a secret").len(), 32);
}

#[test]
fn dh_key_pairs_are_x25519() {
    let pair = DhKeyPair::from_secret([7u8; 32]);
    let secret = x25519_dalek::StaticSecret::from([7u8; 32]);
    assert_eq!(pair.public_key, x25519_dalek::PublicKey::from(&secret).to_bytes());
    assert_ne!(pair.public_key, pair.secret_key);
    let other = DhKeyPair::generate().expect("entropy");
    assert_ne!(other.public_key, pair.public_key);
}

#[test]
fn hybrid_root_key_and_autolock() {
    let key = qubee::crypto::kdf::derive_hybrid_root_key(&[1u8; 32], &[2u8; 32]);
    let hk = hkdf::Hkdf::<sha2::Sha256>::new(Some(&[1u8; 32]), &[2u8; 32]);
    let mut expected = [0u8; 32];
    hk.expand(b"hybrid_root", &mut expected).unwrap();
    assert_eq!(key, expected);
    assert!(!qubee::identity::is_state_locked(1000, 1300));
    assert!(qubee::identity::is_state_locked(1000, 1301));
    assert!(!qubee::identity::is_state_locked(1000, 500));
}

#[test]
fn identifiers_show_their_first_bytes_in_hexadecimal() {
    let mut bytes = [0u8; 32];
    for (i, b) in bytes.iter_mut().enumerate() {
        *b = (i as u8) * 17 + 1;
    }
    assert_eq!(GroupId::from_bytes(bytes).label(), "0112233445566778");
    assert_eq!(qubee::identity::identity_key::IdentityId::from_bytes(bytes).label(), "0112233445566778");
    assert_eq!(qubee::identity::identity_key::DeviceId::from_bytes([0xab; 16]).label(), "abababab");
}

#[test]
fn session_hashes_are_blake3_of_input_and_label() {
    let root = qubee::crypto::kdf::derive_root_key(b"shared");
    assert_eq!(root, *blake3::hash(b"sharedqubee_root_key_derivation").as_bytes());
    let combined = qubee::crypto::kdf::combine_shared_secrets(b"dh", b"pq");
    assert_eq!(combined, *blake3::hash(b"dhpqqubee_hybrid_kdf").as_bytes());
    let mac = qubee::crypto::kdf::compute_mac(&[1u8; 32], b"header", b"ciphertext");
    let mut input = vec![1u8; 32];
    input.extend_from_slice(b"headerciphertext");
    assert_eq!(mac[..], blake3::hash(&input).as_bytes()[..16]);
}

#[test]
fn samples_are_counted_by_bucket_and_by_byte() {
    let samples = [0u64, 256, 1, 0x0101, u64::MAX];
    let buckets = bucket_histogram(&samples);
    assert_eq!(buckets.len(), BUCKET_COUNT);
    assert_eq!(buckets[0], 2);
    assert_eq!(buckets[1], 2);
    assert_eq!(buckets[255], 1);
    assert_eq!(buckets.iter().sum::<u64>(), 5);

    let bytes = byte_histogram(&samples);
    assert_eq!(bytes.len(), 256);
    // 0 has eight zero bytes, 256 and 1 have seven each, 0x0101 has six.
    assert_eq!(bytes[0], 8 + 7 + 7 + 6);
    assert_eq!(bytes[1], 1 + 1 + 2);
    assert_eq!(bytes[255], 8);
    assert_eq!(bytes.iter().sum::<u64>(), 40);
    assert!(bucket_histogram(&[]).iter().all(|&count| count == 0));

    let config = SecurityTestConfig::default();
    assert_eq!(config.entropy_test_samples, 10000);
    assert_eq!(config.timing_attack_iterations, 1000);
    assert_eq!(config.memory_test_size, 1024 * 1024);
    assert_eq!(config.fuzz_test_iterations, 10000);
    assert_eq!(config.performance_test_secs, 10);
}
