use qubee::config::{
    AppConfig, MessengerConfig, VERSION, VERSION_MAJOR, VERSION_MINOR, VERSION_PATCH,
};
use qubee::utils;

#[test]
fn test_config_default() {
    let config = MessengerConfig::default();
    assert_eq!(config.max_skip_messages, 1000);
    assert!(config.enable_cover_traffic);
}

#[test]
fn test_utility_functions() {
    let key = utils::generate_random_key(32).expect("Should generate key");
    assert_eq!(key.len(), 32);

    let hash = utils::hash_data(b"test data");
    assert_eq!(hash.len(), 32);

    assert!(utils::constant_time_eq(b"same", b"same"));
    assert!(!utils::constant_time_eq(b"different", b"data"));
}

#[test]
fn test_version_info() {
    assert!(!VERSION.is_empty());
    assert_eq!(VERSION_MAJOR, 0);
    assert_eq!(VERSION_MINOR, 2);
    assert_eq!(VERSION_PATCH, 0);
}

#[test]
fn application_defaults() {
    let config = AppConfig::default();
    assert!(config.enable_cover_traffic);
    assert_eq!(config.dummy_packet_frequency_secs, 15);
    assert_eq!(config.trust_model, "TOFU");
    let config = MessengerConfig::default();
    assert!(!config.enable_formal_verification);
    assert_eq!(config.audit_interval, 3600);
    assert_eq!(config.key_rotation_interval, 86400);
}

#[test]
fn utilities_call_the_real_primitives() {
    assert_eq!(utils::hash_data(b"test data"), *blake3::hash(b"test data").as_bytes());
    assert_ne!(utils::hash_data(b"test data").to_vec(), b"test data".to_vec());
    assert!(utils::constant_time_eq(b"", b""));
    assert!(!utils::constant_time_eq(b"same", b"sam"));
    assert!(!utils::constant_time_eq(b"same", b"samE"));
    let mut secret = b"secret".to_vec();
    utils::secure_zeroize(&mut secret);
    assert_eq!(secret, vec![0u8; 6]);
    assert_eq!(utils::generate_random_key(0).expect("Should generate key").len(), 0);
}
