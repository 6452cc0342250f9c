use qubee::security::secure_keystore::{
    derive_key_from_password, open_snapshot, seal_snapshot, EncryptedKeyEntry, KeyMetadata,
    KeyStoreError, KeyType, KeyUsage, SecureKeyStore,
};

fn create_test_keystore() -> SecureKeyStore {
    SecureKeyStore::new().expect("Failed to create keystore")
}

fn metadata(algorithm: &str, key_size: usize, usage: KeyUsage) -> KeyMetadata {
    KeyMetadata { algorithm: algorithm.to_string(), key_size, usage: vec![usage], expiry: None, tags: Vec::new() }
}

#[test]
fn test_store_and_retrieve_key() {
    let mut keystore = create_test_keystore();

    let key_data = b"test_key_data_12345678901234567890";
    let metadata = metadata("ChaCha20Poly1305", 32, KeyUsage::Encryption);

    keystore
        .store_key("test_key", key_data, KeyType::EncryptionKey, metadata)
        .expect("Failed to store key");

    let retrieved = keystore
        .retrieve_key("test_key")
        .expect("Failed to retrieve key")
        .expect("Key not found");

    assert_eq!(retrieved, key_data);
}

#[test]
fn test_key_not_found() {
    let mut keystore = create_test_keystore();

    let result = keystore.retrieve_key("nonexistent_key").expect("Should not error");
    assert!(result.is_none());
}

#[test]
fn test_delete_key() {
    let mut keystore = create_test_keystore();

    let key_data = b"test_key_data";
    let metadata = metadata("Test", 13, KeyUsage::Signing);

    keystore
        .store_key("test_key", key_data, KeyType::SigningKey, metadata)
        .expect("Failed to store key");

    assert!(keystore.has_key("test_key"));

    let deleted = keystore.delete_key("test_key").expect("Failed to delete key");
    assert!(deleted);
    assert!(!keystore.has_key("test_key"));
}

#[test]
fn test_list_keys() {
    let mut keystore = create_test_keystore();

    keystore
        .store_key("key1", b"data1", KeyType::EncryptionKey, metadata("Test", 32, KeyUsage::Encryption))
        .expect("Failed to store key1");

    keystore
        .store_key("key2", b"data2", KeyType::SigningKey, metadata("Test", 32, KeyUsage::Encryption))
        .expect("Failed to store key2");

    let keys = keystore.list_keys();
    assert_eq!(keys.len(), 2);
    assert!(keys.contains(&"key1".to_string()));
    assert!(keys.contains(&"key2".to_string()));
}

#[test]
fn test_master_key_rotation() {
    let mut keystore = create_test_keystore();

    let key_data = b"test_key_data_for_rotation";
    let metadata = metadata("Test", 26, KeyUsage::Encryption);

    keystore
        .store_key("test_key", key_data, KeyType::EncryptionKey, metadata)
        .expect("Failed to store key");

    keystore.rotate_master_key().expect("Failed to rotate master key");

    let retrieved = keystore
        .retrieve_key("test_key")
        .expect("Failed to retrieve key after rotation")
        .expect("Key not found after rotation");

    assert_eq!(retrieved, key_data);
}

#[test]
fn key_identifiers_are_checked() {
    let mut keystore = create_test_keystore();
    assert_eq!(
        keystore.store_key("", b"x", KeyType::RootKey, metadata("Test", 1, KeyUsage::Signing)),
        Err(KeyStoreError::InvalidKeyId)
    );
    let long = "k".repeat(257);
    assert_eq!(
        keystore.store_key(&long, b"x", KeyType::RootKey, metadata("Test", 1, KeyUsage::Signing)),
        Err(KeyStoreError::InvalidKeyId)
    );
    let longest = "k".repeat(256);
    assert_eq!(
        keystore.store_key(&longest, b"x", KeyType::RootKey, metadata("Test", 1, KeyUsage::Signing)),
        Ok(())
    );
    assert_eq!(keystore.len(), 1);
    assert_eq!(keystore.delete_key("absent"), Ok(false));
}

#[test]
fn entries_are_encrypted_and_replaced_in_place() {
    let mut keystore = SecureKeyStore::with_master_key([1u8; 32]);
    keystore
        .store_key_with("id", b"first", KeyType::ChainKey, metadata("Test", 5, KeyUsage::Encryption), &[2u8; 12], 10)
        .unwrap();
    keystore
        .store_key_with("id", b"second", KeyType::ChainKey, metadata("Test", 6, KeyUsage::Encryption), &[3u8; 12], 20)
        .unwrap();
    assert_eq!(keystore.len(), 1);
    assert_eq!(keystore.retrieve_key_at("id", 30), Ok(Some(b"second".to_vec())));
    assert_eq!(keystore.get_key_metadata("id").map(|m| m.key_size), Some(6));
    assert!(keystore.get_key_metadata("other").is_none());

    let mut wrong = SecureKeyStore::from_entries(
        [9u8; 32],
        vec![EncryptedKeyEntry {
            key_id: "id".to_string(),
            encrypted_data: b"not a ciphertext, but long enough".to_vec(),
            nonce: [0u8; 12],
            key_type: KeyType::ChainKey,
            created_at: 0,
            last_accessed: 0,
            metadata: metadata("Test", 0, KeyUsage::Encryption),
        }],
    );
    assert_eq!(wrong.retrieve_key("id"), Err(KeyStoreError::DecryptionFailed));
    assert_eq!(wrong.rotate_master_key(), Err(KeyStoreError::DecryptionFailed));
    assert!(wrong.has_key("id"));
}

#[test]
fn rotation_needs_a_nonce_for_every_entry() {
    let mut keystore = SecureKeyStore::with_master_key([1u8; 32]);
    for id in ["a", "b", "c"] {
        keystore
            .store_key(id, id.as_bytes(), KeyType::PreKey, metadata("Test", 1, KeyUsage::KeyAgreement))
            .unwrap();
    }
    assert_eq!(
        keystore.rotate_master_key_with([2u8; 32], &vec![[0u8; 12]; 2]),
        Err(KeyStoreError::NotEnoughNonces)
    );
    assert_eq!(keystore.rotate_master_key_with([2u8; 32], &vec![[5u8; 12], [6u8; 12], [7u8; 12]]), Ok(()));
    for id in ["a", "b", "c"] {
        assert_eq!(keystore.retrieve_key(id), Ok(Some(id.as_bytes().to_vec())));
    }
}

#[test]
fn expired_keys_are_swept() {
    let mut keystore = SecureKeyStore::with_master_key([1u8; 32]);
    for (id, expiry) in [("never", None), ("soon", Some(100u64)), ("late", Some(200u64)), ("past", Some(50u64))] {
        let mut m = metadata("Test", 1, KeyUsage::Authentication);
        m.expiry = expiry;
        keystore.store_key(id, b"x", KeyType::EphemeralKey, m).unwrap();
    }
    let mut expired = keystore.expired_keys(100);
    expired.sort();
    assert_eq!(expired, vec!["past".to_string(), "soon".to_string()]);
    assert_eq!(keystore.cleanup_expired_keys_at(100), Ok(2));
    assert!(keystore.has_key("never"));
    assert!(keystore.has_key("late"));
    assert!(!keystore.has_key("soon"));
    assert!(!keystore.has_key("past"));
    assert_eq!(keystore.cleanup_expired_keys_at(100), Ok(0));
    assert_eq!(keystore.cleanup_expired_keys(), Ok(1));
    assert!(keystore.has_key("never"));
    assert!(!keystore.has_key("late"));
}

#[test]
fn a_sealed_snapshot_is_nonce_then_ciphertext() {
    let blob = seal_snapshot(&[1u8; 32], &[2u8; 12], b"snapshot").expect("sealing");
    assert_eq!(&blob[..12], &[2u8; 12]);
    assert_eq!(blob.len(), 12 + 8 + 16);
    assert_ne!(&blob[12..20], b"snapshot");
    assert_eq!(open_snapshot(&[1u8; 32], &blob), Ok(b"snapshot".to_vec()));
    assert_eq!(open_snapshot(&[3u8; 32], &blob), Err(KeyStoreError::DecryptionFailed));
    assert_eq!(open_snapshot(&[1u8; 32], &blob[..11]), Err(KeyStoreError::DecryptionFailed));
    let mut broken = blob.clone();
    broken[20] ^= 1;
    assert_eq!(open_snapshot(&[1u8; 32], &broken), Err(KeyStoreError::DecryptionFailed));
}

#[test]
fn password_key_is_the_hash_of_password_and_salt() {
    let mut input = b"default_password".to_vec();
    input.extend_from_slice(b"qubee_keystore_salt");
    assert_eq!(derive_key_from_password(b"default_password"), *blake3::hash(&input).as_bytes());
}

#[test]
fn an_entry_keeps_the_whole_of_its_metadata() {
    let mut keystore = SecureKeyStore::with_master_key([1u8; 32]);
    let stored = KeyMetadata {
        algorithm: "Kyber-768".to_string(),
        key_size: 2400,
        usage: vec![KeyUsage::KeyAgreement, KeyUsage::Encryption],
        expiry: Some(5_000),
        tags: vec![("owner".to_string(), "alice".to_string()), ("device".to_string(), "phone".to_string())],
    };
    keystore.store_key("pq", b"secret", KeyType::PreKey, stored).unwrap();
    let kept = keystore.get_key_metadata("pq").unwrap();
    assert_eq!(kept.algorithm, "Kyber-768");
    assert_eq!(kept.key_size, 2400);
    assert_eq!(kept.usage, vec![KeyUsage::KeyAgreement, KeyUsage::Encryption]);
    assert_eq!(kept.expiry, Some(5_000));
    assert_eq!(
        kept.tags,
        vec![("owner".to_string(), "alice".to_string()), ("device".to_string(), "phone".to_string())]
    );

    keystore.rotate_master_key().unwrap();
    let after = keystore.get_key_metadata("pq").unwrap();
    assert_eq!(after.algorithm, "Kyber-768");
    assert_eq!(after.tags.len(), 2);
    assert_eq!(keystore.retrieve_key("pq"), Ok(Some(b"secret".to_vec())));
}
