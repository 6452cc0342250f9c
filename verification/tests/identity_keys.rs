use qubee::identity::contact_manager::{Contact, ContactManager, ContactVerificationStatus};
use qubee::identity::identity_key::{
    HybridSignature, IdentityId, IdentityKeyError, IdentityKeyPair,
};

#[test]
fn test_identity_key_generation() {
    let keypair = IdentityKeyPair::generate().expect("Should generate keypair");
    let public_key = keypair.public_key();

    assert_eq!(keypair.identity_id(), public_key.identity_id);
}

#[test]
fn test_hybrid_signature() {
    let keypair = IdentityKeyPair::generate().expect("Should generate keypair");
    let public_key = keypair.public_key();

    let message = b"test message for signing";
    let signature = keypair.sign(message);

    let valid = public_key.verify(message, &signature);
    assert!(valid);

    // Test with wrong message
    let wrong_message = b"different message";
    let invalid = public_key.verify(wrong_message, &signature);
    assert!(!invalid);
}

#[test]
fn test_fingerprint_generation() {
    let keypair = IdentityKeyPair::generate().expect("Should generate keypair");
    let public_key = keypair.public_key();

    let fingerprint = public_key.fingerprint();
    assert_eq!(fingerprint.len(), 19); // "XXXX XXXX XXXX XXXX" format
    assert!(fingerprint.chars().all(|c| c.is_ascii_hexdigit() || c == ' '));
}

#[test]
fn an_identity_is_named_by_the_digest_of_its_public_keys() {
    let keypair = IdentityKeyPair::generate().unwrap();
    let public_key = keypair.public_key();
    let mut fed = Vec::new();
    fed.extend_from_slice(&public_key.classical_public);
    fed.extend_from_slice(&public_key.pq_public);
    fed.extend_from_slice(b"qubee_identity_id");
    assert_eq!(public_key.identity_id, IdentityId::from_bytes(*blake3::hash(&fed).as_bytes()));

    let mut keys = Vec::new();
    keys.extend_from_slice(&public_key.classical_public);
    keys.extend_from_slice(&public_key.pq_public);
    let digest = blake3::hash(&keys);
    let d = digest.as_bytes();
    let expected = format!(
        "{:02X}{:02X} {:02X}{:02X} {:02X}{:02X} {:02X}{:02X}",
        d[0], d[1], d[2], d[3], d[4], d[5], d[6], d[7]
    );
    assert_eq!(public_key.fingerprint(), expected);
}

#[test]
fn a_hybrid_signature_is_fresh_for_five_minutes() {
    let keypair = IdentityKeyPair::generate().unwrap();
    let public_key = keypair.public_key();
    let signature = keypair.sign_at(b"data", 1_000);
    assert_eq!(signature.timestamp, 1_000);
    assert_eq!(signature.signer_identity, keypair.identity_id());
    assert_eq!(signature.classical_signature.len(), 64);

    assert!(public_key.verify_at(b"data", &signature, 1_000));
    assert!(public_key.verify_at(b"data", &signature, 1_300));
    assert!(!public_key.verify_at(b"data", &signature, 1_301));
    // A clock that runs behind the signer's does not make a signature stale.
    assert!(public_key.verify_at(b"data", &signature, 10));
    assert!(!public_key.verify_at(b"date", &signature, 1_000));
}

#[test]
fn both_halves_of_a_hybrid_signature_are_needed() {
    let keypair = IdentityKeyPair::generate().unwrap();
    let other = IdentityKeyPair::generate().unwrap();
    let public_key = keypair.public_key();
    let signature = keypair.sign_at(b"data", 50);
    let forged = other.sign_at(b"data", 50);

    let classical_only = HybridSignature {
        classical_signature: signature.classical_signature,
        pq_signature: forged.pq_signature.clone(),
        signer_identity: signature.signer_identity,
        timestamp: 50,
    };
    assert!(!public_key.verify_at(b"data", &classical_only, 50));
    let pq_only = HybridSignature {
        classical_signature: forged.classical_signature,
        pq_signature: signature.pq_signature.clone(),
        signer_identity: signature.signer_identity,
        timestamp: 50,
    };
    assert!(!public_key.verify_at(b"data", &pq_only, 50));
    let moved = HybridSignature {
        classical_signature: signature.classical_signature,
        pq_signature: signature.pq_signature.clone(),
        signer_identity: signature.signer_identity,
        timestamp: 51,
    };
    assert!(!public_key.verify_at(b"data", &moved, 51));
    // A signature of another identity is refused under this key, and
    // accepted under its own.
    assert!(!public_key.verify_at(b"data", &forged, 50));
    assert!(other.public_key().verify_at(b"data", &forged, 50));
    assert!(public_key.verify_at(b"data", &signature, 50));
}

#[test]
fn stored_key_material_is_checked_before_it_becomes_an_identity() {
    let keypair = IdentityKeyPair::generate().unwrap();
    let public_key = keypair.public_key();
    let pq_private = vec![0u8; 2560];

    let restored = IdentityKeyPair::from_bytes(
        &[7u8; 32],
        &pq_private,
        &public_key.classical_public,
        &public_key.pq_public,
        42,
    )
    .unwrap();
    assert_eq!(restored.identity_id(), public_key.identity_id);
    assert_eq!(restored.public_key().created_at, 42);
    assert_eq!(restored.public_key().pq_public, public_key.pq_public);

    // Bytes that are no point of the curve.
    let mut no_point = [0u8; 32];
    no_point[0] = 2;
    assert_eq!(
        IdentityKeyPair::from_bytes(&[7u8; 32], &pq_private, &no_point, &public_key.pq_public, 42).err(),
        Some(IdentityKeyError::InvalidClassicalPublicKey)
    );
    assert_eq!(
        IdentityKeyPair::from_bytes(
            &[7u8; 32],
            &pq_private[1..],
            &public_key.classical_public,
            &public_key.pq_public,
            42
        )
        .err(),
        Some(IdentityKeyError::InvalidPqPrivateKey)
    );
    assert_eq!(
        IdentityKeyPair::from_bytes(
            &[7u8; 32],
            &pq_private,
            &public_key.classical_public,
            &public_key.pq_public[1..],
            42
        )
        .err(),
        Some(IdentityKeyError::InvalidPqPublicKey)
    );
}

fn contact(keypair: &IdentityKeyPair, name: &str, status: ContactVerificationStatus) -> Contact {
    Contact {
        identity_id: keypair.identity_id(),
        identity_key: keypair.public_key(),
        display_name: name.to_string(),
        verification_status: status,
        added_at: 7,
    }
}

#[test]
fn a_contact_added_again_replaces_the_first() {
    let alice = IdentityKeyPair::generate().unwrap();
    let bob = IdentityKeyPair::generate().unwrap();
    let mut manager = ContactManager::new();
    assert!(manager.get_contact(&alice.identity_id()).is_none());
    assert!(manager.get_display_name(&alice.identity_id()).is_none());

    manager.add_contact(contact(&alice, "Alice", ContactVerificationStatus::Unverified));
    manager.add_contact(contact(&bob, "Bob", ContactVerificationStatus::Blocked));
    manager.add_contact(contact(&alice, "Alice L.", ContactVerificationStatus::Verified));

    let found = manager.get_contact(&alice.identity_id()).unwrap();
    assert_eq!(found.display_name, "Alice L.");
    assert_eq!(found.verification_status, ContactVerificationStatus::Verified);
    assert_eq!(found.added_at, 7);
    assert_eq!(manager.get_display_name(&bob.identity_id()).map(String::as_str), Some("Bob"));
    assert_eq!(
        manager.get_identity_key(&bob.identity_id()).unwrap().pq_public,
        bob.public_key().pq_public
    );
    assert_eq!(
        manager.get_contact(&bob.identity_id()).unwrap().verification_status,
        ContactVerificationStatus::Blocked
    );
    assert!(manager.get_identity_key(&IdentityId::from_bytes([0u8; 32])).is_none());
}
