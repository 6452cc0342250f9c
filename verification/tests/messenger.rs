use qubee::audio::{decode_audio_packet, encode_audio_packet, encrypt_audio_packet};
use qubee::config::MessengerConfig;
use qubee::crypto::enhanced_ratchet::{EnhancedHybridRatchet, RatchetState};
use qubee::crypto::keys::{DhKeyPair, PqKeyPair};
use qubee::ephemeral_keys::EphemeralKeyStore;
use qubee::errors::{QubeeError, RatchetError};
use qubee::file_transfer::{decode_chunk, encode_chunk, encrypt_chunk};
use qubee::messenger::SecureMessenger;
use qubee::security::secure_keystore::{KeyMetadata, KeyType, KeyUsage};

#[test]
fn test_messenger_creation() {
    let messenger = SecureMessenger::new();
    assert!(messenger.is_ok());
}

fn messengers() -> (SecureMessenger, SecureMessenger) {
    let dh = DhKeyPair::from_secret([3u8; 32]);
    let pq = PqKeyPair::generate();
    let mut alice = SecureMessenger::new().expect("a messenger");
    let mut bob = SecureMessenger::with_config(MessengerConfig { max_skip_messages: 5, ..MessengerConfig::default() })
        .expect("a messenger");
    alice.initialize_sender(b"secret", &dh.public_key, &pq.public_key).expect("sender setup");
    bob.initialize_receiver(b"secret", &dh.secret_key, &pq.secret_key).expect("receiver setup");
    (alice, bob)
}

#[test]
fn messengers_talk_in_bytes() {
    let (mut alice, mut bob) = messengers();
    assert_eq!(alice.ratchet_state(), RatchetState::KeyExchanged);
    assert_eq!(bob.ratchet_state(), RatchetState::Initialized);
    assert_eq!(bob.config().max_skip_messages, 5);
    let bytes = alice.encrypt_message(b"over the wire").expect("encryption");
    assert!(!bytes.windows(13).any(|w| w == b"over the wire"));
    match bob.decrypt_message(&bytes, "alice") {
        Ok(Some(plaintext)) => assert_eq!(plaintext, b"over the wire"),
        _ => panic!("the message"),
    }
    assert_eq!(bob.ratchet_state(), RatchetState::KeyExchanged);
    assert!(matches!(bob.decrypt_message(&bytes, "alice"), Err(QubeeError::Cryptographic(_))));
    assert!(matches!(bob.decrypt_message(&bytes[1..], "alice"), Err(QubeeError::Internal(_))));
    assert!(matches!(bob.encrypt_message(b"no send chain yet"), Err(QubeeError::Cryptographic(_))));
}

#[test]
fn a_messenger_that_was_not_set_up_refuses() {
    let mut fresh = SecureMessenger::new().expect("a messenger");
    match fresh.encrypt_message(b"x") {
        Err(QubeeError::Security(detail)) => assert_eq!(detail, "Ratchet not active"),
        _ => panic!("a security error"),
    }
    let (mut alice, _) = messengers();
    let again = alice.initialize_sender(b"secret", &[1u8; 32], &[0u8; 1184]);
    match again {
        Err(e) => assert_eq!(e.message(), "Cryptographic error: Ratchet already initialized"),
        Ok(()) => panic!("a second setup is refused"),
    }
    fresh.update_config(MessengerConfig { audit_interval: 1, ..MessengerConfig::default() });
    assert_eq!(fresh.config().audit_interval, 1);
    let report = fresh.run_security_audit(5).expect("an audit");
    assert_eq!(report.timestamp, 5);
    assert_eq!(report.total_checks, 8);
}

#[test]
fn a_messenger_keeps_keys() {
    let mut messenger = SecureMessenger::new().expect("a messenger");
    let metadata = KeyMetadata {
        algorithm: "X25519".to_string(),
        key_size: 32,
        usage: vec![KeyUsage::KeyAgreement],
        expiry: None,
        tags: vec![("owner".to_string(), "me".to_string())],
    };
    messenger.store_key("identity", &[9u8; 32], KeyType::IdentityKey, metadata).expect("storing");
    assert_eq!(messenger.retrieve_key("identity").ok(), Some(Some(vec![9u8; 32])));
    assert_eq!(messenger.retrieve_key("other").ok(), Some(None));
    let empty = KeyMetadata { algorithm: String::new(), key_size: 0, usage: Vec::new(), expiry: None, tags: Vec::new() };
    assert!(matches!(messenger.store_key("", b"x", KeyType::PreKey, empty), Err(QubeeError::Storage(_))));
}

fn sessions() -> (EnhancedHybridRatchet, EnhancedHybridRatchet) {
    let dh = DhKeyPair::from_secret([3u8; 32]);
    let pq = PqKeyPair::generate();
    let mut alice = EnhancedHybridRatchet::with_limits(10, 10, 1000);
    let mut bob = EnhancedHybridRatchet::with_limits(10, 10, 1000);
    alice.initialize_sender(b"secret", &dh.public_key, &pq.public_key).unwrap();
    alice.confirm_key_exchange().unwrap();
    bob.initialize_receiver(b"secret", &dh.secret_key, &pq.secret_key).unwrap();
    (alice, bob)
}

#[test]
fn both_sides_can_send_after_a_dh_ratchet_step() {
    let (mut alice, mut bob) = sessions();
    let mut at_bob = EphemeralKeyStore::new();
    let mut at_alice = EphemeralKeyStore::new();
    let hello = alice.encrypt(b"hello bob", b"").unwrap();
    assert_eq!(bob.receive(&hello, b"", "alice", &mut at_bob), Ok(Some(b"hello bob".to_vec())));
    assert_eq!(bob.encrypt(b"too early", b"").err(), Some(RatchetError::NoSendChain));

    let alice_public = bob.remote_dh_public().expect("the peer's key");
    assert_eq!(Some(alice_public), alice.local_dh_public());
    bob.dh_ratchet(&alice_public).unwrap();
    let reply = bob.encrypt(b"hello alice", b"").unwrap();
    assert_eq!(reply.header.message_number, 1);
    assert_eq!(reply.header.dh_public_key, bob.local_dh_public());
    assert_eq!(alice.receive(&reply, b"", "bob", &mut at_alice), Ok(Some(b"hello alice".to_vec())));
    assert_eq!(alice.state(), RatchetState::Active);

    at_bob.unpin("alice");
    let again = alice.encrypt(b"and again", b"").unwrap();
    assert_eq!(bob.receive(&again, b"", "alice", &mut at_bob), Ok(Some(b"and again".to_vec())));
    at_alice.unpin("bob");
    let more = bob.encrypt(b"more", b"").unwrap();
    assert_eq!(more.header.message_number, 2);
    assert!(more.header.dh_public_key.is_none());
    assert_eq!(alice.receive(&more, b"", "bob", &mut at_alice), Ok(Some(b"more".to_vec())));
}

#[test]
fn a_session_keeps_neither_old_chain_keys_nor_message_keys() {
    let (mut alice, _) = sessions();
    let before = alice.snapshot().send_chain_key.expect("a send chain");
    let first = alice.get_send_message_key().unwrap();
    let middle = alice.snapshot().send_chain_key.expect("a send chain");
    let second = alice.get_send_message_key().unwrap();
    let after = alice.snapshot();
    let held = after.send_chain_key.expect("a send chain");
    assert_ne!(held, before);
    assert_ne!(held, middle);
    assert_ne!(held, first);
    assert_ne!(held, second);
    assert_ne!(after.root_key, first);
    assert!(after.skipped_keys.is_empty());
    assert_eq!(alice.kdf_ck(&before).unwrap(), (middle, first));
    assert_eq!(alice.kdf_ck(&middle).unwrap(), (held, second));
}

#[test]
fn chunks_and_packets_travel_as_bytes() {
    let (mut alice, _) = sessions();
    let chunk = encrypt_chunk(&mut alice, 0x0102030405060708, 9, b"part", false, true).unwrap();
    let bytes = encode_chunk(&chunk);
    assert_eq!(&bytes[..13], &[8, 7, 6, 5, 4, 3, 2, 1, 9, 0, 0, 0, 1]);
    let back = decode_chunk(&bytes).expect("a chunk's bytes");
    assert_eq!((back.file_id, back.seq_number, back.is_hash), (0x0102030405060708, 9, true));
    assert_eq!(back.envelope.ciphertext, chunk.envelope.ciphertext);
    assert_eq!(back.envelope.mac, chunk.envelope.mac);
    let mut broken = bytes.clone();
    broken[12] = 2;
    assert!(decode_chunk(&broken).is_none());
    assert!(decode_chunk(&bytes[..12]).is_none());
    assert!(decode_chunk(&bytes[..bytes.len() - 1]).is_none());

    let packet = encrypt_audio_packet(&mut alice, b"frame", 0x0102, 0x03040506, false).unwrap();
    let bytes = encode_audio_packet(&packet);
    assert_eq!(&bytes[..6], &[2, 1, 6, 5, 4, 3]);
    let back = decode_audio_packet(&bytes).expect("a packet's bytes");
    assert_eq!((back.version, back.seq), (0x0102, 0x03040506));
    assert_eq!(back.envelope.ephemeral_signature, packet.envelope.ephemeral_signature);
    assert!(decode_audio_packet(&bytes[..5]).is_none());
}

#[test]
fn counters_that_cannot_advance_refuse() {
    let (alice, bob) = sessions();
    let mut snapshot = alice.snapshot();
    snapshot.send_counter = u64::MAX;
    let mut exhausted = EnhancedHybridRatchet::restore(snapshot).expect("a session's snapshot");
    assert_eq!(exhausted.encrypt(b"x", b"").err(), Some(RatchetError::CounterExhausted));
    assert_eq!(exhausted.send_counter(), u64::MAX);

    let mut snapshot = bob.snapshot();
    snapshot.recv_chain_id = u64::MAX;
    let mut exhausted = EnhancedHybridRatchet::restore(snapshot).expect("a session's snapshot");
    assert_eq!(exhausted.dh_ratchet_receive(&[1u8; 32]), Err(RatchetError::CounterExhausted));
}

#[test]
fn a_handshake_is_taken_in_once_and_only_by_a_responder() {
    let (mut alice, mut bob) = sessions();
    let first = alice.encrypt(b"first", b"").unwrap();
    let key = first.header.dh_public_key.expect("the sender's key");
    let ciphertext = first.header.pq_ciphertext.clone().expect("the handshake's ciphertext");
    assert_eq!(bob.accept_handshake(&key, &ciphertext[..10]), Err(RatchetError::InvalidKey));
    assert_eq!(bob.state(), RatchetState::Initialized);
    assert_eq!(bob.accept_handshake(&key, &ciphertext), Ok(()));
    assert_eq!(bob.state(), RatchetState::KeyExchanged);
    assert_eq!(bob.accept_handshake(&key, &ciphertext), Err(RatchetError::AlreadyInitialized));
    let mut fresh = EnhancedHybridRatchet::new();
    assert_eq!(fresh.accept_handshake(&key, &ciphertext), Err(RatchetError::NotInitialized));
    assert_eq!(fresh.pq_ratchet_receive(&ciphertext), Err(RatchetError::NotInitialized));
    assert_eq!(alice.pq_ratchet_receive(&ciphertext), Err(RatchetError::NotInitialized));
    assert_eq!(bob.pq_ratchet_receive(&ciphertext[..10]), Err(RatchetError::InvalidKey));
    assert_eq!(alice.pq_ratchet(&[0u8; 7]), Err(RatchetError::InvalidKey));
    let mut store = EphemeralKeyStore::new();
    assert_eq!(bob.decrypt(&first, b"", "alice", &mut store), Ok(Some(b"first".to_vec())));
}
