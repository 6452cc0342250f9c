use qubee::crypto::enhanced_ratchet::{EnhancedHybridRatchet, OneTimeSigner, RatchetState, MAX_CACHE_DEFAULT, MAX_SKIP_DEFAULT};
use qubee::crypto::envelope::RatchetMessage;
use qubee::crypto::keys::{DhKeyPair, PqKeyPair};
use qubee::ephemeral_keys::{verify_and_pin_ephemeral_key, EphemeralKeyStore};
use qubee::errors::RatchetError;

const SHARED_SECRET: &[u8] = b"a shared secret agreed on in advance";

struct Pair {
    alice: EnhancedHybridRatchet,
    bob: EnhancedHybridRatchet,
    signer: OneTimeSigner,
    store: EphemeralKeyStore,
    clock: u64,
}

fn pair_with_limits(max_skip: usize, max_cache: usize) -> Pair {
    let bob_dh = DhKeyPair::from_secret([7u8; 32]);
    let bob_pq = PqKeyPair::generate();
    let mut alice = EnhancedHybridRatchet::with_limits(max_skip, max_cache, 1000);
    let mut bob = EnhancedHybridRatchet::with_limits(max_skip, max_cache, 1000);
    alice
        .initialize_sender(SHARED_SECRET, &bob_dh.public_key, &bob_pq.public_key)
        .expect("sender setup");
    alice.confirm_key_exchange().expect("sender is ready");
    bob.initialize_receiver(SHARED_SECRET, &bob_dh.secret_key, &bob_pq.secret_key)
        .expect("receiver setup");
    Pair { alice, bob, signer: OneTimeSigner::generate(), store: EphemeralKeyStore::new(), clock: 1_700_000_000 }
}

fn pair() -> Pair {
    pair_with_limits(MAX_SKIP_DEFAULT, MAX_CACHE_DEFAULT)
}

impl Pair {
    fn seal(&mut self, plaintext: &[u8], is_dummy: bool) -> RatchetMessage {
        self.clock += 1;
        let nonce = [self.clock as u8; 12];
        self.alice
            .encrypt_with(plaintext, b"aad", is_dummy, &nonce, self.clock, &self.signer)
            .expect("encryption")
    }

    fn open(&mut self, message: &RatchetMessage) -> Result<Option<Vec<u8>>, RatchetError> {
        self.bob.receive(message, b"aad", "alice", &mut self.store)
    }
}

#[test]
fn test_ratchet_initialization() {
    let alice = EnhancedHybridRatchet::new();
    let bob = EnhancedHybridRatchet::new();

    assert_eq!(alice.state(), RatchetState::Uninitialized);
    assert_eq!(bob.state(), RatchetState::Uninitialized);
}

#[test]
fn test_key_derivation() {
    let ratchet = EnhancedHybridRatchet::new();
    let root_key = [1u8; 32];
    let dh_output = [2u8; 32];

    let (new_root, chain_key) = ratchet.kdf_rk(&root_key, &dh_output).unwrap();

    assert_ne!(new_root, root_key);
    assert_ne!(chain_key, root_key);
    assert_ne!(new_root, chain_key);
}

#[test]
fn test_chain_key_derivation() {
    let ratchet = EnhancedHybridRatchet::new();
    let chain_key = [3u8; 32];

    let (new_chain, message_key) = ratchet.kdf_ck(&chain_key).unwrap();

    assert_ne!(new_chain, chain_key);
    assert_ne!(message_key, chain_key);
    assert_ne!(new_chain, message_key);
}

#[test]
fn test_shared_secret_combination() {
    let ratchet = EnhancedHybridRatchet::new();
    let dh_secret = [4u8; 32];
    let pq_secret = [5u8; 64];

    let combined = ratchet.combine_shared_secrets(&dh_secret, &pq_secret).unwrap();

    let combined2 = ratchet.combine_shared_secrets(&dh_secret, &pq_secret).unwrap();
    assert_eq!(combined, combined2);

    let different_dh = [6u8; 32];
    let combined3 = ratchet.combine_shared_secrets(&different_dh, &pq_secret).unwrap();
    assert_ne!(combined, combined3);
}

#[test]
fn chain_step_matches_blake3_of_key_and_label() {
    let ratchet = EnhancedHybridRatchet::new();
    let chain_key = [3u8; 32];
    let (next, message_key) = ratchet.kdf_ck(&chain_key).unwrap();
    let mut input = chain_key.to_vec();
    input.extend_from_slice(b"qubee_chain_key");
    assert_eq!(next, *blake3::hash(&input).as_bytes());
    let mut input = chain_key.to_vec();
    input.extend_from_slice(b"qubee_message_key");
    assert_eq!(message_key, *blake3::hash(&input).as_bytes());
}

#[test]
fn root_step_matches_hkdf_with_both_labels() {
    let ratchet = EnhancedHybridRatchet::new();
    let (new_root, chain) = ratchet.kdf_rk(&[1u8; 32], &[2u8; 32]).unwrap();
    let hk = hkdf::Hkdf::<sha2::Sha256>::new(Some(&[1u8; 32]), &[2u8; 32]);
    let mut expected = [0u8; 32];
    hk.expand(b"qubee_root_key", &mut expected).unwrap();
    assert_eq!(new_root, expected);
    hk.expand(b"qubee_chain_key", &mut expected).unwrap();
    assert_eq!(chain, expected);
}

#[test]
fn setup_runs_once() {
    let mut p = pair();
    let dh = DhKeyPair::from_secret([9u8; 32]);
    let pq = PqKeyPair::generate();
    assert_eq!(
        p.alice.initialize_sender(SHARED_SECRET, &dh.public_key, &pq.public_key),
        Err(RatchetError::AlreadyInitialized)
    );
    assert_eq!(
        p.bob.initialize_receiver(SHARED_SECRET, &dh.secret_key, &pq.secret_key),
        Err(RatchetError::AlreadyInitialized)
    );
}

#[test]
fn setup_refuses_a_peer_key_of_the_wrong_length() {
    let mut alice = EnhancedHybridRatchet::new();
    let dh = DhKeyPair::from_secret([9u8; 32]);
    assert_eq!(
        alice.initialize_sender(SHARED_SECRET, &dh.public_key, &[0u8; 10]),
        Err(RatchetError::InvalidKey)
    );
    assert_eq!(alice.state(), RatchetState::Uninitialized);
}

#[test]
fn encryption_needs_a_usable_session() {
    let mut fresh = EnhancedHybridRatchet::new();
    assert_eq!(fresh.encrypt(b"x", b"").err(), Some(RatchetError::RatchetNotReady));

    let bob_dh = DhKeyPair::from_secret([7u8; 32]);
    let bob_pq = PqKeyPair::generate();
    let mut alice = EnhancedHybridRatchet::new();
    alice.initialize_sender(SHARED_SECRET, &bob_dh.public_key, &bob_pq.public_key).unwrap();
    assert_eq!(alice.state(), RatchetState::Initialized);
    assert_eq!(alice.encrypt(b"x", b"").err(), Some(RatchetError::RatchetNotReady));
    alice.confirm_key_exchange().unwrap();
    assert_eq!(alice.state(), RatchetState::KeyExchanged);
    assert!(alice.is_active());
    assert!(alice.encrypt(b"x", b"").is_ok());
}

#[test]
fn ratchet_steps_need_a_session_that_was_set_up() {
    let mut fresh = EnhancedHybridRatchet::new();
    let pq = PqKeyPair::generate();
    assert_eq!(fresh.dh_ratchet(&[1u8; 32]), Err(RatchetError::NotInitialized));
    assert_eq!(fresh.pq_ratchet(&pq.public_key), Err(RatchetError::NotInitialized));
    assert_eq!(fresh.confirm_key_exchange(), Err(RatchetError::NotInitialized));
    assert_eq!(fresh.get_send_message_key().err(), Some(RatchetError::NoSendChain));
    assert_eq!(fresh.get_recv_message_key(1).err(), Some(RatchetError::NoReceiveChain));
}

#[test]
fn send_key_steps_the_chain_once_and_moves_no_counter() {
    let mut p = pair();
    let first = p.alice.get_send_message_key().unwrap();
    let second = p.alice.get_send_message_key().unwrap();
    assert_ne!(first, second);
    assert_eq!(p.alice.send_counter(), 0);
}

#[test]
fn round_trip_in_order() {
    let mut p = pair();
    for i in 0..5u8 {
        let plaintext = vec![i; 10 + i as usize];
        let message = p.seal(&plaintext, false);
        assert_eq!(message.header.message_number, i as u64 + 1);
        assert_eq!(p.open(&message), Ok(Some(plaintext)));
        assert_eq!(p.bob.recv_counter(), i as u64 + 1);
    }
}

#[test]
fn round_trip_of_an_empty_message() {
    let mut p = pair();
    let message = p.seal(b"", false);
    assert_eq!(p.open(&message), Ok(Some(Vec::new())));
}

#[test]
fn first_message_carries_the_handshake_and_later_ones_do_not() {
    let mut p = pair();
    let first = p.seal(b"one", false);
    assert!(first.header.dh_public_key.is_some());
    assert!(first.header.pq_ciphertext.is_some());
    assert_eq!(p.bob.state(), RatchetState::Initialized);
    assert_eq!(p.open(&first), Ok(Some(b"one".to_vec())));
    assert_eq!(p.bob.state(), RatchetState::KeyExchanged);
    let second = p.seal(b"two", false);
    assert!(second.header.dh_public_key.is_none());
    assert!(second.header.pq_ciphertext.is_none());
    assert_eq!(p.open(&second), Ok(Some(b"two".to_vec())));
}

#[test]
fn concrete_scenario() {
    let mut p = pair();
    let hello = p.seal(b"hello", false);
    assert_eq!(p.open(&hello), Ok(Some(b"hello".to_vec())));

    let dummy = p.seal(b"", true);
    assert_eq!(p.open(&dummy), Ok(None));

    let skipped = p.seal(b"skipped", false);
    let after = p.seal(b"after", false);
    assert_eq!(p.open(&after), Ok(Some(b"after".to_vec())));
    assert!(p.bob.has_skipped_key(skipped.header.message_number));
    assert_eq!(p.bob.skipped_key_count(), 1);

    assert_eq!(p.open(&skipped), Ok(Some(b"skipped".to_vec())));
    assert!(!p.bob.has_skipped_key(skipped.header.message_number));
    assert_eq!(p.bob.skipped_key_count(), 0);
}

#[test]
fn out_of_order_delivery() {
    let mut p = pair();
    let one = p.seal(b"one", false);
    let two = p.seal(b"two", false);
    let three = p.seal(b"three", false);
    assert_eq!(p.open(&one), Ok(Some(b"one".to_vec())));
    assert_eq!(p.open(&three), Ok(Some(b"three".to_vec())));
    assert!(p.bob.has_skipped_key(2));
    assert_eq!(p.open(&two), Ok(Some(b"two".to_vec())));
    assert_eq!(p.bob.recv_counter(), 3);
}

#[test]
fn replay_is_refused_and_moves_nothing() {
    let mut p = pair();
    let one = p.seal(b"one", false);
    let two = p.seal(b"two", false);
    let three = p.seal(b"three", false);
    assert!(p.open(&one).is_ok());
    assert!(p.open(&three).is_ok());
    let counter = p.bob.recv_counter();
    let cached = p.bob.skipped_key_count();
    assert_eq!(p.open(&one), Err(RatchetError::ReplayDetected));
    assert_eq!(p.open(&three), Err(RatchetError::ReplayDetected));
    assert_eq!(p.bob.recv_counter(), counter);
    assert_eq!(p.bob.skipped_key_count(), cached);
    assert!(p.open(&two).is_ok());
    assert_eq!(p.open(&two), Err(RatchetError::ReplayDetected));
}

#[test]
fn skip_limit_is_enforced_and_moves_nothing() {
    let mut p = pair_with_limits(2, 10);
    let messages: Vec<RatchetMessage> = (0..6u8).map(|i| p.seal(&[i], false)).collect();
    assert!(p.open(&messages[0]).is_ok());
    assert_eq!(p.open(&messages[4]), Err(RatchetError::TooManySkippedMessages));
    assert_eq!(p.bob.recv_counter(), 1);
    assert_eq!(p.bob.skipped_key_count(), 0);
    assert_eq!(p.open(&messages[3]), Ok(Some(vec![3u8])));
    assert_eq!(p.bob.skipped_key_count(), 2);
    assert_eq!(p.open(&messages[1]), Ok(Some(vec![1u8])));
}

#[test]
fn cache_evicts_the_oldest_key_first() {
    let mut p = pair_with_limits(100, 2);
    let messages: Vec<RatchetMessage> = (0..6u8).map(|i| p.seal(&[i], false)).collect();
    assert!(p.open(&messages[0]).is_ok());
    assert!(p.open(&messages[5]).is_ok());
    assert_eq!(p.bob.skipped_key_count(), 2);
    assert!(!p.bob.has_skipped_key(2));
    assert!(!p.bob.has_skipped_key(3));
    assert!(p.bob.has_skipped_key(4));
    assert!(p.bob.has_skipped_key(5));
    assert_eq!(p.open(&messages[1]), Err(RatchetError::ReplayDetected));
    assert_eq!(p.open(&messages[3]), Ok(Some(vec![3u8])));
    assert_eq!(p.bob.skipped_key_count(), 1);
}

fn flip(bytes: &mut [u8], at: usize) {
    bytes[at] ^= 0x01;
}

#[test]
fn tampering_is_detected() {
    let mut p = pair();
    let first = p.seal(b"setup", false);
    assert!(p.open(&first).is_ok());
    let message = p.seal(b"payload", false);

    let mut broken = clone(&message);
    flip(&mut broken.ciphertext, 0);
    assert_eq!(p.open(&broken), Err(RatchetError::AuthenticationFailed));

    let mut broken = clone(&message);
    flip(&mut broken.nonce, 3);
    assert_eq!(p.open(&broken), Err(RatchetError::AuthenticationFailed));

    let mut broken = clone(&message);
    broken.header.timestamp ^= 1;
    assert_eq!(p.open(&broken), Err(RatchetError::AuthenticationFailed));

    let mut broken = clone(&message);
    broken.header.previous_chain_length ^= 1;
    assert_eq!(p.open(&broken), Err(RatchetError::AuthenticationFailed));

    let mut broken = clone(&message);
    flip(&mut broken.mac, 15);
    assert_eq!(p.open(&broken), Err(RatchetError::AuthenticationFailed));

    assert_eq!(p.bob.recv_counter(), 1);
    assert_eq!(p.open(&message), Ok(Some(b"payload".to_vec())));
}

#[test]
fn other_associated_data_is_refused() {
    let mut p = pair();
    let message = p.seal(b"payload", false);
    assert_eq!(
        p.bob.receive(&message, b"other", "alice", &mut p.store),
        Err(RatchetError::AuthenticationFailed)
    );
    assert_eq!(p.bob.state(), RatchetState::Initialized);
}

#[test]
fn a_broken_signature_is_refused() {
    let mut p = pair();
    let message = p.seal(b"payload", false);
    let mut broken = clone(&message);
    flip(&mut broken.ephemeral_signature, 10);
    assert_eq!(p.open(&broken), Err(RatchetError::SignatureInvalid));
    assert_eq!(p.bob.state(), RatchetState::Initialized);
    assert_eq!(p.open(&message), Ok(Some(b"payload".to_vec())));
}

#[test]
fn another_ephemeral_key_from_a_pinned_sender_is_refused() {
    let mut p = pair();
    let first = p.seal(b"one", false);
    assert!(p.open(&first).is_ok());
    p.signer = OneTimeSigner::generate();
    let second = p.seal(b"two", false);
    assert_eq!(p.open(&second), Err(RatchetError::EphemeralKeyMismatch));
    assert_eq!(p.bob.recv_counter(), 1);
    assert!(p.store.unpin("alice"));
    assert_eq!(p.open(&second), Ok(Some(b"two".to_vec())));
}

#[test]
fn fresh_keys_per_message_need_a_new_pin() {
    let mut p = pair();
    let first = p.alice.encrypt(b"one", b"aad").unwrap();
    let second = p.alice.encrypt(b"two", b"aad").unwrap();
    assert!(first.header.timestamp > 1_600_000_000);
    assert!(second.header.timestamp >= first.header.timestamp);
    assert!(p.alice.is_well_formed());
    assert_ne!(first.ephemeral_public_key, second.ephemeral_public_key);
    assert_ne!(first.nonce, second.nonce);
    assert_eq!(p.open(&first), Ok(Some(b"one".to_vec())));
    assert_eq!(p.open(&second), Err(RatchetError::EphemeralKeyMismatch));
    p.store.unpin("alice");
    assert_eq!(p.open(&second), Ok(Some(b"two".to_vec())));
}

#[test]
fn cover_traffic_yields_nothing() {
    let mut p = pair();
    let dummy = p.alice.encrypt_dummy(b"aad").unwrap();
    assert_eq!(p.open(&dummy), Ok(None));
}

#[test]
fn rekey_period_drives_the_post_quantum_ratchet() {
    let bob_dh = DhKeyPair::from_secret([7u8; 32]);
    let bob_pq = PqKeyPair::generate();
    let mut alice = EnhancedHybridRatchet::with_limits(10, 10, 2);
    let mut bob = EnhancedHybridRatchet::with_limits(10, 10, 2);
    alice.initialize_sender(SHARED_SECRET, &bob_dh.public_key, &bob_pq.public_key).unwrap();
    alice.confirm_key_exchange().unwrap();
    bob.initialize_receiver(SHARED_SECRET, &bob_dh.secret_key, &bob_pq.secret_key).unwrap();
    let mut store = EphemeralKeyStore::new();
    for number in 1..=6u64 {
        let message = alice.encrypt(&[number as u8], b"").unwrap();
        assert_eq!(message.header.message_number, number);
        assert_eq!(message.header.pq_ciphertext.is_some(), number == 1 || number % 2 == 0);
        store.unpin("alice");
        assert_eq!(bob.receive(&message, b"", "alice", &mut store), Ok(Some(vec![number as u8])));
    }
}

#[test]
fn dh_ratchet_starts_a_new_chain_that_the_peer_follows() {
    let mut p = pair();
    let first = p.seal(b"one", false);
    assert!(p.open(&first).is_ok());
    let second = p.seal(b"two", false);
    assert!(p.open(&second).is_ok());

    let bob_public = p.bob.local_dh_public().unwrap();
    p.alice.dh_ratchet(&bob_public).unwrap();
    assert_eq!(p.alice.state(), RatchetState::Active);
    assert_eq!(p.alice.send_counter(), 0);

    let third = p.seal(b"three", false);
    assert_eq!(third.header.message_number, 1);
    assert_eq!(third.header.previous_chain_length, 2);
    assert!(third.header.dh_public_key.is_some());
    assert_eq!(p.open(&third), Ok(Some(b"three".to_vec())));
    assert_eq!(p.bob.state(), RatchetState::Active);
    assert_eq!(p.bob.recv_counter(), 1);
}

#[test]
fn a_compromised_session_refuses_everything() {
    let mut p = pair();
    let message = p.seal(b"one", false);
    assert!(p.open(&message).is_ok());
    let next = p.seal(b"two", false);

    p.alice.mark_compromised();
    p.bob.mark_compromised();
    assert_eq!(p.alice.state(), RatchetState::Compromised);
    assert_eq!(p.alice.encrypt(b"x", b"").err(), Some(RatchetError::SessionCompromised));
    assert_eq!(p.open(&next), Err(RatchetError::SessionCompromised));
    assert_eq!(p.bob.decrypt(&next, b"aad", "alice", &mut p.store), Err(RatchetError::SessionCompromised));
    assert_eq!(p.alice.get_send_message_key().err(), Some(RatchetError::SessionCompromised));
    assert_eq!(p.bob.get_recv_message_key(5).err(), Some(RatchetError::SessionCompromised));
    assert_eq!(p.bob.dh_ratchet(&[1u8; 32]), Err(RatchetError::SessionCompromised));
    assert_eq!(p.bob.skipped_key_count(), 0);
    let snapshot = p.bob.snapshot();
    assert_eq!(snapshot.root_key, [0u8; 32]);
    assert!(snapshot.send_chain_key.is_none());
    assert!(snapshot.recv_chain_key.is_none());
}

#[test]
fn a_session_is_the_same_after_snapshot_and_restore() {
    let mut p = pair();
    let one = p.seal(b"one", false);
    let two = p.seal(b"two", false);
    let three = p.seal(b"three", false);
    assert!(p.open(&one).is_ok());
    assert!(p.open(&three).is_ok());

    let snapshot = p.bob.snapshot();
    assert_eq!(snapshot.recv_counter, 3);
    assert_eq!(snapshot.skipped_keys.len(), 1);
    let mut restored = EnhancedHybridRatchet::restore(snapshot).expect("a session's snapshot");
    assert_eq!(restored.receive(&two, b"aad", "alice", &mut p.store), Ok(Some(b"two".to_vec())));
}

#[test]
fn a_snapshot_with_a_key_ahead_of_the_counter_is_refused() {
    let mut p = pair();
    let one = p.seal(b"one", false);
    let _two = p.seal(b"two", false);
    let three = p.seal(b"three", false);
    assert!(p.open(&one).is_ok());
    assert!(p.open(&three).is_ok());
    let mut snapshot = p.bob.snapshot();
    snapshot.recv_counter = 1;
    assert!(EnhancedHybridRatchet::restore(snapshot).is_none());

    let mut snapshot = p.bob.snapshot();
    snapshot.pq_rekey_period = 0;
    assert!(EnhancedHybridRatchet::restore(snapshot).is_none());

    let mut snapshot = p.bob.snapshot();
    let entry = snapshot.skipped_keys[0];
    snapshot.skipped_keys.push(entry);
    assert!(EnhancedHybridRatchet::restore(snapshot).is_none());
}

#[test]
fn pinning_is_trust_on_first_use() {
    let mut store = EphemeralKeyStore::new();
    assert_eq!(store.pinned_key("carol"), None);
    assert_eq!(verify_and_pin_ephemeral_key(&mut store, "carol", b"key one"), Ok(()));
    assert_eq!(store.pinned_key("carol"), Some(b"key one".to_vec()));
    assert_eq!(verify_and_pin_ephemeral_key(&mut store, "carol", b"key one"), Ok(()));
    assert_eq!(
        verify_and_pin_ephemeral_key(&mut store, "carol", b"key two"),
        Err(RatchetError::EphemeralKeyMismatch)
    );
    assert_eq!(store.pinned_key("carol"), Some(b"key one".to_vec()));
    assert_eq!(verify_and_pin_ephemeral_key(&mut store, "dave", b"key two"), Ok(()));
    assert!(store.admits("erin", b"anything"));
    assert!(!store.admits("dave", b"key one"));
}

fn clone(message: &RatchetMessage) -> RatchetMessage {
    qubee::crypto::wire::decode_envelope(&qubee::crypto::wire::encode_envelope(message))
        .expect("an envelope's bytes")
}

#[test]
fn wire_format_round_trip() {
    let mut p = pair();
    let first = p.seal(b"with handshake", false);
    let second = p.seal(b"without", true);
    for message in [&first, &second] {
        let bytes = qubee::crypto::wire::encode_envelope(message);
        let back = qubee::crypto::wire::decode_envelope(&bytes).expect("an envelope's bytes");
        assert_eq!(back.header.dh_public_key, message.header.dh_public_key);
        assert_eq!(back.header.pq_ciphertext, message.header.pq_ciphertext);
        assert_eq!(back.header.message_number, message.header.message_number);
        assert_eq!(back.header.timestamp, message.header.timestamp);
        assert_eq!(back.nonce, message.nonce);
        assert_eq!(back.ciphertext, message.ciphertext);
        assert_eq!(back.mac, message.mac);
        assert_eq!(back.ephemeral_public_key, message.ephemeral_public_key);
        assert_eq!(back.ephemeral_signature, message.ephemeral_signature);
        assert!(qubee::crypto::wire::decode_envelope(&bytes[..bytes.len() - 1]).is_none());
        let mut longer = bytes.clone();
        longer.push(0);
        assert!(qubee::crypto::wire::decode_envelope(&longer).is_none());
    }
    assert!(qubee::crypto::wire::decode_envelope(&[]).is_none());
    assert!(qubee::crypto::wire::decode_envelope(&[2u8; 100]).is_none());
}

#[test]
fn header_bytes_are_laid_out_field_by_field() {
    let header = qubee::crypto::envelope::MessageHeader {
        dh_public_key: None,
        pq_ciphertext: Some(vec![0xAA, 0xBB]),
        previous_chain_length: 1,
        message_number: 0x0102,
        timestamp: 3,
    };
    let bytes = qubee::crypto::envelope::encode_header(&header);
    let expected: Vec<u8> = vec![
        0, 1, 2, 0, 0, 0, 0, 0, 0, 0, 0xAA, 0xBB, 1, 0, 0, 0, 0, 0, 0, 0, 2, 1, 0, 0, 0, 0, 0, 0,
        3, 0, 0, 0, 0, 0, 0, 0,
    ];
    assert_eq!(bytes, expected);
}

fn default_pair() -> (EnhancedHybridRatchet, EnhancedHybridRatchet, EphemeralKeyStore) {
    let bob_dh = DhKeyPair::from_secret([9u8; 32]);
    let bob_pq = PqKeyPair::generate();
    let mut alice = EnhancedHybridRatchet::new();
    let mut bob = EnhancedHybridRatchet::new();
    alice.initialize_sender(SHARED_SECRET, &bob_dh.public_key, &bob_pq.public_key).unwrap();
    alice.confirm_key_exchange().unwrap();
    bob.initialize_receiver(SHARED_SECRET, &bob_dh.secret_key, &bob_pq.secret_key).unwrap();
    (alice, bob, EphemeralKeyStore::new())
}

fn deliver(
    bob: &mut EnhancedHybridRatchet,
    store: &mut EphemeralKeyStore,
    message: &RatchetMessage,
) -> Result<Option<Vec<u8>>, RatchetError> {
    // Every message of `encrypt` is signed with a key of its own.
    store.unpin("alice");
    bob.receive(message, b"aad", "alice", store)
}

#[test]
fn out_of_order_delivery_with_the_default_settings() {
    let (mut alice, mut bob, mut store) = default_pair();
    let one = alice.encrypt(b"one", b"aad").unwrap();
    let two = alice.encrypt(b"two", b"aad").unwrap();
    let three = alice.encrypt(b"three", b"aad").unwrap();
    assert!(one.header.pq_ciphertext.is_some());
    assert!(two.header.pq_ciphertext.is_none());
    assert!(three.header.pq_ciphertext.is_none());

    assert_eq!(deliver(&mut bob, &mut store, &one), Ok(Some(b"one".to_vec())));
    assert_eq!(deliver(&mut bob, &mut store, &three), Ok(Some(b"three".to_vec())));
    assert!(bob.has_skipped_key(2));
    assert_eq!(deliver(&mut bob, &mut store, &two), Ok(Some(b"two".to_vec())));
    assert_eq!(bob.skipped_key_count(), 0);
    assert_eq!(deliver(&mut bob, &mut store, &two), Err(RatchetError::ReplayDetected));
}

#[test]
fn delivery_in_order_crosses_a_rekey_with_the_default_settings() {
    let (mut alice, mut bob, mut store) = default_pair();
    for number in 1..=101u64 {
        let message = alice.encrypt(&number.to_le_bytes(), b"aad").unwrap();
        assert_eq!(message.header.message_number, number);
        assert_eq!(message.header.pq_ciphertext.is_some(), number == 1 || number == 100);
        assert_eq!(
            deliver(&mut bob, &mut store, &message),
            Ok(Some(number.to_le_bytes().to_vec()))
        );
    }
    assert_eq!(bob.recv_counter(), 101);
}

#[test]
fn a_message_that_a_rekey_overtook_is_refused() {
    let bob_dh = DhKeyPair::from_secret([9u8; 32]);
    let bob_pq = PqKeyPair::generate();
    let mut alice = EnhancedHybridRatchet::with_limits(10, 10, 3);
    let mut bob = EnhancedHybridRatchet::with_limits(10, 10, 3);
    alice.initialize_sender(SHARED_SECRET, &bob_dh.public_key, &bob_pq.public_key).unwrap();
    alice.confirm_key_exchange().unwrap();
    bob.initialize_receiver(SHARED_SECRET, &bob_dh.secret_key, &bob_pq.secret_key).unwrap();
    let mut store = EphemeralKeyStore::new();

    let one = alice.encrypt(b"one", b"aad").unwrap();
    let two = alice.encrypt(b"two", b"aad").unwrap();
    let three = alice.encrypt(b"three", b"aad").unwrap();
    let four = alice.encrypt(b"four", b"aad").unwrap();
    assert!(two.header.pq_ciphertext.is_none());
    assert!(three.header.pq_ciphertext.is_some());

    assert_eq!(deliver(&mut bob, &mut store, &one), Ok(Some(b"one".to_vec())));
    // The third message moves the root key; the second was sealed under
    // the root key before.
    assert_eq!(deliver(&mut bob, &mut store, &three), Ok(Some(b"three".to_vec())));
    assert!(bob.has_skipped_key(2));
    assert_eq!(deliver(&mut bob, &mut store, &two), Err(RatchetError::AuthenticationFailed));
    assert_eq!(bob.recv_counter(), 3);
    assert!(bob.has_skipped_key(2));
    assert_eq!(deliver(&mut bob, &mut store, &four), Ok(Some(b"four".to_vec())));
}

#[test]
fn the_responder_owes_a_step_of_its_own_before_it_answers() {
    let (mut alice, mut bob, mut store) = default_pair();
    let hello = alice.encrypt(b"hello", b"aad").unwrap();
    assert_eq!(bob.remote_dh_public(), None);
    assert_eq!(deliver(&mut bob, &mut store, &hello), Ok(Some(b"hello".to_vec())));
    // The session holds the key the header brought, and cannot send yet.
    assert_eq!(bob.remote_dh_public(), hello.header.dh_public_key);
    assert_eq!(bob.encrypt(b"hi", b"aad").err(), Some(RatchetError::NoSendChain));

    let key = bob.remote_dh_public().unwrap();
    bob.dh_ratchet(&key).unwrap();
    let answer = bob.encrypt(b"hi", b"aad").unwrap();
    assert!(answer.header.dh_public_key.is_some());
    let mut alices_store = EphemeralKeyStore::new();
    assert_eq!(alice.receive(&answer, b"aad", "bob", &mut alices_store), Ok(Some(b"hi".to_vec())));
    assert_eq!(alice.remote_dh_public(), answer.header.dh_public_key);
}
