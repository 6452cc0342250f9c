use qubee::audio::{decrypt_audio_packet, dummy_packet_delay, encrypt_audio_packet, next_dummy_audio_packet, next_sequence};
use qubee::crypto::enhanced_ratchet::EnhancedHybridRatchet;
use qubee::crypto::keys::{DhKeyPair, PqKeyPair};
use qubee::ephemeral_keys::EphemeralKeyStore;
use qubee::errors::{MessengerError, RatchetError};
use qubee::file_transfer::{
    count_chunks, frame, locate_chunk, read_frame_length, ChunkOutcome, FileReceiver, FileSender,
    FileTransferError, CHUNK_SIZE,
};
use qubee::secure_message::SecureMsg;

fn sessions() -> (EnhancedHybridRatchet, EnhancedHybridRatchet) {
    let dh = DhKeyPair::generate().expect("entropy");
    let pq = PqKeyPair::generate();
    let mut alice = EnhancedHybridRatchet::with_limits(100, 100, 3);
    let mut bob = EnhancedHybridRatchet::with_limits(100, 100, 3);
    alice.initialize_sender(b"secret", &dh.public_key, &pq.public_key).unwrap();
    alice.confirm_key_exchange().unwrap();
    bob.initialize_receiver(b"secret", &dh.secret_key, &pq.secret_key).unwrap();
    (alice, bob)
}

#[test]
fn text_messages_and_cover_traffic() {
    let (mut alice, mut bob) = sessions();
    let mut store = EphemeralKeyStore::new();
    let message = SecureMsg::encrypt(&mut alice, b"hi there", false).unwrap();
    assert_eq!(SecureMsg::decrypt(&mut bob, &message, "alice", &mut store), Ok(Some(b"hi there".to_vec())));
    store.unpin("alice");
    let cover = SecureMsg::encrypt(&mut alice, b"", true).unwrap();
    assert_eq!(SecureMsg::decrypt(&mut bob, &cover, "alice", &mut store), Ok(None));
    let refused = SecureMsg::encrypt(&mut alice, b"again", false).unwrap();
    let error = SecureMsg::decrypt(&mut bob, &refused, "alice", &mut store).unwrap_err();
    assert_eq!(error, RatchetError::EphemeralKeyMismatch);
    assert!(matches!(MessengerError::from_ratchet(error), MessengerError::EphemeralKeyMismatch));
    assert_eq!(
        MessengerError::from_ratchet(RatchetError::ReplayDetected).message(),
        "Decryption error: Replay attack detected"
    );
    assert_eq!(
        MessengerError::EphemeralKeyMismatch.message(),
        "Ephemeral key mismatch detected (possible MITM)"
    );
}

#[test]
fn audio_packets_are_bound_to_version_and_sequence() {
    let (mut alice, mut bob) = sessions();
    let mut store = EphemeralKeyStore::new();
    let mut packet = encrypt_audio_packet(&mut alice, b"frame", 1, 7, false).unwrap();
    assert_eq!((packet.version, packet.seq), (1, 7));
    packet.seq = 8;
    assert_eq!(
        decrypt_audio_packet(&mut bob, &packet, "alice", &mut store),
        Err(RatchetError::AuthenticationFailed)
    );
    packet.seq = 7;
    assert_eq!(decrypt_audio_packet(&mut bob, &packet, "alice", &mut store), Ok(Some(b"frame".to_vec())));
    store.unpin("alice");
    let (dummy, next) = next_dummy_audio_packet(&mut alice, 1, u32::MAX);
    assert_eq!(next, 0);
    assert_eq!(decrypt_audio_packet(&mut bob, &dummy.unwrap(), "alice", &mut store), Ok(None));
}

#[test]
fn cover_traffic_timing() {
    assert_eq!(dummy_packet_delay(15, 0), 15);
    assert_eq!(dummy_packet_delay(15, 4), 19);
    assert_eq!(dummy_packet_delay(15, 5), 15);
    assert_eq!(dummy_packet_delay(15, 12), 17);
    assert_eq!(dummy_packet_delay(u64::MAX, 3), u64::MAX);
    assert_eq!(next_sequence(0), 1);
    assert_eq!(next_sequence(u32::MAX), 0);
}

#[test]
fn files_are_cut_into_chunks() {
    assert_eq!(CHUNK_SIZE, 65536);
    assert_eq!(count_chunks(0), 0);
    assert_eq!(count_chunks(1), 1);
    assert_eq!(count_chunks(65536), 1);
    assert_eq!(count_chunks(65537), 2);
    assert_eq!(count_chunks(200000), 4);
    assert_eq!(locate_chunk(200000, 0), (0, 65536));
    assert_eq!(locate_chunk(200000, 2), (131072, 196608));
    assert_eq!(locate_chunk(200000, 3), (196608, 200000));
    assert_eq!(locate_chunk(65536, 0), (0, 65536));
}

#[test]
fn frames_carry_their_length_big_endian() {
    let framed = frame(&[7u8; 300]).expect("a short frame");
    assert_eq!(&framed[..4], &[0, 0, 1, 44]);
    assert_eq!(framed.len(), 304);
    assert_eq!(read_frame_length(&[0, 0, 1, 44]), 300);
    assert_eq!(read_frame_length(&[1, 2, 3, 4]), 0x01020304);
    assert_eq!(frame(&[]).expect("an empty frame"), vec![0, 0, 0, 0]);
}

#[test]
fn a_file_arrives_whole_and_is_verified() {
    let (mut alice, mut bob) = sessions();
    let mut store = EphemeralKeyStore::new();
    let content: Vec<u8> = (0..150_000u32).map(|i| (i % 251) as u8).collect();
    let mut sender = FileSender::new(77);
    let mut receiver = FileReceiver::new(77);
    let mut received = Vec::new();
    for index in 0..count_chunks(content.len()) {
        let (start, end) = locate_chunk(content.len(), index);
        let chunk = sender.send_chunk(&mut alice, &content[start..end]).expect("a chunk");
        assert_eq!(chunk.seq_number, if index == 0 { 0 } else { index as u32 + 1 });
        assert!(!chunk.is_hash);
        store.unpin("alice");
        match receiver.accept_chunk(&mut bob, &chunk, "alice", &mut store) {
            Ok(ChunkOutcome::Data(data)) => received.extend_from_slice(&data),
            _ => panic!("a part of the file"),
        }
        if index == 0 {
            let dummy = sender.send_dummy(&mut alice).expect("cover traffic");
            store.unpin("alice");
            assert!(matches!(
                receiver.accept_chunk(&mut bob, &dummy, "alice", &mut store),
                Ok(ChunkOutcome::Dummy)
            ));
        }
    }
    let last = sender.finish(&mut alice).expect("the hash chunk");
    assert!(last.is_hash);
    assert_eq!(last.seq_number, 4);
    store.unpin("alice");
    assert!(!receiver.is_finished());
    assert!(matches!(receiver.accept_chunk(&mut bob, &last, "alice", &mut store), Ok(ChunkOutcome::Verified)));
    assert!(receiver.is_finished());
    assert_eq!(received, content);
    assert_eq!(
        receiver.accept_chunk(&mut bob, &last, "alice", &mut store).err(),
        Some(FileTransferError::TransferFinished)
    );
    assert_eq!(sender.finish(&mut alice).err(), Some(FileTransferError::TransferFinished));
    assert_eq!(sender.send_chunk(&mut alice, b"more").err(), Some(FileTransferError::TransferFinished));
}

#[test]
fn a_file_with_a_missing_part_fails_its_hash() {
    let (mut alice, mut bob) = sessions();
    let mut store = EphemeralKeyStore::new();
    let mut sender = FileSender::new(1);
    let mut receiver = FileReceiver::new(1);
    let first = sender.send_chunk(&mut alice, b"first part").unwrap();
    let _lost = sender.send_chunk(&mut alice, b"second part").unwrap();
    let last = sender.finish(&mut alice).unwrap();
    assert!(matches!(receiver.accept_chunk(&mut bob, &first, "alice", &mut store), Ok(ChunkOutcome::Data(_))));
    store.unpin("alice");
    assert_eq!(
        receiver.accept_chunk(&mut bob, &last, "alice", &mut store).err(),
        Some(FileTransferError::FileIntegrityMismatch)
    );
    assert!(!receiver.is_finished());
}

#[test]
fn chunks_are_checked_before_they_count() {
    let (mut alice, mut bob) = sessions();
    let mut store = EphemeralKeyStore::new();
    let mut sender = FileSender::new(1);
    let mut receiver = FileReceiver::new(2);
    assert_eq!(sender.send_chunk(&mut alice, b"").err(), Some(FileTransferError::InvalidChunkSize));
    assert_eq!(
        sender.send_chunk(&mut alice, &vec![0u8; CHUNK_SIZE + 1]).err(),
        Some(FileTransferError::InvalidChunkSize)
    );
    let chunk = sender.send_chunk(&mut alice, &vec![0u8; CHUNK_SIZE]).unwrap();
    assert!(matches!(receiver.accept_chunk(&mut bob, &chunk, "alice", &mut store), Ok(ChunkOutcome::Ignored)));
    let mut receiver = FileReceiver::new(1);
    let mut marked = chunk;
    marked.is_hash = true;
    assert_eq!(
        receiver.accept_chunk(&mut bob, &marked, "alice", &mut store).err(),
        Some(FileTransferError::Ratchet(RatchetError::AuthenticationFailed))
    );
    marked.is_hash = false;
    assert!(matches!(receiver.accept_chunk(&mut bob, &marked, "alice", &mut store), Ok(ChunkOutcome::Data(_))));
}

#[test]
fn a_session_that_is_not_ready_refuses_chunks_and_moves_nothing() {
    let mut idle = EnhancedHybridRatchet::new();
    let mut sender = FileSender::new(3);
    assert_eq!(
        sender.send_chunk(&mut idle, b"part").err(),
        Some(FileTransferError::Ratchet(RatchetError::RatchetNotReady))
    );
    assert_eq!(
        sender.send_dummy(&mut idle).err(),
        Some(FileTransferError::Ratchet(RatchetError::RatchetNotReady))
    );
    assert_eq!(
        sender.finish(&mut idle).err(),
        Some(FileTransferError::Ratchet(RatchetError::RatchetNotReady))
    );
    // The size of a chunk is looked at before the session is.
    assert_eq!(sender.send_chunk(&mut idle, b"").err(), Some(FileTransferError::InvalidChunkSize));
    assert_eq!(idle.send_counter(), 0);
}
