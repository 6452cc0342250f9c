use qubee::calling::call_manager::{can_start_call, CallManagerConfig, CallSettings, MediaState, VideoQuality};
use qubee::calling::webrtc_manager::{
    AudioConstraints, CurrentDevices, DeviceCapabilities, DeviceError, MediaDevice, MediaDeviceType,
    MediaDevicesManager, MediaStreamConfig, VideoConstraints,
};
use qubee::identity::zk_proof::{
    compress_proof_data, decompress_proof_data, parse_nfc_frame, ProofChecks, ProofContext,
    ProofFormatError, ProofVerificationResult, ZKProofVerifier,
};
use qubee::identity::{IdentityError, IdentityKeyPair};

#[test]
fn signatures_are_made_and_checked() {
    let pair = IdentityKeyPair::generate().expect("a key pair");
    let signature = pair.sign_message(b"message").expect("a signature");
    assert_ne!(signature, b"message".to_vec());
    assert_eq!(pair.verify_signature(b"message", &signature), Ok(()));
    assert_eq!(pair.verify_signature(b"other", &signature), Err(IdentityError::SignatureInvalid));
    assert_eq!(pair.verify_signature(b"message", b"no signature"), Err(IdentityError::SignatureInvalid));
    let other = IdentityKeyPair::generate().expect("a key pair");
    assert_eq!(other.verify_signature(b"message", &signature), Err(IdentityError::SignatureInvalid));
    let broken = IdentityKeyPair { sk: vec![1, 2, 3], pk: pair.public_key() };
    assert_eq!(broken.sign_message(b"message"), Err(IdentityError::InvalidKey));
}

fn checks() -> ProofChecks {
    ProofChecks {
        identity_matches: true,
        context_matches: true,
        now: 1000,
        timestamp: 900,
        validity_duration: 300,
        replayed: false,
        classical_valid: true,
        pq_valid: true,
        claims_valid: true,
    }
}

#[test]
fn the_first_failing_check_decides_the_verdict() {
    let verifier = ZKProofVerifier::new();
    assert!(!verifier.is_replay_attack(&[0u8; 32]));
    assert_eq!(verifier.verdict(&checks()), ProofVerificationResult::Valid);
    assert_eq!(
        verifier.verdict(&ProofChecks { identity_matches: false, context_matches: false, ..checks() }),
        ProofVerificationResult::Invalid
    );
    assert_eq!(
        verifier.verdict(&ProofChecks { context_matches: false, now: 5000, ..checks() }),
        ProofVerificationResult::InvalidContext
    );
    assert_eq!(
        verifier.verdict(&ProofChecks { now: 1201, replayed: true, ..checks() }),
        ProofVerificationResult::Expired
    );
    assert_eq!(verifier.verdict(&ProofChecks { now: 1200, ..checks() }), ProofVerificationResult::Valid);
    assert_eq!(verifier.verdict(&ProofChecks { now: 0, ..checks() }), ProofVerificationResult::Valid);
    assert_eq!(
        verifier.verdict(&ProofChecks { replayed: true, pq_valid: false, ..checks() }),
        ProofVerificationResult::ReplayAttack
    );
    assert_eq!(verifier.verdict(&ProofChecks { pq_valid: false, ..checks() }), ProofVerificationResult::Invalid);
    assert_eq!(ProofContext::default().validity_duration, 300);
    assert_eq!(ProofContext::default().purpose, "key_verification");
}

#[test]
fn proof_data_is_run_length_encoded() {
    let data = [1u8, 2, 2, 2, 3, 3, 3, 3, 3, 4];
    let compressed = compress_proof_data(&data).expect("short data");
    assert_eq!(compressed, vec![b'Z', b'K', b'P', b'1', 10, 0, 0, 0, 1, 2, 2, 2, 0xFF, 5, 3, 4]);
    assert_eq!(decompress_proof_data(&compressed), Ok(data.to_vec()));
    let long = vec![9u8; 600];
    let compressed = compress_proof_data(&long).expect("short data");
    assert_eq!(&compressed[8..], &[0xFF, 255, 9, 0xFF, 255, 9, 0xFF, 90, 9]);
    assert_eq!(ZKProofVerifier::new().decompress_proof_data(&compressed), Ok(long));
    assert_eq!(compress_proof_data(&[]).expect("short data").len(), 8);
    assert_eq!(decompress_proof_data(b"ZKP1\x00\x00\x00\x00"), Ok(Vec::new()));
    assert_eq!(decompress_proof_data(b"ZKP2\x00\x00\x00\x00"), Err(ProofFormatError::InvalidFormat));
    assert_eq!(decompress_proof_data(b"ZKP1"), Err(ProofFormatError::InvalidFormat));
    assert_eq!(decompress_proof_data(b"ZKP1\x02\x00\x00\x00\x07"), Err(ProofFormatError::LengthMismatch));
    assert_eq!(decompress_proof_data(b"ZKP1\x02\x00\x00\x00\xFF\x07"), Ok(vec![0xFF, 7]));
    assert_eq!(decompress_proof_data(b"ZKP1\x03\x00\x00\x00\xFF\x03\x07"), Ok(vec![7, 7, 7]));
}

#[test]
fn nfc_frames_are_checked() {
    let mut frame = b"QUBEE_ZK".to_vec();
    frame.extend_from_slice(&5u32.to_le_bytes());
    frame.extend_from_slice(b"proof");
    let checksum = crc32fast::hash(&frame);
    frame.extend_from_slice(&checksum.to_le_bytes());
    assert_eq!(parse_nfc_frame(&frame), Ok(b"proof".to_vec()));
    let mut broken = frame.clone();
    broken[13] ^= 1;
    assert_eq!(parse_nfc_frame(&broken), Err(ProofFormatError::ChecksumMismatch));
    assert_eq!(parse_nfc_frame(&frame[..frame.len() - 1]), Err(ProofFormatError::Truncated));
    assert_eq!(parse_nfc_frame(&frame[..15]), Err(ProofFormatError::InvalidFormat));
    let mut other = frame.clone();
    other[0] = b'X';
    assert_eq!(parse_nfc_frame(&other), Err(ProofFormatError::InvalidFormat));
}

fn device(id: &str, device_type: MediaDeviceType) -> MediaDevice {
    MediaDevice {
        id: id.to_string(),
        name: id.to_string(),
        device_type,
        is_default: false,
        capabilities: DeviceCapabilities {
            audio_sample_rates: vec![48000],
            video_resolutions: Vec::new(),
            video_frame_rates: Vec::new(),
            audio_codecs: Vec::new(),
            video_codecs: Vec::new(),
        },
    }
}

#[test]
fn only_devices_at_hand_are_put_to_use() {
    let mut manager = MediaDevicesManager::with_devices(
        vec![device("mic", MediaDeviceType::AudioInput)],
        vec![device("cam", MediaDeviceType::VideoInput)],
        vec![device("out", MediaDeviceType::AudioOutput)],
    );
    assert!(manager.get_current_devices().audio_input.is_none());
    let wanted = CurrentDevices {
        audio_input: Some("mic".to_string()),
        video_input: Some("none".to_string()),
        audio_output: Some("none".to_string()),
    };
    assert_eq!(manager.set_current_devices(wanted), Err(DeviceError::InvalidVideoInput));
    assert!(manager.get_current_devices().audio_input.is_none());
    let wanted = CurrentDevices { audio_input: Some("cam".to_string()), video_input: None, audio_output: None };
    assert_eq!(manager.set_current_devices(wanted), Err(DeviceError::InvalidAudioInput));
    let wanted = CurrentDevices { audio_input: None, video_input: None, audio_output: Some("mic".to_string()) };
    assert_eq!(manager.set_current_devices(wanted), Err(DeviceError::InvalidAudioOutput));
    let wanted = CurrentDevices {
        audio_input: Some("mic".to_string()),
        video_input: None,
        audio_output: Some("out".to_string()),
    };
    assert_eq!(manager.set_current_devices(wanted), Ok(()));
    assert_eq!(manager.get_current_devices().audio_input.as_deref(), Some("mic"));
}

#[test]
fn defaults_of_calls_and_streams() {
    let settings = CallSettings::default();
    assert_eq!(settings.max_participants, Some(8));
    assert_eq!(settings.video_quality, VideoQuality::Auto);
    let config = CallManagerConfig::default();
    assert_eq!(config.stun_servers[0], "stun:stun.l.google.com:19302");
    assert!(can_start_call(9, &config));
    assert!(!can_start_call(10, &config));
    assert!(MediaState::default().audio_enabled);
    assert_eq!(AudioConstraints::default().sample_rate, Some(48000));
    assert_eq!(VideoConstraints::default().height, Some(720));
    assert!(!MediaStreamConfig::default().video_enabled);
}
