use qubee::calling::call_manager::{
    can_start_call, CallAction, CallError, CallEvent, CallId, CallManager, CallManagerConfig,
    CallSettings, CallState, CallType, ConnectionQuality, Invitee, ParticipantState,
};
use qubee::identity::identity_key::IdentityId;
use qubee::calling::webrtc_manager::{
    get_supported_codecs, CurrentDevices, DeviceError, MediaDeviceType, MediaDevicesManager,
    WebRTCConfig, WebRTCManager,
};

fn webrtc_config() -> WebRTCConfig {
    WebRTCConfig {
        stun_servers: vec!["stun:stun.l.google.com:19302".to_string()],
        turn_servers: Vec::new(),
        enable_dtls: true,
        enable_srtp: true,
    }
}

#[test]
fn test_webrtc_manager_creation() {
    let webrtc_manager = WebRTCManager::new(webrtc_config());

    let devices = webrtc_manager.get_media_devices();
    assert!(!devices.is_empty());

    let audio_devices: Vec<_> = devices
        .iter()
        .filter(|d| d.device_type == MediaDeviceType::AudioInput)
        .collect();
    assert!(!audio_devices.is_empty());
}

#[test]
fn test_media_devices_manager() {
    let manager = MediaDevicesManager::new();

    let devices = manager.get_devices();
    assert!(!devices.is_empty());

    let audio_inputs = manager.get_devices_by_type(MediaDeviceType::AudioInput);
    assert!(!audio_inputs.is_empty());

    let current_devices = manager.get_current_devices();
    assert!(current_devices.audio_input.is_some());
}

#[test]
fn test_supported_codecs() {
    let webrtc_manager = WebRTCManager::new(WebRTCConfig {
        stun_servers: Vec::new(),
        turn_servers: Vec::new(),
        enable_dtls: true,
        enable_srtp: true,
    });

    let codecs = webrtc_manager.get_supported_codecs();
    assert!(!codecs.is_empty());

    let opus_codec = codecs.iter().find(|c| c.name == "opus");
    assert!(opus_codec.is_some());

    let vp8_codec = codecs.iter().find(|c| c.name == "VP8");
    assert!(vp8_codec.is_some());
}

#[test]
fn the_supported_codecs_are_three_for_sound_and_three_for_pictures() {
    let codecs = get_supported_codecs();
    let names: Vec<&str> = codecs.iter().map(|c| c.name.as_str()).collect();
    assert_eq!(names, vec!["opus", "PCMU", "PCMA", "VP8", "VP9", "H264"]);
    let payload_types: Vec<u8> = codecs.iter().map(|c| c.payload_type).collect();
    assert_eq!(payload_types, vec![111, 0, 8, 96, 98, 102]);
    assert_eq!(codecs[0].clock_rate, 48000);
    assert_eq!(codecs[0].channels, Some(2));
    assert_eq!(codecs[1].clock_rate, 8000);
    assert_eq!(codecs[3].clock_rate, 90000);
    assert_eq!(codecs[3].channels, None);
    assert!(codecs[4].parameters.is_empty());
    assert_eq!(
        codecs[5].parameters,
        vec![("profile-level-id".to_string(), "42e01f".to_string())]
    );
}

#[test]
fn the_default_devices_are_a_microphone_a_camera_and_a_speaker() {
    let manager = MediaDevicesManager::new();
    let devices = manager.get_devices();
    assert_eq!(devices.len(), 3);
    assert_eq!(devices[0].id, "default_audio_input");
    assert_eq!(devices[0].name, "Default Microphone");
    assert_eq!(devices[0].device_type, MediaDeviceType::AudioInput);
    assert!(devices[0].is_default);
    assert_eq!(devices[0].capabilities.audio_sample_rates, vec![8000, 16000, 44100, 48000]);
    assert_eq!(devices[0].capabilities.audio_codecs, vec!["opus".to_string(), "PCMU".to_string()]);
    assert_eq!(devices[1].id, "default_video_input");
    assert_eq!(devices[1].name, "Default Camera");
    assert_eq!(
        devices[1].capabilities.video_resolutions,
        vec![(640, 480), (1280, 720), (1920, 1080)]
    );
    assert_eq!(devices[1].capabilities.video_frame_rates, vec![15, 30, 60]);
    assert_eq!(
        devices[1].capabilities.video_codecs,
        vec!["VP8".to_string(), "VP9".to_string(), "H264".to_string()]
    );
    assert_eq!(devices[2].id, "default_audio_output");
    assert_eq!(devices[2].name, "Default Speaker");
    assert_eq!(devices[2].device_type, MediaDeviceType::AudioOutput);

    let cameras = manager.get_devices_by_type(MediaDeviceType::VideoInput);
    assert_eq!(cameras.len(), 1);
    assert_eq!(cameras[0].id, "default_video_input");

    let current = manager.get_current_devices();
    assert_eq!(current.audio_input.as_deref(), Some("default_audio_input"));
    assert_eq!(current.video_input.as_deref(), Some("default_video_input"));
    assert_eq!(current.audio_output.as_deref(), Some("default_audio_output"));
}

#[test]
fn a_device_that_is_not_at_hand_cannot_be_chosen() {
    let mut manager = MediaDevicesManager::new();
    let refused = manager.set_current_devices(CurrentDevices {
        audio_input: Some("default_audio_input".to_string()),
        video_input: Some("front_camera".to_string()),
        audio_output: None,
    });
    assert_eq!(refused, Err(DeviceError::InvalidVideoInput));
    assert_eq!(
        manager.get_current_devices().video_input.as_deref(),
        Some("default_video_input")
    );

    let accepted = manager.set_current_devices(CurrentDevices {
        audio_input: None,
        video_input: Some("default_video_input".to_string()),
        audio_output: None,
    });
    assert_eq!(accepted, Ok(()));
    assert!(manager.get_current_devices().audio_input.is_none());

    manager.refresh_devices();
    let current = manager.get_current_devices();
    assert_eq!(current.audio_input.as_deref(), Some("default_audio_input"));
    assert_eq!(current.video_input.as_deref(), Some("default_video_input"));
}

#[test]
fn the_call_settings_start_with_two_stun_servers() {
    let config = CallManagerConfig::default();
    assert_eq!(
        config.stun_servers,
        vec![
            "stun:stun.l.google.com:19302".to_string(),
            "stun:stun1.l.google.com:19302".to_string()
        ]
    );
    assert_eq!(config.max_concurrent_calls, 10);
    assert!(can_start_call(9, &config));
    assert!(!can_start_call(10, &config));
}

fn person(byte: u8) -> IdentityId {
    IdentityId::from_bytes([byte; 32])
}

fn invitee(byte: u8, name: &str) -> Invitee {
    Invitee { identity_id: person(byte), identity_key: vec![byte], display_name: name.to_string() }
}

#[test]
fn test_call_creation() {
    let config = CallManagerConfig::default();
    let mut call_manager = CallManager::new(config);

    let initiator = IdentityId::from_bytes([1u8; 32]);
    let participants = vec![invitee(2, "Unknown")];

    let (call_id, _actions) = call_manager
        .initiate_call(initiator, participants, CallType::VoiceCall, None, CallSettings::default())
        .expect("Should initiate call");

    let call = call_manager.get_call(&call_id).expect("Should find call");
    assert_eq!(call.call_type, CallType::VoiceCall);
    assert_eq!(call.initiator, initiator);
    assert_eq!(call.participants.len(), 1);
}

fn ringing(manager: &mut CallManager, call_type: CallType, settings: CallSettings) -> CallId {
    let call_id = CallId([7u8; 16]);
    manager
        .initiate_call_with(
            call_id,
            person(1),
            vec![invitee(1, "A"), invitee(2, "B"), invitee(3, "C")],
            call_type,
            None,
            settings,
            100,
        )
        .unwrap();
    call_id
}

#[test]
fn a_call_rings_and_everyone_but_the_initiator_is_invited() {
    let mut manager = CallManager::new(CallManagerConfig::default());
    let settings = CallSettings { auto_mute_on_join: true, ..CallSettings::default() };
    let call_id = CallId([7u8; 16]);
    let actions = manager
        .initiate_call_with(
            call_id,
            person(1),
            vec![invitee(1, "A"), invitee(2, "B"), invitee(3, "C"), invitee(2, "B again")],
            CallType::GroupVideoCall,
            None,
            settings,
            100,
        )
        .unwrap();

    assert_eq!(actions.len(), 6);
    for (at, to) in [(0usize, 2u8), (2, 3)] {
        match &actions[at] {
            CallAction::SendInvitation { to: whom, call_id: c, caller, call_type, .. } => {
                assert_eq!(*whom, person(to));
                assert_eq!(*c, call_id);
                assert_eq!(*caller, person(1));
                assert_eq!(*call_type, CallType::GroupVideoCall);
            }
            _ => panic!("an invitation was expected"),
        }
        assert!(matches!(
            &actions[at + 1],
            CallAction::Notify { event: CallEvent::IncomingCall { caller, .. } } if *caller == person(1)
        ));
    }
    assert!(matches!(
        &actions[4],
        CallAction::Notify {
            event: CallEvent::CallStateChanged {
                old_state: CallState::Initiating,
                new_state: CallState::Ringing,
                ..
            }
        }
    ));
    assert!(matches!(&actions[5], CallAction::StartRingTimer { seconds: 60, .. }));

    let call = manager.get_call(&call_id).unwrap();
    assert_eq!(call.state, CallState::Ringing);
    assert_eq!(call.created_at, 100);
    assert_eq!(call.started_at, None);
    assert_eq!(call.participants.len(), 3);
    let second = call.participant(&person(2)).unwrap();
    assert_eq!(second.display_name, "B again");
    assert_eq!(second.participant_state, ParticipantState::Invited);
    assert!(second.is_muted);
    assert!(second.is_video_enabled);
    assert!(!second.is_screen_sharing);
    assert!(second.media_state.audio_enabled);
    assert_eq!(second.connection_quality.quality_score, 5);
    assert_eq!(manager.get_active_calls().len(), 1);
}

#[test]
fn a_call_needs_participants_and_room() {
    let config = CallManagerConfig { max_concurrent_calls: 1, ..CallManagerConfig::default() };
    let mut manager = CallManager::new(config);
    let small = CallSettings { max_participants: Some(1), ..CallSettings::default() };
    assert_eq!(
        manager
            .initiate_call_with(CallId([1; 16]), person(1), vec![], CallType::VoiceCall, None, small, 5)
            .err(),
        Some(CallError::NoParticipants)
    );
    assert_eq!(
        manager
            .initiate_call_with(
                CallId([1; 16]),
                person(1),
                vec![invitee(2, "B"), invitee(3, "C")],
                CallType::VoiceCall,
                None,
                small,
                5
            )
            .err(),
        Some(CallError::TooManyParticipants)
    );
    assert!(manager.get_call(&CallId([1; 16])).is_none());
    assert!(manager
        .initiate_call_with(CallId([1; 16]), person(1), vec![invitee(2, "B")], CallType::VoiceCall, None, small, 5)
        .is_ok());
    assert_eq!(
        manager
            .initiate_call_with(CallId([2; 16]), person(1), vec![invitee(2, "B")], CallType::VoiceCall, None, small, 6)
            .err(),
        Some(CallError::TooManyCalls)
    );
    assert!(manager.ring_timed_out_at(CallId([9; 16]), 70).is_empty());
    let expired = manager.ring_timed_out_at(CallId([1; 16]), 70);
    assert_eq!(expired.len(), 1);
    assert!(matches!(
        &expired[0],
        CallAction::Notify {
            event: CallEvent::CallStateChanged {
                old_state: CallState::Ringing,
                new_state: CallState::TimedOut,
                ..
            }
        }
    ));
    let call = manager.get_call(&CallId([1; 16])).unwrap();
    assert_eq!(call.state, CallState::TimedOut);
    assert_eq!(call.ended_at, Some(70));
    assert!(manager.ring_timed_out_at(CallId([1; 16]), 80).is_empty());
    assert_eq!(manager.get_call(&CallId([1; 16])).unwrap().ended_at, Some(70));
    assert!(manager.get_active_calls().is_empty());
    assert!(manager
        .initiate_call_with(CallId([2; 16]), person(1), vec![invitee(2, "B")], CallType::VoiceCall, None, small, 90)
        .is_ok());
}

#[test]
fn the_first_to_accept_starts_the_call() {
    let mut manager = CallManager::new(CallManagerConfig::default());
    let call_id = ringing(&mut manager, CallType::VoiceCall, CallSettings::default());

    assert_eq!(
        manager.accept_call_at(CallId([0; 16]), person(2), 110).err(),
        Some(CallError::CallNotFound)
    );
    assert_eq!(manager.accept_call_at(call_id, person(9), 110).err(), Some(CallError::NotInvited));

    let actions = manager.accept_call_at(call_id, person(2), 110).unwrap();
    assert_eq!(actions.len(), 2);
    assert!(matches!(
        &actions[0],
        CallAction::OpenConnection { call_id: c, participant } if *c == call_id && *participant == person(2)
    ));
    assert!(matches!(
        &actions[1],
        CallAction::Notify { event: CallEvent::ParticipantJoined { participant, .. } } if *participant == person(2)
    ));
    let call = manager.get_call(&call_id).unwrap();
    assert_eq!(call.state, CallState::Active);
    assert_eq!(call.started_at, Some(110));
    let joined = call.participant(&person(2)).unwrap();
    assert_eq!(joined.participant_state, ParticipantState::Connecting);
    assert_eq!(joined.joined_at, Some(110));

    assert_eq!(manager.accept_call_at(call_id, person(3), 120).err(), Some(CallError::NotRinging));
    assert_eq!(
        manager.get_call(&call_id).unwrap().participant(&person(3)).unwrap().participant_state,
        ParticipantState::Invited
    );
}

#[test]
fn a_call_that_everyone_rejects_is_rejected() {
    let mut manager = CallManager::new(CallManagerConfig::default());
    let call_id = ringing(&mut manager, CallType::VoiceCall, CallSettings::default());
    assert_eq!(manager.reject_call_at(call_id, person(9), 105).err(), Some(CallError::NotInvited));

    for (who, at) in [(1u8, 105u64), (2, 106)] {
        let actions = manager.reject_call_at(call_id, person(who), at).unwrap();
        assert_eq!(actions.len(), 1);
        assert!(matches!(
            &actions[0],
            CallAction::Notify { event: CallEvent::ParticipantLeft { participant, reason, .. } }
                if *participant == person(who) && reason == "Rejected"
        ));
        assert_eq!(manager.get_call(&call_id).unwrap().state, CallState::Ringing);
    }
    manager.reject_call_at(call_id, person(3), 107).unwrap();
    let call = manager.get_call(&call_id).unwrap();
    assert_eq!(call.state, CallState::Rejected);
    assert_eq!(call.ended_at, Some(107));
    let last = call.participant(&person(3)).unwrap();
    assert_eq!(last.participant_state, ParticipantState::Left);
    assert_eq!(last.left_at, Some(107));
    assert_eq!(call.participant(&person(2)).unwrap().left_at, Some(106));
}

#[test]
fn the_initiator_ends_a_call_for_everyone() {
    let mut manager = CallManager::new(CallManagerConfig::default());
    let call_id = ringing(&mut manager, CallType::VoiceCall, CallSettings::default());
    manager.accept_call_at(call_id, person(2), 110).unwrap();
    assert_eq!(manager.end_call_at(CallId([0; 16]), person(1), 130).err(), Some(CallError::CallNotFound));

    let actions = manager.end_call_at(call_id, person(1), 130).unwrap();
    assert_eq!(actions.len(), 2);
    assert!(matches!(
        &actions[0],
        CallAction::CloseConnection { participant, .. } if *participant == person(1)
    ));
    assert!(matches!(
        &actions[1],
        CallAction::Notify { event: CallEvent::ParticipantLeft { participant, reason, .. } }
            if *participant == person(1) && reason == "Left call"
    ));
    let call = manager.get_call(&call_id).unwrap();
    assert_eq!(call.state, CallState::Ended);
    assert_eq!(call.ended_at, Some(130));
    // Only those who were connected are moved on; one who was still
    // connecting stays as they were.
    assert_eq!(
        call.participant(&person(2)).unwrap().participant_state,
        ParticipantState::Connecting
    );
    assert!(manager.get_active_calls().is_empty());
}

#[test]
fn one_who_is_not_the_initiator_leaves_alone() {
    let mut manager = CallManager::new(CallManagerConfig::default());
    let call_id = ringing(&mut manager, CallType::VoiceCall, CallSettings::default());
    manager.accept_call_at(call_id, person(2), 110).unwrap();
    manager.end_call_at(call_id, person(2), 140).unwrap();
    let call = manager.get_call(&call_id).unwrap();
    let gone = call.participant(&person(2)).unwrap();
    assert_eq!(gone.participant_state, ParticipantState::Left);
    assert_eq!(gone.left_at, Some(140));
    // Nobody is connected any more, so the call is over.
    assert_eq!(call.state, CallState::Ended);
    assert_eq!(call.ended_at, Some(140));
}

#[test]
fn sound_picture_and_screen_are_switched_per_participant() {
    let mut manager = CallManager::new(CallManagerConfig::default());
    let call_id = ringing(&mut manager, CallType::VoiceCall, CallSettings::default());

    assert_eq!(manager.toggle_mute(CallId([0; 16]), person(2)).err(), Some(CallError::CallNotFound));
    assert_eq!(manager.toggle_mute(call_id, person(9)).err(), Some(CallError::ParticipantNotFound));

    let (muted, actions) = manager.toggle_mute(call_id, person(2)).unwrap();
    assert!(muted);
    assert!(matches!(&actions[0], CallAction::SetAudio { enabled: false, .. }));
    assert!(matches!(
        &actions[1],
        CallAction::Notify { event: CallEvent::MediaStateChanged { media_state, .. } }
            if !media_state.audio_enabled
    ));
    let (muted, actions) = manager.toggle_mute(call_id, person(2)).unwrap();
    assert!(!muted);
    assert!(matches!(&actions[0], CallAction::SetAudio { enabled: true, .. }));

    let (shown, actions) = manager.toggle_video(call_id, person(2)).unwrap();
    assert!(shown);
    assert!(matches!(&actions[0], CallAction::SetVideo { enabled: true, .. }));
    assert_eq!(manager.toggle_video(call_id, person(9)).err(), Some(CallError::ParticipantNotFound));

    let actions = manager.start_screen_share(call_id, person(3)).unwrap();
    assert!(matches!(&actions[0], CallAction::StartScreenCapture { .. }));
    assert_eq!(
        manager.start_screen_share(call_id, person(9)).err(),
        Some(CallError::ParticipantNotFound)
    );

    let call = manager.get_call(&call_id).unwrap();
    let second = call.participant(&person(2)).unwrap();
    assert!(!second.is_muted);
    assert!(second.media_state.audio_enabled);
    assert!(second.is_video_enabled);
    assert!(second.media_state.video_enabled);
    let third = call.participant(&person(3)).unwrap();
    assert!(third.is_screen_sharing);
    assert!(third.media_state.screen_share_enabled);
    assert!(!third.is_video_enabled);
}

#[test]
fn the_quality_of_a_connection_is_recorded() {
    let mut manager = CallManager::new(CallManagerConfig::default());
    let call_id = ringing(&mut manager, CallType::VoiceCall, CallSettings::default());
    let poor = ConnectionQuality {
        signal_strength: 20,
        packet_loss: 1_250,
        latency: 400,
        jitter: 90,
        bandwidth: 64,
        quality_score: 1,
    };
    assert!(manager.update_quality_stats(CallId([0; 16]), person(2), poor).is_empty());
    assert!(manager.update_quality_stats(call_id, person(9), poor).is_empty());
    let actions = manager.update_quality_stats(call_id, person(2), poor);
    assert_eq!(actions.len(), 1);
    assert!(matches!(
        &actions[0],
        CallAction::Notify { event: CallEvent::QualityChanged { quality, .. } } if *quality == poor
    ));
    let call = manager.get_call(&call_id).unwrap();
    assert_eq!(call.participant(&person(2)).unwrap().connection_quality, poor);
    assert_eq!(
        call.participant(&person(3)).unwrap().connection_quality,
        ConnectionQuality::default()
    );
}
