use teleconference::model::{
    DeviceUpgradeType,
    AudioConfig, ChatMessage, DeviceInfo, DeviceType, JoinRequestType, NetworkCapabilities,
    Participant, ParticipantFeatures, SessionAudioQuality, SessionConfig, SessionConfigUpdate,
    TeleconferenceError,
};
use teleconference::quality::calculate_quality;
use teleconference::registry::{get_current_timestamp, CLOCK_SECONDS};
use teleconference::session::negotiate_audio_config;
use teleconference::VoidAgentTeleconference;

fn audio() -> AudioConfig {
    AudioConfig {
        sample_rate: 48000,
        channels: 2,
        bit_depth: 16,
        codec: "opus".to_string(),
        network_bitrate: 96_000,
        jitter_buffer_size: 50,
    }
}

fn config(max: u8, adaptive: bool) -> SessionConfig {
    SessionConfig {
        max_participants: max,
        requires_moderator: false,
        audio_config: audio(),
        enable_recording: false,
        allowed_device_types: vec![DeviceType::Mobile, DeviceType::Server],
        adaptive_bitrate: adaptive,
        enable_transcription: false,
    }
}

fn device_for(session_id: u128, device_type: DeviceType) -> DeviceInfo {
    DeviceInfo {
        device_id: uuid::Uuid::from_u128(session_id).to_string(),
        device_type,
        os_version: "14".to_string(),
        hardware_info: "board".to_string(),
        max_audio_channels: 2,
        supported_codecs: vec!["opus".to_string()],
        network_capabilities: NetworkCapabilities {
            max_upload_speed: 1_000_000,
            max_download_speed: 1_000_000,
            supports_udp: true,
            supports_tcp: true,
        },
    }
}

fn participant(id: u128, session_id: u128, device_type: DeviceType) -> Participant {
    Participant {
        participant_id: id,
        display_name: format!("p{}", id),
        device_info: device_for(session_id, device_type),
        is_muted: false,
        joined_at: 0,
        last_active: 0,
        available_features: ParticipantFeatures {
            can_share_screen: true,
            can_send_chat: true,
            supports_hardware_echo_cancellation: false,
        },
        accepted_audio: None,
    }
}

fn new_session(reg: &mut VoidAgentTeleconference, owner: u128, max: u8, adaptive: bool) -> u128 {
    reg.initialize_session(owner, config(max, adaptive)).unwrap().session_id
}

#[test]
fn capacity_two_third_join_is_full_and_peak_is_two() {
    let mut reg = VoidAgentTeleconference::new();
    let sid = new_session(&mut reg, 1, 2, false);
    let first = reg.join_session(participant(11, sid, DeviceType::Mobile)).unwrap();
    assert_eq!(first.participants.len(), 1);
    let second = reg.join_session(participant(12, sid, DeviceType::Mobile)).unwrap();
    assert_eq!(second.session_stats.peak_participants, 2);
    let third = reg.join_session(participant(13, sid, DeviceType::Mobile));
    assert!(matches!(third, Err(TeleconferenceError::SessionFull)));
    let info = reg.get_session_info(sid).unwrap();
    assert_eq!(info.session_stats.peak_participants, 2);
    assert_eq!(info.participants.len(), 2);
    assert!(info.participants.len() <= info.config.max_participants as usize);
}

#[test]
fn disallowed_device_type_is_refused_without_change() {
    let mut reg = VoidAgentTeleconference::new();
    let sid = new_session(&mut reg, 1, 4, false);
    let r = reg.join_session(participant(11, sid, DeviceType::RaspberryPi));
    assert!(matches!(r, Err(TeleconferenceError::InvalidDeviceType)));
    let info = reg.get_session_info(sid).unwrap();
    assert!(info.participants.is_empty());
    assert_eq!(info.session_stats.peak_participants, 0);
    assert_eq!(info.session_stats.audio_quality, SessionAudioQuality::Unavailable);
}

#[test]
fn banned_device_is_refused() {
    let mut reg = VoidAgentTeleconference::new();
    let sid = new_session(&mut reg, 1, 4, false);
    let p = participant(11, sid, DeviceType::Mobile);
    let device = p.device_info.device_id.clone();
    reg.join_session(p).unwrap();
    reg.ban_device(sid, 1, &device).unwrap();
    let info = reg.get_session_info(sid).unwrap();
    assert!(info.participants.is_empty());
    assert_eq!(info.banned_devices, vec![device.clone()]);
    let again = reg.join_session(participant(12, sid, DeviceType::Mobile));
    assert!(matches!(again, Err(TeleconferenceError::UnauthorizedAction)));
}

#[test]
fn ban_device_needs_a_moderator() {
    let mut reg = VoidAgentTeleconference::new();
    let sid = new_session(&mut reg, 1, 4, false);
    let r = reg.ban_device(sid, 99, "some-device");
    assert!(matches!(r, Err(TeleconferenceError::UnauthorizedAction)));
    assert!(reg.get_session_info(sid).unwrap().banned_devices.is_empty());
}

#[test]
fn leave_twice_is_harmless() {
    let mut reg = VoidAgentTeleconference::new();
    let sid = new_session(&mut reg, 1, 4, false);
    reg.join_session(participant(11, sid, DeviceType::Mobile)).unwrap();
    reg.join_session(participant(12, sid, DeviceType::Server)).unwrap();
    assert!(reg.leave_session(11).is_ok());
    let after_first = reg.get_session_info(sid).unwrap();
    assert_eq!(after_first.participants.len(), 1);
    assert_eq!(after_first.participants[0].participant_id, 12);
    assert!(reg.leave_session(11).is_ok());
    let after_second = reg.get_session_info(sid).unwrap();
    assert_eq!(after_second.participants.len(), 1);
    assert_eq!(after_second.participants[0].participant_id, 12);
    assert_eq!(after_second.session_stats.peak_participants, 2);
}

#[test]
fn leave_of_unknown_participant_succeeds() {
    let mut reg = VoidAgentTeleconference::new();
    new_session(&mut reg, 1, 4, false);
    assert!(reg.leave_session(777).is_ok());
}

#[test]
fn latency_tiers_adapt_bitrate_and_jitter() {
    let mut reg = VoidAgentTeleconference::new();
    let sid = new_session(&mut reg, 1, 4, true);
    reg.handle_network_conditions(sid, 350).unwrap();
    let low = reg.get_session_info(sid).unwrap();
    assert_eq!(low.session_stats.audio_quality, SessionAudioQuality::Low);
    assert_eq!(low.config.audio_config.network_bitrate, 64_000);
    assert_eq!(low.config.audio_config.jitter_buffer_size, 200);
    reg.handle_network_conditions(sid, 200).unwrap();
    let medium = reg.get_session_info(sid).unwrap();
    assert_eq!(medium.session_stats.audio_quality, SessionAudioQuality::Medium);
    assert_eq!(medium.config.audio_config.network_bitrate, 128_000);
    assert_eq!(medium.config.audio_config.jitter_buffer_size, 100);
    reg.handle_network_conditions(sid, 50).unwrap();
    let fast = reg.get_session_info(sid).unwrap();
    assert_eq!(fast.session_stats.audio_quality, SessionAudioQuality::Medium);
    assert_eq!(fast.config.audio_config.network_bitrate, 128_000);
    assert_eq!(fast.config.audio_config.jitter_buffer_size, 100);
    assert_eq!(fast.session_stats.network_latency, 50);
}

#[test]
fn latency_without_adaptive_bitrate_keeps_bitrate() {
    let mut reg = VoidAgentTeleconference::new();
    let sid = new_session(&mut reg, 1, 4, false);
    reg.handle_network_conditions(sid, 350).unwrap();
    let info = reg.get_session_info(sid).unwrap();
    assert_eq!(info.session_stats.audio_quality, SessionAudioQuality::Low);
    assert_eq!(info.config.audio_config.network_bitrate, 96_000);
    assert_eq!(info.config.audio_config.jitter_buffer_size, 50);
}

#[test]
fn quality_tier_of_latency() {
    assert_eq!(calculate_quality(350, SessionAudioQuality::High), SessionAudioQuality::Low);
    assert_eq!(calculate_quality(301, SessionAudioQuality::High), SessionAudioQuality::Low);
    assert_eq!(calculate_quality(300, SessionAudioQuality::High), SessionAudioQuality::Medium);
    assert_eq!(calculate_quality(200, SessionAudioQuality::Low), SessionAudioQuality::Medium);
    assert_eq!(calculate_quality(150, SessionAudioQuality::Low), SessionAudioQuality::Low);
    assert_eq!(calculate_quality(50, SessionAudioQuality::Unavailable), SessionAudioQuality::Unavailable);
}

fn empty_update() -> SessionConfigUpdate {
    SessionConfigUpdate {
        optional_max_participants: None,
        optional_requires_moderator: None,
        optional_audio_config: None,
        optional_enable_recording: None,
        optional_allowed_device_types: None,
        optional_adaptive_bitrate: None,
        optional_enable_transcription: None,
    }
}

#[test]
fn recording_only_update_changes_only_recording() {
    let mut reg = VoidAgentTeleconference::new();
    let sid = new_session(&mut reg, 1, 3, true);
    let before = reg.get_session_info(sid).unwrap();
    let mut update = empty_update();
    update.optional_enable_recording = Some(true);
    let after = reg.update_session_config(sid, update).unwrap();
    assert!(after.config.enable_recording);
    assert_eq!(after.config.max_participants, before.config.max_participants);
    assert_eq!(after.config.requires_moderator, before.config.requires_moderator);
    assert_eq!(after.config.allowed_device_types, before.config.allowed_device_types);
    assert_eq!(after.config.adaptive_bitrate, before.config.adaptive_bitrate);
    assert_eq!(after.config.enable_transcription, before.config.enable_transcription);
    assert_eq!(after.config.audio_config.sample_rate, before.config.audio_config.sample_rate);
    assert_eq!(after.config.audio_config.codec, before.config.audio_config.codec);
    assert_eq!(after.config.audio_config.network_bitrate, before.config.audio_config.network_bitrate);
    assert_eq!(after.config.audio_config.jitter_buffer_size, before.config.audio_config.jitter_buffer_size);
}

#[test]
fn update_that_empties_device_types_is_rejected() {
    let mut reg = VoidAgentTeleconference::new();
    let sid = new_session(&mut reg, 1, 3, false);
    let mut update = empty_update();
    update.optional_allowed_device_types = Some(vec![]);
    let r = reg.update_session_config(sid, update);
    assert!(matches!(r, Err(TeleconferenceError::InvalidConfigurationException(_))));
    assert_eq!(reg.get_session_info(sid).unwrap().config.allowed_device_types.len(), 2);
}

#[test]
fn update_below_participant_count_is_rejected() {
    let mut reg = VoidAgentTeleconference::new();
    let sid = new_session(&mut reg, 1, 3, false);
    reg.join_session(participant(11, sid, DeviceType::Mobile)).unwrap();
    reg.join_session(participant(12, sid, DeviceType::Mobile)).unwrap();
    let mut update = empty_update();
    update.optional_max_participants = Some(1);
    let r = reg.update_session_config(sid, update);
    assert!(matches!(r, Err(TeleconferenceError::InvalidConfigurationException(_))));
    let mut ok = empty_update();
    ok.optional_max_participants = Some(2);
    assert_eq!(reg.update_session_config(sid, ok).unwrap().config.max_participants, 2);
}

#[test]
fn update_of_unknown_session_fails() {
    let mut reg = VoidAgentTeleconference::new();
    let r = reg.update_session_config(5, empty_update());
    assert!(matches!(r, Err(TeleconferenceError::SessionNotFound)));
}

#[test]
fn session_without_device_types_is_refused() {
    let mut reg = VoidAgentTeleconference::new();
    let mut cfg = config(2, false);
    cfg.allowed_device_types = vec![];
    let r = reg.initialize_session(1, cfg);
    assert!(matches!(r, Err(TeleconferenceError::InvalidConfigurationException(_))));
}

#[test]
fn new_session_starts_empty_with_owner_as_moderator() {
    let mut reg = VoidAgentTeleconference::new();
    let info = reg.initialize_session(42, config(2, false)).unwrap();
    assert_eq!(info.owner_id, 42);
    assert_eq!(info.moderators, vec![42]);
    assert!(info.participants.is_empty());
    assert!(info.waiting_room.is_empty());
    assert_eq!(info.session_stats.audio_quality, SessionAudioQuality::Unavailable);
    assert_eq!(info.created_at, CLOCK_SECONDS);
    assert_eq!(get_current_timestamp(), 1719811200);
    let other = reg.initialize_session(42, config(2, false)).unwrap();
    assert_ne!(info.session_id, other.session_id);
}

#[test]
fn fixed_session_id_is_used_once() {
    let mut reg = VoidAgentTeleconference::new();
    let info = reg.initialize_session_with_id(7, 1, config(2, false)).unwrap();
    assert_eq!(info.session_id, 7);
    let again = reg.initialize_session_with_id(7, 1, config(2, false));
    assert!(matches!(again, Err(TeleconferenceError::InternalError(_))));
}

#[test]
fn device_id_that_is_no_uuid_is_an_internal_error() {
    let mut reg = VoidAgentTeleconference::new();
    let sid = new_session(&mut reg, 1, 2, false);
    let mut p = participant(11, sid, DeviceType::Mobile);
    p.device_info.device_id = "not-a-session".to_string();
    assert!(matches!(reg.join_session(p), Err(TeleconferenceError::InternalError(_))));
}

#[test]
fn device_id_of_unknown_session_is_not_found() {
    let mut reg = VoidAgentTeleconference::new();
    new_session(&mut reg, 1, 2, false);
    let p = participant(11, 0x1234, DeviceType::Mobile);
    assert!(matches!(reg.join_session(p), Err(TeleconferenceError::SessionNotFound)));
}

#[test]
fn join_by_session_id() {
    let mut reg = VoidAgentTeleconference::new();
    let sid = new_session(&mut reg, 1, 2, false);
    let mut p = participant(11, sid, DeviceType::Mobile);
    p.device_info.device_id = "anything".to_string();
    let info = reg.join_session_by_id(sid, p).unwrap();
    assert_eq!(info.participants[0].participant_id, 11);
    assert_eq!(info.active_duration, 0);
}

#[test]
fn pending_approval_goes_to_waiting_room() {
    let mut reg = VoidAgentTeleconference::new();
    let sid = new_session(&mut reg, 1, 1, false);
    reg.join_session(participant(11, sid, DeviceType::Mobile)).unwrap();
    let info = reg
        .join_session_with_request(participant(12, sid, DeviceType::LinuxBox), JoinRequestType::PendingApproval)
        .unwrap();
    assert_eq!(info.waiting_room.len(), 1);
    assert_eq!(info.waiting_room[0].participant_id, 12);
    assert_eq!(info.participants.len(), 1);
}

#[test]
fn custom_config_join_follows_admission_rules() {
    let mut reg = VoidAgentTeleconference::new();
    let sid = new_session(&mut reg, 1, 1, false);
    let mut custom = audio();
    custom.sample_rate = 96_000;
    let info = reg
        .join_session_with_request(participant(11, sid, DeviceType::Mobile), JoinRequestType::JoinWithCustomConfig(custom))
        .unwrap();
    assert_eq!(info.participants.len(), 1);
    let full = reg.join_session_with_request(participant(12, sid, DeviceType::Mobile), JoinRequestType::DirectJoin);
    assert!(matches!(full, Err(TeleconferenceError::SessionFull)));
}

#[test]
fn requested_audio_parameters_are_clamped() {
    let session_default = audio();
    let mut requested = audio();
    requested.sample_rate = 96_000;
    requested.bit_depth = 12;
    requested.codec = "pcm".to_string();
    let r = negotiate_audio_config(requested, &session_default);
    assert_eq!(r.sample_rate, 48000);
    assert_eq!(r.bit_depth, 16);
    assert_eq!(r.codec, "pcm");
    let mut fine = audio();
    fine.sample_rate = 8000;
    fine.bit_depth = 24;
    let r = negotiate_audio_config(fine, &session_default);
    assert_eq!(r.sample_rate, 8000);
    assert_eq!(r.bit_depth, 24);
    let mut low = audio();
    low.sample_rate = 7999;
    low.bit_depth = 32;
    let r = negotiate_audio_config(low, &session_default);
    assert_eq!(r.sample_rate, 48000);
    assert_eq!(r.bit_depth, 32);
}

#[test]
fn moderators_are_authorized_by_moderators() {
    let mut reg = VoidAgentTeleconference::new();
    let sid = new_session(&mut reg, 1, 4, false);
    let r = reg.authorize_moderator(sid, 5, 6);
    assert!(matches!(r, Err(TeleconferenceError::UnauthorizedAction)));
    reg.authorize_moderator(sid, 1, 5).unwrap();
    reg.authorize_moderator(sid, 5, 6).unwrap();
    reg.authorize_moderator(sid, 5, 6).unwrap();
    assert_eq!(reg.get_session_info(sid).unwrap().moderators, vec![1, 5, 6]);
    let missing = reg.authorize_moderator(sid + 1, 1, 2);
    assert!(matches!(missing, Err(TeleconferenceError::SessionNotFound)));
}

#[test]
fn banning_a_participant() {
    let mut reg = VoidAgentTeleconference::new();
    let sid = new_session(&mut reg, 1, 4, false);
    reg.join_session(participant(11, sid, DeviceType::Mobile)).unwrap();
    let r = reg.ban_participant(sid, 11, 11);
    assert!(matches!(r, Err(TeleconferenceError::UnauthorizedAction)));
    let r = reg.ban_participant(sid, 1, 12);
    assert!(matches!(r, Err(TeleconferenceError::ParticipantNotFound)));
    reg.ban_participant(sid, 1, 11).unwrap();
    assert!(reg.get_session_info(sid).unwrap().participants.is_empty());
}

#[test]
fn chat_goes_to_room_or_whisper_pair() {
    let mut reg = VoidAgentTeleconference::new();
    let sid = new_session(&mut reg, 1, 4, false);
    reg.join_session(participant(11, sid, DeviceType::Mobile)).unwrap();
    reg.join_session(participant(12, sid, DeviceType::Mobile)).unwrap();
    reg.join_session(participant(13, sid, DeviceType::Mobile)).unwrap();
    let broadcast = ChatMessage {
        sender_id: 11,
        content: "hi".to_string(),
        timestamp: 5,
        is_whisper: false,
        recipient_id: None,
    };
    assert_eq!(reg.send_chat_message(sid, 11, &broadcast).unwrap(), vec![11, 12, 13]);
    let whisper = ChatMessage { is_whisper: true, recipient_id: Some(13), ..broadcast.clone() };
    assert_eq!(reg.send_chat_message(sid, 11, &whisper).unwrap(), vec![11, 13]);
    let stranger = reg.send_chat_message(sid, 99, &broadcast);
    assert!(matches!(stranger, Err(TeleconferenceError::ParticipantNotFound)));
    let nowhere = reg.send_chat_message(sid + 1, 11, &broadcast);
    assert!(matches!(nowhere, Err(TeleconferenceError::SessionNotFound)));
}

#[test]
fn unknown_session_lookups_fail() {
    let mut reg = VoidAgentTeleconference::new();
    assert!(matches!(reg.get_session_info(3), Err(TeleconferenceError::SessionNotFound)));
    assert!(matches!(reg.handle_network_conditions(3, 10), Err(TeleconferenceError::SessionNotFound)));
    assert!(matches!(reg.ban_participant(3, 1, 2), Err(TeleconferenceError::SessionNotFound)));
    assert!(matches!(reg.ban_device(3, 1, "d"), Err(TeleconferenceError::SessionNotFound)));
}

#[test]
fn audio_goes_to_the_other_participants() {
    let mut reg = VoidAgentTeleconference::new();
    let sid = new_session(&mut reg, 1, 4, false);
    reg.join_session(participant(11, sid, DeviceType::Mobile)).unwrap();
    reg.join_session(participant(12, sid, DeviceType::Mobile)).unwrap();
    reg.join_session(participant(13, sid, DeviceType::Server)).unwrap();
    let samples: Vec<i16> = vec![1, -2, 3];
    assert_eq!(reg.send_audio_data(sid, 12, &samples).unwrap(), vec![11, 13]);
    let stranger = reg.send_audio_data(sid, 99, &samples);
    assert!(matches!(stranger, Err(TeleconferenceError::ParticipantNotFound)));
}

#[test]
fn custom_config_join_records_clamped_parameters() {
    let mut reg = VoidAgentTeleconference::new();
    let sid = new_session(&mut reg, 1, 2, false);
    let mut custom = audio();
    custom.sample_rate = 96_000;
    custom.bit_depth = 24;
    custom.channels = 1;
    let info = reg
        .join_session_with_request_by_id(sid, participant(11, sid, DeviceType::Mobile), JoinRequestType::JoinWithCustomConfig(custom))
        .unwrap();
    let accepted = info.participants[0].accepted_audio.as_ref().unwrap();
    assert_eq!(accepted.sample_rate, 48000);
    assert_eq!(accepted.bit_depth, 24);
    assert_eq!(accepted.channels, 1);
    assert_eq!(info.config.audio_config.sample_rate, 48000);
    assert_eq!(info.config.audio_config.bit_depth, 16);
    assert_eq!(info.config.audio_config.channels, 2);
    let direct = reg
        .join_session_with_request_by_id(sid, participant(12, sid, DeviceType::Mobile), JoinRequestType::DirectJoin)
        .unwrap();
    assert!(direct.participants[1].accepted_audio.is_none());
}

#[test]
fn custom_config_join_to_unknown_session_fails() {
    let mut reg = VoidAgentTeleconference::new();
    let r = reg.join_session_with_request_by_id(9, participant(11, 9, DeviceType::Mobile), JoinRequestType::JoinWithCustomConfig(audio()));
    assert!(matches!(r, Err(TeleconferenceError::SessionNotFound)));
}

#[test]
fn creation_succeeds_for_every_valid_configuration() {
    let mut reg = VoidAgentTeleconference::new();
    let mut ids = Vec::new();
    for owner in 0..20u128 {
        let info = reg.initialize_session(owner, config(3, false)).unwrap();
        assert!(!ids.contains(&info.session_id));
        ids.push(info.session_id);
    }
    for id in ids {
        assert!(reg.get_session_info(id).is_ok());
    }
}

#[test]
fn smallest_free_identifier() {
    let mut reg = VoidAgentTeleconference::new();
    assert_eq!(reg.free_id(), 0);
    reg.initialize_session_with_id(0, 1, config(2, false)).unwrap();
    reg.initialize_session_with_id(1, 1, config(2, false)).unwrap();
    reg.initialize_session_with_id(3, 1, config(2, false)).unwrap();
    assert_eq!(reg.free_id(), 2);
}

#[test]
fn device_upgrade_requests_are_accepted() {
    let reg = VoidAgentTeleconference::new();
    assert!(reg.request_device_upgrade("dev", DeviceUpgradeType::FirmwareUpdate).is_ok());
    assert!(reg.request_device_upgrade("dev", DeviceUpgradeType::CapabilityRequest("x".to_string())).is_ok());
}
