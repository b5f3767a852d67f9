use vstd::prelude::*;

verus! {

/// Audio parameters of a session or of one participant.
#[derive(Debug, Clone)]
pub struct AudioConfig {
    pub sample_rate: u32,
    pub channels: u8,
    pub bit_depth: u8,
    pub codec: String,
    /// bit/s
    pub network_bitrate: u32,
    /// ms
    pub jitter_buffer_size: u32,
}

pub ghost struct AudioConfigView {
    pub sample_rate: u32,
    pub channels: u8,
    pub bit_depth: u8,
    pub codec: Seq<char>,
    pub network_bitrate: u32,
    pub jitter_buffer_size: u32,
}

impl View for AudioConfig {
    type V = AudioConfigView;

    open spec fn view(&self) -> AudioConfigView {
        AudioConfigView {
            sample_rate: self.sample_rate,
            channels: self.channels,
            bit_depth: self.bit_depth,
            codec: self.codec@,
            network_bitrate: self.network_bitrate,
            jitter_buffer_size: self.jitter_buffer_size,
        }
    }
}

impl AudioConfig {
    /// A value equal to this one.
    pub fn duplicate(&self) -> (r: AudioConfig)
        ensures
            r == *self,
    {
        AudioConfig {
            sample_rate: self.sample_rate,
            channels: self.channels,
            bit_depth: self.bit_depth,
            codec: self.codec.clone(),
            network_bitrate: self.network_bitrate,
            jitter_buffer_size: self.jitter_buffer_size,
        }
    }
}

/// Kinds of device a participant may connect from.
#[derive(Debug, Clone, Copy, PartialEq, Eq, Hash, Structural)]
pub enum DeviceType {
    Mobile,
    Server,
    RaspberryPi,
    LinuxBox,
    Unknown,
}

/// Network capabilities a device reports.
#[derive(Debug, Clone, Copy)]
pub struct NetworkCapabilities {
    /// bit/s
    pub max_upload_speed: u32,
    /// bit/s
    pub max_download_speed: u32,
    pub supports_udp: bool,
    pub supports_tcp: bool,
}

/// Feature capabilities of a participant.
#[derive(Debug, Clone, Copy)]
pub struct ParticipantFeatures {
    pub can_share_screen: bool,
    pub can_send_chat: bool,
    pub supports_hardware_echo_cancellation: bool,
}

/// Description of the device a participant connects from.
#[derive(Debug, Clone)]
pub struct DeviceInfo {
    pub device_id: String,
    pub device_type: DeviceType,
    pub os_version: String,
    pub hardware_info: String,
    pub max_audio_channels: u8,
    pub supported_codecs: Vec<String>,
    pub network_capabilities: NetworkCapabilities,
}

pub ghost struct DeviceInfoView {
    pub device_id: Seq<char>,
    pub device_type: DeviceType,
    pub os_version: Seq<char>,
    pub hardware_info: Seq<char>,
    pub max_audio_channels: u8,
    pub supported_codecs: Seq<Seq<char>>,
    pub network_capabilities: NetworkCapabilities,
}

pub open spec fn strings_view(v: Seq<String>) -> Seq<Seq<char>> {
    v.map_values(|s: String| s@)
}

impl View for DeviceInfo {
    type V = DeviceInfoView;

    open spec fn view(&self) -> DeviceInfoView {
        DeviceInfoView {
            device_id: self.device_id@,
            device_type: self.device_type,
            os_version: self.os_version@,
            hardware_info: self.hardware_info@,
            max_audio_channels: self.max_audio_channels,
            supported_codecs: strings_view(self.supported_codecs@),
            network_capabilities: self.network_capabilities,
        }
    }
}

/// A copy of a list of strings.
pub fn duplicate_strings(v: &Vec<String>) -> (r: Vec<String>)
    ensures
        strings_view(r@) == strings_view(v@),
{
    let mut r: Vec<String> = Vec::new();
    let mut i: usize = 0;
    while i < v.len()
        invariant
            i <= v@.len(),
            r@.len() == i,
            forall|j: int| 0 <= j < i ==> r@[j]@ == v@[j]@,
        decreases v@.len() - i,
    {
        r.push(v[i].clone());
        i += 1;
    }
    proof {
        assert(strings_view(r@) =~= strings_view(v@));
    }
    r
}

impl DeviceInfo {
    /// A value with the same view as this one.
    pub fn duplicate(&self) -> (r: DeviceInfo)
        ensures
            r@ == self@,
    {
        DeviceInfo {
            device_id: self.device_id.clone(),
            device_type: self.device_type,
            os_version: self.os_version.clone(),
            hardware_info: self.hardware_info.clone(),
            max_audio_channels: self.max_audio_channels,
            supported_codecs: duplicate_strings(&self.supported_codecs),
            network_capabilities: self.network_capabilities,
        }
    }
}

/// A participant of a session.
#[derive(Debug, Clone)]
pub struct Participant {
    pub participant_id: u128,
    pub display_name: String,
    pub device_info: DeviceInfo,
    pub is_muted: bool,
    pub joined_at: u64,
    pub last_active: u64,
    pub available_features: ParticipantFeatures,
    /// The audio parameters accepted for this participant when it asked for
    /// its own; `None` where the session's own apply.
    pub accepted_audio: Option<AudioConfig>,
}

pub open spec fn audio_option_view(a: Option<AudioConfig>) -> Option<AudioConfigView> {
    match a {
        Some(c) => Some(c@),
        None => None,
    }
}

pub ghost struct ParticipantView {
    pub participant_id: u128,
    pub display_name: Seq<char>,
    pub device_info: DeviceInfoView,
    pub is_muted: bool,
    pub joined_at: u64,
    pub last_active: u64,
    pub available_features: ParticipantFeatures,
    pub accepted_audio: Option<AudioConfigView>,
}

impl View for Participant {
    type V = ParticipantView;

    open spec fn view(&self) -> ParticipantView {
        ParticipantView {
            participant_id: self.participant_id,
            display_name: self.display_name@,
            device_info: self.device_info@,
            is_muted: self.is_muted,
            joined_at: self.joined_at,
            last_active: self.last_active,
            available_features: self.available_features,
            accepted_audio: audio_option_view(self.accepted_audio),
        }
    }
}

impl Participant {
    /// A value with the same view as this one.
    pub fn duplicate(&self) -> (r: Participant)
        ensures
            r@ == self@,
    {
        Participant {
            participant_id: self.participant_id,
            display_name: self.display_name.clone(),
            device_info: self.device_info.duplicate(),
            is_muted: self.is_muted,
            joined_at: self.joined_at,
            last_active: self.last_active,
            available_features: self.available_features,
            accepted_audio: match &self.accepted_audio {
                Some(a) => Some(a.duplicate()),
                None => None,
            },
        }
    }
}

pub open spec fn participants_view(v: Seq<Participant>) -> Seq<ParticipantView> {
    v.map_values(|p: Participant| p@)
}

/// A copy of a list of participants.
pub fn duplicate_participants(v: &Vec<Participant>) -> (r: Vec<Participant>)
    ensures
        participants_view(r@) == participants_view(v@),
{
    let mut r: Vec<Participant> = Vec::new();
    let mut i: usize = 0;
    while i < v.len()
        invariant
            i <= v@.len(),
            r@.len() == i,
            forall|j: int| 0 <= j < i ==> r@[j]@ == v@[j]@,
        decreases v@.len() - i,
    {
        r.push(v[i].duplicate());
        i += 1;
    }
    proof {
        assert(participants_view(r@) =~= participants_view(v@));
    }
    r
}

/// A copy of a list of device types.
pub fn duplicate_device_types(v: &Vec<DeviceType>) -> (r: Vec<DeviceType>)
    ensures
        r@ == v@,
{
    let mut r: Vec<DeviceType> = Vec::new();
    let mut i: usize = 0;
    while i < v.len()
        invariant
            i <= v@.len(),
            r@ == v@.subrange(0, i as int),
        decreases v@.len() - i,
    {
        r.push(v[i]);
        proof {
            assert(r@ =~= v@.subrange(0, i + 1));
        }
        i += 1;
    }
    proof {
        assert(v@.subrange(0, v@.len() as int) =~= v@);
    }
    r
}

/// A copy of a list of identifiers.
pub fn duplicate_ids(v: &Vec<u128>) -> (r: Vec<u128>)
    ensures
        r@ == v@,
{
    let mut r: Vec<u128> = Vec::new();
    let mut i: usize = 0;
    while i < v.len()
        invariant
            i <= v@.len(),
            r@ == v@.subrange(0, i as int),
        decreases v@.len() - i,
    {
        r.push(v[i]);
        proof {
            assert(r@ =~= v@.subrange(0, i + 1));
        }
        i += 1;
    }
    proof {
        assert(v@.subrange(0, v@.len() as int) =~= v@);
    }
    r
}

/// Policy and media configuration of a session.
#[derive(Debug)]
pub struct SessionConfig {
    pub max_participants: u8,
    pub requires_moderator: bool,
    pub audio_config: AudioConfig,
    pub enable_recording: bool,
    pub allowed_device_types: Vec<DeviceType>,
    pub adaptive_bitrate: bool,
    pub enable_transcription: bool,
}

pub ghost struct SessionConfigView {
    pub max_participants: u8,
    pub requires_moderator: bool,
    pub audio_config: AudioConfigView,
    pub enable_recording: bool,
    pub allowed_device_types: Seq<DeviceType>,
    pub adaptive_bitrate: bool,
    pub enable_transcription: bool,
}

impl View for SessionConfig {
    type V = SessionConfigView;

    open spec fn view(&self) -> SessionConfigView {
        SessionConfigView {
            max_participants: self.max_participants,
            requires_moderator: self.requires_moderator,
            audio_config: self.audio_config@,
            enable_recording: self.enable_recording,
            allowed_device_types: self.allowed_device_types@,
            adaptive_bitrate: self.adaptive_bitrate,
            enable_transcription: self.enable_transcription,
        }
    }
}

impl SessionConfig {
    /// A value with the same view as this one.
    pub fn duplicate(&self) -> (r: SessionConfig)
        ensures
            r@ == self@,
    {
        SessionConfig {
            max_participants: self.max_participants,
            requires_moderator: self.requires_moderator,
            audio_config: self.audio_config.duplicate(),
            enable_recording: self.enable_recording,
            allowed_device_types: duplicate_device_types(&self.allowed_device_types),
            adaptive_bitrate: self.adaptive_bitrate,
            enable_transcription: self.enable_transcription,
        }
    }
}

/// Coarse classification of the achievable audio quality.
#[derive(Debug, Clone, Copy, PartialEq, Eq, Structural)]
pub enum SessionAudioQuality {
    Low,
    Medium,
    High,
    Unavailable,
}

/// Statistics of a session.
#[derive(Debug, Clone, Copy)]
pub struct SessionStats {
    pub audio_quality: SessionAudioQuality,
    /// ms
    pub network_latency: u32,
    pub peak_participants: u8,
    /// bytes
    pub total_data_used: u64,
}

/// The state of one session.
#[derive(Debug)]
pub struct SessionInfo {
    pub session_id: u128,
    pub owner_id: u128,
    pub participants: Vec<Participant>,
    pub config: SessionConfig,
    pub created_at: u64,
    pub active_duration: u64,
    pub session_stats: SessionStats,
    pub waiting_room: Vec<Participant>,
    pub banned_devices: Vec<String>,
    pub moderators: Vec<u128>,
}

pub ghost struct SessionInfoView {
    pub session_id: u128,
    pub owner_id: u128,
    pub participants: Seq<ParticipantView>,
    pub config: SessionConfigView,
    pub created_at: u64,
    pub active_duration: u64,
    pub session_stats: SessionStats,
    pub waiting_room: Seq<ParticipantView>,
    pub banned_devices: Seq<Seq<char>>,
    pub moderators: Seq<u128>,
}

impl View for SessionInfo {
    type V = SessionInfoView;

    open spec fn view(&self) -> SessionInfoView {
        SessionInfoView {
            session_id: self.session_id,
            owner_id: self.owner_id,
            participants: participants_view(self.participants@),
            config: self.config@,
            created_at: self.created_at,
            active_duration: self.active_duration,
            session_stats: self.session_stats,
            waiting_room: participants_view(self.waiting_room@),
            banned_devices: strings_view(self.banned_devices@),
            moderators: self.moderators@,
        }
    }
}

impl SessionInfo {
    /// A value with the same view as this one.
    pub fn duplicate(&self) -> (r: SessionInfo)
        ensures
            r@ == self@,
    {
        SessionInfo {
            session_id: self.session_id,
            owner_id: self.owner_id,
            participants: duplicate_participants(&self.participants),
            config: self.config.duplicate(),
            created_at: self.created_at,
            active_duration: self.active_duration,
            session_stats: self.session_stats,
            waiting_room: duplicate_participants(&self.waiting_room),
            banned_devices: duplicate_strings(&self.banned_devices),
            moderators: duplicate_ids(&self.moderators),
        }
    }
}

/// A chat message; a whisper names its recipient.
#[derive(Debug, Clone)]
pub struct ChatMessage {
    pub sender_id: u128,
    pub content: String,
    pub timestamp: u64,
    pub is_whisper: bool,
    pub recipient_id: Option<u128>,
}

/// Errors of the session operations.
#[derive(Debug, Clone)]
pub enum TeleconferenceError {
    SessionNotFound,
    ParticipantNotFound,
    SessionFull,
    UnauthorizedAction,
    AudioDeviceError(String),
    NetworkError(String),
    DeviceUpgradeError(String),
    InternalError(String),
    InvalidDeviceType,
    InvalidConfigurationException(String),
    ModerationError(String),
    ChatError(String),
}

/// How a participant asks to enter a session.
#[derive(Debug)]
pub enum JoinRequestType {
    /// Admitted directly under the admission rules.
    DirectJoin,
    /// Placed in the waiting room until a moderator approves.
    PendingApproval,
    /// Admitted with the participant's own audio parameters.
    JoinWithCustomConfig(AudioConfig),
}

/// A partial configuration update: absent fields stay as they are.
#[derive(Debug)]
pub struct SessionConfigUpdate {
    pub optional_max_participants: Option<u8>,
    pub optional_requires_moderator: Option<bool>,
    pub optional_audio_config: Option<AudioConfig>,
    pub optional_enable_recording: Option<bool>,
    pub optional_allowed_device_types: Option<Vec<DeviceType>>,
    pub optional_adaptive_bitrate: Option<bool>,
    pub optional_enable_transcription: Option<bool>,
}

/// Requests for a device upgrade.
#[derive(Debug)]
pub enum DeviceUpgradeType {
    FirmwareUpdate,
    SoftwareUpdate,
    CapabilityRequest(String),
}

} // verus!
