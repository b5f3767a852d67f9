use vstd::prelude::*;

use crate::model::{
    ChatMessage, DeviceInfo, Participant, SessionAudioQuality, SessionConfigUpdate, SessionInfo,
    TeleconferenceError,
};

verus! {

/// Messages a client sends to the session service.
#[derive(Debug)]
pub enum ClientMessage {
    /// Asks to enter a session.
    Connect { session_id: u128, participant_id: u128, device_info: DeviceInfo },
    /// Asks to leave.
    Disconnect { participant_id: u128 },
    /// Raw 16-bit PCM samples, carried without being decoded.
    AudioData { participant_id: u128, data: Vec<i16> },
    /// A chat text.
    TextMessage { participant_id: u128, message: String },
    /// Asks for a partial configuration update.
    Reconfigure { session_id: u128, config_update: SessionConfigUpdate },
    /// An application-specific command with an uninterpreted payload.
    CustomCommand { command: String, payload: Vec<u8> },
}

/// Messages the session service sends to a client.
#[derive(Debug)]
pub enum ServerMessage {
    /// The connection was accepted.
    Connected { session_info: SessionInfo, is_muted: bool },
    /// Someone entered the session.
    ParticipantJoined { participant: Participant },
    /// Someone left the session.
    ParticipantLeft { participant_id: u128 },
    /// Samples from a participant.
    AudioReceived { participant: Participant, data: Vec<i16> },
    /// A chat message.
    TextMessageReceived { message: ChatMessage },
    /// The session's configuration changed.
    SessionUpdated { session_info: SessionInfo },
    /// An operation failed.
    Error { error: TeleconferenceError },
    /// The answer to a custom command.
    CustomResponse { command: String, payload: Vec<u8> },
    /// The session's quality tier changed.
    QualityUpdate { quality: SessionAudioQuality },
}

} // verus!
