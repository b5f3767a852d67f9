//! Session lifecycle, admission policy, quality adaptation and signaling relay
//! for a voice/video conferencing backend.

pub mod model;
pub mod quality;
pub mod ids;
pub mod message;
pub mod session;
pub mod registry;
pub mod signaling;
pub mod audio;
pub mod device;
pub mod api;

pub use registry::VoidAgentTeleconference;
pub use signaling::SignalingRelay;
