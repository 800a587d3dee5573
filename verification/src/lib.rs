//! Live meeting capture core: the capture lifecycle and its backend
//! protocol, audio mixing and framing, the sidecar link's buffering,
//! backoff and control messages, the sidecar's readiness handshake and
//! respawn budget, provider settings and secrets, device selection and
//! permission prompts, and the capture worker's decisions.

pub mod audio;
pub mod capture;
pub mod capture_state;
pub mod link;
pub mod link_driver;
pub mod macos;
pub mod meetings;
pub mod mixer;
pub mod protocol;
pub mod reconnect;
pub mod settings;
pub mod sidecar;
pub mod text;
pub mod worker;
