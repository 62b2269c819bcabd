//! A peer-to-peer voice-call engine: the verified decisions of its audio
//! pipeline, RTP sender, signaling link and session orchestrator.
pub mod audio;
pub mod mixing;
pub mod rtp;
pub mod session;
pub mod signaling;
pub mod types;
