//! Data exchanged between the engine's parts and over the signaling wire.
use vstd::prelude::*;

verus! {

/// A participant as announced by the relay server.
#[derive(Clone, Debug)]
pub struct PeerInfo {
    pub peer_id: String,
    pub name: String,
}

/// The session-negotiation payload carried inside a `Signal` message.
#[derive(Clone, Debug)]
pub enum SignalPayload {
    Offer { sdp: String },
    Answer { sdp: String },
    IceCandidate { candidate: String, sdp_mid: Option<String>, sdp_mline_index: Option<u16> },
}

/// A message of the signaling protocol, in either direction.
#[derive(Clone, Debug)]
pub enum SignalMessage {
    Join { room_id: String, peer_id: String, name: String, password: Option<String> },
    Leave { room_id: String, peer_id: String },
    Signal { to: Option<String>, from: Option<String>, payload: SignalPayload },
    Kick { peer_id: String },
    ForceMute { peer_id: String },
    LockRoom { password: Option<String> },
    RoomJoined { room_id: String, peers: Vec<PeerInfo>, is_host: bool, locked: bool },
    PeerJoined { peer_id: String, name: String },
    PeerLeft { peer_id: String },
    Kicked,
    ForceMuted,
    RoomLocked { locked: bool },
    RoomLockedError,
}

/// Where the local participant stands in a call.
#[derive(Clone, Debug)]
pub enum CallState {
    Idle,
    Connecting,
    InRoom { room_id: String, room_name: String, is_host: bool, locked: bool },
    Error { message: String },
}

/// An audio input device as listed for the microphone selector.
#[derive(Clone, Debug)]
pub struct AudioDevice {
    pub name: String,
    pub is_default: bool,
}

/// One 20 ms frame of Opus-compressed audio.
#[derive(Clone, Debug)]
pub struct EncodedFrame {
    pub data: Vec<u8>,
}

} // verus!
