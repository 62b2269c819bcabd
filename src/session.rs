//! The session orchestrator: call state, the registry of peer transports and
//! the routing of signaling events. Each handler returns the actions that
//! the surrounding runtime performs (send a message, open or close a peer
//! transport, start or stop audio, notify the user interface).
//!
//! Negotiation role: the participant that joins a room sends an offer to
//! every peer already present; a peer announced later by `PeerJoined` gets a
//! transport and is expected to send its own offer, which is answered.
use vstd::prelude::*;
use vstd::string::StringExecFns;
use crate::types::{CallState, PeerInfo, SignalMessage, SignalPayload};

verus! {

/// Text of the error state entered when the signaling connection drops.
pub const SIGNALING_LOST_MESSAGE: &'static str = "Signaling connection lost";

/// Text reported when the server refuses a room operation because the room is locked.
pub const ROOM_LOCKED_MESSAGE: &'static str = "Room is locked";

/// A notification for the user interface.
#[derive(Clone, Debug)]
pub enum UiEvent {
    StateChanged,
    PeerJoined { peer_id: String, name: String },
    PeerLeft { peer_id: String },
    Error { message: String },
    Kicked,
    ForceMuted,
    RoomLocked { locked: bool },
}

/// Work the runtime performs on behalf of the orchestrator.
#[derive(Clone, Debug)]
pub enum Action {
    /// Send a message to the relay server.
    Send(SignalMessage),
    /// Start audio capture and playback.
    StartAudio,
    /// Stop audio capture and playback.
    StopAudio,
    /// Create the peer transport for a participant.
    OpenPeer { peer_id: String },
    /// Create an SDP offer on the peer's transport and send it to the peer.
    MakeOffer { peer_id: String },
    /// Apply a remote offer and send the resulting answer back to the peer.
    AnswerOffer { peer_id: String, sdp: String },
    /// Apply a remote answer.
    ApplyAnswer { peer_id: String, sdp: String },
    /// Add a remote ICE candidate to the peer's transport.
    AddCandidate { peer_id: String, candidate: String, sdp_mid: Option<String>, sdp_mline_index: Option<u16> },
    /// Close the peer's transport.
    ClosePeer { peer_id: String },
    /// Set the local microphone mute flag.
    SetMuted(bool),
    /// Notify the user interface.
    Emit(UiEvent),
}

/// Why a command was refused.
#[derive(Clone, Copy, Debug, PartialEq, Eq, Structural)]
pub enum SessionError {
    /// A room is being joined or has been joined already.
    AlreadyInCall,
    /// The command needs a joined room.
    NotInRoom,
}

/// The orchestrator's state. `peers` holds the ids of the live peer
/// transports: the single record of who is in the call.
pub struct Session {
    pub self_id: String,
    pub state: CallState,
    pub room_name: String,
    pub peers: Vec<String>,
}

/// Whether a registry holds a transport for participant `id`.
pub open spec fn contains_id(r: Seq<String>, id: Seq<char>) -> bool {
    exists|i: int| 0 <= i < r.len() && (#[trigger] r[i])@ == id
}

/// No participant id appears twice in a registry.
pub open spec fn distinct_ids(r: Seq<String>) -> bool {
    forall|i: int, j: int| 0 <= i < r.len() && 0 <= j < r.len() && i != j ==> (#[trigger] r[i])@ != (#[trigger] r[j])@
}

/// The index of participant `id` in a registry that holds it.
pub open spec fn position(r: Seq<String>, id: Seq<char>) -> int {
    choose|i: int| 0 <= i < r.len() && (#[trigger] r[i])@ == id
}

/// One `ClosePeer` per registry entry, in registry order.
pub open spec fn close_all(r: Seq<String>) -> Seq<Action> {
    Seq::new(r.len(), |i: int| Action::ClosePeer { peer_id: r[i] })
}

/// Admission of the peers listed in `RoomJoined`: each id that is neither the
/// local participant's nor already registered is registered, opened, offered
/// to and announced.
pub open spec fn admission(reg: Seq<String>, self_id: Seq<char>, peers: Seq<PeerInfo>) -> (Seq<String>, Seq<Action>)
    decreases peers.len(),
{
    if peers.len() == 0 {
        (reg, Seq::empty())
    } else {
        let (r, a) = admission(reg, self_id, peers.drop_last());
        let p = peers.last();
        if p.peer_id@ == self_id || contains_id(r, p.peer_id@) {
            (r, a)
        } else {
            (
                r.push(p.peer_id),
                a + seq![
                    Action::OpenPeer { peer_id: p.peer_id },
                    Action::MakeOffer { peer_id: p.peer_id },
                    Action::Emit(UiEvent::PeerJoined { peer_id: p.peer_id, name: p.name }),
                ],
            )
        }
    }
}

/// The action that hands a payload received from peer `from` to its transport.
pub open spec fn dispatch(from: String, payload: SignalPayload) -> Action {
    match payload {
        SignalPayload::Offer { sdp } => Action::AnswerOffer { peer_id: from, sdp },
        SignalPayload::Answer { sdp } => Action::ApplyAnswer { peer_id: from, sdp },
        SignalPayload::IceCandidate { candidate, sdp_mid, sdp_mline_index } => Action::AddCandidate {
            peer_id: from,
            candidate,
            sdp_mid,
            sdp_mline_index,
        },
    }
}

/// `t` is `s` with nothing changed.
pub open spec fn unchanged(s: Session, t: Session) -> bool {
    &&& t.self_id == s.self_id
    &&& t.state == s.state
    &&& t.room_name == s.room_name
    &&& t.peers@ == s.peers@
}

/// `t` is `s` with the registry replaced by `peers` and the state by `state`.
pub open spec fn moved_to(s: Session, t: Session, state: CallState, peers: Seq<String>) -> bool {
    &&& t.self_id == s.self_id
    &&& t.state == state
    &&& t.room_name == s.room_name
    &&& t.peers@ == peers
}

/// Removal of participant `id` from the registry, with its transport closed
/// and its departure announced; nothing happens for an unknown id.
pub open spec fn departure(s: Session, id: Seq<char>, t: Session, acts: Seq<Action>) -> bool {
    if contains_id(s.peers@, id) {
        let i = position(s.peers@, id);
        &&& moved_to(s, t, s.state, s.peers@.remove(i))
        &&& acts == seq![
            Action::ClosePeer { peer_id: s.peers@[i] },
            Action::Emit(UiEvent::PeerLeft { peer_id: s.peers@[i] }),
        ]
    } else {
        unchanged(s, t) && acts.len() == 0
    }
}

/// Entry into an error state whose message is `text`: every transport closed,
/// audio stopped if a room was joined, the error and the new state announced.
pub open spec fn failure(s: Session, text: Seq<char>, t: Session, acts: Seq<Action>) -> bool {
    &&& t.state is Error
    &&& t.state->Error_message@ == text
    &&& t.self_id == s.self_id
    &&& t.room_name == s.room_name
    &&& t.peers@.len() == 0
    &&& acts == close_all(s.peers@) + (if s.state is InRoom { seq![Action::StopAudio] } else { Seq::empty() }) + seq![
        Action::Emit(UiEvent::Error { message: t.state->Error_message }),
        Action::Emit(UiEvent::StateChanged),
    ]
}

/// What handling the inbound message `msg` in session `s` does: `t` is the
/// new session and `acts` the actions, in order.
pub open spec fn message_step(s: Session, msg: SignalMessage, t: Session, acts: Seq<Action>) -> bool {
    match msg {
        SignalMessage::RoomJoined { room_id, peers, is_host, locked } => if s.state is Connecting {
            let (reg, opened) = admission(s.peers@, s.self_id@, peers@);
            &&& moved_to(s, t, CallState::InRoom { room_id, room_name: s.room_name, is_host, locked }, reg)
            &&& acts == seq![Action::StartAudio] + opened + seq![Action::Emit(UiEvent::StateChanged)]
        } else {
            unchanged(s, t) && acts.len() == 0
        },
        SignalMessage::PeerJoined { peer_id, name } => if s.state is InRoom && peer_id@ != s.self_id@
            && !contains_id(s.peers@, peer_id@) {
            &&& moved_to(s, t, s.state, s.peers@.push(peer_id))
            &&& acts == seq![
                Action::OpenPeer { peer_id },
                Action::Emit(UiEvent::PeerJoined { peer_id, name }),
            ]
        } else {
            unchanged(s, t) && acts.len() == 0
        },
        SignalMessage::PeerLeft { peer_id } => departure(s, peer_id@, t, acts),
        SignalMessage::Kicked => if s.state is InRoom {
            &&& moved_to(s, t, CallState::Idle, Seq::empty())
            &&& acts == close_all(s.peers@) + seq![
                Action::StopAudio,
                Action::Emit(UiEvent::Kicked),
                Action::Emit(UiEvent::StateChanged),
            ]
        } else {
            unchanged(s, t) && acts.len() == 0
        },
        SignalMessage::ForceMuted => {
            &&& unchanged(s, t)
            &&& acts == if s.state is InRoom {
                seq![Action::SetMuted(true), Action::Emit(UiEvent::ForceMuted)]
            } else {
                Seq::empty()
            }
        },
        SignalMessage::RoomLocked { locked } => match s.state {
            CallState::InRoom { room_id, room_name, is_host, locked: _ } => {
                &&& moved_to(s, t, CallState::InRoom { room_id, room_name, is_host, locked }, s.peers@)
                &&& acts == seq![
                    Action::Emit(UiEvent::RoomLocked { locked }),
                    Action::Emit(UiEvent::StateChanged),
                ]
            },
            _ => unchanged(s, t) && acts.len() == 0,
        },
        SignalMessage::RoomLockedError => if s.state is Connecting {
            failure(s, ROOM_LOCKED_MESSAGE@, t, acts)
        } else if s.state is InRoom {
            &&& unchanged(s, t)
            &&& acts.len() == 1
            &&& acts[0] is Emit
            &&& acts[0]->Emit_0 is Error
            &&& acts[0]->Emit_0->Error_message@ == ROOM_LOCKED_MESSAGE@
        } else {
            unchanged(s, t) && acts.len() == 0
        },
        SignalMessage::Signal { to: _, from, payload } => {
            &&& unchanged(s, t)
            &&& acts == match from {
                Some(f) => if contains_id(s.peers@, f@) {
                    seq![dispatch(f, payload)]
                } else {
                    Seq::empty()
                },
                None => Seq::empty(),
            }
        },
        _ => unchanged(s, t) && acts.len() == 0,
    }
}

/// The participant whose transport action `a` opens, if it opens one.
pub open spec fn opened_by(a: Action) -> Option<Seq<char>> {
    match a {
        Action::OpenPeer { peer_id } => Some(peer_id@),
        _ => None,
    }
}

/// The participant whose transport action `a` closes, if it closes one.
pub open spec fn closed_by(a: Action) -> Option<Seq<char>> {
    match a {
        Action::ClosePeer { peer_id } => Some(peer_id@),
        _ => None,
    }
}

/// Whether `acts` opens a transport for participant `id`.
pub open spec fn opens(acts: Seq<Action>, id: Seq<char>) -> bool {
    exists|i: int| 0 <= i < acts.len() && #[trigger] opened_by(acts[i]) == Some(id)
}

/// Whether `acts` closes the transport of participant `id`.
pub open spec fn closes(acts: Seq<Action>, id: Seq<char>) -> bool {
    exists|i: int| 0 <= i < acts.len() && #[trigger] closed_by(acts[i]) == Some(id)
}

proof fn lemma_opens_closes_concat(a: Seq<Action>, b: Seq<Action>)
    ensures
        forall|id: Seq<char>| #[trigger] opens(a + b, id) <==> opens(a, id) || opens(b, id),
        forall|id: Seq<char>| #[trigger] closes(a + b, id) <==> closes(a, id) || closes(b, id),
{
    assert forall|id: Seq<char>| #[trigger] opens(a + b, id) <==> opens(a, id) || opens(b, id) by {
        if opens(a + b, id) {
            let i = choose|i: int| 0 <= i < (a + b).len() && #[trigger] opened_by((a + b)[i]) == Some(id);
            if i < a.len() {
                assert(opened_by(a[i]) == Some(id));
            } else {
                assert(opened_by(b[i - a.len()]) == Some(id));
            }
        }
        if opens(a, id) {
            let i = choose|i: int| 0 <= i < a.len() && #[trigger] opened_by(a[i]) == Some(id);
            assert((a + b)[i] == a[i]);
        }
        if opens(b, id) {
            let i = choose|i: int| 0 <= i < b.len() && #[trigger] opened_by(b[i]) == Some(id);
            assert((a + b)[a.len() + i] == b[i]);
        }
    }
    assert forall|id: Seq<char>| #[trigger] closes(a + b, id) <==> closes(a, id) || closes(b, id) by {
        if closes(a + b, id) {
            let i = choose|i: int| 0 <= i < (a + b).len() && #[trigger] closed_by((a + b)[i]) == Some(id);
            if i < a.len() {
                assert(closed_by(a[i]) == Some(id));
            } else {
                assert(closed_by(b[i - a.len()]) == Some(id));
            }
        }
        if closes(a, id) {
            let i = choose|i: int| 0 <= i < a.len() && #[trigger] closed_by(a[i]) == Some(id);
            assert((a + b)[i] == a[i]);
        }
        if closes(b, id) {
            let i = choose|i: int| 0 <= i < b.len() && #[trigger] closed_by(b[i]) == Some(id);
            assert((a + b)[a.len() + i] == b[i]);
        }
    }
}

proof fn lemma_close_all_closes(r: Seq<String>)
    ensures
        forall|id: Seq<char>| #[trigger] closes(close_all(r), id) <==> contains_id(r, id),
        forall|id: Seq<char>| !(#[trigger] opens(close_all(r), id)),
{
    assert forall|id: Seq<char>| #[trigger] closes(close_all(r), id) <==> contains_id(r, id) by {
        if contains_id(r, id) {
            let i = choose|i: int| 0 <= i < r.len() && (#[trigger] r[i])@ == id;
            assert(closed_by(close_all(r)[i]) == Some(id));
        }
    }
}

proof fn lemma_admission_opens(reg: Seq<String>, self_id: Seq<char>, peers: Seq<PeerInfo>)
    ensures
        forall|id: Seq<char>| #[trigger] opens(admission(reg, self_id, peers).1, id) <==> (!contains_id(reg, id) && contains_id(admission(reg, self_id, peers).0, id)),
        forall|id: Seq<char>| !(#[trigger] closes(admission(reg, self_id, peers).1, id)),
        forall|id: Seq<char>| contains_id(reg, id) ==> #[trigger] contains_id(admission(reg, self_id, peers).0, id),
    decreases peers.len(),
{
    if peers.len() > 0 {
        let (r0, a0) = admission(reg, self_id, peers.drop_last());
        lemma_admission_opens(reg, self_id, peers.drop_last());
        let p = peers.last();
        if !(p.peer_id@ == self_id || contains_id(r0, p.peer_id@)) {
            let r = r0.push(p.peer_id);
            let tail = seq![
                Action::OpenPeer { peer_id: p.peer_id },
                Action::MakeOffer { peer_id: p.peer_id },
                Action::Emit(UiEvent::PeerJoined { peer_id: p.peer_id, name: p.name }),
            ];
            lemma_opens_closes_concat(a0, tail);
            assert(opened_by(tail[0]) == Some(p.peer_id@));
            assert forall|id: Seq<char>| #[trigger] opens(tail, id) <==> id == p.peer_id@ by {
                if opens(tail, id) {
                    let i = choose|i: int| 0 <= i < tail.len() && #[trigger] opened_by(tail[i]) == Some(id);
                    assert(i == 0);
                }
            }
            assert forall|id: Seq<char>| !(#[trigger] closes(tail, id)) by {
                if closes(tail, id) {
                    let i = choose|i: int| 0 <= i < tail.len() && #[trigger] closed_by(tail[i]) == Some(id);
                }
            }
            assert forall|id: Seq<char>| #[trigger] contains_id(r, id) <==> contains_id(r0, id) || id == p.peer_id@ by {
                if contains_id(r, id) {
                    let i = choose|i: int| 0 <= i < r.len() && (#[trigger] r[i])@ == id;
                    if i < r0.len() {
                        assert(r0[i] == r[i]);
                    }
                }
                if contains_id(r0, id) {
                    let i = choose|i: int| 0 <= i < r0.len() && (#[trigger] r0[i])@ == id;
                    assert(r[i] == r0[i]);
                }
                if id == p.peer_id@ {
                    assert(r[r0.len() as int] == p.peer_id);
                }
            }
        }
    }
}

proof fn lemma_no_transport_actions(acts: Seq<Action>)
    requires
        forall|i: int| 0 <= i < acts.len() ==> !(acts[i] is OpenPeer) && !(acts[i] is ClosePeer),
    ensures
        forall|id: Seq<char>| !(#[trigger] opens(acts, id)) && !closes(acts, id),
{
    assert forall|id: Seq<char>| !(#[trigger] opens(acts, id)) && !closes(acts, id) by {
        if opens(acts, id) {
            let i = choose|i: int| 0 <= i < acts.len() && #[trigger] opened_by(acts[i]) == Some(id);
        }
        if closes(acts, id) {
            let i = choose|i: int| 0 <= i < acts.len() && #[trigger] closed_by(acts[i]) == Some(id);
        }
    }
}

/// The transports that handling a message opens and closes are exactly the
/// registry's changes: a transport is opened for a participant if and only if
/// the participant enters the registry, and closed if and only if it leaves.
/// So a runtime that keeps one transport per `OpenPeer` until its `ClosePeer`
/// holds exactly one transport per registered participant.
pub proof fn lemma_transports_follow_registry(s: Session, msg: SignalMessage, t: Session, acts: Seq<Action>)
    requires
        s.wf(),
        message_step(s, msg, t, acts),
    ensures
        forall|id: Seq<char>| #[trigger] opens(acts, id) <==> (!contains_id(s.peers@, id) && contains_id(t.peers@, id)),
        forall|id: Seq<char>| #[trigger] closes(acts, id) <==> (contains_id(s.peers@, id) && !contains_id(t.peers@, id)),
{
    match msg {
        SignalMessage::RoomJoined { room_id, peers, is_host, locked } => {
            if s.state is Connecting {
                let (reg, opened) = admission(s.peers@, s.self_id@, peers@);
                lemma_admission_opens(s.peers@, s.self_id@, peers@);
                let head = seq![Action::StartAudio];
                let tail = seq![Action::Emit(UiEvent::StateChanged)];
                lemma_opens_closes_concat(head, opened);
                lemma_opens_closes_concat(head + opened, tail);
                lemma_no_transport_actions(head);
                lemma_no_transport_actions(tail);
            } else {
                lemma_no_transport_actions(acts);
            }
        },
        SignalMessage::PeerJoined { peer_id, name } => {
            if s.state is InRoom && peer_id@ != s.self_id@ && !contains_id(s.peers@, peer_id@) {
                let r = s.peers@.push(peer_id);
                assert(opened_by(acts[0]) == Some(peer_id@));
                assert forall|id: Seq<char>| #[trigger] opens(acts, id) <==> id == peer_id@ by {
                    if opens(acts, id) {
                        let i = choose|i: int| 0 <= i < acts.len() && #[trigger] opened_by(acts[i]) == Some(id);
                        assert(i == 0);
                    }
                }
                assert forall|id: Seq<char>| !(#[trigger] closes(acts, id)) by {
                    if closes(acts, id) {
                        let i = choose|i: int| 0 <= i < acts.len() && #[trigger] closed_by(acts[i]) == Some(id);
                    }
                }
                assert forall|id: Seq<char>| #[trigger] contains_id(r, id) <==> contains_id(s.peers@, id) || id == peer_id@ by {
                    if contains_id(r, id) {
                        let i = choose|i: int| 0 <= i < r.len() && (#[trigger] r[i])@ == id;
                        if i < s.peers@.len() {
                            assert(s.peers@[i] == r[i]);
                        }
                    }
                    if contains_id(s.peers@, id) {
                        let i = choose|i: int| 0 <= i < s.peers@.len() && (#[trigger] s.peers@[i])@ == id;
                        assert(r[i] == s.peers@[i]);
                    }
                    if id == peer_id@ {
                        assert(r[s.peers@.len() as int] == peer_id);
                    }
                }
            } else {
                lemma_no_transport_actions(acts);
            }
        },
        SignalMessage::PeerLeft { peer_id } => {
            if contains_id(s.peers@, peer_id@) {
                let k = position(s.peers@, peer_id@);
                let gone = s.peers@[k];
                let r = s.peers@.remove(k);
                assert(closed_by(acts[0]) == Some(gone@));
                assert forall|id: Seq<char>| #[trigger] closes(acts, id) <==> id == gone@ by {
                    if closes(acts, id) {
                        let i = choose|i: int| 0 <= i < acts.len() && #[trigger] closed_by(acts[i]) == Some(id);
                        assert(i == 0);
                    }
                }
                assert forall|id: Seq<char>| !(#[trigger] opens(acts, id)) by {
                    if opens(acts, id) {
                        let i = choose|i: int| 0 <= i < acts.len() && #[trigger] opened_by(acts[i]) == Some(id);
                    }
                }
                assert forall|id: Seq<char>| #[trigger] contains_id(r, id) <==> contains_id(s.peers@, id) && id != gone@ by {
                    if contains_id(r, id) {
                        let i = choose|i: int| 0 <= i < r.len() && (#[trigger] r[i])@ == id;
                        let j = if i < k { i } else { i + 1 };
                        assert(r[i] == s.peers@[j]);
                    }
                    if contains_id(s.peers@, id) && id != gone@ {
                        let j = choose|j: int| 0 <= j < s.peers@.len() && (#[trigger] s.peers@[j])@ == id;
                        let i = if j < k { j } else { j - 1 };
                        assert(r[i] == s.peers@[j]);
                    }
                }
            } else {
                lemma_no_transport_actions(acts);
            }
        },
        SignalMessage::Kicked => {
            if s.state is InRoom {
                lemma_close_all_closes(s.peers@);
                let tail = seq![Action::StopAudio, Action::Emit(UiEvent::Kicked), Action::Emit(UiEvent::StateChanged)];
                lemma_opens_closes_concat(close_all(s.peers@), tail);
                lemma_no_transport_actions(tail);
            } else {
                lemma_no_transport_actions(acts);
            }
        },
        SignalMessage::RoomLockedError => {
            if s.state is Connecting {
                assert(close_all(s.peers@) =~= Seq::<Action>::empty());
                lemma_no_transport_actions(acts);
            } else {
                lemma_no_transport_actions(acts);
            }
        },
        _ => {
            lemma_no_transport_actions(acts);
        },
    }
}

/// Whether `acts` holds the action `a`.
pub open spec fn has_action(acts: Seq<Action>, a: Action) -> bool {
    exists|i: int| 0 <= i < acts.len() && #[trigger] acts[i] == a
}

proof fn lemma_has_concat(a: Seq<Action>, b: Seq<Action>, x: Action)
    ensures
        has_action(a + b, x) <==> has_action(a, x) || has_action(b, x),
{
    if has_action(a + b, x) {
        let i = choose|i: int| 0 <= i < (a + b).len() && #[trigger] (a + b)[i] == x;
        if i < a.len() {
            assert(a[i] == x);
        } else {
            assert(b[i - a.len()] == x);
        }
    }
    if has_action(a, x) {
        let i = choose|i: int| 0 <= i < a.len() && #[trigger] a[i] == x;
        assert((a + b)[i] == a[i]);
    }
    if has_action(b, x) {
        let i = choose|i: int| 0 <= i < b.len() && #[trigger] b[i] == x;
        assert((a + b)[a.len() + i] == b[i]);
    }
}

proof fn lemma_admission_leaves_audio(reg: Seq<String>, self_id: Seq<char>, peers: Seq<PeerInfo>)
    ensures
        !has_action(admission(reg, self_id, peers).1, Action::StartAudio),
        !has_action(admission(reg, self_id, peers).1, Action::StopAudio),
    decreases peers.len(),
{
    if peers.len() > 0 {
        let (r0, a0) = admission(reg, self_id, peers.drop_last());
        lemma_admission_leaves_audio(reg, self_id, peers.drop_last());
        let p = peers.last();
        if !(p.peer_id@ == self_id || contains_id(r0, p.peer_id@)) {
            let tail = seq![
                Action::OpenPeer { peer_id: p.peer_id },
                Action::MakeOffer { peer_id: p.peer_id },
                Action::Emit(UiEvent::PeerJoined { peer_id: p.peer_id, name: p.name }),
            ];
            lemma_has_concat(a0, tail, Action::StartAudio);
            lemma_has_concat(a0, tail, Action::StopAudio);
        }
    }
}

proof fn lemma_close_all_leaves_audio(r: Seq<String>)
    ensures
        !has_action(close_all(r), Action::StartAudio),
        !has_action(close_all(r), Action::StopAudio),
{
}

/// Audio capture and playback start exactly when a message brings the
/// session into a room and stop exactly when one takes it out, so at most one
/// capture and one playback run, and only during a call.
pub proof fn lemma_audio_follows_room(s: Session, msg: SignalMessage, t: Session, acts: Seq<Action>)
    requires
        s.wf(),
        message_step(s, msg, t, acts),
    ensures
        has_action(acts, Action::StartAudio) <==> (!(s.state is InRoom) && t.state is InRoom),
        has_action(acts, Action::StopAudio) <==> (s.state is InRoom && !(t.state is InRoom)),
{
    match msg {
        SignalMessage::RoomJoined { room_id, peers, is_host, locked } => {
            if s.state is Connecting {
                let (reg, opened) = admission(s.peers@, s.self_id@, peers@);
                lemma_admission_leaves_audio(s.peers@, s.self_id@, peers@);
                let head = seq![Action::StartAudio];
                let tail = seq![Action::Emit(UiEvent::StateChanged)];
                lemma_has_concat(head, opened, Action::StartAudio);
                lemma_has_concat(head, opened, Action::StopAudio);
                lemma_has_concat(head + opened, tail, Action::StartAudio);
                lemma_has_concat(head + opened, tail, Action::StopAudio);
                assert(head[0] == Action::StartAudio);
            }
        },
        SignalMessage::Kicked => {
            if s.state is InRoom {
                lemma_close_all_leaves_audio(s.peers@);
                let tail = seq![Action::StopAudio, Action::Emit(UiEvent::Kicked), Action::Emit(UiEvent::StateChanged)];
                lemma_has_concat(close_all(s.peers@), tail, Action::StartAudio);
                lemma_has_concat(close_all(s.peers@), tail, Action::StopAudio);
                assert(tail[0] == Action::StopAudio);
            }
        },
        SignalMessage::RoomLockedError => {
            if s.state is Connecting {
                assert(close_all(s.peers@) =~= Seq::<Action>::empty());
            }
        },
        _ => {},
    }
}

/// Looks participant `id` up in a registry.
fn find_peer(peers: &Vec<String>, id: &String) -> (r: Option<usize>)
    ensures
        r matches Some(i) ==> i < peers@.len() && peers@[i as int]@ == id@,
        r is None ==> !contains_id(peers@, id@),
{
    let mut i: usize = 0;
    while i < peers.len()
        invariant
            i <= peers@.len(),
            forall|j: int| 0 <= j < i ==> (#[trigger] peers@[j])@ != id@,
        decreases peers@.len() - i,
    {
        if peers[i] == *id {
            return Some(i);
        }
        i = i + 1;
    }
    None
}

/// The `ClosePeer` actions for every registered transport, in registry order.
fn close_actions(peers: &Vec<String>) -> (r: Vec<Action>)
    ensures
        r@ == close_all(peers@),
{
    let mut r: Vec<Action> = Vec::new();
    let mut i: usize = 0;
    while i < peers.len()
        invariant
            i <= peers@.len(),
            r@ == close_all(peers@.subrange(0, i as int)),
        decreases peers@.len() - i,
    {
        r.push(Action::ClosePeer { peer_id: peers[i].clone() });
        proof {
            assert(close_all(peers@.subrange(0, i + 1)) =~= close_all(peers@.subrange(0, i as int)).push(
                Action::ClosePeer { peer_id: peers@[i as int] },
            ));
        }
        i = i + 1;
    }
    assert(peers@.subrange(0, peers@.len() as int) =~= peers@);
    r
}

impl Session {
    /// The invariant kept by every handler: registry ids are distinct, the
    /// local participant never has a transport, and transports exist only in
    /// a joined room.
    pub open spec fn wf(&self) -> bool {
        &&& distinct_ids(self.peers@)
        &&& !contains_id(self.peers@, self.self_id@)
        &&& (!(self.state is InRoom) ==> self.peers@.len() == 0)
    }

    /// An idle session for the local participant `self_id`.
    pub fn new(self_id: String) -> (r: Session)
        ensures
            r.wf(),
            r.self_id == self_id,
            r.state is Idle,
            r.peers@.len() == 0,
    {
        Session { self_id, state: CallState::Idle, room_name: String::new(), peers: Vec::new() }
    }

    /// Asks the server to join room `room_id` under the display name `name`;
    /// `room_name` is what the joined room will be called locally. Refused
    /// while a room is being joined or has been joined.
    pub fn join(&mut self, room_id: String, name: String, password: Option<String>, room_name: String) -> (r: Result<Vec<Action>, SessionError>)
        requires
            old(self).wf(),
        ensures
            final(self).wf(),
            r is Ok <==> (old(self).state is Idle || old(self).state is Error),
            r is Err ==> r->Err_0 == SessionError::AlreadyInCall && *final(self) == *old(self),
            r matches Ok(acts) ==> {
                &&& final(self).state is Connecting
                &&& final(self).room_name == room_name
                &&& final(self).self_id == old(self).self_id
                &&& final(self).peers@ == old(self).peers@
                &&& acts@ == seq![
                    Action::Send(SignalMessage::Join { room_id, peer_id: old(self).self_id, name, password }),
                    Action::Emit(UiEvent::StateChanged),
                ]
            },
    {
        match self.state {
            CallState::Connecting | CallState::InRoom { .. } => Err(SessionError::AlreadyInCall),
            _ => {
                self.state = CallState::Connecting;
                self.room_name = room_name;
                Ok(vec![
                    Action::Send(SignalMessage::Join { room_id, peer_id: self.self_id.clone(), name, password }),
                    Action::Emit(UiEvent::StateChanged),
                ])
            },
        }
    }

    /// Handles one message from the relay server.
    pub fn on_message(&mut self, msg: SignalMessage) -> (acts: Vec<Action>)
        requires
            old(self).wf(),
        ensures
            final(self).wf(),
            message_step(*old(self), msg, *final(self), acts@),
    {
        let ghost s0 = *self;
        match msg {
            SignalMessage::RoomJoined { room_id, peers, is_host, locked } => {
                if matches!(self.state, CallState::Connecting) {
                    let mut acts: Vec<Action> = vec![Action::StartAudio];
                    let mut opened = self.register_listed_peers(&peers);
                    acts.append(&mut opened);
                    acts.push(Action::Emit(UiEvent::StateChanged));
                    self.state = CallState::InRoom { room_id, room_name: self.room_name.clone(), is_host, locked };
                    proof {
                        let (reg, opened_spec) = admission(s0.peers@, s0.self_id@, peers@);
                        assert(acts@ =~= seq![Action::StartAudio] + opened_spec + seq![Action::Emit(UiEvent::StateChanged)]);
                    }
                    acts
                } else {
                    Vec::new()
                }
            },
            SignalMessage::PeerJoined { peer_id, name } => {
                if matches!(self.state, CallState::InRoom { .. }) && peer_id != self.self_id {
                    match find_peer(&self.peers, &peer_id) {
                        Some(_) => Vec::new(),
                        None => {
                            self.peers.push(peer_id.clone());
                            vec![
                                Action::OpenPeer { peer_id: peer_id.clone() },
                                Action::Emit(UiEvent::PeerJoined { peer_id, name }),
                            ]
                        },
                    }
                } else {
                    Vec::new()
                }
            },
            SignalMessage::PeerLeft { peer_id } => self.depart(&peer_id),
            SignalMessage::Kicked => {
                if matches!(self.state, CallState::InRoom { .. }) {
                    let mut acts = self.tear_down();
                    acts.push(Action::StopAudio);
                    acts.push(Action::Emit(UiEvent::Kicked));
                    acts.push(Action::Emit(UiEvent::StateChanged));
                    self.state = CallState::Idle;
                    proof {
                        assert(acts@ =~= close_all(s0.peers@) + seq![
                            Action::StopAudio,
                            Action::Emit(UiEvent::Kicked),
                            Action::Emit(UiEvent::StateChanged),
                        ]);
                    }
                    acts
                } else {
                    Vec::new()
                }
            },
            SignalMessage::ForceMuted => {
                if matches!(self.state, CallState::InRoom { .. }) {
                    vec![Action::SetMuted(true), Action::Emit(UiEvent::ForceMuted)]
                } else {
                    Vec::new()
                }
            },
            SignalMessage::RoomLocked { locked } => {
                let mut current = CallState::Idle;
                core::mem::swap(&mut self.state, &mut current);
                match current {
                    CallState::InRoom { room_id, room_name, is_host, locked: _ } => {
                        self.state = CallState::InRoom { room_id, room_name, is_host, locked };
                        vec![Action::Emit(UiEvent::RoomLocked { locked }), Action::Emit(UiEvent::StateChanged)]
                    },
                    other => {
                        self.state = other;
                        Vec::new()
                    },
                }
            },
            SignalMessage::RoomLockedError => {
                if matches!(self.state, CallState::Connecting) {
                    self.fail(ROOM_LOCKED_MESSAGE)
                } else if matches!(self.state, CallState::InRoom { .. }) {
                    vec![Action::Emit(UiEvent::Error { message: String::from_str(ROOM_LOCKED_MESSAGE) })]
                } else {
                    Vec::new()
                }
            },
            SignalMessage::Signal { to: _, from, payload } => match from {
                Some(f) => match find_peer(&self.peers, &f) {
                    Some(_) => {
                        let ghost expected = dispatch(f, payload);
                        let a = match payload {
                            SignalPayload::Offer { sdp } => Action::AnswerOffer { peer_id: f, sdp },
                            SignalPayload::Answer { sdp } => Action::ApplyAnswer { peer_id: f, sdp },
                            SignalPayload::IceCandidate { candidate, sdp_mid, sdp_mline_index } => Action::AddCandidate {
                                peer_id: f,
                                candidate,
                                sdp_mid,
                                sdp_mline_index,
                            },
                        };
                        let r = vec![a];
                        assert(r@ =~= seq![expected]);
                        r
                    },
                    None => Vec::new(),
                },
                None => Vec::new(),
            },
            _ => Vec::new(),
        }
    }

    /// Handles the loss of the signaling connection: while a room is joined
    /// or being joined, the whole call fails.
    pub fn on_signaling_lost(&mut self) -> (acts: Vec<Action>)
        requires
            old(self).wf(),
        ensures
            final(self).wf(),
            (old(self).state is InRoom || old(self).state is Connecting) ==> failure(
                *old(self),
                SIGNALING_LOST_MESSAGE@,
                *final(self),
                acts@,
            ),
            !(old(self).state is InRoom || old(self).state is Connecting) ==> unchanged(*old(self), *final(self))
                && acts@.len() == 0,
    {
        if matches!(self.state, CallState::InRoom { .. }) || matches!(self.state, CallState::Connecting) {
            self.fail(SIGNALING_LOST_MESSAGE)
        } else {
            Vec::new()
        }
    }

    /// Handles a peer transport that reports its connection failed,
    /// disconnected or closed: the transport is torn down.
    pub fn on_peer_connection_lost(&mut self, peer_id: &String) -> (acts: Vec<Action>)
        requires
            old(self).wf(),
        ensures
            final(self).wf(),
            departure(*old(self), peer_id@, *final(self), acts@),
    {
        self.depart(peer_id)
    }

    /// Leaves the current room: the server is told when a room was joined,
    /// every transport is closed, audio stops and the state returns to idle.
    pub fn leave(&mut self) -> (acts: Vec<Action>)
        requires
            old(self).wf(),
        ensures
            final(self).wf(),
            match old(self).state {
                CallState::InRoom { room_id, .. } => {
                    &&& moved_to(*old(self), *final(self), CallState::Idle, Seq::empty())
                    &&& acts@ == seq![Action::Send(SignalMessage::Leave { room_id, peer_id: old(self).self_id })] + close_all(
                        old(self).peers@,
                    ) + seq![Action::StopAudio, Action::Emit(UiEvent::StateChanged)]
                },
                CallState::Idle => unchanged(*old(self), *final(self)) && acts@.len() == 0,
                _ => {
                    &&& moved_to(*old(self), *final(self), CallState::Idle, old(self).peers@)
                    &&& acts@ == seq![Action::Emit(UiEvent::StateChanged)]
                },
            },
    {
        let ghost s0 = *self;
        let mut current = CallState::Idle;
        core::mem::swap(&mut self.state, &mut current);
        match current {
            CallState::InRoom { room_id, .. } => {
                let mut acts = vec![Action::Send(SignalMessage::Leave { room_id, peer_id: self.self_id.clone() })];
                let mut closed = self.tear_down();
                acts.append(&mut closed);
                acts.push(Action::StopAudio);
                acts.push(Action::Emit(UiEvent::StateChanged));
                proof {
                    assert(acts@ =~= seq![Action::Send(SignalMessage::Leave { room_id, peer_id: s0.self_id })] + close_all(
                        s0.peers@,
                    ) + seq![Action::StopAudio, Action::Emit(UiEvent::StateChanged)]);
                }
                acts
            },
            CallState::Idle => Vec::new(),
            _ => vec![Action::Emit(UiEvent::StateChanged)],
        }
    }

    /// The message that carries a locally produced offer, answer or ICE
    /// candidate to peer `peer_id`; none for a participant without a transport.
    pub fn outbound_signal(&self, peer_id: String, payload: SignalPayload) -> (r: Option<SignalMessage>)
        ensures
            (r is Some) <==> contains_id(self.peers@, peer_id@),
            r matches Some(m) ==> m == (SignalMessage::Signal { to: Some(peer_id), from: Some(self.self_id), payload }),
    {
        match find_peer(&self.peers, &peer_id) {
            Some(_) => Some(SignalMessage::Signal { to: Some(peer_id), from: Some(self.self_id.clone()), payload }),
            None => None,
        }
    }

    /// Asks the server to remove participant `peer_id` from the room. The
    /// server decides whether the local participant may do so.
    pub fn kick_peer(&self, peer_id: String) -> (r: Result<SignalMessage, SessionError>)
        ensures
            (r is Ok) <==> (self.state is InRoom),
            r matches Ok(m) ==> m == (SignalMessage::Kick { peer_id }),
            r matches Err(e) ==> e == SessionError::NotInRoom,
    {
        if matches!(self.state, CallState::InRoom { .. }) {
            Ok(SignalMessage::Kick { peer_id })
        } else {
            Err(SessionError::NotInRoom)
        }
    }

    /// Asks the server to mute participant `peer_id`. The server decides
    /// whether the local participant may do so.
    pub fn force_mute_peer(&self, peer_id: String) -> (r: Result<SignalMessage, SessionError>)
        ensures
            (r is Ok) <==> (self.state is InRoom),
            r matches Ok(m) ==> m == (SignalMessage::ForceMute { peer_id }),
            r matches Err(e) ==> e == SessionError::NotInRoom,
    {
        if matches!(self.state, CallState::InRoom { .. }) {
            Ok(SignalMessage::ForceMute { peer_id })
        } else {
            Err(SessionError::NotInRoom)
        }
    }

    /// Asks the server to lock the room with `password`, or to unlock it with
    /// none. The server decides whether the local participant may do so.
    pub fn lock_room(&self, password: Option<String>) -> (r: Result<SignalMessage, SessionError>)
        ensures
            (r is Ok) <==> (self.state is InRoom),
            r matches Ok(m) ==> m == (SignalMessage::LockRoom { password }),
            r matches Err(e) ==> e == SessionError::NotInRoom,
    {
        if matches!(self.state, CallState::InRoom { .. }) {
            Ok(SignalMessage::LockRoom { password })
        } else {
            Err(SessionError::NotInRoom)
        }
    }

    /// Removes participant `id` from the registry, if present.
    fn depart(&mut self, id: &String) -> (acts: Vec<Action>)
        requires
            old(self).wf(),
        ensures
            final(self).wf(),
            departure(*old(self), id@, *final(self), acts@),
    {
        match find_peer(&self.peers, id) {
            Some(i) => {
                proof {
                    let c = position(self.peers@, id@);
                    assert(self.peers@[i as int]@ == id@);
                    assert(self.peers@[c]@ == id@);
                    assert(c == i);
                }
                let ghost before = self.peers@;
                let gone = self.peers.remove(i);
                proof {
                    assert forall|a: int, b: int| 0 <= a < self.peers@.len() && 0 <= b < self.peers@.len() && a != b implies
                        (#[trigger] self.peers@[a])@ != (#[trigger] self.peers@[b])@ by {
                        let a0 = if a < i { a } else { a + 1 };
                        let b0 = if b < i { b } else { b + 1 };
                        assert(self.peers@[a] == before[a0]);
                        assert(self.peers@[b] == before[b0]);
                    }
                    assert forall|a: int| 0 <= a < self.peers@.len() implies (#[trigger] self.peers@[a])@ != self.self_id@ by {
                        let a0 = if a < i { a } else { a + 1 };
                        assert(self.peers@[a] == before[a0]);
                    }
                }
                vec![Action::ClosePeer { peer_id: gone.clone() }, Action::Emit(UiEvent::PeerLeft { peer_id: gone })]
            },
            None => Vec::new(),
        }
    }

    /// Empties the registry, returning one `ClosePeer` per former entry.
    fn tear_down(&mut self) -> (acts: Vec<Action>)
        ensures
            acts@ == close_all(old(self).peers@),
            final(self).peers@ == Seq::<String>::empty(),
            final(self).self_id == old(self).self_id,
            final(self).state == old(self).state,
            final(self).room_name == old(self).room_name,
    {
        let acts = close_actions(&self.peers);
        self.peers = Vec::new();
        assert(self.peers@ =~= Seq::<String>::empty());
        acts
    }

    /// Closes every transport, stops audio if a room was joined and enters
    /// the error state with message `text`.
    fn fail(&mut self, text: &'static str) -> (acts: Vec<Action>)
        requires
            old(self).wf(),
        ensures
            final(self).wf(),
            failure(*old(self), text@, *final(self), acts@),
    {
        let ghost s0 = *self;
        let in_room = matches!(self.state, CallState::InRoom { .. });
        let mut acts = self.tear_down();
        if in_room {
            acts.push(Action::StopAudio);
        }
        let message = String::from_str(text);
        acts.push(Action::Emit(UiEvent::Error { message: message.clone() }));
        acts.push(Action::Emit(UiEvent::StateChanged));
        self.state = CallState::Error { message };
        proof {
            assert(acts@ =~= close_all(s0.peers@) + (if s0.state is InRoom { seq![Action::StopAudio] } else { Seq::empty() })
                + seq![
                Action::Emit(UiEvent::Error { message: self.state->Error_message }),
                Action::Emit(UiEvent::StateChanged),
            ]);
        }
        acts
    }

    /// Registers, opens and offers to every listed peer that is new.
    fn register_listed_peers(&mut self, peers: &Vec<PeerInfo>) -> (acts: Vec<Action>)
        requires
            distinct_ids(old(self).peers@),
            !contains_id(old(self).peers@, old(self).self_id@),
        ensures
            distinct_ids(final(self).peers@),
            !contains_id(final(self).peers@, final(self).self_id@),
            final(self).self_id == old(self).self_id,
            final(self).state == old(self).state,
            final(self).room_name == old(self).room_name,
            (final(self).peers@, acts@) == admission(old(self).peers@, old(self).self_id@, peers@),
    {
        let mut acts: Vec<Action> = Vec::new();
        let mut i: usize = 0;
        while i < peers.len()
            invariant
                i <= peers@.len(),
                distinct_ids(self.peers@),
                !contains_id(self.peers@, self.self_id@),
                self.self_id == old(self).self_id,
                self.state == old(self).state,
                self.room_name == old(self).room_name,
                (self.peers@, acts@) == admission(old(self).peers@, old(self).self_id@, peers@.subrange(0, i as int)),
            decreases peers@.len() - i,
        {
            let p = &peers[i];
            proof {
                assert(peers@.subrange(0, i + 1).drop_last() =~= peers@.subrange(0, i as int));
            }
            if p.peer_id != self.self_id {
                match find_peer(&self.peers, &p.peer_id) {
                    Some(_) => {},
                    None => {
                        self.peers.push(p.peer_id.clone());
                        acts.push(Action::OpenPeer { peer_id: p.peer_id.clone() });
                        acts.push(Action::MakeOffer { peer_id: p.peer_id.clone() });
                        acts.push(Action::Emit(UiEvent::PeerJoined { peer_id: p.peer_id.clone(), name: p.name.clone() }));
                    },
                }
            }
            i = i + 1;
        }
        assert(peers@.subrange(0, peers@.len() as int) =~= peers@);
        acts
    }
}

} // verus!
