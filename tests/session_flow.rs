use entavi::session::{Action, Session, SessionError, UiEvent, ROOM_LOCKED_MESSAGE, SIGNALING_LOST_MESSAGE};
use entavi::signaling::{
    reader_step, writer_step, InboundFrame, ReaderAction, RttTracker, WireFrame, WriterAction, WriterEvent,
};
use entavi::types::{CallState, PeerInfo, SignalMessage, SignalPayload};

fn s(x: &str) -> String {
    x.to_string()
}

fn peer(id: &str, name: &str) -> PeerInfo {
    PeerInfo { peer_id: s(id), name: s(name) }
}

fn joined(peers: Vec<PeerInfo>, is_host: bool) -> Session {
    let mut session = Session::new(s("me"));
    session.join(s("room-1"), s("Me"), None, s("Standup")).unwrap();
    session.on_message(SignalMessage::RoomJoined { room_id: s("room-1"), peers, is_host, locked: false });
    session
}

fn count(acts: &[Action], f: impl Fn(&Action) -> bool) -> usize {
    acts.iter().filter(|a| f(a)).count()
}

#[test]
fn join_sends_join_and_enters_connecting() {
    let mut session = Session::new(s("me"));
    let acts = session.join(s("r"), s("Me"), Some(s("pw")), s("Room")).unwrap();
    assert!(matches!(session.state, CallState::Connecting));
    assert_eq!(acts.len(), 2);
    match &acts[0] {
        Action::Send(SignalMessage::Join { room_id, peer_id, name, password }) => {
            assert_eq!(room_id, "r");
            assert_eq!(peer_id, "me");
            assert_eq!(name, "Me");
            assert_eq!(password.as_deref(), Some("pw"));
        },
        _ => panic!("expected a join message"),
    }
    assert!(matches!(acts[1], Action::Emit(UiEvent::StateChanged)));
    assert_eq!(session.join(s("r"), s("Me"), None, s("Room")).unwrap_err(), SessionError::AlreadyInCall);
}

#[test]
fn room_joined_with_one_peer_opens_one_transport_and_one_offer() {
    let mut session = Session::new(s("me"));
    session.join(s("room-1"), s("Me"), None, s("Standup")).unwrap();
    let acts = session.on_message(SignalMessage::RoomJoined {
        room_id: s("room-1"),
        peers: vec![peer("p1", "Alice")],
        is_host: false,
        locked: false,
    });
    assert_eq!(count(&acts, |a| matches!(a, Action::OpenPeer { .. })), 1);
    assert_eq!(count(&acts, |a| matches!(a, Action::MakeOffer { .. })), 1);
    assert_eq!(count(&acts, |a| matches!(a, Action::AnswerOffer { .. })), 0);
    assert!(matches!(acts[0], Action::StartAudio));
    assert!(matches!(&acts[1], Action::OpenPeer { peer_id } if peer_id == "p1"));
    assert!(matches!(&acts[2], Action::MakeOffer { peer_id } if peer_id == "p1"));
    assert!(matches!(&acts[3], Action::Emit(UiEvent::PeerJoined { peer_id, name }) if peer_id == "p1" && name == "Alice"));
    assert!(matches!(acts[4], Action::Emit(UiEvent::StateChanged)));
    assert_eq!(session.peers, vec![s("p1")]);
    match &session.state {
        CallState::InRoom { room_id, room_name, is_host, locked } => {
            assert_eq!(room_id, "room-1");
            assert_eq!(room_name, "Standup");
            assert!(!is_host);
            assert!(!locked);
        },
        _ => panic!("expected to be in the room"),
    }
}

#[test]
fn room_joined_skips_self_and_duplicates() {
    let session = joined(vec![peer("me", "Me"), peer("a", "A"), peer("a", "A again"), peer("b", "B")], true);
    assert_eq!(session.peers, vec![s("a"), s("b")]);
}

#[test]
fn room_joined_outside_connecting_is_ignored() {
    let mut session = Session::new(s("me"));
    let acts = session.on_message(SignalMessage::RoomJoined {
        room_id: s("x"),
        peers: vec![peer("p1", "Alice")],
        is_host: false,
        locked: false,
    });
    assert!(acts.is_empty());
    assert!(matches!(session.state, CallState::Idle));
    assert!(session.peers.is_empty());
}

#[test]
fn peer_joined_opens_without_offering() {
    let mut session = joined(vec![], true);
    let acts = session.on_message(SignalMessage::PeerJoined { peer_id: s("p2"), name: s("Bob") });
    assert_eq!(acts.len(), 2);
    assert!(matches!(&acts[0], Action::OpenPeer { peer_id } if peer_id == "p2"));
    assert!(matches!(&acts[1], Action::Emit(UiEvent::PeerJoined { peer_id, name }) if peer_id == "p2" && name == "Bob"));
    assert!(session.on_message(SignalMessage::PeerJoined { peer_id: s("p2"), name: s("Bob") }).is_empty());
    assert!(session.on_message(SignalMessage::PeerJoined { peer_id: s("me"), name: s("Me") }).is_empty());
    assert_eq!(session.peers, vec![s("p2")]);
}

#[test]
fn peer_left_closes_its_transport() {
    let mut session = joined(vec![peer("a", "A"), peer("b", "B"), peer("c", "C")], false);
    let acts = session.on_message(SignalMessage::PeerLeft { peer_id: s("b") });
    assert_eq!(acts.len(), 2);
    assert!(matches!(&acts[0], Action::ClosePeer { peer_id } if peer_id == "b"));
    assert!(matches!(&acts[1], Action::Emit(UiEvent::PeerLeft { peer_id }) if peer_id == "b"));
    assert_eq!(session.peers, vec![s("a"), s("c")]);
    assert!(session.on_message(SignalMessage::PeerLeft { peer_id: s("zz") }).is_empty());
    let acts = session.on_peer_connection_lost(&s("a"));
    assert!(matches!(&acts[0], Action::ClosePeer { peer_id } if peer_id == "a"));
    assert_eq!(session.peers, vec![s("c")]);
}

#[test]
fn kicked_closes_everything_and_returns_to_idle() {
    let mut session = joined(vec![peer("a", "A"), peer("b", "B")], false);
    let acts = session.on_message(SignalMessage::Kicked);
    assert!(matches!(session.state, CallState::Idle));
    assert!(session.peers.is_empty());
    assert_eq!(count(&acts, |a| matches!(a, Action::Emit(UiEvent::Kicked))), 1);
    assert_eq!(count(&acts, |a| matches!(a, Action::ClosePeer { .. })), 2);
    assert!(matches!(&acts[0], Action::ClosePeer { peer_id } if peer_id == "a"));
    assert!(matches!(&acts[1], Action::ClosePeer { peer_id } if peer_id == "b"));
    assert!(matches!(acts[2], Action::StopAudio));
    assert!(matches!(acts[4], Action::Emit(UiEvent::StateChanged)));
    assert!(session.on_message(SignalMessage::Kicked).is_empty());
}

#[test]
fn lock_by_non_host_is_refused_by_server_without_harm() {
    let mut session = joined(vec![peer("a", "A")], false);
    match session.lock_room(Some(s("x"))) {
        Ok(SignalMessage::LockRoom { password }) => assert_eq!(password.as_deref(), Some("x")),
        _ => panic!("expected a lock request"),
    }
    let acts = session.on_message(SignalMessage::RoomLockedError);
    assert_eq!(acts.len(), 1);
    assert!(matches!(&acts[0], Action::Emit(UiEvent::Error { message }) if message == ROOM_LOCKED_MESSAGE));
    assert!(matches!(session.state, CallState::InRoom { locked: false, .. }));
    assert_eq!(session.peers, vec![s("a")]);
}

#[test]
fn room_locked_error_while_joining_fails_the_join() {
    let mut session = Session::new(s("me"));
    session.join(s("r"), s("Me"), Some(s("wrong")), s("r")).unwrap();
    let acts = session.on_message(SignalMessage::RoomLockedError);
    assert!(matches!(&session.state, CallState::Error { message } if message == ROOM_LOCKED_MESSAGE));
    assert_eq!(acts.len(), 2);
    assert!(matches!(acts[1], Action::Emit(UiEvent::StateChanged)));
    assert!(session.join(s("r"), s("Me"), None, s("r")).is_ok());
}

#[test]
fn room_locked_updates_the_state() {
    let mut session = joined(vec![], true);
    let acts = session.on_message(SignalMessage::RoomLocked { locked: true });
    assert!(matches!(session.state, CallState::InRoom { locked: true, is_host: true, .. }));
    assert!(matches!(acts[0], Action::Emit(UiEvent::RoomLocked { locked: true })));
}

#[test]
fn force_muted_mutes_locally() {
    let mut session = joined(vec![], false);
    let acts = session.on_message(SignalMessage::ForceMuted);
    assert!(matches!(acts[0], Action::SetMuted(true)));
    assert!(matches!(acts[1], Action::Emit(UiEvent::ForceMuted)));
}

#[test]
fn signals_route_to_the_sending_peer() {
    let mut session = joined(vec![peer("a", "A")], false);
    let offer = SignalMessage::Signal { to: Some(s("me")), from: Some(s("a")), payload: SignalPayload::Offer { sdp: s("v=0") } };
    let acts = session.on_message(offer);
    assert!(matches!(&acts[0], Action::AnswerOffer { peer_id, sdp } if peer_id == "a" && sdp == "v=0"));
    let answer = SignalMessage::Signal { to: None, from: Some(s("a")), payload: SignalPayload::Answer { sdp: s("v=1") } };
    assert!(matches!(&session.on_message(answer)[0], Action::ApplyAnswer { peer_id, sdp } if peer_id == "a" && sdp == "v=1"));
    let ice = SignalMessage::Signal {
        to: None,
        from: Some(s("a")),
        payload: SignalPayload::IceCandidate { candidate: s("cand"), sdp_mid: Some(s("0")), sdp_mline_index: Some(0) },
    };
    match &session.on_message(ice)[0] {
        Action::AddCandidate { peer_id, candidate, sdp_mid, sdp_mline_index } => {
            assert_eq!(peer_id, "a");
            assert_eq!(candidate, "cand");
            assert_eq!(sdp_mid.as_deref(), Some("0"));
            assert_eq!(*sdp_mline_index, Some(0));
        },
        _ => panic!("expected a candidate"),
    }
    let stray = SignalMessage::Signal { to: None, from: Some(s("ghost")), payload: SignalPayload::Answer { sdp: s("x") } };
    assert!(session.on_message(stray).is_empty());
    let anonymous = SignalMessage::Signal { to: None, from: None, payload: SignalPayload::Answer { sdp: s("x") } };
    assert!(session.on_message(anonymous).is_empty());
}

#[test]
fn outbound_signal_only_for_known_peers() {
    let session = joined(vec![peer("a", "A")], false);
    match session.outbound_signal(s("a"), SignalPayload::Offer { sdp: s("o") }) {
        Some(SignalMessage::Signal { to, from, payload: SignalPayload::Offer { sdp } }) => {
            assert_eq!(to.as_deref(), Some("a"));
            assert_eq!(from.as_deref(), Some("me"));
            assert_eq!(sdp, "o");
        },
        _ => panic!("expected a signal"),
    }
    assert!(session.outbound_signal(s("b"), SignalPayload::Offer { sdp: s("o") }).is_none());
}

#[test]
fn leave_tells_the_server_and_tears_down() {
    let mut session = joined(vec![peer("a", "A")], true);
    let acts = session.leave();
    assert!(matches!(&acts[0], Action::Send(SignalMessage::Leave { room_id, peer_id }) if room_id == "room-1" && peer_id == "me"));
    assert!(matches!(&acts[1], Action::ClosePeer { peer_id } if peer_id == "a"));
    assert!(matches!(acts[2], Action::StopAudio));
    assert!(matches!(session.state, CallState::Idle));
    assert!(session.leave().is_empty());
}

#[test]
fn signaling_loss_fails_the_call() {
    let mut session = joined(vec![peer("a", "A")], false);
    let acts = session.on_signaling_lost();
    assert!(matches!(&session.state, CallState::Error { message } if message == SIGNALING_LOST_MESSAGE));
    assert!(session.peers.is_empty());
    assert!(matches!(&acts[0], Action::ClosePeer { peer_id } if peer_id == "a"));
    assert!(matches!(acts[1], Action::StopAudio));
    assert!(matches!(&acts[2], Action::Emit(UiEvent::Error { message }) if message == SIGNALING_LOST_MESSAGE));
    let mut idle = Session::new(s("me"));
    assert!(idle.on_signaling_lost().is_empty());
    assert!(matches!(idle.state, CallState::Idle));
}

#[test]
fn host_commands_need_a_room() {
    let idle = Session::new(s("me"));
    assert_eq!(idle.kick_peer(s("a")).unwrap_err(), SessionError::NotInRoom);
    assert_eq!(idle.force_mute_peer(s("a")).unwrap_err(), SessionError::NotInRoom);
    assert_eq!(idle.lock_room(None).unwrap_err(), SessionError::NotInRoom);
    let session = joined(vec![peer("a", "A")], true);
    assert!(matches!(session.kick_peer(s("a")), Ok(SignalMessage::Kick { peer_id }) if peer_id == "a"));
    assert!(matches!(session.force_mute_peer(s("a")), Ok(SignalMessage::ForceMute { peer_id }) if peer_id == "a"));
}

#[test]
fn pong_after_delay_measures_the_delay() {
    for delay in [0u64, 1, 75, 2000] {
        let mut rtt = RttTracker::new();
        match writer_step(&mut rtt, WriterEvent::RttTick, 10_000) {
            WriterAction::Send(WireFrame::Text(t)) => assert_eq!(t, "ping"),
            _ => panic!("expected the ping text"),
        }
        match reader_step(&mut rtt, InboundFrame::Text(s("pong")), 10_000 + delay) {
            ReaderAction::EmitRtt(ms) => assert_eq!(ms, delay),
            _ => panic!("expected a sample"),
        }
        assert!(rtt.ping_sent_at.is_none());
        assert!(matches!(reader_step(&mut rtt, InboundFrame::Text(s("pong")), 20_000), ReaderAction::Ignore));
    }
}

#[test]
fn pong_before_ping_time_reads_zero() {
    let mut rtt = RttTracker::new();
    rtt.on_ping_sent(500);
    assert_eq!(rtt.on_pong(400), Some(0));
    assert_eq!(rtt.on_pong(600), None);
}

#[test]
fn reader_parses_other_text_and_stops_on_close() {
    let mut rtt = RttTracker::new();
    let text = s("{\"type\":\"kicked\"}");
    assert!(matches!(reader_step(&mut rtt, InboundFrame::Text(text.clone()), 0), ReaderAction::Parse(t) if t == text));
    assert!(matches!(reader_step(&mut rtt, InboundFrame::Text(s("ping")), 0), ReaderAction::Parse(_)));
    assert!(matches!(reader_step(&mut rtt, InboundFrame::Pong, 0), ReaderAction::Ignore));
    assert!(matches!(reader_step(&mut rtt, InboundFrame::Other, 0), ReaderAction::Ignore));
    assert!(matches!(reader_step(&mut rtt, InboundFrame::Closed, 0), ReaderAction::Stop));
}

#[test]
fn writer_forwards_and_keeps_alive() {
    let mut rtt = RttTracker::new();
    assert!(matches!(writer_step(&mut rtt, WriterEvent::Outgoing(s("{}")), 0), WriterAction::Send(WireFrame::Text(t)) if t == "{}"));
    assert!(matches!(writer_step(&mut rtt, WriterEvent::KeepaliveTick, 0), WriterAction::Send(WireFrame::Ping)));
    assert!(matches!(writer_step(&mut rtt, WriterEvent::QueueClosed, 0), WriterAction::Stop));
    assert!(rtt.ping_sent_at.is_none());
}
