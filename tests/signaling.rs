use lqmy_desk::agent::AgentContext;
use lqmy_desk::peer::{JWTCandidateRequest, JWTOfferRequest};
use lqmy_desk::users::UserTable;
use lqmy_desk::error::{handle_control_input, handle_webrtc_signaling, ServerError};
use lqmy_desk::peer::{classify_input, end_of_candidates, send_ice_candidate, CandidateInit, InputCommand, PeerAction, PeerRegistry, PeerState};
use lqmy_desk::signaling::{classify_command, classify_frame, Command, FrameKind, Heartbeat, OutMessage, PendingOutbox};
use lqmy_desk::storage::{get_userinfo_path, load_storage_path};

#[test]
fn heartbeat_timeout() {
    let t = 1_000_000u64;
    let mut hb = Heartbeat::new(0);
    assert!(!hb.on_tick(2000).ping);
    hb.on_register_ack(t - 4000);
    hb.on_pong(t);
    let a = hb.on_tick(t + 4000);
    assert!(a.ping);
    assert!(!a.timed_out);
    assert!(!hb.on_tick(t + 6000).timed_out);
    assert!(hb.on_tick(t + 6001).timed_out);
    assert!(hb.on_tick(t + 8000).timed_out);
}

#[test]
fn frame_and_command_dispatch() {
    assert_eq!(classify_frame("register_ack"), FrameKind::RegisterAck);
    assert_eq!(classify_frame("register_reject"), FrameKind::RegisterReject);
    assert_eq!(classify_frame("message"), FrameKind::Message);
    assert_eq!(classify_frame("pong"), FrameKind::Pong);
    assert_eq!(classify_frame("ping"), FrameKind::Unknown);
    assert_eq!(classify_command("auth"), Command::Auth);
    assert_eq!(classify_command("offer"), Command::Offer);
    assert_eq!(classify_command("answear"), Command::Answear);
    assert_eq!(classify_command("candidate"), Command::Candidate);
    assert_eq!(classify_command("disconnect"), Command::Disconnect);
    assert_eq!(classify_command("control"), Command::Control);
    assert_eq!(classify_command("revokectrl"), Command::RevokeCtrl);
    assert_eq!(classify_command("closertc"), Command::CloseRtc);
    assert_eq!(classify_command("answer"), Command::Unknown);
}

#[test]
fn outbox_is_fifo() {
    let mut o = PendingOutbox::new();
    o.push(OutMessage::Register);
    o.push(OutMessage::Ping { from: "me".to_string() });
    o.push(OutMessage::Close);
    let drained = o.drain();
    assert_eq!(drained.len(), 3);
    assert!(matches!(drained[0], OutMessage::Register));
    assert!(matches!(drained[1], OutMessage::Ping { .. }));
    assert!(matches!(drained[2], OutMessage::Close));
    assert!(o.drain().is_empty());
}

#[test]
fn peer_state_machine() {
    let mut reg = PeerRegistry::new();
    reg.insert("a");
    reg.insert("b");
    assert_eq!(reg.len(), 2);
    let r = reg.on_state_change("a", PeerState::Connected);
    assert_eq!(r.action, PeerAction::AttachTrack);
    assert!(r.ensure_capture);
    let r = reg.on_state_change("b", PeerState::Connected);
    assert!(!r.ensure_capture);
    let r = reg.on_state_change("a", PeerState::Disconnected);
    assert_eq!(r.action, PeerAction::StartGraceTimer);
    let r = reg.on_grace_expired("a", PeerState::Connected);
    assert_eq!(r.action, PeerAction::Nothing);
    assert!(reg.contains("a"));
    let r = reg.on_grace_expired("a", PeerState::Disconnected);
    assert_eq!(r.action, PeerAction::Close);
    assert!(!r.stop_capture);
    assert!(!reg.contains("a"));
    let r = reg.on_state_change("b", PeerState::Failed);
    assert_eq!(r.action, PeerAction::Close);
    assert!(r.stop_capture);
    reg.insert("c");
    let r = reg.on_state_change("c", PeerState::Closed);
    assert_eq!(r.action, PeerAction::Release);
    assert!(r.stop_capture);
    assert_eq!(reg.on_state_change("c", PeerState::New).action, PeerAction::Nothing);
}

#[test]
fn candidates() {
    let c = CandidateInit { candidate: "candidate:1 1 udp 1 1.2.3.4 5 typ host".to_string(), sdp_mid: Some("0".to_string()), sdp_mline_index: Some(0) };
    let r = send_ice_candidate(c);
    assert_eq!(r.candidates.sdp_mid.as_deref(), Some("0"));
    let end = end_of_candidates();
    assert_eq!(end.candidate, "");
}

#[test]
fn input_commands() {
    assert_eq!(classify_input("mouse_move"), InputCommand::MouseMove);
    assert_eq!(classify_input("keyboard_input"), InputCommand::KeyboardInput);
    assert_eq!(classify_input("scroll"), InputCommand::Unknown);
}

#[test]
fn legacy_handlers() {
    assert_eq!(handle_control_input("mouse_move").unwrap(), "Mouse moved");
    assert_eq!(handle_control_input("mouse_click").unwrap(), "Mouse clicked");
    match handle_control_input("jump") {
        Err(e) => assert_eq!(e.message(), "Other error: Unknown command"),
        Ok(_) => panic!("unknown command accepted"),
    }
    assert_eq!(handle_webrtc_signaling("v=0").unwrap(), "SDP received");
    match handle_webrtc_signaling("") {
        Err(e) => assert_eq!(e.message(), "WebRTC error: Empty SDP received"),
        Ok(_) => panic!("empty sdp accepted"),
    }
    assert_eq!(ServerError::IOError("disk".to_string()).message(), "I/O error: disk");
    assert_eq!(ServerError::WebSocketError("closed".to_string()).message(), "WebSocket error: closed");
}

#[test]
fn storage_paths() {
    assert_eq!(load_storage_path(), "E:/WHU/SoftwareEngineering/GroupWork/LQMY-Desk");
    assert_eq!(get_userinfo_path("/data"), "/data/user_data.json");
}

#[test]
fn offers_and_candidates_need_a_valid_token() {
    let a = AgentContext::new("ws://x".to_string(), UserTable::new());
    let token = a.keys.generate_jwt("SN-1");
    let offer = JWTOfferRequest { client_uuid: "c1".to_string(), sdp: "v=0".to_string(), mode: "balanced".to_string(), jwt: token.clone() };
    assert!(a.accept_offer(&offer));
    let forged = JWTOfferRequest { jwt: "x.y.z".to_string(), ..offer };
    assert!(!a.accept_offer(&forged));
    let mut peers = PeerRegistry::new();
    let cand = JWTCandidateRequest { client_uuid: "c1".to_string(), candidate: String::new(), sdp_mid: None, sdp_mline_index: None, jwt: token };
    assert!(!a.accept_candidate(&cand, &peers));
    peers.insert("c1");
    assert!(a.accept_candidate(&cand, &peers));
}
