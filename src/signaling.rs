use vstd::prelude::*;

use crate::agent::AuthResponse;
use crate::roster::CrtlAns;
use crate::text::str_eq;

verus! {

/// Milliseconds between two heartbeat ticks.
pub const HEARTBEAT_INTERVAL_MS: u64 = 2000;

/// Milliseconds without `pong` after which the server is considered gone.
pub const PONG_TIMEOUT_MS: u64 = 6000;

/// Kinds of inbound frames, by their `type` field.
#[derive(Debug, Clone, Copy, PartialEq, Eq, Structural)]
pub enum FrameKind {
    RegisterAck,
    RegisterReject,
    Message,
    Pong,
    Unknown,
}

/// Operations carried in a `message` payload, by its `cmd` field.
#[derive(Debug, Clone, Copy, PartialEq, Eq, Structural)]
pub enum Command {
    Auth,
    Offer,
    Answear,
    Candidate,
    Disconnect,
    Control,
    RevokeCtrl,
    CloseRtc,
    Unknown,
}

/// The frame kind named by a `type` field.
pub open spec fn frame_kind_of(t: Seq<char>) -> FrameKind {
    if t == "register_ack"@ {
        FrameKind::RegisterAck
    } else if t == "register_reject"@ {
        FrameKind::RegisterReject
    } else if t == "message"@ {
        FrameKind::Message
    } else if t == "pong"@ {
        FrameKind::Pong
    } else {
        FrameKind::Unknown
    }
}

/// The operation named by a `cmd` field.
pub open spec fn command_of(c: Seq<char>) -> Command {
    if c == "auth"@ {
        Command::Auth
    } else if c == "offer"@ {
        Command::Offer
    } else if c == "answear"@ {
        Command::Answear
    } else if c == "candidate"@ {
        Command::Candidate
    } else if c == "disconnect"@ {
        Command::Disconnect
    } else if c == "control"@ {
        Command::Control
    } else if c == "revokectrl"@ {
        Command::RevokeCtrl
    } else if c == "closertc"@ {
        Command::CloseRtc
    } else {
        Command::Unknown
    }
}

/// Classifies an inbound frame by its `type` field.
pub fn classify_frame(msg_type: &str) -> (r: FrameKind)
    ensures
        r == frame_kind_of(msg_type@),
{
    if str_eq(msg_type, "register_ack") {
        FrameKind::RegisterAck
    } else if str_eq(msg_type, "register_reject") {
        FrameKind::RegisterReject
    } else if str_eq(msg_type, "message") {
        FrameKind::Message
    } else if str_eq(msg_type, "pong") {
        FrameKind::Pong
    } else {
        FrameKind::Unknown
    }
}

/// Classifies a payload by its `cmd` field.
pub fn classify_command(cmd: &str) -> (r: Command)
    ensures
        r == command_of(cmd@),
{
    if str_eq(cmd, "auth") {
        Command::Auth
    } else if str_eq(cmd, "offer") {
        Command::Offer
    } else if str_eq(cmd, "answear") {
        Command::Answear
    } else if str_eq(cmd, "candidate") {
        Command::Candidate
    } else if str_eq(cmd, "disconnect") {
        Command::Disconnect
    } else if str_eq(cmd, "control") {
        Command::Control
    } else if str_eq(cmd, "revokectrl") {
        Command::RevokeCtrl
    } else if str_eq(cmd, "closertc") {
        Command::CloseRtc
    } else {
        Command::Unknown
    }
}

/// What a heartbeat tick asks of the loop.
pub struct TickAction {
    /// Send a `ping`.
    pub ping: bool,
    /// The server has not answered for too long: notify the user and end the loop.
    pub timed_out: bool,
}

/// Registration and heartbeat state of the signaling loop; times are in milliseconds.
pub struct Heartbeat {
    pub registered: bool,
    pub last_heartbeat_ms: u64,
}

impl Heartbeat {
    /// Not registered; the heartbeat clock starts at `now_ms`.
    pub fn new(now_ms: u64) -> (r: Self)
        ensures
            !r.registered,
            r.last_heartbeat_ms == now_ms,
    {
        Heartbeat { registered: false, last_heartbeat_ms: now_ms }
    }

    /// `register_ack` arrived at `now_ms`: registered, and the heartbeat clock restarts.
    pub fn on_register_ack(&mut self, now_ms: u64)
        ensures
            final(self).registered,
            final(self).last_heartbeat_ms == now_ms,
    {
        self.registered = true;
        self.last_heartbeat_ms = now_ms;
    }

    /// `pong` arrived at `now_ms`: the heartbeat clock restarts.
    pub fn on_pong(&mut self, now_ms: u64)
        ensures
            final(self).registered == old(self).registered,
            final(self).last_heartbeat_ms == now_ms,
    {
        self.last_heartbeat_ms = now_ms;
    }

    /// A tick at `now_ms`: ping when registered; time out when more than the pong timeout has
    /// passed since the last heartbeat.
    pub fn on_tick(&self, now_ms: u64) -> (r: TickAction)
        ensures
            r.ping == self.registered,
            r.timed_out == (now_ms > self.last_heartbeat_ms && now_ms - self.last_heartbeat_ms
                > PONG_TIMEOUT_MS),
    {
        let timed_out = now_ms > self.last_heartbeat_ms && now_ms - self.last_heartbeat_ms > PONG_TIMEOUT_MS;
        TickAction { ping: self.registered, timed_out }
    }
}

/// Payload of a peer-to-peer `message` sent by the agent.
pub enum Payload {
    /// Answer to `auth`.
    Auth(AuthResponse),
    /// Answer to `control`, or the notice that control was taken back.
    Control(CrtlAns),
    /// The session was closed by the agent.
    Disconnect,
    /// SDP answer to an `offer` (`cmd: "answear"`).
    Answer(crate::peer::AnswerResponse),
    /// A locally gathered ICE candidate (`cmd: "candidate"`).
    Candidate(crate::peer::CandidateResponse),
}

/// A frame the agent sends to the rendezvous server.
pub enum OutMessage {
    /// First frame after connecting.
    Register,
    /// Heartbeat.
    Ping { from: String },
    /// Graceful shutdown notice.
    Close,
    /// Envelope to one peer.
    Message { from: String, target_uuid: String, payload: Payload },
}

/// Outbound frames waiting for the signaling loop, in the order they were queued.
pub struct PendingOutbox {
    pub items: Vec<OutMessage>,
}

impl PendingOutbox {
    /// Nothing queued.
    pub fn new() -> (r: Self)
        ensures
            r.items@.len() == 0,
    {
        PendingOutbox { items: Vec::new() }
    }

    /// Queues `m` behind the frames already waiting.
    pub fn push(&mut self, m: OutMessage)
        ensures
            final(self).items@ == old(self).items@.push(m),
    {
        self.items.push(m);
    }

    /// Takes every waiting frame, oldest first, leaving the outbox empty.
    pub fn drain(&mut self) -> (r: Vec<OutMessage>)
        ensures
            r@ == old(self).items@,
            final(self).items@.len() == 0,
    {
        let mut out: Vec<OutMessage> = Vec::new();
        core::mem::swap(&mut out, &mut self.items);
        out
    }
}

} // verus!
