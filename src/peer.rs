use vstd::prelude::*;

use crate::text::{owned, str_eq, string_views};

verus! {

/// Seconds a disconnected peer connection is given to recover before it is closed.
pub const DISCONNECT_GRACE_SECS: u64 = 10;

/// An ICE candidate as exchanged with peers; an empty candidate marks the end of candidates.
#[derive(Debug)]
pub struct CandidateInit {
    pub candidate: String,
    pub sdp_mid: Option<String>,
    pub sdp_mline_index: Option<u16>,
}

/// A peer's SDP offer.
#[derive(Debug)]
pub struct JWTOfferRequest {
    pub client_uuid: String,
    pub sdp: String,
    pub mode: String,
    pub jwt: String,
}

/// The agent's SDP answer.
#[derive(Debug)]
pub struct AnswerResponse {
    pub client_uuid: String,
    pub sdp: String,
}

/// A remote ICE candidate from a peer.
#[derive(Debug)]
pub struct JWTCandidateRequest {
    pub client_uuid: String,
    pub candidate: String,
    pub sdp_mid: Option<String>,
    pub sdp_mline_index: Option<u16>,
    pub jwt: String,
}

/// A locally gathered candidate, as sent to the peer.
#[derive(Debug)]
pub struct CandidateResponse {
    pub candidates: CandidateInit,
}

/// Wraps a locally gathered candidate for sending.
pub fn send_ice_candidate(candi: CandidateInit) -> (r: CandidateResponse)
    ensures
        r.candidates == candi,
{
    CandidateResponse { candidates: candi }
}

/// The marker sent after the last local candidate.
pub fn end_of_candidates() -> (r: CandidateInit)
    ensures
        r.candidate@.len() == 0,
        r.sdp_mid is None,
        r.sdp_mline_index is None,
{
    CandidateInit { candidate: String::new(), sdp_mid: None, sdp_mline_index: None }
}

/// States of a peer connection.
#[derive(Debug, Clone, Copy, PartialEq, Eq, Structural)]
pub enum PeerState {
    New,
    Connecting,
    Connected,
    Disconnected,
    Failed,
    Closed,
}

/// What to do with the peer connection itself after a state change.
#[derive(Debug, Clone, Copy, PartialEq, Eq, Structural)]
pub enum PeerAction {
    /// Nothing.
    Nothing,
    /// Attach the peer's video track to its quality stream.
    AttachTrack,
    /// Start the grace timer; on expiry ask again.
    StartGraceTimer,
    /// Close the connection now; it has left the registry.
    Close,
    /// The connection is gone: release its track subscriptions; it has left the registry.
    Release,
}

/// The full reaction to a state change.
pub struct PeerReaction {
    pub action: PeerAction,
    /// Capture and encoding must be running.
    pub ensure_capture: bool,
    /// The last session is gone: stop capture.
    pub stop_capture: bool,
}

/// Input commands carried on the data channel.
#[derive(Debug, Clone, Copy, PartialEq, Eq, Structural)]
pub enum InputCommand {
    MouseMove,
    KeyboardInput,
    Unknown,
}

/// The input command named by a `cmd` field.
pub open spec fn input_command_of(c: Seq<char>) -> InputCommand {
    if c == "mouse_move"@ {
        InputCommand::MouseMove
    } else if c == "keyboard_input"@ {
        InputCommand::KeyboardInput
    } else {
        InputCommand::Unknown
    }
}

/// Classifies a data-channel command by its `cmd` field.
pub fn classify_input(cmd: &str) -> (r: InputCommand)
    ensures
        r == input_command_of(cmd@),
{
    if str_eq(cmd, "mouse_move") {
        InputCommand::MouseMove
    } else if str_eq(cmd, "keyboard_input") {
        InputCommand::KeyboardInput
    } else {
        InputCommand::Unknown
    }
}

/// The peer connections by uuid, and whether any was ever connected.
pub struct PeerRegistry {
    uuids: Vec<String>,
    ever_connected: bool,
}

impl View for PeerRegistry {
    type V = Set<Seq<char>>;

    closed spec fn view(&self) -> Set<Seq<char>> {
        string_views(self.uuids@).to_set()
    }
}

impl PeerRegistry {
    /// Whether any connection ever reached the connected state.
    pub closed spec fn was_connected(&self) -> bool {
        self.ever_connected
    }

    /// No connection.
    pub fn new() -> (r: Self)
        ensures
            r@ == Set::<Seq<char>>::empty(),
            !r.was_connected(),
    {
        let r = PeerRegistry { uuids: Vec::new(), ever_connected: false };
        proof {
            assert(string_views(r.uuids@).to_set() =~= Set::<Seq<char>>::empty());
        }
        r
    }

    /// Number of registered connections.
    pub fn len(&self) -> (r: usize)
        ensures
            r == 0 <==> self@ == Set::<Seq<char>>::empty(),
    {
        proof {
            if self.uuids.len() > 0 {
                assert(self@.contains(string_views(self.uuids@)[0]));
            } else {
                assert(self@ =~= Set::<Seq<char>>::empty());
            }
        }
        self.uuids.len()
    }

    /// Whether a connection for `uuid` is registered.
    pub fn contains(&self, uuid: &str) -> (r: bool)
        ensures
            r == self@.contains(uuid@),
    {
        let mut i: usize = 0;
        while i < self.uuids.len()
            invariant
                i <= self.uuids.len(),
                string_views(self.uuids@).len() == self.uuids.len(),
                forall|j: int| 0 <= j < i ==> string_views(self.uuids@)[j] != uuid@,
            decreases self.uuids.len() - i,
        {
            if str_eq(self.uuids[i].as_str(), uuid) {
                proof {
                    assert(string_views(self.uuids@)[i as int] == uuid@);
                }
                return true;
            }
            i = i + 1;
        }
        false
    }

    /// Registers the connection of `uuid` (after its answer was produced).
    pub fn insert(&mut self, uuid: &str)
        ensures
            final(self)@ == old(self)@.insert(uuid@),
            final(self).was_connected() == old(self).was_connected(),
    {
        if self.contains(uuid) {
            proof {
                assert(old(self)@.insert(uuid@) =~= old(self)@);
            }
            return;
        }
        let ghost before = string_views(self.uuids@);
        self.uuids.push(owned(uuid));
        proof {
            assert(string_views(self.uuids@) =~= before.push(uuid@));
            assert forall|k: Seq<char>| before.push(uuid@).contains(k) <==> (before.contains(k) || k == uuid@) by {
                if before.push(uuid@).contains(k) {
                    let t = choose|t: int| 0 <= t < before.len() + 1 && before.push(uuid@)[t] == k;
                    if t < before.len() {
                        assert(before[t] == k);
                    }
                }
                if before.contains(k) {
                    let t = choose|t: int| 0 <= t < before.len() && before[t] == k;
                    assert(before.push(uuid@)[t] == k);
                }
                if k == uuid@ {
                    assert(before.push(uuid@)[before.len() as int] == k);
                }
            }
            assert(final(self)@ =~= old(self)@.insert(uuid@));
        }
    }

    /// Unregisters the connection of `uuid`.
    pub fn remove(&mut self, uuid: &str)
        ensures
            final(self)@ == old(self)@.remove(uuid@),
            final(self).was_connected() == old(self).was_connected(),
    {
        let mut kept: Vec<String> = Vec::new();
        let ghost all = string_views(self.uuids@);
        let mut i: usize = 0;
        while i < self.uuids.len()
            invariant
                i <= self.uuids.len(),
                all == string_views(self.uuids@),
                all.len() == self.uuids.len(),
                forall|k: Seq<char>| #[trigger] string_views(kept@).contains(k) <==> (k != uuid@ && exists|j: int| 0 <= j < i && all[j] == k),
            decreases self.uuids.len() - i,
        {
            if !str_eq(self.uuids[i].as_str(), uuid) {
                let ghost before = string_views(kept@);
                let c = self.uuids[i].clone();
                kept.push(c);
                proof {
                    assert(string_views(kept@) =~= before.push(all[i as int]));
                    assert forall|k: Seq<char>| #[trigger] string_views(kept@).contains(k) <==> (k != uuid@ && exists|j: int| 0 <= j < i + 1 && all[j] == k) by {
                        if string_views(kept@).contains(k) {
                            let t = choose|t: int| 0 <= t < before.len() + 1 && before.push(all[i as int])[t] == k;
                            if t < before.len() {
                                assert(before[t] == k);
                                assert(before.contains(k));
                            }
                        }
                        if k != uuid@ && exists|j: int| 0 <= j < i + 1 && all[j] == k {
                            let j = choose|j: int| 0 <= j < i + 1 && all[j] == k;
                            if j < i {
                                assert(before.contains(k));
                                let t = choose|t: int| 0 <= t < before.len() && before[t] == k;
                                assert(string_views(kept@)[t] == k);
                            } else {
                                assert(string_views(kept@)[before.len() as int] == k);
                            }
                        }
                    }
                }
            } else {
                proof {
                    assert forall|k: Seq<char>| #[trigger] string_views(kept@).contains(k) <==> (k != uuid@ && exists|j: int| 0 <= j < i + 1 && all[j] == k) by {
                        if k != uuid@ && exists|j: int| 0 <= j < i + 1 && all[j] == k {
                            let j = choose|j: int| 0 <= j < i + 1 && all[j] == k;
                            assert(j < i);
                        }
                    }
                }
            }
            i = i + 1;
        }
        self.uuids = kept;
        proof {
            assert forall|k: Seq<char>| final(self)@.contains(k) <==> old(self)@.remove(uuid@).contains(k) by {
                assert(string_views(self.uuids@).to_set().contains(k) == string_views(self.uuids@).contains(k));
                assert(all.to_set().contains(k) == all.contains(k));
            }
            assert(final(self)@ =~= old(self)@.remove(uuid@));
        }
    }

    /// Reacts to the connection of `uuid` entering `state`. Connected: attach the track, and
    /// on the first connection ever make sure capture runs. Disconnected: start the grace
    /// timer. Failed: close now. Closed: release. Failed and Closed leave the registry, and
    /// stop capture when no connection remains.
    pub fn on_state_change(&mut self, uuid: &str, state: PeerState) -> (r: PeerReaction)
        ensures
            state == PeerState::Connected ==> r.action == PeerAction::AttachTrack && r.ensure_capture
                == !old(self).was_connected() && final(self).was_connected() && final(self)@
                == old(self)@ && !r.stop_capture,
            state == PeerState::Disconnected ==> r.action == PeerAction::StartGraceTimer
                && final(self)@ == old(self)@ && !r.ensure_capture && !r.stop_capture,
            state == PeerState::Failed ==> r.action == PeerAction::Close,
            state == PeerState::Closed ==> r.action == PeerAction::Release,
            state == PeerState::Failed || state == PeerState::Closed ==> final(self)@ == old(self)@.remove(uuid@)
                && !r.ensure_capture && r.stop_capture == (final(self)@ == Set::<Seq<char>>::empty()),
            state == PeerState::New || state == PeerState::Connecting ==> r.action == PeerAction::Nothing
                && final(self)@ == old(self)@ && !r.ensure_capture && !r.stop_capture,
            state != PeerState::Connected ==> final(self).was_connected() == old(self).was_connected(),
    {
        match state {
            PeerState::Connected => {
                let first = !self.ever_connected;
                self.ever_connected = true;
                PeerReaction { action: PeerAction::AttachTrack, ensure_capture: first, stop_capture: false }
            },
            PeerState::Disconnected => {
                PeerReaction { action: PeerAction::StartGraceTimer, ensure_capture: false, stop_capture: false }
            },
            PeerState::Failed | PeerState::Closed => {
                self.remove(uuid);
                let empty = self.len() == 0;
                let action = if state == PeerState::Failed {
                    PeerAction::Close
                } else {
                    PeerAction::Release
                };
                PeerReaction { action, ensure_capture: false, stop_capture: empty }
            },
            _ => PeerReaction { action: PeerAction::Nothing, ensure_capture: false, stop_capture: false },
        }
    }

    /// The grace timer of `uuid` expired while the connection is in `state`: when it is still
    /// disconnected it is closed and leaves the registry, and capture stops when no connection
    /// remains; otherwise nothing happens.
    pub fn on_grace_expired(&mut self, uuid: &str, state: PeerState) -> (r: PeerReaction)
        ensures
            state == PeerState::Disconnected ==> r.action == PeerAction::Close && final(self)@
                == old(self)@.remove(uuid@) && r.stop_capture == (final(self)@ == Set::<Seq<char>>::empty()),
            state != PeerState::Disconnected ==> r.action == PeerAction::Nothing && final(self)@
                == old(self)@ && !r.stop_capture,
            !r.ensure_capture,
            final(self).was_connected() == old(self).was_connected(),
    {
        if state == PeerState::Disconnected {
            self.remove(uuid);
            let empty = self.len() == 0;
            PeerReaction { action: PeerAction::Close, ensure_capture: false, stop_capture: empty }
        } else {
            PeerReaction { action: PeerAction::Nothing, ensure_capture: false, stop_capture: false }
        }
    }
}

} // verus!
