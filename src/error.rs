use vstd::prelude::*;

use crate::text::{owned, str_eq};

verus! {

/// Failures of the agent's request handlers.
#[derive(Debug)]
pub enum ServerError {
    WebRTCError(String),
    WebSocketError(String),
    IOError(String),
    Other(String),
}

impl ServerError {
    /// The message of the error: its kind, then its detail.
    pub fn message(&self) -> (r: String)
        ensures
            self matches ServerError::WebRTCError(d) ==> r@ == "WebRTC error: "@ + d@,
            self matches ServerError::WebSocketError(d) ==> r@ == "WebSocket error: "@ + d@,
            self matches ServerError::IOError(d) ==> r@ == "I/O error: "@ + d@,
            self matches ServerError::Other(d) ==> r@ == "Other error: "@ + d@,
    {
        match self {
            ServerError::WebRTCError(d) => owned("WebRTC error: ").concat(d.as_str()),
            ServerError::WebSocketError(d) => owned("WebSocket error: ").concat(d.as_str()),
            ServerError::IOError(d) => owned("I/O error: ").concat(d.as_str()),
            ServerError::Other(d) => owned("Other error: ").concat(d.as_str()),
        }
    }
}

/// Answers a remote control command: mouse moves and clicks are acknowledged, anything else
/// is an unknown command.
pub fn handle_control_input(command: &str) -> (r: Result<String, ServerError>)
    ensures
        command@ == "mouse_move"@ ==> (r matches Ok(b) && b@ == "Mouse moved"@),
        command@ != "mouse_move"@ && command@ == "mouse_click"@ ==> (r matches Ok(b) && b@
            == "Mouse clicked"@),
        command@ != "mouse_move"@ && command@ != "mouse_click"@ ==> (r matches Err(
            ServerError::Other(d),
        ) && d@ == "Unknown command"@),
{
    if str_eq(command, "mouse_move") {
        Ok(owned("Mouse moved"))
    } else if str_eq(command, "mouse_click") {
        Ok(owned("Mouse clicked"))
    } else {
        Err(ServerError::Other(owned("Unknown command")))
    }
}

/// Acknowledges an SDP; an empty one is an error.
pub fn handle_webrtc_signaling(sdp: &str) -> (r: Result<String, ServerError>)
    ensures
        sdp@.len() == 0 ==> (r matches Err(ServerError::WebRTCError(d)) && d@ == "Empty SDP received"@),
        sdp@.len() > 0 ==> (r matches Ok(b) && b@ == "SDP received"@),
{
    if sdp.unicode_len() == 0 {
        Err(ServerError::WebRTCError(owned("Empty SDP received")))
    } else {
        Ok(owned("SDP received"))
    }
}

} // verus!
