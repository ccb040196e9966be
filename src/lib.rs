//! A desktop-sharing agent's core: the session roster and device table, admission of peers
//! with tokens bound to one run, control arbitration, the signaling and peer-connection
//! decisions, and the video pipeline's conversion, scaling, framing, pacing and stream
//! registry.

use vstd::prelude::*;

pub mod text;
pub mod roster;
pub mod users;
pub mod jwt;
pub mod guard;
pub mod agent;
pub mod signaling;
pub mod peer;
pub mod storage;
pub mod error;
pub mod yuv;
pub mod resize;
pub mod nal;
pub mod quality;
pub mod streams;

verus! {

/// Largest number of simultaneously admitted peers by default.
pub const DEFAULT_CAPACITY: usize = 5;

} // verus!
