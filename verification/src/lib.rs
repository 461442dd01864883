//! Client-side primitives for the Slim Protocol spoken by the Lyrion Media
//! Server, together with the player decisions of the Vibe music player.
//!
//! The wire formats (client frames, server frames, status reports, capability
//! announcements) are stated as specification functions over byte and
//! character sequences, and every encoder and decoder is proved against them.

use vstd::prelude::*;

pub mod audio;
pub mod buffer;
pub mod capability;
pub mod cli;
pub mod discovery;
pub mod frames;
pub mod messages;
pub mod notify;
pub mod output;
pub mod player;
pub mod proto;
pub mod startup;
pub mod status;
pub mod text;
pub mod wire;

verus! {

/// Default port used by Lyrion Media Server for Slim Protocol traffic.
pub const SLIM_PORT: u16 = 3483;

} // verus!
