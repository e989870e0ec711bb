//! Verified core of the driftwm wallpaper clock and auto-hiding panel.
//!
//! Instants are nanoseconds on a monotonic clock, counted from an origin that
//! the embedding program chooses; durations are nanoseconds too.
use vstd::prelude::*;

pub mod animation_clock;
pub mod state;
pub mod time;
