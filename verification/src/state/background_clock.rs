//! The compositor's wallpaper clock, kept in step with the session lock.
use vstd::prelude::*;

use crate::animation_clock::{target_for, ClockTimeline, SpeedTarget, TransitionShape};

verus! {

/// Brings the wallpaper clock in line with the session lock and the
/// configured background animation at `now`.
///
/// `speeds_unchanged` tells whether the configured speeds are those the
/// clock runs with. A transition towards the returned target begins at `now`
/// when the lock state or the settings changed; otherwise nothing happens.
pub fn sync_background_clock(
    clock: &mut ClockTimeline,
    now: u64,
    session_locked: bool,
    animation: TransitionShape,
    speeds_unchanged: bool,
) -> (target: Option<SpeedTarget>)
    ensures
        (*final(clock), target) == old(clock).configured(now, session_locked, animation, speeds_unchanged),
        final(clock).locked() == session_locked,
        final(clock).shape() == animation,
        old(clock).locked() == session_locked && old(clock).shape() == animation && speeds_unchanged
            ==> target is None && *final(clock) == *old(clock),
        !(old(clock).locked() == session_locked && old(clock).shape() == animation
            && speeds_unchanged) ==> {
            &&& target == Some(target_for(session_locked))
            &&& final(clock).epoch() == now
            &&& final(clock).lock_event() == if old(clock).locked() != session_locked {
                Some(now)
            } else {
                old(clock).lock_event()
            }
        },
{
    clock.configure(now, session_locked, animation, speeds_unchanged)
}

} // verus!
