use driftwm::animation_clock::{
    ClockTimeline, Easing, LockSignals, SampleWindow, SpeedTarget, TransitionShape,
};
use driftwm::state::background_clock::sync_background_clock;
use driftwm::time::{millis_to_nanos, saturating_nanos_since};

/// An arbitrary instant on the monotonic clock, in nanoseconds.
const NOW: u64 = 3_000_000_000;
const MILLI: u64 = 1_000_000;
const SECOND: u64 = 1_000_000_000;

#[test]
fn lock_signals_use_real_time_and_only_state_changes_retrigger() {
    let now = NOW;
    // Settings with both speeds at zero.
    let settings = TransitionShape::default();
    let mut clock = ClockTimeline::new(now, settings);
    assert_eq!(clock.lock_signals(now), LockSignals { locked: false, age_ns: None });
    clock.configure(now, true, settings, true);
    let later = now + 400 * MILLI;
    assert_eq!(clock.lock_signals(later), LockSignals { locked: true, age_ns: Some(400 * MILLI) });
    // Default settings: the speeds change to one.
    clock.configure(later, true, TransitionShape::default(), false);
    assert_eq!(clock.lock_signals(later), LockSignals { locked: true, age_ns: Some(400 * MILLI) });
    assert_eq!(clock.last_lock_event(), Some(now));
    for _ in 0..3 {
        assert_eq!(clock.lock_signals(later), LockSignals { locked: true, age_ns: Some(400 * MILLI) });
    }
    clock.configure(later, false, settings, false);
    assert_eq!(clock.lock_signals(later), LockSignals { locked: false, age_ns: Some(0) });
    clock.configure(later + 50 * MILLI, true, settings, true);
    assert_eq!(
        clock.lock_signals(later + 2 * SECOND),
        LockSignals { locked: true, age_ns: Some(1950 * MILLI) }
    );
}

#[test]
fn default_easing_and_shape() {
    assert_eq!(Easing::default(), Easing::EaseInOut);
    assert_eq!(
        TransitionShape::default(),
        TransitionShape { duration_ms: 1000, easing: Easing::EaseInOut }
    );
}

#[test]
fn window_advances_with_real_time_and_settles() {
    let clock = ClockTimeline::new(NOW, TransitionShape::default());
    assert_eq!(
        clock.sample_window(NOW),
        SampleWindow { elapsed_ns: 0, transition_ns: 0, duration_ns: SECOND }
    );
    assert_eq!(
        clock.sample_window(NOW + 250 * MILLI),
        SampleWindow { elapsed_ns: 250 * MILLI, transition_ns: 250 * MILLI, duration_ns: SECOND }
    );
    assert_eq!(
        clock.sample_window(NOW + 10 * SECOND),
        SampleWindow { elapsed_ns: 10 * SECOND, transition_ns: SECOND, duration_ns: SECOND }
    );
    // Instants before the epoch saturate to the start of the transition.
    assert_eq!(
        clock.sample_window(NOW - SECOND),
        SampleWindow { elapsed_ns: 0, transition_ns: 0, duration_ns: SECOND }
    );
    // Sampling is read-only.
    assert_eq!(clock.sample_window(NOW + 10 * SECOND), clock.sample_window(NOW + 10 * SECOND));
}

#[test]
fn reconfiguring_rebases_the_window_and_picks_the_target() {
    let mut clock = ClockTimeline::new(NOW, TransitionShape::default());
    let at = NOW + 10 * SECOND;
    assert_eq!(clock.configure(at, true, TransitionShape::default(), false), Some(SpeedTarget::LockSpeed));
    assert_eq!(clock.epoch_ns(), at);
    assert!(clock.is_locked());
    assert_eq!(clock.last_lock_event(), Some(at));
    assert_eq!(
        clock.sample_window(at),
        SampleWindow { elapsed_ns: 0, transition_ns: 0, duration_ns: SECOND }
    );
    assert_eq!(
        clock.sample_window(NOW + 3611 * SECOND),
        SampleWindow { elapsed_ns: 3601 * SECOND, transition_ns: SECOND, duration_ns: SECOND }
    );
    // The same state again changes nothing.
    assert_eq!(clock.configure(NOW + 20 * SECOND, true, TransitionShape::default(), true), None);
    assert_eq!(clock.epoch_ns(), at);
    // A new shape alone rebases without a lock event.
    let quick = TransitionShape { duration_ms: 0, easing: Easing::Linear };
    assert_eq!(clock.configure(NOW + 30 * SECOND, true, quick, true), Some(SpeedTarget::LockSpeed));
    assert_eq!(clock.epoch_ns(), NOW + 30 * SECOND);
    assert_eq!(clock.transition_shape(), quick);
    assert_eq!(clock.last_lock_event(), Some(at));
    assert_eq!(
        clock.sample_window(NOW + 31 * SECOND),
        SampleWindow { elapsed_ns: SECOND, transition_ns: 0, duration_ns: 0 }
    );
    // Unlocking heads for the unlocked speed.
    assert_eq!(clock.configure(NOW + 40 * SECOND, false, quick, true), Some(SpeedTarget::Speed));
    assert_eq!(clock.last_lock_event(), Some(NOW + 40 * SECOND));
}

#[test]
fn sync_background_clock_follows_the_session_lock() {
    let mut clock = ClockTimeline::new(NOW, TransitionShape::default());
    assert_eq!(sync_background_clock(&mut clock, NOW, false, TransitionShape::default(), true), None);
    assert_eq!(
        sync_background_clock(&mut clock, NOW + SECOND, true, TransitionShape::default(), true),
        Some(SpeedTarget::LockSpeed)
    );
    assert!(clock.is_locked());
    assert_eq!(clock.lock_signals(NOW + 3 * SECOND), LockSignals { locked: true, age_ns: Some(2 * SECOND) });
}

#[test]
fn time_helpers() {
    assert_eq!(millis_to_nanos(0), 0);
    assert_eq!(millis_to_nanos(300), 300 * MILLI);
    assert_eq!(millis_to_nanos(u32::MAX), u32::MAX as u64 * MILLI);
    assert_eq!(saturating_nanos_since(10, 4), 6);
    assert_eq!(saturating_nanos_since(4, 10), 0);
}

#[test]
fn lock_signals_do_not_depend_on_shape_or_speeds() {
    let slow = TransitionShape { duration_ms: 5000, easing: Easing::EaseIn };
    let mut a = ClockTimeline::new(NOW, TransitionShape::default());
    let mut b = ClockTimeline::new(NOW + SECOND, slow);
    a.configure(NOW + 2 * SECOND, true, TransitionShape::default(), true);
    b.configure(NOW + 2 * SECOND, true, TransitionShape::default(), false);
    a.configure(NOW + 3 * SECOND, true, slow, false);
    b.configure(NOW + 3 * SECOND, true, slow, true);
    a.configure(NOW + 4 * SECOND, false, slow, true);
    b.configure(NOW + 4 * SECOND, false, TransitionShape::default(), false);
    for t in [NOW, NOW + 4 * SECOND, NOW + 9 * SECOND] {
        assert_eq!(a.lock_signals(t), b.lock_signals(t));
    }
    assert_eq!(a.last_lock_event(), Some(NOW + 4 * SECOND));
    assert_eq!(a.last_lock_event(), b.last_lock_event());
}
