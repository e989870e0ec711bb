//! Frame-independent wallpaper time: the schedule of interruptible speed
//! transitions and of lock events.
//!
//! The clock rebases whenever the lock state or the animation settings
//! change: from that instant on it eases from the speed it had to the new
//! target speed over the transition. This module keeps the schedule: when the
//! current transition began, how far into it an instant lies, which of the
//! two configured speeds is the target, and when the lock state last flipped.
use vstd::prelude::*;

use crate::time::{millis_to_nanos, nanos_since, saturating_nanos_since};

verus! {

/// The curve along which a speed transition eases.
#[derive(Clone, Copy, Debug, PartialEq, Eq, Structural)]
pub enum Easing {
    Linear,
    EaseIn,
    EaseOut,
    EaseInOut,
}

impl Default for Easing {
    fn default() -> (e: Self)
        ensures
            e == Easing::EaseInOut,
    {
        Easing::EaseInOut
    }
}

/// The shape of a speed transition: how long it lasts and how it eases.
#[derive(Clone, Copy, Debug, PartialEq, Eq, Structural)]
pub struct TransitionShape {
    pub duration_ms: u32,
    pub easing: Easing,
}

impl Default for TransitionShape {
    /// One second, easing in and out.
    fn default() -> (s: Self)
        ensures
            s == (TransitionShape { duration_ms: 1000, easing: Easing::EaseInOut }),
    {
        TransitionShape { duration_ms: 1000, easing: Easing::default() }
    }
}

/// Which configured speed a transition heads for.
#[derive(Clone, Copy, Debug, PartialEq, Eq, Structural)]
pub enum SpeedTarget {
    /// The speed of the unlocked session.
    Speed,
    /// The speed while the session is locked.
    LockSpeed,
}

/// The speed that the clock heads for in lock state `locked`.
pub open spec fn target_for(locked: bool) -> SpeedTarget {
    if locked {
        SpeedTarget::LockSpeed
    } else {
        SpeedTarget::Speed
    }
}

/// Where an instant lies relative to the current transition, in nanoseconds.
#[derive(Clone, Copy, Debug, PartialEq, Eq, Structural)]
pub struct SampleWindow {
    /// Time since the transition began (zero before it).
    pub elapsed_ns: u64,
    /// The part of `elapsed_ns` that falls within the transition.
    pub transition_ns: u64,
    /// Length of the transition; zero means the new speed applies at once.
    pub duration_ns: u64,
}

impl SampleWindow {
    /// The transition is over: the clock runs at the target speed.
    pub open spec fn settled(self) -> bool {
        self.transition_ns == self.duration_ns
    }
}

/// The lock state and the real time since it last flipped.
#[derive(Clone, Copy, Debug, PartialEq, Eq, Structural)]
pub struct LockSignals {
    pub locked: bool,
    /// Nanoseconds since the last lock event; `None` before the first.
    pub age_ns: Option<u64>,
}

/// The schedule of a wallpaper clock.
#[derive(Clone, Copy, Debug)]
pub struct ClockTimeline {
    epoch: u64,
    shape: TransitionShape,
    locked: bool,
    last_lock_event: Option<u64>,
}

impl ClockTimeline {
    /// The instant at which the current transition began.
    pub closed spec fn epoch(self) -> u64 {
        self.epoch
    }

    /// The shape of the current transition.
    pub closed spec fn shape(self) -> TransitionShape {
        self.shape
    }

    /// The lock state the clock was last configured with.
    pub closed spec fn locked(self) -> bool {
        self.locked
    }

    /// The instant at which the lock state last flipped.
    pub closed spec fn lock_event(self) -> Option<u64> {
        self.last_lock_event
    }

    /// The window of the current transition at `now`.
    pub open spec fn window(self, now: u64) -> SampleWindow {
        let elapsed = nanos_since(now, self.epoch());
        let duration = (self.shape().duration_ms * 1_000_000) as u64;
        SampleWindow {
            elapsed_ns: elapsed,
            transition_ns: if elapsed < duration { elapsed } else { duration },
            duration_ns: duration,
        }
    }

    /// The clock after configuring it at `now`, and the target of the
    /// transition that begins then, if one does.
    pub closed spec fn configured(self, now: u64, locked: bool, shape: TransitionShape, speeds_unchanged: bool) -> (ClockTimeline, Option<SpeedTarget>) {
        if self.locked == locked && self.shape == shape && speeds_unchanged {
            (self, None)
        } else {
            (
                ClockTimeline {
                    epoch: now,
                    shape,
                    locked,
                    last_lock_event: if self.locked != locked {
                        Some(now)
                    } else {
                        self.last_lock_event
                    },
                },
                Some(target_for(locked)),
            )
        }
    }

    /// The lock signals at `now`.
    pub open spec fn signals(self, now: u64) -> LockSignals {
        LockSignals {
            locked: self.locked(),
            age_ns: match self.lock_event() {
                Some(event) => Some(nanos_since(now, event)),
                None => None,
            },
        }
    }

    /// A clock that starts at `now`, unlocked, heading for the unlocked speed.
    pub fn new(now: u64, shape: TransitionShape) -> (c: Self)
        ensures
            c.epoch() == now,
            c.shape() == shape,
            !c.locked(),
            c.lock_event() is None,
    {
        ClockTimeline { epoch: now, shape, locked: false, last_lock_event: None }
    }

    /// Where `now` lies in the current transition. Reading it changes nothing.
    pub fn sample_window(&self, now: u64) -> (w: SampleWindow)
        ensures
            w == self.window(now),
            w.elapsed_ns == if now >= self.epoch() {
                now - self.epoch()
            } else {
                0
            },
            w.duration_ns == self.shape().duration_ms * 1_000_000,
            w.transition_ns <= w.elapsed_ns && w.transition_ns <= w.duration_ns,
            w.transition_ns == w.elapsed_ns || w.transition_ns == w.duration_ns,
    {
        let elapsed = saturating_nanos_since(now, self.epoch);
        let duration = millis_to_nanos(self.shape.duration_ms);
        let transition = if elapsed < duration {
            elapsed
        } else {
            duration
        };
        SampleWindow { elapsed_ns: elapsed, transition_ns: transition, duration_ns: duration }
    }

    /// Applies the lock state and settings in force at `now`.
    ///
    /// `speeds_unchanged` tells whether the two configured speeds are those
    /// the clock runs with. When nothing changed the clock stays as it is and
    /// `None` comes back. Otherwise a new transition begins at `now`, towards
    /// the returned target, with the new shape; a flip of the lock state is
    /// recorded as a lock event at `now`.
    pub fn configure(&mut self, now: u64, locked: bool, shape: TransitionShape, speeds_unchanged: bool) -> (target: Option<SpeedTarget>)
        ensures
            (*final(self), target) == old(self).configured(now, locked, shape, speeds_unchanged),
            old(self).locked() == locked && old(self).shape() == shape && speeds_unchanged ==> {
                &&& target is None
                &&& *final(self) == *old(self)
            },
            !(old(self).locked() == locked && old(self).shape() == shape && speeds_unchanged) ==> {
                &&& target == Some(target_for(locked))
                &&& final(self).epoch() == now
                &&& final(self).shape() == shape
                &&& final(self).locked() == locked
                &&& final(self).lock_event() == if old(self).locked() != locked {
                    Some(now)
                } else {
                    old(self).lock_event()
                }
            },
    {
        if self.locked == locked && self.shape == shape && speeds_unchanged {
            return None;
        }
        if self.locked != locked {
            self.last_lock_event = Some(now);
        }
        self.epoch = now;
        self.shape = shape;
        self.locked = locked;
        if locked {
            Some(SpeedTarget::LockSpeed)
        } else {
            Some(SpeedTarget::Speed)
        }
    }

    /// When the lock state last flipped.
    pub fn last_lock_event(&self) -> (e: Option<u64>)
        ensures
            e == self.lock_event(),
    {
        self.last_lock_event
    }

    /// The lock state the clock was last configured with.
    pub fn is_locked(&self) -> (l: bool)
        ensures
            l == self.locked(),
    {
        self.locked
    }

    /// The instant at which the current transition began.
    pub fn epoch_ns(&self) -> (e: u64)
        ensures
            e == self.epoch(),
    {
        self.epoch
    }

    /// The shape of the current transition.
    pub fn transition_shape(&self) -> (s: TransitionShape)
        ensures
            s == self.shape(),
    {
        self.shape
    }

    /// The lock state and the real time since the last lock event, which
    /// wallpaper speed does not affect.
    pub fn lock_signals(&self, now: u64) -> (s: LockSignals)
        ensures
            s == self.signals(now),
            s.locked == self.locked(),
            self.lock_event() is None ==> s.age_ns is None,
            self.lock_event() is Some ==> s.age_ns == Some(
                if now >= self.lock_event()->0 {
                    (now - self.lock_event()->0) as u64
                } else {
                    0u64
                },
            ),
    {
        let age = match self.last_lock_event {
            Some(event) => Some(saturating_nanos_since(now, event)),
            None => None,
        };
        LockSignals { locked: self.locked, age_ns: age }
    }
}

/// A transition starts afresh at its epoch: no time has passed in it, so the
/// clock neither jumps nor changes speed at the instant it is reconfigured.
pub proof fn lemma_window_starts_empty(c: ClockTimeline)
    ensures
        c.window(c.epoch()).elapsed_ns == 0,
        c.window(c.epoch()).transition_ns == 0,
{
}

/// Once a transition is over it stays over: later instants only add time at
/// the target speed, one nanosecond of window per nanosecond of real time.
pub proof fn lemma_window_settles(c: ClockTimeline, t1: u64, t2: u64)
    requires
        c.window(t1).settled(),
        t1 <= t2,
    ensures
        c.window(t2).settled(),
        c.window(t2).transition_ns == c.window(t1).transition_ns,
        t1 >= c.epoch() ==> c.window(t2).elapsed_ns - c.window(t1).elapsed_ns == t2 - t1,
{
}

/// Only changes retrigger: a clock that was configured with a lock state and
/// settings is left alone, and no lock event is recorded, when it is
/// configured again with the same ones at any later instant.
pub proof fn lemma_repeat_configuration_is_ignored(
    c: ClockTimeline,
    t1: u64,
    t2: u64,
    locked: bool,
    shape: TransitionShape,
    speeds_unchanged: bool,
)
    ensures
        ({
            let first = c.configured(t1, locked, shape, speeds_unchanged).0;
            first.configured(t2, locked, shape, true) == (first, None::<SpeedTarget>)
        }),
{
}

/// What configuring a clock does, for callers of `configured`: nothing when
/// the lock state, shape and speeds are those it runs with; otherwise a new
/// transition towards the speed of the new lock state begins at `now`, and a
/// flip of the lock state is recorded as a lock event at `now`.
pub proof fn lemma_configured(
    c: ClockTimeline,
    now: u64,
    locked: bool,
    shape: TransitionShape,
    speeds_unchanged: bool,
)
    ensures
        ({
            let (d, target) = c.configured(now, locked, shape, speeds_unchanged);
            &&& d.locked() == locked
            &&& d.shape() == shape
            &&& (c.locked() == locked && c.shape() == shape && speeds_unchanged) ==> {
                &&& target is None
                &&& d == c
            }
            &&& !(c.locked() == locked && c.shape() == shape && speeds_unchanged) ==> {
                &&& target == Some(target_for(locked))
                &&& d.epoch() == now
                &&& d.lock_event() == if c.locked() != locked {
                    Some(now)
                } else {
                    c.lock_event()
                }
            }
        }),
{
}

/// The clock after a sequence of `configure` calls, each given as
/// `(now, locked, shape, speeds_unchanged)`.
pub open spec fn configured_through(
    c: ClockTimeline,
    steps: Seq<(u64, bool, TransitionShape, bool)>,
) -> ClockTimeline
    decreases steps.len(),
{
    if steps.len() == 0 {
        c
    } else {
        let s = steps.last();
        configured_through(c, steps.drop_last()).configured(s.0, s.1, s.2, s.3).0
    }
}

/// Lock signals run on real time alone: two clocks with the same lock state
/// and lock event (for instance two new clocks, whatever their settings) that
/// are configured at the same instants with the same lock states keep the
/// same lock state, the same last lock event and the same lock signals at
/// every instant, whatever the transition shapes and speeds they are given.
pub proof fn lemma_lock_signals_ignore_speed_and_shape(
    c1: ClockTimeline,
    c2: ClockTimeline,
    steps1: Seq<(u64, bool, TransitionShape, bool)>,
    steps2: Seq<(u64, bool, TransitionShape, bool)>,
    t: u64,
)
    requires
        c1.locked() == c2.locked(),
        c1.lock_event() == c2.lock_event(),
        steps1.len() == steps2.len(),
        forall|i: int|
            0 <= i < steps1.len() ==> (#[trigger] steps1[i]).0 == steps2[i].0 && steps1[i].1
                == steps2[i].1,
    ensures
        configured_through(c1, steps1).locked() == configured_through(c2, steps2).locked(),
        configured_through(c1, steps1).lock_event() == configured_through(c2, steps2).lock_event(),
        configured_through(c1, steps1).signals(t) == configured_through(c2, steps2).signals(t),
    decreases steps1.len(),
{
    if steps1.len() > 0 {
        let n = steps1.len() - 1;
        assert(steps1[n].0 == steps2[n].0 && steps1[n].1 == steps2[n].1);
        lemma_lock_signals_ignore_speed_and_shape(c1, c2, steps1.drop_last(), steps2.drop_last(), t);
    }
}

/// The age of the last lock event grows with real time alone.
pub proof fn lemma_lock_age_tracks_real_time(c: ClockTimeline, t1: u64, t2: u64)
    requires
        c.lock_event() is Some,
        c.lock_event()->0 <= t1 <= t2,
    ensures
        c.signals(t2).age_ns->0 - c.signals(t1).age_ns->0 == t2 - t1,
{
}

} // verus!
