# driftwm clock and panel core

Verified logic of two pieces of the driftwm compositor:

- `src/animation_clock.rs`: the schedule of the wallpaper clock. A clock
  rebases when the lock state or the animation settings change; the schedule
  records when the current speed transition began, how far into it an instant
  lies, which configured speed it heads for, and when the lock state last
  flipped.
- `src/state/panel.rs`: the auto-hiding panel. Per output, the panel is
  revealed by super or by the pointer at the screen's top edge, kept up by
  pointer hover, open popups and pointer grabs, hidden at once by the session
  lock, and otherwise hidden a configured delay after it stopped being needed.
- `src/state/background_clock.rs`: keeping the wallpaper clock in step with
  the session lock.
- `src/time.rs`: nanosecond arithmetic on monotonic instants.

`app/` holds what runs around it: floating-point wallpaper time and easing
curves, conversion from `std::time::Instant`, and the smithay queries that
observe outputs, layer surfaces and popups.
