//! Auto-hiding panel: per-output visibility with a delayed hide.
use vstd::prelude::*;

use std::collections::HashMap;

use crate::time::millis_to_nanos;

verus! {

broadcast use vstd::std_specs::hash::group_hash_axioms;

/// Whether the panel is shown on one output, and when a pending hide falls due.
#[derive(Clone, Copy, Debug)]
pub struct PanelVisibility {
    pub visible: bool,
    /// Instant (nanoseconds) at which a pending hide takes effect.
    pub hide_at: Option<u64>,
}

impl Default for PanelVisibility {
    /// A hidden panel with no hide pending.
    fn default() -> (v: Self)
        ensures
            v == PanelVisibility::hidden(),
    {
        PanelVisibility { visible: false, hide_at: None }
    }
}

impl PanelVisibility {
    /// A hidden panel with no hide pending.
    pub open spec fn hidden() -> PanelVisibility {
        PanelVisibility { visible: false, hide_at: None }
    }

    /// A hide is only ever pending while the panel is shown.
    pub open spec fn wf(self) -> bool {
        self.hide_at is Some ==> self.visible
    }

    /// True when this update would start the hide countdown at `now + delay`.
    pub open spec fn starts_hide(self, reveal: bool, keep: bool, locked: bool) -> bool {
        !locked && !reveal && self.visible && !keep && self.hide_at is None
    }

    /// The state after one update at `now`.
    ///
    /// A lock hides at once; a reveal, or a shown panel that is being kept,
    /// stays up with nothing pending; otherwise a shown panel hides once the
    /// deadline set by the first such update, `now + delay`, has come; a
    /// hidden panel stays as it is.
    pub open spec fn next(self, now: u64, reveal: bool, keep: bool, locked: bool, delay: u64) -> PanelVisibility {
        if locked {
            PanelVisibility::hidden()
        } else if reveal || (self.visible && keep) {
            PanelVisibility { visible: true, hide_at: None }
        } else if self.visible {
            let deadline: u64 = match self.hide_at {
                Some(d) => d,
                None => (now + delay) as u64,
            };
            if now >= deadline {
                PanelVisibility::hidden()
            } else {
                PanelVisibility { visible: true, hide_at: Some(deadline) }
            }
        } else {
            self
        }
    }

    /// Advances the visibility to `now`: `reveal` shows the panel, `keep`
    /// holds a shown panel up, `locked` hides it at once; a shown panel that
    /// is neither revealed nor kept hides `delay` nanoseconds after the first
    /// such update. Returns whether the visibility changed.
    pub fn update(&mut self, now: u64, reveal: bool, keep: bool, locked: bool, delay: u64) -> (changed: bool)
        requires
            old(self).starts_hide(reveal, keep, locked) ==> now + delay <= u64::MAX,
        ensures
            *final(self) == old(self).next(now, reveal, keep, locked, delay),
            changed == (old(self).visible != final(self).visible),
            locked ==> *final(self) == PanelVisibility::hidden(),
            !locked && reveal ==> final(self).visible && final(self).hide_at is None,
            !old(self).visible && !reveal ==> !final(self).visible,
            !locked && old(self).visible && keep ==> final(self).visible && final(self).hide_at
                is None,
            !locked && !reveal && !old(self).visible ==> *final(self) == *old(self),
            !locked && !reveal && !keep && old(self).visible ==> match old(self).hide_at {
                Some(d) => {
                    &&& (final(self).visible <==> now < d)
                    &&& (final(self).visible ==> final(self).hide_at == Some(d))
                    &&& (!final(self).visible ==> final(self).hide_at is None)
                },
                None => {
                    &&& (final(self).visible <==> delay > 0)
                    &&& (final(self).visible ==> final(self).hide_at == Some((now + delay) as u64))
                    &&& (!final(self).visible ==> final(self).hide_at is None)
                },
            },
            old(self).wf() ==> final(self).wf(),
    {
        let was_visible = self.visible;
        if locked {
            self.visible = false;
            self.hide_at = None;
        } else if reveal || (self.visible && keep) {
            self.visible = true;
            self.hide_at = None;
        } else if self.visible {
            let deadline = match self.hide_at {
                Some(d) => d,
                None => {
                    let d = now + delay;
                    self.hide_at = Some(d);
                    d
                },
            };
            if now >= deadline {
                self.visible = false;
                self.hide_at = None;
            }
        }
        was_visible != self.visible
    }
}

/// A shown panel that is neither revealed nor kept stays up for exactly
/// `delay` after the first such update: an idle update at `t0` followed by
/// one at a later `t1` hides it iff `t1 >= t0 + delay`.
pub proof fn lemma_hide_waits_for_delay(
    v: PanelVisibility,
    t0: u64,
    t1: u64,
    keep1: bool,
    delay: u64,
)
    requires
        v.visible,
        v.hide_at is None,
        t0 <= t1,
        t0 + delay <= u64::MAX,
        !keep1,
    ensures
        ({
            let first = v.next(t0, false, false, false, delay);
            let second = first.next(t1, false, keep1, false, delay);
            &&& (delay > 0 ==> first.visible && first.hide_at == Some((t0 + delay) as u64))
            &&& (!second.visible <==> t1 >= t0 + delay)
        }),
{
}

/// A reveal, or interaction with a shown panel, leaves it shown with no hide
/// pending, whatever was pending before; the next idle update then starts a
/// fresh countdown from its own instant.
pub proof fn lemma_reveal_or_keep_cancels_pending_hide(
    v: PanelVisibility,
    now: u64,
    reveal: bool,
    keep: bool,
    delay: u64,
    later: u64,
)
    requires
        reveal || (v.visible && keep),
        later + delay <= u64::MAX,
    ensures
        v.next(now, reveal, keep, false, delay) == (PanelVisibility { visible: true, hide_at: None }),
        delay > 0 ==> v.next(now, reveal, keep, false, delay).next(later, false, false, false, delay)
            == (PanelVisibility { visible: true, hide_at: Some((later + delay) as u64) }),
{
}

/// The state after a sequence of updates, each given as
/// `(now, reveal, keep, locked, delay)`.
pub open spec fn updated_through(
    v: PanelVisibility,
    steps: Seq<(u64, bool, bool, bool, u64)>,
) -> PanelVisibility
    decreases steps.len(),
{
    if steps.len() == 0 {
        v
    } else {
        let s = steps.last();
        updated_through(v, steps.drop_last()).next(s.0, s.1, s.2, s.3, s.4)
    }
}

/// Every panel state reached from a well-formed one (such as the default,
/// hidden state) by any sequence of updates is well formed: a hide is
/// pending only while the panel is shown.
pub proof fn lemma_reachable_panels_are_wf(
    v: PanelVisibility,
    steps: Seq<(u64, bool, bool, bool, u64)>,
)
    requires
        v.wf(),
    ensures
        updated_through(v, steps).wf(),
        updated_through(PanelVisibility::hidden(), steps).wf(),
    decreases steps.len(),
{
    if steps.len() > 0 {
        lemma_reachable_panels_are_wf(v, steps.drop_last());
    }
}

/// The state after idle updates (no reveal, keep or lock) at `times`.
pub open spec fn idled_through(v: PanelVisibility, times: Seq<u64>, delay: u64) -> PanelVisibility
    decreases times.len(),
{
    if times.len() == 0 {
        v
    } else {
        idled_through(v, times.drop_last(), delay).next(times.last(), false, false, false, delay)
    }
}

/// The instant at which a shown panel, idle from `first` on, hides.
pub open spec fn idle_deadline(v: PanelVisibility, first: u64, delay: u64) -> int {
    match v.hide_at {
        Some(d) => d as int,
        None => first + delay,
    }
}

proof fn lemma_idle_updates_hide_at_deadline_last(v: PanelVisibility, times: Seq<u64>, delay: u64)
    requires
        v.visible,
        times.len() > 0,
        forall|i: int, j: int| 0 <= i <= j < times.len() ==> times[i] <= times[j],
        v.hide_at is None ==> times[0] + delay <= u64::MAX,
    ensures
        ({
            let q = idled_through(v, times, delay);
            let dl = idle_deadline(v, times[0], delay);
            &&& (q.visible <==> times.last() < dl)
            &&& (q.visible ==> q.hide_at == Some(dl as u64))
        }),
    decreases times.len(),
{
    if times.len() > 1 {
        let prefix = times.drop_last();
        assert(prefix[0] == times[0]);
        lemma_idle_updates_hide_at_deadline_last(v, prefix, delay);
        assert(prefix.last() == times[times.len() - 2]);
        assert(times[times.len() - 2] <= times.last());
    } else {
        assert(times.drop_last().len() == 0);
        assert(idled_through(v, times.drop_last(), delay) == v);
        assert(times.last() == times[0]);
    }
}

/// A shown panel that only gets idle updates (no reveal, keep or lock) at
/// non-decreasing instants stays shown, with its deadline pending, at every
/// update before the deadline (its pending one, else the first update plus
/// `delay`), and is hidden at every update from the deadline on.
pub proof fn lemma_idle_panel_hides_after_delay(v: PanelVisibility, times: Seq<u64>, delay: u64)
    requires
        v.visible,
        times.len() > 0,
        forall|i: int, j: int| 0 <= i <= j < times.len() ==> times[i] <= times[j],
        v.hide_at is None ==> times[0] + delay <= u64::MAX,
    ensures
        forall|k: int|
            1 <= k <= times.len() ==> {
                let q = #[trigger] idled_through(v, times.take(k), delay);
                let dl = idle_deadline(v, times[0], delay);
                &&& (q.visible <==> times[k - 1] < dl)
                &&& (q.visible ==> q.hide_at == Some(dl as u64))
            },
{
    assert forall|k: int| 1 <= k <= times.len() implies {
        let q = #[trigger] idled_through(v, times.take(k), delay);
        let dl = idle_deadline(v, times[0], delay);
        &&& (q.visible <==> times[k - 1] < dl)
        &&& (q.visible ==> q.hide_at == Some(dl as u64))
    } by {
        let prefix = times.take(k);
        assert(prefix[0] == times[0]);
        assert(prefix.last() == times[k - 1]);
        assert forall|i: int, j: int| 0 <= i <= j < prefix.len() implies prefix[i] <= prefix[j] by {
            assert(prefix[i] == times[i] && prefix[j] == times[j]);
        }
        lemma_idle_updates_hide_at_deadline_last(v, prefix, delay);
    }
}

/// Configuration of the auto-hiding panel.
pub struct PanelConfig {
    pub autohide: bool,
    /// Layer-shell namespace of the panel surface.
    pub namespace: String,
    /// Height in logical pixels of the screen-top band that reveals the panel.
    pub edge_size: u32,
    pub hide_delay_ms: u32,
}

/// The reveal band is never taller than this many logical pixels.
pub const MAX_REVEAL_EDGE: u32 = 32;

/// The height of the reveal band for a configured edge size.
pub open spec fn capped_edge(edge_size: u32) -> u32 {
    if edge_size < MAX_REVEAL_EDGE {
        edge_size
    } else {
        MAX_REVEAL_EDGE
    }
}

/// The reveal band is at most `MAX_REVEAL_EDGE` high, and an edge size of
/// `n` gives the same band as one of `min(n, MAX_REVEAL_EDGE)`.
pub proof fn lemma_reveal_edge_is_capped(edge_size: u32)
    ensures
        capped_edge(edge_size) <= MAX_REVEAL_EDGE,
        capped_edge(capped_edge(edge_size)) == capped_edge(edge_size),
        edge_size <= MAX_REVEAL_EDGE ==> capped_edge(edge_size) == edge_size,
{
}

impl PanelConfig {
    /// Height of the screen-top band in which the pointer reveals the panel.
    pub fn reveal_edge(&self) -> (h: u32)
        ensures
            h == capped_edge(self.edge_size),
            h <= MAX_REVEAL_EDGE,
            self.edge_size <= 32 ==> h == self.edge_size,
            self.edge_size >= 32 ==> h == 32,
    {
        if self.edge_size < MAX_REVEAL_EDGE {
            self.edge_size
        } else {
            MAX_REVEAL_EDGE
        }
    }
}

/// The seat's state as the panel sees it.
#[derive(Clone, Copy, Debug)]
pub struct SeatState {
    /// The logo (super) modifier is held.
    pub super_held: bool,
    /// The pointer is locked by a pointer constraint.
    pub pointer_constraint_locked: bool,
    /// Some pointer button is held.
    pub buttons_held: bool,
}

/// What the compositor observed of one output during a panel update.
#[derive(Clone, Copy, Debug)]
pub struct OutputObservation {
    /// Identifier of the output.
    pub output: u64,
    /// This is the active output (the one that holds the pointer).
    pub active: bool,
    /// The pointer lies in the reveal band at the top of this output.
    pub pointer_at_edge: bool,
    /// The pointer lies over a panel surface of this output.
    pub pointer_over_panel: bool,
    /// A popup (such as a tray menu) of a panel surface of this output is open.
    pub popup_open: bool,
}

/// Whether the pointer counts for `o`: it must be on the active output and not
/// held by a pointer constraint.
pub open spec fn pointer_counts(seat: SeatState, o: OutputObservation) -> bool {
    o.active && !seat.pointer_constraint_locked
}

/// The panel of `o` is revealed: super is held, or the pointer is in the
/// reveal band.
pub open spec fn reveals(seat: SeatState, o: OutputObservation) -> bool {
    seat.super_held || (pointer_counts(seat, o) && o.pointer_at_edge)
}

/// The panel of `o`, currently `v`, is kept up: the pointer is over it, one of
/// its popups is open, or a pointer grab begun while it was shown goes on.
pub open spec fn keeps(seat: SeatState, o: OutputObservation, v: PanelVisibility) -> bool {
    ||| (pointer_counts(seat, o) && o.pointer_over_panel)
    ||| o.popup_open
    ||| (v.visible && seat.buttons_held)
}

/// The state of an output's panel before it is updated: what an earlier
/// update of this sweep left, else what was stored, else hidden.
pub open spec fn state_before(
    swept: Map<u64, PanelVisibility>,
    stored: Map<u64, PanelVisibility>,
    output: u64,
) -> PanelVisibility {
    if swept.contains_key(output) {
        swept[output]
    } else if stored.contains_key(output) {
        stored[output]
    } else {
        PanelVisibility::hidden()
    }
}

/// Updates the panels of `outputs` in order, starting from `stored`: the new
/// states of exactly those outputs, and whether any visibility changed.
pub open spec fn sweep(
    stored: Map<u64, PanelVisibility>,
    outputs: Seq<OutputObservation>,
    now: u64,
    locked: bool,
    seat: SeatState,
    delay: u64,
) -> (Map<u64, PanelVisibility>, bool)
    decreases outputs.len(),
{
    if outputs.len() == 0 {
        (Map::empty(), false)
    } else {
        let (swept, changed) = sweep(stored, outputs.drop_last(), now, locked, seat, delay);
        let o = outputs.last();
        let v = state_before(swept, stored, o.output);
        let w = v.next(now, reveals(seat, o), keeps(seat, o, v), locked, delay);
        (swept.insert(o.output, w), changed || v.visible != w.visible)
    }
}

/// A sweep keeps a state for exactly the outputs it was given, so the
/// states of outputs that are gone are dropped.
pub proof fn lemma_sweep_keeps_exactly_observed_outputs(
    stored: Map<u64, PanelVisibility>,
    outputs: Seq<OutputObservation>,
    now: u64,
    locked: bool,
    seat: SeatState,
    delay: u64,
    output: u64,
)
    ensures
        sweep(stored, outputs, now, locked, seat, delay).0.contains_key(output) <==> exists|i: int|
            0 <= i < outputs.len() && (#[trigger] outputs[i]).output == output,
    decreases outputs.len(),
{
    if outputs.len() > 0 {
        let prefix = outputs.drop_last();
        lemma_sweep_keeps_exactly_observed_outputs(stored, prefix, now, locked, seat, delay, output);
        if exists|i: int| 0 <= i < outputs.len() && (#[trigger] outputs[i]).output == output {
            let i = choose|i: int| 0 <= i < outputs.len() && (#[trigger] outputs[i]).output == output;
            if i < outputs.len() - 1 {
                assert(prefix[i] == outputs[i]);
            }
        }
        if exists|i: int| 0 <= i < prefix.len() && (#[trigger] prefix[i]).output == output {
            let i = choose|i: int| 0 <= i < prefix.len() && (#[trigger] prefix[i]).output == output;
            assert(outputs[i] == prefix[i]);
        }
    }
}

/// While the session is locked, a sweep leaves the panel hidden, with no
/// hide pending, on every output, whatever the seat is doing.
pub proof fn lemma_locked_sweep_hides_everywhere(
    stored: Map<u64, PanelVisibility>,
    outputs: Seq<OutputObservation>,
    now: u64,
    seat: SeatState,
    delay: u64,
    output: u64,
)
    requires
        sweep(stored, outputs, now, true, seat, delay).0.contains_key(output),
    ensures
        sweep(stored, outputs, now, true, seat, delay).0[output] == PanelVisibility::hidden(),
    decreases outputs.len(),
{
    let prefix = outputs.drop_last();
    if outputs.last().output != output {
        lemma_locked_sweep_hides_everywhere(stored, prefix, now, seat, delay, output);
    }
}

/// A sweep keeps every panel state well formed: a hide is only ever pending
/// on a shown panel.
pub proof fn lemma_sweep_preserves_wf(
    stored: Map<u64, PanelVisibility>,
    outputs: Seq<OutputObservation>,
    now: u64,
    locked: bool,
    seat: SeatState,
    delay: u64,
    output: u64,
)
    requires
        forall|k: u64| #[trigger] stored.contains_key(k) ==> stored[k].wf(),
        sweep(stored, outputs, now, locked, seat, delay).0.contains_key(output),
    ensures
        sweep(stored, outputs, now, locked, seat, delay).0[output].wf(),
    decreases outputs.len(),
{
    let prefix = outputs.drop_last();
    let swept = sweep(stored, prefix, now, locked, seat, delay).0;
    let o = outputs.last();
    if o.output != output {
        lemma_sweep_preserves_wf(stored, prefix, now, locked, seat, delay, output);
    } else if swept.contains_key(o.output) {
        lemma_sweep_preserves_wf(stored, prefix, now, locked, seat, delay, o.output);
    }
}

/// No output is observed twice.
pub open spec fn distinct_outputs(outputs: Seq<OutputObservation>) -> bool {
    forall|i: int, j: int|
        0 <= i < j < outputs.len() ==> (#[trigger] outputs[i]).output != (#[trigger] outputs[j]).output
}

/// The state an output starts a sweep from: its stored state, else hidden.
pub open spec fn stored_state(stored: Map<u64, PanelVisibility>, output: u64) -> PanelVisibility {
    state_before(Map::empty(), stored, output)
}

/// The state that one update gives `o`'s panel, starting from `v`.
pub open spec fn observed_next(
    v: PanelVisibility,
    o: OutputObservation,
    now: u64,
    locked: bool,
    seat: SeatState,
    delay: u64,
) -> PanelVisibility {
    v.next(now, reveals(seat, o), keeps(seat, o, v), locked, delay)
}

/// When every output is observed once, each output's new state is one update
/// of its stored state, independent of the other outputs, and the sweep
/// reports a change iff some output's panel was shown before and is hidden
/// after, or the other way round.
pub proof fn lemma_sweep_updates_each_output_once(
    stored: Map<u64, PanelVisibility>,
    outputs: Seq<OutputObservation>,
    now: u64,
    locked: bool,
    seat: SeatState,
    delay: u64,
)
    requires
        distinct_outputs(outputs),
    ensures
        forall|i: int|
            0 <= i < outputs.len() ==> sweep(stored, outputs, now, locked, seat, delay).0[(
            #[trigger] outputs[i]).output] == observed_next(
                stored_state(stored, outputs[i].output),
                outputs[i],
                now,
                locked,
                seat,
                delay,
            ),
        sweep(stored, outputs, now, locked, seat, delay).1 <==> exists|i: int|
            0 <= i < outputs.len() && stored_state(stored, (#[trigger] outputs[i]).output).visible
                != sweep(stored, outputs, now, locked, seat, delay).0[outputs[i].output].visible,
    decreases outputs.len(),
{
    if outputs.len() > 0 {
        let prefix = outputs.drop_last();
        let n = outputs.len() - 1;
        let o = outputs.last();
        let (swept, changed) = sweep(stored, prefix, now, locked, seat, delay);
        let result = sweep(stored, outputs, now, locked, seat, delay).0;
        assert(distinct_outputs(prefix)) by {
            assert forall|i: int, j: int| 0 <= i < j < prefix.len() implies (#[trigger] prefix[i]).output
                != (#[trigger] prefix[j]).output by {
                assert(prefix[i] == outputs[i] && prefix[j] == outputs[j]);
            }
        }
        lemma_sweep_updates_each_output_once(stored, prefix, now, locked, seat, delay);
        lemma_sweep_keeps_exactly_observed_outputs(stored, prefix, now, locked, seat, delay, o.output);
        if swept.contains_key(o.output) {
            let i = choose|i: int| 0 <= i < prefix.len() && (#[trigger] prefix[i]).output == o.output;
            assert(outputs[i] == prefix[i]);
            assert(outputs[i].output != outputs[n].output);
        }
        assert forall|i: int| 0 <= i < n implies result[(#[trigger] outputs[i]).output] == swept[outputs[i].output] by {
            assert(outputs[i] == prefix[i]);
            assert(outputs[i].output != outputs[n].output);
        }
        assert forall|i: int| 0 <= i < outputs.len() implies result[(#[trigger] outputs[i]).output]
            == observed_next(stored_state(stored, outputs[i].output), outputs[i], now, locked, seat, delay) by {
            if i < n {
                assert(outputs[i] == prefix[i]);
            }
        }
        if changed {
            let i = choose|i: int| 0 <= i < prefix.len() && stored_state(stored, (#[trigger] prefix[i]).output).visible
                != swept[prefix[i].output].visible;
            assert(outputs[i] == prefix[i]);
            assert(result[outputs[i].output] == swept[outputs[i].output]);
        }
        if exists|i: int| 0 <= i < outputs.len() && stored_state(stored, (#[trigger] outputs[i]).output).visible
            != result[outputs[i].output].visible {
            let i = choose|i: int| 0 <= i < outputs.len() && stored_state(stored, (#[trigger] outputs[i]).output).visible
                != result[outputs[i].output].visible;
            if i < n {
                assert(outputs[i] == prefix[i]);
                assert(result[outputs[i].output] == swept[prefix[i].output]);
            }
        }
    }
}

/// Holding super reveals the panel on every observed output while the
/// session is unlocked, whatever the pointer and its constraint: each ends the
/// sweep shown with no hide pending.
pub proof fn lemma_super_reveals_everywhere(
    stored: Map<u64, PanelVisibility>,
    outputs: Seq<OutputObservation>,
    now: u64,
    seat: SeatState,
    delay: u64,
    output: u64,
)
    requires
        seat.super_held,
        sweep(stored, outputs, now, false, seat, delay).0.contains_key(output),
    ensures
        sweep(stored, outputs, now, false, seat, delay).0[output] == (PanelVisibility {
            visible: true,
            hide_at: None,
        }),
    decreases outputs.len(),
{
    if outputs.last().output != output {
        lemma_sweep_keeps_exactly_observed_outputs(stored, outputs, now, false, seat, delay, output);
        lemma_super_reveals_everywhere(stored, outputs.drop_last(), now, seat, delay, output);
    }
}

/// With every output observed once and the session unlocked, a panel that
/// was shown stays shown with no hide pending while the pointer rests on it
/// (on the active output, with no pointer constraint), while one of its
/// popups is open, or while a pointer button is held (on any output).
pub proof fn lemma_interaction_keeps_shown_panel(
    stored: Map<u64, PanelVisibility>,
    outputs: Seq<OutputObservation>,
    now: u64,
    seat: SeatState,
    delay: u64,
    i: int,
)
    requires
        distinct_outputs(outputs),
        0 <= i < outputs.len(),
        stored.contains_key(outputs[i].output),
        stored[outputs[i].output].visible,
        (outputs[i].active && !seat.pointer_constraint_locked && outputs[i].pointer_over_panel)
            || outputs[i].popup_open || seat.buttons_held,
    ensures
        sweep(stored, outputs, now, false, seat, delay).0[outputs[i].output] == (PanelVisibility {
            visible: true,
            hide_at: None,
        }),
{
    lemma_sweep_updates_each_output_once(stored, outputs, now, false, seat, delay);
}

/// With every output observed once and the session unlocked, what one sweep
/// does to the panel of an output, from what was stored for it:
/// the pointer in the reveal band of the active, unconstrained output
/// reveals it; when nothing reveals or keeps it, a panel never seen before
/// is hidden, a hidden one stays as it was, a shown one with a pending hide
/// hides iff its deadline has come, and a shown one with nothing pending
/// starts a countdown of `delay` (hiding at once when `delay` is zero).
pub proof fn lemma_sweep_per_output(
    stored: Map<u64, PanelVisibility>,
    outputs: Seq<OutputObservation>,
    now: u64,
    seat: SeatState,
    delay: u64,
    i: int,
)
    requires
        distinct_outputs(outputs),
        0 <= i < outputs.len(),
        now + delay <= u64::MAX,
    ensures
        ({
            let o = outputs[i];
            let after = sweep(stored, outputs, now, false, seat, delay).0[o.output];
            let pointer = o.active && !seat.pointer_constraint_locked;
            let idle = !seat.super_held && !(pointer && (o.pointer_at_edge || o.pointer_over_panel))
                && !o.popup_open && !seat.buttons_held;
            &&& (pointer && o.pointer_at_edge) ==> after == (PanelVisibility { visible: true, hide_at: None })
            &&& (idle && !stored.contains_key(o.output)) ==> after == (PanelVisibility {
                visible: false,
                hide_at: None,
            })
            &&& (idle && stored.contains_key(o.output) && !stored[o.output].visible) ==> after
                == stored[o.output]
            &&& (idle && stored.contains_key(o.output) && stored[o.output].visible
                && stored[o.output].hide_at is Some) ==> {
                let d = stored[o.output].hide_at->0;
                &&& (after.visible <==> now < d)
                &&& after.hide_at == (if now < d { Some(d) } else { None })
            }
            &&& (idle && stored.contains_key(o.output) && stored[o.output].visible
                && stored[o.output].hide_at is None) ==> {
                &&& (after.visible <==> delay > 0)
                &&& after.hide_at == (if delay > 0 { Some((now + delay) as u64) } else { None })
            }
        }),
{
    lemma_sweep_updates_each_output_once(stored, outputs, now, false, seat, delay);
}

/// The pointer only counts on the active output and when no pointer
/// constraint holds it: observation sequences that differ only in where the
/// pointer lies on outputs where it does not count give the same sweep.
pub proof fn lemma_uncounted_pointer_has_no_effect(
    stored: Map<u64, PanelVisibility>,
    a: Seq<OutputObservation>,
    b: Seq<OutputObservation>,
    now: u64,
    locked: bool,
    seat: SeatState,
    delay: u64,
)
    requires
        a.len() == b.len(),
        forall|i: int|
            0 <= i < a.len() ==> {
                &&& (#[trigger] a[i]).output == b[i].output
                &&& a[i].active == b[i].active
                &&& a[i].popup_open == b[i].popup_open
                &&& (a[i].active && !seat.pointer_constraint_locked) ==> {
                    &&& a[i].pointer_at_edge == b[i].pointer_at_edge
                    &&& a[i].pointer_over_panel == b[i].pointer_over_panel
                }
            },
    ensures
        sweep(stored, a, now, locked, seat, delay) == sweep(stored, b, now, locked, seat, delay),
    decreases a.len(),
{
    if a.len() > 0 {
        let n = a.len() - 1;
        assert(a[n].output == b[n].output);
        assert forall|i: int| 0 <= i < a.drop_last().len() implies {
            &&& (#[trigger] a.drop_last()[i]).output == b.drop_last()[i].output
            &&& a.drop_last()[i].active == b.drop_last()[i].active
            &&& a.drop_last()[i].popup_open == b.drop_last()[i].popup_open
            &&& (a.drop_last()[i].active && !seat.pointer_constraint_locked) ==> {
                &&& a.drop_last()[i].pointer_at_edge == b.drop_last()[i].pointer_at_edge
                &&& a.drop_last()[i].pointer_over_panel == b.drop_last()[i].pointer_over_panel
            }
        } by {
            assert(a.drop_last()[i] == a[i] && b.drop_last()[i] == b[i]);
        }
        lemma_uncounted_pointer_has_no_effect(stored, a.drop_last(), b.drop_last(), now, locked, seat, delay);
    }
}

/// While a pointer constraint holds the pointer, where the pointer lies has
/// no effect on any panel.
pub proof fn lemma_constrained_pointer_has_no_effect(
    stored: Map<u64, PanelVisibility>,
    outputs: Seq<OutputObservation>,
    now: u64,
    locked: bool,
    seat: SeatState,
    delay: u64,
)
    requires
        seat.pointer_constraint_locked,
    ensures
        sweep(stored, outputs, now, locked, seat, delay) == sweep(
            stored,
            outputs.map_values(
                |o: OutputObservation|
                    OutputObservation {
                        output: o.output,
                        active: o.active,
                        pointer_at_edge: false,
                        pointer_over_panel: false,
                        popup_open: o.popup_open,
                    },
            ),
            now,
            locked,
            seat,
            delay,
        ),
{
    let cleared = outputs.map_values(
        |o: OutputObservation|
            OutputObservation {
                output: o.output,
                active: o.active,
                pointer_at_edge: false,
                pointer_over_panel: false,
                popup_open: o.popup_open,
            },
    );
    lemma_uncounted_pointer_has_no_effect(stored, outputs, cleared, now, locked, seat, delay);
}

/// Some step of the sweep starts a hide countdown, which sets a deadline
/// `delay` after `now`.
pub open spec fn sweep_starts_hide(
    stored: Map<u64, PanelVisibility>,
    outputs: Seq<OutputObservation>,
    now: u64,
    locked: bool,
    seat: SeatState,
    delay: u64,
) -> bool
    decreases outputs.len(),
{
    if outputs.len() == 0 {
        false
    } else {
        let prefix = outputs.drop_last();
        let swept = sweep(stored, prefix, now, locked, seat, delay).0;
        let o = outputs.last();
        let v = state_before(swept, stored, o.output);
        sweep_starts_hide(stored, prefix, now, locked, seat, delay) || v.starts_hide(
            reveals(seat, o),
            keeps(seat, o, v),
            locked,
        )
    }
}

proof fn lemma_prefix_starts_hide(
    stored: Map<u64, PanelVisibility>,
    outputs: Seq<OutputObservation>,
    k: int,
    now: u64,
    locked: bool,
    seat: SeatState,
    delay: u64,
)
    requires
        0 <= k <= outputs.len(),
        sweep_starts_hide(stored, outputs.take(k), now, locked, seat, delay),
    ensures
        sweep_starts_hide(stored, outputs, now, locked, seat, delay),
    decreases outputs.len(),
{
    if k == outputs.len() {
        assert(outputs.take(k) =~= outputs);
    } else {
        let prefix = outputs.drop_last();
        assert(prefix.take(k) =~= outputs.take(k));
        lemma_prefix_starts_hide(stored, prefix, k, now, locked, seat, delay);
    }
}

/// Panel visibility of every output, keyed by output identifier.
pub struct PanelVisibilities {
    states: HashMap<u64, PanelVisibility>,
}

impl View for PanelVisibilities {
    type V = Map<u64, PanelVisibility>;

    closed spec fn view(&self) -> Map<u64, PanelVisibility> {
        self.states@
    }
}

impl PanelVisibilities {
    /// No output has a panel state yet.
    pub fn new() -> (p: Self)
        ensures
            p@ == Map::<u64, PanelVisibility>::empty(),
    {
        PanelVisibilities { states: HashMap::new() }
    }

    /// The panel state of `output`, if it has one.
    pub fn get(&self, output: u64) -> (v: Option<PanelVisibility>)
        ensures
            v == (if self@.contains_key(output) { Some(self@[output]) } else { None }),
    {
        match self.states.get(&output) {
            Some(v) => Some(*v),
            None => None,
        }
    }

    /// Whether a layer surface of namespace `namespace` on `output` is to be
    /// hidden: the panel auto-hides, the surface is the panel, and the session
    /// is locked or the panel is not shown on that output.
    pub fn panel_is_hidden(&self, config: &PanelConfig, locked: bool, output: u64, namespace: &str) -> (hidden: bool)
        ensures
            hidden == (config.autohide && namespace@ == config.namespace@ && (locked || !(
            self@.contains_key(output) && self@[output].visible))),
    {
        if !config.autohide {
            return false;
        }
        let owned = namespace.to_owned();
        if !(owned == config.namespace) {
            return false;
        }
        if locked {
            return true;
        }
        match self.states.get(&output) {
            Some(v) => !v.visible,
            None => true,
        }
    }

    /// Updates the panel of every output in `outputs`, in order, and forgets
    /// the outputs that are gone. Does nothing when the panel does not
    /// auto-hide. Returns whether any visibility changed.
    pub fn update_panel_visibility(
        &mut self,
        now: u64,
        config: &PanelConfig,
        locked: bool,
        seat: SeatState,
        outputs: &Vec<OutputObservation>,
    ) -> (changed: bool)
        requires
            config.autohide && sweep_starts_hide(
                old(self)@,
                outputs@,
                now,
                locked,
                seat,
                (config.hide_delay_ms * 1_000_000) as u64,
            ) ==> now + config.hide_delay_ms * 1_000_000 <= u64::MAX,
        ensures
            !config.autohide ==> final(self)@ == old(self)@ && !changed,
            config.autohide ==> (final(self)@, changed) == sweep(
                old(self)@,
                outputs@,
                now,
                locked,
                seat,
                (config.hide_delay_ms * 1_000_000) as u64,
            ),
            config.autohide ==> forall|output: u64|
                #[trigger] final(self)@.contains_key(output) <==> exists|i: int|
                    0 <= i < outputs.len() && (#[trigger] outputs@[i]).output == output,
            config.autohide && locked ==> forall|output: u64|
                #[trigger] final(self)@.contains_key(output) ==> final(self)@[output]
                    == PanelVisibility::hidden(),
            config.autohide && !locked && seat.super_held ==> forall|output: u64|
                #[trigger] final(self)@.contains_key(output) ==> final(self)@[output]
                    == (PanelVisibility { visible: true, hide_at: None }),
            config.autohide && !locked && distinct_outputs(outputs@) ==> forall|i: int|
                0 <= i < outputs.len() && old(self)@.contains_key((#[trigger] outputs@[i]).output)
                    && old(self)@[outputs@[i].output].visible && ((outputs@[i].active && !seat.pointer_constraint_locked
                    && outputs@[i].pointer_over_panel) || outputs@[i].popup_open
                    || seat.buttons_held) ==> final(self)@[outputs@[i].output] == (PanelVisibility {
                    visible: true,
                    hide_at: None,
                }),
    {
        if !config.autohide {
            return false;
        }
        let delay = millis_to_nanos(config.hide_delay_ms);
        let ghost stored = self.states@;
        let mut swept: HashMap<u64, PanelVisibility> = HashMap::new();
        let mut changed = false;
        let mut i: usize = 0;
        while i < outputs.len()
            invariant
                i <= outputs.len(),
                self.states@ == stored,
                delay == config.hide_delay_ms * 1_000_000,
                sweep_starts_hide(stored, outputs@, now, locked, seat, delay) ==> now + delay
                    <= u64::MAX,
                (swept@, changed) == sweep(stored, outputs@.take(i as int), now, locked, seat, delay),
            decreases outputs.len() - i,
        {
            let o = outputs[i];
            let mut v = match swept.get(&o.output) {
                Some(v) => *v,
                None => match self.states.get(&o.output) {
                    Some(v) => *v,
                    None => PanelVisibility::default(),
                },
            };
            let counts = o.active && !seat.pointer_constraint_locked;
            let reveal = seat.super_held || (counts && o.pointer_at_edge);
            let keep = (counts && o.pointer_over_panel) || o.popup_open || (v.visible
                && seat.buttons_held);
            proof {
                assert(outputs@.take(i + 1).drop_last() =~= outputs@.take(i as int));
                if v.starts_hide(reveal, keep, locked) {
                    lemma_prefix_starts_hide(stored, outputs@, i + 1, now, locked, seat, delay);
                }
            }
            let c = v.update(now, reveal, keep, locked, delay);
            changed = changed || c;
            swept.insert(o.output, v);
            i += 1;
        }
        assert(outputs@.take(outputs.len() as int) =~= outputs@);
        proof {
            assert forall|output: u64| #[trigger] swept@.contains_key(output) <==> exists|i: int|
                0 <= i < outputs.len() && (#[trigger] outputs@[i]).output == output by {
                lemma_sweep_keeps_exactly_observed_outputs(stored, outputs@, now, locked, seat, delay, output);
            }
            if locked {
                assert forall|output: u64| #[trigger] swept@.contains_key(output) implies swept@[output]
                    == PanelVisibility::hidden() by {
                    lemma_locked_sweep_hides_everywhere(stored, outputs@, now, seat, delay, output);
                }
            }
            if !locked && seat.super_held {
                assert forall|output: u64| #[trigger] swept@.contains_key(output) implies swept@[output]
                    == (PanelVisibility { visible: true, hide_at: None }) by {
                    lemma_super_reveals_everywhere(stored, outputs@, now, seat, delay, output);
                }
            }
            if !locked && distinct_outputs(outputs@) {
                assert forall|i: int|
                    0 <= i < outputs.len() && stored.contains_key((#[trigger] outputs@[i]).output)
                        && stored[outputs@[i].output].visible && ((outputs@[i].active && !seat.pointer_constraint_locked
                        && outputs@[i].pointer_over_panel) || outputs@[i].popup_open
                        || seat.buttons_held) implies swept@[outputs@[i].output] == (PanelVisibility {
                    visible: true,
                    hide_at: None,
                }) by {
                    lemma_interaction_keeps_shown_panel(stored, outputs@, now, seat, delay, i);
                }
            }
        }
        self.states = swept;
        changed
    }
}

} // verus!
