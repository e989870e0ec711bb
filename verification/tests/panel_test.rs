use driftwm::state::panel::{
    OutputObservation, PanelConfig, PanelVisibilities, PanelVisibility, SeatState,
};

/// An arbitrary instant on the monotonic clock, in nanoseconds.
const NOW: u64 = 7_000_000_000;
const MILLI: u64 = 1_000_000;
const SECOND: u64 = 1_000_000_000;

#[test]
fn hidden_panel_does_not_reveal_from_hovering_its_old_rectangle() {
    let mut panel = PanelVisibility::default();
    assert!(!panel.update(NOW, false, true, false, 0));
    assert!(!panel.visible);
}

#[test]
fn reveal_and_interaction_cancel_the_pending_hide() {
    let mut panel = PanelVisibility::default();
    let now = NOW;
    let delay = 300 * MILLI;
    assert!(panel.update(now, true, false, false, delay));
    assert!(!panel.update(now, false, false, false, delay));
    assert!(!panel.update(now + delay / 2, false, true, false, delay));
    assert!(!panel.update(now + delay, false, false, false, delay));
    assert!(panel.visible);
    assert!(panel.update(now + delay * 2, false, false, false, delay));
    assert!(!panel.visible);
}

#[test]
fn lock_hides_immediately_even_while_super_or_menu_is_active() {
    let mut panel = PanelVisibility::default();
    let now = NOW;
    panel.update(now, true, false, false, SECOND);
    assert!(panel.update(now, true, true, true, SECOND));
    assert!(!panel.visible);
    assert!(panel.hide_at.is_none());
}

#[test]
fn idle_update_sets_the_deadline_once() {
    let mut panel = PanelVisibility::default();
    let delay = 300 * MILLI;
    panel.update(NOW, true, false, false, delay);
    assert!(!panel.update(NOW + 10, false, false, false, delay));
    assert_eq!(panel.hide_at, Some(NOW + 10 + delay));
    // A later idle update keeps the first deadline.
    assert!(!panel.update(NOW + 20, false, false, false, delay));
    assert_eq!(panel.hide_at, Some(NOW + 10 + delay));
    assert!(!panel.update(NOW + 9 + delay, false, false, false, delay));
    assert!(panel.update(NOW + 10 + delay, false, false, false, delay));
    assert_eq!(panel.hide_at, None);
}

#[test]
fn zero_delay_hides_on_the_first_idle_update() {
    let mut panel = PanelVisibility::default();
    assert!(panel.update(NOW, true, false, false, 0));
    assert!(panel.update(NOW, false, false, false, 0));
    assert!(!panel.visible);
    assert!(panel.hide_at.is_none());
}

#[test]
fn keep_cancels_a_pending_hide() {
    let mut panel = PanelVisibility::default();
    let delay = 300 * MILLI;
    panel.update(NOW, true, false, false, delay);
    panel.update(NOW, false, false, false, delay);
    assert_eq!(panel.hide_at, Some(NOW + delay));
    assert!(!panel.update(NOW + delay / 2, false, true, false, delay));
    assert!(panel.hide_at.is_none());
    // The countdown starts again from the next idle update.
    assert!(!panel.update(NOW + delay, false, false, false, delay));
    assert_eq!(panel.hide_at, Some(NOW + 2 * delay));
}

#[test]
fn locked_hidden_panel_reports_no_change() {
    let mut panel = PanelVisibility::default();
    assert!(!panel.update(NOW, true, true, true, SECOND));
    assert!(!panel.visible);
}

fn config(autohide: bool) -> PanelConfig {
    PanelConfig {
        autohide,
        namespace: String::from("waybar"),
        edge_size: 4,
        hide_delay_ms: 300,
    }
}

fn idle_seat() -> SeatState {
    SeatState {
        super_held: false,
        pointer_constraint_locked: false,
        buttons_held: false,
    }
}

fn observe(output: u64, active: bool, at_edge: bool, over: bool, popup: bool) -> OutputObservation {
    OutputObservation {
        output,
        active,
        pointer_at_edge: at_edge,
        pointer_over_panel: over,
        popup_open: popup,
    }
}

#[test]
fn reveal_edge_is_capped() {
    let mut c = config(true);
    assert_eq!(c.reveal_edge(), 4);
    c.edge_size = 32;
    assert_eq!(c.reveal_edge(), 32);
    c.edge_size = 500;
    assert_eq!(c.reveal_edge(), 32);
}

#[test]
fn pointer_at_edge_of_active_output_reveals_only_that_output() {
    let mut panels = PanelVisibilities::new();
    let c = config(true);
    let outputs = vec![observe(1, true, true, false, false), observe(2, false, true, false, false)];
    assert!(panels.update_panel_visibility(NOW, &c, false, idle_seat(), &outputs));
    assert!(panels.get(1).unwrap().visible);
    assert!(!panels.get(2).unwrap().visible);
    assert!(!panels.panel_is_hidden(&c, false, 1, "waybar"));
    assert!(panels.panel_is_hidden(&c, false, 2, "waybar"));
    // Another namespace is never hidden.
    assert!(!panels.panel_is_hidden(&c, false, 2, "dock"));
    // An output without a state counts as hidden.
    assert!(panels.panel_is_hidden(&c, false, 9, "waybar"));
}

#[test]
fn super_reveals_every_output_and_lock_hides_them() {
    let mut panels = PanelVisibilities::new();
    let c = config(true);
    let seat = SeatState { super_held: true, ..idle_seat() };
    let outputs = vec![observe(1, true, false, false, false), observe(2, false, false, false, false)];
    assert!(panels.update_panel_visibility(NOW, &c, false, seat, &outputs));
    assert!(panels.get(1).unwrap().visible && panels.get(2).unwrap().visible);
    assert!(panels.panel_is_hidden(&c, true, 1, "waybar"));
    assert!(panels.update_panel_visibility(NOW, &c, true, seat, &outputs));
    assert!(!panels.get(1).unwrap().visible && !panels.get(2).unwrap().visible);
    assert!(panels.get(1).unwrap().hide_at.is_none());
}

#[test]
fn pointer_constraint_blocks_the_edge() {
    let mut panels = PanelVisibilities::new();
    let c = config(true);
    let seat = SeatState { pointer_constraint_locked: true, ..idle_seat() };
    let outputs = vec![observe(1, true, true, true, false)];
    assert!(!panels.update_panel_visibility(NOW, &c, false, seat, &outputs));
    assert!(!panels.get(1).unwrap().visible);
}

#[test]
fn popup_and_held_button_keep_the_panel_up() {
    let mut panels = PanelVisibilities::new();
    let c = config(true);
    let delay = 300 * MILLI;
    panels.update_panel_visibility(NOW, &c, false, idle_seat(), &vec![observe(1, true, true, false, false)]);
    // A popup keeps it up long after the delay.
    let popup = vec![observe(1, true, false, false, true)];
    assert!(!panels.update_panel_visibility(NOW + 5 * delay, &c, false, idle_seat(), &popup));
    assert!(panels.get(1).unwrap().visible);
    // So does a held button.
    let seat = SeatState { buttons_held: true, ..idle_seat() };
    let idle = vec![observe(1, true, false, false, false)];
    assert!(!panels.update_panel_visibility(NOW + 10 * delay, &c, false, seat, &idle));
    assert!(panels.get(1).unwrap().hide_at.is_none());
    // Then the hide waits for the delay.
    assert!(!panels.update_panel_visibility(NOW + 11 * delay, &c, false, idle_seat(), &idle));
    assert!(panels.update_panel_visibility(NOW + 12 * delay, &c, false, idle_seat(), &idle));
    assert!(!panels.get(1).unwrap().visible);
}

#[test]
fn hovering_the_panel_of_a_hidden_output_does_not_reveal_it() {
    let mut panels = PanelVisibilities::new();
    let c = config(true);
    let outputs = vec![observe(1, true, false, true, false)];
    assert!(!panels.update_panel_visibility(NOW, &c, false, idle_seat(), &outputs));
    assert!(!panels.get(1).unwrap().visible);
}

#[test]
fn vanished_outputs_are_forgotten() {
    let mut panels = PanelVisibilities::new();
    let c = config(true);
    let both = vec![observe(1, true, true, false, false), observe(2, false, false, false, false)];
    panels.update_panel_visibility(NOW, &c, false, idle_seat(), &both);
    assert!(panels.get(2).is_some());
    let one = vec![observe(1, true, true, false, false)];
    assert!(!panels.update_panel_visibility(NOW, &c, false, idle_seat(), &one));
    assert!(panels.get(2).is_none());
    assert!(panels.get(1).unwrap().visible);
}

#[test]
fn without_autohide_nothing_changes_and_nothing_hides() {
    let mut panels = PanelVisibilities::new();
    let c = config(false);
    let outputs = vec![observe(1, true, true, false, false)];
    assert!(!panels.update_panel_visibility(NOW, &c, false, idle_seat(), &outputs));
    assert!(panels.get(1).is_none());
    assert!(!panels.panel_is_hidden(&c, true, 1, "waybar"));
}

#[test]
fn an_output_listed_twice_is_updated_twice() {
    let mut panels = PanelVisibilities::new();
    let c = config(true);
    let c0 = PanelConfig { hide_delay_ms: 0, ..c };
    let outputs = vec![observe(1, true, true, false, false), observe(1, false, false, false, false)];
    // Revealed by the first entry, hidden again by the second (no delay):
    // both steps changed the visibility.
    assert!(panels.update_panel_visibility(NOW, &c0, false, idle_seat(), &outputs));
    assert!(!panels.get(1).unwrap().visible);
}

#[test]
fn idle_sequence_hides_at_the_deadline_and_stays_hidden() {
    let mut panel = PanelVisibility::default();
    let delay = 300 * MILLI;
    panel.update(NOW, true, false, false, delay);
    let deadline = NOW + 5 + delay;
    let times = [NOW + 5, NOW + 100, deadline - 1, deadline, deadline + 7, deadline + SECOND];
    let mut results = Vec::new();
    for t in times {
        results.push(panel.update(t, false, false, false, delay));
        if t < deadline {
            assert!(panel.visible);
            assert_eq!(panel.hide_at, Some(deadline));
        } else {
            assert!(!panel.visible);
            assert!(panel.hide_at.is_none());
        }
    }
    assert_eq!(results, vec![false, false, false, true, false, false]);
}
