//! Compositor state that the wallpaper clock and the panel keep per session.
pub mod background_clock;
pub mod panel;
