//! Gamepad chord input engine: classifies an analog stick position into one
//! of eight angular zones (plus a center dead zone), detects frame-over-frame
//! edges of logical inputs, resolves them through a static action table,
//! orders the resulting events, and maintains the dynamic keycode cache used
//! to synthesize arbitrary Unicode characters through a host whose hardware
//! keymap is fixed.

pub mod actions;
pub mod cache;
pub mod detect;
pub mod dispatch;
pub mod engine;
pub mod keysym;
pub mod report;
pub mod state;
pub mod zone;
