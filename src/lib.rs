//! A real-time mixing core: a hand-off collection of playable entries, a
//! play/pause/stop wrapper, a mixer that sums a dynamic set of signals, and
//! cursor-based sources, all over fixed-point integer samples.

pub mod frame;
pub mod signal;
pub mod handoff;
pub mod stop;
pub mod mixer;
pub mod source;
pub mod frames;
