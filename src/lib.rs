//! Slot-based window tracking: windows are bound to hotkey slots, recalled by
//! cycling through each slot, and stale windows are dropped when activating
//! them fails.

pub mod window_tracking;

pub use window_tracking::{Config, Window, WindowSet};
pub mod dispatch;
pub mod activation;
pub mod search;
