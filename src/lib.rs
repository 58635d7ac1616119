//! Gamepad input normalization for a fightstick overlay.
//!
//! Raw button and axis events are folded into a quantized [`Snapshot`]
//! (held buttons plus a stick direction in {-1, 0, 1} on each axis), and
//! snapshots are kept in a bounded, oldest-first [`HistoryBuffer`].

pub mod input;
pub mod snapshot;
pub mod normalize;
pub mod history;
pub mod layout;

pub use input::{AxisId, ButtonId, RawEvent, ANALOG_ONE, DEAD_ZONE};
pub use snapshot::{ButtonSet, Snapshot, SnapshotModel, StickAxis};
pub use normalize::{apply_event, handle_axis, handle_buttons};
pub use history::{HistoryBuffer, CAPACITY};
pub use layout::{
    lit_slots, slot_button, slot_center, stick_offset, trail_offsets, BUTTON_RADIUS,
    BUTTON_SPACING, GRID_LEFT, GRID_TOP, SLOT_COUNT, STICK_TRAVEL,
};
