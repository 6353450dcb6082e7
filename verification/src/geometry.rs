//! The persisted window geometry.
//!
//! A small record of the window's last-known outer bounds, written on every
//! move or resize and read once at startup.  Width and height travel as
//! optional values: a record whose size could not be read still remembers
//! the position.  On restore, a size is honored only when both dimensions
//! are present and positive.

use vstd::prelude::*;

verus! {

/// Default widget width, in logical units.
pub const DEFAULT_WIDTH: u32 = 360;
/// Default widget height, in logical units.
pub const DEFAULT_HEIGHT: u32 = 382;
/// Minimum widget width, in logical units; the chrome pipeline enforces it.
pub const MIN_WIDTH: u32 = 340;
/// Minimum widget height, in logical units.
pub const MIN_HEIGHT: u32 = 382;

/// Name of the per-user state file that holds the persisted record.
pub const STATE_FILE_NAME: &'static str = "window-state.json";

/// Last-known outer bounds of the widget window, in physical pixels.
#[derive(Clone, Copy, Debug, PartialEq, Eq)]
pub struct WindowGeometry {
    pub x: i32,
    pub y: i32,
    pub width: Option<u32>,
    pub height: Option<u32>,
}

/// The size a restore pass applies, if any: both dimensions must be present
/// and positive, else the record's size is treated as absent.
pub open spec fn spec_restore_size(g: WindowGeometry) -> Option<(u32, u32)> {
    match (g.width, g.height) {
        (Some(w), Some(h)) => if w > 0 && h > 0 { Some((w, h)) } else { None },
        _ => None,
    }
}

/// Decides which size, if any, a saved record restores.
pub fn restore_size(g: &WindowGeometry) -> (r: Option<(u32, u32)>)
    ensures
        r == spec_restore_size(*g),
{
    match (g.width, g.height) {
        (Some(w), Some(h)) => if w > 0 && h > 0 { Some((w, h)) } else { None },
        _ => None,
    }
}

} // verus!
