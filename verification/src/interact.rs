//! The interaction bridge.
//!
//! Drag-move and drag-resize are not tracked by hand: the UI's "start
//! drag" request is translated into the system command that hands the
//! pointer to the OS's own move or resize loop.  This module holds that
//! translation: the fixed move command, and the map from a resize edge
//! name to the matching size command.  An unknown edge maps to no command
//! at all — the request succeeds and nothing is posted.

use vstd::prelude::*;

verus! {

/// The non-client system-command message the bridge posts.
pub const SYSCOMMAND_MESSAGE: u32 = 0x0112;

/// The system command that starts the OS move loop from the title area.
pub const MOVE_DRAG_COMMAND: u32 = 0xF012;

/// The system command that starts the OS resize loop at the given edge,
/// if the edge name is one of the eight compass edges.
pub open spec fn spec_resize_command(edge: Seq<u8>) -> Option<u32> {
    if edge == seq![0x77u8] {  // "w"
        Some(0xF001u32)
    } else if edge == seq![0x65u8] {  // "e"
        Some(0xF002u32)
    } else if edge == seq![0x6eu8] {  // "n"
        Some(0xF003u32)
    } else if edge == seq![0x6eu8, 0x77u8] {  // "nw"
        Some(0xF004u32)
    } else if edge == seq![0x6eu8, 0x65u8] {  // "ne"
        Some(0xF005u32)
    } else if edge == seq![0x73u8] {  // "s"
        Some(0xF006u32)
    } else if edge == seq![0x73u8, 0x77u8] {  // "sw"
        Some(0xF007u32)
    } else if edge == seq![0x73u8, 0x65u8] {  // "se"
        Some(0xF008u32)
    } else {
        None
    }
}

/// Maps a resize-edge name to its system command; `None` for anything
/// that is not one of the eight edges, which the caller treats as a
/// successful no-op.
pub fn resize_command(edge: &Vec<u8>) -> (r: Option<u32>)
    ensures
        r == spec_resize_command(edge@),
{
    if edge.len() == 1 {
        let b: u8 = edge[0];
        proof {
            assert(edge@ =~= seq![edge@[0]]);
        }
        if b == 0x77 {
            Some(0xF001)
        } else if b == 0x65 {
            Some(0xF002)
        } else if b == 0x6e {
            Some(0xF003)
        } else if b == 0x73 {
            Some(0xF006)
        } else {
            None
        }
    } else if edge.len() == 2 {
        let b0: u8 = edge[0];
        let b1: u8 = edge[1];
        proof {
            assert(edge@ =~= seq![edge@[0], edge@[1]]);
        }
        if b0 == 0x6e && b1 == 0x77 {
            Some(0xF004)
        } else if b0 == 0x6e && b1 == 0x65 {
            Some(0xF005)
        } else if b0 == 0x73 && b1 == 0x77 {
            Some(0xF007)
        } else if b0 == 0x73 && b1 == 0x65 {
            Some(0xF008)
        } else {
            None
        }
    } else {
        None
    }
}

} // verus!
