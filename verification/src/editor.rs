//! What a level editor holds in hand: its tool and what it has picked.

use vstd::prelude::*;

verus! {

/// The tool in use.
#[derive(Debug, Clone, Copy, PartialEq, Eq, Structural)]
pub enum EditorTool {
    Select,
    DrawFloor,
    DrawWall,
    DrawCeiling,
    PlacePortal,
    PlaceObject,
}

/// What is picked. Rooms are named by their place in the level, and the
/// parts of a room by their place in the room.
#[derive(Debug, Clone, Copy, PartialEq, Eq, Structural)]
pub enum Selection {
    Nothing,
    Room(usize),
    Vertex { room: usize, vertex: usize },
    /// An edge, by the two vertices at its ends.
    Edge { room: usize, v0: usize, v1: usize },
    Face { room: usize, face: usize },
    Portal { room: usize, portal: usize },
}

} // verus!
