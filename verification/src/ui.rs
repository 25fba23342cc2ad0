//! The per-tick input snapshot the simulation consumes.

use vstd::prelude::*;

verus! {

/// The state of the player's input for one tick. The fields are
/// edge-or-level abstractions of whatever device the caller polls; the
/// simulation core never reads raw key codes.
#[derive(Clone, Copy, Debug, PartialEq, Eq, Structural)]
pub struct InputState {
    /// Whether the player is thrusting.
    pub thrust: bool,
    /// Whether the player is turning left.
    pub turn_left: bool,
    /// Whether the player is turning right.
    pub turn_right: bool,
    /// Whether the player is severing the link between Jetman and the
    /// item he's linked with.
    pub sever_link: bool,
}

} // verus!
