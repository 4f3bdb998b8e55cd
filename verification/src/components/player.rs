//! The player component.
//! All entities with this component can be controlled by the player.

use vstd::prelude::*;

verus! {

/// Basic component for the player, making him movable by the user.
#[derive(Clone, Copy, Debug, Default, PartialEq, Eq, Structural)]
pub struct Player;

} // verus!
