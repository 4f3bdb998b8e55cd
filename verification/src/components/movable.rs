//! The movable component.
//! All entities with this component can be moved by the physics.

use vstd::prelude::*;

verus! {

/// A component that lets the physics move the entity.
#[derive(Clone, Copy, Debug, Default, PartialEq, Eq, Structural)]
pub struct Movable;

} // verus!
