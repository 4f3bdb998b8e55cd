//! The team component.
//! Entities of the same team shouldn't attack themselves.

use vstd::prelude::*;

verus! {

/// A team: members of the same team shouldn't hit each other.
#[derive(Clone, Copy, Debug, PartialEq, Eq, Structural)]
pub enum Team {
    Allies,
    Enemies,
}

} // verus!
