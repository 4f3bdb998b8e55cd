//! The value types that prefab files are made of.

use vstd::prelude::*;
use vstd::std_specs::convert::FromSpecImpl;
use vstd::std_specs::convert::FromSpec;

verus! {

/// One unsigned integer of a prefab.
#[derive(PartialEq, Eq, Structural, Copy, Clone, Debug, Default)]
pub struct U32(pub u32);

impl From<u32> for U32 {
    fn from(x: u32) -> (r: Self) {
        Self(x)
    }
}

impl FromSpecImpl<u32> for U32 {
    open spec fn obeys_from_spec() -> bool {
        true
    }

    open spec fn from_spec(x: u32) -> Self {
        U32(x)
    }
}

impl From<(u32,)> for U32 {
    fn from(x: (u32,)) -> (r: Self) {
        Self(x.0)
    }
}

impl FromSpecImpl<(u32,)> for U32 {
    open spec fn obeys_from_spec() -> bool {
        true
    }

    open spec fn from_spec(x: (u32,)) -> Self {
        U32(x.0)
    }
}

/// A pair of unsigned integers of a prefab.
#[derive(PartialEq, Eq, Structural, Copy, Clone, Debug, Default)]
pub struct U32U32(pub u32, pub u32);

impl From<(u32, u32)> for U32U32 {
    fn from(x: (u32, u32)) -> (r: Self) {
        Self(x.0, x.1)
    }
}

impl FromSpecImpl<(u32, u32)> for U32U32 {
    open spec fn obeys_from_spec() -> bool {
        true
    }

    open spec fn from_spec(x: (u32, u32)) -> Self {
        U32U32(x.0, x.1)
    }
}

/// The conversions keep the values: a value or a one-element tuple gives the
/// same `U32`, and a pair gives a `U32U32` with its two values in order.
pub proof fn lemma_from_keeps_values(x: u32, y: u32)
    ensures
        <U32 as FromSpec<u32>>::from_spec(x).0 == x,
        <U32 as FromSpec<(u32,)>>::from_spec((x,)).0 == x,
        <U32U32 as FromSpec<(u32, u32)>>::from_spec((x, y)).0 == x,
        <U32U32 as FromSpec<(u32, u32)>>::from_spec((x, y)).1 == y,
        <U32 as FromSpec<u32>>::obeys_from_spec(),
        <U32 as FromSpec<(u32,)>>::obeys_from_spec(),
        <U32U32 as FromSpec<(u32, u32)>>::obeys_from_spec(),
{
}

/// The geometry of a prefab.
#[derive(PartialEq, Eq, Structural, Copy, Clone, Debug)]
pub enum Geometry {
    Void,
    Square,
    Quadrilateral,
}

} // verus!
