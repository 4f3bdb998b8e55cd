use platformer::{Geometry, U32U32, U32};

#[test]
fn u32_from_value_and_one_tuple_agree() {
    assert_eq!(U32::from(5u32), U32(5));
    assert_eq!(U32::from((5u32,)), U32(5));
    assert_eq!(U32::from(7u32), U32::from((7u32,)));
    assert_ne!(U32::from(7u32), U32(8));
}

#[test]
fn u32u32_from_pair_keeps_order() {
    assert_eq!(U32U32::from((1u32, 2u32)), U32U32(1, 2));
    assert_ne!(U32U32::from((1u32, 2u32)), U32U32(2, 1));
}

#[test]
fn prefab_defaults_are_zero() {
    assert_eq!(U32::default(), U32(0));
    assert_eq!(U32U32::default(), U32U32(0, 0));
    assert_ne!(Geometry::Square, Geometry::Quadrilateral);
    assert_eq!(Geometry::Void, Geometry::Void);
}
