use platformer::components::damageable::Damageable;
use platformer::{Movable, Player, Team};

#[test]
fn new_damageable_starts_at_max_life() {
    let d = Damageable::new(100);
    assert_eq!(d.life(), 100);
    assert_eq!(d.max_life(), 100);
    assert!(d.is_alive());
}

#[test]
fn zero_life_is_not_alive() {
    let d = Damageable::new(0);
    assert!(!d.is_alive());
    assert_eq!(d.max_life(), 0);
}

#[test]
fn damage_leaves_no_positive_life() {
    let mut d = Damageable::new(100);
    d.damage(30);
    assert_eq!(d.life(), 0);
    assert!(!d.is_alive());
    assert_eq!(d.max_life(), 100);
}

#[test]
fn damage_beyond_life_goes_negative() {
    let mut d = Damageable::new(100);
    d.damage(150);
    assert_eq!(d.life(), -50);
    assert!(d.is_alive());
}

#[test]
fn negative_damage_is_capped_at_zero() {
    let mut d = Damageable::new(-20);
    d.damage(-5);
    assert_eq!(d.life(), -15);
    d.damage(-40);
    assert_eq!(d.life(), 0);
}

#[test]
fn heal_restores_at_least_max_life() {
    let mut d = Damageable::new(100);
    d.damage(30);
    d.heal(10);
    assert_eq!(d.life(), 100);
    d.heal(-150);
    assert_eq!(d.life(), 100);
    assert_eq!(d.max_life(), 100);
}

#[test]
fn heal_above_max_life_keeps_the_sum() {
    let mut d = Damageable::new(100);
    d.heal(20);
    assert_eq!(d.life(), 120);
    assert_eq!(d.max_life(), 100);
}

#[test]
fn heal_after_damage_reaches_max_life() {
    let mut d = Damageable::new(7);
    d.damage(1000);
    assert_eq!(d.life(), -993);
    d.heal(3);
    assert_eq!(d.life(), 7);
    assert!(d.is_alive());
}

#[test]
fn marker_components_compare_equal() {
    assert_eq!(Movable, Movable::default());
    assert_eq!(Player, Player::default());
    assert_eq!(Team::Allies, Team::Allies);
    assert_ne!(Team::Allies, Team::Enemies);
}
