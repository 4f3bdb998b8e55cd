//! The damageable component.
//! All the entities that could receive damage should have it.

use vstd::prelude::*;

verus! {

/// Life after healing by `amount`: the sum, but never less than the maximum.
pub open spec fn healed_life(life: int, max_life: int, amount: int) -> int {
    if life + amount >= max_life {
        life + amount
    } else {
        max_life
    }
}

/// Life after taking `amount` of damage: the difference, but never more than zero.
pub open spec fn damaged_life(life: int, amount: int) -> int {
    if life - amount <= 0 {
        life - amount
    } else {
        0
    }
}

/// Healing leaves the larger of the healed sum and the maximum life: at least
/// both, and one of the two. An entity whose maximum life is positive is alive
/// after any healing, and the maximum is reached exactly when the sum does not
/// pass it.
pub proof fn lemma_heal_reaches_max_life(life: int, max_life: int, amount: int)
    ensures
        healed_life(life, max_life, amount) >= max_life,
        healed_life(life, max_life, amount) >= life + amount,
        healed_life(life, max_life, amount) == life + amount || healed_life(
            life,
            max_life,
            amount,
        ) == max_life,
        healed_life(life, max_life, amount) == max_life <==> life + amount <= max_life,
        max_life > 0 ==> healed_life(life, max_life, amount) != 0,
{
}

/// Damage leaves the smaller of the difference and zero: at most both, and one
/// of the two. The entity is left at zero life, that is dead, exactly when the
/// damage is at least its life.
pub proof fn lemma_damage_leaves_no_positive_life(life: int, amount: int)
    ensures
        damaged_life(life, amount) <= 0,
        damaged_life(life, amount) <= life - amount,
        damaged_life(life, amount) == life - amount || damaged_life(life, amount) == 0,
        damaged_life(life, amount) == 0 <==> life - amount >= 0,
{
}

/// Healing after damage leaves at least the maximum life: the maximum life,
/// fixed at creation, is the level that healing restores.
pub proof fn lemma_heal_after_damage(life: int, max_life: int, damage: int, heal: int)
    ensures
        healed_life(damaged_life(life, damage), max_life, heal) >= max_life,
{
}

/// Component for entities that have a life and can be damaged.
pub struct Damageable {
    life: i32,
    max_life: i32,
}

impl Damageable {
    /// The current life.
    pub closed spec fn spec_life(&self) -> i32 {
        self.life
    }

    /// The life the entity was created with.
    pub closed spec fn spec_max_life(&self) -> i32 {
        self.max_life
    }

    /// A new component whose life and maximum life are both `life`.
    pub fn new(life: i32) -> (d: Self)
        ensures
            d.spec_life() == life,
            d.spec_max_life() == life,
    {
        Self { life, max_life: life }
    }

    #[verifier::when_used_as_spec(spec_life)]
    pub fn life(&self) -> (l: i32)
        ensures
            l == self.spec_life(),
    {
        self.life
    }

    #[verifier::when_used_as_spec(spec_max_life)]
    pub fn max_life(&self) -> (m: i32)
        ensures
            m == self.spec_max_life(),
    {
        self.max_life
    }

    /// Alive means a life other than zero.
    pub fn is_alive(&self) -> (alive: bool)
        ensures
            alive == (self.spec_life() != 0),
    {
        self.life != 0
    }

    /// Adds `amount` to the life; the result is raised to the maximum life
    /// where it falls below it.
    pub fn heal(&mut self, amount: i32)
        requires
            i32::MIN <= old(self).spec_life() + amount <= i32::MAX,
        ensures
            final(self).spec_life() == healed_life(
                old(self).spec_life() as int,
                old(self).spec_max_life() as int,
                amount as int,
            ),
            final(self).spec_max_life() == old(self).spec_max_life(),
    {
        let sum = self.life + amount;
        self.life = if sum >= self.max_life {
            sum
        } else {
            self.max_life
        };
    }

    /// Takes `amount` from the life; the result is lowered to zero where it
    /// lies above it.
    pub fn damage(&mut self, amount: i32)
        requires
            i32::MIN <= old(self).spec_life() - amount <= i32::MAX,
        ensures
            final(self).spec_life() == damaged_life(old(self).spec_life() as int, amount as int),
            final(self).spec_max_life() == old(self).spec_max_life(),
    {
        let difference = self.life - amount;
        self.life = if difference <= 0 {
            difference
        } else {
            0
        };
    }
}

} // verus!
