//! The components that the entities of the game carry.

pub mod damageable;
pub mod movable;
pub mod player;
pub mod team;

pub use self::damageable::Damageable;
pub use self::movable::Movable;
pub use self::player::Player;
pub use self::team::Team;
