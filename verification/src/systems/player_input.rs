//! The rules by which the player's input moves and animates the player.

use vstd::prelude::*;

verus! {

/// The next sprite of the walk cycle: standing (0) starts it, then the two
/// walking sprites (1 and 2) take turns.
pub open spec fn walk_sprite(sprite_number: usize) -> usize {
    if sprite_number == 0 {
        1
    } else if sprite_number == 1 {
        2
    } else {
        1
    }
}

/// The sprite after `frames` frames of moving, from the sprite `start`.
pub open spec fn walk_sprite_after(start: usize, frames: nat) -> usize
    decreases frames,
{
    if frames == 0 {
        start
    } else {
        walk_sprite(walk_sprite_after(start, (frames - 1) as nat))
    }
}

/// While the player keeps moving, the sprite stays on the two walking sprites
/// and changes on every frame; from standing, the odd frames show sprite 1 and
/// the even ones sprite 2.
pub proof fn lemma_walk_cycle(start: usize, frames: nat)
    requires
        frames >= 1,
    ensures
        walk_sprite_after(start, frames) == 1 || walk_sprite_after(start, frames) == 2,
        walk_sprite_after(start, frames + 1) != walk_sprite_after(start, frames),
        start == 0 ==> walk_sprite_after(start, frames) == (if frames % 2 == 1 {
            1usize
        } else {
            2usize
        }),
    decreases frames,
{
    let before = (frames - 1) as nat;
    assert(walk_sprite_after(start, frames) == walk_sprite(walk_sprite_after(start, before)));
    if frames > 1 {
        lemma_walk_cycle(start, before);
        assert((frames % 2 == 1) == (before % 2 == 0));
    }
}

/// The player can always jump: there is no test of the ground yet.
pub open spec fn is_on_ground() -> bool {
    true
}

/// What the player's entity does on one frame.
#[derive(Clone, Copy, Debug, PartialEq, Eq, Structural)]
pub struct InputResponse {
    /// The sprite the player is drawn with.
    pub sprite_number: usize,
    /// The body is pushed sideways by the movement axis.
    pub walk: bool,
    /// The body is pushed upwards.
    pub jump: bool,
}

/// The system that handles the player's input.
#[derive(Clone, Copy, Debug, Default)]
pub struct PlayerInputSystem;

impl PlayerInputSystem {
    /// The response to the input of one frame: `moving` when the movement axis
    /// has a value other than zero, `jump` the state of the jump action, if the
    /// action is bound. While moving, the sprite steps through the walk cycle
    /// and the body is pushed sideways; otherwise the player stands (sprite 0).
    /// A pressed jump pushes the body upwards.
    pub fn respond(sprite_number: usize, moving: bool, jump: Option<bool>) -> (r: InputResponse)
        requires
            moving ==> sprite_number <= 2,
        ensures
            r.sprite_number == (if moving {
                walk_sprite(sprite_number)
            } else {
                0
            }),
            r.walk == moving,
            r.jump == (jump == Some(true) && is_on_ground()),
            r.jump == (jump == Some(true)),
    {
        let next_sprite = if moving {
            match sprite_number {
                0 => 1,
                1 => 2,
                _ => 1,
            }
        } else {
            0
        };
        let jump_down = match jump {
            Some(down) => down,
            None => false,
        };
        let on_ground = true;
        InputResponse { sprite_number: next_sprite, walk: moving, jump: jump_down && on_ground }
    }
}

} // verus!
