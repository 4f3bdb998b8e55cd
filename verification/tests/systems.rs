use platformer::systems::{InputResponse, PlayerInputSystem};

#[test]
fn moving_walks_through_the_cycle() {
    let mut sprite = 0;
    let mut seen = Vec::new();
    for _ in 0..5 {
        let r = PlayerInputSystem::respond(sprite, true, None);
        assert!(r.walk);
        sprite = r.sprite_number;
        seen.push(sprite);
    }
    assert_eq!(seen, vec![1, 2, 1, 2, 1]);
}

#[test]
fn standing_resets_the_sprite() {
    let r = PlayerInputSystem::respond(2, false, None);
    assert_eq!(r, InputResponse { sprite_number: 0, walk: false, jump: false });
    let r = PlayerInputSystem::respond(17, false, Some(false));
    assert_eq!(r.sprite_number, 0);
}

#[test]
fn jump_needs_the_action_down() {
    assert!(PlayerInputSystem::respond(0, false, Some(true)).jump);
    assert!(!PlayerInputSystem::respond(0, false, Some(false)).jump);
    assert!(!PlayerInputSystem::respond(0, false, None).jump);
    let r = PlayerInputSystem::respond(1, true, Some(true));
    assert_eq!(r, InputResponse { sprite_number: 2, walk: true, jump: true });
}
