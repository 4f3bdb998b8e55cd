use platformer::load::{load_transition, prefab_asset_path, sprite_sheet_asset_paths, LoadTransition};

#[test]
fn prefab_path_is_under_prefab_dir() {
    assert_eq!(prefab_asset_path("player"), "prefab/player.ron");
    assert_eq!(prefab_asset_path(""), "prefab/.ron");
}

#[test]
fn sprite_sheet_paths_share_the_name() {
    let (texture, sheet) = sprite_sheet_asset_paths("texture/player");
    assert_eq!(texture, "texture/player.png");
    assert_eq!(sheet, "texture/player.ron");
    let (texture, sheet) = sprite_sheet_asset_paths("tiles/tileset");
    assert_eq!(texture, "tiles/tileset.png");
    assert_eq!(sheet, "tiles/tileset.ron");
}

#[test]
fn loading_waits_until_complete() {
    assert_eq!(load_transition(false), LoadTransition::Wait);
    assert_eq!(load_transition(true), LoadTransition::StartGame);
}
