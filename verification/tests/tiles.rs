use platformer::tiles::{DrawTilesBounds, Layer, MiscTile, TiledMap, Tileset};

fn layer(name: &str, tiles: Vec<Vec<u32>>) -> Layer {
    Layer { name: name.to_string(), tiles }
}

fn sample_map() -> TiledMap {
    TiledMap {
        tilesets: vec![Tileset { first_gid: 1, tiles: Vec::new() }],
        layers: vec![
            layer("ground", vec![vec![9]]),
            layer("tiles", vec![vec![0, 3], vec![5]]),
            layer("tiles", vec![vec![7, 7], vec![7, 7]]),
        ],
    }
}

#[test]
fn sprite_is_gid_less_one() {
    let map = sample_map();
    // first coordinate is the column, second the row
    assert_eq!(MiscTile.sprite([1, 0, 0], &map), Some(2));
    assert_eq!(MiscTile.sprite([0, 1, 0], &map), Some(4));
}

#[test]
fn empty_cell_shows_no_sprite() {
    let map = sample_map();
    assert_eq!(MiscTile.sprite([0, 0, 0], &map), None);
}

#[test]
fn cell_outside_layer_shows_no_sprite() {
    let map = sample_map();
    assert_eq!(MiscTile.sprite([1, 1, 0], &map), None);
    assert_eq!(MiscTile.sprite([0, 5, 0], &map), None);
    assert_eq!(MiscTile.sprite([9, 0, 0], &map), None);
}

#[test]
fn first_tiles_layer_is_read() {
    let map = sample_map();
    // the second layer named `tiles` holds 7 everywhere, the first does not
    assert_eq!(MiscTile.sprite([0, 0, 0], &map), None);
}

#[test]
fn tileset_may_start_at_gid_zero() {
    let map = TiledMap {
        tilesets: vec![
            Tileset { first_gid: 40, tiles: Vec::new() },
            Tileset { first_gid: 0, tiles: Vec::new() },
        ],
        layers: vec![layer("tiles", vec![vec![1]])],
    };
    assert_eq!(MiscTile.sprite([0, 0, 0], &map), Some(0));
}

#[test]
fn misc_tile_default() {
    let tile = MiscTile::default();
    let map = sample_map();
    assert_eq!(tile.sprite([1, 0, 0], &map), Some(2));
}

#[test]
fn bounds_cover_whole_map() {
    let region = DrawTilesBounds::bounds([10, 8, 1], [32, 32, 1]);
    assert_eq!(region.min, [0, 0, 0]);
    assert_eq!(region.max, [9, 7, 0]);
}

#[test]
fn bounds_of_single_tile_map() {
    let region = DrawTilesBounds::bounds([1, 1, 1], [1, 1, 1]);
    assert_eq!(region.min, [0, 0, 0]);
    assert_eq!(region.max, [0, 0, 0]);
}
