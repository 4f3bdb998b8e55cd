use platformer::game::{map_tile_bodies, ShapeKind, ShapePlan};
use platformer::tiles::{Layer, ObjectKind, TileInfo, TiledMap, Tileset};

fn map() -> TiledMap {
    TiledMap {
        tilesets: vec![Tileset {
            first_gid: 1,
            tiles: vec![
                TileInfo {
                    objectgroup: Some(vec![ObjectKind::Rect, ObjectKind::Point, ObjectKind::Ellipse]),
                },
                TileInfo { objectgroup: None },
                TileInfo { objectgroup: Some(Vec::new()) },
                TileInfo {
                    objectgroup: Some(vec![ObjectKind::Polyline, ObjectKind::Polygon]),
                },
            ],
        }],
        layers: vec![Layer { name: "tiles".to_string(), tiles: vec![vec![1, 2], vec![0, 3]] }],
    }
}

#[test]
fn bodies_of_cells_with_collision_groups() {
    let bodies = map_tile_bodies(&map());
    assert_eq!(bodies.len(), 2);
    assert_eq!((bodies[0].x, bodies[0].y, bodies[0].tile), (0, 0, 0));
    assert_eq!(
        bodies[0].shapes,
        vec![
            ShapePlan { object: 0, kind: ShapeKind::Cuboid },
            ShapePlan { object: 2, kind: ShapeKind::Ellipse },
        ]
    );
    assert_eq!((bodies[1].x, bodies[1].y, bodies[1].tile), (1, 1, 2));
    assert!(bodies[1].shapes.is_empty());
}

#[test]
fn tile_index_past_tileset_makes_no_body() {
    let mut m = map();
    m.layers[0].tiles = vec![vec![9]];
    assert!(map_tile_bodies(&m).is_empty());
}

#[test]
fn polylines_and_polygons_keep_their_kinds() {
    let mut m = map();
    m.layers[0].tiles = vec![vec![4]];
    let bodies = map_tile_bodies(&m);
    assert_eq!(bodies.len(), 1);
    assert_eq!(
        bodies[0].shapes,
        vec![
            ShapePlan { object: 0, kind: ShapeKind::Polyline },
            ShapePlan { object: 1, kind: ShapeKind::ConvexPolygon },
        ]
    );
}

#[test]
fn sprites_come_from_the_tiles_layer_transposed() {
    // the first layer is walked row by row, but the sprite of cell (x, y)
    // is read at row y, column x of the `tiles` layer
    let m = TiledMap {
        tilesets: vec![Tileset {
            first_gid: 1,
            tiles: vec![TileInfo { objectgroup: Some(vec![ObjectKind::Rect]) }],
        }],
        layers: vec![
            Layer { name: "background".to_string(), tiles: vec![vec![0, 0, 0]] },
            Layer { name: "tiles".to_string(), tiles: vec![vec![0], vec![0], vec![1]] },
        ],
    };
    let bodies = map_tile_bodies(&m);
    assert_eq!(bodies.len(), 1);
    assert_eq!((bodies[0].x, bodies[0].y, bodies[0].tile), (0, 2, 0));
}
