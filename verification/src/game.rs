//! The decisions the game state takes when it sets up a level: which tiles of
//! the map become bodies of the physics world, and of which shapes their
//! colliders are made.

use vstd::prelude::*;
use crate::tiles::{
    has_tileset_for_first_gid, sprite_at, tiles_layer, MiscTile, ObjectKind, TiledMap,
};

verus! {

/// The collision shape built from an object of a tile's collision group.
#[derive(Clone, Copy, Debug, PartialEq, Eq, Structural)]
pub enum ShapeKind {
    /// From a rectangle: a box of half its width and height.
    Cuboid,
    /// From a polygon: the convex polygon of its points.
    ConvexPolygon,
    /// From a polyline: the polyline of its points.
    Polyline,
    /// From an ellipse: an ellipse of half its width and height.
    Ellipse,
}

/// One shape of a tile's collider: the index of the object it is built from
/// in the tile's collision group, and its kind.
#[derive(Clone, Copy, Debug, PartialEq, Eq, Structural)]
pub struct ShapePlan {
    pub object: usize,
    pub kind: ShapeKind,
}

/// A tile of the map that becomes an entity with a static rigid body: its row
/// and column in the first layer, its index in the first tileset, and the
/// shapes of its collider. The entity gets the body and a collider only where
/// there is at least one shape.
pub struct TileBody {
    pub x: usize,
    pub y: usize,
    pub tile: usize,
    pub shapes: Vec<ShapePlan>,
}

/// A tile body as contracts speak of it: its shapes as a sequence.
pub struct TileBodyView {
    pub x: usize,
    pub y: usize,
    pub tile: usize,
    pub shapes: Seq<ShapePlan>,
}

impl View for TileBody {
    type V = TileBodyView;

    open spec fn view(&self) -> TileBodyView {
        TileBodyView { x: self.x, y: self.y, tile: self.tile, shapes: self.shapes@ }
    }
}

/// The shape built from an object of the given kind; a point gives none.
pub open spec fn object_shape(kind: ObjectKind) -> Option<ShapeKind> {
    match kind {
        ObjectKind::Rect => Some(ShapeKind::Cuboid),
        ObjectKind::Polygon => Some(ShapeKind::ConvexPolygon),
        ObjectKind::Polyline => Some(ShapeKind::Polyline),
        ObjectKind::Ellipse => Some(ShapeKind::Ellipse),
        ObjectKind::Point => None,
    }
}

/// The shapes built from the first `n` objects, in their order.
pub open spec fn shape_plans(objects: Seq<ObjectKind>, n: int) -> Seq<ShapePlan>
    decreases n,
{
    if n <= 0 {
        seq![]
    } else {
        let before = shape_plans(objects, n - 1);
        match object_shape(objects[n - 1]) {
            Some(kind) => before.push(ShapePlan { object: (n - 1) as usize, kind }),
            None => before,
        }
    }
}

/// The body made of the cell at row `x`, column `y` of the first layer: there
/// is one where the `tiles` layer shows a sprite there, the first tileset has
/// a tile of that index, and the tile has a collision group.
pub open spec fn cell_body(map: TiledMap, x: int, y: int) -> Option<TileBodyView> {
    match sprite_at(map, x as u32, y as u32) {
        None => None,
        Some(tile) => {
            let tiles = map.tilesets@[0].tiles@;
            if tile < tiles.len() && tiles[tile as int].objectgroup is Some {
                let objects = tiles[tile as int].objectgroup.unwrap()@;
                Some(
                    TileBodyView {
                        x: x as usize,
                        y: y as usize,
                        tile,
                        shapes: shape_plans(objects, objects.len() as int),
                    },
                )
            } else {
                None
            }
        },
    }
}

/// The value held, as a sequence of zero or one element.
pub open spec fn option_seq<A>(o: Option<A>) -> Seq<A> {
    match o {
        Some(a) => seq![a],
        None => seq![],
    }
}

/// The bodies of the first `n` cells of row `x` of the first layer.
pub open spec fn row_bodies(map: TiledMap, x: int, n: int) -> Seq<TileBodyView>
    decreases n,
{
    if n <= 0 {
        seq![]
    } else {
        row_bodies(map, x, n - 1) + option_seq(cell_body(map, x, n - 1))
    }
}

/// The bodies of the first `n` rows of the first layer, row after row.
pub open spec fn rows_bodies(map: TiledMap, n: int) -> Seq<TileBodyView>
    decreases n,
{
    if n <= 0 {
        seq![]
    } else {
        rows_bodies(map, n - 1) + row_bodies(
            map,
            n - 1,
            map.layers@[0].tiles@[n - 1]@.len() as int,
        )
    }
}

/// The bodies of all cells of the first layer.
pub open spec fn map_bodies(map: TiledMap) -> Seq<TileBodyView> {
    rows_bodies(map, map.layers@[0].tiles@.len() as int)
}

/// The bodies as contracts speak of them.
pub open spec fn body_views(bodies: Seq<TileBody>) -> Seq<TileBodyView> {
    bodies.map_values(|b: TileBody| b@)
}


/// The cell `(x, y)` lies in the first layer of the map.
pub open spec fn in_grid(map: TiledMap, x: int, y: int) -> bool {
    0 <= x < map.layers@[0].tiles@.len() && 0 <= y < map.layers@[0].tiles@[x]@.len()
}

/// The bodies of a row are those of its cells.
proof fn lemma_row_bodies(map: TiledMap, x: int, n: int)
    requires
        0 <= n,
    ensures
        forall|i: int|
            #![trigger row_bodies(map, x, n)[i]]
            0 <= i < row_bodies(map, x, n).len() ==> exists|y: int|
                0 <= y < n && #[trigger] cell_body(map, x, y) == Some(
                    row_bodies(map, x, n)[i],
                ),
        forall|y: int|
            0 <= y < n && #[trigger] cell_body(map, x, y) is Some ==> row_bodies(
                map,
                x,
                n,
            ).contains(cell_body(map, x, y).unwrap()),
    decreases n,
{
    if n > 0 {
        lemma_row_bodies(map, x, n - 1);
        let before = row_bodies(map, x, n - 1);
        let last = option_seq(cell_body(map, x, n - 1));
        let all = row_bodies(map, x, n);
        assert(all == before + last);
        assert forall|i: int| #![trigger all[i]] 0 <= i < all.len() implies exists|y: int|
            0 <= y < n && #[trigger] cell_body(map, x, y) == Some(all[i]) by {
            if i < before.len() {
                assert(all[i] == before[i]);
            } else {
                assert(all[i] == last[i - before.len()]);
                assert(cell_body(map, x, n - 1) == Some(all[i]));
            }
        }
        assert forall|y: int| 0 <= y < n && #[trigger] cell_body(map, x, y) is Some implies all.contains(
            cell_body(map, x, y).unwrap(),
        ) by {
            if y < n - 1 {
                let k = choose|k: int| 0 <= k < before.len() && before[k] == cell_body(map, x, y).unwrap();
                assert(all[k] == before[k]);
            } else {
                assert(all[before.len() as int] == last[0]);
            }
        }
    }
}

/// The bodies of the first rows are those of their cells.
proof fn lemma_rows_bodies(map: TiledMap, n: int)
    requires
        0 <= n <= map.layers@[0].tiles@.len(),
    ensures
        forall|i: int|
            #![trigger rows_bodies(map, n)[i]]
            0 <= i < rows_bodies(map, n).len() ==> exists|x: int, y: int|
                0 <= x < n && in_grid(map, x, y) && #[trigger] cell_body(map, x, y) == Some(
                    rows_bodies(map, n)[i],
                ),
        forall|x: int, y: int|
            0 <= x < n && in_grid(map, x, y) && #[trigger] cell_body(map, x, y) is Some
                ==> rows_bodies(map, n).contains(cell_body(map, x, y).unwrap()),
    decreases n,
{
    if n > 0 {
        lemma_rows_bodies(map, n - 1);
        let len = map.layers@[0].tiles@[n - 1]@.len() as int;
        lemma_row_bodies(map, n - 1, len);
        let before = rows_bodies(map, n - 1);
        let row = row_bodies(map, n - 1, len);
        let all = rows_bodies(map, n);
        assert(all == before + row);
        assert forall|i: int| #![trigger all[i]] 0 <= i < all.len() implies exists|x: int, y: int|
            0 <= x < n && in_grid(map, x, y) && #[trigger] cell_body(map, x, y) == Some(all[i]) by {
            if i < before.len() {
                assert(all[i] == before[i]);
            } else {
                assert(all[i] == row[i - before.len()]);
                let y = choose|y: int| 0 <= y < len && #[trigger] cell_body(map, n - 1, y) == Some(
                    row[i - before.len()],
                );
                assert(in_grid(map, n - 1, y));
            }
        }
        assert forall|x: int, y: int|
            0 <= x < n && in_grid(map, x, y) && #[trigger] cell_body(map, x, y) is Some implies all.contains(
            cell_body(map, x, y).unwrap(),
        ) by {
            if x < n - 1 {
                let k = choose|k: int| 0 <= k < before.len() && before[k] == cell_body(map, x, y).unwrap();
                assert(all[k] == before[k]);
            } else {
                assert(row.contains(cell_body(map, x, y).unwrap()));
                let k = choose|k: int| 0 <= k < row.len() && row[k] == cell_body(map, x, y).unwrap();
                assert(all[before.len() + k] == row[k]);
            }
        }
    }
}

/// The bodies of a map are exactly those of its cells: each body is the body
/// of some cell of the first layer, and each cell of the first layer that
/// makes a body has its body among them.
pub proof fn lemma_map_bodies_are_cell_bodies(map: TiledMap)
    ensures
        forall|i: int|
            #![trigger map_bodies(map)[i]]
            0 <= i < map_bodies(map).len() ==> exists|x: int, y: int|
                in_grid(map, x, y) && #[trigger] cell_body(map, x, y) == Some(map_bodies(map)[i]),
        forall|x: int, y: int|
            in_grid(map, x, y) && #[trigger] cell_body(map, x, y) is Some ==> map_bodies(
                map,
            ).contains(cell_body(map, x, y).unwrap()),
{
    lemma_rows_bodies(map, map.layers@[0].tiles@.len() as int);
}

/// A cell makes a body exactly when its sprite `s` names a tile of the first
/// tileset (`s` below the number of its tiles) that has a collision group; the
/// body records the cell, the tile `s`, and the shapes planned from that
/// collision group of the first tileset.
pub proof fn lemma_cell_body_uses_first_tileset(map: TiledMap, x: int, y: int)
    requires
        map.tilesets@.len() > 0,
    ensures
        cell_body(map, x, y) matches Some(body) ==> {
            &&& sprite_at(map, x as u32, y as u32) == Some(body.tile)
            &&& (body.tile as int) < map.tilesets@[0].tiles@.len()
            &&& map.tilesets@[0].tiles@[body.tile as int].objectgroup is Some
            &&& body.x == x as usize
            &&& body.y == y as usize
            &&& body.shapes == shape_plans(
                map.tilesets@[0].tiles@[body.tile as int].objectgroup.unwrap()@,
                map.tilesets@[0].tiles@[body.tile as int].objectgroup.unwrap()@.len() as int,
            )
        },
        forall|s: usize|
            sprite_at(map, x as u32, y as u32) == Some(s) && (s as int) < map.tilesets@[0].tiles@.len()
                && (#[trigger] map.tilesets@[0].tiles@[s as int]).objectgroup is Some
                ==> cell_body(map, x, y) is Some,
{
}

/// Each shape of a body names a rectangle, polygon, polyline or ellipse of the
/// collision group by its index, and has the kind of that object: a box for a
/// rectangle, a convex polygon for a polygon, a polyline for a polyline, an
/// ellipse for an ellipse. Points give no shape.
pub proof fn lemma_shape_kinds(objects: Seq<ObjectKind>, n: int)
    requires
        0 <= n <= objects.len() <= usize::MAX,
    ensures
        forall|i: int|
            #![trigger shape_plans(objects, n)[i]]
            0 <= i < shape_plans(objects, n).len() ==> {
                let plan = shape_plans(objects, n)[i];
                let object = objects[plan.object as int];
                &&& plan.object < n
                &&& object != ObjectKind::Point
                &&& (object == ObjectKind::Rect <==> plan.kind == ShapeKind::Cuboid)
                &&& (object == ObjectKind::Polygon <==> plan.kind == ShapeKind::ConvexPolygon)
                &&& (object == ObjectKind::Polyline <==> plan.kind == ShapeKind::Polyline)
                &&& (object == ObjectKind::Ellipse <==> plan.kind == ShapeKind::Ellipse)
            },
{
    lemma_shapes_come_from_objects(objects, n);
}

/// The bodies of a row come cell after cell.
proof fn lemma_row_order(map: TiledMap, x: int, n: int)
    requires
        0 <= x <= usize::MAX,
        0 <= n <= usize::MAX + 1,
    ensures
        forall|i: int|
            #![trigger row_bodies(map, x, n)[i]]
            0 <= i < row_bodies(map, x, n).len() ==> row_bodies(map, x, n)[i].x == x
                && row_bodies(map, x, n)[i].y < n,
        forall|i: int, j: int|
            0 <= i < j < row_bodies(map, x, n).len() ==> #[trigger] row_bodies(map, x, n)[i].y
                < #[trigger] row_bodies(map, x, n)[j].y,
    decreases n,
{
    if n > 0 {
        lemma_row_order(map, x, n - 1);
        let before = row_bodies(map, x, n - 1);
        let last = option_seq(cell_body(map, x, n - 1));
        let all = row_bodies(map, x, n);
        assert(all == before + last);
        assert forall|i: int| #![trigger all[i]] 0 <= i < all.len() implies all[i].x == x
            && all[i].y < n by {
            if i < before.len() {
                assert(all[i] == before[i]);
            } else {
                assert(all[i] == last[i - before.len()]);
            }
        }
        assert forall|i: int, j: int| 0 <= i < j < all.len() implies #[trigger] all[i].y
            < #[trigger] all[j].y by {
            assert(all[i] == before[i]);
            if j < before.len() {
                assert(all[j] == before[j]);
            } else {
                assert(all[j] == last[j - before.len()]);
            }
        }
    }
}

/// The bodies of the first rows come row after row.
proof fn lemma_rows_order(map: TiledMap, n: int)
    requires
        0 <= n <= map.layers@[0].tiles@.len() <= usize::MAX,
        forall|x: int|
            0 <= x < map.layers@[0].tiles@.len() ==> #[trigger] map.layers@[0].tiles@[x]@.len()
                <= usize::MAX,
    ensures
        forall|i: int|
            #![trigger rows_bodies(map, n)[i]]
            0 <= i < rows_bodies(map, n).len() ==> rows_bodies(map, n)[i].x < n,
        forall|i: int, j: int|
            0 <= i < j < rows_bodies(map, n).len() ==> {
                let bi = #[trigger] rows_bodies(map, n)[i];
                let bj = #[trigger] rows_bodies(map, n)[j];
                bi.x < bj.x || (bi.x == bj.x && bi.y < bj.y)
            },
    decreases n,
{
    if n > 0 {
        lemma_rows_order(map, n - 1);
        let len = map.layers@[0].tiles@[n - 1]@.len() as int;
        lemma_row_order(map, n - 1, len);
        let before = rows_bodies(map, n - 1);
        let row = row_bodies(map, n - 1, len);
        let all = rows_bodies(map, n);
        assert(all == before + row);
        assert forall|i: int| #![trigger all[i]] 0 <= i < all.len() implies all[i].x < n by {
            if i < before.len() {
                assert(all[i] == before[i]);
            } else {
                assert(all[i] == row[i - before.len()]);
            }
        }
        assert forall|i: int, j: int| 0 <= i < j < all.len() implies {
            let bi = #[trigger] all[i];
            let bj = #[trigger] all[j];
            bi.x < bj.x || (bi.x == bj.x && bi.y < bj.y)
        } by {
            if j < before.len() {
                assert(all[i] == before[i] && all[j] == before[j]);
            } else if i < before.len() {
                assert(all[i] == before[i]);
                assert(all[j] == row[j - before.len()]);
            } else {
                assert(all[i] == row[i - before.len()]);
                assert(all[j] == row[j - before.len()]);
            }
        }
    }
}

/// The bodies of a map come in the order of their cells, row after row and in
/// each row cell after cell, each cell at most once.
pub proof fn lemma_map_bodies_in_cell_order(map: TiledMap)
    requires
        map.layers@[0].tiles@.len() <= usize::MAX,
        forall|x: int|
            0 <= x < map.layers@[0].tiles@.len() ==> #[trigger] map.layers@[0].tiles@[x]@.len()
                <= usize::MAX,
    ensures
        forall|i: int, j: int|
            0 <= i < j < map_bodies(map).len() ==> {
                let bi = #[trigger] map_bodies(map)[i];
                let bj = #[trigger] map_bodies(map)[j];
                bi.x < bj.x || (bi.x == bj.x && bi.y < bj.y)
            },
{
    lemma_rows_order(map, map.layers@[0].tiles@.len() as int);
}

/// Each step of `shape_plans` adds the shape of the next object, if it has one.
proof fn lemma_shape_plans_step(objects: Seq<ObjectKind>, n: int)
    requires
        0 < n,
    ensures
        shape_plans(objects, n) == (match object_shape(objects[n - 1]) {
            Some(kind) => shape_plans(objects, n - 1).push(
                ShapePlan { object: (n - 1) as usize, kind },
            ),
            None => shape_plans(objects, n - 1),
        }),
{
}

/// Each shape of a body comes from one of its tile's objects, with the kind
/// that the object's kind gives.
pub proof fn lemma_shapes_come_from_objects(objects: Seq<ObjectKind>, n: int)
    requires
        0 <= n <= objects.len() <= usize::MAX,
    ensures
        forall|i: int|
            #![trigger shape_plans(objects, n)[i]]
            0 <= i < shape_plans(objects, n).len() ==> shape_plans(objects, n)[i].object < n
                && object_shape(objects[shape_plans(objects, n)[i].object as int]) == Some(
                shape_plans(objects, n)[i].kind,
            ),
    decreases n,
{
    if n > 0 {
        lemma_shapes_come_from_objects(objects, n - 1);
        lemma_shape_plans_step(objects, n);
        let before = shape_plans(objects, n - 1);
        let all = shape_plans(objects, n);
        assert forall|i: int| 0 <= i < all.len() implies #[trigger] all[i].object < n
            && object_shape(objects[all[i].object as int]) == Some(all[i].kind) by {
            if i < before.len() {
                assert(all[i] == before[i]);
            }
        }
    }
}

/// The shapes of a body follow the order of its tile's objects.
pub proof fn lemma_shapes_keep_object_order(objects: Seq<ObjectKind>, n: int)
    requires
        0 <= n <= objects.len() <= usize::MAX,
    ensures
        forall|i: int, j: int|
            0 <= i < j < shape_plans(objects, n).len() ==> #[trigger] shape_plans(objects, n)[i].object
                < #[trigger] shape_plans(objects, n)[j].object,
    decreases n,
{
    if n > 0 {
        lemma_shapes_keep_object_order(objects, n - 1);
        lemma_shapes_come_from_objects(objects, n - 1);
        lemma_shape_plans_step(objects, n);
        let before = shape_plans(objects, n - 1);
        let all = shape_plans(objects, n);
        assert forall|i: int, j: int| 0 <= i < j < all.len() implies #[trigger] all[i].object
            < #[trigger] all[j].object by {
            assert(all[i] == before[i]);
            if j < before.len() {
                assert(all[j] == before[j]);
            }
        }
    }
}

/// Every object of a tile's collision group that is not a point gives a shape.
pub proof fn lemma_shapes_cover_objects(objects: Seq<ObjectKind>, n: int)
    requires
        0 <= n <= objects.len() <= usize::MAX,
    ensures
        forall|k: int|
            0 <= k < n && #[trigger] objects[k] != ObjectKind::Point ==> exists|i: int|
                0 <= i < shape_plans(objects, n).len() && #[trigger] shape_plans(objects, n)[i].object
                    == k,
    decreases n,
{
    if n > 0 {
        lemma_shapes_cover_objects(objects, n - 1);
        lemma_shape_plans_step(objects, n);
        let before = shape_plans(objects, n - 1);
        let all = shape_plans(objects, n);
        assert forall|k: int|
            0 <= k < n && #[trigger] objects[k] != ObjectKind::Point implies exists|i: int|
            0 <= i < all.len() && #[trigger] all[i].object == k by {
            if k < n - 1 {
                let i = choose|i: int| 0 <= i < before.len() && #[trigger] before[i].object == k;
                assert(all[i] == before[i]);
            } else {
                assert(all[before.len() as int].object == k);
            }
        }
    }
}

/// The shapes built from a tile's collision group.
fn plan_shapes(objects: &Vec<ObjectKind>) -> (shapes: Vec<ShapePlan>)
    ensures
        shapes@ == shape_plans(objects@, objects@.len() as int),
{
    let mut shapes: Vec<ShapePlan> = Vec::new();
    let mut i: usize = 0;
    while i < objects.len()
        invariant
            i <= objects.len(),
            shapes@ == shape_plans(objects@, i as int),
        decreases objects.len() - i,
    {
        let kind = match objects[i] {
            ObjectKind::Rect => Some(ShapeKind::Cuboid),
            ObjectKind::Polygon => Some(ShapeKind::ConvexPolygon),
            ObjectKind::Polyline => Some(ShapeKind::Polyline),
            ObjectKind::Ellipse => Some(ShapeKind::Ellipse),
            ObjectKind::Point => None,
        };
        if let Some(kind) = kind {
            shapes.push(ShapePlan { object: i, kind });
        }
        i = i + 1;
    }
    shapes
}

/// The body made of one cell of the first layer, where there is one.
fn plan_cell(map: &TiledMap, x: usize, y: usize) -> (body: Option<TileBody>)
    requires
        map.tilesets.len() > 0,
        has_tileset_for_first_gid(map.tilesets@),
        tiles_layer(map.layers@) is Some,
    ensures
        match body {
            Some(b) => cell_body(*map, x as int, y as int) == Some(b@),
            None => cell_body(*map, x as int, y as int) is None,
        },
{
    let sprite = MiscTile.sprite([x as u32, y as u32, 0], map);
    match sprite {
        None => None,
        Some(tile) => {
            let tiles = &map.tilesets[0].tiles;
            if tile < tiles.len() {
                match &tiles[tile].objectgroup {
                    Some(objects) => {
                        let shapes = plan_shapes(objects);
                        Some(TileBody { x, y, tile, shapes })
                    },
                    None => None,
                }
            } else {
                None
            }
        },
    }
}

/// The tiles of the map that become entities with a static body, in the order
/// in which the cells of the first layer are visited: row after row, and in
/// each row cell after cell.
pub fn map_tile_bodies(map: &TiledMap) -> (bodies: Vec<TileBody>)
    requires
        map.layers.len() > 0,
        map.tilesets.len() > 0,
        has_tileset_for_first_gid(map.tilesets@),
        tiles_layer(map.layers@) is Some,
    ensures
        body_views(bodies@) == map_bodies(*map),
{
    let grid = &map.layers[0].tiles;
    let mut bodies: Vec<TileBody> = Vec::new();
    let mut x: usize = 0;
    while x < grid.len()
        invariant
            x <= grid.len(),
            grid@ == map.layers@[0].tiles@,
            map.tilesets.len() > 0,
            has_tileset_for_first_gid(map.tilesets@),
            tiles_layer(map.layers@) is Some,
            body_views(bodies@) == rows_bodies(*map, x as int),
        decreases grid.len() - x,
    {
        let row = &grid[x];
        let mut y: usize = 0;
        while y < row.len()
            invariant
                x < grid.len(),
                y <= row.len(),
                row@ == grid@[x as int]@,
                grid@ == map.layers@[0].tiles@,
                map.tilesets.len() > 0,
                has_tileset_for_first_gid(map.tilesets@),
                tiles_layer(map.layers@) is Some,
                body_views(bodies@) == rows_bodies(*map, x as int) + row_bodies(
                    *map,
                    x as int,
                    y as int,
                ),
            decreases row.len() - y,
        {
            let ghost before = bodies@;
            match plan_cell(map, x, y) {
                Some(body) => {
                    bodies.push(body);
                    assert(body_views(bodies@) =~= body_views(before).push(body@));
                },
                None => {},
            }
            assert(rows_bodies(*map, x as int) + row_bodies(*map, x as int, y + 1) =~= rows_bodies(
                *map,
                x as int,
            ) + row_bodies(*map, x as int, y as int) + option_seq(
                cell_body(*map, x as int, y as int),
            ));
            y = y + 1;
        }
        assert(rows_bodies(*map, x + 1) == rows_bodies(*map, x as int) + row_bodies(
            *map,
            x as int,
            row@.len() as int,
        ));
        x = x + 1;
    }
    bodies
}

} // verus!
