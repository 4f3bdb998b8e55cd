//! The tiles of a Tiled map as the engine draws them: which sprite each tile
//! shows, and which region of the tile map is drawn.

use vstd::prelude::*;

verus! {

/// The kind of an object of a tile's collision group.
#[derive(Clone, Copy, Debug, PartialEq, Eq, Structural)]
pub enum ObjectKind {
    Rect,
    Ellipse,
    Polyline,
    Polygon,
    Point,
}

/// A tile of a tileset, reduced to what the game reads of it: the kinds of
/// the objects of its collision group, where it has one.
pub struct TileInfo {
    pub objectgroup: Option<Vec<ObjectKind>>,
}

/// A tileset: the first global tile id it covers, and its tiles.
pub struct Tileset {
    pub first_gid: u32,
    pub tiles: Vec<TileInfo>,
}

/// A tile layer: its name, and the global tile ids of its cells, row by row
/// (zero for an empty cell).
pub struct Layer {
    pub name: String,
    pub tiles: Vec<Vec<u32>>,
}

/// What the game reads of a map loaded from a Tiled file.
pub struct TiledMap {
    pub tilesets: Vec<Tileset>,
    pub layers: Vec<Layer>,
}

/// The layer that holds the drawn tiles is the one named `tiles`.
pub open spec fn is_tiles_layer(layer: Layer) -> bool {
    layer.name@ == "tiles"@
}

/// The index of the first layer named `tiles` at or after index `k`.
pub open spec fn tiles_layer_from(layers: Seq<Layer>, k: int) -> Option<int>
    decreases layers.len() - k,
{
    if k < 0 || k >= layers.len() {
        None
    } else if is_tiles_layer(layers[k]) {
        Some(k)
    } else {
        tiles_layer_from(layers, k + 1)
    }
}

/// The index of the first layer named `tiles`.
pub open spec fn tiles_layer(layers: Seq<Layer>) -> Option<int> {
    tiles_layer_from(layers, 0)
}

/// Some tileset covers the global tile id 1: its first gid is at most 1.
pub open spec fn has_tileset_for_first_gid(tilesets: Seq<Tileset>) -> bool {
    exists|i: int| 0 <= i < tilesets.len() && #[trigger] tilesets[i].first_gid <= 1
}

/// The sprite shown at the tile coordinates `(a, b)`: the cell at row `b`,
/// column `a` of the first `tiles` layer, less one, where that cell exists and
/// is not empty.
pub open spec fn sprite_at(map: TiledMap, a: u32, b: u32) -> Option<usize> {
    let rows = map.layers@[tiles_layer(map.layers@).unwrap()].tiles@;
    let x = b as int;
    let y = a as int;
    if x < rows.len() && y < rows[x]@.len() && rows[x]@[y] > 0 {
        Some((rows[x]@[y] - 1) as usize)
    } else {
        None
    }
}

/// Past a layer that is not named `tiles`, the search goes on to the next.
proof fn lemma_tiles_layer_from(layers: Seq<Layer>, l: int, k: int)
    requires
        0 <= k <= l < layers.len(),
        layers[l].name@ == "tiles"@,
        forall|j: int| 0 <= j < l ==> layers[j].name@ != "tiles"@,
    ensures
        tiles_layer_from(layers, k) == Some(l),
    decreases l - k,
{
    if k < l {
        lemma_tiles_layer_from(layers, l, k + 1);
    }
}

/// The sprite at column `a`, row `b` is read from the first layer named
/// `tiles`: a cell of that layer (a row that exists, a column within that
/// row's own length) holding the global tile id `g > 0` shows sprite `g - 1`;
/// an empty cell, or one outside the layer, shows none.
pub proof fn lemma_sprite_reads_first_tiles_layer(map: TiledMap, l: int, a: u32, b: u32)
    requires
        0 <= l < map.layers@.len(),
        map.layers@[l].name@ == "tiles"@,
        forall|j: int| 0 <= j < l ==> map.layers@[j].name@ != "tiles"@,
    ensures
        (b as int) < map.layers@[l].tiles@.len() && (a as int) < map.layers@[l].tiles@[b as int]@.len()
            && map.layers@[l].tiles@[b as int]@[a as int] > 0 ==> sprite_at(map, a, b) == Some(
            (map.layers@[l].tiles@[b as int]@[a as int] - 1) as usize,
        ),
        sprite_at(map, a, b) matches Some(s) ==> {
            &&& (b as int) < map.layers@[l].tiles@.len()
            &&& (a as int) < map.layers@[l].tiles@[b as int]@.len()
            &&& map.layers@[l].tiles@[b as int]@[a as int] == s + 1
        },
{
    lemma_tiles_layer_from(map.layers@, l, 0);
}

/// The name of the layer whose tiles are drawn.
fn tiles_layer_name() -> (name: String)
    ensures
        name@ == "tiles"@,
{
    String::from_str("tiles")
}

/// Finds the first layer named `tiles`.
fn find_tiles_layer(layers: &Vec<Layer>) -> (index: usize)
    requires
        tiles_layer(layers@) is Some,
    ensures
        tiles_layer(layers@) == Some(index as int),
        index < layers.len(),
{
    let name = tiles_layer_name();
    let mut k: usize = 0;
    while k < layers.len()
        invariant
            k <= layers.len(),
            name@ == "tiles"@,
            tiles_layer(layers@) == tiles_layer_from(layers@, k as int),
            tiles_layer(layers@) is Some,
        decreases layers.len() - k,
    {
        if layers[k].name == name {
            return k;
        }
        k = k + 1;
    }
    k
}

/// The tile the engine draws: it is drawn with a sprite of the tile sheet.
#[derive(Clone, Copy, Debug)]
pub struct MiscTile;

impl Default for MiscTile {
    fn default() -> (tile: Self)
        ensures
            tile == MiscTile,
    {
        MiscTile
    }
}

impl MiscTile {
    /// The sprite of the tile at `coordinates` (the first coordinate is the
    /// column, the second the row, the third the depth, always zero): the
    /// cell's global tile id less one, or no sprite for an empty cell or one
    /// outside the `tiles` layer.
    pub fn sprite(&self, coordinates: [u32; 3], map: &TiledMap) -> (sprite: Option<usize>)
        requires
            coordinates[2] == 0,
            has_tileset_for_first_gid(map.tilesets@),
            tiles_layer(map.layers@) is Some,
        ensures
            sprite == sprite_at(*map, coordinates[0], coordinates[1]),
    {
        let layer_index = find_tiles_layer(&map.layers);
        let tiles = &map.layers[layer_index].tiles;
        let y = coordinates[0] as usize;
        let x = coordinates[1] as usize;
        if x < tiles.len() && y < tiles[x].len() && tiles[x][y] > 0 {
            Some(tiles[x][y] as usize - 1)
        } else {
            None
        }
    }
}


/// A box of tile coordinates, both corners included.
pub struct Region {
    pub min: [u32; 3],
    pub max: [u32; 3],
}

impl Region {
    pub fn new(min: [u32; 3], max: [u32; 3]) -> (region: Self)
        ensures
            region.min == min,
            region.max == max,
    {
        Region { min, max }
    }

    /// The point lies in the box on each of the three axes.
    pub open spec fn contains(self, point: [u32; 3]) -> bool {
        &&& self.min[0] <= point[0] <= self.max[0]
        &&& self.min[1] <= point[1] <= self.max[1]
        &&& self.min[2] <= point[2] <= self.max[2]
    }
}

/// Chooses the region of the tile map that is drawn.
#[derive(Debug)]
pub struct DrawTilesBounds;

impl DrawTilesBounds {
    /// The region that is drawn: the whole map, from its first tile to its
    /// last, at depth zero. A map has at least one tile in each direction,
    /// and tiles have a positive size (the screen's extent is measured in
    /// tiles).
    pub fn bounds(map_dimensions: [u32; 3], tile_dimensions: [u32; 3]) -> (region: Region)
        requires
            map_dimensions[0] >= 1,
            map_dimensions[1] >= 1,
            tile_dimensions[0] > 0,
            tile_dimensions[1] > 0,
        ensures
            region.min[0] == 0 && region.min[1] == 0 && region.min[2] == 0,
            region.max[0] == map_dimensions[0] - 1,
            region.max[1] == map_dimensions[1] - 1,
            region.max[2] == 0,
            forall|p: [u32; 3]|
                #[trigger] region.contains(p) <==> (p[0] < map_dimensions[0] && p[1]
                    < map_dimensions[1] && p[2] == 0),
    {
        let map_width = map_dimensions[0] - 1;
        let map_height = map_dimensions[1] - 1;
        Region::new([0, 0, 0], [map_width, map_height, 0])
    }
}

} // verus!
