//! Tile addressing.
//!
//! A tile is named by a zoom level, a column and a row. Zoom level `z` scales
//! the scene by two to the power `z`, and tiles are square, `tile_size` pixels
//! wide. The transform of a tile first moves the scene by half a tile up and
//! to the left, then scales it, then moves it by whole tiles:
//! a point `p` of the scene lands at `2^z * (p - tile_size / 2) - tile_size * column`
//! along the horizontal axis, and likewise with `row` along the vertical one.
//!
//! All quantities are kept exact. Half pixels are carried as twice their
//! value, and a scale as the exponent of two.

use vstd::arithmetic::power2::pow2;
use vstd::prelude::*;

verus! {

/// The address of a tile. No range is imposed: an address far from the scene
/// names an empty tile.
#[derive(Clone, Copy, Debug, PartialEq, Eq, Structural)]
pub struct TileCoordinate {
    pub zoom: i32,
    pub column: i32,
    pub row: i32,
}

/// Why a tile configuration was refused.
#[derive(Clone, Copy, Debug, PartialEq, Eq, Structural)]
pub enum ConfigError {
    /// The tile size was zero.
    ZeroTileSize,
}

/// The side of a tile in pixels, known to be positive.
#[derive(Clone, Copy, Debug)]
pub struct TileConfig {
    tile_size: u32,
}

impl TileConfig {
    #[verifier::type_invariant]
    spec fn positive(self) -> bool {
        self.tile_size > 0
    }

    /// The side of a tile in pixels.
    pub closed spec fn size(self) -> u32 {
        self.tile_size
    }

    /// Accepts every positive tile size and refuses zero.
    pub fn new(tile_size: u32) -> (r: Result<TileConfig, ConfigError>)
        ensures
            tile_size > 0 ==> r is Ok && r->Ok_0.size() == tile_size,
            tile_size == 0 ==> r == Err::<TileConfig, ConfigError>(ConfigError::ZeroTileSize),
    {
        if tile_size == 0 {
            Err(ConfigError::ZeroTileSize)
        } else {
            Ok(TileConfig { tile_size })
        }
    }

    /// The side of a tile in pixels, which is never zero.
    pub fn tile_size(&self) -> (n: u32)
        ensures
            n == self.size(),
            n > 0,
    {
        proof {
            use_type_invariant(self);
        }
        self.tile_size
    }
}

/// A uniform scale by a power of two between two shifts.
///
/// Along the horizontal axis a point `x` goes to
/// `2^zoom * (x + pre_twice_x / 2) + post_x`, and likewise along the vertical
/// axis.
#[derive(Clone, Copy, Debug, PartialEq, Eq, Structural)]
pub struct TileTransform {
    /// The scale is two to this power.
    pub zoom: i32,
    /// Twice the horizontal shift made before scaling.
    pub pre_twice_x: i64,
    /// Twice the vertical shift made before scaling.
    pub pre_twice_y: i64,
    /// The horizontal shift made after scaling.
    pub post_x: i64,
    /// The vertical shift made after scaling.
    pub post_y: i64,
}

impl TileTransform {
    /// The numerator of the scale written as a fraction of powers of two.
    pub open spec fn scale_num(self) -> int {
        if self.zoom >= 0 {
            pow2(self.zoom as nat) as int
        } else {
            1
        }
    }

    /// The denominator of the scale written as a fraction of powers of two.
    pub open spec fn scale_den(self) -> int {
        if self.zoom < 0 {
            pow2((-self.zoom) as nat) as int
        } else {
            1
        }
    }

    /// Where the transform sends the horizontal coordinate `x`, multiplied by
    /// `2 * scale_den()` so that it is a whole number.
    pub open spec fn image_x(self, x: int) -> int {
        self.scale_num() * (2 * x + self.pre_twice_x) + 2 * self.scale_den() * self.post_x
    }

    /// Where the transform sends the vertical coordinate `y`, multiplied by
    /// `2 * scale_den()` so that it is a whole number.
    pub open spec fn image_y(self, y: int) -> int {
        self.scale_num() * (2 * y + self.pre_twice_y) + 2 * self.scale_den() * self.post_y
    }
}

/// The transform of the tile at `coord` for tiles `tile_size` pixels wide.
pub open spec fn tile_transform_spec(coord: TileCoordinate, tile_size: u32) -> TileTransform {
    TileTransform {
        zoom: coord.zoom,
        pre_twice_x: (-(tile_size as int)) as i64,
        pre_twice_y: (-(tile_size as int)) as i64,
        post_x: (-(tile_size as int) * (coord.column as int)) as i64,
        post_y: (-(tile_size as int) * (coord.row as int)) as i64,
    }
}

/// A tile size times a column or a row, negated, fits in 64 bits.
proof fn lemma_offset_fits(tile_size: u32, index: i32)
    ensures
        i64::MIN < -(tile_size as int) * (index as int) <= i64::MAX,
{
    assert(-0x8000_0000_0000_0000 < -(tile_size as int) * (index as int)
        <= 0x7fff_ffff_ffff_ffff) by (nonlinear_arith)
        requires
            0 <= tile_size <= 0xffff_ffff,
            -0x8000_0000 <= index <= 0x7fff_ffff,
    ;
}

/// Computes the transform of a tile.
pub fn tile_transform(coord: TileCoordinate, config: &TileConfig) -> (t: TileTransform)
    ensures
        t == tile_transform_spec(coord, config.size()),
{
    let size: i64 = config.tile_size() as i64;
    proof {
        lemma_offset_fits(config.size(), coord.column);
        lemma_offset_fits(config.size(), coord.row);
    }
    TileTransform {
        zoom: coord.zoom,
        pre_twice_x: -size,
        pre_twice_y: -size,
        post_x: (-size) * (coord.column as i64),
        post_y: (-size) * (coord.row as i64),
    }
}

/// The transform of every tile scales by two to the zoom level, and sends a
/// scene point `p` to `scale * (p - tile_size / 2) - tile_size * index`, where
/// `index` is the column along the horizontal axis and the row along the
/// vertical one.
pub proof fn lemma_transform_formula(coord: TileCoordinate, tile_size: u32, x: int, y: int)
    requires
        tile_size > 0,
    ensures
        ({
            let t = tile_transform_spec(coord, tile_size);
            &&& t.zoom == coord.zoom
            &&& coord.zoom >= 0 ==> t.scale_num() == pow2(coord.zoom as nat) && t.scale_den() == 1
            &&& coord.zoom < 0 ==> t.scale_num() == 1 && t.scale_den() == pow2(
                (-coord.zoom) as nat,
            )
            &&& t.scale_num() > 0 && t.scale_den() > 0
            &&& t.image_x(x) == t.scale_num() * (2 * x - tile_size) - 2 * t.scale_den() * (tile_size
                * coord.column)
            &&& t.image_y(y) == t.scale_num() * (2 * y - tile_size) - 2 * t.scale_den() * (tile_size
                * coord.row)
        }),
{
    let t = tile_transform_spec(coord, tile_size);
    lemma_offset_fits(tile_size, coord.column);
    lemma_offset_fits(tile_size, coord.row);
    if coord.zoom >= 0 {
        vstd::arithmetic::power2::lemma_pow2_pos(coord.zoom as nat);
    } else {
        vstd::arithmetic::power2::lemma_pow2_pos((-coord.zoom) as nat);
    }
    let d = t.scale_den();
    let ts = tile_size as int;
    let c = coord.column as int;
    let r = coord.row as int;
    assert(t.post_x == -(ts * c)) by (nonlinear_arith)
        requires
            t.post_x == (-ts) * c,
    ;
    assert(t.post_y == -(ts * r)) by (nonlinear_arith)
        requires
            t.post_y == (-ts) * r,
    ;
    assert(2 * d * (-(ts * c)) == -(2 * d * (ts * c))) by (nonlinear_arith);
    assert(2 * d * (-(ts * r)) == -(2 * d * (ts * r))) by (nonlinear_arith);
}

/// A scene point that the first shift and the scale bring to
/// `(tile_size * column, tile_size * row)` lands on the top-left corner of the
/// tile, the origin of its raster.
pub proof fn lemma_tile_corner(coord: TileCoordinate, tile_size: u32, x: int, y: int)
    requires
        tile_size > 0,
        ({
            let t = tile_transform_spec(coord, tile_size);
            &&& t.scale_num() * (2 * x - tile_size) == 2 * t.scale_den() * (tile_size
                * coord.column)
            &&& t.scale_num() * (2 * y - tile_size) == 2 * t.scale_den() * (tile_size * coord.row)
        }),
    ensures
        tile_transform_spec(coord, tile_size).image_x(x) == 0,
        tile_transform_spec(coord, tile_size).image_y(y) == 0,
{
    lemma_transform_formula(coord, tile_size, x, y);
}

/// At zoom level zero the scene point `(tile_size * column, tile_size * row)`
/// lands half a tile above and to the left of the top-left corner of its
/// tile.
pub proof fn lemma_tile_anchor_unscaled(column: i32, row: i32, tile_size: u32)
    requires
        tile_size > 0,
    ensures
        ({
            let t = tile_transform_spec(TileCoordinate { zoom: 0, column, row }, tile_size);
            &&& t.scale_num() == 1 && t.scale_den() == 1
            &&& t.image_x(tile_size * column) == -tile_size
            &&& t.image_y(tile_size * row) == -tile_size
        }),
{
    let coord = TileCoordinate { zoom: 0, column, row };
    let t = tile_transform_spec(coord, tile_size);
    let px = tile_size * column;
    let py = tile_size * row;
    lemma_transform_formula(coord, tile_size, px, py);
    vstd::arithmetic::power2::lemma2_to64();
    let n = t.scale_num();
    let d = t.scale_den();
    assert(n * (2 * px - tile_size) - 2 * d * px == -tile_size) by (nonlinear_arith)
        requires
            n == 1,
            d == 1,
    ;
    assert(n * (2 * py - tile_size) - 2 * d * py == -tile_size) by (nonlinear_arith)
        requires
            n == 1,
            d == 1,
    ;
}

/// Neighbouring tiles of one zoom level show the scene one tile apart: what
/// tile `column` shows at `x`, tile `column + 1` shows `tile_size` pixels
/// further left, and likewise for rows.
pub proof fn lemma_neighbours_one_tile_apart(
    coord: TileCoordinate,
    tile_size: u32,
    x: int,
    y: int,
)
    requires
        tile_size > 0,
        coord.column < i32::MAX,
        coord.row < i32::MAX,
    ensures
        ({
            let t = tile_transform_spec(coord, tile_size);
            let right = tile_transform_spec(
                TileCoordinate { column: (coord.column + 1) as i32, ..coord },
                tile_size,
            );
            let below = tile_transform_spec(
                TileCoordinate { row: (coord.row + 1) as i32, ..coord },
                tile_size,
            );
            &&& right.image_x(x) == t.image_x(x) - 2 * t.scale_den() * tile_size
            &&& right.image_y(y) == t.image_y(y)
            &&& below.image_y(y) == t.image_y(y) - 2 * t.scale_den() * tile_size
            &&& below.image_x(x) == t.image_x(x)
        }),
{
    let t = tile_transform_spec(coord, tile_size);
    let right = TileCoordinate { column: (coord.column + 1) as i32, ..coord };
    let below = TileCoordinate { row: (coord.row + 1) as i32, ..coord };
    lemma_transform_formula(coord, tile_size, x, y);
    lemma_transform_formula(right, tile_size, x, y);
    lemma_transform_formula(below, tile_size, x, y);
    let d = t.scale_den();
    let ts = tile_size as int;
    let c = coord.column as int;
    let r = coord.row as int;
    assert(2 * d * (ts * (c + 1)) == 2 * d * (ts * c) + 2 * d * ts) by (nonlinear_arith);
    assert(2 * d * (ts * (r + 1)) == 2 * d * (ts * r) + 2 * d * ts) by (nonlinear_arith);
}

/// One zoom level further in doubles the scale.
pub proof fn lemma_zoom_doubles_scale(coord: TileCoordinate, tile_size: u32)
    requires
        tile_size > 0,
        coord.zoom < i32::MAX,
    ensures
        ({
            let t = tile_transform_spec(coord, tile_size);
            let finer = tile_transform_spec(
                TileCoordinate { zoom: (coord.zoom + 1) as i32, ..coord },
                tile_size,
            );
            finer.scale_num() * t.scale_den() == 2 * t.scale_num() * finer.scale_den()
        }),
{
    let z = coord.zoom as int;
    if z >= 0 {
        vstd::arithmetic::power2::lemma_pow2_unfold((z + 1) as nat);
    } else {
        vstd::arithmetic::power2::lemma_pow2_unfold((-z) as nat);
        if z == -1 {
            vstd::arithmetic::power2::lemma2_to64();
        }
    }
}

} // verus!
