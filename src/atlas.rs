//! Addressing of tiles inside a tileset image laid out as a regular grid
//! with a border (`margin`) and gaps between tiles (`spacing`).
use vstd::arithmetic::div_mod::*;
use vstd::prelude::*;

verus! {

/// Slicing parameters of a tileset image, in pixels.
#[derive(Clone, Copy, Debug, PartialEq, Eq, Structural)]
pub struct TilesetConfig {
    pub tile_size: u32,
    pub margin: u32,
    pub spacing: u32,
}

/// Number of whole tiles along each axis of a tileset.
#[derive(Clone, Copy, Debug, PartialEq, Eq, Structural)]
pub struct AtlasLayout {
    pub columns: u32,
    pub rows: u32,
}

/// Pixel rectangle of one tile inside the tileset.
#[derive(Clone, Copy, Debug, PartialEq, Eq, Structural)]
pub struct TileRect {
    pub x: u64,
    pub y: u64,
    pub size: u32,
}

/// How many tiles fit along an axis of `extent` pixels.
pub open spec fn axis_count(extent: int, cfg: TilesetConfig) -> int {
    let t = cfg.tile_size as int;
    let m = cfg.margin as int;
    let s = cfg.spacing as int;
    if t > 0 && extent >= 2 * m + t {
        (extent - 2 * m + s) / (t + s)
    } else {
        0
    }
}

pub open spec fn layout_of(width: int, height: int, cfg: TilesetConfig) -> AtlasLayout {
    AtlasLayout { columns: axis_count(width, cfg) as u32, rows: axis_count(height, cfg) as u32 }
}

/// Pixel origin of tile `id` in a tileset of `columns` columns.
pub open spec fn tile_origin(id: int, columns: int, cfg: TilesetConfig) -> (int, int) {
    let step = cfg.tile_size as int + cfg.spacing as int;
    (cfg.margin as int + (id % columns) * step, cfg.margin as int + (id / columns) * step)
}

impl AtlasLayout {
    pub open spec fn tile_count(self) -> int {
        self.columns as int * self.rows as int
    }

    pub open spec fn holds_id(self, id: int) -> bool {
        0 <= id < self.tile_count()
    }

    /// Whether `id` names a tile of this layout.
    pub fn is_valid_id(&self, id: u32) -> (r: bool)
        ensures
            r == self.holds_id(id as int),
    {
        let cols = self.columns as u64;
        let rows = self.rows as u64;
        assert(cols * rows <= 0xffff_ffffu64 * 0xffff_ffffu64) by (nonlinear_arith)
            requires cols <= 0xffff_ffff, rows <= 0xffff_ffff;
        (id as u64) < cols * rows
    }
}

/// An axis shorter than both margins plus one tile holds no tile.
pub proof fn lemma_too_small_has_no_tiles(extent: int, cfg: TilesetConfig)
    requires
        extent < 2 * cfg.margin + cfg.tile_size,
    ensures
        axis_count(extent, cfg) == 0,
{
}

proof fn lemma_axis_count_bounded(extent: int, cfg: TilesetConfig)
    requires
        0 <= extent,
    ensures
        0 <= axis_count(extent, cfg) <= extent,
{
    let t = cfg.tile_size as int;
    let m = cfg.margin as int;
    let s = cfg.spacing as int;
    if t > 0 && extent >= 2 * m + t {
        let n = extent - 2 * m + s;
        let d = t + s;
        let q = n / d;
        lemma_fundamental_div_mod(n, d);
        lemma_div_pos_is_pos(n, d);
        if q >= 1 {
            assert(q * d >= q + s) by (nonlinear_arith)
                requires q >= 1, t >= 1, s >= 0, d == t + s;
        }
    }
}

/// Tiles along one axis of `extent` pixels.
pub fn axis_tiles(extent: u32, config: &TilesetConfig) -> (r: u32)
    ensures
        r as int == axis_count(extent as int, *config),
{
    proof {
        lemma_axis_count_bounded(extent as int, *config);
    }
    let t = config.tile_size as u64;
    let m = config.margin as u64;
    let s = config.spacing as u64;
    let e = extent as u64;
    if t > 0 && e >= 2 * m + t {
        ((e - 2 * m + s) / (t + s)) as u32
    } else {
        0
    }
}

/// Columns and rows of a `width` x `height` tileset. A zero tile size, or an
/// image too small for one tile, gives zero along that axis.
pub fn compute_layout(width: u32, height: u32, config: &TilesetConfig) -> (r: AtlasLayout)
    ensures
        r == layout_of(width as int, height as int, *config),
        r.columns as int == axis_count(width as int, *config),
        r.rows as int == axis_count(height as int, *config),
{
    AtlasLayout { columns: axis_tiles(width, config), rows: axis_tiles(height, config) }
}

/// Exact pixel origin of a tile, with no bound on the id.
pub(crate) fn tile_origin_wide(id: u32, columns: u32, config: &TilesetConfig) -> (r: (u128, u128))
    requires
        columns > 0,
    ensures
        (r.0 as int, r.1 as int) == tile_origin(id as int, columns as int, *config),
        r.0 < 0x1_0000_0000_0000_0000_0000u128,
        r.1 < 0x1_0000_0000_0000_0000_0000u128,
{
    let step = config.tile_size as u128 + config.spacing as u128;
    let col = (id % columns) as u128;
    let row = (id / columns) as u128;
    assert(col * step <= 0xffff_ffffu128 * 0x1_ffff_ffffu128) by (nonlinear_arith)
        requires col <= 0xffff_ffff, step <= 0x1_ffff_ffff;
    assert(row * step <= 0xffff_ffffu128 * 0x1_ffff_ffffu128) by (nonlinear_arith)
        requires row <= 0xffff_ffff, step <= 0x1_ffff_ffff;
    (config.margin as u128 + col * step, config.margin as u128 + row * step)
}

/// Pixel rectangle of tile `id` in a tileset of `columns` columns. No
/// clamping: the caller decides what ids and rectangles are acceptable.
pub fn tile_rect(id: u32, columns: u32, config: &TilesetConfig) -> (r: TileRect)
    requires
        columns > 0,
        tile_origin(id as int, columns as int, *config).0 <= u64::MAX,
        tile_origin(id as int, columns as int, *config).1 <= u64::MAX,
    ensures
        r.x as int == tile_origin(id as int, columns as int, *config).0,
        r.y as int == tile_origin(id as int, columns as int, *config).1,
        r.size == config.tile_size,
{
    let (x, y) = tile_origin_wide(id, columns, config);
    TileRect { x: x as u64, y: y as u64, size: config.tile_size }
}

/// Every column and row of a layout computed for a `width` x `height`
/// tileset starts a tile that lies wholly inside that tileset.
pub proof fn lemma_tile_inside_tileset(
    width: int,
    height: int,
    cfg: TilesetConfig,
    col: int,
    row: int,
)
    requires
        0 <= width,
        0 <= height,
        0 <= col < axis_count(width, cfg),
        0 <= row < axis_count(height, cfg),
    ensures
        cfg.margin as int + col * (cfg.tile_size as int + cfg.spacing as int) + cfg.tile_size as int
            <= width,
        cfg.margin as int + row * (cfg.tile_size as int + cfg.spacing as int) + cfg.tile_size as int
            <= height,
{
    lemma_axis_start_fits(width, cfg, col);
    lemma_axis_start_fits(height, cfg, row);
}

proof fn lemma_axis_start_fits(extent: int, cfg: TilesetConfig, k: int)
    requires
        0 <= k < axis_count(extent, cfg),
    ensures
        cfg.margin as int + k * (cfg.tile_size as int + cfg.spacing as int) + cfg.tile_size as int
            <= extent,
{
    let t = cfg.tile_size as int;
    let m = cfg.margin as int;
    let s = cfg.spacing as int;
    let n = extent - 2 * m + s;
    let d = t + s;
    let q = n / d;
    lemma_fundamental_div_mod(n, d);
    assert(k * d + d <= q * d) by (nonlinear_arith)
        requires k + 1 <= q, d > 0;
}

/// A valid tile id of a layout computed for a `width` x `height` tileset
/// addresses a rectangle inside that tileset.
pub proof fn lemma_valid_id_inside_tileset(width: int, height: int, cfg: TilesetConfig, id: int)
    requires
        0 <= width <= u32::MAX,
        0 <= height <= u32::MAX,
        layout_of(width, height, cfg).holds_id(id),
    ensures
        layout_of(width, height, cfg).columns > 0,
        tile_origin(id, layout_of(width, height, cfg).columns as int, cfg).0 + cfg.tile_size
            <= width,
        tile_origin(id, layout_of(width, height, cfg).columns as int, cfg).1 + cfg.tile_size
            <= height,
{
    lemma_axis_count_bounded(width, cfg);
    lemma_axis_count_bounded(height, cfg);
    let cols = axis_count(width, cfg);
    let rows = axis_count(height, cfg);
    assert(cols > 0 && rows > 0) by (nonlinear_arith)
        requires 0 <= id < cols * rows, cols >= 0, rows >= 0;
    lemma_fundamental_div_mod(id, cols);
    let c = id % cols;
    let r = id / cols;
    assert(r < rows) by (nonlinear_arith)
        requires id == cols * r + c, 0 <= c, id < cols * rows, cols > 0;
    lemma_div_pos_is_pos(id, cols);
    lemma_tile_inside_tileset(width, height, cfg, c, r);
}

} // verus!
