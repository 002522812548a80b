//! Hit-testing of the palette: which tile lies under a point of the
//! tileset image.
use crate::atlas::{AtlasLayout, TilesetConfig, axis_count, axis_tiles, tile_origin};
use vstd::arithmetic::div_mod::*;
use vstd::prelude::*;

verus! {

/// The tile under pixel `(ix, iy)` of the tileset image, if any. The grid
/// starts after the margin and repeats every `tile_size + spacing` pixels.
pub open spec fn pick_spec(ix: int, iy: int, layout: AtlasLayout, cfg: TilesetConfig) -> Option<int> {
    let step = cfg.tile_size as int + cfg.spacing as int;
    let rx = ix - cfg.margin as int;
    let ry = iy - cfg.margin as int;
    if layout.columns == 0 || layout.rows == 0 || step == 0 || rx < 0 || ry < 0 {
        None
    } else if rx / step >= layout.columns || ry / step >= layout.rows {
        None
    } else {
        Some((ry / step) * layout.columns as int + rx / step)
    }
}

/// Tile id under pixel `(ix, iy)` of the tileset image, measured from the
/// image's top-left corner in image pixels. Points in the margin, past the
/// last column or row, or in a layout without tiles give `None`.
pub fn pick_tile(ix: i64, iy: i64, layout: &AtlasLayout, config: &TilesetConfig) -> (r: Option<u32>)
    requires
        layout.tile_count() <= u32::MAX as int + 1,
    ensures
        r matches Some(id) ==> pick_spec(ix as int, iy as int, *layout, *config) == Some(id as int),
        r is None ==> pick_spec(ix as int, iy as int, *layout, *config) is None,
{
    let step = config.tile_size as i64 + config.spacing as i64;
    let m = config.margin as i64;
    if layout.columns == 0 || layout.rows == 0 || step == 0 || ix < m || iy < m {
        return None;
    }
    let c = (ix - m) / step;
    let r = (iy - m) / step;
    if c >= layout.columns as i64 || r >= layout.rows as i64 {
        return None;
    }
    let cols = layout.columns as i64;
    proof {
        let rows = layout.rows as int;
        assert(r * cols + c < cols * rows) by (nonlinear_arith)
            requires 0 <= c < cols, 0 <= r < rows;
        assert(0 <= r * cols) by (nonlinear_arith)
            requires 0 <= r, 0 <= cols;
    }
    Some((r * cols + c) as u32)
}

/// Position, in image pixels, of grid line `i` of the palette overlay: the
/// near edge of the `i`-th tile along an axis.
pub open spec fn palette_line(cfg: TilesetConfig, i: int) -> int {
    cfg.margin as int + i * (cfg.tile_size as int + cfg.spacing as int)
}

/// Positions of the palette overlay's lines along an axis of `extent`
/// pixels: one at the near edge of each tile and one after the last.
pub fn palette_lines(extent: u32, config: &TilesetConfig) -> (r: Vec<u64>)
    ensures
        r@.len() == axis_count(extent as int, *config) + 1,
        forall|i: int| 0 <= i < r@.len() ==> r@[i] as int == palette_line(*config, i),
{
    let count = axis_tiles(extent, config);
    let step = config.tile_size as u64 + config.spacing as u64;
    let m = config.margin as u64;
    let ghost n = extent as int - 2 * m + config.spacing as int;
    proof {
        if count > 0 {
            let d = step as int;
            let q = count as int;
            lemma_fundamental_div_mod(n, d);
            assert(q * d <= n) by (nonlinear_arith)
                requires n == d * q + n % d, 0 <= n % d;
        }
    }
    let mut out: Vec<u64> = Vec::new();
    let mut i: u64 = 0;
    while i <= count as u64
        invariant
            count as int == axis_count(extent as int, *config),
            step == config.tile_size + config.spacing,
            m == config.margin,
            count > 0 ==> count * step <= n,
            n == extent as int - 2 * m + config.spacing as int,
            i <= count + 1,
            out@.len() == i,
            forall|k: int| 0 <= k < out@.len() ==> out@[k] as int == palette_line(*config, k),
        decreases count + 1 - i,
    {
        assert(i * step <= 0x2_0000_0000) by (nonlinear_arith)
            requires i <= count, count > 0 ==> count * step <= n, n <= 0x2_0000_0000, 0 <= step,
                count == 0 ==> i == 0;
        out.push(m + i * step);
        i = i + 1;
    }
    out
}

/// A picked tile is valid for the layout, and the point lies in that tile's
/// rectangle or in the gap that follows it.
pub proof fn lemma_pick_hits_tile(ix: int, iy: int, layout: AtlasLayout, cfg: TilesetConfig)
    requires
        pick_spec(ix, iy, layout, cfg) is Some,
    ensures
        ({
            let id = pick_spec(ix, iy, layout, cfg)->0;
            let step = cfg.tile_size as int + cfg.spacing as int;
            let o = tile_origin(id, layout.columns as int, cfg);
            &&& layout.holds_id(id)
            &&& o.0 <= ix < o.0 + step
            &&& o.1 <= iy < o.1 + step
        }),
{
    let step = cfg.tile_size as int + cfg.spacing as int;
    let cols = layout.columns as int;
    let rows = layout.rows as int;
    let rx = ix - cfg.margin as int;
    let ry = iy - cfg.margin as int;
    let c = rx / step;
    let r = ry / step;
    let id = r * cols + c;
    lemma_fundamental_div_mod(rx, step);
    lemma_fundamental_div_mod(ry, step);
    lemma_div_pos_is_pos(rx, step);
    lemma_div_pos_is_pos(ry, step);
    assert(0 <= id < cols * rows) by (nonlinear_arith)
        requires 0 <= c < cols, 0 <= r < rows, id == r * cols + c;
    lemma_fundamental_div_mod_converse(id, cols, r, c);
    assert(c * step <= rx < c * step + step) by (nonlinear_arith)
        requires rx == step * c + rx % step, 0 <= rx % step < step;
    assert(r * step <= ry < r * step + step) by (nonlinear_arith)
        requires ry == step * r + ry % step, 0 <= ry % step < step;
}

/// With no column or no row, no point picks a tile.
pub proof fn lemma_degenerate_layout_picks_nothing(ix: int, iy: int, layout: AtlasLayout, cfg: TilesetConfig)
    requires
        layout.columns == 0 || layout.rows == 0,
    ensures
        pick_spec(ix, iy, layout, cfg) is None,
{
}

} // verus!
