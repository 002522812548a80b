//! Flattening the map into one image at native tile resolution.
use crate::atlas::{
    TilesetConfig, compute_layout, layout_of, lemma_valid_id_inside_tileset, tile_origin, tile_origin_wide,
};
use crate::mesh::{map_quads_spec, quads_upto};
use crate::pixels::{RgbaBuffer, copy_block, filled_pixels, in_image, px_at};
use crate::tilemap::{TileMap, cell_index, in_grid, lemma_cell_index_bounds, lemma_cell_index_injective};
use vstd::arithmetic::div_mod::*;
use vstd::prelude::*;

verus! {

/// Why a map could not be exported.
#[derive(Clone, Copy, Debug, PartialEq, Eq, Structural)]
pub enum ExportError {
    /// The map has no cells or the tile size is zero.
    InvalidConfiguration,
    /// No tileset has been loaded.
    NoTileset,
    /// The tileset holds no whole tile column.
    DegenerateAtlas,
}

/// Byte `c` of output pixel `(x, y)`: the matching pixel of the cell's tile
/// when the cell holds a tile whose rectangle lies inside the tileset,
/// transparent otherwise.
pub open spec fn export_px(map: TileMap, cfg: TilesetConfig, tileset: RgbaBuffer, x: int, y: int, c: int) -> u8 {
    let t = cfg.tile_size as int;
    let cols = layout_of(tileset.spec_width(), tileset.spec_height(), cfg).columns as int;
    match map.cell(x / t, y / t) {
        Some(id) => {
            let o = tile_origin(id as int, cols, cfg);
            if o.0 + t <= tileset.spec_width() && o.1 + t <= tileset.spec_height() {
                px_at(tileset.bytes(), tileset.spec_width(), o.0 + x % t, o.1 + y % t, c)
            } else {
                0
            }
        },
        None => 0,
    }
}

/// What the exporter owes on a valid request: an image of `width * t` by
/// `height * t` pixels holding `export_px` everywhere.
pub open spec fn is_export_of(out: RgbaBuffer, map: TileMap, cfg: TilesetConfig, tileset: RgbaBuffer) -> bool {
    let t = cfg.tile_size as int;
    &&& out.wf()
    &&& out.spec_width() == map.spec_width() * t
    &&& out.spec_height() == map.spec_height() * t
    &&& forall|x: int, y: int, c: int|
        in_image(out.spec_width(), out.spec_height(), x, y, c) ==> #[trigger] px_at(out.bytes(), out.spec_width(), x, y, c)
            == export_px(map, cfg, tileset, x, y, c)
}

pub open spec fn export_fits(map: TileMap, cfg: TilesetConfig) -> bool {
    let w = map.spec_width() * cfg.tile_size as int;
    let h = map.spec_height() * cfg.tile_size as int;
    w <= u32::MAX && h <= u32::MAX && w * h * 4 <= usize::MAX
}

/// Whether the exported image of `map` has a size this machine can hold.
pub fn fits_export(map: &TileMap, config: &TilesetConfig) -> (r: bool)
    ensures
        r == export_fits(*map, *config),
{
    let mw = map.width() as u128;
    let mh = map.height() as u128;
    let t = config.tile_size as u128;
    assert(mw * t <= 0xffff_ffffu128 * 0xffff_ffffu128 && mh * t <= 0xffff_ffffu128 * 0xffff_ffffu128) by (nonlinear_arith)
        requires mw <= 0xffff_ffff, mh <= 0xffff_ffff, t <= 0xffff_ffff, 0 <= mw, 0 <= mh, 0 <= t;
    let w = mw * t;
    let h = mh * t;
    if w > u32::MAX as u128 || h > u32::MAX as u128 {
        return false;
    }
    assert(w * h * 4 <= 0xffff_ffffu128 * 0xffff_ffffu128 * 4) by (nonlinear_arith)
        requires w <= 0xffff_ffff, h <= 0xffff_ffff, 0 <= w, 0 <= h;
    w * h * 4 <= usize::MAX as u128
}

/// Pixel coordinate `p` lies in block `k` of `t`-pixel blocks exactly when
/// `p / t == k`, and then `p % t` is its offset in the block.
proof fn lemma_block_of(p: int, t: int, k: int)
    requires
        t > 0,
        p >= 0,
    ensures
        (k * t <= p < k * t + t) <==> p / t == k,
        p / t == k ==> p % t == p - k * t,
        p / t >= 0,
{
    lemma_fundamental_div_mod(p, t);
    lemma_div_pos_is_pos(p, t);
    if k * t <= p < k * t + t {
        lemma_fundamental_div_mod_converse(p, t, k, p - k * t);
    }
    if p / t == k {
        assert(k * t <= p < k * t + t) by (nonlinear_arith)
            requires p == t * k + p % t, 0 <= p % t < t;
    }
}

proof fn lemma_cell_of_pixel(map: TileMap, t: int, x: int, y: int)
    requires
        t > 0,
        0 <= x < map.spec_width() * t,
        0 <= y < map.spec_height() * t,
    ensures
        in_grid(map.spec_width(), map.spec_height(), x / t, y / t),
{
    lemma_block_of(x, t, x / t);
    lemma_block_of(y, t, y / t);
    assert(x / t < map.spec_width()) by (nonlinear_arith)
        requires (x / t) * t <= x, x < map.spec_width() * t, t > 0;
    assert(y / t < map.spec_height()) by (nonlinear_arith)
        requires (y / t) * t <= y, y < map.spec_height() * t, t > 0;
}

/// Flattens `map` into a new image, `tile_size` pixels per cell, starting
/// fully transparent. Each painted cell gets its tile copied verbatim from
/// the tileset; a cell whose tile rectangle would leave the tileset stays
/// transparent.
#[verifier::rlimit(50)]
pub fn export_map(map: &TileMap, config: &TilesetConfig, tileset: Option<&RgbaBuffer>) -> (r: Result<RgbaBuffer, ExportError>)
    requires
        map.wf(),
        tileset matches Some(ts) ==> ts.wf(),
        (map.spec_width() > 0 && map.spec_height() > 0 && config.tile_size > 0 && (tileset matches Some(ts)
            && layout_of(ts.spec_width(), ts.spec_height(), *config).columns > 0)) ==> export_fits(*map, *config),
    ensures
        (map.spec_width() == 0 || map.spec_height() == 0 || config.tile_size == 0) <==> r == Err::<RgbaBuffer, ExportError>(ExportError::InvalidConfiguration),
        r == Err::<RgbaBuffer, ExportError>(ExportError::NoTileset) <==> (map.spec_width() > 0 && map.spec_height() > 0 && config.tile_size > 0 && tileset is None),
        r == Err::<RgbaBuffer, ExportError>(ExportError::DegenerateAtlas) <==> (map.spec_width() > 0 && map.spec_height() > 0 && config.tile_size > 0
            && (tileset matches Some(ts) && layout_of(ts.spec_width(), ts.spec_height(), *config).columns == 0)),
        r matches Ok(out) ==> tileset matches Some(ts) && is_export_of(out, *map, *config, *ts),
{
    let w = map.width();
    let h = map.height();
    let t = config.tile_size;
    if w == 0 || h == 0 || t == 0 {
        return Err(ExportError::InvalidConfiguration);
    }
    let ts = match tileset {
        Some(ts) => ts,
        None => { return Err(ExportError::NoTileset); },
    };
    let tw = ts.width();
    let th = ts.height();
    let layout = compute_layout(tw, th, config);
    let cols = layout.columns;
    if cols == 0 {
        return Err(ExportError::DegenerateAtlas);
    }
    let out_w = (w as u64 * t as u64) as u32;
    let out_h = (h as u64 * t as u64) as u32;
    let ghost ow = out_w as int;
    let ghost oh = out_h as int;
    let ghost ti = t as int;
    proof {
        ts.lemma_len();
        assert(ow >= 1 && oh >= 1) by (nonlinear_arith)
            requires ow == w * t, oh == h * t, w >= 1, h >= 1, t >= 1;
        assert(ow * 4 <= usize::MAX) by (nonlinear_arith)
            requires ow * oh * 4 <= usize::MAX, oh >= 1, ow >= 0;
    }
    let mut out = filled_pixels(out_w, out_h, [0u8, 0, 0, 0]);
    proof {
        map.lemma_len();
        ts.lemma_len();
        assert forall|x: int, y: int, c: int| in_image(ow, oh, x, y, c) implies #[trigger] px_at(out@, ow, x, y, c)
            == (if cell_index(w as int, x / ti, y / ti) < 0 { export_px(*map, *config, *ts, x, y, c) } else { 0 }) by {
            lemma_cell_of_pixel(*map, ti, x, y);
        }
    }
    let mut cy: u32 = 0;
    while cy < h
        invariant
            map.wf(),
            ts.wf(),
            tileset == Some(ts),
            w == map.spec_width(),
            h == map.spec_height(),
            t == config.tile_size,
            ti == t,
            t > 0,
            tw == ts.spec_width(),
            th == ts.spec_height(),
            ts.bytes().len() == tw * th * 4,
            cols == layout_of(tw as int, th as int, *config).columns,
            cols > 0,
            ow == out_w,
            oh == out_h,
            ow == w * t,
            oh == h * t,
            out@.len() == ow * oh * 4,
            ow * 4 <= usize::MAX,
            tw * th * 4 <= usize::MAX,
            export_fits(*map, *config),
            cy <= h,
            forall|x: int, y: int, c: int| in_image(ow, oh, x, y, c) ==> #[trigger] px_at(out@, ow, x, y, c)
                == (if cell_index(w as int, x / ti, y / ti) < cy * w { export_px(*map, *config, *ts, x, y, c) } else { 0 }),
        decreases h - cy,
    {
        let mut cx: u32 = 0;
        while cx < w
            invariant
                map.wf(),
                ts.wf(),
                tileset == Some(ts),
                w == map.spec_width(),
                h == map.spec_height(),
                t == config.tile_size,
                ti == t,
                t > 0,
                tw == ts.spec_width(),
                th == ts.spec_height(),
                ts.bytes().len() == tw * th * 4,
                cols == layout_of(tw as int, th as int, *config).columns,
                cols > 0,
                ow == out_w,
                oh == out_h,
                ow == w * t,
                oh == h * t,
                out@.len() == ow * oh * 4,
                ow * 4 <= usize::MAX,
                tw * th * 4 <= usize::MAX,
                export_fits(*map, *config),
                cy < h,
                cx <= w,
                forall|x: int, y: int, c: int| in_image(ow, oh, x, y, c) ==> #[trigger] px_at(out@, ow, x, y, c)
                    == (if cell_index(w as int, x / ti, y / ti) < cy * w + cx { export_px(*map, *config, *ts, x, y, c) } else { 0 }),
            decreases w - cx,
        {
            let ghost k = cy * w + cx;
            let ghost before = out@;
            let cell = map.get(cx, cy);
            proof {
                assert(cx as int * ti + ti <= ow && cy as int * ti + ti <= oh) by (nonlinear_arith)
                    requires cx < w, cy < h, ow == w * ti, oh == h * ti, ti > 0;
            }
            let dx = cx * t;
            let dy = cy * t;
            let mut copied = false;
            if let Some(id) = cell {
                let (px, py) = tile_origin_wide(id, cols, config);
                if px + t as u128 <= tw as u128 && py + t as u128 <= th as u128 {
                    proof {
                        assert(tw * 4 <= usize::MAX) by (nonlinear_arith)
                            requires tw * th * 4 <= usize::MAX, th >= 1, tw >= 0;
                    }
                    copy_block(&mut out, out_w, out_h, ts.pixels(), tw, th, px as u32, py as u32, t, dx, dy);
                    copied = true;
                }
            }
            proof {
                assert forall|x: int, y: int, c: int| in_image(ow, oh, x, y, c) implies #[trigger] px_at(out@, ow, x, y, c)
                    == (if cell_index(w as int, x / ti, y / ti) < k + 1 { export_px(*map, *config, *ts, x, y, c) } else { 0 }) by {
                    lemma_cell_of_pixel(*map, ti, x, y);
                    lemma_block_of(x, ti, cx as int);
                    lemma_block_of(y, ti, cy as int);
                    let in_block = x / ti == cx && y / ti == cy;
                    if !in_block && cell_index(w as int, x / ti, y / ti) == k {
                        lemma_cell_index_injective(w as int, x / ti, y / ti, cx as int, cy as int);
                    }
                    if in_block {
                        assert(map.cell(x / ti, y / ti) == cell);
                    }
                }
            }
            cx = cx + 1;
        }
        assert((cy + 1) * w == cy * w + w) by (nonlinear_arith);
        cy = cy + 1;
    }
    proof {
        assert forall|x: int, y: int, c: int| in_image(ow, oh, x, y, c) implies #[trigger] px_at(out@, ow, x, y, c)
            == export_px(*map, *config, *ts, x, y, c) by {
            lemma_cell_of_pixel(*map, ti, x, y);
            lemma_cell_index_bounds(w as int, h as int, x / ti, y / ti);
            assert(h * w == w * h) by (nonlinear_arith);
        }
    }
    Ok(RgbaBuffer::from_parts(out_w, out_h, out))
}

/// Export and rendering agree: every pixel of a drawn quad's destination
/// square is, in the exported image, the pixel at the same offset in the
/// quad's source rectangle.
pub proof fn lemma_export_matches_quads(
    map: TileMap,
    cfg: TilesetConfig,
    tileset: RgbaBuffer,
    q: int,
    i: int,
    j: int,
    c: int,
)
    requires
        map.wf(),
        tileset.wf(),
        0 <= q < map_quads_spec(map, cfg, tileset.spec_width(), tileset.spec_height()).len(),
        0 <= i < cfg.tile_size,
        0 <= j < cfg.tile_size,
        0 <= c < 4,
    ensures
        ({
            let quad = map_quads_spec(map, cfg, tileset.spec_width(), tileset.spec_height())[q];
            export_px(map, cfg, tileset, quad.dst_x + i, quad.dst_y + j, c) == px_at(
                tileset.bytes(),
                tileset.spec_width(),
                quad.src_x + i,
                quad.src_y + j,
                c,
            )
        }),
{
    map.lemma_len();
    lemma_quads_upto_match_export(map, cfg, tileset, map.cells().len(), q, i, j, c);
}

proof fn lemma_quads_upto_match_export(
    map: TileMap,
    cfg: TilesetConfig,
    tileset: RgbaBuffer,
    n: nat,
    q: int,
    i: int,
    j: int,
    c: int,
)
    requires
        map.wf(),
        tileset.wf(),
        n <= map.cells().len(),
        0 <= q < quads_upto(map, cfg, layout_of(tileset.spec_width(), tileset.spec_height(), cfg), n).len(),
        0 <= i < cfg.tile_size,
        0 <= j < cfg.tile_size,
        0 <= c < 4,
    ensures
        ({
            let quad = quads_upto(map, cfg, layout_of(tileset.spec_width(), tileset.spec_height(), cfg), n)[q];
            export_px(map, cfg, tileset, quad.dst_x + i, quad.dst_y + j, c) == px_at(
                tileset.bytes(),
                tileset.spec_width(),
                quad.src_x + i,
                quad.src_y + j,
                c,
            )
        }),
    decreases n,
{
    let layout = layout_of(tileset.spec_width(), tileset.spec_height(), cfg);
    let prev = quads_upto(map, cfg, layout, (n - 1) as nat);
    if q < prev.len() {
        lemma_quads_upto_match_export(map, cfg, tileset, (n - 1) as nat, q, i, j, c);
    } else {
        map.lemma_len();
        tileset.lemma_len();
        let w = map.spec_width();
        let h = map.spec_height();
        let t = cfg.tile_size as int;
        let k = n - 1;
        let id = map.cells()[k]->0;
        assert(w > 0) by (nonlinear_arith)
            requires 0 <= k < w * h, 0 <= h;
        lemma_fundamental_div_mod(k, w);
        lemma_div_pos_is_pos(k, w);
        let x = k % w;
        let y = k / w;
        assert(y < h) by (nonlinear_arith)
            requires k == w * y + x, 0 <= x, k < w * h, w > 0;
        assert(cell_index(w, x, y) == k) by (nonlinear_arith)
            requires k == w * y + x;
        lemma_valid_id_inside_tileset(tileset.spec_width(), tileset.spec_height(), cfg, id as int);
        assert(0 <= x * t <= 0xffff_ffff * 0xffff_ffff && 0 <= y * t <= 0xffff_ffff * 0xffff_ffff) by (nonlinear_arith)
            requires 0 <= x < w, 0 <= y < h, w <= 0xffff_ffff, h <= 0xffff_ffff, 0 <= t <= 0xffff_ffff;
        assert(t * x + i == x * t + i && t * y + j == y * t + j) by (nonlinear_arith);
        lemma_fundamental_div_mod_converse(x * t + i, t, x, i);
        lemma_fundamental_div_mod_converse(y * t + j, t, y, j);
    }
}

} // verus!
