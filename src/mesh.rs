//! The draw batch of the map: one textured quad per painted cell whose
//! tile exists in the atlas, in row-major order.
use crate::atlas::{
    AtlasLayout, TilesetConfig, compute_layout, layout_of, lemma_valid_id_inside_tileset, tile_origin,
    tile_rect,
};
use crate::tilemap::{TileMap, lemma_cell_index_bounds};
use vstd::arithmetic::div_mod::*;
use vstd::prelude::*;

verus! {

/// One cell to draw: the source rectangle in the tileset and the
/// destination square in world pixels, both `size` pixels wide.
#[derive(Clone, Copy, Debug, PartialEq, Eq, Structural)]
pub struct TileQuad {
    pub cell_x: u32,
    pub cell_y: u32,
    pub src_x: u32,
    pub src_y: u32,
    pub dst_x: u64,
    pub dst_y: u64,
    pub size: u32,
}

pub open spec fn quad_for(cfg: TilesetConfig, layout: AtlasLayout, x: int, y: int, id: int) -> TileQuad {
    let o = tile_origin(id, layout.columns as int, cfg);
    TileQuad {
        cell_x: x as u32,
        cell_y: y as u32,
        src_x: o.0 as u32,
        src_y: o.1 as u32,
        dst_x: (x * cfg.tile_size) as u64,
        dst_y: (y * cfg.tile_size) as u64,
        size: cfg.tile_size,
    }
}

/// Whether a cell holding `id` is drawn.
pub open spec fn drawable(cfg: TilesetConfig, layout: AtlasLayout, id: int) -> bool {
    cfg.tile_size > 0 && layout.holds_id(id)
}

/// Quads of the first `n` cells in row-major order.
pub open spec fn quads_upto(map: TileMap, cfg: TilesetConfig, layout: AtlasLayout, n: nat) -> Seq<TileQuad>
    decreases n,
{
    if n == 0 {
        seq![]
    } else {
        let k = n - 1;
        let prev = quads_upto(map, cfg, layout, (n - 1) as nat);
        match map.cells()[k] {
            Some(id) => if drawable(cfg, layout, id as int) {
                prev.push(quad_for(cfg, layout, k % map.spec_width(), k / map.spec_width(), id as int))
            } else {
                prev
            },
            None => prev,
        }
    }
}

/// All quads of the map for a `tileset_width` x `tileset_height` tileset.
pub open spec fn map_quads_spec(map: TileMap, cfg: TilesetConfig, tileset_width: int, tileset_height: int) -> Seq<TileQuad> {
    quads_upto(map, cfg, layout_of(tileset_width, tileset_height, cfg), map.cells().len())
}

/// Builds the draw batch: for each non-empty cell, row by row, whose id is
/// valid for the layout of the tileset, the quad that copies that tile to
/// the cell's square. A zero tile size draws nothing.
pub fn map_quads(map: &TileMap, config: &TilesetConfig, tileset_width: u32, tileset_height: u32) -> (r: Vec<TileQuad>)
    requires
        map.wf(),
    ensures
        r@ == map_quads_spec(*map, *config, tileset_width as int, tileset_height as int),
{
    let layout = compute_layout(tileset_width, tileset_height, config);
    let w = map.width();
    let h = map.height();
    let mut out: Vec<TileQuad> = Vec::new();
    proof {
        map.lemma_len();
    }
    let mut y: u32 = 0;
    while y < h
        invariant
            map.wf(),
            layout == layout_of(tileset_width as int, tileset_height as int, *config),
            w == map.spec_width(),
            h == map.spec_height(),
            map.cells().len() == w * h,
            y <= h,
            out@ == quads_upto(*map, *config, layout, (y * w) as nat),
        decreases h - y,
    {
        let mut x: u32 = 0;
        while x < w
            invariant
                map.wf(),
                layout == layout_of(tileset_width as int, tileset_height as int, *config),
                w == map.spec_width(),
                h == map.spec_height(),
                map.cells().len() == w * h,
                y < h,
                x <= w,
                out@ == quads_upto(*map, *config, layout, (y * w + x) as nat),
            decreases w - x,
        {
            let ghost k = y * w + x;
            proof {
                lemma_cell_index_bounds(w as int, h as int, x as int, y as int);
                lemma_fundamental_div_mod_converse(k, w as int, y as int, x as int);
            }
            let ghost prev = out@;
            assert(prev == quads_upto(*map, *config, layout, k as nat));
            let cell = map.get(x, y);
            assert(cell == map.cells()[k]);
            if let Some(id) = cell {
                if config.tile_size > 0 && layout.is_valid_id(id) {
                    proof {
                        lemma_valid_id_inside_tileset(tileset_width as int, tileset_height as int, *config, id as int);
                    }
                    let rect = tile_rect(id, layout.columns, config);
                    assert(rect.x <= u32::MAX && rect.y <= u32::MAX);
                    assert(x as int * config.tile_size as int <= 0xffff_ffff * 0xffff_ffff) by (nonlinear_arith)
                        requires x <= 0xffff_ffffu32, config.tile_size <= 0xffff_ffffu32;
                    assert(y as int * config.tile_size as int <= 0xffff_ffff * 0xffff_ffff) by (nonlinear_arith)
                        requires y <= 0xffff_ffffu32, config.tile_size <= 0xffff_ffffu32;
                    let q = TileQuad {
                        cell_x: x,
                        cell_y: y,
                        src_x: rect.x as u32,
                        src_y: rect.y as u32,
                        dst_x: x as u64 * config.tile_size as u64,
                        dst_y: y as u64 * config.tile_size as u64,
                        size: config.tile_size,
                    };
                    assert(k % (w as int) == x as int);
                    assert(k / (w as int) == y as int);
                    assert(q == quad_for(*config, layout, k % (w as int), k / (w as int), id as int));
                    out.push(q);
                }
            }
            assert(out@ == quads_upto(*map, *config, layout, (k + 1) as nat));
            x = x + 1;
        }
        assert((y + 1) * w == y * w + w) by (nonlinear_arith);
        y = y + 1;
    }
    assert(h * w == w * h) by (nonlinear_arith);
    out
}

/// With no tile column in the layout, the batch is empty.
pub proof fn lemma_degenerate_atlas_draws_nothing(
    map: TileMap,
    cfg: TilesetConfig,
    tileset_width: int,
    tileset_height: int,
)
    requires
        layout_of(tileset_width, tileset_height, cfg).columns == 0,
    ensures
        map_quads_spec(map, cfg, tileset_width, tileset_height) == Seq::<TileQuad>::empty(),
{
    lemma_no_quads_upto(map, cfg, layout_of(tileset_width, tileset_height, cfg), map.cells().len());
}

proof fn lemma_no_quads_upto(map: TileMap, cfg: TilesetConfig, layout: AtlasLayout, n: nat)
    requires
        layout.columns == 0,
    ensures
        quads_upto(map, cfg, layout, n) == Seq::<TileQuad>::empty(),
    decreases n,
{
    if n > 0 {
        lemma_no_quads_upto(map, cfg, layout, (n - 1) as nat);
    }
}

} // verus!
