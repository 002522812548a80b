//! The editing session: tileset, slicing parameters, derived layout, map
//! and current selection, kept consistent with one another.
use crate::atlas::{AtlasLayout, TilesetConfig, compute_layout, layout_of};
use crate::export::{ExportError, export_fits, export_map, is_export_of};
use crate::mesh::{TileQuad, map_quads, map_quads_spec};
use crate::palette::{pick_spec, pick_tile};
use crate::pixels::RgbaBuffer;
use crate::tilemap::{TileMap, cells_after_set, in_grid};
use vstd::prelude::*;

verus! {

pub const DEFAULT_MAP_WIDTH: u32 = 64;

pub const DEFAULT_MAP_HEIGHT: u32 = 48;

pub const DEFAULT_TILE_SIZE: u32 = 32;

pub const MIN_TILE_SIZE: u32 = 4;

/// What painting writes: a tile id, or nothing.
#[derive(Clone, Copy, Debug, PartialEq, Eq, Structural)]
pub enum Selection {
    Tile(u32),
    Eraser,
}

impl Selection {
    pub open spec fn cell_value(self) -> Option<u32> {
        match self {
            Selection::Tile(id) => Some(id),
            Selection::Eraser => None,
        }
    }

    /// The cell content that painting with this selection writes.
    pub fn as_cell(&self) -> (r: Option<u32>)
        ensures
            r == self.cell_value(),
    {
        match self {
            Selection::Tile(id) => Some(*id),
            Selection::Eraser => None,
        }
    }
}

/// Layout of the loaded tileset, or of an empty image when none is loaded.
pub open spec fn layout_for(tileset: Option<RgbaBuffer>, cfg: TilesetConfig) -> AtlasLayout {
    match tileset {
        Some(ts) => layout_of(ts.spec_width(), ts.spec_height(), cfg),
        None => layout_of(0, 0, cfg),
    }
}

pub struct Editor {
    pub config: TilesetConfig,
    pub tileset: Option<RgbaBuffer>,
    pub layout: AtlasLayout,
    pub map: TileMap,
    pub selection: Selection,
    pub show_grid: bool,
}

impl Editor {
    pub open spec fn wf(&self) -> bool {
        &&& self.map.wf()
        &&& (self.tileset matches Some(ts) ==> ts.wf())
        &&& self.layout == layout_for(self.tileset, self.config)
    }

    /// A fresh session: a 64 x 48 empty map, 32-pixel tiles without margin
    /// or spacing, no tileset, the eraser selected and the grid shown.
    pub fn new() -> (r: Editor)
        ensures
            r.wf(),
            r.config == (TilesetConfig { tile_size: DEFAULT_TILE_SIZE, margin: 0, spacing: 0 }),
            r.tileset is None,
            r.map.spec_width() == DEFAULT_MAP_WIDTH,
            r.map.spec_height() == DEFAULT_MAP_HEIGHT,
            forall|x: int, y: int| in_grid(DEFAULT_MAP_WIDTH as int, DEFAULT_MAP_HEIGHT as int, x, y) ==> #[trigger] r.map.cell(x, y) is None,
            r.selection == Selection::Eraser,
            r.show_grid,
    {
        let config = TilesetConfig { tile_size: DEFAULT_TILE_SIZE, margin: 0, spacing: 0 };
        Editor {
            config,
            tileset: None,
            layout: compute_layout(0, 0, &config),
            map: TileMap::new(DEFAULT_MAP_WIDTH, DEFAULT_MAP_HEIGHT),
            selection: Selection::Eraser,
            show_grid: true,
        }
    }

    fn recompute_layout(&mut self)
        requires
            old(self).map.wf(),
            old(self).tileset matches Some(ts) ==> ts.wf(),
        ensures
            final(self).wf(),
            final(self).config == old(self).config,
            final(self).tileset == old(self).tileset,
            final(self).map == old(self).map,
            final(self).selection == old(self).selection,
            final(self).show_grid == old(self).show_grid,
    {
        let (w, h) = match &self.tileset {
            Some(ts) => (ts.width(), ts.height()),
            None => (0, 0),
        };
        self.layout = compute_layout(w, h, &self.config);
    }

    /// Replaces the tileset and recomputes the layout from it.
    pub fn load_tileset(&mut self, tileset: RgbaBuffer)
        requires
            old(self).wf(),
            tileset.wf(),
        ensures
            final(self).wf(),
            final(self).tileset == Some(tileset),
            final(self).layout == layout_of(tileset.spec_width(), tileset.spec_height(), old(self).config),
            final(self).config == old(self).config,
            final(self).map == old(self).map,
            final(self).selection == old(self).selection,
            final(self).show_grid == old(self).show_grid,
    {
        self.tileset = Some(tileset);
        self.recompute_layout();
    }

    /// Sets the tile size, raised to `MIN_TILE_SIZE` when smaller, and
    /// recomputes the layout.
    pub fn set_tile_size(&mut self, tile_size: u32)
        requires
            old(self).wf(),
        ensures
            final(self).wf(),
            final(self).config.tile_size == if tile_size < MIN_TILE_SIZE {
                MIN_TILE_SIZE
            } else {
                tile_size
            },
            final(self).config.margin == old(self).config.margin,
            final(self).config.spacing == old(self).config.spacing,
            final(self).tileset == old(self).tileset,
            final(self).map == old(self).map,
            final(self).selection == old(self).selection,
            final(self).show_grid == old(self).show_grid,
    {
        let t = if tile_size < MIN_TILE_SIZE {
            MIN_TILE_SIZE
        } else {
            tile_size
        };
        self.config.tile_size = t;
        self.recompute_layout();
    }

    /// Discards the map and starts an empty one of `width` x `height` cells.
    pub fn new_map(&mut self, width: u32, height: u32)
        requires
            old(self).wf(),
            width as int * height as int <= usize::MAX,
        ensures
            final(self).wf(),
            final(self).map.spec_width() == width,
            final(self).map.spec_height() == height,
            forall|x: int, y: int| in_grid(width as int, height as int, x, y) ==> #[trigger] final(self).map.cell(x, y) is None,
            final(self).config == old(self).config,
            final(self).tileset == old(self).tileset,
            final(self).layout == old(self).layout,
            final(self).selection == old(self).selection,
            final(self).show_grid == old(self).show_grid,
    {
        self.map = TileMap::new(width, height);
    }

    /// Selects the tile under pixel `(ix, iy)` of the tileset image; a point
    /// that hits no tile keeps the selection. A tileset with more tiles than
    /// `u32` ids can name selects nothing.
    pub fn pick_from_palette(&mut self, ix: i64, iy: i64)
        requires
            old(self).wf(),
        ensures
            final(self).wf(),
            old(self).layout.tile_count() <= u32::MAX as int + 1 ==> match pick_spec(ix as int, iy as int, old(self).layout, old(self).config) {
                Some(id) => final(self).selection == Selection::Tile(id as u32),
                None => final(self).selection == old(self).selection,
            },
            old(self).layout.tile_count() > u32::MAX as int + 1 ==> final(self).selection == old(self).selection,
            final(self).config == old(self).config,
            final(self).tileset == old(self).tileset,
            final(self).map == old(self).map,
            final(self).show_grid == old(self).show_grid,
    {
        let cols = self.layout.columns as u64;
        let rows = self.layout.rows as u64;
        assert(cols * rows <= 0xffff_ffffu64 * 0xffff_ffffu64) by (nonlinear_arith)
            requires cols <= 0xffff_ffff, rows <= 0xffff_ffff;
        if cols * rows <= 0x1_0000_0000u64 {
            if let Some(id) = pick_tile(ix, iy, &self.layout, &self.config) {
                self.selection = Selection::Tile(id);
            }
        }
    }

    pub fn select(&mut self, selection: Selection)
        ensures
            final(self).selection == selection,
            final(self).config == old(self).config,
            final(self).tileset == old(self).tileset,
            final(self).layout == old(self).layout,
            final(self).map == old(self).map,
            final(self).show_grid == old(self).show_grid,
    {
        self.selection = selection;
    }

    /// Paints cell `(x, y)` with the current selection; a cell outside the
    /// map is left alone.
    pub fn paint(&mut self, x: i64, y: i64)
        requires
            old(self).wf(),
        ensures
            final(self).wf(),
            final(self).map.spec_width() == old(self).map.spec_width(),
            final(self).map.spec_height() == old(self).map.spec_height(),
            final(self).map.cells() == cells_after_set(
                old(self).map.spec_width(),
                old(self).map.spec_height(),
                old(self).map.cells(),
                x as int,
                y as int,
                old(self).selection.cell_value(),
            ),
            final(self).config == old(self).config,
            final(self).tileset == old(self).tileset,
            final(self).layout == old(self).layout,
            final(self).selection == old(self).selection,
            final(self).show_grid == old(self).show_grid,
    {
        let v = self.selection.as_cell();
        self.map.set(x, y, v);
    }

    /// Empties cell `(x, y)` whatever is selected; a cell outside the map
    /// is left alone.
    pub fn erase(&mut self, x: i64, y: i64)
        requires
            old(self).wf(),
        ensures
            final(self).wf(),
            final(self).map.spec_width() == old(self).map.spec_width(),
            final(self).map.spec_height() == old(self).map.spec_height(),
            final(self).map.cells() == cells_after_set(
                old(self).map.spec_width(),
                old(self).map.spec_height(),
                old(self).map.cells(),
                x as int,
                y as int,
                None,
            ),
            final(self).config == old(self).config,
            final(self).tileset == old(self).tileset,
            final(self).layout == old(self).layout,
            final(self).selection == old(self).selection,
            final(self).show_grid == old(self).show_grid,
    {
        self.map.set(x, y, None);
    }

    /// The draw batch of the map; empty while no tileset is loaded.
    pub fn quads(&self) -> (r: Vec<TileQuad>)
        requires
            self.wf(),
        ensures
            self.tileset is None ==> r@.len() == 0,
            self.tileset matches Some(ts) ==> r@ == map_quads_spec(self.map, self.config, ts.spec_width(), ts.spec_height()),
    {
        match &self.tileset {
            Some(ts) => map_quads(&self.map, &self.config, ts.width(), ts.height()),
            None => Vec::new(),
        }
    }

    /// The map flattened to one image; see `export_map`.
    pub fn export(&self) -> (r: Result<RgbaBuffer, ExportError>)
        requires
            self.wf(),
            (self.map.spec_width() > 0 && self.map.spec_height() > 0 && self.config.tile_size > 0
                && self.tileset is Some && self.layout.columns > 0) ==> export_fits(self.map, self.config),
        ensures
            (self.map.spec_width() == 0 || self.map.spec_height() == 0 || self.config.tile_size == 0)
                <==> r == Err::<RgbaBuffer, ExportError>(ExportError::InvalidConfiguration),
            r == Err::<RgbaBuffer, ExportError>(ExportError::NoTileset) <==> (self.map.spec_width() > 0
                && self.map.spec_height() > 0 && self.config.tile_size > 0 && self.tileset is None),
            r == Err::<RgbaBuffer, ExportError>(ExportError::DegenerateAtlas) <==> (self.map.spec_width() > 0
                && self.map.spec_height() > 0 && self.config.tile_size > 0 && (self.tileset is Some && self.layout.columns == 0)),
            r matches Ok(out) ==> self.tileset matches Some(ts) && is_export_of(out, self.map, self.config, ts),
    {
        export_map(&self.map, &self.config, self.tileset.as_ref())
    }
}

} // verus!
