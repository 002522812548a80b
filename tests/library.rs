use tilemap_editor::atlas::{axis_tiles, compute_layout, tile_rect, AtlasLayout, TilesetConfig};
use tilemap_editor::editor::{Editor, Selection};
use tilemap_editor::export::{export_map, fits_export, ExportError};
use tilemap_editor::grid::grid_lines;
use tilemap_editor::mesh::map_quads;
use tilemap_editor::palette::{palette_lines, pick_tile};
use tilemap_editor::pixels::RgbaBuffer;
use tilemap_editor::tilemap::TileMap;

fn cfg(tile_size: u32, margin: u32, spacing: u32) -> TilesetConfig {
    TilesetConfig { tile_size, margin, spacing }
}

/// A `w` x `h` image whose pixel (x, y) is (x, y, 7, 255).
fn gradient(w: u32, h: u32) -> RgbaBuffer {
    let mut v = Vec::new();
    for y in 0..h {
        for x in 0..w {
            v.extend_from_slice(&[x as u8, y as u8, 7, 255]);
        }
    }
    RgbaBuffer::from_raw(w, h, v).unwrap()
}

#[test]
fn layout_with_margin_and_spacing() {
    let l = compute_layout(130, 64, &cfg(32, 1, 2));
    assert_eq!(l.columns, 3);
    assert_eq!(axis_tiles(130, &cfg(32, 1, 2)), 3);
}

#[test]
fn layout_single_tile() {
    let l = compute_layout(64, 64, &cfg(64, 0, 0));
    assert_eq!(l, AtlasLayout { columns: 1, rows: 1 });
}

#[test]
fn layout_zero_tile_size_is_empty() {
    assert_eq!(compute_layout(64, 64, &cfg(0, 0, 0)), AtlasLayout { columns: 0, rows: 0 });
}

#[test]
fn tile_rect_wraps_rows() {
    let r = tile_rect(5, 4, &cfg(16, 0, 0));
    assert_eq!((r.x, r.y, r.size), (16, 16, 16));
}

#[test]
fn tile_rect_honours_margin_and_spacing() {
    let r = tile_rect(4, 3, &cfg(32, 1, 2));
    assert_eq!((r.x, r.y), (1 + 34, 1 + 34));
}

#[test]
fn paint_twice_equals_paint_once() {
    let mut once = TileMap::new(3, 2);
    once.set(1, 1, Some(7));
    let mut twice = once.clone();
    twice.set(1, 1, Some(7));
    for y in 0..2 {
        for x in 0..3 {
            assert_eq!(once.get(x, y), twice.get(x, y));
        }
    }
    assert_eq!(twice.get(1, 1), Some(7));
    assert_eq!(twice.get(0, 1), None);
}

#[test]
fn erase_empty_cell_is_noop() {
    let mut m = TileMap::new(2, 2);
    m.set(0, 0, Some(3));
    m.set(1, 1, None);
    assert_eq!(m.get(0, 0), Some(3));
    assert_eq!(m.get(1, 1), None);
    assert_eq!(m.get(1, 0), None);
}

#[test]
fn paint_on_right_edge_is_ignored() {
    let mut m = TileMap::new(4, 3);
    m.set(4, 0, Some(1));
    m.set(0, 3, Some(1));
    m.set(-1, 0, Some(1));
    m.set(0, -1, Some(1));
    for y in 0..3 {
        for x in 0..4 {
            assert_eq!(m.get(x, y), None);
        }
    }
    m.set(3, 2, Some(1));
    assert_eq!(m.get(3, 2), Some(1));
}

#[test]
fn editor_paint_with_selection_and_eraser() {
    let mut e = Editor::new();
    e.select(Selection::Tile(9));
    e.paint(63, 47);
    e.paint(64, 0);
    assert_eq!(e.map.get(63, 47), Some(9));
    e.erase(63, 47);
    assert_eq!(e.map.get(63, 47), None);
    e.paint(0, 0);
    e.select(Selection::Eraser);
    e.paint(0, 0);
    assert_eq!(e.map.get(0, 0), None);
}

#[test]
fn export_two_cells_one_empty() {
    let ts = gradient(32, 16);
    let mut m = TileMap::new(2, 1);
    m.set(0, 0, Some(0));
    let out = export_map(&m, &cfg(16, 0, 0), Some(&ts)).unwrap();
    assert_eq!((out.width(), out.height()), (32, 16));
    for y in 0..16 {
        for x in 0..16 {
            for c in 0..4 {
                assert_eq!(out.channel(x, y, c), ts.channel(x, y, c));
                assert_eq!(out.channel(x + 16, y, c), 0);
            }
        }
    }
}

#[test]
fn export_copies_second_tile_to_second_cell() {
    let ts = gradient(32, 16);
    let mut m = TileMap::new(2, 1);
    m.set(1, 0, Some(1));
    m.set(0, 0, Some(2));
    let out = export_map(&m, &cfg(16, 0, 0), Some(&ts)).unwrap();
    assert_eq!(out.channel(16, 0, 0), 16);
    assert_eq!(out.channel(31, 15, 0), 31);
    assert_eq!(out.channel(31, 15, 1), 15);
    // id 2 lies past the tileset: its cell stays transparent
    assert_eq!(out.channel(0, 0, 3), 0);
}

#[test]
fn export_errors() {
    let ts = gradient(32, 16);
    let empty = TileMap::new(0, 4);
    assert_eq!(export_map(&empty, &cfg(16, 0, 0), Some(&ts)).unwrap_err(), ExportError::InvalidConfiguration);
    let m = TileMap::new(2, 2);
    assert_eq!(export_map(&m, &cfg(0, 0, 0), Some(&ts)).unwrap_err(), ExportError::InvalidConfiguration);
    assert_eq!(export_map(&m, &cfg(16, 0, 0), None).unwrap_err(), ExportError::NoTileset);
    assert_eq!(export_map(&m, &cfg(64, 0, 0), Some(&ts)).unwrap_err(), ExportError::DegenerateAtlas);
}

#[test]
fn degenerate_atlas_picks_and_draws_nothing() {
    let c = cfg(16, 2, 0);
    let l = compute_layout(10, 40, &c);
    assert_eq!(l.columns, 0);
    assert_eq!(pick_tile(3, 3, &l, &c), None);
    let mut m = TileMap::new(2, 2);
    m.set(0, 0, Some(0));
    assert!(map_quads(&m, &c, 10, 40).is_empty());
}

#[test]
fn pick_with_margin_and_spacing() {
    let c = cfg(32, 1, 2);
    let l = compute_layout(130, 130, &c);
    assert_eq!(pick_tile(0, 5, &l, &c), None);
    assert_eq!(pick_tile(1, 1, &l, &c), Some(0));
    assert_eq!(pick_tile(35, 1, &l, &c), Some(1));
    assert_eq!(pick_tile(40, 70, &l, &c), Some(7));
    assert_eq!(pick_tile(103, 1, &l, &c), None);
    assert_eq!(pick_tile(-5, 1, &l, &c), None);
}

#[test]
fn quads_follow_row_major_order_and_skip_invalid_ids() {
    let c = cfg(16, 0, 0);
    let mut m = TileMap::new(3, 2);
    m.set(2, 0, Some(3));
    m.set(0, 1, Some(1));
    m.set(1, 1, Some(8));
    let q = map_quads(&m, &c, 32, 32);
    assert_eq!(q.len(), 2);
    assert_eq!((q[0].cell_x, q[0].cell_y, q[0].src_x, q[0].src_y, q[0].dst_x, q[0].dst_y), (2, 0, 16, 16, 32, 0));
    assert_eq!((q[1].cell_x, q[1].cell_y, q[1].src_x, q[1].src_y, q[1].dst_x, q[1].dst_y), (0, 1, 16, 0, 0, 16));
}

#[test]
fn grid_lines_widen_by_one_tile() {
    assert_eq!(grid_lines(0, 2, 16), vec![-16, 0, 16, 32, 48]);
    assert_eq!(grid_lines(-3, -3, 10), vec![-40, -30, -20]);
}

#[test]
fn editor_defaults_and_tile_size_clamp() {
    let mut e = Editor::new();
    assert_eq!((e.map.width(), e.map.height()), (64, 48));
    assert_eq!(e.config.tile_size, 32);
    assert_eq!(e.selection, Selection::Eraser);
    assert!(e.show_grid);
    e.set_tile_size(1);
    assert_eq!(e.config.tile_size, 4);
    e.set_tile_size(1000);
    assert_eq!(e.config.tile_size, 1000);
}

#[test]
fn editor_load_pick_and_export() {
    let mut e = Editor::new();
    assert_eq!(e.export().unwrap_err(), ExportError::NoTileset);
    e.set_tile_size(16);
    e.load_tileset(gradient(32, 16));
    assert_eq!(e.layout, AtlasLayout { columns: 2, rows: 1 });
    e.pick_from_palette(20, 3);
    assert_eq!(e.selection, Selection::Tile(1));
    e.pick_from_palette(40, 3);
    assert_eq!(e.selection, Selection::Tile(1));
    e.new_map(1, 1);
    e.paint(0, 0);
    assert_eq!(e.quads().len(), 1);
    assert!(fits_export(&e.map, &e.config));
    let out = e.export().unwrap();
    assert_eq!(out.channel(0, 0, 0), 16);
}

#[test]
fn buffer_rejects_wrong_length() {
    assert!(RgbaBuffer::from_raw(2, 2, vec![0; 15]).is_none());
    assert!(RgbaBuffer::from_raw(2, 2, vec![0; 16]).is_some());
}

#[test]
fn export_agrees_with_quads() {
    let c = cfg(8, 1, 2);
    let ts = gradient(40, 30);
    let mut m = TileMap::new(3, 2);
    m.set(0, 0, Some(4));
    m.set(2, 1, Some(1));
    m.set(1, 0, Some(0));
    let quads = map_quads(&m, &c, 40, 30);
    assert_eq!(quads.len(), 3);
    let out = export_map(&m, &c, Some(&ts)).unwrap();
    for q in &quads {
        for j in 0..8u32 {
            for i in 0..8u32 {
                for ch in 0..4 {
                    assert_eq!(
                        out.channel(q.dst_x as u32 + i, q.dst_y as u32 + j, ch),
                        ts.channel(q.src_x + i, q.src_y + j, ch)
                    );
                }
            }
        }
    }
    assert_eq!((quads[0].src_x, quads[0].src_y), (1, 11));
}

#[test]
fn palette_lines_follow_tile_edges() {
    assert_eq!(palette_lines(130, &cfg(32, 1, 2)), vec![1, 35, 69, 103]);
    assert_eq!(palette_lines(10, &cfg(16, 0, 0)), vec![0]);
}

#[test]
fn export_of_empty_but_huge_map_is_invalid() {
    let m = TileMap::new(0, u32::MAX);
    assert_eq!(export_map(&m, &cfg(2, 0, 0), None).unwrap_err(), ExportError::InvalidConfiguration);
}
