//! The map grid: a fixed-size, row-major array of optional tile ids.
use vstd::prelude::*;

verus! {

/// Row-major position of cell `(x, y)` in a grid `width` cells wide.
pub open spec fn cell_index(width: int, x: int, y: int) -> int {
    y * width + x
}

pub open spec fn in_grid(width: int, height: int, x: int, y: int) -> bool {
    0 <= x < width && 0 <= y < height
}

/// The cells after writing `v` at `(x, y)`; a position outside the grid
/// leaves them unchanged.
pub open spec fn cells_after_set(
    width: int,
    height: int,
    cells: Seq<Option<u32>>,
    x: int,
    y: int,
    v: Option<u32>,
) -> Seq<Option<u32>> {
    if in_grid(width, height, x, y) {
        cells.update(cell_index(width, x, y), v)
    } else {
        cells
    }
}

pub proof fn lemma_cell_index_bounds(width: int, height: int, x: int, y: int)
    requires
        in_grid(width, height, x, y),
    ensures
        0 <= cell_index(width, x, y) < width * height,
{
    assert(0 <= y * width + x < width * height) by (nonlinear_arith)
        requires 0 <= x < width, 0 <= y < height;
}

pub proof fn lemma_cell_index_injective(width: int, x1: int, y1: int, x2: int, y2: int)
    requires
        0 <= x1 < width,
        0 <= x2 < width,
        0 <= y1,
        0 <= y2,
        cell_index(width, x1, y1) == cell_index(width, x2, y2),
    ensures
        x1 == x2 && y1 == y2,
{
    assert(y1 == y2) by (nonlinear_arith)
        requires 0 <= x1 < width, 0 <= x2 < width, 0 <= y1, 0 <= y2,
            y1 * width + x1 == y2 * width + x2;
}

/// A `width` x `height` grid of cells, each empty or holding a raw tile id.
/// Ids are not checked against any atlas.
#[derive(Clone, Debug)]
pub struct TileMap {
    width: u32,
    height: u32,
    cells: Vec<Option<u32>>,
}

impl TileMap {
    pub closed spec fn spec_width(&self) -> int {
        self.width as int
    }

    pub closed spec fn spec_height(&self) -> int {
        self.height as int
    }

    pub closed spec fn cells(&self) -> Seq<Option<u32>> {
        self.cells@
    }

    pub closed spec fn wf(&self) -> bool {
        &&& self.cells@.len() == self.width as int * self.height as int
        &&& self.width as int * self.height as int <= usize::MAX
    }

    /// Content of cell `(x, y)`.
    pub open spec fn cell(&self, x: int, y: int) -> Option<u32> {
        self.cells()[cell_index(self.spec_width(), x, y)]
    }

    pub proof fn lemma_len(&self)
        requires
            self.wf(),
        ensures
            self.cells().len() == self.spec_width() * self.spec_height(),
            0 <= self.spec_width() <= u32::MAX,
            0 <= self.spec_height() <= u32::MAX,
    {
    }

    /// A map with every cell empty.
    pub fn new(width: u32, height: u32) -> (r: TileMap)
        requires
            width as int * height as int <= usize::MAX,
        ensures
            r.wf(),
            r.spec_width() == width,
            r.spec_height() == height,
            forall|x: int, y: int| in_grid(width as int, height as int, x, y) ==> #[trigger] r.cell(x, y) is None,
    {
        let n = width as usize * height as usize;
        let mut cells: Vec<Option<u32>> = Vec::with_capacity(n);
        let mut i: usize = 0;
        while i < n
            invariant
                i <= n,
                cells@.len() == i,
                forall|k: int| 0 <= k < i ==> cells@[k] is None,
            decreases n - i,
        {
            cells.push(None);
            i = i + 1;
        }
        let r = TileMap { width, height, cells };
        assert forall|x: int, y: int| in_grid(width as int, height as int, x, y) implies #[trigger] r.cell(x, y) is None by {
            lemma_cell_index_bounds(width as int, height as int, x, y);
        }
        r
    }

    pub fn width(&self) -> (r: u32)
        ensures
            r == self.spec_width(),
    {
        self.width
    }

    pub fn height(&self) -> (r: u32)
        ensures
            r == self.spec_height(),
    {
        self.height
    }

    /// Content of cell `(x, y)`; `None` also outside the grid.
    pub fn get(&self, x: u32, y: u32) -> (r: Option<u32>)
        requires
            self.wf(),
        ensures
            in_grid(self.spec_width(), self.spec_height(), x as int, y as int) ==> r == self.cell(x as int, y as int),
            !in_grid(self.spec_width(), self.spec_height(), x as int, y as int) ==> r is None,
    {
        if x < self.width && y < self.height {
            proof {
                lemma_cell_index_bounds(self.width as int, self.height as int, x as int, y as int);
                assert(y as int * self.width as int <= cell_index(self.width as int, x as int, y as int));
            }
            self.cells[y as usize * self.width as usize + x as usize]
        } else {
            None
        }
    }

    /// Writes `v` at `(x, y)`; does nothing outside the grid.
    pub fn set(&mut self, x: i64, y: i64, v: Option<u32>)
        requires
            old(self).wf(),
        ensures
            final(self).wf(),
            final(self).spec_width() == old(self).spec_width(),
            final(self).spec_height() == old(self).spec_height(),
            final(self).cells() == cells_after_set(
                old(self).spec_width(),
                old(self).spec_height(),
                old(self).cells(),
                x as int,
                y as int,
                v,
            ),
    {
        if 0 <= x && 0 <= y && x < self.width as i64 && y < self.height as i64 {
            proof {
                lemma_cell_index_bounds(self.width as int, self.height as int, x as int, y as int);
                assert(y as int * self.width as int <= cell_index(self.width as int, x as int, y as int));
            }
            let i = y as usize * self.width as usize + x as usize;
            self.cells.set(i, v);
        }
    }
}

/// Writing a cell touches that cell alone.
pub proof fn lemma_set_cell_effect(map: TileMap, x: int, y: int, v: Option<u32>, qx: int, qy: int)
    requires
        map.wf(),
        in_grid(map.spec_width(), map.spec_height(), qx, qy),
    ensures
        cells_after_set(map.spec_width(), map.spec_height(), map.cells(), x, y, v)[cell_index(
            map.spec_width(),
            qx,
            qy,
        )] == if qx == x && qy == y {
            v
        } else {
            map.cell(qx, qy)
        },
{
    lemma_cell_index_bounds(map.spec_width(), map.spec_height(), qx, qy);
    if in_grid(map.spec_width(), map.spec_height(), x, y) {
        lemma_cell_index_bounds(map.spec_width(), map.spec_height(), x, y);
    }
    if in_grid(map.spec_width(), map.spec_height(), x, y) && !(qx == x && qy == y) {
        if cell_index(map.spec_width(), x, y) == cell_index(map.spec_width(), qx, qy) {
            lemma_cell_index_injective(map.spec_width(), x, y, qx, qy);
        }
    }
}

/// Painting a cell twice with the same value leaves the map as painting it
/// once.
pub proof fn lemma_paint_idempotent(
    width: int,
    height: int,
    cells: Seq<Option<u32>>,
    x: int,
    y: int,
    v: Option<u32>,
)
    requires
        cells.len() == width * height,
    ensures
        cells_after_set(width, height, cells_after_set(width, height, cells, x, y, v), x, y, v)
            == cells_after_set(width, height, cells, x, y, v),
{
    if in_grid(width, height, x, y) {
        lemma_cell_index_bounds(width, height, x, y);
    }
    assert(cells_after_set(width, height, cells_after_set(width, height, cells, x, y, v), x, y, v)
        =~= cells_after_set(width, height, cells, x, y, v));
}

/// Erasing a cell that is already empty changes nothing.
pub proof fn lemma_erase_empty_is_noop(map: TileMap, x: int, y: int)
    requires
        map.wf(),
        in_grid(map.spec_width(), map.spec_height(), x, y) ==> map.cell(x, y) is None,
    ensures
        cells_after_set(map.spec_width(), map.spec_height(), map.cells(), x, y, None) == map.cells(),
{
    if in_grid(map.spec_width(), map.spec_height(), x, y) {
        lemma_cell_index_bounds(map.spec_width(), map.spec_height(), x, y);
        assert(map.cells().update(cell_index(map.spec_width(), x, y), None) =~= map.cells());
    }
}

/// A position on or past the right or bottom edge, or left of or above
/// the origin, never changes the map.
pub proof fn lemma_paint_outside_is_noop(map: TileMap, x: int, y: int, v: Option<u32>)
    requires
        x < 0 || y < 0 || x >= map.spec_width() || y >= map.spec_height(),
    ensures
        cells_after_set(map.spec_width(), map.spec_height(), map.cells(), x, y, v) == map.cells(),
{
}

} // verus!
