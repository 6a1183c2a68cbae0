//! The grid partitioner: cuts a viewport into square cells of a fixed size.
//!
//! Pixel coordinates are counted in half pixels from the centre of the
//! viewport, so that the centre of a viewport of odd width and the origin of a
//! grid with an even number of cells are whole numbers.

use crate::viewport::ViewportSize;
use vstd::arithmetic::div_mod::lemma_fundamental_div_mod_converse;
use vstd::prelude::*;

verus! {

/// The edge of a cell in pixels, where the host does not choose another.
pub const CELL_SIZE: u32 = 256;

/// The number of placeholder colours.
pub const PALETTE_SIZE: u32 = 6;

/// A point of the viewport, in half pixels from its centre.
#[derive(Clone, Copy, Debug, PartialEq, Eq, Structural)]
pub struct PixelPoint {
    pub x: i64,
    pub y: i64,
}

/// One tile of the grid: its index, the corners of its bounding box and the
/// index of its placeholder colour.
#[derive(Clone, Copy, Debug, PartialEq, Eq, Structural)]
pub struct Cell {
    pub x: u32,
    pub y: u32,
    pub min: PixelPoint,
    pub max: PixelPoint,
    pub color_index: u32,
}

/// The partition of one viewport: how many cells there are along each axis and
/// where the first one starts. A grid is a function of the viewport and the
/// cell size, see [`Grid::spec_partition`].
#[derive(Clone, Copy, Debug, PartialEq, Eq, Structural)]
pub struct Grid {
    pub viewport: ViewportSize,
    pub cell_size: u32,
    pub cells_x: u32,
    pub cells_y: u32,
    pub origin: PixelPoint,
}

/// The number of cells of edge `cell_size` that it takes to cover `extent`
/// pixels: `extent / cell_size`, rounded up. A cell size of zero is
/// malformed and gives no cell.
pub open spec fn cells_along(extent: u32, cell_size: u32) -> int {
    if cell_size == 0 {
        0
    } else if extent % cell_size == 0 {
        extent as int / cell_size as int
    } else {
        extent as int / cell_size as int + 1
    }
}

/// Where the first cell of an axis starts, in half pixels:
/// `cell_size * (-0.5 * cells + 0.5)` pixels.
pub open spec fn origin_along(cells: int, cell_size: u32) -> int {
    cell_size * (1 - cells)
}

/// Where cell `index` of an axis starts, in half pixels.
pub open spec fn cell_start(origin: int, cell_size: u32, index: int) -> int {
    origin + 2 * cell_size * index
}

/// The index of the placeholder colour of cell `(x, y)`.
pub open spec fn color_index_of(x: u32, y: u32, cells_x: u32) -> int {
    (x + cells_x * y) % (PALETTE_SIZE as int)
}

/// `cells_along` is the ceiling of the quotient: the least number of cells
/// that covers the extent. A viewport with an extent has at least one cell.
pub proof fn lemma_cells_along_is_ceiling(extent: u32, cell_size: u32)
    requires
        cell_size > 0,
    ensures
        (cells_along(extent, cell_size) - 1) * cell_size < extent <= cells_along(extent, cell_size)
            * cell_size,
        extent > 0 ==> cells_along(extent, cell_size) >= 1,
        0 <= cells_along(extent, cell_size) <= extent,
{
    let q = extent as int / cell_size as int;
    let r = extent as int % cell_size as int;
    assert(extent == q * cell_size + r && 0 <= r < cell_size && 0 <= q <= extent)
        by (nonlinear_arith)
        requires
            cell_size > 0,
            extent >= 0,
            q == extent as int / cell_size as int,
            r == extent as int % cell_size as int,
    ;
    assert((q + 1) * cell_size == q * cell_size + cell_size) by (nonlinear_arith);
    assert((q - 1) * cell_size == q * cell_size - cell_size) by (nonlinear_arith);
    assert(q * cell_size >= q && (q * cell_size > 0 ==> q >= 1)) by (nonlinear_arith)
        requires
            cell_size >= 1,
            q >= 0,
    ;
}

proof fn lemma_origin_bounds(extent: u32, cell_size: u32)
    ensures
        -0x1_0000_0000 < origin_along(cells_along(extent, cell_size), cell_size) < 0x1_0000_0000,
{
    let n = cells_along(extent, cell_size);
    if cell_size > 0 {
        lemma_cells_along_is_ceiling(extent, cell_size);
        assert(cell_size * (1 - n) == -((n - 1) * cell_size)) by (nonlinear_arith);
    } else {
        assert(cell_size * (1 - n) == 0) by (nonlinear_arith)
            requires
                cell_size == 0,
        ;
    }
}

impl Cell {
    /// Whether the point lies in the cell's bounding box, which holds its
    /// lower edges and not its upper ones.
    pub open spec fn contains(self, p: PixelPoint) -> bool {
        self.min.x <= p.x < self.max.x && self.min.y <= p.y < self.max.y
    }
}

impl Grid {
    /// The grid of a viewport.
    pub open spec fn spec_partition(viewport: ViewportSize, cell_size: u32) -> Grid {
        let cells_x = cells_along(viewport.width, cell_size);
        let cells_y = cells_along(viewport.height, cell_size);
        Grid {
            viewport,
            cell_size,
            cells_x: cells_x as u32,
            cells_y: cells_y as u32,
            origin: PixelPoint {
                x: origin_along(cells_x, cell_size) as i64,
                y: origin_along(cells_y, cell_size) as i64,
            },
        }
    }

    /// A grid is well formed when it is the partition of its viewport.
    pub open spec fn wf(self) -> bool {
        self == Grid::spec_partition(self.viewport, self.cell_size)
    }

    /// The number of cells.
    pub open spec fn spec_cell_count(self) -> int {
        self.cells_x * self.cells_y
    }

    /// The cell with index `(x, y)`.
    pub open spec fn spec_cell(self, x: u32, y: u32) -> Cell {
        Cell {
            x,
            y,
            min: PixelPoint {
                x: cell_start(self.origin.x as int, self.cell_size, x as int) as i64,
                y: cell_start(self.origin.y as int, self.cell_size, y as int) as i64,
            },
            max: PixelPoint {
                x: cell_start(self.origin.x as int, self.cell_size, x + 1) as i64,
                y: cell_start(self.origin.y as int, self.cell_size, y + 1) as i64,
            },
            color_index: color_index_of(x, y, self.cells_x) as u32,
        }
    }

    /// The cell at position `k` of the grid's order: columns one after the
    /// other, each from its first row to its last.
    pub open spec fn spec_cell_at(self, k: int) -> Cell {
        self.spec_cell((k / self.cells_y as int) as u32, (k % self.cells_y as int) as u32)
    }

    /// All cells, in the grid's order.
    pub open spec fn spec_cells(self) -> Seq<Cell> {
        Seq::new(self.spec_cell_count() as nat, |k: int| self.spec_cell_at(k))
    }

    /// Whether the point lies in the rectangle that the grid spans: from the
    /// origin to `cells * cell_size` pixels further along each axis.
    pub open spec fn covers(self, p: PixelPoint) -> bool {
        &&& self.origin.x <= p.x < cell_start(
            self.origin.x as int,
            self.cell_size,
            self.cells_x as int,
        )
        &&& self.origin.y <= p.y < cell_start(
            self.origin.y as int,
            self.cell_size,
            self.cells_y as int,
        )
    }

    /// The column that holds the points with horizontal coordinate `px`.
    pub open spec fn column_of(self, px: int) -> int {
        (px - self.origin.x) / (2 * self.cell_size)
    }

    /// The row that holds the points with vertical coordinate `py`.
    pub open spec fn row_of(self, py: int) -> int {
        (py - self.origin.y) / (2 * self.cell_size)
    }

    /// What a well-formed grid holds: the cell counts are the ceilings of the
    /// quotients, and every corner of a cell fits its coordinate type.
    pub proof fn lemma_wf_bounds(self)
        requires
            self.wf(),
        ensures
            self.cells_x == cells_along(self.viewport.width, self.cell_size),
            self.cells_y == cells_along(self.viewport.height, self.cell_size),
            self.origin.x == origin_along(self.cells_x as int, self.cell_size),
            self.origin.y == origin_along(self.cells_y as int, self.cell_size),
            -0x1_0000_0000 < self.origin.x < 0x1_0000_0000,
            -0x1_0000_0000 < self.origin.y < 0x1_0000_0000,
            forall|i: int|
                0 <= i <= self.cells_x ==> self.origin.x <= #[trigger] cell_start(
                    self.origin.x as int,
                    self.cell_size,
                    i,
                ) < 0x3_0000_0000,
            forall|i: int|
                0 <= i <= self.cells_y ==> self.origin.y <= #[trigger] cell_start(
                    self.origin.y as int,
                    self.cell_size,
                    i,
                ) < 0x3_0000_0000,
            self.viewport.is_degenerate() || self.cell_size == 0 ==> self.spec_cell_count() == 0,
    {
        let c = self.cell_size;
        let nx = cells_along(self.viewport.width, c);
        let ny = cells_along(self.viewport.height, c);
        lemma_origin_bounds(self.viewport.width, c);
        lemma_origin_bounds(self.viewport.height, c);
        if c > 0 {
            lemma_cells_along_is_ceiling(self.viewport.width, c);
            lemma_cells_along_is_ceiling(self.viewport.height, c);
        }
        assert forall|i: int| 0 <= i <= self.cells_x implies self.origin.x <= #[trigger] cell_start(
            self.origin.x as int,
            c,
            i,
        ) < 0x3_0000_0000 by {
            lemma_axis_bounds(self.viewport.width, c, i);
        }
        assert forall|i: int| 0 <= i <= self.cells_y implies self.origin.y <= #[trigger] cell_start(
            self.origin.y as int,
            c,
            i,
        ) < 0x3_0000_0000 by {
            lemma_axis_bounds(self.viewport.height, c, i);
        }
        assert(self.viewport.is_degenerate() || c == 0 ==> self.cells_x * self.cells_y == 0)
            by (nonlinear_arith)
            requires
                self.viewport.is_degenerate() || c == 0 ==> self.cells_x == 0 || self.cells_y == 0,
        ;
    }
}

fn count_along(extent: u32, cell_size: u32) -> (n: u32)
    ensures
        n == cells_along(extent, cell_size),
{
    if cell_size == 0 {
        0
    } else {
        proof {
            lemma_cells_along_is_ceiling(extent, cell_size);
        }
        let q: u32 = extent / cell_size;
        if extent % cell_size == 0 {
            q
        } else {
            q + 1
        }
    }
}

fn origin_of(extent: u32, cells: u32, cell_size: u32) -> (origin: i64)
    requires
        cells == cells_along(extent, cell_size),
    ensures
        origin == origin_along(cells as int, cell_size),
{
    proof {
        lemma_origin_bounds(extent, cell_size);
    }
    (cell_size as i64) * (1 - cells as i64)
}

impl Grid {
    /// Cuts the viewport into cells of edge `cell_size`. There are as many
    /// cells along an axis as it takes to cover it, so a viewport without
    /// area, as a cell size of zero, gives a grid without cells.
    pub fn partition(viewport: ViewportSize, cell_size: u32) -> (grid: Grid)
        ensures
            grid == Grid::spec_partition(viewport, cell_size),
            grid.wf(),
    {
        let cells_x: u32 = count_along(viewport.width, cell_size);
        let cells_y: u32 = count_along(viewport.height, cell_size);
        let origin = PixelPoint {
            x: origin_of(viewport.width, cells_x, cell_size),
            y: origin_of(viewport.height, cells_y, cell_size),
        };
        Grid { viewport, cell_size, cells_x, cells_y, origin }
    }

    /// The number of cells.
    pub fn cell_count(&self) -> (n: u64)
        ensures
            n == self.spec_cell_count(),
    {
        assert(self.cells_x * self.cells_y <= 0xffff_ffff * 0xffff_ffff) by (nonlinear_arith)
            requires
                self.cells_x <= 0xffff_ffff,
                self.cells_y <= 0xffff_ffff,
        ;
        (self.cells_x as u64) * (self.cells_y as u64)
    }

    fn start_of(origin: i64, cell_size: u32, index: u32) -> (start: i64)
        requires
            -0x1_0000_0000 < origin,
            origin <= cell_start(origin as int, cell_size, index as int) < 0x3_0000_0000,
        ensures
            start == cell_start(origin as int, cell_size, index as int),
    {
        let step: i64 = 2 * (cell_size as i64);
        origin + step * (index as i64)
    }

    fn color_index(&self, x: u32, y: u32) -> (index: u32)
        ensures
            index == color_index_of(x, y, self.cells_x),
            index < PALETTE_SIZE,
    {
        assert(self.cells_x * y <= 0xffff_ffff * 0xffff_ffff) by (nonlinear_arith)
            requires
                self.cells_x <= 0xffff_ffff,
                y <= 0xffff_ffff,
        ;
        let sum: u64 = x as u64 + (self.cells_x as u64) * (y as u64);
        (sum % (PALETTE_SIZE as u64)) as u32
    }

    /// The cell with index `(x, y)`, if the grid has one.
    pub fn cell(&self, x: u32, y: u32) -> (cell: Option<Cell>)
        requires
            self.wf(),
        ensures
            cell == if x < self.cells_x && y < self.cells_y {
                Some(self.spec_cell(x, y))
            } else {
                None
            },
    {
        if x < self.cells_x && y < self.cells_y {
            proof {
                self.lemma_wf_bounds();
            }
            Some(
                Cell {
                    x,
                    y,
                    min: PixelPoint {
                        x: Grid::start_of(self.origin.x, self.cell_size, x),
                        y: Grid::start_of(self.origin.y, self.cell_size, y),
                    },
                    max: PixelPoint {
                        x: Grid::start_of(self.origin.x, self.cell_size, x + 1),
                        y: Grid::start_of(self.origin.y, self.cell_size, y + 1),
                    },
                    color_index: self.color_index(x, y),
                },
            )
        } else {
            None
        }
    }

    /// The cell at position `k` of the grid's order, if the grid has one.
    pub fn cell_at(&self, k: u64) -> (cell: Option<Cell>)
        requires
            self.wf(),
        ensures
            cell == if k < self.spec_cell_count() {
                Some(self.spec_cell_at(k as int))
            } else {
                None
            },
    {
        if self.cells_y == 0 {
            assert(self.cells_x * self.cells_y == 0) by (nonlinear_arith)
                requires
                    self.cells_y == 0,
            ;
            return None;
        }
        let column: u64 = k / (self.cells_y as u64);
        let row: u64 = k % (self.cells_y as u64);
        proof {
            let n = self.cells_y as int;
            let ki = k as int;
            assert(ki == n * (ki / n) + ki % n && 0 <= ki % n < n && 0 <= ki / n)
                by (nonlinear_arith)
                requires
                    n > 0,
                    ki >= 0,
            ;
            assert(column < self.cells_x <==> k < self.cells_x * n) by (nonlinear_arith)
                requires
                    k == n * column + row,
                    0 <= row < n,
                    column >= 0,
                    self.cells_x >= 0,
            ;
        }
        if column >= self.cells_x as u64 {
            return None;
        }
        self.cell(column as u32, row as u32)
    }

    /// All cells of the grid, column by column.
    pub fn cells(&self) -> (cells: Vec<Cell>)
        requires
            self.wf(),
        ensures
            cells@ == self.spec_cells(),
    {
        let mut cells: Vec<Cell> = Vec::new();
        let mut x: u32 = 0;
        while x < self.cells_x
            invariant
                self.wf(),
                x <= self.cells_x,
                cells@.len() == x * self.cells_y,
                forall|k: int| 0 <= k < cells@.len() ==> cells@[k] == self.spec_cell_at(k),
            decreases self.cells_x - x,
        {
            let mut y: u32 = 0;
            while y < self.cells_y
                invariant
                    self.wf(),
                    x < self.cells_x,
                    y <= self.cells_y,
                    cells@.len() == x * self.cells_y + y,
                    forall|k: int| 0 <= k < cells@.len() ==> cells@[k] == self.spec_cell_at(k),
                decreases self.cells_y - y,
            {
                let cell = self.cell(x, y).unwrap();
                proof {
                    lemma_fundamental_div_mod_converse(
                        x * self.cells_y + y,
                        self.cells_y as int,
                        x as int,
                        y as int,
                    );
                }
                cells.push(cell);
                y = y + 1;
            }
            assert((x + 1) * self.cells_y == x * self.cells_y + self.cells_y)
                by (nonlinear_arith);
            x = x + 1;
        }
        cells
    }
}

/// A point lies between the start of cell `index` and the start of the next
/// one exactly when `index` is the quotient of its offset by the cell's edge.
proof fn lemma_axis_cell(origin: int, cell_size: u32, index: int, p: int)
    requires
        cell_size > 0,
    ensures
        cell_start(origin, cell_size, index) <= p < cell_start(origin, cell_size, index + 1) <==> (p
            - origin) / (2 * cell_size) == index,
{
    let d = 2 * cell_size;
    let t = p - origin;
    assert(2 * cell_size * index == index * d && 2 * cell_size * (index + 1) == index * d + d)
        by (nonlinear_arith)
        requires
            d == 2 * cell_size,
    ;
    if index * d <= t < index * d + d {
        lemma_fundamental_div_mod_converse(t, d, index, t - index * d);
    }
    if t / d == index {
        assert(t == d * (t / d) + t % d && 0 <= t % d < d) by (nonlinear_arith)
            requires
                d > 0,
        ;
    }
}

impl Grid {
    /// Along each axis the visible cell counts are the ceilings of the
    /// quotients of the viewport's extent by the cell size, and a viewport
    /// with an area has at least one cell along each.
    pub proof fn lemma_partition_counts(viewport: ViewportSize, cell_size: u32)
        requires
            viewport.width > 0,
            viewport.height > 0,
            cell_size > 0,
        ensures
            ({
                let grid = Grid::spec_partition(viewport, cell_size);
                &&& (grid.cells_x - 1) * cell_size < viewport.width <= grid.cells_x * cell_size
                &&& (grid.cells_y - 1) * cell_size < viewport.height <= grid.cells_y * cell_size
                &&& grid.cells_x >= 1
                &&& grid.cells_y >= 1
            }),
    {
        lemma_cells_along_is_ceiling(viewport.width, cell_size);
        lemma_cells_along_is_ceiling(viewport.height, cell_size);
    }

    /// Partitioning the same viewport twice gives the same grid and the same
    /// cells in the same order.
    pub proof fn lemma_partition_idempotent(
        viewport: ViewportSize,
        cell_size: u32,
        first: Grid,
        second: Grid,
    )
        requires
            first == Grid::spec_partition(viewport, cell_size),
            second == Grid::spec_partition(viewport, cell_size),
        ensures
            first == second,
            first.spec_cells() == second.spec_cells(),
    {
    }

    /// The cells tile the rectangle that the grid spans. Each cell lies in it,
    /// each of its points lies in the cell of its column and row, and in no
    /// other: there is no gap and no overlap.
    pub proof fn lemma_cells_tile(self, p: PixelPoint)
        requires
            self.wf(),
        ensures
            forall|x: u32, y: u32|
                x < self.cells_x && y < self.cells_y && #[trigger] self.spec_cell(x, y).contains(p)
                    ==> self.covers(p) && x == self.column_of(p.x as int) && y == self.row_of(
                    p.y as int,
                ),
            self.covers(p) ==> {
                &&& 0 <= self.column_of(p.x as int) < self.cells_x
                &&& 0 <= self.row_of(p.y as int) < self.cells_y
                &&& self.spec_cell(
                    self.column_of(p.x as int) as u32,
                    self.row_of(p.y as int) as u32,
                ).contains(p)
            },
    {
        self.lemma_wf_bounds();
        let c = self.cell_size;
        let ox = self.origin.x as int;
        let oy = self.origin.y as int;
        assert forall|x: u32, y: u32|
            x < self.cells_x && y < self.cells_y && #[trigger] self.spec_cell(x, y).contains(
                p,
            ) implies self.covers(p) && x == self.column_of(p.x as int) && y == self.row_of(
            p.y as int,
        ) by {
            lemma_axis_cell(ox, c, x as int, p.x as int);
            lemma_axis_cell(oy, c, y as int, p.y as int);
            lemma_axis_monotonic(ox, c, x + 1, self.cells_x as int);
            lemma_axis_monotonic(oy, c, y + 1, self.cells_y as int);
        }
        if self.covers(p) {
            assert(c > 0) by {
                if c == 0 {
                    assert(2 * c * self.cells_x == 0) by (nonlinear_arith)
                        requires
                            c == 0,
                    ;
                }
            }
            let col = self.column_of(p.x as int);
            let row = self.row_of(p.y as int);
            lemma_axis_cell(ox, c, col, p.x as int);
            lemma_axis_cell(oy, c, row, p.y as int);
            if col < 0 {
                lemma_axis_monotonic(ox, c, col + 1, 0);
            }
            if col >= self.cells_x {
                lemma_axis_monotonic(ox, c, self.cells_x as int, col);
            }
            if row < 0 {
                lemma_axis_monotonic(oy, c, row + 1, 0);
            }
            if row >= self.cells_y {
                lemma_axis_monotonic(oy, c, self.cells_y as int, row);
            }
        }
    }

    /// The position `k` of the grid's order names the cell of column
    /// `k / cells_y` and row `k % cells_y`, and each cell has one position.
    pub proof fn lemma_cell_at_in_range(self, k: int)
        requires
            0 <= k < self.spec_cell_count(),
        ensures
            self.spec_cell_at(k).x < self.cells_x,
            self.spec_cell_at(k).y < self.cells_y,
            self.spec_cell_at(k).x * self.cells_y + self.spec_cell_at(k).y == k,
    {
        let n = self.cells_y as int;
        assert(n > 0) by (nonlinear_arith)
            requires
                0 <= k < self.cells_x * n,
                self.cells_x >= 0,
        ;
        assert(k == n * (k / n) + k % n && 0 <= k % n < n && 0 <= k / n) by (nonlinear_arith)
            requires
                n > 0,
                k >= 0,
        ;
        assert(k / n < self.cells_x) by (nonlinear_arith)
            requires
                k == n * (k / n) + k % n,
                0 <= k % n,
                k < self.cells_x * n,
                n > 0,
        ;
        assert(n * (k / n) == (k / n) * n) by (nonlinear_arith);
    }

    /// Neighbouring cells share an edge: a cell ends where the next one of its
    /// row or column starts. The first cell starts at the origin.
    pub proof fn lemma_cells_adjacent(self, x: u32, y: u32)
        requires
            self.wf(),
            x < self.cells_x,
            y < self.cells_y,
        ensures
            x + 1 < self.cells_x ==> self.spec_cell(x, y).max.x == self.spec_cell(
                (x + 1) as u32,
                y,
            ).min.x,
            y + 1 < self.cells_y ==> self.spec_cell(x, y).max.y == self.spec_cell(
                x,
                (y + 1) as u32,
            ).min.y,
            self.spec_cell(0, 0).min == self.origin,
            self.spec_cell(x, y).min.x < self.spec_cell(x, y).max.x,
            self.spec_cell(x, y).min.y < self.spec_cell(x, y).max.y,
            self.spec_cell(x, y).max.x - self.spec_cell(x, y).min.x == 2 * self.cell_size,
            self.spec_cell(x, y).max.y - self.spec_cell(x, y).min.y == 2 * self.cell_size,
    {
        self.lemma_wf_bounds();
        let c = self.cell_size;
        assert(2 * c * (x + 1) == 2 * c * x + 2 * c && 2 * c * (y + 1) == 2 * c * y + 2 * c && 2
            * c * 0 == 0) by (nonlinear_arith);
    }
}

proof fn lemma_axis_monotonic(origin: int, cell_size: u32, i: int, j: int)
    requires
        i <= j,
    ensures
        cell_start(origin, cell_size, i) <= cell_start(origin, cell_size, j),
{
    assert(2 * cell_size * i <= 2 * cell_size * j) by (nonlinear_arith)
        requires
            i <= j,
            cell_size >= 0,
    ;
}

proof fn lemma_axis_bounds(extent: u32, cell_size: u32, i: int)
    requires
        0 <= i <= cells_along(extent, cell_size),
    ensures
        origin_along(cells_along(extent, cell_size), cell_size) <= cell_start(
            origin_along(cells_along(extent, cell_size), cell_size),
            cell_size,
            i,
        ) < 0x3_0000_0000,
{
    let n = cells_along(extent, cell_size);
    if cell_size > 0 {
        lemma_cells_along_is_ceiling(extent, cell_size);
        assert(0 <= 2 * cell_size * i <= 2 * cell_size * n) by (nonlinear_arith)
            requires
                0 <= i <= n,
                cell_size > 0,
        ;
        assert(cell_size * (1 - n) + 2 * cell_size * n == (n - 1) * cell_size + 2 * cell_size)
            by (nonlinear_arith);
    } else {
        assert(cell_size * (1 - n) == 0 && 2 * cell_size * i == 0) by (nonlinear_arith)
            requires
                cell_size == 0,
        ;
    }
}

} // verus!
