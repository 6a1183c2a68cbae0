//! The cell task scheduler: turns a grid into one unit of work per cell.
//!
//! The units are descriptions. The host submits each to its worker pool and
//! keeps the handle; what a worker computes comes back as a [`CellResult`].

use crate::grid::{Cell, Grid};
use crate::viewport::ViewportSize;
use crate::zoom::{axis_fits, ComplexPoint, Ratio, ZoomWindow};
use vstd::prelude::*;

verus! {

/// The input of one unit of work: the cell and the corners of the region of
/// the complex plane that it shows.
#[derive(Clone, Copy, Debug, PartialEq, Eq, Structural)]
pub struct CellTask {
    /// The generation that the cell belongs to.
    pub generation: u64,
    /// The position of the cell in the grid's order.
    pub index: usize,
    pub cell: Cell,
    pub min: ComplexPoint,
    pub max: ComplexPoint,
}

/// The output of one unit of work: the values that were computed for the
/// cell's region, in the worker's order.
#[derive(Clone, Debug, PartialEq, Eq)]
pub struct CellResult {
    pub values: Vec<u32>,
}

impl View for CellResult {
    type V = Seq<u32>;

    open spec fn view(&self) -> Seq<u32> {
        self.values@
    }
}

/// The unit of work for the cell at position `k` of the grid.
pub open spec fn spec_task(grid: Grid, zoom: ZoomWindow, generation: u64, k: int) -> CellTask {
    let cell = grid.spec_cell_at(k);
    CellTask {
        generation,
        index: k as usize,
        cell,
        min: zoom.spec_to_complex(cell.min, grid.viewport),
        max: zoom.spec_to_complex(cell.max, grid.viewport),
    }
}

/// The units of work of a grid: one per cell, in the grid's order.
pub open spec fn spec_tasks(grid: Grid, zoom: ZoomWindow, generation: u64) -> Seq<CellTask> {
    Seq::new(grid.spec_cell_count() as nat, |k: int| spec_task(grid, zoom, generation, k))
}

/// Whether the window maps both corners of every cell of the grid.
pub open spec fn maps_grid(zoom: ZoomWindow, grid: Grid) -> bool {
    forall|k: int|
        0 <= k < grid.spec_cell_count() ==> zoom.maps(
            (#[trigger] grid.spec_cell_at(k)).min,
            grid.viewport,
        ) && zoom.maps(grid.spec_cell_at(k).max, grid.viewport)
}

/// Describes the work of one generation: a unit for each cell of the grid and
/// no other, each with the region that the window maps its cell to. There is
/// no plan where the window cannot map a corner of a cell.
pub fn plan_tasks(grid: &Grid, zoom: &ZoomWindow, generation: u64) -> (tasks: Option<
    Vec<CellTask>,
>)
    requires
        grid.wf(),
    ensures
        tasks is Some <==> maps_grid(*zoom, *grid),
        tasks matches Some(t) ==> t@ == spec_tasks(*grid, *zoom, generation),
{
    let cells = grid.cells();
    let mut tasks: Vec<CellTask> = Vec::new();
    let mut i: usize = 0;
    while i < cells.len()
        invariant
            cells@ == grid.spec_cells(),
            i <= cells@.len(),
            tasks@.len() == i,
            forall|k: int|
                0 <= k < i ==> zoom.maps((#[trigger] grid.spec_cell_at(k)).min, grid.viewport)
                    && zoom.maps(grid.spec_cell_at(k).max, grid.viewport),
            forall|k: int| 0 <= k < i ==> tasks@[k] == spec_task(*grid, *zoom, generation, k),
        decreases cells@.len() - i,
    {
        let cell = cells[i];
        let min = zoom.to_complex(cell.min, grid.viewport);
        let max = zoom.to_complex(cell.max, grid.viewport);
        match (min, max) {
            (Some(min), Some(max)) => {
                tasks.push(CellTask { generation, index: i, cell, min, max });
            },
            _ => {
                return None;
            },
        }
        i = i + 1;
    }
    Some(tasks)
}

proof fn lemma_axis_fits_bounded(p: i64, half_size: u32, extent: Ratio, center: Ratio)
    requires
        -0x4_0000_0000 <= p <= 0x4_0000_0000,
        0 <= extent.num <= 0x4_0000_0000,
        0 < extent.den <= 0x4_0000_0000,
        -2 <= center.num <= 2,
        0 < center.den <= 2,
    ensures
        axis_fits(p, half_size, extent, center),
{
    let a = p * extent.num;
    let b = half_size * extent.den;
    assert(-0x10_0000_0000_0000_0000 <= a <= 0x10_0000_0000_0000_0000) by (nonlinear_arith)
        requires
            a == p * extent.num,
            -0x4_0000_0000 <= p <= 0x4_0000_0000,
            0 <= extent.num <= 0x4_0000_0000,
    ;
    assert(-0x20_0000_0000_0000_0000 <= a * center.den <= 0x20_0000_0000_0000_0000)
        by (nonlinear_arith)
        requires
            -0x10_0000_0000_0000_0000 <= a <= 0x10_0000_0000_0000_0000,
            0 < center.den <= 2,
    ;
    assert(0 <= b <= 0x4_0000_0000_0000_0000) by (nonlinear_arith)
        requires
            b == half_size * extent.den,
            0 <= half_size <= 0x1_0000_0000,
            0 < extent.den <= 0x4_0000_0000,
    ;
    assert(-0x8_0000_0000_0000_0000 <= center.num * b <= 0x8_0000_0000_0000_0000)
        by (nonlinear_arith)
        requires
            0 <= b <= 0x4_0000_0000_0000_0000,
            -2 <= center.num <= 2,
    ;
    assert(0 <= b * center.den <= 0x8_0000_0000_0000_0000) by (nonlinear_arith)
        requires
            0 <= b <= 0x4_0000_0000_0000_0000,
            0 < center.den <= 2,
    ;
}

/// The window of a viewport maps every corner of every cell of the
/// viewport's own grid: the host gets a plan for each generation it starts.
pub proof fn lemma_viewport_zoom_maps_grid(viewport: ViewportSize, cell_size: u32)
    ensures
        ({
            let grid = Grid::spec_partition(viewport, cell_size);
            &&& grid.spec_cell_count() > 0 ==> ZoomWindow::spec_from_viewport(viewport) is Some
            &&& ZoomWindow::spec_from_viewport(viewport) matches Some(zoom) ==> maps_grid(
                zoom,
                grid,
            )
        }),
{
    let grid = Grid::spec_partition(viewport, cell_size);
    grid.lemma_wf_bounds();
    if let Some(zoom) = ZoomWindow::spec_from_viewport(viewport) {
        assert forall|k: int| 0 <= k < grid.spec_cell_count() implies zoom.maps(
            (#[trigger] grid.spec_cell_at(k)).min,
            grid.viewport,
        ) && zoom.maps(grid.spec_cell_at(k).max, grid.viewport) by {
            grid.lemma_cell_at_in_range(k);
            let cell = grid.spec_cell_at(k);
            lemma_axis_fits_bounded(cell.min.x, viewport.width, zoom.extent.re, zoom.center.re);
            lemma_axis_fits_bounded(cell.max.x, viewport.width, zoom.extent.re, zoom.center.re);
            lemma_axis_fits_bounded(cell.min.y, viewport.height, zoom.extent.im, zoom.center.im);
            lemma_axis_fits_bounded(cell.max.y, viewport.height, zoom.extent.im, zoom.center.im);
        }
    }
}

} // verus!
