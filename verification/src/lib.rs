//! Regeneration pipeline for a grid of Mandelbrot cells.
//!
//! A host hands this library the size of its viewport and the time that has
//! passed once per tick. The library decides when the grid has to be rebuilt,
//! cuts the viewport into cells, maps every cell into the complex plane and
//! keeps track of which generation of cells is on display and which one is
//! still being computed. The host owns the window, the worker pool and the
//! scene; it performs the actions that the library hands back.

pub mod debounce;
pub mod generation;
pub mod grid;
pub mod lifecycle;
pub mod scheduler;
pub mod viewport;
pub mod zoom;

pub use generation::GenerationPlugin;
