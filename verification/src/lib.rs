//! A verified Conway's Game of Life engine on a fixed-size toroidal
//! grid: double-buffered bit-packed cell storage, toroidal neighbor
//! counting, the B3/S23 transition rule, and per-step delta lists that
//! let a renderer redraw only the cells that changed.

mod bits;
pub mod laws;
pub mod model;
pub mod universe;

pub use universe::Cell;
pub use universe::GridError;
pub use universe::Universe;
