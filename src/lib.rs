//! Animated dot-grid wallpaper core: the visit grid, the random walk, the
//! pixel painter and the presentation state machine.
pub mod draw;
pub mod presentation;
pub mod types;
pub mod utils;
