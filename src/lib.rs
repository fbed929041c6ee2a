//! Frame buffer of a ray-marched scene: the image's row-major RGBA layout,
//! the per-pixel render loop and the double-buffered frame swap.

pub mod frame;
pub mod scene;

pub use frame::Cell;
pub use scene::Scene;
