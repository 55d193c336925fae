//! Growable containers addressed by signed offsets from a movable center
//! point, and dense two- and three-dimensional grids built from them.

pub mod double_sided_vec;
pub mod grid2;
pub mod grid3;

pub use double_sided_vec::DoubleSidedVec;
pub use grid2::Grid2;
pub use grid3::Grid3;
