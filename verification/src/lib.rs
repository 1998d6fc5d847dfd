//! Nine-slice panels: a small template image is cut into four corners, four
//! edges and a center, and painted at any target size without resizing the
//! corners. The library computes, and proves correct, the list of copies that
//! paints a panel; carrying the copies out on a display is left to the caller.

pub mod config;
pub mod geometry;
pub mod nine_slice;
pub mod region;
pub mod tiling;

pub use config::{Config, Slice};
pub use geometry::{Point, Rectangle, Size};
pub use nine_slice::NineSlice;
pub use region::Region;
