//! Packing of axis-aligned rectangles into one container rectangle.
//!
//! The geometry lives in [`Size`] and [`Rectangle`]. A packing strategy implements
//! [`RectanglePacker`]; [`HeightRectPacker`] is the shelf strategy that fills rows in
//! order of height.

pub mod area;
pub mod height_rect_pack;
pub mod message;
pub mod rectangle;
pub mod rectangle_packer;
pub mod shelf;
pub mod shelf_laws;
pub mod size;
pub mod sort;

pub use area::Area;
pub use height_rect_pack::HeightRectPacker;
pub use rectangle::Rectangle;
pub use rectangle_packer::{
    RectanglePacker, RectanglePackerConfig, RectanglePackingError, RectanglePackingResult,
};
pub use size::Size;
