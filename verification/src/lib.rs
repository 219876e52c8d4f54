//! Nine-patch slicing and layout: a source bitmap is cut along a grid of
//! regions, and the regions are arranged as rows of cells whose corners keep
//! their size while the interior grows.

pub mod bitmap;
pub mod content;
pub mod grid;
pub mod handle;
pub mod laws;
pub mod layout;
pub mod ninepatch;
pub mod plugin;
pub mod slicer;
pub mod stitch;

pub use bitmap::Bitmap;
pub use content::NinePatchContent;
pub use grid::{ContentTag, Patch, RegionSize, SizeRule};
pub use handle::{HandleId, NodeId};
pub use layout::{Extent, Layout, LayoutCell, LayoutRow, OuterSize};
pub use ninepatch::{NinePatch, NinePatchBuilder, SliceError};
pub use plugin::{InstanceState, NinePatchData, Reconciliation};
