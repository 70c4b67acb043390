//! A verified core for an incremental ink-stroke renderer.
//!
//! Five fixed raster surfaces each keep a committed baseline pixel buffer in a
//! surface cache.  Per-frame stroke input arrives as one flattened, doubly
//! ragged batch covering all surfaces; a batch decoder computes each surface's
//! point and splatter sub-ranges from the two count arrays.  An externally
//! supplied compositor paints a working copy of a baseline and reports the
//! rectangle it touched; a dirty-region extractor packs exactly the touched
//! pixels for presentation.  A lossless snapshot codec turns baselines into
//! still-image bytes and back for ingestion.

use vstd::prelude::*;

pub mod batch;
pub mod codec;
pub mod frame;
pub mod region;
pub mod surface;

pub use batch::Ranges;
pub use frame::Patch;
pub use frame::RenderError;
pub use region::Rect;
pub use surface::Caches;
pub use surface::Letter;

verus! {

/// Largest supported square surface dimension; keeps every pixel index
/// computation comfortably inside `usize`.
pub const MAX_SURFACE_DIM: u32 = 4096;

} // verus!
