//! Allocation and reuse rules of the rendering layer: descriptor ranges,
//! render handles and completion tracking.

pub mod descriptors;
pub mod handle;
pub mod queue;
pub mod sync;
