//! Generation-checked handles and index allocators for resources whose
//! lifetimes are staggered across frames.
//!
//! - [`allocators`]: a free list of indices, a ring of units that come back
//!   generation by generation, handles that pack an index and a validity
//!   cookie into one word, and the storages built on them.
//! - [`graphics`]: render handles and the values bound under them, ranges of
//!   a descriptor table, and the fence and queue that decide when an object
//!   that went to the device may be used again.
//! - [`utils`]: integers that leave out the largest value of their type.
//!
//! Nothing here is synchronised: each value has one owner at a time, or sits
//! behind one lock.

pub mod allocators;
pub mod graphics;
pub mod utils;
