//! A dual-region bump allocator for the earliest phase of system bring-up.
//!
//! One fixed region is carved into a byte area that grows forward from the
//! start and a page area that grows backward from the end.
pub mod align;
pub mod early;

pub use early::{AllocError, EarlyAllocator, RegionView};
