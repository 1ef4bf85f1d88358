//! Planning and byte accounting for a cache-file sweeper.
//!
//! The library decides which directories a sweep descends into, which entries
//! it removes, and how many bytes that reclaimed; the binary around it performs
//! the actual filesystem calls and feeds the outcomes back in.

pub mod explicit;
pub mod ignore;
pub mod report;
pub mod space;
pub mod walker;
