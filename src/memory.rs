//! The earlier single-level mapper, which reaches every page table through
//! one fixed linear offset between physical and virtual addresses.
pub mod paging;
