//! Fetching: what to mirror, where it lies in the index, and how it is
//! brought in.

pub mod constants;
pub mod index;
pub mod krates;
pub mod layout;
pub mod nesting;
pub mod plan;
pub mod scan;
pub mod schedule;
pub mod util;
