//! Mirror of a public package registry: the selection policy, the sharded
//! index layout, the readiness check of a cached index, the extraction of
//! package coordinates from index records and the bounded download schedule.

pub mod config;
pub mod fetching;
pub mod serving;
pub mod text;
