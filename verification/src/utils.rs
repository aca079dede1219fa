//! Records and the region cache.

pub mod caching;
pub mod json_data;
