//! The commands of the interactive prompt.

pub mod address;
pub mod filter;
pub mod handler;
pub mod region;
