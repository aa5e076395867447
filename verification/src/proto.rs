//! Generated-message shapes of the host chain's query and genesis
//! interfaces, carried as plain data.

pub mod base_reflection;
pub mod genutil;
pub mod inflation;
pub mod reflection;
