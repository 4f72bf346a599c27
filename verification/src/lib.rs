//! Navigation of a working tree through its commit history, as a state
//! machine that asks its caller to run the version-control tool.

pub mod error;
pub mod laws;
pub mod model;
pub mod repo;
pub mod text;
pub mod transport;
