//! Building the repository: what is kept of a pool and what is written of it.

pub mod build;
pub mod download;
pub mod entries;
pub mod generate;
pub mod migrate;
pub mod pool;
pub mod prepare;
pub mod scan;
pub mod version;
