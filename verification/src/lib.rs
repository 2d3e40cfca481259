//! Debian repository index generation: package metadata, version
//! deduplication, `Packages` / `Contents` / `Release` text and the
//! helpers around them.

pub mod apt;
pub mod checksum;
pub mod cli;
pub mod compress;
pub mod config;
pub mod debian;
pub mod error;
pub mod extract;
pub mod iter_reader;
pub mod misc;
pub mod order;
pub mod repo;
pub mod seqs;
pub mod text;
pub mod textmap;
pub mod update;
pub mod url;
