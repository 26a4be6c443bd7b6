//! Verified core of a declarative game-server deployment tool.
//!
//! The library keeps an output directory in sync with a source config tree:
//! it maps source paths to destinations, decides per file whether work is
//! needed from a lockfile of recorded timestamps, interpolates template
//! variables into text files, resolves downloadable artifacts against a
//! remote metadata source, and dispatches hot-reload actions when watched
//! files change.  All file, network and process I/O lives outside this
//! crate; the functions here are pure decisions and transformations over
//! plain values, each with a proved contract.

pub mod bootstrap;
pub mod config;
pub mod hot_reload;
pub mod lockfile;
pub mod paths;
pub mod spigot;
pub mod template;
pub mod text;
