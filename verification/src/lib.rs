//! Keeps a set of named symlinks in step with a configuration: each entry
//! names a source and the target path at which it should appear.

pub mod config;
pub mod disk;
pub mod laws;
pub mod link;
pub mod linker;
pub mod order;
pub mod outcome;
pub mod path;
pub mod run;
pub mod state;
