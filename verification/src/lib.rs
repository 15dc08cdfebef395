//! An in-memory hierarchical filesystem with a line-oriented command
//! interpreter on top of it, backing a shell-like interactive session.
//!
//! The filesystem is an arena of nodes addressed by integer identity;
//! paths are resolved segment by segment, following symlink chains and
//! honouring per-node accessibility.  The interpreter turns one raw input
//! line into exactly one structured command result.

pub mod buffer;
pub mod commands;
pub mod filesystem;
pub mod projects;
pub mod history;
pub mod text;
pub mod themes;
