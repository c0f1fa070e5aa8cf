//! Command planning for deploying, saving, listing and destroying Docker
//! containers on the nodes of a testbed.
//!
//! Everything here is pure: it takes what the command line, the environment
//! and the remote tools handed over, and computes the commands to run, the
//! nodes to run them on and the lines to show. Running them is left to the
//! caller.

pub mod args;
pub mod image_build;
pub mod text;
pub mod utils;
pub mod deploy;
pub mod destroy;
pub mod save;
pub mod list;
