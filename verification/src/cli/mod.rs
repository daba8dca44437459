//! The command line and the handling of entries' source commands.
pub mod args;
pub mod helpers;
