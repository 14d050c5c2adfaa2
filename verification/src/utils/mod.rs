//! Helpers shared by the builtin commands.

pub mod error;
