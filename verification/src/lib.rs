//! Host terminal mode resets and the workspace request handlers of a
//! terminal multiplexer, with their contracts proved by Verus.

pub mod terminal_modes;
pub mod workspace;
pub mod app;
pub mod workspaces;
