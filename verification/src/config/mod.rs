//! Persistent configuration: the flat TOML schema, and the locations nub
//! reads and writes (XDG config and data dirs, issuer key, admin token,
//! dockerfiles, stacks and secrets roots).

pub mod discover;
pub mod file;
pub mod paths;
