//! nub core library: scope grammar and authorization checks, the
//! compose-file converter, engine-client framing helpers, and the
//! decision logic behind the `nub` command line.

pub mod auth;
pub mod cli;
pub mod client;
pub mod compose;
pub mod config;
pub mod num;
pub mod sort;
pub mod text;
