//! The decisions behind the `nub` command line: sub-command shapes, token
//! minting inputs, connect URLs, systemd units, update planning, and the
//! small parsers the commands share. Reading files, running `systemctl`
//! and printing are the binary's.

pub mod cmds;
pub mod error;
pub mod token;
pub mod connect;
pub mod install;
pub mod restart;
pub mod update;
pub mod secret;
pub mod hostname;
pub mod prompt;
pub mod bind;
pub mod status;
pub mod table;
pub mod stack;
