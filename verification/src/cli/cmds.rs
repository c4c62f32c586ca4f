//! The sub-commands of `nub` and their arguments.

use vstd::prelude::*;

verus! {

/// `nub install <target>`.
#[derive(Debug, Clone, PartialEq, Eq)]
pub enum InstallTarget {
    /// A systemd unit: user-level by default, `system` for /etc; `print`
    /// shows the unit text instead of installing it.
    Systemd { user: bool, system: bool, print: bool },
}

/// `nub config <action>`.
#[derive(Debug, Clone, PartialEq, Eq)]
pub enum ConfigCmd {
    /// Print the effective config.
    Show,
}

/// `nub bind <action>`: the bind-mount allowlist.
#[derive(Debug, Clone, PartialEq, Eq)]
pub enum BindCmd {
    /// List the allowlist.
    List,
    /// Add a path; it must exist and is canonicalized first.
    Allow { path: String },
    /// Remove a path.
    Deny { path: String },
}

/// `nub key <action>`: the Ed25519 issuer key pair.
#[derive(Debug, Clone, PartialEq, Eq)]
pub enum KeyCmd {
    /// Generate the key pair if missing; print the public key either way.
    Gen,
    /// Replace the key pair, invalidating every token issued so far.
    Rotate,
}

/// `nub token <action>`.
#[derive(Debug, Clone, PartialEq, Eq)]
pub enum TokenCmd {
    /// Mint a token signed by nub's issuer key. `scope` and `preset`
    /// exclude each other; `expires` is a duration such as `90d`.
    Mint { sub: String, scope: Option<String>, preset: Option<String>, expires: String, aud: Option<String> },
    /// List every scope and the presets.
    Scopes,
}

/// `nub stack <action>`.
#[derive(Debug, Clone, PartialEq, Eq)]
pub enum StackCmd {
    /// Deploy a compose file (`-` for stdin) as a stack.
    Deploy { name: String, file: String },
    /// List stacks.
    Ls,
    /// Tear down a stack; named volumes are kept.
    Rm { name: String, yes: bool },
    /// Redeploy a stack from its stored manifest.
    Redeploy { name: String },
    /// Stream the logs of every container of a stack.
    Logs { name: String, follow: bool, tail: Option<u32> },
}

/// `nub secret <action>`.
#[derive(Debug, Clone, PartialEq, Eq)]
pub enum SecretCmd {
    /// Store a value, read from stdin or from `from_file`.
    Put { name: String, from_file: Option<String> },
    /// List names and sizes; values are never printed.
    List,
    /// Delete a secret; succeeds when it does not exist.
    Rm { name: String },
    /// Print a secret's value.
    Get { name: String },
}

} // verus!
