//! The TOML config schema. It is flat, and unknown fields are refused so
//! that a misspelling cannot silently disable a feature.

use vstd::prelude::*;

verus! {

/// The contents of `nub.toml`. Paths are held as text.
#[derive(Debug, Default, Clone)]
pub struct Config {
    pub id: Option<String>,
    pub listen: Option<String>,
    pub tls_cert: Option<String>,
    pub tls_key: Option<String>,
    /// Host paths permitted as bind-mount sources in container creation.
    /// Empty (the default) allows no host bind mounts.
    pub allowed_binds: Vec<String>,
    /// Flat directory of Dockerfile texts; defaults under the data home.
    pub dockerfiles: Option<String>,
    /// Directory of compose-stack manifests, one subdirectory per stack;
    /// defaults under the data home.
    pub stacks: Option<String>,
    /// Directory of age-encrypted secrets and the per-host identity;
    /// defaults under the data home.
    pub secrets: Option<String>,
    /// Base64url Ed25519 public key. When set, presented tokens are
    /// checked against this key only and nub never holds a private key.
    pub trusted_issuer: Option<String>,
}

} // verus!
