//! What a compose file becomes: a list of nub-shaped
//! container specs plus declared volumes, secrets, and configs, plus the
//! compose keys that were recognized but not carried over.

use vstd::prelude::*;

verus! {

/// A compose file that could not be converted. Holds the message.
#[derive(Debug)]
pub struct ParseError(pub String);

/// One published port: `host` is `[ip:]port` on the host side.
#[derive(Debug, Clone)]
pub struct PortPublish {
    pub container: String,
    pub host: String,
}

/// One volume or bind mount. An empty `source` is an anonymous volume.
#[derive(Debug, Clone)]
pub struct VolumeMount {
    pub source: String,
    pub target: String,
    pub read_only: bool,
}

/// Container restart policy.
#[derive(Debug, Clone)]
pub enum RestartPolicySpec {
    No,
    Always,
    UnlessStopped,
    OnFailure { max_retries: Option<i64> },
}

/// Container healthcheck. Durations are nanoseconds.
#[derive(Debug, Clone)]
pub struct HealthcheckSpec {
    pub test: Vec<String>,
    pub interval_ns: Option<i64>,
    pub timeout_ns: Option<i64>,
    pub retries: Option<i64>,
    pub start_period_ns: Option<i64>,
}

/// The container-creation request a compose service becomes.
/// `labels` holds each label name once.
#[derive(Debug, Clone)]
pub struct CreateContainerReq {
    pub image: String,
    pub name: Option<String>,
    pub cmd: Vec<String>,
    pub entrypoint: Vec<String>,
    pub env: Vec<String>,
    pub labels: Vec<(String, String)>,
    pub working_dir: Option<String>,
    pub user: Option<String>,
    pub ports: Vec<PortPublish>,
    pub volumes: Vec<VolumeMount>,
    pub network: Option<String>,
    pub restart: Option<RestartPolicySpec>,
    pub healthcheck: Option<HealthcheckSpec>,
    pub cap_add: Vec<String>,
    pub cap_drop: Vec<String>,
    pub privileged: bool,
    pub extra_hosts: Vec<String>,
    pub init: Option<bool>,
    pub hostname: Option<String>,
    pub expose: Vec<String>,
}

/// A converted compose file.
#[derive(Debug)]
pub struct StackSpec {
    /// Sorted by name.
    pub services: Vec<ServiceSpec>,
    /// Sorted by name.
    pub volumes: Vec<VolumeSpec>,
    /// Sorted by name.
    pub secrets: Vec<SecretSpec>,
    /// Sorted by name.
    pub configs: Vec<ConfigSpec>,
    /// Top-level keys that are not processed (e.g. `x-extensions`),
    /// sorted.
    pub unsupported: Vec<String>,
}

/// One converted service.
#[derive(Debug)]
pub struct ServiceSpec {
    /// Service key from compose's `services:` map.
    pub name: String,
    /// The container spec it becomes.
    pub container: CreateContainerReq,
    /// References to top-level secrets, in the order listed.
    pub secrets: Vec<ServiceSecretRef>,
    /// References to top-level configs, in the order listed.
    pub configs: Vec<ServiceConfigRef>,
    /// Service-level keys that are not carried over (e.g. `build`), sorted.
    pub unsupported: Vec<String>,
}

/// A declared top-level volume.
#[derive(Debug)]
pub struct VolumeSpec {
    pub name: String,
    pub external: bool,
}

/// A declared top-level secret, resolved against `nub secret`.
#[derive(Debug)]
pub struct SecretSpec {
    /// Compose key: default container-side filename and default lookup.
    pub name: String,
    /// Lookup key against `nub secret`; `name` unless overridden.
    pub lookup: String,
}

/// One service's reference to a top-level secret.
#[derive(Debug)]
pub struct ServiceSecretRef {
    /// Matches a `SecretSpec.name`.
    pub source: String,
    /// Container-side mount target.
    pub target: String,
}

/// A declared top-level config with inline content.
#[derive(Debug)]
pub struct ConfigSpec {
    pub name: String,
    pub content: String,
}

/// One service's reference to a top-level config.
#[derive(Debug)]
pub struct ServiceConfigRef {
    /// Matches a `ConfigSpec.name`.
    pub source: String,
    /// Container-side mount target.
    pub target: String,
}

} // verus!
