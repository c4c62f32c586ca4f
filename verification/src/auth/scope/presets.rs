//! Scope presets: named bundles for common token shapes. Each preset is
//! an explicit list of scopes (or the literal `*` for admin). The mint
//! flow joins these with spaces and embeds the result verbatim in the
//! token, so the runtime check never knows what a preset is.

use vstd::prelude::*;

use super::types::Scope;

verus! {

/// Full administrative access. Embedded as the single token `*`.
pub const ADMIN_LITERAL: &'static str = "*";

/// Day-to-day operations: managing running infrastructure. Excludes
/// `containers:kill`, `images:build`, all `dockerfiles:*`, and
/// `secrets:reveal`.
pub const OPERATOR: [Scope; 35] = [
    Scope::HostInfo,
    Scope::AuthWhoami,
    Scope::ContainersList,
    Scope::ContainersGet,
    Scope::ContainersLogs,
    Scope::ContainersStats,
    Scope::ContainersCreate,
    Scope::ContainersStart,
    Scope::ContainersStop,
    Scope::ContainersRestart,
    Scope::ContainersRemove,
    Scope::ContainersExec,
    Scope::ImagesList,
    Scope::ImagesGet,
    Scope::ImagesPull,
    Scope::ImagesDelete,
    Scope::VolumesList,
    Scope::VolumesGet,
    Scope::VolumesCreate,
    Scope::VolumesDelete,
    Scope::NetworksList,
    Scope::NetworksGet,
    Scope::NetworksCreate,
    Scope::NetworksDelete,
    Scope::StacksList,
    Scope::StacksGet,
    Scope::StacksLogs,
    Scope::StacksCreate,
    Scope::StacksDelete,
    Scope::StacksRedeploy,
    Scope::StacksUpdate,
    Scope::StacksPull,
    Scope::SecretsList,
    Scope::SecretsPut,
    Scope::SecretsDelete,
];

/// Stack delivery from a CI runner: stack lifecycle plus the sub-op scopes
/// a stack op composes. No exec and no secret writes.
pub const DEPLOY: [Scope; 27] = [
    Scope::HostInfo,
    Scope::AuthWhoami,
    Scope::ContainersList,
    Scope::ContainersGet,
    Scope::ContainersCreate,
    Scope::ContainersStart,
    Scope::ContainersStop,
    Scope::ContainersRemove,
    Scope::ImagesList,
    Scope::ImagesGet,
    Scope::ImagesPull,
    Scope::VolumesList,
    Scope::VolumesGet,
    Scope::VolumesCreate,
    Scope::VolumesDelete,
    Scope::NetworksList,
    Scope::NetworksGet,
    Scope::NetworksCreate,
    Scope::NetworksDelete,
    Scope::StacksList,
    Scope::StacksGet,
    Scope::StacksLogs,
    Scope::StacksCreate,
    Scope::StacksDelete,
    Scope::StacksRedeploy,
    Scope::StacksUpdate,
    Scope::StacksPull,
];

/// Read-only across every resource. No state changes; secret values are
/// not included.
pub const READONLY: [Scope; 18] = [
    Scope::HostInfo,
    Scope::AuthWhoami,
    Scope::ContainersList,
    Scope::ContainersGet,
    Scope::ContainersLogs,
    Scope::ContainersStats,
    Scope::ImagesList,
    Scope::ImagesGet,
    Scope::VolumesList,
    Scope::VolumesGet,
    Scope::NetworksList,
    Scope::NetworksGet,
    Scope::DockerfilesList,
    Scope::DockerfilesGet,
    Scope::StacksList,
    Scope::StacksGet,
    Scope::StacksLogs,
    Scope::SecretsList,
];

/// Scopes that change no state: info, whoami, list, get, logs, stats.
pub open spec fn is_read_scope(s: Scope) -> bool {
    match s {
        Scope::HostInfo | Scope::AuthWhoami | Scope::ContainersList | Scope::ContainersGet
        | Scope::ContainersLogs | Scope::ContainersStats | Scope::ImagesList | Scope::ImagesGet
        | Scope::VolumesList | Scope::VolumesGet | Scope::NetworksList | Scope::NetworksGet
        | Scope::DockerfilesList | Scope::DockerfilesGet | Scope::StacksList | Scope::StacksGet
        | Scope::StacksLogs | Scope::SecretsList => true,
        _ => false,
    }
}

/// Dockerfile-authoring scopes.
pub open spec fn is_dockerfile_scope(s: Scope) -> bool {
    match s {
        Scope::DockerfilesList | Scope::DockerfilesGet | Scope::DockerfilesPut
        | Scope::DockerfilesDelete => true,
        _ => false,
    }
}

/// No preset grants `secrets:reveal`: reading a secret back is admin-only.
pub proof fn law_presets_exclude_reveal()
    ensures
        !OPERATOR@.contains(Scope::SecretsReveal),
        !DEPLOY@.contains(Scope::SecretsReveal),
        !READONLY@.contains(Scope::SecretsReveal),
{
}

/// The operator preset leaves out kill, build, and dockerfile authoring.
pub proof fn law_operator_exclusions()
    ensures
        !OPERATOR@.contains(Scope::ContainersKill),
        !OPERATOR@.contains(Scope::ImagesBuild),
        forall|i: int| 0 <= i < OPERATOR@.len() ==> !is_dockerfile_scope(#[trigger] OPERATOR@[i]),
{
}

/// The deploy preset grants no exec and no secret writes.
pub proof fn law_deploy_exclusions()
    ensures
        !DEPLOY@.contains(Scope::ContainersExec),
        !DEPLOY@.contains(Scope::SecretsPut),
        !DEPLOY@.contains(Scope::SecretsDelete),
{
}

/// Every scope of the read-only preset changes no state.
pub proof fn law_readonly_only_reads()
    ensures
        forall|i: int| 0 <= i < READONLY@.len() ==> is_read_scope(#[trigger] READONLY@[i]),
{
}

/// The read-only preset holds every read scope and nothing else.
pub proof fn lemma_readonly_is_all_reads(x: Scope)
    ensures
        READONLY@.contains(x) <==> is_read_scope(x),
{
    let r = READONLY@;
    if is_read_scope(x) {
        assert(r[0] == Scope::HostInfo);
        assert(r[1] == Scope::AuthWhoami);
        assert(r[2] == Scope::ContainersList);
        assert(r[3] == Scope::ContainersGet);
        assert(r[4] == Scope::ContainersLogs);
        assert(r[5] == Scope::ContainersStats);
        assert(r[6] == Scope::ImagesList);
        assert(r[7] == Scope::ImagesGet);
        assert(r[8] == Scope::VolumesList);
        assert(r[9] == Scope::VolumesGet);
        assert(r[10] == Scope::NetworksList);
        assert(r[11] == Scope::NetworksGet);
        assert(r[12] == Scope::DockerfilesList);
        assert(r[13] == Scope::DockerfilesGet);
        assert(r[14] == Scope::StacksList);
        assert(r[15] == Scope::StacksGet);
        assert(r[16] == Scope::StacksLogs);
        assert(r[17] == Scope::SecretsList);
    }
}

} // verus!
