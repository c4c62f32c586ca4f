//! Wire-string mapping for `Scope`.

use vstd::prelude::*;

use super::types::{scope_chars, spec_resource, Scope};

verus! {

impl Scope {
    /// Wire string for this scope (`<resource>:<action>`).
    pub fn as_str(self) -> (res: &'static str)
        ensures
            res@ == scope_chars(self),
    {
        match self {
            Scope::HostInfo => {
                proof {
                    reveal_strlit("host:info");
                    reveal_strlit("host");
                    reveal_strlit("info");
                    assert("host:info"@ =~= scope_chars(self));
                }
                "host:info"
            },
            Scope::AuthWhoami => {
                proof {
                    reveal_strlit("auth:whoami");
                    reveal_strlit("auth");
                    reveal_strlit("whoami");
                    assert("auth:whoami"@ =~= scope_chars(self));
                }
                "auth:whoami"
            },
            Scope::ContainersList => {
                proof {
                    reveal_strlit("containers:list");
                    reveal_strlit("containers");
                    reveal_strlit("list");
                    assert("containers:list"@ =~= scope_chars(self));
                }
                "containers:list"
            },
            Scope::ContainersGet => {
                proof {
                    reveal_strlit("containers:get");
                    reveal_strlit("containers");
                    reveal_strlit("get");
                    assert("containers:get"@ =~= scope_chars(self));
                }
                "containers:get"
            },
            Scope::ContainersLogs => {
                proof {
                    reveal_strlit("containers:logs");
                    reveal_strlit("containers");
                    reveal_strlit("logs");
                    assert("containers:logs"@ =~= scope_chars(self));
                }
                "containers:logs"
            },
            Scope::ContainersStats => {
                proof {
                    reveal_strlit("containers:stats");
                    reveal_strlit("containers");
                    reveal_strlit("stats");
                    assert("containers:stats"@ =~= scope_chars(self));
                }
                "containers:stats"
            },
            Scope::ContainersCreate => {
                proof {
                    reveal_strlit("containers:create");
                    reveal_strlit("containers");
                    reveal_strlit("create");
                    assert("containers:create"@ =~= scope_chars(self));
                }
                "containers:create"
            },
            Scope::ContainersStart => {
                proof {
                    reveal_strlit("containers:start");
                    reveal_strlit("containers");
                    reveal_strlit("start");
                    assert("containers:start"@ =~= scope_chars(self));
                }
                "containers:start"
            },
            Scope::ContainersStop => {
                proof {
                    reveal_strlit("containers:stop");
                    reveal_strlit("containers");
                    reveal_strlit("stop");
                    assert("containers:stop"@ =~= scope_chars(self));
                }
                "containers:stop"
            },
            Scope::ContainersRestart => {
                proof {
                    reveal_strlit("containers:restart");
                    reveal_strlit("containers");
                    reveal_strlit("restart");
                    assert("containers:restart"@ =~= scope_chars(self));
                }
                "containers:restart"
            },
            Scope::ContainersKill => {
                proof {
                    reveal_strlit("containers:kill");
                    reveal_strlit("containers");
                    reveal_strlit("kill");
                    assert("containers:kill"@ =~= scope_chars(self));
                }
                "containers:kill"
            },
            Scope::ContainersRemove => {
                proof {
                    reveal_strlit("containers:remove");
                    reveal_strlit("containers");
                    reveal_strlit("remove");
                    assert("containers:remove"@ =~= scope_chars(self));
                }
                "containers:remove"
            },
            Scope::ContainersExec => {
                proof {
                    reveal_strlit("containers:exec");
                    reveal_strlit("containers");
                    reveal_strlit("exec");
                    assert("containers:exec"@ =~= scope_chars(self));
                }
                "containers:exec"
            },
            Scope::ImagesList => {
                proof {
                    reveal_strlit("images:list");
                    reveal_strlit("images");
                    reveal_strlit("list");
                    assert("images:list"@ =~= scope_chars(self));
                }
                "images:list"
            },
            Scope::ImagesGet => {
                proof {
                    reveal_strlit("images:get");
                    reveal_strlit("images");
                    reveal_strlit("get");
                    assert("images:get"@ =~= scope_chars(self));
                }
                "images:get"
            },
            Scope::ImagesPull => {
                proof {
                    reveal_strlit("images:pull");
                    reveal_strlit("images");
                    reveal_strlit("pull");
                    assert("images:pull"@ =~= scope_chars(self));
                }
                "images:pull"
            },
            Scope::ImagesBuild => {
                proof {
                    reveal_strlit("images:build");
                    reveal_strlit("images");
                    reveal_strlit("build");
                    assert("images:build"@ =~= scope_chars(self));
                }
                "images:build"
            },
            Scope::ImagesDelete => {
                proof {
                    reveal_strlit("images:delete");
                    reveal_strlit("images");
                    reveal_strlit("delete");
                    assert("images:delete"@ =~= scope_chars(self));
                }
                "images:delete"
            },
            Scope::VolumesList => {
                proof {
                    reveal_strlit("volumes:list");
                    reveal_strlit("volumes");
                    reveal_strlit("list");
                    assert("volumes:list"@ =~= scope_chars(self));
                }
                "volumes:list"
            },
            Scope::VolumesGet => {
                proof {
                    reveal_strlit("volumes:get");
                    reveal_strlit("volumes");
                    reveal_strlit("get");
                    assert("volumes:get"@ =~= scope_chars(self));
                }
                "volumes:get"
            },
            Scope::VolumesCreate => {
                proof {
                    reveal_strlit("volumes:create");
                    reveal_strlit("volumes");
                    reveal_strlit("create");
                    assert("volumes:create"@ =~= scope_chars(self));
                }
                "volumes:create"
            },
            Scope::VolumesDelete => {
                proof {
                    reveal_strlit("volumes:delete");
                    reveal_strlit("volumes");
                    reveal_strlit("delete");
                    assert("volumes:delete"@ =~= scope_chars(self));
                }
                "volumes:delete"
            },
            Scope::NetworksList => {
                proof {
                    reveal_strlit("networks:list");
                    reveal_strlit("networks");
                    reveal_strlit("list");
                    assert("networks:list"@ =~= scope_chars(self));
                }
                "networks:list"
            },
            Scope::NetworksGet => {
                proof {
                    reveal_strlit("networks:get");
                    reveal_strlit("networks");
                    reveal_strlit("get");
                    assert("networks:get"@ =~= scope_chars(self));
                }
                "networks:get"
            },
            Scope::NetworksCreate => {
                proof {
                    reveal_strlit("networks:create");
                    reveal_strlit("networks");
                    reveal_strlit("create");
                    assert("networks:create"@ =~= scope_chars(self));
                }
                "networks:create"
            },
            Scope::NetworksDelete => {
                proof {
                    reveal_strlit("networks:delete");
                    reveal_strlit("networks");
                    reveal_strlit("delete");
                    assert("networks:delete"@ =~= scope_chars(self));
                }
                "networks:delete"
            },
            Scope::DockerfilesList => {
                proof {
                    reveal_strlit("dockerfiles:list");
                    reveal_strlit("dockerfiles");
                    reveal_strlit("list");
                    assert("dockerfiles:list"@ =~= scope_chars(self));
                }
                "dockerfiles:list"
            },
            Scope::DockerfilesGet => {
                proof {
                    reveal_strlit("dockerfiles:get");
                    reveal_strlit("dockerfiles");
                    reveal_strlit("get");
                    assert("dockerfiles:get"@ =~= scope_chars(self));
                }
                "dockerfiles:get"
            },
            Scope::DockerfilesPut => {
                proof {
                    reveal_strlit("dockerfiles:put");
                    reveal_strlit("dockerfiles");
                    reveal_strlit("put");
                    assert("dockerfiles:put"@ =~= scope_chars(self));
                }
                "dockerfiles:put"
            },
            Scope::DockerfilesDelete => {
                proof {
                    reveal_strlit("dockerfiles:delete");
                    reveal_strlit("dockerfiles");
                    reveal_strlit("delete");
                    assert("dockerfiles:delete"@ =~= scope_chars(self));
                }
                "dockerfiles:delete"
            },
            Scope::StacksList => {
                proof {
                    reveal_strlit("stacks:list");
                    reveal_strlit("stacks");
                    reveal_strlit("list");
                    assert("stacks:list"@ =~= scope_chars(self));
                }
                "stacks:list"
            },
            Scope::StacksGet => {
                proof {
                    reveal_strlit("stacks:get");
                    reveal_strlit("stacks");
                    reveal_strlit("get");
                    assert("stacks:get"@ =~= scope_chars(self));
                }
                "stacks:get"
            },
            Scope::StacksLogs => {
                proof {
                    reveal_strlit("stacks:logs");
                    reveal_strlit("stacks");
                    reveal_strlit("logs");
                    assert("stacks:logs"@ =~= scope_chars(self));
                }
                "stacks:logs"
            },
            Scope::StacksCreate => {
                proof {
                    reveal_strlit("stacks:create");
                    reveal_strlit("stacks");
                    reveal_strlit("create");
                    assert("stacks:create"@ =~= scope_chars(self));
                }
                "stacks:create"
            },
            Scope::StacksDelete => {
                proof {
                    reveal_strlit("stacks:delete");
                    reveal_strlit("stacks");
                    reveal_strlit("delete");
                    assert("stacks:delete"@ =~= scope_chars(self));
                }
                "stacks:delete"
            },
            Scope::StacksRedeploy => {
                proof {
                    reveal_strlit("stacks:redeploy");
                    reveal_strlit("stacks");
                    reveal_strlit("redeploy");
                    assert("stacks:redeploy"@ =~= scope_chars(self));
                }
                "stacks:redeploy"
            },
            Scope::StacksUpdate => {
                proof {
                    reveal_strlit("stacks:update");
                    reveal_strlit("stacks");
                    reveal_strlit("update");
                    assert("stacks:update"@ =~= scope_chars(self));
                }
                "stacks:update"
            },
            Scope::StacksPull => {
                proof {
                    reveal_strlit("stacks:pull");
                    reveal_strlit("stacks");
                    reveal_strlit("pull");
                    assert("stacks:pull"@ =~= scope_chars(self));
                }
                "stacks:pull"
            },
            Scope::SecretsList => {
                proof {
                    reveal_strlit("secrets:list");
                    reveal_strlit("secrets");
                    reveal_strlit("list");
                    assert("secrets:list"@ =~= scope_chars(self));
                }
                "secrets:list"
            },
            Scope::SecretsPut => {
                proof {
                    reveal_strlit("secrets:put");
                    reveal_strlit("secrets");
                    reveal_strlit("put");
                    assert("secrets:put"@ =~= scope_chars(self));
                }
                "secrets:put"
            },
            Scope::SecretsDelete => {
                proof {
                    reveal_strlit("secrets:delete");
                    reveal_strlit("secrets");
                    reveal_strlit("delete");
                    assert("secrets:delete"@ =~= scope_chars(self));
                }
                "secrets:delete"
            },
            Scope::SecretsReveal => {
                proof {
                    reveal_strlit("secrets:reveal");
                    reveal_strlit("secrets");
                    reveal_strlit("reveal");
                    assert("secrets:reveal"@ =~= scope_chars(self));
                }
                "secrets:reveal"
            },
        }
    }
}

impl Scope {
    /// Resource portion of `<resource>:<action>`, used for the
    /// `<resource>:*` wildcard match.
    pub fn resource(self) -> (res: &'static str)
        ensures
            res@ == spec_resource(self),
    {
        match self {
            Scope::HostInfo => "host",
            Scope::AuthWhoami => "auth",
            Scope::ContainersList => "containers",
            Scope::ContainersGet => "containers",
            Scope::ContainersLogs => "containers",
            Scope::ContainersStats => "containers",
            Scope::ContainersCreate => "containers",
            Scope::ContainersStart => "containers",
            Scope::ContainersStop => "containers",
            Scope::ContainersRestart => "containers",
            Scope::ContainersKill => "containers",
            Scope::ContainersRemove => "containers",
            Scope::ContainersExec => "containers",
            Scope::ImagesList => "images",
            Scope::ImagesGet => "images",
            Scope::ImagesPull => "images",
            Scope::ImagesBuild => "images",
            Scope::ImagesDelete => "images",
            Scope::VolumesList => "volumes",
            Scope::VolumesGet => "volumes",
            Scope::VolumesCreate => "volumes",
            Scope::VolumesDelete => "volumes",
            Scope::NetworksList => "networks",
            Scope::NetworksGet => "networks",
            Scope::NetworksCreate => "networks",
            Scope::NetworksDelete => "networks",
            Scope::DockerfilesList => "dockerfiles",
            Scope::DockerfilesGet => "dockerfiles",
            Scope::DockerfilesPut => "dockerfiles",
            Scope::DockerfilesDelete => "dockerfiles",
            Scope::StacksList => "stacks",
            Scope::StacksGet => "stacks",
            Scope::StacksLogs => "stacks",
            Scope::StacksCreate => "stacks",
            Scope::StacksDelete => "stacks",
            Scope::StacksRedeploy => "stacks",
            Scope::StacksUpdate => "stacks",
            Scope::StacksPull => "stacks",
            Scope::SecretsList => "secrets",
            Scope::SecretsPut => "secrets",
            Scope::SecretsDelete => "secrets",
            Scope::SecretsReveal => "secrets",
        }
    }
}

} // verus!
