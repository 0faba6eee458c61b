//! Deployment backend configuration: the closed set of backends a package may
//! declare in its manifest, and the defaults applied to omitted fields.

use vstd::prelude::*;
use vstd::string::StringExecFns;
use crate::text::value_str_ok;

verus! {

/// Configuration of the containerized backend as declared in a manifest.
#[derive(Debug)]
pub struct DockerConfig {
    dockerfile: String,
    scoped: bool,
    max_replica: u64,
}

/// Mathematical image of a [`DockerConfig`].
pub struct DockerConfigView {
    pub dockerfile: Seq<char>,
    pub scoped: bool,
    pub max_replica: u64,
}

impl View for DockerConfig {
    type V = DockerConfigView;

    closed spec fn view(&self) -> DockerConfigView {
        DockerConfigView { dockerfile: self.dockerfile@, scoped: self.scoped, max_replica: self.max_replica }
    }
}

/// The default configuration of the containerized backend.
pub open spec fn docker_defaults() -> DockerConfigView {
    DockerConfigView { dockerfile: "./Dockerfile"@, scoped: false, max_replica: 1 }
}

/// A well-formed docker configuration: a printable build-file path and at
/// least one replica.
pub open spec fn docker_config_wf(d: DockerConfigView) -> bool {
    value_str_ok(d.dockerfile) && d.max_replica >= 1
}

impl DockerConfig {
    pub fn new(dockerfile: String, scoped: bool, max_replica: u64) -> (r: Self)
        requires
            value_str_ok(dockerfile@),
            max_replica >= 1,
        ensures
            r@ == (DockerConfigView { dockerfile: dockerfile@, scoped, max_replica }),
    {
        Self { dockerfile, scoped, max_replica }
    }

    /// The build file used when the manifest names none.
    pub fn default_dockerfile() -> (r: String)
        ensures
            r@ == docker_defaults().dockerfile,
    {
        String::from_str("./Dockerfile")
    }

    /// Namespace isolation is off unless the manifest asks for it.
    pub fn default_scoped() -> (r: bool)
        ensures
            r == docker_defaults().scoped,
    {
        false
    }

    /// A single replica unless the manifest raises the cap.
    pub fn default_max_replica() -> (r: u64)
        ensures
            r == docker_defaults().max_replica,
    {
        1
    }

    pub fn dockerfile(&self) -> (r: &String)
        ensures
            r@ == self@.dockerfile,
    {
        &self.dockerfile
    }

    pub fn scoped(&self) -> (r: bool)
        ensures
            r == self@.scoped,
    {
        self.scoped
    }

    pub fn max_replica(&self) -> (r: u64)
        ensures
            r == self@.max_replica,
    {
        self.max_replica
    }
}

impl Clone for DockerConfig {
    fn clone(&self) -> (r: Self)
        ensures
            r@ == self@,
    {
        Self { dockerfile: self.dockerfile.clone(), scoped: self.scoped, max_replica: self.max_replica }
    }
}

impl Default for DockerConfig {
    /// The configuration every field of which takes its documented default.
    fn default() -> (r: Self)
        ensures
            r@ == docker_defaults(),
    {
        Self {
            dockerfile: Self::default_dockerfile(),
            scoped: Self::default_scoped(),
            max_replica: Self::default_max_replica(),
        }
    }
}

/// The closed set of deployment backends a manifest may declare.
#[derive(Debug)]
pub enum BackendConfig {
    /// No managed runtime: install and uninstall are no-ops.
    Local,
    /// A containerized runtime driven by a local container daemon.
    Docker(DockerConfig),
}

/// Mathematical image of a [`BackendConfig`].
pub enum BackendConfigView {
    Local,
    Docker(DockerConfigView),
}

impl View for BackendConfig {
    type V = BackendConfigView;

    open spec fn view(&self) -> BackendConfigView {
        match self {
            BackendConfig::Local => BackendConfigView::Local,
            BackendConfig::Docker(d) => BackendConfigView::Docker(d@),
        }
    }
}

pub open spec fn backend_config_wf(b: BackendConfigView) -> bool {
    match b {
        BackendConfigView::Local => true,
        BackendConfigView::Docker(d) => docker_config_wf(d),
    }
}

impl Clone for BackendConfig {
    fn clone(&self) -> (r: Self)
        ensures
            r@ == self@,
    {
        match self {
            BackendConfig::Local => BackendConfig::Local,
            BackendConfig::Docker(d) => BackendConfig::Docker(d.clone()),
        }
    }
}

impl Default for BackendConfig {
    /// A package that declares no backend is containerized with defaults.
    fn default() -> (r: Self)
        ensures
            r@ == BackendConfigView::Docker(docker_defaults()),
    {
        BackendConfig::Docker(DockerConfig::default())
    }
}

} // verus!
