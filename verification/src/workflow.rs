//! The synchronization workflow: resolving a package name from a source URL,
//! and the state machine that orders registry check, fetch, backend
//! installation and registry commit, with cleanup on every exit path.

use vstd::prelude::*;
use vstd::string::{StrSliceExecFns, StringExecFns};
use crate::registry::{parse_registry_spec, registry_text, seq_to_map, PackageMap};
use crate::text::{commit_id_seq, is_commit_id, is_valid_name, is_value_str, valid_name_seq, value_str_ok};
use crate::types::{
    package_config_wf, parse_manifest_spec, Error, Package, PackageConfig, PackageView,
};
use crate::backends::BackendConfig;

verus! {

/// What `url::Url::parse` followed by `as_str` yields on this input: the
/// URL in normalized text form, or nothing when the input is not a URL.
/// The result depends on the input alone.
pub uninterp spec fn url_norm(s: Seq<char>) -> Option<Seq<char>>;

/// What `url::Url::parse` followed by `path_segments().last()` yields on
/// this input: the last segment of the URL's path, or nothing when the
/// input is not a URL or its path has no segments. The result depends on
/// the input alone.
pub uninterp spec fn url_last_seg(s: Seq<char>) -> Option<Seq<char>>;

/// Relies on `url::Url::parse` and `url::Url::as_str`: parses `s` and hands
/// back its normalized text, or `None` when `s` is not a well-formed URL.
#[verifier::external_body]
pub(crate) fn url_normalize(s: &str) -> (r: Option<String>)
    ensures
        match r {
            Some(n) => url_norm(s@) == Some(n@),
            None => url_norm(s@) is None,
        },
{
    match url::Url::parse(s) {
        Ok(u) => Some(u.as_str().to_string()),
        Err(_) => None,
    }
}

/// Relies on `url::Url::parse` and `url::Url::path_segments`: the last
/// segment of the URL's path, or `None` when `s` is not a URL or its path
/// cannot be split into segments.
#[verifier::external_body]
pub(crate) fn url_last_segment(s: &str) -> (r: Option<String>)
    ensures
        match r {
            Some(n) => url_last_seg(s@) == Some(n@),
            None => url_last_seg(s@) is None,
        },
{
    match url::Url::parse(s) {
        Ok(u) => u.path_segments().and_then(|it| it.last()).map(|x| x.to_string()),
        Err(_) => None,
    }
}

/// `s` without a trailing `.git`, when it carries one.
pub open spec fn strip_git_suffix(s: Seq<char>) -> Seq<char> {
    if s.len() >= 4 && s.subrange(s.len() - 4, s.len() as int) == seq!['.', 'g', 'i', 't'] {
        s.take(s.len() - 4)
    } else {
        s
    }
}

/// The package name a sync derives: the explicit override when given, else
/// the last path segment of the source URL with any `.git` suffix dropped.
pub open spec fn resolved_name(explicit: Option<Seq<char>>, url: Seq<char>) -> Option<Seq<char>> {
    match explicit {
        Some(n) => Some(n),
        None => match url_last_seg(url) {
            Some(s) => Some(strip_git_suffix(s)),
            None => None,
        },
    }
}

/// Why a sync run stopped, one variant per failing step.
#[derive(Debug)]
pub enum SyncError {
    /// The given source location is not a well-formed URL.
    UrlInvalid,
    /// No name was given and none can be derived from the URL.
    NameNotFound,
    /// The derived or given name is not usable as a single path segment.
    InvalidName,
    /// A package of this name is already installed; nothing was fetched.
    AlreadyInstalled(String),
    /// The registry could not be opened or read back.
    Registry(Error),
    /// Resolving, cloning or reading the package failed.
    Fetch(Error),
    /// The staging directory could not be created: the path, then the cause.
    Staging(String, String),
    /// The deployment backend could not be constructed.
    BackendConstruction(String),
    /// The deployment backend failed to install the package.
    BackendOperation(String),
}

/// Strip a trailing `.git` from `s`, if present.
pub fn strip_git(s: &str) -> (r: String)
    ensures
        r@ == strip_git_suffix(s@),
{
    let n = s.unicode_len();
    if n >= 4 && s.get_char(n - 4) == '.' && s.get_char(n - 3) == 'g' && s.get_char(n - 2) == 'i'
        && s.get_char(n - 1) == 't' {
        proof {
            assert(s@.subrange(n - 4, n as int) =~= seq!['.', 'g', 'i', 't']);
        }
        let head = s.substring_char(0, n - 4);
        String::from_str(head)
    } else {
        proof {
            if s@.len() >= 4 && s@.subrange(n - 4, n as int) == seq!['.', 'g', 'i', 't'] {
                assert(s@[n - 4] == '.' && s@[n - 3] == 'g' && s@[n - 2] == 'i' && s@[n - 1] == 't');
            }
        }
        String::from_str(s)
    }
}

/// Derive the package name for a sync of `url`, honoring an explicit
/// override, and validate it as a single safe path segment.
pub fn resolve_name(explicit: Option<String>, url: &str) -> (r: Result<String, SyncError>)
    ensures
        match r {
            Ok(n) => resolved_name(
                match explicit {
                    Some(e) => Some(e@),
                    None => None,
                },
                url@,
            ) == Some(n@) && valid_name_seq(n@),
            Err(SyncError::NameNotFound) => resolved_name(
                match explicit {
                    Some(e) => Some(e@),
                    None => None,
                },
                url@,
            ) is None,
            Err(SyncError::InvalidName) => match resolved_name(
                match explicit {
                    Some(e) => Some(e@),
                    None => None,
                },
                url@,
            ) {
                Some(m) => !valid_name_seq(m),
                None => false,
            },
            _ => false,
        },
{
    let name = match explicit {
        Some(e) => e,
        None => match url_last_segment(url) {
            Some(seg) => strip_git(seg.as_str()),
            None => {
                return Err(SyncError::NameNotFound);
            },
        },
    };
    if is_valid_name(name.as_str()) {
        Ok(name)
    } else {
        Err(SyncError::InvalidName)
    }
}

/// What the embedding program is asked to do next. Every effectful step of a
/// sync — opening and saving the registry file, resolving and cloning over
/// the network, staging directories, driving the deployment backend — is
/// requested through one of these; the decisions in between are made here.
#[derive(Debug)]
pub enum SyncAction {
    /// Lock and read the registry file, then report through `on_registry`.
    OpenRegistry,
    /// Resolve the remote's current head commit, e.g. with
    /// `latest_remote_commit`; report through `on_commit`.
    ResolveCommit { url: String },
    /// Create a fresh, uniquely named staging directory; report through
    /// `on_staged`.
    CreateStaging,
    /// Clone and check out, e.g. with `clone_at`; report through
    /// `on_cloned`.
    CloneCheckout { url: String, commit: String, dir: String },
    /// Read the manifest file inside the staging directory; report through
    /// `on_manifest`.
    ReadManifest { dir: String },
    /// Construct the deployment backend (for `docker`, contact the local
    /// container daemon); report through `on_backend`.
    ConnectBackend { docker: bool },
    /// Ask the backend to install the staged package; report through
    /// `on_installed`.
    Install { dir: String },
    /// Remove the staging directory; report through `on_removed`.
    RemoveStaging { dir: String },
    /// Rewrite the registry file with this text and release its lock;
    /// report through `on_saved`.
    SaveRegistry { text: String },
    /// Terminal: report the outcome to the operator.
    Report { ok: bool },
}

/// Where a sync stands. Each phase awaits the outcome of the one action
/// issued on entering it.
pub enum Phase {
    Idle,
    Opening,
    Resolving { map: PackageMap },
    Staging { map: PackageMap, commit: String },
    Cloning { map: PackageMap, commit: String, dir: String },
    Reading { map: PackageMap, commit: String, dir: String },
    Connecting { map: PackageMap, commit: String, dir: String, config: PackageConfig },
    Installing { map: PackageMap, commit: String, dir: String, config: PackageConfig },
    Removing { map: PackageMap, failure: Option<SyncError> },
    Saving { failure: Option<SyncError> },
    Done { failure: Option<SyncError> },
}

/// One run of the synchronization workflow: registry check, fetch, backend
/// installation, registry commit, cleanup on every exit path. The embedding
/// program performs each returned [`SyncAction`] and hands the outcome to
/// the matching handler; every decision in between is verified.
///
/// Two properties hold across the whole run, stated clause by clause on the
/// handlers since each transition is its own function: the registry entries
/// that are finally flushed equal the loaded ones unless installation
/// succeeded, in which case exactly the resolved record was inserted; and
/// once a staging directory exists, every handler's failure outcome requests
/// its removal before the registry is flushed.
pub struct SyncCommand {
    pub url: String,
    pub name: String,
    pub phase: Phase,
}

impl SyncCommand {
    /// The name and source location are fit for a package record.
    pub open spec fn ready_wf(&self) -> bool {
        valid_name_seq(self.name@) && self.url@.len() > 0 && value_str_ok(self.url@)
    }

    /// The invariant every phase maintains.
    pub open spec fn wf(&self) -> bool {
        match self.phase {
            Phase::Idle => true,
            Phase::Opening => self.ready_wf(),
            Phase::Resolving { map } => self.ready_wf() && map.wf(),
            Phase::Staging { map, commit } => self.ready_wf() && map.wf() && commit_id_seq(
                commit@,
            ),
            Phase::Cloning { map, commit, dir } => self.ready_wf() && map.wf() && commit_id_seq(
                commit@,
            ),
            Phase::Reading { map, commit, dir } => self.ready_wf() && map.wf() && commit_id_seq(
                commit@,
            ),
            Phase::Connecting { map, commit, dir, config } => self.ready_wf() && map.wf()
                && commit_id_seq(commit@) && package_config_wf(config@),
            Phase::Installing { map, commit, dir, config } => self.ready_wf() && map.wf()
                && commit_id_seq(commit@) && package_config_wf(config@),
            Phase::Removing { map, failure } => map.wf(),
            Phase::Saving { failure } => true,
            Phase::Done { failure } => true,
        }
    }

    /// A fresh workflow, not yet started.
    pub fn new() -> (r: Self)
        ensures
            r.phase is Idle,
            r.wf(),
    {
        SyncCommand { url: String::new(), name: String::new(), phase: Phase::Idle }
    }

    /// Begin a sync of `raw_url`: validate the URL, resolve and validate the
    /// package name, and ask for the registry. Nothing is fetched before the
    /// registry has been checked.
    pub fn start(self, raw_url: &str, name_override: Option<String>) -> (r: (Self, SyncAction))
        requires
            self.phase is Idle,
        ensures
            r.0.wf(),
            ({
                let explicit = match name_override {
                    Some(e) => Some(e@),
                    None => None,
                };
                match url_norm(raw_url@) {
                    None => r.0.phase matches Phase::Done { failure: Some(f) } && f
                        is UrlInvalid && r.1 matches SyncAction::Report { ok: false },
                    Some(u) => {
                        if !(u.len() > 0 && value_str_ok(u)) {
                            r.0.phase matches Phase::Done { failure: Some(f) } && f
                                is UrlInvalid && r.1 matches SyncAction::Report { ok: false }
                        } else {
                            match resolved_name(explicit, u) {
                                None => r.0.phase matches Phase::Done { failure: Some(f) } && f
                                    is NameNotFound && r.1 matches SyncAction::Report {
                                    ok: false,
                                },
                                Some(n) => {
                                    if valid_name_seq(n) {
                                        &&& r.0.url@ == u
                                        &&& r.0.name@ == n
                                        &&& r.0.phase is Opening
                                        &&& r.1 is OpenRegistry
                                    } else {
                                        r.0.phase matches Phase::Done { failure: Some(f) } && f
                                            is InvalidName && r.1 matches SyncAction::Report {
                                            ok: false,
                                        }
                                    }
                                },
                            }
                        }
                    },
                }
            }),
    {
        let url = match url_normalize(raw_url) {
            Some(u) => u,
            None => {
                return (
                    SyncCommand { phase: Phase::Done { failure: Some(SyncError::UrlInvalid) }, ..self },
                    SyncAction::Report { ok: false },
                );
            },
        };
        if url.as_str().is_empty() || !is_value_str(url.as_str()) {
            return (
                SyncCommand { phase: Phase::Done { failure: Some(SyncError::UrlInvalid) }, ..self },
                SyncAction::Report { ok: false },
            );
        }
        let name = match resolve_name(name_override, url.as_str()) {
            Ok(n) => n,
            Err(e) => {
                return (
                    SyncCommand { phase: Phase::Done { failure: Some(e) }, ..self },
                    SyncAction::Report { ok: false },
                );
            },
        };
        (SyncCommand { url, name, phase: Phase::Opening }, SyncAction::OpenRegistry)
    }

    /// The registry file was opened (or not). On a locked or unreadable
    /// registry the run stops before anything is fetched; when the package
    /// is already installed the run fails fast, flushing the registry
    /// unchanged — no silent overwrite, no fetch.
    pub fn on_registry(self, path: String, outcome: Result<String, Error>) -> (r: (
        Self,
        SyncAction,
    ))
        requires
            self.phase is Opening,
            self.wf(),
        ensures
            r.0.wf(),
            match outcome {
                Err(e) => r.0.phase matches Phase::Done { failure: Some(f) } && (f
                    matches SyncError::Registry(e2) && e2 == e) && r.1
                    matches SyncAction::Report { ok: false },
                Ok(text) => match parse_registry_spec(text@) {
                    None => r.0.phase matches Phase::Done { failure: Some(f) } && (f
                        matches SyncError::Registry(Error::DeserializationError(p, m)) && p@
                        == path@) && r.1 matches SyncAction::Report { ok: false },
                    Some(es) => {
                        if seq_to_map(es).contains_key(self.name@) {
                            &&& r.0.phase matches Phase::Saving { failure: Some(f) } && f
                                matches SyncError::AlreadyInstalled(n) && n@ == self.name@
                            &&& r.1 matches SyncAction::SaveRegistry { text: t } && t@
                                == registry_text(es)
                        } else {
                            &&& r.0.phase matches Phase::Resolving { map } && map.entries_view()
                                == es
                            &&& r.1 matches SyncAction::ResolveCommit { url: u } && u@
                                == self.url@
                            &&& r.0.name@ == self.name@ && r.0.url@ == self.url@
                        }
                    },
                },
            },
    {
        let text = match outcome {
            Ok(t) => t,
            Err(e) => {
                return (
                    SyncCommand {
                        phase: Phase::Done { failure: Some(SyncError::Registry(e)) },
                        ..self
                    },
                    SyncAction::Report { ok: false },
                );
            },
        };
        let map = match PackageMap::from_text(text.as_str()) {
            Ok(m) => m,
            Err(msg) => {
                return (
                    SyncCommand {
                        phase: Phase::Done {
                            failure: Some(
                                SyncError::Registry(Error::DeserializationError(path, msg)),
                            ),
                        },
                        ..self
                    },
                    SyncAction::Report { ok: false },
                );
            },
        };
        if map.contains(self.name.as_str()) {
            let text2 = map.to_text();
            return (
                SyncCommand {
                    phase: Phase::Saving {
                        failure: Some(SyncError::AlreadyInstalled(self.name.clone())),
                    },
                    ..self
                },
                SyncAction::SaveRegistry { text: text2 },
            );
        }
        let url2 = self.url.clone();
        (
            SyncCommand { phase: Phase::Resolving { map }, ..self },
            SyncAction::ResolveCommit { url: url2 },
        )
    }

    /// The remote's head commit was resolved (or not). On failure the
    /// registry is flushed unchanged and the run stops; nothing was staged
    /// yet, so there is nothing to clean up.
    pub fn on_commit(self, outcome: Result<String, Error>) -> (r: (Self, SyncAction))
        requires
            self.phase matches Phase::Resolving { .. },
            self.wf(),
        ensures
            r.0.wf(),
            self.phase matches Phase::Resolving { map: m0 } ==> match outcome {
                Err(e) => {
                    &&& r.0.phase matches Phase::Saving { failure: Some(f) } && (f
                        matches SyncError::Fetch(e2) && e2 == e)
                    &&& r.1 matches SyncAction::SaveRegistry { text: t } && t@ == registry_text(
                        m0.entries_view(),
                    )
                },
                Ok(c) => {
                    if commit_id_seq(c@) {
                        &&& r.0.phase matches Phase::Staging { map, commit } && map.entries_view()
                            == m0.entries_view() && commit@ == c@
                        &&& r.1 is CreateStaging
                        &&& r.0.name@ == self.name@ && r.0.url@ == self.url@
                    } else {
                        &&& r.0.phase matches Phase::Saving { failure: Some(f) } && f is Fetch
                        &&& r.1 matches SyncAction::SaveRegistry { text: t } && t@
                            == registry_text(m0.entries_view())
                    }
                },
            },
    {
        let map = match self.phase {
            Phase::Resolving { map } => map,
            _ => {
                proof {
                    assert(false);
                }
                unreached()
            },
        };
        match outcome {
            Ok(c) => {
                if is_commit_id(c.as_str()) {
                    (
                        SyncCommand {
                            url: self.url,
                            name: self.name,
                            phase: Phase::Staging { map, commit: c },
                        },
                        SyncAction::CreateStaging,
                    )
                } else {
                    let text = map.to_text();
                    (
                        SyncCommand {
                            url: self.url,
                            name: self.name,
                            phase: Phase::Saving {
                                failure: Some(
                                    SyncError::Fetch(
                                        Error::Git(
                                            String::from_str(
                                                "the resolved commit identifier is malformed",
                                            ),
                                        ),
                                    ),
                                ),
                            },
                        },
                        SyncAction::SaveRegistry { text },
                    )
                }
            },
            Err(e) => {
                let text = map.to_text();
                (
                    SyncCommand {
                        url: self.url,
                        name: self.name,
                        phase: Phase::Saving { failure: Some(SyncError::Fetch(e)) },
                    },
                    SyncAction::SaveRegistry { text },
                )
            },
        }
    }

    /// The staging directory was created (or not). On failure the registry
    /// is flushed unchanged; on success cloning starts into the fresh
    /// directory, which from here on is removed on every exit path.
    pub fn on_staged(self, outcome: Result<String, (String, String)>) -> (r: (Self, SyncAction))
        requires
            self.phase matches Phase::Staging { .. },
            self.wf(),
        ensures
            r.0.wf(),
            self.phase matches Phase::Staging { map: m0, commit: c0 } ==> match outcome {
                Err(pm) => {
                    &&& r.0.phase matches Phase::Saving { failure: Some(f) } && (f
                        matches SyncError::Staging(p, m) && p@ == pm.0@ && m@ == pm.1@)
                    &&& r.1 matches SyncAction::SaveRegistry { text: t } && t@ == registry_text(
                        m0.entries_view(),
                    )
                },
                Ok(d) => {
                    &&& r.0.phase matches Phase::Cloning { map, commit, dir } && map.entries_view()
                        == m0.entries_view() && commit@ == c0@ && dir@ == d@
                    &&& r.1 matches SyncAction::CloneCheckout { url: u, commit: c, dir: dd } && u@
                        == self.url@ && c@ == c0@ && dd@ == d@
                    &&& r.0.name@ == self.name@ && r.0.url@ == self.url@
                },
            },
    {
        let (map, commit) = match self.phase {
            Phase::Staging { map, commit } => (map, commit),
            _ => {
                proof {
                    assert(false);
                }
                unreached()
            },
        };
        match outcome {
            Ok(dir) => {
                let act = SyncAction::CloneCheckout {
                    url: self.url.clone(),
                    commit: commit.clone(),
                    dir: dir.clone(),
                };
                (
                    SyncCommand {
                        url: self.url,
                        name: self.name,
                        phase: Phase::Cloning { map, commit, dir },
                    },
                    act,
                )
            },
            Err((path, msg)) => {
                let text = map.to_text();
                (
                    SyncCommand {
                        url: self.url,
                        name: self.name,
                        phase: Phase::Saving { failure: Some(SyncError::Staging(path, msg)) },
                    },
                    SyncAction::SaveRegistry { text },
                )
            },
        }
    }

    /// The clone and checkout finished (or failed). A failure leaves the
    /// registry unchanged, and the staging directory is removed at once.
    pub fn on_cloned(self, outcome: Result<(), Error>) -> (r: (Self, SyncAction))
        requires
            self.phase matches Phase::Cloning { .. },
            self.wf(),
        ensures
            r.0.wf(),
            self.phase matches Phase::Cloning { map: m0, commit: c0, dir: d0 } ==> match outcome {
                Err(e) => {
                    &&& r.0.phase matches Phase::Removing { map, failure: Some(f) }
                        && map.entries_view() == m0.entries_view() && (f
                        matches SyncError::Fetch(e2) && e2 == e)
                    &&& r.1 matches SyncAction::RemoveStaging { dir } && dir@ == d0@
                },
                Ok(u) => {
                    &&& r.0.phase matches Phase::Reading { map, commit, dir } && map.entries_view()
                        == m0.entries_view() && commit@ == c0@ && dir@ == d0@
                    &&& r.1 matches SyncAction::ReadManifest { dir } && dir@ == d0@
                    &&& r.0.name@ == self.name@ && r.0.url@ == self.url@
                },
            },
    {
        let (map, commit, dir) = match self.phase {
            Phase::Cloning { map, commit, dir } => (map, commit, dir),
            _ => {
                proof {
                    assert(false);
                }
                unreached()
            },
        };
        match outcome {
            Ok(()) => {
                let act = SyncAction::ReadManifest { dir: dir.clone() };
                (
                    SyncCommand {
                        url: self.url,
                        name: self.name,
                        phase: Phase::Reading { map, commit, dir },
                    },
                    act,
                )
            },
            Err(e) => {
                (
                    SyncCommand {
                        url: self.url,
                        name: self.name,
                        phase: Phase::Removing { map, failure: Some(SyncError::Fetch(e)) },
                    },
                    SyncAction::RemoveStaging { dir },
                )
            },
        }
    }

    /// The manifest file was read (or not) and is parsed here; `path` names
    /// it in diagnostics. A manifest declaring a docker backend asks for the
    /// container daemon; a local backend needs no connection.
    pub fn on_manifest(self, path: String, outcome: Result<String, Error>) -> (r: (
        Self,
        SyncAction,
    ))
        requires
            self.phase matches Phase::Reading { .. },
            self.wf(),
        ensures
            r.0.wf(),
            self.phase matches Phase::Reading { map: m0, commit: c0, dir: d0 } ==> match outcome {
                Err(e) => {
                    &&& r.0.phase matches Phase::Removing { map, failure: Some(f) }
                        && map.entries_view() == m0.entries_view() && (f
                        matches SyncError::Fetch(e2) && e2 == e)
                    &&& r.1 matches SyncAction::RemoveStaging { dir } && dir@ == d0@
                },
                Ok(text) => match parse_manifest_spec(text@) {
                    None => {
                        &&& r.0.phase matches Phase::Removing { map, failure: Some(f) }
                            && map.entries_view() == m0.entries_view() && (f
                            matches SyncError::Fetch(Error::DeserializationError(p, m)) && p@
                            == path@)
                        &&& r.1 matches SyncAction::RemoveStaging { dir } && dir@ == d0@
                    },
                    Some(cv) => {
                        &&& r.0.phase matches Phase::Connecting { map, commit, dir, config }
                            && map.entries_view() == m0.entries_view() && commit@ == c0@ && dir@
                            == d0@ && config@ == cv
                        &&& r.1 matches SyncAction::ConnectBackend { docker } && docker == (
                        cv.backend is Docker)
                        &&& r.0.name@ == self.name@ && r.0.url@ == self.url@
                    },
                },
            },
    {
        let (map, commit, dir) = match self.phase {
            Phase::Reading { map, commit, dir } => (map, commit, dir),
            _ => {
                proof {
                    assert(false);
                }
                unreached()
            },
        };
        let text = match outcome {
            Ok(t) => t,
            Err(e) => {
                return (
                    SyncCommand {
                        url: self.url,
                        name: self.name,
                        phase: Phase::Removing { map, failure: Some(SyncError::Fetch(e)) },
                    },
                    SyncAction::RemoveStaging { dir },
                );
            },
        };
        match PackageConfig::from_manifest(text.as_str()) {
            Err(msg) => {
                (
                    SyncCommand {
                        url: self.url,
                        name: self.name,
                        phase: Phase::Removing {
                            map,
                            failure: Some(
                                SyncError::Fetch(Error::DeserializationError(path, msg)),
                            ),
                        },
                    },
                    SyncAction::RemoveStaging { dir },
                )
            },
            Ok(config) => {
                let docker = match config.backend() {
                    BackendConfig::Docker(_) => true,
                    BackendConfig::Local => false,
                };
                (
                    SyncCommand {
                        url: self.url,
                        name: self.name,
                        phase: Phase::Connecting { map, commit, dir, config },
                    },
                    SyncAction::ConnectBackend { docker },
                )
            },
        }
    }

    /// The deployment backend was constructed (or not).
    pub fn on_backend(self, outcome: Result<(), String>) -> (r: (Self, SyncAction))
        requires
            self.phase matches Phase::Connecting { .. },
            self.wf(),
        ensures
            r.0.wf(),
            self.phase matches Phase::Connecting { map: m0, commit: c0, dir: d0, config: cf0 }
                ==> match outcome {
                Err(m) => {
                    &&& r.0.phase matches Phase::Removing { map, failure: Some(f) }
                        && map.entries_view() == m0.entries_view() && (f
                        matches SyncError::BackendConstruction(m2) && m2@ == m@)
                    &&& r.1 matches SyncAction::RemoveStaging { dir } && dir@ == d0@
                },
                Ok(u) => {
                    &&& r.0.phase matches Phase::Installing { map, commit, dir, config }
                        && map.entries_view() == m0.entries_view() && commit@ == c0@ && dir@
                        == d0@ && config@ == cf0@
                    &&& r.1 matches SyncAction::Install { dir } && dir@ == d0@
                    &&& r.0.name@ == self.name@ && r.0.url@ == self.url@
                },
            },
    {
        let (map, commit, dir, config) = match self.phase {
            Phase::Connecting { map, commit, dir, config } => (map, commit, dir, config),
            _ => {
                proof {
                    assert(false);
                }
                unreached()
            },
        };
        match outcome {
            Ok(()) => {
                let act = SyncAction::Install { dir: dir.clone() };
                (
                    SyncCommand {
                        url: self.url,
                        name: self.name,
                        phase: Phase::Installing { map, commit, dir, config },
                    },
                    act,
                )
            },
            Err(msg) => {
                (
                    SyncCommand {
                        url: self.url,
                        name: self.name,
                        phase: Phase::Removing {
                            map,
                            failure: Some(SyncError::BackendConstruction(msg)),
                        },
                    },
                    SyncAction::RemoveStaging { dir },
                )
            },
        }
    }

    /// The backend installed the package (or failed). On success — and only
    /// then — the resolved record is committed to the in-memory registry;
    /// either way the staging directory is now removed, and the registry is
    /// flushed afterwards.
    pub fn on_installed(self, outcome: Result<(), String>) -> (r: (Self, SyncAction))
        requires
            self.phase matches Phase::Installing { .. },
            self.wf(),
        ensures
            r.0.wf(),
            self.phase matches Phase::Installing { map: m0, commit: c0, dir: d0, config: cf0 }
                ==> match outcome {
                Err(m) => {
                    &&& r.0.phase matches Phase::Removing { map, failure: Some(f) }
                        && map.entries_view() == m0.entries_view() && (f
                        matches SyncError::BackendOperation(m2) && m2@ == m@)
                    &&& r.1 matches SyncAction::RemoveStaging { dir } && dir@ == d0@
                },
                Ok(u) => {
                    &&& r.0.phase matches Phase::Removing { map, failure: None } && map@
                        == m0@.insert(
                        self.name@,
                        (PackageView {
                            name: self.name@,
                            url: self.url@,
                            commit: c0@,
                            config: cf0@,
                        }),
                    )
                    &&& r.1 matches SyncAction::RemoveStaging { dir } && dir@ == d0@
                },
            },
    {
        let (mut map, commit, dir, config) = match self.phase {
            Phase::Installing { map, commit, dir, config } => (map, commit, dir, config),
            _ => {
                proof {
                    assert(false);
                }
                unreached()
            },
        };
        match outcome {
            Ok(()) => {
                let pkg = Package::new(self.name.clone(), self.url.clone(), commit, config);
                map.add(pkg);
                (
                    SyncCommand {
                        url: self.url,
                        name: self.name,
                        phase: Phase::Removing { map, failure: None },
                    },
                    SyncAction::RemoveStaging { dir },
                )
            },
            Err(msg) => {
                (
                    SyncCommand {
                        url: self.url,
                        name: self.name,
                        phase: Phase::Removing {
                            map,
                            failure: Some(SyncError::BackendOperation(msg)),
                        },
                    },
                    SyncAction::RemoveStaging { dir },
                )
            },
        }
    }

    /// The staging directory was removed (or could not be; that is logged by
    /// the embedding program, never escalated, so that scratch-space cleanup
    /// cannot mask the run's real outcome). The registry — updated exactly
    /// when installation succeeded — is now flushed.
    pub fn on_removed(self, outcome: Result<(), String>) -> (r: (Self, SyncAction))
        requires
            self.phase matches Phase::Removing { .. },
            self.wf(),
        ensures
            r.0.wf(),
            self.phase matches Phase::Removing { map: m0, failure: f0 } ==> {
                &&& r.0.phase matches Phase::Saving { failure: f } && f == f0
                &&& r.1 matches SyncAction::SaveRegistry { text: t } && t@ == registry_text(
                    m0.entries_view(),
                )
            },
    {
        let (map, failure) = match self.phase {
            Phase::Removing { map, failure } => (map, failure),
            _ => {
                proof {
                    assert(false);
                }
                unreached()
            },
        };
        let text = map.to_text();
        (
            SyncCommand { url: self.url, name: self.name, phase: Phase::Saving { failure } },
            SyncAction::SaveRegistry { text },
        )
    }

    /// The registry file was rewritten (or not; a flush failure is logged by
    /// the embedding program, never escalated — by now the run has already
    /// fully succeeded or fully failed). The run reports its one outcome.
    pub fn on_saved(self, outcome: Result<(), String>) -> (r: (Self, SyncAction))
        requires
            self.phase matches Phase::Saving { .. },
            self.wf(),
        ensures
            r.0.wf(),
            self.phase matches Phase::Saving { failure: f0 } ==> {
                &&& r.0.phase matches Phase::Done { failure: f } && f == f0
                &&& r.1 matches SyncAction::Report { ok } && ok == (f0 is None)
            },
    {
        let failure = match self.phase {
            Phase::Saving { failure } => failure,
            _ => {
                proof {
                    assert(false);
                }
                unreached()
            },
        };
        let ok = match &failure {
            None => true,
            Some(_) => false,
        };
        (
            SyncCommand { url: self.url, name: self.name, phase: Phase::Done { failure } },
            SyncAction::Report { ok },
        )
    }
}

} // verus!
