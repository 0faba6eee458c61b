//! The package data model: endpoint and package configuration, the package
//! record itself, the staging-area handle, and the error taxonomy of registry
//! handling and fetching.

use vstd::prelude::*;
use vstd::string::StringExecFns;
use crate::backends::{
    backend_config_wf, docker_defaults, BackendConfig, BackendConfigView, DockerConfig,
    DockerConfigView,
};
use crate::format::{
    drop_blanks, key_backend, key_dockerfile, key_max_replica, key_path, key_protocol, key_scoped,
    key_type, line_sane, non_blank, parse_doc, parse_doc_lines, word_docker, word_endpoint,
    word_local, word_mcp, Line, LineView, Value, ValueView,
};
use crate::text::{commit_id_seq, str_eq, valid_name_seq, value_str_ok};

verus! {

/// Errors of registry handling and of the fetch pipeline. Paths and causes
/// are carried as plain text so a caller can diagnose without re-running.
#[derive(Debug)]
pub enum Error {
    /// An underlying git operation failed, with its message.
    Git(String),
    /// A remote advertised a default branch whose name is not valid text.
    InvalidBranchNameEncoding,
    /// The remote's default branch advertises no head commit.
    NoBranchHead,
    /// A filesystem operation failed: the offending path, then the cause.
    IOError(String, String),
    /// The registry backing file is locked by another handle or process.
    LockError(String),
    /// A registry or manifest file is not well-formed: the offending path,
    /// then the cause.
    DeserializationError(String, String),
}

/// The protocol over which a deployed package is reached.
#[derive(Clone, Copy, Debug, PartialEq, Eq, Structural)]
pub enum Protocol {
    MCP,
}

/// How a deployed package is reached: a path, over a protocol.
#[derive(Debug)]
pub struct EndpointConfig {
    path: String,
    protocol: Protocol,
}

/// Mathematical image of an [`EndpointConfig`].
pub struct EndpointConfigView {
    pub path: Seq<char>,
    pub protocol: Protocol,
}

impl View for EndpointConfig {
    type V = EndpointConfigView;

    closed spec fn view(&self) -> EndpointConfigView {
        EndpointConfigView { path: self.path@, protocol: self.protocol }
    }
}

pub open spec fn endpoint_config_wf(e: EndpointConfigView) -> bool {
    value_str_ok(e.path)
}

impl EndpointConfig {
    pub fn new(path: String, protocol: Protocol) -> (r: Self)
        requires
            value_str_ok(path@),
        ensures
            r@ == (EndpointConfigView { path: path@, protocol }),
    {
        Self { path, protocol }
    }

    pub fn path(&self) -> (r: &String)
        ensures
            r@ == self@.path,
    {
        &self.path
    }

    pub fn protocol(&self) -> (r: Protocol)
        ensures
            r == self@.protocol,
    {
        self.protocol
    }
}

impl Clone for EndpointConfig {
    fn clone(&self) -> (r: Self)
        ensures
            r@ == self@,
    {
        Self { path: self.path.clone(), protocol: self.protocol }
    }
}

/// What a package's manifest declares: a backend and an endpoint.
#[derive(Debug)]
pub struct PackageConfig {
    backend: BackendConfig,
    endpoint: EndpointConfig,
}

/// Mathematical image of a [`PackageConfig`].
pub struct PackageConfigView {
    pub backend: BackendConfigView,
    pub endpoint: EndpointConfigView,
}

impl View for PackageConfig {
    type V = PackageConfigView;

    closed spec fn view(&self) -> PackageConfigView {
        PackageConfigView { backend: self.backend@, endpoint: self.endpoint@ }
    }
}

pub open spec fn package_config_wf(c: PackageConfigView) -> bool {
    backend_config_wf(c.backend) && endpoint_config_wf(c.endpoint)
}

impl PackageConfig {
    pub fn new(backend: BackendConfig, endpoint: EndpointConfig) -> (r: Self)
        ensures
            r@ == (PackageConfigView { backend: backend@, endpoint: endpoint@ }),
    {
        Self { backend, endpoint }
    }

    pub fn backend(&self) -> (r: &BackendConfig)
        ensures
            r@ == self@.backend,
    {
        &self.backend
    }

    pub fn endpoint(&self) -> (r: &EndpointConfig)
        ensures
            r@ == self@.endpoint,
    {
        &self.endpoint
    }
}

impl Clone for PackageConfig {
    fn clone(&self) -> (r: Self)
        ensures
            r@ == self@,
    {
        Self { backend: self.backend.clone(), endpoint: self.endpoint.clone() }
    }
}

/// A named, versioned, deployable unit: what the registry stores.
#[derive(Debug)]
pub struct Package {
    name: String,
    url: String,
    commit: String,
    config: PackageConfig,
}

/// Mathematical image of a [`Package`].
pub struct PackageView {
    pub name: Seq<char>,
    pub url: Seq<char>,
    pub commit: Seq<char>,
    pub config: PackageConfigView,
}

impl View for Package {
    type V = PackageView;

    closed spec fn view(&self) -> PackageView {
        PackageView { name: self.name@, url: self.url@, commit: self.commit@, config: self.config@ }
    }
}

/// A well-formed package record: the name is a safe single path segment, the
/// source location is printable non-empty text, the commit identifier has
/// git's shape, and the configuration is itself well-formed.
pub open spec fn package_wf(p: PackageView) -> bool {
    &&& valid_name_seq(p.name)
    &&& p.url.len() > 0 && value_str_ok(p.url)
    &&& commit_id_seq(p.commit)
    &&& package_config_wf(p.config)
}

impl Package {
    pub fn new(name: String, url: String, commit: String, config: PackageConfig) -> (r: Self)
        requires
            valid_name_seq(name@),
            url@.len() > 0 && value_str_ok(url@),
            commit_id_seq(commit@),
            package_config_wf(config@),
        ensures
            r@ == (PackageView { name: name@, url: url@, commit: commit@, config: config@ }),
            package_wf(r@),
    {
        Self { name, url, commit, config }
    }

    pub fn name(&self) -> (r: &String)
        ensures
            r@ == self@.name,
    {
        &self.name
    }

    /// The remote source-control location this package was fetched from.
    pub fn url(&self) -> (r: &String)
        ensures
            r@ == self@.url,
    {
        &self.url
    }

    /// The commit identifier last installed.
    pub fn commit(&self) -> (r: &String)
        ensures
            r@ == self@.commit,
    {
        &self.commit
    }

    pub fn config(&self) -> (r: &PackageConfig)
        ensures
            r@ == self@.config,
    {
        &self.config
    }
}

impl Clone for Package {
    fn clone(&self) -> (r: Self)
        ensures
            r@ == self@,
    {
        Self {
            name: self.name.clone(),
            url: self.url.clone(),
            commit: self.commit.clone(),
            config: self.config.clone(),
        }
    }
}

/// An optional `key = "text"` entry at position `i`.
pub open spec fn opt_text(ls: Seq<LineView>, i: int, key: Seq<char>) -> Option<Seq<char>> {
    if 0 <= i < ls.len() {
        match ls[i] {
            LineView::Entry(k, ValueView::Text(x)) => if k == key {
                Some(x)
            } else {
                None
            },
            _ => None,
        }
    } else {
        None
    }
}

/// An optional `key = true|false` entry at position `i`.
pub open spec fn opt_flag(ls: Seq<LineView>, i: int, key: Seq<char>) -> Option<bool> {
    if 0 <= i < ls.len() {
        match ls[i] {
            LineView::Entry(k, ValueView::Flag(b)) => if k == key {
                Some(b)
            } else {
                None
            },
            _ => None,
        }
    } else {
        None
    }
}

/// An optional `key = <integer>` entry at position `i`.
pub open spec fn opt_int(ls: Seq<LineView>, i: int, key: Seq<char>) -> Option<u64> {
    if 0 <= i < ls.len() {
        match ls[i] {
            LineView::Entry(k, ValueView::Int(m)) => if k == key {
                Some(m)
            } else {
                None
            },
            _ => None,
        }
    } else {
        None
    }
}

/// Scan the docker section's optional fields, in any order, each at most
/// once: what has been seen so far comes in, what was seen and where the
/// scan stopped come out.
pub open spec fn scan_docker_fields(
    ls: Seq<LineView>,
    i: int,
    df: Option<Seq<char>>,
    sc: Option<bool>,
    mr: Option<u64>,
) -> (Option<Seq<char>>, Option<bool>, Option<u64>, int)
    decreases (if df is None {
        1int
    } else {
        0int
    }) + (if sc is None {
        1int
    } else {
        0int
    }) + (if mr is None {
        1int
    } else {
        0int
    }),
{
    if df is None && opt_text(ls, i, key_dockerfile()) is Some {
        scan_docker_fields(ls, i + 1, Some(opt_text(ls, i, key_dockerfile()).unwrap()), sc, mr)
    } else if sc is None && opt_flag(ls, i, key_scoped()) is Some {
        scan_docker_fields(ls, i + 1, df, Some(opt_flag(ls, i, key_scoped()).unwrap()), mr)
    } else if mr is None && opt_int(ls, i, key_max_replica()) is Some {
        scan_docker_fields(ls, i + 1, df, sc, Some(opt_int(ls, i, key_max_replica()).unwrap()))
    } else {
        (df, sc, mr, i)
    }
}

/// The docker fields of a manifest, each optional and in any order, each
/// omitted field taking its documented default; also where the next section
/// starts.
pub open spec fn manifest_docker(ls: Seq<LineView>, i: int) -> (DockerConfigView, int) {
    let (df, sc, mr, j) = scan_docker_fields(ls, i, None, None, None);
    (
        DockerConfigView {
            dockerfile: match df {
                Some(x) => x,
                None => docker_defaults().dockerfile,
            },
            scoped: match sc {
                Some(b) => b,
                None => docker_defaults().scoped,
            },
            max_replica: match mr {
                Some(m) => m,
                None => docker_defaults().max_replica,
            },
        },
        j,
    )
}

/// The `[endpoint]` section, which must close the manifest: a path and the
/// protocol.
pub open spec fn manifest_endpoint(ls: Seq<LineView>, i: int, b: BackendConfigView) -> Option<
    PackageConfigView,
> {
    if 0 <= i && i + 3 == ls.len() {
        match (ls[i], ls[i + 1], ls[i + 2]) {
            (
                LineView::Header(h),
                LineView::Entry(k1, ValueView::Text(p)),
                LineView::Entry(k2, ValueView::Text(w)),
            ) => {
                if h == word_endpoint() && k1 == key_path() && k2 == key_protocol() && w
                    == word_mcp() {
                    Some(
                        PackageConfigView {
                            backend: b,
                            endpoint: EndpointConfigView { path: p, protocol: Protocol::MCP },
                        },
                    )
                } else {
                    None
                }
            },
            _ => None,
        }
    } else {
        None
    }
}

/// What a manifest's meaningful lines declare: a `[backend]` section with
/// its tagged type and optional docker fields, then an `[endpoint]` section.
pub open spec fn parse_manifest_lines(ls: Seq<LineView>) -> Option<PackageConfigView> {
    if ls.len() >= 2 {
        match (ls[0], ls[1]) {
            (LineView::Header(h), LineView::Entry(k, ValueView::Text(t))) => {
                if h == key_backend() && k == key_type() {
                    if t == word_local() {
                        manifest_endpoint(ls, 2, BackendConfigView::Local)
                    } else if t == word_docker() {
                        let (d, j) = manifest_docker(ls, 2);
                        if d.max_replica >= 1 {
                            manifest_endpoint(ls, j, BackendConfigView::Docker(d))
                        } else {
                            None
                        }
                    } else {
                        None
                    }
                } else {
                    None
                }
            },
            _ => None,
        }
    } else {
        None
    }
}

/// What a manifest's text declares.
pub open spec fn parse_manifest_spec(text: Seq<char>) -> Option<PackageConfigView> {
    match parse_doc(text) {
        Some(ls) => parse_manifest_lines(non_blank(ls)),
        None => None,
    }
}

impl PackageConfig {
    /// Parse a package manifest: a `[backend]` section declaring `type`
    /// (`"Local"` or `"Docker"`, the docker fields optional with their
    /// documented defaults), then an `[endpoint]` section with `path` and
    /// `protocol`.
    #[verifier::loop_isolation(false)]
    pub fn from_manifest(text: &str) -> (r: Result<PackageConfig, String>)
        ensures
            match r {
                Ok(c) => parse_manifest_spec(text@) == Some(c@) && package_config_wf(c@),
                Err(_) => parse_manifest_spec(text@) is None,
            },
    {
        proof {
            reveal_strlit("backend");
            reveal_strlit("type");
            reveal_strlit("dockerfile");
            reveal_strlit("scoped");
            reveal_strlit("max_replica");
            reveal_strlit("endpoint");
            reveal_strlit("path");
            reveal_strlit("protocol");
            reveal_strlit("Local");
            reveal_strlit("Docker");
            reveal_strlit("MCP");
            assert("backend"@ =~= key_backend());
            assert("type"@ =~= key_type());
            assert("dockerfile"@ =~= key_dockerfile());
            assert("scoped"@ =~= key_scoped());
            assert("max_replica"@ =~= key_max_replica());
            assert("endpoint"@ =~= word_endpoint());
            assert("path"@ =~= key_path());
            assert("protocol"@ =~= key_protocol());
            assert("Local"@ =~= word_local());
            assert("Docker"@ =~= word_docker());
            assert("MCP"@ =~= word_mcp());
            reveal_strlit("./Dockerfile");
            assert(value_str_ok(docker_defaults().dockerfile)) by {
                assert(docker_defaults().dockerfile == "./Dockerfile"@);
            }
        }
        let all = match parse_doc_lines(text) {
            Some(v) => v,
            None => {
                return Err(String::from_str("a line is not well-formed"));
            },
        };
        proof {
            crate::format::lemma_parse_rows_sane(crate::format::split_lines(text@));
            crate::format::lemma_non_blank_sane(all@.map_values(|l: Line| l@));
        }
        let lines = drop_blanks(&all);
        let ghost mv = lines@.map_values(|l: Line| l@);
        proof {
            assert(forall|j: int| 0 <= j < lines@.len() ==> #[trigger] lines@[j]@ == mv[j]);
            assert(forall|j: int| 0 <= j < mv.len() ==> line_sane(#[trigger] mv[j]));
        }
        let n = lines.len();
        if n < 2 {
            return Err(String::from_str("the backend section is missing"));
        }
        match &lines[0] {
            Line::Header(h) => {
                if !str_eq(h.as_str(), "backend") {
                    return Err(String::from_str("the backend section is missing"));
                }
            },
            _ => {
                return Err(String::from_str("the backend section is missing"));
            },
        }
        let tag = match &lines[1] {
            Line::Entry(k, Value::Text(t)) => {
                if !str_eq(k.as_str(), "type") {
                    return Err(String::from_str("the backend type is missing"));
                }
                t.clone()
            },
            _ => {
                return Err(String::from_str("the backend type is missing"));
            },
        };
        let (backend, at): (BackendConfig, usize) = if str_eq(tag.as_str(), "Local") {
            (BackendConfig::Local, 2)
        } else if str_eq(tag.as_str(), "Docker") {
            let mut at: usize = 2;
            let mut df_opt: Option<String> = None;
            let mut sc_opt: Option<bool> = None;
            let mut mr_opt: Option<u64> = None;
            let mut more: bool = true;
            while more
                invariant
                    2 <= at <= n,
                    scan_docker_fields(mv, 2, None, None, None) == scan_docker_fields(
                        mv,
                        at as int,
                        match df_opt {
                            Some(x) => Some(x@),
                            None => None,
                        },
                        sc_opt,
                        mr_opt,
                    ),
                    match df_opt {
                        Some(x) => value_str_ok(x@),
                        None => true,
                    },
                    !more ==> scan_docker_fields(
                        mv,
                        at as int,
                        match df_opt {
                            Some(x) => Some(x@),
                            None => None,
                        },
                        sc_opt,
                        mr_opt,
                    ) == ((
                        match df_opt {
                            Some(x) => Some(x@),
                            None => None,
                        },
                        sc_opt,
                        mr_opt,
                        at as int,
                    )),
                decreases (if df_opt is Some {
                    0int
                } else {
                    1int
                }) + (if sc_opt is Some {
                    0int
                } else {
                    1int
                }) + (if mr_opt is Some {
                    0int
                } else {
                    1int
                }) + (if more {
                    1int
                } else {
                    0int
                }),
            {
                more = false;
                if df_opt.is_none() {
                    match Self::opt_text_at(&lines, at, "dockerfile") {
                        Some(x) => {
                            df_opt = Some(x);
                            at += 1;
                            more = true;
                        },
                        None => {},
                    }
                }
                if !more && sc_opt.is_none() {
                    match Self::opt_flag_at(&lines, at, "scoped") {
                        Some(b) => {
                            sc_opt = Some(b);
                            at += 1;
                            more = true;
                        },
                        None => {},
                    }
                }
                if !more && mr_opt.is_none() {
                    match Self::opt_int_at(&lines, at, "max_replica") {
                        Some(m) => {
                            mr_opt = Some(m);
                            at += 1;
                            more = true;
                        },
                        None => {},
                    }
                }
            }
            let dockerfile: String = match df_opt {
                Some(x) => x,
                None => DockerConfig::default_dockerfile(),
            };
            let scoped: bool = match sc_opt {
                Some(b) => b,
                None => DockerConfig::default_scoped(),
            };
            let max_replica: u64 = match mr_opt {
                Some(m) => m,
                None => DockerConfig::default_max_replica(),
            };
            if max_replica < 1 {
                return Err(String::from_str("max_replica must be at least 1"));
            }
            (BackendConfig::Docker(DockerConfig::new(dockerfile, scoped, max_replica)), at)
        } else {
            return Err(String::from_str("unknown backend type"));
        };
        if n < 3 || at != n - 3 {
            return Err(String::from_str("the endpoint section is missing"));
        }
        match &lines[at] {
            Line::Header(h) => {
                if !str_eq(h.as_str(), "endpoint") {
                    return Err(String::from_str("the endpoint section is missing"));
                }
            },
            _ => {
                return Err(String::from_str("the endpoint section is missing"));
            },
        }
        let path = match &lines[at + 1] {
            Line::Entry(k, Value::Text(p)) => {
                if !str_eq(k.as_str(), "path") {
                    return Err(String::from_str("the endpoint path is missing"));
                }
                proof {
                    assert(line_sane(lines@[at + 1]@));
                }
                p.clone()
            },
            _ => {
                return Err(String::from_str("the endpoint path is missing"));
            },
        };
        match &lines[at + 2] {
            Line::Entry(k, Value::Text(w)) => {
                if !str_eq(k.as_str(), "protocol") || !str_eq(w.as_str(), "MCP") {
                    return Err(String::from_str("the endpoint protocol is not known"));
                }
            },
            _ => {
                return Err(String::from_str("the endpoint protocol is not known"));
            },
        }
        Ok(PackageConfig::new(backend, EndpointConfig::new(path, Protocol::MCP)))
    }

    /// An optional text entry at `i` under `key`.
    fn opt_text_at(lines: &Vec<Line>, i: usize, key: &str) -> (r: Option<String>)
        requires
            forall|j: int| 0 <= j < lines@.len() ==> line_sane(#[trigger] lines@[j]@),
        ensures
            match r {
                Some(x) => opt_text(lines@.map_values(|l: Line| l@), i as int, key@) == Some(x@)
                    && value_str_ok(x@),
                None => opt_text(lines@.map_values(|l: Line| l@), i as int, key@) is None,
            },
    {
        if i >= lines.len() {
            return None;
        }
        match &lines[i] {
            Line::Entry(k, Value::Text(x)) => {
                if str_eq(k.as_str(), key) {
                    proof {
                        assert(line_sane(lines@[i as int]@));
                    }
                    Some(x.clone())
                } else {
                    None
                }
            },
            _ => None,
        }
    }

    /// An optional boolean entry at `i` under `key`.
    fn opt_flag_at(lines: &Vec<Line>, i: usize, key: &str) -> (r: Option<bool>)
        ensures
            match r {
                Some(b) => opt_flag(lines@.map_values(|l: Line| l@), i as int, key@) == Some(b),
                None => opt_flag(lines@.map_values(|l: Line| l@), i as int, key@) is None,
            },
    {
        if i >= lines.len() {
            return None;
        }
        match &lines[i] {
            Line::Entry(k, Value::Flag(b)) => {
                if str_eq(k.as_str(), key) {
                    Some(*b)
                } else {
                    None
                }
            },
            _ => None,
        }
    }

    /// An optional integer entry at `i` under `key`.
    fn opt_int_at(lines: &Vec<Line>, i: usize, key: &str) -> (r: Option<u64>)
        ensures
            match r {
                Some(m) => opt_int(lines@.map_values(|l: Line| l@), i as int, key@) == Some(m),
                None => opt_int(lines@.map_values(|l: Line| l@), i as int, key@) is None,
            },
    {
        if i >= lines.len() {
            return None;
        }
        match &lines[i] {
            Line::Entry(k, Value::Int(m)) => {
                if str_eq(k.as_str(), key) {
                    Some(*m)
                } else {
                    None
                }
            },
            _ => None,
        }
    }
}

/// An ephemeral staging directory, uniquely named by its creator. The handle
/// only carries the path: the embedding program creates the directory before
/// a clone and removes it once installation has consumed it, success or
/// failure.
#[derive(Debug)]
pub struct PackageRoot {
    dir: String,
}

impl View for PackageRoot {
    type V = Seq<char>;

    closed spec fn view(&self) -> Seq<char> {
        self.dir@
    }
}

impl PackageRoot {
    pub fn new(dir: String) -> (r: Self)
        ensures
            r@ == dir@,
    {
        Self { dir }
    }

    /// The directory this staging area owns.
    pub fn dir(&self) -> (r: &String)
        ensures
            r@ == self@,
    {
        &self.dir
    }
}

} // verus!
