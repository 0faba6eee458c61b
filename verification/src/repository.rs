//! The version-control layer: one working copy of a remote source tree, with
//! clone, open, pull, local-version and remote-version-without-fetch.
//!
//! Every call into git stands behind a small trusted wrapper; the sequencing,
//! error mapping and reference-list searches around those calls are verified.
//! The underlying git object graph is not thread-safe, so the operations that
//! touch an existing on-disk repository re-open it fresh from its path; the
//! embedding program runs each of them on its own blocking context.

use vstd::prelude::*;
use vstd::string::{StrSliceExecFns, StringExecFns};
use crate::text::{commit_id_seq, str_eq, valid_name_seq};
use crate::types;
use crate::workflow::{
    resolve_name, resolved_name, url_norm, url_normalize, SyncError,
};
use git2::Error as GitError;
use git2::Remote as GitRemote;
use git2::Repository as GitRepository;

verus! {

/// Errors of version-control operations.
#[derive(Debug)]
pub enum Error {
    /// No name was given and none can be derived from the location.
    NameNotFound,
    /// The name is not usable as a single path segment.
    InvalidName,
    /// The repository has no remote configured.
    RemoteNotFound,
    /// The configured remote is not a well-formed URL.
    MalformedRemoteUrl,
    /// The remote's name is not representable as text.
    InvalidRemote,
    /// The remote advertises no HEAD reference.
    HeadNotFound,
    /// An underlying git operation failed, with its message.
    Git(String),
}

#[verifier::external_type_specification]
#[verifier::external_body]
pub struct ExGitRepository(GitRepository);

#[verifier::external_type_specification]
#[verifier::external_body]
pub struct ExGitError(GitError);

#[verifier::external_type_specification]
#[verifier::external_body]
pub struct ExGitRemote<'a>(GitRemote<'a>);

/// One advertised reference of a remote: its name and the commit it points
/// at, both as plain text.
#[derive(Debug)]
pub struct RefHead {
    pub name: String,
    pub id: String,
}

/// Mathematical image of a [`RefHead`].
pub struct RefHeadView {
    pub name: Seq<char>,
    pub id: Seq<char>,
}

impl View for RefHead {
    type V = RefHeadView;

    closed spec fn view(&self) -> RefHeadView {
        RefHeadView { name: self.name@, id: self.id@ }
    }
}

/// Relies on `GitRepository::clone_recurse`: a full recursive clone of
/// `url` into the directory `into`.
#[verifier::external_body]
fn git_clone_recurse(url: &str, into: &str) -> (r: Result<GitRepository, GitError>) {
    GitRepository::clone_recurse(url, into)
}

/// Relies on `GitRepository::open`: attaches to the working copy at
/// `path`.
#[verifier::external_body]
fn git_open(path: &str) -> (r: Result<GitRepository, GitError>) {
    GitRepository::open(path)
}

/// Relies on `GitRepository::refname_to_id` for `HEAD` and on the hex
/// rendering of `git2::Oid`, which is exactly forty hex digits.
#[verifier::external_body]
fn git_head_id(repo: &GitRepository) -> (r: Result<String, GitError>)
    ensures
        r matches Ok(id) ==> commit_id_seq(id@),
{
    Ok(repo.refname_to_id("HEAD")?.to_string())
}

/// Relies on `GitRepository::branch_upstream_remote` for `HEAD`: the name
/// of the upstream remote, `None` when it is not valid text.
#[verifier::external_body]
fn git_upstream_remote(repo: &GitRepository) -> (r: Result<Option<String>, GitError>) {
    let buf = repo.branch_upstream_remote("HEAD")?;
    Ok(buf.as_str().ok().map(|s| s.to_string()))
}

/// Relies on `GitRepository::find_remote`: the configured remote of this
/// name.
#[verifier::external_body]
fn git_find_remote<'r>(repo: &'r GitRepository, name: &str) -> (r: Result<
    GitRemote<'r>,
    GitError,
>) {
    repo.find_remote(name)
}

/// Relies on `GitRemote::create_detached`: a remote bound to no local
/// repository, usable for listing references anonymously.
#[verifier::external_body]
fn git_remote_create_detached(url: &str) -> (r: Result<GitRemote<'static>, GitError>) {
    GitRemote::create_detached(url)
}

/// Relies on `git2::Remote::connect` in fetch direction.
#[verifier::external_body]
fn git_remote_connect_fetch(remote: &mut GitRemote<'_>) -> (r: Result<(), GitError>) {
    remote.connect(git2::Direction::Fetch)
}

/// Relies on `git2::Remote::default_branch`, valid once connected: the full
/// reference name of the remote's default branch, `None` when it is not
/// valid text.
#[verifier::external_body]
fn git_remote_default_branch(remote: &GitRemote<'_>) -> (r: Result<
    Option<String>,
    GitError,
>) {
    let buf = remote.default_branch()?;
    Ok(buf.as_str().ok().map(|s| s.to_string()))
}

/// Relies on `git2::Remote::list`, valid once connected: the advertised
/// references, each as its name and the hex rendering of its `git2::Oid`
/// (forty hex digits). Caveat: `git2::RemoteHead::name` asserts that each
/// advertised name is valid text and aborts the process otherwise (git
/// itself permits arbitrary bytes there); the binding offers no byte-level
/// accessor on a `RemoteHead` in any published version, so that abort is
/// inherited here, exactly as it was wherever this binding is used.
#[verifier::external_body]
fn git_remote_heads(remote: &GitRemote<'_>) -> (r: Result<Vec<RefHead>, GitError>)
    ensures
        r matches Ok(hs) ==> forall|i: int| 0 <= i < hs@.len() ==> commit_id_seq(#[trigger] hs@[i]@.id),
{
    Ok(remote.list()?.iter().map(|h| RefHead { name: h.name().to_string(), id: h.oid().to_string() }).collect())
}

/// Relies on `git2::Remote::url`: the remote's configured URL, an error when
/// it is not representable as text.
#[verifier::external_body]
fn git_remote_url(remote: &GitRemote<'_>) -> (r: Result<String, GitError>) {
    Ok(remote.url()?.to_string())
}

/// Relies on `git2::Remote::disconnect`.
#[verifier::external_body]
fn git_remote_disconnect(remote: &mut GitRemote<'_>) -> (r: Result<(), GitError>) {
    remote.disconnect()
}

/// Relies on `git2::Remote::fetch` of the `HEAD` refspec, with default
/// options and no callbacks.
#[verifier::external_body]
fn git_remote_fetch_head(remote: &mut GitRemote<'_>) -> (r: Result<(), GitError>) {
    remote.fetch(&["HEAD"], None, None)
}

/// Relies on `git2::Oid::from_str`, `GitRepository::find_commit`,
/// `git2::Commit::tree`, `GitRepository::checkout_tree` and
/// `GitRepository::set_head_detached`: makes the working copy's content and
/// head that of the commit named by `id`, a pipeline whose every step turns
/// the previous step's value into the next.
#[verifier::external_body]
fn git_checkout_commit(repo: &GitRepository, id: &str) -> (r: Result<(), GitError>) {
    let oid = git2::Oid::from_str(id)?;
    let commit = repo.find_commit(oid)?;
    let tree = commit.tree()?;
    repo.checkout_tree(&tree.into_object(), None)?;
    repo.set_head_detached(oid)
}

/// Relies on `GitError::message`: the human-readable cause.
#[verifier::external_body]
fn git_error_message(e: &GitError) -> (r: String) {
    e.message().to_string()
}

/// The commit a reference list resolves `name` to: the last advertised
/// reference of that name wins, as a sequential scan leaves it.
pub open spec fn find_head_spec(heads: Seq<RefHeadView>, name: Seq<char>) -> Option<Seq<char>>
    decreases heads.len(),
{
    if heads.len() == 0 {
        None
    } else if heads.last().name == name {
        Some(heads.last().id)
    } else {
        find_head_spec(heads.drop_last(), name)
    }
}

/// Scan an advertised-reference list for `name` and hand back the commit the
/// last such reference points at.
pub fn find_head(heads: &Vec<RefHead>, name: &str) -> (r: Option<String>)
    ensures
        match r {
            Some(id) => find_head_spec(heads@.map_values(|h: RefHead| h@), name@) == Some(id@),
            None => find_head_spec(heads@.map_values(|h: RefHead| h@), name@) is None,
        },
{
    let ghost hs = heads@.map_values(|h: RefHead| h@);
    let n = heads.len();
    proof {
        assert(hs.take(n as int) =~= hs);
    }
    let mut i: usize = n;
    while i > 0
        invariant
            n == heads@.len(),
            0 <= i <= n,
            hs == heads@.map_values(|h: RefHead| h@),
            find_head_spec(hs, name@) == find_head_spec(hs.take(i as int), name@),
        decreases i,
    {
        proof {
            assert(hs.take(i as int).last() == hs[i - 1]);
            assert(hs.take(i as int).drop_last() =~= hs.take(i as int - 1));
        }
        if str_eq(heads[i - 1].name.as_str(), name) {
            return Some(heads[i - 1].id.clone());
        }
        i -= 1;
    }
    proof {
        assert(hs.take(0) =~= Seq::<RefHeadView>::empty());
    }
    None
}

/// Resolve the commit the default branch of the remote at `url` points at,
/// without a local working copy and without downloading objects.
pub fn latest_remote_commit(url: &str) -> (r: Result<String, types::Error>)
    ensures
        r matches Ok(id) ==> commit_id_seq(id@),
{
    let mut remote = match git_remote_create_detached(url) {
        Ok(rem) => rem,
        Err(e) => {
            return Err(types::Error::Git(git_error_message(&e)));
        },
    };
    if let Err(e) = git_remote_connect_fetch(&mut remote) {
        return Err(types::Error::Git(git_error_message(&e)));
    }
    let branch = match git_remote_default_branch(&remote) {
        Ok(Some(b)) => b,
        Ok(None) => {
            return Err(types::Error::InvalidBranchNameEncoding);
        },
        Err(e) => {
            return Err(types::Error::Git(git_error_message(&e)));
        },
    };
    let heads = match git_remote_heads(&remote) {
        Ok(hs) => hs,
        Err(e) => {
            return Err(types::Error::Git(git_error_message(&e)));
        },
    };
    match find_head(&heads, branch.as_str()) {
        Some(id) => {
            proof {
                let hs = heads@.map_values(|h: RefHead| h@);
                lemma_find_head_is_some_id(hs, branch@);
                let i = choose|i: int| 0 <= i < hs.len() && #[trigger] hs[i].id == id@;
                assert(hs[i] == heads@[i]@);
                assert(commit_id_seq(heads@[i]@.id));
            }
            Ok(id)
        },
        None => Err(types::Error::NoBranchHead),
    }
}

/// Whatever reference a scan resolves, the commit it hands back is one an
/// advertised reference points at.
proof fn lemma_find_head_is_some_id(heads: Seq<RefHeadView>, name: Seq<char>)
    ensures
        find_head_spec(heads, name) matches Some(id) ==> exists|i: int|
            0 <= i < heads.len() && #[trigger] heads[i].id == id,
    decreases heads.len(),
{
    if heads.len() > 0 {
        if heads.last().name == name {
            assert(heads[heads.len() - 1].id == heads.last().id);
        } else {
            lemma_find_head_is_some_id(heads.drop_last(), name);
            match find_head_spec(heads, name) {
                Some(id) => {
                    let i = choose|i: int|
                        0 <= i < heads.drop_last().len() && #[trigger] heads.drop_last()[i].id
                            == id;
                    assert(heads[i].id == id);
                },
                None => {},
            }
        }
    }
}

impl crate::types::Package {
    /// Resolve the commit the default branch of this package's remote
    /// currently points at, without downloading objects.
    pub fn latest_commit(&self) -> (r: Result<String, types::Error>)
        ensures
            r matches Ok(id) ==> commit_id_seq(id@),
    {
        latest_remote_commit(self.url().as_str())
    }

    /// Clone this package's remote into `dir`, then check out the tree of
    /// its resolved commit explicitly, so the working copy shows that commit
    /// even if the remote's default branch has moved since it was resolved.
    pub fn clone_to(&self, dir: &str) -> (r: Result<(), types::Error>)
        ensures
            r matches Err(e) ==> e is Git,
    {
        clone_at(self.url().as_str(), self.commit().as_str(), dir)
    }
}

/// Clone the remote at `url` into `dir` and check out the tree of `commit`
/// explicitly, decoupling what was cloned from what is checked out.
pub fn clone_at(url: &str, commit: &str, dir: &str) -> (r: Result<(), types::Error>)
    ensures
        r matches Err(e) ==> e is Git,
{
    let repo = match git_clone_recurse(url, dir) {
        Ok(g) => g,
        Err(e) => {
            return Err(types::Error::Git(git_error_message(&e)));
        },
    };
    match git_checkout_commit(&repo, commit) {
        Ok(()) => Ok(()),
        Err(e) => Err(types::Error::Git(git_error_message(&e))),
    }
}

/// The identifier of one commit: forty hex digits, as git prints them.
#[derive(Debug)]
pub struct Version {
    id: String,
}

impl View for Version {
    type V = Seq<char>;

    closed spec fn view(&self) -> Seq<char> {
        self.id@
    }
}

impl Version {
    pub fn new(id: String) -> (r: Self)
        requires
            commit_id_seq(id@),
        ensures
            r@ == id@,
    {
        Self { id }
    }

    pub open spec fn wf(&self) -> bool {
        commit_id_seq(self@)
    }

    pub fn id(&self) -> (r: &String)
        ensures
            r@ == self@,
    {
        &self.id
    }
}

impl Clone for Version {
    fn clone(&self) -> (r: Self)
        ensures
            r@ == self@,
    {
        Self { id: self.id.clone() }
    }
}

/// One checked-out working copy of a remote source tree.
pub struct Repository {
    name: String,
    remote: String,
    path: String,
    inner: GitRepository,
}

/// The last segment of a slash-separated path, trailing slashes ignored.
pub open spec fn last_path_segment(s: Seq<char>) -> Seq<char>
    decreases s.len(),
{
    if s.len() == 0 {
        s
    } else if s.last() == '/' {
        last_path_segment(s.drop_last())
    } else {
        after_last_slash(s)
    }
}

/// The suffix of `s` after its last `/`, or all of `s` when it has none.
pub open spec fn after_last_slash(s: Seq<char>) -> Seq<char>
    decreases s.len(),
{
    if s.len() == 0 {
        s
    } else if s.last() == '/' {
        Seq::empty()
    } else {
        after_last_slash(s.drop_last()).push(s.last())
    }
}

/// Compute the last path segment of `s`.
pub fn last_segment(s: &str) -> (r: String)
    ensures
        r@ == last_path_segment(s@),
{
    let n = s.unicode_len();
    proof {
        assert(s@.take(n as int) =~= s@);
    }
    // skip trailing slashes
    let mut end: usize = n;
    while end > 0 && s.get_char(end - 1) == '/'
        invariant
            n == s@.len(),
            0 <= end <= n,
            last_path_segment(s@) == last_path_segment(s@.take(end as int)),
        decreases end,
    {
        proof {
            assert(s@.take(end as int).last() == s@[end - 1]);
            assert(s@.take(end as int).drop_last() =~= s@.take(end as int - 1));
        }
        end -= 1;
    }
    let ghost t = s@.take(end as int);
    let mut start: usize = end;
    while start > 0 && s.get_char(start - 1) != '/'
        invariant
            n == s@.len(),
            0 <= start <= end <= n,
            forall|j: int| start <= j < end ==> s@[j] != '/',
        decreases start,
    {
        start -= 1;
    }
    proof {
        lemma_after_last_slash(s@, start as int, end as int);
        if end > 0 {
            assert(t.last() == s@[end - 1]);
            assert(t.last() != '/');
            assert(last_path_segment(t) == after_last_slash(t));
        } else {
            assert(t =~= Seq::<char>::empty());
        }
    }
    let seg = s.substring_char(start, end);
    String::from_str(seg)
}

/// `after_last_slash` of a prefix-up-to-`end` is the run of non-slash
/// characters that ends at `end`.
proof fn lemma_after_last_slash(s: Seq<char>, start: int, end: int)
    requires
        0 <= start <= end <= s.len(),
        forall|j: int| start <= j < end ==> s[j] != '/',
        start == 0 || s[start - 1] == '/',
    ensures
        after_last_slash(s.take(end)) == s.subrange(start, end),
    decreases end - start,
{
    if end == start {
        if start == 0 {
            assert(s.take(0) =~= Seq::<char>::empty());
            assert(s.subrange(0, 0) =~= Seq::<char>::empty());
        } else {
            assert(s.take(end).last() == s[end - 1]);
            assert(s.subrange(start, end) =~= Seq::<char>::empty());
        }
    } else {
        lemma_after_last_slash(s, start, end - 1);
        assert(s.take(end).last() == s[end - 1]);
        assert(s.take(end).drop_last() =~= s.take(end - 1));
        assert(after_last_slash(s.take(end)) == after_last_slash(s.take(end - 1)).push(s[end - 1]));
        assert(s.subrange(start, end - 1).push(s[end - 1]) =~= s.subrange(start, end));
    }
}

impl Repository {
    /// The name this working copy was opened or cloned under.
    pub fn name(&self) -> (r: &String)
        ensures
            r@ == self@.0,
    {
        &self.name
    }

    /// The remote location this working copy tracks.
    pub fn remote(&self) -> (r: &String)
        ensures
            r@ == self@.1,
    {
        &self.remote
    }

    /// The root of this working copy on disk.
    pub fn path(&self) -> (r: &String)
        ensures
            r@ == self@.2,
    {
        &self.path
    }

    /// The installation root: every working copy lives in one subdirectory
    /// of it, named after its package.
    pub open spec fn install_root() -> Seq<char> {
        seq!['/', 'o', 'p', 't', '/', 'a', 't', 'm', '/']
    }

    /// Clone the remote at `url` into the installation root, under the name
    /// a sync would resolve: the explicit override takes precedence, else
    /// the URL's last path segment is taken with any `.git` suffix dropped.
    /// The name must be usable as a single path segment, and all name and
    /// URL failures are decided — exactly as the contract states — before
    /// anything touches the network or the disk. The clone is expensive; the
    /// embedding program runs it on a blocking context of its own.
    pub fn clone(url: String, name: Option<String>) -> (r: Result<Self, Error>)
        ensures
            ({
                let explicit = match name {
                    Some(n) => Some(n@),
                    None => None,
                };
                &&& (r matches Err(Error::NameNotFound) <==> resolved_name(explicit, url@)
                    is None)
                &&& (r matches Err(Error::InvalidName) <==> (resolved_name(explicit, url@)
                    matches Some(n) && !valid_name_seq(n)))
                &&& (r matches Err(Error::MalformedRemoteUrl) <==> (resolved_name(explicit, url@)
                    matches Some(n) && valid_name_seq(n) && url_norm(url@) is None))
                &&& (r matches Ok(repo) ==> {
                    &&& resolved_name(explicit, url@) == Some(repo@.0)
                    &&& valid_name_seq(repo@.0)
                    &&& repo@.2 == Self::install_root() + repo@.0
                    &&& url_norm(url@) == Some(repo@.1)
                })
                &&& (r matches Err(e) ==> (e is Git || e is NameNotFound || e is InvalidName
                    || e is MalformedRemoteUrl))
            }),
    {
        let resolved = match resolve_name(name, url.as_str()) {
            Ok(n) => n,
            Err(e) => {
                return match e {
                    SyncError::NameNotFound => Err(Error::NameNotFound),
                    SyncError::InvalidName => Err(Error::InvalidName),
                    _ => {
                        proof {
                            assert(false);
                        }
                        unreached()
                    },
                };
            },
        };
        let remote = match url_normalize(url.as_str()) {
            Some(u) => u,
            None => {
                return Err(Error::MalformedRemoteUrl);
            },
        };
        let mut path = String::from_str("/opt/atm/");
        path.append(resolved.as_str());
        proof {
            reveal_strlit("/opt/atm/");
            assert("/opt/atm/"@ =~= Self::install_root());
        }
        let repo = match git_clone_recurse(url.as_str(), path.as_str()) {
            Ok(g) => g,
            Err(e) => {
                return Err(Error::Git(git_error_message(&e)));
            },
        };
        Ok(Self { name: resolved, remote, path, inner: repo })
    }

    /// Attach to an existing working copy at `path`. The tracked remote is
    /// derived from the upstream configured for the current head reference —
    /// `RemoteNotFound` when none is configured, `InvalidRemote` when it or
    /// its location is not representable as text, `MalformedRemoteUrl` when
    /// the location is no URL — and is stored in normalized URL form. The
    /// name is the last segment of `path`.
    pub fn open(path: String) -> (r: Result<Self, Error>)
        ensures
            r matches Ok(repo) ==> {
                &&& repo@.0 == last_path_segment(path@)
                &&& repo@.0.len() > 0
                &&& (exists|raw: Seq<char>| url_norm(raw) == Some(repo@.1))
                &&& repo@.2 == path@
            },
            r matches Err(Error::NameNotFound) ==> last_path_segment(path@).len() == 0,
            r matches Err(e) ==> (e is Git || e is RemoteNotFound || e is InvalidRemote
                || e is MalformedRemoteUrl || e is NameNotFound),
    {
        let repo = match git_open(path.as_str()) {
            Ok(g) => g,
            Err(e) => {
                return Err(Error::Git(git_error_message(&e)));
            },
        };
        let upstream = match git_upstream_remote(&repo) {
            Ok(Some(n)) => n,
            Ok(None) => {
                return Err(Error::InvalidRemote);
            },
            Err(_) => {
                return Err(Error::RemoteNotFound);
            },
        };
        let raw_url = {
            let rem = match git_find_remote(&repo, upstream.as_str()) {
                Ok(r) => r,
                Err(e) => {
                    return Err(Error::Git(git_error_message(&e)));
                },
            };
            match git_remote_url(&rem) {
                Ok(u) => u,
                Err(_) => {
                    return Err(Error::InvalidRemote);
                },
            }
        };
        let remote = match url_normalize(raw_url.as_str()) {
            Some(u) => u,
            None => {
                return Err(Error::MalformedRemoteUrl);
            },
        };
        let name = last_segment(path.as_str());
        if name.as_str().is_empty() {
            return Err(Error::NameNotFound);
        }
        proof {
            assert(url_norm(raw_url@) == Some(remote@));
        }
        Ok(Self { name, remote, path, inner: repo })
    }

    /// The commit the working copy's head currently points at: purely local.
    pub fn version(&self) -> (r: Result<Version, Error>)
        ensures
            r matches Ok(v) ==> v.wf(),
    {
        match git_head_id(&self.inner) {
            Ok(id) => Ok(Version::new(id)),
            Err(e) => Err(Error::Git(git_error_message(&e))),
        }
    }

    /// Fetch the head reference from the tracked remote into the local
    /// working copy; merges or checkouts are not performed. The repository
    /// is re-opened fresh from its path, since a shared handle must not
    /// cross concurrent contexts.
    pub fn pull(&self) -> (r: Result<(), Error>)
        ensures
            r matches Err(e) ==> (e is Git || e is InvalidRemote),
    {
        let repo = match git_open(self.path.as_str()) {
            Ok(g) => g,
            Err(e) => {
                return Err(Error::Git(git_error_message(&e)));
            },
        };
        let remote_name = match git_upstream_remote(&repo) {
            Ok(Some(n)) => n,
            Ok(None) => {
                return Err(Error::InvalidRemote);
            },
            Err(e) => {
                return Err(Error::Git(git_error_message(&e)));
            },
        };
        let mut remote = match git_find_remote(&repo, remote_name.as_str()) {
            Ok(rem) => rem,
            Err(e) => {
                return Err(Error::Git(git_error_message(&e)));
            },
        };
        match git_remote_fetch_head(&mut remote) {
            Ok(()) => Ok(()),
            Err(e) => Err(Error::Git(git_error_message(&e))),
        }
    }

    /// The commit the tracked remote's `HEAD` points at, read by listing the
    /// remote's references without downloading objects. The repository is
    /// re-opened fresh from its path; nothing local is mutated.
    pub fn remote_version(&self) -> (r: Result<Version, Error>)
        ensures
            r matches Ok(v) ==> v.wf(),
    {
        let repo = match git_open(self.path.as_str()) {
            Ok(g) => g,
            Err(e) => {
                return Err(Error::Git(git_error_message(&e)));
            },
        };
        let remote_name = match git_upstream_remote(&repo) {
            Ok(Some(n)) => n,
            Ok(None) => {
                return Err(Error::InvalidRemote);
            },
            Err(e) => {
                return Err(Error::Git(git_error_message(&e)));
            },
        };
        let mut remote = match git_find_remote(&repo, remote_name.as_str()) {
            Ok(rem) => rem,
            Err(e) => {
                return Err(Error::Git(git_error_message(&e)));
            },
        };
        if let Err(e) = git_remote_connect_fetch(&mut remote) {
            return Err(Error::Git(git_error_message(&e)));
        }
        let heads = match git_remote_heads(&remote) {
            Ok(hs) => hs,
            Err(e) => {
                return Err(Error::Git(git_error_message(&e)));
            },
        };
        let found = find_head(&heads, "HEAD");
        if let Err(e) = git_remote_disconnect(&mut remote) {
            return Err(Error::Git(git_error_message(&e)));
        }
        match found {
            Some(id) => {
                proof {
                    let hs = heads@.map_values(|h: RefHead| h@);
                    lemma_find_head_is_some_id(hs, "HEAD"@);
                    let i = choose|i: int| 0 <= i < hs.len() && #[trigger] hs[i].id == id@;
                    assert(hs[i] == heads@[i]@);
                    assert(commit_id_seq(heads@[i]@.id));
                }
                Ok(Version::new(id))
            },
            None => Err(Error::HeadNotFound),
        }
    }
}

impl View for Repository {
    type V = (Seq<char>, Seq<char>, Seq<char>);

    closed spec fn view(&self) -> (Seq<char>, Seq<char>, Seq<char>) {
        (self.name@, self.remote@, self.path@)
    }
}

} // verus!
