//! Exercises the git layer against real repositories on the local
//! filesystem: no network is needed, since git speaks its local transport
//! when the remote is a plain path.

use std::time::{SystemTime, UNIX_EPOCH};

use atm::repository::{clone_at, find_head, latest_remote_commit, RefHead, Repository};

fn scratch(tag: &str) -> String {
    let nanos = SystemTime::now().duration_since(UNIX_EPOCH).unwrap().as_nanos();
    format!("/tmp/atm-gitops-{}-{}", tag, nanos)
}

/// An origin repository with one commit; hands back (path, commit id).
fn make_origin(tag: &str) -> (String, String) {
    let dir = scratch(tag);
    let repo = git2::Repository::init(&dir).unwrap();
    let sig = git2::Signature::now("tester", "tester@example.org").unwrap();
    let tree_id = repo.index().unwrap().write_tree().unwrap();
    let commit = {
        let tree = repo.find_tree(tree_id).unwrap();
        repo.commit(Some("HEAD"), &sig, &sig, "first", &tree, &[]).unwrap()
    };
    (dir, commit.to_string())
}

/// Add one more (empty) commit on top of the origin's head.
fn advance(dir: &str, message: &str) -> String {
    let repo = git2::Repository::open(dir).unwrap();
    let sig = git2::Signature::now("tester", "tester@example.org").unwrap();
    let head = repo.head().unwrap().peel_to_commit().unwrap();
    let tree_id = repo.index().unwrap().write_tree().unwrap();
    let tree = repo.find_tree(tree_id).unwrap();
    repo.commit(Some("HEAD"), &sig, &sig, message, &tree, &[&head]).unwrap().to_string()
}

#[test]
fn remote_resolution_is_idempotent() {
    let (origin, commit) = make_origin("idempotent");
    let first = latest_remote_commit(&origin).expect("the origin advertises a head");
    let second = latest_remote_commit(&origin).expect("a second listing succeeds");
    assert_eq!(first, commit);
    assert_eq!(first, second);
}

#[test]
fn resolution_sees_an_advanced_head() {
    let (origin, commit) = make_origin("advance");
    assert_eq!(latest_remote_commit(&origin).unwrap(), commit);
    let newer = advance(&origin, "second");
    assert_ne!(newer, commit);
    assert_eq!(latest_remote_commit(&origin).unwrap(), newer);
}

#[test]
fn unreachable_remote_fails() {
    let missing = scratch("missing");
    assert!(latest_remote_commit(&missing).is_err());
}

#[test]
fn checkout_pins_the_resolved_commit() {
    let (origin, first) = make_origin("pin");
    // the head moves after the commit was resolved ...
    let newer = advance(&origin, "second");
    assert_ne!(first, newer);
    // ... yet the working copy shows the resolved commit, not the new head
    let clone_dir = scratch("pin-clone");
    clone_at(&origin, &first, &clone_dir).expect("clone and checkout succeed");
    let cloned = git2::Repository::open(&clone_dir).unwrap();
    let head = cloned.refname_to_id("HEAD").unwrap().to_string();
    assert_eq!(head, first);
}

#[test]
fn open_needs_a_head_upstream() {
    let (origin, first) = make_origin("open");
    let clone_dir = scratch("open-clone");
    clone_at(&origin, &first, &clone_dir).expect("clone and checkout succeed");
    // the clone's head is detached at `first`, so no upstream is configured
    // for it; the tracked remote cannot be derived
    let r = Repository::open(clone_dir);
    assert!(matches!(r, Err(atm::repository::Error::RemoteNotFound)));
}

#[test]
fn open_of_nothing_is_a_git_error() {
    let r = Repository::open(scratch("absent"));
    assert!(matches!(r, Err(atm::repository::Error::Git(_))));
}

#[test]
fn clone_needs_a_name() {
    // the URL's path cannot be split into segments and no override is given
    let r = Repository::clone("mailto:agent@example.org".to_string(), None);
    assert!(matches!(r, Err(atm::repository::Error::NameNotFound)));
}

#[test]
fn clone_rejects_an_unusable_name() {
    let r = Repository::clone("mailto:agent@example.org".to_string(), Some("a b".to_string()));
    assert!(matches!(r, Err(atm::repository::Error::InvalidName)));
}

#[test]
fn clone_lets_the_override_take_precedence() {
    // the URL carries a perfectly usable segment, yet the explicit override
    // is consulted first — and rejected before anything is cloned
    let r = Repository::clone(
        "https://example.org/agents/foo.git".to_string(),
        Some("a b".to_string()),
    );
    assert!(matches!(r, Err(atm::repository::Error::InvalidName)));
}

#[test]
fn head_scan_takes_the_last_match() {
    let heads = vec![
        RefHead { name: "HEAD".to_string(), id: "1111111111111111111111111111111111111111".to_string() },
        RefHead { name: "refs/heads/main".to_string(), id: "2222222222222222222222222222222222222222".to_string() },
        RefHead { name: "HEAD".to_string(), id: "3333333333333333333333333333333333333333".to_string() },
    ];
    let found = find_head(&heads, "HEAD").expect("a head is advertised");
    assert_eq!(found, "3333333333333333333333333333333333333333");
    assert!(find_head(&heads, "refs/heads/dev").is_none());
    assert!(find_head(&Vec::new(), "HEAD").is_none());
}
