use atm::repository::{last_segment, Version};
use atm::text::{is_commit_id, is_valid_name, str_eq};
use atm::workflow::{resolve_name, strip_git, SyncError};

#[test]
fn name_from_url_strips_git_suffix() {
    let n = resolve_name(None, "https://example.org/agents/foo.git").expect("a name is derived");
    assert_eq!(n, "foo");
}

#[test]
fn name_from_url_without_suffix() {
    let n = resolve_name(None, "https://example.org/agents/foo").expect("a name is derived");
    assert_eq!(n, "foo");
}

#[test]
fn explicit_name_wins() {
    let n = resolve_name(Some("bar".to_string()), "https://example.org/agents/foo.git")
        .expect("the override is taken");
    assert_eq!(n, "bar");
}

#[test]
fn url_without_segments_has_no_name() {
    let r = resolve_name(None, "mailto:agent@example.org");
    assert!(matches!(r, Err(SyncError::NameNotFound)));
}

#[test]
fn invalid_override_is_rejected() {
    let r = resolve_name(Some("a b".to_string()), "https://example.org/x.git");
    assert!(matches!(r, Err(SyncError::InvalidName)));
}

#[test]
fn strip_git_only_removes_the_suffix() {
    assert_eq!(strip_git("foo.git"), "foo");
    assert_eq!(strip_git("foo.gitx"), "foo.gitx");
    assert_eq!(strip_git("foo"), "foo");
    assert_eq!(strip_git(".git"), "");
}

#[test]
fn valid_names() {
    assert!(is_valid_name("foo"));
    assert!(is_valid_name("foo-bar_1.2"));
    assert!(is_valid_name("A"));
    assert!(!is_valid_name(""));
    assert!(!is_valid_name("."));
    assert!(!is_valid_name(".."));
    assert!(!is_valid_name("a/b"));
    assert!(!is_valid_name("a\\b"));
    assert!(!is_valid_name("a b"));
    assert!(is_valid_name("..a"));
}

#[test]
fn commit_id_shape() {
    assert!(is_commit_id("0123456789abcdef0123456789abcdef01234567"));
    assert!(is_commit_id("0123456789ABCDEF0123456789ABCDEF01234567"));
    assert!(!is_commit_id("0123456789abcdef0123456789abcdef0123456"));
    assert!(!is_commit_id("g123456789abcdef0123456789abcdef01234567"));
    assert!(!is_commit_id(""));
}

#[test]
fn string_equality_helper() {
    assert!(str_eq("", ""));
    assert!(str_eq("abc", "abc"));
    assert!(!str_eq("abc", "abd"));
    assert!(!str_eq("abc", "ab"));
}

#[test]
fn last_path_segments() {
    assert_eq!(last_segment("/opt/atm/foo"), "foo");
    assert_eq!(last_segment("/opt/atm/foo/"), "foo");
    assert_eq!(last_segment("foo"), "foo");
    assert_eq!(last_segment(""), "");
    assert_eq!(last_segment("///"), "");
}

#[test]
fn staging_handle_carries_its_directory() {
    let root = atm::types::PackageRoot::new("/tmp/atm/stage-x".to_string());
    assert_eq!(root.dir(), "/tmp/atm/stage-x");
}

#[test]
fn version_carries_its_identifier() {
    let v = Version::new("0123456789abcdef0123456789abcdef01234567".to_string());
    assert_eq!(v.id(), "0123456789abcdef0123456789abcdef01234567");
    let w = v.clone();
    assert_eq!(w.id(), v.id());
}
