use atm::backends::{BackendConfig, DockerConfig};
use atm::registry::PackageMap;
use atm::types::{EndpointConfig, Package, PackageConfig, Protocol};

const COMMIT: &str = "0123456789abcdef0123456789abcdef01234567";

fn docker_package(name: &str) -> Package {
    Package::new(
        name.to_string(),
        "https://example.org/agents/foo.git".to_string(),
        COMMIT.to_string(),
        PackageConfig::new(
            BackendConfig::Docker(DockerConfig::new("./Dockerfile".to_string(), false, 1)),
            EndpointConfig::new("/api".to_string(), Protocol::MCP),
        ),
    )
}

fn local_package(name: &str) -> Package {
    Package::new(
        name.to_string(),
        "https://example.org/agents/bar.git".to_string(),
        COMMIT.to_string(),
        PackageConfig::new(
            BackendConfig::Local,
            EndpointConfig::new("/bar".to_string(), Protocol::MCP),
        ),
    )
}

#[test]
fn add_then_contains() {
    let mut map = PackageMap::new();
    assert!(!map.contains("foo"));
    let prev = map.add(docker_package("foo"));
    assert!(prev.is_none());
    assert!(map.contains("foo"));
    assert!(!map.contains("bar"));
}

#[test]
fn add_replaces_and_returns_previous() {
    let mut map = PackageMap::new();
    assert!(map.add(docker_package("foo")).is_none());
    let prev = map.add(local_package("foo"));
    let prev = prev.expect("the previous record is handed back");
    assert_eq!(prev.url().as_str(), "https://example.org/agents/foo.git");
    assert!(map.contains("foo"));
}

#[test]
fn remove_uninstalls() {
    let mut map = PackageMap::new();
    map.add(docker_package("foo"));
    let removed = map.remove("foo").expect("the removed record is handed back");
    assert_eq!(removed.name().as_str(), "foo");
    assert!(!map.contains("foo"));
    assert!(map.remove("foo").is_none());
}

#[test]
fn close_reopen_round_trips_field_for_field() {
    let mut map = PackageMap::new();
    map.add(docker_package("foo"));
    map.add(local_package("bar"));
    let text = map.to_text();
    let again = PackageMap::from_text(&text).expect("the canonical text parses");
    let foo = again.get("foo").expect("foo survives the cycle");
    assert_eq!(foo.name().as_str(), "foo");
    assert_eq!(foo.url().as_str(), "https://example.org/agents/foo.git");
    assert_eq!(foo.commit().as_str(), COMMIT);
    match foo.config().backend() {
        BackendConfig::Docker(d) => {
            assert_eq!(d.dockerfile().as_str(), "./Dockerfile");
            assert!(!d.scoped());
            assert_eq!(d.max_replica(), 1);
        },
        BackendConfig::Local => panic!("foo is containerized"),
    }
    assert_eq!(foo.config().endpoint().path().as_str(), "/api");
    let bar = again.get("bar").expect("bar survives the cycle");
    assert!(matches!(bar.config().backend(), BackendConfig::Local));
    assert_eq!(bar.config().endpoint().path().as_str(), "/bar");
}

#[test]
fn empty_registry_opens_and_contains_nothing() {
    let map = PackageMap::from_text("").expect("an empty file is an empty registry");
    assert!(!map.contains("foo"));
    assert!(!map.contains(""));
    assert!(!map.contains("anything-at-all"));
}

#[test]
fn canonical_text_is_exact() {
    let mut map = PackageMap::new();
    map.add(docker_package("foo"));
    let expected = "[foo]\n\
                    url = \"https://example.org/agents/foo.git\"\n\
                    commit = \"0123456789abcdef0123456789abcdef01234567\"\n\
                    backend = \"Docker\"\n\
                    dockerfile = \"./Dockerfile\"\n\
                    scoped = false\n\
                    max_replica = 1\n\
                    path = \"/api\"\n\
                    protocol = \"MCP\"\n";
    assert_eq!(map.to_text(), expected);
}

#[test]
fn blank_and_comment_lines_are_accepted() {
    let text = "# the registry\n\n[foo]\nurl = \"u\"\ncommit = \"0123456789abcdef0123456789abcdef01234567\"\nbackend = \"Local\"\npath = \"/x\"\nprotocol = \"MCP\"\n";
    let map = PackageMap::from_text(text).expect("comments and blanks are skipped");
    assert!(map.contains("foo"));
}

#[test]
fn duplicate_names_are_rejected() {
    let one = "[foo]\nurl = \"u\"\ncommit = \"0123456789abcdef0123456789abcdef01234567\"\nbackend = \"Local\"\npath = \"/x\"\nprotocol = \"MCP\"\n";
    let twice = format!("{}{}", one, one);
    assert!(PackageMap::from_text(&twice).is_err());
}

#[test]
fn malformed_commit_is_rejected() {
    let text = "[foo]\nurl = \"u\"\ncommit = \"abc\"\nbackend = \"Local\"\npath = \"/x\"\nprotocol = \"MCP\"\n";
    assert!(PackageMap::from_text(text).is_err());
}

#[test]
fn unknown_backend_word_is_rejected() {
    let text = "[foo]\nurl = \"u\"\ncommit = \"0123456789abcdef0123456789abcdef01234567\"\nbackend = \"Podman\"\npath = \"/x\"\nprotocol = \"MCP\"\n";
    assert!(PackageMap::from_text(text).is_err());
}

#[test]
fn zero_replicas_are_rejected() {
    let text = "[foo]\nurl = \"u\"\ncommit = \"0123456789abcdef0123456789abcdef01234567\"\nbackend = \"Docker\"\ndockerfile = \"./Dockerfile\"\nscoped = false\nmax_replica = 0\npath = \"/x\"\nprotocol = \"MCP\"\n";
    assert!(PackageMap::from_text(text).is_err());
}

#[test]
fn empty_url_is_rejected() {
    let text = "[foo]\nurl = \"\"\ncommit = \"0123456789abcdef0123456789abcdef01234567\"\nbackend = \"Local\"\npath = \"/x\"\nprotocol = \"MCP\"\n";
    assert!(PackageMap::from_text(text).is_err());
}

#[test]
fn garbage_line_is_rejected() {
    assert!(PackageMap::from_text("!!!\n").is_err());
}

#[test]
fn large_replica_count_round_trips() {
    let mut map = PackageMap::new();
    map.add(Package::new(
        "big".to_string(),
        "https://example.org/big.git".to_string(),
        COMMIT.to_string(),
        PackageConfig::new(
            BackendConfig::Docker(DockerConfig::new(
                "./Dockerfile".to_string(),
                true,
                u64::MAX,
            )),
            EndpointConfig::new("/".to_string(), Protocol::MCP),
        ),
    ));
    let text = map.to_text();
    assert!(text.contains("max_replica = 18446744073709551615"));
    let again = PackageMap::from_text(&text).expect("the largest count still parses");
    match again.get("big").unwrap().config().backend() {
        BackendConfig::Docker(d) => {
            assert_eq!(d.max_replica(), u64::MAX);
            assert!(d.scoped());
        },
        BackendConfig::Local => panic!("big is containerized"),
    }
}
