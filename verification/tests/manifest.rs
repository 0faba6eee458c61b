use atm::backends::BackendConfig;
use atm::types::{PackageConfig, Protocol};

#[test]
fn docker_defaults_spelled_out() {
    let text = "[backend]\n\
                type = \"Docker\"\n\
                dockerfile = \"./Dockerfile\"\n\
                scoped = false\n\
                max_replica = 1\n\
                \n\
                [endpoint]\n\
                path = \"/api\"\n\
                protocol = \"MCP\"\n";
    let c = PackageConfig::from_manifest(text).expect("the manifest parses");
    match c.backend() {
        BackendConfig::Docker(d) => {
            assert_eq!(d.dockerfile().as_str(), "./Dockerfile");
            assert!(!d.scoped());
            assert_eq!(d.max_replica(), 1);
        },
        BackendConfig::Local => panic!("a docker manifest yields the containerized backend"),
    }
    assert_eq!(c.endpoint().path().as_str(), "/api");
    assert!(matches!(c.endpoint().protocol(), Protocol::MCP));
}

#[test]
fn omitted_docker_fields_take_defaults() {
    let text = "[backend]\ntype = \"Docker\"\n\n[endpoint]\npath = \"/api\"\nprotocol = \"MCP\"\n";
    let c = PackageConfig::from_manifest(text).expect("optional fields may be omitted");
    match c.backend() {
        BackendConfig::Docker(d) => {
            assert_eq!(d.dockerfile().as_str(), "./Dockerfile");
            assert!(!d.scoped());
            assert_eq!(d.max_replica(), 1);
        },
        BackendConfig::Local => panic!("a docker manifest yields the containerized backend"),
    }
}

#[test]
fn some_docker_fields_present() {
    let text = "[backend]\ntype = \"Docker\"\nscoped = true\n\n[endpoint]\npath = \"/\"\nprotocol = \"MCP\"\n";
    let c = PackageConfig::from_manifest(text).expect("a lone scoped flag is accepted");
    match c.backend() {
        BackendConfig::Docker(d) => {
            assert_eq!(d.dockerfile().as_str(), "./Dockerfile");
            assert!(d.scoped());
            assert_eq!(d.max_replica(), 1);
        },
        BackendConfig::Local => panic!("a docker manifest yields the containerized backend"),
    }
}

#[test]
fn docker_fields_in_any_order() {
    let text = "[backend]\ntype = \"Docker\"\nmax_replica = 3\ndockerfile = \"./build/Dockerfile\"\nscoped = true\n\n[endpoint]\npath = \"/api\"\nprotocol = \"MCP\"\n";
    let c = PackageConfig::from_manifest(text).expect("field order does not matter");
    match c.backend() {
        BackendConfig::Docker(d) => {
            assert_eq!(d.dockerfile().as_str(), "./build/Dockerfile");
            assert!(d.scoped());
            assert_eq!(d.max_replica(), 3);
        },
        BackendConfig::Local => panic!("a docker manifest yields the containerized backend"),
    }
}

#[test]
fn duplicate_docker_fields_are_rejected() {
    let text = "[backend]\ntype = \"Docker\"\nscoped = true\nscoped = false\n\n[endpoint]\npath = \"/\"\nprotocol = \"MCP\"\n";
    assert!(PackageConfig::from_manifest(text).is_err());
}

#[test]
fn local_backend_manifest() {
    let text = "[backend]\ntype = \"Local\"\n\n[endpoint]\npath = \"/x\"\nprotocol = \"MCP\"\n";
    let c = PackageConfig::from_manifest(text).expect("a local manifest parses");
    assert!(matches!(c.backend(), BackendConfig::Local));
    assert_eq!(c.endpoint().path().as_str(), "/x");
}

#[test]
fn missing_endpoint_is_rejected() {
    assert!(PackageConfig::from_manifest("[backend]\ntype = \"Local\"\n").is_err());
}

#[test]
fn missing_backend_is_rejected() {
    assert!(PackageConfig::from_manifest("[endpoint]\npath = \"/\"\nprotocol = \"MCP\"\n").is_err());
}

#[test]
fn unknown_backend_type_is_rejected() {
    let text = "[backend]\ntype = \"Cloud\"\n\n[endpoint]\npath = \"/\"\nprotocol = \"MCP\"\n";
    assert!(PackageConfig::from_manifest(text).is_err());
}

#[test]
fn zero_max_replica_is_rejected() {
    let text = "[backend]\ntype = \"Docker\"\nmax_replica = 0\n\n[endpoint]\npath = \"/\"\nprotocol = \"MCP\"\n";
    assert!(PackageConfig::from_manifest(text).is_err());
}

#[test]
fn unknown_protocol_is_rejected() {
    let text = "[backend]\ntype = \"Local\"\n\n[endpoint]\npath = \"/\"\nprotocol = \"HTTP\"\n";
    assert!(PackageConfig::from_manifest(text).is_err());
}

#[test]
fn trailing_sections_are_rejected() {
    let text = "[backend]\ntype = \"Local\"\n\n[endpoint]\npath = \"/\"\nprotocol = \"MCP\"\n\n[extra]\n";
    assert!(PackageConfig::from_manifest(text).is_err());
}

#[test]
fn comments_are_skipped_in_manifests() {
    let text = "# manifest\n[backend]\ntype = \"Local\"\n# endpoint next\n[endpoint]\npath = \"/\"\nprotocol = \"MCP\"\n";
    assert!(PackageConfig::from_manifest(text).is_ok());
}
