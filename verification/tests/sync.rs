use atm::registry::PackageMap;
use atm::types::Error;
use atm::workflow::{Phase, SyncAction, SyncCommand, SyncError};

const COMMIT: &str = "0123456789abcdef0123456789abcdef01234567";

fn registry_with_foo() -> String {
    "[foo]\nurl = \"https://example.org/agents/foo.git\"\ncommit = \"0123456789abcdef0123456789abcdef01234567\"\nbackend = \"Local\"\npath = \"/x\"\nprotocol = \"MCP\"\n".to_string()
}

#[test]
fn start_asks_for_the_registry_first() {
    let (cmd, action) = SyncCommand::new().start("https://example.org/agents/foo.git", None);
    assert!(matches!(action, SyncAction::OpenRegistry));
    assert!(matches!(cmd.phase, Phase::Opening));
    assert_eq!(cmd.name, "foo");
    assert_eq!(cmd.url, "https://example.org/agents/foo.git");
}

#[test]
fn unparsable_url_fails_before_anything_else() {
    let (cmd, action) = SyncCommand::new().start("not a url", None);
    assert!(matches!(action, SyncAction::Report { ok: false }));
    assert!(matches!(cmd.phase, Phase::Done { failure: Some(SyncError::UrlInvalid) }));
}

#[test]
fn already_installed_fails_without_a_fetch() {
    let (cmd, _) = SyncCommand::new().start("https://example.org/agents/foo.git", None);
    let before = registry_with_foo();
    let (cmd, action) = cmd.on_registry("./packages.toml".to_string(), Ok(before.clone()));
    // the registry is flushed back unchanged; no fetch is requested
    match &action {
        SyncAction::SaveRegistry { text } => assert_eq!(text, &before),
        other => panic!("expected the unchanged registry to be saved, got {:?}", other),
    }
    match &cmd.phase {
        Phase::Saving { failure: Some(SyncError::AlreadyInstalled(n)) } => assert_eq!(n, "foo"),
        _ => panic!("the run fails with the already-installed condition"),
    }
    let (cmd, action) = cmd.on_saved(Ok(()));
    assert!(matches!(action, SyncAction::Report { ok: false }));
    assert!(matches!(cmd.phase, Phase::Done { failure: Some(_) }));
}

#[test]
fn locked_registry_fails_distinctly() {
    let (cmd, _) = SyncCommand::new().start("https://example.org/agents/foo.git", None);
    let (cmd, action) = cmd.on_registry(
        "./packages.toml".to_string(),
        Err(Error::LockError("./packages.toml".to_string())),
    );
    assert!(matches!(action, SyncAction::Report { ok: false }));
    match cmd.phase {
        Phase::Done { failure: Some(SyncError::Registry(Error::LockError(p))) } => {
            assert_eq!(p, "./packages.toml")
        },
        _ => panic!("a held lock surfaces as the lock-contention condition"),
    }
}

#[test]
fn corrupt_registry_fails_with_its_path() {
    let (cmd, _) = SyncCommand::new().start("https://example.org/agents/foo.git", None);
    let (cmd, action) = cmd.on_registry("./packages.toml".to_string(), Ok("!!!\n".to_string()));
    assert!(matches!(action, SyncAction::Report { ok: false }));
    match cmd.phase {
        Phase::Done { failure: Some(SyncError::Registry(Error::DeserializationError(p, _))) } => {
            assert_eq!(p, "./packages.toml")
        },
        _ => panic!("a corrupt registry surfaces as a deserialization error"),
    }
}

#[test]
fn failed_fetch_leaves_registry_unchanged_and_cleans_staging() {
    let before = registry_with_foo();
    let (cmd, _) = SyncCommand::new().start("https://example.org/agents/new.git", None);
    let (cmd, action) = cmd.on_registry("./packages.toml".to_string(), Ok(before.clone()));
    assert!(matches!(action, SyncAction::ResolveCommit { .. }));
    let (cmd, action) = cmd.on_commit(Ok(COMMIT.to_string()));
    assert!(matches!(action, SyncAction::CreateStaging));
    let (cmd, action) = cmd.on_staged(Ok("/tmp/atm/stage-1".to_string()));
    match &action {
        SyncAction::CloneCheckout { url, commit, dir } => {
            assert_eq!(url, "https://example.org/agents/new.git");
            assert_eq!(commit, COMMIT);
            assert_eq!(dir, "/tmp/atm/stage-1");
        },
        other => panic!("expected a clone, got {:?}", other),
    }
    // the clone fails: the staging directory must be removed at once
    let (cmd, action) = cmd.on_cloned(Err(Error::Git("unreachable".to_string())));
    match &action {
        SyncAction::RemoveStaging { dir } => assert_eq!(dir, "/tmp/atm/stage-1"),
        other => panic!("expected staging cleanup, got {:?}", other),
    }
    // and the registry is flushed back exactly as it was read
    let (cmd, action) = cmd.on_removed(Ok(()));
    match &action {
        SyncAction::SaveRegistry { text } => assert_eq!(text, &before),
        other => panic!("expected the unchanged registry to be saved, got {:?}", other),
    }
    let (cmd, action) = cmd.on_saved(Ok(()));
    assert!(matches!(action, SyncAction::Report { ok: false }));
    assert!(matches!(cmd.phase, Phase::Done { failure: Some(SyncError::Fetch(_)) }));
}

#[test]
fn failed_resolution_flushes_registry_unchanged() {
    let before = registry_with_foo();
    let (cmd, _) = SyncCommand::new().start("https://example.org/agents/new.git", None);
    let (cmd, _) = cmd.on_registry("./packages.toml".to_string(), Ok(before.clone()));
    let (_, action) = cmd.on_commit(Err(Error::NoBranchHead));
    match &action {
        SyncAction::SaveRegistry { text } => assert_eq!(text, &before),
        other => panic!("expected the unchanged registry to be saved, got {:?}", other),
    }
}

#[test]
fn successful_sync_commits_exactly_one_record() {
    let (cmd, _) = SyncCommand::new().start("https://example.org/agents/new.git", None);
    let (cmd, action) = cmd.on_registry("./packages.toml".to_string(), Ok(String::new()));
    assert!(matches!(action, SyncAction::ResolveCommit { .. }));
    let (cmd, _) = cmd.on_commit(Ok(COMMIT.to_string()));
    let (cmd, _) = cmd.on_staged(Ok("/tmp/atm/stage-2".to_string()));
    let (cmd, action) = cmd.on_cloned(Ok(()));
    match &action {
        SyncAction::ReadManifest { dir } => assert_eq!(dir, "/tmp/atm/stage-2"),
        other => panic!("expected a manifest read, got {:?}", other),
    }
    let manifest = "[backend]\ntype = \"Docker\"\n\n[endpoint]\npath = \"/api\"\nprotocol = \"MCP\"\n";
    let (cmd, action) = cmd.on_manifest("/tmp/atm/stage-2/atm.toml".to_string(), Ok(manifest.to_string()));
    assert!(matches!(action, SyncAction::ConnectBackend { docker: true }));
    let (cmd, action) = cmd.on_backend(Ok(()));
    assert!(matches!(action, SyncAction::Install { .. }));
    let (cmd, action) = cmd.on_installed(Ok(()));
    assert!(matches!(action, SyncAction::RemoveStaging { .. }));
    let (cmd, action) = cmd.on_removed(Ok(()));
    let saved = match action {
        SyncAction::SaveRegistry { text } => text,
        other => panic!("expected the registry to be saved, got {:?}", other),
    };
    let map = PackageMap::from_text(&saved).expect("the flushed registry parses back");
    let new = map.get("new").expect("the record was committed");
    assert_eq!(new.url().as_str(), "https://example.org/agents/new.git");
    assert_eq!(new.commit().as_str(), COMMIT);
    let (cmd, action) = cmd.on_saved(Ok(()));
    assert!(matches!(action, SyncAction::Report { ok: true }));
    assert!(matches!(cmd.phase, Phase::Done { failure: None }));
}

#[test]
fn local_backend_needs_no_daemon() {
    let (cmd, _) = SyncCommand::new().start("https://example.org/agents/new.git", None);
    let (cmd, _) = cmd.on_registry("./packages.toml".to_string(), Ok(String::new()));
    let (cmd, _) = cmd.on_commit(Ok(COMMIT.to_string()));
    let (cmd, _) = cmd.on_staged(Ok("/tmp/atm/stage-3".to_string()));
    let (cmd, _) = cmd.on_cloned(Ok(()));
    let manifest = "[backend]\ntype = \"Local\"\n\n[endpoint]\npath = \"/\"\nprotocol = \"MCP\"\n";
    let (_, action) = cmd.on_manifest("m".to_string(), Ok(manifest.to_string()));
    assert!(matches!(action, SyncAction::ConnectBackend { docker: false }));
}

#[test]
fn bad_manifest_cleans_up_staging() {
    let before = registry_with_foo();
    let (cmd, _) = SyncCommand::new().start("https://example.org/agents/new.git", None);
    let (cmd, _) = cmd.on_registry("./packages.toml".to_string(), Ok(before.clone()));
    let (cmd, _) = cmd.on_commit(Ok(COMMIT.to_string()));
    let (cmd, _) = cmd.on_staged(Ok("/tmp/atm/stage-4".to_string()));
    let (cmd, _) = cmd.on_cloned(Ok(()));
    let (cmd, action) = cmd.on_manifest("m".to_string(), Ok("nonsense".to_string()));
    match &action {
        SyncAction::RemoveStaging { dir } => assert_eq!(dir, "/tmp/atm/stage-4"),
        other => panic!("expected staging cleanup, got {:?}", other),
    }
    assert!(matches!(
        cmd.phase,
        Phase::Removing { failure: Some(SyncError::Fetch(Error::DeserializationError(_, _))), .. }
    ));
    let (cmd, action) = cmd.on_removed(Ok(()));
    match &action {
        SyncAction::SaveRegistry { text } => assert_eq!(text, &before),
        other => panic!("expected the unchanged registry to be saved, got {:?}", other),
    }
    let (cmd, action) = cmd.on_saved(Ok(()));
    assert!(matches!(action, SyncAction::Report { ok: false }));
    assert!(matches!(cmd.phase, Phase::Done { failure: Some(_) }));
}

#[test]
fn failed_staging_flushes_registry_unchanged() {
    let before = registry_with_foo();
    let (cmd, _) = SyncCommand::new().start("https://example.org/agents/new.git", None);
    let (cmd, _) = cmd.on_registry("./packages.toml".to_string(), Ok(before.clone()));
    let (cmd, _) = cmd.on_commit(Ok(COMMIT.to_string()));
    // the staging directory could not be created: nothing exists to remove
    let (cmd, action) = cmd.on_staged(Err(("/tmp/atm".to_string(), "no space".to_string())));
    match &action {
        SyncAction::SaveRegistry { text } => assert_eq!(text, &before),
        other => panic!("expected the unchanged registry to be saved, got {:?}", other),
    }
    assert!(matches!(cmd.phase, Phase::Saving { failure: Some(SyncError::Staging(_, _)) }));
    let (cmd, action) = cmd.on_saved(Ok(()));
    assert!(matches!(action, SyncAction::Report { ok: false }));
    assert!(matches!(cmd.phase, Phase::Done { failure: Some(_) }));
}

#[test]
fn backend_failures_are_distinct() {
    let before = registry_with_foo();
    let (cmd, _) = SyncCommand::new().start("https://example.org/agents/new.git", None);
    let (cmd, _) = cmd.on_registry("./packages.toml".to_string(), Ok(before.clone()));
    let (cmd, _) = cmd.on_commit(Ok(COMMIT.to_string()));
    let (cmd, _) = cmd.on_staged(Ok("/tmp/atm/stage-5".to_string()));
    let (cmd, _) = cmd.on_cloned(Ok(()));
    let manifest = "[backend]\ntype = \"Docker\"\n\n[endpoint]\npath = \"/\"\nprotocol = \"MCP\"\n";
    let (cmd, _) = cmd.on_manifest("m".to_string(), Ok(manifest.to_string()));
    let (cmd, action) = cmd.on_backend(Err("daemon unreachable".to_string()));
    match &action {
        SyncAction::RemoveStaging { dir } => assert_eq!(dir, "/tmp/atm/stage-5"),
        other => panic!("expected staging cleanup, got {:?}", other),
    }
    assert!(matches!(
        cmd.phase,
        Phase::Removing { failure: Some(SyncError::BackendConstruction(_)), .. }
    ));
    let (cmd, action) = cmd.on_removed(Ok(()));
    match &action {
        SyncAction::SaveRegistry { text } => assert_eq!(text, &before),
        other => panic!("expected the unchanged registry to be saved, got {:?}", other),
    }
    let (_, action) = cmd.on_saved(Ok(()));
    assert!(matches!(action, SyncAction::Report { ok: false }));
}

#[test]
fn install_failure_commits_nothing() {
    let before = registry_with_foo();
    let (cmd, _) = SyncCommand::new().start("https://example.org/agents/new.git", None);
    let (cmd, _) = cmd.on_registry("./packages.toml".to_string(), Ok(before.clone()));
    let (cmd, _) = cmd.on_commit(Ok(COMMIT.to_string()));
    let (cmd, _) = cmd.on_staged(Ok("/tmp/atm/stage-6".to_string()));
    let (cmd, _) = cmd.on_cloned(Ok(()));
    let manifest = "[backend]\ntype = \"Local\"\n\n[endpoint]\npath = \"/\"\nprotocol = \"MCP\"\n";
    let (cmd, _) = cmd.on_manifest("m".to_string(), Ok(manifest.to_string()));
    let (cmd, _) = cmd.on_backend(Ok(()));
    let (cmd, action) = cmd.on_installed(Err("install failed".to_string()));
    assert!(matches!(action, SyncAction::RemoveStaging { .. }));
    let (cmd, action) = cmd.on_removed(Ok(()));
    match &action {
        SyncAction::SaveRegistry { text } => assert_eq!(text, &before),
        other => panic!("expected the unchanged registry to be saved, got {:?}", other),
    }
    let (cmd, action) = cmd.on_saved(Ok(()));
    assert!(matches!(action, SyncAction::Report { ok: false }));
    assert!(matches!(cmd.phase, Phase::Done { failure: Some(SyncError::BackendOperation(_)) }));
}
