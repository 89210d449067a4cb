use epistem::error::EpistemError;
use epistem::learn::session::{LearnAction, LearnEvent, LearnSession};
use epistem::learn::{
    acquired_root, fetch_provider, installed_root, registry_source, sanitize_capability,
    FetcherKind, LearnOptions, RegistrySource,
};
use epistem::manifest::{CapabilityManifest, InstallSpec, ManifestValidationReport, RuntimeSpec, RuntimeType};
use epistem::provider::{ProviderRef, ProviderScheme};
use epistem::registry::RegistryIndex;

fn local(location: &str) -> ProviderRef {
    ProviderRef { scheme: ProviderScheme::Local, location: location.to_string(), reference: None }
}

fn manifest(name: &str, capabilities: &[&str], dependencies: &[&str], requires: &[&str]) -> CapabilityManifest {
    CapabilityManifest {
        name: name.to_string(),
        version: "1.0.0".to_string(),
        description: None,
        capabilities: capabilities.iter().map(|c| c.to_string()).collect(),
        dependencies: dependencies.iter().map(|c| c.to_string()).collect(),
        install: if requires.is_empty() {
            None
        } else {
            Some(InstallSpec { requires: requires.iter().map(|c| c.to_string()).collect(), steps: vec![] })
        },
        runtime: RuntimeSpec { kind: RuntimeType::Available, initialize: None, ready: None, shutdown: None },
        communication: None,
        prompt: None,
        tests: None,
        keywords: vec![],
    }
}

fn valid(root: &str, m: CapabilityManifest) -> LearnEvent {
    LearnEvent::Validated(ManifestValidationReport::from_manifest(root.to_string(), m, vec![]))
}

fn step(session: &mut LearnSession, event: LearnEvent) -> LearnAction {
    assert!(session.accepts(&event), "event not expected: {event:?}");
    session.step(event)
}

fn registry(entries: &[(&str, &str)]) -> RegistryIndex {
    let mut index = RegistryIndex::new();
    for (capability, location) in entries {
        index.insert(capability.to_string(), vec![local(location)]);
    }
    index
}

/// Takes a capability from the workspace check up to its validation report.
fn fetch_and_validate(session: &mut LearnSession, capability: &str, location: &str, m: CapabilityManifest) -> LearnAction {
    match step(session, LearnEvent::WorkspaceHas(false)) {
        LearnAction::PrepareAcquisition { directory } => assert_eq!(directory, "/ws/.epistem/acquired"),
        other => panic!("unexpected {other:?}"),
    }
    match step(session, LearnEvent::Done) {
        LearnAction::Fetch { reference, destination } => {
            assert_eq!(reference, local(location));
            assert_eq!(destination, "/ws/.epistem/acquired");
        }
        other => panic!("unexpected {other:?}"),
    }
    let root = format!("/ws/.epistem/acquired/{capability}");
    match step(session, LearnEvent::Fetched(root.clone())) {
        LearnAction::Validate { root: r } => assert_eq!(r, root),
        other => panic!("unexpected {other:?}"),
    }
    step(session, valid(&root, m))
}

#[test]
fn a_learned_capability_is_found_in_the_workspace() {
    let (mut session, action) = LearnSession::start("/ws".to_string(), registry(&[]), "browser-attach");
    match action {
        LearnAction::CheckWorkspace { capability } => assert_eq!(capability, "browser-attach"),
        other => panic!("unexpected {other:?}"),
    }
    assert!(session.is_active());
    match step(&mut session, LearnEvent::WorkspaceHas(true)) {
        LearnAction::Finish(outcome) => {
            assert_eq!(outcome.capability, "browser-attach");
            assert_eq!(outcome.provider_root, "/ws/capabilities/browser-attach");
        }
        other => panic!("unexpected {other:?}"),
    }
    assert!(!session.is_active());
}

#[test]
fn an_unregistered_capability_fails() {
    let (mut session, _) = LearnSession::start("/ws".to_string(), registry(&[]), "nothing");
    match step(&mut session, LearnEvent::WorkspaceHas(false)) {
        LearnAction::Fail(e) => assert_eq!(e, EpistemError::Registry("no providers registered for nothing".to_string())),
        other => panic!("unexpected {other:?}"),
    }
    assert!(!session.is_active());
}

#[test]
fn dependencies_are_learned_before_the_dependent_runs() {
    let index = registry(&[("mail", "/p/mail"), ("browser", "/p/browser")]);
    let (mut session, _) = LearnSession::start("/ws".to_string(), index, "mail");
    let m = manifest("mail-provider", &["mail"], &["browser"], &[]);
    match fetch_and_validate(&mut session, "mail", "/p/mail", m) {
        LearnAction::CheckWorkspace { capability } => assert_eq!(capability, "browser"),
        other => panic!("unexpected {other:?}"),
    }
    let b = manifest("browser-provider", &["browser"], &[], &["chromium >= 100", "node"]);
    match fetch_and_validate(&mut session, "browser", "/p/browser", b) {
        LearnAction::ProbeCommands { commands } => {
            assert_eq!(commands, vec!["chromium".to_string(), "node".to_string()])
        }
        other => panic!("unexpected {other:?}"),
    }
    assert!(!session.accepts(&LearnEvent::Done));
    match step(&mut session, LearnEvent::Available(vec!["node".to_string(), "chromium".to_string()])) {
        LearnAction::Run => {}
        other => panic!("unexpected {other:?}"),
    }
    let selected = session.selected().expect("a provider is chosen");
    assert_eq!(selected.manifest.name, "browser-provider");
    assert_eq!(selected.root, "/ws/.epistem/acquired/browser");
    match step(&mut session, LearnEvent::Done) {
        LearnAction::Install { source, destination } => {
            assert_eq!(source, "/ws/.epistem/acquired/browser");
            assert_eq!(destination, "/ws/capabilities/browser");
        }
        other => panic!("unexpected {other:?}"),
    }
    match step(&mut session, LearnEvent::Done) {
        LearnAction::Record { capability } => assert_eq!(capability, "browser"),
        other => panic!("unexpected {other:?}"),
    }
    // With its dependency recorded, the dependent runs.
    match step(&mut session, LearnEvent::Done) {
        LearnAction::Run => {}
        other => panic!("unexpected {other:?}"),
    }
    assert_eq!(session.selected().unwrap().manifest.name, "mail-provider");
    match step(&mut session, LearnEvent::Done) {
        LearnAction::Install { source, destination } => {
            assert_eq!(source, "/ws/.epistem/acquired/mail");
            assert_eq!(destination, "/ws/capabilities/mail");
        }
        other => panic!("unexpected {other:?}"),
    }
    match step(&mut session, LearnEvent::Done) {
        LearnAction::Record { capability } => assert_eq!(capability, "mail"),
        other => panic!("unexpected {other:?}"),
    }
    match step(&mut session, LearnEvent::Done) {
        LearnAction::Finish(outcome) => {
            assert_eq!(outcome.capability, "mail");
            assert_eq!(outcome.provider_root, "/ws/capabilities/mail");
        }
        other => panic!("unexpected {other:?}"),
    }
    assert!(!session.is_active());
}

#[test]
fn a_dependency_cycle_is_refused() {
    let index = registry(&[("a", "/p/a"), ("b", "/p/b")]);
    let (mut session, _) = LearnSession::start("/ws".to_string(), index, "a");
    match fetch_and_validate(&mut session, "a", "/p/a", manifest("pa", &["a"], &["b"], &[])) {
        LearnAction::CheckWorkspace { capability } => assert_eq!(capability, "b"),
        other => panic!("unexpected {other:?}"),
    }
    match fetch_and_validate(&mut session, "b", "/p/b", manifest("pb", &["b"], &["a"], &[])) {
        LearnAction::Fail(e) => assert_eq!(
            e,
            EpistemError::Registry("cyclic capability dependency detected at a".to_string())
        ),
        other => panic!("unexpected {other:?}"),
    }
    assert!(!session.is_active());
}

#[test]
fn unmet_requirements_leave_no_provider() {
    let index = registry(&[("browser", "/p/browser")]);
    let (mut session, _) = LearnSession::start("/ws".to_string(), index, "browser");
    let b = manifest("browser-provider", &["browser"], &[], &["chromium"]);
    match fetch_and_validate(&mut session, "browser", "/p/browser", b) {
        LearnAction::ProbeCommands { commands } => assert_eq!(commands, vec!["chromium".to_string()]),
        other => panic!("unexpected {other:?}"),
    }
    match step(&mut session, LearnEvent::Available(vec![])) {
        LearnAction::Fail(e) => assert_eq!(
            e,
            EpistemError::Registry("no compatible provider found for capability browser".to_string())
        ),
        other => panic!("unexpected {other:?}"),
    }
}

#[test]
fn invalid_or_unrelated_providers_are_passed_over() {
    let mut index = RegistryIndex::new();
    index.insert("browser".to_string(), vec![local("/p/one"), local("/p/two"), local("/p/three")]);
    let (mut session, _) = LearnSession::start("/ws".to_string(), index, "browser");
    step(&mut session, LearnEvent::WorkspaceHas(false));
    step(&mut session, LearnEvent::Done);
    step(&mut session, LearnEvent::Fetched("/acq/one".to_string()));
    let invalid = ManifestValidationReport::invalid("/acq/one/capability.yaml".to_string(), vec![]);
    match step(&mut session, LearnEvent::Validated(invalid)) {
        LearnAction::Fetch { reference, .. } => assert_eq!(reference, local("/p/two")),
        other => panic!("unexpected {other:?}"),
    }
    step(&mut session, LearnEvent::Fetched("/acq/two".to_string()));
    match step(&mut session, valid("/acq/two", manifest("other", &["mail"], &[], &[]))) {
        LearnAction::Fetch { reference, .. } => assert_eq!(reference, local("/p/three")),
        other => panic!("unexpected {other:?}"),
    }
    step(&mut session, LearnEvent::Fetched("/acq/three".to_string()));
    match step(&mut session, valid("/acq/three", manifest("good", &["browser"], &[], &[]))) {
        LearnAction::Run => {}
        other => panic!("unexpected {other:?}"),
    }
    assert_eq!(session.selected().unwrap().root, "/acq/three");
}

#[test]
fn a_failure_ends_learning() {
    let (mut session, _) = LearnSession::start("/ws".to_string(), registry(&[("a", "/p/a")]), "a");
    let failure = EpistemError::Io("disk full".to_string());
    match step(&mut session, LearnEvent::Failed(failure.clone())) {
        LearnAction::Fail(e) => assert_eq!(e, failure),
        other => panic!("unexpected {other:?}"),
    }
    assert!(!session.accepts(&LearnEvent::Done));
    assert!(!session.accepts(&LearnEvent::WorkspaceHas(true)));
}

#[test]
fn workspace_paths_and_sources() {
    assert_eq!(sanitize_capability("github:owner/repo@v1"), "github-owner-repo-v1");
    assert_eq!(installed_root("/ws", "a/b"), "/ws/capabilities/a-b");
    assert_eq!(acquired_root("/ws"), "/ws/.epistem/acquired");
    let named = LearnOptions { registry_dir: Some("/reg".to_string()) };
    assert_eq!(registry_source(&named, Some("/env")), RegistrySource::Directory("/reg".to_string()));
    let unnamed = LearnOptions { registry_dir: None };
    assert_eq!(registry_source(&unnamed, Some("/env")), RegistrySource::Directory("/env".to_string()));
    assert_eq!(registry_source(&unnamed, None), RegistrySource::Embedded);
    assert_eq!(fetch_provider(ProviderScheme::Github), FetcherKind::Git);
    assert_eq!(fetch_provider(ProviderScheme::File), FetcherKind::Local);
    assert_eq!(fetch_provider(ProviderScheme::Local), FetcherKind::Local);
}
