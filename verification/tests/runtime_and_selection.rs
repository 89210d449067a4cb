use epistem::cli::{initialized_line, learned_line, pending_notice, Commands};
use epistem::error::EpistemError;
use epistem::learn::LearnOutcome;
use epistem::manifest::{
    CapabilityManifest, InstallSpec, ReadyProbe, RuntimeSpec, RuntimeType, TestSuitePaths,
    WorkspaceManifest,
};
use epistem::provider::{ProviderRef, ProviderScheme};
use epistem::reasoning::{
    environment_satisfies, requirement_command, CandidateProvider, DeterministicSelector,
    ProviderSelector,
};
use epistem::runtime::{ReadyCheck, RuntimeController};
use epistem::utils::paths::manifest_path_for;
use epistem::verification::{
    suite_paths, VerificationExpectation, VerificationRunner, VerificationStep, VerificationSuite,
};

fn manifest(name: &str, capabilities: &[&str], requires: Option<&[&str]>) -> CapabilityManifest {
    CapabilityManifest {
        name: name.to_string(),
        version: "1.0.0".to_string(),
        description: None,
        capabilities: capabilities.iter().map(|c| c.to_string()).collect(),
        dependencies: vec![],
        install: requires.map(|r| InstallSpec {
            requires: r.iter().map(|c| c.to_string()).collect(),
            steps: vec![],
        }),
        runtime: RuntimeSpec { kind: RuntimeType::Available, initialize: None, ready: None, shutdown: None },
        communication: None,
        prompt: None,
        tests: None,
        keywords: vec![],
    }
}

fn candidate(name: &str, capabilities: &[&str], requires: Option<&[&str]>) -> CandidateProvider {
    CandidateProvider {
        reference: ProviderRef { scheme: ProviderScheme::Local, location: name.to_string(), reference: None },
        root: format!("/acq/{name}"),
        manifest: manifest(name, capabilities, requires),
    }
}

#[test]
fn requirement_commands_stop_at_separators() {
    assert_eq!(requirement_command("python>=3.11"), "python");
    assert_eq!(requirement_command("node 20"), "node");
    assert_eq!(requirement_command("git=2"), "git");
    // What precedes a leading space is empty.
    assert_eq!(requirement_command("  git=2"), "");
    assert_eq!(requirement_command(">=1"), "");
}

#[test]
fn environment_needs_every_command() {
    let m = manifest("p", &["x"], Some(&["git >= 2", "make"]));
    assert!(environment_satisfies(&m, &vec!["make".to_string(), "git".to_string()]));
    assert!(!environment_satisfies(&m, &vec!["make".to_string()]));
    assert!(environment_satisfies(&manifest("q", &["x"], None), &vec![]));
    // A requirement that names no command is never met.
    let blank = manifest("r", &["x"], Some(&[">=3"]));
    assert!(!environment_satisfies(&blank, &vec!["".to_string()]));
}

#[test]
fn selector_takes_the_first_compatible_candidate() {
    let candidates = vec![
        candidate("other", &["mail"], None),
        candidate("needs-git", &["browser"], Some(&["git"])),
        candidate("plain", &["browser"], None),
        candidate("later", &["browser"], None),
    ];
    let chosen = DeterministicSelector
        .select("browser", candidates, &vec![])
        .expect("a candidate fits");
    assert_eq!(chosen.manifest.name, "plain");

    let candidates = vec![candidate("needs-git", &["browser"], Some(&["git"]))];
    let chosen = DeterministicSelector.select("browser", candidates, &vec!["git".to_string()]);
    assert_eq!(chosen.unwrap().root, "/acq/needs-git");

    let candidates = vec![candidate("other", &["mail"], None)];
    match DeterministicSelector.select("browser", candidates, &vec![]) {
        Err(e) => assert_eq!(
            e,
            EpistemError::Registry("no compatible provider found for capability browser".to_string())
        ),
        Ok(c) => panic!("unexpected {:?}", c.manifest.name),
    }
}

#[test]
fn runtime_decisions() {
    let controller = RuntimeController;
    let mut m = manifest("svc", &["x"], None);
    assert_eq!(controller.launch_command(&m), Ok(None));
    m.runtime.kind = RuntimeType::Launch;
    assert_eq!(
        controller.launch_command(&m),
        Err(EpistemError::Registry("missing runtime initialize command for svc".to_string()))
    );
    m.runtime.initialize = Some("./run.sh".to_string());
    assert_eq!(controller.launch_command(&m), Ok(Some("./run.sh".to_string())));

    assert_eq!(controller.ready_check(&m), ReadyCheck::Immediate);
    m.runtime.ready = Some(ReadyProbe::Tcp { port: 8080 });
    assert_eq!(controller.ready_check(&m), ReadyCheck::Connect(8080));
    m.runtime.ready = Some(ReadyProbe::Command { command: "curl x".to_string() });
    assert_eq!(controller.ready_check(&m), ReadyCheck::RunCommand("curl x".to_string()));
    m.runtime.ready = Some(ReadyProbe::StdioHandshake { expected: "ready".to_string() });
    assert_eq!(controller.ready_check(&m), ReadyCheck::Handshake("ready".to_string()));

    assert_eq!(controller.command_ready_outcome(&m, true), Ok(()));
    assert_eq!(
        controller.command_ready_outcome(&m, false),
        Err(EpistemError::Registry("ready command failed for svc".to_string()))
    );
    assert_eq!(controller.shutdown_outcome(&m, true), Ok(()));
    assert_eq!(
        controller.shutdown_outcome(&m, false),
        Err(EpistemError::Registry("shutdown command failed for svc".to_string()))
    );
    assert_eq!(
        controller.handshake_without_stdout(),
        EpistemError::Registry("stdio handshake requires captured stdout".to_string())
    );
}

#[test]
fn handshake_compares_trimmed_lines() {
    let controller = RuntimeController;
    let m = manifest("svc", &["x"], None);
    assert_eq!(controller.handshake_outcome(&m, "ready", " ready \n"), Ok(()));
    assert_eq!(
        controller.handshake_outcome(&m, "ready", "busy\n"),
        Err(EpistemError::Registry(
            "ready handshake mismatch for svc: expected \"ready\", got \"busy\\n\"".to_string()
        ))
    );
}

#[test]
fn replies_are_trimmed_and_must_not_be_blank() {
    let controller = RuntimeController;
    assert_eq!(controller.reply_text("  {\"status\":\"ok\"}\n"), Ok("{\"status\":\"ok\"}".to_string()));
    assert_eq!(
        controller.reply_text(" \n"),
        Err(EpistemError::Registry("provider returned an empty response".to_string()))
    );
}

#[test]
fn verification_suites_and_steps() {
    let tests = TestSuitePaths {
        startup: Some("tests/startup.yaml".to_string()),
        smoke: Some("tests/smoke.yaml".to_string()),
    };
    assert_eq!(
        suite_paths("/p", &tests),
        vec!["/p/tests/startup.yaml".to_string(), "/p/tests/smoke.yaml".to_string()]
    );
    let only_smoke = TestSuitePaths { startup: None, smoke: Some("s.yaml".to_string()) };
    assert_eq!(suite_paths("/p/", &only_smoke), vec!["/p/s.yaml".to_string()]);

    let step = VerificationStep {
        operation: "ping".to_string(),
        expect: VerificationExpectation { status: "ok".to_string() },
    };
    let suite = VerificationSuite { name: "startup".to_string(), steps: vec![step.clone()] };
    assert_eq!(VerificationRunner.check_step(&suite, &step, "ok"), Ok(()));
    assert_eq!(
        VerificationRunner.check_step(&suite, &step, ""),
        Err(EpistemError::Registry("verification startup failed: expected status ok, got ".to_string()))
    );
}

#[test]
fn workspace_manifest_records_once() {
    let mut w = WorkspaceManifest::fresh(Some("agent"));
    assert_eq!(w.name, "agent");
    assert_eq!(w.version, "0.1.0");
    assert!(w.capabilities.is_empty());
    assert_eq!(WorkspaceManifest::fresh(None).name, "epistem-workspace");
    w.record("browser-attach");
    w.record("gmail");
    w.record("browser-attach");
    assert_eq!(w.capabilities, vec!["browser-attach".to_string(), "gmail".to_string()]);
    assert!(w.contains("gmail"));
    assert!(!w.contains("gmai"));
}

#[test]
fn command_lines_and_paths() {
    let outcome = LearnOutcome {
        capability: "browser-attach".to_string(),
        provider_root: "/ws/capabilities/browser-attach".to_string(),
    };
    assert_eq!(
        learned_line(&outcome),
        "learned capability browser-attach into /ws/capabilities/browser-attach"
    );
    assert_eq!(initialized_line("/ws"), "initialized capability workspace in /ws");
    assert_eq!(pending_notice(&Commands::Install), Some("install is not implemented yet".to_string()));
    assert_eq!(pending_notice(&Commands::Search), Some("search is not implemented yet".to_string()));
    assert_eq!(pending_notice(&Commands::Graph), None);
    assert_eq!(manifest_path_for("examples/gmail-send"), "examples/gmail-send/capability.yaml");
    assert_eq!(manifest_path_for("/p/"), "/p/capability.yaml");
}

#[test]
fn error_messages() {
    assert_eq!(EpistemError::Registry("x".to_string()).message(), "registry error: x");
    assert_eq!(
        EpistemError::InvalidManifest { path: "p".to_string(), reason: "r".to_string() }.message(),
        "invalid capability manifest at p: r"
    );
    assert_eq!(EpistemError::MissingManifest("d".to_string()).message(), "missing capability manifest at d");
    assert_eq!(EpistemError::Resolution("c".to_string()).message(), "dependency resolution failed: c");
    assert_eq!(EpistemError::Io("denied".to_string()).message(), "I/O error: denied");
    assert_eq!(EpistemError::Json("eof".to_string()).message(), "JSON error: eof");
    assert_eq!(EpistemError::Yaml("tab".to_string()).message(), "YAML error: tab");
    assert_eq!(EpistemError::Search("none".to_string()).message(), "search error: none");
}

fn ping_step(expected: &str) -> (VerificationSuite, VerificationStep) {
    let step = VerificationStep {
        operation: "ping".to_string(),
        expect: VerificationExpectation { status: expected.to_string() },
    };
    (VerificationSuite { name: "smoke".to_string(), steps: vec![step.clone()] }, step)
}

#[test]
fn requests_are_json_objects() {
    let (_, step) = ping_step("ok");
    assert_eq!(epistem::verification::request_line(&step), "{\"operation\":\"ping\"}");
    let odd = VerificationStep {
        operation: "say \"hi\"\n\t\u{1}\\".to_string(),
        expect: VerificationExpectation { status: "ok".to_string() },
    };
    assert_eq!(
        epistem::verification::request_line(&odd),
        "{\"operation\":\"say \\\"hi\\\"\\n\\t\\u0001\\\\\"}"
    );
}

#[test]
fn replies_are_read_for_their_status() {
    let (suite, step) = ping_step("ok");
    let runner = VerificationRunner;
    assert_eq!(runner.check_reply(&suite, &step, "{\"status\":\"ok\"}\n"), Ok(()));
    assert_eq!(
        runner.check_reply(&suite, &step, "{\"status\":\"down\"}"),
        Err(EpistemError::Registry("verification smoke failed: expected status ok, got down".to_string()))
    );
    assert_eq!(
        runner.check_reply(&suite, &step, "{\"status\":3}"),
        Err(EpistemError::Registry("verification smoke failed: expected status ok, got ".to_string()))
    );
    assert_eq!(
        runner.check_reply(&suite, &step, "  \n"),
        Err(EpistemError::Registry("provider returned an empty response".to_string()))
    );
    assert!(matches!(runner.check_reply(&suite, &step, "not json"), Err(EpistemError::Json(_))));
    assert_eq!(
        runner.reply_outcome(&suite, &step, Err("trailing characters".to_string())),
        Err(EpistemError::Json("trailing characters".to_string()))
    );
    assert_eq!(runner.reply_outcome(&suite, &step, Ok(Some("ok".to_string()))), Ok(()));
    let (suite, empty) = ping_step("");
    assert_eq!(runner.reply_outcome(&suite, &empty, Ok(None)), Ok(()));
}

#[test]
fn init_plans_the_workspace_files() {
    let plan = epistem::cli::init_plan("/home/agent", Some("agent"));
    assert_eq!(plan.capabilities_dir, "/home/agent/capabilities");
    assert_eq!(plan.manifest_path, "/home/agent/epistem.yaml");
    assert_eq!(plan.guide_path, "/home/agent/EPISTEM.md");
    assert_eq!(plan.workspace.name, "agent");
    assert_eq!(plan.workspace.version, "0.1.0");
    assert!(plan.workspace.capabilities.is_empty());
    assert_eq!(epistem::cli::init_plan("/", None).workspace.name, "epistem-workspace");
    assert!(epistem::cli::WORKSPACE_DOC.starts_with("# Epistem Workspace\n\n"));
}
