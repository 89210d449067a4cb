use epistem::cli::{issue_rows, joined, manifest_rows, status, validate, validation_table, ValidationRow};
use epistem::manifest::validation::{referenced_paths, validate_text_list, ManifestValidator, ValidationIssue};
use epistem::manifest::{
    CapabilityManifest, InstallSpec, ReadyProbe, RuntimeSpec, RuntimeType, TestSuitePaths,
};
use epistem::storage::{CapabilitySource, FilesystemCapabilityLoader};
use epistem::error::EpistemError;

fn gmail_send() -> CapabilityManifest {
    CapabilityManifest {
        name: "gmail-send".to_string(),
        version: "1.0.0".to_string(),
        description: Some("Send mail through Gmail".to_string()),
        capabilities: vec!["gmail".to_string()],
        dependencies: vec![],
        install: None,
        runtime: RuntimeSpec {
            kind: RuntimeType::Available,
            initialize: None,
            ready: None,
            shutdown: None,
        },
        communication: None,
        prompt: Some("prompt.md".to_string()),
        tests: Some(TestSuitePaths {
            startup: Some("tests/startup.yaml".to_string()),
            smoke: Some("tests/smoke.yaml".to_string()),
        }),
        keywords: vec!["mail".to_string()],
    }
}

fn issue(field: &str, message: &str) -> ValidationIssue {
    ValidationIssue { field: field.to_string(), message: message.to_string() }
}

#[test]
fn validates_manifest() {
    let validator = ManifestValidator::default();
    let manifest = gmail_send();
    let existing = referenced_paths(&manifest, "examples/gmail-send");
    let report = validator.validate_path("examples/gmail-send", true, Ok(manifest), &existing);

    assert!(report.valid, "{:#?}", report.issues);
    let manifest = report.manifest.expect("manifest should be present");
    assert_eq!(manifest.name, "gmail-send");
    assert_eq!(manifest.capabilities, vec!["gmail"]);
}

#[test]
fn referenced_paths_are_joined_to_the_root() {
    let paths = referenced_paths(&gmail_send(), "examples/gmail-send");
    assert_eq!(
        paths,
        vec![
            "examples/gmail-send/prompt.md".to_string(),
            "examples/gmail-send/tests/startup.yaml".to_string(),
            "examples/gmail-send/tests/smoke.yaml".to_string(),
        ]
    );
}

#[test]
fn validate_path_reports_the_manifest_path() {
    let validator = ManifestValidator::default();
    let manifest = gmail_send();
    let existing = referenced_paths(&manifest, "examples/gmail-send");
    let report = validator.validate_path("examples/gmail-send", true, Ok(manifest), &existing);
    assert_eq!(report.path, "examples/gmail-send/capability.yaml");

    let manifest = gmail_send();
    let report = validator.validate_path(
        "examples/gmail-send/capability.yaml",
        false,
        Ok(manifest),
        &existing,
    );
    assert_eq!(report.path, "examples/gmail-send/capability.yaml");
    assert!(report.valid, "{:#?}", report.issues);
}

#[test]
fn missing_referenced_files_are_issues() {
    let validator = ManifestValidator::default();
    let existing = vec!["examples/gmail-send/tests/smoke.yaml".to_string()];
    let report = validator.validate_path("examples/gmail-send", true, Ok(gmail_send()), &existing);
    assert!(!report.valid);
    assert_eq!(
        report.issues,
        vec![
            issue("prompt", "path does not exist: examples/gmail-send/prompt.md"),
            issue("tests.startup", "path does not exist: examples/gmail-send/tests/startup.yaml"),
        ]
    );
    assert!(report.manifest.is_some());
}

#[test]
fn unreadable_manifest_is_invalid() {
    let validator = ManifestValidator::default();
    let report = validator.validate_path(
        "examples/broken",
        true,
        Err("missing field `name`".to_string()),
        &Vec::new(),
    );
    assert!(!report.valid);
    assert!(report.manifest.is_none());
    assert_eq!(report.path, "examples/broken/capability.yaml");
    assert_eq!(report.issues, vec![issue("capability.yaml", "missing field `name`")]);

    let report = validator.validate_data(Err("bad yaml".to_string()), &Vec::new());
    assert_eq!(report.path, "<memory>");
    assert_eq!(report.issues, vec![issue("manifest", "bad yaml")]);
}

#[test]
fn blank_fields_are_issues() {
    let mut manifest = gmail_send();
    manifest.name = "  ".to_string();
    manifest.version = String::new();
    manifest.capabilities = vec!["gmail".to_string(), " ".to_string()];
    manifest.prompt = None;
    manifest.tests = None;
    manifest.install = Some(InstallSpec {
        requires: vec!["".to_string()],
        steps: vec!["make".to_string()],
    });
    let validator = ManifestValidator::default();
    let report = validator.validate_data(Ok(manifest), &Vec::new());
    assert_eq!(report.path, "<memory>");
    assert!(!report.valid);
    assert_eq!(
        report.issues,
        vec![
            issue("name", "must not be blank"),
            issue("version", "must not be blank"),
            issue("capabilities[1]", "must not be blank"),
            issue("install.requires[0]", "must not be blank"),
        ]
    );
}

#[test]
fn runtime_probes_are_checked() {
    let mut manifest = gmail_send();
    manifest.prompt = None;
    manifest.tests = None;
    manifest.runtime = RuntimeSpec {
        kind: RuntimeType::Launch,
        initialize: Some(" ".to_string()),
        ready: Some(ReadyProbe::Tcp { port: 0 }),
        shutdown: None,
    };
    let report = ManifestValidator::default().validate_data(Ok(manifest), &Vec::new());
    assert_eq!(
        report.issues,
        vec![
            issue("runtime.initialize", "must not be blank"),
            issue("runtime.ready.port", "must be greater than zero"),
        ]
    );

    let mut manifest = gmail_send();
    manifest.prompt = None;
    manifest.tests = None;
    manifest.runtime.ready = Some(ReadyProbe::StdioHandshake { expected: "".to_string() });
    let report = ManifestValidator::default().validate_data(Ok(manifest), &Vec::new());
    assert_eq!(report.issues, vec![issue("runtime.ready.expected", "must not be blank")]);

    let mut manifest = gmail_send();
    manifest.prompt = None;
    manifest.tests = None;
    manifest.runtime.ready = Some(ReadyProbe::Command { command: "\t".to_string() });
    let report = ManifestValidator::default().validate_data(Ok(manifest), &Vec::new());
    assert_eq!(report.issues, vec![issue("runtime.ready.command", "must not be blank")]);
}

#[test]
fn text_lists_name_each_blank_entry() {
    let values = vec!["a".to_string(), "".to_string(), "b".to_string(), " ".to_string()];
    let issues = validate_text_list("keywords", &values);
    assert_eq!(
        issues,
        vec![issue("keywords[1]", "must not be blank"), issue("keywords[3]", "must not be blank")]
    );
}

#[test]
fn loads_capability_from_disk() {
    let loader = FilesystemCapabilityLoader::default();
    let manifest = gmail_send();
    let existing = referenced_paths(&manifest, "examples/gmail-send");
    let capability = loader
        .load("examples/gmail-send", true, Ok(manifest), &existing)
        .expect("capability should load");

    assert_eq!(capability.root().to_string(), "examples/gmail-send");
    assert_eq!(capability.manifest().name, "gmail-send");
}

#[test]
fn loading_fails_without_a_directory_or_a_valid_manifest() {
    let loader = FilesystemCapabilityLoader::default();
    match loader.load("examples/missing", false, Ok(gmail_send()), &Vec::new()) {
        Err(EpistemError::MissingManifest(path)) => assert_eq!(path, "examples/missing"),
        other => panic!("unexpected {other:?}"),
    }
    let mut manifest = gmail_send();
    manifest.prompt = None;
    manifest.tests = None;
    manifest.name = String::new();
    match loader.load("examples/gmail-send", true, Ok(manifest), &Vec::new()) {
        Err(EpistemError::InvalidManifest { path, reason }) => {
            assert_eq!(path, "examples/gmail-send/capability.yaml");
            assert!(reason.contains("name"), "{reason}");
            assert!(reason.contains("must not be blank"), "{reason}");
        }
        other => panic!("unexpected {other:?}"),
    }
}

#[test]
fn validation_table_pads_columns() {
    let rows = vec![ValidationRow {
        field: "path".to_string(),
        value: "x".to_string(),
        status: "valid".to_string(),
    }];
    assert_eq!(
        validation_table(&rows),
        vec![
            "+-------+-------+--------+".to_string(),
            "| Field | Value | Status |".to_string(),
            "+-------+-------+--------+".to_string(),
            "| path  | x     | valid  |".to_string(),
            "+-------+-------+--------+".to_string(),
        ]
    );
}

#[test]
fn rows_of_a_manifest_and_its_issues() {
    assert_eq!(status(true), "valid");
    assert_eq!(status(false), "invalid");
    assert_eq!(joined(&vec![]), "-");
    assert_eq!(joined(&vec!["a".to_string(), "b".to_string()]), "a, b");
    let rows = manifest_rows(&gmail_send(), true);
    let fields: Vec<&str> = rows.iter().map(|r| r.field.as_str()).collect();
    assert_eq!(
        fields,
        vec![
            "name",
            "version",
            "capabilities",
            "dependencies",
            "keywords",
            "runtime",
            "prompt",
            "tests.startup",
            "tests.smoke"
        ]
    );
    assert_eq!(rows[3].value, "-");
    assert_eq!(rows[5].value, "Available");
    let rows = issue_rows(&vec![issue("name", "must not be blank")]);
    assert_eq!(rows[0].field, "issue: name");
    assert_eq!(rows[0].value, "must not be blank");
    assert_eq!(rows[0].status, "invalid");
}

#[test]
fn validate_prints_the_table_of_the_report() {
    let report = ManifestValidator::default().validate_data(Err("bad".to_string()), &Vec::new());
    let lines = validate(&report);
    assert_eq!(lines.len(), 6);
    assert!(lines[3].starts_with("| path "), "{lines:?}");
    assert!(lines[3].contains("<memory>"), "{lines:?}");
    assert!(lines[4].starts_with("| issue: manifest "), "{lines:?}");
    assert!(lines[4].contains("| invalid |"), "{lines:?}");
}
