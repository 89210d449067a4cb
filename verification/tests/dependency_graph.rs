use epistem::cli::graph_report;
use epistem::error::EpistemError;
use epistem::manifest::{CapabilityManifest, CommunicationSpec, RuntimeSpec, RuntimeType};
use epistem::resolver::{DependencyGraph, DependencyResolver, PetgraphDependencyResolver};

fn manifest(name: &str, capabilities: &[&str], dependencies: &[&str]) -> CapabilityManifest {
    CapabilityManifest {
        name: name.to_string(),
        version: "1.0.0".to_string(),
        description: None,
        capabilities: capabilities.iter().map(|c| c.to_string()).collect(),
        dependencies: dependencies.iter().map(|c| c.to_string()).collect(),
        install: None,
        runtime: RuntimeSpec {
            kind: RuntimeType::Available,
            initialize: None,
            ready: None,
            shutdown: None,
        },
        communication: Some(CommunicationSpec {
            transport: epistem::manifest::TransportType::Stdio,
        }),
        prompt: None,
        tests: None,
        keywords: vec![],
    }
}

#[test]
fn builds_dependency_graph() {
    let manifests = vec![
        CapabilityManifest {
            name: "browser-attach-runtime".to_string(),
            version: "1.0.0".to_string(),
            description: None,
            capabilities: vec!["browser-generic".to_string()],
            dependencies: vec![],
            install: None,
            runtime: RuntimeSpec {
                kind: RuntimeType::Available,
                initialize: None,
                ready: None,
                shutdown: None,
            },
            communication: Some(CommunicationSpec {
                transport: epistem::manifest::TransportType::Stdio,
            }),
            prompt: None,
            tests: None,
            keywords: vec![],
        },
        CapabilityManifest {
            name: "gmail-send-runtime".to_string(),
            version: "1.0.0".to_string(),
            description: None,
            capabilities: vec!["gmail".to_string()],
            dependencies: vec!["browser-generic".to_string()],
            install: None,
            runtime: RuntimeSpec {
                kind: RuntimeType::Available,
                initialize: None,
                ready: None,
                shutdown: None,
            },
            communication: Some(CommunicationSpec {
                transport: epistem::manifest::TransportType::Stdio,
            }),
            prompt: None,
            tests: None,
            keywords: vec![],
        },
    ];

    let graph = PetgraphDependencyResolver
        .build(&manifests)
        .expect("graph should build");

    assert_eq!(
        graph.nodes(),
        vec!["browser-attach-runtime".to_string(), "gmail-send-runtime".to_string()]
    );
    assert_eq!(graph.unresolved_requirements(), Vec::<String>::new());
    assert_eq!(graph.topological_order().expect("toposort"), graph.nodes());
    assert_eq!(graph.edges().len(), 1);
    assert_eq!(graph.edges()[0].contract, "browser-generic");
}

#[test]
fn edges_name_provider_dependent_and_contract() {
    let manifests = vec![
        manifest("mail", &["gmail"], &["browser"]),
        manifest("chrome", &["browser"], &[]),
    ];
    let graph = PetgraphDependencyResolver.build(&manifests).expect("graph should build");
    let edges = graph.edges();
    assert_eq!(edges.len(), 1);
    assert_eq!(edges[0].provider, "chrome");
    assert_eq!(edges[0].dependent, "mail");
    assert_eq!(edges[0].contract, "browser");
    // The provider comes before the manifest that depends on it.
    assert_eq!(
        graph.topological_order().expect("toposort"),
        vec!["chrome".to_string(), "mail".to_string()]
    );
}

#[test]
fn unprovided_requirements_are_unresolved() {
    let manifests = vec![
        manifest("mail", &["gmail"], &["browser", "smtp"]),
        manifest("chrome", &["browser"], &[]),
    ];
    let graph = PetgraphDependencyResolver.build(&manifests).expect("graph should build");
    assert_eq!(graph.unresolved_requirements(), vec!["smtp".to_string()]);
    assert_eq!(graph.edges().len(), 1);
}

#[test]
fn every_provider_of_a_contract_gets_an_edge() {
    let manifests = vec![
        manifest("chrome", &["browser"], &[]),
        manifest("firefox", &["browser"], &[]),
        manifest("mail", &["gmail"], &["browser"]),
    ];
    let graph = PetgraphDependencyResolver.build(&manifests).expect("graph should build");
    let edges = graph.edges();
    assert_eq!(edges.len(), 2);
    assert_eq!(edges[0].provider, "chrome");
    assert_eq!(edges[1].provider, "firefox");
    assert!(edges.iter().all(|e| e.dependent == "mail"));
}

#[test]
fn a_cycle_is_reported_by_the_ordering() {
    let manifests = vec![
        manifest("a", &["x"], &["y"]),
        manifest("b", &["y"], &["x"]),
    ];
    let graph = PetgraphDependencyResolver.build(&manifests).expect("graph should build");
    match graph.topological_order() {
        Err(EpistemError::Resolution(message)) => {
            assert!(message.starts_with("dependency cycle detected at "), "{message}");
            let node = &message["dependency cycle detected at ".len()..];
            assert!(node == "a" || node == "b", "{message}");
        }
        other => panic!("expected a cycle, got {other:?}"),
    }
}

#[test]
fn graph_report_lists_nodes_edges_and_order() {
    let manifests = vec![
        manifest("chrome", &["browser"], &[]),
        manifest("mail", &["gmail"], &["browser", "smtp"]),
    ];
    let (head, tail) = graph_report(&manifests);
    assert!(!head.is_empty());
    let tail = tail.expect("graph should order");
    let all: Vec<String> = head.iter().chain(tail.iter()).cloned().collect();
    assert!(all.iter().any(|l| l.contains("chrome")), "{all:?}");
    assert!(all.iter().any(|l| l == "unresolved: smtp"), "{all:?}");
}

#[test]
fn ordinary_manifest_sets_fit_in_a_graph() {
    let manifests = vec![
        manifest("chrome", &["browser"], &[]),
        manifest("firefox", &["browser"], &[]),
        manifest("mail", &["gmail"], &["browser", "browser"]),
    ];
    assert!(epistem::resolver::graph_fits(&manifests));
    assert!(epistem::resolver::graph_fits(&[]));
}
