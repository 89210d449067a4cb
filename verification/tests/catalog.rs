use epistem::catalog::local::LocalCatalog;
use epistem::manifest::validation::referenced_paths;
use epistem::manifest::{CapabilityManifest, RuntimeSpec, RuntimeType};
use epistem::registry::{LocalRegistry, RegistryProvider};
use epistem::resolver::{DependencyGraph, PetgraphDependencyResolver};
use epistem::search::local::LocalSearch;
use epistem::storage::CapabilitySource;

fn manifest(name: &str, capabilities: &[&str], dependencies: &[&str]) -> CapabilityManifest {
    CapabilityManifest {
        name: name.to_string(),
        version: "1.0.0".to_string(),
        description: None,
        capabilities: capabilities.iter().map(|c| c.to_string()).collect(),
        dependencies: dependencies.iter().map(|c| c.to_string()).collect(),
        install: None,
        runtime: RuntimeSpec { kind: RuntimeType::Available, initialize: None, ready: None, shutdown: None },
        communication: None,
        prompt: None,
        tests: None,
        keywords: vec![],
    }
}

fn registry() -> LocalRegistry {
    let mut registry = LocalRegistry::default();
    let m = manifest("chrome", &["browser"], &[]);
    let existing = referenced_paths(&m, "/caps/chrome");
    let loaded = registry
        .load_from_filesystem("/caps/chrome", true, Ok(m), &existing)
        .expect("chrome loads");
    assert_eq!(loaded.root(), "/caps/chrome");
    registry
        .load_from_filesystem("/caps/mail", true, Ok(manifest("mail", &["gmail"], &["browser"])), &vec![])
        .expect("mail loads");
    registry
        .load_from_filesystem("/caps/firefox", true, Ok(manifest("firefox", &["browser"], &[])), &vec![])
        .expect("firefox loads");
    registry
}

#[test]
fn registry_keeps_what_loads_and_finds_by_capability() {
    let mut registry = registry();
    assert!(registry.load_from_filesystem("/caps/none", false, Ok(manifest("x", &["y"], &[])), &vec![]).is_err());
    assert_eq!(registry.capabilities().len(), 3);
    let browsers = registry.find_by_capability("browser");
    let roots: Vec<&str> = browsers.iter().map(|c| c.root().as_str()).collect();
    assert_eq!(roots, vec!["/caps/chrome", "/caps/firefox"]);
    assert!(registry.find_by_capability("smtp").is_empty());
}

#[test]
fn catalog_looks_up_and_builds_graphs() {
    let catalog = LocalCatalog::new(registry(), LocalSearch, PetgraphDependencyResolver);
    let found = catalog.lookup("gmail");
    assert_eq!(found.len(), 1);
    assert_eq!(found[0].manifest().name, "mail");
    assert!(LocalCatalog::default().lookup("gmail").is_empty());
    let manifests = vec![manifest("chrome", &["browser"], &[]), manifest("mail", &["gmail"], &["browser"])];
    let graph = catalog.dependency_graph(&manifests).expect("graph builds");
    assert_eq!(graph.edges().len(), 1);
    let _search: LocalSearch = catalog.search_provider();
}

#[test]
fn catalog_keeps_the_registry_it_is_given() {
    let catalog = LocalCatalog::new(registry(), LocalSearch, PetgraphDependencyResolver);
    assert_eq!(catalog.lookup("browser").len(), 2);
}
