use vstd::prelude::*;
use crate::error::EpistemError;
use crate::manifest::models::CapabilityManifest;
use crate::registry::local::{copies_of, offering_positions, LocalRegistry};
use crate::registry::traits::RegistryProvider;
use crate::resolver::graph::index_limit;
use crate::resolver::{
    dependency_edges, manifest_names, unresolved_of, DependencyResolver,
    PetgraphDependencyGraph, PetgraphDependencyResolver,
};
use crate::search::local::LocalSearch;
use crate::storage::capability::FilesystemCapability;
use crate::storage::loader::FilesystemCapabilityLoader;

verus! {

/// The local catalog: lookup in the local registry, and dependency graphs.
pub struct LocalCatalog {
    registry: LocalRegistry,
    search: LocalSearch,
    resolver: PetgraphDependencyResolver,
}

impl LocalCatalog {
    /// The registry the catalog looks capabilities up in.
    pub closed spec fn registry_value(&self) -> Seq<FilesystemCapability> {
        self.registry.registered()
    }

    /// The loader of the registry the catalog looks capabilities up in.
    pub closed spec fn registry_loader(&self) -> FilesystemCapabilityLoader {
        self.registry.loader_value()
    }

    /// A catalog over `registry`, searching with `search` and resolving with `resolver`.
    pub fn new(registry: LocalRegistry, search: LocalSearch, resolver: PetgraphDependencyResolver) -> (c:
        LocalCatalog)
        ensures
            c.registry_value() == registry.registered(),
            c.registry_loader() == registry.loader_value(),
    {
        LocalCatalog { registry, search, resolver }
    }

    /// A catalog over an empty registry.
    pub fn default() -> (c: LocalCatalog)
        ensures
            c.registry_value().len() == 0,
            c.registry_loader().validator.format == crate::manifest::parser::ManifestFormat::Yaml,
    {
        LocalCatalog {
            registry: LocalRegistry::default(),
            search: LocalSearch,
            resolver: PetgraphDependencyResolver,
        }
    }

    /// The search provider of the catalog.
    pub fn search_provider(&self) -> LocalSearch {
        self.search
    }

    /// Copies of the registered capabilities that offer the contract, in order.
    pub fn lookup(&self, contract: &str) -> (r: Vec<FilesystemCapability>)
        ensures
            copies_of(r@, self.registry_value(), offering_positions(self.registry_value(), contract@)),
    {
        self.registry.find_by_capability(contract)
    }

    /// The dependency graph of the manifests.
    pub fn dependency_graph(&self, manifests: &[CapabilityManifest]) -> (r: Result<
        PetgraphDependencyGraph,
        EpistemError,
    >)
        requires
            manifests@.len() < index_limit(),
            dependency_edges(manifests@).len() < index_limit(),
        ensures
            r matches Ok(g) && g.node_names() == manifest_names(manifests@) && g.edge_list()
                == dependency_edges(manifests@) && g.unresolved_list() == unresolved_of(
                manifests@,
            ),
    {
        self.resolver.build(manifests)
    }
}

} // verus!
