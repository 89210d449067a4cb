use vstd::prelude::*;
use crate::error::{EpistemError, ErrorView};
use crate::manifest::models::{same_manifest, CapabilityManifest};
use crate::registry::traits::RegistryProvider;
use crate::storage::capability::{CapabilitySource, FilesystemCapability};
use crate::storage::loader::{load_outcome, FilesystemCapabilityLoader};
use crate::text::seq_has;

verus! {

/// The capabilities loaded from the local file system, in the order they were registered.
pub struct LocalRegistry {
    capabilities: Vec<FilesystemCapability>,
    loader: FilesystemCapabilityLoader,
}

/// Whether the capability offers the contract.
pub open spec fn offers(c: FilesystemCapability, contract: Seq<char>) -> bool {
    seq_has(c.manifest_value().capabilities.deep_view(), contract)
}

/// The positions of the capabilities that offer the contract, in order.
pub open spec fn offering_positions(cs: Seq<FilesystemCapability>, contract: Seq<char>) -> Seq<int>
    decreases cs.len(),
{
    if cs.len() == 0 {
        Seq::empty()
    } else {
        offering_positions(cs.drop_last(), contract) + if offers(cs.last(), contract) {
            seq![cs.len() - 1]
        } else {
            Seq::empty()
        }
    }
}

/// `found` holds copies of the capabilities at `positions`, in order.
pub open spec fn copies_of(
    found: Seq<FilesystemCapability>,
    cs: Seq<FilesystemCapability>,
    positions: Seq<int>,
) -> bool {
    &&& found.len() == positions.len()
    &&& forall|k: int|
        0 <= k < found.len() ==> (#[trigger] found[k]).root_view() == cs[positions[k]].root_view()
            && same_manifest(found[k].manifest_value(), cs[positions[k]].manifest_value())
}

impl LocalRegistry {
    /// The registered capabilities, in order.
    pub closed spec fn registered(&self) -> Seq<FilesystemCapability> {
        self.capabilities@
    }

    /// The loader the registry loads with.
    pub closed spec fn loader_value(&self) -> FilesystemCapabilityLoader {
        self.loader
    }

    /// An empty registry that loads with `loader`.
    pub fn new(loader: FilesystemCapabilityLoader) -> (r: LocalRegistry)
        ensures
            r.registered().len() == 0,
            r.loader_value() == loader,
    {
        LocalRegistry { capabilities: Vec::new(), loader }
    }

    /// An empty registry that loads YAML manifests.
    pub fn default() -> (r: LocalRegistry)
        ensures
            r.registered().len() == 0,
            r.loader_value().validator.format == crate::manifest::parser::ManifestFormat::Yaml,
    {
        LocalRegistry::new(FilesystemCapabilityLoader::default())
    }

    /// Loads the capability rooted at `capability_root` (see `FilesystemCapabilityLoader::load`
    /// for what `root_is_dir`, `parsed` and `existing` say of the disk), registers it, and
    /// gives it back; a capability that does not load leaves the registry as it was.
    pub fn load_from_filesystem(
        &mut self,
        capability_root: &str,
        root_is_dir: bool,
        parsed: Result<CapabilityManifest, String>,
        existing: &Vec<String>,
    ) -> (r: Result<&FilesystemCapability, EpistemError>)
        ensures
            final(self).loader_value() == old(self).loader_value(),
            match load_outcome(capability_root@, root_is_dir, parsed, existing.deep_view()) {
                Ok((root, m)) => r matches Ok(c) && c.root_view() == root && c.manifest_value() == m
                    && final(self).registered() == old(self).registered().push(*c),
                Err(e) => r matches Err(x) && x@ == e && final(self).registered() == old(
                    self,
                ).registered(),
            },
    {
        let capability = self.loader.load(capability_root, root_is_dir, parsed, existing)?;
        self.register(capability);
        let last = self.capabilities.len() - 1;
        Ok(&self.capabilities[last])
    }
}

impl RegistryProvider for LocalRegistry {
    /// Adds a capability after those registered.
    fn register(&mut self, capability: FilesystemCapability)
        ensures
            final(self).registered() == old(self).registered().push(capability),
            final(self).loader_value() == old(self).loader_value(),
    {
        self.capabilities.push(capability);
    }

    /// The registered capabilities, in order.
    fn capabilities(&self) -> (r: &[FilesystemCapability])
        ensures
            r@ == self.registered(),
    {
        self.capabilities.as_slice()
    }

    /// Copies of the registered capabilities that offer the contract, in order.
    fn find_by_capability(&self, contract: &str) -> (r: Vec<FilesystemCapability>)
        ensures
            copies_of(r@, self.registered(), offering_positions(self.registered(), contract@)),
    {
        let mut r: Vec<FilesystemCapability> = Vec::new();
        let mut i: usize = 0;
        while i < self.capabilities.len()
            invariant
                i <= self.capabilities@.len(),
                copies_of(
                    r@,
                    self.capabilities@,
                    offering_positions(self.capabilities@.take(i as int), contract@),
                ),
            decreases self.capabilities@.len() - i,
        {
            let ghost prefix = self.capabilities@.take(i + 1);
            let ghost before = offering_positions(self.capabilities@.take(i as int), contract@);
            assert(prefix.drop_last() =~= self.capabilities@.take(i as int));
            assert(prefix.last() == self.capabilities@[i as int]);
            let c = &self.capabilities[i];
            if crate::text::contains_text(&c.manifest().capabilities, contract) {
                r.push(c.duplicate());
                assert(offering_positions(prefix, contract@) =~= before.push(i as int));
            } else {
                assert(offering_positions(prefix, contract@) =~= before);
            }
            i = i + 1;
        }
        assert(self.capabilities@.take(self.capabilities@.len() as int) =~= self.capabilities@);
        r
    }
}

} // verus!
