use vstd::prelude::*;
use crate::registry::traits::RegistryProvider;
use crate::storage::capability::FilesystemCapability;

verus! {

/// A registry kept elsewhere; it holds nothing yet.
#[derive(Debug, Default)]
pub struct RemoteRegistry;

impl RegistryProvider for RemoteRegistry {
    /// Registering keeps nothing.
    fn register(&mut self, capability: FilesystemCapability) {
    }

    /// There are no capabilities.
    fn capabilities(&self) -> (r: &[FilesystemCapability])
        ensures
            r@.len() == 0,
    {
        &[]
    }

    /// Nothing is found.
    fn find_by_capability(&self, contract: &str) -> (r: Vec<FilesystemCapability>)
        ensures
            r@.len() == 0,
    {
        Vec::new()
    }
}

} // verus!
