use vstd::prelude::*;
use crate::storage::capability::FilesystemCapability;

verus! {

/// Where capabilities are kept: they can be registered, listed and looked up by the contract
/// they offer.
pub trait RegistryProvider {
    fn register(&mut self, capability: FilesystemCapability);

    fn capabilities(&self) -> &[FilesystemCapability];

    fn find_by_capability(&self, contract: &str) -> Vec<FilesystemCapability>;
}

} // verus!
