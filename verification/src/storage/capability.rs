use vstd::prelude::*;
use crate::manifest::models::{same_manifest, CapabilityManifest};

verus! {

/// Something a capability is loaded from: a root directory and its manifest.
pub trait CapabilitySource {
    fn root(&self) -> &String;

    fn manifest(&self) -> &CapabilityManifest;
}

/// A capability loaded from a directory on disk.
#[derive(Debug, Clone, PartialEq, Eq)]
pub struct FilesystemCapability {
    root: String,
    manifest: CapabilityManifest,
}

impl FilesystemCapability {
    /// The directory the capability was loaded from.
    pub closed spec fn root_view(&self) -> Seq<char> {
        self.root@
    }

    /// The capability's manifest.
    pub closed spec fn manifest_value(&self) -> CapabilityManifest {
        self.manifest
    }

    /// A capability rooted at `root` with `manifest`.
    pub fn new(root: String, manifest: CapabilityManifest) -> (c: FilesystemCapability)
        ensures
            c.root_view() == root@,
            c.manifest_value() == manifest,
    {
        FilesystemCapability { root, manifest }
    }

    /// A copy of this capability.
    pub fn duplicate(&self) -> (c: FilesystemCapability)
        ensures
            c.root_view() == self.root_view(),
            same_manifest(c.manifest_value(), self.manifest_value()),
    {
        FilesystemCapability {
            root: crate::text::owned(self.root.as_str()),
            manifest: self.manifest.duplicate(),
        }
    }
}

impl CapabilitySource for FilesystemCapability {
    /// The directory the capability was loaded from.
    fn root(&self) -> (r: &String)
        ensures
            r@ == self.root_view(),
    {
        &self.root
    }

    /// The capability's manifest.
    fn manifest(&self) -> (m: &CapabilityManifest)
        ensures
            *m == self.manifest_value(),
    {
        &self.manifest
    }
}

} // verus!
