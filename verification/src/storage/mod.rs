pub mod capability;
pub mod loader;

pub use capability::{CapabilitySource, FilesystemCapability};
pub use loader::FilesystemCapabilityLoader;
