pub mod models;
pub mod parser;
pub mod validation;

pub use models::{
    CapabilityManifest, CommunicationSpec, InstallSpec, ReadyProbe, RuntimeSpec, RuntimeType,
    TestSuitePaths, TransportType, WorkspaceManifest,
};
pub use parser::{ManifestParser, YamlManifestParser};
pub use validation::{ManifestValidationReport, ManifestValidator, ValidationIssue};
