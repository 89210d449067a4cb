use vstd::prelude::*;

verus! {

/// The serialisation a capability manifest is written in.
#[derive(Debug, Clone, Copy, PartialEq, Eq)]
pub enum ManifestFormat {
    Yaml,
    Json,
}

/// Turns manifest text into a manifest; implemented where serialisation formats are at hand.
pub trait ManifestParser {
    fn parse_str(&self, source: &str) -> Result<crate::manifest::models::CapabilityManifest, crate::error::EpistemError>;
}

/// The parser of JSON manifests.
#[derive(Debug, Default, Clone, Copy)]
pub struct JsonManifestParser;

/// The parser of YAML manifests.
#[derive(Debug, Default, Clone, Copy)]
pub struct YamlManifestParser;

impl JsonManifestParser {
    /// The format this parser reads.
    pub fn format(&self) -> (f: ManifestFormat)
        ensures
            f == ManifestFormat::Json,
    {
        ManifestFormat::Json
    }
}

impl YamlManifestParser {
    /// The format this parser reads.
    pub fn format(&self) -> (f: ManifestFormat)
        ensures
            f == ManifestFormat::Yaml,
    {
        ManifestFormat::Yaml
    }
}

} // verus!
