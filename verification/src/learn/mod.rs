pub mod session;

use vstd::prelude::*;
use crate::provider::ProviderScheme;
use crate::utils::paths::{joined_path, plain_join};

verus! {

/// Where the registry is read from, unless the environment names one.
#[derive(Debug, Clone, PartialEq, Eq)]
pub struct LearnOptions {
    pub registry_dir: Option<String>,
}

/// What learning a capability gave: the capability and where its provider now lives.
#[derive(Debug, Clone, PartialEq, Eq)]
pub struct LearnOutcome {
    pub capability: String,
    pub provider_root: String,
}

/// Learns capabilities into a workspace.
#[derive(Debug, Default, Clone, Copy)]
pub struct LearnEngine;

/// The registry a learning run reads.
#[derive(Debug, Clone, PartialEq, Eq)]
pub enum RegistrySource {
    /// The registry files in this directory.
    Directory(String),
    /// The registry built into the program.
    Embedded,
}

/// Which fetcher brings a provider in.
#[derive(Debug, Clone, Copy, PartialEq, Eq)]
pub enum FetcherKind {
    Git,
    Local,
}

/// The character with `/`, `@` and `:` made into `-`.
pub open spec fn sanitized_char(c: char) -> char {
    if c == '/' || c == '@' || c == ':' {
        '-'
    } else {
        c
    }
}

/// The directory name of a capability in a workspace.
pub open spec fn sanitized(capability: Seq<char>) -> Seq<char> {
    capability.map_values(|c: char| sanitized_char(c))
}

/// Where a learned capability lives in the workspace rooted at `workspace`.
pub open spec fn installed_root_of(workspace: Seq<char>, capability: Seq<char>) -> Seq<char> {
    joined_path(joined_path(workspace, "capabilities"@), sanitized(capability))
}

/// Where providers are fetched to before they are installed.
pub open spec fn acquired_root_of(workspace: Seq<char>) -> Seq<char> {
    joined_path(joined_path(workspace, ".epistem"@), "acquired"@)
}

/// The directory name of a capability in a workspace: `/`, `@` and `:` made into `-`.
pub fn sanitize_capability(capability: &str) -> (s: String)
    ensures
        s@ == sanitized(capability@),
{
    let v = crate::text::chars_of(capability);
    let mut s = String::new();
    let mut i: usize = 0;
    while i < v.len()
        invariant
            v@ == capability@,
            i <= v@.len(),
            s@ == v@.take(i as int).map_values(|c: char| sanitized_char(c)),
        decreases v@.len() - i,
    {
        let c = v[i];
        let d = if c == '/' || c == '@' || c == ':' {
            '-'
        } else {
            c
        };
        crate::text::push_char(&mut s, d);
        assert(v@.take(i + 1) =~= v@.take(i as int).push(c));
        assert(s@ =~= v@.take(i + 1).map_values(|c: char| sanitized_char(c)));
        i = i + 1;
    }
    assert(v@.take(v@.len() as int) =~= v@);
    s
}

/// Where a learned capability lives in the workspace rooted at `workspace_root`.
pub fn installed_root(workspace_root: &str, capability: &str) -> (p: String)
    ensures
        p@ == installed_root_of(workspace_root@, capability@),
        workspace_root@.len() > 0 ==> p@ == plain_join(
            plain_join(workspace_root@, "capabilities"@),
            sanitized(capability@),
        ),
{
    let dir = crate::utils::paths::path_join(workspace_root, "capabilities");
    let name = sanitize_capability(capability);
    proof {
        if workspace_root@.len() > 0 {
            crate::utils::paths::lemma_plain_join_nonempty(workspace_root@, "capabilities"@);
        }
    }
    crate::utils::paths::path_join(dir.as_str(), name.as_str())
}

/// Where providers are fetched to, in the workspace rooted at `workspace_root`.
pub fn acquired_root(workspace_root: &str) -> (p: String)
    ensures
        p@ == acquired_root_of(workspace_root@),
        workspace_root@.len() > 0 ==> p@ == plain_join(
            plain_join(workspace_root@, ".epistem"@),
            "acquired"@,
        ),
{
    let dir = crate::utils::paths::path_join(workspace_root, ".epistem");
    proof {
        if workspace_root@.len() > 0 {
            crate::utils::paths::lemma_plain_join_nonempty(workspace_root@, ".epistem"@);
        }
    }
    crate::utils::paths::path_join(dir.as_str(), "acquired")
}

/// The registry to read: the directory the options name, else the one the environment
/// names (`EPISTEM_REGISTRY`), else the built-in one.
pub fn registry_source(options: &LearnOptions, environment_registry: Option<&str>) -> (r:
    RegistrySource)
    ensures
        match options.registry_dir {
            Some(d) => r matches RegistrySource::Directory(x) && x@ == d@,
            None => match environment_registry {
                Some(e) => r matches RegistrySource::Directory(x) && x@ == e@,
                None => r == RegistrySource::Embedded,
            },
        },
{
    match &options.registry_dir {
        Some(d) => RegistrySource::Directory(crate::text::owned(d.as_str())),
        None => match environment_registry {
            Some(e) => RegistrySource::Directory(crate::text::owned(e)),
            None => RegistrySource::Embedded,
        },
    }
}

/// The fetcher for a provider: git for GitHub, a local copy for the rest.
pub fn fetch_provider(scheme: ProviderScheme) -> (k: FetcherKind)
    ensures
        k == (if scheme == ProviderScheme::Github {
            FetcherKind::Git
        } else {
            FetcherKind::Local
        }),
{
    match scheme {
        ProviderScheme::Github => FetcherKind::Git,
        _ => FetcherKind::Local,
    }
}

} // verus!
