use vstd::prelude::*;

verus! {

/// A contract a capability satisfies, by identifier and version.
#[derive(Debug, Clone, PartialEq, Eq)]
pub struct ContractSpec {
    pub id: String,
    pub version: String,
}

/// A requirement on another capability's contract.
#[derive(Debug, Clone, PartialEq, Eq)]
pub struct DependencySpec {
    pub contract: String,
}

/// Where a provider keeps its guide, examples and tests.
#[derive(Debug, Clone, PartialEq, Eq)]
pub struct ArtifactPaths {
    pub guide: Option<String>,
    pub examples: Option<String>,
    pub tests: Option<String>,
}

/// What a provider needs on the machine, and the steps that install it.
#[derive(Debug, Clone, PartialEq, Eq)]
pub struct InstallSpec {
    pub requires: Vec<String>,
    pub steps: Vec<String>,
}

/// How a provider runs: already available, or launched as a process.
#[derive(Debug, Clone, Copy, PartialEq, Eq)]
pub enum RuntimeType {
    Available,
    Launch,
}

/// How to tell that a launched provider is ready.
#[derive(Debug, Clone, PartialEq, Eq)]
pub enum ReadyProbe {
    Process,
    Command { command: String },
    Tcp { port: u16 },
    StdioHandshake { expected: String },
}

/// The runtime section of a manifest.
#[derive(Debug, Clone, PartialEq, Eq)]
pub struct RuntimeSpec {
    pub kind: RuntimeType,
    pub initialize: Option<String>,
    pub ready: Option<ReadyProbe>,
    pub shutdown: Option<String>,
}

/// The transport a provider speaks.
#[derive(Debug, Clone, Copy, PartialEq, Eq)]
pub enum TransportType {
    Stdio,
    Http,
    Tcp,
}

/// The communication section of a manifest.
#[derive(Debug, Clone, Copy, PartialEq, Eq)]
pub struct CommunicationSpec {
    pub transport: TransportType,
}

/// The verification suites a provider ships, relative to its root.
#[derive(Debug, Clone, PartialEq, Eq)]
pub struct TestSuitePaths {
    pub startup: Option<String>,
    pub smoke: Option<String>,
}

/// The manifest (`capability.yaml`) of a capability provider.
#[derive(Debug, Clone, PartialEq, Eq)]
pub struct CapabilityManifest {
    pub name: String,
    pub version: String,
    pub description: Option<String>,
    pub capabilities: Vec<String>,
    pub dependencies: Vec<String>,
    pub install: Option<InstallSpec>,
    pub runtime: RuntimeSpec,
    pub communication: Option<CommunicationSpec>,
    pub prompt: Option<String>,
    pub tests: Option<TestSuitePaths>,
    pub keywords: Vec<String>,
}

/// The manifest of a workspace (`epistem.yaml`): the capabilities it has learned.
#[derive(Debug, Clone, PartialEq, Eq)]
pub struct WorkspaceManifest {
    pub name: String,
    pub version: String,
    pub capabilities: Vec<String>,
}


/// Two optional texts hold the same text.
pub open spec fn same_opt_text(a: Option<String>, b: Option<String>) -> bool {
    crate::text::opt_view(a) == crate::text::opt_view(b)
}

/// Two ready probes are the same probe.
pub open spec fn same_probe(a: ReadyProbe, b: ReadyProbe) -> bool {
    match (a, b) {
        (ReadyProbe::Process, ReadyProbe::Process) => true,
        (ReadyProbe::Command { command: x }, ReadyProbe::Command { command: y }) => x@ == y@,
        (ReadyProbe::Tcp { port: x }, ReadyProbe::Tcp { port: y }) => x == y,
        (ReadyProbe::StdioHandshake { expected: x }, ReadyProbe::StdioHandshake { expected: y }) =>
            x@ == y@,
        _ => false,
    }
}

/// Two runtime sections say the same.
pub open spec fn same_runtime(a: RuntimeSpec, b: RuntimeSpec) -> bool {
    &&& a.kind == b.kind
    &&& same_opt_text(a.initialize, b.initialize)
    &&& match (a.ready, b.ready) {
        (None, None) => true,
        (Some(x), Some(y)) => same_probe(x, y),
        _ => false,
    }
    &&& same_opt_text(a.shutdown, b.shutdown)
}

/// Two install sections say the same.
pub open spec fn same_install(a: Option<InstallSpec>, b: Option<InstallSpec>) -> bool {
    match (a, b) {
        (None, None) => true,
        (Some(x), Some(y)) => x.requires.deep_view() == y.requires.deep_view()
            && x.steps.deep_view() == y.steps.deep_view(),
        _ => false,
    }
}

/// Two tests sections say the same.
pub open spec fn same_tests(a: Option<TestSuitePaths>, b: Option<TestSuitePaths>) -> bool {
    match (a, b) {
        (None, None) => true,
        (Some(x), Some(y)) => same_opt_text(x.startup, y.startup) && same_opt_text(
            x.smoke,
            y.smoke,
        ),
        _ => false,
    }
}

/// Two manifests say the same, field by field.
pub open spec fn same_manifest(a: CapabilityManifest, b: CapabilityManifest) -> bool {
    &&& a.name@ == b.name@
    &&& a.version@ == b.version@
    &&& same_opt_text(a.description, b.description)
    &&& a.capabilities.deep_view() == b.capabilities.deep_view()
    &&& a.dependencies.deep_view() == b.dependencies.deep_view()
    &&& same_install(a.install, b.install)
    &&& same_runtime(a.runtime, b.runtime)
    &&& a.communication == b.communication
    &&& same_opt_text(a.prompt, b.prompt)
    &&& same_tests(a.tests, b.tests)
    &&& a.keywords.deep_view() == b.keywords.deep_view()
}

/// A copy of an optional text.
pub fn copy_opt_text(o: &Option<String>) -> (r: Option<String>)
    ensures
        same_opt_text(r, *o),
{
    match o {
        Some(s) => Some(crate::text::owned(s.as_str())),
        None => None,
    }
}

impl ReadyProbe {
    /// A copy of this probe.
    pub fn duplicate(&self) -> (r: ReadyProbe)
        ensures
            same_probe(r, *self),
    {
        match self {
            ReadyProbe::Process => ReadyProbe::Process,
            ReadyProbe::Command { command } => ReadyProbe::Command {
                command: crate::text::owned(command.as_str()),
            },
            ReadyProbe::Tcp { port } => ReadyProbe::Tcp { port: *port },
            ReadyProbe::StdioHandshake { expected } => ReadyProbe::StdioHandshake {
                expected: crate::text::owned(expected.as_str()),
            },
        }
    }
}

impl RuntimeSpec {
    /// A copy of this runtime section.
    pub fn duplicate(&self) -> (r: RuntimeSpec)
        ensures
            same_runtime(r, *self),
    {
        RuntimeSpec {
            kind: self.kind,
            initialize: copy_opt_text(&self.initialize),
            ready: match &self.ready {
                Some(p) => Some(p.duplicate()),
                None => None,
            },
            shutdown: copy_opt_text(&self.shutdown),
        }
    }
}

impl CapabilityManifest {
    /// A copy of this manifest.
    pub fn duplicate(&self) -> (r: CapabilityManifest)
        ensures
            same_manifest(r, *self),
    {
        CapabilityManifest {
            name: crate::text::owned(self.name.as_str()),
            version: crate::text::owned(self.version.as_str()),
            description: copy_opt_text(&self.description),
            capabilities: crate::text::copy_texts(&self.capabilities),
            dependencies: crate::text::copy_texts(&self.dependencies),
            install: match &self.install {
                Some(i) => Some(
                    InstallSpec {
                        requires: crate::text::copy_texts(&i.requires),
                        steps: crate::text::copy_texts(&i.steps),
                    },
                ),
                None => None,
            },
            runtime: self.runtime.duplicate(),
            communication: self.communication,
            prompt: copy_opt_text(&self.prompt),
            tests: match &self.tests {
                Some(t) => Some(
                    TestSuitePaths {
                        startup: copy_opt_text(&t.startup),
                        smoke: copy_opt_text(&t.smoke),
                    },
                ),
                None => None,
            },
            keywords: crate::text::copy_texts(&self.keywords),
        }
    }
}

/// The name of a workspace whose directory has no usable name.
pub open spec fn default_workspace_name() -> Seq<char> {
    "epistem-workspace"@
}

/// The version a new workspace starts at.
pub open spec fn initial_workspace_version() -> Seq<char> {
    "0.1.0"@
}

/// The capabilities of a workspace once `capability` is recorded: unchanged when it is
/// already there, else with it added at the end.
pub open spec fn recorded(capabilities: Seq<Seq<char>>, capability: Seq<char>) -> Seq<Seq<char>> {
    if crate::text::seq_has(capabilities, capability) {
        capabilities
    } else {
        capabilities.push(capability)
    }
}

/// Recording a capability makes the workspace contain it, keeps what was there in its
/// order, and recording it again changes nothing.
pub proof fn law_record_contains_once(capabilities: Seq<Seq<char>>, capability: Seq<char>)
    ensures
        crate::text::seq_has(recorded(capabilities, capability), capability),
        capabilities.is_prefix_of(recorded(capabilities, capability)),
        recorded(recorded(capabilities, capability), capability) == recorded(
            capabilities,
            capability,
        ),
        forall|other: Seq<char>|
            crate::text::seq_has(capabilities, other) ==> crate::text::seq_has(
                recorded(capabilities, capability),
                other,
            ),
{
    let r = recorded(capabilities, capability);
    if !crate::text::seq_has(capabilities, capability) {
        assert(r[capabilities.len() as int] == capability);
        assert(capabilities =~= r.subrange(0, capabilities.len() as int));
        assert forall|other: Seq<char>|
            crate::text::seq_has(capabilities, other) implies crate::text::seq_has(r, other) by {
            let i = choose|i: int| 0 <= i < capabilities.len() && capabilities[i] == other;
            assert(r[i] == capabilities[i]);
        }
    } else {
        assert(capabilities =~= r.subrange(0, capabilities.len() as int));
    }
}

impl WorkspaceManifest {
    /// A workspace with nothing learned yet, named after its directory when it has a name.
    pub fn fresh(directory_name: Option<&str>) -> (w: WorkspaceManifest)
        ensures
            w.name@ == (match directory_name {
                Some(n) => n@,
                None => default_workspace_name(),
            }),
            w.version@ == initial_workspace_version(),
            w.capabilities@.len() == 0,
    {
        let name = match directory_name {
            Some(n) => crate::text::owned(n),
            None => crate::text::owned("epistem-workspace"),
        };
        proof {
            reveal_strlit("epistem-workspace");
        }
        WorkspaceManifest {
            name,
            version: crate::text::owned("0.1.0"),
            capabilities: Vec::new(),
        }
    }

    /// Whether the workspace has learned the capability.
    pub fn contains(&self, capability: &str) -> (b: bool)
        ensures
            b == crate::text::seq_has(self.capabilities.deep_view(), capability@),
    {
        crate::text::contains_text(&self.capabilities, capability)
    }

    /// Records a learned capability, once: one already recorded is not added again.
    pub fn record(&mut self, capability: &str)
        ensures
            final(self).name == old(self).name,
            final(self).version == old(self).version,
            final(self).capabilities.deep_view() == recorded(
                old(self).capabilities.deep_view(),
                capability@,
            ),
    {
        if !crate::text::contains_text(&self.capabilities, capability) {
            let ghost before = self.capabilities.deep_view();
            self.capabilities.push(crate::text::owned(capability));
            assert(self.capabilities.deep_view() =~= before.push(capability@));
        }
    }
}

} // verus!
