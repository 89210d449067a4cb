use vstd::prelude::*;
use crate::manifest::models::{
    CapabilityManifest, CommunicationSpec, InstallSpec, ReadyProbe, RuntimeSpec, RuntimeType,
    TestSuitePaths,
};
use crate::manifest::parser::ManifestFormat;
use crate::text::{opt_view, decimal, is_blank, seq_has};
use crate::utils::paths::{joined_path, parent_path, MANIFEST_FILENAME};

verus! {

/// One problem found in a manifest: the field it concerns and what is wrong with it.
#[derive(Debug, Clone, PartialEq, Eq)]
pub struct ValidationIssue {
    pub field: String,
    pub message: String,
}

/// An issue seen as the pair (field, message).
pub type IssueView = (Seq<char>, Seq<char>);

impl View for ValidationIssue {
    type V = IssueView;

    open spec fn view(&self) -> IssueView {
        (self.field@, self.message@)
    }
}

impl DeepView for ValidationIssue {
    type V = IssueView;

    open spec fn deep_view(&self) -> IssueView {
        (self.field@, self.message@)
    }
}

/// The outcome of validating one manifest.
#[derive(Debug, Clone, PartialEq, Eq)]
pub struct ManifestValidationReport {
    pub path: String,
    pub valid: bool,
    pub manifest: Option<CapabilityManifest>,
    pub issues: Vec<ValidationIssue>,
}

/// Checks capability manifests. It reads them in one format; the reading itself, and the
/// look at the file system, happen outside and reach it as plain values.
#[derive(Debug, Clone, Copy, PartialEq, Eq)]
pub struct ManifestValidator {
    pub format: ManifestFormat,
}

pub open spec fn blank_message() -> Seq<char> {
    "must not be blank"@
}

pub open spec fn port_message() -> Seq<char> {
    "must be greater than zero"@
}

pub open spec fn missing_path_message(path: Seq<char>) -> Seq<char> {
    "path does not exist: "@ + path
}


/// The name `field[index]` of one entry of a list field.
pub open spec fn entry_field(field: Seq<char>, index: nat) -> Seq<char> {
    field + seq!['['] + decimal(index) + seq![']']
}

/// One "must not be blank" issue for each blank entry of a list, in order.
pub open spec fn text_list_issues(field: Seq<char>, values: Seq<Seq<char>>) -> Seq<IssueView>
    decreases values.len(),
{
    if values.len() == 0 {
        Seq::empty()
    } else {
        text_list_issues(field, values.drop_last()) + if is_blank(values.last()) {
            seq![(entry_field(field, (values.len() - 1) as nat), blank_message())]
        } else {
            Seq::empty()
        }
    }
}

/// The issues of the install section.
pub open spec fn install_issues(install: Option<InstallSpec>) -> Seq<IssueView> {
    match install {
        None => Seq::empty(),
        Some(i) => text_list_issues("install.requires"@, i.requires.deep_view())
            + text_list_issues("install.steps"@, i.steps.deep_view()),
    }
}

/// A launched runtime must say how to start it.
pub open spec fn initialize_issues(runtime: RuntimeSpec) -> Seq<IssueView> {
    if runtime.kind != RuntimeType::Available && (match runtime.initialize {
        None => true,
        Some(v) => is_blank(v@),
    }) {
        seq![("runtime.initialize"@, blank_message())]
    } else {
        Seq::empty()
    }
}

/// The issues of the ready probe.
pub open spec fn ready_issues(ready: Option<ReadyProbe>) -> Seq<IssueView> {
    match ready {
        Some(ReadyProbe::Command { command }) => if is_blank(command@) {
            seq![("runtime.ready.command"@, blank_message())]
        } else {
            Seq::empty()
        },
        Some(ReadyProbe::Tcp { port }) => if port == 0 {
            seq![("runtime.ready.port"@, port_message())]
        } else {
            Seq::empty()
        },
        Some(ReadyProbe::StdioHandshake { expected }) => if is_blank(expected@) {
            seq![("runtime.ready.expected"@, blank_message())]
        } else {
            Seq::empty()
        },
        _ => Seq::empty(),
    }
}

/// The issues of the runtime section.
pub open spec fn runtime_issues(runtime: RuntimeSpec) -> Seq<IssueView> {
    initialize_issues(runtime) + ready_issues(runtime.ready)
}

/// The issues of a path field: blank, or naming nothing that exists under the root.
pub open spec fn path_field_issues(
    root: Seq<char>,
    field: Seq<char>,
    value: Option<Seq<char>>,
    existing: Seq<Seq<char>>,
) -> Seq<IssueView> {
    match value {
        None => Seq::empty(),
        Some(v) => if is_blank(v) {
            seq![(field, blank_message())]
        } else if seq_has(existing, joined_path(root, v)) {
            Seq::empty()
        } else {
            seq![(field, missing_path_message(joined_path(root, v)))]
        },
    }
}

/// The issues of the tests section.
pub open spec fn tests_issues(
    root: Seq<char>,
    tests: Option<TestSuitePaths>,
    existing: Seq<Seq<char>>,
) -> Seq<IssueView> {
    match tests {
        None => Seq::empty(),
        Some(t) => path_field_issues(root, "tests.startup"@, opt_view(t.startup), existing)
            + path_field_issues(root, "tests.smoke"@, opt_view(t.smoke), existing),
    }
}

/// A required text field must not be blank.
pub open spec fn required_text_issues(field: Seq<char>, value: Seq<char>) -> Seq<IssueView> {
    if is_blank(value) {
        seq![(field, blank_message())]
    } else {
        Seq::empty()
    }
}

/// All issues of a manifest whose provider is rooted at `root`, in the order the fields are
/// checked; `existing` lists the paths known to exist.
pub open spec fn manifest_issues(
    m: CapabilityManifest,
    root: Seq<char>,
    existing: Seq<Seq<char>>,
) -> Seq<IssueView> {
    required_text_issues("name"@, m.name@) + required_text_issues("version"@, m.version@)
        + text_list_issues("capabilities"@, m.capabilities.deep_view()) + text_list_issues(
        "dependencies"@,
        m.dependencies.deep_view(),
    ) + install_issues(m.install) + runtime_issues(m.runtime) + path_field_issues(
        root,
        "prompt"@,
        opt_view(m.prompt),
        existing,
    ) + tests_issues(root, m.tests, existing) + text_list_issues("keywords"@, m.keywords.deep_view())
}

/// The path of a non-blank path field, if there is one.
pub open spec fn path_probe(root: Seq<char>, value: Option<Seq<char>>) -> Seq<Seq<char>> {
    match value {
        Some(v) => if is_blank(v) {
            Seq::empty()
        } else {
            seq![joined_path(root, v)]
        },
        None => Seq::empty(),
    }
}

/// The paths whose existence the validation of a manifest depends on.
pub open spec fn referenced_paths_of(m: CapabilityManifest, root: Seq<char>) -> Seq<Seq<char>> {
    path_probe(root, opt_view(m.prompt)) + match m.tests {
        Some(t) => path_probe(root, opt_view(t.startup)) + path_probe(root, opt_view(t.smoke)),
        None => Seq::empty(),
    }
}

/// Where the manifest is and which directory its paths are relative to, for a path that
/// names either the provider's directory or the manifest file itself.
pub open spec fn manifest_location_of(path: Seq<char>, path_is_dir: bool) -> (Seq<char>, Seq<char>) {
    if path_is_dir {
        (joined_path(path, MANIFEST_FILENAME@), path)
    } else {
        (
            path,
            match parent_path(path) {
                Some(p) => p,
                None => path,
            },
        )
    }
}

/// The report for a manifest read from `manifest_path` (or for the text that failed to read
/// as one), checked against the provider root.
pub open spec fn report_matches(
    r: ManifestValidationReport,
    manifest_path: Seq<char>,
    parse_failure_field: Seq<char>,
    parsed: Result<CapabilityManifest, String>,
    root: Seq<char>,
    existing: Seq<Seq<char>>,
) -> bool {
    &&& r.path@ == manifest_path
    &&& match parsed {
        Ok(m) => {
            &&& r.manifest == Some(m)
            &&& r.issues.deep_view() == manifest_issues(m, root, existing)
            &&& r.valid == (manifest_issues(m, root, existing).len() == 0)
        },
        Err(e) => {
            &&& r.manifest is None
            &&& !r.valid
            &&& r.issues.deep_view() == seq![(parse_failure_field, e@)]
        },
    }
}

/// A launched runtime must say how it is started: when the runtime is not already
/// available and its initialize command is missing or blank, the runtime (and so the whole
/// manifest) has the issue `runtime.initialize: must not be blank`, and the runtime has that
/// issue only then.
pub proof fn law_launch_needs_initialize(m: CapabilityManifest, root: Seq<char>, existing: Seq<Seq<char>>)
    ensures
        runtime_issues(m.runtime).contains(("runtime.initialize"@, blank_message())) <==> (
        m.runtime.kind != RuntimeType::Available && (m.runtime.initialize is None
            || is_blank(m.runtime.initialize->0@))),
        m.runtime.kind != RuntimeType::Available && (m.runtime.initialize is None || is_blank(
            m.runtime.initialize->0@,
        )) ==> manifest_issues(m, root, existing).contains(("runtime.initialize"@, blank_message())),
{
    reveal_strlit("runtime.initialize");
    reveal_strlit("runtime.ready.command");
    reveal_strlit("runtime.ready.port");
    reveal_strlit("runtime.ready.expected");
    let rt = m.runtime;
    let target = ("runtime.initialize"@, blank_message());
    let init = initialize_issues(rt);
    let ready = ready_issues(rt.ready);
    assert(runtime_issues(rt) == init + ready);
    assert("runtime.initialize"@[8] == 'i');
    assert("runtime.ready.command"@[8] == 'r');
    assert("runtime.ready.port"@[8] == 'r');
    assert("runtime.ready.expected"@[8] == 'r');
    assert(!ready.contains(target)) by {
        if ready.len() > 0 {
            assert(ready.len() == 1);
            assert(ready[0].0[8] == 'r');
            assert(ready[0] != target);
        }
    }
    let needs = rt.kind != RuntimeType::Available && (rt.initialize is None || is_blank(
        rt.initialize->0@,
    ));
    if needs {
        assert(init == seq![target]);
        assert(runtime_issues(rt)[0] == target);
        let before = required_text_issues("name"@, m.name@) + required_text_issues(
            "version"@,
            m.version@,
        ) + text_list_issues("capabilities"@, m.capabilities.deep_view()) + text_list_issues(
            "dependencies"@,
            m.dependencies.deep_view(),
        ) + install_issues(m.install);
        let all = manifest_issues(m, root, existing);
        assert(all[before.len() as int] == target);
    } else {
        assert(init.len() == 0);
        assert(runtime_issues(rt) =~= ready);
    }
}

/// A validation report is valid exactly when it holds a manifest and no issue.
pub proof fn law_valid_iff_clean(
    r: ManifestValidationReport,
    manifest_path: Seq<char>,
    parse_failure_field: Seq<char>,
    parsed: Result<CapabilityManifest, String>,
    root: Seq<char>,
    existing: Seq<Seq<char>>,
)
    requires
        report_matches(r, manifest_path, parse_failure_field, parsed, root, existing),
    ensures
        r.valid <==> (r.manifest is Some && r.issues@.len() == 0),
{
    assert(r.issues.deep_view().len() == r.issues@.len());
}

fn issue(field: String, message: &str) -> (i: ValidationIssue)
    ensures
        i@ == (field@, message@),
{
    ValidationIssue { field, message: crate::text::owned(message) }
}

fn append_issues(a: &mut Vec<ValidationIssue>, b: Vec<ValidationIssue>)
    ensures
        final(a).deep_view() == old(a).deep_view() + b.deep_view(),
{
    let mut b = b;
    let ghost bv = b.deep_view();
    let ghost av = a.deep_view();
    a.append(&mut b);
    assert(a.deep_view() =~= av + bv);
}

fn single_issue(field: &str, message: &str) -> (v: Vec<ValidationIssue>)
    ensures
        v.deep_view() == seq![(field@, message@)],
{
    let mut v = Vec::new();
    v.push(issue(crate::text::owned(field), message));
    assert(v.deep_view() =~= seq![(field@, message@)]);
    v
}

/// The issues of a list of texts: one for each blank entry, named `field[index]`.
pub fn validate_text_list(field: &str, values: &Vec<String>) -> (r: Vec<ValidationIssue>)
    ensures
        r.deep_view() == text_list_issues(field@, values.deep_view()),
{
    let mut r: Vec<ValidationIssue> = Vec::new();
    let mut i: usize = 0;
    proof {
        reveal_strlit("must not be blank");
        reveal_strlit("[");
        reveal_strlit("]");
    }
    while i < values.len()
        invariant
            i <= values@.len(),
            r.deep_view() == text_list_issues(field@, values.deep_view().take(i as int)),
        decreases values@.len() - i,
    {
        let ghost prev = values.deep_view().take(i as int);
        let ghost next = values.deep_view().take(i + 1);
        assert(next.drop_last() =~= prev);
        assert(next.last() == values@[i as int]@);
        if crate::text::is_blank_text(values[i].as_str()) {
            let mut name = crate::text::concat(field, "[");
            let digits = crate::text::decimal_text(i);
            name.append(digits.as_str());
            name.append("]");
            proof {
                reveal_strlit("must not be blank");
                reveal_strlit("[");
                reveal_strlit("]");
            }
            assert("["@ =~= seq!['[']);
            assert("]"@ =~= seq![']']);
            assert(name@ =~= entry_field(field@, i as nat));
            let ghost before = r.deep_view();
            let it = issue(name, "must not be blank");
            assert(it.deep_view() == (entry_field(field@, i as nat), blank_message()));
            r.push(it);
            assert(r.deep_view() =~= before + seq![
                (entry_field(field@, i as nat), blank_message()),
            ]);
        } else {
            assert(text_list_issues(field@, next) =~= text_list_issues(field@, prev));
        }
        i = i + 1;
    }
    assert(values.deep_view().take(values@.len() as int) =~= values.deep_view());
    r
}

/// The issues of the install section: blank requirements and blank steps.
pub fn validate_install(install: Option<&InstallSpec>) -> (r: Vec<ValidationIssue>)
    ensures
        r.deep_view() == install_issues(match install {
            Some(i) => Some(*i),
            None => None,
        }),
{
    match install {
        None => {
            let r = Vec::new();
            assert(r.deep_view() =~= Seq::<IssueView>::empty());
            r
        },
        Some(i) => {
            let mut r = validate_text_list("install.requires", &i.requires);
            append_issues(&mut r, validate_text_list("install.steps", &i.steps));
            r
        },
    }
}

/// The issues of the runtime section: a launched runtime needs an initialize command, and
/// its ready probe must be usable.
pub fn validate_runtime(runtime: &RuntimeSpec) -> (r: Vec<ValidationIssue>)
    ensures
        r.deep_view() == runtime_issues(*runtime),
{
    let mut r: Vec<ValidationIssue> = Vec::new();
    proof {
        reveal_strlit("must not be blank");
        reveal_strlit("must be greater than zero");
    }
    let needs_initialize = match runtime.kind {
        RuntimeType::Available => false,
        _ => match &runtime.initialize {
            None => true,
            Some(v) => crate::text::is_blank_text(v.as_str()),
        },
    };
    if needs_initialize {
        r = single_issue("runtime.initialize", "must not be blank");
    } else {
        assert(r.deep_view() =~= Seq::<IssueView>::empty());
    }
    let ready = match &runtime.ready {
        Some(ReadyProbe::Command { command }) => if crate::text::is_blank_text(command.as_str()) {
            single_issue("runtime.ready.command", "must not be blank")
        } else {
            Vec::new()
        },
        Some(ReadyProbe::Tcp { port }) => if *port == 0 {
            single_issue("runtime.ready.port", "must be greater than zero")
        } else {
            Vec::new()
        },
        Some(ReadyProbe::StdioHandshake { expected }) => if crate::text::is_blank_text(
            expected.as_str(),
        ) {
            single_issue("runtime.ready.expected", "must not be blank")
        } else {
            Vec::new()
        },
        _ => Vec::new(),
    };
    assert(ready.deep_view() =~= ready_issues(runtime.ready));
    append_issues(&mut r, ready);
    r
}

/// The communication section has nothing that can be wrong: every transport is accepted.
pub fn validate_communication(communication: Option<&CommunicationSpec>) -> (r: Vec<
    ValidationIssue,
>)
    ensures
        r@.len() == 0,
{
    Vec::new()
}

/// The issues of one path field of a provider rooted at `root_dir`; `existing` lists the
/// paths known to exist.
pub fn validate_path_field(
    root_dir: &str,
    field: &str,
    value: Option<&String>,
    existing: &Vec<String>,
) -> (r: Vec<ValidationIssue>)
    ensures
        r.deep_view() == path_field_issues(
            root_dir@,
            field@,
            match value {
                Some(v) => Some(v@),
                None => None,
            },
            existing.deep_view(),
        ),
{
    proof {
        reveal_strlit("must not be blank");
        reveal_strlit("path does not exist: ");
    }
    match value {
        None => {
            let r = Vec::new();
            assert(r.deep_view() =~= Seq::<IssueView>::empty());
            r
        },
        Some(v) => {
            if crate::text::is_blank_text(v.as_str()) {
                return single_issue(field, "must not be blank");
            }
            let path = crate::utils::paths::path_join(root_dir, v.as_str());
            if crate::text::contains_text(existing, path.as_str()) {
                let r = Vec::new();
                assert(r.deep_view() =~= Seq::<IssueView>::empty());
                r
            } else {
                let message = crate::text::concat("path does not exist: ", path.as_str());
                single_issue(field, message.as_str())
            }
        },
    }
}

/// The issues of the tests section.
pub fn validate_tests(root_dir: &str, tests: Option<&TestSuitePaths>, existing: &Vec<String>) -> (r:
    Vec<ValidationIssue>)
    ensures
        r.deep_view() == tests_issues(
            root_dir@,
            match tests {
                Some(t) => Some(*t),
                None => None,
            },
            existing.deep_view(),
        ),
{
    match tests {
        None => {
            let r = Vec::new();
            assert(r.deep_view() =~= Seq::<IssueView>::empty());
            r
        },
        Some(t) => {
            let mut r = validate_path_field(root_dir, "tests.startup", t.startup.as_ref(), existing);
            append_issues(
                &mut r,
                validate_path_field(root_dir, "tests.smoke", t.smoke.as_ref(), existing),
            );
            r
        },
    }
}

fn validate_required_text(field: &str, value: &String) -> (r: Vec<ValidationIssue>)
    ensures
        r.deep_view() == required_text_issues(field@, value@),
{
    proof {
        reveal_strlit("must not be blank");
    }
    if crate::text::is_blank_text(value.as_str()) {
        single_issue(field, "must not be blank")
    } else {
        let r = Vec::new();
        assert(r.deep_view() =~= Seq::<IssueView>::empty());
        r
    }
}

/// All issues of a manifest whose provider is rooted at `root_dir`, in the order the fields
/// are checked; `existing` lists the paths known to exist.
pub fn validate_manifest(manifest: &CapabilityManifest, root_dir: &str, existing: &Vec<String>) -> (r:
    Vec<ValidationIssue>)
    ensures
        r.deep_view() == manifest_issues(*manifest, root_dir@, existing.deep_view()),
{
    let mut r = validate_required_text("name", &manifest.name);
    append_issues(&mut r, validate_required_text("version", &manifest.version));
    append_issues(&mut r, validate_text_list("capabilities", &manifest.capabilities));
    append_issues(&mut r, validate_text_list("dependencies", &manifest.dependencies));
    append_issues(&mut r, validate_install(manifest.install.as_ref()));
    append_issues(&mut r, validate_runtime(&manifest.runtime));
    let communication = validate_communication(manifest.communication.as_ref());
    assert(communication.deep_view() =~= Seq::<IssueView>::empty());
    append_issues(&mut r, communication);
    append_issues(
        &mut r,
        validate_path_field(root_dir, "prompt", manifest.prompt.as_ref(), existing),
    );
    append_issues(&mut r, validate_tests(root_dir, manifest.tests.as_ref(), existing));
    append_issues(&mut r, validate_text_list("keywords", &manifest.keywords));
    r
}

fn probe(root_dir: &str, value: Option<&String>, out: &mut Vec<String>)
    ensures
        final(out).deep_view() == old(out).deep_view() + path_probe(
            root_dir@,
            match value {
                Some(v) => Some(v@),
                None => None,
            },
        ),
{
    let ghost before = out.deep_view();
    match value {
        Some(v) => {
            if !crate::text::is_blank_text(v.as_str()) {
                out.push(crate::utils::paths::path_join(root_dir, v.as_str()));
                assert(out.deep_view() =~= before + seq![joined_path(root_dir@, v@)]);
            } else {
                assert(out.deep_view() =~= before + Seq::<Seq<char>>::empty());
            }
        },
        None => {
            assert(out.deep_view() =~= before + Seq::<Seq<char>>::empty());
        },
    }
}

/// The paths whose existence the validation of the manifest depends on: those its
/// non-blank prompt and test-suite fields name under `root_dir`.
pub fn referenced_paths(manifest: &CapabilityManifest, root_dir: &str) -> (r: Vec<String>)
    ensures
        r.deep_view() == referenced_paths_of(*manifest, root_dir@),
{
    let mut r: Vec<String> = Vec::new();
    assert(r.deep_view() =~= Seq::<Seq<char>>::empty());
    probe(root_dir, manifest.prompt.as_ref(), &mut r);
    match &manifest.tests {
        Some(t) => {
            probe(root_dir, t.startup.as_ref(), &mut r);
            probe(root_dir, t.smoke.as_ref(), &mut r);
            assert(r.deep_view() =~= referenced_paths_of(*manifest, root_dir@));
        },
        None => {
            assert(r.deep_view() =~= referenced_paths_of(*manifest, root_dir@));
        },
    }
    r
}

/// Where the manifest is, and the directory its paths are relative to, for a path that names
/// either the provider's directory (`path_is_dir`) or the manifest file.
pub fn manifest_location(path: &str, path_is_dir: bool) -> (r: (String, String))
    ensures
        (r.0@, r.1@) == manifest_location_of(path@, path_is_dir),
{
    if path_is_dir {
        (crate::utils::paths::manifest_path_for(path), crate::text::owned(path))
    } else {
        let root = match crate::utils::paths::path_parent(path) {
            Some(p) => p,
            None => crate::text::owned(path),
        };
        (crate::text::owned(path), root)
    }
}

impl ManifestValidationReport {
    /// The report on a manifest that was read: valid exactly when there are no issues.
    pub fn from_manifest(path: String, manifest: CapabilityManifest, issues: Vec<ValidationIssue>) -> (r:
        ManifestValidationReport)
        ensures
            r.path == path,
            r.valid == (issues@.len() == 0),
            r.manifest == Some(manifest),
            r.issues == issues,
    {
        let valid = issues.len() == 0;
        ManifestValidationReport { path, valid, manifest: Some(manifest), issues }
    }

    /// The report on a manifest that could not be read: never valid, and without a manifest.
    pub fn invalid(path: String, issues: Vec<ValidationIssue>) -> (r: ManifestValidationReport)
        ensures
            r.path == path,
            !r.valid,
            r.manifest is None,
            r.issues == issues,
    {
        ManifestValidationReport { path, valid: false, manifest: None, issues }
    }
}

impl ManifestValidator {
    /// A validator of YAML manifests.
    pub fn default() -> (v: ManifestValidator)
        ensures
            v.format == ManifestFormat::Yaml,
    {
        ManifestValidator { format: ManifestFormat::Yaml }
    }

    /// A validator of manifests written in `format`.
    pub fn new(format: ManifestFormat) -> (v: ManifestValidator)
        ensures
            v.format == format,
    {
        ManifestValidator { format }
    }

    fn report_for(
        &self,
        manifest_path: String,
        root_dir: &str,
        parse_failure_field: &str,
        parsed: Result<CapabilityManifest, String>,
        existing: &Vec<String>,
    ) -> (r: ManifestValidationReport)
        ensures
            report_matches(
                r,
                manifest_path@,
                parse_failure_field@,
                parsed,
                root_dir@,
                existing.deep_view(),
            ),
    {
        match parsed {
            Ok(manifest) => {
                let issues = validate_manifest(&manifest, root_dir, existing);
                ManifestValidationReport::from_manifest(manifest_path, manifest, issues)
            },
            Err(error) => {
                let mut issues = Vec::new();
                issues.push(issue(crate::text::owned(parse_failure_field), error.as_str()));
                assert(issues.deep_view() =~= seq![(parse_failure_field@, error@)]);
                ManifestValidationReport::invalid(manifest_path, issues)
            },
        }
    }

    /// Validates the manifest found at `path`, which names the provider's directory
    /// (`path_is_dir`) or the manifest file. `parsed` is what reading the manifest file gave
    /// (the manifest, or the text of the failure), and `existing` lists the paths that exist.
    pub fn validate_path(
        &self,
        path: &str,
        path_is_dir: bool,
        parsed: Result<CapabilityManifest, String>,
        existing: &Vec<String>,
    ) -> (r: ManifestValidationReport)
        ensures
            report_matches(
                r,
                manifest_location_of(path@, path_is_dir).0,
                MANIFEST_FILENAME@,
                parsed,
                manifest_location_of(path@, path_is_dir).1,
                existing.deep_view(),
            ),
    {
        let (manifest_path, root_dir) = manifest_location(path, path_is_dir);
        self.report_for(manifest_path, root_dir.as_str(), MANIFEST_FILENAME, parsed, existing)
    }

    /// Validates a manifest given as text, which `parsed` is the reading of; its paths are
    /// relative to the current directory.
    pub fn validate_data(&self, parsed: Result<CapabilityManifest, String>, existing: &Vec<String>) -> (r:
        ManifestValidationReport)
        ensures
            report_matches(r, "<memory>"@, "manifest"@, parsed, "."@, existing.deep_view()),
    {
        self.report_for(crate::text::owned("<memory>"), ".", "manifest", parsed, existing)
    }
}

} // verus!
