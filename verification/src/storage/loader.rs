use vstd::prelude::*;
use crate::error::{EpistemError, ErrorView};
use crate::manifest::models::CapabilityManifest;
use crate::manifest::validation::{
    manifest_issues, manifest_location_of, IssueView, ManifestValidator, ValidationIssue,
};
use crate::storage::capability::FilesystemCapability;
use crate::text::join_with;

verus! {

/// Loads capabilities from directories, validating their manifests.
#[derive(Debug, Clone, Copy)]
pub struct FilesystemCapabilityLoader {
    pub validator: ManifestValidator,
}

/// An issue written as `field: message`.
pub open spec fn issue_line(i: IssueView) -> Seq<char> {
    i.0 + ": "@ + i.1
}

/// The reason a manifest is invalid: its issues, `; ` between them.
pub open spec fn invalid_reason(issues: Seq<IssueView>) -> Seq<char> {
    join_with(issues.map_values(|i: IssueView| issue_line(i)), "; "@)
}

/// What loading the capability at `root` comes to, given whether `root` is a directory,
/// what reading its manifest gave and which paths exist.
pub open spec fn load_outcome(
    root: Seq<char>,
    root_is_dir: bool,
    parsed: Result<CapabilityManifest, String>,
    existing: Seq<Seq<char>>,
) -> Result<(Seq<char>, CapabilityManifest), ErrorView> {
    if !root_is_dir {
        Err(ErrorView::MissingManifest(root))
    } else {
        let manifest_path = manifest_location_of(root, true).0;
        match parsed {
            Ok(m) => if manifest_issues(m, root, existing).len() == 0 {
                Ok((root, m))
            } else {
                Err(
                    ErrorView::InvalidManifest {
                        path: manifest_path,
                        reason: invalid_reason(manifest_issues(m, root, existing)),
                    },
                )
            },
            Err(e) => Err(
                ErrorView::InvalidManifest {
                    path: manifest_path,
                    reason: invalid_reason(seq![(crate::utils::paths::MANIFEST_FILENAME@, e@)]),
                },
            ),
        }
    }
}

fn reason_of(issues: &Vec<ValidationIssue>) -> (r: String)
    ensures
        r@ == invalid_reason(issues.deep_view()),
{
    let mut lines: Vec<String> = Vec::new();
    let mut i: usize = 0;
    let ghost spec_lines = issues.deep_view().map_values(|i: IssueView| issue_line(i));
    while i < issues.len()
        invariant
            i <= issues@.len(),
            spec_lines == issues.deep_view().map_values(|i: IssueView| issue_line(i)),
            lines.deep_view() == spec_lines.take(i as int),
        decreases issues@.len() - i,
    {
        let mut line = crate::text::concat(issues[i].field.as_str(), ": ");
        line.append(issues[i].message.as_str());
        let ghost before = lines.deep_view();
        lines.push(line);
        assert(lines.deep_view() =~= before.push(spec_lines[i as int]));
        assert(spec_lines.take(i + 1) =~= spec_lines.take(i as int).push(spec_lines[i as int]));
        i = i + 1;
    }
    assert(spec_lines.take(issues@.len() as int) =~= spec_lines);
    crate::text::join_texts(&lines, "; ")
}

impl FilesystemCapabilityLoader {
    /// A loader that validates with `validator`.
    pub fn new(validator: ManifestValidator) -> (l: FilesystemCapabilityLoader)
        ensures
            l.validator == validator,
    {
        FilesystemCapabilityLoader { validator }
    }

    /// A loader of YAML manifests.
    pub fn default() -> (l: FilesystemCapabilityLoader)
        ensures
            l.validator.format == crate::manifest::parser::ManifestFormat::Yaml,
    {
        FilesystemCapabilityLoader { validator: ManifestValidator::default() }
    }

    /// Loads the capability rooted at `capability_root`: a directory whose manifest reads
    /// (`parsed`) and has no issues (`existing` lists the paths that exist). A root that is
    /// not a directory has no manifest; an invalid manifest is reported with its issues.
    pub fn load(
        &self,
        capability_root: &str,
        root_is_dir: bool,
        parsed: Result<CapabilityManifest, String>,
        existing: &Vec<String>,
    ) -> (r: Result<FilesystemCapability, EpistemError>)
        ensures
            match r {
                Ok(c) => load_outcome(capability_root@, root_is_dir, parsed, existing.deep_view())
                    == Ok::<(Seq<char>, CapabilityManifest), ErrorView>(
                    (c.root_view(), c.manifest_value()),
                ),
                Err(e) => load_outcome(capability_root@, root_is_dir, parsed, existing.deep_view())
                    == Err::<(Seq<char>, CapabilityManifest), ErrorView>(e@),
            },
    {
        if !root_is_dir {
            return Err(EpistemError::MissingManifest(crate::text::owned(capability_root)));
        }
        let report = self.validator.validate_path(capability_root, true, parsed, existing);
        let valid = report.valid;
        match report.manifest {
            Some(manifest) => {
                if valid {
                    Ok(FilesystemCapability::new(crate::text::owned(capability_root), manifest))
                } else {
                    let reason = reason_of(&report.issues);
                    Err(EpistemError::InvalidManifest { path: report.path, reason })
                }
            },
            None => {
                let reason = reason_of(&report.issues);
                Err(EpistemError::InvalidManifest { path: report.path, reason })
            },
        }
    }
}

} // verus!
