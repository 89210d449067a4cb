use vstd::prelude::*;
use crate::error::{EpistemError, ErrorView};
use crate::manifest::models::CapabilityManifest;
use crate::provider::ProviderRef;
use crate::text::{seq_has, trim};

verus! {

/// A provider fetched and found valid: where it came from, where it is, and its manifest.
#[derive(Debug)]
pub struct CandidateProvider {
    pub reference: ProviderRef,
    pub root: String,
    pub manifest: CapabilityManifest,
}

/// Chooses one of the candidate providers of a capability, given the commands found on the
/// machine.
pub trait ProviderSelector {
    fn select(
        &self,
        capability: &str,
        candidates: Vec<CandidateProvider>,
        available_commands: &Vec<String>,
    ) -> Result<CandidateProvider, EpistemError>;
}

/// Picks the first candidate that offers the capability and whose requirements the machine
/// meets.
#[derive(Debug, Default, Clone, Copy)]
pub struct DeterministicSelector;

/// The characters a requirement's command name ends at: `python>=3` names `python`.
pub open spec fn is_requirement_separator(c: char) -> bool {
    c == ' ' || c == '>' || c == '='
}

/// The part of a requirement before its first separator.
pub open spec fn before_separator(s: Seq<char>) -> Seq<char>
    decreases s.len(),
{
    if s.len() == 0 || is_requirement_separator(s[0]) {
        Seq::empty()
    } else {
        seq![s[0]] + before_separator(s.drop_first())
    }
}

/// The command a requirement names.
pub open spec fn requirement_command_of(requirement: Seq<char>) -> Seq<char> {
    trim(before_separator(requirement))
}

/// Whether the machine meets the requirements of a manifest: each names a command, and the
/// command is among those available.
pub open spec fn environment_satisfied(m: CapabilityManifest, available: Seq<Seq<char>>) -> bool {
    match m.install {
        None => true,
        Some(i) => forall|k: int|
            0 <= k < i.requires@.len() ==> requirement_command_of(#[trigger] i.requires@[k]@).len()
                > 0 && seq_has(available, requirement_command_of(i.requires@[k]@)),
    }
}

/// Whether a candidate can provide the capability on this machine.
pub open spec fn compatible(c: CandidateProvider, capability: Seq<char>, available: Seq<Seq<char>>) -> bool {
    seq_has(c.manifest.capabilities.deep_view(), capability) && environment_satisfied(
        c.manifest,
        available,
    )
}

proof fn lemma_before_separator(s: Seq<char>, k: int)
    requires
        0 <= k <= s.len(),
        forall|j: int| 0 <= j < k ==> !is_requirement_separator(#[trigger] s[j]),
        k == s.len() || is_requirement_separator(s[k]),
    ensures
        before_separator(s) == s.take(k),
    decreases k,
{
    if k == 0 {
        assert(s.take(0) =~= Seq::<char>::empty());
    } else {
        let t = s.drop_first();
        assert forall|j: int| 0 <= j < k - 1 implies !is_requirement_separator(#[trigger] t[j]) by {
            assert(t[j] == s[j + 1]);
        }
        if k - 1 < t.len() {
            assert(t[k - 1] == s[k]);
        }
        lemma_before_separator(t, k - 1);
        assert(seq![s[0]] + t.take(k - 1) =~= s.take(k));
    }
}

/// The command a requirement names: what precedes its first space, `>` or `=`, trimmed.
pub fn requirement_command(requirement: &str) -> (c: String)
    ensures
        c@ == requirement_command_of(requirement@),
{
    let v = crate::text::chars_of(requirement);
    let mut k: usize = 0;
    while k < v.len() && !(v[k] == ' ' || v[k] == '>' || v[k] == '=')
        invariant
            v@ == requirement@,
            k <= v@.len(),
            forall|j: int| 0 <= j < k ==> !is_requirement_separator(#[trigger] v@[j]),
        decreases v@.len() - k,
    {
        k = k + 1;
    }
    proof {
        lemma_before_separator(requirement@, k as int);
    }
    let piece = crate::text::string_of(&v, 0, k);
    assert(piece@ =~= requirement@.take(k as int));
    crate::text::trim_text(piece.as_str())
}

/// The commands the requirements of a manifest name, in order: those the machine is asked
/// about.
pub fn requirement_commands(manifest: &CapabilityManifest) -> (r: Vec<String>)
    ensures
        match manifest.install {
            None => r@.len() == 0,
            Some(i) => r@.len() == i.requires@.len() && forall|k: int|
                0 <= k < r@.len() ==> (#[trigger] r@[k])@ == requirement_command_of(i.requires@[k]@),
        },
{
    let mut r: Vec<String> = Vec::new();
    match &manifest.install {
        None => {},
        Some(i) => {
            let mut k: usize = 0;
            while k < i.requires.len()
                invariant
                    k <= i.requires@.len(),
                    r@.len() == k,
                    forall|j: int|
                        0 <= j < k ==> (#[trigger] r@[j])@ == requirement_command_of(i.requires@[j]@),
                decreases i.requires@.len() - k,
            {
                r.push(requirement_command(i.requires[k].as_str()));
                k = k + 1;
            }
        },
    }
    r
}

/// Whether the machine, with the commands `available`, meets the requirements of the
/// manifest (a manifest without an install section has none).
#[verifier::loop_isolation(false)]
pub fn environment_satisfies(manifest: &CapabilityManifest, available: &Vec<String>) -> (b: bool)
    ensures
        b == environment_satisfied(*manifest, available.deep_view()),
{
    match &manifest.install {
        None => true,
        Some(i) => {
            let mut k: usize = 0;
            while k < i.requires.len()
                invariant
                    k <= i.requires@.len(),
                    forall|j: int|
                        0 <= j < k ==> requirement_command_of(#[trigger] i.requires@[j]@).len() > 0
                            && seq_has(available.deep_view(), requirement_command_of(i.requires@[j]@)),
                decreases i.requires@.len() - k,
            {
                let command = requirement_command(i.requires[k].as_str());
                if command.as_str().is_empty() {
                    assert(requirement_command_of(i.requires@[k as int]@).len() == 0);
                    return false;
                }
                if !crate::text::contains_text(available, command.as_str()) {
                    assert(!seq_has(available.deep_view(), requirement_command_of(i.requires@[k as int]@)));
                    return false;
                }
                k = k + 1;
            }
            true
        },
    }
}

impl ProviderSelector for DeterministicSelector {
    /// The first candidate, in order, that offers the capability and whose requirements the
    /// machine meets; when there is none, an error naming the capability.
    #[verifier::loop_isolation(false)]
    fn select(
        &self,
        capability: &str,
        candidates: Vec<CandidateProvider>,
        available_commands: &Vec<String>,
    ) -> (r: Result<CandidateProvider, EpistemError>)
        ensures
            match r {
                Ok(c) => exists|i: int|
                    0 <= i < candidates@.len() && candidates@[i] == c && compatible(
                        c,
                        capability@,
                        available_commands.deep_view(),
                    ) && forall|j: int|
                        0 <= j < i ==> !compatible(
                            #[trigger] candidates@[j],
                            capability@,
                            available_commands.deep_view(),
                        ),
                Err(e) => e@ == ErrorView::Registry(
                    "no compatible provider found for capability "@ + capability@,
                ) && forall|j: int|
                    0 <= j < candidates@.len() ==> !compatible(
                        #[trigger] candidates@[j],
                        capability@,
                        available_commands.deep_view(),
                    ),
            },
    {
        let mut candidates = candidates;
        let ghost all = candidates@;
        let mut i: usize = 0;
        while i < candidates.len()
            invariant
                candidates@ == all,
                i <= all.len(),
                forall|j: int|
                    0 <= j < i ==> !compatible(
                        #[trigger] all[j],
                        capability@,
                        available_commands.deep_view(),
                    ),
            decreases all.len() - i,
        {
            let c = &candidates[i];
            if crate::text::contains_text(&c.manifest.capabilities, capability)
                && environment_satisfies(&c.manifest, available_commands) {
                assert(compatible(all[i as int], capability@, available_commands.deep_view()));
                let chosen = candidates.remove(i);
                assert(all[i as int] == chosen);
                return Ok(chosen);
            }
            i = i + 1;
        }
        Err(
            EpistemError::Registry(
                crate::text::concat("no compatible provider found for capability ", capability),
            ),
        )
    }
}

} // verus!
