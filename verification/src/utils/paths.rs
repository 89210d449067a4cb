use vstd::prelude::*;

verus! {

/// The file a capability provider describes itself in.
pub const MANIFEST_FILENAME: &'static str = "capability.yaml";

/// The file a workspace records its learned capabilities in.
pub const WORKSPACE_FILENAME: &'static str = "epistem.yaml";

/// The file a provider's prompt is conventionally kept in.
pub const PROMPT_FILENAME: &'static str = "prompt.md";

/// Whether a path text starts at the file system root, which is what makes a path
/// absolute on Unix.
pub open spec fn starts_at_root(p: Seq<char>) -> bool {
    p.len() > 0 && p[0] == '/'
}

/// Names the text that `Path::join` gives for a base path and a path adjoined to it.
pub uninterp spec fn joined_path(base: Seq<char>, rel: Seq<char>) -> Seq<char>;

/// The text `Path::join` gives where its documentation fixes it (an absolute `rel`, or any
/// `rel` after a non-empty base): an absolute `rel` as it is, and a relative one after the
/// base, with a `/` between them unless the base already ends in one. The paths are Unix
/// paths, which start at the root with `/` and separate their components with `/`.
pub open spec fn plain_join(base: Seq<char>, rel: Seq<char>) -> Seq<char> {
    if starts_at_root(rel) {
        rel
    } else if base.len() > 0 && base.last() == '/' {
        base + rel
    } else {
        base + seq!['/'] + rel
    }
}

/// Joining onto a non-empty base gives a non-empty path.
pub proof fn lemma_plain_join_nonempty(base: Seq<char>, rel: Seq<char>)
    requires
        base.len() > 0,
    ensures
        plain_join(base, rel).len() > 0,
{
}

/// Names what `Path::parent` gives for a path text: the path without its final component.
pub uninterp spec fn parent_path(p: Seq<char>) -> Option<Seq<char>>;

/// `Path::join` on Unix paths, shown as a string. Its result is named `joined_path`; as the documentation
/// of `Path::join` and `PathBuf::push` says, an absolute `rel` replaces the base, and a
/// relative one is appended to a non-empty base with a `/` between them unless the base
/// already ends in one. What an empty base gives is left unsaid here.
#[verifier::external_body]
pub(crate) fn path_join(base: &str, rel: &str) -> (r: String)
    ensures
        r@ == joined_path(base@, rel@),
        starts_at_root(rel@) ==> r@ == rel@,
        !starts_at_root(rel@) && base@.len() > 0 && base@.last() != '/' ==> r@ == base@ + seq!['/'] + rel@,
        !starts_at_root(rel@) && base@.len() > 0 && base@.last() == '/' ==> r@ == base@ + rel@,
{
    std::path::Path::new(base).join(rel).display().to_string()
}

/// Whether a Unix path is absolute: it starts at the root, as `Path::is_absolute` says.
pub(crate) fn path_is_absolute(p: &str) -> (b: bool)
    ensures
        b == starts_at_root(p@),
{
    let v = crate::text::chars_of(p);
    v.len() > 0 && v[0] == '/'
}

/// `Path::parent`, shown as a string. Its result is named `parent_path`; how it treats
/// repeated separators and `.` components is left unsaid here.
#[verifier::external_body]
pub(crate) fn path_parent(p: &str) -> (r: Option<String>)
    ensures
        match r {
            Some(s) => parent_path(p@) == Some(s@),
            None => parent_path(p@) is None,
        },
{
    std::path::Path::new(p).parent().map(|q| q.display().to_string())
}

/// Where the manifest of the capability rooted at `capability_root` is.
pub fn manifest_path_for(capability_root: &str) -> (p: String)
    ensures
        p@ == joined_path(capability_root@, MANIFEST_FILENAME@),
        capability_root@.len() > 0 ==> p@ == plain_join(capability_root@, MANIFEST_FILENAME@),
{
    path_join(capability_root, MANIFEST_FILENAME)
}

} // verus!
