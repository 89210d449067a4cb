use vstd::prelude::*;
use crate::error::{EpistemError, ErrorView};
use crate::text::{opt_view, first_index, has_char, last_index, trim_end_char};
use crate::utils::paths::{joined_path, plain_join, starts_at_root};

verus! {

/// Where a provider comes from.
#[derive(Debug, Clone, Copy, PartialEq, Eq, Structural)]
pub enum ProviderScheme {
    Github,
    Local,
    File,
}

/// A reference to a provider, as written in a registry: `github:owner/repo@ref`,
/// `local:path` or `file:path`.
#[derive(Debug, Clone, PartialEq, Eq)]
pub struct ProviderRef {
    pub scheme: ProviderScheme,
    pub location: String,
    pub reference: Option<String>,
}

/// A provider reference seen through its texts.
pub struct ProviderRefView {
    pub scheme: ProviderScheme,
    pub location: Seq<char>,
    pub reference: Option<Seq<char>>,
}

impl View for ProviderRef {
    type V = ProviderRefView;

    open spec fn view(&self) -> ProviderRefView {
        ProviderRefView {
            scheme: self.scheme,
            location: self.location@,
            reference: match self.reference {
                Some(r) => Some(r@),
                None => None,
            },
        }
    }
}

impl DeepView for ProviderRef {
    type V = ProviderRefView;

    open spec fn deep_view(&self) -> ProviderRefView {
        self@
    }
}

/// The name a scheme is written with.
pub open spec fn scheme_name(s: ProviderScheme) -> Seq<char> {
    match s {
        ProviderScheme::Github => "github"@,
        ProviderScheme::Local => "local"@,
        ProviderScheme::File => "file"@,
    }
}

/// The text a provider reference is written as.
pub open spec fn provider_text(r: ProviderRefView) -> Seq<char> {
    match r.scheme {
        ProviderScheme::Github => match r.reference {
            Some(reference) => "github:"@ + r.location + "@"@ + reference,
            None => "github:"@ + r.location,
        },
        ProviderScheme::Local => "local:"@ + r.location,
        ProviderScheme::File => "file:"@ + r.location,
    }
}

/// What a registry text denotes: the scheme is what precedes the first `:`; for GitHub, a
/// last `@` in the rest separates the location from the git reference.
pub open spec fn parse_provider_text(value: Seq<char>) -> Result<ProviderRefView, ErrorView> {
    if !has_char(value, ':') {
        Err(ErrorView::Registry("invalid provider reference: "@ + value))
    } else {
        let p = first_index(value, ':');
        let scheme = value.take(p);
        let rest = value.skip(p + 1);
        let is_github = scheme == "github"@;
        let location = if is_github && has_char(rest, '@') {
            rest.take(last_index(rest, '@'))
        } else {
            rest
        };
        let reference = if is_github && has_char(rest, '@') {
            Some(rest.skip(last_index(rest, '@') + 1))
        } else {
            None
        };
        if is_github {
            Ok(ProviderRefView { scheme: ProviderScheme::Github, location, reference })
        } else if scheme == "local"@ {
            Ok(ProviderRefView { scheme: ProviderScheme::Local, location, reference })
        } else if scheme == "file"@ {
            Ok(ProviderRefView { scheme: ProviderScheme::File, location, reference })
        } else {
            Err(ErrorView::Registry("unsupported provider scheme: "@ + scheme))
        }
    }
}

/// The last component of a location: what follows its last `/`.
pub open spec fn last_component(location: Seq<char>) -> Seq<char> {
    if has_char(location, '/') {
        location.skip(last_index(location, '/') + 1)
    } else {
        location
    }
}

/// The character with `@` and `:` made into `-`.
pub open spec fn slug_char(c: char) -> char {
    if c == '@' || c == ':' {
        '-'
    } else {
        c
    }
}

/// The directory name a provider is fetched into.
pub open spec fn slug_of(location: Seq<char>) -> Seq<char> {
    last_component(location).map_values(|c: char| slug_char(c))
}

/// The clone URL of a GitHub location under a base URL.
pub open spec fn git_url_of(base_url: Seq<char>, location: Seq<char>) -> Seq<char> {
    trim_end_char(base_url, '/') + "/"@ + location + ".git"@
}

/// Whether a registry text survives being read and written back: the reading loses
/// nothing when no `@` can be mistaken for the separator of a git reference.
pub open spec fn round_trips(r: ProviderRefView) -> bool {
    match r.scheme {
        ProviderScheme::Github => match r.reference {
            Some(reference) => !has_char(reference, '@'),
            None => !has_char(r.location, '@'),
        },
        _ => r.reference is None,
    }
}


#[verifier::spinoff_prover]
#[verifier::rlimit(50)]
proof fn lemma_split_at_scheme(r: ProviderRefView, tail: Seq<char>)
    requires
        provider_text(r) == scheme_name(r.scheme) + seq![':'] + tail,
    ensures
        has_char(provider_text(r), ':'),
        provider_text(r).take(first_index(provider_text(r), ':')) == scheme_name(r.scheme),
        provider_text(r).skip(first_index(provider_text(r), ':') + 1) == tail,
{
    reveal_strlit("github");
    reveal_strlit("local");
    reveal_strlit("file");
    let t = provider_text(r);
    let name = scheme_name(r.scheme);
    let k = name.len() as int;
    assert(t[k] == ':');
    assert forall|j: int| 0 <= j < k implies t[j] != ':' by {
        assert(t[j] == name[j]);
    }
    crate::text::lemma_first_index_is(t, ':', k);
    assert(t.take(k) =~= name);
    assert(t.skip(k + 1) =~= tail);
}

#[verifier::spinoff_prover]
#[verifier::rlimit(50)]
proof fn lemma_round_trip_github_ref(r: ProviderRefView, reference: Seq<char>)
    requires
        r.scheme == ProviderScheme::Github,
        r.reference == Some(reference),
        !has_char(reference, '@'),
    ensures
        parse_provider_text(provider_text(r)) == Ok::<ProviderRefView, ErrorView>(r),
{
    reveal_strlit("github");
    reveal_strlit("github:");
    reveal_strlit("@");
    let t = provider_text(r);
    let tail = r.location + seq!['@'] + reference;
    assert(t =~= scheme_name(r.scheme) + seq![':'] + tail);
    lemma_split_at_scheme(r, tail);
    let q = r.location.len() as int;
    assert(tail[q] == '@');
    assert forall|j: int| q < j < tail.len() implies tail[j] != '@' by {
        assert(tail[j] == reference[j - q - 1]);
    }
    crate::text::lemma_last_index_is(tail, '@', q);
    assert(tail.take(q) =~= r.location);
    assert(tail.skip(q + 1) =~= reference);
}

#[verifier::spinoff_prover]
#[verifier::rlimit(50)]
proof fn lemma_round_trip_github_plain(r: ProviderRefView)
    requires
        r.reference is None,
        r.scheme == ProviderScheme::Github,
        !has_char(r.location, '@'),
    ensures
        parse_provider_text(provider_text(r)) == Ok::<ProviderRefView, ErrorView>(r),
{
    reveal_strlit("github");
    reveal_strlit("github:");
    assert(provider_text(r) =~= scheme_name(r.scheme) + seq![':'] + r.location);
    lemma_split_at_scheme(r, r.location);
}

#[verifier::spinoff_prover]
#[verifier::rlimit(50)]
proof fn lemma_round_trip_local(r: ProviderRefView)
    requires
        r.reference is None,
        r.scheme == ProviderScheme::Local,
    ensures
        parse_provider_text(provider_text(r)) == Ok::<ProviderRefView, ErrorView>(r),
{
    reveal_strlit("github");
    reveal_strlit("local");
    reveal_strlit("local:");
    assert(provider_text(r) =~= scheme_name(r.scheme) + seq![':'] + r.location);
    lemma_split_at_scheme(r, r.location);
    assert("local"@ != "github"@);
}

#[verifier::spinoff_prover]
#[verifier::rlimit(50)]
proof fn lemma_round_trip_file(r: ProviderRefView)
    requires
        r.reference is None,
        r.scheme == ProviderScheme::File,
    ensures
        parse_provider_text(provider_text(r)) == Ok::<ProviderRefView, ErrorView>(r),
{
    reveal_strlit("github");
    reveal_strlit("local");
    reveal_strlit("file");
    reveal_strlit("file:");
    assert(provider_text(r) =~= scheme_name(r.scheme) + seq![':'] + r.location);
    lemma_split_at_scheme(r, r.location);
    assert("file"@ != "github"@);
    assert("file"@ != "local"@);
}

/// Reading back the text a reference is written as gives the reference again, whenever no
/// `@` in it can be mistaken for the separator of a git reference (and, as only GitHub
/// references carry one, no other scheme has a git reference).
pub proof fn law_parse_display_round_trip(r: ProviderRefView)
    requires
        round_trips(r),
    ensures
        parse_provider_text(provider_text(r)) == Ok::<ProviderRefView, ErrorView>(r),
{
    match r.scheme {
        ProviderScheme::Github => match r.reference {
            Some(reference) => lemma_round_trip_github_ref(r, reference),
            None => lemma_round_trip_github_plain(r),
        },
        ProviderScheme::Local => lemma_round_trip_local(r),
        ProviderScheme::File => lemma_round_trip_file(r),
    }
}

/// Writing out a reference read from a text gives that text back.
#[verifier::spinoff_prover]
#[verifier::rlimit(80)]
pub proof fn law_display_parse_round_trip(value: Seq<char>)
    requires
        parse_provider_text(value) is Ok,
    ensures
        provider_text(parse_provider_text(value)->Ok_0) == value,
{
    crate::text::lemma_first_index_props(value, ':');
    let p = first_index(value, ':');
    let scheme = value.take(p);
    let rest = value.skip(p + 1);
    assert(value =~= scheme + seq![':'] + rest);
    let r = parse_provider_text(value)->Ok_0;
    if scheme == "github"@ {
        reveal_strlit("github");
        reveal_strlit("github:");
        reveal_strlit("@");
        assert("github:"@ =~= scheme + seq![':']);
        if has_char(rest, '@') {
            crate::text::lemma_last_index_props(rest, '@');
            let q = last_index(rest, '@');
            assert(rest =~= rest.take(q) + seq!['@'] + rest.skip(q + 1));
            assert(r.location == rest.take(q));
            assert(r.reference == Some(rest.skip(q + 1)));
            assert(provider_text(r) =~= value);
        } else {
            assert(provider_text(r) =~= value);
        }
    } else if scheme == "local"@ {
        reveal_strlit("local:");
        reveal_strlit("local");
        assert("local:"@ =~= scheme + seq![':']);
        assert(provider_text(r) =~= value);
    } else {
        reveal_strlit("file:");
        reveal_strlit("file");
        assert(scheme == "file"@);
        assert("file:"@ =~= scheme + seq![':']);
        assert(provider_text(r) =~= value);
    }
}

impl ProviderRef {
    /// Reads a provider reference from its registry text.
    pub fn parse(value: &str) -> (r: Result<ProviderRef, EpistemError>)
        ensures
            match r {
                Ok(p) => parse_provider_text(value@) == Ok::<ProviderRefView, ErrorView>(p@),
                Err(e) => parse_provider_text(value@) == Err::<ProviderRefView, ErrorView>(e@),
            },
    {
        proof {
            reveal_strlit("github");
            reveal_strlit("local");
            reveal_strlit("file");
        }
        let v = crate::text::chars_of(value);
        let n = v.len();
        let p = match crate::text::find_first(&v, ':') {
            None => {
                return Err(
                    EpistemError::Registry(
                        crate::text::concat("invalid provider reference: ", value),
                    ),
                );
            },
            Some(p) => p,
        };
        let scheme = crate::text::string_of(&v, 0, p);
        let rest_chars = crate::text::string_of(&v, p + 1, n);
        assert(scheme@ =~= value@.take(p as int));
        assert(rest_chars@ =~= value@.skip(p + 1));
        let is_github = crate::text::str_eq(scheme.as_str(), "github");
        let rv = crate::text::chars_of(rest_chars.as_str());
        let at = if is_github {
            crate::text::find_last(&rv, '@')
        } else {
            None
        };
        let (location, reference) = match at {
            Some(q) => {
                let l = crate::text::string_of(&rv, 0, q);
                let r = crate::text::string_of(&rv, q + 1, rv.len());
                assert(l@ =~= rest_chars@.take(q as int));
                assert(r@ =~= rest_chars@.skip(q + 1));
                (l, Some(r))
            },
            None => (rest_chars, None),
        };
        let scheme_value = if is_github {
            ProviderScheme::Github
        } else if crate::text::str_eq(scheme.as_str(), "local") {
            ProviderScheme::Local
        } else if crate::text::str_eq(scheme.as_str(), "file") {
            ProviderScheme::File
        } else {
            return Err(
                EpistemError::Registry(
                    crate::text::concat("unsupported provider scheme: ", scheme.as_str()),
                ),
            );
        };
        Ok(ProviderRef { scheme: scheme_value, location, reference })
    }

    /// The registry text of this reference.
    pub fn to_display_string(&self) -> (s: String)
        ensures
            s@ == provider_text(self@),
    {
        match self.scheme {
            ProviderScheme::Github => match &self.reference {
                Some(reference) => {
                    let mut s = crate::text::concat3("github:", self.location.as_str(), "@");
                    s.append(reference.as_str());
                    s
                },
                None => crate::text::concat("github:", self.location.as_str()),
            },
            ProviderScheme::Local => crate::text::concat("local:", self.location.as_str()),
            ProviderScheme::File => crate::text::concat("file:", self.location.as_str()),
        }
    }

    /// The directory name the provider is fetched into: the last component of its location,
    /// with `@` and `:` made into `-`.
    pub fn slug(&self) -> (s: String)
        ensures
            s@ == slug_of(self.location@),
    {
        let v = crate::text::chars_of(self.location.as_str());
        let n = v.len();
        let start = match crate::text::find_last(&v, '/') {
            Some(i) => {
                assert(i < n);
                i + 1
            },
            None => 0,
        };
        let ghost base = v@.skip(start as int);
        assert(base =~= last_component(self.location@));
        let mut s = String::new();
        let mut i = start;
        while i < v.len()
            invariant
                start <= i <= v@.len(),
                base == v@.skip(start as int),
                s@ == base.take(i - start).map_values(|c: char| slug_char(c)),
            decreases v@.len() - i,
        {
            let c = v[i];
            let d = if c == '@' || c == ':' {
                '-'
            } else {
                c
            };
            let ghost before = s@;
            crate::text::push_char(&mut s, d);
            assert(base.take(i + 1 - start) =~= base.take(i - start).push(c));
            assert(s@ =~= base.take(i + 1 - start).map_values(|c: char| slug_char(c)));
            i = i + 1;
        }
        assert(base.take(v@.len() - start) =~= base);
        s
    }

    /// The clone URL of a GitHub provider under `base_url` (any trailing `/` of the base
    /// dropped); other providers have none.
    pub fn git_url(&self, base_url: &str) -> (u: Option<String>)
        ensures
            match self.scheme {
                ProviderScheme::Github => u matches Some(s) && s@ == git_url_of(
                    base_url@,
                    self.location@,
                ),
                _ => u is None,
            },
    {
        match self.scheme {
            ProviderScheme::Github => {
                let base = crate::text::trim_end_char_text(base_url, '/');
                let mut s = crate::text::concat3(base.as_str(), "/", self.location.as_str());
                s.append(".git");
                Some(s)
            },
            _ => None,
        }
    }

    /// The location as a path.
    pub fn as_path(&self) -> (p: String)
        ensures
            p@ == self.location@,
    {
        crate::text::owned(self.location.as_str())
    }
}

impl core::str::FromStr for ProviderRef {
    type Err = EpistemError;

    fn from_str(value: &str) -> (r: Result<ProviderRef, EpistemError>)
        ensures
            match r {
                Ok(p) => parse_provider_text(value@) == Ok::<ProviderRefView, ErrorView>(p@),
                Err(e) => parse_provider_text(value@) == Err::<ProviderRefView, ErrorView>(e@),
            },
    {
        ProviderRef::parse(value)
    }
}

/// Fetches a provider into a destination directory, giving the directory it landed in.
pub trait ProviderFetcher {
    fn fetch(&self, provider: &ProviderRef, destination: &str) -> Result<String, EpistemError>;
}

/// Copies a provider from the local file system.
#[derive(Debug, Default, Clone, Copy)]
pub struct LocalProviderFetcher;

/// Clones a provider from GitHub.
#[derive(Debug, Default, Clone, Copy)]
pub struct GitProviderFetcher;

/// A local copy to make: from where, to where.
#[derive(Debug, Clone, PartialEq, Eq)]
pub struct LocalFetchPlan {
    pub source: String,
    pub destination: String,
}

/// A git clone to make, and the reference to check out afterwards, if any.
#[derive(Debug, Clone, PartialEq, Eq)]
pub struct GitFetchPlan {
    pub url: String,
    pub destination: String,
    pub checkout: Option<String>,
}

impl LocalProviderFetcher {
    /// Where the provider is copied from (its location, taken from `current_dir` when
    /// relative) and to (its slug under `destination`).
    pub fn plan(&self, provider: &ProviderRef, destination: &str, current_dir: &str) -> (p:
        LocalFetchPlan)
        ensures
            p.source@ == (if starts_at_root(provider.location@) {
                provider.location@
            } else {
                joined_path(current_dir@, provider.location@)
            }),
            p.destination@ == joined_path(destination@, slug_of(provider.location@)),
            !starts_at_root(provider.location@) && current_dir@.len() > 0 ==> p.source@
                == plain_join(current_dir@, provider.location@),
            destination@.len() > 0 ==> p.destination@ == plain_join(
                destination@,
                slug_of(provider.location@),
            ),
    {
        let location = provider.as_path();
        let source = if crate::utils::paths::path_is_absolute(location.as_str()) {
            location
        } else {
            crate::utils::paths::path_join(current_dir, location.as_str())
        };
        let slug = provider.slug();
        LocalFetchPlan {
            source,
            destination: crate::utils::paths::path_join(destination, slug.as_str()),
        }
    }
}

impl GitProviderFetcher {
    /// The clone to make for a GitHub provider under `base_url`, into its slug under
    /// `destination`; a provider of another scheme cannot be cloned.
    pub fn plan(&self, provider: &ProviderRef, destination: &str, base_url: &str) -> (p: Result<
        GitFetchPlan,
        EpistemError,
    >)
        ensures
            match provider.scheme {
                ProviderScheme::Github => p matches Ok(plan) && plan.url@ == git_url_of(
                    base_url@,
                    provider.location@,
                ) && plan.destination@ == joined_path(destination@, slug_of(provider.location@))
                    && (destination@.len() > 0 ==> plan.destination@ == plain_join(
                    destination@,
                    slug_of(provider.location@),
                )) && opt_view(plan.checkout) == opt_view(provider.reference),
                _ => p matches Err(e) && e@ == ErrorView::Registry(
                    "provider is not a github reference"@,
                ),
            },
    {
        match provider.git_url(base_url) {
            None => Err(
                EpistemError::Registry(crate::text::owned("provider is not a github reference")),
            ),
            Some(url) => {
                let slug = provider.slug();
                let checkout = match &provider.reference {
                    Some(r) => Some(crate::text::owned(r.as_str())),
                    None => None,
                };
                Ok(
                    GitFetchPlan {
                        url,
                        destination: crate::utils::paths::path_join(destination, slug.as_str()),
                        checkout,
                    },
                )
            },
        }
    }

    /// What fetching comes to once git has run: a failed clone, or a failed checkout of the
    /// reference, is an error naming the provider; otherwise the provider is in the plan's
    /// destination. `checkout_succeeded` is `None` when no checkout was run.
    pub fn finish(
        &self,
        provider: &ProviderRef,
        plan: GitFetchPlan,
        clone_succeeded: bool,
        checkout_succeeded: Option<bool>,
    ) -> (r: Result<String, EpistemError>)
        ensures
            !clone_succeeded ==> (r matches Err(e) && e@ == ErrorView::Registry(
                "git clone failed for "@ + provider_text(provider@),
            )),
            clone_succeeded && checkout_succeeded == Some(false) ==> (r matches Err(e) && e@
                == ErrorView::Registry("git checkout failed for "@ + provider_text(provider@))),
            clone_succeeded && checkout_succeeded != Some(false) ==> (r matches Ok(d) && d
                == plan.destination),
    {
        if !clone_succeeded {
            let text = provider.to_display_string();
            return Err(
                EpistemError::Registry(crate::text::concat("git clone failed for ", text.as_str())),
            );
        }
        match checkout_succeeded {
            Some(false) => {
                let text = provider.to_display_string();
                Err(
                    EpistemError::Registry(
                        crate::text::concat("git checkout failed for ", text.as_str()),
                    ),
                )
            },
            _ => Ok(plan.destination),
        }
    }
}

} // verus!
