use epistem::error::EpistemError;
use epistem::provider::{GitProviderFetcher, LocalProviderFetcher, ProviderRef, ProviderScheme};
use epistem::registry::index::resolve_provider_ref;
use epistem::registry::{RegistryEntry, RegistryIndex};

fn github(location: &str, reference: Option<&str>) -> ProviderRef {
    ProviderRef {
        scheme: ProviderScheme::Github,
        location: location.to_string(),
        reference: reference.map(|r| r.to_string()),
    }
}

fn local(location: &str) -> ProviderRef {
    ProviderRef { scheme: ProviderScheme::Local, location: location.to_string(), reference: None }
}

#[test]
fn parses_each_scheme() {
    assert_eq!(
        ProviderRef::parse("github:jamesdigid/browser-attach@v1").unwrap(),
        github("jamesdigid/browser-attach", Some("v1"))
    );
    assert_eq!(
        ProviderRef::parse("github:jamesdigid/browser-attach").unwrap(),
        github("jamesdigid/browser-attach", None)
    );
    assert_eq!(ProviderRef::parse("local:./providers/a@b").unwrap(), local("./providers/a@b"));
    assert_eq!(
        ProviderRef::parse("file:/srv/p").unwrap(),
        ProviderRef { scheme: ProviderScheme::File, location: "/srv/p".to_string(), reference: None }
    );
    // The reference is what follows the last `@`.
    assert_eq!(ProviderRef::parse("github:a/b@c@d").unwrap(), github("a/b@c", Some("d")));
}

#[test]
fn refuses_malformed_references() {
    assert_eq!(
        ProviderRef::parse("browser-attach"),
        Err(EpistemError::Registry("invalid provider reference: browser-attach".to_string()))
    );
    assert_eq!(
        ProviderRef::parse("ftp:host/x"),
        Err(EpistemError::Registry("unsupported provider scheme: ftp".to_string()))
    );
    let parsed: Result<ProviderRef, EpistemError> = "github:a/b@main".parse();
    assert_eq!(parsed.unwrap(), github("a/b", Some("main")));
}

#[test]
fn displays_as_written() {
    assert_eq!(github("a/b", Some("v2")).to_display_string(), "github:a/b@v2");
    assert_eq!(github("a/b", None).to_display_string(), "github:a/b");
    assert_eq!(local("./x").to_display_string(), "local:./x");
    let text = "github:owner/repo@tag";
    assert_eq!(ProviderRef::parse(text).unwrap().to_display_string(), text);
}

#[test]
fn slug_git_url_and_path() {
    assert_eq!(github("jamesdigid/browser-attach", None).slug(), "browser-attach");
    assert_eq!(local("dir/name@x:y").slug(), "name-x-y");
    assert_eq!(local("plain").slug(), "plain");
    assert_eq!(
        github("owner/repo", None).git_url("https://github.com/"),
        Some("https://github.com/owner/repo.git".to_string())
    );
    assert_eq!(
        github("owner/repo", None).git_url("file:///tmp/remote"),
        Some("file:///tmp/remote/owner/repo.git".to_string())
    );
    assert_eq!(local("x").git_url("https://github.com"), None);
    assert_eq!(local("a/b").as_path(), "a/b");
}

#[test]
fn fetch_plans() {
    let plan = LocalProviderFetcher.plan(&local("fixtures/p"), "/tmp/acq", "/work");
    assert_eq!(plan.source, "/work/fixtures/p");
    assert_eq!(plan.destination, "/tmp/acq/p");
    let plan = LocalProviderFetcher.plan(&local("/abs/q"), "/tmp/acq/", "/work");
    assert_eq!(plan.source, "/abs/q");
    assert_eq!(plan.destination, "/tmp/acq/q");

    let provider = github("owner/repo", Some("v1"));
    let plan = GitProviderFetcher.plan(&provider, "/tmp/acq", "https://github.com").unwrap();
    assert_eq!(plan.url, "https://github.com/owner/repo.git");
    assert_eq!(plan.destination, "/tmp/acq/repo");
    assert_eq!(plan.checkout, Some("v1".to_string()));
    assert_eq!(
        GitProviderFetcher.plan(&local("x"), "/tmp", "https://github.com"),
        Err(EpistemError::Registry("provider is not a github reference".to_string()))
    );

    let done = GitProviderFetcher.finish(&provider, plan.clone(), true, Some(true));
    assert_eq!(done, Ok("/tmp/acq/repo".to_string()));
    assert_eq!(
        GitProviderFetcher.finish(&provider, plan.clone(), false, None),
        Err(EpistemError::Registry("git clone failed for github:owner/repo@v1".to_string()))
    );
    assert_eq!(
        GitProviderFetcher.finish(&provider, plan, true, Some(false)),
        Err(EpistemError::Registry("git checkout failed for github:owner/repo@v1".to_string()))
    );
}

#[test]
fn relative_local_providers_resolve_against_the_registry() {
    assert_eq!(resolve_provider_ref("/reg", local("providers/a")), local("/reg/providers/a"));
    assert_eq!(resolve_provider_ref("/reg", local("/abs/a")), local("/abs/a"));
    assert_eq!(resolve_provider_ref("/reg", github("o/r", None)), github("o/r", None));
}

#[test]
fn index_loads_entries_in_order() {
    let entries = vec![
        RegistryEntry {
            capability: "browser-attach".to_string(),
            providers: vec![
                "github:jamesdigid/browser-attach".to_string(),
                "local:providers/browser".to_string(),
            ],
        },
        RegistryEntry { capability: "gmail".to_string(), providers: vec![] },
    ];
    let index = RegistryIndex::load_entries("/reg", &entries).expect("registry should load");
    assert!(!index.is_empty());
    assert_eq!(index.capabilities(), vec!["browser-attach".to_string(), "gmail".to_string()]);
    assert_eq!(
        index.providers_for("browser-attach"),
        vec![github("jamesdigid/browser-attach", None), local("/reg/providers/browser")]
    );
    assert_eq!(index.providers_for("gmail"), vec![]);
    assert_eq!(index.providers_for("unknown"), vec![]);
    let inner = index.into_inner();
    assert_eq!(inner.len(), 2);
    assert_eq!(inner[0].0, "browser-attach");
}

#[test]
fn a_bad_provider_fails_the_load() {
    let entries = vec![RegistryEntry {
        capability: "x".to_string(),
        providers: vec!["nonsense".to_string()],
    }];
    match RegistryIndex::load_entries("/reg", &entries) {
        Err(e) => assert_eq!(e, EpistemError::Registry("invalid provider reference: nonsense".to_string())),
        Ok(_) => panic!("expected an error"),
    }
}

#[test]
fn insert_replaces_and_lookup_reads_back() {
    let mut index = RegistryIndex::new();
    assert!(index.is_empty());
    index.insert("a".to_string(), vec![local("/one")]);
    index.insert("b".to_string(), vec![local("/two")]);
    index.insert("a".to_string(), vec![local("/three")]);
    assert_eq!(index.providers_for("a"), vec![local("/three")]);
    assert_eq!(index.providers_for("b"), vec![local("/two")]);
    assert_eq!(index.capabilities(), vec!["a".to_string(), "b".to_string()]);
}

#[test]
fn an_index_built_from_pairs_gives_them_back() {
    let pairs = vec![
        ("a".to_string(), vec![local("/one")]),
        ("b".to_string(), vec![local("/two"), github("o/r", Some("v1"))]),
        ("a".to_string(), vec![local("/three")]),
    ];
    let index = RegistryIndex::from_entries(pairs);
    assert!(!index.is_empty());
    assert_eq!(index.capabilities(), vec!["a".to_string(), "b".to_string()]);
    assert_eq!(index.providers_for("a"), vec![local("/three")]);
    let parts = index.into_inner();
    assert_eq!(
        parts,
        vec![
            ("a".to_string(), vec![local("/three")]),
            ("b".to_string(), vec![local("/two"), github("o/r", Some("v1"))]),
        ]
    );
    let again = RegistryIndex::from_entries(parts.clone());
    assert_eq!(again.into_inner(), parts);
    assert!(RegistryIndex::from_entries(vec![]).is_empty());
}
