use vstd::prelude::*;
use crate::error::{EpistemError, ErrorView};
use crate::provider::{parse_provider_text, ProviderRef, ProviderRefView, ProviderScheme};
use crate::utils::paths::{joined_path, starts_at_root};

verus! {

/// A registry file: a capability and the providers that offer it.
#[derive(Debug, Clone, PartialEq, Eq)]
pub struct RegistryEntry {
    pub capability: String,
    pub providers: Vec<String>,
}

/// The providers known for each capability.
#[derive(Debug)]
pub struct RegistryIndex {
    entries: Vec<(String, Vec<ProviderRef>)>,
}

/// An index entry seen through its texts.
pub type EntryView = (Seq<char>, Seq<ProviderRefView>);

/// The entries of an index as a map from capability to providers.
pub open spec fn entries_map(es: Seq<EntryView>) -> Map<Seq<char>, Seq<ProviderRefView>>
    decreases es.len(),
{
    if es.len() == 0 {
        Map::empty()
    } else {
        entries_map(es.drop_last()).insert(es.last().0, es.last().1)
    }
}

/// Pairs of a capability and its providers, seen through their texts.
pub open spec fn pairs_view(pairs: Seq<(String, Vec<ProviderRef>)>) -> Seq<EntryView> {
    Seq::new(pairs.len(), |i: int| (pairs[i].0@, pairs[i].1.deep_view()))
}

/// A capability is known to the map of some entries exactly when one of them names it.
pub proof fn lemma_entries_map_dom(es: Seq<EntryView>, k: Seq<char>)
    ensures
        entries_map(es).dom().contains(k) <==> exists|i: int| 0 <= i < es.len() && es[i].0 == k,
    decreases es.len(),
{
    if es.len() > 0 {
        let d = es.drop_last();
        lemma_entries_map_dom(d, k);
        if exists|i: int| 0 <= i < d.len() && d[i].0 == k {
            let i = choose|i: int| 0 <= i < d.len() && d[i].0 == k;
            assert(es[i] == d[i]);
        }
        if exists|i: int| 0 <= i < es.len() && es[i].0 == k {
            let i = choose|i: int| 0 <= i < es.len() && es[i].0 == k;
            if i < d.len() {
                assert(d[i] == es[i]);
            }
        }
    }
}

/// The capabilities of some entries, in order.
pub open spec fn entry_keys(es: Seq<EntryView>) -> Seq<Seq<char>> {
    es.map_values(|e: EntryView| e.0)
}

/// No capability occurs twice among the entries.
pub open spec fn keys_unique(es: Seq<EntryView>) -> bool {
    forall|i: int, j: int| 0 <= i < j < es.len() ==> es[i].0 != es[j].0
}

/// A provider reference as the registry at `root` means it: a relative local or file
/// location is taken from `root`.
pub open spec fn resolve_spec(root: Seq<char>, r: ProviderRefView) -> ProviderRefView {
    match r.scheme {
        ProviderScheme::Github => r,
        _ => if starts_at_root(r.location) {
            r
        } else {
            ProviderRefView {
                scheme: r.scheme,
                location: joined_path(root, r.location),
                reference: r.reference,
            }
        },
    }
}

/// The providers of a registry file at `root`, read in order: the first that does not read
/// makes the whole an error.
pub open spec fn read_providers(root: Seq<char>, texts: Seq<Seq<char>>) -> Result<
    Seq<ProviderRefView>,
    ErrorView,
>
    decreases texts.len(),
{
    if texts.len() == 0 {
        Ok(Seq::empty())
    } else {
        match read_providers(root, texts.drop_last()) {
            Err(e) => Err(e),
            Ok(rs) => match parse_provider_text(texts.last()) {
                Err(e) => Err(e),
                Ok(r) => Ok(rs.push(resolve_spec(root, r))),
            },
        }
    }
}

/// The index of registry files found in `root`, read in order: each records its providers
/// for its capability, and the first provider that does not read makes the whole an error.
pub open spec fn load_spec(root: Seq<char>, entries: Seq<RegistryEntry>) -> Result<
    Map<Seq<char>, Seq<ProviderRefView>>,
    ErrorView,
>
    decreases entries.len(),
{
    if entries.len() == 0 {
        Ok(Map::empty())
    } else {
        match load_spec(root, entries.drop_last()) {
            Err(e) => Err(e),
            Ok(m) => match read_providers(root, entries.last().providers.deep_view()) {
                Err(e) => Err(e),
                Ok(rs) => Ok(m.insert(entries.last().capability@, rs)),
            },
        }
    }
}

proof fn lemma_load_error(root: Seq<char>, entries: Seq<RegistryEntry>, i: int)
    requires
        0 < i <= entries.len(),
        load_spec(root, entries.take(i)) is Err,
    ensures
        load_spec(root, entries) == load_spec(root, entries.take(i)),
    decreases entries.len() - i,
{
    if i < entries.len() {
        assert(entries.take(i + 1).drop_last() =~= entries.take(i));
        lemma_load_error(root, entries, i + 1);
    } else {
        assert(entries.take(i) =~= entries);
    }
}

proof fn lemma_entries_map_has(es: Seq<EntryView>, k: Seq<char>)
    requires
        keys_unique(es),
    ensures
        entries_map(es).dom().contains(k) <==> exists|i: int| 0 <= i < es.len() && es[i].0 == k,
        forall|i: int| 0 <= i < es.len() && es[i].0 == k ==> entries_map(es)[k] == es[i].1,
    decreases es.len(),
{
    if es.len() > 0 {
        let d = es.drop_last();
        assert forall|i: int, j: int| 0 <= i < j < d.len() implies d[i].0 != d[j].0 by {
            assert(d[i] == es[i] && d[j] == es[j]);
        }
        lemma_entries_map_has(d, k);
        if exists|i: int| 0 <= i < d.len() && d[i].0 == k {
            let w = choose|i: int| 0 <= i < d.len() && d[i].0 == k;
            assert(es[w].0 == k);
        }
        if exists|i: int| 0 <= i < es.len() && es[i].0 == k {
            let w = choose|i: int| 0 <= i < es.len() && es[i].0 == k;
            if w < d.len() {
                assert(d[w].0 == k);
            }
        }
        assert forall|i: int| 0 <= i < es.len() && es[i].0 == k implies entries_map(es)[k]
            == es[i].1 by {
            if i < d.len() {
                assert(d[i] == es[i]);
                assert(es[i].0 != es.last().0);
            }
        }
    }
}

proof fn lemma_entries_map_update(es: Seq<EntryView>, p: int, v: Seq<ProviderRefView>)
    requires
        keys_unique(es),
        0 <= p < es.len(),
    ensures
        entries_map(es.update(p, (es[p].0, v))) == entries_map(es).insert(es[p].0, v),
    decreases es.len(),
{
    let u = es.update(p, (es[p].0, v));
    let d = es.drop_last();
    assert forall|i: int, j: int| 0 <= i < j < d.len() implies d[i].0 != d[j].0 by {
        assert(d[i] == es[i] && d[j] == es[j]);
    }
    if p == es.len() - 1 {
        assert(u.drop_last() =~= d);
        assert(entries_map(u) =~= entries_map(es).insert(es[p].0, v));
    } else {
        lemma_entries_map_update(d, p, v);
        assert(u.drop_last() =~= d.update(p, (es[p].0, v)));
        assert(es.last().0 != es[p].0);
        assert(entries_map(u) =~= entries_map(es).insert(es[p].0, v));
    }
}

/// A copy of a provider reference.
pub fn copy_ref(r: &ProviderRef) -> (c: ProviderRef)
    ensures
        c@ == r@,
{
    ProviderRef {
        scheme: r.scheme,
        location: crate::text::owned(r.location.as_str()),
        reference: crate::manifest::models::copy_opt_text(&r.reference),
    }
}

fn copy_refs(v: &Vec<ProviderRef>) -> (c: Vec<ProviderRef>)
    ensures
        c.deep_view() == v.deep_view(),
{
    let mut c: Vec<ProviderRef> = Vec::new();
    let mut i: usize = 0;
    while i < v.len()
        invariant
            i <= v@.len(),
            c.deep_view() == v.deep_view().take(i as int),
        decreases v@.len() - i,
    {
        let ghost before = c.deep_view();
        let r = copy_ref(&v[i]);
        c.push(r);
        assert(c.deep_view() =~= before.push(v@[i as int]@));
        assert(v.deep_view().take(i + 1) =~= v.deep_view().take(i as int).push(v@[i as int]@));
        i = i + 1;
    }
    assert(v.deep_view().take(v@.len() as int) =~= v.deep_view());
    c
}

/// A provider reference as the registry at `root` means it: a relative local or file
/// location is taken from `root`; GitHub references and absolute locations stay as they are.
pub fn resolve_provider_ref(root: &str, reference: ProviderRef) -> (r: ProviderRef)
    ensures
        r@ == resolve_spec(root@, reference@),
{
    match reference.scheme {
        ProviderScheme::Github => reference,
        _ => {
            if crate::utils::paths::path_is_absolute(reference.location.as_str()) {
                reference
            } else {
                let location = crate::utils::paths::path_join(root, reference.location.as_str());
                ProviderRef { scheme: reference.scheme, location, reference: reference.reference }
            }
        },
    }
}

impl RegistryIndex {
    closed spec fn entry_views(&self) -> Seq<EntryView> {
        Seq::new(
            self.entries@.len(),
            |i: int| (self.entries@[i].0@, self.entries@[i].1.deep_view()),
        )
    }

    #[verifier::type_invariant]
    closed spec fn unique(&self) -> bool {
        keys_unique(self.entry_views())
    }

    /// The capabilities of the index, in the order they were first added.
    pub closed spec fn keys(&self) -> Seq<Seq<char>> {
        self.entry_views().map_values(|e: EntryView| e.0)
    }

    /// The providers known for each capability.
    pub closed spec fn providers_map(&self) -> Map<Seq<char>, Seq<ProviderRefView>> {
        entries_map(self.entry_views())
    }

    /// An index that knows of no capability.
    pub fn new() -> (r: RegistryIndex)
        ensures
            r.providers_map() == Map::<Seq<char>, Seq<ProviderRefView>>::empty(),
            r.keys().len() == 0,
    {
        let r = RegistryIndex { entries: Vec::new() };
        assert(r.entry_views() =~= Seq::<EntryView>::empty());
        r
    }

    /// Records the providers of a capability, replacing what was known of it.
    pub fn insert(&mut self, capability: String, providers: Vec<ProviderRef>)
        ensures
            final(self).providers_map() == old(self).providers_map().insert(
                capability@,
                providers.deep_view(),
            ),
    {
        proof {
            use_type_invariant(&*self);
        }
        let ghost old_views = self.entry_views();
        let mut i: usize = 0;
        while i < self.entries.len()
            invariant
                i <= self.entries@.len(),
                old_views == self.entry_views(),
                old_views == old(self).entry_views(),
                keys_unique(old_views),
                forall|k: int| 0 <= k < i ==> old_views[k].0 != capability@,
            decreases self.entries@.len() - i,
        {
            if crate::text::str_eq(self.entries[i].0.as_str(), capability.as_str()) {
                let ghost pv = providers.deep_view();
                let ghost key = old_views[i as int].0;
                let mut entries: Vec<(String, Vec<ProviderRef>)> = Vec::new();
                core::mem::swap(&mut entries, &mut self.entries);
                let ghost before = entries@;
                entries.set(i, (capability, providers));
                proof {
                    let nv = Seq::new(
                        entries@.len(),
                        |k: int| (entries@[k].0@, entries@[k].1.deep_view()),
                    );
                    assert(nv =~= old_views.update(i as int, (key, pv)));
                    lemma_entries_map_update(old_views, i as int, pv);
                    assert forall|a: int, b: int| 0 <= a < b < nv.len() implies nv[a].0
                        != nv[b].0 by {
                        assert(nv[a].0 == old_views[a].0);
                        assert(nv[b].0 == old_views[b].0);
                    }
                }
                self.entries = entries;
                assert(self.entry_views() =~= old_views.update(i as int, (key, pv)));
                return;
            }
            i = i + 1;
        }
        let ghost pv = providers.deep_view();
        let ghost cv = capability@;
        let mut entries: Vec<(String, Vec<ProviderRef>)> = Vec::new();
        core::mem::swap(&mut entries, &mut self.entries);
        entries.push((capability, providers));
        proof {
            let nv = Seq::new(entries@.len(), |k: int| (entries@[k].0@, entries@[k].1.deep_view()));
            assert(nv =~= old_views.push((cv, pv)));
            assert(nv.drop_last() =~= old_views);
            assert forall|a: int, b: int| 0 <= a < b < nv.len() implies nv[a].0 != nv[b].0 by {
                if b < old_views.len() {
                    assert(nv[a] == old_views[a] && nv[b] == old_views[b]);
                } else {
                    assert(nv[a] == old_views[a]);
                }
            }
        }
        self.entries = entries;
        assert(self.entry_views() =~= old_views.push((cv, pv)));
        assert(self.entry_views().drop_last() =~= old_views);
    }

    /// Reads the providers of a registry file found in `root` and records them for its
    /// capability. A provider that does not read leaves the index as it was.
    pub fn add_entry(&mut self, root: &str, entry: &RegistryEntry) -> (r: Result<(), EpistemError>)
        ensures
            match read_providers(root@, entry.providers.deep_view()) {
                Ok(rs) => r is Ok && final(self).providers_map() == old(
                    self,
                ).providers_map().insert(entry.capability@, rs),
                Err(e) => r matches Err(x) && x@ == e && final(self).providers_map() == old(
                    self,
                ).providers_map(),
            },
    {
        let mut refs: Vec<ProviderRef> = Vec::new();
        let mut i: usize = 0;
        assert(entry.providers.deep_view().take(0) =~= Seq::<Seq<char>>::empty());
        assert(refs.deep_view() =~= Seq::<ProviderRefView>::empty());
        while i < entry.providers.len()
            invariant
                i <= entry.providers@.len(),
                read_providers(root@, entry.providers.deep_view().take(i as int)) == Ok::<
                    Seq<ProviderRefView>,
                    ErrorView,
                >(refs.deep_view()),
            decreases entry.providers@.len() - i,
        {
            let ghost prefix = entry.providers.deep_view().take(i + 1);
            assert(prefix.drop_last() =~= entry.providers.deep_view().take(i as int));
            assert(prefix.last() == entry.providers@[i as int]@);
            match ProviderRef::parse(entry.providers[i].as_str()) {
                Err(e) => {
                    proof {
                        lemma_read_providers_error(root@, entry.providers.deep_view(), i + 1);
                    }
                    return Err(e);
                },
                Ok(p) => {
                    let resolved = resolve_provider_ref(root, p);
                    let ghost before = refs.deep_view();
                    refs.push(resolved);
                    assert(refs.deep_view() =~= before.push(resolved@));
                },
            }
            i = i + 1;
        }
        assert(entry.providers.deep_view().take(entry.providers@.len() as int)
            =~= entry.providers.deep_view());
        self.insert(crate::text::owned(entry.capability.as_str()), refs);
        Ok(())
    }

    /// The index of the registry files found in `root`, read in order; the first provider
    /// that does not read makes the whole an error.
    pub fn load_entries(root: &str, entries: &Vec<RegistryEntry>) -> (r: Result<
        RegistryIndex,
        EpistemError,
    >)
        ensures
            match r {
                Ok(index) => load_spec(root@, entries@) == Ok::<
                    Map<Seq<char>, Seq<ProviderRefView>>,
                    ErrorView,
                >(index.providers_map()),
                Err(e) => load_spec(root@, entries@) == Err::<
                    Map<Seq<char>, Seq<ProviderRefView>>,
                    ErrorView,
                >(e@),
            },
    {
        let mut index = RegistryIndex::new();
        let mut k: usize = 0;
        while k < entries.len()
            invariant
                k <= entries@.len(),
                load_spec(root@, entries@.take(k as int)) == Ok::<
                    Map<Seq<char>, Seq<ProviderRefView>>,
                    ErrorView,
                >(index.providers_map()),
            decreases entries@.len() - k,
        {
            let ghost prefix = entries@.take(k + 1);
            assert(prefix.drop_last() =~= entries@.take(k as int));
            assert(prefix.last() == entries@[k as int]);
            match index.add_entry(root, &entries[k]) {
                Err(e) => {
                    proof {
                        lemma_load_error(root@, entries@, k + 1);
                    }
                    return Err(e);
                },
                Ok(()) => {},
            }
            k = k + 1;
        }
        assert(entries@.take(entries@.len() as int) =~= entries@);
        Ok(index)
    }

    /// The providers known for a capability (none for an unknown one).
    pub fn providers_for(&self, capability: &str) -> (r: Vec<ProviderRef>)
        ensures
            self.providers_map().dom().contains(capability@) ==> r.deep_view()
                == self.providers_map()[capability@],
            !self.providers_map().dom().contains(capability@) ==> r@.len() == 0,
    {
        proof {
            use_type_invariant(self);
            lemma_entries_map_has(self.entry_views(), capability@);
        }
        let mut i: usize = 0;
        while i < self.entries.len()
            invariant
                i <= self.entries@.len(),
                forall|k: int| 0 <= k < i ==> self.entry_views()[k].0 != capability@,
            decreases self.entries@.len() - i,
        {
            if crate::text::str_eq(self.entries[i].0.as_str(), capability) {
                proof {
                    use_type_invariant(self);
                    lemma_entries_map_has(self.entry_views(), capability@);
                }
                assert(self.entry_views()[i as int].0 == capability@);
                assert(self.providers_map()[capability@] == self.entry_views()[i as int].1);
                return copy_refs(&self.entries[i].1);
            }
            i = i + 1;
        }
        Vec::new()
    }

    /// The capabilities the index knows, each once.
    pub fn capabilities(&self) -> (r: Vec<String>)
        ensures
            r.deep_view() == self.keys(),
            forall|k: Seq<char>|
                self.providers_map().dom().contains(k) <==> crate::text::seq_has(r.deep_view(), k),
    {
        proof {
            use_type_invariant(self);
        }
        let mut r: Vec<String> = Vec::new();
        let mut i: usize = 0;
        while i < self.entries.len()
            invariant
                i <= self.entries@.len(),
                r.deep_view() == self.keys().take(i as int),
            decreases self.entries@.len() - i,
        {
            let ghost before = r.deep_view();
            r.push(crate::text::owned(self.entries[i].0.as_str()));
            assert(r.deep_view() =~= before.push(self.keys()[i as int]));
            assert(self.keys().take(i + 1) =~= self.keys().take(i as int).push(self.keys()[i as int]));
            i = i + 1;
        }
        assert(self.keys().take(self.entries@.len() as int) =~= self.keys());
        proof {
            assert forall|k: Seq<char>| self.providers_map().dom().contains(k)
                <==> crate::text::seq_has(r.deep_view(), k) by {
                lemma_entries_map_has(self.entry_views(), k);
                if crate::text::seq_has(r.deep_view(), k) {
                    let w = choose|i: int| 0 <= i < r.deep_view().len() && r.deep_view()[i] == k;
                    assert(self.entry_views()[w].0 == k);
                }
                if exists|i: int| 0 <= i < self.entry_views().len() && self.entry_views()[i].0 == k {
                    let w = choose|i: int| 0 <= i < self.entry_views().len() && self.entry_views()[i].0 == k;
                    assert(r.deep_view()[w] == k);
                }
            }
        }
        r
    }

    /// Whether the index knows of no capability.
    pub fn is_empty(&self) -> (b: bool)
        ensures
            b == (self.keys().len() == 0),
            b == (self.providers_map() == Map::<Seq<char>, Seq<ProviderRefView>>::empty()),
    {
        let b = self.entries.len() == 0;
        proof {
            if b {
                assert(self.entry_views() =~= Seq::<EntryView>::empty());
            } else {
                let k = self.entry_views()[0].0;
                lemma_entries_map_dom(self.entry_views(), k);
                assert(self.providers_map().dom().contains(k));
            }
        }
        b
    }

    /// An index of the given pairs of a capability and its providers: each pair records the
    /// providers of its capability, a later pair replacing an earlier one for the same
    /// capability.
    pub fn from_entries(pairs: Vec<(String, Vec<ProviderRef>)>) -> (r: RegistryIndex)
        ensures
            r.providers_map() == entries_map(pairs_view(pairs@)),
    {
        let mut r = RegistryIndex::new();
        let mut i: usize = 0;
        while i < pairs.len()
            invariant
                i <= pairs@.len(),
                r.providers_map() == entries_map(pairs_view(pairs@).take(i as int)),
            decreases pairs@.len() - i,
        {
            let capability = crate::text::owned(pairs[i].0.as_str());
            let providers = copy_refs(&pairs[i].1);
            r.insert(capability, providers);
            assert(pairs_view(pairs@).take(i + 1).drop_last() =~= pairs_view(pairs@).take(i as int));
            i = i + 1;
        }
        assert(pairs_view(pairs@).take(pairs@.len() as int) =~= pairs_view(pairs@));
        r
    }

    /// The entries of the index: each capability once, with its providers.
    pub fn into_inner(self) -> (r: Vec<(String, Vec<ProviderRef>)>)
        ensures
            entries_map(pairs_view(r@)) == self.providers_map(),
            keys_unique(pairs_view(r@)),
    {
        proof {
            use_type_invariant(&self);
        }
        let ghost v = self.entry_views();
        let r = self.entries;
        assert(pairs_view(r@) =~= v);
        r
    }
}

proof fn lemma_read_providers_error(root: Seq<char>, texts: Seq<Seq<char>>, i: int)
    requires
        0 < i <= texts.len(),
        read_providers(root, texts.take(i)) is Err,
    ensures
        read_providers(root, texts) == read_providers(root, texts.take(i)),
    decreases texts.len() - i,
{
    if i < texts.len() {
        lemma_read_providers_error_step(root, texts, i);
        lemma_read_providers_error(root, texts, i + 1);
    } else {
        assert(texts.take(i) =~= texts);
    }
}

proof fn lemma_read_providers_error_step(root: Seq<char>, texts: Seq<Seq<char>>, i: int)
    requires
        0 < i < texts.len(),
        read_providers(root, texts.take(i)) is Err,
    ensures
        read_providers(root, texts.take(i + 1)) == read_providers(root, texts.take(i)),
{
    assert(texts.take(i + 1).drop_last() =~= texts.take(i));
}


/// What an index tells of itself agrees: its capabilities are exactly the capabilities its
/// providers are known for, and it knows of no capability exactly when it lists none.
pub proof fn law_index_views_agree(index: RegistryIndex, capability: Seq<char>)
    ensures
        index.providers_map().dom().contains(capability) <==> crate::text::seq_has(
            index.keys(),
            capability,
        ),
        (index.keys().len() == 0) <==> (index.providers_map() == Map::<
            Seq<char>,
            Seq<ProviderRefView>,
        >::empty()),
{
    let es = index.entry_views();
    lemma_entries_map_dom(es, capability);
    if crate::text::seq_has(index.keys(), capability) {
        let i = choose|i: int| 0 <= i < index.keys().len() && index.keys()[i] == capability;
        assert(es[i].0 == capability);
    }
    if index.providers_map().dom().contains(capability) {
        let i = choose|i: int| 0 <= i < es.len() && es[i].0 == capability;
        assert(index.keys()[i] == capability);
    }
    if index.keys().len() == 0 {
        assert(es =~= Seq::<EntryView>::empty());
    } else {
        lemma_entries_map_dom(es, es[0].0);
        assert(index.providers_map().dom().contains(es[0].0));
    }
}

/// Building an index from pairs and taking it apart gives the same capabilities, each once,
/// with the providers the pairs gave them: what `from_entries` builds from `pairs` and
/// `into_inner` gives back as `parts` describe the same map.
pub proof fn law_entries_round_trip(pairs: Seq<EntryView>, built: RegistryIndex, parts: Seq<EntryView>)
    requires
        built.providers_map() == entries_map(pairs),
        entries_map(parts) == built.providers_map(),
        keys_unique(parts),
    ensures
        entries_map(parts) == entries_map(pairs),
        entry_keys(parts).to_set() == entry_keys(pairs).to_set(),
        forall|i: int| 0 <= i < parts.len() ==> entries_map(pairs)[#[trigger] parts[i].0] == parts[i].1,
{
    assert forall|k: Seq<char>| entry_keys(parts).to_set().contains(k) == entry_keys(
        pairs,
    ).to_set().contains(k) by {
        lemma_entries_map_dom(parts, k);
        lemma_entries_map_dom(pairs, k);
        if entry_keys(parts).contains(k) {
            let i = choose|i: int| 0 <= i < entry_keys(parts).len() && entry_keys(parts)[i] == k;
            assert(parts[i].0 == k);
        }
        if entry_keys(pairs).contains(k) {
            let i = choose|i: int| 0 <= i < entry_keys(pairs).len() && entry_keys(pairs)[i] == k;
            assert(pairs[i].0 == k);
        }
        if exists|i: int| 0 <= i < parts.len() && parts[i].0 == k {
            let i = choose|i: int| 0 <= i < parts.len() && parts[i].0 == k;
            assert(entry_keys(parts)[i] == k);
        }
        if exists|i: int| 0 <= i < pairs.len() && pairs[i].0 == k {
            let i = choose|i: int| 0 <= i < pairs.len() && pairs[i].0 == k;
            assert(entry_keys(pairs)[i] == k);
        }
    }
    assert(entry_keys(parts).to_set() =~= entry_keys(pairs).to_set());
    assert forall|i: int| 0 <= i < parts.len() implies entries_map(pairs)[#[trigger] parts[i].0]
        == parts[i].1 by {
        lemma_entries_map_has(parts, parts[i].0);
    }
}

/// A registry's local and file providers are found relative to the registry: a relative
/// location of either scheme is joined to the registry's root, the two schemes alike, and
/// only GitHub references and absolute locations are left as written.
pub proof fn law_relative_locations_join_root(root: Seq<char>, r: ProviderRefView)
    ensures
        r.scheme != ProviderScheme::Github && !starts_at_root(r.location) ==> resolve_spec(root, r)
            == (ProviderRefView {
            scheme: r.scheme,
            location: joined_path(root, r.location),
            reference: r.reference,
        }),
        r.scheme == ProviderScheme::Github || starts_at_root(r.location) ==> resolve_spec(root, r)
            == r,
        r.scheme != ProviderScheme::Github ==> resolve_spec(root, r).location == resolve_spec(
            root,
            ProviderRefView { scheme: ProviderScheme::Local, ..r },
        ).location,
{
}

/// What was last inserted for a capability is what is found for it, and what is found for
/// any other capability is unchanged.
pub proof fn law_insert_then_lookup(
    known: Map<Seq<char>, Seq<ProviderRefView>>,
    capability: Seq<char>,
    providers: Seq<ProviderRefView>,
    other: Seq<char>,
)
    ensures
        known.insert(capability, providers).dom().contains(capability),
        known.insert(capability, providers)[capability] == providers,
        other != capability ==> (known.insert(capability, providers).dom().contains(other)
            == known.dom().contains(other)),
        other != capability && known.dom().contains(other) ==> known.insert(
            capability,
            providers,
        )[other] == known[other],
{
}

} // verus!
