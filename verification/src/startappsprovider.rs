//! The catalog engine: it aggregates entries from the frecency store and
//! the static catalog behind a single synthetic query entry, classifies
//! each query into a mode, and ranks and filters the candidates the list
//! view shows. The engine never touches the filesystem or the persistent
//! store itself: existence probes and directory listings are passed in,
//! and activation or removal hand back what the embedding must forward.

use vstd::prelude::*;
use vstd::string::StrSliceExecFns;
pub use crate::entry::AppEntry;
pub use crate::entry::AppEntryKind;
use crate::entry::spec_display_string;
use crate::history::{
    FrecencyStore, bumped, contains_name, index_of_name, unique_names,
};
use crate::matching::{
    char_is_alphanumeric, is_alphanumeric_char, is_multi_word, matches_ci, multi_word,
    spec_matches_ci,
};
use crate::pathstring::{
    ends_with_sep, file_name_of, file_name_string, is_absolute_path, parent_of, parent_string,
    spec_starts_with, str_ends_with_sep, str_is_absolute, str_starts_with,
};
use crate::codec::{encode_entry, spec_encode_entry};
use crate::listcontentprovider::{ListContentProvider, ListItem};

verus! {

/// How the current query string is interpreted.
#[derive(Clone, Copy, PartialEq, Eq, Structural, Debug)]
pub enum StartAppsProviderMode {
    /// Search the aggregated catalog.
    StartApps,
    /// Complete against a filesystem directory listing.
    DirectoryListing,
    /// The query is a web address.
    Url,
}

/// What the filesystem says about the current query string. The engine is
/// pure; the embedding probes the filesystem and passes the answers in.
#[derive(Clone, Copy, PartialEq, Eq, Structural, Debug)]
pub struct PathProbe {
    /// The query itself names an existing path.
    pub exists: bool,
    /// The query's parent directory exists.
    pub parent_exists: bool,
}

impl PathProbe {
    /// The probe an embedding without filesystem access reports.
    pub fn none() -> (r: PathProbe)
        ensures
            r == (PathProbe { exists: false, parent_exists: false }),
    {
        PathProbe { exists: false, parent_exists: false }
    }
}

/// The decision table for query modes: empty queries search the catalog, a
/// web prefix means a URL, and a path-shaped query whose location the
/// filesystem confirms lists a directory; everything else searches.
pub open spec fn spec_classify(q: Seq<char>, probe: PathProbe) -> StartAppsProviderMode {
    if q.len() == 0 {
        StartAppsProviderMode::StartApps
    } else if spec_starts_with(q, "http://"@) || spec_starts_with(q, "https://"@) {
        StartAppsProviderMode::Url
    } else if (is_alphanumeric_char(q[0]) || q[0] == '\\') && ((is_absolute_path(q)
        && probe.exists) || probe.parent_exists) {
        StartAppsProviderMode::DirectoryListing
    } else {
        StartAppsProviderMode::StartApps
    }
}

/// Classify a query string, given the filesystem's answers about it.
pub fn classify_query(q: &str, probe: PathProbe) -> (r: StartAppsProviderMode)
    ensures
        r == spec_classify(q@, probe),
{
    if q.unicode_len() == 0 {
        return StartAppsProviderMode::StartApps;
    }
    if str_starts_with(q, "http://") || str_starts_with(q, "https://") {
        return StartAppsProviderMode::Url;
    }
    let c0 = q.get_char(0);
    if (char_is_alphanumeric(c0) || c0 == '\\') && ((str_is_absolute(q) && probe.exists)
        || probe.parent_exists) {
        return StartAppsProviderMode::DirectoryListing;
    }
    StartAppsProviderMode::StartApps
}

/// The resolved directory prefix of a directory-mode query: the query
/// itself when it ends with a separator and exists, else its parent.
pub open spec fn spec_split_prefix(q: Seq<char>, exists: bool) -> Seq<char> {
    if ends_with_sep(q) && exists {
        q
    } else {
        parent_of(q)
    }
}

/// The suffix of a directory-mode query: empty when the query is itself an
/// existing directory, else its file-name component.
pub open spec fn spec_split_suffix(q: Seq<char>, exists: bool) -> Seq<char> {
    if ends_with_sep(q) && exists {
        Seq::empty()
    } else {
        file_name_of(q)
    }
}

/// Whether an entry matches a query: case-insensitive substring of the
/// name, and of the link target or the command text where there is one.
pub open spec fn entry_matches(e: AppEntry, q: Seq<char>) -> bool {
    ||| spec_matches_ci(e.name@, q)
    ||| match e.kind {
        AppEntryKind::Link { target_path, .. } => spec_matches_ci(target_path@, q),
        AppEntryKind::Command { command } => spec_matches_ci(command@, q),
        _ => false,
    }
}

/// Executable form of [`entry_matches`].
pub fn matches_entry(e: &AppEntry, q: &str) -> (r: bool)
    ensures
        r == entry_matches(*e, q@),
{
    if matches_ci(e.name.as_str(), q) {
        return true;
    }
    match &e.kind {
        AppEntryKind::Link { target_path, .. } => matches_ci(target_path.as_str(), q),
        AppEntryKind::Command { command } => matches_ci(command.as_str(), q),
        _ => false,
    }
}

/// The aggregation filtered down to the entries that match the query.
pub open spec fn spec_filtered(apps: Seq<AppEntry>, q: Seq<char>) -> Seq<AppEntry> {
    apps.filter(|e: AppEntry| entry_matches(e, q))
}

/// The suppression rule: the synthetic first entry is dropped when the
/// second entry's name is exactly the query, or when the query is a single
/// word and the mode is not Url — but never from a list shorter than two.
pub open spec fn spec_suppress_first(
    f: Seq<AppEntry>,
    q: Seq<char>,
    mode: StartAppsProviderMode,
) -> bool {
    f.len() >= 2 && (f[1].name@ == q || (!multi_word(q) && !(mode is Url)))
}

/// The candidate list in the search modes: the filtered aggregation, with
/// the synthetic first entry suppressed where the rule says so.
pub open spec fn spec_candidates(
    apps: Seq<AppEntry>,
    q: Seq<char>,
    mode: StartAppsProviderMode,
) -> Seq<AppEntry> {
    let f = spec_filtered(apps, q);
    if spec_suppress_first(f, q, mode) {
        f.drop_first()
    } else {
        f
    }
}

/// A synthetic command entry carrying exactly the text `q`.
pub open spec fn is_command_entry_for(e: AppEntry, q: Seq<char>) -> bool {
    &&& e.name@ == q
    &&& e.use_count == 0
    &&& e.last_use_time == 0
    &&& (e.kind matches AppEntryKind::Command { command } && command@ == q)
}

/// A directory-listing entry for the path `n`.
pub open spec fn is_listing_entry_for(e: AppEntry, n: Seq<char>) -> bool {
    &&& e.name@ == n
    &&& e.use_count == 0
    &&& e.last_use_time == 0
    &&& (e.kind matches AppEntryKind::Exe { path, params } && path@ == n && params@
        == Seq::<char>::empty())
}

/// Whether a listing entry matches the suffix: case-insensitive substring
/// against its file-name component.
pub open spec fn dir_entry_matches(e: AppEntry, suffix: Seq<char>) -> bool {
    spec_matches_ci(file_name_of(e.name@), suffix)
}

/// The view of an optional string, empty when absent.
pub open spec fn opt_str_view(o: Option<String>) -> Seq<char> {
    match o {
        Option::Some(s) => s@,
        Option::None => Seq::empty(),
    }
}

/// The catalog engine.
pub struct StartAppsProvider {
    /// The current query string.
    pub query: String,
    /// The aggregation: the synthetic query entry, then history entries in
    /// reverse store order, then the static catalog in file order.
    pub apps: Vec<AppEntry>,
    /// How many entries of `apps` after the first came from history.
    pub history_len: usize,
    /// The cached listing for `directory_listing_path`, once provided.
    pub directory_listing: Option<Vec<AppEntry>>,
    /// The resolved directory prefix the cache belongs to.
    pub directory_listing_path: Option<String>,
    /// The suffix of the current directory-mode query.
    pub dir_suffix: String,
    /// The current query mode.
    pub mode: StartAppsProviderMode,
    /// The usage table; mutated only by activation and removal.
    pub store: FrecencyStore,
}

impl StartAppsProvider {
    /// The engine's invariant: the synthetic entry heads the aggregation
    /// and carries the query, the history segment fits, the store keys are
    /// unique, and directory mode always has a resolved prefix.
    pub open spec fn wf(self) -> bool {
        &&& self.apps@.len() >= 1
        &&& self.apps@[0].name@ == self.query@
        &&& (self.apps@[0].kind matches AppEntryKind::Command { command } && command@
            == self.query@)
        &&& self.history_len + 1 <= self.apps@.len()
        &&& self.store.wf()
        &&& (self.mode is DirectoryListing ==> self.directory_listing_path is Some)
    }

    /// The synthetic entry standing for the raw query text.
    pub fn create_query_app() -> (r: AppEntry)
        ensures
            is_command_entry_for(r, Seq::<char>::empty()),
    {
        AppEntry {
            name: String::new(),
            use_count: 0,
            last_use_time: 0,
            kind: AppEntryKind::Command { command: String::new() },
        }
    }

    /// Build the engine from a store snapshot and the parsed static
    /// catalog files: the synthetic query entry first, then the history in
    /// reverse store order, then the files' entries in order.
    pub fn new(store: FrecencyStore, catalog_files: Vec<Vec<AppEntry>>) -> (r: Self)
        requires
            store.wf(),
        ensures
            r.wf(),
            r.query@ == Seq::<char>::empty(),
            r.mode is StartApps,
            r.store == store,
            r.history_len == store.records@.len(),
            r.directory_listing is None,
            r.directory_listing_path is None,
            is_command_entry_for(r.apps@[0], Seq::<char>::empty()),
            r.apps@.len() == 1 + store.records@.len() + catalog_files@.map_values(
                |v: Vec<AppEntry>| v@,
            ).flatten().len(),
            forall|i: int|
                0 <= i < store.records@.len() ==> #[trigger] r.apps@[1 + i]
                    == store.records@[store.records@.len() - 1 - i],
            r.apps@.skip(1 + store.records@.len() as int) == catalog_files@.map_values(
                |v: Vec<AppEntry>| v@,
            ).flatten(),
    {
        broadcast use vstd::seq_lib::group_seq_properties;

        let history = store.iterate();
        let hl = history.len();
        let mut apps: Vec<AppEntry> = Vec::new();
        apps.push(Self::create_query_app());
        let mut i: usize = hl;
        while i > 0
            invariant
                0 <= i <= hl,
                hl == history@.len(),
                apps@.len() == 1 + (hl - i),
                is_command_entry_for(apps@[0], Seq::<char>::empty()),
                forall|k: int|
                    0 <= k < hl - i ==> #[trigger] apps@[1 + k] == history@[hl - 1 - k],
            decreases i,
        {
            i = i - 1;
            apps.push(history[i].clone());
        }
        let ghost files_views = catalog_files@.map_values(|v: Vec<AppEntry>| v@);
        let ghost base = apps@;
        let mut k: usize = 0;
        while k < catalog_files.len()
            invariant
                0 <= k <= catalog_files@.len(),
                files_views == catalog_files@.map_values(|v: Vec<AppEntry>| v@),
                apps@ == base + files_views.take(k as int).flatten(),
            decreases catalog_files@.len() - k,
        {
            let ghost outer = apps@;
            let file = &catalog_files[k];
            let mut j: usize = 0;
            while j < file.len()
                invariant
                    0 <= j <= file@.len(),
                    apps@ == outer + file@.take(j as int),
                decreases file@.len() - j,
            {
                apps.push(file[j].clone());
                proof {
                    assert(apps@ =~= outer + file@.take(j + 1));
                }
                j = j + 1;
            }
            proof {
                assert(file@.take(file@.len() as int) =~= file@);
                assert(files_views.take(k + 1) =~= files_views.take(k as int).push(
                    files_views[k as int],
                ));
                files_views.take(k as int).lemma_flatten_push(files_views[k as int]);
                assert(apps@ =~= base + files_views.take(k + 1).flatten());
            }
            k = k + 1;
        }
        proof {
            assert(files_views.take(catalog_files@.len() as int) =~= files_views);
            assert(apps@.skip(1 + hl as int) =~= files_views.flatten());
        }
        StartAppsProvider {
            query: String::new(),
            apps,
            history_len: hl,
            directory_listing: None,
            directory_listing_path: None,
            dir_suffix: String::new(),
            mode: StartAppsProviderMode::StartApps,
            store,
        }
    }
}

/// Whether the cached prefix is exactly `prefix`.
pub open spec fn cache_hit(path: Option<String>, prefix: Seq<char>) -> bool {
    match path {
        Option::Some(p) => p@ == prefix,
        Option::None => false,
    }
}

/// What the directory-mode candidate list looks like: a lone synthetic
/// command entry when the suffix has several words; otherwise the cached
/// listing filtered by the suffix, headed by the resolved prefix itself
/// when the suffix is empty.
pub open spec fn spec_dir_candidates_ok(r: Seq<AppEntry>, s: StartAppsProvider) -> bool {
    if multi_word(s.dir_suffix@) {
        r.len() == 1 && is_command_entry_for(r[0], s.query@)
    } else {
        let base = match s.directory_listing {
            Option::Some(v) => v@,
            Option::None => Seq::<AppEntry>::empty(),
        };
        let f = base.filter(|e: AppEntry| dir_entry_matches(e, s.dir_suffix@));
        if s.dir_suffix@.len() == 0 {
            r.len() == 1 + f.len() && is_listing_entry_for(
                r[0],
                opt_str_view(s.directory_listing_path),
            ) && r.skip(1) == f
        } else {
            r == f
        }
    }
}

impl StartAppsProvider {
    /// Drop the directory-listing cache.
    fn clear_directory_listing(&mut self)
        ensures
            *final(self) == (StartAppsProvider {
                directory_listing: None,
                directory_listing_path: None,
                ..*old(self)
            }),
    {
        self.directory_listing = None;
        self.directory_listing_path = None;
    }

    /// Set the query: classify it, keep or invalidate the listing cache,
    /// and refresh the synthetic entry so it carries the new text.
    pub fn set_query(&mut self, query: String, probe: PathProbe)
        requires
            old(self).wf(),
        ensures
            final(self).wf(),
            final(self).query == query,
            final(self).mode == spec_classify(query@, probe),
            final(self).apps@.len() == old(self).apps@.len(),
            forall|i: int|
                1 <= i < old(self).apps@.len() ==> final(self).apps@[i] == old(self).apps@[i],
            final(self).apps@[0] == (AppEntry {
                name: query,
                use_count: old(self).apps@[0].use_count,
                last_use_time: old(self).apps@[0].last_use_time,
                kind: AppEntryKind::Command { command: query },
            }),
            final(self).history_len == old(self).history_len,
            final(self).store == old(self).store,
            (final(self).mode is DirectoryListing ==> {
                let prefix = spec_split_prefix(query@, probe.exists);
                &&& final(self).directory_listing_path is Some
                &&& opt_str_view(final(self).directory_listing_path) == prefix
                &&& final(self).dir_suffix@ == spec_split_suffix(query@, probe.exists)
                &&& (cache_hit(old(self).directory_listing_path, prefix)
                    ==> final(self).directory_listing == old(self).directory_listing
                        && final(self).directory_listing_path == old(self).directory_listing_path)
                &&& (!cache_hit(old(self).directory_listing_path, prefix)
                    ==> final(self).directory_listing is None)
            }),
            (final(self).mode is StartApps ==> final(self).directory_listing is None
                && final(self).directory_listing_path is None),
            (final(self).mode is Url ==> final(self).directory_listing == old(self).directory_listing
                && final(self).directory_listing_path == old(self).directory_listing_path),
    {
        self.query = query;
        let mode = classify_query(self.query.as_str(), probe);
        match mode {
            StartAppsProviderMode::DirectoryListing => {
                let ends = str_ends_with_sep(self.query.as_str());
                let (prefix, suffix) = if ends && probe.exists {
                    (self.query.clone(), String::new())
                } else {
                    (parent_string(self.query.as_str()), file_name_string(self.query.as_str()))
                };
                self.dir_suffix = suffix;
                let hit = match &self.directory_listing_path {
                    Some(p) => p.eq(&prefix),
                    None => false,
                };
                if !hit {
                    self.directory_listing = None;
                    self.directory_listing_path = Some(prefix);
                }
            },
            StartAppsProviderMode::StartApps => {
                self.clear_directory_listing();
            },
            StartAppsProviderMode::Url => {},
        }
        self.mode = mode;
        let synthetic = AppEntry {
            name: self.query.clone(),
            use_count: self.apps[0].use_count,
            last_use_time: self.apps[0].last_use_time,
            kind: AppEntryKind::Command { command: self.query.clone() },
        };
        self.apps[0] = synthetic;
    }

    /// The prefix whose listing the engine is waiting for: set exactly in
    /// directory mode while no listing has been provided yet.
    pub fn needs_listing(&self) -> (r: Option<String>)
        requires
            self.wf(),
        ensures
            match r {
                Some(p) => self.mode is DirectoryListing && self.directory_listing is None && p@
                    == opt_str_view(self.directory_listing_path),
                None => !(self.mode is DirectoryListing) || self.directory_listing is Some,
            },
    {
        if self.mode == StartAppsProviderMode::DirectoryListing && self.directory_listing.is_none()
        {
            match &self.directory_listing_path {
                Some(p) => Some(p.clone()),
                None => None,
            }
        } else {
            None
        }
    }

    /// Install the listing for the current resolved prefix: one entry per
    /// listed path, in the given order. A failed enumeration is passed in
    /// as an empty listing.
    pub fn provide_listing(&mut self, names: Vec<String>)
        requires
            old(self).wf(),
        ensures
            final(self).wf(),
            final(self).directory_listing matches Some(v) && v@.len() == names@.len() && (forall|
                i: int,
            |
                0 <= i < names@.len() ==> is_listing_entry_for(#[trigger] v@[i], names@[i]@)),
            *final(self) == (StartAppsProvider {
                directory_listing: final(self).directory_listing,
                ..*old(self)
            }),
    {
        let mut entries: Vec<AppEntry> = Vec::new();
        let mut i: usize = 0;
        while i < names.len()
            invariant
                0 <= i <= names@.len(),
                entries@.len() == i,
                forall|k: int|
                    0 <= k < i ==> is_listing_entry_for(#[trigger] entries@[k], names@[k]@),
            decreases names@.len() - i,
        {
            let n = names[i].clone();
            entries.push(
                AppEntry {
                    name: n.clone(),
                    use_count: 0,
                    last_use_time: 0,
                    kind: AppEntryKind::Exe { path: n, params: String::new() },
                },
            );
            i = i + 1;
        }
        self.directory_listing = Some(entries);
    }

    /// The candidates in directory mode.
    fn dir_items(&self) -> (r: Vec<AppEntry>)
        requires
            self.wf(),
            self.mode is DirectoryListing,
        ensures
            spec_dir_candidates_ok(r@, *self),
    {
        let ghost pred = |e: AppEntry| dir_entry_matches(e, self.dir_suffix@);
        if is_multi_word(self.dir_suffix.as_str()) {
            let e = AppEntry {
                name: self.query.clone(),
                use_count: 0,
                last_use_time: 0,
                kind: AppEntryKind::Command { command: self.query.clone() },
            };
            let mut out: Vec<AppEntry> = Vec::new();
            out.push(e);
            return out;
        }
        let mut out: Vec<AppEntry> = Vec::new();
        if self.dir_suffix.as_str().is_empty() {
            let p = match &self.directory_listing_path {
                Some(p) => p.clone(),
                None => {
                    proof {
                        assert(false);
                    }
                    String::new()
                },
            };
            out.push(
                AppEntry {
                    name: p.clone(),
                    use_count: 0,
                    last_use_time: 0,
                    kind: AppEntryKind::Exe { path: p, params: String::new() },
                },
            );
        }
        let ghost base_seq = out@;
        match &self.directory_listing {
            Some(v) => {
                let mut i: usize = 0;
                while i < v.len()
                    invariant
                        0 <= i <= v@.len(),
                        pred == (|e: AppEntry| dir_entry_matches(e, self.dir_suffix@)),
                        out@ == base_seq + v@.take(i as int).filter(pred),
                    decreases v@.len() - i,
                {
                    let fname = file_name_string(v[i].name.as_str());
                    proof {
                        assert(v@.take(i + 1) =~= v@.take(i as int).push(v@[i as int]));
                        v@.take(i as int).lemma_filter_push(v@[i as int], pred);
                    }
                    if matches_ci(fname.as_str(), self.dir_suffix.as_str()) {
                        out.push(v[i].clone());
                    }
                    i = i + 1;
                }
                proof {
                    assert(v@.take(v@.len() as int) =~= v@);
                    assert(out@.skip(base_seq.len() as int) =~= v@.filter(pred));
                }
            },
            None => {
                proof {
                    Seq::<AppEntry>::empty().lemma_filter_len(pred);
                    assert(Seq::<AppEntry>::empty().filter(pred) =~= Seq::<AppEntry>::empty());
                    assert(out@.skip(base_seq.len() as int) =~= Seq::<AppEntry>::empty());
                }
            },
        }
        out
    }
}

/// The matching rule as a predicate on entries, for a fixed query.
pub open spec fn match_pred(q: Seq<char>) -> spec_fn(AppEntry) -> bool {
    |e: AppEntry| entry_matches(e, q)
}

/// The matching rule as a predicate on positions in the aggregation.
pub open spec fn match_idx_pred(apps: Seq<AppEntry>, q: Seq<char>) -> spec_fn(int) -> bool {
    |i: int| entry_matches(apps[i], q)
}

/// The entry standing at a position of the aggregation.
pub open spec fn entry_at(apps: Seq<AppEntry>) -> spec_fn(int) -> AppEntry {
    |i: int| apps[i]
}

/// The positions of the aggregation whose entries match the query, in
/// order.
pub open spec fn spec_matching_indices(apps: Seq<AppEntry>, q: Seq<char>) -> Seq<int> {
    Seq::new(apps.len(), |i: int| i).filter(match_idx_pred(apps, q))
}

/// The positions behind [`spec_candidates`]: the matching positions, with
/// the first dropped where the suppression rule fires.
pub open spec fn spec_candidate_indices(
    apps: Seq<AppEntry>,
    q: Seq<char>,
    mode: StartAppsProviderMode,
) -> Seq<int> {
    if spec_suppress_first(spec_filtered(apps, q), q, mode) {
        spec_matching_indices(apps, q).drop_first()
    } else {
        spec_matching_indices(apps, q)
    }
}

proof fn lemma_matching_indices_prefix(apps: Seq<AppEntry>, q: Seq<char>, n: int)
    requires
        0 <= n <= apps.len(),
    ensures
        ({
            let idx = Seq::new(n as nat, |i: int| i).filter(match_idx_pred(apps, q));
            &&& idx.map_values(entry_at(apps)) == apps.subrange(0, n).filter(match_pred(q))
            &&& forall|k: int| 0 <= k < idx.len() ==> 0 <= #[trigger] idx[k] < n
        }),
    decreases n,
{
    let pi = match_idx_pred(apps, q);
    let pe = match_pred(q);
    if n == 0 {
        let positions = Seq::new(0, |i: int| i);
        let prefix = apps.subrange(0, 0);
        positions.lemma_filter_len(pi);
        prefix.lemma_filter_len(pe);
        assert(positions.filter(pi).map_values(entry_at(apps)) =~= prefix.filter(pe));
    } else {
        lemma_matching_indices_prefix(apps, q, n - 1);
        let positions = Seq::new((n - 1) as nat, |i: int| i);
        let idx = positions.filter(pi);
        let prefix = apps.subrange(0, n - 1);
        assert(Seq::new(n as nat, |i: int| i) =~= positions.push(n - 1));
        positions.lemma_filter_push(n - 1, pi);
        assert(apps.subrange(0, n) =~= prefix.push(apps[n - 1]));
        prefix.lemma_filter_push(apps[n - 1], pe);
        if pi(n - 1) {
            assert(idx.push(n - 1).map_values(entry_at(apps)) =~= idx.map_values(
                entry_at(apps),
            ).push(apps[n - 1]));
        }
    }
}

/// The matching positions name exactly the filtered entries, in order.
pub proof fn lemma_matching_indices(apps: Seq<AppEntry>, q: Seq<char>)
    ensures
        spec_matching_indices(apps, q).map_values(entry_at(apps)) == spec_filtered(apps, q),
        forall|k: int|
            0 <= k < spec_matching_indices(apps, q).len() ==> 0 <= #[trigger] spec_matching_indices(
                apps,
                q,
            )[k] < apps.len(),
{
    lemma_matching_indices_prefix(apps, q, apps.len() as int);
    assert(apps.subrange(0, apps.len() as int) =~= apps);
}

/// The candidate list is the candidate positions read through the
/// aggregation.
pub proof fn lemma_candidates_correspond(
    apps: Seq<AppEntry>,
    q: Seq<char>,
    mode: StartAppsProviderMode,
)
    ensures
        spec_candidates(apps, q, mode) == spec_candidate_indices(apps, q, mode).map_values(
            entry_at(apps),
        ),
        spec_candidates(apps, q, mode).len() == spec_candidate_indices(apps, q, mode).len(),
        forall|k: int|
            0 <= k < spec_candidate_indices(apps, q, mode).len() ==> 0
                <= #[trigger] spec_candidate_indices(apps, q, mode)[k] < apps.len(),
{
    lemma_matching_indices(apps, q);
    let midx = spec_matching_indices(apps, q);
    let f = spec_filtered(apps, q);
    if spec_suppress_first(f, q, mode) {
        assert(midx.drop_first().map_values(entry_at(apps)) =~= f.drop_first());
    }
}

impl StartAppsProvider {
    /// Whether the synthetic query entry is offered at all: only when the
    /// user is plausibly passing arguments (a multi-word query) or the
    /// query is a web address.
    pub fn should_show_query_app(&self) -> (r: bool)
        ensures
            r == (multi_word(self.query@) || self.mode is Url),
    {
        is_multi_word(self.query.as_str()) || self.mode == StartAppsProviderMode::Url
    }

    /// The aggregation positions of the current candidates, in order.
    fn candidate_indices(&self) -> (r: Vec<usize>)
        requires
            self.wf(),
            !(self.mode is DirectoryListing),
        ensures
            r@.map_values(|u: usize| u as int) == spec_candidate_indices(
                self.apps@,
                self.query@,
                self.mode,
            ),
            forall|k: int| 0 <= k < r@.len() ==> #[trigger] r@[k] < self.apps@.len(),
    {
        let ghost pi = match_idx_pred(self.apps@, self.query@);
        let mut idx: Vec<usize> = Vec::new();
        let mut i: usize = 0;
        while i < self.apps.len()
            invariant
                0 <= i <= self.apps@.len(),
                pi == match_idx_pred(self.apps@, self.query@),
                idx@.map_values(|u: usize| u as int) == Seq::new(i as nat, |k: int| k).filter(pi),
                forall|k: int| 0 <= k < idx@.len() ==> #[trigger] idx@[k] < i,
            decreases self.apps@.len() - i,
        {
            proof {
                assert(Seq::new((i + 1) as nat, |k: int| k) =~= Seq::new(i as nat, |k: int| k).push(
                    i as int,
                ));
                Seq::new(i as nat, |k: int| k).lemma_filter_push(i as int, pi);
            }
            let ghost prev = idx@.map_values(|u: usize| u as int);
            if matches_entry(&self.apps[i], self.query.as_str()) {
                idx.push(i);
                proof {
                    assert(idx@.map_values(|u: usize| u as int) =~= prev.push(i as int));
                }
            }
            i = i + 1;
        }
        proof {
            lemma_matching_indices(self.apps@, self.query@);
        }
        let ghost midx = spec_matching_indices(self.apps@, self.query@);
        let ghost f = spec_filtered(self.apps@, self.query@);
        proof {
            assert(midx == idx@.map_values(|u: usize| u as int));
            assert(f.len() == midx.len());
            if f.len() >= 2 {
                assert(f[1] == self.apps@[midx[1]]);
            }
        }
        if idx.len() >= 2 {
            let j1 = idx[1];
            let second_exact = self.apps[j1].exact_match(self.query.as_str());
            let suppress = second_exact || !self.should_show_query_app();
            proof {
                assert(suppress == spec_suppress_first(f, self.query@, self.mode));
            }
            if suppress {
                let ghost before = idx@.map_values(|u: usize| u as int);
                idx.remove(0);
                proof {
                    assert(idx@.map_values(|u: usize| u as int) =~= before.drop_first());
                }
            }
        }
        idx
    }

    /// The ordered candidate list for the current query: the exact objects
    /// the list view renders, and the indexing contract that `start` and
    /// `remove` resolve against.
    pub fn query_for_items(&self) -> (r: Vec<AppEntry>)
        requires
            self.wf(),
        ensures
            !(self.mode is DirectoryListing) ==> r@ == spec_candidates(
                self.apps@,
                self.query@,
                self.mode,
            ),
            self.mode is DirectoryListing ==> spec_dir_candidates_ok(r@, *self),
    {
        if self.mode == StartAppsProviderMode::DirectoryListing {
            return self.dir_items();
        }
        let idx = self.candidate_indices();
        let mut out: Vec<AppEntry> = Vec::new();
        let mut k: usize = 0;
        while k < idx.len()
            invariant
                0 <= k <= idx@.len(),
                out@.len() == k,
                forall|j: int| 0 <= j < idx@.len() ==> #[trigger] idx@[j] < self.apps@.len(),
                forall|j: int| 0 <= j < k ==> #[trigger] out@[j] == self.apps@[idx@[j] as int],
            decreases idx@.len() - k,
        {
            out.push(self.apps[idx[k]].clone());
            k = k + 1;
        }
        proof {
            lemma_candidates_correspond(self.apps@, self.query@, self.mode);
            assert(out@ =~= spec_candidates(self.apps@, self.query@, self.mode));
        }
        out
    }

    /// The display strings of the current candidates, in order.
    pub fn query_for_names(&self) -> (r: Vec<String>)
        requires
            self.wf(),
        ensures
            !(self.mode is DirectoryListing) ==> ({
                let items = spec_candidates(self.apps@, self.query@, self.mode);
                &&& r@.len() == items.len()
                &&& forall|i: int|
                    0 <= i < items.len() ==> #[trigger] r@[i]@ == spec_display_string(items[i])
            }),
            self.mode is DirectoryListing ==> exists|items: Seq<AppEntry>|
                #[trigger] spec_dir_candidates_ok(items, *self) && r@.len() == items.len() && (
                forall|i: int|
                    0 <= i < items.len() ==> #[trigger] r@[i]@ == spec_display_string(items[i])),
    {
        let items = self.query_for_items();
        let mut out: Vec<String> = Vec::new();
        let mut i: usize = 0;
        while i < items.len()
            invariant
                0 <= i <= items@.len(),
                out@.len() == i,
                forall|j: int|
                    0 <= j < i ==> #[trigger] out@[j]@ == spec_display_string(items@[j]),
            decreases items@.len() - i,
        {
            out.push(items[i].as_string());
            i = i + 1;
        }
        out
    }
}

/// What one activation hands back to the embedding: the resolved entry
/// for the external activator, the elevation flag, and the key and
/// encoded merge operand for the persistent store.
pub struct StartRequest {
    pub entry: AppEntry,
    pub elevated: bool,
    pub key: String,
    pub value: Vec<u8>,
}

impl StartAppsProvider {
    /// Resolve a candidate index against the current candidate list,
    /// record exactly one use event in the store, and hand back what the
    /// embedding forwards. An index with no candidate at that position
    /// resolves to a fresh command entry carrying the raw query text,
    /// without entering the aggregation.
    pub fn start(&mut self, filtered_index: usize, elevated: bool, now: u64) -> (r: StartRequest)
        requires
            old(self).wf(),
        ensures
            final(self).wf(),
            r.elevated == elevated,
            !(old(self).mode is DirectoryListing) ==> ({
                let items = spec_candidates(old(self).apps@, old(self).query@, old(self).mode);
                &&& (filtered_index < items.len() ==> r.entry == items[filtered_index as int])
                &&& (filtered_index >= items.len() ==> is_command_entry_for(
                    r.entry,
                    old(self).query@,
                ))
            }),
            old(self).mode is DirectoryListing ==> exists|items: Seq<AppEntry>|
                #[trigger] spec_dir_candidates_ok(items, *old(self)) && (filtered_index
                    < items.len() ==> r.entry == items[filtered_index as int]) && (filtered_index
                    >= items.len() ==> is_command_entry_for(r.entry, old(self).query@)),
            r.key == r.entry.name,
            ({
                let operand = (AppEntry {
                    name: r.entry.name,
                    use_count: 1u32,
                    last_use_time: now,
                    kind: r.entry.kind,
                });
                &&& r.value@ == spec_encode_entry(operand@)
                &&& (contains_name(old(self).store.records@, r.entry.name@) ==> final(self).store.records@ == old(self).store.records@.update(
                    index_of_name(old(self).store.records@, r.entry.name@),
                    bumped(
                        old(self).store.records@[index_of_name(
                            old(self).store.records@,
                            r.entry.name@,
                        )],
                    ),
                ))
                &&& (!contains_name(old(self).store.records@, r.entry.name@) ==> final(self).store.records@ == old(self).store.records@.push(operand))
            }),
            *final(self) == (StartAppsProvider { store: final(self).store, ..*old(self) }),
    {
        let items = self.query_for_items();
        proof {
            if self.mode is DirectoryListing {
                assert(spec_dir_candidates_ok(items@, *old(self)));
            }
        }
        let entry = if filtered_index < items.len() {
            items[filtered_index].clone()
        } else {
            AppEntry {
                name: self.query.clone(),
                use_count: 0,
                last_use_time: 0,
                kind: AppEntryKind::Command { command: self.query.clone() },
            }
        };
        let operand = AppEntry {
            name: entry.name.clone(),
            use_count: 1,
            last_use_time: now,
            kind: entry.kind.clone(),
        };
        let value = encode_entry(&operand);
        let key = entry.name.clone();
        self.store.merge(operand);
        StartRequest { entry, elevated, key, value }
    }

    /// Resolve a candidate index and remove it: the key leaves the store
    /// (a no-op when it is absent), the entry leaves the in-memory
    /// aggregation only when it came from history, and the key to delete
    /// from the persistent store is handed back. An index with no
    /// candidate removes nothing.
    pub fn remove(&mut self, filtered_index: usize) -> (r: Option<String>)
        requires
            old(self).wf(),
        ensures
            final(self).wf(),
            *final(self) == (StartAppsProvider {
                apps: final(self).apps,
                history_len: final(self).history_len,
                store: final(self).store,
                ..*old(self)
            }),
            !(old(self).mode is DirectoryListing) ==> ({
                let idxs = spec_candidate_indices(old(self).apps@, old(self).query@, old(self).mode);
                &&& (filtered_index >= idxs.len() ==> r is None && *final(self) == *old(self))
                &&& (filtered_index < idxs.len() ==> ({
                    let j = idxs[filtered_index as int];
                    let name = old(self).apps@[j].name@;
                    &&& (r matches Some(k) && k@ == name)
                    &&& (contains_name(old(self).store.records@, name) ==> final(self).store.records@ == old(self).store.records@.remove(
                        index_of_name(old(self).store.records@, name),
                    ))
                    &&& (!contains_name(old(self).store.records@, name) ==> final(self).store.records@ == old(self).store.records@)
                    &&& (1 <= j < 1 + old(self).history_len ==> final(self).apps@ == old(self).apps@.remove(j) && final(self).history_len == old(self).history_len - 1)
                    &&& (!(1 <= j < 1 + old(self).history_len) ==> final(self).apps@ == old(self).apps@ && final(self).history_len == old(self).history_len)
                }))
            }),
            old(self).mode is DirectoryListing ==> final(self).apps@ == old(self).apps@ && final(self).history_len == old(self).history_len && exists|items: Seq<AppEntry>|
                #[trigger] spec_dir_candidates_ok(items, *old(self)) && (filtered_index
                    >= items.len() ==> r is None && *final(self) == *old(self)) && (filtered_index
                    < items.len() ==> ({
                    let name = items[filtered_index as int].name@;
                    &&& (r matches Some(k) && k@ == name)
                    &&& (contains_name(old(self).store.records@, name) ==> final(self).store.records@ == old(self).store.records@.remove(
                        index_of_name(old(self).store.records@, name),
                    ))
                    &&& (!contains_name(old(self).store.records@, name) ==> final(self).store.records@ == old(self).store.records@)
                })),
    {
        if self.mode == StartAppsProviderMode::DirectoryListing {
            let items = self.dir_items();
            proof {
                assert(spec_dir_candidates_ok(items@, *old(self)));
            }
            if filtered_index >= items.len() {
                return None;
            }
            let name = items[filtered_index].name.clone();
            self.store.delete(name.as_str());
            return Some(name);
        }
        let idx = self.candidate_indices();
        if filtered_index >= idx.len() {
            return None;
        }
        let j = idx[filtered_index];
        let name = self.apps[j].name.clone();
        self.store.delete(name.as_str());
        if 1 <= j && j - 1 < self.history_len {
            self.apps.remove(j);
            self.history_len = self.history_len - 1;
        }
        Some(name)
    }
}

/// The substring-filter law: an entry stands in the filtered aggregation
/// exactly when it is in the aggregation and matches the query — the
/// lower-cased query occurs in its lower-cased name or secondary match
/// field. The final candidate list may further drop the synthetic first
/// entry, by [`spec_suppress_first`] alone.
pub proof fn lemma_substring_filter(apps: Seq<AppEntry>, q: Seq<char>, e: AppEntry)
    ensures
        spec_filtered(apps, q).contains(e) <==> apps.contains(e) && entry_matches(e, q),
{
    lemma_matching_indices(apps, q);
    let midx = spec_matching_indices(apps, q);
    let f = spec_filtered(apps, q);
    let positions = Seq::new(apps.len(), |i: int| i);
    if f.contains(e) {
        let k = choose|k: int| 0 <= k < f.len() && f[k] == e;
        assert(f[k] == midx.map_values(entry_at(apps))[k]);
        assert(e == apps[midx[k]]);
        positions.lemma_filter_pred(match_idx_pred(apps, q), k);
        assert(entry_matches(e, q));
        assert(apps.contains(e));
    }
    if apps.contains(e) && entry_matches(e, q) {
        let i = choose|i: int| 0 <= i < apps.len() && apps[i] == e;
        positions.lemma_filter_contains(match_idx_pred(apps, q), i);
        assert(midx.contains(i));
        let k = choose|k: int| 0 <= k < midx.len() && midx[k] == i;
        assert(f[k] == midx.map_values(entry_at(apps))[k]);
        assert(f.contains(e));
    }
}

/// The substring-filter law at the final candidate list: everything the
/// list shows stands in the aggregation and matches the query, and every
/// matching entry is shown unless it is the suppressed head of the
/// filtered list (the synthetic query entry, when the suppression rule
/// fires).
pub proof fn lemma_candidates_match(
    apps: Seq<AppEntry>,
    q: Seq<char>,
    mode: StartAppsProviderMode,
    e: AppEntry,
)
    ensures
        spec_candidates(apps, q, mode).contains(e) ==> apps.contains(e) && entry_matches(e, q),
        apps.contains(e) && entry_matches(e, q) ==> spec_candidates(apps, q, mode).contains(e)
            || e == spec_filtered(apps, q)[0],
{
    let c = spec_candidates(apps, q, mode);
    let f = spec_filtered(apps, q);
    if c.contains(e) {
        if spec_suppress_first(f, q, mode) {
            let k = choose|k: int| 0 <= k < c.len() && c[k] == e;
            assert(f[k + 1] == e);
            assert(f.contains(e));
        }
        lemma_substring_filter(apps, q, e);
    }
    if apps.contains(e) && entry_matches(e, q) {
        lemma_substring_filter(apps, q, e);
        let k = choose|k: int| 0 <= k < f.len() && f[k] == e;
        if spec_suppress_first(f, q, mode) {
            if k > 0 {
                assert(c[k - 1] == e);
                assert(c.contains(e));
            }
        } else {
            assert(c.contains(e));
        }
    }
}

/// The removal law, store side: after its key is deleted, the store no
/// longer contains a record under that key.
pub proof fn lemma_delete_clears_key(s: Seq<AppEntry>, name: Seq<char>)
    requires
        unique_names(s),
        contains_name(s, name),
    ensures
        !contains_name(s.remove(index_of_name(s, name)), name),
{
    let j = index_of_name(s, name);
    assert(0 <= j < s.len() && s[j].name@ == name);
    let t = s.remove(j);
    assert forall|k: int| 0 <= k < t.len() implies t[k].name@ != name by {
        if k < j {
            assert(t[k] == s[k]);
        } else {
            assert(t[k] == s[k + 1]);
        }
    }
}

/// The removal law, reload side: a rebuilt engine takes its history
/// entries from the store alone, so a key absent from the store stands in
/// no history position of the aggregation. The hypotheses are exactly
/// what [`StartAppsProvider::new`] ensures of a fresh engine.
pub proof fn lemma_reload_omits_removed(
    engine: StartAppsProvider,
    store: FrecencyStore,
    name: Seq<char>,
)
    requires
        !contains_name(store.records@, name),
        engine.history_len == store.records@.len(),
        1 + engine.history_len <= engine.apps@.len(),
        forall|i: int|
            0 <= i < store.records@.len() ==> #[trigger] engine.apps@[1 + i]
                == store.records@[store.records@.len() - 1 - i],
    ensures
        forall|i: int|
            1 <= i < 1 + engine.history_len ==> #[trigger] engine.apps@[i].name@ != name,
{
    assert forall|i: int|
        1 <= i < 1 + engine.history_len implies #[trigger] engine.apps@[i].name@ != name by {
        let hl = store.records@.len() as int;
        assert(engine.apps@[1 + (i - 1)] == store.records@[hl - 1 - (i - 1)]);
        assert(store.records@[hl - i].name@ != name);
    }
}

impl ListContentProvider for StartAppsProvider {
    type Item = AppEntry;

    open spec fn inv(&self) -> bool {
        self.wf()
    }

    fn query_for_items(&self) -> Vec<AppEntry> {
        StartAppsProvider::query_for_items(self)
    }

    fn query_for_names(&self) -> Vec<String> {
        StartAppsProvider::query_for_names(self)
    }
}

} // verus!

