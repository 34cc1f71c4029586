use vstd::prelude::*;
use crate::clock::unix_now;
use crate::picker::InputPosition;
use crate::paths::{join_path, join_spec};
use crate::text::{clone_strings, position_of, texts};
use std::collections::HashMap;

verus! {

/// Depth given to the entries of the older `search_paths` option.
pub const LEGACY_SEARCH_DEPTH: usize = 10;

/// Why a configuration cannot be used.
#[derive(Debug, Clone, Copy, PartialEq, Eq, Structural)]
pub enum ConfigError {
    NoDefaultSearchPath,
    NoValidSearchPath,
    LoadError,
    TomlError,
    FileWriteError,
    IoError,
}

impl ConfigError {
    /// The one-line text under which the error is reported.
    pub fn message(&self) -> (text: String)
        ensures
            text@ == self.message_spec(),
    {
        match self {
            ConfigError::NoDefaultSearchPath => "No default search path was found".to_string(),
            ConfigError::NoValidSearchPath => "No valid search path was found".to_string(),
            ConfigError::TomlError => "Could not serialize config to TOML".to_string(),
            ConfigError::FileWriteError => "Could not write to config file".to_string(),
            ConfigError::LoadError => "Could not load configuration".to_string(),
            ConfigError::IoError => "IO error".to_string(),
        }
    }

    pub open spec fn message_spec(&self) -> Seq<char> {
        match self {
            ConfigError::NoDefaultSearchPath => "No default search path was found"@,
            ConfigError::NoValidSearchPath => "No valid search path was found"@,
            ConfigError::TomlError => "Could not serialize config to TOML"@,
            ConfigError::FileWriteError => "Could not write to config file"@,
            ConfigError::LoadError => "Could not load configuration"@,
            ConfigError::IoError => "IO error"@,
        }
    }
}

/// A directory to search, with the number of levels below it that may be entered.
#[derive(Default, Debug, PartialEq, Eq, Clone)]
pub struct SearchDirectory {
    pub path: String,
    pub depth: usize,
}

/// What a `SearchDirectory` stands for: a path as text and a depth budget.
pub ghost struct SearchRoot {
    pub path: Seq<char>,
    pub depth: nat,
}

impl View for SearchDirectory {
    type V = SearchRoot;

    open spec fn view(&self) -> SearchRoot {
        SearchRoot { path: self.path@, depth: self.depth as nat }
    }
}

impl SearchDirectory {
    pub fn new(path: String, depth: usize) -> (dir: SearchDirectory)
        ensures
            dir.path == path,
            dir.depth == depth,
    {
        SearchDirectory { path, depth }
    }

    /// A copy with the same path and depth.
    pub fn duplicate(&self) -> (copy: SearchDirectory)
        ensures
            copy@ == self@,
            copy == *self,
    {
        SearchDirectory { path: self.path.clone(), depth: self.depth }
    }
}

/// The search roots that a list of directories stands for, in order.
pub open spec fn roots_of(dirs: Seq<SearchDirectory>) -> Seq<SearchRoot> {
    dirs.map_values(|d: SearchDirectory| d@)
}

/// The paths of `entries`, each once, in the order of first occurrence.
pub open spec fn distinct_paths(entries: Seq<SearchRoot>) -> Seq<Seq<char>>
    decreases entries.len(),
{
    if entries.len() == 0 {
        seq![]
    } else {
        let init = distinct_paths(entries.drop_last());
        if init.contains(entries.last().path) {
            init
        } else {
            init.push(entries.last().path)
        }
    }
}

/// The greatest depth that `entries` gives for `path`; zero where it has none.
pub open spec fn max_depth(entries: Seq<SearchRoot>, path: Seq<char>) -> nat
    decreases entries.len(),
{
    if entries.len() == 0 {
        0
    } else {
        let rest = max_depth(entries.drop_last(), path);
        let last = entries.last();
        if last.path == path && last.depth > rest {
            last.depth
        } else {
            rest
        }
    }
}

/// `entries` with duplicates of a path merged into one root that has the greatest of
/// their depths; roots stay in the order in which their paths first occur.
pub open spec fn coalesce(entries: Seq<SearchRoot>) -> Seq<SearchRoot> {
    let paths = distinct_paths(entries);
    Seq::new(paths.len(), |i: int| SearchRoot { path: paths[i], depth: max_depth(entries, paths[i]) })
}

/// How many roots of `roots` have the path `path`.
pub open spec fn count_path(roots: Seq<SearchRoot>, path: Seq<char>) -> nat
    decreases roots.len(),
{
    if roots.len() == 0 {
        0
    } else {
        count_path(roots.drop_last(), path) + if roots.last().path == path {
            1nat
        } else {
            0nat
        }
    }
}

/// `entries` names `path` at least once.
pub open spec fn mentions(entries: Seq<SearchRoot>, path: Seq<char>) -> bool {
    exists|i: int| 0 <= i < entries.len() && #[trigger] entries[i].path == path
}

pub proof fn lemma_distinct_paths(entries: Seq<SearchRoot>)
    ensures
        distinct_paths(entries).no_duplicates(),
        forall|p: Seq<char>| #[trigger] distinct_paths(entries).contains(p) <==> mentions(entries, p),
    decreases entries.len(),
{
    if entries.len() > 0 {
        let init_entries = entries.drop_last();
        let init = distinct_paths(init_entries);
        let last = entries.last().path;
        lemma_distinct_paths(init_entries);
        let all = distinct_paths(entries);
        assert forall|p: Seq<char>| #[trigger] all.contains(p) <==> mentions(entries, p) by {
            if all.contains(p) {
                if init.contains(p) {
                    let i = choose|i: int| 0 <= i < init_entries.len() && #[trigger] init_entries[i].path == p;
                    assert(entries[i].path == p);
                } else {
                    assert(entries[entries.len() - 1].path == p);
                }
            }
            if mentions(entries, p) {
                let i = choose|i: int| 0 <= i < entries.len() && #[trigger] entries[i].path == p;
                if i < entries.len() - 1 {
                    assert(init_entries[i].path == p);
                    assert(init.contains(p));
                    if !init.contains(last) {
                        let k = choose|k: int| 0 <= k < init.len() && init[k] == p;
                        assert(all[k] == p);
                    }
                } else {
                    if !init.contains(last) {
                        assert(all[all.len() - 1] == p);
                    }
                }
            }
        }
    } else {
        assert forall|p: Seq<char>| #[trigger] distinct_paths(entries).contains(p) <==> mentions(entries, p) by {}
    }
}

pub proof fn lemma_max_depth(entries: Seq<SearchRoot>, path: Seq<char>)
    ensures
        forall|i: int| 0 <= i < entries.len() && #[trigger] entries[i].path == path ==> entries[i].depth <= max_depth(entries, path),
        mentions(entries, path) ==> exists|i: int| 0 <= i < entries.len() && #[trigger] entries[i].path == path && entries[i].depth == max_depth(entries, path),
    decreases entries.len(),
{
    if entries.len() > 0 {
        let init = entries.drop_last();
        lemma_max_depth(init, path);
        let last = entries.last();
        assert forall|i: int| 0 <= i < entries.len() && #[trigger] entries[i].path == path implies entries[i].depth <= max_depth(entries, path) by {
            if i < entries.len() - 1 {
                assert(init[i].path == path);
            }
        }
        if mentions(entries, path) {
            if last.path == path && last.depth > max_depth(init, path) {
                assert(entries[entries.len() - 1].path == path);
            } else if mentions(init, path) {
                let i = choose|i: int| 0 <= i < init.len() && #[trigger] init[i].path == path && init[i].depth == max_depth(init, path);
                assert(entries[i].path == path);
            } else {
                let i = choose|i: int| 0 <= i < entries.len() && #[trigger] entries[i].path == path;
                if i < entries.len() - 1 {
                    assert(init[i].path == path);
                }
                assert(max_depth(init, path) == 0) by {
                    lemma_max_depth_unmentioned(init, path);
                }
                assert(entries[entries.len() - 1].path == path);
            }
        }
    }
}

proof fn lemma_max_depth_unmentioned(entries: Seq<SearchRoot>, path: Seq<char>)
    requires
        !mentions(entries, path),
    ensures
        max_depth(entries, path) == 0,
    decreases entries.len(),
{
    if entries.len() > 0 {
        let init = entries.drop_last();
        assert(entries[entries.len() - 1].path != path);
        assert forall|i: int| 0 <= i < init.len() implies #[trigger] init[i].path != path by {
            assert(entries[i].path != path);
        }
        lemma_max_depth_unmentioned(init, path);
    }
}

proof fn lemma_count_path_by_index(roots: Seq<SearchRoot>, path: Seq<char>, k: int)
    requires
        0 <= k < roots.len(),
        roots[k].path == path,
        forall|i: int| 0 <= i < roots.len() && i != k ==> #[trigger] roots[i].path != path,
    ensures
        count_path(roots, path) == 1,
    decreases roots.len(),
{
    let init = roots.drop_last();
    if k == roots.len() - 1 {
        lemma_count_path_absent(init, path);
    } else {
        assert(roots[roots.len() - 1].path != path);
        lemma_count_path_by_index(init, path, k);
    }
}

proof fn lemma_count_path_absent(roots: Seq<SearchRoot>, path: Seq<char>)
    requires
        forall|i: int| 0 <= i < roots.len() ==> #[trigger] roots[i].path != path,
    ensures
        count_path(roots, path) == 0,
    decreases roots.len(),
{
    if roots.len() > 0 {
        assert(roots[roots.len() - 1].path != path);
        lemma_count_path_absent(roots.drop_last(), path);
    }
}

/// Coalescing leaves exactly one root for every path that the entries name, with the
/// greatest depth that any of them gives it, and no root for any other path.
pub proof fn lemma_coalesce_one_root_with_max_depth(entries: Seq<SearchRoot>, path: Seq<char>)
    ensures
        mentions(entries, path) ==> count_path(coalesce(entries), path) == 1,
        !mentions(entries, path) ==> count_path(coalesce(entries), path) == 0,
        forall|i: int| 0 <= i < coalesce(entries).len() && #[trigger] coalesce(entries)[i].path == path
            ==> coalesce(entries)[i].depth == max_depth(entries, path),
        forall|i: int| 0 <= i < entries.len() && #[trigger] entries[i].path == path ==> entries[i].depth <= max_depth(entries, path),
{
    let paths = distinct_paths(entries);
    let roots = coalesce(entries);
    lemma_distinct_paths(entries);
    lemma_max_depth(entries, path);
    if mentions(entries, path) {
        assert(paths.contains(path));
        let k = choose|k: int| 0 <= k < paths.len() && paths[k] == path;
        assert forall|i: int| 0 <= i < roots.len() && i != k implies #[trigger] roots[i].path != path by {
            assert(paths[i] != paths[k]);
        }
        lemma_count_path_by_index(roots, path, k);
    } else {
        assert forall|i: int| 0 <= i < roots.len() implies #[trigger] roots[i].path != path by {
            assert(paths.contains(paths[i]));
        }
        lemma_count_path_absent(roots, path);
    }
}

/// Three entries for one path with growing depths coalesce, whatever else the
/// configuration holds and wherever they stand in it, into a single root for that path
/// with the greatest of the three depths, provided no other entry for the path is deeper.
pub proof fn lemma_duplicate_roots_coalesce(
    entries: Seq<SearchRoot>,
    path: Seq<char>,
    a: int,
    b: int,
    c: int,
)
    requires
        0 <= a < entries.len(),
        0 <= b < entries.len(),
        0 <= c < entries.len(),
        entries[a].path == path,
        entries[b].path == path,
        entries[c].path == path,
        entries[a].depth < entries[b].depth < entries[c].depth,
        forall|i: int| 0 <= i < entries.len() && #[trigger] entries[i].path == path ==> entries[i].depth <= entries[c].depth,
    ensures
        count_path(coalesce(entries), path) == 1,
        forall|i: int| 0 <= i < coalesce(entries).len() && #[trigger] coalesce(entries)[i].path == path
            ==> coalesce(entries)[i].depth == entries[c].depth,
{
    lemma_coalesce_one_root_with_max_depth(entries, path);
    lemma_max_depth(entries, path);
    assert(mentions(entries, path));
}

/// The first position in `dirs` whose path is `path`.
pub fn find_path(dirs: &Vec<SearchDirectory>, path: &str) -> (found: Option<usize>)
    ensures
        match found {
            Some(j) => j < dirs.len() && dirs[j as int].path@ == path@ && forall|i: int|
                0 <= i < j ==> (#[trigger] dirs[i]).path@ != path@,
            None => forall|i: int| 0 <= i < dirs.len() ==> (#[trigger] dirs[i]).path@ != path@,
        },
{
    let mut i: usize = 0;
    while i < dirs.len()
        invariant
            i <= dirs.len(),
            forall|k: int| 0 <= k < i ==> (#[trigger] dirs[k]).path@ != path@,
        decreases dirs.len() - i,
    {
        if *dirs[i].path.as_str() == *path {
            return Some(i);
        }
        i += 1;
    }
    None
}

/// Merges entries that name the same path, keeping for each path the greatest depth.
pub fn coalesce_search_dirs(entries: &Vec<SearchDirectory>) -> (merged: Vec<SearchDirectory>)
    ensures
        roots_of(merged@) == coalesce(roots_of(entries@)),
{
    let ghost all = roots_of(entries@);
    let mut merged: Vec<SearchDirectory> = Vec::new();
    let mut i: usize = 0;
    while i < entries.len()
        invariant
            i <= entries.len(),
            all == roots_of(entries@),
            roots_of(merged@) =~= coalesce(all.take(i as int)),
        decreases entries.len() - i,
    {
        let ghost before = all.take(i as int);
        let ghost after = all.take(i + 1);
        let ghost paths = distinct_paths(before);
        let ghost entry = entries[i as int]@;
        proof {
            assert(after.drop_last() =~= before);
            assert(after.last() == entry);
            lemma_distinct_paths(before);
            assert(roots_of(merged@).len() == merged.len());
            assert(coalesce(before).len() == paths.len());
            assert forall|k: int| 0 <= k < merged.len() implies (#[trigger] merged[k]).path@
                == paths[k] by {
                assert(roots_of(merged@)[k] == coalesce(before)[k]);
            }
        }
        match find_path(&merged, entries[i].path.as_str()) {
            Some(j) => {
                proof {
                    assert(paths[j as int] == entry.path);
                    assert(paths.contains(entry.path));
                    assert(coalesce(before)[j as int].depth == merged[j as int].depth);
                }
                if entries[i].depth > merged[j].depth {
                    let replacement = entries[i].duplicate();
                    merged.set(j, replacement);
                }
                proof {
                    assert forall|k: int| 0 <= k < paths.len() implies (#[trigger] roots_of(
                        merged@,
                    )[k]) == coalesce(after)[k] by {
                        if k != j {
                            assert(paths[k] != paths[j as int]);
                            assert(roots_of(merged@)[k] == coalesce(before)[k]);
                        }
                    }
                }
            },
            None => {
                proof {
                    if paths.contains(entry.path) {
                        let k = choose|k: int| 0 <= k < paths.len() && paths[k] == entry.path;
                        assert(merged[k].path@ == entry.path);
                    }
                    assert(!mentions(before, entry.path));
                    lemma_max_depth_unmentioned(before, entry.path);
                }
                merged.push(entries[i].duplicate());
                proof {
                    assert forall|k: int| 0 <= k < paths.len() + 1 implies (#[trigger] roots_of(
                        merged@,
                    )[k]) == coalesce(after)[k] by {
                        if k < paths.len() {
                            assert(paths.contains(paths[k]));
                            assert(roots_of(merged@)[k] == coalesce(before)[k]);
                        }
                    }
                }
            },
        }
        i += 1;
    }
    assert(all.take(entries.len() as int) =~= all);
    merged
}

/// The version-control systems that a directory may be probed for.
#[derive(Copy, Clone, Debug, PartialEq, Eq, Structural)]
pub enum VcsProviders {
    Git,
    Jujutsu,
}

/// The providers tried where the configuration names none.
pub fn default_vcs_providers() -> (providers: Vec<VcsProviders>)
    ensures
        providers@ == seq![VcsProviders::Git],
{
    vec![VcsProviders::Git]
}

/// The order in which sessions are listed.
#[derive(Copy, Clone, Debug, PartialEq, Eq, Structural)]
pub enum SessionSortOrderConfig {
    Alphabetical,
    LastAttached,
    Frecency,
}

impl Default for SessionSortOrderConfig {
    fn default() -> (order: SessionSortOrderConfig)
        ensures
            order == SessionSortOrderConfig::Alphabetical,
    {
        SessionSortOrderConfig::Alphabetical
    }
}

impl SessionSortOrderConfig {
    /// The name under which the variant is given on the command line.
    pub fn name(&self) -> (name: &'static str)
        ensures
            name@ == match self {
                SessionSortOrderConfig::Alphabetical => "Alphabetical"@,
                SessionSortOrderConfig::LastAttached => "LastAttached"@,
                SessionSortOrderConfig::Frecency => "Frecency"@,
            },
    {
        match self {
            SessionSortOrderConfig::Alphabetical => "Alphabetical",
            SessionSortOrderConfig::LastAttached => "LastAttached",
            SessionSortOrderConfig::Frecency => "Frecency",
        }
    }
}

/// Whether to switch to a repository after cloning it.
#[derive(Copy, Clone, Debug, PartialEq, Eq, Structural)]
pub enum CloneRepoSwitchConfig {
    Always,
    Never,
    Foreground,
}

impl Default for CloneRepoSwitchConfig {
    fn default() -> (choice: CloneRepoSwitchConfig)
        ensures
            choice == CloneRepoSwitchConfig::Always,
    {
        CloneRepoSwitchConfig::Always
    }
}

impl CloneRepoSwitchConfig {
    /// The name under which the variant is given on the command line.
    pub fn name(&self) -> (name: &'static str)
        ensures
            name@ == match self {
                CloneRepoSwitchConfig::Always => "Always"@,
                CloneRepoSwitchConfig::Never => "Never"@,
                CloneRepoSwitchConfig::Foreground => "Foreground"@,
            },
    {
        match self {
            CloneRepoSwitchConfig::Always => "Always",
            CloneRepoSwitchConfig::Never => "Never",
            CloneRepoSwitchConfig::Foreground => "Foreground",
        }
    }
}

/// A session that the configuration declares.
#[derive(Default, Debug, PartialEq, Eq, Clone)]
pub struct Session {
    pub name: Option<String>,
    pub path: Option<String>,
    pub windows: Option<Vec<Window>>,
}

/// A window of a declared session.
#[derive(Default, Debug, PartialEq, Eq, Clone)]
pub struct Window {
    pub name: Option<String>,
    pub path: Option<String>,
    pub panes: Option<Vec<Pane>>,
    pub command: Option<String>,
}

/// A pane of a declared window.
#[derive(Default, Debug, PartialEq, Eq, Clone, Copy)]
pub struct Pane {}

/// What is run when a session is created.
#[derive(Debug, Clone, PartialEq, Eq)]
pub struct SessionConfig {
    pub create_script: Option<String>,
}

/// How a remote repository is cloned.
#[derive(Debug, Clone, Copy, PartialEq, Eq, Structural)]
pub enum GitHubCloneMethod {
    SSH,
    HTTPS,
}

impl Default for GitHubCloneMethod {
    fn default() -> (method: GitHubCloneMethod)
        ensures
            method == GitHubCloneMethod::SSH,
    {
        GitHubCloneMethod::SSH
    }
}

/// A remote account: where its credential comes from and where its clones go.
#[derive(Debug, Clone, PartialEq, Eq)]
pub struct GitHubProfile {
    pub name: String,
    pub credentials_command: String,
    pub clone_root_path: String,
    pub clone_method: Option<GitHubCloneMethod>,
}

impl GitHubProfile {
    /// A copy with the same fields.
    pub fn duplicate(&self) -> (copy: GitHubProfile)
        ensures
            copy == *self,
    {
        GitHubProfile {
            name: self.name.clone(),
            credentials_command: self.credentials_command.clone(),
            clone_root_path: self.clone_root_path.clone(),
            clone_method: self.clone_method,
        }
    }
}

/// A repository of a remote catalogue, with both of its clone endpoints.
#[derive(Debug, Clone, PartialEq, Eq)]
pub struct GitHubRepo {
    pub name: String,
    pub full_name: String,
    pub clone_url_ssh: String,
    pub clone_url_https: String,
    pub description: Option<String>,
    pub updated_at: String,
}

/// The catalogue of one remote profile as it is kept between runs.
#[derive(Debug, Clone, PartialEq, Eq)]
pub struct GitHubRepoCache {
    pub profile_name: String,
    pub repositories: Vec<GitHubRepo>,
    pub cached_at: u64,
}

/// The kind of a session in the local scan snapshot.
#[derive(Debug, Clone, Copy, PartialEq, Eq, Structural)]
pub enum LocalSessionType {
    Git,
    Jujutsu,
    Bookmark,
}

/// One session of the local scan snapshot.
#[derive(Debug, Clone, PartialEq, Eq)]
pub struct LocalCachedSession {
    pub name: String,
    pub path: String,
    pub session_type: LocalSessionType,
}

/// The local scan as it is kept between runs, with the configuration it was made under.
#[derive(Debug, Clone, PartialEq, Eq)]
pub struct LocalRepoCache {
    pub search_dirs: Vec<SearchDirectory>,
    pub sessions: Vec<LocalCachedSession>,
    pub bookmarks: Vec<String>,
    pub cached_at: u64,
}

/// The time after which an access counts for little: one week, in seconds.
pub const HALF_LIFE_SECONDS: u64 = 604800;

/// How often and when a session was selected.
#[derive(Debug, Clone, Copy, PartialEq, Eq, Structural)]
pub struct SessionFrecencyData {
    pub access_count: u32,
    pub last_accessed: u64,
    pub first_accessed: u64,
}

impl SessionFrecencyData {
    /// The record of a session first selected at `now`.
    pub open spec fn first_access(now: u64) -> SessionFrecencyData {
        SessionFrecencyData { access_count: 1, last_accessed: now, first_accessed: now }
    }

    /// The record after one more selection at `now`.
    pub open spec fn next_access(self, now: u64) -> SessionFrecencyData {
        SessionFrecencyData {
            access_count: (self.access_count + 1) as u32,
            last_accessed: now,
            first_accessed: self.first_accessed,
        }
    }

    /// The first access is not later than the last one. So it is as long as the clock
    /// does not go back behind the first access.
    pub open spec fn is_ordered(self) -> bool {
        self.first_accessed <= self.last_accessed
    }

    /// Seconds between the last access and `now`; zero where `now` is the earlier.
    pub open spec fn age_spec(self, now: u64) -> nat {
        if now > self.last_accessed {
            (now - self.last_accessed) as nat
        } else {
            0
        }
    }

    /// The record of a session first selected at `now`.
    pub fn at(now: u64) -> (data: SessionFrecencyData)
        ensures
            data == Self::first_access(now),
            data.is_ordered(),
    {
        SessionFrecencyData { access_count: 1, last_accessed: now, first_accessed: now }
    }

    /// The record of a session first selected at this moment, whatever the clock gives
    /// for it.
    pub fn new() -> (data: SessionFrecencyData)
        ensures
            data.access_count == 1,
            data.first_accessed == data.last_accessed,
            data == Self::first_access(data.last_accessed),
    {
        Self::at(unix_now())
    }

    /// Counts one more selection, made at `now`.
    pub fn record_access_at(&mut self, now: u64)
        requires
            old(self).access_count < u32::MAX,
        ensures
            *final(self) == old(self).next_access(now),
            now >= old(self).first_accessed ==> final(self).is_ordered(),
    {
        self.access_count += 1;
        self.last_accessed = now;
    }

    /// Counts one more selection, made at this moment, whatever the clock gives for it.
    pub fn update_access(&mut self)
        requires
            old(self).access_count < u32::MAX,
        ensures
            final(self).access_count == old(self).access_count + 1,
            final(self).first_accessed == old(self).first_accessed,
            *final(self) == old(self).next_access(final(self).last_accessed),
    {
        self.record_access_at(unix_now());
    }

    /// Seconds since the last access as seen at `now`, never negative.
    pub fn age_at(&self, now: u64) -> (age: u64)
        ensures
            age == self.age_spec(now),
    {
        now.saturating_sub(self.last_accessed)
    }
}

impl Default for SessionFrecencyData {
    fn default() -> (data: SessionFrecencyData)
        ensures
            data.access_count == 1,
            data.first_accessed == data.last_accessed,
    {
        SessionFrecencyData::new()
    }
}

/// The frecency record of one session name.
#[derive(Debug, Clone, PartialEq, Eq)]
pub struct FrecencyEntry {
    pub name: String,
    pub data: SessionFrecencyData,
}

/// The names of `entries`, in order.
pub open spec fn entry_names(entries: Seq<FrecencyEntry>) -> Seq<Seq<char>> {
    entries.map_values(|e: FrecencyEntry| e.name@)
}

/// The table that `entries` stands for: each name with its record.
pub open spec fn entries_as_map(entries: Seq<FrecencyEntry>) -> Map<Seq<char>, SessionFrecencyData>
    decreases entries.len(),
{
    if entries.len() == 0 {
        Map::empty()
    } else {
        entries_as_map(entries.drop_last()).insert(entries.last().name@, entries.last().data)
    }
}

proof fn lemma_entries_as_map_dom(entries: Seq<FrecencyEntry>)
    ensures
        forall|name: Seq<char>| #[trigger] entries_as_map(entries).dom().contains(name) <==> entry_names(entries).contains(name),
    decreases entries.len(),
{
    let names = entry_names(entries);
    if entries.len() > 0 {
        let init = entries.drop_last();
        let last = entries.last().name@;
        lemma_entries_as_map_dom(init);
        assert(names[entries.len() - 1] == last);
        let whole = entries_as_map(entries);
        assert(whole == entries_as_map(init).insert(last, entries.last().data));
        assert forall|name: Seq<char>| #[trigger] whole.dom().contains(name) <==> names.contains(name) by {
            if names.contains(name) {
                let i = choose|i: int| 0 <= i < names.len() && names[i] == name;
                if i < init.len() {
                    assert(entry_names(init)[i] == name);
                    assert(entry_names(init).contains(name));
                    assert(entries_as_map(init).dom().contains(name));
                }
                assert(whole.dom().contains(name));
            }
            if whole.dom().contains(name) {
                if name != last {
                    assert(entries_as_map(init).dom().contains(name));
                    assert(entry_names(init).contains(name));
                    let i = choose|i: int| 0 <= i < entry_names(init).len() && entry_names(init)[i] == name;
                    assert(names[i] == name);
                }
                assert(names.contains(name));
            }
        }
    } else {
        assert forall|name: Seq<char>| #[trigger] entries_as_map(entries).dom().contains(name) <==> names.contains(name) by {}
    }
}

proof fn lemma_entries_as_map_update(entries: Seq<FrecencyEntry>, j: int, entry: FrecencyEntry)
    requires
        0 <= j < entries.len(),
        entry.name@ == entries[j].name@,
        entry_names(entries).no_duplicates(),
    ensures
        entries_as_map(entries.update(j, entry)) == entries_as_map(entries).insert(entry.name@, entry.data),
        entry_names(entries.update(j, entry)) == entry_names(entries),
    decreases entries.len(),
{
    let updated = entries.update(j, entry);
    assert(entry_names(updated) =~= entry_names(entries));
    let init = entries.drop_last();
    if j == entries.len() - 1 {
        assert(updated.drop_last() =~= init);
        assert(entries_as_map(updated) =~= entries_as_map(entries).insert(entry.name@, entry.data));
    } else {
        assert(updated.drop_last() =~= init.update(j, entry));
        assert(entry_names(init) =~= entry_names(entries).drop_last());
        assert(entry_names(init).no_duplicates()) by {
            assert forall|a: int, b: int| 0 <= a < init.len() && 0 <= b < init.len() && a != b implies entry_names(init)[a] != entry_names(init)[b] by {
                assert(entry_names(entries)[a] != entry_names(entries)[b]);
            }
        }
        lemma_entries_as_map_update(init, j, entry);
        assert(entry_names(entries)[j] != entry_names(entries)[entries.len() - 1]);
        assert(entries_as_map(updated) =~= entries_as_map(entries).insert(entry.name@, entry.data));
    }
}

/// Access records by session name. No name has two records.
#[derive(Debug, Clone, PartialEq, Eq)]
pub struct FrecencyTable {
    pub entries: Vec<FrecencyEntry>,
}

impl View for FrecencyTable {
    type V = Map<Seq<char>, SessionFrecencyData>;

    open spec fn view(&self) -> Map<Seq<char>, SessionFrecencyData> {
        entries_as_map(self.entries@)
    }
}

impl FrecencyTable {
    /// No name has two records.
    pub open spec fn wf(&self) -> bool {
        entry_names(self.entries@).no_duplicates()
    }

    /// The table without records.
    pub fn new() -> (table: FrecencyTable)
        ensures
            table.wf(),
            table@ == Map::<Seq<char>, SessionFrecencyData>::empty(),
    {
        FrecencyTable { entries: Vec::new() }
    }

    fn find(&self, name: &str) -> (found: Option<usize>)
        ensures
            match found {
                Some(j) => j < self.entries.len() && self.entries[j as int].name@ == name@,
                None => !entry_names(self.entries@).contains(name@),
            },
    {
        let mut i: usize = 0;
        while i < self.entries.len()
            invariant
                i <= self.entries.len(),
                entry_names(self.entries@).len() == self.entries.len(),
                forall|k: int| 0 <= k < i ==> #[trigger] entry_names(self.entries@)[k] != name@,
            decreases self.entries.len() - i,
        {
            if *self.entries[i].name.as_str() == *name {
                return Some(i);
            }
            i += 1;
        }
        None
    }

    /// The record of `name`, where it has one.
    pub fn get(&self, name: &str) -> (data: Option<SessionFrecencyData>)
        requires
            self.wf(),
        ensures
            data == if self@.dom().contains(name@) {
                Some(self@[name@])
            } else {
                None
            },
    {
        proof {
            lemma_entries_as_map_dom(self.entries@);
        }
        match self.find(name) {
            Some(j) => {
                proof {
                    let entry = self.entries[j as int];
                    lemma_entries_as_map_update(self.entries@, j as int, entry);
                    assert(self.entries@.update(j as int, entry) =~= self.entries@);
                    assert(entry_names(self.entries@)[j as int] == name@);
                }
                Some(self.entries[j].data)
            },
            None => None,
        }
    }

    /// Counts a selection of `name` at `now`: a first record for a new name, one more
    /// access for a known one. No other record changes.
    pub fn record_access_at(&mut self, name: &str, now: u64)
        requires
            old(self).wf(),
            old(self)@.dom().contains(name@) ==> old(self)@[name@].access_count < u32::MAX,
        ensures
            final(self).wf(),
            final(self)@ == counted_access(old(self)@, Access { name: name@, at: now }),
    {
        proof {
            lemma_entries_as_map_dom(self.entries@);
        }
        match self.find(name) {
            Some(j) => {
                let ghost before = self.entries@;
                proof {
                    let entry = before[j as int];
                    lemma_entries_as_map_update(before, j as int, entry);
                    assert(before.update(j as int, entry) =~= before);
                    assert(entry_names(before)[j as int] == name@);
                }
                let mut data = self.entries[j].data;
                data.record_access_at(now);
                let entry = FrecencyEntry { name: self.entries[j].name.clone(), data };
                self.entries.set(j, entry);
                proof {
                    lemma_entries_as_map_update(before, j as int, entry);
                }
            },
            None => {
                let ghost before = self.entries@;
                let entry = FrecencyEntry { name: name.to_string(), data: SessionFrecencyData::at(now) };
                self.entries.push(entry);
                proof {
                    assert(self.entries@.drop_last() =~= before);
                    assert(entry_names(self.entries@) =~= entry_names(before).push(name@));
                }
            },
        }
    }
}

/// A terminal colour.
#[derive(Debug, Clone, Copy, PartialEq, Eq, Structural)]
pub enum TermColor {
    Reset,
    Black,
    Red,
    Green,
    Yellow,
    Blue,
    Magenta,
    Cyan,
    Gray,
    DarkGray,
    LightRed,
    LightGreen,
    LightYellow,
    LightBlue,
    LightMagenta,
    LightCyan,
    White,
    Rgb(u8, u8, u8),
    Indexed(u8),
}

pub const HIGHLIGHT_COLOR_DEFAULT: TermColor = TermColor::LightBlue;

pub const HIGHLIGHT_TEXT_COLOR_DEFAULT: TermColor = TermColor::Black;

pub const BORDER_COLOR_DEFAULT: TermColor = TermColor::DarkGray;

pub const INFO_COLOR_DEFAULT: TermColor = TermColor::LightYellow;

pub const PROMPT_COLOR_DEFAULT: TermColor = TermColor::LightGreen;

/// How the selected line is drawn: bold, on `background`, in `foreground`.
#[derive(Debug, Clone, Copy, PartialEq, Eq, Structural)]
pub struct HighlightStyle {
    pub background: TermColor,
    pub foreground: TermColor,
    pub bold: bool,
}

/// `choice` where it is given, else `fallback`.
pub open spec fn color_or(choice: Option<TermColor>, fallback: TermColor) -> TermColor {
    match choice {
        Some(color) => color,
        None => fallback,
    }
}

/// The colours of the picker; each may be left to its default.
#[derive(Clone, Copy, Debug, PartialEq, Eq, Structural)]
pub struct PickerColorConfig {
    pub highlight_color: Option<TermColor>,
    pub highlight_text_color: Option<TermColor>,
    pub border_color: Option<TermColor>,
    pub info_color: Option<TermColor>,
    pub prompt_color: Option<TermColor>,
}

impl Default for PickerColorConfig {
    fn default() -> (colors: PickerColorConfig)
        ensures
            colors == (PickerColorConfig {
                highlight_color: None,
                highlight_text_color: None,
                border_color: None,
                info_color: None,
                prompt_color: None,
            }),
    {
        PickerColorConfig {
            highlight_color: None,
            highlight_text_color: None,
            border_color: None,
            info_color: None,
            prompt_color: None,
        }
    }
}

impl PickerColorConfig {
    /// Every colour set to its default.
    pub open spec fn defaults() -> PickerColorConfig {
        PickerColorConfig {
            highlight_color: Some(HIGHLIGHT_COLOR_DEFAULT),
            highlight_text_color: Some(HIGHLIGHT_TEXT_COLOR_DEFAULT),
            border_color: Some(BORDER_COLOR_DEFAULT),
            info_color: Some(INFO_COLOR_DEFAULT),
            prompt_color: Some(PROMPT_COLOR_DEFAULT),
        }
    }

    pub fn default_colors() -> (colors: PickerColorConfig)
        ensures
            colors == Self::defaults(),
    {
        PickerColorConfig {
            highlight_color: Some(HIGHLIGHT_COLOR_DEFAULT),
            highlight_text_color: Some(HIGHLIGHT_TEXT_COLOR_DEFAULT),
            border_color: Some(BORDER_COLOR_DEFAULT),
            info_color: Some(INFO_COLOR_DEFAULT),
            prompt_color: Some(PROMPT_COLOR_DEFAULT),
        }
    }

    /// The same colours, with each one that was left open set to its default.
    pub fn with_defaults(self) -> (colors: PickerColorConfig)
        ensures
            colors.highlight_color == Some(color_or(self.highlight_color, HIGHLIGHT_COLOR_DEFAULT)),
            colors.highlight_text_color == Some(
                color_or(self.highlight_text_color, HIGHLIGHT_TEXT_COLOR_DEFAULT),
            ),
            colors.border_color == Some(color_or(self.border_color, BORDER_COLOR_DEFAULT)),
            colors.info_color == Some(color_or(self.info_color, INFO_COLOR_DEFAULT)),
            colors.prompt_color == Some(color_or(self.prompt_color, PROMPT_COLOR_DEFAULT)),
    {
        PickerColorConfig {
            highlight_color: Some(pick(self.highlight_color, HIGHLIGHT_COLOR_DEFAULT)),
            highlight_text_color: Some(
                pick(self.highlight_text_color, HIGHLIGHT_TEXT_COLOR_DEFAULT),
            ),
            border_color: Some(pick(self.border_color, BORDER_COLOR_DEFAULT)),
            info_color: Some(pick(self.info_color, INFO_COLOR_DEFAULT)),
            prompt_color: Some(pick(self.prompt_color, PROMPT_COLOR_DEFAULT)),
        }
    }

    pub fn highlight_style(&self) -> (style: HighlightStyle)
        ensures
            style.background == color_or(self.highlight_color, HIGHLIGHT_COLOR_DEFAULT),
            style.foreground == color_or(self.highlight_text_color, HIGHLIGHT_TEXT_COLOR_DEFAULT),
            style.bold,
    {
        HighlightStyle {
            background: pick(self.highlight_color, HIGHLIGHT_COLOR_DEFAULT),
            foreground: pick(self.highlight_text_color, HIGHLIGHT_TEXT_COLOR_DEFAULT),
            bold: true,
        }
    }

    pub fn border_color(&self) -> (color: TermColor)
        ensures
            color == color_or(self.border_color, BORDER_COLOR_DEFAULT),
    {
        pick(self.border_color, BORDER_COLOR_DEFAULT)
    }

    pub fn info_color(&self) -> (color: TermColor)
        ensures
            color == color_or(self.info_color, INFO_COLOR_DEFAULT),
    {
        pick(self.info_color, INFO_COLOR_DEFAULT)
    }

    pub fn prompt_color(&self) -> (color: TermColor)
        ensures
            color == color_or(self.prompt_color, PROMPT_COLOR_DEFAULT),
    {
        pick(self.prompt_color, PROMPT_COLOR_DEFAULT)
    }
}

fn pick(choice: Option<TermColor>, fallback: TermColor) -> (color: TermColor)
    ensures
        color == color_or(choice, fallback),
{
    match choice {
        Some(color) => color,
        None => fallback,
    }
}

/// Remote catalogues are kept for a month unless the configuration says otherwise.
pub const DEFAULT_GITHUB_CACHE_HOURS: u64 = 720;

/// Local scans are kept for a day unless the configuration says otherwise.
pub const DEFAULT_LOCAL_CACHE_HOURS: u64 = 24;

/// The roots that a list of depths gives together with the canonical paths found for
/// them: entry `i` counts where `resolved[i]` holds a path, and is passed over where it
/// holds none or `resolved` is too short.
pub open spec fn resolved_roots(depths: Seq<nat>, resolved: Seq<Option<String>>) -> Seq<SearchRoot>
    decreases depths.len(),
{
    if depths.len() == 0 {
        seq![]
    } else {
        let init = resolved_roots(depths.drop_last(), resolved);
        let i = depths.len() - 1;
        if i < resolved.len() && resolved[i] is Some {
            init.push(SearchRoot { path: resolved[i]->0@, depth: depths.last() })
        } else {
            init
        }
    }
}

/// The depths of `dirs`, in order.
pub open spec fn depths_of(dirs: Seq<SearchDirectory>) -> Seq<nat> {
    dirs.map_values(|d: SearchDirectory| d.depth as nat)
}

/// `count` times the depth of the older `search_paths` option.
pub open spec fn legacy_depths(count: nat) -> Seq<nat> {
    Seq::new(count, |i: int| LEGACY_SEARCH_DEPTH as nat)
}

/// The option holds no list, or an empty one.
pub open spec fn none_or_empty<T>(list: Option<Vec<T>>) -> bool {
    match list {
        Some(items) => items@.len() == 0,
        None => true,
    }
}

/// What the user has configured. Every option may be absent.
#[derive(Default, Debug, PartialEq, Eq, Clone)]
pub struct Config {
    pub default_session: Option<String>,
    pub display_full_path: Option<bool>,
    pub search_submodules: Option<bool>,
    pub recursive_submodules: Option<bool>,
    pub switch_filter_unknown: Option<bool>,
    pub session_sort_order: Option<SessionSortOrderConfig>,
    pub excluded_dirs: Option<Vec<String>>,
    pub search_paths: Option<Vec<String>>,
    pub search_dirs: Option<Vec<SearchDirectory>>,
    pub sessions: Option<Vec<Session>>,
    pub picker_colors: Option<PickerColorConfig>,
    pub input_position: Option<InputPosition>,
    pub bookmarks: Option<Vec<String>>,
    pub session_configs: Option<Vec<(String, SessionConfig)>>,
    pub marks: Option<HashMap<usize, String>>,
    pub clone_repo_switch: Option<CloneRepoSwitchConfig>,
    pub vcs_providers: Option<Vec<VcsProviders>>,
    pub session_frecency: Option<FrecencyTable>,
    pub github_profiles: Option<Vec<GitHubProfile>>,
    pub picker_switch_mode_key: Option<String>,
    pub picker_refresh_key: Option<String>,
    pub github_cache_duration_hours: Option<u64>,
    pub local_cache_duration_hours: Option<u64>,
}

impl Config {
    /// The frecency table, where there is one, names no session twice.
    pub open spec fn wf(&self) -> bool {
        self.session_frecency matches Some(table) ==> table.wf()
    }

    /// The frecency records by session name; empty where the option is absent.
    pub open spec fn frecency(&self) -> Map<Seq<char>, SessionFrecencyData> {
        match self.session_frecency {
            Some(table) => table@,
            None => Map::empty(),
        }
    }

    /// Every configured search entry whose path could be resolved, as a root at its
    /// canonical path: first those of `search_dirs`, then those of the older
    /// `search_paths`, which all get the same depth.
    pub open spec fn configured_roots(
        &self,
        resolved_dirs: Seq<Option<String>>,
        resolved_paths: Seq<Option<String>>,
    ) -> Seq<SearchRoot> {
        (match self.search_dirs {
            Some(dirs) => resolved_roots(depths_of(dirs@), resolved_dirs),
            None => seq![],
        }) + (match self.search_paths {
            Some(paths) => resolved_roots(legacy_depths(paths@.len()), resolved_paths),
            None => seq![],
        })
    }

    /// The directories to search. `resolved_dirs[i]` is the canonical path of the `i`-th
    /// entry of `search_dirs`, and `resolved_paths[i]` that of the `i`-th entry of
    /// `search_paths`; `None` stands for a path that does not exist or cannot be reached.
    ///
    /// With no entry configured at all the answer is `NoDefaultSearchPath`; with entries
    /// of which none could be resolved it is `NoValidSearchPath`. Otherwise the resolved
    /// entries are returned with duplicates of a path merged into one entry of the
    /// greatest depth.
    pub fn search_dirs(
        &self,
        resolved_dirs: &Vec<Option<String>>,
        resolved_paths: &Vec<Option<String>>,
    ) -> (result: Result<Vec<SearchDirectory>, ConfigError>)
        ensures
            result is Ok <==> self.configured_roots(resolved_dirs@, resolved_paths@).len() > 0,
            none_or_empty(self.search_dirs) && none_or_empty(self.search_paths) ==> result == Err::<
                Vec<SearchDirectory>,
                ConfigError,
            >(ConfigError::NoDefaultSearchPath),
            !(none_or_empty(self.search_dirs) && none_or_empty(self.search_paths))
                && self.configured_roots(resolved_dirs@, resolved_paths@).len() == 0 ==> result
                == Err::<Vec<SearchDirectory>, ConfigError>(ConfigError::NoValidSearchPath),
            !(none_or_empty(self.search_dirs) && none_or_empty(self.search_paths))
                && self.configured_roots(resolved_dirs@, resolved_paths@).len() > 0 ==> (result matches Ok(
                dirs,
            ) && roots_of(dirs@) == coalesce(
                self.configured_roots(resolved_dirs@, resolved_paths@),
            )),
    {
        let no_dirs = match &self.search_dirs {
            Some(dirs) => dirs.len() == 0,
            None => true,
        };
        let no_paths = match &self.search_paths {
            Some(paths) => paths.len() == 0,
            None => true,
        };
        if no_dirs && no_paths {
            proof {
                if self.search_dirs is Some {
                    assert(depths_of(self.search_dirs->0@).len() == 0);
                }
                if self.search_paths is Some {
                    assert(legacy_depths(self.search_paths->0@.len()).len() == 0);
                }
            }
            return Err(ConfigError::NoDefaultSearchPath);
        }
        let mut entries: Vec<SearchDirectory> = Vec::new();
        if let Some(dirs) = &self.search_dirs {
            let ghost depths = depths_of(dirs@);
            let mut i: usize = 0;
            while i < dirs.len()
                invariant
                    i <= dirs.len(),
                    depths == depths_of(dirs@),
                    roots_of(entries@) =~= resolved_roots(depths.take(i as int), resolved_dirs@),
                decreases dirs.len() - i,
            {
                proof {
                    assert(depths.take(i + 1).drop_last() =~= depths.take(i as int));
                }
                if i < resolved_dirs.len() {
                    if let Some(path) = &resolved_dirs[i] {
                        entries.push(SearchDirectory::new(path.clone(), dirs[i].depth));
                    }
                }
                i += 1;
            }
            assert(depths.take(dirs.len() as int) =~= depths);
        }
        let ghost from_dirs = roots_of(entries@);
        if let Some(paths) = &self.search_paths {
            let ghost depths = legacy_depths(paths@.len());
            let mut i: usize = 0;
            while i < paths.len()
                invariant
                    i <= paths.len(),
                    depths == legacy_depths(paths@.len()),
                    roots_of(entries@) =~= from_dirs + resolved_roots(
                        depths.take(i as int),
                        resolved_paths@,
                    ),
                decreases paths.len() - i,
            {
                let ghost so_far = resolved_roots(depths.take(i as int), resolved_paths@);
                proof {
                    assert(depths.take(i + 1).drop_last() =~= depths.take(i as int));
                    assert(depths.take(i + 1).last() == LEGACY_SEARCH_DEPTH as nat);
                }
                if i < resolved_paths.len() {
                    if let Some(path) = &resolved_paths[i] {
                        let entry = SearchDirectory::new(path.clone(), LEGACY_SEARCH_DEPTH);
                        let ghost prior = entries@;
                        entries.push(entry);
                        assert(roots_of(entries@) =~= roots_of(prior).push(entry@));
                        assert(roots_of(prior).push(entry@) =~= from_dirs + so_far.push(entry@));
                    }
                }
                i += 1;
            }
            assert(depths.take(paths.len() as int) =~= depths);
        }
        assert(roots_of(entries@) =~= self.configured_roots(resolved_dirs@, resolved_paths@));
        if entries.len() == 0 {
            return Err(ConfigError::NoValidSearchPath);
        }
        assert(roots_of(entries@).len() == entries.len());
        Ok(coalesce_search_dirs(&entries))
    }

    /// Adds `path` to the bookmarks unless it is one already. No other option changes.
    pub fn add_bookmark(&mut self, path: String)
        ensures
            *final(self) == (Config { bookmarks: final(self).bookmarks, ..*old(self) }),
            final(self).bookmarks is Some,
            texts(final(self).bookmarks->0@) == match old(self).bookmarks {
                Some(list) => if texts(list@).contains(path@) {
                    texts(list@)
                } else {
                    texts(list@).push(path@)
                },
                None => seq![path@],
            },
    {
        let mut list = match &self.bookmarks {
            Some(list) => clone_strings(list),
            None => Vec::new(),
        };
        let ghost before = texts(list@);
        if position_of(&list, path.as_str()).is_none() {
            list.push(path);
            assert(texts(list@) =~= before.push(path@));
        }
        self.bookmarks = Some(list);
    }

    /// Removes the first bookmark that equals `path`, where there is one. No other option
    /// changes.
    pub fn delete_bookmark(&mut self, path: String)
        ensures
            *final(self) == (Config { bookmarks: final(self).bookmarks, ..*old(self) }),
            match old(self).bookmarks {
                Some(list) => final(self).bookmarks is Some && texts(final(self).bookmarks->0@)
                    == match texts(list@).index_of_first(path@) {
                    Some(first) => texts(list@).remove(first),
                    None => texts(list@),
                },
                None => final(self).bookmarks is None,
            },
    {
        if let Some(current) = &self.bookmarks {
            let mut list = clone_strings(current);
            let ghost before = texts(list@);
            proof {
                before.index_of_first_ensures(path@);
            }
            if let Some(index) = position_of(&list, path.as_str()) {
                proof {
                    assert(before.contains(path@));
                    let first = before.index_of_first(path@)->0;
                    if first < index {
                        assert(before[first] != path@);
                    }
                    if index < first {
                        assert(before[index as int] != path@);
                    }
                }
                list.remove(index);
                assert(texts(list@) =~= before.remove(index as int));
            }
            self.bookmarks = Some(list);
        }
    }

    /// Puts `path` under the mark `index`, in place of what was there. No other option
    /// changes.
    pub fn add_mark(&mut self, path: String, index: usize)
        ensures
            *final(self) == (Config { marks: final(self).marks, ..*old(self) }),
            final(self).marks is Some,
            final(self).marks->0@ == match old(self).marks {
                Some(marks) => marks@.insert(index, path),
                None => Map::<usize, String>::empty().insert(index, path),
            },
    {
        let mut marks = match self.marks.take() {
            Some(marks) => marks,
            None => HashMap::new(),
        };
        marks.insert(index, path);
        self.marks = Some(marks);
    }

    /// Removes the mark `index`, where there is one. No other option changes.
    pub fn delete_mark(&mut self, index: usize)
        ensures
            *final(self) == (Config { marks: final(self).marks, ..*old(self) }),
            match old(self).marks {
                Some(marks) => final(self).marks is Some && final(self).marks->0@ == marks@.remove(
                    index,
                ),
                None => final(self).marks is None,
            },
    {
        if let Some(mut marks) = self.marks.take() {
            marks.remove(&index);
            self.marks = Some(marks);
        }
    }

    /// Removes every mark. No other option changes.
    pub fn clear_marks(&mut self)
        ensures
            *final(self) == (Config { marks: None, ..*old(self) }),
    {
        self.marks = None;
    }

    /// Counts a selection of the session `session_name` at `now`. No other option
    /// changes.
    pub fn record_session_access(&mut self, session_name: &str, now: u64)
        requires
            old(self).wf(),
            old(self).frecency().dom().contains(session_name@) ==> old(self).frecency()[session_name@].access_count
                < u32::MAX,
        ensures
            *final(self) == (Config { session_frecency: final(self).session_frecency, ..*old(self) }),
            final(self).wf(),
            final(self).session_frecency is Some,
            final(self).frecency() == counted_access(
                old(self).frecency(),
                Access { name: session_name@, at: now },
            ),
    {
        let mut table = match self.session_frecency.take() {
            Some(table) => table,
            None => FrecencyTable::new(),
        };
        table.record_access_at(session_name, now);
        self.session_frecency = Some(table);
    }

    /// Counts a selection of the session `session_name` at this moment: a first record
    /// for a new name, one more access for a known one, at whatever time the clock gives.
    /// No other option changes.
    pub fn update_session_frecency(&mut self, session_name: &str)
        requires
            old(self).wf(),
            old(self).frecency().dom().contains(session_name@) ==> old(self).frecency()[session_name@].access_count
                < u32::MAX,
        ensures
            *final(self) == (Config { session_frecency: final(self).session_frecency, ..*old(self) }),
            final(self).wf(),
            final(self).session_frecency is Some,
            exists|now: u64|
                final(self).frecency() == #[trigger] counted_access(
                    old(self).frecency(),
                    Access { name: session_name@, at: now },
                ),
    {
        self.record_session_access(session_name, unix_now());
    }

    /// The access record of the session `session_name`, where it has one.
    pub fn get_session_frecency(&self, session_name: &str) -> (data: Option<SessionFrecencyData>)
        requires
            self.wf(),
        ensures
            data == if self.frecency().dom().contains(session_name@) {
                Some(self.frecency()[session_name@])
            } else {
                None
            },
    {
        match &self.session_frecency {
            Some(table) => table.get(session_name),
            None => None,
        }
    }

    /// The configured remote profiles, in order; none where the option is absent.
    pub fn get_github_profiles(&self) -> (profiles: Vec<GitHubProfile>)
        ensures
            profiles@ == match self.github_profiles {
                Some(list) => list@,
                None => seq![],
            },
    {
        let mut profiles: Vec<GitHubProfile> = Vec::new();
        if let Some(list) = &self.github_profiles {
            let mut i: usize = 0;
            while i < list.len()
                invariant
                    i <= list.len(),
                    profiles@ == list@.take(i as int),
                decreases list.len() - i,
            {
                profiles.push(list[i].duplicate());
                i += 1;
            }
            assert(list@.take(list.len() as int) =~= list@);
        }
        profiles
    }

    /// The name of the key that opens the mode selection: `tab` unless configured.
    pub fn get_picker_switch_mode_key(&self) -> (key: String)
        ensures
            key@ == match self.picker_switch_mode_key {
                Some(name) => name@,
                None => "tab"@,
            },
    {
        match &self.picker_switch_mode_key {
            Some(name) => name.clone(),
            None => "tab".to_string(),
        }
    }

    /// The name of the key that reloads the current mode: `F5` unless configured.
    pub fn get_picker_refresh_key(&self) -> (key: String)
        ensures
            key@ == match self.picker_refresh_key {
                Some(name) => name@,
                None => "F5"@,
            },
    {
        match &self.picker_refresh_key {
            Some(name) => name.clone(),
            None => "F5".to_string(),
        }
    }

    /// Hours for which a remote catalogue is reused.
    pub fn get_github_cache_duration_hours(&self) -> (hours: u64)
        ensures
            hours == match self.github_cache_duration_hours {
                Some(configured) => configured,
                None => DEFAULT_GITHUB_CACHE_HOURS,
            },
    {
        match self.github_cache_duration_hours {
            Some(configured) => configured,
            None => DEFAULT_GITHUB_CACHE_HOURS,
        }
    }

    /// Hours for which a local scan is reused.
    pub fn get_local_cache_duration_hours(&self) -> (hours: u64)
        ensures
            hours == match self.local_cache_duration_hours {
                Some(configured) => configured,
                None => DEFAULT_LOCAL_CACHE_HOURS,
            },
    {
        match self.local_cache_duration_hours {
            Some(configured) => configured,
            None => DEFAULT_LOCAL_CACHE_HOURS,
        }
    }
}

/// Where the configuration file lies below the user's configuration directory.
pub open spec fn config_file_in_config_dir() -> Seq<char> {
    "tms/config.toml"@
}

/// Where the configuration file lies below the user's home directory.
pub open spec fn config_file_in_home() -> Seq<char> {
    ".config/tms/config.toml"@
}

/// The file that the configuration is written to: the file that the environment names;
/// else the file below the configuration directory; else the one below the home
/// directory.
pub open spec fn save_path_spec(
    named: Option<String>,
    config_dir: Option<String>,
    home: Option<String>,
) -> Option<Seq<char>> {
    match named {
        Some(path) => Some(path@),
        None => match config_dir {
            Some(dir) => Some(join_spec(dir@, config_file_in_config_dir())),
            None => match home {
                Some(dir) => Some(join_spec(dir@, config_file_in_home())),
                None => None,
            },
        },
    }
}

/// The files that the configuration is read from, later ones taking precedence: the file
/// that the environment names and no other; else the file below the home directory and
/// the file below the configuration directory, as far as these directories are known.
pub open spec fn load_paths_spec(
    named: Option<String>,
    home: Option<String>,
    config_dir: Option<String>,
) -> Seq<Seq<char>> {
    match named {
        Some(path) => seq![path@],
        None => (match home {
            Some(dir) => seq![join_spec(dir@, config_file_in_home())],
            None => seq![],
        }) + (match config_dir {
            Some(dir) => seq![join_spec(dir@, config_file_in_config_dir())],
            None => seq![],
        }),
    }
}

impl Config {
    /// The file that the configuration is written to. `named` is the file that the
    /// environment names, `config_dir` and `home` are the user's directories. Where none
    /// of them is known, the error is `LoadError`.
    pub fn save_path(named: &Option<String>, config_dir: &Option<String>, home: &Option<String>) -> (path: Result<
        String,
        ConfigError,
    >)
        ensures
            match path {
                Ok(text) => save_path_spec(*named, *config_dir, *home) == Some(text@),
                Err(error) => save_path_spec(*named, *config_dir, *home) is None && error
                    == ConfigError::LoadError,
            },
    {
        match named {
            Some(path) => Ok(path.clone()),
            None => match config_dir {
                Some(dir) => Ok(join_path(dir.as_str(), "tms/config.toml")),
                None => match home {
                    Some(dir) => Ok(join_path(dir.as_str(), ".config/tms/config.toml")),
                    None => Err(ConfigError::LoadError),
                },
            },
        }
    }

    /// The files that the configuration is read from. Where no file is named and
    /// neither directory is known, the error is `LoadError`.
    pub fn load_paths(named: &Option<String>, home: &Option<String>, config_dir: &Option<String>) -> (paths: Result<
        Vec<String>,
        ConfigError,
    >)
        ensures
            match paths {
                Ok(list) => texts(list@) == load_paths_spec(*named, *home, *config_dir)
                    && list@.len() > 0,
                Err(error) => load_paths_spec(*named, *home, *config_dir).len() == 0 && error
                    == ConfigError::LoadError,
            },
    {
        let mut paths: Vec<String> = Vec::new();
        match named {
            Some(path) => {
                paths.push(path.clone());
                assert(texts(paths@) =~= seq![path@]);
            },
            None => {
                if let Some(dir) = home {
                    paths.push(join_path(dir.as_str(), ".config/tms/config.toml"));
                }
                if let Some(dir) = config_dir {
                    paths.push(join_path(dir.as_str(), "tms/config.toml"));
                }
                assert(texts(paths@) =~= load_paths_spec(*named, *home, *config_dir));
            },
        }
        if paths.len() == 0 {
            Err(ConfigError::LoadError)
        } else {
            Ok(paths)
        }
    }
}

/// The configuration with every option set: what is absent in a `Config` has its default
/// here.
#[derive(Debug, PartialEq, Eq, Clone)]
pub struct ConfigExport {
    pub default_session: Option<String>,
    pub display_full_path: bool,
    pub search_submodules: bool,
    pub recursive_submodules: bool,
    pub switch_filter_unknown: bool,
    pub session_sort_order: SessionSortOrderConfig,
    pub excluded_dirs: Vec<String>,
    pub search_dirs: Vec<SearchDirectory>,
    pub sessions: Vec<Session>,
    pub picker_colors: PickerColorConfig,
    pub bookmarks: Vec<String>,
    pub session_configs: Vec<(String, SessionConfig)>,
    pub marks: HashMap<usize, String>,
    pub clone_repo_switch: CloneRepoSwitchConfig,
    pub vcs_providers: Vec<VcsProviders>,
    pub session_frecency: FrecencyTable,
    pub github_profiles: Vec<GitHubProfile>,
    pub picker_switch_mode_key: String,
    pub picker_refresh_key: String,
    pub github_cache_duration_hours: u64,
}

/// `choice` where it is given, else `false`.
pub open spec fn flag_or_false(choice: Option<bool>) -> bool {
    match choice {
        Some(flag) => flag,
        None => false,
    }
}

/// What the list holds; nothing where it is absent.
pub open spec fn list_or_empty<T>(list: Option<Vec<T>>) -> Seq<T> {
    match list {
        Some(items) => items@,
        None => seq![],
    }
}

fn take_list<T>(list: Option<Vec<T>>) -> (items: Vec<T>)
    ensures
        items@ == list_or_empty(list),
{
    match list {
        Some(items) => items,
        None => Vec::new(),
    }
}

fn take_flag(choice: Option<bool>) -> (flag: bool)
    ensures
        flag == flag_or_false(choice),
{
    match choice {
        Some(flag) => flag,
        None => false,
    }
}

impl ConfigExport {
    /// The export of `value`: each option that is set as it is, each absent one with its
    /// default.
    pub fn from_config(value: Config) -> (export: ConfigExport)
        ensures
            export.default_session == value.default_session,
            export.display_full_path == flag_or_false(value.display_full_path),
            export.search_submodules == flag_or_false(value.search_submodules),
            export.recursive_submodules == flag_or_false(value.recursive_submodules),
            export.switch_filter_unknown == flag_or_false(value.switch_filter_unknown),
            export.session_sort_order == match value.session_sort_order {
                Some(order) => order,
                None => SessionSortOrderConfig::Alphabetical,
            },
            export.excluded_dirs@ == list_or_empty(value.excluded_dirs),
            export.search_dirs@ == list_or_empty(value.search_dirs),
            export.sessions@ == list_or_empty(value.sessions),
            export.picker_colors == match value.picker_colors {
                Some(colors) => PickerColorConfig {
                    highlight_color: Some(color_or(colors.highlight_color, HIGHLIGHT_COLOR_DEFAULT)),
                    highlight_text_color: Some(
                        color_or(colors.highlight_text_color, HIGHLIGHT_TEXT_COLOR_DEFAULT),
                    ),
                    border_color: Some(color_or(colors.border_color, BORDER_COLOR_DEFAULT)),
                    info_color: Some(color_or(colors.info_color, INFO_COLOR_DEFAULT)),
                    prompt_color: Some(color_or(colors.prompt_color, PROMPT_COLOR_DEFAULT)),
                },
                None => PickerColorConfig::defaults(),
            },
            export.bookmarks@ == list_or_empty(value.bookmarks),
            export.session_configs@ == list_or_empty(value.session_configs),
            export.marks@ == match value.marks {
                Some(marks) => marks@,
                None => Map::<usize, String>::empty(),
            },
            export.clone_repo_switch == match value.clone_repo_switch {
                Some(choice) => choice,
                None => CloneRepoSwitchConfig::Always,
            },
            export.vcs_providers@ == match value.vcs_providers {
                Some(providers) => providers@,
                None => seq![VcsProviders::Git],
            },
            export.session_frecency@ == value.frecency(),
            export.github_profiles@ == list_or_empty(value.github_profiles),
            export.picker_switch_mode_key@ == match value.picker_switch_mode_key {
                Some(name) => name@,
                None => "tab"@,
            },
            export.picker_refresh_key@ == match value.picker_refresh_key {
                Some(name) => name@,
                None => "F5"@,
            },
            export.github_cache_duration_hours == match value.github_cache_duration_hours {
                Some(hours) => hours,
                None => DEFAULT_GITHUB_CACHE_HOURS,
            },
    {
        let picker_switch_mode_key = value.get_picker_switch_mode_key();
        let picker_refresh_key = value.get_picker_refresh_key();
        let github_cache_duration_hours = value.get_github_cache_duration_hours();
        ConfigExport {
            default_session: value.default_session,
            display_full_path: take_flag(value.display_full_path),
            search_submodules: take_flag(value.search_submodules),
            recursive_submodules: take_flag(value.recursive_submodules),
            switch_filter_unknown: take_flag(value.switch_filter_unknown),
            session_sort_order: match value.session_sort_order {
                Some(order) => order,
                None => SessionSortOrderConfig::Alphabetical,
            },
            excluded_dirs: take_list(value.excluded_dirs),
            search_dirs: take_list(value.search_dirs),
            sessions: take_list(value.sessions),
            picker_colors: match value.picker_colors {
                Some(colors) => colors.with_defaults(),
                None => PickerColorConfig::default_colors(),
            },
            bookmarks: take_list(value.bookmarks),
            session_configs: take_list(value.session_configs),
            marks: match value.marks {
                Some(marks) => marks,
                None => HashMap::new(),
            },
            clone_repo_switch: match value.clone_repo_switch {
                Some(choice) => choice,
                None => CloneRepoSwitchConfig::Always,
            },
            vcs_providers: match value.vcs_providers {
                Some(providers) => providers,
                None => default_vcs_providers(),
            },
            session_frecency: match value.session_frecency {
                Some(table) => table,
                None => FrecencyTable::new(),
            },
            github_profiles: take_list(value.github_profiles),
            picker_switch_mode_key,
            picker_refresh_key,
            github_cache_duration_hours,
        }
    }
}

/// A selection of a session: its name, and the time of the selection.
pub ghost struct Access {
    pub name: Seq<char>,
    pub at: u64,
}

/// The table after a selection was counted.
pub open spec fn counted_access(
    table: Map<Seq<char>, SessionFrecencyData>,
    access: Access,
) -> Map<Seq<char>, SessionFrecencyData> {
    table.insert(
        access.name,
        if table.dom().contains(access.name) {
            table[access.name].next_access(access.at)
        } else {
            SessionFrecencyData::first_access(access.at)
        },
    )
}

/// The table after the selections `accesses` were counted in order, starting without
/// records.
pub open spec fn after_accesses(accesses: Seq<Access>) -> Map<Seq<char>, SessionFrecencyData>
    decreases accesses.len(),
{
    if accesses.len() == 0 {
        Map::empty()
    } else {
        counted_access(after_accesses(accesses.drop_last()), accesses.last())
    }
}

/// How many of `accesses` are selections of `name`.
pub open spec fn times_selected(accesses: Seq<Access>, name: Seq<char>) -> nat
    decreases accesses.len(),
{
    if accesses.len() == 0 {
        0
    } else {
        times_selected(accesses.drop_last(), name) + if accesses.last().name == name {
            1nat
        } else {
            0nat
        }
    }
}

/// The time of the last of `accesses` that is a selection of `name`; zero where none is.
pub open spec fn last_selected(accesses: Seq<Access>, name: Seq<char>) -> u64
    decreases accesses.len(),
{
    if accesses.len() == 0 {
        0
    } else if accesses.last().name == name {
        accesses.last().at
    } else {
        last_selected(accesses.drop_last(), name)
    }
}

/// The time of the first of `accesses` that is a selection of `name`; zero where none is.
pub open spec fn first_selected(accesses: Seq<Access>, name: Seq<char>) -> u64
    decreases accesses.len(),
{
    if accesses.len() == 0 {
        0
    } else if times_selected(accesses.drop_last(), name) > 0 {
        first_selected(accesses.drop_last(), name)
    } else if accesses.last().name == name {
        accesses.last().at
    } else {
        0
    }
}

/// Whatever the selections were, the table holds a record for exactly the sessions that
/// were selected, and each record says how often its session was selected, when it was
/// selected first and when it was selected last. What is read back after a restart is
/// the table, so it says the same.
pub proof fn lemma_accesses_are_kept(accesses: Seq<Access>, name: Seq<char>)
    requires
        accesses.len() <= u32::MAX,
    ensures
        after_accesses(accesses).dom().contains(name) <==> times_selected(accesses, name) > 0,
        times_selected(accesses, name) <= accesses.len(),
        after_accesses(accesses).dom().contains(name) ==> after_accesses(accesses)[name] == (
        SessionFrecencyData {
            access_count: times_selected(accesses, name) as u32,
            last_accessed: last_selected(accesses, name),
            first_accessed: first_selected(accesses, name),
        }),
    decreases accesses.len(),
{
    if accesses.len() > 0 {
        let before = accesses.drop_last();
        let last = accesses.last();
        lemma_accesses_are_kept(before, name);
        lemma_accesses_are_kept(before, last.name);
        let table = after_accesses(before);
        assert(after_accesses(accesses) == counted_access(table, last));
        if last.name == name {
            if table.dom().contains(name) {
                assert(table[name].access_count < u32::MAX);
                assert(after_accesses(accesses)[name] == table[name].next_access(last.at));
            } else {
                assert(after_accesses(accesses)[name] == SessionFrecencyData::first_access(last.at));
            }
        } else {
            assert(after_accesses(accesses).dom().contains(name) == table.dom().contains(name));
            if table.dom().contains(name) {
                assert(after_accesses(accesses)[name] == table[name]);
            }
        }
    }
}

} // verus!
