use vstd::prelude::*;
use crate::configs::{roots_of, Config, SearchDirectory, SearchRoot, VcsProviders};
use crate::dirty_paths::{normalize_path, normalize_spec};
use crate::error::TmsError;
use crate::exclusion::Excluder;
use crate::paths::{base_name, base_name_spec, join_path, join_spec};
use crate::session::{Session, SessionType};
use crate::skip_list::{fast_skip_names, fast_skip_names_spec, slice_texts, SkipList};
use crate::text::{clone_optional, position_of, texts};

verus! {

/// Where a Jujutsu workspace keeps its repository when it is the main workspace, relative
/// to the workspace root.
pub open spec fn jj_repo_dir() -> Seq<char> {
    ".jj/repo"@
}

/// What is known of an opened Git repository.
#[derive(Debug, Clone, PartialEq, Eq)]
pub struct GitRepository {
    /// The repository's own directory (`.git`, or the directory of a bare repository).
    pub git_dir: String,
    /// The checked-out tree, where there is one.
    pub work_dir: Option<String>,
    /// The directory of the main repository that this one belongs to, where it can be found.
    pub main_git_dir: Option<String>,
    pub bare: bool,
    /// The short name of the branch that is checked out, where there is one.
    pub head: Option<String>,
}

/// What is known of a loaded Jujutsu workspace.
#[derive(Debug, Clone, PartialEq, Eq)]
pub struct JujutsuWorkspace {
    pub workspace_root: String,
    /// The repository that the workspace belongs to.
    pub repo_path: String,
    pub workspace_name: String,
    /// The working copy is empty and sits directly on the root commit.
    pub bare: bool,
}

/// A repository of one of the supported version-control systems.
#[derive(Debug, Clone, PartialEq, Eq)]
pub enum RepoProvider {
    Git(GitRepository),
    Jujutsu(JujutsuWorkspace),
}

impl RepoProvider {
    /// The repository's pointer to its main repository differs from itself. Paths are
    /// compared in normal form. A Git repository whose main repository cannot be found
    /// counts as a worktree.
    pub open spec fn is_worktree_spec(&self) -> bool {
        match self {
            RepoProvider::Git(repo) => match repo.main_git_dir {
                Some(main) => normalize_spec(main@) != normalize_spec(repo.git_dir@),
                None => true,
            },
            RepoProvider::Jujutsu(workspace) => normalize_spec(workspace.repo_path@)
                != normalize_spec(join_spec(workspace.workspace_root@, jj_repo_dir())),
        }
    }

    pub open spec fn path_spec(&self) -> Seq<char> {
        match self {
            RepoProvider::Git(repo) => repo.git_dir@,
            RepoProvider::Jujutsu(workspace) => workspace.workspace_root@,
        }
    }

    pub open spec fn work_dir_spec(&self) -> Option<Seq<char>> {
        match self {
            RepoProvider::Git(repo) => match repo.work_dir {
                Some(tree) => Some(tree@),
                None => None,
            },
            RepoProvider::Jujutsu(workspace) => Some(workspace.workspace_root@),
        }
    }

    pub open spec fn is_bare_spec(&self) -> bool {
        match self {
            RepoProvider::Git(repo) => repo.bare,
            RepoProvider::Jujutsu(workspace) => workspace.bare,
        }
    }

    /// Whether this is a secondary working directory of another repository.
    pub fn is_worktree(&self) -> (worktree: bool)
        ensures
            worktree == self.is_worktree_spec(),
    {
        match self {
            RepoProvider::Git(repo) => match &repo.main_git_dir {
                Some(main) => {
                    let main = normalize_path(main.as_str());
                    let own = normalize_path(repo.git_dir.as_str());
                    !(main == own)
                },
                None => true,
            },
            RepoProvider::Jujutsu(workspace) => {
                let expected = join_path(workspace.workspace_root.as_str(), ".jj/repo");
                let expected = normalize_path(expected.as_str());
                let actual = normalize_path(workspace.repo_path.as_str());
                !(actual == expected)
            },
        }
    }

    /// The repository's directory: the Git directory, or the root of the workspace.
    pub fn path(&self) -> (path: &str)
        ensures
            path@ == self.path_spec(),
    {
        match self {
            RepoProvider::Git(repo) => repo.git_dir.as_str(),
            RepoProvider::Jujutsu(workspace) => workspace.workspace_root.as_str(),
        }
    }

    /// The directory of the main repository, where it is known.
    pub fn main_repo(&self) -> (main: Option<String>)
        ensures
            main == match self {
                RepoProvider::Git(repo) => repo.main_git_dir,
                RepoProvider::Jujutsu(workspace) => Some(workspace.repo_path),
            },
    {
        match self {
            RepoProvider::Git(repo) => clone_optional(&repo.main_git_dir),
            RepoProvider::Jujutsu(workspace) => Some(workspace.repo_path.clone()),
        }
    }

    /// The directory of the checked-out files, where there is one.
    pub fn work_dir(&self) -> (dir: Option<&str>)
        ensures
            match dir {
                Some(text) => self.work_dir_spec() == Some(text@),
                None => self.work_dir_spec() is None,
            },
    {
        match self {
            RepoProvider::Git(repo) => match &repo.work_dir {
                Some(tree) => Some(tree.as_str()),
                None => None,
            },
            RepoProvider::Jujutsu(workspace) => Some(workspace.workspace_root.as_str()),
        }
    }

    /// The short name of the checked-out branch. Only a Git repository with a branch
    /// checked out has one; every other case is a `GitError`.
    pub fn head_name(&self) -> (name: Result<String, TmsError>)
        ensures
            match self {
                RepoProvider::Git(repo) => match repo.head {
                    Some(head) => name == Ok::<String, TmsError>(head),
                    None => name == Err::<String, TmsError>(TmsError::GitError),
                },
                RepoProvider::Jujutsu(_) => name == Err::<String, TmsError>(TmsError::GitError),
            },
    {
        match self {
            RepoProvider::Git(repo) => match &repo.head {
                Some(head) => Ok(head.clone()),
                None => Err(TmsError::GitError),
            },
            RepoProvider::Jujutsu(_) => Err(TmsError::GitError),
        }
    }

    /// Whether the repository has no checked-out files of its own.
    pub fn is_bare(&self) -> (bare: bool)
        ensures
            bare == self.is_bare_spec(),
    {
        match self {
            RepoProvider::Git(repo) => repo.bare,
            RepoProvider::Jujutsu(workspace) => workspace.bare,
        }
    }

    /// A copy with the same fields.
    pub fn duplicate(&self) -> (copy: RepoProvider)
        ensures
            copy == *self,
    {
        match self {
            RepoProvider::Git(repo) => RepoProvider::Git(
                GitRepository {
                    git_dir: repo.git_dir.clone(),
                    work_dir: clone_optional(&repo.work_dir),
                    main_git_dir: clone_optional(&repo.main_git_dir),
                    bare: repo.bare,
                    head: clone_optional(&repo.head),
                },
            ),
            RepoProvider::Jujutsu(workspace) => RepoProvider::Jujutsu(
                JujutsuWorkspace {
                    workspace_root: workspace.workspace_root.clone(),
                    repo_path: workspace.repo_path.clone(),
                    workspace_name: workspace.workspace_name.clone(),
                    bare: workspace.bare,
                },
            ),
        }
    }
}

/// A working directory attached to a Git repository.
#[derive(Debug, Clone, PartialEq, Eq)]
pub struct GitWorktree {
    pub id: String,
    /// The directory of the worktree, where its record names one.
    pub base: Option<String>,
    /// That directory is still there.
    pub base_exists: bool,
}

/// A working directory that belongs to a repository.
pub trait Worktree {
    spec fn name_spec(&self) -> Seq<char>;

    spec fn path_spec(&self) -> Option<Seq<char>>;

    spec fn is_prunable_spec(&self) -> bool;

    fn name(&self) -> (name: String)
        ensures
            name@ == self.name_spec(),
    ;

    /// The directory of the worktree; a `GitError` where it is not known.
    fn path(&self) -> (path: Result<String, TmsError>)
        ensures
            match path {
                Ok(text) => self.path_spec() == Some(text@),
                Err(error) => self.path_spec() is None && error == TmsError::GitError,
            },
    ;

    /// The worktree's directory is gone, so that its record can be removed.
    fn is_prunable(&self) -> (prunable: bool)
        ensures
            prunable == self.is_prunable_spec(),
    ;
}

impl Worktree for GitWorktree {
    open spec fn name_spec(&self) -> Seq<char> {
        self.id@
    }

    open spec fn path_spec(&self) -> Option<Seq<char>> {
        match self.base {
            Some(base) => Some(base@),
            None => None,
        }
    }

    open spec fn is_prunable_spec(&self) -> bool {
        !(self.base is Some && self.base_exists)
    }

    fn name(&self) -> (name: String) {
        self.id.clone()
    }

    fn path(&self) -> (path: Result<String, TmsError>) {
        match &self.base {
            Some(base) => Ok(base.clone()),
            None => Err(TmsError::GitError),
        }
    }

    fn is_prunable(&self) -> (prunable: bool) {
        !(self.base.is_some() && self.base_exists)
    }
}

impl Worktree for JujutsuWorkspace {
    open spec fn name_spec(&self) -> Seq<char> {
        self.workspace_name@
    }

    open spec fn path_spec(&self) -> Option<Seq<char>> {
        Some(self.workspace_root@)
    }

    open spec fn is_prunable_spec(&self) -> bool {
        false
    }

    fn name(&self) -> (name: String) {
        self.workspace_name.clone()
    }

    fn path(&self) -> (path: Result<String, TmsError>) {
        Ok(self.workspace_root.clone())
    }

    fn is_prunable(&self) -> (prunable: bool) {
        false
    }
}

/// The scan may stop once it has run for this many milliseconds, if it has enough to show.
pub const WALL_CLOCK_LIMIT_MS: u64 = 450;

/// Emitted repositories that count as enough to stop on the wall clock.
pub const WALL_CLOCK_MIN_REPOS: u64 = 50;

/// The scan may stop once it has visited more directories than this, if it has found many
/// repositories.
pub const RATIO_DIR_LIMIT: u64 = 100_000;

/// Emitted repositories beyond which the scan stops on the number of directories.
pub const RATIO_MIN_REPOS: u64 = 500;

/// Visited directories beyond which a scan with few finds counts as one of poor yield.
pub const POOR_YIELD_DIRS: u64 = 50_000;

/// Emitted repositories below which a long scan counts as one of poor yield.
pub const POOR_YIELD_REPOS: u64 = 200;

/// The least number of worker tasks.
pub const MIN_WORKERS: usize = 4;

/// The greatest number of worker tasks.
pub const MAX_WORKERS: usize = 64;

/// The scan has run long enough and has found enough.
pub open spec fn wall_clock_stop(elapsed_ms: u64, emitted: u64) -> bool {
    elapsed_ms >= WALL_CLOCK_LIMIT_MS && emitted >= WALL_CLOCK_MIN_REPOS
}

/// The scan has visited very many directories and has found very many repositories.
pub open spec fn ratio_stop(visited: u64, emitted: u64) -> bool {
    visited > RATIO_DIR_LIMIT && emitted > RATIO_MIN_REPOS
}

/// The scan has visited many directories and found almost nothing. Such a scan goes on
/// until one of the two stop rules holds.
pub open spec fn poor_yield(visited: u64, emitted: u64) -> bool {
    visited > POOR_YIELD_DIRS && emitted < POOR_YIELD_REPOS
}

/// The scan ends early: one of the two stop rules holds.
pub open spec fn stop_spec(elapsed_ms: u64, visited: u64, emitted: u64) -> bool {
    wall_clock_stop(elapsed_ms, emitted) || ratio_stop(visited, emitted)
}

/// Whether the scan ends early after `elapsed_ms` milliseconds, `visited` directories and
/// `emitted` repositories.
pub fn should_stop(elapsed_ms: u64, visited: u64, emitted: u64) -> (stop: bool)
    ensures
        stop == stop_spec(elapsed_ms, visited, emitted),
{
    (elapsed_ms >= WALL_CLOCK_LIMIT_MS && emitted >= WALL_CLOCK_MIN_REPOS) || (visited
        > RATIO_DIR_LIMIT && emitted > RATIO_MIN_REPOS)
}

/// Whether a scan that has visited `visited` directories and emitted `emitted` repositories
/// is one of poor yield.
pub fn is_poor_yield(visited: u64, emitted: u64) -> (poor: bool)
    ensures
        poor == poor_yield(visited, emitted),
{
    visited > POOR_YIELD_DIRS && emitted < POOR_YIELD_REPOS
}

/// The early end is a limit on time and yield, never on the count of directories alone:
/// however many directories were visited, a scan stops only with at least fifty
/// repositories emitted, and a scan of poor yield stops only on the wall clock.
pub proof fn lemma_stop_needs_yield(elapsed_ms: u64, visited: u64, emitted: u64)
    ensures
        stop_spec(elapsed_ms, visited, emitted) ==> emitted >= WALL_CLOCK_MIN_REPOS,
        poor_yield(visited, emitted) && stop_spec(elapsed_ms, visited, emitted) ==> wall_clock_stop(
            elapsed_ms,
            emitted,
        ),
        stop_spec(elapsed_ms, visited, emitted) && elapsed_ms < WALL_CLOCK_LIMIT_MS ==> !poor_yield(
            visited,
            emitted,
        ),
{
}

/// The number of worker tasks for a machine with `cpu_count` processors.
pub open spec fn worker_count_spec(cpu_count: nat) -> nat {
    if cpu_count < MIN_WORKERS {
        MIN_WORKERS as nat
    } else if cpu_count > MAX_WORKERS {
        MAX_WORKERS as nat
    } else {
        cpu_count
    }
}

/// The number of worker tasks for a machine with `cpu_count` processors: one for each
/// processor, but at least four and at most sixty-four.
pub fn worker_count(cpu_count: usize) -> (workers: usize)
    ensures
        workers == worker_count_spec(cpu_count as nat),
{
    if cpu_count < MIN_WORKERS {
        MIN_WORKERS
    } else if cpu_count > MAX_WORKERS {
        MAX_WORKERS
    } else {
        cpu_count
    }
}

/// `num_cpus::get`: the number of processors that the system reports. It differs from
/// machine to machine, so nothing is promised of it.
#[verifier::external_body]
fn cpu_count() -> usize {
    num_cpus::get()
}

/// The number of worker tasks for this machine.
pub fn worker_threads() -> (workers: usize)
    ensures
        MIN_WORKERS <= workers <= MAX_WORKERS,
{
    worker_count(cpu_count())
}

/// What the scan has done so far. Every count only grows, and stays at the greatest value
/// once it has reached it.
#[derive(Debug, Clone, Copy, PartialEq, Eq, Structural)]
pub struct ScanCounters {
    /// Directories taken from the work queue.
    pub dirs_scanned: u64,
    /// Directories dropped because an exclusion pattern matched.
    pub dirs_excluded: u64,
    /// Directories in which a repository marker was found.
    pub likely_repos: u64,
    /// Repositories that could be opened.
    pub repos_opened: u64,
    /// Repositories handed to the consumer.
    pub repos_emitted: u64,
    /// Marked directories that could not be opened as a repository.
    pub open_failures: u64,
    /// Time spent opening repositories, in nanoseconds.
    pub open_nanos: u64,
}

/// `count` and `more` added, or the greatest value where the sum is beyond it.
pub open spec fn capped_sum(count: u64, more: nat) -> u64 {
    if count + more > u64::MAX {
        u64::MAX
    } else {
        (count + more) as u64
    }
}

/// The name starts with a dot and is not the name of a repository marker.
pub open spec fn is_hidden_spec(name: Seq<char>) -> bool {
    name.len() > 0 && name[0] == '.' && name != ".git"@ && name != ".jj"@
}

/// Whether a directory of this name is hidden.
pub fn is_hidden(name: &str) -> (hidden: bool)
    ensures
        hidden == is_hidden_spec(name@),
{
    let chars = crate::text::chars_of(name);
    chars.len() > 0 && chars[0] == '.' && !(*name == *".git") && !(*name == *".jj")
}

/// An entry of a directory that was read.
#[derive(Debug, Clone, PartialEq, Eq)]
pub struct ChildEntry {
    /// The canonical path of the entry.
    pub path: String,
    pub is_dir: bool,
}

/// The entry is a directory that the scan descends into: it is not hidden, not on the
/// fast-skip list and not excluded by the user's patterns.
pub open spec fn admissible(entry: ChildEntry, excluder: Excluder, skip: SkipList) -> bool {
    &&& entry.is_dir
    &&& passes_name_filters(entry, skip)
    &&& !excluder.excludes(entry.path@)
}

/// The entry's name, where it has one, is neither hidden nor on the fast-skip list.
pub open spec fn passes_name_filters(entry: ChildEntry, skip: SkipList) -> bool {
    match base_name_spec(entry.path@) {
        Some(name) => !is_hidden_spec(name) && !skip.holds(name),
        None => true,
    }
}

/// The entry is a directory that passes the name filters and is dropped by a pattern.
pub open spec fn rejected_by_pattern(entry: ChildEntry, excluder: Excluder, skip: SkipList) -> bool {
    &&& entry.is_dir
    &&& passes_name_filters(entry, skip)
    &&& excluder.excludes(entry.path@)
}

/// The admissible entries of `children`, in order, each as a root of depth `depth`.
pub open spec fn admitted_children(
    children: Seq<ChildEntry>,
    depth: nat,
    excluder: Excluder,
    skip: SkipList,
) -> Seq<SearchRoot>
    decreases children.len(),
{
    if children.len() == 0 {
        seq![]
    } else {
        let init = admitted_children(children.drop_last(), depth, excluder, skip);
        if admissible(children.last(), excluder, skip) {
            init.push(SearchRoot { path: children.last().path@, depth })
        } else {
            init
        }
    }
}

/// How many entries of `children` are dropped by a pattern.
pub open spec fn pattern_rejections(children: Seq<ChildEntry>, excluder: Excluder, skip: SkipList) -> nat
    decreases children.len(),
{
    if children.len() == 0 {
        0
    } else {
        pattern_rejections(children.drop_last(), excluder, skip) + if rejected_by_pattern(
            children.last(),
            excluder,
            skip,
        ) {
            1nat
        } else {
            0nat
        }
    }
}

/// What was found when a directory was probed for a repository.
#[derive(Debug, Clone, PartialEq, Eq)]
pub enum RepoProbe {
    /// The directory holds no repository marker.
    NoMarker,
    /// A marker is there, but no repository could be opened; the attempt took `nanos`.
    OpenFailed { nanos: u64 },
    /// The repository behind the marker; opening it took `nanos`.
    Opened { repo: RepoProvider, nanos: u64 },
}

/// What came of reading a directory.
#[derive(Debug, Clone, PartialEq, Eq)]
pub enum Listing {
    /// The entries of the directory.
    Entries(Vec<ChildEntry>),
    /// The directory may not be read.
    PermissionDenied,
    /// Reading failed for another reason.
    Failed,
    /// The directory was not read: its depth budget is used up, or it is no directory.
    NotRead,
}

/// What the scan does next.
#[derive(Debug, Clone, PartialEq, Eq)]
pub enum ScanStep {
    /// Probe this directory, report the result with `classify`, read the directory if
    /// its depth is not zero, and report the listing with `complete`.
    Visit(SearchDirectory),
    /// This directory was dropped because an exclusion pattern matched its path.
    Excluded(SearchDirectory),
    /// The queue is empty, but directories are still being read: ask again later.
    Wait,
    /// The queue is empty and nothing is being read: the scan is complete.
    Done,
    /// The scan has ended early or was cancelled.
    Stopped,
}

/// The first position in `dirs` that holds `dir`'s path and depth.
pub open spec fn first_match(dirs: Seq<SearchRoot>, dir: SearchRoot) -> Option<int>
    decreases dirs.len(),
{
    if dirs.len() == 0 {
        None
    } else if dirs[0] == dir {
        Some(0)
    } else {
        match first_match(dirs.drop_first(), dir) {
            Some(i) => Some(i + 1),
            None => None,
        }
    }
}

/// `dirs` without the first entry that holds `dir`'s path and depth.
pub open spec fn without_first(dirs: Seq<SearchRoot>, dir: SearchRoot) -> Seq<SearchRoot> {
    match first_match(dirs, dir) {
        Some(i) => dirs.remove(i),
        None => dirs,
    }
}

proof fn lemma_first_match(dirs: Seq<SearchRoot>, dir: SearchRoot)
    ensures
        match first_match(dirs, dir) {
            Some(i) => 0 <= i < dirs.len() && dirs[i] == dir && forall|k: int|
                0 <= k < i ==> dirs[k] != dir,
            None => forall|k: int| 0 <= k < dirs.len() ==> dirs[k] != dir,
        },
    decreases dirs.len(),
{
    if dirs.len() > 0 && dirs[0] != dir {
        let rest = dirs.drop_first();
        lemma_first_match(rest, dir);
        match first_match(rest, dir) {
            Some(i) => {
                assert forall|k: int| 0 <= k < i + 1 implies dirs[k] != dir by {
                    if k > 0 {
                        assert(rest[k - 1] == dirs[k]);
                    }
                }
            },
            None => {
                assert forall|k: int| 0 <= k < dirs.len() implies dirs[k] != dir by {
                    if k > 0 {
                        assert(rest[k - 1] == dirs[k]);
                    }
                }
            },
        }
    }
}

fn find_dir(dirs: &Vec<SearchDirectory>, dir: &SearchDirectory) -> (found: Option<usize>)
    ensures
        match found {
            Some(i) => first_match(roots_of(dirs@), dir@) == Some(i as int) && i < dirs.len(),
            None => first_match(roots_of(dirs@), dir@) is None,
        },
{
    let ghost all = roots_of(dirs@);
    let mut i: usize = 0;
    while i < dirs.len()
        invariant
            i <= dirs.len(),
            all == roots_of(dirs@),
            forall|k: int| 0 <= k < i ==> all[k] != dir@,
        decreases dirs.len() - i,
    {
        assert(all[i as int] == dirs[i as int]@);
        if dirs[i].depth == dir.depth && *dirs[i].path.as_str() == *dir.path.as_str() {
            proof {
                lemma_first_match(all, dir@);
            }
            return Some(i);
        }
        i += 1;
    }
    proof {
        lemma_first_match(all, dir@);
    }
    None
}

/// The paths of `dirs`, in order.
pub open spec fn paths_of(dirs: Seq<SearchRoot>) -> Seq<Seq<char>> {
    dirs.map_values(|d: SearchRoot| d.path)
}

/// The discovery engine's decisions. It holds the work queue, the directories that are
/// being looked at, and what has been emitted; its caller reads the filesystem, reports
/// what it found, and passes on what is emitted.
pub struct Scanner {
    queue: Vec<SearchDirectory>,
    pending: Vec<SearchDirectory>,
    roots: Vec<String>,
    excluder: Excluder,
    skip: SkipList,
    counters: ScanCounters,
    emitted: Vec<String>,
    stopped: bool,
}

impl Scanner {
    /// The work queue; the next directory to be taken is the last.
    pub closed spec fn queue(&self) -> Seq<SearchRoot> {
        roots_of(self.queue@)
    }

    /// The directories handed out by `next_step` and not yet reported complete.
    pub closed spec fn pending(&self) -> Seq<SearchRoot> {
        roots_of(self.pending@)
    }

    /// The paths of the directories that the scan started from.
    pub closed spec fn root_paths(&self) -> Seq<Seq<char>> {
        texts(self.roots@)
    }

    /// The paths of the repositories emitted so far, in the order of emission.
    pub closed spec fn emitted(&self) -> Seq<Seq<char>> {
        texts(self.emitted@)
    }

    pub closed spec fn counters_spec(&self) -> ScanCounters {
        self.counters
    }

    /// The scan has ended early or was cancelled.
    pub closed spec fn stopped(&self) -> bool {
        self.stopped
    }

    pub closed spec fn excluder(&self) -> Excluder {
        self.excluder
    }

    pub closed spec fn skip_list(&self) -> SkipList {
        self.skip
    }

    /// No path was emitted twice; no directory that is being looked at is excluded; the
    /// fast-skip list is in order.
    pub closed spec fn wf(&self) -> bool {
        &&& texts(self.emitted@).no_duplicates()
        &&& self.skip.wf()
        &&& forall|i: int|
            0 <= i < self.pending@.len() ==> !self.excluder.excludes(
                (#[trigger] self.pending@[i]).path@,
            )
    }

    /// A scan that starts from `roots`, with nothing visited and nothing emitted.
    pub fn new(roots: Vec<SearchDirectory>, excluder: Excluder) -> (scanner: Scanner)
        ensures
            scanner.wf(),
            scanner.queue() == roots_of(roots@),
            scanner.root_paths() == paths_of(roots_of(roots@)),
            scanner.pending() == Seq::<SearchRoot>::empty(),
            scanner.emitted() == Seq::<Seq<char>>::empty(),
            scanner.counters_spec() == (ScanCounters {
                dirs_scanned: 0,
                dirs_excluded: 0,
                likely_repos: 0,
                repos_opened: 0,
                repos_emitted: 0,
                open_failures: 0,
                open_nanos: 0,
            }),
            !scanner.stopped(),
            scanner.excluder() == excluder,
            forall|name: Seq<char>|
                scanner.skip_list().holds(name) <==> slice_texts(fast_skip_names_spec()).contains(
                    name,
                ),
    {
        let mut root_paths: Vec<String> = Vec::new();
        let mut i: usize = 0;
        while i < roots.len()
            invariant
                i <= roots.len(),
                texts(root_paths@) =~= paths_of(roots_of(roots@)).take(i as int),
            decreases roots.len() - i,
        {
            let ghost prior = texts(root_paths@);
            root_paths.push(roots[i].path.clone());
            proof {
                let all = paths_of(roots_of(roots@));
                assert(texts(root_paths@) =~= prior.push(roots[i as int].path@));
                assert(all[i as int] == roots[i as int].path@);
                assert(all.take(i + 1) =~= all.take(i as int).push(all[i as int]));
            }
            i += 1;
        }
        assert(paths_of(roots_of(roots@)).take(roots.len() as int) =~= paths_of(roots_of(roots@)));
        let skip = SkipList::from_names(&fast_skip_names());
        let scanner = Scanner {
            queue: roots,
            pending: Vec::new(),
            roots: root_paths,
            excluder,
            skip,
            counters: ScanCounters {
                dirs_scanned: 0,
                dirs_excluded: 0,
                likely_repos: 0,
                repos_opened: 0,
                repos_emitted: 0,
                open_failures: 0,
                open_nanos: 0,
            },
            emitted: Vec::new(),
            stopped: false,
        };
        assert(texts(scanner.emitted@) =~= Seq::<Seq<char>>::empty());
        assert(roots_of(scanner.pending@) =~= Seq::<SearchRoot>::empty());
        scanner
    }

    pub fn counters(&self) -> (counters: ScanCounters)
        ensures
            counters == self.counters_spec(),
    {
        self.counters
    }

    pub fn is_stopped(&self) -> (stopped: bool)
        ensures
            stopped == self.stopped(),
    {
        self.stopped
    }

    /// How many directories wait in the queue.
    pub fn queue_len(&self) -> (len: usize)
        ensures
            len == self.queue().len(),
    {
        self.queue.len()
    }

    /// How many directories are being looked at.
    pub fn pending_len(&self) -> (len: usize)
        ensures
            len == self.pending().len(),
    {
        self.pending.len()
    }

    /// Everything but the queue, the pending directories, the counters and the stop flag
    /// is as in `before`.
    pub open spec fn same_setup(&self, before: &Scanner) -> bool {
        &&& self.root_paths() == before.root_paths()
        &&& self.excluder() == before.excluder()
        &&& self.skip_list() == before.skip_list()
    }

    /// Takes the next directory from the queue and says what is to be done.
    ///
    /// A stopped scan stays stopped. With an empty queue the scan is complete, or waits
    /// while directories are still being looked at. Otherwise the last directory of the
    /// queue is taken and counted: it is dropped where an exclusion pattern matches its
    /// path; else the scan stops where a stop rule holds for `elapsed_ms`, the directories
    /// counted and the repositories emitted; else the directory is handed out for a visit.
    pub fn next_step(&mut self, elapsed_ms: u64) -> (step: ScanStep)
        requires
            old(self).wf(),
        ensures
            final(self).wf(),
            final(self).same_setup(old(self)),
            final(self).emitted() == old(self).emitted(),
            old(self).stopped() ==> step == ScanStep::Stopped && final(self).stopped()
                && final(self).queue() == old(self).queue() && final(self).pending() == old(
                self,
            ).pending() && final(self).counters_spec() == old(self).counters_spec(),
            !old(self).stopped() && old(self).queue().len() == 0 ==> (step == if old(
                self,
            ).pending().len() == 0 {
                ScanStep::Done
            } else {
                ScanStep::Wait
            }) && !final(self).stopped() && final(self).queue() == old(self).queue()
                && final(self).pending() == old(self).pending() && final(self).counters_spec()
                == old(self).counters_spec(),
            !old(self).stopped() && old(self).queue().len() > 0 ==> ({
                let dir = old(self).queue().last();
                let before = old(self).counters_spec();
                let visited = capped_sum(before.dirs_scanned, 1);
                &&& final(self).queue() == old(self).queue().drop_last()
                &&& if old(self).excluder().excludes(dir.path) {
                    &&& step matches ScanStep::Excluded(dropped)
                    &&& dropped@ == dir
                    &&& !final(self).stopped()
                    &&& final(self).pending() == old(self).pending()
                    &&& final(self).counters_spec() == (ScanCounters {
                        dirs_scanned: visited,
                        dirs_excluded: capped_sum(before.dirs_excluded, 1),
                        ..before
                    })
                } else if stop_spec(elapsed_ms, visited, before.repos_emitted) {
                    &&& step == ScanStep::Stopped
                    &&& final(self).stopped()
                    &&& final(self).pending() == old(self).pending()
                    &&& final(self).counters_spec() == (ScanCounters {
                        dirs_scanned: visited,
                        ..before
                    })
                } else {
                    &&& step matches ScanStep::Visit(handed)
                    &&& handed@ == dir
                    &&& !final(self).stopped()
                    &&& final(self).pending() == old(self).pending().push(dir)
                    &&& final(self).counters_spec() == (ScanCounters {
                        dirs_scanned: visited,
                        ..before
                    })
                }
            }),
    {
        if self.stopped {
            return ScanStep::Stopped;
        }
        let ghost queue_before = self.queue@;
        match self.queue.pop() {
            None => {
                if self.pending.len() == 0 {
                    ScanStep::Done
                } else {
                    ScanStep::Wait
                }
            },
            Some(dir) => {
                proof {
                    assert(roots_of(self.queue@) =~= roots_of(queue_before).drop_last());
                    assert(roots_of(queue_before).last() == dir@);
                }
                self.counters.dirs_scanned = self.counters.dirs_scanned.saturating_add(1);
                if self.excluder.is_excluded(dir.path.as_str()) {
                    self.counters.dirs_excluded = self.counters.dirs_excluded.saturating_add(1);
                    return ScanStep::Excluded(dir);
                }
                if should_stop(elapsed_ms, self.counters.dirs_scanned, self.counters.repos_emitted) {
                    self.stopped = true;
                    return ScanStep::Stopped;
                }
                let ghost pending_before = self.pending@;
                self.pending.push(dir.duplicate());
                proof {
                    assert(roots_of(self.pending@) =~= roots_of(pending_before).push(dir@));
                }
                ScanStep::Visit(dir)
            },
        }
    }

    /// The repository found in `dir` is passed on to the consumer.
    ///
    /// That is so where the scan has not stopped, `dir` was handed out for a visit and is
    /// not yet complete, a repository was opened in it that is no worktree, the
    /// directory's path ends in a name, and no repository with this path was emitted
    /// before.
    pub open spec fn emits(&self, dir: SearchRoot, probe: RepoProbe) -> bool {
        &&& !self.stopped()
        &&& first_match(self.pending(), dir) is Some
        &&& probe matches RepoProbe::Opened { repo, .. }
        &&& !repo.is_worktree_spec()
        &&& base_name_spec(dir.path) is Some
        &&& !self.emitted().contains(dir.path)
    }

    /// The counters after the result of a probe was counted.
    pub open spec fn counted(before: ScanCounters, probe: RepoProbe, emitted: bool) -> ScanCounters {
        match probe {
            RepoProbe::NoMarker => before,
            RepoProbe::OpenFailed { nanos } => ScanCounters {
                likely_repos: capped_sum(before.likely_repos, 1),
                open_failures: capped_sum(before.open_failures, 1),
                open_nanos: capped_sum(before.open_nanos, nanos as nat),
                ..before
            },
            RepoProbe::Opened { nanos, .. } => ScanCounters {
                likely_repos: capped_sum(before.likely_repos, 1),
                repos_opened: capped_sum(before.repos_opened, 1),
                open_nanos: capped_sum(before.open_nanos, nanos as nat),
                repos_emitted: if emitted {
                    capped_sum(before.repos_emitted, 1)
                } else {
                    before.repos_emitted
                },
                ..before
            },
        }
    }

    /// Counts what the probe of `dir` found, and decides whether a repository is emitted.
    ///
    /// A session is returned exactly where `emits` holds. It is named after the directory
    /// and holds the repository that was opened; its path is then recorded as emitted.
    pub fn classify(&mut self, dir: &SearchDirectory, probe: RepoProbe) -> (session: Option<Session>)
        requires
            old(self).wf(),
        ensures
            final(self).wf(),
            final(self).same_setup(old(self)),
            final(self).queue() == old(self).queue(),
            final(self).pending() == old(self).pending(),
            final(self).stopped() == old(self).stopped(),
            session is Some <==> old(self).emits(dir@, probe),
            final(self).counters_spec() == Self::counted(
                old(self).counters_spec(),
                probe,
                session is Some,
            ),
            match session {
                Some(found) => {
                    &&& base_name_spec(dir.path@) == Some(found.name@)
                    &&& probe matches RepoProbe::Opened { repo, .. }
                    &&& found.session_type == SessionType::Git(Box::new(repo))
                    &&& final(self).emitted() == old(self).emitted().push(dir.path@)
                },
                None => final(self).emitted() == old(self).emitted(),
            },
    {
        match probe {
            RepoProbe::NoMarker => None,
            RepoProbe::OpenFailed { nanos } => {
                self.counters.likely_repos = self.counters.likely_repos.saturating_add(1);
                self.counters.open_failures = self.counters.open_failures.saturating_add(1);
                self.counters.open_nanos = self.counters.open_nanos.saturating_add(nanos);
                None
            },
            RepoProbe::Opened { repo, nanos } => {
                self.counters.likely_repos = self.counters.likely_repos.saturating_add(1);
                self.counters.repos_opened = self.counters.repos_opened.saturating_add(1);
                self.counters.open_nanos = self.counters.open_nanos.saturating_add(nanos);
                if self.stopped {
                    return None;
                }
                if find_dir(&self.pending, dir).is_none() {
                    return None;
                }
                if repo.is_worktree() {
                    return None;
                }
                let name = match base_name(dir.path.as_str()) {
                    Some(name) => name,
                    None => {
                        return None;
                    },
                };
                if position_of(&self.emitted, dir.path.as_str()).is_some() {
                    return None;
                }
                let ghost emitted_before = texts(self.emitted@);
                self.emitted.push(dir.path.clone());
                proof {
                    assert(texts(self.emitted@) =~= emitted_before.push(dir.path@));
                }
                self.counters.repos_emitted = self.counters.repos_emitted.saturating_add(1);
                Some(Session::new(name, SessionType::Git(Box::new(repo))))
            },
        }
    }

    /// The directory's entries are looked at: the scan has not stopped, `dir` was handed
    /// out for a visit and is not yet complete, its depth budget is not used up, and its
    /// entries were read.
    pub open spec fn enumerates(&self, dir: SearchRoot, listing: Listing) -> bool {
        &&& !self.stopped()
        &&& first_match(self.pending(), dir) is Some
        &&& dir.depth > 0
        &&& listing is Entries
    }

    /// Reading `dir` failed in a way that ends the scan: `dir` is one of the directories
    /// that the scan started from, and the failure is not one of permission.
    pub open spec fn fails(&self, dir: SearchRoot, listing: Listing) -> bool {
        listing is Failed && self.root_paths().contains(dir.path)
    }

    /// Takes the listing of `dir`, which is complete with this.
    ///
    /// Where `enumerates` holds, every admissible entry is put on the queue, in the order
    /// of the listing, one level deeper: with `dir`'s depth less one. Nothing else is ever
    /// put on the queue. A directory that may not be read is passed over; so is one whose
    /// reading failed, unless the scan started from it: that is an `IoError`.
    pub fn complete(&mut self, dir: &SearchDirectory, listing: Listing) -> (result: Result<
        (),
        TmsError,
    >)
        requires
            old(self).wf(),
        ensures
            final(self).wf(),
            final(self).same_setup(old(self)),
            final(self).emitted() == old(self).emitted(),
            final(self).stopped() == old(self).stopped(),
            final(self).pending() == without_first(old(self).pending(), dir@),
            result is Err <==> old(self).fails(dir@, listing),
            result matches Err(error) ==> error == TmsError::IoError,
            old(self).enumerates(dir@, listing) ==> final(self).queue() == old(self).queue()
                + admitted_children(
                listing->Entries_0@,
                (dir.depth - 1) as nat,
                old(self).excluder(),
                old(self).skip_list(),
            ) && final(self).counters_spec() == (ScanCounters {
                dirs_excluded: capped_sum(
                    old(self).counters_spec().dirs_excluded,
                    pattern_rejections(
                        listing->Entries_0@,
                        old(self).excluder(),
                        old(self).skip_list(),
                    ),
                ),
                ..old(self).counters_spec()
            }),
            !old(self).enumerates(dir@, listing) ==> final(self).queue() == old(self).queue()
                && final(self).counters_spec() == old(self).counters_spec(),
    {
        let found = find_dir(&self.pending, dir);
        let ghost pending_before = self.pending@;
        if let Some(index) = found {
            self.pending.remove(index);
            proof {
                assert(roots_of(self.pending@) =~= roots_of(pending_before).remove(index as int));
                assert forall|i: int| 0 <= i < self.pending@.len() implies !self.excluder.excludes(
                    (#[trigger] self.pending@[i]).path@,
                ) by {
                    if i < index {
                        assert(self.pending@[i] == pending_before[i]);
                    } else {
                        assert(self.pending@[i] == pending_before[i + 1]);
                    }
                }
            }
        }
        match listing {
            Listing::Failed => {
                if position_of(&self.roots, dir.path.as_str()).is_some() {
                    Err(TmsError::IoError)
                } else {
                    Ok(())
                }
            },
            Listing::Entries(children) => {
                if found.is_some() && !self.stopped && dir.depth > 0 {
                    let depth = dir.depth - 1;
                    let ghost queue_before = roots_of(self.queue@);
                    let ghost excluded_before = self.counters.dirs_excluded;
                    let mut i: usize = 0;
                    while i < children.len()
                        invariant
                            i <= children.len(),
                            depth == dir.depth - 1,
                            self.skip.wf(),
                            self.excluder == old(self).excluder,
                            self.skip == old(self).skip,
                            self.roots == old(self).roots,
                            self.emitted == old(self).emitted,
                            self.stopped == old(self).stopped,
                            self.pending@ == pending_before.remove(found->0 as int),
                            self.counters == (ScanCounters {
                                dirs_excluded: self.counters.dirs_excluded,
                                ..old(self).counters
                            }),
                            self.counters.dirs_excluded == capped_sum(
                                excluded_before,
                                pattern_rejections(
                                    children@.take(i as int),
                                    self.excluder,
                                    self.skip,
                                ),
                            ),
                            roots_of(self.queue@) =~= queue_before + admitted_children(
                                children@.take(i as int),
                                depth as nat,
                                self.excluder,
                                self.skip,
                            ),
                        decreases children.len() - i,
                    {
                        let ghost seen = children@.take(i as int);
                        let ghost so_far = admitted_children(
                            seen,
                            depth as nat,
                            self.excluder,
                            self.skip,
                        );
                        proof {
                            assert(children@.take(i + 1).drop_last() =~= seen);
                            assert(children@.take(i + 1).last() == children@[i as int]);
                        }
                        let child = &children[i];
                        if child.is_dir {
                            let passes = match base_name(child.path.as_str()) {
                                Some(name) => !is_hidden(name.as_str()) && !self.skip.contains(
                                    name.as_str(),
                                ),
                                None => true,
                            };
                            if passes {
                                if self.excluder.is_excluded(child.path.as_str()) {
                                    self.counters.dirs_excluded =
                                    self.counters.dirs_excluded.saturating_add(1);
                                } else {
                                    let entry = SearchDirectory::new(child.path.clone(), depth);
                                    let ghost prior = self.queue@;
                                    self.queue.push(entry);
                                    proof {
                                        assert(roots_of(self.queue@) =~= roots_of(prior).push(
                                            entry@,
                                        ));
                                        assert(roots_of(prior).push(entry@) =~= queue_before
                                            + so_far.push(entry@));
                                    }
                                }
                            }
                        }
                        i += 1;
                    }
                    proof {
                        assert(children@.take(children.len() as int) =~= children@);
                    }
                }
                Ok(())
            },
            _ => Ok(()),
        }
    }

    /// Ends the scan at the consumer's wish: the queue is emptied, and from now on nothing
    /// is visited, emitted or put on the queue.
    pub fn cancel(&mut self)
        requires
            old(self).wf(),
        ensures
            final(self).wf(),
            final(self).same_setup(old(self)),
            final(self).stopped(),
            final(self).queue() == Seq::<SearchRoot>::empty(),
            final(self).pending() == old(self).pending(),
            final(self).emitted() == old(self).emitted(),
            final(self).counters_spec() == old(self).counters_spec(),
    {
        self.stopped = true;
        self.queue.clear();
        assert(roots_of(self.queue@) =~= Seq::<SearchRoot>::empty());
    }
}

impl Scanner {
    /// In any run no path is emitted more than once: the paths emitted so far are all
    /// different, and `classify` emits none of them again.
    pub proof fn lemma_emission_unique(&self, dir: SearchRoot, probe: RepoProbe)
        requires
            self.wf(),
        ensures
            self.emitted().no_duplicates(),
            self.emits(dir, probe) ==> self.emitted().push(dir.path).no_duplicates(),
    {
        if self.emits(dir, probe) {
            let before = self.emitted();
            let after = before.push(dir.path);
            assert forall|i: int, j: int| 0 <= i < after.len() && 0 <= j < after.len() && i != j implies after[i]
                != after[j] by {
                if i < before.len() && j < before.len() {
                    assert(before[i] != before[j]);
                } else if i < before.len() {
                    assert(before.contains(before[i]));
                } else {
                    assert(before.contains(before[j]));
                }
            }
        }
    }

    /// Once the scan has stopped, by a stop rule or at the consumer's wish, nothing is
    /// emitted and no directory is entered any more.
    pub proof fn lemma_stopped_is_quiet(&self, dir: SearchRoot, probe: RepoProbe, listing: Listing)
        requires
            self.stopped(),
        ensures
            !self.emits(dir, probe),
            !self.enumerates(dir, listing),
    {
    }

    /// A repository whose pointer to its main repository differs from itself is never
    /// emitted.
    pub proof fn lemma_worktree_suppressed(&self, dir: SearchRoot, repo: RepoProvider, nanos: u64)
        requires
            repo.is_worktree_spec(),
        ensures
            !self.emits(dir, RepoProbe::Opened { repo, nanos }),
    {
    }

    /// A directory whose path holds an exclusion pattern as a substring is neither
    /// emitted nor entered, and no entry of a listing is put on the queue whose path holds
    /// one.
    pub proof fn lemma_exclusion_sound(
        &self,
        dir: SearchRoot,
        probe: RepoProbe,
        listing: Listing,
        children: Seq<ChildEntry>,
        depth: nat,
    )
        requires
            self.wf(),
        ensures
            self.excluder().excludes(dir.path) ==> !self.emits(dir, probe) && !self.enumerates(
                dir,
                listing,
            ),
            forall|i: int|
                0 <= i < admitted_children(
                    children,
                    depth,
                    self.excluder(),
                    self.skip_list(),
                ).len() ==> !self.excluder().excludes(
                    (#[trigger] admitted_children(
                        children,
                        depth,
                        self.excluder(),
                        self.skip_list(),
                    )[i]).path,
                ),
    {
        lemma_admitted_children(children, depth, self.excluder(), self.skip_list());
        if self.excluder().excludes(dir.path) {
            lemma_first_match(self.pending(), dir);
            if first_match(self.pending(), dir) is Some {
                let i = first_match(self.pending(), dir)->0;
                assert(self.pending()[i] == self.pending@[i]@);
                assert(!self.excluder.excludes(self.pending@[i].path@));
            }
        }
    }
}

/// Every root that a listing contributes has the depth asked for and the path of an
/// admissible entry of the listing.
pub proof fn lemma_admitted_children(
    children: Seq<ChildEntry>,
    depth: nat,
    excluder: Excluder,
    skip: SkipList,
)
    ensures
        forall|i: int|
            0 <= i < admitted_children(children, depth, excluder, skip).len() ==> {
                let root = #[trigger] admitted_children(children, depth, excluder, skip)[i];
                &&& root.depth == depth
                &&& !excluder.excludes(root.path)
                &&& exists|k: int|
                    0 <= k < children.len() && admissible(#[trigger] children[k], excluder, skip)
                        && children[k].path@ == root.path
            },
    decreases children.len(),
{
    if children.len() > 0 {
        let init = children.drop_last();
        lemma_admitted_children(init, depth, excluder, skip);
        let all = admitted_children(children, depth, excluder, skip);
        let before = admitted_children(init, depth, excluder, skip);
        assert forall|i: int| 0 <= i < all.len() implies {
            let root = #[trigger] all[i];
            &&& root.depth == depth
            &&& !excluder.excludes(root.path)
            &&& exists|k: int|
                0 <= k < children.len() && admissible(#[trigger] children[k], excluder, skip)
                    && children[k].path@ == root.path
        } by {
            if i < before.len() {
                let root = before[i];
                let k = choose|k: int|
                    0 <= k < init.len() && admissible(#[trigger] init[k], excluder, skip) && init[k].path@
                        == root.path;
                assert(children[k] == init[k]);
            } else {
                assert(admissible(children[children.len() - 1], excluder, skip));
            }
        }
    }
}

/// Each directory of `chain` but the first was put on the queue from the listing of the
/// one before it: that one had depth left, and gave one less to the next.
pub open spec fn is_descent(chain: Seq<SearchRoot>) -> bool {
    forall|i: int|
        0 <= i < chain.len() - 1 ==> (#[trigger] chain[i]).depth > 0 && chain[i + 1].depth
            == chain[i].depth - 1
}

/// Below a root of depth `d` no directory more than `d` levels down is reached: the
/// directory `k` levels down has depth `d - k` left, so `k` is at most `d`; and a
/// directory `d` levels down has no depth left, so its entries are not looked at.
pub proof fn lemma_depth_bound(chain: Seq<SearchRoot>, k: int)
    requires
        is_descent(chain),
        0 <= k < chain.len(),
    ensures
        chain[k].depth + k == chain[0].depth,
        k <= chain[0].depth,
        k == chain[0].depth ==> chain[k].depth == 0,
    decreases k,
{
    if k > 0 {
        lemma_depth_bound(chain, k - 1);
        assert(chain[k - 1].depth > 0 && chain[(k - 1) + 1].depth == chain[k - 1].depth - 1);
    }
}

/// The name of the directory that marks a repository of the given system.
pub open spec fn marker_name_spec(provider: VcsProviders) -> Seq<char> {
    match provider {
        VcsProviders::Git => ".git"@,
        VcsProviders::Jujutsu => ".jj"@,
    }
}

pub fn marker_name(provider: VcsProviders) -> (name: &'static str)
    ensures
        name@ == marker_name_spec(provider),
{
    match provider {
        VcsProviders::Git => ".git",
        VcsProviders::Jujutsu => ".jj",
    }
}

/// The version-control systems that a directory is tried as, in the order of preference:
/// those of the configuration, or Git alone where it names none.
pub open spec fn provider_order_spec(config: Config) -> Seq<VcsProviders> {
    match config.vcs_providers {
        Some(providers) => providers@,
        None => seq![VcsProviders::Git],
    }
}

pub fn provider_order(config: &Config) -> (order: Vec<VcsProviders>)
    ensures
        order@ == provider_order_spec(*config),
{
    match &config.vcs_providers {
        Some(providers) => {
            let mut order: Vec<VcsProviders> = Vec::new();
            let mut i: usize = 0;
            while i < providers.len()
                invariant
                    i <= providers.len(),
                    order@ == providers@.take(i as int),
                decreases providers.len() - i,
            {
                order.push(providers[i]);
                i += 1;
            }
            assert(providers@.take(providers.len() as int) =~= providers@);
            order
        },
        None => crate::configs::default_vcs_providers(),
    }
}

/// The repository that the first system of `order` gives which could open one.
pub open spec fn first_opened(
    order: Seq<VcsProviders>,
    git: Option<GitRepository>,
    jujutsu: Option<JujutsuWorkspace>,
) -> Option<RepoProvider>
    decreases order.len(),
{
    if order.len() == 0 {
        None
    } else {
        match order[0] {
            VcsProviders::Git if git is Some => Some(RepoProvider::Git(git->0)),
            VcsProviders::Jujutsu if jujutsu is Some => Some(RepoProvider::Jujutsu(jujutsu->0)),
            _ => first_opened(order.drop_first(), git, jujutsu),
        }
    }
}

impl RepoProvider {
    /// The repository at a path, from what opening the path as a repository of each
    /// system gave: `git` and `jujutsu` are the repositories that could be opened, `None`
    /// standing for a failure or for a system that was not tried. The systems are taken in
    /// the configured order, and the first that could open a repository wins. Where none
    /// could, the error is `GitError`.
    pub fn open(config: &Config, git: Option<GitRepository>, jujutsu: Option<JujutsuWorkspace>) -> (opened: Result<
        RepoProvider,
        TmsError,
    >)
        ensures
            match opened {
                Ok(repo) => first_opened(provider_order_spec(*config), git, jujutsu) == Some(repo),
                Err(error) => first_opened(provider_order_spec(*config), git, jujutsu) is None
                    && error == TmsError::GitError,
            },
    {
        let order = provider_order(config);
        let mut i: usize = 0;
        assert(order@.skip(0) =~= order@);
        while i < order.len()
            invariant
                i <= order.len(),
                order@ == provider_order_spec(*config),
                first_opened(order@, git, jujutsu) == first_opened(
                    order@.skip(i as int),
                    git,
                    jujutsu,
                ),
            decreases order.len() - i,
        {
            proof {
                assert(order@.skip(i as int)[0] == order@[i as int]);
                assert(order@.skip(i as int).drop_first() =~= order@.skip(i + 1));
            }
            match order[i] {
                VcsProviders::Git => {
                    if git.is_some() {
                        return Ok(RepoProvider::Git(git.unwrap()));
                    }
                },
                VcsProviders::Jujutsu => {
                    if jujutsu.is_some() {
                        return Ok(RepoProvider::Jujutsu(jujutsu.unwrap()));
                    }
                },
            }
            i += 1;
        }
        Err(TmsError::GitError)
    }

    /// `candidate` is a workspace that belongs to the repository of the Jujutsu workspace
    /// `owner`, and is not its main workspace.
    pub open spec fn is_workspace_of(candidate: RepoProvider, owner: JujutsuWorkspace) -> bool {
        &&& candidate is Jujutsu
        &&& candidate.is_worktree_spec()
        &&& normalize_spec(candidate->Jujutsu_0.repo_path@) == normalize_spec(owner.repo_path@)
    }

    /// `candidate` is a workspace whose repository lies in the workspace directory `root`.
    pub open spec fn is_workspace_in(candidate: RepoProvider, root: Seq<char>) -> bool {
        &&& candidate is Jujutsu
        &&& normalize_spec(candidate->Jujutsu_0.repo_path@) == normalize_spec(
            join_spec(root, jj_repo_dir()),
        )
    }

    /// The candidates that belong to the workspace `owner`: those that are workspaces of
    /// its repository, or, where `inside` is set, those whose repository lies in its
    /// directory. They keep their order.
    pub open spec fn workspaces_among(
        candidates: Seq<RepoProvider>,
        owner: JujutsuWorkspace,
        inside: bool,
    ) -> Seq<RepoProvider>
        decreases candidates.len(),
    {
        if candidates.len() == 0 {
            seq![]
        } else {
            let init = Self::workspaces_among(candidates.drop_last(), owner, inside);
            let last = candidates.last();
            if (inside && Self::is_workspace_in(last, owner.workspace_root@)) || (!inside
                && Self::is_workspace_of(last, owner)) {
                init.push(last)
            } else {
                init
            }
        }
    }

    /// The workspaces among `found` that belong to this workspace's repository; for a
    /// workspace without files of its own also the workspaces among `children`, the
    /// repositories directly below it, that use the repository lying in it. A Git
    /// repository has none of these: its worktrees are read from its own records.
    pub open spec fn workspaces_spec(
        self,
        found: Seq<RepoProvider>,
        children: Seq<RepoProvider>,
    ) -> Seq<RepoProvider> {
        match self {
            RepoProvider::Git(_) => seq![],
            RepoProvider::Jujutsu(owner) => Self::workspaces_among(found, owner, false) + if owner.bare {
                Self::workspaces_among(children, owner, true)
            } else {
                seq![]
            },
        }
    }

    /// The other workspaces of a Jujutsu repository: see `workspaces_spec`.
    pub fn worktrees(&self, found: &Vec<RepoProvider>, children: &Vec<RepoProvider>) -> (workspaces: Vec<
        RepoProvider,
    >)
        ensures
            workspaces@ == self.workspaces_spec(found@, children@),
    {
        let mut workspaces: Vec<RepoProvider> = Vec::new();
        match self {
            RepoProvider::Git(_) => {},
            RepoProvider::Jujutsu(owner) => {
                let own_repo = normalize_path(owner.repo_path.as_str());
                let mut i: usize = 0;
                assert(found@.take(0) =~= Seq::<RepoProvider>::empty());
                while i < found.len()
                    invariant
                        i <= found.len(),
                        own_repo@ == normalize_spec(owner.repo_path@),
                        workspaces@ == Self::workspaces_among(found@.take(i as int), *owner, false),
                    decreases found.len() - i,
                {
                    proof {
                        assert(found@.take(i + 1).drop_last() =~= found@.take(i as int));
                        assert(found@.take(i + 1).last() == found@[i as int]);
                    }
                    if let RepoProvider::Jujutsu(candidate) = &found[i] {
                        if found[i].is_worktree() {
                            let theirs = normalize_path(candidate.repo_path.as_str());
                            if theirs == own_repo {
                                workspaces.push(found[i].duplicate());
                            }
                        }
                    }
                    i += 1;
                }
                assert(found@.take(found.len() as int) =~= found@);
                if owner.bare {
                    let inner = join_path(owner.workspace_root.as_str(), ".jj/repo");
                    let inner = normalize_path(inner.as_str());
                    let ghost first = workspaces@;
                    let mut k: usize = 0;
                    assert(children@.take(0) =~= Seq::<RepoProvider>::empty());
                    assert(first + Seq::<RepoProvider>::empty() =~= first);
                    while k < children.len()
                        invariant
                            k <= children.len(),
                            inner@ == normalize_spec(
                                join_spec(owner.workspace_root@, jj_repo_dir()),
                            ),
                            workspaces@ == first + Self::workspaces_among(
                                children@.take(k as int),
                                *owner,
                                true,
                            ),
                        decreases children.len() - k,
                    {
                        let ghost so_far = Self::workspaces_among(
                            children@.take(k as int),
                            *owner,
                            true,
                        );
                        proof {
                            assert(children@.take(k + 1).drop_last() =~= children@.take(k as int));
                            assert(children@.take(k + 1).last() == children@[k as int]);
                        }
                        if let RepoProvider::Jujutsu(candidate) = &children[k] {
                            let theirs = normalize_path(candidate.repo_path.as_str());
                            if theirs == inner {
                                workspaces.push(children[k].duplicate());
                                assert(workspaces@ =~= first + so_far.push(children@[k as int]));
                            }
                        }
                        k += 1;
                    }
                    assert(children@.take(children.len() as int) =~= children@);
                } else {
                    assert(workspaces@ + Seq::<RepoProvider>::empty() =~= workspaces@);
                }
            },
        }
        workspaces
    }
}

/// How a first working directory is added to a repository without one.
#[derive(Debug, Clone, PartialEq, Eq)]
pub struct WorktreePlan {
    /// The program to run, in the repository's directory.
    pub program: String,
    pub args: Vec<String>,
    /// The name of the new working directory.
    pub name: String,
    /// Where it will lie.
    pub path: String,
}

/// The name of the workspace that is added to a Jujutsu repository.
pub open spec fn trunk_name() -> Seq<char> {
    "trunk"@
}

impl RepoProvider {
    /// The name of the working directory that is added: the checked-out branch of a Git
    /// repository, where it has one, and `trunk` for a Jujutsu repository.
    pub open spec fn new_worktree_name(&self) -> Option<Seq<char>> {
        match self {
            RepoProvider::Git(repo) => match repo.head {
                Some(head) => Some(head@),
                None => None,
            },
            RepoProvider::Jujutsu(_) => Some(trunk_name()),
        }
    }

    /// The arguments with which the version-control program adds the working directory
    /// `name`.
    pub open spec fn worktree_args(&self, name: Seq<char>) -> Seq<Seq<char>> {
        match self {
            RepoProvider::Git(_) => seq!["worktree"@, "add"@, name],
            RepoProvider::Jujutsu(_) => seq!["workspace"@, "add"@, "-r"@, "trunk()"@, name],
        }
    }

    /// How a working directory is added to the repository that lies at `path`: for a Git
    /// repository the checked-out branch becomes a worktree below `path`; one without a
    /// branch gets none. For a Jujutsu repository a workspace `trunk` is added at the
    /// trunk.
    pub fn add_worktree(&self, path: &str) -> (plan: Option<WorktreePlan>)
        ensures
            match plan {
                Some(plan) => {
                    &&& self.new_worktree_name() == Some(plan.name@)
                    &&& plan.program@ == match self {
                        RepoProvider::Git(_) => "git"@,
                        RepoProvider::Jujutsu(_) => "jj"@,
                    }
                    &&& texts(plan.args@) == self.worktree_args(plan.name@)
                    &&& plan.path@ == join_spec(path@, plan.name@)
                },
                None => self.new_worktree_name() is None,
            },
    {
        match self {
            RepoProvider::Git(repo) => match &repo.head {
                Some(head) => {
                    let mut args: Vec<String> = Vec::new();
                    args.push("worktree".to_string());
                    args.push("add".to_string());
                    args.push(head.clone());
                    assert(texts(args@) =~= self.worktree_args(head@));
                    Some(
                        WorktreePlan {
                            program: "git".to_string(),
                            args,
                            name: head.clone(),
                            path: join_path(path, head.as_str()),
                        },
                    )
                },
                None => None,
            },
            RepoProvider::Jujutsu(_) => {
                let mut args: Vec<String> = Vec::new();
                args.push("workspace".to_string());
                args.push("add".to_string());
                args.push("-r".to_string());
                args.push("trunk()".to_string());
                args.push("trunk".to_string());
                assert(texts(args@) =~= self.worktree_args(trunk_name()));
                Some(
                    WorktreePlan {
                        program: "jj".to_string(),
                        args,
                        name: "trunk".to_string(),
                        path: join_path(path, "trunk"),
                    },
                )
            },
        }
    }
}

} // verus!
