use vstd::prelude::*;
use crate::configs::{
    coalesce, Config, LocalCachedSession, LocalRepoCache, LocalSessionType, roots_of,
    SearchDirectory,
};
use crate::error::TmsError;
use crate::github::{is_fresh, is_fresh_spec};
use crate::paths::join_spec;
use crate::repos::RepoProvider;
use crate::session::{Session, SessionContainer, SessionMap, SessionType, SessionView};
use crate::state::StateManager;
use crate::text::{clone_strings, texts};

verus! {

/// The configured bookmarks as texts; none where the option is absent.
pub open spec fn bookmarks_of(config: Config) -> Seq<Seq<char>> {
    match config.bookmarks {
        Some(list) => texts(list@),
        None => seq![],
    }
}

/// The snapshot was made under the live configuration: the search roots it records are
/// the roots that the configuration gives now, in the same order, and the bookmarks it
/// records are the configured bookmarks. A configuration that gives no roots matches no
/// snapshot.
pub open spec fn snapshot_matches(
    cached: LocalRepoCache,
    config: Config,
    resolved_dirs: Seq<Option<String>>,
    resolved_paths: Seq<Option<String>>,
) -> bool {
    &&& config.configured_roots(resolved_dirs, resolved_paths).len() > 0
    &&& roots_of(cached.search_dirs@) == coalesce(
        config.configured_roots(resolved_dirs, resolved_paths),
    )
    &&& texts(cached.bookmarks@) == bookmarks_of(config)
}

/// The snapshot may stand in for a scan: no refresh is forced, the snapshot was made
/// under the live configuration, and it is not older than the configured time.
pub open spec fn snapshot_usable(
    cached: LocalRepoCache,
    config: Config,
    resolved_dirs: Seq<Option<String>>,
    resolved_paths: Seq<Option<String>>,
    force_refresh: bool,
    now: u64,
) -> bool {
    &&& !force_refresh
    &&& snapshot_matches(cached, config, resolved_dirs, resolved_paths)
    &&& is_fresh_spec(
        cached.cached_at,
        now,
        match config.local_cache_duration_hours {
            Some(hours) => hours,
            None => crate::configs::DEFAULT_LOCAL_CACHE_HOURS,
        },
    )
}

/// A snapshot whose search roots or whose bookmarks are not those of the live
/// configuration never stands in for a scan.
pub proof fn lemma_stale_snapshot_is_not_used(
    cached: LocalRepoCache,
    config: Config,
    resolved_dirs: Seq<Option<String>>,
    resolved_paths: Seq<Option<String>>,
    force_refresh: bool,
    now: u64,
)
    requires
        roots_of(cached.search_dirs@) != coalesce(
            config.configured_roots(resolved_dirs, resolved_paths),
        ) || texts(cached.bookmarks@) != bookmarks_of(config),
    ensures
        !snapshot_usable(cached, config, resolved_dirs, resolved_paths, force_refresh, now),
{
}

fn same_dirs(a: &Vec<SearchDirectory>, b: &Vec<SearchDirectory>) -> (same: bool)
    ensures
        same == (roots_of(a@) == roots_of(b@)),
{
    if a.len() != b.len() {
        assert(roots_of(a@).len() != roots_of(b@).len());
        return false;
    }
    let mut i: usize = 0;
    while i < a.len()
        invariant
            i <= a.len(),
            a.len() == b.len(),
            forall|k: int| 0 <= k < i ==> roots_of(a@)[k] == roots_of(b@)[k],
        decreases a.len() - i,
    {
        if a[i].depth != b[i].depth || !(*a[i].path.as_str() == *b[i].path.as_str()) {
            assert(roots_of(a@)[i as int] != roots_of(b@)[i as int]);
            return false;
        }
        i += 1;
    }
    assert(roots_of(a@) =~= roots_of(b@));
    true
}

fn same_texts(a: &Vec<String>, b: &Vec<String>) -> (same: bool)
    ensures
        same == (texts(a@) == texts(b@)),
{
    if a.len() != b.len() {
        assert(texts(a@).len() != texts(b@).len());
        return false;
    }
    let mut i: usize = 0;
    while i < a.len()
        invariant
            i <= a.len(),
            a.len() == b.len(),
            forall|k: int| 0 <= k < i ==> texts(a@)[k] == texts(b@)[k],
        decreases a.len() - i,
    {
        if !(*a[i].as_str() == *b[i].as_str()) {
            assert(texts(a@)[i as int] != texts(b@)[i as int]);
            return false;
        }
        i += 1;
    }
    assert(texts(a@) =~= texts(b@));
    true
}

/// The kind under which a session is recorded in the snapshot.
pub open spec fn recorded_kind(session_type: SessionType) -> LocalSessionType {
    match session_type {
        SessionType::Git(repo) => match *repo {
            RepoProvider::Git(_) => LocalSessionType::Git,
            RepoProvider::Jujutsu(_) => LocalSessionType::Jujutsu,
        },
        SessionType::Bookmark(_) => LocalSessionType::Bookmark,
        SessionType::GitHub { .. } => LocalSessionType::Git,
    }
}

/// The session that a record of the snapshot stands for, `opened` being the repository
/// found at the recorded path: a bookmark needs none; a repository that is not there any
/// more gives no session.
pub open spec fn restored(entry: LocalCachedSession, opened: Option<RepoProvider>) -> Option<
    SessionView,
> {
    match entry.session_type {
        LocalSessionType::Bookmark => Some(
            SessionView { name: entry.name@, session_type: SessionType::Bookmark(entry.path) },
        ),
        _ => match opened {
            Some(repo) => Some(
                SessionView { name: entry.name@, session_type: SessionType::Git(Box::new(repo)) },
            ),
            None => None,
        },
    }
}

/// The repository found for the record at position `i`, where there is one.
pub open spec fn opened_at(opened: Seq<Option<RepoProvider>>, i: int) -> Option<RepoProvider> {
    if 0 <= i < opened.len() {
        opened[i]
    } else {
        None
    }
}

/// The container that the first `count` records of a snapshot give: each session that can
/// be restored, under its recorded name.
pub open spec fn restore_all(
    entries: Seq<LocalCachedSession>,
    opened: Seq<Option<RepoProvider>>,
    count: nat,
) -> Map<Seq<char>, SessionView>
    decreases count,
{
    if count == 0 {
        Map::empty()
    } else {
        let before = restore_all(entries, opened, (count - 1) as nat);
        match restored(entries[count - 1], opened_at(opened, count - 1)) {
            Some(session) => before.insert(entries[count - 1].name@, session),
            None => before,
        }
    }
}

/// Decides between the kept local scan and a fresh one, and turns one into the other.
#[derive(Debug, Clone, PartialEq, Eq)]
pub struct LocalCacheManager {
    pub state_manager: StateManager,
}

impl LocalCacheManager {
    /// A manager whose snapshot lies where the environment says; see `StateManager::new`.
    pub fn new(
        xdg_state_home: Option<String>,
        xdg_cache_home: Option<String>,
        home: Option<String>,
    ) -> (made: Result<LocalCacheManager, TmsError>)
        ensures
            match made {
                Ok(manager) => manager.state_manager.is_new_for(xdg_state_home, xdg_cache_home, home),
                Err(error) => {
                    &&& error == TmsError::IoError
                    &&& (crate::state::xdg_home_spec(
                        xdg_state_home,
                        home,
                        crate::state::default_state_home(),
                    ) is None || crate::state::xdg_home_spec(
                        xdg_cache_home,
                        home,
                        crate::state::default_cache_home(),
                    ) is None)
                },
            },
    {
        match StateManager::new(xdg_state_home, xdg_cache_home, home) {
            Ok(state_manager) => Ok(LocalCacheManager { state_manager }),
            Err(error) => Err(error),
        }
    }

    pub fn with_state_manager(state_manager: StateManager) -> (manager: LocalCacheManager)
        ensures
            manager.state_manager == state_manager,
    {
        LocalCacheManager { state_manager }
    }

    /// The file that holds the local scan between runs.
    pub fn cache_file(&self) -> (path: String)
        ensures
            path@ == join_spec(self.state_manager.cache_dir(), "local"@),
    {
        self.state_manager.get_local_cache_file_path()
    }

    /// Whether the snapshot was made under the live configuration. `resolved_dirs` and
    /// `resolved_paths` are the canonical paths of the configured search entries, as for
    /// `Config::search_dirs`.
    pub fn is_cache_config_valid(
        &self,
        cached: &LocalRepoCache,
        current_config: &Config,
        resolved_dirs: &Vec<Option<String>>,
        resolved_paths: &Vec<Option<String>>,
    ) -> (valid: bool)
        ensures
            valid == snapshot_matches(*cached, *current_config, resolved_dirs@, resolved_paths@),
    {
        match current_config.search_dirs(resolved_dirs, resolved_paths) {
            Ok(current) => {
                if !same_dirs(&cached.search_dirs, &current) {
                    return false;
                }
            },
            Err(_) => {
                return false;
            },
        }
        match &current_config.bookmarks {
            Some(bookmarks) => same_texts(&cached.bookmarks, bookmarks),
            None => {
                proof {
                    assert(texts(cached.bookmarks@).len() == cached.bookmarks@.len());
                    if cached.bookmarks@.len() == 0 {
                        assert(texts(cached.bookmarks@) =~= Seq::<Seq<char>>::empty());
                    }
                }
                cached.bookmarks.len() == 0
            },
        }
    }

    /// The snapshot that stands in for a scan, where one does: `cached` is what the
    /// snapshot file held, `None` standing for a file that is absent or cannot be
    /// understood. A snapshot that was made under another configuration, or that is too
    /// old, is never handed back; the directories are then scanned afresh.
    pub fn get_local_sessions(
        &self,
        config: &Config,
        force_refresh: bool,
        cached: Option<LocalRepoCache>,
        resolved_dirs: &Vec<Option<String>>,
        resolved_paths: &Vec<Option<String>>,
        now: u64,
    ) -> (usable: Option<LocalRepoCache>)
        ensures
            match usable {
                Some(record) => cached == Some(record) && snapshot_usable(
                    record,
                    *config,
                    resolved_dirs@,
                    resolved_paths@,
                    force_refresh,
                    now,
                ),
                None => cached matches Some(record) ==> !snapshot_usable(
                    record,
                    *config,
                    resolved_dirs@,
                    resolved_paths@,
                    force_refresh,
                    now,
                ),
            },
    {
        if force_refresh {
            return None;
        }
        match cached {
            Some(record) => {
                if is_fresh(record.cached_at, now, config.get_local_cache_duration_hours())
                    && self.is_cache_config_valid(&record, config, resolved_dirs, resolved_paths) {
                    Some(record)
                } else {
                    None
                }
            },
            None => None,
        }
    }

    /// The sessions of a snapshot: `opened[i]` is the repository found at the path of the
    /// `i`-th record, `None` where there is none any more. Each session stands under its
    /// recorded name; a later record replaces an earlier one of the same name.
    pub fn convert_cached_to_sessions(
        &self,
        cached: &LocalRepoCache,
        opened: &Vec<Option<RepoProvider>>,
    ) -> (sessions: SessionMap)
        ensures
            sessions.valid(),
            sessions@ == restore_all(cached.sessions@, opened@, cached.sessions@.len()),
    {
        let mut sessions = SessionMap::new();
        proof {
            sessions.lemma_names();
            assert(sessions@ =~= Map::<Seq<char>, SessionView>::empty());
        }
        let mut i: usize = 0;
        while i < cached.sessions.len()
            invariant
                i <= cached.sessions.len(),
                sessions.valid(),
                sessions@ == restore_all(cached.sessions@, opened@, i as nat),
            decreases cached.sessions.len() - i,
        {
            let entry = &cached.sessions[i];
            let session_type = match entry.session_type {
                LocalSessionType::Bookmark => Some(SessionType::Bookmark(entry.path.clone())),
                _ => {
                    if i < opened.len() {
                        match &opened[i] {
                            Some(repo) => Some(SessionType::Git(Box::new(repo.duplicate()))),
                            None => None,
                        }
                    } else {
                        None
                    }
                },
            };
            if let Some(session_type) = session_type {
                let session = Session::new(entry.name.clone(), session_type);
                proof {
                    sessions.lemma_names();
                }
                let ghost before = sessions@;
                let ghost view = session@;
                sessions.insert_session(entry.name.clone(), session);
                proof {
                    sessions.lemma_names();
                    assert(sessions@ =~= before.insert(entry.name@, view));
                }
            }
            i += 1;
        }
        sessions
    }

    /// The snapshot of `sessions` made at `now` under the given search roots and
    /// bookmarks: one record for each session, in the dictionary order of the names.
    pub fn cache_sessions(
        &self,
        search_dirs: Vec<SearchDirectory>,
        bookmarks: &Option<Vec<String>>,
        sessions: &SessionMap,
        now: u64,
    ) -> (record: LocalRepoCache)
        requires
            sessions.valid(),
        ensures
            record.search_dirs == search_dirs,
            record.cached_at == now,
            texts(record.bookmarks@) == match bookmarks {
                Some(list) => texts(list@),
                None => seq![],
            },
            record.sessions@.len() == sessions.names().len(),
            forall|i: int|
                0 <= i < record.sessions@.len() ==> {
                    let entry = #[trigger] record.sessions@[i];
                    &&& entry.name@ == sessions.names()[i]
                    &&& sessions@.dom().contains(entry.name@)
                    &&& entry.path@ == crate::session::root_of(
                        sessions@[entry.name@].session_type,
                    )
                    &&& entry.session_type == recorded_kind(sessions@[entry.name@].session_type)
                },
    {
        let names = sessions.list();
        let mut entries: Vec<LocalCachedSession> = Vec::new();
        let mut i: usize = 0;
        proof {
            sessions.lemma_names();
        }
        while i < names.len()
            invariant
                i <= names.len(),
                sessions.valid(),
                texts(names@) == sessions.names(),
                entries@.len() == i,
                forall|name: Seq<char>| #[trigger] sessions.names().contains(name) <==> sessions.session(name) is Some,
                forall|k: int|
                    0 <= k < i ==> {
                        let entry = #[trigger] entries@[k];
                        &&& entry.name@ == sessions.names()[k]
                        &&& sessions@.dom().contains(entry.name@)
                        &&& entry.path@ == crate::session::root_of(
                            sessions@[entry.name@].session_type,
                        )
                        &&& entry.session_type == recorded_kind(
                            sessions@[entry.name@].session_type,
                        )
                    },
            decreases names.len() - i,
        {
            proof {
                assert(texts(names@)[i as int] == names[i as int]@);
                assert(sessions.names().contains(names[i as int]@));
            }
            match sessions.find_session(names[i].as_str()) {
                Some(session) => {
                    let session_type = match &session.session_type {
                        SessionType::Git(repo) => match &**repo {
                            RepoProvider::Git(_) => LocalSessionType::Git,
                            RepoProvider::Jujutsu(_) => LocalSessionType::Jujutsu,
                        },
                        SessionType::Bookmark(_) => LocalSessionType::Bookmark,
                        SessionType::GitHub { .. } => LocalSessionType::Git,
                    };
                    entries.push(
                        LocalCachedSession {
                            name: names[i].clone(),
                            path: session.path(),
                            session_type,
                        },
                    );
                },
                None => {
                    assert(false);
                },
            }
            i += 1;
        }
        let bookmarks = match bookmarks {
            Some(list) => clone_strings(list),
            None => Vec::new(),
        };
        LocalRepoCache { search_dirs, sessions: entries, bookmarks, cached_at: now }
    }
}

} // verus!
