use vstd::prelude::*;
use crate::clock::unix_now;
use crate::configs::{counted_access, Access, FrecencyTable, SessionFrecencyData};
use crate::error::TmsError;
use crate::paths::{join_path, join_spec};
use crate::text::clone_optional;

verus! {

/// The directory below the state and cache homes that belongs to this application.
pub open spec fn app_dir() -> Seq<char> {
    "tms"@
}

/// The state home of a user whose home directory is known, relative to it.
pub open spec fn default_state_home() -> Seq<char> {
    ".local/state"@
}

/// The cache home of a user whose home directory is known, relative to it.
pub open spec fn default_cache_home() -> Seq<char> {
    ".cache"@
}

/// The tag under which the local mode is remembered as the active one.
pub open spec fn local_tag() -> Seq<char> {
    "local"@
}

/// What is remembered between runs: the mode that was active last, and how often and
/// when each session was selected.
#[derive(Debug, Clone, PartialEq, Eq)]
pub struct AppState {
    pub active_profile: Option<String>,
    pub frecency: FrecencyTable,
}

impl AppState {
    pub open spec fn wf(&self) -> bool {
        self.frecency.wf()
    }
}

impl Default for AppState {
    /// The state of a first run: the local mode is active and no session was selected.
    fn default() -> (state: AppState)
        ensures
            state.wf(),
            state.active_profile matches Some(tag) && tag@ == local_tag(),
            state.frecency@ == Map::<Seq<char>, SessionFrecencyData>::empty(),
    {
        AppState { active_profile: Some("local".to_string()), frecency: FrecencyTable::new() }
    }
}

/// The home for state or cache files: the override where one is set, else `fallback`
/// below the user's home directory, where that is known.
pub open spec fn xdg_home_spec(
    override_dir: Option<String>,
    home: Option<String>,
    fallback: Seq<char>,
) -> Option<Seq<char>> {
    match override_dir {
        Some(dir) => Some(dir@),
        None => match home {
            Some(home_dir) => Some(join_spec(home_dir@, fallback)),
            None => None,
        },
    }
}

fn xdg_home(override_dir: &Option<String>, home: &Option<String>, fallback: &str) -> (dir: Result<
    String,
    TmsError,
>)
    ensures
        match dir {
            Ok(text) => xdg_home_spec(*override_dir, *home, fallback@) == Some(text@),
            Err(error) => xdg_home_spec(*override_dir, *home, fallback@) is None && error
                == TmsError::IoError,
        },
{
    match override_dir {
        Some(dir) => Ok(dir.clone()),
        None => match home {
            Some(home_dir) => Ok(join_path(home_dir.as_str(), fallback)),
            None => Err(TmsError::IoError),
        },
    }
}

/// The state home: `xdg_state_home` where it is set, else `.local/state` below `home`.
pub fn get_xdg_state_home(xdg_state_home: &Option<String>, home: &Option<String>) -> (dir: Result<
    String,
    TmsError,
>)
    ensures
        match dir {
            Ok(text) => xdg_home_spec(*xdg_state_home, *home, default_state_home()) == Some(text@),
            Err(error) => xdg_home_spec(*xdg_state_home, *home, default_state_home()) is None
                && error == TmsError::IoError,
        },
{
    xdg_home(xdg_state_home, home, ".local/state")
}

/// The cache home: `xdg_cache_home` where it is set, else `.cache` below `home`.
pub fn get_xdg_cache_home(xdg_cache_home: &Option<String>, home: &Option<String>) -> (dir: Result<
    String,
    TmsError,
>)
    ensures
        match dir {
            Ok(text) => xdg_home_spec(*xdg_cache_home, *home, default_cache_home()) == Some(text@),
            Err(error) => xdg_home_spec(*xdg_cache_home, *home, default_cache_home()) is None
                && error == TmsError::IoError,
        },
{
    xdg_home(xdg_cache_home, home, ".cache")
}

/// The state store: where the persisted files lie, and the state itself while the
/// program runs. Reading and writing the files is left to the caller.
#[derive(Debug, Clone, PartialEq, Eq)]
pub struct StateManager {
    state_dir: String,
    cache_dir: String,
    state: AppState,
}

/// What a state store stands for: where its files lie, the tag of the mode that was
/// active last, and the access records by session name.
pub ghost struct StoreView {
    pub state_dir: Seq<char>,
    pub cache_dir: Seq<char>,
    pub active_profile: Option<Seq<char>>,
    pub frecency: Map<Seq<char>, SessionFrecencyData>,
}

impl View for StateManager {
    type V = StoreView;

    open spec fn view(&self) -> StoreView {
        StoreView {
            state_dir: self.state_dir(),
            cache_dir: self.cache_dir(),
            active_profile: self.active_profile(),
            frecency: self.frecency(),
        }
    }
}

impl StateManager {
    pub closed spec fn state_dir(&self) -> Seq<char> {
        self.state_dir@
    }

    pub closed spec fn cache_dir(&self) -> Seq<char> {
        self.cache_dir@
    }

    /// The state as it stands.
    pub closed spec fn state(&self) -> AppState {
        self.state
    }

    /// The frecency table names no session twice.
    pub closed spec fn wf(&self) -> bool {
        self.state.wf()
    }

    /// The tag of the mode that was active last.
    pub open spec fn active_profile(&self) -> Option<Seq<char>> {
        match self.state().active_profile {
            Some(tag) => Some(tag@),
            None => None,
        }
    }

    /// The access records by session name.
    pub open spec fn frecency(&self) -> Map<Seq<char>, SessionFrecencyData> {
        self.state().frecency@
    }

    /// The store is that of a first run, with its files below the state and cache homes
    /// that the environment gives.
    pub open spec fn is_new_for(
        &self,
        xdg_state_home: Option<String>,
        xdg_cache_home: Option<String>,
        home: Option<String>,
    ) -> bool {
        &&& self.wf()
        &&& xdg_home_spec(xdg_state_home, home, default_state_home()) matches Some(state_home)
        &&& xdg_home_spec(xdg_cache_home, home, default_cache_home()) matches Some(cache_home)
        &&& self.state_dir() == join_spec(state_home, app_dir())
        &&& self.cache_dir() == join_spec(cache_home, app_dir())
        &&& self.active_profile() == Some(local_tag())
        &&& self.frecency() == Map::<Seq<char>, SessionFrecencyData>::empty()
    }

    /// The store of a first run, for the directories that the environment gives:
    /// `xdg_state_home` and `xdg_cache_home` are the overrides, `home` is the user's home
    /// directory. Where an override is missing and the home directory is unknown, the
    /// error is `IoError`.
    pub fn new(
        xdg_state_home: Option<String>,
        xdg_cache_home: Option<String>,
        home: Option<String>,
    ) -> (made: Result<StateManager, TmsError>)
        ensures
            match made {
                Ok(manager) => manager.is_new_for(xdg_state_home, xdg_cache_home, home),
                Err(error) => {
                    &&& error == TmsError::IoError
                    &&& (xdg_home_spec(xdg_state_home, home, default_state_home()) is None
                        || xdg_home_spec(xdg_cache_home, home, default_cache_home()) is None)
                },
            },
    {
        let state_home = match get_xdg_state_home(&xdg_state_home, &home) {
            Ok(dir) => dir,
            Err(error) => {
                return Err(error);
            },
        };
        let cache_home = match get_xdg_cache_home(&xdg_cache_home, &home) {
            Ok(dir) => dir,
            Err(error) => {
                return Err(error);
            },
        };
        Ok(
            Self::with_dirs(
                join_path(state_home.as_str(), "tms"),
                join_path(cache_home.as_str(), "tms"),
            ),
        )
    }

    /// The store of a first run with its files in the given directories.
    pub fn with_dirs(state_dir: String, cache_dir: String) -> (manager: StateManager)
        ensures
            manager.wf(),
            manager.state_dir() == state_dir@,
            manager.cache_dir() == cache_dir@,
            manager.active_profile() == Some(local_tag()),
            manager.frecency() == Map::<Seq<char>, SessionFrecencyData>::empty(),
    {
        StateManager { state_dir, cache_dir, state: AppState::default() }
    }

    /// Takes over what the state file held. `None` stands for a file that is absent or
    /// cannot be understood: the state is then that of a first run. So it is for a
    /// record whose frecency table names a session twice.
    pub fn load_state(&mut self, stored: Option<AppState>)
        ensures
            final(self).wf(),
            final(self).state_dir() == old(self).state_dir(),
            final(self).cache_dir() == old(self).cache_dir(),
            match stored {
                Some(state) if state.wf() => final(self).state() == state,
                _ => final(self).active_profile() == Some(local_tag()) && final(self).frecency()
                    == Map::<Seq<char>, SessionFrecencyData>::empty(),
            },
    {
        self.state = match stored {
            Some(state) => {
                if names_distinct(&state.frecency) {
                    state
                } else {
                    AppState::default()
                }
            },
            None => AppState::default(),
        };
    }

    /// The state to be written to the state file.
    pub fn save_state(&self) -> (state: &AppState)
        ensures
            *state == self.state(),
    {
        &self.state
    }

    /// The tag of the mode that was active last.
    pub fn get_active_profile(&self) -> (tag: Option<String>)
        ensures
            tag == self.state().active_profile,
    {
        clone_optional(&self.state.active_profile)
    }

    /// Remembers `profile_name` as the active mode. Nothing else changes.
    pub fn set_active_profile(&mut self, profile_name: Option<String>)
        ensures
            final(self).state().active_profile == profile_name,
            final(self).state().frecency == old(self).state().frecency,
            final(self).state_dir() == old(self).state_dir(),
            final(self).cache_dir() == old(self).cache_dir(),
            final(self).wf() == old(self).wf(),
    {
        self.state.active_profile = profile_name;
    }

    /// The access record of the session `name`, where it has one.
    pub fn get_frecency(&self, name: &str) -> (data: Option<SessionFrecencyData>)
        requires
            self.wf(),
        ensures
            data == if self.frecency().dom().contains(name@) {
                Some(self.frecency()[name@])
            } else {
                None
            },
    {
        self.state.frecency.get(name)
    }

    /// Counts a selection of the session `name` at `now`: a first record for a new name;
    /// for a known one the count grows by one and the time of the last access becomes
    /// `now`. No other record and nothing else changes.
    pub fn record_access_at(&mut self, name: &str, now: u64)
        requires
            old(self).wf(),
            old(self).frecency().dom().contains(name@) ==> old(self).frecency()[name@].access_count
                < u32::MAX,
        ensures
            final(self).wf(),
            final(self).frecency() == counted_access(
                old(self).frecency(),
                Access { name: name@, at: now },
            ),
            final(self).state().active_profile == old(self).state().active_profile,
            final(self).state_dir() == old(self).state_dir(),
            final(self).cache_dir() == old(self).cache_dir(),
    {
        self.state.frecency.record_access_at(name, now);
    }

    /// Counts a selection of the session `name` at this moment, whatever the clock gives
    /// for it. No other record and nothing else changes.
    pub fn record_access(&mut self, name: &str)
        requires
            old(self).wf(),
            old(self).frecency().dom().contains(name@) ==> old(self).frecency()[name@].access_count
                < u32::MAX,
        ensures
            final(self).wf(),
            exists|now: u64|
                final(self).frecency() == #[trigger] counted_access(
                    old(self).frecency(),
                    Access { name: name@, at: now },
                ),
            final(self).state().active_profile == old(self).state().active_profile,
            final(self).state_dir() == old(self).state_dir(),
            final(self).cache_dir() == old(self).cache_dir(),
    {
        self.record_access_at(name, unix_now());
    }

    /// The file that holds the state between runs.
    pub fn get_state_file_path(&self) -> (path: String)
        ensures
            path@ == join_spec(self.state_dir(), "state"@),
    {
        join_path(self.state_dir.as_str(), "state")
    }

    /// The file that holds the local scan between runs.
    pub fn get_local_cache_file_path(&self) -> (path: String)
        ensures
            path@ == join_spec(self.cache_dir(), "local"@),
    {
        join_path(self.cache_dir.as_str(), "local")
    }

    /// The directory that holds the remote catalogues between runs.
    pub fn get_github_cache_dir(&self) -> (path: String)
        ensures
            path@ == join_spec(self.cache_dir(), "remote"@),
    {
        join_path(self.cache_dir.as_str(), "remote")
    }

    /// The file that holds the catalogue of the profile `profile_name` between runs.
    pub fn get_cache_file_path(&self, profile_name: &str) -> (path: String)
        ensures
            path@ == join_spec(join_spec(self.cache_dir(), "remote"@), profile_name@),
    {
        let dir = self.get_github_cache_dir();
        join_path(dir.as_str(), profile_name)
    }
}

/// Whether the table names no session twice.
pub fn names_distinct(table: &FrecencyTable) -> (distinct: bool)
    ensures
        distinct == table.wf(),
{
    let ghost names = crate::configs::entry_names(table.entries@);
    let mut i: usize = 0;
    while i < table.entries.len()
        invariant
            i <= table.entries.len(),
            names == crate::configs::entry_names(table.entries@),
            forall|a: int, b: int| 0 <= a < b < i ==> names[a] != names[b],
        decreases table.entries.len() - i,
    {
        let mut j: usize = 0;
        while j < i
            invariant
                j <= i < table.entries.len(),
                names == crate::configs::entry_names(table.entries@),
                forall|a: int| 0 <= a < j ==> names[a] != names[i as int],
            decreases i - j,
        {
            assert(names[j as int] == table.entries[j as int].name@);
            assert(names[i as int] == table.entries[i as int].name@);
            if *table.entries[j].name.as_str() == *table.entries[i].name.as_str() {
                return false;
            }
            j += 1;
        }
        i += 1;
    }
    assert forall|a: int, b: int| 0 <= a < names.len() && 0 <= b < names.len() && a != b implies names[a]
        != names[b] by {
        if a < b {
            assert(names[a] != names[b]);
        } else {
            assert(names[b] != names[a]);
        }
    }
    true
}

} // verus!
