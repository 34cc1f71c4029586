use tms::configs::{
    CloneRepoSwitchConfig, Config, ConfigError, ConfigExport, PickerColorConfig, SearchDirectory,
    SessionSortOrderConfig, TermColor, VcsProviders,
};
use tms::error::TmsError;
use tms::orchestrator::{exit_code, read_selection, validate_startup, Selection, StartupError};
use tms::perf_json::{first_decoded, first_encoded, JsonError};
use tms::picker::{InputPosition, Picker};
use tms::repos::{marker_name, provider_order, GitRepository, JujutsuWorkspace, RepoProvider};
use tms::session::{
    find_submodules, FeedUpdate, Session, SessionContainer, SessionFeed, SessionMap,
    SessionType, Submodule, TmuxAction,
};

fn git(path: &str) -> GitRepository {
    GitRepository {
        git_dir: format!("{}/.git", path),
        work_dir: Some(path.to_string()),
        main_git_dir: Some(format!("{}/.git", path)),
        bare: false,
        head: None,
    }
}

fn jj(root: &str, repo: &str, bare: bool) -> JujutsuWorkspace {
    JujutsuWorkspace {
        workspace_root: root.to_string(),
        repo_path: repo.to_string(),
        workspace_name: "w".to_string(),
        bare,
    }
}

fn git_session(name: &str, path: &str) -> Session {
    Session::new(name.to_string(), SessionType::Git(Box::new(RepoProvider::Git(git(path)))))
}

#[test]
fn the_configuration_file_is_found() {
    let home = Some("/home/u".to_string());
    let config_dir = Some("/home/u/.config".to_string());
    assert_eq!(
        Config::save_path(&Some("/x/c.toml".into()), &config_dir, &home),
        Ok("/x/c.toml".to_string())
    );
    assert_eq!(
        Config::save_path(&None, &config_dir, &home),
        Ok("/home/u/.config/tms/config.toml".to_string())
    );
    assert_eq!(
        Config::save_path(&None, &None, &home),
        Ok("/home/u/.config/tms/config.toml".to_string())
    );
    assert_eq!(Config::save_path(&None, &None, &None), Err(ConfigError::LoadError));
    assert_eq!(
        Config::load_paths(&Some("/x/c.toml".into()), &home, &config_dir),
        Ok(vec!["/x/c.toml".to_string()])
    );
    assert_eq!(
        Config::load_paths(&None, &home, &Some("/etc/xdg".into())),
        Ok(vec![
            "/home/u/.config/tms/config.toml".to_string(),
            "/etc/xdg/tms/config.toml".to_string()
        ])
    );
    assert_eq!(
        Config::load_paths(&None, &None, &config_dir),
        Ok(vec!["/home/u/.config/tms/config.toml".to_string()])
    );
    assert_eq!(Config::load_paths(&None, &None, &None), Err(ConfigError::LoadError));
}

#[test]
fn the_export_has_every_default() {
    let export = ConfigExport::from_config(Config::default());
    assert_eq!(export.default_session, None);
    assert!(!export.display_full_path);
    assert!(!export.search_submodules);
    assert!(!export.recursive_submodules);
    assert!(!export.switch_filter_unknown);
    assert_eq!(export.session_sort_order, SessionSortOrderConfig::Alphabetical);
    assert!(export.excluded_dirs.is_empty());
    assert!(export.search_dirs.is_empty());
    assert_eq!(export.picker_colors, PickerColorConfig::default_colors());
    assert!(export.marks.is_empty());
    assert_eq!(export.clone_repo_switch, CloneRepoSwitchConfig::Always);
    assert_eq!(export.vcs_providers, vec![VcsProviders::Git]);
    assert!(export.session_frecency.entries.is_empty());
    assert_eq!(export.picker_switch_mode_key, "tab");
    assert_eq!(export.picker_refresh_key, "F5");
    assert_eq!(export.github_cache_duration_hours, 720);

    let mut config = Config::default();
    config.display_full_path = Some(true);
    config.session_sort_order = Some(SessionSortOrderConfig::Frecency);
    config.search_dirs = Some(vec![SearchDirectory::new("~/w".into(), 2)]);
    config.picker_colors =
        Some(PickerColorConfig { info_color: Some(TermColor::Cyan), ..PickerColorConfig::default() });
    config.vcs_providers = Some(vec![VcsProviders::Jujutsu, VcsProviders::Git]);
    config.add_mark("/m".into(), 3);
    config.record_session_access("s", 5);
    config.github_cache_duration_hours = Some(1);
    let export = ConfigExport::from_config(config);
    assert!(export.display_full_path);
    assert_eq!(export.session_sort_order, SessionSortOrderConfig::Frecency);
    assert_eq!(export.search_dirs, vec![SearchDirectory::new("~/w".into(), 2)]);
    assert_eq!(export.picker_colors.info_color, Some(TermColor::Cyan));
    assert_eq!(export.picker_colors.border_color, Some(TermColor::DarkGray));
    assert_eq!(export.vcs_providers, vec![VcsProviders::Jujutsu, VcsProviders::Git]);
    assert_eq!(export.marks.get(&3), Some(&"/m".to_string()));
    assert_eq!(export.session_frecency.get("s").unwrap().access_count, 1);
    assert_eq!(export.github_cache_duration_hours, 1);
    assert_eq!(SessionSortOrderConfig::LastAttached.name(), "LastAttached");
    assert_eq!(CloneRepoSwitchConfig::Foreground.name(), "Foreground");
}

#[test]
fn repositories_are_opened_in_the_configured_order() {
    let mut config = Config::default();
    assert_eq!(provider_order(&config), vec![VcsProviders::Git]);
    assert_eq!(marker_name(VcsProviders::Git), ".git");
    assert_eq!(marker_name(VcsProviders::Jujutsu), ".jj");
    let g = git("/w/p");
    let j = jj("/w/p", "/w/p/.jj/repo", false);
    assert_eq!(
        RepoProvider::open(&config, Some(g.clone()), Some(j.clone())),
        Ok(RepoProvider::Git(g.clone()))
    );
    // jujutsu is not among the configured systems
    assert_eq!(RepoProvider::open(&config, None, Some(j.clone())), Err(TmsError::GitError));
    config.vcs_providers = Some(vec![VcsProviders::Jujutsu, VcsProviders::Git]);
    assert_eq!(
        RepoProvider::open(&config, Some(g.clone()), Some(j.clone())),
        Ok(RepoProvider::Jujutsu(j.clone()))
    );
    assert_eq!(RepoProvider::open(&config, Some(g.clone()), None), Ok(RepoProvider::Git(g)));
    assert_eq!(RepoProvider::open(&config, None, None), Err(TmsError::GitError));
    config.vcs_providers = Some(vec![]);
    assert_eq!(RepoProvider::open(&config, None, Some(j)), Err(TmsError::GitError));
}

#[test]
fn workspaces_of_a_jujutsu_repository() {
    let owner = RepoProvider::Jujutsu(jj("/w/main", "/w/main/.jj/repo", true));
    let second = RepoProvider::Jujutsu(jj("/w/second", "/w/main/.jj/repo", false));
    let other = RepoProvider::Jujutsu(jj("/w/other", "/w/elsewhere/.jj/repo", false));
    let plain = RepoProvider::Git(git("/w/g"));
    let inner = RepoProvider::Jujutsu(jj("/w/main/trunk", "/w/main//.jj/repo/", false));
    let found = vec![plain.clone(), second.clone(), owner.clone(), other.clone()];
    let children = vec![inner.clone(), other.clone(), plain.clone()];
    assert_eq!(owner.worktrees(&found, &children), vec![second.clone(), inner]);
    let with_files = RepoProvider::Jujutsu(jj("/w/main", "/w/main/.jj/repo", false));
    assert_eq!(with_files.worktrees(&found, &children), vec![second]);
    assert!(plain.worktrees(&found, &children).is_empty());
}

#[test]
fn submodules_become_sessions_of_their_own() {
    let tree = vec![
        Submodule {
            repo: Some(RepoProvider::Git(git("/w/p/libs/a"))),
            submodules: vec![Submodule {
                repo: Some(RepoProvider::Git(git("/w/p/libs/a/deep"))),
                submodules: vec![],
            }],
        },
        Submodule { repo: None, submodules: vec![] },
        Submodule {
            repo: Some(RepoProvider::Git(GitRepository { work_dir: None, ..git("/w/p/bare") })),
            submodules: vec![],
        },
        Submodule { repo: Some(RepoProvider::Git(git("/w/p/b"))), submodules: vec![] },
    ];
    let mut config = Config::default();
    let mut sessions = SessionMap::new();
    assert_eq!(find_submodules(&tree, "p", &mut sessions, &config), Ok(()));
    assert_eq!(sessions.list(), vec!["p>a", "p>b"]);
    assert_eq!(sessions.find_session("p>a").unwrap().name, "p>a");

    config.recursive_submodules = Some(true);
    let mut sessions = SessionMap::new();
    assert_eq!(find_submodules(&tree, "p", &mut sessions, &config), Ok(()));
    assert_eq!(sessions.list(), vec!["p>a", "p>a>deep", "p>b"]);

    config.display_full_path = Some(true);
    let mut sessions = SessionMap::new();
    assert_eq!(find_submodules(&tree, "/w/p", &mut sessions, &config), Ok(()));
    assert_eq!(sessions.list(), vec!["/w/p/b", "/w/p/libs/a", "/w/p/libs/a/deep"]);
    assert_eq!(sessions.find_session("/w/p/libs/a/deep").unwrap().name, "/w/p/libs/a>deep");

    // a work tree without a name ends the expansion
    let unnamed = vec![
        Submodule { repo: Some(RepoProvider::Git(git("/w/p/first"))), submodules: vec![] },
        Submodule {
            repo: Some(RepoProvider::Git(GitRepository {
                work_dir: Some("/".to_string()),
                ..git("/x")
            })),
            submodules: vec![],
        },
        Submodule { repo: Some(RepoProvider::Git(git("/w/p/last"))), submodules: vec![] },
    ];
    let mut sessions = SessionMap::new();
    assert_eq!(
        find_submodules(&unnamed, "p", &mut sessions, &Config::default()),
        Err(TmsError::GitError)
    );
    assert_eq!(sessions.list(), vec!["p>first"]);
}

#[test]
fn the_way_into_a_session() {
    let repo = git_session("my.proj", "/w/my.proj");
    assert_eq!(
        repo.switch_to(true, Some("/real/my.proj".into())),
        Ok(vec![TmuxAction::SwitchTo { name: "my_proj".into() }])
    );
    assert_eq!(
        repo.switch_to(false, Some("/real/my.proj".into())),
        Ok(vec![
            TmuxAction::NewSession { name: "my_proj".into(), path: "/real/my.proj".into() },
            TmuxAction::SetUpEnv { name: "my_proj".into() },
            TmuxAction::RunCreateScript { path: "/w/my.proj".into(), name: "my_proj".into() },
            TmuxAction::SwitchTo { name: "my_proj".into() },
        ])
    );
    assert_eq!(repo.switch_to(false, None), Err(TmsError::IoError));
    assert_eq!(repo.switch_to(true, None), Err(TmsError::IoError));
    let bookmark = Session::new("notes".into(), SessionType::Bookmark("/notes".into()));
    assert_eq!(
        bookmark.switch_to(false, None),
        Ok(vec![
            TmuxAction::NewSession { name: "notes".into(), path: "/notes".into() },
            TmuxAction::RunCreateScript { path: "/notes".into(), name: "notes".into() },
            TmuxAction::SwitchTo { name: "notes".into() },
        ])
    );
    let bare = Session::new(
        "b".into(),
        SessionType::Git(Box::new(RepoProvider::Git(GitRepository {
            bare: true,
            work_dir: None,
            ..git("/srv/b")
        }))),
    );
    assert_eq!(
        bare.switch_to(false, None).unwrap()[0],
        TmuxAction::NewSession { name: "b".into(), path: "/srv/b/.git".into() }
    );
}

#[test]
fn startup_is_checked_in_order() {
    let roots: Result<Vec<SearchDirectory>, ConfigError> = Ok(vec![]);
    let none: Result<Vec<SearchDirectory>, ConfigError> = Err(ConfigError::NoValidSearchPath);
    assert_eq!(validate_startup(&roots, 0, true, true), Ok(()));
    assert_eq!(validate_startup(&none, 1, true, true), Ok(()));
    assert_eq!(
        validate_startup(&none, 0, false, false),
        Err(StartupError::Configuration(ConfigError::NoValidSearchPath))
    );
    assert_eq!(validate_startup(&roots, 0, false, false), Err(StartupError::CacheNotWritable));
    assert_eq!(validate_startup(&roots, 0, true, false), Err(StartupError::NoTerminal));
    assert_eq!(exit_code(false), 0);
    assert_eq!(exit_code(true), 1);
}

#[test]
fn the_pickers_answer_is_read() {
    assert_eq!(read_selection("proj"), Selection::Local("proj".into()));
    assert_eq!(read_selection(""), Selection::Local("".into()));
    assert_eq!(read_selection("remote"), Selection::Local("remote".into()));
    assert_eq!(read_selection("Remote:/x"), Selection::Local("Remote:/x".into()));
    assert_eq!(
        read_selection("remote:/home/u/work/tool"),
        Selection::Remote { path: "/home/u/work/tool".into(), name: "tool".into() }
    );
    assert_eq!(
        read_selection("remote:"),
        Selection::Remote { path: "".into(), name: "unknown".into() }
    );
}

#[test]
fn structured_text_errors() {
    let both = JsonError::DeserializationFailed { simd_error: "a".into(), serde_error: "b".into() };
    assert_eq!(both.message(), "Deserialization failed - SIMD: a, Serde: b");
    assert_eq!(
        JsonError::SerializationFailed { simd_error: "x".into(), serde_error: "y".into() }.message(),
        "Serialization failed - SIMD: x, Serde: y"
    );
    assert_eq!(JsonError::InvalidUtf8("bad".into()).message(), "Invalid UTF-8: bad");
    assert_eq!(JsonError::IoError("gone".into()).message(), "IO error: gone");
    assert_eq!(first_decoded::<u8>(Ok(1), Err("b".into())), Ok(1));
    assert_eq!(first_decoded::<u8>(Err("a".into()), Ok(2)), Ok(2));
    assert_eq!(first_decoded::<u8>(Err("a".into()), Err("b".into())), Err(both));
    assert_eq!(first_encoded(Err("a".into()), Ok("{}".into())), Ok("{}".to_string()));
    assert_eq!(
        first_encoded(Err("x".into()), Err("y".into())),
        Err(JsonError::SerializationFailed { simd_error: "x".into(), serde_error: "y".into() })
    );
}

#[test]
fn arrivals_of_one_name_are_told_apart_whenever_they_come() {
    let mut feed = SessionFeed::new(&Config::default());
    assert_eq!(feed.offer(git_session("proj", "/t/x/proj")), FeedUpdate::Append("proj".into()));
    assert_eq!(feed.offer(git_session("solo", "/t/solo")), FeedUpdate::Append("solo".into()));
    assert_eq!(
        feed.offer(git_session("proj", "/t/y/proj")),
        FeedUpdate::Replace(vec!["solo".into(), "x/proj".into(), "y/proj".into()])
    );
    assert_eq!(feed.names(), vec!["solo", "x/proj", "y/proj"]);
    assert_eq!(feed.find_session("x/proj").unwrap().path(), "/t/x/proj");
    assert!(feed.find_session("proj").is_none());
    assert_eq!(
        feed.offer(git_session("proj", "/u/x/proj")),
        FeedUpdate::Replace(vec!["solo".into(), "t/x/proj".into(), "t/y/proj".into(), "u/x/proj".into()])
    );
    assert!(feed.close(&vec![]).is_empty());

    // the picker shows what the feed says
    let mut picker = Picker::new_streaming(None, InputPosition::Bottom, None, &Config::default());
    picker.ingest("proj".into());
    picker.replace_items(&feed.names());
    assert_eq!(picker.total_items_added(), 4);
    assert!(picker.is_streaming());
}

#[test]
fn a_feed_by_frecency_holds_everything_back() {
    let mut config = Config::default();
    config.session_sort_order = Some(SessionSortOrderConfig::Frecency);
    config.display_full_path = Some(true);
    let mut feed = SessionFeed::new(&config);
    assert_eq!(feed.offer(git_session("b", "/t/b")), FeedUpdate::Hold);
    assert_eq!(feed.offer(git_session("a", "/t/a")), FeedUpdate::Hold);
    assert_eq!(feed.offer(git_session("c", "/t/c")), FeedUpdate::Hold);
    assert_eq!(feed.names(), vec!["/t/a", "/t/b", "/t/c"]);
    // the scores go by arrival: b, a, c
    assert_eq!(feed.arrival_names(), vec!["/t/b", "/t/a", "/t/c"]);
    assert_eq!(feed.close(&vec![1, 7, 7]), vec!["/t/a", "/t/c", "/t/b"]);
    // names of equal score come in the order of arrival, not of the dictionary
    assert_eq!(feed.close(&vec![3, 3, 3]), vec!["/t/b", "/t/a", "/t/c"]);
    assert_eq!(feed.close(&vec![]), vec!["/t/b", "/t/a", "/t/c"]);
}

#[test]
fn held_back_names_are_told_apart_and_come_once() {
    let mut config = Config::default();
    config.session_sort_order = Some(SessionSortOrderConfig::Frecency);
    let mut feed = SessionFeed::new(&config);
    assert_eq!(feed.offer(git_session("proj", "/t/y/proj")), FeedUpdate::Hold);
    assert_eq!(feed.offer(git_session("solo", "/t/solo")), FeedUpdate::Hold);
    assert_eq!(feed.offer(git_session("proj", "/t/x/proj")), FeedUpdate::Hold);
    // the same directory arrives a second time
    assert_eq!(feed.offer(git_session("solo", "/t/solo")), FeedUpdate::Hold);
    let arrived = feed.arrival_names();
    assert_eq!(arrived.len(), 4);
    assert_eq!(arrived[0], "y/proj");
    assert_eq!(arrived[2], "x/proj");
    assert_eq!(arrived[1], arrived[3]);
    let names = feed.close(&vec![5, 5, 9, 5]);
    assert_eq!(names, vec!["x/proj".to_string(), "y/proj".to_string(), arrived[1].clone()]);
    for name in &names {
        assert!(feed.find_session(name).is_some(), "{name}");
    }
    let mut shown = feed.names();
    let mut sent = names.clone();
    shown.sort();
    sent.sort();
    assert_eq!(shown, sent);
}
