use tms::configs::{
    TermColor, Config, ConfigError, GitHubCloneMethod, GitHubProfile, PickerColorConfig,
    SearchDirectory, SessionFrecencyData, SessionSortOrderConfig, HALF_LIFE_SECONDS,
};

#[test]
fn test_frecency_data_creation() {
    let data = SessionFrecencyData::new();
    assert_eq!(data.access_count, 1);
    assert!(data.last_accessed > 0);
    assert_eq!(data.first_accessed, data.last_accessed);
}

#[test]
fn test_frecency_data_update() {
    let mut data = SessionFrecencyData::new();
    let initial_count = data.access_count;
    let initial_last_accessed = data.last_accessed;

    data.update_access();

    assert_eq!(data.access_count, initial_count + 1);
    assert!(data.last_accessed >= initial_last_accessed);
}

#[test]
fn frecency_record_counts_and_keeps_first_access() {
    let mut data = SessionFrecencyData::at(1_000);
    assert_eq!(
        data,
        SessionFrecencyData { access_count: 1, last_accessed: 1_000, first_accessed: 1_000 }
    );
    data.record_access_at(1_500);
    assert_eq!(
        data,
        SessionFrecencyData { access_count: 2, last_accessed: 1_500, first_accessed: 1_000 }
    );
}

#[test]
fn frecency_record_tolerates_a_clock_that_goes_backwards() {
    let mut data = SessionFrecencyData::at(1_000);
    data.record_access_at(400);
    assert_eq!(data.access_count, 2);
    assert_eq!(data.last_accessed, 400);
    assert_eq!(data.first_accessed, 1_000);
    assert_eq!(data.age_at(300), 0);
    assert_eq!(data.age_at(400), 0);
    assert_eq!(data.age_at(900), 500);
    assert_eq!(data.age_at(400 + HALF_LIFE_SECONDS), 604_800);
}

fn resolved(paths: &[Option<&str>]) -> Vec<Option<String>> {
    paths.iter().map(|p| p.map(|s| s.to_string())).collect()
}

#[test]
fn test_search_dirs_deduplication() {
    let test_path = "/tmp/ws/test".to_string();
    let other_path = "/tmp/ws/other".to_string();

    let mut config = Config::default();
    config.search_dirs = Some(vec![
        SearchDirectory::new(test_path.clone(), 5),
        SearchDirectory::new(test_path.clone(), 10),
        SearchDirectory::new(other_path.clone(), 5),
        SearchDirectory::new(test_path.clone(), 3),
    ]);
    let canonical = resolved(&[
        Some("/tmp/ws/test"),
        Some("/tmp/ws/test"),
        Some("/tmp/ws/other"),
        Some("/tmp/ws/test"),
    ]);

    let search_dirs = config.search_dirs(&canonical, &vec![]).unwrap();

    assert_eq!(search_dirs.len(), 2, "Should deduplicate paths and have only 2 unique directories");

    let test_dir = search_dirs.iter().find(|d| d.path == test_path).unwrap();
    assert_eq!(test_dir.depth, 10, "Should keep the directory entry with the highest depth");

    let other_dir = search_dirs.iter().find(|d| d.path == other_path).unwrap();
    assert_eq!(other_dir.depth, 5, "Other directory should keep its depth");
}

#[test]
fn test_duplicate_search_directories_bug_fix() {
    let base = "/tmp/base".to_string();
    let mut config = Config::default();
    config.search_dirs = Some(vec![
        SearchDirectory::new(base.clone(), 10),
        SearchDirectory::new(base.clone(), 10),
        SearchDirectory::new(base.clone(), 5),
    ]);
    let canonical = resolved(&[Some("/tmp/base"), Some("/tmp/base"), Some("/tmp/base")]);

    let search_dirs = config.search_dirs(&canonical, &vec![]).expect("Failed to get search dirs");

    assert_eq!(search_dirs.len(), 1, "Should deduplicate identical paths");
    let dedup_dir = &search_dirs[0];
    assert_eq!(dedup_dir.path, base);
    assert_eq!(dedup_dir.depth, 10, "Should keep the entry with maximum depth");
}

#[test]
fn test_no_false_deduplication() {
    let mut config = Config::default();
    config.search_dirs = Some(vec![
        SearchDirectory::new("/tmp/base/repo1".to_string(), 5),
        SearchDirectory::new("/tmp/base/repo2".to_string(), 10),
    ]);
    let canonical = resolved(&[Some("/tmp/base/repo1"), Some("/tmp/base/repo2")]);

    let search_dirs = config.search_dirs(&canonical, &vec![]).expect("Failed to get search dirs");

    assert_eq!(search_dirs.len(), 2, "Should not deduplicate different paths");
    assert!(search_dirs.iter().any(|d| d.path.ends_with("repo1")));
    assert!(search_dirs.iter().any(|d| d.path.ends_with("repo2")));
}

#[test]
fn three_depths_for_one_root_coalesce_to_the_greatest() {
    let mut config = Config::default();
    config.search_dirs = Some(vec![
        SearchDirectory::new("~/r".to_string(), 1),
        SearchDirectory::new("$HOME/r".to_string(), 4),
        SearchDirectory::new("/home/u/r".to_string(), 9),
    ]);
    let canonical = resolved(&[Some("/home/u/r"), Some("/home/u/r"), Some("/home/u/r")]);
    let dirs = config.search_dirs(&canonical, &vec![]).unwrap();
    assert_eq!(dirs, vec![SearchDirectory::new("/home/u/r".to_string(), 9)]);
}

#[test]
fn search_dirs_keeps_first_occurrence_order_and_merges_old_search_paths() {
    let mut config = Config::default();
    config.search_dirs = Some(vec![
        SearchDirectory::new("b".to_string(), 2),
        SearchDirectory::new("missing".to_string(), 7),
        SearchDirectory::new("a".to_string(), 3),
    ]);
    config.search_paths = Some(vec!["old".to_string(), "b".to_string()]);
    let dirs = config
        .search_dirs(
            &resolved(&[Some("/b"), None, Some("/a")]),
            &resolved(&[Some("/old"), Some("/b")]),
        )
        .unwrap();
    assert_eq!(
        dirs,
        vec![
            SearchDirectory::new("/b".to_string(), 10),
            SearchDirectory::new("/a".to_string(), 3),
            SearchDirectory::new("/old".to_string(), 10),
        ]
    );
}

#[test]
fn search_dirs_errors() {
    let config = Config::default();
    assert_eq!(config.search_dirs(&vec![], &vec![]), Err(ConfigError::NoDefaultSearchPath));

    let mut empty = Config::default();
    empty.search_dirs = Some(vec![]);
    empty.search_paths = Some(vec![]);
    assert_eq!(empty.search_dirs(&vec![], &vec![]), Err(ConfigError::NoDefaultSearchPath));

    let mut unresolved = Config::default();
    unresolved.search_dirs = Some(vec![SearchDirectory::new("/gone".to_string(), 3)]);
    assert_eq!(
        unresolved.search_dirs(&resolved(&[None]), &vec![]),
        Err(ConfigError::NoValidSearchPath)
    );
    // a resolution list that is too short counts as unresolved
    assert_eq!(unresolved.search_dirs(&vec![], &vec![]), Err(ConfigError::NoValidSearchPath));
}

#[test]
fn config_error_messages() {
    assert_eq!(ConfigError::NoDefaultSearchPath.message(), "No default search path was found");
    assert_eq!(ConfigError::NoValidSearchPath.message(), "No valid search path was found");
    assert_eq!(ConfigError::TomlError.message(), "Could not serialize config to TOML");
    assert_eq!(ConfigError::FileWriteError.message(), "Could not write to config file");
    assert_eq!(ConfigError::LoadError.message(), "Could not load configuration");
    assert_eq!(ConfigError::IoError.message(), "IO error");
}

#[test]
fn bookmarks_are_added_once_and_deleted() {
    let mut config = Config::default();
    config.add_bookmark("/a".to_string());
    config.add_bookmark("/b".to_string());
    config.add_bookmark("/a".to_string());
    assert_eq!(config.bookmarks, Some(vec!["/a".to_string(), "/b".to_string()]));
    config.delete_bookmark("/a".to_string());
    assert_eq!(config.bookmarks, Some(vec!["/b".to_string()]));
    config.delete_bookmark("/zzz".to_string());
    assert_eq!(config.bookmarks, Some(vec!["/b".to_string()]));

    let mut none = Config::default();
    none.delete_bookmark("/a".to_string());
    assert_eq!(none.bookmarks, None);
}

#[test]
fn marks_are_set_replaced_and_cleared() {
    let mut config = Config::default();
    config.add_mark("/a".to_string(), 1);
    config.add_mark("/b".to_string(), 2);
    config.add_mark("/c".to_string(), 1);
    let marks = config.marks.clone().unwrap();
    assert_eq!(marks.len(), 2);
    assert_eq!(marks.get(&1), Some(&"/c".to_string()));
    assert_eq!(marks.get(&2), Some(&"/b".to_string()));
    config.delete_mark(1);
    assert_eq!(config.marks.clone().unwrap().len(), 1);
    config.clear_marks();
    assert_eq!(config.marks, None);
}

#[test]
fn session_frecency_is_recorded_per_name() {
    let mut config = Config::default();
    assert_eq!(config.get_session_frecency("a"), None);
    config.record_session_access("a", 100);
    config.record_session_access("b", 110);
    config.record_session_access("a", 120);
    assert_eq!(
        config.get_session_frecency("a"),
        Some(SessionFrecencyData { access_count: 2, last_accessed: 120, first_accessed: 100 })
    );
    assert_eq!(
        config.get_session_frecency("b"),
        Some(SessionFrecencyData { access_count: 1, last_accessed: 110, first_accessed: 110 })
    );
    config.update_session_frecency("b");
    assert_eq!(config.get_session_frecency("b").unwrap().access_count, 2);
    assert_eq!(config.get_session_frecency("unknown_session"), None);
}

#[test]
fn defaults_of_the_getters() {
    let config = Config::default();
    assert_eq!(config.get_picker_switch_mode_key(), "tab");
    assert_eq!(config.get_picker_refresh_key(), "F5");
    assert_eq!(config.get_github_cache_duration_hours(), 720);
    assert_eq!(config.get_local_cache_duration_hours(), 24);
    assert!(config.get_github_profiles().is_empty());
    assert_eq!(SessionSortOrderConfig::default(), SessionSortOrderConfig::Alphabetical);
    assert_eq!(GitHubCloneMethod::default(), GitHubCloneMethod::SSH);

    let mut set = Config::default();
    set.picker_switch_mode_key = Some("ctrl-t".to_string());
    set.github_cache_duration_hours = Some(5);
    assert_eq!(set.get_picker_switch_mode_key(), "ctrl-t");
    assert_eq!(set.get_github_cache_duration_hours(), 5);
}

#[test]
fn test_config_get_github_profiles_no_duplicates() {
    let mut config = Config::default();
    config.github_profiles = Some(vec![
        GitHubProfile {
            name: "work".to_string(),
            credentials_command: "echo token1".to_string(),
            clone_root_path: "~/work".to_string(),
            clone_method: None,
        },
        GitHubProfile {
            name: "work".to_string(),
            credentials_command: "echo token2".to_string(),
            clone_root_path: "~/work2".to_string(),
            clone_method: None,
        },
    ]);

    let profiles = config.get_github_profiles();
    println!("Profile count: {}", profiles.len());
    for (i, profile) in profiles.iter().enumerate() {
        println!(
            "Profile {}: name='{}', cmd='{}', path='{}'",
            i, profile.name, profile.credentials_command, profile.clone_root_path
        );
    }

    assert_eq!(profiles.len(), 2, "Should have 2 profiles even with duplicate names");
    assert_eq!(profiles[0].name, "work");
    assert_eq!(profiles[1].name, "work");
    assert_ne!(profiles[0].credentials_command, profiles[1].credentials_command);
}

#[test]
fn picker_colors_fall_back_to_defaults() {
    let colors = PickerColorConfig::default();
    assert_eq!(colors.border_color(), TermColor::DarkGray);
    assert_eq!(colors.info_color(), TermColor::LightYellow);
    assert_eq!(colors.prompt_color(), TermColor::LightGreen);
    let style = colors.highlight_style();
    assert_eq!((style.background, style.foreground, style.bold), (TermColor::LightBlue, TermColor::Black, true));

    let custom = PickerColorConfig {
        highlight_color: Some(TermColor::Red),
        border_color: Some(TermColor::Rgb(1, 2, 3)),
        ..PickerColorConfig::default()
    };
    assert_eq!(custom.border_color(), TermColor::Rgb(1, 2, 3));
    assert_eq!(custom.highlight_style().background, TermColor::Red);
    assert_eq!(custom.highlight_style().foreground, TermColor::Black);
    let filled = custom.with_defaults();
    assert_eq!(filled.highlight_color, Some(TermColor::Red));
    assert_eq!(filled.info_color, Some(TermColor::LightYellow));
    assert_eq!(PickerColorConfig::default_colors(), PickerColorConfig::default().with_defaults());
}

#[test]
fn changing_one_option_leaves_the_others() {
    let mut config = Config::default();
    config.default_session = Some("main".to_string());
    config.excluded_dirs = Some(vec!["skip".to_string()]);
    config.picker_refresh_key = Some("f5".to_string());
    let mut expected = config.clone();

    config.add_bookmark("/notes".to_string());
    expected.bookmarks = Some(vec!["/notes".to_string()]);
    assert_eq!(config, expected);

    config.add_mark("/w/a".to_string(), 2);
    let mut marks = std::collections::HashMap::new();
    marks.insert(2usize, "/w/a".to_string());
    expected.marks = Some(marks);
    assert_eq!(config, expected);

    config.record_session_access("a", 50);
    config.record_session_access("a", 20);
    let recorded = config.session_frecency.take();
    assert_eq!(config, expected);
    assert_eq!(
        recorded.unwrap().get("a"),
        Some(SessionFrecencyData { access_count: 2, last_accessed: 20, first_accessed: 50 })
    );

    config.delete_bookmark("/notes".to_string());
    config.clear_marks();
    expected.bookmarks = Some(vec![]);
    expected.marks = None;
    assert_eq!(config, expected);
}

/// The number of accesses of a record, weighted down by its age as the library gives it
/// at `now`. The weight is worked out here, in floating point.
fn frecency_score(data: &SessionFrecencyData, now: u64) -> f64 {
    let age = data.age_at(now) as f64;
    let recency = if age > 0.0 { (-age / HALF_LIFE_SECONDS as f64).exp() } else { 1.0 };
    f64::from(data.access_count) * recency
}

#[test]
fn the_score_grows_with_the_count_and_falls_with_the_age() {
    let now = 10_000_000;
    for age in [0u64, 1, 3_600, HALF_LIFE_SECONDS, 10 * HALF_LIFE_SECONDS] {
        let mut previous = 0.0;
        for count in 1..50u32 {
            let data = SessionFrecencyData {
                access_count: count,
                last_accessed: now - age,
                first_accessed: 0,
            };
            let score = frecency_score(&data, now);
            assert!(score > previous, "count {count}, age {age}");
            previous = score;
        }
    }
    let data = SessionFrecencyData { access_count: 3, last_accessed: 1_000, first_accessed: 0 };
    let mut previous = f64::INFINITY;
    for later in [1_000u64, 1_001, 2_000, 1_000 + HALF_LIFE_SECONDS, 1_000 + 5 * HALF_LIFE_SECONDS] {
        let score = frecency_score(&data, later);
        assert!(score < previous, "at {later}");
        previous = score;
    }
    assert_eq!(frecency_score(&data, 1_000), 3.0);
    assert!((frecency_score(&data, 1_000 + HALF_LIFE_SECONDS) - 3.0 / std::f64::consts::E).abs() < 1e-12);
    // a clock that reads earlier than the last access gives the age zero
    assert_eq!(frecency_score(&data, 10), 3.0);
}
