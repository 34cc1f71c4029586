use tms::configs::SessionFrecencyData;
use tms::error::TmsError;
use tms::state::{get_xdg_cache_home, get_xdg_state_home, AppState, StateManager};

#[test]
fn test_state_manager_creation() {
    let state_path = "/tmp/t/state".to_string();
    let cache_path = "/tmp/t/cache".to_string();

    let state_manager = StateManager::with_dirs(state_path.clone(), cache_path.clone());

    assert_eq!(state_manager.get_state_file_path(), "/tmp/t/state/state");
    assert_eq!(state_manager.get_github_cache_dir(), "/tmp/t/cache/remote");
    assert_eq!(state_manager.get_cache_file_path("work"), "/tmp/t/cache/remote/work");
    assert_eq!(state_manager.get_local_cache_file_path(), "/tmp/t/cache/local");
}

#[test]
fn test_state_persistence() {
    let state_path = "/tmp/t/state".to_string();
    let cache_path = "/tmp/t/cache".to_string();

    let mut state_manager = StateManager::with_dirs(state_path.clone(), cache_path.clone());

    // default state
    assert_eq!(state_manager.save_state().active_profile, Some("local".to_string()));

    state_manager.set_active_profile(Some("work".to_string()));
    let active_profile = state_manager.get_active_profile();
    assert_eq!(active_profile, Some("work".to_string()));

    // what was saved is what another manager loads
    let saved: AppState = state_manager.save_state().clone();
    let mut new_state_manager = StateManager::with_dirs(state_path, cache_path);
    new_state_manager.load_state(Some(saved));
    let persisted_profile = new_state_manager.get_active_profile();
    assert_eq!(persisted_profile, Some("work".to_string()));
}

#[test]
fn test_xdg_fallbacks() {
    let home = Some("/home/u".to_string());
    let state_home = get_xdg_state_home(&None, &home).unwrap();
    let cache_home = get_xdg_cache_home(&None, &home).unwrap();

    assert!(state_home.ends_with("/.local/state"));
    assert!(cache_home.ends_with("/.cache"));
    assert_eq!(state_home, "/home/u/.local/state");
    assert_eq!(cache_home, "/home/u/.cache");

    assert_eq!(get_xdg_state_home(&Some("/x/state".into()), &home), Ok("/x/state".to_string()));
    assert_eq!(get_xdg_cache_home(&Some("/x/cache".into()), &None), Ok("/x/cache".to_string()));
    assert_eq!(get_xdg_state_home(&None, &None), Err(TmsError::IoError));
    assert_eq!(get_xdg_cache_home(&None, &None), Err(TmsError::IoError));
}

#[test]
fn the_store_lies_below_the_homes() {
    let manager =
        StateManager::new(Some("/x/state".into()), None, Some("/home/u/".into())).unwrap();
    assert_eq!(manager.get_state_file_path(), "/x/state/tms/state");
    assert_eq!(manager.get_local_cache_file_path(), "/home/u/.cache/tms/local");
    assert_eq!(manager.get_cache_file_path("p"), "/home/u/.cache/tms/remote/p");
    assert_eq!(manager.get_active_profile(), Some("local".to_string()));
    assert!(StateManager::new(None, Some("/c".into()), None).is_err());
    assert!(StateManager::new(Some("/s".into()), None, None).is_err());
}

#[test]
fn accesses_are_recorded_and_read_back_after_a_restart() {
    let mut manager = StateManager::with_dirs("/s".into(), "/c".into());
    assert_eq!(manager.get_frecency("a"), None);
    manager.record_access_at("a", 100);
    manager.record_access_at("b", 105);
    manager.record_access_at("a", 110);
    manager.set_active_profile(None);
    let a = SessionFrecencyData { access_count: 2, last_accessed: 110, first_accessed: 100 };
    let b = SessionFrecencyData { access_count: 1, last_accessed: 105, first_accessed: 105 };
    assert_eq!(manager.get_frecency("a"), Some(a));
    assert_eq!(manager.get_frecency("b"), Some(b));

    let mut restarted = StateManager::with_dirs("/s".into(), "/c".into());
    restarted.load_state(Some(manager.save_state().clone()));
    assert_eq!(restarted.get_frecency("a"), Some(a));
    assert_eq!(restarted.get_frecency("b"), Some(b));
    assert_eq!(restarted.get_frecency("c"), None);
    assert_eq!(restarted.get_active_profile(), None);

    restarted.record_access("a");
    let again = restarted.get_frecency("a").unwrap();
    assert_eq!(again.access_count, 3);
    assert_eq!(again.first_accessed, 100);
    assert!(again.last_accessed >= 110);
}

#[test]
fn a_missing_or_broken_state_file_gives_the_first_run_state() {
    let mut manager = StateManager::with_dirs("/s".into(), "/c".into());
    manager.set_active_profile(Some("work".into()));
    manager.record_access_at("a", 1);
    manager.load_state(None);
    assert_eq!(manager.get_active_profile(), Some("local".to_string()));
    assert_eq!(manager.get_frecency("a"), None);

    // a table that names a session twice is not taken over
    let mut broken = AppState::default();
    let entry = tms::configs::FrecencyEntry {
        name: "a".into(),
        data: SessionFrecencyData { access_count: 1, last_accessed: 1, first_accessed: 1 },
    };
    broken.frecency.entries = vec![entry.clone(), entry];
    broken.active_profile = Some("work".into());
    manager.load_state(Some(broken));
    assert_eq!(manager.get_active_profile(), Some("local".to_string()));
    assert_eq!(manager.get_frecency("a"), None);
}
