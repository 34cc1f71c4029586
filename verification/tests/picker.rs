use tms::configs::{Config, GitHubProfile};
use tms::picker::input::InputLine;
use tms::picker::selection::{
    do_move_down, do_move_up, do_page_down, do_page_up, settle,
};
use tms::picker::{
    create_available_modes, filter_modes, initial_mode, page_size_for, pane_layout, poll_timeout,
    title, InputPosition, Key, KeyPress, PaneLayout, Picker, PickerAction, PickerEffect,
    PickerMode, UIState,
};
use tms::state::StateManager;

fn profile(name: &str, command: &str, root: &str) -> GitHubProfile {
    GitHubProfile {
        name: name.to_string(),
        credentials_command: command.to_string(),
        clone_root_path: root.to_string(),
        clone_method: None,
    }
}

fn press(key: Key) -> KeyPress {
    KeyPress { key, action: None }
}

fn act(action: PickerAction) -> KeyPress {
    KeyPress { key: Key::Other, action: Some(action) }
}

fn two_profiles() -> Config {
    let mut config = Config::default();
    config.github_profiles = Some(vec![
        profile("work", "echo token1", "~/work"),
        profile("personal", "echo token2", "~/personal"),
    ]);
    config
}

fn store() -> Option<StateManager> {
    Some(StateManager::with_dirs("/state/tms".to_string(), "/cache/tms".to_string()))
}

fn settle_matcher(picker: &mut Picker, wanted: u32) {
    for _ in 0..200 {
        picker.on_tick();
        if picker.counts().1 >= wanted {
            break;
        }
    }
}

#[test]
fn test_no_duplicate_modes_creation() {
    let mut config = Config::default();
    config.github_profiles = Some(vec![
        GitHubProfile {
            name: "work".to_string(),
            credentials_command: "echo token1".to_string(),
            clone_root_path: "~/work".to_string(),
            clone_method: None,
        },
        GitHubProfile {
            name: "personal".to_string(),
            credentials_command: "echo token2".to_string(),
            clone_root_path: "~/personal".to_string(),
            clone_method: None,
        },
    ]);

    let available_modes = create_available_modes(&config);

    assert_eq!(available_modes.len(), 3, "Should have exactly 3 modes");

    let mode_names: Vec<String> = available_modes.iter().map(|m| m.display_name()).collect();
    println!("Created modes: {:?}", mode_names);

    let mut seen = std::collections::HashSet::new();
    for mode in &available_modes {
        let name = mode.display_name();
        assert!(seen.insert(name.clone()), "Duplicate mode found: {}", name);
    }

    assert!(available_modes.iter().any(|m| matches!(m, PickerMode::Local)), "Should have Local mode");
    assert!(
        available_modes.iter().any(|m| matches!(m, PickerMode::GitHub(name) if name == "work")),
        "Should have work GitHub mode"
    );
    assert!(
        available_modes.iter().any(|m| matches!(m, PickerMode::GitHub(name) if name == "personal")),
        "Should have personal GitHub mode"
    );
}

#[test]
fn test_create_available_modes_deduplicates() {
    let mut config = Config::default();
    config.github_profiles = Some(vec![
        GitHubProfile {
            name: "work".to_string(),
            credentials_command: "echo token1".to_string(),
            clone_root_path: "~/work1".to_string(),
            clone_method: None,
        },
        GitHubProfile {
            name: "personal".to_string(),
            credentials_command: "echo token2".to_string(),
            clone_root_path: "~/personal".to_string(),
            clone_method: None,
        },
        GitHubProfile {
            name: "work".to_string(),
            credentials_command: "echo token3".to_string(),
            clone_root_path: "~/work2".to_string(),
            clone_method: None,
        },
    ]);

    let available_modes = create_available_modes(&config);

    println!("Available modes count: {}", available_modes.len());
    for (i, mode) in available_modes.iter().enumerate() {
        println!("Mode {}: '{}'", i, mode.display_name());
    }

    assert_eq!(available_modes.len(), 3, "Should have exactly 3 modes after deduplication");

    let mode_names: Vec<String> = available_modes.iter().map(|m| m.display_name()).collect();

    let mut seen = std::collections::HashSet::new();
    for mode_name in &mode_names {
        assert!(seen.insert(mode_name.clone()), "Duplicate mode found: {}", mode_name);
    }

    assert!(mode_names.contains(&"Local repos".to_string()));
    assert!(mode_names.contains(&"Github - work".to_string()));
    assert!(mode_names.contains(&"Github - personal".to_string()));

    let work_count = mode_names.iter().filter(|name| *name == "Github - work").count();
    assert_eq!(work_count, 1, "Should have exactly one 'Github - work' mode");
}

#[test]
fn modes_keep_the_order_of_the_profiles() {
    let modes = create_available_modes(&two_profiles());
    assert_eq!(
        modes,
        vec![
            PickerMode::Local,
            PickerMode::GitHub("work".to_string()),
            PickerMode::GitHub("personal".to_string())
        ]
    );
    assert_eq!(create_available_modes(&Config::default()), vec![PickerMode::Local]);
    assert_eq!(PickerMode::Local.tag(), "local");
    assert_eq!(PickerMode::GitHub("work".into()).tag(), "work");
}

#[test]
fn the_picker_starts_in_the_remembered_mode() {
    let modes = create_available_modes(&two_profiles());
    assert_eq!(initial_mode(&None, &modes), PickerMode::Local);
    assert_eq!(initial_mode(&Some("local".into()), &modes), PickerMode::Local);
    assert_eq!(initial_mode(&Some("personal".into()), &modes), PickerMode::GitHub("personal".into()));
    assert_eq!(initial_mode(&Some("gone".into()), &modes), PickerMode::Local);

    let mut manager = StateManager::with_dirs("/s".into(), "/c".into());
    manager.set_active_profile(Some("work".to_string()));
    let mut picker = Picker::new_streaming(None, InputPosition::Bottom, Some(manager), &two_profiles());
    assert_eq!(picker.current_mode(), &PickerMode::GitHub("work".into()));
    assert_eq!(
        picker.start(),
        PickerEffect::Load { mode: PickerMode::GitHub("work".into()), force_refresh: false }
    );
    assert_eq!(
        picker.ui_state(),
        &UIState::Loading("Loading GitHub repositories for 'work'...".to_string())
    );

    let mut local = Picker::new_streaming(None, InputPosition::Bottom, store(), &two_profiles());
    assert_eq!(local.start(), PickerEffect::Continue);
    assert_eq!(local.ui_state(), &UIState::Normal);
}

#[test]
fn empty_stream_shows_zero_of_zero_and_cancel_exits_without_selection() {
    let mut picker = Picker::new_streaming(None, InputPosition::Bottom, store(), &Config::default());
    picker.on_tick();
    assert_eq!(picker.counts(), (0, 0));
    assert!(picker.title().ends_with("0/0 (scanning...)"));
    picker.stream_closed();
    picker.on_tick();
    assert_eq!(picker.title(), "Local repos - 0/0");
    assert_eq!(picker.get_selected(), None);
    assert_eq!(picker.handle_key_event(act(PickerAction::Confirm)), PickerEffect::Continue);
    assert_eq!(picker.handle_key_event(act(PickerAction::Cancel)), PickerEffect::Exit(None));
}

#[test]
fn titles() {
    assert_eq!(title(&PickerMode::Local, 3, 17, false), "Local repos - 3/17");
    assert_eq!(
        title(&PickerMode::GitHub("work".into()), 0, 4_000_000_000, false),
        "Github - work - 0/4000000000"
    );
    assert_eq!(title(&PickerMode::Local, 1, 2, true), "Local repos - \u{1F50D} 1/2 (scanning...)");
    assert_eq!(poll_timeout(true), 50);
    assert_eq!(poll_timeout(false), 100);
}

#[test]
fn items_are_matched_and_selected() {
    let list = vec!["alpha".to_string(), "beta".to_string(), "gamma".to_string()];
    let mut picker = Picker::new(&list, None, InputPosition::Bottom, store(), &Config::default());
    assert_eq!(picker.total_items_added(), 3);
    settle_matcher(&mut picker, 3);
    assert_eq!(picker.counts(), (3, 3));
    assert_eq!(picker.selection(), Some(0));
    let first = picker.get_selected().unwrap();
    assert!(list.contains(&first));

    for c in "BET".chars() {
        assert_eq!(picker.handle_key_event(press(Key::Char(c))), PickerEffect::Continue);
    }
    assert_eq!(picker.filter(), "BET");
    assert_eq!(picker.cursor_pos(), 3);
    for _ in 0..50 {
        picker.on_tick();
        if picker.counts().0 == 1 {
            break;
        }
    }
    assert_eq!(picker.counts(), (1, 3));
    assert_eq!(picker.get_selected(), Some("beta".to_string()));
    assert_eq!(
        picker.handle_key_event(act(PickerAction::Confirm)),
        PickerEffect::Exit(Some("beta".to_string()))
    );
    let remembered = picker.state_manager().as_ref().unwrap().get_active_profile();
    assert_eq!(remembered, Some("local".to_string()));
}

#[test]
fn streamed_items_arrive_only_in_the_local_mode_and_while_the_stream_is_open() {
    let mut picker = Picker::new_streaming(None, InputPosition::Bottom, store(), &two_profiles());
    picker.ingest("one".to_string());
    picker.ingest("two".to_string());
    settle_matcher(&mut picker, 2);
    assert_eq!(picker.counts().1, 2);
    assert_eq!(picker.total_items_added(), 2);

    // switch to the remote mode `work`
    assert_eq!(picker.handle_key_event(press(Key::Tab)), PickerEffect::Continue);
    assert_eq!(picker.ui_state(), &UIState::ModeSelection);
    assert_eq!(picker.handle_key_event(press(Key::Down)), PickerEffect::Continue);
    assert_eq!(picker.mode_selection(), 1);
    let effect = picker.handle_key_event(press(Key::Enter));
    assert_eq!(
        effect,
        PickerEffect::Load { mode: PickerMode::GitHub("work".into()), force_refresh: false }
    );
    assert!(matches!(picker.ui_state(), UIState::Loading(_)));
    assert!(!picker.is_streaming());
    // the chosen mode is remembered at once, the list stays until the items are there
    assert_eq!(
        picker.state_manager().as_ref().unwrap().get_active_profile(),
        Some("work".to_string())
    );
    assert_eq!(picker.current_mode(), &PickerMode::Local);

    // a straggler of the local scan is dropped
    picker.ingest("late".to_string());
    assert_eq!(picker.total_items_added(), 2);

    picker.finish_loading(Ok(vec!["repo-a - first".to_string(), "repo-b - No description".to_string()]));
    assert_eq!(picker.ui_state(), &UIState::Normal);
    assert_eq!(picker.current_mode(), &PickerMode::GitHub("work".into()));
    assert_eq!(picker.total_items_added(), 2);
    picker.ingest("later".to_string());
    settle_matcher(&mut picker, 2);
    assert_eq!(picker.counts(), (2, 2));
    let selected = picker.get_selected().unwrap();
    assert!(selected.starts_with("repo-"));
    assert_eq!(picker.title(), "Github - work - 2/2");

    // confirming in a remote mode asks for a clone
    let effect = picker.handle_key_event(act(PickerAction::Confirm));
    let expected_repo = selected.split(" - ").next().unwrap().to_string();
    assert_eq!(effect, PickerEffect::Clone { profile: "work".to_string(), repo_name: expected_repo });
    assert_eq!(
        picker.finish_clone(Ok("/home/u/work/repo-a".to_string())),
        PickerEffect::Exit(Some("remote:/home/u/work/repo-a".to_string()))
    );
    assert_eq!(picker.finish_clone(Err("exit status 128".to_string())), PickerEffect::Continue);
    assert_eq!(
        picker.ui_state(),
        &UIState::Error("Error cloning repository: exit status 128".to_string())
    );
}

#[test]
fn a_failed_load_shows_an_error_and_keeps_the_previous_list() {
    let list = vec!["alpha".to_string(), "beta".to_string()];
    let mut picker = Picker::new(&list, None, InputPosition::Bottom, store(), &two_profiles());
    settle_matcher(&mut picker, 2);
    picker.handle_key_event(act(PickerAction::SwitchMode));
    picker.handle_key_event(press(Key::Up));
    assert_eq!(picker.mode_selection(), 2);
    let effect = picker.handle_key_event(press(Key::Enter));
    assert_eq!(
        effect,
        PickerEffect::Load { mode: PickerMode::GitHub("personal".into()), force_refresh: false }
    );
    // while loading only cancel is heard
    assert_eq!(picker.handle_key_event(press(Key::Char('x'))), PickerEffect::Continue);
    assert_eq!(picker.filter(), "");
    assert!(matches!(picker.ui_state(), UIState::Loading(_)));

    picker.finish_loading(Err("Git Error".to_string()));
    assert_eq!(
        picker.ui_state(),
        &UIState::Error("Failed to load GitHub repositories: Git Error".to_string())
    );
    assert_eq!(
        picker.error_message(),
        &Some("Failed to load GitHub repositories: Git Error".to_string())
    );
    // any key dismisses the error
    assert_eq!(picker.handle_key_event(press(Key::Char('q'))), PickerEffect::Continue);
    assert_eq!(picker.ui_state(), &UIState::Normal);
    assert_eq!(picker.error_message(), &None);
    assert_eq!(picker.filter(), "");
    assert_eq!(picker.current_mode(), &PickerMode::Local);
    settle_matcher(&mut picker, 2);
    assert_eq!(picker.counts(), (2, 2));
    assert!(list.contains(&picker.get_selected().unwrap()));
}

#[test]
fn cancel_while_loading_leaves_the_loop() {
    let mut picker = Picker::new_streaming(None, InputPosition::Bottom, store(), &two_profiles());
    assert_eq!(
        picker.handle_key_event(press(Key::F(5))),
        PickerEffect::Load { mode: PickerMode::Local, force_refresh: true }
    );
    assert_eq!(picker.ui_state(), &UIState::Loading("Loading local repositories...".to_string()));
    assert_eq!(picker.handle_key_event(act(PickerAction::Confirm)), PickerEffect::Continue);
    assert_eq!(picker.handle_key_event(act(PickerAction::Cancel)), PickerEffect::Exit(None));
}

#[test]
fn refresh_and_switch_keys_follow_the_configuration() {
    let mut config = two_profiles();
    config.picker_switch_mode_key = Some("ctrl-t".to_string());
    config.picker_refresh_key = Some("f5".to_string());
    let mut picker = Picker::new_streaming(None, InputPosition::Bottom, None, &config);
    // tab is an ordinary key now
    assert_eq!(picker.handle_key_event(press(Key::Tab)), PickerEffect::Continue);
    assert_eq!(picker.ui_state(), &UIState::Normal);
    assert_eq!(picker.handle_key_event(act(PickerAction::SwitchMode)), PickerEffect::Continue);
    assert_eq!(picker.ui_state(), &UIState::ModeSelection);
    assert_eq!(picker.handle_key_event(press(Key::Esc)), PickerEffect::Continue);
    assert_eq!(picker.ui_state(), &UIState::Normal);
    assert_eq!(
        picker.handle_key_event(press(Key::F(5))),
        PickerEffect::Load { mode: PickerMode::Local, force_refresh: true }
    );
    picker.finish_loading(Ok(vec![]));
    assert_eq!(picker.handle_key_event(press(Key::F(4))), PickerEffect::Continue);
    assert_eq!(picker.ui_state(), &UIState::Normal);

    let mut other = Config::default();
    other.picker_refresh_key = Some("ctrl-r".to_string());
    let mut picker = Picker::new_streaming(None, InputPosition::Bottom, None, &other);
    assert_eq!(picker.handle_key_event(press(Key::F(5))), PickerEffect::Continue);
    assert_eq!(picker.ui_state(), &UIState::Normal);
    // with a single mode there is no mode list
    assert_eq!(picker.handle_key_event(press(Key::Tab)), PickerEffect::Continue);
    assert_eq!(picker.ui_state(), &UIState::Normal);
}

#[test]
fn the_mode_list_is_filtered_without_regard_to_case() {
    let modes = create_available_modes(&two_profiles());
    assert_eq!(filter_modes(&modes, ""), vec![0, 1, 2]);
    assert_eq!(filter_modes(&modes, "GITHUB"), vec![1, 2]);
    assert_eq!(filter_modes(&modes, "repos"), vec![0]);
    assert_eq!(filter_modes(&modes, "person"), vec![2]);
    assert!(filter_modes(&modes, "zzz").is_empty());

    let mut picker = Picker::new_streaming(None, InputPosition::Bottom, store(), &two_profiles());
    picker.enter_mode_selection();
    picker.handle_key_event(press(Key::Down));
    for c in "pers".chars() {
        picker.handle_key_event(press(Key::Char(c)));
    }
    assert_eq!(picker.mode_filter(), "pers");
    assert_eq!(picker.mode_selection(), 0);
    picker.handle_key_event(press(Key::Backspace));
    assert_eq!(picker.mode_filter(), "per");
    // one line is shown; up and down stay on it
    picker.handle_key_event(press(Key::Down));
    assert_eq!(picker.mode_selection(), 0);
    picker.handle_key_event(press(Key::Up));
    assert_eq!(picker.mode_selection(), 0);
    assert_eq!(
        picker.handle_key_event(press(Key::Enter)),
        PickerEffect::Load { mode: PickerMode::GitHub("personal".into()), force_refresh: false }
    );

    // enter on the current mode closes the list
    let mut picker = Picker::new_streaming(None, InputPosition::Bottom, store(), &two_profiles());
    picker.enter_mode_selection();
    assert_eq!(picker.handle_key_event(press(Key::Enter)), PickerEffect::Continue);
    assert_eq!(picker.ui_state(), &UIState::Normal);
    assert!(picker.is_streaming());
}

#[test]
fn the_filter_line_is_edited() {
    let mut picker = Picker::new_streaming(None, InputPosition::Top, None, &Config::default());
    for c in "foo  bar baz".chars() {
        picker.update_filter(c);
    }
    assert_eq!((picker.filter().as_str(), picker.cursor_pos()), ("foo  bar baz", 12));
    picker.handle_key_event(act(PickerAction::DeleteWord));
    assert_eq!((picker.filter().as_str(), picker.cursor_pos()), ("foo  bar ", 9));
    picker.handle_key_event(act(PickerAction::DeleteWord));
    assert_eq!((picker.filter().as_str(), picker.cursor_pos()), ("foo  ", 5));
    picker.handle_key_event(act(PickerAction::CursorLeft));
    picker.handle_key_event(act(PickerAction::CursorLeft));
    picker.handle_key_event(act(PickerAction::Backspace));
    assert_eq!((picker.filter().as_str(), picker.cursor_pos()), ("fo  ", 2));
    picker.handle_key_event(act(PickerAction::Delete));
    assert_eq!((picker.filter().as_str(), picker.cursor_pos()), ("fo ", 2));
    picker.handle_key_event(press(Key::Char('é')));
    picker.handle_key_event(press(Key::Char('x')));
    assert_eq!((picker.filter().as_str(), picker.cursor_pos()), ("foéx ", 4));
    picker.handle_key_event(act(PickerAction::MoveToLineStart));
    assert_eq!(picker.cursor_pos(), 0);
    picker.handle_key_event(act(PickerAction::Backspace));
    picker.handle_key_event(act(PickerAction::CursorLeft));
    assert_eq!((picker.filter().as_str(), picker.cursor_pos()), ("foéx ", 0));
    picker.handle_key_event(act(PickerAction::CursorRight));
    picker.handle_key_event(act(PickerAction::DeleteToLineStart));
    assert_eq!((picker.filter().as_str(), picker.cursor_pos()), ("oéx ", 0));
    picker.handle_key_event(act(PickerAction::CursorRight));
    picker.handle_key_event(act(PickerAction::DeleteToLineEnd));
    assert_eq!((picker.filter().as_str(), picker.cursor_pos()), ("o", 1));
    picker.handle_key_event(act(PickerAction::MoveToLineEnd));
    picker.handle_key_event(act(PickerAction::CursorRight));
    picker.handle_key_event(act(PickerAction::Delete));
    picker.handle_key_event(act(PickerAction::Noop));
    assert_eq!((picker.filter().as_str(), picker.cursor_pos()), ("o", 1));
    picker.handle_key_event(act(PickerAction::DeleteWord));
    picker.handle_key_event(act(PickerAction::DeleteWord));
    assert_eq!((picker.filter().as_str(), picker.cursor_pos()), ("", 0));
}

#[test]
fn input_line_is_capped() {
    let mut line = InputLine::new();
    for _ in 0..65535 {
        assert!(line.insert('a'));
    }
    assert!(!line.insert('b'));
    assert_eq!(line.len(), 65535);
    assert_eq!(line.cursor_pos(), 65535);
    assert!(line.delete_to_line(false));
    assert_eq!(line.len(), 0);
    assert!(!line.delete_word());
    assert!(!line.backspace());
    assert!(!line.delete());
    assert!(!line.delete_to_line(true));
}

#[test]
fn selection_steps() {
    // up: towards the less preferred match, wrapping
    assert_eq!(do_move_up(None, 3), Some(0));
    assert_eq!(do_move_up(Some(0), 3), Some(1));
    assert_eq!(do_move_up(Some(2), 3), Some(0));
    assert_eq!(do_move_up(Some(1), 0), Some(1));
    assert_eq!(do_move_up(None, 0), None);
    // down
    assert_eq!(do_move_down(None, 3), Some(0));
    assert_eq!(do_move_down(Some(0), 3), Some(2));
    assert_eq!(do_move_down(Some(2), 3), Some(1));
    assert_eq!(do_move_down(Some(0), 0), Some(0));
    // pages
    assert_eq!(do_page_up(Some(1), 30, 10), Some(11));
    assert_eq!(do_page_up(Some(25), 30, 10), Some(29));
    assert_eq!(do_page_up(Some(5), 30, usize::MAX), Some(29));
    assert_eq!(do_page_up(None, 30, 10), Some(0));
    assert_eq!(do_page_up(Some(5), 0, 10), Some(5));
    assert_eq!(do_page_down(Some(25), 30, 10), Some(15));
    assert_eq!(do_page_down(Some(5), 30, 10), Some(0));
    assert_eq!(do_page_down(None, 30, 10), Some(0));
    // settling
    assert_eq!(settle(None, 0), None);
    assert_eq!(settle(None, 4), Some(0));
    assert_eq!(settle(Some(2), 0), None);
    assert_eq!(settle(Some(2), 4), Some(2));
    assert_eq!(settle(Some(9), 4), Some(3));
}

#[test]
fn up_key_is_inverted_with_the_input_at_the_top() {
    let list: Vec<String> = (0..5).map(|i| format!("item{}", i)).collect();
    let mut bottom = Picker::new(&list, None, InputPosition::Bottom, None, &Config::default());
    settle_matcher(&mut bottom, 5);
    assert_eq!(bottom.selection(), Some(0));
    bottom.handle_key_event(act(PickerAction::MoveUp));
    assert_eq!(bottom.selection(), Some(1));
    bottom.handle_key_event(act(PickerAction::MoveDown));
    bottom.handle_key_event(act(PickerAction::MoveDown));
    assert_eq!(bottom.selection(), Some(4));
    bottom.set_page_size(4);
    bottom.handle_key_event(act(PickerAction::PageDown));
    assert_eq!(bottom.selection(), Some(1));
    bottom.handle_key_event(act(PickerAction::PageUp));
    assert_eq!(bottom.selection(), Some(4));

    let mut top = Picker::new(&list, None, InputPosition::Top, None, &Config::default());
    settle_matcher(&mut top, 5);
    top.handle_key_event(act(PickerAction::MoveUp));
    assert_eq!(top.selection(), Some(4));
    top.handle_key_event(act(PickerAction::MoveDown));
    assert_eq!(top.selection(), Some(0));
    top.handle_key_event(act(PickerAction::MoveDown));
    assert_eq!(top.selection(), Some(1));
}

#[test]
fn layout_of_the_panes() {
    let side_by_side = PaneLayout { horizontal: true, picker_first: true, input_position: InputPosition::Top };
    assert_eq!(pane_layout(true, 200, 50, InputPosition::Top), side_by_side);
    assert_eq!(pane_layout(true, 100, 50, InputPosition::Top), side_by_side);
    assert_eq!(pane_layout(true, 99, 50, InputPosition::Top), side_by_side);
    let stacked = PaneLayout { horizontal: false, picker_first: false, input_position: InputPosition::Bottom };
    assert_eq!(pane_layout(true, 98, 50, InputPosition::Top), stacked);
    assert_eq!(pane_layout(true, 65535, 65535, InputPosition::Top), stacked);
    assert_eq!(pane_layout(false, 10, 50, InputPosition::Top), side_by_side);
    assert_eq!(page_size_for(0), 1);
    assert_eq!(page_size_for(1), 1);
    assert_eq!(page_size_for(2), 1);
    assert_eq!(page_size_for(3), 2);
    assert_eq!(page_size_for(40), 39);
}

#[test]
fn status_and_colors() {
    let picker = Picker::new_streaming(None, InputPosition::Bottom, None, &Config::default());
    let mut picker = picker.set_colors(None);
    picker.set_status("working".to_string());
    assert_eq!(picker.status_message(), &Some("working".to_string()));
    picker.clear_status();
    assert_eq!(picker.status_message(), &None);
    picker.set_error("broken".to_string());
    assert_eq!(picker.ui_state(), &UIState::Error("broken".to_string()));
    assert_eq!(picker.available_modes(), &vec![PickerMode::Local]);
    assert_eq!(picker.start_loading_github_mode(true), PickerEffect::Continue);
    assert_eq!(
        picker.start_loading_local_mode(false),
        PickerEffect::Load { mode: PickerMode::Local, force_refresh: false }
    );
}

#[test]
fn colours_and_preview_are_kept_by_the_picker() {
    let config = Config::default();
    let list = vec!["a".to_string()];
    let picker = Picker::new(
        &list,
        Some(tms::picker::Preview::Directory),
        InputPosition::Top,
        None,
        &config,
    );
    assert_eq!(picker.colors(), None);
    assert_eq!(picker.preview(), &Some(tms::picker::Preview::Directory));
    let colors = tms::configs::PickerColorConfig::default_colors();
    let mut picker = picker.set_colors(Some(colors));
    assert_eq!(picker.colors(), Some(colors));
    let _ = picker.handle_key_event(press(Key::Char('x')));
    picker.set_page_size(30);
    assert_eq!(picker.colors(), Some(colors));
    assert_eq!(picker.preview(), &Some(tms::picker::Preview::Directory));
    assert_eq!(picker.filter(), "x");
}

#[test]
fn matches_counts_and_selection_speak_of_one_snapshot() {
    let config = Config::default();
    let list: Vec<String> =
        ["alpha", "beta", "gamma", "delta"].iter().map(|s| s.to_string()).collect();
    let mut picker = Picker::new(&list, None, InputPosition::Top, None, &config);
    settle_matcher(&mut picker, 4);
    assert_eq!(picker.counts(), (4, 4));

    let all = picker.matched_items(u32::MAX);
    assert_eq!(all.len(), 4);
    let mut sorted = all.clone();
    sorted.sort();
    assert_eq!(sorted, vec!["alpha", "beta", "delta", "gamma"]);
    // a limit below the number of matches gives the first of them, in the same order
    assert_eq!(picker.matched_items(2), all[..2].to_vec());
    assert_eq!(picker.matched_items(0), Vec::<String>::new());
    assert_eq!(picker.matched_items(4), all);

    // the selected item is the match on which the selection stands
    let index = picker.selection().unwrap();
    assert_eq!(picker.get_selected(), Some(all[index].clone()));
    picker.move_down();
    let index = picker.selection().unwrap();
    assert_eq!(picker.get_selected(), Some(all[index].clone()));

    // typing hands the filter to the matcher: only what matches it is left
    for c in "lt".chars() {
        let _ = picker.handle_key_event(press(Key::Char(c)));
    }
    for _ in 0..200 {
        picker.on_tick();
        if picker.counts().0 == 1 {
            break;
        }
    }
    assert_eq!(picker.counts(), (1, 4));
    let left = picker.matched_items(10);
    assert_eq!(left, vec!["delta".to_string()]);
    let expected = picker.selection().and_then(|index| left.get(index).cloned());
    assert_eq!(picker.get_selected(), expected);
}
