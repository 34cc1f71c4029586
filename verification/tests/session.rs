use tms::configs::{Config, SessionSortOrderConfig};
use tms::repos::{GitRepository, RepoProvider};
use tms::session::{
    append_bookmarks, bookmark_session, create_sessions, deduplicate_sessions,
    generate_session_container, group_sessions, insert_session, rank_by_score, Session,
    SessionContainer, SessionGroups, SessionMap, SessionType,
};

fn git_session(name: &str, git_dir: &str) -> Session {
    Session::new(
        name.to_string(),
        SessionType::Git(Box::new(RepoProvider::Git(GitRepository {
            git_dir: git_dir.to_string(),
            work_dir: None,
            main_git_dir: Some(git_dir.to_string()),
            bare: false,
            head: None,
        }))),
    )
}

#[test]
fn verify_session_name_deduplication() {
    let mut test_sessions = vec![
        Session::new("test".into(), SessionType::Bookmark("/search/path/to/proj1/test".into())),
        Session::new("test".into(), SessionType::Bookmark("/search/path/to/proj2/test".into())),
        Session::new(
            "test".into(),
            SessionType::Bookmark("/other/path/to/projects/proj2/test".into()),
        ),
    ];

    let deduplicated = deduplicate_sessions(&mut test_sessions);

    assert_eq!(deduplicated[0].name, "projects/proj2/test");
    assert_eq!(deduplicated[1].name, "to/proj2/test");
    assert_eq!(deduplicated[2].name, "to/proj1/test");
}

#[test]
fn verify_btreemap_maintains_alphabetical_order() {
    let mut sessions = SessionMap::new();

    sessions.insert_session(
        "zebra".to_string(),
        Session::new("zebra".into(), SessionType::Bookmark("/path/zebra".into())),
    );
    sessions.insert_session(
        "apple".to_string(),
        Session::new("apple".into(), SessionType::Bookmark("/path/apple".into())),
    );
    sessions.insert_session(
        "middle".to_string(),
        Session::new("middle".into(), SessionType::Bookmark("/path/middle".into())),
    );
    sessions.insert_session(
        "banana".to_string(),
        Session::new("banana".into(), SessionType::Bookmark("/path/banana".into())),
    );

    let list = sessions.list();
    assert_eq!(list, vec!["apple", "banana", "middle", "zebra"]);

    let keys: Vec<_> = sessions.list();
    assert_eq!(keys, vec!["apple", "banana", "middle", "zebra"]);
}

#[test]
fn name_collision_is_resolved_with_one_parent() {
    // two repositories named `proj` below x and y
    let mut colliding =
        vec![git_session("proj", "/t/x/proj/.git"), git_session("proj", "/t/y/proj/.git")];
    let renamed = deduplicate_sessions(&mut colliding);
    assert!(colliding.is_empty());
    let mut names: Vec<String> = renamed.iter().map(|s| s.name.clone()).collect();
    names.sort();
    assert_eq!(names, vec!["x/proj", "y/proj"]);
    assert_eq!(renamed[0].name, "y/proj");
    assert_eq!(renamed[0].path(), "/t/y/proj");
}

#[test]
fn sessions_that_cannot_be_told_apart_show_their_whole_path() {
    let mut same = vec![
        Session::new("p".into(), SessionType::Bookmark("/a/p".into())),
        Session::new("p".into(), SessionType::Bookmark("/a/p".into())),
    ];
    let renamed = deduplicate_sessions(&mut same);
    assert_eq!(renamed[0].name, "//a/p");
    assert_eq!(renamed[1].name, "//a/p");
}

#[test]
fn session_path_and_names() {
    let session = git_session("my.repo", "/home/u/my.repo/.git");
    assert_eq!(session.path(), "/home/u/my.repo");
    assert_eq!(session.session_name(), "my_repo");
    assert_eq!(session.visible_name(None), "my.repo");
    assert_eq!(session.visible_name(Some(false)), "my.repo");
    assert_eq!(session.visible_name(Some(true)), "/home/u/my.repo");

    let bare = Session::new(
        "bare".into(),
        SessionType::Git(Box::new(RepoProvider::Git(GitRepository {
            git_dir: "/srv/bare.git".to_string(),
            work_dir: None,
            main_git_dir: Some("/srv/bare.git".to_string()),
            bare: true,
            head: None,
        }))),
    );
    assert_eq!(bare.path(), "/srv/bare.git");

    let remote = Session::new(
        "r".into(),
        SessionType::GitHub { path: "/clones/r".into(), repo_name: "r".into() },
    );
    assert_eq!(remote.path(), "/clones/r");
    assert_eq!(bookmark_session("/notes/todo/").name, "todo");
    assert_eq!(bookmark_session("/").name, "unknown");
}

#[test]
fn container_lookup_and_replacement() {
    let mut sessions = SessionMap::new();
    assert_eq!(sessions.len(), 0);
    assert!(sessions.find_session("a").is_none());
    sessions.insert_session("a".into(), Session::new("a".into(), SessionType::Bookmark("/1".into())));
    sessions.insert_session("a".into(), Session::new("a".into(), SessionType::Bookmark("/2".into())));
    assert_eq!(sessions.len(), 1);
    assert_eq!(sessions.find_session("a").unwrap().path(), "/2");
    assert!(sessions.find_session("b").is_none());

    let mut full = Config::default();
    full.display_full_path = Some(true);
    insert_session(&mut sessions, Session::new("c".into(), SessionType::Bookmark("/x/c".into())), &full);
    assert_eq!(sessions.list(), vec!["/x/c", "a"]);
}

#[test]
fn frecency_order_puts_the_higher_score_first_and_is_stable() {
    // a was selected twice, b once, both just now
    let half_life = 604_800.0_f64;
    let score = |count: u32, age: f64| (count as f64) * (-age / half_life).exp();
    let names = vec!["a".to_string(), "b".to_string()];
    let scores = vec![score(2, 0.0).to_bits(), score(1, 0.0).to_bits()];
    assert_eq!(rank_by_score(&names, &scores), vec!["a", "b"]);
    let scores = vec![score(1, 0.0).to_bits(), score(2, 0.0).to_bits()];
    assert_eq!(rank_by_score(&names, &scores), vec!["b", "a"]);

    let names: Vec<String> = ["a", "b", "c", "d", "e"].iter().map(|s| s.to_string()).collect();
    let scores = vec![5, 9, 5, 0, 9];
    assert_eq!(rank_by_score(&names, &scores), vec!["b", "e", "a", "c", "d"]);
    // missing scores count as zero
    assert_eq!(rank_by_score(&names, &vec![0, 3]), vec!["b", "a", "c", "d", "e"]);
}

#[test]
fn list_sorted_follows_the_configured_order() {
    let mut sessions = SessionMap::new();
    for name in ["b", "a", "c"] {
        sessions.insert_session(
            name.to_string(),
            Session::new(name.into(), SessionType::Bookmark(format!("/{}", name))),
        );
    }
    let mut config = Config::default();
    assert_eq!(sessions.list_sorted(&config, &vec![1, 2, 3]), vec!["a", "b", "c"]);
    config.session_sort_order = Some(SessionSortOrderConfig::LastAttached);
    assert_eq!(sessions.list_sorted(&config, &vec![1, 2, 3]), vec!["a", "b", "c"]);
    config.session_sort_order = Some(SessionSortOrderConfig::Frecency);
    assert_eq!(sessions.list_sorted(&config, &vec![1, 2, 3]), vec!["c", "b", "a"]);
}

#[test]
fn sessions_are_grouped_by_name_in_dictionary_order() {
    let groups = group_sessions(vec![
        git_session("zeta", "/w/zeta/.git"),
        git_session("proj", "/w/x/proj/.git"),
        git_session("alpha", "/w/alpha/.git"),
        git_session("proj", "/w/y/proj/.git"),
    ]);
    let groups = groups.into_groups();
    let names: Vec<Vec<String>> =
        groups.iter().map(|g| g.iter().map(|s| s.path()).collect()).collect();
    assert_eq!(
        names,
        vec![
            vec!["/w/alpha".to_string()],
            vec!["/w/x/proj".to_string(), "/w/y/proj".to_string()],
            vec!["/w/zeta".to_string()],
        ]
    );
    assert!(SessionGroups::new().into_groups().is_empty());
}

#[test]
fn container_is_generated_from_repositories_and_bookmarks() {
    let found = vec![
        git_session("proj", "/t/x/proj/.git"),
        git_session("solo", "/t/solo/.git"),
        git_session("proj", "/t/y/proj/.git"),
    ];
    let bookmarks = vec!["/notes".to_string(), "/other/solo".to_string()];
    let container = create_sessions(&Config::default(), found, &bookmarks);
    assert_eq!(container.list(), vec!["notes", "other/solo", "t/solo", "x/proj", "y/proj"]);
    assert_eq!(container.find_session("x/proj").unwrap().path(), "/t/x/proj");
    assert!(matches!(
        container.find_session("notes").unwrap().session_type,
        SessionType::Bookmark(_)
    ));

    let groups = append_bookmarks(group_sessions(vec![]), &bookmarks);
    let container = generate_session_container(groups.into_groups(), &Config::default());
    assert_eq!(container.list(), vec!["notes", "solo"]);
}
