use tms::configs::SearchDirectory;
use tms::error::TmsError;
use tms::exclusion::Excluder;
use tms::repos::{
    is_hidden, is_poor_yield, should_stop, worker_count, worker_threads, ChildEntry,
    GitRepository, GitWorktree, JujutsuWorkspace, Listing, RepoProbe, RepoProvider, ScanStep,
    Scanner, Worktree,
};
use tms::session::Session;
use tms::skip_list::{fast_skip_names, SkipList};

fn dir(path: &str, depth: usize) -> SearchDirectory {
    SearchDirectory::new(path.to_string(), depth)
}

fn repo_at(path: &str) -> RepoProvider {
    RepoProvider::Git(GitRepository {
        git_dir: format!("{}/.git", path),
        work_dir: Some(path.to_string()),
        main_git_dir: Some(format!("{}/.git", path)),
        bare: false,
        head: Some("main".to_string()),
    })
}

fn child(path: &str, is_dir: bool) -> ChildEntry {
    ChildEntry { path: path.to_string(), is_dir }
}

/// A made-up filesystem: directories with their entries, and the directories that hold a
/// repository.
struct Tree {
    dirs: Vec<(&'static str, Vec<ChildEntry>)>,
    repos: Vec<(&'static str, RepoProvider)>,
}

impl Tree {
    fn probe(&self, path: &str) -> RepoProbe {
        match self.repos.iter().find(|(p, _)| *p == path) {
            Some((_, repo)) => RepoProbe::Opened { repo: repo.clone(), nanos: 10 },
            None => RepoProbe::NoMarker,
        }
    }

    fn listing(&self, d: &SearchDirectory) -> Listing {
        if d.depth == 0 {
            return Listing::NotRead;
        }
        match self.dirs.iter().find(|(p, _)| *p == d.path) {
            Some((_, entries)) => Listing::Entries(entries.clone()),
            None => Listing::NotRead,
        }
    }
}

fn run(scanner: &mut Scanner, tree: &Tree) -> (Vec<Session>, Vec<String>) {
    let mut found = Vec::new();
    let mut visited = Vec::new();
    loop {
        match scanner.next_step(0) {
            ScanStep::Visit(d) => {
                visited.push(d.path.clone());
                if let Some(session) = scanner.classify(&d, tree.probe(&d.path)) {
                    found.push(session);
                }
                scanner.complete(&d, tree.listing(&d)).unwrap();
            }
            ScanStep::Excluded(_) => {}
            ScanStep::Wait => panic!("nothing is pending in a sequential run"),
            ScanStep::Done | ScanStep::Stopped => break,
        }
    }
    (found, visited)
}

#[test]
fn empty_workspace_yields_nothing() {
    let tree = Tree { dirs: vec![("/t", vec![])], repos: vec![] };
    let mut scanner = Scanner::new(vec![dir("/t", 10)], Excluder::none());
    let (found, visited) = run(&mut scanner, &tree);
    assert!(found.is_empty());
    assert_eq!(visited, vec!["/t"]);
    assert_eq!(scanner.counters().dirs_scanned, 1);
    assert_eq!(scanner.counters().repos_emitted, 0);
    assert_eq!(scanner.next_step(0), ScanStep::Done);
}

#[test]
fn mixed_workspace_emits_exactly_a_and_d() {
    let tree = Tree {
        dirs: vec![
            (
                "/t",
                vec![
                    child("/t/a", true),
                    child("/t/b", true),
                    child("/t/c", true),
                    child("/t/node_modules", true),
                    child("/t/README.md", false),
                    child("/t/.hidden", true),
                ],
            ),
            ("/t/a", vec![child("/t/a/.git", true), child("/t/a/src", true)]),
            ("/t/b", vec![]),
            ("/t/c", vec![child("/t/c/d", true)]),
            ("/t/c/d", vec![child("/t/c/d/.git", true)]),
            ("/t/node_modules", vec![child("/t/node_modules/x", true)]),
            ("/t/node_modules/x", vec![]),
        ],
        repos: vec![
            ("/t/a", repo_at("/t/a")),
            ("/t/c/d", repo_at("/t/c/d")),
            ("/t/node_modules/x", repo_at("/t/node_modules/x")),
        ],
    };
    let mut scanner = Scanner::new(vec![dir("/t", 10)], Excluder::new(&Some(vec![])).unwrap());
    let (found, visited) = run(&mut scanner, &tree);
    let mut names: Vec<String> = found.iter().map(|s| s.name.clone()).collect();
    names.sort();
    assert_eq!(names, vec!["a", "d"]);
    assert!(visited.iter().all(|p| !p.contains("node_modules")));
    assert!(visited.iter().all(|p| !p.contains(".hidden")));
    assert!(!visited.contains(&"/t/README.md".to_string()));
    // the marker directories themselves are visited, they are no hidden directories
    assert!(visited.contains(&"/t/a/.git".to_string()));
    let counters = scanner.counters();
    assert_eq!(counters.repos_emitted, 2);
    assert_eq!(counters.repos_opened, 2);
    assert_eq!(counters.likely_repos, 2);
    assert_eq!(counters.open_nanos, 20);
    assert_eq!(counters.dirs_excluded, 0);
    assert_eq!(counters.dirs_scanned as usize, visited.len());
}

#[test]
fn queue_is_last_in_first_out() {
    let mut scanner = Scanner::new(vec![dir("/one", 0), dir("/two", 0)], Excluder::none());
    assert_eq!(scanner.queue_len(), 2);
    assert_eq!(scanner.next_step(0), ScanStep::Visit(dir("/two", 0)));
    assert_eq!(scanner.next_step(0), ScanStep::Visit(dir("/one", 0)));
    assert_eq!(scanner.pending_len(), 2);
    assert_eq!(scanner.next_step(0), ScanStep::Wait);
    scanner.complete(&dir("/one", 0), Listing::NotRead).unwrap();
    scanner.complete(&dir("/two", 0), Listing::NotRead).unwrap();
    assert_eq!(scanner.next_step(0), ScanStep::Done);
}

#[test]
fn excluded_paths_are_neither_emitted_nor_entered() {
    let excluder = Excluder::new(&Some(vec!["secret".to_string(), "/skip/".to_string()])).unwrap();
    assert!(excluder.is_excluded("/t/my-secret-repo"));
    assert!(excluder.is_excluded("/t/skip/x"));
    assert!(!excluder.is_excluded("/t/skip"));
    assert!(!excluder.is_excluded("/t/open"));

    let tree = Tree {
        dirs: vec![
            ("/t", vec![child("/t/open", true), child("/t/secret", true)]),
            ("/t/open", vec![]),
            ("/t/secret", vec![child("/t/secret/inner", true)]),
        ],
        repos: vec![
            ("/t/open", repo_at("/t/open")),
            ("/t/secret", repo_at("/t/secret")),
            ("/t/secret/inner", repo_at("/t/secret/inner")),
        ],
    };
    let mut scanner = Scanner::new(vec![dir("/t", 5), dir("/secret-root", 5)], excluder);
    assert_eq!(scanner.next_step(0), ScanStep::Excluded(dir("/secret-root", 5)));
    // the excluded root was not handed out, so nothing can be emitted or entered for it
    assert_eq!(
        scanner.classify(
            &dir("/secret-root", 5),
            RepoProbe::Opened { repo: repo_at("/secret-root"), nanos: 0 }
        ),
        None
    );
    scanner
        .complete(&dir("/secret-root", 5), Listing::Entries(vec![child("/secret-root/x", true)]))
        .unwrap();
    assert_eq!(scanner.queue_len(), 1);

    let (found, visited) = run(&mut scanner, &tree);
    assert_eq!(found.iter().map(|s| s.name.as_str()).collect::<Vec<_>>(), vec!["open"]);
    assert_eq!(visited, vec!["/t", "/t/open"]);
    assert_eq!(scanner.counters().dirs_excluded, 2);
}

#[test]
fn an_empty_pattern_excludes_everything() {
    let excluder = Excluder::new(&Some(vec!["".to_string()])).unwrap();
    assert!(excluder.is_excluded("/anything"));
    assert!(excluder.is_excluded(""));
    assert!(!Excluder::none().is_excluded("/anything"));
    assert!(!Excluder::new(&None).unwrap().is_excluded("/anything"));
}

#[test]
fn depth_budget_bounds_the_descent() {
    let tree = Tree {
        dirs: vec![
            ("/r", vec![child("/r/l1", true)]),
            ("/r/l1", vec![child("/r/l1/l2", true)]),
            ("/r/l1/l2", vec![child("/r/l1/l2/l3", true)]),
            ("/r/l1/l2/l3", vec![child("/r/l1/l2/l3/l4", true)]),
        ],
        repos: vec![("/r/l1/l2", repo_at("/r/l1/l2")), ("/r/l1/l2/l3", repo_at("/r/l1/l2/l3"))],
    };
    let mut scanner = Scanner::new(vec![dir("/r", 2)], Excluder::none());
    let (found, visited) = run(&mut scanner, &tree);
    assert_eq!(visited, vec!["/r", "/r/l1", "/r/l1/l2"]);
    assert_eq!(found.len(), 1);
    assert_eq!(found[0].name, "l2");

    // depth zero: only the root itself is probed
    let mut shallow = Scanner::new(vec![dir("/r/l1/l2", 0)], Excluder::none());
    assert_eq!(shallow.next_step(0), ScanStep::Visit(dir("/r/l1/l2", 0)));
    shallow
        .complete(&dir("/r/l1/l2", 0), Listing::Entries(vec![child("/r/l1/l2/l3", true)]))
        .unwrap();
    assert_eq!(shallow.queue_len(), 0);
}

#[test]
fn no_path_is_emitted_twice() {
    // overlapping roots reach the same repository twice
    let tree = Tree {
        dirs: vec![("/w", vec![child("/w/p", true)]), ("/w/p", vec![])],
        repos: vec![("/w/p", repo_at("/w/p"))],
    };
    let mut scanner = Scanner::new(vec![dir("/w/p", 1), dir("/w", 2)], Excluder::none());
    let (found, visited) = run(&mut scanner, &tree);
    assert_eq!(visited.iter().filter(|p| p.as_str() == "/w/p").count(), 2);
    assert_eq!(found.len(), 1);
    assert_eq!(scanner.counters().repos_opened, 2);
    assert_eq!(scanner.counters().repos_emitted, 1);
}

#[test]
fn worktrees_are_not_emitted() {
    let worktree = RepoProvider::Git(GitRepository {
        git_dir: "/w/main/.git/worktrees/feature".to_string(),
        work_dir: Some("/w/feature".to_string()),
        main_git_dir: Some("/w/main/.git".to_string()),
        bare: false,
        head: None,
    });
    assert!(worktree.is_worktree());
    assert!(!repo_at("/w/main").is_worktree());
    let unknown_main = RepoProvider::Git(GitRepository {
        git_dir: "/w/x/.git".to_string(),
        work_dir: None,
        main_git_dir: None,
        bare: false,
        head: None,
    });
    assert!(unknown_main.is_worktree());

    let mut scanner = Scanner::new(vec![dir("/w/feature", 0)], Excluder::none());
    let d = dir("/w/feature", 0);
    assert_eq!(scanner.next_step(0), ScanStep::Visit(d.clone()));
    assert_eq!(scanner.classify(&d, RepoProbe::Opened { repo: worktree, nanos: 5 }), None);
    assert_eq!(scanner.counters().repos_opened, 1);
    assert_eq!(scanner.counters().repos_emitted, 0);
}

#[test]
fn jujutsu_workspaces() {
    let main = RepoProvider::Jujutsu(JujutsuWorkspace {
        workspace_root: "/w/jj".to_string(),
        repo_path: "/w/jj/.jj/repo".to_string(),
        workspace_name: "default".to_string(),
        bare: false,
    });
    assert!(!main.is_worktree());
    assert_eq!(main.path(), "/w/jj");
    assert_eq!(main.main_repo(), Some("/w/jj/.jj/repo".to_string()));
    assert_eq!(main.work_dir(), Some("/w/jj"));
    assert_eq!(main.head_name(), Err(TmsError::GitError));
    assert!(!main.is_bare());
    let secondary = RepoProvider::Jujutsu(JujutsuWorkspace {
        workspace_root: "/w/second".to_string(),
        repo_path: "/w/jj/.jj/repo".to_string(),
        workspace_name: "second".to_string(),
        bare: false,
    });
    assert!(secondary.is_worktree());
    let git = repo_at("/w/g");
    assert_eq!(git.head_name(), Ok("main".to_string()));
    assert_eq!(git.path(), "/w/g/.git");
    assert_eq!(git.work_dir(), Some("/w/g"));
}

#[test]
fn worktree_records() {
    let present = GitWorktree { id: "wt".into(), base: Some("/w/wt".into()), base_exists: true };
    assert_eq!(present.name(), "wt");
    assert_eq!(present.path(), Ok("/w/wt".to_string()));
    assert!(!present.is_prunable());
    let gone = GitWorktree { id: "old".into(), base: Some("/w/old".into()), base_exists: false };
    assert!(gone.is_prunable());
    let lost = GitWorktree { id: "lost".into(), base: None, base_exists: false };
    assert_eq!(lost.path(), Err(TmsError::GitError));
    assert!(lost.is_prunable());
    let workspace = JujutsuWorkspace {
        workspace_root: "/w/jj".into(),
        repo_path: "/w/jj/.jj/repo".into(),
        workspace_name: "default".into(),
        bare: false,
    };
    assert_eq!(Worktree::name(&workspace), "default");
    assert_eq!(Worktree::path(&workspace), Ok("/w/jj".to_string()));
    assert!(!workspace.is_prunable());
}

#[test]
fn failures_of_reading_end_the_scan_only_at_a_root() {
    let mut scanner = Scanner::new(vec![dir("/root", 3)], Excluder::none());
    let root = dir("/root", 3);
    assert_eq!(scanner.next_step(0), ScanStep::Visit(root.clone()));
    assert_eq!(
        scanner.complete(&root, Listing::Entries(vec![child("/root/sub", true)])),
        Ok(())
    );
    let sub = dir("/root/sub", 2);
    assert_eq!(scanner.next_step(0), ScanStep::Visit(sub.clone()));
    assert_eq!(scanner.complete(&sub, Listing::Failed), Ok(()));
    assert_eq!(scanner.complete(&sub, Listing::PermissionDenied), Ok(()));
    assert_eq!(scanner.complete(&root, Listing::PermissionDenied), Ok(()));
    assert_eq!(scanner.complete(&root, Listing::Failed), Err(TmsError::IoError));
}

#[test]
fn open_failures_are_counted_and_not_emitted() {
    let mut scanner = Scanner::new(vec![dir("/r", 0)], Excluder::none());
    let d = dir("/r", 0);
    scanner.next_step(0);
    assert_eq!(scanner.classify(&d, RepoProbe::OpenFailed { nanos: 7 }), None);
    assert_eq!(scanner.classify(&d, RepoProbe::NoMarker), None);
    let counters = scanner.counters();
    assert_eq!((counters.likely_repos, counters.open_failures, counters.open_nanos), (1, 1, 7));
    assert_eq!((counters.repos_opened, counters.repos_emitted), (0, 0));
}

#[test]
fn stop_rules() {
    // wall clock: 450 ms and 50 repositories
    assert!(should_stop(450, 0, 50));
    assert!(should_stop(10_000, 3, 51));
    assert!(!should_stop(449, 0, 50));
    assert!(!should_stop(450, 0, 49));
    // ratio: more than 100000 directories and more than 500 repositories
    assert!(should_stop(0, 100_001, 501));
    assert!(!should_stop(0, 100_000, 501));
    assert!(!should_stop(0, 100_001, 500));
    // poor yield never stops on the count of directories
    assert!(is_poor_yield(50_001, 199));
    assert!(!is_poor_yield(50_000, 199));
    assert!(!is_poor_yield(50_001, 200));
    assert!(!should_stop(0, 10_000_000, 199));
    assert!(!should_stop(1_000_000, 10_000_000, 49));
}

#[test]
fn the_scan_stops_on_the_wall_clock_once_fifty_were_emitted() {
    let roots: Vec<SearchDirectory> = (0..60).map(|i| dir(&format!("/r/p{:02}", i), 0)).collect();
    let mut scanner = Scanner::new(roots, Excluder::none());
    let mut emitted = 0;
    loop {
        match scanner.next_step(1_000) {
            ScanStep::Visit(d) => {
                let probe = RepoProbe::Opened { repo: repo_at(&d.path), nanos: 0 };
                if scanner.classify(&d, probe).is_some() {
                    emitted += 1;
                }
                scanner.complete(&d, Listing::NotRead).unwrap();
            }
            ScanStep::Stopped => break,
            other => panic!("unexpected step {:?}", other),
        }
    }
    assert_eq!(emitted, 50);
    assert!(scanner.is_stopped());
    assert_eq!(scanner.counters().dirs_scanned, 51);
    assert_eq!(scanner.next_step(0), ScanStep::Stopped);
}

#[test]
fn a_cancelled_scan_is_quiet() {
    let mut scanner = Scanner::new(vec![dir("/a", 3), dir("/b", 3)], Excluder::none());
    let b = dir("/b", 3);
    assert_eq!(scanner.next_step(0), ScanStep::Visit(b.clone()));
    scanner.cancel();
    assert!(scanner.is_stopped());
    assert_eq!(scanner.queue_len(), 0);
    assert_eq!(scanner.classify(&b, RepoProbe::Opened { repo: repo_at("/b"), nanos: 0 }), None);
    scanner.complete(&b, Listing::Entries(vec![child("/b/x", true)])).unwrap();
    assert_eq!(scanner.queue_len(), 0);
    assert_eq!(scanner.pending_len(), 0);
    assert_eq!(scanner.next_step(0), ScanStep::Stopped);
    assert_eq!(scanner.counters().repos_emitted, 0);
}

#[test]
fn hidden_and_skipped_names() {
    assert!(is_hidden(".cache"));
    assert!(is_hidden(".x"));
    assert!(!is_hidden(".git"));
    assert!(!is_hidden(".jj"));
    assert!(!is_hidden("src"));
    assert!(!is_hidden(""));
    let skip = SkipList::from_names(&fast_skip_names());
    for name in [
        "node_modules", "target", "build", "dist", ".cache", "__pycache__", ".venv", "vendor",
        "Pods", "DerivedData", ".terraform", ".gradle", ".m2", ".next", ".nuxt", ".turbo",
        "$RECYCLE.BIN", "System Volume Information",
    ] {
        assert!(skip.contains(name), "{} is on the list", name);
    }
    for name in ["src", "Node_modules", "targets", "", "a", "~"] {
        assert!(!skip.contains(name), "{} is not on the list", name);
    }
    assert!(fast_skip_names().iter().all(|name| skip.contains(name)));
}

#[test]
fn worker_counts() {
    assert_eq!(worker_count(0), 4);
    assert_eq!(worker_count(1), 4);
    assert_eq!(worker_count(4), 4);
    assert_eq!(worker_count(12), 12);
    assert_eq!(worker_count(64), 64);
    assert_eq!(worker_count(512), 64);
    let here = worker_threads();
    assert!((4..=64).contains(&here));
}

#[test]
fn a_worktree_is_added_for_the_checked_out_branch() {
    let plan = repo_at("/w/bare").add_worktree("/w/bare").unwrap();
    assert_eq!(plan.program, "git");
    assert_eq!(plan.args, vec!["worktree".to_string(), "add".to_string(), "main".to_string()]);
    assert_eq!(plan.name, "main");
    assert_eq!(plan.path, "/w/bare/main");

    let headless = RepoProvider::Git(GitRepository {
        git_dir: "/w/bare".to_string(),
        work_dir: None,
        main_git_dir: Some("/w/bare".to_string()),
        bare: true,
        head: None,
    });
    assert_eq!(headless.add_worktree("/w/bare"), None);

    let jujutsu = RepoProvider::Jujutsu(tms::repos::JujutsuWorkspace {
        workspace_root: "/w/jj".to_string(),
        repo_path: "/w/jj/.jj/repo".to_string(),
        workspace_name: "default".to_string(),
        bare: true,
    });
    let plan = jujutsu.add_worktree("/w/jj").unwrap();
    assert_eq!(plan.program, "jj");
    assert_eq!(
        plan.args,
        vec![
            "workspace".to_string(),
            "add".to_string(),
            "-r".to_string(),
            "trunk()".to_string(),
            "trunk".to_string()
        ]
    );
    assert_eq!(plan.name, "trunk");
    assert_eq!(plan.path, "/w/jj/trunk");
}

/// Scans the made-up filesystem from the roots to the end.
fn find_repos(tree: &Tree, roots: Vec<SearchDirectory>) -> Result<Vec<Session>, TmsError> {
    let mut scanner = Scanner::new(roots, Excluder::none());
    let mut found = Vec::new();
    loop {
        match scanner.next_step(0) {
            ScanStep::Visit(d) => {
                if let Some(session) = scanner.classify(&d, tree.probe(&d.path)) {
                    found.push(session);
                }
                scanner.complete(&d, tree.listing(&d))?;
            }
            ScanStep::Excluded(_) => {}
            ScanStep::Wait | ScanStep::Done | ScanStep::Stopped => return Ok(found),
        }
    }
}

#[test]
fn test_async_scanning_handles_empty_directory() {
    let tree = Tree { dirs: vec![("/tmp/t", vec![])], repos: vec![] };

    let result = find_repos(&tree, vec![dir("/tmp/t", 5)]);
    assert!(result.is_ok(), "find_repos should succeed even with no repos");

    let repos = result.unwrap();
    assert_eq!(repos.len(), 0, "Should find no repositories in empty directory");
}

#[test]
fn test_async_scanning_with_nested_directories() {
    let tree = Tree {
        dirs: vec![
            ("/tmp/t", vec![child("/tmp/t/level1", true)]),
            ("/tmp/t/level1", vec![child("/tmp/t/level1/level2", true)]),
            ("/tmp/t/level1/level2", vec![child("/tmp/t/level1/level2/level3", true)]),
            (
                "/tmp/t/level1/level2/level3",
                vec![child("/tmp/t/level1/level2/level3/level4", true)],
            ),
            ("/tmp/t/level1/level2/level3/level4", vec![]),
        ],
        repos: vec![],
    };

    let result = find_repos(&tree, vec![dir("/tmp/t", 10)]);
    assert!(result.is_ok(), "find_repos should succeed with nested dirs");

    let mut scanner = Scanner::new(vec![dir("/tmp/t", 10)], Excluder::none());
    let (_, visited) = run(&mut scanner, &tree);
    assert_eq!(visited.len(), 5);
}

#[test]
fn test_async_scanning_respects_depth_limit() {
    let tree = Tree {
        dirs: vec![
            ("/tmp/t", vec![child("/tmp/t/level1", true)]),
            ("/tmp/t/level1", vec![child("/tmp/t/level1/level2", true)]),
            ("/tmp/t/level1/level2", vec![child("/tmp/t/level1/level2/level3", true)]),
            ("/tmp/t/level1/level2/level3", vec![]),
        ],
        repos: vec![],
    };

    let result = find_repos(&tree, vec![dir("/tmp/t", 1)]);
    assert!(result.is_ok(), "find_repos should succeed with depth limit");

    let mut scanner = Scanner::new(vec![dir("/tmp/t", 1)], Excluder::none());
    let (_, visited) = run(&mut scanner, &tree);
    assert_eq!(visited, vec!["/tmp/t", "/tmp/t/level1"]);
}

#[test]
fn test_async_scanning_handles_permission_denied() {
    let tree = Tree {
        dirs: vec![("/tmp/t", vec![child("/tmp/t/accessible", true)]), ("/tmp/t/accessible", vec![])],
        repos: vec![],
    };

    let result = find_repos(&tree, vec![dir("/tmp/t", 5)]);
    assert!(result.is_ok(), "find_repos should handle permission errors gracefully");

    // a directory that may not be read is passed over, even where the scan starts from it
    let mut scanner = Scanner::new(vec![dir("/tmp/t", 5)], Excluder::none());
    let root = dir("/tmp/t", 5);
    assert_eq!(scanner.next_step(0), ScanStep::Visit(root.clone()));
    assert_eq!(scanner.classify(&root, RepoProbe::NoMarker), None);
    assert_eq!(scanner.complete(&root, Listing::PermissionDenied), Ok(()));
    assert_eq!(scanner.next_step(0), ScanStep::Done);
}

#[test]
fn test_async_scanning_multiple_search_paths() {
    let tree = Tree {
        dirs: vec![
            ("/tmp/one", vec![child("/tmp/one/dir1", true)]),
            ("/tmp/one/dir1", vec![]),
            ("/tmp/two", vec![child("/tmp/two/dir2", true)]),
            ("/tmp/two/dir2", vec![]),
        ],
        repos: vec![],
    };

    let result = find_repos(&tree, vec![dir("/tmp/one", 5), dir("/tmp/two", 5)]);
    assert!(result.is_ok(), "find_repos should handle multiple search paths");

    let mut scanner =
        Scanner::new(vec![dir("/tmp/one", 5), dir("/tmp/two", 5)], Excluder::none());
    let (_, mut visited) = run(&mut scanner, &tree);
    visited.sort();
    assert_eq!(visited, vec!["/tmp/one", "/tmp/one/dir1", "/tmp/two", "/tmp/two/dir2"]);
}

#[test]
fn test_async_repo_scanning_real() {
    let tree = Tree {
        dirs: vec![
            (
                "/tmp/t",
                vec![
                    child("/tmp/t/repo1", true),
                    child("/tmp/t/repo2", true),
                    child("/tmp/t/nested", true),
                ],
            ),
            ("/tmp/t/repo1", vec![child("/tmp/t/repo1/.git", true)]),
            ("/tmp/t/repo2", vec![child("/tmp/t/repo2/.git", true)]),
            ("/tmp/t/nested", vec![child("/tmp/t/nested/repo3", true)]),
            ("/tmp/t/nested/repo3", vec![child("/tmp/t/nested/repo3/.git", true)]),
        ],
        repos: vec![
            ("/tmp/t/repo1", repo_at("/tmp/t/repo1")),
            ("/tmp/t/repo2", repo_at("/tmp/t/repo2")),
            ("/tmp/t/nested/repo3", repo_at("/tmp/t/nested/repo3")),
        ],
    };

    let result = find_repos(&tree, vec![dir("/tmp/t", 3)]);
    assert!(result.is_ok(), "find_repos should succeed: {:?}", result.err());

    let repos = result.unwrap();
    assert_eq!(
        repos.len(),
        3,
        "Should find exactly 3 repositories, found {} repos: {:?}",
        repos.len(),
        repos.iter().map(|session| &session.name).collect::<Vec<_>>()
    );
}

#[test]
fn test_repo_scanning_with_worktrees() {
    let worktree = RepoProvider::Git(GitRepository {
        git_dir: "/tmp/t/main_repo/.git/worktrees/worktree".to_string(),
        work_dir: Some("/tmp/t/worktree".to_string()),
        main_git_dir: Some("/tmp/t/main_repo/.git".to_string()),
        bare: false,
        head: None,
    });
    let tree = Tree {
        dirs: vec![
            ("/tmp/t", vec![child("/tmp/t/main_repo", true), child("/tmp/t/worktree", true)]),
            ("/tmp/t/main_repo", vec![child("/tmp/t/main_repo/.git", true)]),
            ("/tmp/t/worktree", vec![child("/tmp/t/worktree/.git", false)]),
        ],
        repos: vec![("/tmp/t/main_repo", repo_at("/tmp/t/main_repo")), ("/tmp/t/worktree", worktree)],
    };

    let result = find_repos(&tree, vec![dir("/tmp/t", 5)]);
    assert!(result.is_ok(), "Repository scanning should succeed");

    let repos = result.unwrap();
    assert!(repos.len() >= 1, "Should find at least 1 repository");
    let names: Vec<&str> = repos.iter().map(|session| session.name.as_str()).collect();
    assert_eq!(names, vec!["main_repo"]);
}

#[test]
fn test_repo_scanning_mixed_content() {
    let test_dirs = vec![
        ("/tmp/t/project1", true),
        ("/tmp/t/project2", false),
        ("/tmp/t/project3", true),
        ("/tmp/t/docs", false),
        ("/tmp/t/scripts", false),
        ("/tmp/t/project4", true),
    ];

    let mut expected_repos = 0;
    let mut dirs = vec![(
        "/tmp/t",
        test_dirs.iter().map(|(path, _)| child(path, true)).collect::<Vec<_>>(),
    )];
    let mut repos = Vec::new();
    for (path, is_repo) in &test_dirs {
        if *is_repo {
            dirs.push((*path, vec![child(&format!("{path}/.git"), true)]));
            repos.push((*path, repo_at(path)));
            expected_repos += 1;
        } else {
            dirs.push((
                *path,
                vec![
                    child(&format!("{path}/README.md"), false),
                    child(&format!("{path}/notes.txt"), false),
                ],
            ));
        }
    }
    let tree = Tree { dirs, repos };

    let result = find_repos(&tree, vec![dir("/tmp/t", 3)]);
    assert!(result.is_ok(), "Repository scanning should succeed");

    let repos = result.unwrap();
    let found_repos = repos.len();
    assert_eq!(
        found_repos, expected_repos,
        "Should find exactly {} repositories, found {}",
        expected_repos, found_repos
    );
}
