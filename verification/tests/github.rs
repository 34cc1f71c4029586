use tms::configs::{GitHubCloneMethod, GitHubProfile, GitHubRepo, GitHubRepoCache};
use tms::error::TmsError;
use tms::github::{
    access_token, authorization, cache_record, clone_outcome, clone_url, display_line, is_fresh,
    name_of_line, page_url, remote_selection, to_repo, ClonePlan, GitHubApiRepo, GitHubClient,
    RepoPager,
};

fn record(name: &str) -> GitHubApiRepo {
    GitHubApiRepo {
        name: name.to_string(),
        full_name: format!("me/{}", name),
        clone_url: format!("https://github.com/me/{}.git", name),
        ssh_url: format!("git@github.com:me/{}.git", name),
        description: None,
        updated_at: "2024-01-01T00:00:00Z".to_string(),
    }
}

fn repo(name: &str) -> GitHubRepo {
    to_repo(record(name))
}

fn profile(method: Option<GitHubCloneMethod>) -> GitHubProfile {
    GitHubProfile {
        name: "work".to_string(),
        credentials_command: "echo t".to_string(),
        clone_root_path: "~/work".to_string(),
        clone_method: method,
    }
}

fn client() -> GitHubClient {
    GitHubClient::new(None, Some("/cache".to_string()), Some("/home/u".to_string())).unwrap()
}

#[test]
fn records_are_mapped_with_both_endpoints() {
    let repo = to_repo(GitHubApiRepo { description: Some("d".into()), ..record("x") });
    assert_eq!(
        repo,
        GitHubRepo {
            name: "x".into(),
            full_name: "me/x".into(),
            clone_url_ssh: "git@github.com:me/x.git".into(),
            clone_url_https: "https://github.com/me/x.git".into(),
            description: Some("d".into()),
            updated_at: "2024-01-01T00:00:00Z".into(),
        }
    );
}

#[test]
fn page_addresses() {
    assert_eq!(
        page_url(1),
        "https://api.github.com/user/repos?page=1&per_page=100&sort=updated"
    );
    assert_eq!(
        page_url(50),
        "https://api.github.com/user/repos?page=50&per_page=100&sort=updated"
    );
    assert_eq!(authorization("abc"), "token abc");
}

#[test]
fn paging_ends_on_an_empty_page() {
    let mut pager = RepoPager::new();
    assert_eq!(pager.next_page(), Some(1));
    pager.accept_page(vec![record("a"), record("b")]);
    assert_eq!(pager.next_page(), Some(2));
    pager.accept_page(vec![record("c")]);
    assert_eq!(pager.next_page(), Some(3));
    pager.accept_page(vec![]);
    assert_eq!(pager.next_page(), None);
    pager.accept_page(vec![record("ignored")]);
    assert_eq!(pager.finish(), vec![repo("a"), repo("b"), repo("c")]);
}

#[test]
fn paging_ends_after_fifty_pages() {
    let mut pager = RepoPager::new();
    let mut asked = 0;
    while let Some(page) = pager.next_page() {
        asked += 1;
        assert_eq!(page, asked);
        pager.accept_page(vec![record(&format!("r{}", page))]);
    }
    assert_eq!(asked, 50);
    assert_eq!(pager.finish().len(), 50);
}

#[test]
fn tokens_are_trimmed_and_blank_ones_refused() {
    assert_eq!(access_token(true, &b"  ghp_123 \n".to_vec()), Ok("ghp_123".to_string()));
    assert_eq!(access_token(true, &b"a b".to_vec()), Ok("a b".to_string()));
    assert_eq!(access_token(true, &b" \t\n".to_vec()), Err(TmsError::GitError));
    assert_eq!(access_token(true, &b"".to_vec()), Err(TmsError::GitError));
    assert_eq!(access_token(false, &b"ghp_123".to_vec()), Err(TmsError::GitError));
    assert_eq!(access_token(true, &vec![0xff, 0xfe]), Err(TmsError::GitError));
    assert_eq!(
        access_token(true, &"\u{a0}\u{2003}tök\u{3000}".as_bytes().to_vec()),
        Ok("tök".to_string())
    );
}

#[test]
fn freshness() {
    assert!(is_fresh(1_000, 1_000, 0));
    assert!(!is_fresh(1_000, 1_001, 0));
    assert!(is_fresh(1_000, 1_000 + 3_600, 1));
    assert!(!is_fresh(1_000, 1_000 + 3_601, 1));
    assert!(is_fresh(0, 720 * 3_600, 720));
    assert!(!is_fresh(0, 720 * 3_600 + 1, 720));
    // a record from the future has age zero
    assert!(is_fresh(5_000, 1_000, 0));
    assert!(is_fresh(0, u64::MAX, u64::MAX));
}

#[test]
fn the_kept_catalogue_is_used_only_when_it_is_the_profiles_and_fresh() {
    let client = client();
    let cached = GitHubRepoCache {
        profile_name: "work".into(),
        repositories: vec![repo("a")],
        cached_at: 10_000,
    };
    let profile = profile(None);
    assert_eq!(
        client.get_repositories(&profile, false, Some(cached.clone()), 10_500, 24),
        Some(vec![repo("a")])
    );
    assert_eq!(client.get_repositories(&profile, true, Some(cached.clone()), 10_500, 24), None);
    assert_eq!(
        client.get_repositories(&profile, false, Some(cached.clone()), 10_000 + 24 * 3600 + 1, 24),
        None
    );
    assert_eq!(client.get_repositories(&profile, false, None, 10_500, 24), None);
    let other = GitHubRepoCache { profile_name: "personal".into(), ..cached };
    assert_eq!(client.get_repositories(&profile, false, Some(other), 10_500, 24), None);
    assert_eq!(client.cache_file(&profile), "/cache/tms/remote/work");
}

#[test]
fn cache_records() {
    let made = cache_record("work", &vec![repo("a"), repo("b")], 77);
    assert_eq!(
        made,
        GitHubRepoCache {
            profile_name: "work".into(),
            repositories: vec![repo("a"), repo("b")],
            cached_at: 77
        }
    );
}

#[test]
fn clone_plans() {
    let client = client();
    let r = repo("proj");
    assert_eq!(clone_url(&r, &profile(None)), "git@github.com:me/proj.git");
    assert_eq!(clone_url(&r, &profile(Some(GitHubCloneMethod::SSH))), "git@github.com:me/proj.git");
    assert_eq!(
        clone_url(&r, &profile(Some(GitHubCloneMethod::HTTPS))),
        "https://github.com/me/proj.git"
    );
    assert_eq!(
        client.clone_repository(&r, &profile(None), "/home/u/work", true),
        ClonePlan::Existing("/home/u/work/proj".to_string())
    );
    assert_eq!(
        client.clone_repository(&r, &profile(Some(GitHubCloneMethod::HTTPS)), "/home/u/work/", false),
        ClonePlan::Clone {
            url: "https://github.com/me/proj.git".to_string(),
            name: "proj".to_string(),
            target: "/home/u/work/".to_string(),
            path: "/home/u/work/proj".to_string(),
        }
    );
    assert_eq!(clone_outcome(true, "/p".to_string()), Ok("/p".to_string()));
    assert_eq!(clone_outcome(false, "/p".to_string()), Err(TmsError::GitError));
}

#[test]
fn picker_lines_for_repositories() {
    let plain = repo("tool");
    assert_eq!(display_line(&plain), "tool - No description");
    let described = GitHubRepo { description: Some("a - b".into()), ..repo("tool") };
    assert_eq!(display_line(&described), "tool - a - b");
    assert_eq!(name_of_line("tool - a - b"), "tool");
    assert_eq!(name_of_line("tool"), "tool");
    assert_eq!(name_of_line(" - x"), "");
    assert_eq!(name_of_line(""), "");
    assert_eq!(remote_selection("/home/u/work/tool"), "remote:/home/u/work/tool");
}

#[test]
fn a_client_needs_a_place_for_its_cache() {
    assert_eq!(
        GitHubClient::new(None, None, None).map(|_| ()),
        Err(TmsError::IoError)
    );
    assert!(GitHubClient::new(Some("/s".into()), Some("/c".into()), None).is_ok());
}
