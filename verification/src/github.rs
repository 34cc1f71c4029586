use vstd::prelude::*;
use crate::configs::{GitHubCloneMethod, GitHubProfile, GitHubRepo, GitHubRepoCache};
use crate::error::TmsError;
use crate::paths::{join_path, join_spec};
use crate::state::StateManager;
use crate::text::{
    chars_of, clone_optional, contains_text, decimal, decimal_spec, find_text, occurs_at,
    string_of, trim, trim_spec,
};

verus! {

/// Repositories asked for with each request.
pub const PER_PAGE: u64 = 100;

/// The greatest number of pages that is asked for.
pub const MAX_PAGES: u64 = 50;

/// Seconds in an hour.
pub const SECONDS_PER_HOUR: u64 = 3600;

/// A repository as the remote service describes it.
#[derive(Debug, Clone, PartialEq, Eq)]
pub struct GitHubApiRepo {
    pub name: String,
    pub full_name: String,
    pub clone_url: String,
    pub ssh_url: String,
    pub description: Option<String>,
    pub updated_at: String,
}

/// The repository that a record of the remote service stands for.
pub open spec fn to_repo_spec(record: GitHubApiRepo) -> GitHubRepo {
    GitHubRepo {
        name: record.name,
        full_name: record.full_name,
        clone_url_ssh: record.ssh_url,
        clone_url_https: record.clone_url,
        description: record.description,
        updated_at: record.updated_at,
    }
}

/// The repository that a record of the remote service stands for: the same fields, with
/// both clone endpoints.
pub fn to_repo(record: GitHubApiRepo) -> (repo: GitHubRepo)
    ensures
        repo == to_repo_spec(record),
{
    GitHubRepo {
        name: record.name,
        full_name: record.full_name,
        clone_url_ssh: record.ssh_url,
        clone_url_https: record.clone_url,
        description: record.description,
        updated_at: record.updated_at,
    }
}

/// A copy with the same fields.
pub fn clone_repo(repo: &GitHubRepo) -> (copy: GitHubRepo)
    ensures
        copy == *repo,
{
    GitHubRepo {
        name: repo.name.clone(),
        full_name: repo.full_name.clone(),
        clone_url_ssh: repo.clone_url_ssh.clone(),
        clone_url_https: repo.clone_url_https.clone(),
        description: clone_optional(&repo.description),
        updated_at: repo.updated_at.clone(),
    }
}

/// A copy of a list of repositories.
pub fn clone_repos(repos: &Vec<GitHubRepo>) -> (copy: Vec<GitHubRepo>)
    ensures
        copy@ == repos@,
{
    let mut copy: Vec<GitHubRepo> = Vec::new();
    let mut i: usize = 0;
    while i < repos.len()
        invariant
            i <= repos.len(),
            copy@ == repos@.take(i as int),
        decreases repos.len() - i,
    {
        copy.push(clone_repo(&repos[i]));
        i += 1;
    }
    assert(repos@.take(repos.len() as int) =~= repos@);
    copy
}

/// A record made at `cached_at` is still good at `now` when kept for `ttl_hours`: its age
/// is at most that many hours. A record from the future has age zero.
pub open spec fn is_fresh_spec(cached_at: u64, now: u64, ttl_hours: u64) -> bool {
    now <= cached_at || now - cached_at <= ttl_hours * SECONDS_PER_HOUR
}

/// Whether a record made at `cached_at` is still good at `now`.
pub fn is_fresh(cached_at: u64, now: u64, ttl_hours: u64) -> (fresh: bool)
    ensures
        fresh == is_fresh_spec(cached_at, now, ttl_hours),
{
    if now <= cached_at {
        return true;
    }
    let age = now - cached_at;
    match ttl_hours.checked_mul(SECONDS_PER_HOUR) {
        Some(ttl) => age <= ttl,
        None => true,
    }
}

/// The address of page `page` of the listing: a hundred repositories a page, the most
/// recently updated first.
pub open spec fn page_url_spec(page: u64) -> Seq<char> {
    "https://api.github.com/user/repos?page="@ + decimal_spec(page as nat) + "&per_page="@
        + decimal_spec(PER_PAGE as nat) + "&sort=updated"@
}

/// The address of page `page` of the listing.
pub fn page_url(page: u64) -> (url: String)
    ensures
        url@ == page_url_spec(page),
{
    let mut url = "https://api.github.com/user/repos?page=".to_string();
    url.push_str(decimal(page).as_str());
    url.push_str("&per_page=");
    url.push_str(decimal(PER_PAGE).as_str());
    url.push_str("&sort=updated");
    url
}

/// The value of the authorization header for `token`.
pub fn authorization(token: &str) -> (header: String)
    ensures
        header@ == "token "@ + token@,
{
    let mut header = "token ".to_string();
    header.push_str(token);
    header
}

/// The credential that the output of the credential command gives: the output as text,
/// without the white space around it. A command that failed gives none, and neither does
/// output that is not UTF-8 or that is blank.
pub open spec fn token_spec(succeeded: bool, stdout: Seq<u8>) -> Option<Seq<char>> {
    if succeeded && vstd::utf8::valid_utf8(stdout) && trim_spec(
        vstd::utf8::decode_utf8(stdout),
    ).len() > 0 {
        Some(trim_spec(vstd::utf8::decode_utf8(stdout)))
    } else {
        None
    }
}

/// The credential for the remote service, from what the credential command did. Where
/// there is none, the error is `GitError`.
pub fn access_token(succeeded: bool, stdout: &Vec<u8>) -> (token: Result<String, TmsError>)
    ensures
        match token {
            Ok(text) => token_spec(succeeded, stdout@) == Some(text@),
            Err(error) => token_spec(succeeded, stdout@) is None && error == TmsError::GitError,
        },
{
    if !succeeded {
        return Err(TmsError::GitError);
    }
    match core::str::from_utf8(stdout.as_slice()) {
        Ok(text) => {
            let token = trim(text);
            if token.as_str().is_empty() {
                Err(TmsError::GitError)
            } else {
                Ok(token)
            }
        },
        Err(_) => Err(TmsError::GitError),
    }
}

/// The repositories that a list of records stands for, in order.
pub open spec fn to_repos_spec(records: Seq<GitHubApiRepo>) -> Seq<GitHubRepo> {
    records.map_values(|record: GitHubApiRepo| to_repo_spec(record))
}

/// Pages through the listing of the remote service: says which page to ask for next,
/// and collects what the pages hold.
#[derive(Debug, Clone, PartialEq, Eq)]
pub struct RepoPager {
    page: u64,
    repos: Vec<GitHubRepo>,
    done: bool,
}

impl RepoPager {
    /// The number of the page that is asked for next.
    pub closed spec fn page(&self) -> u64 {
        self.page
    }

    /// The repositories collected so far.
    pub closed spec fn repos(&self) -> Seq<GitHubRepo> {
        self.repos@
    }

    /// No further page is asked for.
    pub closed spec fn done(&self) -> bool {
        self.done
    }

    /// While the paging goes on, the next page is one of the first fifty.
    pub closed spec fn wf(&self) -> bool {
        1 <= self.page <= MAX_PAGES + 1 && (!self.done ==> self.page <= MAX_PAGES)
    }

    /// A pager that has asked for nothing yet.
    pub fn new() -> (pager: RepoPager)
        ensures
            pager.wf(),
            pager.page() == 1,
            pager.repos() == Seq::<GitHubRepo>::empty(),
            !pager.done(),
    {
        RepoPager { page: 1, repos: Vec::new(), done: false }
    }

    /// The page to ask for next; none once the listing is exhausted or fifty pages were
    /// taken.
    pub fn next_page(&self) -> (page: Option<u64>)
        requires
            self.wf(),
        ensures
            page == if self.done() {
                None
            } else {
                Some(self.page())
            },
            page matches Some(number) ==> 1 <= number <= MAX_PAGES,
    {
        if self.done {
            None
        } else {
            Some(self.page)
        }
    }

    /// Takes the records of the page that was asked for. An empty page ends the paging
    /// and so does the fiftieth page; the records of any other page are added to what was
    /// collected, and the next page is asked for. Once the paging has ended nothing is
    /// taken any more.
    pub fn accept_page(&mut self, records: Vec<GitHubApiRepo>)
        requires
            old(self).wf(),
        ensures
            final(self).wf(),
            old(self).done() ==> *final(self) == *old(self),
            !old(self).done() && records@.len() == 0 ==> final(self).done() && final(self).repos()
                == old(self).repos() && final(self).page() == old(self).page(),
            !old(self).done() && records@.len() > 0 ==> final(self).repos() == old(self).repos()
                + to_repos_spec(records@) && final(self).page() == old(self).page() + 1
                && final(self).done() == (old(self).page() == MAX_PAGES),
    {
        if self.done {
            return ;
        }
        if records.len() == 0 {
            self.done = true;
            return ;
        }
        let ghost before = self.repos@;
        let ghost wanted = to_repos_spec(records@);
        let mut i: usize = 0;
        while i < records.len()
            invariant
                i <= records.len(),
                wanted == to_repos_spec(records@),
                self.repos@ =~= before + wanted.take(i as int),
                self.page == old(self).page,
                self.done == old(self).done,
            decreases records.len() - i,
        {
            let repo = GitHubRepo {
                name: records[i].name.clone(),
                full_name: records[i].full_name.clone(),
                clone_url_ssh: records[i].ssh_url.clone(),
                clone_url_https: records[i].clone_url.clone(),
                description: clone_optional(&records[i].description),
                updated_at: records[i].updated_at.clone(),
            };
            proof {
                assert(repo == wanted[i as int]);
                assert(wanted.take(i + 1) =~= wanted.take(i as int).push(wanted[i as int]));
            }
            self.repos.push(repo);
            i += 1;
        }
        proof {
            assert(wanted.take(wanted.len() as int) =~= wanted);
        }
        self.page = self.page + 1;
        if self.page > MAX_PAGES {
            self.done = true;
        }
    }

    /// What was collected.
    pub fn finish(self) -> (repos: Vec<GitHubRepo>)
        ensures
            repos@ == self.repos(),
    {
        self.repos
    }
}

/// At most fifty pages are ever asked for.
pub proof fn lemma_page_cap(pager: RepoPager)
    requires
        pager.wf(),
    ensures
        !pager.done() ==> pager.page() <= MAX_PAGES,
        pager.page() <= MAX_PAGES + 1,
{
}

/// The record under which the catalogue of `profile_name` is kept from `now` on.
pub fn cache_record(profile_name: &str, repos: &Vec<GitHubRepo>, now: u64) -> (record: GitHubRepoCache)
    ensures
        record.profile_name@ == profile_name@,
        record.repositories@ == repos@,
        record.cached_at == now,
{
    GitHubRepoCache {
        profile_name: profile_name.to_string(),
        repositories: clone_repos(repos),
        cached_at: now,
    }
}

/// The endpoint from which `repo` is cloned under `profile`: the encrypted shell
/// endpoint unless the profile asks for the plain one.
pub open spec fn clone_url_spec(repo: GitHubRepo, profile: GitHubProfile) -> Seq<char> {
    match profile.clone_method {
        Some(GitHubCloneMethod::HTTPS) => repo.clone_url_https@,
        _ => repo.clone_url_ssh@,
    }
}

pub fn clone_url<'a>(repo: &'a GitHubRepo, profile: &GitHubProfile) -> (url: &'a str)
    ensures
        url@ == clone_url_spec(*repo, *profile),
{
    match profile.clone_method {
        Some(GitHubCloneMethod::HTTPS) => repo.clone_url_https.as_str(),
        _ => repo.clone_url_ssh.as_str(),
    }
}

/// What is to be done to have a clone of a repository.
#[derive(Debug, Clone, PartialEq, Eq)]
pub enum ClonePlan {
    /// The clone is there already, at this path.
    Existing(String),
    /// Make sure that `target` exists, then clone `url` into `name` below it; the clone
    /// is then at `path`.
    Clone { url: String, name: String, target: String, path: String },
}

/// The line of the picker for a repository: its name and its description.
pub open spec fn display_line_spec(repo: GitHubRepo) -> Seq<char> {
    repo.name@ + " - "@ + match repo.description {
        Some(description) => description@,
        None => "No description"@,
    }
}

pub fn display_line(repo: &GitHubRepo) -> (line: String)
    ensures
        line@ == display_line_spec(*repo),
{
    let mut line = repo.name.clone();
    line.push_str(" - ");
    match &repo.description {
        Some(description) => line.push_str(description.as_str()),
        None => line.push_str("No description"),
    }
    line
}

/// What stands in `line` before the first ` - `; the whole line where it holds none.
pub open spec fn name_of_line_spec(line: Seq<char>) -> Seq<char> {
    if contains_text(line, " - "@) {
        line.take(choose|at: int| occurs_at(line, " - "@, at) && forall|k: int| 0 <= k < at ==> !occurs_at(line, " - "@, k))
    } else {
        line
    }
}

/// The name of the repository that a line of the picker stands for.
pub fn name_of_line(line: &str) -> (name: String)
    ensures
        name@ == name_of_line_spec(line@),
{
    let chars = chars_of(line);
    let mark = chars_of(" - ");
    match find_text(&chars, &mark) {
        Some(at) => {
            proof {
                let chosen = choose|c: int| occurs_at(line@, " - "@, c) && forall|k: int| 0 <= k < c ==> !occurs_at(line@, " - "@, k);
                assert(occurs_at(line@, " - "@, at as int));
                assert(contains_text(line@, " - "@));
                if chosen < at {
                    assert(!occurs_at(line@, " - "@, chosen));
                }
                if at < chosen {
                    assert(!occurs_at(line@, " - "@, at as int));
                }
            }
            let head = crate::paths::slice_of(&chars, 0, at);
            assert(head@ =~= chars@.take(at as int));
            string_of(&head)
        },
        None => line.to_string(),
    }
}

/// The answer of the picker for a clone at `local_path`, marked as a remote selection.
pub open spec fn remote_selection_spec(local_path: Seq<char>) -> Seq<char> {
    "remote:"@ + local_path
}

pub fn remote_selection(local_path: &str) -> (answer: String)
    ensures
        answer@ == remote_selection_spec(local_path@),
{
    let mut answer = "remote:".to_string();
    answer.push_str(local_path);
    answer
}

/// The client of the remote catalogue: what it decides, with requests and files left to
/// the caller.
#[derive(Debug, Clone, PartialEq, Eq)]
pub struct GitHubClient {
    pub state_manager: StateManager,
}

impl GitHubClient {
    /// A client whose cache lies where the environment says; see `StateManager::new`.
    pub fn new(
        xdg_state_home: Option<String>,
        xdg_cache_home: Option<String>,
        home: Option<String>,
    ) -> (made: Result<GitHubClient, TmsError>)
        ensures
            match made {
                Ok(client) => client.state_manager.is_new_for(xdg_state_home, xdg_cache_home, home),
                Err(error) => {
                    &&& error == TmsError::IoError
                    &&& (crate::state::xdg_home_spec(
                        xdg_state_home,
                        home,
                        crate::state::default_state_home(),
                    ) is None || crate::state::xdg_home_spec(
                        xdg_cache_home,
                        home,
                        crate::state::default_cache_home(),
                    ) is None)
                },
            },
    {
        match StateManager::new(xdg_state_home, xdg_cache_home, home) {
            Ok(state_manager) => Ok(GitHubClient { state_manager }),
            Err(error) => Err(error),
        }
    }

    /// The catalogue kept for `profile` can be used in place of a request: no refresh is
    /// forced, a record is there, it is the profile's, and it is fresh.
    pub open spec fn reuses(
        profile: GitHubProfile,
        force_refresh: bool,
        cached: Option<GitHubRepoCache>,
        now: u64,
        ttl_hours: u64,
    ) -> bool {
        &&& !force_refresh
        &&& cached matches Some(record)
        &&& record.profile_name@ == profile.name@
        &&& is_fresh_spec(record.cached_at, now, ttl_hours)
    }

    /// The repositories of `profile` as far as they are known without a request: those
    /// of the kept catalogue `cached` where that can be used, none otherwise; the
    /// catalogue is then to be fetched anew.
    pub fn get_repositories(
        &self,
        profile: &GitHubProfile,
        force_refresh: bool,
        cached: Option<GitHubRepoCache>,
        now: u64,
        ttl_hours: u64,
    ) -> (repos: Option<Vec<GitHubRepo>>)
        ensures
            match repos {
                Some(list) => Self::reuses(*profile, force_refresh, cached, now, ttl_hours)
                    && list@ == cached->0.repositories@,
                None => !Self::reuses(*profile, force_refresh, cached, now, ttl_hours),
            },
    {
        if force_refresh {
            return None;
        }
        match cached {
            Some(record) => {
                if *record.profile_name.as_str() == *profile.name.as_str() && is_fresh(
                    record.cached_at,
                    now,
                    ttl_hours,
                ) {
                    Some(record.repositories)
                } else {
                    None
                }
            },
            None => None,
        }
    }

    /// How to come by a clone of `repo` below `target_path`: the clone's path is
    /// `target_path` with the repository's name below it. Where that exists already
    /// (`exists`), nothing is to be done; else the repository is cloned from the
    /// endpoint that the profile prefers.
    pub fn clone_repository(
        &self,
        repo: &GitHubRepo,
        profile: &GitHubProfile,
        target_path: &str,
        exists: bool,
    ) -> (plan: ClonePlan)
        ensures
            match plan {
                ClonePlan::Existing(path) => exists && path@ == join_spec(target_path@, repo.name@),
                ClonePlan::Clone { url, name, target, path } => {
                    &&& !exists
                    &&& url@ == clone_url_spec(*repo, *profile)
                    &&& name@ == repo.name@
                    &&& target@ == target_path@
                    &&& path@ == join_spec(target_path@, repo.name@)
                },
            },
    {
        let path = join_path(target_path, repo.name.as_str());
        if exists {
            ClonePlan::Existing(path)
        } else {
            ClonePlan::Clone {
                url: clone_url(repo, profile).to_string(),
                name: repo.name.clone(),
                target: target_path.to_string(),
                path,
            }
        }
    }

    /// The file that holds the catalogue of `profile` between runs.
    pub fn cache_file(&self, profile: &GitHubProfile) -> (path: String)
        ensures
            path@ == join_spec(
                join_spec(self.state_manager.cache_dir(), "remote"@),
                profile.name@,
            ),
    {
        self.state_manager.get_cache_file_path(profile.name.as_str())
    }
}

/// What came of the clone command: the clone's path where it succeeded, a `GitError`
/// where it did not.
pub fn clone_outcome(succeeded: bool, path: String) -> (outcome: Result<String, TmsError>)
    ensures
        outcome == if succeeded {
            Ok::<String, TmsError>(path)
        } else {
            Err::<String, TmsError>(TmsError::GitError)
        },
{
    if succeeded {
        Ok(path)
    } else {
        Err(TmsError::GitError)
    }
}

} // verus!
