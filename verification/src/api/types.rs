//! The profile, repositories and contribution days of a GitHub user.
//! Points in time are Unix timestamps in whole seconds.
use vstd::prelude::*;

verus! {

/// A GitHub account.
#[derive(Debug, Clone)]
pub struct GithubUser {
    pub login: String,
    pub name: Option<String>,
    pub bio: Option<String>,
    pub location: Option<String>,
    pub avatar_url: String,
    pub html_url: String,
    pub public_repos: u32,
    pub followers: u32,
    pub following: u32,
    /// Unix timestamp (seconds).
    pub created_at: i64,
    /// Unix timestamp (seconds).
    pub updated_at: i64,
}

/// A repository, with the facts that the enrichment pass adds.
#[derive(Debug, Clone)]
pub struct Repository {
    pub id: u64,
    pub name: String,
    pub full_name: String,
    pub description: Option<String>,
    pub html_url: String,
    pub language: Option<String>,
    pub stargazers_count: u32,
    pub forks_count: u32,
    pub open_issues_count: u32,
    pub topics: Vec<String>,
    pub has_wiki: bool,
    pub has_issues: bool,
    pub fork: bool,
    pub archived: bool,
    /// Unix timestamp (seconds).
    pub created_at: i64,
    /// Unix timestamp (seconds).
    pub updated_at: i64,
    /// Unix timestamp (seconds) of the last push, if any.
    pub pushed_at: Option<i64>,
    pub license: Option<LicenseInfo>,
    pub has_readme: bool,
    pub has_gitignore: bool,
    pub has_ci: bool,
    pub has_tests: bool,
    pub has_contributing: bool,
    pub has_code_of_conduct: bool,
    pub closed_issues_count: u32,
}

/// The license that GitHub detected in a repository.
#[derive(Debug, Clone)]
pub struct LicenseInfo {
    pub key: String,
    pub name: String,
}

/// The number of events on one day (`date` is `YYYY-MM-DD`).
#[derive(Debug, Clone)]
pub struct ContributionDay {
    pub date: String,
    pub count: u32,
}

/// Everything fetched about one user.
#[derive(Debug, Clone)]
pub struct GithubData {
    pub user: GithubUser,
    pub repos: Vec<Repository>,
    pub contributions: Vec<ContributionDay>,
    pub total_stars: u32,
    pub total_forks: u32,
    /// Unix timestamp (seconds) of the fetch.
    pub fetched_at: i64,
}

/// A repository counts as the user's own when it is neither a fork nor
/// archived.
pub open spec fn is_owned(r: Repository) -> bool {
    !r.fork && !r.archived
}

/// `is_owned` as a filter.
pub open spec fn owned_filter() -> spec_fn(Repository) -> bool {
    |r: Repository| is_owned(r)
}

/// The repositories behind a sequence of references.
pub open spec fn derefs(s: Seq<&Repository>) -> Seq<Repository> {
    s.map_values(|r: &Repository| *r)
}

impl GithubData {
    /// The user's own repositories (not forks, not archived), in order.
    pub fn owned_repos(&self) -> (owned: Vec<&Repository>)
        ensures
            derefs(owned@) == self.repos@.filter(owned_filter()),
    {
        let mut owned: Vec<&Repository> = Vec::new();
        let mut i: usize = 0;
        while i < self.repos.len()
            invariant
                i <= self.repos.len(),
                derefs(owned@) == self.repos@.take(i as int).filter(owned_filter()),
            decreases self.repos.len() - i,
        {
            let r = &self.repos[i];
            if !r.fork && !r.archived {
                owned.push(r);
            }
            proof {
                crate::order::lemma_filter_push(self.repos@.take(i as int), *r, owned_filter());
                assert(self.repos@.take(i as int).push(*r) =~= self.repos@.take(i + 1));
                assert(derefs(owned@) =~= self.repos@.take(i + 1).filter(owned_filter()));
            }
            i = i + 1;
        }
        assert(self.repos@.take(i as int) =~= self.repos@);
        owned
    }
}

} // verus!
