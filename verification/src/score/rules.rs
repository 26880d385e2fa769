//! What a repository and a profile score: the checks, their points, the
//! advice given for a failed check, and how the profile is summed up.
use vstd::prelude::*;

use crate::api::types::{ContributionDay, GithubData, Repository};
use crate::order::{rank_fn, sort_by_rank};
use crate::score::{ItemView, ProfileScoreView, RecView, Recommendation, RepoScoreView, ScoredName, Severity};
use crate::text::{decimal, joined, signed_decimal};

verus! {

/// Integer division that rounds toward zero, as Rust's `/` on integers and
/// chrono's `num_days` do.
pub open spec fn toward_zero_div(a: int, b: int) -> int {
    if a >= 0 {
        a / b
    } else {
        -((-a) / b)
    }
}

/// Whole days from the last push to `now` (999 when there was no push).
pub open spec fn days_since_push(repo: Repository, now: i64) -> int {
    match repo.pushed_at {
        Some(p) => toward_zero_div(now - p, 86400),
        None => 999,
    }
}

/// A check worth `max_points`, all of them when it passes and none
/// otherwise.
pub open spec fn check_item(label: Seq<char>, max_points: i32, passed: bool) -> ItemView {
    ItemView { label, points: if passed { max_points } else { 0 }, max_points, passed }
}

/// The check on how recently the repository was pushed to.
pub open spec fn recency_item(days: int) -> ItemView {
    if days < 30 {
        ItemView { label: "Last commit < 30 days"@, points: 10, max_points: 10, passed: true }
    } else if days < 90 {
        ItemView { label: "Last commit < 90 days"@, points: 5, max_points: 10, passed: true }
    } else {
        ItemView { label: "Recently active"@, points: 0, max_points: 10, passed: false }
    }
}

/// A license was detected.
pub open spec fn has_license(repo: Repository) -> bool {
    repo.license is Some
}

/// The repository has a description and at least one topic.
pub open spec fn is_described(repo: Repository) -> bool {
    repo.description is Some && repo.topics@.len() > 0
}

/// No issues at all, or at least half of them closed.
pub open spec fn issues_resolved(repo: Repository) -> bool {
    let total = repo.open_issues_count + repo.closed_issues_count;
    total == 0 || 2 * repo.closed_issues_count >= total
}

/// The six checks that come before the recency check.
pub open spec fn early_items(repo: Repository) -> Seq<ItemView> {
    seq![
        check_item("README.md"@, 15, repo.has_readme),
        check_item("LICENSE"@, 10, has_license(repo)),
        check_item(".gitignore"@, 5, repo.has_gitignore),
        check_item("CI/CD (GitHub Actions)"@, 15, repo.has_ci),
        check_item("Description + Topics"@, 10, is_described(repo)),
        check_item("Issue Resolution Ratio ≥50%"@, 10, issues_resolved(repo)),
    ]
}

/// The four checks that come after the recency check.
pub open spec fn late_items(repo: Repository) -> Seq<ItemView> {
    seq![
        check_item("Tests"@, 10, repo.has_tests),
        check_item("CONTRIBUTING.md"@, 5, repo.has_contributing),
        check_item("CODE_OF_CONDUCT.md"@, 5, repo.has_code_of_conduct),
        check_item("Has stars"@, 5, repo.stargazers_count > 0),
    ]
}

/// The eleven checks of a repository, in the order they are reported.
pub open spec fn breakdown_of(repo: Repository, now: i64) -> Seq<ItemView> {
    early_items(repo) + seq![recency_item(days_since_push(repo, now))] + late_items(repo)
}

/// The points that a check earns.
pub open spec fn points_if(passed: bool, max_points: int) -> int {
    if passed {
        max_points
    } else {
        0
    }
}

/// The points of the first six checks.
pub open spec fn early_points(repo: Repository) -> int {
    points_if(repo.has_readme, 15) + points_if(has_license(repo), 10) + points_if(
        repo.has_gitignore,
        5,
    ) + points_if(repo.has_ci, 15) + points_if(is_described(repo), 10) + points_if(
        issues_resolved(repo),
        10,
    )
}

/// The points of the last four checks.
pub open spec fn late_points(repo: Repository) -> int {
    points_if(repo.has_tests, 10) + points_if(repo.has_contributing, 5) + points_if(
        repo.has_code_of_conduct,
        5,
    ) + points_if(repo.stargazers_count > 0, 5)
}

/// The score of a repository: the sum of the points of its eleven checks.
pub open spec fn total_points(repo: Repository, now: i64) -> int {
    early_points(repo) + recency_item(days_since_push(repo, now)).points + late_points(repo)
}

/// A piece of advice.
pub open spec fn advice(severity: Severity, message: Seq<char>, impact: i32) -> RecView {
    RecView { severity, message, impact }
}

/// `r` alone when `c` holds, nothing otherwise.
pub open spec fn only_if(c: bool, r: RecView) -> Seq<RecView> {
    if c {
        seq![r]
    } else {
        seq![]
    }
}

/// The advice for the failed checks among the first six.
pub open spec fn early_advice(repo: Repository) -> Seq<RecView> {
    let name = repo.name@;
    only_if(
        !repo.has_readme,
        advice(
            Severity::Critical,
            "Add a README.md to "@ + name + " — first thing visitors see"@,
            15,
        ),
    ) + only_if(
        !has_license(repo),
        advice(
            Severity::Critical,
            "Add a LICENSE to "@ + name + " (MIT recommended for open-source adoption)"@,
            10,
        ),
    ) + only_if(
        !repo.has_gitignore,
        advice(
            Severity::Warning,
            "Add .gitignore to "@ + name + " to avoid committing build artifacts"@,
            5,
        ),
    ) + only_if(
        !repo.has_ci,
        advice(
            Severity::Critical,
            "Add CI/CD to "@ + name + " — create .github/workflows/ci.yml"@,
            15,
        ),
    ) + only_if(
        !is_described(repo),
        advice(
            Severity::Warning,
            "Add description and topics to "@ + name + " for discoverability"@,
            10,
        ),
    ) + only_if(
        !issues_resolved(repo),
        advice(
            Severity::Warning,
            name + " has many open issues — consider triaging and closing stale ones"@,
            10,
        ),
    )
}

/// The advice of the recency check, when it failed.
pub open spec fn recency_advice(repo: Repository, now: i64) -> Seq<RecView> {
    let days = days_since_push(repo, now);
    only_if(
        days >= 90,
        advice(
            Severity::Info,
            repo.name@ + " hasn't been updated in "@ + signed_decimal(days)
                + " days — consider archiving or updating"@,
            5,
        ),
    )
}

/// The advice for the failed checks among the last four.
pub open spec fn late_advice(repo: Repository) -> Seq<RecView> {
    let name = repo.name@;
    only_if(
        !repo.has_tests,
        advice(Severity::Warning, "Add tests to "@ + name + " — no tests/ directory found"@, 10),
    ) + only_if(
        !repo.has_contributing,
        advice(
            Severity::Info,
            "Add CONTRIBUTING.md to "@ + name + " to guide contributors"@,
            5,
        ),
    ) + only_if(
        !repo.has_code_of_conduct,
        advice(
            Severity::Info,
            "Add CODE_OF_CONDUCT.md to "@ + name + " for community health"@,
            5,
        ),
    ) + only_if(
        repo.stargazers_count == 0,
        advice(Severity::Info, name + " has no stars yet — promote it!"@, 5),
    )
}

/// The advice for every failed check, in the order of the checks.
pub open spec fn failed_check_advice(repo: Repository, now: i64) -> Seq<RecView> {
    early_advice(repo) + recency_advice(repo, now) + late_advice(repo)
}

/// The praise that closes the advice of a repository scoring at least 90.
pub open spec fn praise(repo: Repository, score: int) -> RecView {
    advice(
        Severity::Good,
        "✅ "@ + repo.name@ + " — Health Score "@ + decimal(score as nat) + "/"@ + decimal(100)
            + ": Excellent repo!"@,
        0,
    )
}

/// The advice of a repository: the advice for failed checks, highest
/// impact first (ties in check order), then the praise when the score is
/// at least 90 out of 100.
pub open spec fn advice_of(repo: Repository, now: i64) -> Seq<RecView> {
    let score = total_points(repo, now);
    sort_by_rank(failed_check_advice(repo, now), rank_fn::<Recommendation>()) + only_if(
        score >= 90,
        praise(repo, score),
    )
}

/// The score card of a repository at time `now`.
pub open spec fn score_of(repo: Repository, now: i64) -> RepoScoreView {
    RepoScoreView {
        repo_name: repo.name@,
        score: total_points(repo, now) as u8,
        max_score: 100,
        breakdown: breakdown_of(repo, now),
        recommendations: advice_of(repo, now),
    }
}

/// `card` is the card of `repo` at some instant.
pub open spec fn scored_at_some_time(card: RepoScoreView, repo: Repository) -> bool {
    exists|now: i64| card == #[trigger] score_of(repo, now)
}

/// The number of days with at least one event.
pub open spec fn active_days(days: Seq<ContributionDay>) -> nat {
    days.filter(is_active_day()).len()
}

/// A day with at least one event.
pub open spec fn is_active_day() -> spec_fn(ContributionDay) -> bool {
    |d: ContributionDay| d.count > 0
}

/// How complete the profile is, out of 100: a name (20), a bio (20), a
/// location (10), followers (20, and 10 more with at least as many
/// followers as followed accounts), activity (20 for more than 50 active
/// days, 10 for more than 20).
pub open spec fn profile_completeness_of(data: GithubData) -> int {
    let u = data.user;
    let active = active_days(data.contributions@);
    (if u.name is Some {
        20int
    } else {
        0
    }) + (if u.bio is Some {
        20int
    } else {
        0
    }) + (if u.location is Some {
        10int
    } else {
        0
    }) + (if u.followers > 0 {
        20 + (if u.followers >= (if u.following > 1 {
            u.following
        } else {
            1
        }) {
            10int
        } else {
            0
        })
    } else {
        0
    }) + (if active > 50 {
        20int
    } else if active > 20 {
        10int
    } else {
        0
    })
}

/// The sum of the scores of the repository cards.
pub open spec fn score_sum(s: Seq<RepoScoreView>) -> int
    decreases s.len(),
{
    if s.len() == 0 {
        0
    } else {
        score_sum(s.drop_last()) + s.last().score
    }
}

/// The average repository score, rounded down (0 without repositories).
pub open spec fn average_score(s: Seq<RepoScoreView>) -> int {
    if s.len() == 0 {
        0
    } else {
        score_sum(s) / (s.len() as int)
    }
}

/// The overall score: 60% of the average repository score and 40% of the
/// profile completeness, rounded down.
pub open spec fn overall_of(average: int, completeness: int) -> int {
    (3 * average + 2 * completeness) / 5
}

/// A repository name with its score, as the top list ranks them.
pub struct NamedScore {
    pub name: Seq<char>,
    pub score: u8,
}

/// The names and scores of the repository cards.
pub open spec fn named_scores(s: Seq<RepoScoreView>) -> Seq<NamedScore> {
    s.map_values(|r: RepoScoreView| NamedScore { name: r.repo_name, score: r.score })
}

/// The names of at most five best-scoring repositories, best first (ties
/// in card order).
pub open spec fn top_names(s: Seq<RepoScoreView>) -> Seq<Seq<char>> {
    let ranked = sort_by_rank(named_scores(s), rank_fn::<ScoredName>());
    let kept = if ranked.len() > 5 {
        ranked.take(5)
    } else {
        ranked
    };
    kept.map_values(|n: NamedScore| n.name)
}

/// The advice of all cards, card after card.
pub open spec fn all_advice(s: Seq<RepoScoreView>) -> Seq<RecView>
    decreases s.len(),
{
    if s.len() == 0 {
        seq![]
    } else {
        all_advice(s.drop_last()) + s.last().recommendations
    }
}

/// Advice that is not praise.
pub open spec fn is_actionable() -> spec_fn(RecView) -> bool {
    |r: RecView| r.severity != Severity::Good
}

/// `s` without the elements whose message repeats that of the element just
/// before them.
pub open spec fn without_repeats(s: Seq<RecView>) -> Seq<RecView>
    decreases s.len(),
{
    if s.len() == 0 {
        s
    } else if s.len() >= 2 && s[s.len() - 1].message == s[s.len() - 2].message {
        without_repeats(s.drop_last())
    } else {
        without_repeats(s.drop_last()).push(s.last())
    }
}

/// The profile's advice list: the advice of all cards except praise,
/// highest impact first (stable), without consecutive repeats of a message.
pub open spec fn profile_advice(s: Seq<RepoScoreView>) -> Seq<RecView> {
    without_repeats(sort_by_rank(all_advice(s).filter(is_actionable()), rank_fn::<Recommendation>()))
}

/// The profile summary that goes with the given repository cards.
pub open spec fn profile_of(data: GithubData, cards: Seq<RepoScoreView>) -> ProfileScoreView {
    let average = average_score(cards);
    ProfileScoreView {
        overall: overall_of(average, profile_completeness_of(data)) as u8,
        repo_scores: cards,
        total_stars: data.total_stars,
        total_forks: data.total_forks,
        avg_repo_score: average as u8,
        top_repos: top_names(cards),
        all_recommendations: profile_advice(cards),
    }
}

/// The letter grade of an overall score.
pub open spec fn grade_of(score: u8) -> Seq<char> {
    if 90 <= score <= 100 {
        "S"@
    } else if 80 <= score <= 89 {
        "A"@
    } else if 70 <= score <= 79 {
        "B"@
    } else if 60 <= score <= 69 {
        "C"@
    } else if 50 <= score <= 59 {
        "D"@
    } else {
        "F"@
    }
}

/// The three-line text summary of a profile score.
pub open spec fn summary_of(p: ProfileScoreView) -> Seq<char> {
    "Developer Health Score: "@ + decimal(p.overall as nat) + "/100 (Grade: "@ + grade_of(p.overall)
        + ")\nAvg Repo Score: "@ + decimal(p.avg_repo_score as nat) + "/100 | Stars: "@ + decimal(
        p.total_stars as nat,
    ) + " | Forks: "@ + decimal(p.total_forks as nat) + "\nTop repos: "@ + joined(
        p.top_repos,
        ", "@,
    )
}

} // verus!
